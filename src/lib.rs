//! Session bootstrap and cookie-jar export for a browser kept logged in by a
//! person: the decisions of the connect, login and export phases, and the
//! Netscape cookie-jar text format.

pub mod connect;
pub mod decimal;
pub mod gate;
pub mod jar;
