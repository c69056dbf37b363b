//! Opening the automation session: the driver's command line and address, and
//! the decision taken after each connection attempt. Attempts go on until one
//! succeeds; there is no limit on their number.

use vstd::prelude::*;

use crate::decimal::{append_digits, digits};

verus! {

/// Seconds to wait after a refused connection before the next attempt.
pub const CONNECT_RETRY_SECS: u64 = 5;

/// What to do after a connection attempt.
#[derive(PartialEq, Eq, Structural, Clone, Copy, Debug)]
pub enum ConnectAction {
    /// Wait this many seconds, then attempt again.
    RetryAfter { delay_secs: u64 },
    /// The session is open: go on to the login gate.
    Proceed,
}

pub open spec fn connect_decision(established: bool) -> ConnectAction {
    if established {
        ConnectAction::Proceed
    } else {
        ConnectAction::RetryAfter { delay_secs: CONNECT_RETRY_SECS }
    }
}

/// The action after an attempt that did (`true`) or did not open a session.
pub fn after_connect_attempt(established: bool) -> (r: ConnectAction)
    ensures
        r == connect_decision(established),
{
    if established {
        ConnectAction::Proceed
    } else {
        ConnectAction::RetryAfter { delay_secs: CONNECT_RETRY_SECS }
    }
}

/// The actions taken over a run of attempt outcomes: one per attempt, up to
/// and including the first that succeeds; outcomes after it are never seen.
pub open spec fn connect_schedule(outcomes: Seq<bool>) -> Seq<ConnectAction>
    decreases outcomes.len(),
{
    if outcomes.len() == 0 {
        Seq::empty()
    } else if outcomes[0] {
        seq![connect_decision(true)]
    } else {
        seq![connect_decision(false)] + connect_schedule(outcomes.drop_first())
    }
}

/// Against a driver that refuses `n` attempts and then accepts, the session
/// opens after exactly `n` failed attempts, each followed by a wait of
/// `CONNECT_RETRY_SECS` seconds, and then proceeds.
pub proof fn lemma_retries_until_established(n: nat)
    ensures
        connect_schedule(Seq::new(n, |i: int| false).push(true)) == Seq::new(
            n,
            |i: int| ConnectAction::RetryAfter { delay_secs: CONNECT_RETRY_SECS },
        ).push(ConnectAction::Proceed),
    decreases n,
{
    let outcomes = Seq::new(n, |i: int| false).push(true);
    let expected = Seq::new(
        n,
        |i: int| ConnectAction::RetryAfter { delay_secs: CONNECT_RETRY_SECS },
    ).push(ConnectAction::Proceed);
    if n == 0 {
        assert(connect_schedule(outcomes) =~= expected);
    } else {
        lemma_retries_until_established((n - 1) as nat);
        assert(outcomes.drop_first() =~= Seq::new((n - 1) as nat, |i: int| false).push(true));
        assert(expected =~= seq![connect_decision(false)] + Seq::new(
            (n - 1) as nat,
            |i: int| ConnectAction::RetryAfter { delay_secs: CONNECT_RETRY_SECS },
        ).push(ConnectAction::Proceed));
    }
}

/// An object of JSON values, as the automation session takes its capabilities.
#[verifier::external_type_specification]
#[verifier::external_body]
#[verifier::reject_recursive_types(K)]
#[verifier::reject_recursive_types(V)]
pub struct ExJsonMap<K, V>(serde_json::Map<K, V>);

#[verifier::external_type_specification]
#[verifier::external_body]
pub struct ExJsonValue(serde_json::Value);

#[verifier::external_type_specification]
#[verifier::external_body]
pub struct ExJsonError(serde_json::Error);

/// The capabilities asked of the browser, as JSON text: Chrome is started
/// with the flag that hides the markers of automation from the pages.
pub open spec fn capabilities_text() -> Seq<char> {
    "{\"goog:chromeOptions\":{\"args\":[\"--disable-blink-features=AutomationControlled\"]}}"@
}

/// The object that `serde_json::from_str` parses out of `text`.
pub uninterp spec fn json_object_of(text: Seq<char>) -> serde_json::Map<String, serde_json::Value>;

/// Relies on `serde_json::from_str`, here parsing JSON text into an object:
/// the object depends on the text alone, and the capabilities text, a
/// well-formed JSON object, parses.
#[verifier::external_body]
fn parse_json_object(text: &str) -> (r: Result<
    serde_json::Map<String, serde_json::Value>,
    serde_json::Error,
>)
    ensures
        r is Ok ==> r->Ok_0 == json_object_of(text@),
        text@ == capabilities_text() ==> r is Ok,
{
    serde_json::from_str(text)
}

/// The text of the capabilities asked of the browser.
pub fn capabilities_json() -> (r: &'static str)
    ensures
        r@ == capabilities_text(),
{
    "{\"goog:chromeOptions\":{\"args\":[\"--disable-blink-features=AutomationControlled\"]}}"
}

/// The capabilities asked of the browser, parsed from `capabilities_json`.
pub fn automation_capabilities() -> (r: Result<
    serde_json::Map<String, serde_json::Value>,
    serde_json::Error,
>)
    ensures
        r is Ok,
        r->Ok_0 == json_object_of(capabilities_text()),
{
    parse_json_object(capabilities_json())
}

/// `--port=` and the port's digits.
pub open spec fn port_arg_text(port: nat) -> Seq<char> {
    seq!['-', '-', 'p', 'o', 'r', 't', '='] + digits(port)
}

/// `http://127.0.0.1:` and the port's digits.
pub open spec fn endpoint_text(port: nat) -> Seq<char> {
    seq!['h', 't', 't', 'p', ':', '/', '/', '1', '2', '7', '.', '0', '.', '0', '.', '1', ':']
        + digits(port)
}

/// The argument that tells the driver which port to listen on.
pub fn driver_port_arg(port: u16) -> (r: String)
    ensures
        r@ == port_arg_text(port as nat),
{
    let mut out = String::new();
    proof {
        reveal_strlit("--port=");
    }
    out.append("--port=");
    append_digits(&mut out, port as u64);
    assert(out@ =~= port_arg_text(port as nat));
    out
}

/// The address of the driver listening on `port` of the loopback interface.
pub fn driver_endpoint(port: u16) -> (r: String)
    ensures
        r@ == endpoint_text(port as nat),
{
    let mut out = String::new();
    proof {
        reveal_strlit("http://127.0.0.1:");
    }
    out.append("http://127.0.0.1:");
    append_digits(&mut out, port as u64);
    assert(out@ =~= endpoint_text(port as nat));
    out
}

} // verus!
