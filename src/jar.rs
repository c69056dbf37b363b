//! The Netscape cookie-jar text format: one line of seven tab-separated fields
//! per cookie, each line ended by a newline.

use vstd::prelude::*;

use crate::decimal::{append_decimal, decimal, lemma_decimal_has_no_newline};

verus! {

/// Seconds between two exports of the jar: six hours.
pub const EXPORT_PERIOD_SECS: u64 = 21600;

/// A cookie's same-site policy.
#[derive(PartialEq, Eq, Structural, Clone, Copy, Debug)]
pub enum SameSitePolicy {
    Strict,
    Lax,
    Unrestricted,
}

/// One cookie as the browser reports it; every attribute but the name and
/// the value may be missing.
#[derive(Clone, Debug)]
pub struct CookieRecord {
    pub name: String,
    pub value: String,
    pub domain: Option<String>,
    pub path: Option<String>,
    pub same_site: Option<SameSitePolicy>,
    pub secure: Option<bool>,
    /// Absolute expiry, in seconds since the Unix epoch.
    pub expires: Option<i64>,
}

/// The page the browser shows when the cookies are read: where a cookie's
/// domain or path is missing, these stand in for it.
#[derive(Clone, Debug)]
pub struct PageLocation {
    pub domain: Option<String>,
    pub path: String,
}

pub open spec fn tab() -> Seq<char> {
    seq!['\t']
}

/// `TRUE` or `FALSE`.
pub open spec fn flag_text(b: bool) -> Seq<char> {
    if b {
        seq!['T', 'R', 'U', 'E']
    } else {
        seq!['F', 'A', 'L', 'S', 'E']
    }
}

/// The cookie's domain, else the page's domain, else nothing.
pub open spec fn domain_field(c: CookieRecord, at: PageLocation) -> Seq<char> {
    match c.domain {
        Some(d) => d@,
        None => match at.domain {
            Some(d) => d@,
            None => Seq::empty(),
        },
    }
}

/// Only a lax policy counts; a missing policy is taken as strict.
pub open spec fn is_lax(c: CookieRecord) -> bool {
    c.same_site == Some(SameSitePolicy::Lax)
}

/// The cookie's path, else the page's path.
pub open spec fn path_field(c: CookieRecord, at: PageLocation) -> Seq<char> {
    match c.path {
        Some(p) => p@,
        None => at.path@,
    }
}

/// A cookie is secure unless it says otherwise.
pub open spec fn is_secure(c: CookieRecord) -> bool {
    match c.secure {
        Some(b) => b,
        None => true,
    }
}

/// The cookie's expiry, else the time `now`.
pub open spec fn expiry(c: CookieRecord, now: int) -> int {
    match c.expires {
        Some(t) => t as int,
        None => now,
    }
}

/// The jar line of one cookie, without its newline.
pub open spec fn record_line(c: CookieRecord, at: PageLocation, now: int) -> Seq<char> {
    domain_field(c, at) + tab() + flag_text(is_lax(c)) + tab() + path_field(c, at) + tab()
        + flag_text(is_secure(c)) + tab() + decimal(expiry(c, now)) + tab() + c.name@ + tab()
        + c.value@
}

/// The whole jar: each cookie's line followed by a newline, in order.
pub open spec fn jar_text(cs: Seq<CookieRecord>, at: PageLocation, now: int) -> Seq<char>
    decreases cs.len(),
{
    if cs.len() == 0 {
        Seq::empty()
    } else {
        jar_text(cs.drop_last(), at, now) + record_line(cs.last(), at, now) + seq!['\n']
    }
}

fn append_flag(out: &mut String, b: bool)
    ensures
        final(out)@ == old(out)@ + flag_text(b),
{
    proof {
        reveal_strlit("TRUE");
        reveal_strlit("FALSE");
    }
    if b {
        out.append("TRUE");
    } else {
        out.append("FALSE");
    }
}

fn append_tab(out: &mut String)
    ensures
        final(out)@ == old(out)@ + tab(),
{
    proof {
        reveal_strlit("\t");
    }
    out.append("\t");
}

/// The jar line of `c` read at `at` and time `now`, without its newline.
pub fn render_record(c: &CookieRecord, at: &PageLocation, now: i64) -> (r: String)
    ensures
        r@ == record_line(*c, *at, now as int),
{
    let mut out = String::new();
    match &c.domain {
        Some(d) => out.append(d.as_str()),
        None => match &at.domain {
            Some(d) => out.append(d.as_str()),
            None => {},
        },
    }
    append_tab(&mut out);
    let lax = match c.same_site {
        Some(SameSitePolicy::Lax) => true,
        _ => false,
    };
    append_flag(&mut out, lax);
    append_tab(&mut out);
    match &c.path {
        Some(p) => out.append(p.as_str()),
        None => out.append(at.path.as_str()),
    }
    append_tab(&mut out);
    let secure = match c.secure {
        Some(b) => b,
        None => true,
    };
    append_flag(&mut out, secure);
    append_tab(&mut out);
    let expires = match c.expires {
        Some(t) => t,
        None => now,
    };
    append_decimal(&mut out, expires);
    append_tab(&mut out);
    out.append(c.name.as_str());
    append_tab(&mut out);
    out.append(c.value.as_str());
    assert(out@ =~= record_line(*c, *at, now as int));
    out
}

/// The jar text of `cookies`, read at `at` and time `now`.
pub fn render_jar(cookies: &Vec<CookieRecord>, at: &PageLocation, now: i64) -> (r: String)
    ensures
        r@ == jar_text(cookies@, *at, now as int),
{
    let mut out = String::new();
    let mut i: usize = 0;
    while i < cookies.len()
        invariant
            i <= cookies.len(),
            out@ == jar_text(cookies@.take(i as int), *at, now as int),
        decreases cookies.len() - i,
    {
        let line = render_record(&cookies[i], at, now);
        out.append(line.as_str());
        proof {
            reveal_strlit("\n");
        }
        out.append("\n");
        assert(cookies@.take(i + 1).drop_last() =~= cookies@.take(i as int));
        i = i + 1;
    }
    assert(cookies@.take(i as int) =~= cookies@);
    out
}

/// The jar text of `cookies` read at `at`, where a cookie without an expiry
/// is given the current time.
pub fn render_jar_now(cookies: &Vec<CookieRecord>, at: &PageLocation) -> (r: String)
    ensures
        exists|now: i64| r@ == jar_text(cookies@, *at, now as int),
{
    let now = unix_now();
    render_jar(cookies, at, now)
}

/// Relies on `time::OffsetDateTime::now_utc` (re-exported by `cookie`) and
/// `unix_timestamp`: the current time in whole seconds since the Unix epoch.
/// Nothing is stated of the value, which is the clock's.
#[verifier::external_body]
fn unix_now() -> i64 {
    cookie::time::OffsetDateTime::now_utc().unix_timestamp()
}

/// A non-empty jar ends with a newline that closes its last line; unless the
/// last cookie's value itself ends with a newline, the character before it is
/// not one, so the text ends with exactly one empty line.
pub proof fn lemma_jar_ends_with_one_empty_line(cs: Seq<CookieRecord>, at: PageLocation, now: int)
    requires
        cs.len() > 0,
    ensures
        ({
            let t = jar_text(cs, at, now);
            &&& t.len() >= 2
            &&& t.last() == '\n'
            &&& t.drop_last() == jar_text(cs.drop_last(), at, now) + record_line(cs.last(), at, now)
            &&& (cs.last().value@.len() == 0 || cs.last().value@.last() != '\n') ==> t[t.len()
                - 2] != '\n'
        }),
{
    let t = jar_text(cs, at, now);
    let c = cs.last();
    let line = record_line(c, at, now);
    let prefix = domain_field(c, at) + tab() + flag_text(is_lax(c)) + tab() + path_field(c, at)
        + tab() + flag_text(is_secure(c)) + tab() + decimal(expiry(c, now)) + tab() + c.name@
        + tab();
    assert(line == prefix + c.value@);
    assert(t.drop_last() =~= jar_text(cs.drop_last(), at, now) + line);
    assert(prefix.last() == '\t');
    if c.value@.len() == 0 {
        assert(line =~= prefix);
    } else {
        assert(line.last() == c.value@.last());
    }
}

/// Whether `s` holds no newline character.
pub open spec fn newline_free(s: Seq<char>) -> bool {
    forall|k: int| 0 <= k < s.len() ==> s[k] != '\n'
}

/// The number of newline characters in `s`.
pub open spec fn newlines(s: Seq<char>) -> nat
    decreases s.len(),
{
    if s.len() == 0 {
        0
    } else {
        newlines(s.drop_last()) + if s.last() == '\n' {
            1nat
        } else {
            0nat
        }
    }
}

/// No text that a cookie's line is made of holds a newline.
pub open spec fn cookie_newline_free(c: CookieRecord) -> bool {
    &&& newline_free(c.name@)
    &&& newline_free(c.value@)
    &&& (c.domain matches Some(d) ==> newline_free(d@))
    &&& (c.path matches Some(p) ==> newline_free(p@))
}

/// Neither the page's domain nor its path holds a newline.
pub open spec fn page_newline_free(at: PageLocation) -> bool {
    &&& newline_free(at.path@)
    &&& (at.domain matches Some(d) ==> newline_free(d@))
}

proof fn lemma_newlines_concat(a: Seq<char>, b: Seq<char>)
    ensures
        newlines(a + b) == newlines(a) + newlines(b),
    decreases b.len(),
{
    if b.len() == 0 {
        assert(a + b =~= a);
    } else {
        lemma_newlines_concat(a, b.drop_last());
        assert((a + b).drop_last() =~= a + b.drop_last());
    }
}

proof fn lemma_newline_free_count(s: Seq<char>)
    requires
        newline_free(s),
    ensures
        newlines(s) == 0,
    decreases s.len(),
{
    if s.len() > 0 {
        assert forall|k: int| 0 <= k < s.drop_last().len() implies s.drop_last()[k] != '\n' by {
            assert(s.drop_last()[k] == s[k]);
        }
        lemma_newline_free_count(s.drop_last());
    }
}

proof fn lemma_concat_newline_free(a: Seq<char>, b: Seq<char>)
    requires
        newline_free(a),
        newline_free(b),
    ensures
        newline_free(a + b),
{
    assert forall|k: int| 0 <= k < (a + b).len() implies (a + b)[k] != '\n' by {
        if k >= a.len() {
            assert((a + b)[k] == b[k - a.len()]);
        }
    }
}

proof fn lemma_record_line_newline_free(c: CookieRecord, at: PageLocation, now: int)
    requires
        cookie_newline_free(c),
        page_newline_free(at),
    ensures
        newline_free(record_line(c, at, now)),
{
    lemma_decimal_has_no_newline(expiry(c, now));
    assert(newline_free(domain_field(c, at)));
    assert(newline_free(path_field(c, at)));
    assert(newline_free(tab()));
    assert(newline_free(flag_text(is_lax(c))));
    assert(newline_free(flag_text(is_secure(c))));
    let p1 = domain_field(c, at) + tab();
    lemma_concat_newline_free(domain_field(c, at), tab());
    let p2 = p1 + flag_text(is_lax(c));
    lemma_concat_newline_free(p1, flag_text(is_lax(c)));
    let p3 = p2 + tab();
    lemma_concat_newline_free(p2, tab());
    let p4 = p3 + path_field(c, at);
    lemma_concat_newline_free(p3, path_field(c, at));
    let p5 = p4 + tab();
    lemma_concat_newline_free(p4, tab());
    let p6 = p5 + flag_text(is_secure(c));
    lemma_concat_newline_free(p5, flag_text(is_secure(c)));
    let p7 = p6 + tab();
    lemma_concat_newline_free(p6, tab());
    let p8 = p7 + decimal(expiry(c, now));
    lemma_concat_newline_free(p7, decimal(expiry(c, now)));
    let p9 = p8 + tab();
    lemma_concat_newline_free(p8, tab());
    let p10 = p9 + c.name@;
    lemma_concat_newline_free(p9, c.name@);
    let p11 = p10 + tab();
    lemma_concat_newline_free(p10, tab());
    lemma_concat_newline_free(p11, c.value@);
}

/// Where neither the page's domain and path nor any cookie's text holds a
/// newline, the jar has exactly one line per cookie: as many newlines as
/// cookies, the last of them closing the text, so that splitting it at
/// newlines gives one piece per cookie and an empty last piece.
pub proof fn lemma_jar_one_line_per_cookie(cs: Seq<CookieRecord>, at: PageLocation, now: int)
    requires
        page_newline_free(at),
        forall|k: int| 0 <= k < cs.len() ==> cookie_newline_free(#[trigger] cs[k]),
    ensures
        newlines(jar_text(cs, at, now)) == cs.len(),
        cs.len() > 0 ==> jar_text(cs, at, now).last() == '\n',
    decreases cs.len(),
{
    if cs.len() > 0 {
        let prev = cs.drop_last();
        assert forall|k: int| 0 <= k < prev.len() implies cookie_newline_free(#[trigger] prev[k]) by {
            assert(prev[k] == cs[k]);
        }
        lemma_jar_one_line_per_cookie(prev, at, now);
        let line = record_line(cs.last(), at, now);
        lemma_record_line_newline_free(cs.last(), at, now);
        lemma_newline_free_count(line);
        lemma_newlines_concat(jar_text(prev, at, now), line);
        lemma_newlines_concat(jar_text(prev, at, now) + line, seq!['\n']);
        assert(newlines(seq!['\n']) == 1) by {
            assert(seq!['\n'].drop_last() =~= Seq::<char>::empty());
        }
    }
}

} // verus!
