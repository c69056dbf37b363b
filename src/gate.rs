//! The login gate: decides, from what the page shows, whether the browser is
//! signed in, and otherwise waits for a person to finish signing in.
//!
//! It starts by opening the site and waiting `SIGN_IN_GRACE_SECS` for
//! the page to render, then looks for a "Sign in" link. With none, the session
//! is authenticated. With one, it is clicked, and the page's domain is polled
//! every `LOGIN_POLL_SECS` until it is the site's own again; then the link is
//! looked for once more.

use vstd::prelude::*;

verus! {

/// Seconds given to the site's first page to render before the link is looked for.
pub const SIGN_IN_GRACE_SECS: u64 = 10;

/// Seconds between two reads of the page's domain while a login is under way.
pub const LOGIN_POLL_SECS: u64 = 5;

/// The address of the site's front page.
pub fn site_url() -> (r: String)
    ensures
        r@ == "https://www.youtube.com/"@,
{
    String::from_str("https://www.youtube.com/")
}

/// The domain of the site's front page, which a finished login returns to.
pub fn site_domain() -> (r: String)
    ensures
        r@ == "www.youtube.com"@,
{
    String::from_str("www.youtube.com")
}

#[derive(PartialEq, Eq, Structural, Clone, Copy, Debug)]
pub enum GateState {
    CheckingSignInControl,
    AwaitingLogin,
    Authenticated,
}

/// What the browser reported in answer to the last action.
#[derive(Clone, Debug)]
pub enum GateEvent {
    /// Whether a link with the text "Sign in" was found on the page.
    SignInControl { found: bool },
    /// The domain of the page now shown, if its address has one.
    CurrentDomain { domain: Option<String> },
}

/// What the browser is to do next; each but `StartExport` is answered by an event.
#[derive(PartialEq, Eq, Structural, Clone, Copy, Debug)]
pub enum GateAction {
    /// Open the site, wait this many seconds, then look for the "Sign in" link.
    OpenSiteThenLookForSignIn { grace_secs: u64 },
    /// Look for the "Sign in" link.
    LookForSignIn,
    /// Click the link found, then read the page's domain.
    ClickSignInThenReadDomain,
    /// Wait this many seconds, then read the page's domain.
    WaitThenReadDomain { delay_secs: u64 },
    /// The session is authenticated: go on to the cookie export.
    StartExport,
}

pub struct AuthGate {
    pub state: GateState,
    /// The domain of the site to be signed in to.
    pub target_domain: String,
}

pub open spec fn is_target(domain: Option<String>, target: Seq<char>) -> bool {
    match domain {
        Some(d) => d@ == target,
        None => false,
    }
}

/// The action a state waits on, repeated when an event does not fit the state.
pub open spec fn pending_action(s: GateState) -> GateAction {
    match s {
        GateState::CheckingSignInControl => GateAction::LookForSignIn,
        GateState::AwaitingLogin => GateAction::WaitThenReadDomain { delay_secs: LOGIN_POLL_SECS },
        GateState::Authenticated => GateAction::StartExport,
    }
}

/// The next state and action after `e` in state `s`.
pub open spec fn gate_step(s: GateState, e: GateEvent, target: Seq<char>) -> (GateState, GateAction) {
    match (s, e) {
        (GateState::CheckingSignInControl, GateEvent::SignInControl { found }) => if found {
            (GateState::AwaitingLogin, GateAction::ClickSignInThenReadDomain)
        } else {
            (GateState::Authenticated, GateAction::StartExport)
        },
        (GateState::AwaitingLogin, GateEvent::CurrentDomain { domain }) => if is_target(
            domain,
            target,
        ) {
            (GateState::CheckingSignInControl, GateAction::LookForSignIn)
        } else {
            (GateState::AwaitingLogin, GateAction::WaitThenReadDomain { delay_secs: LOGIN_POLL_SECS })
        },
        _ => (s, pending_action(s)),
    }
}

/// The state reached and the actions taken over a run of events.
pub open spec fn gate_run(s: GateState, es: Seq<GateEvent>, target: Seq<char>) -> (GateState, Seq<GateAction>)
    decreases es.len(),
{
    if es.len() == 0 {
        (s, Seq::empty())
    } else {
        let (s1, a) = gate_step(s, es[0], target);
        let (s2, rest) = gate_run(s1, es.drop_first(), target);
        (s2, seq![a] + rest)
    }
}

/// The events that report the domains `ds`, in order.
pub open spec fn domain_events(ds: Seq<Option<String>>) -> Seq<GateEvent> {
    Seq::new(ds.len(), |i: int| GateEvent::CurrentDomain { domain: ds[i] })
}

impl AuthGate {
    /// A gate for the site with domain `target_domain`, about to check for the link.
    pub fn new(target_domain: String) -> (r: AuthGate)
        ensures
            r.state == GateState::CheckingSignInControl,
            r.target_domain@ == target_domain@,
    {
        AuthGate { state: GateState::CheckingSignInControl, target_domain }
    }

    /// The first action of a new gate.
    pub fn first_action() -> (r: GateAction)
        ensures
            r == (GateAction::OpenSiteThenLookForSignIn { grace_secs: SIGN_IN_GRACE_SECS }),
    {
        GateAction::OpenSiteThenLookForSignIn { grace_secs: SIGN_IN_GRACE_SECS }
    }

    pub fn is_authenticated(&self) -> (r: bool)
        ensures
            r == (self.state == GateState::Authenticated),
    {
        self.state == GateState::Authenticated
    }

    /// Takes in what the browser reported and returns what it is to do next.
    pub fn step(&mut self, event: GateEvent) -> (r: GateAction)
        ensures
            (final(self).state, r) == gate_step(old(self).state, event, old(self).target_domain@),
            final(self).target_domain == old(self).target_domain,
    {
        match (self.state, event) {
            (GateState::CheckingSignInControl, GateEvent::SignInControl { found }) => {
                if found {
                    self.state = GateState::AwaitingLogin;
                    GateAction::ClickSignInThenReadDomain
                } else {
                    self.state = GateState::Authenticated;
                    GateAction::StartExport
                }
            },
            (GateState::AwaitingLogin, GateEvent::CurrentDomain { domain }) => {
                let arrived = match &domain {
                    Some(d) => d.eq(&self.target_domain),
                    None => false,
                };
                if arrived {
                    self.state = GateState::CheckingSignInControl;
                    GateAction::LookForSignIn
                } else {
                    GateAction::WaitThenReadDomain { delay_secs: LOGIN_POLL_SECS }
                }
            },
            (GateState::CheckingSignInControl, _) => GateAction::LookForSignIn,
            (GateState::AwaitingLogin, _) => GateAction::WaitThenReadDomain {
                delay_secs: LOGIN_POLL_SECS,
            },
            (GateState::Authenticated, _) => GateAction::StartExport,
        }
    }
}

/// A page without a "Sign in" link means the session is authenticated: the
/// gate goes straight on to the export.
pub proof fn lemma_no_sign_in_control_authenticates(target: Seq<char>)
    ensures
        gate_step(
            GateState::CheckingSignInControl,
            GateEvent::SignInControl { found: false },
            target,
        ) == (GateState::Authenticated, GateAction::StartExport),
{
}

/// While the login is under way, each domain other than the site's costs one
/// wait of `LOGIN_POLL_SECS`; the site's own domain sends the state machine
/// back to looking for the link.
pub proof fn lemma_awaiting_login(others: Seq<Option<String>>, arrived: Option<String>, target: Seq<char>)
    requires
        forall|i: int| 0 <= i < others.len() ==> !is_target(#[trigger] others[i], target),
        is_target(arrived, target),
    ensures
        gate_run(GateState::AwaitingLogin, domain_events(others.push(arrived)), target) == (
            GateState::CheckingSignInControl,
            Seq::new(
                others.len(),
                |i: int| GateAction::WaitThenReadDomain { delay_secs: LOGIN_POLL_SECS },
            ).push(GateAction::LookForSignIn),
        ),
    decreases others.len(),
{
    let es = domain_events(others.push(arrived));
    let waits = Seq::new(
        others.len(),
        |i: int| GateAction::WaitThenReadDomain { delay_secs: LOGIN_POLL_SECS },
    );
    if others.len() == 0 {
        assert(es[0] == GateEvent::CurrentDomain { domain: arrived });
        assert(es.drop_first() =~= Seq::empty());
        assert(gate_run(GateState::CheckingSignInControl, es.drop_first(), target).1 =~= Seq::empty());
        assert(seq![GateAction::LookForSignIn] =~= waits.push(GateAction::LookForSignIn));
    } else {
        let tail = others.drop_first();
        assert(!is_target(others[0], target));
        assert forall|i: int| 0 <= i < tail.len() implies !is_target(#[trigger] tail[i], target) by {
            assert(tail[i] == others[i + 1]);
        }
        lemma_awaiting_login(tail, arrived, target);
        assert(es[0] == GateEvent::CurrentDomain { domain: others[0] });
        assert(es.drop_first() =~= domain_events(tail.push(arrived)));
        let tail_waits = Seq::new(
            tail.len(),
            |i: int| GateAction::WaitThenReadDomain { delay_secs: LOGIN_POLL_SECS },
        );
        assert(waits.push(GateAction::LookForSignIn) =~= seq![
            GateAction::WaitThenReadDomain { delay_secs: LOGIN_POLL_SECS },
        ] + tail_waits.push(GateAction::LookForSignIn));
    }
}

/// With a "Sign in" link on the page, the link is clicked, the domain is
/// polled once for each domain other than the site's that the browser shows,
/// and the link is looked for again as soon as the site's own domain is back.
pub proof fn lemma_sign_in_then_recheck(others: Seq<Option<String>>, arrived: Option<String>, target: Seq<char>)
    requires
        forall|i: int| 0 <= i < others.len() ==> !is_target(#[trigger] others[i], target),
        is_target(arrived, target),
    ensures
        gate_run(
            GateState::CheckingSignInControl,
            seq![GateEvent::SignInControl { found: true }] + domain_events(others.push(arrived)),
            target,
        ) == (
            GateState::CheckingSignInControl,
            seq![GateAction::ClickSignInThenReadDomain] + Seq::new(
                others.len(),
                |i: int| GateAction::WaitThenReadDomain { delay_secs: LOGIN_POLL_SECS },
            ).push(GateAction::LookForSignIn),
        ),
{
    let es = seq![GateEvent::SignInControl { found: true }] + domain_events(others.push(arrived));
    lemma_awaiting_login(others, arrived, target);
    assert(es.drop_first() =~= domain_events(others.push(arrived)));
}

} // verus!
