use cookie_refresher::connect::{
    after_connect_attempt, automation_capabilities, capabilities_json, driver_endpoint, driver_port_arg, ConnectAction, CONNECT_RETRY_SECS,
};
use cookie_refresher::gate::{
    site_domain, site_url, AuthGate, GateAction, GateEvent, GateState, LOGIN_POLL_SECS,
    SIGN_IN_GRACE_SECS,
};

#[test]
fn port_argument() {
    assert_eq!(driver_port_arg(9515), "--port=9515");
    assert_eq!(driver_port_arg(0), "--port=0");
    assert_eq!(driver_port_arg(65535), "--port=65535");
}

#[test]
fn endpoint_address() {
    assert_eq!(driver_endpoint(40123), "http://127.0.0.1:40123");
    assert_eq!(driver_endpoint(7), "http://127.0.0.1:7");
}

#[test]
fn connect_retries_until_accepted() {
    let outcomes = [false, false, false, true];
    let mut waits = Vec::new();
    let mut attempts = 0;
    for ok in outcomes {
        attempts += 1;
        match after_connect_attempt(ok) {
            ConnectAction::RetryAfter { delay_secs } => waits.push(delay_secs),
            ConnectAction::Proceed => break,
        }
    }
    assert_eq!(attempts, 4);
    assert_eq!(waits, vec![5, 5, 5]);
    assert!(waits.iter().all(|w| *w >= CONNECT_RETRY_SECS));
}

#[test]
fn connect_proceeds_at_once() {
    assert_eq!(after_connect_attempt(true), ConnectAction::Proceed);
}

#[test]
fn site_address() {
    assert_eq!(site_url(), "https://www.youtube.com/");
    assert_eq!(site_domain(), "www.youtube.com");
}

#[test]
fn no_sign_in_control_is_authenticated() {
    assert_eq!(
        AuthGate::first_action(),
        GateAction::OpenSiteThenLookForSignIn { grace_secs: 10 }
    );
    assert_eq!(SIGN_IN_GRACE_SECS, 10);
    let mut gate = AuthGate::new(site_domain());
    let action = gate.step(GateEvent::SignInControl { found: false });
    assert_eq!(action, GateAction::StartExport);
    assert_eq!(gate.state, GateState::Authenticated);
    assert!(gate.is_authenticated());
}

fn domain(d: &str) -> GateEvent {
    GateEvent::CurrentDomain { domain: Some(d.to_string()) }
}

#[test]
fn login_polls_twice_before_recheck() {
    let mut gate = AuthGate::new(site_domain());
    assert_eq!(
        gate.step(GateEvent::SignInControl { found: true }),
        GateAction::ClickSignInThenReadDomain
    );
    let mut polls = 0;
    let mut last = GateAction::LookForSignIn;
    for d in ["accounts.google.com", "accounts.google.com", "www.youtube.com"] {
        last = gate.step(domain(d));
        if last == (GateAction::WaitThenReadDomain { delay_secs: LOGIN_POLL_SECS }) {
            polls += 1;
        }
    }
    assert_eq!(polls, 2);
    assert_eq!(last, GateAction::LookForSignIn);
    assert_eq!(gate.state, GateState::CheckingSignInControl);
    assert_eq!(
        gate.step(GateEvent::SignInControl { found: false }),
        GateAction::StartExport
    );
    assert!(gate.is_authenticated());
}

#[test]
fn page_without_domain_keeps_waiting() {
    let mut gate = AuthGate::new(site_domain());
    gate.step(GateEvent::SignInControl { found: true });
    let action = gate.step(GateEvent::CurrentDomain { domain: None });
    assert_eq!(action, GateAction::WaitThenReadDomain { delay_secs: 5 });
    assert_eq!(gate.state, GateState::AwaitingLogin);
    let action = gate.step(domain("youtube.com"));
    assert_eq!(action, GateAction::WaitThenReadDomain { delay_secs: 5 });
}

#[test]
fn unexpected_event_repeats_pending_action() {
    let mut gate = AuthGate::new(site_domain());
    assert_eq!(gate.step(domain("www.youtube.com")), GateAction::LookForSignIn);
    assert_eq!(gate.state, GateState::CheckingSignInControl);
    gate.step(GateEvent::SignInControl { found: true });
    assert_eq!(
        gate.step(GateEvent::SignInControl { found: true }),
        GateAction::WaitThenReadDomain { delay_secs: 5 }
    );
    assert_eq!(gate.state, GateState::AwaitingLogin);
}

#[test]
fn capabilities_hide_automation() {
    assert_eq!(
        capabilities_json(),
        r#"{"goog:chromeOptions":{"args":["--disable-blink-features=AutomationControlled"]}}"#
    );
    let caps = automation_capabilities().unwrap();
    assert_eq!(caps.len(), 1);
    assert_eq!(
        caps["goog:chromeOptions"]["args"][0],
        "--disable-blink-features=AutomationControlled"
    );
}
