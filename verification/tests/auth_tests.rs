use smol_launcher::auth::bearer;
use smol_launcher::auth::identity_token;
use smol_launcher::auth::rps_ticket;
use smol_launcher::auth::start;
use smol_launcher::auth::step;
use smol_launcher::auth::AuthAction;
use smol_launcher::auth::AuthEvent;
use smol_launcher::auth::AuthState;
use smol_launcher::auth::DeviceAuthSession;
use smol_launcher::auth::PollResponse;
use smol_launcher::auth::SessionCredentials;
use smol_launcher::auth::TokenSet;

fn sample_session() -> DeviceAuthSession {
    DeviceAuthSession {
        device_code: "device-123".to_string(),
        user_code: "ABCD-EFGH".to_string(),
        verification_uri: "https://example.com/devicelogin".to_string(),
        interval: 5,
    }
}

fn sample_tokens() -> TokenSet {
    TokenSet {
        access_token: "identity-access".to_string(),
        refresh_token: "identity-refresh".to_string(),
    }
}

fn is_poll(action: &AuthAction) -> bool {
    matches!(
        action,
        AuthAction::PresentCodeAndPoll { .. } | AuthAction::PollAgain { .. }
    )
}

/// Drives the downstream hops from the point an identity token pair is in
/// hand, returning the trace of actions up to and including the last step.
fn drive_downstream(mut state: AuthState) -> (AuthState, Vec<AuthAction>) {
    let mut actions = Vec::new();
    let (next, action) = step(state, AuthEvent::XboxOk { token: "xbox-token".to_string() });
    state = next;
    actions.push(action);
    let (next, action) = step(
        state,
        AuthEvent::XstsOk { token: "xsts-token".to_string(), user_hash: "hash42".to_string() },
    );
    state = next;
    actions.push(action);
    let (next, action) = step(
        state,
        AuthEvent::LoginOk { access_token: "session-access".to_string() },
    );
    state = next;
    actions.push(action);
    let (next, action) = step(
        state,
        AuthEvent::ProfileOk { id: "uuid-1".to_string(), name: "player_one".to_string() },
    );
    actions.push(action);
    (next, actions)
}

fn assert_done_with(state: &AuthState, refresh: &str) {
    match state {
        AuthState::Done { credentials: SessionCredentials { username, user_id, access_token, refresh_token } } => {
            assert_eq!(username, "player_one");
            assert_eq!(user_id, "uuid-1");
            assert_eq!(access_token, "session-access");
            assert_eq!(refresh_token, refresh);
        }
        _ => panic!("chain did not finish"),
    }
}

#[test]
fn pending_three_times_then_success_polls_exactly_four_times() {
    let (state, action) = start(None);
    assert!(matches!(state, AuthState::DeviceFlow));
    assert!(matches!(action, AuthAction::RequestDeviceCode));

    let mut polls = 0;
    let (mut state, action) = step(state, AuthEvent::DeviceCodeOk { session: sample_session() });
    assert!(is_poll(&action));
    polls += 1;
    match &action {
        AuthAction::PresentCodeAndPoll { user_code, verification_uri, device_code, interval } => {
            assert_eq!(user_code, "ABCD-EFGH");
            assert_eq!(verification_uri, "https://example.com/devicelogin");
            assert_eq!(device_code, "device-123");
            assert_eq!(*interval, 5);
        }
        _ => panic!("device code did not start polling"),
    }

    for _ in 0..3 {
        let (next, action) = step(state, AuthEvent::Poll { response: PollResponse::Pending });
        assert!(matches!(next, AuthState::Polling { .. }));
        match &action {
            AuthAction::PollAgain { device_code, interval } => {
                assert_eq!(device_code, "device-123");
                assert_eq!(*interval, 5);
            }
            _ => panic!("pending response did not re-poll"),
        }
        polls += 1;
        state = next;
    }

    let (state, action) = step(
        state,
        AuthEvent::Poll { response: PollResponse::Authorized(sample_tokens()) },
    );
    assert!(!is_poll(&action));
    assert!(matches!(state, AuthState::XboxExchange { .. }));
    assert!(matches!(action, AuthAction::ExchangeXbox { .. }));
    assert_eq!(polls, 4);

    let (state, actions) = drive_downstream(state);
    assert!(!actions.iter().any(is_poll));
    assert_done_with(&state, "identity-refresh");
}

#[test]
fn rejected_refresh_falls_back_to_device_flow_without_double_profile_fetch() {
    let (state, action) = start(Some("stale-refresh".to_string()));
    assert!(matches!(state, AuthState::RefreshAttempt));
    match &action {
        AuthAction::RequestRefresh { refresh_token } => assert_eq!(refresh_token, "stale-refresh"),
        _ => panic!("stored refresh token was not tried first"),
    }

    let mut profile_fetches = 0;
    let (state, action) = step(state, AuthEvent::RefreshFailed);
    assert!(matches!(state, AuthState::DeviceFlow));
    assert!(matches!(action, AuthAction::RequestDeviceCode));

    let (state, action) = step(state, AuthEvent::DeviceCodeOk { session: sample_session() });
    assert!(is_poll(&action));
    let (state, action) = step(
        state,
        AuthEvent::Poll { response: PollResponse::Authorized(sample_tokens()) },
    );
    if matches!(action, AuthAction::FetchProfile { .. }) {
        profile_fetches += 1;
    }
    let (state, actions) = drive_downstream(state);
    profile_fetches += actions
        .iter()
        .filter(|a| matches!(a, AuthAction::FetchProfile { .. }))
        .count();
    assert_eq!(profile_fetches, 1);
    assert_done_with(&state, "identity-refresh");
}

#[test]
fn accepted_refresh_skips_the_device_flow() {
    let (state, _) = start(Some("good-refresh".to_string()));
    let (state, action) = step(
        state,
        AuthEvent::RefreshOk {
            tokens: TokenSet {
                access_token: "identity-access".to_string(),
                refresh_token: "renewed-refresh".to_string(),
            },
        },
    );
    assert!(matches!(state, AuthState::XboxExchange { .. }));
    match &action {
        AuthAction::ExchangeXbox { access_token } => assert_eq!(access_token, "identity-access"),
        _ => panic!("refresh success did not move to the xbox exchange"),
    }
    let (state, _) = drive_downstream(state);
    assert_done_with(&state, "renewed-refresh");
}

#[test]
fn terminal_poll_responses_fail_the_chain() {
    for response in [
        PollResponse::Declined,
        PollResponse::BadCode,
        PollResponse::Expired,
        PollResponse::TransportError,
        PollResponse::Unrecognized,
    ] {
        let (state, _) = start(None);
        let (state, _) = step(state, AuthEvent::DeviceCodeOk { session: sample_session() });
        let (state, action) = step(state, AuthEvent::Poll { response });
        assert!(matches!(state, AuthState::Failed));
        assert!(matches!(action, AuthAction::Abort));
    }
}

#[test]
fn hop_failures_are_terminal() {
    let (state, _) = start(None);
    let (state, action) = step(state, AuthEvent::DeviceCodeFailed);
    assert!(matches!(state, AuthState::Failed));
    assert!(matches!(action, AuthAction::Abort));

    let (state, _) = start(Some("r".to_string()));
    let (state, _) = step(state, AuthEvent::RefreshOk { tokens: sample_tokens() });
    let (state, action) = step(state, AuthEvent::XboxFailed);
    assert!(matches!(state, AuthState::Failed));
    assert!(matches!(action, AuthAction::Abort));
}

#[test]
fn mismatched_event_fails_closed() {
    let (state, _) = start(None);
    let (state, action) = step(state, AuthEvent::XboxOk { token: "t".to_string() });
    assert!(matches!(state, AuthState::Failed));
    assert!(matches!(action, AuthAction::Abort));
}

#[test]
fn terminal_states_absorb_further_events() {
    let (state, _) = start(None);
    let (state, _) = step(state, AuthEvent::DeviceCodeOk { session: sample_session() });
    let (state, _) = step(
        state,
        AuthEvent::Poll { response: PollResponse::Authorized(sample_tokens()) },
    );
    let (state, _) = drive_downstream(state);
    let (state, action) = step(state, AuthEvent::RefreshFailed);
    assert!(matches!(state, AuthState::Done { .. }));
    assert!(matches!(action, AuthAction::Finish));

    let (failed, _) = step(AuthState::Failed, AuthEvent::RefreshFailed);
    assert!(matches!(failed, AuthState::Failed));
}

#[test]
fn credentials_are_formatted_for_each_hop() {
    assert_eq!(identity_token("hash42", "xsts-token"), "XBL3.0 x=hash42;xsts-token");
    assert_eq!(rps_ticket("identity-access"), "d=identity-access");
    assert_eq!(bearer("session-access"), "Bearer session-access");
}
