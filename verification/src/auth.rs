//! The authentication chain: a four-hop credential exchange (device
//! authorization, identity-provider token, two relying-party exchanges, a
//! game-service session token) with a polling sub-protocol, modelled as a
//! state machine. The embedding binary performs each network request the
//! machine asks for and hands back the outcome; every decision — which hop
//! comes next, which poll responses retry and which are terminal, how the
//! refresh fast path falls back to the interactive flow — is taken and
//! verified here.

use vstd::prelude::*;

use vstd::string::StringExecFns;

verus! {

/// What the device-authorization hop hands back: the code the process polls
/// with, the code and URI shown to the user, and the server-chosen poll
/// interval in seconds.
pub struct DeviceAuthSession {
    pub device_code: String,
    pub user_code: String,
    pub verification_uri: String,
    pub interval: u64,
}

/// An identity-provider token pair. The access token feeds the next hop;
/// the refresh token is long-lived and persisted by the caller.
pub struct TokenSet {
    pub access_token: String,
    pub refresh_token: String,
}

/// What a finished chain yields: the account's display name and stable
/// identifier, the playable session token, and the renewable refresh
/// credential.
pub struct SessionCredentials {
    pub username: String,
    pub user_id: String,
    pub access_token: String,
    pub refresh_token: String,
}

/// The decoded outcome of one poll of the token endpoint. The structured
/// error strings form a closed set; anything unrecognized fails closed.
pub enum PollResponse {
    Authorized(TokenSet),
    Pending,
    Declined,
    BadCode,
    Expired,
    TransportError,
    Unrecognized,
}

/// Where the chain stands. Every non-terminal state has exactly one request
/// outstanding, named by the action that accompanied entering it.
pub enum AuthState {
    RefreshAttempt,
    DeviceFlow,
    Polling { session: DeviceAuthSession },
    XboxExchange { refresh_token: String },
    XstsExchange { refresh_token: String },
    GameServiceLogin { refresh_token: String },
    ProfileFetch { refresh_token: String, session_token: String },
    Done { credentials: SessionCredentials },
    Failed,
}

/// The outcome of the request the current state had outstanding.
pub enum AuthEvent {
    RefreshOk { tokens: TokenSet },
    RefreshFailed,
    DeviceCodeOk { session: DeviceAuthSession },
    DeviceCodeFailed,
    Poll { response: PollResponse },
    XboxOk { token: String },
    XboxFailed,
    XstsOk { token: String, user_hash: String },
    XstsFailed,
    LoginOk { access_token: String },
    LoginFailed,
    ProfileOk { id: String, name: String },
    ProfileFailed,
}

/// The one piece of outside work the machine asks for next.
pub enum AuthAction {
    RequestRefresh { refresh_token: String },
    RequestDeviceCode,
    PresentCodeAndPoll { user_code: String, verification_uri: String, device_code: String, interval: u64 },
    PollAgain { device_code: String, interval: u64 },
    ExchangeXbox { access_token: String },
    ExchangeXsts { xbox_token: String },
    LoginGameService { xsts_token: String, user_hash: String },
    FetchProfile { session_token: String },
    Finish,
    Abort,
}

/// Where the chain begins: at the refresh fast path when a stored refresh
/// credential was supplied, at the interactive device flow otherwise.
pub open spec fn spec_start(refresh_token: Option<String>) -> (AuthState, AuthAction) {
    match refresh_token {
        Option::Some(token) => (
            AuthState::RefreshAttempt,
            AuthAction::RequestRefresh { refresh_token: token },
        ),
        Option::None => (AuthState::DeviceFlow, AuthAction::RequestDeviceCode),
    }
}

/// Starts the chain.
pub fn start(refresh_token: Option<String>) -> (r: (AuthState, AuthAction))
    ensures
        r == spec_start(refresh_token),
{
    match refresh_token {
        Option::Some(token) => (
            AuthState::RefreshAttempt,
            AuthAction::RequestRefresh { refresh_token: token },
        ),
        Option::None => (AuthState::DeviceFlow, AuthAction::RequestDeviceCode),
    }
}

/// The transition relation.
///
/// Any refresh failure, whatever its cause, falls back to the interactive
/// device flow; the two paths converge once an identity token pair is in
/// hand and share every downstream hop. In the polling sub-protocol only
/// "authorization pending" retries; declined, bad-code, expired, transport
/// failures and unrecognized responses are terminal. Every later hop is
/// terminal on failure. Terminal states absorb every further event, and an
/// event that does not answer the outstanding request fails the chain
/// closed.
pub open spec fn spec_step(s: AuthState, e: AuthEvent) -> (AuthState, AuthAction) {
    match (s, e) {
        (AuthState::RefreshAttempt, AuthEvent::RefreshOk { tokens }) => (
            AuthState::XboxExchange { refresh_token: tokens.refresh_token },
            AuthAction::ExchangeXbox { access_token: tokens.access_token },
        ),
        (AuthState::RefreshAttempt, AuthEvent::RefreshFailed) => (
            AuthState::DeviceFlow,
            AuthAction::RequestDeviceCode,
        ),
        (AuthState::DeviceFlow, AuthEvent::DeviceCodeOk { session }) => (
            AuthState::Polling { session },
            AuthAction::PresentCodeAndPoll {
                user_code: session.user_code,
                verification_uri: session.verification_uri,
                device_code: session.device_code,
                interval: session.interval,
            },
        ),
        (AuthState::DeviceFlow, AuthEvent::DeviceCodeFailed) => (AuthState::Failed, AuthAction::Abort),
        (AuthState::Polling { session }, AuthEvent::Poll { response }) => match response {
            PollResponse::Authorized(tokens) => (
                AuthState::XboxExchange { refresh_token: tokens.refresh_token },
                AuthAction::ExchangeXbox { access_token: tokens.access_token },
            ),
            PollResponse::Pending => (
                AuthState::Polling { session },
                AuthAction::PollAgain {
                    device_code: session.device_code,
                    interval: session.interval,
                },
            ),
            _ => (AuthState::Failed, AuthAction::Abort),
        },
        (AuthState::XboxExchange { refresh_token }, AuthEvent::XboxOk { token }) => (
            AuthState::XstsExchange { refresh_token },
            AuthAction::ExchangeXsts { xbox_token: token },
        ),
        (AuthState::XstsExchange { refresh_token }, AuthEvent::XstsOk { token, user_hash }) => (
            AuthState::GameServiceLogin { refresh_token },
            AuthAction::LoginGameService { xsts_token: token, user_hash },
        ),
        (AuthState::GameServiceLogin { refresh_token }, AuthEvent::LoginOk { access_token }) => (
            AuthState::ProfileFetch { refresh_token, session_token: access_token },
            AuthAction::FetchProfile { session_token: access_token },
        ),
        (AuthState::ProfileFetch { refresh_token, session_token }, AuthEvent::ProfileOk { id, name }) => (
            AuthState::Done {
                credentials: SessionCredentials {
                    username: name,
                    user_id: id,
                    access_token: session_token,
                    refresh_token,
                },
            },
            AuthAction::Finish,
        ),
        (AuthState::Done { credentials }, _) => (AuthState::Done { credentials }, AuthAction::Finish),
        (AuthState::Failed, _) => (AuthState::Failed, AuthAction::Abort),
        _ => (AuthState::Failed, AuthAction::Abort),
    }
}

/// Takes one step: consumes the current state and the outcome of its
/// outstanding request, returns the next state and the next piece of work.
pub fn step(s: AuthState, e: AuthEvent) -> (r: (AuthState, AuthAction))
    ensures
        r == spec_step(s, e),
{
    match (s, e) {
        (AuthState::RefreshAttempt, AuthEvent::RefreshOk { tokens }) => (
            AuthState::XboxExchange { refresh_token: tokens.refresh_token },
            AuthAction::ExchangeXbox { access_token: tokens.access_token },
        ),
        (AuthState::RefreshAttempt, AuthEvent::RefreshFailed) => (
            AuthState::DeviceFlow,
            AuthAction::RequestDeviceCode,
        ),
        (AuthState::DeviceFlow, AuthEvent::DeviceCodeOk { session }) => {
            let action = AuthAction::PresentCodeAndPoll {
                user_code: session.user_code.clone(),
                verification_uri: session.verification_uri.clone(),
                device_code: session.device_code.clone(),
                interval: session.interval,
            };
            (AuthState::Polling { session }, action)
        },
        (AuthState::DeviceFlow, AuthEvent::DeviceCodeFailed) => (AuthState::Failed, AuthAction::Abort),
        (AuthState::Polling { session }, AuthEvent::Poll { response }) => match response {
            PollResponse::Authorized(tokens) => (
                AuthState::XboxExchange { refresh_token: tokens.refresh_token },
                AuthAction::ExchangeXbox { access_token: tokens.access_token },
            ),
            PollResponse::Pending => {
                let action = AuthAction::PollAgain {
                    device_code: session.device_code.clone(),
                    interval: session.interval,
                };
                (AuthState::Polling { session }, action)
            },
            _ => (AuthState::Failed, AuthAction::Abort),
        },
        (AuthState::XboxExchange { refresh_token }, AuthEvent::XboxOk { token }) => (
            AuthState::XstsExchange { refresh_token },
            AuthAction::ExchangeXsts { xbox_token: token },
        ),
        (AuthState::XstsExchange { refresh_token }, AuthEvent::XstsOk { token, user_hash }) => (
            AuthState::GameServiceLogin { refresh_token },
            AuthAction::LoginGameService { xsts_token: token, user_hash },
        ),
        (AuthState::GameServiceLogin { refresh_token }, AuthEvent::LoginOk { access_token }) => {
            let session_token = access_token.clone();
            (
                AuthState::ProfileFetch { refresh_token, session_token },
                AuthAction::FetchProfile { session_token: access_token },
            )
        },
        (AuthState::ProfileFetch { refresh_token, session_token }, AuthEvent::ProfileOk { id, name }) => (
            AuthState::Done {
                credentials: SessionCredentials {
                    username: name,
                    user_id: id,
                    access_token: session_token,
                    refresh_token,
                },
            },
            AuthAction::Finish,
        ),
        (AuthState::Done { credentials }, _) => (AuthState::Done { credentials }, AuthAction::Finish),
        (AuthState::Failed, _) => (AuthState::Failed, AuthAction::Abort),
        _ => (AuthState::Failed, AuthAction::Abort),
    }
}

// ---------------------------------------------------------------------------
// Laws of the chain
// ---------------------------------------------------------------------------

/// The trace of a run: the state and action after each event, in order.
pub open spec fn spec_run(s: AuthState, events: Seq<AuthEvent>) -> Seq<(AuthState, AuthAction)>
    decreases events.len(),
{
    if events.len() == 0 {
        Seq::empty()
    } else {
        let prefix = spec_run(s, events.drop_last());
        let cur = if prefix.len() == 0 {
            s
        } else {
            prefix.last().0
        };
        prefix.push(spec_step(cur, events.last()))
    }
}

/// The state a run ends in.
pub open spec fn spec_final_state(s: AuthState, events: Seq<AuthEvent>) -> AuthState {
    let trace = spec_run(s, events);
    if trace.len() == 0 {
        s
    } else {
        trace.last().0
    }
}

/// How many profile requests a trace issues.
pub open spec fn spec_profile_requests(trace: Seq<(AuthState, AuthAction)>) -> int
    decreases trace.len(),
{
    if trace.len() == 0 {
        0
    } else {
        spec_profile_requests(trace.drop_last()) + (if trace.last().1 is FetchProfile {
            1int
        } else {
            0int
        })
    }
}

/// How far along the chain a state is. Transitions never move backward:
/// the chain retries nothing but the poll, which stays in place.
pub open spec fn spec_progress(s: AuthState) -> int {
    match s {
        AuthState::RefreshAttempt => 0,
        AuthState::DeviceFlow => 1,
        AuthState::Polling { .. } => 2,
        AuthState::XboxExchange { .. } => 3,
        AuthState::XstsExchange { .. } => 4,
        AuthState::GameServiceLogin { .. } => 5,
        AuthState::ProfileFetch { .. } => 6,
        AuthState::Done { .. } => 7,
        AuthState::Failed => 8,
    }
}

/// One step never moves backward, and the profile request is issued only on
/// the step that leaves the game-service login for the profile fetch.
proof fn lemma_step_progress(s: AuthState, e: AuthEvent)
    ensures
        spec_progress(spec_step(s, e).0) >= spec_progress(s),
        spec_step(s, e).1 is FetchProfile ==> s is GameServiceLogin && spec_step(s, e).0
            is ProfileFetch,
        spec_progress(s) >= 6 ==> !(spec_step(s, e).1 is FetchProfile),
{
}

/// However a run goes — refresh fast path, fallback to the device flow, any
/// interleaving of poll retries and failures — the account profile is
/// requested at most once, and never after the profile-fetch hop is passed.
pub proof fn lemma_profile_requested_at_most_once(s: AuthState, events: Seq<AuthEvent>)
    ensures
        spec_profile_requests(spec_run(s, events)) <= 1,
        spec_progress(spec_final_state(s, events)) >= spec_progress(s),
        spec_profile_requests(spec_run(s, events)) == 1 ==> spec_progress(
            spec_final_state(s, events),
        ) >= 6,
        spec_progress(s) >= 6 ==> spec_profile_requests(spec_run(s, events)) == 0,
    decreases events.len(),
{
    if events.len() > 0 {
        lemma_profile_requested_at_most_once(s, events.drop_last());
        let prefix = spec_run(s, events.drop_last());
        let cur = spec_final_state(s, events.drop_last());
        lemma_step_progress(cur, events.last());
        assert(spec_run(s, events).drop_last() =~= prefix);
    }
}

/// How many poll requests a trace issues: the first poll asked for on
/// entering the polling state, and each re-poll after a pending answer.
pub open spec fn spec_poll_requests(trace: Seq<(AuthState, AuthAction)>) -> int
    decreases trace.len(),
{
    if trace.len() == 0 {
        0
    } else {
        spec_poll_requests(trace.drop_last()) + (if trace.last().1 is PresentCodeAndPoll
            || trace.last().1 is PollAgain {
            1int
        } else {
            0int
        })
    }
}

/// A run over concatenated events is the concatenation of the runs, the
/// second one taken up from where the first ended.
proof fn lemma_run_append(s: AuthState, e1: Seq<AuthEvent>, e2: Seq<AuthEvent>)
    ensures
        spec_run(s, e1 + e2) =~= spec_run(s, e1) + spec_run(spec_final_state(s, e1), e2),
        spec_final_state(s, e1 + e2) == spec_final_state(spec_final_state(s, e1), e2),
    decreases e2.len(),
{
    if e2.len() == 0 {
        assert(e1 + e2 =~= e1);
    } else {
        lemma_run_append(s, e1, e2.drop_last());
        assert((e1 + e2).drop_last() =~= e1 + e2.drop_last());
        assert((e1 + e2).last() == e2.last());
        let f1 = spec_final_state(s, e1);
        let t1 = spec_run(s, e1);
        let t2 = spec_run(f1, e2.drop_last());
        let cur_whole = spec_final_state(s, e1 + e2.drop_last());
        let cur_second = spec_final_state(f1, e2.drop_last());
        assert(cur_whole == cur_second);
        assert(spec_run(s, e1 + e2) =~= (t1 + t2).push(spec_step(cur_whole, e2.last())));
        assert(t1 + t2.push(spec_step(cur_second, e2.last())) =~= (t1 + t2).push(
            spec_step(cur_second, e2.last()),
        ));
    }
}

/// The poll count distributes over trace concatenation.
proof fn lemma_poll_requests_append(t1: Seq<(AuthState, AuthAction)>, t2: Seq<(AuthState, AuthAction)>)
    ensures
        spec_poll_requests(t1 + t2) == spec_poll_requests(t1) + spec_poll_requests(t2),
    decreases t2.len(),
{
    if t2.len() == 0 {
        assert(t1 + t2 =~= t1);
    } else {
        lemma_poll_requests_append(t1, t2.drop_last());
        assert((t1 + t2).drop_last() =~= t1 + t2.drop_last());
        assert((t1 + t2).last() == t2.last());
    }
}

/// A run over a single event is the single step it takes.
proof fn lemma_run_single(s: AuthState, e: AuthEvent)
    ensures
        spec_run(s, seq![e]) =~= seq![spec_step(s, e)],
        spec_final_state(s, seq![e]) == spec_step(s, e).0,
        spec_poll_requests(spec_run(s, seq![e])) == (if spec_step(s, e).1
            is PresentCodeAndPoll || spec_step(s, e).1 is PollAgain {
            1int
        } else {
            0int
        }),
{
    let events = seq![e];
    assert(events.drop_last() =~= Seq::<AuthEvent>::empty());
    assert(spec_run(s, events.drop_last()) =~= Seq::<(AuthState, AuthAction)>::empty());
    assert(events.last() == e);
    assert(spec_run(s, events) =~= seq![spec_step(s, e)]);
    assert(spec_run(s, events).drop_last() =~= Seq::<(AuthState, AuthAction)>::empty());
    assert(spec_run(s, events).last() == spec_step(s, e));
    assert(spec_poll_requests(Seq::<(AuthState, AuthAction)>::empty()) == 0);
}

/// A block of `k` "authorization pending" answers.
pub open spec fn spec_pending_polls(k: nat) -> Seq<AuthEvent> {
    Seq::new(k, |i: int| AuthEvent::Poll { response: PollResponse::Pending })
}

/// Pending answers keep the machine polling: `k` of them issue exactly `k`
/// more poll requests and leave the polling state untouched.
proof fn lemma_pending_run(session: DeviceAuthSession, k: nat)
    ensures
        spec_final_state(AuthState::Polling { session }, spec_pending_polls(k))
            == (AuthState::Polling { session }),
        spec_poll_requests(spec_run(AuthState::Polling { session }, spec_pending_polls(k)))
            == k,
    decreases k,
{
    let s = AuthState::Polling { session };
    if k == 0 {
        assert(spec_pending_polls(0) =~= Seq::<AuthEvent>::empty());
    } else {
        lemma_pending_run(session, (k - 1) as nat);
        let events = spec_pending_polls(k);
        assert(events.drop_last() =~= spec_pending_polls((k - 1) as nat));
        let prefix = spec_run(s, events.drop_last());
        let cur = spec_final_state(s, events.drop_last());
        assert(spec_run(s, events) =~= prefix.push(spec_step(cur, events.last())));
        assert(spec_run(s, events).drop_last() =~= prefix);
    }
}

/// The events of an interactive flow whose user authorizes after `k` polls
/// come back pending: the device hop succeeds, `k` pending answers follow,
/// then the success payload.
pub open spec fn spec_device_flow_events(
    session: DeviceAuthSession,
    tokens: TokenSet,
    k: nat,
) -> Seq<AuthEvent> {
    seq![AuthEvent::DeviceCodeOk { session }] + spec_pending_polls(k) + seq![
        AuthEvent::Poll { response: PollResponse::Authorized(tokens) },
    ]
}

/// Polling until authorized: when the server answers "authorization
/// pending" `k` times and then a success payload, the machine issues
/// exactly `k + 1` poll requests and hands the success payload's tokens to
/// the next hop — the identity obtained, its refresh token kept.
pub proof fn lemma_polling_until_authorized(session: DeviceAuthSession, tokens: TokenSet, k: nat)
    ensures
        spec_poll_requests(
            spec_run(AuthState::DeviceFlow, spec_device_flow_events(session, tokens, k)),
        ) == k + 1,
        spec_final_state(AuthState::DeviceFlow, spec_device_flow_events(session, tokens, k))
            == (AuthState::XboxExchange { refresh_token: tokens.refresh_token }),
{
    let e1 = seq![AuthEvent::DeviceCodeOk { session }];
    let e2 = spec_pending_polls(k);
    let e3 = seq![AuthEvent::Poll { response: PollResponse::Authorized(tokens) }];
    let s = AuthState::DeviceFlow;
    assert(spec_device_flow_events(session, tokens, k) =~= (e1 + e2) + e3);

    // the device hop: one step into the polling state, the first poll asked
    lemma_run_single(s, AuthEvent::DeviceCodeOk { session });
    assert(spec_poll_requests(spec_run(s, e1)) == 1);
    let polling = AuthState::Polling { session };
    assert(spec_final_state(s, e1) == polling);

    // the pending block keeps polling
    lemma_run_append(s, e1, e2);
    lemma_pending_run(session, k);
    lemma_poll_requests_append(spec_run(s, e1), spec_run(polling, e2));
    assert(spec_final_state(s, e1 + e2) == polling);

    // the success answer moves on and asks for no further poll
    lemma_run_append(s, e1 + e2, e3);
    lemma_run_single(polling, AuthEvent::Poll { response: PollResponse::Authorized(tokens) });
    assert(spec_poll_requests(spec_run(polling, e3)) == 0);
    lemma_poll_requests_append(spec_run(s, e1 + e2), spec_run(polling, e3));
}

/// While the server answers "authorization pending", the machine stays in
/// the polling state with the same session and asks for exactly one more
/// poll after the same server-chosen interval.
pub proof fn lemma_pending_polls_again(session: DeviceAuthSession)
    ensures
        spec_step(
            AuthState::Polling { session },
            AuthEvent::Poll { response: PollResponse::Pending },
        ) == (
            AuthState::Polling { session },
            AuthAction::PollAgain { device_code: session.device_code, interval: session.interval },
        ),
{
}

/// A rejected refresh, whatever rejected it, falls back to the interactive
/// device flow rather than failing the chain.
pub proof fn lemma_refresh_falls_back()
    ensures
        spec_step(AuthState::RefreshAttempt, AuthEvent::RefreshFailed) == (
            AuthState::DeviceFlow,
            AuthAction::RequestDeviceCode,
        ),
{
}

// ---------------------------------------------------------------------------
// The bearer credentials the hops send
// ---------------------------------------------------------------------------

/// The combined relying-party credential: `XBL3.0 x=<user hash>;<token>`.
pub open spec fn spec_identity_token(user_hash: Seq<char>, xsts_token: Seq<char>) -> Seq<char> {
    "XBL3.0 x="@ + user_hash + ";"@ + xsts_token
}

/// Builds the game-service login credential from the user-hash claim and
/// the XSTS token.
pub fn identity_token(user_hash: &str, xsts_token: &str) -> (token: String)
    ensures
        token@ == spec_identity_token(user_hash@, xsts_token@),
{
    let mut token = "XBL3.0 x=".to_owned();
    token.append(user_hash);
    token.append(";");
    token.append(xsts_token);
    token
}

/// The ticket the first relying-party hop sends: `d=<access token>`.
pub open spec fn spec_rps_ticket(access_token: Seq<char>) -> Seq<char> {
    "d="@ + access_token
}

/// Builds the relying-party ticket from the identity access token.
pub fn rps_ticket(access_token: &str) -> (ticket: String)
    ensures
        ticket@ == spec_rps_ticket(access_token@),
{
    let mut ticket = "d=".to_owned();
    ticket.append(access_token);
    ticket
}

/// The authorization header value of the profile fetch: `Bearer <token>`.
pub open spec fn spec_bearer(token: Seq<char>) -> Seq<char> {
    "Bearer "@ + token
}

/// Builds the bearer header value for the profile fetch.
pub fn bearer(token: &str) -> (header: String)
    ensures
        header@ == spec_bearer(token@),
{
    let mut header = "Bearer ".to_owned();
    header.append(token);
    header
}

} // verus!
