use vstd::prelude::*;

verus! {

/// The two ways a run can obtain a usable token, resolved once at startup:
/// reuse the cached token, or walk the interactive authorization-code flow.
#[derive(Clone, Copy, Debug, PartialEq, Eq, Structural)]
pub enum StartupPath {
    CachedValid,
    NeedsAuthorization,
}

/// The startup choice as a function of whether a cached token was loaded
/// and parsed from the token cache file.
pub open spec fn spec_startup_path(cache_loaded: bool) -> StartupPath {
    if cache_loaded {
        StartupPath::CachedValid
    } else {
        StartupPath::NeedsAuthorization
    }
}

/// Resolves the startup choice: a token that was loaded from the cache is
/// reused; an absent or unreadable one forces interactive authorization.
pub fn startup_path(cache_loaded: bool) -> (r: StartupPath)
    ensures
        r == spec_startup_path(cache_loaded),
{
    if cache_loaded {
        StartupPath::CachedValid
    } else {
        StartupPath::NeedsAuthorization
    }
}

/// Where the token-lifecycle part of a run stands.
#[derive(Clone, Copy, Debug, PartialEq, Eq, Structural)]
pub enum SessionState {
    /// Nothing has been decided; the credentials are being read.
    Start,
    /// Credentials exist; the token cache file is being consulted.
    CacheCheck,
    /// The authorization URL was shown; a pasted redirect line is awaited.
    AwaitingCode,
    /// A response code was extracted; the code-for-token exchange runs.
    AwaitingExchange,
    /// A token exists; the refresh call runs.
    AwaitingRefresh,
    /// A fresh token is in hand; fetching may begin.
    Ready,
    /// The run has terminated with an error message.
    Failed,
}

/// What the surrounding process reports back to the decision logic: the
/// outcome of the step it was last told to perform.
#[derive(Clone, Copy, Debug, PartialEq, Eq, Structural)]
pub enum SessionEvent {
    /// Whether both required environment variables were present.
    CredentialsLoaded(bool),
    /// Whether a cached token was parsed from the token cache file.
    CacheLoaded(bool),
    /// Whether a response code could be extracted from the pasted line.
    CodeParsed(bool),
    /// Whether the code-for-token exchange succeeded.
    TokenExchanged(bool),
    /// Whether the token refresh succeeded.
    TokenRefreshed(bool),
}

/// What the decision logic tells the surrounding process to do next.
/// `PromptForRedirect` is the only action that writes the authorization URL
/// or reads standard input; `ExchangeCode`, `RefreshToken` and `BeginFetch`
/// are the only actions that touch the network.
#[derive(Clone, Copy, Debug, PartialEq, Eq, Structural)]
pub enum SessionAction {
    /// Read the token cache file.
    LoadCache,
    /// Print the authorization URL and read one redirect line from
    /// standard input.
    PromptForRedirect,
    /// Exchange the response code for a token.
    ExchangeCode,
    /// Refresh the token.
    RefreshToken,
    /// Authorization is complete: start fetching the saved tracks.
    BeginFetch,
    /// Print an error message and stop.
    ReportFailure,
}

/// The state after consuming one event.
pub open spec fn next_state(s: SessionState, e: SessionEvent) -> SessionState {
    match (s, e) {
        (SessionState::Start, SessionEvent::CredentialsLoaded(true)) => SessionState::CacheCheck,
        (SessionState::Start, SessionEvent::CredentialsLoaded(false)) => SessionState::Failed,
        (SessionState::CacheCheck, SessionEvent::CacheLoaded(b)) => match spec_startup_path(b) {
            StartupPath::CachedValid => SessionState::AwaitingRefresh,
            StartupPath::NeedsAuthorization => SessionState::AwaitingCode,
        },
        (SessionState::AwaitingCode, SessionEvent::CodeParsed(true)) => SessionState::AwaitingExchange,
        (SessionState::AwaitingCode, SessionEvent::CodeParsed(false)) => SessionState::Failed,
        (SessionState::AwaitingExchange, SessionEvent::TokenExchanged(true)) => SessionState::AwaitingRefresh,
        (SessionState::AwaitingExchange, SessionEvent::TokenExchanged(false)) => SessionState::Failed,
        (SessionState::AwaitingRefresh, SessionEvent::TokenRefreshed(true)) => SessionState::Ready,
        (SessionState::AwaitingRefresh, SessionEvent::TokenRefreshed(false)) => SessionState::Failed,
        (SessionState::Ready, _) => SessionState::Ready,
        _ => SessionState::Failed,
    }
}

/// The action ordered on consuming one event.
pub open spec fn next_action(s: SessionState, e: SessionEvent) -> SessionAction {
    match (s, e) {
        (SessionState::Start, SessionEvent::CredentialsLoaded(true)) => SessionAction::LoadCache,
        (SessionState::Start, SessionEvent::CredentialsLoaded(false)) => SessionAction::ReportFailure,
        (SessionState::CacheCheck, SessionEvent::CacheLoaded(b)) => match spec_startup_path(b) {
            StartupPath::CachedValid => SessionAction::RefreshToken,
            StartupPath::NeedsAuthorization => SessionAction::PromptForRedirect,
        },
        (SessionState::AwaitingCode, SessionEvent::CodeParsed(true)) => SessionAction::ExchangeCode,
        (SessionState::AwaitingCode, SessionEvent::CodeParsed(false)) => SessionAction::ReportFailure,
        (SessionState::AwaitingExchange, SessionEvent::TokenExchanged(true)) => SessionAction::RefreshToken,
        (SessionState::AwaitingExchange, SessionEvent::TokenExchanged(false)) => SessionAction::ReportFailure,
        (SessionState::AwaitingRefresh, SessionEvent::TokenRefreshed(true)) => SessionAction::BeginFetch,
        (SessionState::AwaitingRefresh, SessionEvent::TokenRefreshed(false)) => SessionAction::ReportFailure,
        (SessionState::Ready, _) => SessionAction::BeginFetch,
        _ => SessionAction::ReportFailure,
    }
}

/// One step of the token-lifecycle logic: from the current state and the
/// outcome of the last ordered step, the next state and the next order.
/// An event that does not belong to the current state fails the run.
pub fn step(s: SessionState, e: SessionEvent) -> (r: (SessionState, SessionAction))
    ensures
        r.0 == next_state(s, e),
        r.1 == next_action(s, e),
{
    match (s, e) {
        (SessionState::Start, SessionEvent::CredentialsLoaded(true)) => (
            SessionState::CacheCheck,
            SessionAction::LoadCache,
        ),
        (SessionState::Start, SessionEvent::CredentialsLoaded(false)) => (
            SessionState::Failed,
            SessionAction::ReportFailure,
        ),
        (SessionState::CacheCheck, SessionEvent::CacheLoaded(b)) => match startup_path(b) {
            StartupPath::CachedValid => (SessionState::AwaitingRefresh, SessionAction::RefreshToken),
            StartupPath::NeedsAuthorization => (
                SessionState::AwaitingCode,
                SessionAction::PromptForRedirect,
            ),
        },
        (SessionState::AwaitingCode, SessionEvent::CodeParsed(true)) => (
            SessionState::AwaitingExchange,
            SessionAction::ExchangeCode,
        ),
        (SessionState::AwaitingCode, SessionEvent::CodeParsed(false)) => (
            SessionState::Failed,
            SessionAction::ReportFailure,
        ),
        (SessionState::AwaitingExchange, SessionEvent::TokenExchanged(true)) => (
            SessionState::AwaitingRefresh,
            SessionAction::RefreshToken,
        ),
        (SessionState::AwaitingExchange, SessionEvent::TokenExchanged(false)) => (
            SessionState::Failed,
            SessionAction::ReportFailure,
        ),
        (SessionState::AwaitingRefresh, SessionEvent::TokenRefreshed(true)) => (
            SessionState::Ready,
            SessionAction::BeginFetch,
        ),
        (SessionState::AwaitingRefresh, SessionEvent::TokenRefreshed(false)) => (
            SessionState::Failed,
            SessionAction::ReportFailure,
        ),
        (SessionState::Ready, _) => (SessionState::Ready, SessionAction::BeginFetch),
        _ => (SessionState::Failed, SessionAction::ReportFailure),
    }
}

/// The state after consuming a whole sequence of events, in order.
pub open spec fn run_states(s0: SessionState, events: Seq<SessionEvent>) -> SessionState
    decreases events.len(),
{
    if events.len() == 0 {
        s0
    } else {
        run_states(next_state(s0, events.first()), events.drop_first())
    }
}

/// The actions ordered while consuming a whole sequence of events.
pub open spec fn run_actions(s0: SessionState, events: Seq<SessionEvent>) -> Seq<SessionAction>
    decreases events.len(),
{
    if events.len() == 0 {
        Seq::empty()
    } else {
        seq![next_action(s0, events.first())] + run_actions(
            next_state(s0, events.first()),
            events.drop_first(),
        )
    }
}

/// The action writes the authorization URL or reads standard input.
pub open spec fn is_interactive(a: SessionAction) -> bool {
    a == SessionAction::PromptForRedirect
}

/// The action talks to the remote API.
pub open spec fn is_network(a: SessionAction) -> bool {
    ||| a == SessionAction::ExchangeCode
    ||| a == SessionAction::RefreshToken
    ||| a == SessionAction::BeginFetch
}

/// States from which the interactive authorization path can no longer be
/// entered.
pub open spec fn past_authorization(s: SessionState) -> bool {
    ||| s == SessionState::AwaitingRefresh
    ||| s == SessionState::Ready
    ||| s == SessionState::Failed
}

/// From any state that lies past authorization, no later step is
/// interactive.
proof fn lemma_past_authorization_stays_quiet(s: SessionState, events: Seq<SessionEvent>)
    requires
        past_authorization(s),
    ensures
        past_authorization(run_states(s, events)),
        forall|i: int|
            0 <= i < run_actions(s, events).len() ==> !is_interactive(
                #[trigger] run_actions(s, events)[i],
            ),
    decreases events.len(),
{
    if events.len() > 0 {
        let s1 = next_state(s, events.first());
        let rest = events.drop_first();
        lemma_past_authorization_stays_quiet(s1, rest);
        assert forall|i: int| 0 <= i < run_actions(s, events).len() implies !is_interactive(
            run_actions(s, events)[i],
        ) by {
            if i >= 1 {
                assert(run_actions(s, events)[i] == run_actions(s1, rest)[i - 1]);
            } else {
                assert(run_actions(s, events)[i] == next_action(s, events.first()));
            }
        }
    }
}

/// From the failed state every later action is the failure report: the run
/// is over, and in particular nothing further touches the network.
proof fn lemma_failed_stays_failed(events: Seq<SessionEvent>)
    ensures
        run_states(SessionState::Failed, events) == SessionState::Failed,
        forall|i: int|
            0 <= i < run_actions(SessionState::Failed, events).len() ==> run_actions(
                SessionState::Failed,
                events,
            )[i] == SessionAction::ReportFailure,
    decreases events.len(),
{
    if events.len() > 0 {
        lemma_failed_stays_failed(events.drop_first());
    }
}

/// Law of the cached path: when the credentials are present and a cached
/// token loads, the whole run orders no interactive action, so nothing
/// prints the authorization URL and nothing reads standard input.
pub proof fn lemma_cached_token_skips_interactive(events: Seq<SessionEvent>)
    requires
        events.len() >= 2,
        events[0] == SessionEvent::CredentialsLoaded(true),
        events[1] == SessionEvent::CacheLoaded(true),
    ensures
        forall|i: int|
            0 <= i < run_actions(SessionState::Start, events).len() ==> !is_interactive(
                #[trigger] run_actions(SessionState::Start, events)[i],
            ),
{
    let mid = events.drop_first();
    let rest = mid.drop_first();
    lemma_past_authorization_stays_quiet(SessionState::AwaitingRefresh, rest);
    assert(run_actions(SessionState::Start, events) =~= seq![SessionAction::LoadCache]
        + run_actions(SessionState::CacheCheck, mid));
    assert(run_actions(SessionState::CacheCheck, mid) =~= seq![SessionAction::RefreshToken]
        + run_actions(SessionState::AwaitingRefresh, rest));
    assert forall|i: int| 0 <= i < run_actions(SessionState::Start, events).len()
        implies !is_interactive(run_actions(SessionState::Start, events)[i]) by {
        if i >= 2 {
            assert(run_actions(SessionState::Start, events)[i] == run_actions(
                SessionState::AwaitingRefresh,
                rest,
            )[i - 2]);
        }
    }
}

/// Law of the fresh path: when the credentials are present and no cached
/// token loads, the very next order is the interactive prompt.
pub proof fn lemma_absent_token_triggers_interactive(events: Seq<SessionEvent>)
    requires
        events.len() >= 2,
        events[0] == SessionEvent::CredentialsLoaded(true),
        events[1] == SessionEvent::CacheLoaded(false),
    ensures
        run_actions(SessionState::Start, events)[1] == SessionAction::PromptForRedirect,
{
    let rest = events.drop_first();
    assert(run_actions(SessionState::Start, events)[1] == run_actions(
        SessionState::CacheCheck,
        rest,
    )[0]);
}

/// Law of the configuration check: a run whose credentials are missing
/// fails on its first step and never orders a network action afterwards;
/// the remote API is not touched at all.
pub proof fn lemma_missing_credentials_stop_before_network(events: Seq<SessionEvent>)
    requires
        events.len() >= 1,
        events[0] == SessionEvent::CredentialsLoaded(false),
    ensures
        run_actions(SessionState::Start, events)[0] == SessionAction::ReportFailure,
        forall|i: int|
            0 <= i < run_actions(SessionState::Start, events).len() ==> !is_network(
                #[trigger] run_actions(SessionState::Start, events)[i],
            ),
{
    let rest = events.drop_first();
    lemma_failed_stays_failed(rest);
    assert(run_actions(SessionState::Start, events) =~= seq![SessionAction::ReportFailure]
        + run_actions(SessionState::Failed, rest));
    assert forall|i: int| 0 <= i < run_actions(SessionState::Start, events).len()
        implies !is_network(run_actions(SessionState::Start, events)[i]) by {
        if i >= 1 {
            assert(run_actions(SessionState::Start, events)[i] == run_actions(
                SessionState::Failed,
                rest,
            )[i - 1]);
        }
    }
}

/// Law of repetition: any number of separate runs, each starting over with
/// present credentials and a cached token that loads, orders no interactive
/// action in any of them: no authorization URL is written and standard
/// input is never read.
pub proof fn lemma_repeated_cached_runs_quiet(runs: Seq<Seq<SessionEvent>>)
    requires
        forall|k: int|
            0 <= k < runs.len() ==> (#[trigger] runs[k]).len() >= 2 && runs[k][0]
                == SessionEvent::CredentialsLoaded(true) && runs[k][1]
                == SessionEvent::CacheLoaded(true),
    ensures
        forall|k: int, i: int|
            0 <= k < runs.len() && 0 <= i < run_actions(SessionState::Start, runs[k]).len()
                ==> !is_interactive(#[trigger] run_actions(SessionState::Start, runs[k])[i]),
{
    assert forall|k: int, i: int|
        0 <= k < runs.len() && 0 <= i < run_actions(SessionState::Start, runs[k]).len()
        implies !is_interactive(#[trigger] run_actions(SessionState::Start, runs[k])[i]) by {
        lemma_cached_token_skips_interactive(runs[k]);
    }
}

} // verus!
