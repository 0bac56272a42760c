use liked_shuffle::config::{api_scopes, make_credentials, ConfigError};
use liked_shuffle::session::{
    startup_path, step, SessionAction, SessionEvent, SessionState, StartupPath,
};

fn run(events: &[SessionEvent]) -> Vec<SessionAction> {
    let mut state = SessionState::Start;
    let mut actions = Vec::new();
    for e in events {
        let (next, action) = step(state, *e);
        state = next;
        actions.push(action);
    }
    actions
}

#[test]
fn missing_client_id_is_reported_first() {
    let r = make_credentials(None, Some(String::from("secret")));
    assert_eq!(r.unwrap_err(), ConfigError::MissingClientId);
    let r = make_credentials(None, None);
    assert_eq!(r.unwrap_err(), ConfigError::MissingClientId);
}

#[test]
fn missing_client_secret_is_reported() {
    let r = make_credentials(Some(String::from("id")), None);
    assert_eq!(r.unwrap_err(), ConfigError::MissingClientSecret);
}

#[test]
fn both_variables_build_the_credentials() {
    let r = make_credentials(Some(String::from("id")), Some(String::from("secret"))).unwrap();
    assert_eq!(r.id, "id");
    assert_eq!(r.secret, "secret");
}

#[test]
fn scope_set_is_the_fixed_six() {
    let s = api_scopes();
    assert_eq!(s.len(), 6);
    assert_eq!(s[0], "user-library-read");
    assert_eq!(s[1], "playlist-read-private");
    assert_eq!(s[2], "playlist-modify-public");
    assert_eq!(s[3], "playlist-modify-private");
    assert_eq!(s[4], "playlist-read-collaborative");
    assert_eq!(s[5], "user-read-currently-playing");
}

#[test]
fn startup_path_resolves_the_two_state_choice() {
    assert_eq!(startup_path(true), StartupPath::CachedValid);
    assert_eq!(startup_path(false), StartupPath::NeedsAuthorization);
}

#[test]
fn missing_credentials_stop_before_any_network_action() {
    let actions = run(&[
        SessionEvent::CredentialsLoaded(false),
        SessionEvent::CacheLoaded(true),
        SessionEvent::TokenRefreshed(true),
    ]);
    assert_eq!(actions[0], SessionAction::ReportFailure);
    for a in &actions {
        assert!(!matches!(
            a,
            SessionAction::ExchangeCode | SessionAction::RefreshToken | SessionAction::BeginFetch
        ));
    }
}

#[test]
fn cached_token_skips_the_interactive_path() {
    let actions = run(&[
        SessionEvent::CredentialsLoaded(true),
        SessionEvent::CacheLoaded(true),
        SessionEvent::TokenRefreshed(true),
    ]);
    assert_eq!(
        actions,
        vec![
            SessionAction::LoadCache,
            SessionAction::RefreshToken,
            SessionAction::BeginFetch,
        ]
    );
    assert!(!actions.contains(&SessionAction::PromptForRedirect));
}

#[test]
fn absent_token_always_triggers_the_interactive_path() {
    let actions = run(&[
        SessionEvent::CredentialsLoaded(true),
        SessionEvent::CacheLoaded(false),
    ]);
    assert_eq!(actions[1], SessionAction::PromptForRedirect);
}

#[test]
fn full_interactive_run_reaches_the_fetch() {
    let actions = run(&[
        SessionEvent::CredentialsLoaded(true),
        SessionEvent::CacheLoaded(false),
        SessionEvent::CodeParsed(true),
        SessionEvent::TokenExchanged(true),
        SessionEvent::TokenRefreshed(true),
    ]);
    assert_eq!(
        actions,
        vec![
            SessionAction::LoadCache,
            SessionAction::PromptForRedirect,
            SessionAction::ExchangeCode,
            SessionAction::RefreshToken,
            SessionAction::BeginFetch,
        ]
    );
}

#[test]
fn unparseable_redirect_line_fails_the_run() {
    let actions = run(&[
        SessionEvent::CredentialsLoaded(true),
        SessionEvent::CacheLoaded(false),
        SessionEvent::CodeParsed(false),
    ]);
    assert_eq!(actions[2], SessionAction::ReportFailure);
}

#[test]
fn failed_exchange_fails_the_run() {
    let actions = run(&[
        SessionEvent::CredentialsLoaded(true),
        SessionEvent::CacheLoaded(false),
        SessionEvent::CodeParsed(true),
        SessionEvent::TokenExchanged(false),
    ]);
    assert_eq!(actions[3], SessionAction::ReportFailure);
}

#[test]
fn failed_refresh_fails_the_run() {
    let actions = run(&[
        SessionEvent::CredentialsLoaded(true),
        SessionEvent::CacheLoaded(true),
        SessionEvent::TokenRefreshed(false),
    ]);
    assert_eq!(actions[2], SessionAction::ReportFailure);
}

#[test]
fn event_out_of_turn_fails_the_run() {
    let (state, action) = step(SessionState::Start, SessionEvent::TokenRefreshed(true));
    assert_eq!(state, SessionState::Failed);
    assert_eq!(action, SessionAction::ReportFailure);
}

#[test]
fn repeated_cached_runs_stay_quiet() {
    for _ in 0..3 {
        let actions = run(&[
            SessionEvent::CredentialsLoaded(true),
            SessionEvent::CacheLoaded(true),
            SessionEvent::TokenRefreshed(true),
        ]);
        assert!(!actions.contains(&SessionAction::PromptForRedirect));
    }
}
