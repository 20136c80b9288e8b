use slaxide::auth::{
    begin_login, default_user_scopes, ensure_required_user_scopes, initial_status,
    keyring_account_for, parse_callback_input, parse_scope_list, token_needs_refresh, AuthError,
    SlackAuthStatus, SlackOAuthEnvironment, StoredSlackSession, DEFAULT_REDIRECT_URI,
};
use slaxide::slack::{AuthedUser, OAuthAccessResponse};
use slaxide::time::Timestamp;
use slaxide::urls::WebUrl;

/// 2026-03-15 12:00:00 UTC.
fn noon() -> Timestamp {
    Timestamp { seconds: 1_773_576_000, nanos: 0 }
}

fn environment(redirect_uri: Option<&str>, scopes: Option<&str>) -> SlackOAuthEnvironment {
    SlackOAuthEnvironment::from_env(
        Some("client-id"),
        Some("client-secret"),
        redirect_uri,
        scopes,
    )
    .unwrap()
}

fn callback_address() -> WebUrl {
    environment(Some("https://127.0.0.1/slack/callback"), None).redirect_uri().clone()
}

fn response() -> OAuthAccessResponse {
    OAuthAccessResponse {
        access_token: Some("xoxb-bot".into()),
        token_type: Some("bot".into()),
        scope: None,
        refresh_token: Some("bot-refresh".into()),
        expires_in: Some(7200),
        bot_user_id: Some("B1".into()),
        app_id: None,
        team: None,
        enterprise: None,
        is_enterprise_install: None,
        authed_user: Some(AuthedUser {
            id: Some("U1".into()),
            access_token: Some("xoxp-user".into()),
            scope: None,
            refresh_token: Some("user-refresh".into()),
            expires_in: Some(3600),
            token_type: Some("user".into()),
        }),
    }
}

#[test]
fn stored_session_prefers_authed_user_token() {
    let session = StoredSlackSession::from_oauth_response(response(), noon()).unwrap();

    assert_eq!(session.user_id.as_deref(), Some("U1"));
    assert_eq!(session.user_access_token.as_deref(), Some("xoxp-user"));
    assert_eq!(session.bot_access_token.as_deref(), Some("xoxb-bot"));
}

#[test]
fn callback_parser_extracts_code_and_validates_state() {
    let code = parse_callback_input(
        "https://127.0.0.1/slack/callback?code=abc123&state=expected",
        &callback_address(),
        "expected",
    )
    .unwrap();

    assert_eq!(code, "abc123");
}

#[test]
fn refresh_window_starts_before_expiry() {
    let refresh_token = Some("refresh-token");
    let expires_at = Some(noon().plus_seconds(240));

    assert!(token_needs_refresh(expires_at, refresh_token, noon()));
}

#[test]
fn callback_parser_rejects_slack_authorize_page_url() {
    let error = parse_callback_input(
        "https://iguchi-labo.slack.com/oauth?client_id=123&redirect_uri=https%3A%2F%2F127.0.0.1%2Fslack%2Fcallback&state=expected",
        &callback_address(),
        "expected",
    )
    .unwrap_err()
    .message();

    assert!(error.contains("click Allow first"));
}

#[test]
fn oauth_environment_requires_https_redirect_uri() {
    let error = SlackOAuthEnvironment::from_env(
        Some("client-id"),
        Some("client-secret"),
        Some("http://127.0.0.1/slack/callback"),
        None,
    )
    .unwrap_err()
    .message();

    assert!(error.contains("HTTPS URL"));
}

#[test]
fn oauth_environment_uses_default_redirect_uri() {
    let environment = environment(None, None);

    assert_eq!(environment.redirect_uri().text, DEFAULT_REDIRECT_URI);
}

#[test]
fn oauth_environment_adds_required_reaction_scope() {
    let environment = environment(None, Some("channels:history,chat:write"));

    assert!(environment
        .user_scopes()
        .iter()
        .any(|scope| scope == "reactions:read"));
}

#[test]
fn a_far_expiry_needs_no_refresh() {
    assert!(!token_needs_refresh(Some(noon().plus_seconds(3600)), Some("refresh"), noon()));
    assert!(!token_needs_refresh(Some(noon()), None, noon()));
}

#[test]
fn the_session_expires_when_its_tokens_do() {
    let session = StoredSlackSession::from_oauth_response(response(), noon()).unwrap();

    assert_eq!(session.user_expires_at, Some(noon().plus_seconds(3600)));
    assert_eq!(session.bot_expires_at, Some(noon().plus_seconds(7200)));
    assert!(!session.needs_refresh(noon()));
    assert!(session.needs_refresh(noon().plus_seconds(3500)));
    assert_eq!(session.user_refresh(noon().plus_seconds(3500)), Some("user-refresh"));
    assert_eq!(session.bot_refresh(noon().plus_seconds(3500)), None);
}

#[test]
fn a_response_without_tokens_is_refused() {
    let mut response = response();
    response.access_token = None;
    response.authed_user = None;

    assert!(matches!(
        StoredSlackSession::from_oauth_response(response, noon()),
        Err(AuthError::NoUsableToken)
    ));
}

#[test]
fn refreshed_tokens_take_the_place_of_old_ones() {
    let mut session = StoredSlackSession::from_oauth_response(response(), noon()).unwrap();
    let mut answer = response();
    answer.access_token = Some("xoxb-next".into());

    session.apply_bot_refresh_response(answer, noon()).unwrap();

    assert_eq!(session.bot_access_token.as_deref(), Some("xoxb-next"));
    assert_eq!(session.user_access_token.as_deref(), Some("xoxp-user"));
}

#[test]
fn callbacks_that_answer_nothing_are_refused() {
    let address = callback_address();
    let read = |raw: &str| parse_callback_input(raw, &address, "expected");

    assert!(matches!(read("   "), Err(AuthError::NoCallback)));
    assert!(matches!(read("abc123"), Err(AuthError::CodeOnly)));
    assert!(matches!(
        read("http://127.0.0.1/slack/callback?code=a&state=expected"),
        Err(AuthError::UnexpectedScheme(_))
    ));
    assert!(matches!(
        read("https://example.com/slack/callback?code=a&state=expected"),
        Err(AuthError::HostMismatch(_))
    ));
    assert!(matches!(
        read("https://127.0.0.1/elsewhere?code=a&state=expected"),
        Err(AuthError::UnexpectedPath(_))
    ));
    assert!(matches!(
        read("https://127.0.0.1/slack/callback?error=access_denied&state=expected"),
        Err(AuthError::Refused(_))
    ));
    assert!(matches!(
        read("https://127.0.0.1/slack/callback?code=a"),
        Err(AuthError::MissingState)
    ));
    assert!(matches!(
        read("https://127.0.0.1/slack/callback?code=a&state=other"),
        Err(AuthError::StateMismatch)
    ));
    assert!(matches!(
        read("https://127.0.0.1/slack/callback?state=expected"),
        Err(AuthError::MissingCode)
    ));
}

#[test]
fn a_path_is_read_from_the_redirect_address() {
    let code = parse_callback_input(
        "/slack/callback?code=a%20b&state=expected",
        &callback_address(),
        "expected",
    )
    .unwrap();

    assert_eq!(code, "a b");
}

#[test]
fn missing_variables_are_named() {
    let error = SlackOAuthEnvironment::from_env(None, Some("secret"), None, None).unwrap_err();
    assert!(matches!(error, AuthError::MissingVariable(_)));

    let error = SlackOAuthEnvironment::from_env(Some("id"), None, None, None).unwrap_err();
    assert!(matches!(error, AuthError::MissingVariable(_)));

    let error =
        SlackOAuthEnvironment::from_env(Some("id"), Some("secret"), Some("::"), None).unwrap_err();
    assert!(matches!(error, AuthError::InvalidRedirect(_)));

    let error =
        SlackOAuthEnvironment::from_env(Some("id"), Some("secret"), None, Some(" , ")).unwrap_err();
    assert!(matches!(error, AuthError::NoScopes));
}

#[test]
fn scopes_are_read_in_order_and_completed_once() {
    let scopes = parse_scope_list(" b , a,, ").unwrap();
    assert_eq!(scopes, vec!["b".to_string(), "a".to_string()]);

    let completed = ensure_required_user_scopes(scopes);
    assert_eq!(completed[..2], ["b".to_string(), "a".to_string()]);
    assert_eq!(ensure_required_user_scopes(completed.clone()), completed);
    assert_eq!(ensure_required_user_scopes(default_user_scopes()), default_user_scopes());
}

#[test]
fn a_login_names_its_state() {
    let (login, address) = begin_login(&environment(None, None), "opaque").unwrap();

    assert_eq!(login.state, "opaque");
    assert!(address.contains("state=opaque"));
    assert!(address.contains("client_id=client-id"));
}

#[test]
fn workspaces_have_accounts_of_their_own() {
    assert_ne!(keyring_account_for("T1"), keyring_account_for("T2"));
}

#[test]
fn the_first_status_follows_the_keyring_and_the_environment() {
    let session = StoredSlackSession::from_oauth_response(response(), noon()).unwrap();
    let connected = initial_status(Ok(Some(session)), Err(AuthError::NoScopes));
    assert!(matches!(connected, SlackAuthStatus::Connected(_)));
    assert!(connected.is_connected());

    let waiting = initial_status(Ok(None), Ok(environment(None, None)));
    assert!(matches!(waiting, SlackAuthStatus::Disconnected { .. }));
    assert!(waiting.can_start_login());

    let unset = initial_status(Ok(None), Err(AuthError::NoScopes));
    assert!(matches!(unset, SlackAuthStatus::MissingConfig(_)));
    assert!(!unset.can_start_login());

    let failed = initial_status(Err("locked".into()), Ok(environment(None, None)));
    assert!(matches!(failed, SlackAuthStatus::Error(_)));
}

#[test]
fn expiries_of_tokens_that_are_not_there_do_not_count() {
    let mut answer = response();
    answer.access_token = None;
    answer.expires_in = Some(i64::MAX);
    let mut session = StoredSlackSession::from_oauth_response(answer.clone(), noon()).unwrap();
    assert_eq!(session.bot_access_token, None);
    assert_eq!(session.bot_expires_at, None);
    assert_eq!(session.user_expires_at, Some(noon().plus_seconds(3600)));
    session.apply_user_refresh_response(answer, noon()).unwrap();

    let mut answer = response();
    answer.authed_user.as_mut().unwrap().access_token = None;
    answer.authed_user.as_mut().unwrap().expires_in = Some(i64::MAX);
    session.apply_bot_refresh_response(answer, noon()).unwrap();
    assert_eq!(session.bot_expires_at, Some(noon().plus_seconds(7200)));
}
