use ncspot::authentication::{
    get_client_redirect_uri, map_token, token_plan, usable_refresh_token, OAuthToken, Token,
    TokenPlan,
};

const NOW_MS: u64 = 1_000_000;
const UTC_NOW_MS: i64 = 1_700_000_000_000;

fn oauth_token(refresh_token: &str) -> OAuthToken {
    OAuthToken {
        access_token: "access".to_string(),
        refresh_token: refresh_token.to_string(),
        expires_at_ms: NOW_MS + 3_600_000,
        token_type: "Bearer".to_string(),
        scopes: Vec::new(),
    }
}

#[test]
fn map_token_keeps_new_refresh_token_when_present() {
    let mapped = map_token(
        oauth_token("new-refresh-token"),
        Some("old-refresh-token"),
        NOW_MS,
        UTC_NOW_MS,
    );
    assert_eq!(mapped.refresh_token, Some("new-refresh-token".to_string()));
}

#[test]
fn map_token_falls_back_to_previous_refresh_token_when_omitted() {
    let mapped = map_token(oauth_token(""), Some("old-refresh-token"), NOW_MS, UTC_NOW_MS);
    assert_eq!(mapped.refresh_token, Some("old-refresh-token".to_string()));
}

#[test]
fn map_token_yields_no_refresh_token_when_omitted_without_fallback() {
    let mapped = map_token(oauth_token(""), None, NOW_MS, UTC_NOW_MS);
    assert_eq!(mapped.refresh_token, None);
}

#[test]
fn map_token_counts_the_time_left() {
    let mapped = map_token(oauth_token("r"), None, NOW_MS, UTC_NOW_MS);
    assert_eq!(mapped.access_token, "access");
    assert_eq!(mapped.expires_in_ms, 3_600_000);
    assert_eq!(mapped.expires_at_ms, Some(UTC_NOW_MS + 3_600_000));
    assert!(mapped.scopes.is_empty());
}

#[test]
fn map_token_of_an_expired_token_has_no_time_left() {
    let mapped = map_token(oauth_token("r"), None, NOW_MS + 4_000_000, UTC_NOW_MS);
    assert_eq!(mapped.expires_in_ms, 0);
    assert_eq!(mapped.expires_at_ms, Some(UTC_NOW_MS));
}

#[test]
fn redirect_uri_names_the_port() {
    assert_eq!(get_client_redirect_uri(8898), "http://127.0.0.1:8898/login");
    assert_eq!(get_client_redirect_uri(0), "http://127.0.0.1:0/login");
}

fn token(refresh: Option<&str>) -> Token {
    Token {
        access_token: "a".to_string(),
        expires_in_ms: 0,
        scopes: Vec::new(),
        expires_at_ms: None,
        refresh_token: refresh.map(|s| s.to_string()),
    }
}

#[test]
fn empty_refresh_token_is_not_usable() {
    assert_eq!(usable_refresh_token(&token(Some(""))), None);
    assert_eq!(usable_refresh_token(&token(None)), None);
    assert_eq!(usable_refresh_token(&token(Some("r"))), Some("r".to_string()));
}

#[test]
fn token_plan_follows_the_saved_token() {
    assert!(matches!(token_plan(None, true), TokenPlan::CreateNew));
    let t = token(Some("r"));
    assert!(matches!(token_plan(Some(&t), false), TokenPlan::UseCached));
    assert!(matches!(token_plan(Some(&t), true), TokenPlan::Refresh(ref s) if s == "r"));
    let t = token(Some(""));
    assert!(matches!(token_plan(Some(&t), true), TokenPlan::CreateNew));
}
