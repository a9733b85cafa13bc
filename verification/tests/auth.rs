use kasugai_box::auth::{
    auth_status, authorization_code_form, authorize_url, callback_code, developer_login_message,
    developer_token_input, login_message, logout, oauth_redirect_uri, prepare_login, record_developer_token,
    record_login, record_tokens, refresh_form, token_decision, TokenDecision,
};
use kasugai_box::box_api::{BoxUser, OAuthTokenResponse};
use kasugai_box::config::Config;

fn tokens(access: &str, refresh: &str, expires_in: u64) -> OAuthTokenResponse {
    OAuthTokenResponse { access_token: access.to_string(), refresh_token: refresh.to_string(), expires_in }
}

fn message_of(d: TokenDecision) -> String {
    match d {
        TokenDecision::Fail { message } => message,
        _ => panic!("expected a failure"),
    }
}

#[test]
fn developer_token_comes_first() {
    let mut c = Config::new();
    c.developer_token = Some("dev".to_string());
    c.access_token = Some("acc".to_string());
    c.expires_at = Some(10_000);
    match token_decision(&c, 0) {
        TokenDecision::Use { token } => assert_eq!(token, "dev"),
        _ => panic!("expected the developer token"),
    }
}

#[test]
fn fresh_access_token_is_used_until_a_minute_before_expiry() {
    let mut c = Config::new();
    c.access_token = Some("acc".to_string());
    c.expires_at = Some(1000);
    assert!(matches!(token_decision(&c, 939), TokenDecision::Use { .. }));
    assert_eq!(message_of(token_decision(&c, 940)), "クライアントIDが設定されていません");
    c.expires_at = Some(i64::MIN);
    assert!(!matches!(token_decision(&c, i64::MIN), TokenDecision::Use { .. }));
}

#[test]
fn refresh_needs_credentials_and_a_refresh_token() {
    let mut c = Config::new();
    assert_eq!(message_of(token_decision(&c, 0)), "クライアントIDが設定されていません");
    c.client_id = Some("id".to_string());
    assert_eq!(message_of(token_decision(&c, 0)), "クライアントシークレットが設定されていません");
    c.client_secret = Some("secret".to_string());
    assert_eq!(message_of(token_decision(&c, 0)), "OAuth ログインが必要です");
    c.refresh_token = Some("r".to_string());
    match token_decision(&c, 0) {
        TokenDecision::Refresh { client_id, client_secret, refresh_token } => {
            assert_eq!((client_id.as_str(), client_secret.as_str(), refresh_token.as_str()), ("id", "secret", "r"));
        }
        _ => panic!("expected a refresh"),
    }
}

#[test]
fn refreshed_tokens_are_saved_and_used() {
    let mut c = Config::new();
    c.client_id = Some("id".to_string());
    let c = record_tokens(c, tokens("new", "r2", 3600), 1_000);
    assert_eq!(c.access_token.as_deref(), Some("new"));
    assert_eq!(c.refresh_token.as_deref(), Some("r2"));
    assert_eq!(c.expires_at, Some(4_600));
    assert_eq!(c.client_id.as_deref(), Some("id"));
    match token_decision(&c, 1_000) {
        TokenDecision::Use { token } => assert_eq!(token, "new"),
        _ => panic!("expected the new token"),
    }
}

#[test]
fn login_needs_id_and_secret() {
    let c = Config::new();
    assert_eq!(prepare_login(c, Some("  ".to_string()), None).err().unwrap(), "クライアントIDが設定されていません");
    let c = Config::new();
    assert_eq!(
        prepare_login(c, Some(" id ".to_string()), None).err().unwrap(),
        "クライアントシークレットが設定されていません"
    );
    let mut c = Config::new();
    c.client_secret = Some("old".to_string());
    let c = prepare_login(c, Some(" id ".to_string()), Some("".to_string())).unwrap();
    assert_eq!(c.client_id.as_deref(), Some("id"));
    assert_eq!(c.client_secret.as_deref(), Some("old"));
}

#[test]
fn authorize_address() {
    assert_eq!(
        authorize_url("cid", "12-34"),
        "https://account.box.com/api/oauth2/authorize?response_type=code&client_id=cid&redirect_uri=http%3A%2F%2Flocalhost%3A8000%2Fcallback&state=12-34"
    );
    assert_eq!(oauth_redirect_uri(), "http://localhost:8000/callback");
}

#[test]
fn callback_requests() {
    let good = "GET /callback?code=abc&state=s1 HTTP/1.1\r\nHost: localhost:8000\r\n\r\n";
    assert_eq!(callback_code(good, "s1").as_deref(), Some("abc"));
    assert_eq!(callback_code(good, "s2"), None);
    assert_eq!(callback_code("GET /favicon.ico HTTP/1.1\r\n\r\n", "s1"), None);
    assert_eq!(callback_code("GET /callback?state=s1 HTTP/1.1\r\n", "s1"), None);
    assert_eq!(callback_code("", "s1"), None);
}

#[test]
fn token_forms() {
    let f = authorization_code_form("i", "s", "c", "http://localhost:8000/callback");
    assert_eq!(f[0], ("grant_type".to_string(), "authorization_code".to_string()));
    assert_eq!(f[3], ("code".to_string(), "c".to_string()));
    assert_eq!(f.len(), 5);
    let f = refresh_form("i", "s", "r");
    assert_eq!(f[0], ("grant_type".to_string(), "refresh_token".to_string()));
    assert_eq!(f[3], ("refresh_token".to_string(), "r".to_string()));
    assert_eq!(f.len(), 4);
}

#[test]
fn login_results() {
    let mut c = Config::new();
    c.developer_token = Some("d".to_string());
    let c = record_login(c, "id".to_string(), "sec".to_string(), tokens("a", "r", 60), 100);
    assert_eq!(c.client_secret.as_deref(), Some("sec"));
    assert_eq!(c.expires_at, Some(160));
    let c = record_developer_token(c, "dev2".to_string());
    assert_eq!(c.developer_token.as_deref(), Some("dev2"));
    let user = BoxUser { name: "N".to_string(), login: "n@x".to_string(), user_type: "user".to_string() };
    assert_eq!(login_message(&user), "N (n@x) としてログインしました");
    assert_eq!(developer_login_message(&user), "N (n@x) としてログインしました（デベロッパートークン）");
    assert_eq!(developer_token_input("  t  ").unwrap(), "t");
    assert_eq!(developer_token_input(" ").err().unwrap(), "デベロッパートークンを入力してください");
}

#[test]
fn logout_removes_every_token() {
    let mut c = Config::new();
    c.access_token = Some("a".to_string());
    c.refresh_token = Some("r".to_string());
    c.expires_at = Some(5);
    c.developer_token = Some("d".to_string());
    c.client_id = Some("id".to_string());
    assert_eq!(auth_status(&c), (true, Some(5)));
    let c = logout(c);
    assert_eq!(auth_status(&c), (false, None));
    assert_eq!(c.client_id.as_deref(), Some("id"));
    assert!(matches!(token_decision(&c, 0), TokenDecision::Fail { .. }));
}
