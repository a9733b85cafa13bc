use kasugai_box::config::{apply_update, default_true, Config, ConfigUpdate, ConfigView, DEFAULT_PORT};

fn saved() -> Config {
    let mut c = Config::new();
    c.client_id = Some("id".to_string());
    c.client_secret = Some("secret".to_string());
    c.access_token = Some("acc".to_string());
    c.search_limit = Some(50);
    c
}

#[test]
fn defaults() {
    assert!(default_true());
    let c = Config::new();
    assert!(!c.auto_update);
    assert_eq!(ConfigView::from(&c).port, DEFAULT_PORT);
    assert_eq!(DEFAULT_PORT, 8410);
}

#[test]
fn view_shows_only_whether_secrets_are_set() {
    let mut c = saved();
    c.developer_token = Some("   ".to_string());
    c.port = Some(9000);
    let v = ConfigView::from(&c);
    assert!(v.has_client_id && v.has_client_secret);
    assert!(!v.has_developer_token && !v.has_mcp_connection_token);
    assert_eq!(v.port, 9000);
    assert_eq!(v.search_limit, Some(50));
    let mut other = saved();
    other.client_secret = Some("something else".to_string());
    other.developer_token = Some("".to_string());
    other.port = Some(9000);
    let w = ConfigView::from(&other);
    assert_eq!((v.has_client_id, v.has_client_secret, v.has_developer_token), (w.has_client_id, w.has_client_secret, w.has_developer_token));
}

#[test]
fn empty_update_changes_nothing() {
    let c = apply_update(saved(), ConfigUpdate::new());
    assert_eq!(c.client_id.as_deref(), Some("id"));
    assert_eq!(c.client_secret.as_deref(), Some("secret"));
    assert_eq!(c.access_token.as_deref(), Some("acc"));
    assert_eq!(c.search_limit, Some(50));
}

#[test]
fn blank_secrets_do_not_clear() {
    let mut u = ConfigUpdate::new();
    u.client_id = Some("  ".to_string());
    u.client_secret = Some(" new ".to_string());
    let c = apply_update(saved(), u);
    assert_eq!(c.client_id.as_deref(), Some("id"));
    assert_eq!(c.client_secret.as_deref(), Some("new"));
}

#[test]
fn limits_and_ports_are_clamped() {
    let mut u = ConfigUpdate::new();
    u.search_limit = Some(0);
    u.port = Some(0);
    let c = apply_update(saved(), u);
    assert_eq!(c.search_limit, Some(1));
    assert_eq!(c.port, Some(1));
    let mut u = ConfigUpdate::new();
    u.search_limit = Some(1000);
    assert_eq!(apply_update(saved(), u).search_limit, Some(200));
}

#[test]
fn blank_mcp_url_clears_it() {
    let mut c = saved();
    c.mcp_server_url = Some("http://x".to_string());
    let mut u = ConfigUpdate::new();
    u.mcp_server_url = Some(" ".to_string());
    u.auto_update = Some(false);
    u.folder_url = Some("".to_string());
    let c = apply_update(c, u);
    assert_eq!(c.mcp_server_url, None);
    assert!(!c.auto_update);
    assert_eq!(c.folder_url.as_deref(), Some(""));
}

#[test]
fn update_twice_is_update_once() {
    let make = || {
        let mut u = ConfigUpdate::new();
        u.client_id = Some(" x ".to_string());
        u.search_limit = Some(500);
        u
    };
    let once = apply_update(saved(), make());
    let twice = apply_update(apply_update(saved(), make()), make());
    assert_eq!(once.client_id, twice.client_id);
    assert_eq!(once.search_limit, twice.search_limit);
}
