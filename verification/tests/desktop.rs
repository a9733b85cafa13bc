use kasugai_box::box_api::{BoxItem, BoxSearchResponse};
use kasugai_box::chat::ChatStep;
use kasugai_box::desktop::{
    call_tool_request, callback_navigation, extract_query_param, list_tools_request, logout,
    merge_saved_config, plan_chat, process_message, remember_job, search_result, search_url,
    searched, shared_link_url, BoxApiChatResponse, Config, OAuthTokenResponse, SearchState,
};
use kasugai_box::json::{Json, JsonNumber};

fn config() -> Config {
    let mut c = Config::new();
    c.developer_token = Some("dev".to_string());
    c.access_token = Some("acc".to_string());
    c.expires_at = Some(9);
    c.mcp_server_url = Some("http://m".to_string());
    c
}

#[test]
fn desktop_form_save_keeps_tokens_it_lacks() {
    let mut form = Config::new();
    form.client_id = Some("id".to_string());
    let merged = merge_saved_config(config(), form);
    assert_eq!(merged.client_id.as_deref(), Some("id"));
    assert_eq!(merged.developer_token.as_deref(), Some("dev"));
    assert_eq!(merged.access_token.as_deref(), Some("acc"));
    assert_eq!(merged.expires_at, Some(9));
    assert_eq!(merged.mcp_server_url.as_deref(), Some("http://m"));
    let mut form = Config::new();
    form.access_token = Some("new".to_string());
    let merged = merge_saved_config(config(), form);
    assert_eq!(merged.access_token.as_deref(), Some("new"));
    assert_eq!(merged.client_id, None);
}

#[test]
fn desktop_logout_keeps_developer_token() {
    let c = logout(config());
    assert_eq!(c.access_token, None);
    assert_eq!(c.expires_at, None);
    assert_eq!(c.developer_token.as_deref(), Some("dev"));
    let c = remember_job(c, "i".to_string(), "s".to_string(), "f".to_string());
    assert_eq!(c.folder_url.as_deref(), Some("f"));
    let s = c.into_settings();
    assert_eq!(s.search_limit, None);
    assert!(s.auto_update);
    let back = Config::from_settings(s);
    assert_eq!(back.client_secret.as_deref(), Some("s"));
}

#[test]
fn desktop_search_pages_by_fifty() {
    assert!(search_url("q", 50).unwrap().contains("&limit=50&offset=50&"));
    let item = BoxItem {
        item_type: "file".to_string(),
        id: "1".to_string(),
        name: "a".to_string(),
        shared_link: None,
        path_collection: None,
    };
    let data = BoxSearchResponse { entries: vec![item], offset: Some(50), total_count: Some(120) };
    let r = search_result(0, &data);
    assert_eq!(r.offset, 50);
    assert_eq!(r.next_offset, 51);
    assert!(r.has_more);
    let (answer, state): (BoxApiChatResponse, SearchState) = searched("q", &r);
    assert!(answer.reply.ends_with("\n\n51-51/120 件（Enter で続き）"));
    match plan_chat("more", &Some(state)) {
        ChatStep::Search { query, offset, limit } => {
            assert_eq!((query.as_str(), offset, limit), ("q", 51, 50));
        }
        _ => panic!("expected the next page"),
    }
}

#[test]
fn desktop_chat_differs_in_help_and_links() {
    match plan_chat("help", &None) {
        ChatStep::Reply { text } => assert!(text.ends_with("検索結果は 50 件ずつ取得し、Enter で次の 50 件を読み込みます。")),
        _ => panic!("expected help"),
    }
    match plan_chat("photos", &None) {
        ChatStep::Search { limit, .. } => assert_eq!(limit, 50),
        _ => panic!("expected a search"),
    }
    assert_eq!(shared_link_url("file", "3"), "https://api.box.com/2.0/file/3");
}

#[test]
fn login_window_catches_the_redirect() {
    let q = Some("code=c1&state=s");
    assert_eq!(callback_navigation("http", Some("localhost"), Some(8000), "/callback", q, "s").as_deref(), Some("c1"));
    assert_eq!(callback_navigation("https", Some("localhost"), Some(8000), "/callback", q, "s"), None);
    assert_eq!(callback_navigation("http", Some("localhost"), Some(8001), "/callback", q, "s"), None);
    assert_eq!(callback_navigation("http", Some("localhost"), Some(8000), "/callback", q, "t"), None);
    assert_eq!(callback_navigation("http", Some("localhost"), Some(8000), "/callback", None, "s"), None);
    assert_eq!(extract_query_param("state=s", "state").as_deref(), Some("s"));
    let t = OAuthTokenResponse { access_token: "a".to_string(), refresh_token: "r".to_string(), expires_in: 1 };
    assert_eq!(t.expires_in, 1);
}

#[test]
fn desktop_messages_and_requests() {
    assert_eq!(process_message(0, true), "対象ファイルが見つかりませんでした。");
    assert_eq!(process_message(2, true), "2件の画像を処理しました。CSVとGeoJSONを出力しました。");
    assert_eq!(process_message(2, false), "2件の画像を処理しました。位置情報が含まれていませんでした。");
    match list_tools_request() {
        Json::Object(m) => assert!(m.iter().any(|(k, v)| k == "id" && matches!(v, Json::Number(JsonNumber::PosInt(1))))),
        _ => panic!("not an object"),
    }
    match call_tool_request("t", Json::Null) {
        Json::Object(m) => assert!(m.iter().any(|(k, v)| k == "id" && matches!(v, Json::Number(JsonNumber::PosInt(2))))),
        _ => panic!("not an object"),
    }
}
