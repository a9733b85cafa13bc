use kasugai_box::box_api::SearchResult;
use kasugai_box::json::{Json, JsonNumber};
use kasugai_box::mcp::{
    arguments_are_blank, classify_request, connection_token, initialize_request,
    initialized_notification, list_folder_line, mcp_endpoint, method_not_found, parse_mcp_body,
    plan_tool_call, queued_job, rpc_request, search_tool_text, tool_call_params, tool_text,
    tools_definition, McpRequest, ToolCall,
};

fn text(s: &str) -> Json {
    Json::Str(s.to_string())
}

fn object(members: Vec<(&str, Json)>) -> Json {
    Json::Object(members.into_iter().map(|(k, v)| (k.to_string(), v)).collect())
}

fn get<'a>(j: &'a Json, key: &str) -> &'a Json {
    match j {
        Json::Object(m) => &m.iter().find(|(k, _)| k == key).expect(key).1,
        _ => panic!("not an object"),
    }
}

fn as_text(j: &Json) -> &str {
    match j {
        Json::Str(s) => s,
        _ => panic!("not a string"),
    }
}

#[test]
fn notifications_have_no_id() {
    let body = object(vec![("jsonrpc", text("2.0")), ("method", text("notifications/initialized"))]);
    assert!(matches!(classify_request(body), McpRequest::Notification));
    assert!(matches!(classify_request(Json::Null), McpRequest::Notification));
}

#[test]
fn requests_by_method() {
    let id = || Json::Number(JsonNumber::PosInt(7));
    let req = |m: &str| object(vec![("id", id()), ("method", text(m))]);
    assert!(matches!(classify_request(req("initialize")), McpRequest::Initialize { .. }));
    assert!(matches!(classify_request(req("ping")), McpRequest::Ping { .. }));
    assert!(matches!(classify_request(req("tools/list")), McpRequest::ToolsList { .. }));
    match classify_request(req("resources/list")) {
        McpRequest::Unknown { method, id } => {
            assert_eq!(method, "resources/list");
            assert!(matches!(id, Json::Number(JsonNumber::PosInt(7))));
        }
        _ => panic!("expected an unknown method"),
    }
    match classify_request(object(vec![("id", text("a"))])) {
        McpRequest::Unknown { method, .. } => assert_eq!(method, ""),
        _ => panic!("expected an unknown method"),
    }
}

#[test]
fn tools_call_takes_name_and_arguments() {
    let body = object(vec![
        ("jsonrpc", text("2.0")),
        ("id", Json::Number(JsonNumber::PosInt(3))),
        ("method", text("tools/call")),
        ("params", object(vec![("name", text("box_search")), ("arguments", object(vec![("query", text("q"))]))])),
    ]);
    match classify_request(body) {
        McpRequest::ToolsCall { name, arguments, .. } => {
            assert_eq!(name, "box_search");
            assert_eq!(as_text(get(arguments.as_ref().unwrap(), "query")), "q");
        }
        _ => panic!("expected a tool call"),
    }
    let bare = object(vec![("id", Json::Null), ("method", text("tools/call"))]);
    match classify_request(bare) {
        McpRequest::ToolsCall { name, arguments, .. } => {
            assert_eq!(name, "");
            assert!(arguments.is_none());
        }
        _ => panic!("expected a tool call"),
    }
}

#[test]
fn search_tool_arguments() {
    let args = Some(object(vec![("query", text("q")), ("limit", Json::Number(JsonNumber::PosInt(500)))]));
    match plan_tool_call("box_search", &args) {
        Ok(ToolCall::Search { query, limit, offset }) => {
            assert_eq!(query, "q");
            assert_eq!(limit, 200);
            assert_eq!(offset, 0);
        }
        _ => panic!("expected a search"),
    }
    let args = Some(object(vec![
        ("query", text("q")),
        ("limit", Json::Number(JsonNumber::PosInt(0))),
        ("offset", Json::Number(JsonNumber::PosInt(30))),
    ]));
    match plan_tool_call("box_search", &args) {
        Ok(ToolCall::Search { limit, offset, .. }) => {
            assert_eq!(limit, 1);
            assert_eq!(offset, 30);
        }
        _ => panic!("expected a search"),
    }
    let args = Some(object(vec![("query", text("q")), ("limit", Json::Number(JsonNumber::NegInt(-5)))]));
    match plan_tool_call("box_search", &args) {
        Ok(ToolCall::Search { limit, .. }) => assert_eq!(limit, 100),
        _ => panic!("expected a search"),
    }
    assert_eq!(plan_tool_call("box_search", &None).err().unwrap(), "query は必須です");
}

#[test]
fn other_tools_and_their_errors() {
    assert!(matches!(plan_tool_call("box_whoami", &None), Ok(ToolCall::WhoAmI)));
    match plan_tool_call("box_list_folder", &None) {
        Ok(ToolCall::ListFolder { folder_id }) => assert_eq!(folder_id, "0"),
        _ => panic!("expected a listing"),
    }
    assert_eq!(plan_tool_call("box_create_shared_link", &None).err().unwrap(), "item_type は必須です");
    let only_type = Some(object(vec![("item_type", text("file"))]));
    assert_eq!(plan_tool_call("box_create_shared_link", &only_type).err().unwrap(), "id は必須です");
    let bad = Some(object(vec![("item_type", text("web")), ("id", text("1"))]));
    assert_eq!(
        plan_tool_call("box_create_shared_link", &bad).err().unwrap(),
        "item_type には file または folder を指定してください"
    );
    let good = Some(object(vec![("item_type", text("folder")), ("id", text("1"))]));
    assert!(matches!(plan_tool_call("box_create_shared_link", &good), Ok(ToolCall::CreateSharedLink { .. })));
    assert_eq!(plan_tool_call("photos_process", &None).err().unwrap(), "folder_url は必須です");
    let p = Some(object(vec![("folder_url", text("https://app.box.com/folder/1"))]));
    match plan_tool_call("photos_process", &p) {
        Ok(ToolCall::PhotosProcess { folder_url, output_dir }) => {
            assert_eq!(folder_url, "https://app.box.com/folder/1");
            assert_eq!(output_dir, "c:/kasugai/box/photo");
        }
        _ => panic!("expected a photo job"),
    }
    assert_eq!(plan_tool_call("job_status", &None).err().unwrap(), "job_id は必須です");
    assert_eq!(plan_tool_call("nope", &None).err().unwrap(), "未知のツールです: nope");
}

#[test]
fn answers_have_their_members() {
    let r = tool_text(Json::Number(JsonNumber::PosInt(1)), "hi", true);
    assert_eq!(as_text(get(&r, "jsonrpc")), "2.0");
    let result = get(&r, "result");
    assert!(matches!(get(result, "isError"), Json::Bool(true)));
    match get(result, "content") {
        Json::Array(items) => {
            assert_eq!(items.len(), 1);
            assert_eq!(as_text(get(&items[0], "type")), "text");
            assert_eq!(as_text(get(&items[0], "text")), "hi");
        }
        _ => panic!("content is not a list"),
    }
    let e = method_not_found(Json::Null, "x/y");
    let err = get(&e, "error");
    assert!(matches!(get(err, "code"), Json::Number(JsonNumber::NegInt(-32601))));
    assert_eq!(as_text(get(err, "message")), "Method not found: x/y");
}

#[test]
fn tool_list_names() {
    match tools_definition() {
        Json::Array(items) => {
            let names: Vec<&str> = items.iter().map(|t| as_text(get(t, "name"))).collect();
            assert_eq!(
                names,
                vec!["box_whoami", "box_search", "box_list_folder", "box_create_shared_link", "photos_process", "job_status"]
            );
        }
        _ => panic!("not a list"),
    }
}

#[test]
fn client_requests() {
    let init = initialize_request("1.2.3");
    assert!(matches!(get(&init, "id"), Json::Number(JsonNumber::PosInt(0))));
    assert_eq!(as_text(get(&init, "method")), "initialize");
    assert_eq!(as_text(get(get(&init, "params"), "protocolVersion")), "2025-06-18");
    assert_eq!(as_text(get(get(get(&init, "params"), "clientInfo"), "version")), "1.2.3");
    let n = initialized_notification();
    assert_eq!(as_text(get(&n, "method")), "notifications/initialized");
    let call = rpc_request("tools/call", tool_call_params("t", object(vec![])));
    assert!(matches!(get(&call, "id"), Json::Number(JsonNumber::PosInt(1))));
    assert_eq!(as_text(get(get(&call, "params"), "name")), "t");
    assert!(arguments_are_blank("  \n"));
    assert!(!arguments_are_blank("{}"));
}

#[test]
fn client_settings() {
    assert_eq!(connection_token(&Some("  ".to_string())), None);
    assert_eq!(connection_token(&Some("tok".to_string())).as_deref(), Some("tok"));
    assert_eq!(connection_token(&None), None);
    assert_eq!(mcp_endpoint(&None).err().unwrap(), "MCP サーバーURLが設定されていません");
    assert_eq!(mcp_endpoint(&Some("http://x".to_string())).unwrap(), "http://x");
}

#[test]
fn event_stream_bodies() {
    let sse = "event: message\r\ndata: {\"a\":1}\r\n\r\ndata:   \ndata: {\"b\":2}  \n";
    assert_eq!(parse_mcp_body("text/event-stream; charset=utf-8", sse), "{\"b\":2}");
    assert_eq!(parse_mcp_body("application/json", sse), sse);
    assert_eq!(parse_mcp_body("text/event-stream", "no data here"), "no data here");
    assert_eq!(parse_mcp_body("text/event-stream", "data: x\r"), "x");
}

#[test]
fn tool_texts() {
    let result = SearchResult {
        reply: "r".to_string(),
        offset: 0,
        display_end: 3,
        next_offset: 100,
        total_count: 3,
        has_more: false,
    };
    assert_eq!(search_tool_text(&result), "r\n\n1-3/3 件");
    assert_eq!(list_folder_line("12"), "folder 12");
    let q = queued_job("abc");
    assert_eq!(as_text(get(&q, "jobId")), "abc");
    assert_eq!(as_text(get(&q, "status")), "queued");
}
