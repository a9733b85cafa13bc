//! The MCP endpoint (JSON-RPC 2.0 over HTTP): what a request asks for, what a tool call
//! needs from its arguments, and the JSON of the answers. The work each tool does is the
//! caller's; so are the HTTP status of a notification (202) and the serialization.
use vstd::prelude::*;
use crate::box_api::SearchResult;
use crate::json::{self, push_member, take_member, Json, JsonNumber};
use crate::text::{self, from_chars, push_decimal, push_str, to_chars};

verus! {

/// The MCP protocol version this server and client speak.
pub open spec fn protocol_version() -> Seq<char> {
    "2025-06-18"@
}

pub fn mcp_protocol_version() -> (r: String)
    ensures
        r@ == protocol_version(),
{
    "2025-06-18".to_string()
}

/// What a JSON-RPC request asks for.
pub enum McpRequest {
    /// A notification (no `id`): accepted, with no answer.
    Notification,
    Initialize { id: Json },
    Ping { id: Json },
    ToolsList { id: Json },
    /// `tools/call`; absent arguments count as an empty object.
    ToolsCall { id: Json, name: String, arguments: Option<Json> },
    /// Any other method, answered with error -32601.
    Unknown { id: Json, method: String },
}

pub enum RequestPlan {
    Notification,
    Initialize(Json),
    Ping(Json),
    ToolsList(Json),
    ToolsCall(Json, Seq<char>, Option<Json>),
    Unknown(Json, Seq<char>),
}

impl View for McpRequest {
    type V = RequestPlan;

    open spec fn view(&self) -> RequestPlan {
        match self {
            McpRequest::Notification => RequestPlan::Notification,
            McpRequest::Initialize { id } => RequestPlan::Initialize(*id),
            McpRequest::Ping { id } => RequestPlan::Ping(*id),
            McpRequest::ToolsList { id } => RequestPlan::ToolsList(*id),
            McpRequest::ToolsCall { id, name, arguments } => RequestPlan::ToolsCall(
                *id,
                name@,
                *arguments,
            ),
            McpRequest::Unknown { id, method } => RequestPlan::Unknown(*id, method@),
        }
    }
}

pub open spec fn text_or_empty(o: Option<Seq<char>>) -> Seq<char> {
    match o {
        Some(t) => t,
        None => seq![],
    }
}

/// What the request `body` asks for.
pub open spec fn request_plan(body: Json) -> RequestPlan {
    match body.get_spec("id"@) {
        None => RequestPlan::Notification,
        Some(id) => {
            let method = text_or_empty(body.str_field("method"@));
            if method == "initialize"@ {
                RequestPlan::Initialize(id)
            } else if method == "ping"@ {
                RequestPlan::Ping(id)
            } else if method == "tools/list"@ {
                RequestPlan::ToolsList(id)
            } else if method == "tools/call"@ {
                match body.get_spec("params"@) {
                    Some(p) => RequestPlan::ToolsCall(
                        id,
                        text_or_empty(p.str_field("name"@)),
                        p.get_spec("arguments"@),
                    ),
                    None => RequestPlan::ToolsCall(id, seq![], None),
                }
            } else {
                RequestPlan::Unknown(id, method)
            }
        },
    }
}

fn str_member(j: &Json, key: &str) -> (r: String)
    ensures
        r@ == text_or_empty(j.str_field(key@)),
{
    match j.field(key) {
        Some(v) => match v.as_str() {
            Some(s) => s.clone(),
            None => String::new(),
        },
        None => String::new(),
    }
}

/// `handle`: what the request `body` asks for.
pub fn classify_request(body: Json) -> (r: McpRequest)
    ensures
        r@ == request_plan(body),
{
    let method = str_member(&body, "method");
    match body {
        Json::Object(members) => {
            let mut members = members;
            let ghost m0 = members@;
            let id = take_member(&mut members, "id");
            match id {
                None => McpRequest::Notification,
                Some(id) => {
                    if text::equal_text(method.as_str(), "initialize") {
                        McpRequest::Initialize { id }
                    } else if text::equal_text(method.as_str(), "ping") {
                        McpRequest::Ping { id }
                    } else if text::equal_text(method.as_str(), "tools/list") {
                        McpRequest::ToolsList { id }
                    } else if text::equal_text(method.as_str(), "tools/call") {
                        proof {
                            reveal_strlit("params");
                            assert("params"@.len() == 6);
                            reveal_strlit("id");
                            assert("id"@.len() == 2);
                            assert("params"@ != "id"@);
                            assert(json::member(members@, "params"@) == json::member(m0, "params"@));
                        }
                        let params = take_member(&mut members, "params");
                        match params {
                            Some(p) => {
                                let name = str_member(&p, "name");
                                let arguments = match p {
                                    Json::Object(pm) => {
                                        let mut pm = pm;
                                        take_member(&mut pm, "arguments")
                                    },
                                    _ => None,
                                };
                                McpRequest::ToolsCall { id, name, arguments }
                            },
                            None => McpRequest::ToolsCall { id, name: String::new(), arguments: None },
                        }
                    } else {
                        McpRequest::Unknown { id, method }
                    }
                },
            }
        },
        _ => McpRequest::Notification,
    }
}

/// The answer `{"jsonrpc": "2.0", "id": id, "result": result}`.
pub open spec fn is_rpc_result(r: Json, id: Json, result: Json) -> bool {
    &&& json::member_count(r) == 3
    &&& r.str_field("jsonrpc"@) == Some("2.0"@)
    &&& r.get_spec("id"@) == Some(id)
    &&& r.get_spec("result"@) == Some(result)
}

/// `rpc_result`: a successful JSON-RPC answer.
pub fn rpc_result(id: Json, result: Json) -> (r: Json)
    ensures
        is_rpc_result(r, id, result),
{
    proof {
        reveal_strlit("jsonrpc");
        assert("jsonrpc"@.len() == 7);
        reveal_strlit("id");
        assert("id"@.len() == 2);
        reveal_strlit("result");
        assert("result"@.len() == 6);
    }
    let mut m: Vec<(String, Json)> = Vec::new();
    push_member(&mut m, "jsonrpc", Json::text("2.0"));
    push_member(&mut m, "id", id);
    push_member(&mut m, "result", result);
    let r = Json::Object(m);
    assert(r.str_field("jsonrpc"@) == Some("2.0"@));
    r
}

/// The error `{"code": code, "message": message}` of an answer.
/// An integer as a JSON number: a negative one as `NegInt`, any other as `PosInt`, as
/// `serde_json` holds them.
pub open spec fn integer_number(n: i64) -> JsonNumber {
    if n < 0 {
        JsonNumber::NegInt(n)
    } else {
        JsonNumber::PosInt(n as u64)
    }
}

pub open spec fn is_rpc_error_body(e: Json, code: i64, message: Seq<char>) -> bool {
    &&& json::member_count(e) == 2
    &&& e.get_spec("code"@) == Some(Json::Number(integer_number(code)))
    &&& e.str_field("message"@) == Some(message)
}

/// `rpc_error`: a JSON-RPC error answer.
pub fn rpc_error(id: Json, code: i64, message: &str) -> (r: Json)
    ensures
        json::member_count(r) == 3,
        r.str_field("jsonrpc"@) == Some("2.0"@),
        r.get_spec("id"@) == Some(id),
        r.get_spec("error"@) matches Some(e) && is_rpc_error_body(e, code, message@),
{
    proof {
        reveal_strlit("jsonrpc");
        assert("jsonrpc"@.len() == 7);
        reveal_strlit("id");
        assert("id"@.len() == 2);
        reveal_strlit("error");
        assert("error"@.len() == 5);
        reveal_strlit("code");
        assert("code"@.len() == 4);
        reveal_strlit("message");
        assert("message"@.len() == 7);
    }
    let mut e: Vec<(String, Json)> = Vec::new();
    let number = if code < 0 {
        JsonNumber::NegInt(code)
    } else {
        JsonNumber::PosInt(code as u64)
    };
    push_member(&mut e, "code", Json::Number(number));
    push_member(&mut e, "message", Json::text(message));
    let err = Json::Object(e);
    assert(err.str_field("message"@) == Some(message@));
    let mut m: Vec<(String, Json)> = Vec::new();
    push_member(&mut m, "jsonrpc", Json::text("2.0"));
    push_member(&mut m, "id", id);
    push_member(&mut m, "error", err);
    let r = Json::Object(m);
    assert(r.str_field("jsonrpc"@) == Some("2.0"@));
    r
}

/// The answer to an unknown method.
pub fn method_not_found(id: Json, method: &str) -> (r: Json)
    ensures
        json::member_count(r) == 3,
        r.str_field("jsonrpc"@) == Some("2.0"@),
        r.get_spec("id"@) == Some(id),
        r.get_spec("error"@) matches Some(e) && is_rpc_error_body(
            e,
            -32601i64,
            "Method not found: "@ + method@,
        ),
{
    let mut v: Vec<char> = Vec::new();
    push_str(&mut v, "Method not found: ");
    push_str(&mut v, method);
    let message = from_chars(v.as_slice());
    rpc_error(id, -32601, message.as_str())
}

/// The result of a tool call: `{"content": [{"type": "text", "text": text}], "isError": ..}`.
pub open spec fn is_tool_result(t: Json, text: Seq<char>, is_error: bool) -> bool {
    &&& json::member_count(t) == 2
    &&& t.get_spec("isError"@) == Some(Json::Bool(is_error))
    &&& t.get_spec("content"@) matches Some(Json::Array(items)) && items@.len() == 1 && {
        let item = items@[0];
        &&& json::member_count(item) == 2
        &&& item.str_field("type"@) == Some("text"@)
        &&& item.str_field("text"@) == Some(text)
    }
}

/// `tool_text`: the answer to a tool call, with its text.
pub fn tool_text(id: Json, text: &str, is_error: bool) -> (r: Json)
    ensures
        json::member_count(r) == 3,
        r.str_field("jsonrpc"@) == Some("2.0"@),
        r.get_spec("id"@) == Some(id),
        r.get_spec("result"@) matches Some(t) && is_tool_result(t, text@, is_error),
{
    proof {
        reveal_strlit("type");
        assert("type"@.len() == 4);
        reveal_strlit("text");
        assert("text"@.len() == 4);
        assert("text"@[1] == 'e' && "type"@[1] == 'y');
        reveal_strlit("content");
        assert("content"@.len() == 7);
        reveal_strlit("isError");
        assert("isError"@.len() == 7);
        assert("content"@[0] == 'c' && "isError"@[0] == 'i');
    }
    let mut item: Vec<(String, Json)> = Vec::new();
    push_member(&mut item, "type", Json::text("text"));
    push_member(&mut item, "text", Json::text(text));
    let item = Json::Object(item);
    assert(item.str_field("type"@) == Some("text"@));
    assert(item.str_field("text"@) == Some(text@));
    let mut content: Vec<Json> = Vec::new();
    content.push(item);
    let mut m: Vec<(String, Json)> = Vec::new();
    push_member(&mut m, "content", Json::Array(content));
    push_member(&mut m, "isError", Json::Bool(is_error));
    let t = Json::Object(m);
    assert(t.get_spec("isError"@) == Some(Json::Bool(is_error)));
    assert(is_tool_result(t, text@, is_error));
    rpc_result(id, t)
}

/// The result of `initialize`: protocol version, tool capability and server name.
pub fn initialize_result(version: &str) -> (r: Json)
    ensures
        json::member_count(r) == 3,
        r.str_field("protocolVersion"@) == Some(protocol_version()),
        r.get_spec("capabilities"@) matches Some(c) && c.get_spec("tools"@) matches Some(t)
            && json::member_count(t) == 0 && t is Object,
        r.get_spec("serverInfo"@) matches Some(s) && s.str_field("name"@) == Some("kasugai_box"@)
            && s.str_field("version"@) == Some(version@),
{
    proof {
        reveal_strlit("protocolVersion");
        assert("protocolVersion"@.len() == 15);
        reveal_strlit("capabilities");
        assert("capabilities"@.len() == 12);
        reveal_strlit("serverInfo");
        assert("serverInfo"@.len() == 10);
        reveal_strlit("tools");
        assert("tools"@.len() == 5);
        reveal_strlit("name");
        assert("name"@.len() == 4);
        reveal_strlit("version");
        assert("version"@.len() == 7);
    }
    let mut caps: Vec<(String, Json)> = Vec::new();
    push_member(&mut caps, "tools", Json::Object(Vec::new()));
    let mut info: Vec<(String, Json)> = Vec::new();
    push_member(&mut info, "name", Json::text("kasugai_box"));
    push_member(&mut info, "version", Json::text(version));
    let info = Json::Object(info);
    assert(info.str_field("name"@) == Some("kasugai_box"@));
    let mut m: Vec<(String, Json)> = Vec::new();
    push_member(&mut m, "protocolVersion", Json::text("2025-06-18"));
    push_member(&mut m, "capabilities", Json::Object(caps));
    push_member(&mut m, "serverInfo", info);
    let r = Json::Object(m);
    assert(r.str_field("protocolVersion"@) == Some(protocol_version()));
    r
}

/// An empty object, the result of `ping`.
pub fn empty_object() -> (r: Json)
    ensures
        r is Object,
        json::member_count(r) == 0,
{
    Json::Object(Vec::new())
}

/// A tool call, with what it needs from its arguments.
pub enum ToolCall {
    WhoAmI,
    Search { query: String, limit: usize, offset: usize },
    /// Answered as the chat answers `folder <id>`.
    ListFolder { folder_id: String },
    CreateSharedLink { item_type: String, id: String },
    PhotosProcess { folder_url: String, output_dir: String },
    JobStatus { job_id: String },
}

pub enum ToolPlan {
    WhoAmI,
    Search(Seq<char>, usize, usize),
    ListFolder(Seq<char>),
    CreateSharedLink(Seq<char>, Seq<char>),
    PhotosProcess(Seq<char>, Seq<char>),
    JobStatus(Seq<char>),
}

impl View for ToolCall {
    type V = ToolPlan;

    open spec fn view(&self) -> ToolPlan {
        match self {
            ToolCall::WhoAmI => ToolPlan::WhoAmI,
            ToolCall::Search { query, limit, offset } => ToolPlan::Search(query@, *limit, *offset),
            ToolCall::ListFolder { folder_id } => ToolPlan::ListFolder(folder_id@),
            ToolCall::CreateSharedLink { item_type, id } => ToolPlan::CreateSharedLink(
                item_type@,
                id@,
            ),
            ToolCall::PhotosProcess { folder_url, output_dir } => ToolPlan::PhotosProcess(
                folder_url@,
                output_dir@,
            ),
            ToolCall::JobStatus { job_id } => ToolPlan::JobStatus(job_id@),
        }
    }
}

/// The text of the argument `key`, where it is a string.
pub open spec fn arg_str(args: Option<Json>, key: Seq<char>) -> Option<Seq<char>> {
    match args {
        Some(a) => a.str_field(key),
        None => None,
    }
}

/// The argument `key`, where it is a non-negative integer.
pub open spec fn arg_u64(args: Option<Json>, key: Seq<char>) -> Option<u64> {
    match args {
        Some(a) => a.u64_field(key),
        None => None,
    }
}

/// The default output folder of the photo job.
pub open spec fn default_output_dir() -> Seq<char> {
    "c:/kasugai/box/photo"@
}

/// The page size of the search tool: `limit` (100 where absent) clamped to 1..=200.
pub open spec fn tool_limit(args: Option<Json>) -> usize {
    let n = match arg_u64(args, "limit"@) {
        Some(n) => n,
        None => 100,
    };
    if n < 1 {
        1
    } else if n > 200 {
        200
    } else {
        n as usize
    }
}

/// The offset of the search tool: `offset`, 0 where absent.
pub open spec fn tool_offset(args: Option<Json>) -> usize {
    match arg_u64(args, "offset"@) {
        Some(n) => n as usize,
        None => 0,
    }
}

/// What a call of the tool `name` with `args` does, or the error it is answered with.
pub open spec fn tool_plan(name: Seq<char>, args: Option<Json>) -> Result<ToolPlan, Seq<char>> {
    if name == "box_whoami"@ {
        Ok(ToolPlan::WhoAmI)
    } else if name == "box_search"@ {
        match arg_str(args, "query"@) {
            Some(q) => Ok(ToolPlan::Search(q, tool_limit(args), tool_offset(args))),
            None => Err("query は必須です"@),
        }
    } else if name == "box_list_folder"@ {
        Ok(
            ToolPlan::ListFolder(
                match arg_str(args, "folder_id"@) {
                    Some(f) => f,
                    None => "0"@,
                },
            ),
        )
    } else if name == "box_create_shared_link"@ {
        match arg_str(args, "item_type"@) {
            None => Err("item_type は必須です"@),
            Some(t) => match arg_str(args, "id"@) {
                None => Err("id は必須です"@),
                Some(id) => if t != "file"@ && t != "folder"@ {
                    Err("item_type には file または folder を指定してください"@)
                } else {
                    Ok(ToolPlan::CreateSharedLink(t, id))
                },
            },
        }
    } else if name == "photos_process"@ {
        match arg_str(args, "folder_url"@) {
            None => Err("folder_url は必須です"@),
            Some(f) => Ok(
                ToolPlan::PhotosProcess(
                    f,
                    match arg_str(args, "output_dir"@) {
                        Some(o) => o,
                        None => default_output_dir(),
                    },
                ),
            ),
        }
    } else if name == "job_status"@ {
        match arg_str(args, "job_id"@) {
            Some(j) => Ok(ToolPlan::JobStatus(j)),
            None => Err("job_id は必須です"@),
        }
    } else {
        Err("未知のツールです: "@ + name)
    }
}

fn arg_text(args: &Option<Json>, key: &str) -> (r: Option<String>)
    ensures
        match r {
            Some(t) => arg_str(*args, key@) == Some(t@),
            None => arg_str(*args, key@) is None,
        },
{
    match args {
        Some(a) => match a.field(key) {
            Some(v) => match v.as_str() {
                Some(t) => Some(t.clone()),
                None => None,
            },
            None => None,
        },
        None => None,
    }
}

fn arg_number(args: &Option<Json>, key: &str) -> (r: Option<u64>)
    ensures
        r == arg_u64(*args, key@),
{
    match args {
        Some(a) => match a.field(key) {
            Some(v) => v.as_u64(),
            None => None,
        },
        None => None,
    }
}

/// `call_tool` before the work: what the call asks for, or its error text.
pub fn plan_tool_call(name: &str, args: &Option<Json>) -> (r: Result<ToolCall, String>)
    ensures
        match r {
            Ok(c) => tool_plan(name@, *args) == Ok::<ToolPlan, Seq<char>>(c@),
            Err(e) => tool_plan(name@, *args) == Err::<ToolPlan, Seq<char>>(e@),
        },
{
    if text::equal_text(name, "box_whoami") {
        Ok(ToolCall::WhoAmI)
    } else if text::equal_text(name, "box_search") {
        match arg_text(args, "query") {
            Some(query) => {
                let n = match arg_number(args, "limit") {
                    Some(n) => n,
                    None => 100,
                };
                let limit: usize = if n < 1 {
                    1
                } else if n > 200 {
                    200
                } else {
                    n as usize
                };
                let offset: usize = match arg_number(args, "offset") {
                    Some(o) => o as usize,
                    None => 0,
                };
                Ok(ToolCall::Search { query, limit, offset })
            },
            None => Err("query は必須です".to_string()),
        }
    } else if text::equal_text(name, "box_list_folder") {
        let folder_id = match arg_text(args, "folder_id") {
            Some(f) => f,
            None => "0".to_string(),
        };
        Ok(ToolCall::ListFolder { folder_id })
    } else if text::equal_text(name, "box_create_shared_link") {
        match arg_text(args, "item_type") {
            None => Err("item_type は必須です".to_string()),
            Some(item_type) => match arg_text(args, "id") {
                None => Err("id は必須です".to_string()),
                Some(id) => {
                    if !text::equal_text(item_type.as_str(), "file") && !text::equal_text(
                        item_type.as_str(),
                        "folder",
                    ) {
                        Err("item_type には file または folder を指定してください".to_string())
                    } else {
                        Ok(ToolCall::CreateSharedLink { item_type, id })
                    }
                },
            },
        }
    } else if text::equal_text(name, "photos_process") {
        match arg_text(args, "folder_url") {
            None => Err("folder_url は必須です".to_string()),
            Some(folder_url) => {
                let output_dir = match arg_text(args, "output_dir") {
                    Some(o) => o,
                    None => "c:/kasugai/box/photo".to_string(),
                };
                Ok(ToolCall::PhotosProcess { folder_url, output_dir })
            },
        }
    } else if text::equal_text(name, "job_status") {
        match arg_text(args, "job_id") {
            Some(job_id) => Ok(ToolCall::JobStatus { job_id }),
            None => Err("job_id は必須です".to_string()),
        }
    } else {
        let mut v: Vec<char> = Vec::new();
        push_str(&mut v, "未知のツールです: ");
        push_str(&mut v, name);
        Err(from_chars(v.as_slice()))
    }
}

/// The text the search tool answers with: the results, then which of how many.
pub open spec fn search_tool_text_spec(result: SearchResult) -> Seq<char> {
    result.reply@ + "\n\n"@ + text::decimal((result.offset + 1) as nat) + "-"@ + text::decimal(
        result.display_end as nat,
    ) + "/"@ + text::decimal(result.total_count as nat) + " 件"@
}

/// `call_tool` after a search.
pub fn search_tool_text(result: &SearchResult) -> (r: String)
    requires
        result.offset < usize::MAX,
    ensures
        r@ == search_tool_text_spec(*result),
{
    let mut v: Vec<char> = Vec::new();
    push_str(&mut v, result.reply.as_str());
    push_str(&mut v, "\n\n");
    push_decimal(&mut v, (result.offset + 1) as u64);
    push_str(&mut v, "-");
    push_decimal(&mut v, result.display_end as u64);
    push_str(&mut v, "/");
    push_decimal(&mut v, result.total_count as u64);
    push_str(&mut v, " 件");
    assert(v@ =~= search_tool_text_spec(*result));
    from_chars(v.as_slice())
}

/// The chat line that the folder tool is answered with.
pub fn list_folder_line(folder_id: &str) -> (r: String)
    ensures
        r@ == "folder "@ + folder_id@,
{
    let mut v: Vec<char> = Vec::new();
    push_str(&mut v, "folder ");
    push_str(&mut v, folder_id);
    from_chars(v.as_slice())
}

/// `{"jobId": job_id, "status": "queued"}`, the answer of the photo tool and endpoint.
pub fn queued_job(job_id: &str) -> (r: Json)
    ensures
        json::member_count(r) == 2,
        r.str_field("jobId"@) == Some(job_id@),
        r.str_field("status"@) == Some("queued"@),
{
    proof {
        reveal_strlit("jobId");
        assert("jobId"@.len() == 5);
        reveal_strlit("status");
        assert("status"@.len() == 6);
    }
    let mut m: Vec<(String, Json)> = Vec::new();
    push_member(&mut m, "jobId", Json::text(job_id));
    push_member(&mut m, "status", Json::text("queued"));
    let r = Json::Object(m);
    assert(r.str_field("jobId"@) == Some(job_id@));
    assert(r.str_field("status"@) == Some("queued"@));
    r
}

/// The names of the members of an object, in their order.
pub open spec fn member_names(members: Seq<(String, Json)>) -> Seq<Seq<char>> {
    members.map_values(|m: (String, Json)| m.0@)
}

/// `j` is an array of exactly these strings.
pub open spec fn is_string_list(j: Json, items: Seq<Seq<char>>) -> bool {
    match j {
        Json::Array(v) => v@.len() == items.len() && forall|i: int|
            0 <= i < items.len() ==> #[trigger] v@[i].str_spec() == Some(items[i]),
        _ => false,
    }
}

/// An argument of a tool: its name, its JSON type, what it is (where the schema says),
/// and the values it may take (where the schema lists them).
pub struct ArgumentModel {
    pub name: Seq<char>,
    pub value_type: Seq<char>,
    pub description: Option<Seq<char>>,
    pub choices: Option<Seq<Seq<char>>>,
}

pub open spec fn argument(
    name: Seq<char>,
    value_type: Seq<char>,
    description: Option<Seq<char>>,
    choices: Option<Seq<Seq<char>>>,
) -> ArgumentModel {
    ArgumentModel { name, value_type, description, choices }
}

/// The schema of one argument: `{"type": .., "description": .., "enum": [..]}`, with the
/// description and the list of values only where the argument has them.
pub open spec fn is_property(j: Json, a: ArgumentModel) -> bool {
    &&& j.str_field("type"@) == Some(a.value_type)
    &&& match a.description {
        Some(d) => j.str_field("description"@) == Some(d),
        None => j.get_spec("description"@) is None,
    }
    &&& match a.choices {
        Some(c) => match j.get_spec("enum"@) {
            Some(e) => is_string_list(e, c),
            None => false,
        },
        None => j.get_spec("enum"@) is None,
    }
    &&& json::member_count(j) == 1 + (if a.description is Some {
        1int
    } else {
        0int
    }) + (if a.choices is Some {
        1int
    } else {
        0int
    })
}

/// An input schema: an object of `type` `object` whose properties are the arguments, in
/// this order, each described by `is_property`; which lists under `required` the arguments
/// a call must give (no such member where none must be given); and which says
/// `additionalProperties` only where `closed` gives its value.
pub open spec fn is_input_schema(
    schema: Json,
    arguments: Seq<ArgumentModel>,
    required: Seq<Seq<char>>,
    closed: Option<bool>,
) -> bool {
    &&& schema.str_field("type"@) == Some("object"@)
    &&& match schema.get_spec("properties"@) {
        Some(Json::Object(p)) => member_names(p@) == arguments.map_values(
            |a: ArgumentModel| a.name,
        ) && forall|k: int| 0 <= k < p@.len() ==> is_property(#[trigger] p@[k].1, arguments[k]),
        _ => false,
    }
    &&& match closed {
        Some(b) => schema.get_spec("additionalProperties"@) == Some(Json::Bool(b)),
        None => schema.get_spec("additionalProperties"@) is None,
    }
    &&& if required.len() == 0 {
        schema.get_spec("required"@) is None
    } else {
        match schema.get_spec("required"@) {
            Some(j) => is_string_list(j, required),
            None => false,
        }
    }
}

/// A property of a tool's input schema: `{"type": value_type, "description": description}`.
fn property(value_type: &str, description: &str) -> (r: Json)
    ensures
        is_property(r, argument(seq![], value_type@, Some(description@), None)),
{
    proof {
        reveal_strlit("type");
        assert("type"@.len() == 4);
        reveal_strlit("enum");
        assert("enum"@.len() == 4);
        assert("type"@[0] != "enum"@[0]);
        reveal_strlit("description");
        assert("description"@.len() == 11);
    }
    let mut m: Vec<(String, Json)> = Vec::new();
    push_member(&mut m, "type", Json::text(value_type));
    push_member(&mut m, "description", Json::text(description));
    Json::Object(m)
}

/// An array of strings.
fn string_list(items: &[&str]) -> (r: Json)
    ensures
        is_string_list(r, items@.map_values(|t: &str| t@)),
{
    let mut v: Vec<Json> = Vec::new();
    let mut i: usize = 0;
    while i < items.len()
        invariant
            i <= items@.len(),
            v@.len() == i,
            forall|k: int| 0 <= k < i ==> #[trigger] v@[k].str_spec() == Some(items@[k]@),
        decreases items.len() - i,
    {
        v.push(Json::text(items[i]));
        i = i + 1;
    }
    Json::Array(v)
}

/// An object input schema with these properties (and nothing required yet).
fn object_schema(properties: Vec<(String, Json)>) -> (r: Vec<(String, Json)>)
    ensures
        Json::Object(r).str_field("type"@) == Some("object"@),
        json::member(r@, "properties"@) == Some(Json::Object(properties)),
        json::member(r@, "required"@) is None,
        json::member(r@, "additionalProperties"@) is None,
{
    proof {
        reveal_strlit("additionalProperties");
        assert("additionalProperties"@.len() == 20);
        reveal_strlit("type");
        assert("type"@.len() == 4);
        reveal_strlit("properties");
        assert("properties"@.len() == 10);
        reveal_strlit("required");
        assert("required"@.len() == 8);
    }
    let mut m: Vec<(String, Json)> = Vec::new();
    push_member(&mut m, "type", Json::text("object"));
    push_member(&mut m, "properties", Json::Object(properties));
    m
}

/// A tool: `{"name": name, "description": description, "inputSchema": schema}`.
fn tool(name: &str, description: &str, schema: Vec<(String, Json)>) -> (r: Json)
    ensures
        json::member_count(r) == 3,
        r.str_field("name"@) == Some(name@),
        r.str_field("description"@) == Some(description@),
        r.get_spec("inputSchema"@) == Some(Json::Object(schema)),
{
    proof {
        reveal_strlit("name");
        assert("name"@.len() == 4);
        reveal_strlit("description");
        assert("description"@.len() == 11);
        reveal_strlit("inputSchema");
        assert("inputSchema"@.len() == 11);
        assert("inputSchema"@[0] != "description"@[0]);
    }
    let mut m: Vec<(String, Json)> = Vec::new();
    push_member(&mut m, "name", Json::text(name));
    push_member(&mut m, "description", Json::text(description));
    push_member(&mut m, "inputSchema", Json::Object(schema));
    Json::Object(m)
}

/// The names of the tools this server offers, in the order it lists them.
pub open spec fn tool_names() -> Seq<Seq<char>> {
    seq![
        "box_whoami"@,
        "box_search"@,
        "box_list_folder"@,
        "box_create_shared_link"@,
        "photos_process"@,
        "job_status"@,
    ]
}

/// What each tool says it does, in the same order.
pub open spec fn tool_descriptions() -> Seq<Seq<char>> {
    seq![
        "Box にログイン中のユーザー情報を取得します。"@,
        "Box 標準検索（ファイル名・メタデータ・文書内テキスト）を実行し、パスとリンクの一覧を返します。"@,
        "Box フォルダ内のアイテムを一覧します。folder_id 省略時はルート（0）。"@,
        "Box のファイルまたはフォルダの共有リンクを作成します。"@,
        "Box フォルダ内の画像の EXIF から緯度経度・撮影日を抽出し CSV/GeoJSON を出力するジョブを開始します。job_status で進捗を確認してください。"@,
        "photos_process などの長時間ジョブの進捗・結果を取得します。"@,
    ]
}

/// The arguments of each tool, with their types, in the same order.
pub open spec fn tool_arguments() -> Seq<Seq<ArgumentModel>> {
    seq![
        seq![],
        seq![
            argument("query"@, "string"@, Some("検索語"@), None),
            argument("limit"@, "integer"@, Some("取得件数（1〜200、既定 100）"@), None),
            argument("offset"@, "integer"@, Some("取得開始位置（既定 0）"@), None),
        ],
        seq![argument("folder_id"@, "string"@, Some("Box フォルダ ID（既定 0）"@), None)],
        seq![
            argument("item_type"@, "string"@, None, Some(seq!["file"@, "folder"@])),
            argument("id"@, "string"@, Some("ファイルまたはフォルダの ID"@), None),
        ],
        seq![
            argument("folder_url"@, "string"@, Some("Box フォルダ URL または ID"@), None),
            argument("output_dir"@, "string"@, Some("出力フォルダ（既定 c:/kasugai/box/photo）"@), None),
        ],
        seq![argument("job_id"@, "string"@, None, None)],
    ]
}

/// Whether each tool's schema says `additionalProperties`, and its value: only the tool
/// without arguments closes its schema.
pub open spec fn tool_closed() -> Seq<Option<bool>> {
    seq![Some(false), None, None, None, None, None]
}

/// The arguments each tool requires, in the same order.
pub open spec fn tool_required() -> Seq<Seq<Seq<char>>> {
    seq![
        seq![],
        seq!["query"@],
        seq![],
        seq!["item_type"@, "id"@],
        seq!["folder_url"@],
        seq!["job_id"@],
    ]
}

/// Tool `i` of the list, as `tools_definition` describes it.
pub open spec fn is_tool(t: Json, i: int) -> bool {
    &&& json::member_count(t) == 3
    &&& t.str_field("name"@) == Some(tool_names()[i])
    &&& t.str_field("description"@) == Some(tool_descriptions()[i])
    &&& match t.get_spec("inputSchema"@) {
        Some(schema) => is_input_schema(
            schema,
            tool_arguments()[i],
            tool_required()[i],
            tool_closed()[i],
        ),
        None => false,
    }
}

/// `tools_definition`: the tools of `tools/list`, each with its name, description and
/// input schema.
pub fn tools_definition() -> (r: Json)
    ensures
        r matches Json::Array(items) && items@.len() == 6 && forall|i: int|
            0 <= i < 6 ==> is_tool(#[trigger] items@[i], i),
{
    proof {
        reveal_strlit("required");
        assert("required"@.len() == 8);
        reveal_strlit("additionalProperties");
        assert("additionalProperties"@.len() == 20);
    }
    let mut tools: Vec<Json> = Vec::new();

    let p: Vec<(String, Json)> = Vec::new();
    let mut s = object_schema(p);
    push_member(&mut s, "additionalProperties", Json::Bool(false));
    tools.push(tool("box_whoami", "Box にログイン中のユーザー情報を取得します。", s));
    proof {
        assert(member_names(p@) =~= tool_arguments()[0].map_values(|a: ArgumentModel| a.name));
        assert(is_tool(tools@[0], 0));
    }

    let mut p: Vec<(String, Json)> = Vec::new();
    push_member(&mut p, "query", property("string", "検索語"));
    push_member(&mut p, "limit", property("integer", "取得件数（1〜200、既定 100）"));
    push_member(&mut p, "offset", property("integer", "取得開始位置（既定 0）"));
    let ghost pv = p@;
    proof {
        assert(member_names(pv) =~= tool_arguments()[1].map_values(|a: ArgumentModel| a.name));
        assert(is_property(pv[0].1, tool_arguments()[1][0]));
        assert(is_property(pv[1].1, tool_arguments()[1][1]));
        assert(is_property(pv[2].1, tool_arguments()[1][2]));
    }
    let mut s = object_schema(p);
    let l = string_list(&["query"]);
    proof {
        assert(is_string_list(l, tool_required()[1]));
    }
    push_member(&mut s, "required", l);
    proof {
        assert(is_input_schema(Json::Object(s), tool_arguments()[1], tool_required()[1], tool_closed()[1]));
    }
    tools.push(
        tool(
            "box_search",
            "Box 標準検索（ファイル名・メタデータ・文書内テキスト）を実行し、パスとリンクの一覧を返します。",
            s,
        ),
    );
    proof {
        assert(is_tool(tools@[1], 1));
    }

    let mut p: Vec<(String, Json)> = Vec::new();
    push_member(&mut p, "folder_id", property("string", "Box フォルダ ID（既定 0）"));
    let ghost pv = p@;
    proof {
        assert(member_names(pv) =~= tool_arguments()[2].map_values(|a: ArgumentModel| a.name));
        assert(is_property(pv[0].1, tool_arguments()[2][0]));
    }
    let s = object_schema(p);
    tools.push(
        tool(
            "box_list_folder",
            "Box フォルダ内のアイテムを一覧します。folder_id 省略時はルート（0）。",
            s,
        ),
    );

    let mut item_type: Vec<(String, Json)> = Vec::new();
    push_member(&mut item_type, "type", Json::text("string"));
    let choices = string_list(&["file", "folder"]);
    proof {
        reveal_strlit("description");
        assert("description"@.len() == 11);
        assert(is_string_list(choices, seq!["file"@, "folder"@]));
    }
    push_member(&mut item_type, "enum", choices);
    let mut p: Vec<(String, Json)> = Vec::new();
    push_member(&mut p, "item_type", Json::Object(item_type));
    push_member(&mut p, "id", property("string", "ファイルまたはフォルダの ID"));
    let ghost pv = p@;
    proof {
        reveal_strlit("type");
        assert("type"@.len() == 4);
        reveal_strlit("enum");
        assert("enum"@.len() == 4);
        assert("type"@[0] != "enum"@[0]);
        assert(member_names(pv) =~= tool_arguments()[3].map_values(|a: ArgumentModel| a.name));
        assert(is_property(pv[0].1, tool_arguments()[3][0]));
        assert(is_property(pv[1].1, tool_arguments()[3][1]));
    }
    let mut s = object_schema(p);
    let l = string_list(&["item_type", "id"]);
    proof {
        assert(is_string_list(l, tool_required()[3]));
    }
    push_member(&mut s, "required", l);
    tools.push(
        tool("box_create_shared_link", "Box のファイルまたはフォルダの共有リンクを作成します。", s),
    );

    let mut p: Vec<(String, Json)> = Vec::new();
    push_member(&mut p, "folder_url", property("string", "Box フォルダ URL または ID"));
    push_member(&mut p, "output_dir", property("string", "出力フォルダ（既定 c:/kasugai/box/photo）"));
    let ghost pv = p@;
    proof {
        assert(member_names(pv) =~= tool_arguments()[4].map_values(|a: ArgumentModel| a.name));
        assert(is_property(pv[0].1, tool_arguments()[4][0]));
        assert(is_property(pv[1].1, tool_arguments()[4][1]));
    }
    let mut s = object_schema(p);
    let l = string_list(&["folder_url"]);
    proof {
        assert(is_string_list(l, tool_required()[4]));
    }
    push_member(&mut s, "required", l);
    tools.push(
        tool(
            "photos_process",
            "Box フォルダ内の画像の EXIF から緯度経度・撮影日を抽出し CSV/GeoJSON を出力するジョブを開始します。job_status で進捗を確認してください。",
            s,
        ),
    );

    let mut job: Vec<(String, Json)> = Vec::new();
    push_member(&mut job, "type", Json::text("string"));
    let mut p: Vec<(String, Json)> = Vec::new();
    push_member(&mut p, "job_id", Json::Object(job));
    let ghost pv = p@;
    proof {
        assert(member_names(pv) =~= tool_arguments()[5].map_values(|a: ArgumentModel| a.name));
        assert(is_property(pv[0].1, tool_arguments()[5][0]));
    }
    let mut s = object_schema(p);
    let l = string_list(&["job_id"]);
    proof {
        assert(is_string_list(l, tool_required()[5]));
    }
    push_member(&mut s, "required", l);
    tools.push(tool("job_status", "photos_process などの長時間ジョブの進捗・結果を取得します。", s));

    proof {
        assert(is_tool(tools@[2], 2));
        assert(is_tool(tools@[3], 3));
        assert(is_tool(tools@[4], 4));
        assert(is_tool(tools@[5], 5));
    }
    Json::Array(tools)
}

/// `data:`, the prefix of a data line of an event stream.
pub open spec fn data_prefix() -> Seq<char> {
    seq!['d', 'a', 't', 'a', ':']
}

/// The payload of the last data line of `ls` whose payload is not blank.
pub open spec fn last_data(ls: Seq<Seq<char>>) -> Option<Seq<char>>
    decreases ls.len(),
{
    if ls.len() == 0 {
        None
    } else {
        let l = ls.last();
        if text::starts_with(l, data_prefix()) && text::trim(l.skip(5)).len() > 0 {
            Some(text::trim(l.skip(5)))
        } else {
            last_data(ls.drop_last())
        }
    }
}

/// `s` contains `p`.
pub open spec fn contains(s: Seq<char>, p: Seq<char>) -> bool {
    exists|i: int| 0 <= i <= s.len() - p.len() && #[trigger] s.subrange(i, i + p.len()) == p
}

/// `parse_mcp_body`: for an event stream, the last non-blank data payload (else the whole
/// text); any other body as it is.
pub open spec fn mcp_body_spec(content_type: Seq<char>, body: Seq<char>) -> Seq<char> {
    if contains(content_type, "text/event-stream"@) {
        match last_data(text::lines(body)) {
            Some(d) => d,
            None => body,
        }
    } else {
        body
    }
}

fn contains_text(s: &str, p: &str) -> (r: bool)
    ensures
        r == contains(s@, p@),
{
    let c = to_chars(s);
    let q = to_chars(p);
    if q.len() > c.len() {
        return false;
    }
    let last = c.len() - q.len();
    let m = q.len();
    let n = c.len();
    let mut i: usize = 0;
    loop
        invariant
            m == q@.len(),
            n == c@.len(),
            q@.len() <= c@.len(),
            last == c@.len() - q@.len(),
            c@ == s@,
            q@ == p@,
            i <= last,
            forall|j: int| 0 <= j < i ==> #[trigger] c@.subrange(j, j + q@.len()) != q@,
        decreases last - i,
    {
        if text::equal_chars(&c.as_slice()[i..i + m], q.as_slice()) {
            assert(c@.subrange(i as int, i + q@.len()) == q@);
            return true;
        }
        if i == last {
            return false;
        }
        i = i + 1;
    }
}

/// `parse_mcp_body`: the JSON text of an MCP server's answer.
pub fn parse_mcp_body(content_type: &str, body: &str) -> (r: String)
    ensures
        r@ == mcp_body_spec(content_type@, body@),
{
    if !contains_text(content_type, "text/event-stream") {
        return body.to_string();
    }
    let c = to_chars(body);
    let ls = text::split_lines(&c);
    let ghost lv = ls@.map_values(|l: Vec<char>| l@);
    let prefix: [char; 5] = ['d', 'a', 't', 'a', ':'];
    assert(prefix@ =~= data_prefix());
    let mut k = ls.len();
    assert(lv.take(k as int) =~= lv);
    while k > 0
        invariant
            k <= ls@.len(),
            lv == ls@.map_values(|l: Vec<char>| l@),
            lv == text::lines(body@),
            prefix@ == data_prefix(),
            contains(content_type@, "text/event-stream"@),
            last_data(text::lines(body@)) == last_data(lv.take(k as int)),
        decreases k,
    {
        let l = &ls[k - 1];
        assert(lv.take(k as int).last() == l@);
        if text::has_prefix(l.as_slice(), prefix.as_slice()) {
            let (a, b) = text::trim_bounds(&l.as_slice()[5..l.len()]);
            assert(l@.subrange(5, l@.len() as int) =~= l@.skip(5));
            if a < b {
                let payload = from_chars(&l.as_slice()[5 + a..5 + b]);
                proof {
                    let t = lv.take(k as int);
                    assert(l@.subrange(5 + a, 5 + b) =~= l@.skip(5).subrange(a as int, b as int));
                    assert(payload@ == text::trim(l@.skip(5)));
                    assert(text::starts_with(t.last(), data_prefix()));
                    assert(last_data(t) == Some(text::trim(l@.skip(5))));
                }
                return payload;
            }
        }
        assert(lv.take(k as int).drop_last() =~= lv.take(k - 1));
        k = k - 1;
    }
    body.to_string()
}

/// A JSON-RPC request of the client: `{"jsonrpc": "2.0", "id": id, "method": m, "params": p}`.
pub open spec fn is_rpc_request(r: Json, id: u64, method: Seq<char>, params: Json) -> bool {
    &&& json::member_count(r) == 4
    &&& r.str_field("jsonrpc"@) == Some("2.0"@)
    &&& r.get_spec("id"@) == Some(Json::Number(JsonNumber::PosInt(id)))
    &&& r.str_field("method"@) == Some(method)
    &&& r.get_spec("params"@) == Some(params)
}

pub fn request_with_id(id: u64, method: &str, params: Json) -> (r: Json)
    ensures
        is_rpc_request(r, id, method@, params),
{
    proof {
        reveal_strlit("jsonrpc");
        assert("jsonrpc"@.len() == 7);
        reveal_strlit("id");
        assert("id"@.len() == 2);
        reveal_strlit("method");
        assert("method"@.len() == 6);
        reveal_strlit("params");
        assert("params"@.len() == 6);
        assert("method"@[0] == 'm' && "params"@[0] == 'p');
    }
    let mut m: Vec<(String, Json)> = Vec::new();
    push_member(&mut m, "jsonrpc", Json::text("2.0"));
    push_member(&mut m, "id", Json::Number(JsonNumber::PosInt(id)));
    push_member(&mut m, "method", Json::text(method));
    push_member(&mut m, "params", params);
    let r = Json::Object(m);
    assert(r.str_field("jsonrpc"@) == Some("2.0"@));
    assert(r.str_field("method"@) == Some(method@));
    r
}

/// The client's `initialize` request (id 0), naming this client and its `version`.
pub fn initialize_request(version: &str) -> (r: Json)
    ensures
        r.get_spec("params"@) matches Some(p) && {
            &&& is_rpc_request(r, 0, "initialize"@, p)
            &&& p.str_field("protocolVersion"@) == Some(protocol_version())
            &&& p.get_spec("clientInfo"@) matches Some(c) && {
                &&& c.str_field("name"@) == Some("kasugai_box"@)
                &&& c.str_field("version"@) == Some(version@)
            }
        },
{
    proof {
        reveal_strlit("protocolVersion");
        assert("protocolVersion"@.len() == 15);
        reveal_strlit("capabilities");
        assert("capabilities"@.len() == 12);
        reveal_strlit("clientInfo");
        assert("clientInfo"@.len() == 10);
        reveal_strlit("name");
        assert("name"@.len() == 4);
        reveal_strlit("version");
        assert("version"@.len() == 7);
    }
    let mut info: Vec<(String, Json)> = Vec::new();
    push_member(&mut info, "name", Json::text("kasugai_box"));
    push_member(&mut info, "version", Json::text(version));
    let info = Json::Object(info);
    assert(info.str_field("name"@) == Some("kasugai_box"@));
    assert(info.str_field("version"@) == Some(version@));
    let mut p: Vec<(String, Json)> = Vec::new();
    push_member(&mut p, "protocolVersion", Json::text("2025-06-18"));
    push_member(&mut p, "capabilities", Json::Object(Vec::new()));
    push_member(&mut p, "clientInfo", info);
    let p = Json::Object(p);
    assert(p.str_field("protocolVersion"@) == Some(protocol_version()));
    request_with_id(0, "initialize", p)
}

/// The client's notification after `initialize`: no id, method `notifications/initialized`.
pub fn initialized_notification() -> (r: Json)
    ensures
        json::member_count(r) == 2,
        r.str_field("jsonrpc"@) == Some("2.0"@),
        r.str_field("method"@) == Some("notifications/initialized"@),
        r.get_spec("id"@) is None,
{
    proof {
        reveal_strlit("jsonrpc");
        assert("jsonrpc"@.len() == 7);
        reveal_strlit("id");
        assert("id"@.len() == 2);
        reveal_strlit("method");
        assert("method"@.len() == 6);
    }
    let mut m: Vec<(String, Json)> = Vec::new();
    push_member(&mut m, "jsonrpc", Json::text("2.0"));
    push_member(&mut m, "method", Json::text("notifications/initialized"));
    let r = Json::Object(m);
    assert(r.str_field("jsonrpc"@) == Some("2.0"@));
    assert(r.str_field("method"@) == Some("notifications/initialized"@));
    r
}

/// `mcp_rpc`: the client's request (id 1) for `method` with `params`.
pub fn rpc_request(method: &str, params: Json) -> (r: Json)
    ensures
        is_rpc_request(r, 1, method@, params),
{
    request_with_id(1, method, params)
}

/// The params of a `tools/call` request: `{"name": name, "arguments": arguments}`.
pub fn tool_call_params(name: &str, arguments: Json) -> (r: Json)
    ensures
        json::member_count(r) == 2,
        r.str_field("name"@) == Some(name@),
        r.get_spec("arguments"@) == Some(arguments),
{
    proof {
        reveal_strlit("name");
        assert("name"@.len() == 4);
        reveal_strlit("arguments");
        assert("arguments"@.len() == 9);
    }
    let mut m: Vec<(String, Json)> = Vec::new();
    push_member(&mut m, "name", Json::text(name));
    push_member(&mut m, "arguments", arguments);
    let r = Json::Object(m);
    assert(r.str_field("name"@) == Some(name@));
    r
}

/// The arguments text of a tool call is blank: the arguments are then `{}`.
pub fn arguments_are_blank(arguments: &str) -> (r: bool)
    ensures
        r == (text::trim(arguments@).len() == 0),
{
    text::is_blank(arguments)
}

/// The token the client sends: the configured connection token where it is not blank;
/// `None` tells the caller to send the Box access token, where it can get one.
pub fn connection_token(configured: &Option<String>) -> (r: Option<String>)
    ensures
        match *configured {
            Some(t) => if text::trim(t@).len() > 0 {
                r matches Some(u) && u@ == t@
            } else {
                r is None
            },
            None => r is None,
        },
{
    match configured {
        Some(t) => {
            if text::is_blank(t.as_str()) {
                None
            } else {
                Some(t.clone())
            }
        },
        None => None,
    }
}

/// `mcp_rpc`: the configured MCP server's address, or the error when none is set.
pub fn mcp_endpoint(configured: &Option<String>) -> (r: Result<String, String>)
    ensures
        match r {
            Ok(u) => configured matches Some(c) && u@ == c@,
            Err(e) => configured is None && e@ == "MCP サーバーURLが設定されていません"@,
        },
{
    match configured {
        Some(u) => Ok(u.clone()),
        None => Err("MCP サーバーURLが設定されていません".to_string()),
    }
}

/// Exactly the requests without an `id` (notifications) go unanswered.
pub proof fn law_only_notifications_are_unanswered(body: Json)
    ensures
        (request_plan(body) is Notification) <==> (body.get_spec("id"@) is None),
{
}

/// A tool call that a server answers names the tool it asks for: an unknown name is
/// answered with an error that repeats it.
pub proof fn law_unknown_tool_is_named(name: Seq<char>, args: Option<Json>)
    requires
        !tool_names().contains(name),
    ensures
        tool_plan(name, args) == Err::<ToolPlan, Seq<char>>("未知のツールです: "@ + name),
{
    assert(tool_names()[0] == "box_whoami"@);
    assert(tool_names()[1] == "box_search"@);
    assert(tool_names()[2] == "box_list_folder"@);
    assert(tool_names()[3] == "box_create_shared_link"@);
    assert(tool_names()[4] == "photos_process"@);
    assert(tool_names()[5] == "job_status"@);
}

/// The text argument `key` of a tool call, read straight from the arguments object.
pub open spec fn given_text(args: Option<Json>, key: Seq<char>) -> Option<Seq<char>> {
    match args {
        Some(a) => match a.get_spec(key) {
            Some(Json::Str(t)) => Some(t@),
            _ => None,
        },
        None => None,
    }
}

proof fn lemma_tool_names_differ()
    ensures
        "box_list_folder"@ != "box_whoami"@,
        "box_list_folder"@ != "box_search"@,
        "job_status"@ != "box_whoami"@,
        "job_status"@ != "box_search"@,
        "job_status"@ != "box_list_folder"@,
        "job_status"@ != "box_create_shared_link"@,
        "job_status"@ != "photos_process"@,
        "photos_process"@ != "box_whoami"@,
        "photos_process"@ != "box_search"@,
        "photos_process"@ != "box_list_folder"@,
        "photos_process"@ != "box_create_shared_link"@,
        "box_create_shared_link"@ != "box_whoami"@,
        "box_create_shared_link"@ != "box_search"@,
        "box_create_shared_link"@ != "box_list_folder"@,
        "box_search"@ != "box_whoami"@,
{
    reveal_strlit("box_whoami");
    reveal_strlit("box_search");
    reveal_strlit("box_list_folder");
    reveal_strlit("box_create_shared_link");
    reveal_strlit("photos_process");
    reveal_strlit("job_status");
    assert("box_whoami"@.len() == 10 && "box_search"@.len() == 10 && "job_status"@.len() == 10);
    assert("box_list_folder"@.len() == 15 && "box_create_shared_link"@.len() == 22);
    assert("photos_process"@.len() == 14);
    assert("box_whoami"@[4] != "box_search"@[4]);
    assert("job_status"@[0] != "box_whoami"@[0]);
    assert("job_status"@[0] != "box_search"@[0]);
}

/// A tool call uses the arguments it is given: the folder to list (the root `0` only
/// where no folder id is given), the job asked about, the folder link and output folder of
/// a photo job (the default folder only where none is given), the item to share, and the
/// search query.
pub proof fn law_tool_calls_use_their_arguments(args: Option<Json>)
    ensures
        tool_plan("box_list_folder"@, args) == Ok::<ToolPlan, Seq<char>>(
            ToolPlan::ListFolder(
                match given_text(args, "folder_id"@) {
                    Some(f) => f,
                    None => "0"@,
                },
            ),
        ),
        given_text(args, "job_id"@) matches Some(j) ==> tool_plan("job_status"@, args) == Ok::<
            ToolPlan,
            Seq<char>,
        >(ToolPlan::JobStatus(j)),
        given_text(args, "job_id"@) is None ==> tool_plan("job_status"@, args) is Err,
        given_text(args, "folder_url"@) matches Some(f) ==> tool_plan("photos_process"@, args)
            == Ok::<ToolPlan, Seq<char>>(
            ToolPlan::PhotosProcess(
                f,
                match given_text(args, "output_dir"@) {
                    Some(o) => o,
                    None => default_output_dir(),
                },
            ),
        ),
        given_text(args, "folder_url"@) is None ==> tool_plan("photos_process"@, args) is Err,
        given_text(args, "item_type"@) matches Some(t) ==> ((t == "file"@ || t == "folder"@)
            ==> (given_text(args, "id"@) matches Some(id) ==> tool_plan(
            "box_create_shared_link"@,
            args,
        ) == Ok::<ToolPlan, Seq<char>>(ToolPlan::CreateSharedLink(t, id)))),
        given_text(args, "query"@) matches Some(q) ==> (tool_plan("box_search"@, args) matches Ok(
            ToolPlan::Search(q2, _, _),
        ) && q2 == q),
        given_text(args, "query"@) is None ==> tool_plan("box_search"@, args) is Err,
{
    lemma_tool_names_differ();
}

/// The search tool's page size is always between 1 and 200.
pub proof fn law_tool_limit_in_range(args: Option<Json>)
    ensures
        1 <= tool_limit(args) <= 200,
{
}

} // verus!
