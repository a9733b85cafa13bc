//! The desktop shell's variant of the sidecar: fewer settings, searches of 50 items that go
//! on where the last page ended, a chat without a page-size setting, and a login whose
//! redirect is caught in the login window. What it shares with the server is used as is.
use vstd::prelude::*;
use crate::box_api::{self, BoxSearchResponse};
use crate::chat::{self, ChatPlan, ChatStep};
use crate::config::{self, ConfigModel, opt_text};
use crate::json::Json;
use crate::text::{self, from_chars, push_decimal, push_str, to_chars};

pub use crate::box_api::{extract_query_param, OAuthTokenResponse};
pub use crate::chat::BoxApiChatResponse;

verus! {

/// The settings of the desktop shell.
pub struct Config {
    pub client_id: Option<String>,
    pub client_secret: Option<String>,
    pub folder_url: Option<String>,
    pub developer_token: Option<String>,
    pub access_token: Option<String>,
    pub refresh_token: Option<String>,
    pub expires_at: Option<i64>,
    pub mcp_server_url: Option<String>,
    pub mcp_connection_token: Option<String>,
}

/// The desktop settings as the server's settings: no page size, no port, updates on.
pub open spec fn as_settings(c: Config) -> ConfigModel {
    ConfigModel {
        client_id: opt_text(c.client_id),
        client_secret: opt_text(c.client_secret),
        folder_url: opt_text(c.folder_url),
        developer_token: opt_text(c.developer_token),
        access_token: opt_text(c.access_token),
        refresh_token: opt_text(c.refresh_token),
        expires_at: c.expires_at,
        mcp_server_url: opt_text(c.mcp_server_url),
        mcp_connection_token: opt_text(c.mcp_connection_token),
        search_limit: None,
        port: None,
        auto_update: true,
    }
}

impl Config {
    /// The settings of a first start (`Config::default`).
    pub fn new() -> (r: Config)
        ensures
            as_settings(r) == as_settings(Config {
                client_id: None,
                client_secret: None,
                folder_url: None,
                developer_token: None,
                access_token: None,
                refresh_token: None,
                expires_at: None,
                mcp_server_url: None,
                mcp_connection_token: None,
            }),
    {
        Config {
            client_id: None,
            client_secret: None,
            folder_url: None,
            developer_token: None,
            access_token: None,
            refresh_token: None,
            expires_at: None,
            mcp_server_url: None,
            mcp_connection_token: None,
        }
    }

    /// These settings in the server's form, to share its token logic.
    pub fn into_settings(self) -> (r: config::Config)
        ensures
            r@ == as_settings(self),
    {
        config::Config {
            client_id: self.client_id,
            client_secret: self.client_secret,
            folder_url: self.folder_url,
            developer_token: self.developer_token,
            access_token: self.access_token,
            refresh_token: self.refresh_token,
            expires_at: self.expires_at,
            mcp_server_url: self.mcp_server_url,
            mcp_connection_token: self.mcp_connection_token,
            search_limit: None,
            port: None,
            auto_update: true,
        }
    }

    /// The desktop fields of the server's settings.
    pub fn from_settings(c: config::Config) -> (r: Config)
        ensures
            as_settings(r) == (ConfigModel { search_limit: None, port: None, auto_update: true, ..c@ }),
    {
        Config {
            client_id: c.client_id,
            client_secret: c.client_secret,
            folder_url: c.folder_url,
            developer_token: c.developer_token,
            access_token: c.access_token,
            refresh_token: c.refresh_token,
            expires_at: c.expires_at,
            mcp_server_url: c.mcp_server_url,
            mcp_connection_token: c.mcp_connection_token,
        }
    }
}

pub open spec fn or_else<A>(a: Option<A>, b: Option<A>) -> Option<A> {
    match a {
        Some(x) => Some(x),
        None => b,
    }
}

fn or_keep<A>(a: Option<A>, b: Option<A>) -> (r: Option<A>)
    ensures
        r == or_else(a, b),
{
    match a {
        Some(x) => Some(x),
        None => b,
    }
}

/// `save_config_cmd`: the form's client id, secret and folder replace the saved ones; its
/// tokens and MCP settings replace them only where it has them.
pub fn merge_saved_config(existing: Config, form: Config) -> (r: Config)
    ensures
        as_settings(r) == (ConfigModel {
            client_id: opt_text(form.client_id),
            client_secret: opt_text(form.client_secret),
            folder_url: opt_text(form.folder_url),
            developer_token: or_else(opt_text(form.developer_token), opt_text(existing.developer_token)),
            access_token: or_else(opt_text(form.access_token), opt_text(existing.access_token)),
            refresh_token: or_else(opt_text(form.refresh_token), opt_text(existing.refresh_token)),
            expires_at: or_else(form.expires_at, existing.expires_at),
            mcp_server_url: or_else(opt_text(form.mcp_server_url), opt_text(existing.mcp_server_url)),
            mcp_connection_token: or_else(
                opt_text(form.mcp_connection_token),
                opt_text(existing.mcp_connection_token),
            ),
            ..as_settings(existing)
        }),
{
    Config {
        client_id: form.client_id,
        client_secret: form.client_secret,
        folder_url: form.folder_url,
        developer_token: or_keep(form.developer_token, existing.developer_token),
        access_token: or_keep(form.access_token, existing.access_token),
        refresh_token: or_keep(form.refresh_token, existing.refresh_token),
        expires_at: or_keep(form.expires_at, existing.expires_at),
        mcp_server_url: or_keep(form.mcp_server_url, existing.mcp_server_url),
        mcp_connection_token: or_keep(form.mcp_connection_token, existing.mcp_connection_token),
    }
}

/// `process_photos`: the settings remember the client credentials and the folder link.
pub fn remember_job(config: Config, client_id: String, client_secret: String, folder_url: String) -> (r:
    Config)
    ensures
        as_settings(r) == (ConfigModel {
            client_id: Some(client_id@),
            client_secret: Some(client_secret@),
            folder_url: Some(folder_url@),
            ..as_settings(config)
        }),
{
    let mut c = config;
    c.client_id = Some(client_id);
    c.client_secret = Some(client_secret);
    c.folder_url = Some(folder_url);
    c
}

/// `box_oauth_logout` of the desktop shell: the OAuth tokens are dropped, a developer token
/// stays.
pub fn logout(config: Config) -> (r: Config)
    ensures
        as_settings(r) == (ConfigModel {
            access_token: None,
            refresh_token: None,
            expires_at: None,
            ..as_settings(config)
        }),
{
    let mut c = config;
    c.access_token = None;
    c.refresh_token = None;
    c.expires_at = None;
    c
}

/// The page size of the desktop search.
pub open spec fn desktop_page() -> usize {
    50
}

/// `search_box` of the desktop shell before the request: the search address, 50 a page.
pub fn search_url(query: &str, offset: usize) -> (r: Option<String>)
    ensures
        match r {
            Some(u) => box_api::url_with_params(
                "https://api.box.com/2.0/search"@,
                box_api::search_params(query@, offset, 50),
            ) == Some(u@),
            None => box_api::url_with_params(
                "https://api.box.com/2.0/search"@,
                box_api::search_params(query@, offset, 50),
            ) is None,
        },
{
    box_api::search_url(query, offset, 50)
}

/// A page of desktop search results.
pub struct SearchResult {
    pub reply: String,
    pub offset: usize,
    pub next_offset: usize,
    pub total_count: usize,
    pub has_more: bool,
}

/// `search_box` of the desktop shell after the request: the next page starts after the
/// items of this one.
pub fn search_result(offset: usize, data: &BoxSearchResponse) -> (r: SearchResult)
    requires
        box_api::response_offset(offset, *data) + data.entries@.len() <= usize::MAX,
    ensures
        r.offset == box_api::response_offset(offset, *data),
        r.total_count == (match data.total_count {
            Some(t) => t,
            None => 0,
        }),
        r.next_offset == r.offset + data.entries@.len(),
        r.has_more == (r.next_offset < r.total_count),
        r.reply@ == box_api::search_reply_spec(data.entries@),
{
    let response_offset = match data.offset {
        Some(o) => o,
        None => offset,
    };
    let total_count = match data.total_count {
        Some(t) => t,
        None => 0,
    };
    let next_offset = response_offset + data.entries.len();
    SearchResult {
        reply: box_api::search_reply(&data.entries),
        offset: response_offset,
        next_offset,
        total_count,
        has_more: next_offset < total_count,
    }
}

/// The search that `more` continues in the desktop chat.
pub struct SearchState {
    pub query: String,
    pub next_offset: usize,
}

pub open spec fn desktop_help_text() -> Seq<char> {
    "利用可能なコマンド:\n  help        このヘルプを表示\n  me          ログインユーザー情報を表示\n  folder <id> フォルダ内のアイテムを一覧\n  search <q>  Box標準検索（ファイル名・メタデータ・文書内テキスト）\n  link <type> <id> ファイルまたはフォルダの共有リンクを作成\n  ルール: コマンドと引数は半角スペースで区切ってください。全角スペースは検索語の一部になります。\n  検索結果は 50 件ずつ取得し、Enter で次の 50 件を読み込みます。"@
}

/// What a line of the desktop chat asks for: as in the server's chat, with pages of 50,
/// its own help text, and `more` continuing `last` (given as query and next offset).
pub open spec fn desktop_chat_plan(
    cmd: Seq<char>,
    arg: Seq<char>,
    t: Seq<char>,
    last: Option<(Seq<char>, usize)>,
) -> ChatPlan {
    if cmd == "help"@ || cmd == "?"@ || cmd == ""@ {
        ChatPlan::Reply(desktop_help_text())
    } else if cmd == "more"@ {
        match last {
            Some((q, next)) => ChatPlan::Search(q, next, 50),
            None => ChatPlan::Reply(chat::no_search_text()),
        }
    } else {
        chat::chat_plan(cmd, arg, t, 50, None)
    }
}

pub open spec fn desktop_state_view(s: Option<SearchState>) -> Option<(Seq<char>, usize)> {
    match s {
        Some(st) => Some((st.query@, st.next_offset)),
        None => None,
    }
}

/// `run_box_api_chat` of the desktop shell before any request.
pub fn plan_chat(line: &str, last: &Option<SearchState>) -> (r: ChatStep)
    ensures
        r@ == desktop_chat_plan(
            text::lowercase_text(chat::command_text(text::trim(line@))),
            chat::argument_text(text::trim(line@)),
            text::trim(line@),
            desktop_state_view(*last),
        ),
{
    let t = text::trimmed(line);
    let c = to_chars(t.as_str());
    let sp = text::index_of_char(c.as_slice(), ' ');
    proof {
        text::lemma_index_of(c@, ' ');
    }
    let cmd = from_chars(&c.as_slice()[0..sp]);
    assert(c@.subrange(0, sp as int) =~= chat::command_text(t@));
    let lower = text::to_lowercase(cmd.as_str());
    if text::equal_text(lower.as_str(), "help") || text::equal_text(lower.as_str(), "?")
        || text::equal_text(lower.as_str(), "") {
        return ChatStep::Reply { text: "利用可能なコマンド:\n  help        このヘルプを表示\n  me          ログインユーザー情報を表示\n  folder <id> フォルダ内のアイテムを一覧\n  search <q>  Box標準検索（ファイル名・メタデータ・文書内テキスト）\n  link <type> <id> ファイルまたはフォルダの共有リンクを作成\n  ルール: コマンドと引数は半角スペースで区切ってください。全角スペースは検索語の一部になります。\n  検索結果は 50 件ずつ取得し、Enter で次の 50 件を読み込みます。".to_string() };
    }
    if text::equal_text(lower.as_str(), "more") {
        return match last {
            Some(st) => ChatStep::Search { query: st.query.clone(), offset: st.next_offset, limit: 50 },
            None => ChatStep::Reply { text: "先に search を実行してください。".to_string() },
        };
    }
    chat::plan_chat(line, 50, &None)
}

/// The desktop chat's reply to a page of search results: the footer counts to the end of
/// the page.
pub open spec fn search_chat_reply_spec(result: SearchResult) -> Seq<char> {
    result.reply@ + "\n\n"@ + text::decimal((result.offset + 1) as nat) + "-"@ + text::decimal(
        result.next_offset as nat,
    ) + "/"@ + text::decimal(result.total_count as nat) + " 件"@ + if result.has_more {
        "（Enter で続き）"@
    } else {
        "（すべて表示）"@
    }
}

/// The desktop chat's answer after a search for `query`, and the search `more` continues.
pub fn searched(query: &str, result: &SearchResult) -> (r: (BoxApiChatResponse, SearchState))
    requires
        result.offset < usize::MAX,
    ensures
        r.0.reply@ == search_chat_reply_spec(*result),
        r.0.has_more == result.has_more,
        r.1.query@ == query@,
        r.1.next_offset == result.next_offset,
{
    let mut v: Vec<char> = Vec::new();
    push_str(&mut v, result.reply.as_str());
    push_str(&mut v, "\n\n");
    push_decimal(&mut v, (result.offset + 1) as u64);
    push_str(&mut v, "-");
    push_decimal(&mut v, result.next_offset as u64);
    push_str(&mut v, "/");
    push_decimal(&mut v, result.total_count as u64);
    push_str(&mut v, " 件");
    if result.has_more {
        push_str(&mut v, "（Enter で続き）");
    } else {
        push_str(&mut v, "（すべて表示）");
    }
    assert(v@ =~= search_chat_reply_spec(*result));
    (
        BoxApiChatResponse { reply: from_chars(v.as_slice()), has_more: result.has_more },
        SearchState { query: query.to_string(), next_offset: result.next_offset },
    )
}

/// The address the desktop chat's `link` puts the shared link request to.
pub fn shared_link_url(item_type: &str, id: &str) -> (r: String)
    ensures
        r@ == "https://api.box.com/2.0/"@ + item_type@ + "/"@ + id@,
{
    let mut v: Vec<char> = Vec::new();
    push_str(&mut v, "https://api.box.com/2.0/");
    push_str(&mut v, item_type);
    push_str(&mut v, "/");
    push_str(&mut v, id);
    assert(v@ =~= "https://api.box.com/2.0/"@ + item_type@ + "/"@ + id@);
    from_chars(v.as_slice())
}

/// The login window's navigation is the redirect to `http://localhost:8000/callback` with
/// the expected `state` and a code: the code, which ends the login.
pub open spec fn callback_navigation_spec(
    scheme: Seq<char>,
    host: Option<Seq<char>>,
    port: Option<u16>,
    path: Seq<char>,
    query: Option<Seq<char>>,
    expected_state: Seq<char>,
) -> Option<Seq<char>> {
    if scheme == "http"@ && host == Some("localhost"@) && port == Some(8000u16) && path
        == "/callback"@ {
        match query {
            Some(q) => if box_api::query_param(q, "state"@) == Some(expected_state) {
                box_api::query_param(q, "code"@)
            } else {
                None
            },
            None => None,
        }
    } else {
        None
    }
}

/// `box_oauth_login`'s navigation check, on the parts of the address the window navigates
/// to.
pub fn callback_navigation(
    scheme: &str,
    host: Option<&str>,
    port: Option<u16>,
    path: &str,
    query: Option<&str>,
    expected_state: &str,
) -> (r: Option<String>)
    ensures
        ({
            let h = match host {
                Some(h) => Some(h@),
                None => None,
            };
            let q = match query {
                Some(q) => Some(q@),
                None => None,
            };
            match r {
                Some(c) => callback_navigation_spec(scheme@, h, port, path@, q, expected_state@)
                    == Some(c@),
                None => callback_navigation_spec(scheme@, h, port, path@, q, expected_state@) is None,
            }
        }),
{
    let host_ok = match host {
        Some(h) => text::equal_text(h, "localhost"),
        None => false,
    };
    if !(text::equal_text(scheme, "http") && host_ok && port == Some(8000u16) && text::equal_text(
        path,
        "/callback",
    )) {
        return None;
    }
    match query {
        Some(q) => {
            let state = extract_query_param(q, "state");
            let ok = match &state {
                Some(s) => text::equal_text(s.as_str(), expected_state),
                None => false,
            };
            if ok {
                extract_query_param(q, "code")
            } else {
                None
            }
        },
        None => None,
    }
}

/// The message of a finished desktop photo job.
pub open spec fn process_message_spec(records: nat, wrote_geojson: bool) -> Seq<char> {
    if records == 0 {
        "対象ファイルが見つかりませんでした。"@
    } else if wrote_geojson {
        text::decimal(records) + "件の画像を処理しました。CSVとGeoJSONを出力しました。"@
    } else {
        text::decimal(records) + "件の画像を処理しました。位置情報が含まれていませんでした。"@
    }
}

pub fn process_message(records: usize, wrote_geojson: bool) -> (r: String)
    ensures
        r@ == process_message_spec(records as nat, wrote_geojson),
{
    let mut v: Vec<char> = Vec::new();
    if records == 0 {
        push_str(&mut v, "対象ファイルが見つかりませんでした。");
    } else if wrote_geojson {
        push_decimal(&mut v, records as u64);
        push_str(&mut v, "件の画像を処理しました。CSVとGeoJSONを出力しました。");
    } else {
        push_decimal(&mut v, records as u64);
        push_str(&mut v, "件の画像を処理しました。位置情報が含まれていませんでした。");
    }
    assert(v@ =~= process_message_spec(records as nat, wrote_geojson));
    from_chars(v.as_slice())
}

/// `mcp_list_tools`: the request (id 1) for the tools of the configured MCP server.
pub fn list_tools_request() -> (r: Json)
    ensures
        r.get_spec("params"@) matches Some(p) && crate::mcp::is_rpc_request(r, 1, "tools/list"@, p)
            && p is Object && crate::json::member_count(p) == 0,
{
    crate::mcp::request_with_id(1, "tools/list", Json::Object(Vec::new()))
}

/// `mcp_call_tool`: the request (id 2) that calls the tool `name` with `arguments`.
pub fn call_tool_request(name: &str, arguments: Json) -> (r: Json)
    ensures
        r.get_spec("params"@) matches Some(p) && crate::mcp::is_rpc_request(r, 2, "tools/call"@, p)
            && p.str_field("name"@) == Some(name@) && p.get_spec("arguments"@) == Some(arguments),
{
    let p = crate::mcp::tool_call_params(name, arguments);
    crate::mcp::request_with_id(2, "tools/call", p)
}

/// Saving the desktop form keeps the saved tokens and MCP settings wherever the form
/// leaves them out.
pub proof fn law_save_keeps_what_form_omits(existing: Config, form: Config)
    requires
        form.developer_token is None,
        form.access_token is None,
        form.refresh_token is None,
        form.expires_at is None,
        form.mcp_server_url is None,
        form.mcp_connection_token is None,
    ensures
        ({
            let merged = ConfigModel {
                client_id: opt_text(form.client_id),
                client_secret: opt_text(form.client_secret),
                folder_url: opt_text(form.folder_url),
                developer_token: or_else(opt_text(form.developer_token), opt_text(existing.developer_token)),
                access_token: or_else(opt_text(form.access_token), opt_text(existing.access_token)),
                refresh_token: or_else(opt_text(form.refresh_token), opt_text(existing.refresh_token)),
                expires_at: or_else(form.expires_at, existing.expires_at),
                mcp_server_url: or_else(opt_text(form.mcp_server_url), opt_text(existing.mcp_server_url)),
                mcp_connection_token: or_else(
                    opt_text(form.mcp_connection_token),
                    opt_text(existing.mcp_connection_token),
                ),
                ..as_settings(existing)
            };
            &&& merged.developer_token == as_settings(existing).developer_token
            &&& merged.access_token == as_settings(existing).access_token
            &&& merged.refresh_token == as_settings(existing).refresh_token
            &&& merged.expires_at == as_settings(existing).expires_at
            &&& merged.mcp_server_url == as_settings(existing).mcp_server_url
            &&& merged.mcp_connection_token == as_settings(existing).mcp_connection_token
        }),
{
}

} // verus!
