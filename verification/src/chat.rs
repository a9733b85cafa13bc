//! The Box chat of the web UI: a line of text in, a reply out, and in between at most one
//! request to Box, which the caller makes. `plan_chat` decides what the line asks for; the
//! functions after it turn Box's answer into the reply.
use vstd::prelude::*;
use crate::box_api::{BoxFolderItems, BoxItem, BoxUser, SearchResult};
use crate::text::{self, from_chars, push_decimal, push_joined, push_str, to_chars};

verus! {

/// The search that the command `more` continues.
pub struct SearchState {
    pub query: String,
    pub next_offset: usize,
    pub limit: usize,
}

pub struct SearchStateModel {
    pub query: Seq<char>,
    pub next_offset: usize,
    pub limit: usize,
}

impl View for SearchState {
    type V = SearchStateModel;

    open spec fn view(&self) -> SearchStateModel {
        SearchStateModel { query: self.query@, next_offset: self.next_offset, limit: self.limit }
    }
}

pub open spec fn state_view(s: Option<SearchState>) -> Option<SearchStateModel> {
    match s {
        Some(st) => Some(st@),
        None => None,
    }
}

/// The chat's answer to one line.
pub struct BoxApiChatResponse {
    pub reply: String,
    pub has_more: bool,
}

/// What a line of the chat asks for.
pub enum ChatStep {
    /// Answer with this text; Box is not asked.
    Reply { text: String },
    /// Ask Box for the signed-in user, then answer with `user_reply`.
    ShowUser,
    /// List the folder, then answer with `folder_reply`.
    ListFolder { folder_id: String },
    /// Search Box, then answer with `searched`.
    Search { query: String, offset: usize, limit: usize },
    /// Create a shared link (at `shared_link_url`), then answer with `shared_link_reply`.
    CreateLink { item_type: String, id: String },
}

pub enum ChatPlan {
    Reply(Seq<char>),
    ShowUser,
    ListFolder(Seq<char>),
    Search(Seq<char>, usize, usize),
    CreateLink(Seq<char>, Seq<char>),
}

impl View for ChatStep {
    type V = ChatPlan;

    open spec fn view(&self) -> ChatPlan {
        match self {
            ChatStep::Reply { text } => ChatPlan::Reply(text@),
            ChatStep::ShowUser => ChatPlan::ShowUser,
            ChatStep::ListFolder { folder_id } => ChatPlan::ListFolder(folder_id@),
            ChatStep::Search { query, offset, limit } => ChatPlan::Search(query@, *offset, *limit),
            ChatStep::CreateLink { item_type, id } => ChatPlan::CreateLink(item_type@, id@),
        }
    }
}

pub open spec fn help_text() -> Seq<char> {
    "利用可能なコマンド:\n  help        このヘルプを表示\n  me          ログインユーザー情報を表示\n  folder <id> フォルダ内のアイテムを一覧\n  search <q>  Box標準検索（ファイル名・メタデータ・文書内テキスト）\n  link <type> <id> ファイルまたはフォルダの共有リンクを作成\n  ルール: コマンドと引数は半角スペースで区切ってください。全角スペースは検索語の一部になります。\n  検索結果は 100 件ずつ取得し、Enter で次の 100 件を読み込みます。（設定で 1〜200 件に変更可）"@
}

pub open spec fn no_query_text() -> Seq<char> {
    "検索語を入力してください。"@
}

pub open spec fn no_search_text() -> Seq<char> {
    "先に search を実行してください。"@
}

pub open spec fn link_usage_text() -> Seq<char> {
    "使用方法: link <file|folder> <id>"@
}

pub open spec fn link_type_text() -> Seq<char> {
    "type には file または folder を指定してください。"@
}

/// The command word of a trimmed line: the text before its first space.
pub open spec fn command_text(t: Seq<char>) -> Seq<char> {
    t.take(text::index_of(t, ' '))
}

/// The argument of a trimmed line: the text after its first space, trimmed.
pub open spec fn argument_text(t: Seq<char>) -> Seq<char> {
    let sp = text::index_of(t, ' ');
    if sp < t.len() {
        text::trim(t.skip(sp + 1))
    } else {
        seq![]
    }
}

/// What a line asks for, from its lowercased command word `cmd`, its argument `arg` and
/// the whole trimmed line `t`; `limit` is the page size of a new search, `last` the search
/// that `more` continues.
pub open spec fn chat_plan(
    cmd: Seq<char>,
    arg: Seq<char>,
    t: Seq<char>,
    limit: usize,
    last: Option<SearchStateModel>,
) -> ChatPlan {
    if cmd == "help"@ || cmd == "?"@ || cmd == ""@ {
        ChatPlan::Reply(help_text())
    } else if cmd == "me"@ || cmd == "user"@ {
        ChatPlan::ShowUser
    } else if cmd == "folder"@ {
        ChatPlan::ListFolder(
            if arg.len() == 0 {
                "0"@
            } else {
                arg
            },
        )
    } else if cmd == "search"@ {
        if arg.len() == 0 {
            ChatPlan::Reply(no_query_text())
        } else {
            ChatPlan::Search(arg, 0, limit)
        }
    } else if cmd == "more"@ {
        match last {
            Some(st) => ChatPlan::Search(st.query, st.next_offset, st.limit),
            None => ChatPlan::Reply(no_search_text()),
        }
    } else if cmd == "link"@ {
        let w = text::words(arg);
        if w.len() != 2 {
            ChatPlan::Reply(link_usage_text())
        } else if w[0] != "file"@ && w[0] != "folder"@ {
            ChatPlan::Reply(link_type_text())
        } else {
            ChatPlan::CreateLink(w[0], w[1])
        }
    } else if t.len() == 0 {
        ChatPlan::Reply(no_query_text())
    } else {
        ChatPlan::Search(t, 0, limit)
    }
}

/// The help text of the chat.
pub fn help_reply() -> (r: String)
    ensures
        r@ == help_text(),
{
    "利用可能なコマンド:\n  help        このヘルプを表示\n  me          ログインユーザー情報を表示\n  folder <id> フォルダ内のアイテムを一覧\n  search <q>  Box標準検索（ファイル名・メタデータ・文書内テキスト）\n  link <type> <id> ファイルまたはフォルダの共有リンクを作成\n  ルール: コマンドと引数は半角スペースで区切ってください。全角スペースは検索語の一部になります。\n  検索結果は 100 件ずつ取得し、Enter で次の 100 件を読み込みます。（設定で 1〜200 件に変更可）".to_string()
}

/// What a line asks for, given its command word already lowercased.
pub fn plan_chat_command(
    cmd: &str,
    arg: &str,
    line: &str,
    limit: usize,
    last: &Option<SearchState>,
) -> (r: ChatStep)
    ensures
        r@ == chat_plan(cmd@, arg@, line@, limit, state_view(*last)),
{
    if text::equal_text(cmd, "help") || text::equal_text(cmd, "?") || text::equal_text(cmd, "") {
        ChatStep::Reply { text: help_reply() }
    } else if text::equal_text(cmd, "me") || text::equal_text(cmd, "user") {
        ChatStep::ShowUser
    } else if text::equal_text(cmd, "folder") {
        let folder_id = if text::is_empty_text(arg) {
            "0".to_string()
        } else {
            arg.to_string()
        };
        ChatStep::ListFolder { folder_id }
    } else if text::equal_text(cmd, "search") {
        if text::is_empty_text(arg) {
            ChatStep::Reply { text: "検索語を入力してください。".to_string() }
        } else {
            ChatStep::Search { query: arg.to_string(), offset: 0, limit }
        }
    } else if text::equal_text(cmd, "more") {
        match last {
            Some(st) => ChatStep::Search {
                query: st.query.clone(),
                offset: st.next_offset,
                limit: st.limit,
            },
            None => ChatStep::Reply { text: "先に search を実行してください。".to_string() },
        }
    } else if text::equal_text(cmd, "link") {
        let w = text::split_whitespace(arg);
        proof {
            assert(text::texts(w@).len() == w@.len());
        }
        if w.len() != 2 {
            ChatStep::Reply { text: "使用方法: link <file|folder> <id>".to_string() }
        } else {
            proof {
                assert(text::texts(w@)[0] == w@[0]@);
                assert(text::texts(w@)[1] == w@[1]@);
            }
            if !text::equal_text(w[0].as_str(), "file") && !text::equal_text(
                w[0].as_str(),
                "folder",
            ) {
                ChatStep::Reply {
                    text: "type には file または folder を指定してください。".to_string(),
                }
            } else {
                ChatStep::CreateLink { item_type: w[0].clone(), id: w[1].clone() }
            }
        }
    } else {
        if text::is_empty_text(line) {
            ChatStep::Reply { text: "検索語を入力してください。".to_string() }
        } else {
            ChatStep::Search { query: line.to_string(), offset: 0, limit }
        }
    }
}

/// `run_box_api_chat` before any request: what the line `line` asks for.
pub fn plan_chat(line: &str, limit: usize, last: &Option<SearchState>) -> (r: ChatStep)
    ensures
        r@ == chat_plan(
            text::lowercase_text(command_text(text::trim(line@))),
            argument_text(text::trim(line@)),
            text::trim(line@),
            limit,
            state_view(*last),
        ),
{
    let t = text::trimmed(line);
    let c = to_chars(t.as_str());
    let sp = text::index_of_char(c.as_slice(), ' ');
    proof {
        text::lemma_index_of(c@, ' ');
    }
    let cmd = from_chars(&c.as_slice()[0..sp]);
    assert(c@.subrange(0, sp as int) =~= command_text(t@));
    let arg = if sp < c.len() {
        let rest = from_chars(&c.as_slice()[sp + 1..c.len()]);
        assert(c@.subrange(sp + 1, c@.len() as int) =~= t@.skip(sp + 1));
        text::trimmed(rest.as_str())
    } else {
        String::new()
    };
    let lower = text::to_lowercase(cmd.as_str());
    plan_chat_command(lower.as_str(), arg.as_str(), t.as_str(), limit, last)
}

/// The page size of a chat search: the one asked for, else the configured one, else 100.
pub fn chat_limit(asked: Option<usize>, configured: Option<usize>) -> (r: usize)
    ensures
        r == (match asked {
            Some(n) => n,
            None => match configured {
                Some(n) => n,
                None => 100,
            },
        }),
{
    match asked {
        Some(n) => n,
        None => match configured {
            Some(n) => n,
            None => 100,
        },
    }
}

pub open spec fn user_reply_spec(user: BoxUser) -> Seq<char> {
    "ユーザー: "@ + user.name@ + " ("@ + user.login@ + " / "@ + user.user_type@ + ")"@
}

/// The reply to `me`.
pub fn user_reply(user: &BoxUser) -> (r: String)
    ensures
        r@ == user_reply_spec(*user),
{
    let mut v: Vec<char> = Vec::new();
    push_str(&mut v, "ユーザー: ");
    push_str(&mut v, user.name.as_str());
    push_str(&mut v, " (");
    push_str(&mut v, user.login.as_str());
    push_str(&mut v, " / ");
    push_str(&mut v, user.user_type.as_str());
    push_str(&mut v, ")");
    assert(v@ =~= user_reply_spec(*user));
    from_chars(v.as_slice())
}

pub open spec fn folder_items_url_spec(folder_id: Seq<char>) -> Seq<char> {
    "https://api.box.com/2.0/folders/"@ + folder_id + "/items?limit=20&fields=type,id,name"@
}

/// The address that `folder <id>` lists.
pub fn folder_items_url(folder_id: &str) -> (r: String)
    ensures
        r@ == folder_items_url_spec(folder_id@),
{
    let mut v: Vec<char> = Vec::new();
    push_str(&mut v, "https://api.box.com/2.0/folders/");
    push_str(&mut v, folder_id);
    push_str(&mut v, "/items?limit=20&fields=type,id,name");
    assert(v@ =~= folder_items_url_spec(folder_id@));
    from_chars(v.as_slice())
}

pub open spec fn folder_line_spec(item: BoxItem) -> Seq<char> {
    "["@ + item.item_type@ + "] "@ + item.name@ + " ("@ + item.id@ + ")"@
}

pub open spec fn folder_reply_spec(entries: Seq<BoxItem>) -> Seq<char> {
    if entries.len() == 0 {
        "アイテムが見つかりませんでした。"@
    } else {
        text::join(entries.map_values(|i: BoxItem| folder_line_spec(i)), "\n"@)
    }
}

fn folder_line(item: &BoxItem) -> (r: String)
    ensures
        r@ == folder_line_spec(*item),
{
    let mut v: Vec<char> = Vec::new();
    push_str(&mut v, "[");
    push_str(&mut v, item.item_type.as_str());
    push_str(&mut v, "] ");
    push_str(&mut v, item.name.as_str());
    push_str(&mut v, " (");
    push_str(&mut v, item.id.as_str());
    push_str(&mut v, ")");
    assert(v@ =~= folder_line_spec(*item));
    from_chars(v.as_slice())
}

/// The reply to `folder <id>`, from the page Box listed.
pub fn folder_reply(data: &BoxFolderItems) -> (r: String)
    ensures
        r@ == folder_reply_spec(data.entries@),
{
    if data.entries.len() == 0 {
        return "アイテムが見つかりませんでした。".to_string();
    }
    let mut lines: Vec<String> = Vec::new();
    let mut k: usize = 0;
    while k < data.entries.len()
        invariant
            k <= data.entries@.len(),
            lines@.len() == k,
            forall|j: int|
                0 <= j < k ==> #[trigger] lines@[j]@ == folder_line_spec(data.entries@[j]),
        decreases data.entries.len() - k,
    {
        lines.push(folder_line(&data.entries[k]));
        k = k + 1;
    }
    assert(text::texts(lines@) =~= data.entries@.map_values(|i: BoxItem| folder_line_spec(i)));
    let mut v: Vec<char> = Vec::new();
    push_joined(&mut v, &lines, "\n");
    assert(v@ =~= folder_reply_spec(data.entries@));
    from_chars(v.as_slice())
}

/// The line under a page of search results: which items are shown, of how many.
pub open spec fn search_footer_spec(result: SearchResult) -> Seq<char> {
    text::decimal((result.offset + 1) as nat) + "-"@ + text::decimal(result.display_end as nat)
        + "/"@ + text::decimal(result.total_count as nat) + " 件"@ + if result.has_more {
        "（Enter で続き）"@
    } else {
        "（すべて表示）"@
    }
}

pub open spec fn search_chat_reply_spec(result: SearchResult) -> Seq<char> {
    result.reply@ + "\n\n"@ + search_footer_spec(result)
}

/// The chat's reply to a page of search results.
pub fn search_chat_reply(result: &SearchResult) -> (r: String)
    requires
        result.offset < usize::MAX,
    ensures
        r@ == search_chat_reply_spec(*result),
{
    let mut v: Vec<char> = Vec::new();
    push_str(&mut v, result.reply.as_str());
    push_str(&mut v, "\n\n");
    push_decimal(&mut v, (result.offset + 1) as u64);
    push_str(&mut v, "-");
    push_decimal(&mut v, result.display_end as u64);
    push_str(&mut v, "/");
    push_decimal(&mut v, result.total_count as u64);
    push_str(&mut v, " 件");
    if result.has_more {
        push_str(&mut v, "（Enter で続き）");
    } else {
        push_str(&mut v, "（すべて表示）");
    }
    assert(v@ =~= search_chat_reply_spec(*result));
    from_chars(v.as_slice())
}

/// The chat's answer after a search for `query` with page size `limit`, and the search
/// that `more` continues from then on.
pub fn searched(query: &str, limit: usize, result: &SearchResult) -> (r: (
    BoxApiChatResponse,
    SearchState,
))
    requires
        result.offset < usize::MAX,
    ensures
        r.0.reply@ == search_chat_reply_spec(*result),
        r.0.has_more == result.has_more,
        r.1@ == (SearchStateModel { query: query@, next_offset: result.next_offset, limit }),
{
    (
        BoxApiChatResponse { reply: search_chat_reply(result), has_more: result.has_more },
        SearchState { query: query.to_string(), next_offset: result.next_offset, limit },
    )
}

pub open spec fn shared_link_url_spec(item_type: Seq<char>, id: Seq<char>) -> Seq<char> {
    "https://api.box.com/2.0/"@ + text::trim_end_char(item_type, 's') + "s/"@ + id
}

/// `create_shared_link` before the request: the address of the item to share
/// (`file` and `files` both name the collection `files`).
pub fn shared_link_url(item_type: &str, id: &str) -> (r: String)
    ensures
        r@ == shared_link_url_spec(item_type@, id@),
{
    let mut v: Vec<char> = Vec::new();
    push_str(&mut v, "https://api.box.com/2.0/");
    text::push_trim_end_char(&mut v, item_type, 's');
    push_str(&mut v, "s/");
    push_str(&mut v, id);
    assert(v@ =~= shared_link_url_spec(item_type@, id@));
    from_chars(v.as_slice())
}

pub open spec fn shared_link_reply_spec(item: BoxItem) -> Seq<char> {
    match item.shared_link {
        Some(link) => item.name@ + " の共有リンク: "@ + link.url@,
        None => "共有リンクを取得できませんでした。"@,
    }
}

/// `create_shared_link` after the request: the reply for the item Box returned.
pub fn shared_link_reply(item: &BoxItem) -> (r: String)
    ensures
        r@ == shared_link_reply_spec(*item),
{
    match &item.shared_link {
        Some(link) => {
            let mut v: Vec<char> = Vec::new();
            push_str(&mut v, item.name.as_str());
            push_str(&mut v, " の共有リンク: ");
            push_str(&mut v, link.url.as_str());
            assert(v@ =~= shared_link_reply_spec(*item));
            from_chars(v.as_slice())
        },
        None => "共有リンクを取得できませんでした。".to_string(),
    }
}

/// What a chat line leaves as the search that `more` continues: a search saves its query,
/// where its page ended and its page size; any other line keeps what was saved.
pub open spec fn state_after(
    plan: ChatPlan,
    last: Option<SearchStateModel>,
    next_offset: usize,
) -> Option<SearchStateModel> {
    match plan {
        ChatPlan::Search(query, _, limit) => Some(SearchStateModel { query, next_offset, limit }),
        _ => last,
    }
}

/// What came of the request that a chat step asked for.
pub enum ChatOutcome {
    /// The reply text of a step that is not a search (its own text, the user, the folder
    /// listing or the shared link).
    Text(String),
    /// The page of results of a search.
    Found(SearchResult),
    /// The request failed with this error.
    Failed(String),
}

/// The answer of a chat call and the search that `more` continues afterwards.
pub open spec fn finish_chat_spec(
    step: ChatPlan,
    last: Option<SearchStateModel>,
    outcome: ChatOutcome,
) -> (Result<(Seq<char>, bool), Seq<char>>, Option<SearchStateModel>) {
    match outcome {
        ChatOutcome::Failed(e) => (Err(e@), last),
        ChatOutcome::Text(t) => (Ok((t@, false)), last),
        ChatOutcome::Found(res) => (
            Ok((search_chat_reply_spec(res), res.has_more)),
            state_after(step, last, res.next_offset),
        ),
    }
}

pub open spec fn answer_view(r: Result<BoxApiChatResponse, String>) -> Result<(Seq<char>, bool), Seq<char>> {
    match r {
        Ok(a) => Ok((a.reply@, a.has_more)),
        Err(e) => Err(e@),
    }
}

/// `run_box_api_chat` after the request: the answer, and the search that `more` continues
/// from now on. Only a search that succeeded changes it; a failure is answered with its
/// error, and only a search says that more results follow.
pub fn finish_chat(step: &ChatStep, last: Option<SearchState>, outcome: ChatOutcome) -> (r: (
    Result<BoxApiChatResponse, String>,
    Option<SearchState>,
))
    requires
        outcome matches ChatOutcome::Found(res) ==> res.offset < usize::MAX,
    ensures
        (answer_view(r.0), state_view(r.1)) == finish_chat_spec(step@, state_view(last), outcome),
{
    match outcome {
        ChatOutcome::Failed(e) => (Err(e), last),
        ChatOutcome::Text(t) => (Ok(BoxApiChatResponse { reply: t, has_more: false }), last),
        ChatOutcome::Found(res) => {
            let reply = search_chat_reply(&res);
            let saved = match step {
                ChatStep::Search { query, offset: _, limit } => Some(
                    SearchState { query: query.clone(), next_offset: res.next_offset, limit: *limit },
                ),
                _ => last,
            };
            (Ok(BoxApiChatResponse { reply, has_more: res.has_more }), saved)
        },
    }
}

/// Over two chat calls: a search that succeeds is continued by a following `more` from
/// where its page ended, with its query and page size; a line that does not search, or a
/// request that fails, leaves the saved search as it was, so a following `more` continues
/// that one; and only a successful search can say that more results follow.
pub proof fn law_chat_remembers_the_last_search(
    step: ChatPlan,
    last: Option<SearchStateModel>,
    outcome: ChatOutcome,
    arg: Seq<char>,
    line: Seq<char>,
    page: usize,
)
    ensures
        ({
            let (answer, saved) = finish_chat_spec(step, last, outcome);
            &&& step matches ChatPlan::Search(q, _, l) ==> (outcome matches ChatOutcome::Found(res)
                ==> chat_plan("more"@, arg, line, page, saved) == ChatPlan::Search(q, res.next_offset, l))
            &&& !(step is Search && outcome is Found) ==> saved == last
            &&& (answer matches Ok((_, more)) && more) ==> outcome is Found
        }),
{
    if let ChatPlan::Search(q, _, l) = step {
        if let ChatOutcome::Found(res) = outcome {
            law_more_continues_last_search(q, l, res.next_offset, arg, line, page);
        }
    }
}

/// What `plan_chat` makes of a line.
pub open spec fn line_plan(line: Seq<char>, limit: usize, last: Option<SearchStateModel>) -> ChatPlan {
    chat_plan(
        text::lowercase_text(command_text(text::trim(line))),
        argument_text(text::trim(line)),
        text::trim(line),
        limit,
        last,
    )
}

/// A line that is a command word, a space and an argument without white space at its
/// ends: the word, lowercased, and the argument are what the plan reads.
proof fn lemma_command_line(word: Seq<char>, arg: Seq<char>)
    requires
        0 < word.len(),
        forall|k: int| 0 <= k < word.len() ==> 'a' <= #[trigger] word[k] <= 'z',
        arg.len() > 0,
        !text::is_ws(arg.last()),
        !text::is_ws(arg[0]),
    ensures
        text::trim(word + seq![' '] + arg) == word + seq![' '] + arg,
        text::lowercase_text(command_text(word + seq![' '] + arg)) == word,
        argument_text(word + seq![' '] + arg) == arg,
{
    let line = word + seq![' '] + arg;
    assert(line[0] == word[0]);
    assert(!text::is_ws(line[0]));
    assert(text::trim_start(line) == line);
    assert(line.last() == arg.last());
    assert(text::trim_end(line) == line);
    text::lemma_index_of(line, ' ');
    assert(line[word.len() as int] == ' ');
    if text::index_of(line, ' ') < word.len() {
        let i = text::index_of(line, ' ');
        assert(line[i] == word[i]);
    }
    assert(text::index_of(line, ' ') == word.len());
    assert(line.take(word.len() as int) =~= word);
    assert(text::is_ascii_text(word)) by {
        assert forall|i: int| 0 <= i < word.len() implies (#[trigger] word[i] as u32) < 128 by {
            assert('a' <= word[i] <= 'z');
        }
    }
    assert(word.map_values(|c: char| text::ascii_lower(c)) =~= word);
    assert(line.skip(word.len() as int + 1) =~= arg);
    assert(text::trim_start(arg) == arg);
    assert(text::trim_end(arg) == arg);
}

/// `search <query>` searches for the query from the first result, with the chat's page
/// size, whatever search was saved.
pub proof fn law_search_line_searches(
    query: Seq<char>,
    limit: usize,
    last: Option<SearchStateModel>,
)
    requires
        query.len() > 0,
        !text::is_ws(query[0]),
        !text::is_ws(query.last()),
    ensures
        line_plan("search"@ + seq![' '] + query, limit, last) == ChatPlan::Search(query, 0, limit),
{
    reveal_strlit("search");
    reveal_strlit("help");
    reveal_strlit("?");
    reveal_strlit("");
    reveal_strlit("me");
    reveal_strlit("user");
    reveal_strlit("folder");
    assert("search"@ =~= seq!['s', 'e', 'a', 'r', 'c', 'h']);
    lemma_command_line("search"@, query);
    assert("help"@.len() == 4 && "?"@.len() == 1 && ""@.len() == 0 && "me"@.len() == 2);
    assert("user"@.len() == 4 && "folder"@.len() == 6 && "folder"@[0] == 'f');
    assert("search"@ != "folder"@);
}

/// `folder <id>` lists that folder; `folder` alone lists the root, `0`.
pub proof fn law_folder_line_lists_the_folder(
    id: Seq<char>,
    limit: usize,
    last: Option<SearchStateModel>,
)
    requires
        id.len() > 0,
        !text::is_ws(id[0]),
        !text::is_ws(id.last()),
    ensures
        line_plan("folder"@ + seq![' '] + id, limit, last) == ChatPlan::ListFolder(id),
        line_plan("folder"@, limit, last) == ChatPlan::ListFolder("0"@),
{
    reveal_strlit("help");
    reveal_strlit("?");
    reveal_strlit("");
    reveal_strlit("me");
    reveal_strlit("user");
    reveal_strlit("folder");
    assert("folder"@ =~= seq!['f', 'o', 'l', 'd', 'e', 'r']);
    lemma_command_line("folder"@, id);
    assert("help"@.len() == 4 && "?"@.len() == 1 && ""@.len() == 0 && "me"@.len() == 2);
    assert("user"@.len() == 4);
    let f = "folder"@;
    assert(text::trim_start(f) == f);
    assert(text::trim_end(f) == f);
    text::lemma_index_of(f, ' ');
    if text::index_of(f, ' ') < f.len() {
        assert(f[text::index_of(f, ' ')] == ' ');
    }
    assert(f.take(6) =~= f);
    assert(text::is_ascii_text(f));
    assert(f.map_values(|c: char| text::ascii_lower(c)) =~= f);
}

/// The command words of the chat.
pub open spec fn command_words() -> Seq<Seq<char>> {
    seq!["help"@, "?"@, ""@, "me"@, "user"@, "folder"@, "search"@, "more"@, "link"@]
}

/// A line whose first word is no command is searched for as it is written (trimmed), from
/// the first result, with the chat's page size.
pub proof fn law_other_text_is_searched(line: Seq<char>, limit: usize, last: Option<SearchStateModel>)
    requires
        text::trim(line).len() > 0,
        !command_words().contains(text::lowercase_text(command_text(text::trim(line)))),
    ensures
        line_plan(line, limit, last) == ChatPlan::Search(text::trim(line), 0, limit),
{
    assert(command_words()[0] == "help"@);
    assert(command_words()[1] == "?"@);
    assert(command_words()[2] == ""@);
    assert(command_words()[3] == "me"@);
    assert(command_words()[4] == "user"@);
    assert(command_words()[5] == "folder"@);
    assert(command_words()[6] == "search"@);
    assert(command_words()[7] == "more"@);
    assert(command_words()[8] == "link"@);
}

/// `more` continues the search that `searched` recorded: the same query and page size,
/// from where the last page ended, whatever else is typed after it.
pub proof fn law_more_continues_last_search(
    query: Seq<char>,
    limit: usize,
    next_offset: usize,
    arg: Seq<char>,
    line: Seq<char>,
    page: usize,
)
    ensures
        chat_plan(
            "more"@,
            arg,
            line,
            page,
            Some(SearchStateModel { query, next_offset, limit }),
        ) == ChatPlan::Search(query, next_offset, limit),
{
    reveal_strlit("more");
    reveal_strlit("help");
    reveal_strlit("?");
    reveal_strlit("");
    reveal_strlit("me");
    reveal_strlit("user");
    reveal_strlit("folder");
    reveal_strlit("search");
    assert("more"@.len() == 4 && "help"@.len() == 4 && "?"@.len() == 1 && ""@.len() == 0);
    assert("me"@.len() == 2 && "user"@.len() == 4 && "folder"@.len() == 6 && "search"@.len() == 6);
    assert("more"@[0] == 'm' && "help"@[0] == 'h' && "user"@[0] == 'u');
    assert("more"@ != "help"@);
    assert("more"@ != "?"@);
    assert("more"@ != ""@);
    assert("more"@ != "me"@);
    assert("more"@ != "user"@);
    assert("more"@ != "folder"@);
    assert("more"@ != "search"@);
}

} // verus!
