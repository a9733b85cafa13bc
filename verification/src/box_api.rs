//! The Box API as this sidecar uses it: the shapes of its replies, the query strings of
//! the OAuth callback, and the text that is made of search and folder replies.
use vstd::prelude::*;
use crate::text::{self, from_chars, push_chars, push_decimal, push_joined, push_str, to_chars};

verus! {

/// A shared link of a Box item.
pub struct BoxSharedLink {
    pub url: String,
    pub access: String,
}

/// One folder on the path to a Box item.
pub struct BoxPathEntry {
    pub name: String,
}

/// The folders from the root down to a Box item; the first is the root ("All Files").
pub struct BoxPathCollection {
    pub entries: Vec<BoxPathEntry>,
}

/// A file or folder as Box lists it. `item_type` is Box's `type` field (`file` or `folder`).
pub struct BoxItem {
    pub item_type: String,
    pub id: String,
    pub name: String,
    pub shared_link: Option<BoxSharedLink>,
    pub path_collection: Option<BoxPathCollection>,
}

/// One page of the items of a folder.
pub struct BoxFolderItems {
    pub entries: Vec<BoxItem>,
    pub offset: Option<usize>,
    pub total_count: Option<usize>,
}

/// The signed-in user. `user_type` is Box's `type` field.
pub struct BoxUser {
    pub name: String,
    pub login: String,
    pub user_type: String,
}

/// The tokens that Box's OAuth token endpoint returns.
pub struct OAuthTokenResponse {
    pub access_token: String,
    pub refresh_token: String,
    pub expires_in: u64,
}

/// The value of the first `key=value` pair of a query string whose key is `key`
/// (pairs split at `&`, each at its first `=`; a pair without `=` is skipped).
pub open spec fn query_param(q: Seq<char>, key: Seq<char>) -> Option<Seq<char>>
    decreases q.len(),
{
    let end = text::index_of(q, '&');
    let pair = q.take(end);
    let eq = text::index_of(pair, '=');
    if text::char_count(pair, '=') > 0 && pair.take(eq) == key {
        Some(pair.skip(eq + 1))
    } else if end < q.len() {
        proof {
            text::lemma_index_of(q, '&');
        }
        query_param(q.skip(end + 1), key)
    } else {
        None
    }
}

fn index_of_exec(s: &[char], from: usize, to: usize, c: char) -> (r: usize)
    requires
        from <= to <= s@.len(),
    ensures
        r == from + text::index_of(s@.subrange(from as int, to as int), c),
        from <= r <= to,
{
    let mut k = from;
    proof {
        text::lemma_index_of(s@.subrange(from as int, to as int), c);
    }
    while k < to && s[k] != c
        invariant
            from <= k <= to <= s@.len(),
            text::index_of(s@.subrange(from as int, to as int), c) == (k - from)
                + text::index_of(s@.subrange(k as int, to as int), c),
        decreases to - k,
    {
        assert(s@.subrange(k as int, to as int).skip(1) =~= s@.subrange(k + 1, to as int));
        k = k + 1;
    }
    k
}

fn char_count_positive(s: &[char], from: usize, to: usize, c: char) -> (r: bool)
    requires
        from <= to <= s@.len(),
    ensures
        r == (text::char_count(s@.subrange(from as int, to as int), c) > 0),
{
    proof {
        text::lemma_index_of(s@.subrange(from as int, to as int), c);
    }
    index_of_exec(s, from, to, c) < to
}

fn chars_equal(s: &[char], from: usize, to: usize, key: &[char]) -> (r: bool)
    requires
        from <= to <= s@.len(),
    ensures
        r == (s@.subrange(from as int, to as int) == key@),
{
    if to - from != key.len() {
        return false;
    }
    let mut k: usize = 0;
    while k < key.len()
        invariant
            from <= to <= s@.len(),
            to - from == key@.len(),
            k <= key@.len(),
            forall|j: int| 0 <= j < k ==> s@[from + j] == key@[j],
        decreases key.len() - k,
    {
        if s[from + k] != key[k] {
            assert(s@.subrange(from as int, to as int)[k as int] != key@[k as int]);
            return false;
        }
        k = k + 1;
    }
    assert(s@.subrange(from as int, to as int) =~= key@);
    true
}

/// `extract_query_param`: the value of `key` in the query string `query`.
pub fn extract_query_param(query: &str, key: &str) -> (r: Option<String>)
    ensures
        match r {
            Some(v) => query_param(query@, key@) == Some(v@),
            None => query_param(query@, key@) is None,
        },
{
    let q = to_chars(query);
    let k = to_chars(key);
    let n = q.len();
    let mut start: usize = 0;
    assert(q@.skip(0) =~= q@);
    loop
        invariant
            n == q@.len(),
            q@ == query@,
            k@ == key@,
            start <= n,
            query_param(q@, k@) == query_param(q@.skip(start as int), k@),
        decreases n - start,
    {
        let ghost rest = q@.skip(start as int);
        let end = index_of_exec(q.as_slice(), start, n, '&');
        assert(q@.subrange(start as int, n as int) =~= rest);
        let ghost pair = rest.take(end - start);
        assert(q@.subrange(start as int, end as int) =~= pair);
        let eq = index_of_exec(q.as_slice(), start, end, '=');
        if char_count_positive(q.as_slice(), start, end, '=') && chars_equal(
            q.as_slice(),
            start,
            eq,
            k.as_slice(),
        ) {
            proof {
                text::lemma_index_of(q@.subrange(start as int, end as int), '=');
                assert(eq < end);
                assert(q@.subrange(start as int, eq as int) =~= pair.take(eq - start));
                assert(q@.subrange(eq + 1, end as int) =~= pair.skip(eq - start + 1));
            }
            let mut v: Vec<char> = Vec::new();
            let mut j = eq + 1;
            while j < end
                invariant
                    eq + 1 <= j <= end <= n,
                    n == q@.len(),
                    v@ == q@.subrange(eq + 1, j as int),
                decreases end - j,
            {
                v.push(q[j]);
                j = j + 1;
                assert(v@ =~= q@.subrange(eq + 1, j as int));
            }
            return Some(from_chars(v.as_slice()));
        }
        proof {
            assert(q@.subrange(start as int, eq as int) =~= pair.take(eq - start));
        }
        if end >= n {
            return None;
        }
        assert(rest.skip(end - start + 1) =~= q@.skip(end + 1));
        start = end + 1;
    }
}

/// The text of `c` in HTML: `&`, `<`, `>` and `"` become entities.
pub open spec fn escape_char(c: char) -> Seq<char> {
    if c == '&' {
        seq!['&', 'a', 'm', 'p', ';']
    } else if c == '<' {
        seq!['&', 'l', 't', ';']
    } else if c == '>' {
        seq!['&', 'g', 't', ';']
    } else if c == '"' {
        seq!['&', 'q', 'u', 'o', 't', ';']
    } else {
        seq![c]
    }
}

/// `s` escaped for HTML text and attribute values.
pub open spec fn escape_html_spec(s: Seq<char>) -> Seq<char>
    decreases s.len(),
{
    if s.len() == 0 {
        seq![]
    } else {
        escape_char(s[0]) + escape_html_spec(s.skip(1))
    }
}

pub proof fn lemma_escape_html_push(s: Seq<char>, c: char)
    ensures
        escape_html_spec(s.push(c)) == escape_html_spec(s) + escape_char(c),
    decreases s.len(),
{
    if s.len() == 0 {
        assert(s.push(c).skip(1) =~= seq![]);
        assert(escape_html_spec(s.push(c).skip(1)) == Seq::<char>::empty());
        assert(escape_char(c) + Seq::<char>::empty() =~= escape_char(c));
        assert(Seq::<char>::empty() + escape_char(c) =~= escape_char(c));
    } else {
        assert(s.push(c).skip(1) =~= s.skip(1).push(c));
        assert(s.push(c)[0] == s[0]);
        lemma_escape_html_push(s.skip(1), c);
        assert(escape_html_spec(s.push(c)) == escape_char(s[0]) + escape_html_spec(s.skip(1).push(c)));
        assert(escape_char(s[0]) + (escape_html_spec(s.skip(1)) + escape_char(c)) =~= (escape_char(s[0])
            + escape_html_spec(s.skip(1))) + escape_char(c));
    }
}

/// Escaped text holds no markup: no `<`, `>` or `"` is left in it, so it can stand in an
/// HTML attribute value or element text as it is.
pub proof fn law_escaped_text_has_no_markup(s: Seq<char>)
    ensures
        forall|i: int|
            0 <= i < escape_html_spec(s).len() ==> #[trigger] escape_html_spec(s)[i] != '<'
                && escape_html_spec(s)[i] != '>' && escape_html_spec(s)[i] != '"',
    decreases s.len(),
{
    if s.len() > 0 {
        law_escaped_text_has_no_markup(s.skip(1));
        let e = escape_char(s[0]);
        let rest = escape_html_spec(s.skip(1));
        assert forall|i: int|
            0 <= i < escape_html_spec(s).len() implies #[trigger] escape_html_spec(s)[i] != '<'
                && escape_html_spec(s)[i] != '>' && escape_html_spec(s)[i] != '"' by {
            if i < e.len() {
                assert(escape_html_spec(s)[i] == e[i]);
            } else {
                assert(escape_html_spec(s)[i] == rest[i - e.len()]);
            }
        }
    }
}

/// The entity of the `k`-th escaped character: `&amp;`, `&lt;`, `&gt;`, `&quot;`.
pub open spec fn entity(k: int) -> Seq<char> {
    if k == 1 {
        seq!['&', 'a', 'm', 'p', ';']
    } else if k == 2 {
        seq!['&', 'l', 't', ';']
    } else if k == 3 {
        seq!['&', 'g', 't', ';']
    } else {
        seq!['&', 'q', 'u', 'o', 't', ';']
    }
}

/// The `k`-th escaped character: `&`, `<`, `>`, `"`.
pub open spec fn special(k: int) -> char {
    if k == 1 {
        '&'
    } else if k == 2 {
        '<'
    } else if k == 3 {
        '>'
    } else {
        '"'
    }
}

/// `c` with only the first `k` of the escaped characters escaped.
pub open spec fn escape_char_upto(c: char, k: int) -> Seq<char> {
    if 1 <= k && c == '&' {
        entity(1)
    } else if 2 <= k && c == '<' {
        entity(2)
    } else if 3 <= k && c == '>' {
        entity(3)
    } else if 4 <= k && c == '"' {
        entity(4)
    } else {
        seq![c]
    }
}

/// `s` with only the first `k` of the escaped characters escaped: `escape_upto(s, 4)` is
/// the escaped text, `escape_upto(s, 0)` the text itself.
pub open spec fn escape_upto(s: Seq<char>, k: int) -> Seq<char>
    decreases s.len(),
{
    if s.len() == 0 {
        seq![]
    } else {
        escape_char_upto(s[0], k) + escape_upto(s.skip(1), k)
    }
}

/// Replacing in `x + y` leaves `x` as it is where no match of `pat` starts in `x`: only
/// its first character may equal the first of `pat`, and then its second differs.
proof fn lemma_replace_after(x: Seq<char>, y: Seq<char>, pat: Seq<char>, with: Seq<char>)
    requires
        pat.len() > 1,
        forall|i: int| 1 <= i < x.len() ==> #[trigger] x[i] != pat[0],
        x.len() > 0 ==> x[0] != pat[0] || (x.len() > 1 && x[1] != pat[1]),
    ensures
        text::replace_all(x + y, pat, with) == x + text::replace_all(y, pat, with),
    decreases x.len(),
{
    if x.len() > 0 {
        let s = x + y;
        if s.len() >= pat.len() {
            if x[0] != pat[0] {
                assert(s.take(pat.len() as int)[0] == x[0]);
            } else {
                assert(s.take(pat.len() as int)[1] == x[1]);
            }
            assert(s.take(pat.len() as int) != pat);
        }
        let x1 = x.skip(1);
        assert forall|i: int| 1 <= i < x1.len() implies #[trigger] x1[i] != pat[0] by {
            assert(x1[i] == x[i + 1]);
        }
        if x1.len() > 0 {
            assert(x1[0] == x[1]);
        }
        lemma_replace_after(x1, y, pat, with);
        assert(s.skip(1) =~= x1 + y);
        assert(seq![s[0]] + (x1 + text::replace_all(y, pat, with)) =~= x + text::replace_all(
            y,
            pat,
            with,
        ));
    }
}

/// No match of the `k`-th entity starts inside the escape of a character other than the
/// `k`-th.
proof fn lemma_no_match_in_escape(c: char, k: int)
    requires
        1 <= k <= 4,
        c != special(k),
    ensures
        forall|i: int|
            1 <= i < escape_char_upto(c, k).len() ==> #[trigger] escape_char_upto(c, k)[i] != entity(k)[0],
        escape_char_upto(c, k)[0] != entity(k)[0] || (escape_char_upto(c, k).len() > 1
            && escape_char_upto(c, k)[1] != entity(k)[1]),
{
}

/// Undoing the `k`-th entity of a text escaped up to `k` gives it escaped up to `k - 1`.
proof fn lemma_unescape_step(s: Seq<char>, k: int)
    requires
        1 <= k <= 4,
    ensures
        text::replace_all(escape_upto(s, k), entity(k), seq![special(k)]) == escape_upto(s, k - 1),
    decreases s.len(),
{
    let pat = entity(k);
    if s.len() == 0 {
    } else {
        let c = s[0];
        let rest = escape_upto(s.skip(1), k);
        lemma_unescape_step(s.skip(1), k);
        if c == special(k) {
            assert(escape_char_upto(c, k) == pat);
            assert((pat + rest).take(pat.len() as int) =~= pat);
            assert((pat + rest).skip(pat.len() as int) =~= rest);
            assert(escape_char_upto(c, k - 1) == seq![c]);
        } else {
            let x = escape_char_upto(c, k);
            assert(x == escape_char_upto(c, k - 1));
            lemma_no_match_in_escape(c, k);
            lemma_replace_after(x, rest, pat, seq![special(k)]);
        }
    }
}

proof fn lemma_escape_is_upto_all(s: Seq<char>)
    ensures
        escape_html_spec(s) == escape_upto(s, 4),
    decreases s.len(),
{
    if s.len() > 0 {
        lemma_escape_is_upto_all(s.skip(1));
        assert(escape_char(s[0]) == escape_char_upto(s[0], 4));
    }
}

proof fn lemma_upto_none(s: Seq<char>)
    ensures
        escape_upto(s, 0) == s,
    decreases s.len(),
{
    if s.len() > 0 {
        lemma_upto_none(s.skip(1));
        assert(seq![s[0]] + s.skip(1) =~= s);
    }
}

/// Escaping loses nothing: undoing the entities, `&quot;`, then `&gt;`, then `&lt;`, then
/// `&amp;`, gives the text back.
pub proof fn law_unescaping_gives_the_text_back(s: Seq<char>)
    ensures
        text::replace_all(
            text::replace_all(
                text::replace_all(
                    text::replace_all(escape_html_spec(s), entity(4), seq!['"']),
                    entity(3),
                    seq!['>'],
                ),
                entity(2),
                seq!['<'],
            ),
            entity(1),
            seq!['&'],
        ) == s,
{
    lemma_escape_is_upto_all(s);
    lemma_unescape_step(s, 4);
    lemma_unescape_step(s, 3);
    lemma_unescape_step(s, 2);
    lemma_unescape_step(s, 1);
    lemma_upto_none(s);
}

pub(crate) fn escape_html_chars(s: &[char]) -> (r: Vec<char>)
    ensures
        r@ == escape_html_spec(s@),
{
    let mut out: Vec<char> = Vec::new();
    let mut i: usize = 0;
    while i < s.len()
        invariant
            i <= s@.len(),
            out@ == escape_html_spec(s@.take(i as int)),
        decreases s.len() - i,
    {
        let c = s[i];
        proof {
            assert(s@.take(i + 1) =~= s@.take(i as int).push(c));
            lemma_escape_html_push(s@.take(i as int), c);
        }
        if c == '&' {
            push_chars(&mut out, &['&', 'a', 'm', 'p', ';']);
        } else if c == '<' {
            push_chars(&mut out, &['&', 'l', 't', ';']);
        } else if c == '>' {
            push_chars(&mut out, &['&', 'g', 't', ';']);
        } else if c == '"' {
            push_chars(&mut out, &['&', 'q', 'u', 'o', 't', ';']);
        } else {
            out.push(c);
        }
        assert(out@ =~= escape_html_spec(s@.take(i + 1)));
        i = i + 1;
    }
    assert(s@.take(s@.len() as int) =~= s@);
    out
}

/// `escape_html`: `text` with `&`, `<`, `>` and `"` replaced by their HTML entities.
pub fn escape_html(text: &str) -> (r: String)
    ensures
        r@ == escape_html_spec(text@),
{
    let v = to_chars(text);
    let e = escape_html_chars(v.as_slice());
    from_chars(e.as_slice())
}

/// One page of Box search results.
pub struct BoxSearchResponse {
    pub entries: Vec<BoxItem>,
    pub offset: Option<usize>,
    pub total_count: Option<usize>,
}

/// A page of search results as the chat shows it.
pub struct SearchResult {
    pub reply: String,
    pub offset: usize,
    pub display_end: usize,
    pub next_offset: usize,
    pub total_count: usize,
    pub has_more: bool,
}

/// The names of the folders of a path collection.
pub open spec fn path_names(entries: Seq<BoxPathEntry>) -> Seq<Seq<char>> {
    entries.map_values(|e: BoxPathEntry| e.name@)
}

/// Where an item lives: the folders above it without the root, joined with `/`, then its name.
pub open spec fn item_path_spec(item: BoxItem) -> Seq<char> {
    match item.path_collection {
        Some(pc) => if pc.entries@.len() > 1 {
            text::join(path_names(pc.entries@).skip(1), "/"@) + "/"@ + item.name@
        } else {
            item.name@
        },
        None => item.name@,
    }
}

/// The web address of an item: its shared link, else its page in the Box web app.
pub open spec fn item_url_spec(item: BoxItem) -> Seq<char> {
    match item.shared_link {
        Some(l) => l.url@,
        None => if item.item_type@ == "folder"@ {
            "https://app.box.com/folder/"@ + item.id@
        } else {
            "https://app.box.com/file/"@ + item.id@
        },
    }
}

/// One line of a search reply: a link to the item, labelled with its path.
pub open spec fn search_line_spec(item: BoxItem) -> Seq<char> {
    "<a href=\""@ + escape_html_spec(item_url_spec(item)) + "\" target=\"_blank\">"@
        + escape_html_spec(item_path_spec(item)) + "</a>"@
}

/// The lines of a search reply, one per item.
pub open spec fn search_lines(entries: Seq<BoxItem>) -> Seq<Seq<char>> {
    entries.map_values(|i: BoxItem| search_line_spec(i))
}

/// The reply text for a page of search results.
pub open spec fn search_reply_spec(entries: Seq<BoxItem>) -> Seq<char> {
    if entries.len() == 0 {
        "検索結果が見つかりませんでした。"@
    } else {
        text::join(search_lines(entries), "\n"@)
    }
}

/// The path of `item` as a search reply shows it.
pub fn item_path(item: &BoxItem) -> (r: String)
    ensures
        r@ == item_path_spec(*item),
{
    match &item.path_collection {
        Some(pc) => {
            if pc.entries.len() > 1 {
                let mut names: Vec<String> = Vec::new();
                let mut k: usize = 1;
                while k < pc.entries.len()
                    invariant
                        1 <= k <= pc.entries@.len(),
                        names@.len() == k - 1,
                        forall|j: int|
                            0 <= j < names@.len() ==> #[trigger] names@[j]@ == pc.entries@[j
                                + 1].name@,
                    decreases pc.entries.len() - k,
                {
                    names.push(pc.entries[k].name.clone());
                    k = k + 1;
                }
                assert(text::texts(names@) =~= path_names(pc.entries@).skip(1));
                let mut v: Vec<char> = Vec::new();
                push_joined(&mut v, &names, "/");
                push_str(&mut v, "/");
                push_str(&mut v, item.name.as_str());
                from_chars(v.as_slice())
            } else {
                item.name.clone()
            }
        },
        None => item.name.clone(),
    }
}

/// The web address of `item`.
pub fn item_url(item: &BoxItem) -> (r: String)
    ensures
        r@ == item_url_spec(*item),
{
    match &item.shared_link {
        Some(l) => l.url.clone(),
        None => {
            let mut v: Vec<char> = Vec::new();
            if text::equal_text(item.item_type.as_str(), "folder") {
                push_str(&mut v, "https://app.box.com/folder/");
            } else {
                push_str(&mut v, "https://app.box.com/file/");
            }
            push_str(&mut v, item.id.as_str());
            from_chars(v.as_slice())
        },
    }
}

/// One line of a search reply.
pub fn search_line(item: &BoxItem) -> (r: String)
    ensures
        r@ == search_line_spec(*item),
{
    let url = to_chars(item_url(item).as_str());
    let path = to_chars(item_path(item).as_str());
    let mut v: Vec<char> = Vec::new();
    push_str(&mut v, "<a href=\"");
    push_chars(&mut v, escape_html_chars(url.as_slice()).as_slice());
    push_str(&mut v, "\" target=\"_blank\">");
    push_chars(&mut v, escape_html_chars(path.as_slice()).as_slice());
    push_str(&mut v, "</a>");
    from_chars(v.as_slice())
}

/// The reply text for the items of a page of search results.
pub fn search_reply(entries: &Vec<BoxItem>) -> (r: String)
    ensures
        r@ == search_reply_spec(entries@),
{
    if entries.len() == 0 {
        return "検索結果が見つかりませんでした。".to_string();
    }
    let mut lines: Vec<String> = Vec::new();
    let mut k: usize = 0;
    while k < entries.len()
        invariant
            k <= entries@.len(),
            lines@.len() == k,
            forall|j: int| 0 <= j < k ==> #[trigger] lines@[j]@ == search_line_spec(entries@[j]),
        decreases entries.len() - k,
    {
        lines.push(search_line(&entries[k]));
        k = k + 1;
    }
    assert(text::texts(lines@) =~= search_lines(entries@));
    let mut v: Vec<char> = Vec::new();
    push_joined(&mut v, &lines, "\n");
    assert(v@ =~= search_reply_spec(entries@));
    from_chars(v.as_slice())
}

/// The offset a search page starts at: the one Box reports, else the one asked for.
pub open spec fn response_offset(asked: usize, data: BoxSearchResponse) -> usize {
    match data.offset {
        Some(o) => o,
        None => asked,
    }
}

/// `search_box` after the request: the reply for a page of results asked for at `offset`
/// with `limit` items per page.
pub fn search_result(offset: usize, limit: usize, data: &BoxSearchResponse) -> (r: SearchResult)
    requires
        response_offset(offset, *data) + data.entries@.len() <= usize::MAX,
        response_offset(offset, *data) + limit <= usize::MAX,
    ensures
        r.offset == response_offset(offset, *data),
        r.total_count == (match data.total_count {
            Some(t) => t,
            None => 0,
        }),
        r.display_end == (if r.offset + data.entries@.len() < r.total_count {
            r.offset + data.entries@.len()
        } else {
            r.total_count as int
        }),
        r.next_offset == r.offset + limit,
        r.has_more == (r.next_offset < r.total_count),
        r.reply@ == search_reply_spec(data.entries@),
{
    let response_offset = match data.offset {
        Some(o) => o,
        None => offset,
    };
    let total_count = match data.total_count {
        Some(t) => t,
        None => 0,
    };
    let end = response_offset + data.entries.len();
    let display_end = if end < total_count {
        end
    } else {
        total_count
    };
    let next_offset = response_offset + limit;
    SearchResult {
        reply: search_reply(&data.entries),
        offset: response_offset,
        display_end,
        next_offset,
        total_count,
        has_more: next_offset < total_count,
    }
}

/// The pairs of a list of string pairs, as text.
pub open spec fn pair_texts(v: Seq<(String, String)>) -> Seq<(Seq<char>, Seq<char>)> {
    v.map_values(|p: (String, String)| (p.0@, p.1@))
}

/// What `url::Url::parse_with_params` gives for `base` and the query pairs `params`:
/// the serialization of the parsed address with the pairs appended, form-encoded, or `None`
/// where `base` does not parse.
pub uninterp spec fn url_with_params(base: Seq<char>, params: Seq<(Seq<char>, Seq<char>)>) -> Option<Seq<char>>;

/// `reqwest::Url::parse_with_params` (the `url` crate), serialized. Its result is the one
/// named by `url_with_params`; the WHATWG parsing and form encoding are not restated here.
#[verifier::external_body]
fn parse_with_params(base: &str, params: &Vec<(String, String)>) -> (r: Option<String>)
    ensures
        match r {
            Some(u) => url_with_params(base@, pair_texts(params@)) == Some(u@),
            None => url_with_params(base@, pair_texts(params@)) is None,
        },
{
    reqwest::Url::parse_with_params(base, params.iter()).ok().map(String::from)
}

/// The query pairs of a Box search for `query` from `offset`, `limit` items per page.
pub open spec fn search_params(query: Seq<char>, offset: usize, limit: usize) -> Seq<
    (Seq<char>, Seq<char>),
> {
    seq![
        ("query"@, query),
        ("limit"@, text::decimal(limit as nat)),
        ("offset"@, text::decimal(offset as nat)),
        ("fields"@, "type,id,name,path_collection,shared_link"@),
    ]
}

/// The decimal text of `n` as a new string.
pub fn decimal_string(n: usize) -> (r: String)
    ensures
        r@ == text::decimal(n as nat),
{
    let mut v: Vec<char> = Vec::new();
    push_decimal(&mut v, n as u64);
    assert(v@ =~= text::decimal(n as nat));
    from_chars(v.as_slice())
}

/// `search_box` before the request: the address of the Box search for `query`.
pub fn search_url(query: &str, offset: usize, limit: usize) -> (r: Option<String>)
    ensures
        match r {
            Some(u) => url_with_params("https://api.box.com/2.0/search"@, search_params(query@, offset, limit)) == Some(u@),
            None => url_with_params("https://api.box.com/2.0/search"@, search_params(query@, offset, limit)) is None,
        },
{
    let mut params: Vec<(String, String)> = Vec::new();
    params.push(("query".to_string(), query.to_string()));
    params.push(("limit".to_string(), decimal_string(limit)));
    params.push(("offset".to_string(), decimal_string(offset)));
    params.push(("fields".to_string(), "type,id,name,path_collection,shared_link".to_string()));
    assert(pair_texts(params@) =~= search_params(query@, offset, limit));
    parse_with_params("https://api.box.com/2.0/search", &params)
}

} // verus!
