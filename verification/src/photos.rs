//! The photo job: which folder a link names, which items of a folder listing are images or
//! subfolders, when a listing has more pages, how a found image becomes a record, and the
//! texts that report progress and the outcome. The requests and files are the caller's.
use vstd::prelude::*;
use crate::box_api::{self, BoxFolderItems, BoxItem, BoxPathCollection};
use crate::charclass;
use crate::coordinate;
use crate::text::{self, from_chars, push_decimal, push_joined, push_str, to_chars};

verus! {

/// `/folder/`, the part of a Box web address before a folder's id.
pub open spec fn folder_marker() -> Seq<char> {
    seq!['/', 'f', 'o', 'l', 'd', 'e', 'r', '/']
}

/// The pattern `/folder/(\d+)` matches at `p`.
pub open spec fn folder_match_at(s: Seq<char>, p: int) -> bool {
    0 <= p && p + 8 <= s.len() && s.subrange(p, p + 8) == folder_marker() && coordinate::digit_at(
        s,
        p + 8,
    )
}

/// The leftmost position from `p` on where `/folder/(\d+)` matches.
pub open spec fn first_folder_match(s: Seq<char>, p: int) -> Option<int>
    decreases s.len() - p,
{
    if p < 0 || p >= s.len() {
        None
    } else if folder_match_at(s, p) {
        Some(p)
    } else {
        first_folder_match(s, p + 1)
    }
}

pub proof fn lemma_first_folder_match(s: Seq<char>, p: int)
    requires
        0 <= p,
    ensures
        match first_folder_match(s, p) {
            Some(q) => p <= q < s.len() && folder_match_at(s, q) && forall|j: int|
                p <= j < q ==> !#[trigger] folder_match_at(s, j),
            None => forall|j: int| p <= j ==> !#[trigger] folder_match_at(s, j),
        },
    decreases s.len() - p,
{
    if p < s.len() && !folder_match_at(s, p) {
        lemma_first_folder_match(s, p + 1);
    }
}

/// `extract_folder_id`: the digits after the first `/folder/` that digits follow
/// (the group of `/folder/(\d+)`), else the whole text.
pub open spec fn folder_id_spec(s: Seq<char>) -> Seq<char> {
    match first_folder_match(s, 0) {
        Some(p) => s.subrange(p + 8, coordinate::digit_run_end(s, p + 8)),
        None => s,
    }
}

/// The folder id in a Box folder link, or the text itself (an id given as is).
pub fn extract_folder_id(url: &str) -> (r: String)
    ensures
        r@ == folder_id_spec(url@),
{
    let c = to_chars(url);
    let n = c.len();
    let marker: [char; 8] = ['/', 'f', 'o', 'l', 'd', 'e', 'r', '/'];
    assert(marker@ =~= folder_marker());
    proof {
        lemma_first_folder_match(c@, 0);
    }
    let mut p: usize = 0;
    while p < n
        invariant
            n == c@.len(),
            c@ == url@,
            marker@ == folder_marker(),
            p <= n,
            forall|j: int| 0 <= j < p ==> !#[trigger] folder_match_at(c@, j),
        decreases n - p,
    {
        if n - p >= 9 && text::equal_chars(&c.as_slice()[p..p + 8], marker.as_slice())
            && charclass::is_digit_char(c[p + 8]) {
            proof {
                assert(folder_match_at(c@, p as int));
                lemma_first_folder_match(c@, 0);
                coordinate::lemma_digit_run_end(c@, p + 8);
            }
            let mut e = p + 8;
            while e < n && charclass::is_digit_char(c[e])
                invariant
                    p + 8 <= e <= n,
                    n == c@.len(),
                    coordinate::digit_run_end(c@, p + 8) == coordinate::digit_run_end(c@, e as int),
                decreases n - e,
            {
                e = e + 1;
            }
            proof {
                assert(coordinate::digit_run_end(c@, e as int) == e);
            }
            return from_chars(&c.as_slice()[p + 8..e]);
        }
        proof {
            if p + 8 <= n && !(n - p >= 9) {
                assert(!coordinate::digit_at(c@, p + 8));
            }
        }
        p = p + 1;
    }
    proof {
        lemma_first_folder_match(c@, 0);
        match first_folder_match(c@, 0) {
            Some(q) => {
                assert(!folder_match_at(c@, q));
            },
            None => {},
        }
    }
    url.to_string()
}

/// A folder id given as it is, or any text without a `/`, comes back unchanged: only a
/// link names a folder by its `/folder/` part.
pub proof fn law_plain_id_is_kept(s: Seq<char>)
    requires
        forall|i: int| 0 <= i < s.len() ==> s[i] != '/',
    ensures
        folder_id_spec(s) == s,
{
    lemma_first_folder_match(s, 0);
    match first_folder_match(s, 0) {
        Some(q) => {
            assert(s.subrange(q, q + 8)[0] == folder_marker()[0]);
            assert(s[q] == '/');
        },
        None => {},
    }
}

/// Taking the folder id out of a link twice gives what taking it once gives: the id is
/// kept as it is.
pub proof fn law_folder_id_is_idempotent(s: Seq<char>)
    ensures
        folder_id_spec(folder_id_spec(s)) == folder_id_spec(s),
{
    lemma_first_folder_match(s, 0);
    match first_folder_match(s, 0) {
        Some(p) => {
            coordinate::lemma_digit_run_end(s, p + 8);
            let id = s.subrange(p + 8, coordinate::digit_run_end(s, p + 8));
            assert forall|i: int| 0 <= i < id.len() implies id[i] != '/' by {
                assert(id[i] == s[p + 8 + i]);
                assert(coordinate::digit_at(s, p + 8 + i));
            }
            law_plain_id_is_kept(id);
        },
        None => {},
    }
}

/// `s` ends with `t`.
pub open spec fn ends_with(s: Seq<char>, t: Seq<char>) -> bool {
    t.len() <= s.len() && s.skip(s.len() - t.len()) == t
}

fn has_suffix(s: &[char], t: &str) -> (r: bool)
    ensures
        r == ends_with(s@, t@),
{
    let w = to_chars(t);
    if w.len() > s.len() {
        return false;
    }
    let k = s.len() - w.len();
    let r = text::equal_chars(&s[k..s.len()], w.as_slice());
    assert(s@.subrange(k as int, s@.len() as int) =~= s@.skip(k as int));
    r
}

/// A file name that the photo job reads: `.jpg`, `.jpeg`, `.tif`, `.tiff` or `.heic`,
/// compared after `str::to_lowercase`.
pub open spec fn image_name_spec(name: Seq<char>) -> bool {
    let l = text::lowercase_text(name);
    ends_with(l, ".jpg"@) || ends_with(l, ".jpeg"@) || ends_with(l, ".tif"@) || ends_with(
        l,
        ".tiff"@,
    ) || ends_with(l, ".heic"@)
}

/// Whether the photo job reads a file of this name.
pub fn is_image_name(name: &str) -> (r: bool)
    ensures
        r == image_name_spec(name@),
{
    let lower = text::to_lowercase(name);
    let l = to_chars(lower.as_str());
    has_suffix(l.as_slice(), ".jpg") || has_suffix(l.as_slice(), ".jpeg") || has_suffix(
        l.as_slice(),
        ".tif",
    ) || has_suffix(l.as_slice(), ".tiff") || has_suffix(l.as_slice(), ".heic")
}

/// What the folder scan does with one item of a listing.
#[derive(PartialEq, Eq, Structural, Clone, Copy, Debug)]
pub enum ItemKind {
    /// An image file: it is collected with the path of the folder it is in.
    Image,
    /// A folder: it is scanned in turn, before the items after it.
    Folder,
    /// Anything else: it is passed over.
    Other,
}

pub open spec fn item_kind_spec(item: BoxItem) -> ItemKind {
    if item.item_type@ == "file"@ {
        if image_name_spec(item.name@) {
            ItemKind::Image
        } else {
            ItemKind::Other
        }
    } else if item.item_type@ == "folder"@ {
        ItemKind::Folder
    } else {
        ItemKind::Other
    }
}

/// What the folder scan does with `item`.
pub fn item_kind(item: &BoxItem) -> (r: ItemKind)
    ensures
        r == item_kind_spec(*item),
{
    if text::equal_text(item.item_type.as_str(), "file") {
        if is_image_name(item.name.as_str()) {
            ItemKind::Image
        } else {
            ItemKind::Other
        }
    } else if text::equal_text(item.item_type.as_str(), "folder") {
        ItemKind::Folder
    } else {
        ItemKind::Other
    }
}

/// The path of `name` inside the folder at `parent`: `parent/name`, or `name` at the top.
pub open spec fn child_path_spec(parent: Seq<char>, name: Seq<char>) -> Seq<char> {
    if parent.len() == 0 {
        name
    } else {
        parent + "/"@ + name
    }
}

/// The path of `name` inside the folder at `parent`.
pub fn child_path(parent: &str, name: &str) -> (r: String)
    ensures
        r@ == child_path_spec(parent@, name@),
{
    if text::is_empty_text(parent) {
        name.to_string()
    } else {
        let mut v: Vec<char> = Vec::new();
        push_str(&mut v, parent);
        push_str(&mut v, "/");
        push_str(&mut v, name);
        from_chars(v.as_slice())
    }
}

/// The name of a folder path in progress messages: `ルート` for the top.
pub open spec fn display_path_spec(parent: Seq<char>) -> Seq<char> {
    if parent.len() == 0 {
        "ルート"@
    } else {
        parent
    }
}

pub fn display_path(parent: &str) -> (r: String)
    ensures
        r@ == display_path_spec(parent@),
{
    if text::is_empty_text(parent) {
        "ルート".to_string()
    } else {
        parent.to_string()
    }
}

/// The page size of a folder listing.
pub const FOLDER_PAGE_LIMIT: usize = 1000;

pub open spec fn folder_page_url_spec(folder_id: Seq<char>, limit: usize, offset: usize) -> Seq<
    char,
> {
    "https://api.box.com/2.0/folders/"@ + folder_id + "/items?limit="@ + text::decimal(
        limit as nat,
    ) + "&offset="@ + text::decimal(offset as nat) + "&fields=type,id,name"@
}

/// The address of one page of a folder listing.
pub fn folder_page_url(folder_id: &str, limit: usize, offset: usize) -> (r: String)
    ensures
        r@ == folder_page_url_spec(folder_id@, limit, offset),
{
    let mut v: Vec<char> = Vec::new();
    push_str(&mut v, "https://api.box.com/2.0/folders/");
    push_str(&mut v, folder_id);
    push_str(&mut v, "/items?limit=");
    push_decimal(&mut v, limit as u64);
    push_str(&mut v, "&offset=");
    push_decimal(&mut v, offset as u64);
    push_str(&mut v, "&fields=type,id,name");
    assert(v@ =~= folder_page_url_spec(folder_id@, limit, offset));
    from_chars(v.as_slice())
}

/// A listing page is the last: it came short of the page size, or it reaches the total that
/// Box reports (an absent offset or total counting as 0).
pub open spec fn page_is_last_spec(count: usize, limit: usize, page: BoxFolderItems) -> bool {
    let o = match page.offset {
        Some(o) => o,
        None => 0,
    };
    let t = match page.total_count {
        Some(t) => t,
        None => 0,
    };
    count < limit || o + count >= t
}

/// Whether the scan of a folder stops after this page of `limit` items.
pub fn page_is_last(limit: usize, page: &BoxFolderItems) -> (r: bool)
    ensures
        r == page_is_last_spec(page.entries@.len() as usize, limit, *page),
{
    let count = page.entries.len();
    let o = match page.offset {
        Some(o) => o,
        None => 0,
    };
    let t = match page.total_count {
        Some(t) => t,
        None => 0,
    };
    count < limit || count >= t || o >= t - count
}

/// A folder with its name and where it is.
pub struct FolderInfo {
    pub name: String,
    pub path_collection: BoxPathCollection,
}

pub open spec fn folder_info_url_spec(folder_id: Seq<char>) -> Seq<char> {
    "https://api.box.com/2.0/folders/"@ + folder_id + "?fields=name,path_collection"@
}

/// The address of a folder's name and path.
pub fn folder_info_url(folder_id: &str) -> (r: String)
    ensures
        r@ == folder_info_url_spec(folder_id@),
{
    let mut v: Vec<char> = Vec::new();
    push_str(&mut v, "https://api.box.com/2.0/folders/");
    push_str(&mut v, folder_id);
    push_str(&mut v, "?fields=name,path_collection");
    assert(v@ =~= folder_info_url_spec(folder_id@));
    from_chars(v.as_slice())
}

/// The path of a folder that its images are named under: the folders above it without the
/// root, then its own name, joined with `/`.
pub open spec fn folder_prefix_spec(info: FolderInfo) -> Seq<char> {
    let names = box_api::path_names(info.path_collection.entries@);
    let above = if names.len() > 0 {
        names.skip(1)
    } else {
        names
    };
    text::join(above.push(info.name@), "/"@)
}

/// `fetch_folder_prefix` after the request.
pub fn folder_prefix(info: &FolderInfo) -> (r: String)
    ensures
        r@ == folder_prefix_spec(*info),
{
    let entries = &info.path_collection.entries;
    let mut parts: Vec<String> = Vec::new();
    let mut k: usize = 1;
    while k < entries.len()
        invariant
            1 <= k,
            k <= entries@.len() || (entries@.len() == 0 && k == 1),
            parts@.len() == k - 1,
            forall|j: int| 0 <= j < parts@.len() ==> #[trigger] parts@[j]@ == entries@[j + 1].name@,
        decreases entries.len() - k,
    {
        parts.push(entries[k].name.clone());
        k = k + 1;
    }
    parts.push(info.name.clone());
    proof {
        let names = box_api::path_names(entries@);
        let above = if names.len() > 0 {
            names.skip(1)
        } else {
            names
        };
        assert(text::texts(parts@) =~= above.push(info.name@));
    }
    let mut v: Vec<char> = Vec::new();
    push_joined(&mut v, &parts, "/");
    assert(v@ =~= folder_prefix_spec(*info));
    from_chars(v.as_slice())
}

/// The parts of a photo record that are not its location.
pub struct PhotoEntry {
    pub name: String,
    pub full_name: String,
    pub url: String,
}

pub open spec fn file_url_spec(id: Seq<char>) -> Seq<char> {
    "https://app.box.com/file/"@ + id
}

/// The record of an image found in the folder at `parent_path`.
pub fn photo_entry(file: &BoxItem, parent_path: &str) -> (r: PhotoEntry)
    ensures
        r.name@ == file.name@,
        r.full_name@ == child_path_spec(parent_path@, file.name@),
        r.url@ == file_url_spec(file.id@),
{
    let mut v: Vec<char> = Vec::new();
    push_str(&mut v, "https://app.box.com/file/");
    push_str(&mut v, file.id.as_str());
    PhotoEntry {
        name: file.name.clone(),
        full_name: child_path(parent_path, file.name.as_str()),
        url: from_chars(v.as_slice()),
    }
}

/// The progress after `done` of `total` images: from 5 to 95.
pub open spec fn progress_percent_spec(done: nat, total: nat) -> nat {
    5 + done * 90 / (if total > 1 {
        total
    } else {
        1
    })
}

/// The progress after `done` of `total` images.
pub fn progress_percent(done: usize, total: usize) -> (r: u8)
    requires
        done <= total,
        total <= usize::MAX / 90,
    ensures
        r as nat == progress_percent_spec(done as nat, total as nat),
        5 <= r <= 95,
{
    let d = if total > 1 {
        total
    } else {
        1
    };
    assert(done * 90 <= total * 90) by (nonlinear_arith)
        requires
            done <= total,
    ;
    assert(done * 90 / (d as int) <= 90) by (nonlinear_arith)
        requires
            done <= total,
            d >= 1,
            total <= d,
    ;
    let q = done * 90 / d;
    5 + (q as u8)
}

/// The message while the folder links are scanned: `i` of `n`, from 0.
pub fn scanning_text(i: usize, n: usize) -> (r: String)
    requires
        i < usize::MAX,
    ensures
        r@ == text::decimal((i + 1) as nat) + " / "@ + text::decimal(n as nat)
            + " フォルダをスキャン中..."@,
{
    let mut v: Vec<char> = Vec::new();
    push_decimal(&mut v, (i + 1) as u64);
    push_str(&mut v, " / ");
    push_decimal(&mut v, n as u64);
    push_str(&mut v, " フォルダをスキャン中...");
    from_chars(v.as_slice())
}

/// The message when a folder is opened.
pub fn opening_folder_text(display: &str) -> (r: String)
    ensures
        r@ == "フォルダを取得中: "@ + display@,
{
    let mut v: Vec<char> = Vec::new();
    push_str(&mut v, "フォルダを取得中: ");
    push_str(&mut v, display);
    from_chars(v.as_slice())
}

/// The message before each page of a folder: how many images were found in it so far.
pub fn found_in_folder_text(count: usize, display: &str) -> (r: String)
    ensures
        r@ == text::decimal(count as nat) + "件の画像を発見（"@ + display@ + "）"@,
{
    let mut v: Vec<char> = Vec::new();
    push_decimal(&mut v, count as u64);
    push_str(&mut v, "件の画像を発見（");
    push_str(&mut v, display);
    push_str(&mut v, "）");
    from_chars(v.as_slice())
}

/// The message when the scan is done.
pub fn found_total_text(total: usize) -> (r: String)
    ensures
        r@ == text::decimal(total as nat) + "件の画像ファイルが見つかりました。メタデータを取得中..."@,
{
    let mut v: Vec<char> = Vec::new();
    push_decimal(&mut v, total as u64);
    push_str(&mut v, "件の画像ファイルが見つかりました。メタデータを取得中...");
    from_chars(v.as_slice())
}

/// The message after each image.
pub fn processing_text(done: usize, total: usize) -> (r: String)
    ensures
        r@ == text::decimal(done as nat) + " / "@ + text::decimal(total as nat)
            + " 件の画像を処理中..."@,
{
    let mut v: Vec<char> = Vec::new();
    push_decimal(&mut v, done as u64);
    push_str(&mut v, " / ");
    push_decimal(&mut v, total as u64);
    push_str(&mut v, " 件の画像を処理中...");
    from_chars(v.as_slice())
}

/// How a failed metadata fetch is reported: the file's name, then the error.
pub fn fetch_error_text(name: &str, error: &str) -> (r: String)
    ensures
        r@ == name@ + ": "@ + error@,
{
    let mut v: Vec<char> = Vec::new();
    push_str(&mut v, name);
    push_str(&mut v, ": ");
    push_str(&mut v, error);
    from_chars(v.as_slice())
}

/// The message of a finished job: how many images, how many with a location, what was
/// written, and the failed fetches with the first of them.
pub open spec fn process_message_spec(
    records: nat,
    located: nat,
    wrote_geojson: bool,
    errors: Seq<Seq<char>>,
) -> Seq<char> {
    let head = if records == 0 {
        "対象ファイルが見つかりませんでした。"@
    } else if wrote_geojson {
        text::decimal(records) + "件の画像を処理しました（位置情報あり "@ + text::decimal(located)
            + "件）。CSVとGeoJSONを出力しました。"@
    } else {
        text::decimal(records) + "件の画像を処理しました。位置情報が含まれていませんでした。"@
    };
    if errors.len() > 0 {
        head + " "@ + text::decimal(errors.len()) + "件のメタデータ取得に失敗しました（例: "@
            + errors[0] + "）。"@
    } else {
        head
    }
}

/// The error that ends a job whose stop was requested.
pub open spec fn stopped_text() -> Seq<char> {
    "処理を停止しました"@
}

/// After a progress report: the job goes on where the report says so (`proceed`), and
/// otherwise ends with the stop error.
pub fn continue_or_stop(proceed: bool) -> (r: Result<(), String>)
    ensures
        proceed <==> r is Ok,
        r matches Err(e) ==> e@ == stopped_text(),
{
    if proceed {
        Ok(())
    } else {
        Err("処理を停止しました".to_string())
    }
}

/// The message of a finished job.
pub fn process_message(
    records: usize,
    located: usize,
    wrote_geojson: bool,
    errors: &Vec<String>,
) -> (r: String)
    ensures
        r@ == process_message_spec(
            records as nat,
            located as nat,
            wrote_geojson,
            text::texts(errors@),
        ),
{
    let mut v: Vec<char> = Vec::new();
    if records == 0 {
        push_str(&mut v, "対象ファイルが見つかりませんでした。");
    } else if wrote_geojson {
        push_decimal(&mut v, records as u64);
        push_str(&mut v, "件の画像を処理しました（位置情報あり ");
        push_decimal(&mut v, located as u64);
        push_str(&mut v, "件）。CSVとGeoJSONを出力しました。");
    } else {
        push_decimal(&mut v, records as u64);
        push_str(&mut v, "件の画像を処理しました。位置情報が含まれていませんでした。");
    }
    if errors.len() > 0 {
        push_str(&mut v, " ");
        push_decimal(&mut v, errors.len() as u64);
        push_str(&mut v, "件のメタデータ取得に失敗しました（例: ");
        push_str(&mut v, errors[0].as_str());
        push_str(&mut v, "）。");
    }
    assert(v@ =~= process_message_spec(
        records as nat,
        located as nat,
        wrote_geojson,
        text::texts(errors@),
    ));
    from_chars(v.as_slice())
}

/// The progress of the metadata phase never goes back and stays between 5 and 95.
pub proof fn law_progress_is_monotone(d1: nat, d2: nat, total: nat)
    requires
        d1 <= d2 <= total,
    ensures
        5 <= progress_percent_spec(d1, total) <= progress_percent_spec(d2, total) <= 95,
{
    let d = if total > 1 {
        total
    } else {
        1
    };
    assert(d1 * 90 <= d2 * 90) by (nonlinear_arith)
        requires
            d1 <= d2,
    ;
    assert(d1 * 90 / d <= d2 * 90 / d) by (nonlinear_arith)
        requires
            d1 * 90 <= d2 * 90,
            d >= 1,
    ;
    assert(d2 * 90 / d <= 90) by (nonlinear_arith)
        requires
            d2 <= total,
            total <= d,
            d >= 1,
    ;
}

/// A separator between folder links: a line break or a comma.
pub open spec fn is_link_separator(c: char) -> bool {
    c == '\n' || c == ','
}

/// The index of the first separator in `s`, or its length.
pub open spec fn separator_index(s: Seq<char>) -> int
    decreases s.len(),
{
    if s.len() == 0 {
        0
    } else if is_link_separator(s[0]) {
        0
    } else {
        1 + separator_index(s.skip(1))
    }
}

pub proof fn lemma_separator_index(s: Seq<char>)
    ensures
        0 <= separator_index(s) <= s.len(),
        separator_index(s) < s.len() ==> is_link_separator(s[separator_index(s)]),
        forall|k: int| 0 <= k < separator_index(s) ==> !is_link_separator(#[trigger] s[k]),
    decreases s.len(),
{
    if s.len() > 0 && !is_link_separator(s[0]) {
        lemma_separator_index(s.skip(1));
        assert forall|k: int| 0 <= k < separator_index(s) implies !is_link_separator(#[trigger] s[k]) by {
            if k > 0 {
                assert(s[k] == s.skip(1)[k - 1]);
            }
        }
    }
}

/// The folder links of the photo form: the text split at line breaks and commas, each piece
/// trimmed, blank pieces dropped.
pub open spec fn folder_links(s: Seq<char>) -> Seq<Seq<char>>
    decreases s.len(),
{
    if s.len() == 0 {
        seq![]
    } else {
        proof {
            lemma_separator_index(s);
        }
        let i = separator_index(s);
        let piece = text::trim(s.take(i));
        let rest = if i < s.len() {
            folder_links(s.skip(i + 1))
        } else {
            seq![]
        };
        if piece.len() > 0 {
            seq![piece] + rest
        } else {
            rest
        }
    }
}

/// The folder links given in one text.
pub fn split_folder_links(s: &str) -> (r: Vec<String>)
    ensures
        text::texts(r@) == folder_links(s@),
{
    let c = to_chars(s);
    let n = c.len();
    let mut out: Vec<String> = Vec::new();
    let mut start: usize = 0;
    assert(c@.skip(0) =~= c@);
    while start < n
        invariant
            n == c@.len(),
            c@ == s@,
            start <= n,
            folder_links(s@) == text::texts(out@) + folder_links(c@.skip(start as int)),
        decreases n - start,
    {
        let ghost rest = c@.skip(start as int);
        proof {
            lemma_separator_index(rest);
        }
        let mut i = start;
        while i < n && c[i] != '\n' && c[i] != ','
            invariant
                start <= i <= n,
                n == c@.len(),
                rest == c@.skip(start as int),
                i - start <= separator_index(rest),
                separator_index(rest) <= rest.len(),
                separator_index(rest) < rest.len() ==> is_link_separator(rest[separator_index(rest)]),
                forall|k: int| 0 <= k < separator_index(rest) ==> !is_link_separator(#[trigger] rest[k]),
            decreases n - i,
        {
            assert(rest[i - start] == c@[i as int]);
            i = i + 1;
        }
        proof {
            if i < n {
                assert(rest[i - start] == c@[i as int]);
            }
            if i - start < separator_index(rest) {
                assert(rest[i - start] == c@[i as int]);
            }
        }
        assert(i - start == separator_index(rest));
        let (a, b) = text::trim_bounds(&c.as_slice()[start..i]);
        let ghost piece_chars = c@.subrange(start as int, i as int);
        assert(piece_chars =~= rest.take(i - start));
        let ghost before = text::texts(out@);
        if a < b {
            let piece = from_chars(&c.as_slice()[start + a..start + b]);
            assert(c@.subrange(start + a, start + b) =~= piece_chars.subrange(a as int, b as int));
            out.push(piece);
            assert(text::texts(out@) =~= before.push(text::trim(rest.take(i - start))));
        }
        if i < n {
            assert(rest.skip(i - start + 1) =~= c@.skip(i + 1));
            proof {
                if a < b {
                    assert(before.push(text::trim(rest.take(i - start))) + folder_links(c@.skip(i + 1))
                        =~= before + (seq![text::trim(rest.take(i - start))] + folder_links(
                        c@.skip(i + 1),
                    )));
                }
            }
            start = i + 1;
        } else {
            proof {
                assert(c@.skip(n as int) =~= Seq::<char>::empty());
                assert(folder_links(Seq::<char>::empty()) =~= Seq::<Seq<char>>::empty());
                if a < b {
                    assert(before.push(text::trim(rest.take(i - start))) + Seq::<Seq<char>>::empty()
                        =~= before + (seq![text::trim(rest.take(i - start))] + Seq::<Seq<char>>::empty()));
                } else {
                    assert(before + Seq::<Seq<char>>::empty() =~= before);
                }
            }
            start = n;
        }
    }
    proof {
        assert(c@.skip(n as int) =~= Seq::<char>::empty());
        assert(folder_links(Seq::<char>::empty()) =~= Seq::<Seq<char>>::empty());
        assert(text::texts(out@) + Seq::<Seq<char>>::empty() =~= text::texts(out@));
    }
    out
}

} // verus!
