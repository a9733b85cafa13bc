//! Fetching the `embedded_metadata` representation of a Box file. Box makes representations
//! on demand, so the caller lists them, and while the one wanted is not ready, asks Box to make
//! it (once) and lists again after a pause. `poll_step` decides what each listing means.
use vstd::prelude::*;
use crate::text::{self, from_chars, push_str};

verus! {

/// The state of a representation (`success`, `viewable`, `pending`, `none` or `error`).
pub struct RepStatus {
    pub state: Option<String>,
    pub code: Option<String>,
    pub message: Option<String>,
}

/// Where a representation can be asked for.
pub struct RepInfo {
    pub url: Option<String>,
}

/// Where the content of a representation can be fetched.
pub struct RepContent {
    pub url_template: Option<String>,
}

/// One representation of a file.
pub struct RepresentationEntry {
    pub representation: String,
    pub status: Option<RepStatus>,
    pub info: Option<RepInfo>,
    pub content: Option<RepContent>,
}

pub struct Representations {
    pub entries: Vec<RepresentationEntry>,
}

/// A file with the representations Box lists for it.
pub struct FileRepresentations {
    pub representations: Option<Representations>,
}

/// What to do after one listing of the representations.
pub enum PollStep {
    /// Stop with this error.
    Fail { message: String },
    /// The metadata is ready: fetch it from this address and parse it as JSON.
    Download { url: String },
    /// Ask Box to make the representation (at the address, if Box gave one), then wait.
    Trigger { info_url: Option<String> },
    /// Wait and list again.
    Wait,
}

pub enum PollPlan {
    Fail(Seq<char>),
    Download(Seq<char>),
    Trigger(Option<Seq<char>>),
    Wait,
}

impl View for PollStep {
    type V = PollPlan;

    open spec fn view(&self) -> PollPlan {
        match self {
            PollStep::Fail { message } => PollPlan::Fail(message@),
            PollStep::Download { url } => PollPlan::Download(url@),
            PollStep::Trigger { info_url } => PollPlan::Trigger(
                match info_url {
                    Some(u) => Some(u@),
                    None => None,
                },
            ),
            PollStep::Wait => PollPlan::Wait,
        }
    }
}

/// How many times the representations are listed before giving up.
pub const POLL_ATTEMPTS: u32 = 30;

/// The pause after listing number `attempt` (from 0), in milliseconds.
pub fn poll_delay_ms(attempt: u32) -> (r: u64)
    ensures
        r == (if attempt < 4 {
            300u64
        } else {
            1000u64
        }),
{
    if attempt < 4 {
        300
    } else {
        1000
    }
}

pub open spec fn representation_list_url_spec(file_id: Seq<char>) -> Seq<char> {
    "https://api.box.com/2.0/files/"@ + file_id + "?fields=representations"@
}

/// The address that lists the representations of a file (asked with the header
/// `x-rep-hints: [embedded_metadata]`).
pub fn representation_list_url(file_id: &str) -> (r: String)
    ensures
        r@ == representation_list_url_spec(file_id@),
{
    let mut v: Vec<char> = Vec::new();
    push_str(&mut v, "https://api.box.com/2.0/files/");
    push_str(&mut v, file_id);
    push_str(&mut v, "?fields=representations");
    assert(v@ =~= representation_list_url_spec(file_id@));
    from_chars(v.as_slice())
}

/// The index of the first entry named `embedded_metadata`, if any.
pub open spec fn metadata_entry_index(entries: Seq<RepresentationEntry>) -> Option<int>
    decreases entries.len(),
{
    if entries.len() == 0 {
        None
    } else if entries[0].representation@ == "embedded_metadata"@ {
        Some(0)
    } else {
        match metadata_entry_index(entries.skip(1)) {
            Some(k) => Some(k + 1),
            None => None,
        }
    }
}

pub proof fn lemma_metadata_entry_index(entries: Seq<RepresentationEntry>)
    ensures
        match metadata_entry_index(entries) {
            Some(k) => 0 <= k < entries.len() && entries[k].representation@ == "embedded_metadata"@
                && forall|j: int|
                0 <= j < k ==> #[trigger] entries[j].representation@ != "embedded_metadata"@,
            None => forall|j: int|
                0 <= j < entries.len() ==> #[trigger] entries[j].representation@
                    != "embedded_metadata"@,
        },
    decreases entries.len(),
{
    if entries.len() > 0 {
        lemma_metadata_entry_index(entries.skip(1));
        if entries[0].representation@ != "embedded_metadata"@ {
            match metadata_entry_index(entries.skip(1)) {
                Some(k) => {
                    assert forall|j: int| 0 <= j < k + 1 implies #[trigger] entries[j].representation@
                        != "embedded_metadata"@ by {
                        if j > 0 {
                            assert(entries[j] == entries.skip(1)[j - 1]);
                        }
                    }
                    assert(entries[k + 1] == entries.skip(1)[k]);
                },
                None => {
                    assert forall|j: int| 0 <= j < entries.len() implies #[trigger] entries[j].representation@
                        != "embedded_metadata"@ by {
                        if j > 0 {
                            assert(entries[j] == entries.skip(1)[j - 1]);
                        }
                    }
                },
            }
        }
    }
}

/// The state that an entry reports, `none` where it reports none.
pub open spec fn entry_state(e: RepresentationEntry) -> Seq<char> {
    match e.status {
        Some(st) => match st.state {
            Some(s) => s@,
            None => "none"@,
        },
        None => "none"@,
    }
}

pub open spec fn opt_text_or_empty(o: Option<String>) -> Seq<char> {
    match o {
        Some(s) => s@,
        None => seq![],
    }
}

pub open spec fn status_code(e: RepresentationEntry) -> Seq<char> {
    match e.status {
        Some(st) => opt_text_or_empty(st.code),
        None => seq![],
    }
}

pub open spec fn status_message(e: RepresentationEntry) -> Seq<char> {
    match e.status {
        Some(st) => opt_text_or_empty(st.message),
        None => seq![],
    }
}

pub open spec fn no_representation_text() -> Seq<char> {
    "embedded_metadata 表現が利用できません（未対応のファイル形式の可能性）"@
}

pub open spec fn no_template_text() -> Seq<char> {
    "埋め込みメタデータの URL テンプレートがありません"@
}

/// The address of the metadata: the template with `{+asset_path}` removed.
pub open spec fn download_url_spec(template: Seq<char>) -> Seq<char> {
    text::replace_all(template, "{+asset_path}"@, ""@)
}

/// What one listing means: `triggered` tells whether Box was already asked to make the
/// representation.
pub open spec fn poll_plan(file: FileRepresentations, triggered: bool) -> PollPlan {
    let entries = match file.representations {
        Some(r) => r.entries@,
        None => seq![],
    };
    match metadata_entry_index(entries) {
        None => PollPlan::Fail(no_representation_text()),
        Some(k) => {
            let e = entries[k];
            let state = entry_state(e);
            if state == "success"@ || state == "viewable"@ {
                match e.content {
                    Some(c) => match c.url_template {
                        Some(t) => PollPlan::Download(download_url_spec(t@)),
                        None => PollPlan::Fail(no_template_text()),
                    },
                    None => PollPlan::Fail(no_template_text()),
                }
            } else if state == "error"@ {
                PollPlan::Fail(
                    "Box embedded metadata 生成エラー: "@ + status_code(e) + " "@ + status_message(e),
                )
            } else if state == "none"@ && !triggered {
                PollPlan::Trigger(
                    match e.info {
                        Some(i) => match i.url {
                            Some(u) => Some(u@),
                            None => None,
                        },
                        None => None,
                    },
                )
            } else {
                PollPlan::Wait
            }
        },
    }
}

fn find_metadata_entry(entries: &Vec<RepresentationEntry>) -> (r: Option<usize>)
    ensures
        match r {
            Some(k) => metadata_entry_index(entries@) == Some(k as int),
            None => metadata_entry_index(entries@) is None,
        },
{
    proof {
        lemma_metadata_entry_index(entries@);
    }
    let mut k: usize = 0;
    while k < entries.len()
        invariant
            k <= entries@.len(),
            forall|j: int|
                0 <= j < k ==> #[trigger] entries@[j].representation@ != "embedded_metadata"@,
            match metadata_entry_index(entries@) {
                Some(i) => 0 <= i < entries@.len() && entries@[i].representation@
                    == "embedded_metadata"@ && forall|j: int|
                    0 <= j < i ==> #[trigger] entries@[j].representation@ != "embedded_metadata"@,
                None => forall|j: int|
                    0 <= j < entries@.len() ==> #[trigger] entries@[j].representation@
                        != "embedded_metadata"@,
            },
        decreases entries.len() - k,
    {
        if text::equal_text(entries[k].representation.as_str(), "embedded_metadata") {
            return Some(k);
        }
        k = k + 1;
    }
    None
}

fn text_or_empty(o: &Option<String>) -> (r: String)
    ensures
        r@ == opt_text_or_empty(*o),
{
    match o {
        Some(s) => s.clone(),
        None => String::new(),
    }
}

/// `fetch_embedded_metadata` after one listing: what to do next.
pub fn poll_step(file: &FileRepresentations, triggered: bool) -> (r: PollStep)
    ensures
        r@ == poll_plan(*file, triggered),
{
    let empty: Vec<RepresentationEntry> = Vec::new();
    let entries = match &file.representations {
        Some(r) => &r.entries,
        None => &empty,
    };
    let k = match find_metadata_entry(entries) {
        Some(k) => k,
        None => {
            return PollStep::Fail {
                message: "embedded_metadata 表現が利用できません（未対応のファイル形式の可能性）".to_string(),
            };
        },
    };
    proof {
        lemma_metadata_entry_index(entries@);
    }
    let e = &entries[k];
    let state = match &e.status {
        Some(st) => match &st.state {
            Some(s) => s.clone(),
            None => "none".to_string(),
        },
        None => "none".to_string(),
    };
    assert(state@ == entry_state(*e));
    if text::equal_text(state.as_str(), "success") || text::equal_text(state.as_str(), "viewable") {
        match &e.content {
            Some(c) => match &c.url_template {
                Some(t) => {
                    proof {
                        reveal_strlit("{+asset_path}");
                    }
                    PollStep::Download { url: text::replace_text(t.as_str(), "{+asset_path}", "") }
                },
                None => PollStep::Fail {
                    message: "埋め込みメタデータの URL テンプレートがありません".to_string(),
                },
            },
            None => PollStep::Fail {
                message: "埋め込みメタデータの URL テンプレートがありません".to_string(),
            },
        }
    } else if text::equal_text(state.as_str(), "error") {
        let (code, message) = match &e.status {
            Some(st) => (text_or_empty(&st.code), text_or_empty(&st.message)),
            None => (String::new(), String::new()),
        };
        let mut v: Vec<char> = Vec::new();
        push_str(&mut v, "Box embedded metadata 生成エラー: ");
        push_str(&mut v, code.as_str());
        push_str(&mut v, " ");
        push_str(&mut v, message.as_str());
        assert(v@ =~= "Box embedded metadata 生成エラー: "@ + status_code(*e) + " "@ + status_message(
            *e,
        ));
        PollStep::Fail { message: from_chars(v.as_slice()) }
    } else if text::equal_text(state.as_str(), "none") && !triggered {
        let url = match &e.info {
            Some(i) => match &i.url {
                Some(u) => Some(u.clone()),
                None => None,
            },
            None => None,
        };
        PollStep::Trigger { info_url: url }
    } else {
        PollStep::Wait
    }
}

/// The error after the last attempt.
pub fn poll_timeout_message() -> (r: String)
    ensures
        r@ == "Box embedded metadata 生成がタイムアウトしました"@,
{
    "Box embedded metadata 生成がタイムアウトしました".to_string()
}

/// Box is asked to make the representation at most once: once it was asked, a listing
/// never leads to asking again.
pub proof fn law_trigger_at_most_once(file: FileRepresentations)
    ensures
        !(poll_plan(file, true) is Trigger),
{
}

/// What a listing leads to, by the state of its first `embedded_metadata` entry (the one at
/// `k`): `success` or `viewable` with a template `t` downloads `t` with `{+asset_path}`
/// taken out; `error` fails; `none` asks Box to make the representation unless it was asked
/// already; any other state, or `none` once asked, waits for the next listing.
pub proof fn law_listing_decides_by_state(
    file: FileRepresentations,
    triggered: bool,
    k: int,
)
    requires
        file.representations matches Some(r) && 0 <= k < r.entries@.len()
            && r.entries@[k].representation@ == "embedded_metadata"@ && forall|j: int|
            0 <= j < k ==> #[trigger] r.entries@[j].representation@ != "embedded_metadata"@,
    ensures
        ({
            let e = file.representations->0.entries@[k];
            let state = entry_state(e);
            &&& (state == "success"@ || state == "viewable"@) ==> (e.content matches Some(c)
                ==> (c.url_template matches Some(t) ==> poll_plan(file, triggered)
                == PollPlan::Download(text::replace_all(t@, "{+asset_path}"@, ""@))))
            &&& (state == "success"@ || state == "viewable"@) ==> (poll_plan(file, triggered) is Download
                || poll_plan(file, triggered) is Fail)
            &&& state == "error"@ ==> poll_plan(file, triggered) is Fail
            &&& (state == "none"@ && !triggered) ==> poll_plan(file, triggered) is Trigger
            &&& (state != "success"@ && state != "viewable"@ && state != "error"@ && (state != "none"@
                || triggered)) ==> poll_plan(file, triggered) == PollPlan::Wait
        }),
{
    reveal_strlit("success");
    reveal_strlit("viewable");
    reveal_strlit("error");
    reveal_strlit("none");
    assert("success"@.len() == 7 && "viewable"@.len() == 8 && "error"@.len() == 5 && "none"@.len()
        == 4);
    let entries = file.representations->0.entries@;
    lemma_metadata_entry_index(entries);
    match metadata_entry_index(entries) {
        Some(k2) => {
            if k2 < k {
                assert(entries[k2].representation@ != "embedded_metadata"@);
            }
            if k < k2 {
                assert(entries[k].representation@ != "embedded_metadata"@);
            }
        },
        None => {
            assert(entries[k].representation@ != "embedded_metadata"@);
        },
    }
}

/// A listing that shows the representation ready, with a template, leads to its download
/// whether or not Box was asked to make it.
pub proof fn law_ready_is_downloaded(file: FileRepresentations, triggered: bool)
    ensures
        poll_plan(file, triggered) is Download ==> poll_plan(file, !triggered) == poll_plan(
            file,
            triggered,
        ),
{
}

} // verus!
