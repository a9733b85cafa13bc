//! The folder scan of the photo job, as a state machine: it says which page of which folder
//! to list next (and what to report before), takes each listed page, and collects the image
//! files depth first, in the order in which a recursive scan finds them. The requests are
//! the caller's.
use vstd::prelude::*;
use crate::box_api::{BoxFolderItems, BoxItem};
use crate::photos::{
    self, child_path, display_path, folder_page_url, found_in_folder_text, item_kind,
    opening_folder_text, page_is_last, ItemKind, FOLDER_PAGE_LIMIT,
};
use crate::text;

verus! {

/// A folder being scanned.
pub struct ScanFrame {
    folder_id: String,
    path: String,
    /// The offset of the page to list next, or of the page listed last.
    offset: usize,
    /// The items of the listed page not yet handled, in their order.
    pending: Vec<BoxItem>,
    /// A page has been listed and its items are being handled.
    fetched: bool,
    /// The page listed was the last of the folder.
    last: bool,
    /// The images found since the folder was opened (in it and below it).
    found: usize,
    /// The opening of the folder has been reported.
    opened: bool,
}

/// A folder being scanned, as the scan sees it.
pub struct FrameModel {
    pub folder_id: Seq<char>,
    pub path: Seq<char>,
    pub offset: usize,
    pub pending: Seq<BoxItem>,
    pub fetched: bool,
    pub last: bool,
    pub found: usize,
    pub opened: bool,
}

impl View for ScanFrame {
    type V = FrameModel;

    closed spec fn view(&self) -> FrameModel {
        FrameModel {
            folder_id: self.folder_id@,
            path: self.path@,
            offset: self.offset,
            pending: self.pending@,
            fetched: self.fetched,
            last: self.last,
            found: self.found,
            opened: self.opened,
        }
    }
}

/// What the scan asks the caller to do next.
pub enum ScanAction {
    /// Report this progress text; stop the job where the report says to.
    Report { text: String },
    /// Report this progress text, then list the page at `url` and hand it to `feed`.
    Fetch { text: String, url: String },
    /// An item of a listed page, or a folder whose last page was handled, was dealt with;
    /// ask again.
    Handled,
    /// Every folder has been scanned.
    Finished,
}

pub enum ActionModel {
    Report(Seq<char>),
    Fetch(Seq<char>, Seq<char>),
    Handled,
    Finished,
}

impl View for ScanAction {
    type V = ActionModel;

    open spec fn view(&self) -> ActionModel {
        match self {
            ScanAction::Report { text } => ActionModel::Report(text@),
            ScanAction::Fetch { text, url } => ActionModel::Fetch(text@, url@),
            ScanAction::Handled => ActionModel::Handled,
            ScanAction::Finished => ActionModel::Finished,
        }
    }
}

/// The images found in the folders scanned so far, each with the path of its folder, and
/// the folders being scanned, the outermost first.
pub struct FolderScan {
    frames: Vec<ScanFrame>,
    found: Vec<(BoxItem, String)>,
}

/// The images counted over a stack of folders.
pub open spec fn found_total(frames: Seq<FrameModel>) -> nat
    decreases frames.len(),
{
    if frames.len() == 0 {
        0
    } else {
        found_total(frames.drop_last()) + frames.last().found as nat
    }
}

/// Every collected item is an image file.
pub open spec fn all_images(found: Seq<(BoxItem, Seq<char>)>) -> bool {
    forall|i: int| 0 <= i < found.len() ==> photos::item_kind_spec(#[trigger] found[i].0) == ItemKind::Image
}

/// The collected items with the texts of their paths.
pub open spec fn found_view(found: Seq<(BoxItem, String)>) -> Seq<(BoxItem, Seq<char>)> {
    found.map_values(|e: (BoxItem, String)| (e.0, e.1@))
}

/// The models of a stack of folders.
pub open spec fn frames_view(frames: Seq<ScanFrame>) -> Seq<FrameModel> {
    frames.map_values(|f: ScanFrame| f@)
}

/// A folder about to be scanned: nothing listed, nothing found, not yet reported.
pub open spec fn new_frame(folder_id: Seq<char>, path: Seq<char>) -> FrameModel {
    FrameModel {
        folder_id,
        path,
        offset: 0,
        pending: seq![],
        fetched: false,
        last: false,
        found: 0,
        opened: false,
    }
}

/// The report that opens a folder.
pub open spec fn opening_text(f: FrameModel) -> Seq<char> {
    "フォルダを取得中: "@ + photos::display_path_spec(f.path)
}

/// The request for the next page of a folder, with its report.
pub open spec fn fetch_of(f: FrameModel) -> ActionModel {
    ActionModel::Fetch(
        text::decimal(f.found as nat) + "件の画像を発見（"@ + photos::display_path_spec(f.path) + "）"@,
        photos::folder_page_url_spec(f.folder_id, FOLDER_PAGE_LIMIT, f.offset),
    )
}

/// One step of the scan, on the folders being scanned (the innermost last) and the images
/// found so far:
/// - nothing left: the scan is finished;
/// - the innermost folder not yet reported: its opening is reported;
/// - an item of its listed page left: the first is handled (an image is collected under
///   the folder's path and counted, a folder is pushed to be scanned next, anything else is
///   passed over);
/// - its page handled and more pages to come: the next page is asked for;
/// - its last page handled: the folder is closed, its count added to the folder above;
/// - nothing listed yet: its page is asked for.
pub open spec fn scan_step(frames: Seq<FrameModel>, found: Seq<(BoxItem, Seq<char>)>) -> (
    Seq<FrameModel>,
    Seq<(BoxItem, Seq<char>)>,
    ActionModel,
) {
    if frames.len() == 0 {
        (frames, found, ActionModel::Finished)
    } else {
        let top = frames.last();
        let rest = frames.drop_last();
        if !top.opened {
            (rest.push(FrameModel { opened: true, ..top }), found, ActionModel::Report(opening_text(top)))
        } else if top.pending.len() > 0 {
            let item = top.pending[0];
            let top1 = FrameModel { pending: top.pending.drop_first(), ..top };
            match photos::item_kind_spec(item) {
                ItemKind::Image => (
                    rest.push(FrameModel { found: (top.found + 1) as usize, ..top1 }),
                    found.push((item, top.path)),
                    ActionModel::Handled,
                ),
                ItemKind::Folder => (
                    rest.push(top1).push(
                        new_frame(item.id@, photos::child_path_spec(top.path, item.name@)),
                    ),
                    found,
                    ActionModel::Handled,
                ),
                ItemKind::Other => (rest.push(top1), found, ActionModel::Handled),
            }
        } else if top.fetched && !top.last && top.offset <= usize::MAX - FOLDER_PAGE_LIMIT {
            let next = FrameModel {
                offset: (top.offset + FOLDER_PAGE_LIMIT) as usize,
                fetched: false,
                ..top
            };
            (rest.push(next), found, fetch_of(next))
        } else if top.fetched {
            if rest.len() > 0 {
                let parent = rest.last();
                (
                    rest.drop_last().push(
                        FrameModel { found: (parent.found + top.found) as usize, ..parent },
                    ),
                    found,
                    ActionModel::Handled,
                )
            } else {
                (rest, found, ActionModel::Handled)
            }
        } else {
            (frames, found, fetch_of(top))
        }
    }
}

/// The innermost folder waits for a page: it was reported, and nothing of a listed page is
/// left to handle.
pub open spec fn awaiting(frames: Seq<FrameModel>) -> bool {
    frames.len() > 0 && frames.last().opened && !frames.last().fetched
        && frames.last().pending.len() == 0
}

/// Offsets stay multiples of the page size when the folders below `n` are kept and the
/// others were listed from such an offset.
proof fn lemma_offsets_kept(before: Seq<ScanFrame>, after: Seq<ScanFrame>, n: int)
    requires
        forall|k: int| 0 <= k < before.len() ==> (#[trigger] before[k]).offset % FOLDER_PAGE_LIMIT == 0,
        0 <= n <= before.len(),
        n <= after.len(),
        forall|k: int| 0 <= k < n ==> #[trigger] after[k] == before[k],
        forall|k: int| n <= k < after.len() ==> (#[trigger] after[k]).offset % FOLDER_PAGE_LIMIT == 0,
    ensures
        forall|k: int| 0 <= k < after.len() ==> (#[trigger] after[k]).offset % FOLDER_PAGE_LIMIT == 0,
{
    assert forall|k: int| 0 <= k < after.len() implies (#[trigger] after[k]).offset % FOLDER_PAGE_LIMIT
        == 0 by {
        if k < n {
            assert(after[k] == before[k]);
        }
    }
}

/// A folder is closed (the stack of folders shrinks) only once a listed page of it has
/// been handled to its end and that page was its last, or no further page can be
/// addressed; the scan is finished only when no folder is left; and a step never drops or
/// reorders an image already collected.
pub proof fn law_folder_closes_after_last_page(
    frames: Seq<FrameModel>,
    found: Seq<(BoxItem, Seq<char>)>,
)
    ensures
        scan_step(frames, found).0.len() < frames.len() ==> {
            &&& frames.last().fetched
            &&& frames.last().pending.len() == 0
            &&& (frames.last().last || frames.last().offset > usize::MAX - FOLDER_PAGE_LIMIT)
        },
        (scan_step(frames, found).2 is Finished) <==> frames.len() == 0,
        found.len() <= scan_step(frames, found).1.len(),
        scan_step(frames, found).1.take(found.len() as int) == found,
{
    assert(found.take(found.len() as int) =~= found);
    if frames.len() > 0 && frames.last().opened && frames.last().pending.len() > 0 {
        let item = frames.last().pending[0];
        assert(found.push((item, frames.last().path)).take(found.len() as int) =~= found);
    }
}

/// Each item of a listed page is handled in turn, the first left first: an image is
/// collected under the path of its folder and counted there; a subfolder becomes the folder
/// scanned next, named under the path of its parent (`parent/name`, or `name` at the top),
/// before the items after it; anything else is passed over. Nothing is asked of Box then.
pub proof fn law_items_are_handled_in_order(
    frames: Seq<FrameModel>,
    found: Seq<(BoxItem, Seq<char>)>,
)
    requires
        frames.len() > 0,
        frames.last().opened,
        frames.last().pending.len() > 0,
        frames.last().found < usize::MAX,
    ensures
        ({
            let top = frames.last();
            let item = top.pending[0];
            let (after, collected, action) = scan_step(frames, found);
            &&& action is Handled
            &&& photos::item_kind_spec(item) == ItemKind::Image ==> collected == found.push(
                (item, top.path),
            ) && after.len() == frames.len() && after.last().pending == top.pending.drop_first()
                && after.last().found == top.found + 1
            &&& photos::item_kind_spec(item) == ItemKind::Folder ==> collected == found && after.len()
                == frames.len() + 1 && after[frames.len() - 1].pending == top.pending.drop_first()
                && after.last() == new_frame(
                item.id@,
                if top.path.len() == 0 {
                    item.name@
                } else {
                    top.path + seq!['/'] + item.name@
                },
            )
            &&& photos::item_kind_spec(item) == ItemKind::Other ==> collected == found && after.len()
                == frames.len() && after.last().pending == top.pending.drop_first()
                && after.last().found == top.found
        }),
{
    reveal_strlit("/");
    assert("/"@ =~= seq!['/']);
    let top = frames.last();
    let rest = frames.drop_last();
    let top1 = FrameModel { pending: top.pending.drop_first(), ..top };
    assert(rest.push(top1).len() == frames.len());
    assert(rest.push(top1)[frames.len() - 1] == top1);
}

impl FolderScan {
    #[verifier::type_invariant]
    closed spec fn wf(&self) -> bool {
        &&& found_total(frames_view(self.frames@)) <= self.found@.len()
        &&& all_images(found_view(self.found@))
        &&& forall|k: int|
            0 <= k < self.frames@.len() ==> (#[trigger] self.frames@[k]).offset % FOLDER_PAGE_LIMIT == 0
    }

    /// The folders being scanned, the outermost first.
    pub closed spec fn frames(&self) -> Seq<FrameModel> {
        frames_view(self.frames@)
    }

    /// The images collected so far, in the order they were found, with their folders' paths.
    pub closed spec fn found_items(&self) -> Seq<(BoxItem, Seq<char>)> {
        found_view(self.found@)
    }

    /// A scan of the folder `folder_id`, whose images are named under `path`.
    pub fn new(folder_id: String, path: String) -> (r: FolderScan)
        ensures
            r.found_items().len() == 0,
            r.frames() == seq![new_frame(folder_id@, path@)],
    {
        let mut frames: Vec<ScanFrame> = Vec::new();
        frames.push(
            ScanFrame {
                folder_id,
                path,
                offset: 0,
                pending: Vec::new(),
                fetched: false,
                last: false,
                found: 0,
                opened: false,
            },
        );
        proof {
            assert(frames_view(frames@).drop_last() =~= Seq::<FrameModel>::empty());
            assert(frames_view(frames@).last() == frames@[0]@);
            assert(found_total(Seq::<FrameModel>::empty()) == 0);
            assert(found_total(frames_view(frames@)) == 0);
            assert(frames_view(frames@) =~= seq![new_frame(folder_id@, path@)]);
            assert(found_view(Seq::<(BoxItem, String)>::empty()) =~= Seq::empty());
        }
        FolderScan { frames, found: Vec::new() }
    }

    /// Takes one step of the scan (`scan_step`) and says what the caller is to do.
    pub fn next_action(&mut self) -> (r: ScanAction)
        ensures
            (final(self).frames(), final(self).found_items(), r@) == scan_step(
                old(self).frames(),
                old(self).found_items(),
            ),
            all_images(final(self).found_items()),
    {
        proof {
            use_type_invariant(&*self);
        }
        let mut frames: Vec<ScanFrame> = Vec::new();
        let mut found: Vec<(BoxItem, String)> = Vec::new();
        std::mem::swap(&mut frames, &mut self.frames);
        std::mem::swap(&mut found, &mut self.found);
        let ghost fv0 = frames_view(frames@);
        let ghost before = frames@;
        let ghost found0 = found_view(found@);
        if frames.len() == 0 {
            self.found = found;
            self.frames = frames;
            return ScanAction::Finished;
        }
        let mut top = frames.pop().unwrap();
        let ghost top0 = top@;
        let ghost rest = frames_view(frames@);
        proof {
            assert(rest =~= fv0.drop_last());
            assert(top0 == fv0.last());
            assert(found_total(fv0) == found_total(rest) + top0.found);
            assert(top.offset % FOLDER_PAGE_LIMIT == 0) by {
                assert(fv0[fv0.len() - 1] == top0);
            }
        }
        if !top.opened {
            top.opened = true;
            let text = opening_folder_text(display_path(top.path.as_str()).as_str());
            frames.push(top);
            proof {
                assert(frames_view(frames@) =~= rest.push(top@));
                assert(frames_view(frames@).drop_last() =~= rest);
                lemma_offsets_kept(before, frames@, fv0.len() as int - 1);
            }
            self.found = found;
            self.frames = frames;
            return ScanAction::Report { text };
        }
        if top.pending.len() > 0 {
            let item = top.pending.remove(0);
            proof {
                assert(top.pending@ =~= top0.pending.drop_first());
            }
            match item_kind(&item) {
                ItemKind::Image => {
                    let path = top.path.clone();
                    let found_count: usize = found.len();
                    found.push((item, path));
                    let new_count: usize = found.len();
                    assert(top.found < new_count);
                    top.found = top.found + 1;
                    frames.push(top);
                    proof {
                        assert(found_view(found@) =~= found0.push((item, top0.path)));
                        assert(frames_view(frames@) =~= rest.push(top@));
                        assert(frames_view(frames@).drop_last() =~= rest);
                        assert(frames_view(frames@).last() == top@);
                        assert(found_total(frames_view(frames@)) == found_total(rest) + top.found);
                        lemma_offsets_kept(before, frames@, fv0.len() as int - 1);
                        assert forall|i: int| 0 <= i < found_view(found@).len() implies photos::item_kind_spec(
                            #[trigger] found_view(found@)[i].0,
                        ) == ItemKind::Image by {
                            if i < found0.len() {
                                assert(found_view(found@)[i] == found0[i]);
                            }
                        }
                    }
                },
                ItemKind::Folder => {
                    let child = ScanFrame {
                        folder_id: item.id.clone(),
                        path: child_path(top.path.as_str(), item.name.as_str()),
                        offset: 0,
                        pending: Vec::new(),
                        fetched: false,
                        last: false,
                        found: 0,
                        opened: false,
                    };
                    frames.push(top);
                    let ghost mid = frames_view(frames@);
                    frames.push(child);
                    proof {
                        assert(mid =~= rest.push(top@));
                        assert(mid.drop_last() =~= rest);
                        assert(frames_view(frames@) =~= mid.push(child@));
                        assert(frames_view(frames@).drop_last() =~= mid);
                        assert(mid.last() == top@);
                        assert(frames_view(frames@).last() == child@);
                        assert(found_total(mid) == found_total(rest) + top.found);
                        assert(found_total(frames_view(frames@)) == found_total(mid));
                        assert(child@ =~= new_frame(item.id@, photos::child_path_spec(top0.path, item.name@)));
                        lemma_offsets_kept(before, frames@, fv0.len() as int - 1);
                    }
                },
                ItemKind::Other => {
                    frames.push(top);
                    proof {
                        assert(frames_view(frames@) =~= rest.push(top@));
                        assert(frames_view(frames@).drop_last() =~= rest);
                        lemma_offsets_kept(before, frames@, fv0.len() as int - 1);
                    }
                },
            }
            self.found = found;
            self.frames = frames;
            return ScanAction::Handled;
        }
        if top.fetched && !top.last && top.offset <= usize::MAX - FOLDER_PAGE_LIMIT {
            proof {
                assert((top.offset + FOLDER_PAGE_LIMIT) as usize % FOLDER_PAGE_LIMIT == 0) by {
                    assert(top.offset % FOLDER_PAGE_LIMIT == 0);
                }
            }
            top.offset = top.offset + FOLDER_PAGE_LIMIT;
            top.fetched = false;
            let text = found_in_folder_text(top.found, display_path(top.path.as_str()).as_str());
            let url = folder_page_url(top.folder_id.as_str(), FOLDER_PAGE_LIMIT, top.offset);
            frames.push(top);
            proof {
                assert(frames_view(frames@) =~= rest.push(top@));
                assert(frames_view(frames@).drop_last() =~= rest);
                lemma_offsets_kept(before, frames@, fv0.len() as int - 1);
            }
            self.found = found;
            self.frames = frames;
            return ScanAction::Fetch { text, url };
        }
        if top.fetched {
            if frames.len() > 0 {
                let found_count: usize = found.len();
                let mut parent = frames.pop().unwrap();
                let ghost rest2 = frames_view(frames@);
                proof {
                    assert(rest2 =~= rest.drop_last());
                    assert(parent@ == rest.last());
                    assert(found_total(rest) == found_total(rest2) + parent.found);
                    assert(parent.offset % FOLDER_PAGE_LIMIT == 0) by {
                        assert(fv0[fv0.len() - 2] == parent@);
                    }
                }
                assert(parent.found + top.found <= found_count);
                parent.found = parent.found + top.found;
                frames.push(parent);
                proof {
                    assert(frames_view(frames@) =~= rest2.push(parent@));
                    assert(frames_view(frames@).drop_last() =~= rest2);
                    lemma_offsets_kept(before, frames@, fv0.len() as int - 2);
                }
            } else {
                proof {
                    assert(frames_view(frames@) =~= Seq::<FrameModel>::empty());
                }
            }
            self.found = found;
            self.frames = frames;
            return ScanAction::Handled;
        }
        let text = found_in_folder_text(top.found, display_path(top.path.as_str()).as_str());
        let url = folder_page_url(top.folder_id.as_str(), FOLDER_PAGE_LIMIT, top.offset);
        frames.push(top);
        proof {
            assert(frames_view(frames@) =~= fv0);
            lemma_offsets_kept(before, frames@, fv0.len() as int - 1);
        }
        self.found = found;
        self.frames = frames;
        ScanAction::Fetch { text, url }
    }

    /// Hands the page listed for the `Fetch` just asked for to the scan: its items become
    /// the innermost folder's items to handle, and whether it was the folder's last page is
    /// kept. Where no folder waits for a page, nothing happens.
    pub fn feed(&mut self, page: BoxFolderItems)
        ensures
            final(self).found_items() == old(self).found_items(),
            awaiting(old(self).frames()) ==> final(self).frames() == old(self).frames().drop_last().push(
                FrameModel {
                    pending: page.entries@,
                    fetched: true,
                    last: photos::page_is_last_spec(page.entries@.len() as usize, FOLDER_PAGE_LIMIT, page),
                    ..old(self).frames().last()
                },
            ),
            !awaiting(old(self).frames()) ==> final(self).frames() == old(self).frames(),
    {
        proof {
            use_type_invariant(&*self);
        }
        let mut frames: Vec<ScanFrame> = Vec::new();
        std::mem::swap(&mut frames, &mut self.frames);
        let ghost fv0 = frames_view(frames@);
        let ghost before = frames@;
        if frames.len() == 0 {
            self.frames = frames;
            return;
        }
        let mut top = frames.pop().unwrap();
        let ghost rest = frames_view(frames@);
        proof {
            assert(rest =~= fv0.drop_last());
            assert(top@ == fv0.last());
            assert(top.offset % FOLDER_PAGE_LIMIT == 0) by {
                assert(fv0[fv0.len() - 1] == top@);
            }
            assert(found_total(fv0) == found_total(rest) + top.found);
        }
        if !(top.opened && !top.fetched && top.pending.len() == 0) {
            frames.push(top);
            proof {
                assert(frames_view(frames@) =~= fv0);
                lemma_offsets_kept(before, frames@, fv0.len() as int - 1);
            }
            self.frames = frames;
            return;
        }
        let last = page_is_last(FOLDER_PAGE_LIMIT, &page);
        top.pending = page.entries;
        top.fetched = true;
        top.last = last;
        frames.push(top);
        proof {
            assert(frames_view(frames@) =~= rest.push(top@));
            assert(frames_view(frames@).drop_last() =~= rest);
            lemma_offsets_kept(before, frames@, fv0.len() as int - 1);
        }
        self.frames = frames;
    }

    /// The images found, each with the path of its folder, in the order found.
    pub fn into_found(self) -> (r: Vec<(BoxItem, String)>)
        ensures
            found_view(r@) == self.found_items(),
            all_images(found_view(r@)),
    {
        proof {
            use_type_invariant(&self);
        }
        self.found
    }
}

} // verus!
