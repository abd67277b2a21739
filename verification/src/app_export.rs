//! Getting pictures out of a batch: saving, copying, dragging, and removing items.
use vstd::prelude::*;
use crate::app_view::sync_after_batch_change;
use crate::batch_manager::{checked_ids_in, BatchManager};
use crate::drag_export::{source_stem, stem_or_image};
use crate::drag_export_state::DragExportState;
use crate::history_manager::files;
use crate::item::{BatchItem, BatchStatus};
use crate::paths::{
    extensions_are_found, file_name, file_stem, join_path, joined, names_are_found, stem_of,
};
use crate::processor::Processor;
use crate::text::{decimal, join2, join3, to_decimal};

verus! {

broadcast use vstd::std_specs::hash::group_hash_axioms;

/// Whether an item is checked and has a result that can be saved.
pub open spec fn is_saved(item: BatchItem) -> bool {
    item.selected && item.status is Done && item.result_rgba is Some
}

/// Positions of those of the first `n` items that are checked and have a result.
pub open spec fn saved_positions(s: Seq<BatchItem>, n: int) -> Seq<usize>
    decreases n,
{
    if n <= 0 {
        Seq::empty()
    } else if is_saved(s[n - 1]) {
        saved_positions(s, n - 1).push((n - 1) as usize)
    } else {
        saved_positions(s, n - 1)
    }
}

/// Positions of the items that are checked and have a result.
fn positions_to_save(items: &Vec<BatchItem>) -> (r: Vec<usize>)
    ensures
        r@ == saved_positions(items@, items@.len() as int),
{
    let mut r: Vec<usize> = Vec::new();
    let mut i: usize = 0;
    while i < items.len()
        invariant
            i <= items@.len(),
            r@ == saved_positions(items@, i as int),
        decreases items@.len() - i,
    {
        let done = match items[i].status {
            BatchStatus::Done => true,
            _ => false,
        };
        if items[i].selected && done && items[i].result_rgba.is_some() {
            r.push(i);
        }
        i += 1;
    }
    r
}

/// Name suggested for the viewed result.
pub open spec fn suggested_name(filename: Seq<char>) -> Seq<char> {
    match file_name(filename) {
        Some(name) => stem_of(name) + "-nobg.png"@,
        None => "result-nobg.png"@,
    }
}

/// Name of the file that an item is saved as.
pub open spec fn saved_name(filename: Seq<char>) -> Seq<char> {
    stem_or_image(filename) + "-nobg.png"@
}

/// Name of the file that an item is saved as.
pub fn save_name(filename: &str) -> (r: String)
    ensures
        r@ == saved_name(filename@),
{
    let stem = source_stem(filename);
    join2(stem.as_str(), "-nobg.png")
}

/// Path of the file that an item is saved as in a folder.
pub fn save_path(folder: &str, filename: &str) -> (r: String)
    ensures
        r@ == joined(folder@, saved_name(filename@)),
{
    let name = save_name(filename);
    join_path(folder, name.as_str())
}

/// Where results are saved.
pub enum SaveRoute {
    /// Layers of these items, in a folder.
    Layers(Vec<u64>),
    /// The results at these positions, in a folder.
    Folder(Vec<usize>),
    /// The result at a position, in one file with this suggested name.
    File { position: usize, name: String },
    /// There is nothing to save.
    Nothing,
}

/// Where results are saved. Split into layers, they always go into a folder: those
/// of the checked items that have a result, or of the viewed item. As a whole,
/// checked results go into a folder, and without any the viewed one into a file.
pub fn handle_save_selected(batch: &BatchManager, split_layers: bool) -> (r: SaveRoute)
    ensures
        ({
            let s = batch.items@;
            let positions = saved_positions(s, s.len() as int);
            let v = batch.selected_index as int;
            if split_layers {
                &&& r matches SaveRoute::Layers(ids) && ids@ == if positions.len() > 0 {
                    checked_ids_in(s, BatchStatus::Done)
                } else if v < s.len() {
                    seq![s[v].id]
                } else {
                    Seq::empty()
                }
            } else if positions.len() > 0 {
                r matches SaveRoute::Folder(p) && p@ == positions
            } else if v < s.len() && s[v].result_rgba is Some {
                r matches SaveRoute::File { position, name } && position == v && name@
                    == suggested_name(s[v].filename@)
            } else {
                r is Nothing
            }
        }),
{
    let positions = positions_to_save(&batch.items);
    if split_layers {
        if positions.len() > 0 {
            return SaveRoute::Layers(batch.selected_ids_with_status(&BatchStatus::Done));
        }
        let mut ids: Vec<u64> = Vec::new();
        if batch.selected_index < batch.items.len() {
            ids.push(batch.items[batch.selected_index].id);
            assert(ids@ =~= seq![batch.items@[batch.selected_index as int].id]);
        }
        return SaveRoute::Layers(ids);
    }
    if positions.len() > 0 {
        return SaveRoute::Folder(positions);
    }
    if batch.selected_index < batch.items.len() {
        let item = &batch.items[batch.selected_index];
        if item.result_rgba.is_some() {
            let name = match file_stem(item.filename.as_str()) {
                Some(stem) => join2(stem.as_str(), "-nobg.png"),
                None => "result-nobg.png".to_owned(),
            };
            return SaveRoute::File { position: batch.selected_index, name };
        }
    }
    SaveRoute::Nothing
}

/// Name suggested for the result at a position, where there is one.
pub fn save_item_to_file(batch: &BatchManager, idx: usize) -> (r: Option<String>)
    ensures
        match r {
            Some(name) => idx < batch.items@.len() && batch.items@[idx as int].result_rgba is Some
                && name@ == saved_name(batch.items@[idx as int].filename@),
            None => idx >= batch.items@.len() || batch.items@[idx as int].result_rgba is None,
        },
{
    if idx >= batch.items.len() || batch.items[idx].result_rgba.is_none() {
        return None;
    }
    Some(save_name(batch.items[idx].filename.as_str()))
}

/// What one item of a layer save comes to.
#[derive(Clone, Copy, Debug, PartialEq, Eq, Structural)]
pub enum LayerSave {
    /// The layers that were rendered.
    Layers,
    /// The result as a whole.
    Whole,
    /// Nothing.
    Nothing,
}

/// What one item of a layer save comes to: the result as a whole where no layer
/// could be rendered.
pub fn layer_save(rendered: usize, has_result: bool) -> (r: LayerSave)
    ensures
        r == if rendered > 0 {
            LayerSave::Layers
        } else if has_result {
            LayerSave::Whole
        } else {
            LayerSave::Nothing
        },
{
    if rendered > 0 {
        LayerSave::Layers
    } else if has_result {
        LayerSave::Whole
    } else {
        LayerSave::Nothing
    }
}

/// What is saved.
#[derive(Clone, Copy, Debug, PartialEq, Eq, Structural)]
pub enum Saving {
    Files,
    Images,
}

impl Saving {
    /// The word for what is saved.
    pub open spec fn noun(self) -> Seq<char> {
        match self {
            Saving::Files => " file(s)"@,
            Saving::Images => " image(s)"@,
        }
    }

    /// The word for what is saved.
    pub fn word(self) -> (r: &'static str)
        ensures
            r@ == self.noun(),
    {
        match self {
            Saving::Files => " file(s)",
            Saving::Images => " image(s)",
        }
    }
}

/// What the user is told when saving begins.
pub fn saving_text(count: usize, what: Saving) -> (r: String)
    ensures
        r@ == "Saving "@ + decimal(count as nat) + what.noun() + "..."@,
{
    let n = to_decimal(count as u64);
    let head = join3("Saving ", n.as_str(), what.word());
    join2(head.as_str(), "...")
}

/// How many files were written.
#[derive(Clone, Copy, Debug, PartialEq, Eq, Structural)]
pub struct SaveTally {
    pub saved: usize,
    pub failed: usize,
}

/// Number of files that were written.
pub open spec fn written_count(results: Seq<bool>) -> int
    decreases results.len(),
{
    if results.len() == 0 {
        0
    } else {
        written_count(results.drop_last()) + if results.last() {
            1int
        } else {
            0int
        }
    }
}

impl SaveTally {
    /// Counts the files that were written and those that were not.
    pub fn of(results: &Vec<bool>) -> (r: SaveTally)
        ensures
            r.saved == written_count(results@),
            r.failed == results@.len() - written_count(results@),
    {
        let mut r = SaveTally { saved: 0, failed: 0 };
        let mut i: usize = 0;
        while i < results.len()
            invariant
                i <= results@.len(),
                r.saved == written_count(results@.take(i as int)),
                r.saved + r.failed == i,
            decreases results@.len() - i,
        {
            assert(results@.take(i as int + 1).drop_last() =~= results@.take(i as int));
            if results[i] {
                r.saved = r.saved + 1;
            } else {
                r.failed = r.failed + 1;
            }
            i += 1;
        }
        assert(results@.take(results@.len() as int) =~= results@);
        r
    }

    /// What the user is told when saving is over.
    pub fn message(&self, what: Saving) -> (r: String)
        ensures
            r@ == if self.failed > 0 {
                "Saved "@ + decimal(self.saved as nat) + ", failed "@ + decimal(self.failed as nat)
            } else {
                "Saved "@ + decimal(self.saved as nat) + what.noun()
            },
    {
        let saved = to_decimal(self.saved as u64);
        if self.failed > 0 {
            let failed = to_decimal(self.failed as u64);
            let head = join3("Saved ", saved.as_str(), ", failed ");
            join2(head.as_str(), failed.as_str())
        } else {
            join3("Saved ", saved.as_str(), what.word())
        }
    }
}

/// What the user is told when one file was saved or was not.
pub fn single_save_message(error: Option<&str>) -> (r: String)
    ensures
        r@ == match error {
            None => "Saved"@,
            Some(e) => "Save failed: "@ + e@,
        },
{
    match error {
        None => "Saved".to_owned(),
        Some(e) => join2("Save failed: ", e),
    }
}

/// Number of those of the first `n` items that are checked and have a result.
pub open spec fn checked_results(s: Seq<BatchItem>, n: int) -> int
    decreases n,
{
    if n <= 0 {
        0
    } else {
        checked_results(s, n - 1) + if s[n - 1].selected && s[n - 1].result_rgba is Some {
            1int
        } else {
            0int
        }
    }
}

/// Position of the first of the first `n` items that is checked and has a result.
pub open spec fn first_checked_result(s: Seq<BatchItem>, n: int) -> Option<usize>
    decreases n,
{
    if n <= 0 {
        None
    } else if first_checked_result(s, n - 1) is Some {
        first_checked_result(s, n - 1)
    } else if s[n - 1].selected && s[n - 1].result_rgba is Some {
        Some((n - 1) as usize)
    } else {
        None
    }
}

/// What is copied.
pub struct CopyPlan {
    /// Position of the item whose result is copied.
    pub position: usize,
    /// What the user is told where several results are checked.
    pub hint: Option<String>,
}

/// What is copied: the first checked result, or without any the viewed one. A
/// clipboard holds one picture, so where several are checked the user is told.
pub fn handle_copy(batch: &BatchManager) -> (r: Option<CopyPlan>)
    ensures
        ({
            let s = batch.items@;
            let n = s.len() as int;
            let v = batch.selected_index as int;
            match first_checked_result(s, n) {
                Some(i) => r matches Some(p) && p.position == i && crate::app_process::shown(p.hint)
                    == if checked_results(s, n) > 1 {
                    Some(
                        "Copied 1 of "@ + decimal(checked_results(s, n) as nat)
                            + " selected. Drag thumbnails out of the window to export multiple."@,
                    )
                } else {
                    None
                },
                None => if v < n && s[v].result_rgba is Some {
                    r matches Some(p) && p.position == v && p.hint is None
                } else {
                    r is None
                },
            }
        }),
{
    let mut first: Option<usize> = None;
    let mut count: usize = 0;
    let mut i: usize = 0;
    while i < batch.items.len()
        invariant
            i <= batch.items@.len(),
            count == checked_results(batch.items@, i as int),
            count <= i,
            first == first_checked_result(batch.items@, i as int),
            first is Some <==> count > 0,
        decreases batch.items@.len() - i,
    {
        let item = &batch.items[i];
        if item.selected && item.result_rgba.is_some() {
            count = count + 1;
            if first.is_none() {
                first = Some(i);
            }
        }
        i += 1;
    }
    match first {
        Some(position) => {
            let hint = if count > 1 {
                let n = to_decimal(count as u64);
                Some(
                    join3(
                        "Copied 1 of ",
                        n.as_str(),
                        " selected. Drag thumbnails out of the window to export multiple.",
                    ),
                )
            } else {
                None
            };
            Some(CopyPlan { position, hint })
        },
        None => {
            let v: usize = batch.selected_index;
            if v < batch.items.len() && batch.items[v].result_rgba.is_some() {
                Some(CopyPlan { position: v, hint: None })
            } else {
                None
            }
        },
    }
}

/// What the user is told after copying.
pub fn copy_message(copied: bool, hint: Option<String>) -> (r: String)
    ensures
        r@ == if !copied {
            "Could not copy to clipboard. Try saving instead."@
        } else {
            match hint {
                Some(h) => h@,
                None => "Copied to clipboard"@,
            }
        },
{
    if !copied {
        return "Could not copy to clipboard. Try saving instead.".to_owned();
    }
    match hint {
        Some(h) => h,
        None => "Copied to clipboard".to_owned(),
    }
}

/// Those of the first `n` items that are not checked.
pub open spec fn unchecked(s: Seq<BatchItem>, n: int) -> Seq<BatchItem>
    decreases n,
{
    if n <= 0 {
        Seq::empty()
    } else if s[n - 1].selected {
        unchecked(s, n - 1)
    } else {
        unchecked(s, n - 1).push(s[n - 1])
    }
}

/// What came of removing the checked items.
pub struct RemovedMany {
    pub count: usize,
    /// What the user is told.
    pub text: Option<String>,
    /// Whether the viewed item is to be drawn anew.
    pub sync: bool,
}

/// Removes the checked items.
pub fn remove_selected(batch: &mut BatchManager) -> (r: RemovedMany)
    ensures
        ({
            let s = old(batch).items@;
            let kept = unchecked(s, s.len() as int);
            &&& final(batch).items@ == kept
            &&& final(batch).next_id == old(batch).next_id
            &&& final(batch).selected_index == if kept.len() == 0 {
                0
            } else if old(batch).selected_index < kept.len() {
                old(batch).selected_index as int
            } else {
                kept.len() - 1
            }
            &&& r.count == s.len() - kept.len()
            &&& r.sync == (kept.len() > 0)
            &&& crate::app_process::shown(r.text) == if r.count > 0 {
                Some("Removed "@ + decimal(r.count as nat) + " image(s)"@)
            } else {
                None
            }
        }),
{
    let ghost s = batch.items@;
    let n: usize = batch.items.len();
    let mut k: usize = 0;
    let mut i: usize = 0;
    while i < n
        invariant
            i <= n,
            n == s.len(),
            k <= i,
            k == unchecked(s, i as int).len(),
            batch.items@ == unchecked(s, i as int) + s.skip(i as int),
            batch.selected_index == old(batch).selected_index,
            batch.next_id == old(batch).next_id,
        decreases n - i,
    {
        let ghost kept = unchecked(s, i as int);
        assert(batch.items@[k as int] == s[i as int]);
        if batch.items[k].selected {
            batch.items.remove(k);
            assert((kept + s.skip(i as int)).remove(k as int) =~= kept + s.skip(i as int + 1));
        } else {
            k += 1;
            assert(kept + s.skip(i as int) =~= kept.push(s[i as int]) + s.skip(i as int + 1));
        }
        i += 1;
    }
    assert(unchecked(s, n as int) + s.skip(n as int) =~= unchecked(s, n as int));
    let count: usize = n - k;
    let sync = sync_after_batch_change(batch);
    let text = if count > 0 {
        let c = to_decimal(count as u64);
        Some(join3("Removed ", c.as_str(), " image(s)"))
    } else {
        None
    };
    RemovedMany { count, text, sync }
}

/// What is left after removing the checked items has none checked.
pub proof fn nothing_checked_is_left(s: Seq<BatchItem>, n: int)
    requires
        0 <= n <= s.len(),
    ensures
        forall|i: int|
            0 <= i < unchecked(s, n).len() ==> !(#[trigger] unchecked(s, n)[i]).selected,
    decreases n,
{
    if n > 0 {
        nothing_checked_is_left(s, n - 1);
        let before = unchecked(s, n - 1);
        assert forall|i: int| 0 <= i < unchecked(s, n).len() implies !(#[trigger] unchecked(
            s,
            n,
        )[i]).selected by {
            if i < before.len() {
                assert(unchecked(s, n)[i] == before[i]);
            }
        }
    }
}

/// Removes an item. Returns the files of its history that are no longer needed.
pub fn remove_batch_item(batch: &mut BatchManager, idx: usize) -> (r: Vec<String>)
    ensures
        final(batch).next_id == old(batch).next_id,
        if idx < old(batch).items@.len() {
            let left = old(batch).items@.remove(idx as int);
            &&& final(batch).items@ == left
            &&& r@ == files(old(batch).items@[idx as int].history@) + files(
                old(batch).items@[idx as int].redo_stack@,
            )
            &&& final(batch).selected_index == if left.len() == 0 {
                0
            } else if old(batch).selected_index < left.len() {
                old(batch).selected_index as int
            } else {
                left.len() - 1
            }
        } else {
            *final(batch) == *old(batch) && r@.len() == 0
        },
{
    let removed = batch.remove(idx);
    if removed.removed {
        sync_after_batch_change(batch);
    }
    removed.delete
}

/// How a drag out of the window goes on.
#[derive(Clone, Copy, Debug, PartialEq, Eq, Structural)]
pub enum DragStep {
    /// There is nothing to drag.
    Nothing,
    /// The system takes over.
    Start,
    /// The system does not support it; `tell` says whether the user is to be told.
    Unsupported { tell: bool },
}

/// Begins a drag out of the window. Where the system does not support it the user
/// is told once.
pub fn initiate_drag_out(state: &mut DragExportState, ids: &Vec<u64>, files: usize, supported: bool) -> (r:
    DragStep)
    ensures
        final(state).pending == old(state).pending,
        if files == 0 {
            r == DragStep::Nothing && *final(state) == *old(state)
        } else if supported {
            &&& r == DragStep::Start
            &&& final(state).active
            &&& forall|id: u64| final(state).items@.contains(id) <==> ids@.contains(id)
            &&& final(state).linux_notified == old(state).linux_notified
        } else {
            &&& r == (DragStep::Unsupported { tell: !old(state).linux_notified })
            &&& !final(state).active
            &&& final(state).items@ == Set::<u64>::empty()
            &&& final(state).linux_notified
        },
{
    if files == 0 {
        return DragStep::Nothing;
    }
    state.begin(ids);
    if supported {
        return DragStep::Start;
    }
    state.reset();
    let tell = !state.linux_notified;
    state.linux_notified = true;
    DragStep::Unsupported { tell }
}

/// Items with some given back to waiting, where they are being processed.
pub open spec fn given_back(s: Seq<BatchItem>, ids: Seq<u64>) -> Seq<BatchItem> {
    Seq::new(
        s.len(),
        |i: int|
            if ids.contains(s[i].id) && s[i].selected && s[i].status is Processing {
                BatchItem { status: BatchStatus::Pending, ..s[i] }
            } else {
                s[i]
            },
    )
}

/// What the user is told when items are cancelled; nothing where there are none.
pub fn cancelling_text(count: usize) -> (r: Option<String>)
    ensures
        crate::app_process::shown(r) == if count == 0 {
            None
        } else {
            Some("Cancelling "@ + decimal(count as nat) + " image(s)"@)
        },
{
    if count == 0 {
        return None;
    }
    let n = to_decimal(count as u64);
    Some(join3("Cancelling ", n.as_str(), " image(s)"))
}

/// Cancels the checked items that are being processed: they wait again at once,
/// and what comes back of them later does not count. Returns their number.
pub fn handle_cancel_selected(batch: &mut BatchManager, processor: &mut Processor) -> (r: usize)
    ensures
        ({
            let ids = checked_ids_in(old(batch).items@, BatchStatus::Processing);
            &&& r == ids.len()
            &&& final(batch).items@ == given_back(old(batch).items@, ids)
            &&& final(batch).selected_index == old(batch).selected_index
            &&& final(batch).next_id == old(batch).next_id
            &&& final(processor).cancels.all() == old(processor).cancels.all()
            &&& forall|id: u64|
                final(processor).cancels.items().contains(id) <==> old(
                    processor,
                ).cancels.items().contains(id) || ids.contains(id)
            &&& *final(processor) == (Processor {
                cancels: final(processor).cancels,
                ..*old(processor)
            })
        }),
{
    let targets = batch.selected_ids_with_status(&BatchStatus::Processing);
    let mut k: usize = 0;
    while k < targets.len()
        invariant
            k <= targets@.len(),
            processor.cancels.all() == old(processor).cancels.all(),
            forall|id: u64|
                processor.cancels.items().contains(id) <==> old(
                    processor,
                ).cancels.items().contains(id) || targets@.take(k as int).contains(id),
            *processor == (Processor { cancels: processor.cancels, ..*old(processor) }),
        decreases targets@.len() - k,
    {
        processor.cancels.request_item_cancel(targets[k]);
        proof {
            let a = targets@.take(k as int);
            let b = targets@.take(k as int + 1);
            assert(b =~= a.push(targets@[k as int]));
            assert forall|id: u64| b.contains(id) <==> a.contains(id) || id == targets@[k as int] by {
                if a.contains(id) {
                    let j = a.index_of(id);
                    assert(b[j] == id);
                }
                if id == targets@[k as int] {
                    assert(b[k as int] == id);
                }
            }
        }
        k += 1;
    }
    assert(targets@.take(targets@.len() as int) =~= targets@);
    let ghost s = batch.items@;
    let mut i: usize = 0;
    while i < batch.items.len()
        invariant
            i <= batch.items@.len(),
            batch.items@.len() == s.len(),
            s == old(batch).items@,
            targets@ == checked_ids_in(s, BatchStatus::Processing),
            batch.selected_index == old(batch).selected_index,
            batch.next_id == old(batch).next_id,
            forall|j: int| i <= j < s.len() ==> batch.items@[j] == s[j],
            forall|j: int|
                0 <= j < i ==> #[trigger] batch.items@[j] == given_back(s, targets@)[j],
        decreases batch.items@.len() - i,
    {
        let busy = match batch.items[i].status {
            BatchStatus::Processing => true,
            _ => false,
        };
        if busy && batch.items[i].selected {
            proof {
                checked_id_is_found(s, i as int);
            }
            batch.items[i].status = BatchStatus::Pending;
        }
        i += 1;
    }
    assert(batch.items@ =~= given_back(s, targets@));
    targets.len()
}

proof fn checked_id_is_found(s: Seq<BatchItem>, i: int)
    requires
        0 <= i < s.len(),
        s[i].selected,
        s[i].status is Processing,
    ensures
        checked_ids_in(s, BatchStatus::Processing).contains(s[i].id),
    decreases s.len(),
{
    let t = s.drop_last();
    let before = checked_ids_in(t, BatchStatus::Processing);
    let all = checked_ids_in(s, BatchStatus::Processing);
    if i < t.len() {
        assert(t[i] == s[i]);
        checked_id_is_found(t, i);
        let j = before.index_of(s[i].id);
        assert(all[j] == s[i].id);
    } else {
        assert(all[before.len() as int] == s[i].id);
    }
}

/// What is saved is what is checked and finished with a result: every such item, and no
/// other, each once and in the order of the batch.
pub proof fn checked_results_are_saved(s: Seq<BatchItem>, n: int)
    requires
        0 <= n <= s.len(),
        s.len() <= usize::MAX,
    ensures
        forall|i: int|
            0 <= i < n ==> (saved_positions(s, n).contains(i as usize) <==> (
            #[trigger] s[i]).selected && s[i].status is Done && s[i].result_rgba is Some),
        forall|k: int|
            0 <= k < saved_positions(s, n).len() ==> #[trigger] saved_positions(s, n)[k] < n,
        forall|k: int, l: int|
            0 <= k < l < saved_positions(s, n).len() ==> saved_positions(s, n)[k]
                < saved_positions(s, n)[l],
    decreases n,
{
    if n > 0 {
        checked_results_are_saved(s, n - 1);
        let before = saved_positions(s, n - 1);
        let all = saved_positions(s, n);
        let last = s[n - 1];
        if is_saved(last) {
            assert(all == before.push((n - 1) as usize));
            assert(all[before.len() as int] == (n - 1) as usize);
        } else {
            assert(all == before);
        }
        assert forall|i: int| 0 <= i < n implies (all.contains(i as usize) <==> (
        #[trigger] s[i]).selected && s[i].status is Done && s[i].result_rgba is Some) by {
            if i < n - 1 {
                assert(s[i].selected || !s[i].selected);
                if before.contains(i as usize) {
                    let k = before.index_of(i as usize);
                    assert(all[k] == i as usize);
                }
                if all.contains(i as usize) {
                    let k = all.index_of(i as usize);
                    if k < before.len() {
                        assert(before[k] == i as usize);
                    }
                }
            } else if all.contains(i as usize) {
                let k = all.index_of(i as usize);
                if k < before.len() {
                    assert(before[k] == i as usize);
                    assert(before[k] < n - 1);
                }
            }
        }
        assert forall|k: int, l: int| 0 <= k < l < all.len() implies all[k] < all[l] by {
            assert(before[k] == all[k]);
            if l < before.len() {
                assert(before[l] == all[l]);
            }
        }
    }
}

/// A saved file is named after its picture: the name without its ending, and an ending
/// of its own, so that the picture itself is never overwritten.
pub proof fn saved_files_are_named_after_their_picture(dir: Seq<char>, stem: Seq<char>, ext: Seq<char>)
    requires
        dir.len() == 0 || dir.last() == '/',
        stem.len() > 0,
        forall|k: int| 0 <= k < stem.len() ==> stem[k] != '/',
        ext.len() > 0,
        forall|k: int| 0 <= k < ext.len() ==> ext[k] != '.' && ext[k] != '/',
    ensures
        saved_name(dir + (stem + seq!['.'] + ext)) == stem + "-nobg.png"@,
        suggested_name(dir + (stem + seq!['.'] + ext)) == stem + "-nobg.png"@,
        stem + "-nobg.png"@ != stem + seq!['.'] + ext,
{
    let name = stem + seq!['.'] + ext;
    assert forall|k: int| 0 <= k < name.len() implies name[k] != '/' by {
        if k < stem.len() {
            assert(name[k] == stem[k]);
        } else if k > stem.len() {
            assert(name[k] == ext[k - stem.len() - 1]);
        }
    }
    assert(name.len() >= 3);
    names_are_found(dir, name);
    extensions_are_found(stem, ext);
    reveal_strlit("-nobg.png");
    let saved = stem + "-nobg.png"@;
    assert(saved[stem.len() as int] == '-');
    assert(name[stem.len() as int] == '.');
}

/// What is copied is the first checked result; where none is checked, another is only
/// taken from the viewed item.
pub proof fn the_first_checked_result_is_copied(s: Seq<BatchItem>, n: int)
    requires
        0 <= n <= s.len(),
        s.len() <= usize::MAX,
    ensures
        match first_checked_result(s, n) {
            Some(i) => i < n && s[i as int].selected && s[i as int].result_rgba is Some
                && forall|j: int|
                0 <= j < i ==> !((#[trigger] s[j]).selected && s[j].result_rgba is Some),
            None => forall|j: int|
                0 <= j < n ==> !((#[trigger] s[j]).selected && s[j].result_rgba is Some),
        },
        checked_results(s, n) > 0 <==> first_checked_result(s, n) is Some,
        0 <= checked_results(s, n) <= n,
    decreases n,
{
    if n > 0 {
        the_first_checked_result_is_copied(s, n - 1);
    }
}

/// Removing takes the checked items and no others: what is left are the unchecked ones,
/// all of them and in their order.
pub proof fn only_checked_items_are_removed(s: Seq<BatchItem>, n: int, i: int)
    requires
        0 <= i < n <= s.len(),
    ensures
        !s[i].selected ==> unchecked(s, n).contains(s[i]),
        unchecked(s, n).len() <= n,
    decreases n,
{
    let before = unchecked(s, n - 1);
    let all = unchecked(s, n);
    if n == 1 {
        assert(before.len() == 0);
        if !s[0].selected {
            assert(all[0] == s[0]);
        }
    } else if i < n - 1 {
        only_checked_items_are_removed(s, n - 1, i);
        if before.contains(s[i]) {
            let k = before.index_of(s[i]);
            assert(all[k] == s[i]);
        }
    } else {
        only_checked_items_are_removed(s, n - 1, 0);
        if !s[i].selected {
            assert(all[before.len() as int] == s[i]);
        }
    }
}

/// Every file that was to be written counts once, as written or as failed; a save is
/// without failures exactly where all were written.
pub proof fn files_count_once(results: Seq<bool>)
    ensures
        0 <= written_count(results) <= results.len(),
        written_count(results) == results.len() <==> forall|i: int|
            0 <= i < results.len() ==> #[trigger] results[i],
    decreases results.len(),
{
    if results.len() > 0 {
        let before = results.drop_last();
        files_count_once(before);
        assert(results.last() == results[results.len() - 1]);
        assert forall|i: int| 0 <= i < before.len() implies #[trigger] before[i]
            == results[i] by {}
        if forall|i: int| 0 <= i < results.len() ==> #[trigger] results[i] {
            assert forall|i: int| 0 <= i < before.len() implies #[trigger] before[i] by {
                assert(results[i]);
            }
        }
        if written_count(results) == results.len() {
            assert forall|i: int| 0 <= i < results.len() implies #[trigger] results[i] by {
                if i < before.len() {
                    assert(before[i]);
                }
            }
        }
    }
}

/// Cancelling gives every checked item that is being processed back to waiting, and
/// touches nothing else of the batch.
pub proof fn cancelling_gives_checked_items_back(s: Seq<BatchItem>, i: int)
    requires
        0 <= i < s.len(),
    ensures
        ({
            let t = given_back(s, checked_ids_in(s, BatchStatus::Processing));
            &&& t.len() == s.len()
            &&& s[i].selected && s[i].status is Processing ==> t[i].status is Pending
            &&& !(s[i].selected && s[i].status is Processing) ==> t[i] == s[i]
            &&& t[i] == (BatchItem { status: t[i].status, ..s[i] })
        }),
{
    if s[i].selected && s[i].status is Processing {
        checked_id_is_found(s, i);
    }
}

} // verus!
