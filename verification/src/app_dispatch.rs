//! Handing items of a batch to the workers: what they keep for undo, what each
//! worker gets, and how many are admitted at a time.
use vstd::prelude::*;
use std::collections::HashSet;
use std::sync::Arc;
use crate::batch_manager::BatchManager;
use crate::history_manager::{archived, files, pushed, seeded, HistoryManager};
use crate::item::{newest, BatchItem, BatchStatus, CachedTensor, Caches, Drawn, HistoryEntry};
use crate::item_settings::{default_item_settings, ItemSettings};
use crate::memory::{
    admission_makes_progress, balanced_admission_fits, choice_is_waiting, in_order, Admission, AdmissionController, ImageMemCost,
};
use crate::pipeline::{EdgeSettings, LineMode, MaskSettings, ModelKind};
use crate::pixmap::{share_opt, Pixmap};
use crate::processor::Processor;
use crate::tables::set_of;
use crate::text::join2;

verus! {

broadcast use vstd::std_specs::hash::group_hash_axioms;

/// What is drawn of an item whose result is about to be made anew.
pub open spec fn drawn_for_rerun(d: Drawn, chain: bool) -> Drawn {
    Drawn {
        result_texture: chain && d.result_texture,
        thumb_texture: false,
        thumb_pending: false,
        source_tex_pending: false,
        result_tex_pending: false,
        ..d
    }
}

/// Whether `b` is `a` made ready for another run: its history starts from the
/// source, and its result is on it. `dropped` are the files of entries that fell
/// off.
pub open spec fn readied(
    a: BatchItem,
    b: BatchItem,
    max_depth: usize,
    chain: bool,
    dropped: Seq<String>,
) -> bool {
    exists|mid: BatchItem, kept: BatchItem|
        {
            &&& #[trigger] seeded(a, mid)
            &&& #[trigger] archived(mid, kept, max_depth, chain, dropped)
            &&& b == if a.status is Done {
                BatchItem { drawn: drawn_for_rerun(kept.drawn, chain), ..kept }
            } else {
                kept
            }
        }
}

/// Whether `b` is `a` made ready for another run if it is asked for, else `a`
/// itself.
pub open spec fn readied_if(
    asked: bool,
    a: BatchItem,
    b: BatchItem,
    max_depth: usize,
    chain: bool,
    dropped: Seq<String>,
) -> bool {
    if asked {
        readied(a, b, max_depth, chain, dropped)
    } else {
        b == a && dropped.len() == 0
    }
}

/// Makes an item ready for another run. Returns the files that are no longer
/// needed.
fn ready_item(item: &mut BatchItem, max_depth: usize, chain: bool) -> (r: Vec<String>)
    requires
        old(item).wf(),
    ensures
        final(item).wf(),
        readied(*old(item), *final(item), max_depth, chain, r@),
{
    HistoryManager::seed_with_source(item);
    let ghost mid = *item;
    let was_done = match item.status {
        BatchStatus::Done => true,
        _ => false,
    };
    let dropped = HistoryManager::archive_current_result(item, max_depth, chain);
    let ghost kept = *item;
    assert(seeded(*old(item), mid));
    assert(archived(mid, kept, max_depth, chain, dropped@));
    if was_done {
        if !chain {
            item.drawn.result_texture = false;
        }
        item.drawn.thumb_texture = false;
        item.drawn.thumb_pending = false;
        item.drawn.source_tex_pending = false;
        item.drawn.result_tex_pending = false;
        assert(item.drawn == drawn_for_rerun(kept.drawn, chain));
    }
    dropped
}

/// Whether every item of a batch has whole pictures.
pub open spec fn all_wf(s: Seq<BatchItem>) -> bool {
    forall|i: int| 0 <= i < s.len() ==> (#[trigger] s[i]).wf()
}

/// Makes the given items ready for another run. For each item of the batch the
/// files that it no longer needs are returned.
pub fn seed_history_for_reprocess(
    items: &mut Vec<BatchItem>,
    ids: &HashSet<u64>,
    max_depth: usize,
    chain: bool,
) -> (r: Vec<Vec<String>>)
    requires
        all_wf(old(items)@),
    ensures
        all_wf(final(items)@),
        final(items)@.len() == old(items)@.len(),
        r@.len() == old(items)@.len(),
        forall|i: int|
            0 <= i < old(items)@.len() ==> readied_if(
                ids@.contains(old(items)@[i].id),
                old(items)@[i],
                #[trigger] final(items)@[i],
                max_depth,
                chain,
                r@[i]@,
            ),
{
    let ghost before = items@;
    let mut r: Vec<Vec<String>> = Vec::new();
    let mut i: usize = 0;
    while i < items.len()
        invariant
            i <= items@.len(),
            items@.len() == before.len(),
            r@.len() == i,
            all_wf(items@),
            forall|j: int| i <= j < before.len() ==> items@[j] == before[j],
            forall|j: int|
                0 <= j < i ==> readied_if(
                    ids@.contains(before[j].id),
                    before[j],
                    #[trigger] items@[j],
                    max_depth,
                    chain,
                    r@[j]@,
                ),
        decreases items@.len() - i,
    {
        assert(items@[i as int].wf());
        let ghost had = items@;
        let ghost lists = r@;
        if ids.contains(&items[i].id) {
            let dropped = ready_item(&mut items[i], max_depth, chain);
            r.push(dropped);
        } else {
            r.push(Vec::new());
        }
        assert forall|j: int| 0 <= j < i + 1 implies readied_if(
            ids@.contains(before[j].id),
            before[j],
            #[trigger] items@[j],
            max_depth,
            chain,
            r@[j]@,
        ) by {
            if j < i {
                assert(items@[j] == had[j]);
                assert(r@[j] == lists[j]);
            }
        }
        i += 1;
    }
    r
}

/// What came of loading what a rerun needs.
pub enum Loaded {
    /// The tensor and the picture's file are there.
    Ready,
    /// The tensor cannot be decompressed.
    TensorCorrupt,
    /// The file cannot be read.
    Failed(String),
}

/// A rerun from the cached segmentation.
#[derive(Clone, Copy, Debug, PartialEq, Eq, Structural)]
pub struct RerunWork {
    pub item_id: u64,
    /// Position of the item in the batch.
    pub position: usize,
    pub tensor: CachedTensor,
    pub mask: MaskSettings,
}

/// The two kinds of rerun.
#[derive(Clone, Copy, Debug, PartialEq, Eq, Structural)]
pub enum RerunKind {
    Mask,
    AddEdge,
}

/// What an item says when its tensor cannot be decompressed.
pub open spec fn corrupt_text(kind: RerunKind) -> Seq<char> {
    match kind {
        RerunKind::Mask => "Tensor cache corrupt"@,
        RerunKind::AddEdge => "Seg tensor cache corrupt"@,
    }
}

/// Whether an item says that it failed.
pub open spec fn says(status: BatchStatus, text: Seq<char>) -> bool {
    status matches BatchStatus::Error(t) && t@ == text
}

/// Whether `b` is `a` after its rerun was set up. A tensor that is of no use is
/// forgotten, together with the recipe, so that the next run is a full one; only
/// adding edges keeps them where the file cannot be read.
pub open spec fn set_up(a: BatchItem, b: BatchItem, loaded: Loaded, kind: RerunKind) -> bool {
    let forgetful = BatchItem {
        caches: Caches { tensor: None, ..a.caches },
        applied_recipe: None,
        status: b.status,
        ..a
    };
    match loaded {
        Loaded::Ready => b == (BatchItem { status: BatchStatus::Processing, ..a }),
        Loaded::TensorCorrupt => b == forgetful && says(b.status, corrupt_text(kind)),
        Loaded::Failed(e) => says(b.status, "Failed to load: "@ + e@) && b == if kind
            == RerunKind::Mask {
            forgetful
        } else {
            BatchItem { status: b.status, ..a }
        },
    }
}

/// Sets up the rerun of an item that has a tensor.
fn set_up_item(item: &mut BatchItem, loaded: &Loaded, kind: RerunKind)
    ensures
        set_up(*old(item), *final(item), *loaded, kind),
{
    match loaded {
        Loaded::Ready => {
            item.status = BatchStatus::Processing;
        },
        Loaded::TensorCorrupt => {
            let text = match kind {
                RerunKind::Mask => "Tensor cache corrupt".to_owned(),
                RerunKind::AddEdge => "Seg tensor cache corrupt".to_owned(),
            };
            item.status = BatchStatus::Error(text);
            item.caches.tensor = None;
            item.applied_recipe = None;
        },
        Loaded::Failed(e) => {
            item.status = BatchStatus::Error(join2("Failed to load: ", e.as_str()));
            if kind == RerunKind::Mask {
                item.caches.tensor = None;
                item.applied_recipe = None;
            }
        },
    }
}

/// Whether an item gets a rerun: it is asked for and has a tensor.
pub open spec fn has_rerun(item: BatchItem, ids: Set<u64>) -> bool {
    ids.contains(item.id) && item.caches.tensor is Some
}

/// Reruns of the first `n` items for which everything could be loaded.
pub open spec fn reruns(s: Seq<BatchItem>, ids: Set<u64>, loads: Seq<Loaded>, n: int) -> Seq<
    RerunWork,
>
    decreases n,
{
    if n <= 0 {
        Seq::empty()
    } else {
        let a = s[n - 1];
        match (a.caches.tensor, loads[n - 1]) {
            (Some(tensor), Loaded::Ready) => if ids.contains(a.id) {
                reruns(s, ids, loads, n - 1).push(
                    RerunWork {
                        item_id: a.id,
                        position: (n - 1) as usize,
                        tensor,
                        mask: a.settings.mask_part(),
                    },
                )
            } else {
                reruns(s, ids, loads, n - 1)
            },
            _ => reruns(s, ids, loads, n - 1),
        }
    }
}

/// Sets up the reruns of the given items. `loads` says, for each item of the
/// batch, what came of loading what it needs.
fn build_work(
    items: &mut Vec<BatchItem>,
    ids: &HashSet<u64>,
    loads: &Vec<Loaded>,
    kind: RerunKind,
) -> (r: Vec<RerunWork>)
    requires
        loads@.len() == old(items)@.len(),
    ensures
        set_up_all(old(items)@, final(items)@, ids@, loads@, kind),
        r@ == reruns(old(items)@, ids@, loads@, old(items)@.len() as int),
{
    let ghost before = items@;
    let mut r: Vec<RerunWork> = Vec::new();
    let mut i: usize = 0;
    while i < items.len()
        invariant
            i <= items@.len(),
            items@.len() == before.len(),
            loads@.len() == before.len(),
            r@ == reruns(before, ids@, loads@, i as int),
            forall|j: int| i <= j < before.len() ==> items@[j] == before[j],
            forall|j: int|
                0 <= j < i ==> if has_rerun(before[j], ids@) {
                    set_up(before[j], #[trigger] items@[j], loads@[j], kind)
                } else {
                    items@[j] == before[j]
                },
        decreases items@.len() - i,
    {
        let id: u64 = items[i].id;
        if ids.contains(&id) {
            if let Some(tensor) = items[i].caches.tensor {
                match &loads[i] {
                    Loaded::Ready => {
                        let mask = items[i].settings.mask_settings();
                        r.push(RerunWork { item_id: id, position: i, tensor, mask });
                    },
                    _ => {},
                }
                set_up_item(&mut items[i], &loads[i], kind);
            }
        }
        i += 1;
    }
    r
}

/// Whether reruns of the given items were set up, and nothing else changed.
pub open spec fn set_up_all(
    a: Seq<BatchItem>,
    b: Seq<BatchItem>,
    ids: Set<u64>,
    loads: Seq<Loaded>,
    kind: RerunKind,
) -> bool {
    &&& b.len() == a.len()
    &&& forall|i: int|
        0 <= i < a.len() ==> if has_rerun(a[i], ids) {
            set_up(a[i], #[trigger] b[i], loads[i], kind)
        } else {
            b[i] == a[i]
        }
}

/// Sets up mask reruns. `loads` says, for each item of the batch, what came of
/// loading its tensor and file.
pub fn build_tier2_work(items: &mut Vec<BatchItem>, ids: &HashSet<u64>, loads: &Vec<Loaded>) -> (r:
    Vec<RerunWork>)
    requires
        loads@.len() == old(items)@.len(),
    ensures
        set_up_all(old(items)@, final(items)@, ids@, loads@, RerunKind::Mask),
        r@ == reruns(old(items)@, ids@, loads@, old(items)@.len() as int),
{
    build_work(items, ids, loads, RerunKind::Mask)
}

/// Sets up edge detection on cached segmentations. `loads` says, for each item of
/// the batch, what came of loading its tensor and file.
pub fn build_add_edge_work(items: &mut Vec<BatchItem>, ids: &HashSet<u64>, loads: &Vec<Loaded>) -> (r:
    Vec<RerunWork>)
    requires
        loads@.len() == old(items)@.len(),
    ensures
        set_up_all(old(items)@, final(items)@, ids@, loads@, RerunKind::AddEdge),
        r@ == reruns(old(items)@, ids@, loads@, old(items)@.len() as int),
{
    build_work(items, ids, loads, RerunKind::AddEdge)
}

/// A full run of an item. In chain mode its last result is the input.
pub struct WorkItem {
    pub item_id: u64,
    pub chain_input: Option<Arc<Pixmap>>,
}

/// Position of the first item with an id.
pub open spec fn place_of(s: Seq<BatchItem>, id: u64) -> Option<int>
    decreases s.len(),
{
    if s.len() == 0 {
        None
    } else if place_of(s.drop_last(), id) is Some {
        place_of(s.drop_last(), id)
    } else if s.last().id == id {
        Some(s.len() - 1)
    } else {
        None
    }
}

/// The position found is the first item with the id.
pub proof fn place_is_first(s: Seq<BatchItem>, id: u64)
    ensures
        match place_of(s, id) {
            Some(i) => 0 <= i < s.len() && s[i].id == id && forall|j: int|
                0 <= j < i ==> (#[trigger] s[j]).id != id,
            None => forall|j: int| 0 <= j < s.len() ==> (#[trigger] s[j]).id != id,
        },
    decreases s.len(),
{
    if s.len() > 0 {
        place_is_first(s.drop_last(), id);
        let t = s.drop_last();
        if let Some(i) = place_of(t, id) {
            assert(s[i] == t[i]);
            assert forall|j: int| 0 <= j < i implies (#[trigger] s[j]).id != id by {
                assert(t[j] == s[j]);
            }
        } else {
            assert forall|j: int| 0 <= j < t.len() implies (#[trigger] s[j]).id != id by {
                assert(t[j] == s[j]);
            }
        }
    }
}

/// Items with the first one of an id being processed.
pub open spec fn started(s: Seq<BatchItem>, id: u64) -> Seq<BatchItem> {
    match place_of(s, id) {
        Some(i) => s.update(i, BatchItem { status: BatchStatus::Processing, ..s[i] }),
        None => s,
    }
}

/// Items after the first `n` of the given ids were started, where their files
/// could be read.
pub open spec fn after_starts(s: Seq<BatchItem>, ids: Seq<u64>, loaded: Seq<bool>, n: int) -> Seq<
    BatchItem,
>
    decreases n,
{
    if n <= 0 {
        s
    } else if loaded[n - 1] {
        started(after_starts(s, ids, loaded, n - 1), ids[n - 1])
    } else {
        after_starts(s, ids, loaded, n - 1)
    }
}

/// Whether `r` are the full runs of the first `n` of the given ids whose files
/// could be read, in order.
pub open spec fn full_runs(
    s: Seq<BatchItem>,
    ids: Seq<u64>,
    loaded: Seq<bool>,
    chain: bool,
    n: int,
) -> Seq<WorkItem>
    decreases n,
{
    if n <= 0 {
        Seq::empty()
    } else {
        let before = full_runs(s, ids, loaded, chain, n - 1);
        match place_of(s, ids[n - 1]) {
            Some(i) => if loaded[n - 1] {
                before.push(
                    WorkItem {
                        item_id: ids[n - 1],
                        chain_input: if chain {
                            s[i].result_rgba
                        } else {
                            None
                        },
                    },
                )
            } else {
                before
            },
            None => before,
        }
    }
}

/// Starting items changes nothing but their status.
pub proof fn starting_changes_only_status(
    s: Seq<BatchItem>,
    ids: Seq<u64>,
    loaded: Seq<bool>,
    n: int,
)
    ensures
        after_starts(s, ids, loaded, n).len() == s.len(),
        forall|i: int|
            0 <= i < s.len() ==> #[trigger] after_starts(s, ids, loaded, n)[i] == (BatchItem {
                status: after_starts(s, ids, loaded, n)[i].status,
                ..s[i]
            }),
        forall|i: int|
            0 <= i < s.len() ==> {
                ||| (#[trigger] after_starts(s, ids, loaded, n)[i]).status
                    == BatchStatus::Processing
                ||| after_starts(s, ids, loaded, n)[i] == s[i]
            },
    decreases n,
{
    if n > 0 {
        starting_changes_only_status(s, ids, loaded, n - 1);
        let t = after_starts(s, ids, loaded, n - 1);
        place_is_first(t, ids[n - 1]);
    }
}

proof fn same_places(s: Seq<BatchItem>, t: Seq<BatchItem>, id: u64)
    requires
        s.len() == t.len(),
        forall|i: int| 0 <= i < s.len() ==> (#[trigger] t[i]).id == s[i].id,
    ensures
        place_of(s, id) == place_of(t, id),
    decreases s.len(),
{
    if s.len() > 0 {
        assert forall|i: int| 0 <= i < s.len() - 1 implies (#[trigger] t.drop_last()[i]).id
            == s.drop_last()[i].id by {
            assert(t.drop_last()[i] == t[i]);
            assert(s.drop_last()[i] == s[i]);
        }
        same_places(s.drop_last(), t.drop_last(), id);
        assert(t.last() == t[t.len() - 1]);
    }
}

/// Starts full runs of the given items. `loaded` says for each whether its file
/// could be read; one that could not is passed over.
pub fn start_full_runs(
    batch: &mut BatchManager,
    ids: &Vec<u64>,
    loaded: &Vec<bool>,
    chain: bool,
) -> (r: Vec<WorkItem>)
    requires
        loaded@.len() == ids@.len(),
    ensures
        final(batch).items@ == after_starts(old(batch).items@, ids@, loaded@, ids@.len() as int),
        final(batch).selected_index == old(batch).selected_index,
        final(batch).next_id == old(batch).next_id,
        r@ == full_runs(old(batch).items@, ids@, loaded@, chain, ids@.len() as int),
{
    let ghost before = batch.items@;
    let mut r: Vec<WorkItem> = Vec::new();
    let mut k: usize = 0;
    while k < ids.len()
        invariant
            k <= ids@.len(),
            loaded@.len() == ids@.len(),
            batch.items@ == after_starts(before, ids@, loaded@, k as int),
            batch.selected_index == old(batch).selected_index,
            batch.next_id == old(batch).next_id,
            r@ == full_runs(before, ids@, loaded@, chain, k as int),
        decreases ids@.len() - k,
    {
        proof {
            starting_changes_only_status(before, ids@, loaded@, k as int);
            same_places(before, batch.items@, ids@[k as int]);
            place_is_first(batch.items@, ids@[k as int]);
        }
        if loaded[k] {
            match batch.index_of(ids[k]) {
                Some(i) => {
                    assert(place_of(batch.items@, ids@[k as int]) == Some(i as int));
                    let chain_input = if chain {
                        share_opt(&batch.items[i].result_rgba)
                    } else {
                        None
                    };
                    r.push(WorkItem { item_id: ids[k], chain_input });
                    batch.items[i].status = BatchStatus::Processing;
                },
                None => {},
            }
        }
        k += 1;
    }
    r
}

/// Bytes of an item's file, as far as they are known.
pub open spec fn source_bytes(item: BatchItem, file_len: Option<usize>) -> int {
    match item.source {
        crate::item::ImageSource::Path(_) => match file_len {
            Some(n) => n as int,
            None => 0,
        },
        crate::item::ImageSource::Bytes(b) => b@.len() as int,
    }
}

/// Memory that processing an item takes: its pixels twice, and its file.
pub open spec fn item_cost(item: BatchItem, file_len: Option<usize>) -> int {
    8 * (item.dimensions.0 as int * item.dimensions.1 as int) + source_bytes(item, file_len)
}

/// Whether the memory that processing an item takes is within the machine's range.
pub fn item_cost_fits(item: &BatchItem, file_len: Option<usize>) -> (r: bool)
    ensures
        r == (item_cost(*item, file_len) <= usize::MAX),
{
    let w: u32 = item.dimensions.0;
    let h: u32 = item.dimensions.1;
    proof {
        assert(0 <= w as int * h as int <= 0xFFFF_FFFF * 0xFFFF_FFFF) by (nonlinear_arith)
            requires
                0 <= w <= 0xFFFF_FFFF,
                0 <= h <= 0xFFFF_FFFF,
        ;
    }
    let size: usize = item.source.estimated_size(file_len);
    let pixels: u64 = w as u64 * h as u64;
    let cost: u128 = pixels as u128 * 8 + size as u128;
    cost <= usize::MAX as u128
}

/// Costs of those of the first `n` items that are asked for.
pub open spec fn costs_of(
    s: Seq<BatchItem>,
    ids: Set<u64>,
    file_lens: Seq<Option<usize>>,
    n: int,
) -> Seq<ImageMemCost>
    decreases n,
{
    if n <= 0 {
        Seq::empty()
    } else if ids.contains(s[n - 1].id) {
        costs_of(s, ids, file_lens, n - 1).push(
            ImageMemCost {
                item_id: s[n - 1].id,
                total: item_cost(s[n - 1], file_lens[n - 1]) as usize,
            },
        )
    } else {
        costs_of(s, ids, file_lens, n - 1)
    }
}

/// Costs of the items that are asked for. `file_lens` says, for each item of the
/// batch, how long its file is.
pub fn full_run_costs(items: &Vec<BatchItem>, ids: &HashSet<u64>, file_lens: &Vec<Option<usize>>) -> (r:
    Vec<ImageMemCost>)
    requires
        file_lens@.len() == items@.len(),
        forall|i: int|
            0 <= i < items@.len() && ids@.contains(items@[i].id) ==> item_cost(
                #[trigger] items@[i],
                file_lens@[i],
            ) <= usize::MAX,
    ensures
        r@ == costs_of(items@, ids@, file_lens@, items@.len() as int),
{
    let mut r: Vec<ImageMemCost> = Vec::new();
    let mut i: usize = 0;
    while i < items.len()
        invariant
            i <= items@.len(),
            file_lens@.len() == items@.len(),
            forall|j: int|
                0 <= j < items@.len() && ids@.contains(items@[j].id) ==> item_cost(
                    #[trigger] items@[j],
                    file_lens@[j],
                ) <= usize::MAX,
            r@ == costs_of(items@, ids@, file_lens@, i as int),
        decreases items@.len() - i,
    {
        let item = &items[i];
        if ids.contains(&item.id) {
            let size: usize = item.source.estimated_size(file_lens[i]);
            assert(item_cost(items@[i as int], file_lens@[i as int]) <= usize::MAX);
            r.push(AdmissionController::estimate_cost(item.id, item.dimensions, size));
        }
        i += 1;
    }
    r
}

/// What is admitted when nothing comes back: the books afterwards and the ids, in
/// order.
pub open spec fn admitted_now(a: Admission) -> (Admission, Seq<u64>)
    decreases a.pending.len(),
{
    match a.choice() {
        Some(i) => if 0 <= i < a.pending.len() {
            let rest = admitted_now(a.take(i));
            (rest.0, seq![a.pending[i].item_id] + rest.1)
        } else {
            (a, Seq::empty())
        },
        None => (a, Seq::empty()),
    }
}

/// Admits as many pictures as fit.
pub fn admit_all(ctrl: &mut AdmissionController) -> (r: Vec<u64>)
    requires
        old(ctrl)@.wf(),
        old(ctrl)@.balanced(),
    ensures
        (final(ctrl)@, r@) == admitted_now(old(ctrl)@),
        final(ctrl)@.wf(),
        final(ctrl)@.balanced(),
        old(ctrl)@.within_budget() ==> final(ctrl)@.within_budget(),
        final(ctrl)@.choice() is None,
        final(ctrl).total_items == old(ctrl).total_items,
{
    let mut r: Vec<u64> = Vec::new();
    assert(r@ + admitted_now(ctrl@).1 =~= admitted_now(ctrl@).1);
    loop
        invariant
            ctrl@.wf(),
            ctrl@.balanced(),
            old(ctrl)@.within_budget() ==> ctrl@.within_budget(),
            ctrl.total_items == old(ctrl).total_items,
            admitted_now(old(ctrl)@) == (admitted_now(ctrl@).0, r@ + admitted_now(ctrl@).1),
        ensures
            ctrl@.choice() is None,
        decreases ctrl@.pending.len(),
    {
        let ghost a = ctrl@;
        let ghost had = r@;
        proof {
            choice_is_waiting(a);
            if a.admitted.dom().len() == 0 {
                balanced_admission_fits(a);
            }
            if ctrl.pending@.len() > 0 {
                assert(a.pending.last() == ctrl.pending@.last());
            }
        }
        match ctrl.try_admit_next() {
            Some(id) => {
                r.push(id);
                assert(had + admitted_now(a).1 =~= r@ + admitted_now(ctrl@).1);
            },
            None => {
                break;
            },
        }
    }
    assert(r@ + Seq::<u64>::empty() =~= r@);
    r
}

/// Whether no two items have the same id.
pub open spec fn ids_differ(s: Seq<BatchItem>) -> bool {
    forall|i: int, j: int| 0 <= i < j < s.len() ==> s[i].id != s[j].id
}

proof fn costs_are_of_items(
    s: Seq<BatchItem>,
    ids: Set<u64>,
    file_lens: Seq<Option<usize>>,
    n: int,
)
    requires
        0 <= n <= s.len(),
        ids_differ(s),
    ensures
        costs_of(s, ids, file_lens, n).len() <= n,
        forall|k: int|
            0 <= k < costs_of(s, ids, file_lens, n).len() ==> exists|i: int|
                0 <= i < n && (#[trigger] s[i]).id == (#[trigger] costs_of(
                    s,
                    ids,
                    file_lens,
                    n,
                )[k]).item_id,
        forall|k: int, l: int|
            0 <= k < l < costs_of(s, ids, file_lens, n).len() ==> costs_of(
                s,
                ids,
                file_lens,
                n,
            )[k].item_id != costs_of(s, ids, file_lens, n)[l].item_id,
    decreases n,
{
    if n > 0 {
        costs_are_of_items(s, ids, file_lens, n - 1);
        let before = costs_of(s, ids, file_lens, n - 1);
        let all = costs_of(s, ids, file_lens, n);
        assert forall|k: int| 0 <= k < all.len() implies exists|i: int|
            0 <= i < n && (#[trigger] s[i]).id == (#[trigger] all[k]).item_id by {
            if k < before.len() {
                assert(all[k] == before[k]);
                let i = choose|i: int| 0 <= i < n - 1 && (#[trigger] s[i]).id == before[k].item_id;
                assert(s[i].id == all[k].item_id);
            } else {
                assert(s[n - 1].id == all[k].item_id);
            }
        }
        assert forall|k: int, l: int| 0 <= k < l < all.len() implies all[k].item_id
            != all[l].item_id by {
            assert(all[k] == before[k]);
            if l < before.len() {
                assert(all[l] == before[l]);
            } else {
                let i = choose|i: int| 0 <= i < n - 1 && (#[trigger] s[i]).id == before[k].item_id;
                assert(s[i].id != s[n - 1].id);
            }
        }
    }
}

/// Queues full runs with a controller that has nothing yet, and admits as many as
/// fit. Returns the admitted items, in order. `file_lens` says, for each item of
/// the batch, how long its file is.
pub fn queue_full_runs(
    items: &Vec<BatchItem>,
    ids: &HashSet<u64>,
    file_lens: &Vec<Option<usize>>,
    ctrl: &mut AdmissionController,
) -> (r: Vec<u64>)
    requires
        file_lens@.len() == items@.len(),
        ids_differ(items@),
        forall|i: int|
            0 <= i < items@.len() && ids@.contains(items@[i].id) ==> item_cost(
                #[trigger] items@[i],
                file_lens@[i],
            ) <= usize::MAX,
        old(ctrl).total_items == 0,
        old(ctrl)@.pending.len() == 0,
        old(ctrl)@.admitted == Map::<u64, usize>::empty(),
        old(ctrl)@.wf(),
        old(ctrl)@.balanced(),
    ensures
        (final(ctrl)@, r@) == admitted_now(
            Admission {
                pending: in_order(costs_of(items@, ids@, file_lens@, items@.len() as int)),
                ..old(ctrl)@
            },
        ),
        final(ctrl)@.wf(),
        final(ctrl)@.balanced(),
        final(ctrl)@.choice() is None,
        old(ctrl)@.within_budget() ==> final(ctrl)@.within_budget(),
{
    let costs = full_run_costs(items, ids, file_lens);
    let n: usize = items.len();
    proof {
        costs_are_of_items(items@, ids@, file_lens@, n as int);
        assert(ctrl@.pending + costs@ =~= costs@);
    }
    ctrl.enqueue(costs);
    admit_all(ctrl)
}

/// While items wait for a full run, one is being processed: a batch never stalls.
pub proof fn queued_runs_never_stall(a: Admission)
    requires
        a.pending.len() > 0,
        a.choice() is None,
    ensures
        a.admitted.dom().len() > 0,
{
    if a.admitted.dom().len() == 0 {
        admission_makes_progress(a);
    }
}

/// Items that are to get a full run but are not admitted yet wait.
pub fn hold_waiting(items: &mut Vec<BatchItem>, ids: &HashSet<u64>)
    ensures
        final(items)@.len() == old(items)@.len(),
        forall|i: int|
            0 <= i < old(items)@.len() ==> #[trigger] final(items)@[i] == if ids@.contains(
                old(items)@[i].id,
            ) && !(old(items)@[i].status is Processing) {
                BatchItem { status: BatchStatus::Pending, ..old(items)@[i] }
            } else {
                old(items)@[i]
            },
{
    let ghost before = items@;
    let mut i: usize = 0;
    while i < items.len()
        invariant
            i <= items@.len(),
            items@.len() == before.len(),
            forall|j: int| i <= j < before.len() ==> items@[j] == before[j],
            forall|j: int|
                0 <= j < i ==> #[trigger] items@[j] == if ids@.contains(before[j].id) && !(
                before[j].status is Processing) {
                    BatchItem { status: BatchStatus::Pending, ..before[j] }
                } else {
                    before[j]
                },
        decreases items@.len() - i,
    {
        let busy = match items[i].status {
            BatchStatus::Processing => true,
            _ => false,
        };
        if ids.contains(&items[i].id) && !busy {
            items[i].status = BatchStatus::Pending;
        }
        i += 1;
    }
}

/// What a worker processes a batch with.
#[derive(Clone, Copy, Debug, PartialEq, Eq, Structural)]
pub struct ProcessingConfig {
    pub model: ModelKind,
    pub jobs: usize,
    pub mask: MaskSettings,
    pub force_cpu: bool,
    pub line_mode: LineMode,
    pub edge: EdgeSettings,
}

/// What items with the given settings are processed with.
pub open spec fn config_for(s: ItemSettings, model: ModelKind, jobs: usize, force_cpu: bool) -> ProcessingConfig {
    ProcessingConfig {
        model,
        jobs,
        mask: s.mask_part(),
        force_cpu,
        line_mode: s.line_mode,
        edge: s.edge_part(),
    }
}

/// What items with the given settings are processed with.
pub fn processing_config(s: &ItemSettings, model: ModelKind, jobs: usize, force_cpu: bool) -> (r:
    ProcessingConfig)
    ensures
        r == config_for(*s, model, jobs, force_cpu),
{
    ProcessingConfig {
        model,
        jobs,
        mask: s.mask_settings(),
        force_cpu,
        line_mode: s.line_mode,
        edge: s.edge_settings(),
    }
}

/// What the worker is warmed up with at start, before there are any items. Without
/// a model there is nothing to warm up.
pub fn initial_processing_config(model: Option<ModelKind>, jobs: usize, force_cpu: bool) -> (r: Option<
    ProcessingConfig,
>)
    ensures
        r == match model {
            Some(m) => Some(config_for(default_item_settings(), m, jobs, force_cpu)),
            None => None,
        },
{
    match model {
        Some(m) => Some(processing_config(&ItemSettings::default(), m, jobs, force_cpu)),
        None => None,
    }
}

/// Settings of the viewed item; the defaults where there is none.
pub open spec fn viewed_settings(batch: BatchManager) -> ItemSettings {
    match batch.viewed_index() {
        Some(v) => batch.items@[v as int].settings,
        None => default_item_settings(),
    }
}

/// Ids of full runs.
pub open spec fn run_ids(w: Seq<WorkItem>) -> Seq<u64> {
    w.map_values(|x: WorkItem| x.item_id)
}

/// Ids of reruns.
pub open spec fn rerun_ids(w: Seq<RerunWork>) -> Seq<u64> {
    w.map_values(|x: RerunWork| x.item_id)
}

/// Ids of everything that is handed out.
fn work_ids(items: &Vec<WorkItem>, tier2: &Vec<RerunWork>, add_edge: &Vec<RerunWork>) -> (r: Vec<u64>)
    ensures
        r@ == run_ids(items@) + rerun_ids(tier2@) + rerun_ids(add_edge@),
{
    let mut r: Vec<u64> = Vec::new();
    let mut i: usize = 0;
    while i < items.len()
        invariant
            i <= items@.len(),
            r@ =~= run_ids(items@.take(i as int)),
        decreases items@.len() - i,
    {
        r.push(items[i].item_id);
        i += 1;
    }
    assert(items@.take(items@.len() as int) =~= items@);
    push_rerun_ids(&mut r, tier2);
    push_rerun_ids(&mut r, add_edge);
    r
}

/// Appends the ids of reruns.
fn push_rerun_ids(r: &mut Vec<u64>, work: &Vec<RerunWork>)
    ensures
        final(r)@ == old(r)@ + rerun_ids(work@),
{
    let mut i: usize = 0;
    while i < work.len()
        invariant
            i <= work@.len(),
            r@ =~= old(r)@ + rerun_ids(work@.take(i as int)),
        decreases work@.len() - i,
    {
        r.push(work[i].item_id);
        i += 1;
    }
    assert(work@.take(work@.len() as int) =~= work@);
}

/// Items with the given settings given to those that are asked for.
pub open spec fn broadcast_to(
    a: Seq<BatchItem>,
    b: Seq<BatchItem>,
    ids: Set<u64>,
    settings: ItemSettings,
) -> bool {
    &&& b.len() == a.len()
    &&& forall|i: int|
        0 <= i < a.len() ==> #[trigger] b[i] == if ids.contains(a[i].id) {
            BatchItem { settings, ..a[i] }
        } else {
            a[i]
        }
}

/// Gives the given settings to the items that are asked for.
fn broadcast_settings(items: &mut Vec<BatchItem>, ids: &HashSet<u64>, settings: ItemSettings)
    ensures
        broadcast_to(old(items)@, final(items)@, ids@, settings),
{
    let ghost before = items@;
    let mut i: usize = 0;
    while i < items.len()
        invariant
            i <= items@.len(),
            items@.len() == before.len(),
            forall|j: int| i <= j < before.len() ==> items@[j] == before[j],
            forall|j: int|
                0 <= j < i ==> #[trigger] items@[j] == if ids@.contains(before[j].id) {
                    BatchItem { settings, ..before[j] }
                } else {
                    before[j]
                },
        decreases items@.len() - i,
    {
        if ids.contains(&items[i].id) {
            items[i].settings = settings;
        }
        i += 1;
    }
}

/// Whether the items with the given ids were handed out with the settings of the
/// viewed item, which all of them got. Earlier cancels no longer count. With nothing
/// to hand out, nothing changes.
pub open spec fn handed_out(
    a: BatchManager,
    b: BatchManager,
    p: Processor,
    q: Processor,
    ids: Seq<u64>,
    config: ProcessingConfig,
    chain: bool,
    admission: Option<AdmissionController>,
    r: Option<ProcessingConfig>,
) -> bool {
    let settings = viewed_settings(a);
    if ids.len() == 0 {
        r is None && b == a && q == p
    } else {
        &&& r == Some(config)
        &&& broadcast_to(a.items@, b.items@, ids.to_set(), settings)
        &&& b.selected_index == a.selected_index
        &&& b.next_id == a.next_id
        &&& q.recipes() == Some((settings.recipe(config.model, chain), ids.to_set()))
        &&& !q.cancels.all()
        &&& q.cancels.items() == Set::<u64>::empty()
        &&& q == (Processor {
            cancels: q.cancels,
            in_flight: q.in_flight,
            admission: if admission is Some {
                admission
            } else {
                p.admission
            },
            admission_open: admission is Some || p.admission_open,
            ..p
        })
    }
}

/// Hands out a batch with the settings of the viewed item, which every item that
/// is handed out gets: what is seen is what is processed. Earlier cancels no
/// longer count. With nothing to hand out, nothing happens.
pub fn dispatch_batch(
    batch: &mut BatchManager,
    processor: &mut Processor,
    items: &Vec<WorkItem>,
    tier2: &Vec<RerunWork>,
    add_edge: &Vec<RerunWork>,
    model: ModelKind,
    jobs: usize,
    chain: bool,
    force_cpu: bool,
    admission: Option<AdmissionController>,
) -> (r: Option<ProcessingConfig>)
    ensures
        handed_out(
            *old(batch),
            *final(batch),
            *old(processor),
            *final(processor),
            run_ids(items@) + rerun_ids(tier2@) + rerun_ids(add_edge@),
            config_for(viewed_settings(*old(batch)), model, jobs, force_cpu),
            chain,
            admission,
            r,
        ),
{
    let ids = work_ids(items, tier2, add_edge);
    if ids.len() == 0 {
        return None;
    }
    if admission.is_some() {
        processor.admission = admission;
        processor.admission_open = true;
    }
    processor.cancels.reset();
    let settings = match batch.selected_idx_clamped() {
        Some(v) => batch.items[v].settings,
        None => ItemSettings::default(),
    };
    let wanted = set_of(&ids);
    broadcast_settings(&mut batch.items, &wanted, settings);
    let recipe = settings.current_recipe(model, chain);
    processor.track_dispatch(recipe, &ids);
    Some(processing_config(&settings, model, jobs, force_cpu))
}

/// What was handed to the worker.
pub struct Handed {
    /// Full runs, in order.
    pub full: Vec<WorkItem>,
    /// What they are processed with; `None` where there was nothing to hand out.
    pub config: Option<ProcessingConfig>,
}

/// Whether full runs were started: those of the given items whose files were read.
pub open spec fn runs_started(
    a: BatchManager,
    b: BatchManager,
    ids: Seq<u64>,
    loaded: Seq<bool>,
    chain: bool,
    full: Seq<WorkItem>,
) -> bool {
    &&& b.items@ == after_starts(a.items@, ids, loaded, ids.len() as int)
    &&& b.selected_index == a.selected_index
    &&& b.next_id == a.next_id
    &&& full == full_runs(a.items@, ids, loaded, chain, ids.len() as int)
}

/// Whether those of the given items that were not started wait.
pub open spec fn held(a: BatchManager, b: BatchManager, waiting: Set<u64>) -> bool {
    &&& b.items@.len() == a.items@.len()
    &&& forall|i: int|
        0 <= i < a.items@.len() ==> #[trigger] b.items@[i] == if waiting.contains(a.items@[i].id)
            && !(a.items@[i].status is Processing) {
            BatchItem { status: BatchStatus::Pending, ..a.items@[i] }
        } else {
            a.items@[i]
        }
    &&& b.selected_index == a.selected_index
    &&& b.next_id == a.next_id
}

/// Hands out a batch at once. `loaded` says, for each full run, whether its file was
/// read; the others are left out.
pub fn dispatch_small_batch(
    batch: &mut BatchManager,
    processor: &mut Processor,
    ids: &Vec<u64>,
    loaded: &Vec<bool>,
    tier2: &Vec<RerunWork>,
    add_edge: &Vec<RerunWork>,
    model: ModelKind,
    jobs: usize,
    chain: bool,
    force_cpu: bool,
) -> (r: Handed)
    requires
        loaded@.len() == ids@.len(),
    ensures
        exists|mid: BatchManager|
            {
                &&& #[trigger] runs_started(*old(batch), mid, ids@, loaded@, chain, r.full@)
                &&& handed_out(
                    mid,
                    *final(batch),
                    *old(processor),
                    *final(processor),
                    run_ids(r.full@) + rerun_ids(tier2@) + rerun_ids(add_edge@),
                    config_for(viewed_settings(mid), model, jobs, force_cpu),
                    chain,
                    None,
                    r.config,
                )
            },
{
    let full = start_full_runs(batch, ids, loaded, chain);
    let ghost mid = *batch;
    let config = dispatch_batch(
        batch,
        processor,
        &full,
        tier2,
        add_edge,
        model,
        jobs,
        chain,
        force_cpu,
        None,
    );
    let r = Handed { full, config };
    assert(runs_started(*old(batch), mid, ids@, loaded@, chain, r.full@));
    assert(handed_out(
        mid,
        *batch,
        *old(processor),
        *processor,
        run_ids(r.full@) + rerun_ids(tier2@) + rerun_ids(add_edge@),
        config_for(viewed_settings(mid), model, jobs, force_cpu),
        chain,
        None,
        r.config,
    ));
    r
}

/// Hands out a batch whose full runs are admitted by and by. `admitted` are those
/// that the controller let through, `loaded` says for each of them whether its file
/// was read, and the rest of `waiting` waits. The controller is kept where anything
/// is handed out.
pub fn dispatch_with_admission(
    batch: &mut BatchManager,
    processor: &mut Processor,
    waiting: &HashSet<u64>,
    admitted: &Vec<u64>,
    loaded: &Vec<bool>,
    ctrl: AdmissionController,
    tier2: &Vec<RerunWork>,
    add_edge: &Vec<RerunWork>,
    model: ModelKind,
    jobs: usize,
    chain: bool,
    force_cpu: bool,
) -> (r: Handed)
    requires
        loaded@.len() == admitted@.len(),
    ensures
        exists|mid: BatchManager, settled: BatchManager|
            {
                &&& #[trigger] runs_started(*old(batch), mid, admitted@, loaded@, chain, r.full@)
                &&& #[trigger] held(mid, settled, waiting@)
                &&& handed_out(
                    settled,
                    *final(batch),
                    *old(processor),
                    *final(processor),
                    run_ids(r.full@) + rerun_ids(tier2@) + rerun_ids(add_edge@),
                    config_for(viewed_settings(settled), model, jobs, force_cpu),
                    chain,
                    Some(ctrl),
                    r.config,
                )
            },
{
    let full = start_full_runs(batch, admitted, loaded, chain);
    let ghost mid = *batch;
    hold_waiting(&mut batch.items, waiting);
    let ghost settled = *batch;
    assert(held(mid, settled, waiting@));
    let config = dispatch_batch(
        batch,
        processor,
        &full,
        tier2,
        add_edge,
        model,
        jobs,
        chain,
        force_cpu,
        Some(ctrl),
    );
    let r = Handed { full, config };
    assert(runs_started(*old(batch), mid, admitted@, loaded@, chain, r.full@));
    assert(handed_out(
        settled,
        *batch,
        *old(processor),
        *processor,
        run_ids(r.full@) + rerun_ids(tier2@) + rerun_ids(add_edge@),
        config_for(viewed_settings(settled), model, jobs, force_cpu),
        chain,
        Some(ctrl),
        r.config,
    ));
    r
}

/// Every item that comes back from a batch that was just handed out is made with
/// the recipe of its own settings.
pub proof fn handed_out_items_match_their_recipe(
    a: Seq<BatchItem>,
    b: Seq<BatchItem>,
    ids: Set<u64>,
    settings: ItemSettings,
    model: ModelKind,
    chain: bool,
    i: int,
)
    requires
        broadcast_to(a, b, ids, settings),
        0 <= i < a.len(),
        ids.contains(a[i].id),
    ensures
        b[i].settings.recipe(model, chain) == settings.recipe(model, chain),
{
}

/// Number of jobs: as many as are set, as far as memory allows.
pub fn jobs_for(parallel_jobs: usize, safe: usize) -> (r: usize)
    ensures
        r == if parallel_jobs < safe {
            parallel_jobs
        } else {
            safe
        },
{
    if parallel_jobs < safe {
        parallel_jobs
    } else {
        safe
    }
}

/// What happened while the next items are admitted.
#[derive(Clone, Copy, Debug, PartialEq, Eq, Structural)]
pub enum AdmissionEvent {
    /// An item has come back.
    Completed(u64),
    /// The file of the item cannot be read.
    NotLoaded,
    /// The file of the item was read.
    Loaded(u64),
    /// The item was handed to the worker.
    Sent(u64),
    /// The worker is gone.
    NotSent,
}

/// What is done next while items are admitted.
pub enum AdmissionAction {
    /// Read the file of the item.
    Load(u64),
    /// Hand the item to the worker.
    Send(WorkItem),
    /// Nothing more for now.
    Over,
}

/// The next item that is admitted and still in the batch, and the books
/// afterwards. Items that are gone are passed over; they stay admitted.
pub open spec fn next_load(a: Admission, s: Seq<BatchItem>) -> (Admission, Option<u64>)
    decreases a.pending.len(),
{
    match a.choice() {
        Some(i) => if 0 <= i < a.pending.len() {
            if place_of(s, a.pending[i].item_id) is Some {
                (a.take(i), Some(a.pending[i].item_id))
            } else {
                next_load(a.take(i), s)
            }
        } else {
            (a, None)
        },
        None => (a, None),
    }
}

/// The books of a coordinator that admits items.
pub open spec fn books(p: Processor) -> Option<Admission> {
    match p.admission {
        Some(c) => Some(c@),
        None => None,
    }
}

/// Whether the books of a coordinator are in order.
pub open spec fn books_wf(p: Processor) -> bool {
    books(p) matches Some(a) ==> a.wf() && a.balanced()
}

/// Whether a coordinator went on to admit the next item, from the given books.
/// Admission is over when every item was admitted and has come back.
pub open spec fn went_on(
    p: Processor,
    q: Processor,
    a: Admission,
    s: Seq<BatchItem>,
    r: AdmissionAction,
) -> bool {
    let (b, load) = next_load(a, s);
    match load {
        Some(id) => {
            &&& r == AdmissionAction::Load(id)
            &&& books(q) == Some(b)
            &&& q.admission_open == p.admission_open
        },
        None => went_out(p, q, b, r),
    }
}

/// Whether a coordinator has nothing more to admit for now.
pub open spec fn went_out(p: Processor, q: Processor, b: Admission, r: AdmissionAction) -> bool {
    &&& r is Over
    &&& books(q) == if b.complete() {
        None
    } else {
        Some(b)
    }
    &&& q.admission_open == (p.admission_open && !b.complete())
}

/// Whether nothing but admission and what is handed out differs.
pub open spec fn only_admission_differs(p: Processor, q: Processor) -> bool {
    q == (Processor {
        admission: q.admission,
        admission_open: q.admission_open,
        in_flight: q.in_flight,
        ..p
    })
}

/// Puts the controller back, or drops it when everything is done.
fn close_round(p: &mut Processor, ctrl: AdmissionController) -> (r: AdmissionAction)
    requires
        ctrl@.wf(),
        ctrl@.balanced(),
    ensures
        went_out(*old(p), *final(p), ctrl@, r),
        books_wf(*final(p)),
        only_admission_differs(*old(p), *final(p)),
        final(p).in_flight == old(p).in_flight,
{
    if ctrl.is_complete() {
        p.clear_admission();
    } else {
        p.admission = Some(ctrl);
    }
    AdmissionAction::Over
}

/// Admits the next item that is still in the batch.
fn open_round(p: &mut Processor, batch: &BatchManager, held: AdmissionController) -> (r:
    AdmissionAction)
    requires
        held@.wf(),
        held@.balanced(),
    ensures
        went_on(*old(p), *final(p), held@, batch.items@, r),
        books_wf(*final(p)),
        only_admission_differs(*old(p), *final(p)),
        final(p).in_flight == old(p).in_flight,
{
    let ghost first = held@;
    let mut ctrl = held;
    loop
        invariant
            *p == *old(p),
            first == held@,
            ctrl@.wf(),
            ctrl@.balanced(),
            next_load(first, batch.items@) == next_load(ctrl@, batch.items@),
        decreases ctrl@.pending.len(),
    {
        let ghost a = ctrl@;
        proof {
            choice_is_waiting(a);
            if a.admitted.dom().len() == 0 {
                balanced_admission_fits(a);
            }
            if ctrl.pending@.len() > 0 {
                assert(a.pending.last() == ctrl.pending@.last());
            }
        }
        match ctrl.try_admit_next() {
            Some(id) => {
                proof {
                    place_is_first(batch.items@, id);
                }
                if batch.index_of(id).is_some() {
                    p.admission = Some(ctrl);
                    return AdmissionAction::Load(id);
                }
            },
            None => {
                return close_round(p, ctrl);
            },
        }
    }
}

/// An item that came back gives its memory free, and waiting items are admitted
/// as far as they fit: each one's file is read and the item handed to the worker.
pub fn admission_release_and_admit(
    p: &mut Processor,
    batch: &mut BatchManager,
    event: AdmissionEvent,
    chain: bool,
) -> (r: AdmissionAction)
    requires
        books_wf(*old(p)),
    ensures
        books_wf(*final(p)),
        only_admission_differs(*old(p), *final(p)),
        final(batch).selected_index == old(batch).selected_index,
        final(batch).next_id == old(batch).next_id,
        match books(*old(p)) {
            None => *final(p) == *old(p) && final(batch).items@ == old(batch).items@ && r is Over,
            Some(a) => match event {
                AdmissionEvent::Completed(id) => {
                    &&& went_on(*old(p), *final(p), a.release(id), old(batch).items@, r)
                    &&& final(batch).items@ == old(batch).items@
                    &&& final(p).in_flight == old(p).in_flight
                },
                AdmissionEvent::NotLoaded => {
                    &&& went_on(*old(p), *final(p), a, old(batch).items@, r)
                    &&& final(batch).items@ == old(batch).items@
                    &&& final(p).in_flight == old(p).in_flight
                },
                AdmissionEvent::Loaded(id) => {
                    &&& final(batch).items@ == started(old(batch).items@, id)
                    &&& final(p).in_flight == old(p).in_flight
                    &&& match place_of(old(batch).items@, id) {
                        Some(i) => if old(p).admission_open {
                            &&& r == AdmissionAction::Send(
                                WorkItem {
                                    item_id: id,
                                    chain_input: if chain {
                                        old(batch).items@[i].result_rgba
                                    } else {
                                        None
                                    },
                                },
                            )
                            &&& *final(p) == *old(p)
                        } else {
                            went_on(*old(p), *final(p), a, final(batch).items@, r)
                        },
                        None => went_on(*old(p), *final(p), a, old(batch).items@, r),
                    }
                },
                AdmissionEvent::Sent(id) => {
                    &&& went_on(*old(p), *final(p), a, old(batch).items@, r)
                    &&& final(batch).items@ == old(batch).items@
                    &&& final(p).recipes() == match old(p).recipes() {
                        Some((recipe, pending)) => Some((recipe, pending.insert(id))),
                        None => None,
                    }
                },
                AdmissionEvent::NotSent => {
                    &&& went_out(*old(p), *final(p), a, r)
                    &&& final(batch).items@ == old(batch).items@
                    &&& final(p).in_flight == old(p).in_flight
                },
            },
        },
{
    let mut ctrl = match p.admission.take() {
        Some(c) => c,
        None => {
            return AdmissionAction::Over;
        },
    };
    match event {
        AdmissionEvent::Completed(id) => {
            ctrl.release(id);
            open_round(p, batch, ctrl)
        },
        AdmissionEvent::NotLoaded => open_round(p, batch, ctrl),
        AdmissionEvent::Loaded(id) => {
            proof {
                place_is_first(batch.items@, id);
            }
            match batch.index_of(id) {
                Some(i) => {
                    batch.items[i].status = BatchStatus::Processing;
                    if p.admission_open {
                        let chain_input = if chain {
                            share_opt(&batch.items[i].result_rgba)
                        } else {
                            None
                        };
                        p.admission = Some(ctrl);
                        AdmissionAction::Send(WorkItem { item_id: id, chain_input })
                    } else {
                        open_round(p, batch, ctrl)
                    }
                },
                None => open_round(p, batch, ctrl),
            }
        },
        AdmissionEvent::Sent(id) => {
            p.track_streamed(id);
            open_round(p, batch, ctrl)
        },
        AdmissionEvent::NotSent => close_round(p, ctrl),
    }
}

/// A worker gets the settings of the items: every mask and line knob under its own name,
/// with the model and the jobs that were asked for.
pub proof fn workers_get_the_settings(s: ItemSettings, model: ModelKind, jobs: usize, force_cpu: bool)
    ensures
        ({
            let c = config_for(s, model, jobs, force_cpu);
            &&& c.model == model
            &&& c.jobs == jobs
            &&& c.force_cpu == force_cpu
            &&& c.line_mode == s.line_mode
            &&& c.mask.gamma == s.gamma
            &&& c.mask.threshold == s.threshold
            &&& c.mask.edge_shift == s.edge_shift
            &&& c.mask.refine_edges == s.refine_edges
            &&& c.mask.guided_radius == s.guided_radius
            &&& c.mask.guided_epsilon == s.guided_epsilon
            &&& c.mask.feather == s.feather
            &&& c.mask.fill_style == s.fill_style
            &&& c.mask.bg_effect == s.bg_effect
            &&& c.mask.correction_hash == s.correction_hash
            &&& c.edge.line_strength == s.line_strength
            &&& c.edge.solid_line_color == s.solid_line_color
            &&& c.edge.edge_thickness == s.edge_thickness
            &&& c.edge.edge_scale == s.edge_scale
            &&& c.edge.compose_mode == s.compose_mode
            &&& c.edge.line_style == s.line_style
            &&& c.edge.input_transform == s.input_transform
        }),
{
}

/// What is seen is what is processed: every item that is handed out has the settings of
/// the viewed one, is processed with them, and gets the recipe of its own settings when
/// it comes back. Nothing that was cancelled before counts for it.
pub proof fn handed_out_items_are_processed_as_seen(
    a: BatchManager,
    b: BatchManager,
    p: Processor,
    q: Processor,
    ids: Seq<u64>,
    model: ModelKind,
    jobs: usize,
    force_cpu: bool,
    chain: bool,
    admission: Option<AdmissionController>,
    r: Option<ProcessingConfig>,
    i: int,
)
    requires
        handed_out(
            a,
            b,
            p,
            q,
            ids,
            config_for(viewed_settings(a), model, jobs, force_cpu),
            chain,
            admission,
            r,
        ),
        0 <= i < a.items@.len(),
    ensures
        r is Some <==> ids.len() > 0,
        b.items@.len() == a.items@.len(),
        b.items@[i].id == a.items@[i].id,
        b.items@[i].status == a.items@[i].status,
        !ids.contains(a.items@[i].id) ==> b.items@[i] == a.items@[i],
        ids.contains(a.items@[i].id) ==> {
            &&& a.selected_index < a.items@.len() ==> b.items@[i].settings
                == a.items@[a.selected_index as int].settings
            &&& r matches Some(c) && c.mask == b.items@[i].settings.mask_part() && c.edge
                == b.items@[i].settings.edge_part() && c.line_mode == b.items@[i].settings.line_mode
                && c.model == model && c.jobs == jobs
            &&& q.recipes() matches Some((recipe, pending)) && recipe
                == b.items@[i].settings.recipe(model, chain) && pending.contains(a.items@[i].id)
            &&& !q.cancels.state().covers(a.items@[i].id)
        },
{
    if ids.contains(a.items@[i].id) {
        assert(ids.to_set().contains(a.items@[i].id));
        assert(ids.len() > 0);
    } else {
        assert(!ids.to_set().contains(a.items@[i].id));
    }
}

/// A rerun works on the item's own tensor with the item's own mask knobs: every item that
/// is asked for and could be loaded gets one.
pub proof fn reruns_use_their_own_tensor(
    s: Seq<BatchItem>,
    ids: Set<u64>,
    loads: Seq<Loaded>,
    n: int,
    i: int,
) -> (k: int)
    requires
        0 <= i < n <= s.len(),
        s.len() <= usize::MAX,
        ids.contains(s[i].id),
        s[i].caches.tensor is Some,
        loads[i] is Ready,
    ensures
        0 <= k < reruns(s, ids, loads, n).len(),
        ({
            let w = reruns(s, ids, loads, n)[k];
            &&& w.item_id == s[i].id
            &&& w.position == i
            &&& s[i].caches.tensor == Some(w.tensor)
            &&& w.mask.gamma == s[i].settings.gamma
            &&& w.mask.threshold == s[i].settings.threshold
            &&& w.mask.edge_shift == s[i].settings.edge_shift
            &&& w.mask.refine_edges == s[i].settings.refine_edges
            &&& w.mask.guided_radius == s[i].settings.guided_radius
            &&& w.mask.guided_epsilon == s[i].settings.guided_epsilon
            &&& w.mask.feather == s[i].settings.feather
            &&& w.mask.fill_style == s[i].settings.fill_style
            &&& w.mask.bg_effect == s[i].settings.bg_effect
            &&& w.mask.correction_hash == s[i].settings.correction_hash
        }),
    decreases n,
{
    let before = reruns(s, ids, loads, n - 1);
    if i == n - 1 {
        before.len() as int
    } else {
        let k = reruns_use_their_own_tensor(s, ids, loads, n - 1, i);
        assert(reruns(s, ids, loads, n)[k] == before[k]);
        k
    }
}

/// Nothing is rerun that was not asked for or could not be loaded.
pub proof fn only_loaded_items_are_rerun(
    s: Seq<BatchItem>,
    ids: Set<u64>,
    loads: Seq<Loaded>,
    n: int,
    k: int,
)
    requires
        0 <= n <= s.len(),
        s.len() <= usize::MAX,
        0 <= k < reruns(s, ids, loads, n).len(),
    ensures
        ({
            let w = reruns(s, ids, loads, n)[k];
            let i = w.position as int;
            &&& 0 <= i < n
            &&& s[i].id == w.item_id
            &&& ids.contains(w.item_id)
            &&& loads[i] is Ready
            &&& s[i].caches.tensor == Some(w.tensor)
        }),
    decreases n,
{
    if n > 0 {
        let before = reruns(s, ids, loads, n - 1);
        if k < before.len() {
            only_loaded_items_are_rerun(s, ids, loads, n - 1, k);
            assert(reruns(s, ids, loads, n)[k] == before[k]);
        }
    }
}

/// An item whose rerun cannot be set up says so, and the next run makes everything anew:
/// a tensor that is of no use is never tried again. One that can be set up is processed.
pub proof fn useless_tensors_are_forgotten(a: BatchItem, b: BatchItem, loaded: Loaded, kind: RerunKind)
    requires
        set_up(a, b, loaded, kind),
    ensures
        loaded is Ready <==> b.status is Processing,
        !(loaded is Ready) ==> b.status is Error,
        loaded is TensorCorrupt ==> b.caches.tensor is None && b.applied_recipe is None,
        loaded is Failed && kind == RerunKind::Mask ==> b.caches.tensor is None
            && b.applied_recipe is None,
        loaded is Ready ==> b.caches == a.caches && b.applied_recipe == a.applied_recipe,
        b.settings == a.settings,
        b.result_rgba == a.result_rgba,
        b.history == a.history,
        b.caches.edge_tensors == a.caches.edge_tensors,
{
}

/// Every admitted item whose file was read is run: once each time it is named, on its own
/// last result in chain mode and on its source otherwise.
pub proof fn read_items_are_run(
    s: Seq<BatchItem>,
    ids: Seq<u64>,
    loaded: Seq<bool>,
    chain: bool,
    n: int,
    k: int,
) -> (j: int)
    requires
        0 <= k < n <= ids.len(),
        loaded.len() == ids.len(),
        loaded[k],
        exists|i: int| 0 <= i < s.len() && (#[trigger] s[i]).id == ids[k],
    ensures
        0 <= j < full_runs(s, ids, loaded, chain, n).len(),
        full_runs(s, ids, loaded, chain, n)[j].item_id == ids[k],
        !chain ==> full_runs(s, ids, loaded, chain, n)[j].chain_input is None,
        chain ==> exists|i: int|
            0 <= i < s.len() && (#[trigger] s[i]).id == ids[k] && full_runs(
                s,
                ids,
                loaded,
                chain,
                n,
            )[j].chain_input == s[i].result_rgba,
    decreases n,
{
    let before = full_runs(s, ids, loaded, chain, n - 1);
    if k == n - 1 {
        place_is_first(s, ids[k]);
        let i = place_of(s, ids[k])->0;
        assert(s[i].id == ids[k]);
        before.len() as int
    } else {
        let j = read_items_are_run(s, ids, loaded, chain, n - 1, k);
        assert(full_runs(s, ids, loaded, chain, n)[j] == before[j]);
        j
    }
}

/// An item that is started is seen to be processed, and no other: one that was not named
/// stays as it is.
pub proof fn started_items_are_processed(
    s: Seq<BatchItem>,
    ids: Seq<u64>,
    loaded: Seq<bool>,
    n: int,
    i: int,
)
    requires
        0 <= n <= ids.len(),
        loaded.len() == ids.len(),
        0 <= i < s.len(),
        ids_differ(s),
    ensures
        (exists|k: int| 0 <= k < n && loaded[k] && #[trigger] ids[k] == s[i].id) ==> after_starts(
            s,
            ids,
            loaded,
            n,
        )[i].status is Processing,
        !(exists|k: int| 0 <= k < n && loaded[k] && #[trigger] ids[k] == s[i].id) ==> after_starts(
            s,
            ids,
            loaded,
            n,
        )[i] == s[i],
    decreases n,
{
    starting_changes_only_status(s, ids, loaded, n);
    if n > 0 {
        started_items_are_processed(s, ids, loaded, n - 1, i);
        starting_changes_only_status(s, ids, loaded, n - 1);
        let t = after_starts(s, ids, loaded, n - 1);
        place_is_first(t, ids[n - 1]);
        if loaded[n - 1] {
            if ids[n - 1] == s[i].id {
                assert(t[i].id == s[i].id);
                let j = place_of(t, ids[n - 1])->0;
                assert(t[j].id == s[j].id);
                assert(j == i);
                assert(after_starts(s, ids, loaded, n)[i].status is Processing);
            } else if let Some(j) = place_of(t, ids[n - 1]) {
                assert(t[j].id == s[j].id);
                assert(j != i);
            }
        }
        let named = exists|k: int| 0 <= k < n && loaded[k] && #[trigger] ids[k] == s[i].id;
        let earlier = exists|k: int| 0 <= k < n - 1 && loaded[k] && #[trigger] ids[k] == s[i].id;
        if earlier {
            let k = choose|k: int| 0 <= k < n - 1 && loaded[k] && #[trigger] ids[k] == s[i].id;
            assert(named);
        }
        if named && !earlier {
            let k = choose|k: int| 0 <= k < n && loaded[k] && #[trigger] ids[k] == s[i].id;
            assert(k == n - 1);
        }
    }
}

/// Making an item ready for another run loses nothing: its result is the newest entry of
/// its history, with its recipe, and can be undone to. No more entries are kept than
/// asked for.
pub proof fn reprocessing_keeps_the_last_result(
    a: BatchItem,
    b: BatchItem,
    max_depth: usize,
    chain: bool,
    dropped: Seq<String>,
)
    requires
        readied(a, b, max_depth, chain, dropped),
        a.status is Done,
        a.result_rgba is Some,
        max_depth >= 1,
    ensures
        b.history@.len() > 0,
        b.history@.len() <= max_depth,
        b.history@.last().slot.picture(None) == Some(a.result_rgba->0@),
        b.history@.last().recipe == a.applied_recipe,
        b.redo_stack@.len() == 0,
        b.result_rgba == if chain {
            a.result_rgba
        } else {
            None
        },
        b.settings == a.settings,
        b.caches == a.caches,
        b.applied_recipe == a.applied_recipe,
{
    let (mid, kept) = choose|mid: BatchItem, kept: BatchItem|
        {
            &&& #[trigger] seeded(a, mid)
            &&& #[trigger] archived(mid, kept, max_depth, chain, dropped)
            &&& b == if a.status is Done {
                BatchItem { drawn: drawn_for_rerun(kept.drawn, chain), ..kept }
            } else {
                kept
            }
        };
    assert(mid.result_rgba == a.result_rgba);
}

/// The first run of a finished item leaves its source at the bottom of its history, so
/// that undo ends at the picture as it came.
pub proof fn history_starts_at_the_source(
    a: BatchItem,
    b: BatchItem,
    max_depth: usize,
    chain: bool,
    dropped: Seq<String>,
)
    requires
        readied(a, b, max_depth, chain, dropped),
        a.status is Done,
        a.result_rgba is Some,
        a.source_rgba is Some,
        a.history@.len() == 0,
        a.redo_stack@.len() == 0,
        max_depth >= 2,
    ensures
        b.history@.len() == 2,
        b.history@[0].slot.picture(None) == Some(a.source_rgba->0@),
        b.history@[0].recipe is None,
        dropped.len() == 0,
{
    let (mid, kept) = choose|mid: BatchItem, kept: BatchItem|
        {
            &&& #[trigger] seeded(a, mid)
            &&& #[trigger] archived(mid, kept, max_depth, chain, dropped)
            &&& b == if a.status is Done {
                BatchItem { drawn: drawn_for_rerun(kept.drawn, chain), ..kept }
            } else {
                kept
            }
        };
    assert(mid.history@.len() == 1);
    let all = choose|all: Seq<HistoryEntry>| #[trigger]
        pushed(mid.history@, all, mid.result_rgba, mid.applied_recipe) && kept.history@ == newest(
            all,
            max_depth as int,
        ) && dropped == files(all.take(all.len() - kept.history@.len())) + files(mid.redo_stack@);
    assert(all.len() == 2);
    assert(kept.history@ == all);
    assert(all.drop_last()[0] == mid.history@.last());
    assert(all.take(0) =~= Seq::<HistoryEntry>::empty());
}

/// The memory of a picture is reckoned from its size: a larger one never counts less, and
/// its file comes on top.
pub proof fn larger_pictures_cost_more(a: BatchItem, b: BatchItem, len: Option<usize>)
    requires
        a.dimensions.0 <= b.dimensions.0,
        a.dimensions.1 <= b.dimensions.1,
        a.source == b.source,
    ensures
        item_cost(a, len) <= item_cost(b, len),
        item_cost(a, len) - source_bytes(a, len) == 2 * (4 * (a.dimensions.0 as int
            * a.dimensions.1 as int)),
        item_cost(a, len) >= source_bytes(a, len),
{
    assert(0 <= a.dimensions.0 as int * a.dimensions.1 as int <= b.dimensions.0 as int
        * b.dimensions.1 as int) by (nonlinear_arith)
        requires
            0 <= a.dimensions.0 <= b.dimensions.0,
            0 <= a.dimensions.1 <= b.dimensions.1,
    ;
}

/// The memory of every item that is asked for is reckoned, under its own id and at its
/// own cost, and of no other item.
pub proof fn asked_for_items_are_reckoned(
    s: Seq<BatchItem>,
    ids: Set<u64>,
    file_lens: Seq<Option<usize>>,
    n: int,
    i: int,
    k: int,
)
    requires
        0 <= i < n <= s.len(),
        file_lens.len() == s.len(),
    ensures
        costs_of(s, ids, file_lens, n).len() <= n,
        ids.contains(s[i].id) ==> exists|j: int|
            0 <= j < costs_of(s, ids, file_lens, n).len() && #[trigger] costs_of(
                s,
                ids,
                file_lens,
                n,
            )[j] == (ImageMemCost {
                item_id: s[i].id,
                total: item_cost(s[i], file_lens[i]) as usize,
            }),
        0 <= k < costs_of(s, ids, file_lens, n).len() ==> ids.contains(
            costs_of(s, ids, file_lens, n)[k].item_id,
        ),
    decreases n,
{
    let before = costs_of(s, ids, file_lens, n - 1);
    let all = costs_of(s, ids, file_lens, n);
    if n > 1 {
        let m = if i < n - 1 {
            i
        } else {
            n - 2
        };
        asked_for_items_are_reckoned(s, ids, file_lens, n - 1, m, k);
        if i < n - 1 && ids.contains(s[i].id) {
            let j = choose|j: int|
                0 <= j < before.len() && #[trigger] before[j] == (ImageMemCost {
                    item_id: s[i].id,
                    total: item_cost(s[i], file_lens[i]) as usize,
                });
            assert(all[j] == before[j]);
        }
    } else {
        assert(before.len() == 0);
    }
    if i == n - 1 && ids.contains(s[i].id) {
        assert(all[all.len() - 1].item_id == s[i].id);
    }
}

/// What is admitted next is in the batch, waited and does so no more; the books stay in
/// order.
pub proof fn loads_are_of_waiting_items(a: Admission, s: Seq<BatchItem>)
    requires
        a.wf(),
    ensures
        next_load(a, s).0.wf(),
        next_load(a, s).0.budget == a.budget,
        next_load(a, s).0.pending.len() <= a.pending.len(),
        a.balanced() ==> next_load(a, s).0.balanced(),
        next_load(a, s).1 matches Some(id) ==> {
            &&& place_of(s, id) is Some
            &&& next_load(a, s).0.admitted.contains_key(id)
            &&& next_load(a, s).0.pending.len() < a.pending.len()
            &&& exists|i: int| 0 <= i < a.pending.len() && (#[trigger] a.pending[i]).item_id == id
        },
        next_load(a, s).1 is None ==> next_load(a, s).0.choice() is None,
    decreases a.pending.len(),
{
    crate::memory::choice_is_waiting(a);
    crate::memory::admission_keeps(a);
    if let Some(i) = a.choice() {
        let id = a.pending[i].item_id;
        if place_of(s, id) is None {
            let rest = a.take(i);
            loads_are_of_waiting_items(rest, s);
            if let Some(other) = next_load(rest, s).1 {
                let j = choose|j: int|
                    0 <= j < rest.pending.len() && (#[trigger] rest.pending[j]).item_id == other;
                if j < i {
                    assert(a.pending[j] == rest.pending[j]);
                } else {
                    assert(a.pending[j + 1] == rest.pending[j]);
                }
            }
        }
    }
}

/// Admission goes on with an item of the batch, or is over; it is closed when every
/// item was admitted and has come back, and not before.
pub proof fn admission_closes_at_the_end(
    p: Processor,
    q: Processor,
    a: Admission,
    s: Seq<BatchItem>,
    r: AdmissionAction,
)
    requires
        a.wf(),
        went_on(p, q, a, s, r),
    ensures
        r matches AdmissionAction::Load(id) ==> place_of(s, id) is Some && q.admission_open
            == p.admission_open && q.admission is Some,
        r is Over ==> (q.admission is None <==> next_load(a, s).0.pending.len() == 0 && next_load(
            a,
            s,
        ).0.admitted.dom().len() == 0),
        r is Over && q.admission is None ==> !q.admission_open,
        q.admission is Some ==> q.admission_open == p.admission_open,
{
    loads_are_of_waiting_items(a, s);
}

/// While an item is made anew nothing of its old result is drawn but, in a chain, the
/// result itself; its source stays drawn.
pub proof fn reruns_drop_what_was_drawn(d: Drawn, chain: bool)
    ensures
        !drawn_for_rerun(d, chain).thumb_texture,
        !drawn_for_rerun(d, chain).thumb_pending,
        !drawn_for_rerun(d, chain).source_tex_pending,
        !drawn_for_rerun(d, chain).result_tex_pending,
        chain ==> drawn_for_rerun(d, chain).result_texture == d.result_texture,
        !chain ==> !drawn_for_rerun(d, chain).result_texture,
        drawn_for_rerun(d, chain).source_texture == d.source_texture,
        drawn_for_rerun(d, chain).source_dyn == d.source_dyn,
        drawn_for_rerun(d, chain).decode_pending == d.decode_pending,
        drawn_for_rerun(d, chain).bg_image_texture == d.bg_image_texture,
{
}

} // verus!
