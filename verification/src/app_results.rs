//! What is done with what the workers report: finished and failed items, progress,
//! and the end of a batch.
use vstd::prelude::*;
use std::collections::VecDeque;
use std::sync::Arc;
use crate::app_dispatch::{place_is_first, place_of, says};
use crate::app_process::{
    classified, finished_items_are_up_to_date, model_or_default, shown, used_model, TierClass,
};
use crate::batch_manager::{tally, BatchManager};
use crate::history_manager::file_of;
use crate::item::{
    picture_view, BatchItem, BatchStatus, CachedTensor, Drawn, HistoryEntry, HistorySlot,
    ProcessResult,
};
use crate::knob_catalog::CacheImpact;
use crate::pipeline::{LineMode, ModelKind, ProcessingRecipe, ProgressStage, RequiredTier};
use crate::pixmap::Pixmap;
use crate::processor::Processor;
use crate::text::{decimal, join2, join3, same_text, to_decimal};

verus! {

broadcast use vstd::std_specs::hash::group_hash_axioms;

/// The recipe that an item which has come back was made with, and what is handed
/// out afterwards. One that was not expected counts as made with its present
/// settings; there is none where the item is gone as well.
pub open spec fn recipe_taken(
    out: Option<(ProcessingRecipe, Set<u64>)>,
    s: Seq<BatchItem>,
    id: u64,
    model: Option<ModelKind>,
    chain: bool,
) -> (Option<ProcessingRecipe>, Option<(ProcessingRecipe, Set<u64>)>) {
    let fallback = match place_of(s, id) {
        Some(i) => Some(s[i].settings.recipe(used_model(model), chain)),
        None => None,
    };
    match out {
        None => (fallback, None),
        Some((recipe, pending)) => if !pending.contains(id) {
            (fallback, out)
        } else {
            (
                Some(recipe),
                if pending.remove(id).len() == 0 {
                    None
                } else {
                    Some((recipe, pending.remove(id)))
                },
            )
        },
    }
}

/// The recipe that an item which has come back was made with. An item is taken
/// only once.
pub fn take_dispatch_recipe(
    processor: &mut Processor,
    batch: &BatchManager,
    id: u64,
    model: Option<ModelKind>,
    chain: bool,
) -> (r: Option<ProcessingRecipe>)
    ensures
        final(processor).only_recipes_differ(old(processor)),
        (r, final(processor).recipes()) == recipe_taken(
            old(processor).recipes(),
            batch.items@,
            id,
            model,
            chain,
        ),
{
    if let Some(recipe) = processor.take_recipe(id) {
        return Some(recipe);
    }
    proof {
        place_is_first(batch.items@, id);
    }
    match batch.index_of(id) {
        Some(i) => Some(batch.items[i].settings.current_recipe(model_or_default(model), chain)),
        None => None,
    }
}

/// What came of an item.
pub enum ItemOutcome {
    Finished(ProcessResult),
    Failed(String),
    Cancelled,
}

/// What was done with an item that came back.
pub enum ItemDone {
    /// The item is gone.
    Gone,
    /// The item waits again; its memory is to be released.
    Cancelled,
    /// The item was given up before; what came back does not count.
    Late,
    /// The item has its result or its error; its memory is to be released.
    /// `provider` is what it was inferred with, if anything.
    Applied { provider: Option<String>, selected: bool },
}

/// Whether `b` is `a` with the outcome of its processing.
pub open spec fn outcome_applied(
    a: BatchItem,
    b: BatchItem,
    outcome: ItemOutcome,
    tensor: Option<CachedTensor>,
    edges: Option<CachedTensor>,
    recipe: ProcessingRecipe,
) -> bool {
    match outcome {
        ItemOutcome::Finished(pr) => b == (BatchItem {
            result_rgba: Some(Arc::new(pr.rgba_image)),
            status: BatchStatus::Done,
            applied_recipe: Some(recipe),
            caches: a.caches.after_result(tensor, edges),
            ..a.with_result_caches_reset()
        }),
        ItemOutcome::Failed(e) => b == (BatchItem {
            status: BatchStatus::Error(e),
            applied_recipe: None,
            ..a.after_impact(CacheImpact::Both)
        }),
        ItemOutcome::Cancelled => b == (BatchItem { status: BatchStatus::Pending, ..a }),
    }
}

/// What a finished item was inferred with; `None` for nothing.
pub open spec fn provider_of(outcome: ItemOutcome) -> Option<String> {
    match outcome {
        ItemOutcome::Finished(pr) => if pr.active_provider@.len() == 0 {
            None
        } else {
            Some(pr.active_provider)
        },
        _ => None,
    }
}

/// An item has come back. Its result, with the recipe it was made with, or its
/// error is stored. A cancelled item waits again and keeps its caches. An item that
/// is not being processed any more stays as it is.
pub fn on_batch_item_done(
    processor: &mut Processor,
    batch: &mut BatchManager,
    id: u64,
    outcome: ItemOutcome,
    tensor: Option<CachedTensor>,
    edges: Option<CachedTensor>,
    model: Option<ModelKind>,
    chain: bool,
) -> (r: ItemDone)
    ensures
        final(processor).only_recipes_differ(old(processor)),
        final(batch).selected_index == old(batch).selected_index,
        final(batch).next_id == old(batch).next_id,
        ({
            let s = old(batch).items@;
            let (recipe, left) = recipe_taken(old(processor).recipes(), s, id, model, chain);
            &&& final(processor).recipes() == left
            &&& match place_of(s, id) {
                None => {
                    &&& final(batch).items@ == s
                    &&& if recipe is Some && outcome is Cancelled {
                        r is Cancelled
                    } else {
                        r is Gone
                    }
                },
                Some(i) => if s[i].status is Processing {
                    &&& recipe is Some
                    &&& final(batch).items@.len() == s.len()
                    &&& final(batch).items@ == s.update(i, final(batch).items@[i])
                    &&& outcome_applied(
                        s[i],
                        final(batch).items@[i],
                        outcome,
                        tensor,
                        edges,
                        recipe->0,
                    )
                    &&& if outcome is Cancelled {
                        r is Cancelled
                    } else {
                        r == (ItemDone::Applied {
                            provider: provider_of(outcome),
                            selected: old(batch).viewed_id() == Some(id),
                        })
                    }
                } else {
                    &&& final(batch).items@ == s
                    &&& if outcome is Cancelled {
                        r is Cancelled
                    } else {
                        r is Late
                    }
                },
            }
        }),
{
    let selected = batch.is_selected(id);
    let recipe = match take_dispatch_recipe(processor, batch, id, model, chain) {
        Some(x) => x,
        None => {
            return ItemDone::Gone;
        },
    };
    proof {
        place_is_first(batch.items@, id);
    }
    let at = batch.index_of(id);
    let busy = match at {
        Some(i) => match batch.items[i].status {
            BatchStatus::Processing => true,
            _ => false,
        },
        None => false,
    };
    let result = match outcome {
        ItemOutcome::Cancelled => {
            if let Some(i) = at {
                if busy {
                    batch.items[i].status = BatchStatus::Pending;
                }
            }
            return ItemDone::Cancelled;
        },
        ItemOutcome::Finished(pr) => Ok(pr),
        ItemOutcome::Failed(e) => Err(e),
    };
    match at {
        None => ItemDone::Gone,
        Some(i) => {
            if !busy {
                return ItemDone::Late;
            }
            let provider = batch.items[i].apply_tier_result(result, tensor, edges, recipe);
            ItemDone::Applied { provider, selected }
        },
    }
}

/// An item stays whole when a whole picture is stored in it, and when none is.
pub proof fn outcomes_keep_items_whole(
    a: BatchItem,
    b: BatchItem,
    outcome: ItemOutcome,
    tensor: Option<CachedTensor>,
    edges: Option<CachedTensor>,
    recipe: ProcessingRecipe,
)
    requires
        a.wf(),
        outcome matches ItemOutcome::Finished(pr) ==> pr.rgba_image.wf(),
        outcome_applied(a, b, outcome, tensor, edges, recipe),
    ensures
        b.wf(),
{
}

/// A result is stored with the recipe of the batch it was handed out with, even
/// where the item's settings have changed since.
pub proof fn results_carry_their_recipe(
    p: Processor,
    s: Seq<BatchItem>,
    id: u64,
    model: Option<ModelKind>,
    chain: bool,
    recipe: ProcessingRecipe,
    pending: Set<u64>,
)
    requires
        p.recipes() == Some((recipe, pending)),
        pending.contains(id),
    ensures
        recipe_taken(p.recipes(), s, id, model, chain).0 == Some(recipe),
{
}

/// Whether a provider that was reported is news. An empty one says nothing.
pub fn backend_ready(active: &String, provider: &String) -> (r: bool)
    ensures
        r == (provider@.len() > 0 && active@ != provider@),
{
    !provider.as_str().is_empty() && !same_text(active.as_str(), provider.as_str())
}

/// What the user is told when a batch is over.
pub struct BatchReport {
    pub text: String,
    pub failed: bool,
}

/// Text of the report on a batch with the given numbers; none while items are
/// being processed, unless some failed.
pub open spec fn report_text(
    done: nat,
    errored: nat,
    processing: nat,
    first_error: Option<Seq<char>>,
) -> Option<Seq<char>> {
    let error = match first_error {
        Some(e) => e,
        None => "unknown error"@,
    };
    if errored == 1 {
        Some("Image failed: "@ + error)
    } else if errored > 1 {
        Some(decimal(errored) + " image(s) failed \u{2014} first: "@ + error)
    } else if processing == 0 {
        Some("All done \u{2014} "@ + decimal(done) + " images processed"@)
    } else {
        None
    }
}

/// Text of the report on a batch with the given numbers.
pub fn batch_report(done: usize, errored: usize, processing: usize, first_error: Option<&str>) -> (r:
    Option<BatchReport>)
    ensures
        match r {
            Some(b) => report_text(
                done as nat,
                errored as nat,
                processing as nat,
                match first_error {
                    Some(e) => Some(e@),
                    None => None,
                },
            ) == Some(b.text@) && b.failed == (errored > 0),
            None => errored == 0 && processing > 0,
        },
{
    if errored > 0 {
        let error = match first_error {
            Some(e) => e,
            None => "unknown error",
        };
        let text = if errored == 1 {
            join2("Image failed: ", error)
        } else {
            let n = to_decimal(errored as u64);
            join3(n.as_str(), " image(s) failed \u{2014} first: ", error)
        };
        Some(BatchReport { text, failed: true })
    } else if processing == 0 {
        let n = to_decimal(done as u64);
        Some(
            BatchReport {
                text: join3("All done \u{2014} ", n.as_str(), " images processed"),
                failed: false,
            },
        )
    } else {
        None
    }
}

/// Message of the first item that failed.
pub open spec fn first_error(s: Seq<BatchItem>) -> Option<Seq<char>>
    decreases s.len(),
{
    if s.len() == 0 {
        None
    } else if first_error(s.drop_last()) is Some {
        first_error(s.drop_last())
    } else {
        match s.last().status {
            BatchStatus::Error(e) => Some(e@),
            _ => None,
        }
    }
}

proof fn no_first_error(s: Seq<BatchItem>)
    requires
        forall|j: int| 0 <= j < s.len() ==> !((#[trigger] s[j]).status is Error),
    ensures
        first_error(s) is None,
    decreases s.len(),
{
    if s.len() > 0 {
        let t = s.drop_last();
        assert forall|j: int| 0 <= j < t.len() implies !((#[trigger] t[j]).status is Error) by {
            assert(t[j] == s[j]);
        }
        no_first_error(t);
        assert(s.last() == s[s.len() - 1]);
    }
}

proof fn first_error_at(s: Seq<BatchItem>, i: int)
    requires
        0 <= i < s.len(),
        s[i].status is Error,
        forall|j: int| 0 <= j < i ==> !((#[trigger] s[j]).status is Error),
    ensures
        first_error(s) == Some(s[i].status->Error_0@),
    decreases s.len(),
{
    let t = s.drop_last();
    if i < t.len() {
        assert(t[i] == s[i]);
        assert forall|j: int| 0 <= j < i implies !((#[trigger] t[j]).status is Error) by {
            assert(t[j] == s[j]);
        }
        first_error_at(t, i);
    } else {
        assert forall|j: int| 0 <= j < t.len() implies !((#[trigger] t[j]).status is Error) by {
            assert(t[j] == s[j]);
        }
        no_first_error(t);
    }
}

/// A batch is over: nothing late gets its recipe, and the user is told how it went.
pub fn on_batch_complete(processor: &mut Processor, batch: &BatchManager) -> (r: Option<BatchReport>)
    ensures
        final(processor).recipes() is None,
        final(processor).only_recipes_differ(old(processor)),
        ({
            let (done, processing, errored) = tally(batch.items@);
            let text = report_text(done, errored, processing, first_error(batch.items@));
            match r {
                Some(b) => text == Some(b.text@) && b.failed == (errored > 0),
                None => text is None,
            }
        }),
{
    processor.drain_recipes();
    let counts = batch.status_counts();
    let message = batch.first_error_message();
    proof {
        let s = batch.items@;
        match message {
            Some(m) => {
                let i = choose|i: int|
                    {
                        &&& 0 <= i < s.len()
                        &&& (#[trigger] s[i]).status matches BatchStatus::Error(e) && e@ == m@
                        &&& forall|j: int| 0 <= j < i ==> !((#[trigger] s[j]).status is Error)
                    };
                first_error_at(s, i);
            },
            None => {
                no_first_error(s);
            },
        }
    }
    batch_report(counts.done, counts.errored, counts.processing, message)
}

/// Everything was cancelled: nothing late gets a recipe, and no further item is
/// admitted.
pub fn on_cancelled(processor: &mut Processor) -> (r: &'static str)
    ensures
        r@ == "Cancelled"@,
        final(processor).recipes() is None,
        *final(processor) == (Processor {
            in_flight: final(processor).in_flight,
            admission: None,
            admission_open: false,
            ..*old(processor)
        }),
{
    processor.drain_recipes();
    processor.clear_admission();
    "Cancelled"
}

/// What the user is told when a batch is tried again with fewer jobs.
pub fn on_subprocess_retry(reduced_jobs: usize, re_queued_count: usize) -> (r: String)
    ensures
        r@ == "Memory pressure \u{2014} retrying "@ + decimal(re_queued_count as nat)
            + " images with "@ + decimal(reduced_jobs as nat) + " parallel jobs"@,
{
    let count = to_decimal(re_queued_count as u64);
    let jobs = to_decimal(reduced_jobs as u64);
    let head = join3("Memory pressure \u{2014} retrying ", count.as_str(), " images with ");
    join3(head.as_str(), jobs.as_str(), " parallel jobs")
}

/// What is shown while models are loaded: which they are.
pub open spec fn loading_text(line_mode: LineMode, seg_name: Seq<char>, slow: bool) -> Seq<char> {
    let models = match line_mode {
        LineMode::Off => seg_name,
        LineMode::EdgesOnly => "DexiNed"@,
        LineMode::SubjectOutline => seg_name + " + DexiNed"@,
    };
    "Loading "@ + models + if slow {
        " (first run may take a few minutes)..."@
    } else {
        "..."@
    }
}

/// What is shown while models are loaded. `slow` says that the first load takes
/// minutes on this system.
pub fn loading_model_status_text(
    batch: &BatchManager,
    item_id: u64,
    seg_name: &str,
    slow: bool,
) -> (r: String)
    ensures
        r@ == loading_text(
            match place_of(batch.items@, item_id) {
                Some(i) => batch.items@[i].settings.line_mode,
                None => LineMode::Off,
            },
            seg_name@,
            slow,
        ),
{
    proof {
        place_is_first(batch.items@, item_id);
    }
    let line_mode = match batch.index_of(item_id) {
        Some(i) => batch.items[i].settings.line_mode,
        None => LineMode::Off,
    };
    let tail = if slow {
        " (first run may take a few minutes)..."
    } else {
        "..."
    };
    match line_mode {
        LineMode::Off => join3("Loading ", seg_name, tail),
        LineMode::EdgesOnly => join3("Loading ", "DexiNed", tail),
        LineMode::SubjectOutline => {
            let models = join2(seg_name, " + DexiNed");
            join3("Loading ", models.as_str(), tail)
        },
    }
}

/// What is shown for a stage of processing.
pub open spec fn progress_text(stage: ProgressStage, loading: Seq<char>) -> Seq<char> {
    match stage {
        ProgressStage::LoadingModel => loading,
        ProgressStage::LoadingModelCpuFallback => "GPU warming up \u{2014} using CPU"@,
        ProgressStage::Decode => "Decoding image"@,
        ProgressStage::Resize => "Resizing"@,
        ProgressStage::Normalize => "Normalizing pixels"@,
        ProgressStage::Infer => "Running AI model"@,
        ProgressStage::Postprocess => "Building mask"@,
        ProgressStage::Alpha => "Applying transparency"@,
    }
}

/// What is shown when an item makes progress. Only the viewed item's is.
pub fn on_batch_progress(
    batch: &BatchManager,
    item_id: u64,
    stage: ProgressStage,
    seg_name: &str,
    slow: bool,
) -> (r: Option<String>)
    ensures
        shown(r) == if batch.viewed_id() != Some(item_id) {
            None
        } else {
            Some(
                progress_text(
                    stage,
                    loading_text(
                        match place_of(batch.items@, item_id) {
                            Some(i) => batch.items@[i].settings.line_mode,
                            None => LineMode::Off,
                        },
                        seg_name@,
                        slow,
                    ),
                ),
            )
        },
{
    if !batch.is_selected(item_id) {
        return None;
    }
    Some(
        match stage {
            ProgressStage::LoadingModel => loading_model_status_text(
                batch,
                item_id,
                seg_name,
                slow,
            ),
            ProgressStage::LoadingModelCpuFallback => "GPU warming up \u{2014} using CPU".to_owned(),
            ProgressStage::Decode => "Decoding image".to_owned(),
            ProgressStage::Resize => "Resizing".to_owned(),
            ProgressStage::Normalize => "Normalizing pixels".to_owned(),
            ProgressStage::Infer => "Running AI model".to_owned(),
            ProgressStage::Postprocess => "Building mask".to_owned(),
            ProgressStage::Alpha => "Applying transparency".to_owned(),
        },
    )
}

/// An entry of the history moved into the file that was written for it. Only
/// compressed entries are moved.
pub open spec fn demoted(e: HistoryEntry, written: Option<String>) -> HistoryEntry {
    match (e.slot, written) {
        (HistorySlot::Compressed(_), Some(path)) => HistoryEntry {
            slot: HistorySlot::OnDisk(crate::history_disk::DiskHistoryEntry { path }),
            recipe: e.recipe,
        },
        _ => e,
    }
}

/// Moves the compressed entries of a stack into the files that were written for
/// them; the file of the entry at a position stands at that position behind
/// `from`.
fn demote_stack(stack: &mut VecDeque<HistoryEntry>, written: &mut Vec<Option<String>>, from: usize)
    requires
        from + old(stack)@.len() <= old(written)@.len(),
    ensures
        final(stack)@ == Seq::new(
            old(stack)@.len(),
            |k: int| demoted(old(stack)@[k], old(written)@[from + k]),
        ),
        final(written)@.len() == old(written)@.len(),
        forall|k: int|
            0 <= k < old(written)@.len() && !(from <= k < from + old(stack)@.len())
                ==> final(written)@[k] == old(written)@[k],
{
    let ghost before = stack@;
    let ghost files = written@;
    let n: usize = stack.len();
    let total: usize = written.len();
    let mut k: usize = 0;
    while k < n
        invariant
            k <= n,
            n == before.len(),
            total == files.len(),
            stack@.len() == n,
            from + n <= files.len(),
            files == old(written)@,
            written@.len() == files.len(),
            forall|j: int|
                0 <= j < files.len() && !(from <= j < from + k) ==> written@[j] == files[j],
            stack@ =~= before.skip(k as int) + Seq::new(
                k as nat,
                |j: int| demoted(before[j], files[from + j]),
            ),
        decreases n - k,
    {
        let entry = stack.pop_front().unwrap();
        assert(entry == before[k as int]);
        let compressed = match &entry.slot {
            HistorySlot::Compressed(_) => true,
            _ => false,
        };
        let path = written[from + k].take();
        let entry = if compressed {
            entry.demote_to_disk(path)
        } else {
            entry
        };
        assert(entry == demoted(before[k as int], files[from + k]));
        stack.push_back(entry);
        k += 1;
    }
    assert(stack@ =~= Seq::new(before.len(), |j: int| demoted(before[j], files[from + j])));
}

/// Moves the compressed entries of an item's history into files. `written` holds
/// for each entry, first those that can be undone and behind them those that can
/// be redone, the file that was written for it.
pub fn demote_history_to_disk(item: &mut BatchItem, written: Vec<Option<String>>)
    requires
        written@.len() == old(item).history@.len() + old(item).redo_stack@.len(),
    ensures
        *final(item) == (BatchItem {
            history: final(item).history,
            redo_stack: final(item).redo_stack,
            ..*old(item)
        }),
        final(item).history@ == Seq::new(
            old(item).history@.len(),
            |k: int| demoted(old(item).history@[k], written@[k]),
        ),
        final(item).redo_stack@ == Seq::new(
            old(item).redo_stack@.len(),
            |k: int| demoted(old(item).redo_stack@[k], written@[old(item).history@.len() + k]),
        ),
{
    let ghost files = written@;
    let mut written = written;
    let n: usize = item.history.len();
    demote_stack(&mut item.history, &mut written, 0);
    assert(item.history@ =~= Seq::new(
        old(item).history@.len(),
        |k: int| demoted(old(item).history@[k], files[k]),
    ));
    demote_stack(&mut item.redo_stack, &mut written, n);
    assert(item.redo_stack@ =~= Seq::new(
        old(item).redo_stack@.len(),
        |k: int| demoted(old(item).redo_stack@[k], files[old(item).history@.len() + k]),
    ));
}

/// A file was written with the entry's own bytes, so moving an entry into it keeps
/// its picture.
pub proof fn demotion_keeps_the_picture(e: HistoryEntry, path: String, data: Seq<u8>)
    requires
        e.slot matches HistorySlot::Compressed(c) ==> c.data@ == data,
        e.slot is Compressed,
    ensures
        demoted(e, Some(path)).slot.picture(Some(data)) == e.slot.picture(None),
        demoted(e, Some(path)).recipe == e.recipe,
{
}

/// Stores a picture that was only recoloured.
pub fn apply_filter_result(batch: &mut BatchManager, id: u64, result: Result<Arc<Pixmap>, String>) -> (r:
    bool)
    ensures
        final(batch).selected_index == old(batch).selected_index,
        final(batch).next_id == old(batch).next_id,
        match place_of(old(batch).items@, id) {
            None => !r && final(batch).items@ == old(batch).items@,
            Some(i) => r && final(batch).items@ == old(batch).items@.update(
                i,
                recoloured(old(batch).items@[i], result),
            ),
        },
{
    proof {
        place_is_first(batch.items@, id);
    }
    match batch.index_of(id) {
        None => false,
        Some(i) => {
            match result {
                Ok(rgba) => {
                    batch.items[i].result_rgba = Some(rgba);
                    batch.items[i].drawn.result_texture = false;
                    batch.items[i].drawn.thumb_texture = false;
                    batch.items[i].status = BatchStatus::Done;
                },
                Err(e) => {
                    batch.items[i].status = BatchStatus::Error(e);
                },
            }
            true
        },
    }
}

/// A picture that was only recoloured, or why there is none.
pub struct Recoloured {
    pub item_id: u64,
    pub result: Result<Arc<Pixmap>, String>,
}

/// An item with its recoloured picture or its failure.
pub open spec fn recoloured(a: BatchItem, result: Result<Arc<Pixmap>, String>) -> BatchItem {
    match result {
        Ok(rgba) => BatchItem {
            result_rgba: Some(rgba),
            drawn: Drawn { result_texture: false, thumb_texture: false, ..a.drawn },
            status: BatchStatus::Done,
            ..a
        },
        Err(e) => BatchItem { status: BatchStatus::Error(e), ..a },
    }
}

/// Items after the first `n` recoloured pictures arrived. Those whose item is gone
/// are dropped.
pub open spec fn with_recoloured(s: Seq<BatchItem>, arrived: Seq<Recoloured>, n: int) -> Seq<BatchItem>
    decreases n,
{
    if n <= 0 {
        s
    } else {
        let t = with_recoloured(s, arrived, n - 1);
        match place_of(t, arrived[n - 1].item_id) {
            Some(i) => t.update(i, recoloured(t[i], arrived[n - 1].result)),
            None => t,
        }
    }
}

/// Whether one of the first `n` recoloured pictures belongs to an item that is
/// there.
pub open spec fn some_recoloured(s: Seq<BatchItem>, arrived: Seq<Recoloured>, n: int) -> bool
    decreases n,
{
    n > 0 && (some_recoloured(s, arrived, n - 1) || place_of(
        with_recoloured(s, arrived, n - 1),
        arrived[n - 1].item_id,
    ) is Some)
}

/// Stores pictures that were only recoloured. Says whether any item got one.
pub fn filter_results_arrived(batch: &mut BatchManager, arrived: Vec<Recoloured>) -> (r: bool)
    ensures
        final(batch).items@ == with_recoloured(old(batch).items@, arrived@, arrived@.len() as int),
        final(batch).selected_index == old(batch).selected_index,
        final(batch).next_id == old(batch).next_id,
        r == some_recoloured(old(batch).items@, arrived@, arrived@.len() as int),
{
    let ghost before = batch.items@;
    let ghost all = arrived@;
    let mut rest = arrived;
    let n: usize = rest.len();
    let mut any = false;
    let mut k: usize = 0;
    while k < n
        invariant
            k <= n,
            n == all.len(),
            rest@ == all.skip(k as int),
            batch.items@ == with_recoloured(before, all, k as int),
            batch.selected_index == old(batch).selected_index,
            batch.next_id == old(batch).next_id,
            any == some_recoloured(before, all, k as int),
        decreases n - k,
    {
        let a = rest.remove(0);
        assert(a == all[k as int]);
        assert(all.skip(k as int).remove(0) =~= all.skip(k as int + 1));
        if apply_filter_result(batch, a.item_id, a.result) {
            any = true;
        }
        k += 1;
    }
    any
}

/// A finished item shows its own result and keeps the recipe it was made with. A new
/// tensor takes the place of the old one; a rerun that brought none keeps it. What was
/// derived from replaced edges or from the old mask is dropped.
pub proof fn finished_items_show_their_result(
    a: BatchItem,
    b: BatchItem,
    pr: ProcessResult,
    tensor: Option<CachedTensor>,
    edges: Option<CachedTensor>,
    recipe: ProcessingRecipe,
)
    requires
        outcome_applied(a, b, ItemOutcome::Finished(pr), tensor, edges, recipe),
    ensures
        b.status is Done,
        picture_view(b.result_rgba) == Some(pr.rgba_image@),
        b.applied_recipe == Some(recipe),
        tensor is Some ==> b.caches.tensor == tensor,
        tensor is None ==> b.caches.tensor == a.caches.tensor,
        edges is Some ==> b.caches.edge_tensors == edges && b.caches.hot_edge is None
            && b.caches.edge_mask is None,
        edges is None ==> b.caches.edge_tensors == a.caches.edge_tensors && b.caches.edge_mask
            == a.caches.edge_mask,
        b.caches.masked_base is None,
        !b.drawn.result_texture && !b.drawn.thumb_texture,
        b.settings == a.settings,
        b.history == a.history,
        b.redo_stack == a.redo_stack,
        b.source_rgba == a.source_rgba,
        b.bg_image == a.bg_image,
        b.mask_correction == a.mask_correction,
{
}

/// An item that failed says why and starts over: whatever its settings, the next run is a
/// full one. Its last result stays.
pub proof fn failed_items_start_over(
    a: BatchItem,
    b: BatchItem,
    e: String,
    tensor: Option<CachedTensor>,
    edges: Option<CachedTensor>,
    recipe: ProcessingRecipe,
    model: ModelKind,
    chain: bool,
    tier: RequiredTier,
)
    requires
        outcome_applied(a, b, ItemOutcome::Failed(e), tensor, edges, recipe),
    ensures
        b.status == BatchStatus::Error(e),
        b.caches.tensor is None,
        b.caches.edge_tensors is None,
        classified(b, model, chain, tier).1 == TierClass::Full,
        b.result_rgba == a.result_rgba,
        b.history == a.history,
        b.settings == a.settings,
{
}

/// A cancelled item is as it was before it was handed out, and waits.
pub proof fn cancelled_items_wait_unchanged(
    a: BatchItem,
    b: BatchItem,
    tensor: Option<CachedTensor>,
    edges: Option<CachedTensor>,
    recipe: ProcessingRecipe,
)
    requires
        outcome_applied(a, b, ItemOutcome::Cancelled, tensor, edges, recipe),
    ensures
        b.status is Pending,
        b == (BatchItem { status: b.status, ..a }),
{
}

/// A finished item whose settings stayed is not processed again.
pub proof fn finished_items_need_nothing_more(
    a: BatchItem,
    b: BatchItem,
    pr: ProcessResult,
    tensor: Option<CachedTensor>,
    edges: Option<CachedTensor>,
    model: ModelKind,
)
    requires
        outcome_applied(
            a,
            b,
            ItemOutcome::Finished(pr),
            tensor,
            edges,
            a.settings.recipe(model, false),
        ),
    ensures
        classified(b, model, false, RequiredTier::Skip).1 == TierClass::UpToDate,
        classified(b, model, false, RequiredTier::Skip).0 == b,
{
    finished_items_are_up_to_date(b, model);
}

/// An item gets the recipe of its batch once: what comes back again, or was never handed
/// out, counts as made with its present settings, and leaves what is handed out alone.
pub proof fn recipes_are_taken_once(
    recipe: ProcessingRecipe,
    pending: Set<u64>,
    s: Seq<BatchItem>,
    id: u64,
    other: u64,
    model: Option<ModelKind>,
    chain: bool,
)
    requires
        pending.finite(),
        pending.contains(id),
    ensures
        ({
            let out = Some((recipe, pending));
            let (first, left) = recipe_taken(out, s, id, model, chain);
            &&& first == Some(recipe)
            &&& left matches Some((r, p)) ==> r == recipe && !p.contains(id) && (other != id ==> (
            p.contains(other) <==> pending.contains(other)))
            &&& left is None ==> (other != id ==> !pending.contains(other))
            &&& recipe_taken(left, s, id, model, chain).1 == left
            &&& place_of(s, id) is None ==> recipe_taken(left, s, id, model, chain).0 is None
        }),
{
    let rest = pending.remove(id);
    if rest.len() == 0 {
        assert(rest =~= Set::<u64>::empty());
        if other != id {
            assert(!rest.contains(other));
        }
    }
}

/// The error that is told is that of the first item that failed.
pub proof fn told_errors_are_the_first(s: Seq<BatchItem>)
    ensures
        first_error(s) is None <==> forall|i: int|
            0 <= i < s.len() ==> !((#[trigger] s[i]).status is Error),
        first_error(s) matches Some(t) ==> exists|i: int|
            0 <= i < s.len() && says((#[trigger] s[i]).status, t) && forall|j: int|
                0 <= j < i ==> !((#[trigger] s[j]).status is Error),
    decreases s.len(),
{
    if s.len() > 0 {
        let before = s.drop_last();
        told_errors_are_the_first(before);
        assert forall|i: int| 0 <= i < before.len() implies #[trigger] before[i] == s[i] by {}
        if let Some(t) = first_error(before) {
            let i = choose|i: int|
                0 <= i < before.len() && says((#[trigger] before[i]).status, t) && forall|j: int|
                    0 <= j < i ==> !((#[trigger] before[j]).status is Error);
            assert(says(s[i].status, t));
            assert forall|j: int| 0 <= j < i implies !((#[trigger] s[j]).status is Error) by {
                assert(before[j] == s[j]);
            }
        } else {
            assert forall|j: int| 0 <= j < before.len() implies !((
            #[trigger] s[j]).status is Error) by {
                assert(before[j] == s[j]);
            }
            let last = s[s.len() - 1];
            assert(last == s.last());
        }
    }
}

/// A batch is reported on when it is over or something failed, and a failure is never
/// reported as success.
pub proof fn failures_are_told(
    done: nat,
    errored: nat,
    processing: nat,
    first: Option<Seq<char>>,
)
    ensures
        report_text(done, errored, processing, first) is Some <==> errored > 0 || processing == 0,
        errored > 0 ==> (first matches Some(e) ==> ends_with(
            report_text(done, errored, processing, first)->0,
            e,
        )),
{
    if errored > 0 {
        if let Some(e) = first {
            let t = report_text(done, errored, processing, first)->0;
            assert(t.skip(t.len() - e.len()) =~= e);
        }
    }
}

/// Whether a text ends in another.
pub open spec fn ends_with(t: Seq<char>, e: Seq<char>) -> bool {
    t.len() >= e.len() && t.skip(t.len() - e.len()) == e
}

/// A recoloured picture becomes the result of its item alone; a failure is shown there
/// and leaves its pictures.
pub proof fn recoloured_pictures_are_results(a: BatchItem, result: Result<Arc<Pixmap>, String>)
    ensures
        ({
            let b = recoloured(a, result);
            &&& result matches Ok(p) ==> b.result_rgba == Some(p) && b.status is Done
                && !b.drawn.result_texture
            &&& result matches Err(e) ==> b.status == BatchStatus::Error(e) && b.result_rgba
                == a.result_rgba
            &&& b.settings == a.settings && b.history == a.history && b.source_rgba
                == a.source_rgba && b.caches == a.caches && b.id == a.id
        }),
{
}

/// Only a compressed entry whose file was written is moved; everything else stays as it
/// is, and every entry keeps its recipe.
pub proof fn only_written_entries_move(e: HistoryEntry, written: Option<String>)
    ensures
        demoted(e, written).recipe == e.recipe,
        written is None || !(e.slot is Compressed) ==> demoted(e, written) == e,
        e.slot is Compressed ==> (written matches Some(path) ==> file_of(demoted(e, written).slot)
            == Some(path)),
{
}

/// What is shown while models load names those that the line mode runs: the cut-out's
/// unless only lines are drawn, the edge detector unless none are.
pub proof fn loading_names_the_models(line_mode: LineMode, seg_name: Seq<char>, slow: bool)
    ensures
        "Loading "@.is_prefix_of(loading_text(line_mode, seg_name, slow)),
        line_mode is Off ==> loading_text(line_mode, seg_name, false) == "Loading "@ + seg_name
            + "..."@,
        line_mode is EdgesOnly ==> loading_text(line_mode, seg_name, false) == "Loading DexiNed..."@,
        line_mode is SubjectOutline ==> loading_text(line_mode, seg_name, false) == "Loading "@
            + seg_name + " + DexiNed..."@,
        loading_text(line_mode, seg_name, true).len() > loading_text(
            line_mode,
            seg_name,
            false,
        ).len(),
{
    reveal_strlit("Loading ");
    reveal_strlit("...");
    reveal_strlit("DexiNed");
    reveal_strlit(" + DexiNed");
    reveal_strlit(" + DexiNed...");
    reveal_strlit("Loading DexiNed...");
    reveal_strlit(" (first run may take a few minutes)...");
    let t = loading_text(line_mode, seg_name, slow);
    assert(t.subrange(0, 8) =~= "Loading "@);
    let u = loading_text(line_mode, seg_name, false);
    if line_mode is EdgesOnly {
        assert(u =~= "Loading DexiNed..."@);
    }
    if line_mode is SubjectOutline {
        assert(u =~= "Loading "@ + seg_name + " + DexiNed..."@);
    }
}

/// Every stage has a text of its own.
pub proof fn stages_are_told_apart(a: ProgressStage, b: ProgressStage, loading: Seq<char>)
    requires
        !(a is LoadingModel),
        !(b is LoadingModel),
    ensures
        progress_text(a, loading) == progress_text(b, loading) <==> a == b,
        progress_text(ProgressStage::LoadingModel, loading) == loading,
{
    reveal_strlit("GPU warming up \u{2014} using CPU");
    reveal_strlit("Decoding image");
    reveal_strlit("Resizing");
    reveal_strlit("Normalizing pixels");
    reveal_strlit("Running AI model");
    reveal_strlit("Building mask");
    reveal_strlit("Applying transparency");
    let s = progress_text(a, loading);
    let t = progress_text(b, loading);
    assert(s[0] != t[0] || s[1] != t[1] || a == b);
}

/// A recoloured picture goes to the item it was made for and to no other; one whose
/// item is gone changes nothing. All items keep their place and their id.
pub proof fn recoloured_pictures_go_to_their_item(
    s: Seq<BatchItem>,
    arrived: Seq<Recoloured>,
    n: int,
    i: int,
)
    requires
        0 <= n <= arrived.len(),
        0 <= i < s.len(),
    ensures
        with_recoloured(s, arrived, n).len() == s.len(),
        with_recoloured(s, arrived, n)[i].id == s[i].id,
        (forall|k: int| 0 <= k < n ==> (#[trigger] arrived[k]).item_id != s[i].id)
            ==> with_recoloured(s, arrived, n)[i] == s[i],
        n > 0 && arrived[n - 1].item_id == s[i].id && (forall|j: int|
            0 <= j < i ==> (#[trigger] s[j]).id != s[i].id) ==> with_recoloured(s, arrived, n)[i]
            == recoloured(with_recoloured(s, arrived, n - 1)[i], arrived[n - 1].result),
    decreases n,
{
    if n > 0 {
        let t = with_recoloured(s, arrived, n - 1);
        let id = arrived[n - 1].item_id;
        recoloured_pictures_go_to_their_item(s, arrived, n - 1, i);
        place_is_first(t, id);
        if let Some(p) = place_of(t, id) {
            assert(0 <= p < t.len() && t[p].id == id);
            if id == s[i].id && (forall|j: int| 0 <= j < i ==> (#[trigger] s[j]).id != s[i].id) {
                if p < i {
                    recoloured_pictures_go_to_their_item(s, arrived, n - 1, p);
                    assert(s[p].id == s[i].id);
                }
                if p > i {
                    assert(t[i].id != id);
                }
            }
        } else {
            assert(t[i].id != id);
        }
    }
}

/// Something was recoloured where one of the pictures that arrived belongs to an item
/// that is there.
pub proof fn recoloured_items_are_noticed(s: Seq<BatchItem>, arrived: Seq<Recoloured>, n: int)
    requires
        0 <= n <= arrived.len(),
    ensures
        some_recoloured(s, arrived, n) <==> exists|k: int, i: int|
            0 <= k < n && 0 <= i < s.len() && (#[trigger] arrived[k]).item_id == (#[trigger] s[i]).id,
    decreases n,
{
    if n > 0 {
        recoloured_items_are_noticed(s, arrived, n - 1);
        let t = with_recoloured(s, arrived, n - 1);
        let id = arrived[n - 1].item_id;
        place_is_first(t, id);
        if let Some(p) = place_of(t, id) {
            if s.len() > 0 {
                recoloured_pictures_go_to_their_item(s, arrived, n - 1, 0);
            } else {
                recoloured_keep_none(arrived, s, n - 1);
            }
            recoloured_pictures_go_to_their_item(s, arrived, n - 1, p);
            assert(arrived[n - 1].item_id == s[p].id);
        }
        if exists|k: int, i: int|
            0 <= k < n && 0 <= i < s.len() && (#[trigger] arrived[k]).item_id == (#[trigger] s[i]).id {
            let (k, i) = choose|k: int, i: int|
                0 <= k < n && 0 <= i < s.len() && (#[trigger] arrived[k]).item_id
                    == (#[trigger] s[i]).id;
            if k == n - 1 {
                recoloured_pictures_go_to_their_item(s, arrived, n - 1, i);
                assert(t[i].id == id);
            }
        }
    }
}

proof fn recoloured_keep_none(arrived: Seq<Recoloured>, s: Seq<BatchItem>, n: int)
    requires
        s.len() == 0,
    ensures
        with_recoloured(s, arrived, n).len() == 0,
    decreases n,
{
    if n > 0 {
        recoloured_keep_none(arrived, s, n - 1);
        place_is_first(with_recoloured(s, arrived, n - 1), arrived[n - 1].item_id);
    }
}

} // verus!
