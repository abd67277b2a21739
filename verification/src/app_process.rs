//! What processing a batch takes: which items need which part of the pipeline, and
//! which need nothing.
use vstd::prelude::*;
use std::collections::HashSet;
use crate::batch_manager::BatchManager;
use crate::item::{BatchItem, BatchStatus};
use crate::knob_catalog::{
    cache_impact_for_recipe_diff, diff_impact, same_recipe_keeps_every_cache, CacheImpact,
};
use crate::pipeline::{FillStyle, LineMode, ModelKind, ProcessingRecipe, RequiredTier};
use crate::tables::set_of;
use crate::text::{decimal, join2, join3, to_decimal};

verus! {

broadcast use vstd::std_specs::hash::group_hash_axioms;

/// What an item needs.
#[derive(Clone, Copy, Debug, PartialEq, Eq, Structural)]
pub enum TierClass {
    /// The whole pipeline.
    Full,
    /// The mask stage, from the cached segmentation.
    MaskRerun,
    /// Edge detection on the cached segmentation.
    AddEdge,
    /// Nothing.
    UpToDate,
}

/// What an item needs, and the item with stale caches dropped. `tier` is what the
/// difference between the recipe of its result and its settings calls for.
pub open spec fn classified(item: BatchItem, model: ModelKind, chain: bool, tier: RequiredTier) -> (
    BatchItem,
    TierClass,
) {
    match item.applied_recipe {
        None => (item, TierClass::Full),
        Some(made) => if chain && item.result_rgba is Some {
            (item.after_impact(CacheImpact::SegCache), TierClass::Full)
        } else {
            let wanted = item.settings.recipe(model, chain);
            let fresh = item.after_impact(diff_impact(made, wanted));
            let cached = fresh.caches.tensor is Some;
            match tier {
                RequiredTier::Skip | RequiredTier::CompositeOnly => (
                    BatchItem {
                        applied_recipe: Some(
                            ProcessingRecipe { composite: wanted.composite, ..made },
                        ),
                        ..fresh
                    },
                    TierClass::UpToDate,
                ),
                RequiredTier::MaskRerun => (
                    fresh,
                    if !cached {
                        TierClass::Full
                    } else if wanted.inference.uses_edge_detection {
                        TierClass::AddEdge
                    } else {
                        TierClass::MaskRerun
                    },
                ),
                RequiredTier::AddEdgeInference => (
                    fresh,
                    if cached {
                        TierClass::AddEdge
                    } else {
                        TierClass::Full
                    },
                ),
                RequiredTier::EdgeRerun | RequiredTier::FullPipeline => (fresh, TierClass::Full),
            }
        },
    }
}

/// What an item needs. Caches that its settings made stale are dropped, and the
/// recipe of an item that is up to date takes over what only compositing depends
/// on.
pub fn classify_item(item: &mut BatchItem, model: ModelKind, chain: bool, tier: RequiredTier) -> (r:
    TierClass)
    ensures
        (*final(item), r) == classified(*old(item), model, chain, tier),
        r == TierClass::UpToDate <==> {
            &&& tier == RequiredTier::Skip || tier == RequiredTier::CompositeOnly
            &&& old(item).applied_recipe is Some
            &&& !(chain && old(item).result_rgba is Some)
        },
        tier == RequiredTier::FullPipeline || tier == RequiredTier::EdgeRerun ==> r
            == TierClass::Full,
{
    let made = match item.applied_recipe {
        None => {
            return TierClass::Full;
        },
        Some(r) => r,
    };
    if chain && item.result_rgba.is_some() {
        item.apply_cache_impact(CacheImpact::SegCache);
        return TierClass::Full;
    }
    let wanted = item.settings.current_recipe(model, chain);
    let impact = cache_impact_for_recipe_diff(&made, &wanted);
    item.apply_cache_impact(impact);
    let cached = item.caches.tensor.is_some();
    match tier {
        RequiredTier::Skip | RequiredTier::CompositeOnly => {
            let mut recipe = made;
            recipe.composite = wanted.composite;
            item.applied_recipe = Some(recipe);
            TierClass::UpToDate
        },
        RequiredTier::MaskRerun => {
            if !cached {
                TierClass::Full
            } else if wanted.inference.uses_edge_detection {
                TierClass::AddEdge
            } else {
                TierClass::MaskRerun
            }
        },
        RequiredTier::AddEdgeInference => {
            if cached {
                TierClass::AddEdge
            } else {
                TierClass::Full
            }
        },
        RequiredTier::EdgeRerun | RequiredTier::FullPipeline => TierClass::Full,
    }
}

/// An item without a segmentation is never handed to a stage that needs one, and
/// classifying never touches its pictures, history or settings.
pub proof fn reruns_have_their_tensor(
    item: BatchItem,
    model: ModelKind,
    chain: bool,
    tier: RequiredTier,
)
    ensures
        ({
            let (after, class) = classified(item, model, chain, tier);
            &&& class == TierClass::MaskRerun || class == TierClass::AddEdge
                ==> after.caches.tensor is Some
            &&& item.applied_recipe is None ==> class == TierClass::Full
            &&& after.result_rgba == item.result_rgba
            &&& after.history == item.history
            &&& after.settings == item.settings
            &&& after.status == item.status
        }),
{
}

/// A finished item is not processed again as long as its settings stay: it is up to
/// date, and no cache is dropped. In chain mode every run counts anew.
pub proof fn finished_items_are_up_to_date(item: BatchItem, model: ModelKind)
    requires
        item.applied_recipe == Some(item.settings.recipe(model, false)),
    ensures
        classified(item, model, false, RequiredTier::Skip) == (item, TierClass::UpToDate),
{
    let made = item.settings.recipe(model, false);
    same_recipe_keeps_every_cache(made);
}

/// Items of a batch by what they need, in batch order.
pub struct ClassifiedTiers {
    pub tier1: Vec<u64>,
    pub tier2: Vec<u64>,
    pub tier_add_edge: Vec<u64>,
    /// Number of items that are up to date.
    pub skip_count: usize,
}

/// Whether an item is to be processed: it is wanted and not being processed.
pub open spec fn is_candidate(item: BatchItem, wanted: Set<u64>) -> bool {
    wanted.contains(item.id) && !(item.status is Processing)
}

/// Ids of the first `n` items that are to be processed and are of a class, in
/// order.
pub open spec fn class_ids(
    s: Seq<BatchItem>,
    wanted: Set<u64>,
    tiers: Seq<RequiredTier>,
    model: ModelKind,
    chain: bool,
    class: TierClass,
    n: int,
) -> Seq<u64>
    decreases n,
{
    if n <= 0 {
        Seq::empty()
    } else {
        let before = class_ids(s, wanted, tiers, model, chain, class, n - 1);
        if is_candidate(s[n - 1], wanted) && classified(s[n - 1], model, chain, tiers[n - 1]).1
            == class {
            before.push(s[n - 1].id)
        } else {
            before
        }
    }
}

/// Whether items were classified: those to be processed have their stale caches
/// dropped, the others are as before, and the lists hold what each class holds.
pub open spec fn classification(
    before: Seq<BatchItem>,
    after: Seq<BatchItem>,
    wanted: Set<u64>,
    tiers: Seq<RequiredTier>,
    model: ModelKind,
    chain: bool,
    r: ClassifiedTiers,
) -> bool {
    let n = before.len() as int;
    &&& after.len() == before.len()
    &&& forall|i: int|
        0 <= i < n ==> #[trigger] after[i] == if is_candidate(before[i], wanted) {
            classified(before[i], model, chain, tiers[i]).0
        } else {
            before[i]
        }
    &&& r.tier1@ == class_ids(before, wanted, tiers, model, chain, TierClass::Full, n)
    &&& r.tier2@ == class_ids(before, wanted, tiers, model, chain, TierClass::MaskRerun, n)
    &&& r.tier_add_edge@ == class_ids(before, wanted, tiers, model, chain, TierClass::AddEdge, n)
    &&& r.skip_count == class_ids(
        before,
        wanted,
        tiers,
        model,
        chain,
        TierClass::UpToDate,
        n,
    ).len()
}

proof fn class_ids_bound(
    s: Seq<BatchItem>,
    wanted: Set<u64>,
    tiers: Seq<RequiredTier>,
    model: ModelKind,
    chain: bool,
    class: TierClass,
    n: int,
)
    requires
        0 <= n,
    ensures
        class_ids(s, wanted, tiers, model, chain, class, n).len() <= n,
    decreases n,
{
    if n > 0 {
        class_ids_bound(s, wanted, tiers, model, chain, class, n - 1);
    }
}

/// Sorts the items that are to be processed by what they need. `tiers` holds, for
/// each item, what the difference between its result and its settings calls for.
pub fn classify_candidates(
    items: &mut Vec<BatchItem>,
    wanted: &HashSet<u64>,
    tiers: &Vec<RequiredTier>,
    model: ModelKind,
    chain: bool,
) -> (r: ClassifiedTiers)
    requires
        tiers@.len() == old(items)@.len(),
    ensures
        classification(old(items)@, final(items)@, wanted@, tiers@, model, chain, r),
{
    let ghost before = items@;
    let mut r = ClassifiedTiers {
        tier1: Vec::new(),
        tier2: Vec::new(),
        tier_add_edge: Vec::new(),
        skip_count: 0,
    };
    let mut i: usize = 0;
    while i < items.len()
        invariant
            i <= items@.len(),
            items@.len() == before.len(),
            tiers@.len() == before.len(),
            forall|j: int| i <= j < before.len() ==> items@[j] == before[j],
            forall|j: int|
                0 <= j < i ==> #[trigger] items@[j] == if is_candidate(before[j], wanted@) {
                    classified(before[j], model, chain, tiers@[j]).0
                } else {
                    before[j]
                },
            r.tier1@ == class_ids(before, wanted@, tiers@, model, chain, TierClass::Full, i as int),
            r.tier2@ == class_ids(
                before,
                wanted@,
                tiers@,
                model,
                chain,
                TierClass::MaskRerun,
                i as int,
            ),
            r.tier_add_edge@ == class_ids(
                before,
                wanted@,
                tiers@,
                model,
                chain,
                TierClass::AddEdge,
                i as int,
            ),
            r.skip_count == class_ids(
                before,
                wanted@,
                tiers@,
                model,
                chain,
                TierClass::UpToDate,
                i as int,
            ).len(),
        decreases items@.len() - i,
    {
        let busy = match items[i].status {
            BatchStatus::Processing => true,
            _ => false,
        };
        let id: u64 = items[i].id;
        if wanted.contains(&id) && !busy {
            proof {
                class_ids_bound(
                    before,
                    wanted@,
                    tiers@,
                    model,
                    chain,
                    TierClass::UpToDate,
                    i as int,
                );
            }
            match classify_item(&mut items[i], model, chain, tiers[i]) {
                TierClass::Full => r.tier1.push(id),
                TierClass::MaskRerun => r.tier2.push(id),
                TierClass::AddEdge => r.tier_add_edge.push(id),
                TierClass::UpToDate => {
                    r.skip_count = r.skip_count + 1;
                },
            }
        }
        i += 1;
    }
    r
}

impl ClassifiedTiers {
    /// Ids of all items that are processed.
    pub open spec fn process_ids(&self) -> Seq<u64> {
        self.tier1@ + self.tier2@ + self.tier_add_edge@
    }

    /// Ids of all items that are processed.
    pub fn all_process_ids(&self) -> (r: Vec<u64>)
        ensures
            r@ == self.process_ids(),
    {
        let mut r: Vec<u64> = Vec::new();
        append_all(&mut r, &self.tier1);
        append_all(&mut r, &self.tier2);
        append_all(&mut r, &self.tier_add_edge);
        assert(r@ =~= self.process_ids());
        r
    }
}

/// Appends numbers to a list.
fn append_all(r: &mut Vec<u64>, more: &Vec<u64>)
    ensures
        final(r)@ == old(r)@ + more@,
{
    let mut i: usize = 0;
    while i < more.len()
        invariant
            i <= more@.len(),
            r@ =~= old(r)@ + more@.take(i as int),
        decreases more@.len() - i,
    {
        r.push(more[i]);
        i += 1;
    }
    assert(more@.take(more@.len() as int) =~= more@);
}

/// Every item that is to be processed is sorted into exactly one class.
pub proof fn classes_cover_candidates(
    s: Seq<BatchItem>,
    wanted: Set<u64>,
    tiers: Seq<RequiredTier>,
    model: ModelKind,
    chain: bool,
    n: int,
)
    requires
        0 <= n <= s.len(),
    ensures
        class_ids(s, wanted, tiers, model, chain, TierClass::Full, n).len() + class_ids(
            s,
            wanted,
            tiers,
            model,
            chain,
            TierClass::MaskRerun,
            n,
        ).len() + class_ids(s, wanted, tiers, model, chain, TierClass::AddEdge, n).len()
            + class_ids(s, wanted, tiers, model, chain, TierClass::UpToDate, n).len()
            == candidate_count(s, wanted, n),
    decreases n,
{
    if n > 0 {
        classes_cover_candidates(s, wanted, tiers, model, chain, n - 1);
    }
}

/// Number of the first `n` items that are to be processed.
pub open spec fn candidate_count(s: Seq<BatchItem>, wanted: Set<u64>, n: int) -> int
    decreases n,
{
    if n <= 0 {
        0
    } else {
        candidate_count(s, wanted, n - 1) + (if is_candidate(s[n - 1], wanted) {
            1int
        } else {
            0int
        })
    }
}

/// What the user is told about items that are up to date.
pub open spec fn skip_text(skipped: nat, processing: nat) -> Option<Seq<char>> {
    if skipped == 0 {
        None
    } else if processing == 0 {
        if skipped == 1 {
            Some("Already up to date"@)
        } else {
            Some(decimal(skipped) + " images already up to date"@)
        }
    } else {
        Some(decimal(skipped) + " up to date, processing "@ + decimal(processing))
    }
}

/// View of an optional text.
pub open spec fn shown(s: Option<String>) -> Option<Seq<char>> {
    match s {
        Some(t) => Some(t@),
        None => None,
    }
}

/// What the user is told about items that are up to date.
pub fn notify_skip(skipped: usize, processing: usize) -> (r: Option<String>)
    ensures
        shown(r) == skip_text(skipped as nat, processing as nat),
{
    if skipped == 0 {
        return None;
    }
    let n = to_decimal(skipped as u64);
    if processing == 0 {
        if skipped == 1 {
            Some("Already up to date".to_owned())
        } else {
            Some(join2(n.as_str(), " images already up to date"))
        }
    } else {
        let p = to_decimal(processing as u64);
        Some(join3(n.as_str(), " up to date, processing ", p.as_str()))
    }
}

/// A picture that only gets recoloured.
#[derive(Clone, Copy, Debug, PartialEq, Eq, Structural)]
pub struct FilterJob {
    pub item_id: u64,
    pub fill_style: FillStyle,
}

/// What processing comes to.
pub enum ProcessPlan {
    /// Without a model and without lines, pictures only get recoloured.
    FilterOnly(Vec<FilterJob>),
    /// The items go through the model.
    Classified(ModelRun),
}

/// Items sorted by what they need of a model. Nothing is started where no item
/// needs anything.
pub struct ModelRun {
    pub model: ModelKind,
    pub tiers: ClassifiedTiers,
    /// What the user is told about items that are up to date.
    pub notice: Option<String>,
    /// Whether any item needs anything.
    pub starts: bool,
    /// Whether full runs are admitted one by one, as memory allows.
    pub streamed: bool,
}

/// Whether pictures only get recoloured: no model is picked and no item draws
/// lines.
pub open spec fn filter_only(model: Option<ModelKind>, s: Seq<BatchItem>) -> bool {
    model is None && forall|i: int| 0 <= i < s.len() ==> (#[trigger] s[i]).settings.line_mode
        == LineMode::Off
}

/// Jobs for the first `n` items that are to be recoloured.
pub open spec fn filter_jobs(s: Seq<BatchItem>, wanted: Set<u64>, n: int) -> Seq<FilterJob>
    decreases n,
{
    if n <= 0 {
        Seq::empty()
    } else if is_candidate(s[n - 1], wanted) {
        filter_jobs(s, wanted, n - 1).push(
            FilterJob { item_id: s[n - 1].id, fill_style: s[n - 1].settings.fill_style },
        )
    } else {
        filter_jobs(s, wanted, n - 1)
    }
}

/// The model that lines are drawn with where none is picked.
pub open spec fn used_model(model: Option<ModelKind>) -> ModelKind {
    match model {
        Some(m) => m,
        None => ModelKind::BiRefNetLite,
    }
}

/// The model that lines are drawn with where none is picked.
pub fn model_or_default(model: Option<ModelKind>) -> (r: ModelKind)
    ensures
        r == used_model(model),
{
    match model {
        Some(m) => m,
        None => ModelKind::BiRefNetLite,
    }
}

/// Whether no item draws lines.
fn no_lines(items: &Vec<BatchItem>) -> (r: bool)
    ensures
        r == forall|i: int| 0 <= i < items@.len() ==> (#[trigger] items@[i]).settings.line_mode
            == LineMode::Off,
{
    let mut i: usize = 0;
    while i < items.len()
        invariant
            i <= items@.len(),
            forall|j: int|
                0 <= j < i ==> (#[trigger] items@[j]).settings.line_mode == LineMode::Off,
        decreases items@.len() - i,
    {
        if items[i].settings.line_mode != LineMode::Off {
            return false;
        }
        i += 1;
    }
    true
}

/// Starts recolouring: every wanted item that is not being processed is.
pub fn process_filter_only(items: &mut Vec<BatchItem>, wanted: &HashSet<u64>) -> (r: Vec<FilterJob>)
    ensures
        r@ == filter_jobs(old(items)@, wanted@, old(items)@.len() as int),
        final(items)@.len() == old(items)@.len(),
        forall|i: int|
            0 <= i < old(items)@.len() ==> #[trigger] final(items)@[i] == if is_candidate(
                old(items)@[i],
                wanted@,
            ) {
                BatchItem { status: BatchStatus::Processing, ..old(items)@[i] }
            } else {
                old(items)@[i]
            },
{
    let ghost before = items@;
    let mut r: Vec<FilterJob> = Vec::new();
    let mut i: usize = 0;
    while i < items.len()
        invariant
            i <= items@.len(),
            items@.len() == before.len(),
            r@ == filter_jobs(before, wanted@, i as int),
            forall|j: int| i <= j < before.len() ==> items@[j] == before[j],
            forall|j: int|
                0 <= j < i ==> #[trigger] items@[j] == if is_candidate(before[j], wanted@) {
                    BatchItem { status: BatchStatus::Processing, ..before[j] }
                } else {
                    before[j]
                },
        decreases items@.len() - i,
    {
        let busy = match items[i].status {
            BatchStatus::Processing => true,
            _ => false,
        };
        let id: u64 = items[i].id;
        if wanted.contains(&id) && !busy {
            r.push(FilterJob { item_id: id, fill_style: items[i].settings.fill_style });
            items[i].status = BatchStatus::Processing;
        }
        i += 1;
    }
    r
}

/// Whether a plan is the one for the wanted items, and the items changed with it.
pub open spec fn planned(
    before: Seq<BatchItem>,
    after: Seq<BatchItem>,
    wanted: Set<u64>,
    tiers: Seq<RequiredTier>,
    model: Option<ModelKind>,
    chain: bool,
    plan: ProcessPlan,
) -> bool {
    if filter_only(model, before) {
        &&& plan matches ProcessPlan::FilterOnly(jobs) && jobs@ == filter_jobs(
            before,
            wanted,
            before.len() as int,
        )
        &&& after.len() == before.len()
        &&& forall|i: int|
            0 <= i < before.len() ==> #[trigger] after[i] == if is_candidate(before[i], wanted) {
                BatchItem { status: BatchStatus::Processing, ..before[i] }
            } else {
                before[i]
            }
    } else {
        &&& plan matches ProcessPlan::Classified(run) && {
            &&& run.model == used_model(model)
            &&& classification(
                before,
                after,
                wanted,
                tiers,
                used_model(model),
                chain,
                run.tiers,
            )
            &&& run.starts == (run.tiers.process_ids().len() > 0)
            &&& run.streamed == (run.tiers.tier1@.len() > 1)
            &&& shown(run.notice) == skip_text(
                run.tiers.skip_count as nat,
                run.tiers.process_ids().len(),
            )
        }
    }
}

/// Processes the wanted items that are not being processed. Each gets no more
/// than it needs; what is up to date is skipped.
pub fn process_items(
    items: &mut Vec<BatchItem>,
    wanted: &HashSet<u64>,
    tiers: &Vec<RequiredTier>,
    model: Option<ModelKind>,
    chain: bool,
) -> (r: ProcessPlan)
    requires
        tiers@.len() == old(items)@.len(),
    ensures
        planned(old(items)@, final(items)@, wanted@, tiers@, model, chain, r),
{
    if model.is_none() && no_lines(items) {
        return ProcessPlan::FilterOnly(process_filter_only(items, wanted));
    }
    let used = model_or_default(model);
    let t = classify_candidates(items, wanted, tiers, used, chain);
    proof {
        classes_cover_candidates(
            old(items)@,
            wanted@,
            tiers@,
            used,
            chain,
            old(items)@.len() as int,
        );
        candidate_count_bound(old(items)@, wanted@, old(items)@.len() as int);
    }
    let total: usize = items.len();
    assert(t.tier1@.len() + t.tier2@.len() + t.tier_add_edge@.len() <= total);
    let count: usize = t.tier1.len() + t.tier2.len() + t.tier_add_edge.len();
    assert(t.process_ids().len() == count);
    let notice = notify_skip(t.skip_count, count);
    let streamed = t.tier1.len() > 1;
    ProcessPlan::Classified(
        ModelRun { model: used, tiers: t, notice, starts: count > 0, streamed },
    )
}

/// Processes the items that the process button stands for: the checked ones, or
/// the viewed one. `None` where there are none.
pub fn handle_remove_bg(
    batch: &mut BatchManager,
    tiers: &Vec<RequiredTier>,
    model: Option<ModelKind>,
    chain: bool,
) -> (r: Option<ProcessPlan>)
    requires
        tiers@.len() == old(batch).items@.len(),
    ensures
        final(batch).selected_index == old(batch).selected_index,
        final(batch).next_id == old(batch).next_id,
        match r {
            None => old(batch).targets().len() == 0 && final(batch).items@ == old(batch).items@,
            Some(plan) => old(batch).targets().len() > 0 && planned(
                old(batch).items@,
                final(batch).items@,
                old(batch).targets().to_set(),
                tiers@,
                model,
                chain,
                plan,
            ),
        },
{
    let ids = batch.items_to_process();
    if ids.len() == 0 {
        return None;
    }
    let wanted = set_of(&ids);
    Some(process_items(&mut batch.items, &wanted, tiers, model, chain))
}

proof fn candidate_count_bound(s: Seq<BatchItem>, wanted: Set<u64>, n: int)
    requires
        0 <= n,
    ensures
        candidate_count(s, wanted, n) <= n,
    decreases n,
{
    if n > 0 {
        candidate_count_bound(s, wanted, n - 1);
    }
}

/// An item is left alone only where its result calls for nothing but compositing: it has
/// one, chain mode does not feed it back, and the tier is one without a rerun. Whatever
/// calls for the line stage or for everything gets a full run.
pub proof fn only_settled_items_are_skipped(
    item: BatchItem,
    model: ModelKind,
    chain: bool,
    tier: RequiredTier,
)
    ensures
        ({
            let class = classified(item, model, chain, tier).1;
            &&& class == TierClass::UpToDate <==> {
                &&& tier == RequiredTier::Skip || tier == RequiredTier::CompositeOnly
                &&& item.applied_recipe is Some
                &&& !(chain && item.result_rgba is Some)
            }
            &&& tier == RequiredTier::FullPipeline || tier == RequiredTier::EdgeRerun ==> class
                == TierClass::Full
            &&& item.applied_recipe is None ==> class == TierClass::Full
            &&& chain && item.result_rgba is Some ==> class == TierClass::Full
        }),
{
}

/// A rerun does what its tier asks for: the mask stage alone is rerun only for a mask
/// tier of an item without lines, and edges are detected where lines are drawn. With the
/// segmentation at hand and still good, neither tier costs a full run.
pub proof fn reruns_do_what_was_asked(
    item: BatchItem,
    model: ModelKind,
    chain: bool,
    tier: RequiredTier,
)
    ensures
        ({
            let class = classified(item, model, chain, tier).1;
            let lines = item.settings.line_mode != LineMode::Off;
            &&& class == TierClass::MaskRerun ==> tier == RequiredTier::MaskRerun && !lines
            &&& class == TierClass::AddEdge ==> tier == RequiredTier::AddEdgeInference || (tier
                == RequiredTier::MaskRerun && lines)
            &&& (item.applied_recipe matches Some(made) && made.inference.model == model
                && made.was_chain == chain && !(chain && item.result_rgba is Some)
                && item.caches.tensor is Some) ==> {
                &&& tier == RequiredTier::MaskRerun && !lines ==> class == TierClass::MaskRerun
                &&& tier == RequiredTier::MaskRerun && lines ==> class == TierClass::AddEdge
                &&& tier == RequiredTier::AddEdgeInference ==> class == TierClass::AddEdge
            }
        }),
{
}

/// Another model never works on the segmentation of the one before: that is dropped, and
/// an item that needs anything of the model gets a full run.
pub proof fn another_model_starts_over(
    item: BatchItem,
    model: ModelKind,
    tier: RequiredTier,
)
    requires
        item.applied_recipe matches Some(made) && made.inference.model != model,
    ensures
        ({
            let (after, class) = classified(item, model, false, tier);
            &&& after.caches.tensor is None
            &&& class == TierClass::Full || class == TierClass::UpToDate
            &&& tier != RequiredTier::Skip && tier != RequiredTier::CompositeOnly ==> class
                == TierClass::Full
        }),
{
}

/// Classifying an item keeps its recipe but for what only compositing depends on, which
/// an item that is up to date takes over from its settings: it then agrees with them
/// there.
pub proof fn settled_items_take_over_their_background(
    item: BatchItem,
    model: ModelKind,
    chain: bool,
    tier: RequiredTier,
)
    ensures
        ({
            let (after, class) = classified(item, model, chain, tier);
            &&& class != TierClass::UpToDate ==> after.applied_recipe == item.applied_recipe
            &&& class == TierClass::UpToDate ==> (after.applied_recipe matches Some(r) && {
                &&& r.inference == item.applied_recipe->0.inference
                &&& r.edge == item.applied_recipe->0.edge
                &&& r.mask == item.applied_recipe->0.mask
                &&& r.was_chain == item.applied_recipe->0.was_chain
                &&& r.composite.bg_color is Some <==> item.settings.bg is Some
                &&& item.settings.bg matches Some(c) ==> (r.composite.bg_color matches Some(d)
                    && d.r == c.r && d.g == c.g && d.b == c.b)
                &&& r.composite.solid_line_color == item.settings.solid_line_color
            })
            &&& after.id == item.id
            &&& after.source == item.source
            &&& after.mask_correction == item.mask_correction
            &&& after.caches.masked_base == item.caches.masked_base
        }),
{
}

/// Whether two recipes agree in everything but compositing.
pub open spec fn same_but_compositing(a: ProcessingRecipe, b: ProcessingRecipe) -> bool {
    a.inference == b.inference && a.edge == b.edge && a.mask == b.mask && a.was_chain
        == b.was_chain
}

proof fn class_ids_hold(
    s: Seq<BatchItem>,
    wanted: Set<u64>,
    tiers: Seq<RequiredTier>,
    model: ModelKind,
    chain: bool,
    class: TierClass,
    n: int,
    i: int,
)
    requires
        0 <= i < n <= s.len(),
        is_candidate(s[i], wanted),
        classified(s[i], model, chain, tiers[i]).1 == class,
    ensures
        class_ids(s, wanted, tiers, model, chain, class, n).contains(s[i].id),
    decreases n,
{
    let before = class_ids(s, wanted, tiers, model, chain, class, n - 1);
    let all = class_ids(s, wanted, tiers, model, chain, class, n);
    if i == n - 1 {
        assert(all[before.len() as int] == s[i].id);
    } else {
        class_ids_hold(s, wanted, tiers, model, chain, class, n - 1, i);
        let k = before.index_of(s[i].id);
        assert(all[k] == s[i].id);
    }
}

proof fn class_ids_come_from(
    s: Seq<BatchItem>,
    wanted: Set<u64>,
    tiers: Seq<RequiredTier>,
    model: ModelKind,
    chain: bool,
    class: TierClass,
    n: int,
    id: u64,
) -> (i: int)
    requires
        0 <= n <= s.len(),
        class_ids(s, wanted, tiers, model, chain, class, n).contains(id),
    ensures
        0 <= i < n,
        s[i].id == id,
        is_candidate(s[i], wanted),
        classified(s[i], model, chain, tiers[i]).1 == class,
    decreases n,
{
    let before = class_ids(s, wanted, tiers, model, chain, class, n - 1);
    let all = class_ids(s, wanted, tiers, model, chain, class, n);
    let k = all.index_of(id);
    if before.contains(id) {
        class_ids_come_from(s, wanted, tiers, model, chain, class, n - 1, id)
    } else {
        if k < before.len() {
            assert(all[k] == before[k]);
            assert(before.contains(id));
        }
        n - 1
    }
}

/// Every wanted item that is not being processed and whose settings no longer agree with
/// its result is processed, as long as the tiers tell: one of the three lists holds it.
/// So is every one without a result.
pub proof fn changed_items_are_processed(
    before: Seq<BatchItem>,
    after: Seq<BatchItem>,
    wanted: Set<u64>,
    tiers: Seq<RequiredTier>,
    model: ModelKind,
    chain: bool,
    r: ClassifiedTiers,
    i: int,
)
    requires
        classification(before, after, wanted, tiers, model, chain, r),
        tiers.len() == before.len(),
        0 <= i < before.len(),
        wanted.contains(before[i].id),
        !(before[i].status is Processing),
        match before[i].applied_recipe {
            None => true,
            Some(made) => {
                &&& !same_but_compositing(made, before[i].settings.recipe(model, chain))
                &&& tiers[i] == RequiredTier::Skip || tiers[i] == RequiredTier::CompositeOnly
                    ==> same_but_compositing(made, before[i].settings.recipe(model, chain))
            },
        },
    ensures
        r.tier1@.contains(before[i].id) || r.tier2@.contains(before[i].id)
            || r.tier_add_edge@.contains(before[i].id),
        r.process_ids().contains(before[i].id),
        before[i].applied_recipe is None ==> r.tier1@.contains(before[i].id),
        before[i].applied_recipe is Some && (tiers[i] == RequiredTier::FullPipeline || tiers[i]
            == RequiredTier::EdgeRerun) ==> r.tier1@.contains(before[i].id),
{
    let n = before.len() as int;
    let class = classified(before[i], model, chain, tiers[i]).1;
    only_settled_items_are_skipped(before[i], model, chain, tiers[i]);
    class_ids_hold(before, wanted, tiers, model, chain, class, n, i);
    let id = before[i].id;
    let all = r.process_ids();
    if class == TierClass::Full {
        let k = r.tier1@.index_of(id);
        assert(all[k] == id);
    } else if class == TierClass::MaskRerun {
        let k = r.tier2@.index_of(id);
        assert(all[r.tier1@.len() + k] == id);
    } else {
        let k = r.tier_add_edge@.index_of(id);
        assert(all[r.tier1@.len() + r.tier2@.len() + k] == id);
    }
}

/// Nothing is processed that was not asked for: every listed item is one that is wanted,
/// is not being processed, and needs something. An item that is up to date, or was not
/// asked for, is in no list.
pub proof fn only_wanted_items_are_processed(
    before: Seq<BatchItem>,
    after: Seq<BatchItem>,
    wanted: Set<u64>,
    tiers: Seq<RequiredTier>,
    model: ModelKind,
    chain: bool,
    r: ClassifiedTiers,
    id: u64,
) -> (i: int)
    requires
        classification(before, after, wanted, tiers, model, chain, r),
        tiers.len() == before.len(),
        r.process_ids().contains(id),
    ensures
        0 <= i < before.len(),
        before[i].id == id,
        wanted.contains(id),
        !(before[i].status is Processing),
        before[i].applied_recipe is None || (chain && before[i].result_rgba is Some) || (tiers[i]
            != RequiredTier::Skip && tiers[i] != RequiredTier::CompositeOnly),
{
    let n = before.len() as int;
    let all = r.process_ids();
    let k = all.index_of(id);
    let class = if k < r.tier1@.len() {
        assert(r.tier1@[k] == id);
        TierClass::Full
    } else if k < r.tier1@.len() + r.tier2@.len() {
        assert(r.tier2@[k - r.tier1@.len()] == id);
        TierClass::MaskRerun
    } else {
        assert(r.tier_add_edge@[k - r.tier1@.len() - r.tier2@.len()] == id);
        TierClass::AddEdge
    };
    let i = class_ids_come_from(before, wanted, tiers, model, chain, class, n, id);
    only_settled_items_are_skipped(before[i], model, chain, tiers[i]);
    i
}

/// Processing starts exactly where some item needs something, and the user is told of
/// the items that are skipped, and only of those.
pub proof fn processing_says_what_it_does(
    before: Seq<BatchItem>,
    after: Seq<BatchItem>,
    wanted: Set<u64>,
    tiers: Seq<RequiredTier>,
    model: Option<ModelKind>,
    chain: bool,
    run: ModelRun,
)
    requires
        planned(before, after, wanted, tiers, model, chain, ProcessPlan::Classified(run)),
    ensures
        run.starts <==> run.tiers.tier1@.len() > 0 || run.tiers.tier2@.len() > 0
            || run.tiers.tier_add_edge@.len() > 0,
        run.notice is Some <==> run.tiers.skip_count > 0,
        run.streamed <==> run.tiers.tier1@.len() >= 2,
        model matches Some(m) ==> run.model == m,
        run.tiers.tier1@.len() + run.tiers.tier2@.len() + run.tiers.tier_add_edge@.len()
            + run.tiers.skip_count == candidate_count(before, wanted, before.len() as int),
{
    classes_cover_candidates(
        before,
        wanted,
        tiers,
        used_model(model),
        chain,
        before.len() as int,
    );
}

/// Without a model, pictures are only recoloured as long as none of them draws lines; a
/// picked model is always used.
pub proof fn models_are_used_where_needed(
    before: Seq<BatchItem>,
    after: Seq<BatchItem>,
    wanted: Set<u64>,
    tiers: Seq<RequiredTier>,
    model: Option<ModelKind>,
    chain: bool,
    plan: ProcessPlan,
)
    requires
        planned(before, after, wanted, tiers, model, chain, plan),
    ensures
        model is Some ==> plan is Classified,
        (exists|i: int|
            0 <= i < before.len() && (#[trigger] before[i]).settings.line_mode != LineMode::Off)
            ==> plan is Classified,
        plan matches ProcessPlan::FilterOnly(jobs) ==> jobs@.len() == candidate_count(
            before,
            wanted,
            before.len() as int,
        ),
{
    if filter_only(model, before) {
        one_job_each(before, wanted, before.len() as int);
    }
}

/// Recolouring takes each wanted item once, with its own style.
pub proof fn one_job_each(s: Seq<BatchItem>, wanted: Set<u64>, n: int)
    requires
        0 <= n <= s.len(),
    ensures
        filter_jobs(s, wanted, n).len() == candidate_count(s, wanted, n),
        forall|i: int|
            0 <= i < n && is_candidate(s[i], wanted) ==> filter_jobs(s, wanted, n).contains(
                FilterJob { item_id: (#[trigger] s[i]).id, fill_style: s[i].settings.fill_style },
            ),
    decreases n,
{
    if n > 0 {
        one_job_each(s, wanted, n - 1);
        let before = filter_jobs(s, wanted, n - 1);
        let all = filter_jobs(s, wanted, n);
        assert forall|i: int| 0 <= i < n && is_candidate(s[i], wanted) implies all.contains(
            FilterJob { item_id: (#[trigger] s[i]).id, fill_style: s[i].settings.fill_style },
        ) by {
            let job = FilterJob { item_id: s[i].id, fill_style: s[i].settings.fill_style };
            if i < n - 1 {
                let k = before.index_of(job);
                assert(all[k] == job);
            } else {
                assert(all[before.len() as int] == job);
            }
        }
    }
}

/// Items that were up to date are mentioned exactly where there are some, and with the
/// number that is processed where there are such.
pub proof fn skipped_items_are_told(skipped: nat, processing: nat)
    ensures
        skip_text(skipped, processing) is None <==> skipped == 0,
        skipped == 1 && processing == 0 ==> skip_text(skipped, processing) == Some(
            "Already up to date"@,
        ),
        skipped > 1 && processing == 0 ==> decimal(skipped).is_prefix_of(
            skip_text(skipped, processing)->0,
        ),
        skipped > 0 && processing > 0 ==> decimal(skipped).is_prefix_of(
            skip_text(skipped, processing)->0,
        ) && decimal(processing).is_suffix_of(skip_text(skipped, processing)->0),
{
    if skipped > 0 && (skipped > 1 || processing > 0) {
        let t = skip_text(skipped, processing)->0;
        let d = decimal(skipped);
        assert(t.subrange(0, d.len() as int) =~= d);
        if processing > 0 {
            let e = decimal(processing);
            assert(t.subrange(t.len() - e.len(), t.len() as int) =~= e);
        }
    }
}

/// Pictures are only recoloured where no model is picked and no item draws lines: a
/// picked model is used, and lines are drawn even without one.
pub proof fn recolouring_needs_no_model(model: Option<ModelKind>, s: Seq<BatchItem>, i: int)
    requires
        0 <= i < s.len(),
    ensures
        model is Some ==> !filter_only(model, s),
        s[i].settings.line_mode != LineMode::Off ==> !filter_only(model, s),
        model matches Some(m) ==> used_model(model) == m,
        model is None ==> used_model(model) is BiRefNetLite,
{
}

/// Classifying leaves every item that is not asked for, or is being processed already,
/// as it was, and keeps the id, the settings and the source of all.
pub proof fn unwanted_items_are_left_alone(
    before: Seq<BatchItem>,
    after: Seq<BatchItem>,
    wanted: Set<u64>,
    tiers: Seq<RequiredTier>,
    model: ModelKind,
    chain: bool,
    r: ClassifiedTiers,
    i: int,
)
    requires
        classification(before, after, wanted, tiers, model, chain, r),
        0 <= i < before.len(),
    ensures
        after.len() == before.len(),
        !wanted.contains(before[i].id) ==> after[i] == before[i],
        before[i].status is Processing ==> after[i] == before[i],
        after[i].id == before[i].id,
        after[i].settings == before[i].settings,
        after[i].source == before[i].source,
        after[i].result_rgba == before[i].result_rgba,
{
    assert(after[i] == if is_candidate(before[i], wanted) {
        classified(before[i], model, chain, tiers[i]).0
    } else {
        before[i]
    });
}

/// Without a model and without lines the pictures asked for are recoloured, and nothing
/// but their status changes; else they are processed, with the model that is picked.
pub proof fn plans_follow_the_picked_model(
    before: Seq<BatchItem>,
    after: Seq<BatchItem>,
    wanted: Set<u64>,
    tiers: Seq<RequiredTier>,
    model: Option<ModelKind>,
    chain: bool,
    plan: ProcessPlan,
    i: int,
)
    requires
        planned(before, after, wanted, tiers, model, chain, plan),
        0 <= i < before.len(),
    ensures
        after.len() == before.len(),
        !wanted.contains(before[i].id) ==> after[i] == before[i],
        plan is FilterOnly ==> model is None && before[i].settings.line_mode == LineMode::Off,
        plan is FilterOnly && wanted.contains(before[i].id) && !(before[i].status is Processing)
            ==> after[i] == (BatchItem { status: BatchStatus::Processing, ..before[i] }),
        plan matches ProcessPlan::Classified(run) ==> {
            &&& model matches Some(m) ==> run.model == m
            &&& run.starts <==> run.tiers.tier1@.len() + run.tiers.tier2@.len()
                + run.tiers.tier_add_edge@.len() > 0
            &&& run.streamed <==> run.tiers.tier1@.len() >= 2
        },
        model is Some ==> plan is Classified,
{
    if filter_only(model, before) {
        assert(after[i] == if is_candidate(before[i], wanted) {
            BatchItem { status: BatchStatus::Processing, ..before[i] }
        } else {
            before[i]
        });
    } else {
        let run = plan->Classified_0;
        unwanted_items_are_left_alone(
            before,
            after,
            wanted,
            tiers,
            used_model(model),
            chain,
            run.tiers,
            i,
        );
    }
}

} // verus!
