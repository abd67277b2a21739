//! What edits lead to: knobs, presets, undo and redo, strokes and previews.
use vstd::prelude::*;
use std::collections::HashMap;
use std::sync::Arc;
use crate::app_dispatch::{all_wf, place_is_first, place_of};
use crate::app_process::shown;
use crate::batch_manager::{any_checked, BatchManager};
use crate::brush_state::{BrushSettings, BrushState, SdScheduler};
use crate::download_manager::DownloadEvent;
use crate::history_manager::{
    file_of, redo_effect, redo_takes_back_undo, swap_effect, undo_effect, undoable, HistoryDir,
    HistoryManager, PRESET_HISTORY_DEPTH,
};
use crate::item::{
    file_view, fingerprint, newest, picture_view, BatchItem, BatchStatus, Caches, Drawn, EdgeMask,
    HotEdgeTensor, MaskedBase, PresetSnapshot,
};
use crate::item_settings::{
    mask_stage_tells_the_knobs, recorded_masks_agree, same_mask_knobs, ItemSettings,
};
use crate::knob_catalog::{
    input_transform_routing, input_transform_spec, line_mode_routing, line_mode_spec, CacheImpact,
    DispatchKind, LineModeChange,
};
use crate::live_preview::{
    tweaked, waiting, LivePreview, Pending, PreviewInputs, PreviewKind, PreviewResult, FLUSH_BACK,
};
use crate::pipeline::{
    EdgeScale, LineMode, LineStyle, MaskRecipe, MaskSettings, ModelId, ModelKind,
    ProcessingRecipe, RequiredTier, Scalar, ONE_BITS, TWO_BITS, ZERO_BITS,
};
use crate::pixmap::{share, Pixmap, RawImage};
use crate::processor::{
    gen_or_zero, left_running, InpaintDispatch, InpaintTuning, Processor, SdInpaintRequest,
};
use crate::text::{decimal, join2, join3, to_decimal};

verus! {

broadcast use vstd::std_specs::hash::group_hash_axioms;

/// What was changed in the toolbar within a frame.
#[derive(Clone, Copy, Debug, PartialEq, Eq, Structural)]
pub struct ToolbarChange {
    /// Caches that the changed knobs make stale.
    pub cache_impact: CacheImpact,
    /// What the changed knobs fire at once.
    pub auto_dispatch: DispatchKind,
    /// The line mode before, where it was changed.
    pub line_mode_from: Option<LineMode>,
    pub input_transform_changed: bool,
    pub preset_applied: bool,
    /// Whether the edit has settled.
    pub commit: bool,
}

/// What a preset leads to, by what the difference to the result calls for.
pub open spec fn preset_dispatch(
    made: Option<ProcessingRecipe>,
    tier: RequiredTier,
) -> DispatchKind {
    if made is None {
        DispatchKind::SubprocessFullPipeline
    } else {
        match tier {
            RequiredTier::Skip | RequiredTier::CompositeOnly => DispatchKind::Nothing,
            RequiredTier::EdgeRerun => DispatchKind::LivePreviewEdge,
            RequiredTier::MaskRerun => DispatchKind::LivePreviewMask,
            RequiredTier::AddEdgeInference => DispatchKind::SubprocessAddEdge,
            RequiredTier::FullPipeline => DispatchKind::SubprocessFullPipeline,
        }
    }
}

/// What a change of an item leads to: the strongest of what its knobs, its line
/// mode, its input transform and its preset call for.
pub open spec fn resolved_dispatch(item: BatchItem, tc: ToolbarChange, tier: RequiredTier) -> DispatchKind {
    let a = match tc.line_mode_from {
        Some(from) => tc.auto_dispatch.stronger(
            line_mode_routing(
                LineModeChange { from, to: item.settings.line_mode },
                item.caches.edge_tensors is Some,
            ).dispatch,
        ),
        None => tc.auto_dispatch,
    };
    let b = if tc.input_transform_changed {
        a.stronger(input_transform_routing(item.caches.tensor is Some).dispatch)
    } else {
        a
    };
    if tc.preset_applied {
        b.stronger(preset_dispatch(item.applied_recipe, tier))
    } else {
        b
    }
}

/// What a change of an item leads to. `tier` is what the difference between its
/// result and its settings calls for. A preset that changes nothing leads to
/// nothing.
pub fn resolve_auto_dispatch(item: &BatchItem, tc: &ToolbarChange, tier: RequiredTier) -> (r:
    DispatchKind)
    ensures
        r == resolved_dispatch(*item, *tc, tier),
{
    let mut dispatch = tc.auto_dispatch;
    if let Some(from) = tc.line_mode_from {
        let change = LineModeChange { from, to: item.settings.line_mode };
        let spec_of = line_mode_spec(change, item.caches.edge_tensors.is_some());
        dispatch = dispatch.max(spec_of.dispatch);
    }
    if tc.input_transform_changed {
        let spec_of = input_transform_spec(item.caches.tensor.is_some());
        dispatch = dispatch.max(spec_of.dispatch);
    }
    if tc.preset_applied {
        let preset = if item.applied_recipe.is_none() {
            DispatchKind::SubprocessFullPipeline
        } else {
            match tier {
                RequiredTier::Skip | RequiredTier::CompositeOnly => DispatchKind::Nothing,
                RequiredTier::EdgeRerun => DispatchKind::LivePreviewEdge,
                RequiredTier::MaskRerun => DispatchKind::LivePreviewMask,
                RequiredTier::AddEdgeInference => DispatchKind::SubprocessAddEdge,
                RequiredTier::FullPipeline => DispatchKind::SubprocessFullPipeline,
            }
        };
        dispatch = dispatch.max(preset);
    }
    dispatch
}

/// A preset that changes nothing of a finished item fires nothing on its own.
pub proof fn idle_preset_fires_nothing(item: BatchItem, tc: ToolbarChange, tier: RequiredTier)
    requires
        tc.preset_applied,
        tc.auto_dispatch == DispatchKind::Nothing,
        tc.line_mode_from is None,
        !tc.input_transform_changed,
        item.applied_recipe is Some,
        tier == RequiredTier::Skip || tier == RequiredTier::CompositeOnly,
    ensures
        resolved_dispatch(item, tc, tier) == DispatchKind::Nothing,
{
}

/// What is done after a change in the toolbar.
#[derive(Clone, Copy, Debug, PartialEq, Eq, Structural)]
pub enum ToolbarAction {
    Nothing,
    /// The preview is due at once.
    Repaint,
    /// The preview is due after the debounce.
    RepaintLater,
    /// The item is processed again.
    Process,
}

/// What waits for a preview after a tweak that may have settled.
pub open spec fn tweak_pending(
    pending: Map<u64, Pending>,
    now: u64,
    id: u64,
    kind: PreviewKind,
    settled: bool,
) -> Map<u64, Pending> {
    let marked = pending.insert(id, tweaked(waiting(pending, id), now, kind));
    if settled {
        marked.insert(
            id,
            Pending {
                last_tweak_at: if now >= FLUSH_BACK {
                    (now - FLUSH_BACK) as u64
                } else {
                    now
                },
                kind,
            },
        )
    } else {
        marked
    }
}

/// Registers a tweak, which may have settled.
fn mark(preview: &mut LivePreview, now: u64, id: u64, kind: PreviewKind, settled: bool)
    ensures
        final(preview).pending@ == tweak_pending(old(preview).pending@, now, id, kind, settled),
        final(preview).in_flight == old(preview).in_flight,
        final(preview).generation_counter == old(preview).generation_counter,
{
    preview.mark_tweak(now, id, kind);
    if settled {
        preview.flush(now, id);
    }
}

/// The stage that a dispatch previews.
pub open spec fn preview_of(d: DispatchKind) -> Option<PreviewKind> {
    match d {
        DispatchKind::LivePreviewMask => Some(PreviewKind::Mask),
        DispatchKind::LivePreviewEdge => Some(PreviewKind::Edge),
        _ => None,
    }
}

/// Puts a change in the toolbar into effect: stale caches are dropped, and the
/// item gets a preview, where previews are on, or is processed again, where it is
/// finished.
pub fn apply_toolbar_change(
    item: &mut BatchItem,
    preview: &mut LivePreview,
    tc: &ToolbarChange,
    tier: RequiredTier,
    previews_on: bool,
    now: u64,
) -> (r: ToolbarAction)
    ensures
        *final(item) == old(item).after_impact(tc.cache_impact),
        final(preview).in_flight == old(preview).in_flight,
        final(preview).generation_counter == old(preview).generation_counter,
        ({
            let d = resolved_dispatch(*final(item), *tc, tier);
            match preview_of(d) {
                Some(kind) => if previews_on {
                    &&& final(preview).pending@ == tweak_pending(
                        old(preview).pending@,
                        now,
                        old(item).id,
                        kind,
                        tc.commit,
                    )
                    &&& r == if tc.commit {
                        ToolbarAction::Repaint
                    } else {
                        ToolbarAction::RepaintLater
                    }
                } else {
                    r == ToolbarAction::Nothing && final(preview).pending@ == old(preview).pending@
                },
                None => {
                    &&& final(preview).pending@ == old(preview).pending@
                    &&& r == if (d == DispatchKind::SubprocessAddEdge || d
                        == DispatchKind::SubprocessFullPipeline) && old(item).status is Done {
                        ToolbarAction::Process
                    } else {
                        ToolbarAction::Nothing
                    }
                },
            }
        }),
{
    item.apply_cache_impact(tc.cache_impact);
    let dispatch = resolve_auto_dispatch(item, tc, tier);
    let kind = match dispatch {
        DispatchKind::Nothing | DispatchKind::Render => {
            return ToolbarAction::Nothing;
        },
        DispatchKind::SubprocessAddEdge | DispatchKind::SubprocessFullPipeline => {
            let done = match item.status {
                BatchStatus::Done => true,
                _ => false,
            };
            return if done {
                ToolbarAction::Process
            } else {
                ToolbarAction::Nothing
            };
        },
        DispatchKind::LivePreviewMask => PreviewKind::Mask,
        DispatchKind::LivePreviewEdge => PreviewKind::Edge,
    };
    if !previews_on {
        return ToolbarAction::Nothing;
    }
    mark(preview, now, item.id, kind, tc.commit);
    if tc.commit {
        ToolbarAction::Repaint
    } else {
        ToolbarAction::RepaintLater
    }
}

/// What is known of the background picture that a preset asks for.
pub enum BgLookup {
    /// Nobody knows where it is.
    Unknown,
    /// It was loaded from a path.
    Found { image: Arc<RawImage>, path: String },
    /// It could not be loaded.
    Failed(String),
}

/// What the user is told of the background picture of a preset.
pub enum BgNotice {
    Nothing,
    Info(String),
    Error(String),
}

/// Fingerprint of the background picture that an item has.
pub open spec fn bg_hash(item: BatchItem) -> Option<u64> {
    match item.bg_image {
        Some(b) => Some(b.hash),
        None => None,
    }
}

/// Whether the settings and the background picture of an item agree.
pub fn bg_agrees(item: &BatchItem) -> (r: bool)
    ensures
        r == (item.settings.bg_image_hash == bg_hash(*item)),
{
    match (item.settings.bg_image_hash, &item.bg_image) {
        (None, None) => true,
        (Some(h), Some(b)) => h == b.hash,
        _ => false,
    }
}

/// An item without its background picture.
pub open spec fn without_bg(item: BatchItem) -> BatchItem {
    BatchItem {
        bg_image: None,
        drawn: Drawn { bg_image_texture: false, ..item.drawn },
        settings: ItemSettings { bg_image_hash: None, ..item.settings },
        ..item
    }
}

/// Whether `b` is `a` with the background picture that its settings ask for, as
/// far as it can be had. One that cannot is taken out of the settings as well.
pub open spec fn bg_fetched(a: BatchItem, b: BatchItem, lookup: BgLookup, r: BgNotice) -> bool {
    match lookup {
        BgLookup::Unknown => b == without_bg(a) && (r matches BgNotice::Info(t) && t@
            == "Preset references a background image we don't have on disk."@),
        BgLookup::Failed(e) => b == without_bg(a) && (r matches BgNotice::Error(t) && t@
            == "Couldn't load preset background: "@ + e@),
        BgLookup::Found { image, path } => {
            &&& r is Nothing
            &&& b.bg_image matches Some(bg) && bg.image == image && bg.source_path == Some(path)
                && bg.hash == fingerprint(*image)
            &&& b == (BatchItem {
                bg_image: b.bg_image,
                drawn: Drawn { bg_image_texture: false, ..a.drawn },
                settings: ItemSettings { bg_image_hash: bg_hash(b), ..a.settings },
                ..a
            })
        },
    }
}

/// Gives an item the background picture that its settings ask for.
fn fetch_bg(item: &mut BatchItem, lookup: BgLookup) -> (r: BgNotice)
    ensures
        bg_fetched(*old(item), *final(item), lookup, r),
{
    match lookup {
        BgLookup::Unknown => {
            item.clear_bg_image();
            BgNotice::Info("Preset references a background image we don't have on disk.".to_owned())
        },
        BgLookup::Failed(e) => {
            item.clear_bg_image();
            BgNotice::Error(join2("Couldn't load preset background: ", e.as_str()))
        },
        BgLookup::Found { image, path } => {
            item.set_bg_image(image, Some(path));
            BgNotice::Nothing
        },
    }
}

/// Whether the background picture of an item follows its settings.
pub open spec fn bg_reconciled(a: BatchItem, b: BatchItem, lookup: BgLookup, r: BgNotice) -> bool {
    if a.settings.bg_image_hash == bg_hash(a) {
        b == a && r is Nothing
    } else if a.settings.bg_image_hash is None {
        b == without_bg(a) && r is Nothing
    } else {
        bg_fetched(a, b, lookup, r)
    }
}

/// Where the background picture lies that some settings ask for and that an item with
/// the picture `have` lacks, as far as that is known.
pub open spec fn bg_path(
    want: Option<u64>,
    have: Option<u64>,
    paths: Map<u64, String>,
) -> Option<String> {
    match want {
        Some(h) => if have != want && paths.contains_key(h) {
            Some(paths[h])
        } else {
            None
        },
        None => None,
    }
}

/// Where the background picture lies that some settings ask for and that an item
/// lacks.
fn find_bg(item: &BatchItem, want: Option<u64>, paths: &HashMap<u64, String>) -> (r: Option<String>)
    ensures
        r == bg_path(want, bg_hash(*item), paths@),
{
    let have: Option<u64> = match &item.bg_image {
        Some(b) => Some(b.hash),
        None => None,
    };
    match want {
        Some(h) => {
            if let Some(g) = have {
                if g == h {
                    return None;
                }
            }
            match paths.get(&h) {
                Some(p) => Some(p.clone()),
                None => None,
            }
        },
        None => None,
    }
}

/// Where the background picture lies that the settings of an item ask for and that it
/// lacks, as far as that is known. `paths` holds where pictures were picked from, by
/// their fingerprints.
pub fn wanted_bg_path(item: &BatchItem, paths: &HashMap<u64, String>) -> (r: Option<String>)
    ensures
        r == bg_path(item.settings.bg_image_hash, bg_hash(*item), paths@),
{
    find_bg(item, item.settings.bg_image_hash, paths)
}

/// The stack that a walk through the presets of an item takes from.
pub open spec fn preset_stack(item: BatchItem, dir: HistoryDir) -> Seq<PresetSnapshot> {
    match dir {
        HistoryDir::Undo => item.preset_undo_stack@,
        HistoryDir::Redo => item.preset_redo_stack@,
    }
}

/// Where the background picture lies that the viewed item will ask for after a walk
/// through its presets, and lacks, as far as that is known.
pub fn swap_bg_path(batch: &BatchManager, dir: HistoryDir, paths: &HashMap<u64, String>) -> (r:
    Option<String>)
    ensures
        r == match batch.viewed_index() {
            Some(v) => {
                let a = batch.items@[v as int];
                let stack = preset_stack(a, dir);
                if stack.len() > 0 {
                    bg_path(stack.last().settings.bg_image_hash, bg_hash(a), paths@)
                } else {
                    None
                }
            },
            None => None,
        },
{
    let v: usize = match batch.selected_idx_clamped() {
        Some(v) => v,
        None => {
            return None;
        },
    };
    let item = &batch.items[v];
    let stack = match dir {
        HistoryDir::Undo => &item.preset_undo_stack,
        HistoryDir::Redo => &item.preset_redo_stack,
    };
    let n: usize = stack.len();
    if n == 0 {
        return None;
    }
    find_bg(item, stack[n - 1].settings.bg_image_hash, paths)
}

/// After a preset was applied: the background picture follows the settings. One
/// that cannot be had is taken out of the settings as well.
pub fn reconcile_bg_image_after_preset(item: &mut BatchItem, lookup: BgLookup) -> (r: BgNotice)
    ensures
        bg_reconciled(*old(item), *final(item), lookup, r),
{
    if bg_agrees(item) {
        return BgNotice::Nothing;
    }
    if item.settings.bg_image_hash.is_none() {
        item.clear_bg_image();
        return BgNotice::Nothing;
    }
    fetch_bg(item, lookup)
}

/// The settings and the background picture of an item always agree after a preset
/// was applied, whatever picture could be had.
pub proof fn background_follows_settings(
    a: BatchItem,
    b: BatchItem,
    lookup: BgLookup,
    r: BgNotice,
)
    requires
        bg_reconciled(a, b, lookup, r),
    ensures
        b.settings.bg_image_hash == bg_hash(b),
{
}

/// What the user is told when a chosen background picture cannot be loaded.
pub fn bg_load_failure(error: &str) -> (r: String)
    ensures
        r@ == "Couldn't load background image: "@ + error@,
{
    join2("Couldn't load background image: ", error)
}

/// What the user does with the background picture.
pub enum BgEdit {
    Keep,
    Clear,
    /// A picture was picked and loaded from a path.
    Picked { image: Arc<RawImage>, path: String },
    /// A picture was picked and could not be loaded.
    PickFailed(String),
}

/// Edits of an item that take effect before caches and previews are looked after.
pub struct ToolbarEdits {
    pub clear_correction: bool,
    /// The settings before, where a preset was applied.
    pub preset_from: Option<PresetSnapshot>,
    pub background: BgEdit,
}

/// What the user is told of edits, and what is to be remembered of them.
pub struct EditsDone {
    pub preset_notice: BgNotice,
    pub pick_error: Option<String>,
    /// A path was added to those that background pictures were picked from.
    pub new_path: bool,
}

/// Whether the correction of an item was dropped, where that was asked for.
pub open spec fn correction_edited(a: BatchItem, b: BatchItem, clear: bool) -> bool {
    if clear {
        &&& b.strokes() == if a.mask_correction is Some {
            a.strokes().committed(None)
        } else {
            a.strokes()
        }
        &&& b.settings.correction_hash is None
        &&& b.only_strokes_differ(&a)
    } else {
        b == a
    }
}

/// Whether the settings before a preset can be brought back.
pub open spec fn preset_pushed(a: BatchItem, b: BatchItem, from: PresetSnapshot) -> bool {
    &&& b.preset_undo_stack@ == newest(
        a.preset_undo_stack@.push(from),
        PRESET_HISTORY_DEPTH as int,
    )
    &&& b.preset_redo_stack@ == Seq::<PresetSnapshot>::empty()
    &&& b == (BatchItem {
        preset_undo_stack: b.preset_undo_stack,
        preset_redo_stack: b.preset_redo_stack,
        ..a
    })
}

/// Whether a preset took effect, where one was applied: the settings before it are
/// kept for undo, and the background picture follows the new ones.
pub open spec fn preset_edited(
    a: BatchItem,
    b: BatchItem,
    from: Option<PresetSnapshot>,
    lookup: BgLookup,
    r: BgNotice,
) -> bool {
    match from {
        Some(snap) => exists|mid: BatchItem| #[trigger]
            preset_pushed(a, mid, snap) && bg_reconciled(mid, b, lookup, r),
        None => b == a && r is Nothing,
    }
}

/// Whether the background picture was edited. Where a picture was picked from is
/// kept under its fingerprint, so that a preset can ask for it later.
pub open spec fn background_edited(
    a: BatchItem,
    b: BatchItem,
    edit: BgEdit,
    known: Map<u64, String>,
    paths: Map<u64, String>,
    error: Option<String>,
) -> bool {
    match edit {
        BgEdit::Keep => b == a && paths == known && error is None,
        BgEdit::Clear => b == without_bg(a) && paths == known && error is None,
        BgEdit::PickFailed(e) => b == a && paths == known && shown(error) == Some(
            "Couldn't load background image: "@ + e@,
        ),
        BgEdit::Picked { image, path } => {
            &&& b.bg_image matches Some(bg) && bg.image == image && bg.source_path == Some(path)
                && bg.hash == fingerprint(*image)
            &&& b == (BatchItem {
                bg_image: b.bg_image,
                drawn: Drawn { bg_image_texture: false, ..a.drawn },
                settings: ItemSettings { bg_image_hash: bg_hash(b), ..a.settings },
                ..a
            })
            &&& paths == known.insert(fingerprint(*image), path)
            &&& error is None
        },
    }
}

/// Drops the correction of an item, where that is asked for.
fn edit_correction(item: &mut BatchItem, clear: bool)
    ensures
        correction_edited(*old(item), *final(item), clear),
{
    if clear {
        item.clear_correction();
    }
}

/// Lets a preset take effect, where one was applied.
fn edit_preset(item: &mut BatchItem, from: Option<PresetSnapshot>, lookup: BgLookup) -> (r: BgNotice)
    ensures
        preset_edited(*old(item), *final(item), from, lookup, r),
{
    match from {
        Some(snap) => {
            HistoryManager::push_preset(item, snap);
            let ghost mid = *item;
            assert(preset_pushed(*old(item), mid, snap));
            reconcile_bg_image_after_preset(item, lookup)
        },
        None => BgNotice::Nothing,
    }
}

/// Edits the background picture. Returns what the user is told of a picture that
/// cannot be loaded.
pub fn handle_pick_bg_image(item: &mut BatchItem, edit: BgEdit, paths: &mut HashMap<u64, String>) -> (r:
    Option<String>)
    ensures
        background_edited(*old(item), *final(item), edit, old(paths)@, final(paths)@, r),
{
    match edit {
        BgEdit::Keep => None,
        BgEdit::Clear => {
            item.clear_bg_image();
            None
        },
        BgEdit::PickFailed(e) => Some(bg_load_failure(e.as_str())),
        BgEdit::Picked { image, path } => {
            item.set_bg_image(image, Some(path.clone()));
            if let Some(h) = item.settings.bg_image_hash {
                paths.insert(h, path);
            }
            None
        },
    }
}

/// Whether edits of an item took effect, one after the other.
pub open spec fn edits_settled(
    a: BatchItem,
    b: BatchItem,
    edits: ToolbarEdits,
    lookup: BgLookup,
    known: Map<u64, String>,
    paths: Map<u64, String>,
    r: EditsDone,
) -> bool {
    &&& r.new_path == (edits.background is Picked)
    &&& exists|corrected: BatchItem, preset: BatchItem|
        {
            &&& #[trigger] correction_edited(a, corrected, edits.clear_correction)
            &&& #[trigger] preset_edited(
                corrected,
                preset,
                edits.preset_from,
                lookup,
                r.preset_notice,
            )
            &&& background_edited(preset, b, edits.background, known, paths, r.pick_error)
        }
}

/// Puts edits of an item into effect: its correction is dropped, a preset is applied,
/// and its background picture is changed, as far as each is asked for.
pub fn settle_edits(
    item: &mut BatchItem,
    edits: ToolbarEdits,
    lookup: BgLookup,
    paths: &mut HashMap<u64, String>,
) -> (r: EditsDone)
    ensures
        edits_settled(*old(item), *final(item), edits, lookup, old(paths)@, final(paths)@, r),
{
    edit_correction(item, edits.clear_correction);
    let ghost corrected = *item;
    let preset_notice = edit_preset(item, edits.preset_from, lookup);
    let ghost preset = *item;
    let new_path = match &edits.background {
        BgEdit::Picked { .. } => true,
        _ => false,
    };
    let pick_error = handle_pick_bg_image(item, edits.background, paths);
    let r = EditsDone { preset_notice, pick_error, new_path };
    proof {
        assert(correction_edited(*old(item), corrected, edits.clear_correction));
        assert(preset_edited(corrected, preset, edits.preset_from, lookup, r.preset_notice));
    }
    r
}

/// A background picture that was picked can be asked for by a preset later: its path
/// is known under the fingerprint that the settings hold.
pub proof fn picked_backgrounds_are_found_again(
    a: BatchItem,
    b: BatchItem,
    image: Arc<RawImage>,
    path: String,
    known: Map<u64, String>,
    paths: Map<u64, String>,
)
    requires
        background_edited(a, b, BgEdit::Picked { image, path }, known, paths, None),
    ensures
        b.settings.bg_image_hash == Some(fingerprint(*image)),
        paths.contains_key(fingerprint(*image)) && paths[fingerprint(*image)] == path,
        forall|h: u64| known.contains_key(h) ==> paths.contains_key(h),
{
}

/// Whether undo and redo apply to the item at a position: to the checked items
/// where there are any, else to the viewed one.
pub open spec fn walks(batch: BatchManager, i: int) -> bool {
    if any_checked(batch.items@) {
        batch.items@[i].selected
    } else {
        batch.viewed_id() == Some(batch.items@[i].id)
    }
}

/// Whether `b` is `a` with its result undone, if it is asked for, and everything
/// drawn from it forgotten. `file` is what the file of the newest entry holds.
pub open spec fn undone_if(asked: bool, a: BatchItem, b: BatchItem, file: Option<Seq<u8>>) -> bool {
    if asked && undoable(a) {
        &&& undo_effect(a, BatchItem { drawn: a.drawn, ..b }, file)
        &&& b.drawn == (Drawn { source_texture: false, ..a.with_result_caches_reset().drawn })
    } else {
        b == a
    }
}

/// Whether `b` is `a` with its result redone, if it is asked for, and everything
/// drawn from it forgotten. `file` is what the file of the newest entry holds.
pub open spec fn redone_if(asked: bool, a: BatchItem, b: BatchItem, file: Option<Seq<u8>>) -> bool {
    if asked && a.redo_stack@.len() > 0 {
        &&& redo_effect(a, BatchItem { drawn: a.drawn, ..b }, file)
        &&& b.drawn == a.with_result_caches_reset().drawn
    } else {
        b == a
    }
}

/// Number of those of the first `n` items that undo or redo changes.
pub open spec fn walk_count(batch: BatchManager, dir: HistoryDir, n: int) -> int
    decreases n,
{
    if n <= 0 {
        0
    } else {
        let a = batch.items@[n - 1];
        let can = match dir {
            HistoryDir::Undo => undoable(a),
            HistoryDir::Redo => a.redo_stack@.len() > 0,
        };
        walk_count(batch, dir, n - 1) + if walks(batch, n - 1) && can {
            1int
        } else {
            0int
        }
    }
}

/// What the user is told after undo or redo.
pub open spec fn walk_text(dir: HistoryDir, count: nat) -> Option<Seq<char>> {
    if count == 0 {
        None
    } else {
        match dir {
            HistoryDir::Undo => if count == 1 {
                Some("Undone"@)
            } else {
                Some("Undone "@ + decimal(count) + " images"@)
            },
            HistoryDir::Redo => if count == 1 {
                Some("Result restored"@)
            } else {
                Some("Restored "@ + decimal(count) + " images"@)
            },
        }
    }
}

/// What undo or redo did.
pub struct Walked {
    pub count: usize,
    /// What the user is told.
    pub text: Option<String>,
    /// For each item, the file that it no longer needs.
    pub delete: Vec<Option<String>>,
}

/// What the user is told after undo or redo.
fn walk_message(dir: HistoryDir, count: usize) -> (r: Option<String>)
    ensures
        shown(r) == walk_text(dir, count as nat),
{
    if count == 0 {
        return None;
    }
    let n = to_decimal(count as u64);
    Some(
        match dir {
            HistoryDir::Undo => if count == 1 {
                "Undone".to_owned()
            } else {
                join3("Undone ", n.as_str(), " images")
            },
            HistoryDir::Redo => if count == 1 {
                "Result restored".to_owned()
            } else {
                join3("Restored ", n.as_str(), " images")
            },
        },
    )
}

/// The file that an item no longer needs after undo or redo.
pub open spec fn freed_file(asked: bool, a: BatchItem, dir: HistoryDir, file: Option<Seq<u8>>) -> Option<
    String,
> {
    let stack = match dir {
        HistoryDir::Undo => a.history@,
        HistoryDir::Redo => a.redo_stack@,
    };
    if asked && (dir == HistoryDir::Redo || undoable(a)) && stack.len() > 0
        && stack.last().slot.picture(file) is Some {
        file_of(stack.last().slot)
    } else {
        None
    }
}

/// Whether `b` is `a` after undo or redo, if it is asked for.
pub open spec fn walked_if(
    asked: bool,
    a: BatchItem,
    b: BatchItem,
    dir: HistoryDir,
    file: Option<Seq<u8>>,
) -> bool {
    match dir {
        HistoryDir::Undo => undone_if(asked, a, b, file),
        HistoryDir::Redo => redone_if(asked, a, b, file),
    }
}

/// What undo or redo did with one item.
struct OneWalk {
    changed: bool,
    delete: Option<String>,
}

/// Undoes or redoes the result of an item.
fn walk_item(item: &mut BatchItem, dir: HistoryDir, file: Option<&Vec<u8>>) -> (r: OneWalk)
    requires
        old(item).wf(),
    ensures
        final(item).wf(),
        walked_if(true, *old(item), *final(item), dir, file_view(file)),
        r.delete == freed_file(true, *old(item), dir, file_view(file)),
        r.changed == (match dir {
            HistoryDir::Undo => undoable(*old(item)),
            HistoryDir::Redo => old(item).redo_stack@.len() > 0,
        }),
{
    match dir {
        HistoryDir::Undo => {
            let step = HistoryManager::undo_result(item, file);
            let ghost mid = *item;
            if step.changed {
                item.reset_result_caches();
                item.drawn.source_texture = false;
                assert(BatchItem { drawn: old(item).drawn, ..*item } == mid);
            }
            OneWalk { changed: step.changed, delete: step.delete }
        },
        HistoryDir::Redo => {
            let step = HistoryManager::redo_result(item, file);
            let ghost mid = *item;
            if step.changed {
                item.reset_result_caches();
                assert(BatchItem { drawn: old(item).drawn, ..*item } == mid);
            }
            OneWalk { changed: step.changed, delete: step.delete }
        },
    }
}

/// What a list of files holds for an item.
pub open spec fn file_at(files: Seq<Option<Vec<u8>>>, i: int) -> Option<Seq<u8>> {
    match files[i] {
        Some(v) => Some(v@),
        None => None,
    }
}

/// Undoes or redoes the results of the items that it applies to. `files` holds,
/// for each item, what the file of its newest entry holds.
fn walk_results(batch: &mut BatchManager, dir: HistoryDir, files: &Vec<Option<Vec<u8>>>) -> (r: Walked)
    requires
        all_wf(old(batch).items@),
        files@.len() == old(batch).items@.len(),
    ensures
        walked_all(*old(batch), *final(batch), dir, files@, r),
{
    let ghost before = *batch;
    let any = batch.has_any_selected();
    let viewed: Option<u64> = if batch.selected_index < batch.items.len() {
        Some(batch.items[batch.selected_index].id)
    } else {
        None
    };
    let mut count: usize = 0;
    let mut delete: Vec<Option<String>> = Vec::new();
    let mut i: usize = 0;
    while i < batch.items.len()
        invariant
            i <= batch.items@.len(),
            batch.items@.len() == before.items@.len(),
            files@.len() == before.items@.len(),
            any == any_checked(before.items@),
            viewed == before.viewed_id(),
            batch.selected_index == before.selected_index,
            batch.next_id == before.next_id,
            all_wf(batch.items@),
            delete@.len() == i,
            count <= i,
            count == walk_count(before, dir, i as int),
            forall|j: int| i <= j < before.items@.len() ==> batch.items@[j] == before.items@[j],
            forall|j: int|
                0 <= j < i ==> walked_if(
                    walks(before, j),
                    before.items@[j],
                    #[trigger] batch.items@[j],
                    dir,
                    file_at(files@, j),
                ),
            forall|j: int|
                0 <= j < i ==> #[trigger] delete@[j] == freed_file(
                    walks(before, j),
                    before.items@[j],
                    dir,
                    file_at(files@, j),
                ),
        decreases batch.items@.len() - i,
    {
        let ghost had = batch.items@;
        let ghost had_files = delete@;
        assert(batch.items@[i as int].wf());
        let target = if any {
            batch.items[i].selected
        } else {
            match viewed {
                Some(id) => id == batch.items[i].id,
                None => false,
            }
        };
        assert(target == walks(before, i as int));
        if target {
            let file = match &files[i] {
                Some(v) => Some(v),
                None => None,
            };
            let one = walk_item(&mut batch.items[i], dir, file);
            if one.changed {
                count = count + 1;
            }
            delete.push(one.delete);
        } else {
            delete.push(None);
        }
        assert forall|j: int| 0 <= j < i + 1 implies walked_if(
            walks(before, j),
            before.items@[j],
            #[trigger] batch.items@[j],
            dir,
            file_at(files@, j),
        ) by {
            if j < i {
                assert(batch.items@[j] == had[j]);
            }
        }
        assert forall|j: int| 0 <= j < i + 1 implies #[trigger] delete@[j] == freed_file(
            walks(before, j),
            before.items@[j],
            dir,
            file_at(files@, j),
        ) by {
            if j < i {
                assert(delete@[j] == had_files[j]);
            }
        }
        i += 1;
    }
    Walked { count, text: walk_message(dir, count), delete }
}

/// Whether results were undone or redone for the items that it applies to.
pub open spec fn walked_all(
    a: BatchManager,
    b: BatchManager,
    dir: HistoryDir,
    files: Seq<Option<Vec<u8>>>,
    r: Walked,
) -> bool {
    let n = a.items@.len() as int;
    &&& b.items@.len() == n
    &&& b.selected_index == a.selected_index
    &&& b.next_id == a.next_id
    &&& all_wf(b.items@)
    &&& r.count == walk_count(a, dir, n)
    &&& shown(r.text) == walk_text(dir, r.count as nat)
    &&& r.delete@.len() == n
    &&& forall|i: int|
        0 <= i < n ==> walked_if(
            walks(a, i),
            a.items@[i],
            #[trigger] b.items@[i],
            dir,
            file_at(files, i),
        )
    &&& forall|i: int|
        0 <= i < n ==> #[trigger] r.delete@[i] == freed_file(
            walks(a, i),
            a.items@[i],
            dir,
            file_at(files, i),
        )
}

/// Redo takes back undo: every item that both apply to has its picture and recipe
/// back.
pub proof fn redo_brings_results_back(
    a: BatchItem,
    b: BatchItem,
    c: BatchItem,
    undo_file: Option<Seq<u8>>,
    redo_file: Option<Seq<u8>>,
)
    requires
        a.status is Done,
        a.result_rgba is Some,
        undone_if(true, a, b, undo_file),
        redone_if(true, b, c, redo_file),
    ensures
        picture_view(c.result_rgba) == picture_view(a.result_rgba),
        c.applied_recipe == a.applied_recipe,
        c.status is Done,
        c.settings == a.settings,
        c.caches == a.caches,
{
    redo_takes_back_undo(
        a,
        BatchItem { drawn: a.drawn, ..b },
        BatchItem { drawn: a.drawn, ..c },
        undo_file,
        redo_file,
    );
}

/// Undoes the results of the checked items, or of the viewed one. `files` holds,
/// for each item, what the file of its newest history entry holds.
pub fn handle_undo(batch: &mut BatchManager, files: &Vec<Option<Vec<u8>>>) -> (r: Walked)
    requires
        all_wf(old(batch).items@),
        files@.len() == old(batch).items@.len(),
    ensures
        walked_all(*old(batch), *final(batch), HistoryDir::Undo, files@, r),
{
    walk_results(batch, HistoryDir::Undo, files)
}

/// Redoes the results of the checked items, or of the viewed one. `files` holds,
/// for each item, what the file of its newest redo entry holds.
pub fn handle_redo(batch: &mut BatchManager, files: &Vec<Option<Vec<u8>>>) -> (r: Walked)
    requires
        all_wf(old(batch).items@),
        files@.len() == old(batch).items@.len(),
    ensures
        walked_all(*old(batch), *final(batch), HistoryDir::Redo, files@, r),
{
    walk_results(batch, HistoryDir::Redo, files)
}

/// Whether `b` is `a` with a stroke undone or redone.
pub open spec fn stroke_walked(a: BatchItem, b: BatchItem, dir: HistoryDir) -> bool {
    &&& b.strokes() == match dir {
        HistoryDir::Undo => a.strokes().undone(),
        HistoryDir::Redo => a.strokes().redone(),
    }
    &&& b.only_strokes_differ(&a)
    &&& b.settings.correction_hash == crate::item::hash_of(b.mask_correction)
}

/// Whether the brush is on and the viewed item has a stroke to undo or redo.
pub open spec fn stroke_can_walk(batch: BatchManager, brush_on: bool, dir: HistoryDir) -> bool {
    &&& brush_on
    &&& batch.viewed_index() matches Some(v) && match dir {
        HistoryDir::Undo => batch.items@[v as int].stroke_undo_stack@.len() > 0,
        HistoryDir::Redo => batch.items@[v as int].stroke_redo_stack@.len() > 0,
    }
}

/// Whether a stroke of the viewed item was undone or redone and its mask is rerun at
/// once, if the brush is on and there was one; else nothing changed.
pub open spec fn brush_walked(
    a: BatchManager,
    b: BatchManager,
    p: LivePreview,
    q: LivePreview,
    brush_on: bool,
    dir: HistoryDir,
    now: u64,
    r: bool,
) -> bool {
    &&& r == stroke_can_walk(a, brush_on, dir)
    &&& b.selected_index == a.selected_index
    &&& b.next_id == a.next_id
    &&& q.in_flight == p.in_flight
    &&& q.generation_counter == p.generation_counter
    &&& if r {
        let v = a.viewed_index()->0 as int;
        &&& b.items@ == a.items@.update(v, b.items@[v])
        &&& stroke_walked(a.items@[v], b.items@[v], dir)
        &&& q.pending@ == tweak_pending(p.pending@, now, a.items@[v].id, PreviewKind::Mask, true)
    } else {
        b.items@ == a.items@ && q.pending@ == p.pending@
    }
}

/// While the brush is on, undo and redo walk through the strokes of the viewed
/// item first; its mask is rerun at once. Says whether there was a stroke.
fn try_brush_walk(
    batch: &mut BatchManager,
    preview: &mut LivePreview,
    brush_on: bool,
    dir: HistoryDir,
    now: u64,
) -> (r: bool)
    ensures
        brush_walked(
            *old(batch),
            *final(batch),
            *old(preview),
            *final(preview),
            brush_on,
            dir,
            now,
            r,
        ),
{
    if !brush_on {
        return false;
    }
    let v: usize = match batch.selected_idx_clamped() {
        Some(v) => v,
        None => {
            return false;
        },
    };
    let can = match dir {
        HistoryDir::Undo => batch.items[v].stroke_undo_stack.len() > 0,
        HistoryDir::Redo => batch.items[v].stroke_redo_stack.len() > 0,
    };
    if !can {
        return false;
    }
    match dir {
        HistoryDir::Undo => {
            batch.items[v].undo_stroke();
        },
        HistoryDir::Redo => {
            batch.items[v].redo_stroke();
        },
    }
    mark(preview, now, batch.items[v].id, PreviewKind::Mask, true);
    true
}

/// While the brush is on, undo takes back the last stroke of the viewed item, and
/// its mask is rerun at once. Says whether there was one.
pub fn try_brush_undo(
    batch: &mut BatchManager,
    preview: &mut LivePreview,
    brush: &BrushState,
    now: u64,
) -> (r: bool)
    ensures
        brush_walked(
            *old(batch),
            *final(batch),
            *old(preview),
            *final(preview),
            brush.enabled,
            HistoryDir::Undo,
            now,
            r,
        ),
{
    try_brush_walk(batch, preview, brush.is_enabled(), HistoryDir::Undo, now)
}

/// While the brush is on, redo puts back the stroke of the viewed item that was
/// undone last, and its mask is rerun at once. Says whether there was one.
pub fn try_brush_redo(
    batch: &mut BatchManager,
    preview: &mut LivePreview,
    brush: &BrushState,
    now: u64,
) -> (r: bool)
    ensures
        brush_walked(
            *old(batch),
            *final(batch),
            *old(preview),
            *final(preview),
            brush.enabled,
            HistoryDir::Redo,
            now,
            r,
        ),
{
    try_brush_walk(batch, preview, brush.is_enabled(), HistoryDir::Redo, now)
}

/// What the user is told after a stroke was undone or redone.
pub fn stroke_text(dir: HistoryDir) -> (r: &'static str)
    ensures
        r@ == match dir {
            HistoryDir::Undo => "Stroke undone"@,
            HistoryDir::Redo => "Stroke restored"@,
        },
{
    match dir {
        HistoryDir::Undo => "Stroke undone",
        HistoryDir::Redo => "Stroke restored",
    }
}

/// What came of walking through the presets of the viewed item.
pub struct PresetSwapped {
    pub position: usize,
    /// Whether the item is processed again.
    pub reprocess: bool,
    /// What the user is told of the background picture that the preset asks for.
    pub notice: BgNotice,
}

/// Whether `b` is `a` after a walk through its presets, with the background picture
/// that its settings then ask for.
pub open spec fn preset_walked(
    a: BatchItem,
    b: BatchItem,
    dir: HistoryDir,
    lookup: BgLookup,
    notice: BgNotice,
) -> bool {
    exists|mid: BatchItem| #[trigger]
        swap_effect(a, mid, dir) && bg_reconciled(mid, b, lookup, notice)
}

/// Walks through the presets of an item. The background picture follows.
fn swap_and_reconcile(item: &mut BatchItem, dir: HistoryDir, lookup: BgLookup) -> (r: Option<BgNotice>)
    ensures
        match r {
            Some(notice) => preset_stack(*old(item), dir).len() > 0 && preset_walked(
                *old(item),
                *final(item),
                dir,
                lookup,
                notice,
            ),
            None => preset_stack(*old(item), dir).len() == 0 && *final(item) == *old(item),
        },
{
    if !HistoryManager::swap_preset(item, dir) {
        return None;
    }
    let ghost mid = *item;
    assert(swap_effect(*old(item), mid, dir));
    Some(reconcile_bg_image_after_preset(item, lookup))
}

/// Walks through the presets of the viewed item. Its background picture follows its
/// settings; `lookup` is what is known of the one that they ask for. A finished item is
/// processed again, so that its result follows. The history of results is left alone.
pub fn swap_preset_history(batch: &mut BatchManager, dir: HistoryDir, lookup: BgLookup) -> (r: Option<
    PresetSwapped,
>)
    ensures
        final(batch).selected_index == old(batch).selected_index,
        final(batch).next_id == old(batch).next_id,
        match old(batch).viewed_index() {
            None => r is None && final(batch).items@ == old(batch).items@,
            Some(v) => {
                let a = old(batch).items@[v as int];
                let b = final(batch).items@[v as int];
                if preset_stack(a, dir).len() > 0 {
                    &&& r matches Some(s) && s.position == v && s.reprocess == (a.status is Done)
                        && preset_walked(a, b, dir, lookup, s.notice)
                    &&& final(batch).items@ == old(batch).items@.update(v as int, b)
                } else {
                    r is None && final(batch).items@ == old(batch).items@
                }
            },
        },
{
    match batch.selected_idx_clamped() {
        None => None,
        Some(v) => {
            let reprocess = match batch.items[v].status {
                BatchStatus::Done => true,
                _ => false,
            };
            let swapped = swap_and_reconcile(&mut batch.items[v], dir, lookup);
            assert(batch.items@ =~= old(batch).items@.update(v as int, batch.items@[v as int]));
            match swapped {
                Some(notice) => Some(PresetSwapped { position: v, reprocess, notice }),
                None => {
                    assert(batch.items@ =~= old(batch).items@);
                    None
                },
            }
        },
    }
}

/// The settings and the background picture of an item agree after a walk through its
/// presets, whatever picture could be had.
pub proof fn background_follows_preset_walks(
    a: BatchItem,
    b: BatchItem,
    dir: HistoryDir,
    lookup: BgLookup,
    notice: BgNotice,
)
    requires
        preset_walked(a, b, dir, lookup, notice),
    ensures
        b.settings.bg_image_hash == bg_hash(b),
{
    let mid = choose|mid: BatchItem| #[trigger]
        swap_effect(a, mid, dir) && bg_reconciled(mid, b, lookup, notice);
    background_follows_settings(mid, b, lookup, notice);
}

/// The item and mask settings that were last seen to agree with the result.
#[derive(Clone, Copy, Debug, PartialEq, Eq, Structural)]
pub struct DriftCheck {
    pub item_id: u64,
    pub mask: MaskSettings,
}

/// Whether the mask settings of an item differ from those its result was made
/// with.
pub open spec fn drifted(item: BatchItem) -> bool {
    item.applied_recipe matches Some(made) && made.mask != MaskRecipe::of(item.settings.mask_part())
}

/// Catches mask settings of the viewed item that changed without its result being
/// made anew: its mask is rerun at once. Nothing happens while a preview runs, or
/// where the same settings were looked at before. Says whether a rerun is due.
pub fn recipe_drift_tripwire(
    batch: &BatchManager,
    preview: &mut LivePreview,
    last: &mut Option<DriftCheck>,
    now: u64,
) -> (r: bool)
    ensures
        final(preview).in_flight == old(preview).in_flight,
        final(preview).generation_counter == old(preview).generation_counter,
        match batch.viewed_index() {
            None => !r && *final(last) == *old(last),
            Some(v) => {
                let a = batch.items@[v as int];
                let here = DriftCheck { item_id: a.id, mask: a.settings.mask_part() };
                if old(preview).in_flight@.dom().len() > 0 || a.applied_recipe is None || *old(last)
                    == Some(here) {
                    !r && *final(last) == *old(last)
                } else {
                    &&& r == drifted(a)
                    &&& *final(last) == if r {
                        None
                    } else {
                        Some(here)
                    }
                    &&& r ==> final(preview).pending@ == tweak_pending(
                        old(preview).pending@,
                        now,
                        a.id,
                        PreviewKind::Mask,
                        true,
                    )
                }
            },
        },
        !r ==> final(preview).pending@ == old(preview).pending@,
{
    if preview.has_in_flight() {
        return false;
    }
    let v: usize = match batch.selected_idx_clamped() {
        Some(v) => v,
        None => {
            return false;
        },
    };
    let item = &batch.items[v];
    let made = match item.applied_recipe {
        Some(x) => x,
        None => {
            return false;
        },
    };
    let mask = item.settings.mask_settings();
    let here = DriftCheck { item_id: item.id, mask };
    match *last {
        Some(seen) => {
            if seen == here {
                return false;
            }
        },
        None => {},
    }
    if made.mask == MaskRecipe::from_settings(&mask) {
        *last = Some(here);
        return false;
    }
    *last = None;
    mark(preview, now, item.id, PreviewKind::Mask, true);
    true
}

/// What a stroke is painted on.
pub enum StrokeBase {
    /// The last result, so that earlier strokes stay.
    Result(Arc<Pixmap>),
    /// The source.
    Source(Arc<Pixmap>),
    /// The source in the form that the engine keeps.
    Kept,
}

/// What a stroke of an item is painted on; none without a correction or pixels.
pub open spec fn stroke_base(item: BatchItem) -> Option<StrokeBase> {
    if item.mask_correction is None {
        None
    } else {
        match (item.result_rgba, item.source_rgba) {
            (Some(p), _) => Some(StrokeBase::Result(p)),
            (None, Some(p)) => Some(StrokeBase::Source(p)),
            (None, None) => if item.drawn.source_dyn {
                Some(StrokeBase::Kept)
            } else {
                None
            },
        }
    }
}

/// The model that strokes are painted with: the picked one, and where the fast
/// scheduler asks for it, its fast variant.
pub open spec fn stroke_backend(picked: Option<ModelId>, lcm_routing: bool) -> ModelId {
    if lcm_routing {
        ModelId::SdV15LcmInpaintFp16
    } else {
        match picked {
            Some(id) => id,
            None => ModelId::LaMaFp32,
        }
    }
}

/// A stroke that is handed out.
pub struct StrokeDispatch {
    pub base: StrokeBase,
    pub backend: ModelId,
    pub tuning: InpaintTuning,
    pub dispatch: InpaintDispatch,
}

/// Whether a stroke is painted as the brush says, with the given model.
pub open spec fn tuned(t: InpaintTuning, brush: BrushSettings, backend: ModelId) -> bool {
    &&& t.sharpen == brush.inpaint_sharpen
    &&& t.feather_px == brush.inpaint_feather
    &&& t.grow_px == brush.inpaint_grow
    &&& t.backend == backend
    &&& t.sd_prompt@ == brush.sd_prompt@
    &&& t.sd_negative_prompt@ == brush.sd_negative_prompt@
    &&& t.sd_guidance_scale == brush.sd_guidance_scale
    &&& t.sd_scheduler == brush.sd_scheduler
    &&& t.sd_steps == brush.sd_steps
    &&& t.sd_seed == brush.sd_seed
    &&& t.sd_strength == brush.sd_strength
    &&& t.sd_use_karras_sigmas == brush.sd_use_karras_sigmas
    &&& t.sd_mask_blur == (Scalar { bits: ZERO_BITS })
    &&& t.sd_use_taesd == brush.sd_use_taesd
}

/// How a stroke is painted: as the brush says, with the given model and a hard mask.
pub fn tuning_for(brush: &BrushSettings, backend: ModelId) -> (r: InpaintTuning)
    ensures
        tuned(r, *brush, backend),
        r.sd_prompt@ == brush.sd_prompt@,
        r.sd_negative_prompt@ == brush.sd_negative_prompt@,
        r.sharpen == brush.inpaint_sharpen,
        r.feather_px == brush.inpaint_feather,
        r.grow_px == brush.inpaint_grow,
        r.backend == backend,
{
    InpaintTuning {
        sharpen: brush.inpaint_sharpen,
        feather_px: brush.inpaint_feather,
        grow_px: brush.inpaint_grow,
        backend,
        sd_prompt: brush.sd_prompt.clone(),
        sd_negative_prompt: brush.sd_negative_prompt.clone(),
        sd_guidance_scale: brush.sd_guidance_scale,
        sd_scheduler: brush.sd_scheduler,
        sd_steps: brush.sd_steps,
        sd_seed: brush.sd_seed,
        sd_strength: brush.sd_strength,
        sd_use_karras_sigmas: brush.sd_use_karras_sigmas,
        sd_mask_blur: Scalar { bits: ZERO_BITS },
        sd_use_taesd: brush.sd_use_taesd,
    }
}

/// Hands out the stroke of an item, painted as the brush says. Without a correction or
/// pixels nothing happens.
pub fn dispatch_inpaint_for_item(
    item: &BatchItem,
    processor: &mut Processor,
    brush: &BrushSettings,
    picked: Option<ModelId>,
    lcm_routing: bool,
) -> (r: Option<StrokeDispatch>)
    requires
        gen_or_zero(old(processor).inpaint_latest_gen@, item.id) < u64::MAX,
        left_running(old(processor).inpaint_pending@, item.id, 0) < u32::MAX,
    ensures
        match stroke_base(*item) {
            None => r is None && *final(processor) == *old(processor),
            Some(base) => {
                let generation = (gen_or_zero(old(processor).inpaint_latest_gen@, item.id)
                    + 1) as u64;
                &&& r matches Some(d) && d.base == base && d.backend == stroke_backend(
                    picked,
                    lcm_routing,
                ) && d.dispatch.generation == generation && d.dispatch.in_worker
                    == d.backend.sd_family() && tuned(d.tuning, *brush, d.backend)
                &&& final(processor).only_strokes_differ(old(processor))
                &&& final(processor).inpaint_latest_gen@ == old(
                    processor,
                ).inpaint_latest_gen@.insert(item.id, generation)
                &&& final(processor).inpaint_pending@ == old(processor).inpaint_pending@.insert(
                    item.id,
                    (left_running(old(processor).inpaint_pending@, item.id, 0) + 1) as u32,
                )
                &&& final(processor).inpaint_cancels@ == old(processor).inpaint_cancels@.insert(
                    item.id,
                    false,
                )
                &&& final(processor).inpaint_progress@ == old(processor).inpaint_progress@.insert(
                    item.id,
                    (0, 0),
                )
            },
        },
{
    if item.mask_correction.is_none() {
        return None;
    }
    let base = match (&item.result_rgba, &item.source_rgba) {
        (Some(p), _) => StrokeBase::Result(share(p)),
        (None, Some(p)) => StrokeBase::Source(share(p)),
        (None, None) => {
            if !item.drawn.source_dyn {
                return None;
            }
            StrokeBase::Kept
        },
    };
    let backend = if lcm_routing {
        ModelId::SdV15LcmInpaintFp16
    } else {
        match picked {
            Some(id) => id,
            None => ModelId::LaMaFp32,
        }
    };
    let tuning = tuning_for(brush, backend);
    let dispatch = processor.dispatch_inpaint(item.id, backend);
    Some(StrokeDispatch { base, backend, tuning, dispatch })
}

/// Whether `b` is `a` with a painted stroke as its result. The stroke's correction
/// is cleared, so that the next stroke is painted alone; that can be undone.
pub open spec fn stroke_applied(a: BatchItem, b: BatchItem, rgba: Arc<Pixmap>) -> bool {
    &&& b.strokes() == if a.mask_correction is Some {
        a.strokes().committed(None)
    } else {
        a.strokes()
    }
    &&& b.settings.correction_hash is None
    &&& b.only_strokes_differ(
        &BatchItem {
            result_rgba: Some(rgba),
            status: if a.status is Pending {
                BatchStatus::Done
            } else {
                a.status
            },
            drawn: Drawn { result_tex_pending: true, thumb_pending: true, ..a.drawn },
            ..a
        },
    )
}

/// Whether a painted stroke was stored in its item; `r` names its texture. A stroke
/// whose item is gone is dropped.
pub open spec fn stroke_stored(
    a: BatchManager,
    b: BatchManager,
    id: u64,
    rgba: Arc<Pixmap>,
    switch: u64,
    r: Option<String>,
) -> bool {
    &&& b.selected_index == a.selected_index
    &&& b.next_id == a.next_id
    &&& match place_of(a.items@, id) {
        None => r is None && b.items@ == a.items@,
        Some(i) => {
            &&& shown(r) == Some(
                "inpaint_"@ + decimal(id as nat) + "_"@ + decimal(switch as nat),
            )
            &&& b.items@ == a.items@.update(i, b.items@[i])
            &&& stroke_applied(a.items@[i], b.items@[i], rgba)
        },
    }
}

/// Stores a painted stroke. The old texture stays until the new one is ready; its
/// name is returned. `None` where the item is gone.
pub fn apply_inpaint_result(batch: &mut BatchManager, id: u64, rgba: Arc<Pixmap>, switch: u64) -> (r:
    Option<String>)
    ensures
        stroke_stored(*old(batch), *final(batch), id, rgba, switch, r),
{
    proof {
        place_is_first(batch.items@, id);
    }
    let i: usize = match batch.index_of(id) {
        Some(i) => i,
        None => {
            return None;
        },
    };
    store_stroke(&mut batch.items[i], rgba);
    assert(batch.items@ =~= old(batch).items@.update(i as int, batch.items@[i as int]));
    let a = to_decimal(id);
    let b = to_decimal(switch);
    let head = join3("inpaint_", a.as_str(), "_");
    Some(join2(head.as_str(), b.as_str()))
}

/// Stores a painted stroke.
fn store_stroke(item: &mut BatchItem, rgba: Arc<Pixmap>)
    ensures
        stroke_applied(*old(item), *final(item), rgba),
{
    item.result_rgba = Some(rgba);
    promote(item);
    item.drawn.result_tex_pending = true;
    item.drawn.thumb_pending = true;
    item.clear_correction();
}

/// An item that waits is finished once it has a result.
fn promote(item: &mut BatchItem)
    ensures
        *final(item) == (BatchItem {
            status: if old(item).status is Pending {
                BatchStatus::Done
            } else {
                old(item).status
            },
            ..*old(item)
        }),
{
    let waits = match item.status {
        BatchStatus::Pending => true,
        _ => false,
    };
    if waits {
        item.status = BatchStatus::Done;
    }
}

/// An item with a finished preview as its result. What was built on the way is
/// kept, and the mask settings that the preview was made with count as applied.
pub open spec fn previewed(a: BatchItem, r: PreviewResult, mask: MaskRecipe) -> BatchItem {
    BatchItem {
        result_rgba: Some(Arc::new(r.rgba)),
        status: if a.status is Pending {
            BatchStatus::Done
        } else {
            a.status
        },
        drawn: Drawn {
            result_tex_pending: true,
            thumb_pending: r.is_final || a.drawn.thumb_pending,
            ..a.drawn
        },
        caches: with_built(a.caches, r),
        applied_recipe: with_mask(a.applied_recipe, mask),
        ..a
    }
}

/// Caches with what a preview built on the way.
pub open spec fn with_built(c: Caches, r: PreviewResult) -> Caches {
    Caches {
        edge_mask: if r.new_edge_mask is Some {
            r.new_edge_mask
        } else {
            c.edge_mask
        },
        masked_base: if r.new_masked_base is Some {
            r.new_masked_base
        } else {
            c.masked_base
        },
        ..c
    }
}

/// A recipe with other mask settings, where there is one.
pub open spec fn with_mask(made: Option<ProcessingRecipe>, mask: MaskRecipe) -> Option<
    ProcessingRecipe,
> {
    match made {
        Some(recipe) => Some(ProcessingRecipe { mask, ..recipe }),
        None => None,
    }
}

/// Stores a finished preview, made with the given mask settings. The old texture
/// stays until the new one is ready. Only the preview that ends a drag renews the
/// thumbnail. Says whether the item is still there.
pub fn apply_completed_preview(batch: &mut BatchManager, r: PreviewResult, mask: MaskRecipe) -> (found:
    bool)
    ensures
        final(batch).selected_index == old(batch).selected_index,
        final(batch).next_id == old(batch).next_id,
        match place_of(old(batch).items@, r.item_id) {
            None => !found && final(batch).items@ == old(batch).items@,
            Some(i) => found && final(batch).items@ == old(batch).items@.update(
                i,
                previewed(old(batch).items@[i], r, mask),
            ),
        },
{
    proof {
        place_is_first(batch.items@, r.item_id);
    }
    match batch.index_of(r.item_id) {
        Some(i) => {
            store_preview(&mut batch.items[i], r, mask);
            true
        },
        None => false,
    }
}

/// Items after the first `n` finished previews were stored, each with the mask
/// settings it was made with. Those whose item is gone are dropped.
pub open spec fn all_previewed(
    s: Seq<BatchItem>,
    results: Seq<PreviewResult>,
    masks: Seq<MaskRecipe>,
    n: int,
) -> Seq<BatchItem>
    decreases n,
{
    if n <= 0 {
        s
    } else {
        let t = all_previewed(s, results, masks, n - 1);
        match place_of(t, results[n - 1].item_id) {
            Some(i) => t.update(i, previewed(t[i], results[n - 1], masks[n - 1])),
            None => t,
        }
    }
}

/// Stores finished previews, each with the mask settings it was made with.
pub fn apply_completed_previews(
    batch: &mut BatchManager,
    results: Vec<PreviewResult>,
    masks: &Vec<MaskRecipe>,
)
    requires
        masks@.len() == results@.len(),
    ensures
        final(batch).items@ == all_previewed(
            old(batch).items@,
            results@,
            masks@,
            results@.len() as int,
        ),
        final(batch).selected_index == old(batch).selected_index,
        final(batch).next_id == old(batch).next_id,
{
    let ghost before = batch.items@;
    let ghost all = results@;
    let mut rest = results;
    let n: usize = rest.len();
    let mut k: usize = 0;
    while k < n
        invariant
            k <= n,
            n == all.len(),
            masks@.len() == n,
            rest@ == all.skip(k as int),
            batch.items@ == all_previewed(before, all, masks@, k as int),
            batch.selected_index == old(batch).selected_index,
            batch.next_id == old(batch).next_id,
        decreases n - k,
    {
        let r = rest.remove(0);
        assert(r == all[k as int]);
        assert(all.skip(k as int).remove(0) =~= all.skip(k as int + 1));
        apply_completed_preview(batch, r, masks[k]);
        k += 1;
    }
}

/// Keeps what a preview built on the way.
fn keep_built(
    caches: &mut Caches,
    edge_mask: Option<EdgeMask>,
    masked_base: Option<MaskedBase>,
)
    ensures
        *final(caches) == (Caches {
            edge_mask: if edge_mask is Some {
                edge_mask
            } else {
                old(caches).edge_mask
            },
            masked_base: if masked_base is Some {
                masked_base
            } else {
                old(caches).masked_base
            },
            ..*old(caches)
        }),
{
    if edge_mask.is_some() {
        caches.edge_mask = edge_mask;
    }
    if masked_base.is_some() {
        caches.masked_base = masked_base;
    }
}

/// A recipe with other mask settings, where there is one.
fn remask(made: Option<ProcessingRecipe>, mask: MaskRecipe) -> (r: Option<ProcessingRecipe>)
    ensures
        r == with_mask(made, mask),
{
    match made {
        Some(recipe) => Some(ProcessingRecipe { mask, ..recipe }),
        None => None,
    }
}

/// Stores a finished preview.
fn store_preview(item: &mut BatchItem, r: PreviewResult, mask: MaskRecipe)
    ensures
        *final(item) == previewed(*old(item), r, mask),
{
    promote(item);
    item.result_rgba = Some(Arc::new(r.rgba));
    item.drawn.result_tex_pending = true;
    item.drawn.thumb_pending = r.is_final || item.drawn.thumb_pending;
    keep_built(&mut item.caches, r.new_edge_mask, r.new_masked_base);
    item.applied_recipe = remask(item.applied_recipe, mask);
}

/// A stored preview does not set off another one: the settings it was made with
/// count as applied.
pub proof fn previews_settle(a: BatchItem, r: PreviewResult)
    ensures
        !drifted(previewed(a, r, MaskRecipe::of(a.settings.mask_part()))),
{
}

/// An item stays whole when a whole picture is stored in it: a preview or a stroke.
pub proof fn pictures_keep_items_whole(
    a: BatchItem,
    b: BatchItem,
    preview: PreviewResult,
    mask: MaskRecipe,
    stroke: Arc<Pixmap>,
)
    requires
        a.wf(),
        preview.rgba.wf(),
        stroke.wf(),
        stroke_applied(a, b, stroke),
    ensures
        previewed(a, preview, mask).wf(),
        b.wf(),
{
}

/// Where the edge tensor of a scale comes from.
#[derive(Clone, Copy, Debug, PartialEq, Eq, Structural)]
pub enum EdgeLookup {
    /// It is at hand.
    Hot(u64),
    /// It has to be decompressed.
    Decompress(u64),
    /// There is none.
    Missing,
}

/// Where the edge tensor of a scale comes from.
pub open spec fn edge_source(c: Caches, scale: EdgeScale) -> EdgeLookup {
    match c.edge_tensors {
        None => EdgeLookup::Missing,
        Some(t) => match c.hot_edge {
            Some(h) => if h.scale == scale {
                EdgeLookup::Hot(h.handle)
            } else {
                EdgeLookup::Decompress(t.handle)
            },
            None => EdgeLookup::Decompress(t.handle),
        },
    }
}

/// Where the edge tensor of a scale comes from.
pub fn edge_tensor_for_scale(item: &BatchItem, scale: EdgeScale) -> (r: EdgeLookup)
    ensures
        r == edge_source(item.caches, scale),
{
    let t = match item.caches.edge_tensors {
        Some(t) => t,
        None => {
            return EdgeLookup::Missing;
        },
    };
    if let Some(h) = item.caches.hot_edge {
        if h.scale == scale {
            return EdgeLookup::Hot(h.handle);
        }
    }
    EdgeLookup::Decompress(t.handle)
}

/// Keeps a decompressed edge tensor at hand, if it is that of the item's scale: a
/// second layer does not take the place of the one that is tweaked.
pub fn edge_tensor_decompressed(item: &mut BatchItem, scale: EdgeScale, handle: u64)
    ensures
        *final(item) == if scale == old(item).settings.edge_scale {
            BatchItem {
                caches: Caches {
                    hot_edge: Some(HotEdgeTensor { scale, handle }),
                    ..old(item).caches
                },
                ..*old(item)
            }
        } else {
            *old(item)
        },
{
    if scale == item.settings.edge_scale {
        item.caches.hot_edge = Some(HotEdgeTensor { scale, handle });
    }
}

/// Whether lines are drawn in two scales.
pub fn needs_second_scale(style: LineStyle) -> (r: bool)
    ensures
        r == (style is DualScale),
{
    match style {
        LineStyle::DualScale { .. } => true,
        _ => false,
    }
}

/// What a preview of an item can draw on. `seg` is the model of its segmentation,
/// if that could be decompressed, and `has_edge` whether its edges could. None
/// where the source is not decoded, or where edges are previewed without any.
pub open spec fn preview_inputs(
    a: BatchItem,
    kind: PreviewKind,
    seg: Option<ModelKind>,
    has_edge: bool,
) -> Option<PreviewInputs> {
    if !(a.drawn.source_dyn || a.source_rgba is Some) || (kind == PreviewKind::Edge && !has_edge) {
        None
    } else {
        Some(
            PreviewInputs {
                kind,
                has_seg: seg is Some,
                has_edge,
                has_cached_mask: a.caches.edge_mask matches Some(m) && m.line_strength_bits
                    == a.settings.line_strength.bits && m.scale == a.settings.edge_scale,
                has_cached_base: a.caches.masked_base matches Some(b) && b.mask == MaskRecipe::of(
                    a.settings.mask_part(),
                ) && seg == Some(b.model),
            },
        )
    }
}

/// What a preview of an item can draw on. The source is kept in the engine's own
/// form from the first preview on. What was built before is reused only if it was
/// built with the present settings.
pub fn build_preview_inputs(
    item: &mut BatchItem,
    kind: PreviewKind,
    seg: Option<ModelKind>,
    has_edge: bool,
) -> (r: Option<PreviewInputs>)
    ensures
        r == preview_inputs(*old(item), kind, seg, has_edge),
        r matches Some(i) ==> {
            &&& i.kind == kind
            &&& i.has_seg <==> seg is Some
            &&& i.has_edge == has_edge
            &&& i.has_cached_mask <==> exists|m: EdgeMask|
                old(item).caches.edge_mask == Some(m) && #[trigger] m.line_strength_bits == old(
                    item,
                ).settings.line_strength.bits && m.scale == old(item).settings.edge_scale
        },
        *final(item) == (BatchItem {
            drawn: Drawn {
                source_dyn: old(item).drawn.source_dyn || old(item).source_rgba is Some,
                ..old(item).drawn
            },
            ..*old(item)
        }),
{
    if !item.drawn.source_dyn {
        if item.source_rgba.is_none() {
            return None;
        }
        item.drawn.source_dyn = true;
    }
    if kind == PreviewKind::Edge && !has_edge {
        return None;
    }
    let has_cached_mask = match &item.caches.edge_mask {
        Some(m) => m.line_strength_bits == item.settings.line_strength.bits && m.scale
            == item.settings.edge_scale,
        None => false,
    };
    let mask = MaskRecipe::from_settings(&item.settings.mask_settings());
    let has_cached_base = match (&item.caches.masked_base, seg) {
        (Some(b), Some(model)) => b.mask == mask && model == b.model,
        _ => false,
    };
    Some(
        PreviewInputs { kind, has_seg: seg.is_some(), has_edge, has_cached_mask, has_cached_base },
    )
}

/// What the user is told of a download: that a model is ready, or why it is not.
pub fn download_text(name: &str, error: Option<&str>) -> (r: String)
    ensures
        r@ == match error {
            None => name@ + " ready"@,
            Some(e) => name@ + " download failed: "@ + e@,
        },
{
    match error {
        None => join2(name, " ready"),
        Some(e) => join3(name, " download failed: ", e),
    }
}

/// What the user is told of an event of a download.
pub enum DownloadNotice {
    Nothing,
    Ready(String),
    Failed(String),
}

/// What the user is told of an event of a download. Progress is shown elsewhere.
pub fn download_notice(event: &DownloadEvent, name: &str) -> (r: DownloadNotice)
    ensures
        match *event {
            DownloadEvent::Complete { .. } => r matches DownloadNotice::Ready(t) && t@ == name@
                + " ready"@,
            DownloadEvent::Failed { error, .. } => r matches DownloadNotice::Failed(t) && t@
                == name@ + " download failed: "@ + error@,
            DownloadEvent::Progress { .. } => r is Nothing,
            DownloadEvent::Verifying { .. } => r is Nothing,
        },
{
    match event {
        DownloadEvent::Complete { .. } => DownloadNotice::Ready(download_text(name, None)),
        DownloadEvent::Failed { error, .. } => DownloadNotice::Failed(
            download_text(name, Some(error.as_str())),
        ),
        DownloadEvent::Progress { .. } => DownloadNotice::Nothing,
        DownloadEvent::Verifying { .. } => DownloadNotice::Nothing,
    }
}

/// What the user is told of an installation.
pub fn runtime_text(name: &str, error: Option<&str>) -> (r: String)
    ensures
        r@ == match error {
            None => name@ + " installed"@,
            Some(e) => name@ + " install failed: "@ + e@,
        },
{
    match error {
        None => join2(name, " installed"),
        Some(e) => join3(name, " install failed: ", e),
    }
}

/// What a preview built is used again exactly as long as it fits. An edge mask serves
/// previews of the same strength and scale; a cut-out subject serves those with every
/// mask knob at the same place and the same model. `made` are the settings that the
/// preview was made with, and `now` those of the item since.
pub proof fn built_parts_serve_their_settings_only(
    a: BatchItem,
    r: PreviewResult,
    mask: MaskRecipe,
    made: ItemSettings,
    now: ItemSettings,
    kind: PreviewKind,
    seg: Option<ModelKind>,
    has_edge: bool,
)
    requires
        r.new_edge_mask matches Some(m) && m.line_strength_bits == made.line_strength.bits
            && m.scale == made.edge_scale,
        r.new_masked_base matches Some(b) && b.mask == MaskRecipe::of(made.mask_part()),
    ensures
        ({
            let b = BatchItem { settings: now, ..previewed(a, r, mask) };
            preview_inputs(b, kind, seg, has_edge) matches Some(i) ==> {
                &&& i.has_cached_mask <==> now.line_strength == made.line_strength
                    && now.edge_scale == made.edge_scale
                &&& i.has_cached_base <==> same_mask_knobs(now, made) && seg == Some(
                    r.new_masked_base->0.model,
                )
            }
        }),
{
    recorded_masks_agree(now.mask_part(), made.mask_part());
    if now.mask_part() == made.mask_part() {
        mask_stage_tells_the_knobs(now, made);
    }
}

/// Nothing is taken for built that is not there: without a mask or a cut-out subject at
/// hand, or without the segmentation it came from, a preview builds its own.
pub proof fn missing_parts_are_not_reused(
    a: BatchItem,
    kind: PreviewKind,
    seg: Option<ModelKind>,
    has_edge: bool,
)
    ensures
        preview_inputs(a, kind, seg, has_edge) matches Some(i) ==> {
            &&& a.caches.edge_mask is None ==> !i.has_cached_mask
            &&& a.caches.masked_base is None || seg is None ==> !i.has_cached_base
        },
        preview_inputs(a, kind, seg, has_edge) is Some <==> (a.source_rgba is Some
            || a.drawn.source_dyn) && (kind == PreviewKind::Mask || has_edge),
{
}

/// What the user asks for reaches the worker: the request for a stroke carries the texts
/// and numbers of the brush, each in its own place.
pub proof fn requests_carry_the_brush(
    brush: BrushSettings,
    backend: ModelId,
    t: InpaintTuning,
    q: SdInpaintRequest,
    taesd_installed: bool,
)
    requires
        tuned(t, brush, backend),
        t.asked(q, taesd_installed),
    ensures
        q.prompt@ == brush.sd_prompt@,
        q.negative_prompt@ == brush.sd_negative_prompt@,
        q.num_inference_steps == brush.sd_steps,
        q.seed == brush.sd_seed,
        q.strength == brush.sd_strength,
        q.use_karras_sigmas == brush.sd_use_karras_sigmas,
        q.scheduler == brush.sd_scheduler.kind(),
        q.mask_blur.bits == 0,
        brush.sd_scheduler != SdScheduler::Lcm ==> q.guidance_scale == brush.sd_guidance_scale,
        !brush.sd_guidance_scale.is_nan() && brush.sd_scheduler == SdScheduler::Lcm ==> {
            &&& ONE_BITS <= q.guidance_scale.rank() <= TWO_BITS
            &&& ONE_BITS <= brush.sd_guidance_scale.rank() <= TWO_BITS ==> q.guidance_scale
                == brush.sd_guidance_scale
        },
        q.use_taesd <==> taesd_installed && brush.sd_use_taesd != Some(false),
        t.sharpen == brush.inpaint_sharpen,
        t.feather_px == brush.inpaint_feather,
        t.grow_px == brush.inpaint_grow,
        t.backend == backend,
{
}

/// Two brushes that differ in one text only ask for strokes that differ in that text
/// only.
pub proof fn texts_of_the_brush_move_alone(
    a: BrushSettings,
    b: BrushSettings,
    backend: ModelId,
    t: InpaintTuning,
    u: InpaintTuning,
    p: SdInpaintRequest,
    q: SdInpaintRequest,
    installed: bool,
)
    requires
        b == (BrushSettings {
            sd_prompt: b.sd_prompt,
            sd_negative_prompt: b.sd_negative_prompt,
            ..a
        }),
        tuned(t, a, backend),
        tuned(u, b, backend),
        t.asked(p, installed),
        u.asked(q, installed),
    ensures
        p.prompt@ == q.prompt@ <==> a.sd_prompt@ == b.sd_prompt@,
        p.negative_prompt@ == q.negative_prompt@ <==> a.sd_negative_prompt@
            == b.sd_negative_prompt@,
        q == (SdInpaintRequest { prompt: q.prompt, negative_prompt: q.negative_prompt, ..p }),
{
}

/// A stroke goes onto what is seen: the last result where there is one, so that earlier
/// strokes stay, else the source. Without a painted correction there is no stroke.
pub proof fn strokes_go_onto_what_is_seen(item: BatchItem)
    ensures
        item.mask_correction is None ==> stroke_base(item) is None,
        item.mask_correction is Some ==> {
            &&& item.result_rgba matches Some(p) ==> stroke_base(item) == Some(
                StrokeBase::Result(p),
            )
            &&& item.result_rgba is None ==> (item.source_rgba matches Some(p) ==> stroke_base(item)
                == Some(StrokeBase::Source(p)))
            &&& item.result_rgba is None && item.source_rgba is None ==> (stroke_base(item) is Some
                <==> item.drawn.source_dyn)
        },
{
}

/// The picked model paints, unless its fast variant is asked for; without one, the
/// plain eraser does.
pub proof fn the_picked_model_paints(picked: Option<ModelId>)
    ensures
        picked matches Some(m) ==> stroke_backend(picked, false) == m,
        stroke_backend(picked, true).sd_family(),
        picked is None ==> !stroke_backend(picked, false).sd_family(),
{
}

/// A painted stroke is what is seen next, on its item alone: the others stay as they
/// are, and the strokes of the item can be undone.
pub proof fn strokes_change_their_item_only(
    a: BatchManager,
    b: BatchManager,
    id: u64,
    rgba: Arc<Pixmap>,
    switch: u64,
    r: Option<String>,
    i: int,
)
    requires
        stroke_stored(a, b, id, rgba, switch, r),
        0 <= i < a.items@.len(),
    ensures
        b.items@.len() == a.items@.len(),
        a.items@[i].id != id ==> b.items@[i] == a.items@[i],
        b.items@[i].history == a.items@[i].history,
        b.items@[i].applied_recipe == a.items@[i].applied_recipe,
        r is Some <==> exists|j: int| 0 <= j < a.items@.len() && (#[trigger] a.items@[j]).id == id,
        r is Some ==> exists|j: int|
            0 <= j < a.items@.len() && a.items@[j].id == id && (#[trigger] b.items@[j]).result_rgba
                == Some(rgba) && b.items@[j].mask_correction is None
                && !(b.items@[j].status is Pending),
{
    place_is_first(a.items@, id);
    match place_of(a.items@, id) {
        Some(j) => {
            let it = a.items@[j];
            let out = b.items@[j];
            assert(out.strokes().current is None);
        },
        None => {},
    }
}

/// A preview is what is seen next, and nothing of the item is lost over it: its source,
/// its history, its settings, its tensors and its strokes stay.
pub proof fn previews_replace_the_result_only(a: BatchItem, r: PreviewResult, mask: MaskRecipe)
    ensures
        ({
            let b = previewed(a, r, mask);
            &&& picture_view(b.result_rgba) == Some(r.rgba@)
            &&& !(b.status is Pending)
            &&& a.status is Done ==> b.status is Done
            &&& a.status is Processing ==> b.status is Processing
            &&& b.settings == a.settings
            &&& b.history == a.history
            &&& b.redo_stack == a.redo_stack
            &&& b.source_rgba == a.source_rgba
            &&& b.mask_correction == a.mask_correction
            &&& b.caches.tensor == a.caches.tensor
            &&& b.caches.edge_tensors == a.caches.edge_tensors
            &&& r.new_edge_mask is None ==> b.caches.edge_mask == a.caches.edge_mask
            &&& r.new_masked_base is None ==> b.caches.masked_base == a.caches.masked_base
            &&& b.applied_recipe is Some <==> a.applied_recipe is Some
            &&& b.applied_recipe matches Some(made) ==> made.mask == mask && made.inference
                == a.applied_recipe->0.inference && made.edge == a.applied_recipe->0.edge
            &&& r.is_final ==> b.drawn.thumb_pending
            &&& b.drawn.result_tex_pending
        }),
{
}

/// A change leads to the strongest of what its parts call for: nothing weaker than any
/// of them, and nothing that none of them asks for.
pub proof fn changes_lead_to_their_strongest_part(
    item: BatchItem,
    tc: ToolbarChange,
    tier: RequiredTier,
)
    ensures
        ({
            let d = resolved_dispatch(item, tc, tier);
            let mode = tc.line_mode_from matches Some(from) && from != item.settings.line_mode;
            &&& d.weight() >= tc.auto_dispatch.weight()
            &&& tc.preset_applied && item.applied_recipe is None ==> d
                == DispatchKind::SubprocessFullPipeline
            &&& tc.preset_applied && tier == RequiredTier::FullPipeline ==> d
                == DispatchKind::SubprocessFullPipeline
            &&& tc.preset_applied && tier == RequiredTier::AddEdgeInference ==> d.weight()
                >= DispatchKind::SubprocessAddEdge.weight()
            &&& tc.preset_applied && (tier == RequiredTier::MaskRerun || tier
                == RequiredTier::EdgeRerun) ==> d.weight() >= DispatchKind::LivePreviewMask.weight()
            &&& tc.input_transform_changed ==> d.weight()
                >= DispatchKind::SubprocessAddEdge.weight()
            &&& tc.input_transform_changed && item.caches.tensor is None ==> d
                == DispatchKind::SubprocessFullPipeline
            &&& mode && (item.settings.line_mode == LineMode::EdgesOnly || tc.line_mode_from
                == Some(LineMode::EdgesOnly)) ==> d == DispatchKind::SubprocessFullPipeline
            &&& mode && item.settings.line_mode == LineMode::SubjectOutline
                && item.caches.edge_tensors is None ==> d.weight()
                >= DispatchKind::SubprocessAddEdge.weight()
            &&& mode ==> d.weight() >= DispatchKind::LivePreviewMask.weight()
            &&& !mode && !tc.input_transform_changed && !tc.preset_applied ==> d
                == tc.auto_dispatch
        }),
{
}

/// A preset previews the stage that it changed.
pub proof fn presets_preview_what_they_changed(item: BatchItem, tc: ToolbarChange, tier: RequiredTier)
    requires
        tc.preset_applied,
        tc.auto_dispatch == DispatchKind::Nothing,
        tc.line_mode_from is None,
        !tc.input_transform_changed,
        item.applied_recipe is Some,
    ensures
        preview_of(resolved_dispatch(item, tc, tier)) == Some(PreviewKind::Mask) <==> tier
            == RequiredTier::MaskRerun,
        preview_of(resolved_dispatch(item, tc, tier)) == Some(PreviewKind::Edge) <==> tier
            == RequiredTier::EdgeRerun,
{
}

/// A tweak waits for its own item and stage, and leaves those of others alone. One that
/// has settled is due at once; another keeps the time of the first, so that previews come
/// while a knob is being moved.
pub proof fn tweaks_wait_for_their_item(
    pending: Map<u64, Pending>,
    now: u64,
    id: u64,
    kind: PreviewKind,
    settled: bool,
)
    ensures
        ({
            let t = tweak_pending(pending, now, id, kind, settled);
            &&& t.contains_key(id) && t[id].kind == kind
            &&& forall|k: u64|
                k != id ==> (#[trigger] t.contains_key(k) <==> pending.contains_key(k)) && (
                t.contains_key(k) ==> t[k] == pending[k])
            &&& t[id].last_tweak_at <= now || t[id].last_tweak_at == pending[id].last_tweak_at
            &&& settled && now >= FLUSH_BACK ==> t[id].last_tweak_at + FLUSH_BACK == now
        }),
{
}

/// Mask knobs that were moved since the result was made are caught, and only those: the
/// result of an item drifted exactly where some mask knob stands elsewhere.
pub proof fn drift_is_a_moved_mask_knob(
    item: BatchItem,
    made: ItemSettings,
    model: ModelKind,
    chain: bool,
)
    requires
        made.line_mode != LineMode::EdgesOnly,
        item.applied_recipe == Some(made.recipe(model, chain)),
    ensures
        drifted(item) <==> !same_mask_knobs(item.settings, made),
{
    recorded_masks_agree(item.settings.mask_part(), made.mask_part());
    if item.settings.mask_part() == made.mask_part() {
        mask_stage_tells_the_knobs(item.settings, made);
    }
}

/// Undo and redo apply to the checked items, or to the viewed one where none is checked.
pub proof fn walks_apply_to_the_targets(batch: BatchManager, i: int)
    requires
        0 <= i < batch.items@.len(),
    ensures
        batch.items@[i].selected ==> walks(batch, i),
        walks(batch, i) && !batch.items@[i].selected ==> {
            &&& forall|j: int| 0 <= j < batch.items@.len() ==> !(#[trigger] batch.items@[j]).selected
            &&& batch.selected_index < batch.items@.len()
            &&& batch.items@[batch.selected_index as int].id == batch.items@[i].id
        },
{
}

/// The edges of another scale are never taken for those of the wanted one.
pub proof fn edges_come_in_their_scale(c: Caches, scale: EdgeScale)
    ensures
        c.edge_tensors is None ==> edge_source(c, scale) is Missing,
        edge_source(c, scale) matches EdgeLookup::Hot(handle) ==> c.hot_edge == Some(
            HotEdgeTensor { scale, handle },
        ),
        edge_source(c, scale) matches EdgeLookup::Decompress(handle) ==> (c.edge_tensors matches
            Some(t) && t.handle == handle),
        c.edge_tensors is Some ==> !(edge_source(c, scale) is Missing),
{
}

/// A background that is asked for is looked up under its own fingerprint, and only where
/// the item does not have it.
pub proof fn backgrounds_are_looked_up_by_fingerprint(
    want: Option<u64>,
    have: Option<u64>,
    paths: Map<u64, String>,
)
    ensures
        want == have ==> bg_path(want, have, paths) is None,
        want is None ==> bg_path(want, have, paths) is None,
        want matches Some(h) ==> {
            &&& !paths.contains_key(h) ==> bg_path(want, have, paths) is None
            &&& paths.contains_key(h) && have != want ==> bg_path(want, have, paths) == Some(
                paths[h],
            )
        },
{
}

/// A preset leads to exactly the work that its difference to the result calls for, and
/// to a full run where there is no result.
pub proof fn presets_rerun_what_differs(made: Option<ProcessingRecipe>, tier: RequiredTier)
    ensures
        made is None ==> preset_dispatch(made, tier) is SubprocessFullPipeline,
        preset_dispatch(made, tier) is Nothing <==> made is Some && (tier is Skip
            || tier is CompositeOnly),
        preset_dispatch(made, tier) is LivePreviewEdge <==> made is Some && tier is EdgeRerun,
        preset_dispatch(made, tier) is LivePreviewMask <==> made is Some && tier is MaskRerun,
        preset_dispatch(made, tier) is SubprocessAddEdge <==> made is Some
            && tier is AddEdgeInference,
        tier is FullPipeline ==> preset_dispatch(made, tier) is SubprocessFullPipeline,
{
}

/// A background picture that cannot be had is taken out of the item and of its
/// settings; one that can is there with its own fingerprint. Nothing else of the item
/// or of its settings changes.
pub proof fn backgrounds_come_or_go_whole(a: BatchItem, b: BatchItem, lookup: BgLookup, r: BgNotice)
    requires
        bg_fetched(a, b, lookup, r),
    ensures
        b.settings.bg_image_hash == bg_hash(b),
        b.bg_image is Some <==> lookup is Found,
        lookup matches BgLookup::Found { image, path } ==> r is Nothing && b.bg_image->0.image
            == image && b.settings.bg_image_hash == Some(fingerprint(*image)),
        !(lookup is Found) ==> !(r is Nothing),
        (ItemSettings { bg_image_hash: None, ..b.settings }) == (ItemSettings {
            bg_image_hash: None,
            ..a.settings
        }),
        !b.drawn.bg_image_texture,
        b.id == a.id && b.status == a.status && b.result_rgba == a.result_rgba && b.history
            == a.history && b.applied_recipe == a.applied_recipe && b.caches == a.caches
            && b.mask_correction == a.mask_correction,
{
}

/// A cleared correction is gone and can be brought back; without being asked to,
/// nothing is cleared.
pub proof fn cleared_corrections_can_be_undone(a: BatchItem, b: BatchItem, clear: bool)
    requires
        correction_edited(a, b, clear),
    ensures
        !clear ==> b == a,
        clear && a.mask_correction is Some ==> {
            &&& b.mask_correction is None
            &&& b.settings.correction_hash is None
            &&& b.strokes().undo.len() > 0
            &&& b.strokes().undo.last() == a.mask_correction
            &&& b.strokes().redo.len() == 0
        },
{
    if clear && a.mask_correction is Some {
        let all = a.strokes().undo.push(a.strokes().current);
        assert(all.last() == a.mask_correction);
        crate::item::newest_entries_are_kept(all, crate::item::STROKE_HISTORY_DEPTH as int);
        assert(b.mask_correction == b.strokes().current);
    }
}

/// The settings before a preset are the first to come back on undo; there is nothing
/// to redo any more, and the item itself stays as it is.
pub proof fn presets_can_be_undone(a: BatchItem, b: BatchItem, from: PresetSnapshot)
    requires
        preset_pushed(a, b, from),
    ensures
        b.preset_undo_stack@.len() > 0,
        b.preset_undo_stack@.last() == from,
        b.preset_undo_stack@.len() <= PRESET_HISTORY_DEPTH,
        b.preset_redo_stack@.len() == 0,
        b.settings == a.settings && b.result_rgba == a.result_rgba && b.status == a.status,
{
    let all = a.preset_undo_stack@.push(from);
    assert(all.last() == from);
    crate::item::newest_entries_are_kept(all, PRESET_HISTORY_DEPTH as int);
}

/// Whether an item is meant by undo or redo and has something to undo or redo.
pub open spec fn walks_on(batch: BatchManager, dir: HistoryDir, i: int) -> bool {
    &&& walks(batch, i)
    &&& dir is Undo ==> undoable(batch.items@[i])
    &&& dir is Redo ==> batch.items@[i].redo_stack@.len() > 0
}

/// The items that undo or redo changes are counted: none where there is none, and all
/// where it is all of them.
pub proof fn walked_items_are_counted(batch: BatchManager, dir: HistoryDir, n: int)
    requires
        0 <= n <= batch.items@.len(),
    ensures
        0 <= walk_count(batch, dir, n) <= n,
        walk_count(batch, dir, n) == 0 <==> (forall|i: int|
            0 <= i < n ==> !#[trigger] walks_on(batch, dir, i)),
        walk_count(batch, dir, n) == n <==> (forall|i: int|
            0 <= i < n ==> #[trigger] walks_on(batch, dir, i)),
    decreases n,
{
    if n > 0 {
        walked_items_are_counted(batch, dir, n - 1);
        let w = walks_on(batch, dir, n - 1);
        assert(walk_count(batch, dir, n) == walk_count(batch, dir, n - 1) + if w {
            1int
        } else {
            0int
        });
    }
}

/// The user is told of undo and redo exactly where something changed, of each in its
/// own words.
pub proof fn walks_are_told(count: nat)
    ensures
        walk_text(HistoryDir::Undo, count) is None <==> count == 0,
        walk_text(HistoryDir::Redo, count) is None <==> count == 0,
        count > 0 ==> walk_text(HistoryDir::Undo, count) != walk_text(HistoryDir::Redo, count),
        count > 0 ==> "Undone"@.is_prefix_of(walk_text(HistoryDir::Undo, count)->0),
        count > 1 ==> walk_text(HistoryDir::Redo, count) == Some(
            "Restored "@ + decimal(count) + " images"@,
        ),
{
    reveal_strlit("Undone");
    reveal_strlit("Undone ");
    reveal_strlit("Result restored");
    reveal_strlit("Restored ");
    if count > 0 {
        let u = walk_text(HistoryDir::Undo, count)->0;
        let v = walk_text(HistoryDir::Redo, count)->0;
        assert(u.subrange(0, 6) =~= "Undone"@);
        assert(u[0] == 'U');
        assert(v[0] == 'R');
    }
}

/// Undo and redo change only the items they apply to, and a file is given up only by
/// an item that gave its result back, the one of its newest entry.
pub proof fn walks_leave_the_others_alone(
    a: BatchManager,
    b: BatchManager,
    dir: HistoryDir,
    files: Seq<Option<Vec<u8>>>,
    r: Walked,
    i: int,
)
    requires
        walked_all(a, b, dir, files, r),
        0 <= i < a.items@.len(),
    ensures
        !walks(a, i) ==> b.items@[i] == a.items@[i] && r.delete@[i] is None,
        dir is Undo && !undoable(a.items@[i]) ==> b.items@[i] == a.items@[i] && r.delete@[i] is None,
        dir is Redo && a.items@[i].redo_stack@.len() == 0 ==> b.items@[i] == a.items@[i]
            && r.delete@[i] is None,
        dir is Undo && r.delete@[i] is Some ==> r.delete@[i] == file_of(
            a.items@[i].history@.last().slot,
        ),
        dir is Redo && r.delete@[i] is Some ==> r.delete@[i] == file_of(
            a.items@[i].redo_stack@.last().slot,
        ),
        b.items@[i].id == a.items@[i].id,
        b.items@[i].settings == a.items@[i].settings,
        b.items@[i].source == a.items@[i].source,
{
    assert(r.delete@[i] == freed_file(walks(a, i), a.items@[i], dir, file_at(files, i)));
    assert(walked_if(walks(a, i), a.items@[i], b.items@[i], dir, file_at(files, i)));
}

/// Strokes are walked only with the brush on and only for the viewed item, whose mask
/// is then rerun; otherwise nothing changes.
pub proof fn strokes_are_walked_with_the_brush(
    a: BatchManager,
    b: BatchManager,
    p: LivePreview,
    q: LivePreview,
    brush_on: bool,
    dir: HistoryDir,
    now: u64,
    r: bool,
    i: int,
)
    requires
        brush_walked(a, b, p, q, brush_on, dir, now, r),
        0 <= i < a.items@.len(),
    ensures
        !brush_on ==> !r,
        !r ==> b.items@ == a.items@ && q.pending@ == p.pending@,
        r ==> a.viewed_index() is Some,
        r && i != a.viewed_index()->0 ==> b.items@[i] == a.items@[i],
        r && i == a.viewed_index()->0 && dir is Undo ==> {
            &&& a.items@[i].stroke_undo_stack@.len() > 0
            &&& b.items@[i].mask_correction == a.items@[i].stroke_undo_stack@.last()
            &&& b.items@[i].settings.correction_hash == crate::item::hash_of(
                b.items@[i].mask_correction,
            )
        },
        r && i == a.viewed_index()->0 && dir is Redo ==> {
            &&& a.items@[i].stroke_redo_stack@.len() > 0
            &&& b.items@[i].mask_correction == a.items@[i].stroke_redo_stack@.last()
        },
{
    if r && i == a.viewed_index()->0 {
        assert(stroke_walked(a.items@[i], b.items@[i], dir));
        assert(b.items@[i].mask_correction == b.items@[i].strokes().current);
        assert(a.items@[i].strokes().undo == a.items@[i].stroke_undo_stack@);
        assert(a.items@[i].strokes().redo == a.items@[i].stroke_redo_stack@);
    }
}

/// What a preview built anew is kept, and what it did not build stays; the tensors stay
/// in any case.
pub proof fn previews_leave_what_they_built(c: Caches, r: PreviewResult)
    ensures
        with_built(c, r).tensor == c.tensor,
        with_built(c, r).edge_tensors == c.edge_tensors,
        with_built(c, r).hot_edge == c.hot_edge,
        r.new_edge_mask is Some ==> with_built(c, r).edge_mask == r.new_edge_mask,
        r.new_edge_mask is None ==> with_built(c, r).edge_mask == c.edge_mask,
        r.new_masked_base is Some ==> with_built(c, r).masked_base == r.new_masked_base,
        r.new_masked_base is None ==> with_built(c, r).masked_base == c.masked_base,
{
}

/// A preview goes to the item it was made for and to no other; all items keep their
/// place and their id.
pub proof fn previews_go_to_their_item(
    s: Seq<BatchItem>,
    results: Seq<PreviewResult>,
    masks: Seq<MaskRecipe>,
    n: int,
    i: int,
)
    requires
        0 <= n <= results.len(),
        0 <= i < s.len(),
    ensures
        all_previewed(s, results, masks, n).len() == s.len(),
        all_previewed(s, results, masks, n)[i].id == s[i].id,
        (forall|k: int| 0 <= k < n ==> (#[trigger] results[k]).item_id != s[i].id)
            ==> all_previewed(s, results, masks, n)[i] == s[i],
        n > 0 && results[n - 1].item_id == s[i].id && (forall|j: int|
            0 <= j < i ==> (#[trigger] s[j]).id != s[i].id) ==> all_previewed(
            s,
            results,
            masks,
            n,
        )[i] == previewed(
            all_previewed(s, results, masks, n - 1)[i],
            results[n - 1],
            masks[n - 1],
        ),
    decreases n,
{
    if n > 0 {
        let t = all_previewed(s, results, masks, n - 1);
        let id = results[n - 1].item_id;
        previews_go_to_their_item(s, results, masks, n - 1, i);
        place_is_first(t, id);
        if let Some(p) = place_of(t, id) {
            assert(0 <= p < t.len() && t[p].id == id);
            if id == s[i].id && (forall|j: int| 0 <= j < i ==> (#[trigger] s[j]).id != s[i].id) {
                if p < i {
                    previews_go_to_their_item(s, results, masks, n - 1, p);
                    assert(s[p].id == s[i].id);
                }
                if p > i {
                    assert(t[i].id != id);
                }
            }
        } else {
            assert(t[i].id != id);
        }
    }
}

/// The file of the newest entry is given up exactly where its picture was brought back.
pub proof fn files_go_with_their_picture(
    asked: bool,
    a: BatchItem,
    dir: HistoryDir,
    file: Option<Seq<u8>>,
)
    ensures
        !asked ==> freed_file(asked, a, dir, file) is None,
        asked && dir is Redo && a.redo_stack@.len() > 0
            && a.redo_stack@.last().slot.picture(file) is Some ==> freed_file(asked, a, dir, file)
            == file_of(a.redo_stack@.last().slot),
        asked && dir is Undo && undoable(a) && a.history@.len() > 0
            && a.history@.last().slot.picture(file) is Some ==> freed_file(asked, a, dir, file)
            == file_of(a.history@.last().slot),
        dir is Undo && a.history@.len() > 0 && a.history@.last().slot.picture(file) is None
            ==> freed_file(asked, a, dir, file) is None,
        dir is Redo && a.redo_stack@.len() > 0 && a.redo_stack@.last().slot.picture(file) is None
            ==> freed_file(asked, a, dir, file) is None,
{
}

} // verus!
