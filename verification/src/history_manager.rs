//! Undo and redo of one picture. Results and presets have stacks of their own,
//! so that a preset picked by accident can be taken back without touching the
//! pixels.
use vstd::prelude::*;
use std::collections::VecDeque;
use std::sync::Arc;
use crate::item::{
    file_view, newest, picture_view, push_bounded, stack_wf, BatchItem, BatchStatus, HistoryEntry,
    HistorySlot, PresetSnapshot,
};
use crate::item_settings::ItemSettings;
use crate::knob_catalog::CacheImpact;
use crate::pipeline::ProcessingRecipe;
use crate::pixmap::{share, Pixmap};

verus! {

/// Number of presets that can be undone.
pub const PRESET_HISTORY_DEPTH: usize = 20;

/// Direction in which the preset history is walked.
#[derive(Clone, Copy, Debug, PartialEq, Eq, Structural)]
pub enum HistoryDir {
    Undo,
    Redo,
}

/// What a walk through the result history did.
pub struct HistoryStep {
    /// Whether anything changed.
    pub changed: bool,
    /// A file that is no longer needed.
    pub delete: Option<String>,
}

/// Whether a stack is another one with the current result pushed on it, where
/// there is one.
pub open spec fn pushed(
    before: Seq<HistoryEntry>,
    after: Seq<HistoryEntry>,
    current: Option<Arc<Pixmap>>,
    recipe: Option<ProcessingRecipe>,
) -> bool {
    match current {
        None => after == before,
        Some(p) => {
            &&& after.len() == before.len() + 1
            &&& after.drop_last() == before
            &&& after.last().packs(p, recipe)
        },
    }
}

/// Whether everything but the result, its recipe, the status and the two result
/// stacks is as in another state.
pub open spec fn only_result_differs(a: BatchItem, b: BatchItem) -> bool {
    b == (BatchItem {
        result_rgba: b.result_rgba,
        applied_recipe: b.applied_recipe,
        status: b.status,
        history: b.history,
        redo_stack: b.redo_stack,
        ..a
    })
}

/// The file of a slot, where it has one.
pub open spec fn file_of(slot: HistorySlot) -> Option<String> {
    match slot {
        HistorySlot::OnDisk(e) => Some(e.path),
        _ => None,
    }
}

/// Whether `b` is `a` with its result undone. `file` is what the file of the
/// newest history entry holds, if it has one.
pub open spec fn undo_effect(a: BatchItem, b: BatchItem, file: Option<Seq<u8>>) -> bool {
    let h = a.history@;
    if !undoable(a) {
        b == a
    } else {
        &&& only_result_differs(a, b)
        &&& pushed(a.redo_stack@, b.redo_stack@, a.result_rgba, a.applied_recipe)
        &&& if h.len() == 0 {
            &&& b.history@ == h
            &&& b.status is Pending
            &&& b.result_rgba is None
            &&& b.applied_recipe is None
        } else {
            &&& b.history@ == h.drop_last()
            &&& if h.len() == 1 || h.last().slot.picture(file) is None {
                &&& b.status is Pending
                &&& b.result_rgba is None
                &&& b.applied_recipe is None
            } else {
                &&& b.status is Done
                &&& picture_view(b.result_rgba) == h.last().slot.picture(file)
                &&& b.applied_recipe == h.last().recipe
            }
        }
    }
}

/// Whether `b` is `a` with its result redone. `file` is what the file of the
/// newest redo entry holds, if it has one.
pub open spec fn redo_effect(a: BatchItem, b: BatchItem, file: Option<Seq<u8>>) -> bool {
    let r = a.redo_stack@;
    if r.len() == 0 {
        b == a
    } else {
        &&& only_result_differs(a, b)
        &&& pushed(a.history@, b.history@, a.result_rgba, a.applied_recipe)
        &&& b.redo_stack@ == r.drop_last()
        &&& b.status is Done
        &&& picture_view(b.result_rgba) == r.last().slot.picture(file)
        &&& b.applied_recipe == r.last().recipe
    }
}

/// Redoing takes back an undo: the picture, its recipe, the status and the redo
/// stack are as before. Unless the undo went back to the source, the history is
/// too, entry for entry and the newest picture for picture.
pub proof fn redo_takes_back_undo(
    a: BatchItem,
    b: BatchItem,
    c: BatchItem,
    undo_file: Option<Seq<u8>>,
    redo_file: Option<Seq<u8>>,
)
    requires
        a.status is Done,
        a.result_rgba is Some,
        undo_effect(a, b, undo_file),
        redo_effect(b, c, redo_file),
    ensures
        picture_view(c.result_rgba) == picture_view(a.result_rgba),
        c.applied_recipe == a.applied_recipe,
        c.status is Done,
        c.redo_stack@ == a.redo_stack@,
        b.status is Done ==> {
            &&& c.history@.len() == a.history@.len()
            &&& c.history@.drop_last() == a.history@.drop_last()
            &&& c.history@.last().slot.picture(None) == a.history@.last().slot.picture(undo_file)
            &&& c.history@.last().recipe == a.history@.last().recipe
        },
{
}

/// Undoing takes back a redo, as long as there is an older result to go back to.
pub proof fn undo_takes_back_redo(
    a: BatchItem,
    b: BatchItem,
    c: BatchItem,
    redo_file: Option<Seq<u8>>,
    undo_file: Option<Seq<u8>>,
)
    requires
        a.status is Done,
        a.result_rgba is Some,
        a.history@.len() > 0,
        a.redo_stack@.len() > 0,
        redo_effect(a, b, redo_file),
        undo_effect(b, c, undo_file),
    ensures
        picture_view(c.result_rgba) == picture_view(a.result_rgba),
        c.applied_recipe == a.applied_recipe,
        c.status is Done,
        c.history@ == a.history@,
{
}

/// Undo is offered exactly when it does something.
pub proof fn undo_is_offered_when_it_works(a: BatchItem, b: BatchItem, file: Option<Seq<u8>>)
    requires
        undo_effect(a, b, file),
    ensures
        undoable(a) <==> b != a,
{
    if undoable(a) {
        if a.history@.len() == 0 {
            assert(!(b.status is Done));
        } else {
            assert(b.history@.len() < a.history@.len());
        }
    }
}

/// Redo is offered exactly when it does something.
pub proof fn redo_is_offered_when_it_works(a: BatchItem, b: BatchItem, file: Option<Seq<u8>>)
    requires
        redo_effect(a, b, file),
    ensures
        a.redo_stack@.len() > 0 <==> b != a,
{
    if a.redo_stack@.len() > 0 {
        assert(b.redo_stack@.len() < a.redo_stack@.len());
    }
}

/// Whether there is anything to undo: the item is finished, and has a result or an
/// older one to go back to.
pub open spec fn undoable(item: BatchItem) -> bool {
    item.status is Done && (item.history@.len() > 0 || item.result_rgba is Some)
}

/// Files of the entries of a stack, in order.
pub open spec fn files(s: Seq<HistoryEntry>) -> Seq<String>
    decreases s.len(),
{
    if s.len() == 0 {
        Seq::empty()
    } else {
        match file_of(s.last().slot) {
            Some(path) => files(s.drop_last()).push(path),
            None => files(s.drop_last()),
        }
    }
}

/// Whether `b` is `a` with its history started from the source. Nothing changes
/// where there is a history already.
pub open spec fn seeded(a: BatchItem, b: BatchItem) -> bool {
    &&& b == (BatchItem { history: b.history, ..a })
    &&& if a.history@.len() > 0 || a.redo_stack@.len() > 0 {
        b.history == a.history
    } else {
        pushed(a.history@, b.history@, a.source_rgba, None)
    }
}

/// Whether `b` is `a` with its result put on the history, and `dropped` are the
/// files of the entries that fell off. Nothing changes unless `a` is finished.
pub open spec fn archived(
    a: BatchItem,
    b: BatchItem,
    max_depth: usize,
    chain_mode: bool,
    dropped: Seq<String>,
) -> bool {
    if !(a.status is Done) {
        b == a && dropped.len() == 0
    } else {
        &&& b == (BatchItem {
            history: b.history,
            redo_stack: b.redo_stack,
            result_rgba: if chain_mode {
                a.result_rgba
            } else {
                None
            },
            ..a
        })
        &&& b.redo_stack@.len() == 0
        &&& match a.result_rgba {
            None => {
                &&& b.history == a.history
                &&& dropped == files(a.redo_stack@)
            },
            Some(p) => exists|all: Seq<HistoryEntry>| #[trigger]
                pushed(a.history@, all, Some(p), a.applied_recipe) && b.history@ == newest(
                    all,
                    max_depth as int,
                ) && dropped == files(all.take(all.len() - b.history@.len())) + files(
                    a.redo_stack@,
                ),
        }
    }
}

/// Pushes an entry onto a stack and drops the oldest beyond `depth`. Returns the
/// files of the entries that were dropped.
fn push_entry(stack: &mut VecDeque<HistoryEntry>, entry: HistoryEntry, depth: usize) -> (r: Vec<String>)
    requires
        stack_wf(old(stack)@),
        entry.slot.wf(),
    ensures
        stack_wf(final(stack)@),
        final(stack)@ == newest(old(stack)@.push(entry), depth as int),
        r@ == files(
            old(stack)@.push(entry).take(old(stack)@.len() + 1 - final(stack)@.len()),
        ),
{
    stack.push_back(entry);
    let ghost all = stack@;
    let ghost mut k: int = 0;
    let mut dropped: Vec<String> = Vec::new();
    proof {
        assert(all.skip(0) =~= all);
        assert(all.take(0) =~= Seq::empty());
    }
    while stack.len() > depth
        invariant
            0 <= k <= all.len(),
            stack_wf(all),
            stack@ == all.skip(k),
            k > 0 ==> stack@.len() >= depth,
            dropped@ == files(all.take(k)),
        decreases stack@.len(),
    {
        let old_entry = stack.pop_front().unwrap();
        proof {
            assert(all.skip(k).subrange(1, all.len() - k) =~= all.skip(k + 1));
            assert(all.take(k + 1).drop_last() =~= all.take(k));
            assert(all.take(k + 1).last() == old_entry);
            k = k + 1;
        }
        if let Some(path) = old_entry.cleanup() {
            dropped.push(path);
        }
    }
    proof {
        assert(stack@ =~= newest(all, depth as int));
        assert(all.take(all.len() - stack@.len()) =~= all.take(k));
    }
    dropped
}

/// Empties a stack. Returns the files of its entries.
pub(crate) fn drop_entries(stack: &mut VecDeque<HistoryEntry>) -> (r: Vec<String>)
    ensures
        final(stack)@.len() == 0,
        r@ == files(old(stack)@),
{
    let ghost all = stack@;
    let ghost mut k: int = 0;
    let mut dropped: Vec<String> = Vec::new();
    proof {
        assert(all.skip(0) =~= all);
        assert(all.take(0) =~= Seq::empty());
    }
    while stack.len() > 0
        invariant
            0 <= k <= all.len(),
            stack@ == all.skip(k),
            dropped@ == files(all.take(k)),
        decreases stack@.len(),
    {
        let entry = stack.pop_front().unwrap();
        proof {
            assert(all.skip(k).subrange(1, all.len() - k) =~= all.skip(k + 1));
            assert(all.take(k + 1).drop_last() =~= all.take(k));
            assert(all.take(k + 1).last() == entry);
            k = k + 1;
        }
        if let Some(path) = entry.cleanup() {
            dropped.push(path);
        }
    }
    assert(all.take(k) =~= all);
    dropped
}

/// Pushes the current result onto a stack, where there is one.
fn push_current(
    stack: &mut VecDeque<HistoryEntry>,
    current: Option<Arc<Pixmap>>,
    recipe: Option<ProcessingRecipe>,
)
    requires
        stack_wf(old(stack)@),
        current matches Some(p) ==> p.wf(),
    ensures
        stack_wf(final(stack)@),
        pushed(old(stack)@, final(stack)@, current, recipe),
{
    if let Some(p) = current {
        let entry = HistoryEntry::new(p, recipe);
        stack.push_back(entry);
        assert(stack@.drop_last() =~= old(stack)@);
    }
}

/// What the newest entry of a stack gave back.
struct Popped {
    image: Option<Arc<Pixmap>>,
    recipe: Option<ProcessingRecipe>,
    delete: Option<String>,
}

/// Takes the newest entry off a stack and restores its picture.
fn pop_entry(stack: &mut VecDeque<HistoryEntry>, file: Option<&Vec<u8>>) -> (r: Popped)
    requires
        old(stack)@.len() > 0,
        stack_wf(old(stack)@),
    ensures
        final(stack)@ == old(stack)@.drop_last(),
        stack_wf(final(stack)@),
        picture_view(r.image) == old(stack)@.last().slot.picture(file_view(file)),
        r.image matches Some(p) ==> p.wf(),
        r.recipe == old(stack)@.last().recipe,
        r.delete == if r.image is Some {
            file_of(old(stack)@.last().slot)
        } else {
            None
        },
{
    let entry = stack.pop_back().unwrap();
    proof {
        let h = old(stack)@;
        assert(h.subrange(0, h.len() - 1) =~= h.drop_last());
        assert(h.last().slot.wf());
    }
    let (slot, recipe) = entry.into_parts();
    let restored = slot.into_rgba(file);
    Popped { image: restored.image, recipe, delete: restored.delete }
}

/// Policy of the undo stacks of an item.
pub struct HistoryManager;

impl HistoryManager {
    /// Whether undo is offered.
    pub fn can_undo(item: &BatchItem) -> (r: bool)
        ensures
            r == undoable(*item),
    {
        match item.status {
            BatchStatus::Done => item.history.len() > 0 || item.result_rgba.is_some(),
            _ => false,
        }
    }

    /// Whether redo is offered.
    pub fn can_redo(item: &BatchItem) -> (r: bool)
        ensures
            r == (item.redo_stack@.len() > 0),
    {
        item.redo_stack.len() > 0
    }

    /// Starts the history with the source, without a recipe. Nothing happens
    /// where there is a history already or the source is not decoded.
    pub fn seed_with_source(item: &mut BatchItem)
        requires
            old(item).wf(),
        ensures
            final(item).wf(),
            seeded(*old(item), *final(item)),
    {
        if item.history.len() > 0 || item.redo_stack.len() > 0 {
            return;
        }
        if let Some(src) = &item.source_rgba {
            let entry = HistoryEntry::new(share(src), None);
            item.history.push_back(entry);
            assert(item.history@.drop_last() =~= old(item).history@);
        }
    }

    /// Before a finished item is processed again: puts the result and its recipe
    /// on the history and forgets what was undone. At most `max_depth` entries
    /// stay. In chain mode the result is kept as the input of the next step.
    /// Returns the files that are no longer needed.
    pub fn archive_current_result(item: &mut BatchItem, max_depth: usize, chain_mode: bool) -> (r:
        Vec<String>)
        requires
            old(item).wf(),
        ensures
            final(item).wf(),
            archived(*old(item), *final(item), max_depth, chain_mode, r@),
    {
        match item.status {
            BatchStatus::Done => {},
            _ => {
                return Vec::new();
            },
        }
        let mut dropped: Vec<String> = Vec::new();
        if let Some(current) = item.result_rgba.take() {
            if chain_mode {
                item.result_rgba = Some(share(&current));
            }
            let entry = HistoryEntry::new(current, item.applied_recipe);
            dropped = push_entry(&mut item.history, entry, max_depth);
            proof {
                let all = old(item).history@.push(entry);
                assert(all.drop_last() =~= old(item).history@);
                assert(pushed(old(item).history@, all, old(item).result_rgba, old(item).applied_recipe));
            }
        }
        let mut rest = drop_entries(&mut item.redo_stack);
        let ghost first = dropped@;
        dropped.append(&mut rest);
        assert(Seq::<String>::empty() + files(old(item).redo_stack@) =~= files(
            old(item).redo_stack@,
        ));
        dropped
    }

    /// Goes back to the result before. The current one can be redone. With no
    /// older result, or one that cannot be restored, the item is as before
    /// processing. Where there is nothing to undo, nothing changes. `file` is what the file of the newest history entry holds, if
    /// it has one that could be read.
    pub fn undo_result(item: &mut BatchItem, file: Option<&Vec<u8>>) -> (r: HistoryStep)
        requires
            old(item).wf(),
        ensures
            final(item).wf(),
            undo_effect(*old(item), *final(item), file_view(file)),
            r.changed == undoable(*old(item)),
            !undoable(*old(item)) ==> *final(item) == *old(item),
            r.delete == if old(item).status is Done && old(item).history@.len() > 0
                && old(item).history@.last().slot.picture(file_view(file)) is Some {
                file_of(old(item).history@.last().slot)
            } else {
                None
            },
    {
        if !HistoryManager::can_undo(item) {
            return HistoryStep { changed: false, delete: None };
        }
        let recipe = item.applied_recipe.take();
        let current = item.result_rgba.take();
        push_current(&mut item.redo_stack, current, recipe);
        if item.history.len() == 0 {
            item.status = BatchStatus::Pending;
            return HistoryStep { changed: true, delete: None };
        }
        let popped = pop_entry(&mut item.history, file);
        if popped.image.is_none() || item.history.len() == 0 {
            item.status = BatchStatus::Pending;
        } else {
            item.result_rgba = popped.image;
            item.applied_recipe = popped.recipe;
        }
        HistoryStep { changed: true, delete: popped.delete }
    }

    /// Goes forward to the result that was undone last. `file` is what the file
    /// of that entry holds, if it has one that could be read.
    pub fn redo_result(item: &mut BatchItem, file: Option<&Vec<u8>>) -> (r: HistoryStep)
        requires
            old(item).wf(),
        ensures
            final(item).wf(),
            redo_effect(*old(item), *final(item), file_view(file)),
            r.changed == (old(item).redo_stack@.len() > 0),
            r.delete == if old(item).redo_stack@.len() > 0
                && old(item).redo_stack@.last().slot.picture(file_view(file)) is Some {
                file_of(old(item).redo_stack@.last().slot)
            } else {
                None
            },
    {
        if item.redo_stack.len() == 0 {
            return HistoryStep { changed: false, delete: None };
        }
        let recipe = item.applied_recipe.take();
        let current = item.result_rgba.take();
        push_current(&mut item.history, current, recipe);
        let popped = pop_entry(&mut item.redo_stack, file);
        item.result_rgba = popped.image;
        item.applied_recipe = popped.recipe;
        item.status = BatchStatus::Done;
        HistoryStep { changed: true, delete: popped.delete }
    }

    /// Remembers the settings before a preset is applied. What was undone before
    /// is forgotten.
    pub fn push_preset(item: &mut BatchItem, snap: PresetSnapshot)
        ensures
            presets_of(*final(item)) == (PresetHistory {
                undo: newest(old(item).preset_undo_stack@.push(snap), PRESET_HISTORY_DEPTH as int),
                redo: Seq::empty(),
                ..presets_of(*old(item))
            }),
            *final(item) == (BatchItem {
                preset_undo_stack: final(item).preset_undo_stack,
                preset_redo_stack: final(item).preset_redo_stack,
                ..*old(item)
            }),
    {
        push_bounded(&mut item.preset_undo_stack, snap, PRESET_HISTORY_DEPTH);
        item.preset_redo_stack.clear();
    }

    /// Swaps the settings with the newest remembered ones in a direction. Says
    /// whether there were any. Edge caches do not survive a change of the line
    /// mode: the edge detector sees another picture then.
    pub fn swap_preset(item: &mut BatchItem, dir: HistoryDir) -> (changed: bool)
        ensures
            swap_effect(*old(item), *final(item), dir),
            changed == (match dir {
                HistoryDir::Undo => old(item).preset_undo_stack@.len() > 0,
                HistoryDir::Redo => old(item).preset_redo_stack@.len() > 0,
            }),
            !changed ==> *final(item) == *old(item),
    {
        match dir {
            HistoryDir::Undo => undo_preset(item),
            HistoryDir::Redo => redo_preset(item),
        }
    }
}

/// Puts a snapshot into effect.
fn put_snapshot(item: &mut BatchItem, snapshot: PresetSnapshot)
    ensures
        *final(item) == (BatchItem {
            settings: snapshot.settings,
            applied_preset: snapshot.applied_preset,
            ..(if snapshot.settings.line_mode != old(item).settings.line_mode {
                old(item).after_impact(CacheImpact::EdgeCache)
            } else {
                *old(item)
            })
        }),
{
    if snapshot.settings.line_mode != item.settings.line_mode {
        item.invalidate_edge_cache();
    }
    item.settings = snapshot.settings;
    item.applied_preset = snapshot.applied_preset;
}

/// What is applied to an item, as the stacks remember it.
fn current_snapshot(item: &BatchItem) -> (r: PresetSnapshot)
    ensures
        r == presets_of(*item).current(),
{
    PresetSnapshot { settings: item.settings, applied_preset: item.applied_preset.clone() }
}

/// Takes the newest snapshot off a stack.
fn pop_snapshot(stack: &mut VecDeque<PresetSnapshot>) -> (r: PresetSnapshot)
    requires
        old(stack)@.len() > 0,
    ensures
        r == old(stack)@.last(),
        final(stack)@ == old(stack)@.drop_last(),
{
    let s = stack.pop_back().unwrap();
    proof {
        let u = old(stack)@;
        assert(u.subrange(0, u.len() - 1) =~= u.drop_last());
    }
    s
}

/// Swaps the settings with the newest on the undo stack.
fn undo_preset(item: &mut BatchItem) -> (changed: bool)
    ensures
        swap_effect(*old(item), *final(item), HistoryDir::Undo),
        changed == (old(item).preset_undo_stack@.len() > 0),
        !changed ==> *final(item) == *old(item),
{
    if item.preset_undo_stack.len() == 0 {
        return false;
    }
    let current = current_snapshot(item);
    let snapshot = pop_snapshot(&mut item.preset_undo_stack);
    push_bounded(&mut item.preset_redo_stack, current, PRESET_HISTORY_DEPTH);
    put_snapshot(item, snapshot);
    true
}

/// Swaps the settings with the newest on the redo stack.
fn redo_preset(item: &mut BatchItem) -> (changed: bool)
    ensures
        swap_effect(*old(item), *final(item), HistoryDir::Redo),
        changed == (old(item).preset_redo_stack@.len() > 0),
        !changed ==> *final(item) == *old(item),
{
    if item.preset_redo_stack.len() == 0 {
        return false;
    }
    let current = current_snapshot(item);
    let snapshot = pop_snapshot(&mut item.preset_redo_stack);
    push_bounded(&mut item.preset_undo_stack, current, PRESET_HISTORY_DEPTH);
    put_snapshot(item, snapshot);
    true
}

/// Whether `b` is `a` with its presets swapped in a direction. Edge caches do
/// not survive a change of the line mode.
pub open spec fn swap_effect(a: BatchItem, b: BatchItem, dir: HistoryDir) -> bool {
    let mid = if b.settings.line_mode != a.settings.line_mode {
        a.after_impact(CacheImpact::EdgeCache)
    } else {
        a
    };
    &&& presets_of(b) == presets_of(a).swapped(dir)
    &&& b == (BatchItem {
        settings: b.settings,
        applied_preset: b.applied_preset,
        preset_undo_stack: b.preset_undo_stack,
        preset_redo_stack: b.preset_redo_stack,
        ..mid
    })
}

/// The presets of an item: what is applied and the two stacks.
pub struct PresetHistory {
    pub settings: ItemSettings,
    pub applied: String,
    pub undo: Seq<PresetSnapshot>,
    pub redo: Seq<PresetSnapshot>,
}

/// The presets of an item.
pub open spec fn presets_of(item: BatchItem) -> PresetHistory {
    PresetHistory {
        settings: item.settings,
        applied: item.applied_preset,
        undo: item.preset_undo_stack@,
        redo: item.preset_redo_stack@,
    }
}

impl PresetHistory {
    /// What is applied, as the stacks remember it.
    pub open spec fn current(self) -> PresetSnapshot {
        PresetSnapshot { settings: self.settings, applied_preset: self.applied }
    }

    /// After a swap in a direction.
    pub open spec fn swapped(self, dir: HistoryDir) -> PresetHistory {
        match dir {
            HistoryDir::Undo => if self.undo.len() == 0 {
                self
            } else {
                PresetHistory {
                    settings: self.undo.last().settings,
                    applied: self.undo.last().applied_preset,
                    undo: self.undo.drop_last(),
                    redo: newest(self.redo.push(self.current()), PRESET_HISTORY_DEPTH as int),
                }
            },
            HistoryDir::Redo => if self.redo.len() == 0 {
                self
            } else {
                PresetHistory {
                    settings: self.redo.last().settings,
                    applied: self.redo.last().applied_preset,
                    redo: self.redo.drop_last(),
                    undo: newest(self.undo.push(self.current()), PRESET_HISTORY_DEPTH as int),
                }
            },
        }
    }

    /// No more presets are kept than can be undone.
    pub open spec fn bounded(self) -> bool {
        self.undo.len() + self.redo.len() <= PRESET_HISTORY_DEPTH
    }
}

/// The number of presets kept stays within bounds whatever is done.
pub proof fn presets_stay_bounded(p: PresetHistory, snap: PresetSnapshot, dir: HistoryDir)
    requires
        p.bounded(),
    ensures
        p.swapped(dir).bounded(),
        (PresetHistory {
            undo: newest(p.undo.push(snap), PRESET_HISTORY_DEPTH as int),
            redo: Seq::empty(),
            ..p
        }).bounded(),
{
}

/// Swapping back and forth through the preset history changes nothing.
pub proof fn preset_swaps_are_inverse(p: PresetHistory)
    requires
        p.bounded(),
    ensures
        p.undo.len() > 0 ==> p.swapped(HistoryDir::Undo).swapped(HistoryDir::Redo) == p,
        p.redo.len() > 0 ==> p.swapped(HistoryDir::Redo).swapped(HistoryDir::Undo) == p,
{
    if p.undo.len() > 0 {
        let t = p.swapped(HistoryDir::Undo);
        assert(t.redo.last() == p.current());
        assert(t.redo.drop_last() =~= p.redo);
        assert(t.undo.push(t.current()) =~= p.undo);
    }
    if p.redo.len() > 0 {
        let t = p.swapped(HistoryDir::Redo);
        assert(t.undo.last() == p.current());
        assert(t.undo.drop_last() =~= p.undo);
        assert(t.redo.push(t.current()) =~= p.redo);
    }
}

/// Undo shows the result before the present one, with its recipe; the present one is the
/// next to be redone. At the bottom of the history lies the source, where the item is as
/// before processing.
pub proof fn undo_goes_back_one_result(a: BatchItem, b: BatchItem, file: Option<Seq<u8>>)
    requires
        undo_effect(a, b, file),
        undoable(a),
    ensures
        a.history@.len() >= 2 ==> (a.history@.last().slot.picture(file) matches Some(p) ==> {
            &&& picture_view(b.result_rgba) == Some(p)
            &&& b.applied_recipe == a.history@.last().recipe
            &&& b.status is Done
        }),
        a.history@.len() <= 1 ==> b.status is Pending && b.result_rgba is None && b.applied_recipe
            is None,
        a.result_rgba matches Some(p) ==> {
            &&& b.redo_stack@.len() == a.redo_stack@.len() + 1
            &&& b.redo_stack@.last().slot.picture(None) == Some(p@)
            &&& b.redo_stack@.last().recipe == a.applied_recipe
        },
        a.result_rgba is None ==> b.redo_stack@ == a.redo_stack@,
        b.settings == a.settings,
        b.caches == a.caches,
        b.source_rgba == a.source_rgba,
{
}

/// Redo shows the result that was undone last, with its recipe; the present one goes back
/// onto the history.
pub proof fn redo_goes_forward_one_result(a: BatchItem, b: BatchItem, file: Option<Seq<u8>>)
    requires
        redo_effect(a, b, file),
        a.redo_stack@.len() > 0,
    ensures
        b.status is Done,
        picture_view(b.result_rgba) == a.redo_stack@.last().slot.picture(file),
        b.applied_recipe == a.redo_stack@.last().recipe,
        b.redo_stack@.len() == a.redo_stack@.len() - 1,
        a.result_rgba matches Some(p) ==> {
            &&& b.history@.len() == a.history@.len() + 1
            &&& b.history@.last().slot.picture(None) == Some(p@)
            &&& b.history@.last().recipe == a.applied_recipe
        },
        b.settings == a.settings,
        b.caches == a.caches,
{
}

/// A walk through presets puts the newest remembered settings into effect, with the name
/// of their preset, and remembers the present ones on the other side.
pub proof fn preset_walks_bring_settings_back(p: PresetHistory)
    ensures
        p.undo.len() > 0 ==> {
            let q = p.swapped(HistoryDir::Undo);
            &&& q.settings == p.undo.last().settings
            &&& q.applied == p.undo.last().applied_preset
            &&& q.undo == p.undo.drop_last()
            &&& q.redo.len() > 0 && q.redo.last().settings == p.settings
                && q.redo.last().applied_preset == p.applied
        },
        p.redo.len() > 0 ==> {
            let q = p.swapped(HistoryDir::Redo);
            &&& q.settings == p.redo.last().settings
            &&& q.applied == p.redo.last().applied_preset
            &&& q.redo == p.redo.drop_last()
            &&& q.undo.len() > 0 && q.undo.last().settings == p.settings
                && q.undo.last().applied_preset == p.applied
        },
        p.undo.len() == 0 ==> p.swapped(HistoryDir::Undo) == p,
        p.redo.len() == 0 ==> p.swapped(HistoryDir::Redo) == p,
{
}

/// A change of the line mode by a walk through presets drops the edges, which belong to
/// the mode before; any other walk keeps every cache.
pub proof fn preset_walks_keep_fitting_caches(a: BatchItem, b: BatchItem, dir: HistoryDir)
    requires
        swap_effect(a, b, dir),
    ensures
        b.caches.tensor == a.caches.tensor,
        b.settings.line_mode == a.settings.line_mode ==> b.caches == a.caches,
        b.settings.line_mode != a.settings.line_mode ==> b.caches.edge_tensors is None
            && b.caches.edge_mask is None,
        b.result_rgba == a.result_rgba,
        b.history == a.history,
        b.applied_recipe == a.applied_recipe,
{
}

/// The result of a finished item goes on top of its history with its recipe, there is
/// nothing to redo any more, and the result stays in place only in a chain. An item
/// that is not finished is left alone.
pub proof fn finished_results_are_archived(
    a: BatchItem,
    b: BatchItem,
    max_depth: usize,
    chain_mode: bool,
    dropped: Seq<String>,
)
    requires
        archived(a, b, max_depth, chain_mode, dropped),
    ensures
        !(a.status is Done) ==> b == a && dropped.len() == 0,
        a.status is Done ==> b.redo_stack@.len() == 0,
        a.status is Done && chain_mode ==> b.result_rgba == a.result_rgba,
        a.status is Done && !chain_mode ==> b.result_rgba is None,
        a.status is Done && max_depth > 0 && a.result_rgba is Some ==> {
            &&& b.history@.len() > 0
            &&& b.history@.len() <= max_depth
            &&& b.history@.last().packs(a.result_rgba->0, a.applied_recipe)
        },
        a.status is Done && a.result_rgba is None ==> b.history == a.history,
        b.id == a.id && b.settings == a.settings && b.status == a.status && b.caches == a.caches
            && b.applied_recipe == a.applied_recipe && b.source_rgba == a.source_rgba,
{
    if a.status is Done && a.result_rgba is Some {
        let p = a.result_rgba->0;
        let all = choose|all: Seq<HistoryEntry>| #[trigger]
            pushed(a.history@, all, Some(p), a.applied_recipe) && b.history@ == newest(
                all,
                max_depth as int,
            ) && dropped == files(all.take(all.len() - b.history@.len())) + files(a.redo_stack@);
        assert(all.len() > 0);
        if max_depth > 0 {
            crate::item::newest_entries_are_kept(all, max_depth as int);
        }
    }
}

/// A history starts with the source, once: an item that has one already keeps it.
pub proof fn histories_start_once(a: BatchItem, b: BatchItem)
    requires
        seeded(a, b),
    ensures
        a.history@.len() > 0 || a.redo_stack@.len() > 0 ==> b.history == a.history,
        a.history@.len() == 0 && a.redo_stack@.len() == 0 && a.source_rgba is None
            ==> b.history@.len() == 0,
        a.history@.len() == 0 && a.redo_stack@.len() == 0 && a.source_rgba is Some ==> {
            &&& b.history@.len() == 1
            &&& b.history@[0].packs(a.source_rgba->0, None)
        },
        b.result_rgba == a.result_rgba && b.redo_stack == a.redo_stack && b.status == a.status,
{
}

/// The files of a stack are those of its entries on disk, and no others.
pub proof fn files_are_those_of_the_entries(s: Seq<HistoryEntry>, path: String)
    ensures
        files(s).contains(path) <==> exists|i: int|
            0 <= i < s.len() && file_of((#[trigger] s[i]).slot) == Some(path),
        files(s).len() <= s.len(),
    decreases s.len(),
{
    if s.len() > 0 {
        let t = s.drop_last();
        files_are_those_of_the_entries(t, path);
        let a = files(t);
        let b = files(s);
        if a.contains(path) {
            let k = choose|k: int| 0 <= k < a.len() && a[k] == path;
            assert(b[k] == path);
            let i = choose|i: int|
                0 <= i < t.len() && file_of((#[trigger] t[i]).slot) == Some(path);
            assert(s[i] == t[i]);
        }
        if file_of(s.last().slot) == Some(path) {
            assert(b[b.len() - 1] == path);
            assert(s[s.len() - 1].slot == s.last().slot);
        }
        if b.contains(path) && !a.contains(path) {
            assert(file_of(s.last().slot) == Some(path));
        }
        if exists|i: int| 0 <= i < s.len() && file_of((#[trigger] s[i]).slot) == Some(path) {
            let i = choose|i: int|
                0 <= i < s.len() && file_of((#[trigger] s[i]).slot) == Some(path);
            if i < t.len() {
                assert(t[i] == s[i]);
            }
        }
    }
}

} // verus!
