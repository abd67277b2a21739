use prunr_app::history_manager::{HistoryDir, HistoryManager, PRESET_HISTORY_DEPTH};
use prunr_app::item::{
    push_bounded, BatchItem, BatchStatus, EdgeMask, HistoryEntry, ImageSource, PresetSnapshot,
};
use prunr_app::item_settings::ItemSettings;
use prunr_app::pipeline::{EdgeScale, LineMode, Scalar};
use prunr_app::pixmap::Pixmap;
use std::collections::VecDeque;
use std::sync::Arc;

fn scalar(v: f32) -> Scalar {
    Scalar::from_bits(v.to_bits())
}

fn snap(gamma: f32) -> PresetSnapshot {
    let mut s = ItemSettings::default();
    s.gamma = scalar(gamma);
    PresetSnapshot { settings: s, applied_preset: String::new() }
}

#[test]
fn push_bounded_drops_oldest_when_exceeding_depth() {
    let mut stack: VecDeque<PresetSnapshot> = VecDeque::new();
    for i in 0..(PRESET_HISTORY_DEPTH + 5) {
        push_bounded(&mut stack, snap(i as f32), PRESET_HISTORY_DEPTH);
    }
    assert_eq!(stack.len(), PRESET_HISTORY_DEPTH);
    assert_eq!(stack.front().unwrap().settings.gamma, scalar(5.0));
    assert_eq!(
        stack.back().unwrap().settings.gamma,
        scalar((PRESET_HISTORY_DEPTH + 4) as f32),
    );
}

#[test]
fn push_bounded_below_depth_keeps_every_entry() {
    let mut stack: VecDeque<PresetSnapshot> = VecDeque::new();
    push_bounded(&mut stack, snap(1.0), PRESET_HISTORY_DEPTH);
    push_bounded(&mut stack, snap(2.0), PRESET_HISTORY_DEPTH);
    push_bounded(&mut stack, snap(3.0), PRESET_HISTORY_DEPTH);
    assert_eq!(stack.len(), 3);
    assert_eq!(stack.front().unwrap().settings.gamma, scalar(1.0));
    assert_eq!(stack.back().unwrap().settings.gamma, scalar(3.0));
}

fn fixture(id: u64) -> BatchItem {
    BatchItem::new(
        id,
        "test.png".into(),
        ImageSource::Bytes(Arc::new(Vec::new())),
        (10, 10),
        ItemSettings::default(),
        String::new(),
    )
}

fn rgba(r: u8) -> Arc<Pixmap> {
    Arc::new(Pixmap::from_raw(2, 2, [r, 0, 0, 255].repeat(4)).unwrap())
}

#[test]
fn can_undo_false_when_pending() {
    let mut item = fixture(1);
    item.status = BatchStatus::Pending;
    item.result_rgba = Some(rgba(7));
    assert!(!HistoryManager::can_undo(&item));
}

#[test]
fn can_undo_true_on_done_with_result() {
    let mut item = fixture(1);
    item.status = BatchStatus::Done;
    item.result_rgba = Some(rgba(7));
    assert!(HistoryManager::can_undo(&item));
}

#[test]
fn can_undo_true_on_done_with_nonempty_history() {
    let mut item = fixture(1);
    item.status = BatchStatus::Done;
    item.history.push_back(HistoryEntry::new(rgba(1), None));
    assert!(HistoryManager::can_undo(&item));
}

#[test]
fn can_redo_false_until_undo() {
    let mut item = fixture(1);
    assert!(!HistoryManager::can_redo(&item));
    item.redo_stack.push_back(HistoryEntry::new(rgba(1), None));
    assert!(HistoryManager::can_redo(&item));
}

#[test]
fn seed_with_source_no_op_if_history_non_empty() {
    let mut item = fixture(1);
    item.history.push_back(HistoryEntry::new(rgba(99), None));
    item.source_rgba = Some(rgba(0));
    let before = item.history.len();
    HistoryManager::seed_with_source(&mut item);
    assert_eq!(item.history.len(), before, "should not push when history non-empty");
}

#[test]
fn seed_with_source_no_op_if_source_rgba_missing() {
    let mut item = fixture(1);
    HistoryManager::seed_with_source(&mut item);
    assert!(item.history.is_empty(), "should not push without source_rgba");
}

#[test]
fn seed_with_source_pushes_when_both_stacks_empty_and_source_present() {
    let mut item = fixture(1);
    item.source_rgba = Some(rgba(7));
    HistoryManager::seed_with_source(&mut item);
    assert_eq!(item.history.len(), 1);
    assert!(item.history.front().unwrap().recipe.is_none());
}

#[test]
fn archive_current_result_no_op_if_status_not_done() {
    let mut item = fixture(1);
    item.status = BatchStatus::Pending;
    item.result_rgba = Some(rgba(5));
    HistoryManager::archive_current_result(&mut item, 10, false);
    assert_eq!(item.history.len(), 0);
    assert!(item.result_rgba.is_some(), "result_rgba should be untouched");
}

#[test]
fn archive_current_result_pushes_to_history_and_clears_redo() {
    let mut item = fixture(1);
    item.status = BatchStatus::Done;
    item.result_rgba = Some(rgba(5));
    item.redo_stack.push_back(HistoryEntry::new(rgba(99), None));

    HistoryManager::archive_current_result(&mut item, 10, false);

    assert_eq!(item.history.len(), 1, "current pushed onto history");
    assert!(item.redo_stack.is_empty(), "redo cleared on fresh process branch");
    assert!(item.result_rgba.is_none(), "non-chain mode releases result_rgba");
}

#[test]
fn archive_current_result_chain_mode_keeps_result_rgba_for_next_step() {
    let mut item = fixture(1);
    item.status = BatchStatus::Done;
    item.result_rgba = Some(rgba(5));

    HistoryManager::archive_current_result(&mut item, 10, true);

    assert_eq!(item.history.len(), 1);
    assert!(item.result_rgba.is_some(), "chain mode keeps result_rgba populated");
}

#[test]
fn archive_current_result_enforces_max_depth() {
    let mut item = fixture(1);
    for _ in 0..5 {
        item.history.push_back(HistoryEntry::new(rgba(0), None));
    }
    item.status = BatchStatus::Done;
    item.result_rgba = Some(rgba(99));

    HistoryManager::archive_current_result(&mut item, 3, false);

    assert_eq!(item.history.len(), 3);
}

#[test]
fn archiving_returns_the_files_that_fell_off() {
    let mut item = fixture(1);
    item.history.push_back(
        HistoryEntry::new(rgba(0), None).demote_to_disk(Some("/tmp/1_0.zraw".to_string())),
    );
    item.status = BatchStatus::Done;
    item.result_rgba = Some(rgba(99));
    let dropped = HistoryManager::archive_current_result(&mut item, 1, false);
    assert_eq!(dropped, vec!["/tmp/1_0.zraw".to_string()]);
}

#[test]
fn undo_result_returns_false_if_status_not_done() {
    let mut item = fixture(1);
    item.status = BatchStatus::Pending;
    assert!(!HistoryManager::undo_result(&mut item, None).changed);
}

#[test]
fn undo_result_empty_history_transitions_to_pending() {
    let mut item = fixture(1);
    item.status = BatchStatus::Done;
    item.result_rgba = Some(rgba(7));

    assert!(HistoryManager::undo_result(&mut item, None).changed);
    assert_eq!(item.status, BatchStatus::Pending);
    assert!(item.result_rgba.is_none());
    assert_eq!(item.redo_stack.len(), 1, "current went to redo stack");
}

#[test]
fn undo_then_redo_round_trip_preserves_pixels() {
    let mut item = fixture(1);
    item.status = BatchStatus::Done;
    let original_pixels = rgba(42);
    item.result_rgba = Some(original_pixels.clone());
    item.history.push_back(HistoryEntry::new(rgba(0), None));
    item.history.push_back(HistoryEntry::new(rgba(11), None));

    assert!(HistoryManager::undo_result(&mut item, None).changed);
    assert_eq!(item.status, BatchStatus::Done);
    let after_undo = item.result_rgba.as_ref().expect("undo restored a result");
    assert_eq!(after_undo.data[..4], [11, 0, 0, 255]);

    assert!(HistoryManager::redo_result(&mut item, None).changed);
    assert_eq!(item.status, BatchStatus::Done);
    let after_redo = item.result_rgba.as_ref().expect("redo restored result");
    assert_eq!(after_redo.data, original_pixels.data);
}

#[test]
fn an_entry_in_a_file_is_restored_from_it() {
    let mut item = fixture(1);
    item.status = BatchStatus::Done;
    item.result_rgba = Some(rgba(42));
    item.history.push_back(HistoryEntry::new(rgba(0), None));
    let entry = HistoryEntry::new(rgba(11), None);
    let bytes = entry.slot.disk_bytes().expect("bytes to write");
    item.history.push_back(entry.demote_to_disk(Some("/tmp/1_1.zraw".to_string())));

    let step = HistoryManager::undo_result(&mut item, Some(&bytes));
    assert!(step.changed);
    assert_eq!(step.delete.as_deref(), Some("/tmp/1_1.zraw"));
    assert_eq!(item.result_rgba.as_ref().unwrap().data[..4], [11, 0, 0, 255]);
}

#[test]
fn redo_result_returns_false_if_redo_empty() {
    let mut item = fixture(1);
    assert!(!HistoryManager::redo_result(&mut item, None).changed);
}

#[test]
fn push_preset_adds_to_undo_and_clears_redo() {
    let mut item = fixture(1);
    item.preset_redo_stack.push_back(snap(99.0));
    HistoryManager::push_preset(&mut item, snap(1.5));
    assert_eq!(item.preset_undo_stack.len(), 1);
    assert_eq!(item.preset_undo_stack.front().unwrap().settings.gamma, scalar(1.5));
    assert!(item.preset_redo_stack.is_empty(), "fresh apply branches the timeline");
}

#[test]
fn swap_preset_returns_false_when_stack_empty() {
    let mut item = fixture(1);
    assert!(!HistoryManager::swap_preset(&mut item, HistoryDir::Undo));
    assert!(!HistoryManager::swap_preset(&mut item, HistoryDir::Redo));
}

#[test]
fn swap_preset_undo_pops_one_and_pushes_current_to_redo() {
    let mut item = fixture(1);
    item.settings.gamma = scalar(1.5);
    item.preset_undo_stack.push_back(snap(0.5));

    assert!(HistoryManager::swap_preset(&mut item, HistoryDir::Undo));

    assert_eq!(item.settings.gamma, scalar(0.5));
    assert_eq!(item.preset_redo_stack.len(), 1);
    assert_eq!(item.preset_redo_stack.front().unwrap().settings.gamma, scalar(1.5));

    assert!(HistoryManager::swap_preset(&mut item, HistoryDir::Redo));
    assert_eq!(item.settings.gamma, scalar(1.5));
}

#[test]
fn swap_preset_invalidates_edge_cache_on_line_mode_change() {
    let mut item = fixture(1);
    item.settings.line_mode = LineMode::Off;
    item.caches.edge_mask =
        Some(EdgeMask { handle: 1, line_strength_bits: 0, scale: EdgeScale::Fused });
    let mut snap_with_edges = ItemSettings::default();
    snap_with_edges.line_mode = LineMode::EdgesOnly;
    item.preset_undo_stack.push_back(PresetSnapshot {
        settings: snap_with_edges,
        applied_preset: String::new(),
    });

    assert!(HistoryManager::swap_preset(&mut item, HistoryDir::Undo));
    assert_eq!(item.settings.line_mode, LineMode::EdgesOnly);
    assert!(item.caches.edge_mask.is_none(), "line_mode change must invalidate edge cache");
}

#[test]
fn undo_does_nothing_without_a_result_or_a_history() {
    let mut item = BatchItem::new(
        1,
        "a.png".into(),
        ImageSource::Bytes(Arc::new(vec![])),
        (1, 1),
        ItemSettings::default(),
        String::new(),
    );
    item.status = BatchStatus::Done;
    assert!(!HistoryManager::can_undo(&item));
    let step = HistoryManager::undo_result(&mut item, None);
    assert!(!step.changed && step.delete.is_none());
    assert_eq!(item.status, BatchStatus::Done);
    assert!(item.redo_stack.is_empty());
}
