use prunr_app::cli::Background;
use prunr_app::item::{
    bg_image_content_hash, BatchItem, BatchStatus, CachedTensor, EdgeMask, HistoryEntry,
    HistorySlot, ImageSource, MaskCorrection, ProcessResult, STROKE_HISTORY_DEPTH,
};
use prunr_app::item_settings::ItemSettings;
use prunr_app::knob_catalog::CacheImpact;
use prunr_app::pipeline::{EdgeScale, ModelKind, ProcessingRecipe, Rgb, Rgba};
use prunr_app::pixmap::{PixelLayout, Pixmap, RawImage};
use std::collections::hash_map::DefaultHasher;
use std::hash::{Hash, Hasher};
use std::sync::Arc;

fn fixture_item(id: u64) -> BatchItem {
    BatchItem::new(
        id,
        "test.png".to_string(),
        ImageSource::Bytes(Arc::new(Vec::new())),
        (100, 100),
        ItemSettings::default(),
        String::new(),
    )
}

#[test]
fn invalidate_edge_cache_clears_both_atomically() {
    let mut item = fixture_item(1);
    item.caches.edge_mask =
        Some(EdgeMask { handle: 1, line_strength_bits: 0, scale: EdgeScale::Fused });
    assert!(item.caches.edge_mask.is_some());
    item.invalidate_edge_cache();
    assert!(item.caches.edge_tensors.is_none());
    assert!(item.caches.edge_mask.is_none());
}

#[test]
fn reset_result_caches_clears_display_fields_only() {
    let mut item = fixture_item(1);
    item.caches.tensor = Some(CachedTensor { handle: 1, size: 10 });
    item.drawn.thumb_pending = true;
    item.drawn.source_tex_pending = true;
    item.drawn.result_tex_pending = true;
    item.drawn.decode_pending = true;
    item.reset_result_caches();
    assert!(!item.drawn.result_texture);
    assert!(!item.drawn.thumb_texture);
    assert!(!item.drawn.thumb_pending);
    assert!(!item.drawn.source_tex_pending);
    assert!(!item.drawn.result_tex_pending);
    assert!(!item.drawn.decode_pending);
    assert!(item.caches.tensor.is_some(), "the tensor stays");
}

#[test]
fn cache_size_zero_when_caches_empty() {
    let item = fixture_item(1);
    assert_eq!(item.cache_size(), 0);
}

#[test]
fn cache_size_adds_both_tensors() {
    let mut item = fixture_item(1);
    item.caches.tensor = Some(CachedTensor { handle: 1, size: 10 });
    item.caches.edge_tensors = Some(CachedTensor { handle: 2, size: 7 });
    assert_eq!(item.cache_size(), 17);
    item.apply_cache_impact(CacheImpact::SegCache);
    assert_eq!(item.cache_size(), 7);
}

fn fixture_recipe() -> ProcessingRecipe {
    ItemSettings::default().current_recipe(ModelKind::Silueta, false)
}

fn plain(w: u32, h: u32, p: [u8; 4]) -> Pixmap {
    Pixmap::from_raw(w, h, p.repeat((w * h) as usize)).unwrap()
}

fn fixture_process_result(provider: &str) -> ProcessResult {
    ProcessResult {
        rgba_image: plain(2, 2, [0, 0, 0, 255]),
        active_provider: provider.to_string(),
    }
}

#[test]
fn apply_tier_result_success_sets_done_and_returns_provider() {
    let mut item = fixture_item(1);
    item.status = BatchStatus::Processing;

    let provider =
        item.apply_tier_result(Ok(fixture_process_result("CUDA")), None, None, fixture_recipe());

    assert_eq!(provider.as_deref(), Some("CUDA"));
    assert_eq!(item.status, BatchStatus::Done);
    assert!(item.result_rgba.is_some());
    assert!(item.applied_recipe.is_some());
}

#[test]
fn apply_tier_result_tier2_rerun_returns_none_for_empty_provider() {
    let mut item = fixture_item(1);
    item.status = BatchStatus::Processing;

    let provider =
        item.apply_tier_result(Ok(fixture_process_result("")), None, None, fixture_recipe());

    assert!(provider.is_none());
    assert_eq!(item.status, BatchStatus::Done);
}

#[test]
fn apply_tier_result_success_keeps_source_when_not_selected() {
    let mut item = fixture_item(1);
    item.status = BatchStatus::Processing;
    item.source_rgba = Some(Arc::new(plain(1, 1, [0, 0, 0, 0])));

    let _ =
        item.apply_tier_result(Ok(fixture_process_result("CUDA")), None, None, fixture_recipe());

    assert!(item.source_rgba.is_some(), "source_rgba must stay for live preview");
}

#[test]
fn apply_tier_result_success_keeps_source_when_selected() {
    let mut item = fixture_item(1);
    item.status = BatchStatus::Processing;
    item.selected = true;
    item.source_rgba = Some(Arc::new(plain(1, 1, [0, 0, 0, 0])));

    let _ =
        item.apply_tier_result(Ok(fixture_process_result("CUDA")), None, None, fixture_recipe());

    assert!(item.source_rgba.is_some(), "source_rgba must stay populated for the selected item");
}

#[test]
fn apply_tier_result_error_clears_recipe_and_tensors_for_fresh_retry() {
    let mut item = fixture_item(1);
    item.status = BatchStatus::Processing;
    item.applied_recipe = Some(fixture_recipe());

    let provider = item.apply_tier_result(Err("boom".to_string()), None, None, fixture_recipe());

    assert!(provider.is_none());
    assert!(matches!(item.status, BatchStatus::Error(ref e) if e == "boom"));
    assert!(item.caches.tensor.is_none());
    assert!(item.caches.edge_tensors.is_none());
    assert!(
        item.applied_recipe.is_none(),
        "applied_recipe must be cleared so that a retry is a full run"
    );
}

#[test]
fn image_source_load_bytes_for_bytes_variant_returns_same_arc() {
    let bytes = Arc::new(vec![0xDE, 0xAD, 0xBE, 0xEF]);
    let source = ImageSource::Bytes(bytes.clone());
    let loaded = source.inline_bytes().expect("Bytes variant must succeed");
    assert!(Arc::ptr_eq(&loaded, &bytes), "Bytes load must return the same Arc, no realloc");
}

#[test]
fn image_source_estimated_size_for_bytes_returns_len() {
    let source = ImageSource::Bytes(Arc::new(vec![0u8; 1234]));
    assert_eq!(source.estimated_size(None), 1234);
}

#[test]
fn image_source_path_estimated_size_zero_on_missing_file() {
    let source = ImageSource::Path("/tmp/prunr-item-missing-DOES-NOT-EXIST.bin".to_string());
    assert_eq!(source.estimated_size(None), 0);
    assert_eq!(source.estimated_size(Some(38)), 38);
    assert!(source.inline_bytes().is_none());
}

#[test]
fn history_entry_into_parts_round_trips_construction() {
    let rgba = Arc::new(plain(2, 2, [10, 20, 30, 255]));
    let entry = HistoryEntry::new(rgba.clone(), None);
    let (slot, recipe) = entry.into_parts();
    assert!(recipe.is_none());
    let recovered = slot.into_rgba(None).image.expect("compressed slot must rehydrate");
    assert_eq!((recovered.width, recovered.height), (2, 2));
    assert_eq!(recovered.data, rgba.data);
}

#[test]
fn history_slot_default_is_inmemory_one_by_one_placeholder() {
    let slot = HistorySlot::default();
    match slot {
        HistorySlot::InMemory(ref rgba) => assert_eq!((rgba.width, rgba.height), (1, 1)),
        HistorySlot::Compressed(_) => panic!("expected InMemory, got Compressed"),
        HistorySlot::OnDisk(_) => panic!("expected InMemory, got OnDisk"),
    }
}

/// A correction with one painted cell.
fn stamp(width: u16, height: u16, idx: usize, value: i8) -> MaskCorrection {
    let mut cells = vec![0i8; width as usize * height as usize];
    cells[idx] = value;
    MaskCorrection { width, height, cells, hash: idx as u64 * 1000 + value as u64 }
}

#[test]
fn commit_correction_pushes_pre_state_onto_undo_stack() {
    let mut item = fixture_item(1);
    assert!(!item.has_stroke_undo());
    item.commit_correction(stamp(8, 8, 5, 50));
    assert!(item.has_stroke_undo(), "first stroke must register an undo entry (pre = None)");
    assert!(!item.has_stroke_redo());
}

/// Fingerprint of the correction of an item.
fn correction(item: &BatchItem) -> Option<u64> {
    item.mask_correction.as_ref().map(|c| c.hash)
}

#[test]
fn undo_stroke_restores_pre_state() {
    let mut item = fixture_item(1);
    item.commit_correction(stamp(8, 8, 5, 50));
    let after_first = correction(&item);
    item.commit_correction(stamp(8, 8, 10, 70));
    assert_ne!(correction(&item), after_first, "second stroke changed the grid");

    assert!(item.undo_stroke(), "stroke 2 must be undoable");
    assert_eq!(correction(&item), after_first, "undo restored the post-stroke-1 state");
    assert!(item.has_stroke_redo(), "undone stroke goes onto the redo stack");
}

#[test]
fn redo_stroke_inverts_undo() {
    let mut item = fixture_item(1);
    item.commit_correction(stamp(8, 8, 5, 50));
    item.commit_correction(stamp(8, 8, 10, 70));
    let after_two = correction(&item);

    item.undo_stroke();
    assert!(item.redo_stroke(), "redo available after undo");
    assert_eq!(correction(&item), after_two);
}

#[test]
fn fresh_commit_after_undo_clears_redo() {
    let mut item = fixture_item(1);
    item.commit_correction(stamp(8, 8, 5, 50));
    item.commit_correction(stamp(8, 8, 10, 70));
    item.undo_stroke();
    assert!(item.has_stroke_redo());

    item.commit_correction(stamp(8, 8, 12, 30));
    assert!(!item.has_stroke_redo(), "fresh stroke after undo must wipe the redo stack");
}

#[test]
fn stroke_history_caps_at_depth() {
    let mut item = fixture_item(1);
    for i in 0..(STROKE_HISTORY_DEPTH + 5) {
        item.commit_correction(stamp(8, 8, i % 64, 1 + (i % 100) as i8));
    }
    assert_eq!(
        item.stroke_undo_stack.len(),
        STROKE_HISTORY_DEPTH,
        "undo stack must cap at STROKE_HISTORY_DEPTH"
    );
}

#[test]
fn clear_correction_pushes_undo_when_correction_existed() {
    let mut item = fixture_item(1);
    item.commit_correction(stamp(8, 8, 5, 50));
    let undo_before_clear = item.stroke_undo_stack.len();
    item.clear_correction();
    assert!(item.mask_correction.is_none());
    assert_eq!(
        item.stroke_undo_stack.len(),
        undo_before_clear + 1,
        "clear must record an undoable snapshot of the correction it dropped"
    );
    assert!(item.undo_stroke(), "the user can undo a clear");
    assert!(item.mask_correction.is_some());
}

#[test]
fn clear_correction_no_op_when_already_empty() {
    let mut item = fixture_item(1);
    item.clear_correction();
    assert!(!item.has_stroke_undo(), "clearing an already-empty correction must not push undo");
}

#[test]
fn commit_correction_writes_hash_to_settings() {
    let mut item = fixture_item(1);
    assert!(item.settings.correction_hash.is_none());
    item.commit_correction(stamp(8, 8, 5, 50));
    assert!(
        item.settings.correction_hash.is_some(),
        "settings.correction_hash must mirror the new correction's hash"
    );
}

#[test]
fn clear_correction_clears_settings_hash() {
    let mut item = fixture_item(1);
    item.commit_correction(stamp(8, 8, 5, 50));
    assert!(item.settings.correction_hash.is_some());
    item.clear_correction();
    assert!(item.settings.correction_hash.is_none(), "clear must wipe the hash too");
}

#[test]
fn undo_redo_keeps_settings_hash_in_sync() {
    let mut item = fixture_item(1);
    item.commit_correction(stamp(8, 8, 5, 50));
    let after_commit = item.settings.correction_hash;
    item.commit_correction(stamp(8, 8, 12, 30));
    let after_two = item.settings.correction_hash;
    assert_ne!(after_commit, after_two);
    item.undo_stroke();
    assert_eq!(item.settings.correction_hash, after_commit, "undo restores the prior hash");
    item.redo_stroke();
    assert_eq!(item.settings.correction_hash, after_two, "redo restores the next hash");
}

#[test]
fn a_stroke_is_merged_only_into_its_own_size() {
    let mut item = fixture_item(1);
    assert!(item.merge_base(8, 8).is_none());
    item.commit_correction(stamp(8, 8, 5, 50));
    assert!(item.merge_base(8, 8).is_some());
    assert!(item.merge_base(8, 9).is_none());
}

#[test]
fn a_background_picture_wins_over_a_colour() {
    let mut item = fixture_item(1);
    assert_eq!(item.bake_export_bg(), Background::Transparent);
    item.settings.bg = Some(Rgba { r: 1, g: 2, b: 3, a: 4 });
    assert_eq!(item.bake_export_bg(), Background::Colour { rgb: Rgb { r: 1, g: 2, b: 3 } });
    let image = Arc::new(raw(2, 1, &[9; 6]));
    item.set_bg_image(image.clone(), Some("/bg.png".into()));
    assert_eq!(item.bake_export_bg(), Background::Picture);
    assert_eq!(item.settings.bg_image_hash, Some(bg_image_content_hash(&image)));
    item.clear_bg_image();
    assert_eq!(item.settings.bg_image_hash, None);
}

fn raw(width: u32, height: u32, bytes: &[u8]) -> RawImage {
    RawImage { width, height, layout: PixelLayout::Rgb8, bytes: bytes.to_vec() }
}

#[test]
fn background_fingerprints_tell_pictures_apart() {
    let a = raw(2, 1, &[9; 6]);
    let b = raw(1, 2, &[9; 6]);
    let c = raw(2, 1, &[9, 9, 8, 9, 9, 9]);
    assert_eq!(bg_image_content_hash(&a), bg_image_content_hash(&raw(2, 1, &[9; 6])));
    assert_ne!(bg_image_content_hash(&a), bg_image_content_hash(&b));
    assert_ne!(bg_image_content_hash(&a), bg_image_content_hash(&c));
}

#[test]
fn background_fingerprints_are_those_of_the_standard_hasher() {
    for bytes in [vec![], vec![1, 2, 3], vec![7; 600]] {
        let mut h = DefaultHasher::new();
        200u32.hash(&mut h);
        1u32.hash(&mut h);
        bytes.as_slice().hash(&mut h);
        assert_eq!(bg_image_content_hash(&raw(200, 1, &bytes)), h.finish());
    }
}
