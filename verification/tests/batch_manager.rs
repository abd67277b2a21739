use prunr_app::batch_manager::{
    AppState, BatchManager, ProcessButtonLabel, StatusCounts, TENSOR_BUDGET,
};
use prunr_app::imaging::{
    decode_source, filter_failure, fit_dimensions, thumbnail, thumbnail_of_file,
};
use prunr_app::item::{BatchItem, BatchStatus, CachedTensor, EdgeMask, ImageSource};
use prunr_app::item_settings::ItemSettings;
use prunr_app::pipeline::EdgeScale;
use prunr_app::pixmap::Pixmap;
use std::sync::Arc;

fn fixture() -> BatchManager {
    BatchManager::new()
}

fn item_with_cache(id: u64, tensor_floats: usize) -> BatchItem {
    let mut item = BatchItem::new(
        id,
        format!("item_{id}.png"),
        ImageSource::Bytes(Arc::new(Vec::new())),
        (10, 10),
        ItemSettings::default(),
        String::new(),
    );
    if tensor_floats > 0 {
        item.caches.tensor = Some(CachedTensor { handle: id, size: tensor_floats * 4 });
    }
    item
}

fn ids(bm: &BatchManager) -> Vec<u64> {
    bm.items.iter().map(|i| i.id).collect()
}

#[test]
fn selected_item_returns_none_when_batch_empty() {
    let bm = fixture();
    assert!(bm.selected_item().is_none());
}

#[test]
fn selected_item_returns_indexed_item() {
    let mut bm = fixture();
    bm.items.push(item_with_cache(1, 0));
    bm.items.push(item_with_cache(2, 0));
    bm.selected_index = 1;
    assert_eq!(bm.selected_item().unwrap().id, 2);
}

#[test]
fn selected_item_returns_none_when_index_out_of_bounds() {
    let mut bm = fixture();
    bm.items.push(item_with_cache(1, 0));
    bm.selected_index = 99;
    assert!(bm.selected_item().is_none());
}

#[test]
fn is_selected_matches_selected_item_id() {
    let mut bm = fixture();
    bm.items.push(item_with_cache(1, 0));
    bm.items.push(item_with_cache(42, 0));
    bm.selected_index = 1;
    assert!(bm.is_selected(42));
    assert!(!bm.is_selected(1));
}

#[test]
fn is_selected_false_when_batch_empty() {
    let bm = fixture();
    assert!(!bm.is_selected(0));
    assert!(!bm.is_selected(99));
}

#[test]
fn selected_idx_clamped_is_none_when_empty() {
    let bm = fixture();
    assert_eq!(bm.selected_idx_clamped(), None);
}

#[test]
fn selected_idx_clamped_returns_index_when_in_bounds() {
    let mut bm = fixture();
    bm.items.push(item_with_cache(1, 0));
    bm.items.push(item_with_cache(2, 0));
    bm.selected_index = 1;
    assert_eq!(bm.selected_idx_clamped(), Some(1));
}

#[test]
fn selected_idx_clamped_clamps_when_out_of_bounds() {
    let mut bm = fixture();
    bm.items.push(item_with_cache(1, 0));
    bm.selected_index = 99;
    assert_eq!(bm.selected_idx_clamped(), Some(0));
}

fn push(bm: &mut BatchManager, id: u64, status: BatchStatus) {
    let mut item = item_with_cache(id, 0);
    item.status = status;
    bm.items.push(item);
}

#[test]
fn status_counts_totals_by_status_excluding_pending() {
    let mut bm = fixture();
    push(&mut bm, 1, BatchStatus::Done);
    push(&mut bm, 2, BatchStatus::Done);
    push(&mut bm, 3, BatchStatus::Processing);
    push(&mut bm, 4, BatchStatus::Error("oops".into()));
    push(&mut bm, 5, BatchStatus::Pending);

    let c = bm.status_counts();
    assert_eq!(c.done, 2);
    assert_eq!(c.processing, 1);
    assert_eq!(c.errored, 1);
    assert_eq!(c.batch_total(), 4, "Pending items are excluded from batch_total");
}

#[test]
fn status_counts_empty_batch_zero() {
    let bm = fixture();
    let c = bm.status_counts();
    assert_eq!(c, StatusCounts::default());
    assert_eq!(c.batch_total(), 0);
}

#[test]
fn progress_stage_says_processing_while_in_flight() {
    let mut bm = fixture();
    push(&mut bm, 1, BatchStatus::Done);
    push(&mut bm, 2, BatchStatus::Processing);
    push(&mut bm, 3, BatchStatus::Pending);

    let report = bm.progress();
    assert_eq!(report.stage, "Processing 1/2");
    let pct = report.done as f32 / report.of as f32;
    assert!((pct - 0.5).abs() < f32::EPSILON);
}

#[test]
fn progress_stage_says_finishing_when_no_in_flight() {
    let mut bm = fixture();
    push(&mut bm, 1, BatchStatus::Done);

    let report = bm.progress();
    assert_eq!(report.stage, "Finishing up");
    let pct = report.done as f32 / report.of as f32;
    assert!((pct - 1.0).abs() < f32::EPSILON);
}

#[test]
fn progress_empty_batch_no_division_by_zero() {
    let bm = fixture();
    let report = bm.progress();
    assert_eq!(report.stage, "Finishing up");
    let pct = report.done as f32 / report.of as f32;
    assert_eq!(pct, 0.0);
}

#[test]
fn first_error_message_returns_first_errored_item() {
    let mut bm = fixture();
    push(&mut bm, 1, BatchStatus::Done);
    push(&mut bm, 2, BatchStatus::Error("first problem".into()));
    push(&mut bm, 3, BatchStatus::Error("second problem".into()));

    assert_eq!(bm.first_error_message(), Some("first problem"));
}

#[test]
fn first_error_message_none_when_no_errors() {
    let mut bm = fixture();
    bm.items.push(item_with_cache(1, 0));
    assert_eq!(bm.first_error_message(), None);
}

#[test]
fn enforce_tensor_budget_no_op_below_budget() {
    let mut bm = fixture();
    bm.items.push(item_with_cache(1, 100));
    bm.items.push(item_with_cache(2, 100));
    let before_1 = bm.items[0].caches.tensor.is_some();
    let before_2 = bm.items[1].caches.tensor.is_some();
    bm.enforce_tensor_budget();
    assert_eq!(bm.items[0].caches.tensor.is_some(), before_1);
    assert_eq!(bm.items[1].caches.tensor.is_some(), before_2);
}

#[test]
fn enforce_tensor_budget_drops_the_oldest_first_and_spares_the_viewed() {
    let mut bm = fixture();
    for id in 1..=4 {
        let mut item = item_with_cache(id, 1);
        item.caches.tensor = Some(CachedTensor { handle: id, size: TENSOR_BUDGET / 2 });
        bm.items.push(item);
    }
    bm.selected_index = 0;
    bm.enforce_tensor_budget();
    let left: Vec<bool> = bm.items.iter().map(|i| i.caches.tensor.is_some()).collect();
    assert_eq!(left, vec![true, false, false, true]);
}

#[test]
fn evict_all_tensors_clears_all_except_selected() {
    let mut bm = fixture();
    bm.items.push(item_with_cache(1, 100));
    bm.items.push(item_with_cache(2, 100));
    bm.items.push(item_with_cache(3, 100));
    bm.selected_index = 1;
    assert!(bm.items.iter().all(|i| i.caches.tensor.is_some()));

    bm.evict_all_tensors();

    assert!(bm.items[0].caches.tensor.is_none(), "non-selected evicted");
    assert!(bm.items[1].caches.tensor.is_some(), "selected preserved");
    assert!(bm.items[2].caches.tensor.is_none(), "non-selected evicted");
}

#[test]
fn evict_all_tensors_clears_edge_cache_too() {
    let mut bm = fixture();
    let mut item = item_with_cache(1, 100);
    item.caches.edge_mask =
        Some(EdgeMask { handle: 1, line_strength_bits: 0, scale: EdgeScale::Fused });
    bm.items.push(item);
    bm.items.push(item_with_cache(2, 100));
    bm.selected_index = 1;

    bm.evict_all_tensors();

    assert!(bm.items[0].caches.tensor.is_none());
    assert!(bm.items[0].caches.edge_mask.is_none());
    assert!(bm.items[0].caches.edge_tensors.is_none());
}

/// The file of a picture of one pixel.
fn one_pixel_png() -> Vec<u8> {
    let img = image::RgbaImage::from_pixel(1, 1, image::Rgba([200, 100, 50, 255]));
    let mut buf = Vec::new();
    image::DynamicImage::ImageRgba8(img)
        .write_to(&mut std::io::Cursor::new(&mut buf), image::ImageFormat::Png)
        .unwrap();
    buf
}

#[test]
fn request_decode_bytes_emits_decoded_rgba_to_decode_rx() {
    let png = Arc::new(one_pixel_png());
    let rgba = decode_source(&png).expect("valid PNG must decode");
    assert_eq!((rgba.width, rgba.height), (1, 1));
    assert_eq!(rgba.data, vec![200, 100, 50, 255]);
}

#[test]
fn request_decode_source_for_bytes_variant_routes_through() {
    let source = ImageSource::Bytes(Arc::new(one_pixel_png()));
    let bytes = source.inline_bytes().expect("bytes in memory");
    assert!(decode_source(&bytes).is_ok());
}

#[test]
fn request_decode_bytes_emits_err_on_malformed_input() {
    let garbage = b"not an image".to_vec();
    let err = decode_source(&garbage).expect_err("garbage bytes must produce Err");
    assert!(err.contains("decode failed"), "expected 'decode failed' prefix, got: {err}");
}

#[test]
fn request_thumbnail_with_result_rgba_emits_to_thumb_rx() {
    let result = Pixmap::from_raw(200, 200, [10, 20, 30, 255].repeat(200 * 200)).unwrap();
    let t = thumbnail(&result);
    assert_eq!((t.width, t.height), (160, 160));
    assert_eq!(t.data.len(), (t.width * t.height * 4) as usize);
}

#[test]
fn request_thumbnail_without_result_decodes_source() {
    let t = thumbnail_of_file(&one_pixel_png()).expect("valid PNG");
    assert_eq!((t.width, t.height), (1, 1));
    assert_eq!(t.data.len(), 4);
}

#[test]
fn a_plain_picture_has_a_plain_thumbnail() {
    let result = Pixmap::from_raw(320, 160, [10, 20, 30, 255].repeat(320 * 160)).unwrap();
    let t = thumbnail(&result);
    assert_eq!((t.width, t.height), (160, 80));
    assert_eq!(t.data, [10, 20, 30, 255].repeat(160 * 80));
}

#[test]
fn no_picture_has_no_thumbnail() {
    assert!(thumbnail_of_file(b"not an image").is_none());
}

#[test]
fn fit_dimensions_scales_down_oversized() {
    let (w, h) = fit_dimensions(4000, 2000, 1000, 1000);
    assert_eq!((w, h), (1000, 500));
}

#[test]
fn fit_dimensions_does_not_upscale() {
    let (w, h) = fit_dimensions(10, 10, 1000, 1000);
    assert_eq!((w, h), (10, 10));
}

#[test]
fn fit_dimensions_minimum_size_is_one() {
    let (w, h) = fit_dimensions(1000, 1, 50, 50);
    assert!(w >= 1 && h >= 1);
}

#[test]
fn fit_dimensions_rounds_half_up() {
    assert_eq!(fit_dimensions(1000, 333, 100, 100), (100, 33));
    assert_eq!(fit_dimensions(200, 5, 100, 100), (100, 3));
}

fn checked(id: u64) -> BatchItem {
    let mut i = item_with_cache(id, 0);
    i.selected = true;
    i
}

#[test]
fn process_button_label_empty_batch_is_viewed() {
    let bm = fixture();
    assert_eq!(bm.process_button_label(), ProcessButtonLabel::ProcessViewed);
}

#[test]
fn process_button_label_no_checkboxes_is_viewed() {
    let mut bm = fixture();
    bm.items.push(item_with_cache(1, 0));
    bm.items.push(item_with_cache(2, 0));
    bm.items.push(item_with_cache(3, 0));
    assert_eq!(bm.process_button_label(), ProcessButtonLabel::ProcessViewed);
}

#[test]
fn process_button_label_one_checkbox_of_three_is_selected_1() {
    let mut bm = fixture();
    bm.items.push(checked(1));
    bm.items.push(item_with_cache(2, 0));
    bm.items.push(item_with_cache(3, 0));
    assert_eq!(bm.process_button_label(), ProcessButtonLabel::ProcessSelected(1));
}

#[test]
fn process_button_label_two_checkboxes_of_three_is_selected_2() {
    let mut bm = fixture();
    bm.items.push(checked(1));
    bm.items.push(checked(2));
    bm.items.push(item_with_cache(3, 0));
    assert_eq!(bm.process_button_label(), ProcessButtonLabel::ProcessSelected(2));
}

#[test]
fn process_button_label_all_checked_multi_is_all() {
    let mut bm = fixture();
    bm.items.push(checked(1));
    bm.items.push(checked(2));
    bm.items.push(checked(3));
    assert_eq!(bm.process_button_label(), ProcessButtonLabel::ProcessAll(3));
}

#[test]
fn process_button_label_single_item_checked_is_selected_not_all() {
    let mut bm = fixture();
    bm.items.push(checked(1));
    assert_eq!(bm.process_button_label(), ProcessButtonLabel::ProcessSelected(1));
}

#[test]
fn items_to_process_empty_batch_is_empty() {
    let bm = fixture();
    assert!(bm.items_to_process().is_empty());
}

#[test]
fn items_to_process_no_checkboxes_returns_viewed() {
    let mut bm = fixture();
    bm.items.push(item_with_cache(10, 0));
    bm.items.push(item_with_cache(20, 0));
    bm.items.push(item_with_cache(30, 0));
    bm.selected_index = 1;
    assert_eq!(bm.items_to_process(), vec![20]);
}

#[test]
fn items_to_process_no_checkboxes_clamps_stale_index() {
    let mut bm = fixture();
    bm.items.push(item_with_cache(42, 0));
    bm.selected_index = 99;
    assert_eq!(bm.items_to_process(), vec![42]);
}

#[test]
fn items_to_process_some_checkboxes_returns_only_checked() {
    let mut bm = fixture();
    bm.items.push(checked(1));
    bm.items.push(item_with_cache(2, 0));
    bm.items.push(checked(3));
    bm.selected_index = 1;
    let got = bm.items_to_process();
    assert_eq!(got.len(), 2);
    assert!(got.contains(&1));
    assert!(got.contains(&3));
    assert!(!got.contains(&2));
}

#[test]
fn items_to_process_all_checked_returns_all() {
    let mut bm = fixture();
    bm.items.push(checked(1));
    bm.items.push(checked(2));
    bm.items.push(checked(3));
    let got = bm.items_to_process();
    assert_eq!(got.len(), 3);
}

#[test]
fn request_filter_only_emits_load_failure_via_err_variant() {
    assert_eq!(filter_failure(Some("no such file")), "Failed to load: no such file");
    assert_eq!(filter_failure(None), "Decode failed");
}

#[test]
fn select_item_returns_true_when_index_changes() {
    let mut bm = fixture();
    bm.items.push(item_with_cache(1, 0));
    bm.items.push(item_with_cache(2, 0));
    bm.selected_index = 0;
    assert!(bm.select_item(1));
    assert_eq!(bm.selected_index, 1);
}

#[test]
fn select_item_returns_false_when_already_selected() {
    let mut bm = fixture();
    bm.items.push(item_with_cache(1, 0));
    bm.selected_index = 0;
    assert!(!bm.select_item(0));
    assert_eq!(bm.selected_index, 0);
}

#[test]
fn reorder_moves_item_forward_and_adjusts_selected() {
    let mut bm = fixture();
    for id in [10, 20, 30, 40] {
        bm.items.push(item_with_cache(id, 0));
    }
    bm.selected_index = 1;
    bm.reorder(0, 3);
    assert_eq!(ids(&bm), [20, 30, 10, 40]);
    assert_eq!(bm.selected_index, 0, "selected item B must follow its new position");
}

#[test]
fn reorder_moves_item_backward_and_adjusts_selected() {
    let mut bm = fixture();
    for id in [10, 20, 30, 40] {
        bm.items.push(item_with_cache(id, 0));
    }
    bm.selected_index = 2;
    bm.reorder(3, 1);
    assert_eq!(ids(&bm), [10, 40, 20, 30]);
    assert_eq!(bm.selected_index, 3, "selected item C must follow its new position");
}

#[test]
fn reorder_noop_when_from_equals_to() {
    let mut bm = fixture();
    for id in [10, 20, 30] {
        bm.items.push(item_with_cache(id, 0));
    }
    bm.selected_index = 1;
    bm.reorder(1, 1);
    assert_eq!(ids(&bm), [10, 20, 30]);
    assert_eq!(bm.selected_index, 1);
}

#[test]
fn reorder_noop_when_from_out_of_bounds() {
    let mut bm = fixture();
    for id in [10, 20] {
        bm.items.push(item_with_cache(id, 0));
    }
    bm.reorder(5, 0);
    assert_eq!(ids(&bm), [10, 20]);
}

#[test]
fn removing_an_item_keeps_the_others() {
    let mut bm = fixture();
    for id in [10, 20, 30] {
        bm.items.push(item_with_cache(id, 0));
    }
    let gone = bm.remove(1);
    assert!(gone.removed);
    assert!(gone.delete.is_empty());
    assert_eq!(ids(&bm), [10, 30]);
    assert!(!bm.remove(7).removed);
}

#[test]
fn the_viewed_item_gives_the_state() {
    let mut bm = fixture();
    assert_eq!(bm.app_state(), AppState::Empty);
    push(&mut bm, 1, BatchStatus::Error("x".into()));
    assert_eq!(bm.app_state(), AppState::Loaded);
    bm.items[0].status = BatchStatus::Processing;
    assert_eq!(bm.app_state(), AppState::Processing);
    bm.reset_processing_to_pending();
    assert_eq!(bm.items[0].status, BatchStatus::Pending);
}

#[test]
fn the_first_item_with_an_id_is_found() {
    let mut bm = fixture();
    for id in [10, 20] {
        bm.items.push(item_with_cache(id, 0));
    }
    assert_eq!(bm.index_of(20), Some(1));
    assert!(bm.find_by_id(99).is_none());
    bm.find_by_id_mut(10).unwrap().selected = true;
    assert_eq!(bm.checked(), vec![10]);
    assert_eq!(bm.selected_count(), 1);
    assert!(bm.has_any_selected());
    assert!(!bm.all_selected());
    assert!(bm.any_target_can(|i| i.id == 10));
    assert!(!bm.any_target_can(|i| i.id == 20));
    assert_eq!(bm.first_target_item().unwrap().id, 10);
    assert_eq!(bm.selected_ids_with_status(&BatchStatus::Pending), vec![10]);
}

#[test]
fn a_shrunk_picture_fills_a_side_of_its_box() {
    assert_eq!(fit_dimensions(4000, 10, 160, 160).0, 160);
    assert_eq!(fit_dimensions(10, 4000, 160, 120).1, 120);
}

#[test]
fn fit_dimensions_is_that_of_single_precision() {
    let single = |w: u32, h: u32, max_w: u32, max_h: u32| {
        let scale = (max_w as f32 / w as f32).min(max_h as f32 / h as f32).min(1.0);
        let side = |x: u32| (x as f32 * scale).round().max(1.0) as u32;
        (side(w), side(h))
    };
    assert_eq!(fit_dimensions(2368, 333, 160, 160), (160, 22));
    assert_eq!(fit_dimensions(19520, 1891, 160, 160), (160, 15));
    let sides = [0, 1, 2, 7, 159, 160, 161, 333, 1891, 19520, 1 << 20, (1 << 24) + 1, u32::MAX];
    for w in sides {
        for h in sides {
            for max in sides {
                assert_eq!(fit_dimensions(w, h, max, 160), single(w, h, max, 160));
                assert_eq!(fit_dimensions(w, h, 3000, max), single(w, h, 3000, max));
            }
        }
    }
    let mut n: u32 = 12345;
    for _ in 0..20_000 {
        n = n.wrapping_mul(1_664_525).wrapping_add(1_013_904_223);
        let (w, h) = (n >> 16, n & 0xFFFF);
        assert_eq!(fit_dimensions(w, h, 160, 160), single(w, h, 160, 160), "{w} x {h}");
    }
}
