use prunr_app::app_export::{
    cancelling_text, copy_message, handle_cancel_selected, handle_copy, handle_save_selected, initiate_drag_out,
    layer_save, remove_batch_item, remove_selected, save_item_to_file, save_path, saving_text,
    single_save_message, DragStep, LayerSave, SaveRoute, SaveTally, Saving,
};
use prunr_app::app_frame::{
    drain_background_channels, pump_inpaint_results, Arrivals, ERASE_CANCELLED,
};
use prunr_app::app_import::{
    add_to_batch, add_to_batch_of_size, add_to_batch_path, after_file_loads, expand_dropped_paths, handle_open_bytes,
    handle_drag_and_drop, handle_open_path, import_sized, imported_ids, is_supported_image_ext, load_image, open_plan,
    opens_single, triage_drop, Dropped, DroppedPath, InlinePicture, LoadedFile, NewItem, OpenPlan,
    TakenIn, EMPTY_FOLDER,
};
use prunr_app::app_results::Recoloured;
use prunr_app::app_toolbar::{
    apply_completed_preview, apply_completed_previews, apply_inpaint_result, apply_toolbar_change, bg_load_failure,
    build_preview_inputs, dispatch_inpaint_for_item, download_notice, download_text, edge_tensor_decompressed,
    edge_tensor_for_scale, handle_redo, handle_undo, needs_second_scale,
    recipe_drift_tripwire, reconcile_bg_image_after_preset, resolve_auto_dispatch, runtime_text,
    settle_edits, stroke_text, swap_bg_path, swap_preset_history, try_brush_redo, try_brush_undo, wanted_bg_path,
    BgEdit, BgLookup, BgNotice, DownloadNotice, EdgeLookup, StrokeBase, ToolbarAction,
    ToolbarChange, ToolbarEdits,
};
use prunr_app::app_view::{
    answer_license, any_tex_pending, apply_cancel_shortcut, cancel_inpaint_for,
    collect_shortcut_intents,
    decode_arrived, decode_failed, decodes_arrived,
    ensure_selected_source_decoded, evict_result_rgba_for_background_items, history_cleanup_due,
    is_error_message, is_save_error, maybe_evaluate_runtime_prompt, navigate_batch,
    onboarding_text, picture_actions, request_selected_textures,
    restore_selected_result_from_history, sync_after_batch_change,
    sync_selected_batch_textures, texture_arrived,
    textures_arrived, update_window_title, DecodedSource, Dismissed, Keys, NavDir, Panels,
    ReadyTexture, TitleState,
};
use prunr_app::batch_manager::{AppState, BatchManager};
use prunr_app::brush_state::{BrushSettings, BrushState};
use prunr_app::download_manager::DownloadEvent;
use prunr_app::drag_export_state::DragExportState;
use prunr_app::history_manager::HistoryDir;
use prunr_app::item::{
    BatchItem, BatchStatus, CachedTensor, EdgeMask, HistoryEntry, HotEdgeTensor, ImageSource,
    MaskCorrection, PresetSnapshot,
};
use prunr_app::item_settings::ItemSettings;
use prunr_app::knob_catalog::{CacheImpact, DispatchKind};
use prunr_app::live_preview::{LivePreview, PreviewKind, PreviewResult, DEBOUNCE};
use prunr_app::pipeline::{
    EdgeScale, LineMode, LineStyle, MaskRecipe, ModelId, ModelKind, RequiredTier, Scalar,
};
use prunr_app::pixmap::{PixelLayout, Pixmap, RawImage};
use prunr_app::processor::{InpaintResult, Processor};
use std::collections::HashMap;
use std::sync::Arc;

const MODEL: ModelKind = ModelKind::Silueta;

fn item(id: u64) -> BatchItem {
    BatchItem::new(
        id,
        format!("pic{id}.jpg"),
        ImageSource::Bytes(Arc::new(vec![])),
        (10, 10),
        ItemSettings::default(),
        "Prunr".to_string(),
    )
}

fn rgba(v: u8) -> Arc<Pixmap> {
    Arc::new(Pixmap::from_raw(2, 2, [v, v, v, 255].repeat(4)).unwrap())
}

fn raw(v: u8) -> Arc<RawImage> {
    Arc::new(RawImage { width: 2, height: 1, layout: PixelLayout::Rgb8, bytes: vec![v; 6] })
}

fn done(id: u64) -> BatchItem {
    let mut i = item(id);
    i.status = BatchStatus::Done;
    i.result_rgba = Some(rgba(id as u8));
    i.applied_recipe = Some(i.settings.current_recipe(MODEL, false));
    i
}

fn batch(items: Vec<BatchItem>) -> BatchManager {
    let mut b = BatchManager::new();
    b.next_id = items.iter().map(|i| i.id + 1).max().unwrap_or(0);
    b.items = items;
    b
}

fn ids(b: &BatchManager) -> Vec<u64> {
    b.items.iter().map(|i| i.id).collect()
}

#[test]
fn the_title_follows_the_batch() {
    let mut t = TitleState::Empty;
    let mut b = batch(vec![]);
    assert_eq!(update_window_title(&mut t, &b), None);
    b.items.push(item(1));
    assert_eq!(update_window_title(&mut t, &b).as_deref(), Some("Prunr \u{2014} pic1.jpg"));
    assert_eq!(update_window_title(&mut t, &b), None);
    b.items.push(item(2));
    assert_eq!(update_window_title(&mut t, &b).as_deref(), Some("Prunr \u{2014} 2 images"));
    b.items.clear();
    assert_eq!(update_window_title(&mut t, &b).as_deref(), Some("Prunr"));
}

#[test]
fn stepping_wraps_round() {
    let mut b = batch(vec![item(1), item(2), item(3)]);
    assert!(navigate_batch(&mut b, NavDir::Prev));
    assert_eq!(b.selected_index, 2);
    assert!(navigate_batch(&mut b, NavDir::Next));
    assert_eq!(b.selected_index, 0);
    assert!(!navigate_batch(&mut batch(vec![]), NavDir::Next));
    b.selected_index = 9;
    assert!(sync_after_batch_change(&mut b));
    assert_eq!(b.selected_index, 2);
}

#[test]
fn results_in_the_background_are_put_away_and_come_back() {
    let mut b = batch(vec![done(1), done(2)]);
    let dropped = evict_result_rgba_for_background_items(&mut b.items, 0);
    assert_eq!(dropped, vec![None, None]);
    assert!(b.items[0].result_rgba.is_some());
    assert!(b.items[1].result_rgba.is_none());
    restore_selected_result_from_history(&mut b.items[1], None);
    assert_eq!(b.items[1].result_rgba.as_ref().unwrap().data, rgba(2).data);
    assert_eq!(b.items[1].history.len(), 1, "the entry stays");
}

#[test]
fn textures_are_asked_for_once() {
    let mut i = done(1);
    assert!(ensure_selected_source_decoded(&mut i));
    assert!(!ensure_selected_source_decoded(&mut i));
    decode_arrived(&mut i, rgba(0));
    let r = request_selected_textures(&mut i, 4);
    assert_eq!(r.source.as_deref(), Some("source_1"));
    assert_eq!(r.result.as_deref(), Some("result_1_4"));
    assert!(any_tex_pending(&vec![item(9)]) == false);
    let r = request_selected_textures(&mut i, 4);
    assert!(r.source.is_none() && r.result.is_none());
    texture_arrived(&mut i, true);
    texture_arrived(&mut i, false);
    assert!(i.drawn.result_texture && i.drawn.source_texture);
    assert!(!any_tex_pending(&vec![i]));
}

#[test]
fn the_viewed_item_is_drawn_and_the_others_are_put_away() {
    let mut b = batch(vec![done(1), done(2)]);
    b.selected_index = 1;
    let sync = sync_selected_batch_textures(&mut b, None, 7).unwrap();
    assert_eq!(sync.position, 1);
    assert!(sync.decode);
    assert_eq!(sync.textures.result.as_deref(), Some("result_2_7"));
    assert!(sync.textures.source.is_none());
    assert!(b.items[0].result_rgba.is_none() && b.items[1].result_rgba.is_some());
    b.selected_index = 0;
    sync_selected_batch_textures(&mut b, None, 8).unwrap();
    assert_eq!(b.items[0].result_rgba.as_ref().unwrap().data, rgba(1).data);
    assert!(sync_selected_batch_textures(&mut batch(vec![]), None, 8).is_none());
}

#[test]
fn arrivals_are_stored_where_their_item_is_left() {
    let mut b = batch(vec![item(1), item(2)]);
    let arrived = vec![
        DecodedSource { item_id: 2, result: Ok(rgba(5)) },
        DecodedSource { item_id: 9, result: Ok(rgba(6)) },
    ];
    assert!(decodes_arrived(&mut b, arrived).any);
    assert!(b.items[0].source_rgba.is_none() && b.items[1].source_rgba.is_some());
    assert!(!decodes_arrived(&mut b, vec![DecodedSource { item_id: 9, result: Ok(rgba(6)) }]).any);

    let other = ReadyTexture { item_id: 2, is_result: true };
    assert!(!textures_arrived(&mut b, &vec![other]), "the viewed item got none");
    assert!(b.items[1].drawn.result_texture);
    let viewed = ReadyTexture { item_id: 1, is_result: false };
    assert!(textures_arrived(&mut b, &vec![other, viewed]));
}

#[test]
fn a_source_that_cannot_be_decoded_is_waited_for_no_longer() {
    let mut b = batch(vec![item(1), item(2)]);
    b.items[0].drawn.decode_pending = true;
    b.items[1].drawn.decode_pending = true;
    let failed = |item_id: u64| DecodedSource { item_id, result: Err("decode failed: x".into()) };
    let r = decodes_arrived(&mut b, vec![failed(1), failed(9)]);
    assert!(!r.any);
    assert_eq!(r.errors, vec!["decode failed: x".to_string()]);
    assert!(!b.items[0].drawn.decode_pending && b.items[0].source_rgba.is_none());
    assert!(b.items[1].drawn.decode_pending);
    assert_eq!(decode_failed(&mut b, 2, "bad".into()).as_deref(), Some("bad"));
    assert!(!b.items[1].drawn.decode_pending);
    assert_eq!(decode_failed(&mut b, 9, "bad".into()), None);

    b.items[0].drawn.decode_pending = true;
    let got = Arrivals { decoded: vec![failed(1)], ..nothing_came() };
    let r = drain_background_channels(&mut b, got, &vec![None, None], 0, false, &new_item());
    assert!(!r.decoded && r.after_decode.is_none());
    assert_eq!(r.decode_errors.len(), 1);
    assert!(!any_tex_pending(&b.items));
}

#[test]
fn a_licence_is_asked_for_until_it_is_answered() {
    let mut pending = Some(ModelId::BigLaMa);
    assert_eq!(answer_license(&mut pending, false, false), None);
    assert_eq!(pending, Some(ModelId::BigLaMa));
    assert_eq!(answer_license(&mut pending, false, true), Some(ModelId::BigLaMa));
    assert_eq!(pending, None);
    pending = Some(ModelId::BigLaMa);
    assert_eq!(answer_license(&mut pending, true, false), None);
    assert_eq!(pending, None);
}

#[test]
fn the_history_is_cleaned_every_ten_minutes() {
    let mut p = Processor::new(0);
    assert!(!history_cleanup_due(&mut p, 599_999_999_999));
    assert!(history_cleanup_due(&mut p, 600_000_000_000));
    assert!(!history_cleanup_due(&mut p, 600_000_000_001));
}

#[test]
fn messages_of_failure_are_errors() {
    assert!(is_error_message("Save failed: x"));
    assert!(is_error_message("Could not load image"));
    assert!(is_error_message("clipboard not available"));
    assert!(!is_error_message("Copied to clipboard"));
    assert!(is_save_error("Saved 1, failed 2"));
    assert!(!is_save_error("Saved"));
}

fn no_keys() -> Keys {
    Keys {
        command: false,
        shift: false,
        text_focused: false,
        o: false,
        r: false,
        s: false,
        z: false,
        y: false,
        b: false,
        a: false,
        d: false,
        h: false,
        tab: false,
        escape: false,
        num0: false,
        num1: false,
        space: false,
        arrow_left: false,
        arrow_right: false,
        fresh_f1: false,
        fresh_f2: false,
        fresh_f3: false,
        fresh_f12: false,
    }
}

#[test]
fn keys_ask_for_actions() {
    let i = collect_shortcut_intents(Keys { command: true, z: true, shift: true, ..no_keys() });
    assert!(i.preset_undo_requested && !i.undo_requested);
    let i = collect_shortcut_intents(Keys { h: true, ..no_keys() });
    assert!(i.toggle_sidebar && !i.toggle_adjustments);
    let typing = Keys { text_focused: true, h: true, b: true, a: true, escape: true, ..no_keys() };
    let i = collect_shortcut_intents(typing);
    assert!(!i.toggle_sidebar && !i.toggle_before_after && !i.nav_prev && i.cancel_requested);

    let i = collect_shortcut_intents(Keys { command: true, r: true, s: true, ..no_keys() });
    let loaded = picture_actions(&i, true, AppState::Loaded);
    assert!(loaded.remove_background && !loaded.save && !loaded.copy);
    let finished = picture_actions(&i, true, AppState::Done);
    assert!(finished.save && finished.copy);
    let busy = picture_actions(&i, true, AppState::Processing);
    assert!(!busy.remove_background && !busy.save);
}

#[test]
fn escape_dismisses_the_topmost_thing() {
    let mut panels = Panels::at_start(true);
    panels.show_shortcuts = true;
    let mut p = Processor::new(0);
    let mut b = batch(vec![item(1)]);
    b.items[0].status = BatchStatus::Processing;
    p.admission_open = true;
    p.dispatch_inpaint(1, ModelId::LaMaFp32);
    let r = apply_cancel_shortcut(&mut panels, &mut p, &mut b);
    assert!(matches!(r, Dismissed::Strokes(v) if v == vec![1]));
    assert!(!p.cancels.is_global_cancelled());
    assert!(p.admission_open, "the batch goes on");

    let mut p = Processor::new(0);
    let r = apply_cancel_shortcut(&mut panels, &mut p, &mut b);
    assert!(matches!(r, Dismissed::Batch(_)));
    assert!(p.cancels.is_global_cancelled());
    assert_eq!(b.items[0].status, BatchStatus::Pending);

    assert!(panels.any_modal_open());
    assert!(matches!(apply_cancel_shortcut(&mut panels, &mut p, &mut b), Dismissed::Settings));
    assert!(matches!(apply_cancel_shortcut(&mut panels, &mut p, &mut b), Dismissed::Shortcuts));
    assert!(matches!(apply_cancel_shortcut(&mut panels, &mut p, &mut b), Dismissed::Nothing));
    panels.show_cli_help = true;
    panels.show_pipeline_flow = true;
    assert!(matches!(apply_cancel_shortcut(&mut panels, &mut p, &mut b), Dismissed::CliHelp));
    assert!(matches!(apply_cancel_shortcut(&mut panels, &mut p, &mut b), Dismissed::PipelineFlow));
}

#[test]
fn a_stroke_is_cancelled_alone() {
    let mut p = Processor::new(0);
    p.dispatch_inpaint(1, ModelId::LaMaFp32);
    p.dispatch_inpaint(2, ModelId::LaMaFp32);
    cancel_inpaint_for(&mut p, 2);
    cancel_inpaint_for(&mut p, 3);
    assert_eq!(p.inpaint_cancels.get(&1), Some(&false));
    assert_eq!(p.inpaint_cancels.get(&2), Some(&true));
    assert_eq!(p.inpaint_cancels.get(&3), None);
}

#[test]
fn panels_open_and_close() {
    let mut panels = Panels::at_start(false);
    assert!(!panels.toggle_settings_panel());
    panels.pending_reset_confirm = true;
    assert!(panels.toggle_settings_panel());
    assert!(!panels.pending_reset_confirm);
    let i = collect_shortcut_intents(Keys { fresh_f1: true, tab: true, ..no_keys() });
    panels.apply_toggles(&i);
    assert!(panels.show_shortcuts && panels.sidebar_hidden);
    assert!(!panels.sidebar_visible(false));
    assert!(panels.adjustments_should_show(false, false, false, false));
    assert!(!panels.adjustments_should_show(false, true, false, false));
    assert!(panels.adjustments_should_show(false, true, false, true));
    assert!(!panels.adjustments_should_show(true, false, true, true));
}

#[test]
fn the_runtime_is_offered_once() {
    let mut asked = false;
    assert!(maybe_evaluate_runtime_prompt(&mut asked, true, false, false));
    assert!(!maybe_evaluate_runtime_prompt(&mut asked, true, false, false));
    let mut asked = false;
    assert!(!maybe_evaluate_runtime_prompt(&mut asked, true, true, false));
    assert_eq!(onboarding_text("U2Net", true), None);
    assert!(onboarding_text("U2Net", false).unwrap().starts_with("U2Net is now"));
}

fn png(w: u32, h: u32) -> Vec<u8> {
    let img = image::RgbaImage::from_pixel(w, h, image::Rgba([1, 2, 3, 255]));
    let mut buf = Vec::new();
    image::DynamicImage::ImageRgba8(img)
        .write_to(&mut std::io::Cursor::new(&mut buf), image::ImageFormat::Png)
        .unwrap();
    buf
}

fn new_item() -> NewItem {
    NewItem { settings: ItemSettings::default(), preset: "Prunr".into() }
}

#[test]
fn pictures_come_in_with_their_size() {
    let mut b = batch(vec![]);
    assert!(handle_open_bytes(&mut b, png(3, 2), String::new(), &new_item()));
    assert_eq!(b.items[0].dimensions, (3, 2));
    assert_eq!(b.items[0].filename, "image");
    assert!(!load_image(&mut b, b"no picture".to_vec(), None, &new_item()));
    assert!(add_to_batch(&mut b, png(5, 1), "b.png".into(), &new_item()));
    assert!(!add_to_batch(&mut b, vec![], "c.png".into(), &new_item()));
    assert_eq!(b.selected_index, 0, "what is viewed stays");
    assert!(handle_open_path(&mut b, "/x/d.png".into(), Some((7, 7)), &new_item()));
    assert_eq!((b.selected_index, b.items[2].filename.as_str()), (2, "d.png"));
    assert!(!handle_open_path(&mut b, "/x/e.png".into(), None, &new_item()));
    assert!(add_to_batch_path(&mut b, "/x/f.png".into(), "f".into(), Some((1, 1)), &new_item()));
    assert_eq!(ids(&b), vec![0, 1, 2, 3]);
    assert_eq!(imported_ids(&b.items, 2), vec![2, 3]);
}

#[test]
fn a_single_new_picture_is_viewed() {
    let mut b = batch(vec![item(1)]);
    let one = vec![InlinePicture { bytes: png(1, 1), name: "n".into() }];
    let r = handle_drag_and_drop(&mut b, vec![], one, true, &new_item());
    let TakenIn::Appended(r) = r.taken else { panic!("the batch was not empty") };
    assert!(r.views_new);
    assert_eq!((b.selected_index, r.process_from), (1, Some(2)));
    assert_eq!(b.items[1].dimensions, (1, 1));
    let r = after_file_loads(&mut b, 1, false, 3, true);
    assert!(!r.views_new && r.process_from.is_none());
    assert!(opens_single(1, true) && !opens_single(1, false));
}

#[test]
fn a_drop_is_dealt_with() {
    let mut b = batch(vec![]);
    let folder = DroppedPath::Folder(vec!["/d/a.txt".into()]);
    let r = handle_drag_and_drop(&mut b, vec![folder], vec![], true, &new_item());
    assert_eq!((r.notice, r.taken), (Some(EMPTY_FOLDER), TakenIn::Nothing));
    let listed = vec![
        DroppedPath::Folder(vec!["/d/a.txt".into()]),
        DroppedPath::File("/d/b.png".into()),
    ];
    let one = vec![InlinePicture { bytes: png(2, 1), name: String::new() }];
    let r = handle_drag_and_drop(&mut b, listed, one, true, &new_item());
    assert_eq!((r.notice, r.taken), (None, TakenIn::Opened));
    assert_eq!((r.queue[0].path.as_str(), r.queue[0].name.as_str()), ("/d/b.png", "b.png"));
    assert_eq!((b.items[0].filename.as_str(), b.items[0].dimensions), ("image", (2, 1)));
    let mut b = batch(vec![]);
    let one = vec![InlinePicture { bytes: vec![1], name: "x".into() }];
    let r = handle_drag_and_drop(&mut b, vec![], one, true, &new_item());
    assert_eq!((r.taken, b.items.len()), (TakenIn::Refused, 0));
}

fn nothing_came() -> Arrivals {
    Arrivals {
        decoded: vec![],
        textures: vec![],
        recoloured: vec![],
        saved: vec![],
        files: vec![],
    }
}

fn file(name: &str, size: Option<(u32, u32)>) -> LoadedFile {
    LoadedFile { path: format!("/in/{name}"), name: name.to_string(), size }
}

#[test]
fn a_frame_deals_with_what_came_in() {
    let mut b = batch(vec![done(1), done(2)]);
    let got = Arrivals {
        decoded: vec![DecodedSource { item_id: 1, result: Ok(rgba(5)) }],
        saved: vec!["Saved".into(), "Save failed: x".into()],
        recoloured: vec![Recoloured { item_id: 2, result: Err("bad".into()) }],
        ..nothing_came()
    };
    let r = drain_background_channels(&mut b, got, &vec![None, None], 7, true, &new_item());
    assert!(r.decoded && r.new_result);
    assert_eq!(r.save_errors, vec![false, true]);
    let sync = r.after_decode.unwrap();
    assert_eq!(sync.textures.source.as_deref(), Some("source_1"));
    assert_eq!(sync.textures.result.as_deref(), Some("result_1_7"));
    assert!(r.after_texture.is_none() && r.after_import.is_none());
    assert!(b.items[1].result_rgba.is_none(), "the result in the background was put away");
    assert_eq!(b.items[1].status, BatchStatus::Error("bad".into()));

    let other = vec![ReadyTexture { item_id: 2, is_result: true }];
    let got = Arrivals { textures: other, ..nothing_came() };
    let r = drain_background_channels(&mut b, got, &vec![None, None], 8, true, &new_item());
    assert!(r.after_texture.is_none(), "a texture of another item draws nothing");
    let own = vec![ReadyTexture { item_id: 1, is_result: true }];
    let got = Arrivals { textures: own, ..nothing_came() };
    let r = drain_background_channels(&mut b, got, &vec![None, None], 8, true, &new_item());
    assert!(r.after_texture.is_some());
    assert!(b.items[0].drawn.result_texture && !b.items[0].drawn.result_tex_pending);
}

#[test]
fn files_come_in_a_few_per_frame() {
    let mut b = batch(vec![item(1)]);
    let got = Arrivals { files: vec![file("a.png", Some((3, 4)))], ..nothing_came() };
    let r = drain_background_channels(&mut b, got, &vec![None], 0, true, &new_item());
    assert!(r.imported.views_new && r.after_import.is_some());
    assert_eq!((b.selected_index, r.imported.process_from), (1, Some(2)));
    let got = Arrivals {
        files: vec![file("b.png", None), file("c.png", Some((1, 1)))],
        ..nothing_came()
    };
    let r = drain_background_channels(&mut b, got, &vec![None, None], 0, false, &new_item());
    assert!(!r.imported.views_new && r.imported.process_from.is_none());
    assert_eq!(ids(&b), vec![1, 2, 3]);
    assert_eq!(b.items[2].filename, "c.png");
    assert_eq!(b.selected_index, 1, "what is viewed stays");
}

#[test]
fn strokes_that_come_back_are_stored() {
    let mut b = batch(vec![item(1), item(2)]);
    let mut p = Processor::new(0);
    p.inpaint_latest_gen.insert(1, 4);
    let stroke = |item_id: u64, generation: u64| InpaintResult {
        item_id,
        rgba: Pixmap::from_raw(1, 1, vec![9, 9, 9, 255]).unwrap(),
        generation,
        cancelled: false,
        error: None,
    };
    let cancelled = InpaintResult { cancelled: true, ..stroke(2, 0) };
    let failed = InpaintResult { error: Some("no memory".into()), ..stroke(2, 0) };
    let results = vec![stroke(1, 3), cancelled, failed, stroke(1, 4)];
    let r = pump_inpaint_results(&mut p, &mut b, results, 6);
    assert_eq!(r.textures, vec![Some("inpaint_1_6".to_string())]);
    assert_eq!((r.cancelled, r.errors.len()), (vec![2], 1));
    assert_eq!(b.items[0].status, BatchStatus::Done);
    assert_eq!(b.items[0].result_rgba.as_ref().unwrap().data, vec![9, 9, 9, 255]);
    assert!(b.items[1].result_rgba.is_none());
    assert_eq!(ERASE_CANCELLED, "Erase cancelled");
}

#[test]
fn edits_take_effect_before_previews() {
    let mut i = item(1);
    let mut paths = HashMap::new();
    let edits = ToolbarEdits {
        clear_correction: false,
        preset_from: None,
        background: BgEdit::Picked { image: raw(3), path: "/bg.png".into() },
    };
    let r = settle_edits(&mut i, edits, BgLookup::Unknown, &mut paths);
    assert!(r.new_path && r.pick_error.is_none());
    let hash = i.settings.bg_image_hash.unwrap();
    assert_eq!(paths.get(&hash).map(String::as_str), Some("/bg.png"));
    assert_eq!(wanted_bg_path(&i, &paths), None, "the picture is there");

    let before = PresetSnapshot { settings: i.settings, applied_preset: "Prunr".into() };
    let edits =
        ToolbarEdits { clear_correction: true, preset_from: None, background: BgEdit::Clear };
    settle_edits(&mut i, edits, BgLookup::Unknown, &mut paths);
    assert!(i.bg_image.is_none() && i.settings.bg_image_hash.is_none());

    i.settings = before.settings;
    assert_eq!(wanted_bg_path(&i, &paths).as_deref(), Some("/bg.png"));
    let edits = ToolbarEdits {
        clear_correction: false,
        preset_from: Some(before),
        background: BgEdit::PickFailed("no file".into()),
    };
    let found = BgLookup::Found { image: raw(3), path: "/bg.png".into() };
    let r = settle_edits(&mut i, edits, found, &mut paths);
    assert!(matches!(r.preset_notice, BgNotice::Nothing));
    assert_eq!(r.pick_error.as_deref(), Some("Couldn't load background image: no file"));
    assert_eq!(i.settings.bg_image_hash, Some(hash), "the same picture has the same fingerprint");
    assert_eq!(i.preset_undo_stack.len(), 1);
}

#[test]
fn pictures_without_a_size_are_passed_over() {
    let mut b = batch(vec![item(1)]);
    let named = |name: &str| InlinePicture { bytes: vec![7], name: name.into() };
    let sizes = vec![Some((2, 3)), None, Some((4, 5))];
    let r = import_sized(
        &mut b,
        vec![named("a"), named("b"), named("c")],
        &sizes,
        true,
        &new_item(),
    );
    assert_eq!((r.views_new, r.process_from), (false, Some(2)));
    assert_eq!(ids(&b), vec![1, 2, 3]);
    assert_eq!((b.items[1].filename.as_str(), b.items[1].dimensions), ("a", (2, 3)));
    assert_eq!((b.items[2].filename.as_str(), b.items[2].dimensions), ("c", (4, 5)));
    assert_eq!(b.selected_index, 0);

    assert!(!add_to_batch_of_size(&mut b, vec![7], None, "d".into(), &new_item()));
    assert!(add_to_batch_of_size(&mut b, vec![7], Some((6, 6)), "e".into(), &new_item()));
    assert_eq!(ids(&b), vec![1, 2, 3, 4]);
}

#[test]
fn dropped_things_are_sorted() {
    let t = triage_drop(vec![
        Dropped::Path("/tmp/prunr-drag/a.png".into()),
        Dropped::Path("/home/b.png".into()),
        Dropped::Inline(vec![1], "c".into()),
        Dropped::Nothing,
    ]);
    assert_eq!(t.paths, vec!["/home/b.png".to_string()]);
    assert_eq!(t.inline_items.len(), 1);
    assert!(!t.only_own);
    assert!(triage_drop(vec![Dropped::Path("/tmp/prunr-drag/a.png".into())]).only_own);

    let (paths, empty) = expand_dropped_paths(vec![
        DroppedPath::File("/a.txt".into()),
        DroppedPath::Folder(vec!["/d/b.PNG".into(), "/d/c.txt".into()]),
        DroppedPath::Folder(vec![]),
    ]);
    assert_eq!(paths, vec!["/a.txt".to_string(), "/d/b.PNG".to_string()]);
    assert!(empty);
    assert!(is_supported_image_ext("x.SVG"));
    assert!(!is_supported_image_ext("x.gif"));
    assert!(!is_supported_image_ext("png"));
}

#[test]
fn one_picked_file_is_opened_at_once() {
    assert!(matches!(open_plan(vec!["/a".into()], true), OpenPlan::Open(p) if p == "/a"));
    match open_plan(vec!["/a/b.png".into(), "/".into()], true) {
        OpenPlan::Queue(q) => {
            assert_eq!(q[0].name, "b.png");
            assert_eq!(q[1].name, "untitled");
        }
        OpenPlan::Open(_) => panic!("two files are queued"),
    }
    assert!(matches!(open_plan(vec!["/a".into()], false), OpenPlan::Queue(_)));
}

#[test]
fn saving_goes_where_it_should() {
    let mut b = batch(vec![done(1), done(2), item(3)]);
    match handle_save_selected(&b, false) {
        SaveRoute::File { position, name } => assert_eq!((position, name.as_str()), (0, "pic1-nobg.png")),
        _ => panic!("the viewed result goes into a file"),
    }
    assert!(matches!(handle_save_selected(&b, true), SaveRoute::Layers(v) if v == vec![1]));
    b.items[1].selected = true;
    b.items[2].selected = true;
    assert!(matches!(handle_save_selected(&b, false), SaveRoute::Folder(v) if v == vec![1]));
    assert!(matches!(handle_save_selected(&b, true), SaveRoute::Layers(v) if v == vec![2]));
    assert!(matches!(handle_save_selected(&batch(vec![]), false), SaveRoute::Nothing));
    assert_eq!(save_item_to_file(&b, 1).as_deref(), Some("pic2-nobg.png"));
    assert_eq!(save_item_to_file(&b, 2), None);
    assert_eq!(save_path("/out", "a.jpg"), "/out/a-nobg.png");
    assert_eq!(layer_save(0, true), LayerSave::Whole);
    assert_eq!(layer_save(2, true), LayerSave::Layers);
    assert_eq!(layer_save(0, false), LayerSave::Nothing);
}

#[test]
fn saving_is_reported() {
    assert_eq!(saving_text(3, Saving::Images), "Saving 3 image(s)...");
    let t = SaveTally::of(&vec![true, false, true]);
    assert_eq!(t.message(Saving::Files), "Saved 2, failed 1");
    assert_eq!(SaveTally::of(&vec![true]).message(Saving::Files), "Saved 1 file(s)");
    assert_eq!(single_save_message(None), "Saved");
    assert_eq!(single_save_message(Some("full")), "Save failed: full");
}

#[test]
fn one_picture_is_copied() {
    let mut b = batch(vec![done(1), done(2), done(3)]);
    assert_eq!(handle_copy(&b).unwrap().position, 0);
    b.items[2].selected = true;
    let p = handle_copy(&b).unwrap();
    assert_eq!((p.position, p.hint.is_none()), (2, true));
    b.items[1].selected = true;
    let p = handle_copy(&b).unwrap();
    assert_eq!(p.position, 1);
    assert!(p.hint.as_ref().unwrap().starts_with("Copied 1 of 2 selected."));
    assert!(copy_message(true, p.hint).starts_with("Copied 1 of 2"));
    assert_eq!(copy_message(true, None), "Copied to clipboard");
    assert!(copy_message(false, None).starts_with("Could not copy"));
    assert!(handle_copy(&batch(vec![item(1)])).is_none());
}

#[test]
fn items_are_removed() {
    let mut b = batch(vec![item(1), item(2), item(3)]);
    b.items[2].selected = true;
    b.items[0].selected = true;
    b.selected_index = 2;
    let r = remove_selected(&mut b);
    assert_eq!((r.count, r.text.as_deref()), (2, Some("Removed 2 image(s)")));
    assert_eq!((ids(&b), b.selected_index), (vec![2], 0));
    b.items[0].history.push_back(
        HistoryEntry::new(rgba(1), None).demote_to_disk(Some("/h".to_string())),
    );
    assert_eq!(remove_batch_item(&mut b, 0), vec!["/h".to_string()]);
    assert!(b.items.is_empty());
}

#[test]
fn dragging_out_is_tried_or_explained_once() {
    let mut s = DragExportState::new();
    assert_eq!(initiate_drag_out(&mut s, &vec![1], 0, true), DragStep::Nothing);
    assert_eq!(initiate_drag_out(&mut s, &vec![1], 1, true), DragStep::Start);
    assert!(s.active);
    let r = initiate_drag_out(&mut s, &vec![1], 1, false);
    assert_eq!(r, DragStep::Unsupported { tell: true });
    assert!(!s.active);
    let r = initiate_drag_out(&mut s, &vec![1], 1, false);
    assert_eq!(r, DragStep::Unsupported { tell: false });
}

#[test]
fn checked_items_are_cancelled() {
    let mut b = batch(vec![item(1), item(2)]);
    for i in &mut b.items {
        i.status = BatchStatus::Processing;
    }
    b.items[1].selected = true;
    let mut p = Processor::new(0);
    assert_eq!(handle_cancel_selected(&mut b, &mut p), 1);
    assert_eq!(cancelling_text(1).as_deref(), Some("Cancelling 1 image(s)"));
    assert_eq!(cancelling_text(0), None);
    assert!(p.cancels.is_cancelled(2) && !p.cancels.is_cancelled(1));
    assert_eq!(b.items[1].status, BatchStatus::Pending);
    assert_eq!(b.items[0].status, BatchStatus::Processing);
}

fn change() -> ToolbarChange {
    ToolbarChange {
        cache_impact: CacheImpact::Nothing,
        auto_dispatch: DispatchKind::Nothing,
        line_mode_from: None,
        input_transform_changed: false,
        preset_applied: false,
        commit: false,
    }
}

#[test]
fn changes_lead_to_the_strongest_dispatch() {
    let mut i = done(1);
    let tc = ToolbarChange { preset_applied: true, ..change() };
    let d = resolve_auto_dispatch(&i, &tc, RequiredTier::Skip);
    assert_eq!(d, DispatchKind::Nothing);
    let d = resolve_auto_dispatch(&i, &tc, RequiredTier::MaskRerun);
    assert_eq!(d, DispatchKind::LivePreviewMask);
    i.applied_recipe = None;
    let d = resolve_auto_dispatch(&i, &tc, RequiredTier::Skip);
    assert_eq!(d, DispatchKind::SubprocessFullPipeline);
    i.settings.line_mode = LineMode::SubjectOutline;
    let tc = ToolbarChange { line_mode_from: Some(LineMode::Off), ..change() };
    let d = resolve_auto_dispatch(&i, &tc, RequiredTier::Skip);
    assert_eq!(d, DispatchKind::SubprocessAddEdge);
}

#[test]
fn a_knob_gives_a_preview() {
    let mut i = done(1);
    let mut lp = LivePreview::default();
    let now = 10 * DEBOUNCE;
    let tc = ToolbarChange { auto_dispatch: DispatchKind::LivePreviewMask, ..change() };
    let a = apply_toolbar_change(&mut i, &mut lp, &tc, RequiredTier::Skip, false, now);
    assert_eq!(a, ToolbarAction::Nothing);
    let a = apply_toolbar_change(&mut i, &mut lp, &tc, RequiredTier::Skip, true, now);
    assert_eq!(a, ToolbarAction::RepaintLater);
    assert!(lp.due_now(now).is_empty());
    let tc = ToolbarChange { commit: true, ..tc };
    let a = apply_toolbar_change(&mut i, &mut lp, &tc, RequiredTier::Skip, true, now);
    assert_eq!(a, ToolbarAction::Repaint);
    assert_eq!(lp.due_now(now).len(), 1);
    let tc = ToolbarChange { auto_dispatch: DispatchKind::SubprocessFullPipeline, ..change() };
    let a = apply_toolbar_change(&mut i, &mut lp, &tc, RequiredTier::Skip, true, now);
    assert_eq!(a, ToolbarAction::Process);
    i.status = BatchStatus::Pending;
    let a = apply_toolbar_change(&mut i, &mut lp, &tc, RequiredTier::Skip, true, now);
    assert_eq!(a, ToolbarAction::Nothing);
}

#[test]
fn the_background_follows_a_preset() {
    let mut i = item(1);
    assert!(matches!(reconcile_bg_image_after_preset(&mut i, BgLookup::Unknown), BgNotice::Nothing));
    i.settings.bg_image_hash = Some(5);
    let r = reconcile_bg_image_after_preset(
        &mut i,
        BgLookup::Found { image: raw(1), path: "/bg".into() },
    );
    assert!(matches!(r, BgNotice::Nothing));
    assert_eq!(i.settings.bg_image_hash, i.bg_image.as_ref().map(|b| b.hash));
    i.settings.bg_image_hash = Some(6);
    let r = reconcile_bg_image_after_preset(&mut i, BgLookup::Unknown);
    assert!(matches!(r, BgNotice::Info(_)));
    assert!(i.bg_image.is_none() && i.settings.bg_image_hash.is_none());
    i.settings.bg_image_hash = Some(6);
    let r = reconcile_bg_image_after_preset(&mut i, BgLookup::Failed("x".into()));
    assert!(matches!(r, BgNotice::Error(t) if t == "Couldn't load preset background: x"));
    assert_eq!(bg_load_failure("x"), "Couldn't load background image: x");
}

#[test]
fn undo_leaves_an_item_without_results_alone() {
    let mut b = batch(vec![item(1)]);
    b.items[0].status = BatchStatus::Done;
    b.items[0].drawn.source_texture = true;
    let r = handle_undo(&mut b, &vec![None]);
    assert_eq!((r.count, r.text), (0, None));
    assert_eq!(b.items[0].status, BatchStatus::Done);
    assert!(b.items[0].drawn.source_texture);
}

#[test]
fn undo_and_redo_walk_the_targets() {
    let mut b = batch(vec![done(1), done(2)]);
    for i in &mut b.items {
        i.history.push_back(HistoryEntry::new(rgba(0), None));
        i.history.push_back(HistoryEntry::new(rgba(9), None));
    }
    let files = vec![None, None];
    let r = handle_undo(&mut b, &files);
    assert_eq!((r.count, r.text.as_deref()), (1, Some("Undone")));
    assert_eq!(b.items[0].result_rgba.as_ref().unwrap().data, rgba(9).data);
    assert_eq!(b.items[1].result_rgba.as_ref().unwrap().data, rgba(2).data);
    b.items[0].selected = true;
    b.items[1].selected = true;
    let r = handle_undo(&mut b, &files);
    assert_eq!(r.text.as_deref(), Some("Undone 2 images"));
    let r = handle_redo(&mut b, &files);
    assert_eq!(r.text.as_deref(), Some("Restored 2 images"));
    assert_eq!(b.items[1].result_rgba.as_ref().unwrap().data, rgba(2).data);
    b.items[1].selected = false;
    let r = handle_redo(&mut b, &files);
    assert_eq!(r.text.as_deref(), Some("Result restored"));
    let r = handle_redo(&mut b, &files);
    assert_eq!((r.count, r.text), (0, None));
}

fn correction(hash: u64) -> MaskCorrection {
    MaskCorrection { width: 1, height: 1, cells: vec![1], hash }
}

#[test]
fn the_brush_undoes_strokes_first() {
    let mut b = batch(vec![done(1)]);
    b.items[0].commit_correction(correction(5));
    let mut lp = LivePreview::default();
    let now = 10 * DEBOUNCE;
    let mut brush = BrushState::default();
    assert!(!try_brush_undo(&mut b, &mut lp, &brush, now));
    brush.toggle();
    assert!(try_brush_undo(&mut b, &mut lp, &brush, now));
    assert!(b.items[0].mask_correction.is_none());
    assert_eq!(lp.due_now(now).len(), 1, "the mask is rerun at once");
    assert!(!try_brush_undo(&mut b, &mut lp, &brush, now));
    assert!(try_brush_redo(&mut b, &mut lp, &brush, now));
    assert_eq!(b.items[0].settings.correction_hash, Some(5));
    assert_eq!(stroke_text(HistoryDir::Undo), "Stroke undone");
    assert_eq!(stroke_text(HistoryDir::Redo), "Stroke restored");
}

#[test]
fn presets_are_walked_on_the_viewed_item() {
    let mut b = batch(vec![done(1)]);
    assert!(swap_preset_history(&mut b, HistoryDir::Undo, BgLookup::Unknown).is_none());
    b.items[0].preset_undo_stack.push_back(PresetSnapshot {
        settings: ItemSettings::default(),
        applied_preset: "Soft".into(),
    });
    let r = swap_preset_history(&mut b, HistoryDir::Undo, BgLookup::Unknown).unwrap();
    assert!(r.reprocess && matches!(r.notice, BgNotice::Nothing));
    assert_eq!((r.position, b.items[0].applied_preset.as_str()), (0, "Soft"));
}

#[test]
fn the_background_follows_walks_through_presets() {
    let mut b = batch(vec![item(1)]);
    b.items[0].set_bg_image(raw(4), Some("/bg.png".into()));
    let hash = b.items[0].settings.bg_image_hash.unwrap();
    let paths = HashMap::from([(hash, "/bg.png".to_string())]);
    b.items[0].preset_undo_stack.push_back(PresetSnapshot {
        settings: ItemSettings::default(),
        applied_preset: "Soft".into(),
    });
    assert_eq!(swap_bg_path(&b, HistoryDir::Undo, &paths), None);
    swap_preset_history(&mut b, HistoryDir::Undo, BgLookup::Unknown).unwrap();
    assert!(b.items[0].bg_image.is_none(), "the restored settings ask for none");

    assert_eq!(swap_bg_path(&b, HistoryDir::Redo, &paths).as_deref(), Some("/bg.png"));
    let found = BgLookup::Found { image: raw(4), path: "/bg.png".into() };
    let r = swap_preset_history(&mut b, HistoryDir::Redo, found).unwrap();
    assert!(!r.reprocess && matches!(r.notice, BgNotice::Nothing));
    assert_eq!(b.items[0].bg_image.as_ref().map(|bg| bg.hash), Some(hash));
    assert_eq!(b.items[0].settings.bg_image_hash, Some(hash));

    b.items[0].preset_undo_stack[0].settings.bg_image_hash = Some(7);
    assert_eq!(swap_bg_path(&b, HistoryDir::Undo, &paths), None);
    let r = swap_preset_history(&mut b, HistoryDir::Undo, BgLookup::Unknown).unwrap();
    assert!(matches!(r.notice, BgNotice::Info(_)));
    assert!(b.items[0].bg_image.is_none() && b.items[0].settings.bg_image_hash.is_none());
}

#[test]
fn drifted_settings_are_caught_once() {
    let mut b = batch(vec![done(1)]);
    let mut lp = LivePreview::default();
    let mut last = None;
    let now = 10 * DEBOUNCE;
    assert!(!recipe_drift_tripwire(&b, &mut lp, &mut last, now));
    assert!(last.is_some());
    b.items[0].settings.gamma = Scalar::from_bits(2.0f32.to_bits());
    assert!(recipe_drift_tripwire(&b, &mut lp, &mut last, now));
    assert_eq!(lp.due_now(now).len(), 1);
    lp.in_flight.insert(1, 1);
    assert!(!recipe_drift_tripwire(&b, &mut lp, &mut last, now), "a preview runs already");
}

#[test]
fn strokes_are_painted_on_the_last_result() {
    let mut i = done(1);
    let mut p = Processor::new(0);
    let mut brush = BrushSettings::default();
    brush.sd_prompt = "grass".into();
    brush.sd_steps = 13;
    brush.sd_seed = Some(4);
    brush.inpaint_sharpen = Scalar::from_bits(0.25f32.to_bits());
    brush.inpaint_grow = Scalar::from_bits(3.0f32.to_bits());
    assert!(dispatch_inpaint_for_item(&i, &mut p, &brush, None, false).is_none());
    i.commit_correction(correction(5));
    let d = dispatch_inpaint_for_item(&i, &mut p, &brush, None, false).unwrap();
    assert!(matches!(d.base, StrokeBase::Result(_)));
    assert_eq!((d.backend, d.dispatch.generation), (ModelId::LaMaFp32, 1));
    i.result_rgba = None;
    assert!(dispatch_inpaint_for_item(&i, &mut p, &brush, None, false).is_none());
    i.drawn.source_dyn = true;
    let d =
        dispatch_inpaint_for_item(&i, &mut p, &brush, Some(ModelId::SdV15InpaintFp16), true).unwrap();
    assert_eq!((d.tuning.backend, d.tuning.sd_steps), (ModelId::SdV15LcmInpaintFp16, 13));
    assert_eq!((d.tuning.sd_prompt.as_str(), d.tuning.sd_seed), ("grass", Some(4)));
    assert_eq!((d.tuning.sharpen, d.tuning.grow_px), (brush.inpaint_sharpen, brush.inpaint_grow));
    assert_eq!(p.inpaint_progress.get(&1), Some(&(0, 0)));
    assert!(matches!(d.base, StrokeBase::Kept));
    assert_eq!((d.backend, d.dispatch.generation), (ModelId::SdV15LcmInpaintFp16, 2));

    let mut b = batch(vec![item(1)]);
    b.items[0].commit_correction(correction(5));
    assert_eq!(apply_inpaint_result(&mut b, 1, rgba(7), 3).as_deref(), Some("inpaint_1_3"));
    assert!(b.items[0].mask_correction.is_none());
    assert!(b.items[0].has_stroke_undo());
    assert_eq!(b.items[0].status, BatchStatus::Done);
    assert!(apply_inpaint_result(&mut b, 9, rgba(7), 3).is_none());
}

#[test]
fn previews_become_results() {
    let mut b = batch(vec![done(1)]);
    b.items[0].settings.gamma = Scalar::from_bits(2.0f32.to_bits());
    let mask = MaskRecipe::from_settings(&b.items[0].settings.mask_settings());
    let r = PreviewResult {
        item_id: 1,
        rgba: Pixmap::from_raw(1, 1, vec![4, 3, 2, 1]).unwrap(),
        generation: 1,
        new_edge_mask: Some(EdgeMask { handle: 8, line_strength_bits: 0, scale: EdgeScale::Bold }),
        new_masked_base: None,
        is_final: true,
    };
    let gone = PreviewResult {
        item_id: 99,
        rgba: Pixmap::from_raw(1, 1, vec![0; 4]).unwrap(),
        generation: 1,
        new_edge_mask: None,
        new_masked_base: None,
        is_final: false,
    };
    assert!(!apply_completed_preview(&mut b, gone, mask));
    apply_completed_previews(&mut b, vec![r], &vec![mask]);
    assert_eq!(b.items[0].result_rgba.as_ref().unwrap().data, vec![4, 3, 2, 1]);
    assert_eq!(b.items[0].caches.edge_mask.unwrap().handle, 8);
    assert!(b.items[0].drawn.thumb_pending);
    let mut lp = LivePreview::default();
    let mut last = None;
    assert!(!recipe_drift_tripwire(&b, &mut lp, &mut last, 0), "the preview counts as applied");
}

#[test]
fn previews_need_pixels_and_edges() {
    let mut i = item(1);
    assert!(build_preview_inputs(&mut i, PreviewKind::Mask, None, false).is_none());
    i.source_rgba = Some(rgba(1));
    let r = build_preview_inputs(&mut i, PreviewKind::Mask, Some(MODEL), false).unwrap();
    assert!(r.has_seg && !r.has_cached_mask && !r.has_cached_base);
    assert!(i.drawn.source_dyn);
    assert!(build_preview_inputs(&mut i, PreviewKind::Edge, None, false).is_none());
    i.caches.edge_mask = Some(EdgeMask {
        handle: 1,
        line_strength_bits: i.settings.line_strength.bits,
        scale: i.settings.edge_scale,
    });
    let r = build_preview_inputs(&mut i, PreviewKind::Edge, None, true).unwrap();
    assert!(r.has_cached_mask);
}

#[test]
fn the_tweaked_edge_tensor_stays_at_hand() {
    let mut i = item(1);
    assert_eq!(edge_tensor_for_scale(&i, EdgeScale::Fused), EdgeLookup::Missing);
    i.caches.edge_tensors = Some(CachedTensor { handle: 4, size: 1 });
    assert_eq!(edge_tensor_for_scale(&i, EdgeScale::Fused), EdgeLookup::Decompress(4));
    edge_tensor_decompressed(&mut i, EdgeScale::Fused, 11);
    assert_eq!(edge_tensor_for_scale(&i, EdgeScale::Fused), EdgeLookup::Hot(11));
    edge_tensor_decompressed(&mut i, EdgeScale::Bold, 12);
    assert_eq!(i.caches.hot_edge, Some(HotEdgeTensor { scale: EdgeScale::Fused, handle: 11 }));
    assert!(!needs_second_scale(LineStyle::Solid));
}

#[test]
fn downloads_and_installs_are_reported() {
    assert_eq!(download_text("U2Net", None), "U2Net ready");
    assert_eq!(download_text("U2Net", Some("x")), "U2Net download failed: x");
    let done = DownloadEvent::Complete { id: ModelId::U2net };
    assert!(matches!(download_notice(&done, "U2Net"), DownloadNotice::Ready(t) if t == "U2Net ready"));
    let failed =
        DownloadEvent::Failed { id: ModelId::U2net, error: "x".into(), retryable: false };
    assert!(matches!(download_notice(&failed, "U2Net"), DownloadNotice::Failed(_)));
    let verifying = DownloadEvent::Verifying { id: ModelId::U2net };
    assert!(matches!(download_notice(&verifying, "U2Net"), DownloadNotice::Nothing));
    assert_eq!(runtime_text("OpenVINO", None), "OpenVINO installed");
    assert_eq!(runtime_text("OpenVINO", Some("x")), "OpenVINO install failed: x");
}
