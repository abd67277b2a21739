use prunr_app::brush_state::SdScheduler;
use prunr_app::inpaint_bridge::BridgeError;
use prunr_app::item_settings::ItemSettings;
use prunr_app::memory::AdmissionController;
use prunr_app::pipeline::{ModelId, ModelKind, ProcessingRecipe};
use prunr_app::pixmap::Pixmap;
use prunr_app::processor::{
    begin_inpaint_sd, error_result, local_outcome, CancelRegistry, InpaintResult, InpaintTuning, Processor,
};
use std::sync::{Arc, Mutex};

fn fixture() -> Processor {
    Processor::new(1_000_000_000)
}

fn pixels(w: u32, h: u32) -> Pixmap {
    Pixmap::from_raw(w, h, vec![0; (w * h * 4) as usize]).unwrap()
}

#[test]
fn new_initialises_last_history_cleanup_recent() {
    let p = fixture();
    assert_eq!(p.last_history_cleanup, 1_000_000_000);
}

#[test]
fn drain_filters_stale_generations() {
    let mut p = fixture();
    p.inpaint_latest_gen.insert(7, 2);
    let results = vec![
        InpaintResult { item_id: 7, rgba: pixels(1, 1), generation: 1, cancelled: false, error: None },
        InpaintResult { item_id: 7, rgba: pixels(1, 1), generation: 2, cancelled: false, error: None },
    ];
    let d = p.drain_inpaint_results(results);
    assert_eq!(d.committed.len(), 1, "stale gen=1 must be dropped");
    assert_eq!(d.committed[0].generation, 2);
    assert!(d.cancelled.is_empty(), "no cancellation events expected");
    assert!(d.errors.is_empty(), "no dispatch errors expected");
}

#[test]
fn drain_routes_cancelled_results_to_cancellation_list() {
    let mut p = fixture();
    p.inpaint_latest_gen.insert(7, 5);
    p.inpaint_pending.insert(7, 1);
    let d = p.drain_inpaint_results(vec![InpaintResult {
        item_id: 7,
        rgba: pixels(0, 0),
        generation: 0,
        cancelled: true,
        error: None,
    }]);
    assert!(d.committed.is_empty(), "cancelled stroke must not commit a result");
    assert_eq!(d.cancelled, vec![7], "cancellation event must surface for the toast");
    assert!(d.errors.is_empty(), "cancel must not be reported as a dispatch error");
}

#[test]
fn drain_routes_dispatch_errors_to_error_list() {
    let mut p = fixture();
    p.inpaint_pending.insert(7, 1);
    let d = p.drain_inpaint_results(vec![InpaintResult {
        item_id: 7,
        rgba: pixels(0, 0),
        generation: 0,
        cancelled: false,
        error: Some("SD inpaint refused to load: only 13.4 GB free".to_string()),
    }]);
    assert!(d.committed.is_empty(), "errored stroke must not commit a result");
    assert!(d.cancelled.is_empty(), "errored stroke is not a cancel");
    assert_eq!(d.errors.len(), 1, "dispatch error must surface for the user toast");
    assert!(d.errors[0].contains("13.4 GB"));
}

#[test]
fn clear_admission_drops_both_sides_but_leaves_cancels() {
    let mut p = fixture();
    p.admission = Some(AdmissionController::with_budget(1));
    p.admission_open = true;
    p.cancels.request_global_cancel();
    assert!(p.admission_open);

    p.clear_admission();

    assert!(p.admission.is_none());
    assert!(!p.admission_open);
    assert!(
        p.cancels.is_cancelled(999),
        "clear_admission must leave cancel registry untouched — that's the caller's protocol"
    );
}

#[test]
fn cancel_registry_clone_shares_state() {
    let r = Arc::new(Mutex::new(CancelRegistry::new()));
    let handle = r.clone();
    assert!(!handle.lock().unwrap().is_cancelled(5));
    r.lock().unwrap().request_global_cancel();
    assert!(handle.lock().unwrap().is_cancelled(5), "Clone must observe the global store");
}

#[test]
fn cancel_registry_per_item_is_independent_of_global() {
    let mut r = CancelRegistry::new();
    r.request_item_cancel(42);
    assert!(r.is_cancelled(42));
    assert!(!r.is_cancelled(7), "per-item cancel must not leak to other ids");
}

#[test]
fn cancel_registry_reset_clears_all_flags() {
    let mut r = CancelRegistry::new();
    r.request_global_cancel();
    r.request_item_cancel(42);
    r.reset();
    assert!(!r.is_cancelled(42));
    assert!(!r.is_cancelled(99));
}

#[test]
fn global_cancel_short_circuits_per_item_lookup() {
    let mut r = CancelRegistry::new();
    r.request_global_cancel();
    assert!(r.is_cancelled(u64::MAX));
}

fn fixture_recipe() -> ProcessingRecipe {
    ItemSettings::default().current_recipe(ModelKind::Silueta, false)
}

#[test]
fn track_dispatch_then_take_returns_recipe_per_item() {
    let mut p = fixture();
    p.track_dispatch(fixture_recipe(), &vec![10, 20, 30]);
    assert!(p.take_recipe(10).is_some());
    assert!(p.take_recipe(20).is_some());
    assert!(p.in_flight.is_some());
    assert!(p.take_recipe(30).is_some());
    assert!(p.in_flight.is_none());
}

#[test]
fn take_recipe_unknown_id_is_none() {
    let mut p = fixture();
    p.track_dispatch(fixture_recipe(), &vec![1]);
    assert!(p.take_recipe(999).is_none(), "unknown id must not return a recipe");
    assert!(p.take_recipe(1).is_some());
}

#[test]
fn track_streamed_inherits_batch_recipe() {
    let mut p = fixture();
    p.track_dispatch(fixture_recipe(), &vec![1]);
    p.track_streamed(2);
    assert!(p.take_recipe(1).is_some());
    assert!(p.take_recipe(2).is_some(), "streamed item must have a recipe");
}

#[test]
fn drain_recipes_clears_pending() {
    let mut p = fixture();
    p.track_dispatch(fixture_recipe(), &vec![1, 2, 3]);
    p.drain_recipes();
    assert!(
        p.take_recipe(1).is_none(),
        "drain must drop the slot so late deliveries fall back"
    );
}

#[test]
fn inpaint_in_flight_blocks_brush_gate_for_selected_item() {
    let mut p = fixture();
    *p.inpaint_pending.entry(42).or_insert(0) += 1;
    assert!(
        p.is_inpaint_in_flight(42),
        "pending count > 0 must report in-flight for the canvas brush gate"
    );
    assert!(!p.is_inpaint_in_flight(99), "in-flight state must be item-scoped, not global");
}

#[test]
fn inpaint_cancelling_is_independent_of_in_flight_count() {
    let mut p = fixture();
    *p.inpaint_pending.entry(7).or_insert(0) += 1;
    p.inpaint_cancels.insert(7, true);
    assert!(p.is_inpaint_in_flight(7), "in-flight must still be true during cancel");
    assert!(p.is_inpaint_cancelling(7), "cancelling must reflect the flag");
}

#[test]
fn zero_cancel_is_cancelled_does_not_touch_mutex() {
    let r = CancelRegistry::new();
    assert!(!r.is_cancelled(42));
    assert!(!r.is_global_cancelled());
}

#[test]
fn strokes_are_numbered_and_cancelled_per_item() {
    let mut p = fixture();
    let a = p.dispatch_inpaint(7, ModelId::LaMaFp32);
    let b = p.dispatch_inpaint(7, ModelId::SdV15InpaintFp16);
    assert_eq!((a.generation, b.generation), (1, 2));
    assert!(!a.in_worker && b.in_worker);
    assert!(p.any_inpaint_in_flight());
    assert_eq!(p.inpaint_progress(7), (0, 0));
    p.cancel_inpaint(7);
    assert!(p.is_inpaint_cancelling(7));
    p.dispatch_inpaint(8, ModelId::LaMaFp32);
    let mut all = p.cancel_all_inpaints();
    all.sort();
    assert_eq!(all, vec![7, 8]);
}

#[test]
fn an_overtaken_stroke_never_comes_through() {
    let mut p = fixture();
    let first = p.dispatch_inpaint(7, ModelId::LaMaFp32);
    p.dispatch_inpaint(7, ModelId::LaMaFp32);
    let late = local_outcome(7, first.generation, Ok(pixels(1, 1)));
    let d = p.drain_inpaint_results(vec![late]);
    assert!(d.committed.is_empty());
    assert!(p.is_inpaint_in_flight(7), "the newer stroke still runs");
}

#[test]
fn failed_strokes_say_why() {
    let cancelled = error_result(7, BridgeError::Cancelled);
    assert!(cancelled.cancelled);
    let failed = error_result(7, BridgeError::Failed("no memory".into()));
    assert_eq!(failed.error.as_deref(), Some("no memory"));
    assert!(!failed.cancelled);
}

#[test]
fn only_stable_diffusion_is_asked_of_the_worker() {
    let mut t = InpaintTuning::default();
    assert!(t.sd_request(true).is_none());
    t.backend = ModelId::SdV15InpaintFp16;
    let q = t.sd_request(true).expect("a request");
    assert_eq!(q.num_inference_steps, 8);
    assert!(q.use_taesd && !t.sd_request(false).unwrap().use_taesd);
    t.sd_use_taesd = Some(false);
    assert!(!t.sd_request(true).unwrap().use_taesd, "the opt-out holds at dispatch");
    t.sd_use_taesd = Some(true);
    t.sd_scheduler = SdScheduler::Ddim;
    assert!(t.sd_request(true).unwrap().use_taesd, "whatever the schedule");
    assert!(!t.grows_mask());
}

#[test]
fn answers_follow_the_cancels_since_the_last_reset() {
    let mut r = CancelRegistry::new();
    r.request_item_cancel(1);
    r.request_global_cancel();
    assert!(r.is_cancelled(1) && r.is_cancelled(2));
    r.reset();
    assert!(!r.is_cancelled(1) && !r.is_cancelled(2));
    r.request_item_cancel(2);
    assert!(!r.is_cancelled(1) && r.is_cancelled(2));
}

#[test]
fn a_stroke_cancelled_before_its_files_are_written_comes_to_nothing() {
    assert!(begin_inpaint_sd(4, false).is_none());
    let r = begin_inpaint_sd(4, true).unwrap();
    assert!(r.cancelled && r.error.is_none());
    assert_eq!((r.item_id, r.generation), (4, 0));
}
