use prunr_app::item_settings::ItemSettings;
use prunr_app::live_preview::{
    preview_result, LivePreview, Pending, PreviewInputs, PreviewKind, PreviewOutcome, PreviewPlan, PreviewResult,
    DEBOUNCE,
};
use prunr_app::pipeline::ModelKind;
use prunr_app::pixmap::Pixmap;
use std::sync::Arc;

fn pixels() -> Pixmap {
    Pixmap::from_raw(1, 1, vec![0, 0, 0, 0]).unwrap()
}

fn result(item_id: u64, generation: u64) -> PreviewResult {
    PreviewResult {
        item_id,
        rgba: pixels(),
        generation,
        new_edge_mask: None,
        new_masked_base: None,
        is_final: false,
    }
}

#[test]
fn debounce_is_reasonable() {
    let ms: u64 = 1_000_000;
    assert!(DEBOUNCE >= 100 * ms);
    assert!(DEBOUNCE <= 300 * ms);
}

#[test]
fn mark_tweak_inserts_pending() {
    let mut lp = LivePreview::default();
    lp.mark_tweak(0, 42, PreviewKind::Mask);
    assert!(lp.pending.contains_key(&42));
}

#[test]
fn has_in_flight_tracks_dispatch_lifecycle() {
    let mut lp = LivePreview::default();
    assert!(!lp.has_in_flight(), "fresh LivePreview is idle");
    lp.in_flight.insert(1, 1);
    assert!(lp.has_in_flight());
    lp.cancel_all();
    assert!(!lp.has_in_flight(), "cancel_all clears in_flight");
}

#[test]
fn mark_tweak_does_not_cancel_in_flight() {
    let mut lp = LivePreview::default();
    lp.in_flight.insert(7, 1);
    lp.mark_tweak(0, 7, PreviewKind::Edge);
    assert_eq!(
        lp.in_flight.get(&7),
        Some(&1),
        "in-flight dispatch must NOT be cancelled by a subsequent tweak",
    );
}

#[test]
fn mark_tweak_does_not_reset_timer_mid_drag() {
    let mut lp = LivePreview::default();
    lp.mark_tweak(1_000, 1, PreviewKind::Mask);
    let first_arm = lp.pending.get(&1).expect("armed").last_tweak_at;

    lp.mark_tweak(1_000 + 5_000_000, 1, PreviewKind::Mask);
    let second_arm = lp.pending.get(&1).expect("still armed").last_tweak_at;

    assert_eq!(
        first_arm, second_arm,
        "mid-drag tweaks must leave the original arm time in place",
    );
}

#[test]
fn tick_before_debounce_does_not_dispatch() {
    let mut lp = LivePreview::default();
    lp.mark_tweak(0, 1, PreviewKind::Mask);
    let tick = lp.tick(1, &vec![]);
    assert!(tick.wait.is_some(), "should still be pending");
    assert!(lp.in_flight.is_empty(), "no dispatch before debounce expires");
}

#[test]
fn cancel_all_clears_state() {
    let mut lp = LivePreview::default();
    lp.mark_tweak(0, 1, PreviewKind::Mask);
    lp.in_flight.insert(2, 1);
    lp.cancel_all();
    assert!(lp.pending.is_empty());
    assert!(lp.in_flight.is_empty());
}

#[test]
fn stale_generation_result_is_dropped() {
    let mut lp = LivePreview::default();
    lp.in_flight.insert(42, 5);
    let drained = lp.drain_results(vec![result(42, 1)]);
    assert!(drained.is_empty(), "stale generation must not be returned");
    assert!(
        lp.in_flight.contains_key(&42),
        "in-flight entry is preserved — the real dispatch hasn't completed",
    );
}

#[test]
fn matching_generation_result_is_accepted_and_clears_in_flight() {
    let mut lp = LivePreview::default();
    lp.in_flight.insert(99, 7);
    let drained = lp.drain_results(vec![result(99, 7)]);
    assert_eq!(drained.len(), 1);
    assert_eq!(drained[0].item_id, 99);
    assert!(
        !lp.in_flight.contains_key(&99),
        "once a fresh result is accepted, the in-flight slot is cleared",
    );
}

#[test]
fn result_for_unknown_item_is_dropped() {
    let mut lp = LivePreview::default();
    let drained = lp.drain_results(vec![result(777, 1)]);
    assert!(drained.is_empty());
}

#[test]
fn drain_sets_is_final_true_when_no_more_pending() {
    let mut lp = LivePreview::default();
    lp.in_flight.insert(11, 3);
    let drained = lp.drain_results(vec![result(11, 3)]);
    assert_eq!(drained.len(), 1);
    assert!(drained[0].is_final, "empty pending at drain time → result is final");
}

#[test]
fn drain_sets_is_final_false_while_user_still_tweaking() {
    let mut lp = LivePreview::default();
    lp.in_flight.insert(22, 2);
    lp.pending.insert(22, Pending { last_tweak_at: 0, kind: PreviewKind::Mask });
    let drained = lp.drain_results(vec![result(22, 2)]);
    assert_eq!(drained.len(), 1);
    assert!(!drained[0].is_final, "pending for this item means drag is still active");
}

#[test]
fn a_due_tweak_is_dispatched_where_it_can_be() {
    let mut lp = LivePreview::default();
    lp.mark_tweak(0, 1, PreviewKind::Mask);
    lp.mark_tweak(0, 2, PreviewKind::Edge);
    let tick = lp.tick(DEBOUNCE, &vec![1]);
    assert_eq!(tick.dispatched.len(), 1);
    assert_eq!(tick.dispatched[0].item_id, 1);
    assert_eq!(lp.in_flight.get(&1), Some(&tick.dispatched[0].generation));
}

#[test]
fn a_flushed_tweak_is_due_at_once() {
    let mut lp = LivePreview::default();
    let now = 10 * DEBOUNCE;
    lp.mark_tweak(now, 1, PreviewKind::Mask);
    assert!(lp.due_now(now).is_empty());
    lp.flush(now, 1);
    assert_eq!(lp.due_now(now).len(), 1);
    lp.flush(now, 99);
    assert!(!lp.pending.contains_key(&99), "nothing waits, nothing is flushed");
}

#[test]
fn previews_reuse_what_is_at_hand() {
    let inputs = PreviewInputs {
        kind: PreviewKind::Edge,
        has_seg: true,
        has_edge: true,
        has_cached_mask: true,
        has_cached_base: true,
    };
    assert_eq!(inputs.plan(false), PreviewPlan::ReuseBase);
    assert_eq!(inputs.plan(true), PreviewPlan::Abort);
    assert!(matches!(
        inputs.run_preview(PreviewPlan::ReuseBase, true),
        PreviewOutcome::Lines { on_source: false, build_mask: false, .. }
    ));
}

#[test]
fn a_preview_hands_back_what_it_built() {
    let s = ItemSettings::default();
    let base = || Some(Arc::new(pixels()));
    let model = Some(ModelKind::Silueta);
    let edge = PreviewKind::Edge;
    let r = preview_result(1, 2, edge, &s, model, Some(pixels()), Some(7), base(), false).unwrap();
    let mask = r.new_edge_mask.unwrap();
    assert_eq!((mask.handle, mask.line_strength_bits), (7, s.line_strength.bits));
    assert_eq!(mask.scale, s.edge_scale);
    assert_eq!(r.new_masked_base.unwrap().model, ModelKind::Silueta);
    assert!(!r.is_final);

    let kind = PreviewKind::Mask;
    let r = preview_result(1, 2, kind, &s, None, Some(pixels()), Some(7), base(), false).unwrap();
    assert!(r.new_edge_mask.is_none(), "a mask preview keeps no edge mask");
    assert!(r.new_masked_base.is_none(), "without a model there is nothing to keep it under");
    assert!(preview_result(1, 2, kind, &s, model, Some(pixels()), None, None, true).is_none());
    assert!(preview_result(1, 2, kind, &s, model, None, None, None, false).is_none());
}
