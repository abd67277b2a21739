use prunr_app::memory::{
    model_overhead, per_engine_cost, safe_max_jobs, under_memory_pressure, AdmissionController,
    ImageMemCost,
};
use prunr_app::pipeline::ModelKind;

fn make_ctrl(budget: usize) -> AdmissionController {
    AdmissionController::with_budget(budget)
}

#[test]
fn admits_items_within_budget() {
    let mut ctrl = make_ctrl(100_000_000);
    ctrl.enqueue(vec![
        AdmissionController::estimate_cost(1, (3000, 2000), 1_000_000),
        AdmissionController::estimate_cost(2, (3000, 2000), 1_000_000),
        AdmissionController::estimate_cost(3, (3000, 2000), 1_000_000),
    ]);
    // Each image ~49 MB, budget 100 MB: 2 fit.
    assert!(ctrl.try_admit_next().is_some());
    assert!(ctrl.try_admit_next().is_some());
    assert!(ctrl.try_admit_next().is_none());
}

#[test]
fn force_admits_when_deadlocked() {
    let mut ctrl = make_ctrl(10_000);
    ctrl.enqueue(vec![AdmissionController::estimate_cost(1, (1000, 1000), 100)]);
    // Way over budget, but nothing is being processed.
    assert_eq!(ctrl.try_admit_next(), Some(1));
}

#[test]
fn release_frees_budget() {
    let mut ctrl = make_ctrl(100_000_000);
    ctrl.enqueue(vec![
        AdmissionController::estimate_cost(1, (3000, 2000), 1_000_000),
        AdmissionController::estimate_cost(2, (3000, 2000), 1_000_000),
        AdmissionController::estimate_cost(3, (3000, 2000), 1_000_000),
    ]);
    let id1 = ctrl.try_admit_next().unwrap();
    let _id2 = ctrl.try_admit_next().unwrap();
    assert!(ctrl.try_admit_next().is_none());
    ctrl.release(id1);
    assert!(ctrl.try_admit_next().is_some());
}

#[test]
fn is_complete_after_all_released() {
    let mut ctrl = make_ctrl(100_000_000);
    ctrl.enqueue(vec![AdmissionController::estimate_cost(1, (100, 100), 100)]);
    let id = ctrl.try_admit_next().unwrap();
    assert!(!ctrl.is_complete());
    ctrl.release(id);
    assert!(ctrl.is_complete());
}

#[test]
fn best_fit_prefers_largest_that_fits() {
    // Budget ~35 MB: big (~38 MB) does not fit, mid (~23 MB) is the largest that
    // does, smol (~8 MB) fits as well.
    let mut ctrl = make_ctrl(35_000_000);
    let big = AdmissionController::estimate_cost(1, (2200, 2200), 0);
    let mid = AdmissionController::estimate_cost(2, (1700, 1700), 0);
    let smol = AdmissionController::estimate_cost(3, (1000, 1000), 0);
    ctrl.enqueue(vec![big, mid, smol]);
    let admitted = ctrl.try_admit_next();
    assert_eq!(admitted, Some(2), "should prefer the largest fitting item");
}

#[test]
fn release_of_unadmitted_is_noop() {
    let mut ctrl = make_ctrl(100_000_000);
    ctrl.release(42);
    assert_eq!(ctrl.committed_bytes, 0);
}

#[test]
fn double_release_does_not_underflow() {
    let mut ctrl = make_ctrl(100_000_000);
    ctrl.enqueue(vec![AdmissionController::estimate_cost(1, (100, 100), 100)]);
    let id = ctrl.try_admit_next().unwrap();
    ctrl.release(id);
    ctrl.release(id);
    assert_eq!(ctrl.committed_bytes, 0);
}

#[test]
fn drains_all_items_even_when_every_one_exceeds_budget() {
    let mut ctrl = make_ctrl(5_000_000);
    let items: Vec<ImageMemCost> = (1..=10)
        .map(|i| AdmissionController::estimate_cost(i, (2000, 2000), 100))
        .collect();
    ctrl.enqueue(items);

    let mut drained = 0;
    let mut safety = 0;
    while !ctrl.is_complete() {
        safety += 1;
        if safety > 1000 {
            panic!("admission loop did not converge");
        }
        if let Some(id) = ctrl.try_admit_next() {
            drained += 1;
            ctrl.release(id);
        } else {
            break;
        }
    }
    assert_eq!(drained, 10);
    assert!(ctrl.is_complete());
}

#[test]
fn a_cost_is_the_pixels_twice_and_the_file() {
    let c = AdmissionController::estimate_cost(9, (3000, 2000), 1_000_000);
    assert_eq!(c.item_id, 9);
    assert_eq!(c.total, 49_000_000);
}

#[test]
fn waiting_items_stand_largest_first_and_equal_ones_in_order() {
    let mut ctrl = make_ctrl(0);
    ctrl.enqueue(vec![
        AdmissionController::estimate_cost(1, (10, 10), 0),
        AdmissionController::estimate_cost(2, (30, 10), 0),
        AdmissionController::estimate_cost(3, (10, 10), 0),
    ]);
    ctrl.enqueue(vec![AdmissionController::estimate_cost(4, (20, 10), 0)]);
    let ids: Vec<u64> = ctrl.pending.iter().map(|c| c.item_id).collect();
    assert_eq!(ids, vec![2, 4, 1, 3]);
    assert_eq!(ctrl.total_items, 4);
}

#[test]
fn a_forced_item_blocks_the_rest_until_it_is_released() {
    let mut ctrl = make_ctrl(1);
    ctrl.enqueue(vec![
        AdmissionController::estimate_cost(1, (20, 20), 0),
        AdmissionController::estimate_cost(2, (10, 10), 0),
    ]);
    assert_eq!(ctrl.try_admit_next(), Some(2), "the smallest is forced in");
    assert_eq!(ctrl.try_admit_next(), None);
    ctrl.release(2);
    assert_eq!(ctrl.try_admit_next(), Some(1));
}

#[test]
fn the_budget_is_a_share_of_free_memory_less_the_engines() {
    let model = ModelKind::Silueta;
    let free: u64 = 16_000_000_000;
    let overhead = model_overhead(false, model, 2);
    assert_eq!(overhead, per_engine_cost(model) * 2);
    let ctrl = AdmissionController::new(free, false, model, 2);
    assert_eq!(ctrl.budget_bytes, 13_600_000_000 - overhead);
    let starved = AdmissionController::new(0, true, model, 2);
    assert_eq!(starved.budget_bytes, 0);
}

#[test]
fn job_limits_follow_free_memory() {
    let model = ModelKind::BiRefNetLite;
    let cost = per_engine_cost(model) as u64;
    assert_eq!(safe_max_jobs(0, model), 1);
    assert_eq!(safe_max_jobs(cost * 6, model), 3);
    assert_eq!(safe_max_jobs(cost * 100, model), 8);
}

#[test]
fn pressure_begins_when_little_is_free() {
    assert!(!under_memory_pressure(0, 0));
    assert!(under_memory_pressure(100_000, 1));
    assert!(!under_memory_pressure(100_000, 99_999));
}
