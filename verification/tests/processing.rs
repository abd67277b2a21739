use prunr_app::app_dispatch::{
    admission_release_and_admit, admit_all, build_add_edge_work, build_tier2_work,
    dispatch_batch, dispatch_small_batch, dispatch_with_admission, full_run_costs, hold_waiting, initial_processing_config, item_cost_fits,
    jobs_for, queue_full_runs, seed_history_for_reprocess, start_full_runs, AdmissionAction, AdmissionEvent, Loaded,
};
use prunr_app::app_process::{
    classify_candidates, classify_item, handle_remove_bg, notify_skip, process_items, ProcessPlan,
    TierClass,
};
use prunr_app::app_results::{
    apply_filter_result, backend_ready, batch_report, demote_history_to_disk,
    filter_results_arrived, on_batch_complete,
    on_batch_item_done, on_batch_progress, on_cancelled, on_subprocess_retry, take_dispatch_recipe,
    ItemDone, ItemOutcome, Recoloured,
};
use prunr_app::batch_manager::BatchManager;
use prunr_app::item::{
    BatchItem, BatchStatus, CachedTensor, HistoryEntry, HistorySlot, ImageSource, ProcessResult,
};
use prunr_app::item_settings::ItemSettings;
use prunr_app::memory::AdmissionController;
use prunr_app::pipeline::{FillStyle, LineMode, ModelKind, ProgressStage, RequiredTier, Scalar};
use prunr_app::pixmap::Pixmap;
use prunr_app::processor::Processor;
use prunr_app::tables::set_of;
use std::sync::Arc;

const MODEL: ModelKind = ModelKind::Silueta;

fn item(id: u64) -> BatchItem {
    BatchItem::new(
        id,
        format!("{id}.png"),
        ImageSource::Bytes(Arc::new(vec![0; 100])),
        (10, 10),
        ItemSettings::default(),
        "Prunr".to_string(),
    )
}

fn rgba(v: u8) -> Arc<Pixmap> {
    Arc::new(Pixmap::from_raw(2, 2, [v, v, v, 255].repeat(4)).unwrap())
}

/// A finished item with a cached segmentation.
fn done(id: u64) -> BatchItem {
    let mut i = item(id);
    i.status = BatchStatus::Done;
    i.result_rgba = Some(rgba(id as u8));
    i.applied_recipe = Some(i.settings.current_recipe(MODEL, false));
    i.caches.tensor = Some(CachedTensor { handle: id, size: 10 });
    i
}

fn batch(items: Vec<BatchItem>) -> BatchManager {
    let mut b = BatchManager::new();
    b.next_id = items.iter().map(|i| i.id + 1).max().unwrap_or(0);
    b.items = items;
    b
}

#[test]
fn an_item_gets_no_more_than_it_needs() {
    let mut never = item(1);
    assert_eq!(classify_item(&mut never, MODEL, false, RequiredTier::Skip), TierClass::Full);

    let mut same = done(2);
    assert_eq!(classify_item(&mut same, MODEL, false, RequiredTier::Skip), TierClass::UpToDate);

    let mut mask = done(3);
    mask.settings.gamma = Scalar::from_bits(2.0f32.to_bits());
    assert_eq!(classify_item(&mut mask, MODEL, false, RequiredTier::MaskRerun), TierClass::MaskRerun);

    let mut outline = done(4);
    outline.settings.line_mode = LineMode::SubjectOutline;
    let class = classify_item(&mut outline, MODEL, false, RequiredTier::MaskRerun);
    assert_eq!(class, TierClass::AddEdge);

    let mut evicted = done(5);
    evicted.caches.tensor = None;
    let class = classify_item(&mut evicted, MODEL, false, RequiredTier::MaskRerun);
    assert_eq!(class, TierClass::Full);
    let class = classify_item(&mut evicted, MODEL, false, RequiredTier::AddEdgeInference);
    assert_eq!(class, TierClass::Full);

    let mut edges = done(6);
    assert_eq!(classify_item(&mut edges, MODEL, false, RequiredTier::EdgeRerun), TierClass::Full);

    let mut chained = done(7);
    assert_eq!(classify_item(&mut chained, MODEL, true, RequiredTier::Skip), TierClass::Full);
    assert!(chained.caches.tensor.is_none(), "the input of a chain changes each time");
}

#[test]
fn candidates_are_sorted_in_batch_order() {
    let mut items = vec![item(1), done(2), done(3), item(4)];
    items[3].status = BatchStatus::Processing;
    let wanted = set_of(&vec![1, 2, 3, 4]);
    let tiers = vec![
        RequiredTier::Skip,
        RequiredTier::Skip,
        RequiredTier::MaskRerun,
        RequiredTier::Skip,
    ];
    let t = classify_candidates(&mut items, &wanted, &tiers, MODEL, false);
    assert_eq!(t.tier1, vec![1]);
    assert_eq!(t.tier2, vec![3]);
    assert!(t.tier_add_edge.is_empty());
    assert_eq!(t.skip_count, 1);
    assert_eq!(t.all_process_ids(), vec![1, 3]);
}

#[test]
fn skipped_items_are_mentioned() {
    assert_eq!(notify_skip(0, 3), None);
    assert_eq!(notify_skip(1, 0).as_deref(), Some("Already up to date"));
    assert_eq!(notify_skip(4, 0).as_deref(), Some("4 images already up to date"));
    assert_eq!(notify_skip(4, 2).as_deref(), Some("4 up to date, processing 2"));
}

#[test]
fn without_model_and_lines_pictures_are_only_recoloured() {
    let mut items = vec![item(1), item(2)];
    items[1].settings.fill_style = FillStyle::Invert;
    let wanted = set_of(&vec![2]);
    let tiers = vec![RequiredTier::Skip; 2];
    match process_items(&mut items, &wanted, &tiers, None, false) {
        ProcessPlan::FilterOnly(jobs) => {
            assert_eq!(jobs.len(), 1);
            assert_eq!((jobs[0].item_id, jobs[0].fill_style), (2, FillStyle::Invert));
        }
        ProcessPlan::Classified(_) => panic!("no model is needed"),
    }
    assert_eq!(items[1].status, BatchStatus::Processing);
    assert_eq!(items[0].status, BatchStatus::Pending);

    items[1].status = BatchStatus::Pending;
    items[0].settings.line_mode = LineMode::EdgesOnly;
    match process_items(&mut items, &wanted, &tiers, None, false) {
        ProcessPlan::Classified(run) => {
            assert_eq!(run.model, ModelKind::BiRefNetLite);
            assert!(run.starts && !run.streamed);
        }
        ProcessPlan::FilterOnly(_) => panic!("lines need a detector"),
    }
}

#[test]
fn the_button_processes_its_targets() {
    let mut b = batch(vec![item(1), item(2), item(3)]);
    let tiers = vec![RequiredTier::Skip; 3];
    b.selected_index = 1;
    match handle_remove_bg(&mut b, &tiers, Some(MODEL), false) {
        Some(ProcessPlan::Classified(run)) => assert_eq!(run.tiers.tier1, vec![2]),
        _ => panic!("the viewed item is processed"),
    }
    b.items[0].selected = true;
    b.items[2].selected = true;
    match handle_remove_bg(&mut b, &tiers, Some(MODEL), false) {
        Some(ProcessPlan::Classified(run)) => {
            assert_eq!(run.tiers.tier1, vec![1, 3]);
            assert!(run.streamed);
        }
        _ => panic!("the checked items are processed"),
    }
    assert!(handle_remove_bg(&mut batch(vec![]), &vec![], Some(MODEL), false).is_none());
}

#[test]
fn a_rerun_keeps_what_it_replaces() {
    let mut items = vec![done(1), done(2)];
    items[0].source_rgba = Some(rgba(0));
    items[0].drawn.result_texture = true;
    let dropped = seed_history_for_reprocess(&mut items, &set_of(&vec![1]), 10, false);
    assert!(dropped.iter().all(|d| d.is_empty()));
    assert_eq!(items[0].history.len(), 2, "the source and the result");
    assert!(items[0].result_rgba.is_none());
    assert!(!items[0].drawn.result_texture);
    assert!(items[1].result_rgba.is_some());
}

#[test]
fn reruns_need_their_tensor_and_file() {
    let ids = set_of(&vec![1, 2, 3, 4]);
    let mut items = vec![done(1), done(2), done(3), item(4)];
    let loads =
        vec![Loaded::Ready, Loaded::TensorCorrupt, Loaded::Failed("gone".into()), Loaded::Ready];
    let work = build_tier2_work(&mut items, &ids, &loads);
    assert_eq!(work.iter().map(|w| w.item_id).collect::<Vec<_>>(), vec![1]);
    assert_eq!(items[0].status, BatchStatus::Processing);
    assert_eq!(items[1].status, BatchStatus::Error("Tensor cache corrupt".into()));
    assert!(items[1].caches.tensor.is_none() && items[1].applied_recipe.is_none());
    assert_eq!(items[2].status, BatchStatus::Error("Failed to load: gone".into()));
    assert!(items[2].caches.tensor.is_none());
    assert_eq!(items[3].status, BatchStatus::Pending, "without a tensor there is no rerun");

    let mut items = vec![done(1), done(2)];
    let loads = vec![Loaded::TensorCorrupt, Loaded::Failed("gone".into())];
    assert!(build_add_edge_work(&mut items, &ids, &loads).is_empty());
    assert_eq!(items[0].status, BatchStatus::Error("Seg tensor cache corrupt".into()));
    assert!(items[1].caches.tensor.is_some(), "adding edges keeps the segmentation");
}

#[test]
fn a_batch_is_processed_as_it_is_seen() {
    let mut b = batch(vec![item(1), item(2)]);
    b.items[0].settings.gamma = Scalar::from_bits(2.0f32.to_bits());
    let mut p = Processor::new(0);
    p.cancels.request_global_cancel();
    let runs = start_full_runs(&mut b, &vec![1, 2], &vec![true, false], false);
    assert_eq!(runs.len(), 1);
    assert_eq!(b.items[0].status, BatchStatus::Processing);
    let config =
        dispatch_batch(&mut b, &mut p, &runs, &vec![], &vec![], MODEL, 3, false, true, None)
            .expect("something is handed out");
    assert_eq!((config.model, config.jobs, config.force_cpu), (MODEL, 3, true));
    assert_eq!(config.mask.gamma, b.items[0].settings.gamma);
    assert!(!p.cancels.is_cancelled(1), "earlier cancels no longer count");
    assert_eq!(
        take_dispatch_recipe(&mut p, &b, 1, Some(MODEL), false),
        Some(b.items[0].settings.current_recipe(MODEL, false))
    );

    let nothing =
        dispatch_batch(&mut b, &mut p, &vec![], &vec![], &vec![], MODEL, 3, false, true, None);
    assert!(nothing.is_none());
}

#[test]
fn items_are_admitted_as_memory_allows() {
    let mut b = batch(vec![item(1), item(2), item(3)]);
    let ids = set_of(&vec![1, 2, 3]);
    let costs = full_run_costs(&b.items, &ids, &vec![None; 3]);
    assert_eq!(costs[0].total, 900);
    let mut ctrl = AdmissionController::with_budget(1800);
    ctrl.enqueue(costs);
    let now = admit_all(&mut ctrl);
    assert_eq!(now, vec![1, 2]);
    let runs = start_full_runs(&mut b, &now, &vec![true, true], false);
    hold_waiting(&mut b.items, &ids);
    assert_eq!(b.items[2].status, BatchStatus::Pending);
    let mut p = Processor::new(0);
    dispatch_batch(&mut b, &mut p, &runs, &vec![], &vec![], MODEL, 1, false, false, Some(ctrl));

    let action = admission_release_and_admit(&mut p, &mut b, AdmissionEvent::Completed(1), false);
    assert!(matches!(action, AdmissionAction::Load(3)));
    let action = admission_release_and_admit(&mut p, &mut b, AdmissionEvent::Loaded(3), false);
    assert!(matches!(action, AdmissionAction::Send(w) if w.item_id == 3));
    assert_eq!(b.items[2].status, BatchStatus::Processing);
    let action = admission_release_and_admit(&mut p, &mut b, AdmissionEvent::Sent(3), false);
    assert!(matches!(action, AdmissionAction::Over));
    assert!(p.take_recipe(3).is_some(), "a streamed item has the recipe of its batch");
    admission_release_and_admit(&mut p, &mut b, AdmissionEvent::Completed(2), false);
    assert!(p.admission.is_some());
    admission_release_and_admit(&mut p, &mut b, AdmissionEvent::Completed(3), false);
    assert!(p.admission.is_none(), "everything was admitted and has come back");
}

#[test]
fn full_runs_are_queued_largest_first() {
    let mut items = vec![item(1), item(2), item(3)];
    items[1].dimensions = (20, 10);
    let mut ctrl = AdmissionController::with_budget(2600);
    let ids = set_of(&vec![1, 2, 3]);
    let now = queue_full_runs(&items, &ids, &vec![None; 3], &mut ctrl);
    assert_eq!(now, vec![2, 1]);
    assert_eq!(ctrl.pending.len(), 1);
    assert!(item_cost_fits(&items[0], None));
    items[0].dimensions = (u32::MAX, u32::MAX);
    assert!(!item_cost_fits(&items[0], Some(usize::MAX)));
}

#[test]
fn a_small_batch_is_handed_out_at_once() {
    let mut b = batch(vec![item(1), item(2)]);
    let mut p = Processor::new(0);
    let none = vec![];
    let r = dispatch_small_batch(
        &mut b, &mut p, &vec![1, 2], &vec![false, true], &none, &none, MODEL, 2, false, false,
    );
    assert_eq!(r.full.iter().map(|w| w.item_id).collect::<Vec<_>>(), vec![2]);
    assert_eq!(r.config.unwrap().jobs, 2);
    assert_eq!(b.items[0].status, BatchStatus::Pending);
    assert_eq!(b.items[1].status, BatchStatus::Processing);
    assert!(p.admission.is_none());
    let r = dispatch_small_batch(
        &mut b, &mut p, &vec![1], &vec![false], &none, &none, MODEL, 2, false, false,
    );
    assert!(r.full.is_empty() && r.config.is_none());
}

#[test]
fn a_large_batch_is_handed_out_by_and_by() {
    let mut b = batch(vec![item(1), item(2)]);
    let mut p = Processor::new(0);
    let none = vec![];
    let waiting = set_of(&vec![1, 2]);
    let mut ctrl = AdmissionController::with_budget(900);
    let admitted = queue_full_runs(&b.items, &waiting, &vec![None; 2], &mut ctrl);
    assert_eq!(admitted, vec![1]);
    b.items[1].status = BatchStatus::Error("before".into());
    let r = dispatch_with_admission(
        &mut b, &mut p, &waiting, &admitted, &vec![true], ctrl, &none, &none, MODEL, 1, false,
        false,
    );
    assert_eq!(r.full.len(), 1);
    assert!(r.config.is_some() && p.admission.is_some() && p.admission_open);
    assert_eq!(b.items[0].status, BatchStatus::Processing);
    assert_eq!(b.items[1].status, BatchStatus::Pending);
}

#[test]
fn recoloured_pictures_arrive_together() {
    let mut b = batch(vec![item(1), item(2)]);
    let arrived = vec![
        Recoloured { item_id: 2, result: Ok(rgba(9)) },
        Recoloured { item_id: 7, result: Ok(rgba(9)) },
        Recoloured { item_id: 1, result: Err("bad".into()) },
    ];
    assert!(filter_results_arrived(&mut b, arrived));
    assert_eq!(b.items[0].status, BatchStatus::Error("bad".into()));
    assert_eq!(b.items[1].status, BatchStatus::Done);
    assert!(!filter_results_arrived(&mut b, vec![]));
}

#[test]
fn admission_stops_when_the_worker_is_gone() {
    let mut b = batch(vec![item(1), item(2)]);
    let mut ctrl = AdmissionController::with_budget(900);
    ctrl.enqueue(full_run_costs(&b.items, &set_of(&vec![1, 2]), &vec![None; 2]));
    assert_eq!(admit_all(&mut ctrl), vec![1]);
    let mut p = Processor::new(0);
    p.admission = Some(ctrl);
    p.admission_open = true;
    admission_release_and_admit(&mut p, &mut b, AdmissionEvent::Completed(1), false);
    admission_release_and_admit(&mut p, &mut b, AdmissionEvent::Loaded(2), false);
    let action = admission_release_and_admit(&mut p, &mut b, AdmissionEvent::NotSent, false);
    assert!(matches!(action, AdmissionAction::Over));
    let action = admission_release_and_admit(&mut p, &mut b, AdmissionEvent::NotLoaded, false);
    assert!(matches!(action, AdmissionAction::Over));
}

#[test]
fn jobs_are_limited() {
    assert_eq!(jobs_for(8, 3), 3);
    assert_eq!(jobs_for(2, 3), 2);
    assert!(initial_processing_config(None, 2, false).is_none());
    let c = initial_processing_config(Some(MODEL), 2, false).unwrap();
    assert_eq!((c.jobs, c.line_mode), (2, LineMode::Off));
}

fn outcome(provider: &str) -> ItemOutcome {
    ItemOutcome::Finished(ProcessResult {
        rgba_image: Pixmap::from_raw(1, 1, vec![1, 2, 3, 4]).unwrap(),
        active_provider: provider.into(),
    })
}

#[test]
fn a_finished_item_gets_its_result_and_recipe() {
    let mut b = batch(vec![item(1), item(2)]);
    let mut p = Processor::new(0);
    let recipe = b.items[0].settings.current_recipe(ModelKind::U2net, true);
    p.track_dispatch(recipe, &vec![1, 2]);
    b.items[0].status = BatchStatus::Processing;
    let r = on_batch_item_done(&mut p, &mut b, 1, outcome("CUDA"), None, None, Some(MODEL), false);
    match r {
        ItemDone::Applied { provider, selected } => {
            assert_eq!(provider.as_deref(), Some("CUDA"));
            assert!(selected);
        }
        _ => panic!("the result is stored"),
    }
    assert_eq!(b.items[0].status, BatchStatus::Done);
    assert_eq!(b.items[0].applied_recipe, Some(recipe));

    let late = on_batch_item_done(&mut p, &mut b, 2, outcome(""), None, None, Some(MODEL), false);
    assert!(matches!(late, ItemDone::Late));
    let gone = on_batch_item_done(&mut p, &mut b, 99, outcome(""), None, None, Some(MODEL), false);
    assert!(matches!(gone, ItemDone::Gone));
}

#[test]
fn a_cancelled_item_waits_again() {
    let mut b = batch(vec![done(1)]);
    b.items[0].status = BatchStatus::Processing;
    let mut p = Processor::new(0);
    let r = on_batch_item_done(
        &mut p,
        &mut b,
        1,
        ItemOutcome::Cancelled,
        None,
        None,
        Some(MODEL),
        false,
    );
    assert!(matches!(r, ItemDone::Cancelled));
    assert_eq!(b.items[0].status, BatchStatus::Pending);
    assert!(b.items[0].caches.tensor.is_some() && b.items[0].applied_recipe.is_some());
}

#[test]
fn a_failed_item_says_why() {
    let mut b = batch(vec![done(1)]);
    b.items[0].status = BatchStatus::Processing;
    let mut p = Processor::new(0);
    on_batch_item_done(
        &mut p,
        &mut b,
        1,
        ItemOutcome::Failed("boom".into()),
        None,
        None,
        Some(MODEL),
        false,
    );
    assert_eq!(b.items[0].status, BatchStatus::Error("boom".into()));
    let report = on_batch_complete(&mut p, &b).unwrap();
    assert_eq!((report.text.as_str(), report.failed), ("Image failed: boom", true));
}

#[test]
fn a_batch_ends_with_a_report() {
    let text = |d, e, p, m| batch_report(d, e, p, m).map(|r| r.text);
    assert_eq!(text(3, 0, 0, None).as_deref(), Some("All done \u{2014} 3 images processed"));
    assert_eq!(text(3, 0, 1, None), None);
    assert_eq!(text(0, 2, 1, Some("x")).as_deref(), Some("2 image(s) failed \u{2014} first: x"));
    assert_eq!(text(0, 1, 0, None).as_deref(), Some("Image failed: unknown error"));
}

#[test]
fn a_cancelled_batch_admits_nothing_more() {
    let mut p = Processor::new(0);
    p.admission = Some(AdmissionController::with_budget(1));
    p.admission_open = true;
    p.track_dispatch(item(1).settings.current_recipe(MODEL, false), &vec![1]);
    assert_eq!(on_cancelled(&mut p), "Cancelled");
    assert!(p.admission.is_none() && p.in_flight.is_none());
}

#[test]
fn progress_of_the_viewed_item_is_shown() {
    let mut b = batch(vec![item(1), item(2)]);
    let text = |b: &BatchManager, id, stage| on_batch_progress(b, id, stage, "U2Net", false);
    assert_eq!(text(&b, 2, ProgressStage::Infer), None);
    assert_eq!(text(&b, 1, ProgressStage::Infer).as_deref(), Some("Running AI model"));
    assert_eq!(text(&b, 1, ProgressStage::LoadingModel).as_deref(), Some("Loading U2Net..."));
    b.items[0].settings.line_mode = LineMode::SubjectOutline;
    assert_eq!(
        on_batch_progress(&b, 1, ProgressStage::LoadingModel, "U2Net", true).as_deref(),
        Some("Loading U2Net + DexiNed (first run may take a few minutes)...")
    );
    b.items[0].settings.line_mode = LineMode::EdgesOnly;
    assert_eq!(text(&b, 1, ProgressStage::LoadingModel).as_deref(), Some("Loading DexiNed..."));
    assert_eq!(
        on_subprocess_retry(2, 7),
        "Memory pressure \u{2014} retrying 7 images with 2 parallel jobs"
    );
}

#[test]
fn a_new_provider_is_news() {
    let s = |t: &str| t.to_string();
    assert!(backend_ready(&s("CPU"), &s("CUDA")));
    assert!(!backend_ready(&s("CPU"), &s("CPU")));
    assert!(!backend_ready(&s("CPU"), &s("")));
}

#[test]
fn compressed_entries_move_to_disk() {
    let mut i = done(1);
    i.history.push_back(HistoryEntry::new(rgba(1), None));
    i.history.push_back(HistoryEntry::new(rgba(2), None));
    i.redo_stack.push_back(HistoryEntry::new(rgba(3), None));
    demote_history_to_disk(&mut i, vec![Some("/a".into()), None, Some("/c".into())]);
    assert!(matches!(&i.history[0].slot, HistorySlot::OnDisk(e) if e.path == "/a"));
    assert!(matches!(i.history[1].slot, HistorySlot::Compressed(_)));
    assert!(matches!(&i.redo_stack[0].slot, HistorySlot::OnDisk(e) if e.path == "/c"));
}

#[test]
fn a_recoloured_picture_is_a_result() {
    let mut b = batch(vec![item(1)]);
    assert!(apply_filter_result(&mut b, 1, Ok(rgba(9))));
    assert_eq!(b.items[0].status, BatchStatus::Done);
    assert!(apply_filter_result(&mut b, 1, Err("bad".into())));
    assert_eq!(b.items[0].status, BatchStatus::Error("bad".into()));
    assert!(!apply_filter_result(&mut b, 7, Err("bad".into())));
}
