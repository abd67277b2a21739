use prunr_app::background_io::DecodeSlots;
use prunr_app::batch_run::{BatchRun, BatchStep, WorkerEvent};
use prunr_app::cli::{
    background, check_mask_size, check_overwrite, load_with_policy, output_path,
    output_path_with_suffix, parse_hex_color, shrunk_name, stage_label, Background, BatchIntake,
    BatchTally, Channel, Cli, CliModel, EraseAction, EraseEvent, IntakeStep, LargeImagePolicy,
    RemovePlan, SaveOutcome,
};
use prunr_app::doctor::{
    doctor_report, pad, path_or_unknown, Bundled, EnvFact, Facts, ModelFact, Resolved, StoreEntry,
    ENV_NAMES,
};
use prunr_app::hardware_cache::HardwareInstallCache;
use prunr_app::pipeline::{
    BgImageFit, EdgeScale, LineMode, ModelKind, ProgressStage, Rgb, Scalar,
};
use prunr_app::pixmap::Pixmap;

fn scalar(v: f32) -> Scalar {
    Scalar::from_bits(v.to_bits())
}

fn cli(inputs: &[&str]) -> Cli {
    Cli {
        inputs: inputs.iter().map(|s| s.to_string()).collect(),
        output: None,
        model: CliModel::BirefnetLite,
        jobs: 1,
        large_image: LargeImagePolicy::Downscale,
        force: false,
        quiet: false,
        gamma: scalar(1.0),
        threshold: None,
        edge_shift: scalar(0.0),
        refine_edges: false,
        lines: false,
        lines_after_bg: false,
        line_strength: scalar(0.5),
        line_color: None,
        line_scale: EdgeScale::Fused,
        bg_color: None,
        bg_image: None,
        bg_image_fit: BgImageFit::Cover,
        cpu: false,
        inpaint: false,
        mask: None,
    }
}

#[test]
fn colours_are_read_with_or_without_a_number_sign() {
    assert_eq!(parse_hex_color("ff8000"), Some(Rgb { r: 255, g: 128, b: 0 }));
    assert_eq!(parse_hex_color("#FF8000"), Some(Rgb { r: 255, g: 128, b: 0 }));
    assert_eq!(parse_hex_color("ff80"), None);
    assert_eq!(parse_hex_color("gg8000"), None);
    assert_eq!(parse_hex_color("##ff8000"), None);
}

#[test]
fn models_stand_for_their_kinds() {
    assert_eq!(ModelKind::from(CliModel::Silueta), ModelKind::Silueta);
    assert_eq!(ModelKind::from(CliModel::U2net), ModelKind::U2net);
    assert_eq!(ModelKind::from(CliModel::BirefnetLite), ModelKind::BiRefNetLite);
}

#[test]
fn the_outline_wins_over_plain_lines() {
    let mut c = cli(&["a.png"]);
    assert_eq!(c.line_mode(), LineMode::Off);
    c.lines = true;
    assert_eq!(c.line_mode(), LineMode::EdgesOnly);
    c.lines_after_bg = true;
    assert_eq!(c.line_mode(), LineMode::SubjectOutline);
    c.gamma = scalar(1.5);
    c.refine_edges = true;
    c.bg_color = Some("102030".into());
    let s = c.batch_settings();
    assert_eq!(s.mask.gamma, scalar(1.5));
    assert!(s.mask.refine_edges);
    assert_eq!(s.line_mode, LineMode::SubjectOutline);
    assert_eq!(s.bg_color, Some(Rgb { r: 16, g: 32, b: 48 }));
    assert_eq!(c.mask_settings().gamma, scalar(1.5));
}

#[test]
fn a_directory_is_made_for_several_results() {
    assert_eq!(cli(&[]).plan(), RemovePlan::NoInputs);
    let mut c = cli(&["a.png", "b.png"]);
    assert_eq!(c.plan(), RemovePlan::Run { create_output_dir: false, erase: false });
    c.output = Some("out".into());
    assert_eq!(c.plan(), RemovePlan::Run { create_output_dir: true, erase: false });
    c.inputs.pop();
    assert_eq!(c.plan(), RemovePlan::Run { create_output_dir: false, erase: false });
}

#[test]
fn erasing_takes_one_picture_and_a_mask() {
    let mut c = cli(&["a.png", "b.png"]);
    assert_eq!(
        c.check_inpaint().unwrap_err(),
        "--inpaint accepts exactly one input image (got 2)"
    );
    c.inputs.pop();
    assert_eq!(c.check_inpaint().unwrap_err(), "--inpaint requires --mask <path>");
    c.mask = Some("m.png".into());
    assert!(c.check_inpaint().is_ok());
    assert!(check_mask_size((4, 3), (4, 3)).is_ok());
    assert_eq!(
        check_mask_size((4, 3), (8, 6)).unwrap_err(),
        "mask (4, 3) dimensions don't match image (8, 6)"
    );
}

fn ends(action: EraseAction) -> (i32, String) {
    match action {
        EraseAction::End { code, line } => (code, line.unwrap_or_default()),
        _ => panic!("the run goes on"),
    }
}

#[test]
fn the_eraser_goes_step_by_step() {
    let mut c = cli(&["/in/a.png", "b.png"]);
    assert!(c.start_erase(false).is_err());
    c.inputs.pop();
    let e = c.start_erase(false).err().unwrap();
    assert_eq!(e, "--inpaint requires --mask <path>");
    c.mask = Some("m.png".into());
    let mut run = c.start_erase(false).ok().unwrap();
    assert_eq!(run.out, "/in/a_erased.png");
    let taken = "output '/in/a_erased.png' already exists. Use --force to overwrite.";
    assert_eq!(ends(run.step(EraseEvent::Looked(true))), (1, taken.to_string()));
    assert!(matches!(run.step(EraseEvent::Looked(false)), EraseAction::ReadImage));
    let r = run.step(EraseEvent::ImageRead(Err("gone".into())));
    assert_eq!(ends(r), (1, "failed to read /in/a.png: gone".to_string()));
    assert!(matches!(run.step(EraseEvent::ImageRead(Ok((4, 3)))), EraseAction::ReadMask));
    let r = run.step(EraseEvent::MaskRead(Err("gone".into())));
    assert_eq!(ends(r), (1, "failed to read mask m.png: gone".to_string()));
    let r = run.step(EraseEvent::MaskRead(Ok((8, 6))));
    assert_eq!(ends(r), (1, "mask (8, 6) dimensions don't match image (4, 3)".to_string()));
    let r = run.step(EraseEvent::MaskRead(Ok((4, 3))));
    let line = "Inpainting /in/a.png (mask: m.png)...";
    assert!(matches!(r, EraseAction::Paint(Some(l)) if l == line));
    let r = run.step(EraseEvent::Painted(Err("x".into())));
    assert_eq!(ends(r), (1, "inpaint failed: x".to_string()));
    assert!(matches!(run.step(EraseEvent::Painted(Ok(()))), EraseAction::Save));
    let r = run.step(EraseEvent::Saved(Err("full".into())));
    assert_eq!(ends(r), (1, "failed to save /in/a_erased.png: full".to_string()));
    assert_eq!(ends(run.step(EraseEvent::Saved(Ok(())))), (0, "Saved /in/a_erased.png".into()));

    c.quiet = true;
    c.force = true;
    let mut run = c.start_erase(false).ok().unwrap();
    assert!(matches!(run.step(EraseEvent::Looked(true)), EraseAction::ReadImage));
    run.step(EraseEvent::ImageRead(Ok((1, 1))));
    assert!(matches!(run.step(EraseEvent::MaskRead(Ok((1, 1)))), EraseAction::Paint(None)));
    assert_eq!(ends(run.step(EraseEvent::Saved(Ok(())))), (0, String::new()));
}

#[test]
fn results_go_beside_their_inputs_or_where_asked() {
    assert_eq!(output_path("/in/a.jpg", &None, false, false), "/in/a_nobg.png");
    assert_eq!(output_path("/in/a.jpg", &Some("/o/x.png".into()), false, false), "/o/x.png");
    assert_eq!(output_path("/in/a.jpg", &Some("/o".into()), true, false), "/o/a_nobg.png");
    assert_eq!(output_path("/in/a.jpg", &Some("/o".into()), false, true), "/o/a_nobg.png");
    assert_eq!(
        output_path_with_suffix("a.tar.gz", &None, false, false, "_erased.png"),
        "a.tar_erased.png"
    );
    assert!(check_overwrite("x.png", false, false).is_ok());
    assert!(check_overwrite("x.png", true, true).is_ok());
    assert_eq!(
        check_overwrite("x.png", true, false).unwrap_err(),
        "output 'x.png' already exists. Use --force to overwrite."
    );
}

#[test]
fn large_pictures_are_shrunk_or_warned_of() {
    let small = load_with_policy("a.png", 8000, 8000, LargeImagePolicy::Downscale, false);
    assert_eq!((small.downscale_to, small.warning), (None, None));
    let large = load_with_policy("a.png", 8001, 1, LargeImagePolicy::Downscale, false);
    assert_eq!(large.downscale_to, Some(4096));
    assert_eq!(
        large.warning.as_deref(),
        Some("warning: 'a.png' exceeds 8000px. Downscaling to 4096px (use --large-image=process to skip).")
    );
    let kept = load_with_policy("a.png", 1, 8001, LargeImagePolicy::Process, true);
    assert_eq!((kept.downscale_to, kept.warning), (None, None));
}

#[test]
fn inputs_are_taken_in_order() {
    let policy = LargeImagePolicy::Downscale;
    assert_eq!(BatchIntake::decide(None, policy), IntakeStep::Reject);
    assert_eq!(BatchIntake::decide(Some((9000, 1)), policy), IntakeStep::Shrink);
    assert_eq!(BatchIntake::decide(Some((9000, 1)), LargeImagePolicy::Process), IntakeStep::AsIs);
    let mut b = BatchIntake::new();
    b.record(Some("a".into()));
    b.record(None);
    b.record(Some("c".into()));
    assert_eq!(b.indices, vec![0, 2]);
    assert_eq!((b.seen, b.failed), (3, 1));
    assert_eq!(shrunk_name(7), "cli_ds_7.img");
}

#[test]
fn results_are_counted_and_told() {
    let mut t = BatchTally::new(1);
    let done = SaveOutcome::Written { seconds: "1.5".into() };
    let r = t.record(&done, "a.png", false, false).unwrap();
    assert_eq!((r.channel, r.line.as_str()), (Channel::Stdout, "\u{2713} a.png (1.5s)"));
    assert!(t.record(&done, "a.png", false, true).is_none());
    let r = t.record(&SaveOutcome::Blocked { reason: "no".into() }, "b.png", false, false).unwrap();
    assert_eq!((r.channel, r.line.as_str()), (Channel::Stderr, "skipped 'b.png': no"));
    let bad = SaveOutcome::WriteFailed { error: "full".into() };
    let r = t.record(&bad, "c.png", true, true).unwrap();
    assert_eq!(
        (r.channel, r.line.as_str()),
        (Channel::Spinner, "X c.png \u{2014} write error: full")
    );
    assert!(t.record(&SaveOutcome::EncodeFailed { error: "x".into() }, "d", false, false).is_none());
    let r = t.record(&SaveOutcome::NotProcessed { error: "x".into() }, "e", false, true).unwrap();
    assert_eq!(r.line, "error processing 'e': x");
    assert_eq!(t.summary(), "2 succeeded, 5 failed.");
    assert_eq!(t.exit_code(), 2);
    assert_eq!(BatchTally::new(0).exit_code(), 0);
    assert_eq!(BatchTally::new(1).exit_code(), 1);
}

#[test]
fn stages_and_backgrounds_have_their_words() {
    assert_eq!(stage_label(ProgressStage::Infer), "Inferring...");
    assert_eq!(stage_label(ProgressStage::Alpha), "Applying alpha...");
    let rgb = Rgb { r: 1, g: 2, b: 3 };
    assert_eq!(background(true, Some(rgb)), Background::Picture);
    assert_eq!(background(false, Some(rgb)), Background::Colour { rgb });
    assert_eq!(background(false, None), Background::Transparent);
}

fn pixels() -> Pixmap {
    Pixmap::from_raw(1, 1, vec![1, 2, 3, 4]).unwrap()
}

#[test]
fn a_batch_runs_to_its_end() {
    let mut run = BatchRun::new(vec![10, 20, 30], 2);
    assert_eq!(run.next_round(), Some(2));
    while run.in_flight.len() < 2 {
        assert!(run.front().is_some());
        assert!(run.burst_step(true));
    }
    let step = run.on_event(WorkerEvent::ImageDone { item_id: 10, image: Some(pixels()) }, false);
    assert_eq!(step, BatchStep::Send { index: 2 });
    run.admitted(2, true);
    let step = run.on_event(
        WorkerEvent::ImageError { item_id: 20, error: "bad".into() },
        false,
    );
    assert_eq!(step, BatchStep::Continue);
    run.on_event(WorkerEvent::ImageDone { item_id: 30, image: None }, false);
    assert!(run.is_idle());
    assert_eq!(run.on_event(WorkerEvent::Finished, false), BatchStep::Stop);
    let results = run.finish();
    assert_eq!(results[0].as_ref().unwrap().data, vec![1, 2, 3, 4]);
    assert_eq!(results[1].as_ref().unwrap_err(), "bad");
    assert_eq!(results[2].as_ref().unwrap_err(), "Failed to read subprocess result");
}

#[test]
fn a_crash_halves_the_jobs_and_tries_again() {
    let mut run = BatchRun::new(vec![1, 2, 3, 4], 4);
    while run.front().is_some() {
        run.burst_step(true);
    }
    assert!(run.crashed(false));
    assert!(!run.crashed(true));
    assert_eq!(run.on_crash(), Some(2));
    assert_eq!(run.pending.len(), 4);
    run.burst_step(true);
    assert_eq!(run.on_crash(), Some(1));
    run.burst_step(true);
    assert_eq!(run.on_crash(), None, "with one job left the batch is given up");
    assert!(run.finish().iter().all(|r| r.is_err()));
}

#[test]
fn a_worker_that_does_not_start_fails_what_waits() {
    let mut run = BatchRun::new(vec![1, 2], 1);
    run.spawn_failed("no worker");
    let results = run.finish();
    assert!(results.iter().all(|r| r.as_ref().unwrap_err() == "no worker"));
    let untouched = BatchRun::new(vec![1], 1).finish();
    assert_eq!(untouched[0].as_ref().unwrap_err(), "Not processed");
}

#[test]
fn decode_slots_run_out_and_come_back() {
    let mut slots = DecodeSlots::new(0);
    let first = slots.acquire().expect("at least one slot");
    assert!(slots.acquire().is_none());
    slots.release(first);
    assert!(slots.acquire().is_some());

    let mut slots = DecodeSlots::new(2);
    let mut guards = Vec::new();
    for _ in 0..5 {
        guards.extend(slots.acquire());
        assert!(guards.len() <= 2);
    }
    assert_eq!(guards.len(), 2);
    slots.release(guards.pop().unwrap());
    guards.extend(slots.acquire());
    assert_eq!(guards.len(), 2, "the slot that came back is taken again");
}

#[test]
fn the_hardware_cache_says_what_is_installed() {
    assert_eq!(HardwareInstallCache::refresh(true), HardwareInstallCache::refresh(true));
    assert_ne!(HardwareInstallCache::refresh(true), HardwareInstallCache::refresh(false));
}

fn facts() -> Facts {
    Facts {
        version: "1.2.3".into(),
        debug: false,
        os: "linux".into(),
        arch: "x86_64".into(),
        cpu_vendor: "Intel".into(),
        cpu_brand: "i7".into(),
        dgpu: None,
        igpu: Some("Iris".into()),
        openvino: true,
        rocm: false,
        env_path: None,
        store_root: Some("/store".into()),
        store_entries: vec![
            StoreEntry { name: "ov".into(), has_dylib: true },
            StoreEntry { name: "rocm".into(), has_dylib: false },
        ],
        bundled: Some(Bundled { path: "/b".into(), exists: false }),
        resolved: Some(Resolved { path: "/store/ov".into(), source: "store".into() }),
        models: vec![ModelFact { name: "U2Net".into(), kind: "on-demand".into(), available: false }],
        data_dir: None,
        models_dir: Some("/m".into()),
        settings_path: Some("/s".into()),
        env: ENV_NAMES.iter().map(|n| EnvFact { name: n.to_string(), value: None }).collect(),
    }
}

#[test]
fn the_report_lists_what_is_known() {
    let lines = doctor_report(&facts());
    assert_eq!(lines[0], "Prunr Diagnostic Report");
    assert_eq!(lines[1], "=".repeat(23));
    assert!(lines.contains(&"Build:   release".to_string()));
    assert!(lines.contains(&"dGPU:        None".to_string()));
    assert!(lines.contains(&"  - ov [OK]".to_string()));
    assert!(lines.contains(&"  - rocm [MISSING]".to_string()));
    assert!(lines.contains(&"Bundled:        /b (absent)".to_string()));
    assert!(lines.contains(&"Active source:  store \u{2192} /store/ov".to_string()));
    assert!(lines.contains(&format!("  {:<32} {:<10} not installed", "U2Net", "on-demand")));
    assert!(lines.contains(&"Data dir:     (unresolvable on this platform)".to_string()));
    assert_eq!(lines.last().unwrap(), "  PRUNR_DEBUG_LOG: (unset)");
}

#[test]
fn the_report_says_what_is_missing() {
    let mut f = facts();
    f.store_root = None;
    f.bundled = None;
    f.resolved = None;
    let lines = doctor_report(&f);
    assert!(lines.contains(&"Runtime store:  (not present)".to_string()));
    assert!(lines.contains(
        &"Active source:  NONE \u{2014} `prunr` will refuse to start without --doctor".to_string()
    ));
    f.store_root = Some("/store".into());
    f.store_entries.clear();
    assert!(doctor_report(&f).contains(&"Runtime store:  /store (empty)".to_string()));
    assert_eq!(pad("ab", 4), "ab  ");
    assert_eq!(pad("abcde", 4), "abcde");
    assert_eq!(path_or_unknown(&None), "(unresolvable on this platform)");
}
