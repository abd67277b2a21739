use prunr_app::animation_sweep::{
    apply_frame, frame_failure, frame_file_name, render_frame, CycleTables, FrameFailure,
    FramePlan, SourceFailure, SweepEvent, SweepKnob, SweepRequest, SweepRun, SweepStep,
    SweepUiState,
};
use prunr_app::item_settings::ItemSettings;
use prunr_app::pipeline::{ComposeMode, FillStyle, LineMode, LineStyle, Scalar};

fn scalar(v: f32) -> Scalar {
    Scalar::from_bits(v.to_bits())
}

fn value(s: Scalar) -> f32 {
    f32::from_bits(s.bits)
}

fn tables() -> CycleTables {
    CycleTables {
        compose_modes: vec![
            ComposeMode::LinesOnly,
            ComposeMode::SubjectFilled,
            ComposeMode::Ghosted,
        ],
        line_styles: vec![LineStyle::Solid, LineStyle::Rainbow { cycles: 3 }],
        fill_styles: vec![FillStyle::Plain, FillStyle::Invert, FillStyle::Sepia],
    }
}

/// The settings of a frame of a sweep.
fn frame(base: &ItemSettings, knob: SweepKnob, i: usize, total: usize) -> ItemSettings {
    let at = match knob.range() {
        Some((from, to)) if total > 1 => {
            let t = i as f32 / (total - 1) as f32;
            scalar(value(from) + (value(to) - value(from)) * t)
        }
        Some((from, _)) => from,
        None => scalar(0.0),
    };
    apply_frame(base, knob, i, at, &tables())
}

#[test]
fn cycle_knobs_have_fixed_len_matching_enum() {
    let t = tables();
    assert_eq!(SweepKnob::ComposeModeCycle.cycle_len(&t), Some(t.compose_modes.len()));
    assert_eq!(SweepKnob::LineStyleCycle.cycle_len(&t), Some(t.line_styles.len()));
    assert_eq!(SweepKnob::FillStyleCycle.cycle_len(&t), Some(t.fill_styles.len()));
}

#[test]
fn numeric_knobs_have_no_cycle_len() {
    assert_eq!(SweepKnob::LineStrength.cycle_len(&tables()), None);
    assert_eq!(SweepKnob::Gamma.cycle_len(&tables()), None);
}

#[test]
fn line_strength_sweep_endpoints() {
    let base = ItemSettings::default();
    let first = frame(&base, SweepKnob::LineStrength, 0, 10);
    let last = frame(&base, SweepKnob::LineStrength, 9, 10);
    assert!((value(first.line_strength) - 0.1).abs() < 1e-5);
    assert!((value(last.line_strength) - 0.9).abs() < 1e-5);
}

#[test]
fn gamma_sweep_endpoints() {
    let base = ItemSettings::default();
    let first = frame(&base, SweepKnob::Gamma, 0, 5);
    let last = frame(&base, SweepKnob::Gamma, 4, 5);
    assert!((value(first.gamma) - 0.5).abs() < 1e-5);
    assert!((value(last.gamma) - 2.0).abs() < 1e-5);
}

#[test]
fn single_frame_sweep_lands_on_start() {
    let base = ItemSettings::default();
    let only = frame(&base, SweepKnob::LineStrength, 0, 1);
    assert!((value(only.line_strength) - 0.1).abs() < 1e-5);
}

#[test]
fn compose_mode_cycle_walks_all_variants_in_order() {
    let base = ItemSettings::default();
    let all = tables().compose_modes;
    for (i, expected) in all.iter().enumerate() {
        let s = frame(&base, SweepKnob::ComposeModeCycle, i, all.len());
        assert_eq!(s.compose_mode, *expected);
    }
}

#[test]
fn cycle_wraps_when_index_exceeds_variant_count() {
    let base = ItemSettings::default();
    let n = tables().compose_modes.len();
    let first = frame(&base, SweepKnob::ComposeModeCycle, 0, 999);
    let wrapped = frame(&base, SweepKnob::ComposeModeCycle, n, 999);
    assert_eq!(first.compose_mode, wrapped.compose_mode);
}

#[test]
fn apply_frame_preserves_untouched_fields() {
    let mut base = ItemSettings::default();
    base.gamma = scalar(1.75);
    base.edge_thickness = 3;
    let f = frame(&base, SweepKnob::LineStrength, 5, 10);
    assert_eq!(f.gamma, scalar(1.75));
    assert_eq!(f.edge_thickness, 3);
}

#[test]
fn an_export_writes_every_frame_and_ends() {
    let ui = SweepUiState { out_dir: Some("/out".into()), frames: 2, ..Default::default() };
    assert!(ui.is_ready(&tables()));
    assert_eq!(ui.effective_frames(&tables()), 2);
    let base = ItemSettings::default();
    let request = SweepRequest::from_item(&base, &ui, &tables(), Ok(())).unwrap();
    let mut run = SweepRun::new(request);
    let mut seen = Vec::new();
    loop {
        match run.next() {
            SweepStep::Frame { index } => {
                seen.push(frame_file_name(index));
                let event = run.frame_written();
                assert!(matches!(event, SweepEvent::Progress { total: 2, .. }));
            }
            SweepStep::Finish(SweepEvent::Finished { frames_written, dir }) => {
                assert_eq!((frames_written, dir.as_str()), (2, "/out"));
                break;
            }
            SweepStep::Finish(_) => panic!("no failure"),
        }
    }
    assert_eq!(seen, vec!["0000.png", "0001.png"]);
}

#[test]
fn an_export_needs_a_directory_and_a_source() {
    let base = ItemSettings::default();
    let no_dir = SweepUiState::default();
    assert!(!no_dir.is_ready(&tables()));
    assert!(SweepRequest::from_item(&base, &no_dir, &tables(), Ok(())).is_err());
    let ui = SweepUiState { out_dir: Some("/out".into()), ..Default::default() };
    let failed = SweepRequest::from_item(&base, &ui, &tables(), Err(SourceFailure::Read("x".into())));
    assert!(failed.is_err());
    let failed =
        SweepRequest::from_item(&base, &ui, &tables(), Err(SourceFailure::Decode("x".into())));
    assert!(failed.is_err());
}

#[test]
fn frames_need_their_tensors() {
    let mut s = ItemSettings::default();
    assert!(matches!(render_frame(&s, true, false), Ok(FramePlan::CutOut { .. })));
    assert!(render_frame(&s, false, true).is_err());
    s.line_mode = LineMode::EdgesOnly;
    assert!(matches!(render_frame(&s, false, true), Ok(FramePlan::Lines { .. })));
    assert!(render_frame(&s, true, false).is_err());
    s.line_mode = LineMode::SubjectOutline;
    assert!(matches!(render_frame(&s, true, true), Ok(FramePlan::Outline { .. })));
    assert!(render_frame(&s, true, false).is_err());
}

#[test]
fn frame_failures_name_the_frame() {
    let text = |f| match frame_failure(f) {
        SweepEvent::Failed(t) => t,
        _ => String::new(),
    };
    assert_eq!(text(FrameFailure::CreateDir { error: "no".into() }), "create dir: no");
    assert_eq!(text(FrameFailure::Render { frame: 3, error: "no".into() }), "frame 3: no");
}
