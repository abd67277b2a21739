use prunr_app::brush_state::{
    BrushMode, BrushSettings, BrushShape, BrushState, PaintOp, SdQualityPreset, SdScheduler, Stamp,
    TrailStamp, DEFAULT_SD_NEGATIVE_PROMPT, DEFAULT_SD_PROMPT, EIGHT_BITS, FOUR_BITS,
    HARDNESS_BITS, ONE_AND_HALF_BITS, RADIUS_BITS, SEVEN_AND_HALF_BITS, SHARPEN_BITS,
};
use prunr_app::item_settings::ItemSettings;
use prunr_app::pipeline::{ModelId, Scalar};
use prunr_app::presets::{
    model_id_key, ModelPreset, PresetFile, SdPreset, PRESET_FORMAT_VERSION,
};
use prunr_app::settings::{Settings, SettingsModel, PRUNR_PRESET};
use prunr_app::tables::NameTable;

fn scalar(v: f32) -> Scalar {
    Scalar::from_bits(v.to_bits())
}

fn value(s: Scalar) -> f32 {
    f32::from_bits(s.bits)
}

#[test]
fn constants_are_the_bits_of_their_values() {
    assert_eq!(RADIUS_BITS, 24.0f32.to_bits());
    assert_eq!(HARDNESS_BITS, 0.7f32.to_bits());
    assert_eq!(SHARPEN_BITS, 0.6f32.to_bits());
    assert_eq!(ONE_AND_HALF_BITS, 1.5f32.to_bits());
    assert_eq!(FOUR_BITS, 4.0f32.to_bits());
    assert_eq!(SEVEN_AND_HALF_BITS, 7.5f32.to_bits());
    assert_eq!(EIGHT_BITS, 8.0f32.to_bits());
}

#[test]
fn default_disabled() {
    let s = BrushState::default();
    assert!(!s.is_enabled());
    assert!(!s.has_active_stroke());
}

#[test]
fn default_brush_settings_match_balanced_preset() {
    let s = BrushSettings::default();
    assert_eq!(
        SdQualityPreset::detect_from(&s),
        SdQualityPreset::Balanced,
        "default BrushSettings must align with Balanced preset"
    );
}

#[test]
fn quality_presets_round_trip_apply_then_detect() {
    for preset in [SdQualityPreset::Fast, SdQualityPreset::Balanced, SdQualityPreset::Quality] {
        let mut s = BrushSettings::default();
        preset.apply_to(&mut s);
        assert_eq!(SdQualityPreset::detect_from(&s), preset, "apply→detect mismatch for {preset:?}");
    }
}

#[test]
fn apply_to_custom_is_noop() {
    let mut s = BrushSettings::default();
    let before = s.clone();
    SdQualityPreset::Custom.apply_to(&mut s);
    assert_eq!(s, before, "apply_to(Custom) must not mutate any field");
}

#[test]
fn individual_slider_edit_detects_as_custom() {
    let mut s = BrushSettings::default();
    s.sd_guidance_scale = scalar(3.0);
    assert_eq!(SdQualityPreset::detect_from(&s), SdQualityPreset::Custom);

    let mut s = BrushSettings::default();
    s.sd_scheduler = SdScheduler::Ddim;
    assert_eq!(SdQualityPreset::detect_from(&s), SdQualityPreset::Custom);

    let mut s = BrushSettings::default();
    s.sd_use_karras_sigmas = true;
    assert_eq!(SdQualityPreset::detect_from(&s), SdQualityPreset::Custom);
}

#[test]
fn a_guidance_close_to_a_preset_still_counts_as_it() {
    let mut s = BrushSettings::default();
    s.sd_guidance_scale = scalar(1.5 + f32::EPSILON / 2.0);
    assert_eq!(SdQualityPreset::detect_from(&s), SdQualityPreset::Balanced);
}

#[test]
fn scheduler_availability_reflects_dispatch_readiness() {
    assert!(SdScheduler::Lcm.is_available());
    assert!(SdScheduler::Ddim.is_available());
    assert!(SdScheduler::DpmPlusPlus2MKarras.is_available());
    assert!(SdScheduler::EulerA.is_available());
    assert!(SdScheduler::UniPc.is_available());
}

#[test]
fn sd_use_taesd_default_is_none_auto() {
    let s = BrushSettings::default();
    assert_eq!(s.sd_use_taesd, None, "default must be None (auto-on when TAESD bundle installed)");
}

#[test]
fn sd_use_taesd_effective_explicit_off_beats_install() {
    let mut s = BrushSettings::default();
    s.sd_use_taesd = Some(false);
    assert!(!s.sd_use_taesd_effective(true), "explicit opt-out must override installed bundle");
    assert!(!s.sd_use_taesd_effective(false));
}

#[test]
fn sd_use_taesd_effective_explicit_on_gated_by_install() {
    let mut s = BrushSettings::default();
    s.sd_use_taesd = Some(true);
    assert!(s.sd_use_taesd_effective(true), "explicit opt-in + installed must dispatch TAESD");
    assert!(!s.sd_use_taesd_effective(false), "explicit opt-in but not installed must fall back");
}

#[test]
fn sd_use_taesd_effective_auto_follows_install() {
    let mut s = BrushSettings::default();
    s.sd_use_taesd = None;
    assert!(s.sd_use_taesd_effective(true), "auto mode + installed = on");
    assert!(!s.sd_use_taesd_effective(false), "auto mode + not installed = off");
}

#[test]
fn toggle_flips_enabled() {
    let mut s = BrushState::default();
    s.toggle();
    assert!(s.is_enabled());
    s.toggle();
    assert!(!s.is_enabled());
}

fn default_stamp() -> Stamp {
    BrushSettings::default().stamp()
}

#[test]
fn toggle_off_drops_active_stroke() {
    let mut s = BrushState::default();
    s.toggle();
    s.begin_stroke(64, 64, BrushShape::Circle);
    s.extend_stroke_with_radius(scalar(32.0), scalar(32.0), scalar(8.0), default_stamp());
    assert!(s.has_active_stroke());
    s.toggle();
    assert!(!s.has_active_stroke());
}

#[test]
fn extend_without_begin_is_no_op() {
    let mut s = BrushState::default();
    s.extend_stroke_with_radius(scalar(10.0), scalar(10.0), scalar(8.0), default_stamp());
    assert!(!s.has_active_stroke());
    assert!(s.commit_stroke(default_stamp()).is_none());
}

#[test]
fn empty_stroke_commit_returns_none() {
    let mut s = BrushState::default();
    s.begin_stroke(64, 64, BrushShape::Circle);
    assert!(s.commit_stroke(default_stamp()).is_none());
    assert!(!s.has_active_stroke(), "commit should clear active stroke");
}

#[test]
fn populated_stroke_commit_returns_correction() {
    let mut s = BrushState::default();
    s.begin_stroke(64, 64, BrushShape::Circle);
    s.extend_stroke_with_radius(scalar(32.0), scalar(32.0), scalar(8.0), default_stamp());
    let c = s.commit_stroke(default_stamp()).expect("populated stroke");
    assert_eq!(c.width, 64);
    assert_eq!(c.height, 64);
    assert!(!c.ops.is_empty());
    assert!(!s.has_active_stroke());
}

#[test]
fn a_line_is_drawn_from_its_first_to_its_last_point() {
    let mut s = BrushState::default();
    s.begin_stroke(64, 32, BrushShape::Line);
    assert_eq!(s.active_shape(), Some(BrushShape::Line));
    for x in [1.0, 5.0, 9.0] {
        s.extend_stroke_with_radius(scalar(x), scalar(2.0), scalar(3.0), default_stamp());
    }
    let marks = s.commit_stroke(default_stamp()).expect("a line");
    assert_eq!(
        marks.ops,
        vec![PaintOp::Line {
            x0: scalar(1.0),
            y0: scalar(2.0),
            x1: scalar(9.0),
            y1: scalar(2.0),
            radius: scalar(3.0),
            stamp: default_stamp(),
        }]
    );
}

#[test]
fn a_trail_keeps_what_is_far_enough_apart() {
    let mut s = BrushState::default();
    let at = |x: f32| TrailStamp { x: scalar(x), y: scalar(0.0), radius: scalar(4.0) };
    s.record_trail_stamp(at(0.0), true);
    assert_eq!(s.trail_len(), 0, "no stroke, no trail");
    s.begin_stroke(8, 8, BrushShape::Circle);
    s.record_trail_stamp(at(0.0), true);
    s.record_trail_stamp(at(0.5), false);
    s.record_trail_stamp(at(9.0), true);
    assert_eq!(s.trail_stamps(), vec![at(0.0), at(9.0)]);
}

#[test]
fn reset_popover_fields_from_default_restores_visible_sliders_and_shape_only() {
    let mut s = BrushSettings {
        radius: scalar(80.0),
        hardness: scalar(0.0),
        strength: scalar(0.42),
        mode: BrushMode::Add,
        shape: BrushShape::Square,
        inpaint_sharpen: scalar(1.7),
        inpaint_feather: scalar(24.0),
        inpaint_grow: scalar(-8.0),
        sd_prompt: "custom prompt".into(),
        sd_negative_prompt: "custom negative".into(),
        sd_guidance_scale: scalar(5.5),
        sd_scheduler: SdScheduler::DpmPlusPlus2MKarras,
        sd_steps: 30,
        sd_use_karras_sigmas: true,
        sd_seed: Some(42),
        sd_strength: scalar(0.6),
        sd_use_taesd: Some(true),
    };
    s.reset_popover_fields_from(&BrushSettings::default());

    let d = BrushSettings::default();
    assert_eq!(s.radius, d.radius);
    assert_eq!(s.hardness, d.hardness);
    assert_eq!(s.shape, d.shape);
    assert_eq!(s.inpaint_sharpen, d.inpaint_sharpen);
    assert_eq!(s.inpaint_feather, d.inpaint_feather);
    assert_eq!(s.inpaint_grow, d.inpaint_grow);

    assert!((value(s.strength) - 0.42).abs() < f32::EPSILON, "strength must survive popover reset");
    assert_eq!(s.mode, BrushMode::Add, "mode must survive popover reset");

    assert_eq!(s.sd_prompt, "custom prompt");
    assert_eq!(s.sd_negative_prompt, "custom negative");
    assert!((value(s.sd_guidance_scale) - 5.5).abs() < f32::EPSILON);
    assert_eq!(s.sd_scheduler, SdScheduler::DpmPlusPlus2MKarras);
    assert_eq!(s.sd_steps, 30);
    assert!(s.sd_use_karras_sigmas);
    assert_eq!(s.sd_seed, Some(42));
    assert!((value(s.sd_strength) - 0.6).abs() < f32::EPSILON);
}

#[test]
fn reset_popover_fields_from_uses_source_not_factory() {
    let source = BrushSettings {
        radius: scalar(99.0),
        hardness: scalar(0.1),
        shape: BrushShape::Square,
        inpaint_sharpen: scalar(1.3),
        inpaint_feather: scalar(7.0),
        inpaint_grow: scalar(-3.0),
        ..BrushSettings::default()
    };
    let mut target = BrushSettings::default();
    target.radius = scalar(10.0);
    target.strength = scalar(0.42);
    target.mode = BrushMode::Add;

    target.reset_popover_fields_from(&source);

    assert!((value(target.radius) - 99.0).abs() < f32::EPSILON);
    assert!((value(target.hardness) - 0.1).abs() < f32::EPSILON);
    assert_eq!(target.shape, BrushShape::Square);
    assert!((value(target.inpaint_sharpen) - 1.3).abs() < f32::EPSILON);
    assert!((value(target.inpaint_feather) - 7.0).abs() < f32::EPSILON);
    assert!((value(target.inpaint_grow) - (-3.0)).abs() < f32::EPSILON);

    assert!((value(target.strength) - 0.42).abs() < f32::EPSILON);
    assert_eq!(target.mode, BrushMode::Add);
}

#[test]
fn sd_quality_preset_apply_to_settings_writes_through_active_preset() {
    let mut s = Settings::default();
    s.model = SettingsModel::SdInpaint;
    let mp = ModelPreset {
        item_settings: ItemSettings::default(),
        brush: BrushSettings::default(),
        sd: Some(SdPreset::default()),
    };
    let mut models = NameTable::new();
    models.insert(model_id_key(ModelId::SdV15InpaintFp16), mp);
    let file = PresetFile { format_version: PRESET_FORMAT_VERSION, models };
    let preset_name = "TestApplyToSettingsWriteThrough";
    s.presets.insert(preset_name.to_string(), file);
    s.default_preset = preset_name.to_string();

    let write = SdQualityPreset::Quality.apply_to_settings(&mut s).expect("a preset to write");
    assert_eq!(write.name, preset_name);
    assert_eq!(write.model, ModelId::SdV15InpaintFp16);

    assert_eq!(s.brush.sd_scheduler, SdScheduler::DpmPlusPlus2MKarras);
    assert_eq!(s.brush.sd_steps, 25);
    assert!((value(s.brush.sd_guidance_scale) - 4.0).abs() < f32::EPSILON);
    assert!(s.brush.sd_use_karras_sigmas);

    let key = model_id_key(ModelId::SdV15InpaintFp16);
    let mp_back = s
        .presets
        .get(preset_name)
        .expect("preset stays in map")
        .models
        .get(&key)
        .expect("SD entry");
    let sd_back = mp_back.sd.as_ref().expect("sd entry written");
    assert_eq!(sd_back.active_scheduler, SdScheduler::DpmPlusPlus2MKarras);
    let bundle =
        sd_back.schedulers.get(SdScheduler::DpmPlusPlus2MKarras).expect("bundle written");
    assert_eq!(bundle.steps, 25);
    assert!((value(bundle.guidance_scale) - 4.0).abs() < f32::EPSILON);
    assert!(bundle.use_karras_sigmas);
}

#[test]
fn sd_quality_preset_apply_to_settings_with_prunr_falls_through_to_brush() {
    let mut s = Settings::default();
    s.model = SettingsModel::SdInpaint;
    assert_eq!(s.default_preset, PRUNR_PRESET);
    let presets_before = s.presets.len();

    let write = SdQualityPreset::Fast.apply_to_settings(&mut s);
    assert!(write.is_none());

    assert_eq!(s.brush.sd_scheduler, SdScheduler::Lcm);
    assert_eq!(s.brush.sd_steps, 4);
    assert!((value(s.brush.sd_guidance_scale) - 1.0).abs() < f32::EPSILON);
    assert!(!s.brush.sd_use_karras_sigmas);
    assert_eq!(s.presets.len(), presets_before, "Prunr branch must not touch presets map");
}

#[test]
fn brush_settings_stamp_reflects_fields() {
    let s = BrushSettings {
        hardness: scalar(0.3),
        strength: scalar(0.8),
        mode: BrushMode::Add,
        ..BrushSettings::default()
    };
    let stamp = s.stamp();
    assert!((value(stamp.hardness) - 0.3).abs() < f32::EPSILON);
    assert!((value(stamp.strength) - 0.8).abs() < f32::EPSILON);
    assert_eq!(stamp.mode, BrushMode::Add);
}

#[test]
fn default_prompts_are_set() {
    let s = BrushSettings::default();
    assert_eq!(s.sd_prompt, DEFAULT_SD_PROMPT);
    assert_eq!(s.sd_negative_prompt, DEFAULT_SD_NEGATIVE_PROMPT);
    assert_eq!(SdQualityPreset::Balanced.label(), "Balanced");
}

#[test]
fn every_schedule_has_its_own_line() {
    assert_eq!(SdScheduler::UniPc.description(), "Best quality at low step counts (8-12 steps)");
    assert_eq!(SdScheduler::Ddim.description(), "Conservative baseline (20-30 steps)");
}
