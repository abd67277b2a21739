use prunr_app::brush_state::{BrushMode, BrushSettings, BrushShape, SdScheduler};
use prunr_app::item_settings::ItemSettings;
use prunr_app::pipeline::{ModelId, Scalar};
use prunr_app::presets::{
    fuse_brush_for_apply, model_id_from_key, model_id_key, resolve_preset_for_model,
    split_brush_for_save, ModelPreset, PresetFile, SchedulerTable, SdPreset, SdSchedulerBundle,
};

fn scalar(v: f32) -> Scalar {
    Scalar::from_bits(v.to_bits())
}

fn value(s: Scalar) -> f32 {
    f32::from_bits(s.bits)
}

const ALL_MODELS: [ModelId; 8] = [
    ModelId::Silueta,
    ModelId::U2net,
    ModelId::BiRefNetLite,
    ModelId::LaMaFp32,
    ModelId::BigLaMa,
    ModelId::SdV15InpaintFp16,
    ModelId::SdV15LcmInpaintFp16,
    ModelId::TaesdFp16,
];

fn near(s: Scalar, v: f32) -> bool {
    (value(s) - v).abs() < f32::EPSILON
}

#[test]
fn presets_file_default_is_empty_models_map() {
    let f = PresetFile::default();
    assert_eq!(f.format_version, 2);
    assert_eq!(f.models.len(), 0);
}

#[test]
fn sd_scheduler_bundle_default_for_lcm_matches_balanced_apply_to() {
    let b = SdSchedulerBundle::default_for(SdScheduler::Lcm);
    assert_eq!(b.steps, 8);
    assert!(near(b.guidance_scale, 1.5));
    assert!(!b.use_karras_sigmas);
    assert!(near(b.strength, 1.0));
}

#[test]
fn sd_scheduler_bundle_default_for_ddim_uses_ddim_tuning() {
    let b = SdSchedulerBundle::default_for(SdScheduler::Ddim);
    assert_eq!(b.steps, 20);
    assert!(near(b.guidance_scale, 7.5));
    assert!(!b.use_karras_sigmas);
    assert!(near(b.strength, 1.0));
}

#[test]
fn sd_scheduler_bundle_default_for_dpmpp_matches_quality_preset() {
    let b = SdSchedulerBundle::default_for(SdScheduler::DpmPlusPlus2MKarras);
    assert_eq!(b.steps, 25);
    assert!(near(b.guidance_scale, 4.0));
    assert!(b.use_karras_sigmas);
    assert!(near(b.strength, 1.0));
}

#[test]
fn sd_scheduler_bundle_default_for_unipc_uses_unipc_tuning() {
    let b = SdSchedulerBundle::default_for(SdScheduler::UniPc);
    assert_eq!(b.steps, 10);
    assert!(near(b.guidance_scale, 4.0));
    assert!(!b.use_karras_sigmas);
    assert!(near(b.strength, 1.0));
}

#[test]
fn sd_scheduler_bundle_default_for_eulera_uses_eulera_tuning() {
    let b = SdSchedulerBundle::default_for(SdScheduler::EulerA);
    assert_eq!(b.steps, 25);
    assert!(near(b.guidance_scale, 7.5));
    assert!(!b.use_karras_sigmas);
    assert!(near(b.strength, 1.0));
}

#[test]
fn preset_file_serializes_modelid_as_debug_name() {
    assert_eq!(model_id_key(ModelId::SdV15InpaintFp16), "SdV15InpaintFp16");
    assert_eq!(model_id_key(ModelId::Silueta), format!("{:?}", ModelId::Silueta));
}

#[test]
fn model_id_key_round_trips_via_from_key() {
    for id in ALL_MODELS {
        let key = model_id_key(id);
        assert_eq!(model_id_from_key(&key), Some(id), "round-trip failed for {id:?}");
        assert_eq!(key, format!("{id:?}"));
    }
}

#[test]
fn model_id_from_key_returns_none_for_unknown() {
    assert_eq!(model_id_from_key("FutureModel"), None);
    assert_eq!(model_id_from_key("not a real key"), None);
    assert_eq!(model_id_from_key(""), None);
}

fn brush_with(radius: f32) -> BrushSettings {
    BrushSettings { radius: scalar(radius), ..BrushSettings::default() }
}

fn item_with(gamma: f32) -> ItemSettings {
    ItemSettings { gamma: scalar(gamma), ..ItemSettings::default() }
}

fn file_with(id: ModelId, mp: ModelPreset) -> PresetFile {
    let mut file = PresetFile::default();
    file.models.insert(model_id_key(id), mp);
    file
}

#[test]
fn resolve_full_entry_returns_preset_values() {
    let mp = ModelPreset { item_settings: item_with(2.5), brush: brush_with(80.0), sd: None };
    let file = file_with(ModelId::Silueta, mp);

    let r = resolve_preset_for_model(&file, ModelId::Silueta, None);
    assert!(near(r.item_settings.gamma, 2.5));
    assert!(near(r.brush.radius, 80.0));
}

#[test]
fn resolve_missing_model_falls_back_to_prunr() {
    let file = PresetFile::default();
    let r = resolve_preset_for_model(&file, ModelId::U2net, None);
    assert_eq!(r.item_settings, ItemSettings::default());
    assert_eq!(r.brush, BrushSettings::default());
}

#[test]
fn resolve_missing_field_falls_back_per_field() {
    let mp = ModelPreset { item_settings: item_with(2.5), ..ModelPreset::default() };
    let file = file_with(ModelId::Silueta, mp);

    let r = resolve_preset_for_model(&file, ModelId::Silueta, None);
    assert!(near(r.item_settings.gamma, 2.5));
    assert_eq!(r.item_settings.threshold, ItemSettings::default().threshold);
    assert_eq!(r.brush, BrushSettings::default());
}

#[test]
fn resolve_sd_full_bundle_uses_bundle_values() {
    let mut schedulers = SchedulerTable::new();
    schedulers.insert(
        SdScheduler::Lcm,
        SdSchedulerBundle {
            steps: 4,
            guidance_scale: scalar(1.0),
            use_karras_sigmas: false,
            strength: scalar(1.0),
        },
    );
    let sd =
        SdPreset { active_scheduler: SdScheduler::Lcm, schedulers, ..SdPreset::default() };
    let mp = ModelPreset { sd: Some(sd), ..ModelPreset::default() };
    let file = file_with(ModelId::SdV15InpaintFp16, mp);

    let r = resolve_preset_for_model(&file, ModelId::SdV15InpaintFp16, Some(SdScheduler::Lcm));
    assert_eq!(r.brush.sd_steps, 4);
    assert!(near(r.brush.sd_guidance_scale, 1.0));
    assert_eq!(r.brush.sd_scheduler, SdScheduler::Lcm);
}

#[test]
fn resolve_sd_missing_bundle_uses_default_for_scheduler() {
    let sd = SdPreset {
        active_scheduler: SdScheduler::Lcm,
        schedulers: SchedulerTable::new(),
        ..SdPreset::default()
    };
    let mp = ModelPreset { sd: Some(sd), ..ModelPreset::default() };
    let file = file_with(ModelId::SdV15InpaintFp16, mp);

    let r = resolve_preset_for_model(&file, ModelId::SdV15InpaintFp16, Some(SdScheduler::Ddim));
    let ddim = SdSchedulerBundle::default_for(SdScheduler::Ddim);
    assert_eq!(r.brush.sd_steps, ddim.steps);
    assert!(near(r.brush.sd_guidance_scale, value(ddim.guidance_scale)));
    assert_eq!(r.brush.sd_scheduler, SdScheduler::Ddim);
}

#[test]
fn resolve_sd_no_sd_entry_uses_prunr_sdpreset() {
    let mp = ModelPreset { sd: None, ..ModelPreset::default() };
    let file = file_with(ModelId::SdV15InpaintFp16, mp);

    let r = resolve_preset_for_model(&file, ModelId::SdV15InpaintFp16, Some(SdScheduler::Lcm));
    let lcm = SdSchedulerBundle::default_for(SdScheduler::Lcm);
    assert_eq!(r.brush.sd_scheduler, SdScheduler::Lcm);
    assert_eq!(r.brush.sd_steps, lcm.steps);
    assert!(near(r.brush.sd_guidance_scale, value(lcm.guidance_scale)));
}

#[test]
fn resolve_non_sd_model_ignores_scheduler() {
    let mp = ModelPreset { brush: brush_with(80.0), ..ModelPreset::default() };
    let file = file_with(ModelId::Silueta, mp);

    let r = resolve_preset_for_model(&file, ModelId::Silueta, Some(SdScheduler::Lcm));
    assert_eq!(r.brush, brush_with(80.0));
}

#[test]
fn resolve_sd_uses_active_scheduler_when_caller_passes_none() {
    let mut schedulers = SchedulerTable::new();
    schedulers.insert(
        SdScheduler::Ddim,
        SdSchedulerBundle {
            steps: 20,
            guidance_scale: scalar(7.5),
            use_karras_sigmas: false,
            strength: scalar(1.0),
        },
    );
    let sd =
        SdPreset { active_scheduler: SdScheduler::Ddim, schedulers, ..SdPreset::default() };
    let mp = ModelPreset { sd: Some(sd), ..ModelPreset::default() };
    let file = file_with(ModelId::SdV15InpaintFp16, mp);

    let r = resolve_preset_for_model(&file, ModelId::SdV15InpaintFp16, None);
    assert_eq!(r.brush.sd_scheduler, SdScheduler::Ddim);
    assert_eq!(r.brush.sd_steps, 20);
    assert!(near(r.brush.sd_guidance_scale, 7.5));
}

#[test]
fn split_brush_for_save_non_sd_model_returns_brush_only() {
    let mut brush = BrushSettings::default();
    brush.sd_prompt = "carry-over".into();
    brush.sd_steps = 12;

    let (out_brush, sd) = split_brush_for_save(&brush, ModelId::Silueta);
    assert_eq!(out_brush, brush);
    assert!(sd.is_none());
}

#[test]
fn split_brush_for_save_sd_model_extracts_sd_fields() {
    let brush = BrushSettings {
        sd_prompt: "hello".into(),
        sd_negative_prompt: "world".into(),
        sd_steps: 12,
        sd_guidance_scale: scalar(6.5),
        sd_scheduler: SdScheduler::Ddim,
        sd_use_karras_sigmas: true,
        sd_strength: scalar(0.85),
        sd_seed: Some(7),
        sd_use_taesd: Some(true),
        ..BrushSettings::default()
    };

    let (_, sd) = split_brush_for_save(&brush, ModelId::SdV15InpaintFp16);
    let sd = sd.expect("SD model produces an SdPreset");
    assert_eq!(sd.prompt, "hello");
    assert_eq!(sd.negative_prompt, "world");
    assert_eq!(sd.use_taesd, Some(true));
    assert_eq!(sd.seed, Some(7));
    assert_eq!(sd.active_scheduler, SdScheduler::Ddim);

    let bundle = sd.schedulers.get(SdScheduler::Ddim).expect("Ddim bundle");
    assert_eq!(bundle.steps, 12);
    assert!(near(bundle.guidance_scale, 6.5));
    assert!(bundle.use_karras_sigmas);
    assert!(near(bundle.strength, 0.85));
}

#[test]
fn fuse_brush_for_apply_uses_sd_bundle_values() {
    let mut schedulers = SchedulerTable::new();
    schedulers.insert(
        SdScheduler::Ddim,
        SdSchedulerBundle {
            steps: 30,
            guidance_scale: scalar(6.0),
            use_karras_sigmas: false,
            strength: scalar(0.9),
        },
    );
    let sd = SdPreset {
        prompt: "x".into(),
        negative_prompt: "y".into(),
        active_scheduler: SdScheduler::Ddim,
        schedulers,
        ..SdPreset::default()
    };
    let mp = ModelPreset { brush: brush_with(80.0), sd: Some(sd), ..ModelPreset::default() };

    let fused = fuse_brush_for_apply(&mp, Some(SdScheduler::Ddim));
    assert!(near(fused.radius, 80.0));
    assert_eq!(fused.sd_steps, 30);
    assert!(near(fused.sd_guidance_scale, 6.0));
    assert_eq!(fused.sd_prompt, "x");
    assert_eq!(fused.sd_negative_prompt, "y");
    assert_eq!(fused.sd_scheduler, SdScheduler::Ddim);
    assert!(near(fused.sd_strength, 0.9));
}

#[test]
fn fuse_brush_for_apply_no_sd_entry_uses_brush_sd_fields() {
    let mut brush = BrushSettings::default();
    brush.sd_prompt = "kept".into();
    brush.sd_steps = 11;
    let mp = ModelPreset { brush: brush.clone(), sd: None, ..ModelPreset::default() };

    let fused = fuse_brush_for_apply(&mp, Some(SdScheduler::Ddim));
    assert_eq!(fused, brush);
}

#[test]
fn reset_button_parity_top_right_matches_brush_popover_subset() {
    let preset_brush = BrushSettings {
        radius: scalar(80.0),
        hardness: scalar(0.3),
        mode: BrushMode::Add,
        shape: BrushShape::Square,
        inpaint_grow: scalar(5.0),
        inpaint_feather: scalar(6.0),
        inpaint_sharpen: scalar(1.5),
        ..BrushSettings::default()
    };
    let mp = ModelPreset {
        item_settings: ItemSettings::default(),
        brush: preset_brush,
        sd: None,
    };
    let file = file_with(ModelId::Silueta, mp);

    let top_right_path_brush = resolve_preset_for_model(&file, ModelId::Silueta, None).brush;

    let mut live_brush = BrushSettings::default();
    live_brush.radius = scalar(10.0);
    let mut popover_target = live_brush.clone();
    popover_target.reset_popover_fields_from(&top_right_path_brush);

    assert!(near(top_right_path_brush.radius, 80.0));
    assert!(near(popover_target.radius, value(top_right_path_brush.radius)));
    assert!(near(popover_target.hardness, value(top_right_path_brush.hardness)));
    assert_eq!(popover_target.shape, top_right_path_brush.shape);
    assert!(near(popover_target.inpaint_grow, value(top_right_path_brush.inpaint_grow)));
    assert!(near(popover_target.inpaint_feather, value(top_right_path_brush.inpaint_feather)));
    assert!(near(popover_target.inpaint_sharpen, value(top_right_path_brush.inpaint_sharpen)));
}

#[test]
fn split_then_fuse_round_trips_sd_model() {
    let original = BrushSettings {
        radius: scalar(33.0),
        sd_prompt: "rt-prompt".into(),
        sd_negative_prompt: "rt-neg".into(),
        sd_steps: 17,
        sd_guidance_scale: scalar(4.25),
        sd_scheduler: SdScheduler::Ddim,
        sd_use_karras_sigmas: true,
        sd_strength: scalar(0.5),
        sd_seed: Some(99),
        sd_use_taesd: Some(false),
        ..BrushSettings::default()
    };

    let (brush_out, sd) = split_brush_for_save(&original, ModelId::SdV15InpaintFp16);
    let mp = ModelPreset { brush: brush_out, sd, ..ModelPreset::default() };
    let fused = fuse_brush_for_apply(&mp, Some(original.sd_scheduler));
    assert_eq!(fused, original);
}
