use prunr_app::brush_state::{BrushSettings, SdScheduler};
use prunr_app::item_settings::ItemSettings;
use prunr_app::pipeline::{ModelId, Scalar};
use prunr_app::presets::{
    model_id_key, split_brush_for_save, ModelPreset, PresetFile, SchedulerTable, SdPreset,
    SdSchedulerBundle, PRESET_FORMAT_VERSION,
};
use prunr_app::presets_fs::{
    builtin_presets, format_of_head, merge_base, merge_into, parse_preset, preset_format,
    preset_name_of, preset_path, presets_to_seed, sanitize_filename, save_target, JsonHead,
    PresetError, PresetFormat, BUILTIN_COUNT, GAMMA_FIRM_BITS, GAMMA_SOFT_BITS, GAMMA_STRONG_BITS,
    STRENGTH_55_BITS, STRENGTH_60_BITS, STRENGTH_65_BITS, STRENGTH_70_BITS, STRENGTH_80_BITS,
};
use prunr_app::settings::PRUNR_PRESET;

fn scalar(v: f32) -> Scalar {
    Scalar::from_bits(v.to_bits())
}

#[test]
fn look_constants_are_the_bits_of_their_values() {
    assert_eq!(GAMMA_SOFT_BITS, 1.1f32.to_bits());
    assert_eq!(GAMMA_FIRM_BITS, 1.3f32.to_bits());
    assert_eq!(GAMMA_STRONG_BITS, 1.4f32.to_bits());
    assert_eq!(STRENGTH_55_BITS, 0.55f32.to_bits());
    assert_eq!(STRENGTH_60_BITS, 0.6f32.to_bits());
    assert_eq!(STRENGTH_65_BITS, 0.65f32.to_bits());
    assert_eq!(STRENGTH_70_BITS, 0.7f32.to_bits());
    assert_eq!(STRENGTH_80_BITS, 0.8f32.to_bits());
}

#[test]
fn sanitize_strips_path_separators() {
    assert_eq!(sanitize_filename("foo/bar"), "foobar");
    assert_eq!(sanitize_filename("foo\\bar"), "foobar");
}

#[test]
fn sanitize_rejects_parent_traversal() {
    assert_eq!(sanitize_filename("../etc"), "etc");
    assert_eq!(sanitize_filename("foo..bar"), "foo_bar");
}

#[test]
fn sanitize_strips_leading_dot() {
    assert_eq!(sanitize_filename(".hidden"), "hidden");
}

#[test]
fn sanitize_strips_control_chars() {
    let name = "good\x00bad\x01name";
    assert_eq!(sanitize_filename(name), "goodbadname");
}

#[test]
fn sanitize_trims_whitespace() {
    assert_eq!(sanitize_filename("  Portrait  "), "Portrait");
}

#[test]
fn sanitize_empty_falls_back() {
    assert_eq!(sanitize_filename(""), "preset");
    assert_eq!(sanitize_filename("   "), "preset");
}

#[test]
fn save_rejects_prunr_name() {
    let result = save_target(Some("/cfg"), "Prunr");
    assert!(result.is_err());
    let result = save_target(Some("/cfg"), "prunr");
    assert!(result.is_err());
}

#[test]
fn delete_prunr_is_noop() {
    assert!(preset_path("/cfg", PRUNR_PRESET).is_none());
}

#[test]
fn save_targets_stay_in_the_directory() {
    assert_eq!(save_target(Some("/cfg"), "a/../b").unwrap(), "/cfg/a_b.json");
    assert!(matches!(save_target(None, "x"), Err(PresetError::NoConfigDir)));
    assert_eq!(PresetError::NoConfigDir.message(), "config dir unavailable");
    assert_eq!(PresetError::ReservedName.message(), "\"Prunr\" is a reserved preset name");
}

#[test]
fn only_json_files_are_presets() {
    assert_eq!(preset_name_of("/cfg/Soft.json"), Some("Soft".to_string()));
    assert_eq!(preset_name_of("/cfg/Soft.txt"), None);
    assert_eq!(preset_name_of("/cfg/Soft"), None);
}

#[test]
fn builtins_have_unique_names_and_serialize() {
    let presets = builtin_presets();
    assert!(presets.len() >= 5, "ship at least 5 curated looks; got {}", presets.len());
    let mut seen = std::collections::HashSet::new();
    for (name, _settings) in &presets {
        assert!(seen.insert(*name), "duplicate builtin preset name: {name}");
        assert!(
            !name.eq_ignore_ascii_case(PRUNR_PRESET),
            "built-in preset cannot use reserved name '{PRUNR_PRESET}'",
        );
        assert_eq!(sanitize_filename(name), *name, "the name is its own file name");
    }
}

#[test]
fn builtins_are_seeded_once_and_never_overwritten() {
    let mut exists = vec![false; BUILTIN_COUNT];
    assert_eq!(presets_to_seed(false, &exists).len(), BUILTIN_COUNT);
    exists[2] = true;
    let seeded = presets_to_seed(false, &exists);
    assert_eq!(seeded.len(), BUILTIN_COUNT - 1);
    assert!(!seeded.contains(&2));
    assert!(presets_to_seed(true, &exists).is_empty());
}

#[test]
fn migrate_v1_with_item_settings_fields_wraps_into_default_model_entry() {
    assert_eq!(
        preset_format(br#"{ "gamma": 2.0, "edge_thickness": 5 }"#),
        PresetFormat::PictureOnly
    );
    let settings =
        ItemSettings { gamma: scalar(2.0), edge_thickness: 5, ..ItemSettings::default() };
    let migrated =
        parse_preset(PresetFormat::PictureOnly, None, Some(settings)).expect("must migrate");
    assert_eq!(migrated.format_version, 2);
    let default_key = model_id_key(ModelId::BiRefNetLite);
    let entry = migrated.models.get(&default_key).expect("default model entry");
    assert_eq!(entry.item_settings.gamma, scalar(2.0));
    assert_eq!(entry.item_settings.edge_thickness, 5);
    assert_eq!(entry.brush, BrushSettings::default());
    assert!(entry.sd.is_none());
}

#[test]
fn migrate_v1_empty_object_wraps_default_item_settings() {
    assert_eq!(preset_format(b"{}"), PresetFormat::PictureOnly);
    let migrated = parse_preset(PresetFormat::PictureOnly, None, Some(ItemSettings::default()))
        .expect("must migrate empty");
    assert_eq!(migrated.format_version, 2);
    let default_key = model_id_key(ModelId::BiRefNetLite);
    let entry = migrated.models.get(&default_key).expect("default model entry");
    assert_eq!(entry.item_settings, ItemSettings::default());
}

#[test]
fn migrate_v1_with_unknown_fields_succeeds() {
    assert_eq!(
        preset_format(br#"{ "gamma": 1.5, "definitely_not_a_real_field": 42 }"#),
        PresetFormat::PictureOnly
    );
    let settings = ItemSettings { gamma: scalar(1.5), ..ItemSettings::default() };
    let migrated =
        parse_preset(PresetFormat::PictureOnly, None, Some(settings)).expect("must migrate");
    let default_key = model_id_key(ModelId::BiRefNetLite);
    let entry = migrated.models.get(&default_key).expect("default model entry");
    assert_eq!(entry.item_settings.gamma, scalar(1.5));
}

#[test]
fn migrate_v1_with_garbage_json_returns_none() {
    for garbage in [&b"\"not an object\""[..], &b"[1, 2, 3]"[..]] {
        let format = preset_format(garbage);
        assert_eq!(format, PresetFormat::Unrecognised);
        assert!(parse_preset(format, None, None).is_none());
    }
    assert_eq!(preset_format(b"not json at all"), PresetFormat::Malformed);
    assert!(parse_preset(PresetFormat::Malformed, None, None).is_none());
}

#[test]
fn v2_preset_file_round_trips_through_save_load_pure() {
    let file = br#"{ "format_version": 2, "models": {} }"#;
    assert_eq!(preset_format(file), PresetFormat::ByModel);
    let mut original = PresetFile::default();
    original.models.insert(model_id_key(ModelId::SdV15InpaintFp16), ModelPreset::default());
    let restored = parse_preset(PresetFormat::ByModel, Some(original), None).expect("a preset");
    assert_eq!(
        restored.models.get("SdV15InpaintFp16"),
        Some(&ModelPreset::default())
    );
}

#[test]
fn another_version_is_taken_for_the_older_kind() {
    assert_eq!(preset_format(br#"{ "format_version": 3 }"#), PresetFormat::PictureOnly);
    assert_eq!(
        format_of_head(Some(JsonHead { is_object: true, number: Some(2) })),
        PresetFormat::ByModel
    );
    assert_eq!(format_of_head(None), PresetFormat::Malformed);
}

#[test]
fn save_merged_preserves_other_model_entries() {
    let silueta_mp = ModelPreset {
        item_settings: ItemSettings { gamma: scalar(1.5), ..ItemSettings::default() },
        brush: BrushSettings::default(),
        sd: None,
    };
    let mut seed = PresetFile::default();
    seed.models.insert(model_id_key(ModelId::Silueta), silueta_mp.clone());
    seed.models.insert(
        model_id_key(ModelId::SdV15InpaintFp16),
        ModelPreset { sd: Some(SdPreset::default()), ..ModelPreset::default() },
    );

    let new_sd_mp = ModelPreset {
        item_settings: ItemSettings { gamma: scalar(2.5), ..ItemSettings::default() },
        brush: BrushSettings::default(),
        sd: Some(SdPreset { prompt: "rewritten".into(), ..SdPreset::default() }),
    };
    let mut file = merge_base(Some(seed));
    merge_into(&mut file, ModelId::SdV15InpaintFp16, new_sd_mp.clone());

    let silueta_back =
        file.models.get(&model_id_key(ModelId::Silueta)).expect("Silueta entry preserved");
    assert_eq!(*silueta_back, silueta_mp, "Silueta entry must be byte-equal");
    let sd_back =
        file.models.get(&model_id_key(ModelId::SdV15InpaintFp16)).expect("SD entry exists");
    assert_eq!(*sd_back, new_sd_mp, "SD entry must equal the merged-in preset");
}

#[test]
fn save_merged_preserves_other_scheduler_bundles_within_sd() {
    let ddim_bundle_new = SdSchedulerBundle {
        steps: 30,
        guidance_scale: scalar(8.0),
        use_karras_sigmas: true,
        strength: scalar(0.85),
    };
    let mut schedulers_seed = SchedulerTable::new();
    schedulers_seed.insert(
        SdScheduler::Lcm,
        SdSchedulerBundle {
            steps: 8,
            guidance_scale: scalar(1.5),
            use_karras_sigmas: false,
            strength: scalar(1.0),
        },
    );
    schedulers_seed.insert(
        SdScheduler::Ddim,
        SdSchedulerBundle {
            steps: 20,
            guidance_scale: scalar(7.5),
            use_karras_sigmas: false,
            strength: scalar(1.0),
        },
    );
    let seed_sd = SdPreset {
        prompt: "old".into(),
        negative_prompt: "old-neg".into(),
        use_taesd: Some(false),
        seed: Some(11),
        active_scheduler: SdScheduler::Lcm,
        schedulers: schedulers_seed,
    };
    let mut file = PresetFile::default();
    file.models.insert(
        model_id_key(ModelId::SdV15InpaintFp16),
        ModelPreset { sd: Some(seed_sd), ..ModelPreset::default() },
    );

    let mut new_schedulers = SchedulerTable::new();
    new_schedulers.insert(SdScheduler::Ddim, ddim_bundle_new);
    let new_sd = SdPreset {
        prompt: "new".into(),
        negative_prompt: "new-neg".into(),
        use_taesd: Some(true),
        seed: Some(99),
        active_scheduler: SdScheduler::Ddim,
        schedulers: new_schedulers,
    };
    let new_mp = ModelPreset { sd: Some(new_sd), ..ModelPreset::default() };
    merge_into(&mut file, ModelId::SdV15InpaintFp16, new_mp);

    let mp_back =
        file.models.get(&model_id_key(ModelId::SdV15InpaintFp16)).expect("SD entry");
    let sd_back = mp_back.sd.as_ref().expect("SD bundle");
    assert_eq!(
        sd_back.schedulers.get(SdScheduler::Ddim),
        Some(ddim_bundle_new),
        "Ddim bundle equals the freshly-merged values",
    );
    assert_eq!(sd_back.active_scheduler, SdScheduler::Ddim);
    assert_eq!(sd_back.prompt, "new");
    assert_eq!(sd_back.negative_prompt, "new-neg");
    assert_eq!(sd_back.use_taesd, Some(true));
    assert_eq!(sd_back.seed, Some(99));
}

#[test]
fn save_merged_creates_file_when_none_exists() {
    let mp = ModelPreset {
        item_settings: ItemSettings { gamma: scalar(1.9), ..ItemSettings::default() },
        ..ModelPreset::default()
    };
    let mut file = merge_base(None);
    merge_into(&mut file, ModelId::Silueta, mp.clone());

    assert_eq!(file.format_version, PRESET_FORMAT_VERSION);
    assert_eq!(file.models.len(), 1);
    assert_eq!(file.models.get(&model_id_key(ModelId::Silueta)), Some(&mp));
}

#[test]
fn save_merged_handles_v1_file_via_load_path() {
    let old = br#"{ "gamma": 1.4, "edge_thickness": 7 }"#;
    let settings =
        ItemSettings { gamma: scalar(1.4), edge_thickness: 7, ..ItemSettings::default() };
    let loaded = parse_preset(preset_format(old), None, Some(settings));

    let lama_mp = ModelPreset {
        item_settings: ItemSettings { gamma: scalar(2.0), ..ItemSettings::default() },
        ..ModelPreset::default()
    };
    let mut file = merge_base(loaded);
    merge_into(&mut file, ModelId::LaMaFp32, lama_mp.clone());

    assert_eq!(file.format_version, PRESET_FORMAT_VERSION);
    let v1_back = file
        .models
        .get(&model_id_key(ModelId::BiRefNetLite))
        .expect("v1 entry migrated under workspace default");
    assert!((f32::from_bits(v1_back.item_settings.gamma.bits) - 1.4).abs() < f32::EPSILON);
    assert_eq!(v1_back.item_settings.edge_thickness, 7);
    assert_eq!(file.models.get(&model_id_key(ModelId::LaMaFp32)), Some(&lama_mp));
}

#[test]
fn save_merged_rejects_prunr_name() {
    assert!(matches!(save_target(Some("/cfg"), "Prunr"), Err(PresetError::ReservedName)));
    assert!(matches!(save_target(Some("/cfg"), "prunr"), Err(PresetError::ReservedName)));
}

#[test]
fn merge_save_dynamic_field_capture() {
    let base = BrushSettings {
        radius: scalar(73.0),
        hardness: scalar(0.42),
        sd_prompt: "a-distinctive-prompt".into(),
        sd_negative_prompt: "a-distinctive-neg-prompt".into(),
        sd_steps: 17,
        sd_guidance_scale: scalar(5.25),
        sd_scheduler: SdScheduler::Ddim,
        sd_use_karras_sigmas: true,
        sd_strength: scalar(0.66),
        sd_seed: Some(13579),
        sd_use_taesd: Some(true),
        ..Default::default()
    };

    let (brush_split, sd) = split_brush_for_save(&base, ModelId::SdV15InpaintFp16);
    let mp = ModelPreset { item_settings: ItemSettings::default(), brush: brush_split, sd };
    let mut file = merge_base(None);
    merge_into(&mut file, ModelId::SdV15InpaintFp16, mp);

    let mp_back =
        file.models.get(&model_id_key(ModelId::SdV15InpaintFp16)).expect("SD entry");
    let mut fused = mp_back.brush.clone();
    if let Some(sd) = mp_back.sd.as_ref() {
        fused.sd_scheduler = sd.active_scheduler;
        fused.sd_prompt = sd.prompt.clone();
        fused.sd_negative_prompt = sd.negative_prompt.clone();
        fused.sd_use_taesd = sd.use_taesd;
        fused.sd_seed = sd.seed;
        if let Some(bundle) = sd.schedulers.get(sd.active_scheduler) {
            fused.sd_steps = bundle.steps;
            fused.sd_guidance_scale = bundle.guidance_scale;
            fused.sd_use_karras_sigmas = bundle.use_karras_sigmas;
            fused.sd_strength = bundle.strength;
        }
    }
    assert_eq!(fused, base, "every BrushSettings field must round-trip");
}
