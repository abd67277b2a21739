use prunr_app::item_settings::ItemSettings;
use prunr_app::knob_catalog::{
    cache_impact_for_recipe_diff, input_transform_spec, line_mode_spec, spec, CacheImpact,
    DispatchKind, KnobSet, LineModeChange, StaticKnob,
};
use prunr_app::pipeline::{
    BgEffect, ComposeMode, CompositeRecipe, EdgeRecipe, EdgeScale, FillStyle, InferenceRecipe,
    InputTransform, LineMode, LineStyle, MaskRecipe, MaskSettings, ModelKind, ProcessingRecipe,
    RequiredTier, Rgb, Rgba, Scalar,
};

fn scalar(v: f32) -> Scalar {
    Scalar::from_bits(v.to_bits())
}

fn value(s: Scalar) -> f32 {
    f32::from_bits(s.bits)
}

#[test]
fn every_static_knob_has_a_spec() {
    for k in StaticKnob::ALL {
        let _ = spec(k);
    }
}

#[test]
fn no_static_knob_resolves_to_skip() {
    for k in StaticKnob::ALL {
        assert_ne!(spec(k).tier, RequiredTier::Skip, "{k:?}");
    }
}

#[test]
fn specs_are_internally_consistent() {
    for k in StaticKnob::ALL {
        let s = spec(k);
        match (s.tier, s.dispatch) {
            (RequiredTier::CompositeOnly, DispatchKind::Render)
            | (RequiredTier::MaskRerun, DispatchKind::LivePreviewMask)
            | (RequiredTier::EdgeRerun, DispatchKind::LivePreviewEdge)
            | (RequiredTier::FullPipeline, DispatchKind::SubprocessFullPipeline)
            | (RequiredTier::AddEdgeInference, DispatchKind::SubprocessAddEdge) => {}
            other => panic!("knob {k:?} has inconsistent (tier, dispatch) = {other:?}"),
        }
    }
}

#[test]
fn cache_impact_union_exhaustive() {
    let nothing = CacheImpact::Nothing;
    let edge = CacheImpact::EdgeCache;
    let seg = CacheImpact::SegCache;
    let both = CacheImpact::Both;
    let cases: [(CacheImpact, CacheImpact, CacheImpact); 16] = [
        (nothing, nothing, nothing),
        (nothing, edge, edge),
        (nothing, seg, seg),
        (nothing, both, both),
        (edge, nothing, edge),
        (edge, edge, edge),
        (edge, seg, both),
        (edge, both, both),
        (seg, nothing, seg),
        (seg, edge, both),
        (seg, seg, seg),
        (seg, both, both),
        (both, nothing, both),
        (both, edge, both),
        (both, seg, both),
        (both, both, both),
    ];
    for (a, b, expected) in cases {
        assert_eq!(a.union(b), expected, "union({a:?}, {b:?})");
        assert_eq!(b.union(a), expected, "commutativity {a:?} vs {b:?}");
    }
}

#[test]
fn dispatch_max_prefers_stronger() {
    let full = DispatchKind::SubprocessFullPipeline;
    let add_edge = DispatchKind::SubprocessAddEdge;
    let mask = DispatchKind::LivePreviewMask;
    let edge = DispatchKind::LivePreviewEdge;
    let render = DispatchKind::Render;
    let nothing = DispatchKind::Nothing;
    assert_eq!(full.max(mask), full);
    assert_eq!(mask.max(add_edge), add_edge);
    assert_eq!(mask.max(edge), mask);
    assert_eq!(edge.max(mask), mask);
    assert_eq!(render.max(nothing), render);
    assert_eq!(nothing.max(nothing), nothing);
}

fn lmc(from: LineMode, to: LineMode) -> LineModeChange {
    LineModeChange { from, to }
}

#[test]
fn line_mode_identity_is_skip() {
    for m in [LineMode::Off, LineMode::EdgesOnly, LineMode::SubjectOutline] {
        let s = line_mode_spec(lmc(m, m), false);
        assert_eq!(s.tier, RequiredTier::Skip);
        assert_eq!(s.dispatch, DispatchKind::Nothing);
    }
}

#[test]
fn line_mode_off_to_subject_respects_cached_edge() {
    let warm = line_mode_spec(lmc(LineMode::Off, LineMode::SubjectOutline), true);
    assert_eq!(warm.dispatch, DispatchKind::LivePreviewMask);
    let cold = line_mode_spec(lmc(LineMode::Off, LineMode::SubjectOutline), false);
    assert_eq!(cold.dispatch, DispatchKind::SubprocessAddEdge);
}

#[test]
fn line_mode_transitions_match_table() {
    let off = LineMode::Off;
    let subject = LineMode::SubjectOutline;
    let edges = LineMode::EdgesOnly;
    let nothing = CacheImpact::Nothing;
    let edge_cache = CacheImpact::EdgeCache;
    let cases = [
        (off, subject, false, nothing, DispatchKind::SubprocessAddEdge),
        (off, subject, true, nothing, DispatchKind::LivePreviewMask),
        (off, edges, false, edge_cache, DispatchKind::SubprocessFullPipeline),
        (subject, off, false, nothing, DispatchKind::LivePreviewMask),
        (subject, edges, false, edge_cache, DispatchKind::SubprocessFullPipeline),
        (edges, off, false, nothing, DispatchKind::SubprocessFullPipeline),
        (edges, subject, false, edge_cache, DispatchKind::SubprocessFullPipeline),
    ];
    for (old, new, cached, cache, dispatch) in cases {
        let s = line_mode_spec(lmc(old, new), cached);
        assert_eq!(s.cache_impact, cache, "{old:?} -> {new:?}");
        assert_eq!(s.dispatch, dispatch, "{old:?} -> {new:?}");
    }
}

#[test]
fn cold_line_mode_dispatch_outranks_warm_under_max() {
    let cold = line_mode_spec(lmc(LineMode::Off, LineMode::SubjectOutline), false).dispatch;
    let warm = line_mode_spec(lmc(LineMode::Off, LineMode::SubjectOutline), true).dispatch;
    assert_eq!(cold, DispatchKind::SubprocessAddEdge);
    assert_eq!(warm, DispatchKind::LivePreviewMask);
    assert_eq!(
        cold.max(warm),
        DispatchKind::SubprocessAddEdge,
        "`.max()` keeps the cold dispatch",
    );
}

#[test]
fn input_transform_spec_reuses_cached_seg() {
    let warm = input_transform_spec(true);
    assert_eq!(warm.tier, RequiredTier::AddEdgeInference);
    assert_eq!(warm.dispatch, DispatchKind::SubprocessAddEdge);
    assert_eq!(warm.cache_impact, CacheImpact::EdgeCache);

    let cold = input_transform_spec(false);
    assert_eq!(cold.tier, RequiredTier::FullPipeline);
    assert_eq!(cold.dispatch, DispatchKind::SubprocessFullPipeline);
    assert_eq!(cold.cache_impact, CacheImpact::EdgeCache);
}

/// The settings with one knob moved away from where it stands.
fn mutate_static(knob: StaticKnob, base: ItemSettings) -> ItemSettings {
    let mut new = base;
    match knob {
        StaticKnob::Gamma => new.gamma = scalar(value(base.gamma) + 0.5),
        StaticKnob::Threshold => {
            new.threshold = Some(scalar(base.threshold.map_or(0.5, value) + 0.1));
        }
        StaticKnob::EdgeShift => new.edge_shift = scalar(value(base.edge_shift) + 1.0),
        StaticKnob::RefineEdges => new.refine_edges = !base.refine_edges,
        StaticKnob::GuidedRadius => new.guided_radius = base.guided_radius + 1,
        StaticKnob::GuidedEpsilon => new.guided_epsilon = scalar(value(base.guided_epsilon) * 2.0),
        StaticKnob::Feather => new.feather = scalar(value(base.feather) + 0.5),
        StaticKnob::FillStyle => {
            new.fill_style = match base.fill_style {
                FillStyle::Plain => FillStyle::Invert,
                _ => FillStyle::Plain,
            };
        }
        StaticKnob::BgEffect => {
            new.bg_effect = match base.bg_effect {
                BgEffect::Plain => BgEffect::InvertedSource,
                _ => BgEffect::Plain,
            };
        }
        StaticKnob::LineStrength => {
            new.line_strength = scalar((value(base.line_strength) + 0.2).min(1.0));
        }
        StaticKnob::EdgeThickness => new.edge_thickness = base.edge_thickness + 1,
        StaticKnob::EdgeScale => {
            new.edge_scale = match base.edge_scale {
                EdgeScale::Fused => EdgeScale::Fine,
                _ => EdgeScale::Fused,
            };
        }
        StaticKnob::SolidLineColor => {
            new.solid_line_color = match base.solid_line_color {
                None => Some(Rgb { r: 255, g: 0, b: 0 }),
                Some(_) => None,
            };
        }
        StaticKnob::ComposeMode => {
            new.compose_mode = match base.compose_mode {
                ComposeMode::LinesOnly => ComposeMode::SubjectFilled,
                _ => ComposeMode::LinesOnly,
            };
        }
        StaticKnob::LineStyle => {
            new.line_style = match base.line_style {
                LineStyle::Solid => LineStyle::Rainbow { cycles: 3 },
                _ => LineStyle::Solid,
            };
        }
        StaticKnob::BgColor => {
            new.bg = match base.bg {
                None => Some(Rgba { r: 128, g: 128, b: 128, a: 255 }),
                Some(_) => None,
            };
        }
        StaticKnob::Model | StaticKnob::ChainMode => {}
    }
    new
}

#[test]
fn static_knob_tiers_and_cache_agree_with_resolve_tier() {
    let base = ItemSettings { line_mode: LineMode::SubjectOutline, ..Default::default() };
    for knob in StaticKnob::ALL {
        if matches!(knob, StaticKnob::Model | StaticKnob::ChainMode) {
            continue;
        }
        let new = mutate_static(knob, base);
        let model = ModelKind::Silueta;
        let old_recipe = base.current_recipe(model, false);
        let new_recipe = new.current_recipe(model, false);
        let impact_from_diff = cache_impact_for_recipe_diff(&old_recipe, &new_recipe);
        let cat_spec = spec(knob);
        assert_eq!(cat_spec.cache_impact, impact_from_diff, "knob {knob:?}");
        assert_ne!(old_recipe, new_recipe, "knob {knob:?} shows in the recipe");
    }
}

#[test]
fn line_mode_cache_impact_matches_recipe_diff() {
    let cases = [
        (LineMode::Off, LineMode::SubjectOutline),
        (LineMode::Off, LineMode::EdgesOnly),
        (LineMode::SubjectOutline, LineMode::Off),
        (LineMode::SubjectOutline, LineMode::EdgesOnly),
        (LineMode::EdgesOnly, LineMode::Off),
        (LineMode::EdgesOnly, LineMode::SubjectOutline),
    ];
    for (from, to) in cases {
        let old = ItemSettings { line_mode: from, ..Default::default() };
        let new = ItemSettings { line_mode: to, ..Default::default() };
        let old_recipe = old.current_recipe(ModelKind::Silueta, false);
        let new_recipe = new.current_recipe(ModelKind::Silueta, false);
        let cat = line_mode_spec(lmc(from, to), false);
        let diff = cache_impact_for_recipe_diff(&old_recipe, &new_recipe);
        assert_eq!(cat.cache_impact, diff, "{from:?} -> {to:?}");
    }
}

#[test]
fn input_transform_cache_impact_matches_recipe_diff() {
    let old = ItemSettings { line_mode: LineMode::SubjectOutline, ..Default::default() };
    let new = ItemSettings {
        line_mode: LineMode::SubjectOutline,
        input_transform: InputTransform::Grayscale,
        ..Default::default()
    };
    let diff = cache_impact_for_recipe_diff(
        &old.current_recipe(ModelKind::Silueta, false),
        &new.current_recipe(ModelKind::Silueta, false),
    );
    assert_eq!(input_transform_spec(true).cache_impact, diff);
}

#[test]
fn cache_impact_is_additive() {
    let base = ItemSettings { line_mode: LineMode::SubjectOutline, ..Default::default() };
    let old_recipe = base.current_recipe(ModelKind::Silueta, false);
    for bits in 0..8u32 {
        let chain_flip = bits & 1 != 0;
        let transform_flip = bits & 2 != 0;
        let model_flip = bits & 4 != 0;
        let mut new_settings = base;
        if transform_flip {
            new_settings.input_transform = InputTransform::Grayscale;
        }
        let new_model = if model_flip { ModelKind::BiRefNetLite } else { ModelKind::Silueta };
        let new_recipe = new_settings.current_recipe(new_model, chain_flip);
        let actual = cache_impact_for_recipe_diff(&old_recipe, &new_recipe);
        let mut expected = CacheImpact::Nothing;
        if chain_flip {
            expected = expected.union(spec(StaticKnob::ChainMode).cache_impact);
        }
        if model_flip {
            expected = expected.union(spec(StaticKnob::Model).cache_impact);
        }
        if transform_flip {
            expected = expected.union(input_transform_spec(false).cache_impact);
        }
        assert_eq!(actual, expected);
    }
}

#[test]
fn cache_impact_for_recipe_diff_covers_common_knobs() {
    let base = ProcessingRecipe {
        inference: InferenceRecipe {
            model: ModelKind::Silueta,
            uses_segmentation: true,
            uses_edge_detection: false,
            input_transform: InputTransform::Plain,
        },
        edge: EdgeRecipe {
            line_strength_bits: 0.5f32.to_bits(),
            solid_line_color: None,
            edge_thickness: 0,
            edge_scale: EdgeScale::Fused,
            compose_mode: ComposeMode::LinesOnly,
            line_style: LineStyle::Solid,
        },
        mask: MaskRecipe::from_settings(&MaskSettings {
            fill_style: FillStyle::Plain,
            ..Default::default()
        }),
        composite: CompositeRecipe { bg_color: None, solid_line_color: None },
        was_chain: false,
    };

    assert_eq!(cache_impact_for_recipe_diff(&base, &base), CacheImpact::Nothing);

    let mut model_swap = base;
    model_swap.inference.model = ModelKind::BiRefNetLite;
    assert_eq!(cache_impact_for_recipe_diff(&base, &model_swap), CacheImpact::SegCache);

    let mut transform_change = base;
    transform_change.inference.input_transform = InputTransform::Grayscale;
    assert_eq!(cache_impact_for_recipe_diff(&base, &transform_change), CacheImpact::EdgeCache);

    let mut chain_flip = base;
    chain_flip.was_chain = true;
    assert_eq!(cache_impact_for_recipe_diff(&base, &chain_flip), CacheImpact::Both);

    let mut to_subject = base;
    to_subject.inference.uses_edge_detection = true;
    assert_eq!(cache_impact_for_recipe_diff(&base, &to_subject), CacheImpact::Nothing);
}

#[test]
fn a_knob_set_holds_what_was_put_in() {
    let mut set = KnobSet::default();
    assert!(set.is_empty());
    set.insert(StaticKnob::Gamma);
    set.insert(StaticKnob::ChainMode);
    set.insert(StaticKnob::Gamma);
    assert!(!set.is_empty());
    assert!(set.contains(StaticKnob::Gamma));
    assert!(set.contains(StaticKnob::ChainMode));
    assert!(!set.contains(StaticKnob::Feather));
}

#[test]
fn every_knob_stands_at_its_ordinal() {
    for (i, k) in StaticKnob::ALL.iter().enumerate() {
        assert_eq!(k.ordinal() as usize, i);
    }
}
