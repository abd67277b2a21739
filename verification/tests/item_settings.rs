use prunr_app::item_settings::ItemSettings;
use prunr_app::pipeline::{
    LineMode, MaskRecipe, MaskSettings, ModelKind, Rgb, Rgba, Scalar, GUIDED_EPSILON_BITS,
    HALF_BITS, INFINITY_BITS, ONE_BITS, TWO_BITS, ZERO_BITS,
};

fn scalar(v: f32) -> Scalar {
    Scalar::from_bits(v.to_bits())
}

#[test]
fn scalar_constants_are_the_bits_of_their_values() {
    assert_eq!(ZERO_BITS, 0.0f32.to_bits());
    assert_eq!(HALF_BITS, 0.5f32.to_bits());
    assert_eq!(ONE_BITS, 1.0f32.to_bits());
    assert_eq!(TWO_BITS, 2.0f32.to_bits());
    assert_eq!(GUIDED_EPSILON_BITS, 1e-4f32.to_bits());
    assert_eq!(INFINITY_BITS, f32::INFINITY.to_bits());
}

#[test]
fn default_matches_v1_defaults() {
    let s = ItemSettings::default();
    assert_eq!(s.gamma, scalar(1.0));
    assert!(s.threshold.is_none());
    assert_eq!(s.edge_shift, scalar(0.0));
    assert!(!s.refine_edges);
    assert_eq!(s.line_mode, LineMode::Off);
    assert_eq!(s.line_strength, scalar(0.5));
    assert!(s.solid_line_color.is_none());
    assert!(s.bg.is_none());
}

#[test]
fn is_copy() {
    fn assert_copy<T: Copy>() {}
    assert_copy::<ItemSettings>();
}

#[test]
fn mask_settings_roundtrip() {
    let mut s = ItemSettings::default();
    s.gamma = scalar(1.5);
    s.threshold = Some(scalar(0.3));
    s.edge_shift = scalar(2.0);
    s.refine_edges = true;
    let m = s.mask_settings();
    assert_eq!(m.gamma, scalar(1.5));
    assert_eq!(m.threshold, Some(scalar(0.3)));
    assert_eq!(m.edge_shift, scalar(2.0));
    assert!(m.refine_edges);
}

#[test]
fn bg_rgb_stripped_in_recipe() {
    let mut s = ItemSettings::default();
    s.bg = Some(Rgba { r: 10, g: 20, b: 30, a: 200 });
    let r = s.current_recipe(ModelKind::Silueta, false);
    assert_eq!(r.composite.bg_color, Some(Rgb { r: 10, g: 20, b: 30 }));
}

#[test]
fn edges_only_pins_mask_defaults() {
    let mut s = ItemSettings::default();
    s.line_mode = LineMode::EdgesOnly;
    s.gamma = scalar(2.0);
    s.threshold = Some(scalar(0.8));
    let r = s.current_recipe(ModelKind::Silueta, false);
    let defaults = MaskRecipe::from_settings(&MaskSettings::default());
    assert_eq!(r.mask, defaults);
}

#[test]
fn scalars_are_clamped_like_floats() {
    for (v, lo, hi) in [(2.0f32, 0.0f32, 1.0f32), (-3.0, -1.0, 1.0), (0.25, 0.0, 1.0), (-0.0, -1.0, 1.0)] {
        let clamped = scalar(v).clamp_to(scalar(lo), scalar(hi));
        assert_eq!(f32::from_bits(clamped.bits), v.clamp(lo, hi));
    }
}
