use prunr_app::env_overrides::{
    apply_to_item_settings, auto_process_override, read_bg_effect, read_bool, read_fill_style,
    read_hex_rgba, EnvOverrides,
};
use prunr_app::item_settings::ItemSettings;
use prunr_app::pipeline::{BgEffect, FillStyle, LineMode, Rgba, Scalar};

fn scalar(v: f32) -> Scalar {
    Scalar::from_bits(v.to_bits())
}

fn unset() -> EnvOverrides {
    EnvOverrides {
        gamma: None,
        threshold: None,
        edge_shift: None,
        refine_edges: None,
        feather: None,
        bg_color: None,
        line_mode: None,
        line_strength: None,
        fill_style: None,
        bg_effect: None,
    }
}

fn parsed(v: &str) -> Option<Scalar> {
    v.trim().parse::<f32>().ok().map(scalar)
}

#[test]
fn unset_env_leaves_defaults_unchanged() {
    let mut item = ItemSettings::default();
    apply_to_item_settings(&mut item, &unset());
    assert_eq!(item, ItemSettings::default());
}

#[test]
fn gamma_threshold_edge_shift_parse() {
    let env = EnvOverrides {
        gamma: parsed("2.5"),
        threshold: parsed("0.4"),
        edge_shift: parsed("-3"),
        ..unset()
    };
    let mut item = ItemSettings::default();
    apply_to_item_settings(&mut item, &env);
    assert_eq!(item.gamma, scalar(2.5));
    assert_eq!(item.threshold, Some(scalar(0.4)));
    assert_eq!(item.edge_shift, scalar(-3.0));
}

#[test]
fn refine_edges_accepts_truthy_strings() {
    for s in ["1", "true", "yes", "on", "TRUE"] {
        let env = EnvOverrides { refine_edges: Some(s.to_string()), ..unset() };
        let mut item = ItemSettings::default();
        apply_to_item_settings(&mut item, &env);
        assert!(item.refine_edges, "{s} should parse as true");
    }
}

#[test]
fn bg_color_hex_rgb_and_rgba() {
    let env = EnvOverrides { bg_color: Some("ff0080".to_string()), ..unset() };
    let mut item = ItemSettings::default();
    apply_to_item_settings(&mut item, &env);
    assert_eq!(item.bg, Some(Rgba { r: 0xff, g: 0x00, b: 0x80, a: 0xff }));

    let env = EnvOverrides { bg_color: Some("#11223344".to_string()), ..unset() };
    let mut item = ItemSettings::default();
    apply_to_item_settings(&mut item, &env);
    assert_eq!(item.bg, Some(Rgba { r: 0x11, g: 0x22, b: 0x33, a: 0x44 }));
}

#[test]
fn bad_value_is_ignored() {
    let env = EnvOverrides { gamma: parsed("not-a-number"), ..unset() };
    let mut item = ItemSettings::default();
    apply_to_item_settings(&mut item, &env);
    assert_eq!(item.gamma, ItemSettings::default().gamma);
}

#[test]
fn line_mode_aliases() {
    for (s, expect) in [
        ("Off", LineMode::Off),
        ("edges", LineMode::EdgesOnly),
        ("subject_outline", LineMode::SubjectOutline),
    ] {
        let env = EnvOverrides { line_mode: Some(s.to_string()), ..unset() };
        let mut item = ItemSettings::default();
        apply_to_item_settings(&mut item, &env);
        assert_eq!(item.line_mode, expect);
    }
}

#[test]
fn words_are_read_in_any_case_and_with_space_around() {
    assert_eq!(read_bool(" Off "), Some(false));
    assert_eq!(read_bool("maybe"), None);
    assert_eq!(auto_process_override(None), None);
    assert_eq!(auto_process_override(Some("yes")), Some(true));
    assert_eq!(read_hex_rgba("12345"), None);
    assert_eq!(read_hex_rgba("gg0000"), None);
    assert_eq!(read_fill_style(" Invert "), Some(FillStyle::Invert));
    assert_eq!(read_fill_style("?"), None);
    assert_eq!(read_bg_effect("Inverted"), Some(BgEffect::InvertedSource));
    assert_eq!(read_bg_effect("?"), None);
}
