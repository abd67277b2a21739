use prunr_app::drag_export::{
    is_self_drop, is_stale, layer_plan, make_filename, make_layer_filename, prepare_for_drag,
    LayerKind, LayerPlan,
};
use prunr_app::drag_export_state::DragExportState;
use prunr_app::item::{BatchItem, ImageSource};
use prunr_app::item_settings::ItemSettings;
use prunr_app::pipeline::{BgEffect, FillStyle, LineMode};
use std::sync::Arc;

#[test]
fn make_filename_uses_source_stem_with_mode_suffix() {
    assert_eq!(make_filename("sunset.jpg", true, LineMode::Off), "sunset-nobg.png");
    assert_eq!(make_filename("sunset.jpg", true, LineMode::EdgesOnly), "sunset-lines.png");
    assert_eq!(
        make_filename("sunset.jpg", true, LineMode::SubjectOutline),
        "sunset-nobg-lines.png"
    );
}

#[test]
fn make_filename_unprocessed_preserves_original() {
    assert_eq!(make_filename("photo.webp", false, LineMode::Off), "photo.webp");
}

#[test]
fn make_filename_handles_weird_names() {
    assert_eq!(make_filename("no-extension", true, LineMode::Off), "no-extension-nobg.png");
    assert_eq!(make_filename("", true, LineMode::Off), "image-nobg.png");
}

#[test]
fn layer_filename_uses_kind_suffix() {
    assert_eq!(make_layer_filename("sunset.jpg", LayerKind::Subject), "sunset-subject.png");
    assert_eq!(make_layer_filename("sunset.jpg", LayerKind::Lines), "sunset-lines.png");
    assert_eq!(make_layer_filename("sunset.jpg", LayerKind::Mask), "sunset-mask.png");
}

#[test]
fn layer_filename_falls_back_on_empty_source() {
    assert_eq!(make_layer_filename("", LayerKind::Subject), "image-subject.png");
}

#[test]
fn render_layer_returns_none_when_tensors_missing() {
    let item = BatchItem::new(
        1,
        "x.png".to_string(),
        ImageSource::Bytes(Arc::new(Vec::new())),
        (10, 10),
        ItemSettings::default(),
        String::new(),
    );
    for kind in LayerKind::ALL {
        let plan = layer_plan(
            kind,
            &item.settings,
            item.caches.tensor.is_some(),
            item.caches.edge_tensors.is_some(),
        );
        assert!(plan.is_none());
    }
}

#[test]
fn a_subject_layer_is_clean() {
    let settings = ItemSettings {
        fill_style: FillStyle::Invert,
        bg_effect: BgEffect::InvertedSource,
        edge_thickness: 3,
        ..Default::default()
    };
    match layer_plan(LayerKind::Subject, &settings, true, false) {
        Some(LayerPlan::CutOut { mask }) => {
            assert_eq!(mask.fill_style, FillStyle::Plain);
            assert_eq!(mask.bg_effect, BgEffect::Plain);
        }
        other => panic!("{other:?}"),
    }
    match layer_plan(LayerKind::Mask, &settings, true, false) {
        Some(LayerPlan::ShowMask { mask }) => assert_eq!(mask.fill_style, FillStyle::Invert),
        other => panic!("{other:?}"),
    }
    assert_eq!(layer_plan(LayerKind::Lines, &settings, false, true), Some(LayerPlan::DrawLines { edge: settings.edge_settings() }));
}

#[test]
fn layers_fall_back_to_the_whole_picture() {
    assert_eq!(prepare_for_drag(false, true, &vec![true, true, true]), None);
    assert_eq!(prepare_for_drag(true, false, &vec![true, true, true]), None);
    assert_eq!(prepare_for_drag(true, true, &vec![false, false, false]), None);
    assert_eq!(
        prepare_for_drag(true, true, &vec![true, false, true]),
        Some(vec![LayerKind::Subject, LayerKind::Mask])
    );
}

#[test]
fn dragged_files_are_known_by_their_folder() {
    assert!(is_self_drop("/tmp/prunr-drag/a.png"));
    assert!(!is_self_drop("/tmp/my-prunr-drag/a.png"));
    assert!(!is_self_drop("/tmp/prunr-drag.png"));
}

#[test]
fn old_drag_files_are_stale() {
    assert!(!is_stale(0));
    assert!(is_stale(u64::MAX as u128));
}

#[test]
fn a_drag_begins_and_ends() {
    let mut s = DragExportState::new();
    assert!(!s.active);
    s.begin(&vec![3, 5]);
    assert!(s.active && s.items.contains(&3) && s.items.contains(&5));
    s.reset();
    assert!(!s.active && s.items.is_empty());
}
