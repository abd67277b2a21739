//! Dragging pictures out of the window: names of the files that are handed over,
//! which layers they hold, and which dropped files are the window's own.
use vstd::prelude::*;
use crate::item_settings::ItemSettings;
use crate::paths::{any_component_is, file_name, file_stem, has_component, stem_of};
use crate::pipeline::{BgEffect, EdgeSettings, FillStyle, LineMode, MaskSettings};
use crate::text::join3;

verus! {

/// Directory of the files that are dragged out.
pub const DRAG_SUBDIR: &'static str = "prunr-drag";

/// Age in nanoseconds above which a file left behind is removed: ten minutes.
pub const STALE_AGE_NANOS: u128 = 600_000_000_000;

/// Whether a file left behind is removed at start.
pub fn is_stale(age_nanos: u128) -> (r: bool)
    ensures
        r == (age_nanos > STALE_AGE_NANOS),
{
    age_nanos > STALE_AGE_NANOS
}

/// Whether a dropped file is one that was dragged out before.
pub fn is_self_drop(path: &str) -> (r: bool)
    ensures
        r == has_component(path@, DRAG_SUBDIR@),
{
    any_component_is(path, DRAG_SUBDIR)
}

/// Stem of a file name; `image` where there is none.
pub open spec fn stem_or_image(source: Seq<char>) -> Seq<char> {
    match file_name(source) {
        Some(name) => stem_of(name),
        None => "image"@,
    }
}

/// Stem of a file name; `image` where there is none.
pub fn source_stem(source_filename: &str) -> (r: String)
    ensures
        r@ == stem_or_image(source_filename@),
{
    match file_stem(source_filename) {
        Some(s) => s,
        None => "image".to_owned(),
    }
}

/// Name of the file that a picture is dragged out as: the source itself as long
/// as there is no result, else the stem with the kind of result.
pub fn make_filename(source_filename: &str, has_result: bool, line_mode: LineMode) -> (r: String)
    ensures
        r@ == if !has_result {
            source_filename@
        } else {
            stem_or_image(source_filename@) + "-"@ + (match line_mode {
                LineMode::Off => "nobg"@,
                LineMode::EdgesOnly => "lines"@,
                LineMode::SubjectOutline => "nobg-lines"@,
            }) + ".png"@
        },
{
    if !has_result {
        return source_filename.to_owned();
    }
    let suffix = match line_mode {
        LineMode::Off => "nobg",
        LineMode::EdgesOnly => "lines",
        LineMode::SubjectOutline => "nobg-lines",
    };
    let stem = source_stem(source_filename);
    join3(stem.as_str(), "-", suffix).concat(".png")
}

/// Layer of a result.
#[derive(Clone, Copy, Debug, PartialEq, Eq, Structural)]
pub enum LayerKind {
    Subject,
    Lines,
    Mask,
}

impl LayerKind {
    /// All layers, in the order in which they are handed over.
    pub const ALL: [LayerKind; 3] = [LayerKind::Subject, LayerKind::Lines, LayerKind::Mask];

    /// Ending of the layer's file.
    pub open spec fn ending(self) -> Seq<char> {
        match self {
            LayerKind::Subject => "subject"@,
            LayerKind::Lines => "lines"@,
            LayerKind::Mask => "mask"@,
        }
    }

    /// Ending of the layer's file.
    pub fn suffix(self) -> (r: &'static str)
        ensures
            r@ == self.ending(),
    {
        match self {
            LayerKind::Subject => "subject",
            LayerKind::Lines => "lines",
            LayerKind::Mask => "mask",
        }
    }
}

/// Name of the file of a layer.
pub fn make_layer_filename(source_filename: &str, kind: LayerKind) -> (r: String)
    ensures
        r@ == stem_or_image(source_filename@) + "-"@ + kind.ending() + ".png"@,
{
    let stem = source_stem(source_filename);
    join3(stem.as_str(), "-", kind.suffix()).concat(".png")
}

/// What a layer is rendered from.
#[derive(Clone, Copy, Debug, PartialEq, Eq, Structural)]
pub enum LayerPlan {
    /// Cut out the subject with these mask settings.
    CutOut { mask: MaskSettings },
    /// Draw the lines with these settings.
    DrawLines { edge: EdgeSettings },
    /// Show the mask with these settings.
    ShowMask { mask: MaskSettings },
}

/// What a layer is rendered from; `None` where the tensor it needs is not at
/// hand. The subject is cut out clean, without recolouring and backdrop, but with
/// every other mask setting.
pub fn layer_plan(
    kind: LayerKind,
    settings: &ItemSettings,
    has_seg: bool,
    has_edges: bool,
) -> (r: Option<LayerPlan>)
    ensures
        r == match kind {
            LayerKind::Subject => if has_seg {
                Some(
                    LayerPlan::CutOut {
                        mask: MaskSettings {
                            fill_style: FillStyle::Plain,
                            bg_effect: BgEffect::Plain,
                            ..settings.mask_part()
                        },
                    },
                )
            } else {
                None
            },
            LayerKind::Lines => if has_edges {
                Some(LayerPlan::DrawLines { edge: settings.edge_part() })
            } else {
                None
            },
            LayerKind::Mask => if has_seg {
                Some(LayerPlan::ShowMask { mask: settings.mask_part() })
            } else {
                None
            },
        },
{
    match kind {
        LayerKind::Subject => {
            if has_seg {
                let mut mask = settings.mask_settings();
                mask.fill_style = FillStyle::Plain;
                mask.bg_effect = BgEffect::Plain;
                Some(LayerPlan::CutOut { mask })
            } else {
                None
            }
        },
        LayerKind::Lines => {
            if has_edges {
                Some(LayerPlan::DrawLines { edge: settings.edge_settings() })
            } else {
                None
            }
        },
        LayerKind::Mask => {
            if has_seg {
                Some(LayerPlan::ShowMask { mask: settings.mask_settings() })
            } else {
                None
            }
        },
    }
}

/// The layers that were rendered, in order.
pub open spec fn rendered_layers(rendered: Seq<bool>) -> Seq<LayerKind> {
    let a = if rendered[0] {
        seq![LayerKind::Subject]
    } else {
        Seq::empty()
    };
    let b = if rendered[1] {
        a.push(LayerKind::Lines)
    } else {
        a
    };
    if rendered[2] {
        b.push(LayerKind::Mask)
    } else {
        b
    }
}

/// What is handed over: the layers that could be rendered, or the picture as a
/// whole (`None`) where it is not split, its source cannot be decoded, or no
/// layer could be rendered. So something is always handed over.
pub fn prepare_for_drag(split: bool, source_decoded: bool, rendered: &Vec<bool>) -> (r: Option<
    Vec<LayerKind>,
>)
    requires
        rendered@.len() == 3,
    ensures
        match r {
            Some(layers) => split && source_decoded && layers@.len() > 0 && layers@
                == rendered_layers(rendered@),
            None => !split || !source_decoded || rendered_layers(rendered@).len() == 0,
        },
{
    if !split || !source_decoded {
        return None;
    }
    let mut layers: Vec<LayerKind> = Vec::new();
    if rendered[0] {
        layers.push(LayerKind::Subject);
        assert(layers@ =~= seq![LayerKind::Subject]);
    }
    if rendered[1] {
        layers.push(LayerKind::Lines);
    }
    if rendered[2] {
        layers.push(LayerKind::Mask);
    }
    if layers.len() == 0 {
        None
    } else {
        Some(layers)
    }
}

/// Layers are told apart by the names of their files.
pub proof fn layers_have_names_of_their_own(a: LayerKind, b: LayerKind)
    ensures
        a.ending() == b.ending() <==> a == b,
{
    reveal_strlit("subject");
    reveal_strlit("lines");
    reveal_strlit("mask");
    assert("subject"@.len() == 7 && "lines"@.len() == 5 && "mask"@.len() == 4);
}

/// What is handed over are the layers that could be rendered, and no others.
pub proof fn rendered_layers_are_handed_over(rendered: Seq<bool>)
    requires
        rendered.len() == 3,
    ensures
        rendered_layers(rendered).contains(LayerKind::Subject) <==> rendered[0],
        rendered_layers(rendered).contains(LayerKind::Lines) <==> rendered[1],
        rendered_layers(rendered).contains(LayerKind::Mask) <==> rendered[2],
        rendered_layers(rendered).len() == (if rendered[0] { 1int } else { 0 }) + (if rendered[1] {
            1int
        } else {
            0
        }) + (if rendered[2] { 1int } else { 0 }),
{
    let r = rendered_layers(rendered);
    if rendered[0] {
        assert(r[0] == LayerKind::Subject);
    }
    if rendered[1] {
        assert(r[if rendered[0] { 1int } else { 0 }] == LayerKind::Lines);
    }
    if rendered[2] {
        assert(r[r.len() - 1] == LayerKind::Mask);
    }
}

} // verus!
