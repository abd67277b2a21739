//! Settings of one picture. Every picture of a batch owns its own; the toolbar
//! edits those of the selected one.
use vstd::prelude::*;
use crate::pipeline::{
    default_mask_settings, BgEffect, BgImageFit, ComposeMode, CompositeRecipe, EdgeRecipe,
    EdgeScale, EdgeSettings, FillStyle, InferenceRecipe, InputTransform, LineMode, LineStyle,
    MaskRecipe, MaskSettings, ModelKind, ProcessingRecipe, Rgb, Rgba, Scalar, GUIDED_EPSILON_BITS, HALF_BITS,
    ONE_BITS, ZERO_BITS,
};

verus! {

/// Settings of one picture.
#[derive(Clone, Copy, Debug, PartialEq, Eq, Structural)]
pub struct ItemSettings {
    /// Gamma curve of the mask: above one removes more, below one less.
    pub gamma: Scalar,
    /// Binary threshold between zero and one; `None` keeps the soft mask.
    pub threshold: Option<Scalar>,
    /// Edge shift in pixels: positive erodes, negative dilates.
    pub edge_shift: Scalar,
    /// Whether the guided filter refines the mask edges.
    pub refine_edges: bool,
    /// Window radius of the guided filter, in pixels.
    pub guided_radius: u32,
    /// Regularisation of the guided filter.
    pub guided_epsilon: Scalar,
    /// Sigma of the blur that softens the mask.
    pub feather: Scalar,
    /// How the subject is recoloured.
    pub fill_style: FillStyle,
    /// What stands behind the subject.
    pub bg_effect: BgEffect,
    /// Fingerprint of the brush correction, where there is one.
    pub correction_hash: Option<u64>,
    /// Line extraction mode.
    pub line_mode: LineMode,
    /// Edge sensitivity between zero and one.
    pub line_strength: Scalar,
    /// One colour for all lines; `None` keeps the colours of the picture.
    pub solid_line_color: Option<Rgb>,
    /// Pixels by which lines are thickened.
    pub edge_thickness: u32,
    /// Which output of the edge detector is read.
    pub edge_scale: EdgeScale,
    /// How lines are coloured.
    pub line_style: LineStyle,
    /// What is done to the picture before edge detection.
    pub input_transform: InputTransform,
    /// Background colour with alpha; `None` keeps the background transparent.
    pub bg: Option<Rgba>,
    /// Fingerprint of the background picture, where there is one.
    pub bg_image_hash: Option<u64>,
    /// How the background picture is placed.
    pub bg_image_fit: BgImageFit,
    /// How the subject and its lines combine.
    pub compose_mode: ComposeMode,
}

/// The settings a new picture starts with.
pub open spec fn default_item_settings() -> ItemSettings {
    ItemSettings {
        gamma: Scalar { bits: ONE_BITS },
        threshold: None,
        edge_shift: Scalar { bits: ZERO_BITS },
        refine_edges: false,
        guided_radius: 8,
        guided_epsilon: Scalar { bits: GUIDED_EPSILON_BITS },
        feather: Scalar { bits: ZERO_BITS },
        fill_style: FillStyle::Plain,
        bg_effect: BgEffect::Plain,
        correction_hash: None,
        line_mode: LineMode::Off,
        line_strength: Scalar { bits: HALF_BITS },
        solid_line_color: None,
        edge_thickness: 0,
        edge_scale: EdgeScale::Fused,
        line_style: LineStyle::Solid,
        input_transform: InputTransform::Plain,
        bg: None,
        bg_image_hash: None,
        bg_image_fit: BgImageFit::Cover,
        compose_mode: ComposeMode::LinesOnly,
    }
}

impl Default for ItemSettings {
    fn default() -> (r: ItemSettings)
        ensures
            r == default_item_settings(),
    {
        ItemSettings {
            gamma: Scalar { bits: ONE_BITS },
            threshold: None,
            edge_shift: Scalar { bits: ZERO_BITS },
            refine_edges: false,
            guided_radius: 8,
            guided_epsilon: Scalar { bits: GUIDED_EPSILON_BITS },
            feather: Scalar { bits: ZERO_BITS },
            fill_style: FillStyle::Plain,
            bg_effect: BgEffect::Plain,
            correction_hash: None,
            line_mode: LineMode::Off,
            line_strength: Scalar { bits: HALF_BITS },
            solid_line_color: None,
            edge_thickness: 0,
            edge_scale: EdgeScale::Fused,
            line_style: LineStyle::Solid,
            input_transform: InputTransform::Plain,
            bg: None,
            bg_image_hash: None,
            bg_image_fit: BgImageFit::Cover,
            compose_mode: ComposeMode::LinesOnly,
        }
    }
}

/// A colour without its alpha.
pub open spec fn strip_alpha(c: Option<Rgba>) -> Option<Rgb> {
    match c {
        Some(p) => Some(Rgb { r: p.r, g: p.g, b: p.b }),
        None => None,
    }
}

impl ItemSettings {
    /// The mask fields as the mask stage takes them.
    pub open spec fn mask_part(self) -> MaskSettings {
        MaskSettings {
            gamma: self.gamma,
            threshold: self.threshold,
            edge_shift: self.edge_shift,
            refine_edges: self.refine_edges,
            guided_radius: self.guided_radius,
            guided_epsilon: self.guided_epsilon,
            feather: self.feather,
            fill_style: self.fill_style,
            bg_effect: self.bg_effect,
            correction_hash: self.correction_hash,
        }
    }

    /// The line fields as the line stage takes them.
    pub open spec fn edge_part(self) -> EdgeSettings {
        EdgeSettings {
            line_strength: self.line_strength,
            solid_line_color: self.solid_line_color,
            edge_thickness: self.edge_thickness,
            edge_scale: self.edge_scale,
            compose_mode: self.compose_mode,
            line_style: self.line_style,
            input_transform: self.input_transform,
        }
    }

    /// The recipe of these settings. A mode that skips segmentation records the
    /// default mask, so mask knobs do not count there.
    pub open spec fn recipe(self, model: ModelKind, chain_mode: bool) -> ProcessingRecipe {
        ProcessingRecipe {
            inference: InferenceRecipe {
                model,
                uses_segmentation: self.line_mode != LineMode::EdgesOnly,
                uses_edge_detection: self.line_mode != LineMode::Off,
                input_transform: self.input_transform,
            },
            edge: EdgeRecipe::of(self.edge_part()),
            mask: MaskRecipe::of(
                if self.line_mode != LineMode::EdgesOnly {
                    self.mask_part()
                } else {
                    default_mask_settings()
                },
            ),
            composite: CompositeRecipe {
                bg_color: strip_alpha(self.bg),
                solid_line_color: self.solid_line_color,
            },
            was_chain: chain_mode,
        }
    }

    /// Background colour without alpha, as compositing takes it.
    pub fn bg_rgb(&self) -> (r: Option<Rgb>)
        ensures
            r == strip_alpha(self.bg),
            r is Some <==> self.bg is Some,
            self.bg matches Some(c) ==> r == Some(Rgb { r: c.r, g: c.g, b: c.b }),
    {
        match self.bg {
            Some(p) => Some(Rgb { r: p.r, g: p.g, b: p.b }),
            None => None,
        }
    }

    /// The mask fields as the mask stage takes them.
    pub fn mask_settings(&self) -> (r: MaskSettings)
        ensures
            r == self.mask_part(),
            r.gamma == self.gamma,
            r.threshold == self.threshold,
            r.edge_shift == self.edge_shift,
            r.refine_edges == self.refine_edges,
            r.guided_radius == self.guided_radius,
            r.guided_epsilon == self.guided_epsilon,
            r.feather == self.feather,
            r.fill_style == self.fill_style,
            r.bg_effect == self.bg_effect,
            r.correction_hash == self.correction_hash,
    {
        MaskSettings {
            gamma: self.gamma,
            threshold: self.threshold,
            edge_shift: self.edge_shift,
            refine_edges: self.refine_edges,
            guided_radius: self.guided_radius,
            guided_epsilon: self.guided_epsilon,
            feather: self.feather,
            fill_style: self.fill_style,
            bg_effect: self.bg_effect,
            correction_hash: self.correction_hash,
        }
    }

    /// The line fields as the line stage takes them.
    pub fn edge_settings(&self) -> (r: EdgeSettings)
        ensures
            r == self.edge_part(),
            r.line_strength == self.line_strength,
            r.solid_line_color == self.solid_line_color,
            r.edge_thickness == self.edge_thickness,
            r.edge_scale == self.edge_scale,
            r.compose_mode == self.compose_mode,
            r.line_style == self.line_style,
            r.input_transform == self.input_transform,
    {
        EdgeSettings {
            line_strength: self.line_strength,
            solid_line_color: self.solid_line_color,
            edge_thickness: self.edge_thickness,
            edge_scale: self.edge_scale,
            compose_mode: self.compose_mode,
            line_style: self.line_style,
            input_transform: self.input_transform,
        }
    }

    /// Snapshot of the settings for deciding what has to be rerun.
    pub fn current_recipe(&self, model: ModelKind, chain_mode: bool) -> (r: ProcessingRecipe)
        ensures
            r == self.recipe(model, chain_mode),
            r.inference.model == model,
            r.inference.input_transform == self.input_transform,
            r.inference.uses_segmentation <==> self.line_mode != LineMode::EdgesOnly,
            r.inference.uses_edge_detection <==> self.line_mode != LineMode::Off,
            r.was_chain == chain_mode,
    {
        let uses_segmentation = self.line_mode != LineMode::EdgesOnly;
        let uses_edge_detection = self.line_mode != LineMode::Off;
        let mask = if uses_segmentation {
            MaskRecipe::from_settings(&self.mask_settings())
        } else {
            MaskRecipe::from_settings(&MaskSettings::default())
        };
        ProcessingRecipe {
            inference: InferenceRecipe {
                model,
                uses_segmentation,
                uses_edge_detection,
                input_transform: self.input_transform,
            },
            edge: EdgeRecipe::from_settings(&self.edge_settings()),
            mask,
            composite: CompositeRecipe {
                bg_color: self.bg_rgb(),
                solid_line_color: self.solid_line_color,
            },
            was_chain: chain_mode,
        }
    }
}

/// While only lines are drawn, no mask knob changes the recipe.
pub proof fn edges_only_ignores_mask_knobs(
    a: ItemSettings,
    b: ItemSettings,
    model: ModelKind,
    chain_mode: bool,
)
    requires
        a.line_mode == LineMode::EdgesOnly,
        b.line_mode == LineMode::EdgesOnly,
        a.edge_part() == b.edge_part(),
        a.bg == b.bg,
    ensures
        a.recipe(model, chain_mode) == b.recipe(model, chain_mode),
{
}

/// Turning one mask knob moves that knob of the mask stage and no other; knobs of other
/// stages leave the mask stage alone.
pub proof fn mask_knobs_move_alone(a: ItemSettings, b: ItemSettings)
    ensures
        (ItemSettings { gamma: b.gamma, ..a }).mask_part() == (MaskSettings { gamma: b.gamma, ..a.mask_part() }),
        (ItemSettings { threshold: b.threshold, ..a }).mask_part() == (MaskSettings { threshold: b.threshold, ..a.mask_part() }),
        (ItemSettings { edge_shift: b.edge_shift, ..a }).mask_part() == (MaskSettings { edge_shift: b.edge_shift, ..a.mask_part() }),
        (ItemSettings { refine_edges: b.refine_edges, ..a }).mask_part() == (MaskSettings { refine_edges: b.refine_edges, ..a.mask_part() }),
        (ItemSettings { guided_radius: b.guided_radius, ..a }).mask_part() == (MaskSettings { guided_radius: b.guided_radius, ..a.mask_part() }),
        (ItemSettings { guided_epsilon: b.guided_epsilon, ..a }).mask_part() == (MaskSettings { guided_epsilon: b.guided_epsilon, ..a.mask_part() }),
        (ItemSettings { feather: b.feather, ..a }).mask_part() == (MaskSettings { feather: b.feather, ..a.mask_part() }),
        (ItemSettings { fill_style: b.fill_style, ..a }).mask_part() == (MaskSettings { fill_style: b.fill_style, ..a.mask_part() }),
        (ItemSettings { bg_effect: b.bg_effect, ..a }).mask_part() == (MaskSettings { bg_effect: b.bg_effect, ..a.mask_part() }),
        (ItemSettings { correction_hash: b.correction_hash, ..a }).mask_part() == (MaskSettings { correction_hash: b.correction_hash, ..a.mask_part() }),
        (ItemSettings { line_mode: b.line_mode, ..a }).mask_part() == a.mask_part(),
        (ItemSettings { bg: b.bg, ..a }).mask_part() == a.mask_part(),
        (ItemSettings { bg_image_hash: b.bg_image_hash, ..a }).mask_part() == a.mask_part(),
        (ItemSettings { bg_image_fit: b.bg_image_fit, ..a }).mask_part() == a.mask_part(),
        (ItemSettings { line_strength: b.line_strength, ..a }).mask_part() == a.mask_part(),
        (ItemSettings { solid_line_color: b.solid_line_color, ..a }).mask_part() == a.mask_part(),
        (ItemSettings { edge_thickness: b.edge_thickness, ..a }).mask_part() == a.mask_part(),
        (ItemSettings { edge_scale: b.edge_scale, ..a }).mask_part() == a.mask_part(),
        (ItemSettings { compose_mode: b.compose_mode, ..a }).mask_part() == a.mask_part(),
        (ItemSettings { line_style: b.line_style, ..a }).mask_part() == a.mask_part(),
        (ItemSettings { input_transform: b.input_transform, ..a }).mask_part() == a.mask_part(),
{
}

/// Turning one line knob moves that knob of the line stage and no other; knobs of other
/// stages leave the line stage alone.
pub proof fn line_knobs_move_alone(a: ItemSettings, b: ItemSettings)
    ensures
        (ItemSettings { line_strength: b.line_strength, ..a }).edge_part() == (EdgeSettings { line_strength: b.line_strength, ..a.edge_part() }),
        (ItemSettings { solid_line_color: b.solid_line_color, ..a }).edge_part() == (EdgeSettings { solid_line_color: b.solid_line_color, ..a.edge_part() }),
        (ItemSettings { edge_thickness: b.edge_thickness, ..a }).edge_part() == (EdgeSettings { edge_thickness: b.edge_thickness, ..a.edge_part() }),
        (ItemSettings { edge_scale: b.edge_scale, ..a }).edge_part() == (EdgeSettings { edge_scale: b.edge_scale, ..a.edge_part() }),
        (ItemSettings { compose_mode: b.compose_mode, ..a }).edge_part() == (EdgeSettings { compose_mode: b.compose_mode, ..a.edge_part() }),
        (ItemSettings { line_style: b.line_style, ..a }).edge_part() == (EdgeSettings { line_style: b.line_style, ..a.edge_part() }),
        (ItemSettings { input_transform: b.input_transform, ..a }).edge_part() == (EdgeSettings { input_transform: b.input_transform, ..a.edge_part() }),
        (ItemSettings { line_mode: b.line_mode, ..a }).edge_part() == a.edge_part(),
        (ItemSettings { bg: b.bg, ..a }).edge_part() == a.edge_part(),
        (ItemSettings { bg_image_hash: b.bg_image_hash, ..a }).edge_part() == a.edge_part(),
        (ItemSettings { bg_image_fit: b.bg_image_fit, ..a }).edge_part() == a.edge_part(),
        (ItemSettings { gamma: b.gamma, ..a }).edge_part() == a.edge_part(),
        (ItemSettings { threshold: b.threshold, ..a }).edge_part() == a.edge_part(),
        (ItemSettings { edge_shift: b.edge_shift, ..a }).edge_part() == a.edge_part(),
        (ItemSettings { refine_edges: b.refine_edges, ..a }).edge_part() == a.edge_part(),
        (ItemSettings { guided_radius: b.guided_radius, ..a }).edge_part() == a.edge_part(),
        (ItemSettings { guided_epsilon: b.guided_epsilon, ..a }).edge_part() == a.edge_part(),
        (ItemSettings { feather: b.feather, ..a }).edge_part() == a.edge_part(),
        (ItemSettings { fill_style: b.fill_style, ..a }).edge_part() == a.edge_part(),
        (ItemSettings { bg_effect: b.bg_effect, ..a }).edge_part() == a.edge_part(),
        (ItemSettings { correction_hash: b.correction_hash, ..a }).edge_part() == a.edge_part(),
{
}

/// What the mask stage gets says what the knobs stand at: settings whose mask stages
/// agree have every mask knob at the same place.
pub proof fn mask_stage_tells_the_knobs(a: ItemSettings, b: ItemSettings)
    requires
        a.mask_part() == b.mask_part(),
    ensures
        a.gamma == b.gamma,
        a.threshold == b.threshold,
        a.edge_shift == b.edge_shift,
        a.refine_edges == b.refine_edges,
        a.guided_radius == b.guided_radius,
        a.guided_epsilon == b.guided_epsilon,
        a.feather == b.feather,
        a.fill_style == b.fill_style,
        a.bg_effect == b.bg_effect,
        a.correction_hash == b.correction_hash,
{
}

/// What the line stage gets says what the knobs stand at.
pub proof fn line_stage_tells_the_knobs(a: ItemSettings, b: ItemSettings)
    requires
        a.edge_part() == b.edge_part(),
    ensures
        a.line_strength == b.line_strength,
        a.solid_line_color == b.solid_line_color,
        a.edge_thickness == b.edge_thickness,
        a.edge_scale == b.edge_scale,
        a.compose_mode == b.compose_mode,
        a.line_style == b.line_style,
        a.input_transform == b.input_transform,
{
}

/// A new picture is masked as the model leaves it: the settings it starts with ask the
/// mask stage for its defaults, for no lines and for no background.
pub proof fn new_pictures_are_plain(model: ModelKind)
    ensures
        default_item_settings().mask_part() == default_mask_settings(),
        ({
            let r = default_item_settings().recipe(model, false);
            &&& r.inference.uses_segmentation && !r.inference.uses_edge_detection
            &&& r.composite.bg_color is None
            &&& r.mask == MaskRecipe::of(default_mask_settings())
        }),
        default_item_settings().correction_hash is None,
        default_item_settings().bg_image_hash is None,
{
}

/// Whether two settings agree in every mask knob.
pub open spec fn same_mask_knobs(a: ItemSettings, b: ItemSettings) -> bool {
    &&& a.gamma == b.gamma
    &&& a.threshold == b.threshold
    &&& a.edge_shift == b.edge_shift
    &&& a.refine_edges == b.refine_edges
    &&& a.guided_radius == b.guided_radius
    &&& a.guided_epsilon == b.guided_epsilon
    &&& a.feather == b.feather
    &&& a.fill_style == b.fill_style
    &&& a.bg_effect == b.bg_effect
    &&& a.correction_hash == b.correction_hash
}

/// A recipe records what the result depends on and nothing else: two settings give the
/// same recipe exactly where the model, the modes and every knob that counts are the
/// same. Mask knobs count unless only lines are drawn; of the background only its
/// colour counts.
pub proof fn recipes_record_what_counts(
    a: ItemSettings,
    b: ItemSettings,
    m: ModelKind,
    n: ModelKind,
    c: bool,
    d: bool,
)
    ensures
        a.recipe(m, c) == b.recipe(n, d) <==> {
            &&& m == n
            &&& c == d
            &&& a.line_mode == b.line_mode
            &&& a.line_strength == b.line_strength
            &&& a.solid_line_color == b.solid_line_color
            &&& a.edge_thickness == b.edge_thickness
            &&& a.edge_scale == b.edge_scale
            &&& a.compose_mode == b.compose_mode
            &&& a.line_style == b.line_style
            &&& a.input_transform == b.input_transform
            &&& a.line_mode != LineMode::EdgesOnly ==> same_mask_knobs(a, b)
            &&& match (a.bg, b.bg) {
                (Some(x), Some(y)) => x.r == y.r && x.g == y.g && x.b == y.b,
                (None, None) => true,
                _ => false,
            }
        },
{
    let p = a.recipe(m, c);
    let q = b.recipe(n, d);
    if p == q {
        assert(p.inference == q.inference);
        assert(p.edge.line_strength_bits == q.edge.line_strength_bits);
        if a.line_mode != LineMode::EdgesOnly {
            assert(p.mask == MaskRecipe::of(a.mask_part()));
            assert(q.mask == MaskRecipe::of(b.mask_part()));
            recorded_masks_agree(a.mask_part(), b.mask_part());
            mask_stage_tells_the_knobs(a, b);
        }
        assert(p.composite.bg_color == q.composite.bg_color);
    }
}

/// Mask settings with the same record are the same.
pub proof fn recorded_masks_agree(a: MaskSettings, b: MaskSettings)
    ensures
        MaskRecipe::of(a) == MaskRecipe::of(b) <==> a == b,
{
    let p = MaskRecipe::of(a);
    let q = MaskRecipe::of(b);
    if p == q {
        assert(p.threshold_bits == q.threshold_bits);
        assert(a.gamma == b.gamma && a.edge_shift == b.edge_shift);
        assert(a.guided_epsilon == b.guided_epsilon && a.feather == b.feather);
        match (a.threshold, b.threshold) {
            (Some(x), Some(y)) => {
                assert(p.threshold_bits == Some(x.bits) && q.threshold_bits == Some(y.bits));
                assert(x == y);
            },
            (None, None) => {},
            (Some(x), None) => {
                assert(p.threshold_bits == Some(x.bits));
            },
            (None, Some(y)) => {
                assert(q.threshold_bits == Some(y.bits));
            },
        }
    }
}

/// A recipe keeps each knob under its own name: the numbers as their bit patterns, the
/// rest as it is.
pub proof fn recipes_keep_each_knob(s: ItemSettings, model: ModelKind, chain_mode: bool)
    ensures
        ({
            let r = s.recipe(model, chain_mode);
            &&& r.edge.line_strength_bits == s.line_strength.bits
            &&& r.edge.solid_line_color == s.solid_line_color
            &&& r.edge.edge_thickness == s.edge_thickness
            &&& r.edge.edge_scale == s.edge_scale
            &&& r.edge.compose_mode == s.compose_mode
            &&& r.edge.line_style == s.line_style
            &&& r.composite.solid_line_color == s.solid_line_color
            &&& s.line_mode != LineMode::EdgesOnly ==> {
                &&& r.mask.gamma_bits == s.gamma.bits
                &&& r.mask.threshold_bits is Some <==> s.threshold is Some
                &&& s.threshold matches Some(t) ==> r.mask.threshold_bits == Some(t.bits)
                &&& r.mask.edge_shift_bits == s.edge_shift.bits
                &&& r.mask.refine_edges == s.refine_edges
                &&& r.mask.guided_radius == s.guided_radius
                &&& r.mask.guided_epsilon_bits == s.guided_epsilon.bits
                &&& r.mask.feather_bits == s.feather.bits
                &&& r.mask.fill_style == s.fill_style
                &&& r.mask.bg_effect == s.bg_effect
                &&& r.mask.correction_hash == s.correction_hash
            }
        }),
{
}

} // verus!
