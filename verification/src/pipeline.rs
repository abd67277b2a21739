//! Plain-value model of the processing pipeline: models, modes, styles and the
//! recipes that say how a result was made.
//!
//! Real-valued settings are carried by their IEEE-754 bit pattern. The library
//! only ever copies such a value, compares it for identity or orders it, so the
//! pattern is all it needs.
use vstd::prelude::*;

verus! {

/// A 32-bit real number, held as its IEEE-754 bit pattern.
#[derive(Clone, Copy, Debug, PartialEq, Eq, Hash, Structural)]
pub struct Scalar {
    pub bits: u32,
}

/// Bit pattern of 0.0.
pub const ZERO_BITS: u32 = 0;

/// Bit pattern of 0.5.
pub const HALF_BITS: u32 = 0x3F00_0000;

/// Bit pattern of 1.0.
pub const ONE_BITS: u32 = 0x3F80_0000;

/// Bit pattern of 2.0.
pub const TWO_BITS: u32 = 0x4000_0000;

/// Bit pattern of 1e-4.
pub const GUIDED_EPSILON_BITS: u32 = 0x38D1_B717;

/// Bit pattern of positive infinity; magnitudes above it are not numbers.
pub const INFINITY_BITS: u32 = 0x7F80_0000;

impl Scalar {
    /// Position of a number in the order of the reals: monotone, and equal for
    /// the two zeros.
    pub open spec fn rank(self) -> int {
        if self.bits < 0x8000_0000 {
            self.bits as int
        } else {
            -(self.bits - 0x8000_0000)
        }
    }

    /// Whether the pattern stands for "not a number".
    pub open spec fn is_nan(self) -> bool {
        self.rank() > INFINITY_BITS || -self.rank() > INFINITY_BITS
    }

    /// Wraps a bit pattern.
    pub fn from_bits(bits: u32) -> (s: Scalar)
        ensures
            s.bits == bits,
    {
        Scalar { bits }
    }

    /// `self` moved into the closed range from `lo` to `hi`. A value that is not
    /// a number stays as it is.
    pub fn clamp_to(self, lo: Scalar, hi: Scalar) -> (r: Scalar)
        ensures
            r == if self.is_nan() {
                self
            } else if self.rank() < lo.rank() {
                lo
            } else if self.rank() > hi.rank() {
                hi
            } else {
                self
            },
            !self.is_nan() && lo.rank() <= hi.rank() ==> lo.rank() <= r.rank() <= hi.rank(),
            lo.rank() <= self.rank() <= hi.rank() ==> r == self,
    {
        let s: i64 = self.order();
        if s > 0x7F80_0000 || s < -0x7F80_0000 {
            self
        } else if s < lo.order() {
            lo
        } else if s > hi.order() {
            hi
        } else {
            self
        }
    }

    /// The order position as a machine integer.
    pub fn order(self) -> (r: i64)
        ensures
            r == self.rank(),
    {
        if self.bits < 0x8000_0000 {
            self.bits as i64
        } else {
            -((self.bits - 0x8000_0000) as i64)
        }
    }
}

/// Colour without alpha.
#[derive(Clone, Copy, Debug, PartialEq, Eq, Hash, Structural)]
pub struct Rgb {
    pub r: u8,
    pub g: u8,
    pub b: u8,
}

/// Colour with alpha.
#[derive(Clone, Copy, Debug, PartialEq, Eq, Hash, Structural)]
pub struct Rgba {
    pub r: u8,
    pub g: u8,
    pub b: u8,
    pub a: u8,
}

/// Whether and how lines are drawn.
#[derive(Clone, Copy, Debug, PartialEq, Eq, Hash, Structural)]
pub enum LineMode {
    /// Background removal only.
    Off,
    /// Lines of the whole scene, no segmentation.
    EdgesOnly,
    /// Lines of the cut-out subject.
    SubjectOutline,
}

/// How much of the pipeline a settings change needs rerun, weakest first.
#[derive(Clone, Copy, Debug, PartialEq, Eq, Hash, Structural)]
pub enum RequiredTier {
    Skip,
    CompositeOnly,
    EdgeRerun,
    MaskRerun,
    AddEdgeInference,
    FullPipeline,
}

/// Segmentation model of the removal pipeline.
#[derive(Clone, Copy, Debug, PartialEq, Eq, Hash, Structural)]
pub enum ModelKind {
    Silueta,
    U2net,
    BiRefNetLite,
}

/// Entry of the model registry.
#[derive(Clone, Copy, Debug, PartialEq, Eq, Hash, Structural)]
pub enum ModelId {
    Silueta,
    U2net,
    BiRefNetLite,
    LaMaFp32,
    BigLaMa,
    SdV15InpaintFp16,
    SdV15LcmInpaintFp16,
    TaesdFp16,
}

impl ModelId {
    /// Whether the model inpaints by Stable Diffusion.
    pub open spec fn sd_family(self) -> bool {
        self == ModelId::SdV15InpaintFp16 || self == ModelId::SdV15LcmInpaintFp16
    }

    /// Number that identifies the model in tables keyed by integer.
    pub open spec fn code(self) -> u64 {
        match self {
            ModelId::Silueta => 0,
            ModelId::U2net => 1,
            ModelId::BiRefNetLite => 2,
            ModelId::LaMaFp32 => 3,
            ModelId::BigLaMa => 4,
            ModelId::SdV15InpaintFp16 => 5,
            ModelId::SdV15LcmInpaintFp16 => 6,
            ModelId::TaesdFp16 => 7,
        }
    }

    /// Whether the model inpaints by Stable Diffusion.
    pub fn is_sd_family(self) -> (r: bool)
        ensures
            r == self.sd_family(),
    {
        match self {
            ModelId::SdV15InpaintFp16 => true,
            ModelId::SdV15LcmInpaintFp16 => true,
            _ => false,
        }
    }

    /// Executable form of the table key.
    pub fn to_code(self) -> (r: u64)
        ensures
            r == self.code(),
    {
        match self {
            ModelId::Silueta => 0,
            ModelId::U2net => 1,
            ModelId::BiRefNetLite => 2,
            ModelId::LaMaFp32 => 3,
            ModelId::BigLaMa => 4,
            ModelId::SdV15InpaintFp16 => 5,
            ModelId::SdV15LcmInpaintFp16 => 6,
            ModelId::TaesdFp16 => 7,
        }
    }

    /// Two models with the same table key are the same model.
    pub proof fn code_identifies(a: ModelId, b: ModelId)
        ensures
            a.code() == b.code() <==> a == b,
    {
    }
}

/// Which output of the edge detector is read.
#[derive(Clone, Copy, Debug, PartialEq, Eq, Hash, Structural)]
pub enum EdgeScale {
    Fine,
    Balanced,
    Bold,
    Fused,
}

/// How the subject and its lines combine.
#[derive(Clone, Copy, Debug, PartialEq, Eq, Hash, Structural)]
pub enum ComposeMode {
    LinesOnly,
    SubjectFilled,
    Ghosted,
}

/// How lines are coloured.
#[derive(Clone, Copy, Debug, PartialEq, Eq, Hash, Structural)]
pub enum LineStyle {
    Solid,
    GradientY { top: Rgb, bottom: Rgb },
    Rainbow { cycles: u32 },
    DualScale { fine: Rgb, bold: Rgb },
}

/// How the subject is recoloured.
#[derive(Clone, Copy, Debug, PartialEq, Eq, Hash, Structural)]
pub enum FillStyle {
    Plain,
    Desaturate,
    Invert,
    Sepia,
    Duotone { dark: Rgb, light: Rgb },
    Pixelate { block_size: u32 },
    Posterize { levels: u8 },
    Saturate { percent: u32 },
}

/// What stands behind the subject.
#[derive(Clone, Copy, Debug, PartialEq, Eq, Hash, Structural)]
pub enum BgEffect {
    Plain,
    BlurredSource { radius: u32 },
    InvertedSource,
    DesaturatedSource,
}

/// What is done to the picture before the edge detector sees it.
#[derive(Clone, Copy, Debug, PartialEq, Eq, Hash, Structural)]
pub enum InputTransform {
    Plain,
    Grayscale,
}

/// How a background picture is placed.
#[derive(Clone, Copy, Debug, PartialEq, Eq, Hash, Structural)]
pub enum BgImageFit {
    Cover,
    Contain,
    Stretch,
    Tile,
    Center,
}

/// Step of the pipeline that a running job reports.
#[derive(Clone, Copy, Debug, PartialEq, Eq, Hash, Structural)]
pub enum ProgressStage {
    LoadingModel,
    LoadingModelCpuFallback,
    Decode,
    Resize,
    Normalize,
    Infer,
    Postprocess,
    Alpha,
}

/// Settings of the mask stage.
#[derive(Clone, Copy, Debug, PartialEq, Eq, Structural)]
pub struct MaskSettings {
    pub gamma: Scalar,
    pub threshold: Option<Scalar>,
    pub edge_shift: Scalar,
    pub refine_edges: bool,
    pub guided_radius: u32,
    pub guided_epsilon: Scalar,
    pub feather: Scalar,
    pub fill_style: FillStyle,
    pub bg_effect: BgEffect,
    pub correction_hash: Option<u64>,
}

/// Mask settings that leave the model's mask as it came.
pub open spec fn default_mask_settings() -> MaskSettings {
    MaskSettings {
        gamma: Scalar { bits: ONE_BITS },
        threshold: None,
        edge_shift: Scalar { bits: ZERO_BITS },
        refine_edges: false,
        guided_radius: 8,
        guided_epsilon: Scalar { bits: GUIDED_EPSILON_BITS },
        feather: Scalar { bits: ZERO_BITS },
        fill_style: FillStyle::Plain,
        bg_effect: BgEffect::Plain,
        correction_hash: None,
    }
}

impl Default for MaskSettings {
    fn default() -> (r: MaskSettings)
        ensures
            r == default_mask_settings(),
    {
        MaskSettings {
            gamma: Scalar { bits: ONE_BITS },
            threshold: None,
            edge_shift: Scalar { bits: ZERO_BITS },
            refine_edges: false,
            guided_radius: 8,
            guided_epsilon: Scalar { bits: GUIDED_EPSILON_BITS },
            feather: Scalar { bits: ZERO_BITS },
            fill_style: FillStyle::Plain,
            bg_effect: BgEffect::Plain,
            correction_hash: None,
        }
    }
}

/// Settings of the line stage.
#[derive(Clone, Copy, Debug, PartialEq, Eq, Structural)]
pub struct EdgeSettings {
    pub line_strength: Scalar,
    pub solid_line_color: Option<Rgb>,
    pub edge_thickness: u32,
    pub edge_scale: EdgeScale,
    pub compose_mode: ComposeMode,
    pub line_style: LineStyle,
    pub input_transform: InputTransform,
}

/// Part of a recipe that a new inference depends on.
#[derive(Clone, Copy, Debug, PartialEq, Eq, Structural)]
pub struct InferenceRecipe {
    pub model: ModelKind,
    pub uses_segmentation: bool,
    pub uses_edge_detection: bool,
    pub input_transform: InputTransform,
}

/// Part of a recipe that the line stage depends on.
#[derive(Clone, Copy, Debug, PartialEq, Eq, Structural)]
pub struct EdgeRecipe {
    pub line_strength_bits: u32,
    pub solid_line_color: Option<Rgb>,
    pub edge_thickness: u32,
    pub edge_scale: EdgeScale,
    pub compose_mode: ComposeMode,
    pub line_style: LineStyle,
}

/// Part of a recipe that the mask stage depends on.
#[derive(Clone, Copy, Debug, PartialEq, Eq, Structural)]
pub struct MaskRecipe {
    pub gamma_bits: u32,
    pub threshold_bits: Option<u32>,
    pub edge_shift_bits: u32,
    pub refine_edges: bool,
    pub guided_radius: u32,
    pub guided_epsilon_bits: u32,
    pub feather_bits: u32,
    pub fill_style: FillStyle,
    pub bg_effect: BgEffect,
    pub correction_hash: Option<u64>,
}

/// Part of a recipe that only compositing depends on.
#[derive(Clone, Copy, Debug, PartialEq, Eq, Structural)]
pub struct CompositeRecipe {
    pub bg_color: Option<Rgb>,
    pub solid_line_color: Option<Rgb>,
}

/// Everything a result was made from.
#[derive(Clone, Copy, Debug, PartialEq, Eq, Structural)]
pub struct ProcessingRecipe {
    pub inference: InferenceRecipe,
    pub edge: EdgeRecipe,
    pub mask: MaskRecipe,
    pub composite: CompositeRecipe,
    pub was_chain: bool,
}

impl MaskRecipe {
    /// The recipe of given mask settings.
    pub open spec fn of(s: MaskSettings) -> MaskRecipe {
        MaskRecipe {
            gamma_bits: s.gamma.bits,
            threshold_bits: match s.threshold {
                Some(t) => Some(t.bits),
                None => None,
            },
            edge_shift_bits: s.edge_shift.bits,
            refine_edges: s.refine_edges,
            guided_radius: s.guided_radius,
            guided_epsilon_bits: s.guided_epsilon.bits,
            feather_bits: s.feather.bits,
            fill_style: s.fill_style,
            bg_effect: s.bg_effect,
            correction_hash: s.correction_hash,
        }
    }

    /// Records mask settings in a recipe.
    pub fn from_settings(s: &MaskSettings) -> (r: MaskRecipe)
        ensures
            r == MaskRecipe::of(*s),
    {
        MaskRecipe {
            gamma_bits: s.gamma.bits,
            threshold_bits: match s.threshold {
                Some(t) => Some(t.bits),
                None => None,
            },
            edge_shift_bits: s.edge_shift.bits,
            refine_edges: s.refine_edges,
            guided_radius: s.guided_radius,
            guided_epsilon_bits: s.guided_epsilon.bits,
            feather_bits: s.feather.bits,
            fill_style: s.fill_style,
            bg_effect: s.bg_effect,
            correction_hash: s.correction_hash,
        }
    }
}

impl EdgeRecipe {
    /// The recipe of given line settings.
    pub open spec fn of(s: EdgeSettings) -> EdgeRecipe {
        EdgeRecipe {
            line_strength_bits: s.line_strength.bits,
            solid_line_color: s.solid_line_color,
            edge_thickness: s.edge_thickness,
            edge_scale: s.edge_scale,
            compose_mode: s.compose_mode,
            line_style: s.line_style,
        }
    }

    /// Records line settings in a recipe.
    pub fn from_settings(s: &EdgeSettings) -> (r: EdgeRecipe)
        ensures
            r == EdgeRecipe::of(*s),
    {
        EdgeRecipe {
            line_strength_bits: s.line_strength.bits,
            solid_line_color: s.solid_line_color,
            edge_thickness: s.edge_thickness,
            edge_scale: s.edge_scale,
            compose_mode: s.compose_mode,
            line_style: s.line_style,
        }
    }
}

/// Recipes record every line setting, each in its own place, and nothing else: those
/// of two settings agree where everything but what the detector is shown agrees.
pub proof fn line_recipes_tell_settings_apart(a: EdgeSettings, b: EdgeSettings)
    ensures
        EdgeRecipe::of(a).line_strength_bits == a.line_strength.bits,
        EdgeRecipe::of(a).solid_line_color == a.solid_line_color,
        EdgeRecipe::of(a).edge_thickness == a.edge_thickness,
        EdgeRecipe::of(a).edge_scale == a.edge_scale,
        EdgeRecipe::of(a).compose_mode == a.compose_mode,
        EdgeRecipe::of(a).line_style == a.line_style,
        EdgeRecipe::of(a) == EdgeRecipe::of(b) <==> a == (EdgeSettings {
            input_transform: a.input_transform,
            ..b
        }),
{
}

/// Recipes record every mask setting, each in its own place: those of two settings
/// agree where all of them agree.
pub proof fn mask_recipes_tell_settings_apart(a: MaskSettings, b: MaskSettings)
    ensures
        MaskRecipe::of(a).gamma_bits == a.gamma.bits,
        a.threshold matches Some(t) ==> MaskRecipe::of(a).threshold_bits == Some(t.bits),
        a.threshold is None ==> MaskRecipe::of(a).threshold_bits is None,
        MaskRecipe::of(a).edge_shift_bits == a.edge_shift.bits,
        MaskRecipe::of(a).refine_edges == a.refine_edges,
        MaskRecipe::of(a).guided_radius == a.guided_radius,
        MaskRecipe::of(a).guided_epsilon_bits == a.guided_epsilon.bits,
        MaskRecipe::of(a).feather_bits == a.feather.bits,
        MaskRecipe::of(a).fill_style == a.fill_style,
        MaskRecipe::of(a).bg_effect == a.bg_effect,
        MaskRecipe::of(a).correction_hash == a.correction_hash,
        MaskRecipe::of(a) == MaskRecipe::of(b) <==> a == b,
{
}

/// Numbers are ordered by their magnitude on either side of zero, negative ones
/// mirrored, and the two zeros stand in the same place.
pub proof fn numbers_are_ordered(a: Scalar, b: Scalar)
    ensures
        a.bits < 0x8000_0000 && b.bits < 0x8000_0000 ==> (a.rank() < b.rank() <==> a.bits < b.bits),
        a.bits >= 0x8000_0000 && b.bits >= 0x8000_0000 ==> (a.rank() < b.rank() <==> a.bits
            > b.bits),
        a.bits < 0x8000_0000 && b.bits >= 0x8000_0000 ==> b.rank() <= 0 <= a.rank(),
        b.bits == a.bits + 0x8000_0000 ==> b.rank() == -a.rank() && a.is_nan() == b.is_nan(),
        a.bits < 0x8000_0000 ==> (a.is_nan() <==> a.bits > 0x7F80_0000),
{
}

/// Only the two Stable Diffusion models, with all steps or few, inpaint that way; the
/// models that cut out, those that fill in and the small decoder do not.
pub proof fn diffusion_models_are_two(m: ModelId)
    ensures
        m.sd_family() <==> m is SdV15InpaintFp16 || m is SdV15LcmInpaintFp16,
        m is Silueta || m is U2net || m is BiRefNetLite || m is LaMaFp32 || m is BigLaMa
            || m is TaesdFp16 ==> !m.sd_family(),
{
}

/// Mask settings as they come leave the model's mask alone: no cut, no shift, no
/// feather, no refinement, no recolouring, and a gamma of one.
pub proof fn default_masks_are_left_alone()
    ensures
        default_mask_settings().gamma.rank() == 0x3F80_0000,
        default_mask_settings().threshold is None,
        default_mask_settings().edge_shift.rank() == 0,
        !default_mask_settings().refine_edges,
        default_mask_settings().feather.rank() == 0,
        default_mask_settings().fill_style is Plain,
        default_mask_settings().bg_effect is Plain,
        default_mask_settings().correction_hash is None,
{
}

} // verus!
