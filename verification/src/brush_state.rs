//! The brush: its settings, the quality presets of the eraser and the stroke
//! that is being drawn.
use vstd::prelude::*;
use crate::pipeline::{Scalar, ONE_BITS, TWO_BITS};

verus! {

/// Whether the brush adds to the mask or takes away from it.
#[derive(Clone, Copy, Debug, PartialEq, Eq, Structural)]
pub enum BrushMode {
    Add,
    Subtract,
}

/// Shape of the brush tip.
#[derive(Clone, Copy, Debug, PartialEq, Eq, Structural)]
pub enum BrushShape {
    Circle,
    Square,
    Line,
}

/// How one touch of the brush marks the mask.
#[derive(Clone, Copy, Debug, PartialEq, Eq, Structural)]
pub struct Stamp {
    pub hardness: Scalar,
    pub strength: Scalar,
    pub mode: BrushMode,
}

/// Denoising schedule of the Stable Diffusion eraser.
#[derive(Clone, Copy, Debug, PartialEq, Eq, Hash, Structural)]
pub enum SdScheduler {
    Lcm,
    Ddim,
    DpmPlusPlus2MKarras,
    UniPc,
    EulerA,
}

/// Schedule as the inference engine names it.
#[derive(Clone, Copy, Debug, PartialEq, Eq, Hash, Structural)]
pub enum SchedulerKind {
    Lcm,
    Ddim,
    DpmPp2MKarras,
    UniPc,
    EulerA,
}

impl SdScheduler {
    /// The engine's name for the schedule.
    pub open spec fn kind(self) -> SchedulerKind {
        match self {
            SdScheduler::Lcm => SchedulerKind::Lcm,
            SdScheduler::Ddim => SchedulerKind::Ddim,
            SdScheduler::DpmPlusPlus2MKarras => SchedulerKind::DpmPp2MKarras,
            SdScheduler::UniPc => SchedulerKind::UniPc,
            SdScheduler::EulerA => SchedulerKind::EulerA,
        }
    }

    /// Whether the worker can run the schedule. All of them are wired.
    pub fn is_available(&self) -> (r: bool)
        ensures
            r,
    {
        matches!(
            self,
            SdScheduler::Lcm
            | SdScheduler::Ddim
            | SdScheduler::DpmPlusPlus2MKarras
            | SdScheduler::EulerA
            | SdScheduler::UniPc
        )
    }

    /// Short name for the user.
    pub fn label(&self) -> (r: &'static str)
        ensures
            r@ == match *self {
                SdScheduler::Lcm => "LCM"@,
                SdScheduler::Ddim => "DDIM"@,
                SdScheduler::DpmPlusPlus2MKarras => "DPM++ 2M Karras"@,
                SdScheduler::UniPc => "UniPC"@,
                SdScheduler::EulerA => "Euler-A"@,
            },
    {
        match self {
            SdScheduler::Lcm => "LCM",
            SdScheduler::Ddim => "DDIM",
            SdScheduler::DpmPlusPlus2MKarras => "DPM++ 2M Karras",
            SdScheduler::UniPc => "UniPC",
            SdScheduler::EulerA => "Euler-A",
        }
    }

    /// One line on when to use the schedule.
    pub fn description(&self) -> (r: &'static str)
        ensures
            r@ == match *self {
                SdScheduler::Lcm => "Distilled \u{2014} fast preview tier (4-8 steps)"@,
                SdScheduler::Ddim => "Conservative baseline (20-30 steps)"@,
                SdScheduler::DpmPlusPlus2MKarras => "Best quality at standard SD (15-25 steps)"@,
                SdScheduler::UniPc => "Best quality at low step counts (8-12 steps)"@,
                SdScheduler::EulerA => "Creative variation per seed (20-30 steps)"@,
            },
    {
        match self {
            SdScheduler::Lcm => "Distilled \u{2014} fast preview tier (4-8 steps)",
            SdScheduler::Ddim => "Conservative baseline (20-30 steps)",
            SdScheduler::DpmPlusPlus2MKarras => "Best quality at standard SD (15-25 steps)",
            SdScheduler::UniPc => "Best quality at low step counts (8-12 steps)",
            SdScheduler::EulerA => "Creative variation per seed (20-30 steps)",
        }
    }
}

impl From<SdScheduler> for SchedulerKind {
    fn from(s: SdScheduler) -> (r: SchedulerKind) {
        match s {
            SdScheduler::Lcm => SchedulerKind::Lcm,
            SdScheduler::Ddim => SchedulerKind::Ddim,
            SdScheduler::DpmPlusPlus2MKarras => SchedulerKind::DpmPp2MKarras,
            SdScheduler::UniPc => SchedulerKind::UniPc,
            SdScheduler::EulerA => SchedulerKind::EulerA,
        }
    }
}

impl vstd::std_specs::convert::FromSpecImpl<SdScheduler> for SchedulerKind {
    open spec fn obeys_from_spec() -> bool {
        true
    }

    open spec fn from_spec(s: SdScheduler) -> SchedulerKind {
        s.kind()
    }
}

/// Settings of the brush and the eraser.
#[derive(Debug, PartialEq)]
pub struct BrushSettings {
    pub radius: Scalar,
    /// Edge falloff: zero is soft, one is a hard disc.
    pub hardness: Scalar,
    /// Magnitude of a stroke.
    pub strength: Scalar,
    pub mode: BrushMode,
    pub shape: BrushShape,
    /// Eraser: how much the filled region is sharpened.
    pub inpaint_sharpen: Scalar,
    /// Eraser: pixels of soft blend at the region's border.
    pub inpaint_feather: Scalar,
    /// Eraser: pixels by which the painted region grows before inference.
    pub inpaint_grow: Scalar,
    pub sd_prompt: String,
    pub sd_negative_prompt: String,
    pub sd_guidance_scale: Scalar,
    pub sd_scheduler: SdScheduler,
    pub sd_steps: u32,
    pub sd_use_karras_sigmas: bool,
    /// Fixed random seed; `None` draws a fresh one for each stroke.
    pub sd_seed: Option<u64>,
    pub sd_strength: Scalar,
    /// Fast decoder: `None` uses it where it is installed.
    pub sd_use_taesd: Option<bool>,
}

/// What brush settings hold.
pub struct Brush {
    pub radius: Scalar,
    pub hardness: Scalar,
    pub strength: Scalar,
    pub mode: BrushMode,
    pub shape: BrushShape,
    pub inpaint_sharpen: Scalar,
    pub inpaint_feather: Scalar,
    pub inpaint_grow: Scalar,
    pub sd_prompt: Seq<char>,
    pub sd_negative_prompt: Seq<char>,
    pub sd_guidance_scale: Scalar,
    pub sd_scheduler: SdScheduler,
    pub sd_steps: u32,
    pub sd_use_karras_sigmas: bool,
    pub sd_seed: Option<u64>,
    pub sd_strength: Scalar,
    pub sd_use_taesd: Option<bool>,
}

impl View for BrushSettings {
    type V = Brush;

    open spec fn view(&self) -> Brush {
        Brush {
            radius: self.radius,
            hardness: self.hardness,
            strength: self.strength,
            mode: self.mode,
            shape: self.shape,
            inpaint_sharpen: self.inpaint_sharpen,
            inpaint_feather: self.inpaint_feather,
            inpaint_grow: self.inpaint_grow,
            sd_prompt: self.sd_prompt@,
            sd_negative_prompt: self.sd_negative_prompt@,
            sd_guidance_scale: self.sd_guidance_scale,
            sd_scheduler: self.sd_scheduler,
            sd_steps: self.sd_steps,
            sd_use_karras_sigmas: self.sd_use_karras_sigmas,
            sd_seed: self.sd_seed,
            sd_strength: self.sd_strength,
            sd_use_taesd: self.sd_use_taesd,
        }
    }
}

impl Clone for BrushSettings {
    fn clone(&self) -> (r: BrushSettings)
        ensures
            r@ == self@,
    {
        BrushSettings {
            radius: self.radius,
            hardness: self.hardness,
            strength: self.strength,
            mode: self.mode,
            shape: self.shape,
            inpaint_sharpen: self.inpaint_sharpen,
            inpaint_feather: self.inpaint_feather,
            inpaint_grow: self.inpaint_grow,
            sd_prompt: self.sd_prompt.clone(),
            sd_negative_prompt: self.sd_negative_prompt.clone(),
            sd_guidance_scale: self.sd_guidance_scale,
            sd_scheduler: self.sd_scheduler,
            sd_steps: self.sd_steps,
            sd_use_karras_sigmas: self.sd_use_karras_sigmas,
            sd_seed: self.sd_seed,
            sd_strength: self.sd_strength,
            sd_use_taesd: self.sd_use_taesd,
        }
    }
}

/// Prompt of the eraser unless the user writes another.
pub const DEFAULT_SD_PROMPT: &'static str = "seamless continuation of the surroundings, matching style, high quality";

/// What the eraser is told to avoid unless the user says otherwise.
pub const DEFAULT_SD_NEGATIVE_PROMPT: &'static str = "text, letters, words, watermark, signature, logo, blurry, distorted, low quality, oversaturated, jpeg artifacts";

/// Bit pattern of 24.0.
pub const RADIUS_BITS: u32 = 0x41C0_0000;

/// Bit pattern of 0.7.
pub const HARDNESS_BITS: u32 = 0x3F33_3333;

/// Bit pattern of 0.6.
pub const SHARPEN_BITS: u32 = 0x3F19_999A;

/// Bit pattern of 1.5.
pub const ONE_AND_HALF_BITS: u32 = 0x3FC0_0000;

/// Bit pattern of 4.0.
pub const FOUR_BITS: u32 = 0x4080_0000;

/// Bit pattern of 7.5.
pub const SEVEN_AND_HALF_BITS: u32 = 0x40F0_0000;

/// Bit pattern of 8.0.
pub const EIGHT_BITS: u32 = 0x4100_0000;

/// The brush a user starts with.
pub open spec fn default_brush() -> Brush {
    Brush {
        radius: Scalar { bits: RADIUS_BITS },
        hardness: Scalar { bits: HARDNESS_BITS },
        strength: Scalar { bits: ONE_BITS },
        mode: BrushMode::Subtract,
        shape: BrushShape::Circle,
        inpaint_sharpen: Scalar { bits: SHARPEN_BITS },
        inpaint_feather: Scalar { bits: FOUR_BITS },
        inpaint_grow: Scalar { bits: TWO_BITS },
        sd_prompt: DEFAULT_SD_PROMPT@,
        sd_negative_prompt: DEFAULT_SD_NEGATIVE_PROMPT@,
        sd_guidance_scale: Scalar { bits: ONE_AND_HALF_BITS },
        sd_scheduler: SdScheduler::Lcm,
        sd_steps: 8,
        sd_use_karras_sigmas: false,
        sd_seed: None,
        sd_strength: Scalar { bits: ONE_BITS },
        sd_use_taesd: None,
    }
}

impl Default for BrushSettings {
    fn default() -> (r: BrushSettings)
        ensures
            r@ == default_brush(),
    {
        BrushSettings {
            radius: Scalar { bits: RADIUS_BITS },
            hardness: Scalar { bits: HARDNESS_BITS },
            strength: Scalar { bits: ONE_BITS },
            mode: BrushMode::Subtract,
            shape: BrushShape::Circle,
            inpaint_sharpen: Scalar { bits: SHARPEN_BITS },
            inpaint_feather: Scalar { bits: FOUR_BITS },
            inpaint_grow: Scalar { bits: TWO_BITS },
            sd_prompt: DEFAULT_SD_PROMPT.to_owned(),
            sd_negative_prompt: DEFAULT_SD_NEGATIVE_PROMPT.to_owned(),
            sd_guidance_scale: Scalar { bits: ONE_AND_HALF_BITS },
            sd_scheduler: SdScheduler::Lcm,
            sd_steps: 8,
            sd_use_karras_sigmas: false,
            sd_seed: None,
            sd_strength: Scalar { bits: ONE_BITS },
            sd_use_taesd: None,
        }
    }
}

impl BrushSettings {
    /// The part of the settings that one touch of the brush needs.
    pub fn stamp(&self) -> (r: Stamp)
        ensures
            r == (Stamp { hardness: self.hardness, strength: self.strength, mode: self.mode }),
    {
        Stamp { hardness: self.hardness, strength: self.strength, mode: self.mode }
    }

    /// Whether the fast decoder is used: unless switched off, and only where it
    /// is installed.
    pub fn sd_use_taesd_effective(&self, installed: bool) -> (r: bool)
        ensures
            r == (self.sd_use_taesd != Some(false) && installed),
    {
        match self.sd_use_taesd {
            Some(wanted) => wanted && installed,
            None => installed,
        }
    }

    /// Takes the sliders and the shape of the brush popover from `source`.
    /// Strength, mode and the eraser's prompt settings stay.
    pub fn reset_popover_fields_from(&mut self, source: &BrushSettings)
        ensures
            final(self)@ == (Brush {
                radius: source.radius,
                hardness: source.hardness,
                shape: source.shape,
                inpaint_sharpen: source.inpaint_sharpen,
                inpaint_feather: source.inpaint_feather,
                inpaint_grow: source.inpaint_grow,
                ..old(self)@
            }),
    {
        self.radius = source.radius;
        self.hardness = source.hardness;
        self.shape = source.shape;
        self.inpaint_sharpen = source.inpaint_sharpen;
        self.inpaint_feather = source.inpaint_feather;
        self.inpaint_grow = source.inpaint_grow;
    }
}

/// Quality level of the eraser. It is read off the settings, never stored.
#[derive(Clone, Copy, Debug, PartialEq, Eq, Structural)]
pub enum SdQualityPreset {
    Fast,
    Balanced,
    Quality,
    /// The settings are those of no level.
    Custom,
}

/// Settings that a quality level stands for.
#[derive(Clone, Copy, Debug, PartialEq, Eq, Structural)]
pub struct QualityBundle {
    pub scheduler: SdScheduler,
    pub steps: u32,
    pub guidance_scale: Scalar,
    pub use_karras_sigmas: bool,
    pub feather: Scalar,
}

impl SdQualityPreset {
    /// The settings that a level stands for.
    pub open spec fn settings(self) -> Option<QualityBundle> {
        match self {
            SdQualityPreset::Fast => Some(
                QualityBundle {
                    scheduler: SdScheduler::Lcm,
                    steps: 4,
                    guidance_scale: Scalar { bits: ONE_BITS },
                    use_karras_sigmas: false,
                    feather: Scalar { bits: FOUR_BITS },
                },
            ),
            SdQualityPreset::Balanced => Some(
                QualityBundle {
                    scheduler: SdScheduler::Lcm,
                    steps: 8,
                    guidance_scale: Scalar { bits: ONE_AND_HALF_BITS },
                    use_karras_sigmas: false,
                    feather: Scalar { bits: FOUR_BITS },
                },
            ),
            SdQualityPreset::Quality => Some(
                QualityBundle {
                    scheduler: SdScheduler::DpmPlusPlus2MKarras,
                    steps: 25,
                    guidance_scale: Scalar { bits: FOUR_BITS },
                    use_karras_sigmas: true,
                    feather: Scalar { bits: EIGHT_BITS },
                },
            ),
            SdQualityPreset::Custom => None,
        }
    }

    /// The settings that a level stands for.
    pub fn bundle(self) -> (r: Option<QualityBundle>)
        ensures
            r == self.settings(),
    {
        match self {
            SdQualityPreset::Fast => Some(
                QualityBundle {
                    scheduler: SdScheduler::Lcm,
                    steps: 4,
                    guidance_scale: Scalar { bits: ONE_BITS },
                    use_karras_sigmas: false,
                    feather: Scalar { bits: FOUR_BITS },
                },
            ),
            SdQualityPreset::Balanced => Some(
                QualityBundle {
                    scheduler: SdScheduler::Lcm,
                    steps: 8,
                    guidance_scale: Scalar { bits: ONE_AND_HALF_BITS },
                    use_karras_sigmas: false,
                    feather: Scalar { bits: FOUR_BITS },
                },
            ),
            SdQualityPreset::Quality => Some(
                QualityBundle {
                    scheduler: SdScheduler::DpmPlusPlus2MKarras,
                    steps: 25,
                    guidance_scale: Scalar { bits: FOUR_BITS },
                    use_karras_sigmas: true,
                    feather: Scalar { bits: EIGHT_BITS },
                },
            ),
            SdQualityPreset::Custom => None,
        }
    }

    /// Writes the settings of a level into a brush. The level `Custom` changes
    /// nothing.
    pub fn apply_to(self, brush: &mut BrushSettings)
        ensures
            final(brush)@ == with_quality(old(brush)@, self.settings()),
    {
        if let Some(b) = self.bundle() {
            brush.sd_scheduler = b.scheduler;
            brush.sd_steps = b.steps;
            brush.sd_guidance_scale = b.guidance_scale;
            brush.sd_use_karras_sigmas = b.use_karras_sigmas;
            brush.inpaint_feather = b.feather;
        }
    }

    /// The level whose settings a brush has, to within a thousandth; `Custom`
    /// when there is none.
    pub fn detect_from(brush: &BrushSettings) -> (r: SdQualityPreset)
        ensures
            r == quality_of(brush@),
    {
        if brush.sd_scheduler == SdScheduler::Lcm && brush.sd_steps == 4 && in_range(
            brush.sd_guidance_scale,
            0x3F7F_BE77,
            0x3F80_20C4,
        ) && !brush.sd_use_karras_sigmas && in_range(brush.inpaint_feather, 0x407F_EF9E, 0x4080_0831) {
            SdQualityPreset::Fast
        } else if brush.sd_scheduler == SdScheduler::Lcm && brush.sd_steps == 8 && in_range(
            brush.sd_guidance_scale,
            0x3FBF_DF3C,
            0x3FC0_20C4,
        ) && !brush.sd_use_karras_sigmas && in_range(brush.inpaint_feather, 0x407F_EF9E, 0x4080_0831) {
            SdQualityPreset::Balanced
        } else if brush.sd_scheduler == SdScheduler::DpmPlusPlus2MKarras && brush.sd_steps == 25
            && in_range(brush.sd_guidance_scale, 0x407F_EF9E, 0x4080_0831)
            && brush.sd_use_karras_sigmas && in_range(brush.inpaint_feather, 0x40FF_F7CF, 0x4100_0418) {
            SdQualityPreset::Quality
        } else {
            SdQualityPreset::Custom
        }
    }

    /// Name for the user.
    pub fn label(&self) -> (r: &'static str)
        ensures
            r@ == match *self {
                SdQualityPreset::Fast => "Fast"@,
                SdQualityPreset::Balanced => "Balanced"@,
                SdQualityPreset::Quality => "Quality"@,
                SdQualityPreset::Custom => "Custom"@,
            },
    {
        match self {
            SdQualityPreset::Fast => "Fast",
            SdQualityPreset::Balanced => "Balanced",
            SdQualityPreset::Quality => "Quality",
            SdQualityPreset::Custom => "Custom",
        }
    }
}

/// A brush with the settings of a quality level.
pub open spec fn with_quality(b: Brush, q: Option<QualityBundle>) -> Brush {
    match q {
        Some(q) => Brush {
            sd_scheduler: q.scheduler,
            sd_steps: q.steps,
            sd_guidance_scale: q.guidance_scale,
            sd_use_karras_sigmas: q.use_karras_sigmas,
            inpaint_feather: q.feather,
            ..b
        },
        None => b,
    }
}

/// Whether a number differs from 1.0 by less than 0.001.
pub open spec fn near_one(s: Scalar) -> bool {
    0x3F7F_BE77 <= s.bits <= 0x3F80_20C4
}

/// Whether a number differs from 1.5 by less than 0.001.
pub open spec fn near_one_and_half(s: Scalar) -> bool {
    0x3FBF_DF3C <= s.bits <= 0x3FC0_20C4
}

/// Whether a number differs from 4.0 by less than 0.001.
pub open spec fn near_four(s: Scalar) -> bool {
    0x407F_EF9E <= s.bits <= 0x4080_0831
}

/// Whether a number differs from 8.0 by less than 0.001.
pub open spec fn near_eight(s: Scalar) -> bool {
    0x40FF_F7CF <= s.bits <= 0x4100_0418
}

/// Whether a bit pattern lies between two others.
fn in_range(s: Scalar, lo: u32, hi: u32) -> (r: bool)
    ensures
        r == (lo <= s.bits <= hi),
{
    lo <= s.bits && s.bits <= hi
}

/// The quality level whose settings a brush has.
pub open spec fn quality_of(b: Brush) -> SdQualityPreset {
    if b.sd_scheduler == SdScheduler::Lcm && b.sd_steps == 4 && near_one(b.sd_guidance_scale)
        && !b.sd_use_karras_sigmas && near_four(b.inpaint_feather) {
        SdQualityPreset::Fast
    } else if b.sd_scheduler == SdScheduler::Lcm && b.sd_steps == 8 && near_one_and_half(
        b.sd_guidance_scale,
    ) && !b.sd_use_karras_sigmas && near_four(b.inpaint_feather) {
        SdQualityPreset::Balanced
    } else if b.sd_scheduler == SdScheduler::DpmPlusPlus2MKarras && b.sd_steps == 25 && near_four(
        b.sd_guidance_scale,
    ) && b.sd_use_karras_sigmas && near_eight(b.inpaint_feather) {
        SdQualityPreset::Quality
    } else {
        SdQualityPreset::Custom
    }
}

/// Picking a quality level is seen: the level read off the settings is the one
/// picked. The level `Custom` changes nothing.
pub proof fn picked_quality_is_detected(b: Brush, p: SdQualityPreset)
    ensures
        p != SdQualityPreset::Custom ==> quality_of(with_quality(b, p.settings())) == p,
        p == SdQualityPreset::Custom ==> with_quality(b, p.settings()) == b,
{
}

/// A brush as it comes is at the balanced level.
pub proof fn default_brush_is_balanced()
    ensures
        quality_of(default_brush()) == SdQualityPreset::Balanced,
{
}

/// A mark on the mask at model resolution.
#[derive(Clone, Copy, Debug, PartialEq, Eq, Structural)]
pub enum PaintOp {
    Circle { x: Scalar, y: Scalar, radius: Scalar, stamp: Stamp },
    Square { x: Scalar, y: Scalar, radius: Scalar, stamp: Stamp },
    Line { x0: Scalar, y0: Scalar, x1: Scalar, y1: Scalar, radius: Scalar, stamp: Stamp },
}

/// Ends of a straight stroke.
#[derive(Clone, Copy, Debug, PartialEq, Eq)]
pub struct LineState {
    pub first: (Scalar, Scalar),
    pub last: (Scalar, Scalar),
    pub radius: Scalar,
}

/// A touch of the brush on the screen, for drawing the trail.
#[derive(Clone, Copy, Debug, PartialEq, Eq, Structural)]
pub struct TrailStamp {
    pub x: Scalar,
    pub y: Scalar,
    pub radius: Scalar,
}

/// The stroke that is being drawn.
pub struct ActiveStroke {
    /// Size of the mask that the stroke paints on.
    pub width: u16,
    pub height: u16,
    /// Marks so far.
    pub ops: Vec<PaintOp>,
    pub trail: Vec<TrailStamp>,
    /// Shape at the start of the stroke; a later switch does not change it.
    pub shape: BrushShape,
    /// Present once a straight stroke was extended.
    pub line: Option<LineState>,
}

/// A finished stroke: the size of its mask and the marks to paint on it.
pub struct StrokeMarks {
    pub width: u16,
    pub height: u16,
    pub ops: Vec<PaintOp>,
}

/// The brush tool: on or off, and the stroke that is being drawn.
pub struct BrushState {
    pub enabled: bool,
    pub active: Option<ActiveStroke>,
}

impl Default for BrushState {
    fn default() -> (r: BrushState)
        ensures
            !r.enabled,
            r.active is None,
    {
        BrushState { enabled: false, active: None }
    }
}

impl BrushState {
    /// Whether the tool is on.
    pub fn is_enabled(&self) -> (r: bool)
        ensures
            r == self.enabled,
    {
        self.enabled
    }

    /// Switches the tool on or off. Switching it off drops the stroke.
    pub fn toggle(&mut self)
        ensures
            final(self).enabled == !old(self).enabled,
            final(self).active == if old(self).enabled {
                None
            } else {
                old(self).active
            },
    {
        self.enabled = !self.enabled;
        if !self.enabled {
            self.active = None;
        }
    }

    /// Whether a stroke is being drawn.
    pub fn has_active_stroke(&self) -> (r: bool)
        ensures
            r == (self.active is Some),
    {
        self.active.is_some()
    }

    /// Starts a stroke; one that was being drawn is dropped.
    pub fn begin_stroke(&mut self, width: u16, height: u16, shape: BrushShape)
        ensures
            final(self).enabled == old(self).enabled,
            final(self).active matches Some(a) && a.width == width && a.height == height && a.ops@
                == Seq::<PaintOp>::empty() && a.trail@ == Seq::<TrailStamp>::empty() && a.shape
                == shape && a.line is None,
    {
        self.active = Some(
            ActiveStroke {
                width,
                height,
                ops: Vec::new(),
                trail: Vec::new(),
                shape,
                line: None,
            },
        );
    }

    /// Shape of the stroke that is being drawn.
    pub fn active_shape(&self) -> (r: Option<BrushShape>)
        ensures
            r == match self.active {
                Some(a) => Some(a.shape),
                None => None,
            },
    {
        match &self.active {
            Some(a) => Some(a.shape),
            None => None,
        }
    }

    /// Adds a touch to the trail. `spaced` says whether it is at least half a
    /// radius away from the last one; a closer touch would paint the same
    /// pixels and is left out.
    pub fn record_trail_stamp(&mut self, stamp: TrailStamp, spaced: bool)
        ensures
            final(self).enabled == old(self).enabled,
            match old(self).active {
                None => final(self).active is None,
                Some(a) => final(self).active matches Some(b) && b.width == a.width && b.height
                    == a.height && b.ops == a.ops && b.shape == a.shape && b.line == a.line
                    && b.trail@ == if a.trail@.len() == 0 || spaced {
                    a.trail@.push(stamp)
                } else {
                    a.trail@
                },
            },
    {
        match &mut self.active {
            Some(a) => {
                if a.trail.len() == 0 || spaced {
                    a.trail.push(stamp);
                }
            },
            None => {},
        }
    }

    /// Number of touches in the trail.
    pub fn trail_len(&self) -> (r: usize)
        ensures
            r == match self.active {
                Some(a) => a.trail@.len(),
                None => 0,
            },
    {
        match &self.active {
            Some(a) => a.trail.len(),
            None => 0,
        }
    }

    /// Touches of the trail, oldest first.
    pub fn trail_stamps(&self) -> (r: Vec<TrailStamp>)
        ensures
            r@ == match self.active {
                Some(a) => a.trail@,
                None => Seq::<TrailStamp>::empty(),
            },
    {
        let mut out: Vec<TrailStamp> = Vec::new();
        if let Some(a) = &self.active {
            let mut i: usize = 0;
            while i < a.trail.len()
                invariant
                    i <= a.trail@.len(),
                    out@ =~= a.trail@.take(i as int),
                decreases a.trail@.len() - i,
            {
                out.push(a.trail[i]);
                i += 1;
            }
            assert(a.trail@.take(a.trail@.len() as int) =~= a.trail@);
        }
        out
    }

    /// Extends the stroke. Round and square tips mark at once; a straight stroke
    /// only remembers its two ends.
    pub fn extend_stroke_with_radius(&mut self, x: Scalar, y: Scalar, radius: Scalar, stamp: Stamp)
        ensures
            final(self).enabled == old(self).enabled,
            match old(self).active {
                None => final(self).active is None,
                Some(a) => final(self).active matches Some(b) && b.width == a.width && b.height
                    == a.height && b.trail == a.trail && b.shape == a.shape && match a.shape {
                    BrushShape::Circle => b.line == a.line && b.ops@ == a.ops@.push(
                        PaintOp::Circle { x, y, radius, stamp },
                    ),
                    BrushShape::Square => b.line == a.line && b.ops@ == a.ops@.push(
                        PaintOp::Square { x, y, radius, stamp },
                    ),
                    BrushShape::Line => b.ops == a.ops && b.line == Some(
                        LineState {
                            first: match a.line {
                                Some(l) => l.first,
                                None => (x, y),
                            },
                            last: (x, y),
                            radius,
                        },
                    ),
                },
            },
    {
        match &mut self.active {
            None => {},
            Some(a) => match a.shape {
                BrushShape::Circle => {
                    a.ops.push(PaintOp::Circle { x, y, radius, stamp });
                },
                BrushShape::Square => {
                    a.ops.push(PaintOp::Square { x, y, radius, stamp });
                },
                BrushShape::Line => {
                    let first = match a.line {
                        Some(l) => l.first,
                        None => (x, y),
                    };
                    a.line = Some(LineState { first, last: (x, y), radius });
                },
            },
        }
    }

    /// Ends the stroke and hands out its marks; a straight stroke is marked
    /// here. `None` when there was no stroke or it marked nothing.
    pub fn commit_stroke(&mut self, stamp: Stamp) -> (r: Option<StrokeMarks>)
        ensures
            final(self).enabled == old(self).enabled,
            final(self).active is None,
            match old(self).active {
                None => r is None,
                Some(a) => {
                    let ops = match a.line {
                        Some(l) => a.ops@.push(
                            PaintOp::Line {
                                x0: l.first.0,
                                y0: l.first.1,
                                x1: l.last.0,
                                y1: l.last.1,
                                radius: l.radius,
                                stamp,
                            },
                        ),
                        None => a.ops@,
                    };
                    if ops.len() == 0 {
                        r is None
                    } else {
                        r matches Some(m) && m.width == a.width && m.height == a.height && m.ops@
                            == ops
                    }
                },
            },
    {
        match self.active.take() {
            None => None,
            Some(a) => {
                let mut ops = a.ops;
                if let Some(l) = a.line {
                    ops.push(
                        PaintOp::Line {
                            x0: l.first.0,
                            y0: l.first.1,
                            x1: l.last.0,
                            y1: l.last.1,
                            radius: l.radius,
                            stamp,
                        },
                    );
                }
                if ops.len() == 0 {
                    None
                } else {
                    Some(StrokeMarks { width: a.width, height: a.height, ops })
                }
            },
        }
    }
}

/// What a brush is taken to hold is what its fields hold, each under its own name. So a
/// copy of a brush has the same texts and numbers.
pub proof fn brushes_hold_their_fields(b: BrushSettings, c: BrushSettings)
    ensures
        b@.radius == b.radius,
        b@.hardness == b.hardness,
        b@.strength == b.strength,
        b@.mode == b.mode,
        b@.shape == b.shape,
        b@.inpaint_sharpen == b.inpaint_sharpen,
        b@.inpaint_feather == b.inpaint_feather,
        b@.inpaint_grow == b.inpaint_grow,
        b@.sd_guidance_scale == b.sd_guidance_scale,
        b@.sd_scheduler == b.sd_scheduler,
        b@.sd_steps == b.sd_steps,
        b@.sd_use_karras_sigmas == b.sd_use_karras_sigmas,
        b@.sd_seed == b.sd_seed,
        b@.sd_strength == b.sd_strength,
        b@.sd_use_taesd == b.sd_use_taesd,
        b@.sd_prompt == b.sd_prompt@,
        b@.sd_negative_prompt == b.sd_negative_prompt@,
        b@ == c@ ==> {
            &&& b.radius == c.radius
            &&& b.hardness == c.hardness
            &&& b.strength == c.strength
            &&& b.mode == c.mode
            &&& b.shape == c.shape
            &&& b.inpaint_sharpen == c.inpaint_sharpen
            &&& b.inpaint_feather == c.inpaint_feather
            &&& b.inpaint_grow == c.inpaint_grow
            &&& b.sd_guidance_scale == c.sd_guidance_scale
            &&& b.sd_scheduler == c.sd_scheduler
            &&& b.sd_steps == c.sd_steps
            &&& b.sd_use_karras_sigmas == c.sd_use_karras_sigmas
            &&& b.sd_seed == c.sd_seed
            &&& b.sd_strength == c.sd_strength
            &&& b.sd_use_taesd == c.sd_use_taesd
            &&& b.sd_prompt@ == c.sd_prompt@
            &&& b.sd_negative_prompt@ == c.sd_negative_prompt@
        },
{
}

/// The engine runs the schedule that was picked: every schedule has its own name there.
pub proof fn schedules_keep_their_name(a: SdScheduler, b: SdScheduler)
    ensures
        a.kind() == b.kind() <==> a == b,
        a == SdScheduler::Lcm <==> a.kind() == SchedulerKind::Lcm,
        a == SdScheduler::Ddim <==> a.kind() == SchedulerKind::Ddim,
        a == SdScheduler::DpmPlusPlus2MKarras <==> a.kind() == SchedulerKind::DpmPp2MKarras,
        a == SdScheduler::UniPc <==> a.kind() == SchedulerKind::UniPc,
        a == SdScheduler::EulerA <==> a.kind() == SchedulerKind::EulerA,
{
}

/// A number counts as that of a level where it differs from it by less than a
/// thousandth. The distance is that of the bit patterns, by the spacing of numbers above
/// and below.
pub proof fn near_is_within_a_thousandth(s: Scalar)
    ensures
        ONE_BITS <= s.bits < TWO_BITS ==> (near_one(s) <==> (s.bits - ONE_BITS) * 1000
            < 0x80_0000),
        0x3F00_0000 <= s.bits < ONE_BITS ==> (near_one(s) <==> (ONE_BITS - s.bits) * 1000
            < 0x100_0000),
        ONE_AND_HALF_BITS <= s.bits < TWO_BITS ==> (near_one_and_half(s) <==> (s.bits
            - ONE_AND_HALF_BITS) * 1000 < 0x80_0000),
        ONE_BITS <= s.bits < ONE_AND_HALF_BITS ==> (near_one_and_half(s) <==> (ONE_AND_HALF_BITS
            - s.bits) * 1000 < 0x80_0000),
        FOUR_BITS <= s.bits < EIGHT_BITS ==> (near_four(s) <==> (s.bits - FOUR_BITS) * 1000
            < 0x20_0000),
        TWO_BITS <= s.bits < FOUR_BITS ==> (near_four(s) <==> (FOUR_BITS - s.bits) * 1000
            < 0x40_0000),
        EIGHT_BITS <= s.bits < 0x4180_0000 ==> (near_eight(s) <==> (s.bits - EIGHT_BITS) * 1000
            < 0x10_0000),
        FOUR_BITS <= s.bits < EIGHT_BITS ==> (near_eight(s) <==> (EIGHT_BITS - s.bits) * 1000
            < 0x20_0000),
        near_one(s) ==> 0x3F00_0000 <= s.bits < TWO_BITS,
        near_one_and_half(s) ==> ONE_BITS <= s.bits < TWO_BITS,
        near_four(s) ==> TWO_BITS <= s.bits < EIGHT_BITS,
        near_eight(s) ==> FOUR_BITS <= s.bits < 0x4180_0000,
{
}

/// A brush is at a level only with that level's schedule, steps and spacing: any change
/// of one of them takes it off the level.
pub proof fn levels_fix_their_settings(b: Brush)
    ensures
        quality_of(b).settings() matches Some(q) ==> {
            &&& b.sd_scheduler == q.scheduler
            &&& b.sd_steps == q.steps
            &&& b.sd_use_karras_sigmas == q.use_karras_sigmas
            &&& q.scheduler == SdScheduler::Lcm ==> !q.use_karras_sigmas
        },
        quality_of(b) == SdQualityPreset::Custom <==> quality_of(b).settings() is None,
{
}

/// Picking a level changes nothing but the settings that it stands for: texts, seed,
/// strength and the shape of the brush stay.
pub proof fn levels_leave_the_rest_alone(b: Brush, p: SdQualityPreset)
    ensures
        ({
            let c = with_quality(b, p.settings());
            &&& c.sd_prompt == b.sd_prompt
            &&& c.sd_negative_prompt == b.sd_negative_prompt
            &&& c.sd_seed == b.sd_seed
            &&& c.sd_strength == b.sd_strength
            &&& c.sd_use_taesd == b.sd_use_taesd
            &&& c.radius == b.radius && c.hardness == b.hardness && c.strength == b.strength
            &&& c.mode == b.mode && c.shape == b.shape
            &&& c.inpaint_sharpen == b.inpaint_sharpen && c.inpaint_grow == b.inpaint_grow
            &&& with_quality(c, p.settings()) == c
        }),
        SdQualityPreset::Fast.settings()->0.steps < SdQualityPreset::Balanced.settings()->0.steps,
        SdQualityPreset::Balanced.settings()->0.steps < SdQualityPreset::Quality.settings(
        )->0.steps,
{
}

} // verus!
