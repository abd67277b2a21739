//! Export of an animation: one setting is swept over a number of frames, each
//! rendered from the cached tensors.
use vstd::prelude::*;
use crate::item_settings::ItemSettings;
use crate::pipeline::{
    BgEffect, ComposeMode, EdgeSettings, FillStyle, LineMode, LineStyle, MaskSettings, Scalar,
    HALF_BITS, TWO_BITS,
};
use crate::text::{
    decimal, decimal4, decimals_stand_for_their_number, filled_decimals_stand_for_their_number,
    join2, join3, to_decimal, to_decimal4, value_of,
};

verus! {

/// Setting that is swept.
#[derive(Clone, Copy, Debug, PartialEq, Eq, Structural)]
pub enum SweepKnob {
    LineStrength,
    Gamma,
    ComposeModeCycle,
    LineStyleCycle,
    FillStyleCycle,
}

/// The values that the engine offers for the settings that are gone through one
/// by one.
pub struct CycleTables {
    pub compose_modes: Vec<ComposeMode>,
    pub line_styles: Vec<LineStyle>,
    pub fill_styles: Vec<FillStyle>,
}

impl CycleTables {
    /// There is a value for each setting.
    pub open spec fn wf(&self) -> bool {
        self.compose_modes@.len() > 0 && self.line_styles@.len() > 0 && self.fill_styles@.len() > 0
    }
}

/// Bit pattern of 0.1.
pub const STRENGTH_LOW_BITS: u32 = 0x3DCC_CCCD;

/// Bit pattern of 0.9.
pub const STRENGTH_HIGH_BITS: u32 = 0x3F66_6666;

impl SweepKnob {
    /// All settings that can be swept.
    pub const ALL: [SweepKnob; 5] = [
        SweepKnob::LineStrength,
        SweepKnob::Gamma,
        SweepKnob::ComposeModeCycle,
        SweepKnob::LineStyleCycle,
        SweepKnob::FillStyleCycle,
    ];

    /// Name for the user.
    pub fn label(self) -> (r: &'static str)
        ensures
            r@ == match self {
                SweepKnob::LineStrength => "Line strength"@,
                SweepKnob::Gamma => "Gamma"@,
                SweepKnob::ComposeModeCycle => "Compose mode (cycle)"@,
                SweepKnob::LineStyleCycle => "Line style (cycle)"@,
                SweepKnob::FillStyleCycle => "Fill style (cycle)"@,
            },
    {
        match self {
            SweepKnob::LineStrength => "Line strength",
            SweepKnob::Gamma => "Gamma",
            SweepKnob::ComposeModeCycle => "Compose mode (cycle)",
            SweepKnob::LineStyleCycle => "Line style (cycle)",
            SweepKnob::FillStyleCycle => "Fill style (cycle)",
        }
    }

    /// Number of values of a setting that is gone through one by one.
    pub open spec fn cycle(self, tables: &CycleTables) -> Option<usize> {
        match self {
            SweepKnob::LineStrength => None,
            SweepKnob::Gamma => None,
            SweepKnob::ComposeModeCycle => Some(tables.compose_modes@.len() as usize),
            SweepKnob::LineStyleCycle => Some(tables.line_styles@.len() as usize),
            SweepKnob::FillStyleCycle => Some(tables.fill_styles@.len() as usize),
        }
    }

    /// Number of values of a setting that is gone through one by one; `None` for
    /// one that is swept over a range.
    pub fn cycle_len(self, tables: &CycleTables) -> (r: Option<usize>)
        ensures
            r == self.cycle(tables),
    {
        match self {
            SweepKnob::LineStrength => None,
            SweepKnob::Gamma => None,
            SweepKnob::ComposeModeCycle => Some(tables.compose_modes.len()),
            SweepKnob::LineStyleCycle => Some(tables.line_styles.len()),
            SweepKnob::FillStyleCycle => Some(tables.fill_styles.len()),
        }
    }

    /// First and last value of a setting that is swept over a range.
    pub fn range(self) -> (r: Option<(Scalar, Scalar)>)
        ensures
            r == match self {
                SweepKnob::LineStrength => Some(
                    (Scalar { bits: STRENGTH_LOW_BITS }, Scalar { bits: STRENGTH_HIGH_BITS }),
                ),
                SweepKnob::Gamma => Some((Scalar { bits: HALF_BITS }, Scalar { bits: TWO_BITS })),
                _ => None,
            },
    {
        match self {
            SweepKnob::LineStrength => Some(
                (Scalar { bits: STRENGTH_LOW_BITS }, Scalar { bits: STRENGTH_HIGH_BITS }),
            ),
            SweepKnob::Gamma => Some((Scalar { bits: HALF_BITS }, Scalar { bits: TWO_BITS })),
            _ => None,
        }
    }
}

/// Settings of one frame. `value` is the point of the range for a setting that is
/// swept over one; a setting that is gone through one by one takes its next
/// value, over and over.
pub fn apply_frame(
    base: &ItemSettings,
    knob: SweepKnob,
    i: usize,
    value: Scalar,
    tables: &CycleTables,
) -> (r: ItemSettings)
    requires
        tables.wf(),
    ensures
        r == match knob {
            SweepKnob::LineStrength => ItemSettings { line_strength: value, ..*base },
            SweepKnob::Gamma => ItemSettings { gamma: value, ..*base },
            SweepKnob::ComposeModeCycle => ItemSettings {
                compose_mode: tables.compose_modes@[i as int % tables.compose_modes@.len() as int],
                ..*base
            },
            SweepKnob::LineStyleCycle => ItemSettings {
                line_style: tables.line_styles@[i as int % tables.line_styles@.len() as int],
                ..*base
            },
            SweepKnob::FillStyleCycle => ItemSettings {
                fill_style: tables.fill_styles@[i as int % tables.fill_styles@.len() as int],
                ..*base
            },
        },
        knob is LineStrength ==> r.line_strength == value,
        !(knob is LineStrength) ==> r.line_strength == base.line_strength,
        knob is Gamma ==> r.gamma == value,
        !(knob is Gamma) ==> r.gamma == base.gamma,
        knob is ComposeModeCycle && i < tables.compose_modes@.len() ==> r.compose_mode
            == tables.compose_modes@[i as int],
        !(knob is ComposeModeCycle) ==> r.compose_mode == base.compose_mode,
        knob is LineStyleCycle && i < tables.line_styles@.len() ==> r.line_style
            == tables.line_styles@[i as int],
        !(knob is LineStyleCycle) ==> r.line_style == base.line_style,
        knob is FillStyleCycle && i < tables.fill_styles@.len() ==> r.fill_style
            == tables.fill_styles@[i as int],
        !(knob is FillStyleCycle) ==> r.fill_style == base.fill_style,
        r.line_mode == base.line_mode,
        r.threshold == base.threshold,
        r.edge_scale == base.edge_scale,
        r.bg == base.bg,
{
    let mut s = *base;
    match knob {
        SweepKnob::LineStrength => {
            s.line_strength = value;
        },
        SweepKnob::Gamma => {
            s.gamma = value;
        },
        SweepKnob::ComposeModeCycle => {
            let k: usize = i % tables.compose_modes.len();
            s.compose_mode = tables.compose_modes[k];
        },
        SweepKnob::LineStyleCycle => {
            let k: usize = i % tables.line_styles.len();
            s.line_style = tables.line_styles[k];
        },
        SweepKnob::FillStyleCycle => {
            let k: usize = i % tables.fill_styles.len();
            s.fill_style = tables.fill_styles[k];
        },
    }
    proof {
        let n = i as int;
        if n < tables.compose_modes@.len() {
            vstd::arithmetic::div_mod::lemma_small_mod(n as nat, tables.compose_modes@.len());
        }
        if n < tables.line_styles@.len() {
            vstd::arithmetic::div_mod::lemma_small_mod(n as nat, tables.line_styles@.len());
        }
        if n < tables.fill_styles@.len() {
            vstd::arithmetic::div_mod::lemma_small_mod(n as nat, tables.fill_styles@.len());
        }
    }
    s
}

/// What an export reports.
pub enum SweepEvent {
    Progress { done: usize, total: usize },
    Finished { frames_written: usize, dir: String },
    Failed(String),
}

/// What the user picked for an export.
pub struct SweepUiState {
    pub knob: SweepKnob,
    pub frames: usize,
    pub out_dir: Option<String>,
}

impl Default for SweepUiState {
    fn default() -> (r: SweepUiState)
        ensures
            r.knob == SweepKnob::Gamma,
            r.frames == 12,
            r.out_dir is None,
    {
        SweepUiState { knob: SweepKnob::Gamma, frames: 12, out_dir: None }
    }
}

impl SweepUiState {
    /// Number of frames: one for each value, or as many as were picked.
    pub open spec fn frame_count(&self, tables: &CycleTables) -> usize {
        match self.knob.cycle(tables) {
            Some(n) => n,
            None => self.frames,
        }
    }

    /// Number of frames: one for each value, or as many as were picked.
    pub fn effective_frames(&self, tables: &CycleTables) -> (r: usize)
        ensures
            r == self.frame_count(tables),
    {
        match self.knob.cycle_len(tables) {
            Some(n) => n,
            None => self.frames,
        }
    }

    /// Whether an export can start: there is a directory and at least one frame.
    pub fn is_ready(&self, tables: &CycleTables) -> (r: bool)
        ensures
            r == (self.out_dir is Some && self.frame_count(tables) >= 1),
    {
        self.out_dir.is_some() && self.effective_frames(tables) >= 1
    }
}

/// Why the source of an export is not at hand.
pub enum SourceFailure {
    Read(String),
    Decode(String),
}

/// An export to be run.
pub struct SweepRequest {
    pub out_dir: String,
    pub knob: SweepKnob,
    pub frames: usize,
    pub base_settings: ItemSettings,
}

impl SweepRequest {
    /// An export of a picture with what the user picked. Fails where no directory
    /// was picked or the source is not at hand.
    pub fn from_item(
        settings: &ItemSettings,
        ui: &SweepUiState,
        tables: &CycleTables,
        source: Result<(), SourceFailure>,
    ) -> (r: Result<SweepRequest, String>)
        ensures
            match r {
                Ok(q) => {
                    &&& ui.out_dir == Some(q.out_dir)
                    &&& source is Ok
                    &&& q.knob == ui.knob
                    &&& q.frames == ui.frame_count(tables)
                    &&& q.base_settings == *settings
                },
                Err(m) => m@ == if ui.out_dir is None {
                    "Pick an output folder first"@
                } else {
                    match source {
                        Err(SourceFailure::Read(e)) => "Source read failed: "@ + e@,
                        Err(SourceFailure::Decode(e)) => "Decode failed: "@ + e@,
                        Ok(_) => m@,
                    }
                },
            },
            r is Ok <==> ui.out_dir is Some && source is Ok,
    {
        let out_dir = match &ui.out_dir {
            Some(d) => d.clone(),
            None => {
                return Err("Pick an output folder first".to_owned());
            },
        };
        match source {
            Err(SourceFailure::Read(e)) => {
                return Err(join2("Source read failed: ", e.as_str()));
            },
            Err(SourceFailure::Decode(e)) => {
                return Err(join2("Decode failed: ", e.as_str()));
            },
            Ok(_) => {},
        }
        Ok(
            SweepRequest {
                out_dir,
                knob: ui.knob,
                frames: ui.effective_frames(tables),
                base_settings: *settings,
            },
        )
    }
}

/// Step of a frame that failed.
pub enum FrameFailure {
    CreateDir { error: String },
    Render { frame: usize, error: String },
    Encode { frame: usize, error: String },
    Write { path: String, error: String },
}

/// Text of a failure.
pub open spec fn frame_failure_text(f: FrameFailure) -> Seq<char> {
    match f {
        FrameFailure::CreateDir { error } => "create dir: "@ + error@,
        FrameFailure::Render { frame, error } => "frame "@ + decimal(frame as nat) + ": "@ + error@,
        FrameFailure::Encode { frame, error } => "encode frame "@ + decimal(frame as nat) + ": "@
            + error@,
        FrameFailure::Write { path, error } => "write "@ + path@ + ": "@ + error@,
    }
}

/// A failure as an event. It ends the export.
pub fn frame_failure(f: FrameFailure) -> (r: SweepEvent)
    ensures
        r matches SweepEvent::Failed(m) && m@ == frame_failure_text(f),
{
    match f {
        FrameFailure::CreateDir { error } => {
            SweepEvent::Failed(join2("create dir: ", error.as_str()))
        },
        FrameFailure::Render { frame, error } => {
            let n = to_decimal(frame as u64);
            SweepEvent::Failed(join3("frame ", n.as_str(), ": ").concat(error.as_str()))
        },
        FrameFailure::Encode { frame, error } => {
            let n = to_decimal(frame as u64);
            SweepEvent::Failed(join3("encode frame ", n.as_str(), ": ").concat(error.as_str()))
        },
        FrameFailure::Write { path, error } => {
            SweepEvent::Failed(join3("write ", path.as_str(), ": ").concat(error.as_str()))
        },
    }
}

/// Name of the file of a frame.
pub fn frame_file_name(i: usize) -> (r: String)
    ensures
        r@ == decimal4(i as nat) + ".png"@,
{
    let n = to_decimal4(i as u64);
    join2(n.as_str(), ".png")
}

/// What an export does next.
pub enum SweepStep {
    /// Render and write the frame with these settings.
    Frame { index: usize },
    /// Report that it is done.
    Finish(SweepEvent),
}

/// A running export.
pub struct SweepRun {
    pub request: SweepRequest,
    pub written: usize,
}

impl SweepRun {
    /// Nothing written yet.
    pub fn new(request: SweepRequest) -> (r: SweepRun)
        ensures
            r.request == request,
            r.written == 0,
    {
        SweepRun { request, written: 0 }
    }

    /// What is done next: the frame after those written, or the end.
    pub fn next(&self) -> (r: SweepStep)
        requires
            self.written <= self.request.frames,
        ensures
            if self.written < self.request.frames {
                r matches SweepStep::Frame { index } && index == self.written
            } else {
                r matches SweepStep::Finish(SweepEvent::Finished { frames_written, dir })
                    && frames_written == self.request.frames && dir@ == self.request.out_dir@
            },
    {
        if self.written < self.request.frames {
            SweepStep::Frame { index: self.written }
        } else {
            SweepStep::Finish(
                SweepEvent::Finished {
                    frames_written: self.written,
                    dir: self.request.out_dir.clone(),
                },
            )
        }
    }

    /// A frame was written: reports progress.
    pub fn frame_written(&mut self) -> (r: SweepEvent)
        requires
            old(self).written < old(self).request.frames,
        ensures
            final(self).written == old(self).written + 1,
            final(self).request == old(self).request,
            r == (SweepEvent::Progress {
                done: final(self).written,
                total: old(self).request.frames,
            }),
    {
        self.written = self.written + 1;
        SweepEvent::Progress { done: self.written, total: self.request.frames }
    }
}

/// How a frame is rendered.
#[derive(Clone, Copy, Debug, PartialEq, Eq, Structural)]
pub enum FramePlan {
    /// Cut out the subject.
    CutOut { mask: MaskSettings },
    /// Draw the lines of the scene.
    Lines { edge: EdgeSettings },
    /// Draw the lines of the subject, which is cut out clean first.
    Outline { subject_mask: MaskSettings, edge: EdgeSettings },
}

/// How a frame is rendered, and which tensor is missing where it cannot be.
pub fn render_frame(settings: &ItemSettings, has_seg: bool, has_edges: bool) -> (r: Result<
    FramePlan,
    &'static str,
>)
    ensures
        match settings.line_mode {
            LineMode::Off => if has_seg {
                r == Ok::<FramePlan, &'static str>(
                    FramePlan::CutOut { mask: settings.mask_part() },
                )
            } else {
                r matches Err(m) && m@ == "LineMode::Off needs a cached seg tensor"@
            },
            LineMode::EdgesOnly => if has_edges {
                r == Ok::<FramePlan, &'static str>(FramePlan::Lines { edge: settings.edge_part() })
            } else {
                r matches Err(m) && m@ == "LineMode::EdgesOnly needs a cached edge tensor"@
            },
            LineMode::SubjectOutline => if !has_seg {
                r matches Err(m) && m@ == "SubjectOutline needs a cached seg tensor"@
            } else if !has_edges {
                r matches Err(m) && m@ == "SubjectOutline needs a cached edge tensor"@
            } else {
                r == Ok::<FramePlan, &'static str>(
                    FramePlan::Outline {
                        subject_mask: MaskSettings {
                            fill_style: FillStyle::Plain,
                            bg_effect: BgEffect::Plain,
                            ..settings.mask_part()
                        },
                        edge: settings.edge_part(),
                    },
                )
            },
        },
{
    match settings.line_mode {
        LineMode::Off => {
            if has_seg {
                Ok(FramePlan::CutOut { mask: settings.mask_settings() })
            } else {
                Err("LineMode::Off needs a cached seg tensor")
            }
        },
        LineMode::EdgesOnly => {
            if has_edges {
                Ok(FramePlan::Lines { edge: settings.edge_settings() })
            } else {
                Err("LineMode::EdgesOnly needs a cached edge tensor")
            }
        },
        LineMode::SubjectOutline => {
            if !has_seg {
                Err("SubjectOutline needs a cached seg tensor")
            } else if !has_edges {
                Err("SubjectOutline needs a cached edge tensor")
            } else {
                let mut subject_mask = settings.mask_settings();
                subject_mask.fill_style = FillStyle::Plain;
                subject_mask.bg_effect = BgEffect::Plain;
                Ok(FramePlan::Outline { subject_mask, edge: settings.edge_settings() })
            }
        },
    }
}

/// A sweep changes nothing but the setting it sweeps: the mode in which a frame
/// is rendered is that of the picture.
pub proof fn sweep_keeps_the_mode(base: ItemSettings, swept: ItemSettings, knob: SweepKnob, value: Scalar)
    requires
        swept == (match knob {
            SweepKnob::LineStrength => ItemSettings { line_strength: value, ..base },
            SweepKnob::Gamma => ItemSettings { gamma: value, ..base },
            SweepKnob::ComposeModeCycle => ItemSettings {
                compose_mode: swept.compose_mode,
                ..base
            },
            SweepKnob::LineStyleCycle => ItemSettings { line_style: swept.line_style, ..base },
            SweepKnob::FillStyleCycle => ItemSettings { fill_style: swept.fill_style, ..base },
        }),
    ensures
        swept.line_mode == base.line_mode,
        swept.input_transform == base.input_transform,
        swept.correction_hash == base.correction_hash,
{
}

/// A setting is gone through one by one, with a frame for each of its values, where it
/// has no range; one with a range has as many frames as were picked.
pub proof fn every_value_has_a_frame(ui: SweepUiState, tables: CycleTables)
    requires
        tables.wf(),
    ensures
        ui.knob is LineStrength || ui.knob is Gamma ==> ui.knob.cycle(&tables) is None
            && ui.frame_count(&tables) == ui.frames,
        ui.knob is ComposeModeCycle ==> ui.frame_count(&tables) == tables.compose_modes@.len(),
        ui.knob is LineStyleCycle ==> ui.frame_count(&tables) == tables.line_styles@.len(),
        ui.knob is FillStyleCycle ==> ui.frame_count(&tables) == tables.fill_styles@.len(),
        !(ui.knob is LineStrength || ui.knob is Gamma) ==> ui.frame_count(&tables) >= 1,
{
    let a = tables.compose_modes@.len();
    let b = tables.line_styles@.len();
    let c = tables.fill_styles@.len();
    assert(a == tables.compose_modes.len() && b == tables.line_styles.len() && c
        == tables.fill_styles.len());
}

/// A failure is told with what the system said of it, and with the frame or the file
/// that it is about.
pub proof fn frame_failures_say_why(f: FrameFailure)
    ensures
        f matches FrameFailure::CreateDir { error } ==> error@.is_suffix_of(frame_failure_text(f)),
        f matches FrameFailure::Render { frame, error } ==> ("frame "@ + decimal(
            frame as nat,
        )).is_prefix_of(frame_failure_text(f)) && error@.is_suffix_of(frame_failure_text(f)),
        f matches FrameFailure::Encode { frame, error } ==> ("encode frame "@ + decimal(
            frame as nat,
        )).is_prefix_of(frame_failure_text(f)) && error@.is_suffix_of(frame_failure_text(f)),
        f matches FrameFailure::Write { path, error } ==> ("write "@ + path@).is_prefix_of(
            frame_failure_text(f),
        ) && error@.is_suffix_of(frame_failure_text(f)),
{
    let t = frame_failure_text(f);
    match f {
        FrameFailure::CreateDir { error } => {
            assert(t.subrange(t.len() - error@.len(), t.len() as int) =~= error@);
        },
        FrameFailure::Render { frame, error } => {
            let head = "frame "@ + decimal(frame as nat);
            assert(t.subrange(0, head.len() as int) =~= head);
            assert(t.subrange(t.len() - error@.len(), t.len() as int) =~= error@);
        },
        FrameFailure::Encode { frame, error } => {
            let head = "encode frame "@ + decimal(frame as nat);
            assert(t.subrange(0, head.len() as int) =~= head);
            assert(t.subrange(t.len() - error@.len(), t.len() as int) =~= error@);
        },
        FrameFailure::Write { path, error } => {
            let head = "write "@ + path@;
            assert(t.subrange(0, head.len() as int) =~= head);
            assert(t.subrange(t.len() - error@.len(), t.len() as int) =~= error@);
        },
    }
}

proof fn zeros_count_nothing(z: Seq<char>, s: Seq<char>)
    requires
        forall|i: int| 0 <= i < z.len() ==> z[i] == '0',
    ensures
        value_of(z + s) == value_of(s),
    decreases z.len() + s.len(),
{
    if s.len() > 0 {
        assert((z + s).drop_last() =~= z + s.drop_last());
        zeros_count_nothing(z, s.drop_last());
    } else if z.len() > 0 {
        assert((z + s).drop_last() =~= z.drop_last() + s);
        assert((z + s).last() == z.last());
        zeros_count_nothing(z.drop_last(), s);
    } else {
        assert(z + s =~= s);
    }
}

/// The file of a frame is named by the frame's number, so that no two frames share
/// one, and each name has four digits or more.
pub proof fn frames_have_files_of_their_own(i: nat, j: nat)
    ensures
        value_of(decimal4(i)) == i,
        decimal4(i).len() >= 4,
        decimal4(i) + ".png"@ == decimal4(j) + ".png"@ ==> i == j,
{
    frame_numbers_are_read_back(i);
    frame_numbers_are_read_back(j);
    let a = decimal4(i) + ".png"@;
    let b = decimal4(j) + ".png"@;
    assert(a.subrange(0, a.len() - ".png"@.len()) =~= decimal4(i));
    assert(b.subrange(0, b.len() - ".png"@.len()) =~= decimal4(j));
}

proof fn frame_numbers_are_read_back(n: nat)
    ensures
        value_of(decimal4(n)) == n,
        decimal4(n).len() >= 4,
{
    filled_decimals_stand_for_their_number(n);
    decimals_stand_for_their_number(n);
    let k = decimal4(n).len() - decimal(n).len();
    if k > 0 {
        let z = decimal4(n).subrange(0, k);
        assert(decimal4(n) =~= z + decimal4(n).skip(k));
        zeros_count_nothing(z, decimal(n));
    } else {
        assert(k == 0);
        assert(decimal4(n).skip(0) =~= decimal4(n));
    }
}

} // verus!
