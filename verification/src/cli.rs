//! Command line: what the arguments ask for, which inputs are taken, where
//! results go, what is printed and with which code the program ends.
use vstd::prelude::*;
use crate::paths::{
    extensions_are_found, file_name, file_stem, join_path, joined, joined_names_are_found,
    names_are_found, stem_of, tidy_dir, with_file_name, with_name,
};
use crate::pipeline::{
    default_mask_settings, BgImageFit, ComposeMode, EdgeScale, EdgeSettings, InputTransform,
    LineMode, LineStyle, MaskSettings, ModelKind, ProgressStage, Rgb, Scalar,
};
use crate::text::{
    chars_of, decimal, hex_digit, hex_pair, hex_pairs_are_two_digits, join2, join3, read_hex_pair,
    to_decimal,
};

verus! {

/// Model named on the command line.
#[derive(Clone, Copy, Debug, PartialEq, Eq, Structural)]
pub enum CliModel {
    /// Small and fast.
    Silueta,
    /// Larger, higher quality.
    U2net,
    /// Best detail; the default.
    BirefnetLite,
}

impl CliModel {
    /// The segmentation model it stands for.
    pub open spec fn kind(self) -> ModelKind {
        match self {
            CliModel::Silueta => ModelKind::Silueta,
            CliModel::U2net => ModelKind::U2net,
            CliModel::BirefnetLite => ModelKind::BiRefNetLite,
        }
    }
}

impl From<CliModel> for ModelKind {
    fn from(m: CliModel) -> (r: ModelKind) {
        match m {
            CliModel::Silueta => ModelKind::Silueta,
            CliModel::U2net => ModelKind::U2net,
            CliModel::BirefnetLite => ModelKind::BiRefNetLite,
        }
    }
}

impl vstd::std_specs::convert::FromSpecImpl<CliModel> for ModelKind {
    open spec fn obeys_from_spec() -> bool {
        true
    }

    open spec fn from_spec(m: CliModel) -> ModelKind {
        m.kind()
    }
}

/// What is done with a picture whose side is longer than `LARGE_IMAGE_LIMIT`.
#[derive(Clone, Copy, Debug, PartialEq, Eq, Structural)]
pub enum LargeImagePolicy {
    /// Shrink it to `DOWNSCALE_TARGET` first.
    Downscale,
    /// Process it at its own size.
    Process,
}

/// Longest side, in pixels, that counts as ordinary.
pub const LARGE_IMAGE_LIMIT: u32 = 8000;

/// Longest side, in pixels, of a picture that was shrunk.
pub const DOWNSCALE_TARGET: u32 = 4096;

/// The arguments that processing depends on.
pub struct Cli {
    pub inputs: Vec<String>,
    pub output: Option<String>,
    pub model: CliModel,
    pub jobs: usize,
    pub large_image: LargeImagePolicy,
    pub force: bool,
    pub quiet: bool,
    pub gamma: Scalar,
    pub threshold: Option<Scalar>,
    pub edge_shift: Scalar,
    pub refine_edges: bool,
    pub lines: bool,
    pub lines_after_bg: bool,
    pub line_strength: Scalar,
    pub line_color: Option<String>,
    pub line_scale: EdgeScale,
    pub bg_color: Option<String>,
    pub bg_image: Option<String>,
    pub bg_image_fit: BgImageFit,
    pub cpu: bool,
    pub inpaint: bool,
    pub mask: Option<String>,
}

/// A colour written as six hexadecimal digits, with or without a leading `#`.
pub open spec fn hex_color(s: Seq<char>) -> Option<Rgb> {
    let d = if s.len() > 0 && s[0] == '#' {
        s.skip(1)
    } else {
        s
    };
    if d.len() != 6 {
        None
    } else {
        match (hex_pair(d[0], d[1]), hex_pair(d[2], d[3]), hex_pair(d[4], d[5])) {
            (Some(r), Some(g), Some(b)) => Some(Rgb { r: r as u8, g: g as u8, b: b as u8 }),
            _ => None,
        }
    }
}

/// Reads a colour such as `ff8000` or `#ff8000`.
pub fn parse_hex_color(s: &str) -> (r: Option<Rgb>)
    ensures
        r == hex_color(s@),
{
    let v = chars_of(s);
    let at: usize = if v.len() > 0 && v[0] == '#' {
        1
    } else {
        0
    };
    if v.len() - at != 6 {
        return None;
    }
    match (
        read_hex_pair(v[at], v[at + 1]),
        read_hex_pair(v[at + 2], v[at + 3]),
        read_hex_pair(v[at + 4], v[at + 5]),
    ) {
        (Some(r), Some(g), Some(b)) => Some(Rgb { r, g, b }),
        _ => None,
    }
}

/// An optional colour argument. One that cannot be read counts as not given.
pub open spec fn color_argument(s: Option<String>) -> Option<Rgb> {
    match s {
        Some(t) => hex_color(t@),
        None => None,
    }
}

/// Reads an optional colour argument.
fn read_color_argument(s: &Option<String>) -> (r: Option<Rgb>)
    ensures
        r == color_argument(*s),
{
    match s {
        Some(t) => parse_hex_color(t.as_str()),
        None => None,
    }
}

/// Settings of a whole batch.
#[derive(Clone, Copy, Debug, PartialEq, Eq, Structural)]
pub struct BatchSettings {
    pub model: ModelKind,
    pub mask: MaskSettings,
    pub line_mode: LineMode,
    pub edge: EdgeSettings,
    pub bg_color: Option<Rgb>,
}

impl Cli {
    /// Mask settings that the arguments give; the rest are defaults.
    pub fn mask_settings(&self) -> (r: MaskSettings)
        ensures
            r == (MaskSettings {
                gamma: self.gamma,
                threshold: self.threshold,
                edge_shift: self.edge_shift,
                refine_edges: self.refine_edges,
                ..default_mask_settings()
            }),
    {
        let mut r = MaskSettings::default();
        r.gamma = self.gamma;
        r.threshold = self.threshold;
        r.edge_shift = self.edge_shift;
        r.refine_edges = self.refine_edges;
        r
    }

    /// Line mode: lines after background removal win over lines alone.
    pub fn line_mode(&self) -> (r: LineMode)
        ensures
            r == if self.lines_after_bg {
                LineMode::SubjectOutline
            } else if self.lines {
                LineMode::EdgesOnly
            } else {
                LineMode::Off
            },
    {
        if self.lines_after_bg {
            LineMode::SubjectOutline
        } else if self.lines {
            LineMode::EdgesOnly
        } else {
            LineMode::Off
        }
    }

    /// Everything the worker is told about how to process the batch.
    pub fn batch_settings(&self) -> (r: BatchSettings)
        ensures
            r.model == self.model.kind(),
            r.mask == (MaskSettings {
                gamma: self.gamma,
                threshold: self.threshold,
                edge_shift: self.edge_shift,
                refine_edges: self.refine_edges,
                ..default_mask_settings()
            }),
            r.line_mode == if self.lines_after_bg {
                LineMode::SubjectOutline
            } else if self.lines {
                LineMode::EdgesOnly
            } else {
                LineMode::Off
            },
            r.edge == (EdgeSettings {
                line_strength: self.line_strength,
                solid_line_color: color_argument(self.line_color),
                edge_thickness: 0,
                edge_scale: self.line_scale,
                compose_mode: ComposeMode::LinesOnly,
                line_style: LineStyle::Solid,
                input_transform: InputTransform::Plain,
            }),
            r.bg_color == color_argument(self.bg_color),
    {
        BatchSettings {
            model: ModelKind::from(self.model),
            mask: self.mask_settings(),
            line_mode: self.line_mode(),
            edge: EdgeSettings {
                line_strength: self.line_strength,
                solid_line_color: read_color_argument(&self.line_color),
                edge_thickness: 0,
                edge_scale: self.line_scale,
                compose_mode: ComposeMode::LinesOnly,
                line_style: LineStyle::Solid,
                input_transform: InputTransform::Plain,
            },
            bg_color: read_color_argument(&self.bg_color),
        }
    }

    /// What the arguments ask for.
    pub fn plan(&self) -> (r: RemovePlan)
        ensures
            r == if self.inputs@.len() == 0 {
                RemovePlan::NoInputs
            } else {
                RemovePlan::Run {
                    create_output_dir: self.output is Some && self.inputs@.len() > 1,
                    erase: self.inpaint,
                }
            },
    {
        if self.inputs.len() == 0 {
            RemovePlan::NoInputs
        } else {
            RemovePlan::Run {
                create_output_dir: self.output.is_some() && self.inputs.len() > 1,
                erase: self.inpaint,
            }
        }
    }

    /// Checks the arguments of object removal: exactly one input, and a mask.
    pub fn check_inpaint(&self) -> (r: Result<(), String>)
        ensures
            match r {
                Ok(_) => self.inputs@.len() == 1 && self.mask is Some,
                Err(e) => e@ == if self.inputs@.len() != 1 {
                    "--inpaint accepts exactly one input image (got "@ + decimal(
                        self.inputs@.len(),
                    ) + ")"@
                } else {
                    "--inpaint requires --mask <path>"@
                },
            },
            r is Ok <==> self.inputs@.len() == 1 && self.mask is Some,
    {
        if self.inputs.len() != 1 {
            let n = to_decimal(self.inputs.len() as u64);
            return Err(
                join3("--inpaint accepts exactly one input image (got ", n.as_str(), ")"),
            );
        }
        if self.mask.is_none() {
            return Err("--inpaint requires --mask <path>".to_owned());
        }
        Ok(())
    }
}

/// What an invocation does.
#[derive(Clone, Copy, Debug, PartialEq, Eq, Structural)]
pub enum RemovePlan {
    /// Nothing to do: the program ends with code one.
    NoInputs,
    /// Process the inputs; an output directory is created first where several
    /// results go into one.
    Run { create_output_dir: bool, erase: bool },
}

/// Name of a result: the stem of its input and a suffix.
pub open spec fn result_name(input: Seq<char>, suffix: Seq<char>) -> Seq<char> {
    match file_name(input) {
        Some(name) => stem_of(name) + suffix,
        None => suffix,
    }
}

/// Where a result goes: into the output directory, to the output file itself, or
/// beside its input.
pub open spec fn result_path(
    input: Seq<char>,
    output: Option<Seq<char>>,
    into_dir: bool,
    suffix: Seq<char>,
) -> Seq<char> {
    match output {
        Some(out) => if into_dir {
            joined(out, result_name(input, suffix))
        } else {
            out
        },
        None => with_name(input, result_name(input, suffix)),
    }
}

/// View of an optional text.
pub open spec fn text_view(s: Option<String>) -> Option<Seq<char>> {
    match s {
        Some(t) => Some(t@),
        None => None,
    }
}

/// Where a result goes. The output is a directory for a batch or where it names
/// an existing directory.
pub fn output_path_with_suffix(
    input: &str,
    output: &Option<String>,
    is_batch: bool,
    output_is_dir: bool,
    suffix: &str,
) -> (r: String)
    ensures
        r@ == result_path(input@, text_view(*output), is_batch || output_is_dir, suffix@),
{
    let name = match file_stem(input) {
        Some(stem) => join2(stem.as_str(), suffix),
        None => suffix.to_owned(),
    };
    match output {
        Some(out) => {
            if is_batch || output_is_dir {
                join_path(out.as_str(), name.as_str())
            } else {
                out.clone()
            }
        },
        None => with_file_name(input, name.as_str()),
    }
}

/// Where a picture without background goes.
pub fn output_path(input: &str, output: &Option<String>, is_batch: bool, output_is_dir: bool) -> (r:
    String)
    ensures
        r@ == result_path(
            input@,
            text_view(*output),
            is_batch || output_is_dir,
            "_nobg.png"@,
        ),
{
    output_path_with_suffix(input, output, is_batch, output_is_dir, "_nobg.png")
}

impl Cli {
    /// Where the result of an input goes: several results go into the output
    /// directory, a single one to the output file unless that is a directory.
    pub fn output_for(&self, idx: usize, output_is_dir: bool) -> (r: String)
        requires
            idx < self.inputs@.len(),
        ensures
            r@ == result_path(
                self.inputs@[idx as int]@,
                text_view(self.output),
                self.inputs@.len() > 1 || output_is_dir,
                "_nobg.png"@,
            ),
    {
        output_path(
            self.inputs[idx].as_str(),
            &self.output,
            self.inputs.len() > 1,
            output_is_dir,
        )
    }
}

/// Refuses to replace an existing result unless that was asked for.
pub fn check_overwrite(out: &str, exists: bool, force: bool) -> (r: Result<(), String>)
    ensures
        r is Err <==> exists && !force,
        r matches Err(e) ==> e@ == "output '"@ + out@
            + "' already exists. Use --force to overwrite."@,
{
    if exists && !force {
        Err(join3("output '", out, "' already exists. Use --force to overwrite."))
    } else {
        Ok(())
    }
}

/// Whether a picture counts as large.
pub open spec fn is_large(width: u32, height: u32) -> bool {
    width > LARGE_IMAGE_LIMIT || height > LARGE_IMAGE_LIMIT
}

/// How a picture is loaded, and the warning that goes with it.
pub struct LoadPlan {
    /// Longest side to shrink to, if at all.
    pub downscale_to: Option<u32>,
    /// Warning for the user.
    pub warning: Option<String>,
}

/// How a picture of the given size is loaded.
pub fn load_with_policy(
    path: &str,
    width: u32,
    height: u32,
    policy: LargeImagePolicy,
    quiet: bool,
) -> (r: LoadPlan)
    ensures
        r.downscale_to == if is_large(width, height) && policy == LargeImagePolicy::Downscale {
            Some(DOWNSCALE_TARGET)
        } else {
            None
        },
        text_view(r.warning) == if !is_large(width, height) || quiet {
            None
        } else if policy == LargeImagePolicy::Downscale {
            Some(
                "warning: '"@ + path@
                    + "' exceeds 8000px. Downscaling to 4096px (use --large-image=process to skip)."@,
            )
        } else {
            Some(
                "warning: '"@ + path@
                    + "' exceeds 8000px. Processing at full size (--large-image=process)."@,
            )
        },
{
    let large = width > LARGE_IMAGE_LIMIT || height > LARGE_IMAGE_LIMIT;
    if !large {
        return LoadPlan { downscale_to: None, warning: None };
    }
    match policy {
        LargeImagePolicy::Downscale => LoadPlan {
            downscale_to: Some(DOWNSCALE_TARGET),
            warning: if quiet {
                None
            } else {
                Some(
                    join3(
                        "warning: '",
                        path,
                        "' exceeds 8000px. Downscaling to 4096px (use --large-image=process to skip).",
                    ),
                )
            },
        },
        LargeImagePolicy::Process => LoadPlan {
            downscale_to: None,
            warning: if quiet {
                None
            } else {
                Some(
                    join3(
                        "warning: '",
                        path,
                        "' exceeds 8000px. Processing at full size (--large-image=process).",
                    ),
                )
            },
        },
    }
}

/// Label of a pipeline stage.
pub open spec fn stage_text(stage: ProgressStage) -> Seq<char> {
    match stage {
        ProgressStage::LoadingModel => "Loading model..."@,
        ProgressStage::LoadingModelCpuFallback => "GPU warming up \u{2014} using CPU..."@,
        ProgressStage::Decode => "Decoding..."@,
        ProgressStage::Resize => "Resizing..."@,
        ProgressStage::Normalize => "Normalizing..."@,
        ProgressStage::Infer => "Inferring..."@,
        ProgressStage::Postprocess => "Postprocessing..."@,
        ProgressStage::Alpha => "Applying alpha..."@,
    }
}

/// Label of a pipeline stage.
pub fn stage_label(stage: ProgressStage) -> (r: &'static str)
    ensures
        r@ == stage_text(stage),
{
    match stage {
        ProgressStage::LoadingModel => "Loading model...",
        ProgressStage::LoadingModelCpuFallback => "GPU warming up \u{2014} using CPU...",
        ProgressStage::Decode => "Decoding...",
        ProgressStage::Resize => "Resizing...",
        ProgressStage::Normalize => "Normalizing...",
        ProgressStage::Infer => "Inferring...",
        ProgressStage::Postprocess => "Postprocessing...",
        ProgressStage::Alpha => "Applying alpha...",
    }
}

/// What is done with an input of a batch.
#[derive(Clone, Copy, Debug, PartialEq, Eq, Structural)]
pub enum IntakeStep {
    /// Shrink it into a temporary file and process that.
    Shrink,
    /// Process the file itself.
    AsIs,
    /// It is no picture.
    Reject,
}

/// Inputs taken into a batch so far.
pub struct BatchIntake {
    /// Number of inputs looked at.
    pub seen: usize,
    /// Which inputs were taken.
    pub indices: Vec<u64>,
    /// The file to process for each of them.
    pub paths: Vec<String>,
    /// Number of inputs that could not be taken.
    pub failed: usize,
}

impl BatchIntake {
    /// Every input seen was taken or counted as failed, and the taken ones stand
    /// in input order.
    pub open spec fn wf(&self) -> bool {
        &&& self.indices@.len() == self.paths@.len()
        &&& self.indices@.len() + self.failed == self.seen
        &&& forall|i: int| 0 <= i < self.indices@.len() ==> #[trigger] self.indices@[i] < self.seen
        &&& forall|i: int, j: int|
            0 <= i < j < self.indices@.len() ==> self.indices@[i] < self.indices@[j]
    }

    /// Nothing looked at yet.
    pub fn new() -> (r: BatchIntake)
        ensures
            r.wf(),
            r.seen == 0,
            r.indices@.len() == 0,
    {
        BatchIntake { seen: 0, indices: Vec::new(), paths: Vec::new(), failed: 0 }
    }

    /// What is done with an input, from the size read from its header.
    pub fn decide(dims: Option<(u32, u32)>, policy: LargeImagePolicy) -> (r: IntakeStep)
        ensures
            r == match dims {
                None => IntakeStep::Reject,
                Some((w, h)) => if policy == LargeImagePolicy::Downscale && is_large(w, h) {
                    IntakeStep::Shrink
                } else {
                    IntakeStep::AsIs
                },
            },
    {
        match dims {
            None => IntakeStep::Reject,
            Some((w, h)) => {
                if policy == LargeImagePolicy::Downscale && (w > LARGE_IMAGE_LIMIT || h
                    > LARGE_IMAGE_LIMIT) {
                    IntakeStep::Shrink
                } else {
                    IntakeStep::AsIs
                }
            },
        }
    }

    /// Records the next input: the file to process for it, or `None` when it
    /// could not be taken.
    pub fn record(&mut self, file: Option<String>)
        requires
            old(self).wf(),
            old(self).seen < usize::MAX,
        ensures
            final(self).wf(),
            final(self).seen == old(self).seen + 1,
            match file {
                Some(path) => {
                    &&& final(self).indices@ == old(self).indices@.push(old(self).seen as u64)
                    &&& final(self).paths@ == old(self).paths@.push(path)
                    &&& final(self).failed == old(self).failed
                },
                None => {
                    &&& final(self).indices@ == old(self).indices@
                    &&& final(self).paths@ == old(self).paths@
                    &&& final(self).failed == old(self).failed + 1
                },
            },
    {
        match file {
            Some(path) => {
                self.indices.push(self.seen as u64);
                self.paths.push(path);
            },
            None => {
                self.failed += 1;
            },
        }
        self.seen += 1;
    }
}

/// The inputs taken into a batch are distinct, as a batch run needs them.
pub proof fn intake_indices_are_distinct(intake: BatchIntake)
    requires
        intake.wf(),
    ensures
        intake.indices@.no_duplicates(),
{
}

/// Name of the temporary file for a shrunk input.
pub fn shrunk_name(index: usize) -> (r: String)
    ensures
        r@ == "cli_ds_"@ + decimal(index as nat) + ".img"@,
{
    let n = to_decimal(index as u64);
    join3("cli_ds_", n.as_str(), ".img")
}

/// What is put behind a cut-out.
#[derive(Clone, Copy, Debug, PartialEq, Eq, Structural)]
pub enum Background {
    Picture,
    Colour { rgb: Rgb },
    Transparent,
}

/// What is put behind a cut-out: a picture wins over a colour.
pub fn background(has_picture: bool, colour: Option<Rgb>) -> (r: Background)
    ensures
        r == if has_picture {
            Background::Picture
        } else {
            match colour {
                Some(rgb) => Background::Colour { rgb },
                None => Background::Transparent,
            }
        },
{
    if has_picture {
        Background::Picture
    } else {
        match colour {
            Some(rgb) => Background::Colour { rgb },
            None => Background::Transparent,
        }
    }
}

/// How the saving of one result ended.
pub enum SaveOutcome {
    /// Written; the text gives the seconds it took, to one place.
    Written { seconds: String },
    /// Not replaced, with the reason.
    Blocked { reason: String },
    EncodeFailed { error: String },
    WriteFailed { error: String },
    /// There was no result to save.
    NotProcessed { error: String },
}

/// Where a line for the user goes.
#[derive(Clone, Copy, Debug, PartialEq, Eq, Structural)]
pub enum Channel {
    /// Last message of the input's progress line.
    Spinner,
    Stdout,
    Stderr,
}

/// Counts of a batch.
#[derive(Clone, Copy, Debug, PartialEq, Eq, Structural)]
pub struct BatchTally {
    pub succeeded: usize,
    pub failed: usize,
}

/// Numbers of results that were written and of those that were not, after one more.
pub open spec fn counted(counts: (nat, nat), outcome: SaveOutcome) -> (nat, nat) {
    if outcome is Written {
        (counts.0 + 1, counts.1)
    } else {
        (counts.0, counts.1 + 1)
    }
}

/// Numbers of results that were written and of those that were not, after a number
/// of them.
pub open spec fn counted_all(counts: (nat, nat), outcomes: Seq<SaveOutcome>) -> (nat, nat)
    decreases outcomes.len(),
{
    if outcomes.len() == 0 {
        counts
    } else {
        counted(counted_all(counts, outcomes.drop_last()), outcomes.last())
    }
}

/// Every input is counted once: as taken and written, as taken and not written, or
/// as one that could not be taken.
pub proof fn every_input_is_counted(intake: BatchIntake, outcomes: Seq<SaveOutcome>)
    requires
        intake.wf(),
        outcomes.len() == intake.indices@.len(),
    ensures
        ({
            let counts = counted_all((0, intake.failed as nat), outcomes);
            counts.0 + counts.1 == intake.seen
        }),
{
    total_grows_by_one((0, intake.failed as nat), outcomes);
}

proof fn total_grows_by_one(counts: (nat, nat), outcomes: Seq<SaveOutcome>)
    ensures
        counted_all(counts, outcomes).0 + counted_all(counts, outcomes).1 == counts.0 + counts.1
            + outcomes.len(),
    decreases outcomes.len(),
{
    if outcomes.len() > 0 {
        total_grows_by_one(counts, outcomes.drop_last());
    }
}

/// Where and what the user is told about one result.
pub open spec fn save_report(
    outcome: SaveOutcome,
    input: Seq<char>,
    spinner: bool,
    quiet: bool,
) -> Option<(Channel, Seq<char>)> {
    match outcome {
        SaveOutcome::Written { seconds } => {
            let line = "\u{2713} "@ + input + " ("@ + seconds@ + "s)"@;
            if spinner {
                Some((Channel::Spinner, line))
            } else if !quiet {
                Some((Channel::Stdout, line))
            } else {
                None
            }
        },
        SaveOutcome::Blocked { reason } => if spinner {
            Some((Channel::Spinner, "X "@ + input + " \u{2014} "@ + reason@))
        } else if !quiet {
            Some((Channel::Stderr, "skipped '"@ + input + "': "@ + reason@))
        } else {
            None
        },
        SaveOutcome::EncodeFailed { error } => if spinner {
            Some((Channel::Spinner, "X "@ + input + " \u{2014} encode error: "@ + error@))
        } else {
            None
        },
        SaveOutcome::WriteFailed { error } => if spinner {
            Some((Channel::Spinner, "X "@ + input + " \u{2014} write error: "@ + error@))
        } else {
            Some((Channel::Stderr, "error writing '"@ + input + "': "@ + error@))
        },
        SaveOutcome::NotProcessed { error } => if spinner {
            Some((Channel::Spinner, "X "@ + input + " \u{2014} "@ + error@))
        } else {
            Some((Channel::Stderr, "error processing '"@ + input + "': "@ + error@))
        },
    }
}

/// A line for the user and where it goes.
pub struct Report {
    pub channel: Channel,
    pub line: String,
}

/// View of an optional report.
pub open spec fn report_view(r: Option<Report>) -> Option<(Channel, Seq<char>)> {
    match r {
        Some(x) => Some((x.channel, x.line@)),
        None => None,
    }
}

/// Four texts one after the other, as a report.
fn report(channel: Channel, a: &str, b: &str, c: &str, d: &str) -> (r: Option<Report>)
    ensures
        report_view(r) == Some((channel, a@ + b@ + c@ + d@)),
{
    Some(Report { channel, line: join3(a, b, c).concat(d) })
}

impl BatchTally {
    /// The counts as numbers.
    pub open spec fn counts(self) -> (nat, nat) {
        (self.succeeded as nat, self.failed as nat)
    }

    /// Counts before any result is saved: only inputs that could not be taken.
    pub fn new(load_failures: usize) -> (r: BatchTally)
        ensures
            r == (BatchTally { succeeded: 0, failed: load_failures }),
    {
        BatchTally { succeeded: 0, failed: load_failures }
    }

    /// Counts one result and says what the user is told about it.
    pub fn record(&mut self, outcome: &SaveOutcome, input: &str, spinner: bool, quiet: bool) -> (r:
        Option<Report>)
        requires
            old(self).succeeded < usize::MAX,
            old(self).failed < usize::MAX,
        ensures
            final(self).counts() == counted(old(self).counts(), *outcome),
            report_view(r) == save_report(*outcome, input@, spinner, quiet),
    {
        match outcome {
            SaveOutcome::Written { seconds } => {
                self.succeeded += 1;
                if spinner || !quiet {
                    let channel = if spinner {
                        Channel::Spinner
                    } else {
                        Channel::Stdout
                    };
                    let line = join3("\u{2713} ", input, " (").concat(seconds.as_str()).concat("s)");
                    Some(Report { channel, line })
                } else {
                    None
                }
            },
            SaveOutcome::Blocked { reason } => {
                self.failed += 1;
                if spinner {
                    report(Channel::Spinner, "X ", input, " \u{2014} ", reason.as_str())
                } else if !quiet {
                    report(Channel::Stderr, "skipped '", input, "': ", reason.as_str())
                } else {
                    None
                }
            },
            SaveOutcome::EncodeFailed { error } => {
                self.failed += 1;
                if spinner {
                    report(Channel::Spinner, "X ", input, " \u{2014} encode error: ", error.as_str())
                } else {
                    None
                }
            },
            SaveOutcome::WriteFailed { error } => {
                self.failed += 1;
                if spinner {
                    report(Channel::Spinner, "X ", input, " \u{2014} write error: ", error.as_str())
                } else {
                    report(Channel::Stderr, "error writing '", input, "': ", error.as_str())
                }
            },
            SaveOutcome::NotProcessed { error } => {
                self.failed += 1;
                if spinner {
                    report(Channel::Spinner, "X ", input, " \u{2014} ", error.as_str())
                } else {
                    report(Channel::Stderr, "error processing '", input, "': ", error.as_str())
                }
            },
        }
    }

    /// Last line of a batch.
    pub fn summary(&self) -> (r: String)
        ensures
            r@ == decimal(self.succeeded as nat) + " succeeded, "@ + decimal(self.failed as nat)
                + " failed."@,
    {
        let a = to_decimal(self.succeeded as u64);
        let b = to_decimal(self.failed as u64);
        join3(a.as_str(), " succeeded, ", b.as_str()).concat(" failed.")
    }

    /// Exit code: zero when all went well, one when nothing did, two otherwise.
    pub fn exit_code(&self) -> (r: i32)
        ensures
            r == if self.failed == 0 {
                0i32
            } else if self.succeeded == 0 {
                1i32
            } else {
                2i32
            },
    {
        if self.failed == 0 {
            0
        } else if self.succeeded == 0 {
            1
        } else {
            2
        }
    }
}

/// A pair of numbers in round brackets.
pub open spec fn pair_text(a: u32, b: u32) -> Seq<char> {
    "("@ + decimal(a as nat) + ", "@ + decimal(b as nat) + ")"@
}

/// A pair of numbers in round brackets.
fn pair_string(a: u32, b: u32) -> (r: String)
    ensures
        r@ == pair_text(a, b),
{
    let x = to_decimal(a as u64);
    let y = to_decimal(b as u64);
    join3("(", x.as_str(), ", ").concat(y.as_str()).concat(")")
}

/// Checks that a mask has the size of its picture.
pub fn check_mask_size(mask: (u32, u32), image: (u32, u32)) -> (r: Result<(), String>)
    ensures
        r is Ok <==> mask == image,
        r matches Err(e) ==> e@ == "mask "@ + pair_text(mask.0, mask.1)
            + " dimensions don't match image "@ + pair_text(image.0, image.1),
{
    if mask.0 == image.0 && mask.1 == image.1 {
        Ok(())
    } else {
        let m = pair_string(mask.0, mask.1);
        let i = pair_string(image.0, image.1);
        Err(join3("mask ", m.as_str(), " dimensions don't match image ").concat(i.as_str()))
    }
}

/// One run of the eraser: which files it takes, and the size of the picture once that
/// was read.
pub struct EraseRun {
    pub input: String,
    pub mask: String,
    pub out: String,
    pub image: (u32, u32),
    pub force: bool,
    pub quiet: bool,
}

/// What came of a step of the eraser.
pub enum EraseEvent {
    /// Whether the output is there already.
    Looked(bool),
    /// The picture was read, with this size.
    ImageRead(Result<(u32, u32), String>),
    /// The mask was read, with this size.
    MaskRead(Result<(u32, u32), String>),
    Painted(Result<(), String>),
    Saved(Result<(), String>),
}

/// What the eraser does next.
pub enum EraseAction {
    ReadImage,
    ReadMask,
    /// Paint over what the mask marks. The line is printed first, unless the run is
    /// quiet.
    Paint(Option<String>),
    Save,
    /// The run ends with this code. The line is printed, where there is one.
    End { code: i32, line: Option<String> },
}

/// Whether a run ends with an error.
pub open spec fn fails_with(a: EraseAction, text: Seq<char>) -> bool {
    a matches EraseAction::End { code, line } && code == 1 && text_view(line) == Some(text)
}

/// What is said of a file that something failed on.
pub open spec fn failed_on(what: Seq<char>, file: Seq<char>, error: Seq<char>) -> Seq<char> {
    what + file + ": "@ + error
}

/// Ends a run with an error.
fn fail(text: String) -> (r: EraseAction)
    ensures
        fails_with(r, text@),
{
    EraseAction::End { code: 1, line: Some(text) }
}

/// Ends a run with an error on a file.
fn fail_on(what: &str, file: &str, error: &str) -> (r: EraseAction)
    ensures
        fails_with(r, failed_on(what@, file@, error@)),
{
    fail(join3(what, file, ": ").concat(error))
}

impl Cli {
    /// Starts the eraser on the only input and its mask. The result goes beside the
    /// input or where the output says.
    pub fn start_erase(&self, output_is_dir: bool) -> (r: Result<EraseRun, String>)
        ensures
            r is Ok <==> self.inputs@.len() == 1 && self.mask is Some,
            match r {
                Ok(run) => {
                    &&& run.input@ == self.inputs@[0]@
                    &&& Some(run.mask@) == text_view(self.mask)
                    &&& run.out@ == result_path(
                        self.inputs@[0]@,
                        text_view(self.output),
                        output_is_dir,
                        "_erased.png"@,
                    )
                    &&& run.force == self.force
                    &&& run.quiet == self.quiet
                },
                Err(e) => e@ == if self.inputs@.len() != 1 {
                    "--inpaint accepts exactly one input image (got "@ + decimal(
                        self.inputs@.len(),
                    ) + ")"@
                } else {
                    "--inpaint requires --mask <path>"@
                },
            },
    {
        match self.check_inpaint() {
            Ok(_) => {},
            Err(e) => {
                return Err(e);
            },
        }
        let mask = match &self.mask {
            Some(m) => m.clone(),
            None => {
                return Err("--inpaint requires --mask <path>".to_owned());
            },
        };
        let out = output_path_with_suffix(
            self.inputs[0].as_str(),
            &self.output,
            false,
            output_is_dir,
            "_erased.png",
        );
        Ok(
            EraseRun {
                input: self.inputs[0].clone(),
                mask,
                out,
                image: (0, 0),
                force: self.force,
                quiet: self.quiet,
            },
        )
    }
}

impl EraseRun {
    /// What comes after an event.
    pub open spec fn follows(self, event: EraseEvent, r: EraseAction) -> bool {
        match event {
            EraseEvent::Looked(exists) => if exists && !self.force {
                fails_with(
                    r,
                    "output '"@ + self.out@ + "' already exists. Use --force to overwrite."@,
                )
            } else {
                r is ReadImage
            },
            EraseEvent::ImageRead(read) => match read {
                Ok(_) => r is ReadMask,
                Err(e) => fails_with(r, failed_on("failed to read "@, self.input@, e@)),
            },
            EraseEvent::MaskRead(read) => match read {
                Ok(size) => if size == self.image {
                    r matches EraseAction::Paint(line) && text_view(line) == if self.quiet {
                        None
                    } else {
                        Some("Inpainting "@ + self.input@ + " (mask: "@ + self.mask@ + ")..."@)
                    }
                } else {
                    fails_with(
                        r,
                        "mask "@ + pair_text(size.0, size.1) + " dimensions don't match image "@
                            + pair_text(self.image.0, self.image.1),
                    )
                },
                Err(e) => fails_with(r, failed_on("failed to read mask "@, self.mask@, e@)),
            },
            EraseEvent::Painted(done) => match done {
                Ok(_) => r is Save,
                Err(e) => fails_with(r, "inpaint failed: "@ + e@),
            },
            EraseEvent::Saved(done) => match done {
                Ok(_) => r matches EraseAction::End { code, line } && code == 0 && text_view(line)
                    == if self.quiet {
                    None
                } else {
                    Some("Saved "@ + self.out@)
                },
                Err(e) => fails_with(r, failed_on("failed to save "@, self.out@, e@)),
            },
        }
    }

    /// Goes on after an event: the output must not be there already, then the picture
    /// and its mask are read, which must have the same size, then it is painted and
    /// saved. Every failure ends the run.
    pub fn step(&mut self, event: EraseEvent) -> (r: EraseAction)
        ensures
            old(self).follows(event, r),
            *final(self) == (EraseRun {
                image: match event {
                    EraseEvent::ImageRead(Ok(size)) => size,
                    _ => old(self).image,
                },
                ..*old(self)
            }),
    {
        match event {
            EraseEvent::Looked(exists) => match check_overwrite(
                self.out.as_str(),
                exists,
                self.force,
            ) {
                Ok(_) => EraseAction::ReadImage,
                Err(e) => fail(e),
            },
            EraseEvent::ImageRead(Ok(size)) => {
                self.image = size;
                EraseAction::ReadMask
            },
            EraseEvent::ImageRead(Err(e)) => fail_on(
                "failed to read ",
                self.input.as_str(),
                e.as_str(),
            ),
            EraseEvent::MaskRead(Ok(size)) => match check_mask_size(size, self.image) {
                Ok(_) => EraseAction::Paint(self.opening_line()),
                Err(e) => fail(e),
            },
            EraseEvent::MaskRead(Err(e)) => fail_on(
                "failed to read mask ",
                self.mask.as_str(),
                e.as_str(),
            ),
            EraseEvent::Painted(Ok(_)) => EraseAction::Save,
            EraseEvent::Painted(Err(e)) => fail(join2("inpaint failed: ", e.as_str())),
            EraseEvent::Saved(Ok(_)) => EraseAction::End { code: 0, line: self.closing_line() },
            EraseEvent::Saved(Err(e)) => fail_on("failed to save ", self.out.as_str(), e.as_str()),
        }
    }

    /// The line that is printed before painting.
    fn opening_line(&self) -> (r: Option<String>)
        ensures
            text_view(r) == if self.quiet {
                None
            } else {
                Some("Inpainting "@ + self.input@ + " (mask: "@ + self.mask@ + ")..."@)
            },
    {
        if self.quiet {
            return None;
        }
        let head = join3("Inpainting ", self.input.as_str(), " (mask: ");
        Some(join3(head.as_str(), self.mask.as_str(), ")..."))
    }

    /// The line that is printed after saving.
    fn closing_line(&self) -> (r: Option<String>)
        ensures
            text_view(r) == if self.quiet {
                None
            } else {
                Some("Saved "@ + self.out@)
            },
    {
        if self.quiet {
            None
        } else {
            Some(join2("Saved ", self.out.as_str()))
        }
    }
}

/// Nothing is painted unless the mask has the size of the picture, and nothing that
/// is there already is overwritten unless that was asked for.
pub proof fn erasing_is_guarded(run: EraseRun, event: EraseEvent, r: EraseAction)
    requires
        run.follows(event, r),
    ensures
        r is Paint ==> event == EraseEvent::MaskRead(Ok(run.image)),
        r is ReadImage ==> event == EraseEvent::Looked(false) || run.force,
        r matches EraseAction::End { code, .. } ==> (code == 0 <==> (event matches
            EraseEvent::Saved(done) && done is Ok)),
{
}

/// The model that is named is the model that is used.
pub proof fn named_models_are_used(a: CliModel, b: CliModel)
    ensures
        a.kind() == b.kind() <==> a == b,
        a == CliModel::Silueta <==> a.kind() == ModelKind::Silueta,
        a == CliModel::U2net <==> a.kind() == ModelKind::U2net,
        a == CliModel::BirefnetLite <==> a.kind() == ModelKind::BiRefNetLite,
{
}

/// A colour is read as it is written: two digits each for red, green and blue, in this
/// order, behind a hash or without one. Everything else is no colour.
pub proof fn colours_are_read_as_written(
    r1: char,
    r0: char,
    g1: char,
    g0: char,
    b1: char,
    b0: char,
)
    ensures
        ({
            let d = seq![r1, r0, g1, g0, b1, b0];
            let all = hex_digit(r1) is Some && hex_digit(r0) is Some && hex_digit(g1) is Some
                && hex_digit(g0) is Some && hex_digit(b1) is Some && hex_digit(b0) is Some;
            &&& hex_color(seq!['#'] + d) == if all {
                Some(
                    Rgb {
                        r: (16 * hex_digit(r1)->0 + hex_digit(r0)->0) as u8,
                        g: (16 * hex_digit(g1)->0 + hex_digit(g0)->0) as u8,
                        b: (16 * hex_digit(b1)->0 + hex_digit(b0)->0) as u8,
                    },
                )
            } else {
                None
            }
            &&& r1 != '#' ==> hex_color(d) == hex_color(seq!['#'] + d)
        }),
{
    let d = seq![r1, r0, g1, g0, b1, b0];
    assert((seq!['#'] + d).skip(1) =~= d);
    hex_pairs_are_two_digits(r1, r0);
    hex_pairs_are_two_digits(g1, g0);
    hex_pairs_are_two_digits(b1, b0);
}

/// A text of another length is no colour.
pub proof fn colours_have_six_digits(s: Seq<char>)
    ensures
        hex_color(s) is Some ==> s.len() == 6 || (s.len() == 7 && s[0] == '#'),
{
}

/// A result is named after its input: its name without the ending, and the suffix. It
/// lies beside the input, or in the output directory, and is never the input itself; a
/// single output file is taken as it is.
pub proof fn results_are_named_after_their_input(
    dir: Seq<char>,
    stem: Seq<char>,
    ext: Seq<char>,
    out: Seq<char>,
    into_dir: bool,
)
    requires
        dir.len() == 0 || dir.last() == '/',
        stem.len() > 0,
        forall|k: int| 0 <= k < stem.len() ==> stem[k] != '/',
        ext.len() > 0,
        forall|k: int| 0 <= k < ext.len() ==> ext[k] != '.' && ext[k] != '/',
    ensures
        ({
            let name = stem + seq!['.'] + ext;
            let input = dir + name;
            let result = stem + "_nobg.png"@;
            &&& result_name(input, "_nobg.png"@) == result
            &&& result != name
            &&& result_path(input, None, into_dir, "_nobg.png"@) == joined(tidy_dir(dir), result)
            &&& file_name(result_path(input, None, into_dir, "_nobg.png"@)) == Some(result)
            &&& result_path(input, Some(out), true, "_nobg.png"@) == joined(out, result)
            &&& file_name(result_path(input, Some(out), true, "_nobg.png"@)) == Some(result)
            &&& result_path(input, Some(out), false, "_nobg.png"@) == out
        }),
{
    let name = stem + seq!['.'] + ext;
    let result = stem + "_nobg.png"@;
    assert forall|k: int| 0 <= k < name.len() implies name[k] != '/' by {
        if k < stem.len() {
            assert(name[k] == stem[k]);
        } else if k > stem.len() {
            assert(name[k] == ext[k - stem.len() - 1]);
        }
    }
    assert(name.len() >= 3);
    names_are_found(dir, name);
    extensions_are_found(stem, ext);
    reveal_strlit("_nobg.png");
    assert forall|k: int| 0 <= k < result.len() implies result[k] != '/' by {
        if k < stem.len() {
            assert(result[k] == stem[k]);
        } else {
            assert(result[k] == "_nobg.png"@[k - stem.len()]);
        }
    }
    assert(result.len() >= 3);
    assert(result[stem.len() as int] == '_');
    assert(name[stem.len() as int] == '.');
    joined_names_are_found(tidy_dir(dir), result);
    joined_names_are_found(out, result);
}

/// A picture is shrunk only where its longer side is above the limit and that was asked
/// for, and then to about half of it.
pub proof fn only_large_pictures_are_shrunk(width: u32, height: u32)
    ensures
        is_large(width, height) <==> is_large(height, width),
        width <= 8000 && height <= 8000 ==> !is_large(width, height),
        width > 8000 ==> is_large(width, height),
        DOWNSCALE_TARGET == 4096,
        DOWNSCALE_TARGET < LARGE_IMAGE_LIMIT,
{
}

/// A quiet run still says what went wrong: an input that could not be processed or
/// written is told on its progress line or on the error stream, and only what was written
/// is told as written.
pub proof fn errors_are_told(outcome: SaveOutcome, input: Seq<char>, spinner: bool, quiet: bool)
    ensures
        ({
            let r = save_report(outcome, input, spinner, quiet);
            &&& outcome is WriteFailed || outcome is NotProcessed ==> r is Some
            &&& spinner ==> (r matches Some((channel, _)) && channel == Channel::Spinner)
            &&& !spinner ==> (r matches Some((channel, _)) ==> channel != Channel::Spinner)
            &&& r matches Some((channel, _)) ==> (channel == Channel::Stdout ==> outcome is Written
                && !quiet)
            &&& !spinner && !(outcome is Written) ==> (r matches Some((channel, _)) ==> channel
                == Channel::Stderr)
            &&& outcome is Written && !spinner && quiet ==> r is None
        }),
{
}

/// Only what was written counts as done; everything else counts as failed.
pub proof fn only_written_results_count(counts: (nat, nat), outcomes: Seq<SaveOutcome>, o: SaveOutcome)
    ensures
        counted_all(counts, outcomes.push(o)).0 == counted_all(counts, outcomes).0 + if o
            is Written {
            1nat
        } else {
            0
        },
        counted_all(counts, outcomes.push(o)).1 == counted_all(counts, outcomes).1 + if o
            is Written {
            0nat
        } else {
            1
        },
        counted_all(counts, Seq::empty()) == counts,
{
    assert(outcomes.push(o).drop_last() =~= outcomes);
}

/// Every stage has a label of its own, which ends in three dots.
pub proof fn stages_have_labels_of_their_own(a: ProgressStage, b: ProgressStage)
    ensures
        stage_text(a) == stage_text(b) <==> a == b,
        "..."@.is_suffix_of(stage_text(a)),
{
    reveal_strlit("...");
    reveal_strlit("Loading model...");
    reveal_strlit("GPU warming up \u{2014} using CPU...");
    reveal_strlit("Decoding...");
    reveal_strlit("Resizing...");
    reveal_strlit("Normalizing...");
    reveal_strlit("Inferring...");
    reveal_strlit("Postprocessing...");
    reveal_strlit("Applying alpha...");
    let s = stage_text(a);
    let t = stage_text(b);
    assert(s[0] != t[0] || a == b);
    assert(s.subrange(s.len() - 3, s.len() as int) =~= "..."@);
}

} // verus!
