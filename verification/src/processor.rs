//! Coordination of processing: what is cancelled, which recipe a result was made
//! from, and the strokes of the eraser with their generations.
use vstd::prelude::*;
use std::collections::{HashMap, HashSet};
use crate::brush_state::{SchedulerKind, SdScheduler};
use crate::imaging::{decode_result_file, decoded_picture};
use crate::inpaint_bridge::{BridgeError, InpaintBridgeResult};
use crate::live_preview::LivePreview;
use crate::memory::AdmissionController;
use crate::pipeline::{ModelId, ProcessingRecipe, Scalar, ONE_BITS, TWO_BITS, ZERO_BITS};
use crate::pixmap::Pixmap;
use crate::tables::{keys_of, set_of};
use crate::text::join2;

verus! {

broadcast use vstd::std_specs::hash::group_hash_axioms;

/// A call that changes what is cancelled.
#[derive(Clone, Copy, Debug, PartialEq, Eq, Structural)]
pub enum CancelCall {
    /// Everything is cancelled.
    All,
    /// One item is cancelled.
    Item(u64),
    /// All cancellations are taken back.
    Reset,
}

/// What a registry holds: whether everything is cancelled, and the items cancelled on
/// their own.
pub ghost struct Cancels {
    pub all: bool,
    pub items: Set<u64>,
}

impl Cancels {
    /// Nothing cancelled.
    pub open spec fn none() -> Cancels {
        Cancels { all: false, items: Set::empty() }
    }

    /// After a call.
    pub open spec fn after(self, call: CancelCall) -> Cancels {
        match call {
            CancelCall::All => Cancels { all: true, ..self },
            CancelCall::Item(id) => Cancels { items: self.items.insert(id), ..self },
            CancelCall::Reset => Cancels::none(),
        }
    }

    /// Whether an item is cancelled, with everything or on its own.
    pub open spec fn covers(self, id: u64) -> bool {
        self.all || self.items.contains(id)
    }
}

/// Whether a call cancels an item.
pub open spec fn cancels(call: CancelCall, id: u64) -> bool {
    call == CancelCall::All || call == CancelCall::Item(id)
}

/// Whether one of the calls cancels an item, with no reset after it.
pub open spec fn cancelled_since_reset(calls: Seq<CancelCall>, id: u64) -> bool {
    exists|i: int|
        0 <= i < calls.len() && cancels(#[trigger] calls[i], id) && forall|j: int|
            i < j < calls.len() ==> #[trigger] calls[j] != CancelCall::Reset
}

/// Whether `states` are those of a registry that starts with nothing cancelled, before
/// the first call and after each.
pub open spec fn registry_run(states: Seq<CancelRegistry>, calls: Seq<CancelCall>) -> bool {
    &&& states.len() == calls.len() + 1
    &&& states[0].state() == Cancels::none()
    &&& forall|i: int|
        0 <= i < calls.len() ==> (#[trigger] states[i + 1]).state() == states[i].state().after(
            calls[i],
        )
}

/// The answer of a registry follows the cancels since the last reset: an item is
/// cancelled exactly where everything was, or that very item, and no reset came after.
pub proof fn answers_follow_cancels(
    states: Seq<CancelRegistry>,
    calls: Seq<CancelCall>,
    id: u64,
)
    requires
        registry_run(states, calls),
    ensures
        states.last().state().covers(id) <==> cancelled_since_reset(calls, id),
    decreases calls.len(),
{
    let n = calls.len() as int;
    if n > 0 {
        let before = calls.drop_last();
        assert(registry_run(states.drop_last(), before)) by {
            assert forall|i: int| 0 <= i < before.len() implies (#[trigger] states.drop_last()[i
                + 1]).state() == states.drop_last()[i].state().after(before[i]) by {
                assert(states[i + 1].state() == states[i].state().after(calls[i]));
            }
        }
        answers_follow_cancels(states.drop_last(), before, id);
        assert(states[n - 1 + 1].state() == states[n - 1].state().after(calls[n - 1]));
        assert(states.drop_last().last() == states[n - 1]);
        if cancels(calls[n - 1], id) {
            assert(cancelled_since_reset(calls, id));
        } else if calls[n - 1] == CancelCall::Reset {
            assert(!cancelled_since_reset(calls, id));
        } else {
            if cancelled_since_reset(before, id) {
                let i = choose|i: int|
                    0 <= i < before.len() && cancels(#[trigger] before[i], id) && forall|j: int|
                        i < j < before.len() ==> #[trigger] before[j] != CancelCall::Reset;
                assert(cancels(calls[i], id));
                assert forall|j: int| i < j < calls.len() implies #[trigger] calls[j]
                    != CancelCall::Reset by {
                    if j < n - 1 {
                        assert(before[j] == calls[j]);
                    }
                }
            }
            if cancelled_since_reset(calls, id) {
                let i = choose|i: int|
                    0 <= i < calls.len() && cancels(#[trigger] calls[i], id) && forall|j: int|
                        i < j < calls.len() ==> #[trigger] calls[j] != CancelCall::Reset;
                assert(i < n - 1);
                assert(cancels(before[i], id));
                assert forall|j: int| i < j < before.len() implies #[trigger] before[j]
                    != CancelCall::Reset by {
                    assert(calls[j] != CancelCall::Reset);
                }
            }
        }
    }
}

/// What is cancelled: everything, or single items.
pub struct CancelRegistry {
    global: bool,
    per_item: HashSet<u64>,
}

impl CancelRegistry {
    /// Whether everything is cancelled.
    pub closed spec fn all(&self) -> bool {
        self.global
    }

    /// The items cancelled on their own.
    pub closed spec fn items(&self) -> Set<u64> {
        self.per_item@
    }

    /// What the registry holds.
    pub open spec fn state(&self) -> Cancels {
        Cancels { all: self.all(), items: self.items() }
    }

    /// Nothing cancelled.
    pub fn new() -> (r: CancelRegistry)
        ensures
            r.state() == Cancels::none(),
            !r.all(),
            r.items() == Set::<u64>::empty(),
    {
        CancelRegistry { global: false, per_item: HashSet::new() }
    }

    /// Whether everything is cancelled.
    pub fn is_global_cancelled(&self) -> (r: bool)
        ensures
            r == self.all(),
    {
        self.global
    }

    /// Whether an item is cancelled, with everything or on its own.
    pub fn is_cancelled(&self, item_id: u64) -> (r: bool)
        ensures
            r == self.state().covers(item_id),
    {
        if self.global {
            return true;
        }
        self.per_item.contains(&item_id)
    }

    /// Cancels everything.
    pub fn request_global_cancel(&mut self)
        ensures
            final(self).state() == old(self).state().after(CancelCall::All),
            final(self).all(),
            final(self).items() == old(self).items(),
    {
        self.global = true;
    }

    /// Cancels one item.
    pub fn request_item_cancel(&mut self, item_id: u64)
        ensures
            final(self).state() == old(self).state().after(CancelCall::Item(item_id)),
            final(self).all() == old(self).all(),
            final(self).items() == old(self).items().insert(item_id),
    {
        self.per_item.insert(item_id);
    }

    /// Takes all cancellations back.
    pub fn reset(&mut self)
        ensures
            final(self).state() == old(self).state().after(CancelCall::Reset),
            !final(self).all(),
            final(self).items() == Set::<u64>::empty(),
    {
        self.global = false;
        self.per_item.clear();
    }
}

/// A batch that was handed out: its recipe, and the items that have not come
/// back.
pub struct InFlightBatch {
    pub recipe: ProcessingRecipe,
    pub pending: HashSet<u64>,
}

/// Result of a stroke.
pub struct InpaintResult {
    pub item_id: u64,
    pub rgba: Pixmap,
    /// Generation of the stroke; zero for one that brought nothing.
    pub generation: u64,
    pub cancelled: bool,
    pub error: Option<String>,
}

/// Settings of a stroke.
pub struct InpaintTuning {
    pub sharpen: Scalar,
    pub feather_px: Scalar,
    pub grow_px: Scalar,
    pub backend: ModelId,
    pub sd_prompt: String,
    pub sd_negative_prompt: String,
    pub sd_guidance_scale: Scalar,
    pub sd_scheduler: SdScheduler,
    pub sd_steps: u32,
    pub sd_seed: Option<u64>,
    pub sd_strength: Scalar,
    pub sd_use_karras_sigmas: bool,
    pub sd_mask_blur: Scalar,
    /// Fast decoder: `None` uses it where it is installed.
    pub sd_use_taesd: Option<bool>,
}

impl Default for InpaintTuning {
    fn default() -> (r: InpaintTuning)
        ensures
            r.sharpen == (Scalar { bits: ZERO_BITS }),
            r.feather_px == (Scalar { bits: ZERO_BITS }),
            r.grow_px == (Scalar { bits: ZERO_BITS }),
            r.backend == ModelId::LaMaFp32,
            r.sd_prompt@.len() == 0,
            r.sd_negative_prompt@.len() == 0,
            r.sd_guidance_scale == (Scalar { bits: ONE_BITS }),
            r.sd_scheduler == SdScheduler::Lcm,
            r.sd_steps == 8,
            r.sd_seed is None,
            r.sd_strength == (Scalar { bits: ONE_BITS }),
            !r.sd_use_karras_sigmas,
            r.sd_mask_blur == (Scalar { bits: ZERO_BITS }),
            r.sd_use_taesd is None,
    {
        InpaintTuning {
            sharpen: Scalar { bits: ZERO_BITS },
            feather_px: Scalar { bits: ZERO_BITS },
            grow_px: Scalar { bits: ZERO_BITS },
            backend: ModelId::LaMaFp32,
            sd_prompt: String::new(),
            sd_negative_prompt: String::new(),
            sd_guidance_scale: Scalar { bits: ONE_BITS },
            sd_scheduler: SdScheduler::Lcm,
            sd_steps: 8,
            sd_seed: None,
            sd_strength: Scalar { bits: ONE_BITS },
            sd_use_karras_sigmas: false,
            sd_mask_blur: Scalar { bits: ZERO_BITS },
            sd_use_taesd: None,
        }
    }
}

/// What the Stable Diffusion worker is asked for.
pub struct SdInpaintRequest {
    pub prompt: String,
    pub negative_prompt: String,
    pub num_inference_steps: u32,
    pub guidance_scale: Scalar,
    pub seed: Option<u64>,
    pub use_taesd: bool,
    pub scheduler: SchedulerKind,
    pub strength: Scalar,
    pub use_karras_sigmas: bool,
    pub mask_blur: Scalar,
}

/// Guidance scale that is sent: the distilled schedule only takes one to two.
pub open spec fn effective_guidance(scale: Scalar, scheduler: SdScheduler) -> Scalar {
    if scheduler != SdScheduler::Lcm || scale.is_nan() {
        scale
    } else if scale.rank() < ONE_BITS {
        Scalar { bits: ONE_BITS }
    } else if scale.rank() > TWO_BITS {
        Scalar { bits: TWO_BITS }
    } else {
        scale
    }
}

impl InpaintTuning {
    /// Whether a request carries these settings.
    pub open spec fn asked(&self, q: SdInpaintRequest, taesd_installed: bool) -> bool {
        &&& q.prompt == self.sd_prompt
        &&& q.negative_prompt == self.sd_negative_prompt
        &&& q.num_inference_steps == self.sd_steps
        &&& q.guidance_scale == effective_guidance(self.sd_guidance_scale, self.sd_scheduler)
        &&& q.seed == self.sd_seed
        &&& q.use_taesd == (self.sd_use_taesd != Some(false) && taesd_installed)
        &&& q.scheduler == self.sd_scheduler.kind()
        &&& q.strength == self.sd_strength
        &&& q.use_karras_sigmas == self.sd_use_karras_sigmas
        &&& q.mask_blur == self.sd_mask_blur
    }

    /// What the worker is asked for; `None` for a model without Stable Diffusion.
    /// The fast decoder is used where it is installed, unless it is switched off.
    pub fn sd_request(&self, taesd_installed: bool) -> (r: Option<SdInpaintRequest>)
        ensures
            match r {
                Some(q) => self.backend.sd_family() && self.asked(q, taesd_installed),
                None => !self.backend.sd_family(),
            },
    {
        if !self.backend.is_sd_family() {
            return None;
        }
        let scheduler = SchedulerKind::from(self.sd_scheduler);
        let lcm = self.sd_scheduler == SdScheduler::Lcm;
        let wants_fast_decoder = match self.sd_use_taesd {
            Some(wanted) => wanted,
            None => true,
        };
        let guidance_scale = if lcm {
            self.sd_guidance_scale.clamp_to(Scalar { bits: ONE_BITS }, Scalar { bits: TWO_BITS })
        } else {
            self.sd_guidance_scale
        };
        Some(
            SdInpaintRequest {
                prompt: self.sd_prompt.clone(),
                negative_prompt: self.sd_negative_prompt.clone(),
                num_inference_steps: self.sd_steps,
                guidance_scale,
                seed: self.sd_seed,
                use_taesd: wants_fast_decoder && taesd_installed,
                scheduler,
                strength: self.sd_strength,
                use_karras_sigmas: self.sd_use_karras_sigmas,
                mask_blur: self.sd_mask_blur,
            },
        )
    }

    /// Whether the painted region is grown or shrunk before inference.
    pub fn grows_mask(&self) -> (r: bool)
        ensures
            r == (self.grow_px.rank() != 0),
    {
        self.grow_px.order() != 0
    }
}

/// A picture without pixels.
fn no_picture() -> (r: Pixmap)
    ensures
        r.width == 0,
        r.height == 0,
        r.data@.len() == 0,
{
    Pixmap { width: 0, height: 0, data: Vec::new() }
}

/// Whether a result says that its stroke was cancelled.
pub open spec fn says_cancelled(r: InpaintResult, item_id: u64) -> bool {
    r.item_id == item_id && r.generation == 0 && r.cancelled && r.error is None && r.rgba.width == 0
        && r.rgba.height == 0 && r.rgba.data@.len() == 0
}

/// Whether a result says that its stroke failed, with the given text.
pub open spec fn says_failed(r: InpaintResult, item_id: u64, text: Seq<char>) -> bool {
    r.item_id == item_id && r.generation == 0 && !r.cancelled && (r.error matches Some(e) && e@
        == text) && r.rgba.width == 0 && r.rgba.height == 0 && r.rgba.data@.len() == 0
}

/// Result of a cancelled stroke.
pub fn cancelled_result(item_id: u64) -> (r: InpaintResult)
    ensures
        says_cancelled(r, item_id),
{
    InpaintResult { item_id, rgba: no_picture(), generation: 0, cancelled: true, error: None }
}

/// Result of a failed stroke.
pub fn failed_result(item_id: u64, error: String) -> (r: InpaintResult)
    ensures
        says_failed(r, item_id, error@),
{
    InpaintResult {
        item_id,
        rgba: no_picture(),
        generation: 0,
        cancelled: false,
        error: Some(error),
    }
}

/// Result of a finished stroke.
pub fn finished_result(item_id: u64, generation: u64, rgba: Pixmap) -> (r: InpaintResult)
    ensures
        r == (InpaintResult { item_id, rgba, generation, cancelled: false, error: None }),
{
    InpaintResult { item_id, rgba, generation, cancelled: false, error: None }
}

/// Step at which the files for the worker could not be written.
#[derive(Clone, Copy, Debug, PartialEq, Eq, Structural)]
pub enum FileStep {
    EncodeSource,
    WriteSource,
    EncodeMask,
    WriteMask,
}

/// Text of a failure to write the files for the worker.
pub open spec fn file_failure(step: FileStep, error: Seq<char>) -> Seq<char> {
    (match step {
        FileStep::EncodeSource => "encode source: "@,
        FileStep::WriteSource => "write source: "@,
        FileStep::EncodeMask => "encode mask: "@,
        FileStep::WriteMask => "write mask: "@,
    }) + error
}

/// A stroke ready for the worker.
pub struct SdDispatch {
    pub item_id: u64,
    pub gen: u64,
    pub model_id: ModelId,
    pub image_path: String,
    pub mask_path: String,
    pub sd_req: Option<SdInpaintRequest>,
    pub feather_px: Scalar,
    pub sharpen: Scalar,
}

/// What becomes of a stroke whose files were written, or were not.
pub enum SdOutcome {
    /// Hand it to the bridge.
    Dispatch(SdDispatch),
    /// Report the result.
    Report(InpaintResult),
    /// Remove the files and report the result.
    RemoveAndReport(InpaintResult),
}

/// What becomes of a Stable Diffusion stroke once its files were written, or were
/// not. A cancel that came in the meantime drops it before the worker sees it.
pub fn dispatch_inpaint_sd(
    item_id: u64,
    gen: u64,
    tuning: &InpaintTuning,
    taesd_installed: bool,
    files: Result<(String, String), (FileStep, String)>,
    cancelled: bool,
) -> (r: SdOutcome)
    ensures
        match files {
            Err((step, e)) => r matches SdOutcome::Report(q) && says_failed(
                q,
                item_id,
                file_failure(step, e@),
            ),
            Ok((image_path, mask_path)) => if cancelled {
                r matches SdOutcome::RemoveAndReport(q) && says_cancelled(q, item_id)
            } else {
                r matches SdOutcome::Dispatch(d) && d.item_id == item_id && d.gen == gen
                    && d.model_id == tuning.backend && d.image_path == image_path && d.mask_path
                    == mask_path && d.feather_px == tuning.feather_px && d.sharpen == tuning.sharpen
                    && match d.sd_req {
                    Some(q) => tuning.backend.sd_family() && tuning.asked(q, taesd_installed),
                    None => !tuning.backend.sd_family(),
                }
            },
        },
{
    match files {
        Err((step, e)) => {
            let prefix = match step {
                FileStep::EncodeSource => "encode source: ",
                FileStep::WriteSource => "write source: ",
                FileStep::EncodeMask => "encode mask: ",
                FileStep::WriteMask => "write mask: ",
            };
            SdOutcome::Report(failed_result(item_id, join2(prefix, e.as_str())))
        },
        Ok((image_path, mask_path)) => {
            if cancelled {
                SdOutcome::RemoveAndReport(cancelled_result(item_id))
            } else {
                SdOutcome::Dispatch(
                    SdDispatch {
                        item_id,
                        gen,
                        model_id: tuning.backend,
                        image_path,
                        mask_path,
                        sd_req: tuning.sd_request(taesd_installed),
                        feather_px: tuning.feather_px,
                        sharpen: tuning.sharpen,
                    },
                )
            }
        },
    }
}

/// Checks a stroke before any work is done for it. One that was cancelled already is
/// reported as cancelled, with nothing written.
pub fn begin_inpaint_sd(item_id: u64, cancelled: bool) -> (r: Option<InpaintResult>)
    ensures
        match r {
            Some(q) => cancelled && says_cancelled(q, item_id),
            None => !cancelled,
        },
{
    if cancelled {
        Some(cancelled_result(item_id))
    } else {
        None
    }
}

/// What becomes of a stroke of another model that has run.
pub fn local_outcome(item_id: u64, gen: u64, outcome: Result<Pixmap, BridgeError>) -> (r: InpaintResult)
    ensures
        match outcome {
            Ok(p) => r == (InpaintResult {
                item_id,
                rgba: p,
                generation: gen,
                cancelled: false,
                error: None,
            }),
            Err(e) => reports_error(r, item_id, e),
        },
{
    match outcome {
        Ok(p) => finished_result(item_id, gen, p),
        Err(e) => error_result(item_id, e),
    }
}

/// Whether a result reports an error to the user. A cancel is no error, and low
/// memory is explained.
pub open spec fn reports_error(r: InpaintResult, item_id: u64, e: BridgeError) -> bool {
    match e {
        BridgeError::Cancelled => says_cancelled(r, item_id),
        BridgeError::MemoryPressure => says_failed(
            r,
            item_id,
            "Erase aborted \u{2014} system memory low. Close other apps or use LaMa instead (Settings \u{2192} Eraser)."@,
        ),
        BridgeError::Failed(m) => says_failed(r, item_id, m@),
    }
}

/// Result that reports an error to the user.
pub fn error_result(item_id: u64, e: BridgeError) -> (r: InpaintResult)
    ensures
        reports_error(r, item_id, e),
{
    match e {
        BridgeError::Cancelled => cancelled_result(item_id),
        BridgeError::MemoryPressure => failed_result(
            item_id,
            "Erase aborted \u{2014} system memory low. Close other apps or use LaMa instead (Settings \u{2192} Eraser).".to_owned(),
        ),
        BridgeError::Failed(m) => failed_result(item_id, m),
    }
}

/// Result of a stroke that the worker finished, from what its file decoded to;
/// `None` where the file could not be read.
pub fn worker_result(
    item_id: u64,
    gen: u64,
    path: &str,
    decoded: Option<Result<Pixmap, String>>,
) -> (r: InpaintResult)
    ensures
        match decoded {
            Some(Ok(p)) => r == (InpaintResult {
                item_id,
                rgba: p,
                generation: gen,
                cancelled: false,
                error: None,
            }),
            Some(Err(e)) => says_failed(r, item_id, "decode SD result: "@ + e@),
            None => says_failed(r, item_id, "read SD result missing: "@ + path@),
        },
{
    match decoded {
        Some(Ok(p)) => finished_result(item_id, gen, p),
        Some(Err(e)) => failed_result(item_id, join2("decode SD result: ", e.as_str())),
        None => failed_result(item_id, join2("read SD result missing: ", path)),
    }
}

/// How a stroke is run.
#[derive(Clone, Copy, Debug, PartialEq, Eq, Structural)]
pub struct InpaintDispatch {
    pub generation: u64,
    /// Whether it goes to the worker process.
    pub in_worker: bool,
}

/// Number of results for an item.
pub open spec fn count_for(rs: Seq<InpaintResult>, id: u64) -> int
    decreases rs.len(),
{
    if rs.len() == 0 {
        0
    } else {
        count_for(rs.drop_last(), id) + (if rs.last().item_id == id {
            1int
        } else {
            0int
        })
    }
}

/// Strokes of an item that are still running after a number of results.
pub open spec fn left_running(pending: Map<u64, u32>, id: u64, came: int) -> int {
    if pending.contains_key(id) && pending[id] > came {
        pending[id] - came
    } else {
        0
    }
}

/// Whether a result is that of the latest stroke of its item.
pub open spec fn is_latest(r: InpaintResult, latest: Map<u64, u64>) -> bool {
    !r.cancelled && r.error is None && r.generation > 0 && latest.contains_key(r.item_id)
        && latest[r.item_id] == r.generation
}

/// Results of the latest strokes, in order.
pub open spec fn latest_results(rs: Seq<InpaintResult>, latest: Map<u64, u64>) -> Seq<InpaintResult>
    decreases rs.len(),
{
    if rs.len() == 0 {
        rs
    } else if is_latest(rs.last(), latest) {
        latest_results(rs.drop_last(), latest).push(rs.last())
    } else {
        latest_results(rs.drop_last(), latest)
    }
}

/// Items whose stroke was cancelled, in order.
pub open spec fn cancelled_items(rs: Seq<InpaintResult>) -> Seq<u64>
    decreases rs.len(),
{
    if rs.len() == 0 {
        Seq::empty()
    } else if rs.last().cancelled {
        cancelled_items(rs.drop_last()).push(rs.last().item_id)
    } else {
        cancelled_items(rs.drop_last())
    }
}

/// Errors to be shown, in order.
pub open spec fn shown_errors(rs: Seq<InpaintResult>) -> Seq<String>
    decreases rs.len(),
{
    if rs.len() == 0 {
        Seq::empty()
    } else if !rs.last().cancelled && rs.last().error is Some {
        shown_errors(rs.drop_last()).push(rs.last().error->0)
    } else {
        shown_errors(rs.drop_last())
    }
}

/// What drained strokes bring.
pub struct Drained {
    pub committed: Vec<InpaintResult>,
    pub cancelled: Vec<u64>,
    pub errors: Vec<String>,
}

/// Every result goes one way or is out of date: it is handed on, reported as
/// cancelled, shown as an error, or belongs to a stroke that was overtaken.
pub proof fn results_are_sorted_out(rs: Seq<InpaintResult>, latest: Map<u64, u64>)
    ensures
        latest_results(rs, latest).len() + cancelled_items(rs).len() + shown_errors(rs).len()
            <= rs.len(),
        forall|i: int|
            0 <= i < latest_results(rs, latest).len() ==> is_latest(
                #[trigger] latest_results(rs, latest)[i],
                latest,
            ),
    decreases rs.len(),
{
    if rs.len() > 0 {
        results_are_sorted_out(rs.drop_last(), latest);
        assert forall|i: int| 0 <= i < latest_results(rs, latest).len() implies is_latest(
            #[trigger] latest_results(rs, latest)[i],
            latest,
        ) by {
            let a = latest_results(rs.drop_last(), latest);
            if i < a.len() {
                assert(latest_results(rs, latest)[i] == a[i]);
            }
        }
    }
}

/// Coordinator of processing.
pub struct Processor {
    pub cancels: CancelRegistry,
    pub live_preview: LivePreview,
    pub admission: Option<AdmissionController>,
    /// Whether further items can be handed to the running batch.
    pub admission_open: bool,
    pub in_flight: Option<InFlightBatch>,
    /// Time of the last clean-up of the history, in nanoseconds.
    pub last_history_cleanup: u64,
    pub inpaint_latest_gen: HashMap<u64, u64>,
    pub inpaint_pending: HashMap<u64, u32>,
    /// Whether the running stroke of an item was cancelled.
    pub inpaint_cancels: HashMap<u64, bool>,
    /// Step and number of steps of the running stroke of an item.
    pub inpaint_progress: HashMap<u64, (u32, u32)>,
}

/// What a table holds under an id, or zero.
pub open spec fn gen_or_zero(m: Map<u64, u64>, id: u64) -> u64 {
    if m.contains_key(id) {
        m[id]
    } else {
        0
    }
}

impl Processor {
    /// A coordinator with nothing running.
    pub fn new(now: u64) -> (r: Processor)
        ensures
            !r.cancels.all(),
            r.cancels.items() == Set::<u64>::empty(),
            r.live_preview.pending@ == Map::<u64, crate::live_preview::Pending>::empty(),
            r.live_preview.in_flight@ == Map::<u64, u64>::empty(),
            r.admission is None,
            !r.admission_open,
            r.in_flight is None,
            r.last_history_cleanup == now,
            r.inpaint_latest_gen@ == Map::<u64, u64>::empty(),
            r.inpaint_pending@ == Map::<u64, u32>::empty(),
            r.inpaint_cancels@ == Map::<u64, bool>::empty(),
            r.inpaint_progress@ == Map::<u64, (u32, u32)>::empty(),
    {
        Processor {
            cancels: CancelRegistry::new(),
            live_preview: LivePreview::default(),
            admission: None,
            admission_open: false,
            in_flight: None,
            last_history_cleanup: now,
            inpaint_latest_gen: HashMap::new(),
            inpaint_pending: HashMap::new(),
            inpaint_cancels: HashMap::new(),
            inpaint_progress: HashMap::new(),
        }
    }

    /// Whether nothing but the strokes differs from another state.
    pub open spec fn only_strokes_differ(&self, other: &Processor) -> bool {
        &&& self.cancels == other.cancels
        &&& self.live_preview == other.live_preview
        &&& self.admission == other.admission
        &&& self.admission_open == other.admission_open
        &&& self.in_flight == other.in_flight
        &&& self.last_history_cleanup == other.last_history_cleanup
    }

    /// Starts a stroke: it gets the next generation of its item, and neither a
    /// cancel nor the progress of an earlier stroke counts for it.
    pub fn dispatch_inpaint(&mut self, item_id: u64, backend: ModelId) -> (r: InpaintDispatch)
        requires
            gen_or_zero(old(self).inpaint_latest_gen@, item_id) < u64::MAX,
            left_running(old(self).inpaint_pending@, item_id, 0) < u32::MAX,
        ensures
            final(self).only_strokes_differ(old(self)),
            r.generation == gen_or_zero(old(self).inpaint_latest_gen@, item_id) + 1,
            r.in_worker == backend.sd_family(),
            final(self).inpaint_latest_gen@ == old(self).inpaint_latest_gen@.insert(
                item_id,
                r.generation,
            ),
            final(self).inpaint_pending@ == old(self).inpaint_pending@.insert(
                item_id,
                (left_running(old(self).inpaint_pending@, item_id, 0) + 1) as u32,
            ),
            final(self).inpaint_cancels@ == old(self).inpaint_cancels@.insert(item_id, false),
            final(self).inpaint_progress@ == old(self).inpaint_progress@.insert(item_id, (0, 0)),
    {
        let generation: u64 = match self.inpaint_latest_gen.get(&item_id) {
            Some(g) => *g + 1,
            None => 1,
        };
        let running: u32 = match self.inpaint_pending.get(&item_id) {
            Some(n) => *n + 1,
            None => 1,
        };
        self.inpaint_latest_gen.insert(item_id, generation);
        self.inpaint_pending.insert(item_id, running);
        self.inpaint_cancels.insert(item_id, false);
        self.inpaint_progress.insert(item_id, (0, 0));
        InpaintDispatch { generation, in_worker: backend.is_sd_family() }
    }

    /// Cancels every running stroke. Returns the items whose cancel the bridge is
    /// told.
    pub fn cancel_all_inpaints(&mut self) -> (r: Vec<u64>)
        ensures
            final(self).only_strokes_differ(old(self)),
            final(self).inpaint_latest_gen == old(self).inpaint_latest_gen,
            final(self).inpaint_pending == old(self).inpaint_pending,
            final(self).inpaint_progress == old(self).inpaint_progress,
            r@.no_duplicates(),
            forall|k: u64| r@.contains(k) <==> old(self).inpaint_cancels@.contains_key(k),
            final(self).inpaint_cancels@.dom() == old(self).inpaint_cancels@.dom(),
            forall|k: u64| #[trigger]
                final(self).inpaint_cancels@.contains_key(k) ==> final(self).inpaint_cancels@[k],
    {
        let keys = keys_of(&self.inpaint_cancels);
        let mut i: usize = 0;
        while i < keys.len()
            invariant
                i <= keys@.len(),
                self.only_strokes_differ(old(self)),
                self.inpaint_latest_gen == old(self).inpaint_latest_gen,
                self.inpaint_pending == old(self).inpaint_pending,
                self.inpaint_progress == old(self).inpaint_progress,
                forall|k: u64| keys@.contains(k) <==> old(self).inpaint_cancels@.contains_key(k),
                self.inpaint_cancels@.dom() =~= old(self).inpaint_cancels@.dom(),
                forall|j: int| 0 <= j < i ==> self.inpaint_cancels@[#[trigger] keys@[j]],
            decreases keys@.len() - i,
        {
            assert(keys@.contains(keys@[i as int]));
            self.inpaint_cancels.insert(keys[i], true);
            i += 1;
        }
        proof {
            assert forall|k: u64| #[trigger]
                self.inpaint_cancels@.contains_key(k) implies self.inpaint_cancels@[k] by {
                assert(old(self).inpaint_cancels@.contains_key(k));
                assert(keys@.contains(k));
                let j = keys@.index_of(k);
                assert(keys@[j] == k);
            }
        }
        keys
    }

    /// Cancels the running stroke of an item, where there is one.
    pub fn cancel_inpaint(&mut self, item_id: u64)
        ensures
            final(self).only_strokes_differ(old(self)),
            final(self).inpaint_latest_gen == old(self).inpaint_latest_gen,
            final(self).inpaint_pending == old(self).inpaint_pending,
            final(self).inpaint_progress == old(self).inpaint_progress,
            final(self).inpaint_cancels@ == if old(self).inpaint_cancels@.contains_key(item_id) {
                old(self).inpaint_cancels@.insert(item_id, true)
            } else {
                old(self).inpaint_cancels@
            },
    {
        if self.inpaint_cancels.contains_key(&item_id) {
            self.inpaint_cancels.insert(item_id, true);
        }
    }

    /// Handles what the bridge reports. Progress of a running stroke is noted; a
    /// finished stroke is decoded from what its file holds (`None` where it could
    /// not be read); an error is put into words. Returns the result, where there
    /// is one.
    pub fn pump_inpaint_subprocess(&mut self, event: InpaintBridgeResult, file: Option<&Vec<u8>>) -> (r:
        Option<InpaintResult>)
        ensures
            final(self).only_strokes_differ(old(self)),
            final(self).inpaint_latest_gen == old(self).inpaint_latest_gen,
            final(self).inpaint_pending == old(self).inpaint_pending,
            final(self).inpaint_cancels == old(self).inpaint_cancels,
            match event {
                InpaintBridgeResult::Progress { item_id, current, total } => r is None && final(self).inpaint_progress@ == if old(self).inpaint_progress@.contains_key(item_id) {
                    old(self).inpaint_progress@.insert(item_id, (current, total))
                } else {
                    old(self).inpaint_progress@
                },
                InpaintBridgeResult::Done { item_id, gen, rgba_path, .. } => {
                    &&& final(self).inpaint_progress == old(self).inpaint_progress
                    &&& r matches Some(q) && match file {
                        None => says_failed(q, item_id, "read SD result missing: "@ + rgba_path@),
                        Some(bytes) => match decoded_picture(bytes@) {
                            Ok(p) => q.item_id == item_id && q.generation == gen && !q.cancelled
                                && q.error is None && q.rgba@ == p,
                            Err(e) => says_failed(q, item_id, "decode SD result: "@ + e),
                        },
                    }
                },
                InpaintBridgeResult::Error { item_id, error } => {
                    &&& final(self).inpaint_progress == old(self).inpaint_progress
                    &&& r matches Some(q) && reports_error(q, item_id, error)
                },
            },
    {
        match event {
            InpaintBridgeResult::Progress { item_id, current, total } => {
                if self.inpaint_progress.contains_key(&item_id) {
                    self.inpaint_progress.insert(item_id, (current, total));
                }
                None
            },
            InpaintBridgeResult::Done { item_id, gen, rgba_path, .. } => {
                let decoded = match file {
                    Some(bytes) => Some(decode_result_file(bytes.as_slice())),
                    None => None,
                };
                Some(worker_result(item_id, gen, rgba_path.as_str(), decoded))
            },
            InpaintBridgeResult::Error { item_id, error } => Some(error_result(item_id, error)),
        }
    }

    /// Step and number of steps of the running stroke of an item; zeros where
    /// none is running.
    pub fn inpaint_progress(&self, item_id: u64) -> (r: (u32, u32))
        ensures
            r == if self.inpaint_progress@.contains_key(item_id) {
                self.inpaint_progress@[item_id]
            } else {
                (0u32, 0u32)
            },
    {
        match self.inpaint_progress.get(&item_id) {
            Some(p) => *p,
            None => (0, 0),
        }
    }

    /// Takes the results of strokes. Those of the latest stroke of their item are
    /// handed on, overtaken ones are dropped, cancels and errors are reported.
    /// Every result counts as a stroke that no longer runs; once none runs for an
    /// item, its cancel and progress are forgotten.
    pub fn drain_inpaint_results(&mut self, results: Vec<InpaintResult>) -> (r: Drained)
        ensures
            final(self).only_strokes_differ(old(self)),
            final(self).inpaint_latest_gen == old(self).inpaint_latest_gen,
            r.committed@ == latest_results(results@, old(self).inpaint_latest_gen@),
            r.cancelled@ == cancelled_items(results@),
            r.errors@ == shown_errors(results@),
            final(self).strokes_after(old(self), results@),
    {
        let ghost all = results@;
        let mut rest = results;
        let mut committed: Vec<InpaintResult> = Vec::new();
        let mut cancelled: Vec<u64> = Vec::new();
        let mut errors: Vec<String> = Vec::new();
        let ghost mut n: int = 0;
        proof {
            assert(all.take(0) =~= Seq::empty());
            assert(all.skip(0) =~= all);
        }
        while rest.len() > 0
            invariant
                0 <= n <= all.len(),
                rest@ == all.skip(n),
                self.only_strokes_differ(old(self)),
                self.inpaint_latest_gen == old(self).inpaint_latest_gen,
                committed@ == latest_results(all.take(n), old(self).inpaint_latest_gen@),
                cancelled@ == cancelled_items(all.take(n)),
                errors@ == shown_errors(all.take(n)),
                self.strokes_after(old(self), all.take(n)),
            decreases rest@.len(),
        {
            let result = rest.remove(0);
            proof {
                assert(rest@ =~= all.skip(n + 1));
                assert(all.take(n + 1).drop_last() =~= all.take(n));
                assert(all.take(n + 1).last() == result);
                count_is_not_negative(all.take(n), result.item_id);
            }
            let ghost before = *self;
            self.stroke_came_back(result.item_id);
            proof {
                n = n + 1;
                assert forall|k: u64| #[trigger] count_for(all.take(n), k) == count_for(
                    all.take(n - 1),
                    k,
                ) + (if k == result.item_id {
                    1int
                } else {
                    0int
                }) by {}
                assert(self.strokes_after(old(self), all.take(n)));
            }
            if result.cancelled {
                cancelled.push(result.item_id);
            } else if result.error.is_some() {
                errors.push(result.error.unwrap());
            } else {
                let latest: u64 = match self.inpaint_latest_gen.get(&result.item_id) {
                    Some(g) => *g,
                    None => 0,
                };
                if result.generation == latest && result.generation > 0 {
                    committed.push(result);
                }
            }
        }
        assert(all.take(n) =~= all);
        Drained { committed, cancelled, errors }
    }

    /// The strokes after results came: as many fewer run, and an item for which
    /// none runs any more has neither a cancel nor a progress.
    pub open spec fn strokes_after(&self, before: &Processor, rs: Seq<InpaintResult>) -> bool {
        &&& forall|k: u64| #[trigger]
            self.inpaint_pending@.contains_key(k) == before.inpaint_pending@.contains_key(k)
        &&& forall|k: u64| #[trigger]
            before.inpaint_pending@.contains_key(k) ==> self.inpaint_pending@[k] == left_running(
                before.inpaint_pending@,
                k,
                count_for(rs, k),
            )
        &&& forall|k: u64| #[trigger]
            self.inpaint_cancels@.contains_key(k) == (before.inpaint_cancels@.contains_key(k)
                && !(count_for(rs, k) > 0 && left_running(
                before.inpaint_pending@,
                k,
                count_for(rs, k),
            ) == 0))
        &&& forall|k: u64| #[trigger]
            self.inpaint_cancels@.contains_key(k) ==> self.inpaint_cancels@[k]
                == before.inpaint_cancels@[k]
        &&& forall|k: u64| #[trigger]
            self.inpaint_progress@.contains_key(k) == (before.inpaint_progress@.contains_key(k)
                && !(count_for(rs, k) > 0 && left_running(
                before.inpaint_pending@,
                k,
                count_for(rs, k),
            ) == 0))
        &&& forall|k: u64| #[trigger]
            self.inpaint_progress@.contains_key(k) ==> self.inpaint_progress@[k]
                == before.inpaint_progress@[k]
    }

    /// One stroke of an item no longer runs.
    fn stroke_came_back(&mut self, item_id: u64)
        ensures
            final(self).only_strokes_differ(old(self)),
            final(self).inpaint_latest_gen == old(self).inpaint_latest_gen,
            final(self).inpaint_pending@ == if old(self).inpaint_pending@.contains_key(item_id) {
                old(self).inpaint_pending@.insert(
                    item_id,
                    left_running(old(self).inpaint_pending@, item_id, 1) as u32,
                )
            } else {
                old(self).inpaint_pending@
            },
            final(self).inpaint_cancels@ == if left_running(
                old(self).inpaint_pending@,
                item_id,
                1,
            ) == 0 {
                old(self).inpaint_cancels@.remove(item_id)
            } else {
                old(self).inpaint_cancels@
            },
            final(self).inpaint_progress@ == if left_running(
                old(self).inpaint_pending@,
                item_id,
                1,
            ) == 0 {
                old(self).inpaint_progress@.remove(item_id)
            } else {
                old(self).inpaint_progress@
            },
    {
        let left: u32 = match self.inpaint_pending.get(&item_id) {
            Some(n) => (*n).saturating_sub(1),
            None => 0,
        };
        if self.inpaint_pending.contains_key(&item_id) {
            self.inpaint_pending.insert(item_id, left);
        }
        if left == 0 {
            self.inpaint_cancels.remove(&item_id);
            self.inpaint_progress.remove(&item_id);
        }
    }

    /// Whether a stroke of an item runs.
    pub fn is_inpaint_in_flight(&self, item_id: u64) -> (r: bool)
        ensures
            r == (left_running(self.inpaint_pending@, item_id, 0) > 0),
    {
        match self.inpaint_pending.get(&item_id) {
            Some(n) => *n > 0,
            None => false,
        }
    }

    /// Whether any stroke runs.
    pub fn any_inpaint_in_flight(&self) -> (r: bool)
        ensures
            r == exists|id: u64| #[trigger] left_running(self.inpaint_pending@, id, 0) > 0,
    {
        let keys = keys_of(&self.inpaint_pending);
        let mut i: usize = 0;
        while i < keys.len()
            invariant
                i <= keys@.len(),
                forall|k: u64| keys@.contains(k) <==> self.inpaint_pending@.contains_key(k),
                forall|j: int|
                    0 <= j < i ==> left_running(self.inpaint_pending@, #[trigger] keys@[j], 0) <= 0,
            decreases keys@.len() - i,
        {
            if self.is_inpaint_in_flight(keys[i]) {
                assert(left_running(self.inpaint_pending@, keys@[i as int], 0) > 0);
                return true;
            }
            i += 1;
        }
        proof {
            assert forall|id: u64| #[trigger] left_running(self.inpaint_pending@, id, 0) <= 0 by {
                if self.inpaint_pending@.contains_key(id) {
                    assert(keys@.contains(id));
                    let j = keys@.index_of(id);
                    assert(keys@[j] == id);
                }
            }
        }
        false
    }

    /// Whether the running stroke of an item was cancelled and has not stopped
    /// yet.
    pub fn is_inpaint_cancelling(&self, item_id: u64) -> (r: bool)
        ensures
            r == (self.inpaint_cancels@.contains_key(item_id) && self.inpaint_cancels@[item_id]),
    {
        match self.inpaint_cancels.get(&item_id) {
            Some(c) => *c,
            None => false,
        }
    }

    /// Hands out a batch: the recipe it is made with, and the items that are to
    /// come back. What was handed out before is forgotten.
    pub fn track_dispatch(&mut self, recipe: ProcessingRecipe, ids: &Vec<u64>)
        ensures
            final(self).recipes() == Some((recipe, ids@.to_set())),
            final(self).only_recipes_differ(old(self)),
    {
        let pending = set_of(ids);
        self.in_flight = Some(InFlightBatch { recipe, pending });
    }

    /// What is handed out: a recipe and the items that are to come back.
    pub open spec fn recipes(&self) -> Option<(ProcessingRecipe, Set<u64>)> {
        match self.in_flight {
            Some(b) => Some((b.recipe, b.pending@)),
            None => None,
        }
    }

    /// Whether nothing but what is handed out differs from another state.
    pub open spec fn only_recipes_differ(&self, other: &Processor) -> bool {
        *self == (Processor { in_flight: self.in_flight, ..*other })
    }

    /// Adds an item to the batch that is handed out. Without one nothing happens.
    pub fn track_streamed(&mut self, id: u64)
        ensures
            final(self).recipes() == match old(self).recipes() {
                Some((recipe, pending)) => Some((recipe, pending.insert(id))),
                None => None,
            },
            final(self).only_recipes_differ(old(self)),
    {
        match &mut self.in_flight {
            Some(b) => {
                b.pending.insert(id);
            },
            None => {},
        }
    }

    /// The recipe of an item that has come back. `None` where it is not expected:
    /// a late delivery never gets the recipe of another batch. With the last item
    /// the batch is over.
    pub fn take_recipe(&mut self, id: u64) -> (r: Option<ProcessingRecipe>)
        ensures
            final(self).only_recipes_differ(old(self)),
            match old(self).recipes() {
                None => r is None && final(self).recipes() is None,
                Some((recipe, pending)) => if !pending.contains(id) {
                    r is None && final(self).recipes() == old(self).recipes()
                } else {
                    &&& r == Some(recipe)
                    &&& final(self).recipes() == if pending.remove(id).len() == 0 {
                        None
                    } else {
                        Some((recipe, pending.remove(id)))
                    }
                },
            },
    {
        match self.in_flight.take() {
            None => None,
            Some(b) => {
                let mut batch = b;
                if !batch.pending.contains(&id) {
                    self.in_flight = Some(batch);
                    return None;
                }
                batch.pending.remove(&id);
                let recipe = batch.recipe;
                if batch.pending.len() > 0 {
                    self.in_flight = Some(batch);
                }
                Some(recipe)
            },
        }
    }

    /// Forgets what is handed out, so that nothing late gets its recipe.
    pub fn drain_recipes(&mut self)
        ensures
            final(self).recipes() is None,
            final(self).only_recipes_differ(old(self)),
    {
        self.in_flight = None;
    }

    /// Closes admission: no further item goes into the batch. What is cancelled
    /// stays as it is.
    pub fn clear_admission(&mut self)
        ensures
            *final(self) == (Processor { admission: None, admission_open: false, ..*old(self) }),
    {
        self.admission = None;
        self.admission_open = false;
    }
}

proof fn count_is_not_negative(rs: Seq<InpaintResult>, id: u64)
    ensures
        count_for(rs, id) >= 0,
    decreases rs.len(),
{
    if rs.len() > 0 {
        count_is_not_negative(rs.drop_last(), id);
    }
}

/// An overtaken stroke never comes through: once a newer stroke of an item was
/// started, no result of an older one is handed on.
pub proof fn overtaken_strokes_are_dropped(
    latest: Map<u64, u64>,
    item_id: u64,
    newer: u64,
    r: InpaintResult,
)
    requires
        r.item_id == item_id,
        r.generation < newer,
    ensures
        !is_latest(r, latest.insert(item_id, newer)),
{
}

/// What comes back of a stroke reaches the user: the picture of the latest stroke of an
/// item is handed on, a cancel is told, and an error is shown.
pub proof fn strokes_are_answered(rs: Seq<InpaintResult>, latest: Map<u64, u64>, k: int)
    requires
        0 <= k < rs.len(),
    ensures
        !rs[k].cancelled && rs[k].error is None && rs[k].generation > 0 && latest.contains_key(
            rs[k].item_id,
        ) && latest[rs[k].item_id] == rs[k].generation ==> latest_results(rs, latest).contains(
            rs[k],
        ),
        rs[k].cancelled ==> cancelled_items(rs).contains(rs[k].item_id),
        !rs[k].cancelled ==> (rs[k].error matches Some(e) ==> shown_errors(rs).contains(e)),
    decreases rs.len(),
{
    let before = rs.drop_last();
    let a = latest_results(before, latest);
    let b = cancelled_items(before);
    let c = shown_errors(before);
    if k < rs.len() - 1 {
        assert(before[k] == rs[k]);
        strokes_are_answered(before, latest, k);
        if a.contains(rs[k]) {
            let i = a.index_of(rs[k]);
            assert(latest_results(rs, latest)[i] == rs[k]);
        }
        if b.contains(rs[k].item_id) {
            let i = b.index_of(rs[k].item_id);
            assert(cancelled_items(rs)[i] == rs[k].item_id);
        }
        if let Some(e) = rs[k].error {
            if c.contains(e) {
                let i = c.index_of(e);
                assert(shown_errors(rs)[i] == e);
            }
        }
    } else {
        assert(rs.last() == rs[k]);
        if is_latest(rs[k], latest) {
            assert(latest_results(rs, latest)[a.len() as int] == rs[k]);
        }
        if rs[k].cancelled {
            assert(cancelled_items(rs)[b.len() as int] == rs[k].item_id);
        } else if let Some(e) = rs[k].error {
            assert(shown_errors(rs)[c.len() as int] == e);
        }
    }
}

/// A picture that is handed on is one that came back, of a stroke that neither failed
/// nor was cancelled and that no later stroke of its item has overtaken.
pub proof fn handed_on_pictures_are_good(rs: Seq<InpaintResult>, latest: Map<u64, u64>, k: int)
    requires
        0 <= k < latest_results(rs, latest).len(),
    ensures
        ({
            let r = latest_results(rs, latest)[k];
            &&& rs.contains(r)
            &&& !r.cancelled && r.error is None
            &&& latest.contains_key(r.item_id) && latest[r.item_id] == r.generation
        }),
    decreases rs.len(),
{
    if rs.len() > 0 {
        let before = rs.drop_last();
        let a = latest_results(before, latest);
        if k < a.len() {
            handed_on_pictures_are_good(before, latest, k);
            assert(latest_results(rs, latest)[k] == a[k]);
            let i = before.index_of(a[k]);
            assert(rs[i] == a[k]);
        } else {
            assert(rs[rs.len() - 1] == rs.last());
        }
    }
}

/// A stroke that failed or was cancelled never becomes a picture, whatever is latest.
/// Only a cancel by the user is told as one; every other end without a picture has a
/// text.
pub proof fn failures_are_no_pictures(
    r: InpaintResult,
    item_id: u64,
    e: BridgeError,
    latest: Map<u64, u64>,
)
    requires
        reports_error(r, item_id, e),
    ensures
        !is_latest(r, latest),
        r.item_id == item_id,
        r.cancelled <==> e is Cancelled,
        r.error is Some <==> !(e is Cancelled),
        e matches BridgeError::Failed(m) ==> (r.error matches Some(t) && t@ == m@),
{
}

/// Every result that comes back ends one stroke of its item, and of no other.
pub proof fn each_result_ends_one_stroke(
    pending: Map<u64, u32>,
    rs: Seq<InpaintResult>,
    r: InpaintResult,
    id: u64,
)
    ensures
        r.item_id != id ==> left_running(pending, id, count_for(rs.push(r), id)) == left_running(
            pending,
            id,
            count_for(rs, id),
        ),
        r.item_id == id && left_running(pending, id, count_for(rs, id)) > 0 ==> left_running(
            pending,
            id,
            count_for(rs.push(r), id),
        ) == left_running(pending, id, count_for(rs, id)) - 1,
{
    assert(rs.push(r).drop_last() =~= rs);
}

/// The scale that the worker is asked for lies within what the distilled schedule takes,
/// and is the user's own wherever it can be.
pub proof fn guidance_is_the_users_where_it_can_be(scale: Scalar, scheduler: SdScheduler)
    ensures
        scheduler != SdScheduler::Lcm ==> effective_guidance(scale, scheduler) == scale,
        !scale.is_nan() ==> effective_guidance(scale, SdScheduler::Lcm).rank() >= ONE_BITS
            && effective_guidance(scale, SdScheduler::Lcm).rank() <= TWO_BITS,
        ONE_BITS <= scale.rank() <= TWO_BITS ==> effective_guidance(scale, scheduler) == scale,
{
}

/// Handing items out and taking them back leaves strokes, previews, cancels and
/// admission alone.
pub proof fn handing_out_leaves_the_rest_alone(p: Processor, q: Processor)
    requires
        q.only_recipes_differ(&p),
    ensures
        q.cancels == p.cancels,
        q.live_preview == p.live_preview,
        q.admission == p.admission && q.admission_open == p.admission_open,
        q.inpaint_pending == p.inpaint_pending && q.inpaint_cancels == p.inpaint_cancels,
        q.inpaint_latest_gen == p.inpaint_latest_gen && q.inpaint_progress == p.inpaint_progress,
        q.last_history_cleanup == p.last_history_cleanup,
{
}

} // verus!
