//! Life of the eraser's worker process: started at the first stroke, stopped on
//! cancel, when memory runs low, on a switch of the model or after five idle minutes.
//! Every stroke in flight when the worker is stopped is answered. One that comes after
//! a cancel, while the worker is still being started, is dropped with that worker.
use vstd::prelude::*;
use std::collections::HashMap;
use crate::tables::keys_of;
use crate::text::join2;

verus! {

broadcast use vstd::std_specs::hash::group_hash_axioms;

/// Idle time after which the worker is stopped, in nanoseconds.
pub const IDLE_RELEASE: u64 = 300_000_000_000;

/// Free memory below which the worker is killed, in bytes.
pub const MEMORY_PRESSURE_THRESHOLD_BYTES: u64 = 1_073_741_824;

/// Why a stroke was not erased.
pub enum BridgeError {
    /// The user cancelled it.
    Cancelled,
    /// Memory ran low.
    MemoryPressure,
    Failed(String),
}

/// What the bridge reports.
pub enum InpaintBridgeResult {
    Progress { item_id: u64, current: u32, total: u32 },
    Done { item_id: u64, gen: u64, rgba_path: String, width: u32, height: u32 },
    Error { item_id: u64, error: BridgeError },
}

/// What the worker reports.
pub enum InpaintEvent {
    Progress { item_id: u64, current: u32, total: u32 },
    Done { item_id: u64, rgba_path: String, width: u32, height: u32 },
    Error { item_id: u64, error: BridgeError },
    Other,
}

/// A stroke to be sent to the worker.
pub struct PendingDispatch<P> {
    pub item_id: u64,
    pub params: P,
}

/// State of the worker.
pub enum SubState<P> {
    /// There is none.
    Idle,
    /// It is being started. Strokes wait; a cancel meanwhile has it killed as
    /// soon as it is up.
    Spawning { pending: Vec<PendingDispatch<P>>, cancelled: bool },
    /// It is up.
    Ready,
}

/// The bridge between the application and the worker.
pub struct InpaintBridge<P> {
    pub state: SubState<P>,
    /// Latest generation of the stroke in flight for each item.
    pub inflight_gens: HashMap<u64, u64>,
    /// Time of the last use, in nanoseconds.
    pub last_used: u64,
}

/// What is done with a stroke.
pub enum DispatchStep<P> {
    /// Send it to the worker.
    Send(PendingDispatch<P>),
    /// It waits for the worker.
    Queued,
    /// It waits; start the worker.
    Spawn,
}

/// What is done when the worker has started, or has not.
pub enum SpawnStep<P> {
    /// Nothing.
    Nothing,
    /// Kill it: the strokes were cancelled meanwhile.
    Kill,
    /// Send it the strokes that waited, in order.
    Replay(Vec<PendingDispatch<P>>),
    /// Report the failures.
    Fail(Vec<InpaintBridgeResult>),
}

/// What is done on a cancel.
pub struct KillStep {
    /// Whether the worker is killed.
    pub kill: bool,
    /// What is reported, one result for each stroke in flight.
    pub results: Vec<InpaintBridgeResult>,
}

/// Whether results are one error of a kind for each key, each key once.
pub open spec fn one_error_each(
    results: Seq<InpaintBridgeResult>,
    gens: Map<u64, u64>,
    pressure: bool,
) -> bool {
    &&& forall|i: int|
        0 <= i < results.len() ==> (#[trigger] results[i] matches InpaintBridgeResult::Error {
            item_id,
            error,
        } && gens.contains_key(item_id) && (if pressure {
            error is MemoryPressure
        } else {
            error is Cancelled
        }))
    &&& forall|i: int, j: int|
        0 <= i < j < results.len() ==> result_id(results[i]) != result_id(results[j])
    &&& forall|id: u64| #[trigger]
        gens.contains_key(id) ==> exists|i: int|
            0 <= i < results.len() && result_id(#[trigger] results[i]) == id
}

/// Item that a result is about.
pub open spec fn result_id(r: InpaintBridgeResult) -> u64 {
    match r {
        InpaintBridgeResult::Progress { item_id, .. } => item_id,
        InpaintBridgeResult::Done { item_id, .. } => item_id,
        InpaintBridgeResult::Error { item_id, .. } => item_id,
    }
}

/// Whether results are the failure to start, one for each stroke that waited, in
/// order.
pub open spec fn spawn_failures<P>(
    results: Seq<InpaintBridgeResult>,
    pending: Seq<PendingDispatch<P>>,
    reason: Seq<char>,
) -> bool {
    &&& results.len() == pending.len()
    &&& forall|i: int|
        0 <= i < results.len() ==> (#[trigger] results[i] matches InpaintBridgeResult::Error {
            item_id,
            error,
        } && item_id == pending[i].item_id && (error matches BridgeError::Failed(m) && m@
            == "inpaint subprocess spawn failed: "@ + reason))
}

/// Generations after the strokes that waited were dropped.
pub open spec fn without_pending<P>(m: Map<u64, u64>, pending: Seq<PendingDispatch<P>>) -> Map<
    u64,
    u64,
>
    decreases pending.len(),
{
    if pending.len() == 0 {
        m
    } else {
        without_pending(m, pending.drop_last()).remove(pending.last().item_id)
    }
}

/// One error of a kind for each key.
fn errors_for(gens: &HashMap<u64, u64>, pressure: bool) -> (r: Vec<InpaintBridgeResult>)
    ensures
        one_error_each(r@, gens@, pressure),
{
    let keys = keys_of(gens);
    let mut r: Vec<InpaintBridgeResult> = Vec::new();
    let mut k: usize = 0;
    while k < keys.len()
        invariant
            k <= keys@.len(),
            r@.len() == k,
            forall|i: int|
                0 <= i < k ==> (#[trigger] r@[i] matches InpaintBridgeResult::Error {
                    item_id,
                    error,
                } && item_id == keys@[i] && (if pressure {
                    error is MemoryPressure
                } else {
                    error is Cancelled
                })),
        decreases keys@.len() - k,
    {
        let error = if pressure {
            BridgeError::MemoryPressure
        } else {
            BridgeError::Cancelled
        };
        r.push(InpaintBridgeResult::Error { item_id: keys[k], error });
        k += 1;
    }
    proof {
        assert forall|i: int| 0 <= i < r@.len() implies gens@.contains_key(
            result_id(#[trigger] r@[i]),
        ) by {
            assert(keys@.contains(keys@[i]));
        }
        assert forall|id: u64| #[trigger] gens@.contains_key(id) implies exists|i: int|
            0 <= i < r@.len() && result_id(#[trigger] r@[i]) == id by {
            assert(keys@.contains(id));
            let i = keys@.index_of(id);
            assert(result_id(r@[i]) == id);
        }
    }
    r
}

impl<P> InpaintBridge<P> {
    /// A bridge without a worker.
    pub fn new(now: u64) -> (r: InpaintBridge<P>)
        ensures
            r.state is Idle,
            r.inflight_gens@ == Map::<u64, u64>::empty(),
            r.last_used == now,
    {
        InpaintBridge { state: SubState::Idle, inflight_gens: HashMap::new(), last_used: now }
    }

    /// Takes a stroke. Its generation is remembered; a worker that is not up is
    /// started, and strokes wait for it in order.
    pub fn handle_dispatch(&mut self, now: u64, gen: u64, params: PendingDispatch<P>) -> (r:
        DispatchStep<P>)
        ensures
            final(self).last_used == now,
            final(self).inflight_gens@ == old(self).inflight_gens@.insert(params.item_id, gen),
            match old(self).state {
                SubState::Ready => r == DispatchStep::Send(params) && final(self).state is Ready,
                SubState::Spawning { pending, cancelled } => r is Queued && (final(self).state matches SubState::Spawning { pending: p, cancelled: c } && p@
                    == pending@.push(params) && c == cancelled),
                SubState::Idle => r is Spawn && (final(self).state matches SubState::Spawning {
                    pending: p,
                    cancelled: c,
                } && p@ == seq![params] && !c),
            },
    {
        self.last_used = now;
        self.inflight_gens.insert(params.item_id, gen);
        let mut state = SubState::Idle;
        std::mem::swap(&mut self.state, &mut state);
        match state {
            SubState::Ready => {
                self.state = SubState::Ready;
                DispatchStep::Send(params)
            },
            SubState::Spawning { pending, cancelled } => {
                let mut pending = pending;
                pending.push(params);
                self.state = SubState::Spawning { pending, cancelled };
                DispatchStep::Queued
            },
            SubState::Idle => {
                let mut pending: Vec<PendingDispatch<P>> = Vec::new();
                pending.push(params);
                assert(pending@ =~= seq![params]);
                self.state = SubState::Spawning { pending, cancelled: false };
                DispatchStep::Spawn
            },
        }
    }

    /// A stroke could not be sent: it is no longer in flight.
    pub fn send_failed(&mut self, item_id: u64, error: String) -> (r: InpaintBridgeResult)
        ensures
            final(self).state == old(self).state,
            final(self).last_used == old(self).last_used,
            final(self).inflight_gens@ == old(self).inflight_gens@.remove(item_id),
            r == (InpaintBridgeResult::Error { item_id, error: BridgeError::Failed(error) }),
    {
        self.inflight_gens.remove(&item_id);
        InpaintBridgeResult::Error { item_id, error: BridgeError::Failed(error) }
    }

    /// Cancels every stroke in flight. A worker that is up is killed; one that is
    /// being started is killed as soon as it is up. Without a stroke in flight or
    /// without a worker nothing happens.
    pub fn handle_cancel(&mut self) -> (r: KillStep)
        ensures
            final(self).last_used == old(self).last_used,
            if old(self).state is Idle || old(self).inflight_gens@.dom().len() == 0 {
                *final(self) == *old(self) && !r.kill && r.results@.len() == 0
            } else {
                &&& final(self).inflight_gens@ == Map::<u64, u64>::empty()
                &&& one_error_each(r.results@, old(self).inflight_gens@, false)
                &&& r.kill == (old(self).state is Ready)
                &&& match old(self).state {
                    SubState::Spawning { pending, .. } => final(self).state matches SubState::Spawning { pending: p, cancelled: c } && p == pending
                        && c,
                    _ => final(self).state is Idle,
                }
            },
    {
        let idle = match &self.state {
            SubState::Idle => true,
            _ => false,
        };
        if idle || self.inflight_gens.len() == 0 {
            return KillStep { kill: false, results: Vec::new() };
        }
        let results = errors_for(&self.inflight_gens, false);
        self.inflight_gens.clear();
        let mut state = SubState::Idle;
        std::mem::swap(&mut self.state, &mut state);
        match state {
            SubState::Spawning { pending, .. } => {
                self.state = SubState::Spawning { pending, cancelled: true };
                KillStep { kill: false, results }
            },
            _ => KillStep { kill: true, results },
        }
    }

    /// The worker was started, or could not be. Nothing happens unless it was
    /// being started.
    pub fn poll_spawn_result(&mut self, result: Result<(), String>) -> (r: SpawnStep<P>)
        ensures
            final(self).last_used == old(self).last_used,
            match old(self).state {
                SubState::Spawning { pending, cancelled } => match result {
                    Ok(_) => final(self).inflight_gens@ == old(self).inflight_gens@ && if cancelled {
                        r is Kill && final(self).state is Idle
                    } else {
                        r == SpawnStep::Replay(pending) && final(self).state is Ready
                    },
                    Err(e) => final(self).state is Idle && if cancelled {
                        r is Nothing && final(self).inflight_gens@ == old(self).inflight_gens@
                    } else {
                        (r matches SpawnStep::Fail(v) && spawn_failures(v@, pending@, e@)) && final(self).inflight_gens@ == without_pending(old(self).inflight_gens@, pending@)
                    },
                },
                _ => r is Nothing && *final(self) == *old(self),
            },
    {
        let spawning = match &self.state {
            SubState::Spawning { .. } => true,
            _ => false,
        };
        if !spawning {
            return SpawnStep::Nothing;
        }
        let mut state = SubState::Idle;
        std::mem::swap(&mut self.state, &mut state);
        if let SubState::Spawning { pending, cancelled } = state {
            match result {
                Ok(_) => {
                    if cancelled {
                        SpawnStep::Kill
                    } else {
                        self.state = SubState::Ready;
                        SpawnStep::Replay(pending)
                    }
                },
                Err(e) => {
                    if cancelled {
                        SpawnStep::Nothing
                    } else {
                        SpawnStep::Fail(self.fail_pending(&pending, e.as_str()))
                    }
                },
            }
        } else {
            SpawnStep::Nothing
        }
    }

    /// Drops the strokes that waited and reports the failure for each.
    fn fail_pending(&mut self, pending: &Vec<PendingDispatch<P>>, reason: &str) -> (r: Vec<
        InpaintBridgeResult,
    >)
        ensures
            spawn_failures(r@, pending@, reason@),
            final(self).state == old(self).state,
            final(self).last_used == old(self).last_used,
            final(self).inflight_gens@ == without_pending(old(self).inflight_gens@, pending@),
    {
        let mut r: Vec<InpaintBridgeResult> = Vec::new();
        let mut k: usize = 0;
        assert(pending@.take(0) =~= Seq::empty());
        while k < pending.len()
            invariant
                k <= pending@.len(),
                self.state == old(self).state,
                self.last_used == old(self).last_used,
                self.inflight_gens@ == without_pending(
                    old(self).inflight_gens@,
                    pending@.take(k as int),
                ),
                spawn_failures(r@, pending@.take(k as int), reason@),
            decreases pending@.len() - k,
        {
            assert(pending@.take(k as int + 1).drop_last() =~= pending@.take(k as int));
            let id: u64 = pending[k].item_id;
            let message = join2("inpaint subprocess spawn failed: ", reason);
            r.push(InpaintBridgeResult::Error { item_id: id, error: BridgeError::Failed(message) });
            self.inflight_gens.remove(&id);
            k += 1;
        }
        assert(pending@.take(pending@.len() as int) =~= pending@);
        r
    }

    /// Kills a worker that is up and has a stroke in flight when memory runs low.
    /// A machine that reports no free memory at all is not believed.
    pub fn check_memory(&mut self, free: u64) -> (r: KillStep)
        ensures
            r.kill ==> 0 < free < 1024 * 1024 * 1024,
            final(self).last_used == old(self).last_used,
            if old(self).state is Ready && old(self).inflight_gens@.dom().len() > 0 && 0 < free
                < MEMORY_PRESSURE_THRESHOLD_BYTES {
                &&& r.kill
                &&& final(self).state is Idle
                &&& final(self).inflight_gens@ == Map::<u64, u64>::empty()
                &&& one_error_each(r.results@, old(self).inflight_gens@, true)
            } else {
                *final(self) == *old(self) && !r.kill && r.results@.len() == 0
            },
    {
        let ready = match &self.state {
            SubState::Ready => true,
            _ => false,
        };
        if ready && self.inflight_gens.len() > 0 && 0 < free && free
            < MEMORY_PRESSURE_THRESHOLD_BYTES {
            let results = errors_for(&self.inflight_gens, true);
            self.inflight_gens.clear();
            self.state = SubState::Idle;
            KillStep { kill: true, results }
        } else {
            KillStep { kill: false, results: Vec::new() }
        }
    }

    /// Handles what the worker reports. A finished stroke carries the generation
    /// it was sent with, or zero where it is not known. Reports of a worker that
    /// is not up are passed over.
    pub fn on_event(&mut self, now: u64, event: InpaintEvent) -> (r: Option<InpaintBridgeResult>)
        ensures
            final(self).state == old(self).state,
            if !(old(self).state is Ready) {
                r is None && *final(self) == *old(self)
            } else {
                match event {
                    InpaintEvent::Progress { item_id, current, total } => r == Some(
                        InpaintBridgeResult::Progress { item_id, current, total },
                    ) && *final(self) == *old(self),
                    InpaintEvent::Done { item_id, rgba_path, width, height } => r == Some(
                        InpaintBridgeResult::Done {
                            item_id,
                            gen: if old(self).inflight_gens@.contains_key(item_id) {
                                old(self).inflight_gens@[item_id]
                            } else {
                                0
                            },
                            rgba_path,
                            width,
                            height,
                        },
                    ) && final(self).last_used == now && final(self).inflight_gens@
                        == old(self).inflight_gens@.remove(item_id),
                    InpaintEvent::Error { item_id, error } => r == Some(
                        InpaintBridgeResult::Error { item_id, error },
                    ) && final(self).last_used == now && final(self).inflight_gens@
                        == old(self).inflight_gens@.remove(item_id),
                    InpaintEvent::Other => r is None && *final(self) == *old(self),
                }
            },
    {
        match &self.state {
            SubState::Ready => {},
            _ => {
                return None;
            },
        }
        match event {
            InpaintEvent::Progress { item_id, current, total } => {
                Some(InpaintBridgeResult::Progress { item_id, current, total })
            },
            InpaintEvent::Done { item_id, rgba_path, width, height } => {
                self.last_used = now;
                let gen: u64 = match self.inflight_gens.remove(&item_id) {
                    Some(g) => g,
                    None => 0,
                };
                Some(InpaintBridgeResult::Done { item_id, gen, rgba_path, width, height })
            },
            InpaintEvent::Error { item_id, error } => {
                self.last_used = now;
                self.inflight_gens.remove(&item_id);
                Some(InpaintBridgeResult::Error { item_id, error })
            },
            InpaintEvent::Other => None,
        }
    }

    /// Stops a worker that has been idle for too long. `worker_idle` says whether
    /// it works on nothing. Says whether it is to be shut down.
    pub fn release_if_idle(&mut self, now: u64, worker_idle: bool) -> (r: bool)
        ensures
            r == (old(self).state is Ready && worker_idle && now > old(self).last_used && now
                - old(self).last_used > IDLE_RELEASE),
            r ==> now - old(self).last_used > 5 * 60 * 1_000_000_000,
            final(self).inflight_gens == old(self).inflight_gens,
            final(self).last_used == old(self).last_used,
            r ==> final(self).state is Idle,
            !r ==> final(self).state == old(self).state,
    {
        let ready = match &self.state {
            SubState::Ready => true,
            _ => false,
        };
        if ready && worker_idle && now.saturating_sub(self.last_used) > IDLE_RELEASE {
            self.state = SubState::Idle;
            true
        } else {
            false
        }
    }

    /// Whether a worker is held: it is up, or will be kept once it is.
    pub open spec fn holds_worker(&self) -> bool {
        match self.state {
            SubState::Idle => false,
            SubState::Spawning { cancelled, .. } => !cancelled,
            SubState::Ready => true,
        }
    }

    /// Lets go of the worker, so that it takes no memory after the model was switched.
    /// One that is up is to be stopped; one that is being started is killed as soon as
    /// it is up. Strokes in flight are answered as cancelled. Without a worker nothing
    /// happens.
    pub fn release(&mut self) -> (r: KillStep)
        ensures
            !final(self).holds_worker(),
            r.kill == (old(self).state is Ready),
            final(self).last_used == old(self).last_used,
            match old(self).state {
                SubState::Idle => *final(self) == *old(self) && r.results@.len() == 0,
                SubState::Ready => {
                    &&& final(self).state is Idle
                    &&& final(self).inflight_gens@ == Map::<u64, u64>::empty()
                    &&& one_error_each(r.results@, old(self).inflight_gens@, false)
                },
                SubState::Spawning { pending, .. } => {
                    &&& final(self).state == (SubState::Spawning { pending, cancelled: true })
                    &&& final(self).inflight_gens@ == Map::<u64, u64>::empty()
                    &&& one_error_each(r.results@, old(self).inflight_gens@, false)
                },
            },
    {
        let mut state = SubState::Idle;
        std::mem::swap(&mut self.state, &mut state);
        match state {
            SubState::Idle => KillStep { kill: false, results: Vec::new() },
            SubState::Ready => {
                let results = errors_for(&self.inflight_gens, false);
                self.inflight_gens.clear();
                KillStep { kill: true, results }
            },
            SubState::Spawning { pending, .. } => {
                self.state = SubState::Spawning { pending, cancelled: true };
                let results = errors_for(&self.inflight_gens, false);
                self.inflight_gens.clear();
                KillStep { kill: false, results }
            },
        }
    }

    /// The application has gone: says whether a worker has to be shut down.
    pub fn disconnect(&mut self) -> (r: bool)
        ensures
            r == (old(self).state is Ready),
            final(self).state == if r {
                SubState::Idle
            } else {
                old(self).state
            },
            final(self).inflight_gens == old(self).inflight_gens,
            final(self).last_used == old(self).last_used,
    {
        let ready = match &self.state {
            SubState::Ready => true,
            _ => false,
        };
        if ready {
            self.state = SubState::Idle;
        }
        ready
    }
}

/// The segmentation worker that is kept warm between batches, where there is one.
#[derive(Clone, Copy, Debug, PartialEq, Eq, Structural)]
pub struct WarmWorker {
    pub held: bool,
}

impl WarmWorker {
    /// Lets go of the worker. Says whether there was one, which is then to be stopped.
    pub fn release(&mut self) -> (r: bool)
        ensures
            r == old(self).held,
            !final(self).held,
    {
        let was: bool = self.held;
        self.held = false;
        was
    }
}

/// What is done when the model is switched.
pub struct ModelSwitch {
    /// What becomes of the eraser's worker and its strokes.
    pub eraser: KillStep,
    /// Whether the segmentation worker is stopped.
    pub segmentation: bool,
    /// What the user is told.
    pub text: String,
}

/// Switches the model to the one with the given name. Neither the eraser's worker nor
/// the warm segmentation worker is held across the switch.
pub fn switch_model<P>(bridge: &mut InpaintBridge<P>, warm: &mut WarmWorker, name: &str) -> (r:
    ModelSwitch)
    ensures
        !final(bridge).holds_worker(),
        !final(warm).held,
        r.segmentation == old(warm).held,
        r.eraser.kill == (old(bridge).state is Ready),
        final(bridge).last_used == old(bridge).last_used,
        match old(bridge).state {
            SubState::Idle => *final(bridge) == *old(bridge) && r.eraser.results@.len() == 0,
            _ => {
                &&& final(bridge).inflight_gens@ == Map::<u64, u64>::empty()
                &&& one_error_each(r.eraser.results@, old(bridge).inflight_gens@, false)
            },
        },
        r.text@ == name@ + " loaded"@,
{
    let eraser = bridge.release();
    let segmentation = warm.release();
    ModelSwitch { eraser, segmentation, text: join2(name, " loaded") }
}

/// After a failure to start, exactly the items whose strokes waited have none in
/// flight any more; those of the others keep their generation.
pub proof fn strokes_that_waited_are_dropped<P>(
    m: Map<u64, u64>,
    pending: Seq<PendingDispatch<P>>,
    id: u64,
)
    ensures
        without_pending(m, pending).contains_key(id) <==> m.contains_key(id) && (forall|i: int|
            0 <= i < pending.len() ==> (#[trigger] pending[i]).item_id != id),
        without_pending(m, pending).contains_key(id) ==> without_pending(m, pending)[id] == m[id],
    decreases pending.len(),
{
    if pending.len() > 0 {
        let rest = pending.drop_last();
        strokes_that_waited_are_dropped(m, rest, id);
        assert forall|i: int| 0 <= i < rest.len() implies (#[trigger] rest[i]) == pending[i] by {}
        if forall|i: int| 0 <= i < rest.len() ==> (#[trigger] rest[i]).item_id != id {
            assert forall|i: int| 0 <= i < pending.len() && pending.last().item_id
                != id implies (#[trigger] pending[i]).item_id != id by {
                if i < rest.len() {
                    assert(rest[i].item_id != id);
                }
            }
            assert(pending[pending.len() - 1] == pending.last());
        } else {
            let i = choose|i: int| 0 <= i < rest.len() && (#[trigger] rest[i]).item_id == id;
            assert(pending[i].item_id == id);
        }
    }
}

/// Each stroke in flight is answered exactly once when the worker is stopped, with the
/// reason, and nothing else is reported: no picture and no progress.
pub proof fn stopped_strokes_are_answered_once(
    results: Seq<InpaintBridgeResult>,
    gens: Map<u64, u64>,
    pressure: bool,
    id: u64,
    i: int,
    j: int,
)
    requires
        one_error_each(results, gens, pressure),
        0 <= i < results.len(),
        0 <= j < results.len(),
    ensures
        results[i] is Error,
        pressure ==> results[i]->Error_error is MemoryPressure,
        !pressure ==> results[i]->Error_error is Cancelled,
        gens.contains_key(results[i]->Error_item_id),
        results[i]->Error_item_id == results[j]->Error_item_id ==> i == j,
        gens.contains_key(id) ==> exists|k: int|
            0 <= k < results.len() && (#[trigger] results[k])->Error_item_id == id,
{
    assert(result_id(results[i]) == results[i]->Error_item_id);
    assert(result_id(results[j]) == results[j]->Error_item_id);
    if i < j {
        assert(result_id(results[i]) != result_id(results[j]));
    }
    if j < i {
        assert(result_id(results[j]) != result_id(results[i]));
    }
    if gens.contains_key(id) {
        let k = choose|k: int| 0 <= k < results.len() && result_id(#[trigger] results[k]) == id;
        assert(results[k]->Error_item_id == id);
    }
}

/// Every stroke that waited for a worker that did not start is told of it, in order,
/// with the reason at the end.
pub proof fn failures_to_start_are_told<P>(
    results: Seq<InpaintBridgeResult>,
    pending: Seq<PendingDispatch<P>>,
    reason: Seq<char>,
    i: int,
)
    requires
        spawn_failures(results, pending, reason),
        0 <= i < pending.len(),
    ensures
        results.len() == pending.len(),
        results[i] is Error,
        results[i]->Error_item_id == pending[i].item_id,
        results[i]->Error_error is Failed,
        reason.is_suffix_of(results[i]->Error_error->Failed_0@),
{
    assert(results[i] is Error);
    let m = results[i]->Error_error->Failed_0@;
    let head = "inpaint subprocess spawn failed: "@;
    assert(m == head + reason);
    assert(m.subrange(m.len() - reason.len(), m.len() as int) =~= reason);
}

} // verus!
