//! Downloads of models: one at a time, the others wait their turn; a download
//! that fails in passing is tried again; a file only counts once its checksum is
//! right.
use vstd::prelude::*;
use std::collections::{HashMap, VecDeque};
use crate::checksum::{checksum_matches, hex_text, same_checksum, sha256, Checksum};
use crate::pipeline::ModelId;
use crate::presets::{key_of, model_id_key};
use crate::text::{join2, join3};

verus! {

broadcast use vstd::std_specs::hash::group_hash_axioms;

/// Where the download of a model is.
#[derive(Debug, PartialEq, Eq)]
pub enum DownloadState {
    Idle,
    Queued,
    InProgress { bytes_so_far: u64, total_bytes: u64 },
    Verifying,
    Failed { error: String, retryable: bool },
    Done,
}

impl Clone for DownloadState {
    fn clone(&self) -> (r: DownloadState)
        ensures
            r == *self,
    {
        match self {
            DownloadState::Idle => DownloadState::Idle,
            DownloadState::Queued => DownloadState::Queued,
            DownloadState::InProgress { bytes_so_far, total_bytes } => DownloadState::InProgress {
                bytes_so_far: *bytes_so_far,
                total_bytes: *total_bytes,
            },
            DownloadState::Verifying => DownloadState::Verifying,
            DownloadState::Failed { error, retryable } => DownloadState::Failed {
                error: error.clone(),
                retryable: *retryable,
            },
            DownloadState::Done => DownloadState::Done,
        }
    }
}

/// What a download reports.
#[derive(Debug)]
pub enum DownloadEvent {
    Progress { id: ModelId, bytes_so_far: u64, total: u64 },
    Verifying { id: ModelId },
    Complete { id: ModelId },
    Failed { id: ModelId, error: String, retryable: bool },
}

/// How a model can be had.
pub enum ModelOffer {
    /// Nothing is known of it.
    Unknown,
    /// It comes with the application.
    Bundled,
    /// The system has no directory for it.
    NoDataDir,
    /// Its directory cannot be made.
    DirFailed { error: String },
    /// It can be downloaded; the number of its bytes.
    Download { total_bytes: u64 },
}

/// A download to be started.
#[derive(Clone, Copy, Debug, PartialEq, Eq, Structural)]
pub struct StartDownload {
    pub id: ModelId,
    pub total_bytes: u64,
}

/// What draining events brings.
pub struct Pumped {
    /// The events, for the user.
    pub events: Vec<DownloadEvent>,
    /// The model whose turn it is.
    pub next: Option<ModelId>,
}

/// Downloads of models.
pub struct DownloadManager {
    /// State of each model, by its number.
    pub states: HashMap<u64, DownloadState>,
    pub queue: VecDeque<ModelId>,
    /// Whether the download of a model was cancelled, by its number.
    pub cancel_flags: HashMap<u64, bool>,
    /// Events that have not been drained.
    pub outbox: Vec<DownloadEvent>,
    pub active: Option<ModelId>,
}

/// A queue without one model.
pub open spec fn without_model(s: Seq<ModelId>, id: ModelId) -> Seq<ModelId>
    decreases s.len(),
{
    if s.len() == 0 {
        s
    } else if s.last() == id {
        without_model(s.drop_last(), id)
    } else {
        without_model(s.drop_last(), id).push(s.last())
    }
}

/// States after an event.
pub open spec fn state_after(event: DownloadEvent) -> (ModelId, DownloadState) {
    match event {
        DownloadEvent::Progress { id, bytes_so_far, total } => (
            id,
            DownloadState::InProgress { bytes_so_far, total_bytes: total },
        ),
        DownloadEvent::Verifying { id } => (id, DownloadState::Verifying),
        DownloadEvent::Complete { id } => (id, DownloadState::Done),
        DownloadEvent::Failed { id, error, retryable } => (
            id,
            DownloadState::Failed { error, retryable },
        ),
    }
}

/// Whether an event ends a download.
pub open spec fn ends(event: DownloadEvent) -> bool {
    event is Complete || event is Failed
}

/// What a manager knows: states by model number, and the cancel flags.
pub struct Downloads {
    pub states: Map<u64, DownloadState>,
    pub cancel_flags: Map<u64, bool>,
    pub active: Option<ModelId>,
}

impl Downloads {
    /// After an event.
    pub open spec fn after(self, event: DownloadEvent) -> Downloads {
        let (id, state) = state_after(event);
        Downloads {
            states: self.states.insert(id.code(), state),
            cancel_flags: if ends(event) {
                self.cancel_flags.remove(id.code())
            } else {
                self.cancel_flags
            },
            active: if ends(event) && self.active == Some(id) {
                None
            } else {
                self.active
            },
        }
    }

    /// After several events, in order.
    pub open spec fn after_all(self, events: Seq<DownloadEvent>) -> Downloads
        decreases events.len(),
    {
        if events.len() == 0 {
            self
        } else {
            self.after_all(events.drop_last()).after(events.last())
        }
    }
}

proof fn without_model_props(s: Seq<ModelId>, id: ModelId)
    ensures
        !without_model(s, id).contains(id),
        forall|x: ModelId| x != id ==> (without_model(s, id).contains(x) <==> s.contains(x)),
        s.no_duplicates() ==> without_model(s, id).no_duplicates(),
    decreases s.len(),
{
    if s.len() > 0 {
        let t = s.drop_last();
        let a = without_model(t, id);
        let r = without_model(s, id);
        without_model_props(t, id);
        assert forall|x: ModelId| x != id implies (r.contains(x) <==> s.contains(x)) by {
            if s.contains(x) {
                let i = s.index_of(x);
                if i < t.len() {
                    assert(t[i] == x);
                    assert(t.contains(x));
                    assert(a[a.index_of(x)] == x);
                    assert(r[a.index_of(x)] == x);
                } else {
                    assert(r[r.len() - 1] == x);
                }
            }
            if r.contains(x) {
                let i = r.index_of(x);
                if i < a.len() {
                    assert(a[i] == x);
                    assert(t.contains(x));
                    assert(s[t.index_of(x)] == x);
                } else {
                    assert(s[s.len() - 1] == x);
                }
            }
        }
        if r.contains(id) {
            let i = r.index_of(id);
            if i < a.len() {
                assert(a[i] == id);
            }
        }
        if s.no_duplicates() {
            assert(t.no_duplicates());
            if s.last() != id {
                assert(!a.contains(s.last())) by {
                    if a.contains(s.last()) {
                        assert(t.contains(s.last()));
                        let i = t.index_of(s.last());
                        assert(s[i] == s[s.len() - 1]);
                    }
                }
                assert forall|i: int, j: int|
                    0 <= i < r.len() && 0 <= j < r.len() && i != j implies r[i] != r[j] by {
                    if i < a.len() && j < a.len() {
                        assert(a[i] != a[j]);
                    } else if i < a.len() {
                        assert(a.contains(a[i]));
                    } else {
                        assert(a.contains(a[j]));
                    }
                }
            }
        }
    }
}

impl DownloadManager {
    /// What the manager knows.
    pub open spec fn view(&self) -> Downloads {
        Downloads {
            states: self.states@,
            cancel_flags: self.cancel_flags@,
            active: self.active,
        }
    }

    /// State of a model; idle where nothing was ever done with it.
    pub open spec fn state_of(&self, id: ModelId) -> DownloadState {
        if self.states@.contains_key(id.code()) {
            self.states@[id.code()]
        } else {
            DownloadState::Idle
        }
    }

    /// Every model that waits is queued once and says so.
    pub open spec fn wf(&self) -> bool {
        &&& self.queue@.no_duplicates()
        &&& forall|i: int| 0 <= i < self.queue@.len() ==> self.state_of(#[trigger] self.queue@[i]) is Queued
    }

    /// Whether a download of a model runs or waits.
    pub open spec fn busy(&self, id: ModelId) -> bool {
        self.state_of(id) is InProgress || self.state_of(id) is Queued || self.state_of(
            id,
        ) is Verifying
    }

    /// No downloads.
    pub fn new() -> (r: DownloadManager)
        ensures
            r.wf(),
            r.states@ == Map::<u64, DownloadState>::empty(),
            r.queue@.len() == 0,
            r.cancel_flags@ == Map::<u64, bool>::empty(),
            r.outbox@.len() == 0,
            r.active is None,
    {
        DownloadManager {
            states: HashMap::new(),
            queue: VecDeque::new(),
            cancel_flags: HashMap::new(),
            outbox: Vec::new(),
            active: None,
        }
    }

    /// State of a model; idle where nothing was ever done with it.
    pub fn state(&self, id: ModelId) -> (r: DownloadState)
        ensures
            r == self.state_of(id),
    {
        match self.states.get(&id.to_code()) {
            Some(s) => s.clone(),
            None => DownloadState::Idle,
        }
    }

    /// Asks for a model. One that is installed is done; one that runs or waits
    /// stays as it is; another one starts, or waits while a download runs.
    pub fn start_download(&mut self, id: ModelId, installed: bool, offer: &ModelOffer) -> (r: Option<
        StartDownload,
    >)
        ensures
            if installed {
                &&& r is None
                &&& final(self)@ == (Downloads {
                    states: old(self).states@.insert(id.code(), DownloadState::Done),
                    ..old(self)@
                })
                &&& final(self).queue == old(self).queue
                &&& final(self).outbox == old(self).outbox
            } else if old(self).busy(id) {
                r is None && *final(self) == *old(self)
            } else if old(self).active is Some {
                &&& r is None
                &&& final(self)@ == (Downloads {
                    states: old(self).states@.insert(id.code(), DownloadState::Queued),
                    ..old(self)@
                })
                &&& final(self).queue@ == old(self).queue@.push(id)
                &&& final(self).outbox == old(self).outbox
            } else {
                kicked_off(old(self), final(self), id, *offer, r)
            },
            old(self).wf() && !installed ==> final(self).wf(),
            old(self).wf() && installed && !old(self).queue@.contains(id) ==> final(self).wf(),
    {
        if installed {
            self.states.insert(id.to_code(), DownloadState::Done);
            proof {
                self.other_states_kept(old(self), id);
            }
            return None;
        }
        let busy = match self.state(id) {
            DownloadState::InProgress { .. } => true,
            DownloadState::Queued => true,
            DownloadState::Verifying => true,
            _ => false,
        };
        if busy {
            return None;
        }
        if self.active.is_some() {
            self.states.insert(id.to_code(), DownloadState::Queued);
            self.queue.push_back(id);
            proof {
                self.other_states_kept(old(self), id);
                if old(self).wf() {
                    let q = old(self).queue@;
                    assert(!q.contains(id)) by {
                        if q.contains(id) {
                            assert(old(self).state_of(q[q.index_of(id)]) is Queued);
                        }
                    }
                    assert forall|i: int| 0 <= i < self.queue@.len() implies self.state_of(
                        #[trigger] self.queue@[i],
                    ) is Queued by {
                        if i < q.len() {
                            assert(self.queue@[i] == q[i]);
                            assert(old(self).state_of(q[i]) is Queued);
                        }
                    }
                    assert(self.queue@.no_duplicates());
                }
            }
            None
        } else {
            let r = self.kick_off(id, offer);
            proof {
                if old(self).wf() {
                    let q = old(self).queue@;
                    assert forall|i: int| 0 <= i < self.queue@.len() implies self.state_of(
                        #[trigger] self.queue@[i],
                    ) is Queued by {
                        assert(old(self).state_of(q[i]) is Queued);
                        ModelId::code_identifies(q[i], id);
                    }
                }
            }
            r
        }
    }

    proof fn other_states_kept(&self, before: &DownloadManager, id: ModelId)
        requires
            exists|s: DownloadState| self.states@ == #[trigger] before.states@.insert(id.code(), s),
        ensures
            forall|x: ModelId| x != id ==> #[trigger] self.state_of(x) == before.state_of(x),
    {
        assert forall|x: ModelId| x != id implies #[trigger] self.state_of(x) == before.state_of(
            x,
        ) by {
            ModelId::code_identifies(x, id);
        }
    }

    /// Cancels the download of a model. One that runs is told to stop; one that
    /// waits leaves the queue.
    pub fn cancel_download(&mut self, id: ModelId)
        ensures
            final(self).queue@ == without_model(old(self).queue@, id),
            final(self).active == old(self).active,
            final(self).outbox == old(self).outbox,
            final(self).cancel_flags@ == if old(self).cancel_flags@.contains_key(id.code()) {
                old(self).cancel_flags@.insert(id.code(), true)
            } else {
                old(self).cancel_flags@
            },
            final(self).states@ == if old(self).active == Some(id) {
                old(self).states@
            } else {
                old(self).states@.insert(id.code(), DownloadState::Idle)
            },
            old(self).wf() ==> final(self).wf(),
    {
        let code: u64 = id.to_code();
        if self.cancel_flags.contains_key(&code) {
            self.cancel_flags.insert(code, true);
        }
        let ghost q = self.queue@;
        let mut kept: VecDeque<ModelId> = VecDeque::new();
        let mut i: usize = 0;
        assert(q.take(0) =~= Seq::empty());
        while i < self.queue.len()
            invariant
                i <= self.queue@.len(),
                self.queue@ == q,
                self.states == old(self).states,
                self.active == old(self).active,
                self.outbox == old(self).outbox,
                self.cancel_flags@ == (if old(self).cancel_flags@.contains_key(id.code()) {
                    old(self).cancel_flags@.insert(id.code(), true)
                } else {
                    old(self).cancel_flags@
                }),
                kept@ == without_model(q.take(i as int), id),
            decreases self.queue@.len() - i,
        {
            assert(q.take(i as int + 1).drop_last() =~= q.take(i as int));
            let m = self.queue[i];
            if m != id {
                kept.push_back(m);
            }
            i += 1;
        }
        assert(q.take(q.len() as int) =~= q);
        self.queue = kept;
        let running = match self.active {
            Some(a) => a == id,
            None => false,
        };
        if !running {
            self.states.insert(code, DownloadState::Idle);
        }
        proof {
            without_model_props(q, id);
            if old(self).wf() {
                assert forall|j: int| 0 <= j < self.queue@.len() implies self.state_of(
                    #[trigger] self.queue@[j],
                ) is Queued by {
                    let x = self.queue@[j];
                    assert(self.queue@.contains(x));
                    assert(q.contains(x));
                    assert(old(self).state_of(q[q.index_of(x)]) is Queued);
                    ModelId::code_identifies(x, id);
                }
            }
        }
    }

    /// Takes the events that came, together with those the manager has for
    /// itself. When no download runs, the model that waits longest is up next.
    pub fn pump(&mut self, events: Vec<DownloadEvent>) -> (r: Pumped)
        ensures
            r.events@ == old(self).outbox@ + events@,
            final(self)@ == old(self)@.after_all(old(self).outbox@ + events@),
            final(self).outbox@.len() == 0,
            if final(self).active is None && old(self).queue@.len() > 0 {
                r.next == Some(old(self).queue@[0]) && final(self).queue@ == old(self).queue@.skip(1)
            } else {
                r.next is None && final(self).queue@ == old(self).queue@
            },
    {
        let mut all: Vec<DownloadEvent> = Vec::new();
        std::mem::swap(&mut all, &mut self.outbox);
        let mut more = events;
        all.append(&mut more);
        let ghost evs = all@;
        let mut i: usize = 0;
        assert(evs.take(0) =~= Seq::empty());
        while i < all.len()
            invariant
                i <= all@.len(),
                all@ == evs,
                self@ == old(self)@.after_all(evs.take(i as int)),
                self.queue == old(self).queue,
                self.outbox@.len() == 0,
            decreases all@.len() - i,
        {
            assert(evs.take(i as int + 1).drop_last() =~= evs.take(i as int));
            self.apply_event(&all[i]);
            i += 1;
        }
        assert(evs.take(evs.len() as int) =~= evs);
        let next = if self.active.is_none() && self.queue.len() > 0 {
            self.queue.pop_front()
        } else {
            None
        };
        proof {
            let q = old(self).queue@;
            assert(q.len() > 0 ==> q.subrange(1, q.len() as int) =~= q.skip(1));
        }
        Pumped { events: all, next }
    }

    /// Takes one event.
    pub fn apply_event(&mut self, event: &DownloadEvent)
        ensures
            final(self)@ == old(self)@.after(*event),
            final(self).queue == old(self).queue,
            final(self).outbox == old(self).outbox,
    {
        match event {
            DownloadEvent::Progress { id, bytes_so_far, total } => {
                self.states.insert(
                    id.to_code(),
                    DownloadState::InProgress { bytes_so_far: *bytes_so_far, total_bytes: *total },
                );
            },
            DownloadEvent::Verifying { id } => {
                self.states.insert(id.to_code(), DownloadState::Verifying);
            },
            DownloadEvent::Complete { id } => {
                self.states.insert(id.to_code(), DownloadState::Done);
                self.ended(*id);
            },
            DownloadEvent::Failed { id, error, retryable } => {
                self.states.insert(
                    id.to_code(),
                    DownloadState::Failed { error: error.clone(), retryable: *retryable },
                );
                self.ended(*id);
            },
        }
    }

    /// A download has ended: its cancel flag is forgotten, and another can start.
    fn ended(&mut self, id: ModelId)
        ensures
            final(self).states == old(self).states,
            final(self).queue == old(self).queue,
            final(self).outbox == old(self).outbox,
            final(self).cancel_flags@ == old(self).cancel_flags@.remove(id.code()),
            final(self).active == if old(self).active == Some(id) {
                None
            } else {
                old(self).active
            },
    {
        self.cancel_flags.remove(&id.to_code());
        let running = match self.active {
            Some(a) => a == id,
            None => false,
        };
        if running {
            self.active = None;
        }
    }

    /// Starts the download of a model, or records why it cannot be had.
    pub fn kick_off(&mut self, id: ModelId, offer: &ModelOffer) -> (r: Option<StartDownload>)
        ensures
            kicked_off(old(self), final(self), id, *offer, r),
    {
        match offer {
            ModelOffer::Unknown => {
                let key = model_id_key(id);
                self.send_failure(id, join2("Unknown model id: ", key.as_str()), false);
                None
            },
            ModelOffer::Bundled => {
                let key = model_id_key(id);
                self.send_failure(
                    id,
                    join2(key.as_str(), " is bundled \u{2014} no download path"),
                    false,
                );
                None
            },
            ModelOffer::NoDataDir => {
                self.send_failure(id, "Could not resolve user data directory".to_owned(), false);
                None
            },
            ModelOffer::DirFailed { error } => {
                self.send_failure(
                    id,
                    join2("Could not create models directory: ", error.as_str()),
                    true,
                );
                None
            },
            ModelOffer::Download { total_bytes } => {
                self.begin_active(id, *total_bytes);
                Some(StartDownload { id, total_bytes: *total_bytes })
            },
        }
    }

    /// A download starts: it is the one that runs, and it is not cancelled.
    fn begin_active(&mut self, id: ModelId, total_bytes: u64)
        ensures
            final(self)@ == (Downloads {
                states: old(self).states@.insert(
                    id.code(),
                    DownloadState::InProgress { bytes_so_far: 0, total_bytes },
                ),
                cancel_flags: old(self).cancel_flags@.insert(id.code(), false),
                active: Some(id),
            }),
            final(self).queue == old(self).queue,
            final(self).outbox == old(self).outbox,
    {
        self.cancel_flags.insert(id.to_code(), false);
        self.active = Some(id);
        self.states.insert(
            id.to_code(),
            DownloadState::InProgress { bytes_so_far: 0, total_bytes },
        );
    }

    /// A model cannot be had: its state says so, and so does an event.
    fn send_failure(&mut self, id: ModelId, error: String, retryable: bool)
        ensures
            refused(old(self), final(self), id, error@, retryable),
    {
        assert(same_reason(error, error@));
        let copy = error.clone();
        self.states.insert(id.to_code(), DownloadState::Failed { error: copy, retryable });
        self.outbox.push(DownloadEvent::Failed { id, error, retryable });
    }
}

/// Whether `b` is `a` after a model could not be had, for the given reason.
pub open spec fn refused(
    a: &DownloadManager,
    b: &DownloadManager,
    id: ModelId,
    reason: Seq<char>,
    retryable: bool,
) -> bool {
    &&& b.queue == a.queue
    &&& b.cancel_flags == a.cancel_flags
    &&& b.active == a.active
    &&& exists|error: String| #[trigger]
        same_reason(error, reason) && b.states@ == a.states@.insert(
            id.code(),
            DownloadState::Failed { error, retryable },
        ) && b.outbox@ == a.outbox@.push(DownloadEvent::Failed { id, error, retryable })
}

/// Whether a message has the given text.
pub open spec fn same_reason(error: String, reason: Seq<char>) -> bool {
    error@ == reason
}

/// Whether `b` is `a` after the download of a model was started, or was refused.
pub open spec fn kicked_off(
    a: &DownloadManager,
    b: &DownloadManager,
    id: ModelId,
    offer: ModelOffer,
    r: Option<StartDownload>,
) -> bool {
    match offer {
        ModelOffer::Download { total_bytes } => {
            &&& r == Some(StartDownload { id, total_bytes })
            &&& b@ == (Downloads {
                states: a.states@.insert(
                    id.code(),
                    DownloadState::InProgress { bytes_so_far: 0, total_bytes },
                ),
                cancel_flags: a.cancel_flags@.insert(id.code(), false),
                active: Some(id),
            })
            &&& b.queue == a.queue
            &&& b.outbox == a.outbox
        },
        ModelOffer::Unknown => r is None && refused(
            a,
            b,
            id,
            "Unknown model id: "@ + key_of(id),
            false,
        ),
        ModelOffer::Bundled => r is None && refused(
            a,
            b,
            id,
            key_of(id) + " is bundled \u{2014} no download path"@,
            false,
        ),
        ModelOffer::NoDataDir => r is None && refused(
            a,
            b,
            id,
            "Could not resolve user data directory"@,
            false,
        ),
        ModelOffer::DirFailed { error } => r is None && refused(
            a,
            b,
            id,
            "Could not create models directory: "@ + error@,
            true,
        ),
    }
}

/// Bytes of a model of the given size in mebibytes.
pub fn total_bytes_of(size_mb: u32) -> (r: u64)
    ensures
        r == size_mb as int * 1_048_576,
{
    size_mb as u64 * 1_048_576
}

/// One file of a model that comes in several.
pub struct ModelPart {
    pub key: String,
    pub size_bytes: u64,
}

/// Bytes of the first files of a model.
pub open spec fn parts_total(parts: Seq<ModelPart>) -> int
    decreases parts.len(),
{
    if parts.len() == 0 {
        0
    } else {
        parts_total(parts.drop_last()) + parts.last().size_bytes
    }
}

/// Download of a model that comes in several files, one after the other. Its
/// progress is that of all of them together.
pub struct MultiPart {
    pub id: ModelId,
    pub parts: Vec<ModelPart>,
    /// Number of files that are there.
    pub done: usize,
    pub bytes_done: u64,
    pub total: u64,
}

proof fn parts_total_grows(parts: Seq<ModelPart>, n: int)
    requires
        0 <= n <= parts.len(),
    ensures
        0 <= parts_total(parts.take(n)) <= parts_total(parts),
        n < parts.len() ==> parts_total(parts.take(n)) + parts[n].size_bytes == parts_total(
            parts.take(n + 1),
        ) && parts_total(parts.take(n + 1)) <= parts_total(parts),
    decreases parts.len() - n,
{
    if n < parts.len() {
        parts_total_grows(parts, n + 1);
        assert(parts.take(n + 1).drop_last() =~= parts.take(n));
        parts_total_nonnegative(parts.take(n));
    } else {
        assert(parts.take(n) =~= parts);
        parts_total_nonnegative(parts);
    }
}

proof fn parts_total_nonnegative(parts: Seq<ModelPart>)
    ensures
        parts_total(parts) >= 0,
    decreases parts.len(),
{
    if parts.len() > 0 {
        parts_total_nonnegative(parts.drop_last());
    }
}

impl MultiPart {
    /// The bytes done are those of the files that are there.
    pub open spec fn wf(&self) -> bool {
        &&& self.done <= self.parts@.len()
        &&& self.bytes_done == parts_total(self.parts@.take(self.done as int))
        &&& self.total == parts_total(self.parts@)
    }

    /// A download with none of its files.
    pub fn new(id: ModelId, parts: Vec<ModelPart>) -> (r: MultiPart)
        requires
            parts_total(parts@) <= u64::MAX,
        ensures
            r.wf(),
            r.id == id,
            r.parts == parts,
            r.done == 0,
    {
        let mut total: u64 = 0;
        let mut i: usize = 0;
        assert(parts@.take(0) =~= Seq::empty());
        while i < parts.len()
            invariant
                i <= parts@.len(),
                parts_total(parts@) <= u64::MAX,
                total == parts_total(parts@.take(i as int)),
            decreases parts@.len() - i,
        {
            proof {
                parts_total_grows(parts@, i as int);
            }
            total = total + parts[i].size_bytes;
            i += 1;
        }
        assert(parts@.take(parts@.len() as int) =~= parts@);
        MultiPart { id, parts, done: 0, bytes_done: 0, total }
    }

    /// The file that is up next.
    pub fn current(&self) -> (r: Option<&ModelPart>)
        ensures
            match r {
                Some(p) => self.done < self.parts@.len() && *p == self.parts@[self.done as int],
                None => self.done >= self.parts@.len(),
            },
    {
        if self.done < self.parts.len() {
            Some(&self.parts[self.done])
        } else {
            None
        }
    }

    /// The file that is up next is there already from an earlier try: it counts,
    /// and progress is reported.
    pub fn already_there(&mut self) -> (r: DownloadEvent)
        requires
            old(self).wf(),
            old(self).done < old(self).parts@.len(),
        ensures
            final(self).wf(),
            final(self).done == old(self).done + 1,
            final(self).parts == old(self).parts,
            final(self).id == old(self).id,
            r == (DownloadEvent::Progress {
                id: old(self).id,
                bytes_so_far: final(self).bytes_done,
                total: old(self).total,
            }),
    {
        self.downloaded();
        DownloadEvent::Progress { id: self.id, bytes_so_far: self.bytes_done, total: self.total }
    }

    /// The file that is up next was downloaded: it counts.
    pub fn downloaded(&mut self)
        requires
            old(self).wf(),
            old(self).done < old(self).parts@.len(),
        ensures
            final(self).wf(),
            final(self).done == old(self).done + 1,
            final(self).parts == old(self).parts,
            final(self).id == old(self).id,
            final(self).total == old(self).total,
    {
        proof {
            parts_total_grows(self.parts@, self.done as int);
        }
        let count: usize = self.parts.len();
        assert(self.done < count);
        self.bytes_done = self.bytes_done + self.parts[self.done].size_bytes;
        self.done = self.done + 1;
    }

    /// Progress while the file that is up next comes in. `None` where the bytes
    /// cannot be counted.
    pub fn progress(&self, part_so_far: u64) -> (r: Option<DownloadEvent>)
        ensures
            r == if self.bytes_done + part_so_far <= u64::MAX {
                Some(
                    DownloadEvent::Progress {
                        id: self.id,
                        bytes_so_far: (self.bytes_done + part_so_far) as u64,
                        total: self.total,
                    },
                )
            } else {
                None
            },
    {
        match self.bytes_done.checked_add(part_so_far) {
            Some(bytes_so_far) => Some(
                DownloadEvent::Progress { id: self.id, bytes_so_far, total: self.total },
            ),
            None => None,
        }
    }

    /// The file that is up next could not be downloaded. The failure names it.
    pub fn failed(&self, e: &DownloadError) -> (r: DownloadEvent)
        requires
            self.done < self.parts@.len(),
        ensures
            r matches DownloadEvent::Failed { id, error, retryable } && id == self.id && retryable
                == e.retryable && error@ == self.parts@[self.done as int].key@ + ": "@ + e.message@,
    {
        DownloadEvent::Failed {
            id: self.id,
            error: join3(self.parts[self.done].key.as_str(), ": ", e.message.as_str()),
            retryable: e.retryable,
        }
    }
}

/// A download is complete when all its files are there, and then its progress is
/// its total.
pub proof fn all_parts_make_the_total(m: MultiPart)
    requires
        m.wf(),
        m.done == m.parts@.len(),
    ensures
        m.bytes_done == m.total,
{
    assert(m.parts@.take(m.done as int) =~= m.parts@);
}

/// Why a download failed, and whether trying again may help.
#[derive(Debug)]
pub struct DownloadError {
    pub message: String,
    pub retryable: bool,
}

/// What went wrong in a try.
pub enum AttemptFailure {
    ClientInit { error: String },
    Network { error: String },
    /// The server answered with a status other than success.
    Status { code: u16, text: String },
    CreateFile { path: String, error: String },
    Read { error: String },
    Write { error: String },
    Flush { error: String },
    Finalize { error: String },
    Cancelled,
}

/// Text of a failure, and whether trying again may help: only where the network
/// or the server is at fault.
pub open spec fn failure_of(f: AttemptFailure) -> (Seq<char>, bool) {
    match f {
        AttemptFailure::ClientInit { error } => ("HTTP client init failed: "@ + error@, false),
        AttemptFailure::Network { error } => ("Network error: "@ + error@, true),
        AttemptFailure::Status { code, text } => if code >= 500 {
            ("Server returned "@ + text@, true)
        } else {
            ("Download failed: "@ + text@, false)
        },
        AttemptFailure::CreateFile { path, error } => (
            "Could not create "@ + path@ + ": "@ + error@,
            false,
        ),
        AttemptFailure::Read { error } => ("Read error: "@ + error@, true),
        AttemptFailure::Write { error } => ("Write error: "@ + error@, false),
        AttemptFailure::Flush { error } => ("Flush error: "@ + error@, false),
        AttemptFailure::Finalize { error } => ("Could not finalize file: "@ + error@, false),
        AttemptFailure::Cancelled => ("Cancelled by user"@, false),
    }
}

impl DownloadError {
    /// A failure that trying again does not mend.
    pub fn fatal(message: String) -> (r: DownloadError)
        ensures
            r.message == message,
            !r.retryable,
    {
        DownloadError { message, retryable: false }
    }

    /// A failure that may pass.
    pub fn transient(message: String) -> (r: DownloadError)
        ensures
            r.message == message,
            r.retryable,
    {
        DownloadError { message, retryable: true }
    }

    /// The failure of a try.
    pub fn of(f: AttemptFailure) -> (r: DownloadError)
        ensures
            r.message@ == failure_of(f).0,
            r.retryable == failure_of(f).1,
    {
        match f {
            AttemptFailure::ClientInit { error } => {
                DownloadError::fatal(join2("HTTP client init failed: ", error.as_str()))
            },
            AttemptFailure::Network { error } => {
                DownloadError::transient(join2("Network error: ", error.as_str()))
            },
            AttemptFailure::Status { code, text } => {
                if code >= 500 {
                    DownloadError::transient(join2("Server returned ", text.as_str()))
                } else {
                    DownloadError::fatal(join2("Download failed: ", text.as_str()))
                }
            },
            AttemptFailure::CreateFile { path, error } => {
                DownloadError::fatal(
                    join3("Could not create ", path.as_str(), ": ").concat(error.as_str()),
                )
            },
            AttemptFailure::Read { error } => {
                DownloadError::transient(join2("Read error: ", error.as_str()))
            },
            AttemptFailure::Write { error } => {
                DownloadError::fatal(join2("Write error: ", error.as_str()))
            },
            AttemptFailure::Flush { error } => {
                DownloadError::fatal(join2("Flush error: ", error.as_str()))
            },
            AttemptFailure::Finalize { error } => {
                DownloadError::fatal(join2("Could not finalize file: ", error.as_str()))
            },
            AttemptFailure::Cancelled => DownloadError::fatal("Cancelled by user".to_owned()),
        }
    }
}

/// One try of a download: how much came in, and its checksum.
pub struct DownloadAttempt {
    pub total: u64,
    pub written: u64,
    pub checksum: Checksum,
}

impl DownloadAttempt {
    /// The bytes counted are those that came in.
    pub open spec fn wf(&self) -> bool {
        self.written == self.checksum.bytes().len()
    }

    /// Starts on an answer of the server. Any status but success is a failure. An
    /// unknown length counts as zero.
    pub fn begin(code: u16, text: String, content_length: Option<u64>) -> (r: Result<
        DownloadAttempt,
        DownloadError,
    >)
        ensures
            r is Ok <==> 200 <= code < 300,
            match r {
                Ok(a) => a.wf() && a.written == 0 && a.checksum.bytes() == Seq::<u8>::empty()
                    && a.total == match content_length {
                    Some(n) => n,
                    None => 0,
                },
                Err(e) => e.message@ == failure_of(AttemptFailure::Status { code, text }).0
                    && e.retryable == failure_of(AttemptFailure::Status { code, text }).1,
            },
    {
        if code < 200 || code >= 300 {
            return Err(DownloadError::of(AttemptFailure::Status { code, text }));
        }
        let total: u64 = match content_length {
            Some(n) => n,
            None => 0,
        };
        Ok(DownloadAttempt { total, written: 0, checksum: Checksum::new() })
    }

    /// Takes the next piece that was written to the file.
    pub fn on_chunk(&mut self, chunk: &[u8])
        requires
            old(self).wf(),
            old(self).written + chunk@.len() <= u64::MAX,
        ensures
            final(self).wf(),
            final(self).total == old(self).total,
            final(self).checksum.bytes() == old(self).checksum.bytes() + chunk@,
            final(self).written == old(self).written + chunk@.len(),
    {
        self.checksum.update(chunk);
        self.written = self.written + chunk.len() as u64;
    }

    /// Checks what came in against the checksum it should have.
    pub fn verify(self, expected_sha: &str) -> (r: Result<(), DownloadError>)
        ensures
            r is Ok <==> checksum_matches(self.checksum.bytes(), expected_sha@),
            r matches Err(e) ==> !e.retryable && e.message@
                == "Checksum mismatch \u{2014} expected "@ + expected_sha@ + ", got "@ + hex_text(
                sha256(self.checksum.bytes()),
            ),
    {
        let actual = self.checksum.finish();
        if same_checksum(actual.as_str(), expected_sha) {
            Ok(())
        } else {
            Err(
                DownloadError::fatal(
                    join3("Checksum mismatch \u{2014} expected ", expected_sha, ", got ").concat(
                        actual.as_str(),
                    ),
                ),
            )
        }
    }
}

/// What is done after a try.
pub enum RetryStep {
    /// It is over.
    Finish(Result<(), DownloadError>),
    /// Wait that many milliseconds and try again.
    Wait(u64),
}

/// Two to a small power.
pub open spec fn doubled(n: int) -> int
    decreases n,
{
    if n <= 0 {
        1
    } else {
        2 * doubled(n - 1)
    }
}

/// Pause before a try is repeated: the base, doubled with every repetition but
/// never more than 64 times the base.
pub open spec fn pause(base_ms: u64, repetition: int) -> int {
    let factor = doubled(
        if repetition - 1 < 6 {
            repetition - 1
        } else {
            6
        },
    );
    if base_ms * factor > u64::MAX {
        u64::MAX as int
    } else {
        base_ms * factor
    }
}

/// Counter of repeated tries.
#[derive(Clone, Copy, Debug, PartialEq, Eq, Structural)]
pub struct Retry {
    pub tries: u32,
}

/// Whether a download is tried again: the failure may pass, and not all tries are
/// used up.
pub open spec fn tries_again(retryable: bool, tries: nat, max_attempts: nat) -> bool {
    retryable && tries + 1 < max_attempts
}

impl Retry {
    /// Before the first try.
    pub fn new() -> (r: Retry)
        ensures
            r.tries == 0,
    {
        Retry { tries: 0 }
    }

    /// What is done after a try: a failure that may pass is repeated after a
    /// pause until `max_attempts` tries were made.
    pub fn next(&mut self, outcome: Result<(), DownloadError>, max_attempts: u32, base_ms: u64) -> (r:
        RetryStep)
        requires
            old(self).tries < u32::MAX,
        ensures
            if tries_again(
                outcome matches Err(e) && e.retryable,
                old(self).tries as nat,
                max_attempts as nat,
            ) {
                &&& final(self).tries == old(self).tries + 1
                &&& r == RetryStep::Wait(pause(base_ms, old(self).tries + 1) as u64)
            } else {
                &&& *final(self) == *old(self)
                &&& r == RetryStep::Finish(outcome)
            },
    {
        let again = match &outcome {
            Ok(_) => false,
            Err(e) => e.retryable,
        };
        if again && self.tries + 1 < max_attempts {
            let n: u32 = if self.tries < 6 {
                self.tries
            } else {
                6
            };
            let factor: u64 = power_of_two(n);
            self.tries = self.tries + 1;
            assert(0 <= base_ms as int * factor as int <= 0xFFFF_FFFF_FFFF_FFFF * 64) by (nonlinear_arith)
                requires
                    0 <= base_ms <= 0xFFFF_FFFF_FFFF_FFFF,
                    0 <= factor <= 64,
            ;
            let ms: u128 = base_ms as u128 * factor as u128;
            let delay: u64 = if ms > u64::MAX as u128 {
                u64::MAX
            } else {
                ms as u64
            };
            RetryStep::Wait(delay)
        } else {
            RetryStep::Finish(outcome)
        }
    }

    /// Looks for a cancel during a pause. A cancelled download ends at once, as
    /// cancelled; `None` where the pause goes on.
    pub fn during_pause(&self, cancelled: bool) -> (r: Option<DownloadError>)
        ensures
            match r {
                Some(e) => cancelled && e.message@ == failure_of(AttemptFailure::Cancelled).0
                    && !e.retryable,
                None => !cancelled,
            },
    {
        if cancelled {
            Some(DownloadError::of(AttemptFailure::Cancelled))
        } else {
            None
        }
    }
}

/// Two to a power of at most six.
fn power_of_two(n: u32) -> (r: u64)
    requires
        n <= 6,
    ensures
        r == doubled(n as int),
        r <= 64,
{
    reveal_with_fuel(doubled, 8);
    if n == 0 {
        1
    } else if n == 1 {
        2
    } else if n == 2 {
        4
    } else if n == 3 {
        8
    } else if n == 4 {
        16
    } else if n == 5 {
        32
    } else {
        64
    }
}

/// Number of tries that a run of failures takes: `fatal_at` is the first try that
/// fails for good, counting from zero.
pub open spec fn tries_made(max_attempts: nat, fatal_at: nat, tries: nat) -> nat
    decreases max_attempts - tries,
{
    if tries_again(tries != fatal_at, tries, max_attempts) {
        tries_made(max_attempts, fatal_at, tries + 1)
    } else {
        tries + 1
    }
}

/// A download is tried at most as often as allowed, and a failure that does not
/// pass ends it at once.
pub proof fn retries_end(max_attempts: nat, fatal_at: nat, tries: nat)
    requires
        max_attempts >= 1,
        tries < max_attempts,
        tries <= fatal_at,
    ensures
        tries_made(max_attempts, fatal_at, tries) <= max_attempts,
        tries_made(max_attempts, fatal_at, tries) <= fatal_at + 1,
    decreases max_attempts - tries,
{
    if tries_again(tries != fatal_at, tries, max_attempts) {
        retries_end(max_attempts, fatal_at, tries + 1);
    }
}

/// Name of the file that a download is written to until it is complete.
pub fn partial_path(dest: &str) -> (r: String)
    ensures
        r@ == dest@ + ".partial"@,
{
    join2(dest, ".partial")
}

/// A download is tried as often as allowed while its failures may pass, and no oftener.
pub proof fn passing_failures_use_every_try(max_attempts: nat, fatal_at: nat, tries: nat)
    requires
        tries < max_attempts,
        tries <= fatal_at,
    ensures
        tries_made(max_attempts, fatal_at, tries) == if fatal_at + 1 < max_attempts {
            fatal_at + 1
        } else {
            max_attempts
        },
    decreases max_attempts - tries,
{
    if tries_again(tries != fatal_at, tries, max_attempts) {
        passing_failures_use_every_try(max_attempts, fatal_at, tries + 1);
    }
}

/// The first pause is the base, and each further one twice the one before, up to the
/// seventh, at which the pauses stay.
pub proof fn pauses_double(base_ms: u64, k: int)
    requires
        k >= 1,
        base_ms * 64 <= u64::MAX,
    ensures
        pause(base_ms, 1) == base_ms,
        k <= 6 ==> pause(base_ms, k + 1) == 2 * pause(base_ms, k),
        k >= 7 ==> pause(base_ms, k + 1) == pause(base_ms, k),
        pause(base_ms, k) <= 64 * base_ms,
{
    reveal_with_fuel(doubled, 9);
    assert(doubled(6) == 64);
    if k <= 6 {
        let f = doubled(k - 1);
        assert(1 <= f <= 32);
        assert(doubled(k) == 2 * f);
        assert(base_ms * (2 * f) == 2 * (base_ms * f)) by (nonlinear_arith);
        assert(0 <= base_ms * f <= base_ms * 32) by (nonlinear_arith)
            requires
                1 <= f <= 32,
                base_ms >= 0,
        ;
    }
    assert(base_ms * 1 == base_ms);
}

/// Trying again is offered where the network or the server is at fault, and nowhere else:
/// not after a cancel, a wrong address or a full disk.
pub proof fn only_passing_failures_are_retried(f: AttemptFailure)
    ensures
        failure_of(f).1 <==> f is Network || f is Read || (f matches AttemptFailure::Status {
            code,
            ..
        } && code >= 500),
{
}

/// An event tells of its own model: that one is in the state that the event says, every
/// other is as before, and a download that ended makes room for the next.
pub proof fn events_tell_of_their_model(d: Downloads, event: DownloadEvent, other: ModelId)
    ensures
        ({
            let e = d.after(event);
            let id = state_after(event).0;
            &&& e.states.contains_key(id.code())
            &&& event is Complete ==> e.states[id.code()] is Done
            &&& event is Verifying ==> e.states[id.code()] is Verifying
            &&& event matches DownloadEvent::Progress { bytes_so_far, total, .. } ==> e.states[id.code()]
                == (DownloadState::InProgress { bytes_so_far, total_bytes: total })
            &&& event matches DownloadEvent::Failed { error, retryable, .. } ==> e.states[id.code()]
                == (DownloadState::Failed { error, retryable })
            &&& other != id ==> {
                &&& e.states.contains_key(other.code()) <==> d.states.contains_key(other.code())
                &&& d.states.contains_key(other.code()) ==> e.states[other.code()]
                    == d.states[other.code()]
                &&& d.active == Some(other) ==> e.active == Some(other)
            }
            &&& event is Complete || event is Failed ==> e.active != Some(id)
                && !e.cancel_flags.contains_key(id.code())
            &&& !(event is Complete || event is Failed) ==> e.active == d.active
                && e.cancel_flags == d.cancel_flags
        }),
        event matches DownloadEvent::Complete { id } ==> state_after(event).0 == id,
        event matches DownloadEvent::Verifying { id } ==> state_after(event).0 == id,
        event matches DownloadEvent::Progress { id, .. } ==> state_after(event).0 == id,
        event matches DownloadEvent::Failed { id, .. } ==> state_after(event).0 == id,
{
    ModelId::code_identifies(other, state_after(event).0);
}

/// Cancelling takes one model out of the queue; the others wait on, in their order.
pub proof fn others_wait_on(s: Seq<ModelId>, id: ModelId, x: ModelId)
    ensures
        without_model(s, id).contains(x) <==> s.contains(x) && x != id,
        !s.contains(id) ==> without_model(s, id) == s,
    decreases s.len(),
{
    without_model_props(s, id);
    if !s.contains(id) && s.len() > 0 {
        let t = s.drop_last();
        assert(s[s.len() - 1] == s.last());
        if t.contains(id) {
            let k = t.index_of(id);
            assert(s[k] == id);
        }
        others_wait_on(t, id, x);
        assert(t.push(s.last()) =~= s);
    }
}

/// A model that is asked for is either had or refused with a reason: only one that can be
/// downloaded starts, with its own size, and it is then the one that runs.
pub proof fn offers_are_taken_or_refused(
    a: DownloadManager,
    b: DownloadManager,
    id: ModelId,
    offer: ModelOffer,
    r: Option<StartDownload>,
)
    requires
        kicked_off(&a, &b, id, offer, r),
    ensures
        r is Some <==> offer is Download,
        r matches Some(s) ==> s.id == id && b.active == Some(id) && b.state_of(id) is InProgress
            && (offer matches ModelOffer::Download { total_bytes } && s.total_bytes == total_bytes),
        r is None ==> b.state_of(id) is Failed && b.active == a.active && b.outbox@.len()
            == a.outbox@.len() + 1 && (b.outbox@.last() matches DownloadEvent::Failed { id: x, .. }
            && x == id),
{
}

} // verus!
