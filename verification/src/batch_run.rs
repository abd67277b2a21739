//! A command-line batch handed to worker processes: what to send next, what to
//! do with each event and how to go on after a worker died for want of memory.
use vstd::prelude::*;
use std::collections::VecDeque;
use crate::pipeline::ProgressStage;
use crate::pixmap::Pixmap;

verus! {

/// What a worker process reports.
pub enum WorkerEvent {
    Progress { item_id: u64, stage: ProgressStage },
    /// A finished picture; `None` when its result could not be read back.
    ImageDone { item_id: u64, image: Option<Pixmap> },
    ImageError { item_id: u64, error: String },
    Finished,
    Other,
}

/// What the caller does after an event.
#[derive(Clone, Copy, Debug, PartialEq, Eq, Structural)]
pub enum BatchStep {
    /// Nothing.
    Continue,
    /// Show the stage of an item.
    Report { item_id: u64, stage: ProgressStage },
    /// Send the picture at this place of the batch.
    Send { index: usize },
    /// Drop the remaining events of this poll.
    Stop,
}

/// State of a batch: its places are numbered from zero, and each has an item id.
pub struct BatchRun {
    pub ids: Vec<u64>,
    pub results: Vec<Option<Result<Pixmap, String>>>,
    pub pending: VecDeque<usize>,
    pub in_flight: Vec<usize>,
    pub max_jobs: usize,
}

/// A sequence without one of its elements.
pub open spec fn without(s: Seq<usize>, x: usize) -> Seq<usize> {
    if s.contains(x) {
        s.remove(s.index_of(x))
    } else {
        s
    }
}

/// Whether a result is the failure with the given message.
pub open spec fn failed_with(r: Option<Result<Pixmap, String>>, msg: Seq<char>) -> bool {
    r matches Some(Err(m)) && m@ == msg
}

proof fn without_keeps(s: Seq<usize>, x: usize)
    requires
        s.no_duplicates(),
    ensures
        without(s, x).no_duplicates(),
        !without(s, x).contains(x),
        forall|y: usize| y != x ==> (without(s, x).contains(y) <==> s.contains(y)),
{
    if s.contains(x) {
        let p = s.index_of(x);
        let w = s.remove(p);
        assert forall|y: usize| y != x implies (w.contains(y) <==> s.contains(y)) by {
            if s.contains(y) {
                let q = s.index_of(y);
                if q < p {
                    assert(w[q] == y);
                } else {
                    assert(w[q - 1] == y);
                }
            }
            if w.contains(y) {
                let q = w.index_of(y);
                if q < p {
                    assert(s[q] == y);
                } else {
                    assert(s[q + 1] == y);
                }
            }
        }
        if w.contains(x) {
            let q = w.index_of(x);
            if q < p {
                assert(s[q] == x);
            } else {
                assert(s[q + 1] == x);
            }
        }
    }
}

impl BatchRun {
    /// Places are in range, each waits or runs at most once, and item ids are
    /// distinct.
    pub open spec fn wf(&self) -> bool {
        &&& self.results@.len() == self.ids@.len()
        &&& self.ids@.no_duplicates()
        &&& self.pending@.no_duplicates()
        &&& self.in_flight@.no_duplicates()
        &&& forall|i: usize| #[trigger] self.pending@.contains(i) ==> i < self.ids@.len()
        &&& forall|i: usize| #[trigger] self.in_flight@.contains(i) ==> i < self.ids@.len()
        &&& forall|i: usize|
            !(#[trigger] self.pending@.contains(i) && self.in_flight@.contains(i))
    }

    /// Whether a place waits, runs or has its result.
    pub open spec fn covered(&self, i: usize) -> bool {
        self.results@[i as int] is Some || self.pending@.contains(i) || self.in_flight@.contains(i)
    }

    /// Whether no place got lost, except perhaps one.
    pub open spec fn accounted_but(&self, hole: Option<usize>) -> bool {
        forall|i: usize| i < self.ids@.len() && hole != Some(i) ==> #[trigger] self.covered(i)
    }

    /// Whether no place got lost.
    pub open spec fn accounted(&self) -> bool {
        self.accounted_but(None)
    }

    /// Place of an item id.
    pub open spec fn place_of(&self, id: u64) -> Option<usize> {
        if self.ids@.contains(id) {
            Some(self.ids@.index_of(id) as usize)
        } else {
            None
        }
    }

    /// Whether nothing waits and nothing runs.
    pub open spec fn idle(&self) -> bool {
        self.pending@.len() == 0 && self.in_flight@.len() == 0
    }

    /// A batch in which every place waits, in order.
    pub fn new(ids: Vec<u64>, jobs: usize) -> (r: BatchRun)
        requires
            ids@.no_duplicates(),
        ensures
            r.wf(),
            r.accounted(),
            r.ids == ids,
            r.max_jobs == jobs,
            r.in_flight@.len() == 0,
            r.results@.len() == ids@.len(),
            forall|i: int| 0 <= i < ids@.len() ==> r.results@[i] is None,
            r.pending@.len() == ids@.len(),
            forall|i: int| 0 <= i < ids@.len() ==> r.pending@[i] == i,
    {
        let mut results: Vec<Option<Result<Pixmap, String>>> = Vec::new();
        let mut pending: VecDeque<usize> = VecDeque::new();
        let mut i: usize = 0;
        while i < ids.len()
            invariant
                i <= ids.len(),
                results@.len() == i,
                pending@.len() == i,
                forall|j: int| 0 <= j < i ==> results@[j] is None,
                forall|j: int| 0 <= j < i ==> pending@[j] == j,
            decreases ids.len() - i,
        {
            results.push(None);
            pending.push_back(i);
            i += 1;
        }
        let r = BatchRun { ids, results, pending, in_flight: Vec::new(), max_jobs: jobs };
        proof {
            assert forall|k: usize| k < r.ids@.len() implies #[trigger] r.covered(k) by {
                assert(r.pending@[k as int] == k);
            }
        }
        r
    }

    /// Number of pictures a fresh worker is set up for and sent at once, or
    /// `None` when nothing waits.
    pub fn next_round(&self) -> (r: Option<usize>)
        ensures
            match r {
                None => self.pending@.len() == 0,
                Some(n) => self.pending@.len() > 0 && n == if self.max_jobs < self.pending@.len() {
                    self.max_jobs as int
                } else {
                    self.pending@.len() as int
                },
            },
    {
        let n: usize = self.pending.len();
        if n == 0 {
            None
        } else if self.max_jobs < n {
            Some(self.max_jobs)
        } else {
            Some(n)
        }
    }

    /// Gives every waiting place the same failure.
    fn fail_pending(&mut self, message: &str)
        requires
            old(self).wf(),
        ensures
            final(self).wf(),
            final(self).ids == old(self).ids,
            final(self).pending == old(self).pending,
            final(self).in_flight == old(self).in_flight,
            final(self).max_jobs == old(self).max_jobs,
            forall|i: usize|
                i < old(self).ids@.len() ==> if old(self).pending@.contains(i) {
                    failed_with(#[trigger] final(self).results@[i as int], message@)
                } else {
                    final(self).results@[i as int] == old(self).results@[i as int]
                },
    {
        let mut k: usize = 0;
        while k < self.pending.len()
            invariant
                k <= self.pending@.len(),
                self.wf(),
                old(self).wf(),
                self.ids == old(self).ids,
                self.pending == old(self).pending,
                self.in_flight == old(self).in_flight,
                self.max_jobs == old(self).max_jobs,
                forall|i: usize|
                    i < old(self).ids@.len() ==> if old(self).pending@.take(k as int).contains(i) {
                        failed_with(#[trigger] self.results@[i as int], message@)
                    } else {
                        self.results@[i as int] == old(self).results@[i as int]
                    },
            decreases self.pending@.len() - k,
        {
            let idx: usize = self.pending[k];
            assert(self.pending@.contains(idx));
            let ghost before = self.results@;
            self.results.set(idx, Some(Err(message.to_owned())));
            proof {
                let p = old(self).pending@;
                assert(p.take(k as int + 1) =~= p.take(k as int).push(idx));
                assert forall|i: usize| i < old(self).ids@.len() implies if p.take(
                    k as int + 1,
                ).contains(i) {
                    failed_with(#[trigger] self.results@[i as int], message@)
                } else {
                    self.results@[i as int] == old(self).results@[i as int]
                } by {
                    let a = p.take(k as int);
                    if a.contains(i) {
                        assert(a.push(idx)[a.index_of(i)] == i);
                    }
                    if i == idx {
                        assert(a.push(idx)[a.len() as int] == idx);
                    } else {
                        assert(self.results@[i as int] == before[i as int]);
                    }
                }
            }
            k += 1;
        }
        proof {
            let p = old(self).pending@;
            assert(p.take(p.len() as int) =~= p);
        }
    }

    /// No worker could be started: every waiting place fails with the reason.
    pub fn spawn_failed(&mut self, error: &str)
        requires
            old(self).wf(),
        ensures
            final(self).wf(),
            final(self).ids == old(self).ids,
            final(self).pending == old(self).pending,
            final(self).in_flight == old(self).in_flight,
            final(self).max_jobs == old(self).max_jobs,
            forall|i: usize|
                i < old(self).ids@.len() ==> if old(self).pending@.contains(i) {
                    failed_with(#[trigger] final(self).results@[i as int], error@)
                } else {
                    final(self).results@[i as int] == old(self).results@[i as int]
                },
    {
        self.fail_pending(error);
    }

    /// The place to send next in the first burst.
    pub fn front(&self) -> (r: Option<usize>)
        ensures
            match r {
                Some(i) => self.pending@.len() > 0 && i == self.pending@[0],
                None => self.pending@.len() == 0,
            },
    {
        if self.pending.len() == 0 {
            None
        } else {
            Some(self.pending[0])
        }
    }

    /// Records whether the front place was sent. A place that could not be sent
    /// keeps waiting at the front, and the burst ends (`false`).
    pub fn burst_step(&mut self, sent: bool) -> (go_on: bool)
        requires
            old(self).wf(),
            old(self).pending@.len() > 0,
        ensures
            final(self).wf(),
            go_on == sent,
            !sent ==> *final(self) == *old(self),
            sent ==> {
                &&& final(self).pending@ == old(self).pending@.skip(1)
                &&& final(self).in_flight@ == old(self).in_flight@.push(old(self).pending@[0])
                &&& final(self).ids == old(self).ids
                &&& final(self).results == old(self).results
                &&& final(self).max_jobs == old(self).max_jobs
            },
            old(self).accounted() ==> final(self).accounted(),
    {
        if !sent {
            return false;
        }
        let idx: usize = self.pending.pop_front().unwrap();
        self.in_flight.push(idx);
        proof {
            self.moved_to_flight(*old(self), idx);
            assert(self.pending@ =~= old(self).pending@.skip(1));
        }
        true
    }

    proof fn moved_to_flight(&self, before: BatchRun, idx: usize)
        requires
            before.wf(),
            before.pending@.len() > 0,
            idx == before.pending@[0],
            self.pending@ == before.pending@.subrange(1, before.pending@.len() as int),
            self.in_flight@ == before.in_flight@.push(idx),
            self.ids == before.ids,
            self.results == before.results,
        ensures
            self.wf(),
            before.accounted() ==> self.accounted(),
    {
        let p = before.pending@;
        let q = self.pending@;
        assert(p.contains(idx));
        assert forall|i: usize| #[trigger] q.contains(i) implies p.contains(i) && i != idx by {
            let j = q.index_of(i);
            assert(p[j + 1] == i);
        }
        assert forall|i: usize| #[trigger] self.in_flight@.contains(i) implies (
        before.in_flight@.contains(i) || i == idx) by {}
        assert(before.pending@.contains(idx) && !before.in_flight@.contains(idx));
        assert forall|i: usize| i < self.ids@.len() && before.covered(i) implies #[trigger] self.covered(
            i,
        ) by {
            if p.contains(i) {
                let j = p.index_of(i);
                if j == 0 {
                    assert(self.in_flight@[before.in_flight@.len() as int] == idx);
                } else {
                    assert(q[j - 1] == i);
                }
            }
            if before.in_flight@.contains(i) {
                let j = before.in_flight@.index_of(i);
                assert(self.in_flight@[j] == i);
            }
        }
    }

    /// Whether the worker died over unfinished work.
    pub fn crashed(&self, alive: bool) -> (r: bool)
        ensures
            r == (!alive && self.in_flight@.len() > 0),
    {
        !alive && self.in_flight.len() > 0
    }

    /// Whether the batch is through.
    pub fn is_idle(&self) -> (r: bool)
        ensures
            r == self.idle(),
    {
        self.in_flight.len() == 0 && self.pending.len() == 0
    }

    /// Position of an item id in the batch.
    fn find(&self, id: u64) -> (r: Option<usize>)
        requires
            self.wf(),
        ensures
            r == self.place_of(id),
            r matches Some(i) ==> i < self.ids@.len() && self.ids@[i as int] == id,
    {
        let mut k: usize = 0;
        while k < self.ids.len()
            invariant
                k <= self.ids@.len(),
                self.wf(),
                forall|j: int| 0 <= j < k ==> self.ids@[j] != id,
            decreases self.ids@.len() - k,
        {
            if self.ids[k] == id {
                assert(self.ids@.contains(id));
                let ghost q = self.ids@.index_of(id);
                assert(self.ids@[q] == self.ids@[k as int]);
                return Some(k);
            }
            k += 1;
        }
        None
    }

    /// Takes a place out of those that run and stores its result.
    fn settle(&mut self, place: usize, result: Result<Pixmap, String>)
        requires
            old(self).wf(),
            place < old(self).ids@.len(),
        ensures
            final(self).wf(),
            final(self).ids == old(self).ids,
            final(self).pending == old(self).pending,
            final(self).max_jobs == old(self).max_jobs,
            final(self).in_flight@ == without(old(self).in_flight@, place),
            final(self).results@ == old(self).results@.update(place as int, Some(result)),
            old(self).accounted() ==> final(self).accounted(),
    {
        let mut k: usize = 0;
        while k < self.in_flight.len() && self.in_flight[k] != place
            invariant
                k <= self.in_flight@.len(),
                *self == *old(self),
                forall|j: int| 0 <= j < k ==> self.in_flight@[j] != place,
            decreases self.in_flight@.len() - k,
        {
            k += 1;
        }
        let ghost f = old(self).in_flight@;
        if k < self.in_flight.len() {
            assert(f.contains(place));
            assert(f.index_of(place) == k) by {
                let q = f.index_of(place);
                assert(f[q] == f[k as int]);
            }
            self.in_flight.remove(k);
        } else {
            assert(!f.contains(place));
        }
        self.results.set(place, Some(result));
        proof {
            without_keeps(f, place);
            let g = self.in_flight@;
            assert(g == without(f, place));
            assert forall|i: usize| #[trigger] g.contains(i) implies f.contains(i) by {}
            assert forall|i: usize| i < self.ids@.len() && old(self).covered(i) implies #[trigger] self.covered(
                i,
            ) by {
                if i != place {
                    assert(self.results@[i as int] == old(self).results@[i as int]);
                }
            }
        }
    }

    /// Stores a finished picture and, unless admission is paused, takes the next
    /// waiting place to be sent.
    fn on_image_done(&mut self, item_id: u64, image: Option<Pixmap>, paused: bool) -> (step: BatchStep)
        requires
            old(self).wf(),
        ensures
            final(self).wf(),
            final(self).ids == old(self).ids,
            final(self).max_jobs == old(self).max_jobs,
            ({
                &&& match old(self).place_of(item_id) {
                    Some(i) => {
                        &&& final(self).in_flight@ == without(old(self).in_flight@, i)
                        &&& final(self).results@.len() == old(self).results@.len()
                        &&& match image {
                            Some(p) => final(self).results@[i as int] == Some(
                                Ok::<Pixmap, String>(p),
                            ),
                            None => failed_with(
                                final(self).results@[i as int],
                                "Failed to read subprocess result"@,
                            ),
                        }
                        &&& forall|j: int|
                            0 <= j < old(self).ids@.len() && j != i
                                ==> #[trigger] final(self).results@[j] == old(self).results@[j]
                    },
                    None => final(self).in_flight == old(self).in_flight && final(self).results
                        == old(self).results,
                }
                &&& if paused || old(self).pending@.len() == 0 {
                    step == BatchStep::Continue && final(self).pending == old(self).pending
                } else {
                    step == (BatchStep::Send { index: old(self).pending@[0] })
                        && final(self).pending@ == old(self).pending@.skip(1)
                }
            }),
            step matches BatchStep::Send { index } ==> {
                &&& index < final(self).ids@.len()
                &&& !final(self).pending@.contains(index)
                &&& !final(self).in_flight@.contains(index)
            },
            old(self).accounted() ==> final(self).accounted_but(
                match step {
                    BatchStep::Send { index } => Some(index),
                    _ => None,
                },
            ),
    {
        let place = self.find(item_id);
        if let Some(i) = place {
            let result = match image {
                Some(p) => Ok(p),
                None => Err("Failed to read subprocess result".to_owned()),
            };
            self.settle(i, result);
        }
        if paused || self.pending.len() == 0 {
            return BatchStep::Continue;
        }
        let ghost mid = *self;
        let index: usize = self.pending.pop_front().unwrap();
        proof {
            let p = mid.pending@;
            let q = self.pending@;
            assert(q =~= p.skip(1));
            assert(p.contains(index));
            assert forall|i: usize| #[trigger] q.contains(i) implies p.contains(i) && i != index by {
                let j = q.index_of(i);
                assert(p[j + 1] == i);
            }
            assert(!mid.in_flight@.contains(index));
            assert forall|i: usize|
                i < self.ids@.len() && i != index && mid.covered(i) implies #[trigger] self.covered(
                i,
            ) by {
                if p.contains(i) {
                    let j = p.index_of(i);
                    assert(j > 0);
                    assert(q[j - 1] == i);
                }
            }
        }
        BatchStep::Send { index }
    }

    /// Handles one event. Nothing more is admitted while `paused` holds or after
    /// a failure.
    pub fn on_event(&mut self, event: WorkerEvent, paused: bool) -> (step: BatchStep)
        requires
            old(self).wf(),
        ensures
            final(self).wf(),
            final(self).ids == old(self).ids,
            final(self).max_jobs == old(self).max_jobs,
            match event {
                WorkerEvent::Progress { item_id, stage } => {
                    &&& *final(self) == *old(self)
                    &&& step == (BatchStep::Report { item_id, stage })
                },
                WorkerEvent::ImageDone { item_id, image } => {
                    &&& match old(self).place_of(item_id) {
                        Some(i) => {
                            &&& final(self).in_flight@ == without(old(self).in_flight@, i)
                            &&& final(self).results@.len() == old(self).results@.len()
                            &&& match image {
                                Some(p) => final(self).results@[i as int] == Some(
                                    Ok::<Pixmap, String>(p),
                                ),
                                None => failed_with(
                                    final(self).results@[i as int],
                                    "Failed to read subprocess result"@,
                                ),
                            }
                            &&& forall|j: int|
                                0 <= j < old(self).ids@.len() && j != i
                                    ==> #[trigger] final(self).results@[j] == old(self).results@[j]
                        },
                        None => final(self).in_flight == old(self).in_flight && final(self).results
                            == old(self).results,
                    }
                    &&& if paused || old(self).pending@.len() == 0 {
                        step == BatchStep::Continue && final(self).pending == old(self).pending
                    } else {
                        step == (BatchStep::Send { index: old(self).pending@[0] })
                            && final(self).pending@ == old(self).pending@.skip(1)
                    }
                },
                WorkerEvent::ImageError { item_id, error } => {
                    &&& step == BatchStep::Continue
                    &&& final(self).pending == old(self).pending
                    &&& match old(self).place_of(item_id) {
                        Some(i) => {
                            &&& final(self).in_flight@ == without(old(self).in_flight@, i)
                            &&& final(self).results@ == old(self).results@.update(
                                i as int,
                                Some(Err(error)),
                            )
                        },
                        None => final(self).in_flight == old(self).in_flight && final(self).results
                            == old(self).results,
                    }
                },
                WorkerEvent::Finished => {
                    &&& *final(self) == *old(self)
                    &&& step == if old(self).idle() {
                        BatchStep::Stop
                    } else {
                        BatchStep::Continue
                    }
                },
                WorkerEvent::Other => *final(self) == *old(self) && step == BatchStep::Continue,
            },
            step matches BatchStep::Send { index } ==> {
                &&& index < final(self).ids@.len()
                &&& !final(self).pending@.contains(index)
                &&& !final(self).in_flight@.contains(index)
            },
            old(self).accounted() ==> final(self).accounted_but(
                match step {
                    BatchStep::Send { index } => Some(index),
                    _ => None,
                },
            ),
    {
        match event {
            WorkerEvent::Progress { item_id, stage } => BatchStep::Report { item_id, stage },
            WorkerEvent::ImageDone { item_id, image } => self.on_image_done(item_id, image, paused),
            WorkerEvent::ImageError { item_id, error } => {
                if let Some(i) = self.find(item_id) {
                    self.settle(i, Err(error));
                }
                BatchStep::Continue
            },
            WorkerEvent::Finished => {
                if self.is_idle() {
                    BatchStep::Stop
                } else {
                    BatchStep::Continue
                }
            },
            WorkerEvent::Other => BatchStep::Continue,
        }
    }

    /// Records whether the picture of a `Send` step went out. One that did not is
    /// not tried again.
    pub fn admitted(&mut self, index: usize, sent: bool)
        requires
            old(self).wf(),
            index < old(self).ids@.len(),
            !old(self).pending@.contains(index),
            !old(self).in_flight@.contains(index),
        ensures
            final(self).wf(),
            final(self).ids == old(self).ids,
            final(self).results == old(self).results,
            final(self).pending == old(self).pending,
            final(self).max_jobs == old(self).max_jobs,
            final(self).in_flight@ == if sent {
                old(self).in_flight@.push(index)
            } else {
                old(self).in_flight@
            },
            old(self).accounted_but(Some(index)) && sent ==> final(self).accounted(),
            old(self).accounted_but(Some(index)) ==> final(self).accounted_but(Some(index)),
    {
        if sent {
            self.in_flight.push(index);
            proof {
                let f = old(self).in_flight@;
                let g = self.in_flight@;
                assert forall|i: usize| #[trigger] g.contains(i) implies f.contains(i) || i == index by {
                }
                assert forall|i: usize| f.contains(i) implies #[trigger] g.contains(i) by {
                    assert(g[f.index_of(i)] == i);
                }
                assert(g[f.len() as int] == index);
                assert(g.no_duplicates());
                assert forall|i: usize|
                    i < self.ids@.len() && (old(self).covered(i) || i == index) implies #[trigger] self.covered(
                    i,
                ) by {}
            }
        }
    }

    /// The worker died. Unfinished places go back to the front in their order,
    /// and half as many run at once next time. With one at a time already there
    /// is nothing left to try: every waiting place fails (`None`).
    pub fn on_crash(&mut self) -> (jobs: Option<usize>)
        requires
            old(self).wf(),
        ensures
            final(self).wf(),
            final(self).ids == old(self).ids,
            final(self).pending@ == old(self).in_flight@ + old(self).pending@,
            final(self).in_flight@.len() == 0,
            final(self).max_jobs == if old(self).max_jobs / 2 > 1 {
                old(self).max_jobs / 2
            } else {
                1
            },
            jobs == if old(self).max_jobs == 1 {
                None
            } else {
                Some(final(self).max_jobs)
            },
            jobs is Some ==> final(self).results == old(self).results,
            jobs is None ==> forall|i: usize|
                i < old(self).ids@.len() ==> if final(self).pending@.contains(i) {
                    failed_with(
                        #[trigger] final(self).results@[i as int],
                        "Insufficient memory \u{2014} try a smaller model"@,
                    )
                } else {
                    final(self).results@[i as int] == old(self).results@[i as int]
                },
            old(self).accounted() ==> final(self).accounted(),
    {
        let ghost before = *self;
        let ghost f = self.in_flight@;
        let ghost p = self.pending@;
        while self.in_flight.len() > 0
            invariant
                self.in_flight@.len() <= f.len(),
                self.in_flight@ == f.take(self.in_flight@.len() as int),
                self.pending@ == f.skip(self.in_flight@.len() as int) + p,
                self.ids == before.ids,
                self.results == before.results,
                self.max_jobs == before.max_jobs,
            decreases self.in_flight@.len(),
        {
            let ghost n = self.in_flight@.len() as int;
            let idx: usize = self.in_flight.pop().unwrap();
            self.pending.push_front(idx);
            proof {
                assert(self.in_flight@ =~= f.take(n - 1));
                assert(self.pending@ =~= f.skip(n - 1) + p);
            }
        }
        proof {
            assert(self.pending@ =~= f + p);
            let q = self.pending@;
            assert(q.no_duplicates()) by {
                assert forall|i: int, j: int| 0 <= i < j < q.len() implies q[i] != q[j] by {
                    if i < f.len() && j >= f.len() {
                        assert(f.contains(q[i]));
                        assert(p[j - f.len()] == q[j]);
                        assert(before.pending@.contains(q[j]));
                        assert(!(before.pending@.contains(q[i]) && before.in_flight@.contains(
                            q[i],
                        )));
                    }
                }
            }
            assert forall|i: usize| #[trigger] q.contains(i) implies f.contains(i) || p.contains(
                i,
            ) by {
                let j = q.index_of(i);
                if j < f.len() {
                    assert(f[j] == i);
                } else {
                    assert(p[j - f.len()] == i);
                }
            }
            assert forall|i: usize| i < self.ids@.len() && before.covered(i) implies #[trigger] self.covered(
                i,
            ) by {
                if f.contains(i) {
                    assert(q[f.index_of(i)] == i);
                }
                if p.contains(i) {
                    assert(q[f.len() + p.index_of(i)] == i);
                }
            }
        }
        let old_jobs: usize = self.max_jobs;
        self.max_jobs = if old_jobs / 2 > 1 {
            old_jobs / 2
        } else {
            1
        };
        if old_jobs == 1 {
            self.fail_pending("Insufficient memory \u{2014} try a smaller model");
            proof {
                assert forall|i: usize|
                    i < self.ids@.len() && before.covered(i) implies #[trigger] self.covered(i) by {
                    assert(before.results@[i as int] is Some || self.pending@.contains(i)) by {
                        let q = self.pending@;
                        if f.contains(i) {
                            assert(q[f.index_of(i)] == i);
                        }
                        if p.contains(i) {
                            assert(q[f.len() + p.index_of(i)] == i);
                        }
                    }
                }
            }
            None
        } else {
            proof {
                assert forall|i: usize|
                    i < self.ids@.len() && before.covered(i) implies #[trigger] self.covered(i) by {
                    let q = self.pending@;
                    if f.contains(i) {
                        assert(q[f.index_of(i)] == i);
                    }
                    if p.contains(i) {
                        assert(q[f.len() + p.index_of(i)] == i);
                    }
                }
            }
            Some(self.max_jobs)
        }
    }

    /// The result of every place, in order. A place that was never settled
    /// counts as a failure.
    pub fn finish(self) -> (r: Vec<Result<Pixmap, String>>)
        ensures
            r@.len() == self.results@.len(),
            forall|i: int|
                0 <= i < r@.len() ==> match self.results@[i] {
                    Some(x) => #[trigger] r@[i] == x,
                    None => r@[i] matches Err(m) && m@ == "Not processed"@,
                },
    {
        let mut rest = self.results;
        let mut out: Vec<Result<Pixmap, String>> = Vec::new();
        while rest.len() > 0
            invariant
                rest@.len() + out@.len() == self.results@.len(),
                rest@ == self.results@.skip(out@.len() as int),
                forall|i: int|
                    0 <= i < out@.len() ==> match self.results@[i] {
                        Some(x) => #[trigger] out@[i] == x,
                        None => out@[i] matches Err(m) && m@ == "Not processed"@,
                    },
            decreases rest@.len(),
        {
            let head = rest.remove(0);
            assert(rest@ =~= self.results@.skip(out@.len() as int + 1));
            match head {
                Some(x) => out.push(x),
                None => out.push(Err("Not processed".to_owned())),
            }
        }
        out
    }
}

/// Number of times a batch is retried before it gives up.
pub open spec fn retries(jobs: nat) -> nat
    decreases
            if jobs == 0 {
                2
            } else {
                jobs
            },
{
    if jobs == 1 {
        0
    } else if jobs == 0 {
        1 + retries(1)
    } else {
        1 + retries(jobs / 2)
    }
}

/// Repeated crashes end: a batch that starts with some number of jobs is
/// retried at most that many times, and once at one job not at all.
pub proof fn retries_are_bounded(jobs: nat)
    ensures
        jobs >= 1 ==> retries(jobs) < jobs,
        retries(0) == 1,
        retries(1) == 0,
    decreases jobs,
{
    reveal_with_fuel(retries, 2);
    if jobs >= 2 {
        retries_are_bounded(jobs / 2);
    }
}

/// A batch from which nothing got lost is complete once nothing waits or runs:
/// every place has its own result.
pub proof fn idle_batch_is_complete(run: BatchRun)
    requires
        run.wf(),
        run.accounted(),
        run.idle(),
    ensures
        forall|i: int| 0 <= i < run.ids@.len() && i <= usize::MAX ==> #[trigger] run.results@[i] is Some,
{
    assert forall|i: int| 0 <= i < run.ids@.len() && i <= usize::MAX implies #[trigger] run.results@[i] is Some by {
        assert(run.covered(i as usize));
    }
}

/// A result goes to the place of its own item: the place found for an id is the one that
/// holds it, and an id that no place holds has none.
pub proof fn results_go_to_their_place(run: BatchRun, id: u64)
    requires
        run.wf(),
        run.ids@.len() <= usize::MAX,
    ensures
        run.place_of(id) matches Some(i) ==> i < run.ids@.len() && run.ids@[i as int] == id,
        run.place_of(id) is None <==> !run.ids@.contains(id),
        forall|j: int| 0 <= j < run.ids@.len() && run.ids@[j] == id ==> run.place_of(id) == Some(
            j as usize,
        ),
{
}

/// Taking a place out of those that run takes that one and no other.
pub proof fn settled_places_leave_alone(s: Seq<usize>, x: usize, y: usize)
    requires
        s.no_duplicates(),
    ensures
        without(s, x).contains(y) <==> s.contains(y) && y != x,
        s.contains(x) ==> without(s, x).len() == s.len() - 1,
        !s.contains(x) ==> without(s, x) == s,
{
    without_keeps(s, x);
}

/// A batch that keeps crashing runs with fewer and fewer at once, down to one.
pub proof fn crashes_halve_the_jobs(jobs: nat)
    requires
        jobs >= 2,
    ensures
        retries(jobs) == 1 + retries(jobs / 2),
        jobs / 2 >= 1,
        jobs / 2 < jobs,
{
}

/// A failure is an error that says exactly the message; a picture, or nothing yet, is
/// none.
pub proof fn failures_say_their_message(r: Option<Result<Pixmap, String>>, msg: Seq<char>)
    ensures
        failed_with(r, msg) ==> r is Some && r->0 is Err && r->0->Err_0@ == msg,
        r is Some && r->0 is Err ==> failed_with(r, r->0->Err_0@),
        r is None || r->0 is Ok ==> !failed_with(r, msg),
{
}

} // verus!
