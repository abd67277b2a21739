//! Live previews: while a knob is dragged the picture is recomputed at a steady
//! pace, and results that a newer tweak overtook are dropped.
use vstd::prelude::*;
use std::collections::HashMap;
use crate::item::{EdgeMask, MaskedBase};
use crate::item_settings::ItemSettings;
use crate::pipeline::{MaskRecipe, ModelKind};
use crate::pixmap::Pixmap;
use crate::tables::keys_of;

verus! {

broadcast use vstd::std_specs::hash::group_hash_axioms;

/// Time between two previews of an item, in nanoseconds.
pub const DEBOUNCE: u64 = 150_000_000;

/// How far a flushed tweak is put into the past, in nanoseconds.
pub const FLUSH_BACK: u64 = 160_000_000;

/// Which stage a tweak needs rerun.
#[derive(Clone, Copy, Debug, PartialEq, Eq, Structural)]
pub enum PreviewKind {
    Mask,
    Edge,
}

/// A tweak that waits for its preview.
#[derive(Clone, Copy, Debug, PartialEq, Eq, Structural)]
pub struct Pending {
    /// Time at which waiting began, in nanoseconds.
    pub last_tweak_at: u64,
    pub kind: PreviewKind,
}

/// A finished preview.
pub struct PreviewResult {
    pub item_id: u64,
    pub rgba: Pixmap,
    /// Number of the dispatch that made it.
    pub generation: u64,
    /// Edge mask built on the way, to be reused.
    pub new_edge_mask: Option<EdgeMask>,
    /// Cut-out subject built on the way, to be reused.
    pub new_masked_base: Option<MaskedBase>,
    /// Whether no newer tweak waits: the drag has settled.
    pub is_final: bool,
}

/// A preview to be computed.
#[derive(Clone, Copy, Debug, PartialEq, Eq, Structural)]
pub struct Dispatch {
    pub item_id: u64,
    pub kind: PreviewKind,
    pub generation: u64,
}

/// A tweak whose time has come.
#[derive(Clone, Copy, Debug, PartialEq, Eq, Structural)]
pub struct Due {
    pub item_id: u64,
    pub kind: PreviewKind,
}

/// What a tick does.
pub struct Tick {
    pub dispatched: Vec<Dispatch>,
    /// Nanoseconds until the next tweak is due, where one waits.
    pub wait: Option<u64>,
}

/// Tweaks that wait and previews that are being computed.
pub struct LivePreview {
    pub pending: HashMap<u64, Pending>,
    /// Number of the latest dispatch of each item.
    pub in_flight: HashMap<u64, u64>,
    pub generation_counter: u64,
}

impl Default for LivePreview {
    fn default() -> (r: LivePreview)
        ensures
            r.pending@ == Map::<u64, Pending>::empty(),
            r.in_flight@ == Map::<u64, u64>::empty(),
            r.generation_counter == 0,
    {
        LivePreview { pending: HashMap::new(), in_flight: HashMap::new(), generation_counter: 0 }
    }
}

/// Time that has passed; zero where the clock went back.
pub open spec fn elapsed(now: u64, since: u64) -> int {
    if now > since {
        now - since
    } else {
        0
    }
}

/// Whether a tweak has waited long enough.
pub open spec fn due(now: u64, p: Pending) -> bool {
    elapsed(now, p.last_tweak_at) >= DEBOUNCE
}

/// The tweak of an item after another one. The time only starts anew once it
/// has run out, so that previews keep coming during a drag.
pub open spec fn tweaked(p: Option<Pending>, now: u64, kind: PreviewKind) -> Pending {
    match p {
        Some(p) => Pending {
            last_tweak_at: if due(now, p) {
                now
            } else {
                p.last_tweak_at
            },
            kind,
        },
        None => Pending { last_tweak_at: now, kind },
    }
}

/// What waits under an id.
pub open spec fn waiting(m: Map<u64, Pending>, id: u64) -> Option<Pending> {
    if m.contains_key(id) {
        Some(m[id])
    } else {
        None
    }
}

/// Number of the dispatch at a place of a tick, counting from the counter before
/// it and starting over behind the largest number.
pub open spec fn generation_at(counter: u64, i: int) -> int {
    (counter + 1 + i) % 0x1_0000_0000_0000_0000
}

/// Tweaks whose item is among the given ones.
pub open spec fn among(s: Seq<Due>, ids: Seq<u64>) -> Seq<Due>
    decreases s.len(),
{
    if s.len() == 0 {
        s
    } else if ids.contains(s.last().item_id) {
        among(s.drop_last(), ids).push(s.last())
    } else {
        among(s.drop_last(), ids)
    }
}

proof fn among_props(s: Seq<Due>, ids: Seq<u64>)
    requires
        forall|i: int, j: int| 0 <= i < j < s.len() ==> s[i].item_id != s[j].item_id,
    ensures
        forall|i: int|
            0 <= i < among(s, ids).len() ==> s.contains(#[trigger] among(s, ids)[i])
                && ids.contains(among(s, ids)[i].item_id),
        forall|j: int|
            0 <= j < s.len() && ids.contains((#[trigger] s[j]).item_id) ==> among(s, ids).contains(
                s[j],
            ),
        forall|i: int, j: int|
            0 <= i < j < among(s, ids).len() ==> among(s, ids)[i].item_id != among(
                s,
                ids,
            )[j].item_id,
    decreases s.len(),
{
    if s.len() > 0 {
        let t = s.drop_last();
        let a = among(t, ids);
        let r = among(s, ids);
        among_props(t, ids);
        assert forall|i: int| 0 <= i < a.len() implies s.contains(#[trigger] a[i]) && a[i].item_id
            != s.last().item_id by {
            let j = t.index_of(a[i]);
            assert(s[j] == a[i]);
            assert(s[j].item_id != s[s.len() - 1].item_id);
        }
        assert forall|i: int| 0 <= i < r.len() implies s.contains(#[trigger] r[i]) && ids.contains(
            r[i].item_id,
        ) by {
            if i < a.len() {
                assert(r[i] == a[i]);
            } else {
                assert(s[s.len() - 1] == r[i]);
            }
        }
        assert forall|j: int| 0 <= j < s.len() && ids.contains(
            (#[trigger] s[j]).item_id,
        ) implies r.contains(s[j]) by {
            if j < t.len() {
                assert(t[j] == s[j]);
                let i = a.index_of(t[j]);
                assert(r[i] == s[j]);
            } else {
                assert(r[r.len() - 1] == s[j]);
            }
        }
        assert forall|i: int, j: int| 0 <= i < j < r.len() implies r[i].item_id != r[j].item_id by {
            assert(r[i] == a[i]);
            if j < a.len() {
                assert(r[j] == a[j]);
            }
        }
    }
}

proof fn generation_step(start: u64, counter: u64, k: int)
    requires
        k >= 0,
        counter == if k == 0 {
            start as int
        } else {
            generation_at(start, k - 1)
        },
    ensures
        generation_at(counter, 0) == generation_at(start, k),
{
    if k > 0 {
        vstd::arithmetic::div_mod::lemma_add_mod_noop(start + k, 1, 0x1_0000_0000_0000_0000);
        vstd::arithmetic::div_mod::lemma_small_mod(1, 0x1_0000_0000_0000_0000);
    }
}

/// What waits after previews were started.
pub open spec fn without_dispatched(m: Map<u64, Pending>, d: Seq<Dispatch>) -> Map<u64, Pending>
    decreases d.len(),
{
    if d.len() == 0 {
        m
    } else {
        without_dispatched(m, d.drop_last()).remove(d.last().item_id)
    }
}

/// What is in flight after previews were started.
pub open spec fn with_dispatched(m: Map<u64, u64>, d: Seq<Dispatch>) -> Map<u64, u64>
    decreases d.len(),
{
    if d.len() == 0 {
        m
    } else {
        with_dispatched(m, d.drop_last()).insert(d.last().item_id, d.last().generation)
    }
}

/// A tweak is never lost: after a tick it either waits as before or its preview
/// is in flight under the number of its dispatch.
pub proof fn tweaks_are_not_lost(
    pending: Map<u64, Pending>,
    in_flight: Map<u64, u64>,
    d: Seq<Dispatch>,
    id: u64,
)
    requires
        pending.contains_key(id),
        forall|i: int, j: int| 0 <= i < j < d.len() ==> d[i].item_id != d[j].item_id,
    ensures
        without_dispatched(pending, d).contains_key(id) ==> without_dispatched(pending, d)[id]
            == pending[id],
        !without_dispatched(pending, d).contains_key(id) ==> exists|i: int|
            0 <= i < d.len() && (#[trigger] d[i]).item_id == id && with_dispatched(
                in_flight,
                d,
            ).contains_key(id) && with_dispatched(in_flight, d)[id] == d[i].generation,
    decreases d.len(),
{
    if d.len() > 0 {
        let t = d.drop_last();
        tweaks_are_not_lost(pending, in_flight, t, id);
        if d.last().item_id == id {
            assert(d[d.len() - 1].item_id == id);
        } else if !without_dispatched(pending, t).contains_key(id) {
            let i = choose|i: int|
                0 <= i < t.len() && (#[trigger] t[i]).item_id == id && with_dispatched(
                    in_flight,
                    t,
                ).contains_key(id) && with_dispatched(in_flight, t)[id] == t[i].generation;
            assert(d[i].item_id == id);
        }
    }
}

/// Drained results: what is left in flight, and which results are handed on. A
/// result is handed on if it is that of the latest dispatch of its item.
pub open spec fn drained(
    in_flight: Map<u64, u64>,
    pending: Map<u64, Pending>,
    results: Seq<PreviewResult>,
) -> (Map<u64, u64>, Seq<PreviewResult>)
    decreases results.len(),
{
    if results.len() == 0 {
        (in_flight, Seq::empty())
    } else {
        let (m, out) = drained(in_flight, pending, results.drop_last());
        let r = results.last();
        if m.contains_key(r.item_id) && m[r.item_id] == r.generation {
            (
                m.remove(r.item_id),
                out.push(PreviewResult { is_final: !pending.contains_key(r.item_id), ..r }),
            )
        } else {
            (m, out)
        }
    }
}

/// Results that were overtaken never come through: each result handed on is that
/// of the latest dispatch of its item, each item gets at most one, and it is
/// final exactly when no newer tweak of that item waits.
pub proof fn only_latest_previews_come_through(
    in_flight: Map<u64, u64>,
    pending: Map<u64, Pending>,
    results: Seq<PreviewResult>,
)
    ensures
        ({
            let (m, out) = drained(in_flight, pending, results);
            &&& forall|i: int|
                0 <= i < out.len() ==> in_flight.contains_key(out[i].item_id) && in_flight[(
                #[trigger] out[i]).item_id] == out[i].generation && !m.contains_key(out[i].item_id)
                    && out[i].is_final == !pending.contains_key(out[i].item_id)
            &&& forall|i: int, j: int| 0 <= i < j < out.len() ==> out[i].item_id != out[j].item_id
            &&& forall|k: u64| #[trigger]
                m.contains_key(k) ==> in_flight.contains_key(k) && m[k] == in_flight[k]
        }),
    decreases results.len(),
{
    if results.len() > 0 {
        let (m0, out0) = drained(in_flight, pending, results.drop_last());
        let (m, out) = drained(in_flight, pending, results);
        only_latest_previews_come_through(in_flight, pending, results.drop_last());
        assert forall|i: int| 0 <= i < out.len() implies in_flight.contains_key(out[i].item_id)
            && in_flight[(#[trigger] out[i]).item_id] == out[i].generation && !m.contains_key(
            out[i].item_id,
        ) && out[i].is_final == !pending.contains_key(out[i].item_id) by {
            if i < out0.len() {
                assert(out[i] == out0[i]);
            }
        }
        assert forall|i: int, j: int| 0 <= i < j < out.len() implies out[i].item_id
            != out[j].item_id by {
            assert(out[i] == out0[i]);
            if j < out0.len() {
                assert(out[j] == out0[j]);
            }
        }
        assert forall|k: u64| #[trigger] m.contains_key(k) implies in_flight.contains_key(k) && m[k]
            == in_flight[k] by {
            assert(m0.contains_key(k));
        }
    }
}

impl LivePreview {
    /// Registers a tweak. Previews that are being computed go on: they are what
    /// is seen during a drag.
    pub fn mark_tweak(&mut self, now: u64, item_id: u64, kind: PreviewKind)
        ensures
            final(self).pending@ == old(self).pending@.insert(
                item_id,
                tweaked(waiting(old(self).pending@, item_id), now, kind),
            ),
            final(self).in_flight == old(self).in_flight,
            final(self).generation_counter == old(self).generation_counter,
    {
        let last_tweak_at: u64 = match self.pending.get(&item_id) {
            Some(p) => {
                if now.saturating_sub(p.last_tweak_at) >= DEBOUNCE {
                    now
                } else {
                    p.last_tweak_at
                }
            },
            None => now,
        };
        self.pending.insert(item_id, Pending { last_tweak_at, kind });
    }

    /// Makes the tweak of an item due at once: the edit has settled. Nothing
    /// happens where none waits.
    pub fn flush(&mut self, now: u64, item_id: u64)
        ensures
            final(self).pending@ == match waiting(old(self).pending@, item_id) {
                Some(p) => old(self).pending@.insert(
                    item_id,
                    Pending {
                        last_tweak_at: if now >= FLUSH_BACK {
                            (now - FLUSH_BACK) as u64
                        } else {
                            now
                        },
                        kind: p.kind,
                    },
                ),
                None => old(self).pending@,
            },
            final(self).in_flight == old(self).in_flight,
            final(self).generation_counter == old(self).generation_counter,
            now >= FLUSH_BACK && old(self).pending@.contains_key(item_id) ==> due(
                now,
                final(self).pending@[item_id],
            ),
    {
        let kind = match self.pending.get(&item_id) {
            Some(p) => p.kind,
            None => {
                return;
            },
        };
        let last_tweak_at: u64 = if now >= FLUSH_BACK {
            now - FLUSH_BACK
        } else {
            now
        };
        self.pending.insert(item_id, Pending { last_tweak_at, kind });
    }

    /// The tweaks whose time has come, each once, in no particular order.
    pub fn due_now(&self, now: u64) -> (r: Vec<Due>)
        ensures
            forall|i: int|
                0 <= i < r@.len() ==> self.pending@.contains_key((#[trigger] r@[i]).item_id)
                    && self.pending@[r@[i].item_id].kind == r@[i].kind && due(
                    now,
                    self.pending@[r@[i].item_id],
                ),
            forall|i: int, j: int| 0 <= i < j < r@.len() ==> r@[i].item_id != r@[j].item_id,
            forall|id: u64|
                #[trigger] self.pending@.contains_key(id) && due(now, self.pending@[id])
                    ==> exists|i: int| 0 <= i < r@.len() && (#[trigger] r@[i]).item_id == id,
    {
        let keys = keys_of(&self.pending);
        let mut r: Vec<Due> = Vec::new();
        let mut k: usize = 0;
        while k < keys.len()
            invariant
                k <= keys@.len(),
                keys@.no_duplicates(),
                forall|id: u64| keys@.contains(id) <==> self.pending@.contains_key(id),
                forall|i: int|
                    0 <= i < r@.len() ==> self.pending@.contains_key((#[trigger] r@[i]).item_id)
                        && self.pending@[r@[i].item_id].kind == r@[i].kind && due(
                        now,
                        self.pending@[r@[i].item_id],
                    ) && keys@.take(k as int).contains(r@[i].item_id),
                forall|i: int, j: int| 0 <= i < j < r@.len() ==> r@[i].item_id != r@[j].item_id,
                forall|j: int|
                    0 <= j < k && due(now, self.pending@[#[trigger] keys@[j]]) ==> exists|i: int|
                        0 <= i < r@.len() && (#[trigger] r@[i]).item_id == keys@[j],
            decreases keys@.len() - k,
        {
            let id: u64 = keys[k];
            let ghost before = r@;
            proof {
                assert(keys@.contains(id));
                assert(keys@.take(k as int + 1) =~= keys@.take(k as int).push(id));
                assert forall|x: u64| keys@.take(k as int).contains(x) implies x != id && keys@.take(
                    k as int + 1,
                ).contains(x) by {
                    let q = keys@.take(k as int).index_of(x);
                    assert(keys@[q] == x);
                    assert(keys@.take(k as int + 1)[q] == x);
                }
                assert(keys@.take(k as int + 1)[k as int] == id);
            }
            if let Some(p) = self.pending.get(&id) {
                if now.saturating_sub(p.last_tweak_at) >= DEBOUNCE {
                    r.push(Due { item_id: id, kind: p.kind });
                }
            }
            proof {
                assert forall|j: int|
                    0 <= j < k + 1 && due(now, self.pending@[#[trigger] keys@[j]]) implies exists|
                    i: int,
                |
                    0 <= i < r@.len() && (#[trigger] r@[i]).item_id == keys@[j] by {
                    if j < k {
                        let i = choose|i: int|
                            0 <= i < before.len() && (#[trigger] before[i]).item_id == keys@[j];
                        assert(r@[i].item_id == keys@[j]);
                    } else {
                        assert(r@[before.len() as int].item_id == keys@[j]);
                    }
                }
            }
            k += 1;
        }
        proof {
            assert forall|id: u64|
                #[trigger] self.pending@.contains_key(id) && due(
                    now,
                    self.pending@[id],
                ) implies exists|i: int| 0 <= i < r@.len() && (#[trigger] r@[i]).item_id == id by {
                assert(keys@.contains(id));
                let j = keys@.index_of(id);
                assert(keys@[j] == id);
            }
        }
        r
    }

    /// Nanoseconds until the next tweak that is not due yet becomes due; `None`
    /// where none waits.
    pub fn next_wait(&self, now: u64) -> (r: Option<u64>)
        ensures
            match r {
                None => forall|id: u64| #[trigger]
                    self.pending@.contains_key(id) ==> due(now, self.pending@[id]),
                Some(w) => {
                    &&& forall|id: u64| #[trigger]
                        self.pending@.contains_key(id) && !due(now, self.pending@[id]) ==> w
                            <= DEBOUNCE - elapsed(now, self.pending@[id].last_tweak_at)
                    &&& exists|id: u64| #[trigger]
                        self.pending@.contains_key(id) && !due(now, self.pending@[id]) && w
                            == DEBOUNCE - elapsed(now, self.pending@[id].last_tweak_at)
                },
            },
    {
        let keys = keys_of(&self.pending);
        let mut wait: Option<u64> = None;
        let mut k: usize = 0;
        while k < keys.len()
            invariant
                k <= keys@.len(),
                forall|id: u64| keys@.contains(id) <==> self.pending@.contains_key(id),
                match wait {
                    None => forall|j: int|
                        0 <= j < k ==> due(now, self.pending@[#[trigger] keys@[j]]),
                    Some(w) => {
                        &&& forall|j: int|
                            0 <= j < k && !due(now, self.pending@[#[trigger] keys@[j]]) ==> w
                                <= DEBOUNCE - elapsed(now, self.pending@[keys@[j]].last_tweak_at)
                        &&& exists|id: u64| #[trigger]
                            self.pending@.contains_key(id) && !due(now, self.pending@[id]) && w
                                == DEBOUNCE - elapsed(now, self.pending@[id].last_tweak_at)
                    },
                },
            decreases keys@.len() - k,
        {
            let id: u64 = keys[k];
            assert(keys@.contains(id));
            if let Some(p) = self.pending.get(&id) {
                let passed: u64 = now.saturating_sub(p.last_tweak_at);
                if passed < DEBOUNCE {
                    let remaining: u64 = DEBOUNCE - passed;
                    wait = match wait {
                        None => Some(remaining),
                        Some(w) => {
                            if remaining < w {
                                Some(remaining)
                            } else {
                                Some(w)
                            }
                        },
                    };
                }
            }
            k += 1;
        }
        proof {
            assert forall|id: u64| #[trigger] self.pending@.contains_key(id) implies keys@.contains(
                id,
            ) && keys@[keys@.index_of(id)] == id by {
                assert(keys@.contains(id));
            }
        }
        wait
    }

    /// The tweaks that are due and whose inputs are at hand.
    fn due_and_available(&self, now: u64, available: &Vec<u64>) -> (r: Vec<Due>)
        ensures
            forall|i: int|
                0 <= i < r@.len() ==> self.pending@.contains_key((#[trigger] r@[i]).item_id)
                    && self.pending@[r@[i].item_id].kind == r@[i].kind && due(
                    now,
                    self.pending@[r@[i].item_id],
                ) && available@.contains(r@[i].item_id),
            forall|i: int, j: int| 0 <= i < j < r@.len() ==> r@[i].item_id != r@[j].item_id,
            forall|id: u64|
                #[trigger] self.pending@.contains_key(id) && due(now, self.pending@[id])
                    && available@.contains(id) ==> exists|i: int|
                    0 <= i < r@.len() && (#[trigger] r@[i]).item_id == id,
    {
        let ready = self.due_now(now);
        let mut r: Vec<Due> = Vec::new();
        let mut k: usize = 0;
        while k < ready.len()
            invariant
                k <= ready@.len(),
                r@ == among(ready@.take(k as int), available@),
            decreases ready@.len() - k,
        {
            assert(ready@.take(k as int + 1).drop_last() =~= ready@.take(k as int));
            let next = ready[k];
            if holds(available, next.item_id) {
                r.push(next);
            }
            k += 1;
        }
        proof {
            assert(ready@.take(ready@.len() as int) =~= ready@);
            among_props(ready@, available@);
            assert forall|i: int| 0 <= i < r@.len() implies self.pending@.contains_key(
                (#[trigger] r@[i]).item_id,
            ) && self.pending@[r@[i].item_id].kind == r@[i].kind && due(
                now,
                self.pending@[r@[i].item_id],
            ) && available@.contains(r@[i].item_id) by {
                let j = ready@.index_of(r@[i]);
                assert(ready@[j] == r@[i]);
            }
            assert forall|id: u64|
                #[trigger] self.pending@.contains_key(id) && due(now, self.pending@[id])
                    && available@.contains(id) implies exists|i: int|
                0 <= i < r@.len() && (#[trigger] r@[i]).item_id == id by {
                let j = choose|j: int| 0 <= j < ready@.len() && (#[trigger] ready@[j]).item_id == id;
                let i = r@.index_of(ready@[j]);
                assert(r@[i].item_id == id);
            }
        }
        r
    }

    /// Starts the preview of one item.
    fn dispatch(&mut self, item_id: u64, kind: PreviewKind) -> (r: Dispatch)
        ensures
            final(self).pending@ == old(self).pending@.remove(item_id),
            r.item_id == item_id,
            r.kind == kind,
            r.generation == generation_at(old(self).generation_counter, 0),
            final(self).generation_counter == r.generation,
            final(self).in_flight@ == old(self).in_flight@.insert(item_id, r.generation),
    {
        self.pending.remove(&item_id);
        let generation: u64 = self.generation_counter.wrapping_add(1);
        self.generation_counter = generation;
        self.in_flight.insert(item_id, generation);
        Dispatch { item_id, kind, generation }
    }

    /// Starts the previews that are due and whose inputs are at hand
    /// (`available`). A tweak whose inputs are not at hand keeps waiting, so that
    /// a later tick tries again.
    pub fn tick(&mut self, now: u64, available: &Vec<u64>) -> (r: Tick)
        ensures
            forall|i: int|
                0 <= i < r.dispatched@.len() ==> {
                    let d = #[trigger] r.dispatched@[i];
                    &&& old(self).pending@.contains_key(d.item_id)
                    &&& due(now, old(self).pending@[d.item_id])
                    &&& old(self).pending@[d.item_id].kind == d.kind
                    &&& available@.contains(d.item_id)
                    &&& d.generation == generation_at(old(self).generation_counter, i)
                },
            forall|i: int, j: int|
                0 <= i < j < r.dispatched@.len() ==> r.dispatched@[i].item_id
                    != r.dispatched@[j].item_id,
            forall|id: u64| #[trigger]
                old(self).pending@.contains_key(id) && due(now, old(self).pending@[id])
                    && available@.contains(id) ==> exists|i: int|
                    0 <= i < r.dispatched@.len() && (#[trigger] r.dispatched@[i]).item_id == id,
            final(self).pending@ == without_dispatched(old(self).pending@, r.dispatched@),
            final(self).in_flight@ == with_dispatched(old(self).in_flight@, r.dispatched@),
            final(self).generation_counter == (if r.dispatched@.len() == 0 {
                old(self).generation_counter as int
            } else {
                generation_at(old(self).generation_counter, r.dispatched@.len() - 1)
            }),
            match r.wait {
                None => forall|id: u64| #[trigger]
                    old(self).pending@.contains_key(id) ==> due(now, old(self).pending@[id]),
                Some(w) => {
                    &&& forall|id: u64| #[trigger]
                        old(self).pending@.contains_key(id) && !due(now, old(self).pending@[id])
                            ==> w <= DEBOUNCE - elapsed(now, old(self).pending@[id].last_tweak_at)
                    &&& exists|id: u64| #[trigger]
                        old(self).pending@.contains_key(id) && !due(now, old(self).pending@[id])
                            && w == DEBOUNCE - elapsed(now, old(self).pending@[id].last_tweak_at)
                },
            },
    {
        let wait = self.next_wait(now);
        let ready = self.due_and_available(now, available);
        let mut dispatched: Vec<Dispatch> = Vec::new();
        let mut k: usize = 0;
        while k < ready.len()
            invariant
                k <= ready@.len(),
                dispatched@.len() == k,
                self.generation_counter as int == (if k == 0 {
                    old(self).generation_counter as int
                } else {
                    generation_at(old(self).generation_counter, k - 1)
                }),
                forall|i: int|
                    0 <= i < k ==> (#[trigger] dispatched@[i]).item_id == ready@[i].item_id
                        && dispatched@[i].kind == ready@[i].kind && dispatched@[i].generation
                        == generation_at(old(self).generation_counter, i),
                self.pending@ == without_dispatched(old(self).pending@, dispatched@),
                self.in_flight@ == with_dispatched(old(self).in_flight@, dispatched@),
            decreases ready@.len() - k,
        {
            let next = ready[k];
            let ghost before = dispatched@;
            let ghost counter = self.generation_counter;
            let d = self.dispatch(next.item_id, next.kind);
            dispatched.push(d);
            proof {
                generation_step(old(self).generation_counter, counter, k as int);
                assert(dispatched@.drop_last() =~= before);
            }
            k += 1;
        }
        proof {
            assert forall|i: int, j: int| 0 <= i < j < dispatched@.len() implies dispatched@[i].item_id
                != dispatched@[j].item_id by {
                assert(ready@[i].item_id != ready@[j].item_id);
            }
            assert forall|id: u64| #[trigger]
                old(self).pending@.contains_key(id) && due(now, old(self).pending@[id])
                    && available@.contains(id) implies exists|i: int|
                0 <= i < dispatched@.len() && (#[trigger] dispatched@[i]).item_id == id by {
                let i = choose|i: int| 0 <= i < ready@.len() && (#[trigger] ready@[i]).item_id == id;
                assert(dispatched@[i].item_id == id);
            }
        }
        Tick { dispatched, wait }
    }

    /// Takes finished previews and hands on those of the latest dispatch of their
    /// item. Whether one is final depends on whether a newer tweak waits.
    pub fn drain_results(&mut self, results: Vec<PreviewResult>) -> (r: Vec<PreviewResult>)
        ensures
            final(self).pending == old(self).pending,
            final(self).generation_counter == old(self).generation_counter,
            final(self).in_flight@ == drained(
                old(self).in_flight@,
                old(self).pending@,
                results@,
            ).0,
            r@ == drained(old(self).in_flight@, old(self).pending@, results@).1,
    {
        let ghost all = results@;
        let mut rest = results;
        let mut out: Vec<PreviewResult> = Vec::new();
        let ghost mut n: int = 0;
        assert(all.take(0) =~= Seq::empty());
        assert(all.skip(0) =~= all);
        while rest.len() > 0
            invariant
                0 <= n <= all.len(),
                rest@ == all.skip(n),
                self.pending == old(self).pending,
                self.generation_counter == old(self).generation_counter,
                self.in_flight@ == drained(
                    old(self).in_flight@,
                    old(self).pending@,
                    all.take(n),
                ).0,
                out@ == drained(old(self).in_flight@, old(self).pending@, all.take(n)).1,
            decreases rest@.len(),
        {
            let mut r = rest.remove(0);
            proof {
                assert(rest@ =~= all.skip(n + 1));
                assert(all.take(n + 1).drop_last() =~= all.take(n));
                assert(all.take(n + 1).last() == r);
                n = n + 1;
            }
            let latest = match self.in_flight.get(&r.item_id) {
                Some(g) => *g == r.generation,
                None => false,
            };
            if latest {
                self.in_flight.remove(&r.item_id);
                r.is_final = !self.pending.contains_key(&r.item_id);
                out.push(r);
            }
        }
        assert(all.take(n) =~= all);
        out
    }

    /// Whether a preview is being computed.
    pub fn has_in_flight(&self) -> (r: bool)
        ensures
            r == (self.in_flight@.dom().len() > 0),
    {
        self.in_flight.len() > 0
    }

    /// Forgets all tweaks and previews. Returns the numbers of the dispatches to
    /// be stopped.
    pub fn cancel_all(&mut self) -> (r: Vec<u64>)
        ensures
            final(self).pending@ == Map::<u64, Pending>::empty(),
            final(self).in_flight@ == Map::<u64, u64>::empty(),
            final(self).generation_counter == old(self).generation_counter,
            forall|g: u64| r@.contains(g) <==> old(self).in_flight@.contains_value(g),
    {
        let keys = keys_of(&self.in_flight);
        let mut r: Vec<u64> = Vec::new();
        let mut k: usize = 0;
        while k < keys.len()
            invariant
                k <= keys@.len(),
                *self == *old(self),
                forall|id: u64| keys@.contains(id) <==> self.in_flight@.contains_key(id),
                r@.len() == k,
                forall|j: int| 0 <= j < k ==> r@[j] == self.in_flight@[#[trigger] keys@[j]],
            decreases keys@.len() - k,
        {
            let id: u64 = keys[k];
            assert(keys@.contains(id));
            let g: u64 = match self.in_flight.get(&id) {
                Some(g) => *g,
                None => 0,
            };
            r.push(g);
            k += 1;
        }
        proof {
            let m = old(self).in_flight@;
            assert forall|g: u64| r@.contains(g) <==> m.contains_value(g) by {
                if r@.contains(g) {
                    let j = r@.index_of(g);
                    assert(keys@.contains(keys@[j]));
                    assert(m.contains_key(keys@[j]) && m[keys@[j]] == g);
                }
                if m.contains_value(g) {
                    let id = choose|id: u64| #[trigger] m.contains_key(id) && m[id] == g;
                    assert(keys@.contains(id));
                    let j = keys@.index_of(id);
                    assert(keys@[j] == id);
                    assert(r@[j] == g);
                }
            }
        }
        self.in_flight.clear();
        self.pending.clear();
        r
    }
}

/// Whether a list holds a number.
fn holds(v: &Vec<u64>, x: u64) -> (r: bool)
    ensures
        r == v@.contains(x),
{
    let mut i: usize = 0;
    while i < v.len()
        invariant
            i <= v@.len(),
            forall|j: int| 0 <= j < i ==> v@[j] != x,
        decreases v@.len() - i,
    {
        if v[i] == x {
            return true;
        }
        i += 1;
    }
    false
}

/// What a preview can draw on.
#[derive(Clone, Copy, Debug, PartialEq, Eq, Structural)]
pub struct PreviewInputs {
    pub kind: PreviewKind,
    pub has_seg: bool,
    pub has_edge: bool,
    /// Whether an edge mask for the current strength and scale is at hand.
    pub has_cached_mask: bool,
    /// Whether the cut-out subject for the current mask settings is at hand.
    pub has_cached_base: bool,
}

/// First step of a preview.
#[derive(Clone, Copy, Debug, PartialEq, Eq, Structural)]
pub enum PreviewPlan {
    /// Nothing can be drawn.
    Abort,
    /// Cut out the subject from the segmentation.
    BuildBase,
    /// Use the cut-out subject that is at hand.
    ReuseBase,
    /// Draw on the source.
    UseSource,
}

/// What a preview ends with.
#[derive(Clone, Copy, Debug, PartialEq, Eq, Structural)]
pub enum PreviewOutcome {
    /// Nothing.
    Nothing,
    /// The cut-out subject alone.
    BaseAlone,
    /// Lines on a base: the cut-out subject or the source. Says what was built
    /// on the way and can be reused.
    Lines { on_source: bool, build_mask: bool, keep_mask: bool, keep_base: bool },
}

impl PreviewInputs {
    /// Whether lines are drawn on the cut-out subject.
    pub open spec fn outline(self) -> bool {
        self.has_seg && self.has_edge
    }

    /// What a preview ends with, given whether it was cancelled and whether the
    /// subject can be cut out.
    pub open spec fn outcome(self, cancelled: bool, base_ok: bool) -> PreviewOutcome {
        if cancelled {
            PreviewOutcome::Nothing
        } else if self.kind == PreviewKind::Mask {
            if !self.has_seg || !base_ok {
                PreviewOutcome::Nothing
            } else if !self.has_edge {
                PreviewOutcome::BaseAlone
            } else {
                PreviewOutcome::Lines {
                    on_source: false,
                    build_mask: !self.has_cached_mask,
                    keep_mask: false,
                    keep_base: true,
                }
            }
        } else if !self.has_edge {
            PreviewOutcome::Nothing
        } else {
            let reused = self.has_seg && self.has_cached_base;
            let built = self.has_seg && !self.has_cached_base && base_ok;
            PreviewOutcome::Lines {
                on_source: !reused && !built,
                build_mask: !self.has_cached_mask,
                keep_mask: !self.has_cached_mask,
                keep_base: built,
            }
        }
    }

    /// First step of a preview.
    pub fn plan(self, cancelled: bool) -> (r: PreviewPlan)
        ensures
            r == if cancelled {
                PreviewPlan::Abort
            } else if self.kind == PreviewKind::Mask {
                if self.has_seg {
                    PreviewPlan::BuildBase
                } else {
                    PreviewPlan::Abort
                }
            } else if !self.has_edge {
                PreviewPlan::Abort
            } else if !self.has_seg {
                PreviewPlan::UseSource
            } else if self.has_cached_base {
                PreviewPlan::ReuseBase
            } else {
                PreviewPlan::BuildBase
            },
    {
        if cancelled {
            return PreviewPlan::Abort;
        }
        match self.kind {
            PreviewKind::Mask => {
                if self.has_seg {
                    PreviewPlan::BuildBase
                } else {
                    PreviewPlan::Abort
                }
            },
            PreviewKind::Edge => {
                if !self.has_edge {
                    PreviewPlan::Abort
                } else if !self.has_seg {
                    PreviewPlan::UseSource
                } else if self.has_cached_base {
                    PreviewPlan::ReuseBase
                } else {
                    PreviewPlan::BuildBase
                }
            },
        }
    }

    /// What a preview ends with once its first step was taken: `base_ok` says
    /// whether a subject that was to be cut out was. An edge preview falls back
    /// to the source where it was not.
    pub fn run_preview(self, plan: PreviewPlan, base_ok: bool) -> (r: PreviewOutcome)
        requires
            exists|cancelled: bool| #[trigger] planned(self, cancelled, plan),
        ensures
            plan == PreviewPlan::Abort ==> r == PreviewOutcome::Nothing,
            plan != PreviewPlan::Abort ==> r == self.outcome(false, base_ok),
    {
        match plan {
            PreviewPlan::Abort => PreviewOutcome::Nothing,
            PreviewPlan::UseSource => PreviewOutcome::Lines {
                on_source: true,
                build_mask: !self.has_cached_mask,
                keep_mask: !self.has_cached_mask,
                keep_base: false,
            },
            PreviewPlan::ReuseBase => PreviewOutcome::Lines {
                on_source: false,
                build_mask: !self.has_cached_mask,
                keep_mask: !self.has_cached_mask,
                keep_base: false,
            },
            PreviewPlan::BuildBase => match self.kind {
                PreviewKind::Mask => {
                    if !base_ok {
                        PreviewOutcome::Nothing
                    } else if !self.has_edge {
                        PreviewOutcome::BaseAlone
                    } else {
                        PreviewOutcome::Lines {
                            on_source: false,
                            build_mask: !self.has_cached_mask,
                            keep_mask: false,
                            keep_base: true,
                        }
                    }
                },
                PreviewKind::Edge => PreviewOutcome::Lines {
                    on_source: !base_ok,
                    build_mask: !self.has_cached_mask,
                    keep_mask: !self.has_cached_mask,
                    keep_base: base_ok,
                },
            },
        }
    }
}

/// Whether a plan is the one of given inputs.
pub open spec fn planned(inputs: PreviewInputs, cancelled: bool, plan: PreviewPlan) -> bool {
    plan == if cancelled {
        PreviewPlan::Abort
    } else if inputs.kind == PreviewKind::Mask {
        if inputs.has_seg {
            PreviewPlan::BuildBase
        } else {
            PreviewPlan::Abort
        }
    } else if !inputs.has_edge {
        PreviewPlan::Abort
    } else if !inputs.has_seg {
        PreviewPlan::UseSource
    } else if inputs.has_cached_base {
        PreviewPlan::ReuseBase
    } else {
        PreviewPlan::BuildBase
    }
}

/// A cached mask or base is never handed back as new, a mask preview always
/// draws on a freshly cut-out subject, and an edge preview with edges at hand
/// always draws something.
pub proof fn previews_reuse_what_they_can(inputs: PreviewInputs, base_ok: bool)
    ensures
        inputs.outcome(false, base_ok) matches PreviewOutcome::Lines {
            on_source,
            build_mask,
            keep_mask,
            keep_base,
        } ==> {
            &&& inputs.has_cached_mask ==> !build_mask && !keep_mask
            &&& inputs.kind == PreviewKind::Edge && inputs.has_cached_base && inputs.has_seg
                ==> !keep_base && !on_source
            &&& inputs.kind == PreviewKind::Mask ==> !on_source && keep_base
        },
        inputs.kind == PreviewKind::Edge && inputs.has_edge ==> inputs.outcome(false, base_ok)
            != PreviewOutcome::Nothing,
{
}

/// What a preview hands back to the batch: its picture, with the edge mask of an
/// edge preview under the strength and scale it was built for, and the cut-out
/// subject under the mask settings and model it was built for. A preview that was
/// cancelled meanwhile hands back nothing.
pub fn preview_result(
    item_id: u64,
    generation: u64,
    kind: PreviewKind,
    settings: &ItemSettings,
    seg_model: Option<ModelKind>,
    rgba: Option<Pixmap>,
    built_mask: Option<u64>,
    built_base: Option<std::sync::Arc<Pixmap>>,
    cancelled: bool,
) -> (r: Option<PreviewResult>)
    ensures
        r is Some <==> !cancelled && rgba is Some,
        r matches Some(p) ==> {
            &&& p.item_id == item_id
            &&& p.generation == generation
            &&& Some(p.rgba) == rgba
            &&& !p.is_final
            &&& p.new_edge_mask == match (kind, built_mask) {
                (PreviewKind::Edge, Some(handle)) => Some(
                    EdgeMask {
                        handle,
                        line_strength_bits: settings.line_strength.bits,
                        scale: settings.edge_scale,
                    },
                ),
                _ => None,
            }
            &&& p.new_masked_base == match (built_base, seg_model) {
                (Some(image), Some(model)) => Some(
                    MaskedBase { image, mask: MaskRecipe::of(settings.mask_part()), model },
                ),
                _ => None,
            }
        },
{
    if cancelled {
        return None;
    }
    let rgba = match rgba {
        Some(p) => p,
        None => {
            return None;
        },
    };
    let new_edge_mask = match (kind, built_mask) {
        (PreviewKind::Edge, Some(handle)) => Some(
            EdgeMask {
                handle,
                line_strength_bits: settings.line_strength.bits,
                scale: settings.edge_scale,
            },
        ),
        _ => None,
    };
    let mask = MaskRecipe::from_settings(&settings.mask_settings());
    let new_masked_base = match (built_base, seg_model) {
        (Some(image), Some(model)) => Some(MaskedBase { image, mask, model }),
        _ => None,
    };
    Some(
        PreviewResult { item_id, rgba, generation, new_edge_mask, new_masked_base, is_final: false },
    )
}

/// A tweak fires once the pause has passed since it was first made, however many follow:
/// further ones of a knob that is being moved do not put it off, and the newest says
/// which stage is redrawn.
pub proof fn moving_a_knob_keeps_previews_coming(p: Pending, now: u64, kind: PreviewKind)
    ensures
        due(now, p) <==> now >= p.last_tweak_at + DEBOUNCE,
        DEBOUNCE == 150_000_000,
        tweaked(Some(p), now, kind).kind == kind,
        !due(now, p) ==> tweaked(Some(p), now, kind).last_tweak_at == p.last_tweak_at,
        due(now, p) ==> tweaked(Some(p), now, kind).last_tweak_at == now,
        tweaked(None, now, kind) == (Pending { last_tweak_at: now, kind }),
        !due(now, tweaked(None, now, kind)),
{
}

/// The preview that was dispatched last is handed on when it arrives, with its own
/// picture and whatever was built on the way.
pub proof fn latest_previews_do_come_through(
    in_flight: Map<u64, u64>,
    pending: Map<u64, Pending>,
    results: Seq<PreviewResult>,
    k: int,
)
    requires
        0 <= k < results.len(),
        in_flight.contains_key(results[k].item_id),
        in_flight[results[k].item_id] == results[k].generation,
        forall|j: int| 0 <= j < results.len() && j != k ==> results[j].item_id
            != results[k].item_id,
    ensures
        drained(in_flight, pending, results).1.contains(
            PreviewResult {
                is_final: !pending.contains_key(results[k].item_id),
                ..results[k]
            },
        ),
    decreases results.len(),
{
    let before = results.drop_last();
    let (m, out) = drained(in_flight, pending, before);
    let all = drained(in_flight, pending, results).1;
    let want = PreviewResult {
        is_final: !pending.contains_key(results[k].item_id),
        ..results[k]
    };
    if k < results.len() - 1 {
        assert(before[k] == results[k]);
        latest_previews_do_come_through(in_flight, pending, before, k);
        let i = out.index_of(want);
        assert(all[i] == want);
    } else {
        others_stay_in_flight(in_flight, pending, before, results[k].item_id);
        assert(all[out.len() as int] == want);
    }
}

proof fn others_stay_in_flight(
    in_flight: Map<u64, u64>,
    pending: Map<u64, Pending>,
    results: Seq<PreviewResult>,
    id: u64,
)
    requires
        forall|j: int| 0 <= j < results.len() ==> (#[trigger] results[j]).item_id != id,
    ensures
        drained(in_flight, pending, results).0.contains_key(id) <==> in_flight.contains_key(id),
        in_flight.contains_key(id) ==> drained(in_flight, pending, results).0[id]
            == in_flight[id],
    decreases results.len(),
{
    if results.len() > 0 {
        let before = results.drop_last();
        assert forall|j: int| 0 <= j < before.len() implies (#[trigger] before[j]).item_id
            != id by {
            assert(before[j] == results[j]);
        }
        others_stay_in_flight(in_flight, pending, before, id);
        assert(results.last() == results[results.len() - 1]);
    }
}

/// Previews show what they can: lines are drawn only with edges at hand and on the
/// cut-out subject where there is one, a mask that is not at hand is built, and a
/// cancelled preview draws nothing.
pub proof fn previews_show_what_they_can(inputs: PreviewInputs, base_ok: bool)
    ensures
        inputs.outcome(true, base_ok) == PreviewOutcome::Nothing,
        inputs.outcome(false, base_ok) matches PreviewOutcome::Lines {
            on_source,
            build_mask,
            keep_mask,
            keep_base,
        } ==> {
            &&& inputs.has_edge
            &&& build_mask <==> !inputs.has_cached_mask
            &&& keep_mask <==> build_mask && inputs.kind == PreviewKind::Edge
            &&& inputs.has_seg && base_ok ==> !on_source
            &&& !inputs.has_seg ==> on_source && !keep_base
            &&& keep_base ==> base_ok && !on_source
        },
        inputs.outcome(false, base_ok) == PreviewOutcome::BaseAlone <==> inputs.kind
            == PreviewKind::Mask && inputs.has_seg && !inputs.has_edge && base_ok,
        inputs.kind == PreviewKind::Mask && inputs.has_seg && base_ok && inputs.has_edge
            ==> inputs.outcome(false, base_ok) is Lines,
        inputs.kind == PreviewKind::Mask && !(inputs.has_seg && base_ok) ==> inputs.outcome(
            false,
            base_ok,
        ) == PreviewOutcome::Nothing,
{
}

/// The dispatches of a tick are told apart by their numbers.
pub proof fn dispatches_are_numbered_apart(counter: u64, i: int, j: int)
    requires
        0 <= i < j < 0x1_0000_0000_0000_0000,
    ensures
        generation_at(counter, i) != generation_at(counter, j),
        0 <= generation_at(counter, i) <= u64::MAX,
{
    let m = 0x1_0000_0000_0000_0000int;
    let a = counter + 1 + i;
    let b = counter + 1 + j;
    vstd::arithmetic::div_mod::lemma_fundamental_div_mod(a, m);
    vstd::arithmetic::div_mod::lemma_fundamental_div_mod(b, m);
    if a % m == b % m {
        let q = a / m;
        let r = b / m;
        assert(b - a == m * (r - q)) by (nonlinear_arith)
            requires
                a == m * q + a % m,
                b == m * r + b % m,
                a % m == b % m,
        ;
        assert(false) by (nonlinear_arith)
            requires
                b - a == m * (r - q),
                0 < b - a < m,
                m > 0,
        ;
    }
}

/// A tick takes from what waits exactly what it dispatched: a waiting tweak of another
/// item goes on waiting, and a dispatched one no longer waits.
pub proof fn dispatched_tweaks_no_longer_wait(m: Map<u64, Pending>, d: Seq<Dispatch>, id: u64)
    ensures
        without_dispatched(m, d).contains_key(id) <==> m.contains_key(id) && forall|i: int|
            0 <= i < d.len() ==> (#[trigger] d[i]).item_id != id,
    decreases d.len(),
{
    if d.len() > 0 {
        let before = d.drop_last();
        dispatched_tweaks_no_longer_wait(m, before, id);
        assert(d.last() == d[d.len() - 1]);
        if without_dispatched(m, d).contains_key(id) {
            assert forall|i: int| 0 <= i < d.len() implies (#[trigger] d[i]).item_id != id by {
                if i < before.len() {
                    assert(before[i] == d[i]);
                }
            }
        }
        if m.contains_key(id) && forall|i: int| 0 <= i < d.len() ==> (#[trigger] d[i]).item_id
            != id {
            assert forall|i: int| 0 <= i < before.len() implies (#[trigger] before[i]).item_id
                != id by {
                assert(before[i] == d[i]);
            }
        }
    }
}

/// Time that has passed counts from the tweak on, and never below zero.
pub proof fn time_passes_from_the_tweak_on(since: u64, now: u64)
    ensures
        now >= since ==> elapsed(now, since) == now - since,
        now < since ==> elapsed(now, since) == 0,
{
}

/// Of the tweaks that are due, exactly those are left whose item is among the given ones.
pub proof fn due_tweaks_of_given_items_are_left(s: Seq<Due>, ids: Seq<u64>, x: Due)
    ensures
        among(s, ids).contains(x) <==> s.contains(x) && ids.contains(x.item_id),
        among(s, ids).len() <= s.len(),
    decreases s.len(),
{
    if s.len() > 0 {
        let t = s.drop_last();
        let a = among(t, ids);
        let r = among(s, ids);
        due_tweaks_of_given_items_are_left(t, ids, x);
        if a.contains(x) {
            let i = choose|i: int| 0 <= i < a.len() && a[i] == x;
            assert(r[i] == x);
        }
        if t.contains(x) {
            let i = choose|i: int| 0 <= i < t.len() && t[i] == x;
            assert(s[i] == x);
        }
        if ids.contains(s.last().item_id) {
            assert(r[r.len() - 1] == s.last());
        }
        if r.contains(x) && !a.contains(x) {
            assert(x == s.last());
            assert(s[s.len() - 1] == x);
        }
        if s.contains(x) && !t.contains(x) {
            let i = choose|i: int| 0 <= i < s.len() && s[i] == x;
            if i < t.len() {
                assert(t[i] == x);
            }
        }
    }
}

/// A cancelled preview is given up, and so is one whose tensor is missing: the
/// segmentation for the mask, the edges for lines. Lines go onto the cut-out subject
/// where there is a segmentation, and the one at hand is used again; a mask preview
/// cuts it out anew.
pub proof fn previews_are_planned_by_their_tensors(
    inputs: PreviewInputs,
    cancelled: bool,
    plan: PreviewPlan,
)
    requires
        planned(inputs, cancelled, plan),
    ensures
        plan is Abort <==> cancelled || (inputs.kind is Mask && !inputs.has_seg) || (
        inputs.kind is Edge && !inputs.has_edge),
        plan is UseSource ==> inputs.kind is Edge && !inputs.has_seg,
        plan is ReuseBase ==> inputs.kind is Edge && inputs.has_seg && inputs.has_cached_base,
        plan is BuildBase ==> inputs.has_seg && (inputs.kind is Mask || !inputs.has_cached_base),
{
}

} // verus!
