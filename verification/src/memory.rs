//! Memory-aware admission of pictures into a batch.
//!
//! Pictures are not all loaded at once. A budget is kept, and the largest
//! waiting picture that still fits is admitted; what a finished picture took is
//! given back.
use vstd::prelude::*;
use std::collections::HashMap;
use crate::pipeline::ModelKind;

verus! {

broadcast use vstd::std_specs::hash::group_hash_axioms;

/// Estimated memory that one picture takes while it is processed.
#[derive(Clone, Copy, Debug, PartialEq, Eq, Structural)]
pub struct ImageMemCost {
    pub item_id: u64,
    pub total: usize,
}

/// Which pictures are admitted, which wait, and how much memory is promised.
pub struct AdmissionController {
    pub budget_bytes: usize,
    pub committed_bytes: usize,
    /// Memory of each admitted picture.
    pub admitted: HashMap<u64, usize>,
    /// Waiting pictures, largest first.
    pub pending: Vec<ImageMemCost>,
    pub total_items: usize,
}

/// What an admission controller knows.
pub struct Admission {
    pub budget: nat,
    pub committed: int,
    pub admitted: Map<u64, usize>,
    pub pending: Seq<ImageMemCost>,
}

impl View for AdmissionController {
    type V = Admission;

    open spec fn view(&self) -> Admission {
        Admission {
            budget: self.budget_bytes as nat,
            committed: self.committed_bytes as int,
            admitted: self.admitted@,
            pending: self.pending@,
        }
    }
}

/// Whether costs stand largest first.
pub open spec fn largest_first(s: Seq<ImageMemCost>) -> bool {
    forall|i: int, j: int| 0 <= i < j < s.len() ==> s[i].total >= s[j].total
}

/// Position of the first cost that is at most `limit`; the length without one.
pub open spec fn first_within(s: Seq<ImageMemCost>, limit: int) -> int
    decreases s.len(),
{
    if s.len() == 0 {
        0
    } else if s[0].total <= limit {
        0
    } else {
        1 + first_within(s.skip(1), limit)
    }
}

/// A cost put behind all that are at least as large.
pub open spec fn put_in_order(s: Seq<ImageMemCost>, c: ImageMemCost) -> Seq<ImageMemCost> {
    s.insert(first_within(s, c.total - 1), c)
}

/// Costs put in order, largest first; equal ones keep their order.
pub open spec fn in_order(s: Seq<ImageMemCost>) -> Seq<ImageMemCost>
    decreases s.len(),
{
    if s.len() == 0 {
        s
    } else {
        put_in_order(in_order(s.drop_last()), s.last())
    }
}

/// Memory of all admitted pictures.
pub open spec fn sum_of(m: Map<u64, usize>) -> int
    decreases m.dom().len(),
    when m.dom().finite()
{
    if m.dom().len() == 0 {
        0
    } else {
        let k = m.dom().choose();
        if m.dom().contains(k) {
            m[k] + sum_of(m.remove(k))
        } else {
            0
        }
    }
}

proof fn first_within_props(s: Seq<ImageMemCost>, limit: int)
    ensures
        0 <= first_within(s, limit) <= s.len(),
        forall|i: int| 0 <= i < first_within(s, limit) ==> s[i].total > limit,
        first_within(s, limit) < s.len() ==> s[first_within(s, limit)].total <= limit,
    decreases s.len(),
{
    if s.len() > 0 && s[0].total > limit {
        let t = s.skip(1);
        first_within_props(t, limit);
        assert forall|i: int| 0 <= i < first_within(s, limit) implies s[i].total > limit by {
            if i > 0 {
                assert(t[i - 1] == s[i]);
            }
        }
    }
}

proof fn first_within_is(s: Seq<ImageMemCost>, limit: int, k: int)
    requires
        0 <= k <= s.len(),
        forall|i: int| 0 <= i < k ==> s[i].total > limit,
        k < s.len() ==> s[k].total <= limit,
    ensures
        first_within(s, limit) == k,
{
    first_within_props(s, limit);
    let f = first_within(s, limit);
    if f < k {
        assert(s[f].total > limit);
    } else if k < f {
        assert(s[k].total > limit);
    }
}

proof fn put_in_order_keeps(s: Seq<ImageMemCost>, c: ImageMemCost)
    requires
        largest_first(s),
    ensures
        largest_first(put_in_order(s, c)),
        put_in_order(s, c).len() == s.len() + 1,
        put_in_order(s, c).to_multiset() =~= s.to_multiset().insert(c),
{
    first_within_props(s, c.total - 1);
    let k = first_within(s, c.total - 1);
    s.to_multiset_ensures();
    vstd::seq_lib::to_multiset_insert(s, k, c);
    let r = put_in_order(s, c);
    assert forall|i: int, j: int| 0 <= i < j < r.len() implies r[i].total >= r[j].total by {
        if j > k && i < k {
            assert(r[j] == s[j - 1]);
        }
        if i == k && j > k {
            assert(r[j] == s[j - 1]);
            assert(s[k].total <= c.total - 1);
        }
    }
}

/// Ordering costs keeps all of them and puts the largest first.
pub proof fn in_order_sorts(s: Seq<ImageMemCost>)
    ensures
        largest_first(in_order(s)),
        in_order(s).to_multiset() =~= s.to_multiset(),
        in_order(s).len() == s.len(),
    decreases s.len(),
{
    if s.len() > 0 {
        let t = s.drop_last();
        in_order_sorts(t);
        put_in_order_keeps(in_order(t), s.last());
        assert(s =~= t.push(s.last()));
        t.to_multiset_ensures();
        assert(s.to_multiset() =~= t.to_multiset().insert(s.last()));
    }
}

/// Costs that are in order stay as they are.
pub proof fn in_order_is_idempotent(s: Seq<ImageMemCost>)
    requires
        largest_first(s),
    ensures
        in_order(s) == s,
    decreases s.len(),
{
    if s.len() > 0 {
        let t = s.drop_last();
        assert(largest_first(t)) by {
            assert forall|i: int, j: int| 0 <= i < j < t.len() implies t[i].total >= t[j].total by {
                assert(s[i].total >= s[j].total);
            }
        }
        in_order_is_idempotent(t);
        let c = s.last();
        assert forall|i: int| 0 <= i < t.len() implies t[i].total > c.total - 1 by {
            assert(s[i].total >= s[s.len() - 1].total);
        }
        first_within_is(t, c.total - 1, t.len() as int);
        assert(t.insert(t.len() as int, c) =~= s);
    }
}

/// A picture's memory can be taken out of the sum first.
proof fn sum_of_remove(m: Map<u64, usize>, k: u64)
    requires
        m.dom().finite(),
        m.dom().contains(k),
    ensures
        sum_of(m) == m[k] + sum_of(m.remove(k)),
        sum_of(m.remove(k)) >= 0,
    decreases m.dom().len(),
{
    let c = m.dom().choose();
    assert(m.dom().contains(c)) by {
        assert(m.dom().len() > 0) by {
            if m.dom().len() == 0 {
                assert(m.dom() =~= Set::<u64>::empty());
            }
        }
        vstd::set::axiom_set_choose_len(m.dom());
    }
    let a = m.remove(c);
    assert(a.dom() =~= m.dom().remove(c));
    assert(m.dom().len() > 0);
    if c != k {
        let b = m.remove(k);
        assert(b.dom() =~= m.dom().remove(k));
        sum_of_remove(a, k);
        sum_of_remove(b, c);
        assert(a.remove(k) =~= b.remove(c));
    } else {
        sum_of_is_nonnegative(a);
    }
}

proof fn sum_of_is_nonnegative(m: Map<u64, usize>)
    requires
        m.dom().finite(),
    ensures
        sum_of(m) >= 0,
    decreases m.dom().len(),
{
    if m.dom().len() > 0 {
        let c = m.dom().choose();
        if m.dom().contains(c) {
            assert(m.remove(c).dom() =~= m.dom().remove(c));
            sum_of_is_nonnegative(m.remove(c));
        }
    }
}

impl Admission {
    /// Memory left in the budget.
    pub open spec fn remaining(self) -> int {
        if self.committed < self.budget {
            self.budget - self.committed
        } else {
            0
        }
    }

    /// The waiting picture at a position becomes admitted.
    pub open spec fn take(self, i: int) -> Admission {
        Admission {
            budget: self.budget,
            committed: self.committed + self.pending[i].total,
            admitted: self.admitted.insert(self.pending[i].item_id, self.pending[i].total),
            pending: self.pending.remove(i),
        }
    }

    /// Position of the picture admitted next: the first that fits, or, when none
    /// fits and nothing is being processed, the last and smallest.
    pub open spec fn choice(self) -> Option<int> {
        let k = first_within(self.pending, self.remaining());
        if k < self.pending.len() {
            Some(k)
        } else if self.admitted.dom().len() == 0 && self.pending.len() > 0 {
            Some(self.pending.len() - 1)
        } else {
            None
        }
    }

    /// State after admitting the next picture.
    pub open spec fn step(self) -> Admission {
        match self.choice() {
            Some(i) => self.take(i),
            None => self,
        }
    }

    /// State after a picture finished.
    pub open spec fn release(self, id: u64) -> Admission {
        if self.admitted.contains_key(id) {
            Admission {
                committed: if self.committed > self.admitted[id] {
                    self.committed - self.admitted[id]
                } else {
                    0
                },
                admitted: self.admitted.remove(id),
                ..self
            }
        } else {
            self
        }
    }

    /// Waiting pictures stand largest first.
    pub open spec fn wf(self) -> bool {
        largest_first(self.pending)
    }

    /// Every picture is known once, and the promised memory is that of the
    /// admitted pictures.
    pub open spec fn balanced(self) -> bool {
        &&& self.admitted.dom().finite()
        &&& self.committed == sum_of(self.admitted)
        &&& forall|i: int|
            0 <= i < self.pending.len() ==> !self.admitted.contains_key(
                #[trigger] self.pending[i].item_id,
            )
        &&& forall|i: int, j: int|
            0 <= i < j < self.pending.len() ==> self.pending[i].item_id != self.pending[j].item_id
    }

    /// The promised memory is within the budget, or one admitted picture makes
    /// up all of it.
    pub open spec fn within_budget(self) -> bool {
        self.committed <= self.budget || exists|id: u64| #[trigger]
            self.admitted.contains_key(id) && self.admitted[id] == self.committed
    }

    /// Whether everything was admitted and has finished.
    pub open spec fn complete(self) -> bool {
        self.pending.len() == 0 && self.admitted.dom().len() == 0
    }

    /// State after a number of rounds in each of which the next picture is
    /// admitted and finishes.
    pub open spec fn after_rounds(self, n: nat) -> Admission
        decreases n,
    {
        if n == 0 {
            self
        } else {
            let s = self.after_rounds((n - 1) as nat);
            match s.choice() {
                Some(i) => s.take(i).release(s.pending[i].item_id),
                None => s,
            }
        }
    }
}

/// The admitted picture is the largest that fits in what is left of the budget.
pub proof fn best_fit_is_largest_that_fits(s: Admission, j: int)
    requires
        s.wf(),
        0 <= j < s.pending.len(),
        s.pending[j].total <= s.remaining(),
    ensures
        s.choice() matches Some(i) && 0 <= i < s.pending.len() && s.pending[i].total
            <= s.remaining() && s.pending[i].total >= s.pending[j].total,
{
    first_within_props(s.pending, s.remaining());
    let k = first_within(s.pending, s.remaining());
    if k > j {
        assert(s.pending[j].total > s.remaining());
    }
    if k < j {
        assert(s.pending[k].total >= s.pending[j].total);
    }
}

/// What is admitted next is one of the pictures that wait.
pub proof fn choice_is_waiting(s: Admission)
    ensures
        s.choice() matches Some(i) ==> 0 <= i < s.pending.len(),
{
    first_within_props(s.pending, s.remaining());
}

/// Admission never stalls: while a picture waits and none is being processed,
/// one is admitted.
pub proof fn admission_makes_progress(s: Admission)
    requires
        s.pending.len() > 0,
        s.admitted.dom().len() == 0,
    ensures
        s.choice() is Some,
{
}

/// Admitting keeps the order of those waiting, the balance and the budget.
pub proof fn admission_keeps(s: Admission)
    requires
        s.wf(),
    ensures
        s.step().wf(),
        s.balanced() ==> s.step().balanced(),
        s.balanced() && s.within_budget() ==> s.step().within_budget(),
{
    first_within_props(s.pending, s.remaining());
    if let Some(i) = s.choice() {
        let t = s.take(i);
        let c = s.pending[i];
        assert forall|a: int, b: int| 0 <= a < b < t.pending.len() implies t.pending[a].total
            >= t.pending[b].total by {
            let x = if a < i {
                a
            } else {
                a + 1
            };
            let y = if b < i {
                b
            } else {
                b + 1
            };
            assert(s.pending[x].total >= s.pending[y].total);
        }
        if s.balanced() {
            assert(t.admitted.dom() =~= s.admitted.dom().insert(c.item_id));
            assert(!s.admitted.contains_key(c.item_id));
            sum_of_remove(t.admitted, c.item_id);
            assert(t.admitted.remove(c.item_id) =~= s.admitted);
            assert forall|a: int| 0 <= a < t.pending.len() implies !t.admitted.contains_key(
                #[trigger] t.pending[a].item_id,
            ) by {
                let x = if a < i {
                    a
                } else {
                    a + 1
                };
                assert(t.pending[a] == s.pending[x]);
                assert(s.pending[x].item_id != c.item_id);
            }
            if s.within_budget() {
                if c.total <= s.remaining() {
                    if s.committed > s.budget {
                        let id = choose|id: u64| #[trigger]
                            s.admitted.contains_key(id) && s.admitted[id] == s.committed;
                        assert(t.admitted.contains_key(id) && t.admitted[id] == t.committed);
                    }
                } else {
                    assert(s.admitted.dom() =~= Set::<u64>::empty());
                    assert(s.admitted =~= Map::<u64, usize>::empty());
                    assert(s.committed == 0);
                    assert(t.admitted.contains_key(c.item_id) && t.admitted[c.item_id]
                        == t.committed);
                }
            }
        }
    }
}

/// A finished picture gives back exactly what it took, and the budget holds.
pub proof fn release_keeps(s: Admission, id: u64)
    requires
        s.wf(),
        s.balanced(),
    ensures
        s.release(id).wf(),
        s.release(id).balanced(),
        s.admitted.contains_key(id) ==> s.release(id).committed == s.committed - s.admitted[id],
        s.within_budget() ==> s.release(id).within_budget(),
{
    let t = s.release(id);
    if s.admitted.contains_key(id) {
        sum_of_remove(s.admitted, id);
        assert(t.admitted.dom() =~= s.admitted.dom().remove(id));
        assert forall|a: int| 0 <= a < t.pending.len() implies !t.admitted.contains_key(
            #[trigger] t.pending[a].item_id,
        ) by {
            assert(!s.admitted.contains_key(s.pending[a].item_id));
        }
        if s.within_budget() && s.committed > s.budget {
            let big = choose|x: u64| #[trigger]
                s.admitted.contains_key(x) && s.admitted[x] == s.committed;
            if big != id {
                assert(t.admitted.contains_key(big));
                sum_of_remove(t.admitted, big);
                assert(s.admitted[id] == 0);
                assert(t.admitted[big] == t.committed);
            }
        }
    }
}

/// Everything drains: however small the budget, admitting and finishing one
/// picture after the other gets through all of them.
pub proof fn admission_drains(s: Admission, n: nat)
    requires
        s.wf(),
        s.balanced(),
        s.admitted.dom().len() == 0,
        n <= s.pending.len(),
    ensures
        s.after_rounds(n).pending.len() == s.pending.len() - n,
        s.after_rounds(n).admitted.dom().len() == 0,
        s.after_rounds(n).wf(),
        s.after_rounds(n).balanced(),
        n == s.pending.len() ==> s.after_rounds(n).complete(),
    decreases n,
{
    if n > 0 {
        let t = s.after_rounds((n - 1) as nat);
        admission_drains(s, (n - 1) as nat);
        first_within_props(t.pending, t.remaining());
        let i = t.choice()->0;
        let id = t.pending[i].item_id;
        admission_keeps(t);
        release_keeps(t.take(i), id);
        let u = t.take(i).release(id);
        assert(t.admitted.dom() =~= Set::<u64>::empty());
        assert(u.admitted.dom() =~= t.admitted.dom());
    }
}

/// Admitting cannot overflow while the books balance: a picture that does not
/// fit is only admitted when nothing else is promised.
pub proof fn balanced_admission_fits(s: Admission)
    requires
        s.balanced(),
        s.admitted.dom().len() == 0,
    ensures
        s.committed == 0,
{
    assert(s.admitted.dom() =~= Set::<u64>::empty());
}

impl AdmissionController {
    /// Whether forcing a picture in stays within the machine's range.
    pub open spec fn force_fits(&self) -> bool {
        self@.admitted.dom().len() == 0 && self.pending@.len() > 0 ==> self.committed_bytes
            + self.pending@.last().total <= usize::MAX
    }

    /// A controller with nothing admitted and the given budget.
    pub fn with_budget(budget: usize) -> (r: AdmissionController)
        ensures
            r@ == (Admission {
                budget: budget as nat,
                committed: 0,
                admitted: Map::empty(),
                pending: Seq::empty(),
            }),
            r.total_items == 0,
            r@.wf(),
            r@.balanced(),
            r@.within_budget(),
    {
        let r = AdmissionController {
            budget_bytes: budget,
            committed_bytes: 0,
            admitted: HashMap::new(),
            pending: Vec::new(),
            total_items: 0,
        };
        assert(r@.pending =~= Seq::empty());
        r
    }

    /// A controller for the given machine: 85 percent of the free memory, less
    /// what the inference engines take.
    pub fn new(available: u64, on_gpu: bool, model: ModelKind, jobs: usize) -> (r: AdmissionController)
        requires
            engine_cost(model) * engine_count(on_gpu, jobs) <= usize::MAX,
            available as int * 85 / 100 <= usize::MAX,
        ensures
            r.budget_bytes == {
                let share = available as int * 85 / 100;
                let overhead = engine_cost(model) * engine_count(on_gpu, jobs);
                if share > overhead {
                    share - overhead
                } else {
                    0
                }
            },
            r.budget_bytes > 0 ==> 100 * (r.budget_bytes + engine_cost(model) * engine_count(
                on_gpu,
                jobs,
            )) <= 85 * available,
            r.committed_bytes == 0,
            r@.admitted == Map::<u64, usize>::empty(),
            r@.pending == Seq::<ImageMemCost>::empty(),
            r.total_items == 0,
            r@.wf(),
            r@.balanced(),
            r@.within_budget(),
    {
        let overhead: usize = model_overhead(on_gpu, model, jobs);
        let share: u128 = available as u128 * 85 / 100;
        let budget: usize = (share as usize).saturating_sub(overhead);
        AdmissionController::with_budget(budget)
    }

    /// Memory of one picture: decoded, processed, and the file itself.
    pub fn estimate_cost(item_id: u64, dimensions: (u32, u32), file_bytes_len: usize) -> (r:
        ImageMemCost)
        requires
            8 * (dimensions.0 as int * dimensions.1 as int) + file_bytes_len <= usize::MAX,
        ensures
            r.item_id == item_id,
            r.total == 8 * (dimensions.0 as int * dimensions.1 as int) + file_bytes_len,
    {
        proof {
            assert(0 <= dimensions.0 as int * dimensions.1 as int) by (nonlinear_arith)
                requires
                    0 <= dimensions.0,
                    0 <= dimensions.1,
            ;
        }
        let pixels: usize = dimensions.0 as usize * dimensions.1 as usize;
        let rgba_size: usize = pixels * 4;
        let total: usize = rgba_size * 2 + file_bytes_len;
        ImageMemCost { item_id, total }
    }

    /// Adds waiting pictures and puts all of them in order, largest first.
    pub fn enqueue(&mut self, costs: Vec<ImageMemCost>)
        requires
            old(self)@.wf(),
            old(self).total_items + costs@.len() <= usize::MAX,
        ensures
            final(self)@ == (Admission {
                pending: in_order(old(self)@.pending + costs@),
                ..old(self)@
            }),
            final(self).total_items == old(self).total_items + costs@.len(),
            final(self)@.wf(),
            final(self)@.pending.to_multiset() == (old(self)@.pending + costs@).to_multiset(),
            old(self)@.balanced() && (forall|i: int|
                0 <= i < costs@.len() ==> !old(self)@.admitted.contains_key(
                    #[trigger] costs@[i].item_id,
                )) && (forall|i: int, j: int|
                0 <= i < j < (old(self)@.pending + costs@).len() ==> (old(self)@.pending
                    + costs@)[i].item_id != (old(self)@.pending + costs@)[j].item_id)
                ==> final(self)@.balanced(),
    {
        self.total_items = self.total_items + costs.len();
        proof {
            in_order_is_idempotent(self.pending@);
            assert(self.pending@ + costs@.take(0) =~= self.pending@);
        }
        let ghost before = self.pending@;
        let mut i: usize = 0;
        while i < costs.len()
            invariant
                i <= costs@.len(),
                before == old(self).pending@,
                self.pending@ == in_order(before + costs@.take(i as int)),
                self.budget_bytes == old(self).budget_bytes,
                self.committed_bytes == old(self).committed_bytes,
                self.admitted == old(self).admitted,
                self.total_items == old(self).total_items + costs@.len(),
            decreases costs@.len() - i,
        {
            let c = costs[i];
            let mut k: usize = 0;
            while k < self.pending.len() && self.pending[k].total >= c.total
                invariant
                    k <= self.pending@.len(),
                    forall|j: int| 0 <= j < k ==> self.pending@[j].total >= c.total,
                decreases self.pending@.len() - k,
            {
                k += 1;
            }
            proof {
                first_within_is(self.pending@, c.total - 1, k as int);
                let s = before + costs@.take(i as int + 1);
                assert(s.drop_last() =~= before + costs@.take(i as int));
                assert(s.last() == c);
            }
            self.pending.insert(k, c);
            i += 1;
        }
        proof {
            assert(costs@.take(costs@.len() as int) =~= costs@);
            let s = before + costs@;
            in_order_sorts(s);
            if old(self)@.balanced() && (forall|i: int|
                0 <= i < costs@.len() ==> !old(self)@.admitted.contains_key(
                    #[trigger] costs@[i].item_id,
                )) && (forall|i: int, j: int|
                0 <= i < j < s.len() ==> s[i].item_id != s[j].item_id) {
                same_ids_after_ordering(s, in_order(s), old(self)@.admitted);
            }
        }
    }

    /// Admits the largest waiting picture that fits. When none fits and none is
    /// being processed, the smallest is admitted all the same, so that a batch
    /// always gets on.
    pub fn try_admit_next(&mut self) -> (r: Option<u64>)
        requires
            old(self)@.wf(),
            old(self).force_fits(),
        ensures
            final(self)@ == old(self)@.step(),
            final(self)@.wf(),
            old(self)@.balanced() ==> final(self)@.balanced(),
            old(self)@.balanced() && old(self)@.within_budget() ==> final(self)@.within_budget(),
            final(self).total_items == old(self).total_items,
            r == match old(self)@.choice() {
                Some(i) => Some(old(self)@.pending[i].item_id),
                None => None,
            },
    {
        proof {
            admission_keeps(self@);
        }
        let remaining: usize = self.budget_bytes.saturating_sub(self.committed_bytes);
        let mut k: usize = 0;
        while k < self.pending.len() && self.pending[k].total > remaining
            invariant
                k <= self.pending@.len(),
                *self == *old(self),
                forall|j: int| 0 <= j < k ==> self.pending@[j].total > remaining,
            decreases self.pending@.len() - k,
        {
            k += 1;
        }
        proof {
            first_within_is(self.pending@, remaining as int, k as int);
        }
        if k < self.pending.len() {
            let cost = self.pending.remove(k);
            self.committed_bytes = self.committed_bytes + cost.total;
            self.admitted.insert(cost.item_id, cost.total);
            return Some(cost.item_id);
        }
        if self.admitted.len() == 0 && self.pending.len() > 0 {
            let cost = self.pending.pop().unwrap();
            self.committed_bytes = self.committed_bytes + cost.total;
            self.admitted.insert(cost.item_id, cost.total);
            proof {
                let p = old(self)@.pending;
                assert(p.remove(p.len() - 1) =~= p.drop_last());
            }
            return Some(cost.item_id);
        }
        None
    }

    /// Gives back what a finished picture took. A picture that is not admitted
    /// changes nothing.
    pub fn release(&mut self, item_id: u64)
        ensures
            final(self)@ == old(self)@.release(item_id),
            final(self).total_items == old(self).total_items,
            old(self)@.wf() ==> final(self)@.wf(),
            old(self)@.wf() && old(self)@.balanced() ==> final(self)@.balanced(),
            old(self)@.wf() && old(self)@.balanced() && old(self)@.within_budget() ==> final(self)@.within_budget(),
    {
        proof {
            if self@.wf() && self@.balanced() {
                release_keeps(self@, item_id);
            }
        }
        match self.admitted.remove(&item_id) {
            Some(cost) => {
                self.committed_bytes = self.committed_bytes.saturating_sub(cost);
            },
            None => {
                assert(self.admitted@ =~= old(self).admitted@);
            },
        }
    }

    /// Whether everything was admitted and has finished.
    pub fn is_complete(&self) -> (r: bool)
        ensures
            r == self@.complete(),
    {
        self.pending.len() == 0 && self.admitted.len() == 0
    }
}

proof fn same_ids_after_ordering(
    s: Seq<ImageMemCost>,
    t: Seq<ImageMemCost>,
    admitted: Map<u64, usize>,
)
    requires
        t.to_multiset() =~= s.to_multiset(),
        forall|i: int| 0 <= i < s.len() ==> !admitted.contains_key(#[trigger] s[i].item_id),
        forall|i: int, j: int| 0 <= i < j < s.len() ==> s[i].item_id != s[j].item_id,
    ensures
        forall|i: int| 0 <= i < t.len() ==> !admitted.contains_key(#[trigger] t[i].item_id),
        forall|i: int, j: int| 0 <= i < j < t.len() ==> t[i].item_id != t[j].item_id,
{
    s.to_multiset_ensures();
    t.to_multiset_ensures();
    assert forall|i: int| 0 <= i < t.len() implies s.contains(#[trigger] t[i]) by {
        assert(t.contains(t[i]));
        assert(t.to_multiset().count(t[i]) > 0);
        assert(s.to_multiset().count(t[i]) > 0);
    }
    assert forall|i: int| 0 <= i < t.len() implies !admitted.contains_key(
        #[trigger] t[i].item_id,
    ) by {
        assert(s.contains(t[i]));
        let k = s.index_of(t[i]);
        assert(!admitted.contains_key(s[k].item_id));
    }
    assert(s.no_duplicates());
    s.lemma_multiset_has_no_duplicates();
    assert(t.no_duplicates()) by {
        t.lemma_multiset_has_no_duplicates_conv();
    }
    assert forall|i: int, j: int| 0 <= i < j < t.len() implies t[i].item_id != t[j].item_id by {
        assert(s.contains(t[i]) && s.contains(t[j]));
        let a = s.index_of(t[i]);
        let b = s.index_of(t[j]);
        if t[i].item_id == t[j].item_id {
            if a < b {
                assert(s[a].item_id != s[b].item_id);
            } else if b < a {
                assert(s[b].item_id != s[a].item_id);
            } else {
                assert(t[i] == t[j]);
            }
        }
    }
}

/// Whether less than a fifth of the memory is free. A machine that reports no
/// memory at all is not under pressure.
pub fn under_memory_pressure(total: u64, available: u64) -> (r: bool)
    ensures
        r == (total > 0 && 5 * available < total),
{
    if total == 0 {
        return false;
    }
    (available as u128) * 5 < total as u128
}

/// Memory of one inference engine.
pub open spec fn engine_cost(model: ModelKind) -> int {
    match model {
        ModelKind::Silueta => 200int * 1024 * 1024,
        ModelKind::U2net => 800int * 1024 * 1024,
        ModelKind::BiRefNetLite => 2500int * 1024 * 1024,
    }
}

/// Memory of one inference engine: weights, workspace, tensors and the decoded
/// picture.
pub fn per_engine_cost(model: ModelKind) -> (r: usize)
    ensures
        r == engine_cost(model),
        r > 0,
{
    match model {
        ModelKind::Silueta => 200 * 1024 * 1024,
        ModelKind::U2net => 800 * 1024 * 1024,
        ModelKind::BiRefNetLite => 2500 * 1024 * 1024,
    }
}

/// Engines that run at once: at most two on a graphics processor.
pub open spec fn engine_count(on_gpu: bool, jobs: usize) -> int {
    if on_gpu && jobs > 2 {
        2
    } else {
        jobs as int
    }
}

/// Memory that the engines take together.
pub fn model_overhead(on_gpu: bool, model: ModelKind, jobs: usize) -> (r: usize)
    requires
        engine_cost(model) * engine_count(on_gpu, jobs) <= usize::MAX,
    ensures
        r == engine_cost(model) * engine_count(on_gpu, jobs),
{
    let num_engines: usize = if on_gpu && jobs > 2 {
        2
    } else {
        jobs
    };
    proof {
        assert(engine_cost(model) * num_engines >= 0) by (nonlinear_arith)
            requires
                engine_cost(model) >= 0,
                num_engines >= 0,
        ;
    }
    per_engine_cost(model) * num_engines
}

/// Largest number of parallel jobs that leaves half of the free memory alone:
/// at least one, at most eight.
pub fn safe_max_jobs(available: u64, model: ModelKind) -> (r: usize)
    ensures
        r == {
            let n = available as int / 2 / engine_cost(model);
            if n < 1 {
                1
            } else if n > 8 {
                8
            } else {
                n
            }
        },
        1 <= r <= 8,
        r > 1 ==> 2 * (r * engine_cost(model)) <= available,
        r < 8 ==> 2 * ((r + 1) * engine_cost(model)) > available,
{
    let budget: u64 = available / 2;
    let cost: u64 = per_engine_cost(model) as u64;
    let n: u64 = budget / cost;
    proof {
        let c = cost as int;
        let b = budget as int;
        let k = n as int;
        assert(k * c <= b && (k + 1) * c > b) by (nonlinear_arith)
            requires
                c > 0,
                b >= 0,
                k == b / c,
        ;
        assert(k < 1 ==> k == 0) by (nonlinear_arith)
            requires
                c > 0,
                b >= 0,
                k == b / c,
        ;
        assert(k < 1 ==> 2 * c > b) by (nonlinear_arith)
            requires
                c > 0,
                (k + 1) * c > b,
                k < 1 ==> k == 0,
        ;
        assert(k >= 8 ==> 8 * c <= b) by (nonlinear_arith)
            requires
                c > 0,
                k * c <= b,
        ;
    }
    if n < 1 {
        1
    } else if n > 8 {
        8
    } else {
        n as usize
    }
}

/// The larger the model, the more memory an engine takes, in whole mebibytes.
pub proof fn larger_models_take_more(model: ModelKind)
    ensures
        engine_cost(model) % 1_048_576 == 0,
        engine_cost(model) / 1_048_576 == 200 <==> model is Silueta,
        engine_cost(model) / 1_048_576 == 800 <==> model is U2net,
        engine_cost(model) / 1_048_576 == 2500 <==> model is BiRefNetLite,
        engine_cost(ModelKind::Silueta) <= engine_cost(model) <= engine_cost(
            ModelKind::BiRefNetLite,
        ),
{
}

/// No more engines run than there are jobs, and a graphics processor runs two
/// at most; with so few jobs, or without one, each job has an engine.
pub proof fn each_job_has_an_engine(on_gpu: bool, jobs: usize)
    ensures
        engine_count(on_gpu, jobs) <= jobs,
        on_gpu ==> engine_count(on_gpu, jobs) <= 2,
        jobs <= 2 || !on_gpu ==> engine_count(on_gpu, jobs) == jobs,
        jobs >= 2 ==> engine_count(on_gpu, jobs) >= 2,
{
}

/// An admitted picture leaves the queue, its memory is promised, and the rest
/// of the queue and of the admitted pictures stay. Where none is admitted,
/// nothing changes.
pub proof fn admitted_pictures_leave_the_queue(s: Admission)
    ensures
        s.step().budget == s.budget,
        s.choice() matches Some(i) ==> {
            let c = s.pending[i];
            &&& s.step().pending.len() == s.pending.len() - 1
            &&& s.step().pending.to_multiset().insert(c) =~= s.pending.to_multiset()
            &&& s.step().committed == s.committed + c.total
            &&& s.step().admitted.contains_key(c.item_id)
            &&& s.step().admitted[c.item_id] == c.total
            &&& forall|id: u64|
                id != c.item_id ==> (#[trigger] s.step().admitted.contains_key(id)
                    == s.admitted.contains_key(id) && s.step().admitted[id] == s.admitted[id])
        },
        s.choice() is None ==> s.step() == s,
{
    choice_is_waiting(s);
    if let Some(i) = s.choice() {
        s.pending.to_multiset_ensures();
        s.pending.remove(i).to_multiset_ensures();
        assert(s.pending.to_multiset().contains(s.pending[i]));
    }
}

/// A picture waits on only while it does not fit in what is left and others are
/// being processed. One that does not fit is let in only when nothing else is,
/// and then it is the smallest.
pub proof fn only_misfits_wait(s: Admission, j: int)
    requires
        s.wf(),
        0 <= j < s.pending.len(),
    ensures
        s.choice() is None ==> s.committed + s.pending[j].total > s.budget && s.admitted.dom().len()
            != 0,
        s.choice() matches Some(i) ==> s.committed + s.pending[i].total <= s.budget
            || s.pending[i].total == 0 || (s.admitted.dom().len() == 0 && s.pending[i].total
            <= s.pending[j].total),
{
    choice_is_waiting(s);
    first_within_props(s.pending, s.remaining());
    if let Some(i) = s.choice() {
        if i < j {
            assert(s.pending[i].total >= s.pending[j].total);
        }
        if j < i {
            assert(s.pending[j].total >= s.pending[i].total);
        }
    }
}

/// A finished picture is no longer admitted; the others and the queue stay.
pub proof fn finished_pictures_make_room(s: Admission, id: u64, other: u64)
    ensures
        !s.release(id).admitted.contains_key(id),
        other != id ==> s.release(id).admitted.contains_key(other) == s.admitted.contains_key(other)
            && s.release(id).admitted[other] == s.admitted[other],
        s.release(id).pending == s.pending,
        s.release(id).budget == s.budget,
        s.release(id).committed <= s.committed || s.committed < 0,
        !s.admitted.contains_key(id) ==> s.release(id) == s,
{
}

/// A batch is through when no picture waits and none is being processed.
pub proof fn complete_batches_hold_nothing(s: Admission, id: u64)
    requires
        s.admitted.dom().finite(),
    ensures
        s.complete() ==> !s.admitted.contains_key(id) && s.pending =~= Seq::empty(),
        s.pending.len() > 0 || s.admitted.contains_key(id) ==> !s.complete(),
{
    if s.admitted.contains_key(id) {
        assert(s.admitted.dom().contains(id));
        assert(s.admitted.dom().len() > 0);
    }
}

} // verus!
