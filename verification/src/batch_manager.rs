//! The batch: its items in order, which one is viewed, which are checked, and
//! how much memory their cached tensors may take.
use vstd::prelude::*;
use crate::history_manager::files;
use crate::item::{BatchItem, BatchStatus};
use crate::knob_catalog::CacheImpact;
use crate::text::{decimal, join3, same_text, to_decimal};

verus! {

/// Number of items in each state. Items that wait are not counted.
#[derive(Clone, Copy, Debug, PartialEq, Eq, Structural)]
pub struct StatusCounts {
    pub done: usize,
    pub processing: usize,
    pub errored: usize,
}

impl Default for StatusCounts {
    fn default() -> (r: StatusCounts)
        ensures
            r == (StatusCounts { done: 0, processing: 0, errored: 0 }),
    {
        StatusCounts { done: 0, processing: 0, errored: 0 }
    }
}

impl StatusCounts {
    /// Number of items that are or were processed.
    pub fn batch_total(&self) -> (r: usize)
        requires
            self.done + self.processing + self.errored <= usize::MAX,
        ensures
            r == self.done + self.processing + self.errored,
    {
        self.done + self.processing + self.errored
    }
}

/// Progress of a batch: a line for the user, and the finished part as a
/// fraction.
pub struct StatusReport {
    pub stage: String,
    pub done: usize,
    /// Number of items the fraction is of; at least one.
    pub of: usize,
}

/// What the process button offers.
#[derive(Clone, Copy, Debug, PartialEq, Eq, Structural)]
pub enum ProcessButtonLabel {
    /// Nothing is checked: the viewed item.
    ProcessViewed,
    /// The checked items.
    ProcessSelected(usize),
    /// All items, at least two.
    ProcessAll(usize),
}

/// State of the application as the viewed item gives it.
#[derive(Clone, Copy, Debug, PartialEq, Eq, Structural)]
pub enum AppState {
    Empty,
    Loaded,
    Processing,
    Done,
}

/// Bytes that the cached tensors of all items may take together.
pub const TENSOR_BUDGET: usize = 536_870_912;

/// The batch.
pub struct BatchManager {
    pub items: Vec<BatchItem>,
    /// Position of the viewed item.
    pub selected_index: usize,
    /// Id of the next item.
    pub next_id: u64,
}

/// What removing an item did.
pub struct Removed {
    pub removed: bool,
    /// Files of its history, which are no longer needed.
    pub delete: Vec<String>,
}

/// Whether two states are the same.
pub open spec fn same_state(a: BatchStatus, b: BatchStatus) -> bool {
    match (a, b) {
        (BatchStatus::Pending, BatchStatus::Pending) => true,
        (BatchStatus::Processing, BatchStatus::Processing) => true,
        (BatchStatus::Done, BatchStatus::Done) => true,
        (BatchStatus::Error(x), BatchStatus::Error(y)) => x@ == y@,
        _ => false,
    }
}

/// Whether two states are the same.
fn is_same_state(a: &BatchStatus, b: &BatchStatus) -> (r: bool)
    ensures
        r == same_state(*a, *b),
{
    match (a, b) {
        (BatchStatus::Pending, BatchStatus::Pending) => true,
        (BatchStatus::Processing, BatchStatus::Processing) => true,
        (BatchStatus::Done, BatchStatus::Done) => true,
        (BatchStatus::Error(x), BatchStatus::Error(y)) => same_text(x.as_str(), y.as_str()),
        _ => false,
    }
}

/// Ids of the checked items, in order.
pub open spec fn checked_ids(s: Seq<BatchItem>) -> Seq<u64>
    decreases s.len(),
{
    if s.len() == 0 {
        Seq::empty()
    } else if s.last().selected {
        checked_ids(s.drop_last()).push(s.last().id)
    } else {
        checked_ids(s.drop_last())
    }
}

/// Ids of the checked items in a state, in order.
pub open spec fn checked_ids_in(s: Seq<BatchItem>, status: BatchStatus) -> Seq<u64>
    decreases s.len(),
{
    if s.len() == 0 {
        Seq::empty()
    } else if s.last().selected && same_state(s.last().status, status) {
        checked_ids_in(s.drop_last(), status).push(s.last().id)
    } else {
        checked_ids_in(s.drop_last(), status)
    }
}

/// Number of items in each state.
pub open spec fn tally(s: Seq<BatchItem>) -> (nat, nat, nat)
    decreases s.len(),
{
    if s.len() == 0 {
        (0, 0, 0)
    } else {
        let t = tally(s.drop_last());
        match s.last().status {
            BatchStatus::Done => (t.0 + 1, t.1, t.2),
            BatchStatus::Processing => (t.0, t.1 + 1, t.2),
            BatchStatus::Error(_) => (t.0, t.1, t.2 + 1),
            BatchStatus::Pending => t,
        }
    }
}

/// Whether some item is checked.
pub open spec fn any_checked(s: Seq<BatchItem>) -> bool {
    exists|i: int| 0 <= i < s.len() && #[trigger] s[i].selected
}

/// Bytes of the cached tensors of all items.
pub open spec fn tensor_total(s: Seq<BatchItem>) -> int
    decreases s.len(),
{
    if s.len() == 0 {
        0
    } else {
        tensor_total(s.drop_last()) + s.last().caches.bytes()
    }
}

/// Bytes still cached when an item is reached while tensors are evicted from the
/// front, the item of one id being spared.
pub open spec fn left_before(s: Seq<BatchItem>, spared: Option<u64>, total: int, i: int) -> int
    decreases i,
{
    if i <= 0 {
        total
    } else {
        let left = left_before(s, spared, total, i - 1);
        if left > TENSOR_BUDGET && spared != Some(s[i - 1].id) {
            left - s[i - 1].caches.bytes()
        } else {
            left
        }
    }
}

/// Whether an item loses its tensors to the budget.
pub open spec fn evicted(s: Seq<BatchItem>, spared: Option<u64>, i: int) -> bool {
    left_before(s, spared, tensor_total(s), i) > TENSOR_BUDGET && spared != Some(s[i].id)
}

proof fn tally_bound(s: Seq<BatchItem>)
    ensures
        tally(s).0 + tally(s).1 + tally(s).2 <= s.len(),
    decreases s.len(),
{
    if s.len() > 0 {
        tally_bound(s.drop_last());
    }
}

proof fn checked_ids_props(s: Seq<BatchItem>)
    ensures
        checked_ids(s).len() <= s.len(),
        checked_ids(s).len() > 0 <==> any_checked(s),
        checked_ids(s).len() == s.len() <==> (forall|i: int|
            0 <= i < s.len() ==> #[trigger] s[i].selected),
    decreases s.len(),
{
    if s.len() > 0 {
        let t = s.drop_last();
        checked_ids_props(t);
        assert forall|i: int| 0 <= i < t.len() implies #[trigger] t[i] == s[i] by {}
        if any_checked(t) {
            let i = choose|i: int| 0 <= i < t.len() && #[trigger] t[i].selected;
            assert(s[i].selected);
        }
        if any_checked(s) && !s.last().selected {
            let i = choose|i: int| 0 <= i < s.len() && #[trigger] s[i].selected;
            assert(t[i].selected);
        }
        if s.last().selected {
            assert(s[s.len() - 1].selected);
        }
        if forall|i: int| 0 <= i < s.len() ==> #[trigger] s[i].selected {
            assert forall|i: int| 0 <= i < t.len() implies #[trigger] t[i].selected by {
                assert(s[i].selected);
            }
        }
        if checked_ids(s).len() == s.len() {
            assert(s.last().selected);
            assert forall|i: int| 0 <= i < s.len() implies #[trigger] s[i].selected by {
                if i < t.len() {
                    assert(t[i].selected);
                }
            }
        }
    }
}

proof fn tensor_total_parts(s: Seq<BatchItem>, i: int)
    requires
        0 <= i <= s.len(),
    ensures
        0 <= tensor_total(s.take(i)) <= tensor_total(s),
        i < s.len() ==> tensor_total(s.take(i)) + s[i].caches.bytes() <= tensor_total(s),
        i < s.len() ==> s[i].caches.bytes() <= tensor_total(s),
    decreases s.len(),
{
    if i == s.len() {
        assert(s.take(i) =~= s);
        if s.len() > 0 {
            tensor_total_parts(s.drop_last(), s.len() - 1);
            assert(s.drop_last().take(s.len() - 1) =~= s.drop_last());
        }
    } else {
        let t = s.drop_last();
        if i < t.len() {
            tensor_total_parts(t, i);
            assert(t.take(i) =~= s.take(i));
        } else {
            tensor_total_parts(t, i);
            assert(t.take(i) =~= t);
            assert(s.take(i) =~= t);
        }
    }
}

/// While tensors are evicted, what is left is never less than what the items not
/// yet reached hold.
proof fn left_before_bound(s: Seq<BatchItem>, spared: Option<u64>, i: int)
    requires
        0 <= i <= s.len(),
    ensures
        left_before(s, spared, tensor_total(s), i) >= tensor_total(s) - tensor_total(s.take(i)),
        left_before(s, spared, tensor_total(s), i) <= tensor_total(s),
    decreases i,
{
    if i > 0 {
        left_before_bound(s, spared, i - 1);
        assert(s.take(i).drop_last() =~= s.take(i - 1));
        assert(s.take(i).last() == s[i - 1]);
        tensor_total_parts(s, i - 1);
    } else {
        assert(s.take(0) =~= Seq::empty());
        tensor_total_parts(s, 0);
    }
}

/// Bytes that the cached tensors take once those of some items are evicted.
pub open spec fn kept_total(s: Seq<BatchItem>, spared: Option<u64>, n: int) -> int
    decreases n,
{
    if n <= 0 {
        0
    } else {
        kept_total(s, spared, n - 1) + (if evicted(s, spared, n - 1) {
            0
        } else {
            s[n - 1].caches.bytes()
        })
    }
}

proof fn left_is_kept_plus_rest(s: Seq<BatchItem>, spared: Option<u64>, n: int)
    requires
        0 <= n <= s.len(),
    ensures
        left_before(s, spared, tensor_total(s), n) == kept_total(s, spared, n) + tensor_total(s)
            - tensor_total(s.take(n)),
    decreases n,
{
    if n > 0 {
        left_is_kept_plus_rest(s, spared, n - 1);
        assert(s.take(n).drop_last() =~= s.take(n - 1));
        assert(s.take(n).last() == s[n - 1]);
    } else {
        assert(s.take(0) =~= Seq::empty());
    }
}

/// The budget holds after eviction: either what is left is within it, or every
/// item but the spared one has lost its tensors. Nothing is evicted while the
/// total is within the budget, and the spared item never is.
pub proof fn eviction_meets_budget(s: Seq<BatchItem>, spared: Option<u64>)
    ensures
        kept_total(s, spared, s.len() as int) <= TENSOR_BUDGET || forall|i: int|
            0 <= i < s.len() && spared != Some(s[i].id) ==> evicted(s, spared, i),
        tensor_total(s) <= TENSOR_BUDGET ==> forall|i: int|
            0 <= i < s.len() ==> !evicted(s, spared, i),
        forall|i: int| 0 <= i < s.len() && spared == Some(s[i].id) ==> !evicted(s, spared, i),
{
    let n = s.len() as int;
    left_is_kept_plus_rest(s, spared, n);
    assert(s.take(n) =~= s);
    assert forall|i: int| 0 <= i <= n implies left_before(s, spared, tensor_total(s), i)
        <= tensor_total(s) by {
        left_before_bound(s, spared, i);
    }
    if kept_total(s, spared, n) > TENSOR_BUDGET {
        assert forall|i: int| 0 <= i < n && spared != Some(s[i].id) implies evicted(
            s,
            spared,
            i,
        ) by {
            left_only_falls(s, spared, i, n);
        }
    }
}

proof fn left_only_falls(s: Seq<BatchItem>, spared: Option<u64>, i: int, j: int)
    requires
        0 <= i <= j <= s.len(),
    ensures
        left_before(s, spared, tensor_total(s), j) <= left_before(s, spared, tensor_total(s), i),
    decreases j - i,
{
    if i < j {
        left_only_falls(s, spared, i, j - 1);
    }
}

impl BatchManager {
    /// Id of the viewed item.
    pub open spec fn viewed_id(&self) -> Option<u64> {
        if self.selected_index < self.items@.len() {
            Some(self.items@[self.selected_index as int].id)
        } else {
            None
        }
    }

    /// Position of the viewed item, or of the last one where the position is
    /// out of date.
    pub open spec fn viewed_index(&self) -> Option<usize> {
        if self.items@.len() == 0 {
            None
        } else if self.selected_index < self.items@.len() {
            Some(self.selected_index)
        } else {
            Some((self.items@.len() - 1) as usize)
        }
    }

    /// Whether an action applies to the item at a position: to the checked items
    /// where there are any, else to the viewed one.
    pub open spec fn is_target(&self, i: int) -> bool {
        if any_checked(self.items@) {
            self.items@[i].selected
        } else {
            self.viewed_index() matches Some(v) && v == i
        }
    }

    /// Ids of the items that an action applies to.
    pub open spec fn targets(&self) -> Seq<u64> {
        if any_checked(self.items@) {
            checked_ids(self.items@)
        } else {
            match self.viewed_index() {
                Some(v) => seq![self.items@[v as int].id],
                None => Seq::empty(),
            }
        }
    }

    /// Whether no two items have the same id, and the next id is new.
    pub open spec fn ids_unique(&self) -> bool {
        &&& forall|i: int, j: int|
            0 <= i < j < self.items@.len() ==> self.items@[i].id != self.items@[j].id
        &&& forall|i: int| 0 <= i < self.items@.len() ==> (#[trigger] self.items@[i]).id
            < self.next_id
    }

    /// A batch without items.
    pub fn new() -> (r: BatchManager)
        ensures
            r.items@.len() == 0,
            r.selected_index == 0,
            r.next_id == 0,
    {
        BatchManager { items: Vec::new(), selected_index: 0, next_id: 0 }
    }

    /// The viewed item.
    pub fn selected_item(&self) -> (r: Option<&BatchItem>)
        ensures
            match r {
                Some(x) => self.selected_index < self.items@.len() && *x
                    == self.items@[self.selected_index as int],
                None => self.selected_index >= self.items@.len(),
            },
    {
        if self.selected_index < self.items.len() {
            Some(&self.items[self.selected_index])
        } else {
            None
        }
    }

    /// Position of the first item with an id. `None` is common: a worker may
    /// report on an item that was removed.
    pub fn index_of(&self, id: u64) -> (r: Option<usize>)
        ensures
            match r {
                Some(i) => i < self.items@.len() && self.items@[i as int].id == id && forall|j: int|
                    0 <= j < i ==> (#[trigger] self.items@[j]).id != id,
                None => forall|j: int|
                    0 <= j < self.items@.len() ==> (#[trigger] self.items@[j]).id != id,
            },
    {
        let mut i: usize = 0;
        while i < self.items.len()
            invariant
                i <= self.items@.len(),
                forall|j: int| 0 <= j < i ==> (#[trigger] self.items@[j]).id != id,
            decreases self.items@.len() - i,
        {
            if self.items[i].id == id {
                return Some(i);
            }
            i += 1;
        }
        None
    }

    /// The first item with an id.
    pub fn find_by_id(&self, id: u64) -> (r: Option<&BatchItem>)
        ensures
            match r {
                Some(x) => exists|i: int|
                    0 <= i < self.items@.len() && *x == #[trigger] self.items@[i] && x.id == id
                        && forall|j: int| 0 <= j < i ==> (#[trigger] self.items@[j]).id != id,
                None => forall|j: int|
                    0 <= j < self.items@.len() ==> (#[trigger] self.items@[j]).id != id,
            },
    {
        match self.index_of(id) {
            Some(i) => Some(&self.items[i]),
            None => None,
        }
    }

    /// The first item with an id, to be changed.
    pub fn find_by_id_mut(&mut self, id: u64) -> (r: Option<&mut BatchItem>)
        ensures
            match r {
                Some(x) => exists|i: int|
                    {
                        &&& 0 <= i < old(self).items@.len()
                        &&& *x == #[trigger] old(self).items@[i]
                        &&& x.id == id
                        &&& forall|j: int|
                            0 <= j < i ==> (#[trigger] old(self).items@[j]).id != id
                        &&& final(self).items@ == old(self).items@.update(i, *final(x))
                        &&& final(self).selected_index == old(self).selected_index
                        &&& final(self).next_id == old(self).next_id
                    },
                None => *final(self) == *old(self) && forall|j: int|
                    0 <= j < old(self).items@.len() ==> (#[trigger] old(self).items@[j]).id != id,
            },
    {
        match self.index_of(id) {
            Some(i) => Some(&mut self.items[i]),
            None => None,
        }
    }

    /// State of the application: that of the viewed item. An item that waits or
    /// failed counts as loaded.
    pub fn app_state(&self) -> (r: AppState)
        ensures
            r == if self.selected_index >= self.items@.len() {
                AppState::Empty
            } else {
                match self.items@[self.selected_index as int].status {
                    BatchStatus::Done => AppState::Done,
                    BatchStatus::Processing => AppState::Processing,
                    _ => AppState::Loaded,
                }
            },
    {
        match self.selected_item() {
            None => AppState::Empty,
            Some(item) => match item.status {
                BatchStatus::Done => AppState::Done,
                BatchStatus::Processing => AppState::Processing,
                _ => AppState::Loaded,
            },
        }
    }

    /// Whether the viewed item has an id.
    pub fn is_selected(&self, id: u64) -> (r: bool)
        ensures
            r == (self.viewed_id() == Some(id)),
    {
        match self.selected_item() {
            Some(b) => b.id == id,
            None => false,
        }
    }

    /// Ids of the checked items in a state.
    pub fn selected_ids_with_status(&self, status: &BatchStatus) -> (r: Vec<u64>)
        ensures
            r@ == checked_ids_in(self.items@, *status),
    {
        let mut r: Vec<u64> = Vec::new();
        let mut i: usize = 0;
        while i < self.items.len()
            invariant
                i <= self.items@.len(),
                r@ == checked_ids_in(self.items@.take(i as int), *status),
            decreases self.items@.len() - i,
        {
            assert(self.items@.take(i as int + 1).drop_last() =~= self.items@.take(i as int));
            let item = &self.items[i];
            if item.selected && is_same_state(&item.status, status) {
                r.push(item.id);
            }
            i += 1;
        }
        assert(self.items@.take(self.items@.len() as int) =~= self.items@);
        r
    }

    /// Position of the viewed item, or of the last one where the position is
    /// out of date.
    pub fn selected_idx_clamped(&self) -> (r: Option<usize>)
        ensures
            r == self.viewed_index(),
    {
        let n: usize = self.items.len();
        if n == 0 {
            None
        } else if self.selected_index < n {
            Some(self.selected_index)
        } else {
            Some(n - 1)
        }
    }

    /// Views another item. Says whether that changed anything.
    pub fn select_item(&mut self, idx: usize) -> (changed: bool)
        requires
            idx < old(self).items@.len(),
        ensures
            changed == (old(self).selected_index != idx),
            final(self).selected_index == idx,
            final(self).items == old(self).items,
            final(self).next_id == old(self).next_id,
    {
        if self.selected_index == idx {
            return false;
        }
        self.selected_index = idx;
        true
    }

    /// Moves an item before the position `to`, or to the end. The viewed item
    /// stays viewed.
    pub fn reorder(&mut self, from: usize, to: usize)
        requires
            from < old(self).items@.len() ==> to <= old(self).items@.len(),
        ensures
            final(self).next_id == old(self).next_id,
            from == to || from >= old(self).items@.len() ==> *final(self) == *old(self),
            from != to && from < old(self).items@.len() ==> {
                let dst = if from < to {
                    to - 1
                } else {
                    to as int
                };
                final(self).items@ == old(self).items@.remove(from as int).insert(
                    dst,
                    old(self).items@[from as int],
                )
            },
            final(self).items@.to_multiset() == old(self).items@.to_multiset(),
            old(self).selected_index < old(self).items@.len() ==> final(self).selected_index
                < final(self).items@.len() && final(self).items@[final(self).selected_index as int]
                == old(self).items@[old(self).selected_index as int],
            old(self).selected_index >= old(self).items@.len() ==> final(self).selected_index
                == old(self).selected_index,
    {
        if from == to || from >= self.items.len() {
            return;
        }
        let ghost before = self.items@;
        let item = self.items.remove(from);
        let dst: usize = if from < to {
            to - 1
        } else {
            to
        };
        self.items.insert(dst, item);
        proof {
            let mid = before.remove(from as int);
            before.to_multiset_ensures();
            mid.to_multiset_ensures();
            vstd::seq_lib::to_multiset_insert(mid, dst as int, item);
            assert(before.to_multiset().count(item) > 0) by {
                assert(before.contains(item));
            }
            assert(mid.to_multiset() =~= before.to_multiset().remove(item));
            assert(self.items@.to_multiset() =~= before.to_multiset());
        }
        if self.selected_index == from {
            self.selected_index = dst;
        } else if from < self.selected_index && self.selected_index < to {
            self.selected_index = self.selected_index - 1;
        } else if to <= self.selected_index && self.selected_index < from {
            self.selected_index = self.selected_index + 1;
        }
    }

    /// What the process button offers. One checked item alone is offered as the
    /// selection, not as all.
    pub fn process_button_label(&self) -> (r: ProcessButtonLabel)
        ensures
            r == ({
                let n = checked_ids(self.items@).len();
                if n == 0 {
                    ProcessButtonLabel::ProcessViewed
                } else if n == self.items@.len() && n >= 2 {
                    ProcessButtonLabel::ProcessAll(n as usize)
                } else {
                    ProcessButtonLabel::ProcessSelected(n as usize)
                }
            }),
    {
        let total: usize = self.items.len();
        let n: usize = self.selected_count();
        if n == 0 {
            ProcessButtonLabel::ProcessViewed
        } else if n == total && total >= 2 {
            ProcessButtonLabel::ProcessAll(total)
        } else {
            ProcessButtonLabel::ProcessSelected(n)
        }
    }

    /// Ids of the items that an action applies to: the checked ones where there
    /// are any, else the viewed one.
    pub fn items_to_process(&self) -> (r: Vec<u64>)
        ensures
            r@ == self.targets(),
    {
        proof {
            checked_ids_props(self.items@);
        }
        let checked = self.checked();
        if checked.len() > 0 {
            return checked;
        }
        let mut r: Vec<u64> = Vec::new();
        if let Some(v) = self.selected_idx_clamped() {
            r.push(self.items[v].id);
            assert(r@ =~= seq![self.items@[v as int].id]);
        }
        r
    }

    /// Ids of the checked items.
    pub fn checked(&self) -> (r: Vec<u64>)
        ensures
            r@ == checked_ids(self.items@),
    {
        let mut r: Vec<u64> = Vec::new();
        let mut i: usize = 0;
        while i < self.items.len()
            invariant
                i <= self.items@.len(),
                r@ == checked_ids(self.items@.take(i as int)),
            decreases self.items@.len() - i,
        {
            assert(self.items@.take(i as int + 1).drop_last() =~= self.items@.take(i as int));
            if self.items[i].selected {
                r.push(self.items[i].id);
            }
            i += 1;
        }
        assert(self.items@.take(self.items@.len() as int) =~= self.items@);
        r
    }

    /// Whether some item that an action applies to satisfies a condition.
    pub fn any_target_can<F: Fn(&BatchItem) -> bool>(&self, f: F) -> (r: bool)
        requires
            forall|i: int|
                0 <= i < self.items@.len() ==> call_requires(f, (&#[trigger] self.items@[i],)),
        ensures
            r ==> exists|i: int|
                0 <= i < self.items@.len() && self.is_target(i) && call_ensures(
                    f,
                    (&#[trigger] self.items@[i],),
                    true,
                ),
            !r ==> forall|i: int|
                0 <= i < self.items@.len() && self.is_target(i) ==> call_ensures(
                    f,
                    (&#[trigger] self.items@[i],),
                    false,
                ),
    {
        let checked = self.has_any_selected();
        let viewed = self.selected_idx_clamped();
        let mut i: usize = 0;
        while i < self.items.len()
            invariant
                i <= self.items@.len(),
                checked == any_checked(self.items@),
                viewed == self.viewed_index(),
                forall|j: int|
                    0 <= j < self.items@.len() ==> call_requires(f, (&#[trigger] self.items@[j],)),
                forall|j: int|
                    0 <= j < i && self.is_target(j) ==> call_ensures(
                        f,
                        (&#[trigger] self.items@[j],),
                        false,
                    ),
            decreases self.items@.len() - i,
        {
            let target = if checked {
                self.items[i].selected
            } else {
                match viewed {
                    Some(v) => v == i,
                    None => false,
                }
            };
            assert(target == self.is_target(i as int));
            if target && f(&self.items[i]) {
                return true;
            }
            i += 1;
        }
        false
    }

    /// The first item that an action applies to.
    pub fn first_target_item(&self) -> (r: Option<&BatchItem>)
        ensures
            match r {
                Some(x) => exists|i: int|
                    0 <= i < self.items@.len() && self.is_target(i) && *x
                        == #[trigger] self.items@[i] && forall|j: int|
                        0 <= j < i ==> !self.is_target(j),
                None => forall|j: int| 0 <= j < self.items@.len() ==> !self.is_target(j),
            },
    {
        let checked = self.has_any_selected();
        if !checked {
            return match self.selected_idx_clamped() {
                Some(v) => {
                    assert(self.is_target(v as int));
                    Some(&self.items[v])
                },
                None => None,
            };
        }
        let mut i: usize = 0;
        while i < self.items.len()
            invariant
                i <= self.items@.len(),
                any_checked(self.items@),
                forall|j: int| 0 <= j < i ==> !self.is_target(j),
            decreases self.items@.len() - i,
        {
            if self.items[i].selected {
                assert(self.is_target(i as int));
                return Some(&self.items[i]);
            }
            i += 1;
        }
        None
    }

    /// Removes an item. Says whether there was one, and which files of its
    /// history are no longer needed. The viewed position stays as it is.
    pub fn remove(&mut self, idx: usize) -> (r: Removed)
        ensures
            r.removed == (idx < old(self).items@.len()),
            final(self).selected_index == old(self).selected_index,
            final(self).next_id == old(self).next_id,
            !r.removed ==> *final(self) == *old(self) && r.delete@.len() == 0,
            r.removed ==> final(self).items@ == old(self).items@.remove(idx as int) && r.delete@
                == files(old(self).items@[idx as int].history@) + files(
                old(self).items@[idx as int].redo_stack@,
            ),
    {
        if idx >= self.items.len() {
            return Removed { removed: false, delete: Vec::new() };
        }
        let item = self.items.remove(idx);
        let mut history = item.history;
        let mut redo = item.redo_stack;
        let mut delete = crate::history_manager::drop_entries(&mut history);
        let mut rest = crate::history_manager::drop_entries(&mut redo);
        delete.append(&mut rest);
        Removed { removed: true, delete }
    }

    /// Puts every item that is being processed back to waiting.
    pub fn reset_processing_to_pending(&mut self)
        ensures
            final(self).selected_index == old(self).selected_index,
            final(self).next_id == old(self).next_id,
            final(self).items@.len() == old(self).items@.len(),
            forall|i: int|
                0 <= i < old(self).items@.len() ==> #[trigger] final(self).items@[i]
                    == if old(self).items@[i].status is Processing {
                    BatchItem { status: BatchStatus::Pending, ..old(self).items@[i] }
                } else {
                    old(self).items@[i]
                },
    {
        let mut i: usize = 0;
        while i < self.items.len()
            invariant
                i <= self.items@.len(),
                self.selected_index == old(self).selected_index,
                self.next_id == old(self).next_id,
                self.items@.len() == old(self).items@.len(),
                forall|j: int| i <= j < self.items@.len() ==> self.items@[j] == old(self).items@[j],
                forall|j: int|
                    0 <= j < i ==> #[trigger] self.items@[j] == if old(self).items@[j].status is Processing {
                        BatchItem { status: BatchStatus::Pending, ..old(self).items@[j] }
                    } else {
                        old(self).items@[j]
                    },
            decreases self.items@.len() - i,
        {
            let busy = match self.items[i].status {
                BatchStatus::Processing => true,
                _ => false,
            };
            if busy {
                self.items[i].status = BatchStatus::Pending;
            }
            i += 1;
        }
    }

    /// Number of checked items.
    pub fn selected_count(&self) -> (r: usize)
        ensures
            r == checked_ids(self.items@).len(),
    {
        self.checked().len()
    }

    /// Whether some item is checked.
    pub fn has_any_selected(&self) -> (r: bool)
        ensures
            r == any_checked(self.items@),
    {
        let mut i: usize = 0;
        while i < self.items.len()
            invariant
                i <= self.items@.len(),
                forall|j: int| 0 <= j < i ==> !(#[trigger] self.items@[j].selected),
            decreases self.items@.len() - i,
        {
            if self.items[i].selected {
                return true;
            }
            i += 1;
        }
        false
    }

    /// Whether all items are checked and there is one.
    pub fn all_selected(&self) -> (r: bool)
        ensures
            r == (self.items@.len() > 0 && forall|i: int|
                0 <= i < self.items@.len() ==> #[trigger] self.items@[i].selected),
    {
        proof {
            checked_ids_props(self.items@);
        }
        self.items.len() > 0 && self.selected_count() == self.items.len()
    }

    /// Number of items in each state.
    pub fn status_counts(&self) -> (r: StatusCounts)
        ensures
            r.done == tally(self.items@).0,
            r.processing == tally(self.items@).1,
            r.errored == tally(self.items@).2,
            r.done + r.processing + r.errored <= self.items@.len() <= usize::MAX,
    {
        let mut c = StatusCounts { done: 0, processing: 0, errored: 0 };
        let mut i: usize = 0;
        while i < self.items.len()
            invariant
                i <= self.items@.len(),
                c.done == tally(self.items@.take(i as int)).0,
                c.processing == tally(self.items@.take(i as int)).1,
                c.errored == tally(self.items@.take(i as int)).2,
                c.done + c.processing + c.errored <= i,
            decreases self.items@.len() - i,
        {
            assert(self.items@.take(i as int + 1).drop_last() =~= self.items@.take(i as int));
            match self.items[i].status {
                BatchStatus::Done => {
                    c.done = c.done + 1;
                },
                BatchStatus::Processing => {
                    c.processing = c.processing + 1;
                },
                BatchStatus::Error(_) => {
                    c.errored = c.errored + 1;
                },
                BatchStatus::Pending => {},
            }
            i += 1;
        }
        assert(self.items@.take(self.items@.len() as int) =~= self.items@);
        c
    }

    /// Progress of the batch.
    pub fn progress(&self) -> (r: StatusReport)
        ensures
            ({
                let t = tally(self.items@);
                let total = t.0 + t.1 + t.2;
                &&& r.done == t.0
                &&& r.of == if total < 1 {
                    1
                } else {
                    total
                }
                &&& r.stage@ == if t.1 > 0 {
                    "Processing "@ + decimal(t.0) + "/"@ + decimal(total)
                } else {
                    "Finishing up"@
                }
            }),
    {
        let counts = self.status_counts();
        let total: usize = counts.batch_total();
        let stage = if counts.processing > 0 {
            let d = to_decimal(counts.done as u64);
            let t = to_decimal(total as u64);
            join3("Processing ", d.as_str(), "/").concat(t.as_str())
        } else {
            "Finishing up".to_owned()
        };
        let of: usize = if total < 1 {
            1
        } else {
            total
        };
        StatusReport { stage, done: counts.done, of }
    }

    /// Message of the first item that failed.
    pub fn first_error_message(&self) -> (r: Option<&str>)
        ensures
            match r {
                Some(m) => exists|i: int|
                    {
                        &&& 0 <= i < self.items@.len()
                        &&& (#[trigger] self.items@[i]).status matches BatchStatus::Error(e) && e@
                            == m@
                        &&& forall|j: int|
                            0 <= j < i ==> !((#[trigger] self.items@[j]).status is Error)
                    },
                None => forall|j: int|
                    0 <= j < self.items@.len() ==> !((#[trigger] self.items@[j]).status is Error),
            },
    {
        let mut i: usize = 0;
        while i < self.items.len()
            invariant
                i <= self.items@.len(),
                forall|j: int| 0 <= j < i ==> !((#[trigger] self.items@[j]).status is Error),
            decreases self.items@.len() - i,
        {
            if let BatchStatus::Error(m) = &self.items[i].status {
                return Some(m.as_str());
            }
            i += 1;
        }
        None
    }

    /// Drops cached tensors, from the first item on, until the rest is within
    /// the budget. An item loses all of them or none, and the viewed item none.
    pub fn enforce_tensor_budget(&mut self)
        requires
            tensor_total(old(self).items@) <= usize::MAX,
        ensures
            final(self).selected_index == old(self).selected_index,
            final(self).next_id == old(self).next_id,
            final(self).items@.len() == old(self).items@.len(),
            forall|i: int|
                0 <= i < old(self).items@.len() ==> #[trigger] final(self).items@[i] == if evicted(
                    old(self).items@,
                    old(self).viewed_id(),
                    i,
                ) {
                    old(self).items@[i].after_impact(CacheImpact::Both)
                } else {
                    old(self).items@[i]
                },
    {
        let ghost s = self.items@;
        let ghost spared = self.viewed_id();
        let total: usize = self.cache_total();
        let selected_id: Option<u64> = match self.selected_item() {
            Some(b) => Some(b.id),
            None => None,
        };
        let mut remaining: usize = total;
        let mut i: usize = 0;
        while i < self.items.len()
            invariant
                i <= self.items@.len(),
                s == old(self).items@,
                spared == old(self).viewed_id(),
                selected_id == spared,
                tensor_total(s) <= usize::MAX,
                self.selected_index == old(self).selected_index,
                self.next_id == old(self).next_id,
                self.items@.len() == s.len(),
                remaining == left_before(s, spared, tensor_total(s), i as int),
                forall|j: int| i <= j < s.len() ==> self.items@[j] == s[j],
                forall|j: int|
                    0 <= j < i ==> #[trigger] self.items@[j] == if evicted(s, spared, j) {
                        s[j].after_impact(CacheImpact::Both)
                    } else {
                        s[j]
                    },
            decreases self.items@.len() - i,
        {
            let spare = match selected_id {
                Some(id) => id == self.items[i].id,
                None => false,
            };
            if remaining > TENSOR_BUDGET && !spare {
                proof {
                    tensor_total_parts(s, i as int);
                    left_before_bound(s, spared, i as int);
                }
                let size: usize = self.items[i].cache_size();
                remaining = remaining - size;
                self.items[i].apply_cache_impact(CacheImpact::Both);
            }
            i += 1;
        }
    }

    /// Bytes of the cached tensors of all items.
    fn cache_total(&self) -> (r: usize)
        requires
            tensor_total(self.items@) <= usize::MAX,
        ensures
            r == tensor_total(self.items@),
    {
        let ghost s = self.items@;
        let mut total: usize = 0;
        let mut i: usize = 0;
        assert(s.take(0) =~= Seq::empty());
        while i < self.items.len()
            invariant
                i <= self.items@.len(),
                s == self.items@,
                tensor_total(s) <= usize::MAX,
                total == tensor_total(s.take(i as int)),
            decreases self.items@.len() - i,
        {
            proof {
                tensor_total_parts(s, i as int);
                assert(s.take(i as int + 1).drop_last() =~= s.take(i as int));
            }
            total = total + self.items[i].cache_size();
            i += 1;
        }
        assert(s.take(s.len() as int) =~= s);
        total
    }

    /// Drops the cached tensors of every item but the viewed one.
    pub fn evict_all_tensors(&mut self)
        ensures
            final(self).selected_index == old(self).selected_index,
            final(self).next_id == old(self).next_id,
            final(self).items@.len() == old(self).items@.len(),
            forall|i: int|
                0 <= i < old(self).items@.len() ==> #[trigger] final(self).items@[i] == if old(self).viewed_id() != Some(old(self).items@[i].id) {
                    old(self).items@[i].after_impact(CacheImpact::Both)
                } else {
                    old(self).items@[i]
                },
    {
        let ghost s = self.items@;
        let ghost spared = self.viewed_id();
        let selected_id: Option<u64> = match self.selected_item() {
            Some(b) => Some(b.id),
            None => None,
        };
        let mut i: usize = 0;
        while i < self.items.len()
            invariant
                i <= self.items@.len(),
                s == old(self).items@,
                spared == old(self).viewed_id(),
                selected_id == spared,
                self.selected_index == old(self).selected_index,
                self.next_id == old(self).next_id,
                self.items@.len() == s.len(),
                forall|j: int| i <= j < s.len() ==> self.items@[j] == s[j],
                forall|j: int|
                    0 <= j < i ==> #[trigger] self.items@[j] == if spared != Some(s[j].id) {
                        s[j].after_impact(CacheImpact::Both)
                    } else {
                        s[j]
                    },
            decreases self.items@.len() - i,
        {
            let spare = match selected_id {
                Some(id) => id == self.items[i].id,
                None => false,
            };
            if !spare {
                self.items[i].apply_cache_impact(CacheImpact::Both);
            }
            i += 1;
        }
    }
}

/// The process button says how many items it applies to: one when it offers the
/// viewed item and there is one, else the number it shows.
pub proof fn button_counts_targets(b: BatchManager)
    ensures
        checked_ids(b.items@).len() == 0 && b.items@.len() > 0 ==> b.targets().len() == 1,
        checked_ids(b.items@).len() > 0 ==> b.targets().len() == checked_ids(b.items@).len(),
        b.items@.len() == 0 ==> b.targets().len() == 0,
{
    checked_ids_props(b.items@);
}

proof fn checked_ids_hold(s: Seq<BatchItem>, id: u64)
    ensures
        checked_ids(s).contains(id) <==> exists|i: int|
            0 <= i < s.len() && (#[trigger] s[i]).selected && s[i].id == id,
    decreases s.len(),
{
    if s.len() > 0 {
        let before = s.drop_last();
        let a = checked_ids(before);
        let all = checked_ids(s);
        checked_ids_hold(before, id);
        assert(s.last() == s[s.len() - 1]);
        if a.contains(id) {
            let k = a.index_of(id);
            assert(all[k] == id);
            let i = choose|i: int|
                0 <= i < before.len() && (#[trigger] before[i]).selected && before[i].id == id;
            assert(s[i] == before[i]);
        }
        if s.last().selected && s.last().id == id {
            assert(all[a.len() as int] == id);
            assert(s[s.len() - 1].selected);
        }
        if all.contains(id) {
            let k = all.index_of(id);
            if k < a.len() {
                assert(a[k] == id);
            } else {
                assert(s[s.len() - 1].selected && s[s.len() - 1].id == id);
            }
        }
        if exists|i: int| 0 <= i < s.len() && (#[trigger] s[i]).selected && s[i].id == id {
            let i = choose|i: int| 0 <= i < s.len() && (#[trigger] s[i]).selected && s[i].id == id;
            if i < before.len() {
                assert(before[i] == s[i]);
            }
        }
    }
}

/// An action applies to what the user means: to every checked item and no other, or,
/// where none is checked, to the viewed one.
pub proof fn actions_apply_to_what_is_meant(b: BatchManager, i: int)
    requires
        b.ids_unique(),
        0 <= i < b.items@.len(),
    ensures
        b.targets().contains(b.items@[i].id) <==> b.is_target(i),
        b.items@[i].selected ==> b.is_target(i),
        b.is_target(i) && !b.items@[i].selected ==> forall|j: int|
            0 <= j < b.items@.len() ==> !(#[trigger] b.items@[j]).selected,
        (forall|j: int| 0 <= j < b.items@.len() ==> !(#[trigger] b.items@[j]).selected)
            && b.selected_index == i ==> b.is_target(i),
{
    let s = b.items@;
    checked_ids_hold(s, s[i].id);
    checked_ids_props(s);
    if any_checked(s) {
        if checked_ids(s).contains(s[i].id) {
            let j = choose|j: int| 0 <= j < s.len() && (#[trigger] s[j]).selected && s[j].id
                == s[i].id;
            assert(j == i);
        }
    } else {
        let v = b.viewed_index()->0 as int;
        assert(seq![s[v].id].contains(s[i].id) <==> s[v].id == s[i].id) by {
            assert(seq![s[v].id][0] == s[v].id);
        }
    }
}

/// Every item counts in the state that it is in, once.
pub proof fn items_count_in_their_state(s: Seq<BatchItem>, x: BatchItem)
    ensures
        tally(s.push(x)).0 == tally(s).0 + if x.status is Done {
            1nat
        } else {
            0
        },
        tally(s.push(x)).1 == tally(s).1 + if x.status is Processing {
            1nat
        } else {
            0
        },
        tally(s.push(x)).2 == tally(s).2 + if x.status is Error {
            1nat
        } else {
            0
        },
{
    assert(s.push(x).drop_last() =~= s);
}

/// Tensors are given up from the front: an item keeps its own only once enough was given
/// up before it.
pub proof fn tensors_are_given_up_from_the_front(
    s: Seq<BatchItem>,
    spared: Option<u64>,
    i: int,
    j: int,
)
    requires
        0 <= i < j < s.len(),
        evicted(s, spared, j),
        spared != Some(s[i].id),
    ensures
        evicted(s, spared, i),
        TENSOR_BUDGET == 512 * 1024 * 1024,
{
    left_only_falls(s, spared, i, j);
}

/// The viewed item is where the position says, or the last one where the position is out
/// of date; a batch with items always has one.
pub proof fn some_item_is_viewed(b: BatchManager)
    ensures
        b.items@.len() > 0 ==> (b.viewed_index() matches Some(v) && v < b.items@.len() && (
        b.selected_index < b.items@.len() ==> v == b.selected_index) && (b.selected_index
            >= b.items@.len() ==> v + 1 == b.items@.len())),
        b.items@.len() == 0 ==> b.viewed_index() is None && b.viewed_id() is None,
        b.viewed_id() matches Some(id) ==> b.selected_index < b.items@.len()
            && b.items@[b.selected_index as int].id == id,
{
}

/// States are the same where they say the same: a failure only equals one with the same
/// text.
pub proof fn states_tell_failures_apart(a: BatchStatus, b: BatchStatus)
    ensures
        same_state(a, a),
        same_state(a, b) == same_state(b, a),
        same_state(a, b) ==> (a is Pending <==> b is Pending) && (a is Processing <==> b
            is Processing) && (a is Done <==> b is Done),
        a is Pending && b is Pending || a is Processing && b is Processing || a is Done && b is Done
            ==> same_state(a, b),
        a matches BatchStatus::Error(x) ==> (b matches BatchStatus::Error(y) ==> (same_state(a, b)
            <==> x@ == y@)),
{
}

} // verus!
