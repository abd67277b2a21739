//! Slots that bound how many pictures are decoded at once.
use vstd::prelude::*;

verus! {

/// A number of slots, some of which are taken.
pub struct DecodeSlots {
    capacity: usize,
    free: usize,
}

/// What happens to slots.
#[derive(Clone, Copy, Debug, PartialEq, Eq, Structural)]
pub enum SlotEvent {
    /// A slot was taken.
    Taken,
    /// A slot was asked for and none was free: the asker waits.
    Refused,
    /// A slot was given back.
    GivenBack,
}

/// A slot that was taken. It is given back to the slots it came from.
pub struct DecodeSlotGuard {
    _held: (),
}

impl DecodeSlots {
    /// Number of slots in all.
    pub closed spec fn capacity(&self) -> int {
        self.capacity as int
    }

    /// Number of slots that are free.
    pub closed spec fn free(&self) -> int {
        self.free as int
    }

    /// There is at least one slot, and no more are free than there are.
    pub open spec fn wf(&self) -> bool {
        &&& self.capacity() >= 1
        &&& 0 <= self.free() <= self.capacity()
    }

    /// Whether an event leads from these slots to others.
    pub open spec fn follows(&self, after: DecodeSlots, event: SlotEvent) -> bool {
        &&& after.capacity() == self.capacity()
        &&& match event {
            SlotEvent::Taken => self.free() > 0 && after.free() == self.free() - 1,
            SlotEvent::Refused => self.free() == 0 && after.free() == 0,
            SlotEvent::GivenBack => after.free() == self.free() + 1,
        }
    }

    /// The given number of slots, all free; at least one.
    pub fn new(slots: usize) -> (r: DecodeSlots)
        ensures
            r.wf(),
            r.capacity() == if slots < 1 {
                1
            } else {
                slots as int
            },
            r.free() == r.capacity(),
    {
        let n: usize = if slots < 1 {
            1
        } else {
            slots
        };
        DecodeSlots { capacity: n, free: n }
    }

    /// Takes a slot. `None` when all are taken: the caller waits until one is
    /// given back.
    pub fn acquire(&mut self) -> (r: Option<DecodeSlotGuard>)
        requires
            old(self).wf(),
        ensures
            final(self).wf(),
            final(self).capacity() == old(self).capacity(),
            old(self).follows(
                *final(self),
                if r is Some {
                    SlotEvent::Taken
                } else {
                    SlotEvent::Refused
                },
            ),
            r is Some <==> old(self).free() > 0,
            final(self).free() == old(self).free() - (if r is Some {
                1int
            } else {
                0int
            }),
    {
        if self.free == 0 {
            None
        } else {
            self.free = self.free - 1;
            Some(DecodeSlotGuard { _held: () })
        }
    }

    /// Gives a slot back.
    pub fn release(&mut self, guard: DecodeSlotGuard)
        requires
            old(self).wf(),
            old(self).free() < old(self).capacity(),
        ensures
            final(self).wf(),
            final(self).capacity() == old(self).capacity(),
            old(self).follows(*final(self), SlotEvent::GivenBack),
            final(self).free() == old(self).free() + 1,
    {
        self.free = self.free + 1;
    }
}

/// Number of slots that are held after the first `n` events: those taken and not given
/// back.
pub open spec fn held(events: Seq<SlotEvent>, n: int) -> int
    decreases n,
{
    if n <= 0 {
        0
    } else {
        held(events, n - 1) + match events[n - 1] {
            SlotEvent::Taken => 1int,
            SlotEvent::Refused => 0int,
            SlotEvent::GivenBack => -1int,
        }
    }
}

/// Whether `states` are those of slots that start all free, before the first event and
/// after each. Only a slot that is held is given back.
pub open spec fn slots_run(states: Seq<DecodeSlots>, events: Seq<SlotEvent>) -> bool {
    &&& states.len() == events.len() + 1
    &&& states[0].wf()
    &&& states[0].free() == states[0].capacity()
    &&& forall|i: int|
        0 <= i < events.len() ==> (#[trigger] states[i]).follows(states[i + 1], events[i])
    &&& forall|i: int|
        0 <= i < events.len() && #[trigger] events[i] == SlotEvent::GivenBack ==> held(events, i)
            > 0
}

/// However slots are taken and given back, at no time are more held than there are. One
/// is refused exactly while all are held, and giving one back makes it free for the
/// next.
pub proof fn slots_bound_what_is_held(states: Seq<DecodeSlots>, events: Seq<SlotEvent>, n: int)
    requires
        slots_run(states, events),
        0 <= n <= events.len(),
    ensures
        states[n].wf(),
        states[n].capacity() == states[0].capacity(),
        held(events, n) == states[n].capacity() - states[n].free(),
        0 <= held(events, n) <= states[0].capacity(),
        n < events.len() && events[n] == SlotEvent::Refused ==> held(events, n)
            == states[0].capacity(),
        n < events.len() && events[n] == SlotEvent::Taken ==> held(events, n)
            < states[0].capacity(),
        n > 0 && events[n - 1] == SlotEvent::GivenBack ==> states[n].free() > 0,
    decreases n,
{
    if n > 0 {
        slots_bound_what_is_held(states, events, n - 1);
        assert(states[n - 1].follows(states[n - 1 + 1], events[n - 1]));
    }
    if n < events.len() {
        assert(states[n].follows(states[n + 1], events[n]));
    }
}

} // verus!
