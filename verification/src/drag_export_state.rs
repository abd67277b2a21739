//! State of dragging pictures out of the window.
use vstd::prelude::*;
use std::collections::HashSet;
use crate::tables::set_of;

verus! {

broadcast use vstd::std_specs::hash::group_hash_axioms;

/// State of dragging pictures out of the window.
pub struct DragExportState {
    /// Items whose drag has just left the window.
    pub pending: Option<Vec<u64>>,
    /// Whether a drag is under way.
    pub active: bool,
    /// Items that are being dragged.
    pub items: HashSet<u64>,
    /// Whether the user was told that the system does not support it.
    pub linux_notified: bool,
}

impl DragExportState {
    /// No drag.
    pub fn new() -> (r: DragExportState)
        ensures
            r.pending is None,
            !r.active,
            r.items@ == Set::<u64>::empty(),
            !r.linux_notified,
    {
        DragExportState {
            pending: None,
            active: false,
            items: HashSet::new(),
            linux_notified: false,
        }
    }

    /// A drag of the given items begins.
    pub fn begin(&mut self, ids: &Vec<u64>)
        ensures
            final(self).active,
            final(self).pending == old(self).pending,
            final(self).linux_notified == old(self).linux_notified,
            forall|id: u64| final(self).items@.contains(id) <==> ids@.contains(id),
    {
        self.active = true;
        self.items = set_of(ids);
    }

    /// A drag is over, or could not be started.
    pub fn reset(&mut self)
        ensures
            !final(self).active,
            final(self).items@ == Set::<u64>::empty(),
            final(self).pending == old(self).pending,
            final(self).linux_notified == old(self).linux_notified,
    {
        self.active = false;
        self.items.clear();
    }
}

} // verus!
