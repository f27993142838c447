//! Identifier allocation for nodes and edges: an explicit counter owned by
//! the dataset builder and passed by reference, not ambient global state.

use vstd::prelude::*;

verus! {

/// A monotonically increasing identifier source. The first identifier
/// handed out is 0, and `count` says how many have been handed out.
pub struct IdGenerator {
    id: i32,
    count: i32,
}

impl IdGenerator {
    /// The last identifier handed out (-1 before the first).
    pub closed spec fn id_spec(&self) -> int {
        self.id as int
    }

    /// How many identifiers have been handed out.
    pub closed spec fn count_spec(&self) -> int {
        self.count as int
    }

    /// The counter is consistent: the last identifier trails the count by
    /// exactly one.
    pub closed spec fn wf(&self) -> bool {
        self.id as int == self.count as int - 1 && self.count >= 0
    }

    /// A fresh generator: nothing handed out yet.
    pub fn new() -> (r: Self)
        ensures
            r.wf(),
            r.id_spec() == -1,
            r.count_spec() == 0,
    {
        Self { id: -1, count: 0 }
    }

    /// The identifier the next `get` will hand out, without advancing.
    pub fn new_id(&mut self) -> (r: i32)
        requires
            old(self).id_spec() < i32::MAX,
        ensures
            r as int == old(self).id_spec() + 1,
            *final(self) == *old(self),
    {
        self.id + 1
    }

    /// Hand out the next identifier and advance the counter.
    pub fn get(&mut self) -> (r: i32)
        requires
            old(self).wf(),
            old(self).count_spec() < i32::MAX,
        ensures
            final(self).wf(),
            r as int == old(self).id_spec() + 1,
            final(self).id_spec() == old(self).id_spec() + 1,
            final(self).count_spec() == old(self).count_spec() + 1,
    {
        let new_id = self.new_id();
        self.count = self.count + 1;
        self.id = new_id;
        new_id
    }

    /// How many identifiers have been handed out.
    pub fn count(&self) -> (r: i32)
        ensures
            r as int == self.count_spec(),
    {
        self.count
    }
}

} // verus!
