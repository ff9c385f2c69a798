use vstd::prelude::*;
use crate::map::SPAWN_COUNT;

verus! {

/// Rotation through a fixed list of spawn points that avoids handing out the
/// same point twice in a row whenever there is more than one.
#[derive(Debug, Clone, Copy, PartialEq, Eq, Structural)]
pub struct SpawnRotation {
    pub next_index: usize,
    pub last_used_index: Option<usize>,
    pub spawn_count: usize,
}

impl SpawnRotation {
    pub open spec fn wf(&self) -> bool {
        &&& self.spawn_count >= 1
        &&& self.next_index < self.spawn_count
        &&& match self.last_used_index {
            Some(i) => i < self.spawn_count,
            None => true,
        }
    }

    /// The index that the next allocation returns: the current candidate, or
    /// the one after it when the candidate was the last one handed out.
    pub open spec fn next_pick(&self) -> usize {
        if self.spawn_count > 1 && self.last_used_index == Some(self.next_index) {
            ((self.next_index + 1) % (self.spawn_count as int)) as usize
        } else {
            self.next_index
        }
    }

    /// The state after one allocation.
    pub open spec fn advanced(&self) -> SpawnRotation {
        SpawnRotation {
            next_index: ((self.next_pick() + 1) % (self.spawn_count as int)) as usize,
            last_used_index: Some(self.next_pick()),
            spawn_count: self.spawn_count,
        }
    }

    /// A fresh rotation over `spawn_count` points, starting at the first.
    pub fn new(spawn_count: usize) -> (r: SpawnRotation)
        requires
            spawn_count >= 1,
        ensures
            r.wf(),
            r == (SpawnRotation { next_index: 0, last_used_index: None, spawn_count }),
    {
        SpawnRotation { next_index: 0, last_used_index: None, spawn_count }
    }

    /// Returns the index of the next spawn point and advances the rotation.
    pub fn get_next_spawn(&mut self) -> (r: usize)
        requires
            old(self).wf(),
        ensures
            r == old(self).next_pick(),
            r < old(self).spawn_count,
            *final(self) == old(self).advanced(),
            final(self).wf(),
    {
        let total = self.spawn_count;
        if total > 1 && self.last_used_index == Some(self.next_index) {
            self.next_index = (self.next_index + 1) % total;
        }
        let spawn_index = self.next_index;
        self.last_used_index = Some(spawn_index);
        self.next_index = (self.next_index + 1) % total;
        spawn_index
    }
}

impl Default for SpawnRotation {
    /// A rotation over the built-in spawn points.
    fn default() -> (r: SpawnRotation)
        ensures
            r.wf(),
            r == (SpawnRotation { next_index: 0, last_used_index: None, spawn_count: SPAWN_COUNT }),
    {
        SpawnRotation { next_index: 0, last_used_index: None, spawn_count: SPAWN_COUNT }
    }
}

/// With more than one spawn point, two allocations in a row never return the
/// same index.
pub proof fn lemma_no_immediate_repeat(s: SpawnRotation)
    requires
        s.wf(),
        s.spawn_count > 1,
    ensures
        s.advanced().wf(),
        s.advanced().next_pick() != s.next_pick(),
{
    let p = s.next_pick() as int;
    let n = s.spawn_count as int;
    if p + 1 < n {
        assert((p + 1) % n == p + 1) by (nonlinear_arith)
            requires
                0 <= p + 1 < n,
        ;
    } else {
        assert((p + 1) % n == 0) by (nonlinear_arith)
            requires
                p + 1 == n,
                n > 0,
        ;
    }
}

} // verus!
