//! Opaque entity identifiers.

use vstd::prelude::*;

verus! {

/// Handle of one game object: a slot index plus the generation the slot
/// had when the handle was issued. A handle goes stale when its entity is
/// removed; stale handles never match a live slot again.
#[derive(Clone, Copy, PartialEq, Eq, Structural, Hash, Debug, PartialOrd, Ord)]
pub struct Entity {
    pub idx: usize,
    pub gen: u64,
}

impl Entity {
    /// Strict total order on handles, used where one entity of a set
    /// must be picked deterministically.
    pub open spec fn before(self, other: Entity) -> bool {
        self.idx < other.idx || (self.idx == other.idx && self.gen < other.gen)
    }

    pub fn is_before(self, other: Entity) -> (r: bool)
        ensures
            r == self.before(other),
    {
        self.idx < other.idx || (self.idx == other.idx && self.gen < other.gen)
    }
}

} // verus!

use crate::assoc::KeyEq;

verus! {

impl KeyEq for Entity {
    fn keq(&self, other: &Self) -> (r: bool)
        ensures
            r == (*self == *other),
    {
        self.idx == other.idx && self.gen == other.gen
    }
}

} // verus!
