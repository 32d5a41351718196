//! Sets of map locations, backed by an association map.

use vstd::prelude::*;
use crate::assoc::AssocMap;
use crate::location::Location;

verus! {

/// A finite set of locations.
pub struct LocSet {
    pub inner: AssocMap<Location, ()>,
}

impl View for LocSet {
    type V = Set<Location>;

    open spec fn view(&self) -> Set<Location> {
        self.inner@.dom()
    }
}

impl LocSet {
    pub open spec fn wf(self) -> bool {
        self.inner.wf()
    }

    pub fn new() -> (r: LocSet)
        ensures
            r.wf(),
            r@ == Set::<Location>::empty(),
    {
        let r = LocSet { inner: AssocMap::new() };
        proof {
            assert(r@ =~= Set::<Location>::empty());
        }
        r
    }

    pub fn insert(&mut self, loc: Location)
        requires
            old(self).wf(),
        ensures
            final(self).wf(),
            final(self)@ == old(self)@.insert(loc),
    {
        self.inner.insert(loc, ());
        proof {
            assert(self@ =~= old(self)@.insert(loc));
        }
    }

    pub fn contains(&self, loc: Location) -> (r: bool)
        requires
            self.wf(),
        ensures
            r == self@.contains(loc),
    {
        self.inner.contains(&loc)
    }

    /// The members, without repetition, in insertion order.
    pub fn to_vec(&self) -> (r: Vec<Location>)
        requires
            self.wf(),
        ensures
            forall|loc: Location| r@.contains(loc) <==> self@.contains(loc),
            forall|i: int, j: int| 0 <= i < j < r@.len() ==> r@[i] != r@[j],
    {
        self.inner.keys()
    }
}

} // verus!
