//! The spatial index: where every placed entity is, either on the map or
//! inside an equip slot of another entity.

use vstd::prelude::*;
use crate::assoc::{AssocMap, KeyEq};
use crate::entity::Entity;
use crate::location::Location;

verus! {

/// Equipment slots of a creature.
#[derive(Clone, Copy, PartialEq, Eq, Structural, Hash, Debug)]
pub enum Slot {
    Melee,
    Ranged,
    Head,
    Body,
    Feet,
    TrinketA,
    TrinketB,
    TrinketC,
}

impl Slot {
    /// All slots, in a fixed order.
    pub fn all() -> (r: Vec<Slot>)
        ensures
            r@ =~= seq![
                Slot::Melee,
                Slot::Ranged,
                Slot::Head,
                Slot::Body,
                Slot::Feet,
                Slot::TrinketA,
                Slot::TrinketB,
                Slot::TrinketC,
            ],
    {
        let mut v: Vec<Slot> = Vec::new();
        v.push(Slot::Melee);
        v.push(Slot::Ranged);
        v.push(Slot::Head);
        v.push(Slot::Body);
        v.push(Slot::Feet);
        v.push(Slot::TrinketA);
        v.push(Slot::TrinketB);
        v.push(Slot::TrinketC);
        v
    }
}

/// Where a placed entity is: on a map cell, or held in an equip slot of
/// a parent entity.
#[derive(Clone, Copy, PartialEq, Eq, Structural, Debug)]
pub enum Place {
    At(Location),
    In(Entity, Slot),
}

impl KeyEq for Place {
    fn keq(&self, other: &Self) -> (r: bool)
        ensures
            r == (*self == *other),
    {
        match (self, other) {
            (Place::At(a), Place::At(b)) => a.keq(b),
            (Place::In(e1, s1), Place::In(e2, s2)) => e1.keq(e2) && *s1 == *s2,
            _ => false,
        }
    }
}

/// Bidirectional index between entities and their places. An entity
/// missing from the index is unplaced (in limbo). No equip slot holds
/// two entities.
pub struct Spatial {
    pub placement: AssocMap<Entity, Place>,
}

impl Spatial {
    pub open spec fn wf(self) -> bool {
        self.placement.wf() && (forall|e1: Entity, e2: Entity|
            #![trigger self.placement@[e1], self.placement@[e2]]
            self.placement@.contains_key(e1) && self.placement@.contains_key(e2)
                && self.placement@[e1] == self.placement@[e2] && self.placement@[e1] is In
                ==> e1 == e2)
    }

    pub fn new() -> (r: Spatial)
        ensures
            r.wf(),
            r.placement@ == Map::<Entity, Place>::empty(),
    {
        Spatial { placement: AssocMap::new() }
    }

    /// Put an entity on a map cell, removing it from wherever it was.
    pub fn place(&mut self, e: Entity, loc: Location)
        requires
            old(self).wf(),
        ensures
            final(self).wf(),
            final(self).placement@ == old(self).placement@.insert(e, Place::At(loc)),
    {
        self.placement.insert(e, Place::At(loc));
    }

    /// Drop an entity from the index, leaving it unplaced.
    pub fn unplace(&mut self, e: Entity)
        requires
            old(self).wf(),
        ensures
            final(self).wf(),
            final(self).placement@ == old(self).placement@.remove(e),
    {
        let _ = self.placement.take(&e);
    }

    /// Whether some entity is held in the given slot of `parent`.
    pub fn slot_occupied(&self, parent: Entity, slot: Slot) -> (r: bool)
        requires
            self.wf(),
        ensures
            r == exists|x: Entity|
                self.placement@.contains_key(x) && self.placement@[x] == Place::In(
                    parent,
                    slot,
                ),
    {
        let held = self.placement.keys_with(&Place::In(parent, slot));
        if held.len() > 0 {
            proof {
                assert(held@.contains(held@[0]));
            }
            true
        } else {
            proof {
                if exists|x: Entity|
                    self.placement@.contains_key(x) && self.placement@[x] == Place::In(
                        parent,
                        slot,
                    ) {
                    let x = choose|x: Entity|
                        self.placement@.contains_key(x) && self.placement@[x] == Place::In(
                            parent,
                            slot,
                        );
                    assert(held@.contains(x));
                }
            }
            false
        }
    }

    /// Move an entity into an equip slot, removing it from the map.
    pub fn equip(&mut self, e: Entity, parent: Entity, slot: Slot)
        requires
            old(self).wf(),
            forall|x: Entity|
                old(self).placement@.contains_key(x) ==> old(self).placement@[x] != Place::In(
                    parent,
                    slot,
                ),
        ensures
            final(self).wf(),
            final(self).placement@ == old(self).placement@.insert(e, Place::In(parent, slot)),
    {
        self.placement.insert(e, Place::In(parent, slot));
    }

    /// The map cell an entity stands on, if it is placed on the map.
    pub fn location_of(&self, e: Entity) -> (r: Option<Location>)
        requires
            self.wf(),
        ensures
            r == (if self.placement@.contains_key(e) {
                match self.placement@[e] {
                    Place::At(loc) => Some(loc),
                    Place::In(_, _) => None::<Location>,
                }
            } else {
                None::<Location>
            }),
    {
        match self.placement.get(&e) {
            Some(p) => match p {
                Place::At(loc) => Some(*loc),
                Place::In(_, _) => None,
            },
            None => None,
        }
    }

    /// The entities standing on a map cell, without repetition.
    pub fn entities_at(&self, loc: Location) -> (r: Vec<Entity>)
        requires
            self.wf(),
        ensures
            forall|e: Entity|
                r@.contains(e) <==> (self.placement@.contains_key(e) && self.placement@[e]
                    == Place::At(loc)),
            forall|i: int, j: int| 0 <= i < j < r@.len() ==> r@[i] != r@[j],
    {
        self.placement.keys_with(&Place::At(loc))
    }

    /// The entity held in the given slot of `parent`, if any.
    pub fn entity_in_slot(&self, parent: Entity, slot: Slot) -> (r: Option<Entity>)
        requires
            self.wf(),
        ensures
            match r {
                Some(e) => self.placement@.contains_key(e) && self.placement@[e] == Place::In(
                    parent,
                    slot,
                ),
                None => forall|x: Entity|
                    self.placement@.contains_key(x) ==> self.placement@[x] != Place::In(
                        parent,
                        slot,
                    ),
            },
    {
        let held = self.placement.keys_with(&Place::In(parent, slot));
        if held.len() > 0 {
            proof {
                assert(held@.contains(held@[0]));
            }
            Some(held[0])
        } else {
            proof {
                assert forall|x: Entity|
                    self.placement@.contains_key(x) implies self.placement@[x] != Place::In(
                    parent,
                    slot,
                ) by {
                    if self.placement@[x] == Place::In(parent, slot) {
                        assert(held@.contains(x));
                    }
                }
            }
            None
        }
    }
}

} // verus!
