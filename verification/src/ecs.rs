//! The entity-component store: entity lifecycle and the typed component
//! tables.

use vstd::prelude::*;
use crate::assoc::AssocMap;
use crate::components::{Anim, Brain, Desc, Health, Item, MapMemory, Stats, Statuses};
use crate::entity::Entity;

verus! {

/// One identifier slot: its current generation and whether the entity of
/// that generation is live.
#[derive(Clone, Copy, PartialEq, Eq, Structural, Debug)]
pub struct EcsSlot {
    pub gen: u64,
    pub live: bool,
}

/// A slot that a fresh entity may claim: free, and with generations left.
pub open spec fn slot_reusable(s: EcsSlot) -> bool {
    !s.live && s.gen < u64::MAX
}

/// Index of the first reusable slot at or after `k`, or the length if
/// there is none.
pub open spec fn first_free(slots: Seq<EcsSlot>, k: int) -> int
    decreases slots.len() - k when 0 <= k <= slots.len()
{
    if k >= slots.len() {
        slots.len() as int
    } else if slot_reusable(slots[k]) {
        k
    } else {
        first_free(slots, k + 1)
    }
}

/// The slot sequence after allocating one entity, and the entity itself:
/// the first reusable slot with its generation bumped, else a new slot.
pub open spec fn alloc_spec(slots: Seq<EcsSlot>) -> (Seq<EcsSlot>, Entity) {
    let i = first_free(slots, 0);
    if i < slots.len() {
        (
            slots.update(i, EcsSlot { gen: (slots[i].gen + 1) as u64, live: true }),
            Entity { idx: i as usize, gen: (slots[i].gen + 1) as u64 },
        )
    } else {
        (slots.push(EcsSlot { gen: 0, live: true }), Entity { idx: slots.len() as usize, gen: 0 })
    }
}

/// Typed component tables plus the entity allocator.
pub struct Ecs {
    pub slots: Vec<EcsSlot>,
    /// Base combat statistics.
    pub stats: AssocMap<Entity, Stats>,
    /// Aggregate of base statistics and equipped-item bonuses.
    pub composite_stats: AssocMap<Entity, Stats>,
    pub health: AssocMap<Entity, Health>,
    pub brain: AssocMap<Entity, Brain>,
    pub statuses: AssocMap<Entity, Statuses>,
    pub desc: AssocMap<Entity, Desc>,
    pub item: AssocMap<Entity, Item>,
    pub anim: AssocMap<Entity, Anim>,
    pub map_memory: AssocMap<Entity, MapMemory>,
}

impl Ecs {
    /// Whether `e` denotes a live entity.
    pub open spec fn live(self, e: Entity) -> bool {
        e.idx < self.slots@.len() && self.slots@[e.idx as int].live && self.slots@[e.idx as int].gen
            == e.gen
    }

    /// Tables are well-formed and only hold rows for live entities.
    pub open spec fn wf(self) -> bool {
        &&& self.stats.wf()
        &&& self.composite_stats.wf()
        &&& self.health.wf()
        &&& self.brain.wf()
        &&& self.statuses.wf()
        &&& self.desc.wf()
        &&& self.item.wf()
        &&& self.anim.wf()
        &&& self.map_memory.wf()
        &&& forall|e: Entity| #[trigger] self.stats@.contains_key(e) ==> self.live(e)
        &&& forall|e: Entity| #[trigger] self.composite_stats@.contains_key(e) ==> self.live(e)
        &&& forall|e: Entity| #[trigger] self.health@.contains_key(e) ==> self.live(e)
        &&& forall|e: Entity| #[trigger] self.brain@.contains_key(e) ==> self.live(e)
        &&& forall|e: Entity| #[trigger] self.statuses@.contains_key(e) ==> self.live(e)
        &&& forall|e: Entity| #[trigger] self.desc@.contains_key(e) ==> self.live(e)
        &&& forall|e: Entity| #[trigger] self.item@.contains_key(e) ==> self.live(e)
        &&& forall|e: Entity| #[trigger] self.anim@.contains_key(e) ==> self.live(e)
        &&& forall|e: Entity| #[trigger] self.map_memory@.contains_key(e) ==> self.live(e)
        &&& forall|e: Entity| #[trigger] self.map_memory@.contains_key(e)
            ==> self.map_memory@[e].wf()
    }

    pub fn new() -> (r: Ecs)
        ensures
            r.wf(),
            r.slots@.len() == 0,
            r.stats@ == Map::<Entity, Stats>::empty(),
            r.composite_stats@ == Map::<Entity, Stats>::empty(),
            r.health@ == Map::<Entity, Health>::empty(),
            r.brain@ == Map::<Entity, Brain>::empty(),
            r.statuses@ == Map::<Entity, Statuses>::empty(),
            r.desc@ == Map::<Entity, Desc>::empty(),
            r.item@ == Map::<Entity, Item>::empty(),
            r.anim@ == Map::<Entity, Anim>::empty(),
            r.map_memory@ == Map::<Entity, MapMemory>::empty(),
    {
        Ecs {
            slots: Vec::new(),
            stats: AssocMap::new(),
            composite_stats: AssocMap::new(),
            health: AssocMap::new(),
            brain: AssocMap::new(),
            statuses: AssocMap::new(),
            desc: AssocMap::new(),
            item: AssocMap::new(),
            anim: AssocMap::new(),
            map_memory: AssocMap::new(),
        }
    }

    pub fn is_alive(&self, e: Entity) -> (r: bool)
        ensures
            r == self.live(e),
    {
        e.idx < self.slots.len() && self.slots[e.idx].live && self.slots[e.idx].gen == e.gen
    }

    /// Allocate a fresh entity: never one that is live, and never an
    /// identifier that was live before.
    pub fn make(&mut self) -> (r: Entity)
        requires
            old(self).wf(),
        ensures
            final(self).wf(),
            final(self).slots@ == alloc_spec(old(self).slots@).0,
            r == alloc_spec(old(self).slots@).1,
            final(self).live(r),
            !old(self).live(r),
            forall|e: Entity| e != r ==> final(self).live(e) == old(self).live(e),
            final(self).stats@ == old(self).stats@,
            final(self).composite_stats@ == old(self).composite_stats@,
            final(self).health@ == old(self).health@,
            final(self).brain@ == old(self).brain@,
            final(self).statuses@ == old(self).statuses@,
            final(self).desc@ == old(self).desc@,
            final(self).item@ == old(self).item@,
            final(self).anim@ == old(self).anim@,
            final(self).map_memory@ == old(self).map_memory@,
    {
        let ghost slots0 = self.slots@;
        match self.find_free() {
            Some(i) => {
                let g = self.slots[i].gen;
                let e = Entity { idx: i, gen: g + 1 };
                self.slots[i] = EcsSlot { gen: g + 1, live: true };
                proof {
                    assert(first_free(slots0, 0) == i);
                    assert(self.slots@ =~= alloc_spec(slots0).0);
                }
                e
            },
            None => {
                let n = self.slots.len();
                let e = Entity { idx: n, gen: 0 };
                self.slots.push(EcsSlot { gen: 0, live: true });
                proof {
                    assert(first_free(slots0, 0) == slots0.len());
                }
                e
            },
        }
    }

    /// Index of the first reusable slot, if any.
    fn find_free(&self) -> (r: Option<usize>)
        ensures
            match r {
                Some(i) => i < self.slots@.len() && first_free(self.slots@, 0) == i
                    && slot_reusable(self.slots@[i as int]),
                None => first_free(self.slots@, 0) == self.slots@.len(),
            },
    {
        let n = self.slots.len();
        let mut i: usize = 0;
        while i < n
            invariant
                i <= n,
                n == self.slots@.len(),
                first_free(self.slots@, 0) == first_free(self.slots@, i as int),
            decreases n - i,
        {
            let s = self.slots[i];
            if !s.live && s.gen < u64::MAX {
                return Some(i);
            }
            i += 1;
        }
        None
    }

    /// Retire an entity and drop all its component rows. A stale or
    /// never-issued handle changes nothing.
    pub fn remove(&mut self, e: Entity)
        requires
            old(self).wf(),
        ensures
            final(self).wf(),
            !final(self).live(e),
            forall|x: Entity| x != e ==> final(self).live(x) == old(self).live(x),
            final(self).slots@.len() == old(self).slots@.len(),
            final(self).slots@ == (if old(self).live(e) {
                old(self).slots@.update(e.idx as int, EcsSlot { gen: e.gen, live: false })
            } else {
                old(self).slots@
            }),
            final(self).stats@ == old(self).stats@.remove(e),
            final(self).composite_stats@ == old(self).composite_stats@.remove(e),
            final(self).health@ == old(self).health@.remove(e),
            final(self).brain@ == old(self).brain@.remove(e),
            final(self).statuses@ == old(self).statuses@.remove(e),
            final(self).desc@ == old(self).desc@.remove(e),
            final(self).item@ == old(self).item@.remove(e),
            final(self).anim@ == old(self).anim@.remove(e),
            final(self).map_memory@ == old(self).map_memory@.remove(e),
    {
        if e.idx < self.slots.len() && self.slots[e.idx].live && self.slots[e.idx].gen == e.gen {
            let g = self.slots[e.idx].gen;
            self.slots[e.idx] = EcsSlot { gen: g, live: false };
        } else {
            proof {
                assert(!self.stats@.contains_key(e));
                assert(!self.composite_stats@.contains_key(e));
                assert(!self.health@.contains_key(e));
                assert(!self.brain@.contains_key(e));
                assert(!self.statuses@.contains_key(e));
                assert(!self.desc@.contains_key(e));
                assert(!self.item@.contains_key(e));
                assert(!self.anim@.contains_key(e));
                assert(!self.map_memory@.contains_key(e));
            }
        }
        let _ = self.stats.take(&e);
        let _ = self.composite_stats.take(&e);
        let _ = self.health.take(&e);
        let _ = self.brain.take(&e);
        let _ = self.statuses.take(&e);
        let _ = self.desc.take(&e);
        let _ = self.item.take(&e);
        let _ = self.anim.take(&e);
        let _ = self.map_memory.take(&e);
    }

    /// Every live entity, without repetition.
    pub fn entities(&self) -> (r: Vec<Entity>)
        ensures
            forall|e: Entity| #[trigger] r@.contains(e) <==> self.live(e),
            forall|i: int, j: int| 0 <= i < j < r@.len() ==> r@[i] != r@[j],
    {
        let n = self.slots.len();
        let mut out: Vec<Entity> = Vec::new();
        let mut i: usize = 0;
        while i < n
            invariant
                i <= n,
                n == self.slots@.len(),
                forall|e: Entity|
                    #![trigger out@.contains(e)]
                    out@.contains(e) <==> (e.idx < i && self.live(e)),
                forall|a: int, b: int| 0 <= a < b < out@.len() ==> out@[a] != out@[b],
            decreases n - i,
        {
            let s = self.slots[i];
            if s.live {
                let e = Entity { idx: i, gen: s.gen };
                let ghost out0 = out@;
                out.push(e);
                proof {
                    assert forall|x: Entity|
                        #![trigger out@.contains(x)]
                        out@.contains(x) <==> (x.idx < i + 1 && self.live(x)) by {
                        crate::volume::lemma_push_contains(out0, e, x);
                        assert(out0.contains(x) <==> (x.idx < i && self.live(x)));
                    }
                    assert forall|a: int, b: int|
                        0 <= a < b < out@.len() implies out@[a] != out@[b] by {
                        if b == out@.len() - 1 {
                            assert(out0.contains(out0[a]));
                        }
                    }
                }
            } else {
                proof {
                    assert forall|x: Entity|
                        #![trigger out@.contains(x)]
                        out@.contains(x) <==> (x.idx < i + 1 && self.live(x)) by {
                        assert(out@.contains(x) <==> (x.idx < i && self.live(x)));
                    }
                }
            }
            i += 1;
        }
        out
    }
}

} // verus!
