//! The world facade: the one owner of all game state and the single
//! mutation entry point, with a ghost model that the contracts of every
//! mutator are stated against.

use vstd::prelude::*;
use vstd::string::StringExecFns;
use rand::rngs::StdRng;
use crate::assoc::{AssocMap, KeyEq};
use crate::components::{
    Anim, AnimState, Brain, BrainKind, Desc, Health, Item, MapMemory, Stats, Statuses,
    Status, STAT_BOUND,
};
use crate::ecs::{alloc_spec, Ecs, EcsSlot};
use crate::effect::{Ability, ActionOutcome, Damage, Effect};
use crate::entity::Entity;
use crate::form::{registry, Form, Loadout};
use crate::fov::fov_spec;
use crate::location::{Dir6, Location, SECTOR_WIDTH};
use crate::locset::LocSet;
use crate::rng::{rng_below, seed_rng};
use crate::spatial::{Place, Slot, Spatial};
use crate::terrain::{terrain_at, Terrain, TerrainMap};
use crate::volume::{sphere_cells, sphere_spec, Volume};
use crate::{AreaSpec, FovStatus, Msg};

verus! {

/// Bound on aggregate stat magnitudes: base plus every slot's bonus.
pub const COMPOSITE_BOUND: i32 = 0x90000;

/// World ticks a transient effect entity stays around after spawning:
/// a generous horizon, decoupled from the visual duration, so rendering
/// never outlives logical cleanup.
pub const FX_HORIZON: u64 = 300;

/// Animation-clock span a projectile tween covers.
pub const PROJECTILE_TIME: u64 = 8;

/// A message with owned text replaced by its character sequence: what
/// the message log means, independent of allocation.
pub ghost enum MsgM {
    Text(Seq<char>),
    Explosion(Location),
    Damage(Entity),
    Gib(Location),
}

/// The meaning of one message.
pub open spec fn msg_view(m: Msg) -> MsgM {
    match m {
        Msg::Text(s) => MsgM::Text(s@),
        Msg::Explosion(loc) => MsgM::Explosion(loc),
        Msg::Damage(e) => MsgM::Damage(e),
        Msg::Gib(loc) => MsgM::Gib(loc),
    }
}

/// Mitigated damage: the capped amount, less armor for physical hits,
/// never negative.
pub open spec fn dmg_taken(amount: u32, kind: Damage, armor: int) -> int {
    let capped: int = if amount > 0xFFFF {
        0xFFFF
    } else {
        amount as int
    };
    let mitigated: int = if kind is Physical {
        capped - armor
    } else {
        capped
    };
    if mitigated < 0 {
        0
    } else {
        mitigated
    }
}

/// `i32` subtraction that stops at the lower bound.
pub open spec fn sat_sub_i32(a: int, b: int) -> int {
    if a - b < i32::MIN {
        i32::MIN as int
    } else {
        a - b
    }
}

/// The gameplay-observable state of the world: everything the facade's
/// contracts speak of. The random number generator is deliberately
/// outside it.
#[verifier::ext_equal]
pub ghost struct WorldModel {
    /// The logical simulation clock; the only clock gameplay reads.
    pub tick: int,
    /// The continuous animation clock; drives rendering interpolation
    /// only.
    pub anim_tick: int,
    /// The entity allocator's slots.
    pub slots: Seq<EcsSlot>,
    pub stats: Map<Entity, Stats>,
    pub composite: Map<Entity, Stats>,
    pub health: Map<Entity, Health>,
    pub brain: Map<Entity, Brain>,
    pub statuses: Map<Entity, Statuses>,
    pub desc: Map<Entity, (Seq<char>, Seq<char>)>,
    pub item: Map<Entity, Item>,
    pub anim: Map<Entity, Anim>,
    /// Per-entity map memory: the seen set and the remembered set.
    pub memory: Map<Entity, (Set<Location>, Set<Location>)>,
    pub place: Map<Entity, Place>,
    pub terrain: Map<Location, Terrain>,
    pub area: AreaSpec,
    pub player: Option<Entity>,
    pub msgs: Seq<MsgM>,
    pub forms: Seq<Form>,
}

impl WorldModel {
    pub open spec fn live(self, e: Entity) -> bool {
        e.idx < self.slots.len() && self.slots[e.idx as int].live && self.slots[e.idx as int].gen
            == e.gen
    }

    /// Flagged for removal: has hit points and they are spent.
    pub open spec fn is_dead(self, e: Entity) -> bool {
        self.health.contains_key(e) && self.health[e].hp <= 0
    }

    /// An active creature: live, with a brain and hit points.
    pub open spec fn is_mob(self, e: Entity) -> bool {
        self.live(e) && self.brain.contains_key(e) && self.health.contains_key(e)
    }

    /// The player entity while it is live.
    pub open spec fn player_live(self) -> Option<Entity> {
        match self.player {
            Some(p) => if self.live(p) {
                Some(p)
            } else {
                None
            },
            None => None,
        }
    }

    /// The map cell an entity stands on, if placed on the map.
    pub open spec fn loc_of(self, e: Entity) -> Option<Location> {
        if self.place.contains_key(e) && self.place[e] is At {
            Some(self.place[e]->At_0)
        } else {
            None
        }
    }

    /// The mobs standing on a cell.
    pub open spec fn mobs_at(self, loc: Location) -> Set<Entity> {
        Set::new(
            |e: Entity|
                self.place.contains_key(e) && self.place[e] == Place::At(loc) && self.is_mob(e),
        )
    }

    /// The first (least-handle) mob on a cell, if any.
    pub open spec fn mob_at(self, loc: Location) -> Option<Entity> {
        if exists|e: Entity| is_least_of(self.mobs_at(loc), e) {
            Some(choose|e: Entity| is_least_of(self.mobs_at(loc), e))
        } else {
            None
        }
    }

    /// Armor that mitigates physical damage: the aggregate statistics
    /// when present, else the base ones, else none.
    pub open spec fn armor_of(self, e: Entity) -> int {
        if self.composite.contains_key(e) {
            self.composite[e].armor as int
        } else if self.stats.contains_key(e) {
            self.stats[e].armor as int
        } else {
            0
        }
    }

    /// Melee strength: the aggregate power when present, else base.
    pub open spec fn power_of(self, e: Entity) -> int {
        if self.composite.contains_key(e) {
            self.composite[e].power as int
        } else if self.stats.contains_key(e) {
            self.stats[e].power as int
        } else {
            0
        }
    }

    pub open spec fn with_msg(self, m: MsgM) -> WorldModel {
        WorldModel { msgs: self.msgs.push(m), ..self }
    }

    /// Damage an entity: capped, armor-mitigated, hit points saturating
    /// downward; a damage message, and a gib message on a kill.
    pub open spec fn damage_model(self, target: Entity, amount: u32, kind: Damage) -> WorldModel {
        if self.health.contains_key(target) {
            let hp0 = self.health[target].hp;
            let eff = dmg_taken(amount, kind, self.armor_of(target));
            let hp1 = sat_sub_i32(hp0 as int, eff);
            let hit = WorldModel {
                health: self.health.insert(
                    target,
                    Health { hp: hp1 as i32, max_hp: self.health[target].max_hp },
                ),
                ..self
            }.with_msg(MsgM::Damage(target));
            if hp1 <= 0 && hp0 > 0 && self.place.contains_key(target) && self.place[target] is At {
                hit.with_msg(MsgM::Gib(self.place[target]->At_0))
            } else {
                hit
            }
        } else {
            self
        }
    }

    /// Confuse a live entity for at least the given span.
    pub open spec fn gain_status_model(self, target: Entity, duration: u32) -> WorldModel {
        if self.live(target) {
            let cur: u32 = if self.statuses.contains_key(target) {
                self.statuses[target].confused
            } else {
                0u32
            };
            let next: u32 = if cur >= duration {
                cur
            } else {
                duration
            };
            WorldModel { statuses: self.statuses.insert(target, Statuses { confused: next }), ..self }
        } else {
            self
        }
    }

    /// The confusion message, with the struck entity rendered as the
    /// subject: the player in the second person, a described creature
    /// by its name, anything else namelessly.
    pub open spec fn confuse_msg(self, target: Entity) -> Seq<char> {
        if self.player == Some(target) {
            "You are confused."@
        } else if self.desc.contains_key(target) {
            "The "@ + self.desc[target].0 + " is confused."@
        } else {
            "Something is confused."@
        }
    }

    /// One effect landing on one entity.
    pub open spec fn apply_effect_to_entity_model(self, effect: Effect, target: Entity) -> WorldModel {
        match effect {
            Effect::Hit { amount, damage } => self.damage_model(target, amount, damage),
            Effect::Confuse => self.gain_status_model(target, 40).with_msg(
                MsgM::Text(self.confuse_msg(target)),
            ),
        }
    }

    /// One effect landing on one cell: it hits the mob occupying the
    /// cell, and is a no-op on an empty cell.
    pub open spec fn apply_effect_to_model(self, effect: Effect, loc: Location) -> WorldModel {
        match self.mob_at(loc) {
            Some(mob) => self.apply_effect_to_entity_model(effect, mob),
            None => self,
        }
    }

    /// One effect over a sequence of cells, first to last: one
    /// resolution attempt per cell.
    pub open spec fn apply_effect_model(self, effect: Effect, locs: Seq<Location>) -> WorldModel
        decreases locs.len(),
    {
        if locs.len() == 0 {
            self
        } else {
            self.apply_effect_model(effect, locs.drop_last()).apply_effect_to_model(
                effect,
                locs.last(),
            )
        }
    }

    /// Allocate a fresh entity.
    pub open spec fn alloc_entity(self) -> (WorldModel, Entity) {
        let (slots, e) = alloc_spec(self.slots);
        (WorldModel { slots, ..self }, e)
    }

    /// Retire an entity: free its slot, drop its component rows and its
    /// place.
    pub open spec fn remove_model(self, e: Entity) -> WorldModel {
        WorldModel {
            slots: if self.live(e) {
                self.slots.update(e.idx as int, EcsSlot { gen: e.gen, live: false })
            } else {
                self.slots
            },
            stats: self.stats.remove(e),
            composite: self.composite.remove(e),
            health: self.health.remove(e),
            brain: self.brain.remove(e),
            statuses: self.statuses.remove(e),
            desc: self.desc.remove(e),
            item: self.item.remove(e),
            anim: self.anim.remove(e),
            memory: self.memory.remove(e),
            place: self.place.remove(e),
            ..self
        }
    }

    /// Clocks are far from their machine bounds; every per-turn step
    /// fits.
    pub open spec fn clock_room(self) -> bool {
        0 <= self.tick && self.tick + 310 < u64::MAX && 0 <= self.anim_tick && self.anim_tick + 310
            < u64::MAX
    }
}

/// The first reusable slot index stays within the sequence, and points
/// at a reusable slot when it is not the length.
pub proof fn lemma_first_free(slots: Seq<EcsSlot>, k: int)
    requires
        0 <= k <= slots.len(),
    ensures
        k <= crate::ecs::first_free(slots, k) <= slots.len(),
        crate::ecs::first_free(slots, k) < slots.len() ==> crate::ecs::slot_reusable(
            slots[crate::ecs::first_free(slots, k)],
        ),
    decreases slots.len() - k,
{
    if k < slots.len() && !crate::ecs::slot_reusable(slots[k]) {
        lemma_first_free(slots, k + 1);
    }
}

/// Allocation yields an entity that was not live, and disturbs no
/// other entity's liveness.
pub proof fn lemma_alloc_live(m: WorldModel)
    requires
        m.slots.len() <= usize::MAX,
    ensures
        !m.live(m.alloc_entity().1),
        m.alloc_entity().0.live(m.alloc_entity().1),
        forall|e: Entity|
            e != m.alloc_entity().1 ==> m.alloc_entity().0.live(e) == m.live(e),
{
    lemma_first_free(m.slots, 0);
}

/// The unique least element of a set of entities.
pub open spec fn is_least_of(s: Set<Entity>, e: Entity) -> bool {
    s.contains(e) && forall|x: Entity| s.contains(x) ==> !x.before(e)
}

/// Two least elements of the same set coincide.
pub proof fn lemma_least_unique(s: Set<Entity>, a: Entity, b: Entity)
    requires
        is_least_of(s, a),
        is_least_of(s, b),
    ensures
        a == b,
{
    assert(s.contains(a) && s.contains(b));
    assert(!a.before(b) && !b.before(a));
}

/// Non-clock flags of the world.
struct Flags {
    tick: u64,
    anim_tick: u64,
    player: Option<Entity>,
    area: AreaSpec,
    seed: u64,
}

/// The world: the one owner of all game state.
pub struct World {
    ecs: Ecs,
    spatial: Spatial,
    terrain: TerrainMap,
    flags: Flags,
    msgs: Vec<Msg>,
    rng: StdRng,
    forms: Vec<Form>,
}

impl World {
    /// The meaning of the memory table.
    pub closed spec fn memory_view(self) -> Map<Entity, (Set<Location>, Set<Location>)> {
        self.ecs.map_memory@.map_values(|mm: MapMemory| mm@)
    }

    /// The meaning of the descriptor table.
    pub closed spec fn desc_view(self) -> Map<Entity, (Seq<char>, Seq<char>)> {
        self.ecs.desc@.map_values(|d: Desc| d@)
    }

    /// The gameplay-observable state.
    pub closed spec fn m(self) -> WorldModel {
        WorldModel {
            tick: self.flags.tick as int,
            anim_tick: self.flags.anim_tick as int,
            slots: self.ecs.slots@,
            stats: self.ecs.stats@,
            composite: self.ecs.composite_stats@,
            health: self.ecs.health@,
            brain: self.ecs.brain@,
            statuses: self.ecs.statuses@,
            desc: self.desc_view(),
            item: self.ecs.item@,
            anim: self.ecs.anim@,
            memory: self.memory_view(),
            place: self.spatial.placement@,
            terrain: self.terrain.cells@,
            area: self.flags.area,
            player: self.flags.player,
            msgs: self.msgs@.map_values(|m: Msg| msg_view(m)),
            forms: self.forms@,
        }
    }

    /// The world's structural invariant.
    pub closed spec fn wf(self) -> bool {
        &&& self.ecs.wf()
        &&& self.spatial.wf()
        &&& self.terrain.wf()
        &&& forall|e: Entity| #[trigger]
            self.spatial.placement@.contains_key(e) ==> self.ecs.live(e)
        &&& forall|e: Entity| #[trigger]
            self.spatial.placement@.contains_key(e) && self.spatial.placement@[e] is At
                ==> (self.spatial.placement@[e]->At_0).in_bounds()
        &&& forall|e: Entity| #[trigger]
            self.ecs.anim@.contains_key(e) ==> !self.ecs.health@.contains_key(e)
                && !self.ecs.brain@.contains_key(e)
        &&& forall|e: Entity| #[trigger] self.ecs.stats@.contains_key(e)
            ==> self.ecs.stats@[e].wf()
        &&& forall|e: Entity| #[trigger]
            self.ecs.composite_stats@.contains_key(e) ==> {
                let c = self.ecs.composite_stats@[e];
                -COMPOSITE_BOUND <= c.power && c.power <= COMPOSITE_BOUND && -COMPOSITE_BOUND
                    <= c.armor && c.armor <= COMPOSITE_BOUND
            }
        &&& forall|f: Form| #[trigger] self.forms@.contains(f) ==> f.wf()
    }

    /// A fresh world: tick zero, empty entity store, no player, the
    /// standard form registry, a generator seeded from `seed`.
    pub fn new(seed: u64, area: AreaSpec) -> (r: World)
        ensures
            r.wf(),
            r.m().tick == 0,
            r.m().anim_tick == 0,
            r.m().slots =~= Seq::<EcsSlot>::empty(),
            r.m().stats =~= Map::<Entity, Stats>::empty(),
            r.m().composite =~= Map::<Entity, Stats>::empty(),
            r.m().health =~= Map::<Entity, Health>::empty(),
            r.m().brain =~= Map::<Entity, Brain>::empty(),
            r.m().statuses =~= Map::<Entity, Statuses>::empty(),
            r.m().item =~= Map::<Entity, Item>::empty(),
            r.m().anim =~= Map::<Entity, Anim>::empty(),
            r.m().memory =~= Map::<Entity, (Set<Location>, Set<Location>)>::empty(),
            r.m().place =~= Map::<Entity, Place>::empty(),
            r.m().terrain =~= Map::<Location, Terrain>::empty(),
            r.m().area == area,
            r.m().player is None,
            r.m().msgs =~= Seq::<MsgM>::empty(),
            r.m().clock_room(),
    {
        let forms = registry();
        let r = World {
            ecs: Ecs::new(),
            spatial: Spatial::new(),
            terrain: TerrainMap::new(),
            flags: Flags { tick: 0, anim_tick: 0, player: None, area, seed },
            msgs: Vec::new(),
            rng: seed_rng(seed),
            forms,
        };
        proof {
            assert(r.memory_view() =~= Map::<Entity, (Set<Location>, Set<Location>)>::empty());
            assert(r.m().msgs =~= Seq::<MsgM>::empty());
            assert forall|f: Form| #[trigger] r.forms@.contains(f) implies f.wf() by {
                let i = choose|i: int| 0 <= i < r.forms@.len() && r.forms@[i] == f;
            }
        }
        r
    }

    /// The logical simulation clock.
    pub fn get_tick(&self) -> (r: u64)
        ensures
            r == self.m().tick,
    {
        self.flags.tick
    }

    /// The animation clock; rendering interpolation only.
    pub fn get_anim_tick(&self) -> (r: u64)
        ensures
            r == self.m().anim_tick,
    {
        self.flags.anim_tick
    }

    /// The current area spec of the world.
    pub fn area(&self) -> (r: AreaSpec)
        ensures
            r == self.m().area,
    {
        self.flags.area
    }

    /// The player entity while it is live.
    pub fn player(&self) -> (r: Option<Entity>)
        ensures
            r == self.m().player_live(),
    {
        match self.flags.player {
            Some(p) => {
                if self.ecs.is_alive(p) {
                    Some(p)
                } else {
                    None
                }
            },
            None => None,
        }
    }

    /// Point the player handle somewhere else.
    pub fn set_player(&mut self, player: Option<Entity>)
        requires
            old(self).wf(),
        ensures
            final(self).wf(),
            final(self).m() == (WorldModel { player, ..old(self).m() }),
    {
        self.flags.player = player;
        proof {
            assert(self.m() =~= (WorldModel { player, ..old(self).m() }));
        }
    }

    /// Whether the entity exists and is not spent.
    pub fn is_alive(&self, e: Entity) -> (r: bool)
        requires
            self.wf(),
        ensures
            r == (self.m().live(e) && !self.m().is_dead(e)),
    {
        if !self.ecs.is_alive(e) {
            return false;
        }
        match self.ecs.health.get(&e) {
            Some(h) => h.hp > 0,
            None => true,
        }
    }

    /// Whether the entity is an active creature.
    pub fn is_mob(&self, e: Entity) -> (r: bool)
        requires
            self.wf(),
        ensures
            r == self.m().is_mob(e),
    {
        self.ecs.is_alive(e) && self.ecs.brain.contains(&e) && self.ecs.health.contains(&e)
    }

    /// The map cell an entity stands on.
    pub fn location(&self, e: Entity) -> (r: Option<Location>)
        requires
            self.wf(),
        ensures
            r == self.m().loc_of(e),
            r is Some ==> r->0.in_bounds(),
    {
        self.spatial.location_of(e)
    }

    /// The entities standing on a cell, without repetition.
    pub fn entities_at(&self, loc: Location) -> (r: Vec<Entity>)
        requires
            self.wf(),
        ensures
            forall|e: Entity|
                r@.contains(e) <==> (self.m().place.contains_key(e) && self.m().place[e]
                    == Place::At(loc)),
            forall|i: int, j: int| 0 <= i < j < r@.len() ==> r@[i] != r@[j],
    {
        self.spatial.entities_at(loc)
    }

    /// The terrain of a cell.
    pub fn terrain(&self, loc: Location) -> (r: Terrain)
        requires
            self.wf(),
        ensures
            r == terrain_at(self.m().terrain, loc),
    {
        self.terrain.at(loc)
    }

    /// Write one cell of terrain.
    pub fn set_terrain(&mut self, loc: Location, t: Terrain)
        requires
            old(self).wf(),
        ensures
            final(self).wf(),
            final(self).m() == (WorldModel {
                terrain: old(self).m().terrain.insert(loc, t),
                ..old(self).m()
            }),
    {
        self.terrain.set(loc, t);
        proof {
            assert(self.m() =~= (WorldModel {
                terrain: old(self).m().terrain.insert(loc, t),
                ..old(self).m()
            }));
        }
    }

    /// The oldest undelivered message, removed from the log.
    pub fn pop_msg(&mut self) -> (r: Option<Msg>)
        requires
            old(self).wf(),
        ensures
            final(self).wf(),
            match r {
                Some(msg) => old(self).m().msgs.len() > 0 && msg_view(msg) == old(self).m().msgs[0] && final(self).m() == (WorldModel {
                    msgs: old(self).m().msgs.subrange(1, old(self).m().msgs.len() as int),
                    ..old(self).m()
                }),
                None => old(self).m().msgs.len() == 0 && final(self).m() == old(self).m(),
            },
    {
        if self.msgs.len() == 0 {
            proof {
                assert(self.m() =~= old(self).m());
            }
            return None;
        }
        let msg = self.msgs.remove(0);
        proof {
            assert(self.m().msgs =~= old(self).m().msgs.subrange(
                1,
                old(self).m().msgs.len() as int,
            ));
            assert(self.m() =~= (WorldModel {
                msgs: old(self).m().msgs.subrange(1, old(self).m().msgs.len() as int),
                ..old(self).m()
            }));
        }
        Some(msg)
    }

    /// Append one message to the log.
    fn push_msg(&mut self, msg: Msg)
        requires
            old(self).wf(),
        ensures
            final(self).wf(),
            final(self).m() == old(self).m().with_msg(msg_view(msg)),
    {
        self.msgs.push(msg);
        proof {
            assert(self.m().msgs =~= old(self).m().msgs.push(msg_view(msg)));
            assert(self.m() =~= old(self).m().with_msg(msg_view(msg)));
        }
    }

    /// Put an entity on a map cell, removing it from wherever it was.
    pub fn place_entity(&mut self, e: Entity, loc: Location)
        requires
            old(self).wf(),
            old(self).m().live(e),
            loc.in_bounds(),
        ensures
            final(self).wf(),
            final(self).m() == (WorldModel {
                place: old(self).m().place.insert(e, Place::At(loc)),
                ..old(self).m()
            }),
    {
        self.spatial.place(e, loc);
        proof {
            assert(self.m() =~= (WorldModel {
                place: old(self).m().place.insert(e, Place::At(loc)),
                ..old(self).m()
            }));
        }
    }

    /// Retire an entity and everything it carries in the tables.
    pub fn remove_entity(&mut self, e: Entity)
        requires
            old(self).wf(),
        ensures
            final(self).wf(),
            final(self).m() == old(self).m().remove_model(e),
    {
        self.ecs.remove(e);
        self.spatial.unplace(e);
        proof {
            assert(self.memory_view() =~= old(self).memory_view().remove(e));
            assert(self.desc_view() =~= old(self).desc_view().remove(e));
            assert(self.m() =~= old(self).m().remove_model(e));
        }
    }
}

} // verus!

verus! {

impl WorldModel {
    /// One heartbeat of the timed statuses: durations count down.
    pub open spec fn tick_statuses_model(self, e: Entity) -> WorldModel {
        if self.statuses.contains_key(e) {
            let c = self.statuses[e].confused;
            let next: u32 = if c > 0 {
                (c - 1) as u32
            } else {
                0u32
            };
            WorldModel { statuses: self.statuses.insert(e, Statuses { confused: next }), ..self }
        } else {
            self
        }
    }

    /// One charge leaves the item, stopping at zero.
    pub open spec fn drain_charge_model(self, item: Entity) -> WorldModel {
        if self.item.contains_key(item) {
            let it = self.item[item];
            let next: u32 = if it.charges > 0 {
                (it.charges - 1) as u32
            } else {
                0u32
            };
            WorldModel {
                item: self.item.insert(item, Item { ability: it.ability, charges: next }),
                ..self
            }
        } else {
            self
        }
    }

    /// Whether the item grants the ability.
    pub open spec fn has_ability_model(self, item: Entity, a: Ability) -> bool {
        self.item.contains_key(item) && self.item[item].ability == a
    }
}

impl World {
    /// The first (least-handle) mob on a cell, if any.
    pub fn mob_at(&self, loc: Location) -> (r: Option<Entity>)
        requires
            self.wf(),
        ensures
            r == self.m().mob_at(loc),
    {
        let es = self.spatial.entities_at(loc);
        let n = es.len();
        let mut best: Option<Entity> = None;
        let mut i: usize = 0;
        while i < n
            invariant
                self.wf(),
                i <= n,
                n == es@.len(),
                forall|e: Entity|
                    es@.contains(e) <==> (self.m().place.contains_key(e) && self.m().place[e]
                        == Place::At(loc)),
                match best {
                    Some(b) => self.m().mobs_at(loc).contains(b) && (forall|j: int|
                        0 <= j < i && self.m().is_mob(es@[j]) ==> !es@[j].before(b)),
                    None => forall|j: int| 0 <= j < i ==> !self.m().is_mob(es@[j]),
                },
            decreases n - i,
        {
            let e = es[i];
            if self.is_mob(e) {
                proof {
                    assert(es@.contains(es@[i as int]));
                }
                match best {
                    Some(b) => {
                        if e.is_before(b) {
                            best = Some(e);
                        }
                    },
                    None => {
                        best = Some(e);
                    },
                }
            }
            i += 1;
        }
        proof {
            match best {
                Some(b) => {
                    assert forall|x: Entity|
                        self.m().mobs_at(loc).contains(x) implies !x.before(b) by {
                        assert(es@.contains(x));
                        let j = choose|j: int| 0 <= j < es@.len() && es@[j] == x;
                        assert(self.m().is_mob(es@[j]));
                    }
                    assert(is_least_of(self.m().mobs_at(loc), b));
                    let c = choose|e: Entity| is_least_of(self.m().mobs_at(loc), e);
                    lemma_least_unique(self.m().mobs_at(loc), b, c);
                },
                None => {
                    if exists|e: Entity| is_least_of(self.m().mobs_at(loc), e) {
                        let e = choose|e: Entity| is_least_of(self.m().mobs_at(loc), e);
                        assert(self.m().mobs_at(loc).contains(e));
                        assert(es@.contains(e));
                        let j = choose|j: int| 0 <= j < es@.len() && es@[j] == e;
                        assert(self.m().is_mob(es@[j]));
                    }
                },
            }
        }
        best
    }

    /// Deal damage to an entity; a no-op on anything without hit
    /// points. The source only attributes the hit; it changes nothing.
    #[allow(unused_variables)]
    pub fn damage(&mut self, target: Entity, amount: u32, kind: Damage, source: Option<Entity>)
        requires
            old(self).wf(),
        ensures
            final(self).wf(),
            final(self).m() == old(self).m().damage_model(target, amount, kind),
    {
        let h = match self.ecs.health.get(&target) {
            Some(h) => *h,
            None => {
                return ;
            },
        };
        let armor: i32 = match self.ecs.composite_stats.get(&target) {
            Some(s) => s.armor,
            None => match self.ecs.stats.get(&target) {
                Some(s) => s.armor,
                None => 0,
            },
        };
        let capped: u32 = if amount > 0xFFFF {
            0xFFFF
        } else {
            amount
        };
        let c = capped as i32;
        let mitigated: i32 = if matches!(kind, Damage::Physical) {
            c - armor
        } else {
            c
        };
        let eff: i32 = if mitigated < 0 {
            0
        } else {
            mitigated
        };
        let new_hp: i32 = match h.hp.checked_sub(eff) {
            Some(v) => v,
            None => i32::MIN,
        };
        self.ecs.health.insert(target, Health { hp: new_hp, max_hp: h.max_hp });
        self.msgs.push(Msg::Damage(target));
        if new_hp <= 0 && h.hp > 0 {
            match self.spatial.location_of(target) {
                Some(loc) => {
                    self.msgs.push(Msg::Gib(loc));
                    proof {
                        assert(self.m().msgs =~= old(self).m().msgs.push(
                            MsgM::Damage(target),
                        ).push(MsgM::Gib(loc)));
                        assert(self.m() =~= old(self).m().damage_model(target, amount, kind));
                    }
                },
                None => {
                    proof {
                        assert(self.m().msgs =~= old(self).m().msgs.push(MsgM::Damage(target)));
                        assert(self.m() =~= old(self).m().damage_model(target, amount, kind));
                    }
                },
            }
        } else {
            proof {
                assert(self.m().msgs =~= old(self).m().msgs.push(MsgM::Damage(target)));
                assert(self.m() =~= old(self).m().damage_model(target, amount, kind));
            }
        }
    }

    /// Put a timed status on a live entity.
    pub fn gain_status(&mut self, target: Entity, status: Status, duration: u32)
        requires
            old(self).wf(),
        ensures
            final(self).wf(),
            final(self).m() == old(self).m().gain_status_model(target, duration),
    {
        match status {
            Status::Confused => {},
        }
        if !self.ecs.is_alive(target) {
            return ;
        }
        let cur: u32 = match self.ecs.statuses.get(&target) {
            Some(s) => s.confused,
            None => 0,
        };
        let next: u32 = if cur >= duration {
            cur
        } else {
            duration
        };
        self.ecs.statuses.insert(target, Statuses { confused: next });
        proof {
            assert(self.m() =~= old(self).m().gain_status_model(target, duration));
        }
    }

    /// Dispatch one effect onto one entity.
    pub fn apply_effect_to_entity(&mut self, effect: &Effect, target: Entity, source: Option<Entity>)
        requires
            old(self).wf(),
        ensures
            final(self).wf(),
            final(self).m() == old(self).m().apply_effect_to_entity_model(*effect, target),
    {
        match *effect {
            Effect::Hit { amount, damage } => {
                self.damage(target, amount, damage, source);
            },
            Effect::Confuse => {
                self.gain_status(target, Status::Confused, 40);
                let is_player = match self.flags.player {
                    Some(p) => p.keq(&target),
                    None => false,
                };
                let text: String = if is_player {
                    "You are confused.".to_owned()
                } else {
                    match self.ecs.desc.get(&target) {
                        Some(d) => {
                            let mut t: String = "The ".to_owned();
                            t.append(d.name.as_str());
                            t.append(" is confused.");
                            t
                        },
                        None => "Something is confused.".to_owned(),
                    }
                };
                proof {
                    assert(text@ == old(self).m().confuse_msg(target));
                }
                self.push_msg(Msg::Text(text));
            },
        }
    }

    /// Apply one effect to the mob occupying a cell; a no-op on an
    /// empty cell.
    pub fn apply_effect_to(&mut self, effect: &Effect, loc: Location, source: Option<Entity>)
        requires
            old(self).wf(),
        ensures
            final(self).wf(),
            final(self).m() == old(self).m().apply_effect_to_model(*effect, loc),
    {
        match self.mob_at(loc) {
            Some(mob) => {
                self.apply_effect_to_entity(effect, mob, source);
            },
            None => {},
        }
    }

    /// Apply one effect to every cell of a volume, in volume order:
    /// exactly one resolution attempt per cell.
    pub fn apply_effect(&mut self, effect: &Effect, volume: &Volume, source: Option<Entity>)
        requires
            old(self).wf(),
        ensures
            final(self).wf(),
            final(self).m() == old(self).m().apply_effect_model(*effect, volume.0@),
    {
        let n = volume.0.len();
        let mut i: usize = 0;
        proof {
            assert(volume.0@.take(0) =~= Seq::<Location>::empty());
        }
        while i < n
            invariant
                self.wf(),
                i <= n,
                n == volume.0@.len(),
                self.m() == old(self).m().apply_effect_model(*effect, volume.0@.take(i as int)),
            decreases n - i,
        {
            let loc = volume.0[i];
            self.apply_effect_to(effect, loc, source);
            proof {
                assert(volume.0@.take(i + 1).drop_last() =~= volume.0@.take(i as int));
                assert(volume.0@.take(i + 1).last() == volume.0@[i as int]);
            }
            i += 1;
        }
        proof {
            assert(volume.0@.take(n as int) =~= volume.0@);
        }
    }

    /// Per-turn autonomous upkeep of one entity: status durations count
    /// down. Runs for player and AI entities alike.
    pub fn heartbeat(&mut self, e: Entity)
        requires
            old(self).wf(),
        ensures
            final(self).wf(),
            final(self).m() == old(self).m().tick_statuses_model(e),
    {
        self.tick_statuses(e);
    }

    /// Count one turn off every timed status of the entity.
    fn tick_statuses(&mut self, e: Entity)
        requires
            old(self).wf(),
        ensures
            final(self).wf(),
            final(self).m() == old(self).m().tick_statuses_model(e),
    {
        let cur: u32 = match self.ecs.statuses.get(&e) {
            Some(s) => s.confused,
            None => {
                return ;
            },
        };
        let next: u32 = if cur > 0 {
            cur - 1
        } else {
            0
        };
        self.ecs.statuses.insert(e, Statuses { confused: next });
        proof {
            assert(self.m() =~= old(self).m().tick_statuses_model(e));
        }
    }

    /// Whether the item grants the ability.
    pub fn has_ability(&self, item: Entity, a: Ability) -> (r: bool)
        requires
            self.wf(),
        ensures
            r == self.m().has_ability_model(item, a),
    {
        match self.ecs.item.get(&item) {
            Some(it) => it.ability == a,
            None => false,
        }
    }

    /// Remaining charges of an item, if it is one.
    pub fn charges(&self, item: Entity) -> (r: Option<u32>)
        requires
            self.wf(),
        ensures
            r == (if self.m().item.contains_key(item) {
                Some(self.m().item[item].charges)
            } else {
                None::<u32>
            }),
    {
        match self.ecs.item.get(&item) {
            Some(it) => Some(it.charges),
            None => None,
        }
    }

    /// The visual descriptor of an entity, if it has one.
    pub fn desc(&self, e: Entity) -> (r: Option<&Desc>)
        requires
            self.wf(),
        ensures
            match r {
                Some(d) => self.m().desc.contains_key(e) && d@ == self.m().desc[e],
                None => !self.m().desc.contains_key(e),
            },
    {
        self.ecs.desc.get(&e)
    }

    /// The animation row of an entity, if it has one.
    pub fn anim(&self, e: Entity) -> (r: Option<Anim>)
        requires
            self.wf(),
        ensures
            r == (if self.m().anim.contains_key(e) {
                Some(self.m().anim[e])
            } else {
                None::<Anim>
            }),
    {
        match self.ecs.anim.get(&e) {
            Some(a) => Some(*a),
            None => None,
        }
    }

    /// Hit points of an entity, if it has any.
    pub fn hp(&self, e: Entity) -> (r: Option<i32>)
        requires
            self.wf(),
        ensures
            r == (if self.m().health.contains_key(e) {
                Some(self.m().health[e].hp)
            } else {
                None::<i32>
            }),
    {
        match self.ecs.health.get(&e) {
            Some(h) => Some(h.hp),
            None => None,
        }
    }

    /// Remaining span of the confused status; zero when absent.
    pub fn confusion(&self, e: Entity) -> (r: u32)
        requires
            self.wf(),
        ensures
            r == (if self.m().statuses.contains_key(e) {
                self.m().statuses[e].confused
            } else {
                0u32
            }),
    {
        match self.ecs.statuses.get(&e) {
            Some(s) => s.confused,
            None => 0,
        }
    }

    /// One charge leaves the item, stopping at zero.
    fn drain_charge(&mut self, item: Entity)
        requires
            old(self).wf(),
        ensures
            final(self).wf(),
            final(self).m() == old(self).m().drain_charge_model(item),
    {
        let it = match self.ecs.item.get(&item) {
            Some(it) => *it,
            None => {
                return ;
            },
        };
        let next: u32 = if it.charges > 0 {
            it.charges - 1
        } else {
            0
        };
        self.ecs.item.insert(item, Item { ability: it.ability, charges: next });
        proof {
            assert(self.m() =~= old(self).m().drain_charge_model(item));
        }
    }
}

} // verus!

verus! {

/// The eight equip slots in their fixed order.
pub open spec fn all_slots() -> Seq<Slot> {
    seq![
        Slot::Melee,
        Slot::Ranged,
        Slot::Head,
        Slot::Body,
        Slot::Feet,
        Slot::TrinketA,
        Slot::TrinketB,
        Slot::TrinketC,
    ]
}

impl WorldModel {
    /// The component rows of a loadout attached to a fresh entity.
    pub open spec fn inject_model(self, l: Loadout) -> (WorldModel, Entity) {
        let (m1, e) = self.alloc_entity();
        (
            WorldModel {
                stats: if l.stats is Some {
                    m1.stats.insert(e, l.stats->0)
                } else {
                    m1.stats
                },
                desc: if l.desc is Some {
                    m1.desc.insert(e, l.desc->0@)
                } else {
                    m1.desc
                },
                brain: if l.brain is Some {
                    m1.brain.insert(e, l.brain->0)
                } else {
                    m1.brain
                },
                health: if l.health is Some {
                    m1.health.insert(e, l.health->0)
                } else {
                    m1.health
                },
                item: if l.item is Some {
                    m1.item.insert(e, l.item->0)
                } else {
                    m1.item
                },
                memory: if l.map_memory {
                    m1.memory.insert(e, (Set::<Location>::empty(), Set::<Location>::empty()))
                } else {
                    m1.memory
                },
                ..m1
            },
            e,
        )
    }

    /// A loadout injected and placed on a cell.
    pub open spec fn spawn_model(self, l: Loadout, loc: Location) -> (WorldModel, Entity) {
        let (m1, e) = self.inject_model(l);
        (WorldModel { place: m1.place.insert(e, Place::At(loc)), ..m1 }, e)
    }

    /// A transient effect entity spawned on a cell: placed, animated
    /// from the current animation clock, and booked for destruction on
    /// the world clock.
    pub open spec fn spawn_fx_model(self, loc: Location, state: AnimState) -> (WorldModel, Entity) {
        let (m1, e) = self.alloc_entity();
        (
            WorldModel {
                place: m1.place.insert(e, Place::At(loc)),
                anim: m1.anim.insert(
                    e,
                    Anim {
                        state,
                        anim_start: self.anim_tick as u64,
                        anim_done_world_tick: Some((self.tick + FX_HORIZON) as u64),
                        tween_from: Location { x: 0i32, y: 0i32, z: 0i32 },
                        tween_start: 0u64,
                        tween_duration: 0u32,
                    },
                ),
                ..m1
            },
            e,
        )
    }

    /// Entities flagged for removal.
    pub open spec fn dead_set(self) -> Set<Entity> {
        Set::new(|e: Entity| self.live(e) && self.is_dead(e))
    }

    /// Every entity of the set retired at once.
    pub open spec fn removed_all_model(self, s: Set<Entity>) -> WorldModel {
        WorldModel {
            slots: Seq::new(
                self.slots.len(),
                |i: int|
                    if self.slots[i].live && (exists|e: Entity|
                        s.contains(e) && e.idx == i && e.gen == self.slots[i].gen) {
                        EcsSlot { gen: self.slots[i].gen, live: false }
                    } else {
                        self.slots[i]
                    },
            ),
            stats: self.stats.remove_keys(s),
            composite: self.composite.remove_keys(s),
            health: self.health.remove_keys(s),
            brain: self.brain.remove_keys(s),
            statuses: self.statuses.remove_keys(s),
            desc: self.desc.remove_keys(s),
            item: self.item.remove_keys(s),
            anim: self.anim.remove_keys(s),
            memory: self.memory.remove_keys(s),
            place: self.place.remove_keys(s),
            ..self
        }
    }

    /// All dead entities retired.
    pub open spec fn clean_dead_model(self) -> WorldModel {
        self.removed_all_model(self.dead_set())
    }

    /// The bonus one equip slot contributes to its holder.
    pub open spec fn slot_bonus(self, parent: Entity, slot: Slot) -> (int, int) {
        if exists|x: Entity|
            self.place.contains_key(x) && self.place[x] == Place::In(parent, slot)
                && self.stats.contains_key(x) {
            let x = choose|x: Entity|
                self.place.contains_key(x) && self.place[x] == Place::In(parent, slot)
                    && self.stats.contains_key(x);
            (self.stats[x].power as int, self.stats[x].armor as int)
        } else {
            (0int, 0int)
        }
    }

    /// The bonuses of a sequence of slots, summed.
    pub open spec fn bonus_sum(self, parent: Entity, slots: Seq<Slot>) -> (int, int)
        decreases slots.len(),
    {
        if slots.len() == 0 {
            (0int, 0int)
        } else {
            let rest = self.bonus_sum(parent, slots.drop_last());
            let last = self.slot_bonus(parent, slots.last());
            (rest.0 + last.0, rest.1 + last.1)
        }
    }

    /// The aggregate statistics of an entity recomputed from its base
    /// values and everything equipped on it.
    pub open spec fn rebuild_model(self, parent: Entity) -> WorldModel {
        if self.stats.contains_key(parent) {
            let base = self.stats[parent];
            let b = self.bonus_sum(parent, all_slots());
            WorldModel {
                composite: self.composite.insert(
                    parent,
                    Stats {
                        power: (base.power + b.0) as i32,
                        armor: (base.armor + b.1) as i32,
                        intrinsics: base.intrinsics,
                    },
                ),
                ..self
            }
        } else {
            WorldModel { composite: self.composite.remove(parent), ..self }
        }
    }

    /// Whether an item can go into a slot: holder and item live, slot
    /// free.
    pub open spec fn can_equip(self, e: Entity, parent: Entity, slot: Slot) -> bool {
        self.live(e) && self.live(parent) && !(exists|x: Entity|
            self.place.contains_key(x) && self.place[x] == Place::In(parent, slot))
    }

    /// An item moved into an equip slot, with the holder's aggregate
    /// statistics rebuilt at once.
    pub open spec fn equip_model(self, e: Entity, parent: Entity, slot: Slot) -> WorldModel {
        let m1 = WorldModel { place: self.place.insert(e, Place::In(parent, slot)), ..self };
        m1.rebuild_model(parent)
    }

    /// A fresh field of view written into an entity's map memory: the
    /// seen set replaced, the remembered set only grown.
    pub open spec fn do_fov_model(self, e: Entity) -> WorldModel {
        if !self.memory.contains_key(e) {
            self
        } else {
            match self.loc_of(e) {
                None => self,
                Some(origin) => {
                    let range: int = if origin.z != 0 {
                        7
                    } else {
                        SECTOR_WIDTH as int
                    };
                    let seen = fov_spec(self.terrain, origin, range);
                    WorldModel {
                        memory: self.memory.insert(e, (seen, self.memory[e].1.union(seen))),
                        ..self
                    }
                },
            }
        }
    }
}

/// Taking one more element grows the prefix set by exactly it.
pub proof fn lemma_take_set_step<T>(s: Seq<T>, i: int)
    requires
        0 <= i < s.len(),
    ensures
        s.take(i + 1).to_set() == s.take(i).to_set().insert(s[i]),
{
    assert(s.take(i + 1) =~= s.take(i).push(s[i]));
    assert forall|x: T|
        s.take(i + 1).to_set().contains(x) <==> s.take(i).to_set().insert(s[i]).contains(
            x,
        ) by {
        crate::volume::lemma_push_contains(s.take(i), s[i], x);
    }
    assert(s.take(i + 1).to_set() =~= s.take(i).to_set().insert(s[i]));
}

/// Slot bonuses of well-formed statistics stay within the stat bound,
/// so their sums stay within the slot count times the bound.
pub proof fn lemma_bonus_bound(m: WorldModel, parent: Entity, slots: Seq<Slot>)
    requires
        forall|e: Entity| #[trigger] m.stats.contains_key(e) ==> m.stats[e].wf(),
    ensures
        -(slots.len() as int) * (STAT_BOUND as int) <= m.bonus_sum(parent, slots).0,
        m.bonus_sum(parent, slots).0 <= (slots.len() as int) * (STAT_BOUND as int),
        -(slots.len() as int) * (STAT_BOUND as int) <= m.bonus_sum(parent, slots).1,
        m.bonus_sum(parent, slots).1 <= (slots.len() as int) * (STAT_BOUND as int),
    decreases slots.len(),
{
    if slots.len() == 0 {
    } else {
        lemma_bonus_bound(m, parent, slots.drop_last());
        let sb = m.slot_bonus(parent, slots.last());
        assert(-STAT_BOUND <= sb.0 <= STAT_BOUND && -STAT_BOUND <= sb.1 <= STAT_BOUND);
    }
}

/// Retiring a set of entities kills exactly its live members and
/// revives nothing.
pub proof fn lemma_removed_all_live(m: WorldModel, s: Set<Entity>, e: Entity)
    ensures
        m.removed_all_model(s).live(e) <==> (m.live(e) && !s.contains(e)),
{
    if e.idx < m.slots.len() {
        let i = e.idx as int;
        if m.slots[i].live && m.slots[i].gen == e.gen && s.contains(e) {
            assert(exists|x: Entity| s.contains(x) && x.idx == i && x.gen == m.slots[i].gen);
        }
        if exists|x: Entity| s.contains(x) && x.idx == i && x.gen == m.slots[i].gen {
            let x = choose|x: Entity| s.contains(x) && x.idx == i && x.gen == m.slots[i].gen;
            if m.slots[i].gen == e.gen {
                assert(x == e);
            }
        }
    }
}

/// Retiring the members of a set one at a time lands on retiring the
/// grown set at once.
pub proof fn lemma_removed_all_step(m: WorldModel, s: Set<Entity>, e: Entity)
    ensures
        m.removed_all_model(s).remove_model(e) == m.removed_all_model(s.insert(e)),
{
    let a = m.removed_all_model(s).remove_model(e);
    let b = m.removed_all_model(s.insert(e));
    assert forall|i: int| 0 <= i < m.slots.len() implies a.slots[i] == b.slots[i] by {
        let sl = m.slots[i];
        if i == e.idx as int {
            if exists|x: Entity| s.contains(x) && x.idx == i && x.gen == sl.gen {
                let x = choose|x: Entity| s.contains(x) && x.idx == i && x.gen == sl.gen;
                assert(s.insert(e).contains(x));
            } else if sl.live && sl.gen == e.gen {
                assert(s.insert(e).contains(e));
            }
        } else {
            if exists|x: Entity| s.insert(e).contains(x) && x.idx == i && x.gen == sl.gen {
                let x = choose|x: Entity|
                    s.insert(e).contains(x) && x.idx == i && x.gen == sl.gen;
                assert(x != e);
                assert(s.contains(x));
            }
            if exists|x: Entity| s.contains(x) && x.idx == i && x.gen == sl.gen {
                let x = choose|x: Entity| s.contains(x) && x.idx == i && x.gen == sl.gen;
                assert(s.insert(e).contains(x));
            }
        }
    }
    assert(a.slots =~= b.slots);
    assert(a.stats =~= b.stats);
    assert(a.composite =~= b.composite);
    assert(a.health =~= b.health);
    assert(a.brain =~= b.brain);
    assert(a.statuses =~= b.statuses);
    assert(a.desc =~= b.desc);
    assert(a.item =~= b.item);
    assert(a.anim =~= b.anim);
    assert(a.memory =~= b.memory);
    assert(a.place =~= b.place);
    assert(a =~= b);
}

impl World {
    /// Create an entity from a loadout, unplaced.
    fn inject(&mut self, entity: &Loadout) -> (r: Entity)
        requires
            old(self).wf(),
            entity.wf(),
        ensures
            final(self).wf(),
            final(self).m() == old(self).m().inject_model(*entity).0,
            r == old(self).m().inject_model(*entity).1,
            final(self).m().live(r),
            !old(self).m().live(r),
    {
        let e = self.ecs.make();
        match &entity.stats {
            Some(s) => self.ecs.stats.insert(e, *s),
            None => {},
        }
        match &entity.desc {
            Some(d) => self.ecs.desc.insert(e, d.duplicate()),
            None => {},
        }
        match &entity.brain {
            Some(b) => self.ecs.brain.insert(e, *b),
            None => {},
        }
        match &entity.health {
            Some(h) => self.ecs.health.insert(e, *h),
            None => {},
        }
        match &entity.item {
            Some(it) => self.ecs.item.insert(e, *it),
            None => {},
        }
        if entity.map_memory {
            self.ecs.map_memory.insert(e, MapMemory::new());
        }
        proof {
            if entity.desc is Some {
                assert(self.desc_view() =~= old(self).desc_view().insert(e, entity.desc->0@));
            }
            if entity.map_memory {
                assert(self.memory_view() =~= old(self).memory_view().insert(
                    e,
                    (Set::<Location>::empty(), Set::<Location>::empty()),
                ));
            }
            assert(self.m() =~= old(self).m().inject_model(*entity).0);
        }
        e
    }

    /// Create an entity from a loadout and put it on a cell.
    pub fn spawn(&mut self, entity: &Loadout, loc: Location) -> (r: Entity)
        requires
            old(self).wf(),
            entity.wf(),
            loc.in_bounds(),
        ensures
            final(self).wf(),
            final(self).m() == old(self).m().spawn_model(*entity, loc).0,
            r == old(self).m().spawn_model(*entity, loc).1,
            final(self).m().live(r),
            !old(self).m().live(r),
    {
        let e = self.inject(entity);
        self.place_entity(e, loc);
        proof {
            assert(self.m() =~= old(self).m().spawn_model(*entity, loc).0);
        }
        e
    }

    /// Spawn a transient effect entity on a cell. Its expiry is booked
    /// on the world clock; its animation start on the animation clock.
    pub fn spawn_fx(&mut self, loc: Location, state: AnimState) -> (r: Entity)
        requires
            old(self).wf(),
            old(self).m().clock_room(),
            loc.in_bounds(),
            state.is_transient_s(),
        ensures
            final(self).wf(),
            final(self).m() == old(self).m().spawn_fx_model(loc, state).0,
            r == old(self).m().spawn_fx_model(loc, state).1,
            final(self).m().live(r),
            !old(self).m().live(r),
            final(self).m().anim.contains_key(r),
            final(self).m().anim[r].anim_done_world_tick == Some(
                (old(self).m().tick + FX_HORIZON) as u64,
            ),
    {
        let e = self.ecs.make();
        self.spatial.place(e, loc);
        let anim = Anim {
            state,
            anim_start: self.flags.anim_tick,
            anim_done_world_tick: Some(self.flags.tick + FX_HORIZON),
            tween_from: Location { x: 0, y: 0, z: 0 },
            tween_start: 0,
            tween_duration: 0,
        };
        self.ecs.anim.insert(e, anim);
        proof {
            assert(self.m() =~= old(self).m().spawn_fx_model(loc, state).0);
        }
        e
    }

    /// Advance the animation clock by one frame. Bookkeeping only: no
    /// gameplay state moves.
    pub fn tick_anims(&mut self)
        requires
            old(self).wf(),
            old(self).m().clock_room(),
        ensures
            final(self).wf(),
            final(self).m() == (WorldModel {
                anim_tick: old(self).m().anim_tick + 1,
                ..old(self).m()
            }),
    {
        self.flags.anim_tick = self.flags.anim_tick + 1;
        proof {
            assert(self.m() =~= (WorldModel {
                anim_tick: old(self).m().anim_tick + 1,
                ..old(self).m()
            }));
        }
    }

    /// Remove every entity flagged dead.
    pub fn clean_dead(&mut self)
        requires
            old(self).wf(),
        ensures
            final(self).wf(),
            final(self).m() == old(self).m().clean_dead_model(),
    {
        let ghost m0 = self.m();
        let list = self.ecs.entities();
        let n = list.len();
        let mut i: usize = 0;
        proof {
            assert(m0.dead_set().intersect(list@.take(0).to_set()) =~= Set::<Entity>::empty());
            let s0 = Set::<Entity>::empty();
            assert(m0.removed_all_model(s0).slots =~= m0.slots);
            assert(m0.removed_all_model(s0).stats =~= m0.stats);
            assert(m0.removed_all_model(s0).composite =~= m0.composite);
            assert(m0.removed_all_model(s0).health =~= m0.health);
            assert(m0.removed_all_model(s0).brain =~= m0.brain);
            assert(m0.removed_all_model(s0).statuses =~= m0.statuses);
            assert(m0.removed_all_model(s0).desc =~= m0.desc);
            assert(m0.removed_all_model(s0).item =~= m0.item);
            assert(m0.removed_all_model(s0).anim =~= m0.anim);
            assert(m0.removed_all_model(s0).memory =~= m0.memory);
            assert(m0.removed_all_model(s0).place =~= m0.place);
            assert(m0.removed_all_model(s0) =~= m0);
        }
        while i < n
            invariant
                self.wf(),
                i <= n,
                n == list@.len(),
                forall|e: Entity| #[trigger] list@.contains(e) <==> m0.live(e),
                forall|a: int, b: int| 0 <= a < b < n ==> list@[a] != list@[b],
                self.m() == m0.removed_all_model(
                    m0.dead_set().intersect(list@.take(i as int).to_set()),
                ),
            decreases n - i,
        {
            let e = list[i];
            let ghost s = m0.dead_set().intersect(list@.take(i as int).to_set());
            proof {
                assert(list@.contains(list@[i as int]));
                // The entity is not among the already-processed ones.
                if list@.take(i as int).to_set().contains(e) {
                    let j = choose|j: int|
                        0 <= j < i && list@.take(i as int)[j] == e;
                    assert(list@[j] == e);
                    assert(false);
                }
                assert(!s.contains(e));
                assert(self.m().live(e) == m0.live(e));
                assert(self.m().health.contains_key(e) == m0.health.contains_key(e));
                if m0.health.contains_key(e) {
                    assert(self.m().health[e] == m0.health[e]);
                }
            }
            if !self.is_alive(e) {
                self.remove_entity(e);
                proof {
                    lemma_removed_all_step(m0, s, e);
                    lemma_take_set_step(list@, i as int);
                    assert(m0.dead_set().intersect(list@.take(i + 1).to_set()) =~= s.insert(e));
                }
            } else {
                proof {
                    lemma_take_set_step(list@, i as int);
                    assert(m0.dead_set().intersect(list@.take(i + 1).to_set()) =~= s);
                }
            }
            i += 1;
        }
        proof {
            assert(list@.take(n as int) =~= list@);
            assert forall|x: Entity|
                m0.dead_set().intersect(list@.take(n as int).to_set()).contains(x)
                    <==> m0.dead_set().contains(x) by {
                if m0.dead_set().contains(x) {
                    assert(m0.live(x));
                    assert(list@.contains(x));
                }
            }
            assert(m0.dead_set().intersect(list@.take(n as int).to_set()) =~= m0.dead_set());
        }
    }

    /// Move an item into an equip slot of a holder; the holder's
    /// aggregate statistics are rebuilt at once. Nothing happens unless
    /// both are live and the slot is free.
    pub fn equip_item(&mut self, e: Entity, parent: Entity, slot: Slot) -> (r: bool)
        requires
            old(self).wf(),
        ensures
            final(self).wf(),
            r == old(self).m().can_equip(e, parent, slot),
            final(self).m() == (if old(self).m().can_equip(e, parent, slot) {
                old(self).m().equip_model(e, parent, slot)
            } else {
                old(self).m()
            }),
    {
        if !self.ecs.is_alive(e) || !self.ecs.is_alive(parent) {
            return false;
        }
        if self.spatial.slot_occupied(parent, slot) {
            return false;
        }
        self.spatial.equip(e, parent, slot);
        proof {
            assert(self.m() =~= (WorldModel {
                place: old(self).m().place.insert(e, Place::In(parent, slot)),
                ..old(self).m()
            }));
        }
        self.rebuild_stats(parent);
        true
    }

    /// Recompute the aggregate statistics of an entity from its base
    /// values and everything equipped on it.
    fn rebuild_stats(&mut self, parent: Entity)
        requires
            old(self).wf(),
        ensures
            final(self).wf(),
            final(self).m() == old(self).m().rebuild_model(parent),
    {
        let base = match self.ecs.stats.get(&parent) {
            Some(s) => *s,
            None => {
                let _ = self.ecs.composite_stats.take(&parent);
                proof {
                    assert(self.m() =~= old(self).m().rebuild_model(parent));
                }
                return ;
            },
        };
        let slots = Slot::all();
        let n = slots.len();
        let mut pow: i32 = base.power;
        let mut arm: i32 = base.armor;
        let mut i: usize = 0;
        proof {
            assert(all_slots().take(0) =~= Seq::<Slot>::empty());
        }
        while i < n
            invariant
                self.wf(),
                self == old(self),
                i <= n,
                n == 8,
                slots@ =~= all_slots(),
                self.m().stats.contains_key(parent) && self.m().stats[parent] == base,
                base.wf(),
                pow as int == base.power + self.m().bonus_sum(parent, all_slots().take(i as int)).0,
                arm as int == base.armor + self.m().bonus_sum(parent, all_slots().take(i as int)).1,
            decreases n - i,
        {
            let slot = slots[i];
            let ghost sb = self.m().slot_bonus(parent, slot);
            proof {
                assert(all_slots().take(i + 1).drop_last() =~= all_slots().take(i as int));
                assert(all_slots().take(i + 1).last() == all_slots()[i as int]);
                lemma_bonus_bound(self.m(), parent, all_slots().take(i as int));
                assert(-STAT_BOUND <= sb.0 <= STAT_BOUND && -STAT_BOUND <= sb.1 <= STAT_BOUND);
            }
            match self.spatial.entity_in_slot(parent, slot) {
                Some(x) => {
                    match self.ecs.stats.get(&x) {
                        Some(s) => {
                            proof {
                                let w = choose|w: Entity|
                                    self.m().place.contains_key(w) && self.m().place[w]
                                        == Place::In(parent, slot) && self.m().stats.contains_key(
                                        w,
                                    );
                                assert(w == x);
                                assert(sb == (s.power as int, s.armor as int));
                            }
                            pow = pow + s.power;
                            arm = arm + s.armor;
                        },
                        None => {
                            proof {
                                if exists|w: Entity|
                                    self.m().place.contains_key(w) && self.m().place[w]
                                        == Place::In(parent, slot)
                                        && self.m().stats.contains_key(w) {
                                    let w = choose|w: Entity|
                                        self.m().place.contains_key(w) && self.m().place[w]
                                            == Place::In(parent, slot)
                                            && self.m().stats.contains_key(w);
                                    assert(w == x);
                                    assert(false);
                                }
                                assert(sb == (0int, 0int));
                            }
                        },
                    }
                },
                None => {
                    proof {
                        if exists|w: Entity|
                            self.m().place.contains_key(w) && self.m().place[w] == Place::In(
                                parent,
                                slot,
                            ) && self.m().stats.contains_key(w) {
                            let w = choose|w: Entity|
                                self.m().place.contains_key(w) && self.m().place[w] == Place::In(
                                    parent,
                                    slot,
                                ) && self.m().stats.contains_key(w);
                            assert(false);
                        }
                        assert(sb == (0int, 0int));
                    }
                },
            }
            i += 1;
        }
        proof {
            assert(all_slots().take(n as int) =~= all_slots());
            lemma_bonus_bound(self.m(), parent, all_slots());
        }
        self.ecs.composite_stats.insert(
            parent,
            Stats { power: pow, armor: arm, intrinsics: base.intrinsics },
        );
        proof {
            assert(self.m() =~= old(self).m().rebuild_model(parent));
        }
    }
}

} // verus!

verus! {

impl WorldModel {
    /// Where a shot fired from `cur` along `dir` lands: it flies up to
    /// `fuel` cells and stops before sight-blocking terrain or the edge
    /// of the coordinate space.
    pub open spec fn projected_center(self, cur: Location, dir: Dir6, fuel: nat) -> Location
        decreases fuel,
    {
        if fuel == 0 {
            cur
        } else {
            let next = cur.shifted(dir.delta_s().0, dir.delta_s().1);
            if !next.in_bounds() || terrain_at(self.terrain, next).blocks_shot_s() {
                cur
            } else {
                self.projected_center(next, dir, (fuel - 1) as nat)
            }
        }
    }

    /// A player made from a loadout: brain, empty map memory, the
    /// player handle, and a place on the map.
    pub open spec fn spawn_player_model(self, l: Loadout, loc: Location) -> WorldModel {
        match self.player_live() {
            Some(p) => {
                if self.loc_of(p) is None {
                    WorldModel { place: self.place.insert(p, Place::At(loc)), ..self }
                } else {
                    self
                }
            },
            None => {
                let (m1, e) = self.inject_model(l);
                WorldModel {
                    brain: m1.brain.insert(e, Brain { kind: BrainKind::Player }),
                    memory: m1.memory.insert(
                        e,
                        (Set::<Location>::empty(), Set::<Location>::empty()),
                    ),
                    player: Some(e),
                    place: m1.place.insert(e, Place::At(loc)),
                    ..m1
                }
            },
        }
    }
}

impl World {
    /// Compute field-of-view into the entity's map memory: `seen` is
    /// replaced by exactly the freshly visible set, `remembered` only
    /// grows. A no-op for entities without map memory or without a
    /// place.
    pub fn do_fov(&mut self, e: Entity)
        requires
            old(self).wf(),
        ensures
            final(self).wf(),
            final(self).m() == old(self).m().do_fov_model(e),
    {
        if !self.ecs.map_memory.contains(&e) {
            return ;
        }
        let origin = match self.location(e) {
            Some(origin) => origin,
            None => {
                return ;
            },
        };
        let range: u32 = if origin.is_underground() {
            7
        } else {
            SECTOR_WIDTH as u32
        };
        let fov = crate::fov::fov_from(&self.terrain, origin, range);
        let mm = match self.ecs.map_memory.take(&e) {
            Some(mm) => mm,
            None => {
                proof {
                    assert(false);
                }
                MapMemory::new()
            },
        };
        let mut seen = LocSet::new();
        let mut remembered = mm.remembered;
        let n = fov.len();
        let mut i: usize = 0;
        let ghost seen_target = fov_spec(old(self).m().terrain, origin, range as int);
        let ghost rem0 = remembered@;
        while i < n
            invariant
                i <= n,
                n == fov@.len(),
                seen.wf(),
                remembered.wf(),
                forall|l: Location| #[trigger]
                    seen@.contains(l) <==> (exists|j: int| 0 <= j < i && fov@[j] == l),
                forall|l: Location| #[trigger]
                    remembered@.contains(l) <==> (rem0.contains(l) || (exists|j: int|
                        0 <= j < i && fov@[j] == l)),
            decreases n - i,
        {
            let loc = fov[i];
            seen.insert(loc);
            remembered.insert(loc);
            proof {
                assert forall|l: Location| #[trigger]
                    seen@.contains(l) <==> (exists|j: int| 0 <= j < i + 1 && fov@[j] == l) by {
                    if l == fov@[i as int] {
                    } else {
                    }
                }
                assert forall|l: Location| #[trigger]
                    remembered@.contains(l) <==> (rem0.contains(l) || (exists|j: int|
                        0 <= j < i + 1 && fov@[j] == l)) by {
                    if l == fov@[i as int] {
                    } else {
                    }
                }
            }
            i += 1;
        }
        proof {
            assert forall|l: Location| #[trigger] seen@.contains(l) <==> seen_target.contains(
                l,
            ) by {
                if exists|j: int| 0 <= j < n && fov@[j] == l {
                    let j = choose|j: int| 0 <= j < n && fov@[j] == l;
                    assert(fov@.contains(l));
                }
                if seen_target.contains(l) {
                    assert(fov@.contains(l));
                    let j = choose|j: int| 0 <= j < fov@.len() && fov@[j] == l;
                }
            }
            assert(seen@ =~= seen_target);
            assert forall|l: Location| #[trigger]
                remembered@.contains(l) <==> (rem0.contains(l) || seen_target.contains(l)) by {
                if exists|j: int| 0 <= j < n && fov@[j] == l {
                    let j = choose|j: int| 0 <= j < n && fov@[j] == l;
                    assert(fov@.contains(l));
                }
                if seen_target.contains(l) {
                    assert(fov@.contains(l));
                    let j = choose|j: int| 0 <= j < fov@.len() && fov@[j] == l;
                }
            }
            assert(remembered@ =~= rem0.union(seen_target));
        }
        self.ecs.map_memory.insert(e, MapMemory { seen, remembered });
        proof {
            assert(self.memory_view() =~= old(self).memory_view().insert(
                e,
                (seen_target, rem0.union(seen_target)),
            ));
            assert(self.m() =~= old(self).m().do_fov_model(e));
        }
    }

    /// What the player knows of a cell: freshly seen, only remembered,
    /// or nothing.
    pub fn fov_status(&self, loc: Location) -> (r: Option<FovStatus>)
        requires
            self.wf(),
        ensures
            r == (match self.m().player_live() {
                Some(p) => if self.m().memory.contains_key(p) {
                    if self.m().memory[p].0.contains(loc) {
                        Some(FovStatus::Seen)
                    } else if self.m().memory[p].1.contains(loc) {
                        Some(FovStatus::Remembered)
                    } else {
                        None::<FovStatus>
                    }
                } else {
                    None::<FovStatus>
                },
                None => None::<FovStatus>,
            }),
    {
        let p = match self.player() {
            Some(p) => p,
            None => {
                return None;
            },
        };
        match self.ecs.map_memory.get(&p) {
            Some(mm) => {
                if mm.seen.contains(loc) {
                    Some(FovStatus::Seen)
                } else if mm.remembered.contains(loc) {
                    Some(FovStatus::Remembered)
                } else {
                    None
                }
            },
            None => None,
        }
    }

    /// The locations an entity currently sees, without repetition.
    pub fn seen_of(&self, e: Entity) -> (r: Vec<Location>)
        requires
            self.wf(),
        ensures
            self.m().memory.contains_key(e) ==> (forall|l: Location|
                r@.contains(l) <==> self.m().memory[e].0.contains(l)),
            !self.m().memory.contains_key(e) ==> r@.len() == 0,
            forall|i: int, j: int| 0 <= i < j < r@.len() ==> r@[i] != r@[j],
    {
        match self.ecs.map_memory.get(&e) {
            Some(mm) => mm.seen.to_vec(),
            None => Vec::new(),
        }
    }

    /// The locations an entity has ever seen, without repetition.
    pub fn remembered_of(&self, e: Entity) -> (r: Vec<Location>)
        requires
            self.wf(),
        ensures
            self.m().memory.contains_key(e) ==> (forall|l: Location|
                r@.contains(l) <==> self.m().memory[e].1.contains(l)),
            !self.m().memory.contains_key(e) ==> r@.len() == 0,
            forall|i: int, j: int| 0 <= i < j < r@.len() ==> r@[i] != r@[j],
    {
        match self.ecs.map_memory.get(&e) {
            Some(mm) => mm.remembered.to_vec(),
            None => Vec::new(),
        }
    }

    /// The cells within a hex radius of an origin.
    pub fn sphere_volume(&self, origin: Location, radius: u32) -> (v: Volume)
        requires
            origin.in_bounds(),
            radius <= 64,
        ensures
            v.wf(),
            forall|t: Location| v.0@.contains(t) <==> sphere_spec(origin, radius as int).contains(t),
            v.0@ == sphere_cells(origin, radius as int),
    {
        Volume::sphere(origin, radius)
    }

    /// Where a shot fired from `origin` along `dir` lands, at most
    /// `range` cells out.
    pub fn projected_explosion_center(&self, origin: Location, dir: Dir6, range: u32) -> (r:
        Location)
        requires
            self.wf(),
            origin.in_bounds(),
            range <= 64,
        ensures
            r == self.m().projected_center(origin, dir, range as nat),
            r.in_bounds(),
    {
        let mut cur = origin;
        let mut k: u32 = 0;
        while k < range
            invariant
                self.wf(),
                k <= range,
                range <= 64,
                cur.in_bounds(),
                self.m().projected_center(origin, dir, range as nat) == self.m().projected_center(
                    cur,
                    dir,
                    (range - k) as nat,
                ),
            decreases range - k,
        {
            let (dx, dy) = dir.delta();
            let next = cur.offset(dx, dy);
            let inb = -crate::location::MAP_BOUND <= next.x && next.x
                <= crate::location::MAP_BOUND && -crate::location::MAP_BOUND <= next.y && next.y
                <= crate::location::MAP_BOUND;
            if !inb || self.terrain.at(next).blocks_shot() {
                proof {
                    assert(self.m().projected_center(cur, dir, (range - k) as nat) == cur);
                }
                return cur;
            }
            cur = next;
            k += 1;
        }
        cur
    }

    /// Set the player's start position. An existing placed player stays
    /// put; an existing unplaced player teleports here; otherwise the
    /// initial player entity is created from the loadout, given a
    /// player brain and empty map memory, and placed here.
    pub fn spawn_player(&mut self, loc: Location, spec: &Loadout)
        requires
            old(self).wf(),
            spec.wf(),
            loc.in_bounds(),
        ensures
            final(self).wf(),
            final(self).m() == old(self).m().spawn_player_model(*spec, loc),
    {
        match self.player() {
            Some(player) => {
                match self.location(player) {
                    None => {
                        self.place_entity(player, loc);
                        proof {
                            assert(self.m() =~= old(self).m().spawn_player_model(*spec, loc));
                        }
                    },
                    Some(_) => {
                        proof {
                            assert(self.m() =~= old(self).m().spawn_player_model(*spec, loc));
                        }
                    },
                }
            },
            None => {
                let player = self.inject(spec);
                self.ecs.brain.insert(player, Brain::player());
                self.ecs.map_memory.insert(player, MapMemory::new());
                self.flags.player = Some(player);
                proof {
                    assert(self.ecs.anim@.contains_key(player) == false);
                }
                self.spatial.place(player, loc);
                proof {
                    assert(self.memory_view() =~= old(self).m().inject_model(
                        *spec,
                    ).0.memory.insert(
                        player,
                        (Set::<Location>::empty(), Set::<Location>::empty()),
                    ));
                    assert(self.m() =~= old(self).m().spawn_player_model(*spec, loc));
                }
            },
        }
    }
}

} // verus!

verus! {

/// The hex radius a lightning bolt reaches.
pub const LIGHTNING_RANGE: u32 = 4;

/// How far a fireball or a confusion bolt flies.
pub const BOLT_RANGE: u32 = 9;

/// The blast radius of a fireball.
pub const FIREBALL_RADIUS: u32 = 1;

impl WorldModel {
    /// The mobs a lightning bolt from `origin` may strike: any mob
    /// within its radius other than the caster.
    pub open spec fn bolt_targets(self, origin: Location, caster: Entity) -> Set<Entity> {
        Set::new(
            |x: Entity|
                self.is_mob(x) && x != caster && self.place.contains_key(x) && self.place[x] is At
                    && sphere_spec(origin, LIGHTNING_RANGE as int).contains(self.place[x]->At_0),
        )
    }

    /// One explosion effect entity on a cell, its animation delayed by
    /// the projectile's flight; cells off the map get none.
    pub open spec fn explosion_at(self, pt: Location) -> WorldModel {
        if pt.in_bounds() {
            let (m1, e) = self.spawn_fx_model(pt, AnimState::Explosion);
            WorldModel {
                anim: m1.anim.insert(
                    e,
                    Anim {
                        state: AnimState::Explosion,
                        anim_start: (self.anim_tick + PROJECTILE_TIME) as u64,
                        anim_done_world_tick: Some((self.tick + FX_HORIZON) as u64),
                        tween_from: Location { x: 0i32, y: 0i32, z: 0i32 },
                        tween_start: 0u64,
                        tween_duration: 0u32,
                    },
                ),
                ..m1
            }
        } else {
            self
        }
    }

    /// Explosion effect entities over a sequence of cells, in order.
    pub open spec fn spawn_explosions_model(self, cells: Seq<Location>) -> WorldModel
        decreases cells.len(),
    {
        if cells.len() == 0 {
            self
        } else {
            self.spawn_explosions_model(cells.drop_last()).explosion_at(cells.last())
        }
    }

    /// The projectile effect entity of a fireball: spawned at the
    /// blast center, tweening from the caster's cell.
    pub open spec fn projectile_model(self, center: Location, origin: Location) -> WorldModel {
        let (m1, e) = self.spawn_fx_model(center, AnimState::Firespell);
        WorldModel {
            anim: m1.anim.insert(
                e,
                Anim {
                    state: AnimState::Firespell,
                    anim_start: self.anim_tick as u64,
                    anim_done_world_tick: Some((self.tick + FX_HORIZON) as u64),
                    tween_from: origin,
                    tween_start: self.anim_tick as u64,
                    tween_duration: PROJECTILE_TIME as u32,
                },
            ),
            ..m1
        }
    }

    /// Everything a resolved targeted item ability does, from the
    /// caster's cell: deterministic in the world state.
    pub open spec fn targeted_model(self, e: Entity, item: Entity, a: Ability, dir: Dir6, origin: Location) -> WorldModel {
        match a {
            Ability::Fireball => {
                let center = self.projected_center(origin, dir, BOLT_RANGE as nat);
                let cells = sphere_cells(center, FIREBALL_RADIUS as int);
                let m1 = self.apply_effect_model(
                    Effect::Hit { amount: 6, damage: Damage::Fire },
                    cells,
                );
                let m2 = m1.spawn_explosions_model(cells);
                let m3 = m2.projectile_model(center, origin);
                m3.drain_charge_model(item)
            },
            Ability::Confuse => {
                let center = self.projected_center(origin, dir, BOLT_RANGE as nat);
                let m1 = self.apply_effect_model(Effect::Confuse, seq![center]);
                m1.drain_charge_model(item)
            },
            Ability::LightningBolt => self,
        }
    }
}

/// Resolving an effect moves no clock, no allocator slot, no animation
/// row and no item.
pub proof fn lemma_apply_keeps_frame(m: WorldModel, effect: Effect, locs: Seq<Location>)
    ensures
        m.apply_effect_model(effect, locs).tick == m.tick,
        m.apply_effect_model(effect, locs).anim_tick == m.anim_tick,
        m.apply_effect_model(effect, locs).slots == m.slots,
        m.apply_effect_model(effect, locs).anim == m.anim,
        m.apply_effect_model(effect, locs).item == m.item,
        m.apply_effect_model(effect, locs).place == m.place,
        m.apply_effect_model(effect, locs).terrain == m.terrain,
    decreases locs.len(),
{
    if locs.len() == 0 {
    } else {
        lemma_apply_keeps_frame(m, effect, locs.drop_last());
    }
}

impl World {
    /// Use a non-item ability. No such abilities exist yet, so the
    /// actor can never act this way.
    #[allow(unused_variables)]
    pub fn use_ability(&mut self, e: Entity, a: Ability) -> (r: ActionOutcome)
        requires
            old(self).wf(),
        ensures
            final(self).wf(),
            r == None::<bool>,
            final(self).m() == old(self).m(),
    {
        None
    }

    /// Use a targeted non-item ability. No such abilities exist yet,
    /// so the actor can never act this way.
    #[allow(unused_variables)]
    pub fn use_targeted_ability(&mut self, e: Entity, a: Ability, dir: Dir6) -> (r: ActionOutcome)
        requires
            old(self).wf(),
        ensures
            final(self).wf(),
            r == None::<bool>,
            final(self).m() == old(self).m(),
    {
        None
    }

    /// Use an untargeted ability carried by an item. Gated on the item
    /// having the ability; on gate failure nothing changes at all.
    /// A resolved lightning bolt strikes one random eligible mob; with
    /// nobody in range it fizzles. Either way one charge drains and the
    /// turn is consumed.
    pub fn use_item_ability(&mut self, e: Entity, item: Entity, a: Ability) -> (r: ActionOutcome)
        requires
            old(self).wf(),
            !a.is_targeted_s(),
        ensures
            final(self).wf(),
            !old(self).m().has_ability_model(item, a) ==> r == None::<bool> && final(self).m()
                == old(self).m(),
            old(self).m().has_ability_model(item, a) && old(self).m().loc_of(e) is None ==> r
                == None::<bool> && final(self).m() == old(self).m(),
            (old(self).m().has_ability_model(item, a) && old(self).m().loc_of(e) is Some) ==> {
                let origin = old(self).m().loc_of(e)->0;
                let tg = old(self).m().bolt_targets(origin, e);
                &&& r == Some(true)
                &&& (tg =~= Set::<Entity>::empty() ==> final(self).m() == old(self).m().with_msg(
                    MsgM::Text("The spell fizzles."@),
                ).drain_charge_model(item))
                &&& (!(tg =~= Set::<Entity>::empty()) ==> exists|t: Entity|
                    tg.contains(t) && final(self).m() == old(self).m().with_msg(
                        MsgM::Text("There is a peal of thunder."@),
                    ).apply_effect_model(
                        Effect::Hit { amount: 12, damage: Damage::Electricity },
                        seq![old(self).m().loc_of(t)->0],
                    ).drain_charge_model(item))
            },
    {
        if !self.has_ability(item, a) {
            return None;
        }
        let origin = match self.location(e) {
            Some(o) => o,
            None => {
                return None;
            },
        };
        match a {
            Ability::LightningBolt => {
                let vol = self.sphere_volume(origin, LIGHTNING_RANGE);
                let nc = vol.0.len();
                let mut targets: Vec<Entity> = Vec::new();
                let mut ci: usize = 0;
                while ci < nc
                    invariant
                        self.wf(),
                        self == old(self),
                        ci <= nc,
                        nc == vol.0@.len(),
                        forall|t: Location|
                            vol.0@.contains(t) <==> sphere_spec(
                                origin,
                                LIGHTNING_RANGE as int,
                            ).contains(t),
                        forall|x: Entity| #[trigger]
                            targets@.contains(x) <==> ((exists|k: int|
                                0 <= k < ci && self.m().place.contains_key(x) && self.m().place[x]
                                    == Place::At(vol.0@[k])) && self.m().is_mob(x) && x != e),
                    decreases nc - ci,
                {
                    let cell = vol.0[ci];
                    let es = self.entities_at(cell);
                    let ne = es.len();
                    let mut ei: usize = 0;
                    while ei < ne
                        invariant
                            self.wf(),
                            self == old(self),
                            ei <= ne,
                            ne == es@.len(),
                            ci < nc,
                            nc == vol.0@.len(),
                            cell == vol.0@[ci as int],
                            forall|x: Entity|
                                es@.contains(x) <==> (self.m().place.contains_key(x)
                                    && self.m().place[x] == Place::At(cell)),
                            forall|x: Entity| #[trigger]
                                targets@.contains(x) <==> (((exists|k: int|
                                    0 <= k < ci && self.m().place.contains_key(x)
                                        && self.m().place[x] == Place::At(vol.0@[k])) || (exists|
                                    j: int,
                                |
                                    0 <= j < ei && es@[j] == x)) && self.m().is_mob(x) && x != e),
                        decreases ne - ei,
                    {
                        let x = es[ei];
                        proof {
                            assert(es@.contains(es@[ei as int]));
                        }
                        if self.is_mob(x) && !x.keq(&e) {
                            let ghost t0 = targets@;
                            targets.push(x);
                            proof {
                                assert forall|y: Entity| #[trigger]
                                    targets@.contains(y) <==> (((exists|k: int|
                                        0 <= k < ci && self.m().place.contains_key(y)
                                            && self.m().place[y] == Place::At(vol.0@[k])) || (
                                    exists|j: int| 0 <= j < ei + 1 && es@[j] == y))
                                        && self.m().is_mob(y) && y != e) by {
                                    crate::volume::lemma_push_contains(t0, x, y);
                                    if y == x {
                                        assert(es@[ei as int] == y);
                                    }
                                }
                            }
                        } else {
                            proof {
                                assert forall|y: Entity| #[trigger]
                                    targets@.contains(y) <==> (((exists|k: int|
                                        0 <= k < ci && self.m().place.contains_key(y)
                                            && self.m().place[y] == Place::At(vol.0@[k])) || (
                                    exists|j: int| 0 <= j < ei + 1 && es@[j] == y))
                                        && self.m().is_mob(y) && y != e) by {
                                    if exists|j: int| 0 <= j < ei + 1 && es@[j] == y {
                                        let j = choose|j: int| 0 <= j < ei + 1 && es@[j] == y;
                                        if j == ei {
                                            assert(y == x);
                                        }
                                    }
                                }
                            }
                        }
                        ei += 1;
                    }
                    proof {
                        assert forall|x: Entity| #[trigger]
                            targets@.contains(x) <==> ((exists|k: int|
                                0 <= k < ci + 1 && self.m().place.contains_key(x)
                                    && self.m().place[x] == Place::At(vol.0@[k])) && self.m().is_mob(
                                x,
                            ) && x != e) by {
                            if exists|j: int| 0 <= j < ne && es@[j] == x {
                                let j = choose|j: int| 0 <= j < ne && es@[j] == x;
                                assert(es@.contains(x));
                            }
                            if (exists|k: int|
                                0 <= k < ci + 1 && self.m().place.contains_key(x)
                                    && self.m().place[x] == Place::At(vol.0@[k])) && self.m().is_mob(
                                x,
                            ) && x != e {
                                let k = choose|k: int|
                                    0 <= k < ci + 1 && self.m().place.contains_key(x)
                                        && self.m().place[x] == Place::At(vol.0@[k]);
                                if k == ci {
                                    assert(es@.contains(x));
                                    let j = choose|j: int| 0 <= j < es@.len() && es@[j] == x;
                                }
                            }
                        }
                    }
                    ci += 1;
                }
                let ghost tg = old(self).m().bolt_targets(origin, e);
                proof {
                    assert forall|x: Entity| #[trigger] targets@.contains(x) <==> tg.contains(
                        x,
                    ) by {
                        if targets@.contains(x) {
                            let k = choose|k: int|
                                0 <= k < nc && self.m().place.contains_key(x) && self.m().place[x]
                                    == Place::At(vol.0@[k]);
                            assert(vol.0@.contains(vol.0@[k]));
                        }
                        if tg.contains(x) {
                            assert(vol.0@.contains(self.m().place[x]->At_0));
                            let k = choose|k: int|
                                0 <= k < vol.0@.len() && vol.0@[k] == self.m().place[x]->At_0;
                        }
                    }
                }
                if targets.len() > 0 {
                    let idx = rng_below(&mut self.rng, targets.len());
                    let t = targets[idx];
                    proof {
                        assert(targets@.contains(targets@[idx as int]));
                        assert(tg.contains(t));
                    }
                    self.push_msg(Msg::Text("There is a peal of thunder.".to_owned()));
                    let tloc = match self.location(t) {
                        Some(l) => l,
                        None => {
                            proof {
                                assert(false);
                            }
                            origin
                        },
                    };
                    let pv = Volume::point(tloc);
                    self.apply_effect(
                        &(Effect::Hit { amount: 12, damage: Damage::Electricity }),
                        &pv,
                        Some(e),
                    );
                    self.drain_charge(item);
                    proof {
                        assert(pv.0@ =~= seq![old(self).m().loc_of(t)->0]);
                    }
                    Some(true)
                } else {
                    proof {
                        if exists|x: Entity| tg.contains(x) {
                            let x = choose|x: Entity| tg.contains(x);
                            assert(targets@.contains(x));
                        }
                        assert(tg =~= Set::<Entity>::empty());
                    }
                    self.push_msg(Msg::Text("The spell fizzles.".to_owned()));
                    self.drain_charge(item);
                    Some(true)
                }
            },
            _ => {
                proof {
                    assert(false);
                }
                None
            },
        }
    }

    /// Use a targeted ability carried by an item, aimed along a
    /// direction. Gated on the item having the ability; on gate failure
    /// nothing changes at all. A fireball flies out, explodes over its
    /// blast sphere and leaves effect entities; a confusion bolt
    /// confuses whatever holds the cell it lands on. Either way one
    /// charge drains and the turn is consumed.
    pub fn use_targeted_item_ability(&mut self, e: Entity, item: Entity, a: Ability, dir: Dir6) -> (r:
        ActionOutcome)
        requires
            old(self).wf(),
            a.is_targeted_s(),
            old(self).m().clock_room(),
        ensures
            final(self).wf(),
            !old(self).m().has_ability_model(item, a) ==> r == None::<bool> && final(self).m()
                == old(self).m(),
            old(self).m().has_ability_model(item, a) && old(self).m().loc_of(e) is None ==> r
                == None::<bool> && final(self).m() == old(self).m(),
            (old(self).m().has_ability_model(item, a) && old(self).m().loc_of(e) is Some) ==> r
                == Some(true) && final(self).m() == old(self).m().targeted_model(
                e,
                item,
                a,
                dir,
                old(self).m().loc_of(e)->0,
            ),
    {
        if !self.has_ability(item, a) {
            return None;
        }
        let origin = match self.location(e) {
            Some(o) => o,
            None => {
                return None;
            },
        };
        match a {
            Ability::Fireball => {
                let center = self.projected_explosion_center(origin, dir, BOLT_RANGE);
                let volume = self.sphere_volume(center, FIREBALL_RADIUS);
                self.apply_effect(
                    &(Effect::Hit { amount: 6, damage: Damage::Fire }),
                    &volume,
                    Some(e),
                );
                proof {
                    lemma_apply_keeps_frame(
                        old(self).m(),
                        Effect::Hit { amount: 6, damage: Damage::Fire },
                        volume.0@,
                    );
                }
                let ghost m1 = self.m();
                let nv = volume.0.len();
                let mut vi: usize = 0;
                proof {
                    assert(m1.spawn_explosions_model(volume.0@.take(0)) =~= m1);
                }
                while vi < nv
                    invariant
                        self.wf(),
                        vi <= nv,
                        nv == volume.0@.len(),
                        self.m() == m1.spawn_explosions_model(volume.0@.take(vi as int)),
                        self.m().tick == m1.tick,
                        self.m().anim_tick == m1.anim_tick,
                        m1.clock_room(),
                    decreases nv - vi,
                {
                    let pt = volume.0[vi];
                    proof {
                        assert(volume.0@.take(vi + 1).drop_last() =~= volume.0@.take(vi as int));
                        assert(volume.0@.take(vi + 1).last() == volume.0@[vi as int]);
                    }
                    let inb = -crate::location::MAP_BOUND <= pt.x && pt.x
                        <= crate::location::MAP_BOUND && -crate::location::MAP_BOUND <= pt.y
                        && pt.y <= crate::location::MAP_BOUND;
                    if inb {
                        let fx = self.spawn_fx(pt, AnimState::Explosion);
                        let anim0 = match self.ecs.anim.get(&fx) {
                            Some(anim) => *anim,
                            None => {
                                proof {
                                    assert(false);
                                }
                                Anim::default()
                            },
                        };
                        self.ecs.anim.insert(
                            fx,
                            Anim { anim_start: anim0.anim_start + PROJECTILE_TIME, ..anim0 },
                        );
                        proof {
                            let ghost mid = m1.spawn_explosions_model(volume.0@.take(vi as int));
                            assert(self.m() =~= mid.explosion_at(pt));
                        }
                    }
                    vi += 1;
                }
                proof {
                    assert(volume.0@.take(nv as int) =~= volume.0@);
                }
                let projectile = self.spawn_fx(center, AnimState::Firespell);
                let panim = match self.ecs.anim.get(&projectile) {
                    Some(anim) => *anim,
                    None => {
                        proof {
                            assert(false);
                        }
                        Anim::default()
                    },
                };
                self.ecs.anim.insert(
                    projectile,
                    Anim {
                        tween_from: origin,
                        tween_start: panim.anim_start,
                        tween_duration: PROJECTILE_TIME as u32,
                        ..panim
                    },
                );
                proof {
                    let ghost m2 = m1.spawn_explosions_model(volume.0@);
                    assert(self.m() =~= m2.projectile_model(center, origin));
                }
                self.drain_charge(item);
                proof {
                    assert(volume.0@ == sphere_cells(center, FIREBALL_RADIUS as int));
                    assert(self.m() =~= old(self).m().targeted_model(e, item, a, dir, origin));
                }
                Some(true)
            },
            Ability::Confuse => {
                let center = self.projected_explosion_center(origin, dir, BOLT_RANGE);
                let pv = Volume::point(center);
                self.apply_effect(&Effect::Confuse, &pv, Some(e));
                self.drain_charge(item);
                proof {
                    assert(pv.0@ =~= seq![center]);
                    assert(self.m() =~= old(self).m().targeted_model(e, item, a, dir, origin));
                }
                Some(true)
            },
            Ability::LightningBolt => {
                proof {
                    assert(false);
                }
                None
            },
        }
    }
}

} // verus!

verus! {

/// Whether an animation row says its entity is due for destruction at
/// the given world tick.
pub open spec fn anim_expired(a: Anim, tick: int) -> bool {
    a.anim_done_world_tick is Some && a.anim_done_world_tick->0 <= tick
}

/// What one simulation turn guarantees: the tick advances by exactly
/// one, and among the entities that carried an animation row, exactly
/// the unexpired ones survive, with their rows untouched.
pub open spec fn tick_step_ok(pre: WorldModel, post: WorldModel) -> bool {
    &&& post.tick == pre.tick + 1
    &&& forall|e: Entity| #[trigger]
        pre.anim.contains_key(e) && pre.live(e) ==> (post.live(e) <==> !anim_expired(
            pre.anim[e],
            post.tick,
        ))
    &&& forall|e: Entity| #[trigger]
        pre.anim.contains_key(e) && pre.live(e) && post.live(e) ==> post.anim.contains_key(e)
            && post.anim[e] == pre.anim[e]
    &&& slots_mono(pre.slots, post.slots)
}

/// Allocator slots never regress: no slot loses a generation, and no
/// entity handle comes back to life at the same generation.
pub open spec fn slots_mono(pre: Seq<EcsSlot>, post: Seq<EcsSlot>) -> bool {
    &&& pre.len() <= post.len()
    &&& forall|i: int| 0 <= i < pre.len() ==> (#[trigger] post[i]).gen >= pre[i].gen
    &&& forall|i: int|
        0 <= i < pre.len() && (#[trigger] post[i]).gen == pre[i].gen && post[i].live
            ==> pre[i].live
}

/// Slot monotonicity chains.
pub proof fn lemma_slots_mono_trans(a: Seq<EcsSlot>, b: Seq<EcsSlot>, c: Seq<EcsSlot>)
    requires
        slots_mono(a, b),
        slots_mono(b, c),
    ensures
        slots_mono(a, c),
{
    assert forall|i: int|
        0 <= i < a.len() && (#[trigger] c[i]).gen == a[i].gen && c[i].live implies a[i].live by {
        assert(b[i].gen >= a[i].gen && c[i].gen >= b[i].gen);
    }
}

impl WorldModel {
    /// Entities whose animation row has expired at the current tick.
    pub open spec fn expired_set(self) -> Set<Entity> {
        Set::new(
            |e: Entity|
                self.anim.contains_key(e) && self.live(e) && anim_expired(self.anim[e], self.tick),
        )
    }

    /// The deterministic core of a melee strike along a direction: the
    /// world after, and whether a blow landed.
    pub open spec fn melee_model(self, e: Entity, dir: Dir6) -> (WorldModel, bool) {
        match self.loc_of(e) {
            None => (self, false),
            Some(o) => {
                let t = o.shifted(dir.delta_s().0, dir.delta_s().1);
                match self.mob_at(t) {
                    Some(tgt) => {
                        let p = self.power_of(e);
                        let amount: u32 = if p < 0 {
                            0u32
                        } else if p > 0xFFFF {
                            0xFFFFu32
                        } else {
                            p as u32
                        };
                        (self.damage_model(tgt, amount, Damage::Physical), true)
                    },
                    None => (self, false),
                }
            },
        }
    }
}

/// What a confused stumble can do: nothing, or one step to an adjacent
/// cell.
pub open spec fn confused_move_rel(pre: WorldModel, post: WorldModel, e: Entity) -> bool {
    post == pre || (exists|d: Dir6|
        pre.loc_of(e) is Some && post == (WorldModel {
            place: pre.place.insert(
                e,
                Place::At(
                    (pre.loc_of(e)->0).shifted(d.delta_s().0, d.delta_s().1),
                ),
            ),
            ..pre
        }))
}

/// One heartbeat's countdown of a status span.
pub open spec fn dec_span(c: u32) -> u32 {
    if c > 0 {
        (c - 1) as u32
    } else {
        0u32
    }
}

/// The fields one creature's turn can never touch.
pub open spec fn turn_frame(pre: WorldModel, post: WorldModel) -> bool {
    &&& post.tick == pre.tick
    &&& post.anim_tick == pre.anim_tick
    &&& post.slots == pre.slots
    &&& post.anim == pre.anim
    &&& post.brain == pre.brain
    &&& post.item == pre.item
    &&& post.desc == pre.desc
    &&& post.memory == pre.memory
    &&& post.stats == pre.stats
    &&& post.composite == pre.composite
    &&& post.terrain == pre.terrain
    &&& post.area == pre.area
    &&& post.player == pre.player
    &&& post.forms == pre.forms
    &&& forall|x: Entity| post.health.contains_key(x) == pre.health.contains_key(x)
}

impl WorldModel {
    /// Some registry form can hatch in the current area.
    pub open spec fn hatch_possible(self) -> bool {
        exists|i: int|
            0 <= i < self.forms.len() && (#[trigger] self.forms[i]).weight_s() > 0 && (AreaSpec {
                biome: self.forms[i].habitat,
                depth: self.forms[i].min_depth,
            }).can_hatch_in_s(self.area)
    }

    /// The component rows of an entity are exactly those a loadout
    /// grants (hit points judged by presence only: combat may spend
    /// them later in the same turn).
    pub open spec fn rows_match(self, e: Entity, l: Loadout) -> bool {
        &&& self.stats.contains_key(e) == l.stats is Some
        &&& (l.stats is Some ==> self.stats[e] == l.stats->0)
        &&& self.brain.contains_key(e) == l.brain is Some
        &&& (l.brain is Some ==> self.brain[e] == l.brain->0)
        &&& self.health.contains_key(e) == l.health is Some
        &&& self.item.contains_key(e) == l.item is Some
        &&& (l.item is Some ==> self.item[e] == l.item->0)
        &&& self.desc.contains_key(e) == l.desc is Some
        &&& (l.desc is Some ==> self.desc[e] == l.desc->0@)
        &&& self.memory.contains_key(e) == l.map_memory
    }
}

/// The form at an index may spawn: positive weight, habitat allowed.
pub open spec fn form_eligible(m: WorldModel, i: int) -> bool {
    0 <= i < m.forms.len() && m.forms[i].weight_s() > 0 && (AreaSpec {
        biome: m.forms[i].habitat,
        depth: m.forms[i].min_depth,
    }).can_hatch_in_s(m.area)
}

/// What holds of every creature the spawn step hatches, judged against
/// the world at the start of the turn: it is built from a registry form
/// that can hatch here, and stands on a walkable cell that was
/// unoccupied and within the spawn box around the player.
pub open spec fn new_mob_ok(pre: WorldModel, post: WorldModel, e: Entity) -> bool {
    &&& exists|i: int|
        0 <= i < pre.forms.len() && (#[trigger] pre.forms[i]).weight_s() > 0 && (AreaSpec {
            biome: pre.forms[i].habitat,
            depth: pre.forms[i].min_depth,
        }).can_hatch_in_s(pre.area) && post.rows_match(e, pre.forms[i].loadout)
    &&& post.place.contains_key(e) && post.place[e] is At
    &&& {
        let loc = post.place[e]->At_0;
        &&& !terrain_at(pre.terrain, loc).blocks_walk_s()
        &&& pre.mob_at(loc) is None
        &&& pre.player_live() is Some
        &&& pre.loc_of(pre.player_live()->0) is Some
        &&& crate::location::iabs(loc.x - (pre.loc_of(pre.player_live()->0)->0).x) <= 10
        &&& crate::location::iabs(loc.y - (pre.loc_of(pre.player_live()->0)->0).y) <= 10
        &&& loc.z == (pre.loc_of(pre.player_live()->0)->0).z
    }
}

impl World {
    /// The entity spends its action waiting.
    #[allow(unused_variables)]
    pub fn idle(&mut self, e: Entity) -> (r: ActionOutcome)
        requires
            old(self).wf(),
        ensures
            final(self).wf(),
            r == Some(true),
            final(self).m() == old(self).m(),
    {
        Some(true)
    }

    /// Stumble one step in a random direction, if the cell there is
    /// open.
    fn confused_move(&mut self, e: Entity)
        requires
            old(self).wf(),
        ensures
            final(self).wf(),
            confused_move_rel(old(self).m(), final(self).m(), e),
    {
        let origin = match self.location(e) {
            Some(o) => o,
            None => {
                return ;
            },
        };
        let dirs = Dir6::all();
        let di = rng_below(&mut self.rng, 6);
        let d = dirs[di];
        let (dx, dy) = d.delta();
        let next = origin.offset(dx, dy);
        let inb = -crate::location::MAP_BOUND <= next.x && next.x <= crate::location::MAP_BOUND
            && -crate::location::MAP_BOUND <= next.y && next.y <= crate::location::MAP_BOUND;
        if inb && !self.terrain.at(next).blocks_walk() {
            match self.mob_at(next) {
                None => {
                    self.place_entity(e, next);
                    proof {
                        assert(final(self).m() == (WorldModel {
                            place: old(self).m().place.insert(
                                e,
                                Place::At(
                                    (old(self).m().loc_of(e)->0).shifted(
                                        d.delta_s().0,
                                        d.delta_s().1,
                                    ),
                                ),
                            ),
                            ..old(self).m()
                        }));
                    }
                },
                Some(_) => {},
            }
        }
    }

    /// Strike the mob on the adjacent cell, if one stands there.
    fn really_melee(&mut self, e: Entity, dir: Dir6) -> (r: ActionOutcome)
        requires
            old(self).wf(),
        ensures
            final(self).wf(),
            r == (if old(self).m().melee_model(e, dir).1 {
                Some(true)
            } else {
                None::<bool>
            }),
            final(self).m() == (if old(self).m().melee_model(e, dir).1 {
                old(self).m().melee_model(e, dir).0
            } else {
                old(self).m()
            }),
    {
        let origin = match self.location(e) {
            Some(o) => o,
            None => {
                return None;
            },
        };
        let (dx, dy) = dir.delta();
        let t = origin.offset(dx, dy);
        match self.mob_at(t) {
            Some(tgt) => {
                let p: i32 = match self.ecs.composite_stats.get(&e) {
                    Some(s) => s.power,
                    None => match self.ecs.stats.get(&e) {
                        Some(s) => s.power,
                        None => 0,
                    },
                };
                let amount: u32 = if p < 0 {
                    0
                } else if p > 0xFFFF {
                    0xFFFF
                } else {
                    p as u32
                };
                self.damage(tgt, amount, Damage::Physical, Some(e));
                Some(true)
            },
            None => None,
        }
    }

    /// Attack along a direction. A confused creature may stumble
    /// instead; either way the turn is consumed unless nothing stood
    /// in the way and no stumble happened.
    pub fn entity_melee(&mut self, e: Entity, dir: Dir6) -> (r: ActionOutcome)
        requires
            old(self).wf(),
        ensures
            final(self).wf(),
            (r == Some(true) && confused_move_rel(old(self).m(), final(self).m(), e)) || (r == (
            if old(self).m().melee_model(e, dir).1 {
                Some(true)
            } else {
                None::<bool>
            }) && final(self).m() == (if old(self).m().melee_model(e, dir).1 {
                old(self).m().melee_model(e, dir).0
            } else {
                old(self).m()
            })),
            old(self).m().statuses.contains_key(e) && old(self).m().statuses[e].confused == 0
                ==> (r == (if old(self).m().melee_model(e, dir).1 {
                Some(true)
            } else {
                None::<bool>
            }) && final(self).m() == (if old(self).m().melee_model(e, dir).1 {
                old(self).m().melee_model(e, dir).0
            } else {
                old(self).m()
            })),
            !old(self).m().statuses.contains_key(e) ==> (r == (if old(self).m().melee_model(
                e,
                dir,
            ).1 {
                Some(true)
            } else {
                None::<bool>
            }) && final(self).m() == (if old(self).m().melee_model(e, dir).1 {
                old(self).m().melee_model(e, dir).0
            } else {
                old(self).m()
            })),
    {
        let confused = self.confusion(e) > 0;
        if confused {
            let roll = rng_below(&mut self.rng, 2);
            if roll == 0 {
                self.confused_move(e);
                return Some(true);
            }
        }
        self.really_melee(e, dir)
    }

    /// Run the decision of every enemy-controlled creature: strike an
    /// adjacent player, else wait. Status durations of every live
    /// entity count down first.
    fn ai_main(&mut self)
        requires
            old(self).wf(),
        ensures
            final(self).wf(),
            turn_frame(old(self).m(), final(self).m()),
            forall|x: Entity| #[trigger]
                final(self).m().health.contains_key(x) ==> final(self).m().health[x].hp <= old(self).m().health[x].hp && final(self).m().health[x].max_hp == old(self).m().health[x].max_hp,
            forall|x: Entity| #[trigger]
                old(self).m().statuses.contains_key(x) ==> final(self).m().statuses.contains_key(
                    x,
                ) && final(self).m().statuses[x] == (Statuses {
                    confused: dec_span(old(self).m().statuses[x].confused),
                }),
            forall|x: Entity| #[trigger]
                final(self).m().statuses.contains_key(x) ==> old(self).m().statuses.contains_key(x),
            forall|x: Entity| #[trigger]
                old(self).m().place.contains_key(x) && (old(self).m().statuses.contains_key(x)
                    ==> old(self).m().statuses[x].confused == 0) ==> final(self).m().place.contains_key(x) && final(self).m().place[x] == old(self).m().place[x],
    {
        let ghost m0 = self.m();
        let list = self.ecs.entities();
        let n = list.len();
        let mut i: usize = 0;
        while i < n
            invariant
                self.wf(),
                i <= n,
                n == list@.len(),
                forall|x: Entity| #[trigger] list@.contains(x) <==> m0.live(x),
                forall|a: int, b: int| 0 <= a < b < n ==> list@[a] != list@[b],
                turn_frame(m0, self.m()),
                forall|x: Entity| #[trigger]
                    self.m().health.contains_key(x) ==> self.m().health[x].hp <= m0.health[x].hp
                        && self.m().health[x].max_hp == m0.health[x].max_hp,
                forall|x: Entity| #[trigger]
                    m0.statuses.contains_key(x) && list@.take(i as int).contains(x)
                        ==> self.m().statuses.contains_key(x) && self.m().statuses[x] == (Statuses {
                        confused: dec_span(m0.statuses[x].confused),
                    }),
                forall|x: Entity| #[trigger]
                    m0.statuses.contains_key(x) && !list@.take(i as int).contains(x)
                        ==> self.m().statuses.contains_key(x) && self.m().statuses[x]
                        == m0.statuses[x],
                forall|x: Entity| #[trigger]
                    self.m().statuses.contains_key(x) ==> m0.statuses.contains_key(x),
                forall|x: Entity| #[trigger]
                    m0.place.contains_key(x) && (m0.statuses.contains_key(x) ==> m0.statuses[x].confused
                        == 0) ==> self.m().place.contains_key(x) && self.m().place[x]
                        == m0.place[x],
            decreases n - i,
        {
            let e = list[i];
            let ghost pre = self.m();
            proof {
                assert(list@.contains(list@[i as int]));
                if list@.take(i as int).contains(e) {
                    let j = choose|j: int| 0 <= j < i && list@.take(i as int)[j] == e;
                    assert(list@[j] == e);
                    assert(false);
                }
            }
            self.heartbeat(e);
            let ghost mid = self.m();
            proof {
                assert(turn_frame(pre, mid));
            }
            let is_enemy = match self.ecs.brain.get(&e) {
                Some(b) => matches!(b.kind, BrainKind::Enemy),
                None => false,
            };
            if is_enemy && self.is_alive(e) {
                let mut dirop: Option<Dir6> = None;
                match self.player() {
                    Some(p) => {
                        match (self.location(e), self.location(p)) {
                            (Some(o), Some(pl)) => {
                                let dirs = Dir6::all();
                                let mut k: usize = 0;
                                while k < 6
                                    invariant
                                        self.wf(),
                                        k <= 6,
                                        dirs@.len() == 6,
                                        o.in_bounds(),
                                        self.m() == mid,
                                    decreases 6 - k,
                                {
                                    let (dx, dy) = dirs[k].delta();
                                    let c = o.offset(dx, dy);
                                    if c.x == pl.x && c.y == pl.y && c.z == pl.z {
                                        dirop = Some(dirs[k]);
                                        break ;
                                    }
                                    k += 1;
                                }
                            },
                            _ => {},
                        }
                    },
                    None => {},
                }
                match dirop {
                    Some(d) => {
                        let _ = self.entity_melee(e, d);
                        proof {
                            let fin = self.m();
                            assert(turn_frame(mid, fin));
                            // One action never touches a status row,
                            // never raises hit points, and moves no
                            // entity but a confused actor.
                            assert(fin.statuses == mid.statuses);
                            assert forall|x: Entity| #[trigger]
                                fin.health.contains_key(x) implies fin.health[x].hp
                                <= mid.health[x].hp && fin.health[x].max_hp
                                == mid.health[x].max_hp by {}
                            assert forall|x: Entity| #[trigger]
                                mid.place.contains_key(x) && x != e implies fin.place.contains_key(
                                x,
                            ) && fin.place[x] == mid.place[x] by {}
                            if m0.statuses.contains_key(e) ==> m0.statuses[e].confused == 0 {
                                // The actor's own confusion is spent,
                                // so it struck rather than stumbled.
                                if mid.statuses.contains_key(e) {
                                    assert(mid.statuses[e].confused == 0);
                                }
                                assert(fin.place.contains_key(e) == mid.place.contains_key(e)
                                    && (mid.place.contains_key(e) ==> fin.place[e]
                                    == mid.place[e]));
                            }
                        }
                    },
                    None => {
                        let _ = self.idle(e);
                    },
                }
            }
            proof {
                let cur = self.m();
                assert(turn_frame(m0, cur));
                assert(list@.take(i + 1) =~= list@.take(i as int).push(e));
                assert forall|x: Entity| #[trigger]
                    m0.statuses.contains_key(x) && list@.take(i + 1).contains(x)
                        implies cur.statuses.contains_key(x) && cur.statuses[x] == (Statuses {
                        confused: dec_span(m0.statuses[x].confused),
                    }) by {
                    crate::volume::lemma_push_contains(list@.take(i as int), e, x);
                }
                assert forall|x: Entity| #[trigger]
                    m0.statuses.contains_key(x) && !list@.take(i + 1).contains(x)
                        implies cur.statuses.contains_key(x) && cur.statuses[x]
                        == m0.statuses[x] by {
                    crate::volume::lemma_push_contains(list@.take(i as int), e, x);
                }
            }
            i += 1;
        }
        proof {
            // Every status row belongs to a live entity, so every one
            // was counted down exactly once.
            assert(list@.take(n as int) =~= list@);
            assert forall|x: Entity| #[trigger]
                m0.statuses.contains_key(x) implies self.m().statuses.contains_key(x)
                && self.m().statuses[x] == (Statuses {
                confused: dec_span(m0.statuses[x].confused),
            }) by {
                assert(m0.live(x));
                assert(list@.contains(x));
            }
        }
    }

    /// Maybe hatch one new hostile creature near the player, picked by
    /// spawn weight from the forms whose habitat allows the current
    /// area.
    fn generate_world_spawns(&mut self)
        requires
            old(self).wf(),
        ensures
            final(self).wf(),
            final(self).m().tick == old(self).m().tick,
            final(self).m().anim_tick == old(self).m().anim_tick,
            final(self).m().anim == old(self).m().anim,
            final(self).m().statuses == old(self).m().statuses,
            slots_mono(old(self).m().slots, final(self).m().slots),
            forall|e: Entity| old(self).m().live(e) ==> final(self).m().live(e),
            forall|e: Entity| #[trigger]
                old(self).m().anim.contains_key(e) ==> final(self).m().live(e) == old(self).m().live(e),
            forall|x: Entity| #[trigger]
                old(self).m().health.contains_key(x) ==> final(self).m().health.contains_key(x)
                    && final(self).m().health[x] == old(self).m().health[x],
            !old(self).m().hatch_possible() ==> final(self).m() == old(self).m(),
            forall|e: Entity|
                final(self).m().live(e) && !old(self).m().live(e) ==> new_mob_ok(
                    old(self).m(),
                    final(self).m(),
                    e,
                ),
    {
        let p = match self.player() {
            Some(p) => p,
            None => {
                return ;
            },
        };
        let ploc = match self.location(p) {
            Some(l) => l,
            None => {
                return ;
            },
        };
        let roll = rng_below(&mut self.rng, 10);
        if roll != 0 {
            return ;
        }
        // Candidate cell near the player.
        let dx = rng_below(&mut self.rng, 21);
        let dy = rng_below(&mut self.rng, 21);
        let loc = ploc.offset(dx as i32 - 10, dy as i32 - 10);
        let inb = -crate::location::MAP_BOUND <= loc.x && loc.x <= crate::location::MAP_BOUND
            && -crate::location::MAP_BOUND <= loc.y && loc.y <= crate::location::MAP_BOUND;
        if !inb || self.terrain.at(loc).blocks_walk() {
            return ;
        }
        match self.mob_at(loc) {
            Some(_) => {
                return ;
            },
            None => {},
        }
        // Weighted bag of eligible forms.
        let area = self.flags.area;
        let nf = self.forms.len();
        let mut bag: Vec<usize> = Vec::new();
        let mut fi: usize = 0;
        while fi < nf
            invariant
                self.wf(),
                self.m() == old(self).m(),
                area == self.m().area,
                fi <= nf,
                nf == self.forms@.len(),
                forall|k: int|
                    0 <= k < bag@.len() ==> form_eligible(self.m(), bag@[k] as int),
                bag@.len() <= fi * 1000,
            decreases nf - fi,
        {
            let w = self.forms[fi].weight();
            let hab = self.forms[fi].habitat_spec();
            if w > 0 && hab.can_hatch_in(&area) {
                let mut c: u32 = 0;
                while c < w
                    invariant
                        self.wf(),
                        self.m() == old(self).m(),
                        area == self.m().area,
                        fi < nf,
                        nf == self.forms@.len(),
                        c <= w,
                        w <= 1000,
                        w == self.forms@[fi as int].weight_s(),
                        self.forms@[fi as int].weight_s() > 0,
                        (AreaSpec {
                            biome: self.forms@[fi as int].habitat,
                            depth: self.forms@[fi as int].min_depth,
                        }).can_hatch_in_s(self.m().area),
                        forall|k: int|
                            0 <= k < bag@.len() ==> form_eligible(self.m(), bag@[k] as int),
                        bag@.len() <= fi * 1000 + c,
                    decreases w - c,
                {
                    bag.push(fi);
                    c += 1;
                }
            }
            fi += 1;
        }
        if bag.len() == 0 {
            return ;
        }
        let pick = rng_below(&mut self.rng, bag.len());
        let idx = bag[pick];
        proof {
            assert(form_eligible(self.m(), idx as int));
            assert(self.forms@.contains(self.forms@[idx as int]));
        }
        let loadout = self.forms[idx].loadout.duplicate();
        let ghost m0 = self.m();
        let spawned = self.spawn(&loadout, loc);
        proof {
            assert(vstd::std_specs::vec::spec_vec_len(&old(self).ecs.slots) == old(self).ecs.slots@.len());
            lemma_alloc_live(m0);
            lemma_first_free(m0.slots, 0);
            assert(slots_mono(m0.slots, self.m().slots));
            assert(self.m().anim =~= m0.anim);
            assert(self.m().statuses =~= m0.statuses);
            assert forall|e: Entity| m0.live(e) implies self.m().live(e) by {
                assert(e != spawned);
            }
            assert forall|e: Entity| #[trigger]
                m0.anim.contains_key(e) implies self.m().live(e) == m0.live(e) by {
                assert(m0.live(e));
                assert(e != spawned);
            }
            assert forall|x: Entity| #[trigger]
                m0.health.contains_key(x) implies self.m().health.contains_key(x)
                    && self.m().health[x] == m0.health[x] by {
                assert(m0.live(x));
                assert(x != spawned);
            }
            // The bag held an eligible form, so hatching was possible.
            assert(m0.hatch_possible());
            assert forall|e: Entity|
                self.m().live(e) && !m0.live(e) implies new_mob_ok(m0, self.m(), e) by {
                assert(e == spawned);
                assert(self.m().rows_match(e, self.forms@[idx as int].loadout));
                assert(self.m().place[e] == Place::At(loc));
            }
        }
    }

    /// Destroy every entity whose animation row has expired at the
    /// current tick.
    fn expire_anims(&mut self)
        requires
            old(self).wf(),
        ensures
            final(self).wf(),
            final(self).m() == old(self).m().removed_all_model(old(self).m().expired_set()),
    {
        let ghost m0 = self.m();
        let list = self.ecs.anim.keys();
        let n = list.len();
        let mut i: usize = 0;
        proof {
            assert(m0.expired_set().intersect(list@.take(0).to_set()) =~= Set::<Entity>::empty());
            let s0 = Set::<Entity>::empty();
            assert(m0.removed_all_model(s0).slots =~= m0.slots);
            assert(m0.removed_all_model(s0).stats =~= m0.stats);
            assert(m0.removed_all_model(s0).composite =~= m0.composite);
            assert(m0.removed_all_model(s0).health =~= m0.health);
            assert(m0.removed_all_model(s0).brain =~= m0.brain);
            assert(m0.removed_all_model(s0).statuses =~= m0.statuses);
            assert(m0.removed_all_model(s0).desc =~= m0.desc);
            assert(m0.removed_all_model(s0).item =~= m0.item);
            assert(m0.removed_all_model(s0).anim =~= m0.anim);
            assert(m0.removed_all_model(s0).memory =~= m0.memory);
            assert(m0.removed_all_model(s0).place =~= m0.place);
            assert(m0.removed_all_model(s0) =~= m0);
        }
        while i < n
            invariant
                self.wf(),
                i <= n,
                n == list@.len(),
                forall|e: Entity| #[trigger] list@.contains(e) <==> m0.anim.contains_key(e),
                forall|a: int, b: int| 0 <= a < b < n ==> list@[a] != list@[b],
                self.m() == m0.removed_all_model(
                    m0.expired_set().intersect(list@.take(i as int).to_set()),
                ),
                self.m().tick == m0.tick,
            decreases n - i,
        {
            let e = list[i];
            let ghost s = m0.expired_set().intersect(list@.take(i as int).to_set());
            proof {
                assert(list@.contains(list@[i as int]));
                if list@.take(i as int).to_set().contains(e) {
                    let j = choose|j: int| 0 <= j < i && list@.take(i as int)[j] == e;
                    assert(list@[j] == e);
                    assert(false);
                }
                assert(!s.contains(e));
                assert(self.m().live(e) == m0.live(e));
                assert(self.m().anim.contains_key(e) && self.m().anim[e] == m0.anim[e]);
            }
            let expired = match self.ecs.anim.get(&e) {
                Some(a) => match a.anim_done_world_tick {
                    Some(d) => d <= self.flags.tick,
                    None => false,
                },
                None => {
                    proof {
                        assert(false);
                    }
                    false
                },
            };
            if expired {
                proof {
                    assert(m0.live(e));
                }
                self.remove_entity(e);
                proof {
                    lemma_removed_all_step(m0, s, e);
                    lemma_take_set_step(list@, i as int);
                    assert(m0.expired_set().intersect(list@.take(i + 1).to_set()) =~= s.insert(e));
                }
            } else {
                proof {
                    lemma_take_set_step(list@, i as int);
                    assert(m0.expired_set().intersect(list@.take(i + 1).to_set()) =~= s);
                }
            }
            i += 1;
        }
        proof {
            assert(list@.take(n as int) =~= list@);
            assert forall|x: Entity|
                m0.expired_set().intersect(list@.take(n as int).to_set()).contains(x)
                    <==> m0.expired_set().contains(x) by {
                if m0.expired_set().contains(x) {
                    assert(m0.anim.contains_key(x));
                    assert(list@.contains(x));
                }
            }
            assert(m0.expired_set().intersect(list@.take(n as int).to_set())
                =~= m0.expired_set());
        }
    }

    /// Advance the world by one turn, in fixed order: scheduled spawns,
    /// animation bookkeeping, AI decisions, removal of the dead, the
    /// tick, and expiry of stale effect entities against the new tick.
    pub fn next_tick(&mut self)
        requires
            old(self).wf(),
            old(self).m().clock_room(),
        ensures
            final(self).wf(),
            tick_step_ok(old(self).m(), final(self).m()),
            final(self).m().tick == old(self).m().tick + 1,
            final(self).m().anim_tick == old(self).m().anim_tick + 1,
            forall|e: Entity|
                old(self).m().live(e) && old(self).m().is_dead(e) ==> !final(self).m().live(e),
            forall|e: Entity| #[trigger]
                old(self).m().statuses.contains_key(e) && final(self).m().live(e) ==> final(self).m().statuses.contains_key(e) && final(self).m().statuses[e].confused == dec_span(
                    old(self).m().statuses[e].confused,
                ),
            !old(self).m().hatch_possible() ==> (forall|e: Entity|
                final(self).m().live(e) ==> old(self).m().live(e)),
            forall|e: Entity|
                final(self).m().live(e) && !old(self).m().live(e) ==> new_mob_ok(
                    old(self).m(),
                    final(self).m(),
                    e,
                ),
    {
        let ghost m0 = self.m();
        self.generate_world_spawns();
        let ghost m1 = self.m();
        self.tick_anims();
        let ghost m2 = self.m();
        self.ai_main();
        let ghost m3 = self.m();
        proof {
            assert(m3.anim == m0.anim);
            assert forall|e: Entity| #[trigger]
                m0.anim.contains_key(e) implies m3.live(e) == m0.live(e) by {
                assert(m1.live(e) == m0.live(e));
            }
        }
        self.clean_dead();
        let ghost m4 = self.m();
        proof {
            assert forall|e: Entity| #[trigger]
                m0.anim.contains_key(e) && m0.live(e) implies m4.live(e) && m4.anim.contains_key(
                e,
            ) && m4.anim[e] == m0.anim[e] by {
                assert(m3.live(e));
                assert(m3.anim.contains_key(e));
                // An animated entity carries no health row, so it is
                // never flagged dead.
                assert(!m3.health.contains_key(e));
                assert(!m3.dead_set().contains(e));
                assert(m4.place == m3.place.remove_keys(m3.dead_set()));
                assert(m4.anim.contains_key(e) && m4.anim[e] == m3.anim[e]);
                assert(m4.live(e));
            }
            assert(m4.tick == m0.tick);
        }
        self.flags.tick = self.flags.tick + 1;
        proof {
            assert(self.m() =~= (WorldModel { tick: m4.tick + 1, ..m4 }));
        }
        let ghost m5 = self.m();
        self.expire_anims();
        proof {
            let mf = self.m();
            assert forall|e: Entity| #[trigger]
                m0.anim.contains_key(e) && m0.live(e) implies (mf.live(e) <==> !anim_expired(
                m0.anim[e],
                mf.tick,
            )) by {
                assert(m5.anim.contains_key(e) && m5.anim[e] == m0.anim[e]);
                assert(m5.live(e));
                if anim_expired(m0.anim[e], m5.tick) {
                    assert(m5.expired_set().contains(e));
                    assert(!mf.live(e));
                } else {
                    assert(!m5.expired_set().contains(e));
                    if e.idx < mf.slots.len() {
                        if exists|x: Entity|
                            m5.expired_set().contains(x) && x.idx == e.idx as int && x.gen
                                == m5.slots[e.idx as int].gen {
                            let x = choose|x: Entity|
                                m5.expired_set().contains(x) && x.idx == e.idx as int && x.gen
                                    == m5.slots[e.idx as int].gen;
                            assert(x == e);
                            assert(false);
                        }
                    }
                    assert(mf.live(e));
                }
            }
            assert forall|e: Entity| #[trigger]
                m0.anim.contains_key(e) && m0.live(e) && mf.live(e) implies mf.anim.contains_key(
                e,
            ) && mf.anim[e] == m0.anim[e] by {
                assert(!m5.expired_set().contains(e));
                assert(mf.anim == m5.anim.remove_keys(m5.expired_set()));
            }
            assert(slots_mono(m3.slots, m4.slots));
            assert(slots_mono(m5.slots, mf.slots));
            lemma_slots_mono_trans(m0.slots, m3.slots, m4.slots);
            lemma_slots_mono_trans(m0.slots, m5.slots, mf.slots);
            // The animation clock advanced by exactly one frame.
            assert(mf.anim_tick == m0.anim_tick + 1);
            // Entities flagged dead at entry are gone: nothing raised
            // their hit points before the removal pass.
            assert forall|e: Entity|
                m0.live(e) && m0.is_dead(e) implies !mf.live(e) by {
                assert(m1.live(e));
                assert(m1.health.contains_key(e) && m1.health[e] == m0.health[e]);
                assert(m3.live(e));
                assert(m3.health.contains_key(e));
                assert(m3.health[e].hp <= m2.health[e].hp);
                assert(m3.is_dead(e));
                assert(m3.dead_set().contains(e));
                lemma_removed_all_live(m3, m3.dead_set(), e);
                assert(!m4.live(e));
                assert(!m5.live(e));
                lemma_removed_all_live(m5, m5.expired_set(), e);
                assert(!mf.live(e));
            }
            // Survivors had each timed status counted down once.
            assert forall|e: Entity| #[trigger]
                m0.statuses.contains_key(e) && mf.live(e) implies mf.statuses.contains_key(e)
                && mf.statuses[e].confused == dec_span(m0.statuses[e].confused) by {
                assert(m1.statuses == m0.statuses);
                assert(m2.statuses == m1.statuses);
                assert(m2.statuses.contains_key(e));
                assert(m3.statuses.contains_key(e) && m3.statuses[e] == (Statuses {
                    confused: dec_span(m2.statuses[e].confused),
                }));
                lemma_removed_all_live(m5, m5.expired_set(), e);
                assert(m5.live(e) && !m5.expired_set().contains(e));
                assert(m4.live(e));
                lemma_removed_all_live(m3, m3.dead_set(), e);
                assert(!m3.dead_set().contains(e));
                assert(m4.statuses == m3.statuses.remove_keys(m3.dead_set()));
                assert(m4.statuses.contains_key(e) && m4.statuses[e] == m3.statuses[e]);
                assert(m5.statuses == m4.statuses);
                assert(mf.statuses == m5.statuses.remove_keys(m5.expired_set()));
                assert(mf.statuses.contains_key(e) && mf.statuses[e] == m5.statuses[e]);
            }
            // With no form able to hatch here, the turn creates nothing.
            if !m0.hatch_possible() {
                assert(m1 == m0);
                assert forall|e: Entity| mf.live(e) implies m0.live(e) by {
                    lemma_removed_all_live(m5, m5.expired_set(), e);
                    assert(m4.live(e));
                    lemma_removed_all_live(m3, m3.dead_set(), e);
                    assert(m3.live(e));
                    assert(m1.live(e));
                }
            }
            // Whatever did hatch is an eligible registry form on a
            // lawful cell, and its rows are still those rows.
            assert forall|e: Entity|
                mf.live(e) && !m0.live(e) implies new_mob_ok(m0, mf, e) by {
                lemma_removed_all_live(m5, m5.expired_set(), e);
                assert(m5.live(e) && !m5.expired_set().contains(e));
                assert(m4.live(e));
                lemma_removed_all_live(m3, m3.dead_set(), e);
                assert(m3.live(e) && !m3.dead_set().contains(e));
                assert(m1.live(e));
                assert(new_mob_ok(m0, m1, e));
                let i = choose|i: int|
                    0 <= i < m0.forms.len() && (#[trigger] m0.forms[i]).weight_s() > 0
                        && (AreaSpec {
                        biome: m0.forms[i].habitat,
                        depth: m0.forms[i].min_depth,
                    }).can_hatch_in_s(m0.area) && m1.rows_match(e, m0.forms[i].loadout);
                let l = m0.forms[i].loadout;
                // The creature was not confused at birth, so nothing
                // moved it, and no pass before its death could have
                // dropped its rows.
                assert(m1.statuses == m0.statuses);
                assert(!m2.statuses.contains_key(e));
                assert(m2.place.contains_key(e));
                assert(m3.place.contains_key(e) && m3.place[e] == m2.place[e]);
                assert(m4.stats == m3.stats.remove_keys(m3.dead_set()));
                assert(m4.brain == m3.brain.remove_keys(m3.dead_set()));
                assert(m4.health == m3.health.remove_keys(m3.dead_set()));
                assert(m4.item == m3.item.remove_keys(m3.dead_set()));
                assert(m4.desc == m3.desc.remove_keys(m3.dead_set()));
                assert(m4.memory == m3.memory.remove_keys(m3.dead_set()));
                assert(m4.place == m3.place.remove_keys(m3.dead_set()));
                assert(mf.stats == m5.stats.remove_keys(m5.expired_set()));
                assert(mf.brain == m5.brain.remove_keys(m5.expired_set()));
                assert(mf.health == m5.health.remove_keys(m5.expired_set()));
                assert(mf.item == m5.item.remove_keys(m5.expired_set()));
                assert(mf.desc == m5.desc.remove_keys(m5.expired_set()));
                assert(mf.memory == m5.memory.remove_keys(m5.expired_set()));
                assert(mf.place == m5.place.remove_keys(m5.expired_set()));
                assert(m2.stats == m1.stats);
                assert(m3.stats == m1.stats);
                assert(m2.brain == m1.brain);
                assert(m3.brain == m1.brain);
                assert(m2.desc == m1.desc);
                assert(m3.desc == m1.desc);
                assert(m2.item == m1.item);
                assert(m3.item == m1.item);
                assert(m2.memory == m1.memory);
                assert(m3.memory == m1.memory);
                assert(m2.health == m1.health);
                assert(m3.health.contains_key(e) == m1.health.contains_key(e));
                assert(m3.rows_match(e, l));
                assert(m4.rows_match(e, l));
                assert(m5.rows_match(e, l));
                assert(mf.rows_match(e, l));
                assert(mf.place.contains_key(e) && mf.place[e] == m1.place[e]);
            }
        }
    }
}

} // verus!

verus! {

/// Law: over any run of worlds where each adjacent pair is one
/// simulation turn, the tick after n turns is the initial tick plus n,
/// never skipping or repeating.
pub proof fn lemma_tick_progression(ws: Seq<WorldModel>)
    requires
        ws.len() >= 1,
        forall|i: int| 0 <= i < ws.len() - 1 ==> #[trigger] tick_step_ok(ws[i], ws[i + 1]),
    ensures
        ws.last().tick == ws[0].tick + ws.len() - 1,
    decreases ws.len(),
{
    if ws.len() > 1 {
        let prefix = ws.drop_last();
        assert forall|i: int|
            0 <= i < prefix.len() - 1 implies #[trigger] tick_step_ok(
            prefix[i],
            prefix[i + 1],
        ) by {
            assert(tick_step_ok(ws[i], ws[i + 1]));
        }
        lemma_tick_progression(prefix);
        let k: int = ws.len() - 2;
        assert(tick_step_ok(ws[k], ws[k + 1]));
        assert(ws.last() == ws[k + 1]);
    }
}

/// An entity handle that can never come back: its slot has moved past
/// its generation, or sits at it, retired.
pub open spec fn handle_retired(m: WorldModel, e: Entity) -> bool {
    e.idx < m.slots.len() && m.slots[e.idx as int].gen >= e.gen && !m.live(e)
}

/// Law: an effect entity spawned with the standard horizon lives for
/// exactly the horizon. In any run of worlds stepped one turn at a
/// time from a world where the entity is live with its expiry booked
/// at `tick + FX_HORIZON`, the entity is live in every world whose
/// tick is below that bound and gone from every world whose tick has
/// reached it.
pub proof fn lemma_fx_lifetime(ws: Seq<WorldModel>, e: Entity, i: int)
    requires
        ws.len() >= 1,
        forall|j: int| 0 <= j < ws.len() - 1 ==> #[trigger] tick_step_ok(ws[j], ws[j + 1]),
        ws[0].anim.contains_key(e),
        ws[0].live(e),
        ws[0].anim[e].anim_done_world_tick == Some((ws[0].tick + FX_HORIZON) as u64),
        0 <= ws[0].tick,
        ws[0].tick + FX_HORIZON + ws.len() <= u64::MAX,
        0 <= i < ws.len(),
    ensures
        ws[i].tick == ws[0].tick + i,
        ws[i].tick < ws[0].tick + FX_HORIZON ==> ws[i].live(e) && ws[i].anim.contains_key(e)
            && ws[i].anim[e] == ws[0].anim[e],
        ws[i].tick >= ws[0].tick + FX_HORIZON ==> !ws[i].live(e) && handle_retired(ws[i], e),
    decreases i,
{
    let done = ws[0].tick + FX_HORIZON;
    if i == 0 {
    } else {
        lemma_fx_lifetime(ws, e, i - 1);
        let j: int = i - 1;
        assert(tick_step_ok(ws[j], ws[j + 1]));
        if ws[i - 1].tick < done {
            // The entity was live with its row intact; this turn keeps
            // it exactly while the new tick stays under the bound.
            assert(anim_expired(ws[i - 1].anim[e], ws[i].tick) <==> done <= ws[i].tick);
            if ws[i].tick >= done {
                assert(!ws[i].live(e));
                assert(ws[i].slots[e.idx as int].gen >= ws[i - 1].slots[e.idx as int].gen);
            }
        } else {
            // Once retired, a handle stays retired: generations never
            // regress and no slot revives at the same generation.
            assert(ws[i].slots[e.idx as int].gen >= ws[i - 1].slots[e.idx as int].gen);
            if ws[i].live(e) {
                assert(ws[i].slots[e.idx as int].gen == e.gen);
                assert(ws[i - 1].slots[e.idx as int].gen == e.gen);
                assert(ws[i - 1].slots[e.idx as int].live);
                assert(false);
            }
        }
    }
}

/// Law: resolving an effect over a volume makes exactly one resolution
/// attempt per cell, in volume order, and a cell with no mob on it
/// changes nothing at all.
pub proof fn lemma_apply_effect_attempts(m: WorldModel, effect: Effect, locs: Seq<Location>)
    ensures
        locs.len() == 0 ==> m.apply_effect_model(effect, locs) == m,
        locs.len() > 0 ==> m.apply_effect_model(effect, locs) == m.apply_effect_model(
            effect,
            locs.drop_last(),
        ).apply_effect_to_model(effect, locs.last()),
        forall|loc: Location|
            m.mob_at(loc) is None ==> #[trigger] m.apply_effect_to_model(effect, loc) == m,
{
}

/// Law: recomputing the field of view with unchanged terrain and the
/// same origin and range is idempotent — the seen set comes out
/// bit-identical and the remembered set gains nothing new — and one
/// recomputation never removes a remembered location.
pub proof fn lemma_fov_stable(m: WorldModel, e: Entity)
    ensures
        m.do_fov_model(e).do_fov_model(e) == m.do_fov_model(e),
        m.memory.contains_key(e) ==> (forall|l: Location|
            m.memory[e].1.contains(l) ==> m.do_fov_model(e).memory[e].1.contains(l)),
{
    let m1 = m.do_fov_model(e);
    if !m.memory.contains_key(e) {
        assert(m1 == m);
    } else {
        match m.loc_of(e) {
            None => {
                assert(m1 == m);
            },
            Some(origin) => {
                let range: int = if origin.z != 0 {
                    7
                } else {
                    SECTOR_WIDTH as int
                };
                let seen = fov_spec(m.terrain, origin, range);
                assert(m1.loc_of(e) == m.loc_of(e));
                assert(m1.memory.contains_key(e));
                assert(m1.memory[e] == (seen, m.memory[e].1.union(seen)));
                let rem1 = m.memory[e].1.union(seen);
                assert(rem1.union(seen) =~= rem1);
                assert(m1.memory.insert(e, (seen, rem1)) =~= m1.memory);
                assert(m1.do_fov_model(e) =~= m1);
            },
        }
    }
}

} // verus!
