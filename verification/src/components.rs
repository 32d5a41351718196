//! Component data rows: each one aspect an entity may carry.

use vstd::prelude::*;
use crate::effect::Ability;
use crate::location::Location;
use crate::locset::LocSet;

verus! {

/// Bound on stat magnitudes; keeps aggregate sums well inside `i32`.
pub const STAT_BOUND: i32 = 0x10000;

/// Innate capabilities of a creature, stored as a bit mask in `Stats`.
#[derive(Clone, Copy, PartialEq, Eq, Structural, Debug)]
pub enum Intrinsic {
    /// Can wield weapons and use items.
    Hands,
    Slow,
    Fast,
}

impl Intrinsic {
    pub open spec fn mask_s(self) -> u32 {
        match self {
            Intrinsic::Hands => 1u32,
            Intrinsic::Slow => 2u32,
            Intrinsic::Fast => 4u32,
        }
    }

    pub fn mask(self) -> (r: u32)
        ensures
            r == self.mask_s(),
    {
        match self {
            Intrinsic::Hands => 1,
            Intrinsic::Slow => 2,
            Intrinsic::Fast => 4,
        }
    }
}

/// Bit mask combining a sequence of intrinsics.
pub open spec fn intrinsics_mask(s: Seq<Intrinsic>) -> u32
    decreases s.len(),
{
    if s.len() == 0 {
        0u32
    } else {
        intrinsics_mask(s.drop_last()) | s.last().mask_s()
    }
}

/// Combat statistics; either the base values of a creature or an
/// aggregate of base values and equipped-item bonuses.
#[derive(Clone, Copy, PartialEq, Eq, Structural, Debug)]
pub struct Stats {
    /// Offensive strength; melee damage dealt.
    pub power: i32,
    /// Mitigation subtracted from physical damage taken.
    pub armor: i32,
    /// Bit mask of `Intrinsic` values.
    pub intrinsics: u32,
}

impl Stats {
    pub open spec fn wf(self) -> bool {
        -STAT_BOUND <= self.power && self.power <= STAT_BOUND && -STAT_BOUND <= self.armor
            && self.armor <= STAT_BOUND
    }

    pub fn new(power: i32, intrinsics: &[Intrinsic]) -> (r: Stats)
        requires
            -STAT_BOUND <= power <= STAT_BOUND,
        ensures
            r.power == power,
            r.armor == 0,
            r.intrinsics == intrinsics_mask(intrinsics@),
            r.wf(),
    {
        let n = intrinsics.len();
        let mut mask: u32 = 0;
        let mut i: usize = 0;
        while i < n
            invariant
                i <= n,
                n == intrinsics@.len(),
                mask == intrinsics_mask(intrinsics@.take(i as int)),
            decreases n - i,
        {
            proof {
                assert(intrinsics@.take(i + 1).drop_last() =~= intrinsics@.take(i as int));
                assert(intrinsics@.take(i + 1).last() == intrinsics@[i as int]);
            }
            mask = mask | intrinsics[i].mask();
            i += 1;
        }
        proof {
            assert(intrinsics@.take(n as int) =~= intrinsics@);
        }
        Stats { power, armor: 0, intrinsics: mask }
    }
}

/// Hit points of a destructible entity; it is dead at zero or below.
#[derive(Clone, Copy, PartialEq, Eq, Structural, Debug)]
pub struct Health {
    pub hp: i32,
    pub max_hp: i32,
}

/// Hit points every creature starts with.
pub const BASE_HEALTH: i32 = 10;

impl Health {
    pub fn new() -> (r: Health)
        ensures
            r == (Health { hp: BASE_HEALTH, max_hp: BASE_HEALTH }),
    {
        Health { hp: BASE_HEALTH, max_hp: BASE_HEALTH }
    }
}

/// Who controls an entity's actions.
#[derive(Clone, Copy, PartialEq, Eq, Structural, Debug)]
pub enum BrainKind {
    Player,
    Enemy,
}

/// Decision-making component of an active entity.
#[derive(Clone, Copy, PartialEq, Eq, Structural, Debug)]
pub struct Brain {
    pub kind: BrainKind,
}

impl Brain {
    pub fn player() -> (r: Brain)
        ensures
            r == (Brain { kind: BrainKind::Player }),
    {
        Brain { kind: BrainKind::Player }
    }

    pub fn enemy() -> (r: Brain)
        ensures
            r == (Brain { kind: BrainKind::Enemy }),
    {
        Brain { kind: BrainKind::Enemy }
    }
}

/// Timed conditions an entity can be under.
#[derive(Clone, Copy, PartialEq, Eq, Structural, Debug)]
pub enum Status {
    Confused,
}

/// Remaining durations of the timed statuses; zero means absent.
#[derive(Clone, Copy, PartialEq, Eq, Structural, Debug)]
pub struct Statuses {
    pub confused: u32,
}

impl Statuses {
    pub fn new() -> (r: Statuses)
        ensures
            r == (Statuses { confused: 0u32 }),
    {
        Statuses { confused: 0 }
    }
}

/// Visual descriptor of an entity: display name and brush (sprite) name.
#[derive(Clone, Debug)]
pub struct Desc {
    pub name: String,
    pub brush: String,
}

impl View for Desc {
    type V = (Seq<char>, Seq<char>);

    open spec fn view(&self) -> (Seq<char>, Seq<char>) {
        (self.name@, self.brush@)
    }
}

impl Desc {
    pub fn new(name: &str, brush: &str) -> (r: Desc)
        ensures
            r@ == (name@, brush@),
    {
        Desc { name: name.to_owned(), brush: brush.to_owned() }
    }

    /// A copy with the same text.
    pub fn duplicate(&self) -> (r: Desc)
        ensures
            r@ == self@,
    {
        Desc { name: self.name.clone(), brush: self.brush.clone() }
    }
}

/// Kinds of animation an entity can play; the transient ones mark
/// short-lived effect entities that the world cleans up by itself.
#[derive(Clone, Copy, PartialEq, Eq, Structural, Debug)]
pub enum AnimState {
    /// An ordinary, persistent entity.
    Mob,
    Explosion,
    Firespell,
    Gib,
}

impl AnimState {
    pub open spec fn is_transient_s(self) -> bool {
        match self {
            AnimState::Mob => false,
            AnimState::Explosion => true,
            AnimState::Firespell => true,
            AnimState::Gib => true,
        }
    }

    pub fn is_transient_anim_state(self) -> (r: bool)
        ensures
            r == self.is_transient_s(),
    {
        match self {
            AnimState::Mob => false,
            AnimState::Explosion => true,
            AnimState::Firespell => true,
            AnimState::Gib => true,
        }
    }
}

/// Animation bookkeeping. `anim_start` and the tween fields live on the
/// continuous animation clock and only drive rendering;
/// `anim_done_world_tick` lives on the logical world clock and decides
/// when a transient effect entity is destroyed.
#[derive(Clone, Copy, Debug)]
pub struct Anim {
    pub state: AnimState,
    /// Animation clock value when the current animation began.
    pub anim_start: u64,
    /// World tick at or after which the owning entity is destroyed, for
    /// transient effect entities.
    pub anim_done_world_tick: Option<u64>,
    /// Where an interpolated move started.
    pub tween_from: Location,
    /// Animation clock value when the interpolated move started.
    pub tween_start: u64,
    /// Animation clock duration of the interpolated move.
    pub tween_duration: u32,
}

impl Default for Anim {
    fn default() -> (r: Anim)
        ensures
            r == (Anim {
                state: AnimState::Mob,
                anim_start: 0u64,
                anim_done_world_tick: None::<u64>,
                tween_from: Location { x: 0i32, y: 0i32, z: 0i32 },
                tween_start: 0u64,
                tween_duration: 0u32,
            }),
    {
        Anim {
            state: AnimState::Mob,
            anim_start: 0,
            anim_done_world_tick: None,
            tween_from: Location { x: 0, y: 0, z: 0 },
            tween_start: 0,
            tween_duration: 0,
        }
    }
}

/// A usable item: the one ability it grants and its remaining charges.
#[derive(Clone, Copy, PartialEq, Eq, Structural, Debug)]
pub struct Item {
    pub ability: Ability,
    pub charges: u32,
}

/// What a viewer currently sees and has ever seen of the map.
pub struct MapMemory {
    /// Rebuilt on every field-of-view computation.
    pub seen: LocSet,
    /// Grows monotonically: every location ever seen.
    pub remembered: LocSet,
}

impl View for MapMemory {
    type V = (Set<Location>, Set<Location>);

    open spec fn view(&self) -> (Set<Location>, Set<Location>) {
        (self.seen@, self.remembered@)
    }
}

impl MapMemory {
    pub open spec fn wf(self) -> bool {
        self.seen.wf() && self.remembered.wf()
    }

    pub fn new() -> (r: MapMemory)
        ensures
            r.wf(),
            r@ == (Set::<Location>::empty(), Set::<Location>::empty()),
    {
        MapMemory { seen: LocSet::new(), remembered: LocSet::new() }
    }
}

} // verus!
