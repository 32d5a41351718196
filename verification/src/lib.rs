//! Deterministic, tick-driven world simulation for a hex-grid roguelike:
//! an entity-component store, a spatial index, field-of-view with map
//! memory, and an effect/ability resolution engine, all behind one
//! mutation facade with verified contracts.

use vstd::prelude::*;

pub mod assoc;
pub mod components;
pub mod ecs;
pub mod effect;
pub mod entity;
pub mod location;
pub mod form;
pub mod geomorph;
pub mod fov;
pub mod locset;
pub mod rng;
pub mod spatial;
pub mod terrain;
pub mod viewutil;
pub mod volume;
pub mod world;

pub use components::{Anim, AnimState, Brain, BrainKind, Desc, Health, Intrinsic, Item, MapMemory, Stats, Status, Statuses};
pub use effect::{Ability, ActionOutcome, Damage, Effect};
pub use entity::Entity;
pub use location::{Dir6, Location, SECTOR_WIDTH};
pub use spatial::{Place, Slot};
pub use terrain::{Terrain, TerrainMap};
pub use volume::Volume;
pub use world::World;

verus! {

/// Visibility class of a map cell as far as a viewer remembers it.
#[derive(Clone, Copy, PartialEq, Eq, Structural, Debug)]
pub enum FovStatus {
    Seen,
    Remembered,
}

/// The kinds of creature the world knows how to spawn.
#[derive(Clone, Copy, PartialEq, Eq, Structural, Debug)]
pub enum MobType {
    Player,
    Dreg,
    Snake,
    Ooze,
}

/// General type of a game entity.
#[derive(Clone, Copy, PartialEq, Eq, Structural, Debug)]
pub enum EntityKind {
    /// An active, mobile entity like the player or the NPCs.
    MobKind(MobType),
    /// An entity that can be picked up and used in some way.
    ItemKind,
    /// A background item that doesn't do much.
    PropKind,
    /// A static object that does things when stepped on.
    NodeKind,
}

/// Landscape type. Its bit mask produces habitat masks for entity
/// spawning.
#[derive(Clone, Copy, PartialEq, Eq, Structural, Debug)]
pub enum Biome {
    Overland,
    Dungeon,
    /// For things showing up at any biome.
    Anywhere,
}

impl Biome {
    /// Habitat bit mask of the biome.
    pub open spec fn mask_s(self) -> u32 {
        match self {
            Biome::Overland => 1u32,
            Biome::Dungeon => 2u32,
            Biome::Anywhere => 0xffu32,
        }
    }

    pub fn mask(self) -> (r: u32)
        ensures
            r == self.mask_s(),
    {
        match self {
            Biome::Overland => 1,
            Biome::Dungeon => 2,
            Biome::Anywhere => 0xff,
        }
    }

    /// The terrain an unwritten cell of this biome holds.
    pub fn default_terrain(self) -> (r: terrain::Terrain)
        ensures
            r == match self {
                Biome::Overland => terrain::Terrain::Tree,
                Biome::Dungeon => terrain::Terrain::Rock,
                Biome::Anywhere => terrain::Terrain::Void,
            },
    {
        match self {
            Biome::Overland => terrain::Terrain::Tree,
            Biome::Dungeon => terrain::Terrain::Rock,
            Biome::Anywhere => terrain::Terrain::Void,
        }
    }
}

/// Kind and depth of an area of the map; doubles as the habitat
/// requirement of a spawnable form.
#[derive(Clone, Copy, PartialEq, Eq, Structural, Debug)]
pub struct AreaSpec {
    pub biome: Biome,
    pub depth: i32,
}

impl AreaSpec {
    pub fn new(biome: Biome, depth: i32) -> (r: AreaSpec)
        ensures
            r == (AreaSpec { biome, depth }),
    {
        AreaSpec { biome, depth }
    }

    /// Whether a thing with this spec can be spawned in an environment
    /// with the given spec.
    pub open spec fn can_hatch_in_s(self, environment: AreaSpec) -> bool {
        self.depth >= 0 && self.depth <= environment.depth && (self.biome.mask_s()
            & environment.biome.mask_s()) != 0
    }

    pub fn can_hatch_in(&self, environment: &AreaSpec) -> (r: bool)
        ensures
            r == self.can_hatch_in_s(*environment),
    {
        self.depth >= 0 && self.depth <= environment.depth && (self.biome.mask()
            & environment.biome.mask()) != 0
    }
}

/// Various one-off signals the game sends to the UI layer.
#[derive(Clone, Debug)]
pub enum Msg {
    Text(String),
    Explosion(Location),
    Damage(Entity),
    Gib(Location),
}

} // verus!
