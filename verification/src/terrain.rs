//! Terrain types and the terrain store of the map.

use vstd::prelude::*;
use crate::assoc::{AssocMap, KeyEq};
use crate::location::Location;
use crate::Biome;

verus! {

/// Kinds of ground a map cell can hold.
#[derive(Clone, Copy, PartialEq, Eq, Structural, Debug)]
pub enum Terrain {
    /// Unformed nothingness; impassable and opaque.
    Void,
    Floor,
    Grass,
    Water,
    Tree,
    Rock,
    Wall,
}

impl Terrain {
    /// Whether sight stops at this cell.
    pub open spec fn blocks_sight_s(self) -> bool {
        match self {
            Terrain::Void => true,
            Terrain::Tree => true,
            Terrain::Rock => true,
            Terrain::Wall => true,
            _ => false,
        }
    }

    pub fn blocks_sight(self) -> (r: bool)
        ensures
            r == self.blocks_sight_s(),
    {
        match self {
            Terrain::Void => true,
            Terrain::Tree => true,
            Terrain::Rock => true,
            Terrain::Wall => true,
            _ => false,
        }
    }

    /// Whether a projectile stops before this cell.
    pub open spec fn blocks_shot_s(self) -> bool {
        match self {
            Terrain::Void => true,
            Terrain::Tree => true,
            Terrain::Rock => true,
            Terrain::Wall => true,
            _ => false,
        }
    }

    pub fn blocks_shot(self) -> (r: bool)
        ensures
            r == self.blocks_shot_s(),
    {
        match self {
            Terrain::Void => true,
            Terrain::Tree => true,
            Terrain::Rock => true,
            Terrain::Wall => true,
            _ => false,
        }
    }

    /// Whether a creature cannot stand on this cell.
    pub open spec fn blocks_walk_s(self) -> bool {
        match self {
            Terrain::Floor => false,
            Terrain::Grass => false,
            _ => true,
        }
    }

    pub fn blocks_walk(self) -> (r: bool)
        ensures
            r == self.blocks_walk_s(),
    {
        match self {
            Terrain::Floor => false,
            Terrain::Grass => false,
            _ => true,
        }
    }
}

impl KeyEq for Terrain {
    fn keq(&self, other: &Self) -> (r: bool)
        ensures
            r == (*self == *other),
    {
        *self == *other
    }
}

/// Biome a cell belongs to, by z-level: the surface is overland,
/// everything else is dungeon.
pub open spec fn biome_of(loc: Location) -> Biome {
    if loc.z == 0 {
        Biome::Overland
    } else {
        Biome::Dungeon
    }
}

/// Terrain of a cell that was never written: the default terrain of its
/// biome.
pub open spec fn default_terrain_at(loc: Location) -> Terrain {
    if loc.z == 0 {
        Terrain::Tree
    } else {
        Terrain::Rock
    }
}

/// Terrain of a cell under a cell store.
pub open spec fn terrain_at(cells: Map<Location, Terrain>, loc: Location) -> Terrain {
    if cells.contains_key(loc) {
        cells[loc]
    } else {
        default_terrain_at(loc)
    }
}

/// The terrain of the whole map: explicitly written cells over a
/// per-biome default.
pub struct TerrainMap {
    pub cells: AssocMap<Location, Terrain>,
}

impl TerrainMap {
    pub open spec fn wf(self) -> bool {
        self.cells.wf()
    }

    pub fn new() -> (r: TerrainMap)
        ensures
            r.wf(),
            r.cells@ == Map::<Location, Terrain>::empty(),
    {
        TerrainMap { cells: AssocMap::new() }
    }

    pub fn at(&self, loc: Location) -> (r: Terrain)
        requires
            self.wf(),
        ensures
            r == terrain_at(self.cells@, loc),
    {
        match self.cells.get(&loc) {
            Some(t) => *t,
            None => {
                if loc.z == 0 {
                    Terrain::Tree
                } else {
                    Terrain::Rock
                }
            },
        }
    }

    pub fn set(&mut self, loc: Location, t: Terrain)
        requires
            old(self).wf(),
        ensures
            final(self).wf(),
            final(self).cells@ == old(self).cells@.insert(loc, t),
    {
        self.cells.insert(loc, t);
    }
}

} // verus!
