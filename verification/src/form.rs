//! Forms: the prototypes for the entities the world creates, and the
//! immutable registry of the standard ones. The registry is built once
//! at startup and handed to the world; nothing global.

use vstd::prelude::*;
use crate::components::{Brain, Desc, Health, Intrinsic, Item, MapMemory, Stats};
use crate::{AreaSpec, Biome};

verus! {

/// Names of the standard forms.
#[derive(Clone, Copy, PartialEq, Eq, Structural, Debug)]
pub enum Forms {
    Player,
    Dreg,
    Snake,
    Ooze,
}

/// The component rows a new entity starts with. Map memory always
/// starts empty, so a flag is enough for it.
pub struct Loadout {
    pub stats: Option<Stats>,
    pub desc: Option<Desc>,
    pub brain: Option<Brain>,
    pub health: Option<Health>,
    pub item: Option<Item>,
    pub map_memory: bool,
}

impl Loadout {
    pub open spec fn wf(self) -> bool {
        self.stats is Some ==> self.stats->0.wf()
    }

    pub fn new() -> (r: Loadout)
        ensures
            r == (Loadout {
                stats: None::<Stats>,
                desc: None::<Desc>,
                brain: None::<Brain>,
                health: None::<Health>,
                item: None::<Item>,
                map_memory: false,
            }),
    {
        Loadout { stats: None, desc: None, brain: None, health: None, item: None, map_memory: false }
    }

    /// A copy with the same component rows.
    pub fn duplicate(&self) -> (r: Loadout)
        ensures
            r.stats == self.stats,
            r.brain == self.brain,
            r.health == self.health,
            r.item == self.item,
            r.map_memory == self.map_memory,
            r.desc is Some <==> self.desc is Some,
            r.desc is Some ==> r.desc->0@ == self.desc->0@,
            r.wf() == self.wf(),
    {
        let desc = match &self.desc {
            Some(d) => Some(d.duplicate()),
            None => None,
        };
        Loadout {
            stats: self.stats,
            desc,
            brain: self.brain,
            health: self.health,
            item: self.item,
            map_memory: self.map_memory,
        }
    }

    /// Add one component to the loadout.
    pub fn c<C: Component>(self, comp: C) -> (r: Loadout)
        ensures
            r == comp.merged(self),
    {
        comp.add_to(self)
    }
}

/// What `spawn` takes: a bundle of component rows for a new entity.
pub type ExternalEntity = Loadout;

/// Anything that can slot itself into a loadout.
pub trait Component: Sized {
    /// The loadout with this component added.
    spec fn merged(self, l: Loadout) -> Loadout;

    fn add_to(self, l: Loadout) -> (r: Loadout)
        ensures
            r == self.merged(l),
    ;
}

impl Component for Stats {
    open spec fn merged(self, l: Loadout) -> Loadout {
        Loadout { stats: Some(self), ..l }
    }

    fn add_to(self, l: Loadout) -> (r: Loadout)
        ensures
            r == self.merged(l),
    {
        Loadout { stats: Some(self), ..l }
    }
}

impl Component for Desc {
    open spec fn merged(self, l: Loadout) -> Loadout {
        Loadout { desc: Some(self), ..l }
    }

    fn add_to(self, l: Loadout) -> (r: Loadout)
        ensures
            r == self.merged(l),
    {
        Loadout { desc: Some(self), ..l }
    }
}

impl Component for Brain {
    open spec fn merged(self, l: Loadout) -> Loadout {
        Loadout { brain: Some(self), ..l }
    }

    fn add_to(self, l: Loadout) -> (r: Loadout)
        ensures
            r == self.merged(l),
    {
        Loadout { brain: Some(self), ..l }
    }
}

impl Component for Health {
    open spec fn merged(self, l: Loadout) -> Loadout {
        Loadout { health: Some(self), ..l }
    }

    fn add_to(self, l: Loadout) -> (r: Loadout)
        ensures
            r == self.merged(l),
    {
        Loadout { health: Some(self), ..l }
    }
}

impl Component for Item {
    open spec fn merged(self, l: Loadout) -> Loadout {
        Loadout { item: Some(self), ..l }
    }

    fn add_to(self, l: Loadout) -> (r: Loadout)
        ensures
            r == self.merged(l),
    {
        Loadout { item: Some(self), ..l }
    }
}

impl Component for MapMemory {
    open spec fn merged(self, l: Loadout) -> Loadout {
        Loadout { map_memory: true, ..l }
    }

    fn add_to(self, l: Loadout) -> (r: Loadout)
        ensures
            r == self.merged(l),
    {
        Loadout { map_memory: true, ..l }
    }
}

/// A prototype for the entities the world creates.
pub struct Form {
    /// How seldom the form spawns; zero means never. Spawn weight is
    /// the inverse of rarity.
    pub rarity: u32,
    /// Minimum depth where the entity will show up.
    pub min_depth: i32,
    /// Biomes the entity can hatch in.
    pub habitat: Biome,
    /// Actual components to set up the thing.
    pub loadout: Loadout,
}

impl Form {
    /// Spawn probability weight: the inverse of rarity, zero for
    /// rarity zero.
    pub open spec fn weight_s(self) -> u32 {
        if self.rarity == 0 {
            0u32
        } else {
            (1000u32 / self.rarity) as u32
        }
    }

    pub open spec fn wf(self) -> bool {
        self.loadout.wf()
    }

    pub fn weight(&self) -> (r: u32)
        ensures
            r == self.weight_s(),
            r <= 1000,
    {
        if self.rarity == 0 {
            0
        } else {
            1000 / self.rarity
        }
    }

    /// The habitat requirement of the form at its minimum depth.
    pub fn habitat_spec(&self) -> (r: AreaSpec)
        ensures
            r == (AreaSpec { biome: self.habitat, depth: self.min_depth }),
    {
        AreaSpec { biome: self.habitat, depth: self.min_depth }
    }

    /// A standard form for a living creature.
    pub fn mob(name: &str, brush: &str, power: i32, intrinsics: &[Intrinsic]) -> (r: Form)
        requires
            -crate::components::STAT_BOUND <= power <= crate::components::STAT_BOUND,
        ensures
            r.rarity == 1,
            r.min_depth == 0,
            r.habitat == Biome::Anywhere,
            r.loadout.stats is Some && r.loadout.stats->0.power == power
                && r.loadout.stats->0.armor == 0,
            r.loadout.desc is Some && r.loadout.desc->0@ == (name@, brush@),
            r.loadout.brain == Some(Brain { kind: crate::components::BrainKind::Enemy }),
            r.loadout.health == Some(
                Health {
                    hp: crate::components::BASE_HEALTH,
                    max_hp: crate::components::BASE_HEALTH,
                },
            ),
            r.loadout.item is None,
            r.loadout.map_memory == false,
            r.wf(),
    {
        Form {
            rarity: 1,
            min_depth: 0,
            habitat: Biome::Anywhere,
            loadout: Loadout::new().c(Stats::new(power, intrinsics)).c(Desc::new(name, brush)).c(
                Brain::enemy(),
            ).c(Health::new()),
        }
    }

    pub fn rarity(self, rarity: u32) -> (r: Form)
        ensures
            r == (Form { rarity, ..self }),
    {
        Form { rarity, ..self }
    }

    pub fn depth(self, min_depth: i32) -> (r: Form)
        ensures
            r == (Form { min_depth, ..self }),
    {
        Form { min_depth, ..self }
    }

    pub fn habitat(self, habitat: Biome) -> (r: Form)
        ensures
            r == (Form { habitat, ..self }),
    {
        Form { habitat, ..self }
    }

    pub fn player(self) -> (r: Form)
        ensures
            r.loadout.brain == Some(Brain { kind: crate::components::BrainKind::Player }),
            r.rarity == self.rarity,
            r.min_depth == self.min_depth,
            r.habitat == self.habitat,
            r.loadout.stats == self.loadout.stats,
            r.loadout.desc == self.loadout.desc,
            r.loadout.health == self.loadout.health,
            r.loadout.item == self.loadout.item,
            r.loadout.map_memory == self.loadout.map_memory,
    {
        let Form { rarity, min_depth, habitat, loadout } = self;
        Form { rarity, min_depth, habitat, loadout: loadout.c(Brain::player()) }
    }

    pub fn c<C: Component>(self, comp: C) -> (r: Form)
        ensures
            r.rarity == self.rarity,
            r.min_depth == self.min_depth,
            r.habitat == self.habitat,
            r.loadout == comp.merged(self.loadout),
    {
        let Form { rarity, min_depth, habitat, loadout } = self;
        Form { rarity, min_depth, habitat, loadout: loadout.c(comp) }
    }

    /// The name of the form, if it has one.
    pub fn name(&self) -> (r: Option<&String>)
        ensures
            match r {
                Some(n) => self.loadout.desc is Some && n@ == self.loadout.desc->0@.0,
                None => self.loadout.desc is None,
            },
    {
        match &self.loadout.desc {
            Some(desc) => Some(&desc.name),
            None => None,
        }
    }

    /// The form at an index bears the given name.
    pub open spec fn named_at(forms: Seq<Form>, i: int, name: Seq<char>) -> bool {
        0 <= i < forms.len() && forms[i].loadout.desc is Some && forms[i].loadout.desc->0@.0
            == name
    }

    /// The first form of the given name in a registry, or nothing when
    /// no form bears the name.
    pub fn named<'a>(forms: &'a Vec<Form>, name: &str) -> (r: Option<&'a Form>)
        ensures
            match r {
                Some(f) => exists|i: int|
                    Self::named_at(forms@, i, name@) && forms@[i] == *f && (forall|j: int|
                        0 <= j < i ==> !Self::named_at(forms@, j, name@)),
                None => forall|i: int| 0 <= i < forms@.len() ==> !Self::named_at(forms@, i, name@),
            },
    {
        let wanted = name.to_owned();
        let n = forms.len();
        let mut i: usize = 0;
        while i < n
            invariant
                i <= n,
                n == forms@.len(),
                wanted@ == name@,
                forall|j: int| 0 <= j < i ==> !Self::named_at(forms@, j, name@),
            decreases n - i,
        {
            match &forms[i].loadout.desc {
                Some(desc) => {
                    if desc.name == wanted {
                        proof {
                            assert(Self::named_at(forms@, i as int, name@));
                        }
                        return Some(&forms[i]);
                    }
                },
                None => {},
            }
            i += 1;
        }
        None
    }
}

/// The immutable registry of standard forms, built once at startup:
/// the player prototype and the two stock creatures.
pub fn registry() -> (r: Vec<Form>)
    ensures
        r@.len() == 3,
        forall|i: int| 0 <= i < r@.len() ==> (#[trigger] r@[i]).wf(),
        r@[0].loadout.brain == Some(Brain { kind: crate::components::BrainKind::Player }),
        r@[0].rarity == 0,
        forall|i: int|
            1 <= i < r@.len() ==> (#[trigger] r@[i]).loadout.brain == Some(
                Brain { kind: crate::components::BrainKind::Enemy },
            ),
{
    let mut v: Vec<Form> = Vec::new();
    v.push(Form::mob("player", "player", 10, &[Intrinsic::Hands]).rarity(0).player().c(
        MapMemory::new(),
    ));
    v.push(Form::mob("dreg", "dreg", 1, &[Intrinsic::Hands]));
    v.push(Form::mob("snake", "snake", 1, &[]));
    v
}

} // verus!
