//! Abstract effects, abilities and the action outcome type.

use vstd::prelude::*;

verus! {

/// Kinds of damage an attack can carry.
#[derive(Clone, Copy, PartialEq, Eq, Structural, Debug)]
pub enum Damage {
    Physical,
    Fire,
    Electricity,
}

/// An abstract state change that can be aimed at entities or areas.
#[derive(Clone, Copy, PartialEq, Eq, Structural, Debug)]
pub enum Effect {
    /// Deal damage of the given kind.
    Hit { amount: u32, damage: Damage },
    /// Inflict the confused status for a while.
    Confuse,
}

/// Invokable capabilities items can carry.
#[derive(Clone, Copy, PartialEq, Eq, Structural, Debug)]
pub enum Ability {
    /// Strikes a random nearby mob; untargeted.
    LightningBolt,
    /// Flies in a direction and explodes; targeted.
    Fireball,
    /// Confuses whatever stands where it lands; targeted.
    Confuse,
}

impl Ability {
    /// Whether the ability needs a direction to be invoked.
    pub open spec fn is_targeted_s(self) -> bool {
        match self {
            Ability::LightningBolt => false,
            Ability::Fireball => true,
            Ability::Confuse => true,
        }
    }

    pub fn is_targeted(self) -> (r: bool)
        ensures
            r == self.is_targeted_s(),
    {
        match self {
            Ability::LightningBolt => false,
            Ability::Fireball => true,
            Ability::Confuse => true,
        }
    }
}

/// Result of trying an action: `None` means the actor could not act and
/// nothing changed; `Some(true)` means the action (or a fizzle) went
/// through and the turn was consumed.
pub type ActionOutcome = Option<bool>;

} // verus!
