//! Elements, element levels and body sizes of monsters.

use vstd::prelude::*;

verus! {

/// The element of a monster or an attack.
#[derive(Debug, Clone, Copy, PartialEq, Eq, Structural)]
pub enum Element {
    Neutral,
    Water,
    Earth,
    Fire,
    Wind,
    Poison,
    Holy,
    Dark,
    /// The ghost element.
    Ghost_,
    Undead,
}

/// The strength of a monster's element, from 1 to 4.
#[derive(Debug, Clone, Copy, PartialEq, Eq, Structural)]
pub enum ElementLevel {
    Level1,
    Level2,
    Level3,
    Level4,
}

/// The body size of a monster.
#[derive(Debug, Clone, Copy, PartialEq, Eq, Structural)]
pub enum MobSize {
    Small,
    Medium,
    Large,
}

} // verus!
