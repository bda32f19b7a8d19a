//! Core game-world logic of a Ragnarok-style map server: map grids and the
//! `.gat` format, teleport and respawn rules, mob data and behaviour,
//! mercenary contracts and the script variable store.

pub mod map;
pub mod mob;
pub mod element;
pub mod mercenary;
pub mod mapreg;
pub mod strmap;
pub mod text;
pub mod rng;
pub mod bytes;
pub mod clock;

