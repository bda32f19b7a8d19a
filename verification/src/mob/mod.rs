//! Monsters: their data, behaviour, path finding, drops and skills.

pub mod data;
pub mod pathfinder;
pub mod droptable;
pub mod ai;
pub mod skill_db;
pub mod spawn;
pub mod yaml_loader;
