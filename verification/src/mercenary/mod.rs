//! Mercenaries: their templates, contracts and loyalty, and the rules for
//! hiring and summoning them.

pub mod data;
pub mod yaml_loader;
pub mod manager;
