//! Map grids, cell rules, map files, channels, respawn and teleport.

pub mod cell;
pub mod data;
pub mod gat;
pub mod channel;
pub mod respawn;
pub mod teleport;
pub mod drop_item;
pub mod player;
pub mod job;
pub mod map_state;
pub mod status_packets;
pub mod enter;
