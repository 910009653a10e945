//! Core state machine of a turn-based, tile-grid survival sim.
//!
//! A player moves across a bounded map of typed tiles, carries a fixed-size
//! inventory, picks up / drops / swaps / consumes items, and toggles doors by
//! adjacency. The command processor applies one decoded command at a time to
//! the player, the map and the turn log; rendering and input decoding live
//! outside this crate.

pub mod commands;
pub mod items;
pub mod map;
pub mod player;
pub mod stat;
pub mod tiles;
pub mod turnlog;

pub use items::{ItemContainer, Items, CONTAINER_CAPACITY};
pub use map::{generate_map, MapHandler, MAP_SIZE};
pub use player::{CompoundAction, Player, MAX_SLOT};
pub use stat::Stat;
pub use tiles::{FloorTile, RoadTile, Tiles};
pub use turnlog::TurnLog;
