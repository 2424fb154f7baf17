//! An endlessly explorable dungeon: a graph of walled rooms joined by
//! paired doors, a single explorer moving through it, and a
//! player-centered viewport over the current room.

pub mod tile;
pub mod console;
pub mod game;
pub mod ui;
pub mod utils;
