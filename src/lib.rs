//! A turn-based dungeon crawl: cave generation by cellular automata, an
//! entity table, intent resolution and the turn state machine.

pub mod components;
pub mod geometry;
pub mod map;
pub mod rng;
pub mod spawner;
pub mod world;
pub mod systems;
pub mod text;
pub mod ui;
pub mod ai;
pub mod schedule;
pub mod laws;
pub mod render;
pub mod game;
