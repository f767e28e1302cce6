//! The components an entity may carry, and the intent messages that the
//! systems pass to one another within a turn.

use vstd::prelude::*;
use crate::geometry::Point;

verus! {

/// Identifier of an entity of the world.
#[derive(Clone, Copy, Debug, PartialEq, Eq, Structural)]
pub struct Entity(pub u64);

/// An RGB colour.
#[derive(Clone, Copy, Debug, PartialEq, Eq, Structural)]
pub struct Rgb(pub u8, pub u8, pub u8);

/// Foreground and background colour of a glyph.
#[derive(Clone, Copy, Debug, PartialEq, Eq, Structural)]
pub struct ColorPair {
    pub fg: Rgb,
    pub bg: Rgb,
}

/// Component for entities that should be rendered.
#[derive(Clone, Copy, Debug, PartialEq, Eq, Structural)]
pub struct Renderable {
    pub color: ColorPair,
    pub glyph: char,
}

/// Player tag.
#[derive(Clone, Copy, Debug, PartialEq, Eq, Structural)]
pub struct Player;

/// Enemy tag.
#[derive(Clone, Copy, Debug, PartialEq, Eq, Structural)]
pub struct Enemy;

/// Entity stats used for combat.
#[derive(Clone, Copy, Debug, PartialEq, Eq, Structural)]
pub struct Stats {
    pub max_health: i32,
    pub health: i32,
    pub damage: i32,
}

/// Tag for the random movement system.
#[derive(Clone, Copy, Debug, PartialEq, Eq, Structural)]
pub struct RandomMovement;

/// Tag for the player-targeted movement system.
#[derive(Clone, Copy, Debug, PartialEq, Eq, Structural)]
pub struct TargetedMovement;

/// Message for entities who want to move.
#[derive(Clone, Copy, Debug, PartialEq, Eq, Structural)]
pub struct WantsToMove {
    pub entity: Entity,
    pub destination: Point,
}

/// Message for entities who want to attack.
#[derive(Clone, Copy, Debug, PartialEq, Eq, Structural)]
pub struct WantsToAttack {
    pub entity: Entity,
    pub target: Entity,
}

/// Message for entities who want to mine.
#[derive(Clone, Copy, Debug, PartialEq, Eq, Structural)]
pub struct WantsToMine {
    pub entity: Entity,
    pub target: Point,
}

/// Display name, also the way combat tells the player from the rest.
#[derive(Clone, Debug)]
pub struct Name(pub String);

/// Mining range.
#[derive(Clone, Copy, Debug, PartialEq, Eq, Structural)]
pub struct MineRange(pub i32);

} // verus!
