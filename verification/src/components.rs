//! The dungeon game's plain data records: positions, how an entity is
//! drawn, role markers, health, names, and the intents the turn systems
//! exchange. Entities are identified by plain ids.

use vstd::prelude::*;

use crate::color::GlyphColor;
use crate::geometry::UVec2;

verus! {

/// Where an entity stands, in map tiles.
#[derive(Debug, Clone, Copy, PartialEq, Eq, Structural)]
pub struct Position(pub UVec2);

/// How an entity is drawn: its colors and its glyph.
#[derive(Debug, Clone, Copy, PartialEq, Eq, Structural)]
pub struct Render {
    pub color: GlyphColor,
    pub glyph: char,
}

/// Marks the player entity.
#[derive(Debug, Clone, Copy, PartialEq, Eq, Structural)]
pub struct Player;

/// Marks a hostile entity.
#[derive(Debug, Clone, Copy, PartialEq, Eq, Structural)]
pub struct Enemy;

/// Marks an entity that wanders at random each monster turn.
#[derive(Debug, Clone, Copy, PartialEq, Eq, Structural)]
pub struct MovingRandomly;

/// The intent to move an entity to a destination this turn.
#[derive(Debug, Clone, Copy, PartialEq, Eq, Structural)]
pub struct WantsToMove {
    pub entity: u64,
    pub destination: Position,
}

/// An entity's hit points.
#[derive(Debug, Clone, Copy, PartialEq, Eq, Structural)]
pub struct Health {
    pub current: i32,
    pub max: i32,
}

/// An entity's display name.
#[derive(Debug, Clone)]
pub struct Name(pub String);

/// Where the pointing cursor hovers, in tiles, if it is over the window.
#[derive(Debug, Clone, Copy, PartialEq, Eq, Structural)]
pub struct CursorPos(pub Option<UVec2>);

/// The intent of one entity to attack another this turn.
#[derive(Debug, Clone, Copy, PartialEq, Eq, Structural)]
pub struct WantsToAttack {
    pub attacker: u64,
    pub victim: u64,
}

} // verus!
