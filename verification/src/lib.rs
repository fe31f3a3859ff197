//! A layered ASCII tile renderer: drawing calls are queued as commands per
//! layer, folded into a double sub-buffer tile state once per frame, and then
//! diffed against the displayed tiles so that only changed chunks are marked
//! for re-upload.

use vstd::prelude::*;

pub mod builder;
pub mod camera;
pub mod color;
pub mod components;
pub mod draw_context;
pub mod entity_render;
pub mod geometry;
pub mod layer;
pub mod map;
pub mod map_render;
pub mod render;
pub mod setup;
pub mod systems;
pub mod turn;

verus! {

/// Width of the default map, in tiles.
pub const WIDTH: u32 = 80;

/// Height of the default map, in tiles.
pub const HEIGHT: u32 = 50;

} // verus!
