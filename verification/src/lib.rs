//! The rules of a tile-based 2D sandbox world: tiles and their properties,
//! the world grid with its change tracking, procedural terrain layout,
//! collision scans, block mining and placement, the hotbar and the
//! visible-range bookkeeping used for rendering.
//!
//! Everything here works on integers: positions are tile coordinates or
//! whole pixels, colours are hundredths of a channel. Floating-point
//! physics, noise sampling and drawing live in the application around it.
use vstd::prelude::*;

pub mod tile;
pub mod view;
pub mod world;
pub mod controls;
pub mod hud;
pub mod mining;
pub mod noise;
pub mod render;
pub mod terrain;

verus! {

/// Edge length of one tile, in pixels.
pub const TILE_SIZE_PX: i64 = 16;

/// Width of the world, in tiles.
pub const WORLD_WIDTH: usize = 400;

/// Height of the world, in tiles.
pub const WORLD_HEIGHT: usize = 200;

} // verus!

