//! Board dimensions and pacing of the standard simulation.

use vstd::prelude::*;

verus! {

/// Number of grid columns of the standard board.
pub const GRID_WIDTH: i32 = 10;

/// Number of grid rows of the standard board.
pub const GRID_HEIGHT: i32 = 10;

/// Edge length of one tile in world (pixel) coordinates.
pub const TILE_SIZE: i32 = 64;

/// Fixed real-time delay before the enemy phase may hand the turn back.
pub const ENEMY_TURN_DELAY_MS: u64 = 2000;

} // verus!
