//! Fixed-point units and the tuning constants of the game.
//!
//! Positions: sub-pixels, 11250 per pixel (11250 = 150 * 75).
//! Vertical velocity: units of 1/75 px/s, so one tick (1/75 s) displaces a
//! body by exactly `2 * velocity` sub-pixels.
//! Time: units of 1/75000 s, so one tick lasts exactly 1000 units.

use vstd::prelude::*;

verus! {

/// Sub-pixels per pixel.
pub const SUBPX: i64 = 11250;

/// Duration of one simulation tick, in time units (1/75 s).
pub const TIME_STEP: u64 = 1000;

/// Time units per second (the simulation runs at 75 Hz).
pub const TIME_UNITS_PER_SEC: u64 = 75000;

/// Upper clamp of the frame-time accumulator: 0.1 s.
pub const MAX_ACCUMULATOR: u64 = 7500;

/// Largest number of ticks a single real frame can run (7500 / 1000).
pub const MAX_TICKS_PER_FRAME: u64 = 7;

/// Largest frame time that can never lose time to the accumulator clamp,
/// starting from a drained accumulator: MAX_ACCUMULATOR - TIME_STEP + 1.
pub const LOSSLESS_FRAME_DT: u64 = 6501;

/// Gravity, as velocity gained per tick: 1300 px/s^2 * (1/75 s) in velocity units.
pub const GRAVITY_PER_TICK: i64 = 1300;

/// Velocity set by a jump impulse: -460 px/s in velocity units.
pub const JUMP_VELOCITY: i64 = -460 * 75;

/// Half the player sprite: 25 px, in sub-pixels.
pub const PLAYER_SIZE: i64 = 25 * 11250;

/// Side of the player's square collision rectangle: 47.5 px (25 px * 1.90).
pub const PLAYER_RECT_SIDE: i64 = 534375;

/// Fixed horizontal position of the player: 100 px, in sub-pixels.
pub const PLAYER_X: i64 = 100 * 11250;

/// Vertical position of the player at the start of a round: 100 px.
pub const PLAYER_START_Y: i64 = 100 * 11250;

/// Width of an obstacle: 80 px, in sub-pixels.
pub const OBSTACLE_WIDTH: i64 = 80 * 11250;

/// Horizontal distance an obstacle (and the background) covers per tick:
/// 300 px/s * (1/75 s) = 4 px, in sub-pixels.
pub const SCROLL_PER_TICK: i64 = 4 * 11250;

/// Height of the floor strip below the bottom obstacle: 120 px.
pub const FLOOR_MARGIN: i64 = 120 * 11250;

/// Vertical gap between the two members of a pair: 150 px.
pub const GAP: i64 = 150 * 11250;

/// Vertical budget a pair deducts from the screen: GAP + FLOOR_MARGIN.
pub const GAP_PLUS_FLOOR: i64 = 270 * 11250;

/// The player scores a pair once it clears the pair's right edge by 30 px.
pub const PASS_MARGIN: i64 = 30 * 11250;

/// Obstacles whose x falls below -100 px are retired.
pub const RETIRE_X: i64 = -100 * 11250;

/// Smallest height drawn for the visible part of the bottom obstacle: 70 px.
pub const SPAWN_HEIGHT_MIN: i64 = 70 * 11250;

/// Largest height drawn for the visible part of the bottom obstacle: 350 px.
pub const SPAWN_HEIGHT_MAX: i64 = 350 * 11250;

/// Shortest interval between spawns: 1.0 s, in time units.
pub const SPAWN_INTERVAL_MIN: u64 = 75000;

/// Longest interval between spawns: 2.0 s, in time units.
pub const SPAWN_INTERVAL_MAX: u64 = 150000;

/// Smallest supported screen side, in pixels.
pub const SCREEN_MIN_PX: u32 = 200;

/// Largest supported screen side, in pixels.
pub const SCREEN_MAX_PX: u32 = 100000;

/// Smallest supported screen side, in sub-pixels.
pub const SCREEN_MIN: i64 = 200 * 11250;

/// Largest supported screen side, in sub-pixels.
pub const SCREEN_MAX: i64 = 100000 * 11250;

} // verus!
