//! Tunable constants of the game, in fixed-point units.
//!
//! World coordinates are measured in milliunits (1/1000 of a world unit),
//! angles in milliradians. A speed is per second; a duration is in
//! milliseconds.

use vstd::prelude::*;

verus! {

/// Fixed-point scale: milliunits per world unit.
pub const SCALE: i64 = 1000;

/// Target spacing between consecutive chain points (2 world units).
pub const DISTANCE_BETWEEN_POINTS: i64 = 2000;

/// Number of points in the freshly spawned snake chain.
pub const INITIAL_LENGTH: usize = 40;

/// Thickness of the snake ribbon (3 world units).
pub const SNAKE_THICKNESS: i64 = 3000;

/// How many obstacles a procedurally filled level would hold.
pub const NUMBER_OF_OBSTACLES: u32 = 10;

/// Angular rate of a held turn input, in milliradians per second.
pub const TURN_SPEED: i64 = 3000;

/// Speed of the head, and of each trailing point while it catches up,
/// in milliunits per second.
pub const MOVEMENT_SPEED: i64 = 20000;

/// A full turn (2 * pi) in milliradians.
pub const TAU_MRAD: i64 = 6283;

/// Half a turn (pi) in milliradians: the default heading.
pub const PI_MRAD: i64 = 3141;

/// Duration of the invincibility window granted on a collision.
pub const INVINCIBILITY_MS: u32 = 3000;

/// Number of chain points removed as the penalty for a collision.
pub const COLLISION_PENALTY_POINTS: usize = 3;

/// Lives a fresh round starts with.
pub const INITIAL_LIFES: u32 = 1;

/// Radius within which the head picks a food item up (10 world units).
pub const PICKUP_RADIUS: i64 = 10000;

/// Food items alive at any moment: spawned at round start and replenished
/// one-for-one on pickup.
pub const INITIAL_FOOD_COUNT: usize = 4;

/// Every coordinate the library computes with stays within this bound;
/// it keeps all intermediate products inside `i64`.
pub const COORD_LIMIT: i64 = 1_000_000_000;

/// The play area: a round keeps every snake point within this bound,
/// far beyond any visible window yet small enough against
/// `COORD_LIMIT` that the growth extrapolations always have room.
pub const PLAY_LIMIT: i64 = 31_250_000;

/// Longest frame time a tick accepts, in milliseconds; it caps the
/// per-tick movement at the target point spacing.
pub const MAX_TICK_MS: u32 = 100;

} // verus!
