//! The fixed quantities of the game.
//!
//! Lengths are thousandths of a pixel, times are microseconds, speeds are
//! thousandths of a pixel per second and ratios are millionths.

use vstd::prelude::*;

verus! {

/// Width of the playfield.
pub const SCREEN_WIDTH: i32 = 800_000;

/// Height of the playfield.
pub const SCREEN_HEIGHT: i32 = 600_000;

/// Half of the player's width.
pub const PLAYER_HALF_WIDTH: i32 = 10_000;

/// Half of the player's height.
pub const PLAYER_HALF_HEIGHT: i32 = 7_500;

/// Leftmost position of the player: half its width inside the playfield.
pub const PLAYER_LEFT: i32 = PLAYER_HALF_WIDTH;

/// Rightmost position of the player.
pub const PLAYER_RIGHT: i32 = SCREEN_WIDTH - PLAYER_HALF_WIDTH;

/// Topmost position of the player: half its height inside the playfield.
pub const PLAYER_TOP: i32 = PLAYER_HALF_HEIGHT;

/// Lowest position of the player.
pub const PLAYER_BOTTOM: i32 = SCREEN_HEIGHT - PLAYER_HALF_HEIGHT;

/// Horizontal start position of the player.
pub const PLAYER_START_X: i32 = 400_000;

/// Vertical start position of the player.
pub const PLAYER_START_Y: i32 = 500_000;

/// Health of the player at the start.
pub const PLAYER_HEALTH: u8 = 1;

/// Radius of an enemy.
pub const ENEMY_RADIUS: i32 = 10_000;

/// How far below the playfield an enemy may sink before it is removed.
pub const ENEMY_EXIT_MARGIN: i32 = 50_000;

/// The lowest line that an enemy may reach before it is removed: the bottom
/// of the playfield and the exit margin.
pub const ENEMY_EXIT_Y: i32 = SCREEN_HEIGHT + ENEMY_EXIT_MARGIN;

/// Leftmost position at which an enemy appears: its radius inside the
/// playfield.
pub const SPAWN_LEFT: i32 = ENEMY_RADIUS;

/// Rightmost position at which an enemy appears: its radius inside the
/// playfield.
pub const SPAWN_RIGHT: i32 = SCREEN_WIDTH - ENEMY_RADIUS;

/// Height at which an enemy appears: its radius above the playfield.
pub const SPAWN_Y: i32 = -ENEMY_RADIUS;

/// How far to either side of its donor a clustering enemy may appear.
pub const CLUSTER_SPREAD: i32 = 100_000;

/// Chance, in a hundred, that an enemy appears near another.
pub const CLUSTER_CHANCE: u32 = 40;

/// The value of an oscillation sample that stands for one.
pub const SWAY_UNIT: i32 = 1_000;

/// Radius of the acquisition circle.
pub const LOCK_RADIUS: i32 = 100_000;

/// Greatest number of enemies locked at once.
pub const MAX_TARGETS: u8 = 6;

/// Shortest hold that counts as a long press.
pub const LONG_PRESS_TIME: u64 = 200_000;

/// Vertical velocity of a straight laser.
pub const NORMAL_LASER_VELOCITY: i32 = -350_000;

/// Lifetime of a straight laser.
pub const NORMAL_LASER_LIFETIME: u32 = 3_000_000;

/// How far above the playfield a straight laser may rise before it is removed.
pub const LASER_EXIT_MARGIN: i32 = 50_000;

/// Launch speed of a homing laser.
pub const HOMING_INITIAL_SPEED: u32 = 140_000;

/// Acceleration of a homing laser, per second.
pub const HOMING_ACCELERATION: u32 = 560_000;

/// Greatest speed of a homing laser.
pub const HOMING_MAX_SPEED: u32 = 560_000;

/// How far the control point of a homing laser's curve lies above the
/// midpoint of its start and its target.
pub const CURVE_LIFT: i32 = 100_000;

/// The progress of a homing laser that has arrived, and the ratio one.
pub const FULL: u32 = 1_000_000;

/// Score for an enemy destroyed by a straight laser.
pub const NORMAL_KILL_SCORE: u32 = 100;

/// Score for each homing laser that arrives.
pub const HOMING_KILL_SCORE: u32 = 200;

/// How long a bonus popup is shown.
pub const BONUS_DISPLAY_TIME: u32 = 2_000_000;

/// Speed at which a bonus popup rises.
pub const BONUS_RISE_SPEED: i32 = 30_000;

/// Horizontal position of a new bonus popup.
pub const BONUS_DISPLAY_X: i32 = 400_000;

/// Vertical position of a new bonus popup.
pub const BONUS_DISPLAY_Y: i32 = 300_000;

/// Length of one difficulty level.
pub const LEVEL_DURATION: u64 = 30_000_000;

/// Microseconds in a second.
pub const MICROS_PER_SECOND: i64 = 1_000_000;

} // verus!
