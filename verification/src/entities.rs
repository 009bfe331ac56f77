//! The things that populate the world.

use vstd::prelude::*;
use crate::constants::{PLAYER_HEALTH, PLAYER_START_X, PLAYER_START_Y};
use crate::geometry::Point;

verus! {

/// The player's ship.
#[derive(Clone, Copy, PartialEq, Eq, Debug)]
pub struct Player {
    /// Centre of the ship, always inside the playfield.
    pub position: Point,
    pub health: u8,
}

/// How an enemy moves.
#[derive(Clone, Copy, PartialEq, Eq, Structural, Debug)]
pub enum EnemyType {
    /// Straight down.
    Straight,
    /// Down, swaying with a sine.
    Zigzag,
    /// Down more slowly, swaying with a cosine.
    Arc,
    /// Toward the player.
    Homing,
}

/// An enemy.
#[derive(Clone, Copy, PartialEq, Eq, Debug)]
pub struct Enemy {
    pub position: Point,
    pub velocity: Point,
    /// Whether the lock-on system holds this enemy.
    pub is_locked: bool,
    pub enemy_type: EnemyType,
    /// When the enemy appeared.
    pub spawn_time: u64,
    pub base_speed: i32,
    /// The current value of the enemy's oscillation, in thousandths: the sine
    /// of twice the seconds since it appeared for a zigzagging enemy, the
    /// cosine of one and a half times those seconds for an arcing one.
    pub sway: i32,
}

/// A laser that flies straight up.
#[derive(Clone, Copy, PartialEq, Eq, Debug)]
pub struct NormalLaser {
    pub position: Point,
    pub velocity: Point,
    /// Time left before the laser expires.
    pub lifetime: u32,
}

/// A laser that curves toward a locked enemy.
#[derive(Clone, Copy, PartialEq, Eq, Debug)]
pub struct LockOnLaser {
    pub start_pos: Point,
    pub target_pos: Point,
    /// Index of the enemy aimed at, absent once that enemy is gone.
    pub target_enemy_id: Option<usize>,
    /// Fraction of the way covered, in millionths.
    pub progress: u32,
    pub initial_speed: u32,
    pub current_speed: u32,
    pub acceleration: u32,
    pub launch_time: u64,
}

/// A score popup that rises and fades.
#[derive(Clone, Copy, PartialEq, Eq, Debug)]
pub struct BonusDisplay {
    /// The bonus that the popup announces.
    pub amount: u32,
    pub position: Point,
    /// Time shown so far.
    pub timer: u32,
    /// Time after which the popup expires.
    pub max_time: u32,
}

impl Player {
    /// The player at the start position.
    pub fn new() -> (p: Player)
        ensures
            p.position == (Point { x: PLAYER_START_X, y: PLAYER_START_Y }),
            p.health == PLAYER_HEALTH,
    {
        Player { position: Point { x: PLAYER_START_X, y: PLAYER_START_Y }, health: PLAYER_HEALTH }
    }
}

} // verus!
