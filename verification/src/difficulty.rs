//! How hard the game is, as a function of the time played.

use vstd::prelude::*;
use crate::constants::LEVEL_DURATION;

verus! {

/// The parameters that drive spawning.
#[derive(Clone, Copy, PartialEq, Eq, Debug)]
pub struct Difficulty {
    /// Time between two spawn ticks.
    pub spawn_interval: u64,
    /// Largest number of enemies that one tick may bring.
    pub max_spawn_count: u32,
    /// Enemy speed in hundredths of the base speed.
    pub speed_percent: u32,
}

/// The level reached after `elapsed` microseconds: one per thirty seconds.
pub open spec fn level_at(elapsed: int) -> int {
    elapsed / (LEVEL_DURATION as int)
}

/// A second and a half, less a tenth of a second per level, but no less than
/// eight tenths.
pub open spec fn spawn_interval_at(level: int) -> int {
    if 1_500_000 - 100_000 * level < 800_000 {
        800_000
    } else {
        1_500_000 - 100_000 * level
    }
}

/// Three and one more per level, but no more than five.
pub open spec fn max_spawn_count_at(level: int) -> int {
    if 3 + level > 5 {
        5
    } else {
        3 + level
    }
}

/// A hundred and ten more per level, but no more than a hundred and fifty.
pub open spec fn speed_percent_at(level: int) -> int {
    if 10 * level > 50 {
        150
    } else {
        100 + 10 * level
    }
}

/// The difficulty after `elapsed` microseconds of play.
pub open spec fn difficulty_at(elapsed: int) -> Difficulty {
    Difficulty {
        spawn_interval: spawn_interval_at(level_at(elapsed)) as u64,
        max_spawn_count: max_spawn_count_at(level_at(elapsed)) as u32,
        speed_percent: speed_percent_at(level_at(elapsed)) as u32,
    }
}

/// The difficulty after `elapsed` microseconds of play.
pub fn calculate_difficulty_parameters(elapsed: u64) -> (d: Difficulty)
    ensures
        d == difficulty_at(elapsed as int),
        800_000 <= d.spawn_interval <= 1_500_000,
        3 <= d.max_spawn_count <= 5,
        100 <= d.speed_percent <= 150,
{
    let level: u64 = elapsed / LEVEL_DURATION;
    let spawn_interval: u64 = if level >= 7 {
        800_000
    } else {
        1_500_000 - 100_000 * level
    };
    let max_spawn_count: u32 = if level >= 2 {
        5
    } else {
        3 + level as u32
    };
    let speed_percent: u32 = if level >= 5 {
        150
    } else {
        100 + 10 * level as u32
    };
    Difficulty { spawn_interval, max_spawn_count, speed_percent }
}

} // verus!
