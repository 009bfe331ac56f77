//! Scores, the multi-kill bonus and its popup.

use vstd::prelude::*;
use crate::constants::{BONUS_DISPLAY_TIME, BONUS_RISE_SPEED, FULL, HOMING_KILL_SCORE};
use crate::entities::BonusDisplay;
use crate::geometry::{displacement, saturate, saturate_i64, travel, Point};

verus! {

/// The bonus for homing lasers that arrive in the same frame.
pub open spec fn bonus_for(count: int) -> int {
    if count == 2 {
        300
    } else if count == 3 {
        600
    } else if count == 4 {
        1000
    } else if count == 5 {
        1500
    } else if count == 6 {
        2100
    } else {
        0
    }
}

/// What `count` homing lasers that arrive in the same frame are worth:
/// two hundred each, and the bonus.
pub open spec fn homing_score(count: int) -> int {
    HOMING_KILL_SCORE * count + bonus_for(count)
}

/// A score raised by `points`, stopping at the largest score.
pub open spec fn raised(score: u32, points: int) -> u32 {
    if score + points > u32::MAX {
        u32::MAX
    } else {
        (score + points) as u32
    }
}

/// The popup after `dt` microseconds more: older, and risen by thirty pixels
/// per second.
pub open spec fn aged(b: BonusDisplay, dt: u32) -> BonusDisplay {
    BonusDisplay {
        timer: if b.timer + dt > u32::MAX {
            u32::MAX
        } else {
            (b.timer + dt) as u32
        },
        position: Point {
            x: b.position.x,
            y: saturate(b.position.y - displacement(BONUS_RISE_SPEED as int, dt as int)) as i32,
        },
        ..b
    }
}

/// Whether the popup has been shown for its whole time.
pub open spec fn expired(b: BonusDisplay) -> bool {
    b.timer >= b.max_time
}

/// The part of the popup's time that is left, in millionths; zero for a
/// popup that is shown for no time at all.
pub open spec fn alpha_of(b: BonusDisplay) -> int {
    if b.max_time == 0 || b.timer >= b.max_time {
        0
    } else {
        FULL - (b.timer * FULL) / (b.max_time as int)
    }
}

/// The bonus for `count` homing lasers that arrive in the same frame.
pub fn multi_kill_bonus(count: usize) -> (bonus: u32)
    ensures
        bonus == bonus_for(count as int),
{
    if count == 2 {
        300
    } else if count == 3 {
        600
    } else if count == 4 {
        1000
    } else if count == 5 {
        1500
    } else if count == 6 {
        2100
    } else {
        0
    }
}

/// Raises a score by `points` for each of `count` events.
pub fn add_score(score: u32, points: u32, count: usize) -> (r: u32)
    ensures
        r == raised(score, points * count),
{
    assert(0 <= points * count <= 0xFFFF_FFFF * 0xFFFF_FFFF_FFFF_FFFF) by (nonlinear_arith)
        requires
            0 <= points <= 0xFFFF_FFFF,
            0 <= count <= 0xFFFF_FFFF_FFFF_FFFF,
    ;
    let total: u128 = score as u128 + (points as u128) * (count as u128);
    if total > u32::MAX as u128 {
        u32::MAX
    } else {
        total as u32
    }
}

impl BonusDisplay {
    /// A fresh popup for a bonus, shown for two seconds.
    pub fn new(amount: u32, position: Point) -> (b: BonusDisplay)
        ensures
            b == (BonusDisplay { amount, position, timer: 0, max_time: BONUS_DISPLAY_TIME }),
    {
        BonusDisplay { amount, position, timer: 0, max_time: BONUS_DISPLAY_TIME }
    }

    /// Ages the popup by `delta_time` microseconds.
    pub fn update(&mut self, delta_time: u32)
        ensures
            *final(self) == aged(*old(self), delta_time),
    {
        self.timer = self.timer.saturating_add(delta_time);
        self.position.y = saturate_i64(
            self.position.y as i64 - travel(BONUS_RISE_SPEED, delta_time),
        );
    }

    /// Whether the popup has been shown for its whole time.
    pub fn is_expired(&self) -> (b: bool)
        ensures
            b == expired(*self),
    {
        self.timer >= self.max_time
    }

    /// The opacity of the popup in millionths: the part of its time that is
    /// left.
    pub fn get_alpha(&self) -> (alpha: u32)
        ensures
            alpha == alpha_of(*self),
            alpha <= FULL,
    {
        if self.max_time == 0 || self.timer >= self.max_time {
            0
        } else {
            let spent: u64 = (self.timer as u64 * FULL as u64) / (self.max_time as u64);
            assert(spent <= 1_000_000) by (nonlinear_arith)
                requires
                    spent == (self.timer as int * 1_000_000) / (self.max_time as int),
                    0 <= self.timer < self.max_time,
            ;
            (FULL as u64 - spent) as u32
        }
    }
}

} // verus!
