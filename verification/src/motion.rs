//! How enemies move.

use vstd::prelude::*;
use crate::constants::SWAY_UNIT;
use crate::entities::{Enemy, EnemyType};
use crate::geometry::{
    clamp, clamp_i64, dist, elapsed, elapsed_micros, moved, saturate, saturate_i64, trunc_div, Point,
};

verus! {

/// The oscillation sample of an enemy, limited to one in either direction.
pub open spec fn sway_of(e: Enemy) -> int {
    clamp(e.sway as int, -SWAY_UNIT, SWAY_UNIT as int)
}

/// The velocity of given speed that points from `from` to `to`; zero where
/// the two coincide.
pub open spec fn chase(from: Point, to: Point, speed: int) -> Point {
    let d = dist(from, to);
    if d == 0 {
        Point { x: 0, y: 0 }
    } else {
        Point {
            x: saturate(trunc_div((to.x - from.x) * speed, d)) as i32,
            y: saturate(trunc_div((to.y - from.y) * speed, d)) as i32,
        }
    }
}

/// The velocity that the enemy's kind of motion gives it.
///
/// A straight enemy falls at its base speed. A zigzagging one falls at its
/// base speed and sways sideways with its oscillation, up to eighty pixels
/// per second: eighty units of speed for each thousandth of the sample. An
/// arcing one falls at eight tenths of its base speed and sways up to sixty
/// pixels per second. A homing one heads for the player at seven tenths of
/// its base speed.
pub open spec fn velocity_of(e: Enemy, player: Point) -> Point {
    match e.enemy_type {
        EnemyType::Straight => Point { x: 0, y: e.base_speed },
        EnemyType::Zigzag => Point { x: (sway_of(e) * 80) as i32, y: e.base_speed },
        EnemyType::Arc => Point {
            x: (sway_of(e) * 60) as i32,
            y: trunc_div(e.base_speed * 8, 10) as i32,
        },
        EnemyType::Homing => chase(e.position, player, trunc_div(e.base_speed * 7, 10)),
    }
}

/// The enemy after a frame of `dt` microseconds: it takes the velocity of
/// its kind of motion and moves by it.
pub open spec fn stepped(e: Enemy, player: Point, dt: u32) -> Enemy {
    Enemy {
        velocity: velocity_of(e, player),
        position: moved(e.position, velocity_of(e, player), dt as int),
        ..e
    }
}

/// The angle, in thousandths of a radian, whose sine or cosine is the
/// enemy's oscillation `age` microseconds after it appeared: twice the
/// seconds for a zigzagging enemy, one and a half times for an arcing one.
pub open spec fn phase_of(kind: EnemyType, age: int) -> int {
    match kind {
        EnemyType::Zigzag => age / 500,
        EnemyType::Arc => (age * 3) / 2000,
        _ => 0,
    }
}

/// The oscillation of an enemy that has just appeared: the sine of zero for
/// a zigzagging enemy, the cosine of zero for an arcing one.
pub open spec fn rest_sway(kind: EnemyType) -> int {
    match kind {
        EnemyType::Arc => SWAY_UNIT as int,
        _ => 0,
    }
}

/// The enemies with their oscillation samples replaced by those given;
/// an enemy without a sample keeps the one it has.
pub open spec fn with_sways(enemies: Seq<Enemy>, sways: Seq<i32>) -> Seq<Enemy> {
    Seq::new(
        enemies.len(),
        |i: int|
            if i < sways.len() {
                Enemy { sway: sways[i], ..enemies[i] }
            } else {
                enemies[i]
            },
    )
}

/// The velocity of given speed that points from `from` to `to`.
pub fn chase_velocity(from: Point, to: Point, speed: i32) -> (v: Point)
    ensures
        v == chase(from, to, speed as int),
{
    let d: u64 = from.distance(to);
    if d == 0 {
        Point { x: 0, y: 0 }
    } else {
        let dx: i64 = to.x as i64 - from.x as i64;
        let dy: i64 = to.y as i64 - from.y as i64;
        proof {
            crate::geometry::lemma_distance_bound(from, to);
        }
        assert(-0xFFFF_FFFF * 0x8000_0000 <= dx * speed <= 0xFFFF_FFFF * 0x8000_0000)
            by (nonlinear_arith)
            requires
                -0xFFFF_FFFF <= dx <= 0xFFFF_FFFF,
                -0x8000_0000 <= speed <= 0x8000_0000,
        ;
        assert(-0xFFFF_FFFF * 0x8000_0000 <= dy * speed <= 0xFFFF_FFFF * 0x8000_0000)
            by (nonlinear_arith)
            requires
                -0xFFFF_FFFF <= dy <= 0xFFFF_FFFF,
                -0x8000_0000 <= speed <= 0x8000_0000,
        ;
        let x: i32 = saturate_i64((dx * speed as i64) / d as i64);
        let y: i32 = saturate_i64((dy * speed as i64) / d as i64);
        Point { x, y }
    }
}

impl Enemy {
    /// The velocity that the enemy's kind of motion gives it while the player
    /// is at `player`.
    pub fn velocity_toward(&self, player: Point) -> (v: Point)
        ensures
            v == velocity_of(*self, player),
    {
        let sway: i64 = clamp_i64(self.sway as i64, -(SWAY_UNIT as i64), SWAY_UNIT as i64);
        match self.enemy_type {
            EnemyType::Straight => Point { x: 0, y: self.base_speed },
            EnemyType::Zigzag => Point { x: (sway * 80) as i32, y: self.base_speed },
            EnemyType::Arc => Point {
                x: (sway * 60) as i32,
                y: ((self.base_speed as i64 * 8) / 10) as i32,
            },
            EnemyType::Homing => chase_velocity(
                self.position,
                player,
                ((self.base_speed as i64 * 7) / 10) as i32,
            ),
        }
    }

    /// Moves the enemy through a frame of `delta_time` microseconds.
    pub fn step(&mut self, player: Point, delta_time: u32)
        ensures
            *final(self) == stepped(*old(self), player, delta_time),
    {
        let v = self.velocity_toward(player);
        self.velocity = v;
        self.position = self.position.advance(v, delta_time);
    }

    /// The angle, in thousandths of a radian, of which the enemy's
    /// oscillation at time `now` is the sine or the cosine.
    pub fn phase(&self, now: u64) -> (angle: u64)
        ensures
            angle == phase_of(self.enemy_type, elapsed(now, self.spawn_time)),
    {
        let age: u64 = elapsed_micros(now, self.spawn_time);
        match self.enemy_type {
            EnemyType::Zigzag => age / 500,
            EnemyType::Arc => ((age as u128 * 3) / 2000) as u64,
            _ => 0,
        }
    }
}

/// The oscillation of an enemy of this kind that has just appeared.
pub fn initial_sway(kind: EnemyType) -> (s: i32)
    ensures
        s == rest_sway(kind),
{
    match kind {
        EnemyType::Arc => SWAY_UNIT,
        _ => 0,
    }
}

/// Hands each enemy its oscillation sample for the frame.
pub fn apply_sways(enemies: &mut Vec<Enemy>, sways: &Vec<i32>)
    ensures
        final(enemies)@ == with_sways(old(enemies)@, sways@),
{
    let n = enemies.len();
    let mut i: usize = 0;
    while i < n && i < sways.len()
        invariant
            n == enemies.len(),
            n == old(enemies).len(),
            i <= n,
            i <= sways.len(),
            forall|k: int| 0 <= k < i ==> enemies@[k] == (Enemy { sway: sways@[k], ..old(enemies)@[k] }),
            forall|k: int| i <= k < n ==> enemies@[k] == old(enemies)@[k],
        decreases n - i,
    {
        enemies[i].sway = sways[i];
        i += 1;
    }
    proof {
        assert(enemies@ =~= with_sways(old(enemies)@, sways@));
    }
}

/// Moves every enemy through a frame of `delta_time` microseconds.
pub fn step_enemies(enemies: &mut Vec<Enemy>, player: Point, delta_time: u32)
    ensures
        final(enemies)@ == old(enemies)@.map_values(|e: Enemy| stepped(e, player, delta_time)),
{
    let n = enemies.len();
    let mut i: usize = 0;
    while i < n
        invariant
            n == enemies.len(),
            n == old(enemies).len(),
            i <= n,
            forall|k: int| 0 <= k < i ==> enemies@[k] == stepped(old(enemies)@[k], player, delta_time),
            forall|k: int| i <= k < n ==> enemies@[k] == old(enemies)@[k],
        decreases n - i,
    {
        let mut e = enemies[i];
        e.step(player, delta_time);
        enemies.set(i, e);
        i += 1;
    }
    proof {
        assert(enemies@ =~= old(enemies)@.map_values(|e: Enemy| stepped(e, player, delta_time)));
    }
}

} // verus!
