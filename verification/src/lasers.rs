//! Straight lasers and homing lasers.

use vstd::prelude::*;
use crate::constants::{
    CURVE_LIFT, FULL, HOMING_ACCELERATION, HOMING_INITIAL_SPEED, HOMING_MAX_SPEED,
    LASER_EXIT_MARGIN, MICROS_PER_SECOND, NORMAL_LASER_LIFETIME, NORMAL_LASER_VELOCITY,
};
use crate::entities::{Enemy, LockOnLaser, NormalLaser};
use crate::geometry::{
    dist, elapsed, elapsed_micros, lemma_distance_bound, lemma_mul_bound, moved, saturate,
    saturate_i128, trunc_div, Point,
};
use crate::indices::{adjust_index, adjusted_index, contains_index, lemma_adjust_bounds};
use crate::seqs::lemma_filter_step;

verus! {

/// The straight laser that the player fires from `from`: straight up at
/// three hundred and fifty pixels per second, for three seconds.
pub open spec fn fired_from(from: Point) -> NormalLaser {
    NormalLaser {
        position: from,
        velocity: Point { x: 0, y: NORMAL_LASER_VELOCITY },
        lifetime: NORMAL_LASER_LIFETIME,
    }
}

/// The straight laser after `dt` microseconds of flight.
pub open spec fn flown(l: NormalLaser, dt: u32) -> NormalLaser {
    NormalLaser {
        position: moved(l.position, l.velocity, dt as int),
        lifetime: if l.lifetime > dt {
            (l.lifetime - dt) as u32
        } else {
            0
        },
        ..l
    }
}

/// Whether the straight laser has time left and has not left the playfield
/// through the top.
pub open spec fn in_flight(l: NormalLaser) -> bool {
    l.lifetime > 0 && l.position.y > -LASER_EXIT_MARGIN
}

/// The homing laser that the player at `from` launches at the enemy at
/// position `target` of the collection, which stands at `at`.
pub open spec fn launched(from: Point, at: Point, target: usize, now: u64) -> LockOnLaser {
    LockOnLaser {
        start_pos: from,
        target_pos: at,
        target_enemy_id: Some(target),
        progress: 0,
        initial_speed: HOMING_INITIAL_SPEED,
        current_speed: HOMING_INITIAL_SPEED,
        acceleration: HOMING_ACCELERATION,
        launch_time: now,
    }
}

/// The locked positions that refer to an enemy, in the order of the list.
pub open spec fn aimed(locked: Seq<usize>, enemies: Seq<Enemy>) -> Seq<usize> {
    locked.filter(|x: usize| x < enemies.len())
}

/// The homing lasers of one release: one for each locked position that
/// refers to an enemy, in the order of the list.
pub open spec fn volley(locked: Seq<usize>, enemies: Seq<Enemy>, from: Point, now: u64) -> Seq<
    LockOnLaser,
> {
    aimed(locked, enemies).map_values(
        |x: usize| launched(from, enemies[x as int].position, x, now),
    )
}

/// The homing laser with its aim renewed: it aims at where its enemy stands
/// now, or keeps its last aim and forgets the enemy if the reference leads
/// nowhere.
pub open spec fn tracking(l: LockOnLaser, enemies: Seq<Enemy>) -> LockOnLaser {
    match l.target_enemy_id {
        Some(id) => if id < enemies.len() {
            LockOnLaser { target_pos: enemies[id as int].position, ..l }
        } else {
            LockOnLaser { target_enemy_id: None, ..l }
        },
        None => l,
    }
}

/// The speed of the homing laser at time `now`: it grows with the time
/// since launch, up to five hundred and sixty pixels per second.
pub open spec fn speed_at(l: LockOnLaser, now: u64) -> int {
    let v = l.initial_speed + (l.acceleration * elapsed(now, l.launch_time)) / (
    MICROS_PER_SECOND as int);
    if v > HOMING_MAX_SPEED {
        HOMING_MAX_SPEED as int
    } else {
        v
    }
}

/// The progress of the homing laser after `dt` microseconds at `speed`: the
/// part of the distance from start to target covered in that time is added,
/// up to the whole. A laser whose target is where it started has arrived.
pub open spec fn progress_after(l: LockOnLaser, speed: int, dt: u32) -> int {
    let d = dist(l.start_pos, l.target_pos);
    if d == 0 {
        FULL as int
    } else if l.progress + (speed * dt) / d > FULL {
        FULL as int
    } else {
        l.progress + (speed * dt) / d
    }
}

/// The homing laser after a frame: aim renewed, speed set, progress made.
pub open spec fn homed(l: LockOnLaser, enemies: Seq<Enemy>, now: u64, dt: u32) -> LockOnLaser {
    let t = tracking(l, enemies);
    LockOnLaser {
        current_speed: speed_at(t, now) as u32,
        progress: progress_after(t, speed_at(t, now), dt) as u32,
        ..t
    }
}

/// Whether the homing laser has reached its target.
pub open spec fn arrived(l: LockOnLaser) -> bool {
    l.progress >= FULL
}

/// The homing laser after a batch of enemies is destroyed: it forgets an
/// enemy of the batch, and follows any other to its new position.
pub open spec fn retargeted(l: LockOnLaser, destroyed: Seq<usize>) -> LockOnLaser {
    match l.target_enemy_id {
        Some(id) => if destroyed.contains(id) {
            LockOnLaser { target_enemy_id: None, ..l }
        } else {
            LockOnLaser { target_enemy_id: Some(adjust_index(id as int, destroyed) as usize), ..l }
        },
        None => l,
    }
}

/// Whether one of the first `upto` homing lasers has arrived and refers to
/// the enemy at `i`.
pub open spec fn struck_by(lasers: Seq<LockOnLaser>, upto: int, i: int) -> bool {
    exists|k: int|
        0 <= k < upto && arrived(#[trigger] lasers[k]) && lasers[k].target_enemy_id == Some(
            i as usize,
        )
}

/// Whether a homing laser that has arrived refers to the enemy at `i`.
pub open spec fn struck(lasers: Seq<LockOnLaser>, i: int) -> bool {
    struck_by(lasers, lasers.len() as int, i)
}

/// The point at fraction `t`, in millionths, of the curve of a homing laser
/// from `start` to `target`: the quadratic curve whose control point lies a
/// hundred pixels above the midpoint of the two.
pub open spec fn curve_point(start: Point, target: Point, t: u32) -> Point {
    let cx = trunc_div(start.x + target.x, 2);
    let cy = trunc_div(start.y + target.y, 2) - CURVE_LIFT;
    let u = FULL - t;
    Point {
        x: saturate(
            trunc_div(u * u * start.x + 2 * (u * t) * cx + t * t * target.x, FULL * FULL),
        ) as i32,
        y: saturate(
            trunc_div(u * u * start.y + 2 * (u * t) * cy + t * t * target.y, FULL * FULL),
        ) as i32,
    }
}

/// One coordinate of a point of the curve.
fn curve_coordinate(start: i32, control: i64, target: i32, t: u32) -> (c: i32)
    requires
        -0x1_0000_0000 <= control <= 0x1_0000_0000,
    ensures
        c == saturate(
            trunc_div(
                (FULL - t) * (FULL - t) * start + 2 * ((FULL - t) * t) * control + t * t * target,
                FULL * FULL,
            ),
        ),
{
    let u: i128 = FULL as i128 - t as i128;
    let tt: i128 = t as i128;
    proof {
        lemma_mul_bound(u as int, u as int, 0x1_0000_0000, 0x1_0000_0000);
        lemma_mul_bound(u * u, start as int, 0x1_0000_0000_0000_0000, 0x8000_0000);
        lemma_mul_bound(u as int, tt as int, 0x1_0000_0000, 0x1_0000_0000);
        lemma_mul_bound(2 * (u * tt), control as int, 0x2_0000_0000_0000_0000, 0x1_0000_0000);
        lemma_mul_bound(tt as int, tt as int, 0x1_0000_0000, 0x1_0000_0000);
        lemma_mul_bound(tt * tt, target as int, 0x1_0000_0000_0000_0000, 0x8000_0000);
    }
    let a: i128 = u * u * (start as i128);
    let b: i128 = 2 * (u * tt) * (control as i128);
    let c: i128 = tt * tt * (target as i128);
    saturate_i128((a + b + c) / (FULL as i128 * FULL as i128))
}

/// The point at fraction `t`, in millionths, of the curve from `start` to
/// `target`.
pub fn calculate_bezier_point(start: Point, target: Point, t: u32) -> (p: Point)
    ensures
        p == curve_point(start, target, t),
{
    let cx: i64 = (start.x as i64 + target.x as i64) / 2;
    let cy: i64 = (start.y as i64 + target.y as i64) / 2 - CURVE_LIFT as i64;
    Point {
        x: curve_coordinate(start.x, cx, target.x, t),
        y: curve_coordinate(start.y, cy, target.y, t),
    }
}

/// Where the homing laser is on its curve.
pub fn calculate_homing_position(laser: &LockOnLaser) -> (p: Point)
    ensures
        p == curve_point(laser.start_pos, laser.target_pos, laser.progress),
{
    calculate_bezier_point(laser.start_pos, laser.target_pos, laser.progress)
}

impl NormalLaser {
    /// The straight laser that the player fires from `from`.
    pub fn fire(from: Point) -> (l: NormalLaser)
        ensures
            l == fired_from(from),
    {
        NormalLaser {
            position: from,
            velocity: Point { x: 0, y: NORMAL_LASER_VELOCITY },
            lifetime: NORMAL_LASER_LIFETIME,
        }
    }

    /// Flies the laser for `delta_time` microseconds.
    pub fn step(&mut self, delta_time: u32)
        ensures
            *final(self) == flown(*old(self), delta_time),
    {
        self.position = self.position.advance(self.velocity, delta_time);
        self.lifetime = self.lifetime.saturating_sub(delta_time);
    }

    /// Whether the laser is still in flight.
    pub fn is_in_flight(&self) -> (b: bool)
        ensures
            b == in_flight(*self),
    {
        self.lifetime > 0 && self.position.y > -LASER_EXIT_MARGIN
    }
}

impl LockOnLaser {
    /// The homing laser launched from `from` at the enemy at position
    /// `target` of the collection, which stands at `at`.
    pub fn launch(from: Point, at: Point, target: usize, now: u64) -> (l: LockOnLaser)
        ensures
            l == launched(from, at, target, now),
    {
        LockOnLaser {
            start_pos: from,
            target_pos: at,
            target_enemy_id: Some(target),
            progress: 0,
            initial_speed: HOMING_INITIAL_SPEED,
            current_speed: HOMING_INITIAL_SPEED,
            acceleration: HOMING_ACCELERATION,
            launch_time: now,
        }
    }

    /// Takes the laser through a frame of `delta_time` microseconds.
    pub fn step(&mut self, enemies: &Vec<Enemy>, now: u64, delta_time: u32)
        ensures
            *final(self) == homed(*old(self), enemies@, now, delta_time),
    {
        match self.target_enemy_id {
            Some(id) => {
                if id < enemies.len() {
                    self.target_pos = enemies[id].position;
                } else {
                    self.target_enemy_id = None;
                }
            },
            None => {},
        }
        let age: u64 = elapsed_micros(now, self.launch_time);
        proof {
            lemma_mul_bound(
                self.acceleration as int,
                age as int,
                0xFFFF_FFFF,
                0xFFFF_FFFF_FFFF_FFFF,
            );
        }
        let gained: u128 = (self.acceleration as u128 * age as u128) / (MICROS_PER_SECOND as u128);
        let speed: u128 = self.initial_speed as u128 + gained;
        let speed: u64 = if speed > HOMING_MAX_SPEED as u128 {
            HOMING_MAX_SPEED as u64
        } else {
            speed as u64
        };
        self.current_speed = speed as u32;
        let distance: u64 = self.start_pos.distance(self.target_pos);
        if distance == 0 {
            self.progress = FULL;
        } else {
            proof {
                lemma_mul_bound(speed as int, delta_time as int, 560_000, 0xFFFF_FFFF);
                lemma_distance_bound(self.start_pos, self.target_pos);
            }
            let step: u64 = (speed * delta_time as u64) / distance;
            assert(step <= speed * delta_time) by (nonlinear_arith)
                requires
                    step == (speed * delta_time) / (distance as int),
                    distance >= 1,
                    speed * delta_time >= 0,
            ;
            let total: u64 = self.progress as u64 + step;
            self.progress = if total > FULL as u64 {
                FULL
            } else {
                total as u32
            };
        }
    }

    /// Whether the laser has reached its target.
    pub fn has_arrived(&self) -> (b: bool)
        ensures
            b == arrived(*self),
    {
        self.progress >= FULL
    }

    /// Adjusts the laser's reference for a batch of destroyed enemies.
    pub fn retarget(&mut self, destroyed: &Vec<usize>)
        ensures
            *final(self) == retargeted(*old(self), destroyed@),
    {
        match self.target_enemy_id {
            Some(id) => {
                if contains_index(destroyed, id) {
                    self.target_enemy_id = None;
                } else {
                    proof {
                        lemma_adjust_bounds(id as int, destroyed@);
                    }
                    self.target_enemy_id = Some(adjusted_index(id, destroyed));
                }
            },
            None => {},
        }
    }
}

/// Flies every straight laser for `delta_time` microseconds and drops those
/// that have expired or left through the top.
pub fn advance_normal_lasers(lasers: &mut Vec<NormalLaser>, delta_time: u32)
    ensures
        final(lasers)@ == old(lasers)@.map_values(|l: NormalLaser| flown(l, delta_time)).filter(
            |l: NormalLaser| in_flight(l),
        ),
{
    let ghost fly = |l: NormalLaser| flown(l, delta_time);
    let ghost keep = |l: NormalLaser| in_flight(l);
    let ghost all = old(lasers)@.map_values(fly);
    let n = lasers.len();
    let mut kept: Vec<NormalLaser> = Vec::new();
    let mut i: usize = 0;
    while i < n
        invariant
            n == lasers.len(),
            lasers@ == old(lasers)@,
            i <= n,
            fly == (|l: NormalLaser| flown(l, delta_time)),
            keep == (|l: NormalLaser| in_flight(l)),
            all == old(lasers)@.map_values(fly),
            kept@ == all.take(i as int).filter(keep),
        decreases n - i,
    {
        let mut l = lasers[i];
        l.step(delta_time);
        proof {
            lemma_filter_step(all, i as int, keep);
        }
        if l.is_in_flight() {
            kept.push(l);
        }
        i += 1;
    }
    proof {
        assert(all.take(n as int) =~= all);
    }
    *lasers = kept;
}

/// Takes every homing laser through a frame of `delta_time` microseconds.
pub fn advance_homing_lasers(lasers: &mut Vec<LockOnLaser>, enemies: &Vec<Enemy>, now: u64, delta_time: u32)
    ensures
        final(lasers)@ == old(lasers)@.map_values(
            |l: LockOnLaser| homed(l, enemies@, now, delta_time),
        ),
{
    let n = lasers.len();
    let mut i: usize = 0;
    while i < n
        invariant
            n == lasers.len(),
            n == old(lasers).len(),
            i <= n,
            forall|k: int| 0 <= k < i ==> lasers@[k] == homed(old(lasers)@[k], enemies@, now, delta_time),
            forall|k: int| i <= k < n ==> lasers@[k] == old(lasers)@[k],
        decreases n - i,
    {
        let mut l = lasers[i];
        l.step(enemies, now, delta_time);
        lasers.set(i, l);
        i += 1;
    }
    proof {
        assert(lasers@ =~= old(lasers)@.map_values(
            |l: LockOnLaser| homed(l, enemies@, now, delta_time),
        ));
    }
}

/// Adjusts the reference of every homing laser for a batch of destroyed
/// enemies.
pub fn update_homing_laser_targets(lasers: &mut Vec<LockOnLaser>, destroyed: &Vec<usize>)
    ensures
        final(lasers)@ == old(lasers)@.map_values(|l: LockOnLaser| retargeted(l, destroyed@)),
{
    let n = lasers.len();
    let mut i: usize = 0;
    while i < n
        invariant
            n == lasers.len(),
            n == old(lasers).len(),
            i <= n,
            forall|k: int| 0 <= k < i ==> lasers@[k] == retargeted(old(lasers)@[k], destroyed@),
            forall|k: int| i <= k < n ==> lasers@[k] == old(lasers)@[k],
        decreases n - i,
    {
        let mut l = lasers[i];
        l.retarget(destroyed);
        lasers.set(i, l);
        i += 1;
    }
    proof {
        assert(lasers@ =~= old(lasers)@.map_values(|l: LockOnLaser| retargeted(l, destroyed@)));
    }
}

/// Drops the homing lasers that have arrived.
pub fn drop_arrived(lasers: &mut Vec<LockOnLaser>)
    ensures
        final(lasers)@ == old(lasers)@.filter(|l: LockOnLaser| !arrived(l)),
{
    let ghost keep = |l: LockOnLaser| !arrived(l);
    let n = lasers.len();
    let mut kept: Vec<LockOnLaser> = Vec::new();
    let mut i: usize = 0;
    while i < n
        invariant
            n == lasers.len(),
            lasers@ == old(lasers)@,
            i <= n,
            keep == (|l: LockOnLaser| !arrived(l)),
            kept@ == lasers@.take(i as int).filter(keep),
        decreases n - i,
    {
        proof {
            lemma_filter_step(lasers@, i as int, keep);
        }
        if !lasers[i].has_arrived() {
            kept.push(lasers[i]);
        }
        i += 1;
    }
    proof {
        assert(lasers@.take(n as int) =~= lasers@);
    }
    *lasers = kept;
}

/// The number of homing lasers that have arrived.
pub fn count_arrived(lasers: &Vec<LockOnLaser>) -> (count: usize)
    ensures
        count == lasers@.filter(|l: LockOnLaser| arrived(l)).len(),
{
    let ghost pick = |l: LockOnLaser| arrived(l);
    let n = lasers.len();
    let mut count: usize = 0;
    let mut i: usize = 0;
    while i < n
        invariant
            n == lasers.len(),
            i <= n,
            count <= i,
            pick == (|l: LockOnLaser| arrived(l)),
            count == lasers@.take(i as int).filter(pick).len(),
        decreases n - i,
    {
        proof {
            lemma_filter_step(lasers@, i as int, pick);
        }
        if lasers[i].has_arrived() {
            count += 1;
        }
        i += 1;
    }
    proof {
        assert(lasers@.take(n as int) =~= lasers@);
    }
    count
}

} // verus!
