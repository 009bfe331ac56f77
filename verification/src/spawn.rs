//! Bringing new enemies into the world.

use vstd::prelude::*;
use crate::constants::{CLUSTER_CHANCE, CLUSTER_SPREAD, SPAWN_LEFT, SPAWN_RIGHT, SPAWN_Y};
use crate::difficulty::{calculate_difficulty_parameters, difficulty_at, Difficulty};
use crate::entities::{Enemy, EnemyType};
use crate::game::{FrameInput, Game, GameView};
use crate::geometry::{clamp, clamp_i64, elapsed, elapsed_micros, saturate, saturate_i64, Point};
use crate::motion::{initial_sway, rest_sway};

verus! {

/// The random numbers that decide one spawn.
#[derive(Clone, Copy, PartialEq, Eq, Debug)]
pub struct SpawnDraws {
    /// Below forty, the enemy appears near an enemy that is there already.
    pub cluster: u32,
    /// Position, in the collection, of the enemy to appear near.
    pub donor: u32,
    /// Distance to the right of a point a hundred pixels left of the donor.
    pub offset: u32,
    /// Horizontal position of an enemy that appears on its own.
    pub free_x: u32,
    /// The kind of motion, by number.
    pub kind: u32,
}

/// The random numbers that decide how many enemies a spawn tick brings,
/// each a percentage.
#[derive(Clone, Copy, PartialEq, Eq, Debug)]
pub struct BurstRolls {
    pub five: u32,
    pub four: u32,
    pub three: u32,
    pub two: u32,
}

/// The ranges from which the numbers of one spawn are drawn, for a world of
/// `crowd` enemies.
pub open spec fn draws_valid(d: SpawnDraws, crowd: nat) -> bool {
    &&& d.cluster < 100
    &&& crowd > 0 ==> d.donor < crowd
    &&& d.offset < 2 * CLUSTER_SPREAD
    &&& SPAWN_LEFT <= d.free_x < SPAWN_RIGHT
    &&& d.kind < 4
}

/// The kind of motion with the given number.
pub open spec fn kind_of(roll: u32) -> EnemyType {
    if roll == 0 {
        EnemyType::Straight
    } else if roll == 1 {
        EnemyType::Zigzag
    } else if roll == 2 {
        EnemyType::Arc
    } else {
        EnemyType::Homing
    }
}

/// Where a new enemy appears: within a hundred pixels to either side of
/// the donor, if it clusters and the donor is there, kept inside the
/// playfield by an enemy's radius; where the free draw says, otherwise.
pub open spec fn spawn_x(enemies: Seq<Enemy>, d: SpawnDraws) -> int {
    if d.cluster < CLUSTER_CHANCE && d.donor < enemies.len() {
        clamp(
            enemies[d.donor as int].position.x + d.offset - CLUSTER_SPREAD,
            SPAWN_LEFT as int,
            SPAWN_RIGHT as int,
        )
    } else {
        d.free_x as int
    }
}

/// The base speed of an enemy at the given hundredths of the standard
/// speed, which is a hundred and twenty pixels per second.
pub open spec fn base_speed_for(percent: u32) -> int {
    saturate(1200 * percent)
}

/// The enemy that appears at horizontal position `x`: just above the
/// playfield, falling at its base speed, not locked.
pub open spec fn newcomer(x: int, kind: EnemyType, percent: u32, now: u64) -> Enemy {
    Enemy {
        position: Point { x: x as i32, y: SPAWN_Y },
        velocity: Point { x: 0, y: base_speed_for(percent) as i32 },
        is_locked: false,
        enemy_type: kind,
        spawn_time: now,
        base_speed: base_speed_for(percent) as i32,
        sway: rest_sway(kind) as i32,
    }
}

/// The enemy that the draws bring into a world of the given enemies.
pub open spec fn spawned(enemies: Seq<Enemy>, d: SpawnDraws, percent: u32, now: u64) -> Enemy {
    newcomer(spawn_x(enemies, d), kind_of(d.kind), percent, now)
}

/// How many enemies a tick brings: five, four or three with a chance of
/// five, ten and fifteen in a hundred where the difficulty allows that
/// many, else two with a chance of thirty in a hundred, else one.
pub open spec fn burst_size(max_spawn_count: u32, rolls: BurstRolls) -> int {
    if max_spawn_count >= 5 && rolls.five < 5 {
        5
    } else if max_spawn_count >= 4 && rolls.four < 10 {
        4
    } else if max_spawn_count >= 3 && rolls.three < 15 {
        3
    } else if rolls.two < 30 {
        2
    } else {
        1
    }
}

/// The spawn timer after a frame of `dt` microseconds.
pub open spec fn timer_after(timer: u64, dt: u32) -> u64 {
    if timer + dt > u64::MAX {
        u64::MAX
    } else {
        (timer + dt) as u64
    }
}

/// The difficulty of a run that began at `start`, at time `now`.
pub open spec fn difficulty_of(start: u64, now: u64) -> Difficulty {
    difficulty_at(elapsed(now, start))
}

/// Whether a spawn tick is due.
pub open spec fn spawn_due(timer: u64, start: u64, now: u64) -> bool {
    timer >= difficulty_of(start, now).spawn_interval
}

/// Whether the rolls are percentages.
pub open spec fn rolls_valid(rolls: BurstRolls) -> bool {
    rolls.five < 100 && rolls.four < 100 && rolls.three < 100 && rolls.two < 100
}

/// Whether `wave` may be a burst into a world of the enemies `base`: each
/// enemy of the wave is what some draws bring into the world as it stands
/// when that enemy's turn comes.
pub open spec fn is_burst(base: Seq<Enemy>, wave: Seq<Enemy>, percent: u32, now: u64) -> bool
    decreases wave.len(),
{
    wave.len() == 0 || {
        &&& is_burst(base, wave.drop_last(), percent, now)
        &&& exists|d: SpawnDraws|
            draws_valid(d, (base + wave.drop_last()).len()) && wave.last() == #[trigger] spawned(
                base + wave.drop_last(),
                d,
                percent,
                now,
            )
    }
}

/// Whether `wave` may be what a frame brings into a world of the enemies
/// `base`: nothing unless a tick is due, else a burst of the size that some
/// rolls decide.
pub open spec fn is_spawn_wave(
    base: Seq<Enemy>,
    wave: Seq<Enemy>,
    due: bool,
    difficulty: Difficulty,
    now: u64,
) -> bool {
    if due {
        &&& exists|rolls: BurstRolls|
            rolls_valid(rolls) && wave.len() == #[trigger] burst_size(
                difficulty.max_spawn_count,
                rolls,
            )
        &&& is_burst(base, wave, difficulty.speed_percent, now)
    } else {
        wave.len() == 0
    }
}

/// The game after the spawner has run for a frame and brought `wave`: the
/// timer has advanced, and has started over if a tick was due.
pub open spec fn spawn_tick(g: GameView, frame: FrameInput, wave: Seq<Enemy>) -> GameView {
    let timer = timer_after(g.enemy_spawn_timer, frame.delta_time);
    GameView {
        enemy_spawn_timer: if spawn_due(timer, g.game_start_time, frame.now) {
            0
        } else {
            timer
        },
        enemies: g.enemies + wave,
        ..g
    }
}

/// No enemy of a burst is locked.
pub proof fn lemma_burst_unlocked(base: Seq<Enemy>, wave: Seq<Enemy>, percent: u32, now: u64)
    requires
        is_burst(base, wave, percent, now),
    ensures
        forall|i: int| 0 <= i < wave.len() ==> !(#[trigger] wave[i]).is_locked,
    decreases wave.len(),
{
    if wave.len() > 0 {
        let rest = wave.drop_last();
        lemma_burst_unlocked(base, rest, percent, now);
        assert forall|i: int| 0 <= i < wave.len() implies !(#[trigger] wave[i]).is_locked by {
            if i < rest.len() {
                assert(wave[i] == rest[i]);
            }
        }
    }
}

/// Draws a pseudo-random integer from a half-open range.
///
/// Trusted: calls `macroquad::rand::gen_range`, which scales the next output
/// of its global generator into the range and cuts off the fraction. For
/// bounds from zero to 2^20 the scaling is exact, so the draw is at least
/// `low` and below `high`; nothing else is claimed of it.
#[verifier::external_body]
fn random_below(low: u32, high: u32) -> (r: u32)
    requires
        low < high <= 0x10_0000,
    ensures
        low <= r < high,
{
    macroquad::rand::gen_range(low, high)
}

/// Draws the numbers that decide one spawn into a world of `crowd` enemies.
pub fn draw_spawn(crowd: usize) -> (d: SpawnDraws)
    ensures
        draws_valid(d, crowd as nat),
{
    let cluster = random_below(0, 100);
    let donor = if crowd == 0 {
        0
    } else if crowd < 0x10_0000 {
        random_below(0, crowd as u32)
    } else {
        random_below(0, 0x10_0000)
    };
    let offset = random_below(0, 2 * CLUSTER_SPREAD as u32);
    let free_x = random_below(SPAWN_LEFT as u32, SPAWN_RIGHT as u32);
    let kind = random_below(0, 4);
    SpawnDraws { cluster, donor, offset, free_x, kind }
}

/// Draws the percentages that decide the size of a burst.
pub fn draw_burst() -> (rolls: BurstRolls)
    ensures
        rolls_valid(rolls),
{
    let five = random_below(0, 100);
    let four = random_below(0, 100);
    let three = random_below(0, 100);
    let two = random_below(0, 100);
    BurstRolls { five, four, three, two }
}

/// How many enemies a tick brings, given its rolls.
pub fn spawn_count_from_rolls(max_spawn_count: u32, rolls: BurstRolls) -> (count: u32)
    ensures
        count == burst_size(max_spawn_count, rolls),
        1 <= count <= 5,
        count <= max_spawn_count || count <= 2,
{
    if max_spawn_count >= 5 && rolls.five < 5 {
        5
    } else if max_spawn_count >= 4 && rolls.four < 10 {
        4
    } else if max_spawn_count >= 3 && rolls.three < 15 {
        3
    } else if rolls.two < 30 {
        2
    } else {
        1
    }
}

/// The kind of motion with the given number.
pub fn enemy_type_from_roll(roll: u32) -> (kind: EnemyType)
    ensures
        kind == kind_of(roll),
{
    if roll == 0 {
        EnemyType::Straight
    } else if roll == 1 {
        EnemyType::Zigzag
    } else if roll == 2 {
        EnemyType::Arc
    } else {
        EnemyType::Homing
    }
}

/// The enemy that the draws bring into a world of the given enemies.
pub fn enemy_from_draws(enemies: &Vec<Enemy>, d: SpawnDraws, speed_percent: u32, now: u64) -> (e: Enemy)
    requires
        d.free_x <= i32::MAX,
    ensures
        e == spawned(enemies@, d, speed_percent, now),
{
    let x: i32 = if d.cluster < CLUSTER_CHANCE && (d.donor as usize) < enemies.len() {
        let near: i64 = enemies[d.donor as usize].position.x as i64 + d.offset as i64
            - CLUSTER_SPREAD as i64;
        clamp_i64(near, SPAWN_LEFT as i64, SPAWN_RIGHT as i64) as i32
    } else {
        d.free_x as i32
    };
    let kind = enemy_type_from_roll(d.kind);
    let base_speed: i32 = saturate_i64(1200 * speed_percent as i64);
    Enemy {
        position: Point { x, y: SPAWN_Y },
        velocity: Point { x: 0, y: base_speed },
        is_locked: false,
        enemy_type: kind,
        spawn_time: now,
        base_speed,
        sway: initial_sway(kind),
    }
}

impl Game {
    /// Brings one enemy into the world, at the given hundredths of the
    /// standard speed.
    pub fn spawn_enemy_with_difficulty(&mut self, speed_percent: u32, now: u64)
        ensures
            exists|d: SpawnDraws|
                draws_valid(d, old(self).enemies@.len()) && final(self)@ == (GameView {
                    enemies: old(self).enemies@.push(
                        #[trigger] spawned(old(self).enemies@, d, speed_percent, now),
                    ),
                    ..old(self)@
                }),
            old(self).wf() ==> final(self).wf(),
    {
        let d = draw_spawn(self.enemies.len());
        let e = enemy_from_draws(&self.enemies, d, speed_percent, now);
        self.enemies.push(e);
        proof {
            assert(self@ == (GameView {
                enemies: old(self).enemies@.push(spawned(old(self).enemies@, d, speed_percent, now)),
                ..old(self)@
            }));
            if old(self).wf() {
                let list = self.lock_system@.locked;
                let n = old(self).enemies@.len();
                assert(!list.contains(n as usize)) by {
                    if list.contains(n as usize) {
                        let k = choose|k: int| 0 <= k < list.len() && list[k] == n as usize;
                        assert(list[k] < n);
                    }
                }
                assert forall|i: int| 0 <= i < self.enemies@.len() implies (
                #[trigger] self.enemies@[i].is_locked <==> list.contains(i as usize)) by {
                    if i < n {
                        assert(self.enemies@[i] == old(self).enemies@[i]);
                    }
                }
                assert(self.enemies@.len() == self.enemies.len());
            }
        }
    }

    /// Runs the spawner for a frame: the timer advances, and when a tick is
    /// due it brings a burst of enemies and starts over.
    pub fn run_spawner(&mut self, frame: FrameInput)
        ensures
            exists|wave: Seq<Enemy>|
                is_spawn_wave(
                    old(self).enemies@,
                    wave,
                    spawn_due(
                        timer_after(old(self).enemy_spawn_timer, frame.delta_time),
                        old(self).game_start_time,
                        frame.now,
                    ),
                    difficulty_of(old(self).game_start_time, frame.now),
                    frame.now,
                ) && final(self)@ == #[trigger] spawn_tick(old(self)@, frame, wave),
            old(self).wf() ==> final(self).wf(),
    {
        self.enemy_spawn_timer = self.enemy_spawn_timer.saturating_add(frame.delta_time as u64);
        let difficulty = calculate_difficulty_parameters(
            elapsed_micros(frame.now, self.game_start_time),
        );
        let ghost wave: Seq<Enemy> = Seq::empty();
        if self.enemy_spawn_timer >= difficulty.spawn_interval {
            let rolls = draw_burst();
            let count = spawn_count_from_rolls(difficulty.max_spawn_count, rolls);
            let mut i: u32 = 0;
            while i < count
                invariant
                    i <= count,
                    wave.len() == i,
                    self@ == (GameView {
                        enemies: old(self).enemies@ + wave,
                        enemy_spawn_timer: self.enemy_spawn_timer,
                        ..old(self)@
                    }),
                    is_burst(old(self).enemies@, wave, difficulty.speed_percent, frame.now),
                    old(self).wf() ==> self.wf(),
                decreases count - i,
            {
                let ghost before = self.enemies@;
                self.spawn_enemy_with_difficulty(difficulty.speed_percent, frame.now);
                proof {
                    let d = choose|d: SpawnDraws|
                        draws_valid(d, before.len()) && self.enemies@ == before.push(
                            #[trigger] spawned(before, d, difficulty.speed_percent, frame.now),
                        );
                    let e = spawned(before, d, difficulty.speed_percent, frame.now);
                    assert(self.enemies@ =~= old(self).enemies@ + wave.push(e));
                    assert(wave.push(e).drop_last() =~= wave);
                    wave = wave.push(e);
                }
                i += 1;
            }
            self.enemy_spawn_timer = 0;
        } else {
            proof {
                assert(self.enemies@ =~= old(self).enemies@ + wave);
            }
        }
        proof {
            assert(self@ == spawn_tick(old(self)@, frame, wave));
        }
    }
}

} // verus!
