//! Straight lasers against enemies, and enemies against the player.

use vstd::prelude::*;
use crate::constants::{ENEMY_RADIUS, NORMAL_KILL_SCORE, PLAYER_HALF_HEIGHT, PLAYER_HALF_WIDTH};
use crate::entities::{Enemy, NormalLaser};
use crate::game::{Game, GameState, GameView};
use crate::geometry::{clamp, clamp_i64, is_within_reach, within, within_reach, Point};
use crate::indices::{
    indices_of_marks, indices_where, lemma_indices_where, lemma_indices_where_agree,
    remove_descending, without_indices,
};
use crate::removal::after_destroying;
use crate::scoring::{add_score, raised};

verus! {

/// Whether the laser, taken as a point, lies in the enemy's disc.
pub open spec fn hits(laser: NormalLaser, e: Enemy) -> bool {
    within(laser.position, e.position, ENEMY_RADIUS as int)
}

/// Whether the laser hits any of the enemies.
pub open spec fn has_hit(laser: NormalLaser, enemies: Seq<Enemy>) -> bool {
    exists|i: int| 0 <= i < enemies.len() && hits(laser, #[trigger] enemies[i])
}

/// Whether the enemy at `i` is the first that the laser hits.
pub open spec fn is_first_hit(laser: NormalLaser, enemies: Seq<Enemy>, i: int) -> bool {
    &&& 0 <= i < enemies.len()
    &&& hits(laser, enemies[i])
    &&& forall|j: int| 0 <= j < i ==> !hits(laser, #[trigger] enemies[j])
}

/// Whether the enemy at `i` is the first hit of one of the first `upto`
/// lasers.
pub open spec fn hit_by_any(lasers: Seq<NormalLaser>, enemies: Seq<Enemy>, upto: int, i: int) -> bool {
    exists|k: int| 0 <= k < upto && is_first_hit(#[trigger] lasers[k], enemies, i)
}

/// The positions of the lasers that hit an enemy, ascending.
pub open spec fn spent_lasers(lasers: Seq<NormalLaser>, enemies: Seq<Enemy>) -> Seq<usize> {
    indices_where(lasers.len(), |k: int| has_hit(lasers[k], enemies))
}

/// The positions of the enemies that are the first hit of some laser,
/// ascending, each once.
pub open spec fn shot_enemies(lasers: Seq<NormalLaser>, enemies: Seq<Enemy>) -> Seq<usize> {
    indices_where(enemies.len(), |i: int| hit_by_any(lasers, enemies, lasers.len() as int, i))
}

/// The game after the straight lasers are held against the enemies: each
/// laser that hits an enemy is spent on the first one it hits and scores a
/// hundred, and the enemies hit are taken out of the world.
pub open spec fn after_laser_hits(g: GameView) -> GameView {
    let spent = spent_lasers(g.normal_lasers, g.enemies);
    let shot = shot_enemies(g.normal_lasers, g.enemies);
    GameView {
        normal_lasers: without_indices(g.normal_lasers, spent),
        score: raised(g.score, NORMAL_KILL_SCORE * (spent.len() as int)),
        ..after_destroying(g, shot)
    }
}

/// How far `v` lies outside the interval from `lo` to `hi`.
pub open spec fn gap(v: int, lo: int, hi: int) -> int {
    v - clamp(v, lo, hi)
}

/// Whether the enemy's disc reaches the player's rectangle: the point of
/// the rectangle closest to the enemy's centre is no farther from it than
/// the enemy's radius.
pub open spec fn touches_player(player: Point, e: Enemy) -> bool {
    let gx = gap(e.position.x as int, player.x - PLAYER_HALF_WIDTH, player.x + PLAYER_HALF_WIDTH);
    let gy = gap(e.position.y as int, player.y - PLAYER_HALF_HEIGHT, player.y + PLAYER_HALF_HEIGHT);
    within_reach(gx, gy, ENEMY_RADIUS as int)
}

/// Whether any enemy touches the player.
pub open spec fn player_hit(player: Point, enemies: Seq<Enemy>) -> bool {
    exists|i: int| 0 <= i < enemies.len() && touches_player(player, #[trigger] enemies[i])
}

/// The first enemy that the laser hits, if it hits any.
pub fn find_first_hit(laser: &NormalLaser, enemies: &Vec<Enemy>) -> (found: Option<usize>)
    ensures
        match found {
            Some(i) => is_first_hit(*laser, enemies@, i as int),
            None => !has_hit(*laser, enemies@),
        },
{
    let mut i: usize = 0;
    while i < enemies.len()
        invariant
            i <= enemies.len(),
            forall|j: int| 0 <= j < i ==> !hits(*laser, #[trigger] enemies@[j]),
        decreases enemies.len() - i,
    {
        if laser.position.is_within(enemies[i].position, ENEMY_RADIUS) {
            return Some(i);
        }
        i += 1;
    }
    None
}

/// Whether the enemy touches the player at `player`.
pub fn enemy_touches_player(player: Point, e: &Enemy) -> (b: bool)
    ensures
        b == touches_player(player, *e),
{
    let cx: i64 = clamp_i64(
        e.position.x as i64,
        player.x as i64 - PLAYER_HALF_WIDTH as i64,
        player.x as i64 + PLAYER_HALF_WIDTH as i64,
    );
    let cy: i64 = clamp_i64(
        e.position.y as i64,
        player.y as i64 - PLAYER_HALF_HEIGHT as i64,
        player.y as i64 + PLAYER_HALF_HEIGHT as i64,
    );
    is_within_reach(e.position.x as i64 - cx, e.position.y as i64 - cy, ENEMY_RADIUS)
}

impl Game {
    /// Holds the straight lasers against the enemies.
    pub fn check_laser_enemy_collision(&mut self)
        ensures
            final(self)@ == after_laser_hits(old(self)@),
            old(self).wf() ==> final(self).wf(),
    {
        let n = self.enemies.len();
        let m = self.normal_lasers.len();
        let ghost lasers = self.normal_lasers@;
        let ghost enemies = self.enemies@;
        let ghost spent_by = |k: int| has_hit(lasers[k], enemies);
        let mut spent: Vec<usize> = Vec::new();
        let mut marks: Vec<bool> = vec![false; n];
        let mut k: usize = 0;
        while k < m
            invariant
                k <= m,
                m == self.normal_lasers.len(),
                n == self.enemies.len(),
                self@ == old(self)@,
                lasers == self.normal_lasers@,
                enemies == self.enemies@,
                spent_by == (|k: int| has_hit(lasers[k], enemies)),
                spent@ == indices_where(k as nat, spent_by),
                marks.len() == n,
                forall|i: int| 0 <= i < n ==> (#[trigger] marks@[i] <==> hit_by_any(lasers, enemies, k as int, i)),
            decreases m - k,
        {
            let ghost before = marks@;
            match find_first_hit(&self.normal_lasers[k], &self.enemies) {
                Some(i) => {
                    spent.push(k);
                    marks.set(i, true);
                    proof {
                        assert(has_hit(lasers[k as int], enemies));
                        assert forall|x: int| 0 <= x < n implies (#[trigger] marks@[x] <==> hit_by_any(
                            lasers,
                            enemies,
                            k + 1,
                            x,
                        )) by {
                            if hit_by_any(lasers, enemies, k + 1, x) {
                                let w = choose|w: int|
                                    0 <= w < k + 1 && is_first_hit(#[trigger] lasers[w], enemies, x);
                                if w == k {
                                    // a laser has one first hit
                                    if x < i {
                                        assert(!hits(lasers[k as int], enemies[x]));
                                    } else if i < x {
                                        assert(!hits(lasers[k as int], enemies[i as int]));
                                    }
                                } else {
                                    assert(hit_by_any(lasers, enemies, k as int, x));
                                }
                            }
                            if before[x] {
                                let w = choose|w: int|
                                    0 <= w < k && is_first_hit(#[trigger] lasers[w], enemies, x);
                                assert(is_first_hit(lasers[w], enemies, x));
                            }
                            if x == i {
                                assert(is_first_hit(lasers[k as int], enemies, x));
                            }
                        }
                    }
                },
                None => {
                    proof {
                        assert forall|x: int| 0 <= x < n implies (#[trigger] marks@[x] <==> hit_by_any(
                            lasers,
                            enemies,
                            k + 1,
                            x,
                        )) by {
                            if hit_by_any(lasers, enemies, k + 1, x) {
                                let w = choose|w: int|
                                    0 <= w < k + 1 && is_first_hit(#[trigger] lasers[w], enemies, x);
                                if w == k {
                                    assert(hits(lasers[k as int], enemies[x]));
                                } else {
                                    assert(hit_by_any(lasers, enemies, k as int, x));
                                }
                            }
                            if before[x] {
                                let w = choose|w: int|
                                    0 <= w < k && is_first_hit(#[trigger] lasers[w], enemies, x);
                                assert(is_first_hit(lasers[w], enemies, x));
                            }
                        }
                    }
                },
            }
            k += 1;
        }
        let shot = indices_of_marks(&marks);
        proof {
            lemma_indices_where_agree(
                n as nat,
                |i: int| marks@[i],
                |i: int| hit_by_any(lasers, enemies, lasers.len() as int, i),
            );
            lemma_indices_where(
                n as nat,
                |i: int| hit_by_any(lasers, enemies, lasers.len() as int, i),
            );
        }
        self.score = add_score(self.score, NORMAL_KILL_SCORE, spent.len());
        self.destroy_enemies(&shot);
        remove_descending(&mut self.normal_lasers, &spent);
    }

    /// Ends the run if an enemy touches the player, and says whether one
    /// does.
    pub fn check_player_enemy_collision(&mut self) -> (hit: bool)
        ensures
            hit == player_hit(old(self).player.position, old(self).enemies@),
            final(self)@ == (GameView {
                state: if hit {
                    GameState::GameOver
                } else {
                    old(self).state
                },
                ..old(self)@
            }),
            old(self).wf() ==> final(self).wf(),
    {
        let mut i: usize = 0;
        while i < self.enemies.len()
            invariant
                i <= self.enemies.len(),
                self@ == old(self)@,
                forall|j: int| 0 <= j < i ==> !touches_player(self.player.position, #[trigger] self.enemies@[j]),
            decreases self.enemies.len() - i,
        {
            if enemy_touches_player(self.player.position, &self.enemies[i]) {
                self.state = GameState::GameOver;
                return true;
            }
            i += 1;
        }
        false
    }
}

} // verus!
