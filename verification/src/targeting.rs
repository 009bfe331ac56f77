//! The lock-on system at work in the game: acquiring, firing, releasing.

use vstd::prelude::*;
use crate::entities::LockOnLaser;
use crate::game::{targets_valid, Game, GameView};
use crate::input::long_press;
use crate::lasers::{aimed, launched, volley};
use crate::lock_on::{
    captured, held, in_circle, lemma_captured_properties, released, strayed, with_flags,
    LockOnView,
};
use crate::seqs::{lemma_filter_all, lemma_filter_step};

verus! {

/// The game after a frame of acquiring: the circle opens at the pointer if
/// it was closed, and holds the enemies that a scan captures.
pub open spec fn acquiring(g: GameView) -> GameView {
    let sys = if g.lock_system.active {
        g.lock_system
    } else {
        LockOnView { active: true, center: g.input.mouse_pos, ..g.lock_system }
    };
    let got = captured(g.enemies, sys.center, sys.radius, sys.max_targets as nat);
    GameView {
        enemies: with_flags(g.enemies, got),
        lock_system: LockOnView { locked: got, ..sys },
        ..g
    }
}

/// The game after one homing laser is launched from the player at each
/// locked enemy. A locked position that refers to no enemy launches
/// nothing and leaves the list.
pub open spec fn volley_fired(g: GameView, now: u64) -> GameView {
    GameView {
        lock_on_lasers: g.lock_on_lasers + volley(
            g.lock_system.locked,
            g.enemies,
            g.player.position,
            now,
        ),
        lock_system: LockOnView {
            locked: aimed(g.lock_system.locked, g.enemies),
            ..g.lock_system
        },
        ..g
    }
}

/// The game after every lock is released and the circle closed.
pub open spec fn released_all(g: GameView) -> GameView {
    GameView {
        enemies: released(g.enemies, g.lock_system.locked, |x: usize| true),
        lock_system: LockOnView { active: false, locked: Seq::empty(), ..g.lock_system },
        ..g
    }
}

/// What the lock-on system does in a frame, by the input of that frame.
///
/// While the button is held long, it acquires. When the button comes up
/// with the circle open, it fires at everything locked and releases. When
/// the button is found up with the circle still open, it releases without
/// firing. Otherwise nothing happens.
pub open spec fn lock_on_step(g: GameView, now: u64) -> GameView {
    if long_press(g.input.left_button_hold_time) {
        acquiring(g)
    } else if g.input.left_button_just_released && g.lock_system.active {
        released_all(volley_fired(g, now))
    } else if !g.input.left_button_pressed && g.lock_system.active {
        released_all(g)
    } else {
        g
    }
}

impl Game {
    /// Launches one homing laser from the player at each locked enemy, and
    /// drops from the list every position that refers to no enemy.
    pub fn fire_lock_on_lasers(&mut self, now: u64)
        ensures
            final(self)@ == volley_fired(old(self)@, now),
            old(self).wf() ==> final(self).wf(),
    {
        let mut kept: Vec<usize> = Vec::new();
        let ghost list = self.lock_system@.locked;
        let ghost enemies = self.enemies@;
        let ghost from = self.player.position;
        let ghost valid = |x: usize| x < enemies.len();
        let ghost launch = |x: usize| launched(from, enemies[x as int].position, x, now);
        let m = self.lock_system.locked_enemies.len();
        let mut k: usize = 0;
        while k < m
            invariant
                k <= m,
                m == list.len(),
                list == self.lock_system@.locked,
                enemies == self.enemies@,
                from == self.player.position,
                valid == (|x: usize| x < enemies.len()),
                launch == (|x: usize| launched(from, enemies[x as int].position, x, now)),
                kept@ == list.take(k as int).filter(valid),
                self@ == (GameView {
                    lock_on_lasers: old(self).lock_on_lasers@ + list.take(k as int).filter(
                        valid,
                    ).map_values(launch),
                    ..old(self)@
                }),
                targets_valid(old(self).lock_on_lasers@, enemies.len()) ==> targets_valid(
                    self.lock_on_lasers@,
                    enemies.len(),
                ),
            decreases m - k,
        {
            let enemy_idx = self.lock_system.locked_enemies[k];
            let ghost sofar = list.take(k as int).filter(valid);
            proof {
                lemma_filter_step(list, k as int, valid);
                sofar.lemma_push_map_commute(launch, enemy_idx);
            }
            if enemy_idx < self.enemies.len() {
                let target_pos = self.enemies[enemy_idx].position;
                self.lock_on_lasers.push(
                    LockOnLaser::launch(self.player.position, target_pos, enemy_idx, now),
                );
                kept.push(enemy_idx);
                proof {
                    assert(self.lock_on_lasers@ =~= old(self).lock_on_lasers@ + sofar.push(
                        enemy_idx,
                    ).map_values(launch));
                }
            }
            k += 1;
        }
        proof {
            assert(list.take(m as int) =~= list);
            if old(self).wf() {
                assert forall|i: int| 0 <= i < list.len() implies valid(#[trigger] list[i]) by {}
                lemma_filter_all(list, valid);
            }
        }
        self.lock_system.locked_enemies = kept;
    }

    /// Runs the lock-on system for a frame.
    pub fn update_lock_on_system(&mut self, now: u64)
        ensures
            final(self)@ == lock_on_step(old(self)@, now),
            old(self).wf() ==> final(self).wf(),
    {
        if self.input.is_long_press() {
            if !self.lock_system.active {
                self.lock_system.active = true;
                self.lock_system.center = self.input.mouse_pos;
            }
            let ghost sys = self.lock_system@;
            let ghost before = self.enemies@;
            self.lock_system.detect_enemies_in_wireframe(&mut self.enemies);
            let ghost got = self.lock_system@.locked;
            let ghost flagged = self.enemies@;
            self.lock_system.remove_out_of_range_targets(&mut self.enemies);
            proof {
                // nothing that a scan has just captured has left the circle
                let gone = strayed(flagged, sys.center, sys.radius);
                let stay = held(flagged, sys.center, sys.radius);
                assert(before.len() == old(self).enemies.len());
                lemma_captured_properties(before, sys.center, sys.radius, sys.max_targets as nat);
                assert forall|k: int| 0 <= k < got.len() implies stay(#[trigger] got[k]) by {
                    assert(in_circle(before[got[k] as int], sys.center, sys.radius));
                    assert(flagged[got[k] as int].position == before[got[k] as int].position);
                }
                lemma_filter_all(got, stay);
                assert forall|x: usize| #[trigger] got.contains(x) implies !gone(x) by {
                    let k = choose|k: int| 0 <= k < got.len() && got[k] == x;
                    assert(stay(got[k]));
                }
                assert(self.enemies@ =~= flagged);
                assert(self@ == acquiring(old(self)@));
            }
        } else if self.input.left_button_just_released && self.lock_system.active {
            if !self.lock_system.locked_enemies.is_empty() {
                self.fire_lock_on_lasers(now);
            } else {
                proof {
                    let none = volley(
                        self.lock_system@.locked,
                        self.enemies@,
                        self.player.position,
                        now,
                    );
                    self.lock_system@.locked.lemma_filter_len(|x: usize| x < self.enemies@.len());
                    assert(self.lock_on_lasers@ + none =~= self.lock_on_lasers@);
                    assert(aimed(self.lock_system@.locked, self.enemies@) =~= self.lock_system@.locked);
                }
            }
            self.lock_system.clear_all_locks(&mut self.enemies);
        } else if !self.input.left_button_pressed {
            if self.lock_system.active {
                self.lock_system.clear_all_locks(&mut self.enemies);
            }
        }
    }
}

} // verus!
