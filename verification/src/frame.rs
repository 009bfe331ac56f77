//! One frame of the game, step by step.

use vstd::prelude::*;
use crate::collision::{after_laser_hits, player_hit};
use crate::constants::{
    BONUS_DISPLAY_TIME, BONUS_DISPLAY_X, BONUS_DISPLAY_Y, ENEMY_EXIT_Y, HOMING_KILL_SCORE,
    PLAYER_BOTTOM, PLAYER_LEFT, PLAYER_RIGHT, PLAYER_TOP,
};
use crate::entities::{BonusDisplay, Enemy, LockOnLaser, NormalLaser, Player};
use crate::game::{started, FrameInput, Game, GameState, GameView};
use crate::geometry::{clamp, clamp_i64, Point};
use crate::indices::{indices_of_marks, indices_where, lemma_indices_where, lemma_indices_where_agree};
use crate::input::polled;
use crate::lasers::{
    advance_homing_lasers, advance_normal_lasers, arrived, count_arrived, drop_arrived, fired_from,
    flown, homed, in_flight, struck, struck_by,
};
use crate::motion::{apply_sways, step_enemies, stepped, with_sways};
use crate::references::{
    lemma_closing_keeps_references, lemma_opening_keeps_places, references_kept,
};
use crate::removal::after_destroying;
use crate::scoring::{add_score, aged, bonus_for, expired, homing_score, multi_kill_bonus, raised};
use crate::seqs::{lemma_filter_membership, lemma_filter_step};
use crate::spawn::{difficulty_of, is_spawn_wave, spawn_due, spawn_tick, timer_after};
use crate::targeting::lock_on_step;

verus! {

/// The point of the playfield closest to `p` at which the whole player
/// fits.
pub open spec fn confined(p: Point) -> Point {
    Point {
        x: clamp(p.x as int, PLAYER_LEFT as int, PLAYER_RIGHT as int) as i32,
        y: clamp(p.y as int, PLAYER_TOP as int, PLAYER_BOTTOM as int) as i32,
    }
}

/// The game after the frame's input is taken in: the input state is
/// renewed, the enemies have their oscillation samples, and the player
/// stands where the pointer is, as far as the playfield allows.
pub open spec fn frame_opened(g: GameView, frame: FrameInput, sways: Seq<i32>) -> GameView {
    GameView {
        input: polled(g.input, frame.pointer, frame.button_down, frame.delta_time),
        enemies: with_sways(g.enemies, sways),
        player: Player { position: confined(frame.pointer), ..g.player },
        ..g
    }
}

/// The game after the player has had the chance to fire a straight laser:
/// one is fired when the button went down in this frame and the circle is
/// closed.
pub open spec fn normal_fire(g: GameView) -> GameView {
    if g.input.left_button_just_pressed && !g.lock_system.active {
        GameView { normal_lasers: g.normal_lasers.push(fired_from(g.player.position)), ..g }
    } else {
        g
    }
}

/// The game before the spawner runs.
pub open spec fn before_spawning(g: GameView, frame: FrameInput, sways: Seq<i32>) -> GameView {
    normal_fire(lock_on_step(frame_opened(g, frame, sways), frame.now))
}

/// The game after the straight lasers have flown.
pub open spec fn lasers_flown(g: GameView, dt: u32) -> GameView {
    GameView {
        normal_lasers: g.normal_lasers.map_values(|l: NormalLaser| flown(l, dt)).filter(
            |l: NormalLaser| in_flight(l),
        ),
        ..g
    }
}

/// The game after the homing lasers have advanced.
pub open spec fn lasers_homed(g: GameView, now: u64, dt: u32) -> GameView {
    GameView {
        lock_on_lasers: g.lock_on_lasers.map_values(|l: LockOnLaser| homed(l, g.enemies, now, dt)),
        ..g
    }
}

/// The number of homing lasers that have arrived.
pub open spec fn arrivals(g: GameView) -> int {
    g.lock_on_lasers.filter(|l: LockOnLaser| arrived(l)).len() as int
}

/// The positions of the enemies that an arrived homing laser refers to,
/// ascending, each once.
pub open spec fn struck_enemies(g: GameView) -> Seq<usize> {
    indices_where(g.enemies.len(), |i: int| struck(g.lock_on_lasers, i))
}

/// The popup that announces a bonus.
pub open spec fn popup(bonus: int) -> BonusDisplay {
    BonusDisplay {
        amount: bonus as u32,
        position: Point { x: BONUS_DISPLAY_X, y: BONUS_DISPLAY_Y },
        timer: 0,
        max_time: BONUS_DISPLAY_TIME,
    }
}

/// The game after the homing lasers that have arrived are resolved: the
/// enemies they refer to are taken out of the world, each arrival scores
/// two hundred, several arrivals at once earn a bonus and a popup, and the
/// arrived lasers are gone.
pub open spec fn arrivals_resolved(g: GameView) -> GameView {
    let h = after_destroying(g, struck_enemies(g));
    GameView {
        score: raised(g.score, homing_score(arrivals(g))),
        bonus_displays: if bonus_for(arrivals(g)) > 0 {
            g.bonus_displays.push(popup(bonus_for(arrivals(g))))
        } else {
            g.bonus_displays
        },
        lock_on_lasers: h.lock_on_lasers.filter(|l: LockOnLaser| !arrived(l)),
        ..h
    }
}

/// The game after the enemies have moved.
pub open spec fn enemies_moved(g: GameView, dt: u32) -> GameView {
    GameView {
        enemies: g.enemies.map_values(|e: Enemy| stepped(e, g.player.position, dt)),
        ..g
    }
}

/// The positions of the enemies that have sunk fifty pixels or more below
/// the playfield, ascending.
pub open spec fn escaped(enemies: Seq<Enemy>) -> Seq<usize> {
    indices_where(enemies.len(), |i: int| enemies[i].position.y >= ENEMY_EXIT_Y)
}

/// The game after the enemies that have left the playfield are taken out.
pub open spec fn escapees_removed(g: GameView) -> GameView {
    after_destroying(g, escaped(g.enemies))
}

/// The game after the popups have aged and the expired ones are gone.
pub open spec fn popups_aged(g: GameView, dt: u32) -> GameView {
    GameView {
        bonus_displays: g.bonus_displays.map_values(|b: BonusDisplay| aged(b, dt)).filter(
            |b: BonusDisplay| !expired(b),
        ),
        ..g
    }
}

/// The game after the player is held against the enemies: over when one of
/// them touches the player.
pub open spec fn player_checked(g: GameView) -> GameView {
    GameView {
        state: if player_hit(g.player.position, g.enemies) {
            GameState::GameOver
        } else {
            g.state
        },
        ..g
    }
}

/// The rest of the frame after the spawner has run. The lasers advance,
/// arrivals are resolved, the enemies move, and the collisions are decided.
/// If the player is hit, the frame ends there; otherwise the enemies that
/// have left are removed and the popups age.
pub open spec fn frame_closed(g: GameView, frame: FrameInput) -> GameView {
    let fought = after_laser_hits(
        enemies_moved(
            arrivals_resolved(
                lasers_homed(lasers_flown(g, frame.delta_time), frame.now, frame.delta_time),
            ),
            frame.delta_time,
        ),
    );
    if player_hit(fought.player.position, fought.enemies) {
        player_checked(fought)
    } else {
        popups_aged(escapees_removed(fought), frame.delta_time)
    }
}

/// A frame of play in which the spawner brings `wave`.
pub open spec fn frame_played(g: GameView, frame: FrameInput, sways: Seq<i32>, wave: Seq<Enemy>) -> GameView {
    frame_closed(spawn_tick(before_spawning(g, frame, sways), frame, wave), frame)
}

/// Whether `wave` may be what the spawner brings in this frame.
pub open spec fn wave_possible(g: GameView, frame: FrameInput, wave: Seq<Enemy>) -> bool {
    is_spawn_wave(
        g.enemies,
        wave,
        spawn_due(timer_after(g.enemy_spawn_timer, frame.delta_time), g.game_start_time, frame.now),
        difficulty_of(g.game_start_time, frame.now),
        frame.now,
    )
}

/// A frame on the title or game-over screen: the input is taken in, and a
/// click begins a run.
pub open spec fn awaiting_click(g: GameView, frame: FrameInput) -> GameView {
    let waiting = GameView {
        input: polled(g.input, frame.pointer, frame.button_down, frame.delta_time),
        ..g
    };
    if waiting.input.left_button_just_pressed {
        started(waiting, frame.now)
    } else {
        waiting
    }
}

/// Enemies that keep their number and their flags keep the lock invariant.
pub proof fn lemma_flags_kept(before: GameView, after: GameView)
    requires
        before.wf(),
        after.enemies.len() == before.enemies.len(),
        forall|i: int|
            0 <= i < before.enemies.len() ==> (#[trigger] after.enemies[i]).is_locked
                == before.enemies[i].is_locked,
        after.lock_system == before.lock_system,
        after.lock_on_lasers.len() == before.lock_on_lasers.len(),
        forall|k: int|
            0 <= k < before.lock_on_lasers.len() ==> ((
            #[trigger] after.lock_on_lasers[k]).target_enemy_id matches Some(id) ==> id
                < before.enemies.len()),
    ensures
        after.wf(),
{
    assert forall|i: int| 0 <= i < after.enemies.len() implies (#[trigger] after.enemies[i].is_locked
        <==> after.lock_system.locked.contains(i as usize)) by {
        assert(before.enemies[i].is_locked <==> before.lock_system.locked.contains(i as usize));
    }
}

/// Limits the pointer to where the whole player fits in the playfield.
pub fn confine(p: Point) -> (q: Point)
    ensures
        q == confined(p),
{
    Point {
        x: clamp_i64(p.x as i64, PLAYER_LEFT as i64, PLAYER_RIGHT as i64) as i32,
        y: clamp_i64(p.y as i64, PLAYER_TOP as i64, PLAYER_BOTTOM as i64) as i32,
    }
}

impl Game {
    /// Takes in the input of the frame.
    pub fn open_frame(&mut self, frame: FrameInput, sways: &Vec<i32>)
        ensures
            final(self)@ == frame_opened(old(self)@, frame, sways@),
            old(self).wf() ==> final(self).wf(),
    {
        self.input.update(frame.pointer, frame.button_down, frame.delta_time);
        apply_sways(&mut self.enemies, sways);
        self.player.position = confine(self.input.mouse_pos);
        proof {
            if old(self).wf() {
                lemma_flags_kept(old(self)@, self@);
            }
        }
    }

    /// Fires a straight laser from the player.
    pub fn fire_normal_laser(&mut self)
        ensures
            final(self)@ == (GameView {
                normal_lasers: old(self).normal_lasers@.push(fired_from(old(self).player.position)),
                ..old(self)@
            }),
            old(self).wf() ==> final(self).wf(),
    {
        self.normal_lasers.push(NormalLaser::fire(self.player.position));
    }

    /// Resolves the homing lasers that have arrived.
    pub fn resolve_arrivals(&mut self)
        ensures
            final(self)@ == arrivals_resolved(old(self)@),
            old(self).wf() ==> final(self).wf(),
    {
        let count = count_arrived(&self.lock_on_lasers);
        let n = self.enemies.len();
        let m = self.lock_on_lasers.len();
        let ghost lasers = self.lock_on_lasers@;
        let mut marks: Vec<bool> = vec![false; n];
        let mut k: usize = 0;
        while k < m
            invariant
                k <= m,
                m == self.lock_on_lasers.len(),
                n == self.enemies.len(),
                self@ == old(self)@,
                lasers == self.lock_on_lasers@,
                marks.len() == n,
                forall|i: int| 0 <= i < n ==> (#[trigger] marks@[i] <==> struck_by(lasers, k as int, i)),
            decreases m - k,
        {
            let ghost before = marks@;
            let laser = self.lock_on_lasers[k];
            let mut marked: Option<usize> = None;
            if laser.has_arrived() {
                match laser.target_enemy_id {
                    Some(id) => {
                        if id < n {
                            marks.set(id, true);
                            marked = Some(id);
                        }
                    },
                    None => {},
                }
            }
            proof {
                assert forall|i: int| 0 <= i < n implies (#[trigger] marks@[i] <==> struck_by(
                    lasers,
                    k + 1,
                    i,
                )) by {
                    if struck_by(lasers, k + 1, i) {
                        let w = choose|w: int|
                            0 <= w < k + 1 && arrived(#[trigger] lasers[w])
                                && lasers[w].target_enemy_id == Some(i as usize);
                        if w < k {
                            assert(struck_by(lasers, k as int, i));
                        }
                    }
                    if before[i] {
                        let w = choose|w: int|
                            0 <= w < k && arrived(#[trigger] lasers[w]) && lasers[w].target_enemy_id
                                == Some(i as usize);
                        assert(arrived(lasers[w]));
                    }
                    if marked == Some(i as usize) {
                        assert(arrived(lasers[k as int]));
                    }
                }
            }
            k += 1;
        }
        let targets = indices_of_marks(&marks);
        proof {
            lemma_indices_where_agree(n as nat, |i: int| marks@[i], |i: int| struck(lasers, i));
            lemma_indices_where(n as nat, |i: int| struck(lasers, i));
        }
        self.destroy_enemies(&targets);
        let bonus = multi_kill_bonus(count);
        self.score = add_score(add_score(self.score, HOMING_KILL_SCORE, count), bonus, 1);
        if bonus > 0 {
            self.bonus_displays.push(
                BonusDisplay::new(bonus, Point { x: BONUS_DISPLAY_X, y: BONUS_DISPLAY_Y }),
            );
        }
        let ghost adjusted = self.lock_on_lasers@;
        drop_arrived(&mut self.lock_on_lasers);
        proof {
            if old(self).wf() {
                let keep = |l: LockOnLaser| !arrived(l);
                let left = self.lock_on_lasers@;
                assert forall|j: int| 0 <= j < left.len() implies ((
                #[trigger] left[j]).target_enemy_id matches Some(id) ==> id < self.enemies@.len()) by {
                    assert(left.contains(left[j]));
                    lemma_filter_membership(adjusted, keep, left[j]);
                    let w = choose|w: int| 0 <= w < adjusted.len() && adjusted[w] == left[j];
                    assert(adjusted[w].target_enemy_id == left[j].target_enemy_id);
                }
            }
        }
    }

    /// Moves the enemies through the frame.
    pub fn move_enemies(&mut self, delta_time: u32)
        ensures
            final(self)@ == enemies_moved(old(self)@, delta_time),
            old(self).wf() ==> final(self).wf(),
    {
        step_enemies(&mut self.enemies, self.player.position, delta_time);
        proof {
            if old(self).wf() {
                lemma_flags_kept(old(self)@, self@);
            }
        }
    }

    /// Takes the enemies that have left the playfield out of the world.
    pub fn remove_escaped_enemies(&mut self)
        ensures
            final(self)@ == escapees_removed(old(self)@),
            old(self).wf() ==> final(self).wf(),
    {
        let ghost enemies = self.enemies@;
        let ghost out = |i: int| enemies[i].position.y >= ENEMY_EXIT_Y;
        let n = self.enemies.len();
        let mut gone: Vec<usize> = Vec::new();
        let mut i: usize = 0;
        while i < n
            invariant
                i <= n,
                n == self.enemies.len(),
                self@ == old(self)@,
                enemies == self.enemies@,
                out == (|i: int| enemies[i].position.y >= ENEMY_EXIT_Y),
                gone@ == indices_where(i as nat, out),
            decreases n - i,
        {
            if self.enemies[i].position.y >= ENEMY_EXIT_Y {
                gone.push(i);
            }
            i += 1;
        }
        proof {
            lemma_indices_where(n as nat, out);
        }
        self.destroy_enemies(&gone);
    }

    /// Ages the popups and drops those that have expired.
    pub fn update_bonus_displays(&mut self, delta_time: u32)
        ensures
            final(self)@ == popups_aged(old(self)@, delta_time),
            old(self).wf() ==> final(self).wf(),
    {
        let ghost age = |b: BonusDisplay| aged(b, delta_time);
        let ghost keep = |b: BonusDisplay| !expired(b);
        let ghost all = self.bonus_displays@.map_values(age);
        let n = self.bonus_displays.len();
        let mut kept: Vec<BonusDisplay> = Vec::new();
        let mut i: usize = 0;
        while i < n
            invariant
                i <= n,
                n == self.bonus_displays.len(),
                self@ == old(self)@,
                age == (|b: BonusDisplay| aged(b, delta_time)),
                keep == (|b: BonusDisplay| !expired(b)),
                all == self.bonus_displays@.map_values(age),
                kept@ == all.take(i as int).filter(keep),
            decreases n - i,
        {
            let mut b = self.bonus_displays[i];
            b.update(delta_time);
            proof {
                lemma_filter_step(all, i as int, keep);
            }
            if !b.is_expired() {
                kept.push(b);
            }
            i += 1;
        }
        proof {
            assert(all.take(n as int) =~= all);
        }
        self.bonus_displays = kept;
    }

    /// The part of a frame of play that follows the spawner.
    pub fn close_frame(&mut self, frame: FrameInput)
        ensures
            final(self)@ == frame_closed(old(self)@, frame),
            old(self).wf() ==> final(self).wf(),
    {
        advance_normal_lasers(&mut self.normal_lasers, frame.delta_time);
        advance_homing_lasers(&mut self.lock_on_lasers, &self.enemies, frame.now, frame.delta_time);
        proof {
            if old(self).wf() {
                lemma_flags_kept(old(self)@, self@);
            }
        }
        self.resolve_arrivals();
        self.move_enemies(frame.delta_time);
        self.check_laser_enemy_collision();
        if self.check_player_enemy_collision() {
            return ;
        }
        self.remove_escaped_enemies();
        self.update_bonus_displays(frame.delta_time);
    }

    /// A frame of play.
    pub fn update_playing(&mut self, frame: FrameInput, sways: &Vec<i32>)
        ensures
            exists|wave: Seq<Enemy>|
                {
                    &&& wave_possible(before_spawning(old(self)@, frame, sways@), frame, wave)
                    &&& final(self)@ == #[trigger] frame_played(old(self)@, frame, sways@, wave)
                    &&& old(self).wf() ==> references_kept(old(self)@, frame, sways@, wave)
                },
            old(self).wf() ==> final(self).wf(),
    {
        self.open_frame(frame, sways);
        self.update_lock_on_system(frame.now);
        if self.input.left_button_just_pressed && !self.lock_system.active {
            self.fire_normal_laser();
        }
        let ghost ready = self@;
        self.run_spawner(frame);
        let ghost wave = choose|wave: Seq<Enemy>|
            wave_possible(ready, frame, wave) && self@ == #[trigger] spawn_tick(ready, frame, wave);
        let ghost start = self@;
        proof {
            assert(start.lock_on_lasers.len() == self.lock_on_lasers.len());
        }
        self.close_frame(frame);
        proof {
            assert(self@ == frame_played(old(self)@, frame, sways@, wave));
            if old(self).wf() {
                lemma_opening_keeps_places(old(self)@, frame, sways@, wave);
                lemma_closing_keeps_references(start, frame);
            }
        }
    }

    /// A frame of the game: on the title and game-over screens a click
    /// begins a run; during a run the world is played.
    pub fn update(&mut self, frame: FrameInput, sways: &Vec<i32>)
        ensures
            old(self).state != GameState::Playing ==> final(self)@ == awaiting_click(
                old(self)@,
                frame,
            ),
            old(self).state == GameState::Playing ==> exists|wave: Seq<Enemy>|
                {
                    &&& wave_possible(before_spawning(old(self)@, frame, sways@), frame, wave)
                    &&& final(self)@ == #[trigger] frame_played(old(self)@, frame, sways@, wave)
                    &&& old(self).wf() ==> references_kept(old(self)@, frame, sways@, wave)
                },
            old(self).wf() ==> final(self).wf(),
    {
        match self.state {
            GameState::Title => {
                self.input.update(frame.pointer, frame.button_down, frame.delta_time);
                if self.input.left_button_just_pressed {
                    self.start_game(frame.now);
                }
            },
            GameState::Playing => {
                self.update_playing(frame, sways);
            },
            GameState::GameOver => {
                self.input.update(frame.pointer, frame.button_down, frame.delta_time);
                if self.input.left_button_just_pressed {
                    self.restart_game(frame.now);
                }
            },
        }
    }
}

} // verus!
