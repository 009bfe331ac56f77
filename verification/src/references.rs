//! References through a whole frame.
//!
//! A homing laser refers to its enemy by position, and in one frame enemies
//! may leave the world three times over: struck by a homing laser, shot by
//! a straight laser, or sunk below the playfield. This module follows a
//! position through all of it and proves that a laser that remains at the
//! end of the frame refers to the enemy it referred to before, or to none
//! if that enemy has left.

use vstd::prelude::*;
use crate::collision::{after_laser_hits, hit_by_any, player_hit, shot_enemies};
use crate::constants::ENEMY_EXIT_Y;
use crate::entities::{Enemy, LockOnLaser};
use crate::frame::{
    arrivals_resolved, before_spawning, enemies_moved, escaped, frame_closed, frame_opened,
    frame_played, lasers_flown, lasers_homed, lemma_flags_kept, normal_fire, struck_enemies,
    wave_possible,
};
use crate::game::{FrameInput, GameView};
use crate::input::long_press;
use crate::indices::{
    adjust_index, indices_where, is_batch, lemma_adjust_bounds, lemma_adjusted_reference,
    lemma_indices_where, without_indices,
};
use crate::lasers::{aimed, arrived, homed, retargeted, struck, volley};
use crate::lock_on::{captured, lemma_captured_properties};
use crate::removal::{after_destroying, lemma_destroying_keeps_invariant, lemma_references_follow};
use crate::seqs::{lemma_filter_all, lemma_filter_by_indices, lemma_filter_map_commute};
use crate::spawn::{difficulty_of, lemma_burst_unlocked, spawn_tick};
use crate::targeting::{acquiring, lock_on_step, released_all, volley_fired};

verus! {

/// Whether two records are of the same enemy: it appeared at the same
/// time, with the same kind of motion and the same base speed.
pub open spec fn same_enemy(a: Enemy, b: Enemy) -> bool {
    a.spawn_time == b.spawn_time && a.enemy_type == b.enemy_type && a.base_speed == b.base_speed
}

/// Whether two records are of the same homing laser: it was launched at the
/// same time from the same place, with the same speed and acceleration.
pub open spec fn same_laser(a: LockOnLaser, b: LockOnLaser) -> bool {
    &&& a.launch_time == b.launch_time
    &&& a.start_pos == b.start_pos
    &&& a.initial_speed == b.initial_speed
    &&& a.acceleration == b.acceleration
}

/// Where the entry at `place` stands after the entries at `destroyed` have
/// left; nowhere if it was one of them, or stood nowhere before.
pub open spec fn place_after(place: Option<int>, destroyed: Seq<usize>) -> Option<int> {
    match place {
        Some(x) => if destroyed.contains(x as usize) {
            None
        } else {
            Some(adjust_index(x, destroyed))
        },
        None => None,
    }
}

/// The game after the lasers have advanced.
pub open spec fn stage_homed(g: GameView, frame: FrameInput) -> GameView {
    lasers_homed(lasers_flown(g, frame.delta_time), frame.now, frame.delta_time)
}

/// The game after arrivals are resolved and the enemies have moved.
pub open spec fn stage_moved(g: GameView, frame: FrameInput) -> GameView {
    enemies_moved(arrivals_resolved(stage_homed(g, frame)), frame.delta_time)
}

/// The game after the straight lasers are held against the enemies.
pub open spec fn stage_fought(g: GameView, frame: FrameInput) -> GameView {
    after_laser_hits(stage_moved(g, frame))
}

/// Where the enemy that stands at `t` when the lasers start to advance
/// stands at the end of the frame; nowhere if it has left the world.
pub open spec fn fate(g: GameView, frame: FrameInput, t: int) -> Option<int> {
    let struck = place_after(Some(t), struck_enemies(stage_homed(g, frame)));
    let moved = stage_moved(g, frame);
    let shot = place_after(struck, shot_enemies(moved.normal_lasers, moved.enemies));
    let fought = stage_fought(g, frame);
    if player_hit(fought.player.position, fought.enemies) {
        shot
    } else {
        place_after(shot, escaped(fought.enemies))
    }
}

/// The positions, in the list as it stands when the lasers start to
/// advance, of the homing lasers that do not arrive in this frame,
/// ascending.
pub open spec fn remaining(g: GameView, frame: FrameInput) -> Seq<usize> {
    indices_where(
        g.lock_on_lasers.len(),
        |j: int| !arrived(homed(g.lock_on_lasers[j], g.enemies, frame.now, frame.delta_time)),
    )
}

/// Whether the laser that stood at `j` when the lasers started to advance
/// stands at `k` at the end of the frame with its reference carried over:
/// it refers to the enemy it referred to before, at the place where that
/// enemy now stands, or to none if the enemy has left.
pub open spec fn carried(g: GameView, frame: FrameInput, j: int, k: int) -> bool {
    let end = frame_closed(g, frame);
    &&& 0 <= j < g.lock_on_lasers.len()
    &&& 0 <= k < end.lock_on_lasers.len()
    &&& same_laser(end.lock_on_lasers[k], g.lock_on_lasers[j])
    &&& match g.lock_on_lasers[j].target_enemy_id {
        Some(t) => match fate(g, frame, t as int) {
            Some(y) => {
                &&& end.lock_on_lasers[k].target_enemy_id == Some(y as usize)
                &&& 0 <= y < end.enemies.len()
                &&& t < g.enemies.len()
                &&& same_enemy(end.enemies[y], g.enemies[t as int])
            },
            None => end.lock_on_lasers[k].target_enemy_id.is_none(),
        },
        None => end.lock_on_lasers[k].target_enemy_id.is_none(),
    }
}

/// How one reference fares when a batch of enemies leaves.
proof fn lemma_retarget_one(enemies: Seq<Enemy>, destroyed: Seq<usize>, l: LockOnLaser)
    requires
        is_batch(destroyed, enemies.len() as int),
        enemies.len() <= usize::MAX,
        l.target_enemy_id matches Some(t) ==> t < enemies.len(),
    ensures
        same_laser(retargeted(l, destroyed), l),
        retargeted(l, destroyed).progress == l.progress,
        match l.target_enemy_id {
            Some(t) => match place_after(Some(t as int), destroyed) {
                Some(y) => {
                    &&& retargeted(l, destroyed).target_enemy_id == Some(y as usize)
                    &&& 0 <= y < without_indices(enemies, destroyed).len()
                    &&& without_indices(enemies, destroyed)[y] == enemies[t as int]
                },
                None => retargeted(l, destroyed).target_enemy_id.is_none(),
            },
            None => retargeted(l, destroyed).target_enemy_id.is_none(),
        },
{
    match l.target_enemy_id {
        Some(t) => {
            if !destroyed.contains(t) {
                lemma_adjusted_reference(enemies, destroyed, t as int);
                lemma_adjust_bounds(t as int, destroyed);
            }
        },
        None => {},
    }
}

/// Whether the lock on the enemy that stood at `x` when the lasers started
/// to advance is carried over to the end of the frame: if the enemy is
/// still in the world, the place where it now stands is listed.
pub open spec fn lock_carried(g: GameView, frame: FrameInput, x: usize) -> bool {
    let end = frame_closed(g, frame);
    match fate(g, frame, x as int) {
        Some(y) => {
            &&& end.lock_system.locked.contains(y as usize)
            &&& 0 <= y < end.enemies.len()
            &&& x < g.enemies.len()
            &&& same_enemy(end.enemies[y], g.enemies[x as int])
        },
        None => true,
    }
}

/// Through the part of a frame in which enemies leave, the invariant of the
/// game is kept, the homing lasers that have not arrived remain in their
/// order, each of them has its reference carried over, and so has each
/// lock.
pub proof fn lemma_closing_keeps_references(g: GameView, frame: FrameInput)
    requires
        g.wf(),
        g.lock_on_lasers.len() <= usize::MAX,
    ensures
        frame_closed(g, frame).wf(),
        frame_closed(g, frame).lock_on_lasers.len() == remaining(g, frame).len(),
        forall|k: int|
            0 <= k < remaining(g, frame).len() ==> carried(
                g,
                frame,
                #[trigger] remaining(g, frame)[k] as int,
                k,
            ),
        forall|x: usize| #[trigger] g.lock_system.locked.contains(x) ==> lock_carried(g, frame, x),
{
    let dt = frame.delta_time;
    let now = frame.now;
    let n = g.enemies.len();
    let left = remaining(g, frame);
    let still = |j: int| !arrived(homed(g.lock_on_lasers[j], g.enemies, now, dt));
    let keep = |l: LockOnLaser| !arrived(l);

    // the lasers advance
    let a = stage_homed(g, frame);
    assert forall|j: int| 0 <= j < g.lock_on_lasers.len() implies (#[trigger] a.lock_on_lasers[j])
        == homed(g.lock_on_lasers[j], g.enemies, now, dt) && a.lock_on_lasers[j].target_enemy_id
        == g.lock_on_lasers[j].target_enemy_id && same_laser(
        a.lock_on_lasers[j],
        g.lock_on_lasers[j],
    ) by {
        let l = g.lock_on_lasers[j];
        assert(l.target_enemy_id matches Some(id) ==> id < n);
    }
    lemma_flags_kept(g, a);
    lemma_indices_where(g.lock_on_lasers.len(), still);

    // arrivals are resolved
    let s1 = struck_enemies(a);
    lemma_indices_where(n, |i: int| struck(a.lock_on_lasers, i));
    let h = after_destroying(a, s1);
    lemma_destroying_keeps_invariant(a, s1);
    let rt1 = |l: LockOnLaser| retargeted(l, s1);
    assert forall|l: LockOnLaser| #[trigger] keep(rt1(l)) == keep(l) by {}
    lemma_filter_map_commute(a.lock_on_lasers, rt1, keep);
    assert forall|j: int| 0 <= j < a.lock_on_lasers.len() implies #[trigger] still(j) == keep(
        a.lock_on_lasers[j],
    ) by {}
    lemma_filter_by_indices(a.lock_on_lasers, keep, still);
    let r = arrivals_resolved(a);
    let rest = a.lock_on_lasers.filter(keep);
    assert(r.lock_on_lasers == rest.map_values(rt1));
    assert(r.lock_on_lasers.len() == left.len());
    assert forall|k: int| 0 <= k < left.len() implies (#[trigger] r.lock_on_lasers[k]) == retargeted(
        a.lock_on_lasers[left[k] as int],
        s1,
    ) && r.lock_on_lasers[k] == h.lock_on_lasers[left[k] as int] by {
        assert(rest[k] == a.lock_on_lasers[left[k] as int]);
    }
    assert(r.wf());

    // the enemies move
    let b = stage_moved(g, frame);
    assert(b == enemies_moved(r, dt));
    lemma_flags_kept(r, b);
    assert forall|i: int| 0 <= i < r.enemies.len() implies same_enemy(
        #[trigger] b.enemies[i],
        r.enemies[i],
    ) by {}

    // the straight lasers are held against them
    let s2 = shot_enemies(b.normal_lasers, b.enemies);
    lemma_indices_where(
        b.enemies.len(),
        |i: int| hit_by_any(b.normal_lasers, b.enemies, b.normal_lasers.len() as int, i),
    );
    let c = stage_fought(g, frame);
    lemma_destroying_keeps_invariant(b, s2);
    assert(c.enemies == after_destroying(b, s2).enemies);
    assert(c.lock_system == after_destroying(b, s2).lock_system);
    assert(c.lock_on_lasers == after_destroying(b, s2).lock_on_lasers);
    assert(c.wf());

    // the enemies that have left the playfield are taken out
    let hit = player_hit(c.player.position, c.enemies);
    let s3 = escaped(c.enemies);
    lemma_indices_where(c.enemies.len(), |i: int| c.enemies[i].position.y >= ENEMY_EXIT_Y);
    lemma_destroying_keeps_invariant(c, s3);
    let end = frame_closed(g, frame);
    if hit {
        assert(end.enemies == c.enemies);
        assert(end.lock_on_lasers == c.lock_on_lasers);
        assert(end.lock_system == c.lock_system);
    } else {
        assert(end.enemies == after_destroying(c, s3).enemies);
        assert(end.lock_on_lasers == after_destroying(c, s3).lock_on_lasers);
        assert(end.lock_system == after_destroying(c, s3).lock_system);
    }
    assert(end.wf());

    lemma_references_follow(a, s1);
    lemma_references_follow(b, s2);
    lemma_references_follow(c, s3);
    assert forall|x: usize| #[trigger] g.lock_system.locked.contains(x) implies lock_carried(
        g,
        frame,
        x,
    ) by {
        let i = choose|i: int| 0 <= i < g.lock_system.locked.len() && g.lock_system.locked[i] == x;
        assert(x < n);
        if !s1.contains(x) {
            let y1 = adjust_index(x as int, s1);
            assert(r.lock_system.locked.contains(y1 as usize));
            assert(r.enemies[y1] == a.enemies[x as int]);
            assert(same_enemy(b.enemies[y1], r.enemies[y1]));
            if !s2.contains(y1 as usize) {
                let y2 = adjust_index(y1, s2);
                assert(y2 == adjust_index((y1 as usize) as int, s2));
                assert(c.lock_system.locked.contains(y2 as usize));
                assert(c.enemies[y2] == b.enemies[y1]);
                if !hit && !s3.contains(y2 as usize) {
                    let y3 = adjust_index(y2, s3);
                    assert(y3 == adjust_index((y2 as usize) as int, s3));
                    assert(end.lock_system.locked.contains(y3 as usize));
                }
            }
        }
    }

    assert forall|k: int| 0 <= k < left.len() implies carried(
        g,
        frame,
        #[trigger] left[k] as int,
        k,
    ) by {
        let j = left[k] as int;
        let l0 = g.lock_on_lasers[j];
        let la = a.lock_on_lasers[j];
        let l1 = r.lock_on_lasers[k];
        let l2 = c.lock_on_lasers[k];
        lemma_retarget_one(a.enemies, s1, la);
        assert(l1 == retargeted(la, s1));
        assert(b.lock_on_lasers[k] == l1);
        assert(l1.target_enemy_id matches Some(t) ==> t < b.enemies.len());
        lemma_retarget_one(b.enemies, s2, l1);
        assert(l2 == retargeted(l1, s2));
        assert(l2.target_enemy_id matches Some(t) ==> t < c.enemies.len());
        if !hit {
            lemma_retarget_one(c.enemies, s3, l2);
            assert(end.lock_on_lasers[k] == retargeted(l2, s3));
        }
        match l0.target_enemy_id {
            Some(t) => {
                let p1 = place_after(Some(t as int), s1);
                match p1 {
                    Some(y1) => {
                        assert(r.enemies[y1] == a.enemies[t as int]);
                        assert(same_enemy(b.enemies[y1], r.enemies[y1]));
                        let p2 = place_after(p1, s2);
                        match p2 {
                            Some(y2) => {
                                assert(c.enemies[y2] == b.enemies[y1]);
                            },
                            None => {},
                        }
                    },
                    None => {},
                }
            },
            None => {},
        }
    }
}

/// The game when the lasers start to advance: the input is taken in, the
/// lock-on system and the player have acted, and the spawner has brought
/// `wave`.
pub open spec fn after_spawner(g: GameView, frame: FrameInput, sways: Seq<i32>, wave: Seq<Enemy>) -> GameView {
    spawn_tick(before_spawning(g, frame, sways), frame, wave)
}

/// Until the lasers start to advance, nothing in a frame moves an enemy or
/// a homing laser from its place: the enemies of the start of the frame
/// stand where they stood, followed by those that the spawner brought, and
/// the lasers of the start of the frame are what they were, followed by
/// those launched in this frame.
pub proof fn lemma_opening_keeps_places(g: GameView, frame: FrameInput, sways: Seq<i32>, wave: Seq<Enemy>)
    ensures
        g.lock_on_lasers.len() <= after_spawner(g, frame, sways, wave).lock_on_lasers.len(),
        forall|j: int|
            0 <= j < g.lock_on_lasers.len() ==> (#[trigger] after_spawner(
                g,
                frame,
                sways,
                wave,
            ).lock_on_lasers[j]) == g.lock_on_lasers[j],
        g.enemies.len() <= after_spawner(g, frame, sways, wave).enemies.len(),
        forall|t: int|
            0 <= t < g.enemies.len() ==> same_enemy(
                #[trigger] after_spawner(g, frame, sways, wave).enemies[t],
                g.enemies[t],
            ),
{
    let o = frame_opened(g, frame, sways);
    let s = lock_on_step(o, frame.now);
    let f = normal_fire(s);
    let m = after_spawner(g, frame, sways, wave);
    assert(s.enemies.len() == g.enemies.len());
    assert forall|t: int| 0 <= t < g.enemies.len() implies same_enemy(
        #[trigger] m.enemies[t],
        g.enemies[t],
    ) by {
        assert(same_enemy(o.enemies[t], g.enemies[t]));
        assert(same_enemy(s.enemies[t], o.enemies[t]));
        assert(m.enemies[t] == s.enemies[t]);
    }
}

/// A frame of acquiring keeps the invariant of the game.
proof fn lemma_acquiring_keeps_invariant(g: GameView)
    requires
        g.wf(),
    ensures
        acquiring(g).wf(),
{
    let h = acquiring(g);
    let sys = h.lock_system;
    lemma_captured_properties(g.enemies, sys.center, sys.radius, sys.max_targets as nat);
    assert(sys.locked == captured(g.enemies, sys.center, sys.radius, sys.max_targets as nat));
}

/// Releasing every lock keeps the invariant of the game.
proof fn lemma_release_keeps_invariant(g: GameView)
    requires
        g.wf(),
    ensures
        released_all(g).wf(),
{
    let h = released_all(g);
    assert forall|i: int| 0 <= i < h.enemies.len() implies !(#[trigger] h.enemies[i]).is_locked by {
        assert(g.enemies[i].is_locked <==> g.lock_system.locked.contains(i as usize));
    }
}

/// Firing a volley keeps the invariant of the game.
proof fn lemma_volley_keeps_invariant(g: GameView, now: u64)
    requires
        g.wf(),
    ensures
        volley_fired(g, now).wf(),
        volley_fired(g, now).lock_system == g.lock_system,
        volley_fired(g, now).lock_on_lasers.len() <= g.lock_on_lasers.len()
            + g.lock_system.locked.len(),
{
    let h = volley_fired(g, now);
    let list = g.lock_system.locked;
    let valid = |x: usize| x < g.enemies.len();
    assert forall|i: int| 0 <= i < list.len() implies valid(#[trigger] list[i]) by {}
    lemma_filter_all(list, valid);
    assert(aimed(list, g.enemies) == list);
    let fresh = volley(list, g.enemies, g.player.position, now);
    assert(fresh.len() == list.len());
    assert forall|k: int| 0 <= k < h.lock_on_lasers.len() implies ((
    #[trigger] h.lock_on_lasers[k]).target_enemy_id matches Some(id) ==> id < h.enemies.len()) by {
        if k >= g.lock_on_lasers.len() {
            let i = k - g.lock_on_lasers.len();
            assert(h.lock_on_lasers[k] == fresh[i]);
            assert(fresh[i].target_enemy_id == Some(list[i]));
        } else {
            assert(h.lock_on_lasers[k] == g.lock_on_lasers[k]);
        }
    }
}

/// Until the lasers start to advance, a frame keeps the invariant of the
/// game.
pub proof fn lemma_opening_keeps_invariant(g: GameView, frame: FrameInput, sways: Seq<i32>, wave: Seq<Enemy>)
    requires
        g.wf(),
        wave_possible(before_spawning(g, frame, sways), frame, wave),
        g.enemies.len() + wave.len() <= usize::MAX,
    ensures
        after_spawner(g, frame, sways, wave).wf(),
        after_spawner(g, frame, sways, wave).lock_on_lasers.len() <= g.lock_on_lasers.len()
            + g.lock_system.locked.len(),
{
    let o = frame_opened(g, frame, sways);
    lemma_flags_kept(g, o);
    let s = lock_on_step(o, frame.now);
    if long_press(o.input.left_button_hold_time) {
        lemma_acquiring_keeps_invariant(o);
    } else if o.input.left_button_just_released && o.lock_system.active {
        lemma_volley_keeps_invariant(o, frame.now);
        lemma_release_keeps_invariant(volley_fired(o, frame.now));
    } else if !o.input.left_button_pressed && o.lock_system.active {
        lemma_release_keeps_invariant(o);
    }
    assert(s.wf());
    let f = normal_fire(s);
    assert(f.wf());
    assert(f == before_spawning(g, frame, sways));
    let m = after_spawner(g, frame, sways, wave);
    let percent = difficulty_of(f.game_start_time, frame.now).speed_percent;
    if wave.len() > 0 {
        lemma_burst_unlocked(f.enemies, wave, percent, frame.now);
    }
    let list = f.lock_system.locked;
    assert forall|i: int| 0 <= i < m.enemies.len() implies (#[trigger] m.enemies[i].is_locked
        <==> list.contains(i as usize)) by {
        if i < f.enemies.len() {
            assert(m.enemies[i] == f.enemies[i]);
        } else {
            assert(m.enemies[i] == wave[i - f.enemies.len()]);
            if list.contains(i as usize) {
                let k = choose|k: int| 0 <= k < list.len() && list[k] == i as usize;
                assert(list[k] < f.enemies.len());
            }
        }
    }
}

/// Whether no reference goes astray in a frame of play in which the
/// spawner brings `wave`. Until the lasers start to advance, every enemy
/// and every homing laser stands where it stood. From there to the end of
/// the frame, the homing lasers that do not arrive remain in their order,
/// and each of them, like each lock, refers to the enemy it referred to
/// before, at the place where that enemy now stands, or to none if the
/// enemy has left the world.
pub open spec fn references_kept(g: GameView, frame: FrameInput, sways: Seq<i32>, wave: Seq<Enemy>) -> bool {
    let start = after_spawner(g, frame, sways, wave);
    let end = frame_closed(start, frame);
    &&& g.lock_on_lasers.len() <= start.lock_on_lasers.len()
    &&& forall|j: int|
        0 <= j < g.lock_on_lasers.len() ==> (#[trigger] start.lock_on_lasers[j])
            == g.lock_on_lasers[j]
    &&& g.enemies.len() <= start.enemies.len()
    &&& forall|t: int|
        0 <= t < g.enemies.len() ==> same_enemy(#[trigger] start.enemies[t], g.enemies[t])
    &&& end.lock_on_lasers.len() == remaining(start, frame).len()
    &&& forall|k: int|
        0 <= k < remaining(start, frame).len() ==> carried(
            start,
            frame,
            #[trigger] remaining(start, frame)[k] as int,
            k,
        )
    &&& forall|x: usize| #[trigger] start.lock_system.locked.contains(x) ==> lock_carried(start, frame, x)
}

/// Through a whole frame of play, the invariant of the game is kept and no
/// reference goes astray.
pub proof fn lemma_frame_keeps_references(g: GameView, frame: FrameInput, sways: Seq<i32>, wave: Seq<Enemy>)
    requires
        g.wf(),
        wave_possible(before_spawning(g, frame, sways), frame, wave),
        g.enemies.len() + wave.len() <= usize::MAX,
        g.lock_on_lasers.len() + g.lock_system.locked.len() <= usize::MAX,
    ensures
        frame_played(g, frame, sways, wave) == frame_closed(
            after_spawner(g, frame, sways, wave),
            frame,
        ),
        frame_played(g, frame, sways, wave).wf(),
        references_kept(g, frame, sways, wave),
{
    lemma_opening_keeps_places(g, frame, sways, wave);
    lemma_opening_keeps_invariant(g, frame, sways, wave);
    lemma_closing_keeps_references(after_spawner(g, frame, sways, wave), frame);
}

/// A frame of play leaves the shape of the lock-on system as it is: the
/// radius of the circle and the number of targets it allows. So a list
/// that the invariant keeps within that number stays within it.
pub proof fn lemma_frame_keeps_limits(g: GameView, frame: FrameInput, sways: Seq<i32>, wave: Seq<Enemy>)
    ensures
        frame_played(g, frame, sways, wave).lock_system.max_targets == g.lock_system.max_targets,
        frame_played(g, frame, sways, wave).lock_system.radius == g.lock_system.radius,
{
}

} // verus!
