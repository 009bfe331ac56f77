//! Taking enemies out of the world without breaking a reference.

use vstd::prelude::*;
use crate::entities::LockOnLaser;
use crate::game::{Game, GameView};
use crate::indices::{
    adjust_index, is_batch, lemma_adjust_bounds, lemma_adjust_injective, lemma_adjusted_reference,
    lemma_survivor_origin, lemma_without_len, origin_index, remove_descending, without_indices,
};
use crate::lasers::{retargeted, update_homing_laser_targets};
use crate::lock_on::{surviving_locks, LockOnView};
use crate::seqs::{lemma_filter_membership, lemma_filter_no_duplicates};

verus! {

/// The game after the enemies at `destroyed` are taken out: the locks on
/// them are dropped, every other lock and every homing laser follows its
/// enemy to its new position, and the enemies leave the collection.
pub open spec fn after_destroying(g: GameView, destroyed: Seq<usize>) -> GameView {
    GameView {
        enemies: without_indices(g.enemies, destroyed),
        lock_system: LockOnView {
            locked: surviving_locks(g.lock_system.locked, destroyed),
            ..g.lock_system
        },
        lock_on_lasers: g.lock_on_lasers.map_values(|l: LockOnLaser| retargeted(l, destroyed)),
        ..g
    }
}

/// Taking a batch of enemies out keeps the invariant of the game: the flags
/// still agree with the lock list, and every lock and every homing laser
/// that referred to a surviving enemy refers to that same enemy at a valid
/// position.
pub proof fn lemma_destroying_keeps_invariant(g: GameView, destroyed: Seq<usize>)
    requires
        g.wf(),
        is_batch(destroyed, g.enemies.len() as int),
    ensures
        after_destroying(g, destroyed).wf(),
{
    let h = after_destroying(g, destroyed);
    let n = g.enemies.len();
    let list = g.lock_system.locked;
    let stay = |x: usize| !destroyed.contains(x);
    let moved = |x: usize| adjust_index(x as int, destroyed) as usize;
    let kept = list.filter(stay);
    lemma_without_len(g.enemies, destroyed);
    list.lemma_filter_len(stay);
    assert(h.lock_system.locked == kept.map_values(moved));
    lemma_filter_no_duplicates(list, stay);
    assert forall|i: int, j: int|
        0 <= i < kept.len() && 0 <= j < kept.len() && i != j implies h.lock_system.locked[i]
        != h.lock_system.locked[j] by {
        assert(kept.contains(kept[i]) && kept.contains(kept[j]));
        lemma_filter_membership(list, stay, kept[i]);
        lemma_filter_membership(list, stay, kept[j]);
        let a = choose|a: int| 0 <= a < list.len() && list[a] == kept[i];
        let b = choose|b: int| 0 <= b < list.len() && list[b] == kept[j];
        lemma_adjust_bounds(kept[i] as int, destroyed);
        lemma_adjust_bounds(kept[j] as int, destroyed);
        if adjust_index(kept[i] as int, destroyed) == adjust_index(kept[j] as int, destroyed) {
            lemma_adjust_injective(kept[i] as int, kept[j] as int, destroyed, n);
        }
    }
    assert forall|k: int| 0 <= k < h.lock_system.locked.len() implies h.lock_system.locked[k]
        < h.enemies.len() by {
        let x = kept[k];
        assert(kept.contains(x));
        lemma_filter_membership(list, stay, x);
        let i = choose|i: int| 0 <= i < list.len() && list[i] == x;
        lemma_adjusted_reference(g.enemies, destroyed, x as int);
    }
    assert forall|j: int| 0 <= j < h.enemies.len() implies (#[trigger] h.enemies[j].is_locked
        <==> h.lock_system.locked.contains(j as usize)) by {
        lemma_survivor_origin(g.enemies, destroyed, j);
        let o = origin_index(j, destroyed);
        lemma_filter_membership(list, stay, o as usize);
        assert(g.enemies[o].is_locked <==> list.contains(o as usize));
        if g.enemies[o].is_locked {
            let k = choose|k: int| 0 <= k < kept.len() && kept[k] == o as usize;
            assert(h.lock_system.locked[k] == j as usize);
        }
        if h.lock_system.locked.contains(j as usize) {
            let k = choose|k: int|
                0 <= k < h.lock_system.locked.len() && h.lock_system.locked[k] == j as usize;
            let x = kept[k];
            assert(kept.contains(x));
            lemma_filter_membership(list, stay, x);
            let i = choose|i: int| 0 <= i < list.len() && list[i] == x;
            lemma_adjusted_reference(g.enemies, destroyed, x as int);
            lemma_adjust_bounds(x as int, destroyed);
            assert(g.enemies[x as int].is_locked);
        }
    }
    assert forall|k: int| 0 <= k < h.lock_on_lasers.len() implies ((
    #[trigger] h.lock_on_lasers[k]).target_enemy_id matches Some(id) ==> id < h.enemies.len()) by {
        let l = g.lock_on_lasers[k];
        match l.target_enemy_id {
            Some(id) => {
                if !destroyed.contains(id) {
                    lemma_adjusted_reference(g.enemies, destroyed, id as int);
                    lemma_adjust_bounds(id as int, destroyed);
                }
            },
            None => {},
        }
    }
}

/// After a batch of enemies is taken out, every lock and every homing laser
/// that referred to a surviving enemy refers to that same enemy: the lock
/// list holds the adjusted position, the laser aims at it, and the enemy
/// that stands there is the one referred to before.
pub proof fn lemma_references_follow(g: GameView, destroyed: Seq<usize>)
    requires
        g.wf(),
        is_batch(destroyed, g.enemies.len() as int),
    ensures
        forall|x: usize|
            g.lock_system.locked.contains(x) && !destroyed.contains(x) ==> {
                let y = #[trigger] adjust_index(x as int, destroyed);
                &&& after_destroying(g, destroyed).lock_system.locked.contains(y as usize)
                &&& 0 <= y < after_destroying(g, destroyed).enemies.len()
                &&& after_destroying(g, destroyed).enemies[y] == g.enemies[x as int]
            },
        forall|k: int|
            0 <= k < g.lock_on_lasers.len() ==> (match (#[trigger] g.lock_on_lasers[k]).target_enemy_id {
                Some(id) => if destroyed.contains(id) {
                    after_destroying(g, destroyed).lock_on_lasers[k].target_enemy_id.is_none()
                } else {
                    let y = adjust_index(id as int, destroyed);
                    &&& after_destroying(g, destroyed).lock_on_lasers[k].target_enemy_id == Some(
                        y as usize,
                    )
                    &&& 0 <= y < after_destroying(g, destroyed).enemies.len()
                    &&& after_destroying(g, destroyed).enemies[y] == g.enemies[id as int]
                },
                None => after_destroying(g, destroyed).lock_on_lasers[k].target_enemy_id.is_none(),
            }),
{
    let h = after_destroying(g, destroyed);
    let list = g.lock_system.locked;
    let stay = |x: usize| !destroyed.contains(x);
    let kept = list.filter(stay);
    assert forall|x: usize| list.contains(x) && !destroyed.contains(x) implies {
        let y = #[trigger] adjust_index(x as int, destroyed);
        &&& h.lock_system.locked.contains(y as usize)
        &&& 0 <= y < h.enemies.len()
        &&& h.enemies[y] == g.enemies[x as int]
    } by {
        let i = choose|i: int| 0 <= i < list.len() && list[i] == x;
        lemma_adjusted_reference(g.enemies, destroyed, x as int);
        lemma_filter_membership(list, stay, x);
        let k = choose|k: int| 0 <= k < kept.len() && kept[k] == x;
        assert(h.lock_system.locked[k] == adjust_index(x as int, destroyed) as usize);
    }
    assert forall|k: int| 0 <= k < g.lock_on_lasers.len() implies (match (
    #[trigger] g.lock_on_lasers[k]).target_enemy_id {
        Some(id) => if destroyed.contains(id) {
            h.lock_on_lasers[k].target_enemy_id.is_none()
        } else {
            let y = adjust_index(id as int, destroyed);
            &&& h.lock_on_lasers[k].target_enemy_id == Some(y as usize)
            &&& 0 <= y < h.enemies.len()
            &&& h.enemies[y] == g.enemies[id as int]
        },
        None => h.lock_on_lasers[k].target_enemy_id.is_none(),
    }) by {
        match g.lock_on_lasers[k].target_enemy_id {
            Some(id) => {
                if !destroyed.contains(id) {
                    lemma_adjusted_reference(g.enemies, destroyed, id as int);
                }
            },
            None => {},
        }
    }
}

impl Game {
    /// Takes the enemies at `destroyed` out of the world: first the locks on
    /// them are dropped and the remaining locks moved, then the homing lasers
    /// are adjusted, and only then the enemies leave the collection, the
    /// last listed first.
    pub fn destroy_enemies(&mut self, destroyed: &Vec<usize>)
        ensures
            final(self)@ == after_destroying(old(self)@, destroyed@),
            old(self).wf() && is_batch(destroyed@, old(self).enemies.len() as int)
                ==> final(self).wf(),
    {
        self.lock_system.remove_destroyed_enemies(destroyed);
        update_homing_laser_targets(&mut self.lock_on_lasers, destroyed);
        remove_descending(&mut self.enemies, destroyed);
        proof {
            if old(self).wf() && is_batch(destroyed@, old(self).enemies.len() as int) {
                lemma_destroying_keeps_invariant(old(self)@, destroyed@);
            }
        }
    }
}

} // verus!
