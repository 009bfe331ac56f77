//! The lock-on system: which enemies the acquisition circle holds.

use vstd::prelude::*;
use vstd::seq_lib::lemma_seq_contains_after_push;
use crate::constants::{LOCK_RADIUS, MAX_TARGETS};
use crate::entities::Enemy;
use crate::geometry::{within, Point};
use crate::indices::{
    adjust_index, adjusted_index, contains_index, indices_where, is_batch, lemma_adjust_bounds,
    lemma_increasing_no_duplicates, lemma_indices_where,
};
use crate::seqs::{
    first_up_to, lemma_filter_membership, lemma_filter_no_duplicates, lemma_filter_step,
    lemma_first_up_to_push,
};

verus! {

/// The acquisition circle and the enemies it holds, in the order in which
/// they were acquired.
#[derive(Clone, Debug)]
pub struct LockOnSystem {
    pub active: bool,
    pub center: Point,
    pub radius: i32,
    /// Positions of the locked enemies in the enemy collection.
    pub locked_enemies: Vec<usize>,
    pub max_targets: u8,
}

/// The lock-on system as a mathematical value.
pub struct LockOnView {
    pub active: bool,
    pub center: Point,
    pub radius: i32,
    pub locked: Seq<usize>,
    pub max_targets: u8,
}

impl View for LockOnSystem {
    type V = LockOnView;

    open spec fn view(&self) -> LockOnView {
        LockOnView {
            active: self.active,
            center: self.center,
            radius: self.radius,
            locked: self.locked_enemies@,
            max_targets: self.max_targets,
        }
    }
}

/// Whether the enemy lies in the circle.
pub open spec fn in_circle(e: Enemy, center: Point, radius: i32) -> bool {
    within(e.position, center, radius as int)
}

/// The positions of the first `n` enemies that lie in the circle, ascending.
pub open spec fn in_range_upto(enemies: Seq<Enemy>, center: Point, radius: i32, n: nat) -> Seq<usize> {
    indices_where(n, |i: int| in_circle(enemies[i], center, radius))
}

/// What a scan captures: the positions of the enemies in the circle,
/// ascending, cut off after `cap` of them.
pub open spec fn captured(enemies: Seq<Enemy>, center: Point, radius: i32, cap: nat) -> Seq<usize> {
    first_up_to(in_range_upto(enemies, center, radius, enemies.len()), cap)
}

/// The enemies with each flag set to whether the position is listed.
pub open spec fn with_flags(enemies: Seq<Enemy>, locked: Seq<usize>) -> Seq<Enemy> {
    Seq::new(
        enemies.len(),
        |i: int| Enemy { is_locked: locked.contains(i as usize), ..enemies[i] },
    )
}

/// The enemies with the flag cleared wherever the position is listed and
/// `drop` holds of it.
pub open spec fn released(enemies: Seq<Enemy>, locked: Seq<usize>, drop: spec_fn(usize) -> bool) -> Seq<Enemy> {
    Seq::new(
        enemies.len(),
        |i: int|
            if locked.contains(i as usize) && drop(i as usize) {
                Enemy { is_locked: false, ..enemies[i] }
            } else {
                enemies[i]
            },
    )
}

/// Whether a locked position still holds: it refers to an enemy, and that
/// enemy lies in the circle.
pub open spec fn held(enemies: Seq<Enemy>, center: Point, radius: i32) -> spec_fn(usize) -> bool {
    |x: usize| x < enemies.len() && in_circle(enemies[x as int], center, radius)
}

/// Whether a locked position has left the circle: it refers to an enemy, and
/// that enemy lies outside.
pub open spec fn strayed(enemies: Seq<Enemy>, center: Point, radius: i32) -> spec_fn(usize) -> bool {
    |x: usize| x < enemies.len() && !in_circle(enemies[x as int], center, radius)
}

/// The locked positions that remain after a batch of enemies is destroyed,
/// each moved to where its enemy will stand.
pub open spec fn surviving_locks(locked: Seq<usize>, destroyed: Seq<usize>) -> Seq<usize> {
    locked.filter(|x: usize| !destroyed.contains(x)).map_values(
        |x: usize| adjust_index(x as int, destroyed) as usize,
    )
}

/// The invariant that ties the flags to the list: every listed position
/// refers to an enemy, an enemy is flagged exactly if its position is
/// listed, no position is listed twice, and the list is no longer than the
/// system allows.
pub open spec fn locks_consistent(enemies: Seq<Enemy>, sys: LockOnView) -> bool {
    &&& sys.locked.len() <= sys.max_targets
    &&& sys.locked.no_duplicates()
    &&& forall|k: int| 0 <= k < sys.locked.len() ==> sys.locked[k] < enemies.len()
    &&& forall|i: int|
        0 <= i < enemies.len() ==> (#[trigger] enemies[i].is_locked <==> sys.locked.contains(
            i as usize,
        ))
}

/// A scan depends on the enemies' positions only.
pub proof fn lemma_captured_by_position(a: Seq<Enemy>, b: Seq<Enemy>, center: Point, radius: i32, cap: nat)
    requires
        a.len() == b.len(),
        forall|i: int| 0 <= i < a.len() ==> a[i].position == b[i].position,
    ensures
        captured(a, center, radius, cap) == captured(b, center, radius, cap),
{
    lemma_in_range_by_position(a, b, center, radius, a.len());
}

proof fn lemma_in_range_by_position(a: Seq<Enemy>, b: Seq<Enemy>, center: Point, radius: i32, n: nat)
    requires
        n <= a.len(),
        a.len() == b.len(),
        forall|i: int| 0 <= i < a.len() ==> a[i].position == b[i].position,
    ensures
        in_range_upto(a, center, radius, n) == in_range_upto(b, center, radius, n),
    decreases n,
{
    if n > 0 {
        lemma_in_range_by_position(a, b, center, radius, (n - 1) as nat);
        assert(a[n - 1].position == b[n - 1].position);
    }
}

/// Scanning twice in a row, with the enemies where they were and the circle
/// unchanged, captures the same list again.
pub proof fn lemma_scan_idempotent(enemies: Seq<Enemy>, center: Point, radius: i32, cap: nat)
    ensures
        captured(
            with_flags(enemies, captured(enemies, center, radius, cap)),
            center,
            radius,
            cap,
        ) == captured(enemies, center, radius, cap),
{
    let once = captured(enemies, center, radius, cap);
    lemma_captured_by_position(with_flags(enemies, once), enemies, center, radius, cap);
}

/// What a scan captures: ascending positions of enemies in the circle, no
/// more than the cap, and any enemy in the circle that was passed over
/// stands behind a full list.
pub proof fn lemma_captured_properties(enemies: Seq<Enemy>, center: Point, radius: i32, cap: nat)
    requires
        enemies.len() <= usize::MAX,
    ensures
        captured(enemies, center, radius, cap).len() <= cap,
        is_batch(captured(enemies, center, radius, cap), enemies.len() as int),
        forall|k: int|
            0 <= k < captured(enemies, center, radius, cap).len() ==> in_circle(
                enemies[#[trigger] captured(enemies, center, radius, cap)[k] as int],
                center,
                radius,
            ),
        forall|i: int|
            0 <= i < enemies.len() && in_circle(enemies[i], center, radius) && !captured(
                enemies,
                center,
                radius,
                cap,
            ).contains(i as usize) ==> captured(enemies, center, radius, cap).len() == cap && forall|
                k: int,
            |
                0 <= k < cap ==> #[trigger] captured(enemies, center, radius, cap)[k] < i,
{
    let p = |i: int| in_circle(enemies[i], center, radius);
    let all = in_range_upto(enemies, center, radius, enemies.len());
    let got = captured(enemies, center, radius, cap);
    lemma_indices_where(enemies.len(), p);
    assert forall|k: int| 0 <= k < got.len() implies in_circle(
        enemies[#[trigger] got[k] as int],
        center,
        radius,
    ) by {
        assert(got[k] == all[k]);
        let i = all[k] as int;
        assert(all.contains(i as usize));
        assert(p(i));
    }
    assert forall|i: int|
        0 <= i < enemies.len() && in_circle(enemies[i], center, radius) && !got.contains(
            i as usize,
        ) implies got.len() == cap && forall|k: int| 0 <= k < cap ==> #[trigger] got[k] < i by {
        assert(p(i));
        assert(all.contains(i as usize));
        let k0 = choose|k: int| 0 <= k < all.len() && all[k] == i as usize;
        if k0 < got.len() {
            assert(got[k0] == i as usize);
        }
        assert forall|k: int| 0 <= k < cap implies #[trigger] got[k] < i by {
            assert(got[k] == all[k]);
        }
    }
}

impl LockOnSystem {
    /// An idle system with the standard circle and room for six targets.
    pub fn new() -> (sys: LockOnSystem)
        ensures
            sys@ == (LockOnView {
                active: false,
                center: Point { x: 0, y: 0 },
                radius: LOCK_RADIUS,
                locked: Seq::empty(),
                max_targets: MAX_TARGETS,
            }),
    {
        LockOnSystem {
            active: false,
            center: Point { x: 0, y: 0 },
            radius: LOCK_RADIUS,
            locked_enemies: Vec::new(),
            max_targets: MAX_TARGETS,
        }
    }

    /// Recomputes the membership of the circle from scratch: every flag is
    /// cleared, then the enemies are scanned in order and those in the circle
    /// are locked until the list is full.
    pub fn detect_enemies_in_wireframe(&mut self, enemies: &mut Vec<Enemy>)
        ensures
            final(self)@ == (LockOnView {
                locked: captured(
                    old(enemies)@,
                    old(self).center,
                    old(self).radius,
                    old(self).max_targets as nat,
                ),
                ..old(self)@
            }),
            final(enemies)@ == with_flags(old(enemies)@, final(self)@.locked),
            locks_consistent(final(enemies)@, final(self)@),
    {
        let n = enemies.len();
        let mut i: usize = 0;
        while i < n
            invariant
                i <= n,
                n == enemies.len(),
                n == old(enemies).len(),
                forall|k: int| 0 <= k < i ==> enemies@[k] == (Enemy { is_locked: false, ..old(enemies)@[k] }),
                forall|k: int| i <= k < n ==> enemies@[k] == old(enemies)@[k],
            decreases n - i,
        {
            enemies[i].is_locked = false;
            i += 1;
        }
        self.locked_enemies.clear();
        let ghost cap = self.max_targets as nat;
        let ghost p = |i: int| in_circle(old(enemies)@[i], self.center, self.radius);
        i = 0;
        while i < n
            invariant
                i <= n,
                n == enemies.len(),
                n == old(enemies).len(),
                cap == self.max_targets,
                p == (|i: int| in_circle(old(enemies)@[i], self.center, self.radius)),
                self@ == (LockOnView { locked: self.locked_enemies@, ..old(self)@ }),
                self.locked_enemies@ == first_up_to(indices_where(i as nat, p), cap),
                forall|k: int|
                    0 <= k < i ==> enemies@[k] == (Enemy {
                        is_locked: self.locked_enemies@.contains(k as usize),
                        ..old(enemies)@[k]
                    }),
                forall|k: int| i <= k < n ==> enemies@[k] == (Enemy { is_locked: false, ..old(enemies)@[k] }),
                forall|k: int| 0 <= k < self.locked_enemies@.len() ==> self.locked_enemies@[k] < i,
            decreases n - i,
        {
            let ghost before = self.locked_enemies@;
            proof {
                lemma_first_up_to_push(indices_where(i as nat, p), i, cap);
                lemma_indices_where(i as nat, p);
            }
            if enemies[i].position.is_within(self.center, self.radius) {
                if self.locked_enemies.len() < self.max_targets as usize {
                    self.locked_enemies.push(i);
                    enemies[i].is_locked = true;
                    proof {
                        assert forall|k: int| 0 <= k <= i implies (#[trigger] self.locked_enemies@.contains(
                            k as usize,
                        ) <==> before.contains(k as usize) || k == i) by {
                            lemma_seq_contains_after_push(before, i, k as usize);
                        }
                    }
                } else {
                    assert(!before.contains(i));
                }
            } else {
                assert(!before.contains(i));
            }
            i += 1;
        }
        proof {
            assert(enemies@ =~= with_flags(old(enemies)@, self.locked_enemies@));
            lemma_captured_properties(old(enemies)@, self.center, self.radius, cap);
            lemma_increasing_no_duplicates(self.locked_enemies@);
        }
    }

    /// Releases every lock and closes the circle.
    pub fn clear_all_locks(&mut self, enemies: &mut Vec<Enemy>)
        ensures
            final(self)@ == (LockOnView { active: false, locked: Seq::empty(), ..old(self)@ }),
            final(enemies)@ == released(old(enemies)@, old(self)@.locked, |x: usize| true),
            locks_consistent(old(enemies)@, old(self)@) ==> locks_consistent(
                final(enemies)@,
                final(self)@,
            ),
    {
        let m = self.locked_enemies.len();
        let mut k: usize = 0;
        while k < m
            invariant
                k <= m,
                m == self.locked_enemies.len(),
                self@ == old(self)@,
                enemies.len() == old(enemies).len(),
                enemies@ == released(
                    old(enemies)@,
                    old(self)@.locked.take(k as int),
                    |x: usize| true,
                ),
            decreases m - k,
        {
            let enemy_idx = self.locked_enemies[k];
            let ghost seen = old(self)@.locked.take(k as int);
            proof {
                assert(old(self)@.locked.take(k + 1) =~= seen.push(enemy_idx));
                assert forall|i: int| #[trigger]
                    seen.push(enemy_idx).contains(i as usize) <==> seen.contains(i as usize) || i as usize
                        == enemy_idx by {
                    lemma_seq_contains_after_push(seen, enemy_idx, i as usize);
                }
            }
            if enemy_idx < enemies.len() {
                enemies[enemy_idx].is_locked = false;
            }
            proof {
                assert(enemies@ =~= released(
                    old(enemies)@,
                    old(self)@.locked.take(k + 1),
                    |x: usize| true,
                ));
            }
            k += 1;
        }
        proof {
            assert(old(self)@.locked.take(m as int) =~= old(self)@.locked);
        }
        self.locked_enemies.clear();
        self.active = false;
    }

    /// Releases the locked enemies that have left the circle, and drops from
    /// the list every position that refers to no enemy.
    pub fn remove_out_of_range_targets(&mut self, enemies: &mut Vec<Enemy>)
        ensures
            final(self)@ == (LockOnView {
                locked: old(self)@.locked.filter(
                    held(old(enemies)@, old(self).center, old(self).radius),
                ),
                ..old(self)@
            }),
            final(enemies)@ == released(
                old(enemies)@,
                old(self)@.locked,
                strayed(old(enemies)@, old(self).center, old(self).radius),
            ),
            forall|k: int|
                0 <= k < final(self)@.locked.len() ==> final(self)@.locked[k] < final(enemies)@.len(),
            locks_consistent(old(enemies)@, old(self)@) ==> locks_consistent(
                final(enemies)@,
                final(self)@,
            ),
    {
        let ghost gone = strayed(old(enemies)@, self.center, self.radius);
        let ghost stay = held(old(enemies)@, self.center, self.radius);
        let ghost list = old(self)@.locked;
        let m = self.locked_enemies.len();
        let mut kept: Vec<usize> = Vec::new();
        let mut k: usize = 0;
        while k < m
            invariant
                k <= m,
                m == self.locked_enemies.len(),
                self@ == old(self)@,
                list == old(self)@.locked,
                gone == strayed(old(enemies)@, self.center, self.radius),
                stay == held(old(enemies)@, self.center, self.radius),
                enemies.len() == old(enemies).len(),
                kept@ == list.take(k as int).filter(stay),
                enemies@ == released(old(enemies)@, list.take(k as int), gone),
            decreases m - k,
        {
            let enemy_idx = self.locked_enemies[k];
            let ghost seen = list.take(k as int);
            proof {
                lemma_filter_step(list, k as int, stay);
                assert(list.take(k + 1) =~= seen.push(enemy_idx));
                assert forall|i: int| #[trigger]
                    seen.push(enemy_idx).contains(i as usize) <==> seen.contains(i as usize) || i as usize
                        == enemy_idx by {
                    lemma_seq_contains_after_push(seen, enemy_idx, i as usize);
                }
            }
            let mut keep = false;
            if enemy_idx < enemies.len() {
                assert(enemies@[enemy_idx as int].position == old(enemies)@[enemy_idx as int].position);
                if enemies[enemy_idx].position.is_within(self.center, self.radius) {
                    keep = true;
                } else {
                    enemies[enemy_idx].is_locked = false;
                }
            }
            if keep {
                kept.push(enemy_idx);
            }
            proof {
                assert(enemies@ =~= released(old(enemies)@, list.take(k + 1), gone));
            }
            k += 1;
        }
        proof {
            assert(list.take(m as int) =~= list);
            assert forall|j: int| 0 <= j < kept@.len() implies kept@[j] < enemies.len() by {
                assert(kept@.contains(kept@[j]));
                lemma_filter_membership(list, stay, kept@[j]);
            }
            if locks_consistent(old(enemies)@, old(self)@) {
                list.lemma_filter_len(stay);
                lemma_filter_no_duplicates(list, stay);
                assert forall|i: int| 0 <= i < enemies.len() implies (#[trigger] enemies@[i].is_locked
                    <==> kept@.contains(i as usize)) by {
                    lemma_filter_membership(list, stay, i as usize);
                    assert(old(enemies)@[i].is_locked <==> list.contains(i as usize));
                }
            }
        }
        self.locked_enemies = kept;
    }

    /// Drops the locks on a batch of destroyed enemies and moves every
    /// remaining lock down past the destroyed positions below it.
    pub fn remove_destroyed_enemies(&mut self, destroyed: &Vec<usize>)
        ensures
            final(self)@ == (LockOnView {
                locked: surviving_locks(old(self)@.locked, destroyed@),
                ..old(self)@
            }),
    {
        let ghost list = old(self)@.locked;
        let ghost stay = |x: usize| !destroyed@.contains(x);
        let ghost moved = |x: usize| adjust_index(x as int, destroyed@) as usize;
        let m = self.locked_enemies.len();
        let mut kept: Vec<usize> = Vec::new();
        let mut k: usize = 0;
        while k < m
            invariant
                k <= m,
                m == self.locked_enemies.len(),
                self@ == old(self)@,
                list == old(self)@.locked,
                stay == (|x: usize| !destroyed@.contains(x)),
                moved == (|x: usize| adjust_index(x as int, destroyed@) as usize),
                kept@ == list.take(k as int).filter(stay).map_values(moved),
            decreases m - k,
        {
            let enemy_idx = self.locked_enemies[k];
            proof {
                lemma_filter_step(list, k as int, stay);
                list.take(k as int).filter(stay).lemma_push_map_commute(moved, enemy_idx);
                lemma_adjust_bounds(enemy_idx as int, destroyed@);
            }
            if !contains_index(destroyed, enemy_idx) {
                kept.push(adjusted_index(enemy_idx, destroyed));
            }
            k += 1;
        }
        proof {
            assert(list.take(m as int) =~= list);
        }
        self.locked_enemies = kept;
    }
}

} // verus!
