//! Positions as references: what becomes of an index when entries leave.
//!
//! Enemies are referred to by their position in the enemy collection. When a
//! batch of enemies is destroyed, every reference that is kept has to be
//! moved down past the destroyed positions below it, and only then may the
//! entries leave the collection, highest position first.

use vstd::prelude::*;

verus! {

/// The position of entry `x` after the entry at `d` has left.
pub open spec fn shift_past(x: int, d: int) -> int {
    if x > d {
        x - 1
    } else {
        x
    }
}

/// The position of entry `x` after the entries at `destroyed` have left, the
/// last listed first.
pub open spec fn adjust_index(x: int, destroyed: Seq<usize>) -> int
    decreases destroyed.len(),
{
    if destroyed.len() == 0 {
        x
    } else {
        shift_past(adjust_index(x, destroyed.drop_first()), destroyed[0] as int)
    }
}

/// `s` after the entries at `destroyed` have left, the last listed first; a
/// position beyond the end at its turn is passed over.
pub open spec fn without_indices<T>(s: Seq<T>, destroyed: Seq<usize>) -> Seq<T>
    decreases destroyed.len(),
{
    if destroyed.len() == 0 {
        s
    } else {
        let rest = without_indices(s, destroyed.drop_first());
        if destroyed[0] < rest.len() {
            rest.remove(destroyed[0] as int)
        } else {
            rest
        }
    }
}

/// The position that entry `j` of the collection had before the entries at
/// `destroyed` left.
pub open spec fn origin_index(j: int, destroyed: Seq<usize>) -> int
    decreases destroyed.len(),
{
    if destroyed.len() == 0 {
        j
    } else {
        origin_index(if j < destroyed[0] { j } else { j + 1 }, destroyed.drop_first())
    }
}

/// Whether `s` ascends strictly.
pub open spec fn strictly_increasing(s: Seq<usize>) -> bool {
    forall|i: int, j: int| 0 <= i < j < s.len() ==> s[i] < s[j]
}

/// Whether `destroyed` is a batch of positions in a collection of `n`
/// entries: ascending, without repeats, each below `n`.
pub open spec fn is_batch(destroyed: Seq<usize>, n: int) -> bool {
    &&& strictly_increasing(destroyed)
    &&& forall|i: int| 0 <= i < destroyed.len() ==> destroyed[i] < n
}

/// The positions below `n` that satisfy `p`, ascending.
pub open spec fn indices_where(n: nat, p: spec_fn(int) -> bool) -> Seq<usize>
    decreases n,
{
    if n == 0 {
        Seq::empty()
    } else if p(n - 1) {
        indices_where((n - 1) as nat, p).push((n - 1) as usize)
    } else {
        indices_where((n - 1) as nat, p)
    }
}

/// An adjusted index never grows and never becomes negative.
pub proof fn lemma_adjust_bounds(x: int, destroyed: Seq<usize>)
    requires
        0 <= x,
    ensures
        0 <= adjust_index(x, destroyed) <= x,
    decreases destroyed.len(),
{
    if destroyed.len() > 0 {
        lemma_adjust_bounds(x, destroyed.drop_first());
    }
}

/// An index below every destroyed position stays where it is.
pub proof fn lemma_adjust_below_all(x: int, destroyed: Seq<usize>)
    requires
        forall|i: int| 0 <= i < destroyed.len() ==> x <= destroyed[i],
    ensures
        adjust_index(x, destroyed) == x,
    decreases destroyed.len(),
{
    if destroyed.len() > 0 {
        let rest = destroyed.drop_first();
        assert forall|i: int| 0 <= i < rest.len() implies x <= rest[i] by {
            assert(rest[i] == destroyed[i + 1]);
        }
        lemma_adjust_below_all(x, rest);
    }
}

/// The tail of a batch is a batch whose positions all lie above the head.
pub proof fn lemma_batch_tail(destroyed: Seq<usize>, n: int)
    requires
        is_batch(destroyed, n),
        destroyed.len() > 0,
    ensures
        is_batch(destroyed.drop_first(), n),
        forall|i: int|
            0 <= i < destroyed.drop_first().len() ==> destroyed[0] < destroyed.drop_first()[i],
{
    let rest = destroyed.drop_first();
    assert forall|i: int, j: int| 0 <= i < j < rest.len() implies rest[i] < rest[j] by {
        assert(rest[i] == destroyed[i + 1]);
        assert(rest[j] == destroyed[j + 1]);
    }
    assert forall|i: int| 0 <= i < rest.len() implies rest[i] < n && destroyed[0] < rest[i] by {
        assert(rest[i] == destroyed[i + 1]);
    }
}

/// A batch of `k` positions below `n` starts below `n - k + 1`.
pub proof fn lemma_batch_room(destroyed: Seq<usize>, n: int)
    requires
        is_batch(destroyed, n),
        destroyed.len() > 0,
    ensures
        destroyed[0] + destroyed.len() <= n,
    decreases destroyed.len(),
{
    if destroyed.len() > 1 {
        lemma_batch_tail(destroyed, n);
        let rest = destroyed.drop_first();
        lemma_batch_room(rest, n);
        assert(rest[0] == destroyed[1]);
    }
}

/// A surviving index above a bound that lies below the whole batch stays
/// above that bound.
pub proof fn lemma_adjust_above(x: int, destroyed: Seq<usize>, lo: int, n: int)
    requires
        is_batch(destroyed, n),
        !destroyed.contains(x as usize),
        0 <= lo < x <= usize::MAX,
        forall|i: int| 0 <= i < destroyed.len() ==> lo < destroyed[i],
    ensures
        lo < adjust_index(x, destroyed),
    decreases destroyed.len(),
{
    if destroyed.len() > 0 {
        let rest = destroyed.drop_first();
        let d = destroyed[0] as int;
        lemma_batch_tail(destroyed, n);
        assert(destroyed.contains(destroyed[0]));
        assert(!rest.contains(x as usize)) by {
            if rest.contains(x as usize) {
                let i = choose|i: int| 0 <= i < rest.len() && rest[i] == x as usize;
                assert(destroyed[i + 1] == x as usize);
            }
        }
        if x > d {
            lemma_adjust_above(x, rest, d, n);
        } else {
            assert forall|i: int| 0 <= i < rest.len() implies x <= rest[i] by {}
            lemma_adjust_below_all(x, rest);
        }
    }
}

/// Removing a batch shortens the collection by the size of the batch.
pub proof fn lemma_without_len<T>(s: Seq<T>, destroyed: Seq<usize>)
    requires
        is_batch(destroyed, s.len() as int),
    ensures
        without_indices(s, destroyed).len() == s.len() - destroyed.len(),
    decreases destroyed.len(),
{
    if destroyed.len() > 0 {
        lemma_batch_tail(destroyed, s.len() as int);
        lemma_without_len(s, destroyed.drop_first());
        lemma_batch_room(destroyed, s.len() as int);
    }
}

/// After a batch of entries has left, an adjusted reference to a surviving
/// entry is a valid position and holds the entry it referred to before.
pub proof fn lemma_adjusted_reference<T>(s: Seq<T>, destroyed: Seq<usize>, x: int)
    requires
        is_batch(destroyed, s.len() as int),
        0 <= x < s.len(),
        x <= usize::MAX,
        !destroyed.contains(x as usize),
    ensures
        0 <= adjust_index(x, destroyed) < without_indices(s, destroyed).len(),
        without_indices(s, destroyed)[adjust_index(x, destroyed)] == s[x],
    decreases destroyed.len(),
{
    lemma_adjust_bounds(x, destroyed);
    lemma_without_len(s, destroyed);
    if destroyed.len() > 0 {
        let rest = destroyed.drop_first();
        let d = destroyed[0] as int;
        let n = s.len() as int;
        lemma_batch_tail(destroyed, n);
        lemma_batch_room(destroyed, n);
        lemma_without_len(s, rest);
        assert(destroyed.contains(destroyed[0]));
        assert(!rest.contains(x as usize)) by {
            if rest.contains(x as usize) {
                let i = choose|i: int| 0 <= i < rest.len() && rest[i] == x as usize;
                assert(destroyed[i + 1] == x as usize);
            }
        }
        lemma_adjusted_reference(s, rest, x);
        if x > d {
            lemma_adjust_above(x, rest, d, n);
        } else {
            assert forall|i: int| 0 <= i < rest.len() implies x <= rest[i] by {}
            lemma_adjust_below_all(x, rest);
        }
    }
}

/// Two surviving positions that a batch moves to the same place are the
/// same position.
pub proof fn lemma_adjust_injective(x: int, y: int, destroyed: Seq<usize>, n: nat)
    requires
        is_batch(destroyed, n as int),
        n <= usize::MAX,
        0 <= x < n,
        0 <= y < n,
        !destroyed.contains(x as usize),
        !destroyed.contains(y as usize),
        adjust_index(x, destroyed) == adjust_index(y, destroyed),
    ensures
        x == y,
{
    let places = Seq::new(n, |i: int| i);
    lemma_adjusted_reference(places, destroyed, x);
    lemma_adjusted_reference(places, destroyed, y);
}

/// A sequence that ascends strictly holds nothing twice.
pub proof fn lemma_increasing_no_duplicates(s: Seq<usize>)
    requires
        strictly_increasing(s),
    ensures
        s.no_duplicates(),
{
    assert forall|i: int, j: int| 0 <= i < s.len() && 0 <= j < s.len() && i != j implies s[i]
        != s[j] by {
        if i < j {
            assert(s[i] < s[j]);
        } else {
            assert(s[j] < s[i]);
        }
    }
}

/// After a batch of entries has left, every entry of the collection is a
/// survivor: it stood at a position outside the batch, and that position
/// adjusts to where it stands now.
pub proof fn lemma_survivor_origin<T>(s: Seq<T>, destroyed: Seq<usize>, j: int)
    requires
        is_batch(destroyed, s.len() as int),
        s.len() <= usize::MAX,
        0 <= j < without_indices(s, destroyed).len(),
    ensures
        0 <= origin_index(j, destroyed) < s.len(),
        !destroyed.contains(origin_index(j, destroyed) as usize),
        adjust_index(origin_index(j, destroyed), destroyed) == j,
        without_indices(s, destroyed)[j] == s[origin_index(j, destroyed)],
    decreases destroyed.len(),
{
    if destroyed.len() > 0 {
        let rest = destroyed.drop_first();
        let d = destroyed[0] as int;
        let n = s.len() as int;
        lemma_batch_tail(destroyed, n);
        lemma_batch_room(destroyed, n);
        lemma_without_len(s, rest);
        lemma_without_len(s, destroyed);
        let j1 = if j < d { j } else { j + 1 };
        lemma_survivor_origin(s, rest, j1);
        let x = origin_index(j1, rest);
        assert(x == origin_index(j, destroyed));
        // the head of the batch keeps its place among the rest, so it is not x
        assert forall|i: int| 0 <= i < rest.len() implies d <= rest[i] by {}
        lemma_adjust_below_all(d, rest);
        assert(x != d);
        assert(!destroyed.contains(x as usize)) by {
            if destroyed.contains(x as usize) {
                let i = choose|i: int| 0 <= i < destroyed.len() && destroyed[i] == x as usize;
                if i > 0 {
                    assert(rest[i - 1] == x as usize);
                }
            }
        }
    }
}

/// The positions listed by `indices_where` are exactly those below `n` that
/// satisfy the predicate, and they form a batch.
pub proof fn lemma_indices_where(n: nat, p: spec_fn(int) -> bool)
    requires
        n <= usize::MAX,
    ensures
        is_batch(indices_where(n, p), n as int),
        forall|i: int| 0 <= i < n ==> (#[trigger] indices_where(n, p).contains(i as usize) <==> p(i)),
        indices_where(n, p).len() <= n,
    decreases n,
{
    let s = indices_where(n, p);
    if n > 0 {
        let m = (n - 1) as nat;
        let prev = indices_where(m, p);
        lemma_indices_where(m, p);
        if p(n - 1) {
            assert(s == prev.push(m as usize));
            assert(s[prev.len() as int] == m as usize);
            assert forall|i: int| 0 <= i < n implies (#[trigger] s.contains(i as usize) <==> p(i)) by {
                if i < m {
                    if prev.contains(i as usize) {
                        let k = choose|k: int| 0 <= k < prev.len() && prev[k] == i as usize;
                        assert(s[k] == i as usize);
                    }
                    if s.contains(i as usize) {
                        let k = choose|k: int| 0 <= k < s.len() && s[k] == i as usize;
                        assert(k < prev.len());
                        assert(prev[k] == i as usize);
                    }
                }
            }
        } else {
            assert(s == prev);
            assert(!s.contains(m as usize)) by {
                if s.contains(m as usize) {
                    let k = choose|k: int| 0 <= k < s.len() && s[k] == m as usize;
                    assert(s[k] < m);
                }
            }
        }
    }
}

/// Two predicates that agree below `n` give the same positions.
pub proof fn lemma_indices_where_agree(n: nat, p: spec_fn(int) -> bool, q: spec_fn(int) -> bool)
    requires
        forall|i: int| 0 <= i < n ==> #[trigger] p(i) == q(i),
    ensures
        indices_where(n, p) == indices_where(n, q),
    decreases n,
{
    if n > 0 {
        lemma_indices_where_agree((n - 1) as nat, p, q);
    }
}

/// The positions at which `marks` holds `true`, ascending.
pub fn indices_of_marks(marks: &Vec<bool>) -> (listed: Vec<usize>)
    ensures
        listed@ == indices_where(marks.len() as nat, |i: int| marks@[i]),
{
    let ghost p = |i: int| marks@[i];
    let mut listed: Vec<usize> = Vec::new();
    let mut i: usize = 0;
    while i < marks.len()
        invariant
            i <= marks.len(),
            p == (|i: int| marks@[i]),
            listed@ == indices_where(i as nat, p),
        decreases marks.len() - i,
    {
        if marks[i] {
            listed.push(i);
        }
        i += 1;
    }
    listed
}

/// Whether `x` is listed in `v`.
pub fn contains_index(v: &Vec<usize>, x: usize) -> (found: bool)
    ensures
        found == v@.contains(x),
{
    let mut i: usize = 0;
    while i < v.len()
        invariant
            i <= v.len(),
            forall|k: int| 0 <= k < i ==> v@[k] != x,
        decreases v.len() - i,
    {
        if v[i] == x {
            return true;
        }
        i += 1;
    }
    false
}

/// The position of entry `x` after the entries at `destroyed` have left.
pub fn adjusted_index(x: usize, destroyed: &Vec<usize>) -> (r: usize)
    ensures
        r == adjust_index(x as int, destroyed@),
{
    let n = destroyed.len();
    let mut r: usize = x;
    let mut j: usize = n;
    while j > 0
        invariant
            n == destroyed.len(),
            j <= n,
            r == adjust_index(x as int, destroyed@.subrange(j as int, n as int)),
        decreases j,
    {
        j -= 1;
        proof {
            let sub = destroyed@.subrange(j as int, n as int);
            assert(sub.drop_first() =~= destroyed@.subrange(j + 1, n as int));
            assert(sub[0] == destroyed@[j as int]);
        }
        if r > destroyed[j] {
            r -= 1;
        }
    }
    proof {
        assert(destroyed@.subrange(0, n as int) =~= destroyed@);
    }
    r
}

/// Takes the entries at `destroyed` out of `v`, the last listed first.
pub fn remove_descending<T>(v: &mut Vec<T>, destroyed: &Vec<usize>)
    ensures
        final(v)@ == without_indices(old(v)@, destroyed@),
{
    let n = destroyed.len();
    let mut j: usize = n;
    while j > 0
        invariant
            n == destroyed.len(),
            j <= n,
            v@ == without_indices(old(v)@, destroyed@.subrange(j as int, n as int)),
        decreases j,
    {
        j -= 1;
        proof {
            let sub = destroyed@.subrange(j as int, n as int);
            assert(sub.drop_first() =~= destroyed@.subrange(j + 1, n as int));
            assert(sub[0] == destroyed@[j as int]);
        }
        let idx = destroyed[j];
        if idx < v.len() {
            v.remove(idx);
        }
    }
    proof {
        assert(destroyed@.subrange(0, n as int) =~= destroyed@);
    }
}

} // verus!
