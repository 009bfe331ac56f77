//! Facts about sequences that the rest of the crate leans on.

use vstd::prelude::*;
use vstd::seq_lib::lemma_seq_contains_after_push;
use crate::indices::{indices_where, lemma_indices_where};

verus! {

/// The first `cap` entries of `s`, or all of `s` if it has no more.
pub open spec fn first_up_to<T>(s: Seq<T>, cap: nat) -> Seq<T> {
    if s.len() <= cap {
        s
    } else {
        s.take(cap as int)
    }
}

/// Filtering one entry more keeps or drops that entry.
pub proof fn lemma_filter_step<T>(s: Seq<T>, i: int, p: spec_fn(T) -> bool)
    requires
        0 <= i < s.len(),
    ensures
        s.take(i + 1).filter(p) == if p(s[i]) {
            s.take(i).filter(p).push(s[i])
        } else {
            s.take(i).filter(p)
        },
{
    assert(s.take(i + 1) =~= s.take(i).push(s[i]));
    s.take(i).lemma_filter_push(s[i], p);
}

/// A filtered sequence holds exactly the entries that pass the filter.
pub proof fn lemma_filter_membership<T>(s: Seq<T>, p: spec_fn(T) -> bool, x: T)
    ensures
        s.filter(p).contains(x) <==> (s.contains(x) && p(x)),
    decreases s.len(),
{
    reveal(Seq::filter);
    if s.len() > 0 {
        let rest = s.drop_last();
        lemma_filter_membership(rest, p, x);
        assert(s =~= rest.push(s.last()));
        lemma_seq_contains_after_push(rest, s.last(), x);
        if p(s.last()) {
            lemma_seq_contains_after_push(rest.filter(p), s.last(), x);
        }
    }
}

/// Filtering a sequence without repeats leaves no repeats.
pub proof fn lemma_filter_no_duplicates<T>(s: Seq<T>, p: spec_fn(T) -> bool)
    requires
        s.no_duplicates(),
    ensures
        s.filter(p).no_duplicates(),
    decreases s.len(),
{
    reveal(Seq::filter);
    if s.len() > 0 {
        let rest = s.drop_last();
        assert forall|i: int, j: int| 0 <= i < rest.len() && 0 <= j < rest.len() && i != j implies rest[i]
            != rest[j] by {
            assert(rest[i] == s[i] && rest[j] == s[j]);
        }
        lemma_filter_no_duplicates(rest, p);
        if p(s.last()) {
            let kept = rest.filter(p);
            lemma_filter_membership(rest, p, s.last());
            if rest.contains(s.last()) {
                let i = choose|i: int| 0 <= i < rest.len() && rest[i] == s.last();
                assert(s[i] == s[s.len() - 1]);
            }
            assert forall|i: int, j: int|
                0 <= i < kept.push(s.last()).len() && 0 <= j < kept.push(s.last()).len() && i
                    != j implies kept.push(s.last())[i] != kept.push(s.last())[j] by {
                if i < kept.len() {
                    assert(kept.contains(kept[i]));
                }
                if j < kept.len() {
                    assert(kept.contains(kept[j]));
                }
            }
        }
    }
}

/// A filter that every entry passes changes nothing.
pub proof fn lemma_filter_all<T>(s: Seq<T>, p: spec_fn(T) -> bool)
    requires
        forall|i: int| 0 <= i < s.len() ==> p(#[trigger] s[i]),
    ensures
        s.filter(p) == s,
    decreases s.len(),
{
    reveal(Seq::filter);
    if s.len() > 0 {
        let rest = s.drop_last();
        assert forall|i: int| 0 <= i < rest.len() implies p(#[trigger] rest[i]) by {
            assert(rest[i] == s[i]);
        }
        lemma_filter_all(rest, p);
        assert(s =~= rest.push(s.last()));
    }
}

/// Filtering after a map that does not change what the filter sees is the
/// same as mapping what the filter keeps.
pub proof fn lemma_filter_map_commute<T>(s: Seq<T>, f: spec_fn(T) -> T, p: spec_fn(T) -> bool)
    requires
        forall|x: T| #[trigger] p(f(x)) == p(x),
    ensures
        s.map_values(f).filter(p) == s.filter(p).map_values(f),
    decreases s.len(),
{
    reveal(Seq::filter);
    if s.len() == 0 {
        assert(s.map_values(f).filter(p) =~= s.filter(p).map_values(f));
    } else {
        let rest = s.drop_last();
        lemma_filter_map_commute(rest, f, p);
        assert(s.map_values(f).drop_last() =~= rest.map_values(f));
        assert(s.map_values(f).last() == f(s.last()));
        assert(p(f(s.last())) == p(s.last()));
        if p(s.last()) {
            rest.filter(p).lemma_push_map_commute(f, s.last());
        }
    }
}

/// What a filter keeps, entry by entry, is what stands at the positions
/// that pass it.
pub proof fn lemma_filter_by_indices<T>(s: Seq<T>, p: spec_fn(T) -> bool, q: spec_fn(int) -> bool)
    requires
        s.len() <= usize::MAX,
        forall|j: int| 0 <= j < s.len() ==> #[trigger] q(j) == p(s[j]),
    ensures
        s.filter(p).len() == indices_where(s.len(), q).len(),
        forall|k: int|
            0 <= k < s.filter(p).len() ==> 0 <= #[trigger] indices_where(s.len(), q)[k] < s.len()
                && s.filter(p)[k] == s[indices_where(s.len(), q)[k] as int],
    decreases s.len(),
{
    reveal(Seq::filter);
    if s.len() > 0 {
        let rest = s.drop_last();
        let n = (s.len() - 1) as nat;
        assert forall|j: int| 0 <= j < rest.len() implies #[trigger] q(j) == p(rest[j]) by {
            assert(rest[j] == s[j]);
        }
        lemma_filter_by_indices(rest, p, q);
        lemma_indices_where(n, q);
        assert(q(n as int) == p(s.last()));
        let kept = rest.filter(p);
        let listed = indices_where(n, q);
        assert forall|k: int| 0 <= k < s.filter(p).len() implies 0 <= #[trigger] indices_where(
            s.len(),
            q,
        )[k] < s.len() && s.filter(p)[k] == s[indices_where(s.len(), q)[k] as int] by {
            if k < kept.len() {
                assert(indices_where(s.len(), q)[k] == listed[k]);
                assert(kept[k] == rest[listed[k] as int]);
            }
        }
    }
}

/// Taking the first entries of a sequence that grew by one.
pub proof fn lemma_first_up_to_push<T>(s: Seq<T>, x: T, cap: nat)
    ensures
        first_up_to(s.push(x), cap) == if s.len() < cap {
            first_up_to(s, cap).push(x)
        } else {
            first_up_to(s, cap)
        },
{
    if s.len() < cap {
        assert(first_up_to(s.push(x), cap) =~= first_up_to(s, cap).push(x));
    } else {
        assert(first_up_to(s.push(x), cap) =~= first_up_to(s, cap));
    }
}

} // verus!
