//! The laws of the dispenser, proved once and for all: no repetition before
//! exhaustion, exhaustion then reset, distinctness across a shared pool,
//! and exactness of placeholder substitution.

use vstd::prelude::*;
use vstd::set_lib::lemma_int_range;
use vstd::set_lib::lemma_subset_equality;
use vstd::set_lib::set_int_range;
use crate::draw::fresh_draw;
use crate::text::replace_marker;
use crate::text::sub_marker;

verus! {

/// The exclusion set left after a run of accepted draws starting from
/// `start`.
pub open spec fn trace_result(start: Set<int>, picks: Seq<int>) -> Set<int>
    decreases picks.len(),
{
    if picks.len() == 0 {
        start
    } else {
        trace_result(start, picks.drop_last()).insert(picks.last())
    }
}

/// A run of accepted draws against one exclusion set that is never reset in
/// between: each pick of a pool of `n` was not excluded when it was drawn
/// and was recorded at once.
pub open spec fn draw_trace_ok(start: Set<int>, picks: Seq<int>, n: int) -> bool
    decreases picks.len(),
{
    if picks.len() == 0 {
        true
    } else {
        &&& draw_trace_ok(start, picks.drop_last(), n)
        &&& fresh_draw(
            trace_result(start, picks.drop_last()),
            picks.last(),
            trace_result(start, picks),
            n,
        )
    }
}

/// One more accepted draw — exactly what the draw engine guarantees of a
/// set it did not reset — extends a valid run.
pub proof fn lemma_trace_extend(start: Set<int>, picks: Seq<int>, n: int, i: int, after: Set<int>)
    requires
        draw_trace_ok(start, picks, n),
        fresh_draw(trace_result(start, picks), i, after, n),
    ensures
        draw_trace_ok(start, picks.push(i), n),
        trace_result(start, picks.push(i)) == after,
{
    assert(picks.push(i).drop_last() =~= picks);
    assert(picks.push(i).last() == i);
}

/// Everything drawn during a run is excluded afterwards, and everything
/// excluded at the start stays excluded.
pub proof fn lemma_trace_members(start: Set<int>, picks: Seq<int>, n: int)
    requires
        draw_trace_ok(start, picks, n),
    ensures
        forall|k: int|
            0 <= k < picks.len() ==> trace_result(start, picks).contains(#[trigger] picks[k]),
        forall|x: int| start.contains(x) ==> trace_result(start, picks).contains(x),
    decreases picks.len(),
{
    if picks.len() > 0 {
        lemma_trace_members(start, picks.drop_last(), n);
        assert(forall|k: int|
            0 <= k < picks.len() - 1 ==> picks.drop_last()[k] == #[trigger] picks[k]);
    }
}

/// No repetition before exhaustion: a run of accepted draws against one
/// never-reset exclusion set returns no index twice.
pub proof fn lemma_no_repeat_until_exhaustion(start: Set<int>, picks: Seq<int>, n: int)
    requires
        draw_trace_ok(start, picks, n),
    ensures
        picks.no_duplicates(),
    decreases picks.len(),
{
    if picks.len() > 0 {
        lemma_no_repeat_until_exhaustion(start, picks.drop_last(), n);
        lemma_trace_members(start, picks.drop_last(), n);
        assert(forall|k: int|
            0 <= k < picks.len() - 1 ==> picks.drop_last()[k] == #[trigger] picks[k]);
        assert(forall|k: int|
            0 <= k < picks.len() - 1 ==> trace_result(start, picks.drop_last()).contains(
                #[trigger] picks[k],
            ));
        assert(!trace_result(start, picks.drop_last()).contains(picks.last()));
    }
}

/// A run of accepted draws grows the exclusion set by exactly one index per
/// draw.
pub proof fn lemma_trace_cardinality(start: Set<int>, picks: Seq<int>, n: int)
    requires
        draw_trace_ok(start, picks, n),
        start.finite(),
    ensures
        trace_result(start, picks).finite(),
        trace_result(start, picks).len() == start.len() + picks.len(),
        start.subset_of(set_int_range(0, n)) ==> trace_result(start, picks).subset_of(
            set_int_range(0, n),
        ),
    decreases picks.len(),
{
    if picks.len() > 0 {
        lemma_trace_cardinality(start, picks.drop_last(), n);
    }
}

/// Exhaustion: a pool-sized run of accepted draws against an exclusion set
/// that starts empty leaves every index of the pool excluded.  The draw
/// engine's reset policy therefore clears the set before the selection that
/// follows such a run.
pub proof fn lemma_exhaustion(picks: Seq<int>, n: int)
    requires
        draw_trace_ok(Set::empty(), picks, n),
        picks.len() == n,
    ensures
        trace_result(Set::empty(), picks) == set_int_range(0, n),
{
    lemma_trace_cardinality(Set::empty(), picks, n);
    lemma_int_range(0, n);
    lemma_subset_equality(trace_result(Set::empty(), picks), set_int_range(0, n));
}

/// After a pool-exhausting run, the draw engine's reset policy hands the
/// selection that follows an empty exclusion set.
pub proof fn lemma_reset_after_exhaustion(picks: Seq<int>, n: int)
    requires
        draw_trace_ok(Set::empty(), picks, n),
        picks.len() == n,
    ensures
        crate::draw::reset_if_full(trace_result(Set::empty(), picks), n) == Set::<int>::empty(),
{
    lemma_exhaustion(picks, n);
}

/// Shared-pool coupling: two draws accepted one after the other against the
/// same shared exclusion set, with no reset in between, never return the
/// same index — whoever made them.
pub proof fn lemma_shared_pool_distinct(
    s0: Set<int>,
    i: int,
    s1: Set<int>,
    j: int,
    s2: Set<int>,
    n: int,
)
    requires
        fresh_draw(s0, i, s1, n),
        fresh_draw(s1, j, s2, n),
    ensures
        i != j,
{
}

/// The placeholder marker read at position `p` of `s`.
pub open spec fn marker_at(s: Seq<char>, p: int) -> bool {
    0 <= p && p + 3 <= s.len() && s.subrange(p, p + 3) == sub_marker()
}

/// A string without the placeholder marker passes through substitution
/// unchanged.
pub proof fn lemma_no_marker_unchanged(s: Seq<char>, name: Seq<char>)
    requires
        forall|q: int| !marker_at(s, q),
    ensures
        replace_marker(s, name) == s,
    decreases s.len(),
{
    if s.len() == 0 {
        assert(replace_marker(s, name) =~= s);
    } else {
        assert(!marker_at(s, 0));
        assert(forall|q: int| marker_at(s.skip(1), q) ==> marker_at(s, q + 1)) by {
            assert forall|q: int| marker_at(s.skip(1), q) implies marker_at(s, q + 1) by {
                assert(s.skip(1).subrange(q, q + 3) =~= s.subrange(q + 1, q + 4));
            }
        }
        lemma_no_marker_unchanged(s.skip(1), name);
        assert(seq![s[0]] + s.skip(1) =~= s);
    }
}

/// Placeholder substitution is exact: a string holding the marker at `p`
/// and nowhere else becomes its text up to `p`, then the name, then its
/// text after the marker — no other character is altered.
pub proof fn lemma_single_marker_substitution(s: Seq<char>, name: Seq<char>, p: int)
    requires
        marker_at(s, p),
        forall|q: int| marker_at(s, q) ==> q == p,
    ensures
        replace_marker(s, name) == s.subrange(0, p) + name + s.skip(p + 3),
    decreases p,
{
    if p == 0 {
        assert(s.len() >= 3 && s.subrange(0, 3) == sub_marker());
        assert(forall|q: int| !marker_at(s.skip(3), q)) by {
            assert forall|q: int| !marker_at(s.skip(3), q) by {
                if marker_at(s.skip(3), q) {
                    assert(s.skip(3).subrange(q, q + 3) =~= s.subrange(q + 3, q + 6));
                    assert(marker_at(s, q + 3));
                }
            }
        }
        lemma_no_marker_unchanged(s.skip(3), name);
        assert(s.subrange(0, 0) + name + s.skip(3) =~= name + s.skip(3));
    } else {
        assert(s.len() >= p + 3);
        if s.len() >= 3 && s.subrange(0, 3) == sub_marker() {
            assert(marker_at(s, 0));
            assert(false);
        }
        assert(marker_at(s.skip(1), p - 1)) by {
            assert(s.skip(1).subrange(p - 1, p + 2) =~= s.subrange(p, p + 3));
        }
        assert(forall|q: int| marker_at(s.skip(1), q) ==> q == p - 1) by {
            assert forall|q: int| marker_at(s.skip(1), q) implies q == p - 1 by {
                assert(s.skip(1).subrange(q, q + 3) =~= s.subrange(q + 1, q + 4));
                assert(marker_at(s, q + 1));
            }
        }
        lemma_single_marker_substitution(s.skip(1), name, p - 1);
        assert(s.skip(1).subrange(0, p - 1) =~= s.subrange(1, p));
        assert(s.skip(1).skip(p + 2) =~= s.skip(p + 3));
        assert(seq![s[0]] + (s.subrange(1, p) + name + s.skip(p + 3)) =~= s.subrange(0, p) + name
            + s.skip(p + 3));
    }
}

} // verus!
