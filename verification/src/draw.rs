//! The draw engine: uniformly random selection of a pool index that no
//! active exclusion set bars, with exhausted sets reset before selection.

use vstd::prelude::*;
use vstd::set_lib::set_int_range;
use crate::exclusion::ExclusionSet;

verus! {

/// How many random candidates the engine tries before it falls back to the
/// smallest eligible index.  Pools are small, so reaching this bound has
/// vanishing probability; it only makes the sampling loop bounded.
pub const RETRY_LIMIT: usize = 10000;

/// One accepted selection against a single exclusion set (as it stands after
/// any reset): index `i` of a pool of `n` was not excluded before the draw
/// and is excluded afterwards.
pub open spec fn fresh_draw(before: Set<int>, i: int, after: Set<int>, n: int) -> bool {
    &&& 0 <= i < n
    &&& !before.contains(i)
    &&& after == before.insert(i)
}

/// The reset policy: an exclusion set that covers the whole pool is cleared
/// before selection; any other set is kept as it is.
pub open spec fn reset_if_full(s: Set<int>, n: int) -> Set<int> {
    if s == set_int_range(0, n) {
        Set::empty()
    } else {
        s
    }
}

/// Relies on `rand::random_range`: a uniformly random value of the given
/// range, here `0..n`.  It panics on an empty range, so `n` must be
/// positive.
#[verifier::external_body]
fn random_below(n: usize) -> (r: usize)
    requires
        n > 0,
    ensures
        r < n,
{
    rand::random_range(0..n)
}

/// Draw one pool index: reset each exhausted exclusion set, then redraw a
/// uniformly random index until one is found that no set excludes, and
/// record the accepted index in every set.  Returns `None` only when no
/// index at all is eligible, which no state reached from an empty store
/// produces; in that case the selection is skipped and only the resets
/// remain.
pub fn draw_index(pool_len: usize, user: &mut ExclusionSet, shared: &mut ExclusionSet) -> (r:
    Option<usize>)
    requires
        pool_len > 0,
        old(user).pool_size() == pool_len,
        old(shared).pool_size() == pool_len,
    ensures
        final(user).pool_size() == pool_len,
        final(shared).pool_size() == pool_len,
        match r {
            Option::Some(i) => {
                &&& fresh_draw(
                    reset_if_full(old(user)@, pool_len as int),
                    i as int,
                    final(user)@,
                    pool_len as int,
                )
                &&& fresh_draw(
                    reset_if_full(old(shared)@, pool_len as int),
                    i as int,
                    final(shared)@,
                    pool_len as int,
                )
            },
            Option::None => {
                &&& forall|j: int|
                    0 <= j < pool_len ==> final(user)@.contains(j) || final(shared)@.contains(j)
                &&& final(user)@ == reset_if_full(old(user)@, pool_len as int)
                &&& final(shared)@ == reset_if_full(old(shared)@, pool_len as int)
            },
        },
{
    if user.is_full() {
        user.clear();
    }
    if shared.is_full() {
        shared.clear();
    }
    let mut fallback: usize = 0;
    let mut found: bool = false;
    let mut j: usize = 0;
    while j < pool_len
        invariant
            j <= pool_len,
            user.pool_size() == pool_len,
            shared.pool_size() == pool_len,
            found ==> fallback < pool_len && !user@.contains(fallback as int) && !shared@.contains(
                fallback as int,
            ),
            !found ==> forall|k: int| 0 <= k < j ==> user@.contains(k) || shared@.contains(k),
        decreases pool_len - j,
    {
        if !found && !user.contains(j) && !shared.contains(j) {
            fallback = j;
            found = true;
        }
        j = j + 1;
    }
    if !found {
        return None;
    }
    let mut attempts: usize = 0;
    let mut pick: usize = fallback;
    while attempts < RETRY_LIMIT
        invariant
            user.pool_size() == pool_len,
            shared.pool_size() == pool_len,
            pool_len > 0,
            pick < pool_len,
            user@ == reset_if_full(old(user)@, pool_len as int),
            shared@ == reset_if_full(old(shared)@, pool_len as int),
            !user@.contains(fallback as int) && !shared@.contains(fallback as int),
            fallback < pool_len,
        decreases RETRY_LIMIT - attempts,
    {
        pick = random_below(pool_len);
        if !user.contains(pick) && !shared.contains(pick) {
            user.insert(pick);
            shared.insert(pick);
            return Some(pick);
        }
        attempts = attempts + 1;
    }
    user.insert(fallback);
    shared.insert(fallback);
    Some(fallback)
}

} // verus!
