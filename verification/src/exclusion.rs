//! Exclusion sets: which pool indices are currently barred from selection.

use vstd::prelude::*;

verus! {

/// A set of pool indices that have already been dispensed and are therefore
/// ineligible for re-selection until the set is reset.  It ranges over a pool
/// of a fixed size and holds one mark per pool slot.
pub struct ExclusionSet {
    marks: Vec<bool>,
}

impl View for ExclusionSet {
    type V = Set<int>;

    /// The mathematical set of excluded indices.
    closed spec fn view(&self) -> Set<int> {
        Set::new(|i: int| 0 <= i < self.marks@.len() && self.marks@[i])
    }
}

impl ExclusionSet {
    /// Number of slots in the pool this set ranges over.
    pub closed spec fn pool_size(&self) -> nat {
        self.marks@.len()
    }

    /// Every excluded index lies below the pool size.
    pub proof fn lemma_in_range(&self)
        ensures
            self@.subset_of(vstd::set_lib::set_int_range(0, self.pool_size() as int)),
    {
    }

    /// An exclusion set over `pool_size` slots with nothing excluded yet.
    pub fn empty(pool_size: usize) -> (s: Self)
        ensures
            s.pool_size() == pool_size,
            s@ == Set::<int>::empty(),
    {
        let mut marks: Vec<bool> = Vec::new();
        let mut i: usize = 0;
        while i < pool_size
            invariant
                i <= pool_size,
                marks@.len() == i,
                forall|j: int| 0 <= j < i ==> !marks@[j],
            decreases pool_size - i,
        {
            marks.push(false);
            i = i + 1;
        }
        let s = ExclusionSet { marks };
        proof {
            assert(s@ =~= Set::<int>::empty());
        }
        s
    }

    /// Whether index `i` is currently excluded.
    pub fn contains(&self, i: usize) -> (r: bool)
        requires
            i < self.pool_size(),
        ensures
            r == self@.contains(i as int),
    {
        self.marks[i]
    }

    /// Record that index `i` has been dispensed.
    pub fn insert(&mut self, i: usize)
        requires
            i < old(self).pool_size(),
        ensures
            final(self).pool_size() == old(self).pool_size(),
            final(self)@ == old(self)@.insert(i as int),
    {
        self.marks[i] = true;
        proof {
            assert(self@ =~= old(self)@.insert(i as int));
        }
    }

    /// Reset the set: no index is excluded any more.
    pub fn clear(&mut self)
        ensures
            final(self).pool_size() == old(self).pool_size(),
            final(self)@ == Set::<int>::empty(),
    {
        let n = self.marks.len();
        let mut i: usize = 0;
        while i < n
            invariant
                i <= n,
                self.marks@.len() == n,
                forall|j: int| 0 <= j < i ==> !self.marks@[j],
            decreases n - i,
        {
            self.marks[i] = false;
            i = i + 1;
        }
        proof {
            assert(self@ =~= Set::<int>::empty());
        }
    }

    /// Whether every index of the pool is excluded, i.e. the pool has been
    /// exhausted for whoever this set belongs to.
    pub fn is_full(&self) -> (r: bool)
        ensures
            r == (self@ == vstd::set_lib::set_int_range(0, self.pool_size() as int)),
    {
        let n = self.marks.len();
        let mut i: usize = 0;
        let mut all: bool = true;
        while i < n
            invariant
                i <= n,
                self.marks@.len() == n,
                all == (forall|j: int| 0 <= j < i ==> self.marks@[j]),
            decreases n - i,
        {
            if !self.marks[i] {
                all = false;
            }
            i = i + 1;
        }
        proof {
            if all {
                assert(self@ =~= vstd::set_lib::set_int_range(0, self.pool_size() as int));
            } else {
                let j = choose|j: int| 0 <= j < n && !self.marks@[j];
                assert(vstd::set_lib::set_int_range(0, self.pool_size() as int).contains(j));
                assert(!self@.contains(j));
            }
        }
        all
    }

    /// An independent copy of this exclusion set.
    pub fn duplicate(&self) -> (r: Self)
        ensures
            r.pool_size() == self.pool_size(),
            r@ == self@,
    {
        let n = self.marks.len();
        let mut marks: Vec<bool> = Vec::new();
        let mut i: usize = 0;
        while i < n
            invariant
                i <= n,
                self.marks@.len() == n,
                marks@.len() == i,
                forall|j: int| 0 <= j < i ==> marks@[j] == self.marks@[j],
            decreases n - i,
        {
            marks.push(self.marks[i]);
            i = i + 1;
        }
        let r = ExclusionSet { marks };
        proof {
            assert(r@ =~= self@);
        }
        r
    }

    /// Add every index of `other` to this set.
    pub fn union_with(&mut self, other: &ExclusionSet)
        requires
            old(self).pool_size() == other.pool_size(),
        ensures
            final(self).pool_size() == old(self).pool_size(),
            final(self)@ == old(self)@.union(other@),
    {
        let n = self.marks.len();
        let mut j: usize = 0;
        proof {
            assert(self@ =~= old(self)@.union(Set::new(|k: int| 0 <= k < 0 && other@.contains(k))));
        }
        while j < n
            invariant
                j <= n,
                self.pool_size() == n,
                other.pool_size() == n,
                self@ == old(self)@.union(Set::new(|k: int| 0 <= k < j && other@.contains(k))),
            decreases n - j,
        {
            if other.contains(j) {
                self.insert(j);
            }
            proof {
                assert(self@ =~= old(self)@.union(
                    Set::new(|k: int| 0 <= k < j + 1 && other@.contains(k)),
                ));
            }
            j = j + 1;
        }
        proof {
            other.lemma_in_range();
            assert(old(self)@.union(Set::new(|k: int| 0 <= k < n && other@.contains(k)))
                =~= old(self)@.union(other@));
        }
    }

    /// How many indices are currently excluded.
    pub fn count(&self) -> (r: usize)
        ensures
            r == self@.len(),
            self@.finite(),
    {
        let n = self.marks.len();
        let mut i: usize = 0;
        let mut c: usize = 0;
        proof {
            assert(counted_below(self.marks@, 0) =~= Set::<int>::empty());
        }
        while i < n
            invariant
                i <= n,
                c <= i,
                self.marks@.len() == n,
                counted_below(self.marks@, i as int).finite(),
                c == counted_below(self.marks@, i as int).len(),
            decreases n - i,
        {
            proof {
                if self.marks@[i as int] {
                    assert(counted_below(self.marks@, i + 1) =~= counted_below(
                        self.marks@,
                        i as int,
                    ).insert(i as int));
                } else {
                    assert(counted_below(self.marks@, i + 1) =~= counted_below(
                        self.marks@,
                        i as int,
                    ));
                }
            }
            if self.marks[i] {
                c = c + 1;
            }
            i = i + 1;
        }
        proof {
            assert(self@ =~= counted_below(self.marks@, n as int));
        }
        c
    }
}

/// The excluded indices among the first `k` slots.
spec fn counted_below(marks: Seq<bool>, k: int) -> Set<int> {
    Set::new(|i: int| 0 <= i < k && i < marks.len() && marks[i])
}

} // verus!
