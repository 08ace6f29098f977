//! The record table: an in-memory model of the persistent record store,
//! consumed through the same operations the dispenser needs — linear scan,
//! insert, and read-modify-write of one record at a time.

use vstd::prelude::*;
use crate::exclusion::ExclusionSet;
use crate::records::UserRecord;

verus! {

/// The identity reserved for the synthetic meta record that aggregates
/// every requester's history.
pub const META_IDENTITY: u64 = 0;

/// The abstract content of one stored record.
#[verifier::ext_equal]
pub ghost struct RecordModel {
    pub identity: u64,
    pub history: Set<int>,
    pub last_draw_time: Option<u64>,
}

/// The abstract content of a concrete record.
pub open spec fn record_model(r: UserRecord) -> RecordModel {
    RecordModel { identity: r.identity, history: r.history@, last_draw_time: r.last_draw_time }
}

/// No two records carry the same identity.
pub open spec fn identities_unique(s: Seq<RecordModel>) -> bool {
    forall|i: int, j: int|
        0 <= i < s.len() && 0 <= j < s.len() && i != j ==> s[i].identity != s[j].identity
}

/// Some record carries identity `id`.
pub open spec fn has_identity(s: Seq<RecordModel>, id: u64) -> bool {
    exists|i: int| 0 <= i < s.len() && s[i].identity == id
}

/// The union of every record's history.
pub open spec fn all_histories(s: Seq<RecordModel>) -> Set<int>
    decreases s.len(),
{
    if s.len() == 0 {
        Set::empty()
    } else {
        all_histories(s.drop_last()).union(s.last().history)
    }
}

/// All records of the store, one per identity, plus the pool size their
/// histories range over.
pub struct UserTable {
    pool_size: usize,
    records: Vec<UserRecord>,
}

impl View for UserTable {
    type V = Seq<RecordModel>;

    /// The stored records, in insertion order.
    closed spec fn view(&self) -> Seq<RecordModel> {
        Seq::new(self.records@.len(), |i: int| record_model(self.records@[i]))
    }
}

impl UserTable {
    /// The pool size every stored history ranges over.
    pub closed spec fn pool_size(&self) -> nat {
        self.pool_size as nat
    }

    /// Internal consistency: identities are unique and every history ranges
    /// over the table's pool size.
    pub closed spec fn wf(&self) -> bool {
        &&& identities_unique(self@)
        &&& forall|i: int|
            0 <= i < self.records@.len() ==> (#[trigger] self.records@[i]).history.pool_size()
                == self.pool_size as nat
    }

    /// `wf` keeps identities unique.
    pub proof fn lemma_wf_unique(&self)
        requires
            self.wf(),
        ensures
            identities_unique(self@),
    {
    }

    /// An empty table over a pool of `pool_size` slots.
    pub fn new(pool_size: usize) -> (t: Self)
        ensures
            t.wf(),
            t.pool_size() == pool_size,
            t@ == Seq::<RecordModel>::empty(),
    {
        let t = UserTable { pool_size, records: Vec::new() };
        proof {
            assert(t@ =~= Seq::<RecordModel>::empty());
        }
        t
    }

    /// The pool size every stored history ranges over.
    pub fn slot_count(&self) -> (n: usize)
        ensures
            n == self.pool_size(),
    {
        self.pool_size
    }

    /// How many records the table holds.
    pub fn record_count(&self) -> (n: usize)
        ensures
            n == self@.len(),
    {
        self.records.len()
    }

    /// Linear scan for the record carrying identity `id`.
    pub fn lookup(&self, id: u64) -> (r: Option<usize>)
        ensures
            match r {
                Option::Some(i) => i < self@.len() && self@[i as int].identity == id,
                Option::None => !has_identity(self@, id),
            },
    {
        let n = self.records.len();
        let mut i: usize = 0;
        while i < n
            invariant
                i <= n,
                n == self@.len(),
                n == self.records@.len(),
                forall|j: int| 0 <= j < i ==> self@[j].identity != id,
            decreases n - i,
        {
            if self.records[i].identity == id {
                return Some(i);
            }
            i = i + 1;
        }
        None
    }

    /// An independent copy of the record at `i`.
    pub fn record_at(&self, i: usize) -> (r: UserRecord)
        requires
            self.wf(),
            i < self@.len(),
        ensures
            record_model(r) == self@[i as int],
            r.history.pool_size() == self.pool_size(),
    {
        self.records[i].duplicate()
    }

    /// Write `r` back over the record at `i`, keeping its identity.
    pub fn put(&mut self, i: usize, r: UserRecord)
        requires
            old(self).wf(),
            i < old(self)@.len(),
            r.identity == old(self)@[i as int].identity,
            r.history.pool_size() == old(self).pool_size(),
        ensures
            final(self).wf(),
            final(self).pool_size() == old(self).pool_size(),
            final(self)@ == old(self)@.update(i as int, record_model(r)),
    {
        self.records[i] = r;
        proof {
            assert(self@ =~~= old(self)@.update(i as int, record_model(r)));
        }
    }

    /// Insert a new record; its generated identifier is its position.
    pub fn insert_record(&mut self, r: UserRecord) -> (i: usize)
        requires
            old(self).wf(),
            !has_identity(old(self)@, r.identity),
            r.history.pool_size() == old(self).pool_size(),
        ensures
            final(self).wf(),
            final(self).pool_size() == old(self).pool_size(),
            final(self)@ == old(self)@.push(record_model(r)),
            i == old(self)@.len(),
    {
        let i = self.records.len();
        self.records.push(r);
        proof {
            assert(self@ =~~= old(self)@.push(record_model(r)));
        }
        i
    }

    /// The record position for identity `id`, creating a fresh record
    /// lazily if the identity has never been seen.
    pub fn find_or_create(&mut self, id: u64) -> (i: usize)
        requires
            old(self).wf(),
        ensures
            final(self).wf(),
            final(self).pool_size() == old(self).pool_size(),
            i < final(self)@.len(),
            final(self)@[i as int].identity == id,
            has_identity(old(self)@, id) ==> final(self)@ == old(self)@ && old(self)@[i as int].identity
                == id && i < old(self)@.len(),
            !has_identity(old(self)@, id) ==> final(self)@ == old(self)@.push(
                RecordModel { identity: id, history: Set::empty(), last_draw_time: None },
            ) && i == old(self)@.len(),
    {
        match self.lookup(id) {
            Option::Some(i) => i,
            Option::None => {
                let pool_size = self.pool_size;
                let r = UserRecord::fresh(id, pool_size);
                proof {
                    assert(record_model(r) =~= RecordModel {
                        identity: id,
                        history: Set::empty(),
                        last_draw_time: None,
                    });
                }
                self.insert_record(r)
            },
        }
    }

    /// The startup step of the shared-pool variant: if the meta record is
    /// absent, create it once, seeded from the union of every existing
    /// requester's history.
    pub fn init_meta(&mut self)
        requires
            old(self).wf(),
        ensures
            final(self).wf(),
            final(self).pool_size() == old(self).pool_size(),
            has_identity(final(self)@, META_IDENTITY),
            has_identity(old(self)@, META_IDENTITY) ==> final(self)@ == old(self)@,
            !has_identity(old(self)@, META_IDENTITY) ==> final(self)@ == old(self)@.push(
                RecordModel {
                    identity: META_IDENTITY,
                    history: all_histories(old(self)@),
                    last_draw_time: None,
                },
            ),
    {
        match self.lookup(META_IDENTITY) {
            Option::Some(i) => {
                proof {
                    assert(self@[i as int].identity == META_IDENTITY);
                    assert(has_identity(self@, META_IDENTITY));
                }
            },
            Option::None => {
                let pool_size = self.pool_size;
                let n = self.records.len();
                let mut seed = ExclusionSet::empty(pool_size);
                let mut i: usize = 0;
                proof {
                    assert(all_histories(self@.take(0)) =~= Set::<int>::empty());
                    assert(seed@ =~= all_histories(self@.take(0)));
                }
                while i < n
                    invariant
                        i <= n,
                        n == self.records@.len(),
                        seed.pool_size() == self.pool_size as nat,
                        self.wf(),
                        seed@ == all_histories(self@.take(i as int)),
                    decreases n - i,
                {
                    seed.union_with(&self.records[i].history);
                    proof {
                        assert(self@.take(i + 1).drop_last() =~= self@.take(i as int));
                        assert(self@.take(i + 1).last() == self@[i as int]);
                    }
                    i = i + 1;
                }
                proof {
                    assert(self@.take(n as int) =~= self@);
                }
                let meta = UserRecord { identity: META_IDENTITY, history: seed, last_draw_time: None };
                let at = self.insert_record(meta);
                proof {
                    assert(self@[at as int].identity == META_IDENTITY);
                    assert(has_identity(self@, META_IDENTITY));
                }
            },
        }
    }
}

} // verus!
