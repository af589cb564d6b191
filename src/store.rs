use vstd::prelude::*;

use crate::key::is_lock_key;
use crate::model::{LockRecord, TicketLockData};

verus! {

/// A value held by the store, with the time it was written and its lifetime.
pub struct StoreEntry {
    pub record: LockRecord,
    pub stored_at: u64,
    pub ttl: u64,
}

/// The store's contents: every key it holds, live or expired.
pub type StoreModel = Map<Seq<char>, StoreEntry>;

/// Whether `key` holds a value that has not yet expired at `now`.
pub open spec fn is_live(m: StoreModel, key: Seq<char>, now: u64) -> bool {
    m.contains_key(key) && (now as int) < m[key].stored_at as int + m[key].ttl as int
}

/// The store after a set-if-absent, and whether it wrote.
pub open spec fn set_if_absent_spec(
    m: StoreModel,
    key: Seq<char>,
    record: LockRecord,
    ttl: u64,
    now: u64,
) -> (StoreModel, bool) {
    if is_live(m, key, now) {
        (m, false)
    } else {
        (m.insert(key, StoreEntry { record, stored_at: now, ttl }), true)
    }
}

/// The live record under `key`, if any.
pub open spec fn get_spec(m: StoreModel, key: Seq<char>, now: u64) -> Option<LockRecord> {
    if is_live(m, key, now) {
        Some(m[key].record)
    } else {
        None
    }
}

/// The store after a compare-and-delete on the owner, and whether it deleted.
pub open spec fn compare_and_delete_spec(
    m: StoreModel,
    key: Seq<char>,
    owner: Seq<char>,
    now: u64,
) -> (StoreModel, bool) {
    if is_live(m, key, now) && m[key].record.owner == owner {
        (m.remove(key), true)
    } else {
        (m, false)
    }
}

/// The live keys of the lock namespace.
pub open spec fn live_lock_keys(m: StoreModel, now: u64) -> Set<Seq<char>> {
    Set::new(|k: Seq<char>| is_live(m, k, now) && is_lock_key(k))
}

/// The call counter after one more call; it stops at its largest value.
pub open spec fn bumped(c: u64) -> u64 {
    if c < u64::MAX {
        (c + 1) as u64
    } else {
        c
    }
}

struct Slot {
    key: String,
    record: TicketLockData,
    stored_at: u64,
    ttl: u64,
}

impl Slot {
    closed spec fn entry(&self) -> StoreEntry {
        StoreEntry { record: self.record@, stored_at: self.stored_at, ttl: self.ttl }
    }
}

/// A key-value store held in memory, with the four atomic operations that
/// the lock manager needs, expiry by a caller-supplied clock, and a count of
/// the calls made on it.
pub struct MemoryStore {
    slots: Vec<Slot>,
    calls: u64,
    model: Ghost<StoreModel>,
}

fn is_live_now(stored_at: u64, ttl: u64, now: u64) -> (r: bool)
    ensures
        r == ((now as int) < stored_at as int + ttl as int),
{
    now < stored_at || now - stored_at < ttl
}

impl MemoryStore {
    /// The store's contents.
    pub closed spec fn view(&self) -> StoreModel {
        self.model@
    }

    /// How many operations have been made on the store.
    pub closed spec fn call_count(&self) -> u64 {
        self.calls
    }

    /// The store's contents and its slots agree, and each key is held once.
    pub closed spec fn wf(&self) -> bool {
        &&& forall|i: int|
            0 <= i < self.slots@.len() ==> #[trigger] self.model@.contains_key(self.slots@[i].key@)
                && self.model@[self.slots@[i].key@] == self.slots@[i].entry()
        &&& forall|k: Seq<char>|
            #[trigger] self.model@.contains_key(k) ==> exists|i: int|
                0 <= i < self.slots@.len() && self.slots@[i].key@ == k
        &&& forall|i: int, j: int|
            0 <= i < self.slots@.len() && 0 <= j < self.slots@.len() && i != j
                ==> self.slots@[i].key@ != self.slots@[j].key@
    }

    /// An empty store.
    pub fn new() -> (r: MemoryStore)
        ensures
            r.wf(),
            r@ == Map::<Seq<char>, StoreEntry>::empty(),
            r.call_count() == 0,
    {
        MemoryStore { slots: Vec::new(), calls: 0, model: Ghost(Map::empty()) }
    }

    /// How many operations have been made on the store.
    pub fn calls(&self) -> (r: u64)
        ensures
            r == self.call_count(),
    {
        self.calls
    }

    fn count_call(&mut self)
        ensures
            final(self).slots == old(self).slots,
            final(self).model == old(self).model,
            final(self).calls == bumped(old(self).calls),
    {
        if self.calls < u64::MAX {
            self.calls = self.calls + 1;
        }
    }

    fn find(&self, key: &String) -> (r: Option<usize>)
        requires
            self.wf(),
        ensures
            r matches Some(i) ==> i < self.slots@.len() && self.slots@[i as int].key@ == key@,
            r is None ==> !self@.contains_key(key@),
    {
        let mut i: usize = 0;
        while i < self.slots.len()
            invariant
                self.wf(),
                i <= self.slots@.len(),
                forall|j: int| 0 <= j < i ==> self.slots@[j].key@ != key@,
            decreases self.slots@.len() - i,
        {
            if self.slots[i].key == *key {
                return Some(i);
            }
            i = i + 1;
        }
        None
    }

    proof fn lemma_remove_slot(self, i: int, removed: Self)
        requires
            self.wf(),
            0 <= i < self.slots@.len(),
            removed.slots@ == self.slots@.remove(i),
            removed.model@ == self.model@.remove(self.slots@[i].key@),
        ensures
            removed.wf(),
    {
        let k = self.slots@[i].key@;
        assert forall|j: int| 0 <= j < removed.slots@.len() implies
            #[trigger] removed.model@.contains_key(removed.slots@[j].key@)
            && removed.model@[removed.slots@[j].key@] == removed.slots@[j].entry() by {
            let j1 = if j < i { j } else { j + 1 };
            assert(removed.slots@[j] == self.slots@[j1]);
            assert(j1 != i);
            assert(self.model@.contains_key(self.slots@[j1].key@));
            assert(self.slots@[j1].key@ != k);
        }
        assert forall|q: Seq<char>| #[trigger] removed.model@.contains_key(q) implies exists|j: int|
            0 <= j < removed.slots@.len() && removed.slots@[j].key@ == q by {
            let j = choose|j: int| 0 <= j < self.slots@.len() && self.slots@[j].key@ == q;
            assert(j != i);
            if j < i {
                assert(removed.slots@[j] == self.slots@[j]);
            } else {
                assert(removed.slots@[j - 1] == self.slots@[j]);
            }
        }
        assert forall|a: int, b: int|
            0 <= a < removed.slots@.len() && 0 <= b < removed.slots@.len() && a != b implies
            removed.slots@[a].key@ != removed.slots@[b].key@ by {
            let a1 = if a < i { a } else { a + 1 };
            let b1 = if b < i { b } else { b + 1 };
            assert(removed.slots@[a] == self.slots@[a1]);
            assert(removed.slots@[b] == self.slots@[b1]);
        }
    }

    /// Stores `record` under `key` for `ttl` seconds from `now`, unless `key`
    /// holds a live value; says whether it wrote. One atomic step.
    pub fn set_if_absent(
        &mut self,
        key: String,
        record: TicketLockData,
        ttl: u64,
        now: u64,
    ) -> (r: bool)
        requires
            old(self).wf(),
        ensures
            final(self).wf(),
            (final(self)@, r) == set_if_absent_spec(old(self)@, key@, record@, ttl, now),
            final(self).call_count() == bumped(old(self).call_count()),
    {
        self.count_call();
        let found = self.find(&key);
        match found {
            Some(i) => {
                if is_live_now(self.slots[i].stored_at, self.slots[i].ttl, now) {
                    return false;
                }
                let ghost before = *self;
                self.slots.remove(i);
                self.model = Ghost(self.model@.remove(key@));
                proof {
                    before.lemma_remove_slot(i as int, *self);
                }
            },
            None => {},
        }
        let ghost mid = *self;
        let ghost k = key@;
        let ghost e = StoreEntry { record: record@, stored_at: now, ttl };
        self.slots.push(Slot { key, record, stored_at: now, ttl });
        self.model = Ghost(self.model@.insert(k, e));
        proof {
            let n = mid.slots@.len() as int;
            assert(!mid.model@.contains_key(k));
            assert(self.slots@[n].entry() == e);
            assert forall|j: int| 0 <= j < self.slots@.len() implies
                #[trigger] self.model@.contains_key(self.slots@[j].key@)
                && self.model@[self.slots@[j].key@] == self.slots@[j].entry() by {
                if j < n {
                    assert(self.slots@[j] == mid.slots@[j]);
                }
            }
            assert forall|q: Seq<char>| #[trigger] self.model@.contains_key(q) implies exists|j: int|
                0 <= j < self.slots@.len() && self.slots@[j].key@ == q by {
                if q != k {
                    let j = choose|j: int| 0 <= j < mid.slots@.len() && mid.slots@[j].key@ == q;
                    assert(self.slots@[j] == mid.slots@[j]);
                } else {
                    assert(self.slots@[n].key@ == q);
                }
            }
            assert forall|a: int, b: int|
                0 <= a < self.slots@.len() && 0 <= b < self.slots@.len() && a != b implies
                self.slots@[a].key@ != self.slots@[b].key@ by {
                if a < n {
                    assert(self.slots@[a] == mid.slots@[a]);
                }
                if b < n {
                    assert(self.slots@[b] == mid.slots@[b]);
                }
            }
        }
        true
    }

    /// The live record under `key`, if any. One atomic step.
    pub fn get(&mut self, key: &String, now: u64) -> (r: Option<TicketLockData>)
        requires
            old(self).wf(),
        ensures
            final(self).wf(),
            final(self)@ == old(self)@,
            r matches Some(d) ==> get_spec(old(self)@, key@, now) == Some(d@),
            r is None ==> get_spec(old(self)@, key@, now) is None,
            final(self).call_count() == bumped(old(self).call_count()),
    {
        self.count_call();
        match self.find(key) {
            Some(i) => {
                if is_live_now(self.slots[i].stored_at, self.slots[i].ttl, now) {
                    Some(self.slots[i].record.duplicate())
                } else {
                    None
                }
            },
            None => None,
        }
    }

    /// Deletes `key` if it holds a live record owned by `owner`; says whether
    /// it deleted. One atomic step.
    pub fn compare_and_delete(&mut self, key: &String, owner: &String, now: u64) -> (r: bool)
        requires
            old(self).wf(),
        ensures
            final(self).wf(),
            (final(self)@, r) == compare_and_delete_spec(old(self)@, key@, owner@, now),
            final(self).call_count() == bumped(old(self).call_count()),
    {
        self.count_call();
        match self.find(key) {
            Some(i) => {
                proof {
                    assert(self.model@.contains_key(self.slots@[i as int].key@));
                }
                if is_live_now(self.slots[i].stored_at, self.slots[i].ttl, now)
                    && self.slots[i].record.user_id == *owner {
                    let ghost before = *self;
                    self.slots.remove(i);
                    self.model = Ghost(self.model@.remove(key@));
                    proof {
                        before.lemma_remove_slot(i as int, *self);
                    }
                    true
                } else {
                    false
                }
            },
            None => false,
        }
    }

    /// The live keys of the lock namespace, each once.
    pub fn lock_keys(&mut self, now: u64) -> (r: Vec<String>)
        requires
            old(self).wf(),
        ensures
            final(self).wf(),
            final(self)@ == old(self)@,
            r@.map_values(|s: String| s@).to_set() == live_lock_keys(old(self)@, now),
            r@.map_values(|s: String| s@).no_duplicates(),
            final(self).call_count() == bumped(old(self).call_count()),
    {
        self.count_call();
        let mut r: Vec<String> = Vec::new();
        let ghost mut idx: Seq<int> = seq![];
        let mut i: usize = 0;
        while i < self.slots.len()
            invariant
                self.wf(),
                i <= self.slots@.len(),
                idx.len() == r@.len(),
                forall|a: int| 0 <= a < r@.len() ==> 0 <= #[trigger] idx[a] < i
                    && r@[a]@ == self.slots@[idx[a]].key@
                    && is_live(self@, self.slots@[idx[a]].key@, now)
                    && is_lock_key(self.slots@[idx[a]].key@),
                forall|a: int, b: int| 0 <= a < b < r@.len() ==> idx[a] < idx[b],
                forall|j: int| 0 <= j < i && is_live(self@, self.slots@[j].key@, now)
                    && is_lock_key(#[trigger] self.slots@[j].key@) ==> exists|a: int|
                    0 <= a < r@.len() && idx[a] == j,
            decreases self.slots@.len() - i,
        {
            let live = is_live_now(self.slots[i].stored_at, self.slots[i].ttl, now);
            let in_namespace = crate::key::resource_id_of_key(self.slots[i].key.as_str()).is_some();
            proof {
                let k = self.slots@[i as int].key@;
                assert(self.model@.contains_key(k));
                assert(live == is_live(self@, k, now));
            }
            let ghost old_idx = idx;
            if live && in_namespace {
                let ghost old_len = r@.len() as int;
                r.push(self.slots[i].key.clone());
                proof {
                    idx = idx.push(i as int);
                    assert(idx[old_len] == i as int);
                }
            }
            proof {
                assert forall|j: int| 0 <= j < i + 1 && is_live(self@, self.slots@[j].key@, now)
                    && is_lock_key(#[trigger] self.slots@[j].key@) implies exists|a: int|
                    0 <= a < r@.len() && idx[a] == j by {
                    if j < i {
                        let a = choose|a: int| 0 <= a < old_idx.len() && old_idx[a] == j;
                        assert(idx[a] == j);
                    } else {
                        assert(idx[idx.len() - 1] == j);
                    }
                }
            }
            i = i + 1;
        }
        proof {
            let rs = r@.map_values(|s: String| s@);
            assert forall|k: Seq<char>| rs.to_set().contains(k) <==> live_lock_keys(self@, now).contains(k) by {
                if rs.to_set().contains(k) {
                    let a = choose|a: int| 0 <= a < rs.len() && rs[a] == k;
                    assert(r@[a]@ == k);
                    assert(0 <= idx[a] < i);
                }
                if live_lock_keys(self@, now).contains(k) {
                    let j = choose|j: int| 0 <= j < self.slots@.len() && self.slots@[j].key@ == k;
                    assert(is_lock_key(self.slots@[j].key@));
                    let a = choose|a: int| 0 <= a < r@.len() && idx[a] == j;
                    assert(rs[a] == k);
                }
            }
            assert(rs.to_set() =~= live_lock_keys(self@, now));
            assert forall|a: int, b: int| 0 <= a < rs.len() && 0 <= b < rs.len() && a != b implies rs[a] != rs[b] by {
                assert(0 <= idx[a] < i);
                assert(0 <= idx[b] < i);
                assert(idx[a] != idx[b]);
            }
        }
        r
    }
}

} // verus!
