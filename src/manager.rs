use vstd::prelude::*;

use crate::key::{ids_of, is_lock_key, key_of, lock_key, resource_ids_of_keys, resource_of};
use crate::model::{
    AcquireOutcome, InspectOutcome, LockError, LockRecord, ReleaseOutcome, StoredValue,
    TicketLockData,
};
use crate::store::{
    bumped, compare_and_delete_spec, get_spec, is_live, live_lock_keys, set_if_absent_spec, MemoryStore,
    StoreModel,
};

verus! {

/// The record written when `owner` acquires a lock at `now`.
pub open spec fn record_of(owner: Seq<char>, now: u64) -> LockRecord {
    LockRecord { owner, locked_at: now }
}

/// The store and the answer after `owner` asks for the lock on `id` for
/// `ttl` seconds at `now`.
pub open spec fn acquire_spec(
    m: StoreModel,
    id: Seq<char>,
    owner: Seq<char>,
    ttl: u64,
    now: u64,
) -> (StoreModel, Result<AcquireOutcome, LockError>) {
    if ttl == 0 {
        (m, Err(LockError::InvalidDuration))
    } else {
        let (m2, written) = set_if_absent_spec(m, key_of(id), record_of(owner, now), ttl, now);
        (m2, Ok(if written { AcquireOutcome::Acquired } else { AcquireOutcome::AlreadyLocked }))
    }
}

/// The live lock record on `id` at `now`, if any.
pub open spec fn inspect_spec(m: StoreModel, id: Seq<char>, now: u64) -> Option<LockRecord> {
    get_spec(m, key_of(id), now)
}

/// The store and the answer after `owner` gives up the lock on `id` at `now`.
pub open spec fn release_spec(
    m: StoreModel,
    id: Seq<char>,
    owner: Seq<char>,
    now: u64,
) -> (StoreModel, ReleaseOutcome) {
    let (m2, deleted) = compare_and_delete_spec(m, key_of(id), owner, now);
    (m2, if deleted { ReleaseOutcome::Released } else { ReleaseOutcome::NotHeldByCaller })
}

/// The resources whose lock is live at `now`.
pub open spec fn active_ids(m: StoreModel, now: u64) -> Set<Seq<char>> {
    Set::new(|id: Seq<char>| is_live(m, key_of(id), now))
}

/// The store write that an acquire asks for.
pub struct AcquirePlan {
    pub key: String,
    pub record: TicketLockData,
    pub ttl: u64,
}

/// Checks an acquire request and, when it is valid, gives the set-if-absent
/// that carries it out; a zero `duration` is refused before any store call.
pub fn acquire_plan(ticket_id: &str, user_id: &str, duration: u64, now: u64) -> (r: Result<
    AcquirePlan,
    LockError,
>)
    ensures
        duration == 0 <==> r is Err,
        r matches Err(e) ==> e is InvalidDuration,
        r matches Ok(p) ==> p.key@ == key_of(ticket_id@) && p.record@ == record_of(user_id@, now)
            && p.ttl == duration,
{
    if duration == 0 {
        return Err(LockError::InvalidDuration);
    }
    let key = lock_key(ticket_id);
    let record = TicketLockData { user_id: String::from_str(user_id), locked_at: now };
    Ok(AcquirePlan { key, record, ttl: duration })
}

/// Reads the store's answer to an acquire's set-if-absent.
pub fn acquire_result(reply: Result<bool, String>) -> (r: Result<AcquireOutcome, LockError>)
    ensures
        reply matches Ok(true) ==> r == Ok::<AcquireOutcome, LockError>(AcquireOutcome::Acquired),
        reply matches Ok(false) ==> r == Ok::<AcquireOutcome, LockError>(
            AcquireOutcome::AlreadyLocked,
        ),
        reply matches Err(msg) ==> r matches Err(LockError::Store(m)) && m == msg,
{
    match reply {
        Ok(true) => Ok(AcquireOutcome::Acquired),
        Ok(false) => Ok(AcquireOutcome::AlreadyLocked),
        Err(msg) => Err(LockError::Store(msg)),
    }
}

/// Reads the store's answer to an inspection; a value that is not a lock
/// record is reported as such, never as a free resource.
pub fn inspect_result(reply: Result<StoredValue, String>) -> (r: Result<InspectOutcome, LockError>)
    ensures
        reply matches Ok(StoredValue::Absent) ==> r matches Ok(InspectOutcome::Available),
        reply matches Ok(StoredValue::Record(d)) ==> r matches Ok(InspectOutcome::Locked(e)) && e@
            == d@,
        reply matches Ok(StoredValue::Unreadable) ==> r matches Err(LockError::CorruptRecord),
        reply matches Err(msg) ==> r matches Err(LockError::Store(m)) && m == msg,
{
    match reply {
        Ok(StoredValue::Absent) => Ok(InspectOutcome::Available),
        Ok(StoredValue::Record(d)) => Ok(InspectOutcome::Locked(d)),
        Ok(StoredValue::Unreadable) => Err(LockError::CorruptRecord),
        Err(msg) => Err(LockError::Store(msg)),
    }
}

/// Reads the store's answer to a release's compare-and-delete.
pub fn release_result(reply: Result<bool, String>) -> (r: Result<ReleaseOutcome, LockError>)
    ensures
        reply matches Ok(true) ==> r == Ok::<ReleaseOutcome, LockError>(ReleaseOutcome::Released),
        reply matches Ok(false) ==> r == Ok::<ReleaseOutcome, LockError>(
            ReleaseOutcome::NotHeldByCaller,
        ),
        reply matches Err(msg) ==> r matches Err(LockError::Store(m)) && m == msg,
{
    match reply {
        Ok(true) => Ok(ReleaseOutcome::Released),
        Ok(false) => Ok(ReleaseOutcome::NotHeldByCaller),
        Err(msg) => Err(LockError::Store(msg)),
    }
}

/// Reads the store's answer to a listing of the lock namespace: the
/// resource id of each lock key, in the order given.
pub fn list_result(reply: Result<Vec<String>, String>) -> (r: Result<Vec<String>, LockError>)
    ensures
        reply matches Ok(keys) ==> r matches Ok(ids) && ids@.map_values(|s: String| s@) == ids_of(
            keys@.map_values(|s: String| s@),
        ),
        reply matches Ok(keys) ==> (keys@.map_values(|s: String| s@).no_duplicates() ==> (r matches Ok(
            ids,
        ) && ids@.map_values(|s: String| s@).no_duplicates())),
        reply matches Err(msg) ==> r matches Err(LockError::Store(m)) && m == msg,
{
    match reply {
        Ok(keys) => {
            proof {
                lemma_ids_of(keys@.map_values(|s: String| s@));
            }
            Ok(resource_ids_of_keys(&keys))
        },
        Err(msg) => Err(LockError::Store(msg)),
    }
}

/// Acquires the lock on `ticket_id` for `user_id` during `duration` seconds
/// from `now`: `Acquired` exactly when no live lock holds it, whoever asks.
/// A zero `duration` is refused without a call on the store.
pub fn lock_ticket(
    store: &mut MemoryStore,
    ticket_id: &str,
    user_id: &str,
    duration: u64,
    now: u64,
) -> (r: Result<AcquireOutcome, LockError>)
    requires
        old(store).wf(),
    ensures
        final(store).wf(),
        (final(store)@, r) == acquire_spec(old(store)@, ticket_id@, user_id@, duration, now),
        duration == 0 ==> final(store).call_count() == old(store).call_count(),
        duration > 0 ==> final(store).call_count() == bumped(old(store).call_count()),
{
    match acquire_plan(ticket_id, user_id, duration, now) {
        Err(e) => Err(e),
        Ok(plan) => {
            let written = store.set_if_absent(plan.key, plan.record, plan.ttl, now);
            acquire_result(Ok(written))
        },
    }
}

/// The live lock on `ticket_id` at `now`, or `Available`.
pub fn check_ticket_lock(store: &mut MemoryStore, ticket_id: &str, now: u64) -> (r:
    InspectOutcome)
    requires
        old(store).wf(),
    ensures
        final(store).wf(),
        final(store)@ == old(store)@,
        r matches InspectOutcome::Locked(d) ==> inspect_spec(old(store)@, ticket_id@, now) == Some(
            d@,
        ),
        r is Available ==> inspect_spec(old(store)@, ticket_id@, now) is None,
        final(store).call_count() == bumped(old(store).call_count()),
{
    let key = lock_key(ticket_id);
    match store.get(&key, now) {
        Some(d) => InspectOutcome::Locked(d),
        None => InspectOutcome::Available,
    }
}

/// Gives up the lock on `ticket_id` if `user_id` holds it, in one atomic
/// compare-and-delete; `NotHeldByCaller` when it is free or held by another.
pub fn release_ticket(store: &mut MemoryStore, ticket_id: &str, user_id: &str, now: u64) -> (r:
    ReleaseOutcome)
    requires
        old(store).wf(),
    ensures
        final(store).wf(),
        (final(store)@, r) == release_spec(old(store)@, ticket_id@, user_id@, now),
        final(store).call_count() == bumped(old(store).call_count()),
{
    let key = lock_key(ticket_id);
    let owner = String::from_str(user_id);
    if store.compare_and_delete(&key, &owner, now) {
        ReleaseOutcome::Released
    } else {
        ReleaseOutcome::NotHeldByCaller
    }
}

proof fn lemma_lock_key_of_resource(k: Seq<char>)
    requires
        is_lock_key(k),
    ensures
        key_of(resource_of(k)) == k,
{
    assert(key_of(resource_of(k)) =~= k);
}

proof fn lemma_ids_of(ks: Seq<Seq<char>>)
    ensures
        forall|id: Seq<char>| #[trigger] ids_of(ks).contains(id) <==> exists|j: int|
            0 <= j < ks.len() && is_lock_key(ks[j]) && resource_of(ks[j]) == id,
        ks.no_duplicates() ==> ids_of(ks).no_duplicates(),
    decreases ks.len(),
{
    if ks.len() > 0 {
        let front = ks.drop_last();
        lemma_ids_of(front);
        let rest = ids_of(front);
        assert forall|id: Seq<char>| #[trigger] ids_of(ks).contains(id) <==> exists|j: int|
            0 <= j < ks.len() && is_lock_key(ks[j]) && resource_of(ks[j]) == id by {
            if ids_of(ks).contains(id) {
                if rest.contains(id) {
                    let j = choose|j: int| 0 <= j < front.len() && is_lock_key(front[j]) && resource_of(front[j]) == id;
                    assert(ks[j] == front[j]);
                } else {
                    assert(ks[ks.len() - 1] == ks.last());
                }
            }
            if exists|j: int| 0 <= j < ks.len() && is_lock_key(ks[j]) && resource_of(ks[j]) == id {
                let j = choose|j: int| 0 <= j < ks.len() && is_lock_key(ks[j]) && resource_of(ks[j]) == id;
                if j < ks.len() - 1 {
                    assert(front[j] == ks[j]);
                    assert(rest.contains(id));
                    if is_lock_key(ks.last()) {
                        assert(ids_of(ks) == rest.push(resource_of(ks.last())));
                        let a = choose|a: int| 0 <= a < rest.len() && rest[a] == id;
                        assert(ids_of(ks)[a] == id);
                    }
                } else {
                    assert(ids_of(ks) == rest.push(resource_of(ks.last())));
                    assert(ids_of(ks)[rest.len() as int] == id);
                }
            }
        }
        if ks.no_duplicates() && is_lock_key(ks.last()) {
            assert(front.no_duplicates()) by {
                assert forall|a: int, b: int| 0 <= a < front.len() && 0 <= b < front.len() && a != b implies front[a] != front[b] by {
                    assert(front[a] == ks[a]);
                    assert(front[b] == ks[b]);
                }
            }
            let last_id = resource_of(ks.last());
            if rest.contains(last_id) {
                let j = choose|j: int| 0 <= j < front.len() && is_lock_key(front[j]) && resource_of(front[j]) == last_id;
                lemma_lock_key_of_resource(front[j]);
                lemma_lock_key_of_resource(ks.last());
                assert(front[j] == ks[j]);
                assert(ks[j] == ks[ks.len() - 1]);
            }
            let all = rest.push(last_id);
            assert forall|a: int, b: int| 0 <= a < all.len() && 0 <= b < all.len() && a != b implies all[a] != all[b] by {
                if a < rest.len() && b < rest.len() {
                } else if a < rest.len() {
                    assert(rest.contains(all[a]));
                } else {
                    assert(rest.contains(all[b]));
                }
            }
        } else if ks.no_duplicates() {
            assert(front.no_duplicates()) by {
                assert forall|a: int, b: int| 0 <= a < front.len() && 0 <= b < front.len() && a != b implies front[a] != front[b] by {
                    assert(front[a] == ks[a]);
                    assert(front[b] == ks[b]);
                }
            }
        }
    }
}

/// The resources locked at `now`, each once. The listing is a snapshot: a
/// lock may end right after it is taken.
pub fn get_all_locked_tickets(store: &mut MemoryStore, now: u64) -> (r: Vec<String>)
    requires
        old(store).wf(),
    ensures
        final(store).wf(),
        final(store)@ == old(store)@,
        r@.map_values(|s: String| s@).to_set() == active_ids(old(store)@, now),
        r@.map_values(|s: String| s@).no_duplicates(),
        final(store).call_count() == bumped(old(store).call_count()),
{
    let keys = store.lock_keys(now);
    let ids = resource_ids_of_keys(&keys);
    proof {
        let ks = keys@.map_values(|s: String| s@);
        let rs = ids@.map_values(|s: String| s@);
        lemma_ids_of(ks);
        assert forall|id: Seq<char>| rs.to_set().contains(id) <==> active_ids(store@, now).contains(id) by {
            if rs.to_set().contains(id) {
                assert(rs.contains(id));
                let j = choose|j: int| 0 <= j < ks.len() && is_lock_key(ks[j]) && resource_of(ks[j]) == id;
                assert(ks.to_set().contains(ks[j]));
                assert(live_lock_keys(store@, now).contains(ks[j]));
                lemma_lock_key_of_resource(ks[j]);
            }
            if active_ids(store@, now).contains(id) {
                crate::key::lemma_key_round_trip(id);
                assert(live_lock_keys(store@, now).contains(key_of(id)));
                assert(ks.to_set().contains(key_of(id)));
                let j = choose|j: int| 0 <= j < ks.len() && ks[j] == key_of(id);
                assert(rs.contains(id));
            }
        }
        assert(rs.to_set() =~= active_ids(store@, now));
    }
    ids
}

} // verus!
