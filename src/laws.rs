use vstd::prelude::*;

use crate::key::{key_of, lemma_key_injective};
use crate::manager::{acquire_spec, active_ids, inspect_spec, record_of, release_spec};
use crate::model::{AcquireOutcome, LockError, LockRecord, ReleaseOutcome};
use crate::store::{is_live, StoreEntry, StoreModel};

verus! {

/// One acquire attempt: who asks, for how long, and the clock reading it
/// is made at.
pub struct Attempt {
    pub owner: Seq<char>,
    pub ttl: u64,
    pub now: u64,
}

/// The store and the answers after each of `attempts`, in the order in
/// which the store serialises them, asks for the lock on `id`.
pub open spec fn acquire_all(m: StoreModel, id: Seq<char>, attempts: Seq<Attempt>) -> (
    StoreModel,
    Seq<Result<AcquireOutcome, LockError>>,
)
    decreases attempts.len(),
{
    if attempts.len() == 0 {
        (m, seq![])
    } else {
        let (m1, outs) = acquire_all(m, id, attempts.drop_last());
        let a = attempts.last();
        let (m2, r) = acquire_spec(m1, id, a.owner, a.ttl, a.now);
        (m2, outs.push(r))
    }
}

/// Mutual exclusion: when several owners race for a free resource, each
/// with a lifetime of at least one second, the store serialises them; the
/// first to reach it acquires the lock and every other one is told
/// `AlreadyLocked`, as long as none comes after the winner's lock expired.
/// The stored record then names the winner.
pub proof fn lemma_mutual_exclusion(m: StoreModel, id: Seq<char>, attempts: Seq<Attempt>)
    requires
        attempts.len() > 0,
        forall|i: int| 0 <= i < attempts.len() ==> #[trigger] attempts[i].ttl > 0,
        !is_live(m, key_of(id), attempts[0].now),
        forall|i: int|
            0 < i < attempts.len() ==> (#[trigger] attempts[i].now as int) < attempts[0].now as int
                + attempts[0].ttl as int,
    ensures
        ({
            let (m2, outs) = acquire_all(m, id, attempts);
            &&& outs.len() == attempts.len()
            &&& forall|i: int|
                0 <= i < outs.len() ==> (#[trigger] outs[i] == (if i == 0 {
                    Ok::<AcquireOutcome, LockError>(AcquireOutcome::Acquired)
                } else {
                    Ok::<AcquireOutcome, LockError>(AcquireOutcome::AlreadyLocked)
                }))
            &&& m2 == m.insert(
                key_of(id),
                StoreEntry {
                    record: record_of(attempts[0].owner, attempts[0].now),
                    stored_at: attempts[0].now,
                    ttl: attempts[0].ttl,
                },
            )
        }),
    decreases attempts.len(),
{
    let front = attempts.drop_last();
    if front.len() == 0 {
        assert(acquire_all(m, id, front) == (m, Seq::<Result<AcquireOutcome, LockError>>::empty()));
        assert(attempts.last() == attempts[0]);
    } else {
        assert forall|i: int| 0 <= i < front.len() implies #[trigger] front[i].ttl > 0 by {
            assert(front[i] == attempts[i]);
        }
        assert forall|i: int| 0 < i < front.len() implies (#[trigger] front[i].now as int)
            < front[0].now as int + front[0].ttl as int by {
            assert(front[i] == attempts[i]);
        }
        assert(front[0] == attempts[0]);
        lemma_mutual_exclusion(m, id, front);
        let (m1, outs) = acquire_all(m, id, front);
        let a = attempts.last();
        assert(a == attempts[attempts.len() - 1]);
        assert(a.ttl > 0);
        assert(is_live(m1, key_of(id), a.now));
        let all = acquire_all(m, id, attempts).1;
        assert forall|i: int| 0 <= i < all.len() implies (#[trigger] all[i] == (if i == 0 {
            Ok::<AcquireOutcome, LockError>(AcquireOutcome::Acquired)
        } else {
            Ok::<AcquireOutcome, LockError>(AcquireOutcome::AlreadyLocked)
        })) by {
            if i < outs.len() {
                assert(all[i] == outs[i]);
            }
        }
    }
}

/// A release by anyone but the holder leaves the lock as it was: it is
/// still there, with its owner, for every later inspection.
pub proof fn lemma_release_needs_owner(
    m: StoreModel,
    id: Seq<char>,
    other: Seq<char>,
    now: u64,
    held: LockRecord,
)
    requires
        inspect_spec(m, id, now) == Some(held),
        held.owner != other,
    ensures
        release_spec(m, id, other, now) == (m, ReleaseOutcome::NotHeldByCaller),
        inspect_spec(release_spec(m, id, other, now).0, id, now) == Some(held),
{
}

/// Releasing a resource that no live lock holds, never acquired or already
/// released, changes nothing and answers `NotHeldByCaller`.
pub proof fn lemma_release_of_free_resource(
    m: StoreModel,
    id: Seq<char>,
    owner: Seq<char>,
    now: u64,
)
    requires
        inspect_spec(m, id, now) is None,
    ensures
        release_spec(m, id, owner, now) == (m, ReleaseOutcome::NotHeldByCaller),
{
}

/// A release by the holder ends the lock, and a second release of it is
/// told `NotHeldByCaller`.
pub proof fn lemma_release_twice(
    m: StoreModel,
    id: Seq<char>,
    owner: Seq<char>,
    now: u64,
)
    requires
        inspect_spec(m, id, now) matches Some(rec) && rec.owner == owner,
    ensures
        release_spec(m, id, owner, now).1 == ReleaseOutcome::Released,
        inspect_spec(release_spec(m, id, owner, now).0, id, now) is None,
        release_spec(release_spec(m, id, owner, now).0, id, owner, now).1
            == ReleaseOutcome::NotHeldByCaller,
{
}

/// A lock taken for one second at `t0` is gone from `t0 + 1` on: another
/// owner can then take it, and it is no longer listed.
pub proof fn lemma_expiry(
    m: StoreModel,
    id: Seq<char>,
    first: Seq<char>,
    second: Seq<char>,
    t0: u64,
    t1: u64,
    ttl: u64,
)
    requires
        acquire_spec(m, id, first, 1, t0).1 == Ok::<AcquireOutcome, LockError>(
            AcquireOutcome::Acquired,
        ),
        t1 >= t0 + 1,
        ttl > 0,
    ensures
        !active_ids(acquire_spec(m, id, first, 1, t0).0, t1).contains(id),
        acquire_spec(acquire_spec(m, id, first, 1, t0).0, id, second, ttl, t1).1 == Ok::<
            AcquireOutcome,
            LockError,
        >(AcquireOutcome::Acquired),
{
}

/// A lock acquired by `owner` at `now` for `ttl` seconds reads back, at any
/// time before it expires, as held by `owner` since `now`.
pub proof fn lemma_acquire_then_inspect(
    m: StoreModel,
    id: Seq<char>,
    owner: Seq<char>,
    ttl: u64,
    now: u64,
    later: u64,
)
    requires
        acquire_spec(m, id, owner, ttl, now).1 == Ok::<AcquireOutcome, LockError>(
            AcquireOutcome::Acquired,
        ),
        now <= later,
        (later as int) < now as int + ttl as int,
    ensures
        inspect_spec(acquire_spec(m, id, owner, ttl, now).0, id, later) == Some(
            record_of(owner, now),
        ),
{
}

/// With no lock live, acquiring `r1` and `r2` and then releasing `r1`
/// leaves exactly `r2` listed.
pub proof fn lemma_listing_after_release(
    m: StoreModel,
    r1: Seq<char>,
    r2: Seq<char>,
    u1: Seq<char>,
    u2: Seq<char>,
    ttl: u64,
    now: u64,
)
    requires
        active_ids(m, now).is_empty(),
        r1 != r2,
        ttl > 0,
    ensures
        ({
            let m1 = acquire_spec(m, r1, u1, ttl, now).0;
            let m2 = acquire_spec(m1, r2, u2, ttl, now).0;
            let m3 = release_spec(m2, r1, u1, now).0;
            active_ids(m3, now) == set![r2]
        }),
{
    let m1 = acquire_spec(m, r1, u1, ttl, now).0;
    let m2 = acquire_spec(m1, r2, u2, ttl, now).0;
    let m3 = release_spec(m2, r1, u1, now).0;
    lemma_key_injective(r1, r2);
    assert(!active_ids(m, now).contains(r1));
    assert(!active_ids(m, now).contains(r2));
    assert forall|x: Seq<char>| active_ids(m3, now).contains(x) <==> x == r2 by {
        lemma_key_injective(x, r1);
        lemma_key_injective(x, r2);
        if x != r1 && x != r2 {
            assert(!active_ids(m, now).contains(x));
        }
    }
    assert(active_ids(m3, now) =~= set![r2]);
}

} // verus!
