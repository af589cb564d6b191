use vstd::prelude::*;

verus! {

/// What a lock record says: who holds the lock and since when.
pub struct LockRecord {
    pub owner: Seq<char>,
    pub locked_at: u64,
}

/// The record stored for a held lock.
pub struct TicketLockData {
    pub user_id: String,
    pub locked_at: u64,
}

impl View for TicketLockData {
    type V = LockRecord;

    open spec fn view(&self) -> LockRecord {
        LockRecord { owner: self.user_id@, locked_at: self.locked_at }
    }
}

impl TicketLockData {
    /// A copy with the same contents.
    pub fn duplicate(&self) -> (r: TicketLockData)
        ensures
            r@ == self@,
    {
        TicketLockData { user_id: self.user_id.clone(), locked_at: self.locked_at }
    }
}

/// A request to acquire the lock on `ticket_id` for `user_id` during
/// `duration` seconds.
pub struct LockTicketRequest {
    pub ticket_id: String,
    pub user_id: String,
    pub duration: u64,
}

/// A request by `user_id` to give up the lock on `ticket_id`.
pub struct ReleaseTicketRequest {
    pub ticket_id: String,
    pub user_id: String,
}

/// The envelope of every answer: a message and a list of payload items.
pub struct LockedTicketResponse<T> {
    pub message: String,
    pub data: Vec<T>,
}

/// Result of an acquire attempt that reached the store.
#[derive(PartialEq, Eq, Structural, Clone, Copy, Debug)]
pub enum AcquireOutcome {
    Acquired,
    AlreadyLocked,
}

/// Result of an inspection that reached the store.
pub enum InspectOutcome {
    Locked(TicketLockData),
    Available,
}

/// Result of a release attempt that reached the store.
#[derive(PartialEq, Eq, Structural, Clone, Copy, Debug)]
pub enum ReleaseOutcome {
    Released,
    NotHeldByCaller,
}

/// Failures of a lock operation, as opposed to contention, which is an
/// ordinary outcome.
#[derive(Debug)]
pub enum LockError {
    /// The requested lifetime is zero seconds.
    InvalidDuration,
    /// The value stored under a lock key is not a lock record.
    CorruptRecord,
    /// The store could not be reached or answered unexpectedly.
    Store(String),
}

/// What the store held under a lock key, as read back by a store client.
pub enum StoredValue {
    Absent,
    Record(TicketLockData),
    Unreadable,
}

} // verus!
