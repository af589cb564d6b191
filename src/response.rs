use vstd::prelude::*;
use vstd::string::*;

use crate::model::{
    AcquireOutcome, InspectOutcome, LockError, LockedTicketResponse, ReleaseOutcome,
    TicketLockData,
};

verus! {

/// The answer to a lock request: the ticket id when the lock was taken,
/// nothing otherwise. Contention, a refused duration and a failed store call
/// each have their own message.
pub fn lock_response(ticket_id: String, result: &Result<AcquireOutcome, LockError>) -> (r:
    LockedTicketResponse<String>)
    ensures
        *result == Ok::<AcquireOutcome, LockError>(AcquireOutcome::Acquired) ==> r.message@
            == "Ticket locked successfully"@ && r.data@ == seq![ticket_id],
        *result == Ok::<AcquireOutcome, LockError>(AcquireOutcome::AlreadyLocked) ==> r.message@
            == "Failed to lock ticket"@ && r.data@.len() == 0,
        result matches Err(LockError::InvalidDuration) ==> r.message@
            == "Invalid lock duration: it must be at least one second"@ && r.data@.len() == 0,
        result matches Err(e) && !(e is InvalidDuration) ==> r.message@
            == "Failed to reach the lock store"@ && r.data@.len() == 0,
{
    match result {
        Ok(AcquireOutcome::Acquired) => {
            let mut data: Vec<String> = Vec::new();
            data.push(ticket_id);
            proof {
                assert(data@ =~= seq![ticket_id]);
            }
            LockedTicketResponse { message: String::from_str("Ticket locked successfully"), data }
        },
        Ok(AcquireOutcome::AlreadyLocked) => LockedTicketResponse {
            message: String::from_str("Failed to lock ticket"),
            data: Vec::new(),
        },
        Err(LockError::InvalidDuration) => LockedTicketResponse {
            message: String::from_str("Invalid lock duration: it must be at least one second"),
            data: Vec::new(),
        },
        Err(_) => LockedTicketResponse {
            message: String::from_str("Failed to reach the lock store"),
            data: Vec::new(),
        },
    }
}

/// The answer to a check: the lock record when the ticket is locked; a
/// record that cannot be read and a failed store call each have their own
/// message, apart from a free ticket.
pub fn check_response(result: Result<InspectOutcome, LockError>) -> (r: LockedTicketResponse<
    TicketLockData,
>)
    ensures
        result matches Ok(InspectOutcome::Locked(d)) ==> r.message@ == "Ticket is locked"@
            && r.data@.len() == 1 && r.data@[0]@ == d@,
        result matches Ok(InspectOutcome::Available) ==> r.message@ == "Ticket is available"@
            && r.data@.len() == 0,
        result matches Err(LockError::CorruptRecord) ==> r.message@
            == "Failed to parse locked ticket data"@ && r.data@.len() == 0,
        result matches Err(e) && !(e is CorruptRecord) ==> r.message@
            == "Failed to check ticket lock"@ && r.data@.len() == 0,
{
    match result {
        Ok(InspectOutcome::Locked(d)) => {
            let mut data: Vec<TicketLockData> = Vec::new();
            data.push(d);
            LockedTicketResponse { message: String::from_str("Ticket is locked"), data }
        },
        Ok(InspectOutcome::Available) => LockedTicketResponse {
            message: String::from_str("Ticket is available"),
            data: Vec::new(),
        },
        Err(LockError::CorruptRecord) => LockedTicketResponse {
            message: String::from_str("Failed to parse locked ticket data"),
            data: Vec::new(),
        },
        Err(_) => LockedTicketResponse {
            message: String::from_str("Failed to check ticket lock"),
            data: Vec::new(),
        },
    }
}

/// The answer to a release: the ticket id in every case, with a message
/// that says whether the lock was given up, or that the store failed.
pub fn release_response(ticket_id: String, result: &Result<ReleaseOutcome, LockError>) -> (r:
    LockedTicketResponse<String>)
    ensures
        r.data@ == seq![ticket_id],
        *result == Ok::<ReleaseOutcome, LockError>(ReleaseOutcome::Released) ==> r.message@
            == "Ticket released"@,
        *result == Ok::<ReleaseOutcome, LockError>(ReleaseOutcome::NotHeldByCaller) ==> r.message@
            == "Ticket isn't locked or failed to release ticket"@,
        result is Err ==> r.message@ == "Failed to reach the lock store"@,
{
    let mut data: Vec<String> = Vec::new();
    data.push(ticket_id);
    proof {
        assert(data@ =~= seq![ticket_id]);
    }
    match result {
        Ok(ReleaseOutcome::Released) => LockedTicketResponse {
            message: String::from_str("Ticket released"),
            data,
        },
        Ok(ReleaseOutcome::NotHeldByCaller) => LockedTicketResponse {
            message: String::from_str("Ticket isn't locked or failed to release ticket"),
            data,
        },
        Err(_) => LockedTicketResponse {
            message: String::from_str("Failed to reach the lock store"),
            data,
        },
    }
}

/// The answer to a listing: the locked ticket ids, or nothing when the
/// store could not be read.
pub fn list_response(result: Result<Vec<String>, LockError>) -> (r: LockedTicketResponse<String>)
    ensures
        result matches Ok(ids) ==> r.message@ == "Locked tickets retrieved"@ && r.data@ == ids@,
        result is Err ==> r.message@ == "Failed to retrieve locked tickets"@ && r.data@.len() == 0,
{
    match result {
        Ok(ids) => LockedTicketResponse {
            message: String::from_str("Locked tickets retrieved"),
            data: ids,
        },
        Err(_) => LockedTicketResponse {
            message: String::from_str("Failed to retrieve locked tickets"),
            data: Vec::new(),
        },
    }
}

} // verus!
