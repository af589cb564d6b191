use ticket_lock::config::{to_decimal, RedisConfig, RedisConnectionError};
use ticket_lock::key::{lock_key, lock_key_pattern, resource_id_of_key, resource_ids_of_keys};
use ticket_lock::manager::{
    acquire_plan, acquire_result, check_ticket_lock, get_all_locked_tickets, inspect_result,
    list_result, lock_ticket, release_result, release_ticket,
};
use ticket_lock::model::{
    AcquireOutcome, InspectOutcome, LockError, ReleaseOutcome, StoredValue, TicketLockData,
};
use ticket_lock::response::{check_response, list_response, lock_response, release_response};
use ticket_lock::store::MemoryStore;

fn acquired(r: &Result<AcquireOutcome, LockError>) -> bool {
    matches!(r, Ok(AcquireOutcome::Acquired))
}

fn already_locked(r: &Result<AcquireOutcome, LockError>) -> bool {
    matches!(r, Ok(AcquireOutcome::AlreadyLocked))
}

#[test]
fn only_one_of_many_contenders_acquires() {
    let mut store = MemoryStore::new();
    let owners = ["alice", "bob", "carol", "dave"];
    let mut wins = 0;
    let mut losses = 0;
    for owner in owners.iter() {
        let r = lock_ticket(&mut store, "T-1", owner, 30, 1000);
        if acquired(&r) {
            wins += 1;
        } else if already_locked(&r) {
            losses += 1;
        }
    }
    assert_eq!(wins, 1);
    assert_eq!(losses, 3);
}

#[test]
fn same_owner_cannot_acquire_twice() {
    let mut store = MemoryStore::new();
    assert!(acquired(&lock_ticket(&mut store, "T-1", "alice", 30, 1000)));
    assert!(already_locked(&lock_ticket(&mut store, "T-1", "alice", 30, 1001)));
}

#[test]
fn release_by_other_owner_keeps_lock() {
    let mut store = MemoryStore::new();
    assert!(acquired(&lock_ticket(&mut store, "T-1", "alice", 30, 1000)));
    let r = release_ticket(&mut store, "T-1", "mallory", 1001);
    assert_eq!(r, ReleaseOutcome::NotHeldByCaller);
    match check_ticket_lock(&mut store, "T-1", 1002) {
        InspectOutcome::Locked(d) => {
            assert_eq!(d.user_id, "alice");
            assert_eq!(d.locked_at, 1000);
        },
        InspectOutcome::Available => panic!("lock lost"),
    }
}

#[test]
fn release_of_free_ticket_is_not_held() {
    let mut store = MemoryStore::new();
    assert_eq!(release_ticket(&mut store, "T-9", "alice", 5), ReleaseOutcome::NotHeldByCaller);
    assert!(acquired(&lock_ticket(&mut store, "T-9", "alice", 30, 5)));
    assert_eq!(release_ticket(&mut store, "T-9", "alice", 6), ReleaseOutcome::Released);
    assert_eq!(release_ticket(&mut store, "T-9", "alice", 7), ReleaseOutcome::NotHeldByCaller);
}

#[test]
fn expired_lock_can_be_taken_by_another() {
    let mut store = MemoryStore::new();
    assert!(acquired(&lock_ticket(&mut store, "T-2", "alice", 1, 1000)));
    assert!(already_locked(&lock_ticket(&mut store, "T-2", "bob", 30, 1000)));
    assert_eq!(get_all_locked_tickets(&mut store, 1000), vec!["T-2".to_string()]);
    assert!(get_all_locked_tickets(&mut store, 1001).is_empty());
    assert!(acquired(&lock_ticket(&mut store, "T-2", "bob", 30, 1001)));
    match check_ticket_lock(&mut store, "T-2", 1002) {
        InspectOutcome::Locked(d) => assert_eq!(d.user_id, "bob"),
        InspectOutcome::Available => panic!("lock missing"),
    }
}

#[test]
fn acquire_then_inspect_round_trip() {
    let mut store = MemoryStore::new();
    assert!(acquired(&lock_ticket(&mut store, "R", "U", 30, 1_700_000_000)));
    match check_ticket_lock(&mut store, "R", 1_700_000_001) {
        InspectOutcome::Locked(d) => {
            assert_eq!(d.user_id, "U");
            assert_eq!(d.locked_at, 1_700_000_000);
        },
        InspectOutcome::Available => panic!("lock missing"),
    }
    assert!(matches!(check_ticket_lock(&mut store, "R", 1_700_000_030), InspectOutcome::Available));
}

#[test]
fn listing_after_release_holds_only_the_other() {
    let mut store = MemoryStore::new();
    assert!(acquired(&lock_ticket(&mut store, "R1", "u1", 30, 10)));
    assert!(acquired(&lock_ticket(&mut store, "R2", "u2", 30, 10)));
    assert_eq!(release_ticket(&mut store, "R1", "u1", 11), ReleaseOutcome::Released);
    assert_eq!(get_all_locked_tickets(&mut store, 12), vec!["R2".to_string()]);
}

#[test]
fn zero_duration_is_refused_without_store_call() {
    let mut store = MemoryStore::new();
    let before = store.calls();
    let r = lock_ticket(&mut store, "T-3", "alice", 0, 1000);
    assert!(matches!(r, Err(LockError::InvalidDuration)));
    assert_eq!(store.calls(), before);
    assert!(matches!(check_ticket_lock(&mut store, "T-3", 1000), InspectOutcome::Available));
    assert_eq!(store.calls(), before + 1);
}

#[test]
fn contenders_with_different_lifetimes_and_clocks() {
    let mut store = MemoryStore::new();
    assert!(acquired(&lock_ticket(&mut store, "T-5", "alice", 10, 100)));
    assert!(already_locked(&lock_ticket(&mut store, "T-5", "bob", 1, 104)));
    assert!(already_locked(&lock_ticket(&mut store, "T-5", "carol", 50, 109)));
    match check_ticket_lock(&mut store, "T-5", 109) {
        InspectOutcome::Locked(d) => {
            assert_eq!(d.user_id, "alice");
            assert_eq!(d.locked_at, 100);
        },
        InspectOutcome::Available => panic!("lock lost"),
    }
}

#[test]
fn each_operation_is_one_store_call() {
    let mut store = MemoryStore::new();
    assert!(acquired(&lock_ticket(&mut store, "T-6", "alice", 30, 1)));
    assert_eq!(store.calls(), 1);
    let _ = check_ticket_lock(&mut store, "T-6", 2);
    assert_eq!(store.calls(), 2);
    assert_eq!(release_ticket(&mut store, "T-6", "alice", 3), ReleaseOutcome::Released);
    assert_eq!(store.calls(), 3);
    assert!(get_all_locked_tickets(&mut store, 4).is_empty());
    assert_eq!(store.calls(), 4);
}

#[test]
fn key_pattern_covers_namespace() {
    assert_eq!(lock_key_pattern(), "ticket_lock:*");
}

#[test]
fn lock_key_is_namespaced() {
    assert_eq!(lock_key("abc"), "ticket_lock:abc");
    assert_eq!(lock_key(""), "ticket_lock:");
}

#[test]
fn resource_id_is_stripped_from_key() {
    assert_eq!(resource_id_of_key("ticket_lock:abc"), Some("abc".to_string()));
    assert_eq!(resource_id_of_key("ticket_lock:ticket_lock:x"), Some("ticket_lock:x".to_string()));
    assert_eq!(resource_id_of_key("other:abc"), None);
    assert_eq!(resource_id_of_key("ticket"), None);
}

#[test]
fn resource_ids_skip_foreign_keys() {
    let keys = vec!["ticket_lock:a".to_string(), "session:b".to_string(), "ticket_lock:c".to_string()];
    assert_eq!(resource_ids_of_keys(&keys), vec!["a".to_string(), "c".to_string()]);
}

#[test]
fn acquire_plan_builds_record() {
    let p = acquire_plan("T-4", "alice", 45, 77).ok().unwrap();
    assert_eq!(p.key, "ticket_lock:T-4");
    assert_eq!(p.record.user_id, "alice");
    assert_eq!(p.record.locked_at, 77);
    assert_eq!(p.ttl, 45);
    assert!(matches!(acquire_plan("T-4", "alice", 0, 77), Err(LockError::InvalidDuration)));
}

#[test]
fn store_replies_are_read() {
    assert!(matches!(acquire_result(Ok(true)), Ok(AcquireOutcome::Acquired)));
    assert!(matches!(acquire_result(Ok(false)), Ok(AcquireOutcome::AlreadyLocked)));
    assert!(matches!(acquire_result(Err("timeout".to_string())), Err(LockError::Store(m)) if m == "timeout"));
    assert!(matches!(release_result(Ok(true)), Ok(ReleaseOutcome::Released)));
    assert!(matches!(release_result(Ok(false)), Ok(ReleaseOutcome::NotHeldByCaller)));
    assert!(matches!(release_result(Err("down".to_string())), Err(LockError::Store(_))));
    assert!(matches!(inspect_result(Ok(StoredValue::Absent)), Ok(InspectOutcome::Available)));
    assert!(matches!(inspect_result(Ok(StoredValue::Unreadable)), Err(LockError::CorruptRecord)));
    assert!(matches!(inspect_result(Err("down".to_string())), Err(LockError::Store(_))));
    let rec = TicketLockData { user_id: "u".to_string(), locked_at: 3 };
    match inspect_result(Ok(StoredValue::Record(rec))) {
        Ok(InspectOutcome::Locked(d)) => assert_eq!((d.user_id.as_str(), d.locked_at), ("u", 3)),
        _ => panic!("record lost"),
    }
    let ids = list_result(Ok(vec!["ticket_lock:x".to_string(), "ticket_lock:y".to_string()]));
    assert_eq!(ids.ok().unwrap(), vec!["x".to_string(), "y".to_string()]);
    assert!(matches!(list_result(Err("down".to_string())), Err(LockError::Store(_))));
}

#[test]
fn responses_carry_messages() {
    let r = lock_response("T".to_string(), &Ok(AcquireOutcome::Acquired));
    assert_eq!(r.message, "Ticket locked successfully");
    assert_eq!(r.data, vec!["T".to_string()]);
    let r = lock_response("T".to_string(), &Ok(AcquireOutcome::AlreadyLocked));
    assert_eq!(r.message, "Failed to lock ticket");
    assert!(r.data.is_empty());
    let r = lock_response("T".to_string(), &Err(LockError::InvalidDuration));
    assert_eq!(r.message, "Invalid lock duration: it must be at least one second");
    assert!(r.data.is_empty());
    let r = lock_response("T".to_string(), &Err(LockError::Store("timeout".to_string())));
    assert_eq!(r.message, "Failed to reach the lock store");
    assert!(r.data.is_empty());

    let r = release_response("T".to_string(), &Ok(ReleaseOutcome::Released));
    assert_eq!(r.message, "Ticket released");
    assert_eq!(r.data, vec!["T".to_string()]);
    let r = release_response("T".to_string(), &Ok(ReleaseOutcome::NotHeldByCaller));
    assert_eq!(r.message, "Ticket isn't locked or failed to release ticket");
    assert_eq!(r.data, vec!["T".to_string()]);
    let r = release_response("T".to_string(), &Err(LockError::Store("down".to_string())));
    assert_eq!(r.message, "Failed to reach the lock store");
    assert_eq!(r.data, vec!["T".to_string()]);

    let rec = TicketLockData { user_id: "u".to_string(), locked_at: 9 };
    let r = check_response(Ok(InspectOutcome::Locked(rec)));
    assert_eq!(r.message, "Ticket is locked");
    assert_eq!(r.data.len(), 1);
    assert_eq!(r.data[0].user_id, "u");
    let r = check_response(Ok(InspectOutcome::Available));
    assert_eq!(r.message, "Ticket is available");
    assert!(r.data.is_empty());
    let r = check_response(Err(LockError::CorruptRecord));
    assert_eq!(r.message, "Failed to parse locked ticket data");
    let r = check_response(Err(LockError::Store("down".to_string())));
    assert_eq!(r.message, "Failed to check ticket lock");

    let r = list_response(Ok(vec!["a".to_string()]));
    assert_eq!(r.message, "Locked tickets retrieved");
    assert_eq!(r.data, vec!["a".to_string()]);
    let r = list_response(Err(LockError::Store("down".to_string())));
    assert_eq!(r.message, "Failed to retrieve locked tickets");
    assert!(r.data.is_empty());
}

#[test]
fn decimal_writing() {
    assert_eq!(to_decimal(0), "0");
    assert_eq!(to_decimal(7), "7");
    assert_eq!(to_decimal(6379), "6379");
    assert_eq!(to_decimal(18446744073709551615), "18446744073709551615");
}

#[test]
fn redis_url_falls_back_to_default() {
    let config = RedisConfig::default();
    assert_eq!(config.default_port(), 6379);
    assert_eq!(config.fallback_url(), "redis://localhost:6379");
    assert_eq!(config.redis_url(None), "redis://localhost:6379");
    assert_eq!(config.redis_url(Some("redis://db:1".to_string())), "redis://db:1");
}

#[test]
fn connection_error_messages() {
    assert_eq!(
        RedisConnectionError::EnvVarError.message(),
        "Environment variable REDIS_URL is not set or invalid"
    );
    assert_eq!(
        RedisConnectionError::ClientCreationError("bad url".to_string()).message(),
        "Failed to create Redis client: bad url"
    );
    assert_eq!(
        RedisConnectionError::ConnectionError("refused".to_string()).message(),
        "Failed to connect to Redis server: refused"
    );
    assert_eq!(
        RedisConnectionError::ServerNotResponding("no pong".to_string()).message(),
        "Redis server is not responding: no pong"
    );
}
