use vstd::prelude::*;
use vstd::string::*;

verus! {

/// Namespace under which every lock record is stored.
pub open spec fn key_prefix() -> Seq<char> {
    seq!['t', 'i', 'c', 'k', 'e', 't', '_', 'l', 'o', 'c', 'k', ':']
}

/// The store key of the lock on `resource_id`.
pub open spec fn key_of(resource_id: Seq<char>) -> Seq<char> {
    key_prefix() + resource_id
}

/// Whether `key` lies in the lock namespace.
pub open spec fn is_lock_key(key: Seq<char>) -> bool {
    key.len() >= key_prefix().len() && key.subrange(0, key_prefix().len() as int) == key_prefix()
}

/// The resource id that a key of the lock namespace stands for.
pub open spec fn resource_of(key: Seq<char>) -> Seq<char> {
    key.subrange(key_prefix().len() as int, key.len() as int)
}

/// A key names the resource it was built from.
pub proof fn lemma_key_round_trip(resource_id: Seq<char>)
    ensures
        is_lock_key(key_of(resource_id)),
        resource_of(key_of(resource_id)) == resource_id,
{
    assert(key_of(resource_id).subrange(0, key_prefix().len() as int) =~= key_prefix());
    assert(resource_of(key_of(resource_id)) =~= resource_id);
}

/// Distinct resources never share a key.
pub proof fn lemma_key_injective(a: Seq<char>, b: Seq<char>)
    ensures
        key_of(a) == key_of(b) <==> a == b,
{
    lemma_key_round_trip(a);
    lemma_key_round_trip(b);
}

/// Builds the store key of the lock on `resource_id`.
pub fn lock_key(resource_id: &str) -> (r: String)
    ensures
        r@ == key_of(resource_id@),
{
    let prefix = "ticket_lock:";
    proof {
        reveal_strlit("ticket_lock:");
        assert(prefix@ =~= key_prefix());
    }
    let r = String::from_str(prefix);
    r.concat(resource_id)
}

/// The pattern that matches every key of the lock namespace: the prefix
/// followed by a wildcard.
pub fn lock_key_pattern() -> (r: String)
    ensures
        r@ == key_prefix().push('*'),
{
    let pattern = "ticket_lock:*";
    proof {
        reveal_strlit("ticket_lock:*");
        assert(pattern@ =~= key_prefix().push('*'));
    }
    String::from_str(pattern)
}

/// The resource id named by `key`, or `None` when `key` lies outside the
/// lock namespace.
pub fn resource_id_of_key(key: &str) -> (r: Option<String>)
    ensures
        r is Some <==> is_lock_key(key@),
        r matches Some(id) ==> id@ == resource_of(key@),
{
    let prefix = "ticket_lock:";
    proof {
        reveal_strlit("ticket_lock:");
        assert(prefix@ =~= key_prefix());
    }
    let n = prefix.unicode_len();
    let len = key.unicode_len();
    if len < n {
        return None;
    }
    let mut i: usize = 0;
    while i < n
        invariant
            n == key_prefix().len(),
            prefix@ == key_prefix(),
            len == key@.len(),
            n <= len,
            i <= n,
            forall|j: int| 0 <= j < i ==> key@[j] == key_prefix()[j],
        decreases n - i,
    {
        if key.get_char(i) != prefix.get_char(i) {
            proof {
                assert(key@.subrange(0, n as int)[i as int] != key_prefix()[i as int]);
            }
            return None;
        }
        i = i + 1;
    }
    proof {
        assert(key@.subrange(0, n as int) =~= key_prefix());
    }
    Some(String::from_str(key.substring_char(n, len)))
}

/// The resource ids named by the lock keys among `keys`, in their order;
/// keys outside the lock namespace are passed over.
pub fn resource_ids_of_keys(keys: &Vec<String>) -> (r: Vec<String>)
    ensures
        r@.map_values(|s: String| s@) == ids_of(keys@.map_values(|s: String| s@)),
{
    let mut r: Vec<String> = Vec::new();
    let mut i: usize = 0;
    while i < keys.len()
        invariant
            i <= keys.len(),
            r@.map_values(|s: String| s@) == ids_of(keys@.map_values(|s: String| s@).take(i as int)),
        decreases keys.len() - i,
    {
        let ghost ks = keys@.map_values(|s: String| s@);
        proof {
            assert(ks.take(i + 1).drop_last() =~= ks.take(i as int));
        }
        match resource_id_of_key(keys[i].as_str()) {
            Some(id) => {
                r.push(id);
                assert(r@.map_values(|s: String| s@) =~= ids_of(ks.take(i as int)).push(id@));
            },
            None => {},
        }
        i = i + 1;
    }
    assert(keys@.map_values(|s: String| s@).take(keys.len() as int) =~= keys@.map_values(|s: String| s@));
    r
}

/// The ids named by the lock keys of `keys`, in order.
pub open spec fn ids_of(keys: Seq<Seq<char>>) -> Seq<Seq<char>>
    decreases keys.len(),
{
    if keys.len() == 0 {
        seq![]
    } else {
        let rest = ids_of(keys.drop_last());
        if is_lock_key(keys.last()) {
            rest.push(resource_of(keys.last()))
        } else {
            rest
        }
    }
}

} // verus!
