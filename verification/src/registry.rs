//! The client registry: which addresses the relay knows, and when each was
//! last heard from.

use std::collections::HashMap;
use vstd::prelude::*;
use vstd::std_specs::iter::IteratorSpec;
use crate::address::Address;

verus! {

/// Nanoseconds in one second.
pub const NANOS_PER_SEC: u64 = 1_000_000_000;

/// How long ago, at `now`, an address last seen at `seen` was heard from.
/// An entry stamped after `now` has age zero.
pub open spec fn age(seen: u64, now: u64) -> nat {
    if now >= seen {
        (now - seen) as nat
    } else {
        0
    }
}

/// Whether an address last seen at `seen` has been silent, at `now`, for
/// longer than `timeout_secs` seconds.
pub open spec fn is_stale(seen: u64, now: u64, timeout_secs: u64) -> bool {
    age(seen, now) > timeout_secs * NANOS_PER_SEC
}

/// The entries of `clients` that a sweep at `now` keeps.
pub open spec fn retained(clients: Map<Address, u64>, now: u64, timeout_secs: u64) -> Map<
    Address,
    u64,
> {
    clients.restrict(Set::new(|a: Address| !is_stale(clients[a], now, timeout_secs)))
}

/// The entries of `clients` that a sweep at `now` removes.
pub open spec fn expired(clients: Map<Address, u64>, now: u64, timeout_secs: u64) -> Map<
    Address,
    u64,
> {
    clients.restrict(Set::new(|a: Address| is_stale(clients[a], now, timeout_secs)))
}

/// Whether `addresses` lists every address of `clients` exactly once.
pub open spec fn is_snapshot(addresses: Seq<Address>, clients: Map<Address, u64>) -> bool {
    &&& addresses.no_duplicates()
    &&& addresses.to_set() == clients.dom()
}

/// Liveness: an address that has been silent for longer than the timeout and
/// one sweep period is gone after the sweep at `tick`, whatever else the
/// registry holds.
pub proof fn lemma_silent_client_is_evicted(
    clients: Map<Address, u64>,
    address: Address,
    tick: u64,
    timeout_secs: u64,
    period_secs: u64,
)
    requires
        clients.contains_key(address),
        age(clients[address], tick) > (timeout_secs + period_secs) * NANOS_PER_SEC,
    ensures
        !retained(clients, tick, timeout_secs).contains_key(address),
        expired(clients, tick, timeout_secs).contains_key(address),
{
    assert(timeout_secs * NANOS_PER_SEC <= (timeout_secs + period_secs) * NANOS_PER_SEC)
        by (nonlinear_arith);
}

/// After a sweep the registry holds exactly the addresses that were heard
/// from within the timeout, each with the instant it was last seen at.
pub proof fn lemma_swept_registry_is_fresh(
    clients: Map<Address, u64>,
    address: Address,
    tick: u64,
    timeout_secs: u64,
)
    ensures
        retained(clients, tick, timeout_secs).contains_key(address) == (clients.contains_key(
            address,
        ) && age(clients[address], tick) <= timeout_secs * NANOS_PER_SEC),
        retained(clients, tick, timeout_secs).contains_key(address) ==> {
            &&& retained(clients, tick, timeout_secs)[address] == clients[address]
            &&& !is_stale(retained(clients, tick, timeout_secs)[address], tick, timeout_secs)
        },
        expired(clients, tick, timeout_secs).contains_key(address) == (clients.contains_key(
            address,
        ) && !retained(clients, tick, timeout_secs).contains_key(address)),
{
}

/// A list of the registered addresses names each of them exactly once and no
/// other address at all.
pub proof fn lemma_snapshot_lists_each_once(
    addresses: Seq<Address>,
    clients: Map<Address, u64>,
    address: Address,
)
    requires
        is_snapshot(addresses, clients),
    ensures
        addresses.to_multiset().count(address) == if clients.contains_key(address) {
            1nat
        } else {
            0nat
        },
{
    addresses.lemma_multiset_has_no_duplicates();
    addresses.to_multiset_ensures();
    assert(addresses.to_set().contains(address) == clients.contains_key(address));
}

/// Decides staleness as `is_stale` defines it.
pub fn has_expired(seen: u64, now: u64, timeout_secs: u64) -> (stale: bool)
    ensures
        stale == is_stale(seen, now, timeout_secs),
{
    if now <= seen {
        false
    } else {
        let silent: u128 = (now - seen) as u128;
        assert(timeout_secs * NANOS_PER_SEC <= u64::MAX * NANOS_PER_SEC) by (nonlinear_arith);
        let limit: u128 = (timeout_secs as u128) * (NANOS_PER_SEC as u128);
        silent > limit
    }
}

/// The registered addresses, each with the instant (in nanoseconds on the
/// relay's monotonic clock) at which it was last heard from.
pub struct ClientRegistry {
    clients: HashMap<u64, u64>,
}

/// A map keyed by address keys, read as a map keyed by addresses.
spec fn by_address(stored: Map<u64, u64>) -> Map<Address, u64> {
    Map::new(
        |a: Address| stored.contains_key(a.spec_key()),
        |a: Address| stored[a.spec_key()],
    )
}

/// Whether every key of `stored` is the key of an address.
spec fn all_keys_valid(stored: Map<u64, u64>) -> bool {
    forall|k: u64| #[trigger] stored.contains_key(k) ==> Address::is_key(k)
}

impl View for ClientRegistry {
    type V = Map<Address, u64>;

    closed spec fn view(&self) -> Map<Address, u64> {
        by_address(self.clients@)
    }
}

impl ClientRegistry {
    #[verifier::type_invariant]
    spec fn well_formed(self) -> bool {
        all_keys_valid(self.clients@)
    }

    /// An empty registry.
    pub fn new() -> (registry: ClientRegistry)
        ensures
            registry@ == Map::<Address, u64>::empty(),
    {
        let registry = ClientRegistry { clients: HashMap::new() };
        assert(registry@ =~= Map::<Address, u64>::empty());
        registry
    }

    /// Records that `address` was heard from at `now`, and says whether it
    /// was absent before.
    pub fn upsert(&mut self, address: Address, now: u64) -> (is_new: bool)
        ensures
            final(self)@ == old(self)@.insert(address, now),
            is_new == !old(self)@.contains_key(address),
            final(self)@.contains_key(address),
    {
        broadcast use vstd::std_specs::hash::group_hash_axioms;
        proof {
            use_type_invariant(&*self);
        }
        let key = address.key();
        let mut clients: HashMap<u64, u64> = HashMap::new();
        std::mem::swap(&mut self.clients, &mut clients);
        let previous = clients.insert(key, now);
        proof {
            lemma_by_address_insert(old(self).clients@, address, now);
        }
        self.clients = clients;
        previous.is_none()
    }

    /// Removes every address that has been silent, at `now`, for longer than
    /// `timeout_secs` seconds, and returns the removed addresses, each once.
    pub fn sweep(&mut self, now: u64, timeout_secs: u64) -> (evicted: Vec<Address>)
        ensures
            final(self)@ == retained(old(self)@, now, timeout_secs),
            is_snapshot(evicted@, expired(old(self)@, now, timeout_secs)),
    {
        proof {
            use_type_invariant(&*self);
        }
        let ghost before = self.clients@;
        let mut clients: HashMap<u64, u64> = HashMap::new();
        std::mem::swap(&mut self.clients, &mut clients);
        let removed = remove_stale(&mut clients, now, timeout_secs);
        assert forall|j: int| 0 <= j < removed@.len() implies Address::is_key(
            #[trigger] removed@[j],
        ) by {
            assert(removed@.to_set().contains(removed@[j]));
        }
        let evicted = addresses_of(&removed);
        proof {
            lemma_listed_by_key(removed@, evicted@);
            assert(by_address(clients@) =~= retained(by_address(before), now, timeout_secs));
            assert(by_address(stale_part(before, now, timeout_secs)).dom() =~= expired(
                by_address(before),
                now,
                timeout_secs,
            ).dom());
        }
        self.clients = clients;
        evicted
    }

    /// The registered addresses at this moment, each once, in no particular
    /// order.
    pub fn snapshot(&self) -> (addresses: Vec<Address>)
        ensures
            is_snapshot(addresses@, self@),
    {
        proof {
            use_type_invariant(self);
        }
        let keys = stored_keys(&self.clients);
        assert forall|j: int| 0 <= j < keys@.len() implies Address::is_key(#[trigger] keys@[j]) by {
            assert(keys@.to_set().contains(keys@[j]));
        }
        let addresses = addresses_of(&keys);
        proof {
            lemma_listed_by_key(keys@, addresses@);
            assert(addresses@.to_set() =~= self@.dom());
        }
        addresses
    }

    /// Whether `address` is registered.
    pub fn contains(&self, address: Address) -> (present: bool)
        ensures
            present == self@.contains_key(address),
    {
        broadcast use vstd::std_specs::hash::group_hash_axioms;
        let key = address.key();
        self.clients.contains_key(&key)
    }

    /// When `address` was last heard from, if it is registered.
    pub fn last_seen(&self, address: Address) -> (seen: Option<u64>)
        ensures
            seen == (if self@.contains_key(address) {
                Some(self@[address])
            } else {
                None
            }),
    {
        broadcast use vstd::std_specs::hash::group_hash_axioms;
        let key = address.key();
        match self.clients.get(&key) {
            Some(seen) => Some(*seen),
            None => None,
        }
    }

    /// How many addresses are registered.
    pub fn len(&self) -> (count: usize)
        ensures
            self@.dom().finite(),
            count == self@.len(),
    {
        broadcast use vstd::std_specs::hash::group_hash_axioms;
        proof {
            use_type_invariant(self);
            lemma_by_address_len(self.clients@);
        }
        self.clients.len()
    }

    /// Whether no address is registered.
    pub fn is_empty(&self) -> (empty: bool)
        ensures
            empty == (self@ == Map::<Address, u64>::empty()),
    {
        broadcast use vstd::std_specs::hash::group_hash_axioms;
        proof {
            use_type_invariant(self);
            if self.clients@.is_empty() {
                assert(self@ =~= Map::<Address, u64>::empty());
            } else {
                let k = choose|k: u64| self.clients@.contains_key(k);
                assert(self@.contains_key(Address::spec_from_key(k)));
            }
        }
        self.clients.is_empty()
    }
}

/// The entries of `stored` that are stale at `now`.
spec fn stale_part(stored: Map<u64, u64>, now: u64, timeout_secs: u64) -> Map<u64, u64> {
    stored.restrict(Set::new(|k: u64| is_stale(stored[k], now, timeout_secs)))
}

/// What is left of `stored` once every stale entry whose key is in `done` has
/// been removed.
spec fn pruned(stored: Map<u64, u64>, done: Set<u64>, now: u64, timeout_secs: u64) -> Map<
    u64,
    u64,
> {
    stored.restrict(
        Set::new(|k: u64| !(done.contains(k) && is_stale(stored[k], now, timeout_secs))),
    )
}

/// The keys of `map`, each once, in the order the map yields them.
fn stored_keys(map: &HashMap<u64, u64>) -> (keys: Vec<u64>)
    ensures
        keys@.no_duplicates(),
        keys@.to_set() == map@.dom(),
{
    broadcast use vstd::std_specs::hash::group_hash_axioms;
    let ghost order: Seq<u64> = map.keys().remaining().unref();
    let mut keys: Vec<u64> = Vec::new();
    for key in it: map.keys()
        invariant
            it.seq().unref() == order,
            keys@ == order.take(it.index()),
    {
        assert(order.take(it.index() + 1) =~= order.take(it.index()).push(*key));
        keys.push(*key);
    }
    assert(keys@ =~= order);
    assert(order.no_duplicates()) by {
        let refs = map.keys().remaining();
        assert forall|i: int, j: int| 0 <= i < order.len() && 0 <= j < order.len() && i != j
            implies order[i] != order[j] by {
            assert(refs[i] != refs[j]);
        }
    }
    keys
}

/// Removes the entries of `map` that are stale at `now`, and returns their
/// keys, each once.
fn remove_stale(map: &mut HashMap<u64, u64>, now: u64, timeout_secs: u64) -> (removed: Vec<u64>)
    ensures
        final(map)@ == pruned(old(map)@, old(map)@.dom(), now, timeout_secs),
        removed@.no_duplicates(),
        removed@.to_set() == stale_part(old(map)@, now, timeout_secs).dom(),
{
    broadcast use vstd::std_specs::hash::group_hash_axioms;
    let ghost before = map@;
    let keys = stored_keys(map);
    let mut removed: Vec<u64> = Vec::new();
    let mut i: usize = 0;
    while i < keys.len()
        invariant
            0 <= i <= keys.len(),
            keys@.no_duplicates(),
            keys@.to_set() == before.dom(),
            map@ == pruned(before, keys@.take(i as int).to_set(), now, timeout_secs),
            removed@.no_duplicates(),
            removed@.to_set() == stale_part(before, now, timeout_secs).dom().intersect(
                keys@.take(i as int).to_set(),
            ),
        decreases keys.len() - i,
    {
        let key = keys[i];
        let ghost done = keys@.take(i as int);
        proof {
            assert(keys@.to_set().contains(key));
            assert(!done.to_set().contains(key));
            assert(keys@.take(i + 1) =~= done.push(key));
            done.lemma_push_to_set_commute(key);
        }
        let seen = map.get(&key);
        assert(seen.is_some());
        if has_expired(*seen.unwrap(), now, timeout_secs) {
            map.remove(&key);
            proof {
                assert(!removed@.to_set().contains(key));
                removed@.lemma_push_to_set_commute(key);
            }
            removed.push(key);
        }
        proof {
            assert(map@ =~= pruned(before, done.push(key).to_set(), now, timeout_secs));
            assert(removed@.to_set() =~= stale_part(before, now, timeout_secs).dom().intersect(
                done.push(key).to_set(),
            ));
        }
        i += 1;
    }
    proof {
        assert(keys@.take(keys.len() as int) =~= keys@);
        assert(removed@.to_set() =~= stale_part(before, now, timeout_secs).dom());
    }
    removed
}

/// The addresses stored under `keys`, in the same order.
fn addresses_of(keys: &Vec<u64>) -> (addresses: Vec<Address>)
    requires
        forall|j: int| 0 <= j < keys@.len() ==> Address::is_key(#[trigger] keys@[j]),
    ensures
        addresses@.len() == keys@.len(),
        forall|j: int|
            0 <= j < keys@.len() ==> (#[trigger] addresses@[j]).spec_key() == keys@[j],
{
    let mut addresses: Vec<Address> = Vec::new();
    let mut i: usize = 0;
    while i < keys.len()
        invariant
            0 <= i <= keys.len(),
            forall|j: int| 0 <= j < keys@.len() ==> Address::is_key(#[trigger] keys@[j]),
            addresses@.len() == i,
            forall|j: int| 0 <= j < i ==> (#[trigger] addresses@[j]).spec_key() == keys@[j],
        decreases keys.len() - i,
    {
        let address = Address::from_key(keys[i]);
        addresses.push(address.unwrap());
        i += 1;
    }
    addresses
}

/// A list of addresses that follows a list of keys without duplicates has
/// none either, and holds the addresses of exactly those keys.
proof fn lemma_listed_by_key(keys: Seq<u64>, addresses: Seq<Address>)
    requires
        keys.no_duplicates(),
        addresses.len() == keys.len(),
        forall|j: int| 0 <= j < keys.len() ==> (#[trigger] addresses[j]).spec_key() == keys[j],
    ensures
        addresses.no_duplicates(),
        addresses.to_set() == Set::new(|a: Address| keys.to_set().contains(a.spec_key())),
{
    assert forall|i: int, j: int|
        0 <= i < addresses.len() && 0 <= j < addresses.len() && i != j implies addresses[i]
        != addresses[j] by {
        assert(addresses[i].spec_key() == keys[i]);
        assert(addresses[j].spec_key() == keys[j]);
    }
    assert forall|a: Address|
        addresses.to_set().contains(a) <==> keys.to_set().contains(a.spec_key()) by {
        if addresses.to_set().contains(a) {
            let j = choose|j: int| 0 <= j < addresses.len() && addresses[j] == a;
            assert(keys[j] == a.spec_key());
        }
        if keys.to_set().contains(a.spec_key()) {
            let j = choose|j: int| 0 <= j < keys.len() && keys[j] == a.spec_key();
            assert(addresses[j].spec_key() == a.spec_key());
            assert(addresses[j] == a);
        }
    }
    assert(addresses.to_set() =~= Set::new(|a: Address| keys.to_set().contains(a.spec_key())));
}

/// Storing `now` under the key of `address` is inserting `address`.
proof fn lemma_by_address_insert(stored: Map<u64, u64>, address: Address, now: u64)
    ensures
        by_address(stored.insert(address.spec_key(), now)) == by_address(stored).insert(
            address,
            now,
        ),
        by_address(stored).contains_key(address) == stored.contains_key(address.spec_key()),
        all_keys_valid(stored) ==> all_keys_valid(stored.insert(address.spec_key(), now)),
{
    assert(by_address(stored.insert(address.spec_key(), now)) =~= by_address(stored).insert(
        address,
        now,
    ));
}

/// With valid keys, as many addresses are registered as keys are stored.
proof fn lemma_by_address_len(stored: Map<u64, u64>)
    requires
        stored.dom().finite(),
        all_keys_valid(stored),
    ensures
        by_address(stored).dom().finite(),
        by_address(stored).dom().len() == stored.dom().len(),
{
    let to_address = |k: u64| Address::spec_from_key(k);
    assert(vstd::relations::injective_on(to_address, stored.dom())) by {
        assert forall|x: u64, y: u64|
            stored.dom().contains(x) && stored.dom().contains(y) && #[trigger] to_address(x)
                == #[trigger] to_address(y) implies x == y by {
            assert(Address::is_key(x) && Address::is_key(y));
        }
    }
    assert(stored.dom().map(to_address) =~= by_address(stored).dom()) by {
        assert forall|a: Address|
            stored.dom().map(to_address).contains(a) <==> by_address(stored).dom().contains(
                a,
            ) by {
            if by_address(stored).dom().contains(a) {
                assert(stored.dom().contains(a.spec_key()));
                assert(to_address(a.spec_key()) == a);
            }
        }
    }
    vstd::set_lib::lemma_map_size(stored.dom(), by_address(stored).dom(), to_address);
}

} // verus!
