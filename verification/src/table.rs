//! Concurrent hash table used for every lookup structure of the server.
//!
//! A [`Table`] holds its entries in a `dashmap::DashMap` and carries the finite map that those
//! entries form as its view.

use vstd::prelude::*;

verus! {

/// `dashmap::DashMap`, kept opaque.
#[verifier::external_type_specification]
#[verifier::external_body]
#[verifier::reject_recursive_types(K)]
#[verifier::reject_recursive_types(V)]
#[verifier::reject_recursive_types(S)]
pub struct ExDashMap<K, V, S>(dashmap::DashMap<K, V, S>);

/// The most entries that a table is made ready for in advance. It can hold more.
pub const MAX_CAPACITY: usize = 10_000;

/// How many of `n` entries a table is made ready for in advance.
pub(crate) fn capacity_for(n: usize) -> (capacity: usize)
    ensures
        capacity == if n < MAX_CAPACITY {
            n
        } else {
            MAX_CAPACITY
        },
        capacity <= 10_000,
        n <= 10_000 ==> capacity == n,
{
    if n < MAX_CAPACITY {
        n
    } else {
        MAX_CAPACITY
    }
}

/// Keys of a [`Table`]: plain integers and tuples of them, whose equality and hash are those of
/// the standard library.
pub trait TableKey {

}

impl TableKey for u32 {

}

impl TableKey for i16 {

}

/// The kind of address and its bits.
impl TableKey for (u8, u128) {

}

/// A hash table from `K` to `V`.
#[verifier::reject_recursive_types(K)]
#[verifier::reject_recursive_types(V)]
pub struct Table<K: TableKey, V> {
    entries: dashmap::DashMap<K, V>,
    model: Ghost<Map<K, V>>,
}

impl<K: TableKey, V> View for Table<K, V> {
    type V = Map<K, V>;

    closed spec fn view(&self) -> Map<K, V> {
        self.model@
    }
}

impl<K: TableKey + Copy + Eq + core::hash::Hash, V> Table<K, V> {
    /// `DashMap::with_capacity`: a new table is empty.
    #[verifier::external_body]
    pub(crate) fn with_capacity(capacity: usize) -> (table: Self)
        requires
            capacity <= MAX_CAPACITY,
        ensures
            (table@ == Map::<K, V>::empty()),
    {
        Table { entries: dashmap::DashMap::with_capacity(capacity), model: Ghost(Map::empty()) }
    }

    /// `udp_relay_core::create_dashmap_with_capacity`: a new table, with as many shards as suit
    /// the processor, is empty.
    #[verifier::external_body]
    pub(crate) fn with_tuned_shards(capacity: usize) -> (table: Self)
        requires
            capacity <= MAX_CAPACITY,
        ensures
            (table@ == Map::<K, V>::empty()),
    {
        Table {
            entries: udp_relay_core::create_dashmap_with_capacity(capacity),
            model: Ghost(Map::empty()),
        }
    }

    /// `DashMap::len`: the number of entries, of which there are finitely many.
    #[verifier::external_body]
    pub(crate) fn len(&self) -> (n: usize)
        ensures
            has_entries(self@, n as nat),
    {
        self.entries.len()
    }

    /// `DashMap::contains_key`.
    #[verifier::external_body]
    pub(crate) fn contains_key(&self, key: &K) -> (found: bool)
        ensures
            found == self@.contains_key(*key),
    {
        self.entries.contains_key(key)
    }

    /// `DashMap::insert`: the key now leads to the value, every other entry stays, and the value
    /// that was there before comes back.
    #[verifier::external_body]
    pub(crate) fn insert(&mut self, key: K, value: V) -> (previous: Option<V>)
        ensures
            final(self)@ == old(self)@.insert(key, value),
            previous == if old(self)@.contains_key(key) {
                Some(old(self)@[key])
            } else {
                None
            },
    {
        self.entries.insert(key, value)
    }

    /// `DashMap::remove`: the key has no entry any more, every other entry stays, and the value
    /// that was there before comes back.
    #[verifier::external_body]
    pub(crate) fn remove(&mut self, key: &K) -> (previous: Option<V>)
        ensures
            final(self)@ == old(self)@.remove(*key),
            previous == if old(self)@.contains_key(*key) {
                Some(old(self)@[*key])
            } else {
                None
            },
    {
        self.entries.remove(key).map(|entry| entry.1)
    }

    /// `DashMap::get`: what `look` sees in the value that the key leads to.
    #[verifier::external_body]
    pub(crate) fn read<R, F: Fn(&V) -> R>(&self, key: &K, look: F) -> (seen: Option<R>)
        requires
            self@.contains_key(*key) ==> look.requires((&self@[*key],)),
        ensures
            seen is Some == self@.contains_key(*key),
            seen matches Some(value) ==> look.ensures((&self@[*key],), value),
    {
        self.entries.get(key).map(|entry| look(&entry))
    }

    /// `DashMap::retain`: exactly the entries stay, with their values, for which `keep` says so.
    #[verifier::external_body]
    pub(crate) fn retain<F: Fn(&K, &V) -> bool>(&mut self, keep: F)
        requires
            forall|key: K|
                #![trigger old(self)@[key]]
                old(self)@.contains_key(key) ==> keep.requires((&key, &old(self)@[key])),
        ensures
            final(self)@.submap_of(old(self)@),
            forall|key: K|
                #![trigger old(self)@[key]]
                old(self)@.contains_key(key) ==> keep.ensures(
                    (&key, &old(self)@[key]),
                    final(self)@.contains_key(key),
                ),
    {
        self.entries.retain(|key, value| keep(key, value))
    }

    /// A table without entries.
    pub fn new() -> (table: Self)
        ensures
            table@ == Map::<K, V>::empty(),
    {
        Table::with_capacity(0)
    }

    /// How many entries the table has.
    pub fn entry_count(&self) -> (n: usize)
        ensures
            n == self@.len(),
            self@.dom().finite(),
    {
        self.len()
    }
}

impl<K: TableKey + Copy + Eq + core::hash::Hash, V: Copy> Table<K, V> {
    /// The value that the key leads to, copied out.
    pub(crate) fn get(&self, key: &K) -> (value: Option<V>)
        ensures
            value == if self@.contains_key(*key) {
                Some(self@[*key])
            } else {
                None
            },
    {
        self.read(
            key,
            |value: &V| -> (copy: V)
                ensures
                    copy == *value
                { *value },
        )
    }

    /// `DashMap::iter`: every entry once, in no particular order.
    #[verifier::external_body]
    pub(crate) fn entries(&self) -> (entries: Vec<(K, V)>)
        ensures
            lists(entries@, self@),
    {
        self.entries.iter().map(|entry| (*entry.key(), *entry.value())).collect()
    }
}

/// The map has so many entries, and no more.
pub open spec fn has_entries<K, V>(map: Map<K, V>, n: nat) -> bool {
    map.dom().finite() && map.len() == n
}

/// The sequence holds every entry of the map once, and nothing else.
pub open spec fn lists<K, V>(entries: Seq<(K, V)>, map: Map<K, V>) -> bool {
    &&& forall|i: int|
        0 <= i < entries.len() ==> #[trigger] map.contains_key(entries[i].0) && map[entries[i].0]
            == entries[i].1
    &&& forall|key: K| #[trigger]
        map.contains_key(key) ==> exists|i: int|
            0 <= i < entries.len() && (#[trigger] entries[i]).0 == key
    &&& forall|i: int, j: int|
        0 <= i < j < entries.len() ==> (#[trigger] entries[i]).0 != (#[trigger] entries[j]).0
}

/// A listing is as long as the map is large.
pub proof fn lemma_listing_len<K, V>(entries: Seq<(K, V)>, map: Map<K, V>)
    requires
        lists(entries, map),
    ensures
        map.dom().finite(),
        entries.len() == map.len(),
{
    let keys = Seq::new(entries.len(), |i: int| entries[i].0);
    assert(keys.no_duplicates());
    keys.unique_seq_to_set();
    assert(keys.to_set() =~= map.dom()) by {
        assert forall|key: K| map.dom().contains(key) implies keys.to_set().contains(key) by {
            let i = choose|i: int| 0 <= i < entries.len() && (#[trigger] entries[i]).0 == key;
            assert(keys[i] == key);
        }
        assert forall|key: K| keys.to_set().contains(key) implies map.dom().contains(key) by {
            let i = choose|i: int| 0 <= i < keys.len() && keys[i] == key;
            assert(map.contains_key(entries[i].0));
        }
    }
    vstd::seq_lib::seq_to_set_is_finite(keys);
}

/// A listing in another order is a listing.
pub proof fn lemma_permuted_listing<K, V>(
    entries: Seq<(K, V)>,
    permuted: Seq<(K, V)>,
    map: Map<K, V>,
)
    requires
        lists(entries, map),
        permuted.to_multiset() == entries.to_multiset(),
    ensures
        lists(permuted, map),
{
    broadcast use vstd::seq_lib::group_to_multiset_ensures;

    assert(entries.no_duplicates());
    entries.lemma_multiset_has_no_duplicates();
    permuted.lemma_multiset_has_no_duplicates_conv();
    assert forall|i: int| 0 <= i < permuted.len() implies entries.contains(
        #[trigger] permuted[i],
    ) by {
        assert(permuted.contains(permuted[i]));
        assert(permuted.to_multiset().count(permuted[i]) > 0);
    }
    assert forall|i: int| 0 <= i < permuted.len() implies #[trigger] map.contains_key(
        permuted[i].0,
    ) && map[permuted[i].0] == permuted[i].1 by {
        let k = choose|k: int| 0 <= k < entries.len() && entries[k] == permuted[i];
        assert(entries.contains(permuted[i]));
        assert(map.contains_key(entries[k].0));
    }
    assert forall|key: K| #[trigger] map.contains_key(key) implies exists|i: int|
        0 <= i < permuted.len() && (#[trigger] permuted[i]).0 == key by {
        let k = choose|k: int| 0 <= k < entries.len() && (#[trigger] entries[k]).0 == key;
        assert(entries.contains(entries[k]));
        assert(entries.to_multiset().count(entries[k]) > 0);
        assert(permuted.contains(entries[k]));
        let i = choose|i: int| 0 <= i < permuted.len() && permuted[i] == entries[k];
        assert(permuted[i].0 == key);
    }
    assert forall|i: int, j: int| 0 <= i < j < permuted.len() implies (#[trigger] permuted[i]).0
        != (#[trigger] permuted[j]).0 by {
        let a = choose|a: int| 0 <= a < entries.len() && entries[a] == permuted[i];
        let b = choose|b: int| 0 <= b < entries.len() && entries[b] == permuted[j];
        assert(entries.contains(permuted[i]) && entries.contains(permuted[j]));
        assert(permuted[i] != permuted[j]);
        assert(a != b);
        if a < b {
            assert(entries[a].0 != entries[b].0);
        } else {
            assert(entries[b].0 != entries[a].0);
        }
    }
}

/// A submap of a finite map is finite and no larger.
pub proof fn lemma_submap_len<K, V>(small: Map<K, V>, large: Map<K, V>)
    requires
        small.submap_of(large),
        large.dom().finite(),
    ensures
        small.dom().finite(),
        small.len() <= large.len(),
{
    assert(small.dom().subset_of(large.dom()));
    vstd::set_lib::lemma_len_subset(small.dom(), large.dom());
}

} // verus!
