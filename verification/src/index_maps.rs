//! The insertion-ordered maps (`indexmap::IndexMap`) that the models hold,
//! and the calls into them that the logic of this crate makes.
//!
//! The contents of each kind of map is named as the sequence of its entries
//! in order. Building a map from a sequence of entries follows the
//! documented rule of `insert`: an entry whose key is equivalent to one
//! already present updates that entry's value in place (the key stays),
//! any other entry is appended.
use vstd::prelude::*;
use indexmap::IndexMap;
use crate::models::nic::{Nic, NicIndex};
use crate::models::ip::Ipv4Inet;
use crate::models::nodes::node::{GenericNode, Node};
use crate::models::operating_system::OperatingSystem;
use crate::models::protocol::RoutingProtocol;
use crate::models::routes::route::Route;
use crate::models::test::Test;
use crate::models::topology::Topology;

verus! {

/// `indexmap::IndexMap`, whose contents this crate sees only through the
/// named entries and the calls below.
#[verifier::external_type_specification]
#[verifier::external_body]
#[verifier::reject_recursive_types(K)]
#[verifier::reject_recursive_types(V)]
#[verifier::reject_recursive_types(S)]
pub struct ExIndexMap<K, V, S>(IndexMap<K, V, S>);

/// Index of the first entry whose key is equivalent to `key`.
pub open spec fn first_index_of<K, V>(
    entries: Seq<(K, V)>,
    same: spec_fn(K, K) -> bool,
    key: K,
) -> Option<int>
    decreases entries.len(),
{
    if entries.len() == 0 {
        None
    } else {
        match first_index_of(entries.drop_last(), same, key) {
            Some(i) => Some(i),
            None => if same(entries.last().0, key) {
                Some(entries.len() - 1)
            } else {
                None
            },
        }
    }
}

/// The entries after inserting `(key, value)`: the value of the entry with
/// an equivalent key is replaced, or the pair is appended.
pub open spec fn insert_entry<K, V>(
    entries: Seq<(K, V)>,
    same: spec_fn(K, K) -> bool,
    key: K,
    value: V,
) -> Seq<(K, V)> {
    match first_index_of(entries, same, key) {
        Some(i) => entries.update(i, (entries[i].0, value)),
        None => entries.push((key, value)),
    }
}

/// The entries of a map built by inserting `items` in order.
pub open spec fn insert_all<K, V>(items: Seq<(K, V)>, same: spec_fn(K, K) -> bool) -> Seq<(K, V)>
    decreases items.len(),
{
    if items.len() == 0 {
        Seq::empty()
    } else {
        insert_entry(insert_all(items.drop_last(), same), same, items.last().0, items.last().1)
    }
}

/// No two entries have equivalent keys.
pub open spec fn keys_distinct<K, V>(entries: Seq<(K, V)>, same: spec_fn(K, K) -> bool) -> bool {
    forall|i: int, j: int| 0 <= i < j < entries.len() ==> !same(#[trigger] entries[i].0, #[trigger] entries[j].0)
}

/// Key equivalence of strings: the same characters.
pub open spec fn string_key_eq() -> spec_fn(String, String) -> bool {
    |a: String, b: String| a@ == b@
}

/// Key equivalence of interface indices, as their `==` decides it.
pub open spec fn nic_index_eq() -> spec_fn(NicIndex, NicIndex) -> bool {
    |a: NicIndex, b: NicIndex| a.0@ == b.0@
}

/// Key equivalence of routing protocols.
pub open spec fn protocol_eq() -> spec_fn(RoutingProtocol, RoutingProtocol) -> bool {
    |a: RoutingProtocol, b: RoutingProtocol| a == b
}

/// `first_index_of` finds an entry with the key, and none before it, or
/// finds none where no entry has the key.
pub proof fn lemma_first_index_of<K, V>(entries: Seq<(K, V)>, same: spec_fn(K, K) -> bool, key: K)
    ensures
        first_index_of(entries, same, key) is None <==> (forall|i: int| 0 <= i < entries.len() ==> !same(#[trigger] entries[i].0, key)),
        first_index_of(entries, same, key) matches Some(i) ==> {
            &&& 0 <= i < entries.len()
            &&& same(entries[i].0, key)
            &&& forall|j: int| 0 <= j < i ==> !same(#[trigger] entries[j].0, key)
        },
    decreases entries.len(),
{
    if entries.len() > 0 {
        let d = entries.drop_last();
        lemma_first_index_of(d, same, key);
        assert forall|i: int| 0 <= i < d.len() implies d[i] == entries[i] by {}
        if first_index_of(d, same, key) is None && !same(entries.last().0, key) {
            assert forall|i: int| 0 <= i < entries.len() implies !same(#[trigger] entries[i].0, key) by {
                if i < d.len() {
                    assert(d[i] == entries[i]);
                }
            }
        }
    }
}

/// Inserting entries whose keys are pairwise distinct keeps them all, in
/// order.
pub proof fn lemma_insert_all_distinct<K, V>(items: Seq<(K, V)>, same: spec_fn(K, K) -> bool)
    requires
        keys_distinct(items, same),
    ensures
        insert_all(items, same) == items,
    decreases items.len(),
{
    if items.len() > 0 {
        let d = items.drop_last();
        assert(keys_distinct(d, same)) by {
            assert forall|i: int, j: int| 0 <= i < j < d.len() implies !same(#[trigger] d[i].0, #[trigger] d[j].0) by {
                assert(d[i] == items[i] && d[j] == items[j]);
            }
        }
        lemma_insert_all_distinct(d, same);
        lemma_first_index_of(d, same, items.last().0);
        assert forall|i: int| 0 <= i < d.len() implies !same(#[trigger] d[i].0, items.last().0) by {
            assert(d[i] == items[i]);
            assert(items[items.len() - 1] == items.last());
        }
        assert(d.push(items.last()) == items);
    }
}

/// The entries whose key is equivalent to `key`, in order.
pub open spec fn entries_matching<K, V>(entries: Seq<(K, V)>, same: spec_fn(K, K) -> bool, key: K) -> Seq<(K, V)>
    decreases entries.len(),
{
    if entries.len() == 0 {
        Seq::empty()
    } else {
        let rest = entries_matching(entries.drop_last(), same, key);
        if same(entries.last().0, key) {
            rest.push(entries.last())
        } else {
            rest
        }
    }
}

/// Where no entry before `i` has the key and entry `i` does, `i` is the first
/// index of the key.
pub proof fn lemma_first_index_prefix<K, V>(entries: Seq<(K, V)>, same: spec_fn(K, K) -> bool, key: K, i: int)
    requires
        0 <= i < entries.len(),
        first_index_of(entries.subrange(0, i), same, key) is None,
        same(entries[i].0, key),
    ensures
        first_index_of(entries, same, key) == Some(i),
    decreases entries.len(),
{
    if i < entries.len() - 1 {
        assert(entries.drop_last().subrange(0, i) == entries.subrange(0, i));
        lemma_first_index_prefix(entries.drop_last(), same, key, i);
    } else {
        assert(entries.drop_last() == entries.subrange(0, i));
    }
}

/// Position of the first entry whose key is `key`.
pub fn position_of_key<V>(v: &Vec<(String, V)>, key: &String) -> (r: Option<usize>)
    ensures
        r is None <==> first_index_of(v@, string_key_eq(), *key) is None,
        r matches Some(i) ==> first_index_of(v@, string_key_eq(), *key) == Some(i as int),
{
    let mut i: usize = 0;
    while i < v.len()
        invariant
            i <= v@.len(),
            first_index_of(v@.subrange(0, i as int), string_key_eq(), *key) is None,
        decreases v@.len() - i,
    {
        assert(v@.subrange(0, i + 1).drop_last() == v@.subrange(0, i as int));
        if v[i].0 == *key {
            proof {
                lemma_first_index_prefix(v@, string_key_eq(), *key, i as int);
            }
            return Some(i);
        }
        i = i + 1;
    }
    assert(v@.subrange(0, i as int) == v@);
    None
}

/// Keeps the entries whose key is `key`, in order.
pub fn retain_key<V>(v: Vec<(String, V)>, key: &String) -> (r: Vec<(String, V)>)
    ensures
        r@ == entries_matching(v@, string_key_eq(), *key),
{
    let ghost orig = v@;
    let mut v = v;
    let mut out: Vec<(String, V)> = Vec::new();
    let mut k: usize = 0;
    let n = v.len();
    while v.len() > 0
        invariant
            n == orig.len(),
            k + v@.len() == n,
            v@ == orig.subrange(k as int, n as int),
            out@ == entries_matching(orig.subrange(0, k as int), string_key_eq(), *key),
        decreases v@.len(),
    {
        let e = v.remove(0);
        assert(e == orig[k as int]);
        assert(orig.subrange(0, k + 1).drop_last() == orig.subrange(0, k as int));
        assert(orig.subrange(0, k + 1).last() == orig[k as int]);
        if e.0 == *key {
            out.push(e);
        }
        k = k + 1;
        assert(v@ == orig.subrange(k as int, n as int));
    }
    assert(orig.subrange(0, n as int) == orig);
    out
}

/// The matching entries of entries with distinct keys have distinct keys.
pub proof fn lemma_entries_matching_distinct<K, V>(entries: Seq<(K, V)>, same: spec_fn(K, K) -> bool, key: K)
    requires
        keys_distinct(entries, same),
    ensures
        keys_distinct(entries_matching(entries, same, key), same),
        forall|j: int| 0 <= j < entries_matching(entries, same, key).len() ==>
            exists|i: int| 0 <= i < entries.len() && #[trigger] entries_matching(entries, same, key)[j] == entries[i],
    decreases entries.len(),
{
    if entries.len() > 0 {
        let d = entries.drop_last();
        assert(keys_distinct(d, same)) by {
            assert forall|i: int, j: int| 0 <= i < j < d.len() implies !same(#[trigger] d[i].0, #[trigger] d[j].0) by {
                assert(d[i] == entries[i] && d[j] == entries[j]);
            }
        }
        lemma_entries_matching_distinct(d, same, key);
        let rest = entries_matching(d, same, key);
        let last = entries.last();
        assert forall|j: int| 0 <= j < rest.len() implies exists|i: int| 0 <= i < entries.len() - 1 && #[trigger] rest[j] == entries[i] by {
            let i = choose|i: int| 0 <= i < d.len() && rest[j] == d[i];
            assert(d[i] == entries[i]);
        }
        if same(last.0, key) {
            let r = rest.push(last);
            assert forall|a: int, b: int| 0 <= a < b < r.len() implies !same(#[trigger] r[a].0, #[trigger] r[b].0) by {
                if b == r.len() - 1 {
                    let i = choose|i: int| 0 <= i < entries.len() - 1 && rest[a] == entries[i];
                    assert(entries[entries.len() - 1] == last);
                } else {
                    assert(r[a] == rest[a] && r[b] == rest[b]);
                }
            }
            assert forall|j: int| 0 <= j < r.len() implies exists|i: int| 0 <= i < entries.len() && #[trigger] r[j] == entries[i] by {
                if j == r.len() - 1 {
                    assert(r[j] == entries[entries.len() - 1]);
                } else {
                    assert(r[j] == rest[j]);
                }
            }
        }
    }
}

proof fn lemma_no_match_empty<V>(entries: Seq<(String, V)>, key: String)
    requires
        first_index_of(entries, string_key_eq(), key) is None,
    ensures
        entries_matching(entries, string_key_eq(), key).len() == 0,
    decreases entries.len(),
{
    if entries.len() > 0 {
        lemma_first_index_of(entries, string_key_eq(), key);
        lemma_first_index_of(entries.drop_last(), string_key_eq(), key);
        assert forall|i: int| 0 <= i < entries.drop_last().len() implies
            !string_key_eq()(#[trigger] entries.drop_last()[i].0, key) by {
            assert(entries.drop_last()[i] == entries[i]);
        }
        lemma_no_match_empty(entries.drop_last(), key);
        assert(!string_key_eq()(entries[entries.len() - 1].0, key));
    }
}

/// Among entries with distinct names, the entries of a name that one of
/// them has are that one entry.
pub proof fn lemma_one_entry_named<V>(entries: Seq<(String, V)>, key: String)
    requires
        keys_distinct(entries, string_key_eq()),
        first_index_of(entries, string_key_eq(), key) is Some,
    ensures
        entries_matching(entries, string_key_eq(), key).len() == 1,
        entries_matching(entries, string_key_eq(), key)[0].0@ == key@,
    decreases entries.len(),
{
    let d = entries.drop_last();
    assert(keys_distinct(d, string_key_eq())) by {
        assert forall|i: int, j: int| 0 <= i < j < d.len() implies
            !string_key_eq()(#[trigger] d[i].0, #[trigger] d[j].0) by {
            assert(d[i] == entries[i] && d[j] == entries[j]);
        }
    }
    lemma_first_index_of(d, string_key_eq(), key);
    match first_index_of(d, string_key_eq(), key) {
        Some(i) => {
            lemma_one_entry_named(d, key);
            assert(d[i] == entries[i]);
            assert(!string_key_eq()(entries[i].0, entries[entries.len() - 1].0));
        },
        None => {
            lemma_no_match_empty(d, key);
        },
    }
}

// Operating systems by name.

/// The entries of a map of operating systems, in order.
pub uninterp spec fn os_entries(m: IndexMap<String, OperatingSystem>) -> Seq<(String, OperatingSystem)>;

/// `IndexMap::into_iter` collected: the entries in order. A map holds no two
/// equivalent keys.
#[verifier::external_body]
pub(crate) fn os_map_into_entries(m: IndexMap<String, OperatingSystem>) -> (r: Vec<(String, OperatingSystem)>)
    ensures
        r@ == os_entries(m),
        keys_distinct(r@, string_key_eq()),
{
    m.into_iter().collect()
}

/// `IndexMap::from_iter`: the entries inserted in order.
#[verifier::external_body]
pub(crate) fn os_map_from_entries(v: Vec<(String, OperatingSystem)>) -> (r: IndexMap<String, OperatingSystem>)
    ensures
        os_entries(r) == insert_all(v@, string_key_eq()),
{
    v.into_iter().collect()
}

/// `IndexMap::len`.
#[verifier::external_body]
pub(crate) fn os_map_len(m: &IndexMap<String, OperatingSystem>) -> (r: usize)
    ensures
        r == os_entries(*m).len(),
{
    m.len()
}

/// `IndexMap::get_index`: the entry at a position.
#[verifier::external_body]
pub(crate) fn os_map_get_index(m: &IndexMap<String, OperatingSystem>, i: usize) -> (r: Option<(&String, &OperatingSystem)>)
    ensures
        match r {
            Some((k, v)) => i < os_entries(*m).len() && *k == os_entries(*m)[i as int].0
                && *v == os_entries(*m)[i as int].1,
            None => i >= os_entries(*m).len(),
        },
{
    m.get_index(i)
}

// Test batches by name.

/// The entries of a map of test batches, in order.
pub uninterp spec fn test_batch_entries(m: IndexMap<String, Vec<Test>>) -> Seq<(String, Vec<Test>)>;

/// `IndexMap::into_iter` collected: the entries in order. A map holds no two
/// equivalent keys.
#[verifier::external_body]
pub(crate) fn test_batch_map_into_entries(m: IndexMap<String, Vec<Test>>) -> (r: Vec<(String, Vec<Test>)>)
    ensures
        r@ == test_batch_entries(m),
        keys_distinct(r@, string_key_eq()),
{
    m.into_iter().collect()
}

/// `IndexMap::from_iter`: the entries inserted in order.
#[verifier::external_body]
pub(crate) fn test_batch_map_from_entries(v: Vec<(String, Vec<Test>)>) -> (r: IndexMap<String, Vec<Test>>)
    ensures
        test_batch_entries(r) == insert_all(v@, string_key_eq()),
{
    v.into_iter().collect()
}

// Topologies by name.

/// The entries of a map of topologies, in order.
pub uninterp spec fn topology_entries(m: IndexMap<String, Topology>) -> Seq<(String, Topology)>;

/// `IndexMap::into_iter` collected: the entries in order. A map holds no two
/// equivalent keys.
#[verifier::external_body]
pub(crate) fn topology_map_into_entries(m: IndexMap<String, Topology>) -> (r: Vec<(String, Topology)>)
    ensures
        r@ == topology_entries(m),
        keys_distinct(r@, string_key_eq()),
{
    m.into_iter().collect()
}

/// `IndexMap::from_iter`: the entries inserted in order.
#[verifier::external_body]
pub(crate) fn topology_map_from_entries(v: Vec<(String, Topology)>) -> (r: IndexMap<String, Topology>)
    ensures
        topology_entries(r) == insert_all(v@, string_key_eq()),
{
    v.into_iter().collect()
}

// Machines of a topology by name.

/// The entries of a map of topology machines, in order.
pub uninterp spec fn generic_node_entries(m: IndexMap<String, GenericNode>) -> Seq<(String, GenericNode)>;

/// `IndexMap::into_iter` collected: the entries in order. A map holds no two
/// equivalent keys.
#[verifier::external_body]
pub(crate) fn generic_node_map_into_entries(m: IndexMap<String, GenericNode>) -> (r: Vec<(String, GenericNode)>)
    ensures
        r@ == generic_node_entries(m),
        keys_distinct(r@, string_key_eq()),
{
    m.into_iter().collect()
}

// Addresses of a topology router by interface.

/// The entries of a map of interface addresses, in order.
pub uninterp spec fn nic_ip_entries(m: IndexMap<NicIndex, Ipv4Inet>) -> Seq<(NicIndex, Ipv4Inet)>;

/// `IndexMap::into_iter` collected: the entries in order. A map holds no two
/// equivalent keys.
#[verifier::external_body]
pub(crate) fn nic_ip_map_into_entries(m: IndexMap<NicIndex, Ipv4Inet>) -> (r: Vec<(NicIndex, Ipv4Inet)>)
    ensures
        r@ == nic_ip_entries(m),
        keys_distinct(r@, nic_index_eq()),
{
    m.into_iter().collect()
}

// Interfaces of a router by index.

/// The entries of a map of interfaces, in order.
pub uninterp spec fn nic_entries(m: IndexMap<NicIndex, Nic>) -> Seq<(NicIndex, Nic)>;

/// `IndexMap::from_iter`: the entries inserted in order.
#[verifier::external_body]
pub(crate) fn nic_map_from_entries(v: Vec<(NicIndex, Nic)>) -> (r: IndexMap<NicIndex, Nic>)
    ensures
        nic_entries(r) == insert_all(v@, nic_index_eq()),
{
    v.into_iter().collect()
}

/// `IndexMap::len`.
#[verifier::external_body]
pub(crate) fn nic_map_len(m: &IndexMap<NicIndex, Nic>) -> (r: usize)
    ensures
        r == nic_entries(*m).len(),
{
    m.len()
}

/// `IndexMap::get_index`: the entry at a position.
#[verifier::external_body]
pub(crate) fn nic_map_get_index(m: &IndexMap<NicIndex, Nic>, i: usize) -> (r: Option<(&NicIndex, &Nic)>)
    ensures
        match r {
            Some((k, v)) => i < nic_entries(*m).len() && *k == nic_entries(*m)[i as int].0
                && *v == nic_entries(*m)[i as int].1,
            None => i >= nic_entries(*m).len(),
        },
{
    m.get_index(i)
}

// Routes of a topology router by protocol.

/// The entries of a map of routes by protocol, in order.
pub uninterp spec fn protocol_routes_entries(m: IndexMap<RoutingProtocol, Vec<Route>>) -> Seq<(RoutingProtocol, Vec<Route>)>;

/// `IndexMap::into_iter` collected: the entries in order. A map holds no two
/// equivalent keys.
#[verifier::external_body]
pub(crate) fn protocol_routes_map_into_entries(m: IndexMap<RoutingProtocol, Vec<Route>>) -> (r: Vec<(RoutingProtocol, Vec<Route>)>)
    ensures
        r@ == protocol_routes_entries(m),
        keys_distinct(r@, protocol_eq()),
{
    m.into_iter().collect()
}

// Machines of an experiment by name.

/// The entries of a map of experiment machines, in order.
pub uninterp spec fn node_entries(m: IndexMap<String, Node>) -> Seq<(String, Node)>;

/// `IndexMap::from_iter`: the entries inserted in order.
#[verifier::external_body]
pub(crate) fn node_map_from_entries(v: Vec<(String, Node)>) -> (r: IndexMap<String, Node>)
    ensures
        node_entries(r) == insert_all(v@, string_key_eq()),
{
    v.into_iter().collect()
}

/// `IndexMap::len`.
#[verifier::external_body]
pub(crate) fn node_map_len(m: &IndexMap<String, Node>) -> (r: usize)
    ensures
        r == node_entries(*m).len(),
{
    m.len()
}

/// `IndexMap::get_index`: the entry at a position.
#[verifier::external_body]
pub(crate) fn node_map_get_index(m: &IndexMap<String, Node>, i: usize) -> (r: Option<(&String, &Node)>)
    ensures
        match r {
            Some((k, v)) => i < node_entries(*m).len() && *k == node_entries(*m)[i as int].0
                && *v == node_entries(*m)[i as int].1,
            None => i >= node_entries(*m).len(),
        },
{
    m.get_index(i)
}

} // verus!
