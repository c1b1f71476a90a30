//! Choosing what to generate, and instantiating a topology into an
//! experiment for one operating system, test batch, hardware profile, NIC
//! model and routing protocol.
use vstd::prelude::*;
use indexmap::IndexMap;
use crate::index_maps::{
    entries_matching, first_index_of, keys_distinct, lemma_entries_matching_distinct, lemma_insert_all_distinct,
    os_entries, os_map_from_entries, os_map_into_entries, position_of_key, retain_key, string_key_eq,
    test_batch_entries, test_batch_map_from_entries, test_batch_map_into_entries, topology_entries,
    topology_map_from_entries, topology_map_into_entries, generic_node_entries, generic_node_map_into_entries,
    insert_all, lemma_one_entry_named, nic_entries, nic_index_eq, nic_ip_entries, nic_ip_map_into_entries, nic_map_from_entries,
    node_entries, node_map_from_entries, protocol_eq, protocol_routes_entries, protocol_routes_map_into_entries,
};
use crate::models::experiment::Experiment;
use crate::models::hardware_resources::vcpu_and_ram;
use crate::models::ip::Ipv4Inet;
use crate::models::network::{GenericNetwork, Network};
use crate::models::nic::{Nic, NicIndex};
use crate::models::nodes::guest::Guest;
use crate::models::nodes::node::{GenericNode, GenericNodeType, Node, NodeType};
use crate::models::nodes::router::{GenericRouter, Router};
use crate::models::routes::route::Route;
use crate::models::hardware_resources::{HardwareResources, resources_name};
use crate::models::nic::{NicType, nic_type_name};
use crate::models::operating_system::OperatingSystem;
use crate::models::protocol::{RoutingProtocol, protocol_name};
use crate::models::test::Test;
use crate::models::topology::Topology;
use crate::args::args::ExperimentSelectionArgs;
use crate::string_map::str_eq;
use crate::text::{owned, push_char, push_str};

verus! {

/// A selection that names what the lists do not hold.
#[derive(Debug, Clone)]
pub enum SelectionError {
    /// No operating system of that name.
    OsNotFound(String),
    /// No test batch of that name.
    TestBatchNotFound(String),
    /// No topology of that name.
    TopologyNotFound(String),
    /// A selected topology has no routes for the selected protocol.
    ProtocolNotInTopology { protocol: RoutingProtocol, topology: String },
}

/// Some entry has the key.
pub open spec fn has_key<V>(entries: Seq<(String, V)>, key: String) -> bool {
    first_index_of(entries, string_key_eq(), key) is Some
}

/// The operating systems to generate for: all, or the one named.
pub fn get_oses_to_use(
    command_os: &Option<String>,
    os_list: IndexMap<String, OperatingSystem>,
) -> (r: Result<IndexMap<String, OperatingSystem>, SelectionError>)
    ensures
        match command_os {
            None => r matches Ok(m) && os_entries(m) == os_entries(os_list),
            Some(name) => if has_key(os_entries(os_list), *name) {
                r matches Ok(m) && os_entries(m) == entries_matching(os_entries(os_list), string_key_eq(), *name)
                    && os_entries(m).len() == 1 && os_entries(m)[0].0@ == name@
            } else {
                r == Err::<IndexMap<String, OperatingSystem>, SelectionError>(SelectionError::OsNotFound(*name))
            },
        },
{
    match command_os {
        None => Ok(os_list),
        Some(name) => {
            let v = os_map_into_entries(os_list);
            match position_of_key(&v, name) {
                None => Err(SelectionError::OsNotFound(name.clone())),
                Some(_) => {
                    let ghost all = v@;
                    let kept = retain_key(v, name);
                    proof {
                        lemma_entries_matching_distinct(all, string_key_eq(), *name);
                        lemma_insert_all_distinct(kept@, string_key_eq());
                        lemma_one_entry_named(all, *name);
                    }
                    Ok(os_map_from_entries(kept))
                },
            }
        },
    }
}

/// The test batches to generate for: all, or the one named.
pub fn get_test_batches_to_use(
    command_test: &Option<String>,
    test_list: IndexMap<String, Vec<Test>>,
) -> (r: Result<IndexMap<String, Vec<Test>>, SelectionError>)
    ensures
        match command_test {
            None => r matches Ok(m) && test_batch_entries(m) == test_batch_entries(test_list),
            Some(name) => if has_key(test_batch_entries(test_list), *name) {
                r matches Ok(m) && test_batch_entries(m) == entries_matching(test_batch_entries(test_list), string_key_eq(), *name)
                    && test_batch_entries(m).len() == 1 && test_batch_entries(m)[0].0@ == name@
            } else {
                r == Err::<IndexMap<String, Vec<Test>>, SelectionError>(SelectionError::TestBatchNotFound(*name))
            },
        },
{
    match command_test {
        None => Ok(test_list),
        Some(name) => {
            let v = test_batch_map_into_entries(test_list);
            match position_of_key(&v, name) {
                None => Err(SelectionError::TestBatchNotFound(name.clone())),
                Some(_) => {
                    let ghost all = v@;
                    let kept = retain_key(v, name);
                    proof {
                        lemma_entries_matching_distinct(all, string_key_eq(), *name);
                        lemma_insert_all_distinct(kept@, string_key_eq());
                        lemma_one_entry_named(all, *name);
                    }
                    Ok(test_batch_map_from_entries(kept))
                },
            }
        },
    }
}

/// The protocols of `s` that are `p`, in order.
pub open spec fn only_protocol(s: Seq<RoutingProtocol>, p: RoutingProtocol) -> Seq<RoutingProtocol>
    decreases s.len(),
{
    if s.len() == 0 {
        Seq::empty()
    } else if s.last() == p {
        only_protocol(s.drop_last(), p).push(p)
    } else {
        only_protocol(s.drop_last(), p)
    }
}

/// Index of the first topology that has no routes for `p`.
pub open spec fn first_without_protocol(s: Seq<(String, Topology)>, p: RoutingProtocol) -> Option<int>
    decreases s.len(),
{
    if s.len() == 0 {
        None
    } else {
        match first_without_protocol(s.drop_last(), p) {
            Some(i) => Some(i),
            None => if !s.last().1.supported_routing_protocols@.contains(p) {
                Some(s.len() - 1)
            } else {
                None
            },
        }
    }
}

/// `out` is `s` with each topology's protocols restricted to `p`.
pub open spec fn restricted_to_protocol(out: Seq<(String, Topology)>, s: Seq<(String, Topology)>, p: RoutingProtocol) -> bool {
    &&& out.len() == s.len()
    &&& forall|i: int| 0 <= i < s.len() ==> {
        &&& (#[trigger] out[i]).0 == s[i].0
        &&& out[i].1.network == s[i].1.network
        &&& out[i].1.supported_routing_protocols@ == only_protocol(s[i].1.supported_routing_protocols@, p)
    }
}

/// The topologies named by the selection: all, or the one named.
pub open spec fn named_topologies(entries: Seq<(String, Topology)>, name: Option<String>) -> Seq<(String, Topology)> {
    match name {
        None => entries,
        Some(n) => entries_matching(entries, string_key_eq(), n),
    }
}

/// The topologies to generate for: all, or the one named; when a protocol is
/// selected, each must have routes for it, and keeps only it.
#[verifier::loop_isolation(false)]
pub fn get_topologies_to_use(
    command_topology: &Option<String>,
    topology_list: IndexMap<String, Topology>,
    command_routing_protocol: &Option<RoutingProtocol>,
) -> (r: Result<IndexMap<String, Topology>, SelectionError>)
    ensures
        ({
            let entries = topology_entries(topology_list);
            let named = named_topologies(entries, *command_topology);
            if command_topology is Some && !has_key(entries, command_topology->Some_0) {
                r == Err::<IndexMap<String, Topology>, SelectionError>(
                    SelectionError::TopologyNotFound(command_topology->Some_0))
            } else {
                match command_routing_protocol {
                    None => r matches Ok(m) && topology_entries(m) == named,
                    Some(p) => match first_without_protocol(named, *p) {
                        Some(i) => r == Err::<IndexMap<String, Topology>, SelectionError>(
                            SelectionError::ProtocolNotInTopology { protocol: *p, topology: named[i].0 }),
                        None => r matches Ok(m) && restricted_to_protocol(topology_entries(m), named, *p),
                    },
                }
            }
        }),
        (command_topology is Some && r is Ok) ==> topology_entries(r->Ok_0).len() == 1
            && topology_entries(r->Ok_0)[0].0@ == command_topology->Some_0@,
{
    let ghost entries = topology_entries(topology_list);
    let v: Vec<(String, Topology)> = match command_topology {
        None => {
            match command_routing_protocol {
                None => {
                    return Ok(topology_list);
                },
                Some(_) => topology_map_into_entries(topology_list),
            }
        },
        Some(name) => {
            let all = topology_map_into_entries(topology_list);
            match position_of_key(&all, name) {
                None => {
                    return Err(SelectionError::TopologyNotFound(name.clone()));
                },
                Some(_) => {
                    proof {
                        lemma_entries_matching_distinct(all@, string_key_eq(), *name);
                        lemma_one_entry_named(all@, *name);
                    }
                    retain_key(all, name)
                },
            }
        },
    };
    assert(v@ == named_topologies(entries, *command_topology));
    assert(keys_distinct(v@, string_key_eq()));
    match command_routing_protocol {
        None => {
            proof {
                lemma_insert_all_distinct(v@, string_key_eq());
            }
            Ok(topology_map_from_entries(v))
        },
        Some(p) => {
            let mut i: usize = 0;
            while i < v.len()
                invariant
                    i <= v@.len(),
                    first_without_protocol(v@.subrange(0, i as int), *p) is None,
                decreases v@.len() - i,
            {
                assert(v@.subrange(0, i + 1).drop_last() == v@.subrange(0, i as int));
                if !protocols_contain(&v[i].1.supported_routing_protocols, p) {
                    proof {
                        lemma_first_without_prefix(v@, *p, i as int);
                    }
                    return Err(SelectionError::ProtocolNotInTopology { protocol: *p, topology: v[i].0.clone() });
                }
                i = i + 1;
            }
            assert(v@.subrange(0, i as int) == v@);
            let ghost s = v@;
            let n = v.len();
            let mut rest = v;
            let mut out: Vec<(String, Topology)> = Vec::new();
            let mut k: usize = 0;
            while rest.len() > 0
                invariant
                    n == s.len(),
                    k + rest@.len() == n,
                    rest@ == s.subrange(k as int, n as int),
                    restricted_to_protocol(out@, s.subrange(0, k as int), *p),
                decreases rest@.len(),
            {
                let (key, mut topology) = rest.remove(0);
                assert((key, topology) == s[k as int]);
                let kept = keep_protocol(&topology.supported_routing_protocols, p);
                topology.supported_routing_protocols = kept;
                out.push((key, topology));
                k = k + 1;
                assert(rest@ == s.subrange(k as int, n as int));
            }
            assert(s.subrange(0, n as int) == s);
            proof {
                assert forall|a: int, b: int| 0 <= a < b < out@.len() implies !string_key_eq()(#[trigger] out@[a].0, #[trigger] out@[b].0) by {
                    assert(out@[a].0 == s[a].0 && out@[b].0 == s[b].0);
                }
                lemma_insert_all_distinct(out@, string_key_eq());
            }
            Ok(topology_map_from_entries(out))
        },
    }
}

proof fn lemma_first_without_prefix(s: Seq<(String, Topology)>, p: RoutingProtocol, i: int)
    requires
        0 <= i < s.len(),
        first_without_protocol(s.subrange(0, i), p) is None,
        !s[i].1.supported_routing_protocols@.contains(p),
    ensures
        first_without_protocol(s, p) == Some(i),
    decreases s.len(),
{
    if i < s.len() - 1 {
        assert(s.drop_last().subrange(0, i) == s.subrange(0, i));
        lemma_first_without_prefix(s.drop_last(), p, i);
    } else {
        assert(s.drop_last() == s.subrange(0, i));
    }
}

/// Whether a list of protocols holds `p`.
fn protocols_contain(v: &Vec<RoutingProtocol>, p: &RoutingProtocol) -> (r: bool)
    ensures
        r == v@.contains(*p),
{
    let mut i: usize = 0;
    while i < v.len()
        invariant
            i <= v@.len(),
            forall|j: int| 0 <= j < i ==> v@[j] != *p,
        decreases v@.len() - i,
    {
        if v[i] == *p {
            return true;
        }
        i = i + 1;
    }
    false
}

/// The protocols of a list that are `p`, in order.
fn keep_protocol(v: &Vec<RoutingProtocol>, p: &RoutingProtocol) -> (r: Vec<RoutingProtocol>)
    ensures
        r@ == only_protocol(v@, *p),
{
    let mut out: Vec<RoutingProtocol> = Vec::new();
    let mut i: usize = 0;
    while i < v.len()
        invariant
            i <= v@.len(),
            out@ == only_protocol(v@.subrange(0, i as int), *p),
        decreases v@.len() - i,
    {
        assert(v@.subrange(0, i + 1).drop_last() == v@.subrange(0, i as int));
        if v[i] == *p {
            out.push(*p);
        }
        i = i + 1;
    }
    assert(v@.subrange(0, i as int) == v@);
    out
}

/// The routes a topology router has for a protocol: those of the entry for
/// it, or none.
pub open spec fn routes_for(entries: Seq<(RoutingProtocol, Vec<Route>)>, p: RoutingProtocol) -> Seq<Route> {
    match first_index_of(entries, protocol_eq(), p) {
        Some(i) => entries[i].1@,
        None => Seq::empty(),
    }
}

/// The interfaces of a router: one of the given model per address, under
/// the same index.
pub open spec fn nics_from_ips(ips: Seq<(NicIndex, Ipv4Inet)>, nic: NicType) -> Seq<(NicIndex, Nic)> {
    ips.map_values(|e: (NicIndex, Ipv4Inet)| (e.0, Nic { nic_type: nic, ip_address: e.1 }))
}

/// `n` is the experiment machine made of the topology machine `g`: a guest
/// keeps its hardware and address; a router runs `os_name` on the hardware
/// profile, with one interface of the NIC model per address and the routes
/// of the protocol.
pub open spec fn node_instantiates(
    n: Node,
    g: GenericNode,
    os_name: String,
    resources: HardwareResources,
    nic: NicType,
    protocol: RoutingProtocol,
) -> bool {
    &&& n.x == g.x
    &&& n.y == g.y
    &&& n.distant_networks@.len() == 0
    &&& match g.node_type {
        GenericNodeType::Guest(gg) => {
            &&& n.vcpu == gg.vcpu
            &&& n.ram == gg.ram
            &&& n.node_type == NodeType::Guest(Guest { ip: gg.ip })
        },
        GenericNodeType::Router(gr) => {
            &&& (n.vcpu, n.ram) == vcpu_and_ram(resources)
            &&& n.node_type is Router
            &&& n.node_type->Router_0.os_name == os_name
            &&& n.node_type->Router_0.number_nics == gr.number_nics
            &&& n.node_type->Router_0.routes@ == routes_for(protocol_routes_entries(gr.routes), protocol)
            &&& nic_entries(n.node_type->Router_0.nics) == nics_from_ips(nic_ip_entries(gr.ips), nic)
        },
    }
}

/// The name of an experiment: its six coordinates separated by commas.
pub open spec fn experiment_name(
    topology_name: Seq<char>,
    os_name: Seq<char>,
    test_batch_name: Seq<char>,
    resources: HardwareResources,
    nic: NicType,
    protocol: RoutingProtocol,
) -> Seq<char> {
    topology_name + seq![','] + os_name + seq![','] + test_batch_name + seq![','] + resources_name(resources)
        + seq![','] + nic_type_name(nic) + seq![','] + protocol_name(protocol)
}

/// Position of the entry for a protocol.
fn position_of_protocol(v: &Vec<(RoutingProtocol, Vec<Route>)>, p: &RoutingProtocol) -> (r: Option<usize>)
    ensures
        r is None <==> first_index_of(v@, protocol_eq(), *p) is None,
        r matches Some(i) ==> first_index_of(v@, protocol_eq(), *p) == Some(i as int),
{
    let mut i: usize = 0;
    while i < v.len()
        invariant
            i <= v@.len(),
            first_index_of(v@.subrange(0, i as int), protocol_eq(), *p) is None,
        decreases v@.len() - i,
    {
        assert(v@.subrange(0, i + 1).drop_last() == v@.subrange(0, i as int));
        if v[i].0 == *p {
            proof {
                crate::index_maps::lemma_first_index_prefix(v@, protocol_eq(), *p, i as int);
            }
            return Some(i);
        }
        i = i + 1;
    }
    assert(v@.subrange(0, i as int) == v@);
    None
}

/// One interface of the model per address, under the same index.
fn nics_of(ips: Vec<(NicIndex, Ipv4Inet)>, nic: NicType) -> (r: Vec<(NicIndex, Nic)>)
    ensures
        r@ == nics_from_ips(ips@, nic),
{
    let ghost s = ips@;
    let n = ips.len();
    let mut rest = ips;
    let mut out: Vec<(NicIndex, Nic)> = Vec::new();
    let mut k: usize = 0;
    while rest.len() > 0
        invariant
            n == s.len(),
            k + rest@.len() == n,
            rest@ == s.subrange(k as int, n as int),
            out@ == nics_from_ips(s.subrange(0, k as int), nic),
        decreases rest@.len(),
    {
        let (index, ip) = rest.remove(0);
        assert((index, ip) == s[k as int]);
        out.push((index, Nic { nic_type: nic, ip_address: ip }));
        k = k + 1;
        assert(rest@ == s.subrange(k as int, n as int));
        assert(out@ =~= nics_from_ips(s.subrange(0, k as int), nic));
    }
    assert(s.subrange(0, n as int) == s);
    out
}

/// The experiment machine made of a topology machine.
pub fn instantiate_node(
    g: GenericNode,
    os_name: &String,
    resources: HardwareResources,
    nic: NicType,
    protocol: RoutingProtocol,
) -> (n: Node)
    ensures
        node_instantiates(n, g, *os_name, resources, nic, protocol),
{
    let GenericNode { x, y, node_type } = g;
    let (vcpu, ram, node_type) = match node_type {
        GenericNodeType::Guest(guest) => (guest.vcpu, guest.ram, NodeType::Guest(Guest { ip: guest.ip })),
        GenericNodeType::Router(router) => {
            let (vcpu, ram) = resources.to_vcpu_and_ram();
            let GenericRouter { number_nics, ips, routes } = router;
            let mut route_entries = protocol_routes_map_into_entries(routes);
            proof {
                crate::index_maps::lemma_first_index_of(route_entries@, protocol_eq(), protocol);
            }
            let routes = match position_of_protocol(&route_entries, &protocol) {
                Some(i) => {
                    let (_, found) = route_entries.remove(i);
                    found
                },
                None => Vec::new(),
            };
            let ip_entries = nic_ip_map_into_entries(ips);
            let ghost ip_seq = ip_entries@;
            let nic_list = nics_of(ip_entries, nic);
            proof {
                assert forall|a: int, b: int| 0 <= a < b < nic_list@.len() implies
                    !nic_index_eq()(#[trigger] nic_list@[a].0, #[trigger] nic_list@[b].0) by {
                    assert(nic_list@[a].0 == ip_seq[a].0 && nic_list@[b].0 == ip_seq[b].0);
                }
                lemma_insert_all_distinct(nic_list@, nic_index_eq());
            }
            let nics = nic_map_from_entries(nic_list);
            (vcpu, ram, NodeType::Router(Router { os_name: os_name.clone(), number_nics, nics, routes }))
        },
    };
    Node { vcpu, ram, x, y, node_type, distant_networks: Vec::new() }
}

/// The name of an experiment.
pub fn make_experiment_name(
    topology_name: &String,
    os_name: &String,
    test_batch_name: &String,
    resources: HardwareResources,
    nic: NicType,
    protocol: RoutingProtocol,
) -> (r: String)
    ensures
        r@ == experiment_name(topology_name@, os_name@, test_batch_name@, resources, nic, protocol),
{
    let mut s = topology_name.clone();
    push_char(&mut s, ',');
    push_str(&mut s, os_name.as_str());
    push_char(&mut s, ',');
    push_str(&mut s, test_batch_name.as_str());
    push_char(&mut s, ',');
    let r = resources.to_display_string();
    push_str(&mut s, r.as_str());
    push_char(&mut s, ',');
    let n = nic.to_display_string();
    push_str(&mut s, n.as_str());
    push_char(&mut s, ',');
    let p = protocol.to_display_string();
    push_str(&mut s, p.as_str());
    s
}

/// The experiment made of a topology for one operating system, test batch,
/// hardware profile, NIC model and routing protocol.
pub fn build_experiment(
    topology_name: &String,
    os_name: &String,
    test_batch_name: &String,
    test_batch: Vec<Test>,
    resources: HardwareResources,
    nic: NicType,
    protocol: RoutingProtocol,
    network: GenericNetwork,
) -> (r: Experiment)
    ensures
        r.experiment_name@ == experiment_name(topology_name@, os_name@, test_batch_name@, resources, nic, protocol),
        r.network.physical_links == network.physical_links,
        r.test_batch == test_batch,
        node_entries(r.network.nodes).len() == generic_node_entries(network.nodes).len(),
        forall|i: int| 0 <= i < generic_node_entries(network.nodes).len() ==> {
            &&& (#[trigger] node_entries(r.network.nodes)[i]).0 == generic_node_entries(network.nodes)[i].0
            &&& node_instantiates(node_entries(r.network.nodes)[i].1, generic_node_entries(network.nodes)[i].1,
                *os_name, resources, nic, protocol)
        },
{
    let GenericNetwork { nodes, physical_links } = network;
    let generic = generic_node_map_into_entries(nodes);
    let ghost s = generic@;
    let n = generic.len();
    let mut rest = generic;
    let mut out: Vec<(String, Node)> = Vec::new();
    let mut k: usize = 0;
    while rest.len() > 0
        invariant
            n == s.len(),
            k + rest@.len() == n,
            rest@ == s.subrange(k as int, n as int),
            out@.len() == k,
            forall|i: int| 0 <= i < k ==> {
                &&& (#[trigger] out@[i]).0 == s[i].0
                &&& node_instantiates(out@[i].1, s[i].1, *os_name, resources, nic, protocol)
            },
        decreases rest@.len(),
    {
        let (key, generic_node) = rest.remove(0);
        assert((key, generic_node) == s[k as int]);
        let node = instantiate_node(generic_node, os_name, resources, nic, protocol);
        out.push((key, node));
        k = k + 1;
        assert(rest@ == s.subrange(k as int, n as int));
    }
    proof {
        assert forall|a: int, b: int| 0 <= a < b < out@.len() implies
            !string_key_eq()(#[trigger] out@[a].0, #[trigger] out@[b].0) by {
            assert(out@[a].0 == s[a].0 && out@[b].0 == s[b].0);
        }
        lemma_insert_all_distinct(out@, string_key_eq());
    }
    let nodes = node_map_from_entries(out);
    let experiment_name = make_experiment_name(topology_name, os_name, test_batch_name, resources, nic, protocol);
    Experiment { experiment_name, network: Network { nodes, physical_links }, test_batch }
}

/// The hardware profiles to generate for: all, or the one selected.
pub fn resources_to_use(selected: &Option<HardwareResources>) -> (r: Vec<HardwareResources>)
    ensures
        r@ == match selected {
            None => seq![
                HardwareResources::LowResources,
                HardwareResources::MediumResources,
                HardwareResources::HighResources,
            ],
            Some(resources) => seq![*resources],
        },
{
    match selected {
        None => HardwareResources::variants(),
        Some(resources) => vec![*resources],
    }
}

/// The NIC models to generate for: all, or the one selected.
pub fn nic_types_to_use(selected: &Option<NicType>) -> (r: Vec<NicType>)
    ensures
        r@ == match selected {
            None => seq![NicType::Rtl8139, NicType::E1000, NicType::VirtIO],
            Some(nic) => seq![*nic],
        },
{
    match selected {
        None => NicType::variants(),
        Some(nic) => vec![*nic],
    }
}

/// The product of the factors, multiplied left to right; `None` as soon as a
/// partial product exceeds `usize::MAX`.
pub open spec fn running_product(factors: Seq<usize>) -> Option<nat>
    decreases factors.len(),
{
    if factors.len() == 0 {
        Some(1)
    } else {
        match running_product(factors.drop_last()) {
            None => None,
            Some(p) => if p * (factors.last() as nat) > usize::MAX {
                None
            } else {
                Some(p * (factors.last() as nat))
            },
        }
    }
}

/// The number of experiments: the numbers of operating systems, test
/// batches, hardware profiles and NIC models, then the number of protocols
/// of each topology, multiplied; `None` where the product overflows.
pub fn experiment_count(factors: &Vec<usize>) -> (r: Option<usize>)
    ensures
        match running_product(factors@) {
            Some(p) => r == Some(p as usize),
            None => r is None,
        },
{
    let mut count: usize = 1;
    let mut i: usize = 0;
    while i < factors.len()
        invariant
            i <= factors@.len(),
            running_product(factors@.subrange(0, i as int)) == Some(count as nat),
        decreases factors@.len() - i,
    {
        assert(factors@.subrange(0, i + 1).drop_last() == factors@.subrange(0, i as int));
        match count.checked_mul(factors[i]) {
            Some(c) => {
                count = c;
            },
            None => {
                proof {
                    lemma_running_product_none(factors@, i as int);
                }
                return None;
            },
        }
        i = i + 1;
    }
    assert(factors@.subrange(0, i as int) == factors@);
    Some(count)
}

proof fn lemma_running_product_none(factors: Seq<usize>, i: int)
    requires
        0 <= i < factors.len(),
        running_product(factors.subrange(0, i + 1)) is None,
    ensures
        running_product(factors) is None,
    decreases factors.len(),
{
    if i < factors.len() - 1 {
        assert(factors.drop_last().subrange(0, i + 1) == factors.subrange(0, i + 1));
        lemma_running_product_none(factors.drop_last(), i);
    } else {
        assert(factors.subrange(0, i + 1) == factors);
    }
}

/// Each element of `a` paired with each element of `b`: the pairs of the
/// first element of `a` come first, each group in the order of `b`.
pub open spec fn cross<A, B>(a: Seq<A>, b: Seq<B>) -> Seq<(A, B)>
    decreases a.len(),
{
    if a.len() == 0 {
        Seq::empty()
    } else {
        cross(a.drop_last(), b) + b.map_values(|y: B| (a.last(), y))
    }
}

/// The protocols of the topologies in order, each with the position of its
/// topology.
pub open spec fn topology_protocols(protocols: Seq<Seq<RoutingProtocol>>) -> Seq<(usize, RoutingProtocol)>
    decreases protocols.len(),
{
    if protocols.len() == 0 {
        Seq::empty()
    } else {
        let t = (protocols.len() - 1) as usize;
        topology_protocols(protocols.drop_last()) + protocols.last().map_values(|p: RoutingProtocol| (t, p))
    }
}

/// The positions `0..n`.
pub open spec fn positions(n: nat) -> Seq<usize> {
    Seq::new(n, |i: int| i as usize)
}

/// One experiment to generate: the positions of its operating system and
/// test batch in their lists, its hardware profile and NIC model, the
/// position of its topology and the protocol.
pub type PlannedExperiment = (usize, usize, HardwareResources, NicType, usize, RoutingProtocol);

/// The experiments to generate, in the order the directories are walked:
/// operating system, test batch, hardware profile, NIC model, topology,
/// then the protocols of that topology.
pub open spec fn experiment_plan_of(
    n_oses: nat,
    n_test_batches: nat,
    resources: Seq<HardwareResources>,
    nics: Seq<NicType>,
    protocols: Seq<Seq<RoutingProtocol>>,
) -> Seq<PlannedExperiment> {
    cross(positions(n_oses), cross(positions(n_test_batches), cross(resources, cross(nics, topology_protocols(protocols)))))
        .map_values(|j: (usize, (usize, (HardwareResources, (NicType, (usize, RoutingProtocol)))))|
            (j.0, j.1.0, j.1.1.0, j.1.1.1.0, j.1.1.1.1.0, j.1.1.1.1.1))
}

proof fn lemma_cross_step<A, B>(a: Seq<A>, b: Seq<B>, i: int)
    requires
        0 <= i < a.len(),
    ensures
        cross(a.subrange(0, i + 1), b) == cross(a.subrange(0, i), b) + b.map_values(|y: B| (a[i], y)),
{
    assert(a.subrange(0, i + 1).drop_last() == a.subrange(0, i));
}

fn cross_vec<A: Copy, B: Copy>(a: &Vec<A>, b: &Vec<B>) -> (r: Vec<(A, B)>)
    ensures
        r@ == cross(a@, b@),
{
    let mut r: Vec<(A, B)> = Vec::new();
    let mut i: usize = 0;
    while i < a.len()
        invariant
            i <= a@.len(),
            r@ == cross(a@.subrange(0, i as int), b@),
        decreases a@.len() - i,
    {
        let x = a[i];
        let ghost before = r@;
        let mut j: usize = 0;
        while j < b.len()
            invariant
                j <= b@.len(),
                x == a@[i as int],
                r@ == before + b@.subrange(0, j as int).map_values(|y: B| (x, y)),
            decreases b@.len() - j,
        {
            r.push((x, b[j]));
            assert(b@.subrange(0, j + 1).map_values(|y: B| (x, y))
                =~= b@.subrange(0, j as int).map_values(|y: B| (x, y)).push((x, b@[j as int])));
            j = j + 1;
        }
        assert(b@.subrange(0, j as int) == b@);
        proof {
            lemma_cross_step(a@, b@, i as int);
        }
        i = i + 1;
    }
    assert(a@.subrange(0, i as int) == a@);
    r
}

fn positions_vec(n: usize) -> (r: Vec<usize>)
    ensures
        r@ == positions(n as nat),
{
    let mut r: Vec<usize> = Vec::new();
    let mut i: usize = 0;
    while i < n
        invariant
            i <= n,
            r@ == positions(i as nat),
        decreases n - i,
    {
        r.push(i);
        assert(r@ =~= positions((i + 1) as nat));
        i = i + 1;
    }
    r
}

fn topology_protocols_vec(protocols: &Vec<Vec<RoutingProtocol>>) -> (r: Vec<(usize, RoutingProtocol)>)
    ensures
        r@ == topology_protocols(protocols@.map_values(|v: Vec<RoutingProtocol>| v@)),
{
    let ghost views = protocols@.map_values(|v: Vec<RoutingProtocol>| v@);
    let mut r: Vec<(usize, RoutingProtocol)> = Vec::new();
    let mut t: usize = 0;
    while t < protocols.len()
        invariant
            t <= protocols@.len(),
            views == protocols@.map_values(|v: Vec<RoutingProtocol>| v@),
            r@ == topology_protocols(views.subrange(0, t as int)),
        decreases protocols@.len() - t,
    {
        let list = &protocols[t];
        let ghost before = r@;
        let mut j: usize = 0;
        while j < list.len()
            invariant
                j <= list@.len(),
                list@ == views[t as int],
                r@ == before + list@.subrange(0, j as int).map_values(|p: RoutingProtocol| (t, p)),
            decreases list@.len() - j,
        {
            r.push((t, list[j]));
            assert(list@.subrange(0, j + 1).map_values(|p: RoutingProtocol| (t, p))
                =~= list@.subrange(0, j as int).map_values(|p: RoutingProtocol| (t, p)).push((t, list@[j as int])));
            j = j + 1;
        }
        assert(list@.subrange(0, j as int) == list@);
        assert(views.subrange(0, t + 1).drop_last() == views.subrange(0, t as int));
        assert(views.subrange(0, t + 1).last() == views[t as int]);
        t = t + 1;
    }
    assert(views.subrange(0, t as int) == views);
    r
}

/// The experiments to generate for the selected lists: the numbers of
/// operating systems and test batches, the hardware profiles, the NIC models
/// and the protocols of each topology.
pub fn experiment_plan(
    n_oses: usize,
    n_test_batches: usize,
    resources: &Vec<HardwareResources>,
    nics: &Vec<NicType>,
    protocols: &Vec<Vec<RoutingProtocol>>,
) -> (r: Vec<PlannedExperiment>)
    ensures
        r@ == experiment_plan_of(
            n_oses as nat,
            n_test_batches as nat,
            resources@,
            nics@,
            protocols@.map_values(|v: Vec<RoutingProtocol>| v@),
        ),
{
    let inner = topology_protocols_vec(protocols);
    let with_nics = cross_vec(nics, &inner);
    let with_resources = cross_vec(resources, &with_nics);
    let with_batches = cross_vec(&positions_vec(n_test_batches), &with_resources);
    let all = cross_vec(&positions_vec(n_oses), &with_batches);
    let ghost nested = all@;
    let mut r: Vec<PlannedExperiment> = Vec::new();
    let mut i: usize = 0;
    while i < all.len()
        invariant
            i <= all@.len(),
            nested == all@,
            r@ == nested.subrange(0, i as int).map_values(
                |j: (usize, (usize, (HardwareResources, (NicType, (usize, RoutingProtocol)))))|
                    (j.0, j.1.0, j.1.1.0, j.1.1.1.0, j.1.1.1.1.0, j.1.1.1.1.1)),
        decreases all@.len() - i,
    {
        let j = all[i];
        r.push((j.0, j.1.0, j.1.1.0, j.1.1.1.0, j.1.1.1.1.0, j.1.1.1.1.1));
        assert(nested.subrange(0, i + 1).map_values(
            |j: (usize, (usize, (HardwareResources, (NicType, (usize, RoutingProtocol)))))|
                (j.0, j.1.0, j.1.1.0, j.1.1.1.0, j.1.1.1.1.0, j.1.1.1.1.1))
            =~= r@);
        i = i + 1;
    }
    assert(nested.subrange(0, i as int) == nested);
    r
}

/// Where the file of an experiment goes, below the experiments directory:
/// one directory per coordinate, then `experiment.json`.
pub fn experiment_path_components(
    os_name: &String,
    test_batch_name: &String,
    resources: HardwareResources,
    nic: NicType,
    topology_name: &String,
    protocol: RoutingProtocol,
) -> (r: Vec<String>)
    ensures
        r@.len() == 7,
        r@[0]@ == os_name@,
        r@[1]@ == test_batch_name@,
        r@[2]@ == resources_name(resources),
        r@[3]@ == nic_type_name(nic),
        r@[4]@ == topology_name@,
        r@[5]@ == protocol_name(protocol),
        r@[6]@ == "experiment.json"@,
{
    let mut r: Vec<String> = Vec::new();
    r.push(os_name.clone());
    r.push(test_batch_name.clone());
    r.push(resources.to_display_string());
    r.push(nic.to_display_string());
    r.push(topology_name.clone());
    r.push(protocol.to_display_string());
    r.push(owned("experiment.json"));
    r
}

/// A coordinate of an experiment file is selected: any when the selection
/// leaves it open, else the named one.
pub open spec fn coordinate_selected(selected: Option<Seq<char>>, value: Seq<char>) -> bool {
    match selected {
        None => true,
        Some(s) => s == value,
    }
}

fn selected_string(selected: &Option<String>, value: &str) -> (r: bool)
    ensures
        r == coordinate_selected(
            match selected {
                None => None,
                Some(s) => Some(s@),
            },
            value@,
        ),
{
    match selected {
        None => true,
        Some(s) => str_eq(s.as_str(), value),
    }
}

/// The selection takes the experiment stored under these directory names:
/// each coordinate the selection names must match, the profile, NIC model
/// and protocol by their displayed names.
pub open spec fn experiment_selected(
    selection: ExperimentSelectionArgs,
    os: Seq<char>,
    test_batch: Seq<char>,
    resources: Seq<char>,
    nic: Seq<char>,
    topology: Seq<char>,
    protocol: Seq<char>,
) -> bool {
    &&& coordinate_selected(match selection.os { None => None, Some(s) => Some(s@) }, os)
    &&& coordinate_selected(match selection.test_batch { None => None, Some(s) => Some(s@) }, test_batch)
    &&& coordinate_selected(match selection.resources { None => None, Some(r) => Some(resources_name(r)) }, resources)
    &&& coordinate_selected(match selection.nic { None => None, Some(n) => Some(nic_type_name(n)) }, nic)
    &&& coordinate_selected(match selection.topology { None => None, Some(s) => Some(s@) }, topology)
    &&& coordinate_selected(match selection.protocol { None => None, Some(p) => Some(protocol_name(p)) }, protocol)
}

/// Whether the selection takes the experiment stored under these directory
/// names.
pub fn experiment_is_selected(
    selection: &ExperimentSelectionArgs,
    os: &str,
    test_batch: &str,
    resources: &str,
    nic: &str,
    topology: &str,
    protocol: &str,
) -> (r: bool)
    ensures
        r == experiment_selected(*selection, os@, test_batch@, resources@, nic@, topology@, protocol@),
{
    let resources_ok = match &selection.resources {
        None => true,
        Some(r) => str_eq(r.to_display_string().as_str(), resources),
    };
    let nic_ok = match &selection.nic {
        None => true,
        Some(n) => str_eq(n.to_display_string().as_str(), nic),
    };
    let protocol_ok = match &selection.protocol {
        None => true,
        Some(p) => str_eq(p.to_display_string().as_str(), protocol),
    };
    selected_string(&selection.os, os) && selected_string(&selection.test_batch, test_batch) && resources_ok
        && nic_ok && selected_string(&selection.topology, topology) && protocol_ok
}

} // verus!
