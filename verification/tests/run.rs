use indexmap::IndexMap;
use netlab::commands::run::{check_links, check_tests, filter_guests, filter_routers, node_position, NetworkError};
use netlab::models::ip::Ipv4Inet;
use netlab::models::link::Link;
use netlab::models::nodes::guest::Guest;
use netlab::models::nodes::node::{Node, NodeType};
use netlab::models::nodes::router::Router;
use netlab::models::test::Test;

fn guest(a: u32) -> Node {
    Node {
        vcpu: 1,
        ram: 256,
        x: 0,
        y: 0,
        node_type: NodeType::Guest(Guest { ip: Ipv4Inet { address: a, network_length: 24 } }),
        distant_networks: vec![],
    }
}

fn router() -> Node {
    Node {
        vcpu: 2,
        ram: 2048,
        x: 0,
        y: 0,
        node_type: NodeType::Router(Router { os_name: "vyos".to_string(), number_nics: 2, nics: IndexMap::new(), routes: vec![] }),
        distant_networks: vec![],
    }
}

fn nodes() -> IndexMap<String, Node> {
    let mut m = IndexMap::new();
    m.insert("G1".to_string(), guest(1));
    m.insert("R1".to_string(), router());
    m.insert("G2".to_string(), guest(2));
    m.insert("R2".to_string(), router());
    m
}

fn link(a: &str, b: &str) -> Link {
    Link { node_a: a.to_string(), adapter_a: 0, node_b: b.to_string(), adapter_b: 1 }
}

fn test(name: &str, from: &str, to: &str) -> Test {
    Test { name: name.to_string(), test: "ping".to_string(), fire_at: 5, duration: 30, from: from.to_string(), to: to.to_string() }
}

#[test]
fn guests_and_routers() {
    let m = nodes();
    assert_eq!(filter_guests(&m), vec![0, 2]);
    assert_eq!(filter_routers(&m), vec![1, 3]);
    assert_eq!(node_position(&m, &"G2".to_string()), Some(2));
    assert_eq!(node_position(&m, &"X".to_string()), None);
}

#[test]
fn links_name_machines() {
    let m = nodes();
    assert!(check_links(&m, &vec![link("G1", "R1"), link("R1", "R2")]).is_ok());
    assert!(matches!(
        check_links(&m, &vec![link("G1", "R1"), link("R9", "R2")]),
        Err(NetworkError::LinkNodeANotFound { ref node, link_index: 1 }) if node == "R9"
    ));
    assert!(matches!(
        check_links(&m, &vec![link("G1", "R7"), link("R9", "R2")]),
        Err(NetworkError::LinkNodeBNotFound { ref node, link_index: 0 }) if node == "R7"
    ));
}

#[test]
fn tests_run_between_guests() {
    let m = nodes();
    assert!(check_tests(&m, &vec![test("t", "G1", "G2")]).is_ok());
    assert!(matches!(
        check_tests(&m, &vec![test("t", "G1", "G2"), test("u", "G1", "G9")]),
        Err(NetworkError::TestNodeNotFound { ref node, ref test }) if node == "G9" && test == "u"
    ));
    assert!(matches!(
        check_tests(&m, &vec![test("t", "R1", "G2")]),
        Err(NetworkError::TestNodeNotGuest { ref node, .. }) if node == "R1"
    ));
    assert!(matches!(
        check_tests(&m, &vec![test("t", "X", "R2")]),
        Err(NetworkError::TestNodeNotGuest { ref node, .. }) if node == "R2"
    ));
}
