use indexmap::IndexMap;
use netlab::args::args::{Command, ExperimentSelectionArgs};
use netlab::args::generate::{GenerateCommand, GenerateSubcommand};
use netlab::args::run::{RunCommand, RunCommandArgs};
use netlab::commands::generate::{
    build_experiment, experiment_count, experiment_is_selected, experiment_path_components, experiment_plan, get_oses_to_use, get_test_batches_to_use,
    get_topologies_to_use, make_experiment_name, nic_types_to_use, resources_to_use, SelectionError,
};
use netlab::models::hardware_resources::HardwareResources;
use netlab::models::ip::{Ipv4Address, Ipv4Cidr, Ipv4Inet};
use netlab::models::link::Link;
use netlab::models::network::GenericNetwork;
use netlab::models::nic::{NicIndex, NicType};
use netlab::models::nodes::guest::GenericGuest;
use netlab::models::nodes::node::{GenericNode, GenericNodeType, NodeType};
use netlab::models::nodes::router::GenericRouter;
use netlab::models::operating_system::{InterfacePrefix, OperatingSystem};
use netlab::models::protocol::RoutingProtocol;
use netlab::models::routes::route::Route;
use netlab::models::routes::static_route::StaticRoute;
use netlab::models::test::Test;
use netlab::models::topology::Topology;

fn system(name: &str) -> OperatingSystem {
    OperatingSystem {
        input_ready: "$".to_string(),
        trigger_sequence: None,
        login: None,
        password: None,
        network_stack: "ns".to_string(),
        routing_stack: None,
        interface_prefix: InterfacePrefix::Simple("eth".to_string()),
        interfaces_start_at: 0,
        gap_between_interfaces: 1,
        image_path: format!("/img/{name}.qcow2"),
        resources_monitor_commands: None,
    }
}

fn test(name: &str) -> Test {
    Test {
        name: name.to_string(),
        test: "ping".to_string(),
        fire_at: 0,
        duration: 10,
        from: "G1".to_string(),
        to: "G2".to_string(),
    }
}

fn inet(a: u32, l: u8) -> Ipv4Inet {
    Ipv4Inet { address: a, network_length: l }
}

fn network() -> GenericNetwork {
    let mut nodes = IndexMap::new();
    nodes.insert(
        "G1".to_string(),
        GenericNode { x: 10, y: 20, node_type: GenericNodeType::Guest(GenericGuest { vcpu: 1, ram: 256, ip: inet(0x0a000102, 24) }) },
    );
    let mut ips = IndexMap::new();
    ips.insert(NicIndex("0".to_string()), inet(0x0a000101, 24));
    ips.insert(NicIndex("1".to_string()), inet(0x0a000201, 24));
    let mut routes = IndexMap::new();
    routes.insert(RoutingProtocol::Rip, vec![Route::Ospf]);
    routes.insert(
        RoutingProtocol::Static,
        vec![Route::Static(StaticRoute {
            distant_network: Ipv4Cidr { first_address: 0x0a000300, network_length: 24 },
            gateway: Ipv4Address(0x0a000202),
            interface: 1,
        })],
    );
    nodes.insert(
        "R1".to_string(),
        GenericNode { x: -5, y: 7, node_type: GenericNodeType::Router(GenericRouter { number_nics: 4, ips, routes }) },
    );
    GenericNetwork {
        nodes,
        physical_links: vec![Link { node_a: "G1".to_string(), adapter_a: 0, node_b: "R1".to_string(), adapter_b: 0 }],
    }
}

fn topology(protocols: Vec<RoutingProtocol>) -> Topology {
    Topology { supported_routing_protocols: protocols, network: network() }
}

#[test]
fn os_selection() {
    let mut list = IndexMap::new();
    list.insert("vyos".to_string(), system("vyos"));
    list.insert("frr".to_string(), system("frr"));
    let all = get_oses_to_use(&None, list).unwrap();
    assert_eq!(all.keys().collect::<Vec<_>>(), vec!["vyos", "frr"]);
    let one = get_oses_to_use(&Some("frr".to_string()), all).unwrap();
    assert_eq!(one.keys().collect::<Vec<_>>(), vec!["frr"]);
    assert_eq!(one["frr"].image_path, "/img/frr.qcow2");
    let missing = get_oses_to_use(&Some("bsd".to_string()), one);
    assert!(matches!(missing, Err(SelectionError::OsNotFound(ref n)) if n == "bsd"));
}

#[test]
fn test_batch_selection() {
    let mut list = IndexMap::new();
    list.insert("short".to_string(), vec![test("a")]);
    list.insert("long".to_string(), vec![test("b"), test("c")]);
    let one = get_test_batches_to_use(&Some("long".to_string()), list).unwrap();
    assert_eq!(one.len(), 1);
    assert_eq!(one["long"].len(), 2);
    let err = get_test_batches_to_use(&Some("x".to_string()), one);
    assert!(matches!(err, Err(SelectionError::TestBatchNotFound(ref n)) if n == "x"));
}

#[test]
fn topology_selection() {
    let mut list = IndexMap::new();
    list.insert("line".to_string(), topology(vec![RoutingProtocol::Static, RoutingProtocol::Rip]));
    list.insert("star".to_string(), topology(vec![RoutingProtocol::Rip, RoutingProtocol::Ospf]));
    let rip = get_topologies_to_use(&None, list, &Some(RoutingProtocol::Rip)).unwrap();
    assert_eq!(rip.len(), 2);
    assert_eq!(rip["line"].supported_routing_protocols, vec![RoutingProtocol::Rip]);
    assert_eq!(rip["star"].supported_routing_protocols, vec![RoutingProtocol::Rip]);

    let mut list = IndexMap::new();
    list.insert("line".to_string(), topology(vec![RoutingProtocol::Static, RoutingProtocol::Rip]));
    list.insert("star".to_string(), topology(vec![RoutingProtocol::Rip, RoutingProtocol::Ospf]));
    let err = get_topologies_to_use(&None, list, &Some(RoutingProtocol::Ospf));
    assert!(matches!(err, Err(SelectionError::ProtocolNotInTopology { protocol: RoutingProtocol::Ospf, ref topology }) if topology == "line"));

    let mut list = IndexMap::new();
    list.insert("line".to_string(), topology(vec![RoutingProtocol::Static, RoutingProtocol::Rip]));
    list.insert("star".to_string(), topology(vec![RoutingProtocol::Rip, RoutingProtocol::Ospf]));
    let star = get_topologies_to_use(&Some("star".to_string()), list, &Some(RoutingProtocol::Ospf)).unwrap();
    assert_eq!(star.keys().collect::<Vec<_>>(), vec!["star"]);
    assert_eq!(star["star"].supported_routing_protocols, vec![RoutingProtocol::Ospf]);
    let unchanged = get_topologies_to_use(&None, star, &None).unwrap();
    assert_eq!(unchanged["star"].supported_routing_protocols, vec![RoutingProtocol::Ospf]);
    let missing = get_topologies_to_use(&Some("mesh".to_string()), unchanged, &None);
    assert!(matches!(missing, Err(SelectionError::TopologyNotFound(ref n)) if n == "mesh"));
}

#[test]
fn profiles_and_nics_to_use() {
    assert_eq!(resources_to_use(&None).len(), 3);
    assert_eq!(resources_to_use(&Some(HardwareResources::HighResources)), vec![HardwareResources::HighResources]);
    assert_eq!(nic_types_to_use(&None), vec![NicType::Rtl8139, NicType::E1000, NicType::VirtIO]);
    assert_eq!(nic_types_to_use(&Some(NicType::E1000)), vec![NicType::E1000]);
}

#[test]
fn counting_experiments() {
    assert_eq!(experiment_count(&vec![2, 3, 3, 3, 2, 1]), Some(108));
    assert_eq!(experiment_count(&vec![]), Some(1));
    assert_eq!(experiment_count(&vec![5, 0, 7]), Some(0));
    assert_eq!(experiment_count(&vec![usize::MAX, 2]), None);
    assert_eq!(experiment_count(&vec![usize::MAX, 2, 0]), None);
}

#[test]
fn experiment_names_and_paths() {
    let name = make_experiment_name(
        &"line".to_string(),
        &"vyos".to_string(),
        &"short".to_string(),
        HardwareResources::LowResources,
        NicType::E1000,
        RoutingProtocol::Rip,
    );
    assert_eq!(name, "line,vyos,short,Low Resources,E1000,RIP");
    let path = experiment_path_components(
        &"vyos".to_string(),
        &"short".to_string(),
        HardwareResources::HighResources,
        NicType::VirtIO,
        &"line".to_string(),
        RoutingProtocol::Static,
    );
    assert_eq!(path, vec!["vyos", "short", "High Resources", "VirtIO", "line", "static", "experiment.json"]);
}

#[test]
fn building_an_experiment() {
    let e = build_experiment(
        &"line".to_string(),
        &"vyos".to_string(),
        &"short".to_string(),
        vec![test("t1")],
        HardwareResources::MediumResources,
        NicType::VirtIO,
        RoutingProtocol::Static,
        network(),
    );
    assert_eq!(e.experiment_name, "line,vyos,short,Medium Resources,VirtIO,static");
    assert_eq!(e.test_batch.len(), 1);
    assert_eq!(e.network.physical_links.len(), 1);
    assert_eq!(e.network.nodes.keys().collect::<Vec<_>>(), vec!["G1", "R1"]);
    let g = &e.network.nodes["G1"];
    assert_eq!((g.vcpu, g.ram, g.x, g.y), (1, 256, 10, 20));
    assert!(matches!(g.node_type, NodeType::Guest(guest) if guest.ip == inet(0x0a000102, 24)));
    let r = &e.network.nodes["R1"];
    assert_eq!((r.vcpu, r.ram, r.x, r.y), (2, 2048, -5, 7));
    assert!(r.distant_networks.is_empty());
    match &r.node_type {
        NodeType::Router(router) => {
            assert_eq!(router.os_name, "vyos");
            assert_eq!(router.number_nics, 4);
            assert_eq!(router.routes.len(), 1);
            assert!(matches!(router.routes[0], Route::Static(ref s) if s.interface == 1));
            let nics: Vec<_> = router.nics.iter().map(|(k, n)| (k.0.clone(), n.nic_type, n.ip_address)).collect();
            assert_eq!(
                nics,
                vec![
                    ("0".to_string(), NicType::VirtIO, inet(0x0a000101, 24)),
                    ("1".to_string(), NicType::VirtIO, inet(0x0a000201, 24)),
                ]
            );
        },
        NodeType::Guest(_) => panic!("R1 is a router"),
    }
    let bgp = build_experiment(
        &"line".to_string(),
        &"vyos".to_string(),
        &"short".to_string(),
        vec![],
        HardwareResources::LowResources,
        NicType::E1000,
        RoutingProtocol::Bgp,
        network(),
    );
    assert!(bgp.network.nodes["R1"].unwrap_router().routes.is_empty());
    assert_eq!(bgp.network.nodes["R1"].vcpu, 1);
}

#[test]
fn generate_command_parts() {
    let selection = ExperimentSelectionArgs {
        os: Some("vyos".to_string()),
        test_batch: None,
        resources: None,
        nic: None,
        topology: None,
        protocol: None,
    };
    let files = GenerateCommand {
        command: GenerateSubcommand::Files { override_: true, experiment_selection: selection.clone() },
    };
    assert!(files.override_existing());
    assert_eq!(files.experiment_selection().os, Some("vyos".to_string()));
    assert_eq!(files.command.to_display_string(), "Files");
    let run = GenerateCommand {
        command: GenerateSubcommand::Run(RunCommand {
            experiment_selection: selection,
            run_command: RunCommandArgs { no_sleep: false, no_test: false, first_only: true, no_stop: false, os_setup: false },
        }),
    };
    assert!(!run.override_existing());
    assert_eq!(run.command.to_display_string(), "Run");
    assert_eq!(Command::Generate(run).to_display_string(), "Generate");
}

#[test]
fn selecting_stored_experiments() {
    let open = ExperimentSelectionArgs {
        os: None,
        test_batch: None,
        resources: None,
        nic: None,
        topology: None,
        protocol: None,
    };
    assert!(experiment_is_selected(&open, "vyos", "short", "High Resources", "VirtIO", "line", "RIP"));
    let narrow = ExperimentSelectionArgs {
        os: Some("vyos".to_string()),
        test_batch: None,
        resources: Some(HardwareResources::HighResources),
        nic: Some(NicType::VirtIO),
        topology: None,
        protocol: Some(RoutingProtocol::Rip),
    };
    assert!(experiment_is_selected(&narrow, "vyos", "short", "High Resources", "VirtIO", "line", "RIP"));
    assert!(!experiment_is_selected(&narrow, "frr", "short", "High Resources", "VirtIO", "line", "RIP"));
    assert!(!experiment_is_selected(&narrow, "vyos", "short", "Low Resources", "VirtIO", "line", "RIP"));
    assert!(!experiment_is_selected(&narrow, "vyos", "short", "High Resources", "E1000", "line", "RIP"));
    assert!(!experiment_is_selected(&narrow, "vyos", "short", "High Resources", "VirtIO", "line", "static"));
}

#[test]
fn planning_experiments() {
    let plan = experiment_plan(
        2,
        1,
        &vec![HardwareResources::LowResources],
        &vec![NicType::E1000, NicType::VirtIO],
        &vec![vec![RoutingProtocol::Static, RoutingProtocol::Rip], vec![RoutingProtocol::Ospf]],
    );
    assert_eq!(plan.len(), 12);
    assert_eq!(
        plan[..4].to_vec(),
        vec![
            (0, 0, HardwareResources::LowResources, NicType::E1000, 0, RoutingProtocol::Static),
            (0, 0, HardwareResources::LowResources, NicType::E1000, 0, RoutingProtocol::Rip),
            (0, 0, HardwareResources::LowResources, NicType::E1000, 1, RoutingProtocol::Ospf),
            (0, 0, HardwareResources::LowResources, NicType::VirtIO, 0, RoutingProtocol::Static),
        ]
    );
    assert_eq!(plan[11], (1, 0, HardwareResources::LowResources, NicType::VirtIO, 1, RoutingProtocol::Ospf));
    assert!(experiment_plan(0, 3, &vec![HardwareResources::LowResources], &vec![NicType::E1000], &vec![vec![RoutingProtocol::Static]]).is_empty());
    assert!(experiment_plan(1, 1, &vec![HardwareResources::LowResources], &vec![NicType::E1000], &vec![]).is_empty());
}
