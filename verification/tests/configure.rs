use indexmap::IndexMap;
use netlab::commands::configure::{
    distant_network_for, guest_commands, prefixed_name, router_adapter_type, router_commands, test_command, test_routes_of,
    CommandError,
};
use netlab::models::test::Test;
use netlab::commands::run::{is_stale, run_steps, RunStep};
use netlab::args::run::RunCommandArgs;
use netlab::models::experiment::Experiment;
use netlab::models::gns3::template::{qemu_template, TemplateCategory, TemplateType};
use netlab::models::ip::{Ipv4Address, Ipv4Cidr, Ipv4Inet};
use netlab::models::link::Link;
use netlab::models::network::Network;
use netlab::models::network_stack::NetworkStack;
use netlab::models::nic::{Nic, NicIndex, NicType, ParseIndexError};
use netlab::models::nodes::guest::Guest;
use netlab::models::nodes::node::{DistantNetwork, Node, NodeType};
use netlab::models::nodes::router::Router;
use netlab::models::operating_system::{check_os_stacks, InterfacePrefix, OperatingSystem, OsListError};
use netlab::models::os_command::{DeserializedOsCommandType, OsCommand, SendType};
use netlab::models::routes::route::Route;
use netlab::models::routes::static_route::StaticRoute;

fn system() -> OperatingSystem {
    OperatingSystem {
        input_ready: "vyos@vyos:~$".to_string(),
        trigger_sequence: None,
        login: Some("admin".to_string()),
        password: None,
        network_stack: "iproute2".to_string(),
        routing_stack: None,
        interface_prefix: InterfacePrefix::Custom(vec![(NicType::E1000, "eth".to_string())]),
        interfaces_start_at: 0,
        gap_between_interfaces: 1,
        image_path: "/images/vyos.qcow2".to_string(),
        resources_monitor_commands: None,
    }
}

fn simple(s: &str) -> DeserializedOsCommandType {
    DeserializedOsCommandType::Simple(s.to_string())
}

fn stack() -> NetworkStack {
    NetworkStack {
        start: vec![simple("start {OS}")],
        add_ip_address: vec![simple("ip {INTERFACE_PREFIX}{INTERFACE_INDEX} {IP_ADDRESS}")],
        add_static_route: vec![simple("route {DISTANT_NETWORK} {GATEWAY} {INTERFACE_INDEX}")],
        stop: vec![simple("stop")],
    }
}

fn router(index: &str, nic_type: NicType) -> Router {
    let mut nics = IndexMap::new();
    nics.insert(NicIndex(index.to_string()), Nic { nic_type, ip_address: Ipv4Inet { address: 0x0a000101, network_length: 24 } });
    Router {
        os_name: "vyos".to_string(),
        number_nics: 2,
        nics,
        routes: vec![Route::Static(StaticRoute {
            distant_network: Ipv4Cidr { first_address: 0x0a000200, network_length: 24 },
            gateway: Ipv4Address(0x0a000102),
            interface: 0,
        })],
    }
}

fn text(c: &OsCommand) -> (String, String, bool) {
    match &c.send {
        SendType::Text(t, nl) => (c.expect.clone(), t.clone(), *nl),
        _ => panic!("not a text step"),
    }
}

#[test]
fn router_configuration_steps() {
    let os = system();
    let ns = stack();
    let r = router("0", NicType::E1000);
    let steps = router_commands("R1", &r, &os, &ns, None, false).unwrap();
    let ready = "vyos@vyos:~$".to_string();
    let seen: Vec<_> = steps.iter().map(text).collect();
    assert_eq!(
        seen,
        vec![
            ("login:".to_string(), "admin".to_string(), true),
            (ready.clone(), "start vyos".to_string(), true),
            (ready.clone(), "ip eth0 10.0.1.1/24".to_string(), true),
            (ready.clone(), String::new(), false),
            (ready.clone(), "route 10.0.2.0/24 10.0.1.2 0".to_string(), true),
            (ready.clone(), String::new(), false),
            (ready.clone(), "stop".to_string(), true),
        ]
    );
    assert!(router_commands("R1", &r, &os, &ns, None, true).unwrap().is_empty());
}

#[test]
fn router_configuration_errors() {
    let os = system();
    let ns = stack();
    let unknown = router("0", NicType::VirtIO);
    assert_eq!(router_commands("R1", &unknown, &os, &ns, None, false).unwrap_err(), CommandError::UnknownNicType(NicType::VirtIO));
    let bad = router("x", NicType::E1000);
    assert_eq!(
        router_commands("R1", &bad, &os, &ns, None, false).unwrap_err(),
        CommandError::InvalidInterfaceIndex(ParseIndexError::InvalidDigit)
    );
    assert!(router_commands("R1", &bad, &os, &ns, None, true).unwrap().is_empty());
}

fn guest_node() -> Node {
    Node {
        vcpu: 1,
        ram: 256,
        x: 0,
        y: 0,
        node_type: NodeType::Guest(Guest { ip: Ipv4Inet { address: 0x0a000102, network_length: 24 } }),
        distant_networks: vec![DistantNetwork {
            network: Ipv4Cidr { first_address: 0x0a000200, network_length: 24 },
            gateway: Ipv4Address(0x0a000101),
            adapter_index: 0,
        }],
    }
}

#[test]
fn guest_configuration_steps() {
    let steps = guest_commands(&guest_node());
    let seen: Vec<_> = steps.iter().map(text).collect();
    assert_eq!(
        seen,
        vec![
            ("# ".to_string(), "ip addr add 10.0.1.2/24 dev eth0".to_string(), true),
            ("# ".to_string(), "ip link set eth0 up".to_string(), true),
            ("# ".to_string(), "ip route add 10.0.2.0/24 via 10.0.1.1".to_string(), true),
            ("# ".to_string(), String::new(), false),
        ]
    );
}

fn two_guests_experiment() -> Experiment {
    let mut nodes = IndexMap::new();
    nodes.insert("G1".to_string(), guest_node());
    let mut g2 = guest_node();
    g2.node_type = NodeType::Guest(Guest { ip: Ipv4Inet { address: 0x0a000302, network_length: 24 } });
    nodes.insert("G2".to_string(), g2);
    let mut r = router("0", NicType::E1000);
    r.nics.insert(NicIndex("1".to_string()), Nic { nic_type: NicType::E1000, ip_address: Ipv4Inet { address: 0x0a000301, network_length: 24 } });
    nodes.insert("R1".to_string(), Node { vcpu: 1, ram: 1024, x: 0, y: 0, node_type: NodeType::Router(r), distant_networks: vec![] });
    Experiment {
        experiment_name: "e".to_string(),
        network: Network {
            nodes,
            physical_links: vec![
                Link { node_a: "G1".to_string(), adapter_a: 0, node_b: "R1".to_string(), adapter_b: 0 },
                Link { node_a: "R1".to_string(), adapter_a: 1, node_b: "G2".to_string(), adapter_b: 0 },
            ],
        },
        test_batch: vec![Test {
            name: "ping".to_string(),
            test: "ping {DESTINATION}".to_string(),
            fire_at: 0,
            duration: 10,
            from: "G1".to_string(),
            to: "G2".to_string(),
        }],
    }
}

#[test]
fn routes_for_the_tests() {
    let e = two_guests_experiment();
    let routes = test_routes_of(&e);
    assert_eq!(
        routes,
        vec![
            (
                "G1".to_string(),
                DistantNetwork {
                    network: Ipv4Cidr { first_address: 0x0a000300, network_length: 24 },
                    gateway: Ipv4Address(0x0a000101),
                    adapter_index: 0,
                }
            ),
            (
                "G2".to_string(),
                DistantNetwork {
                    network: Ipv4Cidr { first_address: 0x0a000100, network_length: 24 },
                    gateway: Ipv4Address(0x0a000301),
                    adapter_index: 0,
                }
            ),
        ]
    );
    assert_eq!(test_command(&e.test_batch[0], Ipv4Address(0x0a000302)), "ping 10.0.3.2");
}

#[test]
fn names_and_adapters() {
    assert_eq!(prefixed_name("netlab-", "R1"), "netlab-R1");
    assert_eq!(router_adapter_type(&router("0", NicType::VirtIO)), "virtio-net-pci");
    let bare = Router { os_name: "vyos".to_string(), number_nics: 0, nics: IndexMap::new(), routes: vec![] };
    assert_eq!(router_adapter_type(&bare), "");
}

#[test]
fn guest_route_through_its_router() {
    let mut nodes = IndexMap::new();
    nodes.insert("G1".to_string(), guest_node());
    nodes.insert(
        "R1".to_string(),
        Node { vcpu: 1, ram: 1024, x: 0, y: 0, node_type: NodeType::Router(router("0", NicType::E1000)), distant_networks: vec![] },
    );
    let experiment = Experiment {
        experiment_name: "e".to_string(),
        network: Network {
            nodes,
            physical_links: vec![Link { node_a: "G1".to_string(), adapter_a: 0, node_b: "R1".to_string(), adapter_b: 0 }],
        },
        test_batch: vec![],
    };
    let far = Ipv4Cidr { first_address: 0x0a000300, network_length: 24 };
    assert_eq!(
        distant_network_for(&experiment, &"G1".to_string(), far),
        Some(DistantNetwork { network: far, gateway: Ipv4Address(0x0a000101), adapter_index: 0 })
    );
    assert_eq!(distant_network_for(&experiment, &"R1".to_string(), far), None);
    assert_eq!(distant_network_for(&experiment, &"X".to_string(), far), None);
}

#[test]
fn steps_follow_the_run_options() {
    let all = RunCommandArgs { no_sleep: false, no_test: false, first_only: false, no_stop: false, os_setup: false };
    assert_eq!(
        run_steps(&all),
        vec![
            RunStep::BuildNetwork,
            RunStep::StartGuests,
            RunStep::ConfigureGuests,
            RunStep::ConfigureRouters,
            RunStep::Pause,
            RunStep::RunTests,
            RunStep::StopNodes,
        ]
    );
    let few = RunCommandArgs { no_sleep: true, no_test: true, first_only: true, no_stop: true, os_setup: true };
    assert_eq!(
        run_steps(&few),
        vec![RunStep::BuildNetwork, RunStep::StartGuests, RunStep::ConfigureGuests, RunStep::ConfigureRouters, RunStep::Exit]
    );
}

#[test]
fn stale_names_and_templates() {
    assert!(is_stale("netlab-line", "netlab-"));
    assert!(!is_stale("other", "netlab-"));
    assert!(!is_stale("net", "netlab-"));
    assert!(is_stale("anything", ""));
    let t = qemu_template("netlab-R1", TemplateCategory::Router, 2, 2048, 4, "e1000", "vyos.qcow2");
    assert_eq!(t.name, "netlab-R1");
    assert_eq!(t.compute_id.as_deref(), Some("local"));
    match t.template_type {
        TemplateType::Qemu(q) => {
            assert_eq!((q.cpus, q.ram, q.adapters), (2, 2048, 4));
            assert_eq!(q.adapter_type, "e1000");
            assert_eq!(q.hda_disk_image, "vyos.qcow2");
            assert_eq!(q.console_type, "telnet");
        },
        _ => panic!("a QEMU template"),
    }
}

#[test]
fn systems_name_listed_stacks() {
    let mut list = IndexMap::new();
    list.insert("vyos".to_string(), system());
    let mut frr = system();
    frr.routing_stack = Some("frr".to_string());
    list.insert("frr".to_string(), frr);
    let n = vec!["iproute2".to_string()];
    assert!(check_os_stacks(&list, &n, &vec!["frr".to_string()]).is_ok());
    match check_os_stacks(&list, &n, &vec![]) {
        Err(OsListError::UnknownRoutingStack { os, stack }) => assert_eq!((os.as_str(), stack.as_str()), ("frr", "frr")),
        other => panic!("{:?}", other),
    }
    match check_os_stacks(&list, &vec![], &vec![]) {
        Err(OsListError::UnknownNetworkStack { os, stack }) => assert_eq!((os.as_str(), stack.as_str()), ("vyos", "iproute2")),
        other => panic!("{:?}", other),
    }
}
