use indexmap::IndexMap;
use netlab::args::args::ExperimentSelectionArgs;
use netlab::commands::generate::{
    experiment_count, experiment_is_selected, experiment_path_components, experiment_plan, get_oses_to_use,
    make_experiment_name,
};
use netlab::commands::plot::{adjust_note, experiment_keywords};
use netlab::commands::run::{filter_guests, filter_routers};
use netlab::models::hardware_resources::HardwareResources;
use netlab::models::ip::Ipv4Inet;
use netlab::models::nic::{NicIndex, NicType};
use netlab::models::nodes::guest::Guest;
use netlab::models::nodes::node::{Node, NodeType};
use netlab::models::nodes::router::Router;
use netlab::models::operating_system::{InterfacePrefix, OperatingSystem};
use netlab::models::os_command::{format_command, CommandContext};
use netlab::models::protocol::RoutingProtocol;
use netlab::string_map::StringMap;
use netlab::text::{i64_to_string, u64_to_string};

fn system() -> OperatingSystem {
    OperatingSystem {
        input_ready: "#".to_string(),
        trigger_sequence: Some("\r".to_string()),
        login: Some("root".to_string()),
        password: Some("pw".to_string()),
        network_stack: "ifconfig".to_string(),
        routing_stack: None,
        interface_prefix: InterfacePrefix::Simple("em".to_string()),
        interfaces_start_at: 3,
        gap_between_interfaces: 1,
        image_path: "/i/bsd.img".to_string(),
        resources_monitor_commands: None,
    }
}

#[test]
fn index_written_in_decimal_reads_back() {
    for n in [0u16, 1, 9, 10, 99, 100, 4095, 65535] {
        assert_eq!(NicIndex(u64_to_string(n as u64)).to_u16(), Ok(n));
    }
    assert_eq!(i64_to_string(-32768), "-32768");
    assert_eq!(i64_to_string(i64::MIN), i64::MIN.to_string());
}

#[test]
fn experiment_name_splits_into_its_coordinates() {
    let name = make_experiment_name(
        &"star".to_string(),
        &"bsd".to_string(),
        &"long".to_string(),
        HardwareResources::HighResources,
        NicType::Rtl8139,
        RoutingProtocol::Mpls,
    );
    assert_eq!(experiment_keywords(&name), vec!["star", "bsd", "long", "High Resources", "RTL8139", "MPLS"]);
}

#[test]
fn selecting_twice_changes_nothing() {
    let mut list = IndexMap::new();
    list.insert("a".to_string(), system());
    list.insert("b".to_string(), system());
    let once = get_oses_to_use(&Some("b".to_string()), list).unwrap();
    assert_eq!(once.keys().collect::<Vec<_>>(), vec!["b"]);
    let twice = get_oses_to_use(&Some("b".to_string()), once).unwrap();
    assert_eq!(twice.keys().collect::<Vec<_>>(), vec!["b"]);
}

#[test]
fn guests_and_routers_split_the_machines() {
    let mut m = IndexMap::new();
    for i in 0..7u32 {
        let node_type = if i % 3 == 0 {
            NodeType::Router(Router { os_name: "x".to_string(), number_nics: 1, nics: IndexMap::new(), routes: vec![] })
        } else {
            NodeType::Guest(Guest { ip: Ipv4Inet { address: i, network_length: 32 } })
        };
        m.insert(format!("N{i}"), Node { vcpu: 1, ram: 1, x: 0, y: 0, node_type, distant_networks: vec![] });
    }
    let mut all: Vec<usize> = filter_guests(&m);
    all.extend(filter_routers(&m));
    all.sort();
    assert_eq!(all, (0..7).collect::<Vec<_>>());
}

#[test]
fn replacement_names_are_the_context_names_in_braces() {
    let os = system();
    let r = Router { os_name: "bsd".to_string(), number_nics: 2, nics: IndexMap::new(), routes: vec![] };
    let ctx = CommandContext {
        router_name: "R",
        router: &r,
        os: &os,
        network_stack: None,
        routing_stack: None,
        router_id: "9",
        routing_protocol: RoutingProtocol::Mpls,
    };
    let kv = ctx.to_key_value();
    let rm = ctx.to_replace_map(None).unwrap();
    for k in ["OS", "INPUT_READY", "TRIGGER_SEQUENCE", "LOGIN", "PASSWORD", "NETWORK_STACK", "INTERFACES_START_AT",
        "GAP_BETWEEN_INTERFACES", "IMAGE_PATH", "ROUTER_ID", "ROUTING_PROTOCOL"] {
        assert_eq!(rm.get(&format!("{{{k}}}")), kv.get(k), "{k}");
        assert!(kv.get(k).is_some());
    }
    assert!(kv.get("ROUTING_STACK").is_none());
    assert_eq!(format_command("{ROUTING_PROTOCOL}", &rm), "MPLS");
}

#[test]
fn templates_without_braces_are_kept() {
    let mut m = StringMap::new();
    m.insert("{A}".to_string(), "1".to_string());
    assert_eq!(format_command("plain A } text", &m), "plain A } text");
    assert_eq!(format_command("{A}", &m), "1");
}

#[test]
fn announced_count_is_the_number_planned_for_one_topology() {
    let resources = HardwareResources::variants();
    let nics = NicType::variants();
    let protocols = vec![RoutingProtocol::Static, RoutingProtocol::Rip, RoutingProtocol::Ospf];
    let plan = experiment_plan(2, 3, &resources, &nics, &vec![protocols.clone()]);
    let count = experiment_count(&vec![2, 3, resources.len(), nics.len(), protocols.len()]);
    assert_eq!(count, Some(plan.len()));
    assert_eq!(plan.len(), 162);
}

#[test]
fn generated_files_are_read_back_by_their_selection() {
    let selection = ExperimentSelectionArgs {
        os: Some("vyos".to_string()),
        test_batch: None,
        resources: Some(HardwareResources::MediumResources),
        nic: None,
        topology: None,
        protocol: Some(RoutingProtocol::Ospf),
    };
    for resources in HardwareResources::variants() {
        for nic in NicType::variants() {
            for protocol in [RoutingProtocol::Static, RoutingProtocol::Ospf, RoutingProtocol::Mpls] {
                let c = experiment_path_components(
                    &"vyos".to_string(),
                    &"short".to_string(),
                    resources,
                    nic,
                    &"line".to_string(),
                    protocol,
                );
                let chosen = resources == HardwareResources::MediumResources && protocol == RoutingProtocol::Ospf;
                assert_eq!(experiment_is_selected(&selection, &c[0], &c[1], &c[2], &c[3], &c[4], &c[5]), chosen);
            }
        }
    }
}

#[test]
fn keywords_join_back_into_the_name() {
    for name in ["line,vyos,short,Low Resources,E1000,RIP", "", "a,,b,", ","] {
        let k = experiment_keywords(name);
        assert!(!k.is_empty());
        assert_eq!(k.join(","), name);
    }
}

#[test]
fn raising_the_adjustment_removes_leading_spaces() {
    let notes = vec!["vyos", "Low Resources", "E1000"];
    let low = adjust_note(&notes, 0);
    let high = adjust_note(&notes, 15);
    let low_lines: Vec<&str> = low.lines().collect();
    let high_lines: Vec<&str> = high.lines().collect();
    assert_eq!(low_lines.len(), high_lines.len());
    for (l, h) in low_lines.iter().zip(high_lines.iter()) {
        assert_eq!(*l, format!("{}{}", " ".repeat(15), h));
    }
}

#[test]
fn selecting_one_os_keeps_exactly_one() {
    let mut list = IndexMap::new();
    for name in ["vyos", "frr", "bsd"] {
        list.insert(name.to_string(), OperatingSystem {
            input_ready: "$".to_string(),
            trigger_sequence: None,
            login: None,
            password: None,
            network_stack: "n".to_string(),
            routing_stack: None,
            interface_prefix: InterfacePrefix::Simple("eth".to_string()),
            interfaces_start_at: 0,
            gap_between_interfaces: 1,
            image_path: "/i.qcow2".to_string(),
            resources_monitor_commands: None,
        });
    }
    let kept = get_oses_to_use(&Some("frr".to_string()), list).unwrap();
    assert_eq!(kept.keys().collect::<Vec<_>>(), vec!["frr"]);
}
