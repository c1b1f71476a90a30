use netlab::models::hardware_resources::HardwareResources;
use netlab::models::ip::{Ipv4Address, Ipv4Cidr, Ipv4Inet};
use netlab::models::nic::{NicIndex, NicType, ParseIndexError};
use netlab::models::nodes::guest::Guest;
use netlab::models::nodes::node::{Node, NodeType};
use netlab::models::nodes::router::Router;
use netlab::models::operating_system::{gap_between_interfaces, InterfacePrefix, InterfacePrefixError, OperatingSystem};
use netlab::models::protocol::RoutingProtocol;
use netlab::models::routes::route_config::RouteConfig;
use indexmap::IndexMap;

fn os(image_path: &str, prefix: InterfacePrefix) -> OperatingSystem {
    OperatingSystem {
        input_ready: "$ ".to_string(),
        trigger_sequence: None,
        login: Some("vyos".to_string()),
        password: Some("vyos".to_string()),
        network_stack: "iproute2".to_string(),
        routing_stack: Some("frr".to_string()),
        interface_prefix: prefix,
        interfaces_start_at: 0,
        gap_between_interfaces: 1,
        image_path: image_path.to_string(),
        resources_monitor_commands: None,
    }
}

#[test]
fn hardware_profiles_give_cpus_and_ram() {
    assert_eq!(HardwareResources::LowResources.to_vcpu_and_ram(), (1, 1024));
    assert_eq!(HardwareResources::MediumResources.to_vcpu_and_ram(), (2, 2048));
    assert_eq!(HardwareResources::HighResources.to_vcpu_and_ram(), (4, 8096));
    assert_eq!(HardwareResources::MediumResources.to_display_string(), "Medium Resources");
    assert_eq!(HardwareResources::variants().len(), 3);
}

#[test]
fn nic_index_parses_decimal_numbers() {
    assert_eq!(NicIndex("0".to_string()).to_u16(), Ok(0));
    assert_eq!(NicIndex("12".to_string()).to_u16(), Ok(12));
    assert_eq!(NicIndex("+7".to_string()).to_u16(), Ok(7));
    assert_eq!(NicIndex("65535".to_string()).to_u16(), Ok(65535));
    assert_eq!(NicIndex("007".to_string()).to_u16(), Ok(7));
}

#[test]
fn nic_index_errors() {
    assert_eq!(NicIndex("".to_string()).to_u16(), Err(ParseIndexError::Empty));
    assert_eq!(NicIndex("+".to_string()).to_u16(), Err(ParseIndexError::InvalidDigit));
    assert_eq!(NicIndex("-".to_string()).to_u16(), Err(ParseIndexError::InvalidDigit));
    assert_eq!(NicIndex("-1".to_string()).to_u16(), Err(ParseIndexError::InvalidDigit));
    assert_eq!(NicIndex("1a".to_string()).to_u16(), Err(ParseIndexError::InvalidDigit));
    assert_eq!(NicIndex(" 1".to_string()).to_u16(), Err(ParseIndexError::InvalidDigit));
    assert_eq!(NicIndex("65536".to_string()).to_u16(), Err(ParseIndexError::PosOverflow));
    assert_eq!(NicIndex("99999a".to_string()).to_u16(), Err(ParseIndexError::PosOverflow));
}

#[test]
fn nic_index_agrees_with_std_parser() {
    for s in ["", "+", "-", "0", "42", "+42", "-42", "65535", "65536", "1x", "x1", "700000", "٣"] {
        let ours = NicIndex(s.to_string()).to_u16();
        let std = s.parse::<u16>();
        assert_eq!(ours.is_ok(), std.is_ok(), "{s}");
        if let (Ok(a), Ok(b)) = (ours, std) {
            assert_eq!(a, b);
        }
    }
}

#[test]
fn nic_type_names() {
    assert_eq!(NicType::Rtl8139.to_qemu_name(), "rtl8139");
    assert_eq!(NicType::E1000.to_qemu_name(), "e1000");
    assert_eq!(NicType::VirtIO.to_qemu_name(), "virtio-net-pci");
    assert_eq!(NicType::Rtl8139.to_display_string(), "RTL8139");
    assert_eq!(NicType::VirtIO.to_display_string(), "VirtIO");
    assert_eq!(NicType::variants(), vec![NicType::Rtl8139, NicType::E1000, NicType::VirtIO]);
}

#[test]
fn protocol_and_route_config_names() {
    assert_eq!(RoutingProtocol::Static.to_display_string(), "static");
    assert_eq!(RoutingProtocol::Ospf.to_display_string(), "OSPF");
    assert_eq!(RouteConfig::Bgp.to_protocol_name(), RoutingProtocol::Bgp);
    assert_eq!(RouteConfig::Static(vec![]).to_protocol_name(), RoutingProtocol::Static);
}

#[test]
fn image_name_is_the_file_name() {
    let s = os("/images/vyos-1.4.qcow2", InterfacePrefix::Simple("eth".to_string()));
    assert_eq!(s.image_name(), "vyos-1.4.qcow2");
    assert_eq!(os("images/dir/", InterfacePrefix::Simple(String::new())).image_name(), "dir");
    assert_eq!(os("images/dir/.", InterfacePrefix::Simple(String::new())).image_name(), "dir");
    assert_eq!(os("disk.img", InterfacePrefix::Simple(String::new())).image_name(), "disk.img");
    assert_eq!(os("./a//b.img", InterfacePrefix::Simple(String::new())).image_name(), "b.img");
}

#[test]
fn image_name_agrees_with_std_path() {
    for p in ["/a/b.qcow2", "a/b/", "a/b/.", "./x", "x//y", "/x/./y/.", "z"] {
        let expected = std::path::Path::new(p).file_name().unwrap().to_str().unwrap().to_string();
        assert_eq!(os(p, InterfacePrefix::Simple(String::new())).image_name(), expected, "{p}");
    }
}

#[test]
fn interface_prefix_by_nic_type() {
    let simple = os("a.img", InterfacePrefix::Simple("eth".to_string()));
    assert_eq!(simple.interface_prefix(&NicType::E1000), Ok("eth".to_string()));
    let custom = os(
        "a.img",
        InterfacePrefix::Custom(vec![
            (NicType::Rtl8139, "re".to_string()),
            (NicType::E1000, "em".to_string()),
            (NicType::E1000, "other".to_string()),
        ]),
    );
    assert_eq!(custom.interface_prefix(&NicType::E1000), Ok("em".to_string()));
    assert_eq!(custom.interface_prefix(&NicType::Rtl8139), Ok("re".to_string()));
    assert_eq!(
        custom.interface_prefix(&NicType::VirtIO),
        Err(InterfacePrefixError::UnknownNicType(NicType::VirtIO))
    );
    assert_eq!(gap_between_interfaces(), 1);
}

#[test]
fn network_of_an_address() {
    let ip = Ipv4Inet { address: 0x0a01_0203, network_length: 24 };
    assert_eq!(ip.network(), Ipv4Cidr { first_address: 0x0a01_0200, network_length: 24 });
    assert_eq!(ip.address(), Ipv4Address(0x0a01_0203));
    let host = Ipv4Inet { address: 0x0a01_0203, network_length: 32 };
    assert_eq!(host.network().first_address, 0x0a01_0203);
    let any = Ipv4Inet { address: 0x0a01_0203, network_length: 0 };
    assert_eq!(any.network().first_address, 0);
    let odd = Ipv4Inet { address: 0xc0a8_01ff, network_length: 17 };
    assert_eq!(odd.network().first_address, 0xc0a8_0000);
}

#[test]
fn unwrap_nodes() {
    let guest = Node {
        vcpu: 1,
        ram: 256,
        x: 0,
        y: 0,
        node_type: NodeType::Guest(Guest { ip: Ipv4Inet { address: 1, network_length: 8 } }),
        distant_networks: vec![],
    };
    assert_eq!(guest.unwrap_guest().ip.address, 1);
    let router = Node {
        vcpu: 2,
        ram: 2048,
        x: 1,
        y: 2,
        node_type: NodeType::Router(Router {
            os_name: "vyos".to_string(),
            number_nics: 2,
            nics: IndexMap::new(),
            routes: vec![],
        }),
        distant_networks: vec![],
    };
    assert_eq!(router.unwrap_router().os_name, "vyos");
}
