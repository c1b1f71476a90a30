use indexmap::IndexMap;
use netlab::models::nic::NicType;
use netlab::models::nodes::router::Router;
use netlab::models::operating_system::{InterfacePrefix, InterfacePrefixError, OperatingSystem};
use netlab::models::protocol::RoutingProtocol;
use netlab::models::os_command::{
    format_command, CommandContext, DeserializedOsCommand, DeserializedOsCommandType, DeserializedSendType,
    OsCommand, SendType,
};
use netlab::string_map::StringMap;

fn system() -> OperatingSystem {
    OperatingSystem {
        input_ready: "vyos@vyos:~$".to_string(),
        trigger_sequence: None,
        login: Some("admin".to_string()),
        password: None,
        network_stack: "iproute2".to_string(),
        routing_stack: Some("frr".to_string()),
        interface_prefix: InterfacePrefix::Custom(vec![(NicType::E1000, "eth".to_string())]),
        interfaces_start_at: -1,
        gap_between_interfaces: 2,
        image_path: "/images/vyos.qcow2".to_string(),
        resources_monitor_commands: None,
    }
}

fn router() -> Router {
    Router { os_name: "vyos".to_string(), number_nics: 2, nics: IndexMap::new(), routes: vec![] }
}

fn map_of(pairs: &[(&str, &str)]) -> StringMap {
    let mut m = StringMap::new();
    for (k, v) in pairs {
        m.insert(k.to_string(), v.to_string());
    }
    m
}

#[test]
fn constructors() {
    let t = OsCommand::new_text("$ ", "ls", true, false);
    assert_eq!(t.expect, "$ ");
    assert!(matches!(t.send, SendType::Text(ref s, true) if s == "ls"));
    assert!(!t.can_fail);
    let c = OsCommand::new_control("> ", 'c', true);
    assert!(matches!(c.send, SendType::Ctrl('c')));
    assert!(c.can_fail);
    let n = OsCommand::new_line("login:");
    assert_eq!(n.expect, "login:");
    assert!(matches!(n.send, SendType::NewLine));
    assert!(!n.can_fail);
    assert!(matches!(SendType::default(), SendType::NewLine));
}

#[test]
fn send_type_display() {
    assert_eq!(SendType::Text("ip a".to_string(), true).to_display_string(), "ip a");
    assert_eq!(SendType::Ctrl('d').to_display_string(), "Ctrl-d");
    assert_eq!(SendType::NewLine.to_display_string(), "");
    assert_eq!(SendType::Wait(250).to_display_string(), "Wait 250 ms");
    assert_eq!(SendType::Wait(0).to_display_string(), "Wait 0 ms");
    assert_eq!(SendType::Wait(u64::MAX).to_display_string(), format!("Wait {} ms", u64::MAX));
}

#[test]
fn string_map_insert_and_get() {
    let mut m = StringMap::new();
    assert!(m.get("a").is_none());
    m.insert("a".to_string(), "1".to_string());
    m.insert("b".to_string(), "2".to_string());
    m.insert("a".to_string(), "3".to_string());
    assert_eq!(m.get("a").unwrap(), "3");
    assert_eq!(m.get("b").unwrap(), "2");
    assert_eq!(m.into_pairs().len(), 2);
}

#[test]
fn format_command_replaces_known_names() {
    let m = map_of(&[("{IF}", "eth0"), ("{IP}", "10.0.0.1/24")]);
    assert_eq!(format_command("ip addr add {IP} dev {IF}", &m), "ip addr add 10.0.0.1/24 dev eth0");
    assert_eq!(format_command("{UNKNOWN} {IF}", &m), "{UNKNOWN} eth0");
    assert_eq!(format_command("{{IF}}", &m), "{eth0}");
    assert_eq!(format_command("no braces", &m), "no braces");
    assert_eq!(format_command("{IF", &m), "{IF");
    assert_eq!(format_command("", &m), "");
}

#[test]
fn key_values_of_a_context() {
    let os = system();
    let r = router();
    let ctx = CommandContext {
        router_name: "R1",
        router: &r,
        os: &os,
        network_stack: None,
        routing_stack: None,
        router_id: "1.1.1.1",
        routing_protocol: RoutingProtocol::Bgp,
    };
    let kv = ctx.to_key_value();
    assert_eq!(kv.get("OS").unwrap(), "vyos");
    assert_eq!(kv.get("INPUT_READY").unwrap(), "vyos@vyos:~$");
    assert!(kv.get("TRIGGER_SEQUENCE").is_none());
    assert_eq!(kv.get("LOGIN").unwrap(), "admin");
    assert!(kv.get("PASSWORD").is_none());
    assert_eq!(kv.get("NETWORK_STACK").unwrap(), "iproute2");
    assert_eq!(kv.get("ROUTING_STACK").unwrap(), "frr");
    assert_eq!(kv.get("INTERFACES_START_AT").unwrap(), "-1");
    assert_eq!(kv.get("GAP_BETWEEN_INTERFACES").unwrap(), "2");
    assert_eq!(kv.get("IMAGE_PATH").unwrap(), "/images/vyos.qcow2");
    assert_eq!(kv.get("ROUTER_ID").unwrap(), "1.1.1.1");
    assert_eq!(kv.get("ROUTING_PROTOCOL").unwrap(), "BGP");
}

#[test]
fn replace_map_braces_names() {
    let os = system();
    let r = router();
    let ctx = CommandContext {
        router_name: "R1",
        router: &r,
        os: &os,
        network_stack: None,
        routing_stack: None,
        router_id: "R1",
        routing_protocol: RoutingProtocol::Static,
    };
    let m = ctx.to_replace_map(None).unwrap();
    assert_eq!(m.get("{OS}").unwrap(), "vyos");
    assert_eq!(m.get("{ROUTING_PROTOCOL}").unwrap(), "static");
    assert!(m.get("OS").is_none());
    assert!(m.get("{INTERFACE_PREFIX}").is_none());
    let m = ctx.to_replace_map(Some(&NicType::E1000)).unwrap();
    assert_eq!(m.get("{INTERFACE_PREFIX}").unwrap(), "eth");
    assert_eq!(
        ctx.to_replace_map(Some(&NicType::VirtIO)).err(),
        Some(InterfacePrefixError::UnknownNicType(NicType::VirtIO))
    );
}

#[test]
fn templates_become_commands() {
    let os = system();
    let r = router();
    let ctx = CommandContext {
        router_name: "R1",
        router: &r,
        os: &os,
        network_stack: None,
        routing_stack: None,
        router_id: "R1",
        routing_protocol: RoutingProtocol::Bgp,
    };
    let m = ctx.to_replace_map(Some(&NicType::E1000)).unwrap();

    let simple = DeserializedOsCommandType::Simple("ip link set {INTERFACE_PREFIX}0 up".to_string());
    let c = simple.to_os_command(&ctx, Some(&m)).unwrap();
    assert_eq!(c.expect, "vyos@vyos:~$");
    assert!(matches!(c.send, SendType::Text(ref s, true) if s == "ip link set eth0 up"));
    assert!(!c.can_fail);
    let raw = simple.to_os_command(&ctx, None).unwrap();
    assert!(matches!(raw.send, SendType::Text(ref s, true) if s == "ip link set {INTERFACE_PREFIX}0 up"));

    let guarded = DeserializedOsCommandType::Other(DeserializedOsCommand {
        expect: Some("#".to_string()),
        send: DeserializedSendType::Text { send: "router bgp {OS}".to_string() },
        can_fail: true,
        assert_true: vec![("ROUTING_PROTOCOL".to_string(), "BGP".to_string()), ("NOT_A_KEY".to_string(), "x".to_string())],
    });
    let c = guarded.to_os_command(&ctx, Some(&m)).unwrap();
    assert_eq!(c.expect, "#");
    assert!(matches!(c.send, SendType::Text(ref s, true) if s == "router bgp vyos"));
    assert!(c.can_fail);

    let refused = DeserializedOsCommandType::Other(DeserializedOsCommand {
        expect: None,
        send: DeserializedSendType::Wait { wait: 10 },
        can_fail: false,
        assert_true: vec![("ROUTING_PROTOCOL".to_string(), "OSPF".to_string())],
    });
    assert!(refused.to_os_command(&ctx, Some(&m)).is_none());

    let ctrl = DeserializedOsCommandType::Other(DeserializedOsCommand {
        expect: None,
        send: DeserializedSendType::Ctrl { control: 'c' },
        can_fail: false,
        assert_true: vec![],
    });
    let c = ctrl.to_os_command(&ctx, None).unwrap();
    assert_eq!(c.expect, "vyos@vyos:~$");
    assert!(matches!(c.send, SendType::Ctrl('c')));
}
