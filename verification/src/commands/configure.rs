//! What is typed into the consoles of an experiment's machines: a guest's
//! address and routes, a router's login, stacks, addresses and static
//! routes, and the route a guest takes toward the other end of a test.
use vstd::prelude::*;
use crate::index_maps::{
    first_index_of, lemma_first_index_of, nic_entries, nic_map_get_index, nic_map_len, node_entries,
    node_map_get_index, string_key_eq,
};
use crate::commands::run::{first_test_error, is_guest_node, node_position, test_error};
use crate::models::experiment::Experiment;
use crate::models::ip::{Ipv4Address, Ipv4Cidr, Ipv4Inet, netmask};
use crate::models::link::Link;
use crate::models::network_stack::NetworkStack;
use crate::models::nic::{Nic, NicIndex, NicType, ParseIndexError, parse_u16, qemu_name};
use crate::models::test::Test;
use crate::models::nodes::node::{DistantNetwork, Node, NodeType};
use crate::models::nodes::router::Router;
use crate::models::operating_system::{InterfacePrefixError, OperatingSystem, prefix_for};
use crate::models::os_command::{
    CommandContext, DeserializedOsCommandType, DeserializedSendType, OsCommand, SendType, assertions_hold,
    braced_keys, command_of, context_values, format_command, replaced, substitute,
};
use crate::models::protocol::RoutingProtocol;
use crate::models::routes::route::Route;
use crate::models::routes::static_route::StaticRoute;
use crate::models::routing_stack::RoutingStack;
use crate::string_map::StringMap;
use crate::text::{decimal, owned, push_char, push_decimal, push_str};

verus! {

/// What a step sends, with texts as character sequences.
pub enum SendView {
    NewLine,
    Text(Seq<char>, bool),
    Ctrl(char),
    Wait(u64),
}

/// A console step: the text it waits for, what it sends, and whether it may
/// fail.
pub type CommandView = (Seq<char>, SendView, bool);

/// What a step sends.
pub open spec fn send_view(s: SendType) -> SendView {
    match s {
        SendType::NewLine => SendView::NewLine,
        SendType::Text(t, n) => SendView::Text(t@, n),
        SendType::Ctrl(c) => SendView::Ctrl(c),
        SendType::Wait(w) => SendView::Wait(w),
    }
}

/// A console step, read.
pub open spec fn command_view(c: OsCommand) -> CommandView {
    (c.expect@, send_view(c.send), c.can_fail)
}

/// Console steps, read.
pub open spec fn commands_view(v: Seq<OsCommand>) -> Seq<CommandView> {
    v.map_values(|c: OsCommand| command_view(c))
}

/// Once `expect` is seen, type `text` and a new line; the step must succeed.
pub open spec fn typed(expect: Seq<char>, text: Seq<char>) -> CommandView {
    (expect, SendView::Text(text, true), false)
}

/// Wait for `expect`, sending nothing.
pub open spec fn wait_for(expect: Seq<char>) -> CommandView {
    (expect, SendView::Text(Seq::empty(), false), false)
}

/// The step a template stands for in a context, with the names of the map
/// replaced in its text; none where its conditions fail.
pub open spec fn template_command(
    t: DeserializedOsCommandType,
    ctx: CommandContext<'_>,
    m: Map<Seq<char>, Seq<char>>,
) -> Option<CommandView> {
    match t {
        DeserializedOsCommandType::Simple(send) => Some(typed(ctx.os.input_ready@, substitute(send@, m))),
        DeserializedOsCommandType::Other(c) => if !assertions_hold(c.assert_true@, context_values(ctx)) {
            None
        } else {
            Some((
                match c.expect {
                    Some(e) => e@,
                    None => ctx.os.input_ready@,
                },
                match c.send {
                    DeserializedSendType::Text { send } => SendView::Text(substitute(send@, m), true),
                    DeserializedSendType::Ctrl { control } => SendView::Ctrl(control),
                    DeserializedSendType::Wait { wait } => SendView::Wait(wait),
                },
                c.can_fail,
            ))
        },
    }
}

/// The steps of a list of templates, in order, leaving out those that do not
/// apply.
pub open spec fn templates_commands(
    ts: Seq<DeserializedOsCommandType>,
    ctx: CommandContext<'_>,
    m: Map<Seq<char>, Seq<char>>,
) -> Seq<CommandView>
    decreases ts.len(),
{
    if ts.len() == 0 {
        Seq::empty()
    } else {
        let rest = templates_commands(ts.drop_last(), ctx, m);
        match template_command(ts.last(), ctx, m) {
            Some(c) => rest.push(c),
            None => rest,
        }
    }
}

proof fn lemma_push_view(v: Seq<OsCommand>, c: OsCommand)
    ensures
        commands_view(v.push(c)) == commands_view(v).push(command_view(c)),
{
    assert(commands_view(v.push(c)) =~= commands_view(v).push(command_view(c)));
}

fn push_command(out: &mut Vec<OsCommand>, c: OsCommand)
    ensures
        commands_view(final(out)@) == commands_view(old(out)@).push(command_view(c)),
{
    proof {
        lemma_push_view(old(out)@, c);
    }
    out.push(c);
}

/// Appends the steps of the templates, with the names of `m` replaced.
fn push_templates(out: &mut Vec<OsCommand>, ts: &Vec<DeserializedOsCommandType>, ctx: &CommandContext, m: &StringMap)
    ensures
        commands_view(final(out)@) == commands_view(old(out)@) + templates_commands(ts@, *ctx, m@),
{
    let ghost start = commands_view(out@);
    let mut i: usize = 0;
    while i < ts.len()
        invariant
            i <= ts@.len(),
            commands_view(out@) == start + templates_commands(ts@.subrange(0, i as int), *ctx, m@),
        decreases ts@.len() - i,
    {
        assert(ts@.subrange(0, i + 1).drop_last() == ts@.subrange(0, i as int));
        assert(ts@.subrange(0, i + 1).last() == ts@[i as int]);
        let c = ts[i].to_os_command(ctx, Some(m));
        assert(command_of(ts@[i as int], *ctx, Some(m), c));
        match c {
            Some(c) => {
                push_command(out, c);
            },
            None => {},
        }
        i = i + 1;
    }
    assert(ts@.subrange(0, i as int) == ts@);
}

/// The dotted decimal text of an address.
pub open spec fn address_text(a: u32) -> Seq<char> {
    decimal((a / 0x100_0000) as nat) + seq!['.'] + decimal(((a / 0x1_0000) % 0x100) as nat) + seq!['.']
        + decimal(((a / 0x100) % 0x100) as nat) + seq!['.'] + decimal((a % 0x100) as nat)
}

/// An address and a prefix length, as `a.b.c.d/len`.
pub open spec fn prefix_text(a: u32, len: u8) -> Seq<char> {
    address_text(a) + seq!['/'] + decimal(len as nat)
}

fn push_address(s: &mut String, a: u32)
    ensures
        final(s)@ == old(s)@ + address_text(a),
{
    let ghost s0 = s@;
    push_decimal(s, (a / 0x100_0000) as u64);
    push_char(s, '.');
    push_decimal(s, ((a / 0x1_0000) % 0x100) as u64);
    push_char(s, '.');
    push_decimal(s, ((a / 0x100) % 0x100) as u64);
    push_char(s, '.');
    push_decimal(s, (a % 0x100) as u64);
    assert(s@ =~= s0 + address_text(a));
}

fn push_prefix(s: &mut String, a: u32, len: u8)
    ensures
        final(s)@ == old(s)@ + prefix_text(a, len),
{
    let ghost s0 = s@;
    push_address(s, a);
    push_char(s, '/');
    push_decimal(s, len as u64);
    assert(s@ =~= s0 + prefix_text(a, len));
}

/// What a guest image shows when it waits for input.
pub open spec fn guest_prompt() -> Seq<char> {
    "# "@
}

/// The route command of a guest toward a distant network.
pub open spec fn guest_route_text(d: DistantNetwork) -> Seq<char> {
    "ip route add "@ + prefix_text(d.network.first_address, d.network.network_length) + " via "@
        + address_text(d.gateway.0)
}

/// What a guest is told: its address on its interface, the interface up, a
/// route toward each distant network, then a last wait for its prompt.
pub open spec fn guest_plan(ip: Ipv4Inet, distant: Seq<DistantNetwork>) -> Seq<CommandView> {
    seq![
        typed(guest_prompt(), "ip addr add "@ + prefix_text(ip.address, ip.network_length) + " dev eth0"@),
        typed(guest_prompt(), "ip link set eth0 up"@),
    ] + distant.map_values(|d: DistantNetwork| typed(guest_prompt(), guest_route_text(d)))
        + seq![wait_for(guest_prompt())]
}

/// The console steps that configure a guest.
pub fn guest_commands(node: &Node) -> (r: Vec<OsCommand>)
    requires
        node.node_type is Guest,
    ensures
        commands_view(r@) == guest_plan(node.node_type->Guest_0.ip, node.distant_networks@),
{
    let ip = node.unwrap_guest().ip;
    let mut out: Vec<OsCommand> = Vec::new();
    let mut text = owned("ip addr add ");
    push_prefix(&mut text, ip.address, ip.network_length);
    push_str(&mut text, " dev eth0");
    push_command(&mut out, OsCommand { expect: owned("# "), send: SendType::Text(text, true), can_fail: false });
    push_command(&mut out, OsCommand::new_text("# ", "ip link set eth0 up", true, false));
    let ghost head = commands_view(out@);
    let mut i: usize = 0;
    while i < node.distant_networks.len()
        invariant
            i <= node.distant_networks@.len(),
            commands_view(out@) == head + node.distant_networks@.subrange(0, i as int).map_values(
                |d: DistantNetwork| typed(guest_prompt(), guest_route_text(d))),
        decreases node.distant_networks@.len() - i,
    {
        let d = node.distant_networks[i];
        let mut text = owned("ip route add ");
        push_prefix(&mut text, d.network.first_address, d.network.network_length);
        push_str(&mut text, " via ");
        push_address(&mut text, d.gateway.0);
        push_command(&mut out, OsCommand { expect: owned("# "), send: SendType::Text(text, true), can_fail: false });
        assert(node.distant_networks@.subrange(0, i + 1).map_values(
            |d: DistantNetwork| typed(guest_prompt(), guest_route_text(d)))
            =~= node.distant_networks@.subrange(0, i as int).map_values(
                |d: DistantNetwork| typed(guest_prompt(), guest_route_text(d))).push(
                typed(guest_prompt(), guest_route_text(d))));
        i = i + 1;
    }
    assert(node.distant_networks@.subrange(0, i as int) == node.distant_networks@);
    push_command(&mut out, OsCommand { expect: owned("# "), send: SendType::Text(String::new(), false), can_fail: false });
    assert(commands_view(out@) =~= guest_plan(ip, node.distant_networks@));
    out
}

/// Why a router's commands cannot be made.
#[derive(Debug, Clone, Copy, PartialEq, Eq, Structural)]
pub enum CommandError {
    /// The system names no interface prefix for a NIC model the router has.
    UnknownNicType(NicType),
    /// An interface index of the router is not a number.
    InvalidInterfaceIndex(ParseIndexError),
}

/// The protocol a router's routes are for: that of its first route, static
/// when it has none.
pub open spec fn routes_protocol(routes: Seq<Route>) -> RoutingProtocol {
    if routes.len() == 0 {
        RoutingProtocol::Static
    } else {
        match routes[0] {
            Route::Static(_) => RoutingProtocol::Static,
            Route::Rip(_) => RoutingProtocol::Rip,
            Route::Ospf => RoutingProtocol::Ospf,
            Route::Bgp => RoutingProtocol::Bgp,
            Route::Mpls => RoutingProtocol::Mpls,
        }
    }
}

fn protocol_of_routes(routes: &Vec<Route>) -> (r: RoutingProtocol)
    ensures
        r == routes_protocol(routes@),
{
    if routes.len() == 0 {
        RoutingProtocol::Static
    } else {
        match &routes[0] {
            Route::Static(_) => RoutingProtocol::Static,
            Route::Rip(_) => RoutingProtocol::Rip,
            Route::Ospf => RoutingProtocol::Ospf,
            Route::Bgp => RoutingProtocol::Bgp,
            Route::Mpls => RoutingProtocol::Mpls,
        }
    }
}

/// The context a router's templates are read in: the router's name is its
/// identifier, and its routes give the protocol.
pub open spec fn router_context<'a>(
    router_name: &'a str,
    router: &'a Router,
    os: &'a OperatingSystem,
    network_stack: &'a NetworkStack,
    routing_stack: Option<&'a RoutingStack>,
) -> CommandContext<'a> {
    CommandContext {
        router_name,
        router,
        os,
        network_stack: Some(network_stack),
        routing_stack,
        router_id: router_name,
        routing_protocol: routes_protocol(router.routes@),
    }
}

/// Login: the trigger sequence is answered with a new line, then the login
/// name and the password are typed at their prompts, where the system has
/// them.
pub open spec fn login_plan(os: OperatingSystem) -> Seq<CommandView> {
    (match os.trigger_sequence {
        Some(t) => seq![(t@, SendView::NewLine, false)],
        None => Seq::empty(),
    }) + (match os.login {
        Some(l) => seq![typed("login:"@, l@)],
        None => Seq::empty(),
    }) + (match os.password {
        Some(p) => seq![typed("Password:"@, p@)],
        None => Seq::empty(),
    })
}

/// The names an interface's address command is given: the context's, the
/// interface prefix, the interface number and the address with its prefix
/// length.
pub open spec fn address_names(
    base: Map<Seq<char>, Seq<char>>,
    prefix: Seq<char>,
    index: u16,
    ip: Ipv4Inet,
) -> Map<Seq<char>, Seq<char>> {
    base.insert("{INTERFACE_PREFIX}"@, prefix)
        .insert("{INTERFACE_INDEX}"@, decimal(index as nat))
        .insert("{IP_ADDRESS}"@, prefix_text(ip.address, ip.network_length))
}

/// The address commands of the interfaces, in order; the error of the first
/// interface whose prefix is unknown or whose index is not a number.
pub open spec fn address_plan(
    nics: Seq<(NicIndex, Nic)>,
    ctx: CommandContext<'_>,
    base: Map<Seq<char>, Seq<char>>,
    templates: Seq<DeserializedOsCommandType>,
) -> Result<Seq<CommandView>, CommandError>
    decreases nics.len(),
{
    if nics.len() == 0 {
        Ok(Seq::empty())
    } else {
        match address_plan(nics.drop_last(), ctx, base, templates) {
            Err(e) => Err(e),
            Ok(rest) => {
                let (index, nic) = nics.last();
                match prefix_for(ctx.os.interface_prefix, nic.nic_type) {
                    Err(InterfacePrefixError::UnknownNicType(t)) => Err(CommandError::UnknownNicType(t)),
                    Ok(p) => match parse_u16(index.0@) {
                        Err(e) => Err(CommandError::InvalidInterfaceIndex(e)),
                        Ok(n) => Ok(rest + templates_commands(templates, ctx, address_names(base, p@, n, nic.ip_address))),
                    },
                }
            },
        }
    }
}

/// The names a static route command is given: the context's, the distant
/// network, the gateway and the interface number.
pub open spec fn route_names(base: Map<Seq<char>, Seq<char>>, r: StaticRoute) -> Map<Seq<char>, Seq<char>> {
    base.insert("{DISTANT_NETWORK}"@, prefix_text(r.distant_network.first_address, r.distant_network.network_length))
        .insert("{GATEWAY}"@, address_text(r.gateway.0))
        .insert("{INTERFACE_INDEX}"@, decimal(r.interface as nat))
}

/// The commands of the static routes, in order; other routes add none.
pub open spec fn route_plan(
    routes: Seq<Route>,
    ctx: CommandContext<'_>,
    base: Map<Seq<char>, Seq<char>>,
    templates: Seq<DeserializedOsCommandType>,
) -> Seq<CommandView>
    decreases routes.len(),
{
    if routes.len() == 0 {
        Seq::empty()
    } else {
        let rest = route_plan(routes.drop_last(), ctx, base, templates);
        match routes.last() {
            Route::Static(r) => rest + templates_commands(templates, ctx, route_names(base, r)),
            _ => rest,
        }
    }
}

/// The steps of an optional routing stack's template list.
pub open spec fn stack_commands(
    ts: Option<Seq<DeserializedOsCommandType>>,
    ctx: CommandContext<'_>,
    base: Map<Seq<char>, Seq<char>>,
) -> Seq<CommandView> {
    match ts {
        Some(t) => templates_commands(t, ctx, base),
        None => Seq::empty(),
    }
}

/// What a router is told: login; start the network stack, then the routing
/// stack; the address of each interface, then a wait for the prompt; each
/// static route, then a wait for the prompt; stop the routing stack, then
/// the network stack.
pub open spec fn router_plan(ctx: CommandContext<'_>, ns: &NetworkStack) -> Result<Seq<CommandView>, CommandError> {
    let base = braced_keys(context_values(ctx));
    let start = match ctx.routing_stack {
        Some(r) => Some(r.start@),
        None => None,
    };
    let stop = match ctx.routing_stack {
        Some(r) => Some(r.stop@),
        None => None,
    };
    match address_plan(nic_entries(ctx.router.nics), ctx, base, ns.add_ip_address@) {
        Err(e) => Err(e),
        Ok(addresses) => Ok(
            login_plan(*ctx.os)
                + templates_commands(ns.start@, ctx, base)
                + stack_commands(start, ctx, base)
                + addresses
                + seq![wait_for(ctx.os.input_ready@)]
                + route_plan(ctx.router.routes@, ctx, base, ns.add_static_route@)
                + seq![wait_for(ctx.os.input_ready@)]
                + stack_commands(stop, ctx, base)
                + templates_commands(ns.stop@, ctx, base),
        ),
    }
}

fn push_login(out: &mut Vec<OsCommand>, os: &OperatingSystem)
    ensures
        commands_view(final(out)@) == commands_view(old(out)@) + login_plan(*os),
{
    let ghost start = commands_view(out@);
    if let Some(trigger) = &os.trigger_sequence {
        push_command(out, OsCommand::new_line(trigger.as_str()));
    }
    let ghost a = commands_view(out@);
    if let Some(login) = &os.login {
        push_command(out, OsCommand::new_text("login:", login.as_str(), true, false));
    }
    let ghost b = commands_view(out@);
    if let Some(password) = &os.password {
        push_command(out, OsCommand::new_text("Password:", password.as_str(), true, false));
    }
    assert(commands_view(out@) =~= start + login_plan(*os));
}

fn push_wait(out: &mut Vec<OsCommand>, expect: &String)
    ensures
        commands_view(final(out)@) == commands_view(old(out)@).push(wait_for(expect@)),
{
    push_command(out, OsCommand { expect: expect.clone(), send: SendType::Text(String::new(), false), can_fail: false });
}

fn push_stack(out: &mut Vec<OsCommand>, ts: Option<&Vec<DeserializedOsCommandType>>, ctx: &CommandContext, m: &StringMap)
    ensures
        commands_view(final(out)@) == commands_view(old(out)@) + stack_commands(
            match ts {
                Some(t) => Some(t@),
                None => None,
            },
            *ctx,
            m@,
        ),
{
    match ts {
        Some(t) => push_templates(out, t, ctx, m),
        None => {
            assert(commands_view(out@) =~= commands_view(out@) + Seq::<CommandView>::empty());
        },
    }
}

proof fn lemma_address_plan_err(
    nics: Seq<(NicIndex, Nic)>,
    ctx: CommandContext<'_>,
    base: Map<Seq<char>, Seq<char>>,
    templates: Seq<DeserializedOsCommandType>,
    i: int,
)
    requires
        0 <= i <= nics.len(),
        address_plan(nics.subrange(0, i), ctx, base, templates) is Err,
    ensures
        address_plan(nics, ctx, base, templates) == address_plan(nics.subrange(0, i), ctx, base, templates),
    decreases nics.len() - i,
{
    if i < nics.len() {
        assert(nics.subrange(0, i + 1).drop_last() == nics.subrange(0, i));
        lemma_address_plan_err(nics, ctx, base, templates, i + 1);
    } else {
        assert(nics.subrange(0, i) == nics);
    }
}

fn push_addresses(
    out: &mut Vec<OsCommand>,
    router: &Router,
    ctx: &CommandContext,
    base: &StringMap,
    templates: &Vec<DeserializedOsCommandType>,
) -> (r: Result<(), CommandError>)
    requires
        base@ == braced_keys(context_values(*ctx)),
        ctx.router == router,
    ensures
        match address_plan(nic_entries(router.nics), *ctx, base@, templates@) {
            Ok(p) => r is Ok && commands_view(final(out)@) == commands_view(old(out)@) + p,
            Err(e) => r == Err::<(), CommandError>(e),
        },
{
    let ghost start = commands_view(out@);
    let ghost nics = nic_entries(router.nics);
    let n = nic_map_len(&router.nics);
    let mut i: usize = 0;
    while i < n
        invariant
            i <= n,
            n == nics.len(),
            nics == nic_entries(router.nics),
            base@ == braced_keys(context_values(*ctx)),
            ctx.router == router,
            address_plan(nics.subrange(0, i as int), *ctx, base@, templates@) matches Ok(p)
                && commands_view(out@) == start + p,
        decreases n - i,
    {
        assert(nics.subrange(0, i + 1).drop_last() == nics.subrange(0, i as int));
        assert(nics.subrange(0, i + 1).last() == nics[i as int]);
        let (index, nic) = match nic_map_get_index(&router.nics, i) {
            Some(e) => e,
            None => {
                return Ok(());
            },
        };
        let mut names = match ctx.to_replace_map(Some(&nic.nic_type)) {
            Ok(m) => m,
            Err(InterfacePrefixError::UnknownNicType(t)) => {
                proof {
                    lemma_address_plan_err(nics, *ctx, base@, templates@, i + 1);
                }
                return Err(CommandError::UnknownNicType(t));
            },
        };
        let number = match index.to_u16() {
            Ok(k) => k,
            Err(e) => {
                proof {
                    lemma_address_plan_err(nics, *ctx, base@, templates@, i + 1);
                }
                return Err(CommandError::InvalidInterfaceIndex(e));
            },
        };
        let mut number_text = String::new();
        push_decimal(&mut number_text, number as u64);
        names.insert(owned("{INTERFACE_INDEX}"), number_text);
        let mut address = String::new();
        push_prefix(&mut address, nic.ip_address.address, nic.ip_address.network_length);
        names.insert(owned("{IP_ADDRESS}"), address);
        push_templates(out, templates, ctx, &names);
        i = i + 1;
    }
    assert(nics.subrange(0, i as int) == nics);
    Ok(())
}

fn push_routes(
    out: &mut Vec<OsCommand>,
    routes: &Vec<Route>,
    ctx: &CommandContext,
    base: &StringMap,
    templates: &Vec<DeserializedOsCommandType>,
)
    requires
        base@ == braced_keys(context_values(*ctx)),
    ensures
        commands_view(final(out)@) == commands_view(old(out)@) + route_plan(routes@, *ctx, base@, templates@),
{
    let ghost start = commands_view(out@);
    let mut i: usize = 0;
    while i < routes.len()
        invariant
            i <= routes@.len(),
            commands_view(out@) == start + route_plan(routes@.subrange(0, i as int), *ctx, base@, templates@),
            base@ == braced_keys(context_values(*ctx)),
        decreases routes@.len() - i,
    {
        assert(routes@.subrange(0, i + 1).drop_last() == routes@.subrange(0, i as int));
        assert(routes@.subrange(0, i + 1).last() == routes@[i as int]);
        match &routes[i] {
            Route::Static(r) => {
                let mut names = match ctx.to_replace_map(None) {
                    Ok(m) => m,
                    Err(_) => {
                        proof {
                            assert(false);
                        }
                        return;
                    },
                };
                let mut network = String::new();
                push_prefix(&mut network, r.distant_network.first_address, r.distant_network.network_length);
                names.insert(owned("{DISTANT_NETWORK}"), network);
                let mut gateway = String::new();
                push_address(&mut gateway, r.gateway.0);
                names.insert(owned("{GATEWAY}"), gateway);
                let mut number = String::new();
                push_decimal(&mut number, r.interface as u64);
                names.insert(owned("{INTERFACE_INDEX}"), number);
                push_templates(out, templates, ctx, &names);
                assert(commands_view(out@) =~= start + route_plan(routes@.subrange(0, i + 1), *ctx, base@, templates@));
            },
            _ => {},
        }
        i = i + 1;
    }
    assert(routes@.subrange(0, i as int) == routes@);
}

/// The console steps that configure a router, none when the system is left
/// to be set up by hand.
pub fn router_commands(
    router_name: &str,
    router: &Router,
    os: &OperatingSystem,
    network_stack: &NetworkStack,
    routing_stack: Option<&RoutingStack>,
    os_setup: bool,
) -> (r: Result<Vec<OsCommand>, CommandError>)
    ensures
        os_setup ==> (r matches Ok(v) && v@.len() == 0),
        !os_setup ==> match router_plan(router_context(router_name, router, os, network_stack, routing_stack), network_stack) {
            Ok(p) => r matches Ok(v) && commands_view(v@) == p,
            Err(e) => r == Err::<Vec<OsCommand>, CommandError>(e),
        },
{
    let mut out: Vec<OsCommand> = Vec::new();
    if os_setup {
        return Ok(out);
    }
    let ctx = CommandContext {
        router_name,
        router,
        os,
        network_stack: Some(network_stack),
        routing_stack,
        router_id: router_name,
        routing_protocol: protocol_of_routes(&router.routes),
    };
    let base = match ctx.to_replace_map(None) {
        Ok(m) => m,
        Err(_) => {
            proof {
                assert(false);
            }
            return Ok(out);
        },
    };
    let ghost ctx_spec = router_context(router_name, router, os, network_stack, routing_stack);
    assert(ctx == ctx_spec);
    push_login(&mut out, os);
    push_templates(&mut out, &network_stack.start, &ctx, &base);
    let start = match routing_stack {
        Some(r) => Some(&r.start),
        None => None,
    };
    push_stack(&mut out, start, &ctx, &base);
    let ghost before_addresses = commands_view(out@);
    match push_addresses(&mut out, router, &ctx, &base, &network_stack.add_ip_address) {
        Ok(()) => {},
        Err(e) => {
            return Err(e);
        },
    }
    push_wait(&mut out, &os.input_ready);
    push_routes(&mut out, &router.routes, &ctx, &base, &network_stack.add_static_route);
    push_wait(&mut out, &os.input_ready);
    let stop = match routing_stack {
        Some(r) => Some(&r.stop),
        None => None,
    };
    push_stack(&mut out, stop, &ctx, &base);
    push_templates(&mut out, &network_stack.stop, &ctx, &base);
    Ok(out)
}

/// The address of the first interface, in order, whose index is the number
/// `adapter`.
pub open spec fn nic_address_at(nics: Seq<(NicIndex, Nic)>, adapter: u32) -> Option<u32>
    decreases nics.len(),
{
    if nics.len() == 0 {
        None
    } else {
        match nic_address_at(nics.drop_last(), adapter) {
            Some(a) => Some(a),
            None => if parse_u16(nics.last().0.0@) matches Ok(n) && n as u32 == adapter {
                Some(nics.last().1.ip_address.address)
            } else {
                None
            },
        }
    }
}

/// Through a cable with the guest at one end and a router at the other: the
/// address of the router's interface on that cable, and the guest's adapter.
pub open spec fn link_gateway(entries: Seq<(String, Node)>, link: Link, guest: String) -> Option<(u32, u32)> {
    let at_a = link.node_a@ == guest@;
    if !at_a && link.node_b@ != guest@ {
        None
    } else {
        let other = if at_a { link.node_b } else { link.node_a };
        let other_adapter = if at_a { link.adapter_b } else { link.adapter_a };
        let guest_adapter = if at_a { link.adapter_a } else { link.adapter_b };
        match first_index_of(entries, string_key_eq(), other) {
            Some(i) => match entries[i].1.node_type {
                NodeType::Router(r) => match nic_address_at(nic_entries(r.nics), other_adapter) {
                    Some(a) => Some((a, guest_adapter)),
                    None => None,
                },
                NodeType::Guest(_) => None,
            },
            None => None,
        }
    }
}

/// The gateway of the first cable, in order, that gives the guest one.
pub open spec fn first_gateway(entries: Seq<(String, Node)>, links: Seq<Link>, guest: String) -> Option<(u32, u32)>
    decreases links.len(),
{
    if links.len() == 0 {
        None
    } else {
        match first_gateway(entries, links.drop_last(), guest) {
            Some(g) => Some(g),
            None => link_gateway(entries, links.last(), guest),
        }
    }
}

fn nic_address_at_exec(nics: &indexmap::IndexMap<NicIndex, Nic>, adapter: u32) -> (r: Option<u32>)
    ensures
        r == nic_address_at(nic_entries(*nics), adapter),
{
    let ghost s = nic_entries(*nics);
    let n = nic_map_len(nics);
    let mut i: usize = 0;
    while i < n
        invariant
            i <= n,
            n == s.len(),
            s == nic_entries(*nics),
            nic_address_at(s.subrange(0, i as int), adapter) is None,
        decreases n - i,
    {
        assert(s.subrange(0, i + 1).drop_last() == s.subrange(0, i as int));
        assert(s.subrange(0, i + 1).last() == s[i as int]);
        if let Some((index, nic)) = nic_map_get_index(nics, i) {
            if let Ok(k) = index.to_u16() {
                if k as u32 == adapter {
                    proof {
                        lemma_nic_address_prefix(s, adapter, i as int + 1);
                    }
                    return Some(nic.ip_address.address);
                }
            }
        }
        i = i + 1;
    }
    assert(s.subrange(0, i as int) == s);
    None
}

proof fn lemma_nic_address_prefix(s: Seq<(NicIndex, Nic)>, adapter: u32, i: int)
    requires
        0 <= i <= s.len(),
        nic_address_at(s.subrange(0, i), adapter) is Some,
    ensures
        nic_address_at(s, adapter) == nic_address_at(s.subrange(0, i), adapter),
    decreases s.len() - i,
{
    if i < s.len() {
        assert(s.subrange(0, i + 1).drop_last() == s.subrange(0, i));
        lemma_nic_address_prefix(s, adapter, i + 1);
    } else {
        assert(s.subrange(0, i) == s);
    }
}

proof fn lemma_first_gateway_prefix(entries: Seq<(String, Node)>, links: Seq<Link>, guest: String, i: int)
    requires
        0 <= i <= links.len(),
        first_gateway(entries, links.subrange(0, i), guest) is Some,
    ensures
        first_gateway(entries, links, guest) == first_gateway(entries, links.subrange(0, i), guest),
    decreases links.len() - i,
{
    if i < links.len() {
        assert(links.subrange(0, i + 1).drop_last() == links.subrange(0, i));
        lemma_first_gateway_prefix(entries, links, guest, i + 1);
    } else {
        assert(links.subrange(0, i) == links);
    }
}

fn link_gateway_exec(experiment: &Experiment, link: &Link, guest: &String) -> (r: Option<(u32, u32)>)
    ensures
        r == link_gateway(node_entries(experiment.network.nodes), *link, *guest),
{
    let at_a = link.node_a == *guest;
    if !at_a && link.node_b != *guest {
        return None;
    }
    let (other, other_adapter, guest_adapter) = if at_a {
        (&link.node_b, link.adapter_b, link.adapter_a)
    } else {
        (&link.node_a, link.adapter_a, link.adapter_b)
    };
    let nodes = &experiment.network.nodes;
    match node_position(nodes, other) {
        Some(i) => {
            proof {
                lemma_first_index_of(node_entries(*nodes), string_key_eq(), *other);
            }
            match node_map_get_index(nodes, i) {
                Some((_, node)) => match &node.node_type {
                    NodeType::Router(router) => match nic_address_at_exec(&router.nics, other_adapter) {
                        Some(a) => Some((a, guest_adapter)),
                        None => None,
                    },
                    NodeType::Guest(_) => None,
                },
                None => None,
            }
        },
        None => None,
    }
}

/// The route a guest takes toward a network: through the router interface
/// on the first of its cables that reaches one.
pub fn distant_network_for(experiment: &Experiment, guest: &String, network: Ipv4Cidr) -> (r: Option<DistantNetwork>)
    ensures
        match first_gateway(node_entries(experiment.network.nodes), experiment.network.physical_links@, *guest) {
            Some((g, a)) => r == Some(DistantNetwork { network, gateway: Ipv4Address(g), adapter_index: a }),
            None => r is None,
        },
{
    let links = &experiment.network.physical_links;
    let ghost entries = node_entries(experiment.network.nodes);
    let mut i: usize = 0;
    while i < links.len()
        invariant
            i <= links@.len(),
            entries == node_entries(experiment.network.nodes),
            links@ == experiment.network.physical_links@,
            first_gateway(entries, links@.subrange(0, i as int), *guest) is None,
        decreases links@.len() - i,
    {
        assert(links@.subrange(0, i + 1).drop_last() == links@.subrange(0, i as int));
        assert(links@.subrange(0, i + 1).last() == links@[i as int]);
        if let Some((g, a)) = link_gateway_exec(experiment, &links[i], guest) {
            proof {
                assert(first_gateway(entries, links@.subrange(0, i + 1), *guest) == Some((g, a)));
                lemma_first_gateway_prefix(entries, links@, *guest, i as int + 1);
            }
            return Some(DistantNetwork { network, gateway: Ipv4Address(g), adapter_index: a });
        }
        i = i + 1;
    }
    assert(links@.subrange(0, i as int) == links@);
    None
}

/// The command a test sends from its first guest: the test's template with
/// `{DESTINATION}` replaced by the address of the other guest.
pub fn test_command(test: &Test, destination: Ipv4Address) -> (r: String)
    ensures
        r@ == substitute(test.test@, Map::empty().insert("{DESTINATION}"@, address_text(destination.0))),
{
    let mut names = StringMap::new();
    let mut address = String::new();
    push_address(&mut address, destination.0);
    names.insert(owned("{DESTINATION}"), address);
    format_command(test.test.as_str(), &names)
}

/// A name given on the emulation server: the runs' prefix, then the name.
pub fn prefixed_name(prefix: &str, name: &str) -> (r: String)
    ensures
        r@ == prefix@ + name@,
{
    let mut r = owned(prefix);
    push_str(&mut r, name);
    r
}

/// The adapter model of a router's template: the QEMU name of the model of
/// its first interface, none when it has no interface.
pub fn router_adapter_type(router: &Router) -> (r: String)
    ensures
        nic_entries(router.nics).len() == 0 ==> r@.len() == 0,
        nic_entries(router.nics).len() > 0 ==> r@ == qemu_name(nic_entries(router.nics)[0].1.nic_type),
{
    match nic_map_get_index(&router.nics, 0) {
        Some((_, nic)) => nic.nic_type.to_qemu_name(),
        None => String::new(),
    }
}

/// The address of the guest of a name.
pub open spec fn guest_ip(entries: Seq<(String, Node)>, name: String) -> Ipv4Inet {
    entries[first_index_of(entries, string_key_eq(), name)->Some_0].1.node_type->Guest_0.ip
}

/// The network of an address.
pub open spec fn network_of(ip: Ipv4Inet) -> Ipv4Cidr {
    Ipv4Cidr { first_address: ip.address & netmask(ip.network_length), network_length: ip.network_length }
}

/// The route a guest is given toward a network, where one of its cables
/// reaches a router.
pub open spec fn route_entry(name: String, gateway: Option<(u32, u32)>, network: Ipv4Cidr) -> Seq<(String, DistantNetwork)> {
    match gateway {
        Some((g, a)) => seq![(name, DistantNetwork { network, gateway: Ipv4Address(g), adapter_index: a })],
        None => Seq::empty(),
    }
}

/// The routes the tests call for, in order: for each test, its first guest
/// toward the network of the other, then the other toward the network of
/// the first.
pub open spec fn test_routes(entries: Seq<(String, Node)>, links: Seq<Link>, tests: Seq<Test>) -> Seq<(String, DistantNetwork)>
    decreases tests.len(),
{
    if tests.len() == 0 {
        Seq::empty()
    } else {
        let t = tests.last();
        test_routes(entries, links, tests.drop_last())
            + route_entry(t.from, first_gateway(entries, links, t.from), network_of(guest_ip(entries, t.to)))
            + route_entry(t.to, first_gateway(entries, links, t.to), network_of(guest_ip(entries, t.from)))
    }
}

/// Every guest's address has the prefix length of an IPv4 network.
pub open spec fn guest_addresses_wf(entries: Seq<(String, Node)>) -> bool {
    forall|i: int| 0 <= i < entries.len() && (#[trigger] entries[i]).1.node_type is Guest
        ==> entries[i].1.node_type->Guest_0.ip.wf()
}

proof fn lemma_no_test_error(entries: Seq<(String, Node)>, tests: Seq<Test>, i: int)
    requires
        first_test_error(entries, tests) is None,
        0 <= i < tests.len(),
    ensures
        test_error(entries, tests[i]) is None,
    decreases tests.len(),
{
    if i < tests.len() - 1 {
        assert(tests.drop_last()[i] == tests[i]);
        lemma_no_test_error(entries, tests.drop_last(), i);
    }
}

fn guest_ip_of(nodes: &indexmap::IndexMap<String, Node>, name: &String) -> (r: Ipv4Inet)
    requires
        is_guest_node(node_entries(*nodes), *name),
        guest_addresses_wf(node_entries(*nodes)),
    ensures
        r == guest_ip(node_entries(*nodes), *name),
        r.wf(),
{
    let ghost s = node_entries(*nodes);
    let i = node_position(nodes, name).unwrap();
    proof {
        lemma_first_index_of(s, string_key_eq(), *name);
    }
    let (_, node) = node_map_get_index(nodes, i).unwrap();
    assert(s[i as int].1.node_type is Guest);
    node.unwrap_guest().ip
}

/// The routes each guest of the tests is to be given toward the other end of
/// its tests, with the name of the guest, in the order of the tests.
pub fn test_routes_of(experiment: &Experiment) -> (r: Vec<(String, DistantNetwork)>)
    requires
        first_test_error(node_entries(experiment.network.nodes), experiment.test_batch@) is None,
        guest_addresses_wf(node_entries(experiment.network.nodes)),
    ensures
        r@ == test_routes(node_entries(experiment.network.nodes), experiment.network.physical_links@, experiment.test_batch@),
{
    let ghost entries = node_entries(experiment.network.nodes);
    let ghost links = experiment.network.physical_links@;
    let tests = &experiment.test_batch;
    let mut r: Vec<(String, DistantNetwork)> = Vec::new();
    let mut i: usize = 0;
    while i < tests.len()
        invariant
            i <= tests@.len(),
            entries == node_entries(experiment.network.nodes),
            links == experiment.network.physical_links@,
            tests@ == experiment.test_batch@,
            first_test_error(entries, tests@) is None,
            guest_addresses_wf(entries),
            r@ == test_routes(entries, links, tests@.subrange(0, i as int)),
        decreases tests@.len() - i,
    {
        let test = &tests[i];
        proof {
            lemma_no_test_error(entries, tests@, i as int);
        }
        assert(tests@.subrange(0, i + 1).drop_last() == tests@.subrange(0, i as int));
        assert(tests@.subrange(0, i + 1).last() == tests@[i as int]);
        let to_ip = guest_ip_of(&experiment.network.nodes, &test.to);
        let from_ip = guest_ip_of(&experiment.network.nodes, &test.from);
        let to_network = to_ip.network();
        let from_network = from_ip.network();
        let ghost before = r@;
        if let Some(d) = distant_network_for(experiment, &test.from, to_network) {
            r.push((test.from.clone(), d));
        }
        let ghost middle = r@;
        assert(middle == before + route_entry(test.from, first_gateway(entries, links, test.from), network_of(guest_ip(entries, test.to))));
        if let Some(d) = distant_network_for(experiment, &test.to, from_network) {
            r.push((test.to.clone(), d));
        }
        assert(r@ == middle + route_entry(test.to, first_gateway(entries, links, test.to), network_of(guest_ip(entries, test.from))));
        i = i + 1;
    }
    assert(tests@.subrange(0, i as int) == tests@);
    r
}

} // verus!
