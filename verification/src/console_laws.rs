//! Laws of the console steps, the plot arguments and the run steps: what
//! every result holds for all inputs, stated element by element.
use vstd::prelude::*;
use crate::args::plot::PlotCommandArgs;
use crate::args::run::RunCommandArgs;
use crate::commands::configure::{
    CommandError, CommandView, SendView, address_plan, address_text, login_plan, guest_plan, guest_prompt, prefix_text, route_names, route_plan, template_command,
    templates_commands, typed, wait_for,
};
use crate::commands::plot::{input_file_args, legend_filter_args};
use crate::commands::run::{RunStep, experiment_steps};
use crate::models::ip::Ipv4Inet;
use crate::models::nic::{Nic, NicIndex, parse_u16};
use crate::models::operating_system::{InterfacePrefixError, OperatingSystem, prefix_for};
use crate::models::nodes::node::DistantNetwork;
use crate::models::os_command::{
    CommandContext, DeserializedOsCommandType, OsCommand, command_of, context_values,
};
use crate::models::routes::route::Route;
use crate::string_map::StringMap;

verus! {

/// The steps of two lists of templates, one after the other, are the steps
/// of the first list, then those of the second.
pub proof fn law_templates_concatenate(
    a: Seq<DeserializedOsCommandType>,
    b: Seq<DeserializedOsCommandType>,
    ctx: CommandContext<'_>,
    m: Map<Seq<char>, Seq<char>>,
)
    ensures
        templates_commands(a + b, ctx, m) == templates_commands(a, ctx, m) + templates_commands(b, ctx, m),
    decreases b.len(),
{
    if b.len() == 0 {
        assert(a + b =~= a);
        assert(templates_commands(a, ctx, m) + templates_commands(b, ctx, m) =~= templates_commands(a, ctx, m));
    } else {
        law_templates_concatenate(a, b.drop_last(), ctx, m);
        assert((a + b).drop_last() =~= a + b.drop_last());
        assert((a + b).last() == b.last());
        match template_command(b.last(), ctx, m) {
            Some(c) => {
                assert(templates_commands(a, ctx, m) + templates_commands(b, ctx, m)
                    =~= (templates_commands(a, ctx, m) + templates_commands(b.drop_last(), ctx, m)).push(c));
            },
            None => {},
        }
    }
}

/// A single template gives its step, or none where it does not apply.
pub proof fn law_template_alone(t: DeserializedOsCommandType, ctx: CommandContext<'_>, m: Map<Seq<char>, Seq<char>>)
    ensures
        templates_commands(seq![t], ctx, m) == match template_command(t, ctx, m) {
            Some(c) => seq![c],
            None => Seq::<CommandView>::empty(),
        },
{
    assert(seq![t].drop_last() =~= Seq::<DeserializedOsCommandType>::empty());
    assert(seq![t].last() == t);
    assert(templates_commands(Seq::<DeserializedOsCommandType>::empty(), ctx, m) == Seq::<CommandView>::empty());
    match template_command(t, ctx, m) {
        Some(c) => {
            assert(Seq::<CommandView>::empty().push(c) =~= seq![c]);
        },
        None => {},
    }
}

/// The route steps of a router whose routes are those of `a`, then those of
/// `b`, are the steps of `a`'s routes, then those of `b`'s: each route adds
/// its own steps, whatever stands before it.
pub proof fn law_route_steps_concatenate(
    a: Seq<Route>,
    b: Seq<Route>,
    ctx: CommandContext<'_>,
    base: Map<Seq<char>, Seq<char>>,
    templates: Seq<DeserializedOsCommandType>,
)
    ensures
        route_plan(a + b, ctx, base, templates) == route_plan(a, ctx, base, templates) + route_plan(b, ctx, base, templates),
    decreases b.len(),
{
    if b.len() == 0 {
        assert(a + b =~= a);
        assert(route_plan(a, ctx, base, templates) + route_plan(b, ctx, base, templates) =~= route_plan(a, ctx, base, templates));
    } else {
        law_route_steps_concatenate(a, b.drop_last(), ctx, base, templates);
        assert((a + b).drop_last() =~= a + b.drop_last());
        assert((a + b).last() == b.last());
        match b.last() {
            Route::Static(r) => {
                assert(route_plan(a, ctx, base, templates) + route_plan(b, ctx, base, templates)
                    =~= route_plan(a, ctx, base, templates) + route_plan(b.drop_last(), ctx, base, templates)
                    + templates_commands(templates, ctx, route_names(base, r)));
            },
            _ => {},
        }
    }
}

/// A static route gets the steps of the route templates, with its distant
/// network, its gateway and its interface number as the names; any other
/// route gets none.
pub proof fn law_route_steps_of_one(
    route: Route,
    ctx: CommandContext<'_>,
    base: Map<Seq<char>, Seq<char>>,
    templates: Seq<DeserializedOsCommandType>,
)
    ensures
        route_plan(seq![route], ctx, base, templates) == match route {
            Route::Static(r) => templates_commands(
                templates,
                ctx,
                base.insert("{DISTANT_NETWORK}"@, prefix_text(r.distant_network.first_address, r.distant_network.network_length))
                    .insert("{GATEWAY}"@, address_text(r.gateway.0))
                    .insert("{INTERFACE_INDEX}"@, crate::text::decimal(r.interface as nat)),
            ),
            _ => Seq::<CommandView>::empty(),
        },
{
    assert(seq![route].drop_last() =~= Seq::<Route>::empty());
    assert(seq![route].last() == route);
    assert(route_plan(Seq::<Route>::empty(), ctx, base, templates) == Seq::<CommandView>::empty());
    match route {
        Route::Static(r) => {
            assert(Seq::<CommandView>::empty() + templates_commands(templates, ctx, route_names(base, r))
                =~= templates_commands(templates, ctx, route_names(base, r)));
        },
        _ => {},
    }
}

/// A template step whose condition names a value of the context and asks for
/// another value is not sent, whatever position the condition has.
pub proof fn law_unmet_condition_drops_command(
    t: DeserializedOsCommandType,
    ctx: CommandContext<'_>,
    to_replace: Option<&StringMap>,
    r: Option<OsCommand>,
    i: int,
)
    requires
        command_of(t, ctx, to_replace, r),
        t is Other,
        0 <= i < t->Other_0.assert_true@.len(),
        context_values(ctx).dom().contains(t->Other_0.assert_true@[i].0@),
        context_values(ctx)[t->Other_0.assert_true@[i].0@] != t->Other_0.assert_true@[i].1@,
    ensures
        r is None,
{
}

/// A template step whose conditions all hold, each naming a value the
/// context does not have or asking for the value it has, is sent.
pub proof fn law_met_conditions_keep_command(
    t: DeserializedOsCommandType,
    ctx: CommandContext<'_>,
    to_replace: Option<&StringMap>,
    r: Option<OsCommand>,
)
    requires
        command_of(t, ctx, to_replace, r),
        t is Other,
        forall|i: int| 0 <= i < t->Other_0.assert_true@.len()
            && context_values(ctx).dom().contains((#[trigger] t->Other_0.assert_true@[i]).0@)
            ==> context_values(ctx)[t->Other_0.assert_true@[i].0@] == t->Other_0.assert_true@[i].1@,
    ensures
        r is Some,
{
}

/// The legend filters are two arguments per common word, in order: the
/// filter option, then the word followed by optional white space.
pub proof fn law_legend_filters_per_word(words: Seq<Seq<char>>)
    ensures
        legend_filter_args(words).len() == 2 * words.len(),
        forall|k: int| 0 <= k < words.len() ==> #[trigger] legend_filter_args(words)[2 * k] == "--filter-regexp"@,
        forall|k: int| #![trigger words[k]] 0 <= k < words.len() ==> legend_filter_args(words)[2 * k + 1] == words[k] + "\\s?"@,
    decreases words.len(),
{
    if words.len() > 0 {
        let d = words.drop_last();
        law_legend_filters_per_word(d);
        let r = legend_filter_args(words);
        assert(r == legend_filter_args(d) + seq!["--filter-regexp"@, words.last() + "\\s?"@]);
        assert forall|k: int| #![trigger words[k]] #![trigger legend_filter_args(words)[2 * k]] 0 <= k < words.len() implies {
            &&& legend_filter_args(words)[2 * k] == "--filter-regexp"@
            &&& legend_filter_args(words)[2 * k + 1] == words[k] + "\\s?"@
        } by {
            if k < d.len() {
                assert(d[k] == words[k]);
                assert(r[2 * k] == legend_filter_args(d)[2 * k]);
                assert(r[2 * k + 1] == legend_filter_args(d)[2 * k + 1]);
            } else {
                let tail = seq!["--filter-regexp"@, words.last() + "\\s?"@];
                assert(words.last() == words[k]);
                assert(r[2 * k] == tail[0]);
                assert(r[2 * k + 1] == tail[1]);
            }
        }
    }
}

/// The input arguments are two per result file, in order: `-i`, then the
/// file.
pub proof fn law_input_files_per_file(paths: Seq<Seq<char>>)
    ensures
        input_file_args(paths).len() == 2 * paths.len(),
        forall|k: int| 0 <= k < paths.len() ==> #[trigger] input_file_args(paths)[2 * k] == "-i"@,
        forall|k: int| #![trigger paths[k]] 0 <= k < paths.len() ==> input_file_args(paths)[2 * k + 1] == paths[k],
    decreases paths.len(),
{
    if paths.len() > 0 {
        let d = paths.drop_last();
        law_input_files_per_file(d);
        let r = input_file_args(paths);
        assert(r == input_file_args(d) + seq!["-i"@, paths.last()]);
        assert forall|k: int| #![trigger paths[k]] #![trigger input_file_args(paths)[2 * k]] 0 <= k < paths.len() implies {
            &&& input_file_args(paths)[2 * k] == "-i"@
            &&& input_file_args(paths)[2 * k + 1] == paths[k]
        } by {
            if k < d.len() {
                assert(d[k] == paths[k]);
                assert(r[2 * k] == input_file_args(d)[2 * k]);
                assert(r[2 * k + 1] == input_file_args(d)[2 * k + 1]);
            } else {
                let tail = seq!["-i"@, paths.last()];
                assert(paths.last() == paths[k]);
                assert(r[2 * k] == tail[0]);
                assert(r[2 * k + 1] == tail[1]);
            }
        }
    }
}

/// A guest is told its address, to bring its interface up, one route per
/// distant network in order, then nothing more than a wait for its prompt.
pub proof fn law_guest_steps(ip: Ipv4Inet, distant: Seq<DistantNetwork>)
    ensures
        guest_plan(ip, distant).len() == distant.len() + 3,
        guest_plan(ip, distant)[0] == typed(
            "# "@,
            "ip addr add "@ + prefix_text(ip.address, ip.network_length) + " dev eth0"@,
        ),
        guest_plan(ip, distant)[1] == typed("# "@, "ip link set eth0 up"@),
        forall|k: int| 0 <= k < distant.len() ==> (#[trigger] guest_plan(ip, distant)[k + 2]) == typed(
            "# "@,
            "ip route add "@ + prefix_text(distant[k].network.first_address, distant[k].network.network_length)
                + " via "@ + address_text(distant[k].gateway.0),
        ),
        guest_plan(ip, distant)[distant.len() + 2int] == wait_for("# "@),
{
    let p = guest_plan(ip, distant);
    assert(guest_prompt() == "# "@);
    assert forall|k: int| 0 <= k < distant.len() implies (#[trigger] p[k + 2]) == typed(
        "# "@,
        "ip route add "@ + prefix_text(distant[k].network.first_address, distant[k].network.network_length)
            + " via "@ + address_text(distant[k].gateway.0),
    ) by {
        assert(p[k + 2] == distant.map_values(|d: DistantNetwork| typed(guest_prompt(), crate::commands::configure::guest_route_text(d)))[k]);
    }
}

/// Whether a step is among the steps.
pub open spec fn has_step(steps: Seq<RunStep>, s: RunStep) -> bool {
    exists|i: int| 0 <= i < steps.len() && steps[i] == s
}

/// Each option governs its own step and no other: the pause is taken
/// exactly without `no_sleep`, the tests run exactly without `no_test`, the
/// nodes are stopped exactly without `no_stop`, the run exits exactly with
/// `first_only`; the network is always built, the guests always started and
/// configured, the routers always configured, in that order and first.
pub proof fn law_run_options_govern_steps(o: RunCommandArgs)
    ensures
        has_step(experiment_steps(o), RunStep::Pause) <==> !o.no_sleep,
        has_step(experiment_steps(o), RunStep::RunTests) <==> !o.no_test,
        has_step(experiment_steps(o), RunStep::StopNodes) <==> !o.no_stop,
        has_step(experiment_steps(o), RunStep::Exit) <==> o.first_only,
        experiment_steps(o).len() >= 4,
        experiment_steps(o)[0] == RunStep::BuildNetwork,
        experiment_steps(o)[1] == RunStep::StartGuests,
        experiment_steps(o)[2] == RunStep::ConfigureGuests,
        experiment_steps(o)[3] == RunStep::ConfigureRouters,
{
    let s = experiment_steps(o);
    let head = seq![RunStep::BuildNetwork, RunStep::StartGuests, RunStep::ConfigureGuests, RunStep::ConfigureRouters];
    let p = if o.no_sleep { Seq::<RunStep>::empty() } else { seq![RunStep::Pause] };
    let t = if o.no_test { Seq::<RunStep>::empty() } else { seq![RunStep::RunTests] };
    let st = if o.no_stop { Seq::<RunStep>::empty() } else { seq![RunStep::StopNodes] };
    let e = if o.first_only { seq![RunStep::Exit] } else { Seq::<RunStep>::empty() };
    assert(s == head + p + t + st + e);
    let n0 = 4int;
    let n1 = n0 + p.len();
    let n2 = n1 + t.len();
    let n3 = n2 + st.len();
    assert forall|i: int| 0 <= i < s.len() implies {
        &&& (i < n0 ==> #[trigger] s[i] == head[i])
        &&& (n0 <= i < n1 ==> s[i] == RunStep::Pause)
        &&& (n1 <= i < n2 ==> s[i] == RunStep::RunTests)
        &&& (n2 <= i < n3 ==> s[i] == RunStep::StopNodes)
        &&& (n3 <= i ==> s[i] == RunStep::Exit)
    } by {}
    assert(head[0] == RunStep::BuildNetwork && head[1] == RunStep::StartGuests);
    assert(head[2] == RunStep::ConfigureGuests && head[3] == RunStep::ConfigureRouters);
    if !o.no_sleep {
        assert(s[n0] == RunStep::Pause);
    }
    if !o.no_test {
        assert(s[n1] == RunStep::RunTests);
    }
    if !o.no_stop {
        assert(s[n2] == RunStep::StopNodes);
    }
    if o.first_only {
        assert(s[n3] == RunStep::Exit);
    }
}

/// The address steps of the interfaces of `a`, then those of `b`, are the
/// steps of `a`'s interfaces, then those of `b`'s; the first interface that
/// fails, in that order, gives the error.
pub proof fn law_address_steps_concatenate(
    a: Seq<(NicIndex, Nic)>,
    b: Seq<(NicIndex, Nic)>,
    ctx: CommandContext<'_>,
    base: Map<Seq<char>, Seq<char>>,
    templates: Seq<DeserializedOsCommandType>,
)
    ensures
        address_plan(a + b, ctx, base, templates) == match address_plan(a, ctx, base, templates) {
            Err(e) => Err(e),
            Ok(p) => match address_plan(b, ctx, base, templates) {
                Err(e) => Err(e),
                Ok(q) => Ok::<Seq<CommandView>, CommandError>(p + q),
            },
        },
    decreases b.len(),
{
    if b.len() == 0 {
        assert(a + b =~= a);
        if let Ok(p) = address_plan(a, ctx, base, templates) {
            assert(p + Seq::<CommandView>::empty() =~= p);
        }
    } else {
        law_address_steps_concatenate(a, b.drop_last(), ctx, base, templates);
        assert((a + b).drop_last() =~= a + b.drop_last());
        assert((a + b).last() == b.last());
        if let Ok(p) = address_plan(a, ctx, base, templates) {
            if let Ok(q) = address_plan(b.drop_last(), ctx, base, templates) {
                let (index, nic) = b.last();
                if let Ok(pre) = prefix_for(ctx.os.interface_prefix, nic.nic_type) {
                    if let Ok(n) = parse_u16(index.0@) {
                        let t = templates_commands(templates, ctx, crate::commands::configure::address_names(base, pre@, n, nic.ip_address));
                        assert(p + q + t =~= p + (q + t));
                    }
                }
            }
        }
    }
}

/// One interface gets the steps of the address templates, with its prefix,
/// its number and its address as the names; an interface whose model has no
/// prefix, or whose index is not a number, is an error.
pub proof fn law_address_steps_of_one(
    index: NicIndex,
    nic: Nic,
    ctx: CommandContext<'_>,
    base: Map<Seq<char>, Seq<char>>,
    templates: Seq<DeserializedOsCommandType>,
)
    ensures
        address_plan(seq![(index, nic)], ctx, base, templates) == match prefix_for(ctx.os.interface_prefix, nic.nic_type) {
            Err(InterfacePrefixError::UnknownNicType(t)) => Err(CommandError::UnknownNicType(t)),
            Ok(p) => match parse_u16(index.0@) {
                Err(e) => Err(CommandError::InvalidInterfaceIndex(e)),
                Ok(n) => Ok::<Seq<CommandView>, CommandError>(templates_commands(
                    templates,
                    ctx,
                    base.insert("{INTERFACE_PREFIX}"@, p@)
                        .insert("{INTERFACE_INDEX}"@, crate::text::decimal(n as nat))
                        .insert("{IP_ADDRESS}"@, prefix_text(nic.ip_address.address, nic.ip_address.network_length)),
                )),
            },
        },
{
    let s = seq![(index, nic)];
    assert(s.drop_last() =~= Seq::<(NicIndex, Nic)>::empty());
    assert(s.last() == (index, nic));
    assert(address_plan(Seq::<(NicIndex, Nic)>::empty(), ctx, base, templates) == Ok::<Seq<CommandView>, CommandError>(Seq::empty()));
    if let Ok(p) = prefix_for(ctx.os.interface_prefix, nic.nic_type) {
        if let Ok(n) = parse_u16(index.0@) {
            let t = templates_commands(templates, ctx, crate::commands::configure::address_names(base, p@, n, nic.ip_address));
            assert(Seq::<CommandView>::empty() + t =~= t);
        }
    }
}

/// Login answers the trigger sequence with a new line, then types the login
/// name at `login:`, then the password at `Password:`, each only where the
/// system has it, and nothing else.
pub proof fn law_login_steps(os: OperatingSystem)
    ensures
        login_plan(os).len() == (if os.trigger_sequence is Some { 1int } else { 0int })
            + (if os.login is Some { 1int } else { 0int }) + (if os.password is Some { 1int } else { 0int }),
        os.trigger_sequence matches Some(t) ==> login_plan(os)[0] == (t@, SendView::NewLine, false),
        os.login matches Some(l) ==> login_plan(os)[if os.trigger_sequence is Some { 1int } else { 0int }]
            == typed("login:"@, l@),
        os.password matches Some(p) ==> login_plan(os)[login_plan(os).len() - 1] == typed("Password:"@, p@),
{
}

} // verus!
