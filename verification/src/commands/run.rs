//! The decisions of running an experiment that do not touch the emulation
//! server: which machines are guests or routers, and whether the cables and
//! tests of an experiment name machines it has.
use vstd::prelude::*;
use indexmap::IndexMap;
use crate::index_maps::{first_index_of, lemma_first_index_of, node_entries, node_map_get_index, node_map_len, string_key_eq};
use crate::models::link::Link;
use crate::models::nodes::node::{Node, NodeType};
use crate::models::test::Test;
use crate::string_map::str_eq;
use crate::args::run::RunCommandArgs;

verus! {

/// What makes an experiment impossible to run.
#[derive(Debug, Clone)]
pub enum NetworkError {
    /// The first end of the cable at `link_index` names no machine.
    LinkNodeANotFound { node: String, link_index: usize },
    /// The second end of the cable at `link_index` names no machine.
    LinkNodeBNotFound { node: String, link_index: usize },
    /// A test names a machine the experiment does not have.
    TestNodeNotFound { node: String, test: String },
    /// A test starts or ends at a router; tests run between guests only.
    TestNodeNotGuest { node: String, test: String },
}

/// The positions, in order, of the entries whose machine is a guest (or a
/// router, when `guests` is false).
pub open spec fn positions_of_kind(entries: Seq<(String, Node)>, guests: bool) -> Seq<usize>
    decreases entries.len(),
{
    if entries.len() == 0 {
        Seq::empty()
    } else {
        let rest = positions_of_kind(entries.drop_last(), guests);
        if (entries.last().1.node_type is Guest) == guests {
            rest.push((entries.len() - 1) as usize)
        } else {
            rest
        }
    }
}

fn positions_of(nodes: &IndexMap<String, Node>, guests: bool) -> (r: Vec<usize>)
    ensures
        r@ == positions_of_kind(node_entries(*nodes), guests),
{
    let n = node_map_len(nodes);
    let ghost s = node_entries(*nodes);
    let mut out: Vec<usize> = Vec::new();
    let mut i: usize = 0;
    while i < n
        invariant
            i <= n,
            n == s.len(),
            s == node_entries(*nodes),
            out@ == positions_of_kind(s.subrange(0, i as int), guests),
        decreases n - i,
    {
        assert(s.subrange(0, i + 1).drop_last() == s.subrange(0, i as int));
        match node_map_get_index(nodes, i) {
            Some((_, node)) => {
                let is_guest = match node.node_type {
                    NodeType::Guest(_) => true,
                    NodeType::Router(_) => false,
                };
                if is_guest == guests {
                    out.push(i);
                }
            },
            None => {},
        }
        i = i + 1;
    }
    assert(s.subrange(0, n as int) == s);
    out
}

/// The positions of the guests of an experiment, in order.
pub fn filter_guests(nodes: &IndexMap<String, Node>) -> (r: Vec<usize>)
    ensures
        r@ == positions_of_kind(node_entries(*nodes), true),
{
    positions_of(nodes, true)
}

/// The positions of the routers of an experiment, in order.
pub fn filter_routers(nodes: &IndexMap<String, Node>) -> (r: Vec<usize>)
    ensures
        r@ == positions_of_kind(node_entries(*nodes), false),
{
    positions_of(nodes, false)
}

/// The position of the machine of a name.
pub fn node_position(nodes: &IndexMap<String, Node>, name: &String) -> (r: Option<usize>)
    ensures
        r is None <==> first_index_of(node_entries(*nodes), string_key_eq(), *name) is None,
        r matches Some(i) ==> first_index_of(node_entries(*nodes), string_key_eq(), *name) == Some(i as int),
{
    let n = node_map_len(nodes);
    let ghost s = node_entries(*nodes);
    let mut i: usize = 0;
    while i < n
        invariant
            i <= n,
            n == s.len(),
            s == node_entries(*nodes),
            first_index_of(s.subrange(0, i as int), string_key_eq(), *name) is None,
        decreases n - i,
    {
        assert(s.subrange(0, i + 1).drop_last() == s.subrange(0, i as int));
        match node_map_get_index(nodes, i) {
            Some((key, _)) => {
                if *key == *name {
                    proof {
                        crate::index_maps::lemma_first_index_prefix(s, string_key_eq(), *name, i as int);
                    }
                    return Some(i);
                }
            },
            None => {},
        }
        i = i + 1;
    }
    assert(s.subrange(0, n as int) == s);
    None
}

/// The experiment has a machine of that name.
pub open spec fn has_node(entries: Seq<(String, Node)>, name: String) -> bool {
    first_index_of(entries, string_key_eq(), name) is Some
}

/// The machine of a name is a guest.
pub open spec fn is_guest_node(entries: Seq<(String, Node)>, name: String) -> bool {
    match first_index_of(entries, string_key_eq(), name) {
        Some(i) => entries[i].1.node_type is Guest,
        None => false,
    }
}

/// The error of the first cable, in order, with an end that names no
/// machine (its first end checked before its second).
pub open spec fn first_link_error(entries: Seq<(String, Node)>, links: Seq<Link>) -> Option<NetworkError>
    decreases links.len(),
{
    if links.len() == 0 {
        None
    } else {
        match first_link_error(entries, links.drop_last()) {
            Some(e) => Some(e),
            None => {
                let i = links.len() - 1;
                let link = links.last();
                if !has_node(entries, link.node_a) {
                    Some(NetworkError::LinkNodeANotFound { node: link.node_a, link_index: i as usize })
                } else if !has_node(entries, link.node_b) {
                    Some(NetworkError::LinkNodeBNotFound { node: link.node_b, link_index: i as usize })
                } else {
                    None
                }
            },
        }
    }
}

/// Every cable connects two machines of the experiment.
pub fn check_links(nodes: &IndexMap<String, Node>, links: &Vec<Link>) -> (r: Result<(), NetworkError>)
    ensures
        match first_link_error(node_entries(*nodes), links@) {
            Some(e) => r == Err::<(), NetworkError>(e),
            None => r is Ok,
        },
{
    let mut i: usize = 0;
    while i < links.len()
        invariant
            i <= links@.len(),
            first_link_error(node_entries(*nodes), links@.subrange(0, i as int)) is None,
        decreases links@.len() - i,
    {
        let ghost p = links@.subrange(0, i + 1);
        assert(p.drop_last() == links@.subrange(0, i as int));
        let link = &links[i];
        if node_position(nodes, &link.node_a).is_none() {
            proof {
                lemma_first_link_error_prefix(node_entries(*nodes), links@, i as int);
            }
            return Err(NetworkError::LinkNodeANotFound { node: link.node_a.clone(), link_index: i });
        }
        if node_position(nodes, &link.node_b).is_none() {
            proof {
                lemma_first_link_error_prefix(node_entries(*nodes), links@, i as int);
            }
            return Err(NetworkError::LinkNodeBNotFound { node: link.node_b.clone(), link_index: i });
        }
        i = i + 1;
    }
    assert(links@.subrange(0, i as int) == links@);
    Ok(())
}

proof fn lemma_first_link_error_prefix(entries: Seq<(String, Node)>, links: Seq<Link>, i: int)
    requires
        0 <= i < links.len(),
        first_link_error(entries, links.subrange(0, i)) is None,
    ensures
        first_link_error(entries, links.subrange(0, i + 1)) is Some ==> first_link_error(entries, links)
            == first_link_error(entries, links.subrange(0, i + 1)),
    decreases links.len(),
{
    if i + 1 < links.len() {
        assert(links.drop_last().subrange(0, i) == links.subrange(0, i));
        assert(links.drop_last().subrange(0, i + 1) == links.subrange(0, i + 1));
        lemma_first_link_error_prefix(entries, links.drop_last(), i);
    } else {
        assert(links.subrange(0, i + 1) == links);
    }
}

/// The error of a test: its destination, then its source, must be guests of
/// the experiment.
pub open spec fn test_error(entries: Seq<(String, Node)>, test: Test) -> Option<NetworkError> {
    if !has_node(entries, test.to) {
        Some(NetworkError::TestNodeNotFound { node: test.to, test: test.name })
    } else if !is_guest_node(entries, test.to) {
        Some(NetworkError::TestNodeNotGuest { node: test.to, test: test.name })
    } else if !has_node(entries, test.from) {
        Some(NetworkError::TestNodeNotFound { node: test.from, test: test.name })
    } else if !is_guest_node(entries, test.from) {
        Some(NetworkError::TestNodeNotGuest { node: test.from, test: test.name })
    } else {
        None
    }
}

/// The error of the first test, in order, that has one.
pub open spec fn first_test_error(entries: Seq<(String, Node)>, tests: Seq<Test>) -> Option<NetworkError>
    decreases tests.len(),
{
    if tests.len() == 0 {
        None
    } else {
        match first_test_error(entries, tests.drop_last()) {
            Some(e) => Some(e),
            None => test_error(entries, tests.last()),
        }
    }
}

fn endpoint_error(nodes: &IndexMap<String, Node>, name: &String, test: &Test) -> (r: Option<NetworkError>)
    ensures
        r == (if !has_node(node_entries(*nodes), *name) {
            Some(NetworkError::TestNodeNotFound { node: *name, test: test.name })
        } else if !is_guest_node(node_entries(*nodes), *name) {
            Some(NetworkError::TestNodeNotGuest { node: *name, test: test.name })
        } else {
            None
        }),
{
    match node_position(nodes, name) {
        None => Some(NetworkError::TestNodeNotFound { node: name.clone(), test: test.name.clone() }),
        Some(i) => {
            proof {
                lemma_first_index_of(node_entries(*nodes), string_key_eq(), *name);
            }
            match node_map_get_index(nodes, i) {
                Some((_, node)) => match node.node_type {
                    NodeType::Guest(_) => None,
                    NodeType::Router(_) => Some(NetworkError::TestNodeNotGuest { node: name.clone(), test: test.name.clone() }),
                },
                None => None,
            }
        },
    }
}

/// Every test runs from a guest of the experiment to a guest of it.
pub fn check_tests(nodes: &IndexMap<String, Node>, tests: &Vec<Test>) -> (r: Result<(), NetworkError>)
    ensures
        match first_test_error(node_entries(*nodes), tests@) {
            Some(e) => r == Err::<(), NetworkError>(e),
            None => r is Ok,
        },
{
    let mut i: usize = 0;
    while i < tests.len()
        invariant
            i <= tests@.len(),
            first_test_error(node_entries(*nodes), tests@.subrange(0, i as int)) is None,
        decreases tests@.len() - i,
    {
        let ghost p = tests@.subrange(0, i + 1);
        assert(p.drop_last() == tests@.subrange(0, i as int));
        let test = &tests[i];
        let e = match endpoint_error(nodes, &test.to, test) {
            Some(e) => Some(e),
            None => endpoint_error(nodes, &test.from, test),
        };
        if let Some(e) = e {
            proof {
                lemma_first_test_error_prefix(node_entries(*nodes), tests@, i as int);
            }
            return Err(e);
        }
        i = i + 1;
    }
    assert(tests@.subrange(0, i as int) == tests@);
    Ok(())
}

proof fn lemma_first_test_error_prefix(entries: Seq<(String, Node)>, tests: Seq<Test>, i: int)
    requires
        0 <= i < tests.len(),
        first_test_error(entries, tests.subrange(0, i)) is None,
    ensures
        first_test_error(entries, tests.subrange(0, i + 1)) is Some ==> first_test_error(entries, tests)
            == first_test_error(entries, tests.subrange(0, i + 1)),
    decreases tests.len(),
{
    if i + 1 < tests.len() {
        assert(tests.drop_last().subrange(0, i) == tests.subrange(0, i));
        assert(tests.drop_last().subrange(0, i + 1) == tests.subrange(0, i + 1));
        lemma_first_test_error_prefix(entries, tests.drop_last(), i);
    } else {
        assert(tests.subrange(0, i + 1) == tests);
    }
}

/// A project or template left by an earlier run: its name begins with the
/// prefix the runs give theirs.
pub fn is_stale(name: &str, prefix: &str) -> (r: bool)
    ensures
        r == prefix@.is_prefix_of(name@),
{
    let n = name.unicode_len();
    let p = prefix.unicode_len();
    if p > n {
        return false;
    }
    let head = name.substring_char(0, p);
    let r = str_eq(head, prefix);
    assert(r == (prefix@ =~= name@.subrange(0, p as int)));
    r
}

/// A step of running one experiment.
#[derive(Debug, Clone, Copy, PartialEq, Eq, Structural)]
pub enum RunStep {
    /// Clear earlier runs, create the templates, the project, the nodes and
    /// the cables.
    BuildNetwork,
    /// Start the guests.
    StartGuests,
    /// Configure the guests through their consoles.
    ConfigureGuests,
    /// Start the routers and configure them through their consoles.
    ConfigureRouters,
    /// Wait between starting the nodes and starting the experiment.
    Pause,
    /// Run the tests of the batch.
    RunTests,
    /// Stop every node.
    StopNodes,
    /// Stop after this experiment.
    Exit,
}

/// The steps of an experiment under the run options: the pause unless
/// `no_sleep`, the tests unless `no_test`, stopping the nodes unless
/// `no_stop`, and the exit after the first experiment with `first_only`.
pub open spec fn experiment_steps(options: RunCommandArgs) -> Seq<RunStep> {
    seq![RunStep::BuildNetwork, RunStep::StartGuests, RunStep::ConfigureGuests, RunStep::ConfigureRouters]
        + (if options.no_sleep { Seq::empty() } else { seq![RunStep::Pause] })
        + (if options.no_test { Seq::empty() } else { seq![RunStep::RunTests] })
        + (if options.no_stop { Seq::empty() } else { seq![RunStep::StopNodes] })
        + (if options.first_only { seq![RunStep::Exit] } else { Seq::empty() })
}

/// The steps of running one experiment, in order.
pub fn run_steps(options: &RunCommandArgs) -> (r: Vec<RunStep>)
    ensures
        r@ == experiment_steps(*options),
{
    let mut r: Vec<RunStep> = vec![RunStep::BuildNetwork, RunStep::StartGuests, RunStep::ConfigureGuests, RunStep::ConfigureRouters];
    if !options.no_sleep {
        r.push(RunStep::Pause);
    }
    if !options.no_test {
        r.push(RunStep::RunTests);
    }
    if !options.no_stop {
        r.push(RunStep::StopNodes);
    }
    if options.first_only {
        r.push(RunStep::Exit);
    }
    assert(r@ =~= experiment_steps(*options));
    r
}

} // verus!
