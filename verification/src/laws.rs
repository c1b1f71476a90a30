//! Properties that relate the functions of this crate to one another.
use vstd::prelude::*;
use vstd::string::StringSliceAdditionalSpecFns;
use crate::commands::generate::{
    cross, experiment_name, experiment_plan_of, experiment_selected, node_instantiates, positions, running_product,
    topology_protocols,
};
use crate::args::args::ExperimentSelectionArgs;
use crate::commands::plot::{adjusted_note, first_comma, lemma_first_comma, note_indent, notes_fit, spaces, split_commas};
use crate::commands::run::positions_of_kind;
use crate::index_maps::{entries_matching, first_index_of, string_key_eq};
use crate::models::hardware_resources::{HardwareResources, resources_name, vcpu_and_ram};
use crate::models::nic::{NicType, ParseIndexError, digit_value, is_decimal_digit, nic_type_name, parse_u16, parse_u16_digits};
use crate::text::{decimal, digit_char};
use crate::models::nodes::node::{GenericNode, Node};
use crate::models::operating_system::file_name;
use crate::models::os_command::{braced, braced_keys, first_close, lemma_first_close, substitute};
use crate::models::protocol::{RoutingProtocol, protocol_name};

verus! {

/// A text has no comma.
pub open spec fn comma_free(s: Seq<char>) -> bool {
    forall|i: int| 0 <= i < s.len() ==> s[i] != ','
}

proof fn lemma_split_comma_free(s: Seq<char>)
    requires
        comma_free(s),
    ensures
        split_commas(s) == seq![s],
{
    lemma_first_comma(s);
    if let Some(j) = first_comma(s) {
        assert(s[j] != ',');
    }
}

proof fn lemma_split_after(a: Seq<char>, rest: Seq<char>)
    requires
        comma_free(a),
    ensures
        split_commas(a + seq![','] + rest) == seq![a] + split_commas(rest),
{
    let s = a + seq![','] + rest;
    lemma_first_comma(s);
    assert(s[a.len() as int] == ',');
    match first_comma(s) {
        Some(j) => {
            if j < a.len() {
                assert(s[j] == a[j]);
            }
            assert(j == a.len());
            assert(s.subrange(0, j) =~= a);
            assert(s.subrange(j + 1, s.len() as int) =~= rest);
        },
        None => {},
    }
}

/// The names of hardware profiles, NIC models and protocols have no comma.
pub proof fn lemma_display_names_comma_free(r: HardwareResources, n: NicType, p: RoutingProtocol)
    ensures
        comma_free(resources_name(r)),
        comma_free(nic_type_name(n)),
        comma_free(protocol_name(p)),
{
    reveal_strlit("Low Resources");
    reveal_strlit("Medium Resources");
    reveal_strlit("High Resources");
    reveal_strlit("RTL8139");
    reveal_strlit("E1000");
    reveal_strlit("VirtIO");
    reveal_strlit("static");
    reveal_strlit("RIP");
    reveal_strlit("OSPF");
    reveal_strlit("BGP");
    reveal_strlit("MPLS");
}

/// The keywords of an experiment's name are its six coordinates, in order,
/// when the topology, system and test batch names have no comma.
pub proof fn law_experiment_name_keywords(
    topology: Seq<char>,
    os: Seq<char>,
    batch: Seq<char>,
    r: HardwareResources,
    n: NicType,
    p: RoutingProtocol,
)
    requires
        comma_free(topology),
        comma_free(os),
        comma_free(batch),
    ensures
        split_commas(experiment_name(topology, os, batch, r, n, p)) == seq![
            topology,
            os,
            batch,
            resources_name(r),
            nic_type_name(n),
            protocol_name(p),
        ],
{
    lemma_display_names_comma_free(r, n, p);
    let c = seq![','];
    let rn = resources_name(r);
    let nn = nic_type_name(n);
    let pn = protocol_name(p);
    let s5 = nn + c + pn;
    let s4 = rn + c + s5;
    let s3 = batch + c + s4;
    let s2 = os + c + s3;
    let s1 = topology + c + s2;
    assert(experiment_name(topology, os, batch, r, n, p) =~= s1);
    lemma_split_comma_free(pn);
    lemma_split_after(nn, pn);
    lemma_split_after(rn, s5);
    lemma_split_after(batch, s4);
    lemma_split_after(os, s3);
    lemma_split_after(topology, s2);
    assert(split_commas(s1) =~= seq![topology, os, batch, rn, nn, pn]);
}

/// Selecting by name keeps only entries of that name, and keeps some when
/// the name is present; selecting again by the same name changes nothing.
pub proof fn law_selection_by_name<V>(entries: Seq<(String, V)>, name: String)
    ensures
        forall|i: int| 0 <= i < entries_matching(entries, string_key_eq(), name).len()
            ==> (#[trigger] entries_matching(entries, string_key_eq(), name)[i]).0@ == name@,
        first_index_of(entries, string_key_eq(), name) is Some ==> entries_matching(entries, string_key_eq(), name).len() > 0,
        entries_matching(entries_matching(entries, string_key_eq(), name), string_key_eq(), name)
            == entries_matching(entries, string_key_eq(), name),
    decreases entries.len(),
{
    if entries.len() > 0 {
        let d = entries.drop_last();
        law_selection_by_name(d, name);
        let rest = entries_matching(d, string_key_eq(), name);
        if string_key_eq()(entries.last().0, name) {
            let r = rest.push(entries.last());
            assert(r.drop_last() == rest);
        }
        if first_index_of(entries, string_key_eq(), name) is Some && first_index_of(d, string_key_eq(), name) is None {
            assert(string_key_eq()(entries.last().0, name));
        }
    }
}

/// Every machine of an experiment is a guest or a router, not both: the
/// positions of the guests and of the routers split the positions of the
/// machines.
pub proof fn law_guests_and_routers_partition(entries: Seq<(String, Node)>)
    requires
        entries.len() <= usize::MAX,
    ensures
        forall|i: usize|
            #![trigger positions_of_kind(entries, true).contains(i)]
            #![trigger positions_of_kind(entries, false).contains(i)]
            i < entries.len() ==> (positions_of_kind(entries, true).contains(i) <==> !positions_of_kind(entries, false).contains(i)),
        forall|k: int| 0 <= k < positions_of_kind(entries, true).len() ==> #[trigger] positions_of_kind(entries, true)[k] < entries.len(),
        forall|k: int| 0 <= k < positions_of_kind(entries, false).len() ==> #[trigger] positions_of_kind(entries, false)[k] < entries.len(),
    decreases entries.len(),
{
    if entries.len() > 0 {
        let d = entries.drop_last();
        law_guests_and_routers_partition(d);
        let g = positions_of_kind(d, true);
        let r = positions_of_kind(d, false);
        let last = (entries.len() - 1) as usize;
        assert(!g.contains(last));
        assert(!r.contains(last));
        let g2 = positions_of_kind(entries, true);
        let r2 = positions_of_kind(entries, false);
        assert forall|i: usize| i < entries.len() implies (#[trigger] g2.contains(i) <==> !r2.contains(i)) by {
            if i < d.len() {
                if g2.contains(i) && i != last {
                    let k = choose|k: int| 0 <= k < g2.len() && g2[k] == i;
                    if k < g.len() {
                        assert(g[k] == g2[k]);
                    }
                }
                if r2.contains(i) && i != last {
                    let k = choose|k: int| 0 <= k < r2.len() && r2[k] == i;
                    if k < r.len() {
                        assert(r[k] == r2[k]);
                    }
                }
                if g.contains(i) {
                    let k = choose|k: int| 0 <= k < g.len() && g[k] == i;
                    assert(g2[k] == g[k]);
                }
                if r.contains(i) {
                    let k = choose|k: int| 0 <= k < r.len() && r[k] == i;
                    assert(r2[k] == r[k]);
                }
            } else {
                if entries.last().1.node_type is Guest {
                    assert(g2[g2.len() - 1] == last);
                    if r2.contains(last) {
                        let k = choose|k: int| 0 <= k < r2.len() && r2[k] == last;
                        assert(r2 == r);
                    }
                } else {
                    assert(r2[r2.len() - 1] == last);
                    if g2.contains(last) {
                        let k = choose|k: int| 0 <= k < g2.len() && g2[k] == last;
                        assert(g2 == g);
                    }
                }
            }
        }
    }
}

/// A context value keeps its value under its name between braces.
pub proof fn law_braced_names(m: Map<Seq<char>, Seq<char>>, k: Seq<char>)
    requires
        m.dom().contains(k),
    ensures
        braced_keys(m).dom().contains(braced(k)),
        braced_keys(m)[braced(k)] == m[k],
{
    let b = braced(k);
    assert(b.subrange(1, b.len() - 1) =~= k);
}

/// A template with no names between braces is sent as it is.
pub proof fn law_substitute_without_placeholders(s: Seq<char>, m: Map<Seq<char>, Seq<char>>)
    requires
        forall|i: int| 0 <= i < s.len() ==> s[i] != '{',
    ensures
        substitute(s, m) == s,
    decreases s.len(),
{
    if s.len() > 0 {
        law_substitute_without_placeholders(s.drop_first(), m);
        assert(seq![s[0]] + s.drop_first() =~= s);
    }
}

/// A template that is one name between braces is sent as the value of the
/// name, when the map has it.
pub proof fn law_substitute_placeholder(k: Seq<char>, m: Map<Seq<char>, Seq<char>>)
    requires
        forall|i: int| 0 <= i < k.len() ==> k[i] != '}',
        m.dom().contains(braced(k)),
    ensures
        substitute(braced(k), m) == m[braced(k)],
{
    let b = braced(k);
    lemma_first_close(b);
    assert(b[b.len() - 1] == '}');
    match first_close(b) {
        Some(j) => {
            if j < b.len() - 1 {
                assert(b[j] == k[j - 1]);
            }
            assert(j == b.len() - 1);
            assert(b.subrange(0, j + 1) =~= b);
            assert(b.subrange(j + 1, b.len() as int).len() == 0);
        },
        None => {},
    }
    assert(substitute(b.subrange(b.len() as int, b.len() as int), m) == Seq::<char>::empty());
    assert(m[b] + Seq::<char>::empty() =~= m[b]);
}

/// Every router of an experiment runs on the hardware of the chosen profile,
/// and every guest keeps the hardware its topology gives it.
pub proof fn law_router_hardware(
    n: Node,
    g: GenericNode,
    os_name: String,
    resources: HardwareResources,
    nic: NicType,
    protocol: RoutingProtocol,
)
    requires
        node_instantiates(n, g, os_name, resources, nic, protocol),
    ensures
        n.node_type is Router ==> (n.vcpu, n.ram) == vcpu_and_ram(resources),
        g.node_type is Guest ==> n.vcpu == g.node_type->Guest_0.vcpu && n.ram == g.node_type->Guest_0.ram,
        (n.node_type is Router) == (g.node_type is Router),
{
}

/// The image name of a system whose image is a file in a directory is the
/// file's name.
pub proof fn law_image_name_of_file(dir: Seq<char>, name: Seq<char>)
    requires
        name.len() > 0,
        forall|i: int| 0 <= i < name.len() ==> name[i] != '/',
        name != seq!['.'],
        name != seq!['.', '.'],
    ensures
        file_name(dir + seq!['/'] + name) == Some(name),
{
    let p = dir + seq!['/'] + name;
    assert(p.last() == name.last());
    lemma_segment_start_after_slash(dir + seq!['/'], name);
    assert(p.subrange(dir.len() as int + 1, p.len() as int) =~= name);
}

proof fn lemma_segment_start_after_slash(d: Seq<char>, name: Seq<char>)
    requires
        d.len() > 0,
        d.last() == '/',
        forall|i: int| 0 <= i < name.len() ==> name[i] != '/',
    ensures
        crate::models::operating_system::segment_start(d + name) == d.len(),
    decreases name.len(),
{
    if name.len() > 0 {
        lemma_segment_start_after_slash(d, name.drop_last());
        assert((d + name).drop_last() =~= d + name.drop_last());
        assert((d + name).last() == name.last());
    } else {
        assert(d + name =~= d);
    }
}

proof fn lemma_digit_char(d: nat)
    requires
        d < 10,
    ensures
        is_decimal_digit(digit_char(d)),
        digit_value(digit_char(d)) == d,
        digit_char(d) != '+',
        digit_char(d) != '-',
{
}

proof fn lemma_decimal_digits(n: nat)
    ensures
        decimal(n).len() > 0,
        forall|i: int| 0 <= i < decimal(n).len() ==> is_decimal_digit(#[trigger] decimal(n)[i]),
    decreases n,
{
    if n < 10 {
        lemma_digit_char(n);
    } else {
        lemma_decimal_digits(n / 10);
        lemma_digit_char(n % 10);
        let d = decimal(n / 10);
        assert forall|i: int| 0 <= i < decimal(n).len() implies is_decimal_digit(#[trigger] decimal(n)[i]) by {
            if i < d.len() {
                assert(decimal(n)[i] == d[i]);
            }
        }
    }
}

proof fn lemma_parse_push(acc: nat, ds: Seq<char>, c: char, v: u16)
    requires
        acc <= u16::MAX,
        parse_u16_digits(acc, ds) == Ok::<u16, ParseIndexError>(v),
        is_decimal_digit(c),
    ensures
        parse_u16_digits(acc, ds.push(c)) == if v * 10 + digit_value(c) > u16::MAX {
            Err::<u16, ParseIndexError>(ParseIndexError::PosOverflow)
        } else {
            Ok((v * 10 + digit_value(c)) as u16)
        },
    decreases ds.len(),
{
    let t = ds.push(c);
    if ds.len() == 0 {
        assert(t.drop_first() =~= Seq::<char>::empty());
        assert(v == acc);
        assert(t[0] == c);
        assert(parse_u16_digits(acc * 10 + digit_value(c), t.drop_first())
            == Ok::<u16, ParseIndexError>((acc * 10 + digit_value(c)) as u16));
    } else {
        let acc2 = acc * 10 + digit_value(ds[0]);
        assert(t[0] == ds[0]);
        assert(t.drop_first() =~= ds.drop_first().push(c));
        assert(is_decimal_digit(ds[0]));
        assert(acc2 <= u16::MAX);
        assert(parse_u16_digits(acc2, ds.drop_first()) == Ok::<u16, ParseIndexError>(v));
        lemma_parse_push(acc2, ds.drop_first(), c, v);
        assert(parse_u16_digits(acc, t) == parse_u16_digits(acc2, t.drop_first()));
    }
}

proof fn lemma_parse_decimal(n: nat)
    requires
        n <= u16::MAX,
    ensures
        parse_u16_digits(0, decimal(n)) == Ok::<u16, ParseIndexError>(n as u16),
    decreases n,
{
    if n < 10 {
        lemma_digit_char(n);
        let s = decimal(n);
        assert(s == seq![digit_char(n)]);
        assert(s[0] == digit_char(n));
        assert(s.drop_first() =~= Seq::<char>::empty());
        assert(parse_u16_digits(n, s.drop_first()) == Ok::<u16, ParseIndexError>(n as u16));
    } else {
        lemma_parse_decimal(n / 10);
        lemma_digit_char(n % 10);
        lemma_parse_push(0, decimal(n / 10), digit_char(n % 10), (n / 10) as u16);
        assert((n / 10) * 10 + n % 10 == n);
        assert(decimal(n) == decimal(n / 10).push(digit_char(n % 10)));
    }
}

/// An interface index written in decimal reads back as the same number.
pub proof fn law_index_round_trip(n: u16)
    ensures
        parse_u16(decimal(n as nat)) == Ok::<u16, ParseIndexError>(n),
{
    lemma_decimal_digits(n as nat);
    lemma_parse_decimal(n as nat);
    let s = decimal(n as nat);
    assert(is_decimal_digit(s[0]));
}

proof fn lemma_cross_len<A, B>(a: Seq<A>, b: Seq<B>)
    ensures
        cross(a, b).len() == a.len() * b.len(),
    decreases a.len(),
{
    if a.len() > 0 {
        lemma_cross_len(a.drop_last(), b);
        assert((a.len() - 1) * b.len() + b.len() == a.len() * b.len()) by (nonlinear_arith);
    }
}

/// With a single topology, the total announced before the files are written
/// is the number of experiments generated, whenever that total fits in a
/// machine integer.
pub proof fn law_count_is_plan_length(
    n_oses: usize,
    n_test_batches: usize,
    resources: Seq<HardwareResources>,
    nics: Seq<NicType>,
    protocols: Seq<RoutingProtocol>,
)
    requires
        resources.len() <= usize::MAX,
        nics.len() <= usize::MAX,
        protocols.len() <= usize::MAX,
    ensures
        running_product(seq![n_oses, n_test_batches, resources.len() as usize, nics.len() as usize, protocols.len() as usize])
            matches Some(c) ==> c == experiment_plan_of(
                n_oses as nat,
                n_test_batches as nat,
                resources,
                nics,
                seq![protocols],
            ).len(),
{
    let f = seq![n_oses, n_test_batches, resources.len() as usize, nics.len() as usize, protocols.len() as usize];
    assert(f.drop_last().drop_last().drop_last().drop_last().drop_last() == Seq::<usize>::empty());
    reveal_with_fuel(running_product, 6);
    let inner = topology_protocols(seq![protocols]);
    assert(seq![protocols].drop_last() == Seq::<Seq<RoutingProtocol>>::empty());
    let single = seq![protocols];
    assert(single.last() == protocols);
    assert(topology_protocols(single.drop_last()).len() == 0);
    assert(inner.len() == topology_protocols(single.drop_last()).len() + single.last().len());
    lemma_cross_len(nics, inner);
    lemma_cross_len(resources, cross(nics, inner));
    lemma_cross_len(positions(n_test_batches as nat), cross(resources, cross(nics, inner)));
    lemma_cross_len(positions(n_oses as nat), cross(positions(n_test_batches as nat), cross(resources, cross(nics, inner))));
    let (a, b, c, d, e) = (n_oses as int, n_test_batches as int, resources.len() as int, nics.len() as int, protocols.len() as int);
    assert(1 * a * b * c * d * e == a * (b * (c * (d * e)))) by (nonlinear_arith);
}

/// Distinct hardware profiles, NIC models and protocols have distinct
/// names.
pub proof fn lemma_display_names_distinct()
    ensures
        forall|r1: HardwareResources, r2: HardwareResources|
            #[trigger] resources_name(r1) == #[trigger] resources_name(r2) ==> r1 == r2,
        forall|n1: NicType, n2: NicType| #[trigger] nic_type_name(n1) == #[trigger] nic_type_name(n2) ==> n1 == n2,
        forall|p1: RoutingProtocol, p2: RoutingProtocol|
            #[trigger] protocol_name(p1) == #[trigger] protocol_name(p2) ==> p1 == p2,
{
    reveal_strlit("Low Resources");
    reveal_strlit("Medium Resources");
    reveal_strlit("High Resources");
    reveal_strlit("RTL8139");
    reveal_strlit("E1000");
    reveal_strlit("VirtIO");
    reveal_strlit("static");
    reveal_strlit("RIP");
    reveal_strlit("OSPF");
    reveal_strlit("BGP");
    reveal_strlit("MPLS");
    assert forall|r1: HardwareResources, r2: HardwareResources|
        #[trigger] resources_name(r1) == #[trigger] resources_name(r2) implies r1 == r2 by {
        assert(resources_name(r1).len() == resources_name(r2).len());
    }
    assert forall|n1: NicType, n2: NicType| #[trigger] nic_type_name(n1) == #[trigger] nic_type_name(n2) implies n1 == n2 by {
        assert(nic_type_name(n1).len() == nic_type_name(n2).len());
    }
    assert forall|p1: RoutingProtocol, p2: RoutingProtocol|
        #[trigger] protocol_name(p1) == #[trigger] protocol_name(p2) implies p1 == p2 by {
        assert(protocol_name(p1).len() == protocol_name(p2).len());
        assert(protocol_name(p1)[0] == protocol_name(p2)[0]);
    }
}

/// The coordinates of an experiment are the ones the selection names, where
/// it names one.
pub open spec fn coordinates_chosen(
    selection: ExperimentSelectionArgs,
    os: Seq<char>,
    test_batch: Seq<char>,
    resources: HardwareResources,
    nic: NicType,
    topology: Seq<char>,
    protocol: RoutingProtocol,
) -> bool {
    &&& selection.os matches Some(s) ==> s@ == os
    &&& selection.test_batch matches Some(s) ==> s@ == test_batch
    &&& selection.resources matches Some(r) ==> r == resources
    &&& selection.nic matches Some(n) ==> n == nic
    &&& selection.topology matches Some(s) ==> s@ == topology
    &&& selection.protocol matches Some(p) ==> p == protocol
}

/// A selection picks an experiment file back up by the directory names it
/// was written under exactly when the experiment's coordinates are the ones
/// the selection names: what `generate` writes for a selection, `run` and
/// `plot` read back for the same selection, and nothing else.
pub proof fn law_selection_reads_back_generated(
    selection: ExperimentSelectionArgs,
    os: Seq<char>,
    test_batch: Seq<char>,
    resources: HardwareResources,
    nic: NicType,
    topology: Seq<char>,
    protocol: RoutingProtocol,
)
    ensures
        experiment_selected(
            selection,
            os,
            test_batch,
            resources_name(resources),
            nic_type_name(nic),
            topology,
            protocol_name(protocol),
        ) <==> coordinates_chosen(selection, os, test_batch, resources, nic, topology, protocol),
{
    lemma_display_names_distinct();
}

/// Parts joined back with a comma between each two.
pub open spec fn join_commas(parts: Seq<Seq<char>>) -> Seq<char>
    decreases parts.len(),
{
    if parts.len() == 0 {
        Seq::empty()
    } else if parts.len() == 1 {
        parts[0]
    } else {
        parts[0] + seq![','] + join_commas(parts.drop_first())
    }
}

/// A name has at least one keyword, and its keywords joined back with
/// commas give the name.
pub proof fn law_keywords_join_back(s: Seq<char>)
    ensures
        split_commas(s).len() >= 1,
        join_commas(split_commas(s)) == s,
    decreases s.len(),
{
    lemma_first_comma(s);
    match first_comma(s) {
        None => {},
        Some(i) => {
            let rest = s.subrange(i + 1, s.len() as int);
            law_keywords_join_back(rest);
            let parts = split_commas(s);
            assert(parts == seq![s.subrange(0, i)] + split_commas(rest));
            assert(parts.drop_first() == split_commas(rest));
            assert(parts[0] == s.subrange(0, i));
            assert(s =~= s.subrange(0, i) + seq![','] + rest);
        },
    }
}

/// The note lines at an adjustment, each preceded by `k` more spaces.
pub open spec fn indented_more(notes: Seq<&str>, adjustment: u32, k: nat) -> Seq<char>
    decreases notes.len(),
{
    if notes.len() == 0 {
        Seq::empty()
    } else {
        let i = notes.len() - 1;
        indented_more(notes.drop_last(), adjustment, k) + spaces(k) + spaces(note_indent(i, notes[i], adjustment) as nat)
            + notes[i]@ + seq!['\n']
    }
}

/// Raising the note adjustment by `k` takes exactly `k` spaces from the
/// front of each note line: the note at the lower adjustment is the note at
/// the higher one with `k` more spaces before each of its lines.
pub proof fn law_adjustment_shifts_lines(notes: Seq<&str>, a: u32, k: u32)
    requires
        a + k <= u32::MAX,
        notes_fit(notes, (a + k) as u32),
    ensures
        notes_fit(notes, a),
        adjusted_note(notes, a) == indented_more(notes, (a + k) as u32, k as nat),
    decreases notes.len(),
{
    let b = (a + k) as u32;
    assert forall|i: int| 0 <= i < notes.len() implies {
        &&& a + i + (#[trigger] notes[i]).spec_bytes().len() <= 196
        &&& note_indent(i, notes[i], a) >= 0
    } by {
        assert(b + i + notes[i].spec_bytes().len() <= 196);
        assert(note_indent(i, notes[i], b) >= 0);
    }
    if notes.len() > 0 {
        let d = notes.drop_last();
        assert forall|i: int| 0 <= i < d.len() implies {
            &&& b + i + (#[trigger] d[i]).spec_bytes().len() <= 196
            &&& note_indent(i, d[i], b) >= 0
        } by {
            assert(d[i] == notes[i]);
            assert(b + i + notes[i].spec_bytes().len() <= 196);
        }
        law_adjustment_shifts_lines(d, a, k);
        let i = notes.len() - 1;
        let x = note_indent(i, notes[i], b);
        assert(x >= 0 && note_indent(i, notes[i], a) == x + k);
        assert(spaces((x + k) as nat) =~= spaces(k as nat) + spaces(x as nat));
        assert(adjusted_note(notes, a) == adjusted_note(d, a) + spaces(note_indent(i, notes[i], a) as nat)
            + notes[i]@ + seq!['\n']);
        assert(adjusted_note(notes, a) =~= indented_more(notes, b, k as nat));
    }
}

} // verus!
