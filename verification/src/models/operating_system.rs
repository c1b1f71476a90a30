use vstd::prelude::*;
use indexmap::IndexMap;
use crate::index_maps::{first_index_of, lemma_first_index_prefix, os_entries, os_map_get_index, os_map_len};
use crate::string_map::str_eq;
use crate::models::nic::NicType;
use crate::models::os_command::DeserializedOsCommandType;

verus! {

/// An operating system routers can run, and how to drive its console.
#[derive(Debug, Clone)]
pub struct OperatingSystem {
    pub input_ready: String,
    pub trigger_sequence: Option<String>,
    pub login: Option<String>,
    pub password: Option<String>,
    pub network_stack: String,
    pub routing_stack: Option<String>,
    pub interface_prefix: InterfacePrefix,
    pub interfaces_start_at: i16,
    pub gap_between_interfaces: u16,
    /// Path of the disk image of the system.
    pub image_path: String,
    pub resources_monitor_commands: Option<Vec<DeserializedOsCommandType>>,
}

/// The prefix of interface names: the same for every NIC model, or one per
/// model.
#[derive(Debug, Clone)]
pub enum InterfacePrefix {
    Simple(String),
    Custom(Vec<(NicType, String)>),
}

/// A NIC model for which a system lists no interface prefix.
#[derive(Debug, Clone, Copy, PartialEq, Eq, Structural)]
pub enum InterfacePrefixError {
    UnknownNicType(NicType),
}

/// Start of the last segment of a path: the position after its last `/`.
pub open spec fn segment_start(p: Seq<char>) -> int
    decreases p.len(),
{
    if p.len() == 0 {
        0
    } else if p.last() == '/' {
        p.len() as int
    } else {
        segment_start(p.drop_last())
    }
}

/// The final component of a path when it is a name, as `Path::file_name`
/// gives it: trailing `/` and `.` components are passed over, a final `..`
/// or a path with no such component (empty, `/`, `.`) has none.
pub open spec fn file_name(p: Seq<char>) -> Option<Seq<char>>
    decreases p.len(),
{
    if p.len() == 0 {
        None
    } else if p.last() == '/' {
        file_name(p.drop_last())
    } else {
        let start = segment_start(p);
        let seg = p.subrange(start, p.len() as int);
        if seg == seq!['.'] {
            if 0 <= start < p.len() {
                file_name(p.subrange(0, start))
            } else {
                None
            }
        } else if seg == seq!['.', '.'] {
            None
        } else {
            Some(seg)
        }
    }
}

proof fn lemma_segment_start(p: Seq<char>)
    ensures
        0 <= segment_start(p) <= p.len(),
        p.len() > 0 && p.last() != '/' ==> segment_start(p) < p.len(),
        forall|k: int| segment_start(p) <= k < p.len() ==> p[k] != '/',
        segment_start(p) > 0 ==> p[segment_start(p) - 1] == '/',
    decreases p.len(),
{
    if p.len() > 0 && p.last() != '/' {
        lemma_segment_start(p.drop_last());
        assert forall|k: int| segment_start(p) <= k < p.len() implies p[k] != '/' by {
            if k < p.len() - 1 {
                assert(p[k] == p.drop_last()[k]);
            }
        }
    }
}

/// Equality of NIC models, as a key equivalence.
pub open spec fn nic_type_eq() -> spec_fn(NicType, NicType) -> bool {
    |a: NicType, b: NicType| a == b
}

/// The prefix of a system's interface names for a NIC model, if it has one.
pub open spec fn prefix_for(prefix: InterfacePrefix, nic_type: NicType) -> Result<String, InterfacePrefixError> {
    match prefix {
        InterfacePrefix::Simple(p) => Ok(p),
        InterfacePrefix::Custom(custom) => match first_index_of(custom@, nic_type_eq(), nic_type) {
            Some(i) => Ok(custom@[i].1),
            None => Err(InterfacePrefixError::UnknownNicType(nic_type)),
        },
    }
}

impl OperatingSystem {
    /// The file name of the system's disk image; the path must end in one.
    pub fn image_name(&self) -> (r: String)
        requires
            file_name(self.image_path@) is Some,
        ensures
            r@ == file_name(self.image_path@)->Some_0,
    {
        let p = self.image_path.as_str();
        let mut end: usize = p.unicode_len();
        assert(p@.subrange(0, end as int) == p@);
        loop
            invariant
                end <= p@.len(),
                p@ == self.image_path@,
                file_name(p@.subrange(0, end as int)) == file_name(self.image_path@),
                file_name(self.image_path@) is Some,
            decreases end,
        {
            let ghost cur = p@.subrange(0, end as int);
            if end == 0 {
                assert(false);
            }
            if p.get_char(end - 1) == '/' {
                assert(cur.drop_last() == p@.subrange(0, end - 1));
                end = end - 1;
            } else {
                let mut start: usize = end;
                while start > 0 && p.get_char(start - 1) != '/'
                    invariant
                        start <= end,
                        end <= p@.len(),
                        cur == p@.subrange(0, end as int),
                        segment_start(cur) == segment_start(p@.subrange(0, start as int)),
                    decreases start,
                {
                    assert(p@.subrange(0, start as int).drop_last() == p@.subrange(0, start - 1));
                    start = start - 1;
                }
                proof {
                    if start > 0 {
                        assert(p@.subrange(0, start as int).last() == '/');
                    }
                    assert(segment_start(p@.subrange(0, start as int)) == start);
                }
                let seg = p.substring_char(start, end);
                assert(seg@ == cur.subrange(start as int, end as int));
                let seg_len = end - start;
                if seg_len == 1 && seg.get_char(0) == '.' {
                    assert(seg@ == seq!['.']);
                    assert(cur.subrange(0, start as int) == p@.subrange(0, start as int));
                    end = start;
                } else {
                    if seg_len == 2 && seg.get_char(0) == '.' && seg.get_char(1) == '.' {
                        assert(seg@ == seq!['.', '.']);
                        assert(false);
                    }
                    proof {
                        if seg_len == 1 {
                            assert(seg@ != seq!['.']);
                        }
                        if seg_len == 2 {
                            assert(seg@ != seq!['.', '.']);
                        }
                    }
                    return String::from_str(seg);
                }
            }
        }
    }

    /// The prefix of the system's interface names for a NIC model.
    pub fn interface_prefix(&self, nic_type: &NicType) -> (r: Result<String, InterfacePrefixError>)
        ensures
            r == prefix_for(self.interface_prefix, *nic_type),
    {
        match &self.interface_prefix {
            InterfacePrefix::Simple(prefix) => Ok(prefix.clone()),
            InterfacePrefix::Custom(custom) => {
                let mut i: usize = 0;
                while i < custom.len()
                    invariant
                        i <= custom@.len(),
                        self.interface_prefix == InterfacePrefix::Custom(*custom),
                        first_index_of(custom@.subrange(0, i as int), nic_type_eq(), *nic_type) is None,
                    decreases custom@.len() - i,
                {
                    assert(custom@.subrange(0, i + 1).drop_last() == custom@.subrange(0, i as int));
                    if custom[i].0 == *nic_type {
                        proof {
                            lemma_first_index_prefix(custom@, nic_type_eq(), *nic_type, i as int);
                        }
                        let r = custom[i].1.clone();
                        return Ok(r);
                    }
                    i = i + 1;
                }
                assert(custom@.subrange(0, i as int) == custom@);
                Err(InterfacePrefixError::UnknownNicType(*nic_type))
            }
        }
    }
}

/// The gap between the numbers of consecutive interfaces when a system does
/// not say otherwise.
pub fn gap_between_interfaces() -> (r: u16)
    ensures
        r == 1,
{
    1
}

/// A system of the list names a stack the stack lists do not have.
#[derive(Debug, Clone)]
pub enum OsListError {
    /// The network stack of the system is not listed.
    UnknownNetworkStack { os: String, stack: String },
    /// The routing stack of the system is not listed.
    UnknownRoutingStack { os: String, stack: String },
}

/// Some name of the list is `name`.
pub open spec fn names_contain(names: Seq<String>, name: String) -> bool {
    exists|i: int| 0 <= i < names.len() && (#[trigger] names[i])@ == name@
}

/// The error of the first system, in order, whose network stack, or else
/// whose routing stack, is not listed.
pub open spec fn first_stack_error(
    entries: Seq<(String, OperatingSystem)>,
    network_stacks: Seq<String>,
    routing_stacks: Seq<String>,
) -> Option<OsListError>
    decreases entries.len(),
{
    if entries.len() == 0 {
        None
    } else {
        match first_stack_error(entries.drop_last(), network_stacks, routing_stacks) {
            Some(e) => Some(e),
            None => {
                let (name, os) = entries.last();
                if !names_contain(network_stacks, os.network_stack) {
                    Some(OsListError::UnknownNetworkStack { os: name, stack: os.network_stack })
                } else {
                    match os.routing_stack {
                        Some(r) => if !names_contain(routing_stacks, r) {
                            Some(OsListError::UnknownRoutingStack { os: name, stack: r })
                        } else {
                            None
                        },
                        None => None,
                    }
                }
            },
        }
    }
}

fn contains_name(names: &Vec<String>, name: &String) -> (r: bool)
    ensures
        r == names_contain(names@, *name),
{
    let mut i: usize = 0;
    while i < names.len()
        invariant
            i <= names@.len(),
            forall|j: int| 0 <= j < i ==> (#[trigger] names@[j])@ != name@,
        decreases names@.len() - i,
    {
        if str_eq(names[i].as_str(), name.as_str()) {
            return true;
        }
        i = i + 1;
    }
    false
}

proof fn lemma_stack_error_prefix(
    entries: Seq<(String, OperatingSystem)>,
    network_stacks: Seq<String>,
    routing_stacks: Seq<String>,
    i: int,
)
    requires
        0 <= i <= entries.len(),
        first_stack_error(entries.subrange(0, i), network_stacks, routing_stacks) is Some,
    ensures
        first_stack_error(entries, network_stacks, routing_stacks)
            == first_stack_error(entries.subrange(0, i), network_stacks, routing_stacks),
    decreases entries.len() - i,
{
    if i < entries.len() {
        assert(entries.subrange(0, i + 1).drop_last() == entries.subrange(0, i));
        lemma_stack_error_prefix(entries, network_stacks, routing_stacks, i + 1);
    } else {
        assert(entries.subrange(0, i) == entries);
    }
}

/// Every system of the list names listed stacks: its network stack among
/// `network_stacks`, its routing stack, when it has one, among
/// `routing_stacks`.
pub fn check_os_stacks(
    os_list: &IndexMap<String, OperatingSystem>,
    network_stacks: &Vec<String>,
    routing_stacks: &Vec<String>,
) -> (r: Result<(), OsListError>)
    ensures
        match first_stack_error(os_entries(*os_list), network_stacks@, routing_stacks@) {
            Some(e) => r == Err::<(), OsListError>(e),
            None => r is Ok,
        },
{
    let ghost s = os_entries(*os_list);
    let n = os_map_len(os_list);
    let mut i: usize = 0;
    while i < n
        invariant
            i <= n,
            n == s.len(),
            s == os_entries(*os_list),
            first_stack_error(s.subrange(0, i as int), network_stacks@, routing_stacks@) is None,
        decreases n - i,
    {
        assert(s.subrange(0, i + 1).drop_last() == s.subrange(0, i as int));
        assert(s.subrange(0, i + 1).last() == s[i as int]);
        if let Some((name, os)) = os_map_get_index(os_list, i) {
            if !contains_name(network_stacks, &os.network_stack) {
                proof {
                    lemma_stack_error_prefix(s, network_stacks@, routing_stacks@, i + 1);
                }
                return Err(OsListError::UnknownNetworkStack { os: name.clone(), stack: os.network_stack.clone() });
            }
            if let Some(stack) = &os.routing_stack {
                if !contains_name(routing_stacks, stack) {
                    proof {
                        lemma_stack_error_prefix(s, network_stacks@, routing_stacks@, i + 1);
                    }
                    return Err(OsListError::UnknownRoutingStack { os: name.clone(), stack: stack.clone() });
                }
            }
        }
        i = i + 1;
    }
    assert(s.subrange(0, i as int) == s);
    Ok(())
}

} // verus!
