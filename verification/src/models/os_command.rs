use vstd::prelude::*;
use crate::models::network_stack::NetworkStack;
use crate::models::nic::NicType;
use crate::models::nodes::router::Router;
use crate::models::operating_system::{InterfacePrefixError, OperatingSystem, prefix_for};
use crate::models::protocol::{RoutingProtocol, protocol_name};
use crate::models::routing_stack::RoutingStack;
use crate::string_map::StringMap;
use crate::text::{decimal, i64_to_string, owned, push_char, push_str, signed_decimal, u64_to_string};

verus! {

/// A step of a console dialogue: wait for `expect`, then send.
#[derive(Debug, Clone)]
pub struct OsCommand {
    pub expect: String,
    pub send: SendType,
    pub can_fail: bool,
}

/// What a step sends to the console.
#[derive(Debug, Clone)]
pub enum SendType {
    NewLine,
    Text(String, bool),
    Ctrl(char),
    Wait(u64),
}

impl Default for SendType {
    fn default() -> (r: SendType)
        ensures
            r is NewLine,
    {
        SendType::NewLine
    }
}

/// A console command as written in the stack files: a bare text, or a full
/// description.
#[derive(Debug, Clone)]
pub enum DeserializedOsCommandType {
    Simple(String),
    Other(DeserializedOsCommand),
}

#[derive(Debug, Clone)]
pub struct DeserializedOsCommand {
    pub expect: Option<String>,
    pub send: DeserializedSendType,
    pub can_fail: bool,
    /// Conditions on the context: the command applies only where each named
    /// context value, when the context has it, equals the given one.
    pub assert_true: Vec<(String, String)>,
}

#[derive(Debug, Clone)]
pub enum DeserializedSendType {
    Text { send: String },
    Ctrl { control: char },
    Wait { wait: u64 },
}

impl OsCommand {
    /// Wait for `expect`, then type `send` (and a new line when asked).
    pub fn new_text(expect: &str, send: &str, new_line: bool, can_fail: bool) -> (r: OsCommand)
        ensures
            r.expect@ == expect@,
            r.send matches SendType::Text(text, nl) && text@ == send@ && nl == new_line,
            r.can_fail == can_fail,
    {
        OsCommand { expect: owned(expect), send: SendType::Text(owned(send), new_line), can_fail }
    }

    /// Wait for `expect`, then send a control character.
    pub fn new_control(expect: &str, send: char, can_fail: bool) -> (r: OsCommand)
        ensures
            r.expect@ == expect@,
            r.send == SendType::Ctrl(send),
            r.can_fail == can_fail,
    {
        OsCommand { expect: owned(expect), send: SendType::Ctrl(send), can_fail }
    }

    /// Wait for `expect`, then send a new line; this step must succeed.
    pub fn new_line(expect: &str) -> (r: OsCommand)
        ensures
            r.expect@ == expect@,
            r.send is NewLine,
            !r.can_fail,
    {
        OsCommand { expect: owned(expect), send: SendType::NewLine, can_fail: false }
    }
}

/// How a step is shown in logs.
pub open spec fn send_type_text(s: SendType) -> Seq<char> {
    match s {
        SendType::Text(text, _) => text@,
        SendType::Ctrl(c) => "Ctrl-"@.push(c),
        SendType::NewLine => Seq::empty(),
        SendType::Wait(time) => "Wait "@ + decimal(time as nat) + " ms"@,
    }
}

impl SendType {
    /// How the step is shown in logs.
    pub fn to_display_string(&self) -> (r: String)
        ensures
            r@ == send_type_text(*self),
    {
        match self {
            SendType::Text(text, _) => text.clone(),
            SendType::Ctrl(c) => {
                let mut s = owned("Ctrl-");
                push_char(&mut s, *c);
                s
            },
            SendType::NewLine => String::new(),
            SendType::Wait(time) => {
                let mut s = owned("Wait ");
                let t = u64_to_string(*time);
                push_str(&mut s, t.as_str());
                push_str(&mut s, " ms");
                s
            },
        }
    }
}

/// What a command template is turned into a command for: a router, its
/// operating system and stacks, its identifier and its routing
/// configuration.
pub struct CommandContext<'a> {
    pub router_name: &'a str,
    pub router: &'a Router,
    pub os: &'a OperatingSystem,
    pub network_stack: Option<&'a NetworkStack>,
    pub routing_stack: Option<&'a RoutingStack>,
    pub router_id: &'a str,
    pub routing_protocol: RoutingProtocol,
}

/// The values a context gives, by name.
pub open spec fn context_values(c: CommandContext<'_>) -> Map<Seq<char>, Seq<char>> {
    let m = Map::<Seq<char>, Seq<char>>::empty()
        .insert("OS"@, c.router.os_name@)
        .insert("INPUT_READY"@, c.os.input_ready@);
    let m = match c.os.trigger_sequence {
        Some(t) => m.insert("TRIGGER_SEQUENCE"@, t@),
        None => m,
    };
    let m = match c.os.login {
        Some(l) => m.insert("LOGIN"@, l@),
        None => m,
    };
    let m = match c.os.password {
        Some(p) => m.insert("PASSWORD"@, p@),
        None => m,
    };
    let m = m.insert("NETWORK_STACK"@, c.os.network_stack@);
    let m = match c.os.routing_stack {
        Some(r) => m.insert("ROUTING_STACK"@, r@),
        None => m,
    };
    m.insert("INTERFACES_START_AT"@, signed_decimal(c.os.interfaces_start_at as int))
        .insert("GAP_BETWEEN_INTERFACES"@, decimal(c.os.gap_between_interfaces as nat))
        .insert("IMAGE_PATH"@, c.os.image_path@)
        .insert("ROUTER_ID"@, c.router_id@)
        .insert("ROUTING_PROTOCOL"@, protocol_name(c.routing_protocol))
}

/// A name between braces, as templates write it.
pub open spec fn braced(k: Seq<char>) -> Seq<char> {
    seq!['{'] + k + seq!['}']
}

/// The same values, under their names between braces.
pub open spec fn braced_keys(m: Map<Seq<char>, Seq<char>>) -> Map<Seq<char>, Seq<char>> {
    Map::new(
        |k: Seq<char>| k.len() >= 2 && k[0] == '{' && k.last() == '}' && m.dom().contains(k.subrange(1, k.len() - 1)),
        |k: Seq<char>| m[k.subrange(1, k.len() - 1)],
    )
}

proof fn lemma_braced_keys_insert(m: Map<Seq<char>, Seq<char>>, k: Seq<char>, v: Seq<char>)
    ensures
        braced_keys(m.insert(k, v)) == braced_keys(m).insert(braced(k), v),
{
    let b = braced(k);
    assert(b.subrange(1, b.len() - 1) =~= k);
    assert forall|x: Seq<char>| #[trigger] braced_keys(m.insert(k, v)).dom().contains(x)
        <==> braced_keys(m).insert(b, v).dom().contains(x) by {
        if x.len() >= 2 && x[0] == '{' && x.last() == '}' && x.subrange(1, x.len() - 1) == k {
            assert(x =~= b);
        }
    }
    assert forall|x: Seq<char>| #[trigger] braced_keys(m.insert(k, v)).dom().contains(x)
        implies braced_keys(m.insert(k, v))[x] == braced_keys(m).insert(b, v)[x] by {
        if x.subrange(1, x.len() - 1) == k {
            assert(x =~= b);
        }
    }
    assert(braced_keys(m.insert(k, v)) =~= braced_keys(m).insert(b, v));
}

fn braced_string(k: &String) -> (r: String)
    ensures
        r@ == braced(k@),
{
    let mut s = String::new();
    push_char(&mut s, '{');
    push_str(&mut s, k.as_str());
    push_char(&mut s, '}');
    s
}

/// The position of the first closing brace.
pub open spec fn first_close(s: Seq<char>) -> Option<int>
    decreases s.len(),
{
    if s.len() == 0 {
        None
    } else if s[0] == '}' {
        Some(0)
    } else {
        match first_close(s.drop_first()) {
            Some(j) => Some(j + 1),
            None => None,
        }
    }
}

/// The first closing brace is one, and none comes before it.
pub proof fn lemma_first_close(s: Seq<char>)
    ensures
        first_close(s) matches Some(j) ==> 0 <= j < s.len() && s[j] == '}' && forall|k: int| 0 <= k < j ==> s[k] != '}',
        first_close(s) is None ==> forall|k: int| 0 <= k < s.len() ==> s[k] != '}',
    decreases s.len(),
{
    if s.len() > 0 && s[0] != '}' {
        lemma_first_close(s.drop_first());
        assert forall|k: int| 1 <= k < s.len() implies s[k] == s.drop_first()[k - 1] by {}
    }
}

/// The text of a template once each brace-enclosed name the map has is
/// replaced by its value, left to right; other text is kept.
pub open spec fn substitute(s: Seq<char>, m: Map<Seq<char>, Seq<char>>) -> Seq<char>
    decreases s.len(),
{
    if s.len() == 0 {
        Seq::empty()
    } else if s[0] == '{' && first_close(s) is Some && m.dom().contains(s.subrange(0, first_close(s)->Some_0 + 1)) {
        proof {
            lemma_first_close(s);
        }
        let j = first_close(s)->Some_0;
        m[s.subrange(0, j + 1)] + substitute(s.subrange(j + 1, s.len() as int), m)
    } else {
        seq![s[0]] + substitute(s.drop_first(), m)
    }
}

/// Replaces in a template each `{NAME}` that the map has by its value.
pub fn format_command(command: &str, to_replace: &StringMap) -> (r: String)
    ensures
        r@ == substitute(command@, to_replace@),
{
    let n = command.unicode_len();
    let ghost s = command@;
    let mut out = String::new();
    let mut i: usize = 0;
    assert(s.subrange(0, n as int) == s);
    while i < n
        invariant
            i <= n,
            n == s.len(),
            s == command@,
            out@ + substitute(s.subrange(i as int, n as int), to_replace@) == substitute(s, to_replace@),
        decreases n - i,
    {
        let ghost t = s.subrange(i as int, n as int);
        let c = command.get_char(i);
        assert(t[0] == c);
        if c == '{' {
            let mut j: usize = i;
            while j < n && command.get_char(j) != '}'
                invariant
                    i <= j <= n,
                    n == s.len(),
                    s == command@,
                    forall|k: int| i <= k < j ==> s[k] != '}',
                decreases n - j,
            {
                j = j + 1;
            }
            proof {
                lemma_first_close(t);
                if j < n {
                    if let Some(jj) = first_close(t) {
                        assert(t[j - i] == '}');
                        assert(jj == j - i);
                    } else {
                        assert(t[j - i] == '}');
                    }
                } else {
                    if let Some(jj) = first_close(t) {
                        assert(t[jj] == s[i + jj]);
                    }
                }
            }
            if j < n {
                let key = command.substring_char(i, j + 1);
                assert(key@ == t.subrange(0, (j - i) + 1));
                match to_replace.get(key) {
                    Some(v) => {
                        let ghost before = out@;
                        push_str(&mut out, v.as_str());
                        assert(t.subrange((j - i) + 1, t.len() as int) == s.subrange(j + 1, n as int));
                        assert(out@ + substitute(s.subrange(j + 1, n as int), to_replace@)
                            == before + substitute(t, to_replace@));
                        i = j + 1;
                        continue;
                    },
                    None => {},
                }
            }
        }
        let ghost before = out@;
        push_char(&mut out, c);
        assert(t.drop_first() == s.subrange(i + 1, n as int));
        assert(out@ + substitute(s.subrange(i + 1, n as int), to_replace@) == before + substitute(t, to_replace@));
        i = i + 1;
    }
    assert(s.subrange(n as int, n as int).len() == 0);
    out
}

impl CommandContext<'_> {
    /// The values the context gives, by name.
    pub fn to_key_value(&self) -> (r: StringMap)
        ensures
            r@ == context_values(*self),
    {
        let mut map = StringMap::new();
        map.insert(owned("OS"), self.router.os_name.clone());
        map.insert(owned("INPUT_READY"), self.os.input_ready.clone());
        if let Some(trigger_sequence) = &self.os.trigger_sequence {
            map.insert(owned("TRIGGER_SEQUENCE"), trigger_sequence.clone());
        }
        if let Some(login) = &self.os.login {
            map.insert(owned("LOGIN"), login.clone());
        }
        if let Some(password) = &self.os.password {
            map.insert(owned("PASSWORD"), password.clone());
        }
        map.insert(owned("NETWORK_STACK"), self.os.network_stack.clone());
        if let Some(routing_stack) = &self.os.routing_stack {
            map.insert(owned("ROUTING_STACK"), routing_stack.clone());
        }
        map.insert(owned("INTERFACES_START_AT"), i64_to_string(self.os.interfaces_start_at as i64));
        map.insert(owned("GAP_BETWEEN_INTERFACES"), u64_to_string(self.os.gap_between_interfaces as u64));
        map.insert(owned("IMAGE_PATH"), self.os.image_path.clone());
        map.insert(owned("ROUTER_ID"), owned(self.router_id));
        map.insert(owned("ROUTING_PROTOCOL"), self.routing_protocol.to_display_string());
        map
    }

    /// The values of the context under their names between braces, with the
    /// interface prefix of the NIC model when one is given.
    pub fn to_replace_map(&self, nic_type: Option<&NicType>) -> (r: Result<StringMap, InterfacePrefixError>)
        ensures
            match nic_type {
                None => r matches Ok(m) && m@ == braced_keys(context_values(*self)),
                Some(t) => match prefix_for(self.os.interface_prefix, *t) {
                    Ok(p) => r matches Ok(m) && m@ == braced_keys(context_values(*self)).insert("{INTERFACE_PREFIX}"@, p@),
                    Err(e) => r == Err::<StringMap, InterfacePrefixError>(e),
                },
            },
    {
        let old_map = self.to_key_value();
        let pairs = old_map.into_pairs();
        let mut map = StringMap::new();
        let mut i: usize = 0;
        assert(braced_keys(crate::string_map::entries_map(pairs@.subrange(0, 0))) =~= Map::empty());
        while i < pairs.len()
            invariant
                i <= pairs@.len(),
                map@ == braced_keys(crate::string_map::entries_map(pairs@.subrange(0, i as int))),
            decreases pairs@.len() - i,
        {
            let key = braced_string(&pairs[i].0);
            proof {
                assert(pairs@.subrange(0, i + 1).drop_last() == pairs@.subrange(0, i as int));
                lemma_braced_keys_insert(crate::string_map::entries_map(pairs@.subrange(0, i as int)), pairs@[i as int].0@, pairs@[i as int].1@);
            }
            map.insert(key, pairs[i].1.clone());
            i = i + 1;
        }
        assert(pairs@.subrange(0, i as int) == pairs@);
        if let Some(nic_type) = nic_type {
            let prefix = match self.os.interface_prefix(nic_type) {
                Ok(p) => p,
                Err(e) => {
                    return Err(e);
                },
            };
            map.insert(owned("{INTERFACE_PREFIX}"), prefix);
        }
        Ok(map)
    }
}

/// Each condition of a command whose name the context has holds its value.
pub open spec fn assertions_hold(assert_true: Seq<(String, String)>, values: Map<Seq<char>, Seq<char>>) -> bool {
    forall|i: int| 0 <= i < assert_true.len() && values.dom().contains((#[trigger] assert_true[i]).0@)
        ==> values[assert_true[i].0@] == assert_true[i].1@
}

/// A template text after replacement, when a map is given.
pub open spec fn replaced(text: Seq<char>, to_replace: Option<&StringMap>) -> Seq<char> {
    match to_replace {
        None => text,
        Some(m) => substitute(text, m@),
    }
}

/// `c` is the command a template stands for in a context: a bare text is
/// typed with a new line once the system is ready; a full description
/// applies only where its conditions hold, and then sends its text (with a
/// new line), control character or wait, once its expected text (or the
/// system's readiness) is seen.
pub open spec fn command_of(t: DeserializedOsCommandType, ctx: CommandContext<'_>, to_replace: Option<&StringMap>, c: Option<OsCommand>) -> bool {
    match t {
        DeserializedOsCommandType::Simple(send) => c matches Some(cmd) && {
            &&& cmd.expect@ == ctx.os.input_ready@
            &&& cmd.send matches SendType::Text(text, nl) && text@ == replaced(send@, to_replace) && nl
            &&& !cmd.can_fail
        },
        DeserializedOsCommandType::Other(command) => if !assertions_hold(command.assert_true@, context_values(ctx)) {
            c is None
        } else {
            c matches Some(cmd) && {
                &&& cmd.expect@ == match command.expect {
                    Some(e) => e@,
                    None => ctx.os.input_ready@,
                }
                &&& match command.send {
                    DeserializedSendType::Text { send } => cmd.send matches SendType::Text(text, nl) && text@
                        == replaced(send@, to_replace) && nl,
                    DeserializedSendType::Ctrl { control } => cmd.send == SendType::Ctrl(control),
                    DeserializedSendType::Wait { wait } => cmd.send == SendType::Wait(wait),
                }
                &&& cmd.can_fail == command.can_fail
            }
        },
    }
}

fn replace_text(text: &String, to_replace: Option<&StringMap>) -> (r: String)
    ensures
        r@ == replaced(text@, to_replace),
{
    match to_replace {
        None => text.clone(),
        Some(m) => format_command(text.as_str(), m),
    }
}

impl DeserializedOsCommandType {
    /// The command this template stands for in a context, if it applies.
    #[verifier::loop_isolation(false)]
    pub fn to_os_command(&self, context: &CommandContext, to_replace: Option<&StringMap>) -> (r: Option<OsCommand>)
        ensures
            command_of(*self, *context, to_replace, r),
    {
        match self {
            DeserializedOsCommandType::Simple(send) => {
                let send = replace_text(send, to_replace);
                Some(OsCommand { expect: context.os.input_ready.clone(), send: SendType::Text(send, true), can_fail: false })
            },
            DeserializedOsCommandType::Other(command) => {
                let context_map = context.to_key_value();
                let mut i: usize = 0;
                while i < command.assert_true.len()
                    invariant
                        i <= command.assert_true@.len(),
                        context_map@ == context_values(*context),
                        assertions_hold(command.assert_true@.subrange(0, i as int), context_map@),
                    decreases command.assert_true@.len() - i,
                {
                    let (key, value) = (&command.assert_true[i].0, &command.assert_true[i].1);
                    if let Some(value_to_check) = context_map.get(key.as_str()) {
                        if !crate::string_map::str_eq(value_to_check.as_str(), value.as_str()) {
                            proof {
                                assert(command.assert_true@[i as int].0@ == key@);
                            }
                            return None;
                        }
                    }
                    proof {
                        let p = command.assert_true@.subrange(0, i + 1);
                        assert forall|k: int| 0 <= k < p.len() && context_map@.dom().contains((#[trigger] p[k]).0@)
                            implies context_map@[p[k].0@] == p[k].1@ by {
                            if k < i {
                                assert(p[k] == command.assert_true@.subrange(0, i as int)[k]);
                            }
                        }
                    }
                    i = i + 1;
                }
                assert(command.assert_true@.subrange(0, i as int) == command.assert_true@);
                let send = match &command.send {
                    DeserializedSendType::Text { send } => SendType::Text(replace_text(send, to_replace), true),
                    DeserializedSendType::Ctrl { control } => SendType::Ctrl(*control),
                    DeserializedSendType::Wait { wait } => SendType::Wait(*wait),
                };
                let expect = match &command.expect {
                    Some(expect) => expect.clone(),
                    None => context.os.input_ready.clone(),
                };
                Some(OsCommand { expect, send, can_fail: command.can_fail })
            },
        }
    }
}

} // verus!
