//! Bot capabilities, manifests, events and actions, and the text form in
//! which granted capabilities are stored.

use vstd::prelude::*;
use crate::text::{chars_of, is_ws, trim_start, trim_end, push_char, push_str, seq_equals, trim, trim_bounds};

verus! {

/// Bot capabilities - what a bot is allowed to do
#[derive(Debug, Clone, Copy, PartialEq, Eq, Structural, Hash)]
pub enum BotCapability {
    // Event Listening
    ListenPresence,
    ListenChat,
    ListenChest,
    // Message Emission
    EmitSystem,
    EmitChat,
    // File Operations
    ReadChest,
    WriteChest,
    DeleteChest,
    // Moderation
    RequestKick,
    RequestMute,
    RequestRoleChange,
    // Workspace
    WorkspaceTabs,
    // External Tools
    SpawnExternalTools,
    // Notifications
    Notifications,
    // Scheduling
    ReceiveScheduledTick,
    ScheduleTimers,
    // Commands
    HandleCommands,
    // Chat History
    ReadChatHistory,
    // External Integration
    HttpClient,
    ExternalSignals,
}

/// The name of a capability as its `Debug` form prints it.
pub open spec fn cap_name(c: BotCapability) -> Seq<char> {
    match c {
        BotCapability::ListenPresence => "ListenPresence"@,
        BotCapability::ListenChat => "ListenChat"@,
        BotCapability::ListenChest => "ListenChest"@,
        BotCapability::EmitSystem => "EmitSystem"@,
        BotCapability::EmitChat => "EmitChat"@,
        BotCapability::ReadChest => "ReadChest"@,
        BotCapability::WriteChest => "WriteChest"@,
        BotCapability::DeleteChest => "DeleteChest"@,
        BotCapability::RequestKick => "RequestKick"@,
        BotCapability::RequestMute => "RequestMute"@,
        BotCapability::RequestRoleChange => "RequestRoleChange"@,
        BotCapability::WorkspaceTabs => "WorkspaceTabs"@,
        BotCapability::SpawnExternalTools => "SpawnExternalTools"@,
        BotCapability::Notifications => "Notifications"@,
        BotCapability::ReceiveScheduledTick => "ReceiveScheduledTick"@,
        BotCapability::ScheduleTimers => "ScheduleTimers"@,
        BotCapability::HandleCommands => "HandleCommands"@,
        BotCapability::ReadChatHistory => "ReadChatHistory"@,
        BotCapability::HttpClient => "HttpClient"@,
        BotCapability::ExternalSignals => "ExternalSignals"@,
    }
}

/// The capability with the given name, if any.
pub open spec fn cap_of_name(n: Seq<char>) -> Option<BotCapability> {
    if n == "ListenPresence"@ {
        Some(BotCapability::ListenPresence)
    } else if n == "ListenChat"@ {
        Some(BotCapability::ListenChat)
    } else if n == "ListenChest"@ {
        Some(BotCapability::ListenChest)
    } else if n == "EmitSystem"@ {
        Some(BotCapability::EmitSystem)
    } else if n == "EmitChat"@ {
        Some(BotCapability::EmitChat)
    } else if n == "ReadChest"@ {
        Some(BotCapability::ReadChest)
    } else if n == "WriteChest"@ {
        Some(BotCapability::WriteChest)
    } else if n == "DeleteChest"@ {
        Some(BotCapability::DeleteChest)
    } else if n == "RequestKick"@ {
        Some(BotCapability::RequestKick)
    } else if n == "RequestMute"@ {
        Some(BotCapability::RequestMute)
    } else if n == "RequestRoleChange"@ {
        Some(BotCapability::RequestRoleChange)
    } else if n == "WorkspaceTabs"@ {
        Some(BotCapability::WorkspaceTabs)
    } else if n == "SpawnExternalTools"@ {
        Some(BotCapability::SpawnExternalTools)
    } else if n == "Notifications"@ {
        Some(BotCapability::Notifications)
    } else if n == "ReceiveScheduledTick"@ {
        Some(BotCapability::ReceiveScheduledTick)
    } else if n == "ScheduleTimers"@ {
        Some(BotCapability::ScheduleTimers)
    } else if n == "HandleCommands"@ {
        Some(BotCapability::HandleCommands)
    } else if n == "ReadChatHistory"@ {
        Some(BotCapability::ReadChatHistory)
    } else if n == "HttpClient"@ {
        Some(BotCapability::HttpClient)
    } else if n == "ExternalSignals"@ {
        Some(BotCapability::ExternalSignals)
    } else {
        None
    }
}

impl BotCapability {
    /// The name of the capability, as stored and as `Debug` prints it.
    pub fn name(&self) -> (s: &'static str)
        ensures
            s@ == cap_name(*self),
    {
        match self {
            BotCapability::ListenPresence => "ListenPresence",
            BotCapability::ListenChat => "ListenChat",
            BotCapability::ListenChest => "ListenChest",
            BotCapability::EmitSystem => "EmitSystem",
            BotCapability::EmitChat => "EmitChat",
            BotCapability::ReadChest => "ReadChest",
            BotCapability::WriteChest => "WriteChest",
            BotCapability::DeleteChest => "DeleteChest",
            BotCapability::RequestKick => "RequestKick",
            BotCapability::RequestMute => "RequestMute",
            BotCapability::RequestRoleChange => "RequestRoleChange",
            BotCapability::WorkspaceTabs => "WorkspaceTabs",
            BotCapability::SpawnExternalTools => "SpawnExternalTools",
            BotCapability::Notifications => "Notifications",
            BotCapability::ReceiveScheduledTick => "ReceiveScheduledTick",
            BotCapability::ScheduleTimers => "ScheduleTimers",
            BotCapability::HandleCommands => "HandleCommands",
            BotCapability::ReadChatHistory => "ReadChatHistory",
            BotCapability::HttpClient => "HttpClient",
            BotCapability::ExternalSignals => "ExternalSignals",
        }
    }
}

/// The capability whose name is exactly `n`.
fn cap_from_name(n: &[char]) -> (r: Option<BotCapability>)
    ensures
        r == cap_of_name(n@),
{
    if seq_equals(n, &chars_of("ListenPresence")) {
        Some(BotCapability::ListenPresence)
    } else if seq_equals(n, &chars_of("ListenChat")) {
        Some(BotCapability::ListenChat)
    } else if seq_equals(n, &chars_of("ListenChest")) {
        Some(BotCapability::ListenChest)
    } else if seq_equals(n, &chars_of("EmitSystem")) {
        Some(BotCapability::EmitSystem)
    } else if seq_equals(n, &chars_of("EmitChat")) {
        Some(BotCapability::EmitChat)
    } else if seq_equals(n, &chars_of("ReadChest")) {
        Some(BotCapability::ReadChest)
    } else if seq_equals(n, &chars_of("WriteChest")) {
        Some(BotCapability::WriteChest)
    } else if seq_equals(n, &chars_of("DeleteChest")) {
        Some(BotCapability::DeleteChest)
    } else if seq_equals(n, &chars_of("RequestKick")) {
        Some(BotCapability::RequestKick)
    } else if seq_equals(n, &chars_of("RequestMute")) {
        Some(BotCapability::RequestMute)
    } else if seq_equals(n, &chars_of("RequestRoleChange")) {
        Some(BotCapability::RequestRoleChange)
    } else if seq_equals(n, &chars_of("WorkspaceTabs")) {
        Some(BotCapability::WorkspaceTabs)
    } else if seq_equals(n, &chars_of("SpawnExternalTools")) {
        Some(BotCapability::SpawnExternalTools)
    } else if seq_equals(n, &chars_of("Notifications")) {
        Some(BotCapability::Notifications)
    } else if seq_equals(n, &chars_of("ReceiveScheduledTick")) {
        Some(BotCapability::ReceiveScheduledTick)
    } else if seq_equals(n, &chars_of("ScheduleTimers")) {
        Some(BotCapability::ScheduleTimers)
    } else if seq_equals(n, &chars_of("HandleCommands")) {
        Some(BotCapability::HandleCommands)
    } else if seq_equals(n, &chars_of("ReadChatHistory")) {
        Some(BotCapability::ReadChatHistory)
    } else if seq_equals(n, &chars_of("HttpClient")) {
        Some(BotCapability::HttpClient)
    } else if seq_equals(n, &chars_of("ExternalSignals")) {
        Some(BotCapability::ExternalSignals)
    } else {
        None
    }
}

// ---------------------------------------------------------------------------
// Stored form: names joined by commas

/// Names joined with `sep` between them.
pub open spec fn join_with(parts: Seq<Seq<char>>, sep: char) -> Seq<char>
    decreases parts.len(),
{
    if parts.len() == 0 {
        Seq::empty()
    } else if parts.len() == 1 {
        parts[0]
    } else {
        join_with(parts.drop_last(), sep).push(sep) + parts.last()
    }
}

/// What `str::split(sep)` yields: the pieces between separators, empty ones included.
pub open spec fn split_on(s: Seq<char>, sep: char) -> Seq<Seq<char>>
    decreases s.len(),
{
    if s.len() == 0 {
        seq![Seq::empty()]
    } else if s.last() == sep {
        split_on(s.drop_last(), sep).push(Seq::empty())
    } else {
        let p = split_on(s.drop_last(), sep);
        p.update(p.len() - 1, p.last().push(s.last()))
    }
}

/// The capabilities named by the pieces (each trimmed), unknown names skipped.
pub open spec fn caps_of_pieces(pieces: Seq<Seq<char>>) -> Seq<BotCapability>
    decreases pieces.len(),
{
    if pieces.len() == 0 {
        Seq::empty()
    } else {
        let rest = caps_of_pieces(pieces.drop_last());
        match cap_of_name(trim(pieces.last())) {
            Some(c) => rest.push(c),
            None => rest,
        }
    }
}

/// The stored text of a capability list, `None` for an empty list.
pub open spec fn spec_serialize_capabilities(caps: Seq<BotCapability>) -> Option<Seq<char>> {
    if caps.len() == 0 {
        None
    } else {
        Some(join_with(caps.map_values(|c: BotCapability| cap_name(c)), ','))
    }
}

/// The capability list read back from stored text.
pub open spec fn spec_deserialize_capabilities(s: Option<Seq<char>>) -> Seq<BotCapability> {
    match s {
        None => Seq::empty(),
        Some(t) => if t.len() == 0 {
            Seq::empty()
        } else {
            caps_of_pieces(split_on(t, ','))
        },
    }
}

proof fn lemma_split_len(s: Seq<char>, sep: char)
    ensures
        split_on(s, sep).len() >= 1,
    decreases s.len(),
{
    if s.len() > 0 {
        lemma_split_len(s.drop_last(), sep);
    }
}


proof fn lemma_split_append_plain(a: Seq<char>, y: Seq<char>, sep: char)
    requires
        forall|k: int| 0 <= k < y.len() ==> y[k] != sep,
    ensures
        split_on(a + y, sep) == split_on(a, sep).update(
            split_on(a, sep).len() - 1,
            split_on(a, sep).last() + y,
        ),
    decreases y.len(),
{
    lemma_split_len(a, sep);
    if y.len() == 0 {
        assert(a + y =~= a);
        let p = split_on(a, sep);
        assert(p.last() + y =~= p.last());
        assert(p.update(p.len() - 1, p.last()) =~= p);
    } else {
        let y0 = y.drop_last();
        lemma_split_append_plain(a, y0, sep);
        assert((a + y).drop_last() =~= a + y0);
        assert((a + y).last() == y.last());
        let p = split_on(a, sep);
        let q = split_on(a + y0, sep);
        lemma_split_len(a + y0, sep);
        assert(q.last() == p.last() + y0);
        assert(q.last().push(y.last()) =~= p.last() + y);
        assert(q.update(q.len() - 1, q.last().push(y.last())) =~= p.update(p.len() - 1, p.last() + y));
    }
}

proof fn lemma_split_join(parts: Seq<Seq<char>>, sep: char)
    requires
        parts.len() >= 1,
        forall|i: int, k: int| 0 <= i < parts.len() && 0 <= k < parts[i].len() ==> #[trigger] parts[i][k] != sep,
    ensures
        split_on(join_with(parts, sep), sep) == parts,
    decreases parts.len(),
{
    if parts.len() == 1 {
        let e = Seq::<char>::empty();
        lemma_split_append_plain(e, parts[0], sep);
        assert(e + parts[0] =~= parts[0]);
        assert(split_on(e, sep) == seq![e]);
        assert(seq![e].update(0, e + parts[0]) =~= parts);
    } else {
        let dl = parts.drop_last();
        assert forall|i: int, k: int| 0 <= i < dl.len() && 0 <= k < dl[i].len() implies #[trigger] dl[i][k] != sep by {
            assert(dl[i] == parts[i]);
        }
        lemma_split_join(dl, sep);
        let a = join_with(dl, sep).push(sep);
        assert forall|k: int| 0 <= k < parts.last().len() implies parts.last()[k] != sep by {
            assert(parts[parts.len() - 1][k] != sep);
        }
        lemma_split_append_plain(a, parts.last(), sep);
        assert(a.drop_last() =~= join_with(dl, sep));
        let pa = split_on(a, sep);
        assert(pa == dl.push(Seq::empty()));
        assert(Seq::<char>::empty() + parts.last() =~= parts.last());
        assert(pa.update(pa.len() - 1, pa.last() + parts.last()) =~= parts);
    }
}

/// Facts about each stored capability name: non-empty, no comma, no
/// surrounding whitespace, and it reads back as the same capability.
proof fn lemma_cap_name(c: BotCapability)
    ensures
        cap_name(c).len() > 0,
        forall|k: int| 0 <= k < cap_name(c).len() ==> cap_name(c)[k] != ',',
        trim(cap_name(c)) == cap_name(c),
        cap_of_name(cap_name(c)) == Some(c),
{
        reveal_strlit("ListenPresence");
        reveal_strlit("ListenChat");
        reveal_strlit("ListenChest");
        reveal_strlit("EmitSystem");
        reveal_strlit("EmitChat");
        reveal_strlit("ReadChest");
        reveal_strlit("WriteChest");
        reveal_strlit("DeleteChest");
        reveal_strlit("RequestKick");
        reveal_strlit("RequestMute");
        reveal_strlit("RequestRoleChange");
        reveal_strlit("WorkspaceTabs");
        reveal_strlit("SpawnExternalTools");
        reveal_strlit("Notifications");
        reveal_strlit("ReceiveScheduledTick");
        reveal_strlit("ScheduleTimers");
        reveal_strlit("HandleCommands");
        reveal_strlit("ReadChatHistory");
        reveal_strlit("HttpClient");
        reveal_strlit("ExternalSignals");
    let n = cap_name(c);
    assert(!is_ws(n[0]));
    assert(!is_ws(n.last()));
    assert(trim_start(n) == n);
    assert(trim_end(n) == n);
}

proof fn lemma_caps_of_names(caps: Seq<BotCapability>)
    ensures
        caps_of_pieces(caps.map_values(|c: BotCapability| cap_name(c))) == caps,
    decreases caps.len(),
{
    if caps.len() > 0 {
        let names = caps.map_values(|c: BotCapability| cap_name(c));
        lemma_caps_of_names(caps.drop_last());
        assert(names.drop_last() =~= caps.drop_last().map_values(|c: BotCapability| cap_name(c)));
        lemma_cap_name(caps.last());
        assert(caps.drop_last().push(caps.last()) =~= caps);
    }
}

/// Storing a capability list and reading it back gives the same list, in order.
pub proof fn lemma_capabilities_roundtrip(caps: Seq<BotCapability>)
    ensures
        spec_deserialize_capabilities(spec_serialize_capabilities(caps)) == caps,
{
    if caps.len() > 0 {
        let names = caps.map_values(|c: BotCapability| cap_name(c));
        assert forall|i: int, k: int| 0 <= i < names.len() && 0 <= k < names[i].len() implies #[trigger] names[i][k] != ',' by {
            lemma_cap_name(caps[i]);
        }
        lemma_split_join(names, ',');
        lemma_caps_of_names(caps);
        lemma_cap_name(caps[0]);
        assert(join_with(names, ',').len() > 0) by {
            lemma_join_nonempty(names, ',');
        }
    }
}

proof fn lemma_join_nonempty(parts: Seq<Seq<char>>, sep: char)
    requires
        parts.len() >= 1,
        parts[0].len() > 0,
    ensures
        join_with(parts, sep).len() > 0,
    decreases parts.len(),
{
    if parts.len() > 1 {
        lemma_join_nonempty(parts.drop_last(), sep);
    }
}

/// Serialize capabilities to comma-separated string
pub fn serialize_capabilities(caps: &[BotCapability]) -> (r: Option<String>)
    ensures
        r matches Some(s) ==> Some(s@) == spec_serialize_capabilities(caps@),
        r is None <==> spec_serialize_capabilities(caps@) is None,
{
    if caps.len() == 0 {
        return None;
    }
    let ghost names = caps@.map_values(|c: BotCapability| cap_name(c));
    let mut s = String::new();
    push_str(&mut s, caps[0].name());
    assert(names.subrange(0, 1) =~= seq![names[0]]);
    let mut i: usize = 1;
    while i < caps.len()
        invariant
            1 <= i <= caps.len(),
            names == caps@.map_values(|c: BotCapability| cap_name(c)),
            s@ == join_with(names.subrange(0, i as int), ','),
        decreases caps.len() - i,
    {
        push_char(&mut s, ',');
        push_str(&mut s, caps[i].name());
        assert(names.subrange(0, i + 1).drop_last() =~= names.subrange(0, i as int));
        i = i + 1;
    }
    assert(names.subrange(0, caps@.len() as int) =~= names);
    Some(s)
}

/// Deserialize capabilities from comma-separated string
pub fn deserialize_capabilities(s: &Option<String>) -> (r: Vec<BotCapability>)
    ensures
        r@ == spec_deserialize_capabilities(
            match s {
                Some(t) => Some(t@),
                None => None,
            },
        ),
{
    match s {
        None => Vec::new(),
        Some(t) => {
            let v = chars_of(t.as_str());
            if v.len() == 0 {
                return Vec::new();
            }
            let mut out: Vec<BotCapability> = Vec::new();
            let mut piece: Vec<char> = Vec::new();
            let mut i: usize = 0;
            proof {
                assert(v@.subrange(0, 0) =~= Seq::<char>::empty());
            }
            while i < v.len()
                invariant
                    i <= v.len(),
                    ({
                        let p = split_on(v@.subrange(0, i as int), ',');
                        &&& p.len() >= 1
                        &&& piece@ == p.last()
                        &&& out@ == caps_of_pieces(p.drop_last())
                    }),
                decreases v.len() - i,
            {
                let ghost pre = v@.subrange(0, i as int);
                let ghost p = split_on(pre, ',');
                assert(v@.subrange(0, i + 1).drop_last() =~= pre);
                let c = v[i];
                if c == ',' {
                    let (a, b) = trim_bounds(&piece);
                    let name = crate::text::string_from_range(&piece, a, b);
                    let nv = chars_of(name.as_str());
                    match cap_from_name(&nv) {
                        Some(cap) => out.push(cap),
                        None => {},
                    }
                    piece = Vec::new();
                    proof {
                        let q = split_on(v@.subrange(0, i + 1), ',');
                        assert(q == p.push(Seq::empty()));
                        assert(q.drop_last() =~= p);
                        assert(p =~= p.drop_last().push(p.last()));
                    }
                } else {
                    piece.push(c);
                    proof {
                        let q = split_on(v@.subrange(0, i + 1), ',');
                        assert(q == p.update(p.len() - 1, p.last().push(c)));
                        assert(q.drop_last() =~= p.drop_last());
                    }
                }
                i = i + 1;
            }
            let ghost p = split_on(v@, ',');
            assert(v@.subrange(0, v@.len() as int) =~= v@);
            let (a, b) = trim_bounds(&piece);
            let name = crate::text::string_from_range(&piece, a, b);
            let nv = chars_of(name.as_str());
            match cap_from_name(&nv) {
                Some(cap) => out.push(cap),
                None => {},
            }
            proof {
                assert(p =~= p.drop_last().push(p.last()));
            }
            out
        },
    }
}

} // verus!

verus! {

/// Bot manifest - describes a bot's identity and capabilities
#[derive(Debug, Clone)]
pub struct BotManifest {
    /// Unique identifier for this bot
    pub id: String,
    /// Display name
    pub name: String,
    /// Version string
    pub version: String,
    /// Declared capabilities
    pub capabilities: Vec<BotCapability>,
}

/// Events that bots can receive
#[derive(Debug, Clone)]
pub enum BotEvent {
    /// A member joined the hall; `last_seen_duration` is in whole seconds
    MemberJoined {
        hall_id: u128,
        user_id: u128,
        username: String,
        is_first_time: bool,
        last_seen_duration: Option<u64>,
    },
    /// A member left the hall
    MemberLeft { hall_id: u128, user_id: u128, username: String },
    /// Periodic tick with the local wall-clock time as HHMM
    ScheduledTick { hall_id: u128, current_time_hhmm: u16 },
}

/// The capability a bot needs to receive an event.
pub open spec fn spec_event_capability(e: BotEvent) -> BotCapability {
    match e {
        BotEvent::MemberJoined { .. } => BotCapability::ListenPresence,
        BotEvent::MemberLeft { .. } => BotCapability::ListenPresence,
        BotEvent::ScheduledTick { .. } => BotCapability::ReceiveScheduledTick,
    }
}

impl BotEvent {
    /// Get the capability required to receive this event
    pub fn required_capability(&self) -> (c: BotCapability)
        ensures
            c == spec_event_capability(*self),
    {
        match self {
            BotEvent::MemberJoined { .. } | BotEvent::MemberLeft { .. } => {
                BotCapability::ListenPresence
            },
            BotEvent::ScheduledTick { .. } => BotCapability::ReceiveScheduledTick,
        }
    }
}

/// Actions a bot can emit
#[derive(Debug, Clone)]
pub enum BotAction {
    /// Emit an ephemeral system message
    EmitSystem { hall_id: u128, content: String },
    /// Write a file into the hall chest
    WriteFileToChest { hall_id: u128, path: String, contents: String },
}

/// The capability a bot needs to emit an action.
pub open spec fn spec_action_capability(a: BotAction) -> BotCapability {
    match a {
        BotAction::EmitSystem { .. } => BotCapability::EmitSystem,
        BotAction::WriteFileToChest { .. } => BotCapability::WriteChest,
    }
}

impl BotAction {
    /// Get the capability required to emit this action
    pub fn required_capability(&self) -> (c: BotCapability)
        ensures
            c == spec_action_capability(*self),
    {
        match self {
            BotAction::EmitSystem { .. } => BotCapability::EmitSystem,
            BotAction::WriteFileToChest { .. } => BotCapability::WriteChest,
        }
    }
}

/// Whether a capability list contains `cap`.
pub fn caps_contain(caps: &[BotCapability], cap: BotCapability) -> (b: bool)
    ensures
        b == caps@.contains(cap),
{
    let mut i: usize = 0;
    while i < caps.len()
        invariant
            i <= caps.len(),
            forall|j: int| 0 <= j < i ==> caps@[j] != cap,
        decreases caps.len() - i,
    {
        if caps[i] == cap {
            return true;
        }
        i = i + 1;
    }
    false
}

impl BotManifest {
    /// Check if this bot declares a capability
    pub fn has_capability(&self, cap: BotCapability) -> (b: bool)
        ensures
            b == self.capabilities@.contains(cap),
    {
        caps_contain(&self.capabilities, cap)
    }

    /// Check if this bot should receive an event
    pub fn should_receive(&self, event: &BotEvent) -> (b: bool)
        ensures
            b == self.capabilities@.contains(spec_event_capability(*event)),
    {
        self.has_capability(event.required_capability())
    }

    /// Check if this bot can emit an action
    pub fn can_emit(&self, action: &BotAction) -> (b: bool)
        ensures
            b == self.capabilities@.contains(spec_action_capability(*action)),
    {
        self.has_capability(action.required_capability())
    }
}

/// The actions of a bot that may be carried out: those it has the capability to emit.
pub open spec fn permitted_actions(caps: Seq<BotCapability>, actions: Seq<BotAction>) -> Seq<BotAction> {
    actions.filter(|a: BotAction| caps.contains(spec_action_capability(a)))
}

/// Keeps the actions the manifest allows, in order.
pub fn filter_permitted(manifest: &BotManifest, actions: Vec<BotAction>) -> (r: Vec<BotAction>)
    ensures
        r@ == permitted_actions(manifest.capabilities@, actions@),
{
    let total = actions.len();
    let ghost orig = actions@;
    let ghost pred = |a: BotAction| manifest.capabilities@.contains(spec_action_capability(a));
    let mut rest = actions;
    let mut out: Vec<BotAction> = Vec::new();
    let mut k: usize = 0;
    while rest.len() > 0
        invariant
            k <= orig.len(),
            orig.len() == total,
            rest@ == orig.subrange(k as int, orig.len() as int),
            pred == (|a: BotAction| manifest.capabilities@.contains(spec_action_capability(a))),
            out@ == orig.subrange(0, k as int).filter(pred),
        decreases rest.len(),
    {
        let a = rest.remove(0);
        proof {
            reveal_with_fuel(Seq::<_>::filter, 1);
            assert(orig.subrange(0, k + 1).drop_last() =~= orig.subrange(0, k as int));
            assert(a == orig[k as int]);
        }
        if manifest.can_emit(&a) {
            out.push(a);
        }
        k = k + 1;
        assert(rest@ =~= orig.subrange(k as int, orig.len() as int));
    }
    assert(orig.subrange(0, orig.len() as int) =~= orig);
    out
}

} // verus!
