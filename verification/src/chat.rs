//! The chat timeline: chat and system messages merged in time order and
//! grouped by sender, and the typing throttle.

use vstd::prelude::*;
use crate::time::Timestamp;
use crate::text::{is_prefix, str_equals, str_starts_with, trim, trim_str};

verus! {

/// A stored chat message as the timeline shows it.
#[derive(Debug, Clone)]
pub struct ChatLine {
    pub id: u128,
    pub sender_id: u128,
    pub sender_username: String,
    /// The sender's role, short form ("Builder", "Agent", ...)
    pub sender_role: String,
    pub content: String,
    pub timestamp: Timestamp,
    pub is_edited: bool,
}

/// A system notice (host changes, connection events, bot replies).
#[derive(Debug, Clone)]
pub struct SystemLine {
    pub id: u128,
    pub content: String,
    pub timestamp: Timestamp,
}

/// Combined message for sorting
#[derive(Debug, Clone)]
pub enum CombinedMessage {
    Chat(ChatLine),
    System(SystemLine),
}

/// One row of the timeline.
#[derive(Debug, Clone)]
pub struct TimelineItem {
    pub id: u128,
    pub sender_name: String,
    pub sender_role: String,
    pub content: String,
    pub timestamp: Timestamp,
    pub is_edited: bool,
    /// First of a run of messages by one sender with no gap over five minutes
    pub is_group_start: bool,
    /// Sent by the current host
    pub is_host: bool,
    pub is_system: bool,
    /// Sent by the current user
    pub is_own: bool,
    /// Sent by the current user and not yet acknowledged
    pub is_pending: bool,
}

pub open spec fn msg_time(m: CombinedMessage) -> Timestamp {
    match m {
        CombinedMessage::Chat(c) => c.timestamp,
        CombinedMessage::System(s) => s.timestamp,
    }
}

/// `a` is strictly earlier than `b` (seconds, then nanoseconds, as chrono orders).
pub open spec fn time_before(a: Timestamp, b: Timestamp) -> bool {
    a.secs < b.secs || (a.secs == b.secs && a.nanos < b.nanos)
}

/// Inserts `x` into `s` after every message that is not later than it.
pub open spec fn insert_by_time(s: Seq<CombinedMessage>, x: CombinedMessage) -> Seq<CombinedMessage>
    decreases s.len(),
{
    if s.len() == 0 {
        seq![x]
    } else if time_before(msg_time(x), msg_time(s.last())) {
        insert_by_time(s.drop_last(), x).push(s.last())
    } else {
        s.push(x)
    }
}

/// The messages in time order; messages with equal times keep their order.
pub open spec fn sort_by_time(s: Seq<CombinedMessage>) -> Seq<CombinedMessage>
    decreases s.len(),
{
    if s.len() == 0 {
        s
    } else {
        insert_by_time(sort_by_time(s.drop_last()), s.last())
    }
}

/// Chat messages first, then system messages, each in the given order.
pub open spec fn combined(chats: Seq<ChatLine>, systems: Seq<SystemLine>) -> Seq<CombinedMessage> {
    chats.map_values(|c: ChatLine| CombinedMessage::Chat(c)) + systems.map_values(
        |m: SystemLine| CombinedMessage::System(m),
    )
}

/// More than five minutes pass from `a` to `b`.
pub open spec fn gap_over_five_minutes(a: Timestamp, b: Timestamp) -> bool {
    (b.secs - a.secs) * 1_000_000_000 + b.nanos - a.nanos > 300_000_000_000
}

/// Whether the message at `k` starts a group: system messages always do; a
/// chat message does unless the one before it is a chat message by the same
/// sender at most five minutes earlier.
pub open spec fn group_start(s: Seq<CombinedMessage>, k: int) -> bool {
    match s[k] {
        CombinedMessage::System(_) => true,
        CombinedMessage::Chat(c) => k == 0 || match s[k - 1] {
            CombinedMessage::System(_) => true,
            CombinedMessage::Chat(p) => p.sender_username@ != c.sender_username@
                || gap_over_five_minutes(p.timestamp, c.timestamp),
        },
    }
}

/// `item` is the timeline row for message `k` of `s`.
pub open spec fn timeline_row(
    s: Seq<CombinedMessage>,
    k: int,
    host: Option<Seq<char>>,
    user: Option<u128>,
    pending: Seq<u128>,
    item: TimelineItem,
) -> bool {
    &&& item.is_group_start == group_start(s, k)
    &&& match s[k] {
        CombinedMessage::Chat(c) => {
            &&& item.id == c.id
            &&& item.sender_name@ == c.sender_username@
            &&& item.sender_role@ == c.sender_role@
            &&& item.content@ == c.content@
            &&& item.timestamp == c.timestamp
            &&& item.is_edited == c.is_edited
            &&& item.is_host == (host == Some(c.sender_username@))
            &&& !item.is_system
            &&& item.is_own == (user == Some(c.sender_id))
            &&& item.is_pending == (item.is_own && pending.contains(c.id))
        },
        CombinedMessage::System(m) => {
            &&& item.id == m.id
            &&& item.sender_name@ == Seq::<char>::empty()
            &&& item.sender_role@ == Seq::<char>::empty()
            &&& item.content@ == m.content@
            &&& item.timestamp == m.timestamp
            &&& !item.is_edited
            &&& !item.is_host
            &&& item.is_system
            &&& !item.is_own
            &&& !item.is_pending
        },
    }
}

fn earlier(a: &Timestamp, b: &Timestamp) -> (r: bool)
    ensures
        r == time_before(*a, *b),
{
    a.secs < b.secs || (a.secs == b.secs && a.nanos < b.nanos)
}

fn time_of(m: &CombinedMessage) -> (t: Timestamp)
    ensures
        t == msg_time(*m),
{
    match m {
        CombinedMessage::Chat(c) => c.timestamp,
        CombinedMessage::System(s) => s.timestamp,
    }
}

/// Inserting at the position found by walking back past later messages is
/// what `insert_by_time` does.
proof fn lemma_insert_at(s: Seq<CombinedMessage>, x: CombinedMessage, pos: int)
    requires
        0 <= pos <= s.len(),
        forall|j: int| pos <= j < s.len() ==> time_before(msg_time(x), msg_time(#[trigger] s[j])),
        pos == 0 || !time_before(msg_time(x), msg_time(s[pos - 1])),
    ensures
        insert_by_time(s, x) == s.insert(pos, x),
    decreases s.len(),
{
    if s.len() == 0 {
        assert(s.insert(pos, x) =~= seq![x]);
    } else if pos == s.len() {
        assert(s.insert(pos, x) =~= s.push(x));
    } else {
        assert(time_before(msg_time(x), msg_time(s[s.len() - 1])));
        assert forall|j: int| pos <= j < s.drop_last().len() implies time_before(
            msg_time(x),
            msg_time(#[trigger] s.drop_last()[j]),
        ) by {
            assert(s.drop_last()[j] == s[j]);
        }
        if pos > 0 {
            assert(s.drop_last()[pos - 1] == s[pos - 1]);
        }
        lemma_insert_at(s.drop_last(), x, pos);
        assert(s.drop_last().insert(pos, x).push(s.last()) =~= s.insert(pos, x));
    }
}

/// Puts messages in time order; messages with equal times keep their order.
pub fn sort_messages(items: Vec<CombinedMessage>) -> (r: Vec<CombinedMessage>)
    ensures
        r@ == sort_by_time(items@),
        forall|i: int, j: int|
            0 <= i < j < r.len() ==> !time_before(msg_time(#[trigger] r[j]), msg_time(#[trigger] r[i])),
{
    let ghost orig = items@;
    let total = items.len();
    let mut rest = items;
    let mut out: Vec<CombinedMessage> = Vec::new();
    assert(orig.take(0) =~= Seq::<CombinedMessage>::empty());
    while rest.len() > 0
        invariant
            orig.len() == total,
            rest.len() <= total,
            rest@ == orig.skip(total - rest.len()),
            out@ == sort_by_time(orig.take(total - rest.len())),
            forall|i: int, j: int|
                0 <= i < j < out.len() ==> !time_before(msg_time(#[trigger] out[j]), msg_time(#[trigger] out[i])),
        decreases rest.len(),
    {
        let ghost i = total - rest.len();
        let x = rest.remove(0);
        assert(x == orig[i]);
        assert(rest@ =~= orig.skip(i + 1));
        let xt = time_of(&x);
        let mut pos: usize = out.len();
        while pos > 0 && earlier(&xt, &time_of(&out[pos - 1]))
            invariant
                pos <= out.len(),
                xt == msg_time(x),
                forall|j: int| pos <= j < out.len() ==> time_before(xt, msg_time(#[trigger] out[j])),
            decreases pos,
        {
            pos = pos - 1;
        }
        let ghost before = out@;
        proof {
            lemma_insert_at(before, x, pos as int);
            assert(orig.take(i + 1).drop_last() =~= orig.take(i));
            assert(orig.take(i + 1).last() == x);
        }
        out.insert(pos, x);
        proof {
            assert forall|a: int, b: int| 0 <= a < b < out.len() implies !time_before(
                msg_time(#[trigger] out[b]),
                msg_time(#[trigger] out[a]),
            ) by {
                if a != pos && b != pos {
                    let oa = if a < pos { a } else { a - 1 };
                    let ob = if b < pos { b } else { b - 1 };
                    assert(out[a] == before[oa]);
                    assert(out[b] == before[ob]);
                } else if a == pos {
                    assert(out[b] == before[b - 1]);
                } else {
                    assert(out[a] == before[a]);
                    if pos > 0 && a < pos - 1 {
                        assert(!time_before(msg_time(before[pos - 1]), msg_time(before[a])));
                    }
                }
            }
        }
    }
    assert(orig.take(total as int) =~= orig);
    out
}


/// The view of an optional text.
pub open spec fn opt_text(o: Option<&str>) -> Option<Seq<char>> {
    match o {
        Some(t) => Some(t@),
        None => None,
    }
}

/// Whether `v` holds `x`.
pub fn contains_id(v: &[u128], x: u128) -> (r: bool)
    ensures
        r == v@.contains(x),
{
    let mut i: usize = 0;
    while i < v.len()
        invariant
            i <= v.len(),
            forall|j: int| 0 <= j < i ==> v@[j] != x,
        decreases v.len() - i,
    {
        if v[i] == x {
            assert(v@[i as int] == x);
            return true;
        }
        i = i + 1;
    }
    false
}

fn gap_exceeds(a: &Timestamp, b: &Timestamp) -> (r: bool)
    ensures
        r == gap_over_five_minutes(*a, *b),
{
    let diff: i128 = (b.secs as i128 - a.secs as i128) * 1_000_000_000 + b.nanos as i128 - a.nanos as i128;
    diff > 300_000_000_000
}

/// Chat messages and then system messages, in one list.
fn combine(chats: Vec<ChatLine>, systems: Vec<SystemLine>) -> (r: Vec<CombinedMessage>)
    ensures
        r@ == combined(chats@, systems@),
{
    let ghost c0 = chats@;
    let ghost s0 = systems@;
    let ghost fc = |c: ChatLine| CombinedMessage::Chat(c);
    let ghost fs = |m: SystemLine| CombinedMessage::System(m);
    let nc = chats.len();
    let ns = systems.len();
    let mut out: Vec<CombinedMessage> = Vec::new();
    let mut rest = chats;
    while rest.len() > 0
        invariant
            c0.len() == nc,
            rest.len() <= nc,
            rest@ == c0.skip(nc - rest.len()),
            out@ == c0.take(nc - rest.len()).map_values(fc),
            fc == (|c: ChatLine| CombinedMessage::Chat(c)),
        decreases rest.len(),
    {
        let ghost i = nc - rest.len();
        let c = rest.remove(0);
        assert(c == c0[i]);
        assert(rest@ =~= c0.skip(i + 1));
        out.push(CombinedMessage::Chat(c));
        assert(out@ =~= c0.take(i + 1).map_values(fc));
    }
    let mut rest = systems;
    while rest.len() > 0
        invariant
            c0.len() == nc,
            s0.len() == ns,
            rest.len() <= ns,
            rest@ == s0.skip(ns - rest.len()),
            out@ == c0.map_values(fc) + s0.take(ns - rest.len()).map_values(fs),
            fs == (|m: SystemLine| CombinedMessage::System(m)),
        decreases rest.len(),
    {
        let ghost i = ns - rest.len();
        let m = rest.remove(0);
        assert(m == s0[i]);
        assert(rest@ =~= s0.skip(i + 1));
        out.push(CombinedMessage::System(m));
        assert(out@ =~= c0.map_values(fc) + s0.take(i + 1).map_values(fs));
    }
    assert(c0.take(nc as int) =~= c0);
    assert(s0.take(ns as int) =~= s0);
    out
}

/// The timeline rows for the given chat and system messages: merged in time
/// order (chat before system at equal times), grouped by sender with a
/// five-minute limit, and marked as the host's, own, or pending.
pub fn build_timeline(
    chats: Vec<ChatLine>,
    systems: Vec<SystemLine>,
    current_host: Option<&str>,
    current_user: Option<u128>,
    pending: &[u128],
) -> (r: Vec<TimelineItem>)
    ensures
        r.len() == chats.len() + systems.len(),
        forall|k: int|
            0 <= k < r.len() ==> timeline_row(
                sort_by_time(combined(chats@, systems@)),
                k,
                opt_text(current_host),
                current_user,
                pending@,
                #[trigger] r[k],
            ),
{
    let ghost total = chats.len() + systems.len();
    let all = combine(chats, systems);
    proof {
        lemma_sort_by_time_len(all@);
    }
    let sorted = sort_messages(all);
    let ghost s = sorted@;
    let mut items: Vec<TimelineItem> = Vec::new();
    let mut k: usize = 0;
    while k < sorted.len()
        invariant
            k <= sorted.len(),
            s == sorted@,
            items.len() == k,
            forall|j: int|
                0 <= j < k ==> timeline_row(
                    s,
                    j,
                    opt_text(current_host),
                    current_user,
                    pending@,
                    #[trigger] items[j],
                ),
        decreases sorted.len() - k,
    {
        let group_start = match &sorted[k] {
            CombinedMessage::System(_) => true,
            CombinedMessage::Chat(c) => {
                if k == 0 {
                    true
                } else {
                    match &sorted[k - 1] {
                        CombinedMessage::System(_) => true,
                        CombinedMessage::Chat(p) => !str_equals(
                            p.sender_username.as_str(),
                            c.sender_username.as_str(),
                        ) || gap_exceeds(&p.timestamp, &c.timestamp),
                    }
                }
            },
        };
        let item = match &sorted[k] {
            CombinedMessage::Chat(c) => {
                let is_host = match current_host {
                    Some(h) => str_equals(h, c.sender_username.as_str()),
                    None => false,
                };
                let is_own = match current_user {
                    Some(u) => u == c.sender_id,
                    None => false,
                };
                let is_pending = is_own && contains_id(pending, c.id);
                TimelineItem {
                    id: c.id,
                    sender_name: c.sender_username.clone(),
                    sender_role: c.sender_role.clone(),
                    content: c.content.clone(),
                    timestamp: c.timestamp,
                    is_edited: c.is_edited,
                    is_group_start: group_start,
                    is_host,
                    is_system: false,
                    is_own,
                    is_pending,
                }
            },
            CombinedMessage::System(m) => TimelineItem {
                id: m.id,
                sender_name: String::new(),
                sender_role: String::new(),
                content: m.content.clone(),
                timestamp: m.timestamp,
                is_edited: false,
                is_group_start: true,
                is_host: false,
                is_system: true,
                is_own: false,
                is_pending: false,
            },
        };
        items.push(item);
        proof {
            assert(timeline_row(s, k as int, opt_text(current_host), current_user, pending@, items[k as int]));
            assert forall|j: int| 0 <= j < k + 1 implies timeline_row(
                s,
                j,
                opt_text(current_host),
                current_user,
                pending@,
                #[trigger] items[j],
            ) by {}
        }
        k = k + 1;
    }
    items
}

proof fn lemma_insert_by_time_len(s: Seq<CombinedMessage>, x: CombinedMessage)
    ensures
        insert_by_time(s, x).len() == s.len() + 1,
    decreases s.len(),
{
    if s.len() > 0 {
        lemma_insert_by_time_len(s.drop_last(), x);
    }
}

proof fn lemma_sort_by_time_len(s: Seq<CombinedMessage>)
    ensures
        sort_by_time(s).len() == s.len(),
    decreases s.len(),
{
    if s.len() > 0 {
        lemma_sort_by_time_len(s.drop_last());
        lemma_insert_by_time_len(sort_by_time(s.drop_last()), s.last());
    }
}


// ---------------------------------------------------------------------------
// Composing messages

/// The text to send for what was typed: trimmed, or nothing when blank.
pub fn prepare_outgoing(content: &str) -> (r: Option<String>)
    ensures
        match r {
            Some(t) => t@ == trim(content@) && t@.len() > 0,
            None => trim(content@).len() == 0,
        },
{
    let t = trim_str(content);
    if t.unicode_len() == 0 {
        None
    } else {
        Some(t)
    }
}

/// The chat commands the archivist handles before a text goes out as chat.
pub fn is_archive_command(text: &str) -> (b: bool)
    ensures
        b == (is_prefix("/archive"@, text@) || is_prefix("/set-archive"@, text@)),
{
    str_starts_with(text, "/archive") || str_starts_with(text, "/set-archive")
}

// ---------------------------------------------------------------------------
// Typing throttle

#[verifier::external_type_specification]
#[verifier::external_body]
pub struct ExInstant(std::time::Instant);

/// The current instant of the monotonic clock.
///
/// Trusted: calls `std::time::Instant::now`. The value is the clock's, so
/// nothing is promised of it.
#[verifier::external_body]
fn instant_now() -> (t: std::time::Instant) {
    std::time::Instant::now()
}

/// Nanoseconds elapsed since `origin` on the monotonic clock.
///
/// Trusted: calls `Instant::elapsed` and reads the duration with
/// `as_nanos`. The value depends on the clock, so nothing is promised of it.
#[verifier::external_body]
fn nanos_since(origin: &std::time::Instant) -> (n: u128) {
    origin.elapsed().as_nanos()
}

/// The least time between two typing notices: 600 ms, in nanoseconds.
pub const TYPING_THROTTLE_NANOS: u128 = 600_000_000;

/// A typing notice may go out at `now` after the last one at `last`: always
/// at first, then once at least 600 ms have passed.
pub open spec fn throttle_allows(last: Option<u128>, now: u128) -> bool {
    match last {
        None => true,
        Some(l) => now >= l && now - l >= TYPING_THROTTLE_NANOS,
    }
}

/// Typing throttle state
pub struct TypingThrottle {
    /// The clock's origin for this throttle
    origin: std::time::Instant,
    /// When typing=true was last sent, in nanoseconds after `origin`
    last_sent: Option<u128>,
    /// Whether the stop-typing timeout is armed
    stop_timer_active: bool,
}

impl TypingThrottle {
    /// When typing=true was last sent (nanoseconds after the throttle's origin).
    pub closed spec fn last_sent_at(&self) -> Option<u128> {
        self.last_sent
    }

    /// Whether the stop-typing timeout is armed.
    pub closed spec fn stop_armed(&self) -> bool {
        self.stop_timer_active
    }

    pub fn new() -> (t: Self)
        ensures
            t.last_sent_at() is None,
            !t.stop_armed(),
    {
        TypingThrottle { origin: instant_now(), last_sent: None, stop_timer_active: false }
    }

    /// Check if we should send a typing event now (600 ms throttle).
    pub fn should_send(&mut self) -> (b: bool)
        ensures
            old(self).last_sent_at() is None ==> b,
            b ==> final(self).last_sent_at() is Some,
            !b ==> final(self).last_sent_at() == old(self).last_sent_at(),
            final(self).stop_armed() == old(self).stop_armed(),
    {
        let now = nanos_since(&self.origin);
        self.should_send_at(now)
    }

    /// Check if a typing event may go out at `now` (nanoseconds after the
    /// throttle's origin); if so, `now` becomes the time it was last sent.
    pub fn should_send_at(&mut self, now: u128) -> (b: bool)
        ensures
            b == throttle_allows(old(self).last_sent_at(), now),
            final(self).last_sent_at() == if b {
                Some(now)
            } else {
                old(self).last_sent_at()
            },
            final(self).stop_armed() == old(self).stop_armed(),
    {
        let allowed = match self.last_sent {
            None => true,
            Some(last) => now >= last && now - last >= TYPING_THROTTLE_NANOS,
        };
        if allowed {
            self.last_sent = Some(now);
        }
        allowed
    }

    /// Reset throttle (called when stop-typing is sent)
    pub fn reset(&mut self)
        ensures
            final(self).last_sent_at() is None,
            !final(self).stop_armed(),
    {
        self.last_sent = None;
        self.stop_timer_active = false;
    }
}


/// How timeline rows group: the first row, every system row, and every chat
/// row whose sender differs from the chat row just before it start a group;
/// a chat row by the same sender as the chat row just before it, at most five
/// minutes later, continues that group.
pub proof fn lemma_timeline_grouping(
    s: Seq<CombinedMessage>,
    host: Option<Seq<char>>,
    user: Option<u128>,
    pending: Seq<u128>,
    rows: Seq<TimelineItem>,
    k: int,
)
    requires
        rows.len() == s.len(),
        forall|j: int| 0 <= j < rows.len() ==> timeline_row(s, j, host, user, pending, #[trigger] rows[j]),
        0 <= k < rows.len(),
    ensures
        k == 0 ==> rows[k].is_group_start,
        rows[k].is_system ==> rows[k].is_group_start,
        k > 0 && !rows[k].is_system && rows[k - 1].is_system ==> rows[k].is_group_start,
        k > 0 && !rows[k].is_system && !rows[k - 1].is_system && rows[k - 1].sender_name@
            != rows[k].sender_name@ ==> rows[k].is_group_start,
        k > 0 && !rows[k].is_system && !rows[k - 1].is_system && rows[k - 1].sender_name@
            == rows[k].sender_name@ && (rows[k].timestamp.secs - rows[k - 1].timestamp.secs)
            * 1_000_000_000 + rows[k].timestamp.nanos - rows[k - 1].timestamp.nanos
            <= 300_000_000_000 ==> !rows[k].is_group_start,
{
    assert(timeline_row(s, k, host, user, pending, rows[k]));
    if k > 0 {
        assert(timeline_row(s, k - 1, host, user, pending, rows[k - 1]));
    }
}

/// Typing events go out at most once per throttle interval: after one went
/// out at `t1`, the next is allowed no sooner than 600 ms later.
pub proof fn lemma_throttle_spacing(t1: u128, t2: u128)
    requires
        throttle_allows(Some(t1), t2),
    ensures
        t2 >= t1 + TYPING_THROTTLE_NANOS,
{
}

} // verus!
