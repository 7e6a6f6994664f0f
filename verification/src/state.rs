//! What the app remembers during a session beside the database: the members
//! it has seen, messages awaiting delivery, who is typing, when members were
//! last active, and the session's system notices.
//!
//! Times are nanoseconds on the app's monotonic clock; the app reads the
//! clock and hands the reading in.

use vstd::prelude::*;
use crate::format::{format_activity_hint, spec_activity_hint};
use crate::time::Timestamp;

verus! {

/// Tracked member for join/leave detection
#[derive(Debug, Clone)]
pub struct TrackedMember {
    pub user_id: u128,
    pub username: String,
}

/// Someone typing, and when they were last seen typing.
#[derive(Debug, Clone)]
pub struct TypingEntry {
    pub user_id: u128,
    pub username: String,
    pub since: u128,
}

/// Ephemeral system message (not persisted)
#[derive(Debug, Clone)]
pub struct SystemMessage {
    pub id: u128,
    pub hall_id: u128,
    pub content: String,
    pub timestamp: Timestamp,
}

/// Some member of `s` has identifier `id`.
pub open spec fn in_members(s: Seq<TrackedMember>, id: u128) -> bool {
    exists|k: int| 0 <= k < s.len() && (#[trigger] s[k]).user_id == id
}

/// The names of the members of `new` not among `known`, other than `me`, in order.
pub open spec fn joined_names(known: Seq<TrackedMember>, new: Seq<TrackedMember>, me: Option<u128>) -> Seq<
    Seq<char>,
> {
    new.filter(|m: TrackedMember| !in_members(known, m.user_id) && me != Some(m.user_id)).map_values(
        |m: TrackedMember| m.username@,
    )
}

/// The names of the members of `known` no longer in `new`, other than `me`, in order.
pub open spec fn left_names(known: Seq<TrackedMember>, new: Seq<TrackedMember>, me: Option<u128>) -> Seq<
    Seq<char>,
> {
    joined_names(new, known, me)
}

/// The texts of a list of strings.
pub open spec fn texts(v: Seq<String>) -> Seq<Seq<char>> {
    v.map_values(|s: String| s@)
}

/// No identifier occurs twice.
pub open spec fn distinct_ids(ids: Seq<u128>) -> bool {
    forall|i: int, j: int| 0 <= i < j < ids.len() ==> ids[i] != ids[j]
}

/// The typing entry was seen less than `max_age_ms` ago at `now` (an entry
/// from the future counts as just seen).
pub open spec fn typing_fresh(e: TypingEntry, max_age_ms: u64, now: u128) -> bool {
    now < e.since || (now - e.since) / 1_000_000 < max_age_ms
}

/// A system notice as plain values.
pub open spec fn system_view(m: SystemMessage) -> (u128, u128, Seq<char>, Timestamp) {
    (m.id, m.hall_id, m.content@, m.timestamp)
}

/// When the user was last active, from the first entry naming them.
pub open spec fn activity_of(a: Seq<(u128, u128)>, user_id: u128) -> Option<u128>
    decreases a.len(),
{
    if a.len() == 0 {
        None
    } else if a[0].0 == user_id {
        Some(a[0].1)
    } else {
        activity_of(a.drop_first(), user_id)
    }
}

/// Whole seconds from `t` to `now` on the monotonic clock (none when `now`
/// is earlier), as `Duration::as_secs` reads them.
pub open spec fn elapsed_secs(t: u128, now: u128) -> nat {
    let s = if now >= t {
        (now - t) / 1_000_000_000
    } else {
        0
    };
    if s > u64::MAX {
        u64::MAX as nat
    } else {
        s as nat
    }
}

proof fn lemma_activity_of_first(a: Seq<(u128, u128)>, user_id: u128, i: int)
    requires
        0 <= i < a.len(),
        a[i].0 == user_id,
        forall|j: int| 0 <= j < i ==> (#[trigger] a[j]).0 != user_id,
    ensures
        activity_of(a, user_id) == Some(a[i].1),
    decreases i,
{
    if i > 0 {
        assert(a[0].0 != user_id);
        assert forall|j: int| 0 <= j < i - 1 implies (#[trigger] a.drop_first()[j]).0 != user_id by {
            assert(a.drop_first()[j] == a[j + 1]);
        }
        lemma_activity_of_first(a.drop_first(), user_id, i - 1);
    }
}

proof fn lemma_activity_of_none(a: Seq<(u128, u128)>, user_id: u128)
    requires
        forall|j: int| 0 <= j < a.len() ==> (#[trigger] a[j]).0 != user_id,
    ensures
        activity_of(a, user_id) is None,
    decreases a.len(),
{
    if a.len() > 0 {
        assert(a[0].0 != user_id);
        assert forall|j: int| 0 <= j < a.len() - 1 implies (#[trigger] a.drop_first()[j]).0 != user_id by {
            assert(a.drop_first()[j] == a[j + 1]);
        }
        lemma_activity_of_none(a.drop_first(), user_id);
    }
}

/// A member list compared with itself reports nobody joining or leaving.
pub proof fn lemma_same_members_no_news(members: Seq<TrackedMember>, me: Option<u128>)
    ensures
        joined_names(members, members, me).len() == 0,
        left_names(members, members, me).len() == 0,
{
    let p = |m: TrackedMember| !in_members(members, m.user_id) && me != Some(m.user_id);
    assert forall|i: int| 0 <= i < members.len() implies !p(#[trigger] members[i]) by {
        assert(in_members(members, members[i].user_id));
    }
    members.lemma_all_neg_filter_empty(p);
}

/// What the app remembers of the session.
pub struct SessionMemory {
    /// Currently known members (for detecting joins/leaves)
    pub known_members: Vec<TrackedMember>,
    /// Messages pending delivery confirmation
    pub pending_messages: Vec<u128>,
    /// Users currently typing
    pub typing_users: Vec<TypingEntry>,
    /// Member last activity times: (user, time)
    pub member_activity: Vec<(u128, u128)>,
    /// Ephemeral system messages (join/leave/host changes)
    pub system_messages: Vec<SystemMessage>,
}

/// Names of members whose identifier is not in `others` and is not `me`.
fn names_missing_from(
    members: &Vec<TrackedMember>,
    others: &Vec<TrackedMember>,
    me: Option<u128>,
) -> (r: Vec<String>)
    ensures
        texts(r@) == joined_names(others@, members@, me),
{
    let ghost pred = |m: TrackedMember| !in_members(others@, m.user_id) && me != Some(m.user_id);
    let ghost name = |m: TrackedMember| m.username@;
    let ghost name_of = |s: String| s@;
    let ghost ms = members@;
    let mut r: Vec<String> = Vec::new();
    let mut i: usize = 0;
    assert(ms.take(0).filter(pred) =~= Seq::<TrackedMember>::empty()) by {
        reveal(Seq::filter);
    }
    while i < members.len()
        invariant
            i <= members.len(),
            ms == members@,
            pred == (|m: TrackedMember| !in_members(others@, m.user_id) && me != Some(m.user_id)),
            name == (|m: TrackedMember| m.username@),
            name_of == (|s: String| s@),
            r@.map_values(name_of) == ms.take(i as int).filter(pred).map_values(name),
        decreases members.len() - i,
    {
        let m = &members[i];
        let mut found = false;
        let mut k: usize = 0;
        while k < others.len()
            invariant
                k <= others.len(),
                i < members.len(),
                ms == members@,
                *m == ms[i as int],
                !found ==> forall|j: int| 0 <= j < k ==> (#[trigger] others@[j]).user_id != m.user_id,
                found ==> in_members(others@, m.user_id),
            decreases others.len() - k,
        {
            if others[k].user_id == m.user_id {
                assert(others@[k as int].user_id == m.user_id);
                found = true;
            }
            k = k + 1;
        }
        let ghost before = r@;
        assert(ms.take(i + 1).drop_last() =~= ms.take(i as int));
        assert(ms.take(i + 1).last() == ms[i as int]);
        assert(pred(ms[i as int]) == (!found && me != Some(m.user_id)));
        if !found && me != Some(m.user_id) {
            r.push(m.username.clone());
        }
        proof {
            reveal(Seq::filter);
            if pred(ms[i as int]) {
                assert(r@.map_values(name_of) =~= before.map_values(name_of).push(ms[i as int].username@));
                assert(ms.take(i + 1).filter(pred) == ms.take(i as int).filter(pred).push(ms[i as int]));
                assert(ms.take(i + 1).filter(pred).map_values(name) =~= ms.take(i as int).filter(pred).map_values(
                    name,
                ).push(ms[i as int].username@));
            } else {
                assert(ms.take(i + 1).filter(pred) == ms.take(i as int).filter(pred));
            }
        }
        i = i + 1;
    }
    assert(ms.take(ms.len() as int) =~= ms);
    r
}

/// A typing entry survives a clearing of `user_id` (when `by_user`) or a
/// pruning of entries older than `max_age_ms` at `now` (otherwise).
pub open spec fn typing_kept(e: TypingEntry, by_user: bool, user_id: u128, max_age_ms: u64, now: u128) -> bool {
    if by_user {
        e.user_id != user_id
    } else {
        typing_fresh(e, max_age_ms, now)
    }
}

/// Filtering keeps the keys of a sequence free of repeats.
pub proof fn lemma_filter_distinct_keys<A>(s: Seq<A>, p: spec_fn(A) -> bool, key: spec_fn(A) -> u128)
    requires
        distinct_ids(s.map_values(key)),
    ensures
        distinct_ids(s.filter(p).map_values(key)),
    decreases s.len(),
{
    reveal(Seq::filter);
    if s.len() > 0 {
        let d = s.drop_last();
        assert(distinct_ids(d.map_values(key))) by {
            assert forall|i: int, j: int| 0 <= i < j < d.map_values(key).len() implies d.map_values(key)[i]
                != d.map_values(key)[j] by {
                assert(d.map_values(key)[i] == s.map_values(key)[i]);
                assert(d.map_values(key)[j] == s.map_values(key)[j]);
            }
        }
        lemma_filter_distinct_keys(d, p, key);
        if p(s.last()) {
            let f = d.filter(p);
            let g = f.push(s.last()).map_values(key);
            assert forall|i: int, j: int| 0 <= i < j < g.len() implies g[i] != g[j] by {
                if j == f.len() {
                    assert(f.contains(f[i]));
                    d.lemma_filter_contains_rev(p, f[i]);
                    let k = choose|k: int| 0 <= k < d.len() && d[k] == f[i];
                    assert(s.map_values(key)[k] == key(f[i]));
                    assert(s.map_values(key)[s.len() - 1] == key(s.last()));
                } else {
                    assert(g[i] == f.map_values(key)[i] && g[j] == f.map_values(key)[j]);
                }
            }
        }
    }
}

/// Filtering keeps a sequence free of repeats.
pub proof fn lemma_filter_distinct(s: Seq<u128>, p: spec_fn(u128) -> bool)
    requires
        distinct_ids(s),
    ensures
        distinct_ids(s.filter(p)),
    decreases s.len(),
{
    reveal(Seq::filter);
    if s.len() > 0 {
        let d = s.drop_last();
        assert(distinct_ids(d)) by {
            assert forall|i: int, j: int| 0 <= i < j < d.len() implies d[i] != d[j] by {
                assert(d[i] == s[i] && d[j] == s[j]);
            }
        }
        lemma_filter_distinct(d, p);
        if p(s.last()) {
            let f = d.filter(p);
            assert forall|i: int, j: int| 0 <= i < j < f.push(s.last()).len() implies f.push(s.last())[i]
                != f.push(s.last())[j] by {
                if j == f.len() {
                    assert(f.contains(f[i]));
                    d.lemma_filter_contains_rev(p, f[i]);
                    let k = choose|k: int| 0 <= k < d.len() && d[k] == f[i];
                    assert(s[k] == d[k]);
                }
            }
        }
    }
}

impl SessionMemory {
    /// The invariant: pending messages, typing users and activity entries
    /// each name an identifier at most once.
    pub open spec fn wf(&self) -> bool {
        &&& distinct_ids(self.pending_messages@)
        &&& distinct_ids(self.typing_users@.map_values(|e: TypingEntry| e.user_id))
        &&& distinct_ids(self.member_activity@.map_values(|e: (u128, u128)| e.0))
    }

    pub fn new() -> (m: Self)
        ensures
            m.wf(),
            m.known_members@.len() == 0,
            m.pending_messages@.len() == 0,
            m.typing_users@.len() == 0,
            m.member_activity@.len() == 0,
            m.system_messages@.len() == 0,
    {
        SessionMemory {
            known_members: Vec::new(),
            pending_messages: Vec::new(),
            typing_users: Vec::new(),
            member_activity: Vec::new(),
            system_messages: Vec::new(),
        }
    }

    /// Update known members and return the names of those who joined and
    /// those who left, leaving out the current user.
    pub fn update_known_members(&mut self, new_members: Vec<TrackedMember>, me: Option<u128>) -> (r: (
        Vec<String>,
        Vec<String>,
    ))
        ensures
            texts(r.0@) == joined_names(old(self).known_members@, new_members@, me),
            texts(r.1@) == left_names(old(self).known_members@, new_members@, me),
            final(self).known_members@ == new_members@,
            final(self).pending_messages == old(self).pending_messages,
            final(self).typing_users == old(self).typing_users,
            final(self).member_activity == old(self).member_activity,
            final(self).system_messages == old(self).system_messages,
    {
        let joined = names_missing_from(&new_members, &self.known_members, me);
        let left = names_missing_from(&self.known_members, &new_members, me);
        self.known_members = new_members;
        (joined, left)
    }

    /// Clear known members (e.g., when disconnecting)
    pub fn clear_known_members(&mut self)
        ensures
            final(self).known_members@.len() == 0,
            final(self).pending_messages == old(self).pending_messages,
            final(self).typing_users == old(self).typing_users,
            final(self).member_activity == old(self).member_activity,
            final(self).system_messages == old(self).system_messages,
    {
        self.known_members = Vec::new();
    }

    /// Check if a message is pending delivery
    pub fn is_message_pending(&self, message_id: u128) -> (b: bool)
        ensures
            b == self.pending_messages@.contains(message_id),
    {
        let mut i: usize = 0;
        while i < self.pending_messages.len()
            invariant
                i <= self.pending_messages.len(),
                forall|j: int| 0 <= j < i ==> self.pending_messages@[j] != message_id,
            decreases self.pending_messages.len() - i,
        {
            if self.pending_messages[i] == message_id {
                assert(self.pending_messages@[i as int] == message_id);
                return true;
            }
            i = i + 1;
        }
        false
    }

    /// Mark a message as pending delivery
    pub fn add_pending_message(&mut self, message_id: u128)
        requires
            old(self).wf(),
        ensures
            final(self).wf(),
            final(self).pending_messages@.to_set() == old(self).pending_messages@.to_set().insert(message_id),
            final(self).known_members == old(self).known_members,
            final(self).typing_users == old(self).typing_users,
            final(self).member_activity == old(self).member_activity,
            final(self).system_messages == old(self).system_messages,
    {
        let ghost before = self.pending_messages@;
        if !self.is_message_pending(message_id) {
            self.pending_messages.push(message_id);
            proof {
                assert forall|i: int, j: int| 0 <= i < j < self.pending_messages@.len() implies self.pending_messages@[i]
                    != self.pending_messages@[j] by {
                    if j == before.len() {
                        assert(self.pending_messages@[i] == before[i]);
                        assert(before.contains(before[i]));
                    }
                }
            }
            assert forall|y: u128| self.pending_messages@.contains(y) <==> (before.contains(y) || y
                == message_id) by {
                if before.contains(y) {
                    let k = choose|k: int| 0 <= k < before.len() && before[k] == y;
                    assert(self.pending_messages@[k] == y);
                }
                if y == message_id {
                    assert(self.pending_messages@[before.len() as int] == y);
                }
                if self.pending_messages@.contains(y) {
                    let k = choose|k: int| 0 <= k < self.pending_messages@.len() && self.pending_messages@[k] == y;
                    if k < before.len() {
                        assert(before[k] == y);
                    }
                }
            }
            assert(self.pending_messages@.to_set() =~= before.to_set().insert(message_id));
        } else {
            assert(before.to_set() =~= before.to_set().insert(message_id));
        }
    }

    /// Mark a message as delivered (remove from pending)
    pub fn confirm_message(&mut self, message_id: u128)
        requires
            old(self).wf(),
        ensures
            final(self).wf(),
            final(self).pending_messages@ == old(self).pending_messages@.filter(|x: u128| x != message_id),
            final(self).pending_messages@.to_set() == old(self).pending_messages@.to_set().remove(message_id),
            final(self).known_members == old(self).known_members,
            final(self).typing_users == old(self).typing_users,
            final(self).member_activity == old(self).member_activity,
            final(self).system_messages == old(self).system_messages,
    {
        broadcast use vstd::seq_lib::group_filter_ensures;

        let ghost before = self.pending_messages@;
        let ghost keep = |x: u128| x != message_id;
        let mut kept: Vec<u128> = Vec::new();
        let mut i: usize = 0;
        assert(before.take(0).filter(keep) =~= Seq::<u128>::empty()) by {
            reveal(Seq::filter);
        }
        while i < self.pending_messages.len()
            invariant
                i <= self.pending_messages.len(),
                before == self.pending_messages@,
                keep == (|x: u128| x != message_id),
                kept@ == before.take(i as int).filter(keep),
            decreases self.pending_messages.len() - i,
        {
            assert(before.take(i + 1).drop_last() =~= before.take(i as int));
            assert(before.take(i + 1).last() == before[i as int]);
            let x = self.pending_messages[i];
            if x != message_id {
                kept.push(x);
            }
            proof {
                reveal(Seq::filter);
            }
            i = i + 1;
        }
        assert(before.take(before.len() as int) =~= before);
        self.pending_messages = kept;
        proof {
            lemma_filter_distinct(before, keep);
            assert forall|x: u128| self.pending_messages@.to_set().contains(x) <==> before.to_set().remove(
                message_id,
            ).contains(x) by {
                if self.pending_messages@.contains(x) {
                    before.lemma_filter_contains_rev(keep, x);
                    let k = choose|k: int| 0 <= k < self.pending_messages@.len() && self.pending_messages@[k] == x;
                    before.lemma_filter_pred(keep, k);
                }
                if before.contains(x) && x != message_id {
                    let k = choose|k: int| 0 <= k < before.len() && before[k] == x;
                    before.lemma_filter_contains(keep, k);
                }
            }
            assert(self.pending_messages@.to_set() =~= before.to_set().remove(message_id));
        }
    }

    /// Reconcile pending messages against the message store: each pending
    /// message that the store holds (`stored`, the pending identifiers found
    /// there) is confirmed. Returns how many were confirmed.
    pub fn reconcile_pending_messages(&mut self, stored: &[u128]) -> (n: usize)
        requires
            old(self).wf(),
        ensures
            final(self).wf(),
            final(self).pending_messages@ == old(self).pending_messages@.filter(
                |x: u128| !stored@.contains(x),
            ),
            n == old(self).pending_messages@.len() - final(self).pending_messages@.len(),
            final(self).known_members == old(self).known_members,
            final(self).typing_users == old(self).typing_users,
            final(self).member_activity == old(self).member_activity,
            final(self).system_messages == old(self).system_messages,
    {
        broadcast use vstd::seq_lib::group_filter_ensures;

        let ghost before = self.pending_messages@;
        let ghost keep = |x: u128| !stored@.contains(x);
        let mut kept: Vec<u128> = Vec::new();
        let mut i: usize = 0;
        assert(before.take(0).filter(keep) =~= Seq::<u128>::empty()) by {
            reveal(Seq::filter);
        }
        while i < self.pending_messages.len()
            invariant
                i <= self.pending_messages.len(),
                before == self.pending_messages@,
                keep == (|x: u128| !stored@.contains(x)),
                kept@ == before.take(i as int).filter(keep),
            decreases self.pending_messages.len() - i,
        {
            assert(before.take(i + 1).drop_last() =~= before.take(i as int));
            assert(before.take(i + 1).last() == before[i as int]);
            let x = self.pending_messages[i];
            if !crate::chat::contains_id(stored, x) {
                kept.push(x);
            }
            proof {
                reveal(Seq::filter);
            }
            i = i + 1;
        }
        assert(before.take(before.len() as int) =~= before);
        proof {
            before.lemma_filter_len(keep);
            lemma_filter_distinct(before, keep);
        }
        let n = self.pending_messages.len() - kept.len();
        self.pending_messages = kept;
        n
    }

    /// The messages pending delivery.
    pub fn get_pending_messages(&self) -> (r: Vec<u128>)
        ensures
            r@ == self.pending_messages@,
    {
        let mut r: Vec<u128> = Vec::new();
        let mut i: usize = 0;
        while i < self.pending_messages.len()
            invariant
                i <= self.pending_messages.len(),
                r@ == self.pending_messages@.take(i as int),
            decreases self.pending_messages.len() - i,
        {
            r.push(self.pending_messages[i]);
            i = i + 1;
            assert(r@ =~= self.pending_messages@.take(i as int));
        }
        assert(self.pending_messages@.take(i as int) =~= self.pending_messages@);
        r
    }

    /// Set a user as typing at `now`, or refresh their name and time.
    pub fn set_user_typing(&mut self, user_id: u128, username: String, now: u128)
        requires
            old(self).wf(),
        ensures
            final(self).wf(),
            ({
                let e = TypingEntry { user_id, username, since: now };
                let old_t = old(self).typing_users@;
                if exists|k: int| 0 <= k < old_t.len() && (#[trigger] old_t[k]).user_id == user_id {
                    exists|k: int|
                        0 <= k < old_t.len() && (#[trigger] old_t[k]).user_id == user_id
                            && final(self).typing_users@ == old_t.update(k, e)
                } else {
                    final(self).typing_users@ == old_t.push(e)
                }
            }),
            final(self).known_members == old(self).known_members,
            final(self).pending_messages == old(self).pending_messages,
            final(self).member_activity == old(self).member_activity,
            final(self).system_messages == old(self).system_messages,
    {
        let ghost before = self.typing_users@;
        let ghost ids = |e: TypingEntry| e.user_id;
        let mut i: usize = 0;
        while i < self.typing_users.len()
            invariant
                i <= self.typing_users.len(),
                before == self.typing_users@,
                forall|j: int| 0 <= j < i ==> (#[trigger] before[j]).user_id != user_id,
            ensures
                i <= self.typing_users.len(),
                before == self.typing_users@,
                forall|j: int| 0 <= j < i ==> (#[trigger] before[j]).user_id != user_id,
                i < self.typing_users.len() ==> before[i as int].user_id == user_id,
            decreases self.typing_users.len() - i,
        {
            if self.typing_users[i].user_id == user_id {
                break;
            }
            i = i + 1;
        }
        let e = TypingEntry { user_id, username, since: now };
        if i < self.typing_users.len() {
            self.typing_users.set(i, e);
            proof {
                assert(before[i as int].user_id == user_id);
                assert(self.typing_users@.map_values(ids) =~= before.map_values(ids));
            }
        } else {
            self.typing_users.push(e);
            proof {
                assert(self.typing_users@.map_values(ids) =~= before.map_values(ids).push(user_id));
                assert forall|a: int, b: int| 0 <= a < b < self.typing_users@.map_values(ids).len() implies self.typing_users@.map_values(
                    ids,
                )[a] != self.typing_users@.map_values(ids)[b] by {
                    if b == before.len() {
                        assert(before[a].user_id != user_id);
                    } else {
                        assert(before.map_values(ids)[a] != before.map_values(ids)[b]);
                    }
                }
            }
        }
    }

    /// Clear a user's typing status
    pub fn clear_user_typing(&mut self, user_id: u128)
        requires
            old(self).wf(),
        ensures
            final(self).wf(),
            final(self).typing_users@ == old(self).typing_users@.filter(|e: TypingEntry| e.user_id != user_id),
            final(self).known_members == old(self).known_members,
            final(self).pending_messages == old(self).pending_messages,
            final(self).member_activity == old(self).member_activity,
            final(self).system_messages == old(self).system_messages,
    {
        self.retain_typing(true, user_id, 0, 0);
        assert((|e: TypingEntry| typing_kept(e, true, user_id, 0, 0)) =~= (|e: TypingEntry| e.user_id
            != user_id));
    }

    /// Clear all typing users (e.g., when disconnecting)
    pub fn clear_all_typing(&mut self)
        ensures
            final(self).typing_users@.len() == 0,
            final(self).known_members == old(self).known_members,
            final(self).pending_messages == old(self).pending_messages,
            final(self).member_activity == old(self).member_activity,
            final(self).system_messages == old(self).system_messages,
    {
        self.typing_users = Vec::new();
    }

    /// Prune typing entries older than `max_age_ms` at `now`; whether any went.
    pub fn prune_typing_users(&mut self, max_age_ms: u64, now: u128) -> (pruned: bool)
        requires
            old(self).wf(),
        ensures
            final(self).wf(),
            final(self).typing_users@ == old(self).typing_users@.filter(
                |e: TypingEntry| typing_fresh(e, max_age_ms, now),
            ),
            pruned == (final(self).typing_users@.len() < old(self).typing_users@.len()),
            final(self).known_members == old(self).known_members,
            final(self).pending_messages == old(self).pending_messages,
            final(self).member_activity == old(self).member_activity,
            final(self).system_messages == old(self).system_messages,
    {
        let before = self.typing_users.len();
        self.retain_typing(false, 0, max_age_ms, now);
        assert((|e: TypingEntry| typing_kept(e, false, 0, max_age_ms, now)) =~= (|e: TypingEntry|
            typing_fresh(e, max_age_ms, now)));
        self.typing_users.len() < before
    }

    /// Keeps the typing entries that are not `user_id` (when `by_user`) or
    /// else are fresh at `now`.
    fn retain_typing(&mut self, by_user: bool, user_id: u128, max_age_ms: u64, now: u128)
        requires
            old(self).wf(),
        ensures
            final(self).wf(),
            final(self).typing_users@ == old(self).typing_users@.filter(
                |e: TypingEntry| typing_kept(e, by_user, user_id, max_age_ms, now),
            ),
            final(self).known_members == old(self).known_members,
            final(self).pending_messages == old(self).pending_messages,
            final(self).member_activity == old(self).member_activity,
            final(self).system_messages == old(self).system_messages,
    {
        let ghost keep = |e: TypingEntry| typing_kept(e, by_user, user_id, max_age_ms, now);
        let ghost orig = self.typing_users@;
        let total = self.typing_users.len();
        let mut rest: Vec<TypingEntry> = Vec::new();
        std::mem::swap(&mut rest, &mut self.typing_users);
        let mut kept: Vec<TypingEntry> = Vec::new();
        assert(orig.take(0).filter(keep) =~= Seq::<TypingEntry>::empty()) by {
            reveal(Seq::filter);
        }
        while rest.len() > 0
            invariant
                orig.len() == total,
                rest.len() <= total,
                keep == (|e: TypingEntry| typing_kept(e, by_user, user_id, max_age_ms, now)),
                rest@ == orig.skip(total - rest.len()),
                kept@ == orig.take(total - rest.len()).filter(keep),
            decreases rest.len(),
        {
            let ghost i = total - rest.len();
            let e = rest.remove(0);
            assert(e == orig[i]);
            assert(rest@ =~= orig.skip(i + 1));
            assert(orig.take(i + 1).drop_last() =~= orig.take(i));
            assert(orig.take(i + 1).last() == orig[i]);
            let k = if by_user {
                e.user_id != user_id
            } else {
                now < e.since || (now - e.since) / 1_000_000 < max_age_ms as u128
            };
            assert(k == keep(e));
            if k {
                kept.push(e);
            }
            proof {
                reveal(Seq::filter);
            }
        }
        assert(orig.take(total as int) =~= orig);
        self.typing_users = kept;
        proof {
            lemma_filter_distinct_keys(orig, keep, |e: TypingEntry| e.user_id);
        }
    }

    /// The users typing, other than `me`, as (user, name).
    pub fn get_typing_users(&self, me: Option<u128>) -> (r: Vec<(u128, String)>)
        ensures
            r@.map_values(|p: (u128, String)| (p.0, p.1@)) == self.typing_users@.filter(
                |e: TypingEntry| me != Some(e.user_id),
            ).map_values(|e: TypingEntry| (e.user_id, e.username@)),
    {
        let ghost t = self.typing_users@;
        let ghost keep = |e: TypingEntry| me != Some(e.user_id);
        let ghost fe = |e: TypingEntry| (e.user_id, e.username@);
        let ghost fp = |p: (u128, String)| (p.0, p.1@);
        let mut r: Vec<(u128, String)> = Vec::new();
        let mut i: usize = 0;
        assert(t.take(0).filter(keep) =~= Seq::<TypingEntry>::empty()) by {
            reveal(Seq::filter);
        }
        while i < self.typing_users.len()
            invariant
                i <= self.typing_users.len(),
                t == self.typing_users@,
                keep == (|e: TypingEntry| me != Some(e.user_id)),
                fe == (|e: TypingEntry| (e.user_id, e.username@)),
                fp == (|p: (u128, String)| (p.0, p.1@)),
                r@.map_values(fp) == t.take(i as int).filter(keep).map_values(fe),
            decreases self.typing_users.len() - i,
        {
            let ghost before = r@;
            assert(t.take(i + 1).drop_last() =~= t.take(i as int));
            assert(t.take(i + 1).last() == t[i as int]);
            let e = &self.typing_users[i];
            if me != Some(e.user_id) {
                r.push((e.user_id, e.username.clone()));
            }
            proof {
                reveal(Seq::filter);
                if keep(t[i as int]) {
                    assert(r@.map_values(fp) =~= before.map_values(fp).push(fe(t[i as int])));
                    assert(t.take(i + 1).filter(keep) == t.take(i as int).filter(keep).push(t[i as int]));
                    assert(t.take(i + 1).filter(keep).map_values(fe) =~= t.take(i as int).filter(keep).map_values(
                        fe,
                    ).push(fe(t[i as int])));
                } else {
                    assert(t.take(i + 1).filter(keep) == t.take(i as int).filter(keep));
                }
            }
            i = i + 1;
        }
        assert(t.take(t.len() as int) =~= t);
        r
    }

    /// Record that a user was active at `now`.
    pub fn update_member_activity(&mut self, user_id: u128, now: u128)
        requires
            old(self).wf(),
        ensures
            final(self).wf(),
            ({
                let old_a = old(self).member_activity@;
                if exists|k: int| 0 <= k < old_a.len() && (#[trigger] old_a[k]).0 == user_id {
                    exists|k: int|
                        0 <= k < old_a.len() && (#[trigger] old_a[k]).0 == user_id
                            && final(self).member_activity@ == old_a.update(k, (user_id, now))
                } else {
                    final(self).member_activity@ == old_a.push((user_id, now))
                }
            }),
            final(self).known_members == old(self).known_members,
            final(self).pending_messages == old(self).pending_messages,
            final(self).typing_users == old(self).typing_users,
            final(self).system_messages == old(self).system_messages,
    {
        let ghost before = self.member_activity@;
        let ghost ids = |e: (u128, u128)| e.0;
        let mut i: usize = 0;
        while i < self.member_activity.len()
            invariant
                i <= self.member_activity.len(),
                before == self.member_activity@,
                forall|j: int| 0 <= j < i ==> (#[trigger] before[j]).0 != user_id,
            ensures
                i <= self.member_activity.len(),
                before == self.member_activity@,
                forall|j: int| 0 <= j < i ==> (#[trigger] before[j]).0 != user_id,
                i < self.member_activity.len() ==> before[i as int].0 == user_id,
            decreases self.member_activity.len() - i,
        {
            if self.member_activity[i].0 == user_id {
                break;
            }
            i = i + 1;
        }
        if i < self.member_activity.len() {
            self.member_activity.set(i, (user_id, now));
            proof {
                assert(self.member_activity@.map_values(ids) =~= before.map_values(ids));
            }
        } else {
            self.member_activity.push((user_id, now));
            proof {
                assert(self.member_activity@.map_values(ids) =~= before.map_values(ids).push(user_id));
                assert forall|a: int, b: int| 0 <= a < b < self.member_activity@.map_values(ids).len() implies self.member_activity@.map_values(
                    ids,
                )[a] != self.member_activity@.map_values(ids)[b] by {
                    if b == before.len() {
                        assert(before[a].0 != user_id);
                    } else {
                        assert(before.map_values(ids)[a] != before.map_values(ids)[b]);
                    }
                }
            }
        }
    }

    /// The activity hint for a user at `now` ("Active", "5m", "2h", "3d"),
    /// empty when the user has not been seen.
    pub fn get_activity_hint(&self, user_id: u128, now: u128) -> (s: String)
        ensures
            match activity_of(self.member_activity@, user_id) {
                None => s@ == Seq::<char>::empty(),
                Some(t) => s@ == spec_activity_hint(elapsed_secs(t, now)),
            },
    {
        let mut i: usize = 0;
        while i < self.member_activity.len()
            invariant
                i <= self.member_activity.len(),
                forall|j: int| 0 <= j < i ==> (#[trigger] self.member_activity@[j]).0 != user_id,
            decreases self.member_activity.len() - i,
        {
            if self.member_activity[i].0 == user_id {
                let t = self.member_activity[i].1;
                proof {
                    lemma_activity_of_first(self.member_activity@, user_id, i as int);
                }
                let secs: u128 = if now >= t {
                    (now - t) / 1_000_000_000
                } else {
                    0
                };
                let secs64: u64 = if secs > u64::MAX as u128 {
                    u64::MAX
                } else {
                    secs as u64
                };
                return format_activity_hint(secs64);
            }
            i = i + 1;
        }
        proof {
            lemma_activity_of_none(self.member_activity@, user_id);
        }
        String::new()
    }

    /// Clear all activity data (e.g., when switching halls)
    pub fn clear_member_activity(&mut self)
        ensures
            final(self).member_activity@.len() == 0,
            final(self).known_members == old(self).known_members,
            final(self).pending_messages == old(self).pending_messages,
            final(self).typing_users == old(self).typing_users,
            final(self).system_messages == old(self).system_messages,
    {
        self.member_activity = Vec::new();
    }

    /// Add a system notice for a hall, stamped now.
    pub fn add_system_message(&mut self, hall_id: u128, content: String)
        ensures
            final(self).system_messages@.len() == old(self).system_messages@.len() + 1,
            final(self).system_messages@.drop_last() == old(self).system_messages@,
            final(self).system_messages@.last().hall_id == hall_id,
            final(self).system_messages@.last().content == content,
            crate::time::chrono_ok(final(self).system_messages@.last().timestamp),
            final(self).known_members == old(self).known_members,
            final(self).pending_messages == old(self).pending_messages,
            final(self).typing_users == old(self).typing_users,
            final(self).member_activity == old(self).member_activity,
    {
        let msg = SystemMessage { id: crate::ids::new_id(), hall_id, content, timestamp: crate::time::now() };
        self.system_messages.push(msg);
        assert(self.system_messages@.drop_last() =~= old(self).system_messages@);
    }

    /// The system notices of a hall, in the order they were added.
    pub fn get_system_messages(&self, hall_id: u128) -> (r: Vec<SystemMessage>)
        ensures
            r@.map_values(|m: SystemMessage| system_view(m)) == self.system_messages@.filter(
                |m: SystemMessage| m.hall_id == hall_id,
            ).map_values(|m: SystemMessage| system_view(m)),
    {
        let ghost t = self.system_messages@;
        let ghost keep = |m: SystemMessage| m.hall_id == hall_id;
        let ghost fv = |m: SystemMessage| system_view(m);
        let mut r: Vec<SystemMessage> = Vec::new();
        let mut i: usize = 0;
        assert(t.take(0).filter(keep) =~= Seq::<SystemMessage>::empty()) by {
            reveal(Seq::filter);
        }
        while i < self.system_messages.len()
            invariant
                i <= self.system_messages.len(),
                t == self.system_messages@,
                keep == (|m: SystemMessage| m.hall_id == hall_id),
                fv == (|m: SystemMessage| system_view(m)),
                r@.map_values(fv) == t.take(i as int).filter(keep).map_values(fv),
            decreases self.system_messages.len() - i,
        {
            let ghost before = r@;
            assert(t.take(i + 1).drop_last() =~= t.take(i as int));
            assert(t.take(i + 1).last() == t[i as int]);
            let m = &self.system_messages[i];
            if m.hall_id == hall_id {
                r.push(SystemMessage { id: m.id, hall_id: m.hall_id, content: m.content.clone(), timestamp: m.timestamp });
            }
            proof {
                reveal(Seq::filter);
                if keep(t[i as int]) {
                    assert(r@.map_values(fv) =~= before.map_values(fv).push(fv(t[i as int])));
                    assert(t.take(i + 1).filter(keep) == t.take(i as int).filter(keep).push(t[i as int]));
                    assert(t.take(i + 1).filter(keep).map_values(fv) =~= t.take(i as int).filter(keep).map_values(
                        fv,
                    ).push(fv(t[i as int])));
                } else {
                    assert(t.take(i + 1).filter(keep) == t.take(i as int).filter(keep));
                }
            }
            i = i + 1;
        }
        assert(t.take(t.len() as int) =~= t);
        r
    }

    /// Clear system messages for a hall (e.g., when leaving)
    pub fn clear_system_messages(&mut self, hall_id: u128)
        ensures
            final(self).system_messages@ == old(self).system_messages@.filter(
                |m: SystemMessage| m.hall_id != hall_id,
            ),
            final(self).known_members == old(self).known_members,
            final(self).pending_messages == old(self).pending_messages,
            final(self).typing_users == old(self).typing_users,
            final(self).member_activity == old(self).member_activity,
    {
        let ghost keep = |m: SystemMessage| m.hall_id != hall_id;
        let ghost orig = self.system_messages@;
        let total = self.system_messages.len();
        let mut rest: Vec<SystemMessage> = Vec::new();
        std::mem::swap(&mut rest, &mut self.system_messages);
        let mut kept: Vec<SystemMessage> = Vec::new();
        assert(orig.take(0).filter(keep) =~= Seq::<SystemMessage>::empty()) by {
            reveal(Seq::filter);
        }
        while rest.len() > 0
            invariant
                orig.len() == total,
                rest.len() <= total,
                keep == (|m: SystemMessage| m.hall_id != hall_id),
                rest@ == orig.skip(total - rest.len()),
                kept@ == orig.take(total - rest.len()).filter(keep),
            decreases rest.len(),
        {
            let ghost i = total - rest.len();
            let m = rest.remove(0);
            assert(m == orig[i]);
            assert(rest@ =~= orig.skip(i + 1));
            assert(orig.take(i + 1).drop_last() =~= orig.take(i));
            assert(orig.take(i + 1).last() == orig[i]);
            if m.hall_id != hall_id {
                kept.push(m);
            }
            proof {
                reveal(Seq::filter);
            }
        }
        assert(orig.take(total as int) =~= orig);
        self.system_messages = kept;
    }
}

} // verus!
