//! The hall server's decisions: who may join, the member list, message
//! numbering with its bounded history, and synchronisation after a reconnect.
//!
//! The connections themselves (sockets and per-peer channels) are held beside
//! this state by the server's tasks.

use vstd::prelude::*;
use crate::ids::{hex_lower, new_id, nibble, uuid_text};
use crate::net::error::Error;
use crate::net::protocol::{Message, NetMessage, NetRole, PeerInfo};
use crate::time::Timestamp;
use crate::text::str_equals;

verus! {

/// Maximum number of connected peers
pub const MAX_PEERS: usize = 32;

/// Heartbeat interval in milliseconds
pub const HEARTBEAT_INTERVAL_MS: u64 = 2000;

/// Maximum messages to keep in history for sync
pub const MAX_MESSAGE_HISTORY: usize = 500;

/// A connected peer, as the server records it.
#[derive(Debug, Clone)]
pub struct PeerRecord {
    pub user_id: u128,
    pub username: String,
    pub role: NetRole,
}

/// Server state shared across the server's tasks
#[derive(Debug)]
pub struct ServerState {
    pub hall_id: u128,
    pub host_id: u128,
    pub token: String,
    /// Connected peers, the host first, in order of joining
    pub peers: Vec<PeerRecord>,
    pub epoch: u64,
    /// Next sequence number for messages
    pub next_sequence: u64,
    /// Recent message history for sync, oldest first
    pub message_history: Vec<NetMessage>,
}

/// A chat message as plain values.
pub open spec fn net_message_view(m: NetMessage) -> (
    u128,
    u128,
    u128,
    Seq<char>,
    NetRole,
    Seq<char>,
    Timestamp,
    u64,
) {
    (m.id, m.hall_id, m.sender_id, m.sender_username@, m.sender_role, m.content@, m.timestamp, m.sequence)
}

/// Two message lists hold the same messages in the same order.
pub open spec fn same_messages(a: Seq<NetMessage>, b: Seq<NetMessage>) -> bool {
    a.map_values(|m: NetMessage| net_message_view(m)) == b.map_values(|m: NetMessage| net_message_view(m))
}

/// A copy of a chat message.
pub fn copy_message(m: &NetMessage) -> (r: NetMessage)
    ensures
        net_message_view(r) == net_message_view(*m),
{
    NetMessage {
        id: m.id,
        hall_id: m.hall_id,
        sender_id: m.sender_id,
        sender_username: m.sender_username.clone(),
        sender_role: m.sender_role,
        content: m.content.clone(),
        timestamp: m.timestamp,
        sequence: m.sequence,
    }
}

/// Some peer has identifier `id`.
pub open spec fn has_peer(peers: Seq<PeerRecord>, id: u128) -> bool {
    exists|k: int| 0 <= k < peers.len() && (#[trigger] peers[k]).user_id == id
}

/// The messages of `h` numbered after `last`, in order.
pub open spec fn messages_after(h: Seq<NetMessage>, last: u64) -> Seq<NetMessage> {
    h.filter(|m: NetMessage| m.sequence > last)
}

/// The member list entry of a peer.
pub open spec fn member_of(p: PeerRecord, host_id: u128) -> (u128, Seq<char>, NetRole, bool) {
    (p.user_id, p.username@, p.role, p.user_id == host_id)
}

impl ServerState {
    /// The state invariant: peers have distinct identifiers and fit the
    /// limit; the history is bounded, numbered in increasing order, and
    /// below the next number to hand out.
    pub open spec fn wf(&self) -> bool {
        &&& self.peers.len() <= MAX_PEERS
        &&& forall|i: int, j: int|
            0 <= i < j < self.peers.len() ==> (#[trigger] self.peers@[i]).user_id != (
            #[trigger] self.peers@[j]).user_id
        &&& self.message_history.len() <= MAX_MESSAGE_HISTORY
        &&& forall|i: int, j: int|
            0 <= i < j < self.message_history.len() ==> (
            #[trigger] self.message_history@[i]).sequence < (
            #[trigger] self.message_history@[j]).sequence
        &&& forall|i: int|
            0 <= i < self.message_history.len() ==> (
            #[trigger] self.message_history@[i]).sequence < self.next_sequence
        &&& self.next_sequence >= 1
    }

    /// A new server for `hall_id`, its host the only peer.
    pub fn new(
        hall_id: u128,
        host_id: u128,
        host_username: String,
        host_role: NetRole,
        token: String,
    ) -> (s: Self)
        ensures
            s.wf(),
            s.hall_id == hall_id,
            s.host_id == host_id,
            s.token == token,
            s.peers@.len() == 1,
            s.peers@[0].user_id == host_id,
            s.peers@[0].username == host_username,
            s.peers@[0].role == host_role,
            s.epoch == 1,
            s.next_sequence == 1,
            s.message_history@.len() == 0,
    {
        let host = PeerRecord { user_id: host_id, username: host_username, role: host_role };
        ServerState {
            hall_id,
            host_id,
            token,
            peers: vec![host],
            epoch: 1,
            next_sequence: 1,
            message_history: Vec::new(),
        }
    }

    /// The current member list, the host flagged.
    pub fn member_list(&self) -> (r: Vec<PeerInfo>)
        ensures
            r.len() == self.peers.len(),
            forall|k: int|
                0 <= k < r.len() ==> crate::net::client::peer_view(#[trigger] r@[k]) == member_of(
                    self.peers@[k],
                    self.host_id,
                ),
    {
        let mut r: Vec<PeerInfo> = Vec::new();
        let mut i: usize = 0;
        while i < self.peers.len()
            invariant
                i <= self.peers.len(),
                r.len() == i,
                forall|k: int|
                    0 <= k < i ==> crate::net::client::peer_view(#[trigger] r@[k]) == member_of(
                        self.peers@[k],
                        self.host_id,
                    ),
            decreases self.peers.len() - i,
        {
            let p = &self.peers[i];
            r.push(
                PeerInfo {
                    user_id: p.user_id,
                    username: p.username.clone(),
                    role: p.role,
                    is_host: p.user_id == self.host_id,
                },
            );
            i = i + 1;
        }
        r
    }

    fn has_peer_id(&self, id: u128) -> (b: bool)
        ensures
            b == has_peer(self.peers@, id),
    {
        let mut i: usize = 0;
        while i < self.peers.len()
            invariant
                i <= self.peers.len(),
                forall|k: int| 0 <= k < i ==> (#[trigger] self.peers@[k]).user_id != id,
            decreases self.peers.len() - i,
        {
            if self.peers[i].user_id == id {
                assert(self.peers@[i as int].user_id == id);
                return true;
            }
            i = i + 1;
        }
        false
    }

    /// Answer a join request: the hall and token must match, there must be
    /// room, and the user must not be connected already; then the user
    /// becomes a peer. Checks come in that order.
    pub fn accept_join(&mut self, msg: Message) -> (r: Result<u128, Error>)
        requires
            old(self).wf(),
        ensures
            final(self).wf(),
            match msg {
                Message::JoinRequest { user_id, username, hall_id, token, role } => {
                    if hall_id != old(self).hall_id {
                        r matches Err(Error::Rejected(t)) && t@ == "Wrong hall"@
                    } else if token@ != old(self).token@ {
                        r matches Err(Error::Rejected(t)) && t@ == "Invalid token"@
                    } else if old(self).peers.len() >= MAX_PEERS {
                        r matches Err(Error::ServerFull)
                    } else if has_peer(old(self).peers@, user_id) {
                        r matches Err(Error::Rejected(t)) && t@ == "Already connected"@
                    } else {
                        &&& r == Ok::<u128, Error>(user_id)
                        &&& final(self).peers@ == old(self).peers@.push(
                            PeerRecord { user_id, username, role },
                        )
                    }
                },
                _ => r matches Err(Error::Protocol(t)) && t@ == "Expected JoinRequest"@,
            },
            r is Err ==> final(self).peers@ == old(self).peers@,
            final(self).hall_id == old(self).hall_id,
            final(self).host_id == old(self).host_id,
            final(self).token == old(self).token,
            final(self).epoch == old(self).epoch,
            final(self).next_sequence == old(self).next_sequence,
            final(self).message_history@ == old(self).message_history@,
    {
        match msg {
            Message::JoinRequest { user_id, username, hall_id, token, role } => {
                if hall_id != self.hall_id {
                    return Err(Error::Rejected(String::from_str("Wrong hall")));
                }
                if !str_equals(token.as_str(), self.token.as_str()) {
                    return Err(Error::Rejected(String::from_str("Invalid token")));
                }
                if self.peers.len() >= MAX_PEERS {
                    return Err(Error::ServerFull);
                }
                if self.has_peer_id(user_id) {
                    return Err(Error::Rejected(String::from_str("Already connected")));
                }
                let ghost before = self.peers@;
                self.peers.push(PeerRecord { user_id, username, role });
                proof {
                    assert forall|i: int, j: int|
                        0 <= i < j < self.peers.len() implies (#[trigger] self.peers@[i]).user_id != (
                        #[trigger] self.peers@[j]).user_id by {
                        if j == before.len() {
                            assert(self.peers@[i] == before[i]);
                        } else {
                            assert(self.peers@[i] == before[i]);
                            assert(self.peers@[j] == before[j]);
                        }
                    }
                }
                Ok(user_id)
            },
            _ => Err(Error::Protocol(String::from_str("Expected JoinRequest"))),
        }
    }

    /// A peer left; the remaining member list is returned for broadcast.
    pub fn remove_peer(&mut self, user_id: u128) -> (members: Vec<PeerInfo>)
        requires
            old(self).wf(),
        ensures
            final(self).wf(),
            final(self).peers@ == old(self).peers@.filter(|p: PeerRecord| p.user_id != user_id),
            !has_peer(final(self).peers@, user_id),
            members.len() == final(self).peers.len(),
            forall|k: int|
                0 <= k < members.len() ==> crate::net::client::peer_view(#[trigger] members@[k])
                    == member_of(final(self).peers@[k], final(self).host_id),
            final(self).hall_id == old(self).hall_id,
            final(self).host_id == old(self).host_id,
            final(self).token == old(self).token,
            final(self).epoch == old(self).epoch,
            final(self).next_sequence == old(self).next_sequence,
            final(self).message_history@ == old(self).message_history@,
    {
        let ghost orig = self.peers@;
        let ghost keep = |p: PeerRecord| p.user_id != user_id;
        let total = self.peers.len();
        let mut rest: Vec<PeerRecord> = Vec::new();
        std::mem::swap(&mut rest, &mut self.peers);
        let mut kept: Vec<PeerRecord> = Vec::new();
        assert(orig.take(0).filter(keep) =~= Seq::<PeerRecord>::empty()) by {
            reveal(Seq::filter);
        }
        while rest.len() > 0
            invariant
                orig.len() == total,
                rest.len() <= total,
                keep == (|p: PeerRecord| p.user_id != user_id),
                rest@ == orig.skip(total - rest.len()),
                kept@ == orig.take(total - rest.len()).filter(keep),
                forall|j: int| 0 <= j < kept.len() ==> (#[trigger] kept@[j]).user_id != user_id,
                forall|j: int| 0 <= j < kept.len() ==> orig.take(total - rest.len()).contains(#[trigger] kept@[j]),
            decreases rest.len(),
        {
            let ghost i = total - rest.len();
            let ghost kept_before = kept@;
            let p = rest.remove(0);
            assert(p == orig[i]);
            assert(rest@ =~= orig.skip(i + 1));
            assert(orig.take(i + 1).drop_last() =~= orig.take(i));
            assert(orig.take(i + 1).last() == orig[i]);
            if p.user_id != user_id {
                kept.push(p);
            }
            proof {
                reveal(Seq::filter);
                assert forall|j: int| 0 <= j < kept.len() implies orig.take(i + 1).contains(
                    #[trigger] kept@[j],
                ) by {
                    if j < kept_before.len() {
                        let m = choose|m: int| 0 <= m < orig.take(i).len() && orig.take(i)[m] == kept_before[j];
                        assert(orig.take(i + 1)[m] == kept@[j]);
                    } else {
                        assert(orig.take(i + 1)[i] == kept@[j]);
                    }
                }
            }
        }
        assert(orig.take(total as int) =~= orig);
        self.peers = kept;
        proof {
            orig.lemma_filter_len(keep);
            assert forall|i: int, j: int|
                0 <= i < j < self.peers.len() implies (#[trigger] self.peers@[i]).user_id != (
                #[trigger] self.peers@[j]).user_id by {
                lemma_filter_keeps_distinct(orig, keep, i, j);
            }
        }
        self.member_list()
    }

    /// Number a chat message, keep it in the history (dropping the oldest
    /// when full), and return it as it goes out to the peers.
    pub fn record_chat(&mut self, msg: NetMessage) -> (out: NetMessage)
        requires
            old(self).wf(),
            old(self).next_sequence < u64::MAX,
        ensures
            final(self).wf(),
            out.sequence == old(self).next_sequence,
            net_message_view(out) == (
                msg.id,
                msg.hall_id,
                msg.sender_id,
                msg.sender_username@,
                msg.sender_role,
                msg.content@,
                msg.timestamp,
                old(self).next_sequence,
            ),
            final(self).next_sequence == old(self).next_sequence + 1,
            same_messages(
                final(self).message_history@,
                (if old(self).message_history.len() >= MAX_MESSAGE_HISTORY {
                    old(self).message_history@.drop_first()
                } else {
                    old(self).message_history@
                }).push(out),
            ),
            final(self).peers@ == old(self).peers@,
            final(self).hall_id == old(self).hall_id,
            final(self).host_id == old(self).host_id,
            final(self).token == old(self).token,
            final(self).epoch == old(self).epoch,
    {
        let mut msg = msg;
        let seq = self.next_sequence;
        self.next_sequence = self.next_sequence + 1;
        msg.sequence = seq;
        let ghost h0 = self.message_history@;
        if self.message_history.len() >= MAX_MESSAGE_HISTORY {
            self.message_history.remove(0);
        }
        let ghost h1 = self.message_history@;
        assert(h1 == if h0.len() >= MAX_MESSAGE_HISTORY { h0.drop_first() } else { h0 });
        self.message_history.push(copy_message(&msg));
        proof {
            let h2 = self.message_history@;
            assert forall|i: int, j: int|
                0 <= i < j < h2.len() implies (#[trigger] h2[i]).sequence < (#[trigger] h2[j]).sequence by {
                if h0.len() >= MAX_MESSAGE_HISTORY {
                    if j < h1.len() {
                        assert(h2[i] == h0[i + 1] && h2[j] == h0[j + 1]);
                    } else {
                        assert(h2[i] == h0[i + 1]);
                    }
                } else {
                    if j < h1.len() {
                        assert(h2[i] == h0[i] && h2[j] == h0[j]);
                    } else {
                        assert(h2[i] == h0[i]);
                    }
                }
            }
            assert forall|i: int| 0 <= i < h2.len() implies (#[trigger] h2[i]).sequence < self.next_sequence by {
                if i < h1.len() {
                    if h0.len() >= MAX_MESSAGE_HISTORY {
                        assert(h2[i] == h0[i + 1]);
                    } else {
                        assert(h2[i] == h0[i]);
                    }
                }
            }
            assert(h2.map_values(|m: NetMessage| net_message_view(m)) =~= h1.push(msg).map_values(
                |m: NetMessage| net_message_view(m),
            ));
        }
        msg
    }

    /// Answer a sync request: the kept messages numbered after
    /// `last_sequence`, and the number of the first of them (or
    /// `last_sequence` when there are none). A request for another hall
    /// gets no answer.
    pub fn sync_since(&self, hall_id: u128, last_sequence: u64) -> (r: Option<Message>)
        ensures
            hall_id != self.hall_id ==> r is None,
            hall_id == self.hall_id ==> (r matches Some(
                Message::SyncBatch { hall_id: h, from_sequence, messages },
            ) && {
                let expected = messages_after(self.message_history@, last_sequence);
                &&& h == hall_id
                &&& same_messages(messages@, expected)
                &&& from_sequence == if expected.len() > 0 {
                    expected[0].sequence
                } else {
                    last_sequence
                }
            }),
    {
        if hall_id != self.hall_id {
            return None;
        }
        let ghost h = self.message_history@;
        let ghost after = |m: NetMessage| m.sequence > last_sequence;
        let mut out: Vec<NetMessage> = Vec::new();
        let mut i: usize = 0;
        assert(h.take(0).filter(after) =~= Seq::<NetMessage>::empty()) by {
            reveal(Seq::filter);
        }
        while i < self.message_history.len()
            invariant
                i <= self.message_history.len(),
                h == self.message_history@,
                after == (|m: NetMessage| m.sequence > last_sequence),
                same_messages(out@, h.take(i as int).filter(after)),
            decreases self.message_history.len() - i,
        {
            let ghost before = out@;
            assert(h.take(i + 1).drop_last() =~= h.take(i as int));
            assert(h.take(i + 1).last() == h[i as int]);
            if self.message_history[i].sequence > last_sequence {
                out.push(copy_message(&self.message_history[i]));
            }
            proof {
                reveal(Seq::filter);
                let f = |m: NetMessage| net_message_view(m);
                if h[i as int].sequence > last_sequence {
                    assert(out@.map_values(f) =~= before.map_values(f).push(f(h[i as int])));
                    assert(h.take(i + 1).filter(after).map_values(f) =~= h.take(i as int).filter(after).map_values(f).push(f(h[i as int])));
                } else {
                    assert(out@ == before);
                }
            }
            i = i + 1;
        }
        assert(h.take(h.len() as int) =~= h);
        let from_sequence = if out.len() > 0 {
            out[0].sequence
        } else {
            last_sequence
        };
        proof {
            let expected = messages_after(h, last_sequence);
            let f = |m: NetMessage| net_message_view(m);
            assert(expected.len() == out@.len()) by {
                assert(out@.map_values(f).len() == expected.map_values(f).len());
            }
            if out.len() > 0 {
                assert(out@.map_values(f)[0] == expected.map_values(f)[0]);
            }
        }
        Some(Message::SyncBatch { hall_id, from_sequence, messages: out })
    }

    /// The heartbeat the host sends every two seconds.
    pub fn heartbeat(&self, timestamp: Timestamp) -> (m: Message)
        ensures
            m == (Message::HostHeartbeat {
                hall_id: self.hall_id,
                epoch: self.epoch,
                host_user_id: self.host_id,
                timestamp,
            }),
    {
        Message::HostHeartbeat {
            hall_id: self.hall_id,
            epoch: self.epoch,
            host_user_id: self.host_id,
            timestamp,
        }
    }

    /// The peers a message goes to: all of them but `except`.
    pub fn recipients(&self, except: Option<u128>) -> (r: Vec<u128>)
        ensures
            r@ == self.peers@.filter(|p: PeerRecord| except != Some(p.user_id)).map_values(
                |p: PeerRecord| p.user_id,
            ),
    {
        let ghost ps = self.peers@;
        let ghost keep = |p: PeerRecord| except != Some(p.user_id);
        let ghost id_of = |p: PeerRecord| p.user_id;
        let mut r: Vec<u128> = Vec::new();
        let mut i: usize = 0;
        assert(ps.take(0).filter(keep) =~= Seq::<PeerRecord>::empty()) by {
            reveal(Seq::filter);
        }
        while i < self.peers.len()
            invariant
                i <= self.peers.len(),
                ps == self.peers@,
                keep == (|p: PeerRecord| except != Some(p.user_id)),
                id_of == (|p: PeerRecord| p.user_id),
                r@ == ps.take(i as int).filter(keep).map_values(id_of),
            decreases self.peers.len() - i,
        {
            assert(ps.take(i + 1).drop_last() =~= ps.take(i as int));
            assert(ps.take(i + 1).last() == ps[i as int]);
            if except != Some(self.peers[i].user_id) {
                r.push(self.peers[i].user_id);
            }
            proof {
                reveal(Seq::filter);
                assert(r@ =~= ps.take(i + 1).filter(keep).map_values(id_of));
            }
            i = i + 1;
        }
        assert(ps.take(ps.len() as int) =~= ps);
        r
    }

    /// Replace the invite token with a fresh random one, invalidating the
    /// old one; the new token is returned.
    pub fn regenerate_token(&mut self) -> (t: String)
        ensures
            final(self).token@ == t@,
            t@.len() == 16,
            final(self).peers@ == old(self).peers@,
            final(self).hall_id == old(self).hall_id,
            final(self).host_id == old(self).host_id,
            final(self).epoch == old(self).epoch,
            final(self).next_sequence == old(self).next_sequence,
            final(self).message_history@ == old(self).message_history@,
    {
        let t = generate_token();
        self.token = t.clone();
        t
    }
}

proof fn lemma_filter_keeps_distinct(s: Seq<PeerRecord>, keep: spec_fn(PeerRecord) -> bool, i: int, j: int)
    requires
        forall|a: int, b: int| 0 <= a < b < s.len() ==> (#[trigger] s[a]).user_id != (#[trigger] s[b]).user_id,
        0 <= i < j < s.filter(keep).len(),
    ensures
        s.filter(keep)[i].user_id != s.filter(keep)[j].user_id,
    decreases s.len(),
{
    reveal(Seq::filter);
    let f = s.filter(keep);
    let d = s.drop_last();
    let fd = d.filter(keep);
    assert forall|a: int, b: int| 0 <= a < b < d.len() implies (#[trigger] d[a]).user_id != (#[trigger] d[b]).user_id by {
        assert(d[a] == s[a] && d[b] == s[b]);
    }
    if keep(s.last()) {
        if j < fd.len() {
            lemma_filter_keeps_distinct(d, keep, i, j);
        } else {
            // f[j] is the last element of s; f[i] comes from d
            d.lemma_filter_len(keep);
            assert(f[i] == fd[i]);
            lemma_filter_member(d, keep, i);
            let k = choose|k: int| 0 <= k < d.len() && d[k] == fd[i];
            assert(s[k] == d[k]);
            assert(f[j] == s[s.len() - 1]);
        }
    } else {
        lemma_filter_keeps_distinct(d, keep, i, j);
    }
}

proof fn lemma_filter_member(s: Seq<PeerRecord>, keep: spec_fn(PeerRecord) -> bool, i: int)
    requires
        0 <= i < s.filter(keep).len(),
    ensures
        exists|k: int| 0 <= k < s.len() && s[k] == s.filter(keep)[i],
    decreases s.len(),
{
    reveal(Seq::filter);
    let d = s.drop_last();
    if keep(s.last()) && i == d.filter(keep).len() {
        assert(s[s.len() - 1] == s.filter(keep)[i]);
    } else {
        lemma_filter_member(d, keep, i);
        let k = choose|k: int| 0 <= k < d.len() && d[k] == d.filter(keep)[i];
        assert(s[k] == s.filter(keep)[i]);
    }
}

/// The 16-character invite token cut from an identifier: its first 16
/// hexadecimal digits (the hyphenated text without its hyphens, cut short).
pub open spec fn token_text(id: u128) -> Seq<char> {
    Seq::new(16, |i: int| hex_lower(nibble(id, i)))
}

/// The invite token for an identifier: its text without hyphens, cut to 16
/// characters.
pub fn token_from_id(id: u128) -> (t: String)
    ensures
        t@ == token_text(id),
{
    let text = crate::ids::id_to_string(id);
    let chars = crate::text::chars_of(text.as_str());
    let mut t = String::new();
    let mut i: usize = 0;
    let mut n: usize = 0;
    while n < 16
        invariant
            chars@ == uuid_text(id),
            chars.len() == 36,
            n <= 16,
            i == if n <= 8 {
                n as int
            } else if n <= 12 {
                n + 1
            } else {
                n + 2
            },
            t@ == token_text(id).subrange(0, n as int),
        decreases 16 - n,
    {
        if chars[i] == '-' {
            i = i + 1;
        }
        assert(chars@[i as int] == hex_lower(nibble(id, n as int)));
        crate::text::push_char(&mut t, chars[i]);
        assert(t@ =~= token_text(id).subrange(0, n + 1));
        i = i + 1;
        n = n + 1;
    }
    assert(token_text(id).subrange(0, 16) =~= token_text(id));
    t
}

/// Generate a random token for invites: 16 random hexadecimal digits.
pub fn generate_token() -> (t: String)
    ensures
        t@.len() == 16,
{
    token_from_id(new_id())
}


/// A chat message the host has just numbered is handed to every peer that
/// synchronises from an earlier number: it comes last in the batch, after
/// the batch that the history gave before.
pub proof fn lemma_recorded_message_synced(history: Seq<NetMessage>, out: NetMessage, last: u64)
    requires
        out.sequence > last,
    ensures
        messages_after(history.push(out), last) == messages_after(history, last).push(out),
{
    reveal(Seq::filter);
    assert(history.push(out).drop_last() =~= history);
}

} // verus!
