//! The client side of a hall connection: how each message from the host
//! changes what the client knows, and which events the app hears of.
//!
//! Time is counted in nanoseconds on the connection's monotonic clock; the
//! connection task reads the clock and hands the reading in.

use vstd::prelude::*;
use crate::net::protocol::{Message, NetMessage, PeerInfo};

verus! {

/// Host is considered dead if no heartbeat for this many milliseconds
pub const HOST_DEAD_TIMEOUT_MS: u64 = 6000;

/// Connection state
#[derive(Debug, Clone, Copy, PartialEq, Eq, Structural)]
pub enum ConnectionState {
    Disconnected,
    Connecting,
    Connected,
}

/// Event received from the server
#[derive(Debug, Clone)]
pub enum ServerEvent {
    /// Successfully joined the hall
    Joined { host_id: u128, members: Vec<PeerInfo>, epoch: u64 },
    /// Join was rejected
    JoinRejected { reason: String },
    /// A chat message was received
    Chat(NetMessage),
    /// Member list updated
    MemberListUpdated { members: Vec<PeerInfo> },
    /// A peer left
    PeerLeft { user_id: u128 },
    /// Host changed
    HostChanged { new_host_id: u128 },
    /// Connection lost
    Disconnected,
    /// Server is shutting down
    ServerShutdown,
    /// Host is dead (no heartbeat for 6s)
    HostDead { hall_id: u128, last_epoch: u64, members: Vec<PeerInfo> },
    /// New host elected - reconnect to this address
    HostElected { hall_id: u128, epoch: u64, host_user_id: u128, host_addr: String, host_port: u16 },
    /// Batch of messages received after sync request
    SyncBatch { hall_id: u128, from_sequence: u64, messages: Vec<NetMessage> },
    /// Message was acknowledged by host
    MessageAcked { message_id: u128 },
}

/// A peer as plain values: identifier, name, role and host flag.
pub open spec fn peer_view(p: PeerInfo) -> (u128, Seq<char>, crate::net::protocol::NetRole, bool) {
    (p.user_id, p.username@, p.role, p.is_host)
}

/// Two member lists hold the same peers in the same order.
pub open spec fn same_peers(a: Seq<PeerInfo>, b: Seq<PeerInfo>) -> bool {
    a.map_values(|p: PeerInfo| peer_view(p)) == b.map_values(|p: PeerInfo| peer_view(p))
}

/// A copy of a peer.
pub fn copy_peer(p: &PeerInfo) -> (r: PeerInfo)
    ensures
        peer_view(r) == peer_view(*p),
{
    PeerInfo { user_id: p.user_id, username: p.username.clone(), role: p.role, is_host: p.is_host }
}

/// A copy of a member list.
pub fn copy_peers(v: &Vec<PeerInfo>) -> (r: Vec<PeerInfo>)
    ensures
        same_peers(r@, v@),
{
    let mut r: Vec<PeerInfo> = Vec::new();
    let mut i: usize = 0;
    while i < v.len()
        invariant
            i <= v.len(),
            r.len() == i,
            forall|j: int| 0 <= j < i ==> peer_view(#[trigger] r@[j]) == peer_view(v@[j]),
        decreases v.len() - i,
    {
        r.push(copy_peer(&v[i]));
        i = i + 1;
    }
    assert(r@.map_values(|p: PeerInfo| peer_view(p)) =~= v@.map_values(|p: PeerInfo| peer_view(p)));
    r
}

/// The position of the first host among the members, if any.
pub open spec fn first_host(members: Seq<PeerInfo>, k: int) -> bool {
    &&& 0 <= k < members.len()
    &&& members[k].is_host
    &&& forall|j: int| 0 <= j < k ==> !(#[trigger] members[j]).is_host
}

fn find_host(members: &Vec<PeerInfo>) -> (r: Option<usize>)
    ensures
        match r {
            Some(k) => first_host(members@, k as int),
            None => forall|j: int| 0 <= j < members.len() ==> !(#[trigger] members@[j]).is_host,
        },
{
    let mut i: usize = 0;
    while i < members.len()
        invariant
            i <= members.len(),
            forall|j: int| 0 <= j < i ==> !(#[trigger] members@[j]).is_host,
        decreases members.len() - i,
    {
        if members[i].is_host {
            return Some(i);
        }
        i = i + 1;
    }
    None
}

/// What the client knows of its connection.
#[derive(Debug)]
pub struct ClientState {
    pub connection: ConnectionState,
    pub hall_id: Option<u128>,
    pub host_id: Option<u128>,
    pub members: Vec<PeerInfo>,
    /// Highest election epoch seen
    pub epoch: u64,
    /// When the host was last heard from (nanoseconds on the connection's clock)
    pub last_heartbeat: u128,
    /// Whether the host has been reported dead
    pub host_dead_emitted: bool,
}

/// What the host's answer to a join request leads to.
#[derive(Debug)]
pub struct JoinOutcome {
    /// The event for the app, if any
    pub event: Option<ServerEvent>,
    /// Whether the connection carries on
    pub proceed: bool,
}

impl ClientState {
    /// The state right after the join request went out at `now`.
    pub fn new(hall_id: u128, now: u128) -> (s: Self)
        ensures
            s.connection == ConnectionState::Connecting,
            s.hall_id == Some(hall_id),
            s.host_id is None,
            s.members@.len() == 0,
            s.epoch == 0,
            s.last_heartbeat == now,
            !s.host_dead_emitted,
    {
        ClientState {
            connection: ConnectionState::Connecting,
            hall_id: Some(hall_id),
            host_id: None,
            members: Vec::new(),
            epoch: 0,
            last_heartbeat: now,
            host_dead_emitted: false,
        }
    }

    /// The host's first message, read at `now`. An acceptance, or a member
    /// list taken as one, connects; a refusal or anything else ends the
    /// connection.
    pub fn on_join_response(&mut self, msg: Message, now: u128) -> (r: JoinOutcome)
        ensures
            final(self).hall_id == old(self).hall_id,
            final(self).host_dead_emitted == old(self).host_dead_emitted,
            match msg {
                Message::JoinAccepted { hall_id: _, host_id, members, epoch } => {
                    &&& r.proceed
                    &&& final(self).connection == ConnectionState::Connected
                    &&& final(self).host_id == Some(host_id)
                    &&& same_peers(final(self).members@, members@)
                    &&& final(self).epoch == epoch
                    &&& final(self).last_heartbeat == now
                    &&& r.event matches Some(ServerEvent::Joined { host_id: h, members: m, epoch: e })
                        && h == host_id && m == members && e == epoch
                },
                Message::JoinRejected { reason } => {
                    &&& !r.proceed
                    &&& final(self).connection == ConnectionState::Disconnected
                    &&& final(self).host_id == old(self).host_id
                    &&& final(self).epoch == old(self).epoch
                    &&& r.event == Some(ServerEvent::JoinRejected { reason })
                },
                Message::MemberList { members } => {
                    &&& r.proceed
                    &&& final(self).connection == ConnectionState::Connected
                    &&& final(self).host_id == old(self).host_id
                    &&& same_peers(final(self).members@, members@)
                    &&& final(self).epoch == old(self).epoch
                    &&& final(self).last_heartbeat == now
                    &&& r.event matches Some(ServerEvent::Joined { host_id: h, members: m, epoch: e })
                        && m == members && e == 1 && (if exists|k: int|
                        0 <= k < members.len() && (#[trigger] members@[k]).is_host {
                        exists|k: int| first_host(members@, k) && h == members@[k].user_id
                    } else {
                        h == 0
                    })
                },
                _ => {
                    &&& !r.proceed
                    &&& final(self).connection == ConnectionState::Disconnected
                    &&& final(self).host_id == old(self).host_id
                    &&& final(self).epoch == old(self).epoch
                    &&& r.event is None
                },
            },
    {
        match msg {
            Message::JoinAccepted { hall_id: _, host_id, members, epoch } => {
                self.connection = ConnectionState::Connected;
                self.host_id = Some(host_id);
                self.members = copy_peers(&members);
                self.epoch = epoch;
                self.last_heartbeat = now;
                JoinOutcome { event: Some(ServerEvent::Joined { host_id, members, epoch }), proceed: true }
            },
            Message::JoinRejected { reason } => {
                self.connection = ConnectionState::Disconnected;
                JoinOutcome { event: Some(ServerEvent::JoinRejected { reason }), proceed: false }
            },
            Message::MemberList { members } => {
                self.connection = ConnectionState::Connected;
                self.members = copy_peers(&members);
                self.last_heartbeat = now;
                let host_id = match find_host(&members) {
                    Some(k) => members[k].user_id,
                    None => 0,
                };
                JoinOutcome {
                    event: Some(ServerEvent::Joined { host_id, members, epoch: 1 }),
                    proceed: true,
                }
            },
            _ => {
                self.connection = ConnectionState::Disconnected;
                JoinOutcome { event: None, proceed: false }
            },
        }
    }

    /// The join answer could not be read.
    pub fn on_join_failed(&mut self)
        ensures
            final(self).connection == ConnectionState::Disconnected,
            final(self).hall_id == old(self).hall_id,
            final(self).host_id == old(self).host_id,
            final(self).epoch == old(self).epoch,
    {
        self.connection = ConnectionState::Disconnected;
    }

    /// A message from the host, read at `now`. Heartbeats of the current or
    /// a later epoch refresh the host's liveness; elections of an epoch not
    /// above the current one are stale and ignored.
    pub fn on_message(&mut self, msg: Message, now: u128) -> (event: Option<ServerEvent>)
        ensures
            final(self).epoch >= old(self).epoch,
            final(self).connection == old(self).connection,
            final(self).hall_id == old(self).hall_id,
            final(self).host_dead_emitted == old(self).host_dead_emitted,
            !(msg is MemberList) ==> final(self).members == old(self).members,
            !(msg is HostHeartbeat) ==> final(self).last_heartbeat == old(self).last_heartbeat,
            match msg {
                Message::Chat(m) => {
                    &&& event == Some(ServerEvent::Chat(m))
                    &&& final(self).host_id == old(self).host_id
                    &&& final(self).epoch == old(self).epoch
                },
                Message::MemberList { members } => {
                    &&& event == Some(ServerEvent::MemberListUpdated { members })
                    &&& same_peers(final(self).members@, members@)
                    &&& (if exists|k: int| 0 <= k < members.len() && (#[trigger] members@[k]).is_host {
                        exists|k: int| first_host(members@, k) && final(self).host_id == Some(members@[k].user_id)
                    } else {
                        final(self).host_id == old(self).host_id
                    })
                    &&& final(self).epoch == old(self).epoch
                },
                Message::PeerLeft { user_id } => {
                    &&& event == Some(ServerEvent::PeerLeft { user_id })
                    &&& final(self).host_id == old(self).host_id
                    &&& final(self).epoch == old(self).epoch
                },
                Message::HostChanged { new_host_id } => {
                    &&& event == Some(ServerEvent::HostChanged { new_host_id })
                    &&& final(self).host_id == Some(new_host_id)
                    &&& final(self).epoch == old(self).epoch
                },
                Message::ServerShutdown => {
                    &&& event == Some(ServerEvent::ServerShutdown)
                    &&& final(self).host_id == old(self).host_id
                    &&& final(self).epoch == old(self).epoch
                },
                Message::HostHeartbeat { hall_id: _, epoch, host_user_id: _, timestamp: _ } => {
                    &&& event is None
                    &&& final(self).host_id == old(self).host_id
                    &&& if epoch >= old(self).epoch {
                        final(self).epoch == epoch && final(self).last_heartbeat == now
                    } else {
                        final(self).epoch == old(self).epoch && final(self).last_heartbeat
                            == old(self).last_heartbeat
                    }
                },
                Message::HostElected { hall_id, epoch, host_user_id, host_addr, host_port } => {
                    &&& final(self).host_id == old(self).host_id
                    &&& if epoch <= old(self).epoch {
                        event is None && final(self).epoch == old(self).epoch
                    } else {
                        &&& final(self).epoch == epoch
                        &&& event == Some(
                            ServerEvent::HostElected { hall_id, epoch, host_user_id, host_addr, host_port },
                        )
                    }
                },
                Message::SyncBatch { hall_id, from_sequence, messages } => {
                    &&& event == Some(ServerEvent::SyncBatch { hall_id, from_sequence, messages })
                    &&& final(self).host_id == old(self).host_id
                    &&& final(self).epoch == old(self).epoch
                },
                Message::MessageAck { message_id } => {
                    &&& event == Some(ServerEvent::MessageAcked { message_id })
                    &&& final(self).host_id == old(self).host_id
                    &&& final(self).epoch == old(self).epoch
                },
                _ => {
                    &&& event is None
                    &&& final(self).host_id == old(self).host_id
                    &&& final(self).epoch == old(self).epoch
                },
            },
    {
        match msg {
            Message::Chat(m) => Some(ServerEvent::Chat(m)),
            Message::MemberList { members } => {
                self.members = copy_peers(&members);
                match find_host(&members) {
                    Some(k) => {
                        self.host_id = Some(members[k].user_id);
                    },
                    None => {},
                }
                Some(ServerEvent::MemberListUpdated { members })
            },
            Message::PeerLeft { user_id } => Some(ServerEvent::PeerLeft { user_id }),
            Message::HostChanged { new_host_id } => {
                self.host_id = Some(new_host_id);
                Some(ServerEvent::HostChanged { new_host_id })
            },
            Message::ServerShutdown => Some(ServerEvent::ServerShutdown),
            Message::HostHeartbeat { hall_id: _, epoch, host_user_id: _, timestamp: _ } => {
                if epoch >= self.epoch {
                    self.epoch = epoch;
                    self.last_heartbeat = now;
                }
                None
            },
            Message::HostElected { hall_id, epoch, host_user_id, host_addr, host_port } => {
                if epoch <= self.epoch {
                    None
                } else {
                    self.epoch = epoch;
                    Some(ServerEvent::HostElected { hall_id, epoch, host_user_id, host_addr, host_port })
                }
            },
            Message::SyncBatch { hall_id, from_sequence, messages } => Some(
                ServerEvent::SyncBatch { hall_id, from_sequence, messages },
            ),
            Message::MessageAck { message_id } => Some(ServerEvent::MessageAcked { message_id }),
            _ => None,
        }
    }

    /// The heartbeat watchdog at `now`: once more than six seconds pass
    /// without a heartbeat the host is reported dead, a single time.
    pub fn check_heartbeat(&mut self, now: u128) -> (event: Option<ServerEvent>)
        ensures
            ({
                let overdue = now >= old(self).last_heartbeat && (now - old(self).last_heartbeat)
                    / 1_000_000 > HOST_DEAD_TIMEOUT_MS;
                &&& final(self).host_dead_emitted == (old(self).host_dead_emitted || overdue)
                &&& match event {
                    Some(ServerEvent::HostDead { hall_id, last_epoch, members }) => {
                        &&& overdue && !old(self).host_dead_emitted
                        &&& old(self).hall_id == Some(hall_id)
                        &&& last_epoch == old(self).epoch
                        &&& same_peers(members@, old(self).members@)
                    },
                    Some(_) => false,
                    None => !(overdue && !old(self).host_dead_emitted && old(self).hall_id is Some),
                }
            }),
            final(self).connection == old(self).connection,
            final(self).hall_id == old(self).hall_id,
            final(self).host_id == old(self).host_id,
            final(self).epoch == old(self).epoch,
            final(self).last_heartbeat == old(self).last_heartbeat,
            final(self).members == old(self).members,
    {
        let elapsed_ms: u128 = if now >= self.last_heartbeat {
            (now - self.last_heartbeat) / 1_000_000
        } else {
            0
        };
        if elapsed_ms > HOST_DEAD_TIMEOUT_MS as u128 && !self.host_dead_emitted {
            self.host_dead_emitted = true;
            match self.hall_id {
                Some(hall_id) => Some(
                    ServerEvent::HostDead {
                        hall_id,
                        last_epoch: self.epoch,
                        members: copy_peers(&self.members),
                    },
                ),
                None => None,
            }
        } else {
            None
        }
    }

    /// The connection ended.
    pub fn on_closed(&mut self) -> (event: ServerEvent)
        ensures
            event == ServerEvent::Disconnected,
            final(self).connection == ConnectionState::Disconnected,
            final(self).hall_id == old(self).hall_id,
            final(self).host_id == old(self).host_id,
            final(self).epoch == old(self).epoch,
    {
        self.connection = ConnectionState::Disconnected;
        ServerEvent::Disconnected
    }
}

} // verus!
