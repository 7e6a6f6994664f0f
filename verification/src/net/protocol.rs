//! Network protocol message types.

use vstd::prelude::*;
use crate::time::Timestamp;

verus! {

/// Role transmitted over the network (mirrors HallRole but decoupled),
/// declared from lowest to highest.
#[derive(Debug, Clone, Copy, PartialEq, Eq, Structural, PartialOrd, Ord)]
pub enum NetRole {
    Fellow,
    Agent,
    Moderator,
    Prefect,
    Builder,
}

/// The numeric value of a network role: 1 (Fellow) up to 5 (Builder).
pub open spec fn net_role_value(r: NetRole) -> u8 {
    match r {
        NetRole::Fellow => 1,
        NetRole::Agent => 2,
        NetRole::Moderator => 3,
        NetRole::Prefect => 4,
        NetRole::Builder => 5,
    }
}

/// The network role of a value; values outside 2..=5 read as Fellow.
pub open spec fn net_role_of_value(v: u8) -> NetRole {
    if v == 5 {
        NetRole::Builder
    } else if v == 4 {
        NetRole::Prefect
    } else if v == 3 {
        NetRole::Moderator
    } else if v == 2 {
        NetRole::Agent
    } else {
        NetRole::Fellow
    }
}

impl NetRole {
    pub fn hosting_priority(self) -> (p: u8)
        ensures
            p == net_role_value(self),
    {
        self.to_value()
    }

    /// Agents and above may host.
    pub fn can_host(self) -> (b: bool)
        ensures
            b == (net_role_value(self) >= 2),
            b == (self != NetRole::Fellow),
    {
        self.to_value() >= 2
    }

    /// Convert from a role value (matches HallRole values)
    pub fn from_value(v: u8) -> (r: Self)
        ensures
            r == net_role_of_value(v),
    {
        match v {
            5 => NetRole::Builder,
            4 => NetRole::Prefect,
            3 => NetRole::Moderator,
            2 => NetRole::Agent,
            _ => NetRole::Fellow,
        }
    }

    /// Convert to a role value (matches HallRole values)
    pub fn to_value(self) -> (v: u8)
        ensures
            v == net_role_value(self),
    {
        match self {
            NetRole::Fellow => 1,
            NetRole::Agent => 2,
            NetRole::Moderator => 3,
            NetRole::Prefect => 4,
            NetRole::Builder => 5,
        }
    }
}

/// A role survives being sent as its value; and every value from 1 to 5 is a
/// role's value. Hall roles and network roles share the values.
pub proof fn lemma_net_role_value_roundtrip(r: NetRole, v: u8, h: crate::roles::HallRole)
    ensures
        net_role_of_value(net_role_value(r)) == r,
        1 <= v <= 5 ==> net_role_value(net_role_of_value(v)) == v,
        net_role_value(net_role_of_value(crate::roles::role_value(h))) == crate::roles::role_value(h),
{
}

/// The display name of a network role.
pub fn net_role_display(role: NetRole) -> (s: &'static str)
    ensures
        s@ == match role {
            NetRole::Builder => "Builder"@,
            NetRole::Prefect => "Prefect"@,
            NetRole::Moderator => "Moderator"@,
            NetRole::Agent => "Agent"@,
            NetRole::Fellow => "Fellow"@,
        },
{
    match role {
        NetRole::Builder => "Builder",
        NetRole::Prefect => "Prefect",
        NetRole::Moderator => "Moderator",
        NetRole::Agent => "Agent",
        NetRole::Fellow => "Fellow",
    }
}

/// Information about a connected peer
#[derive(Debug, Clone)]
pub struct PeerInfo {
    pub user_id: u128,
    pub username: String,
    pub role: NetRole,
    pub is_host: bool,
}

/// A chat message transmitted over the network
#[derive(Debug, Clone)]
pub struct NetMessage {
    pub id: u128,
    pub hall_id: u128,
    pub sender_id: u128,
    pub sender_username: String,
    pub sender_role: NetRole,
    pub content: String,
    pub timestamp: Timestamp,
    /// Sequence number assigned by host for ordering
    pub sequence: u64,
}

/// Network protocol messages
#[derive(Debug, Clone)]
pub enum Message {
    /// Client requests to join a hall
    JoinRequest { user_id: u128, username: String, hall_id: u128, token: String, role: NetRole },
    /// Server accepts join request
    JoinAccepted { hall_id: u128, host_id: u128, members: Vec<PeerInfo>, epoch: u64 },
    /// Server rejects join request
    JoinRejected { reason: String },
    /// A peer has left the hall
    PeerLeft { user_id: u128 },
    /// Chat message from a peer
    Chat(NetMessage),
    /// Updated member list (broadcast on join/leave)
    MemberList { members: Vec<PeerInfo> },
    /// Host has changed
    HostChanged { new_host_id: u128 },
    /// Ping to keep connection alive
    Ping,
    /// Pong response to ping
    Pong,
    /// Server is shutting down
    ServerShutdown,
    /// Host heartbeat (sent every 2s)
    HostHeartbeat { hall_id: u128, epoch: u64, host_user_id: u128, timestamp: Timestamp },
    /// Election has started (host may be dead)
    HostElectionStarted { hall_id: u128, epoch: u64 },
    /// New host elected
    HostElected {
        hall_id: u128,
        epoch: u64,
        host_user_id: u128,
        host_addr: String,
        host_port: u16,
    },
    /// Request messages since a sequence number (for sync on reconnect)
    SyncSince { hall_id: u128, last_sequence: u64 },
    /// Batch of messages in response to SyncSince
    SyncBatch { hall_id: u128, from_sequence: u64, messages: Vec<NetMessage> },
    /// The host received a chat message
    MessageAck { message_id: u128 },
}

} // verus!
