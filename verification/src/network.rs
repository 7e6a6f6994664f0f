//! The app's network session: what each outcome of hosting, connecting and
//! the client's events does to the session state, and which events reach the
//! user interface.

use vstd::prelude::*;
use crate::net::client::ServerEvent;
use crate::models::Message;
use crate::net::protocol::{net_role_of_value, NetMessage, NetRole, PeerInfo};
use crate::net::server::net_message_view;
use crate::roles::{role_value, HallRole};
use crate::state::SessionMemory;

verus! {

/// Network connection state
#[derive(Debug, Clone, Copy, PartialEq, Eq, Structural)]
pub enum NetworkState {
    /// Not connected to any network
    Offline,
    /// Hosting a hall server
    Hosting,
    /// Connected to a remote host
    Connected,
    /// Attempting to connect
    Connecting,
}

/// Events from the network layer to the UI
#[derive(Debug, Clone)]
pub enum NetworkEvent {
    /// Connection state changed
    StateChanged(NetworkState),
    /// Received a chat message
    ChatReceived(NetMessage),
    /// Member list updated
    MembersUpdated(Vec<PeerInfo>),
    /// Connection failed
    ConnectionFailed(String),
    /// Disconnected
    Disconnected,
    /// Host disconnected - client may need to take over
    HostDisconnected { hall_id: u128, was_host: bool },
    /// Host changed to a new user
    HostChanged { new_host_id: u128 },
}

/// What the network task knows of the session (the running server and the
/// client connection themselves are held beside it).
#[derive(Debug)]
pub struct SessionState {
    pub network_state: NetworkState,
    pub invite_url: Option<String>,
    pub hall_id: Option<u128>,
    pub host_id: Option<u128>,
    /// Current user's info for potential host takeover
    pub user_id: Option<u128>,
    pub user_role: Option<NetRole>,
}

/// The event list `[ConnectionFailed(text), StateChanged(Offline)]`.
pub open spec fn failed_then_offline(events: Seq<NetworkEvent>, text: Seq<char>) -> bool {
    &&& events.len() == 2
    &&& events[0] matches NetworkEvent::ConnectionFailed(t) && t@ == text
    &&& events[1] == NetworkEvent::StateChanged(NetworkState::Offline)
}

impl SessionState {
    pub fn new() -> (s: Self)
        ensures
            s.network_state == NetworkState::Offline,
            s.invite_url is None,
            s.hall_id is None,
            s.host_id is None,
            s.user_id is None,
            s.user_role is None,
    {
        SessionState {
            network_state: NetworkState::Offline,
            invite_url: None,
            hall_id: None,
            host_id: None,
            user_id: None,
            user_role: None,
        }
    }

    /// The server started: the session hosts `hall_id` as `host_id`.
    pub fn hosting_started(
        &mut self,
        hall_id: u128,
        host_id: u128,
        host_role: NetRole,
        invite_url: String,
    ) -> (events: Vec<NetworkEvent>)
        ensures
            final(self).network_state == NetworkState::Hosting,
            final(self).invite_url == Some(invite_url),
            final(self).hall_id == Some(hall_id),
            final(self).host_id == Some(host_id),
            final(self).user_id == Some(host_id),
            final(self).user_role == Some(host_role),
            events@ == seq![NetworkEvent::StateChanged(NetworkState::Hosting)],
    {
        self.network_state = NetworkState::Hosting;
        self.invite_url = Some(invite_url);
        self.hall_id = Some(hall_id);
        self.host_id = Some(host_id);
        self.user_id = Some(host_id);
        self.user_role = Some(host_role);
        vec![NetworkEvent::StateChanged(NetworkState::Hosting)]
    }

    /// A connection attempt begins.
    pub fn connect_started(&mut self) -> (events: Vec<NetworkEvent>)
        ensures
            final(self).network_state == NetworkState::Connecting,
            final(self).invite_url == old(self).invite_url,
            final(self).hall_id == old(self).hall_id,
            final(self).host_id == old(self).host_id,
            final(self).user_id == old(self).user_id,
            final(self).user_role == old(self).user_role,
            events@ == seq![NetworkEvent::StateChanged(NetworkState::Connecting)],
    {
        self.network_state = NetworkState::Connecting;
        vec![NetworkEvent::StateChanged(NetworkState::Connecting)]
    }

    /// The invite could not be read; `error` says why.
    pub fn invite_invalid(&mut self, error: &str) -> (events: Vec<NetworkEvent>)
        ensures
            final(self).network_state == NetworkState::Offline,
            final(self).invite_url == old(self).invite_url,
            final(self).hall_id == old(self).hall_id,
            final(self).host_id == old(self).host_id,
            final(self).user_id == old(self).user_id,
            final(self).user_role == old(self).user_role,
            failed_then_offline(events@, "Invalid invite: "@ + error@),
    {
        self.network_state = NetworkState::Offline;
        let mut text = String::from_str("Invalid invite: ");
        text.append(error);
        vec![NetworkEvent::ConnectionFailed(text), NetworkEvent::StateChanged(NetworkState::Offline)]
    }

    /// The client connected to the hall `hall_id`.
    pub fn connected(&mut self, hall_id: u128, user_id: u128, role: NetRole) -> (events: Vec<
        NetworkEvent,
    >)
        ensures
            final(self).network_state == NetworkState::Connected,
            final(self).hall_id == Some(hall_id),
            final(self).user_id == Some(user_id),
            final(self).user_role == Some(role),
            final(self).invite_url == old(self).invite_url,
            final(self).host_id == old(self).host_id,
            events@ == seq![NetworkEvent::StateChanged(NetworkState::Connected)],
    {
        self.network_state = NetworkState::Connected;
        self.hall_id = Some(hall_id);
        self.user_id = Some(user_id);
        self.user_role = Some(role);
        vec![NetworkEvent::StateChanged(NetworkState::Connected)]
    }

    /// Connecting failed; `error` says why.
    pub fn connect_failed(&mut self, error: &str) -> (events: Vec<NetworkEvent>)
        ensures
            final(self).network_state == NetworkState::Offline,
            final(self).invite_url == old(self).invite_url,
            final(self).hall_id == old(self).hall_id,
            final(self).host_id == old(self).host_id,
            final(self).user_id == old(self).user_id,
            final(self).user_role == old(self).user_role,
            failed_then_offline(events@, "Connection failed: "@ + error@),
    {
        self.network_state = NetworkState::Offline;
        let mut text = String::from_str("Connection failed: ");
        text.append(error);
        vec![NetworkEvent::ConnectionFailed(text), NetworkEvent::StateChanged(NetworkState::Offline)]
    }

    /// The user disconnected: hosting stops and the hall is forgotten.
    pub fn disconnect(&mut self) -> (events: Vec<NetworkEvent>)
        ensures
            final(self).network_state == NetworkState::Offline,
            final(self).invite_url is None,
            final(self).hall_id is None,
            final(self).host_id is None,
            final(self).user_id == old(self).user_id,
            final(self).user_role == old(self).user_role,
            events@ == seq![NetworkEvent::StateChanged(NetworkState::Offline)],
    {
        self.network_state = NetworkState::Offline;
        self.invite_url = None;
        self.hall_id = None;
        self.host_id = None;
        vec![NetworkEvent::StateChanged(NetworkState::Offline)]
    }

    /// The client's event stream ended.
    pub fn client_gone(&mut self) -> (events: Vec<NetworkEvent>)
        ensures
            final(self).network_state == NetworkState::Offline,
            final(self).invite_url == old(self).invite_url,
            final(self).hall_id == old(self).hall_id,
            final(self).host_id == old(self).host_id,
            final(self).user_id == old(self).user_id,
            final(self).user_role == old(self).user_role,
            events@ == seq![
                NetworkEvent::Disconnected,
                NetworkEvent::StateChanged(NetworkState::Offline),
            ],
    {
        self.network_state = NetworkState::Offline;
        vec![NetworkEvent::Disconnected, NetworkEvent::StateChanged(NetworkState::Offline)]
    }

    /// An event from the client connection: the session follows the host and
    /// the connection, and the UI hears of members, chat and host changes.
    /// Events the UI has no use for (peers leaving, watchdog, elections,
    /// synchronisation, acknowledgements) change nothing.
    pub fn client_event(&mut self, event: ServerEvent) -> (events: Vec<NetworkEvent>)
        ensures
            final(self).invite_url == old(self).invite_url,
            final(self).hall_id == old(self).hall_id,
            final(self).user_id == old(self).user_id,
            final(self).user_role == old(self).user_role,
            match event {
                ServerEvent::Joined { host_id, members, epoch: _ } => {
                    &&& final(self).host_id == Some(host_id)
                    &&& final(self).network_state == old(self).network_state
                    &&& events@ == seq![NetworkEvent::MembersUpdated(members)]
                },
                ServerEvent::JoinRejected { reason } => {
                    &&& final(self).host_id == old(self).host_id
                    &&& final(self).network_state == NetworkState::Offline
                    &&& events@ == seq![
                        NetworkEvent::ConnectionFailed(reason),
                        NetworkEvent::StateChanged(NetworkState::Offline),
                    ]
                },
                ServerEvent::Chat(msg) => {
                    &&& final(self).host_id == old(self).host_id
                    &&& final(self).network_state == old(self).network_state
                    &&& events@ == seq![NetworkEvent::ChatReceived(msg)]
                },
                ServerEvent::MemberListUpdated { members } => {
                    &&& final(self).host_id == old(self).host_id
                    &&& final(self).network_state == old(self).network_state
                    &&& events@ == seq![NetworkEvent::MembersUpdated(members)]
                },
                ServerEvent::HostChanged { new_host_id } => {
                    &&& final(self).host_id == Some(new_host_id)
                    &&& final(self).network_state == old(self).network_state
                    &&& events@ == seq![NetworkEvent::HostChanged { new_host_id }]
                },
                ServerEvent::ServerShutdown => {
                    &&& final(self).host_id is None
                    &&& final(self).network_state == NetworkState::Offline
                    &&& events@ == match old(self).hall_id {
                        Some(h) => seq![
                            NetworkEvent::HostDisconnected {
                                hall_id: h,
                                was_host: old(self).user_id == old(self).host_id,
                            },
                            NetworkEvent::Disconnected,
                            NetworkEvent::StateChanged(NetworkState::Offline),
                        ],
                        None => seq![
                            NetworkEvent::Disconnected,
                            NetworkEvent::StateChanged(NetworkState::Offline),
                        ],
                    }
                },
                ServerEvent::Disconnected => {
                    &&& final(self).host_id == old(self).host_id
                    &&& final(self).network_state == NetworkState::Offline
                    &&& events@ == seq![
                        NetworkEvent::Disconnected,
                        NetworkEvent::StateChanged(NetworkState::Offline),
                    ]
                },
                _ => {
                    &&& final(self).host_id == old(self).host_id
                    &&& final(self).network_state == old(self).network_state
                    &&& events@.len() == 0
                },
            },
    {
        match event {
            ServerEvent::Joined { host_id, members, epoch: _ } => {
                self.host_id = Some(host_id);
                vec![NetworkEvent::MembersUpdated(members)]
            },
            ServerEvent::JoinRejected { reason } => {
                self.network_state = NetworkState::Offline;
                vec![
                    NetworkEvent::ConnectionFailed(reason),
                    NetworkEvent::StateChanged(NetworkState::Offline),
                ]
            },
            ServerEvent::Chat(msg) => vec![NetworkEvent::ChatReceived(msg)],
            ServerEvent::MemberListUpdated { members } => vec![NetworkEvent::MembersUpdated(members)],
            ServerEvent::HostChanged { new_host_id } => {
                self.host_id = Some(new_host_id);
                vec![NetworkEvent::HostChanged { new_host_id }]
            },
            ServerEvent::ServerShutdown => {
                let hall_id = self.hall_id;
                let user_id = self.user_id;
                let host_id = self.host_id;
                self.network_state = NetworkState::Offline;
                self.host_id = None;
                match hall_id {
                    Some(h) => vec![
                        NetworkEvent::HostDisconnected { hall_id: h, was_host: user_id == host_id },
                        NetworkEvent::Disconnected,
                        NetworkEvent::StateChanged(NetworkState::Offline),
                    ],
                    None => vec![
                        NetworkEvent::Disconnected,
                        NetworkEvent::StateChanged(NetworkState::Offline),
                    ],
                }
            },
            ServerEvent::Disconnected => {
                self.network_state = NetworkState::Offline;
                vec![NetworkEvent::Disconnected, NetworkEvent::StateChanged(NetworkState::Offline)]
            },
            _ => Vec::new(),
        }
    }
}

/// How an outgoing chat message leaves this node.
#[derive(Debug, Clone, Copy, PartialEq, Eq, Structural)]
pub enum SendRoute {
    /// Broadcast by the server this node hosts
    Broadcast,
    /// Sent to the host through the client connection
    ToHost,
    /// Neither hosting nor connected: not sent
    Dropped,
}

/// The route of an outgoing chat message: the server when hosting, else the
/// client when connected.
pub fn send_route(has_server: bool, has_client: bool) -> (r: SendRoute)
    ensures
        r == if has_server {
            SendRoute::Broadcast
        } else if has_client {
            SendRoute::ToHost
        } else {
            SendRoute::Dropped
        },
{
    if has_server {
        SendRoute::Broadcast
    } else if has_client {
        SendRoute::ToHost
    } else {
        SendRoute::Dropped
    }
}

/// A message just written goes out at once only while hosting or connected;
/// otherwise it waits, pending, for the next connection.
pub fn should_transmit(state: NetworkState) -> (b: bool)
    ensures
        b == (state == NetworkState::Hosting || state == NetworkState::Connected),
{
    state == NetworkState::Hosting || state == NetworkState::Connected
}

/// The status line and connectivity flag shown for a network state.
pub fn state_status(state: NetworkState) -> (r: (&'static str, bool))
    ensures
        r.0@ == match state {
            NetworkState::Offline => "Working offline"@,
            NetworkState::Connecting => "Connecting..."@,
            NetworkState::Connected => "Connected"@,
            NetworkState::Hosting => "Hosting"@,
        },
        r.1 == (state == NetworkState::Connected || state == NetworkState::Hosting),
{
    match state {
        NetworkState::Offline => ("Working offline", false),
        NetworkState::Connecting => ("Connecting...", false),
        NetworkState::Connected => ("Connected", true),
        NetworkState::Hosting => ("Hosting", true),
    }
}

/// A received chat message is stored when it belongs to the open hall and
/// was not sent by the current user.
pub fn should_store_chat(current_hall: Option<u128>, current_user: Option<u128>, msg: &NetMessage) -> (b: bool)
    ensures
        b == (current_hall == Some(msg.hall_id) && current_user != Some(msg.sender_id)),
{
    match current_hall {
        Some(h) => h == msg.hall_id && current_user != Some(msg.sender_id),
        None => false,
    }
}

/// The sequence number a received message is stored with: the host's, or
/// none when the host has not numbered it.
pub fn stored_sequence(sequence: u64) -> (r: Option<u64>)
    ensures
        r == if sequence > 0 {
            Some(sequence)
        } else {
            None
        },
{
    if sequence > 0 {
        Some(sequence)
    } else {
        None
    }
}

/// The connection to the session was lost: a "Connection lost" notice goes to
/// the open hall (if one is open), and the known members and typing users are
/// forgotten; pending messages and activity stay.
pub fn connection_lost(memory: &mut SessionMemory, current_hall: Option<u128>)
    ensures
        final(memory).known_members@.len() == 0,
        final(memory).typing_users@.len() == 0,
        final(memory).pending_messages == old(memory).pending_messages,
        final(memory).member_activity == old(memory).member_activity,
        match current_hall {
            Some(h) => {
                &&& final(memory).system_messages@.len() == old(memory).system_messages@.len() + 1
                &&& final(memory).system_messages@.drop_last() == old(memory).system_messages@
                &&& final(memory).system_messages@.last().hall_id == h
                &&& final(memory).system_messages@.last().content@ == "Connection lost"@
            },
            None => final(memory).system_messages == old(memory).system_messages,
        },
{
    if let Some(h) = current_hall {
        memory.add_system_message(h, String::from_str("Connection lost"));
    }
    memory.clear_known_members();
    memory.clear_all_typing();
}

/// The system notice for a change of host: the new host's name when it is a
/// known member, else "someone".
pub fn host_changed_notice(known: &[(u128, String)], new_host_id: u128) -> (s: String)
    ensures
        s@ == "Host changed to "@ + (if exists|k: int| 0 <= k < known.len() && known@[k].0 == new_host_id {
            known@[choose_first_member(known@, new_host_id)].1@
        } else {
            "someone"@
        }),
{
    let mut s = String::from_str("Host changed to ");
    let mut i: usize = 0;
    while i < known.len()
        invariant
            i <= known.len(),
            s@ == "Host changed to "@,
            forall|j: int| 0 <= j < i ==> known@[j].0 != new_host_id,
        decreases known.len() - i,
    {
        if known[i].0 == new_host_id {
            proof {
                lemma_first_member(known@, new_host_id, i as int);
            }
            s.append(known[i].1.as_str());
            return s;
        }
        i = i + 1;
    }
    s.append("someone");
    s
}

/// The position of the first known member with identifier `id`.
pub open spec fn choose_first_member(known: Seq<(u128, String)>, id: u128) -> int {
    choose|k: int|
        0 <= k < known.len() && known[k].0 == id && forall|j: int| 0 <= j < k ==> known[j].0 != id
}

proof fn lemma_first_member(known: Seq<(u128, String)>, id: u128, i: int)
    requires
        0 <= i < known.len(),
        known[i].0 == id,
        forall|j: int| 0 <= j < i ==> known[j].0 != id,
    ensures
        choose_first_member(known, id) == i,
{
    let k = choose_first_member(known, id);
    assert(0 <= i < known.len() && known[i].0 == id && forall|j: int| 0 <= j < i ==> known[j].0 != id);
    if k < i {
        assert(known[k].0 != id);
    } else if k > i {
        assert(known[i].0 != id);
    }
}


/// The local record of a chat message received from the network: same
/// identifier, hall, sender, text and time, not edited or deleted.
pub fn message_from_net(m: &NetMessage) -> (r: Message)
    ensures
        r.id == m.id,
        r.hall_id == m.hall_id,
        r.sender_id == m.sender_id,
        r.content == m.content,
        r.created_at == m.timestamp,
        r.edited_at is None,
        !r.is_deleted,
{
    Message {
        id: m.id,
        hall_id: m.hall_id,
        sender_id: m.sender_id,
        content: m.content.clone(),
        created_at: m.timestamp,
        edited_at: None,
        is_deleted: false,
    }
}

/// A stored message is one of the current user's in the current hall.
pub open spec fn own_in_hall(m: Message, hall_id: u128, user_id: u128) -> bool {
    m.sender_id == user_id && m.hall_id == hall_id
}

/// The network form of a message sent again: the sender's name ("Unknown"
/// when not found) and role value (1, a Fellow's, when not found), unnumbered.
pub open spec fn resend_view(m: Message, name: Option<Seq<char>>, role: Option<HallRole>) -> (
    u128,
    u128,
    u128,
    Seq<char>,
    NetRole,
    Seq<char>,
    crate::time::Timestamp,
    u64,
) {
    (
        m.id,
        m.hall_id,
        m.sender_id,
        match name {
            Some(n) => n,
            None => "Unknown"@,
        },
        net_role_of_value(
            match role {
                Some(r) => role_value(r),
                None => 1,
            },
        ),
        m.content@,
        m.created_at,
        0,
    )
}

/// The chat messages to send again after reconnecting: of the pending
/// messages found in the store, those the current user wrote in the current
/// hall, in order, as network messages under the user's name and role.
pub fn resend_batch(
    found: &[Message],
    hall_id: u128,
    user_id: u128,
    username: Option<&str>,
    role: Option<HallRole>,
) -> (r: Vec<NetMessage>)
    ensures
        ({
            let mine = found@.filter(|m: Message| own_in_hall(m, hall_id, user_id));
            &&& r@.len() == mine.len()
            &&& forall|k: int|
                0 <= k < r@.len() ==> net_message_view(#[trigger] r@[k]) == resend_view(
                    mine[k],
                    match username {
                        Some(n) => Some(n@),
                        None => None,
                    },
                    role,
                )
        }),
{
    let ghost keep = |m: Message| own_in_hall(m, hall_id, user_id);
    let ghost name = match username {
        Some(n) => Some(n@),
        None => None,
    };
    let ghost f = found@;
    let role_v: u8 = match role {
        Some(r) => r.hosting_priority(),
        None => 1,
    };
    let sender_role = NetRole::from_value(role_v);
    let mut r: Vec<NetMessage> = Vec::new();
    let mut i: usize = 0;
    assert(f.take(0).filter(keep) =~= Seq::<Message>::empty()) by {
        reveal(Seq::filter);
    }
    while i < found.len()
        invariant
            i <= found.len(),
            f == found@,
            keep == (|m: Message| own_in_hall(m, hall_id, user_id)),
            sender_role == net_role_of_value(
                match role {
                    Some(rr) => role_value(rr),
                    None => 1,
                },
            ),
            name == (match username {
                Some(n) => Some(n@),
                None => None::<Seq<char>>,
            }),
            r@.len() == f.take(i as int).filter(keep).len(),
            forall|k: int|
                0 <= k < r@.len() ==> net_message_view(#[trigger] r@[k]) == resend_view(
                    f.take(i as int).filter(keep)[k],
                    name,
                    role,
                ),
        decreases found.len() - i,
    {
        let ghost before = f.take(i as int).filter(keep);
        assert(f.take(i + 1).drop_last() =~= f.take(i as int));
        assert(f.take(i + 1).last() == f[i as int]);
        proof {
            reveal(Seq::filter);
        }
        let m = &found[i];
        if m.sender_id == user_id && m.hall_id == hall_id {
            let sender_username = match username {
                Some(n) => String::from_str(n),
                None => String::from_str("Unknown"),
            };
            let nm = NetMessage {
                id: m.id,
                hall_id: m.hall_id,
                sender_id: m.sender_id,
                sender_username,
                sender_role,
                content: m.content.clone(),
                timestamp: m.created_at,
                sequence: 0,
            };
            r.push(nm);
            proof {
                assert(f.take(i + 1).filter(keep) == before.push(f[i as int]));
                assert forall|k: int| 0 <= k < r@.len() implies net_message_view(#[trigger] r@[k])
                    == resend_view(f.take(i + 1).filter(keep)[k], name, role) by {
                }
            }
        } else {
            proof {
                assert(f.take(i + 1).filter(keep) == before);
            }
        }
        i = i + 1;
    }
    assert(f.take(found.len() as int) =~= f);
    r
}

} // verus!
