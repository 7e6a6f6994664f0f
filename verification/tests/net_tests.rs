use exom::models::Message as StoredMessage;
use exom::network::{message_from_net, resend_batch};
use exom::roles::HallRole;
use exom::net::client::{ClientState, ConnectionState, ServerEvent};
use exom::net::error::Error;
use exom::net::frame::{check_frame_header, decode_frame, encode_frame, length_prefix, MAX_FRAME_SIZE};
use exom::net::invite::{finish_invite, format_invite, split_invite};
use exom::net::protocol::{net_role_display, Message, NetMessage, NetRole, PeerInfo};
use exom::net::server::{token_from_id, ServerState, MAX_MESSAGE_HISTORY, MAX_PEERS};
use exom::network::{host_changed_notice, send_route, should_store_chat, stored_sequence, SendRoute, SessionState, NetworkEvent, NetworkState};
use exom::time::Timestamp;

const MS: u128 = 1_000_000;

fn fresh_id() -> u128 {
    uuid::Uuid::new_v4().as_u128()
}

fn chat(hall_id: u128, sender_id: u128, content: &str) -> NetMessage {
    NetMessage {
        id: fresh_id(),
        hall_id,
        sender_id,
        sender_username: "alice".to_string(),
        sender_role: NetRole::Agent,
        content: content.to_string(),
        timestamp: Timestamp { secs: 1_700_000_000, nanos: 0 },
        sequence: 0,
    }
}

fn join(hall_id: u128, user_id: u128, token: &str) -> Message {
    Message::JoinRequest {
        user_id,
        username: format!("u{}", user_id),
        hall_id,
        token: token.to_string(),
        role: NetRole::Agent,
    }
}

// ---------------------------------------------------------------- frames

#[test]
fn test_frame_roundtrip() {
    let payload = b"\"Ping\"".to_vec();
    let bytes = encode_frame(&payload).unwrap();
    assert_eq!(&bytes[..4], &[0, 0, 0, 6]);
    let mut stream = bytes.clone();
    stream.extend_from_slice(b"next");
    let (decoded, used) = decode_frame(&stream).unwrap();
    assert_eq!(decoded, payload);
    assert_eq!(used, bytes.len());
}

#[test]
fn test_empty_frame_rejected() {
    let result = decode_frame(&[0, 0, 0, 0]);
    assert!(matches!(result, Err(Error::Protocol(m)) if m == "Empty frame"));
}

#[test]
fn test_oversized_frame_rejected() {
    let len = (MAX_FRAME_SIZE + 1).to_be_bytes();
    let result = check_frame_header(len);
    assert!(matches!(result, Err(Error::Protocol(m)) if m == "Frame too large: 1048577 bytes (max 1048576)"));
    assert!(decode_frame(&len).is_err());
}

#[test]
fn frame_short_input_is_closed_connection() {
    assert!(matches!(decode_frame(&[0, 0]), Err(Error::ConnectionClosed)));
    assert!(matches!(decode_frame(&[0, 0, 0, 5, 1, 2]), Err(Error::ConnectionClosed)));
    assert_eq!(length_prefix(258), [0, 0, 1, 2]);
    assert_eq!(check_frame_header([0, 16, 0, 0]).unwrap(), MAX_FRAME_SIZE);
}

#[test]
fn frame_too_large_to_send() {
    let payload = vec![7u8; MAX_FRAME_SIZE as usize + 1];
    assert!(matches!(encode_frame(&payload), Err(Error::Protocol(m)) if m.starts_with("Message too large")));
}

// ---------------------------------------------------------------- invites

#[test]
fn test_invite_roundtrip() {
    let hall_id = fresh_id();
    let url = format_invite("192.168.1.100", 7331, hall_id, "abc123");
    let parts = split_invite(&url).unwrap();
    assert_eq!(parts.host_port, "192.168.1.100:7331");
    let (hall, token) = finish_invite(parts, true).unwrap();
    assert_eq!(hall, hall_id);
    assert_eq!(token, "abc123");
}

#[test]
fn test_invite_parse_ipv4() {
    let url = "exom://192.168.1.1:7331/550e8400-e29b-41d4-a716-446655440000/mytoken";
    let parts = split_invite(url).unwrap();
    assert_eq!(parts.host_port, "192.168.1.1:7331");
    let (_, token) = finish_invite(parts, true).unwrap();
    assert_eq!(token, "mytoken");
}

#[test]
fn test_invite_parse_ipv6() {
    let url = "exom://[::1]:7331/550e8400-e29b-41d4-a716-446655440000/mytoken";
    let parts = split_invite(url).unwrap();
    assert_eq!(parts.host_port, "[::1]:7331");
    let (hall, token) = finish_invite(parts, true).unwrap();
    assert_eq!(hall, uuid::Uuid::parse_str("550e8400-e29b-41d4-a716-446655440000").unwrap().as_u128());
    assert_eq!(token, "mytoken");
}

#[test]
fn test_invite_parse_invalid() {
    assert!(matches!(
        split_invite("http://localhost/abc/def"),
        Err(Error::Protocol(m)) if m == "Invalid invite URL: missing exom:// prefix"
    ));
    assert!(split_invite("exom://localhost").is_err());
    let bad_uuid = split_invite("exom://localhost:7331/not-a-uuid/token").unwrap();
    assert!(matches!(
        finish_invite(bad_uuid, true),
        Err(Error::Protocol(m)) if m == "Invalid invite URL: bad hall_id 'not-a-uuid'"
    ));
    let empty_token = split_invite("exom://localhost:7331/550e8400-e29b-41d4-a716-446655440000/").unwrap();
    assert!(matches!(
        finish_invite(empty_token, true),
        Err(Error::Protocol(m)) if m == "Invalid invite URL: empty token"
    ));
    let bad_addr = split_invite("exom://localhost:7331/550e8400-e29b-41d4-a716-446655440000/t").unwrap();
    assert!(matches!(
        finish_invite(bad_addr, false),
        Err(Error::Protocol(m)) if m == "Invalid invite URL: bad address 'localhost:7331'"
    ));
}

// ---------------------------------------------------------------- protocol

#[test]
fn test_role_ordering() {
    assert!(NetRole::Builder > NetRole::Fellow);
    assert!(NetRole::Agent.can_host());
    assert!(!NetRole::Fellow.can_host());
}

#[test]
fn protocol_role_values() {
    for v in 1u8..=5 {
        assert_eq!(NetRole::from_value(v).to_value(), v);
    }
    assert_eq!(NetRole::from_value(200), NetRole::Fellow);
    assert_eq!(net_role_display(NetRole::Prefect), "Prefect");
}

// ---------------------------------------------------------------- server

#[test]
fn server_admits_and_refuses_joins() {
    let hall = fresh_id();
    let host = fresh_id();
    let mut server = ServerState::new(hall, host, "host".to_string(), NetRole::Builder, "tok".to_string());
    let guest = fresh_id();
    assert_eq!(server.accept_join(join(hall, guest, "tok")).unwrap(), guest);
    assert!(matches!(server.accept_join(join(hall, guest, "tok")), Err(Error::Rejected(m)) if m == "Already connected"));
    assert!(matches!(server.accept_join(join(fresh_id(), 5, "tok")), Err(Error::Rejected(m)) if m == "Wrong hall"));
    assert!(matches!(server.accept_join(join(hall, 6, "nope")), Err(Error::Rejected(m)) if m == "Invalid token"));
    assert!(matches!(server.accept_join(Message::Ping), Err(Error::Protocol(m)) if m == "Expected JoinRequest"));
    let members = server.member_list();
    assert_eq!(members.len(), 2);
    assert!(members[0].is_host);
    assert!(!members[1].is_host);
    let after = server.remove_peer(guest);
    assert_eq!(after.len(), 1);
    assert_eq!(server.recipients(Some(host)), Vec::<u128>::new());
}

#[test]
fn server_full() {
    let hall = fresh_id();
    let mut server = ServerState::new(hall, 0, "host".to_string(), NetRole::Builder, "tok".to_string());
    for k in 1..MAX_PEERS as u128 {
        server.accept_join(join(hall, k, "tok")).unwrap();
    }
    assert!(matches!(server.accept_join(join(hall, 999, "tok")), Err(Error::ServerFull)));
}

#[test]
fn server_numbers_and_syncs_messages() {
    let hall = fresh_id();
    let mut server = ServerState::new(hall, 1, "host".to_string(), NetRole::Builder, "tok".to_string());
    let a = server.record_chat(chat(hall, 1, "one"));
    let b = server.record_chat(chat(hall, 1, "two"));
    let c = server.record_chat(chat(hall, 1, "three"));
    assert_eq!((a.sequence, b.sequence, c.sequence), (1, 2, 3));
    match server.sync_since(hall, 1) {
        Some(Message::SyncBatch { from_sequence, messages, .. }) => {
            assert_eq!(from_sequence, 2);
            let texts: Vec<&str> = messages.iter().map(|m| m.content.as_str()).collect();
            assert_eq!(texts, vec!["two", "three"]);
        },
        _ => panic!("expected a sync batch"),
    }
    assert!(server.sync_since(fresh_id(), 0).is_none());
}

#[test]
fn server_history_is_bounded() {
    let hall = fresh_id();
    let mut server = ServerState::new(hall, 1, "host".to_string(), NetRole::Builder, "tok".to_string());
    for i in 0..(MAX_MESSAGE_HISTORY + 5) {
        server.record_chat(chat(hall, 1, &format!("m{}", i)));
    }
    assert_eq!(server.message_history.len(), MAX_MESSAGE_HISTORY);
    assert_eq!(server.message_history[0].sequence, 6);
}

#[test]
fn server_tokens() {
    let id = uuid::Uuid::parse_str("550e8400-e29b-41d4-a716-446655440000").unwrap().as_u128();
    assert_eq!(token_from_id(id), "550e8400e29b41d4");
    let hall = fresh_id();
    let mut server = ServerState::new(hall, 1, "host".to_string(), NetRole::Builder, "tok".to_string());
    let t = server.regenerate_token();
    assert_eq!(t.len(), 16);
    assert_eq!(server.token, t);
}

// ---------------------------------------------------------------- client

#[test]
fn client_join_and_heartbeat() {
    let hall = fresh_id();
    let host = fresh_id();
    let mut client = ClientState::new(hall, 0);
    let members = vec![PeerInfo { user_id: host, username: "host".to_string(), role: NetRole::Builder, is_host: true }];
    let out = client.on_join_response(Message::JoinAccepted { hall_id: hall, host_id: host, members, epoch: 3 }, 10 * MS);
    assert!(out.proceed);
    assert!(matches!(out.event, Some(ServerEvent::Joined { epoch: 3, .. })));
    assert_eq!(client.connection, ConnectionState::Connected);
    assert!(client.check_heartbeat(6_000 * MS).is_none());
    assert!(matches!(client.check_heartbeat(6_011 * MS), Some(ServerEvent::HostDead { last_epoch: 3, .. })));
    assert!(client.check_heartbeat(9_000 * MS).is_none());
}

#[test]
fn client_ignores_stale_election() {
    let hall = fresh_id();
    let mut client = ClientState::new(hall, 0);
    client.on_join_response(Message::JoinAccepted { hall_id: hall, host_id: 1, members: vec![], epoch: 5 }, 0);
    let stale = Message::HostElected { hall_id: hall, epoch: 4, host_user_id: 2, host_addr: "h".to_string(), host_port: 1 };
    assert!(client.on_message(stale, 0).is_none());
    assert_eq!(client.epoch, 5);
    let fresh = Message::HostElected { hall_id: hall, epoch: 6, host_user_id: 2, host_addr: "h".to_string(), host_port: 1 };
    assert!(matches!(client.on_message(fresh, 0), Some(ServerEvent::HostElected { epoch: 6, .. })));
    assert_eq!(client.epoch, 6);
}

#[test]
fn client_other_messages_keep_members_and_heartbeat() {
    let hall = fresh_id();
    let host = fresh_id();
    let mut client = ClientState::new(hall, 0);
    let members = vec![PeerInfo { user_id: host, username: "host".to_string(), role: NetRole::Builder, is_host: true }];
    client.on_join_response(Message::JoinAccepted { hall_id: hall, host_id: host, members, epoch: 1 }, 10 * MS);
    let before_beat = client.last_heartbeat;
    let before_members = client.members.len();
    client.on_message(Message::PeerLeft { user_id: host }, 500 * MS);
    client.on_message(Message::ServerShutdown, 600 * MS);
    assert_eq!(client.last_heartbeat, before_beat);
    assert_eq!(client.members.len(), before_members);
    client.on_message(Message::HostHeartbeat { hall_id: hall, epoch: 1, host_user_id: host, timestamp: Timestamp { secs: 0, nanos: 0 } }, 700 * MS);
    assert_eq!(client.last_heartbeat, 700 * MS);
    assert_eq!(client.members.len(), before_members);
}

#[test]
fn client_rejected() {
    let mut client = ClientState::new(fresh_id(), 0);
    let out = client.on_join_response(Message::JoinRejected { reason: "Invalid token".to_string() }, 0);
    assert!(!out.proceed);
    assert!(matches!(out.event, Some(ServerEvent::JoinRejected { reason }) if reason == "Invalid token"));
    assert_eq!(client.connection, ConnectionState::Disconnected);
    assert!(matches!(client.on_closed(), ServerEvent::Disconnected));
}

// ---------------------------------------------------------------- session

#[test]
fn network_session_transitions() {
    let mut s = SessionState::new();
    assert_eq!(s.network_state, NetworkState::Offline);
    let ev = s.connect_started();
    assert!(matches!(ev.as_slice(), [NetworkEvent::StateChanged(NetworkState::Connecting)]));
    let hall = fresh_id();
    s.connected(hall, 7, NetRole::Agent);
    assert_eq!(s.network_state, NetworkState::Connected);
    assert_eq!(s.hall_id, Some(hall));
    s.disconnect();
    assert_eq!(s.network_state, NetworkState::Offline);
}

#[test]
fn network_routing_and_storage() {
    assert_eq!(send_route(true, true), SendRoute::Broadcast);
    assert_eq!(send_route(false, true), SendRoute::ToHost);
    assert_eq!(send_route(false, false), SendRoute::Dropped);
    let hall = fresh_id();
    let msg = chat(hall, 2, "hi");
    assert!(should_store_chat(Some(hall), Some(1), &msg));
    assert!(!should_store_chat(Some(hall), Some(2), &msg));
    assert!(!should_store_chat(Some(fresh_id()), Some(1), &msg));
    assert_eq!(stored_sequence(0), None);
    assert_eq!(stored_sequence(4), Some(4));
}

#[test]
fn network_host_changed_notice() {
    let known = vec![(1u128, "alice".to_string()), (2u128, "bob".to_string())];
    assert!(host_changed_notice(&known, 2).contains("bob"));
}

#[test]
fn network_resend_and_store() {
    let hall = fresh_id();
    let me = fresh_id();
    let mk = |sender: u128, h: u128, text: &str| StoredMessage {
        id: fresh_id(),
        hall_id: h,
        sender_id: sender,
        content: text.to_string(),
        created_at: Timestamp { secs: 5, nanos: 0 },
        edited_at: None,
        is_deleted: false,
    };
    let found = vec![mk(me, hall, "a"), mk(fresh_id(), hall, "b"), mk(me, fresh_id(), "c"), mk(me, hall, "d")];
    let batch = resend_batch(&found, hall, me, Some("alice"), Some(HallRole::HallModerator));
    let texts: Vec<&str> = batch.iter().map(|m| m.content.as_str()).collect();
    assert_eq!(texts, vec!["a", "d"]);
    assert_eq!(batch[0].id, found[0].id);
    assert_eq!(batch[0].sender_role, NetRole::Moderator);
    assert_eq!(batch[0].sequence, 0);
    let unknown = resend_batch(&found, hall, me, None, None);
    assert_eq!(unknown[0].sender_username, "Unknown");
    assert_eq!(unknown[0].sender_role, NetRole::Fellow);
    let net = chat(hall, me, "hello");
    let stored = message_from_net(&net);
    assert_eq!((stored.id, stored.content.as_str(), stored.created_at), (net.id, "hello", net.timestamp));
    assert!(!stored.is_deleted);
}
