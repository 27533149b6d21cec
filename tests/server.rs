use tcp_chat::registry::{AdmitError, Server, RESERVED_ID_START};
use tcp_chat::serializer::IntoBytes;
use tcp_chat::session::{
    Connection, Response, SessionState, HB_REQUEST_INTERVAL_MS, MAX_HB_SKIP,
};
use tcp_chat::{
    ClientRegistrationEnd, ClientRegistrationRequest, ClientSendMessage, HeartBeatSend,
    PacketOwned, ServerBroadcastMessage,
};

fn crr(name: &str) -> Vec<u8> {
    ClientRegistrationRequest {
        username_len: name.len() as u8,
        username: name,
    }
    .unwrap_bytes()
}

fn cre(id: u32, magic: u32) -> Vec<u8> {
    ClientRegistrationEnd { client_id: id, magic }.unwrap_bytes()
}

fn csm(id: u32, magic: u32, text: &str) -> Vec<u8> {
    ClientSendMessage {
        client_id: id,
        magic,
        message_len: text.len() as u16,
        message: text,
    }
    .unwrap_bytes()
}

fn hbs(id: u32, magic: u32) -> Vec<u8> {
    HeartBeatSend { client_id: id, magic }.unwrap_bytes()
}

fn state_of(server: &Server, id: u32) -> SessionState {
    server.get(id).unwrap().state
}

/// Admits `id` and runs its handshake to the end.
fn register(server: &mut Server, id: u32, magic: u32, name: &str, now: u64) {
    server.admit_with(id, magic, now).unwrap();
    assert!(server.receive(id, &crr(name), now));
    assert!(server.receive(id, &cre(id, magic), now));
    assert_eq!(state_of(server, id), SessionState::Active);
    server.take_outbox(id).unwrap();
}

#[test]
fn handshake_then_broadcast() {
    let mut server = Server::new();
    let (id, magic) = (0x0000_1234u32, 0xCAFE_F00Du32);
    server.admit_with(id, magic, 0).unwrap();
    assert_eq!(state_of(&server, id), SessionState::AwaitingRegistration);

    assert!(server.receive(id, b"crr\x04Alex", 0));
    assert_eq!(state_of(&server, id), SessionState::AwaitingConfirmationEcho);
    assert_eq!(server.get(id).unwrap().username, "Alex");
    let reply = server.take_outbox(id).unwrap();
    assert_eq!(reply, b"src\x00\x00\x12\x34\xCA\xFE\xF0\x0D");

    assert!(server.receive(id, &cre(id, magic), 0));
    assert_eq!(state_of(&server, id), SessionState::Active);

    assert!(server.receive(id, &csm(id, magic, "hello"), 0));
    server.fan_out();
    let out = server.take_outbox(id).unwrap();
    let expected = ServerBroadcastMessage {
        user_id: id,
        username_len: 4,
        username: "Alex",
        message_len: 5,
        message: "hello",
    }
    .unwrap_bytes();
    assert_eq!(out, expected);
    assert_eq!(&out[3..7], &id.to_be_bytes());
}

#[test]
fn unregistered_connection_rejects_other_packets() {
    let packets = vec![
        cre(1, 2),
        csm(1, 2, "x"),
        hbs(1, 2),
        b"src\x00\x00\x00\x01\x00\x00\x00\x02".to_vec(),
        b"sbm\x00\x00\x00\x01\x00\x00\x00".to_vec(),
        b"hbr".to_vec(),
    ];
    for (k, bytes) in packets.iter().enumerate() {
        let mut server = Server::new();
        let id = 100 + k as u32;
        server.admit_with(id, 2, 0).unwrap();
        server.receive(id, bytes, 0);
        assert!(server.get(id).unwrap().marked);
        assert_eq!(server.prune(), vec![id]);
        assert_eq!(server.len(), 0);
    }
}

#[test]
fn wrong_magic_drops_without_broadcast() {
    let mut server = Server::new();
    register(&mut server, 10, 111, "A", 0);
    register(&mut server, 20, 222, "B", 0);
    assert!(server.receive(10, &csm(10, 999, "spoof"), 0));
    assert!(server.get(10).unwrap().marked);
    server.fan_out();
    assert!(server.take_outbox(20).unwrap().is_empty());
    assert_eq!(server.prune(), vec![10]);
    assert_eq!(server.ids(), vec![20]);
}

#[test]
fn wrong_echo_drops() {
    let mut server = Server::new();
    server.admit_with(5, 55, 0).unwrap();
    server.receive(5, &crr("eve"), 0);
    server.receive(5, &cre(5, 56), 0);
    assert!(server.get(5).unwrap().marked);
    let mut other = Server::new();
    other.admit_with(6, 66, 0).unwrap();
    other.receive(6, &crr("eve"), 0);
    other.receive(6, &cre(7, 66), 0);
    assert!(other.get(6).unwrap().marked);
}

#[test]
fn broadcast_reaches_every_active_connection_once() {
    let mut server = Server::new();
    register(&mut server, 1, 11, "A", 0);
    register(&mut server, 2, 22, "B", 0);
    register(&mut server, 3, 33, "C", 0);
    server.admit_with(4, 44, 0).unwrap();
    assert!(server.receive(1, &csm(1, 11, "hi all"), 0));
    server.fan_out();
    let a = server.take_outbox(1).unwrap();
    let b = server.take_outbox(2).unwrap();
    let c = server.take_outbox(3).unwrap();
    let expected = ServerBroadcastMessage {
        user_id: 1,
        username_len: 1,
        username: "A",
        message_len: 6,
        message: "hi all",
    }
    .unwrap_bytes();
    assert_eq!(a, expected);
    assert_eq!(b, expected);
    assert_eq!(c, expected);
    assert!(server.take_outbox(4).unwrap().is_empty());
    server.fan_out();
    assert!(server.take_outbox(2).unwrap().is_empty());
}

#[test]
fn silent_connection_is_dropped_after_max_skips() {
    let mut server = Server::new();
    register(&mut server, 9, 99, "quiet", 0);
    let mut now = 0u64;
    for round in 1..=MAX_HB_SKIP {
        now += HB_REQUEST_INTERVAL_MS + 1;
        server.heartbeat(now);
        assert_eq!(server.take_outbox(9).unwrap(), b"hbr");
        let conn = server.get(9).unwrap();
        assert_eq!(conn.heartbeat_skipped, round);
        assert_eq!(conn.marked, round == MAX_HB_SKIP);
        server.prune();
    }
    assert_eq!(server.len(), 0);
}

#[test]
fn answering_connection_is_kept() {
    let mut server = Server::new();
    register(&mut server, 9, 99, "chatty", 0);
    let mut now = 0u64;
    for _ in 0..(3 * MAX_HB_SKIP as u32) {
        now += HB_REQUEST_INTERVAL_MS + 1;
        server.heartbeat(now);
        assert_eq!(server.take_outbox(9).unwrap(), b"hbr");
        assert!(server.receive(9, &hbs(9, 99), now));
        assert_eq!(server.get(9).unwrap().heartbeat_skipped, 0);
        assert_eq!(server.get(9).unwrap().last_heartbeat_ms, now);
        assert!(server.prune().is_empty());
    }
    assert_eq!(server.ids(), vec![9]);
}

#[test]
fn no_heartbeat_before_the_interval() {
    let mut server = Server::new();
    register(&mut server, 9, 99, "new", 1000);
    server.heartbeat(1000 + HB_REQUEST_INTERVAL_MS);
    assert!(server.take_outbox(9).unwrap().is_empty());
    server.heartbeat(1001 + HB_REQUEST_INTERVAL_MS);
    assert_eq!(server.take_outbox(9).unwrap(), b"hbr");
}

#[test]
fn corrupt_tag_drops_connection() {
    let mut server = Server::new();
    register(&mut server, 3, 33, "C", 0);
    let mut bytes = b"zzz".to_vec();
    bytes.extend_from_slice(&csm(3, 33, "looks fine"));
    server.receive(3, &bytes, 0);
    assert!(server.get(3).unwrap().marked);
    assert!(server.get(3).unwrap().recv_buf.is_empty());
    server.fan_out();
    assert!(server.take_outbox(3).unwrap().is_empty());
    assert_eq!(server.prune(), vec![3]);
}

#[test]
fn bad_text_drops_connection() {
    let mut server = Server::new();
    server.admit_with(3, 33, 0).unwrap();
    server.receive(3, b"crr\x01\xFF", 0);
    assert!(server.get(3).unwrap().marked);
}

#[test]
fn packets_split_across_reads() {
    let mut server = Server::new();
    server.admit_with(8, 88, 0).unwrap();
    let mut bytes = crr("Zoe");
    bytes.extend_from_slice(&cre(8, 88));
    bytes.extend_from_slice(&csm(8, 88, "split"));
    for chunk in bytes.chunks(2) {
        assert!(server.receive(8, chunk, 0));
        assert!(!server.get(8).unwrap().marked);
    }
    assert_eq!(state_of(&server, 8), SessionState::Active);
    assert!(server.get(8).unwrap().recv_buf.is_empty());
    server.fan_out();
    let out = server.take_outbox(8).unwrap();
    assert_eq!(&out[..11], b"src\x00\x00\x00\x08\x00\x00\x00\x58");
    assert_eq!(&out[11..14], b"sbm");
}

#[test]
fn admission_errors() {
    let mut server = Server::new();
    assert_eq!(server.admit_with(0, 1, 0), Err(AdmitError::ReservedId));
    assert_eq!(
        server.admit_with(RESERVED_ID_START, 1, 0),
        Err(AdmitError::ReservedId)
    );
    assert_eq!(server.admit_with(77, 1, 0), Ok(()));
    assert_eq!(server.admit_with(77, 2, 0), Err(AdmitError::IdInUse));
    assert_eq!(server.ids(), vec![77]);
}

#[test]
fn fresh_ids_are_distinct_and_issuable() {
    let mut server = Server::new();
    let mut ids = Vec::new();
    for _ in 0..20 {
        let id = server.admit_fresh(5).unwrap();
        assert!(id >= 1 && id < RESERVED_ID_START);
        assert!(!ids.contains(&id));
        ids.push(id);
    }
    assert_eq!(server.ids(), ids);
    let magics: Vec<u32> = ids.iter().map(|i| server.get(*i).unwrap().magic).collect();
    assert!(magics.iter().any(|m| *m != magics[0]));
}

#[test]
fn unknown_id_is_reported() {
    let mut server = Server::new();
    assert!(!server.receive(1, b"hbr", 0));
    assert!(!server.mark_failed(1));
    assert!(server.take_outbox(1).is_none());
    assert!(server.get(1).is_none());
}

#[test]
fn failed_socket_is_pruned_in_order() {
    let mut server = Server::new();
    for id in [5u32, 6, 7, 8] {
        server.admit_with(id, id, 0).unwrap();
    }
    assert!(server.mark_failed(8));
    assert!(server.mark_failed(6));
    assert_eq!(server.prune(), vec![6, 8]);
    assert_eq!(server.ids(), vec![5, 7]);
}

#[test]
fn handle_packet_follows_the_table() {
    let mut conn = Connection::new(4, 44, 0);
    let end = PacketOwned::ClientRegistrationEnd(ClientRegistrationEnd {
        client_id: 4,
        magic: 44,
    });
    assert!(matches!(conn.handle_packet(&end, 0), Response::Violation));
    assert_eq!(conn.state, SessionState::AwaitingRegistration);
    let hb = PacketOwned::HeartBeatSend(HeartBeatSend {
        client_id: 4,
        magic: 44,
    });
    assert!(matches!(conn.handle_packet(&hb, 0), Response::Violation));
}

#[test]
fn split_reads_match_one_read() {
    let mut bytes = crr("Ann");
    bytes.extend_from_slice(&cre(12, 34));
    bytes.extend_from_slice(&csm(12, 34, "one"));
    bytes.extend_from_slice(&csm(12, 34, "two"));
    bytes.extend_from_slice(&b"csm\x00"[..]);
    for cut in 0..=bytes.len() {
        let mut whole = Server::new();
        whole.admit_with(12, 34, 0).unwrap();
        whole.receive(12, &bytes, 0);
        let mut split = Server::new();
        split.admit_with(12, 34, 0).unwrap();
        split.receive(12, &bytes[..cut], 0);
        split.receive(12, &bytes[cut..], 0);
        let (a, b) = (whole.get(12).unwrap(), split.get(12).unwrap());
        assert_eq!(a.state, b.state);
        assert_eq!(a.recv_buf, b.recv_buf);
        assert_eq!(a.recv_buf, b"csm\x00");
        assert_eq!(a.outbox, b.outbox);
        assert_eq!(a.username, b.username);
        whole.fan_out();
        split.fan_out();
        assert_eq!(whole.take_outbox(12), split.take_outbox(12));
    }
}

#[test]
fn empty_registry_always_admits() {
    for _ in 0..50 {
        let mut server = Server::new();
        let id = server.admit_fresh(0).unwrap();
        assert_eq!(server.ids(), vec![id]);
        assert_eq!(server.get(id).unwrap().state, SessionState::AwaitingRegistration);
    }
}
