use tcp_chat::client_session::{cap_username, clamp_username, ClientSession, ClientState};
use tcp_chat::registry::Server;
use tcp_chat::serializer::{IntoBytes, SerializerError};
use tcp_chat::session::{SessionState, HB_REQUEST_INTERVAL_MS};
use tcp_chat::{HeartBeatRequest, ServerBroadcastMessage, ServerRegistrationConfirmation};

#[test]
fn username_is_trimmed_and_capped() {
    assert_eq!(clamp_username("  Alex \t"), "Alex");
    assert_eq!(clamp_username("\n"), "");
    let long = "é".repeat(40);
    assert_eq!(clamp_username(&format!(" {} ", long)), "é".repeat(30));
    assert_eq!(cap_username(&"x".repeat(31)), "x".repeat(30));
    assert_eq!(cap_username(" keeps spaces "), " keeps spaces ");
}

#[test]
fn username_trim_follows_white_space() {
    assert_eq!(clamp_username("\u{3000}\u{A0}Zoé\u{2029}\u{85}"), "Zoé");
    assert_eq!(clamp_username("\u{200B}Ann\u{200B}"), "\u{200B}Ann\u{200B}");
    assert_eq!(clamp_username(" a b "), "a b");
}

#[test]
fn session_starts_with_registration_request() {
    let (session, bytes) = ClientSession::start("Alex").unwrap();
    assert_eq!(bytes, b"crr\x04Alex");
    assert_eq!(session.state, ClientState::AwaitingConfirmation);
    assert!(session.send_chat("too early").is_none());
    assert_eq!(
        ClientSession::start(&"n".repeat(256)).err(),
        Some(SerializerError::UsernameTooLong)
    );
}

#[test]
fn session_echoes_confirmation_and_answers_heartbeats() {
    let (mut session, _) = ClientSession::start("Alex").unwrap();
    let mut bytes = ServerRegistrationConfirmation {
        client_id: 0x10,
        magic: 0x20,
    }
    .unwrap_bytes();
    bytes.extend_from_slice(&HeartBeatRequest {}.unwrap_bytes());
    let (out, lines) = session.receive(&bytes[..5]);
    assert!(out.is_empty() && lines.is_empty());
    let (out, lines) = session.receive(&bytes[5..]);
    assert!(lines.is_empty());
    assert_eq!(
        out,
        b"cre\x00\x00\x00\x10\x00\x00\x00\x20hbs\x00\x00\x00\x10\x00\x00\x00\x20"
    );
    assert_eq!(session.state, ClientState::Registered);
    assert_eq!(
        session.send_chat("hi").unwrap().unwrap(),
        b"csm\x00\x00\x00\x10\x00\x00\x00\x20\x00\x02hi"
    );
}

#[test]
fn session_shows_broadcasts() {
    let (mut session, _) = ClientSession::start("Alex").unwrap();
    session.receive(
        &ServerRegistrationConfirmation {
            client_id: 1,
            magic: 2,
        }
        .unwrap_bytes(),
    );
    let line = ServerBroadcastMessage {
        user_id: 7,
        username_len: 3,
        username: "Bob",
        message_len: 5,
        message: "hello",
    }
    .unwrap_bytes();
    let (out, lines) = session.receive(&line);
    assert!(out.is_empty());
    assert_eq!(lines.len(), 1);
    assert_eq!(lines[0].author_id, 7);
    assert_eq!(lines[0].author_username, "Bob");
    assert_eq!(lines[0].message, "hello");
}

#[test]
fn session_closes_on_protocol_breach() {
    let (mut session, _) = ClientSession::start("Alex").unwrap();
    let (out, lines) = session.receive(b"hbr");
    assert!(out.is_empty() && lines.is_empty());
    assert!(session.closed);
    let (out, _) = session.receive(b"src\x00\x00\x00\x01\x00\x00\x00\x02");
    assert!(out.is_empty());
    assert_eq!(session.state, ClientState::AwaitingConfirmation);

    let (mut other, _) = ClientSession::start("Alex").unwrap();
    other.receive(b"???");
    assert!(other.closed);
}

#[test]
fn client_and_server_talk() {
    let mut server = Server::new();
    server.admit_with(0x42, 0x99, 0).unwrap();
    let (mut alex, hello) = ClientSession::start("Alex").unwrap();
    server.receive(0x42, &hello, 0);
    let reply = server.take_outbox(0x42).unwrap();
    let (echo, _) = alex.receive(&reply);
    server.receive(0x42, &echo, 0);
    assert_eq!(server.get(0x42).unwrap().state, SessionState::Active);

    let chat = alex.send_chat("salut").unwrap().unwrap();
    server.receive(0x42, &chat, 0);
    server.fan_out();
    server.heartbeat(HB_REQUEST_INTERVAL_MS + 1);
    let out = server.take_outbox(0x42).unwrap();
    let (answer, lines) = alex.receive(&out);
    assert_eq!(lines.len(), 1);
    assert_eq!(lines[0].author_id, 0x42);
    assert_eq!(lines[0].author_username, "Alex");
    assert_eq!(lines[0].message, "salut");
    server.receive(0x42, &answer, HB_REQUEST_INTERVAL_MS + 1);
    assert_eq!(server.get(0x42).unwrap().heartbeat_skipped, 0);
}
