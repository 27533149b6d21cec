#![allow(non_snake_case)]
use tcp_chat::parser::{FromBytes, ParserError};
use tcp_chat::serializer::{IntoBytes, SerializerError};
use tcp_chat::{
    ClientRegistrationEnd, ClientRegistrationRequest, ClientSendMessage, HeartBeatRequest,
    HeartBeatSend, Packet, PacketOwned, ServerBroadcastMessage, ServerRegistrationConfirmation,
};

#[test]
fn tests_ClientSendMessage() {
    assert_eq!(
        ClientSendMessage::from_bytes(b"csm\x00\x00\x00\xFF\x00\x00\xFF\x00\x00\x06AZERTY")
            .unwrap()
            .1,
        ClientSendMessage {
            client_id: 0x000000FF,
            magic: 0x0000FF00,
            message_len: 6,
            message: "AZERTY"
        }
    )
}

#[test]
fn tests_ClientRegistrationRequest() {
    assert_eq!(
        ClientRegistrationRequest::from_bytes(b"crr\x04Maix").unwrap().1,
        ClientRegistrationRequest {
            username_len: 4,
            username: "Maix"
        }
    )
}

#[test]
fn tests_HeartBeatSend() {
    assert_eq!(
        HeartBeatSend::from_bytes(b"hbs\xFF\xAA\xFF\xAA\x12\x34\x56\x78")
            .unwrap()
            .1,
        HeartBeatSend {
            client_id: 0xFFAAFFAA,
            magic: 0x12345678
        }
    )
}

#[test]
fn tests_ServerRegistrationConfirmation() {
    assert_eq!(
        ServerRegistrationConfirmation::from_bytes(b"src\x00\x00\x00\xFF\x00\x00\xFF\x00")
            .unwrap()
            .1,
        ServerRegistrationConfirmation {
            client_id: 0x000000FF,
            magic: 0x0000FF00,
        }
    )
}

#[test]
fn tests_ServerBroadcastMessage() {
    assert_eq!(
        ServerBroadcastMessage::from_bytes(b"sbm\xFF\xDD\x00\xFF\x04Maix\x00\x0FJeSuisUneBanane")
            .unwrap()
            .1,
        ServerBroadcastMessage {
            user_id: 0xFFDD00FF,
            username_len: 0x04,
            username: "Maix",
            message_len: 0x0F,
            message: "JeSuisUneBanane"
        }
    )
}

#[test]
fn tests_HeartBeatRequest() {
    assert_eq!(
        HeartBeatRequest::from_bytes(b"hbr").unwrap().1,
        HeartBeatRequest {}
    )
}

#[test]
fn ClientSendMessage() {
    assert_eq!(
        ClientSendMessage {
            client_id: 0x000000FF,
            magic: 0x0000FF00,
            message_len: 6,
            message: "AZERTY"
        }
        .unwrap_bytes(),
        b"csm\x00\x00\x00\xFF\x00\x00\xFF\x00\x00\x06AZERTY"
    )
}

#[test]
fn ClientRegistrationRequest() {
    assert_eq!(
        ClientRegistrationRequest {
            username_len: 4,
            username: "Maix"
        }
        .unwrap_bytes(),
        b"crr\x04Maix"
    )
}

#[test]
fn HeartBeatSend() {
    assert_eq!(
        HeartBeatSend {
            client_id: 0xFFAAFFAA,
            magic: 0x12345678
        }
        .unwrap_bytes(),
        b"hbs\xFF\xAA\xFF\xAA\x12\x34\x56\x78"
    )
}

#[test]
fn ServerRegistrationConfirmation() {
    assert_eq!(
        ServerRegistrationConfirmation {
            client_id: 0x000000FF,
            magic: 0x0000FF00,
        }
        .unwrap_bytes(),
        b"src\x00\x00\x00\xFF\x00\x00\xFF\x00"
    )
}

#[test]
fn ServerBroadcastMessage() {
    assert_eq!(
        ServerBroadcastMessage {
            user_id: 0xFFDD00FF,
            username_len: 0x04,
            username: "Maix",
            message_len: 0x0F,
            message: "JeSuisUneBanane"
        }
        .unwrap_bytes(),
        b"sbm\xFF\xDD\x00\xFF\x04Maix\x00\x0FJeSuisUneBanane"
    )
}

#[test]
fn HeartBeatRequest() {
    assert_eq!(HeartBeatRequest {}.unwrap_bytes(), b"hbr")
}

fn round_trip(p: Packet) {
    let bytes = p.unwrap_bytes();
    let (rest, back) = Packet::from_bytes(&bytes).unwrap();
    assert!(rest.is_empty());
    assert_eq!(back, p);
}

#[test]
fn round_trip_every_kind() {
    round_trip(Packet::ClientRegistrationRequest(ClientRegistrationRequest {
        username_len: 4,
        username: "Alex",
    }));
    round_trip(Packet::ClientRegistrationEnd(ClientRegistrationEnd {
        client_id: 7,
        magic: 0xDEADBEEF,
    }));
    round_trip(Packet::ClientSendMessage(ClientSendMessage {
        client_id: 1,
        magic: 2,
        message_len: 6,
        message: "héllo",
    }));
    round_trip(Packet::HeartBeatSend(HeartBeatSend {
        client_id: u32::MAX,
        magic: 0,
    }));
    round_trip(Packet::ServerRegistrationConfirmation(ServerRegistrationConfirmation {
        client_id: 0x01020304,
        magic: 0x05060708,
    }));
    round_trip(Packet::ServerBroadcastMessage(ServerBroadcastMessage {
        user_id: 42,
        username_len: 3,
        username: "Bob",
        message_len: 2,
        message: "hi",
    }));
    round_trip(Packet::HeartBeatRequest(HeartBeatRequest {}));
}

#[test]
fn round_trip_empty_strings() {
    round_trip(Packet::ClientRegistrationRequest(ClientRegistrationRequest {
        username_len: 0,
        username: "",
    }));
    round_trip(Packet::ClientSendMessage(ClientSendMessage {
        client_id: 3,
        magic: 4,
        message_len: 0,
        message: "",
    }));
    round_trip(Packet::ServerBroadcastMessage(ServerBroadcastMessage {
        user_id: 5,
        username_len: 0,
        username: "",
        message_len: 0,
        message: "",
    }));
}

#[test]
fn round_trip_largest_strings() {
    let name = "n".repeat(255);
    let text = "m".repeat(65535);
    round_trip(Packet::ClientRegistrationRequest(ClientRegistrationRequest {
        username_len: 255,
        username: &name,
    }));
    round_trip(Packet::ClientSendMessage(ClientSendMessage {
        client_id: 9,
        magic: 10,
        message_len: 65535,
        message: &text,
    }));
    round_trip(Packet::ServerBroadcastMessage(ServerBroadcastMessage {
        user_id: 11,
        username_len: 255,
        username: &name,
        message_len: 65535,
        message: &text,
    }));
}

#[test]
fn encoder_recomputes_length_prefix() {
    let bytes = ClientRegistrationRequest {
        username_len: 9,
        username: "Maix",
    }
    .unwrap_bytes();
    assert_eq!(bytes, b"crr\x04Maix");
}

#[test]
fn encoder_refuses_long_strings() {
    let name = "n".repeat(256);
    let text = "m".repeat(65536);
    assert_eq!(
        ClientRegistrationRequest {
            username_len: 0,
            username: &name
        }
        .into_bytes(),
        Err(SerializerError::UsernameTooLong)
    );
    assert_eq!(
        ClientSendMessage {
            client_id: 1,
            magic: 1,
            message_len: 0,
            message: &text
        }
        .into_bytes(),
        Err(SerializerError::MessageTooLong)
    );
    assert_eq!(
        ServerBroadcastMessage {
            user_id: 1,
            username_len: 0,
            username: "ok",
            message_len: 0,
            message: &text
        }
        .into_bytes(),
        Err(SerializerError::MessageTooLong)
    );
}

#[test]
fn split_at_every_boundary() {
    let bytes = ServerBroadcastMessage {
        user_id: 0xFFDD00FF,
        username_len: 4,
        username: "Maix",
        message_len: 7,
        message: "bañana",
    }
    .unwrap_bytes();
    let whole = Packet::from_bytes(&bytes).unwrap();
    for k in 0..bytes.len() {
        let first = &bytes[..k];
        assert_eq!(Packet::from_bytes(first), Err(ParserError::MissingData));
        let mut joined = first.to_vec();
        joined.extend_from_slice(&bytes[k..]);
        let again = Packet::from_bytes(&joined).unwrap();
        assert_eq!(again.1, whole.1);
        assert!(again.0.is_empty());
    }
}

#[test]
fn decoder_leaves_following_bytes() {
    let input = b"hbr\x68\x62\x73\x00\x00\x00\x01\x00\x00\x00\x02hb";
    let (rest, first) = Packet::from_bytes(input).unwrap();
    assert_eq!(first, Packet::HeartBeatRequest(HeartBeatRequest {}));
    let (rest, second) = Packet::from_bytes(rest).unwrap();
    assert_eq!(
        second,
        Packet::HeartBeatSend(HeartBeatSend {
            client_id: 1,
            magic: 2
        })
    );
    assert_eq!(rest, b"hb");
    assert_eq!(Packet::from_bytes(rest), Err(ParserError::MissingData));
}

#[test]
fn unknown_tag_is_invalid_whatever_follows() {
    assert_eq!(
        Packet::from_bytes(b"xyzcrr\x04Alex"),
        Err(ParserError::InvalidTag)
    );
    let mut long = b"abc".to_vec();
    long.extend_from_slice(&[b'h', b'b', b'r'].repeat(1000));
    assert_eq!(Packet::from_bytes(&long), Err(ParserError::InvalidTag));
    assert_eq!(
        HeartBeatRequest::from_bytes(b"hbs"),
        Err(ParserError::InvalidTag)
    );
}

#[test]
fn invalid_utf8_is_refused() {
    assert_eq!(
        Packet::from_bytes(b"crr\x02\xFF\xFE"),
        Err(ParserError::NotUTF8)
    );
    assert_eq!(
        Packet::from_bytes(b"sbm\x00\x00\x00\x01\x01\xC3"),
        Err(ParserError::NotUTF8)
    );
    assert_eq!(
        Packet::from_bytes(b"csm\x00\x00\x00\x01\x00\x00\x00\x02\x00\x01\x80"),
        Err(ParserError::NotUTF8)
    );
}

#[test]
fn short_input_is_missing_data() {
    assert_eq!(Packet::from_bytes(b""), Err(ParserError::MissingData));
    assert_eq!(Packet::from_bytes(b"cs"), Err(ParserError::MissingData));
    assert_eq!(
        Packet::from_bytes(b"crr\x05Alex"),
        Err(ParserError::MissingData)
    );
}

#[test]
fn owned_copies_match() {
    let input = b"sbm\x00\x00\x00\x2A\x03Bob\x00\x02hi";
    let (_, p) = Packet::from_bytes(input).unwrap();
    let owned = p.into_owned();
    match owned {
        PacketOwned::ServerBroadcastMessage(m) => {
            assert_eq!(m.user_id, 42);
            assert_eq!(m.username, "Bob");
            assert_eq!(m.username_len, 3);
            assert_eq!(m.message, "hi");
            assert_eq!(m.message_len, 2);
        }
        _ => panic!("wrong kind"),
    }
    assert_eq!(p.get_identifier(), *b"sbm");
}

#[test]
fn identifiers_are_the_tags() {
    assert_eq!(
        Packet::ClientRegistrationEnd(ClientRegistrationEnd {
            client_id: 0,
            magic: 0
        })
        .get_identifier(),
        *b"cre"
    );
    assert_eq!(HeartBeatSend { client_id: 0, magic: 0 }.get_identifier(), *b"hbs");
    assert_eq!(HeartBeatRequest {}.get_identifier(), *b"hbr");
    assert_eq!(
        ServerRegistrationConfirmation {
            client_id: 0,
            magic: 0
        }
        .get_identifier(),
        *b"src"
    );
}
