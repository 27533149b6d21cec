//! The wire format as mathematics: what each packet's bytes are, and what the decoder
//! makes of any byte sequence.
use vstd::prelude::*;
use vstd::utf8::{decode_utf8, encode_utf8, valid_utf8};
use crate::packet::{PacketKind, PacketView, kind_of, kind_of_tag, tag_of};

verus! {

/// Why a byte sequence does not start with a packet.
#[derive(Debug, Clone, Copy, PartialEq, Eq, Structural)]
pub enum ParserError {
    /// The first three bytes are no known tag: the stream has lost its alignment.
    InvalidTag,
    /// More bytes are needed before the packet can be decoded.
    MissingData,
    /// A string's bytes are all there but are not UTF-8.
    NotUTF8,
}

/// Why a packet cannot be encoded: a string is longer than its length prefix can say.
#[derive(Debug, Clone, Copy, PartialEq, Eq, Structural)]
pub enum SerializerError {
    /// The username takes more than 255 bytes.
    UsernameTooLong,
    /// The message takes more than 65535 bytes.
    MessageTooLong,
}

/// Big-endian bytes of a 16-bit integer.
pub open spec fn be_u16_bytes(x: u16) -> Seq<u8> {
    seq![(x >> 8u16) as u8, x as u8]
}

/// Big-endian bytes of a 32-bit integer.
pub open spec fn be_u32_bytes(x: u32) -> Seq<u8> {
    seq![(x >> 24u32) as u8, (x >> 16u32) as u8, (x >> 8u32) as u8, x as u8]
}

/// The 16-bit integer written big-endian at position `i` of `s`.
pub open spec fn be_u16_at(s: Seq<u8>, i: int) -> u16 {
    ((s[i] as u16) << 8u16) | (s[i + 1] as u16)
}

/// The 32-bit integer written big-endian at position `i` of `s`.
pub open spec fn be_u32_at(s: Seq<u8>, i: int) -> u32 {
    ((s[i] as u32) << 24u32) | ((s[i + 1] as u32) << 16u32) | ((s[i + 2] as u32) << 8u32) | (
    s[i + 3] as u32)
}

/// The number of bytes of a string in UTF-8.
pub open spec fn utf8_len(s: Seq<char>) -> int {
    encode_utf8(s).len() as int
}

/// A string of `n` bytes that starts at position `start` of `s`.
pub open spec fn text_at(s: Seq<u8>, start: int, n: int) -> Result<Seq<char>, ParserError> {
    if s.len() < start + n {
        Err(ParserError::MissingData)
    } else if !valid_utf8(s.subrange(start, start + n)) {
        Err(ParserError::NotUTF8)
    } else {
        Ok(decode_utf8(s.subrange(start, start + n)))
    }
}

/// The packet of kind `k` that `s` starts with, and how many bytes it takes; `s` starts
/// with the tag of `k`.
pub open spec fn decode_body(k: PacketKind, s: Seq<u8>) -> Result<(PacketView, int), ParserError> {
    match k {
        PacketKind::HeartBeatRequest => Ok((PacketView::HeartBeatRequest, 3)),
        PacketKind::ClientRegistrationEnd => if s.len() < 11 {
            Err(ParserError::MissingData)
        } else {
            Ok(
                (
                    PacketView::ClientRegistrationEnd {
                        client_id: be_u32_at(s, 3),
                        magic: be_u32_at(s, 7),
                    },
                    11,
                ),
            )
        },
        PacketKind::ServerRegistrationConfirmation => if s.len() < 11 {
            Err(ParserError::MissingData)
        } else {
            Ok(
                (
                    PacketView::ServerRegistrationConfirmation {
                        client_id: be_u32_at(s, 3),
                        magic: be_u32_at(s, 7),
                    },
                    11,
                ),
            )
        },
        PacketKind::HeartBeatSend => if s.len() < 11 {
            Err(ParserError::MissingData)
        } else {
            Ok((PacketView::HeartBeatSend { client_id: be_u32_at(s, 3), magic: be_u32_at(s, 7) }, 11))
        },
        PacketKind::ClientRegistrationRequest => if s.len() < 4 {
            Err(ParserError::MissingData)
        } else {
            let n = s[3] as int;
            match text_at(s, 4, n) {
                Err(e) => Err(e),
                Ok(name) => Ok(
                    (PacketView::ClientRegistrationRequest { username_len: s[3], username: name }, 4 + n),
                ),
            }
        },
        PacketKind::ClientSendMessage => if s.len() < 13 {
            Err(ParserError::MissingData)
        } else {
            let n = be_u16_at(s, 11) as int;
            match text_at(s, 13, n) {
                Err(e) => Err(e),
                Ok(text) => Ok(
                    (
                        PacketView::ClientSendMessage {
                            client_id: be_u32_at(s, 3),
                            magic: be_u32_at(s, 7),
                            message_len: be_u16_at(s, 11),
                            message: text,
                        },
                        13 + n,
                    ),
                ),
            }
        },
        PacketKind::ServerBroadcastMessage => if s.len() < 8 {
            Err(ParserError::MissingData)
        } else {
            let n1 = s[7] as int;
            match text_at(s, 8, n1) {
                Err(e) => Err(e),
                Ok(name) => if s.len() < 10 + n1 {
                    Err(ParserError::MissingData)
                } else {
                    let n2 = be_u16_at(s, 8 + n1) as int;
                    match text_at(s, 10 + n1, n2) {
                        Err(e) => Err(e),
                        Ok(text) => Ok(
                            (
                                PacketView::ServerBroadcastMessage {
                                    user_id: be_u32_at(s, 3),
                                    username_len: s[7],
                                    username: name,
                                    message_len: be_u16_at(s, 8 + n1),
                                    message: text,
                                },
                                10 + n1 + n2,
                            ),
                        ),
                    }
                },
            }
        },
    }
}

/// Decoding `s` as a packet of the given kind: the packet that `s` starts with and the
/// number of bytes it takes, or why there is none.
pub open spec fn decode_as(k: PacketKind, s: Seq<u8>) -> Result<(PacketView, int), ParserError> {
    if s.len() < 3 {
        Err(ParserError::MissingData)
    } else if s.take(3) != tag_of(k) {
        Err(ParserError::InvalidTag)
    } else {
        decode_body(k, s)
    }
}

/// Decoding `s` as a packet of whatever kind its tag names.
pub open spec fn decode(s: Seq<u8>) -> Result<(PacketView, int), ParserError> {
    if s.len() < 3 {
        Err(ParserError::MissingData)
    } else {
        match kind_of_tag(s.take(3)) {
            None => Err(ParserError::InvalidTag),
            Some(k) => decode_body(k, s),
        }
    }
}

/// The bytes of a packet: its tag, then its fields in order, each string preceded by
/// its length in bytes. The length fields stored in `v` play no part.
pub open spec fn wire(v: PacketView) -> Seq<u8> {
    tag_of(kind_of(v)) + match v {
        PacketView::ClientRegistrationRequest { username, .. } => seq![utf8_len(username) as u8]
            + encode_utf8(username),
        PacketView::ClientRegistrationEnd { client_id, magic } => be_u32_bytes(client_id)
            + be_u32_bytes(magic),
        PacketView::ClientSendMessage { client_id, magic, message, .. } => be_u32_bytes(client_id)
            + be_u32_bytes(magic) + be_u16_bytes(utf8_len(message) as u16) + encode_utf8(message),
        PacketView::HeartBeatSend { client_id, magic } => be_u32_bytes(client_id) + be_u32_bytes(
            magic,
        ),
        PacketView::ServerRegistrationConfirmation { client_id, magic } => be_u32_bytes(client_id)
            + be_u32_bytes(magic),
        PacketView::ServerBroadcastMessage { user_id, username, message, .. } => be_u32_bytes(
            user_id,
        ) + seq![utf8_len(username) as u8] + encode_utf8(username) + be_u16_bytes(
            utf8_len(message) as u16,
        ) + encode_utf8(message),
        PacketView::HeartBeatRequest => Seq::empty(),
    }
}

/// Encoding a packet: its bytes, or which string does not fit its length prefix.
pub open spec fn encode(v: PacketView) -> Result<Seq<u8>, SerializerError> {
    match v {
        PacketView::ClientRegistrationRequest { username, .. } => if utf8_len(username) > 255 {
            Err(SerializerError::UsernameTooLong)
        } else {
            Ok(wire(v))
        },
        PacketView::ClientSendMessage { message, .. } => if utf8_len(message) > 65535 {
            Err(SerializerError::MessageTooLong)
        } else {
            Ok(wire(v))
        },
        PacketView::ServerBroadcastMessage { username, message, .. } => if utf8_len(username)
            > 255 {
            Err(SerializerError::UsernameTooLong)
        } else if utf8_len(message) > 65535 {
            Err(SerializerError::MessageTooLong)
        } else {
            Ok(wire(v))
        },
        _ => Ok(wire(v)),
    }
}

/// A packet whose length fields give the byte lengths of its strings.
pub open spec fn well_formed(v: PacketView) -> bool {
    match v {
        PacketView::ClientRegistrationRequest { username_len, username } => username_len as int
            == utf8_len(username),
        PacketView::ClientSendMessage { message_len, message, .. } => message_len as int
            == utf8_len(message),
        PacketView::ServerBroadcastMessage { username_len, username, message_len, message, .. } => {
            &&& username_len as int == utf8_len(username)
            &&& message_len as int == utf8_len(message)
        },
        _ => true,
    }
}

} // verus!
