//! Decoding packets from bytes.
use vstd::prelude::*;
use vstd::string::StringSliceAdditionalSpecFns;
use vstd::utf8::{encode_utf8_decode_utf8, valid_utf8};
use crate::packet::{
    ClientRegistrationEnd, ClientRegistrationRequest, ClientSendMessage, HeartBeatRequest,
    HeartBeatSend, Packet, PacketKind, PacketView, ServerBroadcastMessage,
    ServerRegistrationConfirmation, kind_of_tag, tag_of,
};
pub use crate::wire::ParserError;
use crate::wire::{be_u16_at, be_u32_at, decode, decode_as, text_at};

verus! {

/// Types that can be read from the front of a byte slice.
pub trait FromBytes<'a>: Sized {
    /// Decodes one value from the front of `input`, and returns the bytes after it.
    fn from_bytes(input: &'a [u8]) -> Result<(&'a [u8], Self), ParserError>;
}

/// Whether the result of a decoding call is what the decoding `d` of `input` says:
/// the same value and the bytes that follow it, or the same error.
pub open spec fn decoded_as<'a, T: View<V = PacketView>>(
    input: Seq<u8>,
    r: Result<(&'a [u8], T), ParserError>,
    d: Result<(PacketView, int), ParserError>,
) -> bool {
    match r {
        Ok((rest, p)) => d matches Ok((v, n)) && p@ == v && rest@ == input.skip(n),
        Err(e) => d == Err::<(PacketView, int), ParserError>(e),
    }
}

/// Relies on `std::str::from_utf8`: it accepts exactly the valid UTF-8 byte sequences,
/// and the string it returns is made of the given bytes.
#[verifier::external_body]
fn str_from_utf8<'a>(b: &'a [u8]) -> (r: Option<&'a str>)
    ensures
        r is Some <==> valid_utf8(b@),
        r matches Some(s) ==> s.spec_bytes() == b@,
{
    std::str::from_utf8(b).ok()
}

/// The tag bytes of a kind of packet.
pub fn tag_bytes(k: PacketKind) -> (r: [u8; 3])
    ensures
        r@ == tag_of(k),
{
    match k {
        PacketKind::ClientRegistrationRequest => [0x63u8, 0x72u8, 0x72u8],
        PacketKind::ClientRegistrationEnd => [0x63u8, 0x72u8, 0x65u8],
        PacketKind::ClientSendMessage => [0x63u8, 0x73u8, 0x6du8],
        PacketKind::HeartBeatSend => [0x68u8, 0x62u8, 0x73u8],
        PacketKind::ServerRegistrationConfirmation => [0x73u8, 0x72u8, 0x63u8],
        PacketKind::ServerBroadcastMessage => [0x73u8, 0x62u8, 0x6du8],
        PacketKind::HeartBeatRequest => [0x68u8, 0x62u8, 0x72u8],
    }
}

/// Whether `input` opens with the tag of `k`.
fn starts_with_tag(input: &[u8], k: PacketKind) -> (r: bool)
    requires
        input@.len() >= 3,
    ensures
        r == (input@.take(3) == tag_of(k)),
{
    let t = tag_bytes(k);
    let r = input[0] == t[0] && input[1] == t[1] && input[2] == t[2];
    proof {
        if r {
            assert(input@.take(3) =~= tag_of(k));
        } else if input@.take(3) == tag_of(k) {
            assert(input@.take(3)[0] == t@[0] && input@.take(3)[1] == t@[1] && input@.take(3)[2]
                == t@[2]);
        }
    }
    r
}

/// The kind of packet whose tag `input` opens with, if any.
pub fn kind_of_leading_tag(input: &[u8]) -> (r: Option<PacketKind>)
    requires
        input@.len() >= 3,
    ensures
        r == kind_of_tag(input@.take(3)),
{
    if starts_with_tag(input, PacketKind::ClientRegistrationRequest) {
        Some(PacketKind::ClientRegistrationRequest)
    } else if starts_with_tag(input, PacketKind::ClientRegistrationEnd) {
        Some(PacketKind::ClientRegistrationEnd)
    } else if starts_with_tag(input, PacketKind::ClientSendMessage) {
        Some(PacketKind::ClientSendMessage)
    } else if starts_with_tag(input, PacketKind::HeartBeatSend) {
        Some(PacketKind::HeartBeatSend)
    } else if starts_with_tag(input, PacketKind::ServerRegistrationConfirmation) {
        Some(PacketKind::ServerRegistrationConfirmation)
    } else if starts_with_tag(input, PacketKind::ServerBroadcastMessage) {
        Some(PacketKind::ServerBroadcastMessage)
    } else if starts_with_tag(input, PacketKind::HeartBeatRequest) {
        Some(PacketKind::HeartBeatRequest)
    } else {
        None
    }
}

/// Reads the big-endian 16-bit integer at position `i`.
fn read_be_u16(s: &[u8], i: usize) -> (r: u16)
    requires
        i + 2 <= s@.len(),
    ensures
        r == be_u16_at(s@, i as int),
{
    ((s[i] as u16) << 8u16) | (s[i + 1] as u16)
}

/// Reads the big-endian 32-bit integer at position `i`.
fn read_be_u32(s: &[u8], i: usize) -> (r: u32)
    requires
        i + 4 <= s@.len(),
    ensures
        r == be_u32_at(s@, i as int),
{
    ((s[i] as u32) << 24u32) | ((s[i + 1] as u32) << 16u32) | ((s[i + 2] as u32) << 8u32) | (s[i
        + 3] as u32)
}

/// Reads the string of `n` bytes that starts at position `start`.
fn read_text<'a>(s: &'a [u8], start: usize, n: usize) -> (r: Result<&'a str, ParserError>)
    requires
        start <= s@.len(),
    ensures
        match (r, text_at(s@, start as int, n as int)) {
            (Ok(t), Ok(c)) => t@ == c,
            (Err(e), Err(f)) => e == f,
            _ => false,
        },
{
    if s.len() - start < n {
        return Err(ParserError::MissingData);
    }
    let bytes = &s[start..start + n];
    match str_from_utf8(bytes) {
        None => Err(ParserError::NotUTF8),
        Some(t) => {
            proof {
                encode_utf8_decode_utf8(t@);
            }
            Ok(t)
        },
    }
}

/// The bytes of `input` from position `n` on.
fn rest_from<'a>(input: &'a [u8], n: usize) -> (r: &'a [u8])
    requires
        n <= input@.len(),
    ensures
        r@ == input@.skip(n as int),
{
    let (_, rest) = input.split_at(n);
    assert(rest@ =~= input@.skip(n as int));
    rest
}

impl<'a> FromBytes<'a> for Packet<'a> {
    fn from_bytes(input: &'a [u8]) -> (r: Result<(&'a [u8], Packet<'a>), ParserError>)
        ensures
            decoded_as(input@, r, decode(input@)),
    {
        if input.len() < 3 {
            return Err(ParserError::MissingData);
        }
        match kind_of_leading_tag(input) {
            None => Err(ParserError::InvalidTag),
            Some(PacketKind::ClientRegistrationRequest) => match ClientRegistrationRequest::from_bytes(
                input,
            ) {
                Ok((rest, p)) => Ok((rest, Packet::ClientRegistrationRequest(p))),
                Err(e) => Err(e),
            },
            Some(PacketKind::ClientRegistrationEnd) => match ClientRegistrationEnd::from_bytes(input) {
                Ok((rest, p)) => Ok((rest, Packet::ClientRegistrationEnd(p))),
                Err(e) => Err(e),
            },
            Some(PacketKind::ClientSendMessage) => match ClientSendMessage::from_bytes(input) {
                Ok((rest, p)) => Ok((rest, Packet::ClientSendMessage(p))),
                Err(e) => Err(e),
            },
            Some(PacketKind::HeartBeatSend) => match HeartBeatSend::from_bytes(input) {
                Ok((rest, p)) => Ok((rest, Packet::HeartBeatSend(p))),
                Err(e) => Err(e),
            },
            Some(PacketKind::ServerRegistrationConfirmation) => match ServerRegistrationConfirmation::from_bytes(
                input,
            ) {
                Ok((rest, p)) => Ok((rest, Packet::ServerRegistrationConfirmation(p))),
                Err(e) => Err(e),
            },
            Some(PacketKind::ServerBroadcastMessage) => match ServerBroadcastMessage::from_bytes(
                input,
            ) {
                Ok((rest, p)) => Ok((rest, Packet::ServerBroadcastMessage(p))),
                Err(e) => Err(e),
            },
            Some(PacketKind::HeartBeatRequest) => match HeartBeatRequest::from_bytes(input) {
                Ok((rest, p)) => Ok((rest, Packet::HeartBeatRequest(p))),
                Err(e) => Err(e),
            },
        }
    }
}

impl<'a> FromBytes<'a> for ClientRegistrationRequest<'a> {
    fn from_bytes(input: &'a [u8]) -> (r: Result<(&'a [u8], ClientRegistrationRequest<'a>), ParserError>)
        ensures
            decoded_as(input@, r, decode_as(PacketKind::ClientRegistrationRequest, input@)),
    {
        if input.len() < 3 {
            return Err(ParserError::MissingData);
        }
        if !starts_with_tag(input, PacketKind::ClientRegistrationRequest) {
            return Err(ParserError::InvalidTag);
        }
        if input.len() < 4 {
            return Err(ParserError::MissingData);
        }
        let username_len = input[3];
        let username = match read_text(input, 4, username_len as usize) {
            Ok(t) => t,
            Err(e) => return Err(e),
        };
        let rest = rest_from(input, 4 + username_len as usize);
        Ok((rest, ClientRegistrationRequest { username_len, username }))
    }
}

impl<'a> FromBytes<'a> for ClientRegistrationEnd {
    fn from_bytes(input: &'a [u8]) -> (r: Result<(&'a [u8], ClientRegistrationEnd), ParserError>)
        ensures
            decoded_as(input@, r, decode_as(PacketKind::ClientRegistrationEnd, input@)),
    {
        if input.len() < 3 {
            return Err(ParserError::MissingData);
        }
        if !starts_with_tag(input, PacketKind::ClientRegistrationEnd) {
            return Err(ParserError::InvalidTag);
        }
        if input.len() < 11 {
            return Err(ParserError::MissingData);
        }
        let client_id = read_be_u32(input, 3);
        let magic = read_be_u32(input, 7);
        Ok((rest_from(input, 11), ClientRegistrationEnd { client_id, magic }))
    }
}

impl<'a> FromBytes<'a> for ClientSendMessage<'a> {
    fn from_bytes(input: &'a [u8]) -> (r: Result<(&'a [u8], ClientSendMessage<'a>), ParserError>)
        ensures
            decoded_as(input@, r, decode_as(PacketKind::ClientSendMessage, input@)),
    {
        if input.len() < 3 {
            return Err(ParserError::MissingData);
        }
        if !starts_with_tag(input, PacketKind::ClientSendMessage) {
            return Err(ParserError::InvalidTag);
        }
        if input.len() < 13 {
            return Err(ParserError::MissingData);
        }
        let client_id = read_be_u32(input, 3);
        let magic = read_be_u32(input, 7);
        let message_len = read_be_u16(input, 11);
        let message = match read_text(input, 13, message_len as usize) {
            Ok(t) => t,
            Err(e) => return Err(e),
        };
        let rest = rest_from(input, 13 + message_len as usize);
        Ok((rest, ClientSendMessage { client_id, magic, message_len, message }))
    }
}

impl<'a> FromBytes<'a> for HeartBeatSend {
    fn from_bytes(input: &'a [u8]) -> (r: Result<(&'a [u8], HeartBeatSend), ParserError>)
        ensures
            decoded_as(input@, r, decode_as(PacketKind::HeartBeatSend, input@)),
    {
        if input.len() < 3 {
            return Err(ParserError::MissingData);
        }
        if !starts_with_tag(input, PacketKind::HeartBeatSend) {
            return Err(ParserError::InvalidTag);
        }
        if input.len() < 11 {
            return Err(ParserError::MissingData);
        }
        let client_id = read_be_u32(input, 3);
        let magic = read_be_u32(input, 7);
        Ok((rest_from(input, 11), HeartBeatSend { client_id, magic }))
    }
}

impl<'a> FromBytes<'a> for HeartBeatRequest {
    fn from_bytes(input: &'a [u8]) -> (r: Result<(&'a [u8], HeartBeatRequest), ParserError>)
        ensures
            decoded_as(input@, r, decode_as(PacketKind::HeartBeatRequest, input@)),
    {
        if input.len() < 3 {
            return Err(ParserError::MissingData);
        }
        if !starts_with_tag(input, PacketKind::HeartBeatRequest) {
            return Err(ParserError::InvalidTag);
        }
        Ok((rest_from(input, 3), HeartBeatRequest {  }))
    }
}

impl<'a> FromBytes<'a> for ServerBroadcastMessage<'a> {
    fn from_bytes(input: &'a [u8]) -> (r: Result<(&'a [u8], ServerBroadcastMessage<'a>), ParserError>)
        ensures
            decoded_as(input@, r, decode_as(PacketKind::ServerBroadcastMessage, input@)),
    {
        if input.len() < 3 {
            return Err(ParserError::MissingData);
        }
        if !starts_with_tag(input, PacketKind::ServerBroadcastMessage) {
            return Err(ParserError::InvalidTag);
        }
        if input.len() < 8 {
            return Err(ParserError::MissingData);
        }
        let user_id = read_be_u32(input, 3);
        let username_len = input[7];
        let username = match read_text(input, 8, username_len as usize) {
            Ok(t) => t,
            Err(e) => return Err(e),
        };
        let after_name = 8 + username_len as usize;
        if input.len() < after_name + 2 {
            return Err(ParserError::MissingData);
        }
        let message_len = read_be_u16(input, after_name);
        let message = match read_text(input, after_name + 2, message_len as usize) {
            Ok(t) => t,
            Err(e) => return Err(e),
        };
        let rest = rest_from(input, after_name + 2 + message_len as usize);
        Ok((rest, ServerBroadcastMessage { user_id, username_len, username, message_len, message }))
    }
}

impl<'a> FromBytes<'a> for ServerRegistrationConfirmation {
    fn from_bytes(input: &'a [u8]) -> (r: Result<(&'a [u8], ServerRegistrationConfirmation), ParserError>)
        ensures
            decoded_as(input@, r, decode_as(PacketKind::ServerRegistrationConfirmation, input@)),
    {
        if input.len() < 3 {
            return Err(ParserError::MissingData);
        }
        if !starts_with_tag(input, PacketKind::ServerRegistrationConfirmation) {
            return Err(ParserError::InvalidTag);
        }
        if input.len() < 11 {
            return Err(ParserError::MissingData);
        }
        let client_id = read_be_u32(input, 3);
        let magic = read_be_u32(input, 7);
        Ok((rest_from(input, 11), ServerRegistrationConfirmation { client_id, magic }))
    }
}

} // verus!
