//! Encoding packets to bytes.
use vstd::prelude::*;
use vstd::string::StringSliceAdditionalSpecFns;
use vstd::utf8::encode_utf8;
use crate::packet::{
    ClientRegistrationEnd, ClientRegistrationRequest, ClientSendMessage, HeartBeatRequest,
    HeartBeatSend, Packet, PacketKind, PacketView, ServerBroadcastMessage,
    ServerRegistrationConfirmation, tag_of,
};
use crate::parser::tag_bytes;
pub use crate::wire::SerializerError;
use crate::wire::{be_u16_bytes, be_u32_bytes, encode, utf8_len, wire};

verus! {

/// Whether a call's result is what `encode` says of the packet: the same bytes, or the
/// same error.
pub open spec fn encoded_as(r: Result<Vec<u8>, SerializerError>, v: PacketView) -> bool {
    match r {
        Ok(b) => encode(v) == Ok::<Seq<u8>, SerializerError>(b@),
        Err(e) => encode(v) == Err::<Seq<u8>, SerializerError>(e),
    }
}

/// Packets that can be written as bytes.
pub trait IntoBytes: View<V = PacketView> {
    /// The packet's bytes, with each length prefix computed from its string.
    fn into_bytes(&self) -> (r: Result<Vec<u8>, SerializerError>)
        ensures
            encoded_as(r, self@),
    ;

    /// The packet's bytes, for a packet whose strings fit their length prefixes.
    fn unwrap_bytes(&self) -> (r: Vec<u8>)
        requires
            encode(self@) is Ok,
        ensures
            encode(self@) == Ok::<Seq<u8>, SerializerError>(r@),
    {
        match self.into_bytes() {
            Ok(b) => b,
            Err(_) => Vec::new(),
        }
    }
}

fn push_tag(out: &mut Vec<u8>, k: PacketKind)
    ensures
        final(out)@ == old(out)@ + tag_of(k),
{
    let t = tag_bytes(k);
    out.push(t[0]);
    out.push(t[1]);
    out.push(t[2]);
    assert(final(out)@ =~= old(out)@ + tag_of(k));
}

fn push_be_u16(out: &mut Vec<u8>, x: u16)
    ensures
        final(out)@ == old(out)@ + be_u16_bytes(x),
{
    out.push((x >> 8u16) as u8);
    out.push(x as u8);
    assert(final(out)@ =~= old(out)@ + be_u16_bytes(x));
}

fn push_be_u32(out: &mut Vec<u8>, x: u32)
    ensures
        final(out)@ == old(out)@ + be_u32_bytes(x),
{
    out.push((x >> 24u32) as u8);
    out.push((x >> 16u32) as u8);
    out.push((x >> 8u32) as u8);
    out.push(x as u8);
    assert(final(out)@ =~= old(out)@ + be_u32_bytes(x));
}

/// Appends `bytes`.
pub fn extend_bytes(out: &mut Vec<u8>, bytes: &[u8])
    ensures
        final(out)@ == old(out)@ + bytes@,
{
    let ghost start = out@;
    let mut i: usize = 0;
    while i < bytes.len()
        invariant
            i <= bytes@.len(),
            out@ == start + bytes@.take(i as int),
        decreases bytes@.len() - i,
    {
        out.push(bytes[i]);
        i = i + 1;
        assert(out@ =~= start + bytes@.take(i as int));
    }
    assert(bytes@.take(i as int) =~= bytes@);
}

/// Appends the UTF-8 bytes of `s`.
fn push_str(out: &mut Vec<u8>, s: &str)
    ensures
        final(out)@ == old(out)@ + encode_utf8(s@),
{
    extend_bytes(out, s.as_bytes());
}

/// The number of bytes of `s` in UTF-8.
pub fn byte_len(s: &str) -> (n: usize)
    ensures
        n as int == utf8_len(s@),
{
    s.as_bytes().len()
}

impl IntoBytes for ClientRegistrationEnd {
    fn into_bytes(&self) -> (r: Result<Vec<u8>, SerializerError>) {
        let mut out: Vec<u8> = Vec::with_capacity(11);
        push_tag(&mut out, PacketKind::ClientRegistrationEnd);
        push_be_u32(&mut out, self.client_id);
        push_be_u32(&mut out, self.magic);
        assert(out@ =~= wire(self@));
        Ok(out)
    }
}

impl<'a> IntoBytes for ClientSendMessage<'a> {
    fn into_bytes(&self) -> (r: Result<Vec<u8>, SerializerError>) {
        let n = byte_len(self.message);
        if n > 65535 {
            return Err(SerializerError::MessageTooLong);
        }
        let mut out: Vec<u8> = Vec::with_capacity(13 + n);
        push_tag(&mut out, PacketKind::ClientSendMessage);
        push_be_u32(&mut out, self.client_id);
        push_be_u32(&mut out, self.magic);
        push_be_u16(&mut out, n as u16);
        push_str(&mut out, self.message);
        assert(out@ =~= wire(self@));
        Ok(out)
    }
}

impl<'a> IntoBytes for ClientRegistrationRequest<'a> {
    fn into_bytes(&self) -> (r: Result<Vec<u8>, SerializerError>) {
        let n = byte_len(self.username);
        if n > 255 {
            return Err(SerializerError::UsernameTooLong);
        }
        let mut out: Vec<u8> = Vec::with_capacity(4 + n);
        push_tag(&mut out, PacketKind::ClientRegistrationRequest);
        out.push(n as u8);
        push_str(&mut out, self.username);
        assert(out@ =~= wire(self@));
        Ok(out)
    }
}

impl IntoBytes for HeartBeatSend {
    fn into_bytes(&self) -> (r: Result<Vec<u8>, SerializerError>) {
        let mut out: Vec<u8> = Vec::with_capacity(11);
        push_tag(&mut out, PacketKind::HeartBeatSend);
        push_be_u32(&mut out, self.client_id);
        push_be_u32(&mut out, self.magic);
        assert(out@ =~= wire(self@));
        Ok(out)
    }
}

impl IntoBytes for HeartBeatRequest {
    fn into_bytes(&self) -> (r: Result<Vec<u8>, SerializerError>) {
        let mut out: Vec<u8> = Vec::with_capacity(3);
        push_tag(&mut out, PacketKind::HeartBeatRequest);
        assert(out@ =~= wire(self@));
        Ok(out)
    }
}

impl IntoBytes for ServerRegistrationConfirmation {
    fn into_bytes(&self) -> (r: Result<Vec<u8>, SerializerError>) {
        let mut out: Vec<u8> = Vec::with_capacity(11);
        push_tag(&mut out, PacketKind::ServerRegistrationConfirmation);
        push_be_u32(&mut out, self.client_id);
        push_be_u32(&mut out, self.magic);
        assert(out@ =~= wire(self@));
        Ok(out)
    }
}

impl<'a> IntoBytes for ServerBroadcastMessage<'a> {
    fn into_bytes(&self) -> (r: Result<Vec<u8>, SerializerError>) {
        let n1 = byte_len(self.username);
        if n1 > 255 {
            return Err(SerializerError::UsernameTooLong);
        }
        let n2 = byte_len(self.message);
        if n2 > 65535 {
            return Err(SerializerError::MessageTooLong);
        }
        let mut out: Vec<u8> = Vec::with_capacity(10 + n1 + n2);
        push_tag(&mut out, PacketKind::ServerBroadcastMessage);
        push_be_u32(&mut out, self.user_id);
        out.push(n1 as u8);
        push_str(&mut out, self.username);
        push_be_u16(&mut out, n2 as u16);
        push_str(&mut out, self.message);
        assert(out@ =~= wire(self@));
        Ok(out)
    }
}

impl<'a> IntoBytes for Packet<'a> {
    fn into_bytes(&self) -> (r: Result<Vec<u8>, SerializerError>) {
        match self {
            Packet::ClientSendMessage(p) => p.into_bytes(),
            Packet::ClientRegistrationRequest(p) => p.into_bytes(),
            Packet::HeartBeatSend(p) => p.into_bytes(),
            Packet::HeartBeatRequest(p) => p.into_bytes(),
            Packet::ServerBroadcastMessage(p) => p.into_bytes(),
            Packet::ServerRegistrationConfirmation(p) => p.into_bytes(),
            Packet::ClientRegistrationEnd(p) => p.into_bytes(),
        }
    }
}

} // verus!
