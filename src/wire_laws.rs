//! Laws of the wire format: decoding undoes encoding, a cut-off packet asks for more
//! bytes, and an unknown tag is refused whatever follows it.
use vstd::prelude::*;
use vstd::utf8::{
    decode_utf8_encode_utf8, encode_utf8, encode_utf8_decode_utf8, encode_utf8_valid_utf8,
};
use crate::packet::{PacketKind, PacketView, kind_of, kind_of_tag, tag_of};
use crate::wire::{
    ParserError, SerializerError, be_u16_at, be_u16_bytes, be_u32_at, be_u32_bytes, decode,
    decode_as, decode_body, encode, text_at, utf8_len, well_formed, wire,
};

verus! {

proof fn lemma_tag_injective(a: PacketKind, b: PacketKind)
    requires
        tag_of(a) == tag_of(b),
    ensures
        a == b,
{
    assert(tag_of(a)[0] == tag_of(b)[0]);
    assert(tag_of(a)[1] == tag_of(b)[1]);
    assert(tag_of(a)[2] == tag_of(b)[2]);
}

/// Each kind is found again from its tag.
pub proof fn lemma_kind_of_own_tag(k: PacketKind)
    ensures
        kind_of_tag(tag_of(k)) == Some(k),
{
    if tag_of(k) == tag_of(PacketKind::ClientRegistrationRequest) {
        lemma_tag_injective(k, PacketKind::ClientRegistrationRequest);
    }
    if tag_of(k) == tag_of(PacketKind::ClientRegistrationEnd) {
        lemma_tag_injective(k, PacketKind::ClientRegistrationEnd);
    }
    if tag_of(k) == tag_of(PacketKind::ClientSendMessage) {
        lemma_tag_injective(k, PacketKind::ClientSendMessage);
    }
    if tag_of(k) == tag_of(PacketKind::HeartBeatSend) {
        lemma_tag_injective(k, PacketKind::HeartBeatSend);
    }
    if tag_of(k) == tag_of(PacketKind::ServerRegistrationConfirmation) {
        lemma_tag_injective(k, PacketKind::ServerRegistrationConfirmation);
    }
    if tag_of(k) == tag_of(PacketKind::ServerBroadcastMessage) {
        lemma_tag_injective(k, PacketKind::ServerBroadcastMessage);
    }
}

proof fn lemma_be_u32_bits(x: u32, b0: u8, b1: u8, b2: u8, b3: u8)
    requires
        b0 == (x >> 24u32) as u8,
        b1 == (x >> 16u32) as u8,
        b2 == (x >> 8u32) as u8,
        b3 == x as u8,
    ensures
        ((b0 as u32) << 24u32) | ((b1 as u32) << 16u32) | ((b2 as u32) << 8u32) | (b3 as u32)
            == x,
{
    assert(((b0 as u32) << 24u32) | ((b1 as u32) << 16u32) | ((b2 as u32) << 8u32) | (b3 as u32)
        == x) by (bit_vector)
        requires
            b0 == (x >> 24u32) as u8,
            b1 == (x >> 16u32) as u8,
            b2 == (x >> 8u32) as u8,
            b3 == x as u8,
    ;
}

proof fn lemma_be_u16_bits(x: u16, b0: u8, b1: u8)
    requires
        b0 == (x >> 8u16) as u8,
        b1 == x as u8,
    ensures
        ((b0 as u16) << 8u16) | (b1 as u16) == x,
{
    assert(((b0 as u16) << 8u16) | (b1 as u16) == x) by (bit_vector)
        requires
            b0 == (x >> 8u16) as u8,
            b1 == x as u8,
    ;
}

/// A 32-bit integer written big-endian at position `i` is read back there.
proof fn lemma_read_u32(s: Seq<u8>, i: int, x: u32)
    requires
        0 <= i,
        i + 4 <= s.len(),
        s.subrange(i, i + 4) == be_u32_bytes(x),
    ensures
        be_u32_at(s, i) == x,
{
    assert(s[i] == s.subrange(i, i + 4)[0]);
    assert(s[i + 1] == s.subrange(i, i + 4)[1]);
    assert(s[i + 2] == s.subrange(i, i + 4)[2]);
    assert(s[i + 3] == s.subrange(i, i + 4)[3]);
    lemma_be_u32_bits(x, s[i], s[i + 1], s[i + 2], s[i + 3]);
}

/// A 16-bit integer written big-endian at position `i` is read back there.
proof fn lemma_read_u16(s: Seq<u8>, i: int, x: u16)
    requires
        0 <= i,
        i + 2 <= s.len(),
        s.subrange(i, i + 2) == be_u16_bytes(x),
    ensures
        be_u16_at(s, i) == x,
{
    assert(s[i] == s.subrange(i, i + 2)[0]);
    assert(s[i + 1] == s.subrange(i, i + 2)[1]);
    lemma_be_u16_bits(x, s[i], s[i + 1]);
}

/// A string written as UTF-8 at position `i` is read back there.
proof fn lemma_read_text(s: Seq<u8>, i: int, t: Seq<char>)
    requires
        0 <= i,
        i + utf8_len(t) <= s.len(),
        s.subrange(i, i + utf8_len(t)) == encode_utf8(t),
    ensures
        text_at(s, i, utf8_len(t)) == Ok::<Seq<char>, ParserError>(t),
{
    encode_utf8_valid_utf8(t);
    encode_utf8_decode_utf8(t);
}

proof fn lemma_decode_wire_fixed(v: PacketView, rest: Seq<u8>)
    requires
        v is ClientRegistrationEnd || v is ServerRegistrationConfirmation || v is HeartBeatSend
            || v is HeartBeatRequest,
    ensures
        decode_as(kind_of(v), wire(v) + rest) == Ok::<(PacketView, int), ParserError>(
            (v, wire(v).len() as int),
        ),
{
    let s = wire(v) + rest;
    assert(s.take(3) =~= tag_of(kind_of(v)));
    match v {
        PacketView::ClientRegistrationEnd { client_id, magic }
        | PacketView::ServerRegistrationConfirmation { client_id, magic }
        | PacketView::HeartBeatSend { client_id, magic } => {
            assert(s.subrange(3, 7) =~= be_u32_bytes(client_id));
            assert(s.subrange(7, 11) =~= be_u32_bytes(magic));
            lemma_read_u32(s, 3, client_id);
            lemma_read_u32(s, 7, magic);
        },
        _ => {},
    }
}

proof fn lemma_decode_wire_request(v: PacketView, rest: Seq<u8>)
    requires
        well_formed(v),
        v is ClientRegistrationRequest,
    ensures
        decode_as(kind_of(v), wire(v) + rest) == Ok::<(PacketView, int), ParserError>(
            (v, wire(v).len() as int),
        ),
{
    let s = wire(v) + rest;
    assert(s.take(3) =~= tag_of(kind_of(v)));
    if let PacketView::ClientRegistrationRequest { username_len, username } = v {
        let n = utf8_len(username);
        assert(s[3] == username_len);
        assert(s.subrange(4, 4 + n) =~= encode_utf8(username));
        lemma_read_text(s, 4, username);
    }
}

proof fn lemma_decode_wire_send(v: PacketView, rest: Seq<u8>)
    requires
        well_formed(v),
        v is ClientSendMessage,
    ensures
        decode_as(kind_of(v), wire(v) + rest) == Ok::<(PacketView, int), ParserError>(
            (v, wire(v).len() as int),
        ),
{
    let s = wire(v) + rest;
    assert(s.take(3) =~= tag_of(kind_of(v)));
    if let PacketView::ClientSendMessage { client_id, magic, message_len, message } = v {
        let n = utf8_len(message);
        assert(s.subrange(3, 7) =~= be_u32_bytes(client_id));
        assert(s.subrange(7, 11) =~= be_u32_bytes(magic));
        assert(s.subrange(11, 13) =~= be_u16_bytes(message_len));
        assert(s.subrange(13, 13 + n) =~= encode_utf8(message));
        lemma_read_u32(s, 3, client_id);
        lemma_read_u32(s, 7, magic);
        lemma_read_u16(s, 11, message_len);
        lemma_read_text(s, 13, message);
    }
}

proof fn lemma_decode_wire_broadcast(v: PacketView, rest: Seq<u8>)
    requires
        well_formed(v),
        v is ServerBroadcastMessage,
    ensures
        decode_as(kind_of(v), wire(v) + rest) == Ok::<(PacketView, int), ParserError>(
            (v, wire(v).len() as int),
        ),
{
    let s = wire(v) + rest;
    assert(s.take(3) =~= tag_of(kind_of(v)));
    if let PacketView::ServerBroadcastMessage {
        user_id,
        username_len,
        username,
        message_len,
        message,
    } = v {
        let n1 = utf8_len(username);
        let n2 = utf8_len(message);
        assert(s.subrange(3, 7) =~= be_u32_bytes(user_id));
        assert(s[7] == username_len);
        assert(s.subrange(8, 8 + n1) =~= encode_utf8(username));
        assert(s.subrange(8 + n1, 10 + n1) =~= be_u16_bytes(message_len));
        assert(s.subrange(10 + n1, 10 + n1 + n2) =~= encode_utf8(message));
        lemma_read_u32(s, 3, user_id);
        lemma_read_text(s, 8, username);
        lemma_read_u16(s, 8 + n1, message_len);
        lemma_read_text(s, 10 + n1, message);
    }
}

/// Decoding the bytes of a well-formed packet, whatever bytes follow them, gives back
/// that packet and takes exactly its bytes.
pub proof fn lemma_decode_wire(v: PacketView, rest: Seq<u8>)
    requires
        well_formed(v),
    ensures
        decode(wire(v) + rest) == Ok::<(PacketView, int), ParserError>((v, wire(v).len() as int)),
        decode_as(kind_of(v), wire(v) + rest) == Ok::<(PacketView, int), ParserError>(
            (v, wire(v).len() as int),
        ),
{
    let s = wire(v) + rest;
    assert(s.take(3) =~= tag_of(kind_of(v)));
    lemma_kind_of_own_tag(kind_of(v));
    match v {
        PacketView::ClientRegistrationRequest { .. } => lemma_decode_wire_request(v, rest),
        PacketView::ClientSendMessage { .. } => lemma_decode_wire_send(v, rest),
        PacketView::ServerBroadcastMessage { .. } => lemma_decode_wire_broadcast(v, rest),
        _ => lemma_decode_wire_fixed(v, rest),
    }
}

/// Round trip: a well-formed packet encodes without error, and decoding its bytes gives
/// back the same packet, having read all of them.
pub proof fn lemma_round_trip(v: PacketView)
    requires
        well_formed(v),
    ensures
        encode(v) == Ok::<Seq<u8>, SerializerError>(wire(v)),
        decode(wire(v)) == Ok::<(PacketView, int), ParserError>((v, wire(v).len() as int)),
{
    lemma_decode_wire(v, Seq::empty());
    assert(wire(v) + Seq::<u8>::empty() =~= wire(v));
}

/// Partial buffers: every proper prefix of a well-formed packet's bytes decodes to
/// `MissingData`, so the caller keeps it; once the remaining bytes are appended, the
/// decoder returns the packet, as it does on the whole buffer at once.
pub proof fn lemma_split_decode(v: PacketView, k: int)
    requires
        well_formed(v),
        0 <= k < wire(v).len(),
    ensures
        decode(wire(v).take(k)) == Err::<(PacketView, int), ParserError>(ParserError::MissingData),
        decode_as(kind_of(v), wire(v).take(k)) == Err::<(PacketView, int), ParserError>(
            ParserError::MissingData,
        ),
        decode(wire(v).take(k) + wire(v).skip(k)) == Ok::<(PacketView, int), ParserError>(
            (v, wire(v).len() as int),
        ),
{
    let w = wire(v);
    let p = w.take(k);
    let kd = kind_of(v);
    lemma_round_trip(v);
    assert(p + w.skip(k) =~= w);
    if k >= 3 {
        assert(p.take(3) =~= tag_of(kd));
        lemma_kind_of_own_tag(kd);
        match v {
            PacketView::ClientRegistrationRequest { username, .. } => {
                if k >= 4 {
                    assert(p[3] == w[3]);
                }
            },
            PacketView::ClientSendMessage { message_len, .. } => {
                if k >= 13 {
                    assert(p[11] == w[11] && p[12] == w[12]);
                }
            },
            PacketView::ServerBroadcastMessage { username, username_len, message_len, .. } => {
                let n1 = utf8_len(username);
                if k >= 8 {
                    assert(p[7] == w[7]);
                    if k >= 8 + n1 {
                        assert(p.subrange(8, 8 + n1) =~= w.subrange(8, 8 + n1));
                        if k >= 10 + n1 {
                            assert(p[8 + n1] == w[8 + n1] && p[9 + n1] == w[9 + n1]);
                        }
                    }
                }
            },
            _ => {},
        }
    }
}

/// Three leading bytes that are no known tag make the decoder fail with `InvalidTag`,
/// whatever bytes follow them.
pub proof fn lemma_unknown_tag(t: Seq<u8>, rest: Seq<u8>)
    requires
        t.len() == 3,
        kind_of_tag(t) is None,
    ensures
        decode(t + rest) == Err::<(PacketView, int), ParserError>(ParserError::InvalidTag),
{
    assert((t + rest).take(3) =~= t);
}

/// A string read at position `i` takes exactly the bytes it was read from.
proof fn lemma_text_len(s: Seq<u8>, i: int, n: int)
    requires
        0 <= i,
        0 <= n,
        text_at(s, i, n) is Ok,
    ensures
        i + n <= s.len(),
        text_at(s, i, n) matches Ok(t) && utf8_len(t) == n,
{
    decode_utf8_encode_utf8(s.subrange(i, i + n));
}

/// What the decoder returns is a well-formed packet that takes at least its tag and at
/// most the bytes it was given.
pub proof fn lemma_decode_bounds(s: Seq<u8>)
    ensures
        decode(s) matches Ok((v, n)) ==> 3 <= n <= s.len() && well_formed(v),
{
    if s.len() >= 3 {
        if let Some(k) = kind_of_tag(s.take(3)) {
            match k {
                PacketKind::ClientRegistrationRequest => {
                    if s.len() >= 4 {
                        if text_at(s, 4, s[3] as int) is Ok {
                            lemma_text_len(s, 4, s[3] as int);
                        }
                    }
                },
                PacketKind::ClientSendMessage => {
                    if s.len() >= 13 {
                        if text_at(s, 13, be_u16_at(s, 11) as int) is Ok {
                            lemma_text_len(s, 13, be_u16_at(s, 11) as int);
                        }
                    }
                },
                PacketKind::ServerBroadcastMessage => {
                    if s.len() >= 8 {
                        let n1 = s[7] as int;
                        if text_at(s, 8, n1) is Ok {
                            lemma_text_len(s, 8, n1);
                            if s.len() >= 10 + n1 {
                                let n2 = be_u16_at(s, 8 + n1) as int;
                                if text_at(s, 10 + n1, n2) is Ok {
                                    lemma_text_len(s, 10 + n1, n2);
                                }
                            }
                        }
                    }
                },
                _ => {},
            }
        }
    }
}

proof fn lemma_u32_extend(s: Seq<u8>, t: Seq<u8>, i: int)
    requires
        0 <= i,
        i + 4 <= s.len(),
    ensures
        be_u32_at(s + t, i) == be_u32_at(s, i),
{
    assert((s + t)[i] == s[i] && (s + t)[i + 1] == s[i + 1]);
    assert((s + t)[i + 2] == s[i + 2] && (s + t)[i + 3] == s[i + 3]);
}

proof fn lemma_u16_extend(s: Seq<u8>, t: Seq<u8>, i: int)
    requires
        0 <= i,
        i + 2 <= s.len(),
    ensures
        be_u16_at(s + t, i) == be_u16_at(s, i),
{
    assert((s + t)[i] == s[i] && (s + t)[i + 1] == s[i + 1]);
}

proof fn lemma_text_extend(s: Seq<u8>, t: Seq<u8>, i: int, n: int)
    requires
        0 <= i,
        0 <= n,
        i + n <= s.len(),
    ensures
        text_at(s + t, i, n) == text_at(s, i, n),
{
    assert((s + t).subrange(i, i + n) =~= s.subrange(i, i + n));
}

proof fn lemma_decode_extend_request(s: Seq<u8>, t: Seq<u8>)
    requires
        s.len() >= 3,
        decode_body(PacketKind::ClientRegistrationRequest, s) != Err::<(PacketView, int), ParserError>(
            ParserError::MissingData,
        ),
    ensures
        decode_body(PacketKind::ClientRegistrationRequest, s + t) == decode_body(
            PacketKind::ClientRegistrationRequest,
            s,
        ),
{
    let n = s[3] as int;
    assert((s + t)[3] == s[3]);
    lemma_text_extend(s, t, 4, n);
}

proof fn lemma_decode_extend_send(s: Seq<u8>, t: Seq<u8>)
    requires
        s.len() >= 3,
        decode_body(PacketKind::ClientSendMessage, s) != Err::<(PacketView, int), ParserError>(
            ParserError::MissingData,
        ),
    ensures
        decode_body(PacketKind::ClientSendMessage, s + t) == decode_body(
            PacketKind::ClientSendMessage,
            s,
        ),
{
    lemma_u32_extend(s, t, 3);
    lemma_u32_extend(s, t, 7);
    lemma_u16_extend(s, t, 11);
    lemma_text_extend(s, t, 13, be_u16_at(s, 11) as int);
}

proof fn lemma_decode_extend_broadcast(s: Seq<u8>, t: Seq<u8>)
    requires
        s.len() >= 3,
        decode_body(PacketKind::ServerBroadcastMessage, s) != Err::<(PacketView, int), ParserError>(
            ParserError::MissingData,
        ),
    ensures
        decode_body(PacketKind::ServerBroadcastMessage, s + t) == decode_body(
            PacketKind::ServerBroadcastMessage,
            s,
        ),
{
    let n1 = s[7] as int;
    assert((s + t)[7] == s[7]);
    lemma_u32_extend(s, t, 3);
    lemma_text_extend(s, t, 8, n1);
    if text_at(s, 8, n1) is Ok && s.len() >= 10 + n1 {
        lemma_u16_extend(s, t, 8 + n1);
        lemma_text_extend(s, t, 10 + n1, be_u16_at(s, 8 + n1) as int);
    }
}

/// Bytes that arrive later change nothing about a decoding that did not ask for more:
/// the same packet, taking the same bytes, or the same error.
pub proof fn lemma_decode_extend(s: Seq<u8>, t: Seq<u8>)
    requires
        decode(s) != Err::<(PacketView, int), ParserError>(ParserError::MissingData),
    ensures
        decode(s + t) == decode(s),
{
    assert((s + t).take(3) =~= s.take(3));
    if let Some(k) = kind_of_tag(s.take(3)) {
        match k {
            PacketKind::ClientRegistrationRequest => lemma_decode_extend_request(s, t),
            PacketKind::ClientSendMessage => lemma_decode_extend_send(s, t),
            PacketKind::ServerBroadcastMessage => lemma_decode_extend_broadcast(s, t),
            _ => {
                if s.len() >= 11 {
                    lemma_u32_extend(s, t, 3);
                    lemma_u32_extend(s, t, 7);
                }
            },
        }
    }
}

} // verus!
