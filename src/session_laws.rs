//! Laws of the session: what a connection does with packets that the protocol does not
//! allow in its state, and when the heartbeat step drops a connection.
use vstd::prelude::*;
use crate::packet::{PacketView, kind_of_tag};
use crate::session::{
    ConnView, HB_REQUEST_INTERVAL_MS, MAX_HB_SKIP, Reaction, SessionState, drain,
    heartbeat_step, receive_spec, session_step, step_broadcasts,
};
use crate::wire::{ParserError, decode, well_formed, wire};
use crate::wire_laws::{lemma_decode_bounds, lemma_decode_extend, lemma_decode_wire};

verus! {

/// Before registration, every packet but a registration request breaks the protocol:
/// the record stays as it is and nothing is sent.
pub proof fn lemma_unregistered_rejects(c: ConnView, p: PacketView, now: u64)
    requires
        c.state == SessionState::AwaitingRegistration,
        !(p is ClientRegistrationRequest),
    ensures
        session_step(c, p, now) == (c, Reaction::Violation),
{
}

/// A registered connection whose chat message carries the wrong magic breaks the
/// protocol: the record stays as it is and nothing is broadcast.
pub proof fn lemma_wrong_magic_rejects(c: ConnView, p: PacketView, now: u64)
    requires
        c.state == SessionState::Active,
        p matches PacketView::ClientSendMessage { magic, .. } && magic != c.magic,
    ensures
        session_step(c, p, now) == (c, Reaction::Violation),
{
}

/// What receiving the bytes of one packet that breaks the protocol does to an unmarked
/// connection with an empty buffer, whatever bytes follow: the connection is marked to
/// be dropped, and it broadcasts nothing.
proof fn lemma_receive_violation(c: ConnView, p: PacketView, rest: Seq<u8>, now: u64)
    requires
        c.recv_buf.len() == 0,
        well_formed(p),
        session_step(ConnView { recv_buf: rest, ..c }, p, now).1 == Reaction::Violation,
    ensures
        receive_spec(c, wire(p) + rest, now).0.marked,
        receive_spec(c, wire(p) + rest, now).1 == Seq::<Seq<u8>>::empty(),
{
    let bytes = wire(p) + rest;
    lemma_decode_wire(p, rest);
    assert(c.recv_buf + bytes =~= bytes);
    assert(bytes.skip(wire(p).len() as int) =~= rest);
}

/// A connection awaiting registration that receives any other packet than a
/// registration request is marked to be dropped and broadcasts nothing.
pub proof fn lemma_unregistered_receive_drops(c: ConnView, p: PacketView, rest: Seq<u8>, now: u64)
    requires
        c.state == SessionState::AwaitingRegistration,
        c.recv_buf.len() == 0,
        well_formed(p),
        !(p is ClientRegistrationRequest),
    ensures
        receive_spec(c, wire(p) + rest, now).0.marked,
        receive_spec(c, wire(p) + rest, now).1 == Seq::<Seq<u8>>::empty(),
{
    lemma_receive_violation(c, p, rest, now);
}

/// A registered connection that receives a chat message with the wrong magic is marked
/// to be dropped and broadcasts nothing.
pub proof fn lemma_wrong_magic_receive_drops(
    c: ConnView,
    p: PacketView,
    rest: Seq<u8>,
    now: u64,
)
    requires
        c.state == SessionState::Active,
        c.recv_buf.len() == 0,
        well_formed(p),
        p matches PacketView::ClientSendMessage { magic, .. } && magic != c.magic,
    ensures
        receive_spec(c, wire(p) + rest, now).0.marked,
        receive_spec(c, wire(p) + rest, now).1 == Seq::<Seq<u8>>::empty(),
{
    lemma_receive_violation(c, p, rest, now);
}

/// A connection whose buffered bytes, with the new ones appended, start with three
/// bytes that are no known tag is marked to be dropped, whatever bytes follow, and
/// broadcasts nothing.
pub proof fn lemma_unknown_tag_receive_drops(c: ConnView, bytes: Seq<u8>, now: u64)
    requires
        (c.recv_buf + bytes).len() >= 3,
        kind_of_tag((c.recv_buf + bytes).take(3)) is None,
    ensures
        receive_spec(c, bytes, now).0.marked,
        receive_spec(c, bytes, now).1 == Seq::<Seq<u8>>::empty(),
{
}

/// The heartbeat steps of a connection that sends nothing, at the given times.
pub open spec fn heartbeats(c: ConnView, times: Seq<u64>) -> ConnView
    decreases times.len(),
{
    if times.len() == 0 {
        c
    } else {
        heartbeats(heartbeat_step(c, times[0]), times.skip(1))
    }
}

/// Whether a heartbeat request falls due at `t` when the last one went out at `prev`.
pub open spec fn due_after(prev: u64, t: u64) -> bool {
    t >= prev && t - prev > HB_REQUEST_INTERVAL_MS
}

/// Times at which, one after the other, a heartbeat request is due: each comes more
/// than the request interval after the one before, the first after `start`.
pub open spec fn all_due(start: u64, times: Seq<u64>) -> bool {
    &&& times.len() > 0 ==> due_after(start, times[0])
    &&& forall|i: int| 0 < i < times.len() ==> due_after(times[i - 1], #[trigger] times[i])
}

proof fn lemma_all_due_tail(start: u64, times: Seq<u64>)
    requires
        times.len() > 0,
        all_due(start, times),
    ensures
        all_due(times[0], times.skip(1)),
{
    assert forall|i: int| 0 < i < times.skip(1).len() implies due_after(
        times.skip(1)[i - 1],
        #[trigger] times.skip(1)[i],
    ) by {
        assert(times.skip(1)[i] == times[i + 1]);
        assert(times.skip(1)[i - 1] == times[i]);
    }
    if times.skip(1).len() > 0 {
        assert(times.skip(1)[0] == times[1]);
    }
}

/// A registered connection that answered the last request (its skip counter is zero)
/// is not marked by the next heartbeat step.
pub proof fn lemma_answered_kept(c: ConnView, now: u64)
    requires
        !c.marked,
        c.heartbeat_skipped == 0,
    ensures
        !heartbeat_step(c, now).marked,
{
}

/// A registered connection that answers none of the requests due at `times` stays
/// until the request that makes its skip counter reach `MAX_HB_SKIP`, and is marked
/// to be dropped by that one.
pub proof fn lemma_silent_dropped(c: ConnView, times: Seq<u64>)
    requires
        c.state == SessionState::Active,
        !c.marked,
        c.heartbeat_skipped < MAX_HB_SKIP,
        times.len() == MAX_HB_SKIP - c.heartbeat_skipped,
        all_due(c.last_request_ms, times),
    ensures
        heartbeats(c, times).marked,
        forall|k: int| 0 <= k < times.len() ==> !(#[trigger] heartbeats(c, times.take(k))).marked,
    decreases times.len(),
{
    let c2 = heartbeat_step(c, times[0]);
    assert(c2.heartbeat_skipped == c.heartbeat_skipped + 1);
    assert(c2.last_request_ms == times[0]);
    assert(heartbeats(c, times) == heartbeats(c2, times.skip(1)));
    if c2.heartbeat_skipped < MAX_HB_SKIP {
        lemma_all_due_tail(c.last_request_ms, times);
        lemma_silent_dropped(c2, times.skip(1));
    } else {
        assert(times.skip(1).len() == 0);
        assert(heartbeats(c2, times.skip(1)) == c2);
    }
    assert forall|k: int| 0 <= k < times.len() implies !(#[trigger] heartbeats(
        c,
        times.take(k),
    )).marked by {
        if k > 0 {
            assert(times.take(k)[0] == times[0]);
            assert(times.take(k).skip(1) =~= times.skip(1).take(k - 1));
            assert(heartbeats(c, times.take(k)) == heartbeats(c2, times.skip(1).take(k - 1)));
        } else {
            assert(times.take(k).len() == 0);
            assert(heartbeats(c, times.take(k)) == c);
        }
    }
}

/// The session's step does not look at the buffer and leaves it as it is.
proof fn lemma_step_ignores_buffer(c: ConnView, buf: Seq<u8>, p: PacketView, now: u64)
    ensures
        session_step(ConnView { recv_buf: buf, ..c }, p, now) == (
            ConnView { recv_buf: buf, ..session_step(c, p, now).0 },
            session_step(c, p, now).1,
        ),
        session_step(c, p, now).0.recv_buf == c.recv_buf,
        session_step(c, p, now).0.marked == c.marked,
{
}

/// Draining a buffer and then receiving `t` ends as draining the buffer with `t`
/// already appended does.
proof fn lemma_drain_extend(c: ConnView, t: Seq<u8>, now: u64)
    requires
        !c.marked,
    ensures
        ({
            let (c1, bs1) = drain(c, now);
            let (c2, bs2) = receive_spec(c1, t, now);
            (c2, bs1 + bs2) == drain(ConnView { recv_buf: c.recv_buf + t, ..c }, now)
        }),
    decreases c.recv_buf.len(),
{
    let s = c.recv_buf;
    let ct = ConnView { recv_buf: s + t, ..c };
    lemma_decode_bounds(s);
    match decode(s) {
        Err(ParserError::MissingData) => {
            assert(ConnView { recv_buf: s + t, ..c } == ct);
            assert(Seq::<Seq<u8>>::empty() + drain(ct, now).1 =~= drain(ct, now).1);
        },
        Err(e) => {
            lemma_decode_extend(s, t);
            assert(Seq::<Seq<u8>>::empty() + Seq::<Seq<u8>>::empty() =~= Seq::<Seq<u8>>::empty());
        },
        Ok((p, n)) => {
            lemma_decode_extend(s, t);
            assert((s + t).skip(n) =~= s.skip(n) + t);
            let base = ConnView { recv_buf: s.skip(n), ..c };
            lemma_step_ignores_buffer(base, s.skip(n) + t, p, now);
            assert(ConnView { recv_buf: (s + t).skip(n), ..ct } == ConnView {
                recv_buf: s.skip(n) + t,
                ..base
            });
            let (x, r) = session_step(base, p, now);
            match r {
                Reaction::Violation => {
                    assert(Seq::<Seq<u8>>::empty() + Seq::<Seq<u8>>::empty() =~= Seq::<
                        Seq<u8>,
                    >::empty());
                },
                Reaction::Continue => {
                    lemma_drain_extend(x, t, now);
                },
                Reaction::Reply(q) => {
                    let x2 = ConnView { outbox: x.outbox + wire(q), ..x };
                    lemma_drain_extend(x2, t, now);
                    assert(ConnView { recv_buf: x2.recv_buf + t, ..x2 } == ConnView {
                        outbox: x.outbox + wire(q),
                        ..ConnView { recv_buf: s.skip(n) + t, ..x }
                    });
                },
                Reaction::Broadcast(b) => {
                    lemma_drain_extend(x, t, now);
                    let (c1, bs1) = drain(x, now);
                    let (c2, bs2) = receive_spec(c1, t, now);
                    assert(seq![wire(b)] + bs1 + bs2 =~= seq![wire(b)] + (bs1 + bs2));
                },
            }
        },
    }
}

/// Bytes split across reads: receiving `a` and then `b` leaves a connection as
/// receiving `a` followed by `b` in one read does, with the same broadcasts in the
/// same order. A packet cut between two reads is therefore handled as if it had come
/// whole.
pub proof fn lemma_receive_split(c: ConnView, a: Seq<u8>, b: Seq<u8>, now: u64)
    ensures
        ({
            let (c1, bs1) = receive_spec(c, a, now);
            let (c2, bs2) = receive_spec(c1, b, now);
            (c2, bs1 + bs2) == receive_spec(c, a + b, now)
        }),
{
    if c.marked {
        assert(Seq::<Seq<u8>>::empty() + Seq::<Seq<u8>>::empty() =~= Seq::<Seq<u8>>::empty());
    } else {
        let ca = ConnView { recv_buf: c.recv_buf + a, ..c };
        lemma_drain_extend(ca, b, now);
        assert(ca.recv_buf + b =~= c.recv_buf + (a + b));
    }
}

} // verus!
