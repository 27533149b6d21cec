//! One client connection on the server: its registration handshake, the packets it
//! sends, and the heartbeats it owes.
use vstd::prelude::*;
use crate::packet::{
    HeartBeatRequest, Packet, PacketOwned, PacketView, ServerBroadcastMessage,
    ServerRegistrationConfirmation,
};
use crate::parser::FromBytes;
use crate::serializer::{IntoBytes, byte_len, extend_bytes};
use crate::wire::{ParserError, decode, utf8_len, well_formed, wire};
use crate::wire_laws::lemma_decode_bounds;

verus! {

/// Heartbeat requests a connection may leave unanswered in a row; the one that reaches
/// this count gets the connection dropped.
pub const MAX_HB_SKIP: u8 = 5;

/// Milliseconds that must pass between two heartbeat requests to one connection.
pub const HB_REQUEST_INTERVAL_MS: u64 = 2000;

/// Where a connection stands in the registration handshake. It only moves forward.
#[derive(Debug, Clone, Copy, PartialEq, Eq, Structural)]
pub enum SessionState {
    /// Admitted; the client has not yet sent its username.
    AwaitingRegistration,
    /// The server has sent the id and magic; the client has not yet echoed them.
    AwaitingConfirmationEcho,
    /// Registered: the client may chat and must answer heartbeats.
    Active,
}

/// The content of a connection record.
pub struct ConnView {
    pub id: u32,
    pub magic: u32,
    pub username: Seq<char>,
    pub recv_buf: Seq<u8>,
    pub state: SessionState,
    pub heartbeat_skipped: u8,
    pub last_heartbeat_ms: u64,
    pub last_request_ms: u64,
    pub marked: bool,
    pub outbox: Seq<u8>,
}

/// A client connection as the server keeps it.
pub struct Connection {
    /// The id issued to the client.
    pub id: u32,
    /// The random token issued with the id.
    pub magic: u32,
    /// Empty until the client registers.
    pub username: String,
    /// Received bytes that do not yet form a whole packet.
    pub recv_buf: Vec<u8>,
    pub state: SessionState,
    /// Heartbeat requests sent since the last answer.
    pub heartbeat_skipped: u8,
    /// When the last heartbeat answer came, in milliseconds of the server's clock.
    pub last_heartbeat_ms: u64,
    /// When the last heartbeat request went out.
    pub last_request_ms: u64,
    /// Set once the connection is to be dropped at the end of the tick.
    pub marked: bool,
    /// Bytes to write to the client at the end of the tick.
    pub outbox: Vec<u8>,
}

impl View for Connection {
    type V = ConnView;

    open spec fn view(&self) -> ConnView {
        ConnView {
            id: self.id,
            magic: self.magic,
            username: self.username@,
            recv_buf: self.recv_buf@,
            state: self.state,
            heartbeat_skipped: self.heartbeat_skipped,
            last_heartbeat_ms: self.last_heartbeat_ms,
            last_request_ms: self.last_request_ms,
            marked: self.marked,
            outbox: self.outbox@,
        }
    }
}

/// What a packet asks of the server.
pub enum Reaction {
    /// Nothing to send.
    Continue,
    /// A packet to send back to this client.
    Reply(PacketView),
    /// A packet to send to every registered client.
    Broadcast(PacketView),
    /// The packet breaks the protocol: the connection is dropped.
    Violation,
}

/// What a packet asks of the server, with the packets to send already encoded.
#[derive(Debug)]
pub enum Response {
    Continue,
    Reply(Vec<u8>),
    Broadcast(Vec<u8>),
    Violation,
}

/// Whether a response is the reaction `x`, with its packet encoded.
pub open spec fn responds_as(r: Response, x: Reaction) -> bool {
    match (r, x) {
        (Response::Continue, Reaction::Continue) => true,
        (Response::Reply(b), Reaction::Reply(v)) => b@ == wire(v),
        (Response::Broadcast(b), Reaction::Broadcast(v)) => b@ == wire(v),
        (Response::Violation, Reaction::Violation) => true,
        _ => false,
    }
}

/// The registration confirmation that carries a connection's identity.
pub open spec fn confirmation_of(c: ConnView) -> PacketView {
    PacketView::ServerRegistrationConfirmation { client_id: c.id, magic: c.magic }
}

/// The chat line that a registered connection's message becomes.
pub open spec fn broadcast_of(c: ConnView, message: Seq<char>) -> PacketView {
    PacketView::ServerBroadcastMessage {
        user_id: c.id,
        username_len: utf8_len(c.username) as u8,
        username: c.username,
        message_len: utf8_len(message) as u16,
        message,
    }
}

/// The session's step on one packet from the client: the record afterwards, and what
/// the server must do.
pub open spec fn session_step(c: ConnView, p: PacketView, now: u64) -> (ConnView, Reaction) {
    match c.state {
        SessionState::AwaitingRegistration => match p {
            PacketView::ClientRegistrationRequest { username, .. } => (
                ConnView { username, state: SessionState::AwaitingConfirmationEcho, ..c },
                Reaction::Reply(confirmation_of(c)),
            ),
            _ => (c, Reaction::Violation),
        },
        SessionState::AwaitingConfirmationEcho => match p {
            PacketView::ClientRegistrationEnd { client_id, magic } => if client_id == c.id && magic
                == c.magic {
                (ConnView { state: SessionState::Active, ..c }, Reaction::Continue)
            } else {
                (c, Reaction::Violation)
            },
            _ => (c, Reaction::Violation),
        },
        SessionState::Active => match p {
            PacketView::ClientSendMessage { client_id, magic, message, .. } => if client_id == c.id
                && magic == c.magic {
                (c, Reaction::Broadcast(broadcast_of(c, message)))
            } else {
                (c, Reaction::Violation)
            },
            PacketView::HeartBeatSend { client_id, magic } => if client_id == c.id && magic
                == c.magic {
                (ConnView { last_heartbeat_ms: now, heartbeat_skipped: 0, ..c }, Reaction::Continue)
            } else {
                (c, Reaction::Violation)
            },
            _ => (c, Reaction::Violation),
        },
    }
}

/// One step of draining a connection's buffer.
pub enum Advance {
    /// Draining stops, with this record: the bytes ran short, or the connection is marked
    /// and its buffer, no longer aligned on packets, is emptied.
    Done(ConnView),
    /// A packet was handled; the record afterwards, and the broadcast it produced if any.
    Next(ConnView, Option<Seq<u8>>),
}

/// Decodes the packet at the front of the buffer and hands it to the session.
pub open spec fn advance(c: ConnView, now: u64) -> Advance {
    match decode(c.recv_buf) {
        Err(ParserError::MissingData) => Advance::Done(c),
        Err(_) => Advance::Done(ConnView { marked: true, recv_buf: Seq::empty(), ..c }),
        Ok((p, n)) => {
            let (c2, x) = session_step(ConnView { recv_buf: c.recv_buf.skip(n), ..c }, p, now);
            match x {
                Reaction::Violation => Advance::Done(
                    ConnView { marked: true, recv_buf: Seq::empty(), ..c2 },
                ),
                Reaction::Continue => Advance::Next(c2, None),
                Reaction::Reply(r) => Advance::Next(ConnView { outbox: c2.outbox + wire(r), ..c2 }, None),
                Reaction::Broadcast(b) => Advance::Next(c2, Some(wire(b))),
            }
        },
    }
}

/// The broadcast of a step, as a sequence of zero or one packets.
pub open spec fn step_broadcasts(b: Option<Seq<u8>>) -> Seq<Seq<u8>> {
    match b {
        Some(x) => seq![x],
        None => Seq::empty(),
    }
}

/// Draining an unmarked connection's buffer packet by packet until the bytes run short
/// or the connection is marked: the record afterwards and the broadcasts produced, in
/// order. (Every step takes bytes from the buffer; the length test only makes that
/// plain to the termination check.)
pub open spec fn drain(c: ConnView, now: u64) -> (ConnView, Seq<Seq<u8>>)
    decreases c.recv_buf.len(),
{
    match advance(c, now) {
        Advance::Done(c2) => (c2, Seq::empty()),
        Advance::Next(c2, b) => if c2.recv_buf.len() < c.recv_buf.len() {
            let (c3, bs) = drain(c2, now);
            (c3, step_broadcasts(b) + bs)
        } else {
            (c2, Seq::empty())
        },
    }
}

/// Receiving `bytes` on a connection: a marked connection ignores them; another one
/// buffers them and drains its buffer.
pub open spec fn receive_spec(c: ConnView, bytes: Seq<u8>, now: u64) -> (ConnView, Seq<Seq<u8>>) {
    if c.marked {
        (c, Seq::empty())
    } else {
        drain(ConnView { recv_buf: c.recv_buf + bytes, ..c }, now)
    }
}

/// Whether a heartbeat request is due: the connection is registered, not marked, and
/// more than the request interval has passed since the last request.
pub open spec fn heartbeat_due(c: ConnView, now: u64) -> bool {
    &&& c.state == SessionState::Active
    &&& !c.marked
    &&& now >= c.last_request_ms
    &&& now - c.last_request_ms > HB_REQUEST_INTERVAL_MS
}

/// The heartbeat step: when a request is due, it is queued, the skip counter goes up,
/// and the connection is marked once the counter reaches `MAX_HB_SKIP`.
pub open spec fn heartbeat_step(c: ConnView, now: u64) -> ConnView {
    if heartbeat_due(c, now) {
        let skipped = if c.heartbeat_skipped < 255 {
            (c.heartbeat_skipped + 1) as u8
        } else {
            255u8
        };
        ConnView {
            outbox: c.outbox + wire(PacketView::HeartBeatRequest),
            heartbeat_skipped: skipped,
            last_request_ms: now,
            marked: skipped >= MAX_HB_SKIP,
            ..c
        }
    } else {
        c
    }
}

impl Connection {
    /// A connection just admitted under the given identity.
    pub fn new(id: u32, magic: u32, now: u64) -> (r: Connection)
        ensures
            r.wf(),
            r@ == (ConnView {
                id,
                magic,
                username: Seq::empty(),
                recv_buf: Seq::empty(),
                state: SessionState::AwaitingRegistration,
                heartbeat_skipped: 0,
                last_heartbeat_ms: now,
                last_request_ms: now,
                marked: false,
                outbox: Seq::empty(),
            }),
    {
        Connection {
            id,
            magic,
            username: String::new(),
            recv_buf: Vec::new(),
            state: SessionState::AwaitingRegistration,
            heartbeat_skipped: 0,
            last_heartbeat_ms: now,
            last_request_ms: now,
            marked: false,
            outbox: Vec::new(),
        }
    }

    /// The username fits the one-byte length prefix of a broadcast.
    pub open spec fn wf(&self) -> bool {
        utf8_len(self.username@) <= 255
    }

    /// Handles one packet from the client, as `session_step` says.
    pub fn handle_packet(&mut self, p: &PacketOwned, now: u64) -> (r: Response)
        requires
            old(self).wf(),
            well_formed(p@),
        ensures
            final(self).wf(),
            final(self)@ == session_step(old(self)@, p@, now).0,
            responds_as(r, session_step(old(self)@, p@, now).1),
    {
        match self.state {
            SessionState::AwaitingRegistration => match p {
                PacketOwned::ClientRegistrationRequest(req) => {
                    self.username = req.username.clone();
                    self.state = SessionState::AwaitingConfirmationEcho;
                    let confirmation = ServerRegistrationConfirmation {
                        client_id: self.id,
                        magic: self.magic,
                    };
                    Response::Reply(confirmation.unwrap_bytes())
                },
                _ => Response::Violation,
            },
            SessionState::AwaitingConfirmationEcho => match p {
                PacketOwned::ClientRegistrationEnd(end) => {
                    if end.client_id == self.id && end.magic == self.magic {
                        self.state = SessionState::Active;
                        Response::Continue
                    } else {
                        Response::Violation
                    }
                },
                _ => Response::Violation,
            },
            SessionState::Active => match p {
                PacketOwned::ClientSendMessage(msg) => {
                    if msg.client_id == self.id && msg.magic == self.magic {
                        let line = ServerBroadcastMessage {
                            user_id: self.id,
                            username_len: byte_len(self.username.as_str()) as u8,
                            username: self.username.as_str(),
                            message_len: msg.message_len,
                            message: msg.message.as_str(),
                        };
                        Response::Broadcast(line.unwrap_bytes())
                    } else {
                        Response::Violation
                    }
                },
                PacketOwned::HeartBeatSend(hb) => {
                    if hb.client_id == self.id && hb.magic == self.magic {
                        self.last_heartbeat_ms = now;
                        self.heartbeat_skipped = 0;
                        Response::Continue
                    } else {
                        Response::Violation
                    }
                },
                _ => Response::Violation,
            },
        }
    }

    /// Buffers `bytes` and handles every whole packet now in the buffer, as
    /// `receive_spec` says: replies go to the outbox, and the broadcasts come back in
    /// order, encoded. Bytes of a packet not yet complete stay in the buffer.
    pub fn receive(&mut self, bytes: &[u8], now: u64) -> (bs: Vec<Vec<u8>>)
        requires
            old(self).wf(),
        ensures
            final(self).wf(),
            final(self).id == old(self).id,
            (final(self)@, bs.deep_view()) == receive_spec(old(self)@, bytes@, now),
    {
        let mut out: Vec<Vec<u8>> = Vec::new();
        if self.marked {
            assert(out.deep_view() =~= Seq::<Seq<u8>>::empty());
            return out;
        }
        let ghost start = self@;
        let mut i: usize = 0;
        while i < bytes.len()
            invariant
                i <= bytes@.len(),
                self.wf(),
                self@ == (ConnView { recv_buf: start.recv_buf + bytes@.take(i as int), ..start }),
            decreases bytes@.len() - i,
        {
            self.recv_buf.push(bytes[i]);
            i = i + 1;
            assert(self.recv_buf@ =~= start.recv_buf + bytes@.take(i as int));
        }
        assert(bytes@.take(i as int) =~= bytes@);
        let ghost target = drain(self@, now);
        assert(target == receive_spec(old(self)@, bytes@, now));
        assert(out.deep_view() =~= Seq::<Seq<u8>>::empty());
        loop
            invariant
                self.wf(),
                !self.marked,
                drain(self@, now).0 == target.0,
                out.deep_view() + drain(self@, now).1 == target.1,
                target == receive_spec(old(self)@, bytes@, now),
                self.id == old(self).id,
            decreases self.recv_buf@.len(),
        {
            let ghost before = self@;
            match self.advance(now) {
                None => {
                    assert(out.deep_view() + Seq::<Seq<u8>>::empty() =~= out.deep_view());
                    return out;
                },
                Some(b) => {
                    let ghost seen = out.deep_view();
                    let ghost rest = drain(self@, now).1;
                    match b {
                        Some(b) => {
                            assert(b.deep_view() =~= b@);
                            out.push(b);
                            assert(out.deep_view() =~= seen.push(b@));
                            assert(seen + (seq![b@] + rest) =~= seen.push(b@) + rest);
                        },
                        None => {
                            assert(seen + (Seq::<Seq<u8>>::empty() + rest) =~= seen + rest);
                        },
                    }
                },
            }
        }
    }

    /// Handles the packet at the front of the buffer, as `advance` says: `None` when
    /// draining stops, otherwise the encoded broadcast of the step, if any.
    fn advance(&mut self, now: u64) -> (r: Option<Option<Vec<u8>>>)
        requires
            old(self).wf(),
            !old(self).marked,
        ensures
            final(self).wf(),
            final(self).id == old(self).id,
            match advance(old(self)@, now) {
                Advance::Done(c) => r is None && final(self)@ == c,
                Advance::Next(c, b) => {
                    &&& final(self)@ == c
                    &&& !c.marked
                    &&& c.recv_buf.len() < old(self)@.recv_buf.len()
                    &&& r matches Some(ob) && match (ob, b) {
                        (Some(x), Some(y)) => x@ == y,
                        (None, None) => true,
                        _ => false,
                    }
                },
            },
    {
        proof {
            lemma_decode_bounds(self.recv_buf@);
        }
        let decoded = match Packet::from_bytes(self.recv_buf.as_slice()) {
            Ok((rest, p)) => Ok((self.recv_buf.len() - rest.len(), p.into_owned())),
            Err(e) => Err(e),
        };
        match decoded {
            Err(ParserError::MissingData) => None,
            Err(_) => {
                self.marked = true;
                self.recv_buf.clear();
                None
            },
            Ok((n, p)) => {
                let tail = self.recv_buf.split_off(n);
                self.recv_buf = tail;
                match self.handle_packet(&p, now) {
                    Response::Violation => {
                        self.marked = true;
                        self.recv_buf.clear();
                        None
                    },
                    Response::Continue => Some(None),
                    Response::Reply(b) => {
                        let mut b = b;
                        self.outbox.append(&mut b);
                        Some(None)
                    },
                    Response::Broadcast(b) => Some(Some(b)),
                }
            },
        }
    }

    /// The heartbeat step of the tick, as `heartbeat_step` says.
    pub fn heartbeat(&mut self, now: u64)
        requires
            old(self).wf(),
        ensures
            final(self).wf(),
            final(self)@ == heartbeat_step(old(self)@, now),
    {
        if self.state == SessionState::Active && !self.marked && now >= self.last_request_ms && now
            - self.last_request_ms > HB_REQUEST_INTERVAL_MS {
            self.heartbeat_skipped = if self.heartbeat_skipped < 255 {
                self.heartbeat_skipped + 1
            } else {
                255
            };
            let mut request = HeartBeatRequest {  }.unwrap_bytes();
            self.outbox.append(&mut request);
            self.last_request_ms = now;
            if self.heartbeat_skipped >= MAX_HB_SKIP {
                self.marked = true;
            }
        }
    }

    /// Marks the connection to be dropped at the end of the tick.
    pub fn mark(&mut self)
        requires
            old(self).wf(),
        ensures
            final(self).wf(),
            final(self)@ == (ConnView { marked: true, ..old(self)@ }),
    {
        self.marked = true;
    }

    /// Queues `bytes` for the client.
    pub fn queue(&mut self, bytes: &[u8])
        requires
            old(self).wf(),
        ensures
            final(self).wf(),
            final(self)@ == (ConnView { outbox: old(self)@.outbox + bytes@, ..old(self)@ }),
    {
        extend_bytes(&mut self.outbox, bytes);
    }

    /// Hands out the bytes queued for the client, leaving the outbox empty.
    pub fn take_outbox(&mut self) -> (r: Vec<u8>)
        requires
            old(self).wf(),
        ensures
            final(self).wf(),
            r@ == old(self)@.outbox,
            final(self)@ == (ConnView { outbox: Seq::empty(), ..old(self)@ }),
    {
        let mut r: Vec<u8> = Vec::new();
        std::mem::swap(&mut r, &mut self.outbox);
        r
    }
}

} // verus!
