//! The client's side of a connection: it registers, echoes the server's confirmation,
//! answers heartbeats, and turns broadcasts into chat lines.
use vstd::prelude::*;
use vstd::string::StrSliceExecFns;
use crate::chat_log::Message;
use crate::packet::{
    ClientRegistrationEnd, ClientRegistrationRequest, ClientSendMessage, HeartBeatSend, Packet,
    PacketOwned, PacketView,
};
use crate::parser::FromBytes;
use crate::serializer::{IntoBytes, byte_len, encoded_as};
use crate::wire::{ParserError, SerializerError, decode, encode, utf8_len, well_formed, wire};
use crate::wire_laws::lemma_decode_bounds;

verus! {

/// The most characters of a username that a client sends.
pub const MAX_USERNAME_CHARS: usize = 30;

/// Whether `c` has the Unicode property White_Space, by which `char::is_whitespace`
/// and `str::trim` go.
pub open spec fn is_white_space(c: char) -> bool {
    let u = c as u32;
    ||| 0x9 <= u <= 0xD
    ||| u == 0x20
    ||| u == 0x85
    ||| u == 0xA0
    ||| u == 0x1680
    ||| 0x2000 <= u <= 0x200A
    ||| u == 0x2028
    ||| u == 0x2029
    ||| u == 0x202F
    ||| u == 0x205F
    ||| u == 0x3000
}

/// `s` without its leading white space.
pub open spec fn trim_start(s: Seq<char>) -> Seq<char>
    decreases s.len(),
{
    if s.len() > 0 && is_white_space(s[0]) {
        trim_start(s.drop_first())
    } else {
        s
    }
}

/// `s` without its trailing white space.
pub open spec fn trim_end(s: Seq<char>) -> Seq<char>
    decreases s.len(),
{
    if s.len() > 0 && is_white_space(s.last()) {
        trim_end(s.drop_last())
    } else {
        s
    }
}

/// `s` without its leading and trailing white space.
pub open spec fn trimmed(s: Seq<char>) -> Seq<char> {
    trim_end(trim_start(s))
}

/// Relies on `str::trim`: the string with its leading and trailing White_Space
/// characters removed.
#[verifier::external_body]
fn trim(s: &str) -> (r: &str)
    ensures
        r@ == trimmed(s@),
{
    s.trim()
}

/// The first `MAX_USERNAME_CHARS` characters of a name, or all of them if fewer.
pub open spec fn capped(name: Seq<char>) -> Seq<char> {
    if name.len() > MAX_USERNAME_CHARS {
        name.take(MAX_USERNAME_CHARS as int)
    } else {
        name
    }
}

/// Cuts an already trimmed name to at most `MAX_USERNAME_CHARS` characters.
pub fn cap_username(name: &str) -> (r: String)
    ensures
        r@ == capped(name@),
{
    let n = name.unicode_len();
    let cut = if n > MAX_USERNAME_CHARS {
        MAX_USERNAME_CHARS
    } else {
        n
    };
    let r = name.substring_char(0, cut).to_owned();
    assert(r@ =~= capped(name@));
    r
}

/// The username a client sends for what the user typed: trimmed of surrounding
/// whitespace, then cut to at most `MAX_USERNAME_CHARS` characters.
pub fn clamp_username(raw: &str) -> (r: String)
    ensures
        r@ == capped(trimmed(raw@)),
{
    cap_username(trim(raw))
}

/// Where the client stands in the handshake.
#[derive(Debug, Clone, Copy, PartialEq, Eq, Structural)]
pub enum ClientState {
    /// The registration request is sent; the confirmation has not come yet.
    AwaitingConfirmation,
    /// The confirmation came and was echoed: the client may chat.
    Registered,
}

/// The content of a client session.
pub struct ClientView {
    pub state: ClientState,
    pub client_id: u32,
    pub magic: u32,
    pub recv_buf: Seq<u8>,
    pub closed: bool,
}

/// What a packet from the server asks of the client.
pub enum ClientReaction {
    /// A packet to send back.
    Send(PacketView),
    /// A chat line to show: author id, author name, text.
    Show(u32, Seq<char>, Seq<char>),
    /// The packet breaks the protocol: the client hangs up.
    Violation,
}

/// The client's step on one packet from the server.
pub open spec fn client_step(c: ClientView, p: PacketView) -> (ClientView, ClientReaction) {
    match (c.state, p) {
        (
            ClientState::AwaitingConfirmation,
            PacketView::ServerRegistrationConfirmation { client_id, magic },
        ) => (
            ClientView { state: ClientState::Registered, client_id, magic, ..c },
            ClientReaction::Send(PacketView::ClientRegistrationEnd { client_id, magic }),
        ),
        (ClientState::Registered, PacketView::HeartBeatRequest) => (
            c,
            ClientReaction::Send(
                PacketView::HeartBeatSend { client_id: c.client_id, magic: c.magic },
            ),
        ),
        (
            ClientState::Registered,
            PacketView::ServerBroadcastMessage { user_id, username, message, .. },
        ) => (c, ClientReaction::Show(user_id, username, message)),
        _ => (c, ClientReaction::Violation),
    }
}

/// A chat line as shown.
pub open spec fn shows(m: Message, author_id: u32, name: Seq<char>, text: Seq<char>) -> bool {
    &&& m.author_id == author_id
    &&& m.author_username@ == name
    &&& m.message@ == text
}

/// One step of draining the client's buffer.
pub enum ClientAdvance {
    /// Draining stops, with this session: the bytes ran short or the session closed.
    Done(ClientView),
    /// A packet was handled: the session afterwards, the bytes to send, and the line to
    /// show (author, name, text) if any.
    Next(ClientView, Seq<u8>, Option<(u32, Seq<char>, Seq<char>)>),
}

/// Decodes the packet at the front of the client's buffer and handles it.
pub open spec fn client_advance(c: ClientView) -> ClientAdvance {
    match decode(c.recv_buf) {
        Err(ParserError::MissingData) => ClientAdvance::Done(c),
        Err(_) => ClientAdvance::Done(ClientView { closed: true, ..c }),
        Ok((p, n)) => {
            let (c2, x) = client_step(ClientView { recv_buf: c.recv_buf.skip(n), ..c }, p);
            match x {
                ClientReaction::Violation => ClientAdvance::Done(ClientView { closed: true, ..c2 }),
                ClientReaction::Send(q) => ClientAdvance::Next(c2, wire(q), None),
                ClientReaction::Show(a, name, text) => ClientAdvance::Next(
                    c2,
                    Seq::empty(),
                    Some((a, name, text)),
                ),
            }
        },
    }
}

/// The line of a step, as a sequence of zero or one lines.
pub open spec fn step_lines(l: Option<(u32, Seq<char>, Seq<char>)>) -> Seq<(u32, Seq<char>, Seq<char>)> {
    match l {
        Some(x) => seq![x],
        None => Seq::empty(),
    }
}

/// What the client does with everything now in its buffer: the session afterwards,
/// the bytes to send, and the lines to show (author, name, text), in order. Draining
/// stops when the bytes run short or the session closes. (Every step takes bytes from
/// the buffer; the length test only makes that plain to the termination check.)
pub open spec fn client_drain(c: ClientView) -> (ClientView, Seq<u8>, Seq<(u32, Seq<char>, Seq<char>)>)
    decreases c.recv_buf.len(),
{
    match client_advance(c) {
        ClientAdvance::Done(c2) => (c2, Seq::empty(), Seq::empty()),
        ClientAdvance::Next(c2, out, line) => if c2.recv_buf.len() < c.recv_buf.len() {
            let (c3, more, lines) = client_drain(c2);
            (c3, out + more, step_lines(line) + lines)
        } else {
            (c2, Seq::empty(), Seq::empty())
        },
    }
}

/// The client's side of a connection.
pub struct ClientSession {
    pub state: ClientState,
    /// The id the server issued; zero until then.
    pub client_id: u32,
    /// The magic the server issued; zero until then.
    pub magic: u32,
    /// Received bytes that do not yet form a whole packet.
    pub recv_buf: Vec<u8>,
    /// Set once the server broke the protocol; the session then ignores what comes.
    pub closed: bool,
}

impl View for ClientSession {
    type V = ClientView;

    open spec fn view(&self) -> ClientView {
        ClientView {
            state: self.state,
            client_id: self.client_id,
            magic: self.magic,
            recv_buf: self.recv_buf@,
            closed: self.closed,
        }
    }
}

/// What the client sends first: its registration request.
pub open spec fn registration_of(username: Seq<char>) -> PacketView {
    PacketView::ClientRegistrationRequest { username_len: utf8_len(username) as u8, username }
}

/// The chat message a registered client sends for `text`.
pub open spec fn chat_of(c: ClientView, text: Seq<char>) -> PacketView {
    PacketView::ClientSendMessage {
        client_id: c.client_id,
        magic: c.magic,
        message_len: utf8_len(text) as u16,
        message: text,
    }
}

impl ClientSession {
    /// Opens a session for `username`; returns it with the registration request to send,
    /// or the error when the name does not fit its length prefix.
    pub fn start(username: &str) -> (r: Result<(ClientSession, Vec<u8>), SerializerError>)
        ensures
            match (r, encode(registration_of(username@))) {
                (Ok((s, b)), Ok(w)) => {
                    &&& b@ == w
                    &&& s@ == (ClientView {
                        state: ClientState::AwaitingConfirmation,
                        client_id: 0,
                        magic: 0,
                        recv_buf: Seq::empty(),
                        closed: false,
                    })
                },
                (Err(e), Err(f)) => e == f,
                _ => false,
            },
    {
        let n = byte_len(username);
        let request = ClientRegistrationRequest { username_len: n as u8, username };
        match request.into_bytes() {
            Ok(b) => Ok(
                (
                    ClientSession {
                        state: ClientState::AwaitingConfirmation,
                        client_id: 0,
                        magic: 0,
                        recv_buf: Vec::new(),
                        closed: false,
                    },
                    b,
                ),
            ),
            Err(e) => Err(e),
        }
    }

    /// The chat message to send for `text`: `None` before registration or once closed,
    /// otherwise its bytes, or the error when the text is too long.
    pub fn send_chat(&self, text: &str) -> (r: Option<Result<Vec<u8>, SerializerError>>)
        ensures
            self.state != ClientState::Registered || self.closed ==> r is None,
            self.state == ClientState::Registered && !self.closed ==> (r matches Some(res)
                && encoded_as(res, chat_of(self@, text@))),
    {
        if self.state != ClientState::Registered || self.closed {
            return None;
        }
        let n = byte_len(text);
        let packet = ClientSendMessage {
            client_id: self.client_id,
            magic: self.magic,
            message_len: n as u16,
            message: text,
        };
        Some(packet.into_bytes())
    }

    /// Handles one packet from the server, as `client_step` says: the bytes to send,
    /// and the line to show, if any; `Err(())` when the packet breaks the protocol.
    fn handle(&mut self, p: &PacketOwned) -> (r: Result<(Vec<u8>, Option<Message>), ()>)
        requires
            well_formed(p@),
        ensures
            final(self)@ == client_step(old(self)@, p@).0,
            match (r, client_step(old(self)@, p@).1) {
                (Ok((b, None)), ClientReaction::Send(q)) => b@ == wire(q),
                (Ok((b, Some(m))), ClientReaction::Show(a, name, text)) => b@.len() == 0 && shows(
                    m,
                    a,
                    name,
                    text,
                ),
                (Err(()), ClientReaction::Violation) => true,
                _ => false,
            },
    {
        match (self.state, p) {
            (ClientState::AwaitingConfirmation, PacketOwned::ServerRegistrationConfirmation(c)) => {
                self.state = ClientState::Registered;
                self.client_id = c.client_id;
                self.magic = c.magic;
                let echo = ClientRegistrationEnd { client_id: c.client_id, magic: c.magic };
                Ok((echo.unwrap_bytes(), None))
            },
            (ClientState::Registered, PacketOwned::HeartBeatRequest(_)) => {
                let answer = HeartBeatSend { client_id: self.client_id, magic: self.magic };
                Ok((answer.unwrap_bytes(), None))
            },
            (ClientState::Registered, PacketOwned::ServerBroadcastMessage(m)) => {
                let line = Message {
                    author_id: m.user_id,
                    author_username: m.username.clone(),
                    message: m.message.clone(),
                };
                Ok((Vec::new(), Some(line)))
            },
            _ => Err(()),
        }
    }

    /// Buffers `bytes` and handles every whole packet now in the buffer, as
    /// `client_drain` says: returns the bytes to send and the lines to show, in order.
    /// A closed session ignores what comes.
    pub fn receive(&mut self, bytes: &[u8]) -> (r: (Vec<u8>, Vec<Message>))
        ensures
            old(self).closed ==> final(self)@ == old(self)@ && r.0@.len() == 0 && r.1@.len() == 0,
            !old(self).closed ==> {
                let (c, out, lines) = client_drain(
                    ClientView { recv_buf: old(self)@.recv_buf + bytes@, ..old(self)@ },
                );
                &&& final(self)@ == c
                &&& r.0@ == out
                &&& r.1@.len() == lines.len()
                &&& forall|k: int|
                    0 <= k < lines.len() ==> shows(
                        #[trigger] r.1@[k],
                        lines[k].0,
                        lines[k].1,
                        lines[k].2,
                    )
            },
    {
        let mut out: Vec<u8> = Vec::new();
        let mut shown: Vec<Message> = Vec::new();
        if self.closed {
            return (out, shown);
        }
        let ghost start = self@;
        let mut i: usize = 0;
        while i < bytes.len()
            invariant
                i <= bytes@.len(),
                self@ == (ClientView { recv_buf: start.recv_buf + bytes@.take(i as int), ..start }),
            decreases bytes@.len() - i,
        {
            self.recv_buf.push(bytes[i]);
            i = i + 1;
            assert(self.recv_buf@ =~= start.recv_buf + bytes@.take(i as int));
        }
        assert(bytes@.take(i as int) =~= bytes@);
        let ghost target = client_drain(self@);
        assert(out@ =~= Seq::<u8>::empty());
        loop
            invariant
                !self.closed,
                !old(self).closed,
                target == client_drain(
                    ClientView { recv_buf: old(self)@.recv_buf + bytes@, ..old(self)@ },
                ),
                client_drain(self@).0 == target.0,
                out@ + client_drain(self@).1 == target.1,
                shown@.len() + client_drain(self@).2.len() == target.2.len(),
                forall|k: int|
                    0 <= k < shown@.len() ==> shows(
                        #[trigger] shown@[k],
                        target.2[k].0,
                        target.2[k].1,
                        target.2[k].2,
                    ),
                forall|k: int|
                    0 <= k < client_drain(self@).2.len() ==> target.2[shown@.len() + k]
                        == #[trigger] client_drain(self@).2[k],
            decreases self.recv_buf@.len(),
        {
            let ghost rest = client_drain(self@);
            match self.advance() {
                None => {
                    assert(out@ + Seq::<u8>::empty() =~= out@);
                    return (out, shown);
                },
                Some((b, line)) => {
                    let ghost seen = out@;
                    let ghost next = client_drain(self@);
                    let ghost sent = b@;
                    let mut b = b;
                    out.append(&mut b);
                    assert(seen + (sent + next.1) =~= out@ + next.1);
                    match line {
                        Some(m) => {
                            let ghost k0 = shown@.len() as int;
                            shown.push(m);
                            assert(rest.2 =~= seq![rest.2[0]] + next.2);
                            assert forall|k: int|
                                0 <= k < next.2.len() implies target.2[shown@.len() + k]
                                == #[trigger] next.2[k] by {
                                assert(rest.2[k + 1] == next.2[k]);
                            }
                        },
                        None => {
                            assert(rest.2 =~= next.2);
                        },
                    }
                },
            }
        }
    }

    /// Handles the packet at the front of the buffer, as `client_advance` says: `None`
    /// when draining stops, otherwise the bytes to send and the line to show, if any.
    fn advance(&mut self) -> (r: Option<(Vec<u8>, Option<Message>)>)
        requires
            !old(self).closed,
        ensures
            match client_advance(old(self)@) {
                ClientAdvance::Done(c) => r is None && final(self)@ == c,
                ClientAdvance::Next(c, out, line) => {
                    &&& final(self)@ == c
                    &&& !c.closed
                    &&& c.recv_buf.len() < old(self)@.recv_buf.len()
                    &&& r matches Some((b, m)) && b@ == out && match (m, line) {
                        (Some(m), Some(l)) => shows(m, l.0, l.1, l.2),
                        (None, None) => true,
                        _ => false,
                    }
                },
            },
    {
        proof {
            lemma_decode_bounds(self.recv_buf@);
        }
        let decoded = match Packet::from_bytes(self.recv_buf.as_slice()) {
            Ok((rest, p)) => Ok((self.recv_buf.len() - rest.len(), p.into_owned())),
            Err(e) => Err(e),
        };
        match decoded {
            Err(ParserError::MissingData) => None,
            Err(_) => {
                self.closed = true;
                None
            },
            Ok((n, p)) => {
                let tail = self.recv_buf.split_off(n);
                self.recv_buf = tail;
                match self.handle(&p) {
                    Err(()) => {
                        self.closed = true;
                        None
                    },
                    Ok((b, line)) => Some((b, line)),
                }
            },
        }
    }
}

} // verus!
