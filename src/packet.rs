//! Packet types, borrowed and owned, and the abstract value each of them stands for.
use vstd::prelude::*;

verus! {

/// The seven kinds of packet of the protocol.
#[derive(Debug, Clone, Copy, PartialEq, Eq, Structural)]
pub enum PacketKind {
    ClientRegistrationRequest,
    ClientRegistrationEnd,
    ClientSendMessage,
    HeartBeatSend,
    ServerRegistrationConfirmation,
    ServerBroadcastMessage,
    HeartBeatRequest,
}

/// The content of a packet, with each string seen as its characters.
/// Borrowed and owned packets with the same content have the same view.
pub enum PacketView {
    ClientRegistrationRequest { username_len: u8, username: Seq<char> },
    ClientRegistrationEnd { client_id: u32, magic: u32 },
    ClientSendMessage { client_id: u32, magic: u32, message_len: u16, message: Seq<char> },
    HeartBeatSend { client_id: u32, magic: u32 },
    ServerRegistrationConfirmation { client_id: u32, magic: u32 },
    ServerBroadcastMessage {
        user_id: u32,
        username_len: u8,
        username: Seq<char>,
        message_len: u16,
        message: Seq<char>,
    },
    HeartBeatRequest,
}

/// The kind of packet a view belongs to.
pub open spec fn kind_of(v: PacketView) -> PacketKind {
    match v {
        PacketView::ClientRegistrationRequest { .. } => PacketKind::ClientRegistrationRequest,
        PacketView::ClientRegistrationEnd { .. } => PacketKind::ClientRegistrationEnd,
        PacketView::ClientSendMessage { .. } => PacketKind::ClientSendMessage,
        PacketView::HeartBeatSend { .. } => PacketKind::HeartBeatSend,
        PacketView::ServerRegistrationConfirmation { .. } => PacketKind::ServerRegistrationConfirmation,
        PacketView::ServerBroadcastMessage { .. } => PacketKind::ServerBroadcastMessage,
        PacketView::HeartBeatRequest => PacketKind::HeartBeatRequest,
    }
}

/// The three ASCII bytes that open a packet of the given kind on the wire.
pub open spec fn tag_of(k: PacketKind) -> Seq<u8> {
    match k {
        PacketKind::ClientRegistrationRequest => seq![0x63u8, 0x72u8, 0x72u8],  // "crr"
        PacketKind::ClientRegistrationEnd => seq![0x63u8, 0x72u8, 0x65u8],  // "cre"
        PacketKind::ClientSendMessage => seq![0x63u8, 0x73u8, 0x6du8],  // "csm"
        PacketKind::HeartBeatSend => seq![0x68u8, 0x62u8, 0x73u8],  // "hbs"
        PacketKind::ServerRegistrationConfirmation => seq![0x73u8, 0x72u8, 0x63u8],  // "src"
        PacketKind::ServerBroadcastMessage => seq![0x73u8, 0x62u8, 0x6du8],  // "sbm"
        PacketKind::HeartBeatRequest => seq![0x68u8, 0x62u8, 0x72u8],  // "hbr"
    }
}

/// The kind whose tag is `t`, if any.
pub open spec fn kind_of_tag(t: Seq<u8>) -> Option<PacketKind> {
    if t == tag_of(PacketKind::ClientRegistrationRequest) {
        Some(PacketKind::ClientRegistrationRequest)
    } else if t == tag_of(PacketKind::ClientRegistrationEnd) {
        Some(PacketKind::ClientRegistrationEnd)
    } else if t == tag_of(PacketKind::ClientSendMessage) {
        Some(PacketKind::ClientSendMessage)
    } else if t == tag_of(PacketKind::HeartBeatSend) {
        Some(PacketKind::HeartBeatSend)
    } else if t == tag_of(PacketKind::ServerRegistrationConfirmation) {
        Some(PacketKind::ServerRegistrationConfirmation)
    } else if t == tag_of(PacketKind::ServerBroadcastMessage) {
        Some(PacketKind::ServerBroadcastMessage)
    } else if t == tag_of(PacketKind::HeartBeatRequest) {
        Some(PacketKind::HeartBeatRequest)
    } else {
        None
    }
}

/// Packets that only the server sends; a client that sends one breaks the protocol.
pub open spec fn is_server_only(k: PacketKind) -> bool {
    ||| k == PacketKind::ServerRegistrationConfirmation
    ||| k == PacketKind::ServerBroadcastMessage
    ||| k == PacketKind::HeartBeatRequest
}

/// A packet as decoded in place: its strings borrow from the received bytes.
#[derive(Debug, Clone, PartialEq, Eq)]
#[non_exhaustive]
pub enum Packet<'a> {
    ClientRegistrationRequest(ClientRegistrationRequest<'a>),
    ClientRegistrationEnd(ClientRegistrationEnd),
    ClientSendMessage(ClientSendMessage<'a>),
    HeartBeatSend(HeartBeatSend),
    ServerRegistrationConfirmation(ServerRegistrationConfirmation),
    ServerBroadcastMessage(ServerBroadcastMessage<'a>),
    HeartBeatRequest(HeartBeatRequest),
}

/// A packet that owns its strings, so that it can outlive the bytes it came from.
#[derive(Debug, Clone, PartialEq, Eq)]
#[non_exhaustive]
pub enum PacketOwned {
    ClientRegistrationRequest(ClientRegistrationRequestOwned),
    ClientRegistrationEnd(ClientRegistrationEnd),
    ClientSendMessage(ClientSendMessageOwned),
    HeartBeatSend(HeartBeatSend),
    ServerRegistrationConfirmation(ServerRegistrationConfirmation),
    ServerBroadcastMessage(ServerBroadcastMessageOwned),
    HeartBeatRequest(HeartBeatRequest),
}

#[derive(Debug, Clone, Copy, PartialEq, Eq)]
pub struct ClientRegistrationEnd {
    pub client_id: u32,
    pub magic: u32,
}

#[derive(Debug, Clone, PartialEq, Eq)]
pub struct ClientRegistrationRequest<'a> {
    pub username_len: u8,
    pub username: &'a str,
}

#[derive(Debug, Clone, PartialEq, Eq)]
pub struct ClientRegistrationRequestOwned {
    pub username_len: u8,
    pub username: String,
}

#[derive(Debug, Clone, Copy, PartialEq, Eq)]
pub struct ServerRegistrationConfirmation {
    pub client_id: u32,
    pub magic: u32,
}

#[derive(Debug, Clone, PartialEq, Eq)]
pub struct ClientSendMessage<'a> {
    pub client_id: u32,
    pub magic: u32,
    pub message_len: u16,
    pub message: &'a str,
}

#[derive(Debug, Clone, PartialEq, Eq)]
pub struct ClientSendMessageOwned {
    pub client_id: u32,
    pub magic: u32,
    pub message_len: u16,
    pub message: String,
}

#[derive(Debug, Clone, PartialEq, Eq)]
pub struct ServerBroadcastMessage<'a> {
    pub user_id: u32,
    pub username_len: u8,
    pub username: &'a str,
    pub message_len: u16,
    pub message: &'a str,
}

#[derive(Debug, Clone, PartialEq, Eq)]
pub struct ServerBroadcastMessageOwned {
    pub user_id: u32,
    pub username_len: u8,
    pub username: String,
    pub message_len: u16,
    pub message: String,
}

#[derive(Debug, Clone, Copy, PartialEq, Eq)]
pub struct HeartBeatRequest {}

#[derive(Debug, Clone, Copy, PartialEq, Eq)]
pub struct HeartBeatSend {
    pub client_id: u32,
    pub magic: u32,
}

impl View for ClientRegistrationEnd {
    type V = PacketView;

    open spec fn view(&self) -> PacketView {
        PacketView::ClientRegistrationEnd { client_id: self.client_id, magic: self.magic }
    }
}

impl<'a> View for ClientRegistrationRequest<'a> {
    type V = PacketView;

    open spec fn view(&self) -> PacketView {
        PacketView::ClientRegistrationRequest {
            username_len: self.username_len,
            username: self.username@,
        }
    }
}

impl View for ClientRegistrationRequestOwned {
    type V = PacketView;

    open spec fn view(&self) -> PacketView {
        PacketView::ClientRegistrationRequest {
            username_len: self.username_len,
            username: self.username@,
        }
    }
}

impl View for ServerRegistrationConfirmation {
    type V = PacketView;

    open spec fn view(&self) -> PacketView {
        PacketView::ServerRegistrationConfirmation { client_id: self.client_id, magic: self.magic }
    }
}

impl<'a> View for ClientSendMessage<'a> {
    type V = PacketView;

    open spec fn view(&self) -> PacketView {
        PacketView::ClientSendMessage {
            client_id: self.client_id,
            magic: self.magic,
            message_len: self.message_len,
            message: self.message@,
        }
    }
}

impl View for ClientSendMessageOwned {
    type V = PacketView;

    open spec fn view(&self) -> PacketView {
        PacketView::ClientSendMessage {
            client_id: self.client_id,
            magic: self.magic,
            message_len: self.message_len,
            message: self.message@,
        }
    }
}

impl<'a> View for ServerBroadcastMessage<'a> {
    type V = PacketView;

    open spec fn view(&self) -> PacketView {
        PacketView::ServerBroadcastMessage {
            user_id: self.user_id,
            username_len: self.username_len,
            username: self.username@,
            message_len: self.message_len,
            message: self.message@,
        }
    }
}

impl View for ServerBroadcastMessageOwned {
    type V = PacketView;

    open spec fn view(&self) -> PacketView {
        PacketView::ServerBroadcastMessage {
            user_id: self.user_id,
            username_len: self.username_len,
            username: self.username@,
            message_len: self.message_len,
            message: self.message@,
        }
    }
}

impl View for HeartBeatRequest {
    type V = PacketView;

    open spec fn view(&self) -> PacketView {
        PacketView::HeartBeatRequest
    }
}

impl View for HeartBeatSend {
    type V = PacketView;

    open spec fn view(&self) -> PacketView {
        PacketView::HeartBeatSend { client_id: self.client_id, magic: self.magic }
    }
}

impl<'a> View for Packet<'a> {
    type V = PacketView;

    open spec fn view(&self) -> PacketView {
        match self {
            Packet::ClientRegistrationRequest(p) => p@,
            Packet::ClientRegistrationEnd(p) => p@,
            Packet::ClientSendMessage(p) => p@,
            Packet::HeartBeatSend(p) => p@,
            Packet::ServerRegistrationConfirmation(p) => p@,
            Packet::ServerBroadcastMessage(p) => p@,
            Packet::HeartBeatRequest(p) => p@,
        }
    }
}

impl View for PacketOwned {
    type V = PacketView;

    open spec fn view(&self) -> PacketView {
        match self {
            PacketOwned::ClientRegistrationRequest(p) => p@,
            PacketOwned::ClientRegistrationEnd(p) => p@,
            PacketOwned::ClientSendMessage(p) => p@,
            PacketOwned::HeartBeatSend(p) => p@,
            PacketOwned::ServerRegistrationConfirmation(p) => p@,
            PacketOwned::ServerBroadcastMessage(p) => p@,
            PacketOwned::HeartBeatRequest(p) => p@,
        }
    }
}

impl<'a> Packet<'a> {
    /// Copies the packet's strings, so that the result no longer borrows.
    pub fn into_owned(&self) -> (r: PacketOwned)
        ensures
            r@ == self@,
    {
        match self {
            Packet::ClientRegistrationRequest(p) => PacketOwned::ClientRegistrationRequest(
                p.into_owned(),
            ),
            Packet::ClientRegistrationEnd(p) => PacketOwned::ClientRegistrationEnd(*p),
            Packet::ClientSendMessage(p) => PacketOwned::ClientSendMessage(p.into_owned()),
            Packet::HeartBeatSend(p) => PacketOwned::HeartBeatSend(*p),
            Packet::ServerRegistrationConfirmation(p) => PacketOwned::ServerRegistrationConfirmation(
                *p,
            ),
            Packet::ServerBroadcastMessage(p) => PacketOwned::ServerBroadcastMessage(
                p.into_owned(),
            ),
            Packet::HeartBeatRequest(p) => PacketOwned::HeartBeatRequest(*p),
        }
    }

    /// The wire tag of the packet.
    pub fn get_identifier(&self) -> (r: [u8; 3])
        ensures
            r@ == tag_of(kind_of(self@)),
    {
        match self {
            Packet::ClientRegistrationRequest(p) => p.get_identifier(),
            Packet::ClientRegistrationEnd(p) => p.get_identifier(),
            Packet::ClientSendMessage(p) => p.get_identifier(),
            Packet::HeartBeatSend(p) => p.get_identifier(),
            Packet::ServerBroadcastMessage(p) => p.get_identifier(),
            Packet::ServerRegistrationConfirmation(p) => p.get_identifier(),
            Packet::HeartBeatRequest(p) => p.get_identifier(),
        }
    }
}

impl PacketOwned {
    /// The wire tag of the packet.
    pub fn get_identifier(&self) -> (r: [u8; 3])
        ensures
            r@ == tag_of(kind_of(self@)),
    {
        match self {
            PacketOwned::ClientRegistrationRequest(p) => p.get_identifier(),
            PacketOwned::ClientRegistrationEnd(p) => p.get_identifier(),
            PacketOwned::ClientSendMessage(p) => p.get_identifier(),
            PacketOwned::HeartBeatSend(p) => p.get_identifier(),
            PacketOwned::ServerBroadcastMessage(p) => p.get_identifier(),
            PacketOwned::ServerRegistrationConfirmation(p) => p.get_identifier(),
            PacketOwned::HeartBeatRequest(p) => p.get_identifier(),
        }
    }
}

impl<'a> ClientRegistrationRequest<'a> {
    pub fn into_owned(&self) -> (r: ClientRegistrationRequestOwned)
        ensures
            r@ == self@,
    {
        ClientRegistrationRequestOwned {
            username_len: self.username_len,
            username: self.username.to_owned(),
        }
    }

    pub fn get_identifier(&self) -> (r: [u8; 3])
        ensures
            r@ == tag_of(PacketKind::ClientRegistrationRequest),
    {
        [0x63u8, 0x72u8, 0x72u8]
    }
}

impl<'a> ClientSendMessage<'a> {
    pub fn into_owned(&self) -> (r: ClientSendMessageOwned)
        ensures
            r@ == self@,
    {
        ClientSendMessageOwned {
            client_id: self.client_id,
            magic: self.magic,
            message_len: self.message_len,
            message: self.message.to_owned(),
        }
    }

    pub fn get_identifier(&self) -> (r: [u8; 3])
        ensures
            r@ == tag_of(PacketKind::ClientSendMessage),
    {
        [0x63u8, 0x73u8, 0x6du8]
    }
}

impl<'a> ServerBroadcastMessage<'a> {
    pub fn into_owned(&self) -> (r: ServerBroadcastMessageOwned)
        ensures
            r@ == self@,
    {
        ServerBroadcastMessageOwned {
            user_id: self.user_id,
            username_len: self.username_len,
            username: self.username.to_owned(),
            message_len: self.message_len,
            message: self.message.to_owned(),
        }
    }

    pub fn get_identifier(&self) -> (r: [u8; 3])
        ensures
            r@ == tag_of(PacketKind::ServerBroadcastMessage),
    {
        [0x73u8, 0x62u8, 0x6du8]
    }
}

impl ClientRegistrationEnd {
    pub fn get_identifier(&self) -> (r: [u8; 3])
        ensures
            r@ == tag_of(PacketKind::ClientRegistrationEnd),
    {
        [0x63u8, 0x72u8, 0x65u8]
    }
}

impl ClientRegistrationRequestOwned {
    pub fn get_identifier(&self) -> (r: [u8; 3])
        ensures
            r@ == tag_of(PacketKind::ClientRegistrationRequest),
    {
        [0x63u8, 0x72u8, 0x72u8]
    }
}

impl ClientSendMessageOwned {
    pub fn get_identifier(&self) -> (r: [u8; 3])
        ensures
            r@ == tag_of(PacketKind::ClientSendMessage),
    {
        [0x63u8, 0x73u8, 0x6du8]
    }
}

impl HeartBeatSend {
    pub fn get_identifier(&self) -> (r: [u8; 3])
        ensures
            r@ == tag_of(PacketKind::HeartBeatSend),
    {
        [0x68u8, 0x62u8, 0x73u8]
    }
}

impl ServerBroadcastMessageOwned {
    pub fn get_identifier(&self) -> (r: [u8; 3])
        ensures
            r@ == tag_of(PacketKind::ServerBroadcastMessage),
    {
        [0x73u8, 0x62u8, 0x6du8]
    }
}

impl ServerRegistrationConfirmation {
    pub fn get_identifier(&self) -> (r: [u8; 3])
        ensures
            r@ == tag_of(PacketKind::ServerRegistrationConfirmation),
    {
        [0x73u8, 0x72u8, 0x63u8]
    }
}

impl HeartBeatRequest {
    pub fn get_identifier(&self) -> (r: [u8; 3])
        ensures
            r@ == tag_of(PacketKind::HeartBeatRequest),
    {
        [0x68u8, 0x62u8, 0x72u8]
    }
}

} // verus!
