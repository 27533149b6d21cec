//! Wire protocol and server-side session logic of a small TCP chat service.
//!
//! The codec turns the seven packet kinds into bytes and back; the session and the
//! registry hold the server's view of its clients and decide, tick by tick, what to
//! send and whom to drop; the chat log is what a client shows.
use vstd::prelude::*;

pub mod packet;
pub mod wire;
pub mod parser;
pub mod serializer;
pub mod wire_laws;
pub mod session;
pub mod session_laws;
pub mod registry;
pub mod chat_log;
pub mod client_session;

pub use packet::{
    ClientRegistrationEnd, ClientRegistrationRequest, ClientRegistrationRequestOwned,
    ClientSendMessage, ClientSendMessageOwned, HeartBeatRequest, HeartBeatSend, Packet,
    PacketKind, PacketOwned, ServerBroadcastMessage, ServerBroadcastMessageOwned,
    ServerRegistrationConfirmation,
};

verus! {

} // verus!
