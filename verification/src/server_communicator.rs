//! The game side of the signaling link: message shapes exchanged with the
//! signaling server, and the routing decision for each inbound message.
//!
//! The websocket itself lives outside the library; it feeds every decoded
//! `ServerMessage` through `dispatch_server_message` and delivers the
//! result to the game loop or to the players connector.

use vstd::prelude::*;
use crate::game::{MessageToGame, RoomId};

verus! {

/// A message arriving from the signaling server.
pub enum ServerMessage {
    RoomId(String),
    SdpOffer(SdpMessage),
}

/// A correlated signaling payload: the offer or answer text and the
/// request id that pairs them over one duplex channel.
#[derive(Debug)]
pub struct SdpMessage {
    pub id: u32,
    pub data: String,
}

/// A message sent back to the signaling server.
#[derive(Debug)]
pub enum MessageToServer {
    SdpAnswer(SdpMessage),
}

/// Where one inbound server message must go.
pub enum DispatchedServerMessage {
    ToGame(MessageToGame),
    ToPlayersConnector(SdpMessage),
}

/// Route one decoded message from the signaling server: a room id goes to
/// the game loop, an offer goes to the players connector.
pub fn dispatch_server_message(message: ServerMessage) -> (r: DispatchedServerMessage)
    ensures
        match message {
            ServerMessage::RoomId(id) =>
                r == DispatchedServerMessage::ToGame(MessageToGame::RoomId(RoomId(id))),
            ServerMessage::SdpOffer(offer) =>
                r == DispatchedServerMessage::ToPlayersConnector(offer),
        },
{
    match message {
        ServerMessage::SdpOffer(sdp_offer) => {
            DispatchedServerMessage::ToPlayersConnector(sdp_offer)
        },
        ServerMessage::RoomId(room_id) => {
            DispatchedServerMessage::ToGame(MessageToGame::RoomId(RoomId(room_id)))
        },
    }
}

} // verus!
