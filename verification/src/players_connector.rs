//! The connector that turns accepted offers into peers of the game: it
//! assigns each new remote peer a stable socket id and wraps the locally
//! produced answer for the signaling server under the offer's request id.
//!
//! The peer-to-peer transport itself (connection setup, data channels) is
//! an external collaborator; the connector holds only the decisions: which
//! socket id a peer gets, and what goes back to the server.

use vstd::prelude::*;
use vstd::string::StringSliceAdditionalSpecFns;
use crate::server_communicator::{MessageToServer, SdpMessage};
use crate::signal::{b64_of, encode};

verus! {

/// The connector state: the next socket id to hand to a fresh peer.
pub struct PlayersConnector {
    next_player_socket_id: u32,
}

impl PlayersConnector {
    /// The socket id the next accepted peer will get.
    pub closed spec fn spec_next_socket_id(&self) -> u32 {
        self.next_player_socket_id
    }

    /// A fresh connector; socket ids start at zero.
    pub fn new() -> (r: PlayersConnector)
        ensures
            r.spec_next_socket_id() == 0,
    {
        PlayersConnector { next_player_socket_id: 0 }
    }

    /// Accept one offer: allocate the socket id under which the new peer's
    /// inputs will reach the world, and wrap the locally produced `answer`
    /// for the server, base64-framed, under the offer's request id.
    pub fn accept_offer(&mut self, offer_id: u32, answer: &str) -> (r: (u32, MessageToServer))
        requires
            old(self).spec_next_socket_id() < u32::MAX,
        ensures
            r.0 == old(self).spec_next_socket_id(),
            final(self).spec_next_socket_id() == old(self).spec_next_socket_id() + 1,
            r.1 matches MessageToServer::SdpAnswer(m) && m.id == offer_id
                && m.data@ == b64_of(answer.spec_bytes()),
    {
        let socket_id = self.next_player_socket_id;
        self.next_player_socket_id = self.next_player_socket_id + 1;
        let message = MessageToServer::SdpAnswer(SdpMessage {
            id: offer_id,
            data: encode(answer),
        });
        (socket_id, message)
    }
}

} // verus!
