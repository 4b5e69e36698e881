//! Messages handed from the I/O domain into the game loop.

use vstd::prelude::*;
use vstd::string::StringExecFns;
use crate::remotes::PlayerInput;
use crate::state::State;
use crate::world::{World, WorldModel};

verus! {

/// What the transport tasks enqueue for the simulation: a decoded remote
/// input, or the room id assigned by the signaling server.
pub enum MessageToGame {
    PlayerInput(PlayerInput),
    RoomId(RoomId),
}

/// The room identifier under which the signaling server knows this game.
pub struct RoomId(pub String);

/// Deliver one message from the I/O domain into the game, between ticks: a
/// player input becomes a fresh pending-input entity for the next tick's
/// input resolution, and a room id becomes the room's join address, built
/// from the given base.
pub fn deliver_message_to_game(
    world: &mut World,
    state: &mut State,
    message: MessageToGame,
    join_url_base: &str,
)
    requires
        old(world)@.wf(),
        old(world)@.len() < usize::MAX,
    ensures
        final(world)@.wf(),
        match message {
            MessageToGame::PlayerInput(input) => {
                &&& final(world)@ == (WorldModel {
                    inputs: old(world)@.append_empty().inputs
                        .update(old(world)@.len() as int, Some(input)),
                    ..old(world)@.append_empty()
                })
                &&& *final(state) == *old(state)
            },
            MessageToGame::RoomId(room) => {
                &&& *final(world) == *old(world)
                &&& final(state).room_url@ == join_url_base@ + room.0@
                &&& final(state).phase == old(state).phase
                &&& final(state).map == old(state).map
                &&& final(state).resolution == old(state).resolution
                &&& final(state).number_of_ready_players == old(state).number_of_ready_players
            },
        },
{
    match message {
        MessageToGame::PlayerInput(player_input) => {
            let e = world.create_entity();
            let inserted = world.insert_input(e, player_input);
            proof {
                assert(inserted is Ok);
            }
        },
        MessageToGame::RoomId(room) => {
            let mut url = String::from_str(join_url_base);
            url.append(room.0.as_str());
            state.room_url = url;
        },
    }
}

} // verus!
