//! Process-wide game state: the current phase, the level, and what the
//! renderer needs to describe the room.

use vstd::prelude::*;
use crate::map::GameMap;

verus! {

/// The global game stage.
#[derive(Clone, Copy, PartialEq, Eq, Structural, Debug)]
pub enum Phase {
    BeforeNextGame,
    InGame,
    BreakInGame,
}

/// Process-wide state shared by the simulation systems: the join address of
/// the room (shown to players as a code), the phase, and the level.
pub struct State {
    pub room_url: String,
    pub phase: Phase,
    pub number_of_ready_players: u32,
    pub map: GameMap,
    pub resolution: (u32, u32),
}

impl State {
    /// A fresh state before any game, on the given level.
    pub fn new(room_url: String, map: GameMap, resolution: (u32, u32)) -> (r: State)
        ensures
            r.room_url == room_url,
            r.phase == Phase::BeforeNextGame,
            r.number_of_ready_players == 0,
            r.map == map,
            r.resolution == resolution,
    {
        State { room_url, phase: Phase::BeforeNextGame, number_of_ready_players: 0, map, resolution }
    }
}

} // verus!
