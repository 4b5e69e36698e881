//! Decoded remote commands, as the transport layer hands them to the
//! simulation.

use vstd::prelude::*;
use crate::components::Dir;

verus! {

/// One pending remote command, tagged with the live transport session that
/// sent it. Consumed (and its entity deleted) by input resolution each tick.
pub struct PlayerInput {
    pub socket_id: u32,
    pub remote_input: RemoteInput,
}

/// A decoded remote command: either an in-game intent, a configuration
/// intent, or nothing.
#[derive(Clone)]
pub enum RemoteInput {
    GameInput(GameInput),
    ConfigurationInput(ConfigurationInput),
    NoInput,
}

/// In-game intents. Directions are unit vectors in fixed-point form
/// (both components scaled by `DIR_SCALE`).
#[derive(Clone, Copy, PartialEq, Eq, Structural, Debug)]
pub enum GameInput {
    Aim(Dir),
    Shoot,
    Stop,
    Move(Dir),
}

/// Configuration-phase intents: ready-up, naming, and the stable player
/// identity that survives reconnection.
#[derive(Clone)]
pub enum ConfigurationInput {
    Ready,
    NotReady,
    SetName(String),
    PlayerId(String),
}

impl RemoteInput {
    /// An owned copy equal to this input.
    pub fn duplicate(&self) -> (r: RemoteInput)
        ensures
            r == *self,
    {
        match self {
            RemoteInput::GameInput(g) => RemoteInput::GameInput(*g),
            RemoteInput::ConfigurationInput(c) => RemoteInput::ConfigurationInput(c.duplicate()),
            RemoteInput::NoInput => RemoteInput::NoInput,
        }
    }
}

impl ConfigurationInput {
    /// An owned copy equal to this intent.
    pub fn duplicate(&self) -> (r: ConfigurationInput)
        ensures
            r == *self,
    {
        match self {
            ConfigurationInput::Ready => ConfigurationInput::Ready,
            ConfigurationInput::NotReady => ConfigurationInput::NotReady,
            ConfigurationInput::SetName(s) => ConfigurationInput::SetName(s.clone()),
            ConfigurationInput::PlayerId(s) => ConfigurationInput::PlayerId(s.clone()),
        }
    }
}

} // verus!
