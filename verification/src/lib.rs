//! Authoritative simulation and session-multiplexing engine for a real-time
//! multiplayer arena game.
//!
//! The world is a grid of wall and ground blocks; players and bullets move on
//! it in fixed-point block units, advanced by a fixed tick pipeline: input
//! resolution, phase-dependent intent handling, movement with wall collision,
//! bullet-player collision, bullet spawning and shot cooldown decay. A
//! session layer multiplexes signaling connections by room id and correlates
//! offer/answer exchanges by per-session request ids.

pub mod components;
pub mod configuration;
pub mod error;
pub mod game;
pub mod games_api;
pub mod map;
pub mod password;
pub mod player;
pub mod players_connector;
pub mod remotes;
pub mod repository;
pub mod result;
pub mod route;
pub mod server_communicator;
pub mod signal;
pub mod state;
pub mod systems;
pub mod world;
