//! The messages exchanged with the game server, as plain values.
//!
//! Identifiers (agents and resources) are 128-bit values; the binary that
//! talks to the server converts them from and to their textual UUID form.
use vstd::prelude::*;

verus! {

/// A message sent by the game server.
#[derive(Debug, Clone)]
pub enum ServerMsg {
    /// First message of a session: the identifier given to this agent.
    Hello { agent_id: u128, tick_ms: u64 },
    /// A snapshot of the whole game at a tick.
    State {
        tick: u64,
        width: u16,
        height: u16,
        goal: u32,
        obstacles: Vec<(u16, u16)>,
        /// `(id, x, y, expires_at, value)` of each resource on the map.
        resources: Vec<(u128, u16, u16, u64, u32)>,
        /// `(id, name, team, score, x, y)` of each agent in the game.
        agents: Vec<(u128, String, String, u32, u16, u16)>,
    },
    /// A proof-of-work challenge that claims the resource `resource_id`.
    PowChallenge { tick: u64, seed: String, resource_id: u128, target_bits: u8 },
    /// The resource `resource_id` has been claimed.
    PowResult { resource_id: u128 },
    /// The game is over and `team` has won.
    Win { team: String },
}

/// A message sent by the agent to the game server.
#[derive(Debug, Clone)]
pub enum ClientMsg {
    Register { team: String, name: String },
    PowSubmit { tick: u64, resource_id: u128, nonce: u64 },
    Move { dx: i8, dy: i8 },
}

} // verus!
