//! Decision logic of a mining agent for a grid game played over a websocket:
//! the game state kept from the server's messages, the choice of the next move,
//! the bookkeeping of the proof-of-work miners, and what the agent answers to
//! each message of the server.

pub mod agent;
pub mod miner;
pub mod protocol;
pub mod state;
pub mod strategy;
