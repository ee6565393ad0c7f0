//! Commit-reveal board games: board and combat rules, weapon commitments,
//! the game record with its lifecycle and turn phases, and the registry
//! that creates games and dispatches player actions.

pub mod rpscore;
pub mod commitment;
pub mod error;
pub mod game;
pub mod rps_online;
pub mod rps;
pub mod queues;
pub mod blocks;
