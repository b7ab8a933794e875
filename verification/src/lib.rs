//! A multiplayer snake game on a toroidal board: the game rules, the session
//! bookkeeping, the leaderboard and the wire-message shapes, with their contracts.

pub mod chance;
pub mod config;
pub mod game;
pub mod geo;
pub mod laws;
pub mod leaderboard;
pub mod net;
pub mod probe;
