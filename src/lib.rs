//! Matchmaking and turn-state core of a two-player tic-tac-toe server.
//!
//! Callers are paired through a waiting list, each pairing creates a game
//! session, and moves are checked against the session's turn order and board.
pub mod game;
pub mod ids;
pub mod laws;
pub mod server;
pub mod store;
