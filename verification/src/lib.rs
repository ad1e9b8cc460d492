//! Rules engine, move search and session logic for duck chess: a chess
//! variant in which every turn is a normal piece move followed by the
//! placement of a neutral, non-capturable duck onto an empty square.

pub mod engine;
pub mod logic;
pub mod lookup;
pub mod movegen;
pub mod pgn;
pub mod search;
pub mod session;
pub mod square;
pub mod types;
