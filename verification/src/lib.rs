//! A checkers rules engine with a depth-limited alpha-beta search.
//!
//! The board is kept as three 64-bit occupancy masks. Every public function
//! carries a contract over a mathematical model of the board: a map from
//! square indices to pieces, and sequences of moves over that map.

pub mod backend;
pub mod bitboard;
pub mod bitfield;
pub mod board;
pub mod engine;
pub mod gamestate;
pub mod legality;
pub mod piece;
pub mod ply;
pub mod rules;
pub mod square;
pub mod static_eval;
pub mod text;
