//! Rules engine for ultimate tic-tac-toe.
//!
//! The game is played on an outer 3x3 board whose cells are ordinary 3x3
//! tic-tac-toe boards. The crate tracks which tiles are taken, derives the
//! outcome of every inner board and of the outer board, and enforces the rule
//! that a move sends the opponent to the inner board matching the tile that
//! was just played.

pub mod board;
pub mod game;
pub mod line;
pub mod message;
pub mod parse;
pub mod player;
pub mod pos;
pub mod random;
pub mod state;
pub mod tile;
