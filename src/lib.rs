//! A two-player tic-tac-toe game on a fixed 3×3 board: the board with its
//! placement, move checks and winner detection, the parser for typed moves,
//! and the turn logic that drives a game.

pub mod board;
pub mod game;
