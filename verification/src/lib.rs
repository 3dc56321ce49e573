//! A verified engine for two-player tic-tac-toe: the 3x3 grid, turn
//! alternation, move validation, win/draw detection, text rendering, and the
//! parser for coordinate input lines.

pub mod input;
pub mod state;
