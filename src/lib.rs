//! Tic-tac-toe: the rules of the 3x3 game and an exhaustive minimax search
//! that picks an optimal move for either side.

pub mod board;
pub mod search;
pub mod input;
