//! A three-by-three game of two marks played in turns: the board, the turn
//! order, which moves are legal, and when the game is over.

pub mod game;
pub mod laws;
pub mod input;
pub mod render;
