//! An N-in-a-row board game (a generalised tic-tac-toe) for two or more
//! players on a rectangular grid: the board, move validation, turn rotation
//! and win/tie detection.

pub mod asciiui;
pub mod game;
pub mod gamefield;
pub mod input;
pub mod player;
