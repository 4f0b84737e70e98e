//! A two-player game on a three-by-three grid, with machine-checked rules.

pub mod game;
pub mod notation;
pub mod play;
pub mod rules;
