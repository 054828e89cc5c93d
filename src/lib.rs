//! A Sokoban engine: a fixed grid of terrain and movable objects, and the
//! push rules that move the player and the boxes over it.

pub mod board;
pub mod game;
pub mod render;
pub mod controls;
