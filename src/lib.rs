//! A falling-block puzzle engine: piece catalog, play field with collision
//! and line clearing, piece movement, a seeded piece generator and the
//! per-tick decisions of the game loop.

pub mod shapes;
pub mod field;
pub mod piece;
pub mod generator;
pub mod game;
pub mod render;
