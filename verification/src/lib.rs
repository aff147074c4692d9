//! A falling-block puzzle engine: the shape table, the playfield, the
//! collision test, the per-tick rules and the frame composition.

pub mod shapes;
pub mod collision;
pub mod piece;
pub mod board;
pub mod rules;
pub mod game;
pub mod input;
pub mod screen;
