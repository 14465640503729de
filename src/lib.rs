//! A three-layer board game: three stacked 3×3 grids and the rules that decide
//! when a color has won.
pub mod color;
pub mod layer;
pub mod board;
pub mod laws;
pub mod game;
