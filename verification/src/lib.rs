pub mod grid;
pub mod render;
