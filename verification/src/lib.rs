//! State and rules of an interactive grid editor: a resizable matrix of cells,
//! the clean-up of typed cell text, the projection of a matrix into a table of
//! cells, and the update loop that ties them together.

pub mod app;
pub mod grid;
pub mod input;
pub mod matrix;
pub mod position;
pub mod table;
