pub mod cell;
pub mod group;
pub mod grid;
pub mod universe;
pub mod patterns;
pub mod still_life;

pub use cell::Cell;
pub use group::CellGroup;
pub use grid::{DenseGrid, Grid, PackedGrid};
pub use universe::Universe;
