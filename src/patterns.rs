pub mod pattern;
pub mod acorn;
pub mod circle;
pub mod f_pent;
pub mod glider;
pub mod oval;
pub mod space_ship;
pub mod square;

pub use pattern::{Pattern, PatternCell};
