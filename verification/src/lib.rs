//! Conway's Game of Life on a fixed-size toroidal grid, seeded from a
//! deterministic pseudo-random generator.
//!
//! The crate has four parts:
//!
//! * [`lcg`]: a linear congruential generator over 64-bit state that
//!   emits 32-bit values;
//! * [`coord`]: signed coordinates on an unbounded plane, their Moore
//!   neighbourhood, and the wrap-around mapping into a grid;
//! * [`grid`]: the grid itself and the generation step;
//! * [`render`]: the text frame that shows a grid.
//!
//! Every executable function is verified, and all but one carry a
//! contract over a mathematical model of the data they touch. The one is
//! [`LCG::from_sys_timestamp`]: what it returns is up to the system
//! clock, which it reads through three calls into `std::time` that are
//! trusted, not proved.

mod clock;
pub mod coord;
pub mod grid;
pub mod lcg;
pub mod render;

pub use coord::Coord;
pub use grid::CellStatus;
pub use grid::GridError;
pub use grid::GOL;
pub use lcg::LCG;
