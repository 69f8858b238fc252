//! Mobility-based piece values for a large shogi variant.
//!
//! A board is filled with pieces at random, every square is probed with every
//! elementary movement pattern, and the counts are added up over many boards.
//! All totals are kept as exact integers over a common divisor, so that the
//! combination of boards is exactly associative and commutative.

pub mod combine;
pub mod compound;
pub mod direction;
pub mod driver;
pub mod grid;
pub mod laws;
pub mod moves;
pub mod populate;
pub mod random;
pub mod scan;
pub mod simulation;
pub mod values;

pub use crate::driver::{simulate, simulate_n, simulate_n_par, simulate_with};
pub use crate::grid::{Grid, Square, BOARD_HEIGHT, BOARD_WIDTH};
pub use crate::simulation::Simulation;
