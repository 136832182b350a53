//! A verified Conway's Game of Life engine.
//!
//! The grid is a fixed-size torus of two-state cells, advanced one
//! generation at a time by the classic birth/survival rule. All grid
//! logic is specified and proved here; host concerns (timing, logging,
//! display) live outside the library and consume its plain results.

pub mod cell;
pub mod grid;
pub mod laws;

pub use cell::Cell;
pub use grid::ChangeRecord;
pub use grid::Universe;
pub use grid::UniverseView;
