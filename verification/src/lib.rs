//! Keyboard-driven pointer targeting.
//!
//! A coarse grid of two-letter labels covers the drawable area; typing a label
//! selects a cell, a 3×3 fine grid of digits refines the choice, and a final
//! key clicks. This crate holds the targeting logic only: it turns one frame of
//! key state and the drawable area into one [`KeyResult`] for the host to
//! carry out. Every function is verified against its contract.
//!
//! Coordinates are whole device-independent units.
pub mod app;
pub mod geometry;
pub mod input;
pub mod label;
pub mod main_grid;
pub mod renderer;
pub mod sub_grid;

pub use app::{App, Level};
pub use geometry::{layout, Grid, Point, Size};
pub use input::{Input, Key};
pub use label::index_to_label;
pub use main_grid::MainGrid;
pub use renderer::{Direction, KeyResult, Renderer, Speed};
pub use sub_grid::SubGrid;
