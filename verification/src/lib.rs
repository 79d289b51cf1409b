//! A deterministic visual-noise toy: a 48-bit linear-congruential random
//! number generator together with the pure per-frame logic of a handful of
//! screen effects (tile grids of random colors, scanline bars, a square
//! spiral, a scrolling color buffer), a pause-menu layout model, and the
//! application state machine that selects between them.
//!
//! Everything here is plain data in, plain data out: window handling and
//! drawing live outside the library and consume the tile lists produced here.

pub mod color;
pub mod custom_random;
pub mod effects;
pub mod pause_menu;
pub mod state;
