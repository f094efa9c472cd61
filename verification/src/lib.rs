//! A falling-sand cellular automaton: a double-buffered grid of cells that
//! settles under gravity once per frame and is edited by disc-shaped brush
//! strokes.
//!
//! `board` holds the mathematical model of a buffer and of the settling
//! rule, and `laws` what is proved of that rule. `grid` is the store with its
//! two buffers, `settle` the settling pass on it and `brush` the strokes.
//! `simulation` carries the state from frame to frame: the grid, the
//! settling front, the brush, the `palette` and the timer of the hints.

pub mod board;
pub mod brush;
pub mod cell;
pub mod grid;
pub mod laws;
pub mod palette;
pub mod settle;
pub mod simulation;
