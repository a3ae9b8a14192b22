//! Conway's Game of Life on a torus: the cell rule, a board whose edges wrap
//! round, a double-buffered generation step, and the run/pause/speed controls
//! around them.

use vstd::prelude::*;

pub mod cell;
pub mod grid;
pub mod simulation;

verus! {

} // verus!
