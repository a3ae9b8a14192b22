use vstd::prelude::*;

verus! {

/// The state of one cell of the board.
#[derive(Clone, Copy, Debug, PartialEq, Eq, Structural)]
pub enum CellState {
    Dead,
    Alive,
}

/// The birth and survival rule of the classic game: a live cell survives with
/// two or three live neighbours, a dead cell comes alive with exactly three.
pub open spec fn next_state_spec(current: CellState, live_neighbors: nat) -> CellState {
    match current {
        CellState::Alive => if live_neighbors == 2 || live_neighbors == 3 {
            CellState::Alive
        } else {
            CellState::Dead
        },
        CellState::Dead => if live_neighbors == 3 {
            CellState::Alive
        } else {
            CellState::Dead
        },
    }
}

/// The state of a cell in the next generation, given its state now and the
/// number of its live neighbours.
pub fn next_state(current: CellState, live_neighbors: u32) -> (r: CellState)
    ensures
        r == next_state_spec(current, live_neighbors as nat),
{
    match current {
        CellState::Alive => if live_neighbors == 2 || live_neighbors == 3 {
            CellState::Alive
        } else {
            CellState::Dead
        },
        CellState::Dead => if live_neighbors == 3 {
            CellState::Alive
        } else {
            CellState::Dead
        },
    }
}

} // verus!
