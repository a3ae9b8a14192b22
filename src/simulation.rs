use vstd::prelude::*;

use crate::cell::CellState;
use crate::grid::{all_dead, drawn_state, is_board, next_generation, Grid};

verus! {

/// The tick rate that a simulation starts with, in ticks per second.
pub const DEFAULT_TICK_RATE: u32 = 12;

/// How much one speed command changes the tick rate.
pub const TICK_STEP: u32 = 2;

/// Slowing down never takes the tick rate below this.
pub const MIN_TICK_RATE: u32 = 5;

/// Speeding up never takes the tick rate above this.
pub const MAX_TICK_RATE: u32 = 240;

/// A random fill makes each cell alive with a chance of one in this many.
pub const DEFAULT_ODDS: u32 = 3;

/// The tick rate after one speed-up: one step higher while that stays within
/// the ceiling, else unchanged.
pub open spec fn sped_up(rate: u32) -> u32 {
    if rate as int + TICK_STEP as int <= MAX_TICK_RATE as int {
        (rate + TICK_STEP) as u32
    } else {
        rate
    }
}

/// The tick rate after one slow-down: one step lower while that stays at or
/// above the floor, else unchanged.
pub open spec fn slowed_down(rate: u32) -> u32 {
    if rate as int >= MIN_TICK_RATE as int + TICK_STEP as int {
        (rate - TICK_STEP) as u32
    } else {
        rate
    }
}

/// The tick rate after `n` slow-downs in a row.
pub open spec fn slowed_down_times(rate: u32, n: nat) -> u32
    decreases n,
{
    if n == 0 {
        rate
    } else {
        slowed_down(slowed_down_times(rate, (n - 1) as nat))
    }
}

/// The whole state of a running game: the current generation, the buffer that
/// the next one is computed into, whether it runs, and how fast.
pub struct Simulation {
    grid: Grid,
    scratch: Grid,
    running: bool,
    tick_rate: u32,
    odds: u32,
}

impl Simulation {
    /// The current generation.
    pub closed spec fn board(&self) -> Seq<Seq<CellState>> {
        self.grid@
    }

    /// The number of cells in each row of the board.
    pub closed spec fn board_width(&self) -> nat {
        self.grid.width()
    }

    /// Whether generations advance.
    pub closed spec fn is_running(&self) -> bool {
        self.running
    }

    /// The tick rate, in ticks per second.
    pub closed spec fn rate(&self) -> u32 {
        self.tick_rate
    }

    /// The chance of a cell being made alive by a random fill is one in this.
    pub closed spec fn fill_odds(&self) -> u32 {
        self.odds
    }

    /// The two grids are well formed and of one size.
    pub closed spec fn wf(&self) -> bool {
        &&& self.grid.wf()
        &&& self.scratch.wf()
        &&& self.scratch@.len() == self.grid@.len()
        &&& self.scratch.width() == self.grid.width()
    }

    /// A paused simulation on a dead board of `rows` by `cols` cells.
    pub fn new(rows: usize, cols: usize, tick_rate: u32, odds: u32) -> (s: Simulation)
        ensures
            s.wf(),
            is_board(s.board(), rows as nat, cols as nat),
            s.board_width() == cols,
            all_dead(s.board()),
            !s.is_running(),
            s.rate() == tick_rate,
            s.fill_odds() == odds,
    {
        Simulation {
            grid: Grid::new(rows, cols),
            scratch: Grid::new(rows, cols),
            running: false,
            tick_rate,
            odds,
        }
    }

    /// A paused simulation with the default tick rate and fill odds.
    pub fn with_defaults(rows: usize, cols: usize) -> (s: Simulation)
        ensures
            s.wf(),
            is_board(s.board(), rows as nat, cols as nat),
            s.board_width() == cols,
            all_dead(s.board()),
            !s.is_running(),
            s.rate() == DEFAULT_TICK_RATE,
            s.fill_odds() == DEFAULT_ODDS,
    {
        Simulation::new(rows, cols, DEFAULT_TICK_RATE, DEFAULT_ODDS)
    }

    /// The current generation, for reading.
    pub fn grid(&self) -> (g: &Grid)
        requires
            self.wf(),
        ensures
            g.wf(),
            g@ == self.board(),
            g.width() == self.board_width(),
    {
        &self.grid
    }

    /// Whether generations advance.
    pub fn running(&self) -> (b: bool)
        ensures
            b == self.is_running(),
    {
        self.running
    }

    /// The tick rate, in ticks per second.
    pub fn tick_rate(&self) -> (n: u32)
        ensures
            n == self.rate(),
    {
        self.tick_rate
    }

    /// The chance of a cell being made alive by a random fill is one in this.
    pub fn odds(&self) -> (n: u32)
        ensures
            n == self.fill_odds(),
    {
        self.odds
    }

    /// Pauses a running simulation, or sets a paused one running.
    pub fn toggle_run(&mut self)
        requires
            old(self).wf(),
        ensures
            final(self).wf(),
            final(self).is_running() == !old(self).is_running(),
            final(self).board() == old(self).board(),
            final(self).board_width() == old(self).board_width(),
            final(self).rate() == old(self).rate(),
            final(self).fill_odds() == old(self).fill_odds(),
    {
        self.running = !self.running;
    }

    /// Fills the board at random while paused (see `Grid::randomize` for how
    /// `draws` decide); while running it leaves the board alone.
    pub fn randomize(&mut self, draws: &Vec<u32>)
        requires
            old(self).wf(),
            draws@.len() == old(self).board().len() * old(self).board_width(),
        ensures
            final(self).wf(),
            final(self).is_running() == old(self).is_running(),
            final(self).rate() == old(self).rate(),
            final(self).fill_odds() == old(self).fill_odds(),
            final(self).board_width() == old(self).board_width(),
            final(self).board().len() == old(self).board().len(),
            old(self).is_running() ==> final(self).board() == old(self).board(),
            !old(self).is_running() ==> forall|r: int, c: int|
                0 <= r < old(self).board().len() && 0 <= c < old(self).board_width()
                    ==> #[trigger] final(self).board()[r][c] == drawn_state(
                    draws@[r * old(self).board_width() + c],
                ),
    {
        if !self.running {
            self.grid.randomize(draws);
        }
    }

    /// Kills every cell while paused; while running it leaves the board alone.
    pub fn clear(&mut self)
        requires
            old(self).wf(),
        ensures
            final(self).wf(),
            final(self).is_running() == old(self).is_running(),
            final(self).rate() == old(self).rate(),
            final(self).fill_odds() == old(self).fill_odds(),
            final(self).board_width() == old(self).board_width(),
            final(self).board().len() == old(self).board().len(),
            old(self).is_running() ==> final(self).board() == old(self).board(),
            !old(self).is_running() ==> all_dead(final(self).board()) && is_board(
                final(self).board(),
                old(self).board().len(),
                old(self).board_width(),
            ),
    {
        if !self.running {
            self.grid.clear();
        }
    }

    /// Raises the tick rate by one step, up to the ceiling.
    pub fn speed_up(&mut self)
        ensures
            final(self).rate() == sped_up(old(self).rate()),
            final(self).rate() >= old(self).rate(),
            final(self).is_running() == old(self).is_running(),
            final(self).board() == old(self).board(),
            final(self).board_width() == old(self).board_width(),
            final(self).fill_odds() == old(self).fill_odds(),
            final(self).wf() == old(self).wf(),
    {
        if self.tick_rate <= MAX_TICK_RATE - TICK_STEP {
            self.tick_rate = self.tick_rate + TICK_STEP;
        }
    }

    /// Lowers the tick rate by one step, down to the floor.
    pub fn speed_down(&mut self)
        ensures
            final(self).rate() == slowed_down(old(self).rate()),
            final(self).rate() <= old(self).rate(),
            old(self).rate() >= MIN_TICK_RATE ==> final(self).rate() >= MIN_TICK_RATE,
            final(self).is_running() == old(self).is_running(),
            final(self).board() == old(self).board(),
            final(self).board_width() == old(self).board_width(),
            final(self).fill_odds() == old(self).fill_odds(),
            final(self).wf() == old(self).wf(),
    {
        if self.tick_rate >= MIN_TICK_RATE + TICK_STEP {
            self.tick_rate = self.tick_rate - TICK_STEP;
        }
    }

    /// One tick of the simulation: a running one moves on to the next
    /// generation, a paused one stays as it is.
    pub fn update(&mut self)
        requires
            old(self).wf(),
        ensures
            final(self).wf(),
            final(self).board() == if old(self).is_running() {
                next_generation(old(self).board())
            } else {
                old(self).board()
            },
            final(self).board_width() == old(self).board_width(),
            final(self).is_running() == old(self).is_running(),
            final(self).rate() == old(self).rate(),
            final(self).fill_odds() == old(self).fill_odds(),
    {
        if self.running {
            self.grid.step(&mut self.scratch);
        }
    }
}

/// However many times the speed is lowered, a tick rate that starts at the
/// floor or above stays at the floor or above, and one below the floor does
/// not move.
pub proof fn lemma_speed_floor(rate: u32, n: nat)
    ensures
        rate >= MIN_TICK_RATE ==> slowed_down_times(rate, n) >= MIN_TICK_RATE,
        rate < MIN_TICK_RATE ==> slowed_down_times(rate, n) == rate,
        slowed_down_times(rate, n) <= rate,
    decreases n,
{
    if n > 0 {
        lemma_speed_floor(rate, (n - 1) as nat);
    }
}

} // verus!
