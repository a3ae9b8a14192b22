use vstd::prelude::*;
use vstd::arithmetic::div_mod::lemma_fundamental_div_mod_converse;

use crate::cell::{next_state, next_state_spec, CellState};

verus! {

/// `b` is a rectangle of `rows` rows, each of `cols` cells.
pub open spec fn is_board(b: Seq<Seq<CellState>>, rows: nat, cols: nat) -> bool {
    &&& b.len() == rows
    &&& forall|r: int| 0 <= r < rows ==> (#[trigger] b[r]).len() == cols
}

/// The cell at `(r, c)` on the torus: each coordinate is taken modulo the
/// board's size along its own axis, so the last row touches the first and the
/// last column touches the first.
pub open spec fn wrapped(b: Seq<Seq<CellState>>, r: int, c: int) -> CellState {
    let row = b[r % (b.len() as int)];
    row[c % (row.len() as int)]
}

/// 1 for a live cell, 0 for a dead one.
pub open spec fn live(s: CellState) -> nat {
    if s == CellState::Alive {
        1
    } else {
        0
    }
}

/// The number of live cells among the eight cells around `(r, c)` on the torus.
pub open spec fn live_neighbors(b: Seq<Seq<CellState>>, r: int, c: int) -> nat {
    live(wrapped(b, r - 1, c - 1)) + live(wrapped(b, r - 1, c)) + live(wrapped(b, r - 1, c + 1))
        + live(wrapped(b, r, c - 1)) + live(wrapped(b, r, c + 1))
        + live(wrapped(b, r + 1, c - 1)) + live(wrapped(b, r + 1, c)) + live(wrapped(b, r + 1, c + 1))
}

/// The generation after `b`: every cell follows the rule, with its neighbours
/// all counted on `b` itself.
pub open spec fn next_generation(b: Seq<Seq<CellState>>) -> Seq<Seq<CellState>> {
    Seq::new(
        b.len(),
        |r: int| Seq::new(b[r].len(), |c: int| next_state_spec(b[r][c], live_neighbors(b, r, c))),
    )
}

/// A board with every cell dead.
pub open spec fn all_dead(b: Seq<Seq<CellState>>) -> bool {
    forall|r: int, c: int| 0 <= r < b.len() && 0 <= c < b[r].len() ==> #[trigger] b[r][c]
        == CellState::Dead
}

/// The state that a random draw gives a cell: alive exactly on a draw of zero.
pub open spec fn drawn_state(draw: u32) -> CellState {
    if draw == 0 {
        CellState::Alive
    } else {
        CellState::Dead
    }
}

/// Stepping from `x` one place back and one place forward on a ring of `n`.
proof fn lemma_ring(x: int, n: int)
    requires
        0 <= x < n,
    ensures
        x % n == x,
        (x - 1) % n == if x == 0 { n - 1 } else { x - 1 },
        (x + 1) % n == if x + 1 == n { 0 } else { x + 1 },
{
    lemma_fundamental_div_mod_converse(x, n, 0, x);
    if x == 0 {
        lemma_fundamental_div_mod_converse(x - 1, n, -1, n - 1);
    } else {
        lemma_fundamental_div_mod_converse(x - 1, n, 0, x - 1);
    }
    if x + 1 == n {
        lemma_fundamental_div_mod_converse(x + 1, n, 1, 0);
    } else {
        lemma_fundamental_div_mod_converse(x + 1, n, 0, x + 1);
    }
}

/// On a board of at least two rows and two columns, the neighbours of the
/// corner cell `(0, 0)` are the cells of the last row and the last column that
/// wrap round to it, together with its three neighbours inside the board.
pub proof fn lemma_corner_wraps(b: Seq<Seq<CellState>>, rows: nat, cols: nat)
    requires
        is_board(b, rows, cols),
        rows >= 2,
        cols >= 2,
    ensures
        live_neighbors(b, 0, 0) == live(b[rows - 1][cols - 1]) + live(b[rows - 1][0]) + live(
            b[rows - 1][1],
        ) + live(b[0][cols - 1]) + live(b[0][1]) + live(b[1][cols - 1]) + live(b[1][0]) + live(
            b[1][1],
        ),
{
    lemma_ring(0, rows as int);
    lemma_ring(0, cols as int);
    assert(b[rows - 1].len() == cols);
    assert(b[0].len() == cols);
    assert(b[1].len() == cols);
}

/// Each cell of the next generation is the rule applied to that cell and its
/// neighbour count on the previous generation alone; the board keeps its size.
pub proof fn lemma_next_generation_cells(b: Seq<Seq<CellState>>, rows: nat, cols: nat)
    requires
        is_board(b, rows, cols),
    ensures
        is_board(next_generation(b), rows, cols),
        forall|r: int, c: int|
            0 <= r < rows && 0 <= c < cols ==> #[trigger] next_generation(b)[r][c]
                == next_state_spec(b[r][c], live_neighbors(b, r, c)),
{
    assert forall|r: int| 0 <= r < rows implies (#[trigger] next_generation(b)[r]).len() == cols by {
        assert(b[r].len() == cols);
    }
    assert forall|r: int, c: int| 0 <= r < rows && 0 <= c < cols implies #[trigger] next_generation(
        b,
    )[r][c] == next_state_spec(b[r][c], live_neighbors(b, r, c)) by {
        assert(b[r].len() == cols);
    }
}

/// Stepping is deterministic: two grids holding the same cells step to the
/// same cells, and stepping one board twice gives the same board both times.
pub proof fn lemma_step_deterministic(a: &Grid, b: &Grid)
    requires
        a@ == b@,
    ensures
        next_generation(a@) == next_generation(b@),
{
}

/// A rectangular board of cells of fixed size, stored row by row.
pub struct Grid {
    rows: usize,
    cols: usize,
    cells: Vec<Vec<CellState>>,
}

impl View for Grid {
    type V = Seq<Seq<CellState>>;

    closed spec fn view(&self) -> Seq<Seq<CellState>> {
        self.cells@.map_values(|row: Vec<CellState>| row@)
    }
}

impl Grid {
    /// The number of cells in each row.
    pub closed spec fn width(&self) -> nat {
        self.cols as nat
    }

    /// The rows are as many as `rows` says and each holds `cols` cells.
    pub closed spec fn wf(&self) -> bool {
        &&& self.cells@.len() == self.rows
        &&& forall|r: int| 0 <= r < self.rows ==> (#[trigger] self.cells@[r])@.len() == self.cols
    }

    /// A well-formed grid is a board of its own height and width.
    pub proof fn lemma_board(&self)
        requires
            self.wf(),
        ensures
            is_board(self@, self@.len(), self.width()),
    {
        assert forall|r: int| 0 <= r < self@.len() implies (#[trigger] self@[r]).len()
            == self.width() by {
            assert(self@[r] == self.cells@[r]@);
        }
    }

    /// A grid of `rows` by `cols` cells, all dead.
    pub fn new(rows: usize, cols: usize) -> (g: Grid)
        ensures
            g.wf(),
            g@.len() == rows,
            g.width() == cols,
            is_board(g@, rows as nat, cols as nat),
            all_dead(g@),
    {
        let mut cells: Vec<Vec<CellState>> = Vec::new();
        let mut r: usize = 0;
        while r < rows
            invariant
                r <= rows,
                cells@.len() == r,
                forall|i: int| 0 <= i < r ==> (#[trigger] cells@[i])@.len() == cols,
                forall|i: int, j: int|
                    0 <= i < r && 0 <= j < cols ==> #[trigger] cells@[i]@[j] == CellState::Dead,
            decreases rows - r,
        {
            let mut row: Vec<CellState> = Vec::new();
            let mut c: usize = 0;
            while c < cols
                invariant
                    c <= cols,
                    row@.len() == c,
                    forall|j: int| 0 <= j < c ==> #[trigger] row@[j] == CellState::Dead,
                decreases cols - c,
            {
                row.push(CellState::Dead);
                c = c + 1;
            }
            cells.push(row);
            r = r + 1;
        }
        let g = Grid { rows, cols, cells };
        proof {
            g.lemma_board();
            assert forall|i: int, j: int| 0 <= i < g@.len() && 0 <= j < g@[i].len() implies #[trigger] g@[i][j]
                == CellState::Dead by {
                assert(g@[i] == g.cells@[i]@);
            }
        }
        g
    }

    /// The number of rows.
    pub fn rows(&self) -> (n: usize)
        ensures
            n == self@.len(),
    {
        self.cells.len()
    }

    /// The number of cells in each row.
    pub fn cols(&self) -> (n: usize)
        ensures
            n == self.width(),
    {
        self.cols
    }

    /// The state of the cell at `(r, c)`; the coordinates are already in range.
    pub fn get(&self, r: usize, c: usize) -> (s: CellState)
        requires
            self.wf(),
            r < self@.len(),
            c < self.width(),
        ensures
            s == self@[r as int][c as int],
    {
        self.cells[r][c]
    }

    /// Overwrites the cell at `(r, c)` and no other.
    pub fn set(&mut self, r: usize, c: usize, s: CellState)
        requires
            old(self).wf(),
            r < old(self)@.len(),
            c < old(self).width(),
        ensures
            final(self).wf(),
            final(self).width() == old(self).width(),
            final(self)@ == old(self)@.update(r as int, old(self)@[r as int].update(c as int, s)),
    {
        self.cells[r].set(c, s);
        proof {
            assert(self@ =~~= old(self)@.update(r as int, old(self)@[r as int].update(c as int, s)));
        }
    }

    /// Makes every cell dead; the size stays.
    pub fn clear(&mut self)
        requires
            old(self).wf(),
        ensures
            final(self).wf(),
            final(self)@.len() == old(self)@.len(),
            final(self).width() == old(self).width(),
            is_board(final(self)@, old(self)@.len(), old(self).width()),
            all_dead(final(self)@),
    {
        let rows = self.cells.len();
        let mut r: usize = 0;
        while r < rows
            invariant
                self.wf(),
                rows == self.rows,
                self.cols == old(self).cols,
                self.rows == old(self).rows,
                r <= rows,
                forall|i: int, j: int|
                    0 <= i < r && 0 <= j < self.cols ==> #[trigger] self.cells@[i]@[j]
                        == CellState::Dead,
            decreases rows - r,
        {
            let mut c: usize = 0;
            while c < self.cols
                invariant
                    self.wf(),
                    rows == self.rows,
                    self.cols == old(self).cols,
                    self.rows == old(self).rows,
                    r < rows,
                    c <= self.cols,
                    forall|i: int, j: int|
                        0 <= i < r && 0 <= j < self.cols ==> #[trigger] self.cells@[i]@[j]
                            == CellState::Dead,
                    forall|j: int| 0 <= j < c ==> #[trigger] self.cells@[r as int]@[j]
                        == CellState::Dead,
                decreases self.cols - c,
            {
                self.cells[r].set(c, CellState::Dead);
                c = c + 1;
            }
            r = r + 1;
        }
        proof {
            self.lemma_board();
            assert forall|i: int, j: int| 0 <= i < self@.len() && 0 <= j < self@[i].len() implies #[trigger] self@[i][j]
                == CellState::Dead by {
                assert(self@[i] == self.cells@[i]@);
            }
        }
    }
    /// 1 for a live cell, 0 for a dead one.
    fn live_at(&self, r: usize, c: usize) -> (n: u32)
        requires
            self.wf(),
            r < self@.len(),
            c < self.width(),
        ensures
            n == live(self@[r as int][c as int]),
    {
        match self.cells[r][c] {
            CellState::Alive => 1,
            CellState::Dead => 0,
        }
    }

    /// The number of live cells among the eight around `(r, c)`, where the
    /// board wraps round at every edge.
    pub fn count_live_neighbors(&self, r: usize, c: usize) -> (n: u32)
        requires
            self.wf(),
            r < self@.len(),
            c < self.width(),
        ensures
            n == live_neighbors(self@, r as int, c as int),
            n <= 8,
    {
        let rows = self.cells.len();
        let cols = self.cols;
        let r0 = if r == 0 { rows - 1 } else { r - 1 };
        let r2 = if r + 1 == rows { 0 } else { r + 1 };
        let c0 = if c == 0 { cols - 1 } else { c - 1 };
        let c2 = if c + 1 == cols { 0 } else { c + 1 };
        proof {
            self.lemma_board();
            lemma_ring(r as int, rows as int);
            lemma_ring(c as int, cols as int);
        }
        self.live_at(r0, c0) + self.live_at(r0, c) + self.live_at(r0, c2) + self.live_at(r, c0)
            + self.live_at(r, c2) + self.live_at(r2, c0) + self.live_at(r2, c) + self.live_at(r2, c2)
    }

    /// Writes into `scratch` the generation after this one. Every neighbour
    /// count is taken on `self`, which is only read, so the order of the sweep
    /// has no effect on the result.
    pub fn next_generation_into(&self, scratch: &mut Grid)
        requires
            self.wf(),
            old(scratch).wf(),
            old(scratch)@.len() == self@.len(),
            old(scratch).width() == self.width(),
        ensures
            final(scratch).wf(),
            final(scratch).width() == self.width(),
            final(scratch)@ == next_generation(self@),
    {
        let rows = self.cells.len();
        let cols = self.cols;
        let mut r: usize = 0;
        while r < rows
            invariant
                self.wf(),
                scratch.wf(),
                rows == self@.len(),
                cols == self.width(),
                scratch.rows == rows,
                scratch.cols == cols,
                r <= rows,
                forall|i: int, j: int|
                    0 <= i < r && 0 <= j < cols ==> #[trigger] scratch.cells@[i]@[j]
                        == next_state_spec(self@[i][j], live_neighbors(self@, i, j)),
            decreases rows - r,
        {
            let mut c: usize = 0;
            while c < cols
                invariant
                    self.wf(),
                    scratch.wf(),
                    rows == self@.len(),
                    cols == self.width(),
                    scratch.rows == rows,
                    scratch.cols == cols,
                    r < rows,
                    c <= cols,
                    forall|i: int, j: int|
                        0 <= i < r && 0 <= j < cols ==> #[trigger] scratch.cells@[i]@[j]
                            == next_state_spec(self@[i][j], live_neighbors(self@, i, j)),
                    forall|j: int| 0 <= j < c ==> #[trigger] scratch.cells@[r as int]@[j]
                        == next_state_spec(self@[r as int][j], live_neighbors(self@, r as int, j)),
                decreases cols - c,
            {
                let n = self.count_live_neighbors(r, c);
                let s = next_state(self.get(r, c), n);
                scratch.cells[r].set(c, s);
                c = c + 1;
            }
            r = r + 1;
        }
        proof {
            self.lemma_board();
            let next = next_generation(self@);
            assert forall|i: int| 0 <= i < rows implies #[trigger] scratch@[i] == next[i] by {
                assert(scratch@[i] == scratch.cells@[i]@);
                assert(scratch@[i] =~= next[i]);
            }
            assert(scratch@ =~= next);
        }
    }

    /// Advances this grid by one generation, using `scratch` as the buffer
    /// that the new generation is written into before the two trade places.
    pub fn step(&mut self, scratch: &mut Grid)
        requires
            old(self).wf(),
            old(scratch).wf(),
            old(scratch)@.len() == old(self)@.len(),
            old(scratch).width() == old(self).width(),
        ensures
            final(self).wf(),
            final(scratch).wf(),
            final(self)@ == next_generation(old(self)@),
            final(self).width() == old(self).width(),
            final(scratch)@.len() == old(self)@.len(),
            final(scratch).width() == old(self).width(),
    {
        self.next_generation_into(scratch);
        std::mem::swap(self, scratch);
    }

    /// Gives every cell a state drawn at random: `draws` holds one draw per
    /// cell, row by row, and a cell comes alive exactly where its draw is zero.
    /// Draws taken uniformly below `n` thus make each cell alive with
    /// probability one in `n`.
    pub fn randomize(&mut self, draws: &Vec<u32>)
        requires
            old(self).wf(),
            draws@.len() == old(self)@.len() * old(self).width(),
        ensures
            final(self).wf(),
            final(self)@.len() == old(self)@.len(),
            final(self).width() == old(self).width(),
            forall|r: int, c: int|
                0 <= r < old(self)@.len() && 0 <= c < old(self).width() ==> #[trigger] final(self)@[r][c]
                    == drawn_state(draws@[r * old(self).width() + c]),
    {
        let rows = self.cells.len();
        let cols = self.cols;
        let total = draws.len();
        let mut k: usize = 0;
        let mut r: usize = 0;
        while r < rows
            invariant
                self.wf(),
                rows == self.rows,
                cols == self.cols,
                self.cols == old(self).cols,
                self.rows == old(self).rows,
                draws@.len() == rows * cols,
                total == draws@.len(),
                r <= rows,
                k == r * cols,
                forall|i: int, j: int|
                    0 <= i < r && 0 <= j < cols ==> #[trigger] self.cells@[i]@[j]
                        == drawn_state(draws@[i * cols + j]),
            decreases rows - r,
        {
            proof {
                assert((r + 1) * cols <= rows * cols) by (nonlinear_arith)
                    requires r < rows;
                assert((r + 1) * cols == r * cols + cols) by (nonlinear_arith);
            }
            let mut c: usize = 0;
            while c < cols
                invariant
                    self.wf(),
                    rows == self.rows,
                    cols == self.cols,
                    self.cols == old(self).cols,
                    self.rows == old(self).rows,
                    draws@.len() == rows * cols,
                    r < rows,
                    c <= cols,
                    k == r * cols + c,
                    total == draws@.len(),
                    r * cols + cols <= rows * cols,
                    forall|i: int, j: int|
                        0 <= i < r && 0 <= j < cols ==> #[trigger] self.cells@[i]@[j]
                            == drawn_state(draws@[i * cols + j]),
                    forall|j: int| 0 <= j < c ==> #[trigger] self.cells@[r as int]@[j]
                        == drawn_state(draws@[r * cols + j]),
                decreases cols - c,
            {
                let s = if draws[k] == 0 {
                    CellState::Alive
                } else {
                    CellState::Dead
                };
                self.cells[r].set(c, s);
                c = c + 1;
                k = k + 1;
            }
            r = r + 1;
        }
        proof {
            self.lemma_board();
            assert forall|i: int, j: int| 0 <= i < rows && 0 <= j < cols implies #[trigger] self@[i][j]
                == drawn_state(draws@[i * cols + j]) by {
                assert(self@[i] == self.cells@[i]@);
            }
        }
    }
}

} // verus!
