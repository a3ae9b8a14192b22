use conway::cell::{next_state, CellState};
use conway::grid::Grid;
use conway::simulation::{Simulation, DEFAULT_ODDS, DEFAULT_TICK_RATE, MAX_TICK_RATE, MIN_TICK_RATE};

fn live_cells(g: &Grid) -> Vec<(usize, usize)> {
    let mut out = Vec::new();
    for r in 0..g.rows() {
        for c in 0..g.cols() {
            if g.get(r, c) == CellState::Alive {
                out.push((r, c));
            }
        }
    }
    out
}

fn grid_with(rows: usize, cols: usize, alive: &[(usize, usize)]) -> Grid {
    let mut g = Grid::new(rows, cols);
    for &(r, c) in alive {
        g.set(r, c, CellState::Alive);
    }
    g
}

fn sorted(mut v: Vec<(usize, usize)>) -> Vec<(usize, usize)> {
    v.sort();
    v
}

#[test]
fn rule_table() {
    let (alive, dead) = (CellState::Alive, CellState::Dead);
    assert_eq!(next_state(alive, 0), dead);
    assert_eq!(next_state(alive, 1), dead);
    assert_eq!(next_state(alive, 2), alive);
    assert_eq!(next_state(alive, 3), alive);
    assert_eq!(next_state(alive, 4), dead);
    assert_eq!(next_state(alive, 8), dead);
    assert_eq!(next_state(dead, 2), dead);
    assert_eq!(next_state(dead, 3), alive);
    assert_eq!(next_state(dead, 4), dead);
    assert_eq!(next_state(dead, 0), dead);
}

#[test]
fn corner_neighbors_wrap() {
    let (rows, cols) = (4, 5);
    let around = [
        (rows - 1, cols - 1),
        (rows - 1, 0),
        (rows - 1, 1),
        (0, cols - 1),
        (0, 1),
        (1, cols - 1),
        (1, 0),
        (1, 1),
    ];
    for &cell in around.iter() {
        let g = grid_with(rows, cols, &[cell]);
        assert_eq!(g.count_live_neighbors(0, 0), 1, "cell {:?}", cell);
    }
    let g = grid_with(rows, cols, &around);
    assert_eq!(g.count_live_neighbors(0, 0), 8);
    let far = grid_with(rows, cols, &[(2, 2), (2, 3), (0, 0)]);
    assert_eq!(far.count_live_neighbors(0, 0), 0);
}

#[test]
fn edge_cells_wrap() {
    let g = grid_with(3, 3, &[(0, 1)]);
    assert_eq!(g.count_live_neighbors(2, 1), 1);
    assert_eq!(g.count_live_neighbors(2, 0), 1);
    assert_eq!(g.count_live_neighbors(2, 2), 1);
    let h = grid_with(5, 6, &[(3, 5)]);
    assert_eq!(h.count_live_neighbors(3, 0), 1);
    assert_eq!(h.count_live_neighbors(4, 0), 1);
    assert_eq!(h.count_live_neighbors(2, 1), 0);
}

#[test]
fn single_cell_board_sees_itself() {
    let g = grid_with(1, 1, &[(0, 0)]);
    assert_eq!(g.count_live_neighbors(0, 0), 8);
}

#[test]
fn stepping_is_deterministic() {
    let cells = [(1, 1), (1, 2), (2, 3), (3, 1), (4, 4), (0, 5), (5, 0)];
    let mut a = grid_with(6, 6, &cells);
    let mut b = grid_with(6, 6, &cells);
    let mut sa = Grid::new(6, 6);
    let mut sb = Grid::new(6, 6);
    a.step(&mut sa);
    b.step(&mut sb);
    assert_eq!(live_cells(&a), live_cells(&b));
    a.step(&mut sa);
    b.step(&mut sb);
    assert_eq!(live_cells(&a), live_cells(&b));
}

#[test]
fn next_generation_reads_only_the_old_board() {
    let g = grid_with(5, 5, &[(1, 2), (2, 2), (3, 2)]);
    let mut scratch = grid_with(5, 5, &[(0, 0), (4, 4)]);
    g.next_generation_into(&mut scratch);
    assert_eq!(live_cells(&g), vec![(1, 2), (2, 2), (3, 2)]);
    assert_eq!(live_cells(&scratch), vec![(2, 1), (2, 2), (2, 3)]);
}

#[test]
fn blinker_oscillates() {
    let horizontal = vec![(3, 2), (3, 3), (3, 4)];
    let vertical = vec![(2, 3), (3, 3), (4, 3)];
    let mut g = grid_with(7, 7, &horizontal);
    let mut scratch = Grid::new(7, 7);
    g.step(&mut scratch);
    assert_eq!(live_cells(&g), vertical);
    g.step(&mut scratch);
    assert_eq!(live_cells(&g), horizontal);
}

#[test]
fn glider_moves_diagonally() {
    let glider = [(0, 1), (1, 2), (2, 0), (2, 1), (2, 2)];
    let mut g = grid_with(10, 10, &glider);
    let mut scratch = Grid::new(10, 10);
    for _ in 0..4 {
        g.step(&mut scratch);
    }
    let moved: Vec<(usize, usize)> = glider.iter().map(|&(r, c)| (r + 1, c + 1)).collect();
    assert_eq!(live_cells(&g), sorted(moved));
}

#[test]
fn block_is_still() {
    let block = vec![(1, 1), (1, 2), (2, 1), (2, 2)];
    let mut g = grid_with(4, 4, &block);
    let mut scratch = Grid::new(4, 4);
    g.step(&mut scratch);
    assert_eq!(live_cells(&g), block);
}

#[test]
fn new_grid_is_dead() {
    let g = Grid::new(3, 7);
    assert_eq!(g.rows(), 3);
    assert_eq!(g.cols(), 7);
    assert!(live_cells(&g).is_empty());
}

#[test]
fn set_touches_one_cell() {
    let mut g = Grid::new(3, 3);
    g.set(1, 2, CellState::Alive);
    assert_eq!(live_cells(&g), vec![(1, 2)]);
    g.set(1, 2, CellState::Dead);
    assert!(live_cells(&g).is_empty());
}

#[test]
fn grid_clear_kills_everything() {
    let mut g = grid_with(3, 4, &[(0, 0), (1, 3), (2, 2)]);
    g.clear();
    assert!(live_cells(&g).is_empty());
    assert_eq!(g.rows(), 3);
    assert_eq!(g.cols(), 4);
}

#[test]
fn grid_randomize_follows_draws() {
    let mut g = Grid::new(2, 3);
    g.randomize(&vec![0, 1, 2, 2, 0, 0]);
    assert_eq!(live_cells(&g), vec![(0, 0), (1, 1), (1, 2)]);
}

#[test]
fn simulation_starts_paused() {
    let s = Simulation::with_defaults(4, 6);
    assert!(!s.running());
    assert_eq!(s.tick_rate(), DEFAULT_TICK_RATE);
    assert_eq!(s.tick_rate(), 12);
    assert_eq!(s.odds(), DEFAULT_ODDS);
    assert_eq!(s.grid().rows(), 4);
    assert_eq!(s.grid().cols(), 6);
    assert!(live_cells(s.grid()).is_empty());
}

#[test]
fn toggle_run_flips() {
    let mut s = Simulation::new(3, 3, 10, 3);
    s.toggle_run();
    assert!(s.running());
    s.toggle_run();
    assert!(!s.running());
}

#[test]
fn pause_gates_randomize_and_clear() {
    let mut s = Simulation::new(3, 3, 12, 3);
    let draws = vec![1, 0, 1, 1, 0, 1, 1, 0, 1];
    s.randomize(&draws);
    let filled = vec![(0, 1), (1, 1), (2, 1)];
    assert_eq!(live_cells(s.grid()), filled);
    s.toggle_run();
    s.clear();
    assert_eq!(live_cells(s.grid()), filled);
    s.randomize(&vec![0; 9]);
    assert_eq!(live_cells(s.grid()), filled);
    s.toggle_run();
    s.clear();
    assert!(live_cells(s.grid()).is_empty());
    s.randomize(&vec![0; 9]);
    assert_eq!(live_cells(s.grid()).len(), 9);
    s.clear();
    assert!(live_cells(s.grid()).is_empty());
}

#[test]
fn update_only_while_running() {
    let mut s = Simulation::new(5, 5, 12, 3);
    let mut draws = vec![1u32; 25];
    draws[2 * 5 + 1] = 0;
    draws[2 * 5 + 2] = 0;
    draws[2 * 5 + 3] = 0;
    s.randomize(&draws);
    s.update();
    assert_eq!(live_cells(s.grid()), vec![(2, 1), (2, 2), (2, 3)]);
    s.toggle_run();
    s.update();
    assert_eq!(live_cells(s.grid()), vec![(1, 2), (2, 2), (3, 2)]);
    s.update();
    assert_eq!(live_cells(s.grid()), vec![(2, 1), (2, 2), (2, 3)]);
}

#[test]
fn speed_down_respects_floor() {
    for start in [5u32, 6] {
        let mut s = Simulation::new(2, 2, start, 3);
        for _ in 0..10 {
            s.speed_down();
            assert_eq!(s.tick_rate(), start);
        }
    }
    let mut s = Simulation::new(2, 2, 12, 3);
    s.speed_down();
    assert_eq!(s.tick_rate(), 10);
    for _ in 0..10 {
        s.speed_down();
        assert!(s.tick_rate() >= MIN_TICK_RATE);
    }
    assert_eq!(s.tick_rate(), 6);
    let mut t = Simulation::new(2, 2, 7, 3);
    t.speed_down();
    assert_eq!(t.tick_rate(), 5);
    t.speed_down();
    assert_eq!(t.tick_rate(), 5);
    let mut low = Simulation::new(2, 2, 3, 3);
    low.speed_down();
    assert_eq!(low.tick_rate(), 3);
}

#[test]
fn speed_up_respects_ceiling() {
    let mut s = Simulation::new(2, 2, 12, 3);
    s.speed_up();
    assert_eq!(s.tick_rate(), 14);
    let mut t = Simulation::new(2, 2, MAX_TICK_RATE - 2, 3);
    t.speed_up();
    assert_eq!(t.tick_rate(), MAX_TICK_RATE);
    t.speed_up();
    assert_eq!(t.tick_rate(), MAX_TICK_RATE);
    let mut top = Simulation::new(2, 2, u32::MAX, 3);
    top.speed_up();
    assert_eq!(top.tick_rate(), u32::MAX);
}
