use game_of_life::Cell;
use game_of_life::Universe;

/// The `(row, column)` positions of the live cells, row-major.
fn alive_positions(u: &Universe) -> Vec<(u32, u32)> {
    let w = u.width();
    let h = u.height();
    let cells = u.get_cells();
    let mut out = Vec::new();
    for row in 0..h {
        for col in 0..w {
            if cells[(row * w + col) as usize] == Cell::Alive {
                out.push((row, col));
            }
        }
    }
    out
}

#[test]
fn dead_grid_stays_dead() {
    let mut u = Universe::with_capacity(4, 4);
    let changes = u.tick();
    assert!(changes.is_empty());
    assert!(u.get_cells().iter().all(|c| *c == Cell::Dead));
}

#[test]
fn empty_grid_tick_is_a_no_op() {
    let mut u = Universe::with_capacity(0, 5);
    let changes = u.tick();
    assert!(changes.is_empty());
    assert_eq!(u.width(), 0);
    assert_eq!(u.height(), 5);
    assert_eq!(u.get_cells().len(), 0);
}

#[test]
fn lone_cell_dies_of_underpopulation() {
    let mut u = Universe::with_capacity(4, 4);
    u.toggle_cell(1, 1);
    u.tick();
    assert!(u.get_cells().iter().all(|c| *c == Cell::Dead));
}

#[test]
fn block_is_a_still_life() {
    let mut u = Universe::with_capacity(6, 6);
    u.set_cells(&[(2, 2), (2, 3), (3, 2), (3, 3)]);
    let before = u.get_cells().to_vec();
    let changes = u.tick();
    assert!(changes.is_empty());
    assert_eq!(u.get_cells().to_vec(), before);
}

#[test]
fn blinker_rotates_then_returns() {
    let mut u = Universe::with_capacity(5, 5);
    u.set_cells(&[(1, 2), (2, 2), (3, 2)]);
    u.tick();
    assert_eq!(alive_positions(&u), vec![(2, 1), (2, 2), (2, 3)]);
    u.tick();
    assert_eq!(alive_positions(&u), vec![(1, 2), (2, 2), (3, 2)]);
}

#[test]
fn blinker_wraps_around_the_edge() {
    let mut u = Universe::with_capacity(5, 5);
    u.set_cells(&[(4, 2), (0, 2), (1, 2)]);
    u.tick();
    assert_eq!(alive_positions(&u), vec![(0, 1), (0, 2), (0, 3)]);
}

#[test]
fn tick_reports_each_changed_cell() {
    let mut u = Universe::with_capacity(5, 5);
    u.set_cells(&[(1, 2), (2, 2), (3, 2)]);
    let changes = u.tick();
    assert_eq!(changes.len(), 4);

    assert_eq!(changes[0].row, 1);
    assert_eq!(changes[0].column, 2);
    assert_eq!(changes[0].prior, Cell::Alive);
    assert_eq!(changes[0].live_neighbors, 1);

    assert_eq!(changes[1].row, 2);
    assert_eq!(changes[1].column, 1);
    assert_eq!(changes[1].prior, Cell::Dead);
    assert_eq!(changes[1].live_neighbors, 3);

    assert_eq!(changes[2].row, 2);
    assert_eq!(changes[2].column, 3);
    assert_eq!(changes[2].prior, Cell::Dead);
    assert_eq!(changes[2].live_neighbors, 3);

    assert_eq!(changes[3].row, 3);
    assert_eq!(changes[3].column, 2);
    assert_eq!(changes[3].prior, Cell::Alive);
    assert_eq!(changes[3].live_neighbors, 1);
}

#[test]
fn overpopulated_cell_dies() {
    // Center of a 3x3 cross with all four side neighbors alive plus
    // one diagonal: 5 live neighbors kill it.
    let mut u = Universe::with_capacity(7, 7);
    u.set_cells(&[(3, 3), (2, 3), (4, 3), (3, 2), (3, 4), (2, 2)]);
    u.tick();
    let cells = u.get_cells();
    assert_eq!(cells[(3 * 7 + 3) as usize], Cell::Dead);
}

#[test]
fn dead_cell_with_three_neighbors_is_born() {
    let mut u = Universe::with_capacity(6, 6);
    u.set_cells(&[(1, 1), (1, 2), (2, 1)]);
    u.tick();
    let cells = u.get_cells();
    assert_eq!(cells[(2 * 6 + 2) as usize], Cell::Alive);
}
