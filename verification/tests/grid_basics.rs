use game_of_life::Cell;
use game_of_life::Universe;

#[test]
fn new_universe_is_dead_128_square() {
    let u = Universe::new();
    assert_eq!(u.width(), 128);
    assert_eq!(u.height(), 128);
    let cells = u.get_cells();
    assert_eq!(cells.len(), 128 * 128);
    assert!(cells.iter().all(|c| *c == Cell::Dead));
}

#[test]
fn with_capacity_starts_all_dead() {
    let u = Universe::with_capacity(4, 3);
    assert_eq!(u.width(), 4);
    assert_eq!(u.height(), 3);
    let cells = u.cells();
    assert_eq!(cells.len(), 12);
    assert!(cells.iter().all(|c| *c == Cell::Dead));
}

#[test]
fn with_capacity_zero_dimension_is_empty() {
    let u = Universe::with_capacity(0, 7);
    assert_eq!(u.width(), 0);
    assert_eq!(u.height(), 7);
    assert_eq!(u.get_cells().len(), 0);

    let v = Universe::with_capacity(9, 0);
    assert_eq!(v.get_cells().len(), 0);
}

#[test]
fn cell_value_encodes_dead_0_alive_1() {
    assert_eq!(Cell::Dead.value(), 0);
    assert_eq!(Cell::Alive.value(), 1);
}

#[test]
fn cell_toggle_flips_state() {
    let mut c = Cell::Dead;
    c.toggle();
    assert_eq!(c, Cell::Alive);
    c.toggle();
    assert_eq!(c, Cell::Dead);
}

#[test]
fn toggle_cell_flips_exactly_one_cell() {
    let mut u = Universe::with_capacity(4, 4);
    u.toggle_cell(1, 2);
    let cells = u.get_cells();
    for row in 0..4u32 {
        for col in 0..4u32 {
            let idx = (row * 4 + col) as usize;
            if row == 1 && col == 2 {
                assert_eq!(cells[idx], Cell::Alive);
            } else {
                assert_eq!(cells[idx], Cell::Dead);
            }
        }
    }
    u.toggle_cell(1, 2);
    assert!(u.get_cells().iter().all(|c| *c == Cell::Dead));
}

#[test]
fn set_cells_marks_listed_cells_alive() {
    let mut u = Universe::with_capacity(5, 5);
    u.toggle_cell(0, 0);
    u.set_cells(&[(1, 2), (2, 2), (3, 2)]);
    let cells = u.get_cells();
    assert_eq!(cells[0], Cell::Alive);
    assert_eq!(cells[(1 * 5 + 2) as usize], Cell::Alive);
    assert_eq!(cells[(2 * 5 + 2) as usize], Cell::Alive);
    assert_eq!(cells[(3 * 5 + 2) as usize], Cell::Alive);
    let live = cells.iter().filter(|c| **c == Cell::Alive).count();
    assert_eq!(live, 4);
}

#[test]
fn set_cells_leaves_already_alive_cells_alive() {
    let mut u = Universe::with_capacity(3, 3);
    u.toggle_cell(1, 1);
    u.set_cells(&[(1, 1)]);
    assert_eq!(u.get_cells()[4], Cell::Alive);
}

#[test]
fn reset_kills_every_cell_and_keeps_dimensions() {
    let mut u = Universe::with_capacity(6, 2);
    u.set_cells(&[(0, 0), (1, 5), (0, 3)]);
    u.reset();
    assert_eq!(u.width(), 6);
    assert_eq!(u.height(), 2);
    assert!(u.get_cells().iter().all(|c| *c == Cell::Dead));
}

#[test]
fn reset_twice_equals_reset_once() {
    let mut u = Universe::with_capacity(4, 4);
    u.set_cells(&[(0, 1), (2, 3), (3, 0)]);
    u.reset();
    let once: Vec<Cell> = u.get_cells().to_vec();
    let w = u.width();
    let h = u.height();
    u.reset();
    assert_eq!(u.width(), w);
    assert_eq!(u.height(), h);
    assert_eq!(u.get_cells().to_vec(), once);
}

#[test]
fn set_width_clears_all_state() {
    let mut u = Universe::with_capacity(4, 4);
    u.toggle_cell(0, 0);
    u.toggle_cell(3, 3);
    u.set_width(7);
    assert_eq!(u.width(), 7);
    assert_eq!(u.height(), 4);
    assert_eq!(u.get_cells().len(), 28);
    assert!(u.get_cells().iter().all(|c| *c == Cell::Dead));
}

#[test]
fn set_height_clears_all_state() {
    let mut u = Universe::with_capacity(4, 4);
    u.set_cells(&[(1, 1), (2, 2)]);
    u.toggle_cell(2, 2);
    u.toggle_cell(0, 3);
    u.set_height(2);
    assert_eq!(u.width(), 4);
    assert_eq!(u.height(), 2);
    assert_eq!(u.get_cells().len(), 8);
    assert!(u.get_cells().iter().all(|c| *c == Cell::Dead));
}
