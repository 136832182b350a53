use game_of_life::Universe;

const DEAD: char = '\u{25fb}';
const ALIVE: char = '\u{25fc}';

#[test]
fn render_small_grid_row_major() {
    let mut u = Universe::with_capacity(2, 2);
    u.toggle_cell(0, 1);
    let expected = format!("{}{}\n{}{}", DEAD, ALIVE, DEAD, DEAD);
    assert_eq!(u.render(), expected);
}

#[test]
fn render_uses_one_glyph_per_cell() {
    let mut u = Universe::with_capacity(3, 1);
    u.set_cells(&[(0, 0), (0, 2)]);
    let expected = format!("{}{}{}", ALIVE, DEAD, ALIVE);
    assert_eq!(u.render(), expected);
}

#[test]
fn render_length_is_cells_plus_separators() {
    let u = Universe::with_capacity(4, 3);
    let text = u.render();
    assert_eq!(text.chars().count(), 3 * 4 + 3 - 1);
    assert_eq!(text.lines().count(), 3);
    assert!(text.lines().all(|line| line.chars().count() == 4));
}

#[test]
fn render_empty_grids() {
    let u = Universe::with_capacity(5, 0);
    assert_eq!(u.render(), "");

    let v = Universe::with_capacity(0, 3);
    assert_eq!(v.render(), "\n\n");
}

#[test]
fn render_twice_without_mutation_is_identical() {
    let mut u = Universe::with_capacity(6, 6);
    u.set_cells(&[(0, 0), (2, 3), (5, 5), (3, 1)]);
    let first = u.render();
    let second = u.render();
    assert_eq!(first, second);
}

#[test]
fn render_reflects_a_tick() {
    let mut u = Universe::with_capacity(3, 3);
    u.set_cells(&[(1, 0), (1, 1), (1, 2)]);
    let before = u.render();
    u.tick();
    let after = u.render();
    assert_ne!(before, after);
    assert_eq!(after.chars().filter(|c| *c == ALIVE).count(), 9);
}
