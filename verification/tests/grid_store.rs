use sand_sim::cell::{Cell, Color, SandError};
use sand_sim::grid::Grid;

fn red() -> Color {
    Color::new(230, 41, 55, 255)
}

fn grain() -> Cell {
    Cell::Occupied { color: red() }
}

#[test]
fn new_grid_is_empty_everywhere() {
    let grid = Grid::new(4, 3).unwrap();
    assert_eq!(grid.width(), 4);
    assert_eq!(grid.height(), 3);
    for y in 0..3 {
        for x in 0..4 {
            assert_eq!(grid.get(x, y), Ok(Cell::Empty));
            assert_eq!(grid.get_next(x, y), Ok(Cell::Empty));
        }
    }
    assert_eq!(grid.count_occupied(), 0);
}

#[test]
fn new_grid_needs_a_width() {
    assert!(Grid::new(0, 5).is_none());
}

#[test]
fn new_grid_needs_a_height() {
    assert!(Grid::new(5, 0).is_none());
}

#[test]
fn new_grid_refuses_more_cells_than_can_be_addressed() {
    assert!(Grid::new(usize::MAX, 2).is_none());
}

#[test]
fn one_by_one_grid_exists() {
    let grid = Grid::new(1, 1).unwrap();
    assert_eq!(grid.get(0, 0), Ok(Cell::Empty));
}

#[test]
fn get_outside_is_an_error() {
    let grid = Grid::new(4, 3).unwrap();
    assert_eq!(grid.get(4, 0), Err(SandError::IndexOutOfBounds));
    assert_eq!(grid.get(0, 3), Err(SandError::IndexOutOfBounds));
    assert_eq!(grid.get(usize::MAX, usize::MAX), Err(SandError::IndexOutOfBounds));
    assert_eq!(grid.get_next(4, 2), Err(SandError::IndexOutOfBounds));
}

#[test]
fn get_on_the_last_position_succeeds() {
    let grid = Grid::new(4, 3).unwrap();
    assert_eq!(grid.get(3, 2), Ok(Cell::Empty));
}

#[test]
fn set_next_writes_the_buffer_only() {
    let mut grid = Grid::new(4, 3).unwrap();
    assert_eq!(grid.set_next(2, 1, grain()), Ok(()));
    assert_eq!(grid.get(2, 1), Ok(Cell::Empty));
    assert_eq!(grid.get_next(2, 1), Ok(grain()));
    assert_eq!(grid.count_occupied(), 0);
}

#[test]
fn set_next_touches_one_position() {
    let mut grid = Grid::new(4, 3).unwrap();
    grid.set_next(2, 1, grain()).unwrap();
    for y in 0..3 {
        for x in 0..4 {
            let expected = if (x, y) == (2, 1) { grain() } else { Cell::Empty };
            assert_eq!(grid.get_next(x, y), Ok(expected));
        }
    }
}

#[test]
fn set_next_outside_is_an_error_and_writes_nothing() {
    let mut grid = Grid::new(4, 3).unwrap();
    assert_eq!(grid.set_next(4, 1, grain()), Err(SandError::IndexOutOfBounds));
    assert_eq!(grid.set_next(1, 3, grain()), Err(SandError::IndexOutOfBounds));
    grid.commit();
    assert_eq!(grid.count_occupied(), 0);
}

#[test]
fn rows_do_not_overlap() {
    // (3, 0) and (0, 1) are neighbours in memory, not on the grid
    let mut grid = Grid::new(4, 3).unwrap();
    grid.set_next(3, 0, grain()).unwrap();
    grid.commit();
    assert_eq!(grid.get(3, 0), Ok(grain()));
    assert_eq!(grid.get(0, 1), Ok(Cell::Empty));
}

#[test]
fn commit_makes_the_buffer_current() {
    let mut grid = Grid::new(4, 3).unwrap();
    grid.set_next(2, 1, grain()).unwrap();
    grid.set_next(0, 2, grain()).unwrap();
    grid.commit();
    assert_eq!(grid.get(2, 1), Ok(grain()));
    assert_eq!(grid.get(0, 2), Ok(grain()));
    assert_eq!(grid.get_next(2, 1), Ok(grain()));
    assert_eq!(grid.count_occupied(), 2);
}

#[test]
fn set_next_can_empty_a_position() {
    let mut grid = Grid::new(2, 2).unwrap();
    grid.set_next(1, 1, grain()).unwrap();
    grid.commit();
    grid.set_next(1, 1, Cell::Empty).unwrap();
    assert_eq!(grid.get(1, 1), Ok(grain()));
    grid.commit();
    assert_eq!(grid.get(1, 1), Ok(Cell::Empty));
}

#[test]
fn reseed_discards_what_was_written() {
    let mut grid = Grid::new(2, 2).unwrap();
    grid.set_next(0, 0, grain()).unwrap();
    grid.commit();
    grid.set_next(1, 1, grain()).unwrap();
    grid.set_next(0, 0, Cell::Empty).unwrap();
    grid.reseed();
    assert_eq!(grid.get_next(0, 0), Ok(grain()));
    assert_eq!(grid.get_next(1, 1), Ok(Cell::Empty));
}

#[test]
fn count_occupied_counts_committed_grains() {
    let mut grid = Grid::new(3, 3).unwrap();
    for x in 0..3 {
        grid.set_next(x, x, grain()).unwrap();
    }
    assert_eq!(grid.count_occupied(), 0);
    grid.commit();
    assert_eq!(grid.count_occupied(), 3);
}

#[test]
fn cell_knows_whether_it_holds_a_grain() {
    assert!(grain().is_occupied());
    assert!(!grain().is_empty());
    assert!(Cell::Empty.is_empty());
    assert!(!Cell::Empty.is_occupied());
}

#[test]
fn cell_shows_its_colour_or_the_background() {
    let white = Color::new(255, 255, 255, 255);
    assert_eq!(grain().color_or(white), red());
    assert_eq!(Cell::Empty.color_or(white), white);
}

#[test]
fn colour_keeps_its_channels() {
    let c = Color::new(1, 2, 3, 4);
    assert_eq!((c.r, c.g, c.b, c.a), (1, 2, 3, 4));
}
