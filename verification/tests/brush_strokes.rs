use sand_sim::cell::{Cell, Color, SandError};
use sand_sim::grid::Grid;

fn gold() -> Color {
    Color::new(255, 203, 0, 255)
}

fn blue() -> Color {
    Color::new(0, 121, 241, 255)
}

fn full_grid(width: usize, height: usize, color: Color) -> Grid {
    let mut grid = Grid::new(width, height).unwrap();
    for y in 0..height {
        for x in 0..width {
            grid.set_next(x, y, Cell::Occupied { color }).unwrap();
        }
    }
    grid.commit();
    grid
}

fn inside(x: usize, y: usize, cx: i64, cy: i64, r: i64) -> bool {
    let dx = x as i64 - cx;
    let dy = y as i64 - cy;
    dx * dx + dy * dy < r * r
}

#[test]
fn remove_stroke_empties_exactly_the_disc() {
    let mut grid = full_grid(12, 10, blue());
    assert_eq!(grid.remove_stroke(5, 4, 3), Ok(()));
    grid.commit();
    for y in 0..10 {
        for x in 0..12 {
            let expected = if inside(x, y, 5, 4, 3) {
                Cell::Empty
            } else {
                Cell::Occupied { color: blue() }
            };
            assert_eq!(grid.get(x, y), Ok(expected), "at ({}, {})", x, y);
        }
    }
}

#[test]
fn remove_stroke_of_radius_three_removes_twenty_five_cells() {
    // offsets with dx² + dy² < 9: 25 of them
    let mut grid = full_grid(12, 10, blue());
    grid.remove_stroke(5, 4, 3).unwrap();
    grid.commit();
    assert_eq!(grid.count_occupied(), 120 - 25);
}

#[test]
fn remove_stroke_leaves_the_rim_of_the_disc() {
    // the disc is open: a cell at distance exactly r stays
    let mut grid = full_grid(9, 9, blue());
    grid.remove_stroke(4, 4, 2).unwrap();
    grid.commit();
    assert_eq!(grid.get(6, 4), Ok(Cell::Occupied { color: blue() }));
    assert_eq!(grid.get(4, 6), Ok(Cell::Occupied { color: blue() }));
    assert_eq!(grid.get(2, 4), Ok(Cell::Occupied { color: blue() }));
    assert_eq!(grid.get(4, 2), Ok(Cell::Occupied { color: blue() }));
    assert_eq!(grid.get(5, 4), Ok(Cell::Empty));
    assert_eq!(grid.get(5, 5), Ok(Cell::Empty));
    assert_eq!(grid.get(4, 4), Ok(Cell::Empty));
    assert_eq!(grid.count_occupied(), 81 - 9);
}

#[test]
fn remove_stroke_of_radius_one_removes_the_centre() {
    let mut grid = full_grid(5, 5, blue());
    grid.remove_stroke(2, 2, 1).unwrap();
    grid.commit();
    assert_eq!(grid.get(2, 2), Ok(Cell::Empty));
    assert_eq!(grid.count_occupied(), 24);
}

#[test]
fn remove_stroke_of_radius_zero_removes_nothing() {
    let mut grid = full_grid(5, 5, blue());
    assert_eq!(grid.remove_stroke(2, 2, 0), Ok(()));
    grid.commit();
    assert_eq!(grid.count_occupied(), 25);
}

#[test]
fn remove_stroke_with_negative_radius_is_refused() {
    let mut grid = full_grid(5, 5, blue());
    assert_eq!(grid.remove_stroke(2, 2, -1), Err(SandError::InvalidRadius));
    assert_eq!(grid.remove_stroke(2, 2, i32::MIN), Err(SandError::InvalidRadius));
    grid.commit();
    assert_eq!(grid.count_occupied(), 25);
}

#[test]
fn remove_stroke_is_clipped_at_the_edges() {
    let mut grid = full_grid(6, 6, blue());
    grid.remove_stroke(0, 0, 3).unwrap();
    grid.commit();
    for y in 0..6 {
        for x in 0..6 {
            let expected = if inside(x, y, 0, 0, 3) {
                Cell::Empty
            } else {
                Cell::Occupied { color: blue() }
            };
            assert_eq!(grid.get(x, y), Ok(expected));
        }
    }
    // (0,0) (1,0) (2,0) (0,1) (1,1) (2,1) (0,2) (1,2) (2,2)
    assert_eq!(grid.count_occupied(), 36 - 9);
}

#[test]
fn remove_stroke_centred_off_the_grid_reaches_in() {
    let mut grid = full_grid(4, 4, blue());
    grid.remove_stroke(-1, 1, 3).unwrap();
    grid.commit();
    for y in 0..4 {
        for x in 0..4 {
            let expected = if inside(x, y, -1, 1, 3) {
                Cell::Empty
            } else {
                Cell::Occupied { color: blue() }
            };
            assert_eq!(grid.get(x, y), Ok(expected));
        }
    }
    assert_eq!(grid.get(0, 1), Ok(Cell::Empty));
    assert_eq!(grid.get(1, 1), Ok(Cell::Empty));
    assert_eq!(grid.get(2, 1), Ok(Cell::Occupied { color: blue() }));
}

#[test]
fn remove_stroke_far_away_touches_nothing() {
    let mut grid = full_grid(4, 4, blue());
    grid.remove_stroke(100, 100, 5).unwrap();
    grid.remove_stroke(i32::MAX, i32::MIN, 5).unwrap();
    grid.commit();
    assert_eq!(grid.count_occupied(), 16);
}

#[test]
fn remove_stroke_writes_the_buffer_only() {
    let mut grid = full_grid(5, 5, blue());
    grid.remove_stroke(2, 2, 2).unwrap();
    assert_eq!(grid.get(2, 2), Ok(Cell::Occupied { color: blue() }));
    assert_eq!(grid.get_next(2, 2), Ok(Cell::Empty));
}

#[test]
fn add_stroke_paints_only_inside_the_disc() {
    let mut grid = Grid::new(30, 30).unwrap();
    assert_eq!(grid.add_stroke(15, 15, 8, gold()), Ok(()));
    grid.commit();
    for y in 0..30 {
        for x in 0..30 {
            let cell = grid.get(x, y).unwrap();
            if inside(x, y, 15, 15, 8) {
                assert!(cell == Cell::Empty || cell == Cell::Occupied { color: gold() });
            } else {
                assert_eq!(cell, Cell::Empty);
            }
        }
    }
}

#[test]
fn add_stroke_is_speckled() {
    // some cells under the brush take a grain and some do not
    let mut grid = Grid::new(40, 40).unwrap();
    grid.add_stroke(20, 20, 12, gold()).unwrap();
    grid.commit();
    let mut under = 0;
    for y in 0..40 {
        for x in 0..40 {
            if inside(x, y, 20, 20, 12) {
                under += 1;
            }
        }
    }
    let painted = grid.count_occupied();
    assert!(painted > 0);
    assert!(painted < under);
}

#[test]
fn add_stroke_keeps_what_it_does_not_paint() {
    let mut grid = full_grid(20, 20, blue());
    grid.add_stroke(10, 10, 6, gold()).unwrap();
    grid.commit();
    assert_eq!(grid.count_occupied(), 400);
    for y in 0..20 {
        for x in 0..20 {
            let cell = grid.get(x, y).unwrap();
            if inside(x, y, 10, 10, 6) {
                assert!(
                    cell == Cell::Occupied { color: blue() }
                        || cell == Cell::Occupied { color: gold() }
                );
            } else {
                assert_eq!(cell, Cell::Occupied { color: blue() });
            }
        }
    }
}

#[test]
fn add_stroke_of_radius_zero_adds_nothing() {
    let mut grid = Grid::new(5, 5).unwrap();
    assert_eq!(grid.add_stroke(2, 2, 0, gold()), Ok(()));
    grid.commit();
    assert_eq!(grid.count_occupied(), 0);
}

#[test]
fn add_stroke_with_negative_radius_is_refused() {
    let mut grid = Grid::new(5, 5).unwrap();
    assert_eq!(grid.add_stroke(2, 2, -3, gold()), Err(SandError::InvalidRadius));
    grid.commit();
    assert_eq!(grid.count_occupied(), 0);
}

#[test]
fn add_stroke_off_the_grid_adds_nothing() {
    let mut grid = Grid::new(5, 5).unwrap();
    grid.add_stroke(-50, -50, 10, gold()).unwrap();
    grid.add_stroke(i32::MAX, i32::MAX, 10, gold()).unwrap();
    grid.commit();
    assert_eq!(grid.count_occupied(), 0);
}

#[test]
fn drop_grain_writes_on_a_roll_that_is_not_zero() {
    let mut grid = Grid::new(3, 3).unwrap();
    assert_eq!(grid.drop_grain(1, 2, gold(), 1), Ok(()));
    assert_eq!(grid.get_next(1, 2), Ok(Cell::Occupied { color: gold() }));
    assert_eq!(grid.get(1, 2), Ok(Cell::Empty));
    grid.commit();
    assert_eq!(grid.count_occupied(), 1);
}

#[test]
fn drop_grain_writes_nothing_on_a_zero_roll() {
    let mut grid = Grid::new(3, 3).unwrap();
    assert_eq!(grid.drop_grain(1, 2, gold(), 0), Ok(()));
    assert_eq!(grid.get_next(1, 2), Ok(Cell::Empty));
}

#[test]
fn drop_grain_replaces_the_grain_that_was_there() {
    let mut grid = full_grid(3, 3, blue());
    grid.drop_grain(0, 0, gold(), 1).unwrap();
    assert_eq!(grid.get_next(0, 0), Ok(Cell::Occupied { color: gold() }));
    assert_eq!(grid.get_next(1, 0), Ok(Cell::Occupied { color: blue() }));
}

#[test]
fn drop_grain_off_the_grid_is_refused() {
    let mut grid = Grid::new(3, 3).unwrap();
    assert_eq!(grid.drop_grain(3, 0, gold(), 1), Err(SandError::IndexOutOfBounds));
    assert_eq!(grid.drop_grain(0, 3, gold(), 0), Err(SandError::IndexOutOfBounds));
    grid.commit();
    assert_eq!(grid.count_occupied(), 0);
}
