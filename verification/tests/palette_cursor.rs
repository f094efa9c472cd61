use sand_sim::cell::Color;
use sand_sim::palette::Palette;

fn shades(n: u8) -> Vec<Color> {
    (0..n).map(|i| Color::new(i, i, i, 255)).collect()
}

#[test]
fn palette_starts_at_the_given_colour() {
    let palette = Palette::new(shades(5), 3).unwrap();
    assert_eq!(palette.len(), 5);
    assert_eq!(palette.cursor(), 3);
    assert_eq!(palette.current(), Color::new(3, 3, 3, 255));
}

#[test]
fn palette_needs_a_colour() {
    assert!(Palette::new(Vec::new(), 0).is_none());
}

#[test]
fn palette_needs_its_cursor_on_a_colour() {
    assert!(Palette::new(shades(5), 5).is_none());
    assert!(Palette::new(shades(5), usize::MAX).is_none());
    assert!(Palette::new(shades(5), 4).is_some());
}

#[test]
fn advance_moves_one_colour_on() {
    let mut palette = Palette::new(shades(5), 1).unwrap();
    palette.advance();
    assert_eq!(palette.cursor(), 2);
    assert_eq!(palette.current(), Color::new(2, 2, 2, 255));
}

#[test]
fn advance_wraps_from_the_last_to_the_first() {
    let mut palette = Palette::new(shades(5), 4).unwrap();
    palette.advance();
    assert_eq!(palette.cursor(), 0);
}

#[test]
fn advance_reaches_the_last_colour() {
    let mut palette = Palette::new(shades(5), 3).unwrap();
    palette.advance();
    assert_eq!(palette.cursor(), 4);
}

#[test]
fn retreat_moves_one_colour_back() {
    let mut palette = Palette::new(shades(5), 3).unwrap();
    palette.retreat();
    assert_eq!(palette.cursor(), 2);
}

#[test]
fn retreat_wraps_from_the_first_to_the_last() {
    let mut palette = Palette::new(shades(5), 0).unwrap();
    palette.retreat();
    assert_eq!(palette.cursor(), 4);
    assert_eq!(palette.current(), Color::new(4, 4, 4, 255));
}

#[test]
fn retreat_reaches_the_first_colour() {
    let mut palette = Palette::new(shades(5), 1).unwrap();
    palette.retreat();
    assert_eq!(palette.cursor(), 0);
}

#[test]
fn advance_then_retreat_comes_back() {
    for start in 0..5 {
        let mut palette = Palette::new(shades(5), start).unwrap();
        palette.advance();
        palette.retreat();
        assert_eq!(palette.cursor(), start);
        palette.retreat();
        palette.advance();
        assert_eq!(palette.cursor(), start);
    }
}

#[test]
fn going_round_once_comes_back() {
    let mut palette = Palette::new(shades(24), 10).unwrap();
    for _ in 0..24 {
        palette.advance();
    }
    assert_eq!(palette.cursor(), 10);
}

#[test]
fn palette_of_one_colour_stays_on_it() {
    let mut palette = Palette::new(shades(1), 0).unwrap();
    palette.advance();
    assert_eq!(palette.cursor(), 0);
    palette.retreat();
    assert_eq!(palette.cursor(), 0);
}
