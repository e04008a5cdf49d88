use rusty_forest::cell::Cell;

#[test]
fn cells_with_the_same_fields_are_equal() {
    let a = Cell::new(1, 2, 3, 4, 5, 6, 'x');
    let b = Cell { bg: (1, 2, 3), fg: (4, 5, 6), symbol: 'x' };
    assert_eq!(a, b);
    assert!(a == b);
}

#[test]
fn a_difference_in_any_field_makes_cells_different() {
    let a = Cell::new(1, 2, 3, 4, 5, 6, 'x');
    assert_ne!(a, Cell::new(0, 2, 3, 4, 5, 6, 'x'));
    assert_ne!(a, Cell::new(1, 0, 3, 4, 5, 6, 'x'));
    assert_ne!(a, Cell::new(1, 2, 0, 4, 5, 6, 'x'));
    assert_ne!(a, Cell::new(1, 2, 3, 0, 5, 6, 'x'));
    assert_ne!(a, Cell::new(1, 2, 3, 4, 0, 6, 'x'));
    assert_ne!(a, Cell::new(1, 2, 3, 4, 5, 0, 'x'));
    assert_ne!(a, Cell::new(1, 2, 3, 4, 5, 6, 'y'));
}

#[test]
fn new_takes_the_background_first() {
    let a = Cell::new(1, 2, 3, 4, 5, 6, 'x');
    assert_eq!(a.bg, (1, 2, 3));
    assert_eq!(a.fg, (4, 5, 6));
    assert_eq!(a.symbol, 'x');
}

#[test]
fn bg_gives_a_black_foreground_and_a_space() {
    let a = Cell::bg(10, 20, 30);
    assert_eq!(a, Cell { bg: (10, 20, 30), fg: (0, 0, 0), symbol: ' ' });
}

#[test]
fn change_symbol_keeps_the_colours() {
    let a = Cell::new(1, 2, 3, 4, 5, 6, 'x');
    assert_eq!(a.change_symbol('y'), Cell::new(1, 2, 3, 4, 5, 6, 'y'));
    assert_eq!(a.symbol, 'x');
}

#[test]
fn the_default_cell_is_black_with_a_space() {
    assert_eq!(Cell::default(), Cell { bg: (0, 0, 0), fg: (0, 0, 0), symbol: ' ' });
    assert_eq!(Cell::default(), Cell::bg(0, 0, 0));
}
