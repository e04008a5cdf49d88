use rusty_forest::cell::Cell;
use rusty_forest::display::{Display, Paint};
use rusty_forest::editor::{
    Editor, EditorState, Key, INSTRUCTIONS, NAME_MISSING, NAME_TREE, SMALL_SCREEN_ERROR,
};

fn white() -> Cell {
    Cell::bg(255, 255, 255)
}

fn plain(symbol: char) -> Cell {
    Cell::new(0, 0, 0, 255, 255, 255, symbol)
}

/// The cell that a new display shows at `row` and `col` after `paints`.
fn cell_at(paints: &Vec<Paint>, row: u16, col: u16) -> Cell {
    paints
        .iter()
        .find(|p| p.row == row && p.col == col)
        .map(|p| p.cell)
        .unwrap_or(Cell::default())
}

fn text_at(paints: &Vec<Paint>, row: u16, col: u16, len: usize) -> String {
    (0..len).map(|i| cell_at(paints, row, col + i as u16).symbol).collect()
}

fn press(editor: &mut Editor, keys: &[Key]) {
    for key in keys {
        editor.pressed(*key);
    }
}

fn typed(editor: &mut Editor, text: &str) {
    for c in text.chars() {
        editor.pressed(Key::Char(c));
    }
}

fn name(editor: &Editor) -> String {
    editor.name.iter().collect()
}

#[test]
fn the_editor_starts_with_a_blank_tree() {
    let editor = Editor::new();
    assert_eq!(editor.state, EditorState::EditTree);
    assert_eq!(editor.cells, vec![vec![Cell::default(); 5]; 5]);
    assert_eq!(name(&editor), "");
    assert_eq!((editor.l_tree, editor.c_tree, editor.str_cursor), (0, 0, 0));
    assert_eq!(editor.brush, Cell::default());
    assert_eq!(editor.banner, NAME_TREE);
    assert!(!editor.exit_program);
    let tree = editor.tree();
    assert_eq!(tree.cells, vec![vec![Cell::default(); 5]; 5]);
    assert_eq!(tree.name, "");
}

#[test]
fn control_c_ends_the_editor() {
    let mut editor = Editor::new();
    editor.pressed(Key::Ctrl('d'));
    assert!(!editor.exit_program);
    editor.pressed(Key::Ctrl('c'));
    assert!(editor.exit_program);
    let mut naming = Editor::new();
    press(&mut naming, &[Key::Char('\n'), Key::Ctrl('c')]);
    assert!(naming.exit_program);
    assert_eq!(naming.state, EditorState::NameTree);
}

#[test]
fn the_arrows_walk_around_the_menu() {
    let mut editor = Editor::new();
    editor.pressed(Key::Up);
    assert_eq!(editor.l_tree, 10);
    editor.pressed(Key::Down);
    assert_eq!(editor.l_tree, 0);
    press(&mut editor, &[Key::Down, Key::Down, Key::Down]);
    assert_eq!(editor.l_tree, 3);
    editor.pressed(Key::Up);
    assert_eq!(editor.l_tree, 2);
    editor.pressed(Key::Left);
    assert_eq!(editor.c_tree, 4);
    editor.pressed(Key::Right);
    assert_eq!(editor.c_tree, 0);
    press(&mut editor, &[Key::Right, Key::Right]);
    assert_eq!(editor.c_tree, 2);
    editor.pressed(Key::Left);
    assert_eq!(editor.c_tree, 1);
    assert_eq!(editor.l_tree, 2);
}

#[test]
fn a_character_paints_the_chosen_cell() {
    let mut editor = Editor::new();
    press(&mut editor, &[Key::Down, Key::Right, Key::Right, Key::Char('x')]);
    assert_eq!(editor.cells[1][2], Cell::new(0, 0, 0, 0, 0, 0, 'x'));
    assert_eq!(editor.brush.symbol, 'x');
    let painted: usize = editor.cells.iter().flatten().filter(|c| **c != Cell::default()).count();
    assert_eq!(painted, 1);
    // on the lines of the colours a character does nothing
    press(&mut editor, &[Key::Down, Key::Down, Key::Down, Key::Down, Key::Char('y')]);
    assert_eq!(editor.l_tree, 5);
    assert_eq!(editor.brush.symbol, 'x');
    assert_eq!(editor.cells[1][2].symbol, 'x');
}

#[test]
fn left_and_right_change_the_colours_of_the_brush() {
    let mut editor = Editor::new();
    press(&mut editor, &[Key::Up]);
    assert_eq!(editor.l_tree, 10);
    press(&mut editor, &[Key::Right, Key::Right, Key::Left]);
    assert_eq!(editor.brush.fg, (0, 0, 1));
    press(&mut editor, &[Key::Up, Key::Right]);
    assert_eq!(editor.brush.fg, (0, 1, 1));
    press(&mut editor, &[Key::Up, Key::Right, Key::Right, Key::Right]);
    assert_eq!(editor.brush.fg, (3, 1, 1));
    press(&mut editor, &[Key::Up, Key::Right]);
    assert_eq!(editor.brush.bg, (0, 0, 1));
    press(&mut editor, &[Key::Up, Key::Right, Key::Right]);
    assert_eq!(editor.brush.bg, (0, 2, 1));
    press(&mut editor, &[Key::Up, Key::Right, Key::Left, Key::Left, Key::Left]);
    assert_eq!(editor.l_tree, 5);
    assert_eq!(editor.brush.bg, (0, 2, 1));
    assert_eq!(editor.brush.fg, (3, 1, 1));
    assert_eq!(editor.c_tree, 0);
}

#[test]
fn a_colour_stays_between_0_and_255() {
    let mut editor = Editor::new();
    press(&mut editor, &[Key::Up, Key::Up, Key::Up, Key::Up, Key::Up, Key::Up]);
    assert_eq!(editor.l_tree, 5);
    editor.pressed(Key::Left);
    assert_eq!(editor.brush.bg, (0, 0, 0));
    for _ in 0..300 {
        editor.pressed(Key::Right);
    }
    assert_eq!(editor.brush.bg, (255, 0, 0));
    editor.pressed(Key::Left);
    assert_eq!(editor.brush.bg, (254, 0, 0));
}

#[test]
fn the_brush_paints_with_its_colours() {
    let mut editor = Editor::new();
    press(&mut editor, &[Key::Up, Key::Right, Key::Right]);
    press(&mut editor, &[Key::Down, Key::Down, Key::Char('#')]);
    assert_eq!(editor.l_tree, 1);
    assert_eq!(editor.cells[1][0], Cell::new(0, 0, 0, 0, 0, 2, '#'));
}

#[test]
fn enter_goes_from_painting_to_naming() {
    let mut editor = Editor::new();
    editor.pressed(Key::Char('\n'));
    assert_eq!(editor.state, EditorState::NameTree);
    assert!(!editor.exit_program);
    assert_eq!(editor.banner, NAME_TREE);
    // the arrows up and down do nothing now
    press(&mut editor, &[Key::Up, Key::Down, Key::Down]);
    assert_eq!(editor.l_tree, 0);
}

#[test]
fn a_tree_without_a_name_is_not_done() {
    let mut editor = Editor::new();
    press(&mut editor, &[Key::Char('\n'), Key::Char('\n')]);
    assert!(!editor.exit_program);
    assert_eq!(editor.banner, NAME_MISSING);
    assert_eq!(editor.banner, "Please name your tree!");
    typed(&mut editor, "oak");
    editor.pressed(Key::Char('\n'));
    assert!(editor.exit_program);
    assert_eq!(editor.tree().name, "oak");
}

#[test]
fn a_name_takes_only_the_characters_of_names() {
    let mut editor = Editor::new();
    editor.pressed(Key::Char('\n'));
    typed(&mut editor, "My tree_2-b!?.:/\u{e9}\t");
    assert_eq!(name(&editor), "My tree_2-b");
    assert_eq!(editor.str_cursor, 11);
    assert_eq!(editor.cells, vec![vec![Cell::default(); 5]; 5]);
    assert_eq!(editor.brush, Cell::default());
}

#[test]
fn the_name_is_changed_at_the_cursor() {
    let mut editor = Editor::new();
    editor.pressed(Key::Char('\n'));
    typed(&mut editor, "oak");
    press(&mut editor, &[Key::Left, Key::Left, Key::Left, Key::Left]);
    assert_eq!(editor.str_cursor, 0);
    editor.pressed(Key::Backspace);
    assert_eq!(name(&editor), "oak");
    typed(&mut editor, "an ");
    assert_eq!(name(&editor), "an oak");
    assert_eq!(editor.str_cursor, 3);
    editor.pressed(Key::Delete);
    assert_eq!(name(&editor), "an ak");
    assert_eq!(editor.str_cursor, 3);
    editor.pressed(Key::Backspace);
    assert_eq!(name(&editor), "anak");
    assert_eq!(editor.str_cursor, 2);
    press(&mut editor, &[Key::Right, Key::Right, Key::Right, Key::Right]);
    assert_eq!(editor.str_cursor, 4);
    editor.pressed(Key::Delete);
    assert_eq!(name(&editor), "anak");
    editor.pressed(Key::Backspace);
    assert_eq!(name(&editor), "ana");
    assert_eq!(editor.str_cursor, 3);
}

#[test]
fn backspace_and_delete_do_nothing_while_painting() {
    let mut editor = Editor::new();
    press(&mut editor, &[Key::Char('x'), Key::Backspace, Key::Delete, Key::Other]);
    assert_eq!(editor.cells[0][0].symbol, 'x');
    assert_eq!(name(&editor), "");
    assert_eq!(editor.state, EditorState::EditTree);
}

#[test]
fn the_tree_is_what_was_painted_and_named() {
    let mut editor = Editor::new();
    press(&mut editor, &[Key::Char('a'), Key::Right, Key::Char('b'), Key::Down, Key::Char('c')]);
    editor.pressed(Key::Char('\n'));
    typed(&mut editor, "abc");
    editor.pressed(Key::Char('\n'));
    let tree = editor.tree();
    assert_eq!(tree.name, "abc");
    assert_eq!(tree.cells[0][0].symbol, 'a');
    assert_eq!(tree.cells[0][1].symbol, 'b');
    assert_eq!(tree.cells[1][1].symbol, 'c');
    assert!(tree.to_string().ends_with(":abc"));
}

#[test]
fn a_small_terminal_gets_the_notice_of_the_editor() {
    let mut editor = Editor::new();
    editor.pressed(Key::Char('x'));
    let mut display = Display::new(29, 40);
    editor.draw(&mut display, 29, 40);
    let paints = display.display(29, 40);
    let notice: Vec<char> = SMALL_SCREEN_ERROR.chars().collect();
    assert_eq!(notice.len(), 100);
    for (i, chr) in notice.iter().enumerate() {
        assert_eq!(cell_at(&paints, (i / 29 + 1) as u16, (i % 29 + 1) as u16), plain(*chr));
    }
    assert_eq!(paints.len(), 100);
    // the brush keeps its character
    assert_eq!(editor.brush.symbol, 'x');
    let mut low = Display::new(80, 21);
    editor.draw(&mut low, 80, 21);
    assert_eq!(low.display(80, 21).len(), 100);
}

#[test]
fn a_terminal_without_columns_gets_nothing() {
    let mut editor = Editor::new();
    let mut display = Display::new(10, 10);
    display.draw_pixel(1, 1, white());
    display.display(10, 10);
    editor.draw(&mut display, 0, 10);
    assert_eq!(display.display(10, 10), vec![Paint { row: 1, col: 1, cell: Cell::default() }]);
}

#[test]
fn the_painting_screen_shows_the_tree_and_the_brush() {
    let mut editor = Editor::new();
    // a brush with a red background, on the second row and third column
    press(&mut editor, &[Key::Up, Key::Up, Key::Up, Key::Up, Key::Up, Key::Up]);
    press(&mut editor, &[Key::Right, Key::Right, Key::Right]);
    press(&mut editor, &[Key::Down, Key::Down, Key::Down, Key::Down, Key::Down, Key::Down]);
    press(&mut editor, &[Key::Down, Key::Right, Key::Right, Key::Char('x')]);
    assert_eq!((editor.l_tree, editor.c_tree), (1, 2));
    let mut display = Display::new(40, 24);
    editor.draw(&mut display, 40, 24);
    let paints = display.display(40, 24);
    // the frame
    for col in 1..=40 {
        assert_eq!(cell_at(&paints, 1, col), white());
        assert_eq!(cell_at(&paints, 24, col), white());
    }
    for row in 1..=24 {
        assert_eq!(cell_at(&paints, row, 8), white());
        assert_eq!(cell_at(&paints, row, 9), white());
    }
    for i in 1..=7 {
        assert_eq!(cell_at(&paints, 2, i), white());
        assert_eq!(cell_at(&paints, 8, i), white());
        assert_eq!(cell_at(&paints, 1 + i, 1), white());
        assert_eq!(cell_at(&paints, 1 + i, 7), white());
    }
    // the tree, with a star where the cursor is
    assert_eq!(cell_at(&paints, 3, 2), Cell::default());
    assert_eq!(cell_at(&paints, 4, 4), Cell::new(3, 0, 0, 255, 255, 255, '*'));
    assert_eq!(editor.cells[1][2], Cell::new(3, 0, 0, 0, 0, 0, 'x'));
    // the menu: the labels below row 9 are written over the frame's columns
    assert_eq!(text_at(&paints, 9, 1, 2), "BG");
    assert_eq!(text_at(&paints, 10, 1, 3), "Red");
    assert_eq!(text_at(&paints, 11, 1, 5), "Green");
    assert_eq!(text_at(&paints, 12, 1, 4), "Blue");
    assert_eq!(text_at(&paints, 15, 1, 2), "FG");
    assert_eq!(text_at(&paints, 18, 1, 4), "Blue");
    assert_eq!(cell_at(&paints, 10, 1), plain('R'));
    // the instructions
    assert_eq!(text_at(&paints, 2, 10, 4), "Walk");
    assert_eq!(cell_at(&paints, 2, 10), plain('W'));
    assert!(INSTRUCTIONS.starts_with("Walk around"));
    // the brush, without its character, and its colours in words
    assert_eq!(editor.brush, Cell::new(3, 0, 0, 0, 0, 0, ' '));
    assert_eq!(cell_at(&paints, 23, 10), Cell::new(3, 0, 0, 0, 0, 0, ' '));
    assert_eq!(cell_at(&paints, 23, 11), Cell::new(3, 0, 0, 0, 0, 0, ' '));
    assert_eq!(text_at(&paints, 23, 12, 13), "BG: (3, 0, 0)");
    assert_eq!(cell_at(&paints, 22, 10), Cell::bg(0, 0, 0));
    assert_eq!(text_at(&paints, 22, 12, 13), "FG: (0, 0, 0)");
}

#[test]
fn the_marker_follows_the_chosen_colour() {
    let mut editor = Editor::new();
    let rows: [u16; 6] = [10, 11, 12, 16, 17, 18];
    press(&mut editor, &[Key::Down, Key::Down, Key::Down, Key::Down]);
    for row in rows {
        editor.pressed(Key::Down);
        let mut display = Display::new(40, 24);
        editor.draw(&mut display, 40, 24);
        let paints = display.display(40, 24);
        for other in rows {
            let expected = if other == row { "<>" } else { "  " };
            assert_eq!(text_at(&paints, other, 6, 2), expected, "{} {}", row, other);
        }
    }
    assert_eq!(editor.l_tree, 10);
}

#[test]
fn the_naming_screen_shows_the_banner_and_the_name() {
    let mut editor = Editor::new();
    editor.pressed(Key::Char('\n'));
    typed(&mut editor, "a fine old oak tree that has a long name");
    press(&mut editor, &[Key::Left, Key::Left]);
    let mut display = Display::new(32, 22);
    editor.draw(&mut display, 32, 22);
    let paints = display.display(32, 22);
    for col in 1..=32 {
        assert_eq!(cell_at(&paints, 1, col), white());
        assert_eq!(cell_at(&paints, 6, col), white());
        assert_eq!(cell_at(&paints, 22, col), white());
    }
    for row in 1..=22 {
        assert_eq!(cell_at(&paints, row, 1), white());
        assert_eq!(cell_at(&paints, row, 32), white());
    }
    assert_eq!(text_at(&paints, 2, 2, 29), "Now you should give a name to");
    assert_eq!(text_at(&paints, 3, 2, 9), "your tree");
    // the name is cut at the width of the box, 30 columns
    assert_eq!(text_at(&paints, 7, 2, 30), "a fine old oak tree that has a");
    // the cursor hides the last but one character of the name
    assert_eq!(text_at(&paints, 8, 2, 10), " long na e");
    assert_eq!(cell_at(&paints, 8, 10), white());
    assert_eq!(cell_at(&paints, 8, 9), plain('a'));
    assert_eq!(editor.str_cursor, 38);
}

#[test]
fn the_editor_is_drawn_the_same_every_time() {
    let mut editor = Editor::new();
    press(&mut editor, &[Key::Char('x'), Key::Down]);
    let mut display = Display::new(50, 30);
    editor.draw(&mut display, 50, 30);
    assert!(display.display(50, 30).len() > 300);
    editor.draw(&mut display, 50, 30);
    assert_eq!(display.display(50, 30), vec![]);
    editor.pressed(Key::Right);
    editor.draw(&mut display, 50, 30);
    let paints = display.display(50, 30);
    assert_eq!(
        paints,
        vec![
            Paint { row: 4, col: 2, cell: Cell::default() },
            Paint { row: 4, col: 3, cell: Cell::new(0, 0, 0, 255, 255, 255, '*') }
        ]
    );
}
