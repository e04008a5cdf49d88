use rusty_forest::cell::Cell;
use rusty_forest::collection::{DEFAULT_1, DEFAULT_2, DEFAULT_3};
use rusty_forest::tree::Tree;

fn leaf() -> Cell {
    Cell::bg(30, 110, 0)
}

fn trunk() -> Cell {
    Cell::bg(50, 30, 0)
}

fn bytes_of(cells: &Vec<Vec<Cell>>) -> Vec<u8> {
    let mut bytes = Vec::new();
    for row in cells {
        for cell in row {
            bytes.push(cell.bg.0);
            bytes.push(cell.bg.1);
            bytes.push(cell.bg.2);
            bytes.push(cell.fg.0);
            bytes.push(cell.fg.1);
            bytes.push(cell.fg.2);
            bytes.push(cell.symbol as u8);
        }
    }
    bytes
}

/// A tree whose background reds add up to `back` and whose foreground reds
/// add up to `front`.
fn tree_with_sums(back: u64, front: u64) -> Tree {
    let mut cells = vec![vec![Cell::default(); 5]; 5];
    let mut back = back;
    let mut front = front;
    for l in 0..5 {
        for c in 0..5 {
            let b = if back > 255 { 255 } else { back };
            let f = if front > 255 { 255 } else { front };
            back -= b;
            front -= f;
            cells[l][c].bg.0 = b as u8;
            cells[l][c].fg.0 = f as u8;
        }
    }
    assert_eq!((back, front), (0, 0));
    Tree { cells, name: "sums".to_string() }
}

fn float_cost(back: u64, front: u64) -> u64 {
    let bg_cost = ((back as f64 / (255.0 * 5.0 * 5.0) * 12.0).floor() as u64) * 5;
    let fg_cost = ((front as f64 / (255.0 * 5.0 * 5.0) * 8.0).floor() as u64) * 5;
    15 + bg_cost + fg_cost
}

#[test]
fn new_wants_175_bytes() {
    assert_eq!(
        Tree::new(vec![0; 174], "a".to_string()).unwrap_err(),
        "Wrong number of bytes"
    );
    assert_eq!(
        Tree::new(vec![0; 176], "a".to_string()).unwrap_err(),
        "Wrong number of bytes"
    );
    assert_eq!(Tree::new(vec![], "a".to_string()).unwrap_err(), "Wrong number of bytes");
    assert!(Tree::new(vec![0; 175], "a".to_string()).is_ok());
}

#[test]
fn new_reads_seven_bytes_for_each_cell() {
    let bytes: Vec<u8> = (0..175).map(|k| k as u8).collect();
    let tree = Tree::new(bytes, "counted".to_string()).unwrap();
    assert_eq!(tree.name, "counted");
    assert_eq!(tree.cells.len(), 5);
    for l in 0..5 {
        assert_eq!(tree.cells[l].len(), 5);
        for c in 0..5 {
            let at = (7 * (5 * l + c)) as u8;
            assert_eq!(tree.cells[l][c].bg, (at, at + 1, at + 2));
            assert_eq!(tree.cells[l][c].fg, (at + 3, at + 4, at + 5));
            assert_eq!(tree.cells[l][c].symbol, (at + 6) as char);
        }
    }
}

#[test]
fn the_default_tree_is_blank() {
    let tree = Tree::default();
    assert_eq!(tree.name, "");
    assert_eq!(tree.cells, vec![vec![Cell::default(); 5]; 5]);
}

#[test]
fn colours_are_read_by_line_and_column() {
    let tree = Tree::import_tree(DEFAULT_3.to_string()).unwrap();
    assert_eq!(tree.get_bg_color(0, 2), (30, 110, 0));
    assert_eq!(tree.get_bg_color(3, 2), (50, 30, 0));
    assert_eq!(tree.get_bg_color(0, 0), (0, 0, 0));
    assert_eq!(tree.get_fg_color(1, 3), (255, 0, 0));
    assert_eq!(tree.get_fg_color(1, 2), (0, 0, 0));
    assert_eq!(tree.get_fg_color(2, 0), (255, 0, 0));
}

#[test]
fn display_symbol_sets_the_background_first() {
    let tree = Tree::import_tree(DEFAULT_3.to_string()).unwrap();
    assert_eq!(tree.display_symbol(1, 3), "\x1b[48;2;30;110;0m\x1b[38;2;255;0;0mo");
    assert_eq!(tree.display_symbol(0, 0), "\x1b[48;2;0;0;0m\x1b[38;2;0;0;0m ");
}

#[test]
fn drawing_has_five_lines_that_end_in_the_default_colours() {
    let tree = Tree::import_tree(DEFAULT_1.to_string()).unwrap();
    let mut expected = String::new();
    for l in 0..5 {
        for c in 0..5 {
            expected.push_str(&tree.display_symbol(l, c));
        }
        expected.push_str("\x1b[49m\x1b[39m\n");
    }
    assert_eq!(tree.drawing(), expected);
    assert_eq!(tree.drawing().lines().count(), 5);
}

#[test]
fn is_legit_takes_the_trees_that_are_built_in() {
    assert!(Tree::is_legit(&DEFAULT_1.to_string()));
    assert!(Tree::is_legit(&DEFAULT_2.to_string()));
    assert!(Tree::is_legit(&DEFAULT_3.to_string()));
}

#[test]
fn is_legit_agrees_with_the_pattern_of_the_format() {
    let pattern = regex::Regex::new("^[A-Fa-f0-9]{350}:[-_ a-zA-Z0-9]+$").unwrap();
    let digits = &DEFAULT_3[..350];
    let mut texts: Vec<String> = vec![
        String::new(),
        ":".to_string(),
        "abc".to_string(),
        DEFAULT_1.to_string(),
        digits.to_string(),
        format!("{}:", digits),
        format!("{}:a", digits),
        format!("{}:A-z_0 9", digits),
        format!("{}: ", digits),
        format!("{}:a:b", digits),
        format!("{}::", digits),
        format!("{}:a\n", digits),
        format!("{}:a\r", digits),
        format!("\n{}:a", digits),
        format!("{}:tr\u{e9}e", digits),
        format!("{}:tree.", digits),
        format!("{}:tree/", digits),
        format!("{};tree", digits),
        format!("{} tree", digits),
        format!("{}:tree", &digits[..349]),
        format!("{}0:tree", digits),
        format!("{}:tree", digits.to_uppercase()),
        format!("g{}:tree", &digits[1..]),
        format!("{}G:tree", &digits[..349]),
        format!("{}\u{e9}:tree", &digits[..349]),
        format!(" {}:tree", &digits[1..]),
        format!("-{}:tree", &digits[1..]),
        format!("{}:tree", "ab".repeat(175)),
        format!("{}:tree", "AbCdEf0123456789".repeat(22)),
        format!("{}:tree", "F".repeat(350)),
        format!("{}:tree", "F".repeat(351)),
        format!("{}:{}", digits, "n".repeat(1000)),
    ];
    for c in 0u8..128 {
        texts.push(format!("{}:{}", digits, c as char));
        texts.push(format!("{}{}:name", &digits[..349], c as char));
    }
    let mut legit = 0;
    for text in &texts {
        assert_eq!(Tree::is_legit(text), pattern.is_match(text), "{:?}", text);
        if Tree::is_legit(text) {
            legit += 1;
        }
    }
    assert!(legit > 60 && legit < texts.len());
}

#[test]
fn import_refuses_what_is_no_tree() {
    let refused = "The tree does not respect the format";
    assert_eq!(Tree::import_tree(String::new()).unwrap_err(), refused);
    assert_eq!(Tree::import_tree("00:tree".to_string()).unwrap_err(), refused);
    assert_eq!(Tree::import_tree(DEFAULT_1[..350].to_string()).unwrap_err(), refused);
    assert_eq!(Tree::import_tree(format!("{}!", DEFAULT_1)).unwrap_err(), refused);
    assert_eq!(
        Tree::import_tree(format!("{}:a:b", &DEFAULT_1[..350])).unwrap_err(),
        refused
    );
}

#[test]
fn import_reads_the_first_built_in_tree() {
    let tree = Tree::import_tree(DEFAULT_1.to_string()).unwrap();
    let b = Cell::default();
    assert_eq!(tree.name, "default-1");
    assert_eq!(
        tree.cells,
        vec![
            vec![b, b, b, b, b],
            vec![b, leaf(), leaf(), leaf(), b],
            vec![leaf(), leaf(), leaf(), leaf(), leaf()],
            vec![b, b, trunk(), b, b],
            vec![b, b, trunk(), b, b]
        ]
    );
}

#[test]
fn import_reads_the_third_built_in_tree() {
    let tree = Tree::import_tree(DEFAULT_3.to_string()).unwrap();
    let b = Cell::default();
    let apple = Cell::new(30, 110, 0, 255, 0, 0, 'o');
    assert_eq!(tree.name, "default-3");
    assert_eq!(
        tree.cells,
        vec![
            vec![b, b, leaf(), b, b],
            vec![b, leaf(), leaf(), apple, b],
            vec![apple, apple, leaf(), leaf(), apple],
            vec![b, b, trunk(), b, b],
            vec![b, b, trunk(), b, b]
        ]
    );
}

#[test]
fn import_takes_digits_of_either_case() {
    let lower = format!("{}:tree", "fa".repeat(175));
    let upper = format!("{}:tree", "FA".repeat(175));
    let mixed = format!("{}:tree", "Fa".repeat(175));
    let a = Tree::import_tree(lower).unwrap();
    let b = Tree::import_tree(upper).unwrap();
    let c = Tree::import_tree(mixed).unwrap();
    assert_eq!(a.cells, b.cells);
    assert_eq!(a.cells, c.cells);
    assert_eq!(a.cells[4][4], Cell::new(250, 250, 250, 250, 250, 250, 250 as char));
}

#[test]
fn import_keeps_the_name_as_it_is() {
    let tree = Tree::import_tree(format!("{}:My tree_2 - x", &DEFAULT_2[..350])).unwrap();
    assert_eq!(tree.name, "My tree_2 - x");
}

#[test]
fn to_string_writes_what_import_reads() {
    for text in [DEFAULT_1, DEFAULT_2, DEFAULT_3] {
        let tree = Tree::import_tree(text.to_string()).unwrap();
        assert_eq!(tree.to_string(), text);
    }
}

#[test]
fn to_string_writes_lower_case_digits_in_the_order_of_the_bytes() {
    let bytes: Vec<u8> = (0..175).map(|k| (k + 80) as u8).collect();
    let tree = Tree::new(bytes.clone(), "n".to_string()).unwrap();
    let text = tree.to_string();
    assert_eq!(text.len(), 352);
    assert!(text.starts_with("505152535455565758595a5b5c5d5e5f60"));
    assert!(text.ends_with("fcfdfe:n"));
    assert_eq!(bytes_of(&tree.cells), bytes);
}

#[test]
fn import_after_to_string_gives_the_tree_back() {
    let bytes: Vec<u8> = (0..175).map(|k| (k * 3 + 7) as u8).collect();
    let tree = Tree::new(bytes, "round trip".to_string()).unwrap();
    let back = Tree::import_tree(tree.to_string()).unwrap();
    assert_eq!(back.cells, tree.cells);
    assert_eq!(back.name, tree.name);
}

#[test]
fn to_string_keeps_the_low_byte_of_a_symbol() {
    let mut tree = Tree::default();
    tree.name = "wide".to_string();
    tree.cells[0][0].symbol = '\u{263a}';
    tree.cells[0][1].symbol = '\u{e9}';
    let text = tree.to_string();
    assert_eq!(&text[12..14], "3a");
    assert_eq!(&text[26..28], "e9");
}

#[test]
fn the_built_in_trees_cost_what_they_cost() {
    assert_eq!(Tree::import_tree(DEFAULT_1.to_string()).unwrap().cost(), 15);
    assert_eq!(Tree::import_tree(DEFAULT_2.to_string()).unwrap().cost(), 15);
    assert_eq!(Tree::import_tree(DEFAULT_3.to_string()).unwrap().cost(), 20);
    assert_eq!(Tree::default().cost(), 15);
}

#[test]
fn cost_counts_twelfths_of_the_background_and_eighths_of_the_foreground() {
    assert_eq!(tree_with_sums(531, 0).cost(), 15);
    assert_eq!(tree_with_sums(532, 0).cost(), 20);
    assert_eq!(tree_with_sums(0, 796).cost(), 15);
    assert_eq!(tree_with_sums(0, 797).cost(), 20);
    assert_eq!(tree_with_sums(6374, 0).cost(), 15 + 55);
    assert_eq!(tree_with_sums(6375, 0).cost(), 15 + 60);
    assert_eq!(tree_with_sums(0, 6375).cost(), 15 + 40);
    assert_eq!(tree_with_sums(6375, 6375).cost(), 115);
    assert_eq!(tree_with_sums(2125, 0).cost(), 15 + 20);
    assert_eq!(tree_with_sums(2124, 0).cost(), 15 + 15);
}

#[test]
fn cost_takes_the_larger_of_red_and_blue() {
    let mut tree = Tree::default();
    tree.cells[0][0].bg = (10, 255, 200);
    tree.cells[0][1].bg = (10, 255, 200);
    tree.cells[0][2].bg = (255, 255, 200);
    // reds add up to 275, blues to 600: more than a twelfth of 6375
    assert_eq!(tree.cost(), 20);
    tree.cells[1][0].fg = (250, 255, 0);
    tree.cells[1][1].fg = (250, 255, 0);
    tree.cells[1][2].fg = (250, 255, 1);
    tree.cells[1][3].fg = (250, 255, 1);
    // foreground reds add up to 1000: more than an eighth of 6375
    assert_eq!(tree.cost(), 25);
}

#[test]
fn cost_is_what_the_fractions_give() {
    for sum in 0..=6375u64 {
        let tree = tree_with_sums(sum, 6375 - sum);
        assert_eq!(tree.cost(), float_cost(sum, 6375 - sum), "{}", sum);
    }
}

#[test]
fn names_are_letters_digits_spaces_hyphens_and_underscores() {
    let pattern = regex::Regex::new("^[-_ a-zA-Z0-9]+$").unwrap();
    for text in ["standard", "coding", "", " ", "a b", "a-b_c", "a.b", "a\n", "\u{e9}", "A9", "a/b", "x:y"] {
        assert_eq!(Tree::is_legit_name(text), pattern.is_match(text), "{:?}", text);
    }
    assert!(Tree::is_legit_name("my tree-2_b"));
    assert!(!Tree::is_legit_name(""));
    assert!(!Tree::is_legit_name("tree!"));
    for c in 0u8..128 {
        let text = format!("a{}", c as char);
        assert_eq!(Tree::is_legit_name(&text), pattern.is_match(&text), "{:?}", text);
    }
}
