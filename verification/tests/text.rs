use rusty_forest::text::{chars_of, same, split_chars, string_of};

fn pieces(text: &str, sep: char) -> Vec<String> {
    let chars: Vec<char> = text.chars().collect();
    split_chars(&chars, sep).iter().map(|piece| piece.iter().collect()).collect()
}

#[test]
fn chars_of_gives_the_characters_in_order() {
    assert_eq!(chars_of(""), Vec::<char>::new());
    assert_eq!(chars_of("abc"), vec!['a', 'b', 'c']);
    assert_eq!(chars_of("h\u{e9}\u{263a}!"), vec!['h', '\u{e9}', '\u{263a}', '!']);
}

#[test]
fn string_of_puts_the_characters_together() {
    assert_eq!(string_of(&vec![]), "");
    assert_eq!(string_of(&vec!['a', '\u{e9}', 'c']), "a\u{e9}c");
    assert_eq!(string_of(&chars_of("round trip")), "round trip");
}

#[test]
fn same_compares_the_characters() {
    assert!(same("", ""));
    assert!(same("today", "today"));
    assert!(!same("today", "Today"));
    assert!(!same("today", "toda"));
    assert!(!same("toda", "today"));
    assert!(!same("", "a"));
}

#[test]
fn split_agrees_with_the_standard_library() {
    for text in ["", ":", "a", "a:b", "a::b", ":a", "a:", "::", "1:20", "a:b:c:", "h\u{e9}:\u{263a}"] {
        let expected: Vec<String> = text.split(':').map(|piece| piece.to_string()).collect();
        assert_eq!(pieces(text, ':'), expected, "{:?}", text);
    }
}

#[test]
fn split_gives_one_piece_more_than_there_are_separators() {
    assert_eq!(pieces("", '/'), vec![""]);
    assert_eq!(pieces("abc", '/'), vec!["abc"]);
    assert_eq!(pieces("a/b/c/d", '/'), vec!["a", "b", "c", "d"]);
    assert_eq!(pieces("//", '/'), vec!["", "", ""]);
}
