//! Strings as sequences of characters.

use vstd::prelude::*;

verus! {

pub assume_specification[ String::push ](s: &mut String, ch: char)
    ensures
        final(s)@ == old(s)@.push(ch),
;

/// The characters of `s`, in order.
pub fn chars_of(s: &str) -> (chars: Vec<char>)
    ensures
        chars@ == s@,
{
    let mut chars: Vec<char> = Vec::new();
    for c in it: s.chars()
        invariant
            chars@ == it.seq().take(it.index()),
            it.seq() == s@,
    {
        chars.push(c);
    }
    chars
}

/// Whether two strings hold the same characters.
pub fn same(a: &str, b: &str) -> (equal: bool)
    ensures
        equal == (a@ == b@),
{
    let left = chars_of(a);
    let right = chars_of(b);
    if left.len() != right.len() {
        return false;
    }
    let mut i: usize = 0;
    while i < left.len()
        invariant
            i <= left@.len(),
            left@.len() == right@.len(),
            left@ == a@,
            right@ == b@,
            forall|k: int| 0 <= k < i ==> left@[k] == right@[k],
        decreases left@.len() - i,
    {
        if left[i] != right[i] {
            return false;
        }
        i = i + 1;
    }
    assert(left@ =~= right@);
    true
}

/// The characters of `chars` as a string.
pub fn string_of(chars: &Vec<char>) -> (text: String)
    ensures
        text@ == chars@,
{
    let mut text = String::new();
    let mut i: usize = 0;
    while i < chars.len()
        invariant
            i <= chars@.len(),
            text@ == chars@.take(i as int),
        decreases chars@.len() - i,
    {
        text.push(chars[i]);
        assert(chars@.take(i + 1) =~= chars@.take(i as int).push(chars@[i as int]));
        i = i + 1;
    }
    assert(chars@.take(i as int) =~= chars@);
    text
}

/// The number of characters from index `from` of `text` up to the next
/// `sep`, or up to the end of the text where none follows.
pub open spec fn until(text: Seq<char>, sep: char, from: int) -> nat
    decreases text.len() - from,
{
    if from < 0 || from >= text.len() || text[from] == sep {
        0
    } else {
        1 + until(text, sep, from + 1)
    }
}

/// The pieces of `text` from index `from` on that stand between one `sep`
/// and the next.
pub open spec fn split_from(text: Seq<char>, sep: char, from: int) -> Seq<Seq<char>>
    decreases text.len() - from,
{
    let end = from + until(text, sep, from);
    if from < 0 || end >= text.len() {
        seq![text.subrange(from, end)]
    } else {
        seq![text.subrange(from, end)] + split_from(text, sep, end + 1)
    }
}

/// The pieces that `sep` cuts `text` into: one more than there are
/// separators, empty pieces among them.
pub open spec fn split(text: Seq<char>, sep: char) -> Seq<Seq<char>> {
    split_from(text, sep, 0)
}

/// What the strings of `lines` hold.
pub open spec fn texts_of(lines: Seq<String>) -> Seq<Seq<char>> {
    Seq::new(lines.len(), |i: int| lines[i]@)
}

/// What the vectors of `pieces` hold.
pub open spec fn views(pieces: Seq<Vec<char>>) -> Seq<Seq<char>> {
    Seq::new(pieces.len(), |i: int| pieces[i]@)
}

/// Cut `chars` at every `sep`.
pub fn split_chars(chars: &Vec<char>, sep: char) -> (pieces: Vec<Vec<char>>)
    ensures
        views(pieces@) == split(chars@, sep),
{
    let n = chars.len();
    let mut pieces: Vec<Vec<char>> = Vec::new();
    let mut piece: Vec<char> = Vec::new();
    let mut from: usize = 0;
    let mut i: usize = 0;
    assert(views(pieces@) + split_from(chars@, sep, 0) =~= split(chars@, sep));
    while i < n
        invariant
            from <= i <= n,
            n == chars@.len(),
            piece@ == chars@.subrange(from as int, i as int),
            until(chars@, sep, from as int) == (i - from) + until(chars@, sep, i as int),
            views(pieces@) + split_from(chars@, sep, from as int) == split(chars@, sep),
        decreases n - i,
    {
        let c = chars[i];
        if c == sep {
            let ghost before = views(pieces@);
            pieces.push(piece);
            assert(views(pieces@) =~= before.push(chars@.subrange(from as int, i as int)));
            assert(views(pieces@) + split_from(chars@, sep, i + 1) =~= before + split_from(
                chars@,
                sep,
                from as int,
            ));
            piece = Vec::new();
            from = i + 1;
            assert(piece@ =~= chars@.subrange(from as int, from as int));
        } else {
            piece.push(c);
            assert(piece@ =~= chars@.subrange(from as int, i + 1));
        }
        i = i + 1;
    }
    let ghost before = views(pieces@);
    pieces.push(piece);
    assert(views(pieces@) =~= before.push(chars@.subrange(from as int, n as int)));
    assert(views(pieces@) =~= before + split_from(chars@, sep, from as int));
    pieces
}

} // verus!
