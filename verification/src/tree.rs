//! Trees: a picture of 5 by 5 cells and a name.
//!
//! A tree is written as `<hex-string>:<name>`. The hex string holds 7 bytes
//! for each cell, two digits for each byte: the red, green and blue of the
//! background, the red, green and blue of the foreground, and the symbol. The
//! cells come row by row from the top, each row from left to right. The name
//! is made of letters, digits, spaces, hyphens and underscores.

use vstd::prelude::*;
use vstd::string::StrSliceExecFns;
use vstd::string::StringExecFns;
use crate::ansi::{bg, bg_sequence, fg, fg_sequence, reset_bg, reset_fg};
use crate::cell::Cell;
use crate::display::{grid_of, is_grid};
use crate::hexcode::{
    decode, encode, error_text, hex_bytes, hex_text, is_hex, is_hex_digit, lemma_hex_round_trip,
};
use crate::text::chars_of;

verus! {

impl Cell {
    /// One of the 7 bytes that a cell is written in.
    pub open spec fn byte(self, k: int) -> u8 {
        if k == 0 {
            self.bg.0
        } else if k == 1 {
            self.bg.1
        } else if k == 2 {
            self.bg.2
        } else if k == 3 {
            self.fg.0
        } else if k == 4 {
            self.fg.1
        } else if k == 5 {
            self.fg.2
        } else {
            self.symbol as u8
        }
    }

    /// The cell that 7 bytes from index `at` of `bytes` stand for.
    pub open spec fn from_bytes(bytes: Seq<u8>, at: int) -> Cell {
        Cell {
            bg: (bytes[at], bytes[at + 1], bytes[at + 2]),
            fg: (bytes[at + 3], bytes[at + 4], bytes[at + 5]),
            symbol: bytes[at + 6] as char,
        }
    }
}

/// The picture that 175 bytes stand for.
pub open spec fn picture_from(bytes: Seq<u8>) -> Seq<Seq<Cell>> {
    Seq::new(5, |l: int| Seq::new(5, |c: int| Cell::from_bytes(bytes, 7 * (5 * l + c))))
}

/// The 175 bytes that a picture is written in.
pub open spec fn picture_bytes(picture: Seq<Seq<Cell>>) -> Seq<u8> {
    Seq::new(175, |k: int| picture[k / 35][(k % 35) / 7].byte(k % 7))
}

/// The sum of byte `k` of the first `cells` cells of a picture, counted row
/// by row.
pub open spec fn total(picture: Seq<Seq<Cell>>, k: int, cells: int) -> int
    decreases cells,
{
    if cells <= 0 {
        0
    } else {
        total(picture, k, cells - 1) + picture[(cells - 1) / 5][(cells - 1) % 5].byte(k)
    }
}

/// The larger of two numbers.
pub open spec fn larger(a: int, b: int) -> int {
    if a >= b {
        a
    } else {
        b
    }
}

/// Whether `c` may stand in a name: a letter, a digit, a space, a hyphen or
/// an underscore.
pub open spec fn is_name_char(c: char) -> bool {
    c == '-' || c == '_' || c == ' ' || ('a' <= c <= 'z') || ('A' <= c <= 'Z') || ('0' <= c <= '9')
}

/// Whether `c` may stand in a name.
#[verifier::when_used_as_spec(is_name_char)]
pub fn name_char(c: char) -> (allowed: bool)
    ensures
        allowed == is_name_char(c),
{
    c == '-' || c == '_' || c == ' ' || ('a' <= c && c <= 'z') || ('A' <= c && c <= 'Z') || ('0'
        <= c && c <= '9')
}

/// Whether `text` is a name: one character or more, each of them allowed.
pub open spec fn is_name(text: Seq<char>) -> bool {
    &&& text.len() > 0
    &&& forall|i: int| 0 <= i < text.len() ==> is_name_char(#[trigger] text[i])
}

/// Whether `text` is a tree as it is written: 350 hexadecimal digits, a
/// colon and a name.
pub open spec fn is_tree_text(text: Seq<char>) -> bool {
    &&& text.len() > 351
    &&& forall|i: int| 0 <= i < 350 ==> is_hex_digit(#[trigger] text[i])
    &&& text[350] == ':'
    &&& is_name(text.subrange(351, text.len() as int))
}

/// A tree as mathematics: its picture and its name.
pub struct TreeView {
    pub picture: Seq<Seq<Cell>>,
    pub name: Seq<char>,
}

/// A tree, which is characterized by a 5x5 Cell matrix, which is the
/// appearance of the tree, and its name.
#[derive(Debug, Clone)]
pub struct Tree {
    pub cells: Vec<Vec<Cell>>,
    pub name: String,
}

impl TreeView {
    /// The tree as it is written: the picture in hexadecimal, a colon and
    /// the name.
    pub open spec fn text(self) -> Seq<char> {
        hex_text(picture_bytes(self.picture)) + seq![':'] + self.name
    }
}

impl View for Tree {
    type V = TreeView;

    open spec fn view(&self) -> TreeView {
        TreeView { picture: self.picture(), name: self.name@ }
    }
}

impl Default for Tree {
    fn default() -> (tree: Tree)
        ensures
            tree.wf(),
            tree.picture() == Seq::new(5, |l: int| Seq::new(5, |c: int| Cell::blank())),
            tree.name@ == Seq::<char>::empty(),
    {
        let mut cells: Vec<Vec<Cell>> = Vec::new();
        let mut l: usize = 0;
        while l < 5
            invariant
                l <= 5,
                cells@.len() == l,
                forall|i: int|
                    0 <= i < l ==> (#[trigger] cells@[i])@ == Seq::new(5, |c: int| Cell::blank()),
            decreases 5 - l,
        {
            let mut line: Vec<Cell> = Vec::new();
            let mut c: usize = 0;
            while c < 5
                invariant
                    c <= 5,
                    line@.len() == c,
                    forall|j: int| 0 <= j < c ==> line@[j] == Cell::blank(),
                decreases 5 - c,
            {
                line.push(Cell::default());
                c = c + 1;
            }
            assert(line@ =~= Seq::new(5, |c: int| Cell::blank()));
            cells.push(line);
            l = l + 1;
        }
        assert(grid_of(cells@) =~= Seq::new(5, |l: int| Seq::new(5, |c: int| Cell::blank())));
        Tree { cells, name: String::new() }
    }
}

impl Tree {
    /// The tree's cells as a grid.
    pub open spec fn picture(&self) -> Seq<Seq<Cell>> {
        grid_of(self.cells@)
    }

    /// Whether the tree has 5 rows of 5 cells.
    pub open spec fn wf(&self) -> bool {
        is_grid(self.picture(), 5, 5)
    }

    /// Whether the tree has 5 rows of 5 cells.
    pub fn is_wf(&self) -> (complete: bool)
        ensures
            complete == self.wf(),
    {
        if self.cells.len() != 5 {
            return false;
        }
        let mut l: usize = 0;
        while l < 5
            invariant
                l <= 5,
                self.cells@.len() == 5,
                forall|i: int| 0 <= i < l ==> (#[trigger] self.picture()[i]).len() == 5,
            decreases 5 - l,
        {
            if self.cells[l].len() != 5 {
                assert(self.picture()[l as int].len() != 5);
                return false;
            }
            l = l + 1;
        }
        true
    }

    /// Get the background color of the cell from the l'th line and c'th
    /// column of the tree, both counted from 0.
    pub fn get_bg_color(&self, l: usize, c: usize) -> (rgb: (u8, u8, u8))
        requires
            self.wf(),
            l < 5,
            c < 5,
        ensures
            rgb == self.picture()[l as int][c as int].bg,
    {
        assert(self.picture()[l as int].len() == 5);
        self.cells[l][c].bg
    }

    /// Get the foreground color of the cell from the l'th line and c'th
    /// column of the tree, both counted from 0.
    pub fn get_fg_color(&self, l: usize, c: usize) -> (rgb: (u8, u8, u8))
        requires
            self.wf(),
            l < 5,
            c < 5,
        ensures
            rgb == self.picture()[l as int][c as int].fg,
    {
        assert(self.picture()[l as int].len() == 5);
        self.cells[l][c].fg
    }

    /// The text that shows the cell from the l'th line and c'th column at
    /// the position of the cursor: its background, its foreground and its
    /// symbol.
    pub fn display_symbol(&self, l: usize, c: usize) -> (text: String)
        requires
            self.wf(),
            l < 5,
            c < 5,
        ensures
            text@ == bg_sequence(self.picture()[l as int][c as int].bg) + fg_sequence(
                self.picture()[l as int][c as int].fg,
            ) + seq![self.picture()[l as int][c as int].symbol],
    {
        assert(self.picture()[l as int].len() == 5);
        let mut text = bg(self.get_bg_color(l, c));
        text.append(fg(self.get_fg_color(l, c)).as_str());
        text.push(self.cells[l][c].symbol);
        text
    }

    /// The text that shows the first `cells` cells of row `l` of a picture.
    pub open spec fn row_text(picture: Seq<Seq<Cell>>, l: int, cells: int) -> Seq<char>
        decreases cells,
    {
        if cells <= 0 {
            Seq::empty()
        } else {
            let cell = picture[l][cells - 1];
            Tree::row_text(picture, l, cells - 1) + bg_sequence(cell.bg) + fg_sequence(cell.fg)
                + seq![cell.symbol]
        }
    }

    /// The text that shows the first `rows` rows of a picture: the cells of
    /// each row, then both colours are set back and the line ends.
    pub open spec fn rows_text(picture: Seq<Seq<Cell>>, rows: int) -> Seq<char>
        decreases rows,
    {
        if rows <= 0 {
            Seq::empty()
        } else {
            Tree::rows_text(picture, rows - 1) + Tree::row_text(picture, rows - 1, 5)
                + "\x1B[49m"@ + "\x1B[39m"@ + seq!['\n']
        }
    }

    /// The text that shows the tree's picture on a terminal, on five lines.
    pub fn drawing(&self) -> (text: String)
        requires
            self.wf(),
        ensures
            text@ == Tree::rows_text(self.picture(), 5),
    {
        let mut text = String::new();
        let mut l: usize = 0;
        while l < 5
            invariant
                self.wf(),
                l <= 5,
                text@ == Tree::rows_text(self.picture(), l as int),
            decreases 5 - l,
        {
            let ghost above = text@;
            let mut c: usize = 0;
            while c < 5
                invariant
                    self.wf(),
                    l < 5,
                    c <= 5,
                    text@ == above + Tree::row_text(self.picture(), l as int, c as int),
                decreases 5 - c,
            {
                text.append(self.display_symbol(l, c).as_str());
                assert(text@ =~= above + Tree::row_text(self.picture(), l as int, c + 1));
                c = c + 1;
            }
            text.append(reset_bg());
            text.append(reset_fg());
            text.push('\n');
            assert(text@ =~= Tree::rows_text(self.picture(), l + 1));
            l = l + 1;
        }
        text
    }

    /// Whether `text` is a name: one character or more, each of them a
    /// letter, a digit, a space, a hyphen or an underscore.
    pub fn is_legit_name(text: &str) -> (legit: bool)
        ensures
            legit == is_name(text@),
    {
        let chars = chars_of(text);
        if chars.len() == 0 {
            return false;
        }
        let mut i: usize = 0;
        while i < chars.len()
            invariant
                i <= chars@.len(),
                chars@ == text@,
                forall|k: int| 0 <= k < i ==> is_name_char(#[trigger] chars@[k]),
            decreases chars@.len() - i,
        {
            let c = chars[i];
            if !name_char(c) {
                assert(!is_name_char(text@[i as int]));
                return false;
            }
            i = i + 1;
        }
        true
    }

    /// Create a new tree from the bytes of its picture and its name.
    pub fn new(bytes: Vec<u8>, name: String) -> (r: Result<Tree, String>)
        ensures
            bytes@.len() != 175 ==> r is Err && r->Err_0@ == "Wrong number of bytes"@,
            bytes@.len() == 175 ==> r is Ok && r->Ok_0.wf() && r->Ok_0@ == (TreeView {
                picture: picture_from(bytes@),
                name: name@,
            }),
    {
        if bytes.len() != 25 * 7 {
            return Err("Wrong number of bytes".to_owned());
        }
        let mut arr: Vec<Vec<Cell>> = Vec::new();
        let mut last_byte: usize = 0;
        let mut l: usize = 0;
        while l < 5
            invariant
                l <= 5,
                bytes@.len() == 175,
                last_byte == 35 * l,
                arr@.len() == l,
                forall|i: int| 0 <= i < l ==> (#[trigger] arr@[i])@ == picture_from(bytes@)[i],
            decreases 5 - l,
        {
            let mut line: Vec<Cell> = Vec::new();
            let mut c: usize = 0;
            while c < 5
                invariant
                    l < 5,
                    c <= 5,
                    bytes@.len() == 175,
                    last_byte == 7 * (5 * l + c),
                    line@.len() == c,
                    forall|j: int| 0 <= j < c ==> line@[j] == picture_from(bytes@)[l as int][j],
                decreases 5 - c,
            {
                line.push(
                    Cell {
                        bg: (bytes[last_byte], bytes[last_byte + 1], bytes[last_byte + 2]),
                        fg: (bytes[last_byte + 3], bytes[last_byte + 4], bytes[last_byte + 5]),
                        symbol: bytes[last_byte + 6] as char,
                    },
                );
                last_byte += 7;
                c = c + 1;
            }
            assert(line@ =~= picture_from(bytes@)[l as int]);
            arr.push(line);
            l = l + 1;
        }
        assert(grid_of(arr@) =~= picture_from(bytes@));
        Ok(Tree { cells: arr, name })
    }

    /// Returns true if the given tree string is correct.
    pub fn is_legit(tree: &String) -> (legit: bool)
        ensures
            legit == is_tree_text(tree@),
    {
        let chars = chars_of(tree.as_str());
        let n = chars.len();
        if n <= 351 {
            return false;
        }
        let mut i: usize = 0;
        while i < 350
            invariant
                i <= 350 < n,
                n == chars@.len(),
                chars@ == tree@,
                forall|k: int| 0 <= k < i ==> is_hex_digit(#[trigger] chars@[k]),
            decreases 350 - i,
        {
            let c = chars[i];
            if !(('0' <= c && c <= '9') || ('a' <= c && c <= 'f') || ('A' <= c && c <= 'F')) {
                assert(!is_hex_digit(tree@[i as int]));
                return false;
            }
            i = i + 1;
        }
        if chars[350] != ':' {
            return false;
        }
        let ghost name = chars@.subrange(351, n as int);
        let mut j: usize = 351;
        while j < n
            invariant
                351 <= j <= n,
                n == chars@.len(),
                chars@ == tree@,
                name == chars@.subrange(351, n as int),
                forall|k: int| 0 <= k < j - 351 ==> is_name_char(#[trigger] name[k]),
            decreases n - j,
        {
            let c = chars[j];
            if !name_char(c) {
                assert(name[j - 351] == chars@[j as int]);
                assert(!is_name_char(name[j - 351]));
                return false;
            }
            j = j + 1;
        }
        true
    }

    /// What `text` is as a tree: the picture and the name, where the text is
    /// a tree as it is written.
    pub open spec fn import_spec(text: Seq<char>) -> Option<TreeView> {
        if is_tree_text(text) {
            Some(
                TreeView {
                    picture: picture_from(hex_bytes(text.subrange(0, 350))),
                    name: text.subrange(351, text.len() as int),
                },
            )
        } else {
            None
        }
    }

    /// Import a tree from a string that respects the tree format.
    pub fn import_tree(tree: String) -> (r: Result<Tree, String>)
        ensures
            Tree::import_spec(tree@) is None ==> r is Err && r->Err_0@
                == "The tree does not respect the format"@,
            Tree::import_spec(tree@) matches Some(imported) ==> r is Ok && r->Ok_0.wf()
                && r->Ok_0@ == imported,
    {
        if !Tree::is_legit(&tree) {
            return Err("The tree does not respect the format".to_owned());
        }
        let text = tree.as_str();
        let n = text.unicode_len();
        let digits = text.substring_char(0, 350);
        let name = text.substring_char(351, n);
        assert(is_hex(digits@)) by {
            assert forall|i: int| 0 <= i < digits@.len() implies is_hex_digit(
                #[trigger] digits@[i],
            ) by {
                assert(digits@[i] == tree@[i]);
            }
        }
        match decode(digits) {
            Ok(bytes) => Tree::new(bytes, name.to_owned()),
            Err(error) => Err(error_text(error)),
        }
    }

    /// What the tree costs in minutes, as mathematics.
    ///
    /// A tree costs 15 minutes, and 5 more for every twelfth of the greatest
    /// possible sum that the red or the blue of its backgrounds reaches,
    /// whichever is more, and for every eighth that the red or the blue of
    /// its foregrounds reaches. The greatest possible sum is 25 times 255.
    pub open spec fn cost_spec(&self) -> int {
        let back = larger(total(self.picture(), 0, 25), total(self.picture(), 2, 25));
        let front = larger(total(self.picture(), 3, 25), total(self.picture(), 5, 25));
        15 + 5 * (12 * back / 6375) + 5 * (8 * front / 6375)
    }

    /// Calculates the time cost of a tree. In particular, a "greener" tree
    /// will be cheaper, while a more colored tree will be more expensive.
    pub fn cost(&self) -> (minutes: u64)
        requires
            self.wf(),
        ensures
            minutes == self.cost_spec(),
            15 <= minutes <= 115,
    {
        let base_cost: u64 = 15;
        let mut sum_red_bg: u64 = 0;
        let mut sum_blue_bg: u64 = 0;
        let mut sum_red_fg: u64 = 0;
        let mut sum_blue_fg: u64 = 0;
        let mut l: usize = 0;
        while l < 5
            invariant
                self.wf(),
                l <= 5,
                sum_red_bg == total(self.picture(), 0, 5 * l),
                sum_blue_bg == total(self.picture(), 2, 5 * l),
                sum_red_fg == total(self.picture(), 3, 5 * l),
                sum_blue_fg == total(self.picture(), 5, 5 * l),
                sum_red_bg <= 1275 * l,
                sum_blue_bg <= 1275 * l,
                sum_red_fg <= 1275 * l,
                sum_blue_fg <= 1275 * l,
            decreases 5 - l,
        {
            let mut c: usize = 0;
            while c < 5
                invariant
                    self.wf(),
                    l < 5,
                    c <= 5,
                    sum_red_bg == total(self.picture(), 0, 5 * l + c),
                    sum_blue_bg == total(self.picture(), 2, 5 * l + c),
                    sum_red_fg == total(self.picture(), 3, 5 * l + c),
                    sum_blue_fg == total(self.picture(), 5, 5 * l + c),
                    sum_red_bg <= 1275 * l + 255 * c,
                    sum_blue_bg <= 1275 * l + 255 * c,
                    sum_red_fg <= 1275 * l + 255 * c,
                    sum_blue_fg <= 1275 * l + 255 * c,
                decreases 5 - c,
            {
                assert(self.picture()[l as int].len() == 5);
                assert((5 * l + c) / 5 == l && (5 * l + c) % 5 == c);
                let cell = self.cells[l][c];
                sum_red_bg = sum_red_bg + (cell.bg.0 as u64);
                sum_red_fg = sum_red_fg + (cell.fg.0 as u64);
                sum_blue_bg = sum_blue_bg + (cell.bg.2 as u64);
                sum_blue_fg = sum_blue_fg + (cell.fg.2 as u64);
                c = c + 1;
            }
            l = l + 1;
        }
        let back = if sum_red_bg >= sum_blue_bg {
            sum_red_bg
        } else {
            sum_blue_bg
        };
        let front = if sum_red_fg >= sum_blue_fg {
            sum_red_fg
        } else {
            sum_blue_fg
        };
        let bg_cost = (12 * back / 6375) * 5;
        let fg_cost = (8 * front / 6375) * 5;
        base_cost + bg_cost + fg_cost
    }

    /// The tree as it is written: the picture in hexadecimal, a colon and
    /// the name.
    pub open spec fn text(&self) -> Seq<char> {
        self@.text()
    }

    /// Convert a tree to a string that respects the tree format.
    pub fn to_string(&self) -> (text: String)
        requires
            self.wf(),
        ensures
            text@ == self.text(),
    {
        let mut res: Vec<u8> = Vec::new();
        let mut l: usize = 0;
        while l < 5
            invariant
                self.wf(),
                l <= 5,
                res@.len() == 35 * l,
                forall|k: int| 0 <= k < res@.len() ==> res@[k] == picture_bytes(self.picture())[k],
            decreases 5 - l,
        {
            let mut c: usize = 0;
            while c < 5
                invariant
                    self.wf(),
                    l < 5,
                    c <= 5,
                    res@.len() == 7 * (5 * l + c),
                    forall|k: int|
                        0 <= k < res@.len() ==> res@[k] == picture_bytes(self.picture())[k],
                decreases 5 - c,
            {
                assert(self.picture()[l as int].len() == 5);
                let cell = self.cells[l][c];
                let ghost at = 7 * (5 * l + c);
                res.push(cell.bg.0);
                res.push(cell.bg.1);
                res.push(cell.bg.2);
                res.push(cell.fg.0);
                res.push(cell.fg.1);
                res.push(cell.fg.2);
                res.push(cell.symbol as u8);
                assert forall|k: int| 0 <= k < res@.len() implies res@[k] == picture_bytes(
                    self.picture(),
                )[k] by {
                    if k >= at {
                        let b = k - at;
                        assert((at + b) / 35 == l && ((at + b) % 35) / 7 == c && (at + b) % 7 == b);
                    }
                }
                c = c + 1;
            }
            l = l + 1;
        }
        assert(res@ =~= picture_bytes(self.picture()));
        let mut text = encode(&res);
        text.push(':');
        text.append(self.name.as_str());
        text
    }
}

/// Byte `k` of the cell in row `l`, column `c` of a picture stands at its
/// place among the bytes of the picture.
proof fn lemma_byte_place(picture: Seq<Seq<Cell>>, l: int, c: int, k: int)
    requires
        0 <= l < 5,
        0 <= c < 5,
        0 <= k < 7,
    ensures
        picture_bytes(picture)[7 * (5 * l + c) + k] == picture[l][c].byte(k),
{
    let at = 7 * (5 * l + c) + k;
    assert(at / 35 == l);
    assert((at % 35) / 7 == c);
    assert(at % 7 == k);
}

/// The cell in row `l`, column `c` of a picture is read back from the bytes
/// of the picture, as long as its symbol fits in a byte.
proof fn lemma_cell_round_trip(picture: Seq<Seq<Cell>>, l: int, c: int)
    requires
        0 <= l < 5,
        0 <= c < 5,
        picture[l][c].symbol as int <= 255,
    ensures
        Cell::from_bytes(picture_bytes(picture), 7 * (5 * l + c)) == picture[l][c],
{
    lemma_byte_place(picture, l, c, 0);
    lemma_byte_place(picture, l, c, 1);
    lemma_byte_place(picture, l, c, 2);
    lemma_byte_place(picture, l, c, 3);
    lemma_byte_place(picture, l, c, 4);
    lemma_byte_place(picture, l, c, 5);
    lemma_byte_place(picture, l, c, 6);
    let cell = picture[l][c];
    assert((cell.symbol as u8) as char == cell.symbol);
}

/// A picture is read back from its bytes, as long as each of its symbols
/// fits in a byte.
pub proof fn lemma_picture_round_trip(picture: Seq<Seq<Cell>>)
    requires
        is_grid(picture, 5, 5),
        forall|l: int, c: int|
            0 <= l < 5 && 0 <= c < 5 ==> (#[trigger] picture[l][c]).symbol as int <= 255,
    ensures
        picture_from(picture_bytes(picture)) == picture,
{
    let back = picture_from(picture_bytes(picture));
    assert forall|l: int| 0 <= l < 5 implies #[trigger] back[l] =~= picture[l] by {
        assert(picture[l].len() == 5);
        assert forall|c: int| 0 <= c < 5 implies back[l][c] == picture[l][c] by {
            lemma_cell_round_trip(picture, l, c);
        }
    }
    assert(back =~= picture);
}

/// A tree that is written and read again is the same tree, as long as its
/// name is a name and each of its symbols fits in a byte.
pub proof fn lemma_tree_round_trip(tree: TreeView)
    requires
        is_grid(tree.picture, 5, 5),
        is_name(tree.name),
        forall|l: int, c: int|
            0 <= l < 5 && 0 <= c < 5 ==> (#[trigger] tree.picture[l][c]).symbol as int <= 255,
    ensures
        Tree::import_spec(tree.text()) == Some(tree),
{
    let bytes = picture_bytes(tree.picture);
    let digits = hex_text(bytes);
    let text = tree.text();
    lemma_hex_round_trip(bytes);
    lemma_picture_round_trip(tree.picture);
    assert(text.subrange(0, 350) =~= digits);
    assert(text.subrange(351, text.len() as int) =~= tree.name);
    assert forall|i: int| 0 <= i < 350 implies is_hex_digit(#[trigger] text[i]) by {
        assert(text[i] == digits[i]);
    }
}

} // verus!
