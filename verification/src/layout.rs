//! Text layout: a string is laid out in a rectangle of the display, either
//! word by word or cut at the rectangle's right edge.
//!
//! Both layouts count one column for each character of the text. They draw
//! through the display's own drawing calls, so whatever falls outside the
//! grid is not drawn, and lines below the rectangle's last line are laid out
//! but not drawn.

use vstd::prelude::*;
use crate::cell::Cell;
use crate::display::{Display, Frame};
use crate::text::chars_of;

verus! {

/// The rectangle that a text is laid out in: the row and column of its
/// top-left cell, counted from 1, and its size.
pub struct Rect {
    pub row: nat,
    pub col: nat,
    pub width: nat,
    pub height: nat,
}

/// Where the next character of a layout goes: a line and a column of the
/// rectangle, both counted from 0.
pub struct Cursor {
    pub line: nat,
    pub col: nat,
}

impl Cursor {
    /// The start of the next line.
    pub open spec fn below(self) -> Cursor {
        Cursor { line: self.line + 1, col: 0 }
    }

    /// The cursor after the separator that follows a word: one column to the
    /// right, or the start of the next line if that is exactly the
    /// rectangle's right edge.
    pub open spec fn after_word(self, width: nat) -> Cursor {
        if self.col + 1 == width {
            self.below()
        } else {
            Cursor { line: self.line, col: self.col + 1 }
        }
    }
}

/// A space or a newline: what ends a word.
pub open spec fn is_separator(c: char) -> bool {
    c == ' ' || c == '\n'
}

/// The length of the word that starts at index `from` of `text`: the number
/// of characters up to the next separator or the end of the text.
pub open spec fn word_len(text: Seq<char>, from: int) -> nat
    decreases text.len() - from,
{
    if from < 0 || from >= text.len() || is_separator(text[from]) {
        0
    } else {
        1 + word_len(text, from + 1)
    }
}

/// Where the character at index `index` of a text goes when the text is cut
/// every `width` characters. In a rectangle of width 0 the cursor never
/// reaches the right edge, so everything stays on the first line.
pub open spec fn hard_wrap_position(width: nat, index: nat) -> Cursor {
    if width == 0 {
        Cursor { line: 0, col: index }
    } else {
        Cursor { line: index / width, col: index % width }
    }
}

impl Frame {
    /// The frame after `text` was drawn at the cursor `at` of the rectangle
    /// `rect`. Below the rectangle's last line nothing is drawn.
    pub open spec fn draw_at(self, rect: Rect, at: Cursor, cell: Cell, text: Seq<char>) -> Frame {
        if at.line < rect.height {
            self.draw_string((rect.row + at.line) as int, (rect.col + at.col) as int, cell, text)
        } else {
            self
        }
    }

    /// The frame and the cursor after one word was placed at the cursor `at`.
    ///
    /// A word that fits in the rest of the line goes there. One that does
    /// not, but fits in a line of its own, goes to the start of the next
    /// line. One that is wider than the rectangle is split: as many
    /// characters as the rest of the line holds are drawn there, and the
    /// remaining characters are placed from the start of the next line in
    /// the same way. In a rectangle of width 0 no word can be drawn.
    pub open spec fn place_word(self, rect: Rect, cell: Cell, at: Cursor, word: Seq<char>) -> (
        Frame,
        Cursor,
    )
        decreases word.len(), at.col,
    {
        if word.len() == 0 || rect.width == 0 {
            (self, at)
        } else if at.col + word.len() <= rect.width {
            (self.draw_at(rect, at, cell, word), Cursor { line: at.line, col: at.col + word.len() })
        } else if word.len() <= rect.width {
            (
                self.draw_at(rect, at.below(), cell, word),
                Cursor { line: at.line + 1, col: word.len() },
            )
        } else {
            let fitting = if at.col <= rect.width {
                rect.width - at.col
            } else {
                0
            };
            self.draw_at(rect, at, cell, word.take(fitting)).place_word(
                rect,
                cell,
                at.below(),
                word.skip(fitting),
            )
        }
    }

    /// The frame after the words of `text` from index `from` on were laid
    /// out, the first of them at the cursor `at`.
    ///
    /// Words are separated by single spaces and by newlines. After each word
    /// the cursor moves on by the separator's column. A newline also ends the
    /// paragraph: the next word starts on a new line, even when the
    /// separator's column had just wrapped to one.
    pub open spec fn wrap_from(
        self,
        rect: Rect,
        cell: Cell,
        at: Cursor,
        text: Seq<char>,
        from: int,
    ) -> Frame
        decreases text.len() - from,
    {
        let end = from + word_len(text, from);
        let (drawn, after) = self.place_word(rect, cell, at, text.subrange(from, end));
        if from < 0 || end >= text.len() {
            drawn
        } else {
            let spaced = after.after_word(rect.width);
            let next = if text[end] == '\n' {
                spaced.below()
            } else {
                spaced
            };
            drawn.wrap_from(rect, cell, next, text, end + 1)
        }
    }

    /// The frame after `text` was laid out in `rect` word by word, from the
    /// rectangle's top-left cell.
    pub open spec fn word_wrap(self, rect: Rect, cell: Cell, text: Seq<char>) -> Frame {
        self.wrap_from(rect, cell, Cursor { line: 0, col: 0 }, text, 0)
    }

    /// The frame after `text` was laid out in `rect` character by character:
    /// every character takes the next column, a newline like any other, and
    /// the line changes when the column reaches the rectangle's width.
    pub open spec fn hard_wrap(self, rect: Rect, cell: Cell, text: Seq<char>) -> Frame
        decreases text.len(),
    {
        if text.len() == 0 {
            self
        } else {
            let before = self.hard_wrap(rect, cell, text.drop_last());
            let at = hard_wrap_position(rect.width, (text.len() - 1) as nat);
            if at.line < rect.height {
                before.draw_pixel(
                    (rect.row + at.line) as int,
                    (rect.col + at.col) as int,
                    cell.with_symbol(text.last()),
                )
            } else {
                before
            }
        }
    }
}

/// The position after index `index` in a text that is cut every `width`
/// characters: one column to the right, or the start of the next line.
proof fn lemma_next_position(width: nat, index: nat)
    requires
        width > 0,
    ensures
        index % width + 1 == width ==> hard_wrap_position(width, index + 1) == (Cursor {
            line: index / width + 1,
            col: 0,
        }),
        index % width + 1 != width ==> hard_wrap_position(width, index + 1) == (Cursor {
            line: index / width,
            col: index % width + 1,
        }),
        index / width <= index,
        index % width <= index,
{
    let q = index / width;
    let r = index % width;
    assert(index == q * width + r && 0 <= r < width) by (nonlinear_arith)
        requires
            q == index / width,
            r == index % width,
            width > 0,
    ;
    if r + 1 == width {
        assert((index + 1) / width == q + 1 && (index + 1) % width == 0) by (nonlinear_arith)
            requires
                index == q * width + r,
                r + 1 == width,
                width > 0,
        ;
    } else {
        assert((index + 1) / width == q && (index + 1) % width == r + 1) by (nonlinear_arith)
            requires
                index == q * width + r,
                0 <= r,
                r + 1 < width,
        ;
    }
    assert(q <= index) by (nonlinear_arith)
        requires
            index == q * width + r,
            0 <= r,
            width > 0,
            0 <= q,
    ;
}

impl Display {
    /// Place the word `chars[from..to]` at line `line`, column `col` of the
    /// rectangle, and return the cursor after it.
    ///
    /// The cursor is counted in 128 bits. It moves on by two at most for
    /// every character that is laid out, so it stays far below the end of
    /// that range, while in a `usize` a text of half the range's length
    /// could run past the end.
    fn place_word(
        &mut self,
        l: usize,
        c: usize,
        width: usize,
        height: usize,
        cell: Cell,
        chars: &Vec<char>,
        from: usize,
        to: usize,
        line: u128,
        col: u128,
    ) -> (after: (u128, u128))
        requires
            old(self).wf(),
            from <= to <= chars@.len(),
            line <= 2 * from,
            col <= from,
        ensures
            final(self).wf(),
            (final(self)@, Cursor { line: after.0 as nat, col: after.1 as nat }) == old(
                self,
            )@.place_word(
                Rect { row: l as nat, col: c as nat, width: width as nat, height: height as nat },
                cell,
                Cursor { line: line as nat, col: col as nat },
                chars@.subrange(from as int, to as int),
            ),
            after.0 <= 2 * to,
            after.1 <= to,
    {
        let ghost rect = Rect {
            row: l as nat,
            col: c as nat,
            width: width as nat,
            height: height as nat,
        };
        let ghost word = chars@.subrange(from as int, to as int);
        let len = to - from;
        if len == 0 || width == 0 {
            return (line, col);
        }
        if col + len as u128 <= width as u128 {
            if line < height as u128 {
                self.draw_chars(l as u128 + line, c as u128 + col, cell, chars, from, to);
            }
            return (line, col + len as u128);
        }
        if len <= width {
            if line + 1 < height as u128 {
                self.draw_chars(l as u128 + line + 1, c as u128, cell, chars, from, to);
            }
            return (line + 1, len as u128);
        }
        let fitting: usize = if col <= width as u128 {
            width - col as usize
        } else {
            0
        };
        assert(word.take(fitting as int) =~= chars@.subrange(from as int, from + fitting));
        assert(word.skip(fitting as int) =~= chars@.subrange(from + fitting, to as int));
        if line < height as u128 {
            self.draw_chars(l as u128 + line, c as u128 + col, cell, chars, from, from + fitting);
        }
        let mut start: usize = from + fitting;
        let mut below: u128 = line + 1;
        while to - start > width
            invariant
                self.wf(),
                from <= start < to <= chars@.len(),
                width > 0,
                below <= 2 * from + 1 + (start - from),
                rect == (Rect {
                    row: l as nat,
                    col: c as nat,
                    width: width as nat,
                    height: height as nat,
                }),
                self@.place_word(
                    rect,
                    cell,
                    Cursor { line: below as nat, col: 0 },
                    chars@.subrange(start as int, to as int),
                ) == old(self)@.place_word(
                    rect,
                    cell,
                    Cursor { line: line as nat, col: col as nat },
                    chars@.subrange(from as int, to as int),
                ),
            decreases to - start,
        {
            let ghost rest = chars@.subrange(start as int, to as int);
            assert(rest.take(width as int) =~= chars@.subrange(start as int, start + width));
            assert(rest.skip(width as int) =~= chars@.subrange(start + width, to as int));
            if below < height as u128 {
                self.draw_chars(l as u128 + below, c as u128, cell, chars, start, start + width);
            }
            start = start + width;
            below = below + 1;
        }
        if below < height as u128 {
            self.draw_chars(l as u128 + below, c as u128, cell, chars, start, to);
        }
        (below, (to - start) as u128)
    }
    /// Fit the string inside a rectangle and try to handle the text wrapping.
    /// The string will be fitted in a box of the given width and height, with
    /// the upper-left corner on the l'th line and c'th column. The style used
    /// will be the one contained in cell.
    ///
    /// Words are kept whole where a line can hold them, and every newline
    /// starts a new paragraph on a line of its own.
    pub fn fit_string_to_box(
        &mut self,
        l: usize,
        c: usize,
        width: usize,
        height: usize,
        cell: Cell,
        to_write: &str,
    )
        requires
            old(self).wf(),
        ensures
            final(self).wf(),
            final(self)@ == old(self)@.word_wrap(
                Rect { row: l as nat, col: c as nat, width: width as nat, height: height as nat },
                cell,
                to_write@,
            ),
    {
        let ghost rect = Rect {
            row: l as nat,
            col: c as nat,
            width: width as nat,
            height: height as nat,
        };
        let chars = chars_of(to_write);
        let n = chars.len();
        let mut line: u128 = 0;
        let mut col: u128 = 0;
        let mut from: usize = 0;
        let mut done = false;
        while !done
            invariant
                self.wf(),
                n == chars@.len(),
                chars@ == to_write@,
                from <= n,
                line <= 2 * from,
                col <= from,
                rect == (Rect {
                    row: l as nat,
                    col: c as nat,
                    width: width as nat,
                    height: height as nat,
                }),
                !done ==> self@.wrap_from(
                    rect,
                    cell,
                    Cursor { line: line as nat, col: col as nat },
                    chars@,
                    from as int,
                ) == old(self)@.word_wrap(rect, cell, chars@),
                done ==> self@ == old(self)@.word_wrap(rect, cell, chars@),
            decreases n - from, if done { 0int } else { 1int },
        {
            let mut end: usize = from;
            while end < n && chars[end] != ' ' && chars[end] != '\n'
                invariant
                    from <= end <= n,
                    n == chars@.len(),
                    word_len(chars@, from as int) == (end - from) + word_len(chars@, end as int),
                decreases n - end,
            {
                end = end + 1;
            }
            let after = self.place_word(l, c, width, height, cell, &chars, from, end, line, col);
            if end == n {
                done = true;
            } else {
                if after.1 + 1 == width as u128 {
                    line = after.0 + 1;
                    col = 0;
                } else {
                    line = after.0;
                    col = after.1 + 1;
                }
                if chars[end] == '\n' {
                    line = line + 1;
                    col = 0;
                }
                from = end + 1;
            }
        }
    }

    /// Exactly like fit_string_to_box(), but cuts the words if they reach the
    /// right border: the text is laid out character by character, and a
    /// newline is drawn like any other character.
    pub fn fit_string_to_box_hard_wrap(
        &mut self,
        l: usize,
        c: usize,
        width: usize,
        height: usize,
        cell: Cell,
        to_write: &str,
    )
        requires
            old(self).wf(),
        ensures
            final(self).wf(),
            final(self)@ == old(self)@.hard_wrap(
                Rect { row: l as nat, col: c as nat, width: width as nat, height: height as nat },
                cell,
                to_write@,
            ),
    {
        let ghost rect = Rect {
            row: l as nat,
            col: c as nat,
            width: width as nat,
            height: height as nat,
        };
        let chars = chars_of(to_write);
        let n = chars.len();
        let mut line: usize = 0;
        let mut col: usize = 0;
        let mut i: usize = 0;
        while i < n
            invariant
                self.wf(),
                n == chars@.len(),
                chars@ == to_write@,
                i <= n,
                line <= i,
                col <= i,
                rect == (Rect {
                    row: l as nat,
                    col: c as nat,
                    width: width as nat,
                    height: height as nat,
                }),
                hard_wrap_position(width as nat, i as nat) == (Cursor {
                    line: line as nat,
                    col: col as nat,
                }),
                self@ == old(self)@.hard_wrap(rect, cell, chars@.take(i as int)),
            decreases n - i,
        {
            let ghost next = chars@.take(i + 1);
            assert(next.drop_last() =~= chars@.take(i as int));
            assert(next.last() == chars@[i as int]);
            if line < height {
                self.draw_pixel_at(
                    l as u128 + line as u128,
                    c as u128 + col as u128,
                    cell.change_symbol(chars[i]),
                );
            }
            proof {
                if width > 0 {
                    lemma_next_position(width as nat, i as nat);
                }
            }
            col = col + 1;
            if col == width {
                line = line + 1;
                col = 0;
            }
            i = i + 1;
        }
        assert(chars@.take(n as int) =~= chars@);
    }
}

} // verus!
