//! What drawing leaves alone: a string changes only the cells that it
//! covers, and a text that is laid out in a rectangle changes no cell
//! outside the rectangle.

use vstd::prelude::*;
use crate::cell::Cell;
use crate::display::Frame;
use crate::layout::{hard_wrap_position, word_len, Cursor, Rect};

verus! {

/// Whether two frames have the same size and show the terminal the same.
pub open spec fn same_shape(a: Frame, b: Frame) -> bool {
    &&& a.width == b.width
    &&& a.height == b.height
    &&& a.previous == b.previous
}

/// Whether row `row`, column `col`, both counted from 1, lies in `rect`.
pub open spec fn in_rect(rect: Rect, row: int, col: int) -> bool {
    &&& rect.row <= row < rect.row + rect.height
    &&& rect.col <= col < rect.col + rect.width
}

/// Whether `after` differs from `before` at most in the cells of `rect`.
pub open spec fn changed_only_in(before: Frame, after: Frame, rect: Rect) -> bool {
    &&& after.wf()
    &&& same_shape(before, after)
    &&& forall|r: int, c: int|
        0 <= r < before.height && 0 <= c < before.width && !in_rect(rect, r + 1, c + 1)
            ==> after.current[r][c] == before.current[r][c]
}

/// A pixel changes one cell of the grid, or none.
pub proof fn lemma_draw_pixel_cells(frame: Frame, row: int, col: int, cell: Cell)
    requires
        frame.wf(),
    ensures
        frame.draw_pixel(row, col, cell).wf(),
        same_shape(frame, frame.draw_pixel(row, col, cell)),
        forall|r: int, c: int|
            0 <= r < frame.height && 0 <= c < frame.width ==> frame.draw_pixel(
                row,
                col,
                cell,
            ).current[r][c] == if r + 1 == row && c + 1 == col {
                cell
            } else {
                frame.current[r][c]
            },
{
    let drawn = frame.draw_pixel(row, col, cell);
    if frame.contains(row, col) {
        assert forall|r: int| 0 <= r < frame.height implies (#[trigger] drawn.current[r]).len()
            == frame.width by {
            assert(frame.current[r].len() == frame.width);
        }
    }
}

/// A string changes the cells that it covers and no others: character `i`
/// of the text stands `i` columns to the right of the first, whether or not
/// the characters before it fell outside the grid.
pub proof fn lemma_draw_string_cells(frame: Frame, row: int, col: int, cell: Cell, text: Seq<char>)
    requires
        frame.wf(),
    ensures
        frame.draw_string(row, col, cell, text).wf(),
        same_shape(frame, frame.draw_string(row, col, cell, text)),
        forall|r: int, c: int|
            0 <= r < frame.height && 0 <= c < frame.width ==> frame.draw_string(
                row,
                col,
                cell,
                text,
            ).current[r][c] == if r + 1 == row && col <= c + 1 < col + text.len() {
                cell.with_symbol(text[c + 1 - col])
            } else {
                frame.current[r][c]
            },
    decreases text.len(),
{
    if text.len() > 0 {
        let before = frame.draw_string(row, col, cell, text.drop_last());
        lemma_draw_string_cells(frame, row, col, cell, text.drop_last());
        lemma_draw_pixel_cells(before, row, col + text.len() - 1, cell.with_symbol(text.last()));
        let drawn = frame.draw_string(row, col, cell, text);
        assert forall|r: int, c: int|
            0 <= r < frame.height && 0 <= c < frame.width implies drawn.current[r][c] == if r + 1
            == row && col <= c + 1 < col + text.len() {
            cell.with_symbol(text[c + 1 - col])
        } else {
            frame.current[r][c]
        } by {
            if r + 1 == row && col <= c + 1 < col + text.len() - 1 {
                assert(text.drop_last()[c + 1 - col] == text[c + 1 - col]);
            }
        }
    }
}

/// A text that is drawn at a cursor of a rectangle and ends at the
/// rectangle's right edge or before changes no cell outside the rectangle.
pub proof fn lemma_draw_at_stays_in_rect(
    frame: Frame,
    rect: Rect,
    at: Cursor,
    cell: Cell,
    text: Seq<char>,
)
    requires
        frame.wf(),
        at.col + text.len() <= rect.width || text.len() == 0,
    ensures
        changed_only_in(frame, frame.draw_at(rect, at, cell, text), rect),
{
    lemma_draw_string_cells(
        frame,
        (rect.row + at.line) as int,
        (rect.col + at.col) as int,
        cell,
        text,
    );
}

/// Changes that stay in a rectangle, one after the other, stay in the
/// rectangle.
pub proof fn lemma_changes_add_up(a: Frame, b: Frame, c: Frame, rect: Rect)
    requires
        changed_only_in(a, b, rect),
        changed_only_in(b, c, rect),
    ensures
        changed_only_in(a, c, rect),
{
}

/// A word that is placed in a rectangle changes no cell outside the
/// rectangle.
pub proof fn lemma_place_word_stays_in_rect(
    frame: Frame,
    rect: Rect,
    cell: Cell,
    at: Cursor,
    word: Seq<char>,
)
    requires
        frame.wf(),
    ensures
        changed_only_in(frame, frame.place_word(rect, cell, at, word).0, rect),
    decreases word.len(), at.col,
{
    if word.len() == 0 || rect.width == 0 {
    } else if at.col + word.len() <= rect.width {
        lemma_draw_at_stays_in_rect(frame, rect, at, cell, word);
    } else if word.len() <= rect.width {
        lemma_draw_at_stays_in_rect(frame, rect, at.below(), cell, word);
    } else {
        let fitting = if at.col <= rect.width {
            rect.width - at.col
        } else {
            0
        };
        let first = frame.draw_at(rect, at, cell, word.take(fitting));
        lemma_draw_at_stays_in_rect(frame, rect, at, cell, word.take(fitting));
        lemma_place_word_stays_in_rect(first, rect, cell, at.below(), word.skip(fitting));
        lemma_changes_add_up(
            frame,
            first,
            first.place_word(rect, cell, at.below(), word.skip(fitting)).0,
            rect,
        );
    }
}

/// The words of a text that are laid out in a rectangle change no cell
/// outside the rectangle.
pub proof fn lemma_wrap_from_stays_in_rect(
    frame: Frame,
    rect: Rect,
    cell: Cell,
    at: Cursor,
    text: Seq<char>,
    from: int,
)
    requires
        frame.wf(),
    ensures
        changed_only_in(frame, frame.wrap_from(rect, cell, at, text, from), rect),
    decreases text.len() - from,
{
    let end = from + word_len(text, from);
    let (drawn, after) = frame.place_word(rect, cell, at, text.subrange(from, end));
    lemma_place_word_stays_in_rect(frame, rect, cell, at, text.subrange(from, end));
    if !(from < 0 || end >= text.len()) {
        let spaced = after.after_word(rect.width);
        let next = if text[end] == '\n' {
            spaced.below()
        } else {
            spaced
        };
        lemma_wrap_from_stays_in_rect(drawn, rect, cell, next, text, end + 1);
        lemma_changes_add_up(frame, drawn, drawn.wrap_from(rect, cell, next, text, end + 1), rect);
    }
}

/// A text that is laid out word by word in a rectangle changes no cell
/// outside the rectangle, however long its words are.
pub proof fn lemma_word_wrap_stays_in_rect(frame: Frame, rect: Rect, cell: Cell, text: Seq<char>)
    requires
        frame.wf(),
    ensures
        changed_only_in(frame, frame.word_wrap(rect, cell, text), rect),
{
    lemma_wrap_from_stays_in_rect(frame, rect, cell, Cursor { line: 0, col: 0 }, text, 0);
}

/// A text that is laid out character by character in a rectangle that has
/// some width changes no cell outside the rectangle.
pub proof fn lemma_hard_wrap_stays_in_rect(frame: Frame, rect: Rect, cell: Cell, text: Seq<char>)
    requires
        frame.wf(),
        rect.width > 0,
    ensures
        changed_only_in(frame, frame.hard_wrap(rect, cell, text), rect),
    decreases text.len(),
{
    if text.len() > 0 {
        let before = frame.hard_wrap(rect, cell, text.drop_last());
        lemma_hard_wrap_stays_in_rect(frame, rect, cell, text.drop_last());
        let at = hard_wrap_position(rect.width, (text.len() - 1) as nat);
        assert(at.col < rect.width) by (nonlinear_arith)
            requires
                at.col == (text.len() - 1) % (rect.width as int),
                rect.width > 0,
        ;
        if at.line < rect.height {
            lemma_draw_pixel_cells(
                before,
                (rect.row + at.line) as int,
                (rect.col + at.col) as int,
                cell.with_symbol(text.last()),
            );
        }
    }
}

/// In a text that is laid out character by character, the character at
/// index `i` goes `i / width` lines down and `i % width` columns to the
/// right, whatever character it is: a newline breaks no line.
pub proof fn lemma_hard_wrap_cell(frame: Frame, rect: Rect, cell: Cell, text: Seq<char>, i: int)
    requires
        frame.wf(),
        rect.width > 0,
        0 <= i < text.len(),
        i / (rect.width as int) < rect.height,
        frame.contains(rect.row + i / (rect.width as int), rect.col + i % (rect.width as int)),
    ensures
        frame.hard_wrap(rect, cell, text).current[rect.row + i / (rect.width as int) - 1][rect.col
            + i % (rect.width as int) - 1] == cell.with_symbol(text[i]),
    decreases text.len(),
{
    let width = rect.width as int;
    let before = frame.hard_wrap(rect, cell, text.drop_last());
    lemma_hard_wrap_stays_in_rect(frame, rect, cell, text.drop_last());
    let last = text.len() - 1;
    let at = hard_wrap_position(rect.width, last as nat);
    if at.line < rect.height {
        lemma_draw_pixel_cells(
            before,
            (rect.row + at.line) as int,
            (rect.col + at.col) as int,
            cell.with_symbol(text.last()),
        );
    }
    if i < last {
        lemma_hard_wrap_cell(frame, rect, cell, text.drop_last(), i);
        assert(text.drop_last()[i] == text[i]);
        assert(i / width != last / width || i % width != last % width) by (nonlinear_arith)
            requires
                0 <= i < last,
                width > 0,
        ;
    }
}

} // verus!
