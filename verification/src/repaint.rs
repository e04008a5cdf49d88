//! What a flush writes: facts about the difference between the grid and what
//! the terminal last received.

use vstd::prelude::*;
use crate::cell::Cell;
use crate::display::{Frame, Paint};

verus! {

/// A row in which nothing has to be written yields no writes.
proof fn lemma_row_silent(frame: Frame, width: u16, height: u16, row: int, cols: int)
    requires
        forall|col: int| 1 <= col <= cols ==> frame.painted(width, height, row, col) is None,
    ensures
        frame.row_paints(width, height, row, cols) == Seq::<Paint>::empty(),
    decreases cols,
{
    if cols > 0 {
        lemma_row_silent(frame, width, height, row, cols - 1);
    }
}

/// Rows in which nothing has to be written yield no writes.
proof fn lemma_rows_silent(frame: Frame, width: u16, height: u16, rows: int)
    requires
        forall|row: int, col: int|
            1 <= row <= rows && 1 <= col <= width ==> frame.painted(width, height, row, col)
                is None,
    ensures
        frame.paints_in(width, height, rows) == Seq::<Paint>::empty(),
    decreases rows,
{
    if rows > 0 {
        lemma_rows_silent(frame, width, height, rows - 1);
        lemma_row_silent(frame, width, height, rows, width as int);
    }
}

/// While the terminal keeps its size and shows the current grid, a flush
/// writes nothing.
pub proof fn lemma_unchanged_frame_writes_nothing(frame: Frame)
    requires
        frame.wf(),
        frame.previous == frame.current,
        frame.width <= u16::MAX,
        frame.height <= u16::MAX,
    ensures
        frame.paints(frame.width as u16, frame.height as u16) == Seq::<Paint>::empty(),
{
    lemma_rows_silent(frame, frame.width as u16, frame.height as u16, frame.height as int);
}

/// Flushing twice in a row, with no drawing in between and a terminal that
/// keeps its size, writes nothing the second time.
pub proof fn lemma_second_flush_writes_nothing(frame: Frame, width: u16, height: u16)
    requires
        frame.wf(),
    ensures
        frame.flushed(width, height).wf(),
        frame.flushed(width, height).paints(width, height) == Seq::<Paint>::empty(),
        frame.flushed(width, height).flushed(width, height) == frame.flushed(width, height),
{
    let after = frame.flushed(width, height);
    lemma_unchanged_frame_writes_nothing(after);
    assert(after.resized(width as nat, height as nat) =~~= after.current);
}

/// A row in which only column `col` has to be written yields that one write,
/// once the row has been walked as far as `col`.
proof fn lemma_row_single(
    frame: Frame,
    width: u16,
    height: u16,
    row: int,
    col: int,
    cell: Cell,
    cols: int,
)
    requires
        1 <= col,
        frame.painted(width, height, row, col) == Some(cell),
        forall|other: int|
            1 <= other <= cols && other != col ==> frame.painted(width, height, row, other)
                is None,
    ensures
        frame.row_paints(width, height, row, cols) == if cols < col {
            Seq::<Paint>::empty()
        } else {
            seq![Paint { row: row as u16, col: col as u16, cell }]
        },
    decreases cols,
{
    if cols > 0 {
        lemma_row_single(frame, width, height, row, col, cell, cols - 1);
        if cols == col {
            assert(Seq::<Paint>::empty().push(Paint { row: row as u16, col: col as u16, cell })
                =~= seq![Paint { row: row as u16, col: col as u16, cell }]);
        }
    }
}

/// Rows in which only one cell has to be written yield that one write, once
/// the rows have been walked as far as its row.
proof fn lemma_rows_single(
    frame: Frame,
    width: u16,
    height: u16,
    row: int,
    col: int,
    cell: Cell,
    rows: int,
)
    requires
        1 <= row,
        1 <= col <= width,
        frame.painted(width, height, row, col) == Some(cell),
        forall|r: int, c: int|
            1 <= r <= rows && 1 <= c <= width && !(r == row && c == col) ==> frame.painted(
                width,
                height,
                r,
                c,
            ) is None,
    ensures
        frame.paints_in(width, height, rows) == if rows < row {
            Seq::<Paint>::empty()
        } else {
            seq![Paint { row: row as u16, col: col as u16, cell }]
        },
    decreases rows,
{
    if rows > 0 {
        lemma_rows_single(frame, width, height, row, col, cell, rows - 1);
        if rows == row {
            lemma_row_single(frame, width, height, row, col, cell, width as int);
            assert(Seq::<Paint>::empty() + seq![Paint { row: row as u16, col: col as u16, cell }]
                =~= seq![Paint { row: row as u16, col: col as u16, cell }]);
        } else {
            lemma_row_silent(frame, width, height, rows, width as int);
            if rows > row {
                assert(seq![Paint { row: row as u16, col: col as u16, cell }] + Seq::<
                    Paint,
                >::empty() =~= seq![Paint { row: row as u16, col: col as u16, cell }]);
            }
        }
    }
}

/// After one `draw_pixel` that changes one cell of a grid that the terminal
/// shows, a flush to a terminal of the same size writes exactly that cell.
pub proof fn lemma_one_change_one_write(frame: Frame, row: int, col: int, cell: Cell)
    requires
        frame.wf(),
        frame.previous == frame.current,
        frame.width <= u16::MAX,
        frame.height <= u16::MAX,
        frame.contains(row, col),
        frame.current[row - 1][col - 1] != cell,
    ensures
        frame.draw_pixel(row, col, cell).paints(frame.width as u16, frame.height as u16)
            == seq![Paint { row: row as u16, col: col as u16, cell }],
{
    let drawn = frame.draw_pixel(row, col, cell);
    lemma_rows_single(
        drawn,
        frame.width as u16,
        frame.height as u16,
        row,
        col,
        cell,
        frame.height as int,
    );
}

/// A row in which every column has to be written yields one write for each
/// column, in order.
proof fn lemma_row_full(frame: Frame, width: u16, height: u16, row: int, cols: int)
    requires
        0 <= cols,
        forall|col: int| 1 <= col <= cols ==> frame.painted(width, height, row, col) is Some,
    ensures
        frame.row_paints(width, height, row, cols).len() == cols,
        forall|col: int|
            1 <= col <= cols ==> (#[trigger] frame.row_paints(width, height, row, cols)[col - 1])
                == (Paint {
                row: row as u16,
                col: col as u16,
                cell: frame.painted(width, height, row, col)->0,
            }),
    decreases cols,
{
    if cols > 0 {
        lemma_row_full(frame, width, height, row, cols - 1);
        let before = frame.row_paints(width, height, row, cols - 1);
        assert forall|col: int| 1 <= col <= cols implies (#[trigger] frame.row_paints(
            width,
            height,
            row,
            cols,
        )[col - 1]) == (Paint {
            row: row as u16,
            col: col as u16,
            cell: frame.painted(width, height, row, col)->0,
        }) by {
            if col < cols {
                assert(before[col - 1] == (Paint {
                    row: row as u16,
                    col: col as u16,
                    cell: frame.painted(width, height, row, col)->0,
                }));
            }
        }
    }
}

/// Where the write for row `row`, column `col` stands among the writes of a
/// flush that writes every cell of a terminal `width` columns wide.
pub open spec fn place_in_order(width: int, row: int, col: int) -> int {
    (row - 1) * width + (col - 1)
}

/// Rows in which every cell has to be written yield one write for each cell,
/// row after row.
proof fn lemma_rows_full(frame: Frame, width: u16, height: u16, rows: int)
    requires
        0 <= rows <= u16::MAX,
        forall|row: int, col: int|
            1 <= row <= rows && 1 <= col <= width ==> frame.painted(width, height, row, col)
                is Some,
    ensures
        frame.paints_in(width, height, rows).len() == rows * width,
        forall|row: int, col: int|
            1 <= row <= rows && 1 <= col <= width ==> {
                let k = #[trigger] place_in_order(width as int, row, col);
                &&& 0 <= k < rows * width
                &&& frame.paints_in(width, height, rows)[k] == (Paint {
                    row: row as u16,
                    col: col as u16,
                    cell: frame.painted(width, height, row, col)->0,
                })
            },
    decreases rows,
{
    if rows > 0 {
        lemma_rows_full(frame, width, height, rows - 1);
        lemma_row_full(frame, width, height, rows, width as int);
        let above = frame.paints_in(width, height, rows - 1);
        let last = frame.row_paints(width, height, rows, width as int);
        assert((rows - 1) * width + width == rows * width) by (nonlinear_arith);
        assert forall|row: int, col: int| 1 <= row <= rows && 1 <= col <= width implies {
            let k = #[trigger] place_in_order(width as int, row, col);
            &&& 0 <= k < rows * width
            &&& frame.paints_in(width, height, rows)[k] == (Paint {
                row: row as u16,
                col: col as u16,
                cell: frame.painted(width, height, row, col)->0,
            })
        } by {
            let k = place_in_order(width as int, row, col);
            if row < rows {
                let j = place_in_order(width as int, row, col);
                assert(0 <= j < (rows - 1) * width);
                assert((above + last)[k] == above[k]);
            } else {
                assert(last[col - 1] == (Paint {
                    row: row as u16,
                    col: col as u16,
                    cell: frame.painted(width, height, row, col)->0,
                }));
                assert((above + last)[k] == last[col - 1]);
            }
        }
    }
}

/// When the terminal's size has changed since the last flush, a flush writes
/// every cell of the terminal, row after row: a cell inside the grid as the
/// current grid has it, whatever the terminal showed there, and a cell
/// outside the grid blank.
pub proof fn lemma_resize_repaints_everything(frame: Frame, width: u16, height: u16)
    requires
        frame.wf(),
        width != frame.width || height != frame.height,
    ensures
        frame.paints(width, height).len() == height * width,
        forall|row: int, col: int|
            1 <= row <= height && 1 <= col <= width ==> {
                let k = #[trigger] place_in_order(width as int, row, col);
                &&& 0 <= k < height * width
                &&& frame.paints(width, height)[k] == (Paint {
                    row: row as u16,
                    col: col as u16,
                    cell: if frame.contains(row, col) {
                        frame.current[row - 1][col - 1]
                    } else {
                        Cell::blank()
                    },
                })
            },
{
    lemma_rows_full(frame, width, height, height as int);
    assert forall|row: int, col: int| 1 <= row <= height && 1 <= col <= width implies {
        let k = #[trigger] place_in_order(width as int, row, col);
        &&& 0 <= k < height * width
        &&& frame.paints(width, height)[k] == (Paint {
            row: row as u16,
            col: col as u16,
            cell: if frame.contains(row, col) {
                frame.current[row - 1][col - 1]
            } else {
                Cell::blank()
            },
        })
    } by {
        let k = place_in_order(width as int, row, col);
        assert(frame.painted(width, height, row, col) is Some);
    }
}

} // verus!
