//! The display: a grid of cells that drawing calls change, the grid that the
//! terminal last received, and the flush that tells them apart.
//!
//! Rows and columns are counted from 1 in every drawing call, as a terminal
//! counts them: row 1, column 1 is the top-left cell. A drawing call outside
//! the grid changes nothing and is no error.

use vstd::prelude::*;
use crate::cell::Cell;
use crate::text::chars_of;

verus! {

/// Whether `grid` has `height` rows of `width` cells each.
pub open spec fn is_grid(grid: Seq<Seq<Cell>>, height: nat, width: nat) -> bool {
    &&& grid.len() == height
    &&& forall|r: int| 0 <= r < height ==> (#[trigger] grid[r]).len() == width
}

/// One write to the terminal: the cell to show at a row and a column, both
/// counted from 1.
#[derive(Clone, Copy, Debug, PartialEq, Eq)]
pub struct Paint {
    pub row: u16,
    pub col: u16,
    pub cell: Cell,
}

/// What a display holds, as mathematics: the size of the grid, the grid that
/// drawing calls change and the grid that the terminal last received.
pub struct Frame {
    pub width: nat,
    pub height: nat,
    pub current: Seq<Seq<Cell>>,
    pub previous: Seq<Seq<Cell>>,
}

impl Frame {
    /// Both grids have the frame's size.
    pub open spec fn wf(self) -> bool {
        &&& is_grid(self.current, self.height, self.width)
        &&& is_grid(self.previous, self.height, self.width)
    }

    /// The frame of a display that was just made: both grids blank.
    pub open spec fn blank(width: nat, height: nat) -> Frame {
        let grid = Seq::new(height, |r: int| Seq::new(width, |c: int| Cell::blank()));
        Frame { width, height, current: grid, previous: grid }
    }

    /// Whether row `row`, column `col` lies in the grid.
    pub open spec fn contains(self, row: int, col: int) -> bool {
        1 <= row <= self.height && 1 <= col <= self.width
    }

    /// The frame after `cell` was drawn at row `row`, column `col`: that one
    /// cell of the current grid is replaced; outside the grid nothing changes.
    pub open spec fn draw_pixel(self, row: int, col: int, cell: Cell) -> Frame {
        if self.contains(row, col) {
            Frame {
                current: self.current.update(
                    row - 1,
                    self.current[row - 1].update(col - 1, cell),
                ),
                ..self
            }
        } else {
            self
        }
    }

    /// The frame after every cell of the current grid was set to `cell`.
    pub open spec fn clear(self, cell: Cell) -> Frame {
        Frame {
            current: Seq::new(self.height, |r: int| Seq::new(self.width, |c: int| cell)),
            ..self
        }
    }

    /// The frame after `text` was drawn from row `row`, column `col` to the
    /// right, one column for each character, in the colours of `cell`.
    pub open spec fn draw_string(self, row: int, col: int, cell: Cell, text: Seq<char>) -> Frame
        decreases text.len(),
    {
        if text.len() == 0 {
            self
        } else {
            self.draw_string(row, col, cell, text.drop_last()).draw_pixel(
                row,
                col + text.len() - 1,
                cell.with_symbol(text.last()),
            )
        }
    }

    /// The frame after every cell in the rows `top` to `bottom` and the
    /// columns `left` to `right`, all counted from 1 and all included, was
    /// set to `cell`. What lies outside the grid is left out.
    pub open spec fn fill(self, top: int, left: int, bottom: int, right: int, cell: Cell) -> Frame {
        Frame {
            current: Seq::new(
                self.height,
                |r: int|
                    Seq::new(
                        self.width,
                        |c: int|
                            if top <= r + 1 <= bottom && left <= c + 1 <= right {
                                cell
                            } else {
                                self.current[r][c]
                            },
                    ),
            ),
            ..self
        }
    }

    /// The frame after the first `count` cells of a picture of 5 by 5 cells,
    /// counted row by row, were drawn with the picture's top-left cell at
    /// row `row`, column `col`.
    pub open spec fn draw_cells(
        self,
        row: int,
        col: int,
        picture: Seq<Seq<Cell>>,
        count: int,
    ) -> Frame
        decreases count,
    {
        if count <= 0 {
            self
        } else {
            let k = count - 1;
            self.draw_cells(row, col, picture, k).draw_pixel(
                row + k / 5,
                col + k % 5,
                picture[k / 5][k % 5],
            )
        }
    }

    /// The frame after a picture of 5 by 5 cells was drawn with its top-left
    /// cell at row `row`, column `col`.
    pub open spec fn draw_picture(self, row: int, col: int, picture: Seq<Seq<Cell>>) -> Frame {
        self.draw_cells(row, col, picture, 25)
    }

    /// What a flush to a terminal of `new_width` columns and `new_height`
    /// rows writes at row `row`, column `col` of the terminal, if anything.
    ///
    /// Inside the grid the current cell is written where it differs from what
    /// the terminal last received, and everywhere once the terminal's size
    /// has changed. Outside the grid a blank cell is written.
    pub open spec fn painted(self, new_width: u16, new_height: u16, row: int, col: int) -> Option<
        Cell,
    > {
        let resized = new_width != self.width || new_height != self.height;
        if self.contains(row, col) {
            let cell = self.current[row - 1][col - 1];
            if resized || self.previous[row - 1][col - 1] != cell {
                Some(cell)
            } else {
                None
            }
        } else {
            Some(Cell::blank())
        }
    }

    /// The writes of a flush in the first `cols` columns of row `row`, from
    /// left to right.
    pub open spec fn row_paints(self, new_width: u16, new_height: u16, row: int, cols: int) -> Seq<
        Paint,
    >
        decreases cols,
    {
        if cols <= 0 {
            Seq::empty()
        } else {
            let before = self.row_paints(new_width, new_height, row, cols - 1);
            match self.painted(new_width, new_height, row, cols) {
                Some(cell) => before.push(Paint { row: row as u16, col: cols as u16, cell }),
                None => before,
            }
        }
    }

    /// The writes of a flush in the first `rows` rows of the terminal, row
    /// after row from the top.
    pub open spec fn paints_in(self, new_width: u16, new_height: u16, rows: int) -> Seq<Paint>
        decreases rows,
    {
        if rows <= 0 {
            Seq::empty()
        } else {
            self.paints_in(new_width, new_height, rows - 1) + self.row_paints(
                new_width,
                new_height,
                rows,
                new_width as int,
            )
        }
    }

    /// Everything that a flush to a terminal of `new_width` columns and
    /// `new_height` rows writes, in the order of writing.
    pub open spec fn paints(self, new_width: u16, new_height: u16) -> Seq<Paint> {
        self.paints_in(new_width, new_height, new_height as int)
    }

    /// The current grid cut or padded to `new_width` columns and `new_height`
    /// rows: cells that both sizes have in common are kept, new ones are
    /// blank.
    pub open spec fn resized(self, new_width: nat, new_height: nat) -> Seq<Seq<Cell>> {
        Seq::new(
            new_height,
            |r: int|
                Seq::new(
                    new_width,
                    |c: int|
                        if r < self.height && c < self.width {
                            self.current[r][c]
                        } else {
                            Cell::blank()
                        },
                ),
        )
    }

    /// The frame after a flush to a terminal of `new_width` columns and
    /// `new_height` rows: it has the terminal's size, and the terminal has
    /// received the current grid.
    pub open spec fn flushed(self, new_width: u16, new_height: u16) -> Frame {
        let grid = self.resized(new_width as nat, new_height as nat);
        Frame { width: new_width as nat, height: new_height as nat, current: grid, previous: grid }
    }
}

/// The grid that the rows of `matrix` spell out.
pub open spec fn grid_of(matrix: Seq<Vec<Cell>>) -> Seq<Seq<Cell>> {
    Seq::new(matrix.len(), |r: int| matrix[r]@)
}

/// A terminal display. `matrix` is what drawing calls change, `old_matrix`
/// what the terminal was last told to show.
pub struct Display {
    width: usize,
    height: usize,
    old_matrix: Vec<Vec<Cell>>,
    matrix: Vec<Vec<Cell>>,
}

impl View for Display {
    type V = Frame;

    closed spec fn view(&self) -> Frame {
        Frame {
            width: self.width as nat,
            height: self.height as nat,
            current: grid_of(self.matrix@),
            previous: grid_of(self.old_matrix@),
        }
    }
}

/// A grid of `height` rows of `width` cells, each of them `cell`.
fn filled(width: usize, height: usize, cell: Cell) -> (matrix: Vec<Vec<Cell>>)
    ensures
        grid_of(matrix@) == Seq::new(height as nat, |r: int| Seq::new(width as nat, |c: int| cell)),
{
    let mut matrix: Vec<Vec<Cell>> = Vec::new();
    let mut r: usize = 0;
    while r < height
        invariant
            r <= height,
            matrix@.len() == r,
            forall|i: int|
                0 <= i < r ==> (#[trigger] matrix@[i])@ == Seq::new(width as nat, |c: int| cell),
        decreases height - r,
    {
        let mut line: Vec<Cell> = Vec::new();
        let mut c: usize = 0;
        while c < width
            invariant
                c <= width,
                line@.len() == c,
                forall|j: int| 0 <= j < c ==> line@[j] == cell,
            decreases width - c,
        {
            line.push(cell);
            c = c + 1;
        }
        assert(line@ =~= Seq::new(width as nat, |c: int| cell));
        matrix.push(line);
        r = r + 1;
    }
    assert(grid_of(matrix@) =~= Seq::new(
        height as nat,
        |r: int| Seq::new(width as nat, |c: int| cell),
    ));
    matrix
}

impl Display {
    /// Whether the display's grids have the size it records. Every function
    /// that makes or changes a display keeps this.
    pub open spec fn wf(&self) -> bool {
        self@.wf()
    }

    /// A display for a terminal of `width` columns and `height` rows, with
    /// every cell blank.
    pub fn new(width: u16, height: u16) -> (display: Display)
        ensures
            display.wf(),
            display@ == Frame::blank(width as nat, height as nat),
    {
        let old_matrix = filled(width as usize, height as usize, Cell::default());
        let matrix = filled(width as usize, height as usize, Cell::default());
        Display { width: width as usize, height: height as usize, old_matrix, matrix }
    }

    /// Draw a pixel on the buffer on the l'th line and c'th column. Outside
    /// the grid this changes nothing.
    pub fn draw_pixel(&mut self, l: usize, c: usize, cell: Cell)
        requires
            old(self).wf(),
        ensures
            final(self).wf(),
            final(self)@ == old(self)@.draw_pixel(l as int, c as int, cell),
            !old(self)@.contains(l as int, c as int) ==> final(self)@ == old(self)@,
    {
        if 1 <= l && l <= self.height && 1 <= c && c <= self.width {
            assert(self@.current[l - 1].len() == self.width);
            self.matrix[l - 1][c - 1] = cell;
            assert(self@.current =~= old(self)@.draw_pixel(l as int, c as int, cell).current);
        }
    }

    /// Draw a pixel where row and column may be any natural number: beyond
    /// the range of the grid's own indices nothing can be drawn.
    pub(crate) fn draw_pixel_at(&mut self, row: u128, col: u128, cell: Cell)
        requires
            old(self).wf(),
        ensures
            final(self).wf(),
            final(self)@ == old(self)@.draw_pixel(row as int, col as int, cell),
    {
        if row <= self.height as u128 && col <= self.width as u128 {
            self.draw_pixel(row as usize, col as usize, cell);
        }
    }

    /// Draw the characters `chars[from..to]` from row `row`, column `col` to
    /// the right.
    pub(crate) fn draw_chars(
        &mut self,
        row: u128,
        col: u128,
        cell: Cell,
        chars: &Vec<char>,
        from: usize,
        to: usize,
    )
        requires
            old(self).wf(),
            from <= to <= chars@.len(),
            col + (to - from) <= u128::MAX,
        ensures
            final(self).wf(),
            final(self)@ == old(self)@.draw_string(
                row as int,
                col as int,
                cell,
                chars@.subrange(from as int, to as int),
            ),
    {
        let mut k: usize = from;
        while k < to
            invariant
                self.wf(),
                from <= k <= to <= chars@.len(),
                col + (to - from) <= u128::MAX,
                self@ == old(self)@.draw_string(
                    row as int,
                    col as int,
                    cell,
                    chars@.subrange(from as int, k as int),
                ),
            decreases to - k,
        {
            let ghost done = chars@.subrange(from as int, k as int);
            let ghost next = chars@.subrange(from as int, k + 1);
            assert(next.drop_last() =~= done);
            assert(next.last() == chars@[k as int]);
            self.draw_pixel_at(row, col + (k - from) as u128, cell.change_symbol(chars[k]));
            k = k + 1;
        }
    }

    /// Draw a string at the given position (the l'th line, c'th column) using
    /// the style in the cell: one column for each character, to the right,
    /// with no wrapping. What falls outside the grid is not drawn.
    pub fn draw_string(&mut self, l: usize, c: usize, cell: Cell, to_write: &str)
        requires
            old(self).wf(),
        ensures
            final(self).wf(),
            final(self)@ == old(self)@.draw_string(l as int, c as int, cell, to_write@),
    {
        let chars = chars_of(to_write);
        assert(chars@.subrange(0, chars@.len() as int) =~= chars@);
        self.draw_chars(l as u128, c as u128, cell, &chars, 0, chars.len());
    }

    /// Set every cell in the rows `top` to `bottom` and the columns `left` to
    /// `right` to `cell`. Rows and columns are counted from 1, and the last
    /// ones are included. What lies outside the grid is left out.
    pub fn fill_rect(&mut self, top: usize, left: usize, bottom: usize, right: usize, cell: Cell)
        requires
            old(self).wf(),
        ensures
            final(self).wf(),
            final(self)@ == old(self)@.fill(
                top as int,
                left as int,
                bottom as int,
                right as int,
                cell,
            ),
    {
        let rows_end = if bottom < self.height {
            bottom
        } else {
            self.height
        };
        let cols_end = if right < self.width {
            right
        } else {
            self.width
        };
        let row_start = if top == 0 {
            0
        } else {
            top - 1
        };
        let col_start = if left == 0 {
            0
        } else {
            left - 1
        };
        let mut r: usize = row_start;
        assert(self@.current =~~= old(self)@.fill(
            top as int,
            left as int,
            r as int,
            right as int,
            cell,
        ).current);
        while r < rows_end
            invariant
                self.wf(),
                row_start <= r,
                r <= rows_end || r == row_start,
                row_start + 1 == top || (top == 0 && row_start == 0),
                col_start + 1 == left || (left == 0 && col_start == 0),
                rows_end <= self@.height,
                cols_end <= self@.width,
                rows_end == bottom || (rows_end == self@.height && bottom >= self@.height),
                cols_end == right || (cols_end == self@.width && right >= self@.width),
                self@ == old(self)@.fill(top as int, left as int, r as int, right as int, cell),
            decreases rows_end - r,
        {
            let ghost above = self@;
            let mut c: usize = col_start;
            assert(self@.current =~~= above.fill(
                r + 1,
                left as int,
                r + 1,
                c as int,
                cell,
            ).current);
            while c < cols_end
                invariant
                    self.wf(),
                    above.wf(),
                    r < rows_end <= self@.height,
                    col_start <= c,
                    c <= cols_end || c == col_start,
                    col_start + 1 == left || (left == 0 && col_start == 0),
                    cols_end <= self@.width,
                    self@ == above.fill(r + 1, left as int, r + 1, c as int, cell),
                decreases cols_end - c,
            {
                self.draw_pixel(r + 1, c + 1, cell);
                assert(self@.current =~~= above.fill(
                    r + 1,
                    left as int,
                    r + 1,
                    c + 1,
                    cell,
                ).current);
                c = c + 1;
            }
            proof {
                let done = old(self)@.fill(top as int, left as int, r + 1, right as int, cell);
                assert forall|i: int, j: int|
                    0 <= i < self@.height && 0 <= j < self@.width implies self@.current[i][j]
                    == done.current[i][j] by {
                    assert(above.current[i].len() == self@.width);
                }
                assert(self@.current =~~= done.current);
            }
            r = r + 1;
        }
        proof {
            let done = old(self)@.fill(top as int, left as int, bottom as int, right as int, cell);
            assert forall|i: int, j: int|
                0 <= i < self@.height && 0 <= j < self@.width implies self@.current[i][j]
                == done.current[i][j] by {
                assert(old(self)@.current[i].len() == self@.width);
            }
            assert(self@.current =~~= done.current);
        }
    }

    /// Draw a picture of 5 by 5 cells with its top-left cell at row `row`,
    /// column `col`.
    pub fn draw_picture(&mut self, row: usize, col: usize, picture: &Vec<Vec<Cell>>)
        requires
            old(self).wf(),
            is_grid(grid_of(picture@), 5, 5),
        ensures
            final(self).wf(),
            final(self)@ == old(self)@.draw_picture(row as int, col as int, grid_of(picture@)),
    {
        let mut l: usize = 0;
        while l < 5
            invariant
                self.wf(),
                l <= 5,
                is_grid(grid_of(picture@), 5, 5),
                self@ == old(self)@.draw_cells(row as int, col as int, grid_of(picture@), 5 * l),
            decreases 5 - l,
        {
            let mut c: usize = 0;
            while c < 5
                invariant
                    self.wf(),
                    l < 5,
                    c <= 5,
                    is_grid(grid_of(picture@), 5, 5),
                    self@ == old(self)@.draw_cells(
                        row as int,
                        col as int,
                        grid_of(picture@),
                        5 * l + c,
                    ),
                decreases 5 - c,
            {
                assert(grid_of(picture@)[l as int].len() == 5);
                assert((5 * l + c) / 5 == l && (5 * l + c) % 5 == c);
                self.draw_pixel_at(row as u128 + l as u128, col as u128 + c as u128, picture[l][c]);
                c = c + 1;
            }
            l = l + 1;
        }
    }

    /// Clear the entire screen: every cell of the buffer becomes `cell`.
    pub fn clear_screen(&mut self, cell: Cell)
        requires
            old(self).wf(),
        ensures
            final(self).wf(),
            final(self)@ == old(self)@.clear(cell),
    {
        self.matrix = filled(self.width, self.height, cell);
    }
    /// The current grid cut or padded to `width` columns and `height` rows.
    fn resized(&self, width: usize, height: usize) -> (matrix: Vec<Vec<Cell>>)
        requires
            self.wf(),
        ensures
            grid_of(matrix@) == self@.resized(width as nat, height as nat),
    {
        let mut matrix: Vec<Vec<Cell>> = Vec::new();
        let mut r: usize = 0;
        while r < height
            invariant
                self.wf(),
                r <= height,
                matrix@.len() == r,
                forall|i: int|
                    0 <= i < r ==> (#[trigger] matrix@[i])@ == self@.resized(
                        width as nat,
                        height as nat,
                    )[i],
            decreases height - r,
        {
            let mut line: Vec<Cell> = Vec::new();
            let mut c: usize = 0;
            while c < width
                invariant
                    self.wf(),
                    r < height,
                    c <= width,
                    line@.len() == c,
                    forall|j: int|
                        0 <= j < c ==> line@[j] == self@.resized(
                            width as nat,
                            height as nat,
                        )[r as int][j],
                decreases width - c,
            {
                if r < self.height && c < self.width {
                    assert(self@.current[r as int].len() == self.width);
                    line.push(self.matrix[r][c]);
                } else {
                    line.push(Cell::default());
                }
                c = c + 1;
            }
            assert(line@ =~= self@.resized(width as nat, height as nat)[r as int]);
            matrix.push(line);
            r = r + 1;
        }
        assert(grid_of(matrix@) =~= self@.resized(width as nat, height as nat));
        matrix
    }

    /// Display all the modifications on the screen and handle the terminal
    /// size changes.
    ///
    /// `width` and `height` are the size that the terminal has now. The
    /// result lists the cells that the terminal has to be sent, in order, so
    /// that it shows the current grid. After the call the display has the
    /// terminal's size and takes the terminal to show its current grid.
    pub fn display(&mut self, width: u16, height: u16) -> (paints: Vec<Paint>)
        requires
            old(self).wf(),
        ensures
            final(self).wf(),
            paints@ == old(self)@.paints(width, height),
            final(self)@ == old(self)@.flushed(width, height),
    {
        let resized = self.width != width as usize || self.height != height as usize;
        let mut paints: Vec<Paint> = Vec::new();
        let mut l: u16 = 0;
        while l < height
            invariant
                self.wf(),
                *self == *old(self),
                l <= height,
                resized == (width != self@.width || height != self@.height),
                paints@ == self@.paints_in(width, height, l as int),
            decreases height - l,
        {
            let ghost above = paints@;
            l = l + 1;
            let mut c: u16 = 0;
            while c < width
                invariant
                    self.wf(),
                    *self == *old(self),
                    1 <= l <= height,
                    c <= width,
                    resized == (width != self@.width || height != self@.height),
                    paints@ == above + self@.row_paints(width, height, l as int, c as int),
                decreases width - c,
            {
                c = c + 1;
                let ghost before = self@.row_paints(width, height, l as int, c - 1);
                if l as usize <= self.height && c as usize <= self.width {
                    assert(self@.current[l - 1].len() == self.width);
                    assert(self@.previous[l - 1].len() == self.width);
                    let cell = self.matrix[l as usize - 1][c as usize - 1];
                    if resized || self.old_matrix[l as usize - 1][c as usize - 1] != cell {
                        paints.push(Paint { row: l, col: c, cell });
                        assert(paints@ =~= above + before.push(Paint { row: l, col: c, cell }));
                    }
                } else {
                    paints.push(Paint { row: l, col: c, cell: Cell::default() });
                    assert(paints@ =~= above + before.push(
                        Paint { row: l, col: c, cell: Cell::blank() },
                    ));
                }
            }
        }
        let matrix = self.resized(width as usize, height as usize);
        let old_matrix = self.resized(width as usize, height as usize);
        self.width = width as usize;
        self.height = height as usize;
        self.matrix = matrix;
        self.old_matrix = old_matrix;
        paints
    }

    /// The first cell of every row of the buffer, from the top: a quick look
    /// at the buffer while debugging.
    pub fn screen_shot(&self) -> (cells: Vec<Cell>)
        requires
            self.wf(),
            self@.width > 0,
        ensures
            cells@ == Seq::new(self@.height, |r: int| self@.current[r][0]),
    {
        let mut cells: Vec<Cell> = Vec::new();
        let mut i: usize = 0;
        while i < self.height
            invariant
                self.wf(),
                self@.width > 0,
                i <= self.height,
                cells@ == Seq::new(i as nat, |r: int| self@.current[r][0]),
            decreases self.height - i,
        {
            assert(self@.current[i as int].len() == self.width);
            cells.push(self.matrix[i][0]);
            assert(cells@ =~= Seq::new((i + 1) as nat, |r: int| self@.current[r][0]));
            i = i + 1;
        }
        cells
    }
}

} // verus!
