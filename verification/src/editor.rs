//! The tree editor: what it holds, what a key does to it, and what it shows.
//!
//! A tree is first painted cell by cell with a brush, then it is given a
//! name. The editor itself reads no keys and writes to no terminal: it is
//! told which key was pressed, and it draws on a display.

use vstd::prelude::*;
use vstd::string::StringExecFns;
use crate::cell::Cell;
use crate::display::{grid_of, is_grid, Display, Frame};
use crate::layout::Rect;
use crate::number::{decimal, push_decimal};
use crate::text::string_of;
use crate::tree::{is_name_char, name_char, Tree, TreeView};

verus! {

/// What the editor shows where the screen is too small for it.
pub const SMALL_SCREEN_ERROR: &'static str =
    "The screen is too small, so the editor cannot be displayed properly. Make it larger (at least 22x30)";

/// What the editor says while a tree is painted.
pub const INSTRUCTIONS: &'static str =
    "Walk around with the arrow keys. Change colors with the menu below. To draw a character, just press the character to print. For a clear square, use Space. After finishing this, press Enter. To exit the editor without saving anything, use CTRL+c.";

/// What the editor says while a tree is named.
pub const NAME_TREE: &'static str =
    "Now you should give a name to your tree. It should only contain letters, digits, spaces and '-' or '_'";

/// What the editor says where a tree without a name is to be saved.
pub const NAME_MISSING: &'static str = "Please name your tree!";

/// A key, as far as the editor tells keys apart.
#[derive(Clone, Copy, Debug, PartialEq, Eq)]
pub enum Key {
    Backspace,
    Left,
    Right,
    Up,
    Down,
    Delete,
    /// A character; Enter is the character of a new line.
    Char(char),
    /// A character with the control key held down.
    Ctrl(char),
    /// Any other key.
    Other,
}

/// What the editor is busy with.
#[derive(Clone, Copy, Debug, PartialEq, Eq, Structural)]
pub enum EditorState {
    EditTree,
    NameTree,
}

impl Cell {
    /// The cell with one step less of a colour channel, where the channel is
    /// not at its least: channels 0 to 2 are the red, green and blue of the
    /// background, 3 to 5 those of the foreground.
    pub open spec fn dimmed(self, channel: int) -> Cell {
        let bg = self.bg;
        let fg = self.fg;
        if channel == 0 && bg.0 > 0 {
            Cell { bg: ((bg.0 - 1) as u8, bg.1, bg.2), ..self }
        } else if channel == 1 && bg.1 > 0 {
            Cell { bg: (bg.0, (bg.1 - 1) as u8, bg.2), ..self }
        } else if channel == 2 && bg.2 > 0 {
            Cell { bg: (bg.0, bg.1, (bg.2 - 1) as u8), ..self }
        } else if channel == 3 && fg.0 > 0 {
            Cell { fg: ((fg.0 - 1) as u8, fg.1, fg.2), ..self }
        } else if channel == 4 && fg.1 > 0 {
            Cell { fg: (fg.0, (fg.1 - 1) as u8, fg.2), ..self }
        } else if channel == 5 && fg.2 > 0 {
            Cell { fg: (fg.0, fg.1, (fg.2 - 1) as u8), ..self }
        } else {
            self
        }
    }

    /// The cell with one step more of a colour channel, where the channel is
    /// not at its most.
    pub open spec fn brightened(self, channel: int) -> Cell {
        let bg = self.bg;
        let fg = self.fg;
        if channel == 0 && bg.0 < 255 {
            Cell { bg: ((bg.0 + 1) as u8, bg.1, bg.2), ..self }
        } else if channel == 1 && bg.1 < 255 {
            Cell { bg: (bg.0, (bg.1 + 1) as u8, bg.2), ..self }
        } else if channel == 2 && bg.2 < 255 {
            Cell { bg: (bg.0, bg.1, (bg.2 + 1) as u8), ..self }
        } else if channel == 3 && fg.0 < 255 {
            Cell { fg: ((fg.0 + 1) as u8, fg.1, fg.2), ..self }
        } else if channel == 4 && fg.1 < 255 {
            Cell { fg: (fg.0, (fg.1 + 1) as u8, fg.2), ..self }
        } else if channel == 5 && fg.2 < 255 {
            Cell { fg: (fg.0, fg.1, (fg.2 + 1) as u8), ..self }
        } else {
            self
        }
    }
}

/// White, for borders and for the brush's colours.
pub open spec fn white() -> Cell {
    Cell { bg: (255u8, 255u8, 255u8), fg: (0u8, 0u8, 0u8), symbol: ' ' }
}

/// White on black, for text.
pub open spec fn plain() -> Cell {
    Cell { bg: (0u8, 0u8, 0u8), fg: (255u8, 255u8, 255u8), symbol: ' ' }
}

/// A colour as it is shown beside the brush.
pub open spec fn rgb_text(rgb: (u8, u8, u8)) -> Seq<char> {
    seq!['('] + decimal(rgb.0 as nat) + ", "@ + decimal(rgb.1 as nat) + ", "@ + decimal(
        rgb.2 as nat,
    ) + seq![')']
}

/// The editor as mathematics.
pub struct EditorView {
    /// Whether the tree is being named; before, it is being painted.
    pub naming: bool,
    pub picture: Seq<Seq<Cell>>,
    pub name: Seq<char>,
    /// The line of the menu that is chosen: 0 to 4 are the rows of the
    /// picture, 5 to 10 the colour channels of the brush.
    pub line: int,
    /// The column of the picture that is chosen.
    pub column: int,
    pub brush: Cell,
    /// Where in the name the next character goes.
    pub cursor: int,
    pub banner: Seq<char>,
    /// Whether the editor is over.
    pub done: bool,
}

impl EditorView {
    /// The editor's numbers are in their ranges.
    pub open spec fn wf(self) -> bool {
        &&& is_grid(self.picture, 5, 5)
        &&& 0 <= self.line < 11
        &&& 0 <= self.column < 5
        &&& 0 <= self.cursor <= self.name.len()
    }

    /// The editor after Enter: painting gives way to naming, and naming
    /// ends where the tree has a name.
    pub open spec fn after_enter(self) -> EditorView {
        if !self.naming {
            EditorView { naming: true, ..self }
        } else if self.name.len() == 0 {
            EditorView { banner: NAME_MISSING@, ..self }
        } else {
            EditorView { done: true, ..self }
        }
    }

    /// The editor after a character other than Enter: while painting, the
    /// chosen cell of the picture is painted with the brush and the
    /// character; while naming, a character that a name may hold goes into
    /// the name at the cursor.
    pub open spec fn after_char(self, c: char) -> EditorView {
        if !self.naming {
            if self.line < 5 {
                let brush = self.brush.with_symbol(c);
                EditorView {
                    brush,
                    picture: self.picture.update(
                        self.line,
                        self.picture[self.line].update(self.column, brush),
                    ),
                    ..self
                }
            } else {
                self
            }
        } else if is_name_char(c) {
            EditorView { name: self.name.insert(self.cursor, c), cursor: self.cursor + 1, ..self }
        } else {
            self
        }
    }

    /// The editor after the left arrow.
    pub open spec fn after_left(self) -> EditorView {
        if !self.naming {
            if self.line < 5 {
                EditorView {
                    column: if self.column == 0 {
                        4
                    } else {
                        self.column - 1
                    },
                    ..self
                }
            } else {
                EditorView { brush: self.brush.dimmed(self.line - 5), ..self }
            }
        } else if self.cursor > 0 {
            EditorView { cursor: self.cursor - 1, ..self }
        } else {
            self
        }
    }

    /// The editor after the right arrow.
    pub open spec fn after_right(self) -> EditorView {
        if !self.naming {
            if self.line < 5 {
                EditorView { column: (self.column + 1) % 5, ..self }
            } else {
                EditorView { brush: self.brush.brightened(self.line - 5), ..self }
            }
        } else if self.cursor < self.name.len() {
            EditorView { cursor: self.cursor + 1, ..self }
        } else {
            self
        }
    }

    /// The editor after a key.
    pub open spec fn after(self, key: Key) -> EditorView {
        match key {
            Key::Ctrl(c) => if c == 'c' {
                EditorView { done: true, ..self }
            } else {
                self
            },
            Key::Char(c) => if c == '\n' {
                self.after_enter()
            } else {
                self.after_char(c)
            },
            Key::Up => if self.naming {
                self
            } else {
                EditorView {
                    line: if self.line == 0 {
                        10
                    } else {
                        self.line - 1
                    },
                    ..self
                }
            },
            Key::Down => if self.naming {
                self
            } else {
                EditorView { line: (self.line + 1) % 11, ..self }
            },
            Key::Left => self.after_left(),
            Key::Right => self.after_right(),
            Key::Backspace => if self.naming && self.cursor > 0 {
                EditorView {
                    cursor: self.cursor - 1,
                    name: self.name.remove(self.cursor - 1),
                    ..self
                }
            } else {
                self
            },
            Key::Delete => if self.naming && self.cursor < self.name.len() {
                EditorView { name: self.name.remove(self.cursor), ..self }
            } else {
                self
            },
            Key::Other => self,
        }
    }

    /// Whether a terminal of `width` columns and `height` rows is large
    /// enough for the editor.
    pub open spec fn fits(width: int, height: int) -> bool {
        height >= 22 && width >= 30
    }

    /// The editor after it was drawn: while a tree is painted on a screen
    /// that is large enough, the brush loses its character.
    pub open spec fn shown(self, width: int, height: int) -> EditorView {
        if EditorView::fits(width, height) && !self.naming {
            EditorView { brush: self.brush.with_symbol(' '), ..self }
        } else {
            self
        }
    }

    /// The painting screen: the picture in its frame, the colour menu with
    /// its marker, the instructions, and the brush's two colours.
    pub open spec fn painting(self, frame: Frame, width: int, height: int) -> Frame {
        let brush = self.brush.with_symbol(' ');
        let framed = frame.fill(1, 1, 1, width, white()).fill(
            height,
            1,
            height,
            width,
            white(),
        ).fill(1, 8, height, 9, white()).fill(2, 1, 2, 7, white()).fill(2, 1, 8, 1, white()).fill(8, 1, 8, 7, white()).fill(
            2,
            7,
            8,
            7,
            white(),
        ).draw_picture(3, 2, self.picture);
        let labelled = framed.draw_string(9, 1, plain(), "BG"@).draw_string(
            10,
            1,
            plain(),
            "Red"@,
        ).draw_string(11, 1, plain(), "Green"@).draw_string(12, 1, plain(), "Blue"@).draw_string(
            15,
            1,
            plain(),
            "FG"@,
        ).draw_string(16, 1, plain(), "Red"@).draw_string(17, 1, plain(), "Green"@).draw_string(
            18,
            1,
            plain(),
            "Blue"@,
        );
        let marked = if self.line < 5 {
            labelled.draw_pixel(
                self.line + 3,
                self.column + 2,
                Cell { bg: self.brush.bg, fg: (255u8, 255u8, 255u8), symbol: '*' },
            )
        } else if self.line <= 7 {
            labelled.draw_string(5 + self.line, 6, plain(), "<>"@)
        } else {
            labelled.draw_string(8 + self.line, 6, plain(), "<>"@)
        };
        marked.word_wrap(
            Rect { row: 2, col: 10, width: (width - 9) as nat, height: (height - 2) as nat },
            plain(),
            INSTRUCTIONS@,
        ).fill(height - 1, 10, height - 1, 11, brush).draw_string(
            height - 1,
            12,
            plain(),
            "BG: "@ + rgb_text(brush.bg),
        ).fill(
            height - 2,
            10,
            height - 2,
            11,
            Cell { bg: brush.fg, fg: (0u8, 0u8, 0u8), symbol: ' ' },
        ).draw_string(height - 2, 12, plain(), "FG: "@ + rgb_text(brush.fg))
    }

    /// The naming screen: the banner, the name as far as it is typed, and a
    /// white cell where the next character goes.
    pub open spec fn naming_screen(self, frame: Frame, width: int, height: int) -> Frame {
        frame.fill(1, 1, 1, width, white()).fill(6, 1, 6, width, white()).fill(
            height,
            1,
            height,
            width,
            white(),
        ).fill(1, 1, height, 1, white()).fill(1, width, height, width, white()).word_wrap(
            Rect { row: 2, col: 2, width: (width - 2) as nat, height: 4 },
            plain(),
            self.banner,
        ).hard_wrap(
            Rect { row: 7, col: 2, width: (width - 2) as nat, height: (height - 6) as nat },
            plain(),
            self.name,
        ).draw_pixel(self.cursor / (width - 2) + 7, self.cursor % (width - 2) + 2, white())
    }

    /// What the editor shows on a terminal of `width` columns and `height`
    /// rows. On a terminal that is too small there is only a notice that
    /// says so, cut at the terminal's right edge.
    pub open spec fn drawn(self, frame: Frame, width: int, height: int) -> Frame {
        let cleared = frame.clear(Cell::blank());
        if !EditorView::fits(width, height) {
            if width <= 0 {
                cleared
            } else {
                cleared.hard_wrap(
                    Rect { row: 1, col: 1, width: width as nat, height: height as nat },
                    plain(),
                    SMALL_SCREEN_ERROR@,
                )
            }
        } else if !self.naming {
            self.painting(cleared, width, height)
        } else {
            self.naming_screen(cleared, width, height)
        }
    }
}

/// Whether every character of `name` may stand in a name.
pub open spec fn is_name_so_far(name: Seq<char>) -> bool {
    forall|i: int| 0 <= i < name.len() ==> is_name_char(#[trigger] name[i])
}

/// Whatever key is pressed, the editor's numbers stay in their ranges and
/// the name holds only characters that a name may hold. An editor that ends
/// with Enter has a name of one character at least.
pub proof fn lemma_editor_keeps_its_name_legit(editor: EditorView, key: Key)
    requires
        editor.wf(),
        is_name_so_far(editor.name),
    ensures
        editor.after(key).wf(),
        is_name_so_far(editor.after(key).name),
        key == Key::Char('\n') && !editor.done && editor.after(key).done ==> editor.after(
            key,
        ).name.len() > 0,
{
    let after = editor.after(key);
    assert forall|i: int| 0 <= i < after.name.len() implies is_name_char(
        #[trigger] after.name[i],
    ) by {
        if after.name != editor.name {
            match key {
                Key::Char(c) => {
                    if i < editor.cursor {
                        assert(after.name[i] == editor.name[i]);
                    } else if i > editor.cursor {
                        assert(after.name[i] == editor.name[i - 1]);
                    }
                },
                Key::Backspace => {
                    if i < editor.cursor - 1 {
                        assert(after.name[i] == editor.name[i]);
                    } else {
                        assert(after.name[i] == editor.name[i + 1]);
                    }
                },
                Key::Delete => {
                    if i < editor.cursor {
                        assert(after.name[i] == editor.name[i]);
                    } else {
                        assert(after.name[i] == editor.name[i + 1]);
                    }
                },
                _ => {},
            }
        }
    }
    if after.picture != editor.picture {
        assert forall|r: int| 0 <= r < 5 implies (#[trigger] after.picture[r]).len() == 5 by {
            assert(editor.picture[r].len() == 5);
        }
    }
}

/// The tree editor.
pub struct Editor {
    pub state: EditorState,
    pub cells: Vec<Vec<Cell>>,
    pub name: Vec<char>,
    pub l_tree: usize,
    pub c_tree: usize,
    pub brush: Cell,
    pub str_cursor: usize,
    pub banner: String,
    pub exit_program: bool,
}

impl View for Editor {
    type V = EditorView;

    open spec fn view(&self) -> EditorView {
        EditorView {
            naming: self.state == EditorState::NameTree,
            picture: grid_of(self.cells@),
            name: self.name@,
            line: self.l_tree as int,
            column: self.c_tree as int,
            brush: self.brush,
            cursor: self.str_cursor as int,
            banner: self.banner@,
            done: self.exit_program,
        }
    }
}

/// A colour as it is shown beside the brush, behind `label`.
fn labelled_rgb(label: &str, rgb: (u8, u8, u8)) -> (text: String)
    ensures
        text@ == label@ + rgb_text(rgb),
{
    let mut text = label.to_owned();
    text.push('(');
    push_decimal(&mut text, rgb.0 as u64);
    text.append(", ");
    push_decimal(&mut text, rgb.1 as u64);
    text.append(", ");
    push_decimal(&mut text, rgb.2 as u64);
    text.push(')');
    assert(text@ =~= label@ + rgb_text(rgb));
    text
}

impl Editor {
    /// Whether the editor's numbers are in their ranges.
    pub open spec fn wf(&self) -> bool {
        self@.wf()
    }

    /// An editor at its start: a blank tree without a name is to be painted,
    /// with a blank brush, from the top-left cell.
    pub fn new() -> (editor: Editor)
        ensures
            editor.wf(),
            editor@ == (EditorView {
                naming: false,
                picture: Seq::new(5, |l: int| Seq::new(5, |c: int| Cell::blank())),
                name: Seq::<char>::empty(),
                line: 0,
                column: 0,
                brush: Cell::blank(),
                cursor: 0,
                banner: NAME_TREE@,
                done: false,
            }),
    {
        let blank = Tree::default();
        Editor {
            state: EditorState::EditTree,
            cells: blank.cells,
            name: Vec::new(),
            l_tree: 0,
            c_tree: 0,
            brush: Cell::default(),
            str_cursor: 0,
            banner: NAME_TREE.to_owned(),
            exit_program: false,
        }
    }

    /// The tree as it is now.
    pub fn tree(&self) -> (tree: Tree)
        requires
            self.wf(),
        ensures
            tree.wf(),
            tree@ == (TreeView { picture: self@.picture, name: self@.name }),
    {
        let mut cells: Vec<Vec<Cell>> = Vec::new();
        let mut l: usize = 0;
        while l < 5
            invariant
                self.wf(),
                l <= 5,
                cells@.len() == l,
                forall|i: int| 0 <= i < l ==> (#[trigger] cells@[i])@ == self@.picture[i],
            decreases 5 - l,
        {
            let mut line: Vec<Cell> = Vec::new();
            let mut c: usize = 0;
            while c < 5
                invariant
                    self.wf(),
                    l < 5,
                    c <= 5,
                    line@.len() == c,
                    forall|j: int| 0 <= j < c ==> line@[j] == self@.picture[l as int][j],
                decreases 5 - c,
            {
                assert(self@.picture[l as int].len() == 5);
                line.push(self.cells[l][c]);
                c = c + 1;
            }
            assert(self@.picture[l as int].len() == 5);
            assert(line@ =~= self@.picture[l as int]);
            cells.push(line);
            l = l + 1;
        }
        assert(grid_of(cells@) =~= self@.picture);
        Tree { cells, name: string_of(&self.name) }
    }

    /// Take a key that was pressed.
    pub fn pressed(&mut self, key: Key)
        requires
            old(self).wf(),
        ensures
            final(self).wf(),
            final(self)@ == old(self)@.after(key),
    {
        let naming = self.state == EditorState::NameTree;
        match key {
            Key::Ctrl(c) => {
                if c == 'c' {
                    self.exit_program = true;
                }
            },
            Key::Char(x) => {
                if x == '\n' {
                    if !naming {
                        self.state = EditorState::NameTree;
                    } else if self.name.len() == 0 {
                        self.banner = NAME_MISSING.to_owned();
                    } else {
                        self.exit_program = true;
                    }
                } else if !naming {
                    if self.l_tree < 5 {
                        self.brush.symbol = x;
                        assert(self@.picture[self.l_tree as int].len() == 5);
                        let brush = self.brush;
                        self.cells[self.l_tree][self.c_tree] = brush;
                        assert(self@.picture =~~= old(self)@.after(key).picture);
                    }
                } else if name_char(x) {
                    self.name.insert(self.str_cursor, x);
                    let len = self.name.len();
                    assert(self.str_cursor < len);
                    self.str_cursor = self.str_cursor + 1;
                }
            },
            Key::Up => {
                if !naming {
                    if self.l_tree == 0 {
                        self.l_tree = 10;
                    } else {
                        self.l_tree = self.l_tree - 1;
                    }
                }
            },
            Key::Down => {
                if !naming {
                    self.l_tree = (self.l_tree + 1) % 11;
                }
            },
            Key::Left => {
                if !naming {
                    if self.l_tree < 5 {
                        if self.c_tree == 0 {
                            self.c_tree = 4;
                        } else {
                            self.c_tree = self.c_tree - 1;
                        }
                    } else if self.l_tree == 5 {
                        if self.brush.bg.0 > 0 {
                            self.brush.bg.0 = self.brush.bg.0 - 1;
                        }
                    } else if self.l_tree == 6 {
                        if self.brush.bg.1 > 0 {
                            self.brush.bg.1 = self.brush.bg.1 - 1;
                        }
                    } else if self.l_tree == 7 {
                        if self.brush.bg.2 > 0 {
                            self.brush.bg.2 = self.brush.bg.2 - 1;
                        }
                    } else if self.l_tree == 8 {
                        if self.brush.fg.0 > 0 {
                            self.brush.fg.0 = self.brush.fg.0 - 1;
                        }
                    } else if self.l_tree == 9 {
                        if self.brush.fg.1 > 0 {
                            self.brush.fg.1 = self.brush.fg.1 - 1;
                        }
                    } else {
                        if self.brush.fg.2 > 0 {
                            self.brush.fg.2 = self.brush.fg.2 - 1;
                        }
                    }
                } else if self.str_cursor > 0 {
                    self.str_cursor = self.str_cursor - 1;
                }
            },
            Key::Right => {
                if !naming {
                    if self.l_tree < 5 {
                        self.c_tree = (self.c_tree + 1) % 5;
                    } else if self.l_tree == 5 {
                        if self.brush.bg.0 < 255 {
                            self.brush.bg.0 = self.brush.bg.0 + 1;
                        }
                    } else if self.l_tree == 6 {
                        if self.brush.bg.1 < 255 {
                            self.brush.bg.1 = self.brush.bg.1 + 1;
                        }
                    } else if self.l_tree == 7 {
                        if self.brush.bg.2 < 255 {
                            self.brush.bg.2 = self.brush.bg.2 + 1;
                        }
                    } else if self.l_tree == 8 {
                        if self.brush.fg.0 < 255 {
                            self.brush.fg.0 = self.brush.fg.0 + 1;
                        }
                    } else if self.l_tree == 9 {
                        if self.brush.fg.1 < 255 {
                            self.brush.fg.1 = self.brush.fg.1 + 1;
                        }
                    } else {
                        if self.brush.fg.2 < 255 {
                            self.brush.fg.2 = self.brush.fg.2 + 1;
                        }
                    }
                } else if self.str_cursor < self.name.len() {
                    self.str_cursor = self.str_cursor + 1;
                }
            },
            Key::Backspace => {
                if naming && self.str_cursor > 0 {
                    self.str_cursor = self.str_cursor - 1;
                    self.name.remove(self.str_cursor);
                }
            },
            Key::Delete => {
                if naming && self.str_cursor < self.name.len() {
                    self.name.remove(self.str_cursor);
                }
            },
            Key::Other => {},
        }
    }

    /// Draw the editor for a terminal of `width` columns and `height` rows.
    pub fn draw(&mut self, display: &mut Display, width: usize, height: usize)
        requires
            old(self).wf(),
            old(display).wf(),
        ensures
            final(self).wf(),
            final(display).wf(),
            final(self)@ == old(self)@.shown(width as int, height as int),
            final(display)@ == old(self)@.drawn(old(display)@, width as int, height as int),
    {
        let white = Cell::bg(255, 255, 255);
        let plain = Cell::new(0, 0, 0, 255, 255, 255, ' ');
        display.clear_screen(Cell::default());
        if height < 22 || width < 30 {
            if width > 0 {
                display.fit_string_to_box_hard_wrap(1, 1, width, height, plain, SMALL_SCREEN_ERROR);
            }
        } else if self.state == EditorState::EditTree {
            display.fill_rect(1, 1, 1, width, white);
            display.fill_rect(height, 1, height, width, white);
            display.fill_rect(1, 8, height, 9, white);
            display.fill_rect(2, 1, 2, 7, white);
            display.fill_rect(2, 1, 8, 1, white);
            display.fill_rect(8, 1, 8, 7, white);
            display.fill_rect(2, 7, 8, 7, white);
            display.draw_picture(3, 2, &self.cells);
            display.draw_string(9, 1, plain, "BG");
            display.draw_string(10, 1, plain, "Red");
            display.draw_string(11, 1, plain, "Green");
            display.draw_string(12, 1, plain, "Blue");
            display.draw_string(15, 1, plain, "FG");
            display.draw_string(16, 1, plain, "Red");
            display.draw_string(17, 1, plain, "Green");
            display.draw_string(18, 1, plain, "Blue");
            if self.l_tree < 5 {
                let mut cursor_brush = self.brush;
                cursor_brush.fg = (255, 255, 255);
                cursor_brush.symbol = '*';
                display.draw_pixel(self.l_tree + 3, self.c_tree + 2, cursor_brush);
            } else if 5 <= self.l_tree && self.l_tree <= 7 {
                display.draw_string(5 + self.l_tree, 6, plain, "<>");
            } else {
                display.draw_string(8 + self.l_tree, 6, plain, "<>");
            }
            display.fit_string_to_box(2, 10, width - 9, height - 2, plain, INSTRUCTIONS);
            self.brush.symbol = ' ';
            let brush = self.brush;
            display.fill_rect(height - 1, 10, height - 1, 11, brush);
            display.draw_string(height - 1, 12, plain, labelled_rgb("BG: ", brush.bg).as_str());
            display.fill_rect(
                height - 2,
                10,
                height - 2,
                11,
                Cell::bg(brush.fg.0, brush.fg.1, brush.fg.2),
            );
            display.draw_string(height - 2, 12, plain, labelled_rgb("FG: ", brush.fg).as_str());
        } else {
            display.fill_rect(1, 1, 1, width, white);
            display.fill_rect(6, 1, 6, width, white);
            display.fill_rect(height, 1, height, width, white);
            display.fill_rect(1, 1, height, 1, white);
            display.fill_rect(1, width, height, width, white);
            display.fit_string_to_box(2, 2, width - 2, 4, plain, self.banner.as_str());
            display.fit_string_to_box_hard_wrap(
                7,
                2,
                width - 2,
                height - 6,
                plain,
                string_of(&self.name).as_str(),
            );
            let curs_lin = (self.str_cursor / (width - 2)) as u128 + 7;
            let curs_col = (self.str_cursor % (width - 2)) as u128 + 2;
            display.draw_pixel_at(curs_lin, curs_col, white);
        }
    }
}

} // verus!
