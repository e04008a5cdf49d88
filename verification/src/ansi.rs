//! The escape sequences that put cells on a terminal: cursor positioning and
//! 24-bit colours. The sequences themselves come from `termion`.

use vstd::prelude::*;
use vstd::string::StringExecFns;
use crate::display::Paint;
use crate::number::decimal;

verus! {

/// The sequence that moves the cursor to row `row`, column `col`.
pub open spec fn goto_sequence(row: u16, col: u16) -> Seq<char> {
    "\x1B["@ + decimal(row as nat) + ";"@ + decimal(col as nat) + "H"@
}

/// The three channels of a colour as they stand in a colour sequence.
pub open spec fn channels(rgb: (u8, u8, u8)) -> Seq<char> {
    decimal(rgb.0 as nat) + ";"@ + decimal(rgb.1 as nat) + ";"@ + decimal(rgb.2 as nat)
}

/// The sequence that sets the foreground colour.
pub open spec fn fg_sequence(rgb: (u8, u8, u8)) -> Seq<char> {
    "\x1B[38;2;"@ + channels(rgb) + "m"@
}

/// The sequence that sets the background colour.
pub open spec fn bg_sequence(rgb: (u8, u8, u8)) -> Seq<char> {
    "\x1B[48;2;"@ + channels(rgb) + "m"@
}

/// `String::from` for `termion::cursor::Goto`: the escape character and `[`,
/// the row in decimal, `;`, the column in decimal, `H`.
#[verifier::external_body]
pub(crate) fn goto(row: u16, col: u16) -> (text: String)
    ensures
        text@ == goto_sequence(row, col),
{
    String::from(termion::cursor::Goto(col, row))
}

/// `termion::color::Rgb::fg_string`: the escape character and `[38;2;`, the
/// three channels in decimal with `;` between them, `m`.
#[verifier::external_body]
pub(crate) fn fg(rgb: (u8, u8, u8)) -> (text: String)
    ensures
        text@ == fg_sequence(rgb),
{
    termion::color::Rgb(rgb.0, rgb.1, rgb.2).fg_string()
}

/// `termion::color::Rgb::bg_string`: as `fg_string`, with `[48;2;`.
#[verifier::external_body]
pub(crate) fn bg(rgb: (u8, u8, u8)) -> (text: String)
    ensures
        text@ == bg_sequence(rgb),
{
    termion::color::Rgb(rgb.0, rgb.1, rgb.2).bg_string()
}

/// What `termion::clear::All` displays as: the sequence that clears the
/// whole screen.
#[verifier::external_body]
pub(crate) fn clear_all() -> (text: String)
    ensures
        text@ == "\x1B[2J"@,
{
    format!("{}", termion::clear::All)
}

/// `termion::color::Reset::fg_str`: the sequence that gives the foreground
/// its default colour back.
#[verifier::external_body]
pub(crate) fn reset_fg() -> (text: &'static str)
    ensures
        text@ == "\x1B[39m"@,
{
    termion::color::Reset.fg_str()
}

/// `termion::color::Reset::bg_str`: the sequence that gives the background
/// its default colour back.
#[verifier::external_body]
pub(crate) fn reset_bg() -> (text: &'static str)
    ensures
        text@ == "\x1B[49m"@,
{
    termion::color::Reset.bg_str()
}

impl Paint {
    /// The characters that put this cell on the terminal: the cursor is
    /// moved, both colours are set, and the cell's character follows.
    pub open spec fn sequence(self) -> Seq<char> {
        goto_sequence(self.row, self.col) + fg_sequence(self.cell.fg) + bg_sequence(self.cell.bg)
            + seq![self.cell.symbol]
    }

    /// The text to send to the terminal for this write.
    pub fn to_sequence(&self) -> (text: String)
        ensures
            text@ == self.sequence(),
    {
        let mut text = goto(self.row, self.col);
        text.append(fg(self.cell.fg).as_str());
        text.append(bg(self.cell.bg).as_str());
        text.push(self.cell.symbol);
        text
    }
}

/// The sequences of `paints`, one after the other.
pub open spec fn rendered(paints: Seq<Paint>) -> Seq<char>
    decreases paints.len(),
{
    if paints.len() == 0 {
        Seq::empty()
    } else {
        rendered(paints.drop_last()) + paints.last().sequence()
    }
}

/// A flush that writes nothing sends nothing, and a flush that writes one
/// cell sends that cell's sequence: a cursor move, two colours and a
/// character.
pub proof fn lemma_rendered_writes(paint: Paint)
    ensures
        rendered(Seq::<Paint>::empty()) == Seq::<char>::empty(),
        rendered(seq![paint]) == paint.sequence(),
{
    let one = seq![paint];
    assert(one.drop_last().len() == 0);
    assert(rendered(one.drop_last()) =~= Seq::<char>::empty());
    assert(one.last() == paint);
    assert(rendered(one) =~= paint.sequence());
}

/// The text to send to the terminal for the writes of a flush.
pub fn render(paints: &Vec<Paint>) -> (text: String)
    ensures
        text@ == rendered(paints@),
{
    let mut text = String::new();
    let mut i: usize = 0;
    while i < paints.len()
        invariant
            i <= paints@.len(),
            text@ == rendered(paints@.take(i as int)),
        decreases paints@.len() - i,
    {
        assert(paints@.take(i + 1).drop_last() =~= paints@.take(i as int));
        text.append(paints[i].to_sequence().as_str());
        i = i + 1;
    }
    assert(paints@.take(i as int) =~= paints@);
    text
}

/// The text that makes a terminal black all over: black as both colours,
/// then a cleared screen.
pub fn blank_screen() -> (text: String)
    ensures
        text@ == fg_sequence((0, 0, 0)) + bg_sequence((0, 0, 0)) + "\x1B[2J"@,
{
    let mut text = fg((0, 0, 0));
    text.append(bg((0, 0, 0)).as_str());
    text.append(clear_all().as_str());
    text
}

} // verus!
