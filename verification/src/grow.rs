//! Growing a tree: the time that it takes, the words of encouragement on
//! the way, and the screen that shows the tree while it grows.

use std::str::FromStr;
use vstd::prelude::*;
use vstd::string::StringExecFns;
use crate::cell::Cell;
use crate::display::{Display, Frame};
use crate::layout::Rect;
use crate::number::{decimal, parse_u64, parse_u64_spec, push_decimal, push_two_digits, two_digits};
use crate::text::{chars_of, split, split_chars, views};
use crate::tree::{Tree, TreeView};

verus! {

/// The amount of time used to grow a tree: hours and minutes.
#[derive(Clone, Copy, Debug, PartialEq, Eq)]
pub struct GrowthTime {
    pub h: u64,
    pub m: u64,
}

impl GrowthTime {
    /// The amount of time in minutes, as mathematics.
    pub open spec fn minutes(&self) -> int {
        self.h * 60 + self.m
    }

    /// Returns the amount of minutes equivalent to the GrowthTime.
    pub fn to_min(&self) -> (min: u64)
        requires
            self.minutes() <= u64::MAX,
        ensures
            min == self.minutes(),
    {
        return self.h * 60 + self.m;
    }

    /// The amount of time in seconds, as mathematics.
    pub open spec fn seconds(&self) -> int {
        self.h * 3600 + self.m * 60
    }

    /// Returns the amount of seconds equivalent to the GrowthTime.
    pub fn to_secs(&self) -> (secs: u64)
        requires
            self.seconds() <= u64::MAX,
        ensures
            secs == self.seconds(),
    {
        self.h * 60 * 60 + self.m * 60
    }

    /// Whether the time is long enough to count in a `u64`, in minutes and
    /// in seconds.
    pub fn is_countable(&self) -> (countable: bool)
        ensures
            countable == (self.seconds() <= u64::MAX),
            countable ==> self.minutes() <= u64::MAX,
    {
        self.h <= u64::MAX / 3600 && self.m <= (u64::MAX - self.h * 3600) / 60
    }

    /// What `text` means as a time: hours and minutes with a colon between
    /// them, each a whole number; or why it is no time.
    pub open spec fn parse_spec(text: Seq<char>) -> Result<GrowthTime, Seq<char>> {
        let parts = split(text, ':');
        if parts.len() != 2 {
            Err("Failed to parse time: incorrect number of components"@)
        } else {
            match parse_u64_spec(parts[0]) {
                Err(e) => Err("Failed to parse time (hh): "@ + e.text()),
                Ok(h) => match parse_u64_spec(parts[1]) {
                    Err(e) => Err("Failed to parse time (mm): "@ + e.text()),
                    Ok(m) => Ok(GrowthTime { h, m }),
                },
            }
        }
    }

    /// Parse a time duration from a string.
    pub fn parse(s: &str) -> (r: Result<GrowthTime, String>)
        ensures
            match GrowthTime::parse_spec(s@) {
                Ok(time) => r == Ok::<GrowthTime, String>(time),
                Err(words) => r is Err && r->Err_0@ == words,
            },
    {
        let chars = chars_of(s);
        GrowthTime::parse_chars(&chars)
    }

    /// Parse a time duration from the characters of a string.
    pub fn parse_chars(chars: &Vec<char>) -> (r: Result<GrowthTime, String>)
        ensures
            match GrowthTime::parse_spec(chars@) {
                Ok(time) => r == Ok::<GrowthTime, String>(time),
                Err(words) => r is Err && r->Err_0@ == words,
            },
    {
        let parts = split_chars(chars, ':');
        assert(views(parts@).len() == parts@.len());
        if parts.len() != 2 {
            return Err("Failed to parse time: incorrect number of components".to_owned());
        }
        assert(views(parts@)[0] == parts@[0]@);
        assert(views(parts@)[1] == parts@[1]@);
        let hh: u64 = match parse_u64(&parts[0]) {
            Ok(x) => x,
            Err(x) => {
                return Err("Failed to parse time (hh): ".to_owned().concat(x.message()));
            },
        };
        let mm: u64 = match parse_u64(&parts[1]) {
            Ok(x) => x,
            Err(x) => {
                return Err("Failed to parse time (mm): ".to_owned().concat(x.message()));
            },
        };
        Ok(GrowthTime { h: hh, m: mm })
    }

    /// The time as it is written: the hours, a colon and the minutes.
    pub open spec fn text(&self) -> Seq<char> {
        decimal(self.h as nat) + seq![':'] + decimal(self.m as nat)
    }

    /// Convert a time duration to a string.
    pub fn to_string(&self) -> (text: String)
        ensures
            text@ == self.text(),
    {
        let mut text = String::new();
        push_decimal(&mut text, self.h);
        text.push(':');
        push_decimal(&mut text, self.m);
        assert(text@ =~= self.text());
        text
    }
}

impl FromStr for GrowthTime {
    type Err = String;

    /// Parse a time duration from a string.
    fn from_str(s: &str) -> (r: Result<Self, Self::Err>)
        ensures
            match GrowthTime::parse_spec(s@) {
                Ok(time) => r == Ok::<GrowthTime, String>(time),
                Err(words) => r is Err && r->Err_0@ == words,
            },
    {
        GrowthTime::parse(s)
    }
}

/// Error message when the screen is too small.
pub const GROW_SMALL_SCREEN_ERROR: &'static str =
    "The screen is too small, so the editor cannot be displayed properly. Make it larger (at least 25x26)";

/// The first of the positive messages that are displayed each 5 minutes.
pub const POSITIVE_1: &'static str = "You're doing great, keep it up!";

/// The second of the positive messages.
pub const POSITIVE_2: &'static str = "You're getting closed, good job!";

/// The third of the positive messages.
pub const POSITIVE_3: &'static str = "Why are you reading this? Get back to work!";

/// The green that the growing screen is cleared with and written on.
pub open spec fn background_green_spec() -> Cell {
    Cell { bg: (30u8, 110u8, 0u8), fg: (255u8, 255u8, 255u8), symbol: ' ' }
}

/// The green that the growing screen is cleared with and written on.
#[verifier::when_used_as_spec(background_green_spec)]
pub fn background_green() -> (cell: Cell)
    ensures
        cell == background_green_spec(),
{
    Cell { bg: (30, 110, 0), fg: (255, 255, 255), symbol: ' ' }
}

/// The brown of the borders on the growing screen.
pub open spec fn forest_borders_spec() -> Cell {
    Cell { bg: (50u8, 30u8, 0u8), fg: (0u8, 0u8, 0u8), symbol: ' ' }
}

/// The brown of the borders on the growing screen.
#[verifier::when_used_as_spec(forest_borders_spec)]
pub fn forest_borders() -> (cell: Cell)
    ensures
        cell == forest_borders_spec(),
{
    Cell { bg: (50, 30, 0), fg: (0, 0, 0), symbol: ' ' }
}

/// The positive message that a number picks: one of three, by the number's
/// remainder.
pub open spec fn positive_spec(pick: usize) -> Seq<char> {
    if pick % 3 == 0 {
        POSITIVE_1@
    } else if pick % 3 == 1 {
        POSITIVE_2@
    } else {
        POSITIVE_3@
    }
}

/// The positive message that a number picks.
pub fn positive(pick: usize) -> (message: &'static str)
    ensures
        message@ == positive_spec(pick),
{
    if pick % 3 == 0 {
        POSITIVE_1
    } else if pick % 3 == 1 {
        POSITIVE_2
    } else {
        POSITIVE_3
    }
}

/// A number from `rand`'s generator of the running thread: any number.
#[verifier::external_body]
fn random_pick() -> (pick: usize) {
    rand::Rng::gen::<usize>(&mut rand::thread_rng())
}

/// Which words are due when `remaining` seconds are left and the last words
/// were said when `last` seconds were left.
pub enum Due {
    /// Nothing new is to be said.
    Nothing,
    /// A whole number of hours is left: so many.
    Hours(u64),
    /// Less than an hour and a multiple of ten minutes is left: so many
    /// minutes.
    Minutes(u64),
    /// Another multiple of five minutes is left.
    Positive,
}

/// Which words are due with `remaining` seconds left.
pub open spec fn due(last: u64, remaining: u64) -> Due {
    if remaining < last && remaining >= 3600 && remaining % 3600 == 0 {
        Due::Hours(remaining / 3600)
    } else if remaining < last && remaining < 3600 && remaining % 600 == 0 {
        Due::Minutes(remaining / 60)
    } else if remaining < last && remaining % 300 == 0 {
        Due::Positive
    } else {
        Due::Nothing
    }
}

/// The words that are said, where `pick` picks the positive message.
pub open spec fn words(due: Due, pick: usize) -> Seq<char> {
    match due {
        Due::Nothing => Seq::empty(),
        Due::Hours(hours) => "Hang in there! You got "@ + decimal(hours as nat) + "h left!"@,
        Due::Minutes(minutes) => "You're close! You got "@ + decimal(minutes as nat) + "m left!"@,
        Due::Positive => positive_spec(pick),
    }
}

/// The time left as a clock shows it: hours, minutes and seconds, each at
/// least two digits wide.
pub open spec fn clock_spec(remaining: u64) -> Seq<char> {
    two_digits((remaining / 3600) as nat) + seq![':'] + two_digits((remaining / 60 % 60) as nat)
        + seq![':'] + two_digits((remaining % 60) as nat)
}

/// The time left as a clock shows it.
pub fn clock(remaining: u64) -> (text: String)
    ensures
        text@ == clock_spec(remaining),
{
    let mut text = String::new();
    push_two_digits(&mut text, remaining / 3600);
    text.push(':');
    push_two_digits(&mut text, remaining / 60 % 60);
    text.push(':');
    push_two_digits(&mut text, remaining % 60);
    assert(text@ =~= clock_spec(remaining));
    text
}

/// What is remembered while a tree grows: the seconds that were left when
/// the last words were said, and those words.
pub struct Growth {
    pub last_positivity: u64,
    pub positive_message: String,
}

impl Growth {
    /// The start of a growth that takes `seconds` seconds: nothing was said
    /// yet.
    pub fn new(seconds: u64) -> (growth: Growth)
        ensures
            growth.last_positivity == seconds,
            growth.positive_message@ == Seq::<char>::empty(),
    {
        Growth { last_positivity: seconds, positive_message: String::new() }
    }

    /// Take note that `remaining` seconds are left, with `pick` to pick the
    /// positive message where one is due. The result says whether there are
    /// new words.
    pub fn cheer(&mut self, remaining: u64, pick: usize) -> (said: bool)
        ensures
            said == !(due(old(self).last_positivity, remaining) is Nothing),
            said ==> final(self).last_positivity == remaining && final(self).positive_message@
                == words(due(old(self).last_positivity, remaining), pick),
            !said ==> final(self).last_positivity == old(self).last_positivity,
            !said ==> final(self).positive_message@ == old(self).positive_message@,
    {
        if remaining < self.last_positivity && remaining >= 3600 && remaining % 3600 == 0 {
            self.last_positivity = remaining;
            let mut message = "Hang in there! You got ".to_owned();
            push_decimal(&mut message, remaining / 3600);
            message.append("h left!");
            self.positive_message = message;
            true
        } else if remaining < self.last_positivity && remaining < 3600 && remaining % (10 * 60)
            == 0 {
            self.last_positivity = remaining;
            let mut message = "You're close! You got ".to_owned();
            push_decimal(&mut message, remaining / 60);
            message.append("m left!");
            self.positive_message = message;
            true
        } else if remaining < self.last_positivity && remaining % (5 * 60) == 0 {
            self.last_positivity = remaining;
            self.positive_message = positive(pick).to_owned();
            true
        } else {
            false
        }
    }

    /// Take note that `remaining` seconds are left. Where a positive message
    /// is due, one of the three is picked at random. The result says whether
    /// there are new words.
    pub fn tick(&mut self, remaining: u64) -> (said: bool)
        ensures
            said == !(due(old(self).last_positivity, remaining) is Nothing),
            said ==> final(self).last_positivity == remaining && exists|pick: usize|
                final(self).positive_message@ == #[trigger] words(
                    due(old(self).last_positivity, remaining),
                    pick,
                ),
            !said ==> final(self).last_positivity == old(self).last_positivity,
            !said ==> final(self).positive_message@ == old(self).positive_message@,
    {
        let pick = if remaining < self.last_positivity && remaining % (5 * 60) == 0 {
            random_pick()
        } else {
            0
        };
        let said = self.cheer(remaining, pick);
        assert(said ==> self.positive_message@ == words(
            due(old(self).last_positivity, remaining),
            pick,
        ));
        said
    }
}

impl Frame {
    /// The growing screen on a terminal of `width` columns and `height`
    /// rows: the borders, the tree in its box, the words of encouragement
    /// below and the time left above. On a terminal smaller than 25 columns
    /// or 26 rows there is only a notice that says so.
    pub open spec fn grow_screen(
        self,
        width: int,
        height: int,
        tree: TreeView,
        message: Seq<char>,
        remaining: u64,
    ) -> Frame {
        let green = background_green_spec();
        let brown = forest_borders_spec();
        let cleared = self.clear(green);
        if width < 25 || height < 26 {
            cleared.hard_wrap(
                Rect { row: 1, col: 1, width: width as nat, height: height as nat },
                green,
                GROW_SMALL_SCREEN_ERROR@,
            )
        } else {
            let middle = (width + 1) / 2;
            cleared.fill(1, 1, height, 1, brown).fill(1, width, height, width, brown).fill(
                1,
                middle,
                height - 8,
                middle,
                brown,
            ).fill(1, 1, 1, width, brown).fill(height, 1, height, width, brown).fill(
                height - 7,
                1,
                height - 7,
                width,
                brown,
            ).fill(9, 1, 9, width, brown).fill(6, middle - 3, 6, middle + 3, brown).fill(
                6,
                middle - 3,
                12,
                middle - 3,
                brown,
            ).fill(12, middle - 3, 12, middle + 3, brown).fill(
                6,
                middle + 3,
                12,
                middle + 3,
                brown,
            ).draw_picture(7, middle - 2, tree.picture).word_wrap(
                Rect { row: (height - 6) as nat, col: 2, width: (width - 2) as nat, height: 6 },
                green,
                message,
            ).draw_string(3, 3, green, "left:"@).draw_string(4, 3, green, clock_spec(remaining))
        }
    }
}

/// Draw the growing screen for a terminal of `width` columns and `height`
/// rows: the tree that grows, the words of encouragement and the seconds
/// that are left.
pub fn grow_screen(
    display: &mut Display,
    width: usize,
    height: usize,
    tree: &Tree,
    message: &str,
    remaining: u64,
)
    requires
        old(display).wf(),
        tree.wf(),
    ensures
        final(display).wf(),
        final(display)@ == old(display)@.grow_screen(
            width as int,
            height as int,
            tree@,
            message@,
            remaining,
        ),
{
    let green = background_green();
    let brown = forest_borders();
    display.clear_screen(green);
    if width < 25 || height < 26 {
        display.fit_string_to_box_hard_wrap(1, 1, width, height, green, GROW_SMALL_SCREEN_ERROR);
    } else {
        let middle_col = (width - 1) / 2 + 1;
        assert(middle_col == (width + 1) / 2);
        display.fill_rect(1, 1, height, 1, brown);
        display.fill_rect(1, width, height, width, brown);
        display.fill_rect(1, middle_col, height - 8, middle_col, brown);
        display.fill_rect(1, 1, 1, width, brown);
        display.fill_rect(height, 1, height, width, brown);
        display.fill_rect(height - 7, 1, height - 7, width, brown);
        display.fill_rect(9, 1, 9, width, brown);
        display.fill_rect(6, middle_col - 3, 6, middle_col + 3, brown);
        display.fill_rect(6, middle_col - 3, 12, middle_col - 3, brown);
        display.fill_rect(12, middle_col - 3, 12, middle_col + 3, brown);
        display.fill_rect(6, middle_col + 3, 12, middle_col + 3, brown);
        display.draw_picture(7, middle_col - 2, &tree.cells);
        display.fit_string_to_box(height - 6, 2, width - 2, 6, green, message);
        display.draw_string(3, 3, green, "left:");
        display.draw_string(4, 3, green, clock(remaining).as_str());
    }
}

/// What is said of a tree that costs `cost` minutes where less time is
/// given.
pub open spec fn refusal(cost: u64) -> Seq<char> {
    "This tree is too expsensive. It needs more time ("@ + two_digits((cost / 60) as nat) + seq![
        ':',
    ] + two_digits((cost % 60) as nat) + ") to grow."@
}

/// Whether `time` is too short for `tree` to grow: if so, the words that say
/// how much time the tree needs.
pub fn too_expensive(time: &GrowthTime, tree: &Tree) -> (words: Option<String>)
    requires
        tree.wf(),
        time.minutes() <= u64::MAX,
    ensures
        words is Some <==> time.minutes() < tree.cost_spec(),
        words matches Some(text) ==> text@ == refusal(tree.cost_spec() as u64),
{
    let tree_cost = tree.cost();
    if time.to_min() < tree_cost {
        let mut text = "This tree is too expsensive. It needs more time (".to_owned();
        push_two_digits(&mut text, tree_cost / 60);
        text.push(':');
        push_two_digits(&mut text, tree_cost % 60);
        text.append(") to grow.");
        assert(text@ =~= refusal(tree_cost));
        Some(text)
    } else {
        None
    }
}

} // verus!
