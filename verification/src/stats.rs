//! The trees that have grown: what is kept of every period of work that was
//! seen through.
//!
//! A grown tree is written on one line, as
//! `<hours>:<minutes>/<label>/<timestamp>/<tree>`.

use std::str::FromStr;
use vstd::prelude::*;
use vstd::string::StringExecFns;
use crate::grow::GrowthTime;
use crate::ansi::{bg, bg_sequence, fg_sequence, reset_bg, reset_fg};
use crate::collection::random_order;
use crate::cell::Cell;
use crate::number::{
    parse_i64, parse_i64_spec, parse_u64, parse_u64_spec, push_signed, push_two_digits,
    signed_decimal, two_digits,
};
use crate::text::{chars_of, same, split, split_chars, string_of, texts_of, views};
use crate::tree::{Tree, TreeView};

verus! {

/// This holds all the data of an already grown tree. The data refers to how
/// much the tree has grown in minutes, the tree itself, its label and the
/// date it was grown.
#[derive(Debug)]
pub struct GrownTree {
    pub duration: u64,
    pub tree: Tree,
    pub label: String,
    pub timestamp: i64,
}

/// A grown tree as mathematics.
pub struct GrownView {
    pub duration: u64,
    pub tree: TreeView,
    pub label: Seq<char>,
    pub timestamp: i64,
}

impl View for GrownTree {
    type V = GrownView;

    open spec fn view(&self) -> GrownView {
        GrownView {
            duration: self.duration,
            tree: self.tree@,
            label: self.label@,
            timestamp: self.timestamp,
        }
    }
}

/// The grown trees that the texts in `texts` are, in order. A text that is
/// no grown tree is passed over.
pub open spec fn grown(texts: Seq<Seq<char>>) -> Seq<GrownView>
    decreases texts.len(),
{
    if texts.len() == 0 {
        Seq::empty()
    } else {
        let before = grown(texts.drop_last());
        match GrownTree::parse_spec(texts.last()) {
            Ok(tree) => before.push(tree),
            Err(_) => before,
        }
    }
}

/// Why the texts in `texts` that are no grown trees are none, in order.
pub open spec fn refused(texts: Seq<Seq<char>>) -> Seq<Seq<char>>
    decreases texts.len(),
{
    if texts.len() == 0 {
        Seq::empty()
    } else {
        let before = refused(texts.drop_last());
        match GrownTree::parse_spec(texts.last()) {
            Ok(_) => before,
            Err(words) => before.push(words),
        }
    }
}

/// The line that is kept of a tree that has grown.
pub open spec fn stats_line_spec(
    time: GrowthTime,
    label: Seq<char>,
    timestamp: i64,
    tree: TreeView,
) -> Seq<char> {
    time.text() + seq!['/'] + label + seq!['/'] + signed_decimal(timestamp as int) + seq!['/']
        + tree.text() + seq!['\n']
}

/// The line that is kept of a tree that has grown: the time it took, the
/// label, the moment and the tree.
pub fn stats_line(time: &GrowthTime, label: &str, timestamp: i64, tree: &Tree) -> (line: String)
    requires
        tree.wf(),
    ensures
        line@ == stats_line_spec(*time, label@, timestamp, tree@),
{
    let mut line = time.to_string();
    line.push('/');
    line.append(label);
    line.push('/');
    push_signed(&mut line, timestamp);
    line.push('/');
    line.append(tree.to_string().as_str());
    line.push('\n');
    assert(line@ =~= stats_line_spec(*time, label@, timestamp, tree@));
    line
}

impl GrownTree {
    /// Whether the grown tree's tree has 5 rows of 5 cells.
    pub open spec fn wf(&self) -> bool {
        self.tree.wf()
    }

    /// What `text` means as a grown tree: four parts with `/` between them,
    /// the time in hours and minutes, the label, the timestamp and the tree;
    /// or why it is no grown tree.
    pub open spec fn parse_spec(text: Seq<char>) -> Result<GrownView, Seq<char>> {
        let tokens = split(text, '/');
        if tokens.len() != 4 {
            Err("Failed to parse stats: wrong number of tokens"@)
        } else {
            match GrowthTime::parse_spec(tokens[0]) {
                Err(words) => Err(words),
                Ok(time) => if time.minutes() > u64::MAX {
                    Err("Failed to parse stats: duration out of range"@)
                } else {
                    match parse_i64_spec(tokens[2]) {
                        Err(e) => Err("Failed to parse stats: "@ + e.text()),
                        Ok(timestamp) => match Tree::import_spec(tokens[3]) {
                            None => Err("The tree does not respect the format"@),
                            Some(tree) => Ok(
                                GrownView {
                                    duration: time.minutes() as u64,
                                    tree,
                                    label: tokens[1],
                                    timestamp,
                                },
                            ),
                        },
                    }
                },
            }
        }
    }

    /// Parse this struct from a string that respects the format.
    pub fn parse(s: &str) -> (r: Result<GrownTree, String>)
        ensures
            match GrownTree::parse_spec(s@) {
                Ok(tree) => r is Ok && r->Ok_0.wf() && r->Ok_0@ == tree,
                Err(words) => r is Err && r->Err_0@ == words,
            },
    {
        let chars = chars_of(s);
        let tokens = split_chars(&chars, '/');
        assert(views(tokens@).len() == tokens@.len());
        if tokens.len() != 4 {
            return Err("Failed to parse stats: wrong number of tokens".to_owned());
        }
        assert(views(tokens@)[0] == tokens@[0]@);
        assert(views(tokens@)[1] == tokens@[1]@);
        assert(views(tokens@)[2] == tokens@[2]@);
        assert(views(tokens@)[3] == tokens@[3]@);
        let time = match GrowthTime::parse_chars(&tokens[0]) {
            Ok(time) => time,
            Err(words) => {
                return Err(words);
            },
        };
        if time.h > u64::MAX / 60 || time.m > u64::MAX - time.h * 60 {
            return Err("Failed to parse stats: duration out of range".to_owned());
        }
        let duration: u64 = time.to_min();
        let label = string_of(&tokens[1]);
        let timestamp = match parse_i64(&tokens[2]) {
            Ok(x) => x,
            Err(x) => {
                return Err("Failed to parse stats: ".to_owned().concat(x.message()));
            },
        };
        let tree = match Tree::import_tree(string_of(&tokens[3])) {
            Ok(tree) => tree,
            Err(words) => {
                return Err(words);
            },
        };
        Ok(GrownTree { duration, tree, label, timestamp })
    }
}

impl FromStr for GrownTree {
    type Err = String;

    /// Parse this struct from a string that respects the format.
    fn from_str(s: &str) -> (r: Result<Self, Self::Err>)
        ensures
            match GrownTree::parse_spec(s@) {
                Ok(tree) => r is Ok && r->Ok_0.wf() && r->Ok_0@ == tree,
                Err(words) => r is Err && r->Err_0@ == words,
            },
    {
        GrownTree::parse(s)
    }
}

/// All the grown trees that the lines of `lines` are, in order. The second
/// result says for each line that is no grown tree why it is none.
pub fn get_stats(lines: &Vec<String>) -> (stats: (Vec<GrownTree>, Vec<String>))
    ensures
        Seq::new(stats.0@.len(), |i: int| stats.0@[i]@) == grown(texts_of(lines@)),
        Seq::new(stats.1@.len(), |i: int| stats.1@[i]@) == refused(texts_of(lines@)),
        forall|i: int| 0 <= i < stats.0@.len() ==> (#[trigger] stats.0@[i]).wf(),
{
    let ghost texts = texts_of(lines@);
    let mut trees: Vec<GrownTree> = Vec::new();
    let mut failed: Vec<String> = Vec::new();
    let mut i: usize = 0;
    while i < lines.len()
        invariant
            i <= lines@.len(),
            texts == texts_of(lines@),
            Seq::new(trees@.len(), |k: int| trees@[k]@) == grown(texts.take(i as int)),
            Seq::new(failed@.len(), |k: int| failed@[k]@) == refused(texts.take(i as int)),
            forall|k: int| 0 <= k < trees@.len() ==> (#[trigger] trees@[k]).wf(),
        decreases lines@.len() - i,
    {
        assert(texts.take(i + 1).drop_last() =~= texts.take(i as int));
        assert(texts.take(i + 1).last() == lines@[i as int]@);
        let ghost had = Seq::new(trees@.len(), |k: int| trees@[k]@);
        let ghost missed = Seq::new(failed@.len(), |k: int| failed@[k]@);
        match GrownTree::parse(lines[i].as_str()) {
            Ok(x) => {
                let ghost view = x@;
                trees.push(x);
                assert(Seq::new(trees@.len(), |k: int| trees@[k]@) =~= had.push(view));
            },
            Err(x) => {
                let ghost words = x@;
                failed.push(x);
                assert(Seq::new(failed@.len(), |k: int| failed@[k]@) =~= missed.push(words));
            },
        }
        i = i + 1;
    }
    assert(texts.take(i as int) =~= texts);
    (trees, failed)
}

/// A number of minutes as hours and minutes, each at least two digits wide.
pub open spec fn duration_clock_spec(minutes: u64) -> Seq<char> {
    two_digits((minutes / 60) as nat) + seq![':'] + two_digits((minutes % 60) as nat)
}

/// A number of minutes as hours and minutes.
pub fn duration_clock(minutes: u64) -> (text: String)
    ensures
        text@ == duration_clock_spec(minutes),
{
    let mut text = String::new();
    push_two_digits(&mut text, minutes / 60);
    text.push(':');
    push_two_digits(&mut text, minutes % 60);
    assert(text@ =~= duration_clock_spec(minutes));
    text
}

/// Keep only the last `count` grown trees, where there are more.
pub fn keep_last(stats: &mut Vec<GrownTree>, count: usize)
    ensures
        final(stats)@ == if count < old(stats)@.len() {
            old(stats)@.skip(old(stats)@.len() - count)
        } else {
            old(stats)@
        },
{
    let len = stats.len();
    if count < len {
        let mut k: usize = 0;
        while k < len - count
            invariant
                count < len,
                len == old(stats)@.len(),
                k <= len - count,
                stats@ == old(stats)@.skip(k as int),
            decreases len - count - k,
        {
            stats.remove(0);
            assert(stats@ =~= old(stats)@.skip(k + 1));
            k = k + 1;
        }
    }
}

/// A stretch of time that grown trees are asked for.
#[derive(Clone, Copy, Debug, PartialEq, Eq)]
pub enum Period {
    Today,
    Yesterday,
    ThisWeek,
    ThisMonth,
    ThisYear,
}

/// What a moment is on the calendar: the number of its day, counted on from
/// some first day, its week with the year that the week belongs to, and its
/// year and month.
#[derive(Clone, Copy, Debug, PartialEq, Eq)]
pub struct Day {
    pub day: i32,
    pub week_year: i32,
    pub week: u32,
    pub year: i32,
    pub month: u32,
}

/// The period that `text` names.
pub open spec fn period_spec(text: Seq<char>) -> Option<Period> {
    if text == "today"@ {
        Some(Period::Today)
    } else if text == "yesterday"@ {
        Some(Period::Yesterday)
    } else if text == "this-week"@ {
        Some(Period::ThisWeek)
    } else if text == "this-month"@ {
        Some(Period::ThisMonth)
    } else if text == "this-year"@ {
        Some(Period::ThisYear)
    } else {
        None
    }
}

/// The period that `text` names, if it names one.
pub fn parse_period(text: &str) -> (period: Option<Period>)
    ensures
        period == period_spec(text@),
{
    if same(text, "today") {
        Some(Period::Today)
    } else if same(text, "yesterday") {
        Some(Period::Yesterday)
    } else if same(text, "this-week") {
        Some(Period::ThisWeek)
    } else if same(text, "this-month") {
        Some(Period::ThisMonth)
    } else if same(text, "this-year") {
        Some(Period::ThisYear)
    } else {
        None
    }
}

/// Whether a tree that grew on `date` belongs to `period`, seen from `now`.
/// The trees of this month are taken to be those of this year: the months
/// are not told apart.
pub open spec fn in_period_spec(period: Period, date: Day, now: Day) -> bool {
    match period {
        Period::Today => date.day == now.day,
        Period::Yesterday => date.day + 1 == now.day,
        Period::ThisWeek => date.week_year == now.week_year && date.week == now.week,
        Period::ThisMonth => date.year == now.year,
        Period::ThisYear => date.year == now.year,
    }
}

/// Whether a tree that grew on `date` belongs to `period`, seen from `now`.
pub fn in_period(period: Period, date: &Day, now: &Day) -> (belongs: bool)
    ensures
        belongs == in_period_spec(period, *date, *now),
{
    match period {
        Period::Today => date.day == now.day,
        Period::Yesterday => date.day as i64 + 1 == now.day as i64,
        Period::ThisWeek => date.week_year == now.week_year && date.week == now.week,
        Period::ThisMonth => date.year == now.year,
        Period::ThisYear => date.year == now.year,
    }
}

/// The size of the forest that `text` asks for on a terminal of `width`
/// columns and `height` rows: `whole` is as many plots of 6 by 6 cells as
/// the terminal holds, and anything else is rows and columns with an `x`
/// between them.
pub open spec fn grid_spec(text: Seq<char>, width: u16, height: u16) -> Result<
    (usize, usize),
    Seq<char>,
> {
    if text == "whole"@ {
        Ok(((height / 6) as usize, ((width + 1) / 6) as usize))
    } else {
        let numbers = split(text, 'x');
        if numbers.len() != 2 {
            Err("Invalid grid size format"@)
        } else {
            match parse_u64_spec(numbers[0]) {
                Err(e) => Err("Invalid grid size: "@ + e.text()),
                Ok(n) => if n > usize::MAX {
                    Err("Invalid grid size: number too large to fit in target type"@)
                } else {
                    match parse_u64_spec(numbers[1]) {
                        Err(e) => Err("Invalid grid size: "@ + e.text()),
                        Ok(m) => if m > usize::MAX {
                            Err("Invalid grid size: number too large to fit in target type"@)
                        } else {
                            Ok((n as usize, m as usize))
                        },
                    }
                },
            }
        }
    }
}

/// The size of the forest that `text` asks for.
pub fn parse_grid(text: &str, width: u16, height: u16) -> (r: Result<(usize, usize), String>)
    ensures
        match grid_spec(text@, width, height) {
            Ok(size) => r == Ok::<(usize, usize), String>(size),
            Err(words) => r is Err && r->Err_0@ == words,
        },
{
    if same(text, "whole") {
        return Ok(((height / 6) as usize, ((width as usize + 1) / 6)));
    }
    let chars = chars_of(text);
    let numbers = split_chars(&chars, 'x');
    assert(views(numbers@).len() == numbers@.len());
    if numbers.len() != 2 {
        return Err("Invalid grid size format".to_owned());
    }
    assert(views(numbers@)[0] == numbers@[0]@);
    assert(views(numbers@)[1] == numbers@[1]@);
    let n = match parse_u64(&numbers[0]) {
        Ok(n) => n,
        Err(x) => {
            return Err("Invalid grid size: ".to_owned().concat(x.message()));
        },
    };
    if n > usize::MAX as u64 {
        return Err("Invalid grid size: number too large to fit in target type".to_owned());
    }
    let m = match parse_u64(&numbers[1]) {
        Ok(m) => m,
        Err(x) => {
            return Err("Invalid grid size: ".to_owned().concat(x.message()));
        },
    };
    if m > usize::MAX as u64 {
        return Err("Invalid grid size: number too large to fit in target type".to_owned());
    }
    Ok((n as usize, m as usize))
}

/// The length of the bar for a total of `total` minutes, where the longest
/// bar is `max_width` cells long and stands for `max_time` minutes.
pub fn bar_length(max_width: u64, total: u64, max_time: u64) -> (cells: u64)
    requires
        max_time > 0,
        total <= max_time,
    ensures
        cells == max_width * total / (max_time as int),
        cells <= max_width,
{
    assert(max_width * total <= 0xffff_ffff_ffff_ffff * 0xffff_ffff_ffff_ffff) by (nonlinear_arith)
        requires
            0 <= max_width <= 0xffff_ffff_ffff_ffff,
            0 <= total <= 0xffff_ffff_ffff_ffff,
    ;
    let product: u128 = max_width as u128 * total as u128;
    let cells = product / (max_time as u128);
    assert(cells <= max_width) by (nonlinear_arith)
        requires
            cells == (max_width * total) / (max_time as int),
            0 <= total <= max_time,
            max_time > 0,
            0 <= max_width,
    ;
    cells as u64
}

/// `cells` spaces.
pub open spec fn spaces(cells: nat) -> Seq<char> {
    Seq::new(cells, |i: int| ' ')
}

/// The bar of a graph as it is shown: on a line of its own the label and a
/// stroke, then so many black cells, then an empty line.
pub open spec fn bar_spec(label: Seq<char>, cells: u64) -> Seq<char> {
    seq!['\n'] + label + seq!['|'] + bg_sequence((0, 0, 0)) + spaces(cells as nat) + "\x1B[49m"@
        + seq!['\n', '\n']
}

/// The bar of a graph as it is shown.
pub fn bar(label: &str, cells: u64) -> (text: String)
    ensures
        text@ == bar_spec(label@, cells),
{
    let mut text = String::new();
    text.push('\n');
    text.append(label);
    text.push('|');
    text.append(bg((0, 0, 0)).as_str());
    let ghost before = text@;
    let mut k: u64 = 0;
    while k < cells
        invariant
            k <= cells,
            text@ == before + spaces(k as nat),
        decreases cells - k,
    {
        text.push(' ');
        assert(text@ =~= before + spaces((k + 1) as nat));
        k = k + 1;
    }
    text.append(reset_bg());
    text.push('\n');
    text.push('\n');
    assert(text@ =~= bar_spec(label@, cells));
    text
}

/// The plots of a forest of `n` rows and `m` columns, row by row: for each
/// plot its row and its column, both counted from 0.
pub open spec fn plots_spec(n: nat, m: nat) -> Seq<(usize, usize)> {
    Seq::new(n * m, |k: int| ((k / (m as int)) as usize, (k % (m as int)) as usize))
}

/// Whether `order` holds each of the numbers below `n` once.
pub open spec fn is_rearrangement(order: Seq<usize>, n: nat) -> bool {
    &&& order.len() == n
    &&& order.to_multiset() == Seq::new(n, |i: int| i as usize).to_multiset()
    &&& forall|k: int| 0 <= k < n ==> #[trigger] order[k] < n
}

/// The plots of a forest of `n` rows and `m` columns, row by row.
pub fn plots(n: usize, m: usize) -> (all: Vec<(usize, usize)>)
    ensures
        all@ == plots_spec(n as nat, m as nat),
        forall|k: int| 0 <= k < all@.len() ==> (#[trigger] all@[k]).0 < n && all@[k].1 < m,
{
    let mut all: Vec<(usize, usize)> = Vec::new();
    let mut i: usize = 0;
    assert(all@ =~= plots_spec(0, m as nat));
    while i < n
        invariant
            i <= n,
            all@ == plots_spec(i as nat, m as nat),
            forall|k: int| 0 <= k < all@.len() ==> (#[trigger] all@[k]).0 < n && all@[k].1 < m,
        decreases n - i,
    {
        let mut j: usize = 0;
        while j < m
            invariant
                i < n,
                j <= m,
                all@.len() == i * m + j,
                forall|k: int|
                    0 <= k < all@.len() ==> #[trigger] all@[k] == ((k / (m as int)) as usize, (k % (
                    m as int)) as usize),
                forall|k: int| 0 <= k < all@.len() ==> (#[trigger] all@[k]).0 < n && all@[k].1 < m,
            decreases m - j,
        {
            proof {
                vstd::arithmetic::div_mod::lemma_fundamental_div_mod_converse(
                    i * m + j,
                    m as int,
                    i as int,
                    j as int,
                );
            }
            all.push((i, j));
            j = j + 1;
        }
        assert((i + 1) * m == i * m + m) by (nonlinear_arith);
        assert(all@ =~= plots_spec((i + 1) as nat, m as nat));
        i = i + 1;
    }
    all
}

/// The plots of a forest of `n` rows and `m` columns in a random order.
pub fn scattered(n: usize, m: usize) -> (places: Vec<(usize, usize)>)
    ensures
        forall|k: int|
            0 <= k < places@.len() ==> (#[trigger] places@[k]).0 < n && places@[k].1 < m,
        exists|order: Seq<usize>|
            #![auto]
            is_rearrangement(order, places@.len()) && places@ == Seq::new(
                places@.len(),
                |k: int| plots_spec(n as nat, m as nat)[order[k] as int],
            ) && places@.len() == plots_spec(n as nat, m as nat).len(),
{
    let all = plots(n, m);
    let order = random_order(all.len());
    let mut places: Vec<(usize, usize)> = Vec::new();
    let mut k: usize = 0;
    while k < order.len()
        invariant
            k <= order@.len(),
            order@.len() == all@.len(),
            places@.len() == k,
            forall|i: int| 0 <= i < order@.len() ==> #[trigger] order@[i] < all@.len(),
            forall|i: int| 0 <= i < all@.len() ==> (#[trigger] all@[i]).0 < n && all@[i].1 < m,
            forall|i: int| 0 <= i < k ==> #[trigger] places@[i] == all@[order@[i] as int],
        decreases order@.len() - k,
    {
        places.push(all[order[k]]);
        k = k + 1;
    }
    proof {
        assert(is_rearrangement(order@, places@.len()));
        assert(places@ =~= Seq::new(
            places@.len(),
            |k: int| plots_spec(n as nat, m as nat)[order@[k] as int],
        ));
    }
    places
}

/// The forest after the first `count` trees were planted, tree `k` on the
/// plot `places[k]`: each plot says which tree stands on it, if one does.
pub open spec fn planted_spec(
    n: nat,
    m: nat,
    places: Seq<(usize, usize)>,
    count: int,
) -> Seq<Seq<Option<usize>>>
    decreases count,
{
    if count <= 0 {
        Seq::new(n, |i: int| Seq::new(m, |j: int| None::<usize>))
    } else {
        let before = planted_spec(n, m, places, count - 1);
        let (i, j) = places[count - 1];
        before.update(i as int, before[i as int].update(j as int, Some((count - 1) as usize)))
    }
}

/// What the rows of `forest` hold.
pub open spec fn forest_of(forest: Seq<Vec<Option<usize>>>) -> Seq<Seq<Option<usize>>> {
    Seq::new(forest.len(), |i: int| forest[i]@)
}

/// Whether `forest` has `n` rows of `m` plots, and only trees below `count`
/// on them.
pub open spec fn is_forest(forest: Seq<Seq<Option<usize>>>, n: nat, m: nat, count: nat) -> bool {
    &&& forest.len() == n
    &&& forall|i: int| 0 <= i < n ==> (#[trigger] forest[i]).len() == m
    &&& forall|i: int, j: int|
        0 <= i < n && 0 <= j < m ==> ((#[trigger] forest[i][j]) matches Some(t) ==> t < count)
}

/// Plant `count` trees in a forest of `n` rows and `m` columns, tree `k` on
/// the plot `places[k]`. Trees that `places` has no plot for are left out.
pub fn planted(count: usize, n: usize, m: usize, places: &Vec<(usize, usize)>) -> (forest: Vec<
    Vec<Option<usize>>,
>)
    requires
        forall|k: int|
            0 <= k < places@.len() ==> (#[trigger] places@[k]).0 < n && places@[k].1 < m,
    ensures
        forest_of(forest@) == planted_spec(
            n as nat,
            m as nat,
            places@,
            if count < places@.len() {
                count as int
            } else {
                places@.len() as int
            },
        ),
        is_forest(forest_of(forest@), n as nat, m as nat, count as nat),
{
    let mut forest: Vec<Vec<Option<usize>>> = Vec::new();
    let mut i: usize = 0;
    while i < n
        invariant
            i <= n,
            forest@.len() == i,
            forall|r: int|
                0 <= r < i ==> (#[trigger] forest@[r])@ == Seq::new(
                    m as nat,
                    |j: int| None::<usize>,
                ),
        decreases n - i,
    {
        let mut row: Vec<Option<usize>> = Vec::new();
        let mut j: usize = 0;
        while j < m
            invariant
                j <= m,
                row@.len() == j,
                forall|c: int| 0 <= c < j ==> row@[c] == None::<usize>,
            decreases m - j,
        {
            row.push(None);
            j = j + 1;
        }
        assert(row@ =~= Seq::new(m as nat, |j: int| None::<usize>));
        forest.push(row);
        i = i + 1;
    }
    assert(forest_of(forest@) =~= planted_spec(n as nat, m as nat, places@, 0));
    let limit = if count < places.len() {
        count
    } else {
        places.len()
    };
    let mut pos: usize = 0;
    while pos < limit
        invariant
            pos <= limit <= places@.len(),
            limit <= count,
            forall|k: int|
                0 <= k < places@.len() ==> (#[trigger] places@[k]).0 < n && places@[k].1 < m,
            forest_of(forest@) == planted_spec(n as nat, m as nat, places@, pos as int),
            is_forest(forest_of(forest@), n as nat, m as nat, count as nat),
        decreases limit - pos,
    {
        let place = places[pos];
        let ghost before = forest_of(forest@);
        assert(before[place.0 as int].len() == m);
        forest[place.0][place.1] = Some(pos);
        assert(forest_of(forest@) =~~= before.update(
            place.0 as int,
            before[place.0 as int].update(place.1 as int, Some(pos)),
        ));
        pos = pos + 1;
    }
    forest
}

/// What stands at line `i`, column `j` of the picture of a forest: a fence
/// between the plots, or a cell of the tree on the plot, or a space where
/// the plot is empty, in the colours that the terminal has by itself.
pub open spec fn forest_cell(
    trees: Seq<GrownView>,
    forest: Seq<Seq<Option<usize>>>,
    i: int,
    j: int,
) -> Seq<char> {
    if i % 6 == 5 {
        if j % 6 == 5 {
            seq!['+']
        } else {
            seq!['-']
        }
    } else if j % 6 == 5 {
        seq!['|']
    } else {
        (match forest[i / 6][j / 6] {
            Some(t) => {
                let cell = trees[t as int].tree.picture[i % 6][j % 6];
                bg_sequence(cell.bg) + fg_sequence(cell.fg) + seq![cell.symbol]
            },
            None => seq![' '],
        }) + "\x1B[39m"@ + "\x1B[49m"@
    }
}

/// The first `cols` columns of line `i` of the picture of a forest.
pub open spec fn forest_line(
    trees: Seq<GrownView>,
    forest: Seq<Seq<Option<usize>>>,
    i: int,
    cols: int,
) -> Seq<char>
    decreases cols,
{
    if cols <= 0 {
        Seq::empty()
    } else {
        forest_line(trees, forest, i, cols - 1) + forest_cell(trees, forest, i, cols - 1)
    }
}

/// The first `lines` lines of the picture of a forest whose lines are
/// `cols` columns long.
pub open spec fn forest_lines(
    trees: Seq<GrownView>,
    forest: Seq<Seq<Option<usize>>>,
    lines: int,
    cols: int,
) -> Seq<char>
    decreases lines,
{
    if lines <= 0 {
        Seq::empty()
    } else {
        forest_lines(trees, forest, lines - 1, cols) + forest_line(trees, forest, lines - 1, cols)
            + seq!['\n']
    }
}

/// The picture of a forest of `n` rows and `m` columns of plots: every plot
/// is 5 by 5 cells, with a fence of one cell between plots.
pub fn forest_text(
    stats: &Vec<GrownTree>,
    forest: &Vec<Vec<Option<usize>>>,
    n: usize,
    m: usize,
) -> (text: String)
    requires
        1 <= n <= usize::MAX / 6,
        1 <= m <= usize::MAX / 6,
        is_forest(forest_of(forest@), n as nat, m as nat, stats@.len()),
        forall|t: int| 0 <= t < stats@.len() ==> (#[trigger] stats@[t]).wf(),
    ensures
        text@ == forest_lines(
            Seq::new(stats@.len(), |t: int| stats@[t]@),
            forest_of(forest@),
            6 * n - 1,
            6 * m - 1,
        ),
{
    let ghost trees = Seq::new(stats@.len(), |t: int| stats@[t]@);
    let ghost plan = forest_of(forest@);
    let lines = 6 * n - 1;
    let cols = 6 * m - 1;
    let mut text = String::new();
    let mut i: usize = 0;
    while i < lines
        invariant
            i <= lines,
            lines == 6 * n - 1,
            cols == 6 * m - 1,
            trees == Seq::new(stats@.len(), |t: int| stats@[t]@),
            plan == forest_of(forest@),
            is_forest(plan, n as nat, m as nat, stats@.len()),
            forall|t: int| 0 <= t < stats@.len() ==> (#[trigger] stats@[t]).wf(),
            text@ == forest_lines(trees, plan, i as int, cols as int),
        decreases lines - i,
    {
        let ghost above = text@;
        let mut j: usize = 0;
        while j < cols
            invariant
                i < lines,
                j <= cols,
                lines == 6 * n - 1,
                cols == 6 * m - 1,
                trees == Seq::new(stats@.len(), |t: int| stats@[t]@),
                plan == forest_of(forest@),
                is_forest(plan, n as nat, m as nat, stats@.len()),
                forall|t: int| 0 <= t < stats@.len() ==> (#[trigger] stats@[t]).wf(),
                text@ == above + forest_line(trees, plan, i as int, j as int),
            decreases cols - j,
        {
            let ghost before = text@;
            if i % 6 == 5 {
                if j % 6 == 5 {
                    text.push('+');
                } else {
                    text.push('-');
                }
            } else if j % 6 == 5 {
                text.push('|');
            } else {
                let tree_line = i / 6;
                let tree_col = j / 6;
                assert(plan[tree_line as int].len() == m);
                assert(plan[tree_line as int] == forest@[tree_line as int]@);
                match forest[tree_line][tree_col] {
                    Some(t) => {
                        assert(stats@[t as int].wf());
                        assert(trees[t as int] == stats@[t as int]@);
                        assert(stats@[t as int].tree.picture()[(i % 6) as int].len() == 5);
                        text.append(stats[t].tree.display_symbol(i % 6, j % 6).as_str());
                    },
                    None => {
                        text.push(' ');
                    },
                }
                text.append(reset_fg());
                text.append(reset_bg());
            }
            assert(text@ =~= before + forest_cell(trees, plan, i as int, j as int));
            assert(text@ =~= above + forest_line(trees, plan, i as int, j + 1));
            j = j + 1;
        }
        text.push('\n');
        assert(text@ =~= forest_lines(trees, plan, i + 1, cols as int));
        i = i + 1;
    }
    text
}

/// The sum of `minutes`.
pub open spec fn sum(minutes: Seq<u64>) -> int
    decreases minutes.len(),
{
    if minutes.len() == 0 {
        0
    } else {
        sum(minutes.drop_last()) + minutes.last()
    }
}

/// The minutes of every run of equal keys: for each run its key and the sum
/// of its minutes, in order. `minutes[k]` are the minutes that belong to
/// `keys[k]`.
pub open spec fn grouped_spec(keys: Seq<i64>, minutes: Seq<u64>) -> Seq<(i64, int)>
    decreases keys.len(),
{
    if keys.len() == 0 {
        Seq::empty()
    } else {
        let before = grouped_spec(keys.drop_last(), minutes.drop_last());
        if before.len() > 0 && before.last().0 == keys.last() {
            before.drop_last().push((keys.last(), before.last().1 + minutes.last()))
        } else {
            before.push((keys.last(), minutes.last() as int))
        }
    }
}

/// No run has more minutes than there are in all.
proof fn lemma_grouped_bounds(keys: Seq<i64>, minutes: Seq<u64>)
    requires
        keys.len() == minutes.len(),
    ensures
        forall|g: int|
            0 <= g < grouped_spec(keys, minutes).len() ==> 0 <= (#[trigger] grouped_spec(
                keys,
                minutes,
            )[g]).1 <= sum(minutes),
    decreases keys.len(),
{
    if keys.len() > 0 {
        lemma_grouped_bounds(keys.drop_last(), minutes.drop_last());
        let before = grouped_spec(keys.drop_last(), minutes.drop_last());
        assert forall|g: int| 0 <= g < grouped_spec(keys, minutes).len() implies 0 <= (
        #[trigger] grouped_spec(keys, minutes)[g]).1 <= sum(minutes) by {
            if g < before.len() {
                assert(0 <= before[g].1 <= sum(minutes.drop_last()));
            }
        }
    }
}

/// The sum of the first few of `minutes` is at most the sum of all.
proof fn lemma_sum_grows(minutes: Seq<u64>, k: int)
    requires
        0 <= k <= minutes.len(),
    ensures
        0 <= sum(minutes.take(k)) <= sum(minutes),
    decreases minutes.len(),
{
    if k < minutes.len() {
        assert(minutes.drop_last().take(k) =~= minutes.take(k));
        lemma_sum_grows(minutes.drop_last(), k);
    } else {
        assert(minutes.take(k) =~= minutes);
        if minutes.len() > 0 {
            lemma_sum_grows(minutes.drop_last(), k - 1);
            assert(minutes.drop_last().take(k - 1) =~= minutes.drop_last());
        }
    }
}

/// What the pairs of `groups` hold as mathematics.
pub open spec fn groups_of(groups: Seq<(i64, u64)>) -> Seq<(i64, int)> {
    Seq::new(groups.len(), |g: int| (groups[g].0, groups[g].1 as int))
}

/// Group the minutes of grown trees by runs of equal keys: for each run its
/// key and the sum of its minutes. `minutes[k]` are the minutes of the tree
/// that has the key `keys[k]`.
pub fn grouped(keys: &Vec<i64>, minutes: &Vec<u64>) -> (groups: Vec<(i64, u64)>)
    requires
        keys@.len() == minutes@.len(),
        sum(minutes@) <= u64::MAX,
    ensures
        groups_of(groups@) == grouped_spec(keys@, minutes@),
{
    let mut groups: Vec<(i64, u64)> = Vec::new();
    let mut k: usize = 0;
    while k < keys.len()
        invariant
            k <= keys@.len(),
            keys@.len() == minutes@.len(),
            sum(minutes@) <= u64::MAX,
            groups_of(groups@) == grouped_spec(keys@.take(k as int), minutes@.take(k as int)),
        decreases keys@.len() - k,
    {
        assert(keys@.take(k + 1).drop_last() =~= keys@.take(k as int));
        assert(minutes@.take(k + 1).drop_last() =~= minutes@.take(k as int));
        proof {
            lemma_grouped_bounds(keys@.take(k + 1), minutes@.take(k + 1));
            lemma_sum_grows(minutes@, k + 1);
        }
        let ghost before = groups_of(groups@);
        let len = groups.len();
        if len > 0 && groups[len - 1].0 == keys[k] {
            let last = groups[len - 1];
            assert(before.last() == (last.0, last.1 as int));
            let ghost merged = before.drop_last().push(
                (keys@[k as int], last.1 + minutes@[k as int]),
            );
            assert(merged == grouped_spec(keys@.take(k + 1), minutes@.take(k + 1)));
            assert(merged[len - 1].1 <= sum(minutes@.take(k + 1)));
            groups.pop();
            groups.push((last.0, last.1 + minutes[k]));
            assert(groups_of(groups@) =~= merged);
        } else {
            groups.push((keys[k], minutes[k]));
            assert(groups_of(groups@) =~= before.push(
                (keys@[k as int], minutes@[k as int] as int),
            ));
        }
        k = k + 1;
    }
    assert(keys@.take(k as int) =~= keys@);
    assert(minutes@.take(k as int) =~= minutes@);
    groups
}

/// The minutes of `periods`, which go back in time from the newest, where
/// `groups` holds the minutes of the periods that have any, from the oldest
/// to the newest: the last `taken` groups are used up.
pub open spec fn strips_spec(groups: Seq<(i64, u64)>, periods: Seq<i64>) -> (Seq<u64>, int)
    decreases periods.len(),
{
    if periods.len() == 0 {
        (Seq::empty(), 0)
    } else {
        let (before, taken) = strips_spec(groups, periods.drop_last());
        let left = groups.len() - taken;
        if left > 0 && groups[left - 1].0 == periods.last() {
            (before.push(groups[left - 1].1), taken + 1)
        } else {
            (before.push(0), taken)
        }
    }
}

/// The minutes of each of `periods`, in the order of `periods`. `periods`
/// go back in time from the newest, and `groups` holds the minutes of the
/// periods that have any, from the oldest to the newest. A period without
/// a group of its own has no minutes.
pub fn strips(groups: &Vec<(i64, u64)>, periods: &Vec<i64>) -> (totals: Vec<u64>)
    ensures
        totals@ == strips_spec(groups@, periods@).0,
        totals@.len() == periods@.len(),
{
    let mut totals: Vec<u64> = Vec::new();
    let mut left: usize = groups.len();
    let mut k: usize = 0;
    while k < periods.len()
        invariant
            k <= periods@.len(),
            left <= groups@.len(),
            totals@.len() == k,
            totals@ == strips_spec(groups@, periods@.take(k as int)).0,
            groups@.len() - left == strips_spec(groups@, periods@.take(k as int)).1,
        decreases periods@.len() - k,
    {
        assert(periods@.take(k + 1).drop_last() =~= periods@.take(k as int));
        if left > 0 && groups[left - 1].0 == periods[k] {
            totals.push(groups[left - 1].1);
            left = left - 1;
        } else {
            totals.push(0);
        }
        k = k + 1;
    }
    assert(periods@.take(k as int) =~= periods@);
    totals
}

/// The greatest of `totals`, or 1 where none is greater.
pub fn longest(totals: &Vec<u64>) -> (max_time: u64)
    ensures
        max_time >= 1,
        forall|k: int| 0 <= k < totals@.len() ==> totals@[k] <= max_time,
        max_time == 1 || exists|k: int| 0 <= k < totals@.len() && totals@[k] == max_time,
{
    let mut max_time: u64 = 1;
    let mut k: usize = 0;
    while k < totals.len()
        invariant
            k <= totals@.len(),
            max_time >= 1,
            forall|i: int| 0 <= i < k ==> totals@[i] <= max_time,
            max_time == 1 || exists|i: int| 0 <= i < k && totals@[i] == max_time,
        decreases totals@.len() - k,
    {
        if totals[k] > max_time {
            max_time = totals[k];
        }
        k = k + 1;
    }
    max_time
}

} // verus!
