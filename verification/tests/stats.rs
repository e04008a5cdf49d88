use rusty_forest::collection::{DEFAULT_1, DEFAULT_3};
use rusty_forest::grow::GrowthTime;
use rusty_forest::stats::{
    bar, bar_length, duration_clock, forest_text, get_stats, grouped, in_period, keep_last, longest,
    parse_grid, parse_period, planted, plots, scattered, stats_line, strips, Day, GrownTree,
    Period,
};
use rusty_forest::tree::Tree;
use std::str::FromStr;

fn line(duration: &str, label: &str, timestamp: &str) -> String {
    format!("{}/{}/{}/{}", duration, label, timestamp, DEFAULT_3)
}

fn grown(label: &str, duration: u64) -> GrownTree {
    GrownTree {
        duration,
        tree: Tree::import_tree(DEFAULT_1.to_string()).unwrap(),
        label: label.to_string(),
        timestamp: 0,
    }
}

fn labels(stats: &Vec<GrownTree>) -> Vec<String> {
    stats.iter().map(|tree| tree.label.clone()).collect()
}

fn day(day: i32, week: u32, year: i32, month: u32) -> Day {
    Day { day, week_year: year, week, year, month }
}

#[test]
fn a_grown_tree_is_read_from_its_line() {
    let tree = GrownTree::from_str(&line("1:20", "coding", "1600000000")).unwrap();
    assert_eq!(tree.duration, 80);
    assert_eq!(tree.label, "coding");
    assert_eq!(tree.timestamp, 1600000000);
    assert_eq!(tree.tree.name, "default-3");
    assert_eq!(tree.tree.to_string(), DEFAULT_3);
    let early = GrownTree::parse(&line("0:05", "", "-7")).unwrap();
    assert_eq!((early.duration, early.label.as_str(), early.timestamp), (5, "", -7));
}

#[test]
fn a_grown_tree_has_four_tokens() {
    let words = "Failed to parse stats: wrong number of tokens";
    assert_eq!(GrownTree::from_str("").unwrap_err(), words);
    assert_eq!(GrownTree::from_str("1:20/coding/1600000000").unwrap_err(), words);
    assert_eq!(GrownTree::from_str(&line("1:20", "a/b", "1")).unwrap_err(), words);
    assert_eq!(GrownTree::from_str(&format!("{}/", line("1:20", "a", "1"))).unwrap_err(), words);
}

#[test]
fn the_tokens_of_a_grown_tree_are_checked_in_order() {
    assert_eq!(
        GrownTree::from_str("x/coding/y/z").unwrap_err(),
        "Failed to parse time: incorrect number of components"
    );
    assert_eq!(
        GrownTree::from_str("1:x/coding/y/z").unwrap_err(),
        "Failed to parse time (mm): invalid digit found in string"
    );
    assert_eq!(
        GrownTree::from_str("1:20/coding/y/z").unwrap_err(),
        "Failed to parse stats: invalid digit found in string"
    );
    assert_eq!(
        GrownTree::from_str("1:20/coding//z").unwrap_err(),
        "Failed to parse stats: cannot parse integer from empty string"
    );
    assert_eq!(
        GrownTree::from_str("1:20/coding/9223372036854775808/z").unwrap_err(),
        "Failed to parse stats: number too large to fit in target type"
    );
    assert_eq!(
        GrownTree::from_str("1:20/coding/-9223372036854775809/z").unwrap_err(),
        "Failed to parse stats: number too small to fit in target type"
    );
    assert_eq!(
        GrownTree::from_str("1:20/coding/5/z").unwrap_err(),
        "The tree does not respect the format"
    );
}

#[test]
fn a_duration_that_cannot_be_counted_is_refused() {
    assert_eq!(
        GrownTree::from_str(&line("18446744073709551615:0", "a", "1")).unwrap_err(),
        "Failed to parse stats: duration out of range"
    );
    assert_eq!(
        GrownTree::from_str(&line("307445734561825860:16", "a", "1")).unwrap_err(),
        "Failed to parse stats: duration out of range"
    );
    let most = GrownTree::from_str(&line("307445734561825860:15", "a", "1")).unwrap();
    assert_eq!(most.duration, u64::MAX);
}

#[test]
fn the_line_of_a_grown_tree_is_read_back() {
    let tree = Tree::import_tree(DEFAULT_3.to_string()).unwrap();
    let written = stats_line(&GrowthTime { h: 1, m: 5 }, "deep work", 1600000000, &tree);
    assert_eq!(written, format!("1:5/deep work/1600000000/{}\n", DEFAULT_3));
    let read = GrownTree::from_str(written.trim_end()).unwrap();
    assert_eq!(read.duration, 65);
    assert_eq!(read.label, "deep work");
    assert_eq!(read.timestamp, 1600000000);
    assert_eq!(read.tree.cells, tree.cells);
    let before = stats_line(&GrowthTime { h: 0, m: 20 }, "standard", -5, &tree);
    assert_eq!(before, format!("0:20/standard/-5/{}\n", DEFAULT_3));
}

#[test]
fn get_stats_passes_over_the_lines_that_are_no_grown_trees() {
    let lines = vec![
        line("0:20", "one", "10"),
        "rubbish".to_string(),
        line("0:30", "two", "20"),
        line("0:x", "three", "30"),
    ];
    let (stats, failed) = get_stats(&lines);
    assert_eq!(labels(&stats), vec!["one", "two"]);
    assert_eq!(stats[1].duration, 30);
    assert_eq!(
        failed,
        vec![
            "Failed to parse stats: wrong number of tokens",
            "Failed to parse time (mm): invalid digit found in string"
        ]
    );
    let (none, nothing) = get_stats(&vec![]);
    assert!(none.is_empty() && nothing.is_empty());
}

#[test]
fn durations_are_shown_as_hours_and_minutes() {
    assert_eq!(duration_clock(0), "00:00");
    assert_eq!(duration_clock(20), "00:20");
    assert_eq!(duration_clock(65), "01:05");
    assert_eq!(duration_clock(600), "10:00");
    assert_eq!(duration_clock(6000), "100:00");
}

#[test]
fn keep_last_keeps_the_newest_trees() {
    let mut stats = vec![grown("a", 1), grown("b", 2), grown("c", 3), grown("d", 4)];
    keep_last(&mut stats, 5);
    assert_eq!(labels(&stats), vec!["a", "b", "c", "d"]);
    keep_last(&mut stats, 4);
    assert_eq!(labels(&stats), vec!["a", "b", "c", "d"]);
    keep_last(&mut stats, 3);
    assert_eq!(labels(&stats), vec!["b", "c", "d"]);
    keep_last(&mut stats, 1);
    assert_eq!(labels(&stats), vec!["d"]);
    keep_last(&mut stats, 0);
    assert!(stats.is_empty());
    keep_last(&mut stats, 0);
    assert!(stats.is_empty());
}

#[test]
fn periods_have_their_names() {
    assert_eq!(parse_period("today"), Some(Period::Today));
    assert_eq!(parse_period("yesterday"), Some(Period::Yesterday));
    assert_eq!(parse_period("this-week"), Some(Period::ThisWeek));
    assert_eq!(parse_period("this-month"), Some(Period::ThisMonth));
    assert_eq!(parse_period("this-year"), Some(Period::ThisYear));
    assert_eq!(parse_period("Today"), None);
    assert_eq!(parse_period("tomorrow"), None);
    assert_eq!(parse_period(""), None);
}

#[test]
fn periods_are_seen_from_now() {
    let now = day(738000, 20, 2021, 5);
    assert!(in_period(Period::Today, &day(738000, 20, 2021, 5), &now));
    assert!(!in_period(Period::Today, &day(737999, 20, 2021, 5), &now));
    assert!(in_period(Period::Yesterday, &day(737999, 20, 2021, 5), &now));
    assert!(!in_period(Period::Yesterday, &day(738000, 20, 2021, 5), &now));
    assert!(!in_period(Period::Yesterday, &day(738001, 20, 2021, 5), &now));
    assert!(!in_period(Period::Yesterday, &day(i32::MAX, 20, 2021, 5), &day(i32::MIN, 1, 1, 1)));
    assert!(in_period(Period::ThisWeek, &day(737996, 20, 2021, 5), &now));
    assert!(!in_period(Period::ThisWeek, &day(737990, 19, 2021, 5), &now));
    assert!(!in_period(Period::ThisWeek, &day(737636, 20, 2020, 5), &now));
    assert!(in_period(Period::ThisYear, &day(737800, 3, 2021, 1), &now));
    assert!(!in_period(Period::ThisYear, &day(737700, 50, 2020, 12), &now));
    assert!(in_period(Period::ThisMonth, &day(737990, 19, 2021, 5), &now));
    assert!(!in_period(Period::ThisMonth, &day(737700, 50, 2020, 5), &now));
    // the months of one year are not told apart
    assert!(in_period(Period::ThisMonth, &day(737800, 3, 2021, 1), &now));
}

#[test]
fn a_week_belongs_to_the_year_of_the_week() {
    let now = Day { day: 737791, week_year: 2020, week: 53, year: 2021, month: 1 };
    let before = Day { day: 737789, week_year: 2020, week: 53, year: 2020, month: 12 };
    assert!(in_period(Period::ThisWeek, &before, &now));
    assert!(!in_period(Period::ThisYear, &before, &now));
}

#[test]
fn a_grid_is_rows_and_columns() {
    assert_eq!(parse_grid("3x4", 80, 24), Ok((3, 4)));
    assert_eq!(parse_grid("0x0", 80, 24), Ok((0, 0)));
    assert_eq!(parse_grid("+1x02", 80, 24), Ok((1, 2)));
    assert_eq!(parse_grid("whole", 80, 24), Ok((4, 13)));
    assert_eq!(parse_grid("whole", 5, 5), Ok((0, 1)));
    assert_eq!(parse_grid("whole", 4, 6), Ok((1, 0)));
    assert_eq!(parse_grid("whole", 65535, 65535), Ok((10922, 10922)));
    assert_eq!(parse_grid("whole", 0, 0), Ok((0, 0)));
}

#[test]
fn a_grid_that_is_none_is_refused() {
    assert_eq!(parse_grid("", 80, 24).unwrap_err(), "Invalid grid size format");
    assert_eq!(parse_grid("3", 80, 24).unwrap_err(), "Invalid grid size format");
    assert_eq!(parse_grid("3x4x5", 80, 24).unwrap_err(), "Invalid grid size format");
    assert_eq!(parse_grid("Whole", 80, 24).unwrap_err(), "Invalid grid size format");
    assert_eq!(parse_grid("3X4", 80, 24).unwrap_err(), "Invalid grid size format");
    assert_eq!(
        parse_grid("x4", 80, 24).unwrap_err(),
        "Invalid grid size: cannot parse integer from empty string"
    );
    assert_eq!(
        parse_grid("3x", 80, 24).unwrap_err(),
        "Invalid grid size: cannot parse integer from empty string"
    );
    assert_eq!(
        parse_grid("ax4", 80, 24).unwrap_err(),
        "Invalid grid size: invalid digit found in string"
    );
    assert_eq!(
        parse_grid("3x-4", 80, 24).unwrap_err(),
        "Invalid grid size: invalid digit found in string"
    );
    assert_eq!(
        parse_grid("99999999999999999999x4", 80, 24).unwrap_err(),
        "Invalid grid size: number too large to fit in target type"
    );
}

#[test]
fn bars_are_as_long_as_their_share() {
    assert_eq!(bar_length(70, 60, 60), 70);
    assert_eq!(bar_length(70, 30, 60), 35);
    assert_eq!(bar_length(70, 0, 60), 0);
    assert_eq!(bar_length(70, 1, 60), 1);
    assert_eq!(bar_length(70, 59, 60), 68);
    assert_eq!(bar_length(0, 59, 60), 0);
    assert_eq!(bar_length(70, 0, 1), 0);
    assert_eq!(bar_length(u64::MAX, u64::MAX, u64::MAX), u64::MAX);
    assert_eq!(bar_length(u64::MAX, u64::MAX - 1, u64::MAX), u64::MAX - 1);
}

#[test]
fn the_longest_bar_stands_for_the_greatest_total() {
    assert_eq!(longest(&vec![]), 1);
    assert_eq!(longest(&vec![0, 0]), 1);
    assert_eq!(longest(&vec![0, 1]), 1);
    assert_eq!(longest(&vec![5, 90, 20]), 90);
    assert_eq!(longest(&vec![u64::MAX, 3]), u64::MAX);
}

#[test]
fn minutes_are_grouped_by_runs_of_equal_keys() {
    assert_eq!(grouped(&vec![], &vec![]), vec![]);
    assert_eq!(grouped(&vec![7], &vec![20]), vec![(7, 20)]);
    assert_eq!(
        grouped(&vec![1, 1, 2, 2, 2, 5], &vec![20, 30, 5, 5, 5, 60]),
        vec![(1, 50), (2, 15), (5, 60)]
    );
    // a key that comes back starts a new run
    assert_eq!(
        grouped(&vec![1, 2, 1, 1], &vec![10, 20, 30, 40]),
        vec![(1, 10), (2, 20), (1, 70)]
    );
    assert_eq!(grouped(&vec![-3, -3], &vec![u64::MAX - 1, 1]), vec![(-3, u64::MAX)]);
}

#[test]
fn strips_go_back_in_time() {
    let groups = vec![(10, 50), (12, 15), (13, 60)];
    // the periods from the newest to the oldest
    assert_eq!(strips(&groups, &vec![13, 12, 11, 10, 9]), vec![60, 15, 0, 50, 0]);
    assert_eq!(strips(&groups, &vec![14, 13, 12]), vec![0, 60, 15]);
    assert_eq!(strips(&groups, &vec![13]), vec![60]);
    assert_eq!(strips(&groups, &vec![]), Vec::<u64>::new());
    assert_eq!(strips(&vec![], &vec![3, 2, 1]), vec![0, 0, 0]);
    // a group that is newer than every period hides the older ones
    assert_eq!(strips(&vec![(10, 50), (20, 5)], &vec![12, 11, 10]), vec![0, 0, 0]);
}

#[test]
fn the_plots_of_a_forest_come_row_by_row() {
    assert_eq!(plots(2, 3), vec![(0, 0), (0, 1), (0, 2), (1, 0), (1, 1), (1, 2)]);
    assert_eq!(plots(0, 3), vec![]);
    assert_eq!(plots(3, 0), vec![]);
    assert_eq!(plots(1, 1), vec![(0, 0)]);
}

#[test]
fn scattered_plots_are_all_the_plots() {
    for (n, m) in [(0, 0), (1, 1), (2, 3), (5, 4)] {
        let mut places = scattered(n, m);
        places.sort();
        assert_eq!(places, plots(n, m));
    }
    let first = scattered(5, 8);
    let mut differs = false;
    for _ in 0..20 {
        if scattered(5, 8) != first {
            differs = true;
        }
    }
    assert!(differs);
}

#[test]
fn trees_are_planted_where_the_places_say() {
    let places = vec![(1, 2), (0, 0), (1, 0), (0, 1), (0, 2), (1, 1)];
    assert_eq!(
        planted(3, 2, 3, &places),
        vec![vec![Some(1), None, None], vec![Some(2), None, Some(0)]]
    );
    assert_eq!(
        planted(10, 2, 3, &places),
        vec![vec![Some(1), Some(3), Some(4)], vec![Some(2), Some(5), Some(0)]]
    );
    assert_eq!(planted(0, 2, 3, &places), vec![vec![None; 3]; 2]);
    assert_eq!(planted(5, 2, 3, &vec![]), vec![vec![None; 3]; 2]);
    assert_eq!(planted(5, 0, 3, &vec![]), Vec::<Vec<Option<usize>>>::new());
    // a place that comes twice keeps the later tree
    assert_eq!(planted(2, 1, 1, &vec![(0, 0), (0, 0)]), vec![vec![Some(1)]]);
}

#[test]
fn a_forest_of_one_empty_plot_is_five_lines_of_spaces() {
    let reset = "\x1b[39m\x1b[49m";
    let row = format!("{}\n", format!(" {}", reset).repeat(5));
    assert_eq!(forest_text(&vec![], &vec![vec![None]], 1, 1), row.repeat(5));
}

#[test]
fn a_forest_has_fences_between_its_plots() {
    let stats = vec![grown("a", 1), GrownTree {
        duration: 2,
        tree: Tree::import_tree(DEFAULT_3.to_string()).unwrap(),
        label: "b".to_string(),
        timestamp: 0,
    }];
    let forest = vec![vec![Some(1), None], vec![None, Some(0)]];
    let text = forest_text(&stats, &forest, 2, 2);
    let reset = "\x1b[39m\x1b[49m";
    let lines: Vec<&str> = text.lines().collect();
    assert_eq!(lines.len(), 11);
    assert_eq!(lines[5], "-----+-----");
    let mut first = String::new();
    for c in 0..5 {
        first.push_str(&stats[1].tree.display_symbol(0, c));
        first.push_str(reset);
    }
    first.push('|');
    first.push_str(&format!(" {}", reset).repeat(5));
    assert_eq!(lines[0], first);
    let mut last = format!(" {}", reset).repeat(5);
    last.push('|');
    for c in 0..5 {
        last.push_str(&stats[0].tree.display_symbol(4, c));
        last.push_str(reset);
    }
    assert_eq!(lines[10], last);
    assert!(text.ends_with("\n"));
}

#[test]
fn a_bar_is_a_label_and_black_cells() {
    assert_eq!(bar("12-05", 3), "\n12-05|\x1b[48;2;0;0;0m   \x1b[49m\n\n");
    assert_eq!(bar("", 0), "\n|\x1b[48;2;0;0;0m\x1b[49m\n\n");
}
