use result_panels::display::{decimal_string, line_number_digits, results_summary};
use result_panels::entries::{build_entries, Entry};
use result_panels::grouping::{drop_repeats, group_matches, sort_matches};
use result_panels::location::{LocationMatch, ProjectPath, TextPoint, TextRange};
use result_panels::path_set::PathSet;
use result_panels::results_list::{ResultsList, ScrollRequest, ScrollStrategy};

fn file(path_id: u64) -> ProjectPath {
    ProjectPath { worktree_id: 0, path_id }
}

fn at(id: u64, path_id: u64, row: u32, column: u32) -> LocationMatch {
    LocationMatch {
        id,
        path: file(path_id),
        range: TextRange {
            start: TextPoint { row, column },
            end: TextPoint { row, column: column + 3 },
        },
        line_number: row + 1,
    }
}

/// Two files: a.rs with two matches, b.rs with one. Rows:
/// 0 header a, 1 match 0, 2 match 1, 3 header b, 4 match 2.
fn list_of_two_files() -> ResultsList {
    let mut list = ResultsList::new();
    list.set_results(vec![at(0, 0, 1, 0), at(1, 0, 5, 2), at(2, 1, 120, 4)]);
    list
}

fn center(index: usize) -> Option<ScrollRequest> {
    Some(ScrollRequest { index, strategy: ScrollStrategy::Center })
}

#[test]
fn next_and_previous_skip_headers() {
    let mut list = list_of_two_files();
    assert_eq!(list.select_next(), center(1));
    assert_eq!(list.select_next(), center(2));
    assert_eq!(list.select_next(), center(4));
    assert_eq!(list.select_next(), None, "no match row below the last one");
    assert_eq!(list.selected_entry, Some(4));
    assert_eq!(list.select_previous(), center(2));
    assert_eq!(list.select_previous(), center(1));
    assert_eq!(list.select_previous(), None);
    assert_eq!(list.selected_entry, Some(1));
}

#[test]
fn previous_without_selection_starts_from_the_end() {
    let mut list = list_of_two_files();
    assert_eq!(list.select_previous(), center(4));
}

#[test]
fn relative_moves_step_by_the_direction() {
    let mut list = list_of_two_files();
    assert_eq!(list.select_relative(2), center(1));
    assert_eq!(list.select_relative(3), center(4));
    assert_eq!(list.select_relative(0), center(4));
    assert_eq!(list.select_relative(-3), center(1));
    assert_eq!(list.select_relative(-2), None);
    assert_eq!(list.selected_entry, Some(1));
}

#[test]
fn first_and_last_match_rows() {
    let mut list = list_of_two_files();
    assert_eq!(list.select_last(), center(4));
    assert_eq!(list.select_first(), center(1));
    let mut empty = ResultsList::new();
    assert_eq!(empty.select_first(), None);
    assert_eq!(empty.select_next(), None);
    empty.set_results(Vec::new());
    assert_eq!(empty.select_last(), None);
    assert_eq!(empty.selected_entry, None);
}

#[test]
fn selection_with_collapsed_groups() {
    let mut list = list_of_two_files();
    list.toggle_group(file(0));
    // Rows: 0 header a, 1 header b, 2 match 2.
    assert_eq!(list.select_first(), center(2));
    assert_eq!(list.select_previous(), None);
    assert_eq!(list.results.as_ref().unwrap().first_match_index(), 2);
}

#[test]
fn collapsing_clears_the_selection() {
    let mut list = list_of_two_files();
    list.select_next();
    list.toggle_group(file(1));
    assert_eq!(list.selected_entry, None);
    assert_eq!(list.results.as_ref().unwrap().entries.len(), 4);
}

#[test]
fn headers_open_nothing_and_matches_open_their_match() {
    let list = list_of_two_files();
    assert_eq!(list.open_entry(0), None);
    assert_eq!(list.open_entry(1), Some(0));
    assert_eq!(list.open_entry(3), None);
    assert_eq!(list.open_entry(4), Some(2));
    assert_eq!(list.open_entry(5), None);
    assert_eq!(list.open_selected_entry(), None);
}

#[test]
fn toggling_a_group_twice_restores_the_rows() {
    let mut list = list_of_two_files();
    let before = list.results.as_ref().unwrap().entries.clone();
    list.toggle_group(file(1));
    assert_ne!(list.results.as_ref().unwrap().entries, before);
    list.toggle_group(file(1));
    assert_eq!(list.results.as_ref().unwrap().entries, before);
    assert_eq!(list.collapsed_files.len(), 0);
}

#[test]
fn toggling_a_group_before_any_query_only_records_it() {
    let mut list = ResultsList::new();
    list.toggle_group(file(3));
    assert!(list.collapsed_files.contains(&file(3)));
    assert!(list.results.is_none());
    list.set_all_collapsed(true);
    assert!(list.collapsed_files.contains(&file(3)));
    assert!(!list.all_collapsed());
}

#[test]
fn all_collapsed_needs_files() {
    let mut list = ResultsList::new();
    list.set_results(Vec::new());
    list.set_all_collapsed(true);
    assert!(!list.all_collapsed(), "no files, so not all collapsed");
    assert_eq!(list.collapse_button_tooltip(), "Collapse All");
}

#[test]
fn headers_repeat_when_a_file_comes_back() {
    // References keep the order the language server gave.
    let matches = vec![at(0, 0, 1, 0), at(1, 1, 2, 0), at(2, 0, 3, 0)];
    let entries = build_entries(&matches, &PathSet::new());
    assert_eq!(
        entries,
        vec![
            Entry::Header(file(0)),
            Entry::Match(0),
            Entry::Header(file(1)),
            Entry::Match(1),
            Entry::Header(file(0)),
            Entry::Match(2),
        ]
    );
    let mut collapsed = PathSet::new();
    collapsed.insert(file(0));
    let entries = build_entries(&matches, &collapsed);
    assert_eq!(
        entries,
        vec![Entry::Header(file(0)), Entry::Header(file(1)), Entry::Match(1), Entry::Header(file(0))]
    );
}

#[test]
fn sort_is_stable_and_dedup_drops_adjacent_repeats() {
    let input = vec![at(0, 1, 0, 0), at(1, 0, 2, 0), at(2, 0, 1, 5), at(3, 0, 1, 5), at(4, 0, 1, 2)];
    let sorted = sort_matches(&input);
    let ids: Vec<u64> = sorted.iter().map(|m| m.id).collect();
    assert_eq!(ids, vec![4, 2, 3, 1, 0]);
    let kept = drop_repeats(&sorted);
    let ids: Vec<u64> = kept.iter().map(|m| m.id).collect();
    assert_eq!(ids, vec![4, 2, 1, 0]);
    let grouped = group_matches(&input);
    assert_eq!(grouped, kept);
}

#[test]
fn worktrees_order_before_paths() {
    let a = LocationMatch { path: ProjectPath { worktree_id: 2, path_id: 0 }, ..at(0, 0, 0, 0) };
    let b = LocationMatch { path: ProjectPath { worktree_id: 1, path_id: 9 }, ..at(1, 0, 0, 0) };
    let ids: Vec<u64> = sort_matches(&vec![a, b]).iter().map(|m| m.id).collect();
    assert_eq!(ids, vec![1, 0]);
}

#[test]
fn path_set_operations() {
    let mut set = PathSet::new();
    assert!(set.insert(file(1)));
    assert!(!set.insert(file(1)));
    assert!(set.insert(file(2)));
    assert_eq!(set.len(), 2);
    assert!(set.remove(&file(1)));
    assert!(!set.remove(&file(1)));
    assert!(!set.contains(&file(1)));
    assert!(set.contains(&file(2)));
    set.clear();
    assert_eq!(set.len(), 0);
}

#[test]
fn line_number_column_width() {
    assert_eq!(line_number_digits(0), 1);
    assert_eq!(line_number_digits(1), 1);
    assert_eq!(line_number_digits(9), 1);
    assert_eq!(line_number_digits(10), 2);
    assert_eq!(line_number_digits(120), 3);
    assert_eq!(line_number_digits(999), 3);
    assert_eq!(line_number_digits(1000), 4);
    assert_eq!(line_number_digits(u32::MAX), 10);
    let list = list_of_two_files();
    assert_eq!(list.results.as_ref().unwrap().max_line_number(), 121);
}

#[test]
fn decimal_text() {
    assert_eq!(decimal_string(0), "0");
    assert_eq!(decimal_string(7), "7");
    assert_eq!(decimal_string(10), "10");
    assert_eq!(decimal_string(40213), "40213");
    assert_eq!(decimal_string(usize::MAX), usize::MAX.to_string());
    assert_eq!(results_summary(0, 0), "0 results in 0 files");
    assert_eq!(results_summary(1, 1), "1 result in 1 file");
    assert_eq!(results_summary(12, 1), "12 results in 1 file");
    assert_eq!(results_summary(1, 3), "1 result in 3 files");
}

#[test]
fn summary_and_file_count_of_a_list() {
    let mut list = list_of_two_files();
    let results = list.results.as_ref().unwrap();
    assert_eq!(results.file_count(), 2);
    assert_eq!(results.summary(), "3 results in 2 files");
    list.set_all_collapsed(true);
    assert_eq!(list.results.as_ref().unwrap().summary(), "3 results in 2 files");
    assert_eq!(list.results.as_ref().unwrap().first_match_index(), 0);
}

#[test]
fn repeats_are_dropped_even_when_not_adjacent() {
    let long = at(0, 0, 1, 0);
    let short = LocationMatch {
        id: 1,
        range: TextRange { start: TextPoint { row: 1, column: 0 }, end: TextPoint { row: 1, column: 1 } },
        ..long
    };
    let again = LocationMatch { id: 2, ..long };
    let kept = drop_repeats(&vec![long, short, again, short]);
    let ids: Vec<u64> = kept.iter().map(|m| m.id).collect();
    assert_eq!(ids, vec![0, 1]);
}
