use result_panels::entries::Entry;
use result_panels::location::{LocationMatch, ProjectPath, TextPoint, TextRange};
use result_panels::references_panel::{QueryOutcome, QueryReply, ReferencesPanel};
use result_panels::results_list::{CollapseIcon, ContentView, ScrollRequest, ScrollStrategy};
use result_panels::dock::DockPosition;

fn main_rs() -> ProjectPath {
    ProjectPath { worktree_id: 1, path_id: 0 }
}

/// A reference on `row` (zero-based) from `start` to `end` in main.rs.
fn reference(id: u64, row: u32, start: u32, end: u32) -> LocationMatch {
    LocationMatch {
        id,
        path: main_rs(),
        range: TextRange {
            start: TextPoint { row, column: start },
            end: TextPoint { row, column: end },
        },
        line_number: row + 1,
    }
}

/// The two references of `abc` in the test source: (1, 8, 11) and (2, 14, 17).
fn two_references() -> Vec<LocationMatch> {
    vec![reference(0, 1, 8, 11), reference(1, 2, 14, 17)]
}

fn panel_with_two_references() -> ReferencesPanel {
    let mut panel = ReferencesPanel::new();
    panel.begin_query();
    panel.finish_query(QueryOutcome::Found(two_references()));
    panel
}

#[test]
fn test_panel_shows_hint_before_any_query() {
    let panel = ReferencesPanel::new();
    assert!(
        panel.list.results.is_none(),
        "no query has run yet, so the panel should show the hint state"
    );
    assert_eq!(panel.list.content_view(), ContentView::Hint);
}

#[test]
fn test_find_all_references_opens_panel_with_results() {
    let mut panel = ReferencesPanel::new();
    panel.begin_query();
    let reply = panel.finish_query(QueryOutcome::Found(two_references()));
    let results = panel.list.results.as_ref().expect("results should be set");
    assert_eq!(results.entries.len(), 3, "one file header plus two matches");
    assert_eq!(results.matches.len(), 2);
    assert!(
        matches!(reply, QueryReply::ShowResults(_)),
        "the left dock should be open after a query"
    );
    assert_eq!(ReferencesPanel::position(), DockPosition::Left);
}

#[test]
fn test_find_all_references_without_results() {
    let mut panel = ReferencesPanel::new();
    panel.begin_query();
    panel.finish_query(QueryOutcome::Found(Vec::new()));
    let results = panel.list.results.as_ref().expect("results should be set");
    assert!(results.matches.is_empty());
    assert_eq!(panel.list.content_view(), ContentView::NoResults);
}

#[test]
fn test_cmd_click_fallback_shows_references_in_panel() {
    let mut panel = ReferencesPanel::new();
    panel.begin_query();
    panel.finish_query(QueryOutcome::Found(two_references()));
    let match_count = panel
        .list
        .results
        .as_ref()
        .expect("cmd-click fallback should populate the references panel")
        .matches
        .len();
    assert_eq!(
        match_count, 2,
        "the cmd-click go-to-definition fallback should show references in the panel"
    );
}

#[test]
fn test_opening_reference_reopens_file_when_editor_gone() {
    let mut panel = panel_with_two_references();
    let entry_index = panel
        .list
        .results
        .as_ref()
        .unwrap()
        .entries
        .iter()
        .position(|entry| matches!(entry, Entry::Match(1)))
        .expect("second reference should be present");
    let opened = panel.list.click_entry(entry_index).expect("the reference should open");
    let location = panel.list.results.as_ref().unwrap().matches[opened];
    assert_eq!(opened, 1, "the reference's file should be reopened in the workspace");
    assert_eq!(
        (location.range.start, location.range.end),
        (TextPoint { row: 2, column: 14 }, TextPoint { row: 2, column: 17 })
    );
}

#[test]
fn test_collapse_and_expand_groups() {
    let mut panel = panel_with_two_references();
    let entries_len = |panel: &ReferencesPanel| panel.list.results.as_ref().unwrap().entries.len();
    assert_eq!(entries_len(&panel), 3, "one header plus two matches");

    panel.list.set_all_collapsed(true);
    assert_eq!(entries_len(&panel), 1, "only the file header remains");

    panel.list.set_all_collapsed(false);
    assert_eq!(entries_len(&panel), 3, "matches are restored");
}

#[test]
fn test_toggle_group_toggles_only_that_file() {
    let mut panel = panel_with_two_references();
    let path = match &panel.list.results.as_ref().unwrap().entries[0] {
        Entry::Header(path) => *path,
        Entry::Match(_) => panic!("first entry should be a file header"),
    };

    panel.list.toggle_group(path);
    let entries_len = panel.list.results.as_ref().unwrap().entries.len();
    assert_eq!(entries_len, 1, "toggling the group hides its matches");

    panel.list.toggle_group(path);
    let entries_len = panel.list.results.as_ref().unwrap().entries.len();
    assert_eq!(entries_len, 3, "toggling again restores the matches");
}

#[test]
fn test_selecting_reference_navigates_editor() {
    let mut panel = panel_with_two_references();
    let entry_index = panel
        .list
        .results
        .as_ref()
        .unwrap()
        .entries
        .iter()
        .position(|entry| matches!(entry, Entry::Match(1)))
        .expect("second reference should be present");
    panel.list.click_entry(entry_index);
    let opened = panel.list.open_selected_entry().unwrap();
    // The editor then selects `abc` on the third line: «abcˇ» at 2:14..2:17.
    let location = panel.list.results.as_ref().unwrap().matches[opened];
    assert_eq!(location.range.start, TextPoint { row: 2, column: 14 });
    assert_eq!(location.range.end, TextPoint { row: 2, column: 17 });
}

#[test]
fn searching_state_is_shown_while_the_query_runs() {
    let mut panel = ReferencesPanel::new();
    panel.begin_query();
    assert!(panel.list.searching);
    assert_eq!(panel.list.content_view(), ContentView::Searching);
    panel.finish_query(QueryOutcome::Found(two_references()));
    assert!(!panel.list.searching);
    assert_eq!(panel.list.content_view(), ContentView::Results);
}

#[test]
fn failed_query_shows_the_error_and_keeps_the_panel() {
    let mut panel = panel_with_two_references();
    panel.begin_query();
    let reply = panel.finish_query(QueryOutcome::Failed("server crashed".to_string()));
    match reply {
        QueryReply::ShowError(message) => assert_eq!(message, "server crashed"),
        _ => panic!("a failed query should show its error"),
    }
    assert!(panel.list.searching);
    assert_eq!(panel.list.results.as_ref().unwrap().matches.len(), 2);
}

#[test]
fn abandoned_query_changes_nothing() {
    let mut panel = ReferencesPanel::new();
    panel.begin_query();
    let reply = panel.finish_query(QueryOutcome::Abandoned);
    assert!(matches!(reply, QueryReply::Nothing));
    assert!(panel.list.searching);
    assert!(panel.list.results.is_none());
}

#[test]
fn new_results_scroll_to_the_top_and_clear_collapse_and_selection() {
    let mut panel = panel_with_two_references();
    panel.list.select_next();
    panel.list.set_all_collapsed(true);
    let reply = panel.finish_query(QueryOutcome::Found(two_references()));
    match reply {
        QueryReply::ShowResults(scroll) => {
            assert_eq!(scroll, ScrollRequest { index: 0, strategy: ScrollStrategy::Top })
        }
        _ => panic!("found references should be shown"),
    }
    assert_eq!(panel.list.selected_entry, None);
    assert_eq!(panel.list.collapsed_files.len(), 0);
    assert_eq!(panel.list.results.as_ref().unwrap().entries.len(), 3);
}

#[test]
fn empty_state_lines_follow_the_content() {
    let mut panel = ReferencesPanel::new();
    assert_eq!(
        panel.empty_state_lines(),
        vec!["Run Find All References", "with Shift-F12 to see results"]
    );
    panel.finish_query(QueryOutcome::Found(Vec::new()));
    assert_eq!(panel.empty_state_lines(), vec!["No references found"]);
    panel.finish_query(QueryOutcome::Found(two_references()));
    assert!(panel.empty_state_lines().is_empty());
}

#[test]
fn panel_metadata() {
    assert_eq!(ReferencesPanel::persistent_name(), "References Panel");
    assert_eq!(ReferencesPanel::panel_key(), "ReferencesPanel");
    assert_eq!(ReferencesPanel::icon_tooltip(), "Find All References");
    assert_eq!(ReferencesPanel::activation_priority(), 7);
    assert!(ReferencesPanel::position_is_valid(DockPosition::Left));
    assert!(!ReferencesPanel::position_is_valid(DockPosition::Right));
    assert!(!ReferencesPanel::position_is_valid(DockPosition::Bottom));
}

#[test]
fn header_title_and_collapse_icon() {
    let mut panel = panel_with_two_references();
    let header = panel.header();
    assert_eq!(header.title, "References");
    assert_eq!(header.open_search_editor_tooltip, None);
    assert_eq!(header.collapse_icon, CollapseIcon::ListCollapse);
    assert_eq!(header.collapse_tooltip, "Collapse All");
    panel.list.toggle_all_collapsed();
    let header = panel.header();
    assert_eq!(header.collapse_icon, CollapseIcon::ListExpand);
    assert_eq!(header.collapse_tooltip, "Expand All");
    panel.list.toggle_all_collapsed();
    assert_eq!(panel.header().collapse_icon, CollapseIcon::ListCollapse);
}
