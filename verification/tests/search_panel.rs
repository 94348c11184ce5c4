use result_panels::entries::Entry;
use result_panels::location::{LocationMatch, ProjectPath, TextPoint, TextRange};
use result_panels::results_list::{ContentView, ScrollRequest, ScrollStrategy};
use result_panels::search_panel::{QueryInputs, SearchEvent, SearchOption, SearchOptions, SearchPanel};
use result_panels::results_list::CollapseIcon;
use result_panels::dock::DockPosition;
use result_panels::path_queries::{char_is_white_space, path_queries, trim};
use result_panels::references_panel::ReferencesPanel;

fn one_rs() -> ProjectPath {
    ProjectPath { worktree_id: 1, path_id: 0 }
}

fn two_rs() -> ProjectPath {
    ProjectPath { worktree_id: 1, path_id: 1 }
}

fn found(id: u64, path: ProjectPath, row: u32, start: u32, end: u32) -> Option<LocationMatch> {
    Some(LocationMatch {
        id,
        path,
        range: TextRange {
            start: TextPoint { row, column: start },
            end: TextPoint { row, column: end },
        },
        line_number: row + 1,
    })
}

fn default_options() -> SearchOptions {
    SearchOptions { case_sensitive: false, whole_word: false, regex: false, include_ignored: false }
}

/// The project holds one.rs: "const ONE: usize = 1;\nconst ONEROUS: usize = 2;"
/// and two.rs: "const TWO: usize = one::ONE + one::ONE;".
/// "ONEROUS" matches once, in one.rs.
fn onerous_reports() -> Vec<SearchEvent> {
    vec![
        SearchEvent::WaitingForScan,
        SearchEvent::Buffer(vec![found(10, one_rs(), 1, 6, 13)]),
        SearchEvent::Searching,
    ]
}

/// "ONE" matches twice in one.rs and four times in two.rs (case
/// insensitively); the buffers come in as the search finds them.
fn one_reports() -> Vec<SearchEvent> {
    vec![
        SearchEvent::Buffer(vec![
            found(20, two_rs(), 0, 19, 22),
            found(21, two_rs(), 0, 24, 27),
            found(22, two_rs(), 0, 30, 33),
            found(23, two_rs(), 0, 35, 38),
        ]),
        SearchEvent::Buffer(vec![found(24, one_rs(), 0, 6, 9), found(25, one_rs(), 1, 6, 9)]),
    ]
}

fn run_search(panel: &mut SearchPanel, reports: Vec<SearchEvent>) {
    assert!(panel.search(Ok(()), Ok(()), Ok(false)));
    assert!(panel.list.searching);
    panel.finish_search(reports);
}

#[test]
fn test_toggle_action_toggles_panel() {
    // The panel contributes a button to the panel buttons group while the
    // search button is enabled in the settings.
    assert!(
        SearchPanel::shows_icon(true),
        "the search panel should appear in the panel buttons group"
    );
    assert!(!SearchPanel::shows_icon(false));
}

#[test]
fn test_confirm_runs_search_and_shows_results() {
    let mut panel = SearchPanel::new(default_options());
    run_search(&mut panel, onerous_reports());
    let results = panel.list.results.as_ref().expect("results should be set");
    assert!(!panel.list.searching, "search should have completed");
    assert_eq!(results.matches.len(), 1, "ONEROUS appears once");
    assert_eq!(results.entries.len(), 2, "one file header plus the match row");
}

#[test]
fn test_collapsing_a_file_group() {
    let mut panel = SearchPanel::new(default_options());
    run_search(&mut panel, one_reports());

    let results = panel.list.results.as_ref().expect("results should be set");
    let one_path = match &results.entries[0] {
        Entry::Header(path) => *path,
        Entry::Match(_) => panic!("the first entry should be a file header"),
    };
    assert_eq!(results.entries.len(), 8, "two file headers plus six match rows");

    panel.toggle_group(one_path);
    assert_eq!(
        panel.list.results.as_ref().unwrap().entries.len(),
        6,
        "collapsing one file keeps only its header and the other file's rows"
    );
    assert!(!panel.list.all_collapsed(), "one collapsed file out of two is not all");

    panel.set_all_collapsed(true);
    assert_eq!(
        panel.list.results.as_ref().unwrap().entries.len(),
        2,
        "collapse all keeps only the headers"
    );
    assert!(panel.list.all_collapsed());

    panel.set_all_collapsed(false);
    assert_eq!(
        panel.list.results.as_ref().unwrap().entries.len(),
        8,
        "expanding all restores every match row"
    );
}

#[test]
fn test_empty_query_does_not_start_search() {
    let mut panel = SearchPanel::new(default_options());
    assert!(!panel.search(Ok(()), Ok(()), Ok(true)));
    assert!(panel.list.results.is_none(), "no query should not run a search");
    assert!(!panel.list.searching);
}

#[test]
fn test_invalid_regex_shows_error_without_searching() {
    let mut panel = SearchPanel::new(default_options());
    panel.toggle_search_option(SearchOption::Regex);
    assert!(panel.search_options.regex);
    let started = panel.search(Ok(()), Ok(()), Err("unclosed character class".to_string()));
    assert!(!started);
    assert!(panel.query_error.is_some(), "an invalid regex should show an error");
    assert!(!panel.list.searching);
    assert!(panel.list.results.is_none());
}

#[test]
fn test_opening_match_opens_buffer_in_editor() {
    let mut panel = SearchPanel::new(default_options());
    run_search(&mut panel, onerous_reports());
    let opened = panel.list.open_entry(1);
    assert_eq!(opened, Some(0), "opening a match should open its buffer in the pane");
    assert_eq!(panel.list.results.as_ref().unwrap().matches[0].id, 10);
}

#[test]
fn matches_are_grouped_by_file_and_ordered_by_position() {
    let mut panel = SearchPanel::new(default_options());
    run_search(&mut panel, one_reports());
    let results = panel.list.results.as_ref().unwrap();
    let ids: Vec<u64> = results.matches.iter().map(|m| m.id).collect();
    assert_eq!(ids, vec![24, 25, 20, 21, 22, 23]);
    assert_eq!(
        results.entries,
        vec![
            Entry::Header(one_rs()),
            Entry::Match(0),
            Entry::Match(1),
            Entry::Header(two_rs()),
            Entry::Match(2),
            Entry::Match(3),
            Entry::Match(4),
            Entry::Match(5),
        ]
    );
}

#[test]
fn repeated_ranges_are_dropped_and_ties_keep_their_order() {
    let mut panel = SearchPanel::new(default_options());
    let reports = vec![SearchEvent::Buffer(vec![
        found(1, two_rs(), 0, 5, 9),
        found(2, one_rs(), 3, 0, 4),
        None,
        found(3, one_rs(), 3, 0, 2),
        found(4, one_rs(), 3, 0, 4),
        found(5, two_rs(), 0, 5, 9),
    ])];
    run_search(&mut panel, reports);
    let ids: Vec<u64> = panel.list.results.as_ref().unwrap().matches.iter().map(|m| m.id).collect();
    // one.rs 3:0 ties three ways and keeps the order 2, 3, 4; 4 repeats the
    // range of 2 and is dropped; two.rs 0:5..9 twice keeps the first.
    assert_eq!(ids, vec![2, 3, 1]);
}

#[test]
fn limit_reached_is_reported() {
    let mut panel = SearchPanel::new(default_options());
    let mut reports = onerous_reports();
    reports.push(SearchEvent::LimitReached);
    run_search(&mut panel, reports);
    assert!(panel.limit_reached);
    assert!(panel.search(Ok(()), Ok(()), Ok(false)));
    assert!(!panel.limit_reached);
    assert!(panel.list.results.is_none());
}

#[test]
fn finished_search_scrolls_to_the_top() {
    let mut panel = SearchPanel::new(default_options());
    assert!(panel.search(Ok(()), Ok(()), Ok(false)));
    let scroll = panel.finish_search(onerous_reports());
    assert_eq!(scroll, ScrollRequest { index: 0, strategy: ScrollStrategy::Top });
}

#[test]
fn collapsing_scrolls_to_the_top_only_with_results() {
    let mut panel = SearchPanel::new(default_options());
    assert_eq!(panel.toggle_group(one_rs()), None);
    assert_eq!(panel.set_all_collapsed(true), None);
    run_search(&mut panel, one_reports());
    assert_eq!(
        panel.toggle_group(two_rs()),
        Some(ScrollRequest { index: 0, strategy: ScrollStrategy::Top })
    );
    assert_eq!(panel.list.results.as_ref().unwrap().entries.len(), 4);
}

#[test]
fn filter_errors_count_only_while_filters_are_shown() {
    let mut panel = SearchPanel::new(default_options());
    assert!(panel.search(Err("bad glob".to_string()), Ok(()), Ok(false)));
    assert!(panel.include_error.is_none());

    panel.toggle_filters();
    assert!(panel.filters_enabled);
    assert!(!panel.search(Err("bad glob".to_string()), Err("worse glob".to_string()), Ok(false)));
    assert_eq!(panel.include_error.as_deref(), Some("bad glob"));
    assert_eq!(panel.exclude_error.as_deref(), Some("worse glob"));
    assert_eq!(panel.filter_error().as_deref(), Some("bad glob"));

    assert!(!panel.search(Ok(()), Err("worse glob".to_string()), Ok(false)));
    assert_eq!(panel.filter_error().as_deref(), Some("worse glob"));

    panel.toggle_filters();
    assert!(!panel.filters_enabled);
    assert!(panel.include_error.is_none());
    assert!(panel.exclude_error.is_none());
    assert_eq!(panel.filter_error(), None);
}

#[test]
fn a_valid_query_clears_the_old_query_error() {
    let mut panel = SearchPanel::new(default_options());
    assert!(!panel.search(Ok(()), Ok(()), Err("bad".to_string())));
    assert!(panel.query_error.is_some());
    assert!(panel.search(Ok(()), Ok(()), Ok(false)));
    assert!(panel.query_error.is_none());
}

#[test]
fn options_toggle_one_at_a_time() {
    let mut panel = SearchPanel::new(default_options());
    panel.toggle_search_option(SearchOption::CaseSensitive);
    panel.toggle_search_option(SearchOption::WholeWord);
    panel.toggle_search_option(SearchOption::IncludeIgnored);
    panel.toggle_search_option(SearchOption::WholeWord);
    assert_eq!(
        panel.search_options,
        SearchOptions { case_sensitive: true, whole_word: false, regex: false, include_ignored: true }
    );
    panel.toggle_opened_only();
    assert!(panel.included_opened_only);
    panel.toggle_opened_only();
    assert!(!panel.included_opened_only);
}

#[test]
fn summary_counts_matches_and_files() {
    let mut panel = SearchPanel::new(default_options());
    run_search(&mut panel, one_reports());
    assert_eq!(panel.list.results.as_ref().unwrap().summary(), "6 results in 2 files");
    run_search(&mut panel, onerous_reports());
    assert_eq!(panel.list.results.as_ref().unwrap().summary(), "1 result in 1 file");
}

#[test]
fn empty_state_and_content_views() {
    let mut panel = SearchPanel::new(default_options());
    assert_eq!(panel.list.content_view(), ContentView::Hint);
    assert_eq!(panel.empty_state_lines(), vec!["Run a search with Enter", "to see results here"]);
    assert!(panel.search(Ok(()), Ok(()), Ok(false)));
    assert_eq!(panel.list.content_view(), ContentView::Searching);
    panel.finish_search(vec![SearchEvent::Searching]);
    assert_eq!(panel.list.content_view(), ContentView::NoResults);
    assert_eq!(panel.empty_state_lines(), vec!["No results found"]);
}

#[test]
fn collapse_button_alternates() {
    let mut panel = SearchPanel::new(default_options());
    run_search(&mut panel, one_reports());
    assert_eq!(panel.list.collapse_button_tooltip(), "Collapse All");
    panel.toggle_all_collapsed();
    assert_eq!(panel.list.results.as_ref().unwrap().entries.len(), 2);
    assert_eq!(panel.list.collapse_button_tooltip(), "Expand All");
    panel.toggle_all_collapsed();
    assert_eq!(panel.list.results.as_ref().unwrap().entries.len(), 8);
    assert_eq!(panel.list.collapse_button_tooltip(), "Collapse All");
}

#[test]
fn search_panel_metadata() {
    assert_eq!(SearchPanel::persistent_name(), "Search Panel");
    assert_eq!(SearchPanel::panel_key(), "SearchPanel");
    assert_eq!(SearchPanel::icon_tooltip(), "Search");
    assert_eq!(SearchPanel::activation_priority(), 4);
    assert_eq!(SearchPanel::default_size(), 320);
    assert_eq!(SearchPanel::position(), DockPosition::Left);
    assert!(SearchPanel::position_is_valid(DockPosition::Left));
    assert!(!SearchPanel::position_is_valid(DockPosition::Bottom));
}

#[test]
fn path_filters_are_trimmed_and_blank_patterns_dropped() {
    assert_eq!(trim("  src/**  "), "src/**");
    assert_eq!(trim("\t\u{3000}a b\u{a0}\n"), "a b");
    assert_eq!(trim(" \u{2003} "), "");
    assert_eq!(trim("x"), "x");
    let queries = path_queries(&vec![" *.rs", "   ", "", "docs/ ", "\u{85}tests\u{85}"]);
    assert_eq!(queries, vec!["*.rs".to_string(), "docs/".to_string(), "tests".to_string()]);
}

#[test]
fn dispatch_contexts() {
    assert_eq!(SearchPanel::dispatch_context(), vec!["SearchPanel", "menu"]);
    assert_eq!(
        ReferencesPanel::dispatch_context(),
        vec!["ReferencesPanel", "menu"]
    );
}

#[test]
fn white_space_agrees_with_the_standard_library() {
    for c in (0u32..0x11_0000).filter_map(char::from_u32) {
        assert_eq!(char_is_white_space(c), c.is_whitespace(), "{:?}", c);
    }
    for text in ["", " ", "a", " a ", "\u{2028}x\u{2029}", "x\u{200b}", "\u{205f}\u{202f}y z\r\n"] {
        assert_eq!(trim(text), text.trim());
    }
}

#[test]
fn query_inputs_follow_worktrees_filters_and_opened_only() {
    let mut panel = SearchPanel::new(default_options());
    let inputs = |full: bool, filters: bool, open: bool| QueryInputs {
        match_full_paths: full,
        use_path_filters: filters,
        open_buffers_only: open,
    };
    assert_eq!(panel.query_inputs(1), inputs(false, false, false));
    assert_eq!(panel.query_inputs(2), inputs(true, false, false));
    assert_eq!(panel.query_inputs(0), inputs(false, false, false));
    panel.toggle_opened_only();
    assert_eq!(panel.query_inputs(3), inputs(true, false, true));
    panel.toggle_filters();
    assert_eq!(panel.query_inputs(1), inputs(false, true, true));
}

#[test]
fn hidden_filters_keep_no_errors() {
    let mut panel = SearchPanel::new(default_options());
    panel.toggle_filters();
    assert!(!panel.search(Err("bad".to_string()), Ok(()), Ok(false)));
    assert!(panel.include_error.is_some());
    panel.toggle_filters();
    assert!(panel.include_error.is_none());
    assert!(panel.search(Err("bad".to_string()), Err("bad".to_string()), Ok(false)));
    assert!(panel.include_error.is_none());
    assert!(panel.exclude_error.is_none());
}

#[test]
fn header_title_and_buttons() {
    let mut panel = SearchPanel::new(default_options());
    let header = panel.header();
    assert_eq!(header.title, "Search");
    assert_eq!(header.open_search_editor_tooltip, Some("Open Search Editor"));
    assert_eq!(header.collapse_icon, CollapseIcon::ListCollapse);
    assert_eq!(header.collapse_tooltip, "Collapse All");
    run_search(&mut panel, one_reports());
    panel.set_all_collapsed(true);
    let header = panel.header();
    assert_eq!(header.collapse_icon, CollapseIcon::ListExpand);
    assert_eq!(header.collapse_tooltip, "Expand All");
}

#[test]
fn limit_and_loading_labels() {
    let mut panel = SearchPanel::new(default_options());
    assert_eq!(panel.limit_label(), None);
    assert_eq!(panel.loading_label(), None);
    assert!(panel.search(Ok(()), Ok(()), Ok(false)));
    assert_eq!(panel.loading_label(), Some("Searching"));
    let mut reports = onerous_reports();
    reports.push(SearchEvent::LimitReached);
    panel.finish_search(reports);
    assert_eq!(panel.loading_label(), None);
    assert_eq!(panel.limit_label(), Some("search results are limited"));
}

#[test]
fn search_bar_shows_errors_and_filters() {
    let mut panel = SearchPanel::new(default_options());
    let bar = panel.search_bar();
    assert_eq!(bar.query_error, None);
    assert!(!bar.query_border_error);
    assert!(!bar.filter_button_toggled);
    assert!(!bar.filters_shown);
    assert_eq!(bar.filter_error, None);

    panel.toggle_filters();
    panel.toggle_opened_only();
    panel.toggle_search_option(SearchOption::IncludeIgnored);
    assert!(!panel.search(Ok(()), Err("bad exclude".to_string()), Err("bad regex".to_string())));
    let bar = panel.search_bar();
    assert_eq!(bar.query_error.as_deref(), Some("bad regex"));
    assert!(bar.query_border_error);
    assert!(bar.filter_button_toggled);
    assert!(bar.filters_shown);
    assert!(!bar.include_border_error);
    assert!(bar.exclude_border_error);
    assert!(bar.opened_only_toggled);
    assert!(bar.options.include_ignored);
    assert_eq!(bar.filter_error.as_deref(), Some("bad exclude"));
}
