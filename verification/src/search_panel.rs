//! The search panel: the project search bar (query, options and path
//! filters) with the matches listed below it, grouped by file.

use vstd::prelude::*;
use crate::location::{LocationMatch, ProjectPath};
use crate::entries::entries_for;
use crate::grouping::{grouped_matches, group_matches, is_in_order, no_repeated_locations, lemma_grouped_matches_properties};
use crate::results_list::{ResultsList, ScrollRequest, ScrollStrategy, ContentView, paths_of, CollapseIcon, PanelHeader};
use crate::dock::{DockPosition, left_dock_only};

verus! {

/// One option of the search bar.
#[derive(Clone, Copy, Debug, PartialEq, Eq, Structural)]
pub enum SearchOption {
    CaseSensitive,
    WholeWord,
    Regex,
    IncludeIgnored,
}

/// The options of the search bar that are on.
#[derive(Clone, Copy, Debug, PartialEq, Eq, Structural)]
pub struct SearchOptions {
    pub case_sensitive: bool,
    pub whole_word: bool,
    pub regex: bool,
    pub include_ignored: bool,
}

impl SearchOptions {
    /// Whether `option` is on.
    pub open spec fn has(self, option: SearchOption) -> bool {
        match option {
            SearchOption::CaseSensitive => self.case_sensitive,
            SearchOption::WholeWord => self.whole_word,
            SearchOption::Regex => self.regex,
            SearchOption::IncludeIgnored => self.include_ignored,
        }
    }

    /// Turns `option` off if it is on, on if it is off.
    pub fn toggle(&mut self, option: SearchOption)
        ensures
            final(self).has(option) == !old(self).has(option),
            forall|other: SearchOption| other != option ==> final(self).has(other) == old(self).has(other),
    {
        match option {
            SearchOption::CaseSensitive => self.case_sensitive = !self.case_sensitive,
            SearchOption::WholeWord => self.whole_word = !self.whole_word,
            SearchOption::Regex => self.regex = !self.regex,
            SearchOption::IncludeIgnored => self.include_ignored = !self.include_ignored,
        }
    }
}

/// One report of a running project search.
pub enum SearchEvent {
    /// Ranges matched in one buffer, each as the location it shows, or `None`
    /// where the range could not be turned into one.
    Buffer(Vec<Option<LocationMatch>>),
    /// The search stopped at its limit of results.
    LimitReached,
    Searching,
    WaitingForScan,
}

/// The message of a failed step, if it failed.
pub open spec fn error_of(result: Result<(), String>) -> Option<Seq<char>> {
    match result {
        Ok(_) => None,
        Err(message) => Some(message@),
    }
}

/// The message of a failed query build, if it failed.
pub open spec fn query_error_of(result: Result<bool, String>) -> Option<Seq<char>> {
    match result {
        Ok(_) => None,
        Err(message) => Some(message@),
    }
}

/// The text of an optional message.
pub open spec fn message_view(message: Option<String>) -> Option<Seq<char>> {
    match message {
        Some(text) => Some(text@),
        None => None,
    }
}

/// The locations of `found`, in order, without the ranges that could not be
/// turned into one.
pub open spec fn present(found: Seq<Option<LocationMatch>>) -> Seq<LocationMatch>
    decreases found.len(),
{
    if found.len() == 0 {
        Seq::empty()
    } else {
        match found.last() {
            Some(m) => present(found.drop_last()).push(m),
            None => present(found.drop_last()),
        }
    }
}

/// The ranges that `events` report, in order.
pub open spec fn reported(events: Seq<SearchEvent>) -> Seq<Option<LocationMatch>>
    decreases events.len(),
{
    if events.len() == 0 {
        Seq::empty()
    } else {
        match events.last() {
            SearchEvent::Buffer(found) => reported(events.drop_last()) + found@,
            _ => reported(events.drop_last()),
        }
    }
}

/// One of `events` says that the search stopped at its limit.
pub open spec fn reports_limit(events: Seq<SearchEvent>) -> bool {
    exists|i: int| 0 <= i < events.len() && events[i] is LimitReached
}

/// What the query is built with besides its text and options.
#[derive(Clone, Copy, Debug, PartialEq, Eq, Structural)]
pub struct QueryInputs {
    /// The path filters match full paths rather than worktree-relative ones.
    pub match_full_paths: bool,
    /// The parsed path filters go into the query; otherwise it is built with
    /// empty path matchers.
    pub use_path_filters: bool,
    /// The search is limited to the buffers open in the workspace.
    pub open_buffers_only: bool,
}

/// What the search bar shows.
pub struct SearchBarView {
    /// The error line under the query input, shown when there is one.
    pub query_error: Option<String>,
    /// The query input has an error border.
    pub query_border_error: bool,
    /// The toggle states of the option buttons.
    pub options: SearchOptions,
    /// The filter button is toggled on.
    pub filter_button_toggled: bool,
    /// The included and excluded path inputs and the buttons for searching
    /// only open files and including ignored files are shown.
    pub filters_shown: bool,
    /// The included paths input has an error border.
    pub include_border_error: bool,
    /// The excluded paths input has an error border.
    pub exclude_border_error: bool,
    /// The "only search open files" button is toggled on.
    pub opened_only_toggled: bool,
    /// The error line under the path filters, shown when there is one.
    pub filter_error: Option<String>,
}

/// The search panel.
pub struct SearchPanel {
    pub list: ResultsList,
    pub search_options: SearchOptions,
    pub filters_enabled: bool,
    pub included_opened_only: bool,
    pub query_error: Option<String>,
    pub include_error: Option<String>,
    pub exclude_error: Option<String>,
    /// Whether the last search stopped at its limit of results.
    pub limit_reached: bool,
}

impl SearchPanel {
    /// `self` and `other` have the same search bar: options, filters, errors
    /// and limit flag.
    pub open spec fn same_search_bar(&self, other: &SearchPanel) -> bool {
        &&& self.search_options == other.search_options
        &&& self.filters_enabled == other.filters_enabled
        &&& self.included_opened_only == other.included_opened_only
        &&& self.query_error == other.query_error
        &&& self.include_error == other.include_error
        &&& self.exclude_error == other.exclude_error
        &&& self.limit_reached == other.limit_reached
    }

    /// The list is consistent, its matches are grouped by file, ordered by
    /// position and free of repeated ranges, and while the path filters are
    /// hidden no filter error is set.
    pub open spec fn wf(&self) -> bool {
        &&& self.list.wf()
        &&& (self.list.results matches Some(r) ==> is_in_order(r.matches@) && no_repeated_locations(r.matches@))
        &&& (!self.filters_enabled ==> self.include_error is None && self.exclude_error is None)
    }

    /// A panel with the given option defaults and no search run yet.
    pub fn new(search_options: SearchOptions) -> (panel: Self)
        ensures
            panel.wf(),
            panel.search_options == search_options,
            !panel.filters_enabled,
            !panel.included_opened_only,
            panel.query_error is None,
            panel.include_error is None,
            panel.exclude_error is None,
            !panel.limit_reached,
            !panel.list.searching,
            panel.list.collapsed_files@ == Set::<ProjectPath>::empty(),
            panel.list.results is None,
            panel.list.selected_entry is None,
    {
        SearchPanel {
            list: ResultsList::new(),
            search_options,
            filters_enabled: false,
            included_opened_only: false,
            query_error: None,
            include_error: None,
            exclude_error: None,
            limit_reached: false,
        }
    }

    /// Turns a search option on or off.
    pub fn toggle_search_option(&mut self, option: SearchOption)
        ensures
            old(self).wf() ==> final(self).wf(),
            final(self).search_options.has(option) == !old(self).search_options.has(option),
            forall|other: SearchOption| other != option ==> final(self).search_options.has(other)
                == old(self).search_options.has(other),
            final(self).list == old(self).list,
            final(self).filters_enabled == old(self).filters_enabled,
            final(self).included_opened_only == old(self).included_opened_only,
            final(self).query_error == old(self).query_error,
            final(self).include_error == old(self).include_error,
            final(self).exclude_error == old(self).exclude_error,
            final(self).limit_reached == old(self).limit_reached,
    {
        self.search_options.toggle(option);
    }

    /// Shows or hides the path filters; their errors are cleared.
    pub fn toggle_filters(&mut self)
        ensures
            old(self).wf() ==> final(self).wf(),
            final(self).filters_enabled == !old(self).filters_enabled,
            final(self).include_error is None,
            final(self).exclude_error is None,
            final(self).included_opened_only == old(self).included_opened_only,
            final(self).query_error == old(self).query_error,
            final(self).search_options == old(self).search_options,
            final(self).limit_reached == old(self).limit_reached,
            final(self).list == old(self).list,
    {
        self.filters_enabled = !self.filters_enabled;
        self.include_error = None;
        self.exclude_error = None;
    }

    /// Searches only the open files, or all files again.
    pub fn toggle_opened_only(&mut self)
        ensures
            old(self).wf() ==> final(self).wf(),
            final(self).included_opened_only == !old(self).included_opened_only,
            final(self).filters_enabled == old(self).filters_enabled,
            final(self).search_options == old(self).search_options,
            final(self).query_error == old(self).query_error,
            final(self).include_error == old(self).include_error,
            final(self).exclude_error == old(self).exclude_error,
            final(self).limit_reached == old(self).limit_reached,
            final(self).list == old(self).list,
    {
        self.included_opened_only = !self.included_opened_only;
    }

    /// What the query is built with besides its text and options: the
    /// path filters match full paths when the project shows more than one
    /// worktree (so that the worktrees can be told apart; with one worktree
    /// they match worktree-relative paths); the parsed path filters are used
    /// only while they are shown, else the query gets empty path matchers;
    /// and the search is limited to the open buffers when "only search open
    /// files" is on.
    pub fn query_inputs(&self, visible_worktrees: usize) -> (inputs: QueryInputs)
        ensures
            inputs.match_full_paths == (visible_worktrees > 1),
            inputs.use_path_filters == self.filters_enabled,
            inputs.open_buffers_only == self.included_opened_only,
    {
        QueryInputs {
            match_full_paths: visible_worktrees > 1,
            use_path_filters: self.filters_enabled,
            open_buffers_only: self.included_opened_only,
        }
    }

    /// Records how building the search query went, and says whether the
    /// search may run. `included` and `excluded` are the parsing of the path
    /// filters, which counts only while the filters are shown; `query` is
    /// the building of the query from its text: whether the query is empty,
    /// or why it could not be built. A search runs only without any error
    /// and with a query that is not empty.
    pub fn build_search_query(
        &mut self,
        included: Result<(), String>,
        excluded: Result<(), String>,
        query: Result<bool, String>,
    ) -> (runs: bool)
        ensures
            old(self).wf() ==> final(self).wf(),
            final(self).filters_enabled == old(self).filters_enabled,
            final(self).included_opened_only == old(self).included_opened_only,
            final(self).search_options == old(self).search_options,
            final(self).limit_reached == old(self).limit_reached,
            final(self).list == old(self).list,
            message_view(final(self).include_error) == if old(self).filters_enabled {
                error_of(included)
            } else {
                message_view(old(self).include_error)
            },
            message_view(final(self).exclude_error) == if old(self).filters_enabled {
                error_of(excluded)
            } else {
                message_view(old(self).exclude_error)
            },
            message_view(final(self).query_error) == query_error_of(query),
            runs == (final(self).query_error is None && final(self).include_error is None
                && final(self).exclude_error is None && query != Ok::<bool, String>(true)),
    {
        if self.filters_enabled {
            self.include_error = match included {
                Ok(_) => None,
                Err(message) => Some(message),
            };
            self.exclude_error = match excluded {
                Ok(_) => None,
                Err(message) => Some(message),
            };
        }
        let is_empty = match query {
            Ok(is_empty) => {
                self.query_error = None;
                is_empty
            },
            Err(message) => {
                self.query_error = Some(message);
                false
            },
        };
        if self.query_error.is_some() || self.include_error.is_some() || self.exclude_error.is_some() {
            return false;
        }
        !is_empty
    }

    /// Starts a search with the panel's query, options and filters (see
    /// `build_search_query`): the old results are dropped and the panel
    /// shows that it is searching. Returns whether the search started; the
    /// caller then runs it and hands its reports to `finish_search`.
    pub fn search(
        &mut self,
        included: Result<(), String>,
        excluded: Result<(), String>,
        query: Result<bool, String>,
    ) -> (started: bool)
        requires
            old(self).wf(),
        ensures
            final(self).wf(),
            final(self).filters_enabled == old(self).filters_enabled,
            final(self).search_options == old(self).search_options,
            final(self).included_opened_only == old(self).included_opened_only,
            message_view(final(self).include_error) == if old(self).filters_enabled {
                error_of(included)
            } else {
                message_view(old(self).include_error)
            },
            message_view(final(self).exclude_error) == if old(self).filters_enabled {
                error_of(excluded)
            } else {
                message_view(old(self).exclude_error)
            },
            message_view(final(self).query_error) == query_error_of(query),
            started == (final(self).query_error is None && final(self).include_error is None
                && final(self).exclude_error is None && query != Ok::<bool, String>(true)),
            final(self).list.collapsed_files@ == old(self).list.collapsed_files@,
            started ==> {
                &&& final(self).list.searching
                &&& final(self).list.content_view_spec() == ContentView::Searching
                &&& final(self).list.results is None
                &&& final(self).list.selected_entry is None
                &&& !final(self).limit_reached
            },
            !started ==> {
                &&& final(self).list == old(self).list
                &&& final(self).limit_reached == old(self).limit_reached
            },
    {
        if !self.build_search_query(included, excluded, query) {
            return false;
        }
        self.list.searching = true;
        self.list.results = None;
        self.list.selected_entry = None;
        self.limit_reached = false;
        true
    }

    /// Shows the matches of a finished search: the locations that could be
    /// built from its ranges, grouped by file, ordered by position and
    /// without repeated ranges; every group expanded, nothing selected,
    /// scrolled to the top.
    pub fn set_results(&mut self, found: Vec<Option<LocationMatch>>, limit_reached: bool) -> (scroll: ScrollRequest)
        requires
            old(self).wf(),
        ensures
            final(self).wf(),
            !final(self).list.searching,
            final(self).limit_reached == limit_reached,
            final(self).list.collapsed_files@ == Set::<ProjectPath>::empty(),
            final(self).list.results_view() == Some((
                entries_for(grouped_matches(present(found@)), Set::<ProjectPath>::empty()),
                grouped_matches(present(found@)),
            )),
            final(self).list.selected_entry is None,
            final(self).search_options == old(self).search_options,
            final(self).filters_enabled == old(self).filters_enabled,
            final(self).included_opened_only == old(self).included_opened_only,
            final(self).query_error == old(self).query_error,
            final(self).include_error == old(self).include_error,
            final(self).exclude_error == old(self).exclude_error,
            scroll == (ScrollRequest { index: 0, strategy: ScrollStrategy::Top }),
    {
        self.limit_reached = limit_reached;
        let mut location_matches: Vec<LocationMatch> = Vec::new();
        let mut i: usize = 0;
        while i < found.len()
            invariant
                i <= found@.len(),
                location_matches@ == present(found@.take(i as int)),
            decreases found@.len() - i,
        {
            proof {
                let t = found@.take(i + 1);
                assert(t.drop_last() == found@.take(i as int));
                assert(t.last() == found@[i as int]);
            }
            if let Some(location_match) = found[i] {
                location_matches.push(location_match);
            }
            i += 1;
        }
        assert(found@.take(found@.len() as int) == found@);
        let grouped = group_matches(&location_matches);
        proof {
            lemma_grouped_matches_properties(location_matches@);
        }
        self.list.set_results(grouped)
    }

    /// A search finished with these reports: its matches become the panel's
    /// results, and the limit flag tells whether it stopped at its limit.
    pub fn finish_search(&mut self, events: Vec<SearchEvent>) -> (scroll: ScrollRequest)
        requires
            old(self).wf(),
        ensures
            final(self).wf(),
            !final(self).list.searching,
            final(self).limit_reached == reports_limit(events@),
            final(self).list.collapsed_files@ == Set::<ProjectPath>::empty(),
            final(self).list.results_view() == Some((
                entries_for(grouped_matches(present(reported(events@))), Set::<ProjectPath>::empty()),
                grouped_matches(present(reported(events@))),
            )),
            final(self).list.selected_entry is None,
            final(self).search_options == old(self).search_options,
            final(self).filters_enabled == old(self).filters_enabled,
            final(self).included_opened_only == old(self).included_opened_only,
            final(self).query_error == old(self).query_error,
            final(self).include_error == old(self).include_error,
            final(self).exclude_error == old(self).exclude_error,
            scroll == (ScrollRequest { index: 0, strategy: ScrollStrategy::Top }),
    {
        let mut found: Vec<Option<LocationMatch>> = Vec::new();
        let mut limit_reached = false;
        let mut i: usize = 0;
        while i < events.len()
            invariant
                i <= events@.len(),
                found@ == reported(events@.take(i as int)),
                limit_reached == reports_limit(events@.take(i as int)),
            decreases events@.len() - i,
        {
            proof {
                let t = events@.take(i + 1);
                assert(t.drop_last() == events@.take(i as int));
                assert(t.last() == events@[i as int]);
            }
            match &events[i] {
                SearchEvent::Buffer(ranges) => {
                    let mut k: usize = 0;
                    let ghost before = found@;
                    while k < ranges.len()
                        invariant
                            k <= ranges@.len(),
                            found@ == before + ranges@.take(k as int),
                        decreases ranges@.len() - k,
                    {
                        found.push(ranges[k]);
                        assert(before + ranges@.take(k + 1) =~= (before + ranges@.take(k as int)).push(ranges@[k as int]));
                        k += 1;
                    }
                    assert(ranges@.take(ranges@.len() as int) == ranges@);
                    proof {
                        let t = events@.take(i + 1);
                        assert(!(t.last() is LimitReached));
                        assert(reports_limit(t) == reports_limit(events@.take(i as int))) by {
                            if reports_limit(t) {
                                let j = choose|j: int| 0 <= j < t.len() && t[j] is LimitReached;
                                assert(j < i);
                                assert(events@.take(i as int)[j] is LimitReached);
                            }
                            if reports_limit(events@.take(i as int)) {
                                let j = choose|j: int| 0 <= j < i && events@.take(i as int)[j] is LimitReached;
                                assert(t[j] is LimitReached);
                            }
                        }
                    }
                },
                SearchEvent::LimitReached => {
                    limit_reached = true;
                    proof {
                        let t = events@.take(i + 1);
                        assert(t[i as int] is LimitReached);
                    }
                },
                _ => {
                    proof {
                        let t = events@.take(i + 1);
                        assert(reports_limit(t) == reports_limit(events@.take(i as int))) by {
                            if reports_limit(t) {
                                let j = choose|j: int| 0 <= j < t.len() && t[j] is LimitReached;
                                assert(j < i);
                                assert(events@.take(i as int)[j] is LimitReached);
                            }
                            if reports_limit(events@.take(i as int)) {
                                let j = choose|j: int| 0 <= j < i && events@.take(i as int)[j] is LimitReached;
                                assert(t[j] is LimitReached);
                            }
                        }
                    }
                },
            }
            i += 1;
        }
        assert(events@.take(events@.len() as int) == events@);
        self.set_results(found, limit_reached)
    }

    /// Rebuilds the rows after the collapsed files changed: the selection
    /// is cleared and, when there are results, the list scrolls to the top.
    pub fn rebuild_entries(&mut self) -> (scroll: Option<ScrollRequest>)
        requires
            old(self).wf(),
        ensures
            final(self).wf(),
            final(self).list.searching == old(self).list.searching,
            final(self).same_search_bar(old(self)),
            final(self).list.collapsed_files@ == old(self).list.collapsed_files@,
            final(self).list.results_view() == old(self).list.results_view(),
            final(self).list.selected_entry is None,
            scroll == if old(self).list.results is Some {
                Some(ScrollRequest { index: 0, strategy: ScrollStrategy::Top })
            } else {
                None
            },
    {
        self.list.rebuild_entries();
        self.scroll_to_top_if_listed()
    }

    fn scroll_to_top_if_listed(&self) -> (scroll: Option<ScrollRequest>)
        ensures
            scroll == if self.list.results is Some {
                Some(ScrollRequest { index: 0, strategy: ScrollStrategy::Top })
            } else {
                None
            },
    {
        if self.list.results.is_some() {
            Some(ScrollRequest { index: 0, strategy: ScrollStrategy::Top })
        } else {
            None
        }
    }

    /// Collapses or expands the group of `path`; when there are results the
    /// list scrolls to the top.
    pub fn toggle_group(&mut self, path: ProjectPath) -> (scroll: Option<ScrollRequest>)
        requires
            old(self).wf(),
        ensures
            final(self).wf(),
            final(self).list.searching == old(self).list.searching,
            final(self).same_search_bar(old(self)),
            final(self).list.collapsed_files@ == crate::results_list::toggled(old(self).list.collapsed_files@, path),
            final(self).list.results_view() == match old(self).list.results_view() {
                Some((_, matches)) => Some((entries_for(matches, crate::results_list::toggled(old(self).list.collapsed_files@, path)), matches)),
                None => None,
            },
            final(self).list.selected_entry is None,
            scroll == if old(self).list.results is Some {
                Some(ScrollRequest { index: 0, strategy: ScrollStrategy::Top })
            } else {
                None
            },
    {
        self.list.toggle_group(path);
        self.scroll_to_top_if_listed()
    }

    /// Collapses or expands all groups at once; when there are results the
    /// list scrolls to the top.
    pub fn set_all_collapsed(&mut self, collapsed: bool) -> (scroll: Option<ScrollRequest>)
        requires
            old(self).wf(),
        ensures
            final(self).wf(),
            final(self).list.searching == old(self).list.searching,
            final(self).same_search_bar(old(self)),
            match old(self).list.results_view() {
                Some((_, matches)) => {
                    let files = if collapsed { paths_of(matches) } else { Set::<ProjectPath>::empty() };
                    &&& final(self).list.collapsed_files@ == files
                    &&& final(self).list.results_view() == Some((entries_for(matches, files), matches))
                    &&& final(self).list.selected_entry is None
                    &&& scroll == Some(ScrollRequest { index: 0, strategy: ScrollStrategy::Top })
                },
                None => {
                    &&& final(self).list.collapsed_files@ == old(self).list.collapsed_files@
                    &&& final(self).list.results_view() == old(self).list.results_view()
                    &&& final(self).list.selected_entry == old(self).list.selected_entry
                    &&& scroll is None
                },
            },
    {
        self.list.set_all_collapsed(collapsed);
        self.scroll_to_top_if_listed()
    }

    /// The collapse button of the header: collapses every group, or expands
    /// them all when every group is collapsed already.
    pub fn toggle_all_collapsed(&mut self) -> (scroll: Option<ScrollRequest>)
        requires
            old(self).wf(),
        ensures
            final(self).wf(),
            final(self).list.searching == old(self).list.searching,
            final(self).same_search_bar(old(self)),
            match old(self).list.results_view() {
                Some((_, matches)) => {
                    let was_all = paths_of(matches).len() > 0 && old(self).list.collapsed_files@.len() == paths_of(matches).len();
                    let files = if !was_all { paths_of(matches) } else { Set::<ProjectPath>::empty() };
                    &&& final(self).list.collapsed_files@ == files
                    &&& final(self).list.results_view() == Some((entries_for(matches, files), matches))
                    &&& final(self).list.selected_entry is None
                    &&& scroll == Some(ScrollRequest { index: 0, strategy: ScrollStrategy::Top })
                },
                None => {
                    &&& final(self).list.collapsed_files@ == old(self).list.collapsed_files@
                    &&& final(self).list.results_view() == old(self).list.results_view()
                    &&& final(self).list.selected_entry == old(self).list.selected_entry
                    &&& scroll is None
                },
            },
    {
        let all = self.list.all_collapsed();
        self.set_all_collapsed(!all)
    }

    /// The panel's header: the title "Search", the collapse button, which
    /// expands every group when all are collapsed and collapses them
    /// otherwise, and the button that opens the search editor.
    pub fn header(&self) -> (header: PanelHeader)
        requires
            self.wf(),
        ensures
            header.title@ == "Search"@,
            header.open_search_editor_tooltip matches Some(t) && t@ == "Open Search Editor"@,
            header.collapse_icon == (if self.list.is_all_collapsed() {
                CollapseIcon::ListExpand
            } else {
                CollapseIcon::ListCollapse
            }),
            header.collapse_tooltip@ == (if self.list.is_all_collapsed() {
                "Expand All"@
            } else {
                "Collapse All"@
            }),
    {
        self.list.header("Search", Some("Open Search Editor"))
    }

    /// The note beside the summary line when the search stopped at its
    /// limit of results.
    pub fn limit_label(&self) -> (label: Option<&'static str>)
        ensures
            label is Some <==> self.limit_reached,
            label matches Some(text) ==> text@ == "search results are limited"@,
    {
        if self.limit_reached {
            Some("search results are limited")
        } else {
            None
        }
    }

    /// The label beside the spinner while a search runs.
    pub fn loading_label(&self) -> (label: Option<&'static str>)
        ensures
            label is Some <==> self.list.searching,
            label matches Some(text) ==> text@ == "Searching"@,
    {
        if self.list.searching {
            Some("Searching")
        } else {
            None
        }
    }

    /// What the search bar shows.
    pub fn search_bar(&self) -> (bar: SearchBarView)
        ensures
            message_view(bar.query_error) == message_view(self.query_error),
            bar.query_border_error == self.query_error is Some,
            bar.options == self.search_options,
            bar.filter_button_toggled == self.filters_enabled,
            bar.filters_shown == self.filters_enabled,
            bar.include_border_error == self.include_error is Some,
            bar.exclude_border_error == self.exclude_error is Some,
            bar.opened_only_toggled == self.included_opened_only,
            message_view(bar.filter_error) == match message_view(self.include_error) {
                Some(text) => Some(text),
                None => message_view(self.exclude_error),
            },
    {
        let query_error = match &self.query_error {
            Some(text) => Some(text.clone()),
            None => None,
        };
        SearchBarView {
            query_error,
            query_border_error: self.query_error.is_some(),
            options: self.search_options,
            filter_button_toggled: self.filters_enabled,
            filters_shown: self.filters_enabled,
            include_border_error: self.include_error.is_some(),
            exclude_border_error: self.exclude_error.is_some(),
            opened_only_toggled: self.included_opened_only,
            filter_error: self.filter_error(),
        }
    }

    /// The error shown under the path filters: that of the included paths
    /// first, else that of the excluded ones.
    pub fn filter_error(&self) -> (message: Option<String>)
        ensures
            message_view(message) == match message_view(self.include_error) {
                Some(text) => Some(text),
                None => message_view(self.exclude_error),
            },
    {
        match &self.include_error {
            Some(text) => Some(text.clone()),
            None => match &self.exclude_error {
                Some(text) => Some(text.clone()),
                None => None,
            },
        }
    }

    /// The lines of the results area when it shows no rows: the hint before
    /// any search, or the note that the search found nothing.
    pub fn empty_state_lines(&self) -> (lines: Vec<&'static str>)
        ensures
            match self.list.content_view_spec() {
                ContentView::Hint => lines@.len() == 2 && lines@[0]@ == "Run a search with Enter"@
                    && lines@[1]@ == "to see results here"@,
                ContentView::NoResults => lines@.len() == 1 && lines@[0]@ == "No results found"@,
                _ => lines@.len() == 0,
            },
    {
        match self.list.content_view() {
            ContentView::Hint => vec!["Run a search with Enter", "to see results here"],
            ContentView::NoResults => vec!["No results found"],
            _ => Vec::new(),
        }
    }

    /// The key contexts that the panel's key bindings are looked up in.
    pub fn dispatch_context() -> (contexts: Vec<&'static str>)
        ensures
            contexts@.len() == 2,
            contexts@[0]@ == "SearchPanel"@,
            contexts@[1]@ == "menu"@,
    {
        vec!["SearchPanel", "menu"]
    }

    /// The name under which the panel's state is saved.
    pub fn persistent_name() -> (name: &'static str)
        ensures
            name@ == "Search Panel"@,
    {
        "Search Panel"
    }

    /// The key of the panel in the workspace.
    pub fn panel_key() -> (key: &'static str)
        ensures
            key@ == "SearchPanel"@,
    {
        "SearchPanel"
    }

    /// The panel opens in the left dock.
    pub fn position() -> (position: DockPosition)
        ensures
            position == DockPosition::Left,
    {
        DockPosition::Left
    }

    /// The panel can only be docked on the left.
    pub fn position_is_valid(position: DockPosition) -> (valid: bool)
        ensures
            valid == (position == DockPosition::Left),
    {
        left_dock_only(position)
    }

    /// The panel's width when it is first opened, in pixels.
    pub fn default_size() -> (pixels: u32)
        ensures
            pixels == 320,
    {
        320
    }

    /// The tooltip of the panel's button.
    pub fn icon_tooltip() -> (tooltip: &'static str)
        ensures
            tooltip@ == "Search"@,
    {
        "Search"
    }

    /// The panel shows its button only when the search button is enabled in
    /// the settings.
    pub fn shows_icon(search_button_enabled: bool) -> (shown: bool)
        ensures
            shown == search_button_enabled,
    {
        search_button_enabled
    }

    /// The place of the panel's button among the panel buttons.
    pub fn activation_priority() -> (priority: u32)
        ensures
            priority == 4,
    {
        4
    }
}

} // verus!
