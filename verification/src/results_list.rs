//! The state that both panels share: the matches of the last query, the rows
//! shown for them, the collapsed file groups and the selected row.

use vstd::prelude::*;
use crate::location::{LocationMatch, ProjectPath};
use crate::path_set::PathSet;
use crate::entries::{Entry, entries_for, build_entries};

verus! {

/// Where the list should scroll a row to.
#[derive(Clone, Copy, Debug, PartialEq, Eq, Structural)]
pub enum ScrollStrategy {
    Top,
    Center,
}

/// A request to scroll the list so that the row at `index` is shown.
#[derive(Clone, Copy, Debug, PartialEq, Eq, Structural)]
pub struct ScrollRequest {
    pub index: usize,
    pub strategy: ScrollStrategy,
}

/// What the results area of a panel shows.
#[derive(Clone, Copy, Debug, PartialEq, Eq, Structural)]
pub enum ContentView {
    /// A query is running.
    Searching,
    /// No query has run yet: a hint on how to run one.
    Hint,
    /// The last query found nothing.
    NoResults,
    /// The rows of the last query's results.
    Results,
}

/// The icon of the header's collapse button.
#[derive(Clone, Copy, Debug, PartialEq, Eq, Structural)]
pub enum CollapseIcon {
    /// Every group is collapsed: a click expands them all.
    ListExpand,
    /// A click collapses every group.
    ListCollapse,
}

/// The header of a panel: its title and its buttons.
pub struct PanelHeader {
    pub title: &'static str,
    pub collapse_icon: CollapseIcon,
    pub collapse_tooltip: &'static str,
    /// The tooltip of the button that opens the search editor, on panels
    /// that have one.
    pub open_search_editor_tooltip: Option<&'static str>,
}

/// The results of the last query.
pub struct PanelResults {
    /// Rows in display order: one file header followed by its matches.
    pub entries: Vec<Entry>,
    pub matches: Vec<LocationMatch>,
}

/// The list of results of a panel.
pub struct ResultsList {
    /// Whether a query is currently running.
    pub searching: bool,
    /// Files whose groups are collapsed to their headers.
    pub collapsed_files: PathSet,
    /// The results of the last query. `None` means no query has been run
    /// yet, so the panel shows a hint instead of results.
    pub results: Option<PanelResults>,
    pub selected_entry: Option<usize>,
}

/// The files that `matches` fall in.
pub open spec fn paths_of(matches: Seq<LocationMatch>) -> Set<ProjectPath> {
    matches.map_values(|m: LocationMatch| m.path).to_set()
}

/// The collapsed files after the group of `path` is toggled.
pub open spec fn toggled(collapsed: Set<ProjectPath>, path: ProjectPath) -> Set<ProjectPath> {
    if collapsed.contains(path) {
        collapsed.remove(path)
    } else {
        collapsed.insert(path)
    }
}

/// Row `i` of `entries` is a match row.
pub open spec fn is_match_row(entries: Seq<Entry>, i: int) -> bool {
    0 <= i < entries.len() && entries[i] is Match
}

/// Starting at row `index`, steps by `direction` rows until a match row is
/// reached (its index) or the list is left (`None`).
pub open spec fn scan_for_match(entries: Seq<Entry>, index: int, direction: int) -> Option<int>
    decreases (if direction > 0 {
        entries.len() - index
    } else {
        index + 1
    }),
    when direction != 0 && -1 <= index <= entries.len()
{
    let next = index + direction;
    if next < 0 || next >= entries.len() {
        None
    } else if entries[next] is Match {
        Some(next)
    } else {
        scan_for_match(entries, next, direction)
    }
}

/// The row that moving the selection by `direction` rows lands on, if any:
/// from the selected row, or from just before the first row (moving down) or
/// just after the last row (moving up) when nothing is selected.
pub open spec fn relative_target(entries: Seq<Entry>, selected: Option<usize>, direction: int) -> Option<int> {
    if direction == 0 {
        match selected {
            Some(i) => if is_match_row(entries, i as int) {
                Some(i as int)
            } else {
                None
            },
            None => None,
        }
    } else {
        let start = match selected {
            Some(i) => i as int,
            None => if direction > 0 {
                -1
            } else {
                entries.len() as int
            },
        };
        scan_for_match(entries, start, direction)
    }
}

/// The match that the row at `entry_index` opens: the match of a match row.
pub open spec fn match_at_row(results: Option<(Seq<Entry>, Seq<LocationMatch>)>, entry_index: int) -> Option<usize> {
    match results {
        Some((entries, matches)) => if 0 <= entry_index < entries.len() {
            match entries[entry_index] {
                Entry::Match(m) => if m < matches.len() {
                    Some(m)
                } else {
                    None
                },
                Entry::Header(_) => None,
            }
        } else {
            None
        },
        None => None,
    }
}

/// The smallest match row, if there is one.
pub open spec fn first_match_row(entries: Seq<Entry>) -> Option<int> {
    if exists|i: int| is_match_row(entries, i) {
        Some(choose|i: int| is_match_row(entries, i) && forall|j: int| 0 <= j < i ==> !is_match_row(entries, j))
    } else {
        None
    }
}

/// The largest match row, if there is one.
pub open spec fn last_match_row(entries: Seq<Entry>) -> Option<int> {
    if exists|i: int| is_match_row(entries, i) {
        Some(choose|i: int| is_match_row(entries, i) && forall|j: int| i < j < entries.len() ==> !is_match_row(entries, j))
    } else {
        None
    }
}

impl PanelResults {
    pub open spec fn view(&self) -> (Seq<Entry>, Seq<LocationMatch>) {
        (self.entries@, self.matches@)
    }
}

impl ResultsList {
    /// The rows and matches of the last query, if one has run.
    pub open spec fn results_view(&self) -> Option<(Seq<Entry>, Seq<LocationMatch>)> {
        match self.results {
            Some(r) => Some(r@),
            None => None,
        }
    }

    /// The rows shown (none before the first query).
    pub open spec fn entries_view(&self) -> Seq<Entry> {
        match self.results {
            Some(r) => r.entries@,
            None => Seq::empty(),
        }
    }

    /// The list is consistent: the rows are those of the matches under the
    /// collapsed files, and a selection, if any, is on a match row.
    pub open spec fn wf(&self) -> bool {
        &&& self.collapsed_files.wf()
        &&& (self.results matches Some(r) ==> r.entries@ == entries_for(r.matches@, self.collapsed_files@))
        &&& (self.selected_entry matches Some(i) ==> {
            &&& self.results is Some
            &&& is_match_row(self.entries_view(), i as int)
        })
    }

    /// Every file group is collapsed: there are files with matches, and as
    /// many collapsed files as files with matches.
    pub open spec fn is_all_collapsed(&self) -> bool {
        match self.results_view() {
            Some((_, matches)) => paths_of(matches).len() > 0 && self.collapsed_files@.len() == paths_of(matches).len(),
            None => false,
        }
    }

    /// An empty list: no query has run.
    pub fn new() -> (list: Self)
        ensures
            list.wf(),
            !list.searching,
            list.collapsed_files@ == Set::<ProjectPath>::empty(),
            list.results is None,
            list.selected_entry is None,
    {
        ResultsList {
            searching: false,
            collapsed_files: PathSet::new(),
            results: None,
            selected_entry: None,
        }
    }

    /// Marks whether a query is running.
    pub fn set_searching(&mut self, searching: bool)
        requires
            old(self).wf(),
        ensures
            final(self).wf(),
            final(self).searching == searching,
            final(self).results_view() == old(self).results_view(),
            final(self).collapsed_files@ == old(self).collapsed_files@,
            final(self).selected_entry == old(self).selected_entry,
    {
        self.searching = searching;
    }

    /// Shows `matches` as the results of a finished query: every group
    /// expanded, nothing selected, scrolled to the top.
    pub fn set_results(&mut self, matches: Vec<LocationMatch>) -> (scroll: ScrollRequest)
        requires
            old(self).wf(),
        ensures
            final(self).wf(),
            !final(self).searching,
            final(self).collapsed_files@ == Set::<ProjectPath>::empty(),
            final(self).results_view() == Some((entries_for(matches@, Set::<ProjectPath>::empty()), matches@)),
            final(self).selected_entry is None,
            scroll == (ScrollRequest { index: 0, strategy: ScrollStrategy::Top }),
    {
        self.searching = false;
        self.collapsed_files.clear();
        let entries = build_entries(matches.as_slice(), &self.collapsed_files);
        self.results = Some(PanelResults { entries, matches });
        self.selected_entry = None;
        ScrollRequest { index: 0, strategy: ScrollStrategy::Top }
    }

    /// Rebuilds the rows after the collapsed files changed; the selection is
    /// cleared.
    pub fn rebuild_entries(&mut self)
        requires
            old(self).collapsed_files.wf(),
            old(self).selected_entry matches Some(i) ==> old(self).results is Some,
        ensures
            final(self).wf(),
            final(self).searching == old(self).searching,
            final(self).collapsed_files@ == old(self).collapsed_files@,
            final(self).results_view() == match old(self).results_view() {
                Some((_, matches)) => Some((entries_for(matches, old(self).collapsed_files@), matches)),
                None => None,
            },
            final(self).selected_entry is None,
    {
        match self.results.take() {
            None => {},
            Some(results) => {
                let PanelResults { entries: _, matches } = results;
                let entries = build_entries(matches.as_slice(), &self.collapsed_files);
                self.results = Some(PanelResults { entries, matches });
                self.selected_entry = None;
            },
        }
    }

    /// Collapses or expands the file group for `path`; collapse keeps only
    /// the file header visible. The selection is cleared.
    pub fn toggle_group(&mut self, path: ProjectPath)
        requires
            old(self).wf(),
        ensures
            final(self).wf(),
            final(self).searching == old(self).searching,
            final(self).collapsed_files@ == toggled(old(self).collapsed_files@, path),
            final(self).results_view() == match old(self).results_view() {
                Some((_, matches)) => Some((entries_for(matches, toggled(old(self).collapsed_files@, path)), matches)),
                None => None,
            },
            final(self).selected_entry is None,
    {
        let ghost before = self.collapsed_files@;
        if !self.collapsed_files.remove(&path) {
            assert(before.remove(path) =~= before);
            self.collapsed_files.insert(path);
        }
        assert(self.collapsed_files@ =~= toggled(before, path));
        self.rebuild_entries();
    }

    /// The set of files of `matches`, built one match at a time.
    fn paths_of_matches(matches: &Vec<LocationMatch>) -> (paths: PathSet)
        ensures
            paths.wf(),
            paths@ == paths_of(matches@),
    {
        let mut paths = PathSet::new();
        let mut i: usize = 0;
        while i < matches.len()
            invariant
                i <= matches@.len(),
                paths.wf(),
                paths@ == paths_of(matches@.take(i as int)),
            decreases matches@.len() - i,
        {
            let ghost before = paths@;
            paths.insert(matches[i].path);
            proof {
                let f = |m: LocationMatch| m.path;
                assert(matches@.take(i + 1) == matches@.take(i as int).push(matches@[i as int]));
                assert(matches@.take(i + 1).map_values(f) == matches@.take(i as int).map_values(f).push(matches@[i as int].path));
                matches@.take(i as int).map_values(f).lemma_push_to_set_commute(matches@[i as int].path);
            }
            i += 1;
        }
        assert(matches@.take(matches@.len() as int) == matches@);
        paths
    }

    /// Collapses or expands all file groups at once. Does nothing before the
    /// first query.
    pub fn set_all_collapsed(&mut self, collapsed: bool)
        requires
            old(self).wf(),
        ensures
            final(self).wf(),
            final(self).searching == old(self).searching,
            match old(self).results_view() {
                Some((_, matches)) => {
                    let files = if collapsed { paths_of(matches) } else { Set::<ProjectPath>::empty() };
                    &&& final(self).collapsed_files@ == files
                    &&& final(self).results_view() == Some((entries_for(matches, files), matches))
                    &&& final(self).selected_entry is None
                },
                None => {
                    &&& final(self).collapsed_files@ == old(self).collapsed_files@
                    &&& final(self).results_view() == old(self).results_view()
                    &&& final(self).selected_entry == old(self).selected_entry
                },
            },
    {
        match &self.results {
            None => {},
            Some(results) => {
                self.collapsed_files = if collapsed {
                    Self::paths_of_matches(&results.matches)
                } else {
                    PathSet::new()
                };
                self.rebuild_entries();
            },
        }
    }

    /// Whether every file group is collapsed: there are groups, and as many
    /// collapsed files as files with matches.
    pub fn all_collapsed(&self) -> (r: bool)
        requires
            self.wf(),
        ensures
            r == match self.results_view() {
                Some((_, matches)) => paths_of(matches).len() > 0 && self.collapsed_files@.len() == paths_of(matches).len(),
                None => false,
            },
    {
        match &self.results {
            None => false,
            Some(results) => {
                let group_count = Self::paths_of_matches(&results.matches).len();
                group_count > 0 && self.collapsed_files.len() == group_count
            },
        }
    }

    /// Selects the match row at `index`, scrolling it to the center.
    pub fn select_entry(&mut self, index: usize) -> (scroll: ScrollRequest)
        requires
            old(self).wf(),
            is_match_row(old(self).entries_view(), index as int),
        ensures
            final(self).wf(),
            final(self).searching == old(self).searching,
            final(self).collapsed_files@ == old(self).collapsed_files@,
            final(self).results_view() == old(self).results_view(),
            final(self).selected_entry == Some(index),
            scroll == (ScrollRequest { index, strategy: ScrollStrategy::Center }),
    {
        self.selected_entry = Some(index);
        ScrollRequest { index, strategy: ScrollStrategy::Center }
    }

    /// Moves the selection by `direction` rows (only match rows are
    /// selectable); keeps it where it is when no match row lies that way.
    pub fn select_relative(&mut self, direction: i32) -> (scroll: Option<ScrollRequest>)
        requires
            old(self).wf(),
        ensures
            final(self).wf(),
            final(self).searching == old(self).searching,
            final(self).collapsed_files@ == old(self).collapsed_files@,
            final(self).results_view() == old(self).results_view(),
            match old(self).results_view() {
                Some((entries, _)) => match relative_target(entries, old(self).selected_entry, direction as int) {
                    Some(p) => {
                        &&& final(self).selected_entry == Some(p as usize)
                        &&& scroll == Some(ScrollRequest { index: p as usize, strategy: ScrollStrategy::Center })
                    },
                    None => final(self).selected_entry == old(self).selected_entry && scroll is None,
                },
                None => final(self).selected_entry == old(self).selected_entry && scroll is None,
            },
    {
        let len: usize = match &self.results {
            None => {
                return None;
            },
            Some(results) => results.entries.len(),
        };
        let ghost entries = self.entries_view();
        if direction == 0 {
            return match self.selected_entry {
                Some(i) => Some(self.select_entry(i)),
                None => None,
            };
        }
        let start: i128 = match self.selected_entry {
            Some(i) => i as i128,
            None => if direction > 0 {
                -1
            } else {
                len as i128
            },
        };
        let step: i128 = direction as i128;
        let mut index: i128 = start;
        loop
            invariant
                self.wf(),
                self.results is Some,
                entries == self.entries_view(),
                self.searching == old(self).searching,
                self.collapsed_files@ == old(self).collapsed_files@,
                self.results_view() == old(self).results_view(),
                self.selected_entry == old(self).selected_entry,
                len == entries.len(),
                step == direction as int,
                step != 0,
                -1 <= index <= len,
                scan_for_match(entries, index as int, step as int)
                    == relative_target(entries, self.selected_entry, direction as int),
            decreases (if step > 0 { len - index } else { index + 1 }),
        {
            index = index + step;
            if index < 0 || index >= len as i128 {
                return None;
            }
            let is_match = match &self.results {
                Some(results) => match results.entries[index as usize] {
                    Entry::Match(_) => true,
                    Entry::Header(_) => false,
                },
                None => false,
            };
            if is_match {
                return Some(self.select_entry(index as usize));
            }
        }
    }

    /// Selects the next match row.
    pub fn select_next(&mut self) -> (scroll: Option<ScrollRequest>)
        requires
            old(self).wf(),
        ensures
            final(self).wf(),
            final(self).searching == old(self).searching,
            final(self).collapsed_files@ == old(self).collapsed_files@,
            final(self).results_view() == old(self).results_view(),
            match old(self).results_view() {
                Some((entries, _)) => match relative_target(entries, old(self).selected_entry, 1) {
                    Some(p) => {
                        &&& final(self).selected_entry == Some(p as usize)
                        &&& scroll == Some(ScrollRequest { index: p as usize, strategy: ScrollStrategy::Center })
                    },
                    None => final(self).selected_entry == old(self).selected_entry && scroll is None,
                },
                None => final(self).selected_entry == old(self).selected_entry && scroll is None,
            },
    {
        self.select_relative(1)
    }

    /// Selects the previous match row.
    pub fn select_previous(&mut self) -> (scroll: Option<ScrollRequest>)
        requires
            old(self).wf(),
        ensures
            final(self).wf(),
            final(self).searching == old(self).searching,
            final(self).collapsed_files@ == old(self).collapsed_files@,
            final(self).results_view() == old(self).results_view(),
            match old(self).results_view() {
                Some((entries, _)) => match relative_target(entries, old(self).selected_entry, -1) {
                    Some(p) => {
                        &&& final(self).selected_entry == Some(p as usize)
                        &&& scroll == Some(ScrollRequest { index: p as usize, strategy: ScrollStrategy::Center })
                    },
                    None => final(self).selected_entry == old(self).selected_entry && scroll is None,
                },
                None => final(self).selected_entry == old(self).selected_entry && scroll is None,
            },
    {
        self.select_relative(-1)
    }

    /// Selects the first match row, if there is one.
    pub fn select_first(&mut self) -> (scroll: Option<ScrollRequest>)
        requires
            old(self).wf(),
        ensures
            final(self).wf(),
            final(self).searching == old(self).searching,
            final(self).collapsed_files@ == old(self).collapsed_files@,
            final(self).results_view() == old(self).results_view(),
            match first_match_row(old(self).entries_view()) {
                Some(p) => {
                    &&& final(self).selected_entry == Some(p as usize)
                    &&& scroll == Some(ScrollRequest { index: p as usize, strategy: ScrollStrategy::Center })
                },
                None => final(self).selected_entry == old(self).selected_entry && scroll is None,
            },
    {
        let ghost entries = self.entries_view();
        let len: usize = match &self.results {
            None => {
                return None;
            },
            Some(results) => results.entries.len(),
        };
        let mut i: usize = 0;
        while i < len
            invariant
                self.wf(),
                self.results is Some,
                entries == self.entries_view(),
                self.searching == old(self).searching,
                self.collapsed_files@ == old(self).collapsed_files@,
                self.results_view() == old(self).results_view(),
                self.selected_entry == old(self).selected_entry,
                len == entries.len(),
                i <= len,
                forall|j: int| 0 <= j < i ==> !is_match_row(entries, j),
            decreases len - i,
        {
            let is_match = match &self.results {
                Some(results) => match results.entries[i] {
                    Entry::Match(_) => true,
                    Entry::Header(_) => false,
                },
                None => false,
            };
            if is_match {
                proof {
                    assert(is_match_row(entries, i as int));
                    let c = choose|c: int| is_match_row(entries, c) && forall|j: int| 0 <= j < c ==> !is_match_row(entries, j);
                    assert(c == i as int) by {
                        if c < i as int {
                        } else if c > i as int {
                            assert(!is_match_row(entries, i as int));
                        }
                    }
                }
                return Some(self.select_entry(i));
            }
            i += 1;
        }
        None
    }

    /// Selects the last match row, if there is one.
    pub fn select_last(&mut self) -> (scroll: Option<ScrollRequest>)
        requires
            old(self).wf(),
        ensures
            final(self).wf(),
            final(self).searching == old(self).searching,
            final(self).collapsed_files@ == old(self).collapsed_files@,
            final(self).results_view() == old(self).results_view(),
            match last_match_row(old(self).entries_view()) {
                Some(p) => {
                    &&& final(self).selected_entry == Some(p as usize)
                    &&& scroll == Some(ScrollRequest { index: p as usize, strategy: ScrollStrategy::Center })
                },
                None => final(self).selected_entry == old(self).selected_entry && scroll is None,
            },
    {
        let ghost entries = self.entries_view();
        let len: usize = match &self.results {
            None => {
                return None;
            },
            Some(results) => results.entries.len(),
        };
        let mut i: usize = len;
        while i > 0
            invariant
                self.wf(),
                self.results is Some,
                entries == self.entries_view(),
                self.searching == old(self).searching,
                self.collapsed_files@ == old(self).collapsed_files@,
                self.results_view() == old(self).results_view(),
                self.selected_entry == old(self).selected_entry,
                len == entries.len(),
                i <= len,
                forall|j: int| i <= j < len ==> !is_match_row(entries, j),
            decreases i,
        {
            let is_match = match &self.results {
                Some(results) => match results.entries[i - 1] {
                    Entry::Match(_) => true,
                    Entry::Header(_) => false,
                },
                None => false,
            };
            if is_match {
                proof {
                    let k = i - 1;
                    assert(is_match_row(entries, k as int));
                    let c = choose|c: int| is_match_row(entries, c) && forall|j: int| c < j < entries.len() ==> !is_match_row(entries, j);
                    assert(c == k as int) by {
                        if c > k as int {
                        } else if c < k as int {
                            assert(!is_match_row(entries, k as int));
                        }
                    }
                }
                return Some(self.select_entry(i - 1));
            }
            i -= 1;
        }
        None
    }

    /// The index of the match that the row at `entry_index` opens: header
    /// rows and rows past the end open nothing.
    pub fn open_entry(&self, entry_index: usize) -> (opened: Option<usize>)
        ensures
            opened == match_at_row(self.results_view(), entry_index as int),
    {
        match &self.results {
            None => None,
            Some(results) => {
                if entry_index >= results.entries.len() {
                    return None;
                }
                match results.entries[entry_index] {
                    Entry::Match(match_index) => if match_index < results.matches.len() {
                        Some(match_index)
                    } else {
                        None
                    },
                    Entry::Header(_) => None,
                }
            },
        }
    }

    /// The index of the match that the selected row opens, if a row is
    /// selected.
    pub fn open_selected_entry(&self) -> (opened: Option<usize>)
        ensures
            opened == match self.selected_entry {
                Some(i) => match_at_row(self.results_view(), i as int),
                None => None,
            },
    {
        match self.selected_entry {
            None => None,
            Some(entry_index) => self.open_entry(entry_index),
        }
    }

    /// A click on the match row at `entry_index`: selects it and gives the
    /// index of the match to open.
    pub fn click_entry(&mut self, entry_index: usize) -> (opened: Option<usize>)
        requires
            old(self).wf(),
            is_match_row(old(self).entries_view(), entry_index as int),
        ensures
            final(self).wf(),
            final(self).searching == old(self).searching,
            final(self).collapsed_files@ == old(self).collapsed_files@,
            final(self).results_view() == old(self).results_view(),
            final(self).selected_entry == Some(entry_index),
            opened == match_at_row(old(self).results_view(), entry_index as int),
    {
        self.selected_entry = Some(entry_index);
        self.open_selected_entry()
    }

    /// What the results area shows: the running query, the hint before any
    /// query, the empty state, or the rows.
    pub open spec fn content_view_spec(&self) -> ContentView {
        if self.searching {
            ContentView::Searching
        } else {
            match self.results_view() {
                None => ContentView::Hint,
                Some((_, matches)) => if matches.len() == 0 {
                    ContentView::NoResults
                } else {
                    ContentView::Results
                },
            }
        }
    }

    /// What the results area shows: the running query, the hint before any
    /// query, the empty state, or the rows.
    pub fn content_view(&self) -> (view: ContentView)
        ensures
            view == self.content_view_spec(),
    {
        if self.searching {
            return ContentView::Searching;
        }
        match &self.results {
            None => ContentView::Hint,
            Some(results) => if results.matches.len() == 0 {
                ContentView::NoResults
            } else {
                ContentView::Results
            },
        }
    }

    /// The collapse button of the header: collapses every group, or expands
    /// them all when every group is collapsed already.
    pub fn toggle_all_collapsed(&mut self)
        requires
            old(self).wf(),
        ensures
            final(self).wf(),
            final(self).searching == old(self).searching,
            match old(self).results_view() {
                Some((_, matches)) => {
                    let was_all = paths_of(matches).len() > 0 && old(self).collapsed_files@.len() == paths_of(matches).len();
                    let files = if !was_all { paths_of(matches) } else { Set::<ProjectPath>::empty() };
                    &&& final(self).collapsed_files@ == files
                    &&& final(self).results_view() == Some((entries_for(matches, files), matches))
                    &&& final(self).selected_entry is None
                },
                None => {
                    &&& final(self).collapsed_files@ == old(self).collapsed_files@
                    &&& final(self).results_view() == old(self).results_view()
                    &&& final(self).selected_entry == old(self).selected_entry
                },
            },
    {
        let all = self.all_collapsed();
        self.set_all_collapsed(!all);
    }

    /// The tooltip of the collapse button: what a click on it does.
    pub fn collapse_button_tooltip(&self) -> (text: &'static str)
        requires
            self.wf(),
        ensures
            text@ == (if match self.results_view() {
                Some((_, matches)) => paths_of(matches).len() > 0 && self.collapsed_files@.len() == paths_of(matches).len(),
                None => false,
            } {
                "Expand All"@
            } else {
                "Collapse All"@
            }),
    {
        if self.all_collapsed() {
            "Expand All"
        } else {
            "Collapse All"
        }
    }

    /// The icon of the collapse button: expand when every group is
    /// collapsed, collapse otherwise.
    pub fn collapse_button_icon(&self) -> (icon: CollapseIcon)
        requires
            self.wf(),
        ensures
            icon == (if self.is_all_collapsed() {
                CollapseIcon::ListExpand
            } else {
                CollapseIcon::ListCollapse
            }),
    {
        if self.all_collapsed() {
            CollapseIcon::ListExpand
        } else {
            CollapseIcon::ListCollapse
        }
    }

    /// The header of a panel with this list: the given title, and the
    /// collapse button's icon and tooltip.
    pub fn header(&self, title: &'static str, open_search_editor_tooltip: Option<&'static str>) -> (header: PanelHeader)
        requires
            self.wf(),
        ensures
            header.title == title,
            header.open_search_editor_tooltip == open_search_editor_tooltip,
            header.collapse_icon == (if self.is_all_collapsed() {
                CollapseIcon::ListExpand
            } else {
                CollapseIcon::ListCollapse
            }),
            header.collapse_tooltip@ == (if self.is_all_collapsed() {
                "Expand All"@
            } else {
                "Collapse All"@
            }),
    {
        PanelHeader {
            title,
            collapse_icon: self.collapse_button_icon(),
            collapse_tooltip: self.collapse_button_tooltip(),
            open_search_editor_tooltip,
        }
    }
}

} // verus!
