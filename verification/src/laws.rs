//! What holds of the panels across their operations.

use vstd::prelude::*;
use crate::location::{LocationMatch, ProjectPath, match_le, path_le};
use crate::entries::{Entry, entries_for, entries_for_prefix, starts_group, group_start_count, shown_count};
use crate::results_list::{toggled, paths_of, is_match_row, scan_for_match, relative_target, match_at_row, first_match_row, last_match_row};
use crate::search_panel::SearchPanel;
use crate::results_list::{ResultsList, ContentView};
use crate::grouping::is_in_order;
use crate::display::header_count;

verus! {

/// Toggling the group of a file twice leaves the collapsed files, and so the
/// rows, as they were.
pub proof fn toggle_group_twice_restores(collapsed: Set<ProjectPath>, path: ProjectPath)
    ensures
        toggled(toggled(collapsed, path), path) == collapsed,
{
    assert(toggled(toggled(collapsed, path), path) =~= collapsed);
}

proof fn lemma_prefix_counts(matches: Seq<LocationMatch>, collapsed: Set<ProjectPath>, n: nat)
    requires
        n <= matches.len(),
    ensures
        entries_for_prefix(matches, collapsed, n).len() == group_start_count(matches, n) + shown_count(matches, collapsed, n),
        header_count(entries_for_prefix(matches, collapsed, n)) == group_start_count(matches, n),
        forall|k: int| 0 <= k < entries_for_prefix(matches, collapsed, n).len() ==>
            (#[trigger] entries_for_prefix(matches, collapsed, n)[k] matches Entry::Match(i) ==> i < n),
    decreases n,
{
    if n > 0 {
        let i = n - 1;
        lemma_prefix_counts(matches, collapsed, (n - 1) as nat);
        let before = entries_for_prefix(matches, collapsed, (n - 1) as nat);
        let with_header = if starts_group(matches, i) {
            before.push(Entry::Header(matches[i].path))
        } else {
            before
        };
        assert(header_count(with_header) == header_count(before) + if starts_group(matches, i) { 1nat } else { 0nat }) by {
            if starts_group(matches, i) {
                assert(with_header.drop_last() == before);
            }
        }
        if !collapsed.contains(matches[i].path) {
            let full = with_header.push(Entry::Match(i as usize));
            assert(full.drop_last() == with_header);
        }
    }
}

/// There is one row per file group and one per match of an expanded file.
pub proof fn entry_count(matches: Seq<LocationMatch>, collapsed: Set<ProjectPath>)
    ensures
        entries_for(matches, collapsed).len() == group_start_count(matches, matches.len())
            + shown_count(matches, collapsed, matches.len()),
        header_count(entries_for(matches, collapsed)) == group_start_count(matches, matches.len()),
{
    lemma_prefix_counts(matches, collapsed, matches.len());
}

proof fn lemma_shown_without_collapse(matches: Seq<LocationMatch>, n: nat)
    ensures
        shown_count(matches, Set::<ProjectPath>::empty(), n) == n,
    decreases n,
{
    if n > 0 {
        lemma_shown_without_collapse(matches, (n - 1) as nat);
    }
}

/// With no group collapsed every match has its row: the rows are the file
/// headers plus one row per match.
pub proof fn expanded_shows_every_match(matches: Seq<LocationMatch>)
    ensures
        entries_for(matches, Set::<ProjectPath>::empty()).len() == group_start_count(matches, matches.len()) + matches.len(),
{
    lemma_prefix_counts(matches, Set::<ProjectPath>::empty(), matches.len());
    lemma_shown_without_collapse(matches, matches.len());
}

proof fn lemma_path_in_paths_of(matches: Seq<LocationMatch>, i: int)
    requires
        0 <= i < matches.len(),
    ensures
        paths_of(matches).contains(matches[i].path),
{
    let f = |m: LocationMatch| m.path;
    assert(matches.map_values(f)[i] == matches[i].path);
    assert(matches.map_values(f).contains(matches[i].path));
}

proof fn lemma_collapsed_prefix_only_headers(matches: Seq<LocationMatch>, n: nat)
    requires
        n <= matches.len(),
    ensures
        forall|k: int| 0 <= k < entries_for_prefix(matches, paths_of(matches), n).len() ==>
            #[trigger] entries_for_prefix(matches, paths_of(matches), n)[k] is Header,
    decreases n,
{
    if n > 0 {
        lemma_collapsed_prefix_only_headers(matches, (n - 1) as nat);
        lemma_path_in_paths_of(matches, n - 1);
    }
}

/// With every group collapsed only the file headers are left: every row is
/// a header, one per file group.
pub proof fn collapse_all_leaves_only_headers(matches: Seq<LocationMatch>)
    ensures
        forall|k: int| 0 <= k < entries_for(matches, paths_of(matches)).len() ==>
            #[trigger] entries_for(matches, paths_of(matches))[k] is Header,
        entries_for(matches, paths_of(matches)).len() == group_start_count(matches, matches.len()),
{
    lemma_collapsed_prefix_only_headers(matches, matches.len());
    lemma_prefix_counts(matches, paths_of(matches), matches.len());
    assert(shown_count(matches, paths_of(matches), matches.len()) == 0) by {
        lemma_none_shown_when_all_collapsed(matches, matches.len());
    }
}

proof fn lemma_none_shown_when_all_collapsed(matches: Seq<LocationMatch>, n: nat)
    requires
        n <= matches.len(),
    ensures
        shown_count(matches, paths_of(matches), n) == 0,
    decreases n,
{
    if n > 0 {
        lemma_none_shown_when_all_collapsed(matches, (n - 1) as nat);
        lemma_path_in_paths_of(matches, n - 1);
    }
}

/// There are file groups exactly when there are matches.
pub proof fn files_exist_iff_matches_exist(matches: Seq<LocationMatch>)
    ensures
        paths_of(matches).finite(),
        paths_of(matches).len() > 0 <==> matches.len() > 0,
{
    let f = |m: LocationMatch| m.path;
    matches.map_values(f).lemma_cardinality_of_empty_set_is_0();
    vstd::seq_lib::seq_to_set_is_finite(matches.map_values(f));
}

/// The files collapsed after a click on the collapse button: all of them,
/// unless all of them were collapsed already.
pub open spec fn after_collapse_button(matches: Seq<LocationMatch>, collapsed: Set<ProjectPath>) -> Set<ProjectPath> {
    if paths_of(matches).len() > 0 && collapsed.len() == paths_of(matches).len() {
        Set::empty()
    } else {
        paths_of(matches)
    }
}

/// With results, the collapse button collapses every group of an expanded
/// list, and a second click expands them all again.
pub proof fn collapse_button_alternates(matches: Seq<LocationMatch>)
    requires
        matches.len() > 0,
    ensures
        after_collapse_button(matches, Set::<ProjectPath>::empty()) == paths_of(matches),
        after_collapse_button(matches, paths_of(matches)) == Set::<ProjectPath>::empty(),
{
    files_exist_iff_matches_exist(matches);
}

proof fn lemma_paths_of_push(matches: Seq<LocationMatch>, n: int)
    requires
        0 <= n < matches.len(),
    ensures
        paths_of(matches.take(n + 1)) == paths_of(matches.take(n)).insert(matches[n].path),
{
    let f = |m: LocationMatch| m.path;
    assert(matches.take(n + 1) == matches.take(n).push(matches[n]));
    assert(matches.take(n + 1).map_values(f) == matches.take(n).map_values(f).push(matches[n].path));
    matches.take(n).map_values(f).lemma_push_to_set_commute(matches[n].path);
}

proof fn lemma_one_header_per_file_prefix(matches: Seq<LocationMatch>, n: nat)
    requires
        is_in_order(matches),
        n <= matches.len(),
    ensures
        group_start_count(matches, n) == paths_of(matches.take(n as int)).len(),
        paths_of(matches.take(n as int)).finite(),
    decreases n,
{
    files_exist_iff_matches_exist(matches.take(n as int));
    if n == 0 {
        assert(matches.take(0).len() == 0);
    } else {
        let i = n - 1;
        lemma_one_header_per_file_prefix(matches, (n - 1) as nat);
        lemma_paths_of_push(matches, i);
        let before = paths_of(matches.take(i));
        let p = matches[i].path;
        if starts_group(matches, i) {
            assert(!before.contains(p)) by {
                if before.contains(p) {
                    let f = |m: LocationMatch| m.path;
                    let k = choose|k: int| 0 <= k < matches.take(i).map_values(f).len()
                        && matches.take(i).map_values(f)[k] == p;
                    assert(matches[k].path == p);
                    assert(match_le(matches[k], matches[i - 1]));
                    assert(match_le(matches[i - 1], matches[i]));
                    assert(path_le(matches[k].path, matches[i - 1].path));
                    assert(path_le(matches[i - 1].path, matches[i].path));
                }
            }
        } else {
            lemma_path_in_paths_of(matches.take(i), i - 1);
            assert(matches.take(i)[i - 1] == matches[i - 1]);
            assert(before.insert(p) =~= before);
        }
    }
}

/// Matches in the search panel's order show one header per file: the
/// number of header rows is the number of files with matches.
pub proof fn one_header_per_file(matches: Seq<LocationMatch>, collapsed: Set<ProjectPath>)
    requires
        is_in_order(matches),
    ensures
        header_count(entries_for(matches, collapsed)) == paths_of(matches).len(),
{
    lemma_one_header_per_file_prefix(matches, matches.len());
    assert(matches.take(matches.len() as int) == matches);
    lemma_prefix_counts(matches, collapsed, matches.len());
}

/// Every match row opens its match, and no header row opens anything.
pub proof fn rows_open_their_matches(matches: Seq<LocationMatch>, collapsed: Set<ProjectPath>, k: int)
    requires
        0 <= k < entries_for(matches, collapsed).len(),
    ensures
        match entries_for(matches, collapsed)[k] {
            Entry::Match(i) => match_at_row(Some((entries_for(matches, collapsed), matches)), k) == Some(i),
            Entry::Header(_) => match_at_row(Some((entries_for(matches, collapsed), matches)), k) is None,
        },
{
    lemma_prefix_counts(matches, collapsed, matches.len());
    let e = entries_for(matches, collapsed)[k];
    assert(e == entries_for_prefix(matches, collapsed, matches.len())[k]);
}

proof fn lemma_scan_lands_on_match(entries: Seq<Entry>, index: int, direction: int)
    requires
        direction != 0,
        -1 <= index <= entries.len(),
    ensures
        scan_for_match(entries, index, direction) matches Some(p) ==> is_match_row(entries, p),
    decreases (if direction > 0 { entries.len() - index } else { index + 1 }),
{
    let next = index + direction;
    if !(next < 0 || next >= entries.len()) && !(entries[next] is Match) {
        lemma_scan_lands_on_match(entries, next, direction);
    }
}

/// Moving the selection only ever lands on a match row.
pub proof fn selection_lands_on_match_rows(entries: Seq<Entry>, selected: Option<usize>, direction: int)
    requires
        selected matches Some(i) ==> is_match_row(entries, i as int),
    ensures
        relative_target(entries, selected, direction) matches Some(p) ==> is_match_row(entries, p),
{
    if direction != 0 {
        let start = match selected {
            Some(i) => i as int,
            None => if direction > 0 { -1 } else { entries.len() as int },
        };
        lemma_scan_lands_on_match(entries, start, direction);
    }
}

/// Moving down selects the nearest match row below the start, if any.
pub proof fn select_next_is_nearest_below(entries: Seq<Entry>, index: int)
    requires
        -1 <= index <= entries.len(),
    ensures
        match scan_for_match(entries, index, 1) {
            Some(p) => index < p < entries.len() && is_match_row(entries, p)
                && forall|q: int| index < q < p ==> !is_match_row(entries, q),
            None => forall|q: int| index < q < entries.len() ==> !is_match_row(entries, q),
        },
    decreases entries.len() - index,
{
    let next = index + 1;
    if !(next < 0 || next >= entries.len()) && !(entries[next] is Match) {
        select_next_is_nearest_below(entries, next);
    }
}

/// Moving up selects the nearest match row above the start, if any.
pub proof fn select_previous_is_nearest_above(entries: Seq<Entry>, index: int)
    requires
        -1 <= index <= entries.len(),
    ensures
        match scan_for_match(entries, index, -1) {
            Some(p) => 0 <= p < index && is_match_row(entries, p)
                && forall|q: int| p < q < index ==> !is_match_row(entries, q),
            None => forall|q: int| 0 <= q < index ==> !is_match_row(entries, q),
        },
    decreases index + 1,
{
    let next = index - 1;
    if !(next < 0 || next >= entries.len()) && !(entries[next] is Match) {
        select_previous_is_nearest_above(entries, next);
    }
}

proof fn lemma_smallest_match_row_exists(entries: Seq<Entry>, i: int)
    requires
        is_match_row(entries, i),
    ensures
        exists|c: int| is_match_row(entries, c) && forall|j: int| 0 <= j < c ==> !is_match_row(entries, j),
    decreases i,
{
    if exists|j: int| 0 <= j < i && is_match_row(entries, j) {
        let j = choose|j: int| 0 <= j < i && is_match_row(entries, j);
        lemma_smallest_match_row_exists(entries, j);
    } else {
        assert(forall|j: int| 0 <= j < i ==> !is_match_row(entries, j));
    }
}

proof fn lemma_largest_match_row_exists(entries: Seq<Entry>, i: int)
    requires
        is_match_row(entries, i),
    ensures
        exists|c: int| is_match_row(entries, c) && forall|j: int| c < j < entries.len() ==> !is_match_row(entries, j),
    decreases entries.len() - i,
{
    if exists|j: int| i < j < entries.len() && is_match_row(entries, j) {
        let j = choose|j: int| i < j < entries.len() && is_match_row(entries, j);
        lemma_largest_match_row_exists(entries, j);
    } else {
        assert(forall|j: int| i < j < entries.len() ==> !is_match_row(entries, j));
    }
}

/// The first match row is a match row with no match row before it; there is
/// none only when no row is a match row.
pub proof fn first_match_row_is_smallest(entries: Seq<Entry>)
    ensures
        match first_match_row(entries) {
            Some(p) => is_match_row(entries, p) && forall|j: int| 0 <= j < p ==> !is_match_row(entries, j),
            None => forall|i: int| !is_match_row(entries, i),
        },
{
    if exists|i: int| is_match_row(entries, i) {
        let i = choose|i: int| is_match_row(entries, i);
        lemma_smallest_match_row_exists(entries, i);
    }
}

/// The last match row is a match row with no match row after it; there is
/// none only when no row is a match row.
pub proof fn last_match_row_is_largest(entries: Seq<Entry>)
    ensures
        match last_match_row(entries) {
            Some(p) => is_match_row(entries, p) && forall|j: int| p < j < entries.len() ==> !is_match_row(entries, j),
            None => forall|i: int| !is_match_row(entries, i),
        },
{
    if exists|i: int| is_match_row(entries, i) {
        let i = choose|i: int| is_match_row(entries, i);
        lemma_largest_match_row_exists(entries, i);
    }
}

/// While the path filters are hidden, the search panel shows no filter
/// error: every panel starts so and every operation keeps it (it is part of
/// `SearchPanel::wf`).
pub proof fn hidden_filters_have_no_errors(panel: &SearchPanel)
    requires
        panel.wf(),
    ensures
        !panel.filters_enabled ==> panel.include_error is None && panel.exclude_error is None,
{
}

/// `entries` without the match rows whose files are in `collapsed`.
pub open spec fn hide_collapsed(entries: Seq<Entry>, matches: Seq<LocationMatch>, collapsed: Set<ProjectPath>) -> Seq<Entry>
    decreases entries.len(),
{
    if entries.len() == 0 {
        entries
    } else {
        let rest = hide_collapsed(entries.drop_last(), matches, collapsed);
        match entries.last() {
            Entry::Match(i) => if (i as int) < matches.len() && collapsed.contains(matches[i as int].path) {
                rest
            } else {
                rest.push(entries.last())
            },
            Entry::Header(_) => rest.push(entries.last()),
        }
    }
}

proof fn lemma_hide_collapsed_prefix(
    matches: Seq<LocationMatch>,
    fewer: Set<ProjectPath>,
    more: Set<ProjectPath>,
    n: nat,
)
    requires
        fewer.subset_of(more),
        n <= matches.len(),
        matches.len() <= usize::MAX,
    ensures
        entries_for_prefix(matches, more, n) == hide_collapsed(entries_for_prefix(matches, fewer, n), matches, more),
    decreases n,
{
    if n > 0 {
        let i = n - 1;
        lemma_hide_collapsed_prefix(matches, fewer, more, (n - 1) as nat);
        let before = entries_for_prefix(matches, fewer, (n - 1) as nat);
        let before2 = entries_for_prefix(matches, more, (n - 1) as nat);
        let with_header = if starts_group(matches, i) {
            before.push(Entry::Header(matches[i].path))
        } else {
            before
        };
        let with_header2 = if starts_group(matches, i) {
            before2.push(Entry::Header(matches[i].path))
        } else {
            before2
        };
        assert(with_header2 == hide_collapsed(with_header, matches, more)) by {
            if starts_group(matches, i) {
                assert(with_header.drop_last() == before);
            }
        }
        if !fewer.contains(matches[i].path) {
            let m = Entry::Match(i as usize);
            assert((i as usize) as int == i);
            let full = with_header.push(m);
            assert(full.drop_last() == with_header);
            assert(full.last() == m);
            if more.contains(matches[i].path) {
                assert(hide_collapsed(full, matches, more) == hide_collapsed(with_header, matches, more));
            } else {
                assert(hide_collapsed(full, matches, more) == hide_collapsed(with_header, matches, more).push(m));
            }
        } else {
            assert(more.contains(matches[i].path));
        }
    }
}

/// Collapsing more files hides exactly the match rows of the files newly
/// collapsed: the rows are those of the list with fewer collapsed files
/// (the matches held in a vector, so their count fits in `usize`),
/// without the match rows of the collapsed files. In particular every row
/// list is the fully expanded one with the collapsed files' match rows left
/// out.
pub proof fn collapsing_hides_only_collapsed_rows(
    matches: Seq<LocationMatch>,
    fewer: Set<ProjectPath>,
    more: Set<ProjectPath>,
)
    requires
        fewer.subset_of(more),
        matches.len() <= usize::MAX,
    ensures
        entries_for(matches, more) == hide_collapsed(entries_for(matches, fewer), matches, more),
{
    lemma_hide_collapsed_prefix(matches, fewer, more, matches.len());
}

/// The results area shows the spinner whenever a query runs, whatever rows
/// an earlier query left; with no query running it shows the hint before
/// any query, the no-results note after an empty one, and the rows
/// otherwise.
pub proof fn results_area_shows_running_query(list: &ResultsList)
    ensures
        list.searching ==> list.content_view_spec() == ContentView::Searching,
        !list.searching && list.results is None ==> list.content_view_spec() == ContentView::Hint,
        !list.searching && (list.results matches Some(r) && r.matches@.len() == 0)
            ==> list.content_view_spec() == ContentView::NoResults,
        !list.searching && (list.results matches Some(r) && r.matches@.len() > 0)
            ==> list.content_view_spec() == ContentView::Results,
{
}

/// Moving the selection one row down lands on the nearest match row below
/// the selected row (below the top when nothing is selected), past any
/// number of header rows, and stays put only when there is none; moving one
/// row up lands on the nearest match row above (above the bottom when
/// nothing is selected).
pub proof fn moving_selection_finds_nearest_match_row(entries: Seq<Entry>, selected: Option<usize>)
    requires
        selected matches Some(i) ==> i < entries.len(),
    ensures
        ({
            let start = match selected { Some(i) => i as int, None => -1 };
            match relative_target(entries, selected, 1) {
                Some(p) => start < p < entries.len() && is_match_row(entries, p)
                    && forall|q: int| start < q < p ==> !is_match_row(entries, q),
                None => forall|q: int| start < q < entries.len() ==> !is_match_row(entries, q),
            }
        }),
        ({
            let start = match selected { Some(i) => i as int, None => entries.len() as int };
            match relative_target(entries, selected, -1) {
                Some(p) => 0 <= p < start && is_match_row(entries, p)
                    && forall|q: int| p < q < start ==> !is_match_row(entries, q),
                None => forall|q: int| 0 <= q < start ==> !is_match_row(entries, q),
            }
        }),
{
    let down = match selected { Some(i) => i as int, None => -1 };
    let up = match selected { Some(i) => i as int, None => entries.len() as int };
    select_next_is_nearest_below(entries, down);
    select_previous_is_nearest_above(entries, up);
}

/// Toggling the group of a file flips whether that file is collapsed and
/// leaves every other file as it was.
pub proof fn toggle_group_flips_only_that_file(collapsed: Set<ProjectPath>, path: ProjectPath, other: ProjectPath)
    ensures
        toggled(collapsed, path).contains(path) == !collapsed.contains(path),
        other != path ==> toggled(collapsed, path).contains(other) == collapsed.contains(other),
{
}

} // verus!
