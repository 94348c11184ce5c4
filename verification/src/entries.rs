//! The rows that a panel shows for its matches.

use vstd::prelude::*;
use crate::location::{LocationMatch, ProjectPath};
use crate::path_set::PathSet;

verus! {

/// One row of a results list: the header of a file's group, or the match at
/// an index into the list's matches.
#[derive(Clone, Copy, Debug, PartialEq, Eq, Structural)]
pub enum Entry {
    Header(ProjectPath),
    Match(usize),
}

/// A new file group starts at match `i`: it is the first match, or its file
/// differs from the file of the match before it.
pub open spec fn starts_group(matches: Seq<LocationMatch>, i: int) -> bool {
    i == 0 || matches[i - 1].path != matches[i].path
}

/// The rows for the first `n` matches: a header where a file group starts,
/// then the match itself unless its file is collapsed.
pub open spec fn entries_for_prefix(
    matches: Seq<LocationMatch>,
    collapsed: Set<ProjectPath>,
    n: nat,
) -> Seq<Entry>
    decreases n,
{
    if n == 0 {
        Seq::empty()
    } else {
        let i = n - 1;
        let before = entries_for_prefix(matches, collapsed, (n - 1) as nat);
        let with_header = if starts_group(matches, i) {
            before.push(Entry::Header(matches[i].path))
        } else {
            before
        };
        if collapsed.contains(matches[i].path) {
            with_header
        } else {
            with_header.push(Entry::Match(i as usize))
        }
    }
}

/// The rows for all of `matches`, with the groups of `collapsed` files shown
/// as their headers only.
pub open spec fn entries_for(matches: Seq<LocationMatch>, collapsed: Set<ProjectPath>) -> Seq<Entry> {
    entries_for_prefix(matches, collapsed, matches.len())
}

/// Builds the display rows from the (path-grouped) matches: one header per
/// file, then its matches, or only the headers for collapsed files.
pub fn build_entries(matches: &[LocationMatch], collapsed_files: &PathSet) -> (entries: Vec<Entry>)
    ensures
        entries@ == entries_for(matches@, collapsed_files@),
{
    let mut entries: Vec<Entry> = Vec::new();
    let mut last_path: Option<ProjectPath> = None;
    let mut match_index: usize = 0;
    while match_index < matches.len()
        invariant
            match_index <= matches@.len(),
            entries@ == entries_for_prefix(matches@, collapsed_files@, match_index as nat),
            last_path == (if match_index == 0 {
                None
            } else {
                Some(matches@[match_index - 1].path)
            }),
        decreases matches@.len() - match_index,
    {
        let location_match = matches[match_index];
        if last_path != Some(location_match.path) {
            entries.push(Entry::Header(location_match.path));
            last_path = Some(location_match.path);
        }
        if !collapsed_files.contains(&location_match.path) {
            entries.push(Entry::Match(match_index));
        }
        match_index += 1;
    }
    entries
}

/// The number of file groups that start among the first `n` matches.
pub open spec fn group_start_count(matches: Seq<LocationMatch>, n: nat) -> nat
    decreases n,
{
    if n == 0 {
        0
    } else {
        group_start_count(matches, (n - 1) as nat) + if starts_group(matches, n - 1) { 1nat } else { 0nat }
    }
}

/// The number of matches among the first `n` whose files are not collapsed.
pub open spec fn shown_count(matches: Seq<LocationMatch>, collapsed: Set<ProjectPath>, n: nat) -> nat
    decreases n,
{
    if n == 0 {
        0
    } else {
        shown_count(matches, collapsed, (n - 1) as nat) + if collapsed.contains(matches[n - 1].path) {
            0nat
        } else {
            1nat
        }
    }
}

} // verus!
