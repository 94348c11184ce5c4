//! The locations that the panels list.

use vstd::prelude::*;

verus! {

/// A file of the project: the worktree that holds it and the file's
/// worktree-relative path. The path is held by its id; ids are handed out in
/// path order, so comparing ids compares the paths.
#[derive(Clone, Copy, Debug, PartialEq, Eq, Structural)]
pub struct ProjectPath {
    pub worktree_id: u64,
    pub path_id: u64,
}

/// A position in a buffer: a zero-based row and a column in it.
#[derive(Clone, Copy, Debug, PartialEq, Eq, Structural)]
pub struct TextPoint {
    pub row: u32,
    pub column: u32,
}

/// A range of text between two positions of one buffer.
#[derive(Clone, Copy, Debug, PartialEq, Eq, Structural)]
pub struct TextRange {
    pub start: TextPoint,
    pub end: TextPoint,
}

/// One location listed by a panel: the file, the matched range, the
/// one-based line number that the row shows, and the caller's id for the
/// match, by which it finds the buffer and anchors of the match again.
#[derive(Clone, Copy, Debug, PartialEq, Eq, Structural)]
pub struct LocationMatch {
    pub id: u64,
    pub path: ProjectPath,
    pub range: TextRange,
    pub line_number: u32,
}

/// `a` comes before `b` in path order or is the same path.
pub open spec fn path_le(a: ProjectPath, b: ProjectPath) -> bool {
    a.worktree_id < b.worktree_id || (a.worktree_id == b.worktree_id && a.path_id <= b.path_id)
}

/// `a` comes before `b` in the buffer or is the same position.
pub open spec fn point_le(a: TextPoint, b: TextPoint) -> bool {
    a.row < b.row || (a.row == b.row && a.column <= b.column)
}

/// The order in which the search panel lists its matches: by file, then by
/// the start of the matched range.
pub open spec fn match_le(a: LocationMatch, b: LocationMatch) -> bool {
    if a.path == b.path {
        point_le(a.range.start, b.range.start)
    } else {
        path_le(a.path, b.path)
    }
}

/// `a` and `b` share their place in the search panel's order: the same file
/// and the same start.
pub open spec fn same_place(a: LocationMatch, b: LocationMatch) -> bool {
    a.path == b.path && a.range.start == b.range.start
}

/// `a` and `b` name the same range of the same file.
pub open spec fn same_location(a: LocationMatch, b: LocationMatch) -> bool {
    a.path == b.path && a.range == b.range
}

/// Compares two matches in the search panel's order.
pub fn match_precedes_or_ties(a: &LocationMatch, b: &LocationMatch) -> (r: bool)
    ensures
        r == match_le(*a, *b),
{
    if a.path == b.path {
        a.range.start.row < b.range.start.row || (a.range.start.row == b.range.start.row
            && a.range.start.column <= b.range.start.column)
    } else {
        a.path.worktree_id < b.path.worktree_id || (a.path.worktree_id == b.path.worktree_id
            && a.path.path_id <= b.path.path_id)
    }
}

/// Whether two matches name the same range of the same file.
pub fn is_same_location(a: &LocationMatch, b: &LocationMatch) -> (r: bool)
    ensures
        r == same_location(*a, *b),
        r == (a.path == b.path && a.range == b.range),
{
    a.path == b.path && a.range == b.range
}

} // verus!
