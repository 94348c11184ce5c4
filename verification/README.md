# result_panels

The state and decisions of an editor's two results panels, verified with
Verus: the references panel (results of "find all references") and the search
panel (project search with its matches listed below the search bar).

Both panels list their matches grouped by file: a header row per file group,
then the group's match rows unless the file is collapsed. The library keeps
the matches, the rows, the collapsed files and the selection consistent, and
decides what each user action does; drawing the panels, querying the language
server and running the project search are the caller's part. Locations are
plain values: files are identified by worktree and path ids (ids follow path
order), and each match carries the caller's id for its buffer and anchors.

Layout of `src/`:

- `location.rs`: files, positions, ranges and matches, and the search order.
- `path_set.rs`: the set of collapsed files.
- `entries.rs`: the rows built from the matches and the collapsed files.
- `results_list.rs`: the state both panels share: results, collapse,
  selection, opening rows, and what the results area shows.
- `grouping.rs`: the search panel's stable sort and removal of repeated
  ranges, with their proofs.
- `display.rs`: the summary line, the line-number column width, the row the
  list is measured by.
- `path_queries.rs`: trimming of the path filter patterns.
- `references_panel.rs`, `search_panel.rs`: each panel's own decisions.
- `dock.rs`: dock positions.
- `laws.rs`: properties that span the operations, proved.
