//! The state and the decisions behind two results panels of an editor: the
//! references panel, which lists the results of a "find all references"
//! query, and the search panel, which lists the matches of a project search.
//!
//! Both panels show their matches grouped by file: one header row per file,
//! followed by the file's match rows, unless the file's group is collapsed.
//! The library holds the matches, the collapsed groups and the selection,
//! and decides what every user action does to them; drawing the rows and
//! talking to the language server or the project search is left to the
//! caller.

pub mod location;
pub mod path_set;
pub mod entries;
pub mod results_list;
pub mod grouping;
pub mod display;
pub mod dock;
pub mod references_panel;
pub mod search_panel;
pub mod path_queries;
pub mod laws;
