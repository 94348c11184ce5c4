//! The panel that shows the results of the last "find all references" query.

use vstd::prelude::*;
use crate::location::{LocationMatch, ProjectPath};
use crate::entries::entries_for;
use crate::results_list::{ResultsList, ScrollRequest, ScrollStrategy, ContentView, CollapseIcon, PanelHeader};
use crate::dock::{DockPosition, left_dock_only};

verus! {

/// How a "find all references" query ended.
pub enum QueryOutcome {
    /// The editor, or its cursor position, was gone before the query ran or
    /// before its results could be read.
    Abandoned,
    /// The language server query failed with this message.
    Failed(String),
    /// The query found these locations, grouped by file.
    Found(Vec<LocationMatch>),
}

/// What the caller does after a query ended.
pub enum QueryReply {
    /// Nothing more.
    Nothing,
    /// Shows this error in the workspace.
    ShowError(String),
    /// Opens the panel, which now lists the results, and scrolls its list.
    ShowResults(ScrollRequest),
}

/// The references panel: the results of the last query, grouped by file.
pub struct ReferencesPanel {
    pub list: ResultsList,
}

impl ReferencesPanel {
    pub open spec fn wf(&self) -> bool {
        self.list.wf()
    }

    /// A panel before any query: it shows the hint.
    pub fn new() -> (panel: Self)
        ensures
            panel.wf(),
            !panel.list.searching,
            panel.list.collapsed_files@ == Set::<ProjectPath>::empty(),
            panel.list.results is None,
            panel.list.selected_entry is None,
    {
        ReferencesPanel { list: ResultsList::new() }
    }

    /// A query started: the panel shows that it is searching right away, so
    /// that it does not look stuck while the language server responds. The
    /// caller opens the panel.
    pub fn begin_query(&mut self)
        requires
            old(self).wf(),
        ensures
            final(self).wf(),
            final(self).list.searching,
            final(self).list.content_view_spec() == ContentView::Searching,
            final(self).list.results_view() == old(self).list.results_view(),
            final(self).list.collapsed_files@ == old(self).list.collapsed_files@,
            final(self).list.selected_entry == old(self).list.selected_entry,
    {
        self.list.set_searching(true);
    }

    /// A query ended. Found locations become the panel's results; a failure
    /// is shown as an error and an abandoned query changes nothing, and in
    /// both cases the panel keeps its state as it was.
    pub fn finish_query(&mut self, outcome: QueryOutcome) -> (reply: QueryReply)
        requires
            old(self).wf(),
        ensures
            final(self).wf(),
            match outcome {
                QueryOutcome::Found(matches) => {
                    &&& !final(self).list.searching
                    &&& final(self).list.collapsed_files@ == Set::<ProjectPath>::empty()
                    &&& final(self).list.results_view() == Some((entries_for(matches@, Set::<ProjectPath>::empty()), matches@))
                    &&& final(self).list.selected_entry is None
                    &&& reply == QueryReply::ShowResults(ScrollRequest { index: 0, strategy: ScrollStrategy::Top })
                },
                QueryOutcome::Failed(message) => {
                    &&& final(self).list.searching == old(self).list.searching
                    &&& final(self).list.results_view() == old(self).list.results_view()
                    &&& final(self).list.collapsed_files@ == old(self).list.collapsed_files@
                    &&& final(self).list.selected_entry == old(self).list.selected_entry
                    &&& reply matches QueryReply::ShowError(shown) && shown@ == message@
                },
                QueryOutcome::Abandoned => {
                    &&& final(self).list.searching == old(self).list.searching
                    &&& final(self).list.results_view() == old(self).list.results_view()
                    &&& final(self).list.collapsed_files@ == old(self).list.collapsed_files@
                    &&& final(self).list.selected_entry == old(self).list.selected_entry
                    &&& reply is Nothing
                },
            },
    {
        match outcome {
            QueryOutcome::Abandoned => QueryReply::Nothing,
            QueryOutcome::Failed(message) => QueryReply::ShowError(message),
            QueryOutcome::Found(matches) => QueryReply::ShowResults(self.list.set_results(matches)),
        }
    }

    /// The panel's header: the title "References" and the collapse button,
    /// which expands every group when all are collapsed and collapses them
    /// otherwise.
    pub fn header(&self) -> (header: PanelHeader)
        requires
            self.wf(),
        ensures
            header.title@ == "References"@,
            header.open_search_editor_tooltip is None,
            header.collapse_icon == (if self.list.is_all_collapsed() {
                CollapseIcon::ListExpand
            } else {
                CollapseIcon::ListCollapse
            }),
            header.collapse_tooltip@ == (if self.list.is_all_collapsed() {
                "Expand All"@
            } else {
                "Collapse All"@
            }),
    {
        self.list.header("References", None)
    }

    /// The lines of the results area when it shows no rows: the hint before
    /// any query, or the note that the query found nothing.
    pub fn empty_state_lines(&self) -> (lines: Vec<&'static str>)
        ensures
            match self.list.content_view_spec() {
                ContentView::Hint => lines@.len() == 2 && lines@[0]@ == "Run Find All References"@
                    && lines@[1]@ == "with Shift-F12 to see results"@,
                ContentView::NoResults => lines@.len() == 1 && lines@[0]@ == "No references found"@,
                _ => lines@.len() == 0,
            },
    {
        match self.list.content_view() {
            ContentView::Hint => vec!["Run Find All References", "with Shift-F12 to see results"],
            ContentView::NoResults => vec!["No references found"],
            _ => Vec::new(),
        }
    }

    /// The key contexts that the panel's key bindings are looked up in.
    pub fn dispatch_context() -> (contexts: Vec<&'static str>)
        ensures
            contexts@.len() == 2,
            contexts@[0]@ == "ReferencesPanel"@,
            contexts@[1]@ == "menu"@,
    {
        vec!["ReferencesPanel", "menu"]
    }

    /// The name under which the panel's state is saved.
    pub fn persistent_name() -> (name: &'static str)
        ensures
            name@ == "References Panel"@,
    {
        "References Panel"
    }

    /// The key of the panel in the workspace.
    pub fn panel_key() -> (key: &'static str)
        ensures
            key@ == "ReferencesPanel"@,
    {
        "ReferencesPanel"
    }

    /// The panel opens in the left dock.
    pub fn position() -> (position: DockPosition)
        ensures
            position == DockPosition::Left,
    {
        DockPosition::Left
    }

    /// The panel can only be docked on the left.
    pub fn position_is_valid(position: DockPosition) -> (valid: bool)
        ensures
            valid == (position == DockPosition::Left),
    {
        left_dock_only(position)
    }

    /// The tooltip of the panel's button.
    pub fn icon_tooltip() -> (tooltip: &'static str)
        ensures
            tooltip@ == "Find All References"@,
    {
        "Find All References"
    }

    /// The place of the panel's button among the panel buttons.
    pub fn activation_priority() -> (priority: u32)
        ensures
            priority == 7,
    {
        7
    }
}

} // verus!
