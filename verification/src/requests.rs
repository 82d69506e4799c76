//! What views ask of each other.

use crate::harness_state::HarnessSection;
use vstd::prelude::*;

verus! {

/// How a terminal's menu was opened.
#[derive(Debug)]
pub enum TerminalMenuInvocation {
    /// On the terminal's contents.
    Content { has_selection: bool, link_url: Option<String> },
    /// On its header.
    Header { include_primary_actions: bool },
}

impl TerminalMenuInvocation {
    /// Whether the menu has the entries for selected text.
    pub fn includes_content_actions(&self) -> (r: bool)
        ensures
            r == (self is Content),
    {
        match self {
            TerminalMenuInvocation::Content { .. } => true,
            TerminalMenuInvocation::Header { .. } => false,
        }
    }

    /// Whether the menu has the entries that add, split and close: not where
    /// they stand beside it already.
    pub fn includes_primary_actions(&self) -> (r: bool)
        ensures
            r == match *self {
                TerminalMenuInvocation::Content { .. } => true,
                TerminalMenuInvocation::Header { include_primary_actions } =>
                    include_primary_actions,
            },
    {
        match self {
            TerminalMenuInvocation::Content { .. } => true,
            TerminalMenuInvocation::Header { include_primary_actions } => *include_primary_actions,
        }
    }
}

/// What is asked of the sidebar.
#[derive(Debug)]
pub enum SidebarRequest {
    RenameProject { project_id: String, project_name: String },
    RenameFolder { folder_id: String, folder_name: String },
    QuickCreateWorktree { project_id: String },
}

/// What the sidebar asks of the window.
#[derive(Clone, Copy, Debug, PartialEq, Eq, Structural)]
pub enum WorkbenchRequest {
    /// Show a view of the harness.
    OpenHarnessView(HarnessSection),
}

} // verus!
