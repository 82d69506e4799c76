//! What a connection reports of its workspace.

use crate::collections::IdMap;
use crate::layout::{LayoutNode, LayoutView, ShellType, ShellView, opt_node};
use crate::remote_sync::{ApiServiceInfo, ServiceView, service_views};
use crate::state::{
    FolderColor, FolderData, FolderView, HookTerminalEntry, HookTerminalView, HooksConfig,
    SessionLinks, folder_views, opt_shell,
};
use crate::text::{opt_text, texts};
use vstd::prelude::*;

verus! {

/// Where a reported worktree project comes from.
#[derive(Debug)]
pub struct ApiWorktreeInfo {
    pub parent_project_id: String,
    pub color_override: Option<FolderColor>,
    pub branch_name: String,
}

/// What an [`ApiWorktreeInfo`] stands for.
pub struct ApiWorktreeView {
    pub parent_project_id: Seq<char>,
    pub color_override: Option<FolderColor>,
    pub branch_name: Seq<char>,
}

impl View for ApiWorktreeInfo {
    type V = ApiWorktreeView;

    open spec fn view(&self) -> ApiWorktreeView {
        ApiWorktreeView {
            parent_project_id: self.parent_project_id@,
            color_override: self.color_override,
            branch_name: self.branch_name@,
        }
    }
}

/// A reported terminal that runs a hook.
#[derive(Debug)]
pub struct ApiHookTerminalEntry {
    pub terminal_id: String,
    pub entry: HookTerminalEntry,
}

/// What each hook terminal of `s` stands for.
pub open spec fn api_hook_views(s: Seq<ApiHookTerminalEntry>) -> Seq<
    (Seq<char>, HookTerminalView),
> {
    s.map_values(|h: ApiHookTerminalEntry| (h.terminal_id@, h.entry@))
}

/// A reported project.
#[derive(Debug)]
pub struct ApiProject {
    pub id: String,
    pub name: String,
    pub path: String,
    pub layout: Option<LayoutNode>,
    pub terminal_names: IdMap<String>,
    pub git_status: Option<String>,
    pub folder_color: FolderColor,
    pub services: Vec<ApiServiceInfo>,
    pub worktree_info: Option<ApiWorktreeInfo>,
    pub worktree_ids: Vec<String>,
    pub session: SessionLinks,
    pub pinned: bool,
    pub last_activity_at: Option<u64>,
    pub default_shell: Option<ShellType>,
    pub hook_terminals: Vec<ApiHookTerminalEntry>,
    pub hooks: HooksConfig,
    pub is_creating: bool,
    pub is_closing: bool,
    pub creating_progress: Option<String>,
}

/// What an [`ApiProject`] stands for.
pub struct ApiProjectView {
    pub id: Seq<char>,
    pub name: Seq<char>,
    pub path: Seq<char>,
    pub layout: Option<LayoutView>,
    pub terminal_names: Seq<(Seq<char>, Seq<char>)>,
    pub git_status: Option<Seq<char>>,
    pub folder_color: FolderColor,
    pub services: Seq<ServiceView>,
    pub worktree_info: Option<ApiWorktreeView>,
    pub worktree_ids: Seq<Seq<char>>,
    pub session: SessionLinks,
    pub pinned: bool,
    pub last_activity_at: Option<u64>,
    pub default_shell: Option<ShellView>,
    pub hook_terminals: Seq<(Seq<char>, HookTerminalView)>,
    pub hooks: HooksConfig,
    pub is_creating: bool,
    pub is_closing: bool,
    pub creating_progress: Option<Seq<char>>,
}

impl View for ApiProject {
    type V = ApiProjectView;

    open spec fn view(&self) -> ApiProjectView {
        ApiProjectView {
            id: self.id@,
            name: self.name@,
            path: self.path@,
            layout: opt_node(self.layout),
            terminal_names: self.terminal_names@,
            git_status: opt_text(self.git_status),
            folder_color: self.folder_color,
            services: service_views(self.services@),
            worktree_info: match self.worktree_info {
                Some(w) => Some(w@),
                None => None,
            },
            worktree_ids: texts(self.worktree_ids@),
            session: self.session,
            pinned: self.pinned,
            last_activity_at: self.last_activity_at,
            default_shell: opt_shell(self.default_shell),
            hook_terminals: api_hook_views(self.hook_terminals@),
            hooks: self.hooks,
            is_creating: self.is_creating,
            is_closing: self.is_closing,
            creating_progress: opt_text(self.creating_progress),
        }
    }
}

/// What each project of `s` stands for.
pub open spec fn api_project_views(s: Seq<ApiProject>) -> Seq<ApiProjectView> {
    s.map_values(|p: ApiProject| p@)
}

/// What a connection reports.
#[derive(Debug)]
pub struct StateResponse {
    pub projects: Vec<ApiProject>,
    pub project_order: Vec<String>,
    pub folders: Vec<FolderData>,
}

/// What a [`StateResponse`] stands for.
pub struct StateView {
    pub projects: Seq<ApiProjectView>,
    pub project_order: Seq<Seq<char>>,
    pub folders: Seq<FolderView>,
}

impl View for StateResponse {
    type V = StateView;

    open spec fn view(&self) -> StateView {
        StateView {
            projects: api_project_views(self.projects@),
            project_order: texts(self.project_order@),
            folders: folder_views(self.folders@),
        }
    }
}

/// Where a connection leads.
#[derive(Debug)]
pub struct RemoteConnectionConfig {
    pub id: String,
    pub name: String,
    pub host: String,
    pub port: u16,
}

/// A connection at the time of a sync; one that is not connected reports
/// nothing.
#[derive(Debug)]
pub struct RemoteSnapshot {
    pub config: RemoteConnectionConfig,
    pub state: Option<StateResponse>,
}

/// What a [`RemoteSnapshot`] stands for.
pub struct RemoteSnapshotView {
    pub connection_id: Seq<char>,
    pub name: Seq<char>,
    pub host: Seq<char>,
    pub port: u16,
    pub state: Option<StateView>,
}

impl View for RemoteSnapshot {
    type V = RemoteSnapshotView;

    open spec fn view(&self) -> RemoteSnapshotView {
        RemoteSnapshotView {
            connection_id: self.config.id@,
            name: self.config.name@,
            host: self.config.host@,
            port: self.config.port,
            state: match self.state {
                Some(s) => Some(s@),
                None => None,
            },
        }
    }
}

/// What each connection of `s` stands for.
pub open spec fn snapshot_views(s: Seq<RemoteSnapshot>) -> Seq<RemoteSnapshotView> {
    s.map_values(|x: RemoteSnapshot| x@)
}

} // verus!
