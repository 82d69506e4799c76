//! The data of a workspace: projects, folders and windows.

use crate::collections::{Duplicate, IdMap, IdSet, position};
use crate::layout::{LayoutNode, LayoutView, ShellType, ShellView, opt_node, terminal_ids};
use crate::outside::fresh_uuid;
use crate::text::{copy_opt, opt_text, same, texts};
use vstd::prelude::*;

verus! {

/// The color of a folder or project.
#[derive(Clone, Copy, Debug, PartialEq, Eq, Structural)]
pub enum FolderColor {
    Default,
    Red,
    Orange,
    Yellow,
    Green,
    Cyan,
    Blue,
    Purple,
    Pink,
}

/// How far the command of a hook terminal has come.
#[derive(Clone, Copy, Debug, PartialEq, Eq, Structural)]
pub enum HookTerminalStatus {
    Running,
    Succeeded,
    Failed { exit_code: i32 },
}

/// A terminal that runs a hook.
#[derive(Debug)]
pub struct HookTerminalEntry {
    pub label: String,
    pub status: HookTerminalStatus,
    pub hook_type: String,
    pub command: String,
    pub cwd: String,
    pub finished_at: Option<u64>,
}

/// What a [`HookTerminalEntry`] stands for.
pub struct HookTerminalView {
    pub label: Seq<char>,
    pub status: HookTerminalStatus,
    pub hook_type: Seq<char>,
    pub command: Seq<char>,
    pub cwd: Seq<char>,
    pub finished_at: Option<u64>,
}

impl View for HookTerminalEntry {
    type V = HookTerminalView;

    open spec fn view(&self) -> HookTerminalView {
        HookTerminalView {
            label: self.label@,
            status: self.status,
            hook_type: self.hook_type@,
            command: self.command@,
            cwd: self.cwd@,
            finished_at: self.finished_at,
        }
    }
}

impl Duplicate for HookTerminalEntry {
    fn duplicate(&self) -> (r: Self) {
        HookTerminalEntry {
            label: self.label.clone(),
            status: self.status,
            hook_type: self.hook_type.clone(),
            command: self.command.clone(),
            cwd: self.cwd.clone(),
            finished_at: self.finished_at,
        }
    }
}

impl Clone for HookTerminalEntry {
    fn clone(&self) -> (r: Self)
        ensures
            r@ == self@,
    {
        self.duplicate()
    }
}

/// The commands configured for a project's lifecycle.
#[derive(Debug)]
pub struct ProjectHooks {
    pub on_open: Option<String>,
    pub on_close: Option<String>,
}

/// The commands configured for a worktree's lifecycle.
#[derive(Debug)]
pub struct WorktreeHooks {
    pub on_create: Option<String>,
    pub on_close: Option<String>,
    pub pre_merge: Option<String>,
    pub post_merge: Option<String>,
    pub before_remove: Option<String>,
    pub after_remove: Option<String>,
    pub on_rebase_conflict: Option<String>,
    pub on_dirty_close: Option<String>,
}

/// The commands configured for a terminal's lifecycle.
#[derive(Debug)]
pub struct TerminalHooks {
    pub on_create: Option<String>,
    pub on_close: Option<String>,
    pub shell_wrapper: Option<String>,
}

/// The commands that run at points of a project's life.
#[derive(Debug)]
pub struct HooksConfig {
    pub project: ProjectHooks,
    pub terminal: TerminalHooks,
    pub worktree: WorktreeHooks,
}

impl Clone for HooksConfig {
    fn clone(&self) -> (r: Self)
        ensures
            r == *self,
    {
        HooksConfig {
            project: ProjectHooks {
                on_open: copy_opt(&self.project.on_open),
                on_close: copy_opt(&self.project.on_close),
            },
            terminal: TerminalHooks {
                on_create: copy_opt(&self.terminal.on_create),
                on_close: copy_opt(&self.terminal.on_close),
                shell_wrapper: copy_opt(&self.terminal.shell_wrapper),
            },
            worktree: WorktreeHooks {
                on_create: copy_opt(&self.worktree.on_create),
                on_close: copy_opt(&self.worktree.on_close),
                pre_merge: copy_opt(&self.worktree.pre_merge),
                post_merge: copy_opt(&self.worktree.post_merge),
                before_remove: copy_opt(&self.worktree.before_remove),
                after_remove: copy_opt(&self.worktree.after_remove),
                on_rebase_conflict: copy_opt(&self.worktree.on_rebase_conflict),
                on_dirty_close: copy_opt(&self.worktree.on_dirty_close),
            },
        }
    }
}

/// No hooks at all.
pub open spec fn no_hooks() -> HooksConfig {
    HooksConfig {
        project: ProjectHooks { on_open: None, on_close: None },
        terminal: TerminalHooks { on_create: None, on_close: None, shell_wrapper: None },
        worktree: WorktreeHooks {
            on_create: None,
            on_close: None,
            pre_merge: None,
            post_merge: None,
            before_remove: None,
            after_remove: None,
            on_rebase_conflict: None,
            on_dirty_close: None,
        },
    }
}

impl Default for HooksConfig {
    fn default() -> (r: Self)
        ensures
            r == no_hooks(),
    {
        HooksConfig {
            project: ProjectHooks { on_open: None, on_close: None },
            terminal: TerminalHooks { on_create: None, on_close: None, shell_wrapper: None },
            worktree: WorktreeHooks {
                on_create: None,
                on_close: None,
                pre_merge: None,
                post_merge: None,
                before_remove: None,
                after_remove: None,
                on_rebase_conflict: None,
                on_dirty_close: None,
            },
        }
    }
}

/// Where a worktree project's checkout comes from.
#[derive(Debug)]
pub struct WorktreeMetadata {
    pub parent_project_id: String,
    pub color_override: Option<FolderColor>,
    pub main_repo_path: String,
    pub worktree_path: String,
    pub branch_name: String,
}

/// What a [`WorktreeMetadata`] stands for.
pub struct WorktreeView {
    pub parent_project_id: Seq<char>,
    pub color_override: Option<FolderColor>,
    pub main_repo_path: Seq<char>,
    pub worktree_path: Seq<char>,
    pub branch_name: Seq<char>,
}

impl View for WorktreeMetadata {
    type V = WorktreeView;

    open spec fn view(&self) -> WorktreeView {
        WorktreeView {
            parent_project_id: self.parent_project_id@,
            color_override: self.color_override,
            main_repo_path: self.main_repo_path@,
            worktree_path: self.worktree_path@,
            branch_name: self.branch_name@,
        }
    }
}

impl Clone for WorktreeMetadata {
    fn clone(&self) -> (r: Self)
        ensures
            r == *self,
    {
        WorktreeMetadata {
            parent_project_id: self.parent_project_id.clone(),
            color_override: self.color_override,
            main_repo_path: self.main_repo_path.clone(),
            worktree_path: self.worktree_path.clone(),
            branch_name: self.branch_name.clone(),
        }
    }
}

/// What an optional [`WorktreeMetadata`] stands for.
pub open spec fn opt_worktree(o: Option<WorktreeMetadata>) -> Option<WorktreeView> {
    match o {
        Some(w) => Some(w@),
        None => None,
    }
}

/// What an agent session that owns a project works on. The links are opaque
/// here: they are carried along and compared with nothing.
#[derive(Debug)]
pub struct SessionLinks {
    pub task_ref: Option<String>,
    pub spec_change: Option<String>,
    pub knowledge_root: Option<String>,
    pub task_draft: Option<String>,
    pub custom_session: Option<String>,
    pub agent: Option<String>,
}

impl Clone for SessionLinks {
    fn clone(&self) -> (r: Self)
        ensures
            r == *self,
    {
        SessionLinks {
            task_ref: copy_opt(&self.task_ref),
            spec_change: copy_opt(&self.spec_change),
            knowledge_root: copy_opt(&self.knowledge_root),
            task_draft: copy_opt(&self.task_draft),
            custom_session: copy_opt(&self.custom_session),
            agent: copy_opt(&self.agent),
        }
    }
}

/// No session at all.
pub open spec fn no_session() -> SessionLinks {
    SessionLinks {
        task_ref: None,
        spec_change: None,
        knowledge_root: None,
        task_draft: None,
        custom_session: None,
        agent: None,
    }
}

impl Default for SessionLinks {
    fn default() -> (r: Self)
        ensures
            r == no_session(),
    {
        SessionLinks {
            task_ref: None,
            spec_change: None,
            knowledge_root: None,
            task_draft: None,
            custom_session: None,
            agent: None,
        }
    }
}

/// Whether any session link is set.
pub open spec fn agent_session(s: SessionLinks) -> bool {
    s.task_ref is Some || s.spec_change is Some || s.knowledge_root is Some || s.task_draft is Some
        || s.custom_session is Some || s.agent is Some
}

/// The space that is always there.
pub open spec fn default_space_id() -> Seq<char> {
    "default"@
}

/// A project.
#[derive(Debug)]
pub struct ProjectData {
    pub id: String,
    pub name: String,
    pub path: String,
    pub layout: Option<LayoutNode>,
    pub terminal_names: IdMap<String>,
    pub hidden_terminals: IdMap<bool>,
    pub worktree_info: Option<WorktreeMetadata>,
    pub worktree_ids: Vec<String>,
    pub session: SessionLinks,
    pub folder_color: FolderColor,
    pub hooks: HooksConfig,
    pub connection_id: Option<String>,
    pub service_terminals: IdMap<String>,
    pub default_shell: Option<ShellType>,
    pub hook_terminals: IdMap<HookTerminalEntry>,
    pub pinned: bool,
    pub last_activity_at: Option<u64>,
    pub is_creating: bool,
    pub is_closing: bool,
    pub creating_progress: Option<String>,
    pub space_id: String,
    pub closed_at: Option<u64>,
}

/// What a [`ProjectData`] stands for.
pub struct ProjectView {
    pub id: Seq<char>,
    pub name: Seq<char>,
    pub path: Seq<char>,
    pub layout: Option<LayoutView>,
    pub terminal_names: Seq<(Seq<char>, Seq<char>)>,
    pub hidden_terminals: Seq<(Seq<char>, bool)>,
    pub worktree_info: Option<WorktreeView>,
    pub worktree_ids: Seq<Seq<char>>,
    pub session: SessionLinks,
    pub folder_color: FolderColor,
    pub hooks: HooksConfig,
    pub connection_id: Option<Seq<char>>,
    pub service_terminals: Seq<(Seq<char>, Seq<char>)>,
    pub default_shell: Option<ShellView>,
    pub hook_terminals: Seq<(Seq<char>, HookTerminalView)>,
    pub pinned: bool,
    pub last_activity_at: Option<u64>,
    pub is_creating: bool,
    pub is_closing: bool,
    pub creating_progress: Option<Seq<char>>,
    pub space_id: Seq<char>,
    pub closed_at: Option<u64>,
}

/// What an optional shell stands for.
pub open spec fn opt_shell(o: Option<ShellType>) -> Option<ShellView> {
    match o {
        Some(s) => Some(s@),
        None => None,
    }
}

impl View for ProjectData {
    type V = ProjectView;

    open spec fn view(&self) -> ProjectView {
        ProjectView {
            id: self.id@,
            name: self.name@,
            path: self.path@,
            layout: opt_node(self.layout),
            terminal_names: self.terminal_names@,
            hidden_terminals: self.hidden_terminals@,
            worktree_info: opt_worktree(self.worktree_info),
            worktree_ids: texts(self.worktree_ids@),
            session: self.session,
            folder_color: self.folder_color,
            hooks: self.hooks,
            connection_id: opt_text(self.connection_id),
            service_terminals: self.service_terminals@,
            default_shell: opt_shell(self.default_shell),
            hook_terminals: self.hook_terminals@,
            pinned: self.pinned,
            last_activity_at: self.last_activity_at,
            is_creating: self.is_creating,
            is_closing: self.is_closing,
            creating_progress: opt_text(self.creating_progress),
            space_id: self.space_id@,
            closed_at: self.closed_at,
        }
    }
}

/// What each project of `s` stands for.
pub open spec fn project_views(s: Seq<ProjectData>) -> Seq<ProjectView> {
    s.map_values(|p: ProjectData| p@)
}

/// The ids of the projects `ps`.
pub open spec fn project_ids(ps: Seq<ProjectView>) -> Seq<Seq<char>> {
    ps.map_values(|p: ProjectView| p.id)
}

/// The position of the project `id`.
pub open spec fn project_at(ps: Seq<ProjectView>, id: Seq<char>) -> Option<int> {
    position(project_ids(ps), id)
}

/// The project `id`.
pub open spec fn project_in(ps: Seq<ProjectView>, id: Seq<char>) -> Option<ProjectView> {
    match project_at(ps, id) {
        Some(i) => Some(ps[i]),
        None => None,
    }
}

/// Whether some project of `ps` is called `id`.
pub open spec fn has_project(ps: Seq<ProjectView>, id: Seq<char>) -> bool {
    project_ids(ps).contains(id)
}

/// `ps` with the project `id` replaced by `p`.
pub open spec fn with_project(ps: Seq<ProjectView>, id: Seq<char>, p: ProjectView) -> Seq<
    ProjectView,
> {
    match project_at(ps, id) {
        Some(i) => ps.update(i, p),
        None => ps,
    }
}

/// A project that has nothing but an id, a name, a path, a layout and a shell.
pub open spec fn new_row(
    id: Seq<char>,
    name: Seq<char>,
    path: Seq<char>,
    layout: Option<LayoutView>,
    default_shell: Option<ShellView>,
) -> ProjectView {
    ProjectView {
        id,
        name,
        path,
        layout,
        terminal_names: Seq::empty(),
        hidden_terminals: Seq::empty(),
        worktree_info: None,
        worktree_ids: Seq::empty(),
        session: no_session(),
        folder_color: FolderColor::Default,
        hooks: no_hooks(),
        connection_id: None,
        service_terminals: Seq::empty(),
        default_shell,
        hook_terminals: Seq::empty(),
        pinned: false,
        last_activity_at: None,
        is_creating: false,
        is_closing: false,
        creating_progress: None,
        space_id: default_space_id(),
        closed_at: None,
    }
}

/// A fresh project row that belongs to no other project.
pub fn new_project_row(
    id: String,
    name: String,
    path: String,
    layout: Option<LayoutNode>,
    default_shell: Option<ShellType>,
) -> (r: ProjectData)
    ensures
        r@ == new_row(id@, name@, path@, opt_node(layout), opt_shell(default_shell)),
{
    let worktree_ids: Vec<String> = Vec::new();
    proof {
        assert(texts(worktree_ids@) =~= Seq::<Seq<char>>::empty());
    }
    ProjectData {
        id,
        name,
        path,
        layout,
        terminal_names: IdMap::new(),
        hidden_terminals: IdMap::new(),
        worktree_info: None,
        worktree_ids,
        session: SessionLinks::default(),
        folder_color: FolderColor::Default,
        hooks: HooksConfig::default(),
        connection_id: None,
        service_terminals: IdMap::new(),
        default_shell,
        hook_terminals: IdMap::new(),
        pinned: false,
        last_activity_at: None,
        is_creating: false,
        is_closing: false,
        creating_progress: None,
        space_id: "default".to_owned(),
        closed_at: None,
    }
}

impl ProjectData {
    /// Whether an agent session, of any kind, owns the project.
    pub fn is_any_agent_session(&self) -> (r: bool)
        ensures
            r == agent_session(self.session),
    {
        self.session.task_ref.is_some() || self.session.spec_change.is_some()
            || self.session.knowledge_root.is_some() || self.session.task_draft.is_some()
            || self.session.custom_session.is_some() || self.session.agent.is_some()
    }
}

/// The ids of the terminals in a project's layout.
pub open spec fn layout_ids(p: ProjectView) -> Seq<Seq<char>> {
    match p.layout {
        Some(l) => terminal_ids(l),
        None => Seq::empty(),
    }
}

/// The ids of the terminals in a project's layout.
pub fn collect_layout_ids(p: &ProjectData) -> (r: Vec<String>)
    ensures
        texts(r@) == layout_ids(p@),
{
    match &p.layout {
        Some(l) => l.collect_terminal_ids(),
        None => {
            let r: Vec<String> = Vec::new();
            proof {
                assert(texts(r@) =~= Seq::<Seq<char>>::empty());
            }
            r
        },
    }
}

/// A folder that groups projects.
#[derive(Debug)]
pub struct FolderData {
    pub id: String,
    pub name: String,
    pub project_ids: Vec<String>,
    pub folder_color: FolderColor,
}

/// What a [`FolderData`] stands for.
pub struct FolderView {
    pub id: Seq<char>,
    pub name: Seq<char>,
    pub project_ids: Seq<Seq<char>>,
    pub folder_color: FolderColor,
}

impl View for FolderData {
    type V = FolderView;

    open spec fn view(&self) -> FolderView {
        FolderView {
            id: self.id@,
            name: self.name@,
            project_ids: texts(self.project_ids@),
            folder_color: self.folder_color,
        }
    }
}

/// What each folder of `s` stands for.
pub open spec fn folder_views(s: Seq<FolderData>) -> Seq<FolderView> {
    s.map_values(|f: FolderData| f@)
}

/// The ids of the folders `fs`.
pub open spec fn folder_ids(fs: Seq<FolderView>) -> Seq<Seq<char>> {
    fs.map_values(|f: FolderView| f.id)
}

/// The first folder called `id`.
pub open spec fn folder_in(fs: Seq<FolderView>, id: Seq<char>) -> Option<FolderView> {
    match position(folder_ids(fs), id) {
        Some(i) => Some(fs[i]),
        None => None,
    }
}

/// Names a window.
#[derive(Clone, Copy, Debug, PartialEq, Eq, Structural)]
pub enum WindowId {
    Main,
    Extra(u128),
}

/// The place of a window on the screen.
#[derive(Clone, Copy, Debug, PartialEq, Eq, Structural)]
pub struct WindowBounds {
    pub origin_x: i32,
    pub origin_y: i32,
    pub width: u32,
    pub height: u32,
}

/// What one window shows.
#[derive(Debug)]
pub struct WindowState {
    pub id: u128,
    pub hidden_project_ids: IdSet,
    pub project_widths: IdMap<u32>,
    pub project_width_scale: Option<u32>,
    pub folder_collapsed: IdMap<bool>,
    pub folder_filter: Option<String>,
    pub os_bounds: Option<WindowBounds>,
}

/// What a [`WindowState`] stands for.
pub struct WindowView {
    pub id: u128,
    pub hidden_project_ids: Set<Seq<char>>,
    pub project_widths: Seq<(Seq<char>, u32)>,
    pub project_width_scale: Option<u32>,
    pub folder_collapsed: Seq<(Seq<char>, bool)>,
    pub folder_filter: Option<Seq<char>>,
    pub os_bounds: Option<WindowBounds>,
}

impl View for WindowState {
    type V = WindowView;

    open spec fn view(&self) -> WindowView {
        WindowView {
            id: self.id,
            hidden_project_ids: self.hidden_project_ids@,
            project_widths: self.project_widths@,
            project_width_scale: self.project_width_scale,
            folder_collapsed: self.folder_collapsed@,
            folder_filter: opt_text(self.folder_filter),
            os_bounds: self.os_bounds,
        }
    }
}

impl WindowState {
    /// A window that hides nothing.
    pub fn new(id: u128) -> (r: Self)
        ensures
            r@ == blank_window(id),
    {
        WindowState {
            id,
            hidden_project_ids: IdSet::new(),
            project_widths: IdMap::new(),
            project_width_scale: None,
            folder_collapsed: IdMap::new(),
            folder_filter: None,
            os_bounds: None,
        }
    }
}

impl Default for WindowState {
    /// A window that hides nothing, under a random id.
    fn default() -> (r: Self)
        ensures
            r@ == blank_window(r.id),
    {
        WindowState::new(fresh_uuid().1)
    }
}

impl Clone for WindowState {
    fn clone(&self) -> (r: Self)
        ensures
            r@ == self@,
    {
        WindowState {
            id: self.id,
            hidden_project_ids: self.hidden_project_ids.clone(),
            project_widths: self.project_widths.copy(),
            project_width_scale: self.project_width_scale,
            folder_collapsed: self.folder_collapsed.copy(),
            folder_filter: copy_opt(&self.folder_filter),
            os_bounds: self.os_bounds,
        }
    }
}

/// A window that hides nothing.
pub open spec fn blank_window(id: u128) -> WindowView {
    WindowView {
        id,
        hidden_project_ids: Set::empty(),
        project_widths: Seq::empty(),
        project_width_scale: None,
        folder_collapsed: Seq::empty(),
        folder_filter: None,
        os_bounds: None,
    }
}

/// What each window of `s` stands for.
pub open spec fn window_views(s: Seq<WindowState>) -> Seq<WindowView> {
    s.map_values(|w: WindowState| w@)
}

/// Everything that is kept of a workspace.
#[derive(Debug)]
pub struct WorkspaceData {
    pub version: u32,
    pub projects: Vec<ProjectData>,
    pub project_order: Vec<String>,
    pub service_panel_heights: IdMap<u32>,
    pub hook_panel_heights: IdMap<u32>,
    pub folders: Vec<FolderData>,
    pub main_window: WindowState,
    pub extra_windows: Vec<WindowState>,
}

/// What a [`WorkspaceData`] stands for.
pub struct DataView {
    pub version: u32,
    pub projects: Seq<ProjectView>,
    pub project_order: Seq<Seq<char>>,
    pub service_panel_heights: Seq<(Seq<char>, u32)>,
    pub hook_panel_heights: Seq<(Seq<char>, u32)>,
    pub folders: Seq<FolderView>,
    pub main_window: WindowView,
    pub extra_windows: Seq<WindowView>,
}

impl View for WorkspaceData {
    type V = DataView;

    open spec fn view(&self) -> DataView {
        DataView {
            version: self.version,
            projects: project_views(self.projects@),
            project_order: texts(self.project_order@),
            service_panel_heights: self.service_panel_heights@,
            hook_panel_heights: self.hook_panel_heights@,
            folders: folder_views(self.folders@),
            main_window: self.main_window@,
            extra_windows: window_views(self.extra_windows@),
        }
    }
}

/// The position of the extra window `id`.
pub open spec fn extra_at(ws: Seq<WindowView>, id: u128) -> Option<int>
    decreases ws.len(),
{
    if ws.len() == 0 {
        None
    } else {
        match extra_at(ws.drop_last(), id) {
            Some(i) => Some(i),
            None => if ws.last().id == id {
                Some(ws.len() - 1)
            } else {
                None
            },
        }
    }
}

/// The window `id`.
pub open spec fn window_in(d: DataView, id: WindowId) -> Option<WindowView> {
    match id {
        WindowId::Main => Some(d.main_window),
        WindowId::Extra(x) => match extra_at(d.extra_windows, x) {
            Some(i) => Some(d.extra_windows[i]),
            None => None,
        },
    }
}

/// `d` with the window `id` replaced by `w`; `d` itself where there is no such
/// window.
pub open spec fn with_window(d: DataView, id: WindowId, w: WindowView) -> DataView {
    match id {
        WindowId::Main => DataView { main_window: w, ..d },
        WindowId::Extra(x) => match extra_at(d.extra_windows, x) {
            Some(i) => DataView { extra_windows: d.extra_windows.update(i, w), ..d },
            None => d,
        },
    }
}

/// The position of the project `id` in `projects`.
pub fn find_project(projects: &Vec<ProjectData>, id: &str) -> (r: Option<usize>)
    ensures
        match r {
            Some(i) => project_at(project_views(projects@), id@) == Some(i as int) && i
                < projects@.len() && projects@[i as int].id@ == id@,
            None => project_at(project_views(projects@), id@) is None,
        },
{
    let ghost ids = project_ids(project_views(projects@));
    let mut i: usize = 0;
    while i < projects.len()
        invariant
            i <= projects.len(),
            ids == project_ids(project_views(projects@)),
            position(ids.take(i as int), id@) is None,
        decreases projects.len() - i,
    {
        proof {
            assert(ids.take(i + 1).drop_last() =~= ids.take(i as int));
            assert(ids.take(i + 1).last() == projects@[i as int].id@);
        }
        if same(projects[i].id.as_str(), id) {
            proof {
                crate::collections::position_extends(ids, id@, i + 1);
            }
            return Some(i);
        }
        i = i + 1;
    }
    proof {
        assert(ids.take(i as int) =~= ids);
    }
    None
}

/// The position of the folder `id` in `folders`.
pub fn find_folder(folders: &Vec<FolderData>, id: &str) -> (r: Option<usize>)
    ensures
        match r {
            Some(i) => position(folder_ids(folder_views(folders@)), id@) == Some(i as int) && i
                < folders@.len(),
            None => position(folder_ids(folder_views(folders@)), id@) is None,
        },
{
    let ghost ids = folder_ids(folder_views(folders@));
    let mut i: usize = 0;
    while i < folders.len()
        invariant
            i <= folders.len(),
            ids == folder_ids(folder_views(folders@)),
            position(ids.take(i as int), id@) is None,
        decreases folders.len() - i,
    {
        proof {
            assert(ids.take(i + 1).drop_last() =~= ids.take(i as int));
            assert(ids.take(i + 1).last() == folders@[i as int].id@);
        }
        if same(folders[i].id.as_str(), id) {
            proof {
                crate::collections::position_extends(ids, id@, i + 1);
            }
            return Some(i);
        }
        i = i + 1;
    }
    proof {
        assert(ids.take(i as int) =~= ids);
    }
    None
}

/// A window found among the first ones is the one found among all.
proof fn extra_at_extends(ws: Seq<WindowView>, id: u128, n: int)
    requires
        0 <= n <= ws.len(),
        extra_at(ws.take(n), id) is Some,
    ensures
        extra_at(ws, id) == extra_at(ws.take(n), id),
    decreases ws.len() - n,
{
    if n < ws.len() {
        assert(ws.take(n + 1).drop_last() =~= ws.take(n));
        extra_at_extends(ws, id, n + 1);
    } else {
        assert(ws.take(n) =~= ws);
    }
}

/// The position of the extra window `id`.
pub fn find_extra(windows: &Vec<WindowState>, id: u128) -> (r: Option<usize>)
    ensures
        match r {
            Some(i) => extra_at(window_views(windows@), id) == Some(i as int) && i < windows@.len(),
            None => extra_at(window_views(windows@), id) is None,
        },
{
    let ghost ws = window_views(windows@);
    let mut i: usize = 0;
    while i < windows.len()
        invariant
            i <= windows.len(),
            ws == window_views(windows@),
            extra_at(ws.take(i as int), id) is None,
        decreases windows.len() - i,
    {
        proof {
            assert(ws.take(i + 1).drop_last() =~= ws.take(i as int));
            assert(ws.take(i + 1).last() == windows@[i as int]@);
        }
        if windows[i].id == id {
            proof {
                extra_at_extends(ws, id, i + 1);
            }
            return Some(i);
        }
        i = i + 1;
    }
    proof {
        assert(ws.take(i as int) =~= ws);
    }
    None
}

/// Replacing one project replaces its view.
pub proof fn project_views_update(s: Seq<ProjectData>, i: int, p: ProjectData)
    requires
        0 <= i < s.len(),
    ensures
        project_views(s.update(i, p)) == project_views(s).update(i, p@),
{
    assert(project_views(s.update(i, p)) =~= project_views(s).update(i, p@));
}

impl WorkspaceData {
    /// A workspace without projects.
    pub fn empty() -> (r: Self)
        ensures
            r@ == empty_data(),
    {
        let r = WorkspaceData {
            version: 2,
            projects: Vec::new(),
            project_order: Vec::new(),
            service_panel_heights: IdMap::new(),
            hook_panel_heights: IdMap::new(),
            folders: Vec::new(),
            main_window: WindowState::new(0),
            extra_windows: Vec::new(),
        };
        proof {
            assert(project_views(r.projects@) =~= Seq::<ProjectView>::empty());
            assert(folder_views(r.folders@) =~= Seq::<FolderView>::empty());
            assert(window_views(r.extra_windows@) =~= Seq::<WindowView>::empty());
            assert(texts(r.project_order@) =~= Seq::<Seq<char>>::empty());
        }
        r
    }

    /// The window `id`.
    pub fn window(&self, id: WindowId) -> (r: Option<&WindowState>)
        ensures
            match r {
                Some(w) => window_in(self@, id) == Some(w@),
                None => window_in(self@, id) is None,
            },
    {
        match id {
            WindowId::Main => Some(&self.main_window),
            WindowId::Extra(x) => match find_extra(&self.extra_windows, x) {
                Some(i) => Some(&self.extra_windows[i]),
                None => None,
            },
        }
    }
}

/// A workspace without projects.
pub open spec fn empty_data() -> DataView {
    DataView {
        version: 2,
        projects: Seq::empty(),
        project_order: Seq::empty(),
        service_panel_heights: Seq::empty(),
        hook_panel_heights: Seq::empty(),
        folders: Seq::empty(),
        main_window: blank_window(0),
        extra_windows: Seq::empty(),
    }
}

} // verus!
