//! The workspace: its data, what is pending, and how changes are announced.

use crate::collections::{IdMap, IdSet, list_contains, list_extend, list_remove, without};
use crate::layout::{LayoutNode, LayoutView, opt_node};
use crate::state::{
    DataView, FolderData, FolderView, HooksConfig, ProjectData, ProjectView, WindowId,
    WorkspaceData, find_folder, find_project, folder_views, project_in, project_views_update,
    with_project,
};
use crate::text::{copy_all, copy_opt, opt_text, texts};
use crate::windows::{WindowEdit, edited_one_window};
use vstd::prelude::*;

verus! {

/// A point in a project's life at which its hook runs.
#[derive(Clone, Copy, Debug, PartialEq, Eq, Structural)]
pub enum HookKind {
    ProjectOpen,
    ProjectClose,
    WorktreeCreate,
    WorktreeClose,
    WorktreeRemoved,
    PreMerge,
    PostMerge,
    RebaseConflict,
    BeforeWorktreeRemove,
    DirtyWorktreeClose,
}

/// A hook that the host is asked to run.
#[derive(Debug)]
pub struct HookRequest {
    pub kind: HookKind,
    pub project_hooks: HooksConfig,
    pub global_hooks: HooksConfig,
    pub project_id: String,
    pub project_name: String,
    pub project_path: String,
    pub branch: Option<String>,
    /// The branch that a merge goes into.
    pub target_branch: Option<String>,
    pub main_repo_path: Option<String>,
    /// What went wrong, for a hook that is run because of it.
    pub error: Option<String>,
    pub folder_id: Option<String>,
    pub folder_name: Option<String>,
}

/// What a [`HookRequest`] stands for.
pub struct HookRequestView {
    pub kind: HookKind,
    pub project_hooks: HooksConfig,
    pub global_hooks: HooksConfig,
    pub project_id: Seq<char>,
    pub project_name: Seq<char>,
    pub project_path: Seq<char>,
    pub branch: Option<Seq<char>>,
    pub target_branch: Option<Seq<char>>,
    pub main_repo_path: Option<Seq<char>>,
    pub error: Option<Seq<char>>,
    pub folder_id: Option<Seq<char>>,
    pub folder_name: Option<Seq<char>>,
}

impl View for HookRequest {
    type V = HookRequestView;

    open spec fn view(&self) -> HookRequestView {
        HookRequestView {
            kind: self.kind,
            project_hooks: self.project_hooks,
            global_hooks: self.global_hooks,
            project_id: self.project_id@,
            project_name: self.project_name@,
            project_path: self.project_path@,
            branch: opt_text(self.branch),
            target_branch: opt_text(self.target_branch),
            main_repo_path: opt_text(self.main_repo_path),
            error: opt_text(self.error),
            folder_id: opt_text(self.folder_id),
            folder_name: opt_text(self.folder_name),
        }
    }
}

impl Clone for HookRequest {
    fn clone(&self) -> (r: Self)
        ensures
            r == *self,
    {
        HookRequest {
            kind: self.kind,
            project_hooks: self.project_hooks.clone(),
            global_hooks: self.global_hooks.clone(),
            project_id: self.project_id.clone(),
            project_name: self.project_name.clone(),
            project_path: self.project_path.clone(),
            branch: copy_opt(&self.branch),
            target_branch: copy_opt(&self.target_branch),
            main_repo_path: copy_opt(&self.main_repo_path),
            error: copy_opt(&self.error),
            folder_id: copy_opt(&self.folder_id),
            folder_name: copy_opt(&self.folder_name),
        }
    }
}

/// What each request of `s` stands for.
pub open spec fn hook_views(s: Seq<HookRequest>) -> Seq<HookRequestView> {
    s.map_values(|h: HookRequest| h@)
}

/// A terminal that the host started for a hook.
#[derive(Debug)]
pub struct HookTerminalResult {
    pub project_id: String,
    pub terminal_id: String,
    pub label: String,
    pub hook_type: String,
    pub command: String,
    pub cwd: String,
}

/// What an action sees of its host and asks of it.
#[derive(Debug)]
pub struct WorkspaceCx {
    /// The time, in milliseconds.
    pub now: u64,
    /// Whether observers are to be told of a change.
    pub notified: bool,
    /// The hooks to run, in order.
    pub hooks: Vec<HookRequest>,
    /// The hook terminals whose runs are to be cancelled.
    pub cancelled: Vec<String>,
}

/// What a [`WorkspaceCx`] stands for.
pub struct CxView {
    pub now: u64,
    pub notified: bool,
    pub hooks: Seq<HookRequestView>,
    pub cancelled: Seq<Seq<char>>,
}

impl View for WorkspaceCx {
    type V = CxView;

    open spec fn view(&self) -> CxView {
        CxView {
            now: self.now,
            notified: self.notified,
            hooks: hook_views(self.hooks@),
            cancelled: texts(self.cancelled@),
        }
    }
}

/// `c` with a change announced.
pub open spec fn announced(c: CxView) -> CxView {
    CxView { notified: true, ..c }
}

/// `c` with one more hook to run.
pub open spec fn asked(c: CxView, h: HookRequestView) -> CxView {
    CxView { hooks: c.hooks.push(h), ..c }
}

impl WorkspaceCx {
    /// A host that has been asked nothing yet.
    pub fn new(now: u64) -> (r: Self)
        ensures
            r@ == (CxView { now, notified: false, hooks: Seq::empty(), cancelled: Seq::empty() }),
    {
        let r = WorkspaceCx { now, notified: false, hooks: Vec::new(), cancelled: Vec::new() };
        proof {
            assert(hook_views(r.hooks@) =~= Seq::<HookRequestView>::empty());
            assert(texts(r.cancelled@) =~= Seq::<Seq<char>>::empty());
        }
        r
    }

    /// Announce a change.
    pub fn notify(&mut self)
        ensures
            final(self)@ == announced(old(self)@),
    {
        self.notified = true;
    }

    /// Ask for a hook to be run.
    pub fn request_hook(&mut self, h: HookRequest)
        ensures
            final(self)@ == asked(old(self)@, h@),
    {
        let ghost before = self.hooks@;
        self.hooks.push(h);
        proof {
            assert(hook_views(self.hooks@) =~= hook_views(before).push(h@));
        }
    }
}

/// A terminal that has left the layout while its process lives on.
#[derive(Debug)]
pub struct PendingClose {
    pub terminal_id: String,
    pub project_id: String,
    pub toast_id: String,
    pub pre_close_layout: Option<LayoutNode>,
    pub post_close_layout: Option<LayoutNode>,
}

/// What a [`PendingClose`] stands for.
pub struct PendingView {
    pub terminal_id: Seq<char>,
    pub project_id: Seq<char>,
    pub toast_id: Seq<char>,
    pub pre_close_layout: Option<LayoutView>,
    pub post_close_layout: Option<LayoutView>,
}

impl View for PendingClose {
    type V = PendingView;

    open spec fn view(&self) -> PendingView {
        PendingView {
            terminal_id: self.terminal_id@,
            project_id: self.project_id@,
            toast_id: self.toast_id@,
            pre_close_layout: opt_node(self.pre_close_layout),
            post_close_layout: opt_node(self.post_close_layout),
        }
    }
}

/// What each pending close of `s` stands for.
pub open spec fn pending_views(s: Seq<PendingClose>) -> Seq<PendingView> {
    s.map_values(|p: PendingClose| p@)
}

/// A terminal that was brought back into the layout and may turn out dead.
#[derive(Debug)]
pub struct RestoredClose {
    pub terminal_id: String,
    pub project_id: String,
}

/// What a [`RestoredClose`] stands for.
pub struct RestoredView {
    pub terminal_id: Seq<char>,
    pub project_id: Seq<char>,
}

impl View for RestoredClose {
    type V = RestoredView;

    open spec fn view(&self) -> RestoredView {
        RestoredView { terminal_id: self.terminal_id@, project_id: self.project_id@ }
    }
}

/// What each restored close of `s` stands for.
pub open spec fn restored_views(s: Seq<RestoredClose>) -> Seq<RestoredView> {
    s.map_values(|p: RestoredClose| p@)
}

/// The project that a closing terminal belonged to, and its name there.
#[derive(Debug)]
pub struct ClosingTerminalOwner {
    pub project_id: String,
    pub terminal_name: Option<String>,
}

impl View for ClosingTerminalOwner {
    type V = (Seq<char>, Option<Seq<char>>);

    open spec fn view(&self) -> (Seq<char>, Option<Seq<char>>) {
        (self.project_id@, opt_text(self.terminal_name))
    }
}

/// A worktree whose removal waits for its hook terminal to finish.
#[derive(Debug)]
pub struct PendingWorktreeClose {
    pub project_id: String,
    pub hook_terminal_id: String,
    pub branch: String,
    pub main_repo_path: String,
    pub did_stash: bool,
    pub delete_branch: bool,
}

/// What a [`PendingWorktreeClose`] stands for.
pub struct PendingWorktreeView {
    pub project_id: Seq<char>,
    pub hook_terminal_id: Seq<char>,
    pub branch: Seq<char>,
    pub main_repo_path: Seq<char>,
    pub did_stash: bool,
    pub delete_branch: bool,
}

impl View for PendingWorktreeClose {
    type V = PendingWorktreeView;

    open spec fn view(&self) -> PendingWorktreeView {
        PendingWorktreeView {
            project_id: self.project_id@,
            hook_terminal_id: self.hook_terminal_id@,
            branch: self.branch@,
            main_repo_path: self.main_repo_path@,
            did_stash: self.did_stash,
            delete_branch: self.delete_branch,
        }
    }
}

/// What each pending worktree close of `s` stands for.
pub open spec fn pending_worktree_views(s: Seq<PendingWorktreeClose>) -> Seq<PendingWorktreeView> {
    s.map_values(|p: PendingWorktreeClose| p@)
}

/// The workspace.
#[derive(Debug)]
pub struct Workspace {
    pub data: WorkspaceData,
    pub data_version: u64,
    pub pending_closes: Vec<PendingClose>,
    pub restored_closes: Vec<RestoredClose>,
    pub closing_terminal_owners: IdMap<ClosingTerminalOwner>,
    pub pending_terminal_kills: Vec<String>,
    pub pending_worktree_closes: Vec<PendingWorktreeClose>,
    pub creating: IdSet,
    pub closing: IdSet,
    pub recent_projects: Vec<String>,
}

/// What a [`Workspace`] stands for.
pub struct WorkspaceView {
    pub data: DataView,
    pub data_version: u64,
    pub pending_closes: Seq<PendingView>,
    pub restored_closes: Seq<RestoredView>,
    pub owners: Seq<(Seq<char>, (Seq<char>, Option<Seq<char>>))>,
    pub kills: Seq<Seq<char>>,
    pub pending_worktree_closes: Seq<PendingWorktreeView>,
    pub creating: Set<Seq<char>>,
    pub closing: Set<Seq<char>>,
    pub recent_projects: Seq<Seq<char>>,
}

impl View for Workspace {
    type V = WorkspaceView;

    open spec fn view(&self) -> WorkspaceView {
        WorkspaceView {
            data: self.data@,
            data_version: self.data_version,
            pending_closes: pending_views(self.pending_closes@),
            restored_closes: restored_views(self.restored_closes@),
            owners: self.closing_terminal_owners@,
            kills: texts(self.pending_terminal_kills@),
            pending_worktree_closes: pending_worktree_views(self.pending_worktree_closes@),
            creating: self.creating@,
            closing: self.closing@,
            recent_projects: texts(self.recent_projects@),
        }
    }
}

/// The version after one more change.
pub open spec fn next_version(v: u64) -> u64 {
    if v < u64::MAX {
        (v + 1) as u64
    } else {
        v
    }
}

/// `w` with its data changed to `d` and the change counted.
pub open spec fn changed(w: WorkspaceView, d: DataView) -> WorkspaceView {
    WorkspaceView { data: d, data_version: next_version(w.data_version), ..w }
}

/// `w` with its data changed to `d`, the change not counted.
pub open spec fn with_data(w: WorkspaceView, d: DataView) -> WorkspaceView {
    WorkspaceView { data: d, ..w }
}

/// `d` with other projects.
pub open spec fn with_projects(d: DataView, ps: Seq<ProjectView>) -> DataView {
    DataView { projects: ps, ..d }
}

/// The project `id` of `w`.
pub open spec fn ws_project(w: WorkspaceView, id: Seq<char>) -> Option<ProjectView> {
    project_in(w.data.projects, id)
}

/// `w` with the project `id` replaced by `p`, the change not counted.
pub open spec fn ws_with_project(w: WorkspaceView, id: Seq<char>, p: ProjectView) -> WorkspaceView {
    with_data(w, with_projects(w.data, with_project(w.data.projects, id, p)))
}

/// The layout of the project `id`.
pub open spec fn ws_layout(w: WorkspaceView, id: Seq<char>) -> Option<LayoutView> {
    match ws_project(w, id) {
        Some(p) => p.layout,
        None => None,
    }
}

/// The children of the project `id`.
pub open spec fn child_ids(ps: Seq<ProjectView>, id: Seq<char>) -> Seq<Seq<char>> {
    match project_in(ps, id) {
        Some(p) => p.worktree_ids,
        None => Seq::empty(),
    }
}

/// `w` after the project `id` was used at `now`: it is the most recent one, it
/// carries the time, and the change is counted if the project is there.
pub open spec fn used(w: WorkspaceView, id: Seq<char>, now: u64) -> WorkspaceView {
    let touched = WorkspaceView { recent_projects: without(w.recent_projects, id).push(id), ..w };
    match ws_project(w, id) {
        Some(p) => changed(
            touched,
            ws_with_project(touched, id, ProjectView { last_activity_at: Some(now), ..p }).data,
        ),
        None => touched,
    }
}

/// The position of the first folder that holds the project `id`.
pub open spec fn folder_holding(fs: Seq<FolderView>, id: Seq<char>) -> Option<int>
    decreases fs.len(),
{
    if fs.len() == 0 {
        None
    } else {
        match folder_holding(fs.drop_last(), id) {
            Some(i) => Some(i),
            None => if fs.last().project_ids.contains(id) {
                Some(fs.len() - 1)
            } else {
                None
            },
        }
    }
}

/// The folder of the project `id`, or else of the project it is a worktree of.
pub open spec fn folder_of(d: DataView, id: Seq<char>) -> Option<FolderView> {
    match folder_holding(d.folders, id) {
        Some(i) => Some(d.folders[i]),
        None => match project_in(d.projects, id) {
            Some(p) => match p.worktree_info {
                Some(wt) => match folder_holding(d.folders, wt.parent_project_id) {
                    Some(i) => Some(d.folders[i]),
                    None => None,
                },
                None => None,
            },
            None => None,
        },
    }
}

/// The id of an optional folder.
pub open spec fn folder_id_of(f: Option<FolderView>) -> Option<Seq<char>> {
    match f {
        Some(x) => Some(x.id),
        None => None,
    }
}

/// The name of an optional folder.
pub open spec fn folder_name_of(f: Option<FolderView>) -> Option<Seq<char>> {
    match f {
        Some(x) => Some(x.name),
        None => None,
    }
}

/// The path of the project that `id` is a worktree of.
pub open spec fn parent_path(ps: Seq<ProjectView>, id: Seq<char>) -> Option<Seq<char>> {
    match project_in(ps, id) {
        Some(p) => match p.worktree_info {
            Some(wt) => match project_in(ps, wt.parent_project_id) {
                Some(parent) => Some(parent.path),
                None => None,
            },
            None => None,
        },
        None => None,
    }
}

proof fn folder_holding_extends(fs: Seq<FolderView>, id: Seq<char>, n: int)
    requires
        0 <= n <= fs.len(),
        folder_holding(fs.take(n), id) is Some,
    ensures
        folder_holding(fs, id) == folder_holding(fs.take(n), id),
    decreases fs.len() - n,
{
    if n < fs.len() {
        assert(fs.take(n + 1).drop_last() =~= fs.take(n));
        folder_holding_extends(fs, id, n + 1);
    } else {
        assert(fs.take(n) =~= fs);
    }
}

/// The position of the folder that holds the project `id`.
fn find_folder_holding(folders: &Vec<FolderData>, id: &str) -> (r: Option<usize>)
    ensures
        match r {
            Some(i) => folder_holding(folder_views(folders@), id@) == Some(i as int) && i
                < folders@.len(),
            None => folder_holding(folder_views(folders@), id@) is None,
        },
{
    let ghost fs = folder_views(folders@);
    let mut i: usize = 0;
    while i < folders.len()
        invariant
            i <= folders.len(),
            fs == folder_views(folders@),
            folder_holding(fs.take(i as int), id@) is None,
        decreases folders.len() - i,
    {
        proof {
            assert(fs.take(i + 1).drop_last() =~= fs.take(i as int));
            assert(fs.take(i + 1).last() == folders@[i as int]@);
        }
        if list_contains(&folders[i].project_ids, id) {
            proof {
                folder_holding_extends(fs, id@, i + 1);
            }
            return Some(i);
        }
        i = i + 1;
    }
    proof {
        assert(fs.take(i as int) =~= fs);
    }
    None
}

impl Workspace {
    /// A workspace in which nothing is pending.
    pub fn new(data: WorkspaceData) -> (r: Self)
        ensures
            r@ == fresh_workspace(data@),
    {
        let r = Workspace {
            data,
            data_version: 0,
            pending_closes: Vec::new(),
            restored_closes: Vec::new(),
            closing_terminal_owners: IdMap::new(),
            pending_terminal_kills: Vec::new(),
            pending_worktree_closes: Vec::new(),
            creating: IdSet::new(),
            closing: IdSet::new(),
            recent_projects: Vec::new(),
        };
        proof {
            assert(pending_views(r.pending_closes@) =~= Seq::<PendingView>::empty());
            assert(restored_views(r.restored_closes@) =~= Seq::<RestoredView>::empty());
            assert(pending_worktree_views(r.pending_worktree_closes@) =~= Seq::<
                PendingWorktreeView,
            >::empty());
            assert(texts(r.pending_terminal_kills@) =~= Seq::<Seq<char>>::empty());
            assert(texts(r.recent_projects@) =~= Seq::<Seq<char>>::empty());
        }
        r
    }

    /// The data.
    pub fn data(&self) -> (r: &WorkspaceData)
        ensures
            r@ == self@.data,
    {
        &self.data
    }

    /// The number of changes so far.
    pub fn data_version(&self) -> (r: u64)
        ensures
            r == self@.data_version,
    {
        self.data_version
    }

    /// Count a change of the data and announce it.
    pub fn notify_data(&mut self, cx: &mut WorkspaceCx)
        ensures
            final(self)@ == changed(old(self)@, old(self)@.data),
            final(self).data == old(self).data,
            final(cx)@ == announced(old(cx)@),
    {
        if self.data_version < u64::MAX {
            self.data_version = self.data_version + 1;
        }
        cx.notify();
    }

    /// The project `id`.
    pub fn project(&self, id: &str) -> (r: Option<&ProjectData>)
        ensures
            match r {
                Some(p) => ws_project(self@, id@) == Some(p@),
                None => ws_project(self@, id@) is None,
            },
    {
        match find_project(&self.data.projects, id) {
            Some(i) => Some(&self.data.projects[i]),
            None => None,
        }
    }

    /// The folder `id`.
    pub fn folder(&self, id: &str) -> (r: Option<&FolderData>)
        ensures
            match r {
                Some(f) => crate::state::folder_in(self@.data.folders, id@) == Some(f@),
                None => crate::state::folder_in(self@.data.folders, id@) is None,
            },
    {
        match find_folder(&self.data.folders, id) {
            Some(i) => Some(&self.data.folders[i]),
            None => None,
        }
    }

    /// The folder of the project `id`, or else of the project it is a worktree
    /// of.
    pub fn folder_for_project_or_parent(&self, id: &str) -> (r: Option<&FolderData>)
        ensures
            match r {
                Some(f) => folder_of(self@.data, id@) == Some(f@),
                None => folder_of(self@.data, id@) is None,
            },
    {
        match find_folder_holding(&self.data.folders, id) {
            Some(i) => Some(&self.data.folders[i]),
            None => match self.project(id) {
                Some(p) => match &p.worktree_info {
                    Some(wt) => match find_folder_holding(
                        &self.data.folders,
                        wt.parent_project_id.as_str(),
                    ) {
                        Some(i) => Some(&self.data.folders[i]),
                        None => None,
                    },
                    None => None,
                },
                None => None,
            },
        }
    }

    /// The path of the project that `id` is a worktree of.
    pub fn worktree_parent_path(&self, id: &str) -> (r: Option<String>)
        ensures
            opt_text(r) == parent_path(self@.data.projects, id@),
    {
        match self.project(id) {
            Some(p) => match &p.worktree_info {
                Some(wt) => match self.project(wt.parent_project_id.as_str()) {
                    Some(parent) => Some(parent.path.clone()),
                    None => None,
                },
                None => None,
            },
            None => None,
        }
    }

    /// The children of the project `id`.
    pub fn worktree_child_ids(&self, id: &str) -> (r: Vec<String>)
        ensures
            texts(r@) == child_ids(self@.data.projects, id@),
    {
        match self.project(id) {
            Some(p) => copy_all(&p.worktree_ids),
            None => {
                let r: Vec<String> = Vec::new();
                proof {
                    assert(texts(r@) =~= Seq::<Seq<char>>::empty());
                }
                r
            },
        }
    }

    /// Make the project `id` the most recently used one.
    pub fn touch_project(&mut self, id: &str)
        ensures
            final(self)@ == (WorkspaceView {
                recent_projects: without(old(self)@.recent_projects, id@).push(id@),
                ..old(self)@
            }),
    {
        list_remove(&mut self.recent_projects, id);
        let ghost before = self.recent_projects@;
        self.recent_projects.push(id.to_owned());
        proof {
            assert(texts(self.recent_projects@) =~= texts(before).push(id@));
        }
    }

    /// Note that the project `id` is in use.
    pub fn mark_used(&mut self, id: &str, cx: &mut WorkspaceCx)
        ensures
            final(self)@ == used(old(self)@, id@, old(cx)@.now),
            final(cx)@ == if ws_project(old(self)@, id@) is Some {
                announced(old(cx)@)
            } else {
                old(cx)@
            },
    {
        self.touch_project(id);
        match find_project(&self.data.projects, id) {
            Some(i) => {
                let ghost before = self.data.projects@;
                let now = cx.now;
                self.data.projects[i].last_activity_at = Some(now);
                proof {
                    project_views_update(before, i as int, self.data.projects@[i as int]);
                    assert(self.data.projects@ =~= before.update(
                        i as int,
                        self.data.projects@[i as int],
                    ));
                }
                self.notify_data(cx);
            },
            None => {},
        }
    }

    /// Queue terminals whose processes are to be ended.
    pub fn queue_terminal_kills(&mut self, ids: &Vec<String>)
        ensures
            final(self)@ == (WorkspaceView {
                kills: old(self)@.kills + texts(ids@),
                ..old(self)@
            }),
    {
        list_extend(&mut self.pending_terminal_kills, ids);
    }

    /// Take the queue of terminals whose processes are to be ended.
    pub fn drain_pending_terminal_kills(&mut self) -> (r: Vec<String>)
        ensures
            texts(r@) == old(self)@.kills,
            final(self)@ == (WorkspaceView { kills: Seq::empty(), ..old(self)@ }),
    {
        let mut out: Vec<String> = Vec::new();
        proof {
            assert(texts(out@) =~= Seq::<Seq<char>>::empty());
        }
        std::mem::swap(&mut out, &mut self.pending_terminal_kills);
        out
    }

    /// Change what the window `id` shows, count the change and announce it.
    pub fn edit_window(&mut self, id: WindowId, edit: &WindowEdit, cx: &mut WorkspaceCx)
        ensures
            final(self)@ == changed(
                old(self)@,
                edited_one_window(old(self)@.data, id, edit@),
            ),
            final(cx)@ == announced(old(cx)@),
    {
        self.data.edit_window(id, edit);
        self.notify_data(cx);
    }
}

/// A workspace with the data `d` in which nothing is pending.
pub open spec fn fresh_workspace(d: DataView) -> WorkspaceView {
    WorkspaceView {
        data: d,
        data_version: 0,
        pending_closes: Seq::empty(),
        restored_closes: Seq::empty(),
        owners: Seq::empty(),
        kills: Seq::empty(),
        pending_worktree_closes: Seq::empty(),
        creating: Set::empty(),
        closing: Set::empty(),
        recent_projects: Seq::empty(),
    }
}

} // verus!
