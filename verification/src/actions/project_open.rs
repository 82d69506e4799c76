//! Opening projects: their hooks, their terminals, their names and colors.

use crate::collections::{IdMap, keys_of, sifted_keys, stored};
use crate::focus::{FocusManager, FocusView, focus_on};
use crate::layout::{
    LayoutNode, LayoutView, SplitDirection, command_terminal, fresh_terminal, slot_path,
};
use crate::layout_terminals::{beside, halves, opt_pruned};
use crate::state::{
    DataView, FolderColor, HookTerminalEntry, HookTerminalStatus, HookTerminalView, HooksConfig,
    ProjectData, ProjectView, WorktreeView, find_project, project_in, project_views_update,
    with_project,
};
use crate::text::texts;
use crate::workspace::{
    CxView, HookKind, HookRequest, HookRequestView, HookTerminalResult, Workspace, WorkspaceCx,
    WorkspaceView, announced, asked, changed, folder_id_of, folder_name_of, folder_of, used,
    with_data, with_projects, ws_layout, ws_project, ws_with_project,
};
use vstd::prelude::*;

verus! {

/// The project `p` without its hook terminals.
pub open spec fn without_hook_terminals(p: ProjectView) -> ProjectView {
    let gone = keys_of(p.hook_terminals);
    ProjectView {
        layout: opt_pruned(p.layout, gone),
        hook_terminals: Seq::empty(),
        terminal_names: sifted_keys(p.terminal_names, gone, false),
        ..p
    }
}

/// Whether the project `id` has hook terminals.
pub open spec fn has_hook_terminals(w: WorkspaceView, id: Seq<char>) -> bool {
    match ws_project(w, id) {
        Some(p) => p.hook_terminals.len() > 0,
        None => false,
    }
}

/// `w` without the hook terminals of the project `id`.
pub open spec fn hook_terminals_cleared(w: WorkspaceView, id: Seq<char>) -> WorkspaceView {
    if has_hook_terminals(w, id) {
        changed(w, ws_with_project(w, id, without_hook_terminals(ws_project(w, id)->0)).data)
    } else {
        w
    }
}

/// The hook of the project `p` at a point of its life.
pub open spec fn project_hook(
    kind: HookKind,
    p: ProjectView,
    global: HooksConfig,
    d: DataView,
) -> HookRequestView {
    HookRequestView {
        kind,
        project_hooks: p.hooks,
        global_hooks: global,
        project_id: p.id,
        project_name: p.name,
        project_path: p.path,
        branch: None,
        target_branch: None,
        main_repo_path: None,
        error: None,
        folder_id: folder_id_of(folder_of(d, p.id)),
        folder_name: folder_name_of(folder_of(d, p.id)),
    }
}

/// What the host is asked when the project `id` opens.
pub open spec fn open_asked(
    w: WorkspaceView,
    c: CxView,
    id: Seq<char>,
    global: HooksConfig,
) -> CxView {
    match ws_project(w, id) {
        Some(p) => asked(
            if p.hook_terminals.len() > 0 {
                announced(c)
            } else {
                c
            },
            project_hook(HookKind::ProjectOpen, p, global, w.data),
        ),
        None => c,
    }
}

/// What a [`HookTerminalResult`] stands for.
pub struct HookResultView {
    pub project_id: Seq<char>,
    pub terminal_id: Seq<char>,
    pub label: Seq<char>,
    pub hook_type: Seq<char>,
    pub command: Seq<char>,
    pub cwd: Seq<char>,
}

impl View for HookTerminalResult {
    type V = HookResultView;

    open spec fn view(&self) -> HookResultView {
        HookResultView {
            project_id: self.project_id@,
            terminal_id: self.terminal_id@,
            label: self.label@,
            hook_type: self.hook_type@,
            command: self.command@,
            cwd: self.cwd@,
        }
    }
}

/// What each result of `s` stands for.
pub open spec fn hook_result_views(s: Seq<HookTerminalResult>) -> Seq<HookResultView> {
    s.map_values(|r: HookTerminalResult| r@)
}

/// The entry of a hook terminal that has just started.
pub open spec fn running_entry(r: HookResultView) -> HookTerminalView {
    HookTerminalView {
        label: r.label,
        status: HookTerminalStatus::Running,
        hook_type: r.hook_type,
        command: r.command,
        cwd: r.cwd,
        finished_at: None,
    }
}

/// `ps` with the hook terminal of `r` noted in its project.
pub open spec fn result_noted(ps: Seq<ProjectView>, r: HookResultView) -> Seq<ProjectView> {
    match project_in(ps, r.project_id) {
        Some(p) => with_project(
            ps,
            r.project_id,
            ProjectView {
                hook_terminals: stored(p.hook_terminals, r.terminal_id, running_entry(r)),
                ..p
            },
        ),
        None => ps,
    }
}

/// `ps` with the hook terminals of the first `n` of `rs` noted.
pub open spec fn results_noted(
    ps: Seq<ProjectView>,
    rs: Seq<HookResultView>,
    n: nat,
) -> Seq<ProjectView>
    decreases n,
{
    if n == 0 || n > rs.len() {
        ps
    } else {
        result_noted(results_noted(ps, rs, (n - 1) as nat), rs[n - 1])
    }
}

/// A layout with one more pane: beside all that there is.
pub open spec fn with_pane(l: Option<LayoutView>, node: LayoutView) -> LayoutView {
    match l {
        Some(root) => halves(SplitDirection::Vertical, root, node),
        None => node,
    }
}

/// `w` with one more pane in the project `id`.
pub open spec fn pane_added(w: WorkspaceView, id: Seq<char>, node: LayoutView) -> WorkspaceView {
    match ws_project(w, id) {
        Some(p) => changed(
            w,
            ws_with_project(w, id, ProjectView { layout: Some(with_pane(p.layout, node)), ..p }).data,
        ),
        None => w,
    }
}

/// The path to the first empty terminal slot of the project `id`.
pub open spec fn empty_slot(w: WorkspaceView, id: Seq<char>) -> Option<Seq<usize>> {
    match ws_layout(w, id) {
        Some(l) => slot_path(l, None),
        None => None,
    }
}

/// `w` with one more terminal in the project `id`, which is used at `now`.
pub open spec fn terminal_added(w: WorkspaceView, id: Seq<char>, now: u64) -> WorkspaceView {
    let v = pane_added(w, id, fresh_terminal());
    if empty_slot(v, id) is Some {
        used(v, id, now)
    } else {
        v
    }
}

/// The focus once the project `id` has one more terminal: on its first empty
/// slot.
pub open spec fn focus_on_new(w: WorkspaceView, f: FocusView, id: Seq<char>) -> FocusView {
    match empty_slot(pane_added(w, id, fresh_terminal()), id) {
        Some(path) => focus_on(f, id, path),
        None => f,
    }
}

/// `w` with the project `id` called `name`.
pub open spec fn project_renamed(w: WorkspaceView, id: Seq<char>, name: Seq<char>) -> WorkspaceView {
    match ws_project(w, id) {
        Some(p) => changed(w, ws_with_project(w, id, ProjectView { name, ..p }).data),
        None => w,
    }
}

/// The project `p` in another color, unless it has a color of its own.
pub open spec fn inheriting(p: ProjectView, color: FolderColor) -> ProjectView {
    if p.worktree_info is Some && p.worktree_info->0.color_override is Some {
        p
    } else {
        ProjectView { folder_color: color, ..p }
    }
}

/// `ps` with the first `n` of `ids` in another color.
pub open spec fn recolored(
    ps: Seq<ProjectView>,
    ids: Seq<Seq<char>>,
    color: FolderColor,
    n: nat,
) -> Seq<ProjectView>
    decreases n,
{
    if n == 0 || n > ids.len() {
        ps
    } else {
        let front = recolored(ps, ids, color, (n - 1) as nat);
        match project_in(front, ids[n - 1]) {
            Some(p) => with_project(front, ids[n - 1], inheriting(p, color)),
            None => front,
        }
    }
}

/// `w` with a color of its own for the worktree `id`.
pub open spec fn color_overridden(
    w: WorkspaceView,
    id: Seq<char>,
    color: Option<FolderColor>,
) -> WorkspaceView {
    match ws_project(w, id) {
        Some(p) => match p.worktree_info {
            Some(wt) => changed(
                w,
                ws_with_project(
                    w,
                    id,
                    ProjectView {
                        worktree_info: Some(WorktreeView { color_override: color, ..wt }),
                        ..p
                    },
                ).data,
            ),
            None => w,
        },
        None => w,
    }
}

/// `w` with another color for the project `id`: a worktree gets one of its own,
/// another project hands it on to its worktrees.
pub open spec fn colored(w: WorkspaceView, id: Seq<char>, color: FolderColor) -> WorkspaceView {
    match ws_project(w, id) {
        Some(p) => if p.worktree_info is Some {
            color_overridden(w, id, Some(color))
        } else {
            let own = with_project(
                w.data.projects,
                id,
                ProjectView { folder_color: color, ..p },
            );
            changed(
                w,
                with_projects(
                    w.data,
                    recolored(own, p.worktree_ids, color, p.worktree_ids.len()),
                ),
            )
        },
        None => w,
    }
}

/// Take the hook terminals out of the project `p`, and return them.
fn clear_hook_terminals(p: &mut ProjectData) -> (r: Vec<String>)
    ensures
        texts(r@) == keys_of(old(p)@.hook_terminals),
        final(p)@ == without_hook_terminals(old(p)@),
{
    let gone = p.hook_terminals.keys();
    LayoutNode::remove_terminal_ids(&mut p.layout, &gone);
    p.hook_terminals = IdMap::new();
    p.terminal_names.sift(&gone, false);
    gone
}

/// Put one more pane beside all that the project has.
fn add_pane(p: &mut ProjectData, node: LayoutNode)
    ensures
        final(p)@ == (ProjectView { layout: Some(with_pane(old(p)@.layout, node@)), ..old(p)@ }),
{
    let root = p.layout.take();
    p.layout = match root {
        Some(l) => Some(beside(SplitDirection::Vertical, l, node)),
        None => Some(node),
    };
}

/// Give the project another color, unless it has one of its own.
fn inherit(p: &mut ProjectData, color: FolderColor)
    ensures
        final(p)@ == inheriting(old(p)@, color),
{
    let own = match &p.worktree_info {
        Some(wt) => wt.color_override.is_some(),
        None => false,
    };
    if !own {
        p.folder_color = color;
    }
}

/// Give the worktree a color of its own.
fn override_color(p: &mut ProjectData, color: Option<FolderColor>)
    ensures
        final(p)@ == (match old(p)@.worktree_info {
            Some(wt) => ProjectView {
                worktree_info: Some(WorktreeView { color_override: color, ..wt }),
                ..old(p)@
            },
            None => old(p)@,
        }),
{
    if let Some(wt) = &mut p.worktree_info {
        wt.color_override = color;
    }
}

/// Note a hook terminal that has started in its project.
fn note_result(p: &mut ProjectData, r: &HookTerminalResult)
    ensures
        final(p)@ == (ProjectView {
            hook_terminals: stored(
                old(p)@.hook_terminals,
                r@.terminal_id,
                running_entry(r@),
            ),
            ..old(p)@
        }),
{
    p.hook_terminals.insert(
        r.terminal_id.clone(),
        HookTerminalEntry {
            label: r.label.clone(),
            status: HookTerminalStatus::Running,
            hook_type: r.hook_type.clone(),
            command: r.command.clone(),
            cwd: r.cwd.clone(),
            finished_at: None,
        },
    );
}

impl Workspace {
    /// The hook of a project at a point of its life.
    pub fn project_hook(&self, kind: HookKind, p: &ProjectData, global_hooks: &HooksConfig) -> (r:
        HookRequest)
        ensures
            r@ == project_hook(kind, p@, *global_hooks, self@.data),
    {
        let (folder_id, folder_name): (Option<String>, Option<String>) =
            match self.folder_for_project_or_parent(p.id.as_str()) {
            Some(f) => (Some(f.id.clone()), Some(f.name.clone())),
            None => (None, None),
        };
        HookRequest {
            kind,
            project_hooks: p.hooks.clone(),
            global_hooks: global_hooks.clone(),
            project_id: p.id.clone(),
            project_name: p.name.clone(),
            project_path: p.path.clone(),
            branch: None,
            target_branch: None,
            main_repo_path: None,
            error: None,
            folder_id,
            folder_name,
        }
    }

    /// Drop hook terminals that no process stands behind any more, and return
    /// them.
    pub fn clear_stale_hook_terminals(&mut self, project_id: &str, cx: &mut WorkspaceCx) -> (r: Vec<
        String,
    >)
        ensures
            texts(r@) == match ws_project(old(self)@, project_id@) {
                Some(p) => keys_of(p.hook_terminals),
                None => Seq::empty(),
            },
            final(self)@ == hook_terminals_cleared(old(self)@, project_id@),
            final(cx)@ == if has_hook_terminals(old(self)@, project_id@) {
                announced(old(cx)@)
            } else {
                old(cx)@
            },
    {
        match find_project(&self.data.projects, project_id) {
            Some(i) => {
                if self.data.projects[i].hook_terminals.is_empty() {
                    let r: Vec<String> = Vec::new();
                    proof {
                        assert(texts(r@) =~= keys_of(
                            ws_project(self@, project_id@)->0.hook_terminals,
                        ));
                    }
                    return r;
                }
                let ghost before = self.data.projects@;
                let gone = clear_hook_terminals(&mut self.data.projects[i]);
                proof {
                    let new = self.data.projects@[i as int];
                    assert(self.data.projects@ =~= before.update(i as int, new));
                    project_views_update(before, i as int, new);
                }
                self.notify_data(cx);
                gone
            },
            None => {
                let r: Vec<String> = Vec::new();
                proof {
                    assert(texts(r@) =~= Seq::<Seq<char>>::empty());
                }
                r
            },
        }
    }

    /// Open a project: drop its stale hook terminals and ask for its open hook.
    pub fn fire_project_open_hooks(
        &mut self,
        project_id: &str,
        global_hooks: &HooksConfig,
        cx: &mut WorkspaceCx,
    )
        ensures
            final(self)@ == hook_terminals_cleared(old(self)@, project_id@),
            final(cx)@ == open_asked(old(self)@, old(cx)@, project_id@, *global_hooks),
    {
        let hook = match find_project(&self.data.projects, project_id) {
            Some(i) => self.project_hook(
                HookKind::ProjectOpen,
                &self.data.projects[i],
                global_hooks,
            ),
            None => {
                return ;
            },
        };
        self.clear_stale_hook_terminals(project_id, cx);
        cx.request_hook(hook);
    }

    /// Note the hook terminals that the host has started.
    pub fn register_hook_results(&mut self, results: &Vec<HookTerminalResult>, cx: &mut WorkspaceCx)
        ensures
            final(self)@ == if results@.len() == 0 {
                old(self)@
            } else {
                changed(
                    old(self)@,
                    with_projects(
                        old(self)@.data,
                        results_noted(
                            old(self)@.data.projects,
                            hook_result_views(results@),
                            results@.len(),
                        ),
                    ),
                )
            },
            final(cx)@ == if results@.len() == 0 {
                old(cx)@
            } else {
                announced(old(cx)@)
            },
    {
        if results.len() == 0 {
            return ;
        }
        let ghost start = self@;
        let ghost rs = hook_result_views(results@);
        let mut i: usize = 0;
        while i < results.len()
            invariant
                i <= results@.len(),
                rs == hook_result_views(results@),
                self@ == with_data(
                    start,
                    with_projects(
                        start.data,
                        results_noted(start.data.projects, rs, i as nat),
                    ),
                ),
            decreases results@.len() - i,
        {
            proof {
                assert(rs[i as int] == results@[i as int]@);
            }
            if let Some(k) = find_project(&self.data.projects, results[i].project_id.as_str()) {
                let ghost before = self.data.projects@;
                note_result(&mut self.data.projects[k], &results[i]);
                proof {
                    let new = self.data.projects@[k as int];
                    assert(self.data.projects@ =~= before.update(k as int, new));
                    project_views_update(before, k as int, new);
                }
            }
            i = i + 1;
        }
        self.notify_data(cx);
    }

    /// Put one more pane into a project.
    fn push_pane(&mut self, project_id: &str, node: LayoutNode, cx: &mut WorkspaceCx)
        ensures
            final(self)@ == pane_added(old(self)@, project_id@, node@),
            final(cx)@ == if ws_project(old(self)@, project_id@) is Some {
                announced(old(cx)@)
            } else {
                old(cx)@
            },
    {
        if let Some(i) = find_project(&self.data.projects, project_id) {
            let ghost before = self.data.projects@;
            add_pane(&mut self.data.projects[i], node);
            proof {
                let new = self.data.projects@[i as int];
                assert(self.data.projects@ =~= before.update(i as int, new));
                project_views_update(before, i as int, new);
            }
            self.notify_data(cx);
        }
    }

    /// Add a terminal to a project, beside all that it has, and focus the first
    /// empty slot.
    pub fn add_terminal(
        &mut self,
        focus_manager: &mut FocusManager,
        project_id: &str,
        cx: &mut WorkspaceCx,
    )
        ensures
            ({
                let w = pane_added(old(self)@, project_id@, fresh_terminal());
                &&& final(self)@ == terminal_added(old(self)@, project_id@, old(cx)@.now)
                &&& final(focus_manager)@ == focus_on_new(
                    old(self)@,
                    old(focus_manager)@,
                    project_id@,
                )
                &&& final(cx)@ == if empty_slot(w, project_id@) is Some || ws_project(
                    old(self)@,
                    project_id@,
                ) is Some {
                    announced(old(cx)@)
                } else {
                    old(cx)@
                }
            }),
    {
        self.push_pane(project_id, LayoutNode::new_terminal(), cx);
        let path: Option<Vec<usize>> = match self.project(project_id) {
            Some(p) => match &p.layout {
                Some(l) => l.find_uninitialized_terminal_path(),
                None => None,
            },
            None => None,
        };
        if let Some(p) = path {
            self.set_focused_terminal(focus_manager, project_id.to_owned(), p, cx);
        }
    }

    /// Add a terminal that runs a command to a project, beside all that it has.
    pub fn add_terminal_with_command(
        &mut self,
        project_id: &str,
        command: &str,
        env_vars: &IdMap<String>,
        cx: &mut WorkspaceCx,
    )
        ensures
            final(self)@ == pane_added(
                old(self)@,
                project_id@,
                command_terminal(command@, env_vars@),
            ),
            final(cx)@ == if ws_project(old(self)@, project_id@) is Some {
                announced(old(cx)@)
            } else {
                old(cx)@
            },
    {
        self.push_pane(project_id, LayoutNode::new_terminal_with_command(command, env_vars), cx);
    }

    /// Rename a project.
    pub fn rename_project(&mut self, project_id: &str, new_name: String, cx: &mut WorkspaceCx)
        ensures
            match ws_project(old(self)@, project_id@) {
                Some(_) => {
                    &&& final(self)@ == project_renamed(old(self)@, project_id@, new_name@)
                    &&& final(cx)@ == announced(old(cx)@)
                },
                None => final(self)@ == old(self)@ && final(cx)@ == old(cx)@,
            },
    {
        if let Some(i) = find_project(&self.data.projects, project_id) {
            let ghost before = self.data.projects@;
            self.data.projects[i].name = new_name;
            proof {
                let new = self.data.projects@[i as int];
                assert(self.data.projects@ =~= before.update(i as int, new));
                project_views_update(before, i as int, new);
            }
            self.notify_data(cx);
        }
    }

    /// Give a worktree a color of its own, or none.
    pub fn set_worktree_color_override(
        &mut self,
        project_id: &str,
        color: Option<FolderColor>,
        cx: &mut WorkspaceCx,
    )
        ensures
            final(self)@ == color_overridden(old(self)@, project_id@, color),
            final(cx)@ == if ws_project(old(self)@, project_id@) is Some && ws_project(
                old(self)@,
                project_id@,
            )->0.worktree_info is Some {
                announced(old(cx)@)
            } else {
                old(cx)@
            },
    {
        if let Some(i) = find_project(&self.data.projects, project_id) {
            if self.data.projects[i].worktree_info.is_some() {
                let ghost before = self.data.projects@;
                override_color(&mut self.data.projects[i], color);
                proof {
                    let new = self.data.projects@[i as int];
                    assert(self.data.projects@ =~= before.update(i as int, new));
                    project_views_update(before, i as int, new);
                }
                self.notify_data(cx);
            }
        }
    }

    /// Give a project another color; its worktrees without one of their own
    /// take it over.
    pub fn set_folder_color(&mut self, project_id: &str, color: FolderColor, cx: &mut WorkspaceCx)
        ensures
            final(self)@ == colored(old(self)@, project_id@, color),
            final(cx)@ == if ws_project(old(self)@, project_id@) is Some {
                announced(old(cx)@)
            } else {
                old(cx)@
            },
    {
        let i: usize = match find_project(&self.data.projects, project_id) {
            Some(i) => i,
            None => {
                return ;
            },
        };
        if self.data.projects[i].worktree_info.is_some() {
            self.set_worktree_color_override(project_id, Some(color), cx);
            return ;
        }
        let children = self.worktree_child_ids(project_id);
        let ghost start = self@;
        let ghost before = self.data.projects@;
        self.data.projects[i].folder_color = color;
        proof {
            let new = self.data.projects@[i as int];
            assert(self.data.projects@ =~= before.update(i as int, new));
            project_views_update(before, i as int, new);
        }
        let ghost own = self@.data.projects;
        let ghost ids = texts(children@);
        let mut k: usize = 0;
        while k < children.len()
            invariant
                k <= children@.len(),
                ids == texts(children@),
                self@ == with_data(
                    start,
                    with_projects(start.data, recolored(own, ids, color, k as nat)),
                ),
            decreases children@.len() - k,
        {
            proof {
                assert(ids[k as int] == children@[k as int]@);
            }
            if let Some(c) = find_project(&self.data.projects, children[k].as_str()) {
                let ghost held = self.data.projects@;
                inherit(&mut self.data.projects[c], color);
                proof {
                    let new = self.data.projects@[c as int];
                    assert(self.data.projects@ =~= held.update(c as int, new));
                    project_views_update(held, c as int, new);
                }
            }
            k = k + 1;
        }
        proof {
            assert(ids.len() == children@.len());
        }
        self.notify_data(cx);
    }
}

} // verus!
