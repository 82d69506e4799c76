//! Registering, discovering and ordering worktree projects.

use crate::actions::project_open::project_hook;
use crate::claims::{PathFacts, PathFactsView, claim_refusal, coinciding, target_refusal};
use crate::collections::{list_contains, list_position, list_remove, position, without};
use crate::layout::{LayoutNode, LayoutView, fresh_terminal};
use crate::layout_terminals::structure_of;
use crate::outside::{fresh_id, random_id};
use crate::paths::{below, parts, parts_of, path_below, start_of, start_parts};
use crate::rows::{folders_without, scrub_folders};
use crate::state::{
    DataView, HooksConfig, ProjectData, ProjectView, WindowId, WorktreeMetadata, WorktreeView,
    find_project, new_project_row, new_row, project_in, project_views, project_views_update,
    with_project,
};
use crate::text::{join, join3, opt_text, refusal_of, same, texts};
use crate::windows::hidden_elsewhere;
use crate::workspace::{
    HookKind, HookRequestView, Workspace, WorkspaceCx, WorkspaceView, announced, asked, changed,
    parent_path, with_data, ws_project, ws_with_project,
};
use vstd::prelude::*;

verus! {

/// Whether a project is at `a` or at `b`.
pub open spec fn taken_path(
    ps: Seq<ProjectView>,
    f: PathFactsView,
    a: Seq<char>,
    b: Seq<char>,
) -> bool {
    exists|i: int|
        0 <= i < ps.len() && (coinciding(f, (#[trigger] ps[i]).path, a) || coinciding(
            f,
            ps[i].path,
            b,
        ))
}

/// Why no worktree may be put there.
pub open spec fn place_refusal(
    w: WorkspaceView,
    f: PathFactsView,
    branch: Seq<char>,
    worktree_path: Seq<char>,
    project_path: Seq<char>,
) -> Option<Seq<char>> {
    match target_refusal(w, f, worktree_path) {
        Some(e) => Some(e),
        None => match claim_refusal(w, f, project_path) {
            Some(e) => Some(e),
            None => if taken_path(w.data.projects, f, project_path, worktree_path) {
                Some("A worktree for '"@ + branch + "' already exists"@)
            } else {
                None
            },
        },
    }
}

/// Why a worktree may not be registered.
pub open spec fn registration_refusal(
    w: WorkspaceView,
    f: PathFactsView,
    parent: Seq<char>,
    branch: Seq<char>,
    worktree_path: Seq<char>,
    project_path: Seq<char>,
) -> Option<Seq<char>> {
    match place_refusal(w, f, branch, worktree_path, project_path) {
        Some(e) => Some(e),
        None => if ws_project(w, parent) is None {
            Some("Parent project not found"@)
        } else {
            None
        },
    }
}

/// The layout that a worktree starts with: the shape of its parent's, or one
/// terminal.
pub open spec fn seeded_layout(parent: Option<LayoutView>) -> LayoutView {
    match parent {
        Some(l) => structure_of(l),
        None => fresh_terminal(),
    }
}

/// Where a checkout comes from.
pub open spec fn metadata(
    parent: Seq<char>,
    repo: Seq<char>,
    worktree_path: Seq<char>,
    branch: Seq<char>,
) -> WorktreeView {
    WorktreeView {
        parent_project_id: parent,
        color_override: None,
        main_repo_path: repo,
        worktree_path,
        branch_name: branch,
    }
}

/// The row of a worktree of `parent`. Until its directory is there it has no
/// layout.
pub open spec fn worktree_row(
    parent: ProjectView,
    id: Seq<char>,
    branch: Seq<char>,
    repo: Seq<char>,
    worktree_path: Seq<char>,
    project_path: Seq<char>,
    there: bool,
) -> ProjectView {
    ProjectView {
        worktree_info: Some(metadata(parent.id, repo, worktree_path, branch)),
        folder_color: parent.folder_color,
        hooks: parent.hooks,
        ..new_row(
            id,
            branch,
            project_path,
            if there {
                Some(seeded_layout(parent.layout))
            } else {
                None
            },
            None,
        )
    }
}

/// `ps` with `child` as one more worktree of the project `parent`.
pub open spec fn child_added(
    ps: Seq<ProjectView>,
    parent: Seq<char>,
    child: Seq<char>,
) -> Seq<ProjectView> {
    match project_in(ps, parent) {
        Some(p) => with_project(
            ps,
            parent,
            ProjectView { worktree_ids: p.worktree_ids.push(child), ..p },
        ),
        None => ps,
    }
}

/// `d` with one more worktree of the project `parent`, shown in one window
/// only.
pub open spec fn worktree_added(
    d: DataView,
    parent: Seq<char>,
    row: ProjectView,
    window: WindowId,
) -> DataView {
    hidden_elsewhere(
        DataView { projects: child_added(d.projects.push(row), parent, row.id), ..d },
        row.id,
        window,
    )
}

/// The hook that runs when the checkout of `p` is there.
pub open spec fn create_hook(
    p: ProjectView,
    branch: Seq<char>,
    global: HooksConfig,
    d: DataView,
) -> HookRequestView {
    HookRequestView {
        branch: Some(branch),
        ..project_hook(HookKind::WorktreeCreate, p, global, d)
    }
}

/// `w` once the checkout of the project `id` is there: it has a layout.
pub open spec fn checkout_arrived(w: WorkspaceView, id: Seq<char>) -> WorkspaceView {
    match ws_project(w, id) {
        Some(p) => if p.layout is Some {
            w
        } else {
            ws_with_project(
                w,
                id,
                ProjectView {
                    layout: Some(
                        seeded_layout(
                            match p.worktree_info {
                                Some(wt) => match ws_project(w, wt.parent_project_id) {
                                    Some(parent) => parent.layout,
                                    None => None,
                                },
                                None => None,
                            },
                        ),
                    ),
                    ..p
                },
            )
        },
        None => w,
    }
}

/// The directory of a project that lies at `subdir` of its checkout.
pub open spec fn in_checkout(
    windows: bool,
    worktree_path: Seq<char>,
    subdir: Seq<char>,
) -> Seq<char> {
    if subdir.len() == 0 {
        worktree_path
    } else {
        below(windows, worktree_path, subdir)
    }
}

/// The name of the directory `path`.
pub open spec fn checkout_name(windows: bool, path: Seq<char>) -> Seq<char> {
    let ps = parts(windows, path);
    if ps.len() > start_parts(windows, path).len() && ps.last() != "."@ && ps.last() != ".."@ {
        ps.last()
    } else {
        "worktree"@
    }
}

/// The row of a worktree that was found on disk.
pub open spec fn discovered_row(
    windows: bool,
    id: Seq<char>,
    parent: Seq<char>,
    branch: Seq<char>,
    git_root: Seq<char>,
    worktree_path: Seq<char>,
    project_path: Seq<char>,
) -> ProjectView {
    ProjectView {
        worktree_info: Some(metadata(parent, git_root, worktree_path, branch)),
        ..new_row(
            id,
            checkout_name(windows, worktree_path) + " ("@ + branch + ")"@,
            project_path,
            Some(fresh_terminal()),
            None,
        )
    }
}

/// `order` with `id` behind `parent`, or last.
pub open spec fn listed_behind(
    order: Seq<Seq<char>>,
    parent: Seq<char>,
    id: Seq<char>,
) -> Seq<Seq<char>> {
    match position(order, parent) {
        Some(i) => order.insert(i + 1, id),
        None => order.push(id),
    }
}

/// `d` with the worktree that was found on disk.
pub open spec fn discovered_added(
    d: DataView,
    parent: Seq<char>,
    row: ProjectView,
    window: WindowId,
) -> DataView {
    let hidden = hidden_elsewhere(d, row.id, window);
    DataView {
        projects: hidden.projects.push(row),
        project_order: listed_behind(hidden.project_order, parent, row.id),
        ..hidden
    }
}

/// Why a worktree that was found on disk is not added.
pub open spec fn discovery_refusal(
    w: WorkspaceView,
    f: PathFactsView,
    parent: Seq<char>,
    branch: Seq<char>,
    worktree_path: Seq<char>,
    subdir: Seq<char>,
) -> Option<Seq<char>> {
    if ws_project(w, parent) is None {
        Some("Parent project not found"@)
    } else {
        place_refusal(w, f, branch, worktree_path, in_checkout(f.windows, worktree_path, subdir))
    }
}

/// `d` with `worktree` below `parent`, and nowhere else.
pub open spec fn adopted(d: DataView, parent: Seq<char>, worktree: Seq<char>) -> DataView {
    let ps = match project_in(d.projects, parent) {
        Some(p) => if p.worktree_ids.contains(worktree) {
            d.projects
        } else {
            child_added(d.projects, parent, worktree)
        },
        None => d.projects,
    };
    DataView {
        projects: ps,
        project_order: without(d.project_order, worktree),
        folders: folders_without(d.folders, worktree),
        ..d
    }
}

/// `ids` with the one at `from` at the position before which `to` counts it.
pub open spec fn reordered(ids: Seq<Seq<char>>, from: int, to: usize) -> Seq<Seq<char>> {
    let rest = ids.remove(from);
    let want = if to > from {
        to - 1
    } else {
        to as int
    };
    let at = if want < rest.len() {
        want
    } else {
        rest.len() as int
    };
    rest.insert(at, ids[from])
}

/// `w` with the worktrees of `parent` in another order.
pub open spec fn worktree_reordered(
    w: WorkspaceView,
    parent: Seq<char>,
    worktree: Seq<char>,
    to: usize,
) -> Option<WorkspaceView> {
    match ws_project(w, parent) {
        Some(p) => match position(p.worktree_ids, worktree) {
            Some(i) => Some(
                changed(
                    w,
                    ws_with_project(
                        w,
                        parent,
                        ProjectView { worktree_ids: reordered(p.worktree_ids, i, to), ..p },
                    ).data,
                ),
            ),
            None => None,
        },
        None => None,
    }
}

/// Whether a project is at `a` or at `b`.
fn is_taken(projects: &Vec<ProjectData>, f: &PathFacts, a: &str, b: &str) -> (r: bool)
    ensures
        r == taken_path(project_views(projects@), f@, a@, b@),
{
    let ghost ps = project_views(projects@);
    let mut i: usize = 0;
    while i < projects.len()
        invariant
            i <= projects@.len(),
            ps == project_views(projects@),
            forall|j: int|
                0 <= j < i ==> !coinciding(f@, (#[trigger] ps[j]).path, a@) && !coinciding(
                    f@,
                    ps[j].path,
                    b@,
                ),
        decreases projects@.len() - i,
    {
        let path = projects[i].path.as_str();
        if f.coincide(path, a) || f.coincide(path, b) {
            proof {
                assert(coinciding(f@, ps[i as int].path, a@) || coinciding(
                    f@,
                    ps[i as int].path,
                    b@,
                ));
            }
            return true;
        }
        i = i + 1;
    }
    false
}

/// The layout that a worktree starts with.
fn seed_layout(parent: Option<&LayoutNode>) -> (r: LayoutNode)
    ensures
        r@ == seeded_layout(
            match parent {
                Some(l) => Some(l@),
                None => None,
            },
        ),
{
    match parent {
        Some(l) => l.clone_structure(),
        None => LayoutNode::new_terminal(),
    }
}

/// One more worktree of the project `parent`.
fn push_child(projects: &mut Vec<ProjectData>, parent: &str, child: &str)
    ensures
        project_views(final(projects)@) == child_added(
            project_views(old(projects)@),
            parent@,
            child@,
        ),
{
    if let Some(i) = find_project(projects, parent) {
        let ghost before = projects@;
        push_worktree_id(&mut projects[i], child);
        proof {
            let new = projects@[i as int];
            assert(projects@ =~= before.update(i as int, new));
            project_views_update(before, i as int, new);
        }
    }
}

fn push_worktree_id(p: &mut ProjectData, child: &str)
    ensures
        final(p)@ == (ProjectView {
            worktree_ids: old(p)@.worktree_ids.push(child@),
            ..old(p)@
        }),
{
    let ghost before = p.worktree_ids@;
    p.worktree_ids.push(child.to_owned());
    proof {
        assert(texts(p.worktree_ids@) =~= texts(before).push(child@));
    }
}

/// Put the worktree at `from` where `to` counts it.
fn reorder_ids(p: &mut ProjectData, from: usize, to: usize)
    requires
        from < old(p)@.worktree_ids.len(),
    ensures
        final(p)@ == (ProjectView {
            worktree_ids: reordered(old(p)@.worktree_ids, from as int, to),
            ..old(p)@
        }),
{
    let ghost all = texts(p.worktree_ids@);
    proof {
        assert(all.len() == p.worktree_ids@.len());
    }
    let id = p.worktree_ids.remove(from);
    proof {
        assert(texts(p.worktree_ids@) =~= all.remove(from as int));
    }
    let want: usize = if to > from {
        to - 1
    } else {
        to
    };
    let at: usize = if want < p.worktree_ids.len() {
        want
    } else {
        p.worktree_ids.len()
    };
    let ghost rest = p.worktree_ids@;
    p.worktree_ids.insert(at, id);
    proof {
        assert(texts(p.worktree_ids@) =~= texts(rest).insert(at as int, id@));
    }
}

/// What a directory that is a worktree already is called when one is to be made
/// there.
pub fn worktree_exists_message(path: &str) -> (r: String)
    ensures
        r@ == "Directory '"@ + path@ + "' is already an active worktree"@,
{
    join3("Directory '", path, "' is already an active worktree")
}

/// The name of the directory `path`.
fn name_of_checkout(windows: bool, path: &str) -> (r: String)
    ensures
        r@ == checkout_name(windows, path@),
{
    let ps = parts_of(windows, path);
    let start = start_of(windows, path);
    proof {
        assert(texts(ps@).len() == ps@.len());
        assert(texts(start@).len() == start@.len());
    }
    if ps.len() > start.len() {
        let last = &ps[ps.len() - 1];
        proof {
            assert(texts(ps@).last() == last@);
        }
        if !same(last.as_str(), ".") && !same(last.as_str(), "..") {
            return last.clone();
        }
    }
    "worktree".to_owned()
}

impl Workspace {
    /// Whether a worktree may be put there.
    fn ensure_place(
        &self,
        f: &PathFacts,
        branch: &str,
        worktree_path: &str,
        project_path: &str,
    ) -> (r: Result<(), String>)
        ensures
            refusal_of(r) == place_refusal(self@, f@, branch@, worktree_path@, project_path@),
    {
        if let Err(e) = self.ensure_worktree_target_claim_allowed(f, worktree_path) {
            return Err(e);
        }
        if let Err(e) = self.ensure_project_path_claim_allowed(f, project_path) {
            return Err(e);
        }
        if is_taken(&self.data.projects, f, project_path, worktree_path) {
            return Err(join3("A worktree for '", branch, "' already exists"));
        }
        Ok(())
    }

    /// Whether git may be asked to make a checkout there.
    pub fn ensure_worktree_create_allowed(
        &self,
        f: &PathFacts,
        worktree_path: &str,
        project_path: &str,
    ) -> (r: Result<(), String>)
        ensures
            refusal_of(r) == match target_refusal(self@, f@, worktree_path@) {
                Some(e) => Some(e),
                None => claim_refusal(self@, f@, project_path@),
            },
    {
        if let Err(e) = self.ensure_worktree_target_claim_allowed(f, worktree_path) {
            return Err(e);
        }
        self.ensure_project_path_claim_allowed(f, project_path)
    }

    /// Register a worktree under a given id. With `fire_hooks` its directory is
    /// there, so that it gets a layout and its create hook is asked for.
    pub fn register_worktree_project_with(
        &mut self,
        id: &str,
        parent_project_id: &str,
        branch: &str,
        repo_path: &str,
        worktree_path: &str,
        project_path: &str,
        fire_hooks: bool,
        f: &PathFacts,
        global_hooks: &HooksConfig,
        window_id: WindowId,
        cx: &mut WorkspaceCx,
    ) -> (r: Result<(), String>)
        ensures
            refusal_of(r) == registration_refusal(
                old(self)@,
                f@,
                parent_project_id@,
                branch@,
                worktree_path@,
                project_path@,
            ),
            match r {
                Ok(_) => {
                    let row = worktree_row(
                        ws_project(old(self)@, parent_project_id@)->0,
                        id@,
                        branch@,
                        repo_path@,
                        worktree_path@,
                        project_path@,
                        fire_hooks,
                    );
                    let d = worktree_added(
                        old(self)@.data,
                        parent_project_id@,
                        row,
                        window_id,
                    );
                    &&& final(self)@ == changed(old(self)@, d)
                    &&& final(cx)@ == if fire_hooks {
                        asked(
                            announced(old(cx)@),
                            create_hook(row, branch@, *global_hooks, d),
                        )
                    } else {
                        announced(old(cx)@)
                    }
                },
                Err(_) => final(self)@ == old(self)@ && final(cx)@ == old(cx)@,
            },
    {
        if let Err(e) = self.ensure_place(f, branch, worktree_path, project_path) {
            return Err(e);
        }
        let i: usize = match find_project(&self.data.projects, parent_project_id) {
            Some(i) => i,
            None => {
                return Err("Parent project not found".to_owned());
            },
        };
        let parent = &self.data.projects[i];
        let layout: Option<LayoutNode> = if fire_hooks {
            Some(seed_layout(parent.layout.as_ref()))
        } else {
            None
        };
        let mut row = new_project_row(
            id.to_owned(),
            branch.to_owned(),
            project_path.to_owned(),
            layout,
            None,
        );
        row.worktree_info = Some(
            WorktreeMetadata {
                parent_project_id: parent.id.clone(),
                color_override: None,
                main_repo_path: repo_path.to_owned(),
                worktree_path: worktree_path.to_owned(),
                branch_name: branch.to_owned(),
            },
        );
        row.folder_color = parent.folder_color;
        row.hooks = parent.hooks.clone();
        let hooks = row.hooks.clone();
        let ghost before = self.data.projects@;
        self.data.projects.push(row);
        proof {
            assert(project_views(self.data.projects@) =~= project_views(before).push(row@));
        }
        push_child(&mut self.data.projects, parent_project_id, id);
        self.data.add_project_hide_in_other_windows(id, window_id);
        self.notify_data(cx);
        if fire_hooks {
            let (folder_id, folder_name): (Option<String>, Option<String>) =
                match self.folder_for_project_or_parent(id) {
                Some(x) => (Some(x.id.clone()), Some(x.name.clone())),
                None => (None, None),
            };
            cx.request_hook(
                crate::workspace::HookRequest {
                    kind: HookKind::WorktreeCreate,
                    project_hooks: hooks,
                    global_hooks: global_hooks.clone(),
                    project_id: id.to_owned(),
                    project_name: branch.to_owned(),
                    project_path: project_path.to_owned(),
                    branch: Some(branch.to_owned()),
                    target_branch: None,
                    main_repo_path: None,
                    error: None,
                    folder_id,
                    folder_name,
                },
            );
        }
        Ok(())
    }

    fn register_worktree_project_inner(
        &mut self,
        parent_project_id: &str,
        branch: &str,
        repo_path: &str,
        worktree_path: &str,
        project_path: &str,
        fire_hooks: bool,
        f: &PathFacts,
        global_hooks: &HooksConfig,
        window_id: WindowId,
        cx: &mut WorkspaceCx,
    ) -> (r: Result<String, String>)
        ensures
            match r {
                Ok(id) => {
                    let row = worktree_row(
                        ws_project(old(self)@, parent_project_id@)->0,
                        id@,
                        branch@,
                        repo_path@,
                        worktree_path@,
                        project_path@,
                        fire_hooks,
                    );
                    let d = worktree_added(
                        old(self)@.data,
                        parent_project_id@,
                        row,
                        window_id,
                    );
                    &&& random_id(id@)
                    &&& registration_refusal(
                        old(self)@,
                        f@,
                        parent_project_id@,
                        branch@,
                        worktree_path@,
                        project_path@,
                    ) is None
                    &&& final(self)@ == changed(old(self)@, d)
                    &&& final(cx)@ == if fire_hooks {
                        asked(
                            announced(old(cx)@),
                            create_hook(row, branch@, *global_hooks, d),
                        )
                    } else {
                        announced(old(cx)@)
                    }
                },
                Err(e) => {
                    &&& registration_refusal(
                        old(self)@,
                        f@,
                        parent_project_id@,
                        branch@,
                        worktree_path@,
                        project_path@,
                    ) == Some(e@)
                    &&& final(self)@ == old(self)@
                    &&& final(cx)@ == old(cx)@
                },
            },
    {
        let id = fresh_id();
        match self.register_worktree_project_with(
            id.as_str(),
            parent_project_id,
            branch,
            repo_path,
            worktree_path,
            project_path,
            fire_hooks,
            f,
            global_hooks,
            window_id,
            cx,
        ) {
            Ok(_) => Ok(id),
            Err(e) => Err(e),
        }
    }

    /// Register a worktree whose directory is there, and return its id.
    pub fn register_worktree_project(
        &mut self,
        parent_project_id: &str,
        branch: &str,
        repo_path: &str,
        worktree_path: &str,
        project_path: &str,
        f: &PathFacts,
        global_hooks: &HooksConfig,
        window_id: WindowId,
        cx: &mut WorkspaceCx,
    ) -> (r: Result<String, String>)
        ensures
            match r {
                Ok(id) => {
                    let row = worktree_row(
                        ws_project(old(self)@, parent_project_id@)->0,
                        id@,
                        branch@,
                        repo_path@,
                        worktree_path@,
                        project_path@,
                        true,
                    );
                    let d = worktree_added(
                        old(self)@.data,
                        parent_project_id@,
                        row,
                        window_id,
                    );
                    &&& random_id(id@)
                    &&& registration_refusal(
                        old(self)@,
                        f@,
                        parent_project_id@,
                        branch@,
                        worktree_path@,
                        project_path@,
                    ) is None
                    &&& final(self)@ == changed(old(self)@, d)
                    &&& final(cx)@ == asked(
                        announced(old(cx)@),
                        create_hook(row, branch@, *global_hooks, d),
                    )
                },
                Err(e) => {
                    &&& registration_refusal(
                        old(self)@,
                        f@,
                        parent_project_id@,
                        branch@,
                        worktree_path@,
                        project_path@,
                    ) == Some(e@)
                    &&& final(self)@ == old(self)@
                    &&& final(cx)@ == old(cx)@
                },
            },
    {
        self.register_worktree_project_inner(
            parent_project_id,
            branch,
            repo_path,
            worktree_path,
            project_path,
            true,
            f,
            global_hooks,
            window_id,
            cx,
        )
    }

    /// Register a worktree whose directory is not there yet, and return its id:
    /// it has no layout, and no hook is asked for.
    pub fn register_worktree_project_deferred_hooks(
        &mut self,
        parent_project_id: &str,
        branch: &str,
        repo_path: &str,
        worktree_path: &str,
        project_path: &str,
        f: &PathFacts,
        global_hooks: &HooksConfig,
        window_id: WindowId,
        cx: &mut WorkspaceCx,
    ) -> (r: Result<String, String>)
        ensures
            match r {
                Ok(id) => {
                    &&& random_id(id@)
                    &&& registration_refusal(
                        old(self)@,
                        f@,
                        parent_project_id@,
                        branch@,
                        worktree_path@,
                        project_path@,
                    ) is None
                    &&& final(self)@ == changed(
                        old(self)@,
                        worktree_added(
                            old(self)@.data,
                            parent_project_id@,
                            worktree_row(
                                ws_project(old(self)@, parent_project_id@)->0,
                                id@,
                                branch@,
                                repo_path@,
                                worktree_path@,
                                project_path@,
                                false,
                            ),
                            window_id,
                        ),
                    )
                    &&& final(cx)@ == announced(old(cx)@)
                },
                Err(e) => {
                    &&& registration_refusal(
                        old(self)@,
                        f@,
                        parent_project_id@,
                        branch@,
                        worktree_path@,
                        project_path@,
                    ) == Some(e@)
                    &&& final(self)@ == old(self)@
                    &&& final(cx)@ == old(cx)@
                },
            },
    {
        self.register_worktree_project_inner(
            parent_project_id,
            branch,
            repo_path,
            worktree_path,
            project_path,
            false,
            f,
            global_hooks,
            window_id,
            cx,
        )
    }

    /// Open a worktree whose directory is there now: it gets the shape of its
    /// parent's layout, and its create hook is asked for. `git_branch` is the
    /// branch that git reports; without one its name stands in.
    pub fn fire_worktree_hooks(
        &mut self,
        project_id: &str,
        git_branch: &Option<String>,
        global_hooks: &HooksConfig,
        cx: &mut WorkspaceCx,
    )
        ensures
            final(self)@ == checkout_arrived(old(self)@, project_id@),
            final(cx)@ == match ws_project(old(self)@, project_id@) {
                Some(p) => asked(
                    old(cx)@,
                    create_hook(
                        p,
                        match *git_branch {
                            Some(b) => b@,
                            None => p.name,
                        },
                        *global_hooks,
                        old(self)@.data,
                    ),
                ),
                None => old(cx)@,
            },
    {
        let i: usize = match find_project(&self.data.projects, project_id) {
            Some(i) => i,
            None => {
                return ;
            },
        };
        let p = &self.data.projects[i];
        let branch: String = match git_branch {
            Some(b) => b.clone(),
            None => p.name.clone(),
        };
        let mut hook = self.project_hook(HookKind::WorktreeCreate, p, global_hooks);
        hook.branch = Some(branch);
        if p.layout.is_none() {
            let parent: Option<&ProjectData> = match &p.worktree_info {
                Some(wt) => self.project(wt.parent_project_id.as_str()),
                None => None,
            };
            let shape: Option<&LayoutNode> = match parent {
                Some(q) => q.layout.as_ref(),
                None => None,
            };
            let layout = seed_layout(shape);
            let ghost before = self.data.projects@;
            self.data.projects[i].layout = Some(layout);
            proof {
                let new = self.data.projects@[i as int];
                assert(self.data.projects@ =~= before.update(i as int, new));
                project_views_update(before, i as int, new);
            }
        }
        cx.request_hook(hook);
    }

    /// Add, under a given id, a worktree that was found on disk. `git_root` is
    /// the repository of its parent, and `subdir` where the parent lies in it.
    /// The change is not counted.
    pub fn add_discovered_worktree_with(
        &mut self,
        id: &str,
        wt_path: &str,
        branch: &str,
        parent_id: &str,
        git_root: &str,
        subdir: &str,
        f: &PathFacts,
        window_id: WindowId,
    ) -> (r: Result<(), String>)
        ensures
            refusal_of(r) == discovery_refusal(
                old(self)@,
                f@,
                parent_id@,
                branch@,
                wt_path@,
                subdir@,
            ),
            final(self)@ == match r {
                Ok(_) => with_data(
                    old(self)@,
                    discovered_added(
                        old(self)@.data,
                        parent_id@,
                        discovered_row(
                            f@.windows,
                            id@,
                            parent_id@,
                            branch@,
                            git_root@,
                            wt_path@,
                            in_checkout(f@.windows, wt_path@, subdir@),
                        ),
                        window_id,
                    ),
                ),
                Err(_) => old(self)@,
            },
    {
        if self.project(parent_id).is_none() {
            return Err("Parent project not found".to_owned());
        }
        let project_path: String = if subdir.is_empty() {
            wt_path.to_owned()
        } else {
            path_below(f.windows, wt_path, subdir)
        };
        if let Err(e) = self.ensure_place(f, branch, wt_path, project_path.as_str()) {
            return Err(e);
        }
        let dir = name_of_checkout(f.windows, wt_path);
        let head = join3(dir.as_str(), " (", branch);
        let name = join(head.as_str(), ")");
        let mut row = new_project_row(
            id.to_owned(),
            name,
            project_path,
            Some(LayoutNode::new_terminal()),
            None,
        );
        row.worktree_info = Some(
            WorktreeMetadata {
                parent_project_id: parent_id.to_owned(),
                color_override: None,
                main_repo_path: git_root.to_owned(),
                worktree_path: wt_path.to_owned(),
                branch_name: branch.to_owned(),
            },
        );
        self.data.add_project_hide_in_other_windows(id, window_id);
        let ghost before = self.data.projects@;
        self.data.projects.push(row);
        proof {
            assert(project_views(self.data.projects@) =~= project_views(before).push(row@));
        }
        let ghost order = self.data.project_order@;
        match list_position(&self.data.project_order, parent_id) {
            Some(i) => {
                self.data.project_order.insert(i + 1, id.to_owned());
                proof {
                    assert(texts(self.data.project_order@) =~= texts(order).insert(i + 1, id@));
                }
            },
            None => {
                self.data.project_order.push(id.to_owned());
                proof {
                    assert(texts(self.data.project_order@) =~= texts(order).push(id@));
                }
            },
        }
        Ok(())
    }

    /// Add a worktree that was found on disk, and return its id. It shows in
    /// the window that it was added in and is hidden in every other one. The
    /// change is not counted.
    pub fn add_discovered_worktree(
        &mut self,
        wt_path: &str,
        branch: &str,
        parent_id: &str,
        git_root: &str,
        subdir: &str,
        f: &PathFacts,
        window_id: WindowId,
    ) -> (r: Result<String, String>)
        ensures
            match r {
                Ok(id) => {
                    &&& random_id(id@)
                    &&& discovery_refusal(
                        old(self)@,
                        f@,
                        parent_id@,
                        branch@,
                        wt_path@,
                        subdir@,
                    ) is None
                    &&& final(self)@ == with_data(
                        old(self)@,
                        discovered_added(
                            old(self)@.data,
                            parent_id@,
                            discovered_row(
                                f@.windows,
                                id@,
                                parent_id@,
                                branch@,
                                git_root@,
                                wt_path@,
                                in_checkout(f@.windows, wt_path@, subdir@),
                            ),
                            window_id,
                        ),
                    )
                },
                Err(e) => {
                    &&& discovery_refusal(
                        old(self)@,
                        f@,
                        parent_id@,
                        branch@,
                        wt_path@,
                        subdir@,
                    ) == Some(e@)
                    &&& final(self)@ == old(self)@
                },
            },
    {
        let id = fresh_id();
        match self.add_discovered_worktree_with(
            id.as_str(),
            wt_path,
            branch,
            parent_id,
            git_root,
            subdir,
            f,
            window_id,
        ) {
            Ok(_) => Ok(id),
            Err(e) => Err(e),
        }
    }

    /// Put a worktree below its parent, and nowhere else. The change is not
    /// counted.
    pub fn add_to_worktree_ids(&mut self, parent_id: &str, worktree_id: &str)
        ensures
            final(self)@ == with_data(
                old(self)@,
                adopted(old(self)@.data, parent_id@, worktree_id@),
            ),
    {
        let held = match find_project(&self.data.projects, parent_id) {
            Some(i) => list_contains(&self.data.projects[i].worktree_ids, worktree_id),
            None => true,
        };
        if !held {
            push_child(&mut self.data.projects, parent_id, worktree_id);
        }
        list_remove(&mut self.data.project_order, worktree_id);
        scrub_folders(&mut self.data.folders, worktree_id);
    }

    /// Move a worktree to another position below its parent.
    pub fn reorder_worktree(
        &mut self,
        parent_id: &str,
        worktree_id: &str,
        new_index: usize,
        cx: &mut WorkspaceCx,
    )
        ensures
            match worktree_reordered(old(self)@, parent_id@, worktree_id@, new_index) {
                Some(w) => final(self)@ == w && final(cx)@ == announced(old(cx)@),
                None => final(self)@ == old(self)@ && final(cx)@ == old(cx)@,
            },
    {
        if let Some(i) = find_project(&self.data.projects, parent_id) {
            if let Some(k) = list_position(&self.data.projects[i].worktree_ids, worktree_id) {
                let ghost before = self.data.projects@;
                reorder_ids(&mut self.data.projects[i], k, new_index);
                proof {
                    let new = self.data.projects@[i as int];
                    assert(self.data.projects@ =~= before.update(i as int, new));
                    project_views_update(before, i as int, new);
                }
                self.notify_data(cx);
            }
        }
    }

    /// The path of a project and, where it is a worktree, that of its parent.
    pub fn prepare_quick_create(&self, parent_project_id: &str) -> (r: Option<
        (String, Option<String>),
    >)
        ensures
            match r {
                Some((path, main_repo)) => {
                    &&& ws_project(self@, parent_project_id@) is Some
                    &&& path@ == ws_project(self@, parent_project_id@)->0.path
                    &&& opt_text(main_repo) == parent_path(
                        self@.data.projects,
                        parent_project_id@,
                    )
                },
                None => ws_project(self@, parent_project_id@) is None,
            },
    {
        match self.project(parent_project_id) {
            Some(p) => Some((p.path.clone(), self.worktree_parent_path(parent_project_id))),
            None => None,
        }
    }
}

} // verus!
