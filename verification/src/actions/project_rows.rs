//! Adding, cloning, moving and deleting projects.

use crate::actions::project_open::{hook_terminals_cleared, open_asked, project_hook};
use crate::actions::soft_close::{pending_here, project_drained};
use crate::claims::{PathFacts, busy, claim_refusal};
use crate::collections::{
    keys_of, list_contains, list_extend, list_remove, list_sift, sifted, values_of, without,
};
use crate::focus::{FocusManager, FocusView, fullscreen_off};
use crate::layout::{LayoutNode, fresh_terminal};
use crate::outside::{fresh_id, home_dir};
use crate::paths::{below, names_prefix, path_below, prefix_len};
use crate::persistence::worktrees::{drop_row, row_dropped};
use crate::rows::{IdFilter, IdFilterView, folders_without, kept_rows, retain_rows, scrub_folders};
use crate::state::{
    DataView, HooksConfig, ProjectData, ProjectView, WindowId, WorkspaceData, collect_layout_ids,
    find_project, has_project, layout_ids, new_project_row, new_row, project_ids,
    project_views, project_views_update,
};
use crate::text::{
    has_char, has_prefix, holds_char, join, join3, opt_text, outcome_of, same, skip, starts_with, texts, trim, trimmed,
};
use crate::windows::{forgotten, hidden_elsewhere};
use crate::workspace::{
    CxView, HookKind, Workspace, WorkspaceCx, WorkspaceView, announced, asked, changed, child_ids,
    with_data, ws_project, ws_with_project,
};
use crate::wsl::{WslFacts, WslView, detected_shell, shell_at};
use vstd::prelude::*;

verus! {

/// `path` with a leading `~` replaced by the home directory, where one is
/// known. The home directories of other users are not looked up.
pub open spec fn expanded(home: Option<Seq<char>>, path: Seq<char>) -> Seq<char> {
    if (path == "~"@ || has_prefix(path, "~/"@)) && home is Some {
        home->0 + path.skip(1)
    } else {
        path
    }
}

/// Whether `name` is one folder name and nothing more.
pub open spec fn plain_name(windows: bool, name: Seq<char>) -> bool {
    !holds_char(name, '/') && !holds_char(name, '\\') && name != "."@ && name != ".."@
        && prefix_len(windows, name) == 0
}

/// Where a clone goes, or why it cannot be made.
pub open spec fn clone_target(
    windows: bool,
    home: Option<Seq<char>>,
    parent: Seq<char>,
    directory: Seq<char>,
) -> Result<Seq<char>, Seq<char>> {
    let root = expanded(home, trimmed(parent));
    let name = trimmed(directory);
    if root.len() == 0 {
        Err("Parent directory is required"@)
    } else if name.len() == 0 {
        Err("Directory name is required"@)
    } else if !plain_name(windows, name) {
        Err(
            "'"@ + name
                + "' is not a valid directory name — it must be a single folder name"@,
        )
    } else {
        Ok(below(windows, root, name))
    }
}

/// What a cloned project is called.
pub open spec fn clone_name(name: Seq<char>, directory: Seq<char>) -> Seq<char> {
    if trimmed(name).len() == 0 {
        trimmed(directory)
    } else {
        trimmed(name)
    }
}

/// `d` with one more project, last in the order and shown in one window only.
pub open spec fn row_added(d: DataView, row: ProjectView, window: WindowId) -> DataView {
    hidden_elsewhere(
        DataView {
            projects: d.projects.push(row),
            project_order: d.project_order.push(row.id),
            ..d
        },
        row.id,
        window,
    )
}

/// The project `p` once its directory is there: it has a layout, and the default
/// shell that its path gives it.
pub open spec fn finished_project(p: ProjectView, wsl: WslView) -> ProjectView {
    ProjectView {
        layout: if p.layout is Some {
            p.layout
        } else {
            Some(fresh_terminal())
        },
        default_shell: detected_shell(wsl, p.default_shell, p.path),
        ..p
    }
}

/// A project whose directory is there: it has a terminal where one is asked for,
/// and the shell that its path gives it.
pub open spec fn opened_row(
    id: Seq<char>,
    name: Seq<char>,
    path: Seq<char>,
    with_terminal: bool,
    wsl: WslView,
) -> ProjectView {
    new_row(
        id,
        name,
        path,
        if with_terminal {
            Some(fresh_terminal())
        } else {
            None
        },
        shell_at(wsl, path),
    )
}

/// A project whose directory is not there yet.
pub open spec fn pending_row(id: Seq<char>, name: Seq<char>, path: Seq<char>) -> ProjectView {
    new_row(id, name, path, None, None)
}

/// `w` once the directory of the project `id` is there.
pub open spec fn pending_finished(w: WorkspaceView, id: Seq<char>, wsl: WslView) -> WorkspaceView {
    match ws_project(w, id) {
        Some(p) => changed(
            w,
            ws_with_project(w, id, finished_project(p, wsl)).data,
        ),
        None => w,
    }
}

/// Whether a project `id` is there that is, or for `false` is not, a worktree.
pub open spec fn has_row(ps: Seq<ProjectView>, id: Seq<char>, worktree: bool) -> bool {
    exists|i: int|
        0 <= i < ps.len() && (#[trigger] ps[i]).id == id && (ps[i].worktree_info is Some)
            == worktree
}

/// `d` without the project `id`, which no project has as a child.
pub open spec fn pending_dropped(d: DataView, id: Seq<char>) -> DataView {
    forgotten(
        DataView {
            projects: kept_rows(d.projects, IdFilterView::NotId(id)),
            project_order: without(d.project_order, id),
            folders: folders_without(d.folders, id),
            ..d
        },
        id,
    )
}

/// `order` with those of the first `n` of `ids` that are there and not yet in
/// it.
pub open spec fn rehomed(
    order: Seq<Seq<char>>,
    ids: Seq<Seq<char>>,
    ps: Seq<ProjectView>,
    n: nat,
) -> Seq<Seq<char>>
    decreases n,
{
    if n == 0 || n > ids.len() {
        order
    } else {
        let front = rehomed(order, ids, ps, (n - 1) as nat);
        if has_project(ps, ids[n - 1]) && !front.contains(ids[n - 1]) {
            front.push(ids[n - 1])
        } else {
            front
        }
    }
}

/// `d` without the project `id`: nothing refers to it any more, and its
/// worktrees are listed in its place.
pub open spec fn project_deleted(d: DataView, id: Seq<char>) -> DataView {
    let rest = row_dropped(d, id);
    let orphans = child_ids(d.projects, id);
    forgotten(
        DataView {
            project_order: rehomed(rest.project_order, orphans, rest.projects, orphans.len()),
            ..rest
        },
        id,
    )
}

/// The terminals of the project `id` that end with it: those in its layout, its
/// hooks' and its services'.
pub open spec fn doomed(w: WorkspaceView, id: Seq<char>) -> Seq<Seq<char>> {
    match ws_project(w, id) {
        Some(p) => layout_ids(p) + keys_of(p.hook_terminals) + values_of(p.service_terminals),
        None => Seq::empty(),
    }
}

/// `w` without the project `id`.
pub open spec fn deleted(w: WorkspaceView, id: Seq<char>) -> WorkspaceView {
    let drained = project_drained(w, id);
    changed(
        WorkspaceView {
            kills: w.kills + doomed(w, id) + pending_here(w.pending_closes, id),
            closing: w.closing.remove(id),
            ..drained
        },
        project_deleted(w.data, id),
    )
}

/// The focus once the project `id` is gone.
pub open spec fn focus_after_delete(f: FocusView, id: Seq<char>) -> FocusView {
    let unzoomed = if f.focused_project_id == Some(id) {
        FocusView { focused_project_id: None, individual: false, ..f }
    } else {
        f
    };
    if f.fullscreen is Some && f.fullscreen->0.project_id == id {
        fullscreen_off(unzoomed)
    } else {
        unzoomed
    }
}

/// What the host is asked when the project `id` is deleted: to cancel its
/// hooks, and to run its close hook where `global` is given.
pub open spec fn delete_asked(
    w: WorkspaceView,
    c: CxView,
    id: Seq<char>,
    global: Option<HooksConfig>,
) -> CxView {
    match ws_project(w, id) {
        Some(p) => {
            let told = CxView {
                notified: true,
                cancelled: c.cancelled + keys_of(p.hook_terminals),
                ..c
            };
            match global {
                Some(g) => asked(told, project_hook(HookKind::ProjectClose, p, g, w.data)),
                None => told,
            }
        },
        None => announced(c),
    }
}

/// `d` with the project `id` and its worktrees at position `index` of the
/// order, and in no folder.
pub open spec fn project_moved(d: DataView, id: Seq<char>, index: usize) -> DataView {
    let group = seq![id] + child_ids(d.projects, id);
    let rest = sifted(d.project_order, group, false);
    let moving = seq![id] + without(sifted(d.project_order, group, true), id);
    let at = if index < rest.len() {
        index as int
    } else {
        rest.len() as int
    };
    DataView {
        folders: folders_without(d.folders, id),
        project_order: rest.take(at) + moving + rest.skip(at),
        ..d
    }
}

/// `path` with a leading `~` replaced by `home`.
pub fn expand_tilde_with(home: &Option<String>, path: &str) -> (r: String)
    ensures
        r@ == expanded(opt_text(*home), path@),
{
    if same(path, "~") || starts_with(path, "~/") {
        if let Some(h) = home {
            proof {
                reveal_strlit("~");
                reveal_strlit("~/");
                if path@ == "~"@ {
                    assert(path@.len() == 1);
                } else {
                    assert(path@.len() >= "~/"@.len());
                    assert("~/"@.len() == 2);
                }
            }
            return join(h.as_str(), skip(path, 1));
        }
    }
    path.to_owned()
}

/// `path` with a leading `~` replaced by the user's home directory. Other
/// users' home directories are not looked up.
pub fn expand_tilde(path: &str) -> (r: String)
    ensures
        exists|home: Option<Seq<char>>| r@ == #[trigger] expanded(home, path@),
{
    let home = home_dir();
    expand_tilde_with(&home, path)
}

/// Where a clone goes, with `home` for the home directory.
pub fn resolve_clone_target_with(
    home: &Option<String>,
    parent_dir: &str,
    directory: &str,
    windows: bool,
) -> (r: Result<String, String>)
    ensures
        outcome_of(r) == clone_target(windows, opt_text(*home), parent_dir@, directory@),
{
    let parent = expand_tilde_with(home, trim(parent_dir));
    if parent.as_str().is_empty() {
        return Err("Parent directory is required".to_owned());
    }
    let name = trim(directory);
    if name.is_empty() {
        return Err("Directory name is required".to_owned());
    }
    if has_char(name, '/') || has_char(name, '\\') || same(name, ".") || same(name, "..")
        || names_prefix(windows, name) {
        return Err(
            join3(
                "'",
                name,
                "' is not a valid directory name — it must be a single folder name",
            ),
        );
    }
    Ok(path_below(windows, parent.as_str(), name))
}

/// Where a clone goes: below the parent directory, under one plain name, so
/// that it cannot land outside the directory that was picked. `windows` says
/// whether paths are written as on Windows.
pub fn resolve_clone_target(parent_dir: &str, directory: &str, windows: bool) -> (r: Result<
    String,
    String,
>)
    ensures
        exists|home: Option<Seq<char>>|
            outcome_of(r) == #[trigger] clone_target(windows, home, parent_dir@, directory@),
{
    let home = home_dir();
    resolve_clone_target_with(&home, parent_dir, directory, windows)
}

/// What a cloned project is called: its own name, or that of its directory.
pub fn clone_project_name(name: &str, directory: &str) -> (r: String)
    ensures
        r@ == clone_name(name@, directory@),
{
    let name = trim(name);
    if name.is_empty() {
        trim(directory).to_owned()
    } else {
        name.to_owned()
    }
}

/// Whether a project `id` is there that is, or is not, a worktree.
fn find_row(projects: &Vec<ProjectData>, id: &str, worktree: bool) -> (r: bool)
    ensures
        r == has_row(project_views(projects@), id@, worktree),
{
    let ghost ps = project_views(projects@);
    let mut i: usize = 0;
    while i < projects.len()
        invariant
            i <= projects@.len(),
            ps == project_views(projects@),
            forall|j: int|
                0 <= j < i ==> !((#[trigger] ps[j]).id == id@ && (ps[j].worktree_info is Some)
                    == worktree),
        decreases projects@.len() - i,
    {
        if same(projects[i].id.as_str(), id) && projects[i].worktree_info.is_some() == worktree {
            proof {
                assert(ps[i as int].id == id@);
            }
            return true;
        }
        i = i + 1;
    }
    false
}

/// Give a project whose directory is there a layout and a default shell.
fn finish_row(p: &mut ProjectData, wsl: &WslFacts)
    ensures
        final(p)@ == finished_project(old(p)@, wsl@),
{
    if p.layout.is_none() {
        p.layout = Some(LayoutNode::new_terminal());
    }
    if p.default_shell.is_none() {
        p.default_shell = wsl.shell(p.path.as_str());
    }
}

/// List those of `ids` that are there and not yet in `order`.
fn rehome(order: &mut Vec<String>, ids: &Vec<String>, projects: &Vec<ProjectData>)
    ensures
        texts(final(order)@) == rehomed(
            texts(old(order)@),
            texts(ids@),
            project_views(projects@),
            ids@.len(),
        ),
{
    let ghost start = texts(order@);
    let ghost all = texts(ids@);
    let ghost ps = project_views(projects@);
    let mut i: usize = 0;
    while i < ids.len()
        invariant
            i <= ids@.len(),
            all == texts(ids@),
            ps == project_views(projects@),
            texts(order@) == rehomed(start, all, ps, i as nat),
        decreases ids@.len() - i,
    {
        proof {
            assert(all[i as int] == ids@[i as int]@);
            crate::collections::position_is_first(project_ids(ps), ids@[i as int]@);
        }
        if find_project(projects, ids[i].as_str()).is_some() && !list_contains(
            order,
            ids[i].as_str(),
        ) {
            let ghost held = order@;
            order.push(ids[i].clone());
            proof {
                assert(texts(order@) =~= texts(held).push(ids@[i as int]@));
            }
        }
        i = i + 1;
    }
}

/// Delete the project `id`.
fn delete_row(data: &mut WorkspaceData, id: &str)
    ensures
        final(data)@ == project_deleted(old(data)@, id@),
{
    let orphans: Vec<String> = match find_project(&data.projects, id) {
        Some(i) => crate::text::copy_all(&data.projects[i].worktree_ids),
        None => Vec::new(),
    };
    proof {
        assert(texts(orphans@) =~= child_ids(data@.projects, id@));
        assert(texts(orphans@).len() == orphans@.len());
    }
    drop_row(data, id);
    rehome(&mut data.project_order, &orphans, &data.projects);
    data.delete_project_scrub_all_windows(id);
}

impl Workspace {
    /// Add a row, last in the order and shown in one window only.
    fn push_row(&mut self, row: ProjectData, window_id: WindowId, cx: &mut WorkspaceCx)
        ensures
            final(self)@ == changed(old(self)@, row_added(old(self)@.data, row@, window_id)),
            final(cx)@ == announced(old(cx)@),
    {
        let id = row.id.clone();
        let ghost ps = self.data.projects@;
        let ghost order = self.data.project_order@;
        self.data.projects.push(row);
        self.data.project_order.push(id.clone());
        proof {
            assert(project_views(self.data.projects@) =~= project_views(ps).push(row@));
            assert(texts(self.data.project_order@) =~= texts(order).push(id@));
        }
        self.data.add_project_hide_in_other_windows(id.as_str(), window_id);
        self.notify_data(cx);
    }

    /// Add a project under a given id. Its default shell is that of the
    /// distribution that it lies in, if any.
    pub fn add_project_with(
        &mut self,
        id: String,
        name: String,
        path: String,
        with_terminal: bool,
        wsl: &WslFacts,
        facts: &PathFacts,
        global_hooks: &HooksConfig,
        window_id: WindowId,
        cx: &mut WorkspaceCx,
    ) -> (r: Result<(), String>)
        ensures
            crate::text::refusal_of(r) == claim_refusal(old(self)@, facts@, path@),
            match r {
                Ok(_) => {
                    let w = changed(
                        old(self)@,
                        row_added(
                            old(self)@.data,
                            opened_row(id@, name@, path@, with_terminal, wsl@),
                            window_id,
                        ),
                    );
                    &&& final(self)@ == hook_terminals_cleared(w, id@)
                    &&& final(cx)@ == open_asked(w, announced(old(cx)@), id@, *global_hooks)
                },
                Err(_) => final(self)@ == old(self)@ && final(cx)@ == old(cx)@,
            },
    {
        if let Err(e) = self.ensure_project_path_claim_allowed(facts, path.as_str()) {
            return Err(e);
        }
        let layout: Option<LayoutNode> = if with_terminal {
            Some(LayoutNode::new_terminal())
        } else {
            None
        };
        let shell = wsl.shell(path.as_str());
        let row = new_project_row(id.clone(), name, path, layout, shell);
        self.push_row(row, window_id, cx);
        self.fire_project_open_hooks(id.as_str(), global_hooks, cx);
        Ok(())
    }

    /// Add a project and return its id. It shows in the window that it was
    /// added in and is hidden in every other one.
    pub fn add_project(
        &mut self,
        name: String,
        path: String,
        with_terminal: bool,
        wsl: &WslFacts,
        facts: &PathFacts,
        global_hooks: &HooksConfig,
        window_id: WindowId,
        cx: &mut WorkspaceCx,
    ) -> (r: Result<String, String>)
        ensures
            exists|home: Option<Seq<char>>|
                {
                    let full = #[trigger] expanded(home, path@);
                    match r {
                        Ok(id) => {
                            let w = changed(
                                old(self)@,
                                row_added(
                                    old(self)@.data,
                                    opened_row(id@, name@, full, with_terminal, wsl@),
                                    window_id,
                                ),
                            );
                            &&& crate::outside::random_id(id@)
                            &&& claim_refusal(old(self)@, facts@, full) is None
                            &&& final(self)@ == hook_terminals_cleared(w, id@)
                            &&& final(cx)@ == open_asked(
                                w,
                                announced(old(cx)@),
                                id@,
                                *global_hooks,
                            )
                        },
                        Err(e) => {
                            &&& claim_refusal(old(self)@, facts@, full) == Some(e@)
                            &&& final(self)@ == old(self)@
                            &&& final(cx)@ == old(cx)@
                        },
                    }
                },
    {
        let home = home_dir();
        let full = expand_tilde_with(&home, path.as_str());
        let id = fresh_id();
        let ghost h = opt_text(home);
        proof {
            assert(full@ == expanded(h, path@));
        }
        match self.add_project_with(
            id.clone(),
            name,
            full,
            with_terminal,
            wsl,
            facts,
            global_hooks,
            window_id,
            cx,
        ) {
            Ok(_) => Ok(id),
            Err(e) => Err(e),
        }
    }

    /// Register under a given id a project whose directory is not there yet: it
    /// has no layout, and no hook is asked for.
    pub fn register_pending_project_with(
        &mut self,
        id: String,
        name: String,
        path: String,
        facts: &PathFacts,
        window_id: WindowId,
        cx: &mut WorkspaceCx,
    ) -> (r: Result<(), String>)
        ensures
            crate::text::refusal_of(r) == claim_refusal(old(self)@, facts@, path@),
            match r {
                Ok(_) => {
                    &&& final(self)@ == changed(
                        old(self)@,
                        row_added(
                            old(self)@.data,
                            pending_row(id@, name@, path@),
                            window_id,
                        ),
                    )
                    &&& final(cx)@ == announced(old(cx)@)
                },
                Err(_) => final(self)@ == old(self)@ && final(cx)@ == old(cx)@,
            },
    {
        if let Err(e) = self.ensure_project_path_claim_allowed(facts, path.as_str()) {
            return Err(e);
        }
        let row = new_project_row(id, name, path, None, None);
        self.push_row(row, window_id, cx);
        Ok(())
    }

    /// Register a project whose directory is not there yet, and return its id.
    pub fn register_pending_project(
        &mut self,
        name: String,
        path: String,
        facts: &PathFacts,
        window_id: WindowId,
        cx: &mut WorkspaceCx,
    ) -> (r: Result<String, String>)
        ensures
            exists|home: Option<Seq<char>>|
                {
                    let full = #[trigger] expanded(home, path@);
                    match r {
                        Ok(id) => {
                            &&& crate::outside::random_id(id@)
                            &&& claim_refusal(old(self)@, facts@, full) is None
                            &&& final(self)@ == changed(
                                old(self)@,
                                row_added(
                                    old(self)@.data,
                                    pending_row(id@, name@, full),
                                    window_id,
                                ),
                            )
                            &&& final(cx)@ == announced(old(cx)@)
                        },
                        Err(e) => {
                            &&& claim_refusal(old(self)@, facts@, full) == Some(e@)
                            &&& final(self)@ == old(self)@
                            &&& final(cx)@ == old(cx)@
                        },
                    }
                },
    {
        let home = home_dir();
        let full = expand_tilde_with(&home, path.as_str());
        let id = fresh_id();
        let ghost h = opt_text(home);
        proof {
            assert(full@ == expanded(h, path@));
        }
        match self.register_pending_project_with(id.clone(), name, full, facts, window_id, cx) {
            Ok(_) => Ok(id),
            Err(e) => Err(e),
        }
    }

    /// Open a pending project whose directory is there now. A layout that it
    /// already has stays.
    pub fn finish_pending_project(
        &mut self,
        project_id: &str,
        wsl: &WslFacts,
        global_hooks: &HooksConfig,
        cx: &mut WorkspaceCx,
    )
        ensures
            ({
                let w = pending_finished(old(self)@, project_id@, wsl@);
                &&& final(self)@ == hook_terminals_cleared(w, project_id@)
                &&& final(cx)@ == open_asked(
                    w,
                    if ws_project(old(self)@, project_id@) is Some {
                        announced(old(cx)@)
                    } else {
                        old(cx)@
                    },
                    project_id@,
                    *global_hooks,
                )
            }),
    {
        if let Some(i) = find_project(&self.data.projects, project_id) {
            let ghost before = self.data.projects@;
            finish_row(&mut self.data.projects[i], wsl);
            proof {
                let new = self.data.projects@[i as int];
                assert(self.data.projects@ =~= before.update(i as int, new));
                project_views_update(before, i as int, new);
            }
            self.notify_data(cx);
        }
        self.fire_project_open_hooks(project_id, global_hooks, cx);
    }

    /// Roll back a pending project. One that is still being made or removed is
    /// left alone, and so is a worktree. The change is not counted.
    pub fn remove_pending_project(&mut self, project_id: &str)
        ensures
            final(self)@ == if busy(old(self)@, project_id@) || !has_row(
                old(self)@.data.projects,
                project_id@,
                false,
            ) {
                old(self)@
            } else {
                with_data(old(self)@, pending_dropped(old(self)@.data, project_id@))
            },
    {
        if self.is_busy(project_id) || !find_row(&self.data.projects, project_id, false) {
            return ;
        }
        retain_rows(&mut self.data.projects, &IdFilter::NotId(project_id));
        list_remove(&mut self.data.project_order, project_id);
        scrub_folders(&mut self.data.folders, project_id);
        self.data.delete_project_scrub_all_windows(project_id);
    }

    /// Remove a worktree whose directory is gone. One that is still being made
    /// or removed is left alone, and so is a project that is no worktree. The
    /// change is not counted.
    pub fn remove_stale_worktree(&mut self, project_id: &str)
        ensures
            final(self)@ == if busy(old(self)@, project_id@) || !has_row(
                old(self)@.data.projects,
                project_id@,
                true,
            ) {
                old(self)@
            } else {
                with_data(
                    old(self)@,
                    forgotten(row_dropped(old(self)@.data, project_id@), project_id@),
                )
            },
    {
        if self.is_busy(project_id) || !find_row(&self.data.projects, project_id, true) {
            return ;
        }
        drop_row(&mut self.data, project_id);
        self.data.delete_project_scrub_all_windows(project_id);
    }

    /// Queue the terminals of a project for their end, and cancel its hooks.
    fn doom_terminals(&mut self, project_id: &str, cx: &mut WorkspaceCx)
        ensures
            final(self)@ == (WorkspaceView {
                kills: old(self)@.kills + doomed(old(self)@, project_id@) + pending_here(
                    old(self)@.pending_closes,
                    project_id@,
                ),
                ..project_drained(old(self)@, project_id@)
            }),
            final(cx)@ == (CxView {
                cancelled: match ws_project(old(self)@, project_id@) {
                    Some(p) => old(cx)@.cancelled + keys_of(p.hook_terminals),
                    None => old(cx)@.cancelled,
                },
                ..old(cx)@
            }),
    {
        let ghost w = self@;
        match find_project(&self.data.projects, project_id) {
            Some(i) => {
                let p = &self.data.projects[i];
                let hooks = p.hook_terminals.keys();
                let services = p.service_terminals.values();
                let mut ids = collect_layout_ids(p);
                list_extend(&mut ids, &hooks);
                list_extend(&mut ids, &services);
                list_extend(&mut cx.cancelled, &hooks);
                self.queue_terminal_kills(&ids);
            },
            None => {
                proof {
                    assert(w.kills + Seq::<Seq<char>>::empty() =~= w.kills);
                }
            },
        }
        let closed = self.drain_pending_closes_for_project(project_id);
        self.queue_terminal_kills(&closed);
    }

    /// Delete a project: end its terminals, let nothing refer to it, list its
    /// worktrees in its place, and ask for its close hook.
    pub fn delete_project(
        &mut self,
        focus_manager: &mut FocusManager,
        project_id: &str,
        global_hooks: &HooksConfig,
        cx: &mut WorkspaceCx,
    )
        ensures
            final(self)@ == deleted(old(self)@, project_id@),
            final(focus_manager)@ == focus_after_delete(old(focus_manager)@, project_id@),
            final(cx)@ == delete_asked(
                old(self)@,
                old(cx)@,
                project_id@,
                Some(*global_hooks),
            ),
    {
        self.delete_project_inner(focus_manager, project_id, Some(global_hooks), cx);
    }

    /// Delete a project whose close hook has run already.
    pub fn delete_project_without_project_close(
        &mut self,
        focus_manager: &mut FocusManager,
        project_id: &str,
        cx: &mut WorkspaceCx,
    )
        ensures
            final(self)@ == deleted(old(self)@, project_id@),
            final(focus_manager)@ == focus_after_delete(old(focus_manager)@, project_id@),
            final(cx)@ == delete_asked(old(self)@, old(cx)@, project_id@, None),
    {
        self.delete_project_inner(focus_manager, project_id, None, cx);
    }

    fn delete_project_inner(
        &mut self,
        focus_manager: &mut FocusManager,
        project_id: &str,
        global_hooks: Option<&HooksConfig>,
        cx: &mut WorkspaceCx,
    )
        ensures
            final(self)@ == deleted(old(self)@, project_id@),
            final(focus_manager)@ == focus_after_delete(old(focus_manager)@, project_id@),
            final(cx)@ == delete_asked(
                old(self)@,
                old(cx)@,
                project_id@,
                match global_hooks {
                    Some(g) => Some(*g),
                    None => None,
                },
            ),
    {
        let hook = match (self.project(project_id), global_hooks) {
            (Some(p), Some(g)) => Some(self.project_hook(HookKind::ProjectClose, p, g)),
            _ => None,
        };
        self.doom_terminals(project_id, cx);
        delete_row(&mut self.data, project_id);
        self.closing.remove(project_id);
        let zoomed = match focus_manager.focused_project_id() {
            Some(id) => same(id.as_str(), project_id),
            None => false,
        };
        if zoomed {
            focus_manager.set_focused_project_id(None);
        }
        let filling = match focus_manager.fullscreen_project_id() {
            Some(id) => same(id.as_str(), project_id),
            None => false,
        };
        if filling {
            focus_manager.exit_fullscreen();
        }
        self.notify_data(cx);
        if let Some(h) = hook {
            cx.request_hook(h);
        }
    }

    /// Move a project, and its worktrees with it, to a position in the order. A
    /// project that was in a folder leaves it.
    pub fn move_project(&mut self, project_id: &str, new_index: usize, cx: &mut WorkspaceCx)
        ensures
            final(self)@ == changed(
                old(self)@,
                project_moved(old(self)@.data, project_id@, new_index),
            ),
            final(cx)@ == announced(old(cx)@),
    {
        let ghost d = self@.data;
        let mut group: Vec<String> = Vec::new();
        group.push(project_id.to_owned());
        proof {
            assert(texts(group@) =~= seq![project_id@]);
        }
        let children = self.worktree_child_ids(project_id);
        list_extend(&mut group, &children);
        scrub_folders(&mut self.data.folders, project_id);
        let mut moving = crate::text::copy_all(&self.data.project_order);
        list_sift(&mut moving, &group, true);
        list_remove(&mut moving, project_id);
        list_sift(&mut self.data.project_order, &group, false);
        let ghost rest = texts(self.data.project_order@);
        let ghost tail = texts(moving@);
        let at: usize = if new_index < self.data.project_order.len() {
            new_index
        } else {
            self.data.project_order.len()
        };
        let ghost held = self.data.project_order@;
        let mut after = self.data.project_order.split_off(at);
        proof {
            assert(texts(self.data.project_order@) =~= rest.take(at as int));
            assert(texts(after@) =~= rest.skip(at as int));
        }
        let ghost front = self.data.project_order@;
        self.data.project_order.push(project_id.to_owned());
        proof {
            assert(texts(self.data.project_order@) =~= texts(front).push(project_id@));
        }
        list_extend(&mut self.data.project_order, &moving);
        list_extend(&mut self.data.project_order, &after);
        proof {
            assert(texts(self.data.project_order@) =~= rest.take(at as int) + (seq![project_id@]
                + tail) + rest.skip(at as int));
        }
        self.notify_data(cx);
    }
}

} // verus!
