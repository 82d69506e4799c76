//! What the rows of worktrees hold, and where they are listed.

use crate::actions::project_rows::{finished_project, row_added};
use crate::actions::soft_close_flow::{project_in_id, with_project_lookup};
use crate::actions::worktree_rows::{
    adopted, checkout_arrived, child_added, create_hook, discovered_added, discovered_row,
    discovery_refusal, in_checkout, registration_refusal, reordered, seeded_layout, taken_path,
    worktree_added, worktree_reordered, worktree_row,
};
use crate::claims::{PathFactsView, clash, coinciding};
use crate::collections::{position, position_is_first, without_members};
use crate::layout::{LayoutView, node_at};
use crate::layout_frames::{a_copied_structure_is_empty, frame_at};
use crate::paths::below;
use crate::state::{
    DataView, HooksConfig, ProjectView, WindowId, has_project, project_ids, project_in, window_in,
};
use crate::visibility::hidden_in;
use crate::workspace::{HookKind, WorkspaceView, child_ids, ws_project};
use crate::wsl::WslView;
use vstd::prelude::*;

verus! {

/// Whether the tree `l` is the empty copy of `of`: the same splits, tabs and
/// number of slots, every slot empty. Of nothing it is a single empty slot.
pub open spec fn empty_copy(l: LayoutView, of: Option<LayoutView>) -> bool {
    match of {
        Some(m) => forall|path: Seq<usize>|
            #![trigger node_at(l, path)]
            {
                &&& frame_at(l, path) == frame_at(m, path)
                &&& node_at(l, path) is Some && node_at(l, path)->0 is Terminal ==> node_at(
                    l,
                    path,
                )->0->terminal_id is None
            },
        None => l is Terminal && l->terminal_id is None,
    }
}

proof fn seeds_are_empty_copies(parent: Option<LayoutView>)
    ensures
        empty_copy(seeded_layout(parent), parent),
{
    if let Some(m) = parent {
        let l = seeded_layout(parent);
        assert forall|path: Seq<usize>|
            #![trigger node_at(l, path)]
            {
                &&& frame_at(l, path) == frame_at(m, path)
                &&& node_at(l, path) is Some && node_at(l, path)->0 is Terminal ==> node_at(
                    l,
                    path,
                )->0->terminal_id is None
            } by {
            a_copied_structure_is_empty(m, path);
        }
    }
}

/// A registered worktree has its branch for a name, its own path, and the
/// colour and the hooks of its parent; it remembers its parent, its repository,
/// its checkout and its branch. Where its directory is there it has a layout:
/// the empty copy of its parent's. Until then it has none.
pub proof fn registered_worktrees_open_with_terminals(
    parent: ProjectView,
    id: Seq<char>,
    branch: Seq<char>,
    repo: Seq<char>,
    worktree_path: Seq<char>,
    project_path: Seq<char>,
    there: bool,
)
    ensures
        ({
            let row = worktree_row(parent, id, branch, repo, worktree_path, project_path, there);
            &&& row.id == id
            &&& row.name == branch
            &&& row.path == project_path
            &&& row.layout is Some == there
            &&& there ==> empty_copy(row.layout->0, parent.layout)
            &&& row.worktree_info is Some
            &&& (row.worktree_info->0).parent_project_id == parent.id
            &&& (row.worktree_info->0).main_repo_path == repo
            &&& (row.worktree_info->0).worktree_path == worktree_path
            &&& (row.worktree_info->0).branch_name == branch
            &&& (row.worktree_info->0).color_override is None
            &&& row.folder_color == parent.folder_color
            &&& row.hooks == parent.hooks
            &&& row.worktree_ids.len() == 0
            &&& row.connection_id is None
            &&& !row.is_creating
            &&& !row.is_closing
            &&& !row.pinned
        }),
{
    seeds_are_empty_copies(parent.layout);
}

proof fn pushing_keeps_rows(ps: Seq<ProjectView>, row: ProjectView, q: Seq<char>)
    requires
        !has_project(ps, row.id),
    ensures
        project_in(ps.push(row), q) == if q == row.id {
            Some(row)
        } else {
            project_in(ps, q)
        },
{
    position_is_first(project_ids(ps), q);
    position_is_first(project_ids(ps.push(row)), q);
    assert(project_ids(ps.push(row)) =~= project_ids(ps).push(row.id));
    assert(project_ids(ps).push(row.id).drop_last() =~= project_ids(ps));
}

/// A registered worktree is there; its parent lists it last; every other project
/// stays as it was; the order and the folders do not change; and it shows in the
/// window that it was made in, and in no other.
pub proof fn registered_worktrees_are_listed(
    d: DataView,
    parent: Seq<char>,
    row: ProjectView,
    window: WindowId,
    other: Seq<char>,
    elsewhere: WindowId,
)
    requires
        has_project(d.projects, parent),
        !has_project(d.projects, row.id),
        window_in(d, window) is Some,
        window_in(d, elsewhere) is Some,
        !hidden_in(d, window, row.id),
    ensures
        ({
            let e = worktree_added(d, parent, row, window);
            &&& project_in(e.projects, row.id) == Some(row)
            &&& child_ids(e.projects, parent) == child_ids(d.projects, parent).push(row.id)
            &&& other != parent && other != row.id ==> project_in(e.projects, other) == project_in(
                d.projects,
                other,
            )
            &&& (project_in(e.projects, parent)->0).layout == (project_in(
                d.projects,
                parent,
            )->0).layout
            &&& e.project_order == d.project_order
            &&& e.folders == d.folders
            &&& hidden_in(e, elsewhere, row.id) == (elsewhere != window)
        }),
{
    pushing_keeps_rows(d.projects, row, parent);
    pushing_keeps_rows(d.projects, row, row.id);
    pushing_keeps_rows(d.projects, row, other);
    project_in_id(d.projects, parent);
    let ps = d.projects.push(row);
    let p = project_in(ps, parent)->0;
    project_in_id(ps, parent);
    let listed = ProjectView { worktree_ids: p.worktree_ids.push(row.id), ..p };
    with_project_lookup(ps, parent, listed, parent);
    with_project_lookup(ps, parent, listed, row.id);
    with_project_lookup(ps, parent, listed, other);
    let added = DataView { projects: child_added(ps, parent, row.id), ..d };
    crate::actions::project_laws::a_new_project_shows_in_one_window(d, row, window, elsewhere);
    assert(worktree_added(d, parent, row, window).main_window == row_added(
        d,
        row,
        window,
    ).main_window);
    assert(worktree_added(d, parent, row, window).extra_windows == row_added(
        d,
        row,
        window,
    ).extra_windows);
}

/// A worktree is not registered twice at one place, nor below a parent that is
/// not there, nor in the way of an operation; otherwise it is.
pub proof fn registrations_are_refused_for_cause(
    w: WorkspaceView,
    f: PathFactsView,
    parent: Seq<char>,
    branch: Seq<char>,
    worktree_path: Seq<char>,
    project_path: Seq<char>,
)
    ensures
        registration_refusal(w, f, parent, branch, worktree_path, project_path) is Some <==> {
            ||| !has_project(w.data.projects, parent)
            ||| exists|i: int|
                0 <= i < w.data.projects.len() && (coinciding(
                    f,
                    (#[trigger] w.data.projects[i]).path,
                    project_path,
                ) || coinciding(f, w.data.projects[i].path, worktree_path))
            ||| clash(w, f, worktree_path, true) is Some
            ||| clash(w, f, project_path, false) is Some
        },
{
    project_in_id(w.data.projects, parent);
    assert(taken_path(w.data.projects, f, project_path, worktree_path) <==> exists|i: int|
        0 <= i < w.data.projects.len() && (coinciding(
            f,
            (#[trigger] w.data.projects[i]).path,
            project_path,
        ) || coinciding(f, w.data.projects[i].path, worktree_path)));
}

/// A worktree that was found on disk is at its place in the checkout, has a
/// terminal, remembers where it comes from, and is called after its directory
/// and its branch.
pub proof fn discovered_worktrees_open_with_a_terminal(
    windows: bool,
    id: Seq<char>,
    parent: Seq<char>,
    branch: Seq<char>,
    git_root: Seq<char>,
    worktree_path: Seq<char>,
    project_path: Seq<char>,
)
    ensures
        ({
            let row = discovered_row(
                windows,
                id,
                parent,
                branch,
                git_root,
                worktree_path,
                project_path,
            );
            &&& row.id == id
            &&& row.path == project_path
            &&& row.layout is Some
            &&& row.layout->0 is Terminal
            &&& row.layout->0->terminal_id is None
            &&& row.worktree_info is Some
            &&& (row.worktree_info->0).parent_project_id == parent
            &&& (row.worktree_info->0).main_repo_path == git_root
            &&& (row.worktree_info->0).worktree_path == worktree_path
            &&& (row.worktree_info->0).branch_name == branch
            &&& row.name == crate::actions::worktree_rows::checkout_name(windows, worktree_path)
                + " ("@ + branch + ")"@
        }),
{
}

/// The directory of a project in a checkout: the checkout itself, or what lies
/// below it.
pub proof fn projects_keep_their_place_in_the_checkout(
    windows: bool,
    worktree_path: Seq<char>,
    subdir: Seq<char>,
)
    ensures
        subdir.len() == 0 ==> in_checkout(windows, worktree_path, subdir) == worktree_path,
        subdir.len() > 0 ==> in_checkout(windows, worktree_path, subdir) == below(
            windows,
            worktree_path,
            subdir,
        ),
{
}

/// A worktree that was found on disk is there, right behind its parent in the
/// order, or last where the parent is not listed; every other project, and the
/// order of the others, stays; it shows in one window only.
pub proof fn discovered_worktrees_follow_their_parent(
    d: DataView,
    parent: Seq<char>,
    row: ProjectView,
    window: WindowId,
    other: Seq<char>,
    elsewhere: WindowId,
)
    requires
        !has_project(d.projects, row.id),
        window_in(d, window) is Some,
        window_in(d, elsewhere) is Some,
        !hidden_in(d, window, row.id),
    ensures
        ({
            let e = discovered_added(d, parent, row, window);
            &&& project_in(e.projects, row.id) == Some(row)
            &&& other != row.id ==> project_in(e.projects, other) == project_in(d.projects, other)
            &&& e.project_order.len() == d.project_order.len() + 1
            &&& match position(d.project_order, parent) {
                Some(i) => e.project_order[i + 1] == row.id && e.project_order.remove(i + 1)
                    == d.project_order,
                None => e.project_order.last() == row.id && e.project_order.drop_last()
                    == d.project_order,
            }
            &&& e.folders == d.folders
            &&& hidden_in(e, elsewhere, row.id) == (elsewhere != window)
        }),
{
    pushing_keeps_rows(d.projects, row, row.id);
    pushing_keeps_rows(d.projects, row, other);
    position_is_first(d.project_order, parent);
    let e = discovered_added(d, parent, row, window);
    match position(d.project_order, parent) {
        Some(i) => {
            assert(d.project_order.insert(i + 1, row.id).remove(i + 1) =~= d.project_order);
        },
        None => {
            assert(d.project_order.push(row.id).drop_last() =~= d.project_order);
        },
    }
    crate::actions::project_laws::a_new_project_shows_in_one_window(d, row, window, elsewhere);
    assert(e.main_window == row_added(d, row, window).main_window);
    assert(e.extra_windows == row_added(d, row, window).extra_windows);
}

/// Once its checkout is there, a worktree has a layout: its own, or the empty
/// copy of its parent's. Nothing else of it changes.
pub proof fn arrived_checkouts_have_terminals(w: WorkspaceView, id: Seq<char>, other: Seq<char>)
    requires
        ws_project(w, id) is Some,
    ensures
        ({
            let p = ws_project(w, id)->0;
            let v = checkout_arrived(w, id);
            let parent = match p.worktree_info {
                Some(wt) => match ws_project(w, wt.parent_project_id) {
                    Some(q) => q.layout,
                    None => None,
                },
                None => None,
            };
            &&& ws_project(v, id) is Some
            &&& (ws_project(v, id)->0).layout is Some
            &&& p.layout is Some ==> ws_project(v, id) == Some(p)
            &&& p.layout is None ==> empty_copy((ws_project(v, id)->0).layout->0, parent)
            &&& (ws_project(v, id)->0).path == p.path
            &&& (ws_project(v, id)->0).name == p.name
            &&& (ws_project(v, id)->0).worktree_info == p.worktree_info
            &&& other != id ==> ws_project(v, other) == ws_project(w, other)
        }),
{
    let p = ws_project(w, id)->0;
    project_in_id(w.data.projects, id);
    let parent = match p.worktree_info {
        Some(wt) => match ws_project(w, wt.parent_project_id) {
            Some(q) => q.layout,
            None => None,
        },
        None => None,
    };
    seeds_are_empty_copies(parent);
    if p.layout is None {
        let fixed = ProjectView { layout: Some(seeded_layout(parent)), ..p };
        with_project_lookup(w.data.projects, id, fixed, id);
        with_project_lookup(w.data.projects, id, fixed, other);
    }
}

/// A project that was registered before its directory was there has a terminal
/// once it is.
pub proof fn finished_projects_have_terminals(p: ProjectView, wsl: WslView)
    ensures
        ({
            let q = finished_project(p, wsl);
            &&& q.layout is Some
            &&& p.layout is Some ==> q.layout == p.layout
            &&& p.layout is None ==> q.layout->0 is Terminal && q.layout->0->terminal_id is None
            &&& q.id == p.id
            &&& q.name == p.name
            &&& q.path == p.path
        }),
{
}

/// The hook of a new worktree is told which branch it is on, and where it is.
pub proof fn the_create_hook_tells_of_the_worktree(
    p: ProjectView,
    branch: Seq<char>,
    global: HooksConfig,
    d: DataView,
)
    ensures
        ({
            let h = create_hook(p, branch, global, d);
            &&& h.kind == HookKind::WorktreeCreate
            &&& h.branch == Some(branch)
            &&& h.project_id == p.id
            &&& h.project_name == p.name
            &&& h.project_path == p.path
            &&& h.project_hooks == p.hooks
            &&& h.global_hooks == global
        }),
{
}

/// A worktree that was given to a parent is listed by it, and by it alone: not
/// in the order, and in no folder. Its siblings stay, in their order.
pub proof fn adopted_worktrees_are_listed_by_their_parent(
    d: DataView,
    parent: Seq<char>,
    worktree: Seq<char>,
    x: Seq<char>,
)
    requires
        has_project(d.projects, parent),
    ensures
        ({
            let e = adopted(d, parent, worktree);
            &&& child_ids(e.projects, parent).contains(worktree)
            &&& child_ids(d.projects, parent).contains(worktree) ==> child_ids(e.projects, parent)
                == child_ids(d.projects, parent)
            &&& child_ids(d.projects, parent).is_prefix_of(child_ids(e.projects, parent))
            &&& child_ids(e.projects, parent).len() <= child_ids(d.projects, parent).len() + 1
            &&& !e.project_order.contains(worktree)
            &&& x != worktree ==> e.project_order.contains(x) == d.project_order.contains(x)
            &&& e.folders.len() == d.folders.len()
            &&& forall|i: int|
                0 <= i < e.folders.len() ==> !(#[trigger] e.folders[i]).project_ids.contains(
                    worktree,
                )
            &&& x != parent ==> project_in(e.projects, x) == project_in(d.projects, x)
        }),
{
    project_in_id(d.projects, parent);
    let p = project_in(d.projects, parent)->0;
    let more = ProjectView { worktree_ids: p.worktree_ids.push(worktree), ..p };
    with_project_lookup(d.projects, parent, more, parent);
    with_project_lookup(d.projects, parent, more, x);
    assert(p.worktree_ids.push(worktree)[p.worktree_ids.len() as int] == worktree);
    without_members(d.project_order, worktree);
    let e = adopted(d, parent, worktree);
    assert forall|i: int| 0 <= i < e.folders.len() implies !(#[trigger]
    e.folders[i]).project_ids.contains(worktree) by {
        without_members(d.folders[i].project_ids, worktree);
    }
    assert(child_ids(d.projects, parent).is_prefix_of(child_ids(e.projects, parent)));
}

/// A worktree that was put elsewhere among its siblings is before the one that
/// was at the position asked for, or last; the others keep their order.
pub proof fn reordered_worktrees_are_in_their_place(ids: Seq<Seq<char>>, from: int, to: usize)
    requires
        0 <= from < ids.len(),
    ensures
        ({
            let out = reordered(ids, from, to);
            let at = if to > ids.len() {
                ids.len() - 1
            } else if to > from {
                to - 1
            } else {
                to as int
            };
            &&& out.len() == ids.len()
            &&& out[at] == ids[from]
            &&& out.remove(at) == ids.remove(from)
        }),
{
    let rest = ids.remove(from);
    let at = if to > ids.len() {
        ids.len() - 1
    } else if to > from {
        to - 1
    } else {
        to as int
    };
    assert(reordered(ids, from, to) == rest.insert(at, ids[from]));
    assert(rest.insert(at, ids[from]).remove(at) =~= rest);
}

/// A worktree can be put elsewhere exactly where its parent lists it, and only
/// the parent's list changes.
pub proof fn only_siblings_are_reordered(
    w: WorkspaceView,
    parent: Seq<char>,
    worktree: Seq<char>,
    to: usize,
    other: Seq<char>,
)
    ensures
        worktree_reordered(w, parent, worktree, to) is Some <==> child_ids(
            w.data.projects,
            parent,
        ).contains(worktree),
        worktree_reordered(w, parent, worktree, to) is Some ==> {
            let v = worktree_reordered(w, parent, worktree, to)->0;
            &&& other != parent ==> ws_project(v, other) == ws_project(w, other)
            &&& v.data.project_order == w.data.project_order
            &&& ws_project(v, parent) is Some
            &&& (ws_project(v, parent)->0).layout == (ws_project(w, parent)->0).layout
        },
{
    project_in_id(w.data.projects, parent);
    position_is_first(child_ids(w.data.projects, parent), worktree);
    if let Some(p) = ws_project(w, parent) {
        if let Some(i) = position(p.worktree_ids, worktree) {
            let q = ProjectView { worktree_ids: reordered(p.worktree_ids, i, to), ..p };
            with_project_lookup(w.data.projects, parent, q, parent);
            with_project_lookup(w.data.projects, parent, q, other);
        }
    }
}

/// A worktree on disk is added exactly where its parent is there and nothing is
/// in the way of its place.
pub proof fn discoveries_are_refused_for_cause(
    w: WorkspaceView,
    f: PathFactsView,
    parent: Seq<char>,
    branch: Seq<char>,
    worktree_path: Seq<char>,
    subdir: Seq<char>,
)
    ensures
        discovery_refusal(w, f, parent, branch, worktree_path, subdir) is Some
            == registration_refusal(
            w,
            f,
            parent,
            branch,
            worktree_path,
            in_checkout(f.windows, worktree_path, subdir),
        ) is Some,
{
}

} // verus!
