//! What holds of every change of a project's path.

use crate::actions::project_paths::{
    MoveView, TranslationView, WayView, destination, lexical, onto, paths_applied, rename_plan,
    rename_taken_over, renamed_row, repoint_translations, repointed, resolution, translated,
};
use crate::actions::soft_close_flow::{project_in_id, with_project_lookup};
use crate::claims::{PathFactsView, ResolutionView, identity, inside};
use crate::collections::position_is_first;
use crate::paths::parts;
use crate::state::{ProjectView, project_at, project_ids, project_in};
use crate::workspace::{WorkspaceView, ws_project};
use vstd::prelude::*;

verus! {

/// What `t` says of some project of `ps`: it moves to its destination.
spec fn moves_to_destination(
    ps: Seq<ProjectView>,
    f: PathFactsView,
    way: WayView,
    new_root: Seq<char>,
    t: TranslationView,
) -> bool {
    exists|j: int|
        0 <= j < ps.len() && t.project_id == (#[trigger] ps[j]).id && destination(
            f,
            ps[j],
            way,
            new_root,
        ) == Ok::<Seq<char>, Seq<char>>(t.new_path)
}

proof fn translations_lead_to_destinations(
    ps: Seq<ProjectView>,
    f: PathFactsView,
    old_root: Seq<char>,
    way: WayView,
    new_root: Seq<char>,
    n: nat,
)
    requires
        n <= ps.len(),
        translated(ps, f, old_root, way, new_root, n) is Ok,
    ensures
        ({
            let ts = translated(ps, f, old_root, way, new_root, n)->Ok_0;
            &&& forall|k: int|
                0 <= k < ts.len() ==> moves_to_destination(ps, f, way, new_root, #[trigger] ts[k])
            &&& forall|i: int|
                0 <= i < n && inside(f, (#[trigger] ps[i]).path, old_root) ==> exists|k: int|
                    0 <= k < ts.len() && (#[trigger] ts[k]).project_id == ps[i].id
        }),
    decreases n,
{
    if n > 0 {
        translations_lead_to_destinations(ps, f, old_root, way, new_root, (n - 1) as nat);
        let front = translated(ps, f, old_root, way, new_root, (n - 1) as nat)->Ok_0;
        let ts = translated(ps, f, old_root, way, new_root, n)->Ok_0;
        assert forall|k: int| 0 <= k < ts.len() implies moves_to_destination(
            ps,
            f,
            way,
            new_root,
            #[trigger] ts[k],
        ) by {
            if k < front.len() {
                assert(ts[k] == front[k]);
            } else {
                assert(ts[k].project_id == ps[n - 1].id);
            }
        }
        assert forall|i: int| 0 <= i < n && inside(f, (#[trigger] ps[i]).path, old_root) implies exists|
            k: int,
        |
            0 <= k < ts.len() && (#[trigger] ts[k]).project_id == ps[i].id by {
            if i < n - 1 {
                let k = choose|k: int|
                    0 <= k < front.len() && (#[trigger] front[k]).project_id == ps[i].id;
                assert(ts[k] == front[k]);
            } else {
                assert(ts[ts.len() - 1].project_id == ps[i].id);
            }
        }
    }
}

/// Applying translations that all lead the project `id` to `path` leads it
/// there, and renames nothing.
proof fn applying_leads_there(
    ps: Seq<ProjectView>,
    ts: Seq<TranslationView>,
    id: Seq<char>,
    path: Seq<char>,
    n: nat,
)
    requires
        n <= ts.len(),
        project_in(ps, id) is Some,
        forall|k: int|
            0 <= k < ts.len() && (#[trigger] ts[k]).project_id == id ==> ts[k].new_path == path,
    ensures
        project_in(paths_applied(ps, ts, n), id) is Some,
        project_in(paths_applied(ps, ts, n), id)->0.id == id,
        (exists|k: int| 0 <= k < n && (#[trigger] ts[k]).project_id == id) ==> project_in(
            paths_applied(ps, ts, n),
            id,
        )->0.path == path,
    decreases n,
{
    project_in_id(ps, id);
    if n > 0 {
        applying_leads_there(ps, ts, id, path, (n - 1) as nat);
        let mid = paths_applied(ps, ts, (n - 1) as nat);
        let t = ts[n - 1];
        project_in_id(mid, t.project_id);
        if let Some(p) = project_in(mid, t.project_id) {
            let new = ProjectView {
                path: t.new_path,
                hook_terminals: crate::actions::project_paths::rehooked(
                    p.hook_terminals,
                    t.hook_ids,
                    t.new_path,
                ),
                ..p
            };
            with_project_lookup(mid, t.project_id, new, id);
        }
    }
}

/// A project that was pointed at a directory is there.
pub proof fn repointing_points_there(
    w: WorkspaceView,
    f: PathFactsView,
    id: Seq<char>,
    path: Seq<char>,
)
    requires
        project_ids(w.data.projects).no_duplicates(),
        repointed(w, f, id, path) is Ok,
    ensures
        project_in(repointed(w, f, id, path)->Ok_0, id) is Some,
        project_in(repointed(w, f, id, path)->Ok_0, id)->0.path == path,
{
    let ps = w.data.projects;
    let p = ws_project(w, id)->0;
    let i = project_at(ps, id)->0;
    position_is_first(project_ids(ps), id);
    let way = WayView::Written(p.path);
    translations_lead_to_destinations(ps, f, p.path, way, path, ps.len());
    let ts = repoint_translations(ps, f, p.path, path)->Ok_0;
    let here = lexical(f.windows, f.cwd, p.path);
    assert(here.take(here.len() as int) =~= here);
    assert(here.skip(here.len() as int).len() == 0);
    assert(destination(f, p, way, path) == Ok::<Seq<char>, Seq<char>>(path));
    assert forall|k: int| 0 <= k < ts.len() && (#[trigger] ts[k]).project_id == id implies
        ts[k].new_path == path by {
        assert(moves_to_destination(ps, f, way, path, ts[k]));
        let j = choose|j: int|
            0 <= j < ps.len() && ts[k].project_id == (#[trigger] ps[j]).id && destination(
                f,
                ps[j],
                way,
                path,
            ) == Ok::<Seq<char>, Seq<char>>(ts[k].new_path);
        assert(project_ids(ps)[j] == project_ids(ps)[i]);
    }
    let own = parts(f.windows, identity(f, p.path));
    assert(own.take(own.len() as int) =~= own);
    assert(inside(f, ps[i].path, p.path));
    applying_leads_there(ps, ts, id, path, ts.len());
    let moved = paths_applied(ps, ts, ts.len());
    let q = project_in(moved, id)->0;
    if q.worktree_info is Some {
        let new = ProjectView {
            worktree_info: Some(
                crate::state::WorktreeView { worktree_path: q.path, ..q.worktree_info->0 },
            ),
            ..q
        };
        with_project_lookup(moved, id, new, id);
    }
}

/// Translations that do not speak of the project `id` leave it alone.
proof fn applying_leaves(ps: Seq<ProjectView>, ts: Seq<TranslationView>, id: Seq<char>, n: nat)
    requires
        n <= ts.len(),
        forall|k: int| 0 <= k < ts.len() ==> (#[trigger] ts[k]).project_id != id,
    ensures
        project_in(paths_applied(ps, ts, n), id) == project_in(ps, id),
    decreases n,
{
    if n > 0 {
        applying_leaves(ps, ts, id, (n - 1) as nat);
        let mid = paths_applied(ps, ts, (n - 1) as nat);
        let t = ts[n - 1];
        project_in_id(mid, t.project_id);
        if let Some(p) = project_in(mid, t.project_id) {
            let new = ProjectView {
                path: t.new_path,
                hook_terminals: crate::actions::project_paths::rehooked(
                    p.hook_terminals,
                    t.hook_ids,
                    t.new_path,
                ),
                ..p
            };
            with_project_lookup(mid, t.project_id, new, id);
        }
    }
}

/// Only projects that lie in the old root are spoken of.
proof fn translations_speak_of_what_is_inside(
    ps: Seq<ProjectView>,
    f: PathFactsView,
    old_root: Seq<char>,
    way: WayView,
    new_root: Seq<char>,
    i: int,
    n: nat,
)
    requires
        n <= ps.len(),
        0 <= i < ps.len(),
        project_ids(ps).no_duplicates(),
        !inside(f, ps[i].path, old_root),
        translated(ps, f, old_root, way, new_root, n) is Ok,
    ensures
        forall|k: int|
            0 <= k < translated(ps, f, old_root, way, new_root, n)->Ok_0.len() ==> (
            #[trigger] translated(ps, f, old_root, way, new_root, n)->Ok_0[k]).project_id
                != ps[i].id,
    decreases n,
{
    if n > 0 {
        translations_speak_of_what_is_inside(
            ps,
            f,
            old_root,
            way,
            new_root,
            i,
            (n - 1) as nat,
        );
        let front = translated(ps, f, old_root, way, new_root, (n - 1) as nat)->Ok_0;
        let ts = translated(ps, f, old_root, way, new_root, n)->Ok_0;
        assert forall|k: int| 0 <= k < ts.len() implies (#[trigger] ts[k]).project_id
            != ps[i].id by {
            if k < front.len() {
                assert(ts[k] == front[k]);
            } else {
                assert(project_ids(ps)[n - 1] == ps[n - 1].id);
                assert(project_ids(ps)[i] == ps[i].id);
            }
        }
    }
}

/// Pointing a project at a directory leaves the projects alone that did not lie
/// in the old one.
pub proof fn repointing_leaves_the_others(
    w: WorkspaceView,
    f: PathFactsView,
    id: Seq<char>,
    path: Seq<char>,
    i: int,
)
    requires
        project_ids(w.data.projects).no_duplicates(),
        repointed(w, f, id, path) is Ok,
        0 <= i < w.data.projects.len(),
        !inside(f, w.data.projects[i].path, ws_project(w, id)->0.path),
    ensures
        project_in(repointed(w, f, id, path)->Ok_0, w.data.projects[i].id) == Some(
            w.data.projects[i],
        ),
{
    let ps = w.data.projects;
    let p = ws_project(w, id)->0;
    let other = ps[i].id;
    let way = WayView::Written(p.path);
    translations_speak_of_what_is_inside(ps, f, p.path, way, path, i, ps.len());
    let ts = repoint_translations(ps, f, p.path, path)->Ok_0;
    applying_leaves(ps, ts, other, ts.len());
    first_is_only(ps, i);
    position_is_first(project_ids(ps), id);
    first_is_only(ps, project_at(ps, id)->0);
    let own = parts(f.windows, identity(f, p.path));
    assert(own.take(own.len() as int) =~= own);
    assert(inside(f, p.path, p.path));
    project_in_id(ps, id);
    let moved = paths_applied(ps, ts, ts.len());
    project_in_id(moved, id);
    if let Some(q) = project_in(moved, id) {
        if q.worktree_info is Some {
            let new = ProjectView {
                worktree_info: Some(
                    crate::state::WorktreeView { worktree_path: q.path, ..q.worktree_info->0 },
                ),
                ..q
            };
            with_project_lookup(moved, id, new, other);
        }
    }
}

/// Where no id occurs twice, each project is found under its own.
proof fn first_is_only(ps: Seq<ProjectView>, i: int)
    requires
        0 <= i < ps.len(),
        project_ids(ps).no_duplicates(),
    ensures
        project_in(ps, ps[i].id) == Some(ps[i]),
{
    assert(project_ids(ps)[i] == ps[i].id);
    position_is_first(project_ids(ps), ps[i].id);
}

/// A project whose directory was renamed is at the new path and has the new
/// name. Where git moved its checkout, it is where git says, and so is its
/// recorded root.
pub proof fn renaming_moves_the_project(
    w: WorkspaceView,
    f: PathFactsView,
    checkout: ResolutionView,
    id: Seq<char>,
    new_path: Seq<char>,
    new_name: Seq<char>,
    root: Seq<char>,
)
    requires
        project_ids(w.data.projects).no_duplicates(),
        rename_plan(w, f, checkout, id, new_path, new_name) is Ok,
    ensures
        ({
            let plan = rename_plan(w, f, checkout, id, new_path, new_name)->Ok_0;
            let moved = match plan.moved {
                MoveView::Directory { .. } => None,
                MoveView::Worktree { .. } => Some(root),
            };
            let after = rename_taken_over(w.data.projects, plan, moved);
            &&& after is Ok
            &&& match project_in(after->Ok_0, id) {
                Some(p) => {
                    &&& p.name == new_name
                    &&& p.path == match plan.moved {
                        MoveView::Directory { .. } => new_path,
                        MoveView::Worktree { .. } => root,
                    }
                    &&& plan.moved is Worktree && p.worktree_info is Some
                        ==> p.worktree_info->0.worktree_path == root
                },
                None => false,
            }
        }),
{
    let ps = w.data.projects;
    let plan = rename_plan(w, f, checkout, id, new_path, new_name)->Ok_0;
    let p = ws_project(w, id)->0;
    let i = project_at(ps, id)->0;
    position_is_first(project_ids(ps), id);
    first_is_only(ps, i);
    let ts = plan.translations;
    match plan.moved {
        MoveView::Directory { .. } => {
            let way = WayView::Resolved(resolution(f, p.path)->Path_0);
            translations_lead_to_destinations(ps, f, p.path, way, new_path, ps.len());
            let here = parts(f.windows, resolution(f, p.path)->Path_0);
            assert(here.take(here.len() as int) =~= here);
            assert(here.skip(here.len() as int).len() == 0);
            assert(destination(f, p, way, new_path) == Ok::<Seq<char>, Seq<char>>(new_path));
            assert forall|k: int| 0 <= k < ts.len() && (#[trigger] ts[k]).project_id == id implies
                ts[k].new_path == new_path by {
                assert(moves_to_destination(ps, f, way, new_path, ts[k]));
                let j = choose|j: int|
                    0 <= j < ps.len() && ts[k].project_id == (#[trigger] ps[j]).id && destination(
                        f,
                        ps[j],
                        way,
                        new_path,
                    ) == Ok::<Seq<char>, Seq<char>>(ts[k].new_path);
                assert(project_ids(ps)[j] == project_ids(ps)[i]);
            }
            let own = parts(f.windows, identity(f, p.path));
            assert(own.take(own.len() as int) =~= own);
            assert(inside(f, ps[i].path, p.path));
            applying_leads_there(ps, ts, id, new_path, ts.len());
            let moved = paths_applied(ps, ts, ts.len());
            let q = project_in(moved, id)->0;
            with_project_lookup(moved, id, renamed_row(q, new_name, None), id);
        },
        MoveView::Worktree { .. } => {
            paths_keep_the_rows(ps, ts, id, ts.len());
            let moved = paths_applied(ps, ts, ts.len());
            let q = project_in(moved, id)->0;
            with_project_lookup(moved, id, renamed_row(q, new_name, Some(root)), id);
        },
    }
}

/// Renaming the directory of a project leaves the projects alone that do not
/// lie in what is moved.
pub proof fn renaming_leaves_the_others(
    w: WorkspaceView,
    f: PathFactsView,
    checkout: ResolutionView,
    id: Seq<char>,
    new_path: Seq<char>,
    new_name: Seq<char>,
    root: Option<Seq<char>>,
    i: int,
)
    requires
        project_ids(w.data.projects).no_duplicates(),
        rename_plan(w, f, checkout, id, new_path, new_name) is Ok,
        0 <= i < w.data.projects.len(),
        w.data.projects[i].id != id,
        !inside(
            f,
            w.data.projects[i].path,
            match rename_plan(w, f, checkout, id, new_path, new_name)->Ok_0.moved {
                MoveView::Directory { old_path, .. } => old_path,
                MoveView::Worktree { root, .. } => root,
            },
        ),
    ensures
        ({
            let plan = rename_plan(w, f, checkout, id, new_path, new_name)->Ok_0;
            let after = rename_taken_over(w.data.projects, plan, root);
            &&& after is Ok
            &&& project_in(after->Ok_0, w.data.projects[i].id) == Some(w.data.projects[i])
        }),
{
    let ps = w.data.projects;
    let plan = rename_plan(w, f, checkout, id, new_path, new_name)->Ok_0;
    let other = ps[i].id;
    position_is_first(project_ids(ps), id);
    first_is_only(ps, i);
    first_is_only(ps, project_at(ps, id)->0);
    let ts = plan.translations;
    let old_root = match plan.moved {
        MoveView::Directory { old_path, .. } => old_path,
        MoveView::Worktree { root, .. } => root,
    };
    let way = WayView::Resolved(resolution(f, old_root)->Path_0);
    translations_speak_of_what_is_inside(ps, f, old_root, way, new_path, i, ps.len());
    applying_leaves(ps, ts, other, ts.len());
    paths_keep_the_rows(ps, ts, id, ts.len());
    let moved = paths_applied(ps, ts, ts.len());
    let q = project_in(moved, id)->0;
    with_project_lookup(moved, id, renamed_row(q, new_name, root), other);
}

/// Changing paths takes no project away.
proof fn paths_keep_the_rows(ps: Seq<ProjectView>, ts: Seq<TranslationView>, id: Seq<char>, n: nat)
    requires
        n <= ts.len(),
        project_in(ps, id) is Some,
    ensures
        project_in(paths_applied(ps, ts, n), id) is Some,
        project_in(paths_applied(ps, ts, n), id)->0.id == id,
    decreases n,
{
    project_in_id(ps, id);
    if n > 0 {
        paths_keep_the_rows(ps, ts, id, (n - 1) as nat);
        let mid = paths_applied(ps, ts, (n - 1) as nat);
        let t = ts[n - 1];
        project_in_id(mid, t.project_id);
        if let Some(p) = project_in(mid, t.project_id) {
            let new = ProjectView {
                path: t.new_path,
                hook_terminals: crate::actions::project_paths::rehooked(
                    p.hook_terminals,
                    t.hook_ids,
                    t.new_path,
                ),
                ..p
            };
            with_project_lookup(mid, t.project_id, new, id);
        }
    }
}

/// Where a translation leads the project at `i` that lies in the old root.
proof fn led_to_its_destination(
    ps: Seq<ProjectView>,
    f: PathFactsView,
    old_root: Seq<char>,
    way: WayView,
    new_root: Seq<char>,
    i: int,
    path: Seq<char>,
)
    requires
        project_ids(ps).no_duplicates(),
        0 <= i < ps.len(),
        inside(f, ps[i].path, old_root),
        translated(ps, f, old_root, way, new_root, ps.len()) is Ok,
        destination(f, ps[i], way, new_root) == Ok::<Seq<char>, Seq<char>>(path),
    ensures
        ({
            let ts = translated(ps, f, old_root, way, new_root, ps.len())->Ok_0;
            let moved = project_in(paths_applied(ps, ts, ts.len()), ps[i].id);
            moved is Some && (moved->0).path == path && (moved->0).id == ps[i].id
        }),
{
    let id = ps[i].id;
    first_is_only(ps, i);
    translations_lead_to_destinations(ps, f, old_root, way, new_root, ps.len());
    let ts = translated(ps, f, old_root, way, new_root, ps.len())->Ok_0;
    assert forall|k: int| 0 <= k < ts.len() && (#[trigger] ts[k]).project_id == id implies
        ts[k].new_path == path by {
        assert(moves_to_destination(ps, f, way, new_root, ts[k]));
        let j = choose|j: int|
            0 <= j < ps.len() && ts[k].project_id == (#[trigger] ps[j]).id && destination(
                f,
                ps[j],
                way,
                new_root,
            ) == Ok::<Seq<char>, Seq<char>>(ts[k].new_path);
        assert(project_ids(ps)[j] == project_ids(ps)[i]);
    }
    applying_leads_there(ps, ts, id, path, ts.len());
}

/// Where a project is pointed at a directory, a project in the old one at some
/// way below it is found the same way below the new one.
pub proof fn repointing_takes_along(
    w: WorkspaceView,
    f: PathFactsView,
    id: Seq<char>,
    path: Seq<char>,
    i: int,
    suffix: Seq<Seq<char>>,
)
    requires
        project_ids(w.data.projects).no_duplicates(),
        repointed(w, f, id, path) is Ok,
        0 <= i < w.data.projects.len(),
        inside(f, w.data.projects[i].path, ws_project(w, id)->0.path),
        lexical(f.windows, f.cwd, w.data.projects[i].path) == lexical(f.windows, f.cwd, ws_project(w, id)->0.path)
            + suffix,
    ensures
        project_in(repointed(w, f, id, path)->Ok_0, w.data.projects[i].id) is Some,
        project_in(repointed(w, f, id, path)->Ok_0, w.data.projects[i].id)->0.path == onto(
            f.windows,
            path,
            suffix,
        ),
{
    let ps = w.data.projects;
    let p = ws_project(w, id)->0;
    let other = ps[i].id;
    let way = WayView::Written(p.path);
    let root = lexical(f.windows, f.cwd, p.path);
    let here = lexical(f.windows, f.cwd, ps[i].path);
    assert(here.take(root.len() as int) =~= root);
    assert(here.skip(root.len() as int) =~= suffix);
    led_to_its_destination(ps, f, p.path, way, path, i, onto(f.windows, path, suffix));
    let ts = repoint_translations(ps, f, p.path, path)->Ok_0;
    let moved = paths_applied(ps, ts, ts.len());
    project_in_id(moved, id);
    if let Some(q) = project_in(moved, id) {
        if q.worktree_info is Some {
            let new = ProjectView {
                worktree_info: Some(
                    crate::state::WorktreeView { worktree_path: q.path, ..q.worktree_info->0 },
                ),
                ..q
            };
            with_project_lookup(moved, id, new, other);
        }
    }
}

/// Where the directory of a project is renamed, another project in it at some
/// way below it is found the same way below the new path.
pub proof fn renaming_takes_along(
    w: WorkspaceView,
    f: PathFactsView,
    checkout: ResolutionView,
    id: Seq<char>,
    new_path: Seq<char>,
    new_name: Seq<char>,
    root: Option<Seq<char>>,
    i: int,
    suffix: Seq<Seq<char>>,
)
    requires
        project_ids(w.data.projects).no_duplicates(),
        rename_plan(w, f, checkout, id, new_path, new_name) is Ok,
        0 <= i < w.data.projects.len(),
        w.data.projects[i].id != id,
        ({
            let old_root = match rename_plan(w, f, checkout, id, new_path, new_name)->Ok_0.moved {
                MoveView::Directory { old_path, .. } => old_path,
                MoveView::Worktree { root, .. } => root,
            };
            let path = w.data.projects[i].path;
            &&& inside(f, path, old_root)
            &&& resolution(f, path) is Path
            &&& parts(f.windows, resolution(f, path)->Path_0) == parts(f.windows, resolution(f, old_root)->Path_0)
                + suffix
        }),
    ensures
        ({
            let plan = rename_plan(w, f, checkout, id, new_path, new_name)->Ok_0;
            let after = rename_taken_over(w.data.projects, plan, root);
            &&& after is Ok
            &&& project_in(after->Ok_0, w.data.projects[i].id) is Some
            &&& project_in(after->Ok_0, w.data.projects[i].id)->0.path == onto(f.windows, new_path, suffix)
        }),
{
    let ps = w.data.projects;
    let plan = rename_plan(w, f, checkout, id, new_path, new_name)->Ok_0;
    let other = ps[i].id;
    position_is_first(project_ids(ps), id);
    first_is_only(ps, project_at(ps, id)->0);
    let ts = plan.translations;
    let old_root = match plan.moved {
        MoveView::Directory { old_path, .. } => old_path,
        MoveView::Worktree { root, .. } => root,
    };
    let way = WayView::Resolved(resolution(f, old_root)->Path_0);
    let head = parts(f.windows, resolution(f, old_root)->Path_0);
    let here = parts(f.windows, resolution(f, ps[i].path)->Path_0);
    assert(here.take(head.len() as int) =~= head);
    assert(here.skip(head.len() as int) =~= suffix);
    led_to_its_destination(ps, f, old_root, way, new_path, i, onto(f.windows, new_path, suffix));
    paths_keep_the_rows(ps, ts, id, ts.len());
    let moved = paths_applied(ps, ts, ts.len());
    let q = project_in(moved, id)->0;
    with_project_lookup(moved, id, renamed_row(q, new_name, root), other);
}

} // verus!
