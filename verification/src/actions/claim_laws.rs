//! When operations on directories are refused, and what the leases say.

use crate::actions::project_paths::{
    MoveView, TranslationView, WayView, checkout_question, hooks_at, known_root, may_move,
    move_result, path_applied, pinned_by, rehooked, rename_plan, repo_inside, repointed,
    repos_inside, topology_refusal, translated, user_of,
};
use crate::actions::soft_close_flow::{project_in_id, with_project_lookup};
use crate::claims::{
    PathFactsView, ResolutionView, busy, claim_refusal, clash, closing_begun, closing_ended,
    coinciding, creation_begun, creation_ended, first_clash, first_occupant, inside,
    mutation_refusal, occupancy_refusal, target_refusal,
};
use crate::collections::{contains_last, lookup};
use crate::paths::rooted;
use crate::persistence::worktrees::checkout_path;
use crate::state::{HookTerminalView, ProjectView, project_in};
use crate::workspace::{WorkspaceView, ws_project};
use vstd::prelude::*;

verus! {

/// Whether a project that is being made or removed has its checkout where `path`
/// is in its way: around `path` or, for `both`, inside it.
pub open spec fn in_the_way(w: WorkspaceView, f: PathFactsView, path: Seq<char>, both: bool) -> bool {
    exists|i: int|
        0 <= i < w.data.projects.len() && (w.creating.contains(
            (#[trigger] w.data.projects[i]).id,
        ) || w.closing.contains(w.data.projects[i].id)) && (inside(
            f,
            path,
            checkout_path(w.data.projects[i]),
        ) || both && inside(f, checkout_path(w.data.projects[i]), path))
}

proof fn a_clash_is_found(
    w: WorkspaceView,
    f: PathFactsView,
    path: Seq<char>,
    both: bool,
    n: nat,
)
    requires
        n <= w.data.projects.len(),
    ensures
        match first_clash(w, f, path, both, n) {
            Some(i) => 0 <= i < n && busy(w, w.data.projects[i].id) && (inside(
                f,
                path,
                checkout_path(w.data.projects[i]),
            ) || both && inside(f, checkout_path(w.data.projects[i]), path)),
            None => forall|i: int|
                0 <= i < n ==> !(busy(w, (#[trigger] w.data.projects[i]).id) && (inside(
                    f,
                    path,
                    checkout_path(w.data.projects[i]),
                ) || both && inside(f, checkout_path(w.data.projects[i]), path))),
        },
    decreases n,
{
    if n > 0 {
        a_clash_is_found(w, f, path, both, (n - 1) as nat);
    }
}

/// A path is refused to a new project exactly where it lies in the checkout of a
/// project that is being made or removed; to a new checkout also where such a
/// checkout lies in it.
pub proof fn paths_are_refused_while_in_use(w: WorkspaceView, f: PathFactsView, path: Seq<char>)
    ensures
        claim_refusal(w, f, path) is Some <==> in_the_way(w, f, path, false),
        target_refusal(w, f, path) is Some <==> in_the_way(w, f, path, true),
{
    a_clash_is_found(w, f, path, false, w.data.projects.len());
    a_clash_is_found(w, f, path, true, w.data.projects.len());
    if let Some(i) = clash(w, f, path, false) {
        assert(busy(w, w.data.projects[i].id));
    }
    if let Some(i) = clash(w, f, path, true) {
        assert(busy(w, w.data.projects[i].id));
    }
}

/// A project may be moved unless the place where it is, or the one where it is to
/// go, is in the way of an operation.
pub proof fn moves_are_refused_while_in_use(
    w: WorkspaceView,
    f: PathFactsView,
    id: Seq<char>,
    path: Seq<char>,
)
    ensures
        mutation_refusal(w, f, id, path) is Some <==> {
            ||| in_the_way(w, f, path, true)
            ||| ws_project(w, id) is Some && in_the_way(w, f, (ws_project(w, id)->0).path, true)
        },
{
    paths_are_refused_while_in_use(w, f, path);
    if let Some(p) = ws_project(w, id) {
        paths_are_refused_while_in_use(w, f, p.path);
    }
}

/// The root of a worktree is its own exactly where no other project lies in it.
pub proof fn roots_are_owned_alone(
    w: WorkspaceView,
    f: PathFactsView,
    id: Seq<char>,
    root: Seq<char>,
)
    ensures
        occupancy_refusal(w, f, id, root) is None <==> forall|i: int|
            0 <= i < w.data.projects.len() && (#[trigger] w.data.projects[i]).id != id ==> !inside(
                f,
                w.data.projects[i].path,
                root,
            ),
{
    an_occupant_is_found(w.data.projects, f, id, root, w.data.projects.len());
}

proof fn an_occupant_is_found(
    ps: Seq<ProjectView>,
    f: PathFactsView,
    id: Seq<char>,
    root: Seq<char>,
    n: nat,
)
    requires
        n <= ps.len(),
    ensures
        match first_occupant(ps, f, id, root, n) {
            Some(i) => 0 <= i < n && ps[i].id != id && inside(f, ps[i].path, root),
            None => forall|i: int|
                0 <= i < n && (#[trigger] ps[i]).id != id ==> !inside(f, ps[i].path, root),
        },
    decreases n,
{
    if n > 0 {
        an_occupant_is_found(ps, f, id, root, (n - 1) as nat);
    }
}

/// While a project is being made, or removed, it says so; once that has ended it
/// does not. No other project changes.
pub proof fn leases_are_shown(w: WorkspaceView, id: Seq<char>, other: Seq<char>)
    requires
        ws_project(w, id) is Some,
    ensures
        (ws_project(creation_begun(w, id), id)->0).is_creating,
        creation_begun(w, id).creating.contains(id),
        !(ws_project(creation_ended(w, id), id)->0).is_creating,
        (ws_project(creation_ended(w, id), id)->0).creating_progress is None,
        !creation_ended(w, id).creating.contains(id),
        (ws_project(closing_begun(w, id), id)->0).is_closing,
        closing_begun(w, id).closing.contains(id),
        !(ws_project(closing_ended(w, id), id)->0).is_closing,
        !closing_ended(w, id).closing.contains(id),
        other != id ==> {
            &&& ws_project(creation_begun(w, id), other) == ws_project(w, other)
            &&& ws_project(creation_ended(w, id), other) == ws_project(w, other)
            &&& ws_project(closing_begun(w, id), other) == ws_project(w, other)
            &&& ws_project(closing_ended(w, id), other) == ws_project(w, other)
            &&& creation_begun(w, id).creating.contains(other) == w.creating.contains(other)
            &&& creation_ended(w, id).creating.contains(other) == w.creating.contains(other)
            &&& closing_begun(w, id).closing.contains(other) == w.closing.contains(other)
            &&& closing_ended(w, id).closing.contains(other) == w.closing.contains(other)
        },
{
    let ps = w.data.projects;
    let p = ws_project(w, id)->0;
    project_in_id(ps, id);
    let a = ProjectView { is_creating: true, ..p };
    let b = ProjectView { is_creating: false, creating_progress: None, ..p };
    let c = ProjectView { is_closing: true, ..p };
    let e = ProjectView { is_closing: false, ..p };
    with_project_lookup(ps, id, a, id);
    with_project_lookup(ps, id, a, other);
    with_project_lookup(ps, id, b, id);
    with_project_lookup(ps, id, b, other);
    with_project_lookup(ps, id, c, id);
    with_project_lookup(ps, id, c, other);
    with_project_lookup(ps, id, e, id);
    with_project_lookup(ps, id, e, other);
}

proof fn a_user_is_found(
    ps: Seq<ProjectView>,
    f: PathFactsView,
    id: Seq<char>,
    path: Seq<char>,
    n: nat,
)
    requires
        n <= ps.len(),
    ensures
        match user_of(ps, f, id, path, n) {
            Some(i) => 0 <= i < n && ps[i].id != id && coinciding(f, ps[i].path, path),
            None => forall|i: int|
                0 <= i < n && (#[trigger] ps[i]).id != id ==> !coinciding(f, ps[i].path, path),
        },
    decreases n,
{
    if n > 0 {
        a_user_is_found(ps, f, id, path, (n - 1) as nat);
    }
}

/// A project is pointed at a directory only where this is an absolute path of a
/// directory that is there, that no operation is on, that the project does not
/// have already and that no other project has; and only a project of this
/// machine.
pub proof fn repointing_is_refused_for_cause(
    w: WorkspaceView,
    f: PathFactsView,
    id: Seq<char>,
    path: Seq<char>,
)
    requires
        repointed(w, f, id, path) is Ok,
    ensures
        rooted(f.windows, path),
        f.existing.contains(path),
        f.directories.contains(path),
        !in_the_way(w, f, path, true),
        ws_project(w, id) is Some,
        (ws_project(w, id)->0).connection_id is None,
        !coinciding(f, (ws_project(w, id)->0).path, path),
        !in_the_way(w, f, (ws_project(w, id)->0).path, true),
        forall|i: int|
            0 <= i < w.data.projects.len() && (#[trigger] w.data.projects[i]).id != id
                ==> !coinciding(f, w.data.projects[i].path, path),
{
    moves_are_refused_while_in_use(w, f, id, path);
    a_user_is_found(w.data.projects, f, id, path, w.data.projects.len());
}

/// A directory gets a new name only where it is one name, nothing of it is there
/// yet, and neither place is in the way of an operation.
pub proof fn renames_are_refused_for_cause(
    w: WorkspaceView,
    f: PathFactsView,
    checkout: ResolutionView,
    id: Seq<char>,
    new_path: Seq<char>,
    new_name: Seq<char>,
)
    requires
        rename_plan(w, f, checkout, id, new_path, new_name) is Ok,
    ensures
        new_name.len() > 0,
        !new_name.contains('/'),
        !new_name.contains('\\'),
        new_name != "."@,
        new_name != ".."@,
        !f.existing.contains(new_path),
        !in_the_way(w, f, new_path, true),
        ws_project(w, id) is Some,
        !in_the_way(w, f, (ws_project(w, id)->0).path, true),
{
    moves_are_refused_while_in_use(w, f, id, new_path);
}

/// A plan to rename a directory is of the project: its id, its path, the new
/// path and the new name. A plain project has its directory renamed. Of a
/// worktree whose path is its checkout, git moves the checkout; of one that lies
/// in its checkout, the directory is renamed and stays in there.
pub proof fn renames_move_the_directory(
    w: WorkspaceView,
    f: PathFactsView,
    checkout: ResolutionView,
    id: Seq<char>,
    new_path: Seq<char>,
    new_name: Seq<char>,
)
    requires
        rename_plan(w, f, checkout, id, new_path, new_name) is Ok,
    ensures
        ({
            let plan = rename_plan(w, f, checkout, id, new_path, new_name)->Ok_0;
            let p = ws_project(w, id)->0;
            &&& plan.project_id == id
            &&& plan.old_path == p.path
            &&& plan.new_name == new_name
            &&& match p.worktree_info {
                None => plan.moved == (MoveView::Directory { old_path: p.path, new_path }),
                Some(_) => match checkout {
                    ResolutionView::Path(root) => if coinciding(f, p.path, root) {
                        plan.moved == (MoveView::Worktree { root, new_path })
                    } else {
                        &&& plan.moved == (MoveView::Directory { old_path: p.path, new_path })
                        &&& inside(f, new_path, root)
                    },
                    ResolutionView::Failed(_) => false,
                },
            }
        }),
{
}

proof fn repositories_inside_are_known(
    ps: Seq<ProjectView>,
    f: PathFactsView,
    root: Seq<char>,
    allowed: Option<Seq<char>>,
    n: nat,
    i: int,
)
    requires
        0 <= i < n <= ps.len(),
        repos_inside(ps, f, root, allowed, n) is Ok,
    ensures
        pinned_by(f, ps[i], root, allowed) is None,
        repo_inside(f, ps[i], root) is Some ==> exists|k: int|
            0 <= k < repos_inside(ps, f, root, allowed, n)->Ok_0.len() && {
                let r = #[trigger] repos_inside(ps, f, root, allowed, n)->Ok_0[k];
                r == repo_inside(f, ps[i], root)->0 || coinciding(
                    f,
                    r,
                    repo_inside(f, ps[i], root)->0,
                )
            },
    decreases n,
{
    let m = (n - 1) as nat;
    let front = repos_inside(ps, f, root, allowed, m)->Ok_0;
    let roots = repos_inside(ps, f, root, allowed, n)->Ok_0;
    if i < m {
        repositories_inside_are_known(ps, f, root, allowed, m, i);
        if let Some(r) = repo_inside(f, ps[i], root) {
            let k = choose|k: int|
                0 <= k < front.len() && {
                    let x = #[trigger] front[k];
                    x == r || coinciding(f, x, r)
                };
            assert(roots[k] == front[k]);
        }
    } else if let Some(r) = repo_inside(f, ps[i], root) {
        if known_root(f, front, r) {
            let k = choose|k: int| 0 <= k < front.len() && coinciding(f, #[trigger] front[k], r);
            assert(roots[k] == front[k]);
        } else {
            assert(roots[roots.len() - 1] == r);
        }
    }
}

/// Whether `allowed` is the checkout `r`, which may move.
pub open spec fn frees(f: PathFactsView, allowed: Option<Seq<char>>, r: Seq<char>) -> bool {
    allowed is Some && coinciding(f, allowed->0, r)
}

/// Whether `r` is another name of the repository `repo`, and it may move or has
/// no linked checkouts.
pub open spec fn stands_free(
    f: PathFactsView,
    allowed: Option<Seq<char>>,
    r: Seq<char>,
    repo: Seq<char>,
) -> bool {
    (r == repo || coinciding(f, r, repo)) && (frees(f, allowed, r) || !f.linked.contains(r))
}

/// A directory moves only where git keeps no place in it that would be wrong
/// afterwards: no linked checkout of a project lies in it but the one that may
/// move, neither one that is recorded, nor one that git has found.
pub proof fn linked_checkouts_hold_their_directory(
    ps: Seq<ProjectView>,
    f: PathFactsView,
    root: Seq<char>,
    allowed: Option<Seq<char>>,
    i: int,
)
    requires
        0 <= i < ps.len(),
        topology_refusal(ps, f, root, allowed) is None,
    ensures
        ({
            let p = ps[i];
            let repo = lookup(f.repo_roots, p.path);
            &&& p.worktree_info is Some && inside(f, p.path, root) && repo is Some && inside(
                f,
                repo->0,
                root,
            ) ==> frees(f, allowed, repo->0)
            &&& p.worktree_info is Some && (p.worktree_info->0).worktree_path.len() > 0 && inside(
                f,
                (p.worktree_info->0).worktree_path,
                root,
            ) ==> frees(f, allowed, (p.worktree_info->0).worktree_path)
            &&& inside(f, p.path, root) && repo is Some && inside(f, repo->0, root) ==> exists|
                r: Seq<char>,
            | #[trigger] stands_free(f, allowed, r, repo->0)
        }),
{
    repositories_inside_are_known(ps, f, root, allowed, ps.len(), i);
    let roots = repos_inside(ps, f, root, allowed, ps.len())->Ok_0;
    if let Some(repo) = repo_inside(f, ps[i], root) {
        let k = choose|k: int|
            0 <= k < roots.len() && {
                let x = #[trigger] roots[k];
                x == repo || coinciding(f, x, repo)
            };
        assert(may_move(f, allowed, roots[k]) || !f.linked.contains(roots[k]));
        assert(stands_free(f, allowed, roots[k], repo));
    }
}

/// A directory that was renamed, or a checkout that git moved, is taken over;
/// where neither could be done, the reason is told.
pub proof fn moves_tell_how_they_went(m: MoveView, root: Seq<char>, error: Seq<char>)
    ensures
        move_result(m, Err(error)) is Err,
        m is Directory ==> move_result(m, Err(error)) == Err::<Option<Seq<char>>, Seq<char>>(
            "Failed to rename: "@ + error,
        ),
        m is Worktree ==> move_result(m, Err(error)) == Err::<Option<Seq<char>>, Seq<char>>(error),
        m is Worktree ==> move_result(m, Ok(root)) == Ok::<Option<Seq<char>>, Seq<char>>(
            Some(root),
        ),
        m is Directory ==> move_result(m, Ok(root)) == Ok::<Option<Seq<char>>, Seq<char>>(None),
{
}

/// The hooks of a project that run in a directory are those whose directory it
/// is.
pub proof fn hooks_in_a_directory_are_found(
    f: PathFactsView,
    hooks: Seq<(Seq<char>, HookTerminalView)>,
    path: Seq<char>,
    x: Seq<char>,
)
    ensures
        hooks_at(f, hooks, path).contains(x) <==> exists|i: int|
            0 <= i < hooks.len() && (#[trigger] hooks[i]).0 == x && coinciding(
                f,
                hooks[i].1.cwd,
                path,
            ),
    decreases hooks.len(),
{
    if hooks.len() > 0 {
        let front = hooks.drop_last();
        let ids = hooks_at(f, front, path);
        hooks_in_a_directory_are_found(f, front, path, x);
        contains_last(ids.push(hooks.last().0));
        assert(ids.push(hooks.last().0).drop_last() =~= ids);
        if exists|i: int|
            0 <= i < front.len() && (#[trigger] front[i]).0 == x && coinciding(
                f,
                front[i].1.cwd,
                path,
            ) {
            let i = choose|i: int|
                0 <= i < front.len() && (#[trigger] front[i]).0 == x && coinciding(
                    f,
                    front[i].1.cwd,
                    path,
                );
            assert(hooks[i] == front[i]);
        }
        if exists|i: int|
            0 <= i < hooks.len() && (#[trigger] hooks[i]).0 == x && coinciding(
                f,
                hooks[i].1.cwd,
                path,
            ) {
            let i = choose|i: int|
                0 <= i < hooks.len() && (#[trigger] hooks[i]).0 == x && coinciding(
                    f,
                    hooks[i].1.cwd,
                    path,
                );
            if i < front.len() {
                assert(front[i] == hooks[i]);
            }
        }
        if hooks.last().0 == x && coinciding(f, hooks.last().1.cwd, path) {
            assert(hooks[hooks.len() - 1].0 == x);
        }
    }
}

/// A project that moves takes its path and the hooks that ran in its directory
/// along; the other hooks stay where they run, and the project is otherwise what
/// it was.
pub proof fn hooks_move_with_the_project(
    ps: Seq<ProjectView>,
    t: TranslationView,
    k: int,
    other: Seq<char>,
)
    requires
        project_in(ps, t.project_id) is Some,
        0 <= k < (project_in(ps, t.project_id)->0).hook_terminals.len(),
    ensures
        ({
            let p = project_in(ps, t.project_id)->0;
            let q = project_in(path_applied(ps, t), t.project_id);
            let before = p.hook_terminals[k];
            let after = (q->0).hook_terminals[k];
            &&& q is Some
            &&& (q->0).path == t.new_path
            &&& (q->0).name == p.name
            &&& (q->0).layout == p.layout
            &&& (q->0).hook_terminals.len() == p.hook_terminals.len()
            &&& after.0 == before.0
            &&& after.1.command == before.1.command
            &&& after.1.status == before.1.status
            &&& t.hook_ids.contains(before.0) ==> after.1.cwd == t.new_path
            &&& !t.hook_ids.contains(before.0) ==> after.1.cwd == before.1.cwd
            &&& other != t.project_id ==> project_in(path_applied(ps, t), other) == project_in(
                ps,
                other,
            )
        }),
{
    let p = project_in(ps, t.project_id)->0;
    let q = ProjectView {
        path: t.new_path,
        hook_terminals: rehooked(p.hook_terminals, t.hook_ids, t.new_path),
        ..p
    };
    project_in_id(ps, t.project_id);
    with_project_lookup(ps, t.project_id, q, t.project_id);
    with_project_lookup(ps, t.project_id, q, other);
}

/// How paths change is told of each project in the directory: of its id, its path
/// and the hooks that run there.
pub proof fn translations_are_of_the_projects(
    ps: Seq<ProjectView>,
    f: PathFactsView,
    from: Seq<char>,
    way: WayView,
    to: Seq<char>,
    n: nat,
    k: int,
)
    requires
        n <= ps.len(),
        translated(ps, f, from, way, to, n) is Ok,
        0 <= k < translated(ps, f, from, way, to, n)->Ok_0.len(),
    ensures
        ({
            let t = translated(ps, f, from, way, to, n)->Ok_0[k];
            exists|i: int|
                0 <= i < n && (#[trigger] ps[i]).id == t.project_id && ps[i].path == t.old_path
                    && inside(f, ps[i].path, from) && t.hook_ids == hooks_at(
                    f,
                    ps[i].hook_terminals,
                    ps[i].path,
                )
        }),
    decreases n,
{
    let m = (n - 1) as nat;
    let front = translated(ps, f, from, way, to, m);
    let ts = translated(ps, f, from, way, to, n)->Ok_0;
    if n > 0 {
        if k < front->Ok_0.len() {
            translations_are_of_the_projects(ps, f, from, way, to, m, k);
            let t = front->Ok_0[k];
            assert(ts[k] == t);
            let i = choose|i: int|
                0 <= i < m && (#[trigger] ps[i]).id == t.project_id && ps[i].path == t.old_path
                    && inside(f, ps[i].path, from) && t.hook_ids == hooks_at(
                    f,
                    ps[i].hook_terminals,
                    ps[i].path,
                );
            assert(ps[i].id == ts[k].project_id);
        } else {
            assert(ps[n - 1].id == ts[k].project_id);
        }
    }
}

/// What git is asked of a worktree before it moves is of the repository of its
/// parent, and of the checkout that is recorded, or else of the project's path.
pub proof fn git_is_asked_of_the_checkout(ps: Seq<ProjectView>, id: Seq<char>)
    ensures
        match checkout_question(ps, id) {
            Some((repo, root)) => {
                let p = project_in(ps, id)->0;
                &&& project_in(ps, id) is Some
                &&& p.worktree_info is Some
                &&& project_in(ps, (p.worktree_info->0).parent_project_id) is Some
                &&& repo == (project_in(ps, (p.worktree_info->0).parent_project_id)->0).path
                &&& root == checkout_path(p)
            },
            None => project_in(ps, id) is None || (project_in(ps, id)->0).worktree_info is None
                || project_in(
                ps,
                ((project_in(ps, id)->0).worktree_info->0).parent_project_id,
            ) is None,
        },
{
}

} // verus!
