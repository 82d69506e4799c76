//! What holds of every look at the disk for worktrees.

use crate::collections::{contains_last, keys_of, sifted, without_members};
use crate::layout::ShellView;
use crate::persistence::worktrees::{
    FactsView, RouteView, all_owned_terminals, backfilled, backfilled_row, finished_rows,
    has_session, leftover_sessions, listed_teardowns, rows_dropped, session_placed,
    sessions_not_in, sessions_once, stale, stale_ids, swept, synced,
};
use crate::rows::{IdFilterView, kept_rows, kept_rows_ids, without_children};
use crate::sorted::{
    before, increasing, nothing_is_before_itself, ordering_is_strict, placed,
    sifting_keeps_increasing, sorted_once,
};
use crate::state::{DataView, ProjectView, has_project, project_ids};
use vstd::prelude::*;

verus! {

/// The ids of the stale projects are those of stale projects.
pub proof fn stale_ids_are_stale(ps: Seq<ProjectView>, f: FactsView, id: Seq<char>, n: nat)
    requires
        n <= ps.len(),
    ensures
        stale_ids(ps, f, n).contains(id) <==> exists|i: int|
            0 <= i < n && (#[trigger] ps[i]).id == id && stale(ps[i], f),
    decreases n,
{
    if n > 0 {
        stale_ids_are_stale(ps, f, id, (n - 1) as nat);
        let front = stale_ids(ps, f, (n - 1) as nat);
        if stale(ps[n - 1], f) {
            contains_last(front.push(ps[n - 1].id));
            assert(front.push(ps[n - 1].id).drop_last() =~= front);
        }
        if exists|i: int| 0 <= i < n && (#[trigger] ps[i]).id == id && stale(ps[i], f) {
            let i = choose|i: int| 0 <= i < n && (#[trigger] ps[i]).id == id && stale(ps[i], f);
            if i < n - 1 {
                assert(front.contains(id));
            }
        }
    }
}

proof fn kept_row_was_there(ps: Seq<ProjectView>, f: IdFilterView, i: int)
    requires
        0 <= i < kept_rows(ps, f).len(),
    ensures
        ps.contains(kept_rows(ps, f)[i]),
    decreases ps.len(),
{
    let front = kept_rows(ps.drop_last(), f);
    if i < front.len() {
        kept_row_was_there(ps.drop_last(), f, i);
        let k = choose|k: int|
            0 <= k < ps.drop_last().len() && ps.drop_last()[k] == kept_rows(ps, f)[i];
        assert(ps[k] == kept_rows(ps, f)[i]);
    } else {
        assert(ps[ps.len() - 1] == kept_rows(ps, f)[i]);
    }
}

/// Dropping rows takes away exactly those, from the projects, their worktrees,
/// the order and the folders.
proof fn dropping_takes_exactly(d: DataView, ids: Seq<Seq<char>>, x: Seq<char>, n: nat)
    requires
        n <= ids.len(),
    ensures
        ({
            let e = rows_dropped(d, ids, n);
            let gone = ids.take(n as int).contains(x);
            &&& has_project(e.projects, x) == (has_project(d.projects, x) && !gone)
            &&& e.project_order.contains(x) == (d.project_order.contains(x) && !gone)
            &&& e.folders.len() == d.folders.len()
            &&& forall|i: int|
                0 <= i < e.folders.len() ==> (#[trigger] e.folders[i]).project_ids.contains(x) == (
                d.folders[i].project_ids.contains(x) && !gone)
            &&& gone ==> forall|i: int|
                0 <= i < e.projects.len() ==> !(#[trigger] e.projects[i]).worktree_ids.contains(x)
        }),
    decreases n,
{
    if n == 0 {
        assert(ids.take(0) =~= Seq::<Seq<char>>::empty());
    } else {
        dropping_takes_exactly(d, ids, x, (n - 1) as nat);
        let mid = rows_dropped(d, ids, (n - 1) as nat);
        let id = ids[n - 1];
        let taken = ids.take(n as int);
        contains_last(taken);
        assert(taken.drop_last() =~= ids.take(n - 1));
        assert(taken.last() == id);
        kept_rows_ids(mid.projects, IdFilterView::NotId(id));
        let kept = kept_rows(mid.projects, IdFilterView::NotId(id));
        assert(project_ids(without_children(kept, id)) =~= project_ids(kept));
        without_members(mid.project_order, id);
        let e = rows_dropped(d, ids, n);
        if taken.contains(x) {
            assert forall|i: int| 0 <= i < e.projects.len() implies !(#[trigger]
            e.projects[i]).worktree_ids.contains(x) by {
                without_members(kept[i].worktree_ids, id);
                kept_row_was_there(mid.projects, IdFilterView::NotId(id), i);
                let k = choose|k: int| 0 <= k < mid.projects.len() && mid.projects[k] == kept[i];
                if ids.take(n - 1).contains(x) {
                    assert(!mid.projects[k].worktree_ids.contains(x));
                }
            }
        }
        assert forall|i: int| 0 <= i < e.folders.len() implies (#[trigger]
        e.folders[i]).project_ids.contains(x) == (d.folders[i].project_ids.contains(x)
            && !taken.contains(x)) by {
            without_members(mid.folders[i].project_ids, id);
            assert(mid.folders[i].project_ids.contains(x) == (d.folders[i].project_ids.contains(x)
                && !ids.take(n - 1).contains(x)));
        }
    }
}

/// The rows keep their ids while roots are filled in and creations finished.
proof fn rows_keep_their_ids(d: DataView, f: FactsView)
    ensures
        project_ids(backfilled(d.projects, f)) == project_ids(d.projects),
        project_ids(synced(d, f).projects) == project_ids(swept(d, f).projects),
{
    assert(project_ids(backfilled(d.projects, f)) =~= project_ids(d.projects));
    assert(project_ids(finished_rows(swept(d, f).projects, f)) =~= project_ids(
        swept(d, f).projects,
    ));
}

/// A look at the disk drops the projects that are stale once their roots are
/// known, and no others: neither a plain project, nor a worktree that is there.
pub proof fn only_stale_projects_go(d: DataView, f: FactsView, i: int)
    requires
        project_ids(d.projects).no_duplicates(),
        0 <= i < d.projects.len(),
    ensures
        has_project(synced(d, f).projects, d.projects[i].id) <==> !stale(
            backfilled_row(d.projects, i, f),
            f,
        ),
{
    let ps = backfilled(d.projects, f);
    let gone = stale_ids(ps, f, ps.len());
    let id = d.projects[i].id;
    rows_keep_their_ids(d, f);
    stale_ids_are_stale(ps, f, id, ps.len());
    assert(ps[i].id == id);
    assert(project_ids(ps)[i] == id);
    if gone.contains(id) {
        let j = choose|j: int| 0 <= j < ps.len() && (#[trigger] ps[j]).id == id && stale(ps[j], f);
        assert(project_ids(ps)[j] == id);
    }
    dropping_takes_exactly(DataView { projects: ps, ..d }, gone, id, gone.len());
    assert(gone.take(gone.len() as int) =~= gone);
}

/// A project that was dropped is in no order and in no folder any more, and no
/// project has it as a worktree.
pub proof fn dropped_projects_leave_no_place(d: DataView, f: FactsView, i: int)
    requires
        0 <= i < d.projects.len(),
        stale(backfilled_row(d.projects, i, f), f),
    ensures
        !synced(d, f).project_order.contains(d.projects[i].id),
        forall|k: int|
            0 <= k < synced(d, f).folders.len() ==> !(#[trigger] synced(
                d,
                f,
            ).folders[k]).project_ids.contains(d.projects[i].id),
        forall|k: int|
            0 <= k < synced(d, f).projects.len() ==> !(#[trigger] synced(
                d,
                f,
            ).projects[k]).worktree_ids.contains(d.projects[i].id),
{
    let ps = backfilled(d.projects, f);
    let gone = stale_ids(ps, f, ps.len());
    let id = d.projects[i].id;
    stale_ids_are_stale(ps, f, id, ps.len());
    assert(ps[i].id == id && stale(ps[i], f));
    dropping_takes_exactly(DataView { projects: ps, ..d }, gone, id, gone.len());
    assert(gone.take(gone.len() as int) =~= gone);
    let rest = swept(d, f).projects;
    assert forall|k: int| 0 <= k < synced(d, f).projects.len() implies !(#[trigger] synced(
        d,
        f,
    ).projects[k]).worktree_ids.contains(id) by {
        assert(!rest[k].worktree_ids.contains(id));
    }
}

/// What is left of the sessions is in none of the held terminals.
proof fn sessions_left_are_not_held(
    s: Seq<(Seq<char>, RouteView)>,
    held: Seq<Seq<char>>,
    k: int,
)
    requires
        0 <= k < sessions_not_in(s, held).len(),
    ensures
        !held.contains(sessions_not_in(s, held)[k].0),
    decreases s.len(),
{
    if s.len() > 0 {
        let front = sessions_not_in(s.drop_last(), held);
        if k < front.len() {
            sessions_left_are_not_held(s.drop_last(), held, k);
        }
    }
}

/// The sessions to tear down never include one of a project that stays.
pub proof fn kept_projects_keep_their_sessions(
    d: DataView,
    f: FactsView,
    global: ShellView,
    k: int,
)
    requires
        0 <= k < leftover_sessions(d, f, global).len(),
    ensures
        ({
            let rest = swept(d, f).projects;
            !all_owned_terminals(rest, rest.len()).contains(leftover_sessions(d, f, global)[k].0)
        }),
{
    let ps = backfilled(d.projects, f);
    let gone = stale_ids(ps, f, ps.len());
    let all = sessions_once(listed_teardowns(ps, gone, global, f.wsl, ps.len()));
    let rest = swept(d, f).projects;
    sessions_left_are_not_held(all, all_owned_terminals(rest, rest.len()), k);
}

proof fn placing_a_session(s: Seq<(Seq<char>, RouteView)>, e: (Seq<char>, RouteView))
    ensures
        keys_of(session_placed(s, e)) == placed(keys_of(s), e.0),
    decreases s.len(),
{
    if s.len() == 0 || !before(e.0, s.last().0) {
        assert(keys_of(s.push(e)) =~= keys_of(s).push(e.0));
    } else {
        placing_a_session(s.drop_last(), e);
        assert(keys_of(s.drop_last()) =~= keys_of(s).drop_last());
        assert(keys_of(session_placed(s, e)) =~= placed(keys_of(s), e.0));
    }
}

/// Ordering sessions orders their terminals, each once.
pub proof fn ordering_sessions(s: Seq<(Seq<char>, RouteView)>)
    ensures
        keys_of(sessions_once(s)) == sorted_once(keys_of(s)),
    decreases s.len(),
{
    if s.len() > 0 {
        ordering_sessions(s.drop_last());
        let front = sessions_once(s.drop_last());
        let keys = keys_of(front);
        assert(keys_of(s.drop_last()) =~= keys_of(s).drop_last());
        placing_a_session(front, s.last());
        if has_session(front, s.last().0) {
            let i = choose|i: int| 0 <= i < front.len() && #[trigger] front[i].0 == s.last().0;
            assert(keys[i] == s.last().0);
        }
        if keys.contains(s.last().0) {
            let i = choose|i: int| 0 <= i < keys.len() && keys[i] == s.last().0;
            assert(front[i].0 == s.last().0);
        }
    } else {
        assert(keys_of(s) =~= Seq::<Seq<char>>::empty());
    }
}

/// Leaving out the sessions of held terminals leaves those terminals out.
pub proof fn dropping_held_sessions(s: Seq<(Seq<char>, RouteView)>, held: Seq<Seq<char>>)
    ensures
        keys_of(sessions_not_in(s, held)) == sifted(keys_of(s), held, false),
    decreases s.len(),
{
    if s.len() > 0 {
        dropping_held_sessions(s.drop_last(), held);
        assert(keys_of(s.drop_last()) =~= keys_of(s).drop_last());
        assert(keys_of(sessions_not_in(s, held)) =~= sifted(keys_of(s), held, false));
    } else {
        assert(keys_of(s) =~= Seq::<Seq<char>>::empty());
        assert(keys_of(sessions_not_in(s, held)) =~= sifted(keys_of(s), held, false));
    }
}

/// The sessions to tear down are strictly ordered by their terminal, so that each
/// is listed once.
pub proof fn sessions_are_listed_once(d: DataView, f: FactsView, global: ShellView)
    ensures
        increasing(keys_of(leftover_sessions(d, f, global))),
        keys_of(leftover_sessions(d, f, global)).no_duplicates(),
{
    let ps = backfilled(d.projects, f);
    let gone = stale_ids(ps, f, ps.len());
    let listed = listed_teardowns(ps, gone, global, f.wsl, ps.len());
    let rest = swept(d, f).projects;
    let held = all_owned_terminals(rest, rest.len());
    ordering_sessions(listed);
    ordering_is_strict(keys_of(listed));
    dropping_held_sessions(sessions_once(listed), held);
    sifting_keeps_increasing(sorted_once(keys_of(listed)), held, false);
    let keys = keys_of(leftover_sessions(d, f, global));
    assert forall|i: int, j: int|
        0 <= i < keys.len() && 0 <= j < keys.len() && i != j implies keys[i] != keys[j] by {
        nothing_is_before_itself(keys[i]);
        if i < j {
            assert(before(keys[i], keys[j]));
        } else {
            assert(before(keys[j], keys[i]));
        }
    }
}

} // verus!
