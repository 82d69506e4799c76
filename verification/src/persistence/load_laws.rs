//! What loading keeps of a workspace, what it puts right, and what reaches the
//! disk.

use crate::collections::{
    contains_last, keys_of, lookup, lookup_after_sift, position, position_is_first, sifted,
    sifted_members, values_of, without,
};
use crate::layout::{LayoutView, ShellView, opt_terminal_ids, terminal_ids, terminal_ids_in};
use crate::layout_frames::held_by_either;
use crate::layout_laws::normalizing_keeps_terminals;
use crate::layout_terminals::{TerminalEditView, edited, edited_in, edited_in_index};
use crate::paths::{parts, same_place, within};
use crate::persistence::validate::{
    claimed_before, completed, ended_entries, held_projects, listed_children, loaded_projects,
    named_children, rank, ranked, ranked_insert, validated, with_children_listed,
};
use crate::persistence::worktree_laws::{
    dropping_held_sessions, only_stale_projects_go, ordering_sessions, stale_ids_are_stale,
};
use crate::persistence::worktrees::{
    FactsView, RouteView, all_owned_terminals, backfilled, backfilled_row, deepest_root,
    finished_rows, layout_teardowns, layout_teardowns_in, leftover_sessions, listed_teardowns,
    owned_terminals, project_teardowns, registered_root, route_of, row_dropped, rows_dropped,
    sessions_once, stale, stale_ids, swept, synced,
};
use crate::remote_again::kept_rows_are_found;
use crate::rows::{IdFilterView, folders_sifted, kept_rows};
use crate::sorted::sorted_once_members;
use crate::state::{
    DataView, FolderView, HookTerminalStatus, ProjectView, folder_ids, has_project, project_ids,
    project_in,
};
use crate::wsl::{WslView, outlives};
use vstd::prelude::*;

verus! {

/// The terminals that survive clearing are those that are kept, in their order.
pub proof fn clearing_keeps_only_what_is_kept(l: LayoutView, keep: Seq<Seq<char>>)
    ensures
        terminal_ids(edited(l, TerminalEditView::ClearExcept(keep))) == sifted(
            terminal_ids(l),
            keep,
            true,
        ),
    decreases l, 0nat,
{
    match l {
        LayoutView::Terminal { terminal_id, .. } => {
            if let Some(t) = terminal_id {
                assert(terminal_ids(l) =~= seq![t]);
                assert(seq![t].drop_last() =~= Seq::<Seq<char>>::empty());
                reveal_with_fuel(sifted, 2);
                if keep.contains(t) {
                    assert(sifted(seq![t], keep, true) =~= seq![t]);
                }
            }
        },
        LayoutView::Split { children, .. } => {
            clearing_below(children, keep, children.len());
            edited_in_index(children, TerminalEditView::ClearExcept(keep), children.len());
        },
        LayoutView::Tabs { children, .. } => {
            clearing_below(children, keep, children.len());
            edited_in_index(children, TerminalEditView::ClearExcept(keep), children.len());
        },
    }
}

proof fn clearing_below(cs: Seq<LayoutView>, keep: Seq<Seq<char>>, n: nat)
    requires
        n <= cs.len(),
    ensures
        terminal_ids_in(edited_in(cs, TerminalEditView::ClearExcept(keep), n), n) == sifted(
            terminal_ids_in(cs, n),
            keep,
            true,
        ),
    decreases cs, n,
{
    let edit = TerminalEditView::ClearExcept(keep);
    edited_in_index(cs, edit, n);
    if n > 0 {
        let m = (n - 1) as nat;
        clearing_below(cs, keep, m);
        clearing_keeps_only_what_is_kept(cs[n - 1], keep);
        crate::remote_again::sifted_concat(
            terminal_ids_in(cs, m),
            terminal_ids(cs[n - 1]),
            keep,
            true,
        );
        edited_in_index(cs, edit, m);
        crate::layout_laws::ids_in_prefix(edited_in(cs, edit, m), edited_in(cs, edit, n), m);
    }
}

/// Loading keeps every project, in its place, and what it is: its name, where it
/// is, what it was checked out from, how it looks.
pub proof fn loading_keeps_what_projects_are(d: DataView, clear: bool, wsl: WslView, i: int)
    requires
        0 <= i < d.projects.len(),
    ensures
        validated(d, clear, wsl).projects.len() == d.projects.len(),
        ({
            let p = d.projects[i];
            let q = validated(d, clear, wsl).projects[i];
            &&& q.id == p.id
            &&& q.name == p.name
            &&& q.path == p.path
            &&& q.worktree_info == p.worktree_info
            &&& q.session == p.session
            &&& q.folder_color == p.folder_color
            &&& q.hooks == p.hooks
            &&& q.connection_id == p.connection_id
            &&& q.pinned == p.pinned
            &&& q.last_activity_at == p.last_activity_at
            &&& q.is_creating == p.is_creating
            &&& q.space_id == p.space_id
            &&& q.closed_at == p.closed_at
            &&& q.layout is Some == p.layout is Some
            &&& p.default_shell is Some ==> q.default_shell == p.default_shell
            &&& keys_of(q.hook_terminals) == keys_of(p.hook_terminals)
        }),
{
    let p = d.projects[i];
    assert(keys_of(ended_entries(p.hook_terminals)) =~= keys_of(p.hook_terminals));
}

/// Where terminals live on, a project keeps them all, with their names.
pub proof fn living_terminals_are_kept(d: DataView, wsl: WslView, i: int, t: Seq<char>)
    requires
        0 <= i < d.projects.len(),
    ensures
        ({
            let p = d.projects[i];
            let q = validated(d, false, wsl).projects[i];
            &&& opt_terminal_ids(q.layout) == opt_terminal_ids(p.layout)
            &&& q.service_terminals == p.service_terminals
            &&& q.hook_terminals == p.hook_terminals
            &&& lookup(q.terminal_names, t) == if opt_terminal_ids(p.layout).contains(t) {
                lookup(p.terminal_names, t)
            } else {
                None
            }
            &&& lookup(q.hidden_terminals, t) == if opt_terminal_ids(p.layout).contains(t) {
                lookup(p.hidden_terminals, t)
            } else {
                None
            }
        }),
{
    let p = d.projects[i];
    if let Some(l) = p.layout {
        normalizing_keeps_terminals(l);
    }
    lookup_after_sift(p.terminal_names, opt_terminal_ids(p.layout), true, t);
    lookup_after_sift(p.hidden_terminals, opt_terminal_ids(p.layout), true, t);
}

/// Where terminals did not live on, a project keeps the slots of its hook
/// terminals only, none of which runs any more, and no service has a terminal.
pub proof fn dead_terminals_are_cleared(d: DataView, wsl: WslView, i: int, t: Seq<char>, k: int)
    requires
        0 <= i < d.projects.len(),
        !outlives(wsl, validated(d, true, wsl).projects[i].default_shell),
    ensures
        ({
            let p = d.projects[i];
            let q = validated(d, true, wsl).projects[i];
            &&& opt_terminal_ids(q.layout) == sifted(
                opt_terminal_ids(p.layout),
                keys_of(p.hook_terminals),
                true,
            )
            &&& q.service_terminals.len() == 0
            &&& q.hook_terminals.len() == p.hook_terminals.len()
            &&& 0 <= k < q.hook_terminals.len() ==> {
                &&& q.hook_terminals[k].1.status != HookTerminalStatus::Running
                &&& p.hook_terminals[k].1.status != HookTerminalStatus::Running ==> (
                q.hook_terminals[k] == p.hook_terminals[k])
                &&& q.hook_terminals[k].1.command == p.hook_terminals[k].1.command
            }
        }),
{
    let p = d.projects[i];
    if let Some(l) = p.layout {
        let keep = keys_of(p.hook_terminals);
        clearing_keeps_only_what_is_kept(l, keep);
        normalizing_keeps_terminals(edited(l, TerminalEditView::ClearExcept(keep)));
    }
}

proof fn named_children_hold(ps: Seq<ProjectView>, id: Seq<char>, x: Seq<char>)
    ensures
        named_children(ps, id).contains(x) <==> exists|j: int|
            0 <= j < ps.len() && (#[trigger] ps[j]).id == x && ps[j].worktree_info is Some && (
            ps[j].worktree_info->0).parent_project_id == id,
    decreases ps.len(),
{
    if ps.len() > 0 {
        let front = ps.drop_last();
        let kids = named_children(front, id);
        named_children_hold(front, id, x);
        if named_children(ps, id) != kids {
            contains_last(kids.push(ps.last().id));
            assert(kids.push(ps.last().id).drop_last() =~= kids);
        }
        if exists|j: int|
            0 <= j < front.len() && (#[trigger] front[j]).id == x && front[j].worktree_info is Some
                && (front[j].worktree_info->0).parent_project_id == id {
            let j = choose|j: int|
                0 <= j < front.len() && (#[trigger] front[j]).id == x && front[j].worktree_info
                    is Some && (front[j].worktree_info->0).parent_project_id == id;
            assert(ps[j] == front[j]);
        }
        if exists|j: int|
            0 <= j < ps.len() && (#[trigger] ps[j]).id == x && ps[j].worktree_info is Some && (
            ps[j].worktree_info->0).parent_project_id == id {
            let j = choose|j: int|
                0 <= j < ps.len() && (#[trigger] ps[j]).id == x && ps[j].worktree_info is Some && (
                ps[j].worktree_info->0).parent_project_id == id;
            if j < front.len() {
                assert(front[j] == ps[j]);
            }
        }
        if ps.last().id == x && ps.last().worktree_info is Some && (
        ps.last().worktree_info->0).parent_project_id == id {
            assert(ps[ps.len() - 1].id == x);
        }
    }
}

/// Whether no id stands before one that ranks lower.
pub open spec fn in_rank(s: Seq<Seq<char>>, order: Seq<Seq<char>>) -> bool {
    forall|i: int, j: int|
        0 <= i < j < s.len() ==> rank(order, #[trigger] s[i]) <= rank(order, #[trigger] s[j])
}

proof fn inserting_by_rank(s: Seq<Seq<char>>, id: Seq<char>, order: Seq<Seq<char>>, x: Seq<char>)
    requires
        in_rank(s, order),
    ensures
        in_rank(ranked_insert(s, id, order), order),
        ranked_insert(s, id, order).contains(x) <==> s.contains(x) || x == id,
    decreases s.len(),
{
    if s.len() == 0 || rank(order, s.last()) <= rank(order, id) {
        contains_last(s.push(id));
        assert(s.push(id).drop_last() =~= s);
        assert forall|i: int, j: int| 0 <= i < j < s.push(id).len() implies rank(
            order,
            #[trigger] s.push(id)[i],
        ) <= rank(order, #[trigger] s.push(id)[j]) by {
            if j == s.len() && i < s.len() - 1 {
                assert(rank(order, s[i]) <= rank(order, s[s.len() - 1]));
            }
        }
    } else {
        let front = s.drop_last();
        let r = ranked_insert(front, id, order);
        let last = s.last();
        inserting_by_rank(front, id, order, x);
        contains_last(s);
        contains_last(r.push(last));
        assert(r.push(last).drop_last() =~= r);
        assert forall|i: int, j: int| 0 <= i < j < r.push(last).len() implies rank(
            order,
            #[trigger] r.push(last)[i],
        ) <= rank(order, #[trigger] r.push(last)[j]) by {
            if j == r.len() {
                assert(r.contains(r[i]));
                inserting_by_rank(front, id, order, r[i]);
                if front.contains(r[i]) {
                    let k = choose|k: int| 0 <= k < front.len() && front[k] == r[i];
                    assert(s[k] == r[i]);
                    assert(s[s.len() - 1] == last);
                }
            }
        }
    }
}

proof fn ordering_by_rank(s: Seq<Seq<char>>, order: Seq<Seq<char>>, x: Seq<char>)
    ensures
        in_rank(ranked(s, order), order),
        ranked(s, order).contains(x) <==> s.contains(x),
    decreases s.len(),
{
    if s.len() > 0 {
        ordering_by_rank(s.drop_last(), order, x);
        inserting_by_rank(ranked(s.drop_last(), order), s.last(), order, x);
        contains_last(s);
    }
}

/// A project that lists no worktrees gets all those that name it as their
/// parent, and no others; what stood first in the order stays first. One that
/// lists some keeps its list.
pub proof fn worktrees_find_their_parent(
    d: DataView,
    clear: bool,
    wsl: WslView,
    i: int,
    x: Seq<char>,
    a: int,
    b: int,
)
    requires
        0 <= i < d.projects.len(),
        project_ids(d.projects).no_duplicates(),
    ensures
        ({
            let p = d.projects[i];
            let kids = validated(d, clear, wsl).projects[i].worktree_ids;
            &&& p.worktree_ids.len() > 0 ==> kids == p.worktree_ids
            &&& p.worktree_ids.len() == 0 ==> {
                &&& kids.contains(x) <==> exists|j: int|
                    0 <= j < d.projects.len() && (#[trigger] d.projects[j]).id == x
                        && d.projects[j].worktree_info is Some && (
                    d.projects[j].worktree_info->0).parent_project_id == p.id
                &&& 0 <= a < b < kids.len() && position(d.project_order, kids[a]) is Some
                    && position(d.project_order, kids[b]) is Some ==> position(
                    d.project_order,
                    kids[a],
                )->0 <= position(d.project_order, kids[b])->0
            }
        }),
{
    let ps = loaded_projects(d.projects, clear, wsl);
    let p = d.projects[i];
    if claimed_before(ps, i) {
        let j = choose|j: int|
            0 <= j < i && #[trigger] ps[j].id == ps[i].id && ps[j].worktree_ids.len() == 0;
        assert(project_ids(d.projects)[j] == project_ids(d.projects)[i]);
        assert(false);
    }
    if p.worktree_ids.len() == 0 {
        named_children_hold(ps, p.id, x);
        ordering_by_rank(named_children(ps, p.id), d.project_order, x);
        let kids = validated(d, clear, wsl).projects[i].worktree_ids;
        if 0 <= a < b < kids.len() {
            assert(rank(d.project_order, kids[a]) <= rank(d.project_order, kids[b]));
            position_is_first(d.project_order, kids[a]);
            position_is_first(d.project_order, kids[b]);
        }
        if exists|j: int|
            0 <= j < d.projects.len() && (#[trigger] d.projects[j]).id == x
                && d.projects[j].worktree_info is Some && (
            d.projects[j].worktree_info->0).parent_project_id == p.id {
            let j = choose|j: int|
                0 <= j < d.projects.len() && (#[trigger] d.projects[j]).id == x
                    && d.projects[j].worktree_info is Some && (
                d.projects[j].worktree_info->0).parent_project_id == p.id;
            assert(ps[j].id == x);
        }
        if exists|j: int|
            0 <= j < ps.len() && (#[trigger] ps[j]).id == x && ps[j].worktree_info is Some && (
            ps[j].worktree_info->0).parent_project_id == p.id {
            let j = choose|j: int|
                0 <= j < ps.len() && (#[trigger] ps[j]).id == x && ps[j].worktree_info is Some && (
                ps[j].worktree_info->0).parent_project_id == p.id;
            assert(d.projects[j].id == x);
        }
    }
}

proof fn held_by_a_folder(fs: Seq<FolderView>, x: Seq<char>)
    ensures
        held_projects(fs).contains(x) <==> exists|i: int|
            0 <= i < fs.len() && (#[trigger] fs[i]).project_ids.contains(x),
    decreases fs.len(),
{
    if fs.len() > 0 {
        let front = fs.drop_last();
        held_by_a_folder(front, x);
        held_by_either(held_projects(front), fs.last().project_ids, x);
        if exists|i: int| 0 <= i < front.len() && (#[trigger] front[i]).project_ids.contains(x) {
            let i = choose|i: int|
                0 <= i < front.len() && (#[trigger] front[i]).project_ids.contains(x);
            assert(fs[i] == front[i]);
        }
        if exists|i: int| 0 <= i < fs.len() && (#[trigger] fs[i]).project_ids.contains(x) {
            let i = choose|i: int| 0 <= i < fs.len() && (#[trigger] fs[i]).project_ids.contains(x);
            if i < front.len() {
                assert(front[i] == fs[i]);
            }
        }
        if fs.last().project_ids.contains(x) {
            assert(fs[fs.len() - 1].project_ids.contains(x));
        }
    }
}

proof fn completing_adds_the_rest(
    order: Seq<Seq<char>>,
    ids: Seq<Seq<char>>,
    placed: Seq<Seq<char>>,
    n: nat,
    x: Seq<char>,
)
    requires
        n <= ids.len(),
    ensures
        completed(order, ids, placed, n).contains(x) <==> order.contains(x) || ids.take(
            n as int,
        ).contains(x) && !placed.contains(x),
    decreases n,
{
    if n == 0 {
        assert(ids.take(0) =~= Seq::<Seq<char>>::empty());
    } else {
        let m = (n - 1) as nat;
        completing_adds_the_rest(order, ids, placed, m, x);
        let front = completed(order, ids, placed, m);
        contains_last(ids.take(n as int));
        assert(ids.take(n as int).drop_last() =~= ids.take(n - 1));
        assert(ids.take(n as int).last() == ids[n - 1]);
        contains_last(front.push(ids[n - 1]));
        assert(front.push(ids[n - 1]).drop_last() =~= front);
    }
}

/// Loading moves nothing: an entry of the order stays in it where it is still
/// there and no project's worktree, and a folder keeps its projects likewise.
/// The only ones that come in are projects that stood nowhere.
pub proof fn loading_keeps_places(d: DataView, clear: bool, wsl: WslView, x: Seq<char>, k: int)
    ensures
        ({
            let v = validated(d, clear, wsl);
            let child = listed_children(v.projects).contains(x);
            &&& v.folders.len() == d.folders.len()
            &&& 0 <= k < d.folders.len() ==> {
                &&& v.folders[k].id == d.folders[k].id
                &&& v.folders[k].name == d.folders[k].name
                &&& v.folders[k].project_ids.contains(x) <==> {
                    &&& d.folders[k].project_ids.contains(x)
                    &&& !child
                    &&& has_project(d.projects, x)
                }
            }
            &&& v.project_order.contains(x) <==> {
                &&& !child
                &&& has_project(d.projects, x) || folder_ids(d.folders).contains(x)
                &&& d.project_order.contains(x) || has_project(d.projects, x) && !exists|j: int|
                    0 <= j < d.folders.len() && (#[trigger] d.folders[j]).project_ids.contains(x)
            }
        }),
{
    let v = validated(d, clear, wsl);
    let ps = with_children_listed(loaded_projects(d.projects, clear, wsl), d.project_order);
    let children = listed_children(ps);
    let pids = project_ids(ps);
    let fids = folder_ids(d.folders);
    assert(pids =~= project_ids(d.projects));
    let order = sifted(d.project_order, children, false);
    let folders = folders_sifted(d.folders, children, false);
    let placed = held_projects(folders) + children;
    let full = completed(order, pids, placed, pids.len());
    sifted_members(d.project_order, children, false);
    completing_adds_the_rest(order, pids, placed, pids.len(), x);
    assert(pids.take(pids.len() as int) =~= pids);
    held_by_either(held_projects(folders), children, x);
    held_by_a_folder(folders, x);
    sifted_members(full, pids + fids, true);
    held_by_either(pids, fids, x);
    assert forall|j: int| 0 <= j < d.folders.len() implies (
    #[trigger] folders[j]).project_ids.contains(x) == (d.folders[j].project_ids.contains(x)
        && !children.contains(x)) by {
        sifted_members(d.folders[j].project_ids, children, false);
    }
    if 0 <= k < d.folders.len() {
        assert(folders[k].project_ids.contains(x) == (d.folders[k].project_ids.contains(x)
            && !children.contains(x)));
        sifted_members(folders[k].project_ids, pids, true);
    }
    if exists|j: int| 0 <= j < folders.len() && (#[trigger] folders[j]).project_ids.contains(x) {
        let j = choose|j: int|
            0 <= j < folders.len() && (#[trigger] folders[j]).project_ids.contains(x);
        assert(d.folders[j].project_ids.contains(x));
    }
    if !children.contains(x) && exists|j: int|
        0 <= j < d.folders.len() && (#[trigger] d.folders[j]).project_ids.contains(x) {
        let j = choose|j: int|
            0 <= j < d.folders.len() && (#[trigger] d.folders[j]).project_ids.contains(x);
        assert(folders[j].project_ids.contains(x));
    }
}

/// A window shows after loading what it showed before: nothing that is still
/// there appears, disappears or changes its width.
pub proof fn loading_keeps_the_windows(d: DataView, clear: bool, wsl: WslView, x: Seq<char>)
    requires
        has_project(d.projects, x),
    ensures
        ({
            let v = validated(d, clear, wsl).main_window;
            let w = d.main_window;
            &&& v.id == w.id
            &&& v.hidden_project_ids.contains(x) == w.hidden_project_ids.contains(x)
            &&& lookup(v.project_widths, x) == lookup(w.project_widths, x)
            &&& v.os_bounds == w.os_bounds
            &&& v.project_width_scale == w.project_width_scale
            &&& w.folder_filter is Some && folder_ids(d.folders).contains(w.folder_filter->0)
                ==> v.folder_filter == w.folder_filter
        }),
{
    let ps = with_children_listed(loaded_projects(d.projects, clear, wsl), d.project_order);
    assert(project_ids(ps) =~= project_ids(d.projects));
    lookup_after_sift(d.main_window.project_widths, project_ids(d.projects), true, x);
}

/// The checkout that holds a path is the deepest of those registered: no other
/// that holds it lies deeper, and one is found where any holds it.
pub proof fn the_deepest_checkout_holds_the_path(
    windows: bool,
    roots: Seq<Seq<char>>,
    path: Seq<char>,
    k: int,
)
    requires
        0 <= k < roots.len(),
    ensures
        match registered_root(windows, roots, path) {
            Some(r) => {
                &&& roots.contains(r)
                &&& within(windows, path, r)
                &&& within(windows, path, roots[k]) ==> parts(windows, roots[k]).len() <= parts(
                    windows,
                    r,
                ).len()
            },
            None => !within(windows, path, roots[k]),
        },
{
    deepest_of_the_first(windows, roots, path, roots.len(), k);
}

proof fn deepest_of_the_first(
    windows: bool,
    roots: Seq<Seq<char>>,
    path: Seq<char>,
    n: nat,
    k: int,
)
    requires
        n <= roots.len(),
    ensures
        match deepest_root(windows, roots, path, n) {
            Some(i) => {
                &&& 0 <= i < n
                &&& within(windows, path, roots[i])
                &&& 0 <= k < n && within(windows, path, roots[k]) ==> parts(windows, roots[k]).len()
                    <= parts(windows, roots[i]).len()
            },
            None => 0 <= k < n ==> !within(windows, path, roots[k]),
        },
    decreases n,
{
    if n > 0 {
        deepest_of_the_first(windows, roots, path, (n - 1) as nat, k);
    }
}

proof fn dropped_rows_are_found(d: DataView, ids: Seq<Seq<char>>, n: nat, x: Seq<char>)
    requires
        n <= ids.len(),
        !ids.contains(x),
    ensures
        match project_in(d.projects, x) {
            Some(p) => {
                let q = project_in(rows_dropped(d, ids, n).projects, x);
                &&& q is Some
                &&& q->0 == ProjectView { worktree_ids: (q->0).worktree_ids, ..p }
            },
            None => project_in(rows_dropped(d, ids, n).projects, x) is None,
        },
    decreases n,
{
    if n > 0 {
        dropped_rows_are_found(d, ids, (n - 1) as nat, x);
        assert(ids[n - 1] != x);
        crate::actions::view_laws::deleting_leaves_the_others_alone(
            rows_dropped(d, ids, (n - 1) as nat),
            ids[n - 1],
            x,
        );
        let e = rows_dropped(d, ids, (n - 1) as nat);
        row_dropped_is_found(e, ids[n - 1], x);
    }
}

proof fn row_dropped_is_found(d: DataView, id: Seq<char>, other: Seq<char>)
    requires
        other != id,
    ensures
        match project_in(d.projects, other) {
            Some(p) => project_in(row_dropped(d, id).projects, other) == Some(
                ProjectView { worktree_ids: without(p.worktree_ids, id), ..p },
            ),
            None => project_in(row_dropped(d, id).projects, other) is None,
        },
{
    let f = IdFilterView::NotId(id);
    let kept = kept_rows(d.projects, f);
    kept_rows_are_found(d.projects, f, other);
    let rest = row_dropped(d, id).projects;
    assert(project_ids(rest) =~= project_ids(kept));
    position_is_first(project_ids(kept), other);
}

/// A project that is still on disk comes through a look at the disk unharmed: it
/// keeps its name, its path, its panes and its terminals. One whose creation was
/// interrupted is finished, and has panes.
pub proof fn projects_on_disk_are_kept(d: DataView, f: FactsView, i: int)
    requires
        0 <= i < d.projects.len(),
        project_ids(d.projects).no_duplicates(),
        !stale(backfilled_row(d.projects, i, f), f),
    ensures
        ({
            let p = d.projects[i];
            let q = project_in(synced(d, f).projects, p.id);
            &&& q is Some
            &&& (q->0).name == p.name
            &&& (q->0).path == p.path
            &&& (q->0).terminal_names == p.terminal_names
            &&& (q->0).service_terminals == p.service_terminals
            &&& (q->0).hook_terminals == p.hook_terminals
            &&& p.layout is Some ==> (q->0).layout == p.layout
            &&& !p.is_creating ==> (q->0).layout == p.layout
            &&& p.is_creating ==> (q->0).layout is Some
            &&& !(q->0).is_creating
        }),
{
    let p = d.projects[i];
    let ps = backfilled(d.projects, f);
    assert(project_ids(ps) =~= project_ids(d.projects));
    let gone = stale_ids(ps, f, ps.len());
    let e = DataView { projects: ps, ..d };
    only_stale_projects_go(d, f, i);
    stale_ids_are_stale(ps, f, p.id, ps.len());
    if gone.contains(p.id) {
        let j = choose|j: int| 0 <= j < ps.len() && (#[trigger] ps[j]).id == p.id && stale(ps[j], f);
        assert(project_ids(ps)[j] == project_ids(ps)[i]);
        assert(false);
    }
    position_is_first(project_ids(ps), p.id);
    assert(project_ids(ps)[i] == p.id);
    assert(project_in(ps, p.id) == Some(ps[i]));
    dropped_rows_are_found(e, gone, gone.len(), p.id);
    let rest = swept(d, f).projects;
    assert(project_ids(finished_rows(rest, f)) =~= project_ids(rest));
    position_is_first(project_ids(rest), p.id);
}

/// A worktree is dropped exactly where its checkout is gone; another project
/// only where its creation was interrupted and left nothing that is whole.
pub proof fn projects_go_for_cause(p: ProjectView, f: FactsView)
    ensures
        stale(p, f) <==> match p.worktree_info {
            Some(wt) => !f.existing.contains(
                if wt.worktree_path.len() > 0 {
                    wt.worktree_path
                } else {
                    p.path
                },
            ),
            None => p.is_creating && !(f.existing.contains(p.path) && f.complete.contains(p.path)),
        },
{
}

proof fn tree_sessions(
    l: LayoutView,
    project: Option<ShellView>,
    global: ShellView,
    wsl: WslView,
)
    ensures
        keys_of(layout_teardowns(l, project, global, wsl)) == terminal_ids(l),
    decreases l, 0nat,
{
    match l {
        LayoutView::Terminal { terminal_id, .. } => {
            assert(keys_of(layout_teardowns(l, project, global, wsl)) =~= terminal_ids(l));
        },
        LayoutView::Split { children, .. } => {
            tree_sessions_below(children, project, global, wsl, children.len());
        },
        LayoutView::Tabs { children, .. } => {
            tree_sessions_below(children, project, global, wsl, children.len());
        },
    }
}

proof fn tree_sessions_below(
    cs: Seq<LayoutView>,
    project: Option<ShellView>,
    global: ShellView,
    wsl: WslView,
    n: nat,
)
    requires
        n <= cs.len(),
    ensures
        keys_of(layout_teardowns_in(cs, project, global, wsl, n)) == terminal_ids_in(cs, n),
    decreases cs, n,
{
    if n == 0 {
        assert(keys_of(layout_teardowns_in(cs, project, global, wsl, n)) =~= terminal_ids_in(cs, n));
    } else {
        tree_sessions_below(cs, project, global, wsl, (n - 1) as nat);
        tree_sessions(cs[n - 1], project, global, wsl);
        assert(keys_of(layout_teardowns_in(cs, project, global, wsl, n)) =~= keys_of(
            layout_teardowns_in(cs, project, global, wsl, (n - 1) as nat),
        ) + keys_of(layout_teardowns(cs[n - 1], project, global, wsl)));
    }
}

/// The sessions of a project are those of all its terminals: the ones in its
/// panes, its services' and its hooks'.
pub proof fn every_terminal_has_its_session(p: ProjectView, global: ShellView, wsl: WslView)
    ensures
        keys_of(project_teardowns(p, global, wsl)) == opt_terminal_ids(p.layout) + values_of(
            p.service_terminals,
        ) + keys_of(p.hook_terminals),
{
    if let Some(l) = p.layout {
        tree_sessions(l, p.default_shell, global, wsl);
    }
    assert(keys_of(project_teardowns(p, global, wsl)) =~= opt_terminal_ids(p.layout) + values_of(
        p.service_terminals,
    ) + keys_of(p.hook_terminals));
}

proof fn sessions_of_the_listed(
    ps: Seq<ProjectView>,
    ids: Seq<Seq<char>>,
    global: ShellView,
    wsl: WslView,
    n: nat,
    t: Seq<char>,
)
    requires
        n <= ps.len(),
    ensures
        keys_of(listed_teardowns(ps, ids, global, wsl, n)).contains(t) <==> exists|i: int|
            0 <= i < n && ids.contains((#[trigger] ps[i]).id) && owned_terminals(ps[i]).contains(t),
    decreases n,
{
    if n == 0 {
        assert(keys_of(listed_teardowns(ps, ids, global, wsl, n)) =~= Seq::<Seq<char>>::empty());
    } else {
        let m = (n - 1) as nat;
        sessions_of_the_listed(ps, ids, global, wsl, m, t);
        let front = listed_teardowns(ps, ids, global, wsl, m);
        let own = project_teardowns(ps[n - 1], global, wsl);
        every_terminal_has_its_session(ps[n - 1], global, wsl);
        assert(keys_of(front + own) =~= keys_of(front) + keys_of(own));
        held_by_either(keys_of(front), keys_of(own), t);
        if exists|i: int|
            0 <= i < n && ids.contains((#[trigger] ps[i]).id) && owned_terminals(ps[i]).contains(t) {
            let i = choose|i: int|
                0 <= i < n && ids.contains((#[trigger] ps[i]).id) && owned_terminals(
                    ps[i],
                ).contains(t);
            if i < m {
                assert(ids.contains(ps[i].id));
            }
        }
    }
}

/// The sessions that are torn down are those of all terminals of the projects
/// that were dropped, but for those that a project that stays has too.
pub proof fn dropped_sessions_are_torn_down(
    d: DataView,
    f: FactsView,
    global: ShellView,
    t: Seq<char>,
)
    requires
        project_ids(d.projects).no_duplicates(),
    ensures
        keys_of(leftover_sessions(d, f, global)).contains(t) <==> {
            &&& exists|i: int|
                0 <= i < d.projects.len() && stale(
                    #[trigger] backfilled_row(d.projects, i, f),
                    f,
                ) && owned_terminals(d.projects[i]).contains(t)
            &&& !all_owned_terminals(swept(d, f).projects, swept(d, f).projects.len()).contains(t)
        },
{
    let ps = backfilled(d.projects, f);
    assert(project_ids(ps) =~= project_ids(d.projects));
    let gone = stale_ids(ps, f, ps.len());
    let listed = listed_teardowns(ps, gone, global, f.wsl, ps.len());
    let all = sessions_once(listed);
    let rest = swept(d, f).projects;
    let held = all_owned_terminals(rest, rest.len());
    dropping_held_sessions(all, held);
    ordering_sessions(listed);
    sorted_once_members(keys_of(listed));
    sifted_members(keys_of(all), held, false);
    sessions_of_the_listed(ps, gone, global, f.wsl, ps.len(), t);
    if exists|i: int|
        0 <= i < ps.len() && gone.contains((#[trigger] ps[i]).id) && owned_terminals(
            ps[i],
        ).contains(t) {
        let i = choose|i: int|
            0 <= i < ps.len() && gone.contains((#[trigger] ps[i]).id) && owned_terminals(
                ps[i],
            ).contains(t);
        stale_ids_are_stale(ps, f, ps[i].id, ps.len());
        let j = choose|j: int|
            0 <= j < ps.len() && (#[trigger] ps[j]).id == ps[i].id && stale(ps[j], f);
        assert(project_ids(ps)[i] == project_ids(ps)[j]);
        assert(stale(backfilled_row(d.projects, i, f), f));
    }
    if exists|i: int|
        0 <= i < d.projects.len() && stale(#[trigger] backfilled_row(d.projects, i, f), f)
            && owned_terminals(d.projects[i]).contains(t) {
        let i = choose|i: int|
            0 <= i < d.projects.len() && stale(#[trigger] backfilled_row(d.projects, i, f), f)
                && owned_terminals(d.projects[i]).contains(t);
        assert(ps[i] == backfilled_row(d.projects, i, f));
        stale_ids_are_stale(ps, f, ps[i].id, ps.len());
        assert(gone.contains(ps[i].id));
    }
}

/// A worktree whose checkout is not recorded gets the deepest of the checkouts
/// that its repository has registered and that hold it, unless another project
/// is there; one whose checkout is recorded keeps it.
pub proof fn checkouts_are_found_again(
    d: DataView,
    f: FactsView,
    i: int,
    roots: Seq<Seq<char>>,
    k: int,
)
    requires
        0 <= i < d.projects.len(),
        d.projects[i].worktree_info is Some,
        project_in(d.projects, (d.projects[i].worktree_info->0).parent_project_id) is Some,
        (project_in(
            d.projects,
            (d.projects[i].worktree_info->0).parent_project_id,
        )->0).path.len() > 0,
        lookup(
            f.registries,
            (project_in(
                d.projects,
                (d.projects[i].worktree_info->0).parent_project_id,
            )->0).path,
        ) == Some(roots),
        0 <= k < roots.len(),
        within(f.wsl.windows, d.projects[i].path, roots[k]),
        forall|m: int|
            0 <= m < roots.len() && m != k && within(
                f.wsl.windows,
                d.projects[i].path,
                #[trigger] roots[m],
            ) ==> parts(f.wsl.windows, roots[m]).len() < parts(f.wsl.windows, roots[k]).len(),
    ensures
        ({
            let wt = d.projects[i].worktree_info->0;
            let row = backfilled_row(d.projects, i, f);
            let taken = exists|j: int|
                0 <= j < d.projects.len() && j != i && same_place(
                    f.wsl.windows,
                    #[trigger] d.projects[j].path,
                    roots[k],
                );
            &&& row.worktree_info is Some
            &&& wt.worktree_path.len() > 0 ==> row == d.projects[i]
            &&& wt.worktree_path.len() == 0 && !taken ==> (row.worktree_info->0).worktree_path
                == roots[k]
            &&& taken ==> row == d.projects[i]
            &&& (row.worktree_info->0).branch_name == wt.branch_name
            &&& row.path == d.projects[i].path
        }),
{
    deepest_is_the_one(f.wsl.windows, roots, d.projects[i].path, k);
}

proof fn deepest_is_the_one(windows: bool, roots: Seq<Seq<char>>, path: Seq<char>, k: int)
    requires
        0 <= k < roots.len(),
        within(windows, path, roots[k]),
        forall|m: int|
            0 <= m < roots.len() && m != k && within(windows, path, #[trigger] roots[m]) ==> parts(
                windows,
                roots[m],
            ).len() < parts(windows, roots[k]).len(),
    ensures
        registered_root(windows, roots, path) == Some(roots[k]),
{
    deepest_of_the_first(windows, roots, path, roots.len(), k);
    let i = deepest_root(windows, roots, path, roots.len())->0;
    if i != k {
        assert(parts(windows, roots[i]).len() < parts(windows, roots[k]).len());
    }
}

/// A session ends where it runs: in its distribution where its shell, or else
/// the project's, or else the common one, is of a distribution; otherwise here.
pub proof fn sessions_end_where_they_run(
    s: ShellView,
    project: Option<ShellView>,
    global: ShellView,
    wsl: WslView,
)
    ensures
        !wsl.windows ==> route_of(s, project, global, wsl) == RouteView::Host,
        wsl.windows && s is Wsl ==> route_of(s, project, global, wsl) is Wsl && route_of(
            s,
            project,
            global,
            wsl,
        )->distro == s->distro,
        !(s is Wsl) && !(s is Default) ==> route_of(s, project, global, wsl) == RouteView::Host,
        s is Default && project is Some && project->0 is Wsl && wsl.windows ==> route_of(
            s,
            project,
            global,
            wsl,
        ) is Wsl && route_of(s, project, global, wsl)->distro == project->0->distro,
        s is Default && project is Some && !(project->0 is Wsl) ==> route_of(
            s,
            project,
            global,
            wsl,
        ) == RouteView::Host,
        s is Default && project is None && global is Wsl && wsl.windows ==> route_of(
            s,
            project,
            global,
            wsl,
        ) is Wsl && route_of(s, project, global, wsl)->distro == global->distro,
        s is Default && project is None && !(global is Wsl) ==> route_of(s, project, global, wsl)
            == RouteView::Host,
{
}

} // verus!
