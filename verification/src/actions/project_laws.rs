//! What holds of every deletion and every move of a project.

use crate::actions::project_rows::{project_deleted, project_moved, rehomed, row_added};
use crate::collections::{
    contains_last, lookup, lookup_after_remove, sifted, sifted_members, without, without_members,
};
use crate::persistence::worktrees::row_dropped;
use crate::rows::{IdFilterView, kept_rows, kept_rows_ids};
use crate::state::{
    DataView, ProjectView, WindowId, WindowView, has_project, project_ids, window_in,
};
use crate::visibility::hidden_in;
use crate::workspace::child_ids;
use vstd::prelude::*;

verus! {

/// Whether the window says nothing of the project `id`.
pub open spec fn unknown_to(w: WindowView, id: Seq<char>) -> bool {
    !w.hidden_project_ids.contains(id) && lookup(w.project_widths, id) is None
}

proof fn rehoming_members(
    order: Seq<Seq<char>>,
    ids: Seq<Seq<char>>,
    ps: Seq<ProjectView>,
    n: nat,
)
    requires
        n <= ids.len(),
    ensures
        forall|x: Seq<char>| #[trigger]
            rehomed(order, ids, ps, n).contains(x) <==> order.contains(x) || (has_project(ps, x)
                && ids.take(n as int).contains(x)),
    decreases n,
{
    if n == 0 {
        assert(ids.take(0) =~= Seq::<Seq<char>>::empty());
    } else {
        rehoming_members(order, ids, ps, (n - 1) as nat);
        let front = rehomed(order, ids, ps, (n - 1) as nat);
        let taken = ids.take(n as int);
        contains_last(taken);
        assert(taken.drop_last() =~= ids.take(n - 1));
        assert(taken.last() == ids[n - 1]);
        if has_project(ps, ids[n - 1]) && !front.contains(ids[n - 1]) {
            contains_last(front.push(ids[n - 1]));
            assert(front.push(ids[n - 1]).drop_last() =~= front);
        }
    }
}

/// A deleted project leaves nothing behind: no row, no place in the order or in
/// a folder, no project that has it as a worktree, and nothing in any window.
pub proof fn deleting_leaves_no_reference(d: DataView, id: Seq<char>)
    ensures
        ({
            let e = project_deleted(d, id);
            &&& !has_project(e.projects, id)
            &&& !e.project_order.contains(id)
            &&& forall|i: int|
                0 <= i < e.folders.len() ==> !(#[trigger] e.folders[i]).project_ids.contains(id)
            &&& forall|i: int|
                0 <= i < e.projects.len() ==> !(#[trigger] e.projects[i]).worktree_ids.contains(id)
            &&& unknown_to(e.main_window, id)
            &&& forall|i: int|
                0 <= i < e.extra_windows.len() ==> unknown_to(#[trigger] e.extra_windows[i], id)
            &&& lookup(e.service_panel_heights, id) is None
            &&& lookup(e.hook_panel_heights, id) is None
        }),
{
    let rest = row_dropped(d, id);
    let kept = kept_rows(d.projects, IdFilterView::NotId(id));
    kept_rows_ids(d.projects, IdFilterView::NotId(id));
    assert(project_ids(rest.projects) =~= project_ids(kept));
    without_members(d.project_order, id);
    let orphans = child_ids(d.projects, id);
    rehoming_members(rest.project_order, orphans, rest.projects, orphans.len());
    let e = project_deleted(d, id);
    assert forall|i: int| 0 <= i < e.folders.len() implies !(#[trigger]
    e.folders[i]).project_ids.contains(id) by {
        without_members(d.folders[i].project_ids, id);
    }
    assert forall|i: int| 0 <= i < e.projects.len() implies !(#[trigger]
    e.projects[i]).worktree_ids.contains(id) by {
        without_members(kept[i].worktree_ids, id);
    }
    lookup_after_remove(d.main_window.project_widths, id, id);
    assert forall|i: int| 0 <= i < e.extra_windows.len() implies unknown_to(
        #[trigger] e.extra_windows[i],
        id,
    ) by {
        lookup_after_remove(d.extra_windows[i].project_widths, id, id);
    }
    lookup_after_remove(d.service_panel_heights, id, id);
    lookup_after_remove(d.hook_panel_heights, id, id);
}

/// The worktrees of a deleted project stay, and are listed in the order.
pub proof fn deleting_lists_the_worktrees(d: DataView, id: Seq<char>, child: Seq<char>)
    requires
        child_ids(d.projects, id).contains(child),
        has_project(d.projects, child),
        child != id,
    ensures
        has_project(project_deleted(d, id).projects, child),
        project_deleted(d, id).project_order.contains(child),
{
    let rest = row_dropped(d, id);
    let kept = kept_rows(d.projects, IdFilterView::NotId(id));
    kept_rows_ids(d.projects, IdFilterView::NotId(id));
    assert(project_ids(rest.projects) =~= project_ids(kept));
    let orphans = child_ids(d.projects, id);
    rehoming_members(rest.project_order, orphans, rest.projects, orphans.len());
    assert(orphans.take(orphans.len() as int) =~= orphans);
}

/// Deleting a project leaves every other project where it was.
pub proof fn deleting_keeps_the_others(d: DataView, id: Seq<char>, other: Seq<char>)
    requires
        other != id,
    ensures
        has_project(project_deleted(d, id).projects, other) == has_project(d.projects, other),
        d.project_order.contains(other) ==> project_deleted(d, id).project_order.contains(other),
{
    let rest = row_dropped(d, id);
    let kept = kept_rows(d.projects, IdFilterView::NotId(id));
    kept_rows_ids(d.projects, IdFilterView::NotId(id));
    assert(project_ids(rest.projects) =~= project_ids(kept));
    without_members(d.project_order, id);
    let orphans = child_ids(d.projects, id);
    rehoming_members(rest.project_order, orphans, rest.projects, orphans.len());
}

/// A moved project is at the position it was moved to, or last where that lies
/// beyond the order; and the order holds what it held before.
pub proof fn moving_puts_the_project_in_its_place(d: DataView, id: Seq<char>, index: usize)
    ensures
        ({
            let order = project_moved(d, id, index).project_order;
            let rest = sifted(d.project_order, seq![id] + child_ids(d.projects, id), false);
            let at = if index < rest.len() {
                index as int
            } else {
                rest.len() as int
            };
            &&& at < order.len()
            &&& order[at] == id
            &&& forall|x: Seq<char>| #[trigger]
                order.contains(x) <==> d.project_order.contains(x) || x == id
        }),
{
    let group = seq![id] + child_ids(d.projects, id);
    let rest = sifted(d.project_order, group, false);
    let went = sifted(d.project_order, group, true);
    let moving = seq![id] + without(went, id);
    let at = if index < rest.len() {
        index as int
    } else {
        rest.len() as int
    };
    let order = project_moved(d, id, index).project_order;
    assert(order[at] == moving[0]);
    sifted_members(d.project_order, group, false);
    sifted_members(d.project_order, group, true);
    without_members(went, id);
    assert(group[0] == id);
    assert(group.contains(id));
    assert forall|x: Seq<char>| order.contains(x) implies d.project_order.contains(x) || x == id by {
        let i = choose|i: int| 0 <= i < order.len() && order[i] == x;
        if i < at {
            assert(rest[i] == x);
            assert(rest.contains(x));
        } else if i < at + moving.len() {
            if i > at {
                assert(without(went, id)[i - at - 1] == x);
                assert(without(went, id).contains(x));
            }
        } else {
            assert(rest[i - moving.len()] == x);
            assert(rest.contains(x));
        }
    }
    assert forall|x: Seq<char>| d.project_order.contains(x) || x == id implies #[trigger]
        order.contains(x) by {
        if x == id {
            assert(order[at] == x);
        } else if group.contains(x) {
            assert(without(went, id).contains(x));
            let i = choose|i: int| 0 <= i < without(went, id).len() && without(went, id)[i] == x;
            assert(order[at + 1 + i] == x);
        } else {
            assert(rest.contains(x));
            let i = choose|i: int| 0 <= i < rest.len() && rest[i] == x;
            if i < at {
                assert(order[i] == x);
            } else {
                assert(order[i + moving.len()] == x);
            }
        }
    }
}

/// A new project shows in the window that it was added in and is hidden in
/// every other one.
pub proof fn a_new_project_shows_in_one_window(
    d: DataView,
    row: ProjectView,
    spawning: WindowId,
    window: WindowId,
)
    requires
        window_in(d, window) is Some,
        window_in(d, spawning) is Some,
        !hidden_in(d, spawning, row.id),
    ensures
        hidden_in(row_added(d, row, spawning), window, row.id) == (window != spawning),
{
    let e = row_added(d, row, spawning);
    match window {
        WindowId::Main => {},
        WindowId::Extra(x) => {
            crate::windows::extra_at_is_first(d.extra_windows, x);
            crate::windows::extra_at_is_first(e.extra_windows, x);
            same_positions(d.extra_windows, e.extra_windows, x);
        },
    }
}

/// Windows with the same ids are found at the same positions.
proof fn same_positions(a: Seq<WindowView>, b: Seq<WindowView>, id: u128)
    requires
        a.len() == b.len(),
        forall|i: int| 0 <= i < a.len() ==> (#[trigger] a[i]).id == b[i].id,
    ensures
        crate::state::extra_at(a, id) == crate::state::extra_at(b, id),
    decreases a.len(),
{
    if a.len() > 0 {
        assert forall|i: int| 0 <= i < a.drop_last().len() implies (#[trigger] a.drop_last()[i]).id
            == b.drop_last()[i].id by {
            assert(a.drop_last()[i] == a[i]);
        }
        same_positions(a.drop_last(), b.drop_last(), id);
        assert(a.last() == a[a.len() - 1]);
    }
}

} // verus!
