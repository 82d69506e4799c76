//! What holds of projects and terminals that are given up again, and of lists
//! that are put in another order.

use crate::actions::project_laws::unknown_to;
use crate::actions::project_rows::{pending_dropped, row_added};
use crate::actions::soft_close::{reaped, restored_ids};
use crate::actions::worktree_rows::reordered;
use crate::collections::{contains_last, lookup, unkeyed, without};
use crate::rows::{IdFilterView, kept_rows};
use crate::state::{DataView, ProjectView, WindowId, WindowView, has_project, project_ids};
use crate::windows::{WindowEditView, edited_window};
use crate::workspace::WorkspaceView;
use vstd::prelude::*;

verus! {

/// Taking out what is not there changes nothing.
proof fn without_absent(s: Seq<Seq<char>>, id: Seq<char>)
    requires
        !s.contains(id),
    ensures
        without(s, id) == s,
    decreases s.len(),
{
    if s.len() > 0 {
        contains_last(s);
        without_absent(s.drop_last(), id);
        assert(s.drop_last().push(s.last()) =~= s);
    }
}

/// Forgetting a key that is not there changes nothing.
proof fn unkeyed_absent<A>(s: Seq<(Seq<char>, A)>, k: Seq<char>)
    requires
        lookup(s, k) is None,
    ensures
        unkeyed(s, k) == s,
    decreases s.len(),
{
    if s.len() > 0 {
        unkeyed_absent(s.drop_last(), k);
        assert(s.drop_last().push(s.last()) =~= s);
    }
}

/// Dropping a project that is not there changes nothing.
proof fn kept_rows_absent(ps: Seq<ProjectView>, id: Seq<char>)
    requires
        !project_ids(ps).contains(id),
    ensures
        kept_rows(ps, IdFilterView::NotId(id)) == ps,
    decreases ps.len(),
{
    if ps.len() > 0 {
        contains_last(project_ids(ps));
        assert(project_ids(ps).drop_last() =~= project_ids(ps.drop_last()));
        kept_rows_absent(ps.drop_last(), id);
        assert(ps.drop_last().push(ps.last()) =~= ps);
    }
}

/// A window that never heard of a project does not notice that it was hidden
/// and forgotten.
proof fn forgetting_unhides(w: WindowView, id: Seq<char>)
    requires
        unknown_to(w, id),
    ensures
        edited_window(w, WindowEditView::ForgetProject(id)) == w,
        edited_window(
            edited_window(w, WindowEditView::Hide(id)),
            WindowEditView::ForgetProject(id),
        ) == w,
{
    unkeyed_absent(w.project_widths, id);
    assert(w.hidden_project_ids.remove(id) =~= w.hidden_project_ids);
    assert(w.hidden_project_ids.insert(id).remove(id) =~= w.hidden_project_ids);
}

/// Rolling back a project that was registered before its directory was there
/// leaves the data as it was, where nothing spoke of its id before.
pub proof fn rolling_back_undoes_registering(d: DataView, row: ProjectView, window: WindowId)
    requires
        !has_project(d.projects, row.id),
        !d.project_order.contains(row.id),
        forall|i: int|
            0 <= i < d.folders.len() ==> !(#[trigger] d.folders[i]).project_ids.contains(row.id),
        unknown_to(d.main_window, row.id),
        forall|i: int|
            0 <= i < d.extra_windows.len() ==> unknown_to(#[trigger] d.extra_windows[i], row.id),
        lookup(d.service_panel_heights, row.id) is None,
        lookup(d.hook_panel_heights, row.id) is None,
    ensures
        pending_dropped(row_added(d, row, window), row.id) == d,
{
    let id = row.id;
    let added = row_added(d, row, window);
    let back = pending_dropped(added, id);
    assert(added.projects.drop_last() =~= d.projects);
    kept_rows_absent(d.projects, id);
    assert(back.projects == d.projects);
    assert(added.project_order.drop_last() =~= d.project_order);
    without_absent(d.project_order, id);
    assert(back.project_order == d.project_order);
    assert(back.folders =~= d.folders) by {
        assert forall|i: int| 0 <= i < d.folders.len() implies #[trigger] back.folders[i]
            == d.folders[i] by {
            without_absent(d.folders[i].project_ids, id);
        }
    }
    forgetting_unhides(d.main_window, id);
    assert(back.extra_windows =~= d.extra_windows) by {
        assert forall|i: int| 0 <= i < d.extra_windows.len() implies #[trigger]
        back.extra_windows[i] == d.extra_windows[i] by {
            forgetting_unhides(d.extra_windows[i], id);
        }
    }
    unkeyed_absent(d.service_panel_heights, id);
    unkeyed_absent(d.hook_panel_heights, id);
}

/// Putting a worktree elsewhere among its siblings keeps every one of them.
pub proof fn reordering_worktrees_keeps_them(ids: Seq<Seq<char>>, from: int, to: usize)
    requires
        0 <= from < ids.len(),
    ensures
        reordered(ids, from, to).to_multiset() == ids.to_multiset(),
{
    broadcast use vstd::seq_lib::group_to_multiset_ensures;

    let rest = ids.remove(from);
    let want = if to > from {
        to - 1
    } else {
        to as int
    };
    let at = if want < rest.len() {
        want
    } else {
        rest.len() as int
    };
    assert(rest.insert(at, ids[from]).to_multiset() =~= ids.to_multiset());
}

/// A terminal that came back and died is reaped once: after that nothing
/// waits for its death.
pub proof fn reaping_is_final(w: WorkspaceView, i: int, t: Seq<char>)
    requires
        0 <= i < w.restored_closes.len(),
        w.restored_closes[i].terminal_id == t,
        restored_ids(w.restored_closes).no_duplicates(),
    ensures
        !restored_ids(reaped(w, i, t).restored_closes).contains(t),
{
    let ids = restored_ids(w.restored_closes);
    let after = restored_ids(w.restored_closes.remove(i));
    assert(after =~= ids.remove(i));
    assert(ids[i] == t);
    assert(reaped(w, i, t).restored_closes == w.restored_closes.remove(i));
    if after.contains(t) {
        let k = choose|k: int| 0 <= k < after.len() && after[k] == t;
        let k0 = if k < i {
            k
        } else {
            k + 1
        };
        assert(ids[k0] == t && k0 != i);
    }
}

} // verus!
