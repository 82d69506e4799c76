//! What a close that is taken back leaves behind: nothing. And what counts as a
//! change.

use crate::actions::move_ops::{pane_moved, tab_group_moved};
use crate::actions::project_open::{
    color_overridden, colored, hook_terminals_cleared, pane_added, with_pane,
};
use crate::actions::project_rows::{deleted, pending_finished, project_moved};
use crate::actions::project_view::{hidden_toggled, project_toggled};
use crate::actions::soft_close::{
    close_undone, closed_layout, owner_remembered, pane_back, pane_closed, pending_at,
    pending_elsewhere, pending_here, pending_ids, project_drained, reaped, reaps_a_pane,
    remembered_name, restored_layout, soft_closed, trimmed_to,
};
use crate::actions::soft_close_flow::{
    all_finalized, any_finalized, project_in_id, with_project_lookup,
};
use crate::actions::worktree_close::commands_run;
use crate::actions::worktree_removal::removal_prepared;
use crate::actions::worktree_rows::worktree_reordered;
use crate::collections::{
    contains_last, lookup, lookup_after_sift, lookup_after_store, sifted_members, without_members,
};
use crate::focus::FocusView;
use crate::layout::{
    DropZone, LayoutView, ShellView, children_of, command_terminal, opt_terminal_ids, slot_path,
    terminal_ids, terminal_ids_in,
};
use crate::layout_frames::{representable, terminals_are_found};
use crate::layout_terminals::structure_of;
use crate::persistence::load_laws::clearing_keeps_only_what_is_kept;
use crate::state::{DataView, FolderColor, ProjectView, WindowId};
use crate::workspace::{CxView, PendingView, WorkspaceView, used, ws_layout, ws_project};
use crate::wsl::WslView;
use vstd::prelude::*;

verus! {

/// A close that is undone at once leaves everything as it was: the panes are
/// where they were, the terminal has its name, its process runs on, nothing is
/// pending, and no other project has changed.
pub proof fn undoing_at_once_restores(
    w: WorkspaceView,
    f: FocusView,
    id: Seq<char>,
    path: Seq<usize>,
    t: Seq<char>,
    toast: Seq<char>,
    now: u64,
    other: Seq<char>,
)
    requires
        ws_project(w, id) is Some,
        ws_layout(w, id) is Some,
        slot_path(ws_layout(w, id)->0, Some(t)) == Some(path),
        pane_closed(w, id, path) is Some,
        pending_at(w, t) is None,
    ensures
        ({
            let closed = soft_closed(w, id, path, t, toast);
            let i = pending_at(closed, t);
            let u = close_undone(closed, f, i->0, t, now);
            &&& i is Some
            &&& ws_layout(u.0, id) == ws_layout(w, id)
            &&& lookup((ws_project(u.0, id)->0).terminal_names, t) == lookup(
                (ws_project(w, id)->0).terminal_names,
                t,
            )
            &&& terminal_ids(ws_layout(w, id)->0).contains(other) && opt_terminal_ids(
                ws_layout(closed, id),
            ).contains(other) ==> lookup((ws_project(u.0, id)->0).terminal_names, other) == lookup(
                (ws_project(w, id)->0).terminal_names,
                other,
            )
            &&& (ws_project(u.0, id)->0).name == (ws_project(w, id)->0).name
            &&& (ws_project(u.0, id)->0).path == (ws_project(w, id)->0).path
            &&& u.0.pending_closes == w.pending_closes
            &&& u.0.kills == w.kills
            &&& u.1.focused == Some((id, path))
            &&& other != id ==> ws_project(u.0, other) == ws_project(w, other)
        }),
{
    let p = ws_project(w, id)->0;
    let l = p.layout->0;
    let ps = w.data.projects;
    project_in_id(ps, id);
    let held = owner_remembered(w, id, t);
    assert(held.data == w.data);
    let rest = closed_layout(l, path)->0;
    let q = trimmed_to(p, rest);
    with_project_lookup(ps, id, q, id);
    with_project_lookup(ps, id, q, other);
    let closed = soft_closed(w, id, path, t, toast);
    assert(ws_project(closed, id) == Some(q));
    let n = w.pending_closes.len() as int;
    let ids = pending_ids(closed.pending_closes);
    assert(ids =~= pending_ids(w.pending_closes).push(t));
    assert(ids.drop_last() =~= pending_ids(w.pending_closes));
    assert(pending_at(closed, t) == Some(n));
    assert(closed.pending_closes.remove(n) =~= w.pending_closes);
    lookup_after_store(w.owners, t, (id, lookup(p.terminal_names, t)), t);
    assert(remembered_name(closed, t) == lookup(p.terminal_names, t));
    let back = pane_back(closed, n, t);
    let r = ProjectView {
        layout: Some(l),
        terminal_names: match lookup(p.terminal_names, t) {
            Some(name) => crate::collections::stored(q.terminal_names, t, name),
            None => q.terminal_names,
        },
        ..q
    };
    with_project_lookup(closed.data.projects, id, r, id);
    with_project_lookup(closed.data.projects, id, r, other);
    assert(ws_project(back, id) == Some(r));
    lookup_after_sift(p.terminal_names, opt_terminal_ids(rest), true, t);
    lookup_after_sift(p.terminal_names, opt_terminal_ids(rest), true, other);
    if let Some(name) = lookup(p.terminal_names, t) {
        lookup_after_store(q.terminal_names, t, name, t);
        lookup_after_store(q.terminal_names, t, name, other);
    }
    let z = ProjectView { last_activity_at: Some(now), ..r };
    with_project_lookup(back.data.projects, id, z, id);
    with_project_lookup(back.data.projects, id, z, other);
}

/// A terminal that comes back has the name that was remembered for it, and no
/// other project changes.
pub proof fn an_undo_brings_the_name_back(
    w: WorkspaceView,
    f: FocusView,
    i: int,
    t: Seq<char>,
    now: u64,
    name: Seq<char>,
    other: Seq<char>,
)
    requires
        pending_at(w, t) == Some(i),
        ws_project(w, w.pending_closes[i].project_id) is Some,
        remembered_name(w, t) == Some(name),
    ensures
        ({
            let id = w.pending_closes[i].project_id;
            let u = close_undone(w, f, i, t, now);
            &&& lookup((ws_project(u.0, id)->0).terminal_names, t) == Some(name)
            &&& u.0.pending_closes == w.pending_closes.remove(i)
            &&& other != id ==> ws_project(u.0, other) == ws_project(w, other)
        }),
{
    let pending = w.pending_closes[i];
    let id = pending.project_id;
    let p = ws_project(w, id)->0;
    project_in_id(w.data.projects, id);
    let r = ProjectView {
        layout: restored_layout(p.layout, pending, t),
        terminal_names: crate::collections::stored(p.terminal_names, t, name),
        ..p
    };
    with_project_lookup(w.data.projects, id, r, id);
    with_project_lookup(w.data.projects, id, r, other);
    lookup_after_store(p.terminal_names, t, name, t);
    let back = pane_back(w, i, t);
    assert(ws_project(back, id) == Some(r));
    let z = ProjectView { last_activity_at: Some(now), ..r };
    with_project_lookup(back.data.projects, id, z, id);
    with_project_lookup(back.data.projects, id, z, other);
}

/// A pane that comes back beside others is neither minimized nor detached, and it
/// stands last.
pub proof fn restored_panes_show(current: Option<LayoutView>, p: PendingView, t: Seq<char>)
    requires
        current != p.post_close_layout,
        p.pre_close_layout is Some,
        representable(p.pre_close_layout->0),
        terminal_ids(p.pre_close_layout->0).contains(t),
    ensures
        ({
            let l = restored_layout(current, p, t);
            let pane = if current is Some {
                children_of(l->0).last()
            } else {
                l->0
            };
            &&& l is Some
            &&& pane is Terminal
            &&& pane->terminal_id == Some(t)
            &&& !pane->minimized
            &&& !pane->detached
        }),
{
    terminals_are_found(p.pre_close_layout->0, t);
}

/// A project that is drained waits for none of its closes, and nothing is
/// remembered of their terminals; the closes of other projects wait on, with all
/// that is remembered of them.
pub proof fn drained_projects_are_forgotten(w: WorkspaceView, id: Seq<char>, t: Seq<char>)
    ensures
        ({
            let v = project_drained(w, id);
            let here = exists|i: int|
                0 <= i < w.pending_closes.len() && (#[trigger] w.pending_closes[i]).project_id == id
                    && w.pending_closes[i].terminal_id == t;
            &&& here ==> lookup(v.owners, t) is None
            &&& !here ==> lookup(v.owners, t) == lookup(w.owners, t)
            &&& v.data == w.data
            &&& v.kills == w.kills
        }),
{
    the_pending_are_found(w.pending_closes, id, t);
    lookup_after_sift(w.owners, pending_here(w.pending_closes, id), false, t);
}

proof fn the_pending_are_found(ps: Seq<PendingView>, id: Seq<char>, t: Seq<char>)
    ensures
        pending_here(ps, id).contains(t) <==> exists|i: int|
            0 <= i < ps.len() && (#[trigger] ps[i]).project_id == id && ps[i].terminal_id == t,
    decreases ps.len(),
{
    if ps.len() > 0 {
        let front = ps.drop_last();
        let ids = pending_here(front, id);
        the_pending_are_found(front, id, t);
        contains_last(ids.push(ps.last().terminal_id));
        assert(ids.push(ps.last().terminal_id).drop_last() =~= ids);
        if exists|i: int|
            0 <= i < front.len() && (#[trigger] front[i]).project_id == id && front[i].terminal_id
                == t {
            let i = choose|i: int|
                0 <= i < front.len() && (#[trigger] front[i]).project_id == id
                    && front[i].terminal_id == t;
            assert(ps[i] == front[i]);
        }
        if exists|i: int|
            0 <= i < ps.len() && (#[trigger] ps[i]).project_id == id && ps[i].terminal_id == t {
            let i = choose|i: int|
                0 <= i < ps.len() && (#[trigger] ps[i]).project_id == id && ps[i].terminal_id == t;
            if i < front.len() {
                assert(front[i] == ps[i]);
            }
        }
        if ps.last().project_id == id && ps.last().terminal_id == t {
            assert(ps[ps.len() - 1].project_id == id);
        }
    }
}

proof fn empty_panes_add_no_terminal(layout: Option<LayoutView>, node: LayoutView)
    requires
        terminal_ids(node).len() == 0,
    ensures
        terminal_ids(with_pane(layout, node)) == opt_terminal_ids(layout),
{
    let none = Seq::<Seq<char>>::empty();
    assert(terminal_ids(node) =~= none);
    if let Some(l) = layout {
        reveal_with_fuel(terminal_ids_in, 3);
        let cs = seq![l, node];
        assert(cs[0] == l);
        assert(cs[1] == node);
        assert(terminal_ids_in(cs, 0) =~= none);
        assert(terminal_ids_in(cs, 1) =~= terminal_ids_in(cs, 0) + terminal_ids(cs[0]));
        assert(terminal_ids_in(cs, 2) =~= terminal_ids_in(cs, 1) + terminal_ids(cs[1]));
        assert(none + terminal_ids(l) =~= terminal_ids(l));
        assert(terminal_ids(l) + none =~= terminal_ids(l));
    }
}

/// Each command that a hook wants to run gets a pane of its own in the project,
/// the last one behind all; no terminal goes.
pub proof fn commands_get_their_panes(
    w: WorkspaceView,
    x: CxView,
    id: Seq<char>,
    cs: Seq<(Seq<char>, Seq<(Seq<char>, Seq<char>)>)>,
    n: nat,
)
    requires
        n <= cs.len(),
        ws_project(w, id) is Some,
    ensures
        ({
            let v = commands_run(w, x, id, cs, n).0;
            let l = ws_layout(v, id);
            &&& ws_project(v, id) is Some
            &&& opt_terminal_ids(l) == opt_terminal_ids(ws_layout(w, id))
            &&& n > 0 ==> {
                let pane = if n > 1 || ws_layout(w, id) is Some {
                    children_of(l->0).last()
                } else {
                    l->0
                };
                &&& l is Some
                &&& pane is Terminal
                &&& pane->terminal_id is None
                &&& pane->shell_type == (ShellView::Command {
                    command: cs[n - 1].0,
                    env: cs[n - 1].1,
                })
            }
        }),
    decreases n,
{
    if n > 0 {
        let m = (n - 1) as nat;
        commands_get_their_panes(w, x, id, cs, m);
        let before = commands_run(w, x, id, cs, m).0;
        let node = command_terminal(cs[n - 1].0, cs[n - 1].1);
        let p = ws_project(before, id)->0;
        project_in_id(before.data.projects, id);
        let q = ProjectView { layout: Some(with_pane(p.layout, node)), ..p };
        with_project_lookup(before.data.projects, id, q, id);
        assert(terminal_ids(node) =~= Seq::<Seq<char>>::empty());
        empty_panes_add_no_terminal(p.layout, node);
    }
}

/// A restored terminal that turns out dead counts as a change exactly where its
/// pane goes.
pub proof fn reaping_tells_of_a_change(w: WorkspaceView, i: int, t: Seq<char>)
    requires
        w.data_version < u64::MAX,
    ensures
        reaps_a_pane(w, i, t) ==> reaped(w, i, t).data_version > w.data_version,
        !reaps_a_pane(w, i, t) ==> reaped(w, i, t).data == w.data,
{
}

/// Closes that expire tell of a change exactly where one of them was still
/// waiting: then its process ends, and otherwise nothing has happened.
pub proof fn expiring_tells_of_a_change(w: WorkspaceView, ids: Seq<Seq<char>>, n: nat)
    requires
        n <= ids.len(),
    ensures
        any_finalized(w, ids, n) ==> all_finalized(w, ids, n).kills.len() > w.kills.len(),
        !any_finalized(w, ids, n) ==> all_finalized(w, ids, n) == w,
        all_finalized(w, ids, n).kills.len() >= w.kills.len(),
    decreases n,
{
    if n > 0 {
        expiring_tells_of_a_change(w, ids, (n - 1) as nat);
    }
}

/// A worktree that is about to be removed keeps its panes, but no terminal is left
/// in them; it is marked as closing, and none of its closes is waited for. No other
/// project changes.
pub proof fn removals_empty_the_panes(w: WorkspaceView, id: Seq<char>, other: Seq<char>)
    requires
        ws_project(w, id) is Some,
    ensures
        ({
            let v = removal_prepared(w, id);
            let p = ws_project(w, id)->0;
            let q = ws_project(v, id);
            &&& q is Some
            &&& (q->0).layout is Some == p.layout is Some
            &&& opt_terminal_ids((q->0).layout).len() == 0
            &&& (q->0).is_closing
            &&& v.closing.contains(id)
            &&& (q->0).name == p.name
            &&& (q->0).path == p.path
            &&& v.pending_closes == pending_elsewhere(w.pending_closes, id)
            &&& other != id ==> ws_project(v, other) == ws_project(w, other)
        }),
{
    let p = ws_project(w, id)->0;
    project_in_id(w.data.projects, id);
    let q = ProjectView {
        layout: match p.layout {
            Some(l) => Some(structure_of(l)),
            None => None,
        },
        ..p
    };
    with_project_lookup(w.data.projects, id, q, id);
    with_project_lookup(w.data.projects, id, q, other);
    let ps = crate::state::with_project(w.data.projects, id, q);
    let z = ProjectView { is_closing: true, ..q };
    with_project_lookup(ps, id, z, id);
    with_project_lookup(ps, id, z, other);
    if let Some(l) = p.layout {
        clearing_keeps_only_what_is_kept(l, Seq::empty());
        sifted_members(terminal_ids(l), Seq::empty(), true);
        let left = terminal_ids(structure_of(l));
        if left.len() > 0 {
            assert(left.contains(left[0]));
        }
    }
}

/// Every change of a workspace is counted, so that it is saved.
pub proof fn changes_are_counted(
    w: WorkspaceView,
    f: FocusView,
    id: Seq<char>,
    path: Seq<usize>,
    t: Seq<char>,
    toast: Seq<char>,
    window: WindowId,
    i: int,
    now: u64,
)
    requires
        w.data_version < u64::MAX,
    ensures
        pane_closed(w, id, path) is Some ==> soft_closed(w, id, path, t, toast).data_version
            > w.data_version,
        close_undone(w, f, i, t, now).0.data_version > w.data_version,
        hidden_toggled(w, window, id).data_version > w.data_version,
        project_toggled(w, window, id).data_version > w.data_version,
        deleted(w, id).data_version > w.data_version,
        removal_prepared(w, id).data_version > w.data_version,
        ws_project(w, id) is Some ==> used(w, id, now).data_version > w.data_version,
{
}

/// Every change of a project's panes is counted, so that it is saved.
pub proof fn changes_of_panes_are_counted(
    w: WorkspaceView,
    f: FocusView,
    src: Seq<char>,
    t: Seq<char>,
    tgt: Seq<char>,
    on: Seq<char>,
    zone: DropZone,
    path: Seq<usize>,
    index: Option<usize>,
    node: LayoutView,
    now: u64,
)
    requires
        w.data_version < u64::MAX,
    ensures
        match pane_moved(w, f, src, t, tgt, on, zone, now) {
            Some(r) => r.0.data_version > w.data_version,
            None => true,
        },
        match tab_group_moved(w, f, src, t, tgt, path, index, now) {
            Some(r) => r.0.data_version > w.data_version,
            None => true,
        },
        ws_project(w, src) is Some ==> pane_added(w, src, node).data_version > w.data_version,
{
}

/// Every change of a project is counted, so that it is saved.
pub proof fn changes_of_projects_are_counted(
    w: WorkspaceView,
    id: Seq<char>,
    worktree: Seq<char>,
    to: usize,
    color: FolderColor,
    wsl: WslView,
)
    requires
        w.data_version < u64::MAX,
        ws_project(w, id) is Some,
    ensures
        colored(w, id, color).data_version > w.data_version,
        (ws_project(w, id)->0).worktree_info is Some ==> color_overridden(
            w,
            id,
            Some(color),
        ).data_version > w.data_version,
        pending_finished(w, id, wsl).data_version > w.data_version,
        (ws_project(w, id)->0).hook_terminals.len() > 0 ==> hook_terminals_cleared(
            w,
            id,
        ).data_version > w.data_version,
        match worktree_reordered(w, id, worktree, to) {
            Some(v) => v.data_version > w.data_version,
            None => true,
        },
{
}

/// A project that is moved in the order is in no folder any more; the others stay
/// in theirs, and no project changes.
pub proof fn moved_projects_leave_their_folder(
    d: DataView,
    id: Seq<char>,
    index: usize,
    k: int,
    x: Seq<char>,
)
    requires
        0 <= k < d.folders.len(),
    ensures
        ({
            let e = project_moved(d, id, index);
            &&& e.folders.len() == d.folders.len()
            &&& e.folders[k].project_ids.contains(x) <==> d.folders[k].project_ids.contains(x) && x
                != id
            &&& e.folders[k].name == d.folders[k].name
            &&& e.folders[k].id == d.folders[k].id
            &&& e.projects == d.projects
        }),
{
    without_members(d.folders[k].project_ids, id);
}

} // verus!
