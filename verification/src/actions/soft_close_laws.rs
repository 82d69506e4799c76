//! What closing a terminal, softly or not, and undoing it does to the panes.

use crate::actions::soft_close::{
    after_close, close_undone, closed_layout, finalized, focus_after_close, owner_remembered,
    pane_back, pane_closed, path_back, pending_at, pending_elsewhere, pending_here, pending_ids,
    reaped, restored_layout, shown_again, soft_closed, trimmed_to, undo_restores, without_pending,
};
use crate::actions::soft_close_flow::{
    all_finalized, deadline_after, expired, project_in_id, soft_close_toast, with_project_lookup,
};
use crate::collections::{contains_last, lookup, lookup_after_sift, position_is_first};
use crate::focus::FocusView;
use crate::layout::{
    LayoutView, children_of, node_at, opt_terminal_ids, removed, slot_path, terminal_ids,
    terminal_ids_in,
};
use crate::layout_drops::nodes_can_be_removed;
use crate::layout_frames::{held_by_either, representable, terminals_are_found};
use crate::layout_laws::{ids_in_prefix, removing_takes_only_the_node, terminal_bag};
use crate::layout_terminals::{appended, visible_path};
use crate::state::ProjectView;
use crate::toast::{ToastActionStyle, ToastLevel};
use crate::workspace::{PendingView, WorkspaceView, ws_layout, ws_project};
use vstd::prelude::*;

verus! {

/// Whether the layout from before a close holds every terminal of the one from
/// after it.
pub open spec fn nothing_new(p: PendingView) -> bool {
    forall|x: Seq<char>| #[trigger]
        opt_terminal_ids(p.post_close_layout).contains(x) ==> opt_terminal_ids(
            p.pre_close_layout,
        ).contains(x)
}

proof fn held_is_counted(s: Seq<Seq<char>>, t: Seq<char>)
    ensures
        s.contains(t) <==> s.to_multiset().count(t) > 0,
{
    s.to_multiset_ensures();
}

/// Closing a pane takes its terminals away and no others.
pub proof fn closing_takes_only_the_pane(l: LayoutView, path: Seq<usize>, x: Seq<char>)
    requires
        closed_layout(l, path) is Some,
    ensures
        node_at(l, path) is Some,
        opt_terminal_ids(closed_layout(l, path)->0).to_multiset().count(x) + terminal_ids(
            node_at(l, path)->0,
        ).to_multiset().count(x) == terminal_ids(l).to_multiset().count(x),
        opt_terminal_ids(closed_layout(l, path)->0).contains(x) ==> terminal_ids(l).contains(x),
        terminal_ids(l).contains(x) ==> opt_terminal_ids(closed_layout(l, path)->0).contains(x)
            || terminal_ids(node_at(l, path)->0).contains(x),
{
    if path.len() == 0 {
        Seq::<Seq<char>>::empty().to_multiset_ensures();
        assert(Seq::<Seq<char>>::empty().to_multiset().len() == 0);
    } else {
        removing_takes_only_the_node(l, path);
        assert(terminal_bag(removed(l, path)->0).add(terminal_bag(node_at(l, path)->0)).count(x)
            == terminal_bag(l).count(x));
    }
    held_is_counted(terminal_ids(l), x);
    held_is_counted(opt_terminal_ids(closed_layout(l, path)->0), x);
    held_is_counted(terminal_ids(node_at(l, path)->0), x);
}

/// A pane can be closed exactly where it is there.
pub proof fn panes_close_where_they_are(w: WorkspaceView, id: Seq<char>, path: Seq<usize>)
    ensures
        pane_closed(w, id, path) is Some <==> match ws_layout(w, id) {
            Some(l) => node_at(l, path) is Some,
            None => false,
        },
{
    if let Some(l) = ws_layout(w, id) {
        if path.len() > 0 {
            if node_at(l, path) is Some {
                nodes_can_be_removed(l, path);
            }
            if removed(l, path) is Some {
                removing_takes_only_the_node(l, path);
            }
        }
    }
}

/// A close takes the pane out of its project, keeps the other terminals with
/// their names, forgets the names of what is gone, and leaves every other
/// project alone. It is counted as a change.
pub proof fn a_close_takes_the_pane_out(
    w: WorkspaceView,
    id: Seq<char>,
    path: Seq<usize>,
    x: Seq<char>,
    other: Seq<char>,
)
    requires
        ws_layout(w, id) is Some,
        node_at(ws_layout(w, id)->0, path) is Some,
    ensures
        ({
            let l = ws_layout(w, id)->0;
            let node = node_at(l, path)->0;
            let after = after_close(w, id, path);
            let left = opt_terminal_ids(ws_layout(after, id));
            &&& ws_project(after, id) is Some
            &&& left.to_multiset().count(x) + terminal_ids(node).to_multiset().count(x)
                == terminal_ids(l).to_multiset().count(x)
            &&& path.len() == 0 ==> ws_layout(after, id) is None
            &&& lookup((ws_project(after, id)->0).terminal_names, x) == if left.contains(x) {
                lookup((ws_project(w, id)->0).terminal_names, x)
            } else {
                None
            }
            &&& lookup((ws_project(after, id)->0).hidden_terminals, x) == if left.contains(x) {
                lookup((ws_project(w, id)->0).hidden_terminals, x)
            } else {
                None
            }
            &&& other != id ==> ws_project(after, other) == ws_project(w, other)
            &&& w.data_version < u64::MAX ==> after.data_version == w.data_version + 1
            &&& after.pending_closes == w.pending_closes
            &&& after.kills == w.kills
        }),
{
    panes_close_where_they_are(w, id, path);
    let p = ws_project(w, id)->0;
    let l = p.layout->0;
    let rest = closed_layout(l, path)->0;
    project_in_id(w.data.projects, id);
    with_project_lookup(w.data.projects, id, trimmed_to(p, rest), id);
    with_project_lookup(w.data.projects, id, trimmed_to(p, rest), other);
    closing_takes_only_the_pane(l, path, x);
    lookup_after_sift(p.terminal_names, opt_terminal_ids(rest), true, x);
    lookup_after_sift(p.hidden_terminals, opt_terminal_ids(rest), true, x);
}

/// A soft close closes the pane as any close does, but remembers what it takes
/// to bring it back, and ends no process.
pub proof fn a_soft_close_can_be_undone(
    w: WorkspaceView,
    id: Seq<char>,
    path: Seq<usize>,
    t: Seq<char>,
    toast: Seq<char>,
)
    ensures
        ({
            let closed = soft_closed(w, id, path, t, toast);
            let p = closed.pending_closes.last();
            &&& closed.pending_closes.drop_last() == w.pending_closes
            &&& p.terminal_id == t
            &&& p.project_id == id
            &&& p.toast_id == toast
            &&& p.pre_close_layout == ws_layout(w, id)
            &&& p.post_close_layout == ws_layout(closed, id)
            &&& nothing_new(p)
            &&& closed.kills == w.kills
            &&& closed.data == after_close(w, id, path).data
            &&& ws_project(w, id) is Some ==> lookup(closed.owners, t) == Some(
                (id, lookup((ws_project(w, id)->0).terminal_names, t)),
            )
        }),
{
    let remembered = owner_remembered(w, id, t);
    let closed = soft_closed(w, id, path, t, toast);
    assert(closed.pending_closes.drop_last() =~= w.pending_closes);
    let p = closed.pending_closes.last();
    project_in_id(w.data.projects, id);
    if let Some(project) = ws_project(w, id) {
        crate::collections::lookup_after_store(
            w.owners,
            t,
            (id, lookup(project.terminal_names, t)),
            t,
        );
        if let Some(l) = project.layout {
            if let Some(rest) = closed_layout(l, path) {
                with_project_lookup(w.data.projects, id, trimmed_to(project, rest), id);
                assert(p.post_close_layout == rest);
                assert forall|x: Seq<char>| #[trigger]
                    opt_terminal_ids(p.post_close_layout).contains(x) implies opt_terminal_ids(
                    p.pre_close_layout,
                ).contains(x) by {
                    closing_takes_only_the_pane(l, path, x);
                }
            }
        }
    }
    assert(pane_closed(remembered, id, path) is Some == pane_closed(w, id, path) is Some);
}

proof fn appending_keeps_terminals(root: LayoutView, node: LayoutView, x: Seq<char>)
    ensures
        terminal_ids(appended(root, node)).contains(x) <==> terminal_ids(root).contains(x)
            || terminal_ids(node).contains(x),
{
    let cs = children_of(root);
    match root {
        LayoutView::Terminal { .. } => {
            reveal_with_fuel(terminal_ids_in, 3);
            let both = seq![root, node];
            held_by_either(terminal_ids(root), terminal_ids(node), x);
            assert(terminal_ids_in(both, 2) =~= terminal_ids(root) + terminal_ids(node));
        },
        _ => {
            let more = cs.push(node);
            ids_in_prefix(cs, more, cs.len());
            held_by_either(terminal_ids_in(cs, cs.len()), terminal_ids(node), x);
            assert(terminal_ids_in(more, more.len()) == terminal_ids_in(more, cs.len())
                + terminal_ids(more[cs.len() as int]));
        },
    }
}

/// Undoing the soft close of a terminal whose process lives brings it back,
/// whatever happened to the layout since: the layout holds the terminal again,
/// and every one that it held; the undo says so; and the terminal has the focus.
pub proof fn an_undo_brings_the_terminal_back(
    w: WorkspaceView,
    f: FocusView,
    i: int,
    t: Seq<char>,
    now: u64,
    x: Seq<char>,
)
    requires
        pending_at(w, t) == Some(i),
        ws_project(w, w.pending_closes[i].project_id) is Some,
        w.pending_closes[i].pre_close_layout is Some,
        representable(w.pending_closes[i].pre_close_layout->0),
        terminal_ids(w.pending_closes[i].pre_close_layout->0).contains(t),
        nothing_new(w.pending_closes[i]),
    ensures
        ({
            let id = w.pending_closes[i].project_id;
            let u = close_undone(w, f, i, t, now);
            &&& undo_restores(w, t, true)
            &&& ws_layout(u.0, id) is Some
            &&& terminal_ids(ws_layout(u.0, id)->0).contains(t)
            &&& opt_terminal_ids(ws_layout(w, id)).contains(x) ==> terminal_ids(
                ws_layout(u.0, id)->0,
            ).contains(x)
            &&& u.1.focused is Some
            &&& (u.1.focused->0).0 == id
            &&& representable(ws_layout(u.0, id)->0) ==> {
                let n = node_at(ws_layout(u.0, id)->0, (u.1.focused->0).1);
                n is Some && n->0 is Terminal && n->0->terminal_id == Some(t)
            }
            &&& !u.1.modal
            &&& u.0.kills == w.kills
        }),
{
    let p = w.pending_closes[i];
    let id = p.project_id;
    let l = p.pre_close_layout->0;
    let project = ws_project(w, id)->0;
    project_in_id(w.data.projects, id);
    terminals_are_found(l, t);
    let node = node_at(l, slot_path(l, Some(t))->0)->0;
    let again = shown_again(node);
    assert(terminal_ids(again) =~= seq![t]);
    assert(terminal_ids(again)[0] == t);
    let new = restored_layout(project.layout, p, t);
    if project.layout != p.post_close_layout {
        match project.layout {
            Some(root) => {
                appending_keeps_terminals(root, again, t);
                appending_keeps_terminals(root, again, x);
            },
            None => {},
        }
    }
    assert(new is Some && terminal_ids(new->0).contains(t));
    let back = pane_back(w, i, t);
    let name = crate::actions::soft_close::remembered_name(w, t);
    let fixed = ProjectView {
        layout: new,
        terminal_names: match name {
            Some(n) => crate::collections::stored(project.terminal_names, t, n),
            None => project.terminal_names,
        },
        ..project
    };
    with_project_lookup(w.data.projects, id, fixed, id);
    assert(ws_project(back, id) == Some(fixed));
    terminals_are_found(new->0, t);
    assert(path_back(w, i, t) is Some);
    with_project_lookup(
        back.data.projects,
        id,
        ProjectView { last_activity_at: Some(now), ..fixed },
        id,
    );
}

/// Making a soft close final ends the process of that terminal and of no other,
/// leaves the other closes pending, and changes no pane.
pub proof fn finalizing_ends_that_process(w: WorkspaceView, t: Seq<char>)
    ensures
        match finalized(w, t) {
            Some(u) => {
                &&& pending_ids(w.pending_closes).contains(t)
                &&& u.kills.len() == w.kills.len() + 1
                &&& u.kills.drop_last() == w.kills
                &&& u.kills.last() == t
                &&& u.pending_closes.len() + 1 == w.pending_closes.len()
                &&& u.data == w.data
            },
            None => !pending_ids(w.pending_closes).contains(t),
        },
{
    position_is_first(pending_ids(w.pending_closes), t);
    if let Some(u) = finalized(w, t) {
        assert(u.kills.drop_last() =~= w.kills);
    }
}

/// The closes of a project that are drained are all of them, and no others.
pub proof fn draining_takes_the_projects_closes(
    ps: Seq<PendingView>,
    id: Seq<char>,
    p: PendingView,
)
    ensures
        pending_elsewhere(ps, id).contains(p) <==> ps.contains(p) && p.project_id != id,
        ps.contains(p) && p.project_id == id ==> pending_here(ps, id).contains(p.terminal_id),
        pending_here(ps, id).len() + pending_elsewhere(ps, id).len() == ps.len(),
    decreases ps.len(),
{
    if ps.len() > 0 {
        let front = ps.drop_last();
        let last = ps.last();
        draining_takes_the_projects_closes(front, id, p);
        assert(ps =~= front.push(last));
        assert(ps.contains(p) <==> front.contains(p) || last == p) by {
            if front.contains(p) {
                let k = choose|k: int| 0 <= k < front.len() && front[k] == p;
                assert(ps[k] == p);
            }
            if ps.contains(p) {
                let k = choose|k: int| 0 <= k < ps.len() && ps[k] == p;
                if k < front.len() {
                    assert(front[k] == p);
                }
            }
            if last == p {
                assert(ps[ps.len() - 1] == p);
            }
        }
        if last.project_id == id {
            let e = pending_here(front, id);
            contains_last(e.push(last.terminal_id));
            assert(e.push(last.terminal_id).drop_last() =~= e);
        } else {
            let e = pending_elsewhere(front, id);
            assert(e.push(last).contains(p) <==> e.contains(p) || last == p) by {
                if e.contains(p) {
                    let k = choose|k: int| 0 <= k < e.len() && e[k] == p;
                    assert(e.push(last)[k] == p);
                }
                if e.push(last).contains(p) {
                    let k = choose|k: int| 0 <= k < e.push(last).len() && e.push(last)[k] == p;
                    if k < e.len() {
                        assert(e[k] == p);
                    }
                }
                if last == p {
                    assert(e.push(last)[e.len() as int] == p);
                }
            }
        }
    }
}

/// A terminal's grace period is over once its deadline has come, and not before.
pub proof fn deadlines_are_kept(s: Seq<(Seq<char>, u64)>, now: u64, t: Seq<char>)
    ensures
        expired(s, now).contains(t) <==> exists|i: int|
            0 <= i < s.len() && (#[trigger] s[i]).0 == t && s[i].1 <= now,
    decreases s.len(),
{
    if s.len() > 0 {
        let front = s.drop_last();
        let last = s.last();
        deadlines_are_kept(front, now, t);
        let e = expired(front, now);
        contains_last(e.push(last.0));
        assert(e.push(last.0).drop_last() =~= e);
        if exists|i: int| 0 <= i < front.len() && (#[trigger] front[i]).0 == t && front[i].1 <= now {
            let i = choose|i: int|
                0 <= i < front.len() && (#[trigger] front[i]).0 == t && front[i].1 <= now;
            assert(s[i].0 == t && s[i].1 <= now);
        }
        if exists|i: int| 0 <= i < s.len() && (#[trigger] s[i]).0 == t && s[i].1 <= now {
            let i = choose|i: int| 0 <= i < s.len() && (#[trigger] s[i]).0 == t && s[i].1 <= now;
            if i < front.len() {
                assert(front[i].0 == t && front[i].1 <= now);
            }
        }
        if last.0 == t && last.1 <= now {
            assert(s[s.len() - 1].0 == t);
        }
    }
}

/// The grace period lasts as many seconds as it was given, in milliseconds.
pub proof fn grace_is_given(now: u64, grace: u32)
    requires
        now + grace * 1000 <= u64::MAX,
    ensures
        deadline_after(now, grace) - now == grace * 1000,
{
}

/// Every close that is still pending when it is made final has its process
/// ended.
pub proof fn expired_closes_end(w: WorkspaceView, ids: Seq<Seq<char>>, n: nat, k: int)
    requires
        0 <= k < n <= ids.len(),
        pending_ids(w.pending_closes).contains(ids[k]),
        forall|j: int| 0 <= j < k ==> ids[j] != ids[k],
    ensures
        all_finalized(w, ids, n).kills.contains(ids[k]),
    decreases n,
{
    let before = all_finalized(w, ids, (n - 1) as nat);
    finalizing_ends_that_process(before, ids[n - 1]);
    if k < n - 1 {
        expired_closes_end(w, ids, (n - 1) as nat, k);
        let j = choose|j: int| 0 <= j < before.kills.len() && before.kills[j] == ids[k];
        if let Some(u) = finalized(before, ids[n - 1]) {
            assert(u.kills.drop_last()[j] == ids[k]);
            assert(u.kills[j] == ids[k]);
        }
    } else {
        others_stay_pending(w, ids, k as nat, ids[k]);
        let u = finalized(before, ids[k])->0;
        assert(u.kills[u.kills.len() - 1] == ids[k]);
    }
}

proof fn others_stay_pending(w: WorkspaceView, ids: Seq<Seq<char>>, n: nat, t: Seq<char>)
    requires
        n <= ids.len(),
        pending_ids(w.pending_closes).contains(t),
        forall|j: int| 0 <= j < n ==> ids[j] != t,
    ensures
        pending_ids(all_finalized(w, ids, n).pending_closes).contains(t),
    decreases n,
{
    if n > 0 {
        others_stay_pending(w, ids, (n - 1) as nat, t);
        let before = all_finalized(w, ids, (n - 1) as nat);
        if let Some(i) = pending_at(before, ids[n - 1]) {
            let all = pending_ids(before.pending_closes);
            position_is_first(all, ids[n - 1]);
            let k = choose|k: int| 0 <= k < all.len() && all[k] == t;
            let left = pending_ids(without_pending(before, i).pending_closes);
            if k < i {
                assert(left[k] == t);
            } else {
                assert(left[k - 1] == t);
            }
        }
    }
}

/// Whether every group of `l` has a child, and every tab group an active one.
pub open spec fn filled(l: LayoutView) -> bool
    decreases l,
{
    match l {
        LayoutView::Terminal { .. } => true,
        LayoutView::Split { children, .. } => children.len() > 0 && forall|i: int|
            0 <= i < children.len() ==> filled(#[trigger] children[i]),
        LayoutView::Tabs { children, active_tab } => active_tab < children.len() && forall|i: int|
            0 <= i < children.len() ==> filled(#[trigger] children[i]),
    }
}

/// What shows of a tree is a terminal: down the active tabs.
pub proof fn a_terminal_shows(l: LayoutView)
    requires
        filled(l),
    ensures
        node_at(l, visible_path(l)) is Some,
        node_at(l, visible_path(l))->0 is Terminal,
        l is Tabs ==> visible_path(l)[0] == l->active_tab,
        l is Split ==> visible_path(l)[0] == 0,
    decreases l,
{
    match l {
        LayoutView::Terminal { .. } => {},
        LayoutView::Split { children, .. } => {
            assert(filled(children[0]));
            a_terminal_shows(children[0]);
            assert(visible_path(l).skip(1) =~= visible_path(children[0]));
        },
        LayoutView::Tabs { children, active_tab } => {
            let c = children[active_tab as int];
            assert(filled(c));
            a_terminal_shows(c);
            assert(visible_path(l).skip(1) =~= visible_path(c));
        },
    }
}

proof fn below_a_node(l: LayoutView, a: Seq<usize>, b: Seq<usize>)
    requires
        node_at(l, a) is Some,
    ensures
        node_at(l, a + b) == node_at(node_at(l, a)->0, b),
    decreases a.len(),
{
    if a.len() == 0 {
        assert(a + b =~= b);
    } else {
        below_a_node(children_of(l)[a[0] as int], a.skip(1), b);
        assert((a + b).skip(1) =~= a.skip(1) + b);
    }
}

proof fn nodes_are_filled(l: LayoutView, path: Seq<usize>)
    requires
        filled(l),
        node_at(l, path) is Some,
    ensures
        filled(node_at(l, path)->0),
    decreases path.len(),
{
    if path.len() > 0 {
        let c = children_of(l)[path[0] as int];
        assert(filled(c));
        nodes_are_filled(c, path.skip(1));
    }
}

/// The focus that a closed pane leaves goes to a terminal of the same project,
/// and stays in the group that the pane was in, where that is left.
pub proof fn a_sibling_gets_the_focus(
    w: WorkspaceView,
    f: FocusView,
    id: Seq<char>,
    path: Seq<usize>,
)
    requires
        path.len() > 0,
        ws_layout(w, id) is Some,
        node_at(ws_layout(w, id)->0, path) is Some,
        filled(ws_layout(after_close(w, id, path), id)->0),
    ensures
        ({
            let l = ws_layout(after_close(w, id, path), id)->0;
            let g = focus_after_close(w, f, id, path);
            let group = path.drop_last();
            &&& g.focused is Some
            &&& (g.focused->0).0 == id
            &&& node_at(l, (g.focused->0).1) is Some
            &&& node_at(l, (g.focused->0).1)->0 is Terminal
            &&& node_at(l, group) is Some ==> group.len() <= (g.focused->0).1.len()
                && (g.focused->0).1.take(group.len() as int) == group
        }),
{
    panes_close_where_they_are(w, id, path);
    let p = ws_project(w, id)->0;
    project_in_id(w.data.projects, id);
    let rest = closed_layout(p.layout->0, path)->0;
    with_project_lookup(w.data.projects, id, trimmed_to(p, rest), id);
    let l = ws_layout(after_close(w, id, path), id)->0;
    let group = path.drop_last();
    match node_at(l, group) {
        Some(n) => {
            nodes_are_filled(l, group);
            a_terminal_shows(n);
            below_a_node(l, group, visible_path(n));
            assert((group + visible_path(n)).take(group.len() as int) =~= group);
        },
        None => {
            a_terminal_shows(l);
        },
    }
}

/// A terminal that came back and turned out dead loses its pane; every other
/// terminal of its project stays.
pub proof fn reaping_takes_the_pane(w: WorkspaceView, i: int, t: Seq<char>, x: Seq<char>)
    requires
        0 <= i < w.restored_closes.len(),
        w.restored_closes[i].terminal_id == t,
        ws_layout(w, w.restored_closes[i].project_id) is Some,
        representable(ws_layout(w, w.restored_closes[i].project_id)->0),
        terminal_ids(ws_layout(w, w.restored_closes[i].project_id)->0).no_duplicates(),
    ensures
        ({
            let id = w.restored_closes[i].project_id;
            opt_terminal_ids(ws_layout(reaped(w, i, t), id)).contains(x) <==> x != t
                && terminal_ids(ws_layout(w, id)->0).contains(x)
        }),
{
    let id = w.restored_closes[i].project_id;
    let less = WorkspaceView { restored_closes: w.restored_closes.remove(i), ..w };
    let l = ws_layout(w, id)->0;
    terminals_are_found(l, t);
    if let Some(path) = slot_path(l, Some(t)) {
        let node = node_at(l, path)->0;
        assert(terminal_ids(node) =~= seq![t]);
        a_close_takes_the_pane_out(less, id, path, x, id);
        let left = opt_terminal_ids(ws_layout(reaped(w, i, t), id));
        held_is_counted(left, x);
        held_is_counted(terminal_ids(l), x);
        held_is_counted(seq![t], x);
        terminal_ids(l).lemma_multiset_has_no_duplicates();
        if x == t {
            assert(seq![t][0] == x);
            assert(terminal_ids(l).to_multiset().count(x) <= 1);
        } else {
            assert(!seq![t].contains(x));
        }
    }
}

/// The toast of a soft close offers to undo it and to close at once, each for
/// that terminal of that project, and names the project.
pub proof fn the_toast_offers_both(
    p: Option<ProjectView>,
    title: Option<Seq<char>>,
    cwd: Option<Seq<char>>,
    home: Option<Seq<char>>,
    project: Seq<char>,
    t: Seq<char>,
    command: Option<Seq<char>>,
    toast: Seq<char>,
    grace: u32,
)
    ensures
        ({
            let v = soft_close_toast(p, title, cwd, home, project, t, command, toast, grace);
            &&& v.id == Some(toast)
            &&& v.level == ToastLevel::Info
            &&& v.ttl == Some(grace as u64)
            &&& v.actions.len() == 2
            &&& v.actions[0].id == "soft-close-undo:"@ + project + ":"@ + t
            &&& v.actions[0].label == "Undo"@
            &&& v.actions[0].style == ToastActionStyle::Primary
            &&& v.actions[1].id == "soft-close-kill:"@ + project + ":"@ + t
            &&& v.actions[1].label == "Close now"@
            &&& v.actions[1].style == ToastActionStyle::Danger
            &&& p is Some && (p->0).name.len() > 0 ==> v.detail is Some && (p->0).name.is_prefix_of(
                v.detail->0,
            )
        }),
{
}

} // verus!
