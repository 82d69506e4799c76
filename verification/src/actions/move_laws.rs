//! What moving panes and tabs, within a project and between two, does.

use crate::actions::move_ops::{child_of, handed_over, pane_moved, tab_group_moved, takeout};
use crate::actions::soft_close_flow::{project_in_id, with_project_lookup};
use crate::collections::{
    lookup, lookup_after_remove, lookup_after_sift, lookup_after_store, position_is_first,
    values_of,
};
use crate::focus::FocusView;
use crate::layout::{
    DropZone, LayoutView, children_of, node_at, opt_terminal_ids, slot_path, terminal_ids,
};
use crate::layout_drops::{
    a_dropped_pane_is_beside_the_other, a_moved_pane_is_beside_the_other,
    an_inserted_tab_shows_in_its_place, asked_place, dropped_beside,
    drops_land_where_the_terminal_is, nodes_can_be_removed, panes_move_where_both_are, shows_tab,
};
use crate::layout_frames::{representable, terminals_are_found};
use crate::layout_laws::{
    dropping_adds_only_the_node, extracting_splits_terminals, inserting_a_tab_adds_only_the_node,
    moving_a_pane_keeps_terminals, opt_terminal_bag, terminal_bag,
};
use crate::layout_moves::{dropped, extracted, moved_within, tab_inserted};
use crate::state::{ProjectView, project_at, project_ids, project_in};
use crate::workspace::{WorkspaceView, used, ws_layout, ws_project};
use vstd::prelude::*;

verus! {

/// Whether the focus is on the terminal `t` of the project `id`, whose layout
/// is `l`.
pub open spec fn focused_on(f: FocusView, id: Seq<char>, l: LayoutView, t: Seq<char>) -> bool {
    &&& f.focused is Some
    &&& (f.focused->0).0 == id
    &&& node_at(l, (f.focused->0).1) is Some
    &&& node_at(l, (f.focused->0).1)->0 is Terminal
    &&& node_at(l, (f.focused->0).1)->0->terminal_id == Some(t)
}

proof fn counts_tell(s: Seq<Seq<char>>, t: Seq<char>)
    ensures
        s.contains(t) <==> s.to_multiset().count(t) > 0,
{
    s.to_multiset_ensures();
}

proof fn using_keeps_projects(w: WorkspaceView, id: Seq<char>, now: u64, q: Seq<char>)
    ensures
        match ws_project(w, q) {
            Some(p) => ws_project(used(w, id, now), q) == Some(
                ProjectView {
                    last_activity_at: if q == id {
                        Some(now)
                    } else {
                        p.last_activity_at
                    },
                    ..p
                },
            ),
            None => ws_project(used(w, id, now), q) is None,
        },
{
    project_in_id(w.data.projects, id);
    project_in_id(w.data.projects, q);
    if let Some(p) = ws_project(w, id) {
        with_project_lookup(
            w.data.projects,
            id,
            ProjectView { last_activity_at: Some(now), ..p },
            q,
        );
    }
}

/// A pane is moved within its project exactly where it is dropped on another
/// one of the project. Then it is beside that one, on the side that it was
/// dropped on; the project has the terminals that it had; the pane has the
/// focus; and no other project changes.
pub proof fn a_pane_moves_within_its_project(
    w: WorkspaceView,
    f: FocusView,
    id: Seq<char>,
    t: Seq<char>,
    on: Seq<char>,
    zone: DropZone,
    now: u64,
    other: Seq<char>,
)
    requires
        ws_layout(w, id) is Some,
        representable(ws_layout(w, id)->0),
        terminal_ids(ws_layout(w, id)->0).no_duplicates(),
    ensures
        ({
            let l = ws_layout(w, id)->0;
            let r = pane_moved(w, f, id, t, id, on, zone, now);
            &&& r is Some <==> t != on && terminal_ids(l).contains(t) && terminal_ids(l).contains(
                on,
            )
            &&& r is Some ==> {
                let new = ws_layout((r->0).0, id);
                &&& new is Some
                &&& terminal_bag(new->0) == terminal_bag(l)
                &&& exists|a: LayoutView, b: LayoutView|
                    {
                        &&& a is Terminal
                        &&& a->terminal_id == Some(t)
                        &&& b is Terminal
                        &&& b->terminal_id == Some(on)
                        &&& #[trigger] dropped_beside(new->0, a, b, zone)
                    }
                &&& representable(new->0) ==> focused_on((r->0).1, id, new->0, t)
                &&& other != id ==> ws_project((r->0).0, other) == ws_project(w, other)
            }
        }),
{
    let l = ws_layout(w, id)->0;
    let p = ws_project(w, id)->0;
    project_in_id(w.data.projects, id);
    panes_move_where_both_are(l, t, on, zone);
    if t != on {
        if let Some(new) = moved_within(l, t, on, zone) {
            a_moved_pane_is_beside_the_other(l, t, on, zone);
            moving_a_pane_keeps_terminals(l, t, on, zone);
            let q = ProjectView { layout: Some(new), ..p };
            with_project_lookup(w.data.projects, id, q, id);
            with_project_lookup(w.data.projects, id, q, other);
            counts_tell(terminal_ids(l), t);
            counts_tell(terminal_ids(new), t);
            terminals_are_found(new, t);
            let d = crate::actions::focus::ws_with_layout(w, id, Some(new)).data;
            assert(project_in(d.projects, id) == Some(q));
            using_keeps_projects(crate::workspace::changed(w, d), id, now, id);
            using_keeps_projects(crate::workspace::changed(w, d), id, now, other);
        }
    }
}

/// A terminal can be taken out of a project exactly where it is there and
/// belongs to no service. What leaves is the terminal; what remains is the rest.
pub proof fn takeouts_spare_services(p: ProjectView, t: Seq<char>, x: Seq<char>)
    requires
        p.layout is Some,
        representable(p.layout->0),
    ensures
        takeout(p, t) is Some <==> terminal_ids(p.layout->0).contains(t) && !values_of(
            p.service_terminals,
        ).contains(t),
        takeout(p, t) is Some ==> {
            let out = takeout(p, t)->0;
            &&& out.0 is Terminal
            &&& out.0->terminal_id == Some(t)
            &&& opt_terminal_ids(out.1).to_multiset().count(x) + (if x == t {
                1nat
            } else {
                0
            }) == terminal_ids(p.layout->0).to_multiset().count(x)
        },
{
    let l = p.layout->0;
    terminals_are_found(l, t);
    if let Some(path) = slot_path(l, Some(t)) {
        let node = node_at(l, path)->0;
        if path.len() > 0 {
            nodes_can_be_removed(l, path);
        }
        extracting_splits_terminals(l, path);
        assert(terminal_ids(node) =~= seq![t]);
        counts_tell(seq![t], x);
        assert(seq![t][0] == t);
        seq![t].to_multiset_ensures();
        assert(seq![t].no_duplicates());
        seq![t].lemma_multiset_has_no_duplicates();
        assert(opt_terminal_bag(extracted(l, path)->0).add(terminal_bag(node)).count(x)
            == terminal_bag(l).count(x));
        if x != t {
            assert(!seq![t].contains(x));
        }
    }
}

/// What a hand-over between two projects does, whichever place the terminal
/// gets: its name and whether it is hidden go with it, what the others are
/// called stays, and no third project changes.
pub proof fn handing_over_takes_the_name_along(
    ps: Seq<ProjectView>,
    i: int,
    j: int,
    t: Seq<char>,
    rest: Option<LayoutView>,
    l: LayoutView,
    x: Seq<char>,
    k: int,
)
    requires
        0 <= i < ps.len(),
        0 <= j < ps.len(),
        i != j,
        0 <= k < ps.len(),
    ensures
        ({
            let after = handed_over(ps, i, j, t, rest, l);
            &&& after.len() == ps.len()
            &&& after[i].layout == rest
            &&& after[j].layout == Some(l)
            &&& lookup(after[i].terminal_names, t) is None
            &&& lookup(after[i].hidden_terminals, t) is None
            &&& x != t && opt_terminal_ids(rest).contains(x) ==> lookup(after[i].terminal_names, x)
                == lookup(ps[i].terminal_names, x)
            &&& !opt_terminal_ids(rest).contains(x) ==> lookup(after[i].terminal_names, x) is None
            &&& lookup(ps[i].terminal_names, t) is Some ==> lookup(after[j].terminal_names, t)
                == lookup(ps[i].terminal_names, t)
            &&& lookup(ps[i].hidden_terminals, t) is Some ==> lookup(after[j].hidden_terminals, t)
                == lookup(ps[i].hidden_terminals, t)
            &&& x != t ==> lookup(after[j].terminal_names, x) == lookup(ps[j].terminal_names, x)
            &&& k != i && k != j ==> after[k] == ps[k]
            &&& after[i].id == ps[i].id && after[j].id == ps[j].id
            &&& after[i].path == ps[i].path && after[j].path == ps[j].path
        }),
{
    let names = ps[i].terminal_names;
    let hidden = ps[i].hidden_terminals;
    let ids = opt_terminal_ids(rest);
    lookup_after_remove(names, t, t);
    lookup_after_remove(names, t, x);
    lookup_after_remove(hidden, t, t);
    lookup_after_sift(crate::collections::unkeyed(names, t), ids, true, t);
    lookup_after_sift(crate::collections::unkeyed(names, t), ids, true, x);
    lookup_after_sift(crate::collections::unkeyed(hidden, t), ids, true, t);
    if let Some(n) = lookup(names, t) {
        lookup_after_store(ps[j].terminal_names, t, n, t);
        lookup_after_store(ps[j].terminal_names, t, n, x);
    }
    if let Some(h) = lookup(hidden, t) {
        lookup_after_store(ps[j].hidden_terminals, t, h, t);
    }
}

proof fn other_rows_stay(
    ps: Seq<ProjectView>,
    i: int,
    j: int,
    t: Seq<char>,
    rest: Option<LayoutView>,
    l: LayoutView,
    q: Seq<char>,
)
    requires
        0 <= i < ps.len(),
        0 <= j < ps.len(),
        i != j,
    ensures
        ({
            let after = handed_over(ps, i, j, t, rest, l);
            &&& project_ids(after) == project_ids(ps)
            &&& match project_at(ps, q) {
                Some(k) => 0 <= k < ps.len() && project_in(after, q) == Some(after[k]),
                None => project_in(after, q) is None,
            }
        }),
{
    let after = handed_over(ps, i, j, t, rest, l);
    assert(project_ids(after) =~= project_ids(ps));
    position_is_first(project_ids(ps), q);
}

/// A pane is moved to another project exactly where it may leave its own and the
/// pane that it is dropped on is in the other. Then it is gone from its own
/// project and beside that pane in the other one, on the side that it was
/// dropped on; no other terminal moves; and it has the focus.
pub proof fn a_pane_moves_to_another_project(
    w: WorkspaceView,
    f: FocusView,
    src: Seq<char>,
    t: Seq<char>,
    tgt: Seq<char>,
    on: Seq<char>,
    zone: DropZone,
    now: u64,
    x: Seq<char>,
)
    requires
        src != tgt,
        t != on,
        ws_layout(w, src) is Some,
        ws_layout(w, tgt) is Some,
        representable(ws_layout(w, src)->0),
        representable(ws_layout(w, tgt)->0),
    ensures
        ({
            let from = ws_layout(w, src)->0;
            let to = ws_layout(w, tgt)->0;
            let r = pane_moved(w, f, src, t, tgt, on, zone, now);
            &&& r is Some <==> terminal_ids(from).contains(t) && !values_of(
                (ws_project(w, src)->0).service_terminals,
            ).contains(t) && terminal_ids(to).contains(on)
            &&& r is Some ==> {
                let left = ws_layout((r->0).0, src);
                let new = ws_layout((r->0).0, tgt);
                let one: nat = if x == t {
                    1
                } else {
                    0
                };
                &&& new is Some
                &&& opt_terminal_ids(left).to_multiset().count(x) + one == terminal_ids(
                    from,
                ).to_multiset().count(x)
                &&& terminal_ids(new->0).to_multiset().count(x) == terminal_ids(
                    to,
                ).to_multiset().count(x) + one
                &&& exists|a: LayoutView, b: LayoutView|
                    {
                        &&& a is Terminal
                        &&& a->terminal_id == Some(t)
                        &&& b is Terminal
                        &&& b->terminal_id == Some(on)
                        &&& #[trigger] dropped_beside(new->0, a, b, zone)
                    }
                &&& representable(new->0) ==> focused_on((r->0).1, tgt, new->0, t)
            }
        }),
{
    let ps = w.data.projects;
    position_is_first(project_ids(ps), src);
    position_is_first(project_ids(ps), tgt);
    let i = project_at(ps, src)->0;
    let j = project_at(ps, tgt)->0;
    let to = ps[j].layout->0;
    takeouts_spare_services(ps[i], t, x);
    if let Some(out) = takeout(ps[i], t) {
        drops_land_where_the_terminal_is(to, out.0, on, zone);
        if let Some(new) = dropped(to, out.0, on, zone) {
            a_dropped_pane_is_beside_the_other(to, out.0, on, zone);
            let b = node_at(to, slot_path(to, Some(on))->0)->0;
            assert(dropped_beside(new, out.0, b, zone));
            dropping_adds_only_the_node(to, out.0, on, zone);
            assert(terminal_bag(new).count(x) == terminal_bag(to).add(terminal_bag(out.0)).count(
                x,
            ));
            assert(terminal_bag(new).count(t) == terminal_bag(to).add(terminal_bag(out.0)).count(
                t,
            ));
            one_terminal(out.0, t, x);
            one_terminal(out.0, t, t);
            counts_tell(terminal_ids(new), t);
            terminals_are_found(new, t);
            let after = handed_over(ps, i, j, t, out.1, new);
            other_rows_stay(ps, i, j, t, out.1, new, src);
            other_rows_stay(ps, i, j, t, out.1, new, tgt);
            let d = crate::workspace::with_projects(w.data, after);
            using_keeps_projects(crate::workspace::changed(w, d), tgt, now, src);
            using_keeps_projects(crate::workspace::changed(w, d), tgt, now, tgt);
        }
    }
}

proof fn one_terminal(n: LayoutView, t: Seq<char>, x: Seq<char>)
    requires
        n is Terminal,
        n->terminal_id == Some(t),
    ensures
        terminal_bag(n).count(x) == if x == t {
            1nat
        } else {
            0
        },
{
    assert(terminal_ids(n) =~= seq![t]);
    counts_tell(seq![t], x);
    assert(seq![t][0] == t);
    assert(seq![t].no_duplicates());
    seq![t].lemma_multiset_has_no_duplicates();
    if x != t {
        assert(!seq![t].contains(x));
    }
}

/// A terminal is moved into a tab group of another project exactly where it may
/// leave its own and there is such a group. It is then gone from its own
/// project; in the other one it is a tab of that group, where it was asked to
/// go or last, and shows; and it has the focus.
pub proof fn a_tab_moves_to_another_project(
    w: WorkspaceView,
    f: FocusView,
    src: Seq<char>,
    t: Seq<char>,
    tgt: Seq<char>,
    path: Seq<usize>,
    index: Option<usize>,
    now: u64,
    x: Seq<char>,
)
    requires
        src != tgt,
        ws_layout(w, src) is Some,
        ws_layout(w, tgt) is Some,
        representable(ws_layout(w, src)->0),
        representable(ws_layout(w, tgt)->0),
    ensures
        ({
            let from = ws_layout(w, src)->0;
            let to = ws_layout(w, tgt)->0;
            let r = tab_group_moved(w, f, src, t, tgt, path, index, now);
            &&& r is Some <==> terminal_ids(from).contains(t) && !values_of(
                (ws_project(w, src)->0).service_terminals,
            ).contains(t) && node_at(to, path) is Some && node_at(to, path)->0 is Tabs
            &&& r is Some ==> {
                let left = ws_layout((r->0).0, src);
                let new = ws_layout((r->0).0, tgt);
                let n = children_of(node_at(to, path)->0).len();
                let one: nat = if x == t {
                    1
                } else {
                    0
                };
                &&& new is Some
                &&& opt_terminal_ids(left).to_multiset().count(x) + one == terminal_ids(
                    from,
                ).to_multiset().count(x)
                &&& terminal_ids(new->0).to_multiset().count(x) == terminal_ids(
                    to,
                ).to_multiset().count(x) + one
                &&& 0 < n < usize::MAX ==> exists|a: LayoutView|
                    a is Terminal && a->terminal_id == Some(t) && #[trigger] shows_tab(
                        new->0,
                        n + 1,
                        asked_place(index, n),
                        a,
                    )
                &&& representable(new->0) ==> focused_on((r->0).1, tgt, new->0, t)
            }
        }),
{
    let ps = w.data.projects;
    position_is_first(project_ids(ps), src);
    position_is_first(project_ids(ps), tgt);
    let i = project_at(ps, src)->0;
    let j = project_at(ps, tgt)->0;
    let to = ps[j].layout->0;
    takeouts_spare_services(ps[i], t, x);
    if let Some(out) = takeout(ps[i], t) {
        an_inserted_tab_shows_in_its_place(to, path, index, out.0);
        if let Some(new) = tab_inserted(to, path, index, out.0) {
            inserting_a_tab_adds_only_the_node(to, path, index, out.0);
            let n = children_of(node_at(to, path)->0).len();
            assert(0 < n < usize::MAX ==> shows_tab(new, n + 1, asked_place(index, n), out.0));
            assert(terminal_bag(new).count(x) == terminal_bag(to).add(terminal_bag(out.0)).count(
                x,
            ));
            assert(terminal_bag(new).count(t) == terminal_bag(to).add(terminal_bag(out.0)).count(
                t,
            ));
            one_terminal(out.0, t, x);
            one_terminal(out.0, t, t);
            counts_tell(terminal_ids(new), t);
            terminals_are_found(new, t);
            let after = handed_over(ps, i, j, t, out.1, new);
            other_rows_stay(ps, i, j, t, out.1, new, src);
            other_rows_stay(ps, i, j, t, out.1, new, tgt);
            let d = crate::workspace::with_projects(w.data, after);
            using_keeps_projects(crate::workspace::changed(w, d), tgt, now, src);
            using_keeps_projects(crate::workspace::changed(w, d), tgt, now, tgt);
        }
    }
}

/// A tab that is dropped on another place of its own group moves there, as by
/// hand; on its own place, or on none, nothing happens.
pub proof fn a_tab_moves_within_its_group(
    w: WorkspaceView,
    f: FocusView,
    id: Seq<char>,
    t: Seq<char>,
    path: Seq<usize>,
    index: Option<usize>,
    now: u64,
)
    requires
        ws_layout(w, id) is Some,
        slot_path(ws_layout(w, id)->0, Some(t)) is Some,
        child_of(slot_path(ws_layout(w, id)->0, Some(t))->0, path),
    ensures
        ({
            let p = slot_path(ws_layout(w, id)->0, Some(t))->0;
            let r = tab_group_moved(w, f, id, t, id, path, index, now);
            &&& index is None || index == Some(p.last()) ==> r is None
            &&& r is Some ==> (r->0).1 == f && ws_layout((r->0).0, id)
                == crate::layout_moves::tab_moved(
                ws_layout(w, id)->0,
                path,
                p.last(),
                index->0,
            )
        }),
{
    let l = ws_layout(w, id)->0;
    let p = ws_project(w, id)->0;
    project_in_id(w.data.projects, id);
    if let Some(k) = index {
        let q = slot_path(l, Some(t))->0;
        if let Some(new) = crate::layout_moves::tab_moved(l, path, q.last(), k) {
            with_project_lookup(
                w.data.projects,
                id,
                ProjectView { layout: Some(new), ..p },
                id,
            );
        }
    }
}

} // verus!
