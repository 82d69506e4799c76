//! What a client remembers of its connections from one sync to the next, and what
//! it forgets.

use crate::actions::hook_laws::forgotten_projects_leave_no_trace;
use crate::actions::soft_close_flow::{project_in_id, with_project_lookup};
use crate::collections::{
    contains_last, keys_of, lookup, lookup_after_remove, lookup_after_sift, sifted, sifted_members,
};
use crate::layout::{LayoutView, node_at};
use crate::layout_frames::{activating_keeps_the_shape, activating_shows_the_way, frame_at, tab_at};
use crate::layout_terminals::activated;
use crate::remote_again::forgetting_all_keeps_rows;
use crate::remote_api::{ApiProjectView, RemoteSnapshotView};
use crate::remote_apply::{
    ClientView, active_connections, all_brought_forward, all_targets, applied, close_settled,
    connections_synced, expected_ids, none_left, projects_dropped, projects_synced, reconciled,
    refused_folders, stale_dropped, synced_connections,
};
use crate::remote_sync::{
    CLOSE_FOCUS_TRIES, CloseFocusView, FocusRequestView, SyncView, VisibilityView, asked_for,
    close_of, close_queued, closes_without, focus_of, outdated, outdated_ids, outdated_in,
    request_for, without_outdated,
};
use crate::rows::{IdFilterView, connection_of, kept_rows_ids};
use crate::state::{
    DataView, ProjectView, WindowId, WindowView, has_project, project_ids, project_in,
};
use crate::text::has_prefix;
use crate::windows::{all_forgotten, folders_forgotten};
use vstd::prelude::*;

verus! {

/// Whether the window says nothing of the project `id`.
pub open spec fn knows_nothing_of(w: WindowView, id: Seq<char>) -> bool {
    !w.hidden_project_ids.contains(id) && lookup(w.project_widths, id) is None
}

/// Whether nothing is known of how the project `id` is shown.
pub open spec fn nothing_is_known(d: DataView, id: Seq<char>) -> bool {
    &&& knows_nothing_of(d.main_window, id)
    &&& forall|i: int|
        0 <= i < d.extra_windows.len() ==> knows_nothing_of(#[trigger] d.extra_windows[i], id)
    &&& lookup(d.service_panel_heights, id) is None
    &&& lookup(d.hook_panel_heights, id) is None
}

proof fn forgetting_more(d: DataView, ids: Seq<Seq<char>>, n: nat, id: Seq<char>)
    requires
        n <= ids.len(),
        nothing_is_known(d, id) || ids.take(n as int).contains(id),
    ensures
        nothing_is_known(all_forgotten(d, ids, n), id),
    decreases n,
{
    if n == 0 {
        assert(ids.take(0) =~= Seq::<Seq<char>>::empty());
    } else {
        let m = (n - 1) as nat;
        let e = all_forgotten(d, ids, m);
        contains_last(ids.take(n as int));
        assert(ids.take(n as int).drop_last() =~= ids.take(n - 1));
        assert(ids.take(n as int).last() == ids[n - 1]);
        let f = all_forgotten(d, ids, n);
        if ids[n - 1] == id {
            forgotten_projects_leave_no_trace(e, id, id, 0);
            assert forall|i: int| 0 <= i < f.extra_windows.len() implies knows_nothing_of(
                #[trigger] f.extra_windows[i],
                id,
            ) by {
                forgotten_projects_leave_no_trace(e, id, id, i);
            }
        } else {
            forgetting_more(d, ids, m, id);
            forgotten_projects_leave_no_trace(e, ids[n - 1], id, 0);
            assert forall|i: int| 0 <= i < f.extra_windows.len() implies knows_nothing_of(
                #[trigger] f.extra_windows[i],
                id,
            ) by {
                forgotten_projects_leave_no_trace(e, ids[n - 1], id, i);
                assert(knows_nothing_of(e.extra_windows[i], id));
            }
        }
    }
}

proof fn forgetting_folders(d: DataView, ids: Seq<Seq<char>>, n: nat, id: Seq<char>)
    requires
        nothing_is_known(d, id),
    ensures
        nothing_is_known(folders_forgotten(d, ids, n), id),
    decreases n,
{
    if n > 0 && n <= ids.len() {
        let m = (n - 1) as nat;
        forgetting_folders(d, ids, m, id);
        let e = folders_forgotten(d, ids, m);
        let f = folders_forgotten(d, ids, n);
        assert forall|i: int| 0 <= i < f.extra_windows.len() implies knows_nothing_of(
            #[trigger] f.extra_windows[i],
            id,
        ) by {
            assert(knows_nothing_of(e.extra_windows[i], id));
        }
    }
}

proof fn dropping_forgets(s: SyncView, ids: Seq<Seq<char>>, n: nat, id: Seq<char>)
    requires
        n <= ids.len(),
    ensures
        ({
            let t = projects_dropped(s, ids, n);
            let gone = ids.take(n as int).contains(id);
            &&& lookup(t.project_layouts, id) == if gone {
                None
            } else {
                lookup(s.project_layouts, id)
            }
            &&& lookup(t.snapshots, id) == if gone {
                None
            } else {
                lookup(s.snapshots, id)
            }
            &&& t.focus == s.focus
            &&& t.close_focus == s.close_focus
            &&& t.visibility == s.visibility
        }),
    decreases n,
{
    if n == 0 {
        assert(ids.take(0) =~= Seq::<Seq<char>>::empty());
    } else {
        let m = (n - 1) as nat;
        dropping_forgets(s, ids, m, id);
        contains_last(ids.take(n as int));
        assert(ids.take(n as int).drop_last() =~= ids.take(n - 1));
        assert(ids.take(n as int).last() == ids[n - 1]);
        let t = projects_dropped(s, ids, m);
        lookup_after_remove(t.project_layouts, ids[n - 1], id);
        lookup_after_remove(t.snapshots, ids[n - 1], id);
    }
}

/// A project that no connection reports any more is gone, and with it all that
/// was known of it: how windows showed it, how high its panels were, its layout
/// and its last report.
pub proof fn unreported_projects_are_forgotten(
    c: ClientView,
    ss: Seq<RemoteSnapshotView>,
    id: Seq<char>,
)
    requires
        has_project(c.data.projects, id),
        !expected_ids(ss).contains(id),
    ensures
        ({
            let d = stale_dropped(c, ss);
            &&& !has_project(d.data.projects, id)
            &&& nothing_is_known(d.data, id)
            &&& lookup(d.sync.project_layouts, id) is None
            &&& lookup(d.sync.snapshots, id) is None
        }),
{
    let active = active_connections(ss);
    let expected = expected_ids(ss);
    let old_ids = outdated_in(c.sync, active, synced_connections(ss), expected);
    let gone = sifted(project_ids(c.data.projects), expected, false);
    let departed = refused_folders(c.data.folders, IdFilterView::OfConnections(active));
    sifted_members(project_ids(c.data.projects), expected, false);
    assert(gone.contains(id));
    assert(gone.take(gone.len() as int) =~= gone);
    let a = all_forgotten(c.data, old_ids, old_ids.len());
    forgetting_more(a, gone, gone.len(), id);
    forgetting_folders(all_forgotten(a, gone, gone.len()), departed, departed.len(), id);
    forgetting_all_keeps_rows(c, ss);
    kept_rows_ids(c.data.projects, IdFilterView::In(expected));
    dropping_forgets(
        without_outdated(c.sync, active, synced_connections(ss), expected),
        gone,
        gone.len(),
        id,
    );
}

proof fn outdated_ids_hold(
    ids: Seq<Seq<char>>,
    active: Seq<Seq<char>>,
    synced: Seq<Seq<char>>,
    expected: Seq<Seq<char>>,
    x: Seq<char>,
)
    ensures
        outdated_ids(ids, active, synced, expected).contains(x) <==> ids.contains(x) && outdated(
            x,
            active,
            synced,
            expected,
        ),
    decreases ids.len(),
{
    if ids.len() > 0 {
        let front = outdated_ids(ids.drop_last(), active, synced, expected);
        outdated_ids_hold(ids.drop_last(), active, synced, expected, x);
        contains_last(ids);
        contains_last(front.push(ids.last()));
        assert(front.push(ids.last()).drop_last() =~= front);
    }
}

/// The layout of a project whose connection is only away stays remembered; where
/// the connection is there no more, or reports without the project, it is
/// forgotten.
pub proof fn layouts_are_remembered_while_away(
    s: SyncView,
    active: Seq<Seq<char>>,
    synced: Seq<Seq<char>>,
    expected: Seq<Seq<char>>,
    id: Seq<char>,
)
    requires
        has_prefix(id, "remote:"@),
    ensures
        ({
            let conn = connection_of(id);
            let after = lookup(
                without_outdated(s, active, synced, expected).project_layouts,
                id,
            );
            &&& active.contains(conn) && !synced.contains(conn) ==> after == lookup(
                s.project_layouts,
                id,
            )
            &&& active.contains(conn) && expected.contains(id) ==> after == lookup(
                s.project_layouts,
                id,
            )
            &&& !active.contains(conn) ==> after is None
            &&& synced.contains(conn) && !expected.contains(id) ==> after is None
        }),
{
    let a = keys_of(s.project_layouts);
    let b = keys_of(s.snapshots);
    outdated_ids_hold(a, active, synced, expected, id);
    outdated_ids_hold(b, active, synced, expected, id);
    crate::layout_frames::held_by_either(
        outdated_ids(a, active, synced, expected),
        outdated_ids(b, active, synced, expected),
        id,
    );
    let gone = outdated_in(s, active, synced, expected);
    lookup_after_sift(s.project_layouts, gone, false, id);
    known_keys(s.project_layouts, id);
}

proof fn known_keys<A>(s: Seq<(Seq<char>, A)>, k: Seq<char>)
    ensures
        lookup(s, k) is Some <==> keys_of(s).contains(k),
    decreases s.len(),
{
    if s.len() > 0 {
        known_keys(s.drop_last(), k);
        contains_last(keys_of(s));
        assert(keys_of(s).drop_last() =~= keys_of(s.drop_last()));
        assert(keys_of(s).last() == s.last().0);
    }
}

proof fn only_the_others(s: Seq<FocusRequestView>, window: WindowId, made: bool, x: FocusRequestView)
    ensures
        focus_of(s, window, made).contains(x) <==> s.contains(x) && (x.window == window) == made,
    decreases s.len(),
{
    if s.len() > 0 {
        let front = s.drop_last();
        let kept = focus_of(front, window, made);
        only_the_others(front, window, made, x);
        if s.contains(x) {
            let i = choose|i: int| 0 <= i < s.len() && s[i] == x;
            if i < front.len() {
                assert(front[i] == x);
            }
        }
        if front.contains(x) {
            let i = choose|i: int| 0 <= i < front.len() && front[i] == x;
            assert(s[i] == x);
        }
        if s.last() == x {
            assert(s[s.len() - 1] == x);
        }
        let whole = kept.push(s.last());
        if whole.contains(x) {
            let i = choose|i: int| 0 <= i < whole.len() && whole[i] == x;
            if i < kept.len() {
                assert(kept[i] == x);
            }
        }
        if kept.contains(x) {
            let i = choose|i: int| 0 <= i < kept.len() && kept[i] == x;
            assert(whole[i] == x);
        }
        assert(whole[whole.len() - 1] == s.last());
    }
}

proof fn reports_leave_the_focus(
    c: ClientView,
    conn: Seq<char>,
    host: Seq<char>,
    ps: Seq<ApiProjectView>,
    n: nat,
)
    ensures
        projects_synced(c, conn, host, ps, n).sync.focus == c.sync.focus,
        projects_synced(c, conn, host, ps, n).sync.close_focus == c.sync.close_focus,
    decreases n,
{
    if n > 0 && n <= ps.len() {
        reports_leave_the_focus(c, conn, host, ps, (n - 1) as nat);
    }
}

proof fn connections_leave_the_focus(c: ClientView, ss: Seq<RemoteSnapshotView>, n: nat)
    ensures
        connections_synced(c, ss, n).sync.focus == c.sync.focus,
        connections_synced(c, ss, n).sync.close_focus == c.sync.close_focus,
    decreases n,
{
    if n > 0 && n <= ss.len() {
        let m = (n - 1) as nat;
        connections_leave_the_focus(c, ss, m);
        if let Some(state) = ss[n - 1].state {
            reports_leave_the_focus(
                connections_synced(c, ss, m),
                ss[n - 1].connection_id,
                ss[n - 1].host,
                state.projects,
                state.projects.len(),
            );
        }
    }
}

/// A sync answers the focus requests of its own window; those of other windows
/// wait on.
pub proof fn syncs_answer_their_window(
    c: ClientView,
    ss: Seq<RemoteSnapshotView>,
    window: WindowId,
    x: FocusRequestView,
)
    ensures
        applied(c, ss, window).sync.focus.contains(x) <==> c.sync.focus.contains(x) && x.window
            != window,
{
    let e = connections_synced(c, ss, ss.len());
    connections_leave_the_focus(c, ss, ss.len());
    let active = active_connections(ss);
    let gone = sifted(project_ids(e.data.projects), expected_ids(ss), false);
    dropping_forgets(
        without_outdated(e.sync, active, synced_connections(ss), expected_ids(ss)),
        gone,
        gone.len(),
        Seq::empty(),
    );
    only_the_others(c.sync.focus, window, false, x);
}

proof fn the_rest_waits(s: Seq<CloseFocusView>, window: WindowId, other: WindowId)
    requires
        other != window,
    ensures
        close_of(closes_without(s, window), window) is None,
        close_of(closes_without(s, window), other) == close_of(s, other),
    decreases s.len(),
{
    if s.len() > 0 {
        the_rest_waits(s.drop_last(), window, other);
        let kept = closes_without(s.drop_last(), window);
        assert(kept.push(s.last()).drop_last() =~= kept);
    }
}

/// A close that a window waits for is waited for until its terminals are gone,
/// for as many syncs as are granted; then the window waits no more. Other
/// windows are not concerned.
pub proof fn closes_are_waited_for(
    d: DataView,
    s: SyncView,
    window: WindowId,
    other: WindowId,
)
    requires
        other != window,
        close_of(s.close_focus, window) is Some,
    ensures
        ({
            let c = close_of(s.close_focus, window)->0;
            let after = close_of(close_settled(d, s, window).close_focus, window);
            let there = project_in(d.projects, c.project_id);
            let open = there is Some && (there->0).layout is Some && !none_left(
                (there->0).layout->0,
                c.closing_terminal_ids,
            );
            &&& open && c.tries + 1 < CLOSE_FOCUS_TRIES ==> after == Some(
                CloseFocusView { tries: (c.tries + 1) as u32, ..c },
            )
            &&& !open ==> after is None
            &&& c.tries + 1 >= CLOSE_FOCUS_TRIES ==> after is None
            &&& close_of(close_settled(d, s, window).close_focus, other) == close_of(
                s.close_focus,
                other,
            )
            &&& close_settled(d, s, window).focus == s.focus
        }),
{
    last_is_of_the_window(s.close_focus, window);
    the_rest_waits(s.close_focus, window, other);
    let rest = closes_without(s.close_focus, window);
    let c = close_of(s.close_focus, window)->0;
    let again = CloseFocusView { tries: (c.tries + 1) as u32, ..c };
    the_rest_waits(rest, window, other);
    let left = closes_without(rest, window);
    assert(left.push(again).drop_last() =~= left);
}

proof fn last_is_of_the_window(s: Seq<CloseFocusView>, window: WindowId)
    ensures
        close_of(s, window) is Some ==> (close_of(s, window)->0).window == window,
    decreases s.len(),
{
    if s.len() > 0 {
        last_is_of_the_window(s.drop_last(), window);
    }
}

/// A window that asks to follow a close waits for that one alone.
pub proof fn windows_wait_for_one_close(s: SyncView, c: CloseFocusView, other: WindowId)
    requires
        other != c.window,
    ensures
        close_of(close_queued(s, c).close_focus, c.window) == Some(c),
        close_of(close_queued(s, c).close_focus, other) == close_of(s.close_focus, other),
{
    the_rest_waits(s.close_focus, c.window, other);
    let rest = closes_without(s.close_focus, c.window);
    assert(rest.push(c).drop_last() =~= rest);
}

/// A project is shown where it was asked for by the first request for its
/// connection and its name, and its path where one was given.
pub proof fn the_first_request_counts(
    s: Seq<VisibilityView>,
    conn: Seq<char>,
    name: Seq<char>,
    path: Seq<char>,
    n: nat,
)
    requires
        n <= s.len(),
    ensures
        match request_for(s, conn, name, path, n) {
            Some(i) => {
                &&& 0 <= i < n
                &&& s[i].connection_id == conn
                &&& s[i].name == name
                &&& s[i].path is Some ==> s[i].path == Some(path)
                &&& forall|j: int| 0 <= j < i ==> !asked_for(#[trigger] s[j], conn, name, path)
            },
            None => forall|j: int|
                0 <= j < n ==> !((#[trigger] s[j]).connection_id == conn && s[j].name == name && (
                s[j].path is None || s[j].path == Some(path))),
        },
    decreases n,
{
    if n > 0 {
        the_first_request_counts(s, conn, name, path, (n - 1) as nat);
    }
}

proof fn forwards_keep_the_shape(
    ps: Seq<ProjectView>,
    ts: Seq<(Seq<char>, Seq<usize>)>,
    n: nat,
    id: Seq<char>,
    path: Seq<usize>,
)
    requires
        n <= ts.len(),
        project_in(ps, id) is Some,
        (project_in(ps, id)->0).layout is Some,
    ensures
        ({
            let p = project_in(all_brought_forward(ps, ts, n), id);
            &&& p is Some
            &&& (p->0).layout is Some
            &&& frame_at((p->0).layout->0, path) == frame_at(
                (project_in(ps, id)->0).layout->0,
                path,
            )
        }),
    decreases n,
{
    if n > 0 {
        let m = (n - 1) as nat;
        forwards_keep_the_shape(ps, ts, m, id, path);
        let front = all_brought_forward(ps, ts, m);
        let t = ts[n - 1];
        project_in_id(front, t.0);
        if let Some(p) = project_in(front, t.0) {
            if let Some(l) = p.layout {
                let q = ProjectView { layout: Some(activated(l, t.1)), ..p };
                with_project_lookup(front, t.0, q, id);
                activating_keeps_the_shape(l, t.1, path);
            }
        }
    }
}

/// What a sync brings the focus to shows: every group of tabs on the way to it
/// has the tab in front that leads on.
pub proof fn the_focused_terminal_shows(
    c: ClientView,
    ss: Seq<RemoteSnapshotView>,
    window: WindowId,
    k: int,
)
    requires
        ({
            let r = reconciled(c, ss);
            let ts = all_targets(r.data, r.sync, window);
            &&& ts.len() > 0
            &&& project_in(r.data.projects, ts.last().0) is Some
            &&& (project_in(r.data.projects, ts.last().0)->0).layout is Some
            &&& 0 <= k < ts.last().1.len()
            &&& node_at(
                (project_in(r.data.projects, ts.last().0)->0).layout->0,
                ts.last().1,
            ) is Some
        }),
    ensures
        ({
            let r = reconciled(c, ss);
            let t = all_targets(r.data, r.sync, window).last();
            let l = (project_in(r.data.projects, t.0)->0).layout->0;
            let p = project_in(applied(c, ss, window).data.projects, t.0);
            &&& p is Some
            &&& (p->0).layout is Some
            &&& frame_at(l, t.1.take(k))->0 is Tabs ==> tab_at(
                (p->0).layout->0,
                t.1.take(k),
            ) == Some(t.1[k])
        }),
{
    let r = reconciled(c, ss);
    let ts = all_targets(r.data, r.sync, window);
    let t = ts.last();
    let m = (ts.len() - 1) as nat;
    let front = all_brought_forward(r.data.projects, ts, m);
    forwards_keep_the_shape(r.data.projects, ts, m, t.0, t.1.take(k));
    forwards_keep_the_shape(r.data.projects, ts, m, t.0, t.1);
    project_in_id(front, t.0);
    let p = project_in(front, t.0)->0;
    let l = p.layout->0;
    let q = ProjectView { layout: Some(activated(l, t.1)), ..p };
    with_project_lookup(front, t.0, q, t.0);
    assert(frame_at(l, t.1) is Some);
    activating_shows_the_way(l, t.1, k);
}

} // verus!
