//! What a connection that goes away for now leaves behind: how its projects were
//! shown.

use crate::collections::{
    contains_last, keys_of, lookup, lookup_after_remove, sifted_members, sifted,
};
use crate::layout_terminals::remote_id;
use crate::remote_again::{
    distinct_connections, forgetting_keeps_rows, names_one_connection, one_project_listed,
    remote_ids_are_prefixed,
};
use crate::remote_api::{ApiProjectView, RemoteSnapshotView};
use crate::remote_apply::{
    ClientView, active_connections, all_targets, applied, connection_synced, connections_synced,
    departed_folders, expected_ids, project_synced, projects_synced, reconciled, refused_folders,
    remote_prefix, reported_folders, synced_connections,
};
use crate::remote_laws::{bringing_forward_keeps_ids, prefix_names_the_connection};
use crate::remote_sync::{outdated, outdated_ids, outdated_in};
use crate::rows::{IdFilterView, admits, kept_rows_ids};
use crate::state::{DataView, FolderView, WindowId, WindowView, folder_ids, project_ids};
use crate::text::has_prefix;
use crate::windows::{
    WindowEditView, all_forgotten, edited_window, folders_forgotten, forgotten, hidden_elsewhere,
};
use vstd::prelude::*;

verus! {

/// Whether two windows show the project or folder `id` alike.
pub open spec fn shown_alike(v: WindowView, w: WindowView, id: Seq<char>) -> bool {
    &&& v.hidden_project_ids.contains(id) == w.hidden_project_ids.contains(id)
    &&& lookup(v.project_widths, id) == lookup(w.project_widths, id)
    &&& lookup(v.folder_collapsed, id) == lookup(w.folder_collapsed, id)
    &&& (v.folder_filter == Some(id)) == (w.folder_filter == Some(id))
}

/// Whether the project or folder `id` is shown alike in each window, and its
/// panels are as high.
pub open spec fn presented_alike(d: DataView, e: DataView, id: Seq<char>) -> bool {
    &&& shown_alike(d.main_window, e.main_window, id)
    &&& d.extra_windows.len() == e.extra_windows.len()
    &&& forall|i: int|
        0 <= i < d.extra_windows.len() ==> shown_alike(
            #[trigger] d.extra_windows[i],
            e.extra_windows[i],
            id,
        )
    &&& lookup(d.service_panel_heights, id) == lookup(e.service_panel_heights, id)
    &&& lookup(d.hook_panel_heights, id) == lookup(e.hook_panel_heights, id)
}

proof fn alike_in_turn(a: DataView, b: DataView, c: DataView, id: Seq<char>)
    requires
        presented_alike(a, b, id),
        presented_alike(b, c, id),
    ensures
        presented_alike(a, c, id),
{
    assert forall|i: int| 0 <= i < a.extra_windows.len() implies shown_alike(
        #[trigger] a.extra_windows[i],
        c.extra_windows[i],
        id,
    ) by {
        assert(shown_alike(b.extra_windows[i], c.extra_windows[i], id));
    }
}

/// Hiding or forgetting something else changes nothing for `id`.
proof fn others_leave_it_alone(w: WindowView, x: Seq<char>, id: Seq<char>)
    requires
        x != id,
    ensures
        shown_alike(w, edited_window(w, WindowEditView::Hide(x)), id),
        shown_alike(w, edited_window(w, WindowEditView::ForgetProject(x)), id),
        shown_alike(w, edited_window(w, WindowEditView::ForgetFolder(x)), id),
{
    lookup_after_remove(w.project_widths, x, id);
    lookup_after_remove(w.folder_collapsed, x, id);
}

proof fn forgetting_others(d: DataView, ids: Seq<Seq<char>>, n: nat, id: Seq<char>)
    requires
        !ids.contains(id),
    ensures
        presented_alike(d, all_forgotten(d, ids, n), id),
        presented_alike(d, folders_forgotten(d, ids, n), id),
    decreases n,
{
    if n > 0 && n <= ids.len() {
        forgetting_others(d, ids, (n - 1) as nat, id);
        let x = ids[n - 1];
        let a = all_forgotten(d, ids, (n - 1) as nat);
        let b = folders_forgotten(d, ids, (n - 1) as nat);
        let a2 = all_forgotten(d, ids, n);
        let b2 = folders_forgotten(d, ids, n);
        others_leave_it_alone(a.main_window, x, id);
        others_leave_it_alone(b.main_window, x, id);
        lookup_after_remove(a.service_panel_heights, x, id);
        lookup_after_remove(a.hook_panel_heights, x, id);
        assert forall|i: int| 0 <= i < a.extra_windows.len() implies shown_alike(
            #[trigger] a.extra_windows[i],
            a2.extra_windows[i],
            id,
        ) by {
            others_leave_it_alone(a.extra_windows[i], x, id);
        }
        assert forall|i: int| 0 <= i < b.extra_windows.len() implies shown_alike(
            #[trigger] b.extra_windows[i],
            b2.extra_windows[i],
            id,
        ) by {
            others_leave_it_alone(b.extra_windows[i], x, id);
        }
        alike_in_turn(d, a, a2, id);
        alike_in_turn(d, b, b2, id);
    }
}

proof fn hiding_others(d: DataView, x: Seq<char>, window: WindowId, id: Seq<char>)
    requires
        x != id,
    ensures
        presented_alike(d, hidden_elsewhere(d, x, window), id),
{
    let e = hidden_elsewhere(d, x, window);
    others_leave_it_alone(d.main_window, x, id);
    assert forall|i: int| 0 <= i < d.extra_windows.len() implies shown_alike(
        #[trigger] d.extra_windows[i],
        e.extra_windows[i],
        id,
    ) by {
        others_leave_it_alone(d.extra_windows[i], x, id);
    }
}

/// The reported projects of another connection change nothing for `id`.
proof fn other_projects_synced(
    c: ClientView,
    conn: Seq<char>,
    host: Seq<char>,
    ps: Seq<ApiProjectView>,
    n: nat,
    id: Seq<char>,
)
    requires
        !has_prefix(id, remote_prefix(conn)),
    ensures
        presented_alike(c.data, projects_synced(c, conn, host, ps, n).data, id),
        project_ids(projects_synced(c, conn, host, ps, n).data.projects).contains(id)
            == project_ids(c.data.projects).contains(id),
    decreases n,
{
    if n > 0 && n <= ps.len() {
        other_projects_synced(c, conn, host, ps, (n - 1) as nat, id);
        let mid = projects_synced(c, conn, host, ps, (n - 1) as nat);
        let p = ps[n - 1];
        let x = remote_id(conn, p.id);
        remote_ids_are_prefixed(conn, p.id);
        let e = project_synced(mid, conn, host, p);
        one_project_listed(mid, conn, host, p);
        contains_last(project_ids(mid.data.projects).push(x));
        assert(project_ids(mid.data.projects).push(x).drop_last() =~= project_ids(
            mid.data.projects,
        ));
        assert forall|w: WindowId| presented_alike(
            mid.data,
            #[trigger] hidden_elsewhere(mid.data, x, w),
            id,
        ) by {
            hiding_others(mid.data, x, w, id);
        }
        assert(presented_alike(mid.data, e.data, id));
        alike_in_turn(c.data, mid.data, e.data, id);
    }
}

proof fn departed_folders_are_prefixed(
    fs: Seq<FolderView>,
    prefix: Seq<char>,
    next: Seq<Seq<char>>,
    id: Seq<char>,
)
    requires
        !has_prefix(id, prefix),
    ensures
        !departed_folders(fs, prefix, next).contains(id),
    decreases fs.len(),
{
    if fs.len() > 0 {
        departed_folders_are_prefixed(fs.drop_last(), prefix, next, id);
        let front = departed_folders(fs.drop_last(), prefix, next);
        contains_last(front.push(fs.last().id));
        assert(front.push(fs.last().id).drop_last() =~= front);
    }
}

/// What the first `n` connections report changes nothing for an id of a
/// connection that is away; past that connection's turn its project is gone.
proof fn connections_leave_it_alone(
    c: ClientView,
    ss: Seq<RemoteSnapshotView>,
    k: int,
    id: Seq<char>,
    n: nat,
)
    requires
        distinct_connections(ss),
        0 <= k < ss.len(),
        ss[k].state is None,
        has_prefix(id, remote_prefix(ss[k].connection_id)),
        n <= ss.len(),
    ensures
        presented_alike(c.data, connections_synced(c, ss, n).data, id),
        k < n ==> !project_ids(connections_synced(c, ss, n).data.projects).contains(id),
    decreases n,
{
    if n > 0 {
        connections_leave_it_alone(c, ss, k, id, (n - 1) as nat);
        let mid = connections_synced(c, ss, (n - 1) as nat);
        let s = ss[n - 1];
        if n - 1 != k && has_prefix(id, remote_prefix(s.connection_id)) {
            names_one_connection(ss, k, n - 1, id);
        }
        let out = connection_synced(mid, s);
        match s.state {
            Some(state) => {
                other_projects_synced(
                    mid,
                    s.connection_id,
                    s.host,
                    state.projects,
                    state.projects.len(),
                    id,
                );
                let e = projects_synced(
                    mid,
                    s.connection_id,
                    s.host,
                    state.projects,
                    state.projects.len(),
                );
                let folders = reported_folders(
                    s.connection_id,
                    state.project_order,
                    state.folders,
                );
                let gone = departed_folders(
                    e.data.folders,
                    remote_prefix(s.connection_id),
                    folder_ids(folders),
                );
                departed_folders_are_prefixed(
                    e.data.folders,
                    remote_prefix(s.connection_id),
                    folder_ids(folders),
                    id,
                );
                forgetting_others(e.data, gone, gone.len(), id);
                forgetting_keeps_rows(e.data, gone, gone.len());
                alike_in_turn(mid.data, e.data, folders_forgotten(e.data, gone, gone.len()), id);
                assert(presented_alike(mid.data, out.data, id));
            },
            None => {
                kept_rows_ids(
                    mid.data.projects,
                    IdFilterView::NotPrefixed(remote_prefix(s.connection_id)),
                );
                assert(presented_alike(mid.data, out.data, id));
            },
        }
        alike_in_turn(c.data, mid.data, out.data, id);
    }
}

proof fn not_among_the_outdated(
    ids: Seq<Seq<char>>,
    active: Seq<Seq<char>>,
    synced: Seq<Seq<char>>,
    expected: Seq<Seq<char>>,
    id: Seq<char>,
)
    requires
        !outdated(id, active, synced, expected),
    ensures
        !outdated_ids(ids, active, synced, expected).contains(id),
    decreases ids.len(),
{
    if ids.len() > 0 {
        not_among_the_outdated(ids.drop_last(), active, synced, expected, id);
        let front = outdated_ids(ids.drop_last(), active, synced, expected);
        contains_last(front.push(ids.last()));
        assert(front.push(ids.last()).drop_last() =~= front);
    }
}

proof fn not_among_the_refused(fs: Seq<FolderView>, f: IdFilterView, id: Seq<char>)
    requires
        admits(f, id),
    ensures
        !refused_folders(fs, f).contains(id),
    decreases fs.len(),
{
    if fs.len() > 0 {
        not_among_the_refused(fs.drop_last(), f, id);
        let front = refused_folders(fs.drop_last(), f);
        contains_last(front.push(fs.last().id));
        assert(front.push(fs.last().id).drop_last() =~= front);
    }
}

/// A connection that reports nothing is not among those that do.
proof fn away_is_not_synced(ss: Seq<RemoteSnapshotView>, k: int)
    requires
        active_connections(ss).no_duplicates(),
        0 <= k < ss.len(),
        ss[k].state is None,
    ensures
        !synced_connections(ss).contains(ss[k].connection_id),
    decreases ss.len(),
{
    let front = ss.drop_last();
    let conn = ss[k].connection_id;
    assert(active_connections(front) =~= active_connections(ss).drop_last());
    let early = synced_connections(front);
    contains_last(early.push(ss.last().connection_id));
    assert(early.push(ss.last().connection_id).drop_last() =~= early);
    assert(active_connections(ss)[k] == conn);
    if k < ss.len() - 1 {
        assert(front[k] == ss[k]);
        away_is_not_synced(front, k);
        assert(active_connections(ss)[ss.len() - 1] == ss.last().connection_id);
    } else {
        synced_is_active(front, conn);
        if early.contains(conn) {
            let j = choose|j: int| 0 <= j < front.len() && active_connections(front)[j] == conn;
            assert(active_connections(ss)[j] == conn);
        }
    }
}

proof fn synced_is_active(ss: Seq<RemoteSnapshotView>, conn: Seq<char>)
    ensures
        synced_connections(ss).contains(conn) ==> active_connections(ss).contains(conn),
    decreases ss.len(),
{
    if ss.len() > 0 {
        let front = ss.drop_last();
        synced_is_active(front, conn);
        assert(active_connections(front) =~= active_connections(ss).drop_last());
        contains_last(active_connections(ss));
        let early = synced_connections(front);
        contains_last(early.push(ss.last().connection_id));
        assert(early.push(ss.last().connection_id).drop_last() =~= early);
    }
}

/// A connection that goes away for now keeps everything about how its projects
/// and folders were shown, whatever the other connections report: what is
/// hidden, collapsed or filtered by where, the widths and the heights. The
/// projects themselves leave.
pub proof fn a_disconnect_keeps_presentation(
    c: ClientView,
    ss: Seq<RemoteSnapshotView>,
    k: int,
    window: WindowId,
    id: Seq<char>,
)
    requires
        distinct_connections(ss),
        0 <= k < ss.len(),
        ss[k].state is None,
        has_prefix(id, remote_prefix(ss[k].connection_id)),
    ensures
        presented_alike(c.data, applied(c, ss, window).data, id),
        !project_ids(applied(c, ss, window).data.projects).contains(id),
{
    let conn = ss[k].connection_id;
    let mid = connections_synced(c, ss, ss.len());
    connections_leave_it_alone(c, ss, k, id, ss.len());
    let active = active_connections(ss);
    let synced = synced_connections(ss);
    let expected = expected_ids(ss);
    prefix_names_the_connection(id, conn);
    assert(active[k] == conn);
    away_is_not_synced(ss, k);
    assert(!outdated(id, active, synced, expected));
    let k1 = keys_of(mid.sync.project_layouts);
    let k2 = keys_of(mid.sync.snapshots);
    not_among_the_outdated(k1, active, synced, expected, id);
    not_among_the_outdated(k2, active, synced, expected, id);
    let old_ids = outdated_in(mid.sync, active, synced, expected);
    assert(!old_ids.contains(id)) by {
        if old_ids.contains(id) {
            let i = choose|i: int| 0 <= i < old_ids.len() && old_ids[i] == id;
            let first = outdated_ids(k1, active, synced, expected);
            let second = outdated_ids(k2, active, synced, expected);
            if i < first.len() {
                assert(first[i] == id);
            } else {
                assert(second[i - first.len()] == id);
            }
        }
    }
    let gone = sifted(project_ids(mid.data.projects), expected, false);
    sifted_members(project_ids(mid.data.projects), expected, false);
    let of = IdFilterView::OfConnections(active);
    let departed = refused_folders(mid.data.folders, of);
    not_among_the_refused(mid.data.folders, of, id);
    let a = all_forgotten(mid.data, old_ids, old_ids.len());
    let b = all_forgotten(a, gone, gone.len());
    let d = folders_forgotten(b, departed, departed.len());
    forgetting_others(mid.data, old_ids, old_ids.len(), id);
    forgetting_others(a, gone, gone.len(), id);
    forgetting_others(b, departed, departed.len(), id);
    forgetting_keeps_rows(mid.data, old_ids, old_ids.len());
    forgetting_keeps_rows(a, gone, gone.len());
    forgetting_keeps_rows(b, departed, departed.len());
    alike_in_turn(c.data, mid.data, a, id);
    alike_in_turn(c.data, a, b, id);
    alike_in_turn(c.data, b, d, id);
    let r = reconciled(c, ss);
    assert(presented_alike(c.data, r.data, id));
    kept_rows_ids(d.projects, IdFilterView::In(expected));
    let targets = all_targets(r.data, r.sync, window);
    bringing_forward_keeps_ids(r.data.projects, targets, targets.len());
}

} // verus!
