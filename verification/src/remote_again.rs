//! What a second sync with the same reports does: nothing to be seen.

use crate::collections::{
    contains_last, position_is_first, sifted, sifted_members, without_prefix,
};
use crate::layout::{LayoutView, terminal_ids};
use crate::layout_merge::merging_keeps_the_servers_terminals;
use crate::layout_terminals::remote_id;
use crate::remote_api::{ApiProjectView, RemoteSnapshotView};
use crate::remote_apply::{
    ClientView, active_connections, all_targets, api_project_ids, applied, appeared, close_settled,
    close_target, connection_synced, connections_synced, expected_ids, kept_layout, new_targets,
    project_synced, projects_dropped, projects_synced, reconciled, refreshed, refused_folders,
    remote_ids, remote_prefix, reported_folders, reported_layout, reported_order,
    synced_connections,
};
use crate::remote_laws::{
    all_forgotten_of, bringing_forward_keeps_ids, only_reported_projects_stay,
    prefix_names_the_connection,
};
use crate::remote_sync::{
    CloseFocusView, FocusRequestView, SyncView, close_of, closes_without, focus_of, outdated_in,
};
use crate::rows::{IdFilterView, admits, kept_folders, kept_rows};
use crate::state::{
    DataView, FolderView, ProjectView, WindowId, folder_ids, project_at, project_ids, project_in,
};
use crate::text::has_prefix;
use crate::windows::{all_forgotten, folders_forgotten};
use vstd::prelude::*;

verus! {

/// Whether no two connections share an id and no id holds a colon.
pub open spec fn distinct_connections(ss: Seq<RemoteSnapshotView>) -> bool {
    &&& active_connections(ss).no_duplicates()
    &&& forall|i: int, k: int|
        0 <= i < ss.len() && 0 <= k < ss[i].connection_id.len() ==> #[trigger] ss[i].connection_id[k]
            != ':'
}

/// What the client calls something of a connection names the connection, and no
/// other.
pub proof fn names_one_connection(ss: Seq<RemoteSnapshotView>, i: int, j: int, id: Seq<char>)
    requires
        distinct_connections(ss),
        0 <= i < ss.len(),
        0 <= j < ss.len(),
        has_prefix(id, remote_prefix(ss[i].connection_id)),
        has_prefix(id, remote_prefix(ss[j].connection_id)),
    ensures
        i == j,
{
    prefix_names_the_connection(id, ss[i].connection_id);
    prefix_names_the_connection(id, ss[j].connection_id);
    assert(active_connections(ss)[i] == ss[i].connection_id);
    assert(active_connections(ss)[j] == ss[j].connection_id);
}

pub proof fn remote_ids_are_prefixed(conn: Seq<char>, id: Seq<char>)
    ensures
        has_prefix(remote_id(conn, id), remote_prefix(conn)),
{
    let p = remote_prefix(conn);
    assert(remote_id(conn, id) =~= p + id);
    assert((p + id).take(p.len() as int) =~= p);
}

/// What forgetting how projects and folders were shown leaves alone.
pub proof fn forgetting_keeps_rows(d: DataView, ids: Seq<Seq<char>>, n: nat)
    ensures
        all_forgotten(d, ids, n).projects == d.projects,
        all_forgotten(d, ids, n).folders == d.folders,
        all_forgotten(d, ids, n).project_order == d.project_order,
        folders_forgotten(d, ids, n).projects == d.projects,
        folders_forgotten(d, ids, n).folders == d.folders,
        folders_forgotten(d, ids, n).project_order == d.project_order,
    decreases n,
{
    if n > 0 && n <= ids.len() {
        forgetting_keeps_rows(d, ids, (n - 1) as nat);
    }
}

/// Forgetting how projects and folders are shown changes no project, no folder and
/// no order.
pub proof fn forgetting_all_keeps_rows(c: ClientView, ss: Seq<RemoteSnapshotView>)
    ensures
        all_forgotten_of(c, ss).projects == c.data.projects,
        all_forgotten_of(c, ss).folders == c.data.folders,
        all_forgotten_of(c, ss).project_order == c.data.project_order,
{
    let active = active_connections(ss);
    let expected = expected_ids(ss);
    let old_ids = outdated_in(c.sync, active, synced_connections(ss), expected);
    let gone = sifted(project_ids(c.data.projects), expected, false);
    let departed = refused_folders(c.data.folders, IdFilterView::OfConnections(active));
    let a = all_forgotten(c.data, old_ids, old_ids.len());
    forgetting_keeps_rows(c.data, old_ids, old_ids.len());
    forgetting_keeps_rows(a, gone, gone.len());
    forgetting_keeps_rows(all_forgotten(a, gone, gone.len()), departed, departed.len());
}

proof fn dropping_keeps_requests(s: SyncView, ids: Seq<Seq<char>>, n: nat)
    ensures
        projects_dropped(s, ids, n).focus == s.focus,
        projects_dropped(s, ids, n).close_focus == s.close_focus,
    decreases n,
{
    if n > 0 && n <= ids.len() {
        dropping_keeps_requests(s, ids, (n - 1) as nat);
    }
}

/// The terminals of a layout, where there is one.
spec fn shape(l: Option<LayoutView>) -> Option<Seq<Seq<char>>> {
    match l {
        Some(l) => Some(terminal_ids(l)),
        None => None,
    }
}

/// The terminals of the project `id`, where there is one.
spec fn shape_in(ps: Seq<ProjectView>, id: Seq<char>) -> Option<Option<Seq<Seq<char>>>> {
    match project_in(ps, id) {
        Some(p) => Some(shape(p.layout)),
        None => None,
    }
}

/// What the last of the first `n` of `ps` called `id` reports of its terminals.
spec fn last_shape(conn: Seq<char>, ps: Seq<ApiProjectView>, id: Seq<char>, n: nat) -> Option<
    Option<Seq<Seq<char>>>,
>
    decreases n,
{
    if n == 0 || n > ps.len() {
        None
    } else if remote_id(conn, ps[n - 1].id) == id {
        Some(shape(reported_layout(conn, ps[n - 1])))
    } else {
        last_shape(conn, ps, id, (n - 1) as nat)
    }
}

/// What the first `n` connections report last of the terminals of `id`.
spec fn last_shape_of(ss: Seq<RemoteSnapshotView>, id: Seq<char>, n: nat) -> Option<
    Option<Seq<Seq<char>>>,
>
    decreases n,
{
    if n == 0 || n > ss.len() {
        None
    } else {
        let front = last_shape_of(ss, id, (n - 1) as nat);
        match ss[n - 1].state {
            Some(s) => match last_shape(
                ss[n - 1].connection_id,
                s.projects,
                id,
                s.projects.len(),
            ) {
                Some(x) => Some(x),
                None => front,
            },
            None => front,
        }
    }
}

proof fn keeping_a_layout_keeps_its_shape(l: Option<LayoutView>, s: Option<LayoutView>)
    ensures
        shape(kept_layout(l, s)) == shape(s),
{
    match (l, s) {
        (Some(l), Some(s)) => {
            merging_keeps_the_servers_terminals(s, Some(l), l);
        },
        _ => {},
    }
}

/// What one reported project does: its terminals are the reported ones, the
/// other projects stay, and it is listed last if it is new.
proof fn one_project_synced(
    c: ClientView,
    conn: Seq<char>,
    host: Seq<char>,
    p: ApiProjectView,
    x: Seq<char>,
)
    ensures
        ({
            let e = project_synced(c, conn, host, p);
            let id = remote_id(conn, p.id);
            &&& shape_in(e.data.projects, x) == if x == id {
                Some(shape(reported_layout(conn, p)))
            } else {
                shape_in(c.data.projects, x)
            }
            &&& project_ids(e.data.projects) == if project_ids(c.data.projects).contains(id) {
                project_ids(c.data.projects)
            } else {
                project_ids(c.data.projects).push(id)
            }
            &&& e.data.folders == c.data.folders
            &&& e.data.project_order == c.data.project_order
            &&& e.sync.focus == c.sync.focus
            &&& e.sync.close_focus == c.sync.close_focus
        }),
{
    let id = remote_id(conn, p.id);
    let ps = c.data.projects;
    let e = project_synced(c, conn, host, p);
    position_is_first(project_ids(ps), id);
    position_is_first(project_ids(ps), x);
    match project_in(ps, id) {
        Some(row) => {
            let i = project_at(ps, id)->0;
            assert(row.id == id);
            keeping_a_layout_keeps_its_shape(row.layout, reported_layout(conn, p));
            assert(project_ids(e.data.projects) =~= project_ids(ps));
            assert(e.data.projects[i] == refreshed(row, conn, p));
        },
        None => {
            let a = appeared(c, conn, p);
            assert(a.data.projects.drop_last() =~= ps);
            assert(project_ids(a.data.projects) =~= project_ids(ps).push(id));
            assert(project_ids(ps).push(id).drop_last() =~= project_ids(ps));
            match crate::collections::lookup(c.sync.project_layouts, id) {
                Some(l) => {
                    keeping_a_layout_keeps_its_shape(Some(l), reported_layout(conn, p));
                },
                None => {},
            }
            assert(a.data.projects.last().id == id);
            assert(shape(a.data.projects.last().layout) == shape(reported_layout(conn, p)));
        },
    }
}

/// A reported project is listed last if it is new.
pub proof fn one_project_listed(
    c: ClientView,
    conn: Seq<char>,
    host: Seq<char>,
    p: ApiProjectView,
)
    ensures
        project_ids(project_synced(c, conn, host, p).data.projects) == if project_ids(
            c.data.projects,
        ).contains(remote_id(conn, p.id)) {
            project_ids(c.data.projects)
        } else {
            project_ids(c.data.projects).push(remote_id(conn, p.id))
        },
{
    one_project_synced(c, conn, host, p, p.id);
}

/// What the reported projects of a connection do.
proof fn some_projects_synced(
    c: ClientView,
    conn: Seq<char>,
    host: Seq<char>,
    ps: Seq<ApiProjectView>,
    n: nat,
    x: Seq<char>,
)
    requires
        n <= ps.len(),
    ensures
        ({
            let e = projects_synced(c, conn, host, ps, n);
            &&& shape_in(e.data.projects, x) == match last_shape(conn, ps, x, n) {
                Some(s) => Some(s),
                None => shape_in(c.data.projects, x),
            }
            &&& (forall|i: int|
                0 <= i < n ==> project_ids(c.data.projects).contains(
                    remote_id(conn, (#[trigger] ps[i]).id),
                )) ==> project_ids(e.data.projects) == project_ids(c.data.projects)
            &&& e.data.folders == c.data.folders
            &&& e.data.project_order == c.data.project_order
            &&& e.sync.focus == c.sync.focus
            &&& e.sync.close_focus == c.sync.close_focus
        }),
    decreases n,
{
    if n > 0 {
        some_projects_synced(c, conn, host, ps, (n - 1) as nat, x);
        let mid = projects_synced(c, conn, host, ps, (n - 1) as nat);
        one_project_synced(mid, conn, host, ps[n - 1], x);
    }
}

/// Dropping rows that the filter refuses leaves the others to be found.
pub proof fn kept_rows_are_found(ps: Seq<ProjectView>, f: IdFilterView, x: Seq<char>)
    requires
        admits(f, x),
    ensures
        project_in(kept_rows(ps, f), x) == project_in(ps, x),
    decreases ps.len(),
{
    if ps.len() > 0 {
        kept_rows_are_found(ps.drop_last(), f, x);
        assert(project_ids(ps).drop_last() =~= project_ids(ps.drop_last()));
        position_is_first(project_ids(ps.drop_last()), x);
        let front = kept_rows(ps.drop_last(), f);
        position_is_first(project_ids(front), x);
        if admits(f, ps.last().id) {
            assert(project_ids(front.push(ps.last())).drop_last() =~= project_ids(front));
        }
    }
}

proof fn all_rows_kept(ps: Seq<ProjectView>, f: IdFilterView)
    requires
        forall|i: int| 0 <= i < ps.len() ==> admits(f, (#[trigger] ps[i]).id),
    ensures
        kept_rows(ps, f) == ps,
    decreases ps.len(),
{
    if ps.len() > 0 {
        assert forall|i: int| 0 <= i < ps.drop_last().len() implies admits(
            f,
            (#[trigger] ps.drop_last()[i]).id,
        ) by {
            assert(ps.drop_last()[i] == ps[i]);
        }
        all_rows_kept(ps.drop_last(), f);
        assert(admits(f, ps[ps.len() - 1].id));
        assert(ps.drop_last().push(ps.last()) =~= ps);
    }
}

/// After the first `n` connections a project has the terminals that were
/// reported of it last.
proof fn reports_arrive(c: ClientView, ss: Seq<RemoteSnapshotView>, n: nat, x: Seq<char>)
    requires
        n <= ss.len(),
        forall|j: int|
            0 <= j < ss.len() && (#[trigger] ss[j]).state is None ==> !has_prefix(
                x,
                remote_prefix(ss[j].connection_id),
            ),
    ensures
        shape_in(connections_synced(c, ss, n).data.projects, x) == match last_shape_of(ss, x, n) {
            Some(s) => Some(s),
            None => shape_in(c.data.projects, x),
        },
    decreases n,
{
    if n > 0 {
        reports_arrive(c, ss, (n - 1) as nat, x);
        let mid = connections_synced(c, ss, (n - 1) as nat);
        let s = ss[n - 1];
        match s.state {
            Some(state) => {
                some_projects_synced(
                    mid,
                    s.connection_id,
                    s.host,
                    state.projects,
                    state.projects.len(),
                    x,
                );
                order_keeps_projects(mid, s);
            },
            None => {
                kept_rows_are_found(
                    mid.data.projects,
                    IdFilterView::NotPrefixed(remote_prefix(s.connection_id)),
                    x,
                );
            },
        }
    }
}

/// Taking over a connection's order and folders leaves its projects alone.
pub proof fn order_keeps_projects(c: ClientView, s: RemoteSnapshotView)
    requires
        s.state is Some,
    ensures
        ({
            let state = s.state->0;
            let e = projects_synced(
                c,
                s.connection_id,
                s.host,
                state.projects,
                state.projects.len(),
            );
            &&& connection_synced(c, s).data.projects == e.data.projects
            &&& connection_synced(c, s).sync == e.sync
        }),
{
    let state = s.state->0;
    let e = projects_synced(c, s.connection_id, s.host, state.projects, state.projects.len());
    let folders = reported_folders(s.connection_id, state.project_order, state.folders);
    let gone = crate::remote_apply::departed_folders(
        e.data.folders,
        remote_prefix(s.connection_id),
        folder_ids(folders),
    );
    forgetting_keeps_rows(e.data, gone, gone.len());
}

/// What is expected was reported, by a connection that is there.
proof fn expected_is_reported(ss: Seq<RemoteSnapshotView>, x: Seq<char>)
    requires
        expected_ids(ss).contains(x),
    ensures
        last_shape_of(ss, x, ss.len()) is Some,
        exists|j: int|
            0 <= j < ss.len() && (#[trigger] ss[j]).state is Some && has_prefix(
                x,
                remote_prefix(ss[j].connection_id),
            ),
    decreases ss.len(),
{
    let front = ss.drop_last();
    let last = ss.last();
    shapes_of_a_prefix(ss, x, front.len());
    if expected_ids(front).contains(x) {
        expected_is_reported(front, x);
        let j = choose|j: int|
            0 <= j < front.len() && (#[trigger] front[j]).state is Some && has_prefix(
                x,
                remote_prefix(front[j].connection_id),
            );
        assert(ss[j] == front[j]);
    } else {
        let state = last.state->0;
        let own = remote_ids(last.connection_id, api_project_ids(state.projects));
        let k = choose|k: int| 0 <= k < expected_ids(ss).len() && expected_ids(ss)[k] == x;
        let m = k - expected_ids(front).len();
        if m < 0 {
            assert(expected_ids(front)[k] == x);
        }
        assert(own[m] == x);
        assert(remote_id(last.connection_id, state.projects[m].id) == x);
        remote_ids_are_prefixed(last.connection_id, state.projects[m].id);
        reported_has_shape(last.connection_id, state.projects, x, m, state.projects.len());
        assert(ss[ss.len() - 1] == last);
    }
}

proof fn reported_has_shape(
    conn: Seq<char>,
    ps: Seq<ApiProjectView>,
    x: Seq<char>,
    m: int,
    n: nat,
)
    requires
        0 <= m < n <= ps.len(),
        remote_id(conn, ps[m].id) == x,
    ensures
        last_shape(conn, ps, x, n) is Some,
    decreases n,
{
    if m < n - 1 {
        reported_has_shape(conn, ps, x, m, (n - 1) as nat);
    }
}

proof fn shapes_of_a_prefix(ss: Seq<RemoteSnapshotView>, x: Seq<char>, n: nat)
    requires
        n < ss.len() || ss.len() == 0,
        n <= ss.drop_last().len(),
    ensures
        ss.len() > 0 ==> last_shape_of(ss, x, n) == last_shape_of(ss.drop_last(), x, n),
    decreases n,
{
    if n > 0 && ss.len() > 0 {
        shapes_of_a_prefix(ss, x, (n - 1) as nat);
        assert(ss.drop_last()[n - 1] == ss[n - 1]);
    }
}

/// What is expected is prefixed by no connection that reports nothing.
pub proof fn expected_is_connected(ss: Seq<RemoteSnapshotView>, x: Seq<char>, j: int)
    requires
        distinct_connections(ss),
        expected_ids(ss).contains(x),
        0 <= j < ss.len(),
        ss[j].state is None,
    ensures
        !has_prefix(x, remote_prefix(ss[j].connection_id)),
{
    expected_is_reported(ss, x);
    let i = choose|i: int|
        0 <= i < ss.len() && (#[trigger] ss[i]).state is Some && has_prefix(
            x,
            remote_prefix(ss[i].connection_id),
        );
    if has_prefix(x, remote_prefix(ss[j].connection_id)) {
        names_one_connection(ss, i, j, x);
    }
}

/// After a sync an expected project has the terminals that were reported of it
/// last.
proof fn expected_shapes(c: ClientView, ss: Seq<RemoteSnapshotView>, x: Seq<char>)
    requires
        distinct_connections(ss),
        expected_ids(ss).contains(x),
    ensures
        last_shape_of(ss, x, ss.len()) is Some,
        shape_in(reconciled(c, ss).data.projects, x) == last_shape_of(ss, x, ss.len()),
{
    assert forall|j: int| 0 <= j < ss.len() && (#[trigger] ss[j]).state is None implies !has_prefix(
        x,
        remote_prefix(ss[j].connection_id),
    ) by {
        expected_is_connected(ss, x, j);
    }
    expected_is_reported(ss, x);
    reports_arrive(c, ss, ss.len(), x);
    let mid = connections_synced(c, ss, ss.len());
    forgetting_all_keeps_rows(mid, ss);
    kept_rows_are_found(mid.data.projects, IdFilterView::In(expected_ids(ss)), x);
}

/// After a sync every reported project is there.
pub proof fn reported_projects_are_there(
    c: ClientView,
    ss: Seq<RemoteSnapshotView>,
    window: WindowId,
    id: Seq<char>,
)
    requires
        distinct_connections(ss),
        expected_ids(ss).contains(id),
    ensures
        project_ids(applied(c, ss, window).data.projects).contains(id),
{
    expected_shapes(c, ss, id);
    let r = reconciled(c, ss);
    position_is_first(project_ids(r.data.projects), id);
    let targets = all_targets(r.data, r.sync, window);
    bringing_forward_keeps_ids(r.data.projects, targets, targets.len());
}

/// Where every project is expected and every expected one is there, no
/// connection adds or drops one.
proof fn same_projects(c: ClientView, ss: Seq<RemoteSnapshotView>, n: nat)
    requires
        n <= ss.len(),
        distinct_connections(ss),
        forall|x: Seq<char>| #[trigger]
            expected_ids(ss).contains(x) <==> project_ids(c.data.projects).contains(x),
    ensures
        project_ids(connections_synced(c, ss, n).data.projects) == project_ids(c.data.projects),
        connections_synced(c, ss, n).sync.focus == c.sync.focus,
        connections_synced(c, ss, n).sync.close_focus == c.sync.close_focus,
    decreases n,
{
    if n > 0 {
        same_projects(c, ss, (n - 1) as nat);
        let mid = connections_synced(c, ss, (n - 1) as nat);
        let s = ss[n - 1];
        match s.state {
            Some(state) => {
                assert forall|i: int| 0 <= i < state.projects.len() implies project_ids(
                    mid.data.projects,
                ).contains(remote_id(s.connection_id, (#[trigger] state.projects[i]).id)) by {
                    reported_is_expected(ss, n - 1, i);
                }
                some_projects_synced(
                    mid,
                    s.connection_id,
                    s.host,
                    state.projects,
                    state.projects.len(),
                    Seq::empty(),
                );
                order_keeps_projects(mid, s);
            },
            None => {
                let f = IdFilterView::NotPrefixed(remote_prefix(s.connection_id));
                assert forall|i: int| 0 <= i < mid.data.projects.len() implies admits(
                    f,
                    (#[trigger] mid.data.projects[i]).id,
                ) by {
                    let x = mid.data.projects[i].id;
                    assert(project_ids(mid.data.projects)[i] == x);
                    assert(project_ids(c.data.projects).contains(x));
                    expected_is_connected(ss, x, n - 1);
                }
                all_rows_kept(mid.data.projects, f);
            },
        }
    }
}

/// What a connection reports is expected.
pub proof fn reported_is_expected(ss: Seq<RemoteSnapshotView>, j: int, i: int)
    requires
        0 <= j < ss.len(),
        ss[j].state is Some,
        0 <= i < (ss[j].state->0).projects.len(),
    ensures
        expected_ids(ss).contains(
            remote_id(ss[j].connection_id, (ss[j].state->0).projects[i].id),
        ),
    decreases ss.len(),
{
    let x = remote_id(ss[j].connection_id, (ss[j].state->0).projects[i].id);
    let front = expected_ids(ss.drop_last());
    if j == ss.len() - 1 {
        let own = remote_ids(ss[j].connection_id, api_project_ids((ss[j].state->0).projects));
        assert(own[i] == x);
        assert((front + own)[front.len() + i] == x);
    } else {
        assert(ss.drop_last()[j] == ss[j]);
        reported_is_expected(ss.drop_last(), j, i);
        let k = choose|k: int| 0 <= k < front.len() && front[k] == x;
        assert(expected_ids(ss)[k] == x);
    }
}

/// The folders `fs` without those of the first `n` connections.
spec fn other_folders(fs: Seq<FolderView>, ss: Seq<RemoteSnapshotView>, n: nat) -> Seq<FolderView>
    decreases n,
{
    if n == 0 || n > ss.len() {
        fs
    } else {
        kept_folders(
            other_folders(fs, ss, (n - 1) as nat),
            IdFilterView::NotPrefixed(remote_prefix(ss[n - 1].connection_id)),
        )
    }
}

/// The folders that the first `n` connections report.
spec fn all_reported_folders(ss: Seq<RemoteSnapshotView>, n: nat) -> Seq<FolderView>
    decreases n,
{
    if n == 0 || n > ss.len() {
        Seq::empty()
    } else {
        all_reported_folders(ss, (n - 1) as nat) + match ss[n - 1].state {
            Some(s) => reported_folders(ss[n - 1].connection_id, s.project_order, s.folders),
            None => Seq::empty(),
        }
    }
}

proof fn reported_folders_are_prefixed(
    conn: Seq<char>,
    order: Seq<Seq<char>>,
    fs: Seq<FolderView>,
    i: int,
)
    requires
        0 <= i < reported_folders(conn, order, fs).len(),
    ensures
        has_prefix(reported_folders(conn, order, fs)[i].id, remote_prefix(conn)),
    decreases order.len(),
{
    let front = reported_folders(conn, order.drop_last(), fs);
    if i < front.len() {
        reported_folders_are_prefixed(conn, order.drop_last(), fs, i);
    } else {
        remote_ids_are_prefixed(
            conn,
            (crate::remote_apply::last_folder(fs, order.last())->0).id,
        );
    }
}

/// Each reported folder names a connection.
proof fn all_reported_folders_are_prefixed(ss: Seq<RemoteSnapshotView>, n: nat, i: int)
    requires
        n <= ss.len(),
        0 <= i < all_reported_folders(ss, n).len(),
    ensures
        exists|j: int|
            0 <= j < n && has_prefix(
                all_reported_folders(ss, n)[i].id,
                remote_prefix((#[trigger] ss[j]).connection_id),
            ),
    decreases n,
{
    let front = all_reported_folders(ss, (n - 1) as nat);
    if i < front.len() {
        all_reported_folders_are_prefixed(ss, (n - 1) as nat, i);
    } else {
        let s = ss[n - 1].state->0;
        reported_folders_are_prefixed(
            ss[n - 1].connection_id,
            s.project_order,
            s.folders,
            i - front.len(),
        );
        assert(has_prefix(
            all_reported_folders(ss, n)[i].id,
            remote_prefix(ss[n - 1].connection_id),
        ));
    }
}

proof fn kept_folders_concat(a: Seq<FolderView>, b: Seq<FolderView>, f: IdFilterView)
    ensures
        kept_folders(a + b, f) == kept_folders(a, f) + kept_folders(b, f),
    decreases b.len(),
{
    if b.len() == 0 {
        assert(a + b =~= a);
        assert(kept_folders(a, f) + kept_folders(b, f) =~= kept_folders(a, f));
    } else {
        kept_folders_concat(a, b.drop_last(), f);
        assert((a + b).drop_last() =~= a + b.drop_last());
        assert((a + b).last() == b.last());
        assert(kept_folders(a + b, f) =~= kept_folders(a, f) + kept_folders(b, f));
    }
}

proof fn all_folders_kept(fs: Seq<FolderView>, f: IdFilterView)
    requires
        forall|i: int| 0 <= i < fs.len() ==> admits(f, (#[trigger] fs[i]).id),
    ensures
        kept_folders(fs, f) == fs,
    decreases fs.len(),
{
    if fs.len() > 0 {
        assert forall|i: int| 0 <= i < fs.drop_last().len() implies admits(
            f,
            (#[trigger] fs.drop_last()[i]).id,
        ) by {
            assert(fs.drop_last()[i] == fs[i]);
        }
        all_folders_kept(fs.drop_last(), f);
        assert(admits(f, fs[fs.len() - 1].id));
        assert(fs.drop_last().push(fs.last()) =~= fs);
    }
}

proof fn kept_folder_was_there(fs: Seq<FolderView>, f: IdFilterView, i: int)
    requires
        0 <= i < kept_folders(fs, f).len(),
    ensures
        admits(f, kept_folders(fs, f)[i].id),
        fs.contains(kept_folders(fs, f)[i]),
    decreases fs.len(),
{
    let front = kept_folders(fs.drop_last(), f);
    if i < front.len() {
        kept_folder_was_there(fs.drop_last(), f, i);
        let k = choose|k: int|
            0 <= k < fs.drop_last().len() && fs.drop_last()[k] == kept_folders(fs, f)[i];
        assert(fs[k] == kept_folders(fs, f)[i]);
    } else {
        assert(fs[fs.len() - 1] == kept_folders(fs, f)[i]);
    }
}

/// What is left of folders names none of the connections and was there.
proof fn other_folder_is_of_none(
    fs: Seq<FolderView>,
    ss: Seq<RemoteSnapshotView>,
    n: nat,
    i: int,
    j: int,
)
    requires
        n <= ss.len(),
        0 <= i < other_folders(fs, ss, n).len(),
        0 <= j < n,
    ensures
        !has_prefix(other_folders(fs, ss, n)[i].id, remote_prefix(ss[j].connection_id)),
        fs.contains(other_folders(fs, ss, n)[i]),
    decreases n,
{
    let mid = other_folders(fs, ss, (n - 1) as nat);
    let f = IdFilterView::NotPrefixed(remote_prefix(ss[n - 1].connection_id));
    kept_folder_was_there(mid, f, i);
    let k = choose|k: int| 0 <= k < mid.len() && mid[k] == other_folders(fs, ss, n)[i];
    if n > 1 {
        let m = if j < n - 1 {
            j
        } else {
            0
        };
        other_folder_is_of_none(fs, ss, (n - 1) as nat, k, m);
    } else {
        assert(mid == fs);
    }
}

proof fn other_folders_concat(
    a: Seq<FolderView>,
    b: Seq<FolderView>,
    ss: Seq<RemoteSnapshotView>,
    n: nat,
)
    ensures
        other_folders(a + b, ss, n) == other_folders(a, ss, n) + other_folders(b, ss, n),
    decreases n,
{
    if n > 0 && n <= ss.len() {
        other_folders_concat(a, b, ss, (n - 1) as nat);
        kept_folders_concat(
            other_folders(a, ss, (n - 1) as nat),
            other_folders(b, ss, (n - 1) as nat),
            IdFilterView::NotPrefixed(remote_prefix(ss[n - 1].connection_id)),
        );
    }
}

proof fn other_folders_stay(fs: Seq<FolderView>, ss: Seq<RemoteSnapshotView>, n: nat)
    requires
        n <= ss.len(),
        forall|i: int, j: int|
            0 <= i < fs.len() && 0 <= j < ss.len() ==> !has_prefix(
                (#[trigger] fs[i]).id,
                remote_prefix((#[trigger] ss[j]).connection_id),
            ),
    ensures
        other_folders(fs, ss, n) == fs,
    decreases n,
{
    if n > 0 {
        other_folders_stay(fs, ss, (n - 1) as nat);
        let f = IdFilterView::NotPrefixed(remote_prefix(ss[n - 1].connection_id));
        assert forall|i: int| 0 <= i < fs.len() implies admits(f, (#[trigger] fs[i]).id) by {
            assert(!has_prefix(fs[i].id, remote_prefix(ss[n - 1].connection_id)));
        }
        all_folders_kept(fs, f);
    }
}

/// The reported folders are none but those of the connections.
proof fn no_other_folder_is_reported(ss: Seq<RemoteSnapshotView>)
    ensures
        other_folders(all_reported_folders(ss, ss.len()), ss, ss.len()) == Seq::<
            FolderView,
        >::empty(),
{
    let all = all_reported_folders(ss, ss.len());
    let rest = other_folders(all, ss, ss.len());
    if ss.len() > 0 && rest.len() > 0 {
        other_folder_is_of_none(all, ss, ss.len(), 0, 0);
        let i = choose|i: int| 0 <= i < all.len() && all[i] == rest[0];
        all_reported_folders_are_prefixed(ss, ss.len(), i);
        let j = choose|j: int|
            0 <= j < ss.len() && has_prefix(
                all[i].id,
                remote_prefix((#[trigger] ss[j]).connection_id),
            );
        other_folder_is_of_none(all, ss, ss.len(), 0, j);
    }
    assert(rest =~= Seq::<FolderView>::empty());
}

/// The folders after the first `n` connections: those of none of them, and then
/// the reported ones.
proof fn folders_after(c: ClientView, ss: Seq<RemoteSnapshotView>, n: nat)
    requires
        n <= ss.len(),
        distinct_connections(ss),
    ensures
        connections_synced(c, ss, n).data.folders == other_folders(c.data.folders, ss, n)
            + all_reported_folders(ss, n),
    decreases n,
{
    if n == 0 {
        assert(c.data.folders + Seq::<FolderView>::empty() =~= c.data.folders);
    } else {
        folders_after(c, ss, (n - 1) as nat);
        let mid = connections_synced(c, ss, (n - 1) as nat);
        let s = ss[n - 1];
        let f = IdFilterView::NotPrefixed(remote_prefix(s.connection_id));
        let base = other_folders(c.data.folders, ss, (n - 1) as nat);
        let before = all_reported_folders(ss, (n - 1) as nat);
        kept_folders_concat(base, before, f);
        assert forall|i: int| 0 <= i < before.len() implies admits(f, (#[trigger] before[i]).id) by {
            all_reported_folders_are_prefixed(ss, (n - 1) as nat, i);
            let j = choose|j: int|
                0 <= j < n - 1 && has_prefix(
                    before[i].id,
                    remote_prefix((#[trigger] ss[j]).connection_id),
                );
            if has_prefix(before[i].id, remote_prefix(s.connection_id)) {
                names_one_connection(ss, j, n - 1, before[i].id);
            }
        }
        all_folders_kept(before, f);
        match s.state {
            Some(state) => {
                some_projects_synced(
                    mid,
                    s.connection_id,
                    s.host,
                    state.projects,
                    state.projects.len(),
                    Seq::empty(),
                );
            },
            None => {},
        }
        assert(connections_synced(c, ss, n).data.folders =~= other_folders(c.data.folders, ss, n)
            + all_reported_folders(ss, n));
    }
}

/// What the client calls something of one of the connections is of them.
proof fn of_the_connections(ss: Seq<RemoteSnapshotView>, j: int, id: Seq<char>)
    requires
        distinct_connections(ss),
        0 <= j < ss.len(),
        has_prefix(id, remote_prefix(ss[j].connection_id)),
    ensures
        admits(IdFilterView::OfConnections(active_connections(ss)), id),
{
    prefix_names_the_connection(id, ss[j].connection_id);
    assert(active_connections(ss)[j] == ss[j].connection_id);
}

/// The folders that a sync leaves, and that a second one does.
proof fn same_folders(c: ClientView, ss: Seq<RemoteSnapshotView>, again: ClientView)
    requires
        distinct_connections(ss),
        again.data.folders == reconciled(c, ss).data.folders,
    ensures
        reconciled(again, ss).data.folders == again.data.folders,
{
    let n = ss.len();
    let of = IdFilterView::OfConnections(active_connections(ss));
    let base = other_folders(c.data.folders, ss, n);
    let all = all_reported_folders(ss, n);
    folders_after(c, ss, n);
    forgetting_all_keeps_rows(connections_synced(c, ss, n), ss);
    kept_folders_concat(base, all, of);
    assert forall|i: int| 0 <= i < all.len() implies admits(of, (#[trigger] all[i]).id) by {
        all_reported_folders_are_prefixed(ss, n, i);
        let j = choose|j: int|
            0 <= j < n && has_prefix(all[i].id, remote_prefix((#[trigger] ss[j]).connection_id));
        of_the_connections(ss, j, all[i].id);
    }
    all_folders_kept(all, of);
    let kept = kept_folders(base, of);
    assert(again.data.folders == kept + all);
    folders_after(again, ss, n);
    forgetting_all_keeps_rows(connections_synced(again, ss, n), ss);
    other_folders_concat(kept, all, ss, n);
    no_other_folder_is_reported(ss);
    assert forall|i: int, j: int| 0 <= i < kept.len() && 0 <= j < ss.len() implies !has_prefix(
        (#[trigger] kept[i]).id,
        remote_prefix((#[trigger] ss[j]).connection_id),
    ) by {
        kept_folder_was_there(base, of, i);
        let k = choose|k: int| 0 <= k < base.len() && base[k] == kept[i];
        other_folder_is_of_none(c.data.folders, ss, n, k, j);
    }
    other_folders_stay(kept, ss, n);
    assert(kept + Seq::<FolderView>::empty() =~= kept);
    kept_folders_concat(kept, all, of);
    assert forall|i: int| 0 <= i < kept.len() implies admits(of, (#[trigger] kept[i]).id) by {
        kept_folder_was_there(base, of, i);
    }
    all_folders_kept(kept, of);
}

/// The ids `s` without those of the first `n` connections.
spec fn other_ids(s: Seq<Seq<char>>, ss: Seq<RemoteSnapshotView>, n: nat) -> Seq<Seq<char>>
    decreases n,
{
    if n == 0 || n > ss.len() {
        s
    } else {
        without_prefix(
            other_ids(s, ss, (n - 1) as nat),
            remote_prefix(ss[n - 1].connection_id),
        )
    }
}

/// The orders that the first `n` connections report.
spec fn all_reported_orders(ss: Seq<RemoteSnapshotView>, n: nat) -> Seq<Seq<char>>
    decreases n,
{
    if n == 0 || n > ss.len() {
        Seq::empty()
    } else {
        all_reported_orders(ss, (n - 1) as nat) + match ss[n - 1].state {
            Some(s) => reported_order(ss[n - 1].connection_id, s),
            None => Seq::empty(),
        }
    }
}

/// Each id of a reported order names a connection.
proof fn all_reported_orders_are_prefixed(ss: Seq<RemoteSnapshotView>, n: nat, i: int)
    requires
        n <= ss.len(),
        0 <= i < all_reported_orders(ss, n).len(),
    ensures
        exists|j: int|
            0 <= j < n && has_prefix(
                all_reported_orders(ss, n)[i],
                remote_prefix((#[trigger] ss[j]).connection_id),
            ),
    decreases n,
{
    let front = all_reported_orders(ss, (n - 1) as nat);
    if i < front.len() {
        all_reported_orders_are_prefixed(ss, (n - 1) as nat, i);
    } else {
        let s = ss[n - 1].state->0;
        let k = i - front.len();
        let conn = ss[n - 1].connection_id;
        if s.project_order.len() == 0 {
            remote_ids_are_prefixed(conn, api_project_ids(s.projects)[k]);
        } else {
            remote_ids_are_prefixed(conn, s.project_order[k]);
        }
        assert(has_prefix(all_reported_orders(ss, n)[i], remote_prefix(ss[n - 1].connection_id)));
    }
}

proof fn without_prefix_concat(a: Seq<Seq<char>>, b: Seq<Seq<char>>, p: Seq<char>)
    ensures
        without_prefix(a + b, p) == without_prefix(a, p) + without_prefix(b, p),
    decreases b.len(),
{
    if b.len() == 0 {
        assert(a + b =~= a);
        assert(without_prefix(a, p) + without_prefix(b, p) =~= without_prefix(a, p));
    } else {
        without_prefix_concat(a, b.drop_last(), p);
        assert((a + b).drop_last() =~= a + b.drop_last());
        assert((a + b).last() == b.last());
        assert(without_prefix(a + b, p) =~= without_prefix(a, p) + without_prefix(b, p));
    }
}

proof fn nothing_prefixed(s: Seq<Seq<char>>, p: Seq<char>)
    requires
        forall|i: int| 0 <= i < s.len() ==> !has_prefix(#[trigger] s[i], p),
    ensures
        without_prefix(s, p) == s,
    decreases s.len(),
{
    if s.len() > 0 {
        assert forall|i: int| 0 <= i < s.drop_last().len() implies !has_prefix(
            #[trigger] s.drop_last()[i],
            p,
        ) by {
            assert(s.drop_last()[i] == s[i]);
        }
        nothing_prefixed(s.drop_last(), p);
        assert(!has_prefix(s[s.len() - 1], p));
        assert(s.drop_last().push(s.last()) =~= s);
    }
}

proof fn unprefixed_was_there(s: Seq<Seq<char>>, p: Seq<char>, i: int)
    requires
        0 <= i < without_prefix(s, p).len(),
    ensures
        !has_prefix(without_prefix(s, p)[i], p),
        s.contains(without_prefix(s, p)[i]),
    decreases s.len(),
{
    let front = without_prefix(s.drop_last(), p);
    contains_last(s);
    if i < front.len() {
        unprefixed_was_there(s.drop_last(), p, i);
    } else {
        assert(s[s.len() - 1] == without_prefix(s, p)[i]);
    }
}

/// What is left of ids names none of the connections and was there.
proof fn other_id_is_of_none(
    s: Seq<Seq<char>>,
    ss: Seq<RemoteSnapshotView>,
    n: nat,
    i: int,
    j: int,
)
    requires
        n <= ss.len(),
        0 <= i < other_ids(s, ss, n).len(),
        0 <= j < n,
    ensures
        !has_prefix(other_ids(s, ss, n)[i], remote_prefix(ss[j].connection_id)),
        s.contains(other_ids(s, ss, n)[i]),
    decreases n,
{
    let mid = other_ids(s, ss, (n - 1) as nat);
    unprefixed_was_there(mid, remote_prefix(ss[n - 1].connection_id), i);
    let k = choose|k: int| 0 <= k < mid.len() && mid[k] == other_ids(s, ss, n)[i];
    if n > 1 {
        let m = if j < n - 1 {
            j
        } else {
            0
        };
        other_id_is_of_none(s, ss, (n - 1) as nat, k, m);
    } else {
        assert(mid == s);
    }
}

proof fn other_ids_concat(
    a: Seq<Seq<char>>,
    b: Seq<Seq<char>>,
    ss: Seq<RemoteSnapshotView>,
    n: nat,
)
    ensures
        other_ids(a + b, ss, n) == other_ids(a, ss, n) + other_ids(b, ss, n),
    decreases n,
{
    if n > 0 && n <= ss.len() {
        other_ids_concat(a, b, ss, (n - 1) as nat);
        without_prefix_concat(
            other_ids(a, ss, (n - 1) as nat),
            other_ids(b, ss, (n - 1) as nat),
            remote_prefix(ss[n - 1].connection_id),
        );
    }
}

proof fn other_ids_stay(s: Seq<Seq<char>>, ss: Seq<RemoteSnapshotView>, n: nat)
    requires
        n <= ss.len(),
        forall|i: int, j: int|
            0 <= i < s.len() && 0 <= j < ss.len() ==> !has_prefix(
                #[trigger] s[i],
                remote_prefix((#[trigger] ss[j]).connection_id),
            ),
    ensures
        other_ids(s, ss, n) == s,
    decreases n,
{
    if n > 0 {
        other_ids_stay(s, ss, (n - 1) as nat);
        let p = remote_prefix(ss[n - 1].connection_id);
        assert forall|i: int| 0 <= i < s.len() implies !has_prefix(#[trigger] s[i], p) by {
            assert(!has_prefix(s[i], remote_prefix(ss[n - 1].connection_id)));
        }
        nothing_prefixed(s, p);
    }
}

/// Ids that all name a connection leave none.
proof fn no_other_ids(s: Seq<Seq<char>>, ss: Seq<RemoteSnapshotView>)
    requires
        forall|i: int|
            0 <= i < s.len() ==> exists|j: int|
                0 <= j < ss.len() && has_prefix(
                    #[trigger] s[i],
                    remote_prefix((#[trigger] ss[j]).connection_id),
                ),
    ensures
        other_ids(s, ss, ss.len()) == Seq::<Seq<char>>::empty(),
{
    let rest = other_ids(s, ss, ss.len());
    if rest.len() > 0 {
        if ss.len() > 0 {
            other_id_is_of_none(s, ss, ss.len(), 0, 0);
        } else {
            assert(rest == s);
            assert(s[0] == rest[0]);
        }
        let i = choose|i: int| 0 <= i < s.len() && s[i] == rest[0];
        let j = choose|j: int|
            0 <= j < ss.len() && has_prefix(
                s[i],
                remote_prefix((#[trigger] ss[j]).connection_id),
            );
        other_id_is_of_none(s, ss, ss.len(), 0, j);
    }
    assert(rest =~= Seq::<Seq<char>>::empty());
}

/// The order after the first `n` connections.
proof fn order_after(c: ClientView, ss: Seq<RemoteSnapshotView>, n: nat)
    requires
        n <= ss.len(),
        distinct_connections(ss),
    ensures
        connections_synced(c, ss, n).data.project_order == other_ids(
            c.data.project_order,
            ss,
            n,
        ) + all_reported_orders(ss, n),
    decreases n,
{
    if n == 0 {
        assert(c.data.project_order + Seq::<Seq<char>>::empty() =~= c.data.project_order);
    } else {
        order_after(c, ss, (n - 1) as nat);
        let mid = connections_synced(c, ss, (n - 1) as nat);
        let s = ss[n - 1];
        let p = remote_prefix(s.connection_id);
        let base = other_ids(c.data.project_order, ss, (n - 1) as nat);
        let before = all_reported_orders(ss, (n - 1) as nat);
        without_prefix_concat(base, before, p);
        assert forall|i: int| 0 <= i < before.len() implies !has_prefix(#[trigger] before[i], p) by {
            all_reported_orders_are_prefixed(ss, (n - 1) as nat, i);
            let j = choose|j: int|
                0 <= j < n - 1 && has_prefix(
                    before[i],
                    remote_prefix((#[trigger] ss[j]).connection_id),
                );
            if has_prefix(before[i], p) {
                names_one_connection(ss, j, n - 1, before[i]);
            }
        }
        nothing_prefixed(before, p);
        match s.state {
            Some(state) => {
                some_projects_synced(
                    mid,
                    s.connection_id,
                    s.host,
                    state.projects,
                    state.projects.len(),
                    Seq::empty(),
                );
            },
            None => {},
        }
        assert(connections_synced(c, ss, n).data.project_order =~= other_ids(
            c.data.project_order,
            ss,
            n,
        ) + all_reported_orders(ss, n));
    }
}

pub proof fn sifted_concat(
    a: Seq<Seq<char>>,
    b: Seq<Seq<char>>,
    filter: Seq<Seq<char>>,
    keep: bool,
)
    ensures
        sifted(a + b, filter, keep) == sifted(a, filter, keep) + sifted(b, filter, keep),
    decreases b.len(),
{
    if b.len() == 0 {
        assert(a + b =~= a);
        assert(sifted(a, filter, keep) + sifted(b, filter, keep) =~= sifted(a, filter, keep));
    } else {
        sifted_concat(a, b.drop_last(), filter, keep);
        assert((a + b).drop_last() =~= a + b.drop_last());
        assert((a + b).last() == b.last());
        assert(sifted(a + b, filter, keep) =~= sifted(a, filter, keep) + sifted(
            b,
            filter,
            keep,
        ));
    }
}

proof fn sifting_twice(s: Seq<Seq<char>>, filter: Seq<Seq<char>>, keep: bool)
    ensures
        sifted(sifted(s, filter, keep), filter, keep) == sifted(s, filter, keep),
    decreases s.len(),
{
    if s.len() > 0 {
        sifting_twice(s.drop_last(), filter, keep);
        if filter.contains(s.last()) == keep {
            let front = sifted(s.drop_last(), filter, keep);
            assert(front.push(s.last()).drop_last() =~= front);
        }
    }
}

/// The order that a sync leaves, and that a second one does.
proof fn same_order(c: ClientView, ss: Seq<RemoteSnapshotView>, again: ClientView)
    requires
        distinct_connections(ss),
        again.data.project_order == reconciled(c, ss).data.project_order,
        reconciled(again, ss).data.folders == reconciled(c, ss).data.folders,
        project_ids(reconciled(again, ss).data.projects) == project_ids(
            reconciled(c, ss).data.projects,
        ),
    ensures
        reconciled(again, ss).data.project_order == again.data.project_order,
{
    let n = ss.len();
    let r = reconciled(c, ss);
    let known = project_ids(r.data.projects) + folder_ids(r.data.folders);
    let base = other_ids(c.data.project_order, ss, n);
    let all = all_reported_orders(ss, n);
    order_after(c, ss, n);
    forgetting_all_keeps_rows(connections_synced(c, ss, n), ss);
    sifted_concat(base, all, known, true);
    let kept = sifted(base, known, true);
    let listed = sifted(all, known, true);
    assert(again.data.project_order == kept + listed);
    order_after(again, ss, n);
    forgetting_all_keeps_rows(connections_synced(again, ss, n), ss);
    other_ids_concat(kept, listed, ss, n);
    sifted_members(base, known, true);
    sifted_members(all, known, true);
    assert forall|i: int, j: int| 0 <= i < kept.len() && 0 <= j < ss.len() implies !has_prefix(
        #[trigger] kept[i],
        remote_prefix((#[trigger] ss[j]).connection_id),
    ) by {
        assert(kept.contains(kept[i]));
        assert(base.contains(kept[i]));
        let k = choose|k: int| 0 <= k < base.len() && base[k] == kept[i];
        other_id_is_of_none(c.data.project_order, ss, n, k, j);
    }
    other_ids_stay(kept, ss, n);
    assert forall|i: int| 0 <= i < listed.len() implies exists|j: int|
        0 <= j < ss.len() && has_prefix(
            #[trigger] listed[i],
            remote_prefix((#[trigger] ss[j]).connection_id),
        ) by {
        assert(listed.contains(listed[i]));
        assert(all.contains(listed[i]));
        let k = choose|k: int| 0 <= k < all.len() && all[k] == listed[i];
        all_reported_orders_are_prefixed(ss, n, k);
    }
    no_other_ids(listed, ss);
    assert(kept + Seq::<Seq<char>>::empty() =~= kept);
    sifted_concat(kept, all, known, true);
    sifting_twice(base, known, true);
}

proof fn no_request_left(s: Seq<FocusRequestView>, window: WindowId)
    ensures
        focus_of(focus_of(s, window, false), window, true) == Seq::<FocusRequestView>::empty(),
    decreases s.len(),
{
    if s.len() > 0 {
        no_request_left(s.drop_last(), window);
        if s.last().window != window {
            let front = focus_of(s.drop_last(), window, false);
            assert(front.push(s.last()).drop_last() =~= front);
        }
    }
}

proof fn no_close_left(s: Seq<CloseFocusView>, window: WindowId)
    ensures
        close_of(closes_without(s, window), window) is None,
    decreases s.len(),
{
    if s.len() > 0 {
        no_close_left(s.drop_last(), window);
        if s.last().window != window {
            let front = closes_without(s.drop_last(), window);
            assert(front.push(s.last()).drop_last() =~= front);
        }
    }
}

proof fn the_close_is_the_windows(s: Seq<CloseFocusView>, window: WindowId)
    ensures
        close_of(s, window) is Some ==> (close_of(s, window)->0).window == window,
    decreases s.len(),
{
    if s.len() > 0 {
        the_close_is_the_windows(s.drop_last(), window);
    }
}

/// A close that has been looked at puts the focus nowhere the next time, where
/// the projects have the same terminals.
proof fn no_close_target_again(
    r: ClientView,
    q: ClientView,
    window: WindowId,
)
    requires
        q.sync.close_focus == close_settled(r.data, r.sync, window).close_focus,
        forall|x: Seq<char>| #[trigger]
            shape_in(r.data.projects, x) is Some ==> shape_in(q.data.projects, x) == shape_in(
                r.data.projects,
                x,
            ),
    ensures
        close_target(q.data, q.sync, window) is None,
{
    no_close_left(r.sync.close_focus, window);
    the_close_is_the_windows(r.sync.close_focus, window);
    match close_of(r.sync.close_focus, window) {
        Some(c) => {
            let x = c.project_id;
            assert(shape_in(r.data.projects, x) is Some ==> shape_in(q.data.projects, x)
                == shape_in(r.data.projects, x));
            let rest = closes_without(r.sync.close_focus, window);
            no_close_left(rest, window);
            if let Some(k) = close_of(q.sync.close_focus, window) {
                assert(k.project_id == c.project_id && k.closing_terminal_ids
                    == c.closing_terminal_ids);
            }
        },
        None => {},
    }
}

/// A second sync with the same reports, while nothing else happened, leaves the
/// projects, the order and the folders as they were and moves the focus nowhere.
pub proof fn syncing_again_changes_nothing(
    c: ClientView,
    ss: Seq<RemoteSnapshotView>,
    window: WindowId,
)
    requires
        distinct_connections(ss),
    ensures
        ({
            let once = applied(c, ss, window);
            let twice = applied(once, ss, window);
            let r = reconciled(once, ss);
            &&& project_ids(twice.data.projects) == project_ids(once.data.projects)
            &&& twice.data.project_order == once.data.project_order
            &&& twice.data.folders == once.data.folders
            &&& all_targets(r.data, r.sync, window) == Seq::<(Seq<char>, Seq<usize>)>::empty()
        }),
{
    let r1 = reconciled(c, ss);
    let t1 = all_targets(r1.data, r1.sync, window);
    let once = applied(c, ss, window);
    let r2 = reconciled(once, ss);
    let expected = expected_ids(ss);
    bringing_forward_keeps_ids(r1.data.projects, t1, t1.len());
    assert forall|x: Seq<char>| #[trigger]
        expected.contains(x) <==> project_ids(once.data.projects).contains(x) by {
        if expected.contains(x) {
            reported_projects_are_there(c, ss, window, x);
        }
        if project_ids(once.data.projects).contains(x) {
            only_reported_projects_stay(c, ss, window, x);
        }
    }
    same_projects(once, ss, ss.len());
    let mid = connections_synced(once, ss, ss.len());
    forgetting_all_keeps_rows(mid, ss);
    let gone = sifted(project_ids(mid.data.projects), expected, false);
    sifted_members(project_ids(mid.data.projects), expected, false);
    assert(gone =~= Seq::<Seq<char>>::empty()) by {
        if gone.len() > 0 {
            assert(gone.contains(gone[0]));
        }
    }
    assert forall|i: int| 0 <= i < mid.data.projects.len() implies admits(
        IdFilterView::In(expected),
        (#[trigger] mid.data.projects[i]).id,
    ) by {
        assert(project_ids(mid.data.projects)[i] == mid.data.projects[i].id);
        assert(project_ids(once.data.projects).contains(mid.data.projects[i].id));
    }
    all_rows_kept(mid.data.projects, IdFilterView::In(expected));
    assert(r2.data.projects == mid.data.projects);
    same_folders(c, ss, once);
    same_order(c, ss, once);
    dropping_keeps_requests(
        crate::remote_sync::without_outdated(
            mid.sync,
            active_connections(ss),
            synced_connections(ss),
            expected,
        ),
        gone,
        gone.len(),
    );
    let settled = close_settled(r1.data, r1.sync, window);
    assert(r2.sync.close_focus == settled.close_focus);
    assert(r2.sync.focus == focus_of(settled.focus, window, false));
    assert forall|x: Seq<char>| #[trigger] shape_in(r1.data.projects, x) is Some implies shape_in(
        r2.data.projects,
        x,
    ) == shape_in(r1.data.projects, x) by {
        position_is_first(project_ids(r1.data.projects), x);
        assert(project_ids(once.data.projects).contains(x));
        expected_shapes(c, ss, x);
        expected_shapes(once, ss, x);
    }
    no_close_target_again(r1, r2, window);
    no_request_left(settled.focus, window);
    let settled2 = close_settled(r2.data, r2.sync, window);
    assert(settled2.focus == r2.sync.focus);
    assert(new_targets(r2.data, focus_of(settled2.focus, window, true)) =~= Seq::<
        (Seq<char>, Seq<usize>),
    >::empty());
    let t2 = all_targets(r2.data, r2.sync, window);
    assert(t2 =~= Seq::<(Seq<char>, Seq<usize>)>::empty());
    bringing_forward_keeps_ids(r2.data.projects, t2, t2.len());
}

} // verus!
