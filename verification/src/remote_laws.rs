//! What holds of every sync with the connections.

use crate::collections::{lookup, lookup_after_store, sifted, sifted_members};
use crate::layout::{LayoutView, opt_terminal_ids};
use crate::layout_merge::merging_keeps_the_servers_terminals;
use crate::remote_api::{ApiProjectView, RemoteSnapshotView};
use crate::remote_apply::{
    ClientView, active_connections, all_brought_forward, all_targets, applied, brought_forward,
    connections_synced, disconnected, expected_ids, layouts_preserved, reconciled, refreshed,
    refused_folders, remote_prefix, reported_layout, synced_connections,
};
use crate::remote_sync::outdated_in;
use crate::rows::{IdFilterView, before_colon, connection_of, kept_rows_ids};
use crate::state::{DataView, ProjectView, WindowId, folder_ids, project_ids};
use crate::text::has_prefix;
use crate::windows::{all_forgotten, folders_forgotten};
use vstd::prelude::*;

verus! {

/// Bringing tabs to the front renames no project.
pub proof fn bringing_forward_keeps_ids(
    ps: Seq<ProjectView>,
    ts: Seq<(Seq<char>, Seq<usize>)>,
    n: nat,
)
    ensures
        project_ids(all_brought_forward(ps, ts, n)) == project_ids(ps),
    decreases n,
{
    if n > 0 && n <= ts.len() {
        bringing_forward_keeps_ids(ps, ts, (n - 1) as nat);
        let mid = all_brought_forward(ps, ts, (n - 1) as nat);
        let out = brought_forward(mid, ts[n - 1]);
        crate::collections::position_is_first(project_ids(mid), ts[n - 1].0);
        assert(project_ids(out) =~= project_ids(mid));
    }
}

/// After a sync the workspace holds no project but the reported ones.
pub proof fn only_reported_projects_stay(
    c: ClientView,
    ss: Seq<RemoteSnapshotView>,
    window: WindowId,
    id: Seq<char>,
)
    requires
        project_ids(applied(c, ss, window).data.projects).contains(id),
    ensures
        expected_ids(ss).contains(id),
{
    let r = reconciled(c, ss);
    let targets = all_targets(r.data, r.sync, window);
    bringing_forward_keeps_ids(r.data.projects, targets, targets.len());
    let d = all_forgotten_of(connections_synced(c, ss, ss.len()), ss);
    kept_rows_ids(d.projects, IdFilterView::In(expected_ids(ss)));
}

/// The data from which stale rows are then dropped.
pub open spec fn all_forgotten_of(c: ClientView, ss: Seq<RemoteSnapshotView>) -> DataView {
    let active = active_connections(ss);
    let expected = expected_ids(ss);
    let old_ids = outdated_in(c.sync, active, synced_connections(ss), expected);
    let gone = sifted(project_ids(c.data.projects), expected, false);
    let departed = refused_folders(c.data.folders, IdFilterView::OfConnections(active));
    folders_forgotten(
        all_forgotten(all_forgotten(c.data, old_ids, old_ids.len()), gone, gone.len()),
        departed,
        departed.len(),
    )
}

/// After a sync the order names nothing but projects and folders that are
/// there.
pub proof fn the_order_names_what_is_there(
    c: ClientView,
    ss: Seq<RemoteSnapshotView>,
    window: WindowId,
    id: Seq<char>,
)
    requires
        applied(c, ss, window).data.project_order.contains(id),
    ensures
        project_ids(applied(c, ss, window).data.projects).contains(id) || folder_ids(
            applied(c, ss, window).data.folders,
        ).contains(id),
{
    let r = reconciled(c, ss);
    let targets = all_targets(r.data, r.sync, window);
    bringing_forward_keeps_ids(r.data.projects, targets, targets.len());
    let d = all_forgotten_of(connections_synced(c, ss, ss.len()), ss);
    let known = project_ids(r.data.projects) + folder_ids(r.data.folders);
    sifted_members(d.project_order, known, true);
    assert(known.contains(id));
    let i = choose|i: int| 0 <= i < known.len() && known[i] == id;
    if i < project_ids(r.data.projects).len() {
        assert(project_ids(r.data.projects)[i] == id);
    } else {
        assert(folder_ids(r.data.folders)[i - project_ids(r.data.projects).len()] == id);
    }
}

/// Which terminals a project has is what its connection reports, whatever the
/// client showed of it before.
pub proof fn terminals_are_the_connections(row: ProjectView, conn: Seq<char>, p: ApiProjectView)
    ensures
        opt_terminal_ids(refreshed(row, conn, p).layout) == opt_terminal_ids(
            reported_layout(conn, p),
        ),
{
    match (row.layout, reported_layout(conn, p)) {
        (Some(l), Some(s)) => {
            merging_keeps_the_servers_terminals(s, Some(l), l);
        },
        _ => {},
    }
}

/// A connection that goes away for now takes no layout with it: each of its
/// projects finds its layout again.
pub proof fn a_disconnect_keeps_layouts(c: ClientView, conn: Seq<char>, i: int)
    requires
        0 <= i < c.data.projects.len(),
        project_ids(c.data.projects).no_duplicates(),
        has_prefix(c.data.projects[i].id, remote_prefix(conn)),
        c.data.projects[i].layout is Some,
    ensures
        lookup(disconnected(c, conn).sync.project_layouts, c.data.projects[i].id)
            == c.data.projects[i].layout,
{
    layouts_are_found(c.sync.project_layouts, c.data.projects, remote_prefix(conn), i);
}

proof fn layouts_are_found(
    layouts: Seq<(Seq<char>, LayoutView)>,
    ps: Seq<ProjectView>,
    prefix: Seq<char>,
    i: int,
)
    requires
        0 <= i < ps.len(),
        project_ids(ps).no_duplicates(),
        has_prefix(ps[i].id, prefix),
        ps[i].layout is Some,
    ensures
        lookup(layouts_preserved(layouts, ps, prefix), ps[i].id) == ps[i].layout,
    decreases ps.len(),
{
    let last = ps.last();
    let front = layouts_preserved(layouts, ps.drop_last(), prefix);
    if i == ps.len() - 1 {
        lookup_after_store(front, last.id, last.layout->0, last.id);
    } else {
        assert(project_ids(ps)[i] != project_ids(ps)[ps.len() - 1]);
        assert(project_ids(ps.drop_last()) =~= project_ids(ps).drop_last());
        layouts_are_found(layouts, ps.drop_last(), prefix, i);
        if last.layout is Some {
            lookup_after_store(front, last.id, last.layout->0, ps[i].id);
        }
    }
}

/// The part of an id behind `remote:` up to the next colon is the connection.
pub proof fn prefix_names_the_connection(id: Seq<char>, conn: Seq<char>)
    requires
        has_prefix(id, remote_prefix(conn)),
        forall|i: int| 0 <= i < conn.len() ==> conn[i] != ':',
    ensures
        has_prefix(id, "remote:"@),
        connection_of(id) == conn,
{
    reveal_strlit("remote:");
    reveal_strlit(":");
    let p = remote_prefix(conn);
    let n = "remote:"@.len() as int;
    assert forall|i: int| 0 <= i < p.len() implies #[trigger] id[i] == p[i] by {
        assert(id.take(p.len() as int)[i] == p[i]);
    }
    assert(id.take(n) =~= "remote:"@);
    let rest = id.skip(n);
    assert forall|i: int| 0 <= i < conn.len() implies #[trigger] rest[i] == conn[i] by {
        assert(id[n + i] == p[n + i]);
    }
    assert(rest[conn.len() as int] == ':') by {
        assert(id[n + conn.len()] == p[n + conn.len()]);
    }
    before_colon_is(rest, conn);
}

proof fn before_colon_is(s: Seq<char>, head: Seq<char>)
    requires
        s.len() > head.len(),
        forall|i: int| 0 <= i < head.len() ==> #[trigger] s[i] == head[i],
        s[head.len() as int] == ':',
        forall|i: int| 0 <= i < head.len() ==> head[i] != ':',
    ensures
        before_colon(s) == head,
    decreases head.len(),
{
    if head.len() == 0 {
        assert(before_colon(s) =~= head);
    } else {
        let h = head.skip(1);
        let t = s.skip(1);
        assert forall|i: int| 0 <= i < h.len() implies #[trigger] t[i] == h[i] by {
            assert(s[i + 1] == head[i + 1]);
        }
        assert forall|i: int| 0 <= i < h.len() implies h[i] != ':' by {
            assert(head[i + 1] != ':');
        }
        assert(s[0] == head[0] && head[0] != ':');
        before_colon_is(t, h);
        assert(seq![s[0]] + h =~= head);
    }
}

} // verus!
