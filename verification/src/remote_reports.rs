//! What a sync makes of each project that is reported.

use crate::collections::{lookup, lookup_after_store, position_is_first, without_prefix};
use crate::layout::{LayoutView, node_at, slot_path, terminal_ids};
use crate::layout_frames::{
    activating_keeps_terminals, activating_keeps_the_shape, editing_terminals_keeps_the_shape,
    frame_at, merging_keeps_the_servers_shape, representable, terminals_are_found,
    terminals_get_the_connections_names,
};
use crate::layout_merge::{
    merging_keeps_the_clients_presentation, merging_keeps_the_servers_terminals,
};
use crate::layout_terminals::{TerminalEditView, remote_id};
use crate::remote_again::{
    distinct_connections, forgetting_all_keeps_rows, kept_rows_are_found, names_one_connection,
    order_keeps_projects, remote_ids_are_prefixed, reported_is_expected,
};
use crate::remote_api::{ApiProjectView, RemoteSnapshotView, StateView};
use crate::remote_apply::{
    ClientView, all_brought_forward, all_targets, api_project_ids, appeared, applied,
    brought_forward, close_target, connections_synced, expected_ids, first_new, kept_layout,
    last_folder, new_target, none_left, order_synced, project_synced, projects_synced, reconciled,
    refreshed, remote_keys, remote_prefix, reported_folders, reported_layout, reported_services,
    shown_where_asked,
};
use crate::remote_laws::bringing_forward_keeps_ids;
use crate::remote_sync::{
    FocusRequestView, SyncView, VisibilityView, asked_for, close_of, request_for,
};
use crate::rows::{IdFilterView, kept_folders};
use crate::state::{
    DataView, FolderView, ProjectView, WindowId, project_at, project_ids, project_in, window_in,
};
use crate::text::has_prefix;
use crate::visibility::hidden_in;
use vstd::prelude::*;

verus! {

/// What the client calls what the connection `conn` calls `id`.
pub open spec fn named(conn: Seq<char>, id: Seq<char>) -> Seq<char> {
    "remote:"@ + conn + ":"@ + id
}

/// Whether each of `a` is what the client calls the one of `b` at its place.
pub open spec fn all_named(a: Seq<Seq<char>>, conn: Seq<char>, b: Seq<Seq<char>>) -> bool {
    &&& a.len() == b.len()
    &&& forall|i: int| 0 <= i < a.len() ==> #[trigger] a[i] == named(conn, b[i])
}

/// Whether the layout `a` is the reported layout `b`: the same splits, tabs and
/// slots, and in each slot the terminal that was reported there.
pub open spec fn layout_told(
    a: Option<LayoutView>,
    conn: Seq<char>,
    b: Option<LayoutView>,
) -> bool {
    match (a, b) {
        (Some(l), Some(m)) => {
            &&& all_named(terminal_ids(l), conn, terminal_ids(m))
            &&& forall|path: Seq<usize>|
                #![trigger frame_at(l, path)]
                frame_at(l, path) == frame_at(m, path)
        },
        (None, None) => true,
        _ => false,
    }
}

/// Whether the row tells of the project what the connection reports of it.
pub open spec fn tells(row: ProjectView, conn: Seq<char>, p: ApiProjectView) -> bool {
    &&& row.id == named(conn, p.id)
    &&& row.name == p.name
    &&& row.path == p.path
    &&& row.folder_color == p.folder_color
    &&& row.session == p.session
    &&& row.pinned == p.pinned
    &&& row.last_activity_at == p.last_activity_at
    &&& row.default_shell == p.default_shell
    &&& row.is_creating == p.is_creating
    &&& row.is_closing == p.is_closing
    &&& row.hooks == p.hooks
    &&& all_named(row.worktree_ids, conn, p.worktree_ids)
    &&& match (row.worktree_info, p.worktree_info) {
        (Some(a), Some(b)) => {
            &&& a.parent_project_id == named(conn, b.parent_project_id)
            &&& a.color_override == b.color_override
            &&& a.branch_name == b.branch_name
            &&& a.main_repo_path.len() == 0
            &&& a.worktree_path.len() == 0
        },
        (None, None) => true,
        _ => false,
    }
    &&& forall|k: Seq<char>|
        #![trigger lookup(p.terminal_names, k)]
        lookup(row.terminal_names, named(conn, k)) == lookup(p.terminal_names, k)
    &&& forall|k: Seq<char>|
        #![trigger lookup(p.hook_terminals, k)]
        lookup(row.hook_terminals, named(conn, k)) == lookup(p.hook_terminals, k)
    &&& layout_told(row.layout, conn, p.layout)
}

proof fn names_differ(conn: Seq<char>, a: Seq<char>, b: Seq<char>)
    requires
        remote_id(conn, a) == remote_id(conn, b),
    ensures
        a == b,
{
    let head = "remote:"@ + conn + ":"@;
    assert((head + a).skip(head.len() as int) =~= a);
    assert((head + b).skip(head.len() as int) =~= b);
}

proof fn keys_are_renamed<A>(conn: Seq<char>, m: Seq<(Seq<char>, A)>, k: Seq<char>)
    ensures
        lookup(remote_keys(conn, m), remote_id(conn, k)) == lookup(m, k),
    decreases m.len(),
{
    if m.len() > 0 {
        let front = m.drop_last();
        let last = m.last();
        keys_are_renamed(conn, front, k);
        lookup_after_store(
            remote_keys(conn, front),
            remote_id(conn, last.0),
            last.1,
            remote_id(conn, k),
        );
        if remote_id(conn, last.0) == remote_id(conn, k) {
            names_differ(conn, last.0, k);
        }
    }
}

proof fn reported_layouts_are_told(
    conn: Seq<char>,
    p: ApiProjectView,
    local: Option<LayoutView>,
)
    ensures
        layout_told(kept_layout(local, reported_layout(conn, p)), conn, p.layout),
        layout_told(reported_layout(conn, p), conn, p.layout),
{
    if let Some(m) = p.layout {
        let r = reported_layout(conn, p)->0;
        let edit = TerminalEditView::OfConnection(conn);
        terminals_get_the_connections_names(m, conn, 0);
        assert forall|i: int| 0 <= i < terminal_ids(r).len() implies #[trigger] terminal_ids(r)[i]
            == named(conn, terminal_ids(m)[i]) by {
            terminals_get_the_connections_names(m, conn, i);
        }
        assert forall|path: Seq<usize>| #![trigger frame_at(r, path)] frame_at(r, path) == frame_at(
            m,
            path,
        ) by {
            editing_terminals_keeps_the_shape(m, edit, path);
        }
        if let Some(l) = local {
            let k = kept_layout(local, Some(r))->0;
            merging_keeps_the_servers_terminals(r, Some(l), l);
            assert forall|path: Seq<usize>| #![trigger frame_at(k, path)] frame_at(k, path)
                == frame_at(m, path) by {
                merging_keeps_the_servers_shape(r, Some(l), l, path);
                assert(frame_at(r, path) == frame_at(m, path));
            }
        }
    }
}

proof fn common_fields_are_told(row: ProjectView, conn: Seq<char>, p: ApiProjectView)
    requires
        row.terminal_names == remote_keys(conn, p.terminal_names),
        row.hook_terminals == remote_keys(conn, p.hook_terminals),
    ensures
        forall|k: Seq<char>|
            #![trigger lookup(p.terminal_names, k)]
            lookup(row.terminal_names, named(conn, k)) == lookup(p.terminal_names, k),
        forall|k: Seq<char>|
            #![trigger lookup(p.hook_terminals, k)]
            lookup(row.hook_terminals, named(conn, k)) == lookup(p.hook_terminals, k),
{
    assert forall|k: Seq<char>| #![trigger lookup(p.terminal_names, k)] lookup(
        row.terminal_names,
        named(conn, k),
    ) == lookup(p.terminal_names, k) by {
        keys_are_renamed(conn, p.terminal_names, k);
    }
    assert forall|k: Seq<char>| #![trigger lookup(p.hook_terminals, k)] lookup(
        row.hook_terminals,
        named(conn, k),
    ) == lookup(p.hook_terminals, k) by {
        keys_are_renamed(conn, p.hook_terminals, k);
    }
}

/// A reported project is told of, whether or not it was there; no other project
/// changes.
proof fn one_report_is_told(
    c: ClientView,
    conn: Seq<char>,
    host: Seq<char>,
    p: ApiProjectView,
    x: Seq<char>,
)
    ensures
        ({
            let e = project_synced(c, conn, host, p);
            let id = remote_id(conn, p.id);
            &&& project_in(e.data.projects, id) is Some
            &&& tells(project_in(e.data.projects, id)->0, conn, p)
            &&& x != id ==> project_in(e.data.projects, x) == project_in(c.data.projects, x)
        }),
{
    let id = remote_id(conn, p.id);
    let ps = c.data.projects;
    let e = project_synced(c, conn, host, p);
    position_is_first(project_ids(ps), id);
    position_is_first(project_ids(ps), x);
    match project_in(ps, id) {
        Some(row) => {
            let i = project_at(ps, id)->0;
            let new = refreshed(row, conn, p);
            assert(row.id == id);
            reported_layouts_are_told(conn, p, row.layout);
            common_fields_are_told(new, conn, p);
            assert(project_ids(e.data.projects) =~= project_ids(ps));
            assert(e.data.projects[i] == new);
            assert(project_in(e.data.projects, id) == Some(new));
            assert(x != id ==> project_in(e.data.projects, x) == project_in(ps, x));
            assert(tells(new, conn, p));
        },
        None => {
            let a = appeared(c, conn, p);
            let new = a.data.projects.last();
            assert(a.data.projects.drop_last() =~= ps);
            assert(project_ids(a.data.projects) =~= project_ids(ps).push(id));
            assert(project_ids(ps).push(id).drop_last() =~= project_ids(ps));
            reported_layouts_are_told(conn, p, lookup(c.sync.project_layouts, id));
            common_fields_are_told(new, conn, p);
            assert(project_in(e.data.projects, id) == Some(new));
            assert(tells(new, conn, p));
        },
    }
}

/// After the first `n` reports of a connection each of them is told, where no
/// two are of one project; what is not reported stays.
proof fn reports_are_told(
    c: ClientView,
    conn: Seq<char>,
    host: Seq<char>,
    ps: Seq<ApiProjectView>,
    n: nat,
    i: int,
)
    requires
        0 <= i < n <= ps.len(),
        api_project_ids(ps).no_duplicates(),
    ensures
        ({
            let e = projects_synced(c, conn, host, ps, n);
            let id = remote_id(conn, ps[i].id);
            &&& project_in(e.data.projects, id) is Some
            &&& tells(project_in(e.data.projects, id)->0, conn, ps[i])
        }),
    decreases n,
{
    let mid = projects_synced(c, conn, host, ps, (n - 1) as nat);
    let id = remote_id(conn, ps[i].id);
    one_report_is_told(mid, conn, host, ps[n - 1], id);
    if i < n - 1 {
        reports_are_told(c, conn, host, ps, (n - 1) as nat, i);
        if remote_id(conn, ps[n - 1].id) == id {
            names_differ(conn, ps[n - 1].id, ps[i].id);
            assert(api_project_ids(ps)[i] == api_project_ids(ps)[n - 1]);
        }
    }
}

proof fn unreported_stays(
    c: ClientView,
    conn: Seq<char>,
    host: Seq<char>,
    ps: Seq<ApiProjectView>,
    n: nat,
    x: Seq<char>,
)
    requires
        n <= ps.len(),
        !has_prefix(x, remote_prefix(conn)),
    ensures
        project_in(projects_synced(c, conn, host, ps, n).data.projects, x) == project_in(
            c.data.projects,
            x,
        ),
    decreases n,
{
    if n > 0 {
        unreported_stays(c, conn, host, ps, (n - 1) as nat, x);
        remote_ids_are_prefixed(conn, ps[n - 1].id);
        one_report_is_told(
            projects_synced(c, conn, host, ps, (n - 1) as nat),
            conn,
            host,
            ps[n - 1],
            x,
        );
    }
}

/// Whether the connection `j` reports a project at `i`, and no other one of that
/// id.
pub open spec fn reports(ss: Seq<RemoteSnapshotView>, j: int, i: int) -> bool {
    &&& 0 <= j < ss.len()
    &&& ss[j].state is Some
    &&& 0 <= i < (ss[j].state->0).projects.len()
    &&& api_project_ids((ss[j].state->0).projects).no_duplicates()
}

proof fn told_after(c: ClientView, ss: Seq<RemoteSnapshotView>, n: nat, j: int, i: int)
    requires
        distinct_connections(ss),
        reports(ss, j, i),
        j < n <= ss.len(),
    ensures
        ({
            let conn = ss[j].connection_id;
            let p = (ss[j].state->0).projects[i];
            let row = project_in(
                connections_synced(c, ss, n).data.projects,
                remote_id(conn, p.id),
            );
            row is Some && tells(row->0, conn, p)
        }),
    decreases n,
{
    let conn = ss[j].connection_id;
    let p = (ss[j].state->0).projects[i];
    let x = remote_id(conn, p.id);
    let mid = connections_synced(c, ss, (n - 1) as nat);
    let s = ss[n - 1];
    remote_ids_are_prefixed(conn, p.id);
    if j == n - 1 {
        let state = s.state->0;
        reports_are_told(mid, conn, s.host, state.projects, state.projects.len(), i);
        order_keeps_projects(mid, s);
    } else {
        told_after(c, ss, (n - 1) as nat, j, i);
        if has_prefix(x, remote_prefix(s.connection_id)) {
            names_one_connection(ss, j, n - 1, x);
        }
        match s.state {
            Some(state) => {
                unreported_stays(
                    mid,
                    s.connection_id,
                    s.host,
                    state.projects,
                    state.projects.len(),
                    x,
                );
                order_keeps_projects(mid, s);
            },
            None => {
                kept_rows_are_found(
                    mid.data.projects,
                    IdFilterView::NotPrefixed(remote_prefix(s.connection_id)),
                    x,
                );
            },
        }
    }
}

proof fn bringing_forward_keeps_what_is_told(
    ps: Seq<ProjectView>,
    ts: Seq<(Seq<char>, Seq<usize>)>,
    n: nat,
    conn: Seq<char>,
    p: ApiProjectView,
)
    requires
        n <= ts.len(),
        project_in(ps, remote_id(conn, p.id)) is Some,
        tells(project_in(ps, remote_id(conn, p.id))->0, conn, p),
    ensures
        ({
            let row = project_in(all_brought_forward(ps, ts, n), remote_id(conn, p.id));
            row is Some && tells(row->0, conn, p)
        }),
    decreases n,
{
    if n > 0 {
        bringing_forward_keeps_what_is_told(ps, ts, (n - 1) as nat, conn, p);
        let mid = all_brought_forward(ps, ts, (n - 1) as nat);
        let t = ts[n - 1];
        let x = remote_id(conn, p.id);
        let out = brought_forward(mid, t);
        position_is_first(project_ids(mid), x);
        position_is_first(project_ids(mid), t.0);
        bringing_forward_keeps_ids(mid, seq![t], 1);
        if let Some(q) = project_in(mid, t.0) {
            if let Some(l) = q.layout {
                let m = crate::layout_terminals::activated(l, t.1);
                let k = project_at(mid, t.0)->0;
                assert(project_ids(out) =~= project_ids(mid));
                if t.0 == x {
                    activating_keeps_terminals(l, t.1);
                    let server = p.layout->0;
                    assert forall|path: Seq<usize>| #![trigger frame_at(m, path)] frame_at(m, path)
                        == frame_at(server, path) by {
                        activating_keeps_the_shape(l, t.1, path);
                        assert(frame_at(l, path) == frame_at(server, path));
                    }
                    let row = ProjectView { layout: Some(m), ..q };
                    assert(layout_told(row.layout, conn, p.layout));
                    assert(project_in(out, x) == Some(row));
                    assert(tells(row, conn, p));
                } else {
                    assert(project_in(out, x) == project_in(mid, x));
                }
            }
        }
    }
}

/// After a sync every reported project is there and tells what was reported of
/// it, whether or not the client had it before: its name and path, its terminals
/// and how they are laid out, its worktrees, its colour and all the rest.
pub proof fn a_sync_tells_what_is_reported(
    c: ClientView,
    ss: Seq<RemoteSnapshotView>,
    window: WindowId,
    j: int,
    i: int,
)
    requires
        distinct_connections(ss),
        reports(ss, j, i),
    ensures
        ({
            let conn = ss[j].connection_id;
            let p = (ss[j].state->0).projects[i];
            let row = project_in(applied(c, ss, window).data.projects, named(conn, p.id));
            row is Some && tells(row->0, conn, p)
        }),
{
    let conn = ss[j].connection_id;
    let p = (ss[j].state->0).projects[i];
    let x = remote_id(conn, p.id);
    let mid = connections_synced(c, ss, ss.len());
    told_after(c, ss, ss.len(), j, i);
    reported_is_expected(ss, j, i);
    forgetting_all_keeps_rows(mid, ss);
    kept_rows_are_found(mid.data.projects, IdFilterView::In(expected_ids(ss)), x);
    let r = reconciled(c, ss);
    let targets = all_targets(r.data, r.sync, window);
    bringing_forward_keeps_what_is_told(r.data.projects, targets, targets.len(), conn, p);
}

/// A project that appears belongs to the connection that reports it, and tells
/// how far its making has got.
pub proof fn new_projects_belong_to_their_connection(
    c: ClientView,
    conn: Seq<char>,
    host: Seq<char>,
    p: ApiProjectView,
)
    requires
        project_in(c.data.projects, named(conn, p.id)) is None,
    ensures
        ({
            let row = project_in(
                project_synced(c, conn, host, p).data.projects,
                named(conn, p.id),
            );
            &&& row is Some
            &&& (row->0).connection_id == Some(conn)
            &&& (row->0).creating_progress == p.creating_progress
            &&& (row->0).closed_at is None
        }),
{
    let id = remote_id(conn, p.id);
    let ps = c.data.projects;
    let a = appeared(c, conn, p);
    position_is_first(project_ids(ps), id);
    assert(a.data.projects.drop_last() =~= ps);
    assert(project_ids(a.data.projects) =~= project_ids(ps).push(id));
    assert(project_ids(ps).push(id).drop_last() =~= project_ids(ps));
    one_report_is_told(c, conn, host, p, id);
}

/// With each report come the host, the state of its repository and the services,
/// these with their terminals under the client's names.
pub proof fn a_report_brings_its_services(
    c: ClientView,
    conn: Seq<char>,
    host: Seq<char>,
    p: ApiProjectView,
    k: int,
)
    requires
        0 <= k < p.services.len(),
    ensures
        ({
            let snap = lookup(
                project_synced(c, conn, host, p).sync.snapshots,
                named(conn, p.id),
            );
            &&& snap is Some
            &&& (snap->0).host == Some(host)
            &&& (snap->0).git_status == p.git_status
            &&& (snap->0).services.len() == p.services.len()
            &&& (snap->0).services[k].name == p.services[k].name
            &&& (snap->0).services[k].status == p.services[k].status
            &&& match ((snap->0).services[k].terminal_id, p.services[k].terminal_id) {
                (Some(a), Some(b)) => a == named(conn, b),
                (None, None) => true,
                _ => false,
            }
        }),
{
    let id = remote_id(conn, p.id);
    let d = match project_in(c.data.projects, id) {
        Some(_) => c,
        None => appeared(c, conn, p),
    };
    let e = project_synced(c, conn, host, p);
    assert(reported_services(conn, p)[k].name == p.services[k].name);
    lookup_after_store(
        d.sync.snapshots,
        id,
        crate::remote_sync::SnapshotView {
            services: reported_services(conn, p),
            host: Some(host),
            git_status: p.git_status,
        },
        id,
    );
}

/// Whether the terminal `a` is presented as `b` is: as large, and as much in
/// sight.
pub open spec fn presented_like(a: LayoutView, b: LayoutView) -> bool {
    &&& a is Terminal
    &&& b is Terminal
    &&& a->zoom_level == b->zoom_level
    &&& a->minimized == b->minimized
    &&& a->detached == b->detached
}

proof fn kept_layouts_keep_presentation(
    local: LayoutView,
    server: LayoutView,
    path: Seq<usize>,
    t: Seq<char>,
)
    requires
        representable(local),
        terminal_ids(local).contains(t),
        node_at(server, path) is Some,
        node_at(server, path)->0 is Terminal,
        node_at(server, path)->0->terminal_id == Some(t),
    ensures
        ({
            let l = kept_layout(Some(local), Some(server));
            let mine = node_at(local, slot_path(local, Some(t))->0);
            &&& l is Some
            &&& node_at(l->0, path) is Some
            &&& mine is Some
            &&& mine->0->terminal_id == Some(t)
            &&& presented_like(node_at(l->0, path)->0, mine->0)
        }),
{
    merging_keeps_the_clients_presentation(server, Some(local), local, path);
    terminals_are_found(local, t);
}

/// A project that the client has keeps how the client shows its terminals: each
/// one that is still reported is as large, and as much in sight, as before.
pub proof fn a_sync_keeps_how_terminals_are_shown(
    row: ProjectView,
    conn: Seq<char>,
    p: ApiProjectView,
    path: Seq<usize>,
    t: Seq<char>,
)
    requires
        row.layout is Some,
        representable(row.layout->0),
        terminal_ids(row.layout->0).contains(t),
        p.layout is Some,
        node_at(reported_layout(conn, p)->0, path) is Some,
        node_at(reported_layout(conn, p)->0, path)->0 is Terminal,
        node_at(reported_layout(conn, p)->0, path)->0->terminal_id == Some(t),
    ensures
        ({
            let l = refreshed(row, conn, p).layout;
            let mine = node_at(row.layout->0, slot_path(row.layout->0, Some(t))->0);
            &&& l is Some
            &&& node_at(l->0, path) is Some
            &&& mine is Some
            &&& mine->0->terminal_id == Some(t)
            &&& presented_like(node_at(l->0, path)->0, mine->0)
        }),
{
    kept_layouts_keep_presentation(row.layout->0, reported_layout(conn, p)->0, path, t);
}

/// A project that comes back is shown as it was before it left.
pub proof fn returning_projects_are_shown_as_before(
    c: ClientView,
    conn: Seq<char>,
    p: ApiProjectView,
    path: Seq<usize>,
    t: Seq<char>,
)
    requires
        lookup(c.sync.project_layouts, named(conn, p.id)) is Some,
        representable(lookup(c.sync.project_layouts, named(conn, p.id))->0),
        terminal_ids(lookup(c.sync.project_layouts, named(conn, p.id))->0).contains(t),
        p.layout is Some,
        node_at(reported_layout(conn, p)->0, path) is Some,
        node_at(reported_layout(conn, p)->0, path)->0 is Terminal,
        node_at(reported_layout(conn, p)->0, path)->0->terminal_id == Some(t),
    ensures
        ({
            let left = lookup(c.sync.project_layouts, named(conn, p.id))->0;
            let l = appeared(c, conn, p).data.projects.last().layout;
            let mine = node_at(left, slot_path(left, Some(t))->0);
            &&& l is Some
            &&& node_at(l->0, path) is Some
            &&& mine is Some
            &&& mine->0->terminal_id == Some(t)
            &&& presented_like(node_at(l->0, path)->0, mine->0)
        }),
{
    let left = lookup(c.sync.project_layouts, named(conn, p.id))->0;
    kept_layouts_keep_presentation(left, reported_layout(conn, p)->0, path, t);
}

/// A project that a window asked for shows there and in no other window, and
/// the request is done with. One that nobody asked for is hidden nowhere.
pub proof fn new_projects_show_where_asked(
    c: ClientView,
    conn: Seq<char>,
    id: Seq<char>,
    name: Seq<char>,
    path: Seq<char>,
    i: int,
    window: WindowId,
)
    requires
        0 <= i < c.sync.visibility.len(),
        c.sync.visibility[i].connection_id == conn,
        c.sync.visibility[i].name == name,
        c.sync.visibility[i].path is None || c.sync.visibility[i].path == Some(path),
        forall|k: int|
            0 <= k < i ==> !asked_for(#[trigger] c.sync.visibility[k], conn, name, path),
        window_in(c.data, window) is Some,
        window_in(c.data, c.sync.visibility[i].window) is Some,
        !hidden_in(c.data, c.sync.visibility[i].window, id),
    ensures
        ({
            let e = shown_where_asked(c, conn, id, name, path);
            &&& hidden_in(e.data, window, id) == (window != c.sync.visibility[i].window)
            &&& e.sync.visibility == c.sync.visibility.remove(i)
            &&& e.data.projects == c.data.projects
        }),
{
    first_request(c.sync.visibility, conn, name, path, c.sync.visibility.len(), i);
    let spawning = c.sync.visibility[i].window;
    let row = crate::state::new_row(id, name, path, None, None);
    crate::actions::project_laws::a_new_project_shows_in_one_window(
        c.data,
        row,
        spawning,
        window,
    );
    let e = shown_where_asked(c, conn, id, name, path);
    let f = crate::actions::project_rows::row_added(c.data, row, spawning);
    assert(e.data.main_window == f.main_window);
    assert(e.data.extra_windows == f.extra_windows);
}

proof fn first_request(
    s: Seq<VisibilityView>,
    conn: Seq<char>,
    name: Seq<char>,
    path: Seq<char>,
    n: nat,
    i: int,
)
    requires
        0 <= i < s.len(),
        n <= s.len(),
        asked_for(s[i], conn, name, path),
        forall|k: int| 0 <= k < i ==> !asked_for(#[trigger] s[k], conn, name, path),
    ensures
        request_for(s, conn, name, path, n) == if i < n {
            Some(i)
        } else {
            None
        },
    decreases n,
{
    if n > 0 {
        first_request(s, conn, name, path, (n - 1) as nat, i);
    }
}

/// The focus that a window asked for goes to a terminal that was not there when
/// it asked, the first such.
pub proof fn the_focus_goes_to_the_new_terminal(d: DataView, f: FocusRequestView)
    requires
        project_in(d.projects, f.project_id) is Some,
        (project_in(d.projects, f.project_id)->0).layout is Some,
        representable((project_in(d.projects, f.project_id)->0).layout->0),
    ensures
        ({
            let l = (project_in(d.projects, f.project_id)->0).layout->0;
            match new_target(d, f) {
                Some(t) => {
                    &&& t.0 == f.project_id
                    &&& node_at(l, t.1) is Some
                    &&& node_at(l, t.1)->0 is Terminal
                    &&& node_at(l, t.1)->0->terminal_id is Some
                    &&& !f.old_terminal_ids.contains(node_at(l, t.1)->0->terminal_id->0)
                },
                None => forall|i: int|
                    0 <= i < terminal_ids(l).len() ==> f.old_terminal_ids.contains(
                        #[trigger] terminal_ids(l)[i],
                    ),
            }
        }),
{
    let l = (project_in(d.projects, f.project_id)->0).layout->0;
    the_first_new(terminal_ids(l), f.old_terminal_ids);
    if let Some(t) = first_new(terminal_ids(l), f.old_terminal_ids) {
        terminals_are_found(l, t);
    }
}

proof fn the_first_new(ids: Seq<Seq<char>>, old_ids: Seq<Seq<char>>)
    ensures
        match first_new(ids, old_ids) {
            Some(t) => ids.contains(t) && !old_ids.contains(t),
            None => forall|i: int| 0 <= i < ids.len() ==> old_ids.contains(#[trigger] ids[i]),
        },
    decreases ids.len(),
{
    if ids.len() > 0 {
        let front = ids.drop_last();
        the_first_new(front, old_ids);
        match first_new(front, old_ids) {
            Some(t) => {
                let k = choose|k: int| 0 <= k < front.len() && front[k] == t;
                assert(ids[k] == t);
            },
            None => {
                assert(ids[ids.len() - 1] == ids.last());
                assert forall|i: int| 0 <= i < ids.len() - 1 implies old_ids.contains(
                    #[trigger] ids[i],
                ) by {
                    assert(front[i] == ids[i]);
                }
            },
        }
    }
}

/// Once the terminals that a window closes are gone, the focus goes to the one
/// that was meant to get it, where that is there. While one of them is left, it
/// goes nowhere and the close is waited for.
pub proof fn the_focus_follows_a_close(d: DataView, s: SyncView, window: WindowId)
    requires
        close_of(s.close_focus, window) is Some,
        project_in(d.projects, (close_of(s.close_focus, window)->0).project_id) is Some,
        (project_in(d.projects, (close_of(s.close_focus, window)->0).project_id)->0).layout is Some,
        representable(
            (project_in(
                d.projects,
                (close_of(s.close_focus, window)->0).project_id,
            )->0).layout->0,
        ),
    ensures
        ({
            let k = close_of(s.close_focus, window)->0;
            let l = (project_in(d.projects, k.project_id)->0).layout->0;
            &&& close_target(d, s, window) is Some <==> forall|i: int|
                0 <= i < k.closing_terminal_ids.len() ==> !terminal_ids(l).contains(
                    #[trigger] k.closing_terminal_ids[i],
                )
            &&& close_target(d, s, window) is Some ==> {
                let t = close_target(d, s, window)->0;
                &&& t.0 == k.project_id
                &&& k.next_terminal_id is Some && terminal_ids(l).contains(k.next_terminal_id->0)
                    ==> node_at(l, t.1) is Some && node_at(l, t.1)->0 is Terminal && node_at(
                    l,
                    t.1,
                )->0->terminal_id == k.next_terminal_id
            }
        }),
{
    let k = close_of(s.close_focus, window)->0;
    let l = (project_in(d.projects, k.project_id)->0).layout->0;
    if let Some(t) = k.next_terminal_id {
        terminals_are_found(l, t);
    }
    assert(none_left(l, k.closing_terminal_ids) <==> forall|i: int|
        0 <= i < k.closing_terminal_ids.len() ==> !terminal_ids(l).contains(
            #[trigger] k.closing_terminal_ids[i],
        ));
}

/// A connection's order is what it reports: its own entries, each under the
/// client's name, behind what the others have; without an order its projects are
/// listed as they are reported.
pub proof fn a_report_brings_its_order(d: DataView, conn: Seq<char>, s: StateView, i: int)
    ensures
        ({
            let order = order_synced(d, conn, s).project_order;
            let own = if s.project_order.len() == 0 {
                api_project_ids(s.projects)
            } else {
                s.project_order
            };
            let before = order.len() - own.len();
            &&& 0 <= before
            &&& 0 <= i < own.len() ==> order[before + i] == named(conn, own[i])
            &&& 0 <= i < before ==> d.project_order.contains(order[i]) && !has_prefix(
                order[i],
                remote_prefix(conn),
            )
        }),
{
    let base = without_prefix(d.project_order, remote_prefix(conn));
    let order = order_synced(d, conn, s).project_order;
    if 0 <= i < base.len() {
        unprefixed_was_there(d.project_order, remote_prefix(conn), i);
        assert(order[i] == base[i]);
    }
}

proof fn unprefixed_was_there(s: Seq<Seq<char>>, prefix: Seq<char>, i: int)
    requires
        0 <= i < without_prefix(s, prefix).len(),
    ensures
        s.contains(without_prefix(s, prefix)[i]),
        !has_prefix(without_prefix(s, prefix)[i], prefix),
    decreases s.len(),
{
    let front = s.drop_last();
    let out = without_prefix(front, prefix);
    if i < out.len() {
        unprefixed_was_there(front, prefix, i);
        let k = choose|k: int| 0 <= k < front.len() && front[k] == out[i];
        assert(s[k] == out[i]);
    } else {
        assert(s[s.len() - 1] == s.last());
    }
}

/// A folder that a connection reports, and lists, is there: under the client's
/// name, with its name and colour, and with the projects that it holds.
pub proof fn a_report_brings_its_folders(d: DataView, conn: Seq<char>, s: StateView, k: int, m: int)
    requires
        0 <= k < s.project_order.len(),
        0 <= m < s.folders.len(),
        s.folders[m].id == s.project_order[k],
        forall|n: int| m < n < s.folders.len() ==> (#[trigger] s.folders[n]).id != s.folders[m].id,
    ensures
        exists|i: int|
            #![trigger order_synced(d, conn, s).folders[i]]
            0 <= i < order_synced(d, conn, s).folders.len() && {
                let f = order_synced(d, conn, s).folders[i];
                &&& f.id == named(conn, s.folders[m].id)
                &&& f.name == s.folders[m].name
                &&& f.folder_color == s.folders[m].folder_color
                &&& all_named(f.project_ids, conn, s.folders[m].project_ids)
            },
{
    let own = reported_folders(conn, s.project_order, s.folders);
    folder_is_reported(conn, s.project_order, s.folders, k, m);
    let j = choose|j: int|
        #![trigger own[j]]
        0 <= j < own.len() && {
            let f = own[j];
            &&& f.id == named(conn, s.folders[m].id)
            &&& f.name == s.folders[m].name
            &&& f.folder_color == s.folders[m].folder_color
            &&& all_named(f.project_ids, conn, s.folders[m].project_ids)
        };
    let base = kept_folders(d.folders, IdFilterView::NotPrefixed(remote_prefix(conn)));
    assert(order_synced(d, conn, s).folders[base.len() + j] == own[j]);
}

proof fn last_folder_is(fs: Seq<FolderView>, m: int)
    requires
        0 <= m < fs.len(),
        forall|n: int| m < n < fs.len() ==> (#[trigger] fs[n]).id != fs[m].id,
    ensures
        last_folder(fs, fs[m].id) == Some(fs[m]),
    decreases fs.len(),
{
    if m < fs.len() - 1 {
        assert(fs[fs.len() - 1].id != fs[m].id);
        let front = fs.drop_last();
        assert forall|n: int| m < n < front.len() implies (#[trigger] front[n]).id != front[m].id by {
            assert(fs[n].id != fs[m].id);
        }
        last_folder_is(front, m);
    }
}

proof fn folder_is_reported(
    conn: Seq<char>,
    order: Seq<Seq<char>>,
    fs: Seq<FolderView>,
    k: int,
    m: int,
)
    requires
        0 <= k < order.len(),
        0 <= m < fs.len(),
        fs[m].id == order[k],
        forall|n: int| m < n < fs.len() ==> (#[trigger] fs[n]).id != fs[m].id,
    ensures
        exists|j: int|
            #![trigger reported_folders(conn, order, fs)[j]]
            0 <= j < reported_folders(conn, order, fs).len() && {
                let f = reported_folders(conn, order, fs)[j];
                &&& f.id == named(conn, fs[m].id)
                &&& f.name == fs[m].name
                &&& f.folder_color == fs[m].folder_color
                &&& all_named(f.project_ids, conn, fs[m].project_ids)
            },
    decreases order.len(),
{
    let front = reported_folders(conn, order.drop_last(), fs);
    let all = reported_folders(conn, order, fs);
    if k < order.len() - 1 {
        folder_is_reported(conn, order.drop_last(), fs, k, m);
        let j = choose|j: int|
            #![trigger front[j]]
            0 <= j < front.len() && {
                let f = front[j];
                &&& f.id == named(conn, fs[m].id)
                &&& f.name == fs[m].name
                &&& f.folder_color == fs[m].folder_color
                &&& all_named(f.project_ids, conn, fs[m].project_ids)
            };
        assert(all[j] == front[j]);
    } else {
        last_folder_is(fs, m);
        assert(all[front.len() as int].id == named(conn, fs[m].id));
    }
}

} // verus!
