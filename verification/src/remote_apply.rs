//! Bringing a client's workspace in line with what its connections report.

use crate::collections::{
    Duplicate, IdMap, list_contains, list_extend, list_remove_prefixed, list_sift, lookup, sifted,
    stored, unkeyed, without_prefix,
};
use crate::layout::{LayoutNode, LayoutView, ShellType, opt_node, slot_path, terminal_ids};
use crate::layout_merge::merged;
use crate::layout_terminals::{
    TerminalEditView, activated, edited, make_remote_id, remote_id, visible_path,
};
use crate::remote_api::{
    ApiHookTerminalEntry, ApiProject, ApiProjectView, RemoteSnapshot, RemoteSnapshotView,
    StateResponse, StateView, api_hook_views, api_project_views, snapshot_views,
};
use crate::remote_sync::{
    ApiServiceInfo, FocusRequestView, PendingFocus, RemoteProjectSnapshot, RemoteSyncState,
    ServiceView, SnapshotView, SyncView, close_of, close_retried, closes_without, focus_of,
    focus_views, outdated_in, project_dropped, request_for, service_views, without_outdated,
};
use crate::rows::{
    IdFilter, IdFilterView, admits, kept_folders, kept_rows, list_folder_ids, list_project_ids,
    retain_folders, retain_rows,
};
use crate::state::{
    DataView, FolderData, FolderView, HookTerminalEntry, HookTerminalView, ProjectData,
    ProjectView, WindowId, WorkspaceData, WorktreeMetadata, WorktreeView, default_space_id,
    find_project, folder_ids, folder_views, opt_shell, opt_worktree, project_ids, project_in,
    project_views, project_views_update, with_project,
};
use crate::text::{copy_opt, has_prefix, join3, opt_text, same, starts_with, texts};
use crate::windows::{all_forgotten, folders_forgotten, hidden_elsewhere};
use vstd::prelude::*;

verus! {

/// What the connection `conn` calls `ids`, as the client calls them.
pub open spec fn remote_ids(conn: Seq<char>, ids: Seq<Seq<char>>) -> Seq<Seq<char>> {
    ids.map_values(|id: Seq<char>| remote_id(conn, id))
}

/// The entries of `m` under the client's names for their keys.
pub open spec fn remote_keys<A>(conn: Seq<char>, m: Seq<(Seq<char>, A)>) -> Seq<(Seq<char>, A)>
    decreases m.len(),
{
    if m.len() == 0 {
        m
    } else {
        stored(remote_keys(conn, m.drop_last()), remote_id(conn, m.last().0), m.last().1)
    }
}

/// The layout of a project as its connection reports it.
pub open spec fn reported_layout(conn: Seq<char>, p: ApiProjectView) -> Option<LayoutView> {
    match p.layout {
        Some(l) => Some(edited(l, TerminalEditView::OfConnection(conn))),
        None => None,
    }
}

/// Where a reported worktree comes from, as the client sees it: the paths are
/// the connection's own and mean nothing here.
pub open spec fn reported_worktree(conn: Seq<char>, p: ApiProjectView) -> Option<WorktreeView> {
    match p.worktree_info {
        Some(w) => Some(
            WorktreeView {
                parent_project_id: remote_id(conn, w.parent_project_id),
                color_override: w.color_override,
                main_repo_path: Seq::empty(),
                worktree_path: Seq::empty(),
                branch_name: w.branch_name,
            },
        ),
        None => None,
    }
}

/// The reported services under the client's names for their terminals.
pub open spec fn reported_services(conn: Seq<char>, p: ApiProjectView) -> Seq<ServiceView> {
    p.services.map_values(
        |s: ServiceView|
            ServiceView {
                terminal_id: match s.terminal_id {
                    Some(t) => Some(remote_id(conn, t)),
                    None => None,
                },
                ..s
            },
    )
}

/// The layout of a project that was there: the reported one as the client shows
/// it.
pub open spec fn kept_layout(
    local: Option<LayoutView>,
    server: Option<LayoutView>,
) -> Option<LayoutView> {
    match (local, server) {
        (Some(l), Some(s)) => Some(merged(s, Some(l), l)),
        _ => server,
    }
}

/// The project `row` with what its connection reports of it.
pub open spec fn refreshed(row: ProjectView, conn: Seq<char>, p: ApiProjectView) -> ProjectView {
    ProjectView {
        name: p.name,
        path: p.path,
        layout: kept_layout(row.layout, reported_layout(conn, p)),
        terminal_names: remote_keys(conn, p.terminal_names),
        folder_color: p.folder_color,
        worktree_info: reported_worktree(conn, p),
        worktree_ids: remote_ids(conn, p.worktree_ids),
        session: p.session,
        pinned: p.pinned,
        last_activity_at: p.last_activity_at,
        default_shell: p.default_shell,
        hook_terminals: remote_keys(conn, p.hook_terminals),
        is_creating: p.is_creating,
        is_closing: p.is_closing,
        hooks: p.hooks,
        ..row
    }
}

/// A project that appears, with the layout that it gets.
pub open spec fn materialized(
    conn: Seq<char>,
    p: ApiProjectView,
    layout: Option<LayoutView>,
) -> ProjectView {
    ProjectView {
        id: remote_id(conn, p.id),
        name: p.name,
        path: p.path,
        layout,
        terminal_names: remote_keys(conn, p.terminal_names),
        hidden_terminals: Seq::empty(),
        worktree_info: reported_worktree(conn, p),
        worktree_ids: remote_ids(conn, p.worktree_ids),
        session: p.session,
        folder_color: p.folder_color,
        hooks: p.hooks,
        connection_id: Some(conn),
        service_terminals: Seq::empty(),
        default_shell: p.default_shell,
        hook_terminals: remote_keys(conn, p.hook_terminals),
        pinned: p.pinned,
        last_activity_at: p.last_activity_at,
        is_creating: p.is_creating,
        is_closing: p.is_closing,
        creating_progress: p.creating_progress,
        space_id: default_space_id(),
        closed_at: None,
    }
}

/// The workspace and what the client remembers.
pub struct ClientView {
    pub data: DataView,
    pub sync: SyncView,
}

/// `c` once the window that asked for the project, if one did, is the only one
/// to show it.
pub open spec fn shown_where_asked(
    c: ClientView,
    conn: Seq<char>,
    id: Seq<char>,
    name: Seq<char>,
    path: Seq<char>,
) -> ClientView {
    match request_for(c.sync.visibility, conn, name, path, c.sync.visibility.len()) {
        Some(i) => ClientView {
            data: hidden_elsewhere(c.data, id, c.sync.visibility[i].window),
            sync: SyncView { visibility: c.sync.visibility.remove(i), ..c.sync },
        },
        None => c,
    }
}

/// `c` once the project `p` has appeared.
pub open spec fn appeared(c: ClientView, conn: Seq<char>, p: ApiProjectView) -> ClientView {
    let id = remote_id(conn, p.id);
    let layout = match lookup(c.sync.project_layouts, id) {
        Some(l) => kept_layout(Some(l), reported_layout(conn, p)),
        None => reported_layout(conn, p),
    };
    let taken = ClientView {
        sync: SyncView { project_layouts: unkeyed(c.sync.project_layouts, id), ..c.sync },
        ..c
    };
    let shown = shown_where_asked(taken, conn, id, p.name, p.path);
    ClientView {
        data: DataView {
            projects: shown.data.projects.push(materialized(conn, p, layout)),
            ..shown.data
        },
        ..shown
    }
}

/// `c` with what the connection reports of the project `p`.
pub open spec fn project_synced(
    c: ClientView,
    conn: Seq<char>,
    host: Seq<char>,
    p: ApiProjectView,
) -> ClientView {
    let id = remote_id(conn, p.id);
    let d = match project_in(c.data.projects, id) {
        Some(row) => ClientView {
            data: DataView {
                projects: with_project(c.data.projects, id, refreshed(row, conn, p)),
                ..c.data
            },
            ..c
        },
        None => appeared(c, conn, p),
    };
    ClientView {
        sync: SyncView {
            snapshots: stored(
                d.sync.snapshots,
                id,
                SnapshotView {
                    services: reported_services(conn, p),
                    host: Some(host),
                    git_status: p.git_status,
                },
            ),
            ..d.sync
        },
        ..d
    }
}

/// `c` with what the connection reports of the first `n` of `ps`.
pub open spec fn projects_synced(
    c: ClientView,
    conn: Seq<char>,
    host: Seq<char>,
    ps: Seq<ApiProjectView>,
    n: nat,
) -> ClientView
    decreases n,
{
    if n == 0 || n > ps.len() {
        c
    } else {
        project_synced(projects_synced(c, conn, host, ps, (n - 1) as nat), conn, host, ps[n - 1])
    }
}

/// The last of `fs` that is called `id`.
pub open spec fn last_folder(fs: Seq<FolderView>, id: Seq<char>) -> Option<FolderView>
    decreases fs.len(),
{
    if fs.len() == 0 {
        None
    } else if fs.last().id == id {
        Some(fs.last())
    } else {
        last_folder(fs.drop_last(), id)
    }
}

/// The reported folders in the order of `order`, under the client's names.
pub open spec fn reported_folders(
    conn: Seq<char>,
    order: Seq<Seq<char>>,
    fs: Seq<FolderView>,
) -> Seq<FolderView>
    decreases order.len(),
{
    if order.len() == 0 {
        Seq::empty()
    } else {
        let front = reported_folders(conn, order.drop_last(), fs);
        match last_folder(fs, order.last()) {
            Some(f) => front.push(
                FolderView {
                    id: remote_id(conn, f.id),
                    name: f.name,
                    project_ids: remote_ids(conn, f.project_ids),
                    folder_color: f.folder_color,
                },
            ),
            None => front,
        }
    }
}

/// The ids of the reported projects.
pub open spec fn api_project_ids(ps: Seq<ApiProjectView>) -> Seq<Seq<char>> {
    ps.map_values(|p: ApiProjectView| p.id)
}

/// The reported order under the client's names; a connection that reports none
/// lists its projects.
pub open spec fn reported_order(conn: Seq<char>, s: StateView) -> Seq<Seq<char>> {
    if s.project_order.len() == 0 {
        remote_ids(conn, api_project_ids(s.projects))
    } else {
        remote_ids(conn, s.project_order)
    }
}

/// What every id of the connection starts with.
pub open spec fn remote_prefix(conn: Seq<char>) -> Seq<char> {
    "remote:"@ + conn + ":"@
}

/// The ids of those of `fs` that start with `prefix` and are not in `next`.
pub open spec fn departed_folders(
    fs: Seq<FolderView>,
    prefix: Seq<char>,
    next: Seq<Seq<char>>,
) -> Seq<Seq<char>>
    decreases fs.len(),
{
    if fs.len() == 0 {
        Seq::empty()
    } else {
        let front = departed_folders(fs.drop_last(), prefix, next);
        if has_prefix(fs.last().id, prefix) && !next.contains(fs.last().id) {
            front.push(fs.last().id)
        } else {
            front
        }
    }
}

/// `d` with the folders and the order that the connection reports.
pub open spec fn order_synced(d: DataView, conn: Seq<char>, s: StateView) -> DataView {
    let prefix = remote_prefix(conn);
    let folders = reported_folders(conn, s.project_order, s.folders);
    let gone = departed_folders(d.folders, prefix, folder_ids(folders));
    DataView {
        folders: kept_folders(d.folders, IdFilterView::NotPrefixed(prefix)) + folders,
        project_order: without_prefix(d.project_order, prefix) + reported_order(conn, s),
        ..folders_forgotten(d, gone, gone.len())
    }
}

/// `layouts` with those of the projects `ps` that start with `prefix`.
pub open spec fn layouts_preserved(
    layouts: Seq<(Seq<char>, LayoutView)>,
    ps: Seq<ProjectView>,
    prefix: Seq<char>,
) -> Seq<(Seq<char>, LayoutView)>
    decreases ps.len(),
{
    if ps.len() == 0 {
        layouts
    } else {
        let front = layouts_preserved(layouts, ps.drop_last(), prefix);
        if has_prefix(ps.last().id, prefix) && ps.last().layout is Some {
            stored(front, ps.last().id, ps.last().layout->0)
        } else {
            front
        }
    }
}

/// `c` once the connection has gone away for now: its projects leave, how they
/// were shown stays.
pub open spec fn disconnected(c: ClientView, conn: Seq<char>) -> ClientView {
    let prefix = remote_prefix(conn);
    ClientView {
        data: DataView {
            projects: kept_rows(c.data.projects, IdFilterView::NotPrefixed(prefix)),
            folders: kept_folders(c.data.folders, IdFilterView::NotPrefixed(prefix)),
            project_order: without_prefix(c.data.project_order, prefix),
            ..c.data
        },
        sync: SyncView {
            project_layouts: layouts_preserved(c.sync.project_layouts, c.data.projects, prefix),
            ..c.sync
        },
    }
}

/// `c` in line with one connection.
pub open spec fn connection_synced(c: ClientView, s: RemoteSnapshotView) -> ClientView {
    match s.state {
        Some(state) => {
            let d = projects_synced(
                c,
                s.connection_id,
                s.host,
                state.projects,
                state.projects.len(),
            );
            ClientView { data: order_synced(d.data, s.connection_id, state), ..d }
        },
        None => disconnected(c, s.connection_id),
    }
}

/// `c` in line with the first `n` connections.
pub open spec fn connections_synced(
    c: ClientView,
    ss: Seq<RemoteSnapshotView>,
    n: nat,
) -> ClientView
    decreases n,
{
    if n == 0 || n > ss.len() {
        c
    } else {
        connection_synced(connections_synced(c, ss, (n - 1) as nat), ss[n - 1])
    }
}

/// The connections that there are.
pub open spec fn active_connections(ss: Seq<RemoteSnapshotView>) -> Seq<Seq<char>> {
    ss.map_values(|s: RemoteSnapshotView| s.connection_id)
}

/// The connections that report something.
pub open spec fn synced_connections(ss: Seq<RemoteSnapshotView>) -> Seq<Seq<char>>
    decreases ss.len(),
{
    if ss.len() == 0 {
        Seq::empty()
    } else if ss.last().state is Some {
        synced_connections(ss.drop_last()).push(ss.last().connection_id)
    } else {
        synced_connections(ss.drop_last())
    }
}

/// Every reported project, as the client calls it.
pub open spec fn expected_ids(ss: Seq<RemoteSnapshotView>) -> Seq<Seq<char>>
    decreases ss.len(),
{
    if ss.len() == 0 {
        Seq::empty()
    } else {
        let front = expected_ids(ss.drop_last());
        match ss.last().state {
            Some(state) => front + remote_ids(
                ss.last().connection_id,
                api_project_ids(state.projects),
            ),
            None => front,
        }
    }
}

/// The ids of the folders that the filter does not admit.
pub open spec fn refused_folders(fs: Seq<FolderView>, f: IdFilterView) -> Seq<Seq<char>>
    decreases fs.len(),
{
    if fs.len() == 0 {
        Seq::empty()
    } else if admits(f, fs.last().id) {
        refused_folders(fs.drop_last(), f)
    } else {
        refused_folders(fs.drop_last(), f).push(fs.last().id)
    }
}

/// `s` without what it remembers of the first `n` of `ids`.
pub open spec fn projects_dropped(s: SyncView, ids: Seq<Seq<char>>, n: nat) -> SyncView
    decreases n,
{
    if n == 0 || n > ids.len() {
        s
    } else {
        project_dropped(projects_dropped(s, ids, (n - 1) as nat), ids[n - 1])
    }
}

/// `c` without what none of the connections reports any more.
pub open spec fn stale_dropped(c: ClientView, ss: Seq<RemoteSnapshotView>) -> ClientView {
    let active = active_connections(ss);
    let expected = expected_ids(ss);
    let outdated = outdated_in(c.sync, active, synced_connections(ss), expected);
    let gone = sifted(project_ids(c.data.projects), expected, false);
    let departed = refused_folders(c.data.folders, IdFilterView::OfConnections(active));
    let d = folders_forgotten(
        all_forgotten(
            all_forgotten(c.data, outdated, outdated.len()),
            gone,
            gone.len(),
        ),
        departed,
        departed.len(),
    );
    let projects = kept_rows(d.projects, IdFilterView::In(expected));
    let folders = kept_folders(d.folders, IdFilterView::OfConnections(active));
    ClientView {
        data: DataView {
            projects,
            folders,
            project_order: sifted(
                d.project_order,
                project_ids(projects) + folder_ids(folders),
                true,
            ),
            ..d
        },
        sync: projects_dropped(
            without_outdated(c.sync, active, synced_connections(ss), expected),
            gone,
            gone.len(),
        ),
    }
}

/// Whether none of `ids` is in `l`.
pub open spec fn none_left(l: LayoutView, ids: Seq<Seq<char>>) -> bool {
    forall|i: int| 0 <= i < ids.len() ==> !terminal_ids(l).contains(#[trigger] ids[i])
}

/// Where the focus goes in `layout` once a close has happened: to the terminal
/// that was meant, or else to the one that shows.
pub open spec fn landing(layout: Option<LayoutView>, next: Option<Seq<char>>) -> Seq<usize> {
    match layout {
        Some(l) => match next {
            Some(t) => match slot_path(l, Some(t)) {
                Some(p) => p,
                None => visible_path(l),
            },
            None => visible_path(l),
        },
        None => Seq::empty(),
    }
}

/// Where the close that the window waits for, if it has happened, puts the
/// focus.
pub open spec fn close_target(d: DataView, s: SyncView, window: WindowId) -> Option<
    (Seq<char>, Seq<usize>),
> {
    match close_of(s.close_focus, window) {
        Some(c) => match project_in(d.projects, c.project_id) {
            Some(p) => if p.layout is None || none_left(p.layout->0, c.closing_terminal_ids) {
                Some((c.project_id, landing(p.layout, c.next_terminal_id)))
            } else {
                None
            },
            None => None,
        },
        None => None,
    }
}

/// What is remembered once that close has been looked at.
pub open spec fn close_settled(d: DataView, s: SyncView, window: WindowId) -> SyncView {
    let rest = SyncView { close_focus: closes_without(s.close_focus, window), ..s };
    match close_of(s.close_focus, window) {
        Some(c) => match project_in(d.projects, c.project_id) {
            Some(p) => if p.layout is None || none_left(p.layout->0, c.closing_terminal_ids) {
                rest
            } else {
                close_retried(rest, c)
            },
            None => rest,
        },
        None => rest,
    }
}

/// The first of `ids` that is not in `old`.
pub open spec fn first_new(ids: Seq<Seq<char>>, old_ids: Seq<Seq<char>>) -> Option<Seq<char>>
    decreases ids.len(),
{
    if ids.len() == 0 {
        None
    } else {
        match first_new(ids.drop_last(), old_ids) {
            Some(t) => Some(t),
            None => if old_ids.contains(ids.last()) {
                None
            } else {
                Some(ids.last())
            },
        }
    }
}

/// Where the focus goes for the request `f`: to the first terminal that was not
/// there when it was made.
pub open spec fn new_target(d: DataView, f: FocusRequestView) -> Option<(Seq<char>, Seq<usize>)> {
    match project_in(d.projects, f.project_id) {
        Some(p) => match p.layout {
            Some(l) => match first_new(terminal_ids(l), f.old_terminal_ids) {
                Some(t) => match slot_path(l, Some(t)) {
                    Some(path) => Some((f.project_id, path)),
                    None => None,
                },
                None => None,
            },
            None => None,
        },
        None => None,
    }
}

/// Where the focus goes for the requests `fs`.
pub open spec fn new_targets(d: DataView, fs: Seq<FocusRequestView>) -> Seq<
    (Seq<char>, Seq<usize>),
>
    decreases fs.len(),
{
    if fs.len() == 0 {
        Seq::empty()
    } else {
        let front = new_targets(d, fs.drop_last());
        match new_target(d, fs.last()) {
            Some(t) => front.push(t),
            None => front,
        }
    }
}

/// Where the focus goes after a sync.
pub open spec fn all_targets(d: DataView, s: SyncView, window: WindowId) -> Seq<
    (Seq<char>, Seq<usize>),
> {
    let closed = match close_target(d, s, window) {
        Some(t) => seq![t],
        None => Seq::empty(),
    };
    closed + new_targets(d, focus_of(close_settled(d, s, window).focus, window, true))
}

/// `ps` with the tabs along the target in front.
pub open spec fn brought_forward(ps: Seq<ProjectView>, t: (Seq<char>, Seq<usize>)) -> Seq<
    ProjectView,
> {
    match project_in(ps, t.0) {
        Some(p) => match p.layout {
            Some(l) => with_project(
                ps,
                t.0,
                ProjectView { layout: Some(activated(l, t.1)), ..p },
            ),
            None => ps,
        },
        None => ps,
    }
}

/// `ps` with the tabs along the first `n` targets in front.
pub open spec fn all_brought_forward(
    ps: Seq<ProjectView>,
    ts: Seq<(Seq<char>, Seq<usize>)>,
    n: nat,
) -> Seq<ProjectView>
    decreases n,
{
    if n == 0 || n > ts.len() {
        ps
    } else {
        brought_forward(all_brought_forward(ps, ts, (n - 1) as nat), ts[n - 1])
    }
}

/// `c` once it is in line with the connections, before the focus moves.
pub open spec fn reconciled(c: ClientView, ss: Seq<RemoteSnapshotView>) -> ClientView {
    stale_dropped(connections_synced(c, ss, ss.len()), ss)
}

/// What a sync makes of `c`.
pub open spec fn applied(c: ClientView, ss: Seq<RemoteSnapshotView>, window: WindowId) -> ClientView {
    let r = reconciled(c, ss);
    let targets = all_targets(r.data, r.sync, window);
    let settled = close_settled(r.data, r.sync, window);
    ClientView {
        data: DataView {
            projects: all_brought_forward(r.data.projects, targets, targets.len()),
            ..r.data
        },
        sync: SyncView { focus: focus_of(settled.focus, window, false), ..settled },
    }
}

/// A terminal that gets the focus after a sync.
#[derive(Debug)]
pub struct RemoteFocusTarget {
    pub project_id: String,
    pub layout_path: Vec<usize>,
}

impl View for RemoteFocusTarget {
    type V = (Seq<char>, Seq<usize>);

    open spec fn view(&self) -> (Seq<char>, Seq<usize>) {
        (self.project_id@, self.layout_path@)
    }
}

/// What each target of `s` stands for.
pub open spec fn target_views(s: Seq<RemoteFocusTarget>) -> Seq<(Seq<char>, Seq<usize>)> {
    s.map_values(|t: RemoteFocusTarget| t@)
}

/// What came of a sync.
#[derive(Debug)]
pub struct RemoteSyncOutcome {
    /// The terminals to focus.
    pub focus_targets: Vec<RemoteFocusTarget>,
}

/// The workspace `d` and what the client remembers.
pub open spec fn client(d: DataView, s: SyncView) -> ClientView {
    ClientView { data: d, sync: s }
}

/// `ids` as the client calls them.
fn prefix_all(conn: &str, ids: &Vec<String>) -> (r: Vec<String>)
    ensures
        texts(r@) == remote_ids(conn@, texts(ids@)),
{
    let mut out: Vec<String> = Vec::new();
    let mut i: usize = 0;
    while i < ids.len()
        invariant
            i <= ids@.len(),
            out@.len() == i,
            forall|j: int| 0 <= j < i ==> (#[trigger] out@[j])@ == remote_id(conn@, ids@[j]@),
        decreases ids@.len() - i,
    {
        out.push(make_remote_id(conn, ids[i].as_str()));
        i = i + 1;
    }
    proof {
        assert(texts(out@) =~= remote_ids(conn@, texts(ids@)));
    }
    out
}

/// The entries of `m` under the client's names for their keys.
fn prefix_keys<V: Duplicate>(conn: &str, m: &IdMap<V>) -> (r: IdMap<V>)
    ensures
        r@ == remote_keys(conn@, m@),
{
    let mut out: IdMap<V> = IdMap::new();
    let mut i: usize = 0;
    let ghost whole = m@;
    proof {
        assert(whole.take(0) =~= Seq::<(Seq<char>, V::V)>::empty());
    }
    while i < m.len()
        invariant
            i <= m@.len(),
            whole == m@,
            out@ == remote_keys(conn@, whole.take(i as int)),
        decreases m@.len() - i,
    {
        proof {
            assert(whole.take(i + 1).drop_last() =~= whole.take(i as int));
        }
        out.insert(make_remote_id(conn, m.key_at(i).as_str()), m.value_at(i).duplicate());
        i = i + 1;
    }
    proof {
        assert(whole.take(i as int) =~= whole);
    }
    out
}

/// The reported hook terminals under the client's names for them.
fn prefix_hooks(conn: &str, hooks: &Vec<ApiHookTerminalEntry>) -> (r: IdMap<HookTerminalEntry>)
    ensures
        r@ == remote_keys(conn@, api_hook_views(hooks@)),
{
    let mut out: IdMap<HookTerminalEntry> = IdMap::new();
    let mut i: usize = 0;
    let ghost whole = api_hook_views(hooks@);
    proof {
        assert(whole.take(0) =~= Seq::<(Seq<char>, HookTerminalView)>::empty());
    }
    while i < hooks.len()
        invariant
            i <= hooks@.len(),
            whole == api_hook_views(hooks@),
            out@ == remote_keys(conn@, whole.take(i as int)),
        decreases hooks@.len() - i,
    {
        proof {
            assert(whole.take(i + 1).drop_last() =~= whole.take(i as int));
            assert(whole.take(i + 1).last() == (
                hooks@[i as int].terminal_id@,
                hooks@[i as int].entry@,
            ));
        }
        out.insert(
            make_remote_id(conn, hooks[i].terminal_id.as_str()),
            hooks[i].entry.duplicate(),
        );
        i = i + 1;
    }
    proof {
        assert(whole.take(i as int) =~= whole);
    }
    out
}

/// The reported layout under the client's names for its terminals.
fn report_layout(conn: &str, p: &ApiProject) -> (r: Option<LayoutNode>)
    ensures
        opt_node(r) == reported_layout(conn@, p@),
{
    match &p.layout {
        Some(l) => Some(LayoutNode::from_api_prefixed(l, conn)),
        None => None,
    }
}

/// Where a reported worktree comes from.
fn report_worktree(conn: &str, p: &ApiProject) -> (r: Option<WorktreeMetadata>)
    ensures
        opt_worktree(r) == reported_worktree(conn@, p@),
{
    match &p.worktree_info {
        Some(w) => {
            let r = WorktreeMetadata {
                parent_project_id: make_remote_id(conn, w.parent_project_id.as_str()),
                color_override: w.color_override,
                main_repo_path: String::new(),
                worktree_path: String::new(),
                branch_name: w.branch_name.clone(),
            };
            Some(r)
        },
        None => None,
    }
}

/// The reported services under the client's names for their terminals.
fn report_services(conn: &str, p: &ApiProject) -> (r: Vec<ApiServiceInfo>)
    ensures
        service_views(r@) == reported_services(conn@, p@),
{
    let mut out: Vec<ApiServiceInfo> = Vec::new();
    let mut i: usize = 0;
    while i < p.services.len()
        invariant
            i <= p.services@.len(),
            out@.len() == i,
            forall|j: int|
                0 <= j < i ==> (#[trigger] out@[j])@ == (ServiceView {
                    terminal_id: match p.services@[j]@.terminal_id {
                        Some(t) => Some(remote_id(conn@, t)),
                        None => None,
                    },
                    ..p.services@[j]@
                }),
        decreases p.services@.len() - i,
    {
        let s = &p.services[i];
        let terminal_id: Option<String> = match &s.terminal_id {
            Some(t) => Some(make_remote_id(conn, t.as_str())),
            None => None,
        };
        out.push(
            ApiServiceInfo { name: s.name.clone(), status: s.status.clone(), terminal_id },
        );
        i = i + 1;
    }
    proof {
        assert(service_views(out@) =~= reported_services(conn@, p@));
    }
    out
}

/// A copy of an optional shell.
fn copy_shell(s: &Option<ShellType>) -> (r: Option<ShellType>)
    ensures
        opt_shell(r) == opt_shell(*s),
{
    match s {
        Some(x) => Some(x.duplicate()),
        None => None,
    }
}

/// The reported layout as the client shows it.
fn keep_layout(local: &Option<LayoutNode>, server: Option<LayoutNode>) -> (r: Option<LayoutNode>)
    ensures
        opt_node(r) == kept_layout(opt_node(*local), opt_node(server)),
{
    match (local, &server) {
        (Some(l), Some(s)) => Some(LayoutNode::merge_visual_state(s, l)),
        _ => server,
    }
}

/// Take over what the connection reports of a project that is there.
fn refresh(row: &mut ProjectData, conn: &str, p: &ApiProject)
    ensures
        final(row)@ == refreshed(old(row)@, conn@, p@),
{
    row.layout = keep_layout(&row.layout, report_layout(conn, p));
    row.name = p.name.clone();
    row.path = p.path.clone();
    row.terminal_names = prefix_keys(conn, &p.terminal_names);
    row.folder_color = p.folder_color;
    row.worktree_info = report_worktree(conn, p);
    row.worktree_ids = prefix_all(conn, &p.worktree_ids);
    row.session = p.session.clone();
    row.pinned = p.pinned;
    row.last_activity_at = p.last_activity_at;
    row.default_shell = copy_shell(&p.default_shell);
    row.hook_terminals = prefix_hooks(conn, &p.hook_terminals);
    row.is_creating = p.is_creating;
    row.is_closing = p.is_closing;
    row.hooks = p.hooks.clone();
}

/// A project that appears.
fn materialize(conn: &str, p: &ApiProject, layout: Option<LayoutNode>) -> (r: ProjectData)
    ensures
        r@ == materialized(conn@, p@, opt_node(layout)),
{
    ProjectData {
        id: make_remote_id(conn, p.id.as_str()),
        name: p.name.clone(),
        path: p.path.clone(),
        layout,
        terminal_names: prefix_keys(conn, &p.terminal_names),
        hidden_terminals: IdMap::new(),
        worktree_info: report_worktree(conn, p),
        worktree_ids: prefix_all(conn, &p.worktree_ids),
        session: p.session.clone(),
        folder_color: p.folder_color,
        hooks: p.hooks.clone(),
        connection_id: Some(conn.to_owned()),
        service_terminals: IdMap::new(),
        default_shell: copy_shell(&p.default_shell),
        hook_terminals: prefix_hooks(conn, &p.hook_terminals),
        pinned: p.pinned,
        last_activity_at: p.last_activity_at,
        is_creating: p.is_creating,
        is_closing: p.is_closing,
        creating_progress: copy_opt(&p.creating_progress),
        space_id: "default".to_owned(),
        closed_at: None,
    }
}

/// Let a project that appears show where it was asked for. Which windows show a
/// project is the client's business: without a request it shows everywhere.
pub fn apply_initial_remote_project_visibility(
    data: &mut WorkspaceData,
    remote_sync: &mut RemoteSyncState,
    connection_id: &str,
    prefixed_id: &str,
    name: &str,
    path: &str,
)
    ensures
        client(final(data)@, final(remote_sync)@) == shown_where_asked(
            client(old(data)@, old(remote_sync)@),
            connection_id@,
            prefixed_id@,
            name@,
            path@,
        ),
{
    if let Some(window) = remote_sync.take_project_visibility(connection_id, name, path) {
        data.add_project_hide_in_other_windows(prefixed_id, window);
    }
}

/// Let a reported project appear.
fn appear(data: &mut WorkspaceData, sync: &mut RemoteSyncState, conn: &str, p: &ApiProject)
    ensures
        client(final(data)@, final(sync)@) == appeared(
            client(old(data)@, old(sync)@),
            conn@,
            p@,
        ),
{
    let id = make_remote_id(conn, p.id.as_str());
    let server = report_layout(conn, p);
    let layout = match sync.take_project_layout(id.as_str()) {
        Some(l) => keep_layout(&Some(l), server),
        None => server,
    };
    apply_initial_remote_project_visibility(
        data,
        sync,
        conn,
        id.as_str(),
        p.name.as_str(),
        p.path.as_str(),
    );
    let ghost before = data.projects@;
    let row = materialize(conn, p, layout);
    data.projects.push(row);
    proof {
        assert(project_views(data.projects@) =~= project_views(before).push(row@));
    }
}

/// Take over what the connection reports of a project.
fn sync_project(
    data: &mut WorkspaceData,
    sync: &mut RemoteSyncState,
    conn: &str,
    host: &str,
    p: &ApiProject,
)
    ensures
        client(final(data)@, final(sync)@) == project_synced(
            client(old(data)@, old(sync)@),
            conn@,
            host@,
            p@,
        ),
{
    let id = make_remote_id(conn, p.id.as_str());
    match find_project(&data.projects, id.as_str()) {
        Some(i) => {
            let ghost before = data.projects@;
            refresh(&mut data.projects[i], conn, p);
            proof {
                let new = data.projects@[i as int];
                assert(data.projects@ =~= before.update(i as int, new));
                project_views_update(before, i as int, new);
            }
        },
        None => {
            appear(data, sync, conn, p);
        },
    }
    let snapshot = RemoteProjectSnapshot {
        services: report_services(conn, p),
        host: Some(host.to_owned()),
        git_status: copy_opt(&p.git_status),
    };
    sync.set_snapshot(id, snapshot);
}

/// Take over what the connection reports of its projects.
fn sync_projects(
    data: &mut WorkspaceData,
    sync: &mut RemoteSyncState,
    conn: &str,
    host: &str,
    projects: &Vec<ApiProject>,
)
    ensures
        client(final(data)@, final(sync)@) == projects_synced(
            client(old(data)@, old(sync)@),
            conn@,
            host@,
            api_project_views(projects@),
            projects@.len(),
        ),
{
    let ghost start = client(data@, sync@);
    let ghost ps = api_project_views(projects@);
    let mut i: usize = 0;
    while i < projects.len()
        invariant
            i <= projects@.len(),
            ps == api_project_views(projects@),
            client(data@, sync@) == projects_synced(start, conn@, host@, ps, i as nat),
        decreases projects@.len() - i,
    {
        proof {
            assert(ps[i as int] == projects@[i as int]@);
        }
        sync_project(data, sync, conn, host, &projects[i]);
        i = i + 1;
    }
}

/// The last folder that is called `id`.
fn find_last_folder(folders: &Vec<FolderData>, id: &str) -> (r: Option<usize>)
    ensures
        match r {
            Some(i) => i < folders@.len() && last_folder(folder_views(folders@), id@) == Some(
                folders@[i as int]@,
            ),
            None => last_folder(folder_views(folders@), id@) is None,
        },
{
    let ghost fs = folder_views(folders@);
    let mut i: usize = folders.len();
    proof {
        assert(fs.take(i as int) =~= fs);
    }
    while i > 0
        invariant
            i <= folders@.len(),
            fs == folder_views(folders@),
            last_folder(fs, id@) == last_folder(fs.take(i as int), id@),
        decreases i,
    {
        proof {
            assert(fs.take(i as int).drop_last() =~= fs.take(i - 1));
            assert(fs.take(i as int).last() == folders@[i - 1]@);
        }
        i = i - 1;
        if same(folders[i].id.as_str(), id) {
            return Some(i);
        }
    }
    None
}

/// The reported folders under the client's names.
fn report_folders(conn: &str, s: &StateResponse) -> (r: Vec<FolderData>)
    ensures
        folder_views(r@) == reported_folders(conn@, s@.project_order, s@.folders),
{
    let mut out: Vec<FolderData> = Vec::new();
    let ghost order = texts(s.project_order@);
    let ghost fs = folder_views(s.folders@);
    let mut i: usize = 0;
    proof {
        assert(order.take(0) =~= Seq::<Seq<char>>::empty());
        assert(folder_views(out@) =~= Seq::<FolderView>::empty());
    }
    while i < s.project_order.len()
        invariant
            i <= s.project_order@.len(),
            order == texts(s.project_order@),
            fs == folder_views(s.folders@),
            folder_views(out@) == reported_folders(conn@, order.take(i as int), fs),
        decreases s.project_order@.len() - i,
    {
        proof {
            crate::collections::texts_take(s.project_order@, i as int);
        }
        if let Some(k) = find_last_folder(&s.folders, s.project_order[i].as_str()) {
            let f = &s.folders[k];
            let ghost held = out@;
            let new = FolderData {
                id: make_remote_id(conn, f.id.as_str()),
                name: f.name.clone(),
                project_ids: prefix_all(conn, &f.project_ids),
                folder_color: f.folder_color,
            };
            out.push(new);
            proof {
                assert(folder_views(out@) =~= folder_views(held).push(new@));
            }
        }
        i = i + 1;
    }
    proof {
        assert(order.take(i as int) =~= order);
    }
    out
}

/// The ids of the reported projects.
fn list_api_ids(projects: &Vec<ApiProject>) -> (r: Vec<String>)
    ensures
        texts(r@) == api_project_ids(api_project_views(projects@)),
{
    let mut out: Vec<String> = Vec::new();
    let mut i: usize = 0;
    while i < projects.len()
        invariant
            i <= projects@.len(),
            out@.len() == i,
            forall|j: int| 0 <= j < i ==> (#[trigger] out@[j])@ == projects@[j].id@,
        decreases projects@.len() - i,
    {
        out.push(projects[i].id.clone());
        i = i + 1;
    }
    proof {
        assert(texts(out@) =~= api_project_ids(api_project_views(projects@)));
    }
    out
}

/// The reported order under the client's names.
fn report_order(conn: &str, s: &StateResponse) -> (r: Vec<String>)
    ensures
        texts(r@) == reported_order(conn@, s@),
{
    if s.project_order.len() == 0 {
        let ids = list_api_ids(&s.projects);
        prefix_all(conn, &ids)
    } else {
        prefix_all(conn, &s.project_order)
    }
}

/// The folders of the connection that it no longer reports.
fn collect_departed(folders: &Vec<FolderData>, prefix: &str, next: &Vec<String>) -> (r: Vec<String>)
    ensures
        texts(r@) == departed_folders(folder_views(folders@), prefix@, texts(next@)),
{
    let mut out: Vec<String> = Vec::new();
    let ghost fs = folder_views(folders@);
    let mut i: usize = 0;
    proof {
        assert(fs.take(0) =~= Seq::<FolderView>::empty());
        assert(texts(out@) =~= Seq::<Seq<char>>::empty());
    }
    while i < folders.len()
        invariant
            i <= folders@.len(),
            fs == folder_views(folders@),
            texts(out@) == departed_folders(fs.take(i as int), prefix@, texts(next@)),
        decreases folders@.len() - i,
    {
        proof {
            assert(fs.take(i + 1).drop_last() =~= fs.take(i as int));
            assert(fs.take(i + 1).last() == folders@[i as int]@);
        }
        let id = folders[i].id.as_str();
        if starts_with(id, prefix) && !list_contains(next, id) {
            let ghost held = out@;
            out.push(folders[i].id.clone());
            proof {
                assert(texts(out@) =~= texts(held).push(folders@[i as int].id@));
            }
        }
        i = i + 1;
    }
    proof {
        assert(fs.take(i as int) =~= fs);
    }
    out
}

/// Forgetting folders in windows leaves everything else.
proof fn folders_forgotten_frame(d: DataView, ids: Seq<Seq<char>>, n: nat)
    ensures
        folders_forgotten(d, ids, n).projects == d.projects,
        folders_forgotten(d, ids, n).folders == d.folders,
        folders_forgotten(d, ids, n).project_order == d.project_order,
    decreases n,
{
    if n > 0 && n <= ids.len() {
        folders_forgotten_frame(d, ids, (n - 1) as nat);
    }
}

/// Append `more` to `folders`.
fn append_folders(folders: &mut Vec<FolderData>, more: Vec<FolderData>)
    ensures
        folder_views(final(folders)@) == folder_views(old(folders)@) + folder_views(more@),
{
    let ghost start = folders@;
    let mut more = more;
    let ghost extra = more@;
    folders.append(&mut more);
    proof {
        assert(folder_views(folders@) =~= folder_views(start) + folder_views(extra));
    }
}

/// What every id of the connection starts with.
fn prefix_of(conn: &str) -> (r: String)
    ensures
        r@ == remote_prefix(conn@),
{
    join3("remote:", conn, ":")
}

/// Take over the folders and the order that the connection reports.
fn sync_order(data: &mut WorkspaceData, conn: &str, s: &StateResponse)
    ensures
        final(data)@ == order_synced(old(data)@, conn@, s@),
{
    let prefix = prefix_of(conn);
    let folders = report_folders(conn, s);
    let order = report_order(conn, s);
    let next = list_folder_ids(&folders);
    let gone = collect_departed(&data.folders, prefix.as_str(), &next);
    proof {
        folders_forgotten_frame(data@, texts(gone@), gone@.len());
        assert(texts(gone@).len() == gone@.len());
    }
    data.forget_folders(&gone);
    retain_folders(&mut data.folders, &IdFilter::NotPrefixed(prefix.as_str()));
    list_remove_prefixed(&mut data.project_order, prefix.as_str());
    append_folders(&mut data.folders, folders);
    list_extend(&mut data.project_order, &order);
}

/// Keep the layouts of the connection's projects.
fn preserve_layouts(projects: &Vec<ProjectData>, sync: &mut RemoteSyncState, prefix: &str)
    ensures
        final(sync)@ == (SyncView {
            project_layouts: layouts_preserved(
                old(sync)@.project_layouts,
                project_views(projects@),
                prefix@,
            ),
            ..old(sync)@
        }),
{
    let ghost start = sync@;
    let ghost ps = project_views(projects@);
    let mut i: usize = 0;
    proof {
        assert(ps.take(0) =~= Seq::<ProjectView>::empty());
    }
    while i < projects.len()
        invariant
            i <= projects@.len(),
            ps == project_views(projects@),
            sync@ == (SyncView {
                project_layouts: layouts_preserved(
                    start.project_layouts,
                    ps.take(i as int),
                    prefix@,
                ),
                ..start
            }),
        decreases projects@.len() - i,
    {
        proof {
            assert(ps.take(i + 1).drop_last() =~= ps.take(i as int));
            assert(ps.take(i + 1).last() == projects@[i as int]@);
        }
        if starts_with(projects[i].id.as_str(), prefix) {
            if let Some(l) = &projects[i].layout {
                sync.preserve_project_layout(projects[i].id.clone(), l.duplicate());
            }
        }
        i = i + 1;
    }
    proof {
        assert(ps.take(i as int) =~= ps);
    }
}

/// Take the connection's projects away for now.
fn disconnect(data: &mut WorkspaceData, sync: &mut RemoteSyncState, conn: &str)
    ensures
        client(final(data)@, final(sync)@) == disconnected(client(old(data)@, old(sync)@), conn@),
{
    let prefix = prefix_of(conn);
    preserve_layouts(&data.projects, sync, prefix.as_str());
    retain_rows(&mut data.projects, &IdFilter::NotPrefixed(prefix.as_str()));
    retain_folders(&mut data.folders, &IdFilter::NotPrefixed(prefix.as_str()));
    list_remove_prefixed(&mut data.project_order, prefix.as_str());
}

/// Bring the workspace in line with one connection.
fn sync_connection(data: &mut WorkspaceData, sync: &mut RemoteSyncState, snap: &RemoteSnapshot)
    ensures
        client(final(data)@, final(sync)@) == connection_synced(
            client(old(data)@, old(sync)@),
            snap@,
        ),
{
    let conn = snap.config.id.as_str();
    match &snap.state {
        Some(state) => {
            proof {
                assert(state@.projects.len() == state.projects@.len());
            }
            sync_projects(data, sync, conn, snap.config.host.as_str(), &state.projects);
            sync_order(data, conn, state);
        },
        None => {
            disconnect(data, sync, conn);
        },
    }
}

/// The connections that there are, those that report something, and every
/// reported project.
fn survey(snapshots: &Vec<RemoteSnapshot>) -> (r: (Vec<String>, Vec<String>, Vec<String>))
    ensures
        texts(r.0@) == active_connections(snapshot_views(snapshots@)),
        texts(r.1@) == synced_connections(snapshot_views(snapshots@)),
        texts(r.2@) == expected_ids(snapshot_views(snapshots@)),
{
    let ghost ss = snapshot_views(snapshots@);
    let mut active: Vec<String> = Vec::new();
    let mut synced: Vec<String> = Vec::new();
    let mut expected: Vec<String> = Vec::new();
    let mut i: usize = 0;
    proof {
        assert(ss.take(0) =~= Seq::<RemoteSnapshotView>::empty());
        assert(texts(active@) =~= active_connections(ss.take(0)));
        assert(texts(synced@) =~= Seq::<Seq<char>>::empty());
        assert(texts(expected@) =~= Seq::<Seq<char>>::empty());
    }
    while i < snapshots.len()
        invariant
            i <= snapshots@.len(),
            ss == snapshot_views(snapshots@),
            texts(active@) == active_connections(ss.take(i as int)),
            texts(synced@) == synced_connections(ss.take(i as int)),
            texts(expected@) == expected_ids(ss.take(i as int)),
        decreases snapshots@.len() - i,
    {
        let snap = &snapshots[i];
        proof {
            assert(ss.take(i + 1).drop_last() =~= ss.take(i as int));
            assert(ss.take(i + 1).last() == snap@);
        }
        let ghost held = active@;
        active.push(snap.config.id.clone());
        proof {
            assert(texts(active@) =~= texts(held).push(snap@.connection_id));
            assert(texts(active@) =~= active_connections(ss.take(i + 1)));
        }
        if let Some(state) = &snap.state {
            let ghost had = synced@;
            synced.push(snap.config.id.clone());
            proof {
                assert(texts(synced@) =~= texts(had).push(snap@.connection_id));
            }
            let ids = list_api_ids(&state.projects);
            let more = prefix_all(snap.config.id.as_str(), &ids);
            list_extend(&mut expected, &more);
        }
        i = i + 1;
    }
    proof {
        assert(ss.take(i as int) =~= ss);
    }
    (active, synced, expected)
}

/// The folders that the filter does not admit.
fn collect_refused(folders: &Vec<FolderData>, f: &IdFilter) -> (r: Vec<String>)
    ensures
        texts(r@) == refused_folders(folder_views(folders@), f@),
{
    let mut out: Vec<String> = Vec::new();
    let ghost fs = folder_views(folders@);
    let mut i: usize = 0;
    proof {
        assert(fs.take(0) =~= Seq::<FolderView>::empty());
        assert(texts(out@) =~= Seq::<Seq<char>>::empty());
    }
    while i < folders.len()
        invariant
            i <= folders@.len(),
            fs == folder_views(folders@),
            texts(out@) == refused_folders(fs.take(i as int), f@),
        decreases folders@.len() - i,
    {
        proof {
            assert(fs.take(i + 1).drop_last() =~= fs.take(i as int));
            assert(fs.take(i + 1).last() == folders@[i as int]@);
        }
        if !f.admits(folders[i].id.as_str()) {
            let ghost held = out@;
            out.push(folders[i].id.clone());
            proof {
                assert(texts(out@) =~= texts(held).push(folders@[i as int].id@));
            }
        }
        i = i + 1;
    }
    proof {
        assert(fs.take(i as int) =~= fs);
    }
    out
}

/// Drop what is remembered of the projects `ids`.
fn drop_projects(sync: &mut RemoteSyncState, ids: &Vec<String>)
    ensures
        final(sync)@ == projects_dropped(old(sync)@, texts(ids@), ids@.len()),
{
    let ghost start = sync@;
    let ghost all = texts(ids@);
    let mut i: usize = 0;
    while i < ids.len()
        invariant
            i <= ids@.len(),
            all == texts(ids@),
            sync@ == projects_dropped(start, all, i as nat),
        decreases ids@.len() - i,
    {
        proof {
            assert(all[i as int] == ids@[i as int]@);
        }
        sync.remove_project(ids[i].as_str());
        i = i + 1;
    }
}

/// Drop what none of the connections reports any more.
fn drop_stale(data: &mut WorkspaceData, sync: &mut RemoteSyncState, snapshots: &Vec<RemoteSnapshot>)
    ensures
        client(final(data)@, final(sync)@) == stale_dropped(
            client(old(data)@, old(sync)@),
            snapshot_views(snapshots@),
        ),
{
    let ghost d0 = data@;
    let (active, synced, expected) = survey(snapshots);
    let outdated = sync.prune_project_state(&active, &synced, &expected);
    let mut gone = list_project_ids(&data.projects);
    list_sift(&mut gone, &expected, false);
    let departed = collect_refused(&data.folders, &IdFilter::OfConnections(&active));
    proof {
        assert(texts(outdated@).len() == outdated@.len());
        assert(texts(gone@).len() == gone@.len());
        assert(texts(departed@).len() == departed@.len());
    }
    data.forget_projects(&outdated);
    data.forget_projects(&gone);
    drop_projects(sync, &gone);
    data.forget_folders(&departed);
    retain_rows(&mut data.projects, &IdFilter::In(&expected));
    retain_folders(&mut data.folders, &IdFilter::OfConnections(&active));
    let mut known = list_project_ids(&data.projects);
    let folder_list = list_folder_ids(&data.folders);
    list_extend(&mut known, &folder_list);
    list_sift(&mut data.project_order, &known, true);
}

/// Whether none of `ids` is in `l`.
fn is_none_left(l: &LayoutNode, ids: &Vec<String>) -> (r: bool)
    ensures
        r == none_left(l@, texts(ids@)),
{
    let remaining = l.collect_terminal_ids();
    let ghost all = texts(ids@);
    let mut i: usize = 0;
    while i < ids.len()
        invariant
            i <= ids@.len(),
            all == texts(ids@),
            texts(remaining@) == terminal_ids(l@),
            forall|j: int| 0 <= j < i ==> !terminal_ids(l@).contains(#[trigger] all[j]),
        decreases ids@.len() - i,
    {
        if list_contains(&remaining, ids[i].as_str()) {
            proof {
                assert(terminal_ids(l@).contains(all[i as int]));
            }
            return false;
        }
        i = i + 1;
    }
    true
}

/// Where the focus goes in `layout` once a close has happened.
fn land(layout: &Option<LayoutNode>, next: &Option<String>) -> (r: Vec<usize>)
    ensures
        r@ == landing(opt_node(*layout), opt_text(*next)),
{
    match layout {
        Some(l) => {
            if let Some(t) = next {
                if let Some(p) = l.find_terminal_path(t.as_str()) {
                    return p;
                }
            }
            l.find_visible_terminal_path()
        },
        None => Vec::new(),
    }
}

/// Look at the close that the window waits for.
fn settle_close(data: &WorkspaceData, sync: &mut RemoteSyncState, window: WindowId) -> (r: Option<
    RemoteFocusTarget,
>)
    ensures
        match r {
            Some(t) => close_target(data@, old(sync)@, window) == Some(t@),
            None => close_target(data@, old(sync)@, window) is None,
        },
        final(sync)@ == close_settled(data@, old(sync)@, window),
{
    let pending = match sync.take_close_focus(window) {
        Some(p) => p,
        None => {
            return None;
        },
    };
    let i = match find_project(&data.projects, pending.project_id.as_str()) {
        Some(i) => i,
        None => {
            return None;
        },
    };
    let closed = match &data.projects[i].layout {
        Some(l) => is_none_left(l, &pending.closing_terminal_ids),
        None => true,
    };
    if closed {
        let layout_path = land(&data.projects[i].layout, &pending.next_terminal_id);
        Some(RemoteFocusTarget { project_id: pending.project_id, layout_path })
    } else {
        sync.retry_close_focus(pending);
        None
    }
}

/// The first of `ids` that is not in `old_ids`.
fn find_first_new(ids: &Vec<String>, old_ids: &Vec<String>) -> (r: Option<usize>)
    ensures
        match r {
            Some(i) => i < ids@.len() && first_new(texts(ids@), texts(old_ids@)) == Some(
                ids@[i as int]@,
            ),
            None => first_new(texts(ids@), texts(old_ids@)) is None,
        },
{
    let ghost all = texts(ids@);
    let mut found: Option<usize> = None;
    let mut i: usize = 0;
    proof {
        assert(all.take(0) =~= Seq::<Seq<char>>::empty());
    }
    while i < ids.len()
        invariant
            i <= ids@.len(),
            all == texts(ids@),
            match found {
                Some(k) => k < ids@.len() && first_new(all.take(i as int), texts(old_ids@))
                    == Some(ids@[k as int]@),
                None => first_new(all.take(i as int), texts(old_ids@)) is None,
            },
        decreases ids@.len() - i,
    {
        proof {
            crate::collections::texts_take(ids@, i as int);
        }
        if found.is_none() && !list_contains(old_ids, ids[i].as_str()) {
            found = Some(i);
        }
        i = i + 1;
    }
    proof {
        assert(all.take(i as int) =~= all);
    }
    found
}

/// Where the focus goes for the request `f`.
fn target_of(data: &WorkspaceData, f: &PendingFocus) -> (r: Option<RemoteFocusTarget>)
    ensures
        match r {
            Some(t) => new_target(data@, f@) == Some(t@),
            None => new_target(data@, f@) is None,
        },
{
    let i = match find_project(&data.projects, f.project_id.as_str()) {
        Some(i) => i,
        None => {
            return None;
        },
    };
    let layout = match &data.projects[i].layout {
        Some(l) => l,
        None => {
            return None;
        },
    };
    let ids = layout.collect_terminal_ids();
    match find_first_new(&ids, &f.old_terminal_ids) {
        Some(k) => match layout.find_terminal_path(ids[k].as_str()) {
            Some(layout_path) => Some(
                RemoteFocusTarget { project_id: f.project_id.clone(), layout_path },
            ),
            None => None,
        },
        None => None,
    }
}

/// Add where the focus goes for the requests `requests`.
fn add_targets(
    data: &WorkspaceData,
    requests: &Vec<PendingFocus>,
    targets: &mut Vec<RemoteFocusTarget>,
)
    ensures
        target_views(final(targets)@) == target_views(old(targets)@) + new_targets(
            data@,
            focus_views(requests@),
        ),
{
    let ghost start = target_views(targets@);
    let ghost fs = focus_views(requests@);
    let mut i: usize = 0;
    proof {
        assert(fs.take(0) =~= Seq::<FocusRequestView>::empty());
        assert(start + new_targets(data@, fs.take(0)) =~= start);
    }
    while i < requests.len()
        invariant
            i <= requests@.len(),
            fs == focus_views(requests@),
            target_views(targets@) == start + new_targets(data@, fs.take(i as int)),
        decreases requests@.len() - i,
    {
        proof {
            assert(fs.take(i + 1).drop_last() =~= fs.take(i as int));
            assert(fs.take(i + 1).last() == requests@[i as int]@);
        }
        if let Some(t) = target_of(data, &requests[i]) {
            let ghost held = targets@;
            targets.push(t);
            proof {
                assert(target_views(targets@) =~= target_views(held).push(t@));
                assert(target_views(targets@) =~= start + new_targets(data@, fs.take(i + 1)));
            }
        }
        i = i + 1;
    }
    proof {
        assert(fs.take(i as int) =~= fs);
    }
}

/// Bring the tabs along the target to the front.
fn bring_forward(projects: &mut Vec<ProjectData>, t: &RemoteFocusTarget)
    ensures
        project_views(final(projects)@) == brought_forward(project_views(old(projects)@), t@),
{
    if let Some(i) = find_project(projects, t.project_id.as_str()) {
        let ghost before = projects@;
        if let Some(l) = &mut projects[i].layout {
            l.activate_tabs_along_path(t.layout_path.as_slice());
        }
        proof {
            let new = projects@[i as int];
            assert(projects@ =~= before.update(i as int, new));
            project_views_update(before, i as int, new);
            assert(project_views(before).update(i as int, before[i as int]@) =~= project_views(
                before,
            ));
        }
    }
}

/// Bring the workspace in line with what the connections report: their projects
/// and folders appear, change and go; how the client shows them stays. Returns
/// the terminals that are to get the focus.
pub fn apply_remote_snapshot(
    data: &mut WorkspaceData,
    remote_sync: &mut RemoteSyncState,
    snapshots: &Vec<RemoteSnapshot>,
    window_id: WindowId,
) -> (r: RemoteSyncOutcome)
    ensures
        client(final(data)@, final(remote_sync)@) == applied(
            client(old(data)@, old(remote_sync)@),
            snapshot_views(snapshots@),
            window_id,
        ),
        target_views(r.focus_targets@) == all_targets(
            reconciled(client(old(data)@, old(remote_sync)@), snapshot_views(snapshots@)).data,
            reconciled(client(old(data)@, old(remote_sync)@), snapshot_views(snapshots@)).sync,
            window_id,
        ),
{
    let ghost start = client(data@, remote_sync@);
    let ghost ss = snapshot_views(snapshots@);
    let mut i: usize = 0;
    while i < snapshots.len()
        invariant
            i <= snapshots@.len(),
            ss == snapshot_views(snapshots@),
            client(data@, remote_sync@) == connections_synced(start, ss, i as nat),
        decreases snapshots@.len() - i,
    {
        proof {
            assert(ss[i as int] == snapshots@[i as int]@);
        }
        sync_connection(data, remote_sync, &snapshots[i]);
        i = i + 1;
    }
    proof {
        assert(ss.len() == snapshots@.len());
    }
    drop_stale(data, remote_sync, snapshots);
    let ghost r = reconciled(start, ss);
    let mut targets: Vec<RemoteFocusTarget> = Vec::new();
    proof {
        assert(target_views(targets@) =~= Seq::<(Seq<char>, Seq<usize>)>::empty());
    }
    if let Some(t) = settle_close(data, remote_sync, window_id) {
        targets.push(t);
        proof {
            assert(target_views(targets@) =~= seq![t@]);
        }
    }
    let requests = remote_sync.drain_pending_focus(window_id);
    add_targets(data, &requests, &mut targets);
    let ghost ts = all_targets(r.data, r.sync, window_id);
    proof {
        assert(target_views(targets@) == ts);
        assert(ts.len() == targets@.len());
    }
    let mut k: usize = 0;
    while k < targets.len()
        invariant
            k <= targets@.len(),
            ts == target_views(targets@),
            data@ == (DataView {
                projects: all_brought_forward(r.data.projects, ts, k as nat),
                ..r.data
            }),
        decreases targets@.len() - k,
    {
        proof {
            assert(ts[k as int] == targets@[k as int]@);
        }
        bring_forward(&mut data.projects, &targets[k]);
        k = k + 1;
    }
    RemoteSyncOutcome { focus_targets: targets }
}

} // verus!
