//! What a client remembers between two syncs with its connections.

use crate::collections::{
    IdMap, keys_of, list_contains, list_extend, lookup, reversed, sifted_keys, stored, unkeyed,
};
use crate::layout::{LayoutNode, LayoutView};
use crate::rows::{connection_of, take_before_colon};
use crate::state::WindowId;
use crate::text::{copy_opt, has_prefix, opt_text, same, strip_prefix, texts};
use vstd::prelude::*;

verus! {

/// After how many syncs that still show it a close is given up on.
pub const CLOSE_FOCUS_TRIES: u32 = 50;

/// A service of a project, as its connection reports it.
#[derive(Debug)]
pub struct ApiServiceInfo {
    pub name: String,
    pub status: String,
    pub terminal_id: Option<String>,
}

impl Clone for ApiServiceInfo {
    fn clone(&self) -> (r: Self)
        ensures
            r == *self,
    {
        ApiServiceInfo {
            name: self.name.clone(),
            status: self.status.clone(),
            terminal_id: copy_opt(&self.terminal_id),
        }
    }
}

/// What an [`ApiServiceInfo`] stands for.
pub struct ServiceView {
    pub name: Seq<char>,
    pub status: Seq<char>,
    pub terminal_id: Option<Seq<char>>,
}

impl View for ApiServiceInfo {
    type V = ServiceView;

    open spec fn view(&self) -> ServiceView {
        ServiceView {
            name: self.name@,
            status: self.status@,
            terminal_id: opt_text(self.terminal_id),
        }
    }
}

/// What each service of `s` stands for.
pub open spec fn service_views(s: Seq<ApiServiceInfo>) -> Seq<ServiceView> {
    s.map_values(|v: ApiServiceInfo| v@)
}

/// What the last sync said of a project beyond what its row holds.
#[derive(Debug)]
pub struct RemoteProjectSnapshot {
    pub services: Vec<ApiServiceInfo>,
    pub host: Option<String>,
    pub git_status: Option<String>,
}

/// What a [`RemoteProjectSnapshot`] stands for.
pub struct SnapshotView {
    pub services: Seq<ServiceView>,
    pub host: Option<Seq<char>>,
    pub git_status: Option<Seq<char>>,
}

impl View for RemoteProjectSnapshot {
    type V = SnapshotView;

    open spec fn view(&self) -> SnapshotView {
        SnapshotView {
            services: service_views(self.services@),
            host: opt_text(self.host),
            git_status: opt_text(self.git_status),
        }
    }
}

/// A project that a window asked for, which is to show in that window alone.
#[derive(Debug)]
pub struct PendingVisibility {
    pub window: WindowId,
    pub connection_id: String,
    pub name: String,
    pub path: Option<String>,
}

/// What a [`PendingVisibility`] stands for.
pub struct VisibilityView {
    pub window: WindowId,
    pub connection_id: Seq<char>,
    pub name: Seq<char>,
    pub path: Option<Seq<char>>,
}

impl View for PendingVisibility {
    type V = VisibilityView;

    open spec fn view(&self) -> VisibilityView {
        VisibilityView {
            window: self.window,
            connection_id: self.connection_id@,
            name: self.name@,
            path: opt_text(self.path),
        }
    }
}

/// A terminal that a window asked for, which is to get the focus when it
/// appears.
#[derive(Debug)]
pub struct PendingFocus {
    pub window: WindowId,
    pub project_id: String,
    pub old_terminal_ids: Vec<String>,
}

/// What a [`PendingFocus`] stands for.
pub struct FocusRequestView {
    pub window: WindowId,
    pub project_id: Seq<char>,
    pub old_terminal_ids: Seq<Seq<char>>,
}

impl View for PendingFocus {
    type V = FocusRequestView;

    open spec fn view(&self) -> FocusRequestView {
        FocusRequestView {
            window: self.window,
            project_id: self.project_id@,
            old_terminal_ids: texts(self.old_terminal_ids@),
        }
    }
}

/// A close that a window asked for, after which another terminal is to get the
/// focus.
#[derive(Debug)]
pub struct PendingCloseFocus {
    pub window: WindowId,
    pub project_id: String,
    pub closing_terminal_ids: Vec<String>,
    pub next_terminal_id: Option<String>,
    pub tries: u32,
}

/// What a [`PendingCloseFocus`] stands for.
pub struct CloseFocusView {
    pub window: WindowId,
    pub project_id: Seq<char>,
    pub closing_terminal_ids: Seq<Seq<char>>,
    pub next_terminal_id: Option<Seq<char>>,
    pub tries: u32,
}

impl View for PendingCloseFocus {
    type V = CloseFocusView;

    open spec fn view(&self) -> CloseFocusView {
        CloseFocusView {
            window: self.window,
            project_id: self.project_id@,
            closing_terminal_ids: texts(self.closing_terminal_ids@),
            next_terminal_id: opt_text(self.next_terminal_id),
            tries: self.tries,
        }
    }
}

/// What a client remembers between two syncs.
#[derive(Debug)]
pub struct RemoteSyncState {
    project_layouts: IdMap<LayoutNode>,
    visibility: Vec<PendingVisibility>,
    focus: Vec<PendingFocus>,
    close_focus: Vec<PendingCloseFocus>,
    snapshots: IdMap<RemoteProjectSnapshot>,
}

/// What a [`RemoteSyncState`] stands for.
pub struct SyncView {
    /// The layouts of projects that are not there now.
    pub project_layouts: Seq<(Seq<char>, LayoutView)>,
    pub visibility: Seq<VisibilityView>,
    pub focus: Seq<FocusRequestView>,
    pub close_focus: Seq<CloseFocusView>,
    pub snapshots: Seq<(Seq<char>, SnapshotView)>,
}

impl View for RemoteSyncState {
    type V = SyncView;

    closed spec fn view(&self) -> SyncView {
        SyncView {
            project_layouts: self.project_layouts@,
            visibility: visibility_views(self.visibility@),
            focus: focus_views(self.focus@),
            close_focus: close_views(self.close_focus@),
            snapshots: self.snapshots@,
        }
    }
}

/// What each request of `s` stands for.
pub open spec fn visibility_views(s: Seq<PendingVisibility>) -> Seq<VisibilityView> {
    s.map_values(|p: PendingVisibility| p@)
}

/// What each request of `s` stands for.
pub open spec fn focus_views(s: Seq<PendingFocus>) -> Seq<FocusRequestView> {
    s.map_values(|p: PendingFocus| p@)
}

/// What each request of `s` stands for.
pub open spec fn close_views(s: Seq<PendingCloseFocus>) -> Seq<CloseFocusView> {
    s.map_values(|p: PendingCloseFocus| p@)
}

/// Nothing remembered.
pub open spec fn no_sync() -> SyncView {
    SyncView {
        project_layouts: Seq::empty(),
        visibility: Seq::empty(),
        focus: Seq::empty(),
        close_focus: Seq::empty(),
        snapshots: Seq::empty(),
    }
}

/// Whether `v` asked for the project: by its name, and by its path where one
/// was given.
pub open spec fn asked_for(
    v: VisibilityView,
    conn: Seq<char>,
    name: Seq<char>,
    path: Seq<char>,
) -> bool {
    v.connection_id == conn && v.name == name && (v.path is None || v.path == Some(path))
}

/// The first of the first `n` requests that asked for the project.
pub open spec fn request_for(
    s: Seq<VisibilityView>,
    conn: Seq<char>,
    name: Seq<char>,
    path: Seq<char>,
    n: nat,
) -> Option<int>
    decreases n,
{
    if n == 0 || n > s.len() {
        None
    } else {
        match request_for(s, conn, name, path, (n - 1) as nat) {
            Some(i) => Some(i),
            None => if asked_for(s[n - 1], conn, name, path) {
                Some(n - 1)
            } else {
                None
            },
        }
    }
}

/// The requests of `s` that the window made, or those that it did not make.
pub open spec fn focus_of(s: Seq<FocusRequestView>, window: WindowId, made: bool) -> Seq<
    FocusRequestView,
>
    decreases s.len(),
{
    if s.len() == 0 {
        s
    } else if (s.last().window == window) == made {
        focus_of(s.drop_last(), window, made).push(s.last())
    } else {
        focus_of(s.drop_last(), window, made)
    }
}

/// The closes of `s` that the window did not ask for.
pub open spec fn closes_without(s: Seq<CloseFocusView>, window: WindowId) -> Seq<CloseFocusView>
    decreases s.len(),
{
    if s.len() == 0 {
        s
    } else if s.last().window == window {
        closes_without(s.drop_last(), window)
    } else {
        closes_without(s.drop_last(), window).push(s.last())
    }
}

/// The last close of `s` that the window asked for.
pub open spec fn close_of(s: Seq<CloseFocusView>, window: WindowId) -> Option<CloseFocusView>
    decreases s.len(),
{
    if s.len() == 0 {
        None
    } else if s.last().window == window {
        Some(s.last())
    } else {
        close_of(s.drop_last(), window)
    }
}

/// `s` with `c` as the one close that its window waits for.
pub open spec fn close_queued(s: SyncView, c: CloseFocusView) -> SyncView {
    SyncView { close_focus: closes_without(s.close_focus, c.window).push(c), ..s }
}

/// `s` after another sync that still showed what was to be closed: the close is
/// waited for again, or given up on.
pub open spec fn close_retried(s: SyncView, c: CloseFocusView) -> SyncView {
    if c.tries + 1 < CLOSE_FOCUS_TRIES {
        close_queued(s, CloseFocusView { tries: (c.tries + 1) as u32, ..c })
    } else {
        s
    }
}

/// Whether what is remembered of the project `id` is to be dropped: its
/// connection is gone, or it synced without the project.
pub open spec fn outdated(
    id: Seq<char>,
    active: Seq<Seq<char>>,
    synced: Seq<Seq<char>>,
    expected: Seq<Seq<char>>,
) -> bool {
    let conn = if has_prefix(id, "remote:"@) {
        connection_of(id)
    } else {
        Seq::empty()
    };
    !active.contains(conn) || (synced.contains(conn) && !expected.contains(id))
}

/// The outdated ones of `ids`, in order.
pub open spec fn outdated_ids(
    ids: Seq<Seq<char>>,
    active: Seq<Seq<char>>,
    synced: Seq<Seq<char>>,
    expected: Seq<Seq<char>>,
) -> Seq<Seq<char>>
    decreases ids.len(),
{
    if ids.len() == 0 {
        ids
    } else if outdated(ids.last(), active, synced, expected) {
        outdated_ids(ids.drop_last(), active, synced, expected).push(ids.last())
    } else {
        outdated_ids(ids.drop_last(), active, synced, expected)
    }
}

/// What of `s` is outdated: first by its layout, then by its snapshot.
pub open spec fn outdated_in(
    s: SyncView,
    active: Seq<Seq<char>>,
    synced: Seq<Seq<char>>,
    expected: Seq<Seq<char>>,
) -> Seq<Seq<char>> {
    outdated_ids(keys_of(s.project_layouts), active, synced, expected) + outdated_ids(
        keys_of(s.snapshots),
        active,
        synced,
        expected,
    )
}

/// `s` without what is outdated.
pub open spec fn without_outdated(
    s: SyncView,
    active: Seq<Seq<char>>,
    synced: Seq<Seq<char>>,
    expected: Seq<Seq<char>>,
) -> SyncView {
    let gone = outdated_in(s, active, synced, expected);
    SyncView {
        project_layouts: sifted_keys(s.project_layouts, gone, false),
        snapshots: sifted_keys(s.snapshots, gone, false),
        ..s
    }
}

/// `s` without what it remembers of the project `id`.
pub open spec fn project_dropped(s: SyncView, id: Seq<char>) -> SyncView {
    SyncView {
        project_layouts: unkeyed(s.project_layouts, id),
        snapshots: unkeyed(s.snapshots, id),
        ..s
    }
}

/// The outdated ones of `ids`.
fn collect_outdated(
    ids: &Vec<String>,
    active: &Vec<String>,
    synced: &Vec<String>,
    expected: &Vec<String>,
) -> (r: Vec<String>)
    ensures
        texts(r@) == outdated_ids(texts(ids@), texts(active@), texts(synced@), texts(expected@)),
{
    let mut out: Vec<String> = Vec::new();
    let ghost whole = texts(ids@);
    let mut i: usize = 0;
    proof {
        assert(whole.take(0) =~= Seq::<Seq<char>>::empty());
        assert(texts(out@) =~= Seq::<Seq<char>>::empty());
    }
    while i < ids.len()
        invariant
            i <= ids@.len(),
            whole == texts(ids@),
            texts(out@) == outdated_ids(
                whole.take(i as int),
                texts(active@),
                texts(synced@),
                texts(expected@),
            ),
        decreases ids@.len() - i,
    {
        proof {
            crate::collections::texts_take(ids@, i as int);
        }
        let conn: &str = match strip_prefix(ids[i].as_str(), "remote:") {
            Some(rest) => take_before_colon(rest),
            None => "",
        };
        proof {
            reveal_strlit("");
            assert(""@ =~= Seq::<char>::empty());
        }
        if !list_contains(active, conn) || (list_contains(synced, conn) && !list_contains(
            expected,
            ids[i].as_str(),
        )) {
            let ghost before = out@;
            out.push(ids[i].clone());
            proof {
                assert(texts(out@) =~= texts(before).push(ids@[i as int]@));
            }
        }
        i = i + 1;
    }
    proof {
        assert(whole.take(i as int) =~= whole);
    }
    out
}

impl RemoteSyncState {
    /// Nothing remembered.
    pub fn new() -> (r: Self)
        ensures
            r@ == no_sync(),
    {
        let r = RemoteSyncState {
            project_layouts: IdMap::new(),
            visibility: Vec::new(),
            focus: Vec::new(),
            close_focus: Vec::new(),
            snapshots: IdMap::new(),
        };
        proof {
            assert(visibility_views(r.visibility@) =~= Seq::<VisibilityView>::empty());
            assert(focus_views(r.focus@) =~= Seq::<FocusRequestView>::empty());
            assert(close_views(r.close_focus@) =~= Seq::<CloseFocusView>::empty());
        }
        r
    }

    /// What the last sync said of the project `id`.
    pub fn snapshot(&self, id: &str) -> (r: Option<&RemoteProjectSnapshot>)
        ensures
            match r {
                Some(s) => lookup(self@.snapshots, id@) == Some(s@),
                None => lookup(self@.snapshots, id@) is None,
            },
    {
        self.snapshots.get(id)
    }

    /// Remember what a sync said of the project `id`.
    pub fn set_snapshot(&mut self, id: String, snapshot: RemoteProjectSnapshot)
        ensures
            final(self)@ == (SyncView {
                snapshots: stored(old(self)@.snapshots, id@, snapshot@),
                ..old(self)@
            }),
    {
        self.snapshots.insert(id, snapshot);
    }

    /// Start out with the layouts that the client kept from its last run.
    pub fn seed_project_layouts(&mut self, layouts: IdMap<LayoutNode>)
        ensures
            final(self)@ == (SyncView { project_layouts: layouts@, ..old(self)@ }),
    {
        self.project_layouts = layouts;
    }

    /// The layouts of projects that are not there now.
    pub fn preserved_project_layouts(&self) -> (r: &IdMap<LayoutNode>)
        ensures
            r@ == self@.project_layouts,
    {
        &self.project_layouts
    }

    /// Keep the layout of a project that leaves for now.
    pub fn preserve_project_layout(&mut self, id: String, layout: LayoutNode)
        ensures
            final(self)@ == (SyncView {
                project_layouts: stored(old(self)@.project_layouts, id@, layout@),
                ..old(self)@
            }),
    {
        self.project_layouts.insert(id, layout);
    }

    /// Hand out the layout that was kept of the project `id`.
    pub fn take_project_layout(&mut self, id: &str) -> (r: Option<LayoutNode>)
        ensures
            final(self)@ == (SyncView {
                project_layouts: unkeyed(old(self)@.project_layouts, id@),
                ..old(self)@
            }),
            match r {
                Some(l) => lookup(old(self)@.project_layouts, id@) == Some(l@),
                None => lookup(old(self)@.project_layouts, id@) is None,
            },
    {
        self.project_layouts.remove(id)
    }

    /// Let the project show in `window` alone when it appears.
    pub fn queue_project_visibility(
        &mut self,
        window: WindowId,
        connection_id: &str,
        name: &str,
        path: Option<&str>,
    )
        ensures
            final(self)@ == (SyncView {
                visibility: old(self)@.visibility.push(
                    VisibilityView {
                        window,
                        connection_id: connection_id@,
                        name: name@,
                        path: match path {
                            Some(p) => Some(p@),
                            None => None,
                        },
                    },
                ),
                ..old(self)@
            }),
    {
        let ghost before = self.visibility@;
        let path: Option<String> = match path {
            Some(p) => Some(p.to_owned()),
            None => None,
        };
        let v = PendingVisibility {
            window,
            connection_id: connection_id.to_owned(),
            name: name.to_owned(),
            path,
        };
        self.visibility.push(v);
        proof {
            assert(visibility_views(self.visibility@) =~= visibility_views(before).push(v@));
        }
    }

    /// Hand out the window that asked for the project.
    pub fn take_project_visibility(&mut self, connection_id: &str, name: &str, path: &str) -> (r:
        Option<WindowId>)
        ensures
            match request_for(
                old(self)@.visibility,
                connection_id@,
                name@,
                path@,
                old(self)@.visibility.len(),
            ) {
                Some(i) => 0 <= i < old(self)@.visibility.len() && r == Some(
                    old(self)@.visibility[i].window,
                ) && final(self)@ == (SyncView {
                    visibility: old(self)@.visibility.remove(i),
                    ..old(self)@
                }),
                None => r is None && final(self)@ == old(self)@,
            },
    {
        let ghost s = visibility_views(self.visibility@);
        let mut i: usize = 0;
        while i < self.visibility.len()
            invariant
                i <= self.visibility@.len(),
                *self == *old(self),
                s == visibility_views(self.visibility@),
                request_for(s, connection_id@, name@, path@, i as nat) is None,
            decreases self.visibility@.len() - i,
        {
            let v = &self.visibility[i];
            proof {
                assert(s[i as int] == v@);
            }
            let path_fits = match &v.path {
                Some(p) => same(p.as_str(), path),
                None => true,
            };
            if same(v.connection_id.as_str(), connection_id) && same(v.name.as_str(), name)
                && path_fits {
                proof {
                    request_for_extends(s, connection_id@, name@, path@, (i + 1) as nat);
                }
                let ghost before = self.visibility@;
                let hit = self.visibility.remove(i);
                proof {
                    assert(visibility_views(self.visibility@) =~= s.remove(i as int));
                }
                return Some(hit.window);
            }
            i = i + 1;
        }
        proof {
            assert(s.len() == self.visibility@.len());
        }
        None
    }

    /// Give the focus to the terminal that will appear in the project beyond
    /// the ones that are there.
    pub fn queue_focus(&mut self, window: WindowId, project_id: &str, old_terminal_ids: Vec<String>)
        ensures
            final(self)@ == (SyncView {
                focus: old(self)@.focus.push(
                    FocusRequestView {
                        window,
                        project_id: project_id@,
                        old_terminal_ids: texts(old_terminal_ids@),
                    },
                ),
                ..old(self)@
            }),
    {
        let ghost before = self.focus@;
        let f = PendingFocus { window, project_id: project_id.to_owned(), old_terminal_ids };
        self.focus.push(f);
        proof {
            assert(focus_views(self.focus@) =~= focus_views(before).push(f@));
        }
    }

    /// Hand out the focus requests of a window.
    pub fn drain_pending_focus(&mut self, window: WindowId) -> (r: Vec<PendingFocus>)
        ensures
            focus_views(r@) == focus_of(old(self)@.focus, window, true),
            final(self)@ == (SyncView {
                focus: focus_of(old(self)@.focus, window, false),
                ..old(self)@
            }),
    {
        let mut all: Vec<PendingFocus> = Vec::new();
        std::mem::swap(&mut all, &mut self.focus);
        let ghost start = all@;
        let ghost whole = focus_views(start);
        let mut rest = reversed(all);
        let ghost mut taken: int = 0;
        let mut mine: Vec<PendingFocus> = Vec::new();
        let mut others: Vec<PendingFocus> = Vec::new();
        proof {
            assert(whole.take(0) =~= Seq::<FocusRequestView>::empty());
            assert(focus_views(mine@) =~= Seq::<FocusRequestView>::empty());
            assert(focus_views(others@) =~= Seq::<FocusRequestView>::empty());
        }
        while rest.len() > 0
            invariant
                0 <= taken <= start.len(),
                rest@.len() == start.len() - taken,
                whole == focus_views(start),
                forall|j: int| 0 <= j < rest@.len() ==> rest@[j] == start[start.len() - 1 - j],
                focus_views(mine@) == focus_of(whole.take(taken), window, true),
                focus_views(others@) == focus_of(whole.take(taken), window, false),
            decreases rest.len(),
        {
            let e = rest.pop().unwrap();
            proof {
                assert(e == start[taken]);
                assert(whole.take(taken + 1).drop_last() =~= whole.take(taken));
                assert(whole.take(taken + 1).last() == e@);
            }
            if e.window == window {
                let ghost had = mine@;
                mine.push(e);
                proof {
                    assert(focus_views(mine@) =~= focus_views(had).push(e@));
                }
            } else {
                let ghost had = others@;
                others.push(e);
                proof {
                    assert(focus_views(others@) =~= focus_views(had).push(e@));
                }
            }
            proof {
                taken = taken + 1;
            }
        }
        proof {
            assert(whole.take(taken) =~= whole);
        }
        self.focus = others;
        mine
    }

    /// Give the focus to `next_terminal_id` once the others are closed.
    pub fn queue_close_focus(
        &mut self,
        window: WindowId,
        project_id: &str,
        closing_terminal_ids: Vec<String>,
        next_terminal_id: Option<String>,
    )
        ensures
            final(self)@ == close_queued(
                old(self)@,
                CloseFocusView {
                    window,
                    project_id: project_id@,
                    closing_terminal_ids: texts(closing_terminal_ids@),
                    next_terminal_id: opt_text(next_terminal_id),
                    tries: 0,
                },
            ),
    {
        let c = PendingCloseFocus {
            window,
            project_id: project_id.to_owned(),
            closing_terminal_ids,
            next_terminal_id,
            tries: 0,
        };
        self.take_close_focus(window);
        let ghost before = self.close_focus@;
        self.close_focus.push(c);
        proof {
            assert(close_views(self.close_focus@) =~= close_views(before).push(c@));
        }
    }

    /// Hand out the close that a window waits for.
    pub fn take_close_focus(&mut self, window: WindowId) -> (r: Option<PendingCloseFocus>)
        ensures
            final(self)@ == (SyncView {
                close_focus: closes_without(old(self)@.close_focus, window),
                ..old(self)@
            }),
            match r {
                Some(c) => close_of(old(self)@.close_focus, window) == Some(c@),
                None => close_of(old(self)@.close_focus, window) is None,
            },
    {
        let mut all: Vec<PendingCloseFocus> = Vec::new();
        std::mem::swap(&mut all, &mut self.close_focus);
        let ghost start = all@;
        let ghost whole = close_views(start);
        let mut rest = reversed(all);
        let ghost mut taken: int = 0;
        let mut mine: Option<PendingCloseFocus> = None;
        let mut others: Vec<PendingCloseFocus> = Vec::new();
        proof {
            assert(whole.take(0) =~= Seq::<CloseFocusView>::empty());
            assert(close_views(others@) =~= Seq::<CloseFocusView>::empty());
        }
        while rest.len() > 0
            invariant
                0 <= taken <= start.len(),
                rest@.len() == start.len() - taken,
                whole == close_views(start),
                forall|j: int| 0 <= j < rest@.len() ==> rest@[j] == start[start.len() - 1 - j],
                close_views(others@) == closes_without(whole.take(taken), window),
                match mine {
                    Some(c) => close_of(whole.take(taken), window) == Some(c@),
                    None => close_of(whole.take(taken), window) is None,
                },
            decreases rest.len(),
        {
            let e = rest.pop().unwrap();
            proof {
                assert(e == start[taken]);
                assert(whole.take(taken + 1).drop_last() =~= whole.take(taken));
                assert(whole.take(taken + 1).last() == e@);
            }
            if e.window == window {
                mine = Some(e);
            } else {
                let ghost had = others@;
                others.push(e);
                proof {
                    assert(close_views(others@) =~= close_views(had).push(e@));
                }
            }
            proof {
                taken = taken + 1;
            }
        }
        proof {
            assert(whole.take(taken) =~= whole);
        }
        self.close_focus = others;
        mine
    }

    /// Wait again for a close that has not happened yet, unless it has been
    /// waited for too long.
    pub fn retry_close_focus(&mut self, pending: PendingCloseFocus)
        ensures
            final(self)@ == close_retried(old(self)@, pending@),
    {
        if pending.tries < CLOSE_FOCUS_TRIES - 1 {
            let mut pending = pending;
            pending.tries = pending.tries + 1;
            self.take_close_focus(pending.window);
            let ghost before = self.close_focus@;
            self.close_focus.push(pending);
            proof {
                assert(close_views(self.close_focus@) =~= close_views(before).push(pending@));
            }
        }
    }

    /// Drop what is outdated, and say of which projects.
    pub fn prune_project_state(
        &mut self,
        active: &Vec<String>,
        synced: &Vec<String>,
        expected: &Vec<String>,
    ) -> (r: Vec<String>)
        ensures
            texts(r@) == outdated_in(
                old(self)@,
                texts(active@),
                texts(synced@),
                texts(expected@),
            ),
            final(self)@ == without_outdated(
                old(self)@,
                texts(active@),
                texts(synced@),
                texts(expected@),
            ),
    {
        let layouts = self.project_layouts.keys();
        let snapshots = self.snapshots.keys();
        let mut gone = collect_outdated(&layouts, active, synced, expected);
        let more = collect_outdated(&snapshots, active, synced, expected);
        list_extend(&mut gone, &more);
        self.project_layouts.sift(&gone, false);
        self.snapshots.sift(&gone, false);
        gone
    }

    /// Drop what is remembered of the project `id`.
    pub fn remove_project(&mut self, id: &str)
        ensures
            final(self)@ == project_dropped(old(self)@, id@),
    {
        self.project_layouts.remove(id);
        self.snapshots.remove(id);
    }
}

/// A request found among the first ones is the one found among all.
proof fn request_for_extends(
    s: Seq<VisibilityView>,
    conn: Seq<char>,
    name: Seq<char>,
    path: Seq<char>,
    n: nat,
)
    requires
        n <= s.len(),
        request_for(s, conn, name, path, n) is Some,
    ensures
        request_for(s, conn, name, path, s.len()) == request_for(s, conn, name, path, n),
    decreases s.len() - n,
{
    if n < s.len() {
        request_for_extends(s, conn, name, path, n + 1);
    }
}

/// Every retry counts, and a close is given up on when it has been waited for
/// often enough: so no close is waited for forever.
pub proof fn closes_are_given_up_on(s: SyncView, c: CloseFocusView)
    requires
        close_of(s.close_focus, c.window) is None,
    ensures
        match close_of(close_retried(s, c).close_focus, c.window) {
            Some(again) => again.tries == c.tries + 1 && again.tries < CLOSE_FOCUS_TRIES,
            None => c.tries + 1 >= CLOSE_FOCUS_TRIES,
        },
{
}

} // verus!
