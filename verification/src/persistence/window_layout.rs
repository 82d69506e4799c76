//! The windows of a client, which it keeps apart from the workspace.
//!
//! Bringing an older file up to date only adds to it and renames in it: what a
//! user has hidden, sized or filtered is never lost.

use crate::collections::{Duplicate, IdMap, lookup, lookup_after_store, stored, unkeyed};
use crate::layout::{LayoutNode, LayoutView};
use crate::layout_terminals::{
    TerminalEdit, TerminalEditView, edited, edited_in, edited_in_index, local_daemon_id,
    local_daemon_id_is_stable, prefix_local_daemon_id,
};
use crate::state::{
    DataView, ProjectView, WindowState, WindowView, WorkspaceData, blank_window, project_views,
    window_views,
};
use crate::windows::{
    WindowEdit, WindowEditView, edit_extras, edited_extras, edited_window, local_daemon_ids,
    local_daemon_keys, prefix_local_daemon_keyed_values,
};
use vstd::prelude::*;

verus! {

/// The version that introduced layouts and panel heights.
pub const WINDOW_LAYOUT_PROJECT_PRESENTATION_VERSION: u32 = 3;

/// The present version.
pub const WINDOW_LAYOUT_VERSION: u32 = 3;

/// The windows of a client and how it shows each project.
#[derive(Debug)]
pub struct ClientWindowLayout {
    pub version: u32,
    pub main_window: WindowState,
    pub extra_windows: Vec<WindowState>,
    pub project_layouts: IdMap<LayoutNode>,
    pub service_panel_heights: IdMap<u32>,
    pub hook_panel_heights: IdMap<u32>,
}

/// What a [`ClientWindowLayout`] stands for.
pub struct ClientView {
    pub version: u32,
    pub main_window: WindowView,
    pub extra_windows: Seq<WindowView>,
    pub project_layouts: Seq<(Seq<char>, LayoutView)>,
    pub service_panel_heights: Seq<(Seq<char>, u32)>,
    pub hook_panel_heights: Seq<(Seq<char>, u32)>,
}

impl View for ClientWindowLayout {
    type V = ClientView;

    open spec fn view(&self) -> ClientView {
        ClientView {
            version: self.version,
            main_window: self.main_window@,
            extra_windows: window_views(self.extra_windows@),
            project_layouts: self.project_layouts@,
            service_panel_heights: self.service_panel_heights@,
            hook_panel_heights: self.hook_panel_heights@,
        }
    }
}

impl Default for ClientWindowLayout {
    fn default() -> (r: Self)
        ensures
            r@ == blank_client(),
    {
        let r = ClientWindowLayout {
            version: 0,
            main_window: WindowState::new(0),
            extra_windows: Vec::new(),
            project_layouts: IdMap::new(),
            service_panel_heights: IdMap::new(),
            hook_panel_heights: IdMap::new(),
        };
        proof {
            assert(window_views(r.extra_windows@) =~= Seq::<WindowView>::empty());
        }
        r
    }
}

/// A client that has kept nothing yet.
pub open spec fn blank_client() -> ClientView {
    ClientView {
        version: 0,
        main_window: blank_window(0),
        extra_windows: Seq::empty(),
        project_layouts: Seq::empty(),
        service_panel_heights: Seq::empty(),
        hook_panel_heights: Seq::empty(),
    }
}

/// The layouts of `s` as the local daemon's projects.
pub open spec fn local_daemon_layouts(s: Seq<(Seq<char>, LayoutView)>) -> Seq<
    (Seq<char>, LayoutView),
>
    decreases s.len(),
{
    if s.len() == 0 {
        s
    } else {
        stored(
            local_daemon_layouts(s.drop_last()),
            local_daemon_id(s.last().0),
            edited(s.last().1, TerminalEditView::OfLocalDaemon),
        )
    }
}

/// `c` with every project, folder and terminal named as the local daemon's.
pub open spec fn as_local_daemon(c: ClientView) -> ClientView {
    ClientView {
        version: c.version,
        main_window: edited_window(c.main_window, WindowEditView::OfLocalDaemon),
        extra_windows: edited_extras(c.extra_windows, WindowEditView::OfLocalDaemon),
        project_layouts: local_daemon_layouts(c.project_layouts),
        service_panel_heights: local_daemon_keys(c.service_panel_heights),
        hook_panel_heights: local_daemon_keys(c.hook_panel_heights),
    }
}

/// `c` at the present version.
pub open spec fn migrated_client(c: ClientView) -> ClientView {
    ClientView { version: WINDOW_LAYOUT_VERSION, ..as_local_daemon(c) }
}

/// `target` with the first `n` layouts of `source` that it does not have.
pub open spec fn filled_layouts(
    target: Seq<(Seq<char>, LayoutView)>,
    source: Seq<(Seq<char>, LayoutView)>,
    n: nat,
) -> Seq<(Seq<char>, LayoutView)>
    decreases n,
{
    if n == 0 || n > source.len() {
        target
    } else {
        let before = filled_layouts(target, source, (n - 1) as nat);
        if lookup(before, source[n - 1].0) is Some {
            before
        } else {
            stored(before, source[n - 1].0, source[n - 1].1)
        }
    }
}

/// `target` with what `source` knows of how projects are shown, where `target`
/// does not know it itself.
pub open spec fn with_presentation(target: ClientView, source: ClientView) -> ClientView {
    ClientView {
        project_layouts: filled_layouts(
            target.project_layouts,
            source.project_layouts,
            source.project_layouts.len(),
        ),
        service_panel_heights: if target.service_panel_heights.len() == 0 {
            source.service_panel_heights
        } else {
            target.service_panel_heights
        },
        hook_panel_heights: if target.hook_panel_heights.len() == 0 {
            source.hook_panel_heights
        } else {
            target.hook_panel_heights
        },
        ..target
    }
}

/// The layouts of the first `n` projects that have one.
pub open spec fn layouts_of(ps: Seq<ProjectView>, n: nat) -> Seq<(Seq<char>, LayoutView)>
    decreases n,
{
    if n == 0 || n > ps.len() {
        Seq::empty()
    } else {
        match ps[n - 1].layout {
            Some(l) => stored(layouts_of(ps, (n - 1) as nat), ps[n - 1].id, l),
            None => layouts_of(ps, (n - 1) as nat),
        }
    }
}

/// The client's windows as the workspace `d` kept them before clients kept
/// their own.
pub open spec fn client_of_workspace(d: DataView) -> ClientView {
    as_local_daemon(
        ClientView {
            version: WINDOW_LAYOUT_VERSION,
            main_window: d.main_window,
            extra_windows: d.extra_windows,
            project_layouts: layouts_of(d.projects, d.projects.len()),
            service_panel_heights: d.service_panel_heights,
            hook_panel_heights: d.hook_panel_heights,
        },
    )
}

/// The layouts of `layouts` as the local daemon's projects.
pub fn prefix_local_daemon_project_layouts(layouts: &mut IdMap<LayoutNode>)
    ensures
        final(layouts)@ == local_daemon_layouts(old(layouts)@),
{
    let mut out: IdMap<LayoutNode> = IdMap::new();
    let mut i: usize = 0;
    let ghost whole = layouts@;
    proof {
        assert(whole.take(0) =~= Seq::<(Seq<char>, LayoutView)>::empty());
    }
    while i < layouts.len()
        invariant
            i <= layouts@.len(),
            whole == layouts@,
            out@ == local_daemon_layouts(whole.take(i as int)),
        decreases layouts@.len() - i,
    {
        proof {
            assert(whole.take(i + 1).drop_last() =~= whole.take(i as int));
        }
        let mut l = layouts.value_at(i).duplicate();
        prefix_local_daemon_terminal_ids(&mut l);
        out.insert(prefix_local_daemon_id(layouts.key_at(i).as_str()), l);
        i = i + 1;
    }
    proof {
        assert(whole.take(i as int) =~= whole);
    }
    *layouts = out;
}

/// Name every terminal as one of the local daemon.
pub fn prefix_local_daemon_terminal_ids(layout: &mut LayoutNode)
    ensures
        final(layout)@ == edited(old(layout)@, TerminalEditView::OfLocalDaemon),
{
    layout.edit_terminals(&TerminalEdit::OfLocalDaemon);
}

/// Name everything in a window as the local daemon's.
pub fn prefix_local_daemon_window_state_refs(window: &mut WindowState)
    ensures
        final(window)@ == edited_window(old(window)@, WindowEditView::OfLocalDaemon),
{
    window.apply(&WindowEdit::OfLocalDaemon);
}

/// Name everything that a client keeps as the local daemon's.
pub fn prefix_local_daemon_window_refs(layout: &mut ClientWindowLayout)
    ensures
        final(layout)@ == as_local_daemon(old(layout)@),
{
    prefix_local_daemon_window_state_refs(&mut layout.main_window);
    edit_extras(&mut layout.extra_windows, &WindowEdit::OfLocalDaemon);
    prefix_local_daemon_project_layouts(&mut layout.project_layouts);
    prefix_local_daemon_keyed_values(&mut layout.service_panel_heights);
    prefix_local_daemon_keyed_values(&mut layout.hook_panel_heights);
}

/// Bring a client's windows to the present version.
pub fn migrate_window_layout(layout: &mut ClientWindowLayout)
    ensures
        final(layout)@ == migrated_client(old(layout)@),
{
    prefix_local_daemon_window_refs(layout);
    layout.version = WINDOW_LAYOUT_VERSION;
}

/// Take over from `source` how projects are shown, where `target` does not
/// know it itself.
pub fn migrate_window_layout_v3_presentation(
    target: &mut ClientWindowLayout,
    source: ClientWindowLayout,
)
    ensures
        final(target)@ == with_presentation(old(target)@, source@),
{
    let ghost t0 = target.project_layouts@;
    let ghost s = source.project_layouts@;
    let mut i: usize = 0;
    while i < source.project_layouts.len()
        invariant
            i <= source.project_layouts@.len(),
            s == source.project_layouts@,
            target.project_layouts@ == filled_layouts(t0, s, i as nat),
            target.version == old(target).version,
            target.main_window == old(target).main_window,
            target.extra_windows == old(target).extra_windows,
            target.service_panel_heights == old(target).service_panel_heights,
            target.hook_panel_heights == old(target).hook_panel_heights,
        decreases source.project_layouts@.len() - i,
    {
        if !target.project_layouts.contains_key(source.project_layouts.key_at(i).as_str()) {
            target.project_layouts.insert(
                source.project_layouts.key_at(i).clone(),
                source.project_layouts.value_at(i).duplicate(),
            );
        }
        i = i + 1;
    }
    if target.service_panel_heights.is_empty() {
        target.service_panel_heights = source.service_panel_heights;
    }
    if target.hook_panel_heights.is_empty() {
        target.hook_panel_heights = source.hook_panel_heights;
    }
}

/// The client's windows as a workspace kept them before clients kept their own.
pub fn workspace_window_layout(data: &WorkspaceData) -> (r: ClientWindowLayout)
    ensures
        r@ == client_of_workspace(data@),
{
    let mut layouts: IdMap<LayoutNode> = IdMap::new();
    let ghost ps = data@.projects;
    let mut i: usize = 0;
    while i < data.projects.len()
        invariant
            i <= data.projects@.len(),
            ps == project_views(data.projects@),
            layouts@ == layouts_of(ps, i as nat),
        decreases data.projects@.len() - i,
    {
        proof {
            assert(ps[i as int] == data.projects@[i as int]@);
        }
        if let Some(l) = &data.projects[i].layout {
            layouts.insert(data.projects[i].id.clone(), l.duplicate());
        }
        i = i + 1;
    }
    let mut r = client_presentation(data, layouts);
    prefix_local_daemon_window_refs(&mut r);
    r
}

/// What a client keeps of `data`, with the layouts `project_layouts`.
pub fn client_presentation(data: &WorkspaceData, project_layouts: IdMap<LayoutNode>) -> (r:
    ClientWindowLayout)
    ensures
        r@ == (ClientView {
            version: WINDOW_LAYOUT_VERSION,
            main_window: data@.main_window,
            extra_windows: data@.extra_windows,
            project_layouts: project_layouts@,
            service_panel_heights: data@.service_panel_heights,
            hook_panel_heights: data@.hook_panel_heights,
        }),
{
    let mut extras: Vec<WindowState> = Vec::new();
    let mut i: usize = 0;
    while i < data.extra_windows.len()
        invariant
            i <= data.extra_windows@.len(),
            extras@.len() == i,
            forall|j: int| 0 <= j < i ==> (#[trigger] extras@[j])@ == data.extra_windows@[j]@,
        decreases data.extra_windows@.len() - i,
    {
        extras.push(data.extra_windows[i].clone());
        i = i + 1;
    }
    proof {
        assert(window_views(extras@) =~= data@.extra_windows);
    }
    ClientWindowLayout {
        version: WINDOW_LAYOUT_VERSION,
        main_window: data.main_window.clone(),
        extra_windows: extras,
        project_layouts,
        service_panel_heights: data.service_panel_heights.copy(),
        hook_panel_heights: data.hook_panel_heights.copy(),
    }
}

/// What came of reading the file in which a client keeps its windows.
pub enum WindowLayoutRead {
    /// There is no such file.
    Missing,
    /// The file is there and cannot be read.
    Unreadable,
    /// The file does not hold what it should.
    Corrupt,
    /// The file's contents.
    Parsed(ClientWindowLayout),
}

/// Whether what the workspace kept of the windows is needed: where the client
/// has no file of its own, or one from before it kept how projects are shown.
pub open spec fn needs_workspace_windows(read: WindowLayoutRead) -> bool {
    match read {
        WindowLayoutRead::Missing => true,
        WindowLayoutRead::Parsed(l) => l@.version < WINDOW_LAYOUT_PROJECT_PRESENTATION_VERSION,
        _ => false,
    }
}

/// Whether what the workspace kept of the windows is needed.
pub fn wants_legacy_layout(read: &WindowLayoutRead) -> (r: bool)
    ensures
        r == needs_workspace_windows(*read),
{
    match read {
        WindowLayoutRead::Missing => true,
        WindowLayoutRead::Parsed(l) => l.version < WINDOW_LAYOUT_PROJECT_PRESENTATION_VERSION,
        _ => false,
    }
}

/// The windows that a client starts with. `legacy` is what the workspace kept
/// of them; it plays no part unless it is needed. A file that is there and is
/// no good stands for no windows at all, rather than for outdated ones.
pub fn load_window_layout_at(read: WindowLayoutRead, legacy: Option<ClientWindowLayout>) -> (r:
    Option<ClientWindowLayout>)
    ensures
        match read {
            WindowLayoutRead::Missing => r == legacy,
            WindowLayoutRead::Unreadable => r is None,
            WindowLayoutRead::Corrupt => r is None,
            WindowLayoutRead::Parsed(l) => r is Some && r->0@ == migrated_client(
                if needs_workspace_windows(read) && legacy is Some {
                    with_presentation(l@, legacy->0@)
                } else {
                    l@
                },
            ),
        },
{
    let wants = wants_legacy_layout(&read);
    match read {
        WindowLayoutRead::Missing => legacy,
        WindowLayoutRead::Unreadable => None,
        WindowLayoutRead::Corrupt => None,
        WindowLayoutRead::Parsed(l) => {
            let mut l = l;
            if wants {
                if let Some(old_layout) = legacy {
                    migrate_window_layout_v3_presentation(&mut l, old_layout);
                }
            }
            migrate_window_layout(&mut l);
            Some(l)
        },
    }
}

/// Naming the terminals of a tree as the local daemon's a second time changes
/// nothing.
proof fn terminals_are_named_once(l: LayoutView)
    ensures
        edited(
            edited(l, TerminalEditView::OfLocalDaemon),
            TerminalEditView::OfLocalDaemon,
        ) == edited(l, TerminalEditView::OfLocalDaemon),
    decreases l,
{
    let how = TerminalEditView::OfLocalDaemon;
    match l {
        LayoutView::Terminal { terminal_id, .. } => {
            if terminal_id is Some {
                local_daemon_id_is_stable(terminal_id->0);
            }
        },
        LayoutView::Split { children, .. } => {
            children_are_named_once(children);
        },
        LayoutView::Tabs { children, .. } => {
            children_are_named_once(children);
        },
    }
}

proof fn children_are_named_once(cs: Seq<LayoutView>)
    ensures
        ({
            let once = edited_in(cs, TerminalEditView::OfLocalDaemon, cs.len());
            edited_in(once, TerminalEditView::OfLocalDaemon, once.len()) == once
        }),
    decreases cs,
{
    let how = TerminalEditView::OfLocalDaemon;
    let once = edited_in(cs, how, cs.len());
    edited_in_index(cs, how, cs.len());
    edited_in_index(once, how, once.len());
    assert forall|i: int| 0 <= i < cs.len() implies edited_in(once, how, once.len())[i]
        == once[i] by {
        terminals_are_named_once(cs[i]);
    }
    assert(edited_in(once, how, once.len()) =~= once);
}

/// Whether every key is the local daemon's and none occurs twice.
spec fn settled_keys<A>(s: Seq<(Seq<char>, A)>) -> bool {
    &&& forall|i: int| 0 <= i < s.len() ==> local_daemon_id((#[trigger] s[i]).0) == s[i].0
    &&& forall|i: int, j: int|
        0 <= i < s.len() && 0 <= j < s.len() && i != j ==> (#[trigger] s[i]).0 != (#[trigger] s[j]).0
}

proof fn unkeyed_entries<A>(s: Seq<(Seq<char>, A)>, k: Seq<char>)
    requires
        settled_keys(s),
    ensures
        settled_keys(unkeyed(s, k)),
        forall|i: int| 0 <= i < unkeyed(s, k).len() ==> (#[trigger] unkeyed(s, k)[i]).0 != k,
        forall|i: int|
            0 <= i < unkeyed(s, k).len() ==> s.contains(#[trigger] unkeyed(s, k)[i]),
        (forall|i: int| 0 <= i < s.len() ==> (#[trigger] s[i]).0 != k) ==> unkeyed(s, k) == s,
    decreases s.len(),
{
    if s.len() > 0 {
        let front = s.drop_last();
        assert(settled_keys(front)) by {
            assert forall|i: int| 0 <= i < front.len() implies local_daemon_id(
                (#[trigger] front[i]).0,
            ) == front[i].0 by {
                assert(front[i] == s[i]);
            }
            assert forall|i: int, j: int|
                0 <= i < front.len() && 0 <= j < front.len() && i != j implies (
            #[trigger] front[i]).0 != (#[trigger] front[j]).0 by {
                assert(front[i] == s[i] && front[j] == s[j]);
            }
        }
        unkeyed_entries(front, k);
        let u = unkeyed(front, k);
        assert forall|i: int| 0 <= i < u.len() implies s.contains(#[trigger] u[i]) by {
            assert(front.contains(u[i]));
            let m = choose|m: int| 0 <= m < front.len() && front[m] == u[i];
            assert(s[m] == u[i]);
        }
        if s.last().0 != k {
            let w = u.push(s.last());
            assert(unkeyed(s, k) == w);
            assert(s[s.len() - 1] == s.last());
            assert forall|i: int, j: int|
                0 <= i < w.len() && 0 <= j < w.len() && i != j implies (#[trigger] w[i]).0
                != (#[trigger] w[j]).0 by {
                if i < u.len() && j < u.len() {
                    assert(w[i] == u[i] && w[j] == u[j]);
                } else {
                    let a = if i < u.len() {
                        i
                    } else {
                        j
                    };
                    assert(front.contains(u[a]));
                    let m = choose|m: int| 0 <= m < front.len() && front[m] == u[a];
                    assert(s[m] == u[a]);
                    assert(s[m].0 != s[s.len() - 1].0);
                }
            }
            assert forall|i: int| 0 <= i < w.len() implies s.contains(#[trigger] w[i]) by {
                if i < u.len() {
                    assert(w[i] == u[i]);
                } else {
                    assert(s[s.len() - 1] == w[i]);
                }
            }
        }
        if forall|i: int| 0 <= i < s.len() ==> (#[trigger] s[i]).0 != k {
            assert forall|i: int| 0 <= i < front.len() implies (#[trigger] front[i]).0 != k by {
                assert(front[i] == s[i]);
            }
            assert(s[s.len() - 1].0 != k);
            assert(front.push(s.last()) =~= s);
        }
    }
}

proof fn storing_settles<A>(s: Seq<(Seq<char>, A)>, k: Seq<char>, v: A)
    requires
        settled_keys(s),
        local_daemon_id(k) == k,
    ensures
        settled_keys(stored(s, k, v)),
{
    unkeyed_entries(s, k);
    let u = unkeyed(s, k);
    let w = stored(s, k, v);
    assert forall|i: int, j: int| 0 <= i < w.len() && 0 <= j < w.len() && i != j implies (
    #[trigger] w[i]).0 != (#[trigger] w[j]).0 by {
        if i < u.len() {
            assert(w[i] == u[i]);
        }
        if j < u.len() {
            assert(w[j] == u[j]);
        }
    }
    assert forall|i: int| 0 <= i < w.len() implies local_daemon_id((#[trigger] w[i]).0)
        == w[i].0 by {
        if i < u.len() {
            assert(w[i] == u[i]);
        }
    }
}

proof fn keys_are_settled<A>(s: Seq<(Seq<char>, A)>)
    ensures
        settled_keys(local_daemon_keys(s)),
    decreases s.len(),
{
    if s.len() > 0 {
        keys_are_settled(s.drop_last());
        local_daemon_id_is_stable(s.last().0);
        storing_settles(
            local_daemon_keys(s.drop_last()),
            local_daemon_id(s.last().0),
            s.last().1,
        );
    }
}

proof fn settled_keys_are_kept<A>(s: Seq<(Seq<char>, A)>)
    requires
        settled_keys(s),
    ensures
        local_daemon_keys(s) == s,
    decreases s.len(),
{
    if s.len() > 0 {
        let front = s.drop_last();
        settled_front(s);
        settled_keys_are_kept(front);
        unkeyed_entries(front, s.last().0);
        assert forall|i: int| 0 <= i < front.len() implies (#[trigger] front[i]).0 != s.last().0 by {
            assert(front[i] == s[i]);
            assert(s[i].0 != s[s.len() - 1].0);
        }
        assert(local_daemon_id(s[s.len() - 1].0) == s[s.len() - 1].0);
        assert(front.push(s.last()) =~= s);
    }
}

proof fn settled_front<A>(s: Seq<(Seq<char>, A)>)
    requires
        settled_keys(s),
        s.len() > 0,
    ensures
        settled_keys(s.drop_last()),
{
    let front = s.drop_last();
    assert forall|i: int| 0 <= i < front.len() implies local_daemon_id((#[trigger] front[i]).0)
        == front[i].0 by {
        assert(front[i] == s[i]);
    }
    assert forall|i: int, j: int|
        0 <= i < front.len() && 0 <= j < front.len() && i != j implies (#[trigger] front[i]).0
        != (#[trigger] front[j]).0 by {
        assert(front[i] == s[i] && front[j] == s[j]);
    }
}

/// Whether the trees of `s` have their terminals named as the local daemon's.
spec fn named_trees(s: Seq<(Seq<char>, LayoutView)>) -> bool {
    forall|i: int|
        0 <= i < s.len() ==> edited((#[trigger] s[i]).1, TerminalEditView::OfLocalDaemon) == s[i].1
}

proof fn layouts_are_settled(s: Seq<(Seq<char>, LayoutView)>)
    ensures
        settled_keys(local_daemon_layouts(s)),
        named_trees(local_daemon_layouts(s)),
    decreases s.len(),
{
    if s.len() > 0 {
        layouts_are_settled(s.drop_last());
        let before = local_daemon_layouts(s.drop_last());
        let k = local_daemon_id(s.last().0);
        let v = edited(s.last().1, TerminalEditView::OfLocalDaemon);
        local_daemon_id_is_stable(s.last().0);
        storing_settles(before, k, v);
        terminals_are_named_once(s.last().1);
        unkeyed_entries(before, k);
        let w = local_daemon_layouts(s);
        let u = unkeyed(before, k);
        assert forall|i: int| 0 <= i < w.len() implies edited(
            (#[trigger] w[i]).1,
            TerminalEditView::OfLocalDaemon,
        ) == w[i].1 by {
            if i < u.len() {
                assert(w[i] == u[i]);
                assert(before.contains(u[i]));
                let m = choose|m: int| 0 <= m < before.len() && before[m] == u[i];
                assert(edited(before[m].1, TerminalEditView::OfLocalDaemon) == before[m].1);
            }
        }
    }
}

proof fn settled_layouts_are_kept(s: Seq<(Seq<char>, LayoutView)>)
    requires
        settled_keys(s),
        named_trees(s),
    ensures
        local_daemon_layouts(s) == s,
    decreases s.len(),
{
    if s.len() > 0 {
        let front = s.drop_last();
        settled_front(s);
        assert forall|i: int| 0 <= i < front.len() implies edited(
            (#[trigger] front[i]).1,
            TerminalEditView::OfLocalDaemon,
        ) == front[i].1 by {
            assert(front[i] == s[i]);
        }
        settled_layouts_are_kept(front);
        unkeyed_entries(front, s.last().0);
        assert forall|i: int| 0 <= i < front.len() implies (#[trigger] front[i]).0 != s.last().0 by {
            assert(front[i] == s[i]);
            assert(s[i].0 != s[s.len() - 1].0);
        }
        let e = s[s.len() - 1];
        assert(local_daemon_id(e.0) == e.0);
        assert(edited(e.1, TerminalEditView::OfLocalDaemon) == e.1);
        assert(front.push(s.last()) =~= s);
    }
}

proof fn window_is_named_once(w: WindowView)
    ensures
        edited_window(
            edited_window(w, WindowEditView::OfLocalDaemon),
            WindowEditView::OfLocalDaemon,
        ) == edited_window(w, WindowEditView::OfLocalDaemon),
{
    keys_are_settled(w.project_widths);
    settled_keys_are_kept(local_daemon_keys(w.project_widths));
    keys_are_settled(w.folder_collapsed);
    settled_keys_are_kept(local_daemon_keys(w.folder_collapsed));
    if w.folder_filter is Some {
        local_daemon_id_is_stable(w.folder_filter->0);
    }
    let once = local_daemon_ids(w.hidden_project_ids);
    assert forall|x: Seq<char>| #[trigger] local_daemon_ids(once).contains(x) <==> once.contains(
        x,
    ) by {
        if local_daemon_ids(once).contains(x) {
            let y = choose|y: Seq<char>| once.contains(y) && x == local_daemon_id(y);
            let z = choose|z: Seq<char>|
                w.hidden_project_ids.contains(z) && y == local_daemon_id(z);
            local_daemon_id_is_stable(z);
        }
        if once.contains(x) {
            let z = choose|z: Seq<char>|
                w.hidden_project_ids.contains(z) && x == local_daemon_id(z);
            local_daemon_id_is_stable(z);
            assert(once.contains(x) && x == local_daemon_id(x));
        }
    }
    assert(local_daemon_ids(once) =~= once);
}

/// Bringing a client's windows up to date a second time changes nothing.
pub proof fn migrating_windows_again_changes_nothing(c: ClientView)
    ensures
        migrated_client(migrated_client(c)) == migrated_client(c),
{
    let m = migrated_client(c);
    window_is_named_once(c.main_window);
    assert forall|i: int| 0 <= i < m.extra_windows.len() implies edited_window(
        #[trigger] m.extra_windows[i],
        WindowEditView::OfLocalDaemon,
    ) == m.extra_windows[i] by {
        window_is_named_once(c.extra_windows[i]);
    }
    assert(edited_extras(m.extra_windows, WindowEditView::OfLocalDaemon) =~= m.extra_windows);
    layouts_are_settled(c.project_layouts);
    settled_layouts_are_kept(m.project_layouts);
    keys_are_settled(c.service_panel_heights);
    settled_keys_are_kept(m.service_panel_heights);
    keys_are_settled(c.hook_panel_heights);
    settled_keys_are_kept(m.hook_panel_heights);
}

/// Bringing a client's windows up to date keeps what is hidden in them hidden,
/// under the local daemon's name, and hides nothing else.
pub proof fn migrating_windows_keeps_visibility(c: ClientView, id: Seq<char>)
    ensures
        c.main_window.hidden_project_ids.contains(id) ==> migrated_client(
            c,
        ).main_window.hidden_project_ids.contains(local_daemon_id(id)),
        migrated_client(c).main_window.hidden_project_ids.contains(id) ==> exists|x: Seq<char>|
            c.main_window.hidden_project_ids.contains(x) && id == local_daemon_id(x),
        migrated_client(c).extra_windows.len() == c.extra_windows.len(),
        forall|i: int|
            0 <= i < c.extra_windows.len() && (
            #[trigger] c.extra_windows[i]).hidden_project_ids.contains(id) ==> migrated_client(
                c,
            ).extra_windows[i].hidden_project_ids.contains(local_daemon_id(id)),
{
}

/// A layout that the client has itself is not replaced by the workspace's.
pub proof fn own_layouts_are_kept(target: ClientView, source: ClientView, k: Seq<char>)
    requires
        lookup(target.project_layouts, k) is Some,
    ensures
        lookup(with_presentation(target, source).project_layouts, k) == lookup(
            target.project_layouts,
            k,
        ),
{
    filling_keeps(target.project_layouts, source.project_layouts, source.project_layouts.len(), k);
}

proof fn filling_keeps(
    target: Seq<(Seq<char>, LayoutView)>,
    source: Seq<(Seq<char>, LayoutView)>,
    n: nat,
    k: Seq<char>,
)
    requires
        lookup(target, k) is Some,
    ensures
        lookup(filled_layouts(target, source, n), k) == lookup(target, k),
    decreases n,
{
    if n > 0 && n <= source.len() {
        filling_keeps(target, source, (n - 1) as nat, k);
        let before = filled_layouts(target, source, (n - 1) as nat);
        lookup_after_store(before, source[n - 1].0, source[n - 1].1, k);
    }
}

} // verus!
