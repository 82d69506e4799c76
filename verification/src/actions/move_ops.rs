//! Moving panes and tabs, within a project and from one project to another.
//!
//! A move that cannot be completed leaves every layout as it was: the pane it
//! was about is never lost.

use crate::actions::focus::{ws_with_layout};
use crate::collections::{
    Duplicate, list_contains, lookup, position_is_first, sifted_keys, stored, unkeyed, values_of,
};
use crate::focus::{FocusManager, FocusView, focus_on};
use crate::layout::{
    DropZone, LayoutNode, LayoutView, node_at, opt_node, opt_terminal_ids, slot_path,
};
use crate::layout_moves::{
    drop_on, dropped, extract, extracted, insert_tab, move_to_tabs, move_within, moved_to_tabs,
    moved_within, reorder_tab, tab_inserted, tab_moved,
};
use crate::state::{
    DataView, ProjectData, ProjectView, collect_layout_ids, find_project, project_at, project_ids,
    project_views, project_views_update,
};
use crate::text::same;
use crate::workspace::{
    Workspace, WorkspaceCx, WorkspaceView, announced, changed, used, with_projects, ws_layout,
    ws_project,
};
use vstd::prelude::*;

verus! {

/// What the workspace and the focus are once `d` holds the terminal `t` in the
/// layout `l` of the project `id`: the change is counted, and the terminal has
/// the focus.
pub open spec fn settled(
    w: WorkspaceView,
    f: FocusView,
    d: DataView,
    id: Seq<char>,
    l: LayoutView,
    t: Seq<char>,
    now: u64,
) -> (WorkspaceView, FocusView) {
    match slot_path(l, Some(t)) {
        Some(p) => (used(changed(w, d), id, now), focus_on(f, id, p)),
        None => (changed(w, d), f),
    }
}

/// The project that the terminal `t` leaves, with `rest` as its layout.
pub open spec fn left_by(p: ProjectView, t: Seq<char>, rest: Option<LayoutView>) -> ProjectView {
    let ids = opt_terminal_ids(rest);
    ProjectView {
        layout: rest,
        terminal_names: sifted_keys(unkeyed(p.terminal_names, t), ids, true),
        hidden_terminals: sifted_keys(unkeyed(p.hidden_terminals, t), ids, true),
        ..p
    }
}

/// The project that the terminal `t` joins from `from`, with `l` as its layout.
pub open spec fn joined_by(
    p: ProjectView,
    t: Seq<char>,
    l: LayoutView,
    from: ProjectView,
) -> ProjectView {
    ProjectView {
        layout: Some(l),
        terminal_names: match lookup(from.terminal_names, t) {
            Some(n) => stored(p.terminal_names, t, n),
            None => p.terminal_names,
        },
        hidden_terminals: match lookup(from.hidden_terminals, t) {
            Some(h) => stored(p.hidden_terminals, t, h),
            None => p.hidden_terminals,
        },
        ..p
    }
}

/// `ps` after the terminal `t` has moved from the project at `i`, which keeps
/// `rest`, to the project at `j`, which gets `l`.
pub open spec fn handed_over(
    ps: Seq<ProjectView>,
    i: int,
    j: int,
    t: Seq<char>,
    rest: Option<LayoutView>,
    l: LayoutView,
) -> Seq<ProjectView> {
    ps.update(i, left_by(ps[i], t, rest)).update(j, joined_by(ps[j], t, l, ps[i]))
}

/// The node that leaves, and what remains of its layout, when the terminal `t`
/// is taken out of the project `p`; nothing where it may not be taken.
pub open spec fn takeout(p: ProjectView, t: Seq<char>) -> Option<(LayoutView, Option<LayoutView>)> {
    match p.layout {
        Some(l) => match slot_path(l, Some(t)) {
            Some(path) => match (node_at(l, path), extracted(l, path)) {
                (Some(node), Some(rest)) => if values_of(p.service_terminals).contains(t) {
                    None
                } else {
                    Some((node, rest))
                },
                _ => None,
            },
            None => None,
        },
        None => None,
    }
}

/// The projects, and the layout that the terminal `t` ends up in, after a drop
/// on a terminal of another project.
pub open spec fn pane_handed_over(
    ps: Seq<ProjectView>,
    src: Seq<char>,
    t: Seq<char>,
    tgt: Seq<char>,
    on: Seq<char>,
    zone: DropZone,
) -> Option<(Seq<ProjectView>, LayoutView)> {
    match (project_at(ps, src), project_at(ps, tgt)) {
        (Some(i), Some(j)) => match (takeout(ps[i], t), ps[j].layout) {
            (Some(out), Some(l)) => match dropped(l, out.0, on, zone) {
                Some(new) => Some((handed_over(ps, i, j, t, out.1, new), new)),
                None => None,
            },
            _ => None,
        },
        _ => None,
    }
}

/// The projects, and the layout that the terminal `t` ends up in, after a move
/// into a tab group of another project.
pub open spec fn tab_handed_over(
    ps: Seq<ProjectView>,
    src: Seq<char>,
    t: Seq<char>,
    tgt: Seq<char>,
    path: Seq<usize>,
    index: Option<usize>,
) -> Option<(Seq<ProjectView>, LayoutView)> {
    match (project_at(ps, src), project_at(ps, tgt)) {
        (Some(i), Some(j)) => match (takeout(ps[i], t), ps[j].layout) {
            (Some(out), Some(l)) => match tab_inserted(l, path, index, out.0) {
                Some(new) => Some((handed_over(ps, i, j, t, out.1, new), new)),
                None => None,
            },
            _ => None,
        },
        _ => None,
    }
}

/// What a pane move makes of the workspace and the focus.
pub open spec fn pane_moved(
    w: WorkspaceView,
    f: FocusView,
    src: Seq<char>,
    t: Seq<char>,
    tgt: Seq<char>,
    on: Seq<char>,
    zone: DropZone,
    now: u64,
) -> Option<(WorkspaceView, FocusView)> {
    if t == on {
        None
    } else if src == tgt {
        match ws_layout(w, src) {
            Some(l) => match moved_within(l, t, on, zone) {
                Some(new) => Some(
                    settled(w, f, ws_with_layout(w, src, Some(new)).data, src, new, t, now),
                ),
                None => None,
            },
            None => None,
        }
    } else {
        match pane_handed_over(w.data.projects, src, t, tgt, on, zone) {
            Some(r) => Some(settled(w, f, with_projects(w.data, r.0), tgt, r.1, t, now)),
            None => None,
        }
    }
}

/// What moving a terminal within its own tab group makes of the workspace.
pub open spec fn tab_reordered(
    w: WorkspaceView,
    id: Seq<char>,
    path: Seq<usize>,
    from: usize,
    to: usize,
) -> Option<WorkspaceView> {
    match ws_layout(w, id) {
        Some(l) => match tab_moved(l, path, from, to) {
            Some(new) => Some(changed(w, ws_with_layout(w, id, Some(new)).data)),
            None => None,
        },
        None => None,
    }
}

/// Whether the node at `p` is a child of the node at `group`.
pub open spec fn child_of(p: Seq<usize>, group: Seq<usize>) -> bool {
    p.len() > 0 && p.drop_last() == group
}

/// What moving a terminal into a tab group makes of the workspace and the
/// focus.
pub open spec fn tab_group_moved(
    w: WorkspaceView,
    f: FocusView,
    src: Seq<char>,
    t: Seq<char>,
    tgt: Seq<char>,
    path: Seq<usize>,
    index: Option<usize>,
    now: u64,
) -> Option<(WorkspaceView, FocusView)> {
    if src == tgt {
        match ws_layout(w, src) {
            Some(l) => match slot_path(l, Some(t)) {
                Some(p) => if child_of(p, path) {
                    if index is Some && p.last() != index->0 {
                        match tab_reordered(w, src, path, p.last(), index->0) {
                            Some(r) => Some((r, f)),
                            None => None,
                        }
                    } else {
                        None
                    }
                } else {
                    match moved_to_tabs(l, t, path, index) {
                        Some(new) => Some(
                            settled(w, f, ws_with_layout(w, src, Some(new)).data, src, new, t, now),
                        ),
                        None => None,
                    }
                },
                None => None,
            },
            None => None,
        }
    } else {
        match tab_handed_over(w.data.projects, src, t, tgt, path, index) {
            Some(r) => Some(settled(w, f, with_projects(w.data, r.0), tgt, r.1, t, now)),
            None => None,
        }
    }
}

/// A terminal that is about to leave its project.
struct Takeout {
    node: LayoutNode,
    rest: Option<LayoutNode>,
}

/// The node that leaves, and what remains of its layout, when `t` is taken out
/// of `p`.
fn take_out(p: &ProjectData, t: &str) -> (r: Option<Takeout>)
    ensures
        match r {
            Some(out) => takeout(p@, t@) == Some((out.node@, opt_node(out.rest))),
            None => takeout(p@, t@) is None,
        },
{
    let l = match &p.layout {
        Some(l) => l,
        None => {
            return None;
        },
    };
    let path = match l.find_terminal_path(t) {
        Some(path) => path,
        None => {
            return None;
        },
    };
    let node = match l.get_at_path(path.as_slice()) {
        Some(n) => n.duplicate(),
        None => {
            return None;
        },
    };
    let services = p.service_terminals.values();
    if list_contains(&services, t) {
        return None;
    }
    match extract(l, path.as_slice()) {
        Some(rest) => Some(Takeout { node, rest }),
        None => None,
    }
}

/// Let the terminal `t` leave `p`, which keeps `rest`; its name and whether it
/// was hidden go along.
fn leave(p: &mut ProjectData, t: &str, rest: Option<LayoutNode>) -> (r: (Option<String>, Option<bool>))
    ensures
        final(p)@ == left_by(old(p)@, t@, opt_node(rest)),
        match r.0 {
            Some(n) => lookup(old(p)@.terminal_names, t@) == Some(n@),
            None => lookup(old(p)@.terminal_names, t@) is None,
        },
        match r.1 {
            Some(h) => lookup(old(p)@.hidden_terminals, t@) == Some(h),
            None => lookup(old(p)@.hidden_terminals, t@) is None,
        },
{
    let name = p.terminal_names.remove(t);
    let hidden = p.hidden_terminals.remove(t);
    p.layout = rest;
    let ids = collect_layout_ids(p);
    p.terminal_names.sift(&ids, true);
    p.hidden_terminals.sift(&ids, true);
    (name, hidden)
}

/// Let the terminal `t` join `p`, which gets the layout `l`.
fn join_project(
    p: &mut ProjectData,
    t: &str,
    l: LayoutNode,
    name: Option<String>,
    hidden: Option<bool>,
)
    ensures
        final(p)@ == (ProjectView {
            layout: Some(l@),
            terminal_names: match name {
                Some(n) => stored(old(p)@.terminal_names, t@, n@),
                None => old(p)@.terminal_names,
            },
            hidden_terminals: match hidden {
                Some(h) => stored(old(p)@.hidden_terminals, t@, h),
                None => old(p)@.hidden_terminals,
            },
            ..old(p)@
        }),
{
    if let Some(n) = name {
        p.terminal_names.insert(t.to_owned(), n);
    }
    if let Some(h) = hidden {
        p.hidden_terminals.insert(t.to_owned(), h);
    }
    p.layout = Some(l);
}

/// Move the terminal `t` from the project at `i` to the project at `j`.
fn hand_over(
    projects: &mut Vec<ProjectData>,
    i: usize,
    j: usize,
    t: &str,
    rest: Option<LayoutNode>,
    l: LayoutNode,
)
    requires
        i < old(projects)@.len(),
        j < old(projects)@.len(),
        i != j,
    ensures
        project_views(final(projects)@) == handed_over(
            project_views(old(projects)@),
            i as int,
            j as int,
            t@,
            opt_node(rest),
            l@,
        ),
{
    let ghost start = projects@;
    let (name, hidden) = leave(&mut projects[i], t, rest);
    let ghost mid = projects@;
    proof {
        assert(mid =~= start.update(i as int, mid[i as int]));
        project_views_update(start, i as int, mid[i as int]);
    }
    join_project(&mut projects[j], t, l, name, hidden);
    proof {
        assert(projects@ =~= mid.update(j as int, projects@[j as int]));
        project_views_update(mid, j as int, projects@[j as int]);
    }
}

/// Two projects with different ids are at different places.
proof fn places_differ(ps: Seq<ProjectView>, a: Seq<char>, b: Seq<char>)
    requires
        a != b,
        project_at(ps, a) is Some,
        project_at(ps, b) is Some,
    ensures
        project_at(ps, a) != project_at(ps, b),
        0 <= project_at(ps, a)->0 < ps.len(),
        0 <= project_at(ps, b)->0 < ps.len(),
{
    position_is_first(project_ids(ps), a);
    position_is_first(project_ids(ps), b);
}

impl Workspace {
    /// Move a terminal onto another one, in the same project or in another.
    ///
    /// Nothing happens where the terminal is dropped on itself, where either of
    /// the two is not there, where it is the only one of its project and stays
    /// in it, or where it is a service's and would leave its project.
    pub fn move_pane(
        &mut self,
        focus_manager: &mut FocusManager,
        source_project_id: &str,
        source_terminal_id: &str,
        target_project_id: &str,
        target_terminal_id: &str,
        zone: DropZone,
        cx: &mut WorkspaceCx,
    )
        ensures
            match pane_moved(
                old(self)@,
                old(focus_manager)@,
                source_project_id@,
                source_terminal_id@,
                target_project_id@,
                target_terminal_id@,
                zone,
                old(cx)@.now,
            ) {
                Some(r) => final(self)@ == r.0 && final(focus_manager)@ == r.1 && final(cx)@
                    == announced(old(cx)@),
                None => final(self)@ == old(self)@ && final(focus_manager)@ == old(focus_manager)@
                    && final(cx)@ == old(cx)@,
            },
    {
        if same(source_terminal_id, target_terminal_id) {
            return ;
        }
        if same(source_project_id, target_project_id) {
            self.move_pane_same_project(
                focus_manager,
                source_project_id,
                source_terminal_id,
                target_terminal_id,
                zone,
                cx,
            );
        } else {
            self.move_pane_cross_project(
                focus_manager,
                source_project_id,
                source_terminal_id,
                target_project_id,
                target_terminal_id,
                zone,
                cx,
            );
        }
    }

    fn move_pane_same_project(
        &mut self,
        focus_manager: &mut FocusManager,
        project_id: &str,
        source_terminal_id: &str,
        target_terminal_id: &str,
        zone: DropZone,
        cx: &mut WorkspaceCx,
    )
        requires
            source_terminal_id@ != target_terminal_id@,
        ensures
            match pane_moved(
                old(self)@,
                old(focus_manager)@,
                project_id@,
                source_terminal_id@,
                project_id@,
                target_terminal_id@,
                zone,
                old(cx)@.now,
            ) {
                Some(r) => final(self)@ == r.0 && final(focus_manager)@ == r.1 && final(cx)@
                    == announced(old(cx)@),
                None => final(self)@ == old(self)@ && final(focus_manager)@ == old(focus_manager)@
                    && final(cx)@ == old(cx)@,
            },
    {
        let moved = match self.project(project_id) {
            Some(p) => match &p.layout {
                Some(l) => move_within(l, source_terminal_id, target_terminal_id, zone),
                None => None,
            },
            None => None,
        };
        if let Some(new) = moved {
            self.commit_layout(focus_manager, project_id, new, source_terminal_id, cx);
        }
    }

    /// Give a project a new layout and focus a terminal in it.
    fn commit_layout(
        &mut self,
        focus_manager: &mut FocusManager,
        project_id: &str,
        new: LayoutNode,
        terminal_id: &str,
        cx: &mut WorkspaceCx,
    )
        requires
            ws_project(old(self)@, project_id@) is Some,
        ensures
            ({
                let r = settled(
                    old(self)@,
                    old(focus_manager)@,
                    ws_with_layout(old(self)@, project_id@, Some(new@)).data,
                    project_id@,
                    new@,
                    terminal_id@,
                    old(cx)@.now,
                );
                final(self)@ == r.0 && final(focus_manager)@ == r.1
            }),
            final(cx)@ == announced(old(cx)@),
    {
        let path = new.find_terminal_path(terminal_id);
        if let Some(i) = find_project(&self.data.projects, project_id) {
            let ghost before = self.data.projects@;
            self.data.projects[i].layout = Some(new);
            proof {
                project_views_update(before, i as int, self.data.projects@[i as int]);
                assert(self.data.projects@ =~= before.update(
                    i as int,
                    self.data.projects@[i as int],
                ));
            }
        }
        self.notify_data(cx);
        if let Some(p) = path {
            self.set_focused_terminal(focus_manager, project_id.to_owned(), p, cx);
        }
    }

    fn move_pane_cross_project(
        &mut self,
        focus_manager: &mut FocusManager,
        source_project_id: &str,
        source_terminal_id: &str,
        target_project_id: &str,
        target_terminal_id: &str,
        zone: DropZone,
        cx: &mut WorkspaceCx,
    )
        requires
            source_project_id@ != target_project_id@,
            source_terminal_id@ != target_terminal_id@,
        ensures
            match pane_moved(
                old(self)@,
                old(focus_manager)@,
                source_project_id@,
                source_terminal_id@,
                target_project_id@,
                target_terminal_id@,
                zone,
                old(cx)@.now,
            ) {
                Some(r) => final(self)@ == r.0 && final(focus_manager)@ == r.1 && final(cx)@
                    == announced(old(cx)@),
                None => final(self)@ == old(self)@ && final(focus_manager)@ == old(focus_manager)@
                    && final(cx)@ == old(cx)@,
            },
    {
        let i: usize = match find_project(&self.data.projects, source_project_id) {
            Some(i) => i,
            None => {
                return ;
            },
        };
        let j: usize = match find_project(&self.data.projects, target_project_id) {
            Some(j) => j,
            None => {
                return ;
            },
        };
        proof {
            places_differ(self@.data.projects, source_project_id@, target_project_id@);
        }
        let out = match take_out(&self.data.projects[i], source_terminal_id) {
            Some(out) => out,
            None => {
                return ;
            },
        };
        let inserted = match &self.data.projects[j].layout {
            Some(l) => match drop_on(l, out.node, target_terminal_id, zone) {
                Some(new) => new,
                None => {
                    return ;
                },
            },
            None => {
                return ;
            },
        };
        self.complete_hand_over(
            focus_manager,
            i,
            j,
            target_project_id,
            source_terminal_id,
            out.rest,
            inserted,
            cx,
        );
    }

    /// Move a terminal between projects once both layouts are known.
    fn complete_hand_over(
        &mut self,
        focus_manager: &mut FocusManager,
        i: usize,
        j: usize,
        target_project_id: &str,
        terminal_id: &str,
        rest: Option<LayoutNode>,
        new: LayoutNode,
        cx: &mut WorkspaceCx,
    )
        requires
            i < old(self)@.data.projects.len(),
            j < old(self)@.data.projects.len(),
            i != j,
        ensures
            ({
                let r = settled(
                    old(self)@,
                    old(focus_manager)@,
                    with_projects(
                        old(self)@.data,
                        handed_over(
                            old(self)@.data.projects,
                            i as int,
                            j as int,
                            terminal_id@,
                            opt_node(rest),
                            new@,
                        ),
                    ),
                    target_project_id@,
                    new@,
                    terminal_id@,
                    old(cx)@.now,
                );
                final(self)@ == r.0 && final(focus_manager)@ == r.1
            }),
            final(cx)@ == announced(old(cx)@),
    {
        let path = new.find_terminal_path(terminal_id);
        hand_over(&mut self.data.projects, i, j, terminal_id, rest, new);
        self.notify_data(cx);
        if let Some(p) = path {
            self.set_focused_terminal(focus_manager, target_project_id.to_owned(), p, cx);
        }
    }

    /// Move a tab within its group.
    pub fn move_tab(
        &mut self,
        project_id: &str,
        tabs_path: &[usize],
        from: usize,
        to: usize,
        cx: &mut WorkspaceCx,
    )
        ensures
            match tab_reordered(old(self)@, project_id@, tabs_path@, from, to) {
                Some(w) => final(self)@ == w && final(cx)@ == announced(old(cx)@),
                None => final(self)@ == old(self)@ && final(cx)@ == old(cx)@,
            },
    {
        if let Some(i) = find_project(&self.data.projects, project_id) {
            let moved = match &self.data.projects[i].layout {
                Some(l) => reorder_tab(l, tabs_path, from, to),
                None => None,
            };
            if let Some(new) = moved {
                let ghost before = self.data.projects@;
                self.data.projects[i].layout = Some(new);
                proof {
                    project_views_update(before, i as int, self.data.projects@[i as int]);
                    assert(self.data.projects@ =~= before.update(
                        i as int,
                        self.data.projects@[i as int],
                    ));
                }
                self.notify_data(cx);
            }
        }
    }

    /// Move a terminal into the tab group at `tabs_path`, at `insert_index` or
    /// at the end.
    ///
    /// Within one project the removal can shift paths, so the group is found
    /// again by a terminal in it. A terminal that is a tab of the group already
    /// is only moved within it, and only where an index is given.
    pub fn move_terminal_to_tab_group(
        &mut self,
        focus_manager: &mut FocusManager,
        source_project_id: &str,
        terminal_id: &str,
        target_project_id: &str,
        tabs_path: &[usize],
        insert_index: Option<usize>,
        cx: &mut WorkspaceCx,
    )
        ensures
            match tab_group_moved(
                old(self)@,
                old(focus_manager)@,
                source_project_id@,
                terminal_id@,
                target_project_id@,
                tabs_path@,
                insert_index,
                old(cx)@.now,
            ) {
                Some(r) => final(self)@ == r.0 && final(focus_manager)@ == r.1 && final(cx)@
                    == announced(old(cx)@),
                None => final(self)@ == old(self)@ && final(focus_manager)@ == old(focus_manager)@
                    && final(cx)@ == old(cx)@,
            },
    {
        if same(source_project_id, target_project_id) {
            self.move_terminal_to_tab_group_same_project(
                focus_manager,
                source_project_id,
                terminal_id,
                tabs_path,
                insert_index,
                cx,
            );
        } else {
            self.move_terminal_to_tab_group_cross_project(
                focus_manager,
                source_project_id,
                terminal_id,
                target_project_id,
                tabs_path,
                insert_index,
                cx,
            );
        }
    }

    fn move_terminal_to_tab_group_same_project(
        &mut self,
        focus_manager: &mut FocusManager,
        project_id: &str,
        terminal_id: &str,
        tabs_path: &[usize],
        insert_index: Option<usize>,
        cx: &mut WorkspaceCx,
    )
        ensures
            match tab_group_moved(
                old(self)@,
                old(focus_manager)@,
                project_id@,
                terminal_id@,
                project_id@,
                tabs_path@,
                insert_index,
                old(cx)@.now,
            ) {
                Some(r) => final(self)@ == r.0 && final(focus_manager)@ == r.1 && final(cx)@
                    == announced(old(cx)@),
                None => final(self)@ == old(self)@ && final(focus_manager)@ == old(focus_manager)@
                    && final(cx)@ == old(cx)@,
            },
    {
        let path: Vec<usize> = match self.project(project_id) {
            Some(p) => match &p.layout {
                Some(l) => match l.find_terminal_path(terminal_id) {
                    Some(path) => path,
                    None => {
                        return ;
                    },
                },
                None => {
                    return ;
                },
            },
            None => {
                return ;
            },
        };
        if is_child_of(&path, tabs_path) {
            if let Some(idx) = insert_index {
                let from: usize = path[path.len() - 1];
                if from != idx {
                    self.move_tab(project_id, tabs_path, from, idx, cx);
                }
            }
            return ;
        }
        let moved = match self.project(project_id) {
            Some(p) => match &p.layout {
                Some(l) => move_to_tabs(l, terminal_id, tabs_path, insert_index),
                None => None,
            },
            None => None,
        };
        if let Some(new) = moved {
            self.commit_layout(focus_manager, project_id, new, terminal_id, cx);
        }
    }

    fn move_terminal_to_tab_group_cross_project(
        &mut self,
        focus_manager: &mut FocusManager,
        source_project_id: &str,
        terminal_id: &str,
        target_project_id: &str,
        tabs_path: &[usize],
        insert_index: Option<usize>,
        cx: &mut WorkspaceCx,
    )
        requires
            source_project_id@ != target_project_id@,
        ensures
            match tab_group_moved(
                old(self)@,
                old(focus_manager)@,
                source_project_id@,
                terminal_id@,
                target_project_id@,
                tabs_path@,
                insert_index,
                old(cx)@.now,
            ) {
                Some(r) => final(self)@ == r.0 && final(focus_manager)@ == r.1 && final(cx)@
                    == announced(old(cx)@),
                None => final(self)@ == old(self)@ && final(focus_manager)@ == old(focus_manager)@
                    && final(cx)@ == old(cx)@,
            },
    {
        let i: usize = match find_project(&self.data.projects, source_project_id) {
            Some(i) => i,
            None => {
                return ;
            },
        };
        let j: usize = match find_project(&self.data.projects, target_project_id) {
            Some(j) => j,
            None => {
                return ;
            },
        };
        proof {
            places_differ(self@.data.projects, source_project_id@, target_project_id@);
        }
        let out = match take_out(&self.data.projects[i], terminal_id) {
            Some(out) => out,
            None => {
                return ;
            },
        };
        let inserted = match &self.data.projects[j].layout {
            Some(l) => match insert_tab(l, tabs_path, insert_index, out.node) {
                Some(new) => new,
                None => {
                    return ;
                },
            },
            None => {
                return ;
            },
        };
        self.complete_hand_over(
            focus_manager,
            i,
            j,
            target_project_id,
            terminal_id,
            out.rest,
            inserted,
            cx,
        );
    }
}

/// Whether the node at `path` is a child of the node at `group`.
fn is_child_of(path: &Vec<usize>, group: &[usize]) -> (r: bool)
    ensures
        r == child_of(path@, group@),
{
    if path.len() == 0 || path.len() - 1 != group.len() {
        return false;
    }
    let mut i: usize = 0;
    while i < group.len()
        invariant
            i <= group@.len(),
            path@.len() == group@.len() + 1,
            forall|k: int| 0 <= k < i ==> path@[k] == group@[k],
        decreases group@.len() - i,
    {
        if path[i] != group[i] {
            proof {
                assert(path@.drop_last()[i as int] != group@[i as int]);
            }
            return false;
        }
        i = i + 1;
    }
    proof {
        assert(path@.drop_last() =~= group@);
    }
    true
}

} // verus!
