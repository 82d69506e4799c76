//! Closing a terminal with a grace period.
//!
//! A soft close takes a busy terminal out of the layout and lets its process
//! live on for a while, so that an accidental close can be undone. The host
//! drives the timer and shows the toast; what is kept here is the layout and
//! what is pending.

use crate::collections::{
    Duplicate, lookup, position, position_extends, reversed, sifted_keys, stored, unkeyed,
};
use crate::focus::{FocusManager, FocusView, focus_on};
use crate::layout::{
    LayoutNode, LayoutView, node_at, opt_node, opt_terminal_ids, removed, slot_path, view_unfolds,
};
use crate::layout_terminals::{appended, same_layout, visible_path};
use crate::state::{
    ProjectData, ProjectView, collect_layout_ids, find_project, project_views_update,
};
use crate::text::{copy_opt, opt_text, same, texts};
use crate::workspace::{
    ClosingTerminalOwner, PendingClose, PendingView, RestoredClose, RestoredView, Workspace,
    WorkspaceCx, WorkspaceView, announced, changed, pending_views, restored_views, used, ws_layout,
    ws_project, ws_with_project,
};
use vstd::prelude::*;

verus! {

/// What is left of a layout once the node at `path` is closed; the outer `None`
/// where there is nothing to close.
pub open spec fn closed_layout(l: LayoutView, path: Seq<usize>) -> Option<Option<LayoutView>> {
    if path.len() == 0 {
        Some(None)
    } else {
        match removed(l, path) {
            Some(rest) => Some(Some(rest)),
            None => None,
        }
    }
}

/// The project `p` with the layout `rest`, and nothing remembered of terminals
/// that are not in it.
pub open spec fn trimmed_to(p: ProjectView, rest: Option<LayoutView>) -> ProjectView {
    ProjectView {
        layout: rest,
        terminal_names: sifted_keys(p.terminal_names, opt_terminal_ids(rest), true),
        hidden_terminals: sifted_keys(p.hidden_terminals, opt_terminal_ids(rest), true),
        ..p
    }
}

/// `w` with the pane at `path` of the project `id` closed; nothing where there
/// is no such pane.
pub open spec fn pane_closed(w: WorkspaceView, id: Seq<char>, path: Seq<usize>) -> Option<
    WorkspaceView,
> {
    match ws_project(w, id) {
        Some(p) => match p.layout {
            Some(l) => match closed_layout(l, path) {
                Some(rest) => Some(changed(w, ws_with_project(w, id, trimmed_to(p, rest)).data)),
                None => None,
            },
            None => None,
        },
        None => None,
    }
}

/// `w` with the pane at `path` of the project `id` closed, if it is there.
pub open spec fn after_close(w: WorkspaceView, id: Seq<char>, path: Seq<usize>) -> WorkspaceView {
    match pane_closed(w, id, path) {
        Some(r) => r,
        None => w,
    }
}

/// Where the focus goes when the pane at `path` has left and `rest` remains:
/// into what has taken the place of the pane's group.
pub open spec fn sibling_path(rest: Option<LayoutView>, path: Seq<usize>) -> Seq<usize> {
    match rest {
        Some(l) => if path.len() == 0 {
            visible_path(l)
        } else {
            match node_at(l, path.drop_last()) {
                Some(n) => path.drop_last() + visible_path(n),
                None => visible_path(l),
            }
        },
        None => Seq::empty(),
    }
}

/// `f` after the pane at `path` of the project `id` has been closed.
pub open spec fn focus_after_close(
    w: WorkspaceView,
    f: FocusView,
    id: Seq<char>,
    path: Seq<usize>,
) -> FocusView {
    match pane_closed(w, id, path) {
        Some(r) => focus_on(f, id, sibling_path(ws_layout(r, id), path)),
        None => f,
    }
}

/// The terminals of the pending closes `ps`.
pub open spec fn pending_ids(ps: Seq<PendingView>) -> Seq<Seq<char>> {
    ps.map_values(|p: PendingView| p.terminal_id)
}

/// The pending close of the terminal `t`.
pub open spec fn pending_at(w: WorkspaceView, t: Seq<char>) -> Option<int> {
    position(pending_ids(w.pending_closes), t)
}

/// The terminals of the restored closes `rs`.
pub open spec fn restored_ids(rs: Seq<RestoredView>) -> Seq<Seq<char>> {
    rs.map_values(|r: RestoredView| r.terminal_id)
}

/// `rs` without those of the terminal `t`.
pub open spec fn restored_without(rs: Seq<RestoredView>, t: Seq<char>) -> Seq<RestoredView>
    decreases rs.len(),
{
    if rs.len() == 0 {
        rs
    } else if rs.last().terminal_id == t {
        restored_without(rs.drop_last(), t)
    } else {
        restored_without(rs.drop_last(), t).push(rs.last())
    }
}

/// `w` with the owner of the closing terminal `t` remembered.
pub open spec fn owner_remembered(w: WorkspaceView, id: Seq<char>, t: Seq<char>) -> WorkspaceView {
    match ws_project(w, id) {
        Some(p) => WorkspaceView {
            owners: stored(w.owners, t, (id, lookup(p.terminal_names, t))),
            ..w
        },
        None => w,
    }
}

/// `w` after a soft close of the terminal `t` at `path` of the project `id`.
pub open spec fn soft_closed(
    w: WorkspaceView,
    id: Seq<char>,
    path: Seq<usize>,
    t: Seq<char>,
    toast: Seq<char>,
) -> WorkspaceView {
    let closed = after_close(owner_remembered(w, id, t), id, path);
    WorkspaceView {
        pending_closes: closed.pending_closes.push(
            PendingView {
                terminal_id: t,
                project_id: id,
                toast_id: toast,
                pre_close_layout: ws_layout(w, id),
                post_close_layout: ws_layout(closed, id),
            },
        ),
        restored_closes: restored_without(closed.restored_closes, t),
        ..closed
    }
}

/// `w` with the pending close at `i` dropped.
pub open spec fn without_pending(w: WorkspaceView, i: int) -> WorkspaceView {
    WorkspaceView { pending_closes: w.pending_closes.remove(i), ..w }
}

/// `w` after the soft close of `t` is made final: its process is to be ended.
pub open spec fn finalized(w: WorkspaceView, t: Seq<char>) -> Option<WorkspaceView> {
    match pending_at(w, t) {
        Some(i) => Some(WorkspaceView { kills: w.kills.push(t), ..without_pending(w, i) }),
        None => None,
    }
}

/// A pane that was closed, shown again.
pub open spec fn shown_again(node: LayoutView) -> LayoutView {
    match node {
        LayoutView::Terminal { terminal_id, shell_type, zoom_level, .. } => LayoutView::Terminal {
            terminal_id,
            minimized: false,
            detached: false,
            shell_type,
            zoom_level,
        },
        _ => node,
    }
}

/// The layout that brings the pane of the pending close `p` back: the one from
/// before the close if nothing has changed since, else the present one with the
/// pane added to its outermost group.
pub open spec fn restored_layout(
    current: Option<LayoutView>,
    p: PendingView,
    t: Seq<char>,
) -> Option<LayoutView> {
    if current == p.post_close_layout {
        p.pre_close_layout
    } else {
        match p.pre_close_layout {
            Some(l) => match slot_path(l, Some(t)) {
                Some(path) => match node_at(l, path) {
                    Some(node) => match current {
                        Some(root) => Some(appended(root, shown_again(node))),
                        None => Some(shown_again(node)),
                    },
                    None => current,
                },
                None => current,
            },
            None => current,
        }
    }
}

/// `w` with the layout and the name of the terminal of the pending close `p`
/// brought back.
pub open spec fn pane_restored(
    w: WorkspaceView,
    p: PendingView,
    t: Seq<char>,
    name: Option<Seq<char>>,
) -> WorkspaceView {
    match ws_project(w, p.project_id) {
        Some(project) => ws_with_project(
            w,
            p.project_id,
            ProjectView {
                layout: restored_layout(project.layout, p, t),
                terminal_names: match name {
                    Some(n) => stored(project.terminal_names, t, n),
                    None => project.terminal_names,
                },
                ..project
            },
        ),
        None => w,
    }
}

/// The name under which the terminal `t` was remembered.
pub open spec fn remembered_name(w: WorkspaceView, t: Seq<char>) -> Option<Seq<char>> {
    match lookup(w.owners, t) {
        Some(owner) => owner.1,
        None => None,
    }
}

/// `w` once the pane of the pending close `i` is put back, with nothing noted
/// of it yet.
pub open spec fn pane_back(w: WorkspaceView, i: int, t: Seq<char>) -> WorkspaceView {
    pane_restored(
        WorkspaceView { owners: unkeyed(w.owners, t), ..without_pending(w, i) },
        w.pending_closes[i],
        t,
        remembered_name(w, t),
    )
}

/// Where the terminal `t` is once the pending close `i` is undone: nowhere, if
/// its project is gone or its layout does not hold the terminal.
pub open spec fn path_back(w: WorkspaceView, i: int, t: Seq<char>) -> Option<Seq<usize>> {
    match ws_layout(pane_back(w, i, t), w.pending_closes[i].project_id) {
        Some(l) => slot_path(l, Some(t)),
        None => None,
    }
}

/// Whether undoing the soft close of `t` brings the terminal back.
pub open spec fn undo_restores(w: WorkspaceView, t: Seq<char>, alive: bool) -> bool {
    match pending_at(w, t) {
        Some(i) => alive && path_back(w, i, t) is Some,
        None => false,
    }
}

/// `w` and `f` after the soft close of `t` is undone while its process lives.
/// A terminal that came back has the focus, and its death is waited for.
pub open spec fn close_undone(
    w: WorkspaceView,
    f: FocusView,
    i: int,
    t: Seq<char>,
    now: u64,
) -> (WorkspaceView, FocusView) {
    let id = w.pending_closes[i].project_id;
    let back = pane_back(w, i, t);
    match path_back(w, i, t) {
        Some(path) => {
            let seen = used(back, id, now);
            let noted = WorkspaceView {
                restored_closes: restored_without(seen.restored_closes, t).push(
                    RestoredView { terminal_id: t, project_id: id },
                ),
                ..seen
            };
            (changed(noted, noted.data), focus_on(f, id, path))
        },
        None => (changed(back, back.data), f),
    }
}

/// `w` after the process of the restored terminal `t` turned out dead.
pub open spec fn reaped(w: WorkspaceView, i: int, t: Seq<char>) -> WorkspaceView {
    let id = w.restored_closes[i].project_id;
    let less = WorkspaceView { restored_closes: w.restored_closes.remove(i), ..w };
    match ws_layout(less, id) {
        Some(l) => match slot_path(l, Some(t)) {
            Some(path) => after_close(less, id, path),
            None => less,
        },
        None => less,
    }
}

/// Whether a pane goes when the process of the restored terminal `t` turns out
/// dead.
pub open spec fn reaps_a_pane(w: WorkspaceView, i: int, t: Seq<char>) -> bool {
    let id = w.restored_closes[i].project_id;
    let less = WorkspaceView { restored_closes: w.restored_closes.remove(i), ..w };
    match ws_layout(less, id) {
        Some(l) => match slot_path(l, Some(t)) {
            Some(path) => pane_closed(less, id, path) is Some,
            None => false,
        },
        None => false,
    }
}

/// The pending closes of other projects than `id`.
pub open spec fn pending_elsewhere(ps: Seq<PendingView>, id: Seq<char>) -> Seq<PendingView>
    decreases ps.len(),
{
    if ps.len() == 0 {
        ps
    } else if ps.last().project_id == id {
        pending_elsewhere(ps.drop_last(), id)
    } else {
        pending_elsewhere(ps.drop_last(), id).push(ps.last())
    }
}

/// The terminals of the pending closes of the project `id`.
pub open spec fn pending_here(ps: Seq<PendingView>, id: Seq<char>) -> Seq<Seq<char>>
    decreases ps.len(),
{
    if ps.len() == 0 {
        Seq::empty()
    } else if ps.last().project_id == id {
        pending_here(ps.drop_last(), id).push(ps.last().terminal_id)
    } else {
        pending_here(ps.drop_last(), id)
    }
}

/// `w` without the pending closes of the project `id`.
pub open spec fn project_drained(w: WorkspaceView, id: Seq<char>) -> WorkspaceView {
    WorkspaceView {
        pending_closes: pending_elsewhere(w.pending_closes, id),
        owners: sifted_keys(w.owners, pending_here(w.pending_closes, id), false),
        ..w
    }
}

/// What became of a closed terminal once it is known whether it was busy.
#[derive(Clone, Copy, Debug, PartialEq, Eq, Structural)]
pub enum PendingDecision {
    /// Nothing was pending any more.
    Raced,
    /// The terminal was idle and its process is to be ended.
    Finalized,
    /// The terminal was busy and its close can be undone.
    KeepForUndo,
}

impl Duplicate for ClosingTerminalOwner {
    fn duplicate(&self) -> (r: Self) {
        ClosingTerminalOwner {
            project_id: self.project_id.clone(),
            terminal_name: copy_opt(&self.terminal_name),
        }
    }
}

fn copy_layout(l: &Option<LayoutNode>) -> (r: Option<LayoutNode>)
    ensures
        opt_node(r) == opt_node(*l),
{
    match l {
        Some(x) => Some(x.duplicate()),
        None => None,
    }
}

/// `prefix` followed by `tail`.
fn path_join(prefix: &[usize], tail: Vec<usize>) -> (r: Vec<usize>)
    ensures
        r@ == prefix@ + tail@,
{
    let mut out = vstd::slice::slice_to_vec(prefix);
    let mut tail = tail;
    let ghost rest = tail@;
    out.append(&mut tail);
    proof {
        assert(out@ =~= prefix@ + rest);
    }
    out
}

impl Workspace {
    /// The layout of a project.
    fn layout_copy(&self, project_id: &str) -> (r: Option<LayoutNode>)
        ensures
            opt_node(r) == ws_layout(self@, project_id@),
    {
        match self.project(project_id) {
            Some(p) => copy_layout(&p.layout),
            None => None,
        }
    }

    /// Close the pane at `path`, if it is there.
    pub fn close_terminal(&mut self, project_id: &str, path: &[usize], cx: &mut WorkspaceCx) -> (r:
        bool)
        ensures
            r == (pane_closed(old(self)@, project_id@, path@) is Some),
            final(self)@ == after_close(old(self)@, project_id@, path@),
            final(cx)@ == if r {
                announced(old(cx)@)
            } else {
                old(cx)@
            },
    {
        let i: usize = match find_project(&self.data.projects, project_id) {
            Some(i) => i,
            None => {
                return false;
            },
        };
        let rest: Option<LayoutNode> = match &self.data.projects[i].layout {
            Some(l) => {
                if path.len() == 0 {
                    None
                } else {
                    let mut left = l.duplicate();
                    match left.remove_at_path(path) {
                        Some(_) => Some(left),
                        None => {
                            return false;
                        },
                    }
                }
            },
            None => {
                return false;
            },
        };
        let ghost before = self.data.projects@;
        trim_project(&mut self.data.projects[i], rest);
        proof {
            project_views_update(before, i as int, self.data.projects@[i as int]);
            assert(self.data.projects@ =~= before.update(i as int, self.data.projects@[i as int]));
        }
        self.notify_data(cx);
        true
    }

    /// Close the pane at `path` and focus what takes its place.
    pub fn close_terminal_and_focus_sibling(
        &mut self,
        focus_manager: &mut FocusManager,
        project_id: &str,
        path: &[usize],
        cx: &mut WorkspaceCx,
    )
        ensures
            final(self)@ == after_close(old(self)@, project_id@, path@),
            final(focus_manager)@ == focus_after_close(
                old(self)@,
                old(focus_manager)@,
                project_id@,
                path@,
            ),
            final(cx)@ == if pane_closed(old(self)@, project_id@, path@) is Some {
                announced(old(cx)@)
            } else {
                old(cx)@
            },
    {
        if self.close_terminal(project_id, path, cx) {
            let target: Vec<usize> = match self.layout_copy(project_id) {
                Some(l) => {
                    if path.len() == 0 {
                        l.find_visible_terminal_path()
                    } else {
                        let group = vstd::slice::slice_subrange(path, 0, path.len() - 1);
                        proof {
                            assert(group@ =~= path@.drop_last());
                        }
                        match l.get_at_path(group) {
                            Some(n) => path_join(group, n.find_visible_terminal_path()),
                            None => l.find_visible_terminal_path(),
                        }
                    }
                },
                None => {
                    let root: Vec<usize> = Vec::new();
                    proof {
                        assert(root@ =~= Seq::<usize>::empty());
                    }
                    root
                },
            };
            focus_manager.focus_terminal(project_id.to_owned(), target);
        }
    }

    /// Remember which project a terminal belongs to, while it is in no layout
    /// and its process has not ended.
    pub fn remember_closing_terminal_owner(&mut self, project_id: &str, terminal_id: &str)
        ensures
            final(self)@ == owner_remembered(old(self)@, project_id@, terminal_id@),
    {
        let name: Option<String> = match self.project(project_id) {
            Some(p) => match p.terminal_names.get(terminal_id) {
                Some(n) => Some(n.clone()),
                None => None,
            },
            None => {
                return ;
            },
        };
        self.closing_terminal_owners.insert(
            terminal_id.to_owned(),
            ClosingTerminalOwner { project_id: project_id.to_owned(), terminal_name: name },
        );
    }

    /// Take what is remembered of a closing terminal.
    pub fn take_closing_terminal_owner(&mut self, terminal_id: &str) -> (r: Option<
        (String, Option<String>),
    >)
        ensures
            match r {
                Some(o) => lookup(old(self)@.owners, terminal_id@) == Some((o.0@, opt_text(o.1))),
                None => lookup(old(self)@.owners, terminal_id@) is None,
            },
            final(self)@ == (WorkspaceView {
                owners: unkeyed(old(self)@.owners, terminal_id@),
                ..old(self)@
            }),
    {
        match self.closing_terminal_owners.remove(terminal_id) {
            Some(o) => Some((o.project_id, o.terminal_name)),
            None => None,
        }
    }

    /// Begin a soft close: take the terminal out of the layout, focus what
    /// takes its place, and note the close so that it can be undone.
    pub fn begin_soft_close(
        &mut self,
        focus_manager: &mut FocusManager,
        project_id: &str,
        path: &[usize],
        terminal_id: &str,
        toast_id: &str,
        cx: &mut WorkspaceCx,
    )
        ensures
            final(self)@ == soft_closed(
                old(self)@,
                project_id@,
                path@,
                terminal_id@,
                toast_id@,
            ),
            final(focus_manager)@ == focus_after_close(
                old(self)@,
                old(focus_manager)@,
                project_id@,
                path@,
            ),
            final(cx)@ == if pane_closed(old(self)@, project_id@, path@) is Some {
                announced(old(cx)@)
            } else {
                old(cx)@
            },
    {
        let pre = self.layout_copy(project_id);
        let ghost start = self@;
        self.remember_closing_terminal_owner(project_id, terminal_id);
        proof {
            assert(ws_project(self@, project_id@) == ws_project(start, project_id@));
        }
        self.close_terminal_and_focus_sibling(focus_manager, project_id, path, cx);
        let post = self.layout_copy(project_id);
        let ghost before = self.pending_closes@;
        self.pending_closes.push(
            PendingClose {
                terminal_id: terminal_id.to_owned(),
                project_id: project_id.to_owned(),
                toast_id: toast_id.to_owned(),
                pre_close_layout: pre,
                post_close_layout: post,
            },
        );
        proof {
            assert(pending_views(self.pending_closes@) =~= pending_views(before).push(
                self.pending_closes@.last()@,
            ));
        }
        drop_restored(&mut self.restored_closes, terminal_id);
    }

    /// The position of a terminal's pending close.
    fn find_pending(&self, terminal_id: &str) -> (r: Option<usize>)
        ensures
            match r {
                Some(i) => pending_at(self@, terminal_id@) == Some(i as int) && i
                    < self.pending_closes@.len(),
                None => pending_at(self@, terminal_id@) is None,
            },
    {
        let ghost ids = pending_ids(self@.pending_closes);
        let mut i: usize = 0;
        while i < self.pending_closes.len()
            invariant
                i <= self.pending_closes@.len(),
                ids == pending_ids(self@.pending_closes),
                position(ids.take(i as int), terminal_id@) is None,
            decreases self.pending_closes@.len() - i,
        {
            proof {
                assert(ids.take(i + 1).drop_last() =~= ids.take(i as int));
                assert(ids.take(i + 1).last() == self.pending_closes@[i as int].terminal_id@);
            }
            if same(self.pending_closes[i].terminal_id.as_str(), terminal_id) {
                proof {
                    position_extends(ids, terminal_id@, i + 1);
                }
                return Some(i);
            }
            i = i + 1;
        }
        proof {
            assert(ids.take(i as int) =~= ids);
        }
        None
    }

    /// Whether a terminal is waiting out its grace period.
    pub fn has_pending_close(&self, terminal_id: &str) -> (r: bool)
        ensures
            r == (pending_at(self@, terminal_id@) is Some),
    {
        self.find_pending(terminal_id).is_some()
    }

    fn take_pending_close(&mut self, terminal_id: &str) -> (r: Option<PendingClose>)
        ensures
            match pending_at(old(self)@, terminal_id@) {
                Some(i) => r is Some && 0 <= i < old(self)@.pending_closes.len() && r->0@ == old(self)@.pending_closes[i] && final(self)@ == without_pending(old(self)@, i),
                None => r is None && final(self)@ == old(self)@,
            },
    {
        match self.find_pending(terminal_id) {
            Some(i) => {
                let ghost before = self.pending_closes@;
                let p = self.pending_closes.remove(i);
                proof {
                    assert(pending_views(self.pending_closes@) =~= pending_views(before).remove(
                        i as int,
                    ));
                }
                Some(p)
            },
            None => None,
        }
    }

    /// Make a soft close final: the terminal's process is to be ended. `false`
    /// where nothing was pending, so a second call does nothing.
    pub fn finalize_soft_close(&mut self, terminal_id: &str, cx: &mut WorkspaceCx) -> (r: bool)
        ensures
            match finalized(old(self)@, terminal_id@) {
                Some(w) => r && final(self)@ == w && final(cx)@ == announced(old(cx)@),
                None => !r && final(self)@ == old(self)@ && final(cx)@ == old(cx)@,
            },
    {
        if self.take_pending_close(terminal_id).is_none() {
            return false;
        }
        let mut ids: Vec<String> = Vec::new();
        ids.push(terminal_id.to_owned());
        let ghost before = self@.kills;
        self.queue_terminal_kills(&ids);
        proof {
            assert(texts(ids@) =~= seq![terminal_id@]);
            assert(before + texts(ids@) =~= before.push(terminal_id@));
        }
        cx.notify();
        true
    }

    /// Decide what becomes of a closed terminal once it is known whether it was
    /// busy: an idle one is ended, a busy one kept for an undo.
    pub fn decide_pending_close(&mut self, terminal_id: &str, busy: bool, cx: &mut WorkspaceCx) -> (r:
        PendingDecision)
        ensures
            match finalized(old(self)@, terminal_id@) {
                None => r == PendingDecision::Raced && final(self)@ == old(self)@ && final(cx)@
                    == old(cx)@,
                Some(w) => if busy {
                    r == PendingDecision::KeepForUndo && final(self)@ == old(self)@ && final(cx)@
                        == old(cx)@
                } else {
                    r == PendingDecision::Finalized && final(self)@ == w && final(cx)@ == announced(
                        old(cx)@,
                    )
                },
            },
    {
        if !self.has_pending_close(terminal_id) {
            return PendingDecision::Raced;
        }
        if busy {
            return PendingDecision::KeepForUndo;
        }
        self.finalize_soft_close(terminal_id, cx);
        PendingDecision::Finalized
    }

    /// Undo a soft close, bringing the terminal back into the layout.
    ///
    /// Where its process has ended meanwhile (`alive` is false) nothing is
    /// brought back. Returns whether the terminal was: whether its project is
    /// there and holds it again.
    pub fn undo_soft_close(
        &mut self,
        focus_manager: &mut FocusManager,
        terminal_id: &str,
        alive: bool,
        cx: &mut WorkspaceCx,
    ) -> (r: bool)
        ensures
            r == undo_restores(old(self)@, terminal_id@, alive),
            match pending_at(old(self)@, terminal_id@) {
                None => final(self)@ == old(self)@ && final(focus_manager)@ == old(focus_manager)@
                    && final(cx)@ == old(cx)@,
                Some(i) => if alive {
                    let u = close_undone(
                        old(self)@,
                        old(focus_manager)@,
                        i,
                        terminal_id@,
                        old(cx)@.now,
                    );
                    final(self)@ == u.0 && final(focus_manager)@ == u.1 && final(cx)@ == announced(
                        old(cx)@,
                    )
                } else {
                    final(self)@ == (WorkspaceView {
                        owners: unkeyed(old(self)@.owners, terminal_id@),
                        ..without_pending(old(self)@, i)
                    }) && final(focus_manager)@ == old(focus_manager)@ && final(cx)@ == old(cx)@
                },
            },
    {
        let pending = match self.take_pending_close(terminal_id) {
            Some(p) => p,
            None => {
                return false;
            },
        };
        let owner = self.take_closing_terminal_owner(terminal_id);
        if !alive {
            return false;
        }
        let name: Option<String> = match owner {
            Some((_, n)) => n,
            None => None,
        };
        let ghost w2 = self@;
        let ghost pv = pending@;
        let project_id = pending.project_id.clone();
        if let Some(i) = find_project(&self.data.projects, project_id.as_str()) {
            let ghost before = self.data.projects@;
            restore_pane(&mut self.data.projects[i], &pending, terminal_id, name);
            proof {
                project_views_update(before, i as int, self.data.projects@[i as int]);
                assert(self.data.projects@ =~= before.update(
                    i as int,
                    self.data.projects@[i as int],
                ));
            }
        }
        proof {
            assert(self@ == pane_restored(w2, pv, terminal_id@, opt_text(name)));
        }
        let path: Option<Vec<usize>> = match self.project(project_id.as_str()) {
            Some(p) => match &p.layout {
                Some(l) => l.find_terminal_path(terminal_id),
                None => None,
            },
            None => None,
        };
        let p: Vec<usize> = match path {
            Some(p) => p,
            None => {
                self.notify_data(cx);
                return false;
            },
        };
        self.set_focused_terminal(focus_manager, project_id.clone(), p, cx);
        drop_restored(&mut self.restored_closes, terminal_id);
        let ghost held = self.restored_closes@;
        self.restored_closes.push(
            RestoredClose { terminal_id: terminal_id.to_owned(), project_id },
        );
        proof {
            assert(restored_views(self.restored_closes@) =~= restored_views(held).push(
                self.restored_closes@.last()@,
            ));
        }
        self.notify_data(cx);
        true
    }

    /// A terminal that was brought back turned out dead: remove its pane again.
    /// Returns whether the terminal had been brought back.
    pub fn reap_restored_close(&mut self, terminal_id: &str, cx: &mut WorkspaceCx) -> (r: bool)
        ensures
            match position(restored_ids(old(self)@.restored_closes), terminal_id@) {
                Some(i) => r && final(self)@ == reaped(old(self)@, i, terminal_id@),
                None => !r && final(self)@ == old(self)@,
            },
            final(cx)@ == match position(restored_ids(old(self)@.restored_closes), terminal_id@) {
                Some(i) => if reaps_a_pane(old(self)@, i, terminal_id@) {
                    announced(old(cx)@)
                } else {
                    old(cx)@
                },
                None => old(cx)@,
            },
    {
        let i: usize = match find_restored(&self.restored_closes, terminal_id) {
            Some(i) => i,
            None => {
                return false;
            },
        };
        let ghost before = self.restored_closes@;
        let restored = self.restored_closes.remove(i);
        proof {
            assert(restored_views(self.restored_closes@) =~= restored_views(before).remove(
                i as int,
            ));
        }
        let path: Option<Vec<usize>> = match self.project(restored.project_id.as_str()) {
            Some(p) => match &p.layout {
                Some(l) => l.find_terminal_path(terminal_id),
                None => None,
            },
            None => None,
        };
        if let Some(p) = path {
            self.close_terminal(restored.project_id.as_str(), p.as_slice(), cx);
        }
        true
    }

    /// Drop every pending close and return the terminals, whose processes are
    /// still to be ended.
    pub fn drain_pending_closes(&mut self) -> (r: Vec<String>)
        ensures
            texts(r@) == pending_ids(old(self)@.pending_closes),
            final(self)@ == (WorkspaceView {
                pending_closes: Seq::empty(),
                owners: sifted_keys(old(self)@.owners, texts(r@), false),
                ..old(self)@
            }),
    {
        let mut all: Vec<PendingClose> = Vec::new();
        proof {
            assert(pending_views(all@) =~= Seq::<PendingView>::empty());
        }
        std::mem::swap(&mut all, &mut self.pending_closes);
        let mut ids: Vec<String> = Vec::new();
        let mut i: usize = 0;
        while i < all.len()
            invariant
                i <= all@.len(),
                ids@.len() == i,
                forall|j: int| 0 <= j < i ==> ids@[j]@ == all@[j].terminal_id@,
            decreases all@.len() - i,
        {
            ids.push(all[i].terminal_id.clone());
            i = i + 1;
        }
        proof {
            assert(texts(ids@) =~= pending_ids(pending_views(all@)));
        }
        self.closing_terminal_owners.sift(&ids, false);
        ids
    }

    /// Drop the pending closes of a project and return their terminals, whose
    /// processes are still to be ended.
    pub fn drain_pending_closes_for_project(&mut self, project_id: &str) -> (r: Vec<String>)
        ensures
            texts(r@) == pending_here(old(self)@.pending_closes, project_id@),
            final(self)@ == project_drained(old(self)@, project_id@),
    {
        let mut all: Vec<PendingClose> = Vec::new();
        std::mem::swap(&mut all, &mut self.pending_closes);
        let ghost start = all@;
        let ghost ps = pending_views(start);
        let mut rest = reversed(all);
        let ghost mut taken: int = 0;
        let mut kept: Vec<PendingClose> = Vec::new();
        let mut ids: Vec<String> = Vec::new();
        proof {
            assert(ps.take(0) =~= Seq::<PendingView>::empty());
            assert(pending_views(kept@) =~= Seq::<PendingView>::empty());
            assert(texts(ids@) =~= Seq::<Seq<char>>::empty());
        }
        while rest.len() > 0
            invariant
                0 <= taken <= start.len(),
                rest@.len() == start.len() - taken,
                ps == pending_views(start),
                forall|j: int| 0 <= j < rest@.len() ==> rest@[j] == start[start.len() - 1 - j],
                pending_views(kept@) == pending_elsewhere(ps.take(taken), project_id@),
                texts(ids@) == pending_here(ps.take(taken), project_id@),
            decreases rest.len(),
        {
            let p = rest.pop().unwrap();
            proof {
                assert(p == start[taken]);
                assert(ps.take(taken + 1).drop_last() =~= ps.take(taken));
                assert(ps.take(taken + 1).last() == p@);
            }
            if same(p.project_id.as_str(), project_id) {
                let ghost before = ids@;
                ids.push(p.terminal_id);
                proof {
                    assert(texts(ids@) =~= texts(before).push(p.terminal_id@));
                }
            } else {
                let ghost before = kept@;
                kept.push(p);
                proof {
                    assert(pending_views(kept@) =~= pending_views(before).push(p@));
                }
            }
            proof {
                taken = taken + 1;
            }
        }
        proof {
            assert(ps.take(taken) =~= ps);
        }
        self.pending_closes = kept;
        self.closing_terminal_owners.sift(&ids, false);
        ids
    }

    /// The process of a softly closed terminal ended by itself: drop the
    /// pending close and return its toast, which is of no more use.
    pub fn cancel_pending_close(&mut self, terminal_id: &str) -> (r: Option<String>)
        ensures
            match pending_at(old(self)@, terminal_id@) {
                Some(i) => opt_text(r) == Some(old(self)@.pending_closes[i].toast_id) && final(self)@ == (WorkspaceView {
                    owners: unkeyed(old(self)@.owners, terminal_id@),
                    ..without_pending(old(self)@, i)
                }),
                None => r is None && final(self)@ == (WorkspaceView {
                    owners: unkeyed(old(self)@.owners, terminal_id@),
                    ..old(self)@
                }),
            },
    {
        let pending = self.take_pending_close(terminal_id);
        self.closing_terminal_owners.remove(terminal_id);
        match pending {
            Some(p) => Some(p.toast_id),
            None => None,
        }
    }
}

/// Give `p` the layout `rest` and forget terminals that are not in it.
fn trim_project(p: &mut ProjectData, rest: Option<LayoutNode>)
    ensures
        final(p)@ == trimmed_to(old(p)@, opt_node(rest)),
{
    p.layout = rest;
    let ids = collect_layout_ids(p);
    p.terminal_names.sift(&ids, true);
    p.hidden_terminals.sift(&ids, true);
}

/// Bring the pane of `pending` back into `p`.
fn restore_pane(
    p: &mut ProjectData,
    pending: &PendingClose,
    terminal_id: &str,
    name: Option<String>,
)
    ensures
        final(p)@ == (ProjectView {
            layout: restored_layout(old(p)@.layout, pending@, terminal_id@),
            terminal_names: match name {
                Some(n) => stored(old(p)@.terminal_names, terminal_id@, n@),
                None => old(p)@.terminal_names,
            },
            ..old(p)@
        }),
{
    if same_layout(&p.layout, &pending.post_close_layout) {
        p.layout = copy_layout(&pending.pre_close_layout);
    } else {
        let node: Option<LayoutNode> = match &pending.pre_close_layout {
            Some(l) => match l.find_terminal_node(terminal_id) {
                Some(n) => Some(show_again(n)),
                None => None,
            },
            None => None,
        };
        if let Some(n) = node {
            match &mut p.layout {
                Some(root) => {
                    root.append_to_root(n);
                },
                None => {
                    p.layout = Some(n);
                },
            }
        }
    }
    if let Some(n) = name {
        p.terminal_names.insert(terminal_id.to_owned(), n);
    }
}

/// A copy of a closed pane, to be shown again.
fn show_again(n: &LayoutNode) -> (r: LayoutNode)
    ensures
        r@ == shown_again(n@),
{
    proof {
        view_unfolds(*n);
    }
    match n {
        LayoutNode::Terminal { terminal_id, shell_type, zoom_level, .. } => LayoutNode::Terminal {
            terminal_id: copy_opt(terminal_id),
            minimized: false,
            detached: false,
            shell_type: shell_type.duplicate(),
            zoom_level: *zoom_level,
        },
        _ => n.duplicate(),
    }
}

/// Drop the restored closes of the terminal `t`.
fn drop_restored(v: &mut Vec<RestoredClose>, t: &str)
    ensures
        restored_views(final(v)@) == restored_without(restored_views(old(v)@), t@),
{
    let mut all: Vec<RestoredClose> = Vec::new();
    std::mem::swap(&mut all, v);
    let ghost start = all@;
    let ghost rs = restored_views(start);
    let mut rest = reversed(all);
    let ghost mut taken: int = 0;
    let mut kept: Vec<RestoredClose> = Vec::new();
    proof {
        assert(rs.take(0) =~= Seq::<RestoredView>::empty());
        assert(restored_views(kept@) =~= Seq::<RestoredView>::empty());
    }
    while rest.len() > 0
        invariant
            0 <= taken <= start.len(),
            rest@.len() == start.len() - taken,
            rs == restored_views(start),
            forall|j: int| 0 <= j < rest@.len() ==> rest@[j] == start[start.len() - 1 - j],
            restored_views(kept@) == restored_without(rs.take(taken), t@),
        decreases rest.len(),
    {
        let r = rest.pop().unwrap();
        proof {
            assert(r == start[taken]);
            assert(rs.take(taken + 1).drop_last() =~= rs.take(taken));
            assert(rs.take(taken + 1).last() == r@);
        }
        if !same(r.terminal_id.as_str(), t) {
            let ghost before = kept@;
            kept.push(r);
            proof {
                assert(restored_views(kept@) =~= restored_views(before).push(r@));
            }
        }
        proof {
            taken = taken + 1;
        }
    }
    proof {
        assert(rs.take(taken) =~= rs);
    }
    *v = kept;
}

/// The position of the restored close of the terminal `t`.
fn find_restored(v: &Vec<RestoredClose>, t: &str) -> (r: Option<usize>)
    ensures
        match r {
            Some(i) => position(restored_ids(restored_views(v@)), t@) == Some(i as int) && i
                < v@.len(),
            None => position(restored_ids(restored_views(v@)), t@) is None,
        },
{
    let ghost ids = restored_ids(restored_views(v@));
    let mut i: usize = 0;
    while i < v.len()
        invariant
            i <= v@.len(),
            ids == restored_ids(restored_views(v@)),
            position(ids.take(i as int), t@) is None,
        decreases v@.len() - i,
    {
        proof {
            assert(ids.take(i + 1).drop_last() =~= ids.take(i as int));
            assert(ids.take(i + 1).last() == v@[i as int].terminal_id@);
        }
        if same(v[i].terminal_id.as_str(), t) {
            proof {
                position_extends(ids, t@, i + 1);
            }
            return Some(i);
        }
        i = i + 1;
    }
    proof {
        assert(ids.take(i as int) =~= ids);
    }
    None
}

} // verus!
