//! Focusing terminals and projects, and letting a terminal fill its window.
//!
//! Each window owns its [`FocusManager`]; an action changes the focus of the
//! window that drives it and of no other.

use crate::collections::list_extend;
use crate::focus::{
    FocusManager, FocusTarget, FocusView, focus_on, fullscreen_off, fullscreen_on, modal_off,
    modal_on,
};
use crate::layout::{LayoutView, slot_path};
use crate::layout_terminals::{activated, visible_path};
use crate::state::{
    DataView, ProjectView, WindowId, find_project, folder_in, project_in, project_views_update,
    window_in,
};
use crate::text::{copy_opt, opt_text, same, texts};
use crate::windows::{WindowEdit, WindowEditView, edited_one_window};
use crate::workspace::{
    Workspace, WorkspaceCx, WorkspaceView, announced, changed, child_ids, used, ws_layout,
    ws_project, ws_with_project,
};
use vstd::prelude::*;

verus! {

/// The first of the projects `ids`, from position `from` on, that has a
/// layout, and the path to the terminal that shows in it.
pub open spec fn first_open(ps: Seq<ProjectView>, ids: Seq<Seq<char>>, from: nat) -> Option<
    (Seq<char>, Seq<usize>),
>
    decreases ids.len() - from,
{
    if from >= ids.len() {
        None
    } else {
        match project_in(ps, ids[from as int]) {
            Some(p) => match p.layout {
                Some(l) => Some((ids[from as int], visible_path(l))),
                None => first_open(ps, ids, from + 1),
            },
            None => first_open(ps, ids, from + 1),
        }
    }
}

/// The terminal that shows in the project `id`, or else in the first of its
/// worktrees that has one.
pub open spec fn first_target(ps: Seq<ProjectView>, id: Seq<char>) -> Option<
    (Seq<char>, Seq<usize>),
> {
    first_open(ps, seq![id] + child_ids(ps, id), 0)
}

/// `f` after the project `id` takes the focus: on its first terminal, on the
/// project itself where it has none, and unchanged where it does not exist.
pub open spec fn focus_first(ps: Seq<ProjectView>, f: FocusView, id: Seq<char>) -> FocusView {
    match first_target(ps, id) {
        Some(t) => focus_on(f, t.0, t.1),
        None => if project_in(ps, id) is Some {
            focus_on(f, id, Seq::empty())
        } else {
            f
        },
    }
}

/// `f` zoomed to `id`.
pub open spec fn zoomed(
    ps: Seq<ProjectView>,
    f: FocusView,
    id: Option<Seq<char>>,
    individual: bool,
) -> FocusView {
    let z = FocusView { fullscreen: None, focused_project_id: id, individual, ..f };
    match id {
        Some(p) => focus_first(ps, z, p),
        None => z,
    }
}

/// The folder that the window `id` is filtered to.
pub open spec fn filter_of(d: DataView, id: WindowId) -> Option<Seq<char>> {
    match window_in(d, id) {
        Some(w) => w.folder_filter,
        None => None,
    }
}

/// The path to the terminal `t` of the project `id`, or the root.
pub open spec fn path_or_root(w: WorkspaceView, id: Seq<char>, t: Seq<char>) -> Seq<usize> {
    match ws_layout(w, id) {
        Some(l) => match slot_path(l, Some(t)) {
            Some(p) => p,
            None => Seq::empty(),
        },
        None => Seq::empty(),
    }
}

/// Whether the terminal `t` is in the layout of the project `id`.
pub open spec fn shows_terminal(w: WorkspaceView, id: Seq<char>, t: Seq<char>) -> bool {
    match ws_layout(w, id) {
        Some(l) => slot_path(l, Some(t)) is Some,
        None => false,
    }
}

/// `w` with the terminal `t` of the project `id` at the front of its tab groups,
/// and the project used at `now`.
pub open spec fn brought_to_front(
    w: WorkspaceView,
    id: Seq<char>,
    t: Seq<char>,
    now: u64,
) -> WorkspaceView {
    let shown = ws_with_layout(
        w,
        id,
        Some(activated(ws_layout(w, id)->0, path_or_root(w, id, t))),
    );
    used(changed(w, shown.data), id, now)
}

/// `w` with the window filtered to the folder, or to none where it was filtered
/// to this one.
pub open spec fn folder_toggled(w: WorkspaceView, window: WindowId, folder: Seq<char>) -> WorkspaceView {
    changed(
        w,
        edited_one_window(
            w.data,
            window,
            WindowEditView::Filter(
                if filter_of(w.data, window) != Some(folder) {
                    Some(folder)
                } else {
                    None
                },
            ),
        ),
    )
}

/// The focus once the window has toggled its filter: on the first project of the
/// folder that it is filtered to.
pub open spec fn focus_on_folder(
    w: WorkspaceView,
    f: FocusView,
    window: WindowId,
    folder: Seq<char>,
) -> FocusView {
    let unzoomed = FocusView { focused_project_id: None, individual: false, ..f };
    if filter_of(w.data, window) == Some(folder) {
        f
    } else {
        match folder_in(w.data.folders, folder) {
            Some(x) => if x.project_ids.len() > 0 {
                focus_first(w.data.projects, unzoomed, x.project_ids[0])
            } else {
                unzoomed
            },
            None => unzoomed,
        }
    }
}

/// `w` with the layout of the project `id` replaced by `l`.
pub open spec fn ws_with_layout(w: WorkspaceView, id: Seq<char>, l: Option<LayoutView>) -> WorkspaceView {
    match ws_project(w, id) {
        Some(p) => ws_with_project(w, id, ProjectView { layout: l, ..p }),
        None => w,
    }
}

impl Workspace {
    /// Zoom the window to a project and its worktrees, and focus the first
    /// terminal there; `None` ends the zoom.
    pub fn set_focused_project(
        &mut self,
        focus_manager: &mut FocusManager,
        project_id: Option<String>,
        cx: &mut WorkspaceCx,
    )
        ensures
            final(self)@ == old(self)@,
            final(focus_manager)@ == zoomed(
                old(self)@.data.projects,
                old(focus_manager)@,
                opt_text(project_id),
                false,
            ),
            final(cx)@ == announced(old(cx)@),
    {
        focus_manager.clear_fullscreen_without_restore();
        focus_manager.set_focused_project_id(copy_opt(&project_id));
        if let Some(pid) = &project_id {
            self.focus_first_terminal_in(focus_manager, pid.as_str());
        }
        cx.notify();
    }

    /// Zoom the window to a project without its worktrees, and focus the first
    /// terminal there.
    pub fn set_focused_project_individual(
        &mut self,
        focus_manager: &mut FocusManager,
        project_id: Option<String>,
        cx: &mut WorkspaceCx,
    )
        ensures
            final(self)@ == old(self)@,
            final(focus_manager)@ == zoomed(
                old(self)@.data.projects,
                old(focus_manager)@,
                opt_text(project_id),
                true,
            ),
            final(cx)@ == announced(old(cx)@),
    {
        focus_manager.clear_fullscreen_without_restore();
        focus_manager.set_focused_project_id_individual(copy_opt(&project_id));
        if let Some(pid) = &project_id {
            self.focus_first_terminal_in(focus_manager, pid.as_str());
        }
        cx.notify();
    }

    /// The folder that a window is filtered to.
    pub fn active_folder_filter(&self, window_id: WindowId) -> (r: Option<&String>)
        ensures
            match r {
                Some(f) => filter_of(self@.data, window_id) == Some(f@),
                None => filter_of(self@.data, window_id) is None,
            },
    {
        match self.data.window(window_id) {
            Some(w) => w.folder_filter.as_ref(),
            None => None,
        }
    }

    /// Filter a window to a folder and focus the first terminal in it; a window
    /// that is filtered to the folder already loses its filter.
    ///
    /// A window that is gone is left alone, though the change still counts.
    pub fn toggle_folder_focus(
        &mut self,
        focus_manager: &mut FocusManager,
        window_id: WindowId,
        folder_id: &str,
        cx: &mut WorkspaceCx,
    )
        ensures
            final(self)@ == folder_toggled(old(self)@, window_id, folder_id@),
            final(focus_manager)@ == focus_on_folder(
                old(self)@,
                old(focus_manager)@,
                window_id,
                folder_id@,
            ),
            final(cx)@ == announced(old(cx)@),
    {
        let selecting = match self.active_folder_filter(window_id) {
            Some(f) => !same(f.as_str(), folder_id),
            None => true,
        };
        if selecting {
            self.edit_window(window_id, &WindowEdit::Filter(Some(folder_id)), cx);
            focus_manager.set_focused_project_id(None);
            let first: Option<String> = match self.folder(folder_id) {
                Some(f) => if f.project_ids.len() > 0 {
                    Some(f.project_ids[0].clone())
                } else {
                    None
                },
                None => None,
            };
            if let Some(pid) = &first {
                self.focus_first_terminal_in(focus_manager, pid.as_str());
            }
        } else {
            self.edit_window(window_id, &WindowEdit::Filter(None), cx);
        }
        cx.notify();
    }

    /// The terminal that shows in a project, or else in the first of its
    /// worktrees that has one.
    pub fn first_terminal_target_in(&self, project_id: &str) -> (r: Option<FocusTarget>)
        ensures
            match r {
                Some(t) => first_target(self@.data.projects, project_id@) == Some(t@),
                None => first_target(self@.data.projects, project_id@) is None,
            },
    {
        let mut candidates: Vec<String> = Vec::new();
        candidates.push(project_id.to_owned());
        let children = self.worktree_child_ids(project_id);
        let ghost head = candidates@;
        list_extend(&mut candidates, &children);
        let ghost ids = seq![project_id@] + child_ids(self@.data.projects, project_id@);
        proof {
            assert(texts(head) =~= seq![project_id@]);
        }
        let mut i: usize = 0;
        while i < candidates.len()
            invariant
                i <= candidates@.len(),
                ids == seq![project_id@] + child_ids(self@.data.projects, project_id@),
                texts(candidates@) == ids,
                first_open(self@.data.projects, ids, 0) == first_open(
                    self@.data.projects,
                    ids,
                    i as nat,
                ),
            decreases candidates@.len() - i,
        {
            proof {
                assert(ids[i as int] == candidates@[i as int]@);
            }
            if let Some(p) = self.project(candidates[i].as_str()) {
                if let Some(l) = &p.layout {
                    let path = l.find_visible_terminal_path();
                    return Some(FocusTarget::new(candidates[i].clone(), path));
                }
            }
            i = i + 1;
        }
        proof {
            assert(ids.len() == candidates@.len());
        }
        None
    }

    /// Let a project take the focus: its first terminal, or the project itself
    /// where it has no terminal.
    pub fn focus_first_terminal_in(&self, focus_manager: &mut FocusManager, project_id: &str)
        ensures
            final(focus_manager)@ == focus_first(
                self@.data.projects,
                old(focus_manager)@,
                project_id@,
            ),
    {
        match self.first_terminal_target_in(project_id) {
            Some(t) => {
                focus_manager.focus_terminal(t.project_id, t.layout_path);
            },
            None => {
                if self.project(project_id).is_some() {
                    let root: Vec<usize> = Vec::new();
                    proof {
                        assert(root@ =~= Seq::<usize>::empty());
                    }
                    focus_manager.focus_terminal(project_id.to_owned(), root);
                }
            },
        }
    }

    /// Let a terminal fill its window.
    pub fn set_fullscreen_terminal(
        &mut self,
        focus_manager: &mut FocusManager,
        project_id: String,
        terminal_id: String,
        cx: &mut WorkspaceCx,
    )
        ensures
            final(self)@ == old(self)@,
            final(focus_manager)@ == fullscreen_on(
                old(focus_manager)@,
                project_id@,
                path_or_root(old(self)@, project_id@, terminal_id@),
                terminal_id@,
            ),
            final(cx)@ == announced(old(cx)@),
    {
        let mut path: Vec<usize> = Vec::new();
        proof {
            assert(path@ =~= Seq::<usize>::empty());
        }
        if let Some(p) = self.project(project_id.as_str()) {
            if let Some(l) = &p.layout {
                if let Some(found) = l.find_terminal_path(terminal_id.as_str()) {
                    path = found;
                }
            }
        }
        focus_manager.enter_fullscreen(project_id, path, terminal_id);
        cx.notify();
    }

    /// Let nothing fill the window, and bring back the focus from before.
    pub fn exit_fullscreen(&mut self, focus_manager: &mut FocusManager, cx: &mut WorkspaceCx)
        ensures
            final(self)@ == old(self)@,
            final(focus_manager)@ == fullscreen_off(old(focus_manager)@),
            final(cx)@ == announced(old(cx)@),
    {
        focus_manager.exit_fullscreen();
        cx.notify();
    }

    /// Focus a terminal and note that its project is in use.
    pub fn set_focused_terminal(
        &mut self,
        focus_manager: &mut FocusManager,
        project_id: String,
        layout_path: Vec<usize>,
        cx: &mut WorkspaceCx,
    )
        ensures
            final(self)@ == used(old(self)@, project_id@, old(cx)@.now),
            final(focus_manager)@ == focus_on(old(focus_manager)@, project_id@, layout_path@),
            final(cx)@ == announced(old(cx)@),
    {
        focus_manager.focus_terminal(project_id.clone(), layout_path);
        self.mark_used(project_id.as_str(), cx);
        cx.notify();
    }

    /// Hand the keyboard to a modal; the terminal gets it back afterwards.
    pub fn clear_focused_terminal(&mut self, focus_manager: &mut FocusManager, cx: &mut WorkspaceCx)
        ensures
            final(self)@ == old(self)@,
            final(focus_manager)@ == modal_on(old(focus_manager)@),
            final(cx)@ == announced(old(cx)@),
    {
        focus_manager.enter_modal();
        cx.notify();
    }

    /// Take the keyboard back from a modal.
    pub fn restore_focused_terminal(
        &mut self,
        focus_manager: &mut FocusManager,
        cx: &mut WorkspaceCx,
    )
        ensures
            final(self)@ == old(self)@,
            final(focus_manager)@ == modal_off(old(focus_manager)@),
            final(cx)@ == announced(old(cx)@),
    {
        focus_manager.exit_modal();
        cx.notify();
    }

    /// Focus a terminal wherever it is in its project's layout, bringing it to
    /// the front of its tab groups. Nothing happens where it is not there.
    pub fn focus_terminal_by_id(
        &mut self,
        focus_manager: &mut FocusManager,
        project_id: &str,
        terminal_id: &str,
        cx: &mut WorkspaceCx,
    )
        ensures
            if shows_terminal(old(self)@, project_id@, terminal_id@) {
                &&& final(self)@ == brought_to_front(
                    old(self)@,
                    project_id@,
                    terminal_id@,
                    old(cx)@.now,
                )
                &&& final(focus_manager)@ == focus_on(
                    old(focus_manager)@,
                    project_id@,
                    path_or_root(old(self)@, project_id@, terminal_id@),
                )
                &&& final(cx)@ == announced(old(cx)@)
            } else {
                &&& final(self)@ == old(self)@
                &&& final(focus_manager)@ == old(focus_manager)@
                &&& final(cx)@ == old(cx)@
            },
    {
        let i: usize = match find_project(&self.data.projects, project_id) {
            Some(i) => i,
            None => {
                return ;
            },
        };
        let path: Vec<usize> = match &self.data.projects[i].layout {
            Some(l) => match l.find_terminal_path(terminal_id) {
                Some(p) => p,
                None => {
                    return ;
                },
            },
            None => {
                return ;
            },
        };
        let ghost before = self.data.projects@;
        match &mut self.data.projects[i].layout {
            Some(l) => {
                l.activate_tabs_along_path(path.as_slice());
            },
            None => {},
        }
        proof {
            project_views_update(before, i as int, self.data.projects@[i as int]);
            assert(self.data.projects@ =~= before.update(i as int, self.data.projects@[i as int]));
        }
        self.notify_data(cx);
        self.set_focused_terminal(focus_manager, project_id.to_owned(), path, cx);
    }
}

} // verus!
