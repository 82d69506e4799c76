//! Showing, hiding and sizing projects in a window.
//!
//! Widths and their scale count hundredths.

use crate::actions::focus::{first_target, focus_first};
use crate::collections::{IdMap, lookup, position_is_first, sifted, sifted_members, stored};
use crate::focus::{FocusManager, FocusView};
use crate::state::{
    DataView, ProjectView, WindowId, extra_at, has_project, project_ids, project_in,
    window_in,
};
use crate::text::{same, texts};
use crate::visibility::{
    family, hidden_in, pick_focus_replacement, replacement, shown_projects,
};
use crate::windows::{
    WindowEdit, WindowEditView, editing_one_window_leaves_the_others, edited_one_window,
    edited_window, extra_at_ignores_update, extra_at_is_first, toggling_all_twice_restores,
};
use crate::workspace::{
    Workspace, WorkspaceCx, WorkspaceView, announced, changed, child_ids, with_data, ws_project,
};
use vstd::prelude::*;

verus! {

/// The width that all columns share, in hundredths.
pub const FULL_WIDTH: u32 = 10000;

/// `w` with the project `id` shown where it was hidden in the window, and
/// hidden where it showed.
pub open spec fn hidden_toggled(w: WorkspaceView, window: WindowId, id: Seq<char>) -> WorkspaceView {
    changed(w, edited_one_window(w.data, window, WindowEditView::Toggle(id)))
}

/// `w` once the window has toggled the project `id` and each of its worktrees
/// that is there.
pub open spec fn project_toggled(w: WorkspaceView, window: WindowId, id: Seq<char>) -> WorkspaceView {
    changed(
        w,
        edited_one_window(
            w.data,
            window,
            WindowEditView::ToggleAll(family(w.data.projects, id)),
        ),
    )
}

/// Whether toggling the project `id` takes the focus away: the focused project
/// shows, and it is that one, or one of its worktrees that is hidden with it.
pub open spec fn loses_focus(
    w: WorkspaceView,
    f: FocusView,
    window: WindowId,
    id: Seq<char>,
) -> bool {
    match f.focused {
        Some(t) => !hidden_in(w.data, window, t.0) && (t.0 == id || hidden_in(
            project_toggled(w, window, id).data,
            window,
            t.0,
        )),
        None => false,
    }
}

/// The project that takes over the focus from the one that has it.
pub open spec fn successor(
    w: WorkspaceView,
    f: FocusView,
    window: WindowId,
    id: Seq<char>,
) -> Option<Seq<char>> {
    replacement(
        shown_projects(w.data, window, f.focused_project_id, f.individual),
        shown_projects(
            project_toggled(w, window, id).data,
            window,
            f.focused_project_id,
            f.individual,
        ),
        (f.focused->0).0,
    )
}

/// The focus once `next` has taken over. While a modal holds the keyboard it
/// keeps it, and only what gets the focus afterwards changes.
pub open spec fn focus_taken_over(
    ps: Seq<ProjectView>,
    f: FocusView,
    next: Option<Seq<char>>,
) -> FocusView {
    if f.modal {
        match next {
            Some(id) => match first_target(ps, id) {
                Some(t) => FocusView { focused: Some(t), ..f },
                None => f,
            },
            None => FocusView { focused: None, ..f },
        }
    } else {
        match next {
            Some(id) => focus_first(ps, f, id),
            None => FocusView { focused: None, modal: false, ..f },
        }
    }
}

/// `d` with the widths `m` set in the window, of which the first `n` are.
pub open spec fn widths_set(
    d: DataView,
    window: WindowId,
    m: Seq<(Seq<char>, u32)>,
    n: nat,
) -> DataView
    decreases n,
{
    if n == 0 || n > m.len() {
        d
    } else {
        edited_one_window(
            widths_set(d, window, m, (n - 1) as nat),
            window,
            WindowEditView::Width(m[n - 1].0, m[n - 1].1),
        )
    }
}

/// The width of a project's column: its own, or an equal share.
pub open spec fn width_in(d: DataView, window: WindowId, id: Seq<char>, visible: usize) -> u32 {
    match window_in(d, window) {
        Some(w) => match lookup(w.project_widths, id) {
            Some(x) => x,
            None => share_of(visible),
        },
        None => share_of(visible),
    }
}

/// An equal share of the full width among `visible` columns. Among none it has
/// no bound, for which the largest number stands.
pub open spec fn share_of(visible: usize) -> u32 {
    if visible == 0 {
        u32::MAX
    } else {
        (FULL_WIDTH as int / visible as int) as u32
    }
}

impl Workspace {
    /// Whether a project is hidden in a window; a window that is gone counts as
    /// the main one.
    pub fn is_project_hidden(&self, window_id: WindowId, project_id: &str) -> (r: bool)
        ensures
            r == hidden_in(self@.data, window_id, project_id@),
    {
        self.data.window_or_main(window_id).hidden_project_ids.contains(project_id)
    }

    /// Show a project that a window hides, hide one that it shows. A window
    /// that is gone is left alone, though the change still counts.
    pub fn toggle_hidden(&mut self, window_id: WindowId, project_id: &str, cx: &mut WorkspaceCx)
        ensures
            final(self)@ == hidden_toggled(old(self)@, window_id, project_id@),
            final(cx)@ == announced(old(cx)@),
    {
        self.edit_window(window_id, &WindowEdit::Toggle(project_id), cx);
    }

    /// Show or hide a single worktree, whether or not it is there.
    pub fn toggle_worktree_visibility(
        &mut self,
        window_id: WindowId,
        project_id: &str,
        cx: &mut WorkspaceCx,
    )
        ensures
            final(self)@ == hidden_toggled(old(self)@, window_id, project_id@),
            final(cx)@ == announced(old(cx)@),
    {
        self.toggle_hidden(window_id, project_id, cx);
    }

    /// Show or hide a project and each of its worktrees that is there. This
    /// counts as one change.
    fn toggle_with_worktrees(
        &mut self,
        window_id: WindowId,
        project_id: &str,
        cx: &mut WorkspaceCx,
    )
        ensures
            final(self)@ == project_toggled(old(self)@, window_id, project_id@),
            final(cx)@ == announced(old(cx)@),
    {
        let mut ids: Vec<String> = Vec::new();
        self.data.add_family(project_id, &mut ids);
        proof {
            assert(texts(ids@) =~= family(self@.data.projects, project_id@));
        }
        self.edit_window(window_id, &WindowEdit::ToggleAll(&ids), cx);
    }

    /// Show or hide a project, and each of its worktrees that is there. Where
    /// that takes the focus away, a neighbour gets it. Nothing happens to a
    /// project that is not there.
    pub fn toggle_project_overview_visibility(
        &mut self,
        focus_manager: &mut FocusManager,
        window_id: WindowId,
        project_id: &str,
        cx: &mut WorkspaceCx,
    )
        ensures
            if ws_project(old(self)@, project_id@) is None {
                &&& final(self)@ == old(self)@
                &&& final(focus_manager)@ == old(focus_manager)@
                &&& final(cx)@ == old(cx)@
            } else {
                &&& final(self)@ == project_toggled(old(self)@, window_id, project_id@)
                &&& final(focus_manager)@ == if loses_focus(
                    old(self)@,
                    old(focus_manager)@,
                    window_id,
                    project_id@,
                ) {
                    focus_taken_over(
                        project_toggled(old(self)@, window_id, project_id@).data.projects,
                        old(focus_manager)@,
                        successor(
                            old(self)@,
                            old(focus_manager)@,
                            window_id,
                            project_id@,
                        ),
                    )
                } else {
                    old(focus_manager)@
                }
                &&& final(cx)@ == announced(old(cx)@)
            },
    {
        if self.project(project_id).is_none() {
            return ;
        }
        let focused: String = match focus_manager.focused_terminal_state() {
            Some(t) => t.project_id.clone(),
            None => {
                self.toggle_with_worktrees(window_id, project_id, cx);
                return ;
            },
        };
        let was_hidden = self.is_project_hidden(window_id, focused.as_str());
        let before = self.data.visible_projects(
            window_id,
            focus_manager.focused_project_id(),
            focus_manager.is_focus_individual(),
        );
        self.toggle_with_worktrees(window_id, project_id, cx);
        if was_hidden || !(same(focused.as_str(), project_id) || self.is_project_hidden(
            window_id,
            focused.as_str(),
        )) {
            return ;
        }
        let after = self.data.visible_projects(
            window_id,
            focus_manager.focused_project_id(),
            focus_manager.is_focus_individual(),
        );
        let next = pick_focus_replacement(&before, &after, focused.as_str());
        if focus_manager.is_modal() {
            match &next {
                Some(id) => {
                    if let Some(t) = self.first_terminal_target_in(id.as_str()) {
                        focus_manager.redirect_modal_focus(Some(t));
                    }
                },
                None => {
                    focus_manager.redirect_modal_focus(None);
                },
            }
        } else {
            match &next {
                Some(id) => {
                    self.focus_first_terminal_in(focus_manager, id.as_str());
                },
                None => {
                    focus_manager.clear_focus();
                },
            }
        }
        cx.notify();
    }

    /// Set widths in a window, the change not counted.
    fn set_widths(&mut self, window_id: WindowId, widths: &IdMap<u32>)
        ensures
            final(self)@ == with_data(
                old(self)@,
                widths_set(old(self)@.data, window_id, widths@, widths@.len()),
            ),
    {
        let ghost start = self@;
        let ghost m = widths@;
        let mut i: usize = 0;
        while i < widths.len()
            invariant
                i <= widths@.len(),
                m == widths@,
                self@ == with_data(start, widths_set(start.data, window_id, m, i as nat)),
            decreases widths@.len() - i,
        {
            let id = widths.key_at(i).as_str();
            let width = *widths.value_at(i);
            self.data.edit_window(window_id, &WindowEdit::Width(id, width));
            i = i + 1;
        }
    }

    /// Set the widths of project columns in a window; columns that are not
    /// mentioned keep theirs. This counts as one change.
    pub fn update_project_widths(
        &mut self,
        window_id: WindowId,
        widths: &IdMap<u32>,
        cx: &mut WorkspaceCx,
    )
        ensures
            final(self)@ == changed(
                old(self)@,
                widths_set(old(self)@.data, window_id, widths@, widths@.len()),
            ),
            final(cx)@ == announced(old(cx)@),
    {
        self.set_widths(window_id, widths);
        self.notify_data(cx);
    }

    /// Set the widths of project columns in a window and the scale that they
    /// are drawn with. This counts as one change.
    pub fn update_project_widths_with_scale(
        &mut self,
        window_id: WindowId,
        widths: &IdMap<u32>,
        scale: u32,
        cx: &mut WorkspaceCx,
    )
        ensures
            final(self)@ == changed(
                old(self)@,
                edited_one_window(
                    widths_set(old(self)@.data, window_id, widths@, widths@.len()),
                    window_id,
                    WindowEditView::WidthScale(scale),
                ),
            ),
            final(cx)@ == announced(old(cx)@),
    {
        self.set_widths(window_id, widths);
        self.data.edit_window(window_id, &WindowEdit::WidthScale(scale));
        self.notify_data(cx);
    }

    /// Set how high a project's service panel is.
    pub fn update_service_panel_height(
        &mut self,
        project_id: &str,
        height: u32,
        cx: &mut WorkspaceCx,
    )
        ensures
            final(self)@ == changed(
                old(self)@,
                DataView {
                    service_panel_heights: stored(
                        old(self)@.data.service_panel_heights,
                        project_id@,
                        height,
                    ),
                    ..old(self)@.data
                },
            ),
            final(cx)@ == announced(old(cx)@),
    {
        self.data.service_panel_heights.insert(project_id.to_owned(), height);
        self.notify_data(cx);
    }

    /// Set how high a project's hook panel is.
    pub fn update_hook_panel_height(&mut self, project_id: &str, height: u32, cx: &mut WorkspaceCx)
        ensures
            final(self)@ == changed(
                old(self)@,
                DataView {
                    hook_panel_heights: stored(
                        old(self)@.data.hook_panel_heights,
                        project_id@,
                        height,
                    ),
                    ..old(self)@.data
                },
            ),
            final(cx)@ == announced(old(cx)@),
    {
        self.data.hook_panel_heights.insert(project_id.to_owned(), height);
        self.notify_data(cx);
    }

    /// The width of a project's column in a window: its own, or an equal share
    /// among the columns that show.
    pub fn get_project_width(&self, window_id: WindowId, project_id: &str, visible_count: usize) -> (r:
        u32)
        ensures
            r == width_in(self@.data, window_id, project_id@, visible_count),
    {
        if let Some(w) = self.data.window(window_id) {
            if let Some(x) = w.project_widths.get(project_id) {
                return *x;
            }
        }
        if visible_count == 0 {
            return u32::MAX;
        }
        if visible_count > 10000 {
            proof {
                assert(FULL_WIDTH as int / visible_count as int == 0) by (nonlinear_arith)
                    requires
                        visible_count > 10000,
                        FULL_WIDTH == 10000,
                ;
            }
            0
        } else {
            FULL_WIDTH / visible_count as u32
        }
    }

    /// The scale that the widths of a window are drawn with, where it is one.
    pub fn get_project_width_scale(&self, window_id: WindowId) -> (r: Option<u32>)
        ensures
            r == match window_in(self@.data, window_id) {
                Some(w) => if w.project_width_scale is Some && w.project_width_scale->0 > 0 {
                    w.project_width_scale
                } else {
                    None
                },
                None => None,
            },
    {
        match self.data.window(window_id) {
            Some(w) => match w.project_width_scale {
                Some(s) => if s > 0 {
                    Some(s)
                } else {
                    None
                },
                None => None,
            },
            None => None,
        }
    }
}

/// Showing or hiding a project twice brings back what every window shows.
pub proof fn toggling_a_project_twice_restores(w: WorkspaceView, window: WindowId, id: Seq<char>)
    ensures
        project_toggled(project_toggled(w, window, id), window, id).data == w.data,
{
    let ids = family(w.data.projects, id);
    if let Some(v) = window_in(w.data, window) {
        let u = edited_window(v, WindowEditView::ToggleAll(ids));
        toggling_all_twice_restores(v, ids);
        if let WindowId::Extra(x) = window {
            extra_at_is_first(w.data.extra_windows, x);
            let i = extra_at(w.data.extra_windows, x)->0;
            extra_at_ignores_update(w.data.extra_windows, i, u, x);
            assert(w.data.extra_windows.update(i, u).update(i, v) =~= w.data.extra_windows);
        }
    }
}

/// Toggling a project hides nothing but that project and its worktrees, and no
/// id that no project has.
pub proof fn toggling_hides_only_what_is_there(
    w: WorkspaceView,
    window: WindowId,
    id: Seq<char>,
    x: Seq<char>,
)
    requires
        !hidden_in(w.data, window, x),
        hidden_in(project_toggled(w, window, id).data, window, x),
    ensures
        has_project(w.data.projects, x),
        x == id || child_ids(w.data.projects, id).contains(x),
{
    toggled_in_its_window(w, window, id);
    let ids = family(w.data.projects, id);
    assert(ids.contains(x));
    in_the_family(w.data.projects, id, x);
}

/// Hiding a parent takes the focus away from a worktree that is hidden with it,
/// and from that alone: the focus of a project that still shows stays.
pub proof fn hidden_worktrees_lose_the_focus(
    w: WorkspaceView,
    f: FocusView,
    window: WindowId,
    id: Seq<char>,
)
    requires
        window_in(w.data, window) is Some,
        has_project(w.data.projects, id),
    ensures
        loses_focus(w, f, window, id) <==> f.focused is Some && !hidden_in(
            w.data,
            window,
            (f.focused->0).0,
        ) && hidden_in(project_toggled(w, window, id).data, window, (f.focused->0).0),
{
    toggled_in_its_window(w, window, id);
    in_the_family(w.data.projects, id, id);
}

/// What a window hides once the project `id` was toggled in it.
proof fn toggled_in_its_window(w: WorkspaceView, window: WindowId, id: Seq<char>)
    ensures
        match window_in(w.data, window) {
            Some(v) => window_in(project_toggled(w, window, id).data, window) == Some(
                edited_window(v, WindowEditView::ToggleAll(family(w.data.projects, id))),
            ),
            None => project_toggled(w, window, id).data == w.data,
        },
{
    if let Some(v) = window_in(w.data, window) {
        if let WindowId::Extra(x) = window {
            extra_at_is_first(w.data.extra_windows, x);
            let i = extra_at(w.data.extra_windows, x)->0;
            let u = edited_window(v, WindowEditView::ToggleAll(family(w.data.projects, id)));
            extra_at_ignores_update(w.data.extra_windows, i, u, x);
        }
    }
}

/// The family of a project: itself, if it is there, and those of its worktrees
/// that are.
pub proof fn in_the_family(ps: Seq<ProjectView>, id: Seq<char>, x: Seq<char>)
    ensures
        family(ps, id).contains(x) <==> has_project(ps, id) && (x == id || child_ids(
            ps,
            id,
        ).contains(x) && has_project(ps, x)),
{
    position_is_first(project_ids(ps), id);
    if let Some(p) = project_in(ps, id) {
        let kept = sifted(p.worktree_ids, project_ids(ps), true);
        sifted_members(p.worktree_ids, project_ids(ps), true);
        let all = family(ps, id);
        assert(all[0] == id);
        if kept.contains(x) {
            let k = choose|k: int| 0 <= k < kept.len() && kept[k] == x;
            assert(all[k + 1] == x);
        }
        if all.contains(x) && x != id {
            let k = choose|k: int| 0 <= k < all.len() && all[k] == x;
            assert(kept[k - 1] == x);
        }
    }
}

/// Hiding a project that shows, with worktrees that show, hides it and every one
/// of them in the window, and changes no other window.
pub proof fn hiding_a_project_hides_its_worktrees(
    w: WorkspaceView,
    window: WindowId,
    other: WindowId,
    id: Seq<char>,
    child: Seq<char>,
)
    requires
        window_in(w.data, window) is Some,
        !hidden_in(w.data, window, id),
        has_project(w.data.projects, id),
        has_project(w.data.projects, child),
        child_ids(w.data.projects, id).contains(child),
        !hidden_in(w.data, window, child),
        other != window,
    ensures
        hidden_in(project_toggled(w, window, id).data, window, id),
        hidden_in(project_toggled(w, window, id).data, window, child),
        window_in(project_toggled(w, window, id).data, other) == window_in(w.data, other),
{
    let ids = family(w.data.projects, id);
    toggled_in_its_window(w, window, id);
    in_the_family(w.data.projects, id, id);
    in_the_family(w.data.projects, id, child);
    editing_one_window_leaves_the_others(
        w.data,
        window,
        other,
        WindowEditView::ToggleAll(ids),
    );
}

} // verus!
