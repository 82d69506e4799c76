//! Which hooks the host is asked to run, what they are told, and how windows
//! follow what the user does.

use crate::actions::focus::{first_target, zoomed};
use crate::actions::project_open::{
    HookResultView, color_overridden, hook_terminals_cleared, open_asked, results_noted,
};
use crate::actions::project_rows::delete_asked;
use crate::actions::project_view::{
    FULL_WIDTH, focus_taken_over, hidden_toggled, share_of, width_in, widths_set,
};
use crate::actions::soft_close_flow::{
    cut_label, directory_name, display_name, project_in_id, short_cwd, with_project_lookup,
};
use crate::actions::soft_close_laws::filled;
use crate::actions::view_laws::{clearing_takes_the_hook_terminals, started_hooks_are_noted};
use crate::collections::{
    contains_last, keys_of, lookup, lookup_after_remove, lookup_after_store, without,
    without_members,
};
use crate::focus::FocusView;
use crate::layout::{LayoutView, SplitDirection, node_at};
use crate::layout_terminals::appended;
use crate::state::{
    DataView, FolderColor, FolderView, HookTerminalStatus, HooksConfig, ProjectView, WindowId,
    WindowView, WorktreeView, extra_at, project_in, window_in,
};
use crate::windows::{WindowEditView, edited_one_window, edited_window, forgotten};
use crate::workspace::{
    CxView, HookKind, WorkspaceView, folder_holding, folder_of, parent_path, used, ws_project,
};
use vstd::prelude::*;

verus! {

proof fn a_folder_is_found(fs: Seq<FolderView>, id: Seq<char>)
    ensures
        match folder_holding(fs, id) {
            Some(i) => 0 <= i < fs.len() && fs[i].project_ids.contains(id),
            None => forall|i: int|
                0 <= i < fs.len() ==> !(#[trigger] fs[i]).project_ids.contains(id),
        },
    decreases fs.len(),
{
    if fs.len() > 0 {
        a_folder_is_found(fs.drop_last(), id);
        if folder_holding(fs, id) is None {
            assert forall|i: int| 0 <= i < fs.len() implies !(
            #[trigger] fs[i]).project_ids.contains(id) by {
                if i < fs.len() - 1 {
                    assert(fs.drop_last()[i] == fs[i]);
                }
            }
        }
    }
}

/// The folder of a project is one that holds it. A worktree that is in none is
/// in its parent's.
pub proof fn projects_are_in_their_folder(d: DataView, id: Seq<char>)
    ensures
        ({
            let own = exists|i: int|
                0 <= i < d.folders.len() && (#[trigger] d.folders[i]).project_ids.contains(id);
            let p = project_in(d.projects, id);
            let parent = if p is Some && (p->0).worktree_info is Some {
                Some(((p->0).worktree_info->0).parent_project_id)
            } else {
                None
            };
            match folder_of(d, id) {
                Some(x) => {
                    &&& d.folders.contains(x)
                    &&& own ==> x.project_ids.contains(id)
                    &&& !own ==> parent is Some && x.project_ids.contains(parent->0)
                },
                None => {
                    &&& !own
                    &&& parent is Some ==> forall|i: int|
                        0 <= i < d.folders.len() ==> !(
                        #[trigger] d.folders[i]).project_ids.contains(parent->0)
                },
            }
        }),
{
    a_folder_is_found(d.folders, id);
    if let Some(i) = folder_holding(d.folders, id) {
        assert(d.folders[i].project_ids.contains(id));
    }
    if let Some(p) = project_in(d.projects, id) {
        if let Some(wt) = p.worktree_info {
            a_folder_is_found(d.folders, wt.parent_project_id);
        }
    }
}

/// Opening a project runs its open hook: of this project, with its own hooks and
/// the common ones, in its directory, and told of its folder.
pub proof fn opening_runs_the_open_hook(
    w: WorkspaceView,
    c: CxView,
    id: Seq<char>,
    global: HooksConfig,
)
    ensures
        match ws_project(w, id) {
            Some(p) => {
                let hooks = open_asked(w, c, id, global).hooks;
                &&& hooks.drop_last() == c.hooks
                &&& hooks.len() == c.hooks.len() + 1
                &&& hooks.last().kind == HookKind::ProjectOpen
                &&& hooks.last().project_id == id
                &&& hooks.last().project_name == p.name
                &&& hooks.last().project_path == p.path
                &&& hooks.last().project_hooks == p.hooks
                &&& hooks.last().global_hooks == global
                &&& match folder_of(w.data, id) {
                    Some(x) => hooks.last().folder_id == Some(x.id) && hooks.last().folder_name
                        == Some(x.name),
                    None => hooks.last().folder_id is None && hooks.last().folder_name is None,
                }
                &&& open_asked(w, c, id, global).cancelled == c.cancelled
            },
            None => open_asked(w, c, id, global) == c,
        },
{
    project_in_id(w.data.projects, id);
    if ws_project(w, id) is Some {
        assert(open_asked(w, c, id, global).hooks.drop_last() =~= c.hooks);
    }
}

/// Deleting a project cancels every hook that still runs for it, and runs its
/// close hook where the common hooks are known.
pub proof fn deleting_runs_the_close_hook(
    w: WorkspaceView,
    c: CxView,
    id: Seq<char>,
    global: HooksConfig,
    t: Seq<char>,
)
    requires
        ws_project(w, id) is Some,
    ensures
        ({
            let p = ws_project(w, id)->0;
            let told = delete_asked(w, c, id, Some(global));
            &&& told.notified
            &&& told.cancelled.contains(t) <==> c.cancelled.contains(t) || keys_of(
                p.hook_terminals,
            ).contains(t)
            &&& told.hooks.drop_last() == c.hooks
            &&& told.hooks.len() == c.hooks.len() + 1
            &&& told.hooks.last().kind == HookKind::ProjectClose
            &&& told.hooks.last().project_id == id
            &&& told.hooks.last().project_name == p.name
            &&& told.hooks.last().project_path == p.path
            &&& told.hooks.last().project_hooks == p.hooks
            &&& told.hooks.last().global_hooks == global
            &&& delete_asked(w, c, id, None).hooks == c.hooks
            &&& delete_asked(w, c, id, None).cancelled == told.cancelled
            &&& delete_asked(w, c, id, None).notified
        }),
{
    let p = ws_project(w, id)->0;
    project_in_id(w.data.projects, id);
    crate::layout_frames::held_by_either(c.cancelled, keys_of(p.hook_terminals), t);
    assert(delete_asked(w, c, id, Some(global)).hooks.drop_last() =~= c.hooks);
}

/// Every hook terminal that has started is noted in its project, unless a later
/// one has taken its place there.
pub proof fn every_started_hook_is_noted(
    ps: Seq<ProjectView>,
    rs: Seq<HookResultView>,
    n: nat,
    k: int,
)
    requires
        0 <= k < n <= rs.len(),
        project_in(ps, rs[k].project_id) is Some,
        forall|j: int|
            k < j < n ==> (#[trigger] rs[j]).project_id != rs[k].project_id || rs[j].terminal_id
                != rs[k].terminal_id,
    ensures
        ({
            let p = project_in(results_noted(ps, rs, n), rs[k].project_id);
            &&& p is Some
            &&& match lookup((p->0).hook_terminals, rs[k].terminal_id) {
                Some(e) => e.status == HookTerminalStatus::Running && e.command == rs[k].command
                    && e.cwd == rs[k].cwd && e.label == rs[k].label && e.hook_type
                    == rs[k].hook_type,
                None => false,
            }
        }),
    decreases n,
{
    let m = (n - 1) as nat;
    let front = results_noted(ps, rs, m);
    if k == m {
        rows_stay_while_noting(ps, rs, m, rs[k].project_id);
        started_hooks_are_noted(front, rs[k], rs[k].project_id);
    } else {
        every_started_hook_is_noted(ps, rs, m, k);
        let r = rs[m as int];
        if r.project_id == rs[k].project_id {
            let p = project_in(front, r.project_id)->0;
            project_in_id(front, r.project_id);
            let e = crate::actions::project_open::running_entry(r);
            let q = ProjectView {
                hook_terminals: crate::collections::stored(p.hook_terminals, r.terminal_id, e),
                ..p
            };
            with_project_lookup(front, r.project_id, q, r.project_id);
            lookup_after_store(p.hook_terminals, r.terminal_id, e, rs[k].terminal_id);
        } else if project_in(front, r.project_id) is Some {
            started_hooks_are_noted(front, r, rs[k].project_id);
        }
    }
}

proof fn rows_stay_while_noting(
    ps: Seq<ProjectView>,
    rs: Seq<HookResultView>,
    n: nat,
    id: Seq<char>,
)
    requires
        n <= rs.len(),
        project_in(ps, id) is Some,
    ensures
        project_in(results_noted(ps, rs, n), id) is Some,
    decreases n,
{
    if n > 0 {
        let m = (n - 1) as nat;
        rows_stay_while_noting(ps, rs, m, id);
        let front = results_noted(ps, rs, m);
        if project_in(front, rs[m as int].project_id) is Some {
            started_hooks_are_noted(front, rs[m as int], id);
        }
    }
}

/// Clearing the hook terminals of a project leaves the other projects alone.
pub proof fn clearing_hooks_spares_the_others(w: WorkspaceView, id: Seq<char>, other: Seq<char>)
    requires
        ws_project(w, id) is Some,
    ensures
        ({
            let v = hook_terminals_cleared(w, id);
            &&& (ws_project(v, id)->0).hook_terminals.len() == 0
            &&& other != id ==> ws_project(v, other) == ws_project(w, other)
        }),
{
    let p = ws_project(w, id)->0;
    let q = crate::actions::project_open::without_hook_terminals(p);
    project_in_id(w.data.projects, id);
    clearing_takes_the_hook_terminals(p, id);
    with_project_lookup(w.data.projects, id, q, id);
    with_project_lookup(w.data.projects, id, q, other);
}

/// A worktree gets a colour of its own, or loses it; no other project changes.
pub proof fn worktrees_get_their_own_colour(
    w: WorkspaceView,
    id: Seq<char>,
    color: Option<FolderColor>,
    other: Seq<char>,
)
    requires
        ws_project(w, id) is Some,
        (ws_project(w, id)->0).worktree_info is Some,
    ensures
        ({
            let v = color_overridden(w, id, color);
            let q = ws_project(v, id);
            &&& q is Some
            &&& (q->0).worktree_info is Some
            &&& ((q->0).worktree_info->0).color_override == color
            &&& ((q->0).worktree_info->0).parent_project_id == ((ws_project(
                w,
                id,
            )->0).worktree_info->0).parent_project_id
            &&& other != id ==> ws_project(v, other) == ws_project(w, other)
        }),
{
    let p = ws_project(w, id)->0;
    let q = ProjectView {
        worktree_info: Some(WorktreeView { color_override: color, ..p.worktree_info->0 }),
        ..p
    };
    project_in_id(w.data.projects, id);
    with_project_lookup(w.data.projects, id, q, id);
    with_project_lookup(w.data.projects, id, q, other);
}

/// A project that is used is the most recent one, and carries the time; the
/// others keep their turn.
pub proof fn used_projects_are_the_most_recent(
    w: WorkspaceView,
    id: Seq<char>,
    now: u64,
    other: Seq<char>,
)
    ensures
        used(w, id, now).recent_projects.last() == id,
        used(w, id, now).recent_projects.drop_last() == without(w.recent_projects, id),
        !used(w, id, now).recent_projects.drop_last().contains(id),
        other != id ==> used(w, id, now).recent_projects.contains(other)
            == w.recent_projects.contains(other),
        ws_project(w, id) is Some ==> (ws_project(used(w, id, now), id)->0).last_activity_at
            == Some(now),
        other != id ==> ws_project(used(w, id, now), other) == ws_project(w, other),
{
    let s = without(w.recent_projects, id);
    without_members(w.recent_projects, id);
    contains_last(s.push(id));
    assert(s.push(id).drop_last() =~= s);
    if let Some(p) = ws_project(w, id) {
        let q = ProjectView { last_activity_at: Some(now), ..p };
        project_in_id(w.data.projects, id);
        with_project_lookup(w.data.projects, id, q, id);
        with_project_lookup(w.data.projects, id, q, other);
    }
}

/// A window that is zoomed to a project shows it, alone or with its worktrees as
/// asked, fills itself with nothing, and has the focus on a terminal of it.
pub proof fn zooming_shows_the_project(
    ps: Seq<ProjectView>,
    f: FocusView,
    id: Seq<char>,
    individual: bool,
)
    ensures
        ({
            let z = zoomed(ps, f, Some(id), individual);
            &&& z.focused_project_id == Some(id)
            &&& z.individual == individual
            &&& z.fullscreen is None
            &&& project_in(ps, id) is Some && (project_in(ps, id)->0).layout is Some && filled(
                (project_in(ps, id)->0).layout->0,
            ) ==> {
                &&& z.focused is Some
                &&& (z.focused->0).0 == id
                &&& node_at((project_in(ps, id)->0).layout->0, (z.focused->0).1) is Some
                &&& node_at((project_in(ps, id)->0).layout->0, (z.focused->0).1)->0 is Terminal
            }
        }),
        zoomed(ps, f, None, individual).focused_project_id is None,
        zoomed(ps, f, None, individual).fullscreen is None,
        zoomed(ps, f, None, individual).focused == f.focused,
{
    let z = FocusView { fullscreen: None, focused_project_id: Some(id), individual, ..f };
    if project_in(ps, id) is Some && (project_in(ps, id)->0).layout is Some && filled(
        (project_in(ps, id)->0).layout->0,
    ) {
        crate::actions::view_laws::projects_are_focused_by_their_terminal(ps, z, id);
    }
}

/// A modal keeps the keyboard while the focus behind it moves on; without one
/// the new project's terminal gets it. Where nothing takes over, nothing has the
/// focus.
pub proof fn the_focus_moves_on_behind_a_modal(
    ps: Seq<ProjectView>,
    f: FocusView,
    next: Seq<char>,
)
    ensures
        focus_taken_over(ps, f, None).focused is None,
        focus_taken_over(ps, f, None).modal == f.modal,
        f.modal ==> focus_taken_over(ps, f, Some(next)).modal,
        first_target(ps, next) is Some ==> focus_taken_over(ps, f, Some(next)).focused
            == first_target(ps, next),
        focus_taken_over(ps, f, Some(next)).fullscreen == f.fullscreen,
        focus_taken_over(ps, f, Some(next)).focused_project_id == f.focused_project_id,
{
}

/// Toggling a project in a window hides it there where it showed, and shows it
/// where it was hidden; nothing else in that window changes, and no other
/// window.
pub proof fn toggling_changes_one_window(
    w: WorkspaceView,
    window: WindowId,
    id: Seq<char>,
    other: Seq<char>,
    elsewhere: WindowId,
)
    requires
        window_in(w.data, window) is Some,
        elsewhere != window,
        window_in(w.data, elsewhere) is Some,
    ensures
        ({
            let before = window_in(w.data, window)->0;
            let after = window_in(hidden_toggled(w, window, id).data, window);
            &&& after is Some
            &&& (after->0).hidden_project_ids.contains(id) == !before.hidden_project_ids.contains(id)
            &&& other != id ==> (after->0).hidden_project_ids.contains(other)
                == before.hidden_project_ids.contains(other)
            &&& (after->0).project_widths == before.project_widths
            &&& (after->0).folder_filter == before.folder_filter
            &&& window_in(hidden_toggled(w, window, id).data, elsewhere) == window_in(
                w.data,
                elsewhere,
            )
            &&& hidden_toggled(w, window, id).data.projects == w.data.projects
        }),
{
    one_window_is_edited(w.data, window, WindowEditView::Toggle(id), elsewhere);
}

proof fn extra_is_found(ws: Seq<crate::state::WindowView>, x: u128)
    ensures
        match extra_at(ws, x) {
            Some(i) => 0 <= i < ws.len() && ws[i].id == x && forall|j: int|
                0 <= j < i ==> (#[trigger] ws[j]).id != x,
            None => forall|j: int| 0 <= j < ws.len() ==> (#[trigger] ws[j]).id != x,
        },
    decreases ws.len(),
{
    if ws.len() > 0 {
        extra_is_found(ws.drop_last(), x);
        assert forall|j: int| 0 <= j < ws.len() - 1 implies #[trigger] ws[j]
            == ws.drop_last()[j] by {}
    }
}

/// An edit of one window changes that window, as it says, and no other.
pub proof fn one_window_is_edited(
    d: DataView,
    window: WindowId,
    edit: WindowEditView,
    elsewhere: WindowId,
)
    requires
        window_in(d, window) is Some,
        elsewhere != window,
    ensures
        window_in(edited_one_window(d, window, edit), window) == Some(
            edited_window(window_in(d, window)->0, edit),
        ),
        window_in(edited_one_window(d, window, edit), elsewhere) == window_in(d, elsewhere),
{
    let e = edited_one_window(d, window, edit);
    match window {
        WindowId::Main => {},
        WindowId::Extra(x) => {
            extra_is_found(d.extra_windows, x);
            extra_is_found(e.extra_windows, x);
            let i = extra_at(d.extra_windows, x)->0;
            assert(e.extra_windows[i].id == x);
            if let Some(k) = extra_at(e.extra_windows, x) {
                if k < i {
                    assert(e.extra_windows[k].id == d.extra_windows[k].id);
                }
            }
            if let WindowId::Extra(y) = elsewhere {
                extra_is_found(d.extra_windows, y);
                extra_is_found(e.extra_windows, y);
                assert forall|j: int| 0 <= j < d.extra_windows.len() implies (
                #[trigger] e.extra_windows[j]).id == d.extra_windows[j].id by {}
                match extra_at(d.extra_windows, y) {
                    Some(k) => {
                        assert(e.extra_windows[k].id == y);
                        match extra_at(e.extra_windows, y) {
                            Some(m) => {
                                if m < k {
                                    assert(d.extra_windows[m].id != y);
                                }
                                if k < m {
                                    assert(e.extra_windows[k].id != y);
                                }
                            },
                            None => {},
                        }
                    },
                    None => {
                        if let Some(m) = extra_at(e.extra_windows, y) {
                            assert(d.extra_windows[m].id == y);
                        }
                    },
                }
            }
        },
    }
}

/// A column is as wide as it was last made; where it was never made wide, it gets
/// an equal share of the whole.
pub proof fn columns_are_as_wide_as_made(
    d: DataView,
    window: WindowId,
    m: Seq<(Seq<char>, u32)>,
    n: nat,
    id: Seq<char>,
    visible: usize,
)
    requires
        n <= m.len(),
        window_in(d, window) is Some,
    ensures
        width_in(widths_set(d, window, m, n), window, id, visible) == match lookup(
            m.take(n as int),
            id,
        ) {
            Some(x) => x,
            None => width_in(d, window, id, visible),
        },
        window_in(widths_set(d, window, m, n), window) is Some,
    decreases n,
{
    if n == 0 {
        assert(m.take(0) =~= Seq::<(Seq<char>, u32)>::empty());
    } else {
        let k = (n - 1) as nat;
        columns_are_as_wide_as_made(d, window, m, k, id, visible);
        let e = widths_set(d, window, m, k);
        let elsewhere = match window {
            WindowId::Main => WindowId::Extra(0),
            WindowId::Extra(_) => WindowId::Main,
        };
        one_window_is_edited(e, window, WindowEditView::Width(m[n - 1].0, m[n - 1].1), elsewhere);
        lookup_after_store(
            (window_in(e, window)->0).project_widths,
            m[n - 1].0,
            m[n - 1].1,
            id,
        );
        assert(m.take(n as int).drop_last() =~= m.take(n - 1));
        assert(m.take(n as int).last() == m[n - 1]);
    }
}

/// Equal shares fill the whole width as far as whole numbers can, and do not go
/// beyond it.
pub proof fn shares_fill_the_width(visible: usize)
    requires
        visible > 0,
    ensures
        share_of(visible) * visible <= FULL_WIDTH < (share_of(visible) + 1) * visible,
{
    let v = visible as int;
    let q = FULL_WIDTH as int / v;
    assert(0 <= q <= FULL_WIDTH && q * v <= FULL_WIDTH < (q + 1) * v) by (nonlinear_arith)
        requires
            v > 0,
            q == FULL_WIDTH as int / v,
    ;
}

/// A project that is forgotten is hidden in no window and has no width in any;
/// the others are shown as before.
pub proof fn forgotten_projects_leave_no_trace(d: DataView, id: Seq<char>, other: Seq<char>, i: int)
    ensures
        ({
            let e = forgotten(d, id);
            &&& !e.main_window.hidden_project_ids.contains(id)
            &&& lookup(e.main_window.project_widths, id) is None
            &&& lookup(e.service_panel_heights, id) is None
            &&& lookup(e.hook_panel_heights, id) is None
            &&& e.extra_windows.len() == d.extra_windows.len()
            &&& 0 <= i < d.extra_windows.len() ==> {
                &&& !e.extra_windows[i].hidden_project_ids.contains(id)
                &&& lookup(e.extra_windows[i].project_widths, id) is None
                &&& other != id ==> e.extra_windows[i].hidden_project_ids.contains(other)
                    == d.extra_windows[i].hidden_project_ids.contains(other)
                &&& other != id ==> lookup(e.extra_windows[i].project_widths, other) == lookup(
                    d.extra_windows[i].project_widths,
                    other,
                )
            }
            &&& other != id ==> {
                &&& e.main_window.hidden_project_ids.contains(other)
                    == d.main_window.hidden_project_ids.contains(other)
                &&& lookup(e.main_window.project_widths, other) == lookup(
                    d.main_window.project_widths,
                    other,
                )
                &&& lookup(e.service_panel_heights, other) == lookup(
                    d.service_panel_heights,
                    other,
                )
                &&& lookup(e.hook_panel_heights, other) == lookup(d.hook_panel_heights, other)
            }
        }),
{
    lookup_after_remove(d.main_window.project_widths, id, id);
    lookup_after_remove(d.main_window.project_widths, id, other);
    lookup_after_remove(d.service_panel_heights, id, id);
    lookup_after_remove(d.service_panel_heights, id, other);
    lookup_after_remove(d.hook_panel_heights, id, id);
    lookup_after_remove(d.hook_panel_heights, id, other);
    if 0 <= i < d.extra_windows.len() {
        lookup_after_remove(d.extra_windows[i].project_widths, id, id);
        lookup_after_remove(d.extra_windows[i].project_widths, id, other);
    }
}

/// A folder that is forgotten is collapsed in no window, and none filters to it;
/// the others are shown as before, and so are the projects.
pub proof fn forgotten_folders_leave_no_trace(w: WindowView, id: Seq<char>, other: Seq<char>)
    ensures
        ({
            let v = edited_window(w, WindowEditView::ForgetFolder(id));
            &&& lookup(v.folder_collapsed, id) is None
            &&& v.folder_filter != Some(id)
            &&& other != id ==> lookup(v.folder_collapsed, other) == lookup(
                w.folder_collapsed,
                other,
            )
            &&& w.folder_filter != Some(id) ==> v.folder_filter == w.folder_filter
            &&& v.hidden_project_ids == w.hidden_project_ids
            &&& v.project_widths == w.project_widths
        }),
{
    lookup_after_remove(w.folder_collapsed, id, id);
    lookup_after_remove(w.folder_collapsed, id, other);
}

/// A pane that is put back into its group stands last in it, and a group of tabs
/// shows it; the panes that were there stay as they were.
pub proof fn added_panes_come_last(root: LayoutView, node: LayoutView)
    requires
        root matches LayoutView::Tabs { children, .. } ==> children.len() <= usize::MAX,
    ensures
        match (root, appended(root, node)) {
            (
                LayoutView::Tabs { children, .. },
                LayoutView::Tabs { children: after, active_tab },
            ) => {
                &&& after.drop_last() == children
                &&& after.last() == node
                &&& active_tab == after.len() - 1
            },
            (
                LayoutView::Split { direction, children, .. },
                LayoutView::Split { direction: to, children: after, .. },
            ) => {
                &&& to == direction
                &&& after.drop_last() == children
                &&& after.last() == node
            },
            (
                LayoutView::Terminal { .. },
                LayoutView::Split { direction, children, .. },
            ) => {
                &&& direction == SplitDirection::Vertical
                &&& children.len() == 2
                &&& children[0] == root
                &&& children[1] == node
            },
            _ => false,
        },
{
    match root {
        LayoutView::Tabs { children, .. } => {
            assert(children.push(node).drop_last() =~= children);
        },
        LayoutView::Split { children, .. } => {
            assert(children.push(node).drop_last() =~= children);
        },
        LayoutView::Terminal { .. } => {},
    }
}

/// A terminal is shown under the name that it was given; without one, under its
/// title where this tells something, or else under the project's directory.
pub proof fn terminals_are_shown_by_name(
    p: ProjectView,
    t: Seq<char>,
    name: Seq<char>,
    title: Seq<char>,
)
    ensures
        lookup(p.terminal_names, t) == Some(name) ==> display_name(p, t, Some(title)) == name
            && display_name(p, t, None) == name,
        lookup(p.terminal_names, t) is None ==> display_name(p, t, None) == directory_name(p.path),
        lookup(p.terminal_names, t) is None && title.len() > 0 && !title.contains('@') && title
            != "MainThread"@ ==> display_name(p, t, Some(title)) == title,
        lookup(p.terminal_names, t) is None && title.len() == 0 ==> display_name(p, t, Some(title))
            == directory_name(p.path),
{
}

/// What a toast shows fits: a label keeps its start, a directory its end, and what
/// is short is shown whole.
pub proof fn labels_fit_a_toast(label: Seq<char>, path: Seq<char>, home: Seq<char>)
    ensures
        cut_label(label).len() <= 42,
        label.len() <= 42 ==> cut_label(label) == label,
        label.len() > 42 ==> cut_label(label).take(41) == label.take(41),
        short_cwd(path, None).len() <= 30,
        path.len() <= 30 ==> short_cwd(path, None) == path,
        path.len() > 30 ==> short_cwd(path, None).skip(1) == path.skip(path.len() - 29),
        home.len() > 0 ==> short_cwd(home, Some(home)) == "~"@,
        home.len() > 0 && path.len() < 28 ==> short_cwd(home + "/"@ + path, Some(home)) == "~/"@
            + path,
{
    reveal_strlit("\u{2026}");
    reveal_strlit("~");
    reveal_strlit("/");
    reveal_strlit("~/");
    if label.len() > 42 {
        assert(cut_label(label).take(41) =~= label.take(41));
    }
    if path.len() > 30 {
        assert(short_cwd(path, None).skip(1) =~= path.skip(path.len() - 29));
    }
    let whole = home + "/"@ + path;
    let head = home + "/"@;
    assert(whole.take(head.len() as int) =~= head);
    assert("~"@ + whole.skip(home.len() as int) =~= "~/"@ + path);
}

/// A worktree's parent is told by its path.
pub proof fn worktrees_know_their_repository(ps: Seq<ProjectView>, id: Seq<char>, parent: Seq<char>)
    requires
        project_in(ps, id) is Some,
        (project_in(ps, id)->0).worktree_info is Some,
        ((project_in(ps, id)->0).worktree_info->0).parent_project_id == parent,
        project_in(ps, parent) is Some,
    ensures
        parent_path(ps, id) == Some((project_in(ps, parent)->0).path),
{
}

} // verus!
