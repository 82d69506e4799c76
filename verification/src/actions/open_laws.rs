//! What opening, renaming and showing projects and terminals comes to.

use crate::actions::focus::{
    brought_to_front, filter_of, focus_on_folder, folder_toggled, path_or_root, shows_terminal,
};
use crate::actions::hook_laws::one_window_is_edited;
use crate::actions::project_open::{
    focus_on_new, pane_added, project_renamed, terminal_added, with_pane,
};
use crate::actions::project_rows::{opened_row, pending_row};
use crate::actions::soft_close_flow::{project_in_id, with_project_lookup};
use crate::actions::soft_close_laws::filled;
use crate::actions::view_laws::projects_are_focused_by_their_terminal;
use crate::collections::lookup;
use crate::focus::FocusView;
use crate::layout::{
    ShellView, fresh_terminal, node_at, slot_path, slot_path_in, terminal_ids, terminal_ids_in,
};
use crate::layout_frames::{
    activating_keeps_terminals, activating_shows_the_way, frame_at, representable, tab_at,
    terminals_are_found,
};
use crate::layout_terminals::activated;
use crate::state::{ProjectView, WindowId, folder_in, project_in, window_in};
use crate::workspace::{WorkspaceView, ws_layout, ws_project};
use crate::wsl::WslView;
use vstd::prelude::*;

verus! {

/// A renamed project has its new name, and is otherwise what it was; no other
/// project changes.
pub proof fn renaming_changes_the_name(
    w: WorkspaceView,
    id: Seq<char>,
    name: Seq<char>,
    other: Seq<char>,
)
    requires
        ws_project(w, id) is Some,
    ensures
        ({
            let v = project_renamed(w, id, name);
            let p = ws_project(w, id)->0;
            let q = ws_project(v, id);
            &&& q is Some
            &&& (q->0).name == name
            &&& (q->0).path == p.path
            &&& (q->0).layout == p.layout
            &&& (q->0).worktree_info == p.worktree_info
            &&& other != id ==> ws_project(v, other) == ws_project(w, other)
            &&& v.data.project_order == w.data.project_order
            &&& w.data_version < u64::MAX ==> v.data_version > w.data_version
        }),
{
    let q = ProjectView { name, ..ws_project(w, id)->0 };
    project_in_id(w.data.projects, id);
    with_project_lookup(w.data.projects, id, q, id);
    with_project_lookup(w.data.projects, id, q, other);
}

/// A new terminal joins its project: all terminals that were there are there
/// still, an empty slot has come in, and the focus is on an empty slot of the
/// project.
pub proof fn a_new_terminal_joins_its_project(
    w: WorkspaceView,
    f: FocusView,
    id: Seq<char>,
    now: u64,
    other: Seq<char>,
)
    requires
        ws_project(w, id) is Some,
    ensures
        ({
            let v = terminal_added(w, id, now);
            let g = focus_on_new(w, f, id);
            let l = ws_layout(v, id);
            &&& l is Some
            &&& slot_path(l->0, None) is Some
            &&& ws_layout(w, id) is Some ==> terminal_ids(l->0) == terminal_ids(
                ws_layout(w, id)->0,
            )
            &&& ws_layout(w, id) is None ==> terminal_ids(l->0).len() == 0
            &&& g.focused is Some
            &&& (g.focused->0).0 == id
            &&& slot_path(l->0, None) == Some((g.focused->0).1)
            &&& !g.modal
            &&& other != id ==> ws_project(v, other) == ws_project(w, other)
        }),
{
    let p = ws_project(w, id)->0;
    let l = with_pane(p.layout, fresh_terminal());
    project_in_id(w.data.projects, id);
    let q = ProjectView { layout: Some(l), ..p };
    with_project_lookup(w.data.projects, id, q, id);
    with_project_lookup(w.data.projects, id, q, other);
    let v = pane_added(w, id, fresh_terminal());
    assert(ws_project(v, id) == Some(q));
    reveal_with_fuel(slot_path_in, 3);
    reveal_with_fuel(terminal_ids_in, 3);
    assert(slot_path(fresh_terminal(), None) == Some(Seq::<usize>::empty()));
    if let Some(old_layout) = p.layout {
        assert(terminal_ids(fresh_terminal()) =~= Seq::<Seq<char>>::empty());
        let cs = seq![old_layout, fresh_terminal()];
        assert(cs[0] == old_layout);
        assert(cs[1] == fresh_terminal());
        let none = Seq::<Seq<char>>::empty();
        assert(terminal_ids_in(cs, 0) =~= none);
        assert(terminal_ids_in(cs, 1) =~= terminal_ids_in(cs, 0) + terminal_ids(cs[0]));
        assert(terminal_ids_in(cs, 2) =~= terminal_ids_in(cs, 1) + terminal_ids(cs[1]));
        assert(none + terminal_ids(old_layout) =~= terminal_ids(old_layout));
        assert(terminal_ids(old_layout) + none =~= terminal_ids(old_layout));
        assert(terminal_ids(l) == terminal_ids_in(cs, 2));
        assert(slot_path_in(cs, None, 2) is Some);
    } else {
        assert(terminal_ids(l) =~= Seq::<Seq<char>>::empty());
    }
    let z = ProjectView { last_activity_at: Some(now), ..q };
    with_project_lookup(v.data.projects, id, z, id);
    with_project_lookup(v.data.projects, id, z, other);
}

/// A project that is added is called as asked, is where it was said to be, and
/// has an empty terminal exactly where one was asked for. One that has yet to
/// come has none.
pub proof fn added_projects_are_as_asked(
    id: Seq<char>,
    name: Seq<char>,
    path: Seq<char>,
    with_terminal: bool,
    wsl: WslView,
)
    ensures
        ({
            let p = opened_row(id, name, path, with_terminal, wsl);
            &&& p.id == id
            &&& p.name == name
            &&& p.path == path
            &&& p.layout is Some == with_terminal
            &&& with_terminal ==> p.layout->0 is Terminal && p.layout->0->terminal_id is None
            &&& p.worktree_info is None
            &&& p.connection_id is None
            &&& !p.is_creating
            &&& !wsl.windows ==> p.default_shell is None
            &&& wsl.windows && lookup(wsl.distros, path) is Some ==> p.default_shell == Some(
                ShellView::Wsl { distro: lookup(wsl.distros, path) },
            )
        }),
        ({
            let p = pending_row(id, name, path);
            &&& p.id == id
            &&& p.name == name
            &&& p.path == path
            &&& p.layout is None
            &&& p.worktree_info is None
        }),
{
}

/// A window filters to the folder that it did not filter to, and filters no more
/// where it did. No other window changes.
pub proof fn folders_are_filtered_and_back(
    w: WorkspaceView,
    window: WindowId,
    folder: Seq<char>,
    elsewhere: WindowId,
)
    requires
        window_in(w.data, window) is Some,
        elsewhere != window,
    ensures
        ({
            let v = folder_toggled(w, window, folder);
            let before = (window_in(w.data, window)->0).folder_filter;
            let after = window_in(v.data, window);
            &&& after is Some
            &&& before == Some(folder) ==> (after->0).folder_filter is None
            &&& before != Some(folder) ==> (after->0).folder_filter == Some(folder)
            &&& (after->0).hidden_project_ids == (window_in(w.data, window)->0).hidden_project_ids
            &&& window_in(v.data, elsewhere) == window_in(w.data, elsewhere)
            &&& v.data.projects == w.data.projects
        }),
{
    one_window_is_edited(
        w.data,
        window,
        crate::windows::WindowEditView::Filter(
            if filter_of(w.data, window) != Some(folder) {
                Some(folder)
            } else {
                None
            },
        ),
        elsewhere,
    );
}

/// A window that filters to a folder is zoomed to no project, and has the focus
/// on the terminal that shows in the folder's first project. One that filters no
/// more keeps its focus.
pub proof fn filtered_windows_focus_the_folder(
    w: WorkspaceView,
    f: FocusView,
    window: WindowId,
    folder: Seq<char>,
    first: Seq<char>,
)
    requires
        folder_in(w.data.folders, folder) is Some,
        (folder_in(w.data.folders, folder)->0).project_ids.len() > 0,
        (folder_in(w.data.folders, folder)->0).project_ids[0] == first,
        project_in(w.data.projects, first) is Some,
        (project_in(w.data.projects, first)->0).layout is Some,
        filled((project_in(w.data.projects, first)->0).layout->0),
    ensures
        ({
            let g = focus_on_folder(w, f, window, folder);
            &&& filter_of(w.data, window) == Some(folder) ==> g == f
            &&& filter_of(w.data, window) != Some(folder) ==> {
                &&& g.focused_project_id is None
                &&& g.focused is Some
                &&& (g.focused->0).0 == first
                &&& node_at(
                    (project_in(w.data.projects, first)->0).layout->0,
                    (g.focused->0).1,
                ) is Some
            }
        }),
{
    let unzoomed = FocusView { focused_project_id: None, individual: false, ..f };
    projects_are_focused_by_their_terminal(w.data.projects, unzoomed, first);
}

/// A terminal that is brought to the front shows: every group of tabs on the way
/// to it has the tab in front that leads on. No terminal goes, and no other
/// project changes.
pub proof fn terminals_come_to_the_front(
    w: WorkspaceView,
    id: Seq<char>,
    t: Seq<char>,
    now: u64,
    k: int,
    other: Seq<char>,
)
    requires
        shows_terminal(w, id, t),
        representable(ws_layout(w, id)->0),
    ensures
        ({
            let l = ws_layout(w, id)->0;
            let path = path_or_root(w, id, t);
            let v = brought_to_front(w, id, t, now);
            let after = ws_layout(v, id);
            &&& after is Some
            &&& node_at(l, path) is Some
            &&& node_at(l, path)->0 is Terminal
            &&& node_at(l, path)->0->terminal_id == Some(t)
            &&& after->0 == activated(l, path)
            &&& terminal_ids(after->0) == terminal_ids(l)
            &&& 0 <= k < path.len() && frame_at(l, path.take(k))->0 is Tabs ==> tab_at(
                after->0,
                path.take(k),
            ) == Some(path[k])
            &&& other != id ==> ws_project(v, other) == ws_project(w, other)
        }),
{
    let p = ws_project(w, id)->0;
    let l = p.layout->0;
    let path = path_or_root(w, id, t);
    project_in_id(w.data.projects, id);
    terminals_are_found(l, t);
    activating_keeps_terminals(l, path);
    if 0 <= k < path.len() {
        activating_shows_the_way(l, path, k);
    }
    let q = ProjectView { layout: Some(activated(l, path)), ..p };
    with_project_lookup(w.data.projects, id, q, id);
    with_project_lookup(w.data.projects, id, q, other);
    let shown = crate::actions::focus::ws_with_layout(w, id, Some(activated(l, path)));
    assert(ws_project(shown, id) == Some(q));
    let z = ProjectView { last_activity_at: Some(now), ..q };
    with_project_lookup(shown.data.projects, id, z, id);
    with_project_lookup(shown.data.projects, id, z, other);
}

} // verus!
