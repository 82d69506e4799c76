//! What has the focus.

use okena_workspace::focus::FocusManager;
use okena_workspace::layout::{LayoutNode, ShellType};
use okena_workspace::state::{
    FolderColor, FolderData, ProjectData, WindowId, WindowState, WorkspaceData, new_project_row,
};
use okena_workspace::workspace::{Workspace, WorkspaceCx};

fn cx() -> WorkspaceCx {
    WorkspaceCx::new(0)
}

fn make_workspace_data() -> WorkspaceData {
    let mut data = WorkspaceData::empty();
    data.version = 1;
    data.main_window = WindowState::default();
    data.folders = vec![FolderData {
        id: "f1".to_string(),
        name: "Folder".to_string(),
        project_ids: vec![],
        folder_color: FolderColor::Default,
    }];
    data
}

fn make_bookmark(id: &str) -> ProjectData {
    new_project_row(id.to_string(), id.to_string(), format!("/tmp/{id}"), None, None)
}

fn with_bookmarks(ids: &[&str]) -> Workspace {
    let mut data = make_workspace_data();
    data.projects = ids.iter().map(|id| make_bookmark(id)).collect();
    data.project_order = ids.iter().map(|id| id.to_string()).collect();
    Workspace::new(data)
}

#[test]
fn focusing_a_project_without_terminals_anchors_onto_the_project() {
    let mut ws = with_bookmarks(&["p1", "p2"]);
    let mut fm = FocusManager::new();
    fm.focus_terminal("p1".to_string(), Vec::new());
    ws.set_focused_project(&mut fm, Some("p2".to_string()), &mut cx());
    let focused = fm.focused_terminal_state().expect("focus is anchored");
    assert_eq!(focused.project_id, "p2");
    assert!(focused.layout_path.is_empty());
}

#[test]
fn focusing_an_unknown_project_leaves_focus_alone() {
    let mut ws = with_bookmarks(&["p1"]);
    let mut fm = FocusManager::new();
    fm.focus_terminal("p1".to_string(), Vec::new());
    ws.set_focused_project(&mut fm, Some("ghost".to_string()), &mut cx());
    assert_eq!(
        fm.focused_terminal_state().map(|f| f.project_id.clone()),
        Some("p1".to_string())
    );
}

#[test]
fn toggle_folder_focus_main_writes_to_main_folder_filter() {
    let mut ws = Workspace::new(make_workspace_data());
    let mut fm = FocusManager::new();
    ws.toggle_folder_focus(&mut fm, WindowId::Main, "f1", &mut cx());
    assert_eq!(ws.data().main_window.folder_filter.as_deref(), Some("f1"));
    ws.toggle_folder_focus(&mut fm, WindowId::Main, "f1", &mut cx());
    assert!(ws.data().main_window.folder_filter.is_none());
}

#[test]
fn toggle_folder_focus_extra_writes_only_to_targeted_window() {
    let mut data = make_workspace_data();
    let extra_a = WindowState::default();
    let extra_a_id = extra_a.id;
    let mut extra_b = WindowState::default();
    extra_b.folder_filter = Some("f1".to_string());
    let extra_b_id = extra_b.id;
    data.extra_windows = vec![extra_a, extra_b];
    let mut ws = Workspace::new(data);
    let mut fm = FocusManager::new();
    ws.toggle_folder_focus(&mut fm, WindowId::Extra(extra_a_id), "f1", &mut cx());
    let extras = &ws.data().extra_windows;
    assert_eq!(extras[0].folder_filter.as_deref(), Some("f1"));
    assert!(ws.data().main_window.folder_filter.is_none());
    assert_eq!(extras[1].folder_filter.as_deref(), Some("f1"));
    assert_eq!(extra_b_id, extras[1].id);
}

#[test]
fn toggle_folder_focus_extra_round_trip_uses_extras_own_filter() {
    let mut data = make_workspace_data();
    let extra_a = WindowState::default();
    let extra_a_id = extra_a.id;
    data.extra_windows = vec![extra_a];
    let mut ws = Workspace::new(data);
    let mut fm = FocusManager::new();
    ws.toggle_folder_focus(&mut fm, WindowId::Extra(extra_a_id), "f1", &mut cx());
    assert_eq!(
        ws.data().extra_windows[0].folder_filter.as_deref(),
        Some("f1")
    );
    ws.toggle_folder_focus(&mut fm, WindowId::Extra(extra_a_id), "f1", &mut cx());
    assert!(ws.data().extra_windows[0].folder_filter.is_none());
}

#[test]
fn toggle_folder_focus_unknown_extra_is_silent_noop() {
    let mut data = make_workspace_data();
    data.main_window.folder_filter = Some("f1".to_string());
    let mut ws = Workspace::new(data);
    let mut fm = FocusManager::new();
    let unknown = WindowState::default().id;
    ws.toggle_folder_focus(&mut fm, WindowId::Extra(unknown), "f1", &mut cx());
    assert_eq!(ws.data().main_window.folder_filter.as_deref(), Some("f1"));
    assert!(ws.data_version() >= 1);
}

fn one_terminal() -> Workspace {
    let mut ws = with_bookmarks(&["p1", "p2"]);
    ws.data.projects[1].layout = Some(LayoutNode::Tabs {
        children: vec![
            LayoutNode::new_terminal(),
            LayoutNode::Terminal {
                terminal_id: Some("t".to_string()),
                minimized: false,
                detached: false,
                shell_type: ShellType::Default,
                zoom_level: 100,
            },
        ],
        active_tab: 0,
    });
    ws
}

#[test]
fn a_terminal_is_focused_by_its_id() {
    let mut ws = one_terminal();
    let mut fm = FocusManager::new();
    ws.focus_terminal_by_id(&mut fm, "p2", "t", &mut cx());
    let focused = fm.focused_terminal_state().unwrap();
    assert_eq!(focused.project_id, "p2");
    assert_eq!(focused.layout_path, vec![1]);
    ws.focus_terminal_by_id(&mut fm, "p2", "gone", &mut cx());
    assert_eq!(fm.focused_terminal_state().unwrap().layout_path, vec![1]);
}

#[test]
fn leaving_fullscreen_gives_the_focus_back() {
    let mut ws = one_terminal();
    let mut fm = FocusManager::new();
    ws.set_focused_terminal(&mut fm, "p1".to_string(), vec![], &mut cx());
    ws.set_fullscreen_terminal(&mut fm, "p2".to_string(), "t".to_string(), &mut cx());
    assert_eq!(fm.fullscreen_project_id().map(|p| p.as_str()), Some("p2"));
    ws.exit_fullscreen(&mut fm, &mut cx());
    assert!(fm.fullscreen_project_id().is_none());
    assert_eq!(fm.focused_terminal_state().unwrap().project_id, "p1");
}

#[test]
fn leaving_a_modal_gives_the_focus_back() {
    let mut ws = one_terminal();
    let mut fm = FocusManager::new();
    ws.set_focused_terminal(&mut fm, "p2".to_string(), vec![1], &mut cx());
    ws.clear_focused_terminal(&mut fm, &mut cx());
    assert!(fm.is_modal());
    ws.restore_focused_terminal(&mut fm, &mut cx());
    assert_eq!(fm.focused_terminal_state().unwrap().layout_path, vec![1]);
}

#[test]
fn one_project_can_be_focused_alone() {
    let mut ws = one_terminal();
    let mut fm = FocusManager::new();
    ws.set_focused_project_individual(&mut fm, Some("p2".to_string()), &mut cx());
    assert_eq!(fm.focused_project_id().map(|p| p.as_str()), Some("p2"));
    assert!(fm.is_focus_individual());
    ws.set_focused_project(&mut fm, Some("p2".to_string()), &mut cx());
    assert!(!fm.is_focus_individual());
}
