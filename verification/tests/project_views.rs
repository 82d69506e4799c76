//! Which projects a window shows, and how wide.

use okena_workspace::collections::IdMap;
use okena_workspace::focus::FocusManager;
use okena_workspace::layout::LayoutNode;
use okena_workspace::state::{ProjectData, WindowId, WindowState, WorkspaceData, new_project_row};
use okena_workspace::visibility::pick_focus_replacement;
use okena_workspace::workspace::{Workspace, WorkspaceCx};

const UNKNOWN: WindowId = WindowId::Extra(123456789);

fn cx() -> WorkspaceCx {
    WorkspaceCx::new(0)
}

fn make_workspace_data() -> WorkspaceData {
    let mut data = WorkspaceData::empty();
    data.version = 1;
    data.main_window = WindowState::default();
    data
}

fn make_project(id: &str) -> ProjectData {
    new_project_row(
        id.to_string(),
        format!("Project {id}"),
        "/tmp/test".to_string(),
        Some(LayoutNode::new_terminal()),
        None,
    )
}

fn with_projects(ids: &[&str]) -> WorkspaceData {
    let mut data = make_workspace_data();
    data.projects = ids.iter().map(|id| make_project(id)).collect();
    data.project_order = ids.iter().map(|id| id.to_string()).collect();
    data
}

fn widths(entries: &[(&str, u32)]) -> IdMap<u32> {
    let mut map = IdMap::new();
    for (id, w) in entries {
        map.insert(id.to_string(), *w);
    }
    map
}

fn s(v: &[&str]) -> Vec<String> {
    v.iter().map(|x| x.to_string()).collect()
}

#[test]
fn pick_focus_replacement_prefers_next() {
    let before = s(&["a", "b", "c", "d"]);
    let after = s(&["a", "b", "d"]);
    assert_eq!(
        pick_focus_replacement(&before, &after, "c").as_deref(),
        Some("d")
    );
}

#[test]
fn pick_focus_replacement_falls_back_to_previous() {
    let before = s(&["a", "b", "c"]);
    let after = s(&["a", "b"]);
    assert_eq!(
        pick_focus_replacement(&before, &after, "c").as_deref(),
        Some("b")
    );
}

#[test]
fn pick_focus_replacement_skips_other_hidden_neighbors() {
    let before = s(&["a", "b", "c", "d"]);
    let after = s(&["a", "d"]);
    assert_eq!(
        pick_focus_replacement(&before, &after, "b").as_deref(),
        Some("d")
    );
}

#[test]
fn pick_focus_replacement_none_when_alone() {
    let before = s(&["a"]);
    let after: Vec<String> = Vec::new();
    assert_eq!(pick_focus_replacement(&before, &after, "a"), None);
}

#[test]
fn pick_focus_replacement_none_when_id_missing() {
    let before = s(&["a", "b"]);
    let after = s(&["a", "b"]);
    assert_eq!(pick_focus_replacement(&before, &after, "missing"), None);
}

#[test]
fn test_get_project_width() {
    let ws = Workspace::new(make_workspace_data());
    assert_eq!(ws.get_project_width(WindowId::Main, "p1", 4), 2500);
}

#[test]
fn test_get_project_width_custom() {
    let mut data = make_workspace_data();
    data.main_window
        .project_widths
        .insert("p1".to_string(), 6000);
    let ws = Workspace::new(data);
    assert_eq!(ws.get_project_width(WindowId::Main, "p1", 2), 6000);
}

#[test]
fn get_project_width_reads_from_main_window_project_widths() {
    let mut data = make_workspace_data();
    data.main_window
        .project_widths
        .insert("p1".to_string(), 7500);
    let ws = Workspace::new(data);
    assert_eq!(ws.get_project_width(WindowId::Main, "p1", 2), 7500);
}

#[test]
fn get_project_width_extra_reads_from_targeted_window() {
    let mut data = make_workspace_data();
    let mut extra = WindowState::default();
    extra.project_widths.insert("p1".to_string(), 8000);
    let extra_id = extra.id;
    data.extra_windows.push(extra);
    let ws = Workspace::new(data);
    assert_eq!(
        ws.get_project_width(WindowId::Extra(extra_id), "p1", 2),
        8000
    );
    assert_eq!(ws.get_project_width(WindowId::Main, "p1", 2), 5000);
}

#[test]
fn get_project_width_unknown_extra_returns_default() {
    let mut data = make_workspace_data();
    data.main_window
        .project_widths
        .insert("p1".to_string(), 9000);
    let ws = Workspace::new(data);
    assert_eq!(ws.get_project_width(UNKNOWN, "p1", 4), 2500);
}

#[test]
fn is_project_hidden_reads_from_main_window_hidden_project_ids() {
    let mut data = with_projects(&["p1", "p2"]);
    data.main_window.hidden_project_ids.insert("p1");
    let ws = Workspace::new(data);
    assert!(ws.is_project_hidden(WindowId::Main, "p1"));
    assert!(!ws.is_project_hidden(WindowId::Main, "p2"));
    assert!(!ws.is_project_hidden(WindowId::Main, "missing"));
}

#[test]
fn toggle_project_overview_visibility_writes_to_main_window() {
    let mut ws = Workspace::new(with_projects(&["p1"]));
    let mut focus = FocusManager::new();
    ws.toggle_project_overview_visibility(&mut focus, WindowId::Main, "p1", &mut cx());
    assert!(ws.data().main_window.hidden_project_ids.contains("p1"));
    let mut focus = FocusManager::new();
    ws.toggle_project_overview_visibility(&mut focus, WindowId::Main, "p1", &mut cx());
    assert!(!ws.data().main_window.hidden_project_ids.contains("p1"));
}

#[test]
fn toggle_worktree_visibility_writes_to_main_window() {
    let mut ws = Workspace::new(with_projects(&["p1"]));
    ws.toggle_worktree_visibility(WindowId::Main, "p1", &mut cx());
    assert!(ws.data().main_window.hidden_project_ids.contains("p1"));
    ws.toggle_worktree_visibility(WindowId::Main, "p1", &mut cx());
    assert!(!ws.data().main_window.hidden_project_ids.contains("p1"));
}

#[test]
fn toggle_worktree_visibility_bumps_data_version_for_unknown_id() {
    let mut ws = Workspace::new(make_workspace_data());
    let mut host = cx();
    ws.toggle_worktree_visibility(WindowId::Main, "unknown_id", &mut host);
    assert!(
        ws.data()
            .main_window
            .hidden_project_ids
            .contains("unknown_id")
    );
    assert_eq!(ws.data_version(), 1);
    assert!(host.notified);
}

fn three_windows() -> (Workspace, WindowId, u128) {
    let mut data = with_projects(&["p1", "p2"]);
    data.main_window.hidden_project_ids.insert("p2");
    let extra_a = WindowState::default();
    let extra_a_id = extra_a.id;
    let mut extra_b = WindowState::default();
    extra_b.hidden_project_ids.insert("p2");
    let extra_b_id = extra_b.id;
    data.extra_windows = vec![extra_a, extra_b];
    (
        Workspace::new(data),
        WindowId::Extra(extra_a_id),
        extra_b_id,
    )
}

fn only_the_first_extra_hides_p1(ws: &Workspace, extra_b_id: u128) {
    assert!(ws.data().extra_windows[0].hidden_project_ids.contains("p1"));
    assert!(!ws.data().main_window.hidden_project_ids.contains("p1"));
    assert!(!ws.data().extra_windows[1].hidden_project_ids.contains("p1"));
    assert!(ws.data().main_window.hidden_project_ids.contains("p2"));
    assert!(ws.data().extra_windows[1].hidden_project_ids.contains("p2"));
    assert_eq!(extra_b_id, ws.data().extra_windows[1].id);
}

#[test]
fn toggle_worktree_visibility_extra_writes_only_to_targeted_window() {
    let (mut ws, a, b) = three_windows();
    ws.toggle_worktree_visibility(a, "p1", &mut cx());
    only_the_first_extra_hides_p1(&ws, b);
    ws.toggle_worktree_visibility(a, "p1", &mut cx());
    assert!(!ws.data().extra_windows[0].hidden_project_ids.contains("p1"));
}

#[test]
fn toggle_worktree_visibility_unknown_extra_is_silent_noop() {
    let mut data = make_workspace_data();
    data.main_window.hidden_project_ids.insert("p1");
    let mut ws = Workspace::new(data);
    ws.toggle_worktree_visibility(UNKNOWN, "p1", &mut cx());
    assert!(ws.data().main_window.hidden_project_ids.contains("p1"));
    assert_eq!(ws.data_version(), 1);
}

#[test]
fn toggle_project_overview_visibility_unknown_id_is_noop() {
    let mut ws = Workspace::new(make_workspace_data());
    ws.toggle_project_overview_visibility(
        &mut FocusManager::new(),
        WindowId::Main,
        "unknown_id",
        &mut cx(),
    );
    assert!(
        !ws.data()
            .main_window
            .hidden_project_ids
            .contains("unknown_id")
    );
    assert_eq!(ws.data_version(), 0);
}

#[test]
fn toggle_project_overview_visibility_extra_writes_only_to_targeted_window() {
    let (mut ws, a, b) = three_windows();
    ws.toggle_project_overview_visibility(&mut FocusManager::new(), a, "p1", &mut cx());
    only_the_first_extra_hides_p1(&ws, b);
    ws.toggle_project_overview_visibility(&mut FocusManager::new(), a, "p1", &mut cx());
    assert!(!ws.data().extra_windows[0].hidden_project_ids.contains("p1"));
}

#[test]
fn toggle_project_overview_visibility_unknown_extra_is_silent_noop() {
    let mut data = with_projects(&["p1"]);
    data.main_window.hidden_project_ids.insert("p1");
    let mut ws = Workspace::new(data);
    ws.toggle_project_overview_visibility(&mut FocusManager::new(), UNKNOWN, "p1", &mut cx());
    assert!(ws.data().main_window.hidden_project_ids.contains("p1"));
    assert_eq!(ws.data_version(), 1);
}

#[test]
fn update_project_widths_writes_only_to_main_window() {
    let mut ws = Workspace::new(make_workspace_data());
    ws.update_project_widths(
        WindowId::Main,
        &widths(&[("p1", 6000), ("p2", 4000)]),
        &mut cx(),
    );
    assert_eq!(ws.data().main_window.project_widths.get("p1"), Some(&6000));
    assert_eq!(ws.data().main_window.project_widths.get("p2"), Some(&4000));
}

#[test]
fn update_project_widths_preserves_unmentioned_entries() {
    let mut data = make_workspace_data();
    data.main_window.project_widths.insert("p1".to_string(), 50);
    let mut ws = Workspace::new(data);
    ws.update_project_widths(WindowId::Main, &widths(&[("p2", 40)]), &mut cx());
    let kept = &ws.data().main_window.project_widths;
    assert_eq!(kept.get("p1").copied(), Some(50));
    assert_eq!(kept.get("p2").copied(), Some(40));
}

#[test]
fn update_project_widths_with_scale_persists_both_values() {
    let mut ws = Workspace::new(make_workspace_data());
    ws.update_project_widths_with_scale(
        WindowId::Main,
        &widths(&[("p1", 3125)]),
        1600,
        &mut cx(),
    );
    assert_eq!(ws.get_project_width(WindowId::Main, "p1", 1), 3125);
    assert_eq!(ws.get_project_width_scale(WindowId::Main), Some(1600));
    assert_eq!(ws.data_version(), 1);
}

#[test]
fn update_project_widths_bumps_data_version_exactly_once() {
    let mut ws = Workspace::new(make_workspace_data());
    ws.update_project_widths(
        WindowId::Main,
        &widths(&[("p1", 30), ("p2", 40), ("p3", 30)]),
        &mut cx(),
    );
    assert_eq!(ws.data_version(), 1);
}

#[test]
fn update_project_widths_extra_writes_only_to_targeted_window() {
    let mut data = make_workspace_data();
    let extra_a = WindowState::default();
    let extra_a_id = extra_a.id;
    let mut extra_b = WindowState::default();
    let extra_b_id = extra_b.id;
    data.main_window
        .project_widths
        .insert("p1".to_string(), 10000);
    extra_b.project_widths.insert("p1".to_string(), 20000);
    data.extra_windows = vec![extra_a, extra_b];
    let mut ws = Workspace::new(data);

    ws.update_project_widths(
        WindowId::Extra(extra_a_id),
        &widths(&[("p1", 6000), ("p2", 4000)]),
        &mut cx(),
    );

    let d = ws.data();
    assert_eq!(d.extra_windows[0].project_widths.get("p1"), Some(&6000));
    assert_eq!(d.extra_windows[0].project_widths.get("p2"), Some(&4000));
    assert_eq!(d.main_window.project_widths.get("p1"), Some(&10000));
    assert_eq!(d.extra_windows[1].project_widths.get("p1"), Some(&20000));
    assert!(!d.extra_windows[1].project_widths.contains_key("p2"));
    assert!(!d.main_window.project_widths.contains_key("p2"));
    assert_eq!(extra_b_id, d.extra_windows[1].id);
}

#[test]
fn update_project_widths_unknown_extra_is_silent_noop() {
    let mut data = make_workspace_data();
    data.main_window
        .project_widths
        .insert("p1".to_string(), 5000);
    let mut ws = Workspace::new(data);
    ws.update_project_widths(UNKNOWN, &widths(&[("p1", 9900)]), &mut cx());
    assert_eq!(ws.data().main_window.project_widths.get("p1"), Some(&5000));
    assert_eq!(ws.data_version(), 1);
}

#[test]
fn panel_heights_are_kept_by_project() {
    let mut ws = Workspace::new(make_workspace_data());
    let mut host = cx();
    ws.update_service_panel_height("p1", 120, &mut host);
    ws.update_hook_panel_height("p1", 80, &mut host);
    assert_eq!(ws.data().service_panel_heights.get("p1"), Some(&120));
    assert_eq!(ws.data().hook_panel_heights.get("p1"), Some(&80));
    assert_eq!(ws.data_version(), 2);
}

fn focused_project(fm: &FocusManager) -> Option<String> {
    fm.focused_terminal_state().map(|t| t.project_id.clone())
}

#[test]
fn test_hide_focused_project_moves_focus_to_next() {
    let mut ws = Workspace::new(with_projects(&["p1", "p2", "p3"]));
    let mut fm = FocusManager::new();
    ws.set_focused_terminal(&mut fm, "p2".to_string(), vec![], &mut cx());
    ws.toggle_project_overview_visibility(&mut fm, WindowId::Main, "p2", &mut cx());
    assert_eq!(focused_project(&fm).as_deref(), Some("p3"));
}

#[test]
fn test_hide_focused_last_project_falls_back_to_previous() {
    let mut ws = Workspace::new(with_projects(&["p1", "p2"]));
    let mut fm = FocusManager::new();
    ws.set_focused_terminal(&mut fm, "p2".to_string(), vec![], &mut cx());
    ws.toggle_project_overview_visibility(&mut fm, WindowId::Main, "p2", &mut cx());
    assert_eq!(focused_project(&fm).as_deref(), Some("p1"));
}

#[test]
fn test_hide_focused_project_from_modal_keeps_modal_and_redirects_restore() {
    let mut ws = Workspace::new(with_projects(&["p1", "p2", "p3"]));
    let mut fm = FocusManager::new();
    ws.set_focused_terminal(&mut fm, "p2".to_string(), vec![], &mut cx());
    ws.clear_focused_terminal(&mut fm, &mut cx());
    assert!(fm.is_modal());
    ws.toggle_project_overview_visibility(&mut fm, WindowId::Main, "p2", &mut cx());
    assert!(fm.is_modal());

    ws.restore_focused_terminal(&mut fm, &mut cx());
    assert!(!fm.is_modal());
    assert_eq!(focused_project(&fm).as_deref(), Some("p3"));
}

#[test]
fn test_hide_unfocused_project_leaves_focus() {
    let mut ws = Workspace::new(with_projects(&["p1", "p2"]));
    let mut fm = FocusManager::new();
    ws.set_focused_terminal(&mut fm, "p1".to_string(), vec![], &mut cx());
    ws.toggle_project_overview_visibility(&mut fm, WindowId::Main, "p2", &mut cx());
    assert_eq!(focused_project(&fm).as_deref(), Some("p1"));
}

#[test]
fn hiding_a_project_hides_its_worktrees_too() {
    let mut data = with_projects(&["p1", "wt"]);
    data.projects[0].worktree_ids = s(&["wt"]);
    let mut ws = Workspace::new(data);
    let mut fm = FocusManager::new();
    ws.toggle_project_overview_visibility(&mut fm, WindowId::Main, "p1", &mut cx());
    let hidden = &ws.data().main_window.hidden_project_ids;
    assert!(hidden.contains("p1") && hidden.contains("wt"));
    assert_eq!(ws.data_version(), 1);
    ws.toggle_project_overview_visibility(&mut fm, WindowId::Main, "p1", &mut cx());
    let hidden = &ws.data().main_window.hidden_project_ids;
    assert!(!hidden.contains("p1") && !hidden.contains("wt"));
}

#[test]
fn a_worktree_that_is_listed_twice_is_toggled_once() {
    let mut data = with_projects(&["p1", "wt", "p2"]);
    data.projects[0].worktree_ids = s(&["wt", "wt", "p1"]);
    let mut ws = Workspace::new(data);
    let mut fm = FocusManager::new();
    ws.toggle_project_overview_visibility(&mut fm, WindowId::Main, "p1", &mut cx());
    let hidden = &ws.data().main_window.hidden_project_ids;
    assert!(hidden.contains("p1") && hidden.contains("wt") && !hidden.contains("p2"));
    ws.toggle_project_overview_visibility(&mut fm, WindowId::Main, "p1", &mut cx());
    let hidden = &ws.data().main_window.hidden_project_ids;
    assert!(!hidden.contains("p1") && !hidden.contains("wt"));
}

#[test]
fn a_listed_worktree_that_is_gone_is_not_hidden() {
    let mut data = with_projects(&["p1", "wt"]);
    data.projects[0].worktree_ids = s(&["gone", "wt"]);
    let mut ws = Workspace::new(data);
    let mut fm = FocusManager::new();
    ws.toggle_project_overview_visibility(&mut fm, WindowId::Main, "p1", &mut cx());
    let hidden = &ws.data().main_window.hidden_project_ids;
    assert!(hidden.contains("p1") && hidden.contains("wt") && !hidden.contains("gone"));
}

#[test]
fn hiding_a_parent_takes_the_focus_from_its_worktree() {
    let family = || {
        let mut data = with_projects(&["p1", "wt", "p2"]);
        data.projects[0].worktree_ids = s(&["wt"]);
        data.project_order = s(&["p1", "p2"]);
        data
    };
    let on_worktree = |ws: &mut Workspace| {
        let mut fm = FocusManager::new();
        ws.set_focused_terminal(&mut fm, "wt".to_string(), vec![], &mut cx());
        fm
    };
    let mut ws = Workspace::new(family());
    let mut fm = on_worktree(&mut ws);
    ws.toggle_project_overview_visibility(&mut fm, WindowId::Main, "p1", &mut cx());
    assert_eq!(focused_project(&fm).as_deref(), Some("p2"));

    let mut ws = Workspace::new(family());
    let mut fm = on_worktree(&mut ws);
    ws.toggle_project_overview_visibility(&mut fm, UNKNOWN, "p1", &mut cx());
    assert_eq!(focused_project(&fm).as_deref(), Some("wt"));

    let mut data = family();
    data.main_window.hidden_project_ids.insert("wt");
    let mut ws = Workspace::new(data);
    let mut fm = on_worktree(&mut ws);
    ws.toggle_project_overview_visibility(&mut fm, WindowId::Main, "p1", &mut cx());
    assert_eq!(focused_project(&fm).as_deref(), Some("wt"));
}

#[test]
fn an_own_width_needs_no_other_columns() {
    let mut data = make_workspace_data();
    data.main_window.project_widths.insert("p1".to_string(), 6000);
    let ws = Workspace::new(data);
    assert_eq!(ws.get_project_width(WindowId::Main, "p1", 0), 6000);
    assert_eq!(ws.get_project_width(WindowId::Main, "p2", 3), 3333);
}
