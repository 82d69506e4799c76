//! The windows of a client, and bringing them up to date.

use okena_workspace::collections::IdMap;
use okena_workspace::layout::{LayoutNode, ShellType};
use okena_workspace::persistence::window_layout::{
    ClientWindowLayout, WINDOW_LAYOUT_VERSION, WindowLayoutRead, client_presentation,
    load_window_layout_at, migrate_window_layout, wants_legacy_layout, workspace_window_layout,
};
use okena_workspace::state::{WindowState, WorkspaceData, new_project_row};

fn layout_of(version: u32) -> ClientWindowLayout {
    ClientWindowLayout {
        version,
        main_window: WindowState::default(),
        extra_windows: Vec::new(),
        project_layouts: IdMap::new(),
        service_panel_heights: IdMap::new(),
        hook_panel_heights: IdMap::new(),
    }
}

fn terminal(id: &str, minimized: bool, zoom_level: u32) -> LayoutNode {
    LayoutNode::Terminal {
        terminal_id: Some(id.to_string()),
        minimized,
        detached: false,
        shell_type: ShellType::Default,
        zoom_level,
    }
}

fn load(client: ClientWindowLayout, legacy: Option<ClientWindowLayout>) -> Option<ClientWindowLayout> {
    load_window_layout_at(WindowLayoutRead::Parsed(client), legacy)
}

#[test]
fn migrate_window_layout_preserves_visibility() {
    let mut layout = layout_of(1);
    layout
        .main_window
        .hidden_project_ids
        .insert("remote:local-daemon:p1");
    layout.main_window.folder_filter = Some("f1".to_string());
    let mut extra = WindowState::default();
    extra.hidden_project_ids.insert("remote:local-daemon:p2");
    layout.extra_windows.push(extra);

    migrate_window_layout(&mut layout);

    assert_eq!(layout.version, WINDOW_LAYOUT_VERSION);
    assert!(
        layout
            .main_window
            .hidden_project_ids
            .contains("remote:local-daemon:p1")
    );
    assert_eq!(
        layout.main_window.folder_filter.as_deref(),
        Some("remote:local-daemon:f1"),
    );
    assert!(
        layout.extra_windows[0]
            .hidden_project_ids
            .contains("remote:local-daemon:p2")
    );

    let mut current = layout_of(WINDOW_LAYOUT_VERSION);
    current
        .main_window
        .hidden_project_ids
        .insert("remote:local-daemon:p3");
    migrate_window_layout(&mut current);
    assert!(
        current
            .main_window
            .hidden_project_ids
            .contains("remote:local-daemon:p3")
    );
}

#[test]
fn migrate_window_layout_prefixes_legacy_local_refs_for_daemon_mirror() {
    let mut layout = layout_of(1);
    let main = &mut layout.main_window;
    main.hidden_project_ids.insert("p1");
    main.project_widths.insert("p2".to_string(), 40);
    main.folder_filter = Some("f1".to_string());
    main.folder_collapsed.insert("f2".to_string(), true);
    main.hidden_project_ids.insert("remote:server:p3");
    layout
        .project_layouts
        .insert("p1".to_string(), terminal("t1", true, 150));
    layout.service_panel_heights.insert("p1".to_string(), 200);
    layout.hook_panel_heights.insert("p1".to_string(), 160);

    migrate_window_layout(&mut layout);

    let main = &layout.main_window;
    assert!(main.hidden_project_ids.contains("remote:local-daemon:p1"));
    assert!(main.hidden_project_ids.contains("remote:server:p3"));
    assert!(!main.hidden_project_ids.contains("p1"));
    assert_eq!(
        main.project_widths.get("remote:local-daemon:p2").copied(),
        Some(40),
    );
    assert_eq!(
        main.folder_filter.as_deref(),
        Some("remote:local-daemon:f1"),
    );
    assert_eq!(
        main.folder_collapsed.get("remote:local-daemon:f2").copied(),
        Some(true),
    );
    let restored = layout
        .project_layouts
        .get("remote:local-daemon:p1")
        .expect("prefixed project layout");
    assert_eq!(
        restored.collect_terminal_ids(),
        vec!["remote:local-daemon:t1"]
    );
    assert!(restored.same_as(&terminal("remote:local-daemon:t1", true, 150)));
    assert_eq!(
        layout.service_panel_heights.get("remote:local-daemon:p1"),
        Some(&200)
    );
    assert_eq!(
        layout.hook_panel_heights.get("remote:local-daemon:p1"),
        Some(&160)
    );
}

#[test]
fn valid_window_layout_with_no_extras_is_authoritative() {
    let read = WindowLayoutRead::Parsed(layout_of(WINDOW_LAYOUT_VERSION));
    assert!(!wants_legacy_layout(&read));
    let loaded = load_window_layout_at(read, None).unwrap();
    assert!(loaded.extra_windows.is_empty());
}

#[test]
fn valid_empty_window_visibility_is_authoritative() {
    let mut layout = layout_of(WINDOW_LAYOUT_VERSION);
    let extra = WindowState::default();
    let extra_id = extra.id;
    layout.extra_windows.push(extra);

    let mut other = WindowState::new(extra_id);
    other.hidden_project_ids.insert("old");
    let mut legacy = layout_of(WINDOW_LAYOUT_VERSION);
    legacy.extra_windows.push(other);

    let loaded = load(layout, Some(legacy)).unwrap();
    assert_eq!(loaded.extra_windows.len(), 1);
    assert_eq!(loaded.extra_windows[0].id, extra_id);
    assert!(loaded.extra_windows[0].hidden_project_ids.members().is_empty());
}

#[test]
fn v2_migration_restores_project_presentation_without_overwriting_client_state() {
    let mut client_extra = WindowState::default();
    client_extra
        .hidden_project_ids
        .insert("remote:local-daemon:client-hidden");
    let extra_id = client_extra.id;
    let tabs = || LayoutNode::Tabs {
        children: vec![LayoutNode::new_terminal()],
        active_tab: 0,
    };
    let mut client = layout_of(2);
    client.extra_windows.push(client_extra);
    client
        .project_layouts
        .insert("remote:local-daemon:p1".to_string(), tabs());

    let mut legacy_extra = WindowState::new(extra_id);
    legacy_extra
        .hidden_project_ids
        .insert("remote:local-daemon:workspace-hidden");
    let mut legacy = layout_of(WINDOW_LAYOUT_VERSION);
    legacy.extra_windows.push(legacy_extra);
    legacy.project_layouts.insert(
        "remote:local-daemon:p1".to_string(),
        LayoutNode::new_terminal(),
    );
    legacy.project_layouts.insert(
        "remote:local-daemon:p2".to_string(),
        LayoutNode::new_terminal(),
    );
    legacy
        .service_panel_heights
        .insert("remote:local-daemon:p1".to_string(), 240);
    legacy
        .hook_panel_heights
        .insert("remote:local-daemon:p1".to_string(), 180);

    let loaded = load(client, Some(legacy)).unwrap();

    assert_eq!(loaded.extra_windows.len(), 1);
    let hidden = &loaded.extra_windows[0].hidden_project_ids;
    assert!(hidden.contains("remote:local-daemon:client-hidden"));
    assert!(!hidden.contains("remote:local-daemon:workspace-hidden"));
    let p1 = loaded.project_layouts.get("remote:local-daemon:p1").unwrap();
    assert!(p1.same_as(&tabs()));
    let p2 = loaded.project_layouts.get("remote:local-daemon:p2").unwrap();
    assert!(p2.same_as(&LayoutNode::new_terminal()));
    assert_eq!(
        loaded.service_panel_heights.get("remote:local-daemon:p1"),
        Some(&240)
    );
    assert_eq!(
        loaded.hook_panel_heights.get("remote:local-daemon:p1"),
        Some(&180)
    );
}

#[test]
fn missing_window_layout_uses_workspace_migration() {
    let mut legacy = layout_of(0);
    legacy
        .main_window
        .hidden_project_ids
        .insert("remote:local-daemon:old");
    assert!(wants_legacy_layout(&WindowLayoutRead::Missing));
    let loaded = load_window_layout_at(WindowLayoutRead::Missing, Some(legacy)).unwrap();
    assert!(
        loaded
            .main_window
            .hidden_project_ids
            .contains("remote:local-daemon:old")
    );
}

#[test]
fn corrupt_window_layout_does_not_restore_stale_workspace_state() {
    assert!(!wants_legacy_layout(&WindowLayoutRead::Corrupt));
    assert!(load_window_layout_at(WindowLayoutRead::Corrupt, Some(layout_of(3))).is_none());
    assert!(load_window_layout_at(WindowLayoutRead::Unreadable, Some(layout_of(3))).is_none());
}

#[test]
fn the_workspace_tells_a_client_what_it_kept() {
    let mut data = WorkspaceData::empty();
    data.projects.push(new_project_row(
        "p1".to_string(),
        "P".to_string(),
        "/p".to_string(),
        Some(terminal("t1", false, 100)),
        None,
    ));
    data.main_window.hidden_project_ids.insert("p1");
    data.service_panel_heights.insert("p1".to_string(), 12);
    let layout = workspace_window_layout(&data);
    assert_eq!(layout.version, WINDOW_LAYOUT_VERSION);
    assert!(
        layout
            .main_window
            .hidden_project_ids
            .contains("remote:local-daemon:p1")
    );
    assert_eq!(
        layout.service_panel_heights.get("remote:local-daemon:p1"),
        Some(&12)
    );
    let shown = layout.project_layouts.get("remote:local-daemon:p1").unwrap();
    assert_eq!(shown.collect_terminal_ids(), ["remote:local-daemon:t1"]);

    let kept = client_presentation(&data, IdMap::new());
    assert!(kept.main_window.hidden_project_ids.contains("p1"));
    assert_eq!(kept.service_panel_heights.get("p1"), Some(&12));
    assert!(kept.project_layouts.is_empty());
}
