//! Projects of other daemons.

use okena_workspace::collections::IdMap;
use okena_workspace::layout::{LayoutNode, ShellType, SplitDirection};
use okena_workspace::remote_api::{
    ApiHookTerminalEntry, ApiProject, RemoteConnectionConfig, RemoteSnapshot, StateResponse,
};
use okena_workspace::remote_apply::{
    RemoteSyncOutcome, apply_initial_remote_project_visibility, apply_remote_snapshot,
};
use okena_workspace::remote_sync::RemoteSyncState;
use okena_workspace::state::{
    FolderColor, FolderData, HookTerminalEntry, HookTerminalStatus, HooksConfig, SessionLinks,
    WindowId, WindowState, WorkspaceData,
};

const A: &str = "remote:c1:a";

fn config(id: &str) -> RemoteConnectionConfig {
    RemoteConnectionConfig {
        id: id.to_string(),
        name: format!("conn-{id}"),
        host: format!("{id}.example.com"),
        port: 19100,
    }
}

fn api_project(id: &str, layout: Option<LayoutNode>) -> ApiProject {
    ApiProject {
        id: id.to_string(),
        name: format!("proj-{id}"),
        path: format!("/srv/{id}"),
        layout,
        terminal_names: IdMap::new(),
        git_status: None,
        folder_color: FolderColor::Default,
        services: Vec::new(),
        worktree_info: None,
        worktree_ids: Vec::new(),
        session: SessionLinks::default(),
        pinned: false,
        last_activity_at: None,
        default_shell: None,
        hook_terminals: Vec::new(),
        hooks: HooksConfig::default(),
        is_creating: false,
        is_closing: false,
        creating_progress: None,
    }
}

fn terminal(id: &str) -> LayoutNode {
    LayoutNode::Terminal {
        terminal_id: Some(id.to_string()),
        minimized: false,
        detached: false,
        shell_type: ShellType::Default,
        zoom_level: 100,
    }
}

fn snapshot(
    conn: &str,
    projects: Vec<ApiProject>,
    order: &[&str],
    folders: Vec<FolderData>,
) -> RemoteSnapshot {
    RemoteSnapshot {
        config: config(conn),
        state: Some(StateResponse {
            projects,
            project_order: order.iter().map(|s| s.to_string()).collect(),
            folders,
        }),
    }
}

fn silent(conn: &str) -> RemoteSnapshot {
    RemoteSnapshot {
        config: config(conn),
        state: None,
    }
}

fn empty_data() -> WorkspaceData {
    let mut data = WorkspaceData::empty();
    data.main_window = WindowState::default();
    data
}

fn apply(
    data: &mut WorkspaceData,
    rs: &mut RemoteSyncState,
    snapshots: Vec<RemoteSnapshot>,
) -> RemoteSyncOutcome {
    apply_remote_snapshot(data, rs, &snapshots, WindowId::Main)
}

fn sync_layout(
    data: &mut WorkspaceData,
    rs: &mut RemoteSyncState,
    layout: Option<LayoutNode>,
) -> RemoteSyncOutcome {
    let snap = snapshot("c1", vec![api_project("a", layout)], &["a"], vec![]);
    apply(data, rs, vec![snap])
}

fn api_tabs(children: Vec<LayoutNode>, active_tab: usize) -> LayoutNode {
    LayoutNode::Tabs {
        children,
        active_tab,
    }
}

fn split(children: Vec<LayoutNode>) -> LayoutNode {
    LayoutNode::Split {
        direction: SplitDirection::Horizontal,
        sizes: vec![5000; children.len()],
        children,
    }
}

fn active_tab_at(data: &WorkspaceData, path: &[usize]) -> usize {
    match data
        .projects
        .iter()
        .find(|p| p.id == A)
        .and_then(|p| p.layout.as_ref())
        .and_then(|layout| layout.get_at_path(path))
    {
        Some(LayoutNode::Tabs { active_tab, .. }) => *active_tab,
        other => panic!("expected a tab group at {path:?}, got {other:?}"),
    }
}

fn focused(outcome: &RemoteSyncOutcome) -> Vec<(String, Vec<usize>)> {
    outcome
        .focus_targets
        .iter()
        .map(|t| (t.project_id.clone(), t.layout_path.clone()))
        .collect()
}

fn on_a(path: &[usize]) -> Vec<(String, Vec<usize>)> {
    vec![(A.to_string(), path.to_vec())]
}

fn project_ids(data: &WorkspaceData) -> Vec<&str> {
    data.projects.iter().map(|p| p.id.as_str()).collect()
}

fn s(ids: &[&str]) -> Vec<String> {
    ids.iter().map(|i| i.to_string()).collect()
}

#[test]
fn adds_prefixed_projects_in_server_order() {
    let mut data = empty_data();
    let mut rs = RemoteSyncState::new();
    let snap = snapshot(
        "c1",
        vec![
            api_project("a", Some(terminal("ta"))),
            api_project("b", Some(terminal("tb"))),
        ],
        &["a", "b"],
        vec![],
    );
    apply(&mut data, &mut rs, vec![snap]);
    assert_eq!(data.project_order, vec!["remote:c1:a", "remote:c1:b"]);
    assert_eq!(project_ids(&data), vec!["remote:c1:a", "remote:c1:b"]);
    assert_eq!(data.projects[0].connection_id.as_deref(), Some("c1"));
    let layout = data.projects[0].layout.as_ref().unwrap();
    assert_eq!(layout.collect_terminal_ids(), vec!["remote:c1:ta"]);
    assert_eq!(
        rs.snapshot(A).unwrap().host.as_deref(),
        Some("c1.example.com")
    );
}

#[test]
fn applies_pinned_activity_shell_and_prefixed_hook_terminals() {
    let mut data = empty_data();
    let mut rs = RemoteSyncState::new();
    let mut p = api_project("a", Some(terminal("ta")));
    p.pinned = true;
    p.last_activity_at = Some(1_700_000_000_000);
    p.default_shell = Some(ShellType::Default);
    p.hook_terminals = vec![ApiHookTerminalEntry {
        terminal_id: "h1".to_string(),
        entry: HookTerminalEntry {
            label: "on_project_open".to_string(),
            status: HookTerminalStatus::Failed { exit_code: 3 },
            hook_type: "on_project_open".to_string(),
            command: "make".to_string(),
            cwd: "/srv/a".to_string(),
            finished_at: None,
        },
    }];
    apply(&mut data, &mut rs, vec![snapshot("c1", vec![p], &["a"], vec![])]);
    let proj = &data.projects[0];
    assert!(proj.pinned);
    assert_eq!(proj.last_activity_at, Some(1_700_000_000_000));
    assert!(matches!(proj.default_shell, Some(ShellType::Default)));
    let entry = proj.hook_terminals.get("remote:c1:h1").unwrap();
    assert_eq!(entry.command, "make");
    assert_eq!(entry.status, HookTerminalStatus::Failed { exit_code: 3 });
}

#[test]
fn builds_prefixed_folders_from_server_order() {
    let mut data = empty_data();
    let mut rs = RemoteSyncState::new();
    let folder = FolderData {
        id: "f1".to_string(),
        name: "Group".to_string(),
        project_ids: s(&["a"]),
        folder_color: FolderColor::Red,
    };
    let snap = snapshot(
        "c1",
        vec![api_project("a", None), api_project("b", None)],
        &["f1", "b"],
        vec![folder],
    );
    apply(&mut data, &mut rs, vec![snap]);
    assert_eq!(data.project_order, vec!["remote:c1:f1", "remote:c1:b"]);
    assert_eq!(data.folders.len(), 1);
    assert_eq!(data.folders[0].id, "remote:c1:f1");
    assert_eq!(data.folders[0].project_ids, vec!["remote:c1:a"]);
}

#[test]
fn merge_visual_state_preserves_local_presentation_on_resync() {
    let mut data = empty_data();
    let mut rs = RemoteSyncState::new();
    let tabs = || Some(api_tabs(vec![terminal("t1"), terminal("t2")], 0));
    sync_layout(&mut data, &mut rs, tabs());
    match data.projects[0].layout.as_mut() {
        Some(LayoutNode::Tabs {
            active_tab,
            children,
        }) => {
            *active_tab = 1;
            match &mut children[0] {
                LayoutNode::Terminal { zoom_level, .. } => *zoom_level = 150,
                _ => panic!("expected terminal"),
            }
        }
        _ => panic!("expected tabs layout"),
    }
    sync_layout(&mut data, &mut rs, tabs());
    match data.projects[0].layout.as_ref().unwrap() {
        LayoutNode::Tabs {
            active_tab,
            children,
        } => {
            assert_eq!(*active_tab, 1);
            assert!(matches!(
                &children[0],
                LayoutNode::Terminal {
                    zoom_level: 150,
                    ..
                }
            ));
        }
        _ => panic!("expected tabs layout"),
    }
    assert_eq!(data.projects.len(), 1);
}

#[test]
fn reordered_tabs_preserve_selected_terminal_and_terminal_presentation() {
    let mut data = empty_data();
    let mut rs = RemoteSyncState::new();
    sync_layout(
        &mut data,
        &mut rs,
        Some(api_tabs(vec![terminal("t1"), terminal("t2")], 0)),
    );
    match data.projects[0].layout.as_mut() {
        Some(LayoutNode::Tabs {
            children,
            active_tab,
        }) => {
            *active_tab = 0;
            match &mut children[0] {
                LayoutNode::Terminal { zoom_level, .. } => *zoom_level = 150,
                _ => panic!("expected terminal"),
            }
            match &mut children[1] {
                LayoutNode::Terminal { minimized, .. } => *minimized = true,
                _ => panic!("expected terminal"),
            }
        }
        _ => panic!("expected tabs"),
    }
    sync_layout(
        &mut data,
        &mut rs,
        Some(api_tabs(vec![terminal("t2"), terminal("t1")], 1)),
    );
    match data.projects[0].layout.as_ref() {
        Some(LayoutNode::Tabs {
            children,
            active_tab,
        }) => {
            assert_eq!(*active_tab, 1);
            assert!(matches!(
                &children[0],
                LayoutNode::Terminal { terminal_id: Some(id), minimized: true, .. }
                    if id == "remote:c1:t2"
            ));
            assert!(matches!(
                &children[1],
                LayoutNode::Terminal { terminal_id: Some(id), zoom_level: 150, .. }
                    if id == "remote:c1:t1"
            ));
        }
        _ => panic!("expected tabs"),
    }
}

#[test]
fn restores_client_layout_on_first_snapshot() {
    let mut data = empty_data();
    let mut rs = RemoteSyncState::new();
    let mut seeds: IdMap<LayoutNode> = IdMap::new();
    seeds.insert(
        A.to_string(),
        api_tabs(
            vec![
                LayoutNode::from_api_prefixed(&terminal("t1"), "c1"),
                LayoutNode::from_api_prefixed(&terminal("t2"), "c1"),
            ],
            1,
        ),
    );
    rs.seed_project_layouts(seeds);
    sync_layout(
        &mut data,
        &mut rs,
        Some(api_tabs(vec![terminal("t1"), terminal("t2")], 0)),
    );
    assert!(matches!(
        data.projects[0].layout,
        Some(LayoutNode::Tabs { active_tab: 1, .. })
    ));
}

#[test]
fn prunes_stale_remote_projects_when_connection_gone() {
    let mut data = empty_data();
    let mut rs = RemoteSyncState::new();
    let c1 = || snapshot("c1", vec![api_project("a", None)], &["a"], vec![]);
    let c2 = snapshot("c2", vec![api_project("x", None)], &["x"], vec![]);
    apply(&mut data, &mut rs, vec![c1(), c2]);
    assert_eq!(data.projects.len(), 2);
    apply(&mut data, &mut rs, vec![c1()]);
    assert_eq!(project_ids(&data), vec!["remote:c1:a"]);
    assert_eq!(data.project_order, vec!["remote:c1:a"]);
}

#[test]
fn disconnected_connection_removes_its_materialized_projects() {
    let mut data = empty_data();
    let mut rs = RemoteSyncState::new();
    sync_layout(&mut data, &mut rs, None);
    assert_eq!(data.projects.len(), 1);
    apply(&mut data, &mut rs, vec![silent("c1")]);
    assert!(data.projects.is_empty());
    assert!(data.project_order.is_empty());
}

#[test]
fn transient_disconnect_preserves_per_window_visibility_for_reconnect() {
    let mut data = empty_data();
    data.extra_windows = vec![WindowState::default()];
    let mut rs = RemoteSyncState::new();
    let tabs = || Some(api_tabs(vec![terminal("t1"), terminal("t2")], 0));
    sync_layout(&mut data, &mut rs, tabs());
    match data.projects[0].layout.as_mut() {
        Some(LayoutNode::Tabs { active_tab, .. }) => *active_tab = 1,
        _ => panic!("expected tabs"),
    }
    data.main_window.hidden_project_ids.insert(A);
    data.extra_windows[0].hidden_project_ids.insert(A);

    apply(&mut data, &mut rs, vec![silent("c1")]);
    assert!(data.projects.is_empty());
    assert!(rs.preserved_project_layouts().contains_key(A));
    assert!(data.main_window.hidden_project_ids.contains(A));
    assert!(data.extra_windows[0].hidden_project_ids.contains(A));

    sync_layout(&mut data, &mut rs, tabs());
    assert_eq!(data.projects.len(), 1);
    assert!(data.main_window.hidden_project_ids.contains(A));
    assert!(data.extra_windows[0].hidden_project_ids.contains(A));
    assert_eq!(active_tab_at(&data, &[]), 1);
    assert!(rs.preserved_project_layouts().is_empty());
}

#[test]
fn permanent_disconnect_prunes_presentation_and_panel_state() {
    let mut data = empty_data();
    let mut rs = RemoteSyncState::new();
    sync_layout(&mut data, &mut rs, Some(terminal("t1")));
    data.service_panel_heights.insert(A.to_string(), 180);
    data.hook_panel_heights.insert(A.to_string(), 220);
    apply(&mut data, &mut rs, vec![silent("c1")]);
    apply(&mut data, &mut rs, vec![]);
    assert!(rs.preserved_project_layouts().is_empty());
    assert!(!data.service_panel_heights.contains_key(A));
    assert!(!data.hook_panel_heights.contains_key(A));
}

#[test]
fn pending_focus_detects_new_terminal() {
    let mut data = empty_data();
    let mut rs = RemoteSyncState::new();
    sync_layout(&mut data, &mut rs, Some(terminal("t1")));
    rs.queue_focus(WindowId::Main, A, s(&["remote:c1:t1"]));
    let outcome = sync_layout(
        &mut data,
        &mut rs,
        Some(split(vec![terminal("t1"), terminal("t2")])),
    );
    assert_eq!(focused(&outcome), on_a(&[1]));
    assert!(rs.drain_pending_focus(WindowId::Main).is_empty());
}

#[test]
fn no_focus_target_when_no_new_terminal() {
    let mut data = empty_data();
    let mut rs = RemoteSyncState::new();
    sync_layout(&mut data, &mut rs, Some(terminal("t1")));
    rs.queue_focus(WindowId::Main, A, s(&["remote:c1:t1"]));
    let outcome = sync_layout(&mut data, &mut rs, Some(terminal("t1")));
    assert!(outcome.focus_targets.is_empty());
    assert!(rs.drain_pending_focus(WindowId::Main).is_empty());
}

fn closing_t1(data: &mut WorkspaceData, rs: &mut RemoteSyncState) {
    sync_layout(data, rs, Some(split(vec![terminal("t1"), terminal("t2")])));
    rs.queue_close_focus(
        WindowId::Main,
        A,
        s(&["remote:c1:t1"]),
        Some("remote:c1:t2".to_string()),
    );
}

#[test]
fn close_focus_lands_once_the_daemon_applies_the_close() {
    let mut data = empty_data();
    let mut rs = RemoteSyncState::new();
    closing_t1(&mut data, &mut rs);
    let outcome = sync_layout(
        &mut data,
        &mut rs,
        Some(split(vec![terminal("t1"), terminal("t2")])),
    );
    assert!(outcome.focus_targets.is_empty());
    let outcome = sync_layout(&mut data, &mut rs, Some(terminal("t2")));
    assert_eq!(focused(&outcome), on_a(&[]));
    let again = sync_layout(&mut data, &mut rs, Some(terminal("t2")));
    assert!(again.focus_targets.is_empty());
}

#[test]
fn close_focus_falls_back_when_the_intended_terminal_also_went_away() {
    let mut data = empty_data();
    let mut rs = RemoteSyncState::new();
    closing_t1(&mut data, &mut rs);
    let outcome = sync_layout(&mut data, &mut rs, Some(terminal("t3")));
    assert_eq!(focused(&outcome), on_a(&[]));
}

#[test]
fn close_focus_on_an_emptied_project_targets_the_project_itself() {
    let mut data = empty_data();
    let mut rs = RemoteSyncState::new();
    sync_layout(&mut data, &mut rs, Some(terminal("t1")));
    rs.queue_close_focus(WindowId::Main, A, s(&["remote:c1:t1"]), None);
    let outcome = sync_layout(&mut data, &mut rs, None);
    assert_eq!(focused(&outcome), on_a(&[]));
}

#[test]
fn close_focus_is_given_up_on_when_the_close_never_lands() {
    let mut data = empty_data();
    let mut rs = RemoteSyncState::new();
    closing_t1(&mut data, &mut rs);
    for _ in 0..60 {
        let outcome = sync_layout(
            &mut data,
            &mut rs,
            Some(split(vec![terminal("t1"), terminal("t2")])),
        );
        assert!(outcome.focus_targets.is_empty());
    }
    let outcome = sync_layout(&mut data, &mut rs, Some(terminal("t2")));
    assert!(outcome.focus_targets.is_empty());
}

#[test]
fn a_newly_added_tab_is_brought_to_the_front_when_focused() {
    let mut data = empty_data();
    let mut rs = RemoteSyncState::new();
    for _ in 0..2 {
        sync_layout(
            &mut data,
            &mut rs,
            Some(api_tabs(vec![terminal("t1"), terminal("t2")], 1)),
        );
    }
    match data.projects[0].layout.as_mut().expect("layout") {
        LayoutNode::Tabs { active_tab, .. } => *active_tab = 0,
        other => panic!("expected tabs, got {other:?}"),
    }
    rs.queue_focus(WindowId::Main, A, s(&["remote:c1:t1", "remote:c1:t2"]));
    let outcome = sync_layout(
        &mut data,
        &mut rs,
        Some(api_tabs(
            vec![terminal("t1"), terminal("t2"), terminal("t3")],
            2,
        )),
    );
    assert_eq!(focused(&outcome), on_a(&[2]));
    assert_eq!(active_tab_at(&data, &[]), 2);
}

#[test]
fn close_focus_brings_its_tab_to_the_front() {
    let mut data = empty_data();
    let mut rs = RemoteSyncState::new();
    sync_layout(
        &mut data,
        &mut rs,
        Some(split(vec![
            terminal("t1"),
            api_tabs(vec![terminal("t2"), terminal("t3")], 0),
        ])),
    );
    rs.queue_close_focus(
        WindowId::Main,
        A,
        s(&["remote:c1:t1"]),
        Some("remote:c1:t2".to_string()),
    );
    let outcome = sync_layout(
        &mut data,
        &mut rs,
        Some(api_tabs(vec![terminal("t2"), terminal("t3")], 1)),
    );
    assert_eq!(focused(&outcome), on_a(&[0]));
    assert_eq!(active_tab_at(&data, &[]), 0);
}

fn appears(data: &mut WorkspaceData, rs: &mut RemoteSyncState) {
    apply_initial_remote_project_visibility(
        data,
        rs,
        "conn",
        "remote:conn:p1",
        "Project",
        "/repo/project",
    );
}

#[test]
fn initial_visibility_consumes_pending_create_window() {
    let mut data = empty_data();
    data.extra_windows = vec![WindowState::default(), WindowState::default()];
    let spawner = WindowId::Extra(data.extra_windows[0].id);
    let mut rs = RemoteSyncState::new();
    rs.queue_project_visibility(spawner, "conn", "Project", Some("/repo/project"));
    appears(&mut data, &mut rs);
    let id = "remote:conn:p1";
    assert!(data.main_window.hidden_project_ids.contains(id));
    assert!(!data.extra_windows[0].hidden_project_ids.contains(id));
    assert!(data.extra_windows[1].hidden_project_ids.contains(id));
    assert_eq!(
        rs.take_project_visibility("conn", "Project", "/repo/project"),
        None
    );
}

#[test]
fn initial_visibility_without_pending_leaves_project_visible() {
    let mut data = empty_data();
    data.extra_windows = vec![WindowState::default()];
    let mut rs = RemoteSyncState::new();
    appears(&mut data, &mut rs);
    let id = "remote:conn:p1";
    assert!(!data.main_window.hidden_project_ids.contains(id));
    assert!(!data.extra_windows[0].hidden_project_ids.contains(id));
}

fn api_folder(id: &str, project_ids: &[&str]) -> FolderData {
    FolderData {
        id: id.to_string(),
        name: id.to_string(),
        project_ids: project_ids.iter().map(|p| p.to_string()).collect(),
        folder_color: FolderColor::Default,
    }
}

fn two_connections() -> Vec<RemoteSnapshot> {
    vec![
        snapshot(
            "c1",
            vec![api_project("a", Some(terminal("t1"))), api_project("b", None)],
            &["f", "b"],
            vec![api_folder("f", &["a"])],
        ),
        snapshot(
            "c2",
            vec![api_project("a", Some(terminal("t2")))],
            &[],
            vec![],
        ),
    ]
}

#[test]
fn a_second_sync_with_the_same_reports_changes_nothing() {
    let mut data = empty_data();
    let mut rs = RemoteSyncState::new();
    apply(&mut data, &mut rs, two_connections());
    let seen = |data: &WorkspaceData| {
        let ids: Vec<String> = data.projects.iter().map(|p| p.id.clone()).collect();
        format!("{:?} {:?} {:?}", ids, data.project_order, data.folders)
    };
    let once = seen(&data);
    assert_eq!(
        data.project_order,
        vec!["remote:c1:f", "remote:c1:b", "remote:c2:a"]
    );
    let again = apply(&mut data, &mut rs, two_connections());
    assert_eq!(seen(&data), once);
    assert!(again.focus_targets.is_empty());
}

#[test]
fn what_is_away_keeps_its_presentation_while_others_report() {
    let mut data = empty_data();
    let mut rs = RemoteSyncState::new();
    apply(&mut data, &mut rs, two_connections());
    data.main_window.hidden_project_ids.insert("remote:c2:a");
    data.main_window
        .project_widths
        .insert("remote:c2:a".to_string(), 4200);
    data.service_panel_heights
        .insert("remote:c2:a".to_string(), 77);
    let first = two_connections().remove(0);
    apply(&mut data, &mut rs, vec![first, silent("c2")]);
    assert!(data.projects.iter().all(|p| p.id != "remote:c2:a"));
    assert!(data.main_window.hidden_project_ids.contains("remote:c2:a"));
    assert_eq!(data.main_window.project_widths.get("remote:c2:a"), Some(&4200));
    assert_eq!(data.service_panel_heights.get("remote:c2:a"), Some(&77));
    apply(&mut data, &mut rs, two_connections());
    assert!(data.projects.iter().any(|p| p.id == "remote:c2:a"));
}
