//! Bringing loaded data back into a consistent state.

use okena_workspace::layout::{LayoutNode, ShellType, SplitDirection};
use okena_workspace::persistence::legacy::{WORKSPACE_VERSION, migrate_workspace};
use okena_workspace::persistence::validate::validate_workspace_data;
use okena_workspace::state::{
    FolderColor, FolderData, HookTerminalEntry, HookTerminalStatus, ProjectData, WorkspaceData,
    WorktreeMetadata, new_project_row,
};
use okena_workspace::wsl::{ResolvedBackend, WslFacts};

fn make_project(id: &str) -> ProjectData {
    new_project_row(
        id.to_string(),
        format!("Project {id}"),
        "/tmp/test".to_string(),
        Some(LayoutNode::new_terminal()),
        None,
    )
}

fn make_worktree_project(id: &str, parent_id: &str) -> ProjectData {
    let mut p = make_project(id);
    p.worktree_info = Some(WorktreeMetadata {
        parent_project_id: parent_id.to_string(),
        color_override: None,
        main_repo_path: "/tmp/repo".to_string(),
        worktree_path: format!("/tmp/worktrees/{id}"),
        branch_name: String::new(),
    });
    p
}

fn make_workspace(
    projects: Vec<ProjectData>,
    order: Vec<&str>,
    folders: Vec<FolderData>,
) -> WorkspaceData {
    let mut data = WorkspaceData::empty();
    data.version = WORKSPACE_VERSION;
    data.projects = projects;
    data.project_order = order.into_iter().map(String::from).collect();
    data.folders = folders;
    data
}

fn folder(id: &str, project_ids: &[&str]) -> FolderData {
    FolderData {
        id: id.to_string(),
        name: "Folder".to_string(),
        project_ids: project_ids.iter().map(|p| p.to_string()).collect(),
        folder_color: FolderColor::Default,
    }
}

fn terminal(id: &str) -> LayoutNode {
    LayoutNode::Terminal {
        terminal_id: Some(id.to_string()),
        minimized: false,
        detached: false,
        shell_type: ShellType::Default,
        zoom_level: 100,
    }
}

#[test]
fn validate_orphaned_project_added_to_order() {
    let mut data = make_workspace(
        vec![make_project("p1"), make_project("p2")],
        vec!["p1"],
        vec![],
    );
    validate_workspace_data(&mut data, false, &WslFacts::none());
    assert!(data.project_order.contains(&"p2".to_string()));
}

#[test]
fn validate_stale_folder_refs_removed() {
    let mut data = make_workspace(
        vec![make_project("p1")],
        vec!["f1", "p1"],
        vec![folder("f1", &["p1", "deleted_project"])],
    );
    validate_workspace_data(&mut data, false, &WslFacts::none());
    assert_eq!(data.folders[0].project_ids, vec!["p1".to_string()]);
}

#[test]
fn validate_invalid_folder_id_removed_from_order() {
    let mut data = make_workspace(
        vec![make_project("p1")],
        vec!["nonexistent_folder", "p1"],
        vec![],
    );
    validate_workspace_data(&mut data, false, &WslFacts::none());
    assert!(
        !data
            .project_order
            .contains(&"nonexistent_folder".to_string())
    );
    assert!(data.project_order.contains(&"p1".to_string()));
}

#[test]
fn validate_clear_terminal_ids() {
    let mut project = make_project("p1");
    project.layout = Some(LayoutNode::Terminal {
        terminal_id: Some("tid1".to_string()),
        minimized: true,
        detached: true,
        shell_type: ShellType::Default,
        zoom_level: 100,
    });
    project
        .service_terminals
        .insert("web".to_string(), "svc-term-1".to_string());
    let mut data = make_workspace(vec![project], vec!["p1"], vec![]);
    validate_workspace_data(&mut data, true, &WslFacts::none());

    match data.projects[0].layout.as_ref().unwrap() {
        LayoutNode::Terminal {
            terminal_id,
            minimized,
            detached,
            ..
        } => {
            assert!(terminal_id.is_none());
            assert!(!minimized);
            assert!(!detached);
        }
        _ => panic!("Expected terminal"),
    }
    assert!(data.projects[0].service_terminals.is_empty());
}

#[test]
fn validate_preserves_hook_terminal_ids() {
    let mut project = make_project("p1");
    project.layout = Some(LayoutNode::Split {
        direction: SplitDirection::Horizontal,
        sizes: vec![7000, 3000],
        children: vec![terminal("regular-term"), terminal("hook-term")],
    });
    project.hook_terminals.insert(
        "hook-term".to_string(),
        HookTerminalEntry {
            label: "on_project_open".to_string(),
            status: HookTerminalStatus::Running,
            hook_type: "on_project_open".to_string(),
            command: "echo hello".to_string(),
            cwd: "/tmp".to_string(),
            finished_at: None,
        },
    );

    let mut data = make_workspace(vec![project], vec!["p1"], vec![]);
    validate_workspace_data(&mut data, true, &WslFacts::none());

    match data.projects[0].layout.as_ref().unwrap() {
        LayoutNode::Split { children, .. } => {
            match &children[0] {
                LayoutNode::Terminal { terminal_id, .. } => assert!(
                    terminal_id.is_none(),
                    "regular terminal ID should be cleared"
                ),
                _ => panic!("Expected terminal"),
            }
            match &children[1] {
                LayoutNode::Terminal { terminal_id, .. } => assert_eq!(
                    terminal_id.as_deref(),
                    Some("hook-term"),
                    "hook terminal ID should be preserved"
                ),
                _ => panic!("Expected terminal"),
            }
        }
        _ => panic!("Expected split"),
    }

    let entry = data.projects[0].hook_terminals.get("hook-term").unwrap();
    assert_eq!(entry.status, HookTerminalStatus::Succeeded);
    assert_eq!(entry.label, "on_project_open");
}

#[test]
fn validate_layout_normalization() {
    let mut project = make_project("p1");
    project.layout = Some(LayoutNode::Split {
        direction: SplitDirection::Horizontal,
        sizes: vec![10000],
        children: vec![LayoutNode::new_terminal()],
    });
    let mut data = make_workspace(vec![project], vec!["p1"], vec![]);
    validate_workspace_data(&mut data, false, &WslFacts::none());
    assert!(matches!(
        data.projects[0].layout,
        Some(LayoutNode::Terminal { .. })
    ));
}

#[test]
fn validate_combined_issues() {
    let mut data = make_workspace(
        vec![make_project("p1"), make_project("p2"), make_project("p3")],
        vec!["bad_folder", "p1"],
        vec![folder("f1", &["p3", "deleted"])],
    );
    data.project_order.push("f1".to_string());

    validate_workspace_data(&mut data, false, &WslFacts::none());

    assert!(!data.project_order.contains(&"bad_folder".to_string()));
    assert!(data.project_order.contains(&"p2".to_string()));
    assert!(data.project_order.contains(&"f1".to_string()));
    assert_eq!(data.folders[0].project_ids, vec!["p3".to_string()]);
}

#[test]
fn migrate_v0_bumps_to_current_version() {
    let mut data = WorkspaceData::empty();
    data.version = 0;
    assert_eq!(migrate_workspace(data).version, WORKSPACE_VERSION);
}

#[test]
fn migrate_current_version_noop() {
    let mut data = WorkspaceData::empty();
    data.version = WORKSPACE_VERSION;
    assert_eq!(migrate_workspace(data).version, WORKSPACE_VERSION);
    let mut later = WorkspaceData::empty();
    later.version = 9;
    assert_eq!(migrate_workspace(later).version, 9);
}

#[test]
fn validate_cleans_orphaned_terminal_metadata() {
    let mut project = make_project("p1");
    project.layout = Some(terminal("t1"));
    for (id, name) in [("t1", "Term 1"), ("t2", "Term 2"), ("t3", "Term 3")] {
        project
            .terminal_names
            .insert(id.to_string(), name.to_string());
    }
    project.hidden_terminals.insert("t2".to_string(), true);

    let mut data = make_workspace(vec![project], vec!["p1"], vec![]);
    validate_workspace_data(&mut data, false, &WslFacts::none());

    assert!(data.projects[0].terminal_names.contains_key("t1"));
    assert!(!data.projects[0].terminal_names.contains_key("t2"));
    assert!(!data.projects[0].terminal_names.contains_key("t3"));
    assert!(!data.projects[0].hidden_terminals.contains_key("t2"));
}

#[test]
fn validate_cleans_all_metadata_when_no_layout() {
    let mut project = make_project("p1");
    project.layout = None;
    project
        .terminal_names
        .insert("t1".to_string(), "Term 1".to_string());
    project
        .terminal_names
        .insert("t2".to_string(), "Term 2".to_string());

    let mut data = make_workspace(vec![project], vec!["p1"], vec![]);
    validate_workspace_data(&mut data, false, &WslFacts::none());
    assert!(data.projects[0].terminal_names.is_empty());
}

#[test]
fn validate_populates_worktree_ids_from_worktree_info() {
    let mut data = make_workspace(
        vec![
            make_project("parent"),
            make_worktree_project("wt1", "parent"),
            make_worktree_project("wt2", "parent"),
        ],
        vec!["parent", "wt1", "wt2"],
        vec![],
    );
    validate_workspace_data(&mut data, false, &WslFacts::none());

    let parent = data.projects.iter().find(|p| p.id == "parent").unwrap();
    assert_eq!(
        parent.worktree_ids,
        vec!["wt1".to_string(), "wt2".to_string()]
    );
}

#[test]
fn children_are_listed_in_the_order_they_were_shown_in() {
    let mut data = make_workspace(
        vec![
            make_project("parent"),
            make_worktree_project("wt1", "parent"),
            make_worktree_project("wt2", "parent"),
            make_worktree_project("wt3", "parent"),
        ],
        vec!["wt3", "parent", "wt1"],
        vec![],
    );
    validate_workspace_data(&mut data, false, &WslFacts::none());
    assert_eq!(data.projects[0].worktree_ids, ["wt3", "wt1", "wt2"]);
    assert_eq!(data.project_order, ["parent"]);
}

#[test]
fn validate_removes_worktrees_from_project_order() {
    let mut data = make_workspace(
        vec![
            make_project("parent"),
            make_worktree_project("wt1", "parent"),
        ],
        vec!["parent", "wt1"],
        vec![],
    );
    validate_workspace_data(&mut data, false, &WslFacts::none());
    assert!(!data.project_order.contains(&"wt1".to_string()));
    assert!(data.project_order.contains(&"parent".to_string()));
}

#[test]
fn validate_removes_worktrees_from_folder_project_ids() {
    let mut data = make_workspace(
        vec![
            make_project("parent"),
            make_worktree_project("wt1", "parent"),
        ],
        vec!["f1"],
        vec![folder("f1", &["parent", "wt1"])],
    );
    validate_workspace_data(&mut data, false, &WslFacts::none());
    assert_eq!(data.folders[0].project_ids, vec!["parent".to_string()]);
}

#[test]
fn validate_preserves_existing_worktree_ids() {
    let mut parent = make_project("parent");
    parent.worktree_ids = vec!["wt2".to_string(), "wt1".to_string()];
    let mut data = make_workspace(
        vec![
            parent,
            make_worktree_project("wt1", "parent"),
            make_worktree_project("wt2", "parent"),
        ],
        vec!["parent"],
        vec![],
    );
    validate_workspace_data(&mut data, false, &WslFacts::none());

    let parent = data.projects.iter().find(|p| p.id == "parent").unwrap();
    assert_eq!(
        parent.worktree_ids,
        vec!["wt2".to_string(), "wt1".to_string()]
    );
}

#[test]
fn windows_forget_what_is_gone() {
    let mut data = make_workspace(vec![make_project("p1")], vec!["p1"], vec![]);
    data.main_window.hidden_project_ids.insert("p1");
    data.main_window.hidden_project_ids.insert("gone");
    data.main_window
        .project_widths
        .insert("gone".to_string(), 5000);
    data.main_window
        .folder_collapsed
        .insert("f9".to_string(), true);
    data.main_window.folder_filter = Some("f9".to_string());
    validate_workspace_data(&mut data, false, &WslFacts::none());
    assert!(data.main_window.hidden_project_ids.contains("p1"));
    assert!(!data.main_window.hidden_project_ids.contains("gone"));
    assert!(data.main_window.project_widths.is_empty());
    assert!(data.main_window.folder_collapsed.is_empty());
    assert!(data.main_window.folder_filter.is_none());
}

/// A Windows machine with Ubuntu, in which `path` lies.
fn ubuntu(path: &str, backend: ResolvedBackend) -> WslFacts {
    let mut wsl = WslFacts::none();
    wsl.windows = true;
    wsl.distros.insert(path.to_string(), "Ubuntu".to_string());
    wsl.backends.insert("Ubuntu".to_string(), backend);
    wsl
}

#[test]
fn projects_in_a_distribution_get_its_shell() {
    let mut own = make_project("own");
    own.default_shell = Some(ShellType::Cmd);
    let mut outside = make_project("outside");
    outside.path = "/elsewhere".to_string();
    let mut data = make_workspace(vec![make_project("p1"), own, outside], vec![], vec![]);
    validate_workspace_data(&mut data, false, &ubuntu("/tmp/test", ResolvedBackend::NoBackend));
    assert!(matches!(
        &data.projects[0].default_shell,
        Some(ShellType::Wsl { distro: Some(d) }) if d == "Ubuntu"
    ));
    assert!(matches!(data.projects[1].default_shell, Some(ShellType::Cmd)));
    assert!(data.projects[2].default_shell.is_none());

    let mut elsewhere = make_workspace(vec![make_project("p1")], vec![], vec![]);
    let mut wsl = ubuntu("/tmp/test", ResolvedBackend::NoBackend);
    wsl.windows = false;
    validate_workspace_data(&mut elsewhere, false, &wsl);
    assert!(elsewhere.projects[0].default_shell.is_none());
}

#[test]
fn terminals_stay_where_the_distribution_keeps_sessions_alive() {
    let cleared = |backend: ResolvedBackend| {
        let mut project = make_project("p1");
        project.layout = Some(terminal("t"));
        project
            .service_terminals
            .insert("web".to_string(), "svc".to_string());
        let mut data = make_workspace(vec![project], vec!["p1"], vec![]);
        validate_workspace_data(&mut data, true, &ubuntu("/tmp/test", backend));
        let p = &data.projects[0];
        (
            p.layout.as_ref().unwrap().collect_terminal_ids().is_empty(),
            p.service_terminals.is_empty(),
        )
    };
    assert_eq!(cleared(ResolvedBackend::NoBackend), (true, true));
    for backend in [ResolvedBackend::Dtach, ResolvedBackend::Tmux, ResolvedBackend::Screen] {
        assert_eq!(cleared(backend), (false, false));
    }
}

#[test]
fn clearing_twice_changes_nothing_more() {
    let mut parent = make_project("p1");
    parent.layout = Some(LayoutNode::Split {
        direction: SplitDirection::Horizontal,
        sizes: vec![7000, 3000],
        children: vec![terminal("hook"), terminal("shell")],
    });
    parent
        .terminal_names
        .insert("hook".to_string(), "Hook".to_string());
    parent.hook_terminals.insert(
        "hook".to_string(),
        HookTerminalEntry {
            label: "hook".to_string(),
            status: HookTerminalStatus::Running,
            hook_type: "on_project_open".to_string(),
            command: "true".to_string(),
            cwd: "/tmp".to_string(),
            finished_at: None,
        },
    );
    let child = make_worktree_project("wt", "p1");
    let mut data = make_workspace(vec![parent, child], vec!["wt", "gone"], vec![folder("f", &["p1"])]);
    let seen = |data: &WorkspaceData| {
        let p = &data.projects[0];
        format!(
            "{:?} {:?} {:?} {:?} {:?} {:?}",
            data.project_order,
            data.folders,
            p.worktree_ids,
            p.terminal_names,
            p.layout,
            p.hook_terminals
        )
    };
    validate_workspace_data(&mut data, true, &WslFacts::none());
    let once = seen(&data);
    assert_eq!(data.projects[0].worktree_ids, vec!["wt".to_string()]);
    validate_workspace_data(&mut data, true, &WslFacts::none());
    assert_eq!(seen(&data), once);
    validate_workspace_data(&mut data, false, &WslFacts::none());
    assert_eq!(seen(&data), once);
}
