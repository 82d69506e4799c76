//! Adding, opening, deleting and moving projects.

use okena_workspace::actions::project_rows::{
    clone_project_name, expand_tilde, resolve_clone_target, resolve_clone_target_with,
};
use okena_workspace::claims::PathFacts;
use okena_workspace::collections::IdMap;
use okena_workspace::focus::FocusManager;
use okena_workspace::layout::{LayoutNode, ShellType, SplitDirection};
use okena_workspace::state::{
    FolderColor, FolderData, HookTerminalEntry, HookTerminalStatus, HooksConfig, ProjectData,
    WindowId, WindowState, WorkspaceData, WorktreeMetadata, new_project_row,
};
use okena_workspace::workspace::{HookKind, HookTerminalResult, Workspace, WorkspaceCx};
use okena_workspace::wsl::WslFacts;

fn cx() -> WorkspaceCx {
    WorkspaceCx::new(0)
}

fn hooks() -> HooksConfig {
    HooksConfig::default()
}

fn facts() -> PathFacts {
    PathFacts::none()
}

fn make_workspace_data() -> WorkspaceData {
    let mut data = WorkspaceData::empty();
    data.version = 1;
    data.main_window = WindowState::default();
    data
}

fn make_project(id: &str) -> ProjectData {
    new_project_row(
        id.to_string(),
        format!("Project {id}"),
        "/tmp/test".to_string(),
        Some(LayoutNode::new_terminal()),
        None,
    )
}

fn make_worktree_project(id: &str, parent_id: &str) -> ProjectData {
    let mut p = make_project(id);
    p.worktree_info = Some(WorktreeMetadata {
        parent_project_id: parent_id.to_string(),
        color_override: None,
        main_repo_path: "/tmp/repo".to_string(),
        worktree_path: format!("/tmp/worktrees/{id}"),
        branch_name: String::new(),
    });
    p
}

fn data_of(projects: Vec<ProjectData>, order: &[&str]) -> WorkspaceData {
    let mut data = make_workspace_data();
    data.projects = projects;
    data.project_order = order.iter().map(|s| s.to_string()).collect();
    data
}

fn add(ws: &mut Workspace, name: &str, path: &str, terminal: bool, window: WindowId) -> String {
    ws.add_project(
        name.to_string(),
        path.to_string(),
        terminal,
        &WslFacts::none(),
        &facts(),
        &hooks(),
        window,
        &mut cx(),
    )
    .expect("add project")
}

fn terminal(id: &str, away: bool) -> LayoutNode {
    LayoutNode::Terminal {
        terminal_id: Some(id.to_string()),
        minimized: away,
        detached: away,
        shell_type: ShellType::Default,
        zoom_level: 100,
    }
}

fn old_hook() -> HookTerminalEntry {
    HookTerminalEntry {
        label: "on_project_open".to_string(),
        status: HookTerminalStatus::Succeeded,
        hook_type: "on_project_open".to_string(),
        command: "echo old".to_string(),
        cwd: "/tmp".to_string(),
        finished_at: None,
    }
}

#[test]
fn test_delete_project_removes_from_folders() {
    let mut data = data_of(vec![make_project("p1"), make_project("p2")], &["f1"]);
    data.folders = vec![FolderData {
        id: "f1".to_string(),
        name: "Folder".to_string(),
        project_ids: vec!["p1".to_string(), "p2".to_string()],
        folder_color: FolderColor::Default,
    }];
    let mut ws = Workspace::new(data);
    ws.delete_project(&mut FocusManager::new(), "p1", &hooks(), &mut cx());
    assert_eq!(ws.data().folders[0].project_ids, vec!["p2".to_string()]);
}

#[test]
fn test_expand_tilde_with_subpath() {
    let home = dirs::home_dir().unwrap();
    let result = expand_tilde("~/Developer/project");
    assert_eq!(result, format!("{}/Developer/project", home.display()));
}

#[test]
fn test_expand_tilde_home_only() {
    let home = dirs::home_dir().unwrap();
    let result = expand_tilde("~");
    assert_eq!(result, format!("{}", home.display()));
}

#[test]
fn test_expand_tilde_absolute_path_unchanged() {
    assert_eq!(expand_tilde("/usr/local/bin"), "/usr/local/bin");
}

#[test]
fn test_expand_tilde_relative_path_unchanged() {
    assert_eq!(expand_tilde("some/relative/path"), "some/relative/path");
}

#[test]
fn test_expand_tilde_other_user_unchanged() {
    assert_eq!(expand_tilde("~otheruser/path"), "~otheruser/path");
}

#[test]
fn clear_stale_hook_terminals_clears_metadata_and_legacy_layout_id() {
    let mut project = make_project("p1");
    project.layout = Some(LayoutNode::Split {
        direction: SplitDirection::Horizontal,
        sizes: vec![5000, 5000],
        children: vec![
            terminal("layout-terminal", false),
            terminal("stale-hook", true),
        ],
    });
    project
        .hook_terminals
        .insert("stale-hook".to_string(), old_hook());
    project
        .terminal_names
        .insert("stale-hook".to_string(), "Old hook".to_string());
    let mut ws = Workspace::new(data_of(vec![project], &["p1"]));
    let mut host = cx();

    let stale = ws.clear_stale_hook_terminals("p1", &mut host);

    assert_eq!(stale, vec!["stale-hook".to_string()]);
    let project = ws.project("p1").unwrap();
    assert!(project.hook_terminals.is_empty());
    assert!(!project.terminal_names.contains_key("stale-hook"));
    let layout = project.layout.as_ref().unwrap();
    assert!(layout.find_terminal_path("stale-hook").is_none());
    assert!(layout.find_terminal_path("layout-terminal").is_some());
    assert_eq!(layout.collect_terminal_ids(), vec!["layout-terminal"]);
    assert!(matches!(layout, LayoutNode::Terminal { .. }));
}

#[test]
fn clear_stale_hook_terminals_removes_a_legacy_root_leaf() {
    let mut project = make_project("p1");
    project.layout = Some(terminal("stale-hook", false));
    project
        .hook_terminals
        .insert("stale-hook".to_string(), old_hook());
    let mut ws = Workspace::new(data_of(vec![project], &["p1"]));
    ws.clear_stale_hook_terminals("p1", &mut cx());
    assert!(ws.project("p1").unwrap().layout.is_none());
}

#[test]
fn add_project_main_spawn_with_extra_hides_in_extra_only() {
    let mut data = make_workspace_data();
    let extra = WindowState::default();
    let extra_id = extra.id;
    data.extra_windows = vec![extra];
    let mut ws = Workspace::new(data);
    let new_id = add(&mut ws, "p1", "/tmp/p1", false, WindowId::Main);
    assert!(!ws.data().main_window.hidden_project_ids.contains(&new_id));
    let after = ws.data().window(WindowId::Extra(extra_id)).unwrap();
    assert!(after.hidden_project_ids.contains(&new_id));
}

#[test]
fn add_project_extra_spawn_hides_in_main_and_other_extras() {
    let mut data = make_workspace_data();
    let extra_a = WindowState::default();
    let extra_a_id = extra_a.id;
    let extra_b = WindowState::default();
    let extra_b_id = extra_b.id;
    data.extra_windows = vec![extra_a, extra_b];
    let mut ws = Workspace::new(data);
    let new_id = add(&mut ws, "p1", "/tmp/p1", false, WindowId::Extra(extra_a_id));
    assert!(ws.data().main_window.hidden_project_ids.contains(&new_id));
    let after_a = ws.data().window(WindowId::Extra(extra_a_id)).unwrap();
    assert!(!after_a.hidden_project_ids.contains(&new_id));
    let after_b = ws.data().window(WindowId::Extra(extra_b_id)).unwrap();
    assert!(after_b.hidden_project_ids.contains(&new_id));
}

#[test]
fn test_add_project_gpui() {
    let mut ws = Workspace::new(make_workspace_data());
    add(&mut ws, "Test", "/tmp/test", true, WindowId::Main);
    assert_eq!(ws.data().projects.len(), 1);
    assert_eq!(ws.data().projects[0].name, "Test");
    assert!(ws.data().projects[0].layout.is_some());
    assert_eq!(ws.data().project_order.len(), 1);
    assert_eq!(ws.data().project_order[0], ws.data().projects[0].id);
    assert!(ws.data_version() > 0);
}

#[test]
fn test_add_bookmark_project_gpui() {
    let mut ws = Workspace::new(make_workspace_data());
    add(&mut ws, "Bookmark", "/tmp/bm", false, WindowId::Main);
    assert!(ws.data().projects[0].layout.is_none());
}

/// A Windows machine on which `path` lies in Ubuntu.
fn in_ubuntu(path: &str) -> WslFacts {
    let mut wsl = WslFacts::none();
    wsl.windows = true;
    wsl.distros.insert(path.to_string(), "Ubuntu".to_string());
    wsl
}

fn is_ubuntu(shell: &Option<ShellType>) -> bool {
    matches!(shell, Some(ShellType::Wsl { distro: Some(d) }) if d == "Ubuntu")
}

#[test]
fn a_pending_project_gets_the_shell_of_its_distribution() {
    let mut ws = Workspace::new(make_workspace_data());
    for (id, path) in [("a", "/in"), ("b", "/out")] {
        ws.register_pending_project_with(
            id.to_string(),
            id.to_string(),
            path.to_string(),
            &facts(),
            WindowId::Main,
            &mut cx(),
        )
        .unwrap();
        assert!(ws.project(id).unwrap().default_shell.is_none());
        ws.finish_pending_project(id, &in_ubuntu("/in"), &hooks(), &mut cx());
        assert!(ws.project(id).unwrap().layout.is_some());
    }
    assert!(is_ubuntu(&ws.project("a").unwrap().default_shell));
    assert!(ws.project("b").unwrap().default_shell.is_none());
}

#[test]
fn a_new_project_asks_for_its_open_hook() {
    let mut ws = Workspace::new(make_workspace_data());
    let mut host = cx();
    ws.add_project_with(
        "id".to_string(),
        "P".to_string(),
        "/p".to_string(),
        true,
        &in_ubuntu("/p"),
        &facts(),
        &hooks(),
        WindowId::Main,
        &mut host,
    )
    .unwrap();
    assert!(host.notified);
    assert_eq!(host.hooks.len(), 1);
    assert_eq!(host.hooks[0].kind, HookKind::ProjectOpen);
    assert_eq!(host.hooks[0].project_id, "id");
    assert_eq!(host.hooks[0].project_path, "/p");
    assert!(is_ubuntu(&ws.project("id").unwrap().default_shell));
    assert_eq!(ws.project("id").unwrap().space_id, "default");
}

#[test]
fn test_delete_project_gpui() {
    let mut ws = Workspace::new(data_of(
        vec![make_project("p1"), make_project("p2")],
        &["p1", "p2"],
    ));
    let mut host = cx();
    ws.delete_project(&mut FocusManager::new(), "p1", &hooks(), &mut host);
    assert_eq!(ws.data().projects.len(), 1);
    assert_eq!(ws.data().projects[0].id, "p2");
    assert!(!ws.data().project_order.contains(&"p1".to_string()));
    assert_eq!(host.hooks.len(), 1);
    assert_eq!(host.hooks[0].kind, HookKind::ProjectClose);
}

#[test]
fn delete_project_clears_main_window_project_width() {
    let mut data = data_of(vec![make_project("p1"), make_project("p2")], &["p1", "p2"]);
    data.main_window
        .project_widths
        .insert("p1".to_string(), 6000);
    data.main_window
        .project_widths
        .insert("p2".to_string(), 4000);
    let mut ws = Workspace::new(data);
    ws.delete_project(&mut FocusManager::new(), "p1", &hooks(), &mut cx());
    assert!(!ws.data().main_window.project_widths.contains_key("p1"));
    assert!(ws.data().main_window.project_widths.contains_key("p2"));
}

#[test]
fn delete_project_scrubs_extra_window_per_project_state() {
    let mut data = data_of(vec![make_project("p1"), make_project("p2")], &["p1", "p2"]);
    data.main_window
        .project_widths
        .insert("p1".to_string(), 6000);
    data.main_window.hidden_project_ids.insert("p1");
    let mut extra1 = WindowState::default();
    extra1.project_widths.insert("p1".to_string(), 3000);
    extra1.project_widths.insert("p2".to_string(), 7000);
    extra1.hidden_project_ids.insert("p1");
    let mut extra2 = WindowState::default();
    extra2.project_widths.insert("p1".to_string(), 5000);
    extra2.hidden_project_ids.insert("p1");
    extra2.hidden_project_ids.insert("p2");
    data.extra_windows.push(extra1);
    data.extra_windows.push(extra2);
    let mut ws = Workspace::new(data);

    ws.delete_project(&mut FocusManager::new(), "p1", &hooks(), &mut cx());

    assert!(!ws.data().main_window.project_widths.contains_key("p1"));
    assert!(!ws.data().main_window.hidden_project_ids.contains("p1"));
    for extra in &ws.data().extra_windows {
        assert!(!extra.project_widths.contains_key("p1"));
        assert!(!extra.hidden_project_ids.contains("p1"));
    }
    assert!(ws.data().extra_windows[0].project_widths.contains_key("p2"));
    assert!(ws.data().extra_windows[1].hidden_project_ids.contains("p2"));
}

#[test]
fn remove_stale_worktree_scrubs_extra_window_per_project_state() {
    let mut data = data_of(
        vec![
            make_project("parent"),
            make_worktree_project("wt1", "parent"),
        ],
        &["parent"],
    );
    data.main_window
        .project_widths
        .insert("wt1".to_string(), 3500);
    data.main_window.hidden_project_ids.insert("wt1");
    let mut extra = WindowState::default();
    extra.project_widths.insert("wt1".to_string(), 2000);
    extra.hidden_project_ids.insert("wt1");
    data.extra_windows.push(extra);
    let mut ws = Workspace::new(data);

    ws.remove_stale_worktree("wt1");

    assert!(!ws.data().main_window.project_widths.contains_key("wt1"));
    assert!(!ws.data().main_window.hidden_project_ids.contains("wt1"));
    let extra = &ws.data().extra_windows[0];
    assert!(!extra.project_widths.contains_key("wt1"));
    assert!(!extra.hidden_project_ids.contains("wt1"));
}

#[test]
fn test_move_project_gpui() {
    let mut ws = Workspace::new(data_of(
        vec![make_project("p1"), make_project("p2"), make_project("p3")],
        &["p1", "p2", "p3"],
    ));
    ws.move_project("p3", 0, &mut cx());
    assert_eq!(ws.data().project_order, vec!["p3", "p1", "p2"]);
    ws.move_project("p3", 99, &mut cx());
    assert_eq!(ws.data().project_order, vec!["p1", "p2", "p3"]);
}

#[test]
fn test_delete_worktree_removes_from_parent_worktree_ids() {
    let mut parent = make_project("parent");
    parent.worktree_ids = vec!["wt1".to_string(), "wt2".to_string()];
    let mut ws = Workspace::new(data_of(
        vec![
            parent,
            make_worktree_project("wt1", "parent"),
            make_worktree_project("wt2", "parent"),
        ],
        &["parent"],
    ));
    ws.delete_project(&mut FocusManager::new(), "wt1", &hooks(), &mut cx());
    let parent = ws.project("parent").unwrap();
    assert_eq!(parent.worktree_ids, vec!["wt2".to_string()]);
    assert!(!ws.data().project_order.contains(&"wt1".to_string()));
}

#[test]
fn test_delete_parent_rehomes_orphaned_worktrees() {
    let mut parent = make_project("parent");
    parent.worktree_ids = vec!["wt1".to_string(), "wt2".to_string()];
    let mut ws = Workspace::new(data_of(
        vec![
            parent,
            make_worktree_project("wt1", "parent"),
            make_worktree_project("wt2", "parent"),
        ],
        &["parent"],
    ));
    ws.delete_project(&mut FocusManager::new(), "parent", &hooks(), &mut cx());
    assert!(ws.data().project_order.contains(&"wt1".to_string()));
    assert!(ws.data().project_order.contains(&"wt2".to_string()));
    assert!(!ws.data().project_order.contains(&"parent".to_string()));
}

#[test]
fn test_reorder_worktree() {
    let mut parent = make_project("parent");
    parent.worktree_ids = vec!["wt1".to_string(), "wt2".to_string(), "wt3".to_string()];
    let mut ws = Workspace::new(data_of(
        vec![
            parent,
            make_worktree_project("wt1", "parent"),
            make_worktree_project("wt2", "parent"),
            make_worktree_project("wt3", "parent"),
        ],
        &["parent"],
    ));
    ws.reorder_worktree("parent", "wt3", 0, &mut cx());
    let parent = ws.project("parent").unwrap();
    assert_eq!(parent.worktree_ids, vec!["wt3", "wt1", "wt2"]);
}

#[test]
fn test_add_terminal_gpui() {
    let mut ws = Workspace::new(data_of(vec![make_project("p1")], &["p1"]));
    ws.add_terminal(&mut FocusManager::new(), "p1", &mut cx());
    match ws.project("p1").unwrap().layout.as_ref().unwrap() {
        LayoutNode::Split { children, .. } => assert_eq!(children.len(), 2),
        _ => panic!("Expected split after add_terminal"),
    }
}

#[test]
fn a_hook_gets_a_pane_for_its_command() {
    let mut ws = Workspace::new(data_of(vec![make_project("p1")], &["p1"]));
    let mut env: IdMap<String> = IdMap::new();
    env.insert("A".to_string(), "1".to_string());
    ws.add_terminal_with_command("p1", "make", &env, &mut cx());
    match ws.project("p1").unwrap().layout.as_ref().unwrap() {
        LayoutNode::Split { children, .. } => match &children[1] {
            LayoutNode::Terminal {
                shell_type: ShellType::Command { command, env },
                ..
            } => {
                assert_eq!(command, "make");
                assert_eq!(env.get("A").map(|s| s.as_str()), Some("1"));
            }
            other => panic!("{other:?}"),
        },
        other => panic!("{other:?}"),
    }
    let results = vec![HookTerminalResult {
        project_id: "p1".to_string(),
        terminal_id: "t".to_string(),
        label: "open".to_string(),
        hook_type: "on_project_open".to_string(),
        command: "make".to_string(),
        cwd: "/tmp".to_string(),
    }];
    ws.register_hook_results(&results, &mut cx());
    let entry = ws.project("p1").unwrap().hook_terminals.get("t").unwrap();
    assert_eq!(entry.status, HookTerminalStatus::Running);
    assert_eq!(entry.command, "make");
}

#[test]
fn names_and_colors_change() {
    let mut ws = Workspace::new(data_of(
        vec![
            make_project("p1"),
            make_worktree_project("wt1", "p1"),
            make_worktree_project("wt2", "p1"),
        ],
        &["p1"],
    ));
    ws.rename_project("p1", "New".to_string(), &mut cx());
    assert_eq!(ws.project("p1").unwrap().name, "New");
    ws.set_worktree_color_override("wt1", Some(FolderColor::Red), &mut cx());
    ws.set_folder_color("p1", FolderColor::Blue, &mut cx());
    assert_eq!(ws.project("p1").unwrap().folder_color, FolderColor::Blue);
    let info = ws.project("wt1").unwrap().worktree_info.as_ref().unwrap();
    assert_eq!(info.color_override, Some(FolderColor::Red));
}

fn two_rows() -> Workspace {
    Workspace::new(data_of(
        vec![
            make_project("parent"),
            make_worktree_project("wt1", "parent"),
        ],
        &["parent"],
    ))
}

#[test]
fn test_remove_stale_worktree_skips_closing_project() {
    let mut ws = two_rows();
    ws.mark_closing_project_authoritative("wt1");
    ws.remove_stale_worktree("wt1");
    assert!(ws.project("wt1").is_some());
}

#[test]
fn test_remove_stale_worktree_skips_creating_project() {
    let mut ws = two_rows();
    ws.mark_creating_project("wt1");
    ws.remove_stale_worktree("wt1");
    assert!(ws.project("wt1").is_some());
}

#[test]
fn test_remove_stale_worktree_succeeds_when_not_managed() {
    let mut ws = two_rows();
    ws.remove_stale_worktree("wt1");
    assert!(ws.project("wt1").is_none());
}

#[test]
fn clone_target_joins_the_parent_and_the_directory() {
    let target = resolve_clone_target("/home/user/projects", "okena", false).unwrap();
    assert_eq!(target, "/home/user/projects/okena");
    let target = resolve_clone_target("  /home/user/projects ", " okena ", false).unwrap();
    assert_eq!(target, "/home/user/projects/okena");
    let home = Some("/home/me".to_string());
    assert_eq!(
        resolve_clone_target_with(&home, "~", "x", false).unwrap(),
        "/home/me/x"
    );
}

#[test]
fn clone_target_rejects_a_directory_that_is_not_a_plain_name() {
    for directory in ["../escape", "nested/dir", "a\\b", ".", "..", "", "   "] {
        assert!(
            resolve_clone_target("/home/user", directory, false).is_err(),
            "expected rejection for {directory:?}"
        );
    }
    assert!(resolve_clone_target("", "okena", false).is_err());
    assert!(resolve_clone_target(r"C:\parent", "D:", true).is_err());
}

#[test]
fn clone_name_falls_back_to_the_directory() {
    assert_eq!(clone_project_name("My Repo", "okena"), "My Repo");
    assert_eq!(clone_project_name("   ", "okena"), "okena");
    assert_eq!(clone_project_name("", " okena "), "okena");
}

fn pending(ws: &mut Workspace, name: &str, path: &str) -> Result<String, String> {
    ws.register_pending_project(
        name.to_string(),
        path.to_string(),
        &facts(),
        WindowId::Main,
        &mut cx(),
    )
}

#[test]
fn pending_project_gets_no_layout_until_it_is_finished() {
    let mut ws = Workspace::new(make_workspace_data());
    let id = pending(&mut ws, "Okena", "/tmp/okena-clone-target").expect("registers");
    ws.mark_creating_project(&id);
    let project = ws.project(&id).expect("project exists");
    assert!(project.layout.is_none());
    assert!(project.is_creating);

    ws.finish_pending_project(&id, &in_ubuntu("/other"), &hooks(), &mut cx());
    ws.finish_creating_project(&id);
    let project = ws.project(&id).expect("project exists");
    assert!(project.layout.is_some());
    assert!(!project.is_creating);
}

#[test]
fn rolling_back_a_pending_project_drops_it_everywhere() {
    let mut data = make_workspace_data();
    data.folders = vec![FolderData {
        id: "f1".to_string(),
        name: "Folder".to_string(),
        project_ids: vec![],
        folder_color: FolderColor::Default,
    }];
    let mut ws = Workspace::new(data);
    let id = pending(&mut ws, "Okena", "/tmp/okena-clone-rollback").expect("registers");
    ws.mark_creating_project(&id);
    ws.data.folders[0].project_ids.push(id.clone());

    ws.remove_pending_project(&id);
    assert!(ws.project(&id).is_some(), "creating rows are not removed");

    ws.finish_creating_project(&id);
    ws.remove_pending_project(&id);
    assert!(ws.project(&id).is_none());
    assert!(!ws.data().project_order.contains(&id));
    assert!(ws.data().folders[0].project_ids.is_empty());
}

#[test]
fn a_pending_project_cannot_claim_a_path_reserved_by_a_worktree_create() {
    let mut ws = two_rows();
    ws.mark_creating_project("wt1");
    assert!(pending(&mut ws, "Clash", "/tmp/worktrees/wt1/nested").is_err());
}

#[test]
fn root_claim_succeeds_after_create_finishes() {
    let mut ws = two_rows();
    ws.mark_creating_project("wt1");
    assert!(
        ws.ensure_project_path_claim_allowed(&facts(), "/tmp/worktrees/wt1/packages/app")
            .is_err()
    );
    ws.finish_creating_project("wt1");
    assert_eq!(
        ws.ensure_project_path_claim_allowed(&facts(), "/tmp/worktrees/wt1/packages/app"),
        Ok(())
    );
    assert!(!ws.is_creating_project("wt1"));
}

#[test]
fn active_root_lease_rejects_project_and_worktree_registration() {
    let mut parent = make_project("parent");
    parent.path = "/fx/main".to_string();
    let mut container = make_project("container");
    container.path = "/fx".to_string();
    let mut ws = Workspace::new(data_of(vec![parent, container], &["parent", "container"]));

    let active = ws
        .register_worktree_project_deferred_hooks(
            "parent",
            "active",
            "/fx/main",
            "/fx/checkout",
            "/fx/checkout/packages/a",
            &facts(),
            &hooks(),
            WindowId::Main,
            &mut cx(),
        )
        .expect("register active worktree");
    let metadata = ws.project(&active).unwrap().worktree_info.as_ref().unwrap();
    assert_eq!(metadata.worktree_path, "/fx/checkout");
    ws.mark_creating_project(&active);
    let claim = |ws: &mut Workspace| {
        ws.add_project(
            "claim".to_string(),
            "/fx/checkout/packages/b".to_string(),
            false,
            &WslFacts::none(),
            &facts(),
            &hooks(),
            WindowId::Main,
            &mut cx(),
        )
    };
    let add_error = claim(&mut ws).unwrap_err();
    let register_error = ws
        .register_worktree_project_deferred_hooks(
            "parent",
            "other",
            "/fx/main",
            "/fx/checkout/nested",
            "/fx/checkout/nested/project",
            &facts(),
            &hooks(),
            WindowId::Main,
            &mut cx(),
        )
        .unwrap_err();
    let discovered_error = ws
        .add_discovered_worktree(
            "/fx/checkout/discovered",
            "discovered",
            "parent",
            "/fx/main",
            "",
            &facts(),
            WindowId::Main,
        )
        .unwrap_err();
    let rename_error = ws
        .ensure_project_path_mutation_allowed(&facts(), "container", "/fx.moved")
        .unwrap_err();
    ws.finish_creating_project(&active);
    let released = claim(&mut ws).expect("claim succeeds after lease release");

    assert!(add_error.contains("active worktree operation"));
    assert!(register_error.contains("overlaps active operation"));
    assert!(discovered_error.contains("overlaps active operation"));
    assert!(rename_error.contains("overlaps active worktree operation"));
    assert!(ws.project(&released).is_some());
}

#[test]
fn a_discovered_worktree_joins_its_parent() {
    let mut parent = make_project("parent");
    parent.path = "/repo".to_string();
    let mut ws = Workspace::new(data_of(vec![parent], &["parent"]));
    let id = ws
        .add_discovered_worktree(
            "/wts/feature",
            "feature",
            "parent",
            "/repo",
            "",
            &facts(),
            WindowId::Main,
        )
        .expect("discovered");
    let row = ws.project(&id).unwrap();
    assert_eq!(row.name, "feature (feature)");
    assert_eq!(row.path, "/wts/feature");
    let info = row.worktree_info.as_ref().unwrap();
    assert_eq!(info.worktree_path, "/wts/feature");
    let again = ws.add_discovered_worktree(
        "/wts/feature",
        "feature",
        "parent",
        "/repo",
        "",
        &facts(),
        WindowId::Main,
    );
    assert_eq!(
        again.err().as_deref(),
        Some("A worktree for 'feature' already exists")
    );
    assert_eq!(
        ws.prepare_quick_create(&id),
        Some(("/wts/feature".to_string(), Some("/repo".to_string())))
    );
    assert!(ws.prepare_quick_create("gone").is_none());
}

#[test]
fn a_checkout_that_arrives_gets_its_hook() {
    let mut ws = two_rows();
    let mut host = cx();
    ws.add_to_worktree_ids("parent", "wt1");
    assert_eq!(ws.project("parent").unwrap().worktree_ids, vec!["wt1"]);
    ws.fire_worktree_hooks("wt1", &Some("feature".to_string()), &hooks(), &mut host);
    let kinds: Vec<HookKind> = host.hooks.iter().map(|h| h.kind).collect();
    assert!(kinds.contains(&HookKind::WorktreeCreate), "{kinds:?}");
    assert_eq!(host.hooks[0].branch.as_deref(), Some("feature"));
}
