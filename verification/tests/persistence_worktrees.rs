//! Bringing the data in line with what is on disk.

use okena_workspace::collections::IdMap;
use okena_workspace::layout::{LayoutNode, ShellType};
use okena_workspace::persistence::worktrees::{
    DiskFacts, PathList, TerminalSessionTeardown, TerminalTeardownRoute,
    registered_checkout_root, sync_worktrees_with_backend_and_shell, teardown_route,
    worktree_checkout_path,
};
use okena_workspace::state::{
    FolderColor, FolderData, HookTerminalEntry, HookTerminalStatus, ProjectData, WorkspaceData,
    WorktreeMetadata, new_project_row,
};
use okena_workspace::wsl::{ResolvedBackend, WslFacts};

fn make_project(id: &str) -> ProjectData {
    new_project_row(
        id.to_string(),
        format!("Project {id}"),
        "/tmp/test".to_string(),
        Some(LayoutNode::new_terminal()),
        None,
    )
}

fn worktree_info(parent: &str, repo: &str, root: &str) -> Option<WorktreeMetadata> {
    Some(WorktreeMetadata {
        parent_project_id: parent.to_string(),
        color_override: None,
        main_repo_path: repo.to_string(),
        worktree_path: root.to_string(),
        branch_name: "some-branch".to_string(),
    })
}

fn make_workspace(
    projects: Vec<ProjectData>,
    order: Vec<&str>,
    folders: Vec<FolderData>,
) -> WorkspaceData {
    let mut data = WorkspaceData::empty();
    data.projects = projects;
    data.project_order = order.into_iter().map(String::from).collect();
    data.folders = folders;
    data
}

fn disk(existing: &[&str], complete: &[&str]) -> DiskFacts {
    DiskFacts {
        existing: existing.iter().map(|p| p.to_string()).collect(),
        complete: complete.iter().map(|p| p.to_string()).collect(),
        registries: IdMap::new(),
        wsl: WslFacts::none(),
    }
}

fn registry(facts: &mut DiskFacts, repo: &str, paths: &[&str]) {
    facts.registries.insert(
        repo.to_string(),
        PathList {
            paths: paths.iter().map(|p| p.to_string()).collect(),
        },
    );
}

fn sync(data: &mut WorkspaceData, facts: &DiskFacts) -> Vec<TerminalSessionTeardown> {
    sync_worktrees_with_backend_and_shell(data, facts, &ShellType::Default)
}

fn has(data: &WorkspaceData, id: &str) -> bool {
    data.projects.iter().any(|p| p.id == id)
}

fn row<'a>(data: &'a WorkspaceData, id: &str) -> &'a ProjectData {
    data.projects.iter().find(|p| p.id == id).expect("kept")
}

fn hook() -> HookTerminalEntry {
    HookTerminalEntry {
        label: "hook".to_string(),
        status: HookTerminalStatus::Succeeded,
        hook_type: "on_project_open".to_string(),
        command: "echo hook".to_string(),
        cwd: "/tmp".to_string(),
        finished_at: None,
    }
}

fn terminal(id: &str, shell_type: ShellType) -> LayoutNode {
    LayoutNode::Terminal {
        terminal_id: Some(id.to_string()),
        minimized: false,
        detached: false,
        shell_type,
        zoom_level: 100,
    }
}

#[test]
fn sync_worktrees_cleans_up_stale_worktree_projects() {
    let mut wt = make_project("wt1");
    wt.path = "/nonexistent/path/that/does/not/exist".to_string();
    wt.worktree_info = worktree_info("p1", "/tmp/test", "");
    let mut data = make_workspace(vec![make_project("p1"), wt], vec!["p1", "wt1"], vec![]);

    sync(&mut data, &disk(&[], &[]));

    assert_eq!(data.projects.len(), 1);
    assert_eq!(data.projects[0].id, "p1");
    assert!(!data.project_order.contains(&"wt1".to_string()));
}

#[test]
fn sync_worktrees_cleans_up_stale_worktree_from_folders() {
    let mut wt = make_project("wt1");
    wt.path = "/nonexistent/path".to_string();
    wt.worktree_info = worktree_info("p1", "/tmp/test", "");
    let mut data = make_workspace(
        vec![make_project("p1"), wt],
        vec!["f1"],
        vec![FolderData {
            id: "f1".to_string(),
            name: "Folder".to_string(),
            project_ids: vec!["p1".to_string(), "wt1".to_string()],
            folder_color: FolderColor::Default,
        }],
    );

    sync(&mut data, &disk(&[], &[]));

    assert_eq!(data.folders[0].project_ids, vec!["p1".to_string()]);
}

#[test]
fn sync_worktrees_preserves_existing_worktree_with_valid_path() {
    let mut wt = make_project("wt1");
    wt.path = "/tmp".to_string();
    wt.worktree_info = worktree_info("p1", "/tmp/test", "");
    let mut data = make_workspace(vec![make_project("p1"), wt], vec!["p1", "wt1"], vec![]);

    sync(&mut data, &disk(&["/tmp"], &[]));

    assert_eq!(data.projects.len(), 2);
    assert!(data.project_order.contains(&"wt1".to_string()));
}

#[test]
fn sync_worktrees_preserves_monorepo_worktree_when_project_subdir_is_missing() {
    let mut wt = make_project("wt1");
    wt.path = "/checkout/packages/missing".to_string();
    wt.worktree_info = worktree_info("p1", "/tmp/test", "/checkout");
    let mut data = make_workspace(vec![make_project("p1"), wt], vec!["p1", "wt1"], vec![]);

    sync(&mut data, &disk(&["/checkout"], &[]));

    assert!(has(&data, "wt1"));
    assert!(data.project_order.contains(&"wt1".to_string()));
}

#[test]
fn sync_worktrees_recovers_a_legacy_checkout_root_from_the_worktree_registry() {
    let mut parent = make_project("p1");
    parent.path = "/repo/main".to_string();
    let mut wt = make_project("wt1");
    wt.path = "/repo/wt/packages/missing".to_string();
    wt.worktree_info = worktree_info("p1", "/repo/main", "");
    let mut data = make_workspace(vec![parent, wt], vec!["p1", "wt1"], vec![]);
    let mut facts = disk(&["/repo/main", "/repo/wt"], &[]);
    registry(&mut facts, "/repo/main", &["/repo/wt"]);

    sync(&mut data, &facts);

    let wt = row(&data, "wt1");
    assert_eq!(wt.worktree_info.as_ref().unwrap().worktree_path, "/repo/wt");
    assert_eq!(worktree_checkout_path(wt), "/repo/wt");
}

#[test]
fn legacy_recovery_refuses_the_neighbouring_checkout_of_a_deleted_worktree() {
    let mut parent = make_project("p1");
    parent.path = "/r/main".to_string();
    let mut outer = make_project("outer1");
    outer.path = "/r/outer".to_string();
    outer.worktree_info = worktree_info("p1", "/r/main", "");
    let mut inner = make_project("inner1");
    inner.path = "/r/outer/inner/packages/app".to_string();
    inner.worktree_info = worktree_info("p1", "/r/main", "");
    let mut data = make_workspace(
        vec![parent, outer, inner],
        vec!["p1", "outer1", "inner1"],
        vec![],
    );
    let mut facts = disk(&["/r/main", "/r/outer"], &[]);
    registry(&mut facts, "/r/main", &["/r/outer"]);

    sync(&mut data, &facts);

    assert!(
        !has(&data, "inner1"),
        "a deleted checkout must stay sweepable"
    );
    assert_eq!(
        row(&data, "outer1")
            .worktree_info
            .as_ref()
            .unwrap()
            .worktree_path,
        "/r/outer"
    );
}

#[test]
fn registered_checkout_root_picks_the_deepest_registered_ancestor() {
    let registered = vec!["/wt".to_string(), "/wt/nested".to_string()];
    assert_eq!(
        registered_checkout_root(&registered, "/wt/packages/app", false).map(|r| r.as_str()),
        Some("/wt")
    );
    assert_eq!(
        registered_checkout_root(&registered, "/wt/nested/packages/app", false).map(|r| r.as_str()),
        Some("/wt/nested")
    );
    assert_eq!(
        registered_checkout_root(&registered, "/elsewhere/packages/app", false),
        None
    );
    assert_eq!(registered_checkout_root(&Vec::new(), "/wt/app", false), None);
}

#[test]
fn sync_worktrees_seeds_layout_for_mid_create_worktree() {
    let mut wt = make_project("wt1");
    wt.path = "/tmp".to_string();
    wt.layout = None;
    wt.is_creating = true;
    wt.worktree_info = worktree_info("p1", "/tmp/test", "");
    let mut data = make_workspace(vec![make_project("p1"), wt], vec!["p1", "wt1"], vec![]);

    sync(&mut data, &disk(&["/tmp"], &[]));

    let wt = row(&data, "wt1");
    assert!(wt.layout.is_some());
    assert!(!wt.is_creating);
}

#[test]
fn sync_worktrees_finishes_mid_create_clone_when_target_exists() {
    let mut clone = make_project("clone1");
    clone.path = "/clone".to_string();
    clone.layout = None;
    clone.is_creating = true;
    let mut data = make_workspace(vec![clone], vec!["clone1"], vec![]);

    sync(&mut data, &disk(&["/clone"], &["/clone"]));

    let clone = row(&data, "clone1");
    assert!(clone.layout.is_some());
    assert!(!clone.is_creating);
}

#[test]
fn sync_worktrees_discards_a_clone_interrupted_mid_fetch() {
    let mut clone = make_project("clone1");
    clone.path = "/clone".to_string();
    clone.layout = None;
    clone.is_creating = true;
    let mut data = make_workspace(vec![clone], vec!["clone1"], vec![]);

    sync(&mut data, &disk(&["/clone"], &[]));

    assert!(data.projects.is_empty());
    assert!(data.project_order.is_empty());
}

#[test]
fn sync_worktrees_removes_mid_create_clone_when_target_is_missing() {
    let mut clone = make_project("clone1");
    clone.path = "/missing".to_string();
    clone.layout = None;
    clone.is_creating = true;
    let mut data = make_workspace(vec![clone], vec!["clone1"], vec![]);
    data.main_window.hidden_project_ids.insert("clone1");

    sync(&mut data, &disk(&[], &[]));

    assert!(data.projects.is_empty());
    assert!(data.project_order.is_empty());
    assert!(!data.main_window.hidden_project_ids.contains("clone1"));
}

#[test]
fn sync_worktrees_preserves_missing_plain_project_not_being_created() {
    let mut project = make_project("bookmark");
    project.path = "/missing".to_string();
    project.layout = None;
    let mut data = make_workspace(vec![project], vec!["bookmark"], vec![]);

    sync(&mut data, &disk(&[], &[]));

    assert!(has(&data, "bookmark"));
}

#[test]
fn sync_worktrees_leaves_deliberate_bookmark_untouched() {
    let mut wt = make_project("wt1");
    wt.path = "/tmp".to_string();
    wt.layout = None;
    wt.worktree_info = worktree_info("p1", "/tmp/test", "");
    let mut data = make_workspace(vec![make_project("p1"), wt], vec!["p1", "wt1"], vec![]);

    sync(&mut data, &disk(&["/tmp"], &[]));

    assert!(row(&data, "wt1").layout.is_none());
}

#[test]
fn sync_worktrees_scrubs_parent_worktree_ids_on_stale_removal() {
    let mut parent = make_project("p1");
    parent.worktree_ids = vec!["wt1".to_string()];
    let mut wt = make_project("wt1");
    wt.path = "/nonexistent/okena-stale/xyz".to_string();
    wt.worktree_info = worktree_info("p1", "/tmp/test", "");
    wt.layout = Some(terminal("stale-layout", ShellType::Default));
    wt.service_terminals
        .insert("service".to_string(), "stale-service".to_string());
    wt.hook_terminals.insert("stale-hook".to_string(), hook());
    let mut data = make_workspace(vec![parent, wt], vec!["p1", "wt1"], vec![]);

    let stale = sync(&mut data, &disk(&[], &[]));

    assert!(row(&data, "p1").worktree_ids.is_empty());
    assert!(!has(&data, "wt1"));
    let ids: Vec<&str> = stale.iter().map(|s| s.terminal_id.as_str()).collect();
    assert_eq!(ids, ["stale-hook", "stale-layout", "stale-service"]);
    assert!(
        stale
            .iter()
            .all(|s| matches!(s.route, TerminalTeardownRoute::Host))
    );
}

#[test]
fn sessions_that_another_project_holds_are_left_alone() {
    let mut parent = make_project("p1");
    parent.layout = Some(terminal("shared", ShellType::Default));
    let mut wt = make_project("wt1");
    wt.path = "/gone".to_string();
    wt.worktree_info = worktree_info("p1", "/tmp/test", "");
    wt.layout = Some(terminal("shared", ShellType::Default));
    let mut data = make_workspace(vec![parent, wt], vec!["p1"], vec![]);
    assert!(sync(&mut data, &disk(&[], &[])).is_empty());
}

#[test]
fn stale_session_descriptor_keeps_wsl_distro_and_resolved_backend() {
    let ubuntu = ShellType::Wsl {
        distro: Some("Ubuntu".to_string()),
    };
    let mut wsl = WslFacts::none();
    wsl.windows = true;
    match teardown_route(&ubuntu, None, &ShellType::Default, &wsl) {
        TerminalTeardownRoute::Wsl { distro, backend } => {
            assert_eq!(distro.as_deref(), Some("Ubuntu"));
            assert_eq!(backend, ResolvedBackend::NoBackend);
        }
        other => panic!("{other:?}"),
    }
}

#[test]
fn sessions_in_a_distribution_end_by_what_keeps_them_alive_there() {
    let mut wsl = WslFacts::none();
    wsl.default_backend = ResolvedBackend::Screen;
    wsl.backends
        .insert("Ubuntu".to_string(), ResolvedBackend::Tmux);
    let backend_for = |distro: Option<&str>, windows: bool| {
        let mut facts = WslFacts::none();
        facts.windows = windows;
        facts.default_backend = wsl.default_backend;
        facts.backends = wsl.backends.copy();
        let shell = ShellType::Wsl {
            distro: distro.map(|d| d.to_string()),
        };
        match teardown_route(&shell, None, &ShellType::Default, &facts) {
            TerminalTeardownRoute::Wsl { backend, .. } => Some(backend),
            TerminalTeardownRoute::Host => None,
        }
    };
    assert_eq!(backend_for(Some("Ubuntu"), true), Some(ResolvedBackend::Tmux));
    assert_eq!(backend_for(Some("Debian"), true), Some(ResolvedBackend::NoBackend));
    assert_eq!(backend_for(None, true), Some(ResolvedBackend::Screen));
    assert_eq!(backend_for(Some("Ubuntu"), false), None);
}

#[test]
fn stale_cleanup_routes_only_layout_terminals_through_wsl() {
    let mut wt = make_project("wt1");
    wt.path = "Z:\\missing-okena-worktree".to_string();
    wt.worktree_info = worktree_info("p1", "C:\\repo", "Z:\\missing-okena-worktree");
    wt.default_shell = Some(ShellType::Wsl {
        distro: Some("Ubuntu".to_string()),
    });
    wt.layout = Some(terminal("layout", ShellType::Default));
    wt.service_terminals
        .insert("web".to_string(), "service".to_string());
    wt.hook_terminals.insert("hook".to_string(), hook());
    let mut data = make_workspace(vec![make_project("p1"), wt], vec!["p1", "wt1"], vec![]);
    let mut facts = disk(&[], &[]);
    facts.wsl.windows = true;

    let stale = sync_worktrees_with_backend_and_shell(&mut data, &facts, &ShellType::Cmd);
    let route = |id: &str| &stale.iter().find(|s| s.terminal_id == id).unwrap().route;
    assert!(matches!(route("layout"), TerminalTeardownRoute::Wsl { .. }));
    assert!(matches!(route("service"), TerminalTeardownRoute::Host));
    assert!(matches!(route("hook"), TerminalTeardownRoute::Host));
}

#[test]
fn stale_default_layout_uses_transient_global_wsl_route() {
    let mut wt = make_project("wt1");
    wt.path = "Z:\\missing-okena-worktree".to_string();
    wt.worktree_info = worktree_info("p1", "C:\\repo", "Z:\\missing-okena-worktree");
    wt.layout = Some(terminal("layout", ShellType::Default));
    let mut data = make_workspace(vec![make_project("p1"), wt], vec!["p1", "wt1"], vec![]);
    let mut facts = disk(&[], &[]);
    facts.wsl.windows = true;

    let stale = sync_worktrees_with_backend_and_shell(
        &mut data,
        &facts,
        &ShellType::Wsl {
            distro: Some("Debian".to_string()),
        },
    );
    assert_eq!(stale.len(), 1);
    assert_eq!(stale[0].terminal_id, "layout");
    match &stale[0].route {
        TerminalTeardownRoute::Wsl { distro, backend } => {
            assert_eq!(distro.as_deref(), Some("Debian"));
            assert_eq!(*backend, ResolvedBackend::NoBackend);
        }
        other => panic!("{other:?}"),
    }
}
