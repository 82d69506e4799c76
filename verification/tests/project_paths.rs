//! Pointing projects at other directories, and renaming theirs.

use okena_workspace::actions::project_paths::{ProjectDirectoryMove, ProjectDirectoryRenamePlan};
use okena_workspace::claims::{PathFacts, Resolution};
use okena_workspace::layout::LayoutNode;
use okena_workspace::state::{
    HookTerminalEntry, HookTerminalStatus, ProjectData, WorkspaceData, WorktreeMetadata,
    new_project_row,
};
use okena_workspace::workspace::{Workspace, WorkspaceCx};

fn cx() -> WorkspaceCx {
    WorkspaceCx::new(0)
}

fn project(id: &str, path: &str) -> ProjectData {
    new_project_row(
        id.to_string(),
        format!("Project {id}"),
        path.to_string(),
        Some(LayoutNode::new_terminal()),
        None,
    )
}

fn worktree(id: &str, path: &str, parent: &str, root: &str) -> ProjectData {
    let mut p = project(id, path);
    p.worktree_info = Some(WorktreeMetadata {
        parent_project_id: parent.to_string(),
        color_override: None,
        main_repo_path: "/tmp/repo".to_string(),
        worktree_path: root.to_string(),
        branch_name: String::new(),
    });
    p
}

fn workspace(projects: Vec<ProjectData>) -> Workspace {
    let mut data = WorkspaceData::empty();
    data.project_order = projects.iter().map(|p| p.id.clone()).collect();
    data.projects = projects;
    Workspace::new(data)
}

fn seen(existing: &[&str], directories: &[&str]) -> PathFacts {
    let mut f = PathFacts::none();
    f.existing = existing.iter().map(|p| p.to_string()).collect();
    f.directories = directories.iter().map(|p| p.to_string()).collect();
    f
}

fn path_of(ws: &Workspace, id: &str) -> String {
    ws.project(id).unwrap().path.clone()
}

fn checkout(root: &str) -> Resolution {
    Resolution::Path(root.to_string())
}

fn unknown() -> Resolution {
    Resolution::Failed("not asked".to_string())
}

fn plan(
    ws: &Workspace,
    f: &PathFacts,
    c: &Resolution,
    id: &str,
    path: &str,
    name: &str,
) -> Result<ProjectDirectoryRenamePlan, String> {
    ws.prepare_project_directory_rename(f, c, id, path.to_string(), name.to_string())
}

fn finish(
    ws: &mut Workspace,
    plan: &ProjectDirectoryRenamePlan,
    moved: Result<String, String>,
) -> Result<(), String> {
    let result = plan.executed(moved)?;
    ws.finish_project_directory_rename(plan, &result, &mut cx())
}

#[test]
fn change_project_path_repoints_a_project_whose_folder_moved() {
    let mut ws = workspace(vec![project("p1", "/fx/old/nested")]);
    let f = seen(&["/fx/moved"], &["/fx/moved"]);
    assert_eq!(
        ws.change_project_path(&f, "p1", "/fx/moved", &mut cx()),
        Ok(())
    );
    assert_eq!(path_of(&ws, "p1"), "/fx/moved");
}

#[test]
fn change_project_path_translates_nested_projects() {
    let mut ws = workspace(vec![
        project("root", "/fx/old/nested"),
        project("nested", "/fx/old/nested/packages/app"),
        project("other", "/fx/old/nested-not"),
    ]);
    let f = seen(&["/fx/moved"], &["/fx/moved"]);
    assert_eq!(
        ws.change_project_path(&f, "root", "/fx/moved", &mut cx()),
        Ok(())
    );
    assert_eq!(path_of(&ws, "root"), "/fx/moved");
    assert_eq!(path_of(&ws, "nested"), "/fx/moved/packages/app");
    assert_eq!(path_of(&ws, "other"), "/fx/old/nested-not");
}

#[test]
fn projects_move_along_on_windows() {
    let mut ws = workspace(vec![
        project("root", r"C:\old\nested"),
        project("nested", r"c:\old\nested\packages\app"),
        project("other", r"C:\old\nested-not"),
    ]);
    let mut f = seen(&[r"D:\moved"], &[r"D:\moved"]);
    f.windows = true;
    assert_eq!(
        ws.change_project_path(&f, "root", r"\moved", &mut cx())
            .err()
            .as_deref(),
        Some("path must be absolute")
    );
    assert_eq!(
        ws.change_project_path(&f, "root", r"D:\moved", &mut cx()),
        Ok(())
    );
    assert_eq!(path_of(&ws, "root"), r"D:\moved");
    assert_eq!(path_of(&ws, "nested"), r"D:\moved\packages\app");
    assert_eq!(path_of(&ws, "other"), r"C:\old\nested-not");
}

#[test]
fn change_project_path_rejects_a_directory_another_project_uses() {
    let mut other = project("p2", "/fx/moved");
    other.name = "Other".to_string();
    let mut ws = workspace(vec![project("p1", "/fx/old"), other]);
    let f = seen(&["/fx/moved"], &["/fx/moved"]);
    let err = ws
        .change_project_path(&f, "p1", "/fx/moved", &mut cx())
        .err();
    assert_eq!(err.as_deref(), Some("'Other' already uses this directory"));
    assert_eq!(path_of(&ws, "p1"), "/fx/old");
}

#[test]
fn change_project_path_rejects_targets_that_are_not_usable_directories() {
    let mut ws = workspace(vec![project("p1", "/fx/old")]);
    let f = seen(&["/fx/moved", "/fx/moved/a-file"], &["/fx/moved"]);
    let mut refused = |path: &str| ws.change_project_path(&f, "p1", path, &mut cx()).err();
    assert_eq!(
        refused("relative/path").as_deref(),
        Some("path must be absolute")
    );
    assert_eq!(
        refused("/fx/moved/not-there").as_deref(),
        Some("'/fx/moved/not-there' does not exist")
    );
    assert_eq!(
        refused("/fx/moved/a-file").as_deref(),
        Some("'/fx/moved/a-file' is not a directory")
    );
    assert_eq!(
        refused("/fx/old").as_deref(),
        Some("'/fx/old' does not exist")
    );
}

#[test]
fn change_project_path_rejects_the_path_it_already_has() {
    let mut ws = workspace(vec![project("p1", "/fx/moved")]);
    let f = seen(&["/fx/moved"], &["/fx/moved"]);
    let err = ws
        .change_project_path(&f, "p1", "/fx/moved", &mut cx())
        .err();
    assert_eq!(
        err.as_deref(),
        Some("project already points at this directory")
    );
}

#[test]
fn other_peoples_projects_and_unknown_ones_are_not_repointed() {
    let mut theirs = project("p1", "/fx/old");
    theirs.connection_id = Some("box".to_string());
    let mut ws = workspace(vec![theirs]);
    let f = seen(&["/fx/moved"], &["/fx/moved"]);
    assert_eq!(
        ws.change_project_path(&f, "p1", "/fx/moved", &mut cx())
            .err()
            .as_deref(),
        Some("project is owned by another daemon")
    );
    assert_eq!(
        ws.change_project_path(&f, "gone", "/fx/moved", &mut cx())
            .err()
            .as_deref(),
        Some("Project not found")
    );
}

#[test]
fn rename_worktree_root_moves_git_registration_and_descendant_projects() {
    let mut ws = workspace(vec![
        project("parent", "/fx/main"),
        worktree("wt1", "/fx/worktree", "parent", "/fx/worktree"),
        project("descendant", "/fx/worktree/packages/child"),
    ]);
    let mut f = PathFacts::none();
    for p in ["/fx/worktree", "/fx/worktree/packages/child"] {
        f.repo_roots.insert(p.to_string(), "/fx/worktree".to_string());
    }
    assert_eq!(
        ws.checkout_to_verify("wt1"),
        Some(("/fx/main".to_string(), "/fx/worktree".to_string()))
    );
    let plan = plan(
        &ws,
        &f,
        &checkout("/fx/worktree"),
        "wt1",
        "/fx/renamed-worktree",
        "renamed-worktree",
    )
    .unwrap();
    match plan.move_kind() {
        ProjectDirectoryMove::Worktree { root, new_path } => {
            assert_eq!(root, "/fx/worktree");
            assert_eq!(new_path, "/fx/renamed-worktree");
        }
        other => panic!("{other:?}"),
    }
    finish(&mut ws, &plan, Ok("/fx/renamed-worktree".to_string())).unwrap();

    let moved = ws.project("wt1").unwrap();
    assert_eq!(moved.path, "/fx/renamed-worktree");
    assert_eq!(
        moved.worktree_info.as_ref().unwrap().worktree_path,
        "/fx/renamed-worktree"
    );
    assert_eq!(
        path_of(&ws, "descendant"),
        "/fx/renamed-worktree/packages/child"
    );
}

#[test]
fn rename_monorepo_subdirectory_preserves_worktree_root() {
    let mut ws = workspace(vec![
        project("parent", "/fx/main"),
        worktree("wt1", "/fx/worktree/packages/app", "parent", "/fx/worktree"),
        project("descendant", "/fx/worktree/packages/app/nested"),
    ]);
    let f = PathFacts::none();
    let renamed = "/fx/worktree/packages/renamed-app";
    let made = plan(
        &ws,
        &f,
        &checkout("/fx/worktree"),
        "wt1",
        renamed,
        "renamed-app",
    )
    .unwrap();
    assert!(matches!(
        made.move_kind(),
        ProjectDirectoryMove::Directory { .. }
    ));
    finish(&mut ws, &made, Ok(String::new())).unwrap();

    let moved = ws.project("wt1").unwrap();
    assert_eq!(moved.path, renamed);
    assert_eq!(moved.name, "renamed-app");
    assert_eq!(
        moved.worktree_info.as_ref().unwrap().worktree_path,
        "/fx/worktree"
    );
    assert_eq!(
        path_of(&ws, "descendant"),
        "/fx/worktree/packages/renamed-app/nested"
    );
    let outside = plan(&ws, &f, &checkout("/fx/worktree"), "wt1", "/fx/out", "out");
    assert_eq!(
        outside.err().as_deref(),
        Some("renamed project path must stay inside its linked worktree")
    );
}

#[test]
fn rename_project_directory_translates_descendant_projects() {
    let mut descendant = project("descendant", "/fx/project/packages/nested");
    descendant.hook_terminals.insert(
        "completed-descendant-hook".to_string(),
        HookTerminalEntry {
            label: "completed".to_string(),
            status: HookTerminalStatus::Succeeded,
            hook_type: "project.on_open".to_string(),
            command: "echo done".to_string(),
            cwd: "/fx/project/packages/nested".to_string(),
            finished_at: None,
        },
    );
    let mut ws = workspace(vec![project("project", "/fx/project"), descendant]);
    let f = PathFacts::none();
    let made = plan(
        &ws,
        &f,
        &unknown(),
        "project",
        "/fx/renamed-project",
        "renamed-project",
    )
    .unwrap();
    assert_eq!(made.affected_project_ids(), ["project", "descendant"]);
    let nested = &made.affected_translations()[1];
    assert_eq!(nested.project_id(), "descendant");
    assert_eq!(nested.old_path(), "/fx/project/packages/nested");
    assert_eq!(nested.new_path(), "/fx/renamed-project/packages/nested");
    assert_eq!(made.old_path(), "/fx/project");
    assert_eq!(made.new_path(), "/fx/renamed-project");
    assert_eq!(made.project_id(), "project");
    finish(&mut ws, &made, Ok(String::new())).unwrap();

    assert_eq!(path_of(&ws, "project"), "/fx/renamed-project");
    assert_eq!(
        path_of(&ws, "descendant"),
        "/fx/renamed-project/packages/nested"
    );
    let hooks = &ws.project("descendant").unwrap().hook_terminals;
    assert_eq!(
        hooks.get("completed-descendant-hook").unwrap().cwd,
        "/fx/renamed-project/packages/nested"
    );
}

#[test]
fn rename_main_repository_requires_linked_worktrees_to_be_removed() {
    let mut ws = workspace(vec![project("project", "/fx/main")]);
    let mut f = PathFacts::none();
    f.repo_roots
        .insert("/fx/main".to_string(), "/fx/main".to_string());
    f.linked.push("/fx/main".to_string());
    let rename = |ws: &Workspace, f: &PathFacts| {
        plan(
            ws,
            f,
            &unknown(),
            "project",
            "/fx/renamed-main",
            "renamed-main",
        )
    };
    let error = rename(&ws, &f).err().unwrap();
    assert!(error.contains("has linked worktrees"));

    f.linked.clear();
    let made = rename(&ws, &f).expect("repository without linked worktrees can be renamed");
    finish(&mut ws, &made, Ok(String::new())).unwrap();
    assert_eq!(path_of(&ws, "project"), "/fx/renamed-main");
}

#[test]
fn rename_ancestor_rejects_descendant_repository_with_external_worktree() {
    let ws = workspace(vec![
        project("ancestor", "/fx/workspace"),
        project("repo", "/fx/workspace/packages/repo"),
    ]);
    let mut f = PathFacts::none();
    let repo = "/fx/workspace/packages/repo".to_string();
    f.repo_roots.insert(repo.clone(), repo.clone());
    f.linked.push(repo);
    let error = plan(
        &ws,
        &f,
        &unknown(),
        "ancestor",
        "/fx/renamed-workspace",
        "renamed-workspace",
    )
    .err()
    .unwrap();
    assert!(error.contains("has linked worktrees"));
}

#[test]
fn rename_ancestor_rejects_descendant_worktree_metadata_root() {
    let linked = "/fx/workspace/linked-checkout";
    let ws = workspace(vec![
        project("main", "/fx/main"),
        project("ancestor", "/fx/workspace"),
        worktree("worktree", linked, "main", linked),
    ]);
    let mut f = PathFacts::none();
    f.repo_roots.insert(linked.to_string(), linked.to_string());
    let error = plan(
        &ws,
        &f,
        &unknown(),
        "ancestor",
        "/fx/renamed-workspace",
        "renamed-workspace",
    )
    .err()
    .unwrap();
    assert!(error.contains("linked worktree project"));
}

#[test]
fn renaming_a_directory_that_holds_a_recorded_worktree_root_is_refused() {
    let ws = workspace(vec![
        project("main", "/fx/main"),
        project("holder", "/fx/holder"),
        worktree("wt", "/elsewhere", "main", "/fx/holder/wt"),
    ]);
    let error = plan(
        &ws,
        &PathFacts::none(),
        &unknown(),
        "holder",
        "/fx/renamed",
        "renamed",
    )
    .err()
    .unwrap();
    assert!(error.contains("recorded worktree root"), "{error}");
}

#[test]
fn names_that_are_no_names_and_places_that_are_taken_are_refused() {
    let ws = workspace(vec![project("p", "/fx/p")]);
    let refused = |name: &str| {
        plan(&ws, &PathFacts::none(), &unknown(), "p", "/fx/q", name)
            .err()
            .unwrap()
    };
    assert_eq!(refused(""), "name must not be empty");
    for name in ["a/b", "a\\b", ".", ".."] {
        assert_eq!(refused(name), "name must not contain path separators");
    }
    let f = seen(&["/fx/q"], &[]);
    assert_eq!(
        plan(&ws, &f, &unknown(), "p", "/fx/q", "q").err().as_deref(),
        Some("'q' already exists")
    );
    assert_eq!(
        plan(&ws, &PathFacts::none(), &unknown(), "gone", "/fx/q", "q")
            .err()
            .as_deref(),
        Some("Project not found")
    );
}

#[test]
fn a_project_that_changed_meanwhile_keeps_its_row() {
    let mut ws = workspace(vec![project("p", "/fx/p")]);
    let made = plan(&ws, &PathFacts::none(), &unknown(), "p", "/fx/q", "q").unwrap();
    ws.data.projects[0].path = "/fx/elsewhere".to_string();
    assert_eq!(
        finish(&mut ws, &made, Ok(String::new())).err()
            .as_deref(),
        Some("project changed while its directory was being renamed: p")
    );
    assert_eq!(path_of(&ws, "p"), "/fx/elsewhere");
}

#[test]
fn a_move_that_fails_leaves_the_project_where_it_is() {
    let mut ws = workspace(vec![project("p", "/fx/p")]);
    let made = plan(&ws, &PathFacts::none(), &unknown(), "p", "/fx/q", "q").unwrap();
    assert_eq!(
        finish(&mut ws, &made, Err("denied".to_string())),
        Err("Failed to rename: denied".to_string())
    );
    assert_eq!(path_of(&ws, "p"), "/fx/p");
}
