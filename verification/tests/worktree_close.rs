//! Closing worktrees: what is refused, what is merged and what is removed.

use okena_workspace::actions::worktree_close::{
    CloseAction, CloseFacts, CloseOptions, CloseReply, WorktreeClose, branch_survival,
    surviving_branch_toast,
};
use okena_workspace::actions::worktree_merge::{
    CloseWorktreeGitOutcome, MergeAction, MergeJob, MergePipeline, MergeReply,
    verify_merge_destination,
};
use okena_workspace::actions::worktree_removal::{
    DirtyCheck, WorktreeRemovalPlan, close_dirty_state,
};
use okena_workspace::actions::worktree_remove::{RemovalAction, RemovalReply, WorktreeRemoval};
use okena_workspace::claims::{PathFacts, Resolution};
use okena_workspace::focus::FocusManager;
use okena_workspace::layout::LayoutNode;
use okena_workspace::state::{
    HooksConfig, ProjectData, WorkspaceData, WorktreeMetadata, new_project_row,
};
use okena_workspace::toast::{Toast, ToastLevel};
use okena_workspace::workspace::{HookKind, HookTerminalResult, Workspace, WorkspaceCx};

fn cx() -> WorkspaceCx {
    WorkspaceCx::new(0)
}

fn none() -> PathFacts {
    PathFacts::none()
}

fn project(id: &str, path: &str) -> ProjectData {
    new_project_row(
        id.to_string(),
        format!("Project {id}"),
        path.to_string(),
        Some(LayoutNode::new_terminal()),
        None,
    )
}

fn worktree(id: &str, path: &str, root: &str) -> ProjectData {
    let mut p = project(id, path);
    p.worktree_info = Some(WorktreeMetadata {
        parent_project_id: "parent".to_string(),
        color_override: None,
        main_repo_path: "/fx/main".to_string(),
        worktree_path: root.to_string(),
        branch_name: "feature".to_string(),
    });
    p
}

fn workspace(wt: ProjectData) -> Workspace {
    let mut parent = project("parent", "/fx/main");
    parent.worktree_ids = vec!["wt1".to_string()];
    let mut data = WorkspaceData::empty();
    data.projects = vec![parent, wt];
    data.project_order = vec!["parent".to_string()];
    Workspace::new(data)
}

fn healthy() -> Workspace {
    workspace(worktree("wt1", "/fx/wt", "/fx/wt"))
}

fn at(root: &str) -> Resolution {
    Resolution::Path(root.to_string())
}

fn failed(why: &str) -> Resolution {
    Resolution::Failed(why.to_string())
}

fn begin(ws: &Workspace, checkout: &Resolution) -> Result<WorktreeRemovalPlan, String> {
    ws.begin_worktree_removal(&none(), "wt1", checkout, &Some("feature".to_string()))
}

const PLAIN: CloseOptions = CloseOptions {
    merge: false,
    stash: false,
    fetch: false,
    push: false,
    delete_branch: false,
};

fn facts(dirty: DirtyCheck) -> CloseFacts {
    CloseFacts {
        branch: Some("feature".to_string()),
        default_branch: Some("main".to_string()),
        dirty,
    }
}

fn close(ws: &Workspace, options: CloseOptions, dirty: DirtyCheck) -> Result<WorktreeClose, String> {
    ws.close_worktree(
        &none(),
        "wt1",
        &at("/fx/wt"),
        options,
        &facts(dirty),
        &HooksConfig::default(),
        false,
    )
}

fn told(c: WorktreeClose) -> (Option<String>, Option<Toast>) {
    c.outcome().expect("the close is over")
}

#[test]
fn removal_rejects_sibling_project_inside_physical_worktree_root() {
    let mut ws = workspace(worktree("wt1", "/fx/wt/packages/a", "/fx/wt"));
    let mut sibling = project("claimant", "/fx/wt/packages/b");
    sibling.name = "Sibling".to_string();
    ws.data.projects.push(sibling);
    let error = begin(&ws, &at("/fx/wt")).err().unwrap();
    assert!(error.contains("Sibling"), "{error}");
    let error = close(&ws, PLAIN, DirtyCheck::Known(false)).err().unwrap();
    assert!(error.contains("Sibling"), "{error}");
    assert!(ws.project("wt1").is_some());
}

#[test]
fn force_remove_clears_an_orphaned_worktree_the_standard_close_cannot() {
    let mut ws = healthy();
    assert_eq!(
        begin(&ws, &failed("not registered")).err().as_deref(),
        Some("not registered")
    );
    assert!(ws.worktree_is_orphaned(&none(), "wt1", &at("/fx/wt")));
    let plan = ws
        .begin_orphaned_worktree_removal(&none(), "wt1", &at("/fx/wt"), &None)
        .expect("an orphan can be removed");
    assert!(plan.is_orphaned());
    assert_eq!(plan.worktree_path(), "/fx/wt");
    assert_eq!(plan.branch(), "");
    assert_eq!(plan.preflight_remove(false, DirtyCheck::Known(true)), Ok(()));
    let mut host = cx();
    ws.finish_worktree_removal(
        &mut FocusManager::new(),
        &plan,
        &HooksConfig::default(),
        &mut host,
    );
    assert!(ws.project("wt1").is_none());
    assert!(ws.project("parent").unwrap().worktree_ids.is_empty());
}

#[test]
fn force_remove_refuses_a_healthy_worktree() {
    let ws = healthy();
    let known = failed("still tracked");
    assert!(!ws.worktree_is_orphaned(&none(), "wt1", &known));
    assert_eq!(
        ws.begin_orphaned_worktree_removal(&none(), "wt1", &known, &None)
            .err()
            .as_deref(),
        Some("still tracked")
    );
    assert!(ws.project("wt1").is_some());
}

#[test]
fn force_remove_refuses_a_checkout_another_project_lives_in() {
    let mut ws = healthy();
    let mut sibling = project("claimant", "/fx/wt");
    sibling.name = "Sibling".to_string();
    ws.data.projects.push(sibling);
    ws.data.project_order.push("claimant".to_string());
    let error = ws
        .begin_orphaned_worktree_removal(&none(), "wt1", &at("/fx/wt"), &None)
        .err()
        .unwrap();
    assert!(error.contains("Sibling"), "{error}");
    let forced = ws.force_remove_worktree_project(
        &none(),
        "wt1",
        &at("/fx/wt"),
        &None,
        &HooksConfig::default(),
    );
    assert!(
        forced.err().unwrap().contains("Sibling"),
        "force remove must identify the sibling claimant"
    );
}

#[test]
fn close_rejects_stale_root_pointing_into_independent_repository() {
    let stale = worktree("wt1", "/fx/independent/packages/app", "/fx/wt");
    let mut ws = workspace(stale);
    let close_at = |ws: &Workspace, checkout: Resolution| {
        ws.close_worktree(
            &none(),
            "wt1",
            &checkout,
            PLAIN,
            &facts(DirtyCheck::Known(false)),
            &HooksConfig::default(),
            false,
        )
        .err()
        .unwrap()
    };
    for root in ["/fx/wt", "/fx/independent"] {
        let error = close_at(&ws, at(root));
        assert!(error.contains("does not match its recorded checkout root"));
    }
    assert!(ws.project("wt1").is_some());

    ws.data.projects[1]
        .worktree_info
        .as_mut()
        .unwrap()
        .worktree_path
        .clear();
    let unregistered = failed("worktree does not belong to the parent repository");
    let legacy_error = begin(&ws, &unregistered).err().unwrap();
    assert!(legacy_error.contains("does not belong to the parent repository"));
    assert_eq!(
        begin(&ws, &at("/fx/wt")).err().as_deref(),
        Some("project path is outside its linked worktree root")
    );

    ws.data.projects[1].path = "/fx/wt".to_string();
    let plan = begin(&ws, &at("/fx/wt")).expect("registered legacy worktree is accepted");
    assert_eq!(plan.worktree_path(), "/fx/wt");
}

#[test]
fn begin_worktree_removal_rejected_while_creating() {
    let mut ws = healthy();
    ws.mark_creating_project("wt1");
    assert_eq!(
        begin(&ws, &at("/fx/wt")).err().as_deref(),
        Some("worktree is still being created")
    );
    assert!(ws.project("wt1").is_some());
    assert!(ws.is_creating_project("wt1"));
}

#[test]
fn close_worktree_rejected_while_creating() {
    let mut ws = healthy();
    ws.data.projects[1].hooks.worktree.before_remove = Some("echo x".to_string());
    ws.mark_creating_project("wt1");
    assert_eq!(
        close(&ws, PLAIN, DirtyCheck::Known(false)).err().as_deref(),
        Some("worktree is still being created")
    );
    assert!(ws.project("wt1").is_some());
    assert!(ws.is_creating_project("wt1"));
    assert!(!ws.is_project_closing("wt1"));
    assert!(!ws.project("wt1").unwrap().is_closing);
}

#[test]
fn close_worktree_rejected_while_already_closing() {
    let mut ws = healthy();
    ws.mark_closing_project_authoritative("wt1");
    assert_eq!(
        close(&ws, PLAIN, DirtyCheck::Known(false)).err().as_deref(),
        Some("worktree is already closing")
    );
    assert!(ws.project("wt1").is_some());
    assert!(ws.is_project_closing("wt1"));
    assert!(ws.project("wt1").unwrap().is_closing);
}

#[test]
fn only_worktrees_with_parents_are_closed() {
    let mut ws = healthy();
    let refused = |ws: &Workspace, id: &str| {
        ws.begin_worktree_removal(&none(), id, &at("/fx/wt"), &None)
            .err()
            .unwrap()
    };
    assert_eq!(refused(&ws, "gone"), "Project not found");
    assert_eq!(refused(&ws, "parent"), "Not a worktree project");
    ws.data.projects.remove(0);
    assert_eq!(refused(&ws, "wt1"), "Worktree parent project not found");
}

fn job(stash: bool, fetch: bool, push: bool, hooks: HooksConfig) -> MergeJob {
    MergeJob {
        stash,
        fetch,
        push,
        project_id: "p1".to_string(),
        project_name: "Project".to_string(),
        project_path: "/fx/wt".to_string(),
        branch: "feature".to_string(),
        default_branch: "main".to_string(),
        main_repo_path: "/fx/main".to_string(),
        project_hooks: hooks,
        global_hooks: HooksConfig::default(),
        folder_id: None,
        folder_name: None,
    }
}

fn on(branch: &str) -> MergeReply {
    MergeReply::Branch(Some(branch.to_string()))
}

fn step(action: &MergeAction) -> String {
    match action {
        MergeAction::ReadBranch { checkout } => format!("branch of {checkout}"),
        MergeAction::Stash { checkout } => format!("stash {checkout}"),
        MergeAction::Fetch { checkout } => format!("fetch {checkout}"),
        MergeAction::RunHook(h) => format!("hook {:?}", h.kind),
        MergeAction::Rebase { checkout, onto } => format!("rebase {checkout} onto {onto}"),
        MergeAction::Merge { checkout, branch } => format!("merge {branch} in {checkout}"),
        MergeAction::Push { checkout, branch } => format!("push {branch} of {checkout}"),
        MergeAction::PopStash { checkout } => format!("pop {checkout}"),
        MergeAction::Nothing => "nothing".to_string(),
    }
}

/// Runs a merge whose checkout sits on each of `branches` in turn and whose
/// step `failing` fails.
fn run(
    job: MergeJob,
    branches: &[&str],
    failing: Option<&str>,
) -> (Vec<String>, CloseWorktreeGitOutcome) {
    let mut pipeline = MergePipeline::new(job);
    let mut steps = Vec::new();
    let mut reads = 0;
    loop {
        let action = pipeline.action();
        let name = step(&action);
        let reply = match action {
            MergeAction::Nothing => break,
            MergeAction::ReadBranch { .. } => {
                reads += 1;
                on(branches[reads - 1])
            }
            _ if failing.is_some_and(|f| name.starts_with(f)) => {
                MergeReply::Ran(Err("broken".to_string()))
            }
            _ => MergeReply::Ran(Ok(())),
        };
        steps.push(name);
        pipeline = pipeline.advance(reply);
    }
    (steps, pipeline.outcome().unwrap())
}

#[test]
fn merge_refuses_a_parent_checkout_on_another_branch() {
    let (steps, outcome) = run(
        job(false, false, false, HooksConfig::default()),
        &["develop"],
        None,
    );
    assert_eq!(steps, vec!["branch of /fx/main"]);
    match outcome {
        CloseWorktreeGitOutcome::Failed(error) => assert!(
            error.contains("is on 'develop'") && error.contains("'main'"),
            "unexpected error: {error}"
        ),
        other => panic!("expected a refusal, got {other:?}"),
    }
    let unread = verify_merge_destination("/fx/main", "main", &None);
    assert!(unread.err().unwrap().contains("could not read"));
}

#[test]
fn post_merge_is_finished_before_merge_pipeline_returns() {
    let mut hooks = HooksConfig::default();
    hooks.worktree.post_merge = Some("git --version".to_string());
    let (steps, outcome) = run(job(false, false, false, hooks), &["main", "main"], None);
    assert!(matches!(
        outcome,
        CloseWorktreeGitOutcome::Merged { did_stash: false }
    ));
    assert_eq!(steps.last().map(|s| s.as_str()), Some("hook PostMerge"));
    assert!(steps.contains(&"merge feature in /fx/main".to_string()));
}

#[test]
fn a_pre_merge_hook_that_moves_head_is_caught_before_the_merge() {
    let mut hooks = HooksConfig::default();
    hooks.worktree.pre_merge = Some("git checkout -q -b develop".to_string());
    let (steps, outcome) = run(job(true, false, false, hooks), &["main", "develop"], None);
    match outcome {
        CloseWorktreeGitOutcome::Failed(error) => {
            assert!(error.contains("'develop'") && error.contains("'main'"))
        }
        other => panic!("a hook that moved HEAD must not reach the merge: {other:?}"),
    }
    assert!(!steps.iter().any(|s| s.starts_with("merge")));
    assert!(steps.contains(&"hook PreMerge".to_string()));
    assert_eq!(steps.last().map(|s| s.as_str()), Some("pop /fx/wt"));
}

#[test]
fn a_close_that_fetches_and_pushes_carries_the_merge_to_the_remote() {
    let (steps, outcome) = run(
        job(false, true, true, HooksConfig::default()),
        &["main", "main"],
        None,
    );
    assert!(matches!(
        outcome,
        CloseWorktreeGitOutcome::Merged { did_stash: false }
    ));
    let place = |name: &str| steps.iter().position(|s| s.starts_with(name)).unwrap();
    assert!(place("fetch") < place("rebase"));
    assert!(place("rebase") < place("merge"));
    assert!(place("merge") < place("push"));
}

#[test]
fn a_rebase_conflict_names_its_hook_and_gives_the_stash_back() {
    let (steps, outcome) = run(
        job(true, false, false, HooksConfig::default()),
        &["main", "main"],
        Some("rebase"),
    );
    assert_eq!(steps.last().map(|s| s.as_str()), Some("pop /fx/wt"));
    match outcome {
        CloseWorktreeGitOutcome::RebaseConflict { error, hook } => {
            assert!(error.contains("broken"), "{error}");
            assert_eq!(hook.kind, HookKind::RebaseConflict);
        }
        other => panic!("{other:?}"),
    }
}

#[test]
fn a_stash_is_told_of() {
    let (steps, outcome) = run(
        job(true, false, false, HooksConfig::default()),
        &["main", "main"],
        None,
    );
    assert_eq!(steps[1], "stash /fx/wt");
    assert!(matches!(
        outcome,
        CloseWorktreeGitOutcome::Merged { did_stash: true }
    ));
}

#[test]
fn a_repository_without_a_remote_reports_a_clean_branch_cleanup() {
    let remote = Err("fatal: 'origin' does not appear to be a git repository".to_string());
    assert_eq!(branch_survival(&Ok(()), &remote), Ok(()));
    let remote = Err("error: unable to delete: remote ref does not exist".to_string());
    assert_eq!(branch_survival(&Ok(()), &remote), Ok(()));
}

#[test]
fn an_unmerged_branch_survives_the_close_and_says_so() {
    let local = Err("the branch 'feature' is not fully merged".to_string());
    let remote = Err("fatal: 'origin' does not appear to be a git repository".to_string());
    let error = branch_survival(&local, &remote)
        .expect_err("an unmerged branch is not deleted by `branch -d`");
    assert!(error.starts_with("local:"), "{error}");
    let toast = surviving_branch_toast("feature", &error);
    assert_eq!(toast.level, ToastLevel::Warning);
    assert!(toast.message.contains("feature"));
    assert_eq!(toast.detail.as_deref(), Some(error.as_str()));
    assert_eq!(
        branch_survival(&Err("a".to_string()), &Err("b".to_string())),
        Err("local: a; remote: b".to_string())
    );
    assert_eq!(
        branch_survival(&Ok(()), &Err("b".to_string())),
        Err("remote: b".to_string())
    );
}

#[test]
fn a_branch_is_deleted_only_once_its_checkout_is_gone() {
    let mut ws = healthy();
    let options = CloseOptions {
        delete_branch: true,
        ..PLAIN
    };
    let c = close(&ws, options, DirtyCheck::Known(false)).unwrap();
    assert!(matches!(c.action(), CloseAction::Remove { force: false }));
    let c = c.advance(&mut ws, CloseReply::Removed(Ok(())), &mut cx());
    match c.action() {
        CloseAction::DeleteBranch { checkout, branch } => {
            assert_eq!(checkout, "/fx/main");
            assert_eq!(branch, "feature");
        }
        other => panic!("{other:?}"),
    }
    let clean = CloseReply::BranchDeleted {
        local: Ok(()),
        remote: Ok(()),
    };
    let (error, toast) = told(c.advance(&mut ws, clean, &mut cx()));
    assert!(error.is_none() && toast.is_none());

    let c = close(&ws, options, DirtyCheck::Known(false)).unwrap();
    let c = c.advance(&mut ws, CloseReply::Removed(Ok(())), &mut cx());
    let held = CloseReply::BranchDeleted {
        local: Err("checked out".to_string()),
        remote: Ok(()),
    };
    let (error, toast) = told(c.advance(&mut ws, held, &mut cx()));
    assert!(error.is_none());
    assert!(toast.unwrap().detail.unwrap().starts_with("local:"));
}

#[test]
fn a_removal_that_fails_keeps_the_branch() {
    let mut ws = healthy();
    let options = CloseOptions {
        delete_branch: true,
        ..PLAIN
    };
    let c = close(&ws, options, DirtyCheck::Known(false)).unwrap();
    let c = c.advance(&mut ws, CloseReply::Removed(Err("busy".to_string())), &mut cx());
    assert!(matches!(c.action(), CloseAction::Nothing));
    assert_eq!(told(c).0.as_deref(), Some("busy"));
}

#[test]
fn changes_that_would_be_lost_run_their_hook_and_force_the_removal() {
    let mut ws = healthy();
    let c = close(&ws, PLAIN, DirtyCheck::Known(true)).unwrap();
    match c.action() {
        CloseAction::RunHook(h) => assert_eq!(h.kind, HookKind::DirtyWorktreeClose),
        other => panic!("{other:?}"),
    }
    let ran = CloseReply::HookRan {
        commands: vec![],
        results: vec![],
    };
    let c = c.advance(&mut ws, ran, &mut cx());
    assert!(matches!(c.action(), CloseAction::Remove { force: true }));
}

#[test]
fn a_merge_stashes_what_is_dirty() {
    let mut ws = healthy();
    let options = CloseOptions {
        merge: true,
        stash: true,
        ..PLAIN
    };
    let c = close(&ws, options, DirtyCheck::Known(true)).unwrap();
    match c.action() {
        CloseAction::Merge(job) => {
            assert!(job.stash);
            assert_eq!(job.default_branch, "main");
        }
        other => panic!("{other:?}"),
    }
    let merged = CloseReply::Merged(CloseWorktreeGitOutcome::Merged { did_stash: true });
    let c = c.advance(&mut ws, merged, &mut cx());
    assert!(matches!(c.action(), CloseAction::Remove { force: false }));

    let c = close(&ws, options, DirtyCheck::Known(true)).unwrap();
    let kept = CloseReply::Merged(CloseWorktreeGitOutcome::Merged { did_stash: false });
    let c = c.advance(&mut ws, kept, &mut cx());
    assert!(matches!(c.action(), CloseAction::RunHook(_)));
    let ran = CloseReply::HookRan {
        commands: vec![],
        results: vec![],
    };
    let c = c.advance(&mut ws, ran, &mut cx());
    assert!(matches!(c.action(), CloseAction::Remove { force: true }));

    let unstashed = CloseOptions {
        merge: true,
        ..PLAIN
    };
    let c = close(&ws, unstashed, DirtyCheck::Known(true)).unwrap();
    assert!(matches!(c.action(), CloseAction::RunHook(_)));

    let c = close(&ws, options, DirtyCheck::Known(true)).unwrap();
    let lost = CloseReply::Merged(CloseWorktreeGitOutcome::Failed("no".to_string()));
    assert_eq!(
        told(c.advance(&mut ws, lost, &mut cx())).0.as_deref(),
        Some("no")
    );
}

#[test]
fn the_hook_before_a_removal_runs_in_a_terminal_where_there_is_one() {
    let mut ws = healthy();
    ws.data.projects[1].hooks.worktree.before_remove = Some("make clean".to_string());
    let c = close(&ws, PLAIN, DirtyCheck::Known(false)).unwrap();
    match c.action() {
        CloseAction::FinishHook(h) => {
            assert_eq!(h.kind, HookKind::BeforeWorktreeRemove);
            assert_eq!(h.main_repo_path.as_deref(), Some("/fx/main"));
        }
        other => panic!("{other:?}"),
    }
    let c = c.advance(
        &mut ws,
        CloseReply::HookFinished(Err("exit 1".to_string())),
        &mut cx(),
    );
    assert!(told(c).0.unwrap().contains("exit 1"));

    let c = ws
        .close_worktree(
            &none(),
            "wt1",
            &at("/fx/wt"),
            PLAIN,
            &facts(DirtyCheck::Known(false)),
            &HooksConfig::default(),
            true,
        )
        .unwrap();
    assert!(matches!(c.action(), CloseAction::StartHook(_)));
    let started = CloseReply::HookStarted(vec![HookTerminalResult {
        project_id: "wt1".to_string(),
        terminal_id: "h".to_string(),
        label: "before_remove".to_string(),
        hook_type: "before_worktree_remove".to_string(),
        command: "make clean".to_string(),
        cwd: "/fx/wt".to_string(),
    }]);
    let c = c.advance(&mut ws, started, &mut cx());
    let (error, toast) = told(c);
    assert!(error.is_none() && toast.is_none());
    assert!(ws.is_project_closing("wt1"));
    assert!(
        ws.project("wt1")
            .unwrap()
            .hook_terminals
            .contains_key("h")
    );
}

#[test]
fn removal_plan_finishes_close_hooks_while_checkout_exists() {
    let mut ws = healthy();
    ws.data.projects[1].hooks.project.on_close = Some("echo project".to_string());
    ws.data.projects[1].hooks.worktree.on_close = Some("echo worktree".to_string());
    let plan = begin(&ws, &at("/fx/wt")).unwrap();
    let hooks = plan.close_hooks(&HooksConfig::default());
    assert_eq!(hooks.len(), 2);
    assert_eq!(hooks[0].kind, HookKind::WorktreeClose);
    assert_eq!(hooks[0].branch.as_deref(), Some("feature"));
    assert_eq!(
        hooks[0].project_hooks.worktree.on_close.as_deref(),
        Some("echo worktree")
    );
    assert_eq!(hooks[1].kind, HookKind::ProjectClose);
    assert_eq!(
        hooks[1].project_hooks.project.on_close.as_deref(),
        Some("echo project")
    );
    assert!(hooks.iter().all(|h| h.project_path == "/fx/wt"));
}

#[test]
fn close_refuses_a_checkout_whose_dirty_state_cannot_be_read() {
    assert_eq!(close_dirty_state(DirtyCheck::Known(true)), Ok(true));
    assert_eq!(close_dirty_state(DirtyCheck::NotRepo), Ok(false));
    let error = close_dirty_state(DirtyCheck::Unknown)
        .expect_err("an unreadable status must not decide a force-remove");
    assert!(error.contains("could not determine"), "{error}");
    let ws = healthy();
    let error = close(&ws, PLAIN, DirtyCheck::Unknown).err().unwrap();
    assert!(error.contains("could not determine"), "{error}");
}

#[test]
fn preflight_refuses_a_checkout_whose_dirty_state_cannot_be_read() {
    let ws = healthy();
    let plan = begin(&ws, &at("/fx/wt")).unwrap();
    let error = plan
        .preflight_remove(false, DirtyCheck::Unknown)
        .expect_err("an unreadable status must block removal");
    assert!(error.contains("could not determine"), "{error}");
    assert_eq!(plan.preflight_remove(true, DirtyCheck::Unknown), Ok(()));
    assert!(
        plan.preflight_remove(false, DirtyCheck::Known(true))
            .err()
            .unwrap()
            .contains("uncommitted changes")
    );
    assert_eq!(plan.preflight_remove(false, DirtyCheck::Known(false)), Ok(()));
}

#[test]
fn a_removal_in_the_background_stops_the_terminals_first() {
    let mut ws = healthy();
    ws.data.projects[1].layout = Some(LayoutNode::new_terminal());
    let stopped = ws
        .prepare_background_worktree_removal("wt1", &mut cx())
        .unwrap();
    assert!(stopped.is_empty());
    assert!(
        ws.prepare_background_worktree_removal("gone", &mut cx())
            .is_err()
    );
}

/// Runs a removal, in which the checkout goes or not.
fn remove(ws: &mut Workspace, run: WorktreeRemoval, removed: Result<(), String>) -> (Vec<String>, Result<(), String>) {
    let mut run = run;
    let mut steps = Vec::new();
    loop {
        let reply = match run.action() {
            RemovalAction::FinishHook(h) => {
                steps.push(format!("{:?}", h.kind));
                RemovalReply::HookFinished(Err("exit 1".to_string()))
            }
            RemovalAction::RemoveCheckout { checkout, force } => {
                steps.push(format!("remove {checkout} {force}"));
                RemovalReply::Removed(removed.clone())
            }
            RemovalAction::DeleteOrphan { checkout } => {
                steps.push(format!("delete {checkout}"));
                RemovalReply::Removed(removed.clone())
            }
            RemovalAction::Nothing => break,
        };
        run = run.advance(ws, &mut FocusManager::new(), reply, &mut cx());
    }
    (steps, run.outcome().unwrap())
}

#[test]
fn a_removal_runs_its_hooks_then_removes_the_checkout_and_the_row() {
    let mut ws = healthy();
    let run = ws
        .remove_worktree_project(
            &none(),
            "wt1",
            &at("/fx/wt"),
            &None,
            false,
            &HooksConfig::default(),
        )
        .unwrap();
    let (steps, outcome) = remove(&mut ws, run, Ok(()));
    assert_eq!(
        steps,
        vec!["WorktreeClose", "ProjectClose", "remove /fx/wt false"]
    );
    assert_eq!(outcome, Ok(()));
    assert!(ws.project("wt1").is_none());
}

#[test]
fn a_removal_that_git_refuses_keeps_the_row() {
    let mut ws = healthy();
    let run = ws
        .force_remove_worktree_project(
            &none(),
            "wt1",
            &at("/fx/wt"),
            &None,
            &HooksConfig::default(),
        )
        .unwrap();
    let (steps, outcome) = remove(&mut ws, run, Err("denied".to_string()));
    assert_eq!(steps[2], "delete /fx/wt");
    assert_eq!(outcome, Err("denied".to_string()));
    assert!(ws.project("wt1").is_some());
}

#[test]
fn the_hook_for_lost_changes_names_the_branch() {
    let ws = healthy();
    let plan = begin(&ws, &at("/fx/wt")).unwrap();
    let hook = plan.on_dirty_close_hook(&HooksConfig::default());
    assert_eq!(hook.kind, HookKind::DirtyWorktreeClose);
    assert_eq!(hook.branch.as_deref(), Some("feature"));
    assert_eq!(hook.project_id, "wt1");
}

#[test]
fn a_close_that_is_over_can_be_begun_again() {
    let mut ws = healthy();
    ws.mark_closing_project_authoritative("wt1");
    ws.finish_closing_project("wt1");
    assert!(!ws.is_project_closing("wt1"));
    assert!(close(&ws, PLAIN, DirtyCheck::Known(false)).is_ok());
}
