//! Closing a worktree: merge it if asked to, run its hooks, remove it, and
//! delete its branch.
//!
//! The host runs git and the hooks: it asks what to do next, does it, and hands
//! back what came of it.

use crate::actions::project_open::{
    HookResultView, hook_result_views, pane_added, results_noted,
};
use crate::actions::worktree_merge::{
    CloseWorktreeGitOutcome, JobView, MergeJob, OutcomeView,
};
use crate::actions::worktree_removal::{
    DirtyCheck, close_dirty_state, dirty_state, or_empty, verified_root,
};
use crate::claims::{
    PathFacts, PathFactsView, Resolution, ResolutionView, closing_begun, occupancy_refusal,
};
use crate::collections::IdMap;
use crate::layout::command_terminal;
use crate::state::HooksConfig;
use crate::text::{copy_opt, has_part, holds_part, join, join3, opt_text, refusal_of};
use crate::toast::{Toast, ToastActionView, ToastLevel, ToastView, action_views};
use crate::workspace::{
    CxView, HookKind, HookRequest, HookRequestView, HookTerminalResult, PendingWorktreeClose,
    PendingWorktreeView, Workspace, WorkspaceCx, WorkspaceView, announced, changed, folder_id_of,
    folder_name_of, folder_of, parent_path, pending_worktree_views, with_projects, ws_project,
};
use vstd::prelude::*;

verus! {

/// What the user asked of a close.
#[derive(Clone, Copy, Debug)]
pub struct CloseOptions {
    pub merge: bool,
    pub stash: bool,
    pub fetch: bool,
    pub push: bool,
    pub delete_branch: bool,
}

/// What git says of a worktree that is to be closed.
#[derive(Debug)]
pub struct CloseFacts {
    /// The branch that its checkout sits on.
    pub branch: Option<String>,
    /// The default branch of its repository.
    pub default_branch: Option<String>,
    pub dirty: DirtyCheck,
}

/// A close that has been checked.
#[derive(Debug)]
pub struct ClosePlan {
    pub project_id: String,
    pub project_name: String,
    pub project_path: String,
    pub project_hooks: HooksConfig,
    pub global_hooks: HooksConfig,
    pub main_repo_path: String,
    pub branch: String,
    pub default_branch: String,
    pub merge: bool,
    pub stash: bool,
    pub fetch: bool,
    pub push: bool,
    pub delete_branch: bool,
    pub dirty: bool,
    /// Whether hooks run in a terminal that the user sees.
    pub runner: bool,
    pub folder_id: Option<String>,
    pub folder_name: Option<String>,
}

/// What a [`ClosePlan`] stands for.
pub struct ClosePlanView {
    pub project_id: Seq<char>,
    pub project_name: Seq<char>,
    pub project_path: Seq<char>,
    pub project_hooks: HooksConfig,
    pub global_hooks: HooksConfig,
    pub main_repo_path: Seq<char>,
    pub branch: Seq<char>,
    pub default_branch: Seq<char>,
    pub merge: bool,
    pub stash: bool,
    pub fetch: bool,
    pub push: bool,
    pub delete_branch: bool,
    pub dirty: bool,
    pub runner: bool,
    pub folder_id: Option<Seq<char>>,
    pub folder_name: Option<Seq<char>>,
}

impl View for ClosePlan {
    type V = ClosePlanView;

    open spec fn view(&self) -> ClosePlanView {
        ClosePlanView {
            project_id: self.project_id@,
            project_name: self.project_name@,
            project_path: self.project_path@,
            project_hooks: self.project_hooks,
            global_hooks: self.global_hooks,
            main_repo_path: self.main_repo_path@,
            branch: self.branch@,
            default_branch: self.default_branch@,
            merge: self.merge,
            stash: self.stash,
            fetch: self.fetch,
            push: self.push,
            delete_branch: self.delete_branch,
            dirty: self.dirty,
            runner: self.runner,
            folder_id: opt_text(self.folder_id),
            folder_name: opt_text(self.folder_name),
        }
    }
}

/// A command that a hook wants to run in a new pane.
#[derive(Debug)]
pub struct HookCommand {
    pub command: String,
    pub env_vars: IdMap<String>,
}

impl View for HookCommand {
    type V = (Seq<char>, Seq<(Seq<char>, Seq<char>)>);

    open spec fn view(&self) -> (Seq<char>, Seq<(Seq<char>, Seq<char>)>) {
        (self.command@, self.env_vars@)
    }
}

/// What each command of `s` stands for.
pub open spec fn hook_commands(s: Seq<HookCommand>) -> Seq<
    (Seq<char>, Seq<(Seq<char>, Seq<char>)>),
> {
    s.map_values(|c: HookCommand| c@)
}

/// Where a close stands.
#[derive(Debug)]
pub enum CloseState {
    /// The branch is to be merged.
    Merging,
    /// The rebase met a conflict, and its hook is to run.
    Conflict { reason: String, hook: HookRequest },
    /// The hook that runs first is to be started in a terminal.
    HookTerminal,
    /// The hook that runs first is to be run to its end.
    Hook,
    /// The hook for changes that will be lost is to run.
    DirtyHook,
    /// The worktree is to be removed.
    Removing,
    /// Its branch is to be deleted.
    Branch,
    /// It is over; there may be something to tell.
    Over { error: Option<String>, toast: Option<Toast> },
}

/// What a [`CloseState`] stands for.
pub enum CloseStateView {
    Merging,
    Conflict { reason: Seq<char>, hook: HookRequestView },
    HookTerminal,
    Hook,
    DirtyHook,
    Removing,
    Branch,
    Over { error: Option<Seq<char>>, toast: Option<ToastView> },
}

impl View for CloseState {
    type V = CloseStateView;

    open spec fn view(&self) -> CloseStateView {
        match *self {
            CloseState::Merging => CloseStateView::Merging,
            CloseState::Conflict { reason, hook } => CloseStateView::Conflict {
                reason: reason@,
                hook: hook@,
            },
            CloseState::HookTerminal => CloseStateView::HookTerminal,
            CloseState::Hook => CloseStateView::Hook,
            CloseState::DirtyHook => CloseStateView::DirtyHook,
            CloseState::Removing => CloseStateView::Removing,
            CloseState::Branch => CloseStateView::Branch,
            CloseState::Over { error, toast } => CloseStateView::Over {
                error: opt_text(error),
                toast: opt_toast(toast),
            },
        }
    }
}

/// What an optional toast stands for.
pub open spec fn opt_toast(t: Option<Toast>) -> Option<ToastView> {
    match t {
        Some(t) => Some(t@),
        None => None,
    }
}

/// What the host is to do.
#[derive(Debug)]
pub enum CloseAction {
    /// Run the merge to its end.
    Merge(MergeJob),
    /// Run the hook wherever it likes.
    RunHook(HookRequest),
    /// Start the hook in a terminal.
    StartHook(HookRequest),
    /// Run the hook to its end, without a terminal.
    FinishHook(HookRequest),
    /// Remove the worktree.
    Remove { force: bool },
    /// Delete the branch, here and on the remote.
    DeleteBranch { checkout: String, branch: String },
    Nothing,
}

/// What a [`CloseAction`] stands for.
pub enum CloseActionView {
    Merge(JobView),
    RunHook(HookRequestView),
    StartHook(HookRequestView),
    FinishHook(HookRequestView),
    Remove { force: bool },
    DeleteBranch { checkout: Seq<char>, branch: Seq<char> },
    Nothing,
}

impl View for CloseAction {
    type V = CloseActionView;

    open spec fn view(&self) -> CloseActionView {
        match *self {
            CloseAction::Merge(j) => CloseActionView::Merge(j@),
            CloseAction::RunHook(h) => CloseActionView::RunHook(h@),
            CloseAction::StartHook(h) => CloseActionView::StartHook(h@),
            CloseAction::FinishHook(h) => CloseActionView::FinishHook(h@),
            CloseAction::Remove { force } => CloseActionView::Remove { force },
            CloseAction::DeleteBranch { checkout, branch } => CloseActionView::DeleteBranch {
                checkout: checkout@,
                branch: branch@,
            },
            CloseAction::Nothing => CloseActionView::Nothing,
        }
    }
}

/// What came of it.
#[derive(Debug)]
pub enum CloseReply {
    Merged(CloseWorktreeGitOutcome),
    /// A hook ran: the panes that it wants, and the terminals that it got.
    HookRan { commands: Vec<HookCommand>, results: Vec<HookTerminalResult> },
    /// The terminals in which a hook was started.
    HookStarted(Vec<HookTerminalResult>),
    /// A hook ran to its end.
    HookFinished(Result<(), String>),
    Removed(Result<(), String>),
    /// What came of deleting the branch here, and on the remote.
    BranchDeleted { local: Result<(), String>, remote: Result<(), String> },
}

/// What a [`CloseReply`] stands for.
pub enum CloseReplyView {
    Merged(OutcomeView),
    HookRan {
        commands: Seq<(Seq<char>, Seq<(Seq<char>, Seq<char>)>)>,
        results: Seq<HookResultView>,
    },
    HookStarted(Seq<HookResultView>),
    HookFinished(Option<Seq<char>>),
    Removed(Option<Seq<char>>),
    BranchDeleted { local: Option<Seq<char>>, remote: Option<Seq<char>> },
}

impl View for CloseReply {
    type V = CloseReplyView;

    open spec fn view(&self) -> CloseReplyView {
        match *self {
            CloseReply::Merged(o) => CloseReplyView::Merged(o@),
            CloseReply::HookRan { commands, results } => CloseReplyView::HookRan {
                commands: hook_commands(commands@),
                results: hook_result_views(results@),
            },
            CloseReply::HookStarted(rs) => CloseReplyView::HookStarted(hook_result_views(rs@)),
            CloseReply::HookFinished(r) => CloseReplyView::HookFinished(refusal_of(r)),
            CloseReply::Removed(r) => CloseReplyView::Removed(refusal_of(r)),
            CloseReply::BranchDeleted { local, remote } => CloseReplyView::BranchDeleted {
                local: refusal_of(local),
                remote: refusal_of(remote),
            },
        }
    }
}

/// A close on its way.
#[derive(Debug)]
pub struct WorktreeClose {
    plan: ClosePlan,
    did_stash: bool,
    state: CloseState,
}

/// What a [`WorktreeClose`] stands for.
pub struct CloseView {
    pub plan: ClosePlanView,
    pub did_stash: bool,
    pub state: CloseStateView,
}

impl View for WorktreeClose {
    type V = CloseView;

    closed spec fn view(&self) -> CloseView {
        CloseView { plan: self.plan@, did_stash: self.did_stash, state: self.state@ }
    }
}

/// Why the worktree `id` may not be closed; git says that its checkout is
/// `checkout`.
pub open spec fn close_refusal(
    w: WorkspaceView,
    f: PathFactsView,
    id: Seq<char>,
    checkout: ResolutionView,
    dirty: DirtyCheck,
) -> Option<Seq<char>> {
    if w.creating.contains(id) {
        Some("worktree is still being created"@)
    } else if w.closing.contains(id) {
        Some("worktree is already closing"@)
    } else {
        match verified_root(w, f, id, checkout) {
            Err(e) => Some(e),
            Ok(root) => match occupancy_refusal(w, f, id, root) {
                Some(e) => Some(e),
                None => match dirty_state(dirty) {
                    Err(e) => Some(e),
                    Ok(_) => None,
                },
            },
        }
    }
}

/// The close of the worktree `id`, once nothing forbids it.
pub open spec fn close_plan(
    w: WorkspaceView,
    id: Seq<char>,
    o: CloseOptions,
    facts: CloseFacts,
    global: HooksConfig,
    runner: bool,
) -> ClosePlanView {
    let p = ws_project(w, id)->0;
    let branch = or_empty(opt_text(facts.branch));
    let default_branch = or_empty(opt_text(facts.default_branch));
    let dirty = dirty_state(facts.dirty)->Ok_0;
    let merge = o.merge && (!dirty || o.stash) && branch.len() > 0 && default_branch.len() > 0;
    ClosePlanView {
        project_id: id,
        project_name: p.name,
        project_path: p.path,
        project_hooks: p.hooks,
        global_hooks: global,
        main_repo_path: or_empty(parent_path(w.data.projects, id)),
        branch,
        default_branch,
        merge,
        stash: o.stash && dirty,
        fetch: o.fetch,
        push: o.push,
        delete_branch: o.delete_branch && (merge || !o.merge),
        dirty,
        runner,
        folder_id: folder_id_of(folder_of(w.data, id)),
        folder_name: folder_name_of(folder_of(w.data, id)),
    }
}

/// Whether a hook runs before the worktree is removed.
pub open spec fn has_before_remove(p: ClosePlanView) -> bool {
    p.project_hooks.worktree.before_remove is Some || p.global_hooks.worktree.before_remove is Some
}

/// The state once there is nothing left to merge.
pub open spec fn past_merge(p: ClosePlanView, did_stash: bool) -> CloseStateView {
    if has_before_remove(p) {
        if p.runner {
            CloseStateView::HookTerminal
        } else {
            CloseStateView::Hook
        }
    } else {
        past_hook(p, did_stash)
    }
}

/// The state once the hook that runs first has run.
pub open spec fn past_hook(p: ClosePlanView, did_stash: bool) -> CloseStateView {
    if p.dirty && !did_stash {
        CloseStateView::DirtyHook
    } else {
        CloseStateView::Removing
    }
}

/// A close that has not begun.
pub open spec fn close_start(p: ClosePlanView, did_stash: bool) -> CloseView {
    CloseView {
        plan: p,
        did_stash,
        state: if p.merge {
            CloseStateView::Merging
        } else {
            past_merge(p, did_stash)
        },
    }
}

/// A hook of the close.
pub open spec fn close_hook(
    p: ClosePlanView,
    kind: HookKind,
    main_repo_path: Option<Seq<char>>,
) -> HookRequestView {
    HookRequestView {
        kind,
        project_hooks: p.project_hooks,
        global_hooks: p.global_hooks,
        project_id: p.project_id,
        project_name: p.project_name,
        project_path: p.project_path,
        branch: Some(p.branch),
        target_branch: None,
        main_repo_path,
        error: None,
        folder_id: p.folder_id,
        folder_name: p.folder_name,
    }
}

/// The merge of the close.
pub open spec fn close_job(p: ClosePlanView) -> JobView {
    JobView {
        stash: p.stash,
        fetch: p.fetch,
        push: p.push,
        project_id: p.project_id,
        project_name: p.project_name,
        project_path: p.project_path,
        branch: p.branch,
        default_branch: p.default_branch,
        main_repo_path: p.main_repo_path,
        project_hooks: p.project_hooks,
        global_hooks: p.global_hooks,
        folder_id: p.folder_id,
        folder_name: p.folder_name,
    }
}

/// What the close asks of the host.
pub open spec fn close_action(c: CloseView) -> CloseActionView {
    let p = c.plan;
    match c.state {
        CloseStateView::Merging => CloseActionView::Merge(close_job(p)),
        CloseStateView::Conflict { reason, hook } => CloseActionView::RunHook(hook),
        CloseStateView::HookTerminal => CloseActionView::StartHook(
            close_hook(p, HookKind::BeforeWorktreeRemove, Some(p.main_repo_path)),
        ),
        CloseStateView::Hook => CloseActionView::FinishHook(
            close_hook(p, HookKind::BeforeWorktreeRemove, Some(p.main_repo_path)),
        ),
        CloseStateView::DirtyHook => CloseActionView::RunHook(
            close_hook(p, HookKind::DirtyWorktreeClose, None),
        ),
        CloseStateView::Removing => CloseActionView::Remove { force: p.dirty && !c.did_stash },
        CloseStateView::Branch => CloseActionView::DeleteBranch {
            checkout: p.main_repo_path,
            branch: p.branch,
        },
        CloseStateView::Over { .. } => CloseActionView::Nothing,
    }
}

/// Whether the remote had nothing to delete, by what git said.
pub open spec fn nothing_on_remote(error: Seq<char>) -> bool {
    holds_part(error, "remote ref does not exist"@) || holds_part(
        error,
        "does not appear to be a git repository"@,
    )
}

/// What is left of the branch, by what went wrong in deleting it here and on
/// the remote.
pub open spec fn branch_left(local: Option<Seq<char>>, remote: Option<Seq<char>>) -> Option<
    Seq<char>,
> {
    let elsewhere = match remote {
        Some(e) => if nothing_on_remote(e) {
            None
        } else {
            Some("remote: "@ + e)
        },
        None => None,
    };
    match (local, elsewhere) {
        (None, _) => elsewhere,
        (Some(l), None) => Some("local: "@ + l),
        (Some(l), Some(r)) => Some("local: "@ + l + "; "@ + r),
    }
}

/// The toast for a branch that outlived its worktree.
pub open spec fn survival_toast(branch: Seq<char>, error: Seq<char>) -> ToastView {
    ToastView {
        id: None,
        level: ToastLevel::Warning,
        message: "Branch '"@ + branch + "' was not deleted"@,
        detail: Some(error),
        ttl: None,
        actions: Seq::empty(),
    }
}

/// The state of a close that ends without more ado.
pub open spec fn ended(error: Option<Seq<char>>) -> CloseStateView {
    CloseStateView::Over { error, toast: None }
}

/// The close `c` after the reply `r`. One that it does not wait for changes
/// nothing.
pub open spec fn close_replied(c: CloseView, r: CloseReplyView) -> CloseView {
    let p = c.plan;
    match (c.state, r) {
        (CloseStateView::Merging, CloseReplyView::Merged(o)) => match o {
            OutcomeView::Merged { did_stash } => CloseView {
                did_stash: c.did_stash || did_stash,
                state: past_merge(p, c.did_stash || did_stash),
                ..c
            },
            OutcomeView::RebaseConflict { error, hook } => CloseView {
                state: CloseStateView::Conflict { reason: error, hook },
                ..c
            },
            OutcomeView::Failed(e) => CloseView { state: ended(Some(e)), ..c },
        },
        (CloseStateView::Conflict { reason, hook }, CloseReplyView::HookRan { .. }) => CloseView {
            state: ended(Some(reason)),
            ..c
        },
        (CloseStateView::HookTerminal, CloseReplyView::HookStarted(rs)) => CloseView {
            state: ended(
                if rs.len() > 0 {
                    None
                } else {
                    Some("before_worktree_remove hook failed to start"@)
                },
            ),
            ..c
        },
        (CloseStateView::Hook, CloseReplyView::HookFinished(e)) => CloseView {
            state: match e {
                Some(e) => ended(Some("before_worktree_remove hook failed: "@ + e)),
                None => past_hook(p, c.did_stash),
            },
            ..c
        },
        (CloseStateView::DirtyHook, CloseReplyView::HookRan { .. }) => CloseView {
            state: CloseStateView::Removing,
            ..c
        },
        (CloseStateView::Removing, CloseReplyView::Removed(e)) => CloseView {
            state: if e is None && p.delete_branch {
                CloseStateView::Branch
            } else {
                ended(e)
            },
            ..c
        },
        (
            CloseStateView::Branch,
            CloseReplyView::BranchDeleted { local, remote },
        ) => CloseView {
            state: CloseStateView::Over {
                error: None,
                toast: match branch_left(local, remote) {
                    Some(e) => Some(survival_toast(p.branch, e)),
                    None => None,
                },
            },
            ..c
        },
        _ => c,
    }
}

/// `w` and `x` once the panes that a hook wants are there.
pub open spec fn commands_run(
    w: WorkspaceView,
    x: CxView,
    id: Seq<char>,
    cs: Seq<(Seq<char>, Seq<(Seq<char>, Seq<char>)>)>,
    n: nat,
) -> (WorkspaceView, CxView)
    decreases n,
{
    if n == 0 || n > cs.len() {
        (w, x)
    } else {
        let (w1, x1) = commands_run(w, x, id, cs, (n - 1) as nat);
        (
            pane_added(w1, id, command_terminal(cs[n - 1].0, cs[n - 1].1)),
            if ws_project(w1, id) is Some {
                announced(x1)
            } else {
                x1
            },
        )
    }
}

/// `w` and `x` once the terminals of a hook are known.
pub open spec fn results_registered(w: WorkspaceView, x: CxView, rs: Seq<HookResultView>) -> (
    WorkspaceView,
    CxView,
) {
    if rs.len() == 0 {
        (w, x)
    } else {
        (
            changed(
                w,
                with_projects(w.data, results_noted(w.data.projects, rs, rs.len())),
            ),
            announced(x),
        )
    }
}

/// `w` in which the worktree of `p` goes once its hook terminal is done.
pub open spec fn close_deferred(w: WorkspaceView, p: PendingWorktreeView) -> WorkspaceView {
    closing_begun(
        WorkspaceView { pending_worktree_closes: w.pending_worktree_closes.push(p), ..w },
        p.project_id,
    )
}

/// What the reply `r` to the close `c` does to `w` and `x`.
pub open spec fn close_noted(
    w: WorkspaceView,
    x: CxView,
    c: CloseView,
    r: CloseReplyView,
) -> (WorkspaceView, CxView) {
    let p = c.plan;
    match (c.state, r) {
        (
            CloseStateView::Conflict { .. } | CloseStateView::DirtyHook,
            CloseReplyView::HookRan { commands, results },
        ) => {
            let (w1, x1) = commands_run(w, x, p.project_id, commands, commands.len());
            results_registered(w1, x1, results)
        },
        (CloseStateView::HookTerminal, CloseReplyView::HookStarted(rs)) => if rs.len() > 0 {
            let (w1, x1) = results_registered(w, x, rs);
            (
                close_deferred(
                    w1,
                    PendingWorktreeView {
                        project_id: p.project_id,
                        hook_terminal_id: rs[0].terminal_id,
                        branch: p.branch,
                        main_repo_path: p.main_repo_path,
                        did_stash: c.did_stash,
                        delete_branch: p.delete_branch,
                    },
                ),
                x1,
            )
        } else {
            (w, x)
        },
        _ => (w, x),
    }
}

/// A repository without a remote, or a branch that was never pushed, leaves
/// nothing to delete there.
fn nothing_to_delete_on_remote(error: &str) -> (r: bool)
    ensures
        r == nothing_on_remote(error@),
{
    has_part(error, "remote ref does not exist") || has_part(
        error,
        "does not appear to be a git repository",
    )
}

/// What is left of a branch, by what came of deleting it here and on the
/// remote.
pub fn branch_survival(local: &Result<(), String>, remote: &Result<(), String>) -> (r: Result<
    (),
    String,
>)
    ensures
        refusal_of(r) == branch_left(refusal_of(*local), refusal_of(*remote)),
{
    let elsewhere: Option<String> = match remote {
        Err(e) => if nothing_to_delete_on_remote(e.as_str()) {
            None
        } else {
            Some(join("remote: ", e.as_str()))
        },
        Ok(_) => None,
    };
    match local {
        Ok(_) => match elsewhere {
            Some(s) => Err(s),
            None => Ok(()),
        },
        Err(l) => {
            let mut s = join("local: ", l.as_str());
            if let Some(r) = elsewhere {
                s.append("; ");
                s.append(r.as_str());
            }
            Err(s)
        },
    }
}

/// The toast for a branch that outlived its worktree: the close itself went
/// well.
pub fn surviving_branch_toast(branch: &str, error: &str) -> (r: Toast)
    ensures
        r@ == survival_toast(branch@, error@),
{
    let r = Toast {
        id: None,
        level: ToastLevel::Warning,
        message: join3("Branch '", branch, "' was not deleted"),
        detail: Some(error.to_owned()),
        ttl: None,
        actions: Vec::new(),
    };
    proof {
        assert(action_views(r.actions@) =~= Seq::<ToastActionView>::empty());
    }
    r
}

/// The text, or none.
fn text_or_empty(o: &Option<String>) -> (r: String)
    ensures
        r@ == or_empty(opt_text(*o)),
{
    match o {
        Some(s) => s.clone(),
        None => {
            let r = String::new();
            proof {
                assert(r@ =~= Seq::<char>::empty());
            }
            r
        },
    }
}

impl Workspace {
    /// Put off the removal of a worktree until its hook terminal is done.
    pub fn register_pending_worktree_close(&mut self, pending: PendingWorktreeClose)
        ensures
            final(self)@ == close_deferred(old(self)@, pending@),
    {
        let ghost before = self.pending_worktree_closes@;
        let id = pending.project_id.clone();
        self.pending_worktree_closes.push(pending);
        proof {
            assert(pending_worktree_views(self.pending_worktree_closes@)
                =~= pending_worktree_views(before).push(pending@));
        }
        self.mark_closing_project_authoritative(id.as_str());
    }

    /// Begin to close a worktree.
    pub fn close_worktree(
        &self,
        f: &PathFacts,
        project_id: &str,
        checkout: &Resolution,
        options: CloseOptions,
        facts: &CloseFacts,
        global_hooks: &HooksConfig,
        runner: bool,
    ) -> (r: Result<WorktreeClose, String>)
        ensures
            match r {
                Ok(c) => {
                    &&& close_refusal(self@, f@, project_id@, checkout@, facts.dirty) is None
                    &&& c@ == close_start(
                        close_plan(self@, project_id@, options, *facts, *global_hooks, runner),
                        false,
                    )
                },
                Err(e) => close_refusal(self@, f@, project_id@, checkout@, facts.dirty) == Some(e@),
            },
    {
        self.close_worktree_after_merge(
            f,
            project_id,
            checkout,
            options,
            facts,
            false,
            global_hooks,
            runner,
        )
    }

    /// Begin to close a worktree that may have been merged already; `did_stash`
    /// says whether changes were stashed for that.
    pub fn close_worktree_after_merge(
        &self,
        f: &PathFacts,
        project_id: &str,
        checkout: &Resolution,
        options: CloseOptions,
        facts: &CloseFacts,
        did_stash: bool,
        global_hooks: &HooksConfig,
        runner: bool,
    ) -> (r: Result<WorktreeClose, String>)
        ensures
            match r {
                Ok(c) => {
                    &&& close_refusal(self@, f@, project_id@, checkout@, facts.dirty) is None
                    &&& c@ == close_start(
                        close_plan(self@, project_id@, options, *facts, *global_hooks, runner),
                        did_stash,
                    )
                },
                Err(e) => close_refusal(self@, f@, project_id@, checkout@, facts.dirty) == Some(e@),
            },
    {
        if self.creating.contains(project_id) {
            return Err("worktree is still being created".to_owned());
        }
        if self.closing.contains(project_id) {
            return Err("worktree is already closing".to_owned());
        }
        if let Err(e) = self.ensure_worktree_removal_claim_allowed(f, project_id, checkout) {
            return Err(e);
        }
        let dirty: bool = match close_dirty_state(facts.dirty) {
            Ok(d) => d,
            Err(e) => {
                return Err(e);
            },
        };
        let p = match self.project(project_id) {
            Some(p) => p,
            None => {
                return Err("Project not found".to_owned());
            },
        };
        let (folder_id, folder_name): (Option<String>, Option<String>) =
            match self.folder_for_project_or_parent(project_id) {
            Some(x) => (Some(x.id.clone()), Some(x.name.clone())),
            None => (None, None),
        };
        let branch = text_or_empty(&facts.branch);
        let default_branch = text_or_empty(&facts.default_branch);
        let merge: bool = options.merge && (!dirty || options.stash) && !branch.as_str().is_empty()
            && !default_branch.as_str().is_empty();
        let plan = ClosePlan {
            project_id: project_id.to_owned(),
            project_name: p.name.clone(),
            project_path: p.path.clone(),
            project_hooks: p.hooks.clone(),
            global_hooks: global_hooks.clone(),
            main_repo_path: text_or_empty(&self.worktree_parent_path(project_id)),
            branch,
            default_branch,
            merge,
            stash: options.stash && dirty,
            fetch: options.fetch,
            push: options.push,
            delete_branch: options.delete_branch && (merge || !options.merge),
            dirty,
            runner,
            folder_id,
            folder_name,
        };
        let state = if plan.merge {
            CloseState::Merging
        } else {
            plan.after_merge(did_stash)
        };
        Ok(WorktreeClose { plan, did_stash, state })
    }

    /// Take in what came of a hook: the panes that it wants, and the terminals
    /// that it got.
    fn note_hook(
        &mut self,
        project_id: &str,
        commands: &Vec<HookCommand>,
        results: &Vec<HookTerminalResult>,
        cx: &mut WorkspaceCx,
    )
        ensures
            (final(self)@, final(cx)@) == ({
                let (w1, x1) = commands_run(
                    old(self)@,
                    old(cx)@,
                    project_id@,
                    hook_commands(commands@),
                    commands@.len(),
                );
                results_registered(w1, x1, hook_result_views(results@))
            }),
    {
        let ghost w0 = self@;
        let ghost x0 = cx@;
        let mut i: usize = 0;
        while i < commands.len()
            invariant
                i <= commands.len(),
                (self@, cx@) == commands_run(
                    w0,
                    x0,
                    project_id@,
                    hook_commands(commands@),
                    i as nat,
                ),
            decreases commands.len() - i,
        {
            self.add_terminal_with_command(
                project_id,
                commands[i].command.as_str(),
                &commands[i].env_vars,
                cx,
            );
            proof {
                assert(hook_commands(commands@)[i as int] == commands@[i as int]@);
            }
            i = i + 1;
        }
        self.register_hook_results(results, cx);
    }
}

impl ClosePlan {
    /// Whether a hook runs before the worktree is removed.
    fn before_remove(&self) -> (r: bool)
        ensures
            r == has_before_remove(self@),
    {
        self.project_hooks.worktree.before_remove.is_some()
            || self.global_hooks.worktree.before_remove.is_some()
    }

    /// The state once there is nothing left to merge.
    fn after_merge(&self, did_stash: bool) -> (r: CloseState)
        ensures
            r@ == past_merge(self@, did_stash),
    {
        if self.before_remove() {
            if self.runner {
                CloseState::HookTerminal
            } else {
                CloseState::Hook
            }
        } else {
            self.after_hook(did_stash)
        }
    }

    /// The state once the hook that runs first has run.
    fn after_hook(&self, did_stash: bool) -> (r: CloseState)
        ensures
            r@ == past_hook(self@, did_stash),
    {
        if self.dirty && !did_stash {
            CloseState::DirtyHook
        } else {
            CloseState::Removing
        }
    }

    fn hook(&self, kind: HookKind, main_repo_path: Option<String>) -> (r: HookRequest)
        ensures
            r@ == close_hook(self@, kind, opt_text(main_repo_path)),
    {
        HookRequest {
            kind,
            project_hooks: self.project_hooks.clone(),
            global_hooks: self.global_hooks.clone(),
            project_id: self.project_id.clone(),
            project_name: self.project_name.clone(),
            project_path: self.project_path.clone(),
            branch: Some(self.branch.clone()),
            target_branch: None,
            main_repo_path,
            error: None,
            folder_id: copy_opt(&self.folder_id),
            folder_name: copy_opt(&self.folder_name),
        }
    }

    /// The merge of the close.
    fn job(&self) -> (r: MergeJob)
        ensures
            r@ == close_job(self@),
    {
        MergeJob {
            stash: self.stash,
            fetch: self.fetch,
            push: self.push,
            project_id: self.project_id.clone(),
            project_name: self.project_name.clone(),
            project_path: self.project_path.clone(),
            branch: self.branch.clone(),
            default_branch: self.default_branch.clone(),
            main_repo_path: self.main_repo_path.clone(),
            project_hooks: self.project_hooks.clone(),
            global_hooks: self.global_hooks.clone(),
            folder_id: copy_opt(&self.folder_id),
            folder_name: copy_opt(&self.folder_name),
        }
    }

    /// The removal that waits for the hook terminal.
    fn pending(&self, hook_terminal_id: String, did_stash: bool) -> (r: PendingWorktreeClose)
        ensures
            r@ == (PendingWorktreeView {
                project_id: self@.project_id,
                hook_terminal_id: hook_terminal_id@,
                branch: self@.branch,
                main_repo_path: self@.main_repo_path,
                did_stash,
                delete_branch: self@.delete_branch,
            }),
    {
        PendingWorktreeClose {
            project_id: self.project_id.clone(),
            hook_terminal_id,
            branch: self.branch.clone(),
            main_repo_path: self.main_repo_path.clone(),
            did_stash,
            delete_branch: self.delete_branch,
        }
    }
}

/// A close that ends without more ado.
fn over(error: Option<String>) -> (r: CloseState)
    ensures
        r@ == ended(opt_text(error)),
{
    CloseState::Over { error, toast: None }
}

impl WorktreeClose {
    /// What the host is to do next.
    pub fn action(&self) -> (r: CloseAction)
        ensures
            r@ == close_action(self@),
    {
        let p = &self.plan;
        match &self.state {
            CloseState::Merging => CloseAction::Merge(p.job()),
            CloseState::Conflict { reason, hook } => CloseAction::RunHook(hook.clone()),
            CloseState::HookTerminal => CloseAction::StartHook(
                p.hook(HookKind::BeforeWorktreeRemove, Some(p.main_repo_path.clone())),
            ),
            CloseState::Hook => CloseAction::FinishHook(
                p.hook(HookKind::BeforeWorktreeRemove, Some(p.main_repo_path.clone())),
            ),
            CloseState::DirtyHook => CloseAction::RunHook(
                p.hook(HookKind::DirtyWorktreeClose, None),
            ),
            CloseState::Removing => CloseAction::Remove { force: p.dirty && !self.did_stash },
            CloseState::Branch => CloseAction::DeleteBranch {
                checkout: p.main_repo_path.clone(),
                branch: p.branch.clone(),
            },
            CloseState::Over { .. } => CloseAction::Nothing,
        }
    }

    /// Take in what came of what the host was asked for.
    pub fn advance(self, workspace: &mut Workspace, reply: CloseReply, cx: &mut WorkspaceCx) -> (r:
        Self)
        ensures
            r@ == close_replied(self@, reply@),
            (final(workspace)@, final(cx)@) == close_noted(
                old(workspace)@,
                old(cx)@,
                self@,
                reply@,
            ),
    {
        let WorktreeClose { plan, did_stash, state } = self;
        match (state, reply) {
            (CloseState::Merging, CloseReply::Merged(o)) => match o {
                CloseWorktreeGitOutcome::Merged { did_stash: stashed } => {
                    let did_stash: bool = did_stash || stashed;
                    let state = plan.after_merge(did_stash);
                    WorktreeClose { plan, did_stash, state }
                },
                CloseWorktreeGitOutcome::RebaseConflict { error, hook } => WorktreeClose {
                    plan,
                    did_stash,
                    state: CloseState::Conflict { reason: error, hook },
                },
                CloseWorktreeGitOutcome::Failed(e) => WorktreeClose {
                    plan,
                    did_stash,
                    state: over(Some(e)),
                },
            },
            (
                CloseState::Conflict { reason, hook },
                CloseReply::HookRan { commands, results },
            ) => {
                workspace.note_hook(plan.project_id.as_str(), &commands, &results, cx);
                WorktreeClose { plan, did_stash, state: over(Some(reason)) }
            },
            (CloseState::DirtyHook, CloseReply::HookRan { commands, results }) => {
                workspace.note_hook(plan.project_id.as_str(), &commands, &results, cx);
                WorktreeClose { plan, did_stash, state: CloseState::Removing }
            },
            (CloseState::HookTerminal, CloseReply::HookStarted(results)) => {
                if results.len() == 0 {
                    return WorktreeClose {
                        plan,
                        did_stash,
                        state: over(Some("before_worktree_remove hook failed to start".to_owned())),
                    };
                }
                workspace.register_hook_results(&results, cx);
                let pending = plan.pending(results[0].terminal_id.clone(), did_stash);
                workspace.register_pending_worktree_close(pending);
                WorktreeClose { plan, did_stash, state: over(None) }
            },
            (CloseState::Hook, CloseReply::HookFinished(result)) => {
                let state = match result {
                    Err(e) => over(
                        Some(join("before_worktree_remove hook failed: ", e.as_str())),
                    ),
                    Ok(_) => plan.after_hook(did_stash),
                };
                WorktreeClose { plan, did_stash, state }
            },
            (CloseState::Removing, CloseReply::Removed(result)) => {
                let state = match result {
                    Err(e) => over(Some(e)),
                    Ok(_) => if plan.delete_branch {
                        CloseState::Branch
                    } else {
                        over(None)
                    },
                };
                WorktreeClose { plan, did_stash, state }
            },
            (CloseState::Branch, CloseReply::BranchDeleted { local, remote }) => {
                let toast = match branch_survival(&local, &remote) {
                    Err(e) => Some(surviving_branch_toast(plan.branch.as_str(), e.as_str())),
                    Ok(_) => None,
                };
                WorktreeClose { plan, did_stash, state: CloseState::Over { error: None, toast } }
            },
            (state, _) => WorktreeClose { plan, did_stash, state },
        }
    }

    /// What came of it, once it is over: the error, and what there is to tell.
    pub fn outcome(self) -> (r: Option<(Option<String>, Option<Toast>)>)
        ensures
            match r {
                Some(o) => self@.state == (CloseStateView::Over {
                    error: opt_text(o.0),
                    toast: opt_toast(o.1),
                }),
                None => !(self@.state is Over),
            },
    {
        match self.state {
            CloseState::Over { error, toast } => Some((error, toast)),
            _ => None,
        }
    }
}

/// A close begun at `p`, after these replies.
pub open spec fn close_run(p: ClosePlanView, did_stash: bool, rs: Seq<CloseReplyView>) -> CloseView
    decreases rs.len(),
{
    if rs.len() == 0 {
        close_start(p, did_stash)
    } else {
        close_replied(close_run(p, did_stash, rs.drop_last()), rs.last())
    }
}

/// What could not be read is never taken for a dirty checkout: no close begins,
/// so none removes by force.
pub proof fn unknown_changes_are_never_lost(
    w: WorkspaceView,
    f: PathFactsView,
    id: Seq<char>,
    checkout: ResolutionView,
)
    ensures
        close_refusal(w, f, id, checkout, DirtyCheck::Unknown) is Some,
{
}

/// Whether the reply `i` told the close that its merge had stashed changes.
pub open spec fn merge_stashed(
    p: ClosePlanView,
    did_stash: bool,
    rs: Seq<CloseReplyView>,
    i: int,
) -> bool {
    &&& close_run(p, did_stash, rs.take(i)).state is Merging
    &&& rs[i] == CloseReplyView::Merged(OutcomeView::Merged { did_stash: true })
}

/// A worktree is removed by force exactly when it is dirty and nothing was
/// stashed, neither before the close nor by its own merge.
pub proof fn force_is_for_unstashed_changes(p: ClosePlanView, did_stash: bool, rs: Seq<CloseReplyView>)
    requires
        close_action(close_run(p, did_stash, rs)) is Remove,
    ensures
        close_action(close_run(p, did_stash, rs)) == (CloseActionView::Remove {
            force: p.dirty && !close_run(p, did_stash, rs).did_stash,
        }),
{
    stash_is_remembered(p, did_stash, rs);
}

/// The plan of a close does not change. What the close holds stashed is what was
/// stashed before it or by its own merge; that is never forgotten.
pub proof fn stash_is_remembered(p: ClosePlanView, did_stash: bool, rs: Seq<CloseReplyView>)
    ensures
        close_run(p, did_stash, rs).plan == p,
        close_run(p, did_stash, rs).did_stash <==> did_stash || exists|i: int|
            0 <= i < rs.len() && #[trigger] merge_stashed(p, did_stash, rs, i),
    decreases rs.len(),
{
    if rs.len() > 0 {
        let n = rs.len() - 1;
        let before = rs.drop_last();
        stash_is_remembered(p, did_stash, before);
        assert(rs.take(n) =~= before);
        assert forall|i: int| 0 <= i < n implies #[trigger] merge_stashed(p, did_stash, rs, i)
            == merge_stashed(p, did_stash, before, i) by {
            assert(rs.take(i) =~= before.take(i));
        }
        if close_run(p, did_stash, before).did_stash && !did_stash {
            let i = choose|i: int|
                0 <= i < before.len() && #[trigger] merge_stashed(p, did_stash, before, i);
            assert(merge_stashed(p, did_stash, rs, i));
        }
        if close_run(p, did_stash, rs).did_stash && !close_run(p, did_stash, before).did_stash {
            assert(rs.last() == CloseReplyView::Merged(OutcomeView::Merged { did_stash: true }));
            assert(merge_stashed(p, did_stash, rs, n));
        }
        if !close_run(p, did_stash, rs).did_stash {
            assert(!merge_stashed(p, did_stash, rs, n));
            assert forall|i: int| 0 <= i < rs.len() implies !#[trigger] merge_stashed(
                p,
                did_stash,
                rs,
                i,
            ) by {
                assert(i < n ==> !merge_stashed(p, did_stash, before, i));
            }
        }
    }
}

/// A branch is deleted only once its worktree is gone, and only as the plan
/// has it.
pub proof fn branches_outlive_their_worktrees(
    p: ClosePlanView,
    did_stash: bool,
    rs: Seq<CloseReplyView>,
)
    requires
        close_action(close_run(p, did_stash, rs)) is DeleteBranch,
    ensures
        p.delete_branch,
        rs.contains(CloseReplyView::Removed(None)),
    decreases rs.len(),
{
    stash_is_remembered(p, did_stash, rs);
    assert(rs.len() > 0);
    let before = rs.drop_last();
    stash_is_remembered(p, did_stash, before);
    if close_run(p, did_stash, before).state is Branch {
        branches_outlive_their_worktrees(p, did_stash, before);
        let i = choose|i: int| 0 <= i < before.len() && before[i] == CloseReplyView::Removed(None);
        assert(rs[i] == CloseReplyView::Removed(None));
    } else {
        assert(rs[rs.len() - 1] == CloseReplyView::Removed(None));
    }
}

/// A branch that was to be merged is deleted only if it was: a plan that could
/// not merge what it was asked to keeps the branch.
pub proof fn unmerged_branches_stay(
    w: WorkspaceView,
    id: Seq<char>,
    o: CloseOptions,
    facts: CloseFacts,
    global: HooksConfig,
    runner: bool,
)
    requires
        o.merge,
        !close_plan(w, id, o, facts, global, runner).merge,
    ensures
        !close_plan(w, id, o, facts, global, runner).delete_branch,
{
}

/// A dirty worktree is merged only if its changes are stashed first.
pub proof fn dirty_worktrees_are_stashed_before_a_merge(
    w: WorkspaceView,
    id: Seq<char>,
    o: CloseOptions,
    facts: CloseFacts,
    global: HooksConfig,
    runner: bool,
)
    requires
        close_plan(w, id, o, facts, global, runner).merge,
        close_plan(w, id, o, facts, global, runner).dirty,
    ensures
        close_plan(w, id, o, facts, global, runner).stash,
{
}

} // verus!
