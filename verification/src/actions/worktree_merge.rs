//! Merging a worktree's branch before the worktree is closed.
//!
//! The host runs git and the hooks, one step at a time: it asks what to do
//! next, does it, and hands back what came of it.

use crate::state::HooksConfig;
use crate::text::{copy_opt, join, opt_text, refusal_of, same};
use crate::workspace::{HookKind, HookRequest, HookRequestView};
use vstd::prelude::*;

verus! {

/// What is to be merged, and how.
#[derive(Debug)]
pub struct MergeJob {
    pub stash: bool,
    pub fetch: bool,
    pub push: bool,
    pub project_id: String,
    pub project_name: String,
    pub project_path: String,
    pub branch: String,
    /// The branch that the merge goes into.
    pub default_branch: String,
    pub main_repo_path: String,
    pub project_hooks: HooksConfig,
    pub global_hooks: HooksConfig,
    pub folder_id: Option<String>,
    pub folder_name: Option<String>,
}

/// What a [`MergeJob`] stands for.
pub struct JobView {
    pub stash: bool,
    pub fetch: bool,
    pub push: bool,
    pub project_id: Seq<char>,
    pub project_name: Seq<char>,
    pub project_path: Seq<char>,
    pub branch: Seq<char>,
    pub default_branch: Seq<char>,
    pub main_repo_path: Seq<char>,
    pub project_hooks: HooksConfig,
    pub global_hooks: HooksConfig,
    pub folder_id: Option<Seq<char>>,
    pub folder_name: Option<Seq<char>>,
}

impl View for MergeJob {
    type V = JobView;

    open spec fn view(&self) -> JobView {
        JobView {
            stash: self.stash,
            fetch: self.fetch,
            push: self.push,
            project_id: self.project_id@,
            project_name: self.project_name@,
            project_path: self.project_path@,
            branch: self.branch@,
            default_branch: self.default_branch@,
            main_repo_path: self.main_repo_path@,
            project_hooks: self.project_hooks,
            global_hooks: self.global_hooks,
            folder_id: opt_text(self.folder_id),
            folder_name: opt_text(self.folder_name),
        }
    }
}

/// A step of the merge.
#[derive(Clone, Copy, Debug, PartialEq, Eq, Structural)]
pub enum MergeStep {
    /// See that the parent checkout sits on the branch to merge into.
    Destination,
    Stash,
    Fetch,
    PreMerge,
    Rebase,
    /// See it once more: a hook may have moved it.
    DestinationAgain,
    Merge,
    PostMerge,
    Push,
}

/// What came of a step.
#[derive(Debug)]
pub enum MergeReply {
    /// The branch that the parent checkout sits on.
    Branch(Option<String>),
    /// The step ran.
    Ran(Result<(), String>),
}

/// What a [`MergeReply`] stands for.
pub enum ReplyView {
    Branch(Option<Seq<char>>),
    /// The step ran, or failed for this reason.
    Ran(Option<Seq<char>>),
}

impl View for MergeReply {
    type V = ReplyView;

    open spec fn view(&self) -> ReplyView {
        match *self {
            MergeReply::Branch(b) => ReplyView::Branch(opt_text(b)),
            MergeReply::Ran(r) => ReplyView::Ran(refusal_of(r)),
        }
    }
}

/// What came of the merge.
#[derive(Debug)]
pub enum CloseWorktreeGitOutcome {
    /// It was made; whether changes were stashed for it.
    Merged { did_stash: bool },
    /// The rebase met a conflict. The hook is to run before the close is given
    /// up.
    RebaseConflict { error: String, hook: HookRequest },
    /// A step failed.
    Failed(String),
}

/// What a [`CloseWorktreeGitOutcome`] stands for.
pub enum OutcomeView {
    Merged { did_stash: bool },
    RebaseConflict { error: Seq<char>, hook: HookRequestView },
    Failed(Seq<char>),
}

impl View for CloseWorktreeGitOutcome {
    type V = OutcomeView;

    open spec fn view(&self) -> OutcomeView {
        match *self {
            CloseWorktreeGitOutcome::Merged { did_stash } => OutcomeView::Merged { did_stash },
            CloseWorktreeGitOutcome::RebaseConflict { error, hook } => OutcomeView::RebaseConflict {
                error: error@,
                hook: hook@,
            },
            CloseWorktreeGitOutcome::Failed(e) => OutcomeView::Failed(e@),
        }
    }
}

/// Where a merge stands.
#[derive(Debug)]
pub enum MergeState {
    /// This step is next.
    At(MergeStep),
    /// It failed, and the stashed changes are to be put back.
    Restoring(CloseWorktreeGitOutcome),
    Over(CloseWorktreeGitOutcome),
}

/// What a [`MergeState`] stands for.
pub enum MergeStateView {
    At(MergeStep),
    Restoring(OutcomeView),
    Over(OutcomeView),
}

impl View for MergeState {
    type V = MergeStateView;

    open spec fn view(&self) -> MergeStateView {
        match *self {
            MergeState::At(s) => MergeStateView::At(s),
            MergeState::Restoring(o) => MergeStateView::Restoring(o@),
            MergeState::Over(o) => MergeStateView::Over(o@),
        }
    }
}

/// What the host is to do.
#[derive(Debug)]
pub enum MergeAction {
    /// Read the branch that the checkout sits on.
    ReadBranch { checkout: String },
    Stash { checkout: String },
    Fetch { checkout: String },
    RunHook(HookRequest),
    Rebase { checkout: String, onto: String },
    /// Merge the branch, with a merge commit.
    Merge { checkout: String, branch: String },
    Push { checkout: String, branch: String },
    PopStash { checkout: String },
    Nothing,
}

/// What a [`MergeAction`] stands for.
pub enum MergeActionView {
    ReadBranch { checkout: Seq<char> },
    Stash { checkout: Seq<char> },
    Fetch { checkout: Seq<char> },
    RunHook(HookRequestView),
    Rebase { checkout: Seq<char>, onto: Seq<char> },
    Merge { checkout: Seq<char>, branch: Seq<char> },
    Push { checkout: Seq<char>, branch: Seq<char> },
    PopStash { checkout: Seq<char> },
    Nothing,
}

impl View for MergeAction {
    type V = MergeActionView;

    open spec fn view(&self) -> MergeActionView {
        match *self {
            MergeAction::ReadBranch { checkout } => MergeActionView::ReadBranch {
                checkout: checkout@,
            },
            MergeAction::Stash { checkout } => MergeActionView::Stash { checkout: checkout@ },
            MergeAction::Fetch { checkout } => MergeActionView::Fetch { checkout: checkout@ },
            MergeAction::RunHook(h) => MergeActionView::RunHook(h@),
            MergeAction::Rebase { checkout, onto } => MergeActionView::Rebase {
                checkout: checkout@,
                onto: onto@,
            },
            MergeAction::Merge { checkout, branch } => MergeActionView::Merge {
                checkout: checkout@,
                branch: branch@,
            },
            MergeAction::Push { checkout, branch } => MergeActionView::Push {
                checkout: checkout@,
                branch: branch@,
            },
            MergeAction::PopStash { checkout } => MergeActionView::PopStash { checkout: checkout@ },
            MergeAction::Nothing => MergeActionView::Nothing,
        }
    }
}

/// A merge on its way.
#[derive(Debug)]
pub struct MergePipeline {
    job: MergeJob,
    did_stash: bool,
    state: MergeState,
}

/// What a [`MergePipeline`] stands for.
pub struct MergeView {
    pub job: JobView,
    pub did_stash: bool,
    pub state: MergeStateView,
}

impl View for MergePipeline {
    type V = MergeView;

    closed spec fn view(&self) -> MergeView {
        MergeView { job: self.job@, did_stash: self.did_stash, state: self.state@ }
    }
}

/// Why nothing is merged into the checkout at `repo`, which sits on `current`.
pub open spec fn destination_refusal(
    repo: Seq<char>,
    target: Seq<char>,
    current: Option<Seq<char>>,
) -> Option<Seq<char>> {
    match current {
        Some(c) => if c == target {
            None
        } else {
            Some(
                "the checkout at "@ + repo + " is on '"@ + c + "', not the merge target '"@ + target
                    + "'; refusing to merge"@,
            )
        },
        None => Some(
            "could not read the current branch of "@ + repo + "; refusing to merge into '"@ + target
                + "'"@,
        ),
    }
}

/// A hook of the merge.
pub open spec fn merge_hook(
    job: JobView,
    kind: HookKind,
    error: Option<Seq<char>>,
) -> HookRequestView {
    HookRequestView {
        kind,
        project_hooks: job.project_hooks,
        global_hooks: job.global_hooks,
        project_id: job.project_id,
        project_name: job.project_name,
        project_path: job.project_path,
        branch: Some(job.branch),
        target_branch: Some(job.default_branch),
        main_repo_path: Some(job.main_repo_path),
        error,
        folder_id: job.folder_id,
        folder_name: job.folder_name,
    }
}

/// A merge that has not begun.
pub open spec fn merge_start(job: JobView) -> MergeView {
    MergeView { job, did_stash: false, state: MergeStateView::At(MergeStep::Destination) }
}

/// `m` at another step.
pub open spec fn at_step(m: MergeView, step: MergeStep) -> MergeView {
    MergeView { state: MergeStateView::At(step), ..m }
}

/// `m` once it has failed.
pub open spec fn given_up(m: MergeView, o: OutcomeView) -> MergeView {
    MergeView {
        state: if m.did_stash {
            MergeStateView::Restoring(o)
        } else {
            MergeStateView::Over(o)
        },
        ..m
    }
}

/// The first step once there is nothing left to stash.
pub open spec fn past_stash(job: JobView) -> MergeStep {
    if job.fetch {
        MergeStep::Fetch
    } else {
        MergeStep::PreMerge
    }
}

/// `m` once the merge has been made.
pub open spec fn merged(m: MergeView) -> MergeView {
    MergeView { state: MergeStateView::Over(OutcomeView::Merged { did_stash: m.did_stash }), ..m }
}

/// `m` once it is known that the parent checkout sits on `current`.
pub open spec fn destination_seen(m: MergeView, current: Option<Seq<char>>, next: MergeStep) -> MergeView {
    match destination_refusal(m.job.main_repo_path, m.job.default_branch, current) {
        Some(e) => given_up(m, OutcomeView::Failed(e)),
        None => at_step(m, next),
    }
}

/// `m` once the step `step` ran, or failed for the reason `e`.
pub open spec fn step_ran(m: MergeView, step: MergeStep, e: Option<Seq<char>>) -> MergeView {
    match (step, e) {
        (MergeStep::Stash, Some(e)) => given_up(m, OutcomeView::Failed("Stash failed: "@ + e)),
        (MergeStep::Stash, None) => at_step(
            MergeView { did_stash: true, ..m },
            past_stash(m.job),
        ),
        (MergeStep::Fetch, Some(e)) => given_up(m, OutcomeView::Failed("Fetch failed: "@ + e)),
        (MergeStep::Fetch, None) => at_step(m, MergeStep::PreMerge),
        (MergeStep::PreMerge, Some(e)) => given_up(
            m,
            OutcomeView::Failed("pre_merge hook failed: "@ + e),
        ),
        (MergeStep::PreMerge, None) => at_step(m, MergeStep::Rebase),
        (MergeStep::Rebase, Some(e)) => given_up(
            m,
            OutcomeView::RebaseConflict {
                error: "Rebase failed: "@ + e,
                hook: merge_hook(m.job, HookKind::RebaseConflict, Some(e)),
            },
        ),
        (MergeStep::Rebase, None) => at_step(m, MergeStep::DestinationAgain),
        (MergeStep::Merge, Some(e)) => given_up(m, OutcomeView::Failed("Merge failed: "@ + e)),
        (MergeStep::Merge, None) => at_step(m, MergeStep::PostMerge),
        (MergeStep::PostMerge, _) => if m.job.push {
            at_step(m, MergeStep::Push)
        } else {
            merged(m)
        },
        (MergeStep::Push, _) => merged(m),
        _ => m,
    }
}

/// `m` after the reply `r`. One that it does not wait for changes nothing.
pub open spec fn merge_replied(m: MergeView, r: ReplyView) -> MergeView {
    match (m.state, r) {
        (MergeStateView::At(MergeStep::Destination), ReplyView::Branch(b)) => destination_seen(
            m,
            b,
            if m.job.stash {
                MergeStep::Stash
            } else {
                past_stash(m.job)
            },
        ),
        (MergeStateView::At(MergeStep::DestinationAgain), ReplyView::Branch(b)) => destination_seen(
            m,
            b,
            MergeStep::Merge,
        ),
        (MergeStateView::At(step), ReplyView::Ran(e)) => step_ran(m, step, e),
        (MergeStateView::Restoring(o), ReplyView::Ran(_)) => MergeView {
            state: MergeStateView::Over(o),
            ..m
        },
        _ => m,
    }
}

/// What `m` asks of the host.
pub open spec fn merge_action(m: MergeView) -> MergeActionView {
    let job = m.job;
    match m.state {
        MergeStateView::Over(_) => MergeActionView::Nothing,
        MergeStateView::Restoring(_) => MergeActionView::PopStash { checkout: job.project_path },
        MergeStateView::At(step) => match step {
            MergeStep::Destination | MergeStep::DestinationAgain => MergeActionView::ReadBranch {
                checkout: job.main_repo_path,
            },
            MergeStep::Stash => MergeActionView::Stash { checkout: job.project_path },
            MergeStep::Fetch => MergeActionView::Fetch { checkout: job.project_path },
            MergeStep::PreMerge => MergeActionView::RunHook(
                merge_hook(job, HookKind::PreMerge, None),
            ),
            MergeStep::Rebase => MergeActionView::Rebase {
                checkout: job.project_path,
                onto: job.default_branch,
            },
            MergeStep::Merge => MergeActionView::Merge {
                checkout: job.main_repo_path,
                branch: job.branch,
            },
            MergeStep::PostMerge => MergeActionView::RunHook(
                merge_hook(job, HookKind::PostMerge, None),
            ),
            MergeStep::Push => MergeActionView::Push {
                checkout: job.main_repo_path,
                branch: job.default_branch,
            },
        },
    }
}

/// A merge begun at `job`, after these replies.
pub open spec fn merge_run(job: JobView, rs: Seq<ReplyView>) -> MergeView
    decreases rs.len(),
{
    if rs.len() == 0 {
        merge_start(job)
    } else {
        merge_replied(merge_run(job, rs.drop_last()), rs.last())
    }
}

/// How many replies say that the parent checkout sits on `target`.
pub open spec fn confirmations(rs: Seq<ReplyView>, target: Seq<char>) -> nat
    decreases rs.len(),
{
    if rs.len() == 0 {
        0
    } else {
        confirmations(rs.drop_last(), target) + if rs.last() == ReplyView::Branch(Some(target)) {
            1nat
        } else {
            0
        }
    }
}

/// Whether `m` waits for a reply like `r`.
pub open spec fn awaits(m: MergeView, r: ReplyView) -> bool {
    match m.state {
        MergeStateView::Over(_) => false,
        MergeStateView::Restoring(_) => r is Ran,
        MergeStateView::At(step) => (r is Branch) == (step == MergeStep::Destination || step
            == MergeStep::DestinationAgain),
    }
}

/// How many replies `m` can still wait for.
pub open spec fn steps_left(m: MergeView) -> nat {
    match m.state {
        MergeStateView::Over(_) => 0,
        MergeStateView::Restoring(_) => 1,
        MergeStateView::At(step) => match step {
            MergeStep::Push => 1,
            MergeStep::PostMerge => 2,
            MergeStep::Merge => 3,
            MergeStep::DestinationAgain => 4,
            MergeStep::Rebase => 5,
            MergeStep::PreMerge => 6,
            MergeStep::Fetch => 7,
            MergeStep::Stash => 8,
            MergeStep::Destination => 9,
        },
    }
}

/// Whether nothing is merged into the checkout at `repo`, which sits on
/// `current`.
pub fn verify_merge_destination(repo: &str, target: &str, current: &Option<String>) -> (r: Result<
    (),
    String,
>)
    ensures
        refusal_of(r) == destination_refusal(repo@, target@, opt_text(*current)),
{
    match current {
        Some(c) => {
            if same(c.as_str(), target) {
                return Ok(());
            }
            let mut s = join("the checkout at ", repo);
            s.append(" is on '");
            s.append(c.as_str());
            s.append("', not the merge target '");
            s.append(target);
            s.append("'; refusing to merge");
            Err(s)
        },
        None => {
            let mut s = join("could not read the current branch of ", repo);
            s.append("; refusing to merge into '");
            s.append(target);
            s.append("'");
            Err(s)
        },
    }
}

impl MergePipeline {
    /// A merge that has not begun.
    pub fn new(job: MergeJob) -> (r: Self)
        ensures
            r@ == merge_start(job@),
    {
        MergePipeline { job, did_stash: false, state: MergeState::At(MergeStep::Destination) }
    }

    fn hook(&self, kind: HookKind, error: Option<String>) -> (r: HookRequest)
        ensures
            r@ == merge_hook(self@.job, kind, opt_text(error)),
    {
        let job = &self.job;
        HookRequest {
            kind,
            project_hooks: job.project_hooks.clone(),
            global_hooks: job.global_hooks.clone(),
            project_id: job.project_id.clone(),
            project_name: job.project_name.clone(),
            project_path: job.project_path.clone(),
            branch: Some(job.branch.clone()),
            target_branch: Some(job.default_branch.clone()),
            main_repo_path: Some(job.main_repo_path.clone()),
            error,
            folder_id: copy_opt(&job.folder_id),
            folder_name: copy_opt(&job.folder_name),
        }
    }

    /// What the host is to do next.
    pub fn action(&self) -> (r: MergeAction)
        ensures
            r@ == merge_action(self@),
    {
        let job = &self.job;
        match &self.state {
            MergeState::Over(_) => MergeAction::Nothing,
            MergeState::Restoring(_) => MergeAction::PopStash {
                checkout: job.project_path.clone(),
            },
            MergeState::At(step) => match step {
                MergeStep::Destination | MergeStep::DestinationAgain => MergeAction::ReadBranch {
                    checkout: job.main_repo_path.clone(),
                },
                MergeStep::Stash => MergeAction::Stash { checkout: job.project_path.clone() },
                MergeStep::Fetch => MergeAction::Fetch { checkout: job.project_path.clone() },
                MergeStep::PreMerge => MergeAction::RunHook(self.hook(HookKind::PreMerge, None)),
                MergeStep::Rebase => MergeAction::Rebase {
                    checkout: job.project_path.clone(),
                    onto: job.default_branch.clone(),
                },
                MergeStep::Merge => MergeAction::Merge {
                    checkout: job.main_repo_path.clone(),
                    branch: job.branch.clone(),
                },
                MergeStep::PostMerge => MergeAction::RunHook(self.hook(HookKind::PostMerge, None)),
                MergeStep::Push => MergeAction::Push {
                    checkout: job.main_repo_path.clone(),
                    branch: job.default_branch.clone(),
                },
            },
        }
    }

    fn go(self, step: MergeStep) -> (r: Self)
        ensures
            r@ == at_step(self@, step),
    {
        MergePipeline { job: self.job, did_stash: self.did_stash, state: MergeState::At(step) }
    }

    fn fail(self, o: CloseWorktreeGitOutcome) -> (r: Self)
        ensures
            r@ == given_up(self@, o@),
    {
        let state = if self.did_stash {
            MergeState::Restoring(o)
        } else {
            MergeState::Over(o)
        };
        MergePipeline { job: self.job, did_stash: self.did_stash, state }
    }

    fn fail_with(self, what: &str, e: &str) -> (r: Self)
        ensures
            r@ == given_up(self@, OutcomeView::Failed(what@ + e@)),
    {
        self.fail(CloseWorktreeGitOutcome::Failed(join(what, e)))
    }

    fn done(self) -> (r: Self)
        ensures
            r@ == merged(self@),
    {
        let did_stash = self.did_stash;
        MergePipeline {
            job: self.job,
            did_stash,
            state: MergeState::Over(CloseWorktreeGitOutcome::Merged { did_stash }),
        }
    }

    fn destination(self, current: &Option<String>, next: MergeStep) -> (r: Self)
        ensures
            r@ == destination_seen(self@, opt_text(*current), next),
    {
        match verify_merge_destination(
            self.job.main_repo_path.as_str(),
            self.job.default_branch.as_str(),
            current,
        ) {
            Ok(_) => self.go(next),
            Err(e) => self.fail(CloseWorktreeGitOutcome::Failed(e)),
        }
    }

    fn skip_stash(&self) -> (r: MergeStep)
        ensures
            r == past_stash(self@.job),
    {
        if self.job.fetch {
            MergeStep::Fetch
        } else {
            MergeStep::PreMerge
        }
    }

    fn ran(self, step: MergeStep, result: Result<(), String>) -> (r: Self)
        ensures
            r@ == step_ran(self@, step, refusal_of(result)),
    {
        match result {
            Ok(_) => match step {
                MergeStep::Stash => {
                    let next = self.skip_stash();
                    MergePipeline { job: self.job, did_stash: true, state: MergeState::At(next) }
                },
                MergeStep::Fetch => self.go(MergeStep::PreMerge),
                MergeStep::PreMerge => self.go(MergeStep::Rebase),
                MergeStep::Rebase => self.go(MergeStep::DestinationAgain),
                MergeStep::Merge => self.go(MergeStep::PostMerge),
                MergeStep::PostMerge => if self.job.push {
                    self.go(MergeStep::Push)
                } else {
                    self.done()
                },
                MergeStep::Push => self.done(),
                _ => self,
            },
            Err(e) => match step {
                MergeStep::Stash => self.fail_with("Stash failed: ", e.as_str()),
                MergeStep::Fetch => self.fail_with("Fetch failed: ", e.as_str()),
                MergeStep::PreMerge => self.fail_with("pre_merge hook failed: ", e.as_str()),
                MergeStep::Rebase => {
                    let error = join("Rebase failed: ", e.as_str());
                    let hook = self.hook(HookKind::RebaseConflict, Some(e));
                    self.fail(CloseWorktreeGitOutcome::RebaseConflict { error, hook })
                },
                MergeStep::Merge => self.fail_with("Merge failed: ", e.as_str()),
                MergeStep::PostMerge => if self.job.push {
                    self.go(MergeStep::Push)
                } else {
                    self.done()
                },
                MergeStep::Push => self.done(),
                _ => self,
            },
        }
    }

    /// Take in what came of the step that the host was asked for.
    pub fn advance(self, reply: MergeReply) -> (r: Self)
        ensures
            r@ == merge_replied(self@, reply@),
    {
        match self.state {
            MergeState::Over(_) => self,
            MergeState::Restoring(o) => match reply {
                MergeReply::Ran(_) => MergePipeline {
                    job: self.job,
                    did_stash: self.did_stash,
                    state: MergeState::Over(o),
                },
                MergeReply::Branch(_) => MergePipeline {
                    job: self.job,
                    did_stash: self.did_stash,
                    state: MergeState::Restoring(o),
                },
            },
            MergeState::At(step) => match reply {
                MergeReply::Ran(result) => self.ran(step, result),
                MergeReply::Branch(b) => match step {
                    MergeStep::Destination => {
                        let next = if self.job.stash {
                            MergeStep::Stash
                        } else {
                            self.skip_stash()
                        };
                        self.destination(&b, next)
                    },
                    MergeStep::DestinationAgain => self.destination(&b, MergeStep::Merge),
                    _ => self,
                },
            },
        }
    }

    /// What came of it, once it is over.
    pub fn outcome(self) -> (r: Option<CloseWorktreeGitOutcome>)
        ensures
            match r {
                Some(o) => self@.state == MergeStateView::Over(o@),
                None => !(self@.state is Over),
            },
    {
        match self.state {
            MergeState::Over(o) => Some(o),
            _ => None,
        }
    }
}

/// Every reply that a merge waits for brings it nearer to its end.
pub proof fn every_merge_ends(m: MergeView, r: ReplyView)
    requires
        awaits(m, r),
    ensures
        steps_left(merge_replied(m, r)) < steps_left(m),
        steps_left(m) <= 9,
{
}

/// A merge asks for something exactly as long as it is not over.
pub proof fn merges_ask_until_they_are_over(m: MergeView)
    ensures
        merge_action(m) is Nothing == (m.state is Over),
{
}

/// Nothing is merged before the parent checkout was seen twice on the branch
/// that the merge goes into.
pub proof fn merging_needs_both_checks(job: JobView, rs: Seq<ReplyView>)
    requires
        ({
            let m = merge_run(job, rs);
            ||| merge_action(m) is Merge
            ||| m.state == MergeStateView::At(MergeStep::PostMerge)
            ||| merge_action(m) is Push
            ||| (m.state is Over && m.state->Over_0 is Merged)
        }),
    ensures
        confirmations(rs, job.default_branch) >= 2,
{
    checks_are_counted(job, rs);
}

/// How often the parent checkout was seen on its branch, step by step.
proof fn checks_are_counted(job: JobView, rs: Seq<ReplyView>)
    ensures
        merge_run(job, rs).job == job,
        match merge_run(job, rs).state {
            MergeStateView::At(step) => match step {
                MergeStep::Destination => true,
                MergeStep::Merge | MergeStep::PostMerge | MergeStep::Push => confirmations(
                    rs,
                    job.default_branch,
                ) >= 2,
                _ => confirmations(rs, job.default_branch) >= 1,
            },
            MergeStateView::Restoring(o) => !(o is Merged),
            MergeStateView::Over(o) => o is Merged ==> confirmations(rs, job.default_branch) >= 2,
        },
    decreases rs.len(),
{
    if rs.len() > 0 {
        checks_are_counted(job, rs.drop_last());
    }
}

/// A parent checkout that does not sit on the branch to merge into ends the
/// merge before anything is touched.
pub proof fn a_wrong_destination_touches_nothing(job: JobView, rs: Seq<ReplyView>)
    requires
        rs.len() > 0,
        rs[0] is Branch,
        rs[0] != ReplyView::Branch(Some(job.default_branch)),
    ensures
        !merge_run(job, rs).did_stash,
        merge_run(job, rs).state == MergeStateView::Over(
            OutcomeView::Failed(
                destination_refusal(job.main_repo_path, job.default_branch, rs[0]->Branch_0)->0,
            ),
        ),
    decreases rs.len(),
{
    if rs.len() == 1 {
        assert(rs.drop_last().len() == 0);
        assert(merge_run(job, rs.drop_last()) == merge_start(job));
    } else {
        assert(rs.drop_last()[0] == rs[0]);
        a_wrong_destination_touches_nothing(job, rs.drop_last());
    }
}

/// A merge that succeeds has stashed changes exactly when it was asked to.
pub proof fn success_tells_of_the_stash(job: JobView, rs: Seq<ReplyView>, did_stash: bool)
    requires
        merge_run(job, rs).state == MergeStateView::Over(OutcomeView::Merged { did_stash }),
    ensures
        did_stash == job.stash,
{
    stashes_are_tracked(job, rs);
}

/// Whether changes are stashed, step by step.
proof fn stashes_are_tracked(job: JobView, rs: Seq<ReplyView>)
    ensures
        merge_run(job, rs).job == job,
        match merge_run(job, rs).state {
            MergeStateView::At(step) => {
                &&& merge_run(job, rs).did_stash == (job.stash && step != MergeStep::Destination
                    && step != MergeStep::Stash)
                &&& step == MergeStep::Stash ==> job.stash
            },
            MergeStateView::Restoring(o) => merge_run(job, rs).did_stash && !(o is Merged),
            MergeStateView::Over(o) => o is Merged ==> o == (OutcomeView::Merged {
                did_stash: job.stash,
            }),
        },
    decreases rs.len(),
{
    if rs.len() > 0 {
        stashes_are_tracked(job, rs.drop_last());
    }
}

/// A merge that fails after changes were stashed has asked for them to be put
/// back before it was over.
pub proof fn a_stash_is_never_forgotten(job: JobView, rs: Seq<ReplyView>, o: OutcomeView)
    requires
        merge_run(job, rs).state == MergeStateView::Over(o),
        !(o is Merged),
        merge_run(job, rs).did_stash,
    ensures
        exists|n: int|
            0 <= n < rs.len() && merge_action(#[trigger] merge_run(job, rs.take(n)))
                == (MergeActionView::PopStash { checkout: job.project_path }),
    decreases rs.len(),
{
    checks_are_counted(job, rs);
    let before = rs.drop_last();
    checks_are_counted(job, before);
    stashes_are_tracked(job, before);
    if merge_run(job, before).state is Over {
        a_stash_is_never_forgotten(job, before, o);
        let n = choose|n: int|
            0 <= n < before.len() && merge_action(#[trigger] merge_run(job, before.take(n)))
                == (MergeActionView::PopStash { checkout: job.project_path });
        assert(rs.take(n) =~= before.take(n));
        assert(merge_action(merge_run(job, rs.take(n))) == (MergeActionView::PopStash {
            checkout: job.project_path,
        }));
    } else {
        assert(rs.take(rs.len() - 1) =~= before);
        assert(merge_run(job, rs.take(rs.len() - 1)) == merge_run(job, before));
    }
}

} // verus!
