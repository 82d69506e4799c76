//! Removing a worktree and its checkout, step by step.
//!
//! The host runs the hooks and git: it asks what to do next, does it, and hands
//! back what came of it.

use crate::actions::project_rows::{delete_asked, deleted, focus_after_delete};
use crate::actions::worktree_removal::{
    RemovalView, WorktreeRemovalPlan, begun_removal, close_hooks, removed_hook,
};
use crate::claims::{PathFacts, PathFactsView, Resolution, ResolutionView};
use crate::focus::FocusManager;
use crate::state::HooksConfig;
use crate::text::{opt_text, refusal_of};
use crate::workspace::{
    HookRequest, HookRequestView, Workspace, WorkspaceCx, WorkspaceView, asked, hook_views,
};
use vstd::prelude::*;

verus! {

/// Where a removal stands.
#[derive(Debug)]
pub enum RemovalState {
    /// The hook for worktrees that close is to run.
    WorktreeHook,
    /// The hook for projects that close is to run.
    ProjectHook,
    /// The checkout is to be removed.
    Removing,
    Over(Result<(), String>),
}

/// What a [`RemovalState`] stands for.
pub enum RemovalStateView {
    WorktreeHook,
    ProjectHook,
    Removing,
    /// It is over; what went wrong.
    Over(Option<Seq<char>>),
}

impl View for RemovalState {
    type V = RemovalStateView;

    open spec fn view(&self) -> RemovalStateView {
        match *self {
            RemovalState::WorktreeHook => RemovalStateView::WorktreeHook,
            RemovalState::ProjectHook => RemovalStateView::ProjectHook,
            RemovalState::Removing => RemovalStateView::Removing,
            RemovalState::Over(r) => RemovalStateView::Over(refusal_of(r)),
        }
    }
}

/// What the host is to do.
#[derive(Debug)]
pub enum RemovalAction {
    /// Run the hook to its end, without a terminal.
    FinishHook(HookRequest),
    /// Let git remove the checkout.
    RemoveCheckout { checkout: String, force: bool },
    /// Delete the directory of a checkout that git has lost track of.
    DeleteOrphan { checkout: String },
    Nothing,
}

/// What a [`RemovalAction`] stands for.
pub enum RemovalActionView {
    FinishHook(HookRequestView),
    RemoveCheckout { checkout: Seq<char>, force: bool },
    DeleteOrphan { checkout: Seq<char> },
    Nothing,
}

impl View for RemovalAction {
    type V = RemovalActionView;

    open spec fn view(&self) -> RemovalActionView {
        match *self {
            RemovalAction::FinishHook(h) => RemovalActionView::FinishHook(h@),
            RemovalAction::RemoveCheckout { checkout, force } => RemovalActionView::RemoveCheckout {
                checkout: checkout@,
                force,
            },
            RemovalAction::DeleteOrphan { checkout } => RemovalActionView::DeleteOrphan {
                checkout: checkout@,
            },
            RemovalAction::Nothing => RemovalActionView::Nothing,
        }
    }
}

/// What came of it.
#[derive(Debug)]
pub enum RemovalReply {
    HookFinished(Result<(), String>),
    Removed(Result<(), String>),
}

/// What a [`RemovalReply`] stands for.
pub enum RemovalReplyView {
    HookFinished(Option<Seq<char>>),
    Removed(Option<Seq<char>>),
}

impl View for RemovalReply {
    type V = RemovalReplyView;

    open spec fn view(&self) -> RemovalReplyView {
        match *self {
            RemovalReply::HookFinished(r) => RemovalReplyView::HookFinished(refusal_of(r)),
            RemovalReply::Removed(r) => RemovalReplyView::Removed(refusal_of(r)),
        }
    }
}

/// A removal on its way.
#[derive(Debug)]
pub struct WorktreeRemoval {
    plan: WorktreeRemovalPlan,
    global_hooks: HooksConfig,
    force: bool,
    state: RemovalState,
}

/// What a [`WorktreeRemoval`] stands for.
pub struct RemovalRunView {
    pub plan: RemovalView,
    pub global_hooks: HooksConfig,
    pub force: bool,
    pub state: RemovalStateView,
}

impl View for WorktreeRemoval {
    type V = RemovalRunView;

    closed spec fn view(&self) -> RemovalRunView {
        RemovalRunView {
            plan: self.plan@,
            global_hooks: self.global_hooks,
            force: self.force,
            state: self.state@,
        }
    }
}

/// The removal of the worktree `id`, which has not begun; or why it is refused.
pub open spec fn removal_start(
    w: WorkspaceView,
    f: PathFactsView,
    id: Seq<char>,
    checkout: ResolutionView,
    orphaned: bool,
    branch: Option<Seq<char>>,
    global: HooksConfig,
    force: bool,
) -> Result<RemovalRunView, Seq<char>> {
    match begun_removal(w, f, id, checkout, orphaned, branch) {
        Err(e) => Err(e),
        Ok(plan) => Ok(
            RemovalRunView {
                plan,
                global_hooks: global,
                force,
                state: RemovalStateView::WorktreeHook,
            },
        ),
    }
}

/// What the removal asks of the host.
pub open spec fn removal_action(m: RemovalRunView) -> RemovalActionView {
    match m.state {
        RemovalStateView::WorktreeHook => RemovalActionView::FinishHook(
            close_hooks(m.plan, m.global_hooks)[0],
        ),
        RemovalStateView::ProjectHook => RemovalActionView::FinishHook(
            close_hooks(m.plan, m.global_hooks)[1],
        ),
        RemovalStateView::Removing => if m.plan.orphaned {
            RemovalActionView::DeleteOrphan { checkout: m.plan.worktree_path }
        } else {
            RemovalActionView::RemoveCheckout { checkout: m.plan.worktree_path, force: m.force }
        },
        RemovalStateView::Over(_) => RemovalActionView::Nothing,
    }
}

/// The removal after this reply. A hook that failed does not stop it.
pub open spec fn removal_replied(m: RemovalRunView, r: RemovalReplyView) -> RemovalRunView {
    let state = match (m.state, r) {
        (RemovalStateView::WorktreeHook, RemovalReplyView::HookFinished(_)) => {
            RemovalStateView::ProjectHook
        },
        (RemovalStateView::ProjectHook, RemovalReplyView::HookFinished(_)) => {
            RemovalStateView::Removing
        },
        (RemovalStateView::Removing, RemovalReplyView::Removed(e)) => RemovalStateView::Over(e),
        (s, _) => s,
    };
    RemovalRunView { state, ..m }
}

/// Whether this reply says that the checkout is gone.
pub open spec fn checkout_gone(m: RemovalRunView, r: RemovalReplyView) -> bool {
    m.state is Removing && r == RemovalReplyView::Removed(None)
}

/// A removal begun at `m` in `w`, after these replies, with the workspace then.
pub open spec fn removal_run(m: RemovalRunView, w: WorkspaceView, rs: Seq<RemovalReplyView>) -> (
    RemovalRunView,
    WorkspaceView,
)
    decreases rs.len(),
{
    if rs.len() == 0 {
        (m, w)
    } else {
        let (before, ws) = removal_run(m, w, rs.drop_last());
        (
            removal_replied(before, rs.last()),
            if checkout_gone(before, rs.last()) {
                deleted(ws, before.plan.project_id)
            } else {
                ws
            },
        )
    }
}

/// A removal that has begun.
fn begun(plan: Result<WorktreeRemovalPlan, String>, global_hooks: &HooksConfig, force: bool) -> (r:
    Result<WorktreeRemoval, String>)
    ensures
        match (plan, r) {
            (Ok(p), Ok(m)) => m@ == (RemovalRunView {
                plan: p@,
                global_hooks: *global_hooks,
                force,
                state: RemovalStateView::WorktreeHook,
            }),
            (Err(e), Err(d)) => e == d,
            _ => false,
        },
{
    match plan {
        Ok(plan) => Ok(
            WorktreeRemoval {
                plan,
                global_hooks: global_hooks.clone(),
                force,
                state: RemovalState::WorktreeHook,
            },
        ),
        Err(e) => Err(e),
    }
}

impl Workspace {
    /// Remove a worktree and its checkout, which git knows to be `checkout`.
    pub fn remove_worktree_project(
        &self,
        f: &PathFacts,
        project_id: &str,
        checkout: &Resolution,
        branch: &Option<String>,
        force: bool,
        global_hooks: &HooksConfig,
    ) -> (r: Result<WorktreeRemoval, String>)
        ensures
            match r {
                Ok(m) => removal_start(
                    self@,
                    f@,
                    project_id@,
                    checkout@,
                    false,
                    opt_text(*branch),
                    *global_hooks,
                    force,
                ) == Ok::<RemovalRunView, Seq<char>>(m@),
                Err(e) => removal_start(
                    self@,
                    f@,
                    project_id@,
                    checkout@,
                    false,
                    opt_text(*branch),
                    *global_hooks,
                    force,
                ) == Err::<RemovalRunView, Seq<char>>(e@),
            },
    {
        begun(
            self.begin_worktree_removal(f, project_id, checkout, branch),
            global_hooks,
            force,
        )
    }

    /// Remove a worktree whose checkout git has lost track of: its directory is
    /// deleted with whatever it holds.
    pub fn force_remove_worktree_project(
        &self,
        f: &PathFacts,
        project_id: &str,
        checkout: &Resolution,
        branch: &Option<String>,
        global_hooks: &HooksConfig,
    ) -> (r: Result<WorktreeRemoval, String>)
        ensures
            match r {
                Ok(m) => removal_start(
                    self@,
                    f@,
                    project_id@,
                    checkout@,
                    true,
                    opt_text(*branch),
                    *global_hooks,
                    true,
                ) == Ok::<RemovalRunView, Seq<char>>(m@),
                Err(e) => removal_start(
                    self@,
                    f@,
                    project_id@,
                    checkout@,
                    true,
                    opt_text(*branch),
                    *global_hooks,
                    true,
                ) == Err::<RemovalRunView, Seq<char>>(e@),
            },
    {
        begun(
            self.begin_orphaned_worktree_removal(f, project_id, checkout, branch),
            global_hooks,
            true,
        )
    }
}

impl WorktreeRemoval {
    /// What the host is to do next.
    pub fn action(&self) -> (r: RemovalAction)
        ensures
            r@ == removal_action(self@),
    {
        match &self.state {
            RemovalState::WorktreeHook => {
                let mut hooks = self.plan.close_hooks(&self.global_hooks);
                proof {
                    assert(hook_views(hooks@).len() == 2);
                    assert(hook_views(hooks@)[0] == hooks@[0]@);
                }
                RemovalAction::FinishHook(hooks.remove(0))
            },
            RemovalState::ProjectHook => {
                let mut hooks = self.plan.close_hooks(&self.global_hooks);
                proof {
                    assert(hook_views(hooks@).len() == 2);
                    assert(hook_views(hooks@)[1] == hooks@[1]@);
                }
                RemovalAction::FinishHook(hooks.remove(1))
            },
            RemovalState::Removing => {
                let checkout = self.plan.worktree_path().to_owned();
                if self.plan.is_orphaned() {
                    RemovalAction::DeleteOrphan { checkout }
                } else {
                    RemovalAction::RemoveCheckout { checkout, force: self.force }
                }
            },
            RemovalState::Over(_) => RemovalAction::Nothing,
        }
    }

    /// Go on with what came of it. Once the checkout is gone the project goes
    /// too.
    pub fn advance(
        self,
        workspace: &mut Workspace,
        focus_manager: &mut FocusManager,
        reply: RemovalReply,
        cx: &mut WorkspaceCx,
    ) -> (r: Self)
        ensures
            r@ == removal_replied(self@, reply@),
            checkout_gone(self@, reply@) ==> {
                &&& final(workspace)@ == deleted(old(workspace)@, self@.plan.project_id)
                &&& final(focus_manager)@ == focus_after_delete(
                    old(focus_manager)@,
                    self@.plan.project_id,
                )
                &&& final(cx)@ == asked(
                    delete_asked(old(workspace)@, old(cx)@, self@.plan.project_id, None),
                    removed_hook(self@.plan, self@.global_hooks),
                )
            },
            !checkout_gone(self@, reply@) ==> {
                &&& final(workspace)@ == old(workspace)@
                &&& final(focus_manager)@ == old(focus_manager)@
                &&& final(cx)@ == old(cx)@
            },
    {
        let state = match (self.state, reply) {
            (RemovalState::WorktreeHook, RemovalReply::HookFinished(_)) => {
                RemovalState::ProjectHook
            },
            (RemovalState::ProjectHook, RemovalReply::HookFinished(_)) => RemovalState::Removing,
            (RemovalState::Removing, RemovalReply::Removed(Ok(()))) => {
                workspace.finish_worktree_removal(
                    focus_manager,
                    &self.plan,
                    &self.global_hooks,
                    cx,
                );
                RemovalState::Over(Ok(()))
            },
            (RemovalState::Removing, RemovalReply::Removed(Err(e))) => RemovalState::Over(Err(e)),
            (s, _) => s,
        };
        WorktreeRemoval {
            plan: self.plan,
            global_hooks: self.global_hooks,
            force: self.force,
            state,
        }
    }

    /// What came of it, once it is over.
    pub fn outcome(self) -> (r: Option<Result<(), String>>)
        ensures
            match r {
                Some(o) => self@.state == RemovalStateView::Over(refusal_of(o)),
                None => !(self@.state is Over),
            },
    {
        match self.state {
            RemovalState::Over(r) => Some(r),
            _ => None,
        }
    }
}

/// A removal asks for the hooks of the worktree and of the project, in this
/// order, and for the removal of the checkout only then, whatever became of
/// the hooks.
pub proof fn hooks_run_while_the_checkout_is_there(
    m: RemovalRunView,
    w: WorkspaceView,
    first: Option<Seq<char>>,
    second: Option<Seq<char>>,
)
    requires
        m.state is WorktreeHook,
    ensures
        ({
            let one = seq![RemovalReplyView::HookFinished(first)];
            let two = one.push(RemovalReplyView::HookFinished(second));
            let hooks = close_hooks(m.plan, m.global_hooks);
            &&& removal_action(m) == RemovalActionView::FinishHook(hooks[0])
            &&& removal_action(removal_run(m, w, one).0) == RemovalActionView::FinishHook(hooks[1])
            &&& removal_run(m, w, two).0.state is Removing
        }),
{
    reveal_with_fuel(removal_run, 3);
    let one = seq![RemovalReplyView::HookFinished(first)];
    let two = one.push(RemovalReplyView::HookFinished(second));
    assert(one.drop_last() =~= Seq::<RemovalReplyView>::empty());
    assert(two.drop_last() =~= one);
}

/// However a removal goes, the workspace has lost the project exactly where it
/// ended well; until then, and where it failed, nothing has changed.
pub proof fn only_removed_checkouts_lose_their_project(
    m: RemovalRunView,
    w: WorkspaceView,
    rs: Seq<RemovalReplyView>,
)
    requires
        !(m.state is Over),
    ensures
        ({
            let (end, after) = removal_run(m, w, rs);
            &&& end.plan == m.plan
            &&& after == if end.state == RemovalStateView::Over(None) {
                deleted(w, m.plan.project_id)
            } else {
                w
            }
        }),
    decreases rs.len(),
{
    if rs.len() > 0 {
        only_removed_checkouts_lose_their_project(m, w, rs.drop_last());
    }
}

} // verus!
