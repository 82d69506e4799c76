//! What a close asks for, and in which order, and when a removal is refused.

use crate::actions::project_open::HookResultView;
use crate::actions::project_rows::{deleted, doomed};
use crate::actions::soft_close::pending_here;
use crate::actions::worktree_close::{
    CloseActionView, CloseFacts, CloseOptions, ClosePlanView, CloseReplyView, CloseStateView,
    branch_left, close_action, close_noted, close_plan, close_refusal, close_replied, close_run,
    nothing_on_remote, stash_is_remembered,
};
use crate::actions::worktree_merge::OutcomeView;
use crate::actions::worktree_removal::{
    DirtyCheck, RemovalView, begun_removal, close_hooks, orphaned_root, preflight_refusal,
    removed_hook, stopped_terminals, verified_root,
};
use crate::actions::worktree_remove::{
    RemovalActionView, RemovalReplyView, RemovalRunView, RemovalStateView, checkout_gone,
    removal_action, removal_replied,
};
use crate::claims::{PathFactsView, ResolutionView, coinciding, first_occupant, inside};
use crate::collections::{keys_of, values_of};
use crate::layout_frames::held_by_either;
use crate::sorted::sorted_once_members;
use crate::state::{HooksConfig, layout_ids};
use crate::text::opt_text;
use crate::toast::ToastLevel;
use crate::workspace::{CxView, HookKind, HookRequestView, WorkspaceView, ws_project};
use vstd::prelude::*;

verus! {

/// Whether the hook `h` is told of the close `p`: whose it is, and which branch.
pub open spec fn tells_of_close(h: HookRequestView, p: ClosePlanView) -> bool {
    &&& h.project_id == p.project_id
    &&& h.project_name == p.project_name
    &&& h.project_path == p.project_path
    &&& h.branch == Some(p.branch)
    &&& h.project_hooks == p.project_hooks
    &&& h.global_hooks == p.global_hooks
    &&& h.folder_id == p.folder_id
    &&& h.folder_name == p.folder_name
}

/// Whatever the host replied so far, a close asks for what was planned: the
/// merge of its branch as asked, the hook before the removal where there is one,
/// the hook for dirty worktrees only where changes are about to be lost, and the
/// deletion of its own branch in the parent's repository.
pub proof fn closes_do_what_was_planned(
    p: ClosePlanView,
    did_stash: bool,
    rs: Seq<CloseReplyView>,
)
    ensures
        ({
            let c = close_run(p, did_stash, rs);
            match close_action(c) {
                CloseActionView::Merge(job) => {
                    &&& p.merge
                    &&& job.stash == p.stash
                    &&& job.fetch == p.fetch
                    &&& job.push == p.push
                    &&& job.project_id == p.project_id
                    &&& job.project_name == p.project_name
                    &&& job.project_path == p.project_path
                    &&& job.branch == p.branch
                    &&& job.default_branch == p.default_branch
                    &&& job.main_repo_path == p.main_repo_path
                    &&& job.project_hooks == p.project_hooks
                    &&& job.global_hooks == p.global_hooks
                    &&& job.folder_id == p.folder_id
                    &&& job.folder_name == p.folder_name
                },
                CloseActionView::RunHook(h) => c.state is Conflict || (h.kind
                    == HookKind::DirtyWorktreeClose && tells_of_close(h, p) && p.dirty
                    && !c.did_stash),
                CloseActionView::StartHook(h) => h.kind == HookKind::BeforeWorktreeRemove
                    && tells_of_close(h, p) && h.main_repo_path == Some(p.main_repo_path)
                    && p.runner && hooked(p),
                CloseActionView::FinishHook(h) => h.kind == HookKind::BeforeWorktreeRemove
                    && tells_of_close(h, p) && h.main_repo_path == Some(p.main_repo_path)
                    && !p.runner && hooked(p),
                CloseActionView::Remove { force } => force == (p.dirty && !c.did_stash),
                CloseActionView::DeleteBranch { checkout, branch } => checkout
                    == p.main_repo_path && branch == p.branch && p.delete_branch,
                CloseActionView::Nothing => true,
            }
        }),
{
    stash_is_remembered(p, did_stash, rs);
    the_plan_is_kept(p, did_stash, rs);
}

/// Whether there is a hook that runs before the worktree is removed.
pub open spec fn hooked(p: ClosePlanView) -> bool {
    p.project_hooks.worktree.before_remove is Some || p.global_hooks.worktree.before_remove is Some
}

proof fn the_plan_is_kept(p: ClosePlanView, did_stash: bool, rs: Seq<CloseReplyView>)
    ensures
        close_run(p, did_stash, rs).plan == p,
        match close_run(p, did_stash, rs).state {
            CloseStateView::Merging => p.merge,
            CloseStateView::HookTerminal => p.runner && hooked(p),
            CloseStateView::Hook => !p.runner && hooked(p),
            CloseStateView::DirtyHook => p.dirty && !close_run(p, did_stash, rs).did_stash,
            CloseStateView::Branch => p.delete_branch,
            _ => true,
        },
    decreases rs.len(),
{
    if rs.len() > 0 {
        the_plan_is_kept(p, did_stash, rs.drop_last());
    }
}

/// What kind of thing a close asks for.
pub enum CloseRequest {
    Merge,
    StartHook,
    FinishHook,
    DirtyHook,
    Remove,
    DeleteBranch,
}

/// The requests of a close that meets no obstacle, in their order. Where the
/// hook before the removal runs in a terminal, the close waits for it elsewhere.
pub open spec fn close_script(p: ClosePlanView, did_stash: bool) -> Seq<CloseRequest> {
    let stashed = did_stash || (p.merge && p.stash);
    let merge = if p.merge {
        seq![CloseRequest::Merge]
    } else {
        Seq::empty()
    };
    if hooked(p) && p.runner {
        merge + seq![CloseRequest::StartHook]
    } else {
        merge + (if hooked(p) {
            seq![CloseRequest::FinishHook]
        } else {
            Seq::empty()
        }) + (if p.dirty && !stashed {
            seq![CloseRequest::DirtyHook]
        } else {
            Seq::empty()
        }) + seq![CloseRequest::Remove] + (if p.delete_branch {
            seq![CloseRequest::DeleteBranch]
        } else {
            Seq::empty()
        })
    }
}

/// Whether `a` is such a request.
pub open spec fn is_close_request(a: CloseActionView, q: CloseRequest) -> bool {
    match a {
        CloseActionView::Merge(_) => q is Merge,
        CloseActionView::RunHook(h) => q is DirtyHook && h.kind == HookKind::DirtyWorktreeClose,
        CloseActionView::StartHook(_) => q is StartHook,
        CloseActionView::FinishHook(_) => q is FinishHook,
        CloseActionView::Remove { .. } => q is Remove,
        CloseActionView::DeleteBranch { .. } => q is DeleteBranch,
        CloseActionView::Nothing => false,
    }
}

/// The reply that is no obstacle; `terminal` is where the hook runs.
pub open spec fn smooth_close(
    p: ClosePlanView,
    q: CloseRequest,
    terminal: HookResultView,
) -> CloseReplyView {
    match q {
        CloseRequest::Merge => CloseReplyView::Merged(OutcomeView::Merged { did_stash: p.stash }),
        CloseRequest::StartHook => CloseReplyView::HookStarted(seq![terminal]),
        CloseRequest::FinishHook => CloseReplyView::HookFinished(None),
        CloseRequest::DirtyHook => CloseReplyView::HookRan {
            commands: Seq::empty(),
            results: Seq::empty(),
        },
        CloseRequest::Remove => CloseReplyView::Removed(None),
        CloseRequest::DeleteBranch => CloseReplyView::BranchDeleted { local: None, remote: None },
    }
}

/// The first `n` replies of a host where nothing goes wrong.
pub open spec fn smooth_close_replies(
    p: ClosePlanView,
    did_stash: bool,
    terminal: HookResultView,
    n: nat,
) -> Seq<CloseReplyView> {
    Seq::new(n, |i: int| smooth_close(p, close_script(p, did_stash)[i], terminal))
}

/// Where nothing goes wrong, a close asks for one thing after the other as was
/// planned, and is then over without an error.
pub proof fn closes_follow_the_script(
    p: ClosePlanView,
    did_stash: bool,
    terminal: HookResultView,
    n: nat,
)
    requires
        n <= close_script(p, did_stash).len(),
    ensures
        n < close_script(p, did_stash).len() ==> is_close_request(
            close_action(
                close_run(p, did_stash, smooth_close_replies(p, did_stash, terminal, n)),
            ),
            close_script(p, did_stash)[n as int],
        ),
        n == close_script(p, did_stash).len() ==> close_run(
            p,
            did_stash,
            smooth_close_replies(p, did_stash, terminal, n),
        ).state == (CloseStateView::Over { error: None, toast: None }),
{
    the_close_script_is_kept(p, did_stash, terminal, n);
}

spec fn close_state_at(p: ClosePlanView, did_stash: bool, n: int) -> CloseStateView {
    let stashed = did_stash || (p.merge && p.stash);
    let a: int = if p.merge {
        1
    } else {
        0
    };
    let b: int = if hooked(p) {
        a + 1
    } else {
        a
    };
    let c: int = if p.dirty && !stashed {
        b + 1
    } else {
        b
    };
    if n < a {
        CloseStateView::Merging
    } else if hooked(p) && p.runner {
        if n == a {
            CloseStateView::HookTerminal
        } else {
            CloseStateView::Over { error: None, toast: None }
        }
    } else if n < b {
        CloseStateView::Hook
    } else if n < c {
        CloseStateView::DirtyHook
    } else if n == c {
        CloseStateView::Removing
    } else if n == c + 1 && p.delete_branch {
        CloseStateView::Branch
    } else {
        CloseStateView::Over { error: None, toast: None }
    }
}

proof fn the_close_script_is_kept(
    p: ClosePlanView,
    did_stash: bool,
    terminal: HookResultView,
    n: nat,
)
    requires
        n <= close_script(p, did_stash).len(),
    ensures
        ({
            let c = close_run(p, did_stash, smooth_close_replies(p, did_stash, terminal, n));
            &&& c.plan == p
            &&& c.did_stash == (did_stash || (n > 0 && p.merge && p.stash))
            &&& c.state == close_state_at(p, did_stash, n as int)
            &&& n < close_script(p, did_stash).len() ==> is_close_request(
                close_action(c),
                close_script(p, did_stash)[n as int],
            )
        }),
        close_state_at(p, did_stash, close_script(p, did_stash).len() as int) == (
        CloseStateView::Over { error: None, toast: None }),
    decreases n,
{
    let rs = smooth_close_replies(p, did_stash, terminal, n);
    if n > 0 {
        the_close_script_is_kept(p, did_stash, terminal, (n - 1) as nat);
        let before = smooth_close_replies(p, did_stash, terminal, (n - 1) as nat);
        assert(rs.drop_last() =~= before);
        assert(rs.last() == smooth_close(p, close_script(p, did_stash)[n - 1], terminal));
        assert(close_run(p, did_stash, rs) == close_replied(
            close_run(p, did_stash, before),
            rs.last(),
        ));
    }
}

/// What goes wrong ends the close before anything more is done, and is told: a
/// merge or a removal that failed with its own reason, a hook behind what
/// failed. A conflict first has its hook run. A branch that could not be deleted
/// takes nothing back: the worktree is closed, and the user is warned.
pub proof fn failed_closes_tell_why(
    p: ClosePlanView,
    did_stash: bool,
    rs: Seq<CloseReplyView>,
    e: Seq<char>,
    hook: HookRequestView,
)
    ensures
        ({
            let c = close_run(p, did_stash, rs);
            match close_action(c) {
                CloseActionView::Merge(_) => {
                    &&& close_replied(c, CloseReplyView::Merged(OutcomeView::Failed(e))).state == (
                    CloseStateView::Over { error: Some(e), toast: None })
                    &&& {
                        let conflict = close_replied(
                            c,
                            CloseReplyView::Merged(OutcomeView::RebaseConflict { error: e, hook }),
                        );
                        let done = close_replied(
                            conflict,
                            CloseReplyView::HookRan {
                                commands: Seq::empty(),
                                results: Seq::empty(),
                            },
                        );
                        &&& close_action(conflict) == CloseActionView::RunHook(hook)
                        &&& done.state == (CloseStateView::Over { error: Some(e), toast: None })
                    }
                },
                CloseActionView::FinishHook(_) => close_replied(
                    c,
                    CloseReplyView::HookFinished(Some(e)),
                ).state == (CloseStateView::Over {
                    error: Some("before_worktree_remove hook failed: "@ + e),
                    toast: None,
                }),
                CloseActionView::StartHook(_) => close_replied(
                    c,
                    CloseReplyView::HookStarted(Seq::empty()),
                ).state == (CloseStateView::Over {
                    error: Some("before_worktree_remove hook failed to start"@),
                    toast: None,
                }),
                CloseActionView::Remove { .. } => close_replied(
                    c,
                    CloseReplyView::Removed(Some(e)),
                ).state == (CloseStateView::Over { error: Some(e), toast: None }),
                CloseActionView::DeleteBranch { .. } => match close_replied(
                    c,
                    CloseReplyView::BranchDeleted { local: Some(e), remote: None },
                ).state {
                    CloseStateView::Over { error: None, toast: Some(t) } => {
                        &&& t.level == ToastLevel::Warning
                        &&& t.message == "Branch '"@ + p.branch + "' was not deleted"@
                        &&& t.detail == Some("local: "@ + e)
                    },
                    _ => false,
                },
                _ => true,
            }
        }),
{
    the_plan_is_kept(p, did_stash, rs);
}

/// A close whose hook runs in a terminal is remembered until the terminal is
/// done, with all that it takes to go on: the worktree counts as closing.
pub proof fn deferred_closes_are_remembered(
    w: WorkspaceView,
    x: CxView,
    p: ClosePlanView,
    did_stash: bool,
    rs: Seq<CloseReplyView>,
    terminals: Seq<HookResultView>,
)
    requires
        close_action(close_run(p, did_stash, rs)) is StartHook,
        terminals.len() > 0,
    ensures
        ({
            let c = close_run(p, did_stash, rs);
            let v = close_noted(w, x, c, CloseReplyView::HookStarted(terminals)).0;
            let d = v.pending_worktree_closes.last();
            &&& v.pending_worktree_closes.drop_last() == w.pending_worktree_closes
            &&& d.project_id == p.project_id
            &&& d.hook_terminal_id == terminals[0].terminal_id
            &&& d.branch == p.branch
            &&& d.main_repo_path == p.main_repo_path
            &&& d.did_stash == c.did_stash
            &&& d.delete_branch == p.delete_branch
            &&& v.closing.contains(p.project_id)
            &&& v.kills == w.kills
        }),
{
    the_plan_is_kept(p, did_stash, rs);
    let c = close_run(p, did_stash, rs);
    let v = close_noted(w, x, c, CloseReplyView::HookStarted(terminals)).0;
    assert(v.pending_worktree_closes.drop_last() =~= w.pending_worktree_closes);
}

/// A branch counts as deleted exactly where it went here and, unless the remote
/// never had it, there; what went wrong is told with its place.
pub proof fn surviving_branches_are_told(local: Option<Seq<char>>, remote: Option<Seq<char>>)
    ensures
        branch_left(local, remote) is None <==> local is None && (remote is None
            || nothing_on_remote(remote->0)),
        local is Some && remote is Some && !nothing_on_remote(remote->0) ==> branch_left(
            local,
            remote,
        ) == Some("local: "@ + local->0 + "; "@ + "remote: "@ + remote->0),
        local is None && remote is Some && !nothing_on_remote(remote->0) ==> branch_left(
            local,
            remote,
        ) == Some("remote: "@ + remote->0),
{
    if local is Some && remote is Some {
        assert("local: "@ + local->0 + "; "@ + ("remote: "@ + remote->0) =~= "local: "@ + local->0
            + "; "@ + "remote: "@ + remote->0);
    }
}

/// What is planned is what was asked for, as far as the checkout allows: a merge
/// where the branches are known and no change would be left behind, a stash
/// where there is something to stash, and the deletion of the branch unless a
/// merge that was asked for is not made. Where things are is what the workspace
/// and git say.
pub proof fn plans_follow_the_options(
    w: WorkspaceView,
    id: Seq<char>,
    o: CloseOptions,
    facts: CloseFacts,
    global: HooksConfig,
    runner: bool,
    dirty: bool,
)
    requires
        ws_project(w, id) is Some,
        facts.dirty == DirtyCheck::Known(dirty) || (facts.dirty == DirtyCheck::NotRepo && !dirty),
    ensures
        ({
            let p = close_plan(w, id, o, facts, global, runner);
            let named = opt_text(facts.branch) is Some && (opt_text(facts.branch)->0).len() > 0
                && opt_text(facts.default_branch) is Some && (opt_text(
                facts.default_branch,
            )->0).len() > 0;
            &&& p.project_id == id
            &&& p.project_name == (ws_project(w, id)->0).name
            &&& p.project_path == (ws_project(w, id)->0).path
            &&& p.project_hooks == (ws_project(w, id)->0).hooks
            &&& p.global_hooks == global
            &&& p.runner == runner
            &&& p.dirty == dirty
            &&& p.merge == (o.merge && named && (!dirty || o.stash))
            &&& p.stash == (o.stash && dirty)
            &&& p.fetch == o.fetch
            &&& p.push == o.push
            &&& p.delete_branch == (o.delete_branch && (p.merge || !o.merge))
            &&& facts.branch is Some ==> p.branch == opt_text(facts.branch)->0
            &&& facts.default_branch is Some ==> p.default_branch == opt_text(
                facts.default_branch,
            )->0
            &&& match (ws_project(w, id)->0).worktree_info {
                Some(wt) => match ws_project(w, wt.parent_project_id) {
                    Some(parent) => p.main_repo_path == parent.path,
                    None => p.main_repo_path.len() == 0,
                },
                None => p.main_repo_path.len() == 0,
            }
        }),
{
}

/// A close is refused exactly where the worktree is being made or closed
/// already, where git's word on its checkout is not believed, where another
/// project lies in it, or where it is unknown whether changes would be lost.
pub proof fn closes_are_refused_for_cause(
    w: WorkspaceView,
    f: PathFactsView,
    id: Seq<char>,
    checkout: ResolutionView,
    dirty: DirtyCheck,
)
    ensures
        close_refusal(w, f, id, checkout, dirty) is Some <==> {
            ||| w.creating.contains(id)
            ||| w.closing.contains(id)
            ||| verified_root(w, f, id, checkout) is Err
            ||| first_occupant(
                w.data.projects,
                f,
                id,
                verified_root(w, f, id, checkout)->Ok_0,
                w.data.projects.len(),
            ) is Some
            ||| dirty == DirtyCheck::Unknown
        },
{
}

/// Git's word on a checkout is believed exactly where the project is a worktree
/// whose parent is there, git found the checkout, it is the one on record if
/// there is one, and the project lies in it.
pub proof fn checkouts_are_verified(
    w: WorkspaceView,
    f: PathFactsView,
    id: Seq<char>,
    checkout: ResolutionView,
)
    ensures
        match verified_root(w, f, id, checkout) {
            Ok(root) => {
                let p = ws_project(w, id)->0;
                &&& checkout == ResolutionView::Path(root)
                &&& ws_project(w, id) is Some
                &&& p.worktree_info is Some
                &&& ws_project(w, (p.worktree_info->0).parent_project_id) is Some
                &&& (p.worktree_info->0).worktree_path.len() > 0 ==> coinciding(
                    f,
                    root,
                    (p.worktree_info->0).worktree_path,
                )
                &&& inside(f, p.path, root)
            },
            Err(_) => {
                let p = ws_project(w, id)->0;
                ||| ws_project(w, id) is None
                ||| p.worktree_info is None
                ||| ws_project(w, (p.worktree_info->0).parent_project_id) is None
                ||| checkout is Failed
                ||| (p.worktree_info->0).worktree_path.len() > 0 && !coinciding(
                    f,
                    checkout->Path_0,
                    (p.worktree_info->0).worktree_path,
                )
                ||| !inside(f, p.path, checkout->Path_0)
            },
        },
{
}

/// A checkout that git has lost is removed only where the project lies in its
/// recorded root.
pub proof fn orphans_are_verified(
    w: WorkspaceView,
    f: PathFactsView,
    id: Seq<char>,
    checkout: ResolutionView,
)
    ensures
        orphaned_root(w, f, id, checkout) is Ok <==> {
            let p = ws_project(w, id)->0;
            let recorded = (p.worktree_info->0).worktree_path;
            &&& ws_project(w, id) is Some
            &&& p.worktree_info is Some
            &&& ws_project(w, (p.worktree_info->0).parent_project_id) is Some
            &&& checkout is Path
            &&& inside(
                f,
                p.path,
                if recorded.len() == 0 {
                    p.path
                } else {
                    recorded
                },
            )
        },
        orphaned_root(w, f, id, checkout) is Ok ==> orphaned_root(w, f, id, checkout)
            == Ok::<Seq<char>, Seq<char>>(checkout->Path_0),
{
}

/// The plan of a removal is about that worktree: its checkout, its parent's
/// repository, its name, its path, its hooks and its branch.
pub proof fn removal_plans_are_of_the_worktree(
    w: WorkspaceView,
    f: PathFactsView,
    id: Seq<char>,
    checkout: ResolutionView,
    orphaned: bool,
    branch: Option<Seq<char>>,
)
    requires
        begun_removal(w, f, id, checkout, orphaned, branch) is Ok,
    ensures
        ({
            let plan = begun_removal(w, f, id, checkout, orphaned, branch)->Ok_0;
            let p = ws_project(w, id)->0;
            &&& ws_project(w, id) is Some
            &&& !w.creating.contains(id)
            &&& plan.project_id == id
            &&& checkout == ResolutionView::Path(plan.worktree_path)
            &&& plan.orphaned == orphaned
            &&& plan.project_name == p.name
            &&& plan.project_path == p.path
            &&& plan.project_hooks == p.hooks
            &&& branch is Some ==> plan.branch == branch->0
            &&& branch is None ==> plan.branch.len() == 0
            &&& p.worktree_info is Some
            &&& match ws_project(w, (p.worktree_info->0).parent_project_id) {
                Some(parent) => plan.main_repo_path == parent.path,
                None => false,
            }
        }),
{
    checkouts_are_verified(w, f, id, checkout);
    orphans_are_verified(w, f, id, checkout);
}

/// A removal lets git remove the checkout, by force only where it was asked to;
/// only a checkout that git has lost is deleted outright.
pub proof fn removals_remove_the_checkout(m: RemovalRunView)
    ensures
        match removal_action(m) {
            RemovalActionView::RemoveCheckout { checkout, force } => checkout
                == m.plan.worktree_path && force == m.force && !m.plan.orphaned,
            RemovalActionView::DeleteOrphan { checkout } => checkout == m.plan.worktree_path
                && m.plan.orphaned,
            RemovalActionView::FinishHook(h) => h.project_id == m.plan.project_id
                && h.project_path == m.plan.project_path && h.project_hooks
                == m.plan.project_hooks && h.global_hooks == m.global_hooks,
            RemovalActionView::Nothing => m.state is Over,
        },
{
}

/// The hooks of a removal: first that of the worktree, with its branch, then
/// that of the project, both where the project is; and once the checkout is
/// gone one in the repository that it belonged to.
pub proof fn removal_hooks_run_where_they_can(plan: RemovalView, global: HooksConfig)
    ensures
        ({
            let hooks = close_hooks(plan, global);
            let last = removed_hook(plan, global);
            &&& hooks.len() == 2
            &&& hooks[0].kind == HookKind::WorktreeClose
            &&& hooks[0].branch == Some(plan.branch)
            &&& hooks[0].project_path == plan.project_path
            &&& hooks[1].kind == HookKind::ProjectClose
            &&& hooks[1].project_path == plan.project_path
            &&& last.kind == HookKind::WorktreeRemoved
            &&& last.project_path == plan.main_repo_path
            &&& last.main_repo_path == Some(plan.main_repo_path)
            &&& last.branch == Some(plan.branch)
            &&& last.project_id == plan.project_id
        }),
{
}

/// A checkout is not removed while it has changes, or might have, unless that
/// was asked for or git cannot tell any more.
pub proof fn removals_spare_changes(plan: RemovalView, force: bool, c: DirtyCheck)
    ensures
        preflight_refusal(plan, force, c) is Some <==> !force && !plan.orphaned && (c
            == DirtyCheck::Known(true) || c == DirtyCheck::Unknown),
{
}

/// Before a checkout is removed every terminal of its project is stopped: those
/// of its panes, its hooks and its services, and those that wait to be closed.
pub proof fn removals_stop_every_terminal(w: WorkspaceView, id: Seq<char>, t: Seq<char>)
    requires
        ws_project(w, id) is Some,
    ensures
        stopped_terminals(w, id).contains(t) <==> {
            let p = ws_project(w, id)->0;
            ||| layout_ids(p).contains(t)
            ||| keys_of(p.hook_terminals).contains(t)
            ||| values_of(p.service_terminals).contains(t)
            ||| pending_here(w.pending_closes, id).contains(t)
        },
{
    let p = ws_project(w, id)->0;
    let a = layout_ids(p);
    let b = keys_of(p.hook_terminals);
    let c = values_of(p.service_terminals);
    let d = pending_here(w.pending_closes, id);
    held_by_either(a, b, t);
    held_by_either(a + b, c, t);
    held_by_either(a + b + c, d, t);
    sorted_once_members(a + b + c + d);
}

/// A deleted project has its terminals ended: those of its panes, its hooks and
/// its services, and those that wait to be closed; and no others.
pub proof fn deleting_ends_every_terminal(w: WorkspaceView, id: Seq<char>, t: Seq<char>)
    requires
        ws_project(w, id) is Some,
    ensures
        deleted(w, id).kills.contains(t) <==> {
            let p = ws_project(w, id)->0;
            ||| w.kills.contains(t)
            ||| layout_ids(p).contains(t)
            ||| keys_of(p.hook_terminals).contains(t)
            ||| values_of(p.service_terminals).contains(t)
            ||| pending_here(w.pending_closes, id).contains(t)
        },
        !deleted(w, id).closing.contains(id),
{
    let p = ws_project(w, id)->0;
    let a = layout_ids(p);
    let b = keys_of(p.hook_terminals);
    let c = values_of(p.service_terminals);
    held_by_either(a, b, t);
    held_by_either(a + b, c, t);
    held_by_either(w.kills, doomed(w, id), t);
    held_by_either(w.kills + doomed(w, id), pending_here(w.pending_closes, id), t);
}

/// A checkout counts as gone exactly where the removal has come to its end without
/// an error by this reply.
pub proof fn only_removed_checkouts_are_gone(m: RemovalRunView, r: RemovalReplyView)
    requires
        !(m.state is Over),
    ensures
        checkout_gone(m, r) <==> removal_replied(m, r).state == RemovalStateView::Over(None),
{
}

} // verus!
