//! What a merge asks for, and in which order.

use crate::actions::worktree_merge::{
    JobView, MergeActionView, MergeStateView, MergeStep, MergeView, OutcomeView, ReplyView,
    merge_action, merge_replied, merge_run,
};
use crate::workspace::{HookKind, HookRequestView};
use vstd::prelude::*;

verus! {

/// Whether the hook `h` is told of the job: whose it is, which branch is merged,
/// which one it goes into, and where.
pub open spec fn tells_of(h: HookRequestView, job: JobView) -> bool {
    &&& h.project_id == job.project_id
    &&& h.project_name == job.project_name
    &&& h.project_path == job.project_path
    &&& h.branch == Some(job.branch)
    &&& h.target_branch == Some(job.default_branch)
    &&& h.main_repo_path == Some(job.main_repo_path)
    &&& h.project_hooks == job.project_hooks
    &&& h.global_hooks == job.global_hooks
    &&& h.folder_id == job.folder_id
    &&& h.folder_name == job.folder_name
}

/// Whatever the host replied so far, a merge asks for its job and nothing else:
/// the worktree is stashed, fetched and rebased onto the branch to merge into;
/// the worktree's branch is merged in the parent checkout; and what is pushed
/// from there is the branch that was merged into.
pub proof fn merges_do_their_job(job: JobView, rs: Seq<ReplyView>)
    ensures
        match merge_action(merge_run(job, rs)) {
            MergeActionView::ReadBranch { checkout } => checkout == job.main_repo_path,
            MergeActionView::Stash { checkout } => checkout == job.project_path && job.stash,
            MergeActionView::Fetch { checkout } => checkout == job.project_path && job.fetch,
            MergeActionView::RunHook(h) => tells_of(h, job) && h.error is None && (h.kind
                == HookKind::PreMerge || h.kind == HookKind::PostMerge),
            MergeActionView::Rebase { checkout, onto } => checkout == job.project_path && onto
                == job.default_branch,
            MergeActionView::Merge { checkout, branch } => checkout == job.main_repo_path && branch
                == job.branch,
            MergeActionView::Push { checkout, branch } => checkout == job.main_repo_path && branch
                == job.default_branch && job.push,
            MergeActionView::PopStash { checkout } => checkout == job.project_path && job.stash,
            MergeActionView::Nothing => true,
        },
{
    the_job_stays(job, rs);
}

proof fn the_job_stays(job: JobView, rs: Seq<ReplyView>)
    ensures
        merge_run(job, rs).job == job,
        merge_run(job, rs).did_stash ==> job.stash,
        match merge_run(job, rs).state {
            MergeStateView::At(step) => {
                &&& step == MergeStep::Stash ==> job.stash
                &&& step == MergeStep::Fetch ==> job.fetch
                &&& step == MergeStep::Push ==> job.push
            },
            MergeStateView::Restoring(_) => merge_run(job, rs).did_stash,
            MergeStateView::Over(_) => true,
        },
    decreases rs.len(),
{
    if rs.len() > 0 {
        the_job_stays(job, rs.drop_last());
    }
}

/// What kind of thing is asked for.
pub enum Request {
    ReadBranch,
    Stash,
    Fetch,
    PreMerge,
    Rebase,
    Merge,
    PostMerge,
    Push,
}

/// The requests of a merge that meets no obstacle, in their order: the checks
/// and the hook before the merge, and the push behind it.
pub open spec fn script(job: JobView) -> Seq<Request> {
    seq![Request::ReadBranch] + (if job.stash {
        seq![Request::Stash]
    } else {
        Seq::empty()
    }) + (if job.fetch {
        seq![Request::Fetch]
    } else {
        Seq::empty()
    }) + seq![
        Request::PreMerge,
        Request::Rebase,
        Request::ReadBranch,
        Request::Merge,
        Request::PostMerge,
    ] + (if job.push {
        seq![Request::Push]
    } else {
        Seq::empty()
    })
}

/// Whether `a` is such a request.
pub open spec fn is_request(a: MergeActionView, q: Request) -> bool {
    match a {
        MergeActionView::ReadBranch { .. } => q is ReadBranch,
        MergeActionView::Stash { .. } => q is Stash,
        MergeActionView::Fetch { .. } => q is Fetch,
        MergeActionView::RunHook(h) => (q is PreMerge && h.kind == HookKind::PreMerge) || (q
            is PostMerge && h.kind == HookKind::PostMerge),
        MergeActionView::Rebase { .. } => q is Rebase,
        MergeActionView::Merge { .. } => q is Merge,
        MergeActionView::Push { .. } => q is Push,
        MergeActionView::PopStash { .. } => false,
        MergeActionView::Nothing => false,
    }
}

/// The reply that is no obstacle: the parent checkout sits on the branch to
/// merge into, and what was asked for was done.
pub open spec fn smooth(job: JobView, q: Request) -> ReplyView {
    match q {
        Request::ReadBranch => ReplyView::Branch(Some(job.default_branch)),
        _ => ReplyView::Ran(None),
    }
}

/// The first `n` replies of a host where nothing goes wrong.
pub open spec fn smooth_replies(job: JobView, n: nat) -> Seq<ReplyView> {
    Seq::new(n, |i: int| smooth(job, script(job)[i]))
}

/// The step at which a merge is after `n` such replies.
spec fn step_at(job: JobView, n: int) -> MergeStep {
    let a: int = if job.stash {
        1
    } else {
        0
    };
    let b: int = if job.fetch {
        a + 1
    } else {
        a
    };
    if n == 0 {
        MergeStep::Destination
    } else if n <= a {
        MergeStep::Stash
    } else if n <= b {
        MergeStep::Fetch
    } else if n == b + 1 {
        MergeStep::PreMerge
    } else if n == b + 2 {
        MergeStep::Rebase
    } else if n == b + 3 {
        MergeStep::DestinationAgain
    } else if n == b + 4 {
        MergeStep::Merge
    } else if n == b + 5 {
        MergeStep::PostMerge
    } else {
        MergeStep::Push
    }
}

/// Where nothing goes wrong, a merge asks for one thing after the other as its
/// job has it, and then has merged.
pub proof fn merges_follow_the_script(job: JobView, n: nat)
    requires
        n <= script(job).len(),
    ensures
        n < script(job).len() ==> is_request(
            merge_action(merge_run(job, smooth_replies(job, n))),
            script(job)[n as int],
        ),
        n == script(job).len() ==> merge_run(job, smooth_replies(job, n)).state
            == MergeStateView::Over(OutcomeView::Merged { did_stash: job.stash }),
{
    the_script_is_kept(job, n);
}

proof fn the_script_is_kept(job: JobView, n: nat)
    requires
        n <= script(job).len(),
    ensures
        ({
            let m = merge_run(job, smooth_replies(job, n));
            &&& m.job == job
            &&& n > 1 ==> m.did_stash == job.stash
            &&& n <= 1 ==> !m.did_stash
            &&& n < script(job).len() ==> m.state == MergeStateView::At(step_at(job, n as int))
            &&& n == script(job).len() ==> m.state == MergeStateView::Over(
                OutcomeView::Merged { did_stash: job.stash },
            )
        }),
        n < script(job).len() ==> is_request(
            merge_action(merge_run(job, smooth_replies(job, n))),
            script(job)[n as int],
        ),
    decreases n,
{
    let rs = smooth_replies(job, n);
    if n > 0 {
        the_script_is_kept(job, (n - 1) as nat);
        assert(rs.drop_last() =~= smooth_replies(job, (n - 1) as nat));
        let before = merge_run(job, smooth_replies(job, (n - 1) as nat));
        assert(rs.last() == smooth(job, script(job)[n - 1]));
        assert(merge_run(job, rs) == merge_replied(before, rs.last()));
    }
}

/// A step that fails ends the merge, and the reason is told: that of the host,
/// behind what failed. Stashed changes are asked to be put back first. A hook
/// behind the merge, or a push, that fails takes nothing back: the merge was
/// made.
pub proof fn failures_are_told(job: JobView, rs: Seq<ReplyView>, e: Seq<char>)
    ensures
        ({
            let m = merge_run(job, rs);
            let next = merge_replied(m, ReplyView::Ran(Some(e)));
            match merge_action(m) {
                MergeActionView::Stash { .. } => ends_with(m, next, "Stash failed: "@ + e),
                MergeActionView::Fetch { .. } => ends_with(m, next, "Fetch failed: "@ + e),
                MergeActionView::Merge { .. } => ends_with(m, next, "Merge failed: "@ + e),
                MergeActionView::Rebase { .. } => match outcome_of(next) {
                    Some(OutcomeView::RebaseConflict { error, hook }) => {
                        &&& error == "Rebase failed: "@ + e
                        &&& hook.kind == HookKind::RebaseConflict
                        &&& hook.error == Some(e)
                        &&& tells_of(hook, job)
                        &&& next.state is Restoring == m.did_stash
                    },
                    _ => false,
                },
                MergeActionView::RunHook(h) => if h.kind == HookKind::PreMerge {
                    ends_with(m, next, "pre_merge hook failed: "@ + e)
                } else {
                    next == merge_replied(m, ReplyView::Ran(None))
                },
                MergeActionView::Push { .. } => next == merge_replied(m, ReplyView::Ran(None)),
                _ => true,
            }
        }),
{
    the_job_stays(job, rs);
}

/// What comes, or came, of a merge that failed.
pub open spec fn outcome_of(m: MergeView) -> Option<OutcomeView> {
    match m.state {
        MergeStateView::At(_) => None,
        MergeStateView::Restoring(o) => Some(o),
        MergeStateView::Over(o) => Some(o),
    }
}

/// Whether `m` has failed at `next` for the reason `e`, with stashed changes to
/// be put back.
pub open spec fn ends_with(m: MergeView, next: MergeView, e: Seq<char>) -> bool {
    &&& outcome_of(next) == Some(OutcomeView::Failed(e))
    &&& next.state is Restoring == m.did_stash
    &&& merge_action(next) is PopStash == m.did_stash
}

/// A parent checkout that has moved before the merge, or cannot be read, ends it
/// with nothing merged; the reason names the checkout and both branches.
pub proof fn a_moved_destination_stops_the_merge(
    job: JobView,
    rs: Seq<ReplyView>,
    current: Option<Seq<char>>,
)
    requires
        merge_action(merge_run(job, rs)) is ReadBranch,
        current != Some(job.default_branch),
    ensures
        ({
            let m = merge_run(job, rs);
            let next = merge_replied(m, ReplyView::Branch(current));
            &&& next.state is Restoring == m.did_stash
            &&& match current {
                Some(c) => outcome_of(next) == Some(
                    OutcomeView::Failed(
                        "the checkout at "@ + job.main_repo_path + " is on '"@ + c
                            + "', not the merge target '"@ + job.default_branch
                            + "'; refusing to merge"@,
                    ),
                ),
                None => outcome_of(next) == Some(
                    OutcomeView::Failed(
                        "could not read the current branch of "@ + job.main_repo_path
                            + "; refusing to merge into '"@ + job.default_branch + "'"@,
                    ),
                ),
            }
        }),
{
    the_job_stays(job, rs);
}

} // verus!
