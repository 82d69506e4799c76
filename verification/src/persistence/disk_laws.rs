//! What a load and a save ask of the host, step by step, and what comes of it.

use crate::layout::{ShellView, opt_terminal_ids};
use crate::persistence::legacy::WORKSPACE_VERSION;
use crate::persistence::load::{
    LoadActionView, LoadReplyView, LoadStateView, LoadView, WorkspaceFile, load_action,
    load_replied, load_start, present_content,
};
use crate::persistence::load_laws::{
    living_terminals_are_kept, loading_keeps_what_projects_are, projects_on_disk_are_kept,
};
use crate::persistence::save::{
    SaveAction, SaveReplyView, SaveStateView, SavedFiles, files_after, save_action, save_replied,
    save_start,
};
use crate::persistence::validate::validated;
use crate::persistence::worktrees::{FactsView, backfilled, rows_dropped, stale_ids};
use crate::state::{DataView, project_ids, project_in};
use vstd::prelude::*;

verus! {

/// A load of a workspace that is there: the host looks, reads, parses what it
/// read and looks at the disk, in this order, and the load is over. Saving is
/// free from then on.
pub proof fn loads_follow_the_script(
    suppressed: bool,
    clear: bool,
    shell: ShellView,
    s: Seq<char>,
    d: DataView,
    f: FactsView,
)
    ensures
        ({
            let begun = load_start(suppressed, clear, shell);
            let found = load_replied(begun, LoadReplyView::Found(true));
            let read = load_replied(found, LoadReplyView::Content(Ok(s)));
            let parsed = load_replied(read, LoadReplyView::Parsed(Ok(d)));
            let over = load_replied(parsed, LoadReplyView::Surveyed(f));
            &&& load_action(begun) == LoadActionView::Exists(WorkspaceFile::Workspace)
            &&& load_action(found) is ReadWorkspace
            &&& load_action(read) == LoadActionView::Parse(present_content(s))
            &&& load_action(parsed) is Survey
            &&& load_action(over) is Nothing
            &&& over.state is Loaded
            &&& !over.suppressed
        }),
{
}

/// Where the workspace is missing, its backup is put in its place and read.
pub proof fn missing_workspaces_are_restored(suppressed: bool, clear: bool, shell: ShellView)
    ensures
        ({
            let begun = load_start(suppressed, clear, shell);
            let missing = load_replied(begun, LoadReplyView::Found(false));
            let restoring = load_replied(missing, LoadReplyView::Found(true));
            let restored = load_replied(restoring, LoadReplyView::Copied);
            let found = load_replied(restored, LoadReplyView::Found(true));
            &&& load_action(missing) == LoadActionView::Exists(WorkspaceFile::Backup)
            &&& load_action(restoring) == (LoadActionView::Copy {
                from: WorkspaceFile::Backup,
                to: WorkspaceFile::Workspace,
            })
            &&& load_action(restored) == LoadActionView::Exists(WorkspaceFile::Workspace)
            &&& load_action(found) is ReadWorkspace
        }),
{
}

/// Where there is no workspace and no backup, the load starts afresh, and saving
/// is free unless it was blocked. Where a backup turns up that could not be put
/// in place, saving is blocked.
pub proof fn first_loads_start_afresh(suppressed: bool, clear: bool, shell: ShellView, lost: bool)
    ensures
        ({
            let begun = load_start(suppressed, clear, shell);
            let missing = load_replied(begun, LoadReplyView::Found(false));
            let again = load_replied(missing, LoadReplyView::Found(false));
            let gone = load_replied(again, LoadReplyView::Found(false));
            let over = load_replied(gone, LoadReplyView::Found(lost));
            &&& load_action(again) == LoadActionView::Exists(WorkspaceFile::Workspace)
            &&& load_action(gone) == LoadActionView::Exists(WorkspaceFile::Backup)
            &&& over.state is Fresh
            &&& over.suppressed == (suppressed || lost)
        }),
{
}

/// A workspace that cannot be parsed is kept: as the backup where there is none,
/// and as a file of its own where there is one. Then the load fails with the
/// reason, and saving is blocked.
pub proof fn unreadable_workspaces_are_kept(
    suppressed: bool,
    clear: bool,
    shell: ShellView,
    s: Seq<char>,
    error: Seq<char>,
    backup: bool,
)
    ensures
        ({
            let begun = load_start(suppressed, clear, shell);
            let found = load_replied(begun, LoadReplyView::Found(true));
            let unread = load_replied(found, LoadReplyView::Content(Err(error)));
            let read = load_replied(found, LoadReplyView::Content(Ok(s)));
            let parsed = load_replied(read, LoadReplyView::Parsed(Err(error)));
            let keeping = load_replied(parsed, LoadReplyView::Found(backup));
            let over = load_replied(keeping, LoadReplyView::Copied);
            &&& unread.state == LoadStateView::Failed(error)
            &&& unread.suppressed
            &&& load_action(parsed) == LoadActionView::Exists(WorkspaceFile::Backup)
            &&& load_action(keeping) == (LoadActionView::Copy {
                from: WorkspaceFile::Workspace,
                to: if backup {
                    WorkspaceFile::Corrupt
                } else {
                    WorkspaceFile::Backup
                },
            })
            &&& over.state == LoadStateView::Failed(error)
            &&& over.suppressed
        }),
{
}

proof fn dropping_keeps_the_version(d: DataView, ids: Seq<Seq<char>>, n: nat)
    ensures
        rows_dropped(d, ids, n).version == d.version,
    decreases n,
{
    if n > 0 && n <= ids.len() {
        dropping_keeps_the_version(d, ids, (n - 1) as nat);
    }
}

/// What is loaded is what was written down: every project that is no worktree
/// and was not being made is there under its id, with its name and its path, and
/// with its terminals where they live on.
pub proof fn loads_bring_what_was_written(
    m: LoadView,
    d: DataView,
    f: FactsView,
    i: int,
)
    requires
        m.state == (LoadStateView::Survey { data: d }),
        0 <= i < d.projects.len(),
        project_ids(d.projects).no_duplicates(),
        d.projects[i].worktree_info is None,
        !d.projects[i].is_creating,
    ensures
        ({
            let over = load_replied(m, LoadReplyView::Surveyed(f));
            let p = d.projects[i];
            let q = project_in(over.state->Loaded_data.projects, p.id);
            &&& over.state is Loaded
            &&& over.state->Loaded_data.version >= WORKSPACE_VERSION
            &&& over.state->Loaded_data.version >= d.version
            &&& q is Some
            &&& (q->0).name == p.name
            &&& (q->0).path == p.path
            &&& !m.clear_terminal_ids ==> opt_terminal_ids((q->0).layout) == opt_terminal_ids(
                p.layout,
            )
            &&& (q->0).layout is Some == p.layout is Some
        }),
{
    let e = DataView {
        version: crate::persistence::legacy::migrated_version(d.version),
        ..d
    };
    let v = validated(e, m.clear_terminal_ids, f.wsl);
    loading_keeps_what_projects_are(e, m.clear_terminal_ids, f.wsl, i);
    living_terminals_are_kept(e, f.wsl, i, Seq::empty());
    assert forall|k: int| 0 <= k < d.projects.len() implies (#[trigger] v.projects[k]).id
        == d.projects[k].id by {
        loading_keeps_what_projects_are(e, m.clear_terminal_ids, f.wsl, k);
    }
    assert(project_ids(v.projects) =~= project_ids(d.projects));
    projects_on_disk_are_kept(v, f, i);
    let ps = backfilled(v.projects, f);
    let gone = stale_ids(ps, f, ps.len());
    dropping_keeps_the_version(DataView { projects: ps, ..v }, gone, gone.len());
}

/// A save goes through its steps in this order: the directory is made, the data
/// is encoded, what is there is moved aside, the new text is written beside it
/// and then put in its place. After it the workspace holds the text, and the
/// backup what the workspace held.
pub proof fn saves_follow_the_script(d: SavedFiles, text: Seq<char>, partial: Seq<char>)
    ensures
        ({
            let ok = SaveReplyView::Done(None);
            let begun = save_start(false);
            let made = save_replied(begun, ok);
            let encoded = save_replied(made, ok);
            let found = save_replied(encoded, SaveReplyView::Found(true));
            let aside = save_replied(found, ok);
            let written = save_replied(aside, ok);
            let over = save_replied(written, ok);
            let moved = files_after(d, SaveAction::MoveAside, ok, text, partial);
            let wrote = files_after(moved, SaveAction::Write, ok, text, partial);
            let files = files_after(wrote, SaveAction::Publish, ok, text, partial);
            &&& save_action(begun) is MakeDirectory
            &&& save_action(made) is Encode
            &&& save_action(encoded) is Look
            &&& save_action(found) is MoveAside
            &&& save_action(aside) is Write
            &&& save_action(written) is Publish
            &&& save_action(over) is Nothing
            &&& over == SaveStateView::Over(None)
            &&& files.workspace == Some(text)
            &&& files.backup == d.workspace
        }),
{
}

/// Where there is no workspace yet, nothing is moved aside.
pub proof fn first_saves_move_nothing()
    ensures
        ({
            let ok = SaveReplyView::Done(None);
            let encoded = save_replied(save_replied(save_start(false), ok), ok);
            save_action(save_replied(encoded, SaveReplyView::Found(false))) is Write
        }),
{
}

/// A step of a save that fails ends it with the reason; only the backup may
/// fail.
pub proof fn failed_saves_tell_why(s: SaveStateView, error: Seq<char>)
    ensures
        match save_action(s) {
            SaveAction::MakeDirectory
            | SaveAction::Encode
            | SaveAction::Write
            | SaveAction::Publish => save_replied(s, SaveReplyView::Done(Some(error)))
                == SaveStateView::Over(Some(error)),
            SaveAction::MoveAside => save_action(
                save_replied(s, SaveReplyView::Done(Some(error))),
            ) is Write,
            _ => true,
        },
{
}

} // verus!
