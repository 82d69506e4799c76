//! Saving the workspace file, so that the last good one is never lost.
//!
//! The host does the writing and renaming: it asks what to do next, does it,
//! and hands back what came of it.

use crate::persistence::load::{SaveGate, save_refusal};
use crate::state::{ProjectData, ProjectView, WorkspaceData, project_views};
use crate::text::refusal_of;
use vstd::prelude::*;

verus! {

/// The projects that are written down: those of this machine.
pub open spec fn saved_rows(s: Seq<ProjectView>) -> Seq<ProjectView> {
    s.filter(|p: ProjectView| p.connection_id is None)
}

/// What each project of `s` stands for.
pub open spec fn row_views(s: Seq<&ProjectData>) -> Seq<ProjectView> {
    s.map_values(|p: &ProjectData| p@)
}

/// The projects that are written down. Those of other daemons are not: their
/// daemons keep them.
pub fn saved_projects(data: &WorkspaceData) -> (r: Vec<&ProjectData>)
    ensures
        row_views(r@) == saved_rows(data@.projects),
{
    let mut r: Vec<&ProjectData> = Vec::new();
    let mut i: usize = 0;
    let ghost all = data@.projects;
    let ghost keep = |p: ProjectView| p.connection_id is None;
    proof {
        assert(all.take(0) =~= Seq::<ProjectView>::empty());
        assert(row_views(r@) =~= all.take(0).filter(keep)) by {
            reveal(Seq::filter);
        }
    }
    while i < data.projects.len()
        invariant
            i <= data.projects@.len(),
            all == data@.projects,
            all == project_views(data.projects@),
            keep == (|p: ProjectView| p.connection_id is None),
            row_views(r@) == all.take(i as int).filter(keep),
        decreases data.projects@.len() - i,
    {
        let ghost before = r@;
        let p = &data.projects[i];
        if p.connection_id.is_none() {
            r.push(p);
        }
        proof {
            reveal(Seq::filter);
            assert(all.take(i + 1).drop_last() =~= all.take(i as int));
            assert(all.take(i + 1).last() == data.projects@[i as int]@);
            if data.projects@[i as int].connection_id is None {
                assert(row_views(r@) =~= row_views(before).push(data.projects@[i as int]@));
            }
        }
        i += 1;
    }
    proof {
        assert(all.take(all.len() as int) =~= all);
    }
    r
}

/// Where a save stands.
#[derive(Debug)]
pub enum SaveState {
    MakeDirectory,
    /// Write the workspace as text.
    Encode,
    /// See whether there is a workspace file.
    Look,
    /// Rename it to its backup.
    MoveAside,
    /// Write the text to a temporary file, down to the disk.
    Write,
    /// Rename that to the workspace file.
    Publish,
    Over(Result<(), String>),
}

/// What a [`SaveState`] stands for.
pub enum SaveStateView {
    MakeDirectory,
    Encode,
    Look,
    MoveAside,
    Write,
    Publish,
    /// It is over; what went wrong.
    Over(Option<Seq<char>>),
}

impl View for SaveState {
    type V = SaveStateView;

    open spec fn view(&self) -> SaveStateView {
        match *self {
            SaveState::MakeDirectory => SaveStateView::MakeDirectory,
            SaveState::Encode => SaveStateView::Encode,
            SaveState::Look => SaveStateView::Look,
            SaveState::MoveAside => SaveStateView::MoveAside,
            SaveState::Write => SaveStateView::Write,
            SaveState::Publish => SaveStateView::Publish,
            SaveState::Over(r) => SaveStateView::Over(refusal_of(r)),
        }
    }
}

/// What the host is to do.
#[derive(Clone, Copy, Debug, PartialEq, Eq, Structural)]
pub enum SaveAction {
    MakeDirectory,
    Encode,
    /// Say whether there is a workspace file.
    Look,
    MoveAside,
    Write,
    Publish,
    Nothing,
}

/// What came of it.
#[derive(Debug)]
pub enum SaveReply {
    Found(bool),
    Done(Result<(), String>),
}

/// What a [`SaveReply`] stands for.
pub enum SaveReplyView {
    Found(bool),
    /// What went wrong.
    Done(Option<Seq<char>>),
}

impl View for SaveReply {
    type V = SaveReplyView;

    open spec fn view(&self) -> SaveReplyView {
        match *self {
            SaveReply::Found(b) => SaveReplyView::Found(b),
            SaveReply::Done(r) => SaveReplyView::Done(refusal_of(r)),
        }
    }
}

/// A save that has not begun, while saving is blocked or not.
pub open spec fn save_start(suppressed: bool) -> SaveStateView {
    match save_refusal(suppressed) {
        Some(e) => SaveStateView::Over(Some(e)),
        None => SaveStateView::MakeDirectory,
    }
}

/// What a save asks of the host.
pub open spec fn save_action(s: SaveStateView) -> SaveAction {
    match s {
        SaveStateView::MakeDirectory => SaveAction::MakeDirectory,
        SaveStateView::Encode => SaveAction::Encode,
        SaveStateView::Look => SaveAction::Look,
        SaveStateView::MoveAside => SaveAction::MoveAside,
        SaveStateView::Write => SaveAction::Write,
        SaveStateView::Publish => SaveAction::Publish,
        SaveStateView::Over(_) => SaveAction::Nothing,
    }
}

/// The state after a step that must succeed.
pub open spec fn next_or_over(error: Option<Seq<char>>, next: SaveStateView) -> SaveStateView {
    match error {
        Some(e) => SaveStateView::Over(Some(e)),
        None => next,
    }
}

/// The save after this reply. That no backup could be made does not stop it.
pub open spec fn save_replied(s: SaveStateView, r: SaveReplyView) -> SaveStateView {
    match (s, r) {
        (SaveStateView::Look, SaveReplyView::Found(b)) => if b {
            SaveStateView::MoveAside
        } else {
            SaveStateView::Write
        },
        (SaveStateView::MoveAside, SaveReplyView::Done(_)) => SaveStateView::Write,
        (SaveStateView::MakeDirectory, SaveReplyView::Done(e)) => next_or_over(
            e,
            SaveStateView::Encode,
        ),
        (SaveStateView::Encode, SaveReplyView::Done(e)) => next_or_over(e, SaveStateView::Look),
        (SaveStateView::Write, SaveReplyView::Done(e)) => next_or_over(e, SaveStateView::Publish),
        (SaveStateView::Publish, SaveReplyView::Done(e)) => SaveStateView::Over(e),
        _ => s,
    }
}

/// A save on its way.
#[derive(Debug)]
pub struct WorkspaceSave {
    state: SaveState,
}

impl View for WorkspaceSave {
    type V = SaveStateView;

    closed spec fn view(&self) -> SaveStateView {
        self.state@
    }
}

impl WorkspaceSave {
    /// A save that has not begun.
    pub fn new(gate: &SaveGate) -> (r: Self)
        ensures
            r@ == save_start(gate@),
    {
        match gate.ensure_workspace_save_allowed() {
            Err(e) => WorkspaceSave { state: SaveState::Over(Err(e)) },
            Ok(()) => WorkspaceSave { state: SaveState::MakeDirectory },
        }
    }

    /// What the host is to do next.
    pub fn action(&self) -> (r: SaveAction)
        ensures
            r == save_action(self@),
    {
        match &self.state {
            SaveState::MakeDirectory => SaveAction::MakeDirectory,
            SaveState::Encode => SaveAction::Encode,
            SaveState::Look => SaveAction::Look,
            SaveState::MoveAside => SaveAction::MoveAside,
            SaveState::Write => SaveAction::Write,
            SaveState::Publish => SaveAction::Publish,
            SaveState::Over(_) => SaveAction::Nothing,
        }
    }

    /// Go on with what came of it.
    pub fn advance(self, reply: SaveReply) -> (r: Self)
        ensures
            r@ == save_replied(self@, reply@),
    {
        let state = match (self.state, reply) {
            (SaveState::Look, SaveReply::Found(b)) => if b {
                SaveState::MoveAside
            } else {
                SaveState::Write
            },
            (SaveState::MoveAside, SaveReply::Done(_)) => SaveState::Write,
            (SaveState::MakeDirectory, SaveReply::Done(Ok(()))) => SaveState::Encode,
            (SaveState::Encode, SaveReply::Done(Ok(()))) => SaveState::Look,
            (SaveState::Write, SaveReply::Done(Ok(()))) => SaveState::Publish,
            (SaveState::MakeDirectory, SaveReply::Done(Err(e))) => SaveState::Over(Err(e)),
            (SaveState::Encode, SaveReply::Done(Err(e))) => SaveState::Over(Err(e)),
            (SaveState::Write, SaveReply::Done(Err(e))) => SaveState::Over(Err(e)),
            (SaveState::Publish, SaveReply::Done(r)) => SaveState::Over(r),
            (state, _) => state,
        };
        WorkspaceSave { state }
    }

    /// What came of it, once it is over.
    pub fn outcome(self) -> (r: Option<Result<(), String>>)
        ensures
            match r {
                Some(o) => self@ == SaveStateView::Over(refusal_of(o)),
                None => !(self@ is Over),
            },
    {
        match self.state {
            SaveState::Over(r) => Some(r),
            _ => None,
        }
    }
}

/// What the files of the workspace hold.
pub struct SavedFiles {
    pub workspace: Option<Seq<char>>,
    pub backup: Option<Seq<char>>,
    pub temporary: Option<Seq<char>>,
}

/// The files once `action` was done with this reply, in a save of `text`. A
/// rename that fails changes nothing; a write that fails leaves `partial`.
pub open spec fn files_after(
    d: SavedFiles,
    action: SaveAction,
    r: SaveReplyView,
    text: Seq<char>,
    partial: Seq<char>,
) -> SavedFiles {
    match (action, r) {
        (SaveAction::MoveAside, SaveReplyView::Done(None)) => SavedFiles {
            workspace: None,
            backup: d.workspace,
            temporary: d.temporary,
        },
        (SaveAction::Write, SaveReplyView::Done(e)) => SavedFiles {
            temporary: Some(
                if e is None {
                    text
                } else {
                    partial
                },
            ),
            ..d
        },
        (SaveAction::Publish, SaveReplyView::Done(None)) => SavedFiles {
            workspace: d.temporary,
            backup: d.backup,
            temporary: None,
        },
        _ => d,
    }
}

/// A save of `text` begun at `s` with these files, after these replies.
pub open spec fn save_run(
    s: SaveStateView,
    d: SavedFiles,
    rs: Seq<SaveReplyView>,
    text: Seq<char>,
    partial: Seq<char>,
) -> (SaveStateView, SavedFiles)
    decreases rs.len(),
{
    if rs.len() == 0 {
        (s, d)
    } else {
        let (before, files) = save_run(s, d, rs.drop_last(), text, partial);
        (
            save_replied(before, rs.last()),
            files_after(files, save_action(before), rs.last(), text, partial),
        )
    }
}

/// While saving is blocked, a save ends at once with the reason, and no file
/// changes.
pub proof fn blocked_saves_touch_nothing(
    d: SavedFiles,
    rs: Seq<SaveReplyView>,
    text: Seq<char>,
    partial: Seq<char>,
)
    ensures
        save_run(save_start(true), d, rs, text, partial) == (
            SaveStateView::Over(save_refusal(true)),
            d,
        ),
    decreases rs.len(),
{
    if rs.len() > 0 {
        blocked_saves_touch_nothing(d, rs.drop_last(), text, partial);
    }
}

/// At every moment of a save the workspace file is gone, or holds what it held
/// before, or holds the whole new text; and what it held before is to be found
/// there or in the backup until the new text is in its place.
pub proof fn saves_never_lose_the_workspace(
    d: SavedFiles,
    rs: Seq<SaveReplyView>,
    text: Seq<char>,
    partial: Seq<char>,
)
    ensures
        ({
            let (s, files) = save_run(save_start(false), d, rs, text, partial);
            &&& files.workspace is None || files.workspace == d.workspace || files.workspace
                == Some(text)
            &&& d.workspace is Some ==> files.workspace == d.workspace || files.backup
                == d.workspace || files.workspace == Some(text)
            &&& s == SaveStateView::Over(None) ==> files.workspace == Some(text)
        }),
    decreases rs.len(),
{
    save_progress(d, rs, text, partial);
}

/// What holds of the files in each state of a save.
proof fn save_progress(
    d: SavedFiles,
    rs: Seq<SaveReplyView>,
    text: Seq<char>,
    partial: Seq<char>,
)
    ensures
        ({
            let (s, files) = save_run(save_start(false), d, rs, text, partial);
            let kept = files.workspace == d.workspace;
            let aside = files.workspace is None && files.backup == d.workspace;
            match s {
                SaveStateView::MakeDirectory
                | SaveStateView::Encode
                | SaveStateView::Look
                | SaveStateView::MoveAside => kept,
                SaveStateView::Write => kept || aside,
                SaveStateView::Publish => (kept || aside) && files.temporary == Some(text),
                SaveStateView::Over(None) => files.workspace == Some(text),
                SaveStateView::Over(Some(_)) => kept || aside,
            }
        }),
    decreases rs.len(),
{
    if rs.len() > 0 {
        save_progress(d, rs.drop_last(), text, partial);
    }
}

/// A project of another daemon is never written down, and every project of
/// this machine is.
pub proof fn only_local_projects_are_saved(s: Seq<ProjectView>)
    ensures
        forall|p: ProjectView|
            #![trigger saved_rows(s).contains(p)]
            saved_rows(s).contains(p) <==> s.contains(p) && p.connection_id is None,
{
    let keep = |p: ProjectView| p.connection_id is None;
    broadcast use vstd::seq_lib::group_filter_ensures;

    assert forall|p: ProjectView|
        #![trigger saved_rows(s).contains(p)]
        saved_rows(s).contains(p) implies s.contains(p) && p.connection_id is None by {
        let i = choose|i: int| 0 <= i < saved_rows(s).len() && saved_rows(s)[i] == p;
        assert(keep(saved_rows(s)[i]));
        filtered_is_part(s, keep, i);
    }
    assert forall|p: ProjectView|
        #![trigger saved_rows(s).contains(p)]
        s.contains(p) && p.connection_id is None implies saved_rows(s).contains(p) by {
        let i = choose|i: int| 0 <= i < s.len() && s[i] == p;
        assert(keep(s[i]));
    }
}

/// What is left of `s` was in it.
proof fn filtered_is_part(s: Seq<ProjectView>, keep: spec_fn(ProjectView) -> bool, i: int)
    requires
        0 <= i < s.filter(keep).len(),
    ensures
        s.contains(s.filter(keep)[i]),
    decreases s.len(),
{
    reveal(Seq::filter);
    if s.len() > 0 {
        let rest = s.drop_last();
        if i < rest.filter(keep).len() {
            filtered_is_part(rest, keep, i);
            let j = choose|j: int| 0 <= j < rest.len() && rest[j] == rest.filter(keep)[i];
            assert(s[j] == s.filter(keep)[i]);
        } else {
            assert(s[s.len() - 1] == s.filter(keep)[i]);
        }
    }
}

} // verus!
