//! Loading and saving the workspace file without ever losing it.
//!
//! The host does the reading and copying: it asks what to do next, does it, and
//! hands back what came of it. A load that fails blocks saving, so that the
//! data that the session started with instead never replaces the file.

use crate::layout::{LayoutNode, ShellType, ShellView, fresh_terminal};
use crate::outside::{fresh_uuid, home_dir, json_read, json_written, random_id};
use crate::persistence::legacy::{
    WORKSPACE_VERSION, migrate_legacy_json, migrate_workspace, migrated_file, migrated_version,
};
use crate::persistence::validate::{validate_workspace_data, validated};
use crate::persistence::worktrees::{
    DiskFacts, FactsView, RouteView, TerminalSessionTeardown, leftover_sessions,
    sync_worktrees_with_backend_and_shell, synced, teardown_views,
};
use crate::collections::IdMap;
use crate::state::{
    DataView, FolderView, WindowState, WindowView, WorkspaceData, blank_window, folder_views,
    new_project_row, new_row, project_views, window_views,
};
use crate::text::{opt_text, outcome_of, refusal_of, texts};
use crate::wsl::WslView;
use vstd::prelude::*;

verus! {

/// Workspace data, with the terminal sessions that no project of it owns any
/// more.
#[derive(Debug)]
pub struct LoadedWorkspace {
    pub data: WorkspaceData,
    pub stale_terminal_ids: Vec<TerminalSessionTeardown>,
}

/// Whether saving is blocked because this session never read the workspace
/// file.
#[derive(Clone, Copy, Debug)]
pub struct SaveGate {
    suppressed: bool,
}

impl View for SaveGate {
    type V = bool;

    closed spec fn view(&self) -> bool {
        self.suppressed
    }
}

/// Why the workspace is not saved.
pub open spec fn save_refusal(suppressed: bool) -> Option<Seq<char>> {
    if suppressed {
        Some(
            "workspace not saved — this session started from a fallback default because the workspace file could not be read; the file on disk stays protected until a session load or import replaces the workspace"@,
        )
    } else {
        None
    }
}

impl SaveGate {
    /// Nothing blocks saving.
    pub fn new() -> (r: Self)
        ensures
            !r@,
    {
        SaveGate { suppressed: false }
    }

    /// Whether saving is blocked.
    pub fn workspace_save_suppressed(&self) -> (r: bool)
        ensures
            r == self@,
    {
        self.suppressed
    }

    /// Allow saving again, once the workspace has been replaced for good.
    /// Returns whether it was blocked.
    pub fn clear_workspace_save_suppression(&mut self) -> (r: bool)
        ensures
            r == old(self)@,
            !final(self)@,
    {
        let was: bool = self.suppressed;
        self.suppressed = false;
        was
    }

    /// Whether the workspace may be saved. It is an error where it may not: a
    /// save that seems to succeed is never tried again.
    pub fn ensure_workspace_save_allowed(&self) -> (r: Result<(), String>)
        ensures
            refusal_of(r) == save_refusal(self@),
    {
        if self.suppressed {
            return Err(
                "workspace not saved — this session started from a fallback default because the workspace file could not be read; the file on disk stays protected until a session load or import replaces the workspace".to_owned(),
            );
        }
        Ok(())
    }
}

/// A file of the workspace.
#[derive(Clone, Copy, Debug, PartialEq, Eq, Structural)]
pub enum WorkspaceFile {
    /// The workspace itself.
    Workspace,
    /// Its last good copy.
    Backup,
    /// What could not be read, kept for the user.
    Corrupt,
}

/// Where a load stands.
#[derive(Debug)]
pub enum LoadState {
    /// See whether the workspace is there.
    Look,
    /// It is not: see whether its backup is.
    LookForBackup,
    /// Bring the backup back.
    Restore,
    /// See once more whether the workspace is there.
    LookAgain,
    Read,
    /// Make workspace data of this text.
    Parse { content: String },
    /// It cannot be made: see whether there is a backup already.
    LookBeforeKeeping { error: String },
    /// Keep the file for the user.
    Keep { error: String, as_file: WorkspaceFile },
    /// See what is on disk of the projects.
    Survey { data: WorkspaceData },
    /// There is no workspace: see whether there is a backup.
    LookForLost,
    Over(LoadOutcome),
}

/// What came of a load.
#[derive(Debug)]
pub enum LoadOutcome {
    Loaded(LoadedWorkspace),
    /// There is nothing to load: start with the default.
    Fresh,
    Failed(String),
}

/// What a [`LoadState`] stands for.
pub enum LoadStateView {
    Look,
    LookForBackup,
    Restore,
    LookAgain,
    Read,
    Parse { content: Seq<char> },
    LookBeforeKeeping { error: Seq<char> },
    Keep { error: Seq<char>, as_file: WorkspaceFile },
    Survey { data: DataView },
    LookForLost,
    Loaded { data: DataView, stale: Seq<(Seq<char>, RouteView)> },
    Fresh,
    Failed(Seq<char>),
}

impl View for LoadState {
    type V = LoadStateView;

    open spec fn view(&self) -> LoadStateView {
        match *self {
            LoadState::Look => LoadStateView::Look,
            LoadState::LookForBackup => LoadStateView::LookForBackup,
            LoadState::Restore => LoadStateView::Restore,
            LoadState::LookAgain => LoadStateView::LookAgain,
            LoadState::Read => LoadStateView::Read,
            LoadState::Parse { content } => LoadStateView::Parse { content: content@ },
            LoadState::LookBeforeKeeping { error } => LoadStateView::LookBeforeKeeping {
                error: error@,
            },
            LoadState::Keep { error, as_file } => LoadStateView::Keep { error: error@, as_file },
            LoadState::Survey { data } => LoadStateView::Survey { data: data@ },
            LoadState::LookForLost => LoadStateView::LookForLost,
            LoadState::Over(o) => outcome_view(o),
        }
    }
}

/// What a [`LoadOutcome`] stands for.
pub open spec fn outcome_view(o: LoadOutcome) -> LoadStateView {
    match o {
        LoadOutcome::Loaded(l) => LoadStateView::Loaded {
            data: l.data@,
            stale: teardown_views(l.stale_terminal_ids@),
        },
        LoadOutcome::Fresh => LoadStateView::Fresh,
        LoadOutcome::Failed(e) => LoadStateView::Failed(e@),
    }
}

/// Whether a load has come to its end.
pub open spec fn load_over(s: LoadStateView) -> bool {
    s is Loaded || s is Fresh || s is Failed
}

/// What the host is to do.
#[derive(Debug)]
pub enum LoadAction {
    /// See whether the file is there.
    Exists(WorkspaceFile),
    Copy { from: WorkspaceFile, to: WorkspaceFile },
    ReadWorkspace,
    /// Make workspace data of this text.
    Parse(String),
    /// See what is on disk of the projects.
    Survey,
    Nothing,
}

/// What a [`LoadAction`] stands for.
pub enum LoadActionView {
    Exists(WorkspaceFile),
    Copy { from: WorkspaceFile, to: WorkspaceFile },
    ReadWorkspace,
    Parse(Seq<char>),
    Survey,
    Nothing,
}

impl View for LoadAction {
    type V = LoadActionView;

    open spec fn view(&self) -> LoadActionView {
        match *self {
            LoadAction::Exists(f) => LoadActionView::Exists(f),
            LoadAction::Copy { from, to } => LoadActionView::Copy { from, to },
            LoadAction::ReadWorkspace => LoadActionView::ReadWorkspace,
            LoadAction::Parse(s) => LoadActionView::Parse(s@),
            LoadAction::Survey => LoadActionView::Survey,
            LoadAction::Nothing => LoadActionView::Nothing,
        }
    }
}

/// What came of it.
#[derive(Debug)]
pub enum LoadReply {
    /// Whether the file is there.
    Found(bool),
    /// The copy was tried.
    Copied,
    /// What the file holds.
    Content(Result<String, String>),
    /// The data that the text stands for.
    Parsed(Result<WorkspaceData, String>),
    /// What is on disk of the projects.
    Surveyed(DiskFacts),
}

/// What a [`LoadReply`] stands for.
pub enum LoadReplyView {
    Found(bool),
    Copied,
    Content(Result<Seq<char>, Seq<char>>),
    Parsed(Result<DataView, Seq<char>>),
    Surveyed(FactsView),
}

impl View for LoadReply {
    type V = LoadReplyView;

    open spec fn view(&self) -> LoadReplyView {
        match *self {
            LoadReply::Found(b) => LoadReplyView::Found(b),
            LoadReply::Copied => LoadReplyView::Copied,
            LoadReply::Content(r) => LoadReplyView::Content(outcome_of(r)),
            LoadReply::Parsed(r) => LoadReplyView::Parsed(
                match r {
                    Ok(d) => Ok(d@),
                    Err(e) => Err(e@),
                },
            ),
            LoadReply::Surveyed(f) => LoadReplyView::Surveyed(f@),
        }
    }
}

/// A load on its way.
#[derive(Debug)]
pub struct WorkspaceLoad {
    gate: SaveGate,
    /// Whether the terminals of an earlier run are gone.
    clear_terminal_ids: bool,
    default_shell: ShellType,
    state: LoadState,
}

/// What a [`WorkspaceLoad`] stands for.
pub struct LoadView {
    pub suppressed: bool,
    pub clear_terminal_ids: bool,
    pub default_shell: ShellView,
    pub state: LoadStateView,
}

impl View for WorkspaceLoad {
    type V = LoadView;

    closed spec fn view(&self) -> LoadView {
        LoadView {
            suppressed: self.gate@,
            clear_terminal_ids: self.clear_terminal_ids,
            default_shell: self.default_shell@,
            state: self.state@,
        }
    }
}

/// The text to make workspace data of: `content`, in which what older versions
/// kept elsewhere has moved, or `content` itself where it cannot be moved.
pub open spec fn present_content(content: Seq<char>) -> Seq<char> {
    match json_read(content) {
        Some(j) => match json_written(migrated_file(j)) {
            Some(s) => s,
            None => content,
        },
        None => content,
    }
}

/// `data` as it is taken over.
pub open spec fn taken_over(d: DataView, clear_terminal_ids: bool, wsl: WslView) -> DataView {
    validated(DataView { version: migrated_version(d.version), ..d }, clear_terminal_ids, wsl)
}

/// A load that has not begun.
pub open spec fn load_start(
    suppressed: bool,
    clear_terminal_ids: bool,
    default_shell: ShellView,
) -> LoadView {
    LoadView { suppressed, clear_terminal_ids, default_shell, state: LoadStateView::Look }
}

/// `m` in another state.
pub open spec fn load_at(m: LoadView, state: LoadStateView) -> LoadView {
    LoadView { state, ..m }
}

/// `m` once it has failed: saving is blocked.
pub open spec fn load_failed(m: LoadView, error: Seq<char>) -> LoadView {
    LoadView { suppressed: true, state: LoadStateView::Failed(error), ..m }
}

/// `m` after the reply `r`. One that it does not wait for changes nothing.
pub open spec fn load_replied(m: LoadView, r: LoadReplyView) -> LoadView {
    match (m.state, r) {
        (LoadStateView::Look, LoadReplyView::Found(there)) => load_at(
            m,
            if there {
                LoadStateView::Read
            } else {
                LoadStateView::LookForBackup
            },
        ),
        (LoadStateView::LookForBackup, LoadReplyView::Found(there)) => load_at(
            m,
            if there {
                LoadStateView::Restore
            } else {
                LoadStateView::LookAgain
            },
        ),
        (LoadStateView::Restore, LoadReplyView::Copied) => load_at(m, LoadStateView::LookAgain),
        (LoadStateView::LookAgain, LoadReplyView::Found(there)) => load_at(
            m,
            if there {
                LoadStateView::Read
            } else {
                LoadStateView::LookForLost
            },
        ),
        (LoadStateView::Read, LoadReplyView::Content(c)) => match c {
            Err(e) => load_failed(m, e),
            Ok(s) => load_at(m, LoadStateView::Parse { content: present_content(s) }),
        },
        (LoadStateView::Parse { content }, LoadReplyView::Parsed(d)) => match d {
            Err(e) => load_at(m, LoadStateView::LookBeforeKeeping { error: e }),
            Ok(d) => load_at(m, LoadStateView::Survey { data: d }),
        },
        (LoadStateView::LookBeforeKeeping { error }, LoadReplyView::Found(there)) => load_at(
            m,
            LoadStateView::Keep {
                error,
                as_file: if there {
                    WorkspaceFile::Corrupt
                } else {
                    WorkspaceFile::Backup
                },
            },
        ),
        (LoadStateView::Keep { error, as_file }, LoadReplyView::Copied) => load_failed(m, error),
        (LoadStateView::Survey { data }, LoadReplyView::Surveyed(f)) => {
            let d = taken_over(data, m.clear_terminal_ids, f.wsl);
            LoadView {
                suppressed: false,
                state: LoadStateView::Loaded {
                    data: synced(d, f),
                    stale: leftover_sessions(d, f, m.default_shell),
                },
                ..m
            }
        },
        (LoadStateView::LookForLost, LoadReplyView::Found(there)) => LoadView {
            suppressed: m.suppressed || there,
            state: LoadStateView::Fresh,
            ..m
        },
        _ => m,
    }
}

/// What `m` asks of the host.
pub open spec fn load_action(m: LoadView) -> LoadActionView {
    match m.state {
        LoadStateView::Look | LoadStateView::LookAgain => LoadActionView::Exists(
            WorkspaceFile::Workspace,
        ),
        LoadStateView::LookForBackup
        | LoadStateView::LookBeforeKeeping { .. }
        | LoadStateView::LookForLost => LoadActionView::Exists(WorkspaceFile::Backup),
        LoadStateView::Restore => LoadActionView::Copy {
            from: WorkspaceFile::Backup,
            to: WorkspaceFile::Workspace,
        },
        LoadStateView::Read => LoadActionView::ReadWorkspace,
        LoadStateView::Parse { content } => LoadActionView::Parse(content),
        LoadStateView::Keep { error, as_file } => LoadActionView::Copy {
            from: WorkspaceFile::Workspace,
            to: as_file,
        },
        LoadStateView::Survey { .. } => LoadActionView::Survey,
        _ => LoadActionView::Nothing,
    }
}

/// A load begun at `m`, after these replies.
pub open spec fn load_run(m: LoadView, rs: Seq<LoadReplyView>) -> LoadView
    decreases rs.len(),
{
    if rs.len() == 0 {
        m
    } else {
        load_replied(load_run(m, rs.drop_last()), rs.last())
    }
}

/// The text to make workspace data of.
pub fn present_workspace_json(content: String) -> (r: String)
    ensures
        r@ == present_content(content@),
{
    match migrate_legacy_json(content.as_str()) {
        Ok(s) => s,
        Err(_) => content,
    }
}

impl WorkspaceLoad {
    /// A load that has not begun. `gate` says whether saving is blocked so far,
    /// and `clear_terminal_ids` whether terminals die with their run.
    pub fn new(gate: SaveGate, clear_terminal_ids: bool, default_shell: ShellType) -> (r: Self)
        ensures
            r@ == load_start(gate@, clear_terminal_ids, default_shell@),
    {
        WorkspaceLoad { gate, clear_terminal_ids, default_shell, state: LoadState::Look }
    }

    /// What the host is to do next.
    pub fn action(&self) -> (r: LoadAction)
        ensures
            r@ == load_action(self@),
    {
        match &self.state {
            LoadState::Look | LoadState::LookAgain => LoadAction::Exists(WorkspaceFile::Workspace),
            LoadState::LookForBackup
            | LoadState::LookBeforeKeeping { .. }
            | LoadState::LookForLost => LoadAction::Exists(WorkspaceFile::Backup),
            LoadState::Restore => LoadAction::Copy {
                from: WorkspaceFile::Backup,
                to: WorkspaceFile::Workspace,
            },
            LoadState::Read => LoadAction::ReadWorkspace,
            LoadState::Parse { content } => LoadAction::Parse(content.clone()),
            LoadState::Keep { as_file, .. } => LoadAction::Copy {
                from: WorkspaceFile::Workspace,
                to: *as_file,
            },
            LoadState::Survey { .. } => LoadAction::Survey,
            LoadState::Over(_) => LoadAction::Nothing,
        }
    }

    /// The data of which the host is to see what is on disk.
    pub fn surveyed(&self) -> (r: Option<&WorkspaceData>)
        ensures
            match r {
                Some(d) => self@.state == (LoadStateView::Survey { data: d@ }),
                None => !(self@.state is Survey),
            },
    {
        match &self.state {
            LoadState::Survey { data } => Some(data),
            _ => None,
        }
    }

    fn at(self, state: LoadState) -> (r: Self)
        ensures
            r@ == load_at(self@, state@),
    {
        WorkspaceLoad {
            gate: self.gate,
            clear_terminal_ids: self.clear_terminal_ids,
            default_shell: self.default_shell,
            state,
        }
    }

    fn over(self, suppressed: bool, o: LoadOutcome) -> (r: Self)
        ensures
            r@ == (LoadView { suppressed, state: outcome_view(o), ..self@ }),
    {
        WorkspaceLoad {
            gate: SaveGate { suppressed },
            clear_terminal_ids: self.clear_terminal_ids,
            default_shell: self.default_shell,
            state: LoadState::Over(o),
        }
    }

    fn survey(self, facts: &DiskFacts) -> (r: Self)
        ensures
            self@.state is Survey ==> r@ == load_replied(self@, LoadReplyView::Surveyed(facts@)),
            !(self@.state is Survey) ==> r@ == self@,
    {
        match self.state {
            LoadState::Survey { data } => {
                let mut data = migrate_workspace(data);
                validate_workspace_data(&mut data, self.clear_terminal_ids, &facts.wsl);
                let stale_terminal_ids = sync_worktrees_with_backend_and_shell(
                    &mut data,
                    facts,
                    &self.default_shell,
                );
                WorkspaceLoad {
                    gate: SaveGate { suppressed: false },
                    clear_terminal_ids: self.clear_terminal_ids,
                    default_shell: self.default_shell,
                    state: LoadState::Over(
                        LoadOutcome::Loaded(LoadedWorkspace { data, stale_terminal_ids }),
                    ),
                }
            },
            _ => self,
        }
    }

    fn found(self, there: bool) -> (r: Self)
        ensures
            r@ == load_replied(self@, LoadReplyView::Found(there)),
    {
        match self.state {
            LoadState::Look => self.at(
                if there {
                    LoadState::Read
                } else {
                    LoadState::LookForBackup
                },
            ),
            LoadState::LookForBackup => self.at(
                if there {
                    LoadState::Restore
                } else {
                    LoadState::LookAgain
                },
            ),
            LoadState::LookAgain => self.at(
                if there {
                    LoadState::Read
                } else {
                    LoadState::LookForLost
                },
            ),
            LoadState::LookBeforeKeeping { error } => WorkspaceLoad {
                gate: self.gate,
                clear_terminal_ids: self.clear_terminal_ids,
                default_shell: self.default_shell,
                state: LoadState::Keep {
                    error,
                    as_file: if there {
                        WorkspaceFile::Corrupt
                    } else {
                        WorkspaceFile::Backup
                    },
                },
            },
            LoadState::LookForLost => {
                let suppressed: bool = self.gate.suppressed || there;
                self.over(suppressed, LoadOutcome::Fresh)
            },
            _ => self,
        }
    }

    /// Take in what came of what the host was asked for.
    pub fn advance(self, reply: LoadReply) -> (r: Self)
        ensures
            r@ == load_replied(self@, reply@),
    {
        match reply {
            LoadReply::Found(there) => self.found(there),
            LoadReply::Copied => match self.state {
                LoadState::Restore => self.at(LoadState::LookAgain),
                LoadState::Keep { error, as_file } => WorkspaceLoad {
                    gate: SaveGate { suppressed: true },
                    clear_terminal_ids: self.clear_terminal_ids,
                    default_shell: self.default_shell,
                    state: LoadState::Over(LoadOutcome::Failed(error)),
                },
                _ => self,
            },
            LoadReply::Content(c) => match self.state {
                LoadState::Read => match c {
                    Ok(s) => self.at(LoadState::Parse { content: present_workspace_json(s) }),
                    Err(e) => self.over(true, LoadOutcome::Failed(e)),
                },
                _ => self,
            },
            LoadReply::Parsed(d) => match self.state {
                LoadState::Parse { content: _ } => match d {
                    Ok(data) => self.at(LoadState::Survey { data }),
                    Err(error) => self.at(LoadState::LookBeforeKeeping { error }),
                },
                _ => self,
            },
            LoadReply::Surveyed(f) => self.survey(&f),
        }
    }

    /// Whether saving is blocked.
    pub fn save_gate(&self) -> (r: SaveGate)
        ensures
            r@ == self@.suppressed,
    {
        self.gate
    }

    /// What came of it, once it is over.
    pub fn outcome(self) -> (r: Option<LoadOutcome>)
        ensures
            match r {
                Some(o) => self@.state == outcome_view(o),
                None => !load_over(self@.state),
            },
    {
        match self.state {
            LoadState::Over(o) => Some(o),
            _ => None,
        }
    }
}

/// A workspace of one project.
pub open spec fn first_workspace(
    id: Seq<char>,
    home: Option<Seq<char>>,
    window_id: u128,
) -> DataView {
    DataView {
        version: WORKSPACE_VERSION,
        projects: seq![
            new_row(
                id,
                "Default"@,
                match home {
                    Some(h) => h,
                    None => "/"@,
                },
                Some(fresh_terminal()),
                None,
            ),
        ],
        project_order: seq![id],
        service_panel_heights: Seq::empty(),
        hook_panel_heights: Seq::empty(),
        folders: Seq::empty(),
        main_window: blank_window(window_id),
        extra_windows: Seq::empty(),
    }
}

/// A workspace of one project, at the user's home.
pub fn default_workspace_with(id: String, home: Option<String>, window_id: u128) -> (r:
    WorkspaceData)
    ensures
        r@ == first_workspace(id@, opt_text(home), window_id),
{
    let path: String = match home {
        Some(h) => h,
        None => "/".to_owned(),
    };
    let mut projects = Vec::new();
    projects.push(
        new_project_row(
            id.clone(),
            "Default".to_owned(),
            path,
            Some(LayoutNode::new_terminal()),
            None,
        ),
    );
    let mut project_order: Vec<String> = Vec::new();
    project_order.push(id);
    let r = WorkspaceData {
        version: WORKSPACE_VERSION,
        projects,
        project_order,
        service_panel_heights: IdMap::new(),
        hook_panel_heights: IdMap::new(),
        folders: Vec::new(),
        main_window: WindowState::new(window_id),
        extra_windows: Vec::new(),
    };
    proof {
        let first = first_workspace(id@, opt_text(home), window_id);
        assert(project_views(r.projects@) =~= first.projects);
        assert(texts(r.project_order@) =~= first.project_order);
        assert(folder_views(r.folders@) =~= Seq::<FolderView>::empty());
        assert(window_views(r.extra_windows@) =~= Seq::<WindowView>::empty());
    }
    r
}

/// A workspace of one project, at the user's home.
pub fn default_workspace() -> (r: WorkspaceData)
    ensures
        exists|id: Seq<char>, home: Option<Seq<char>>, window_id: u128|
            random_id(id) && r@ == #[trigger] first_workspace(id, home, window_id),
{
    let (id, _) = fresh_uuid();
    let (_, window_id) = fresh_uuid();
    let home = home_dir();
    default_workspace_with(id, home, window_id)
}

/// A load that failed leaves saving blocked, one that succeeded leaves it
/// free, and one that found nothing blocks it if there is a backup.
pub proof fn failed_loads_block_saving(m: LoadView, rs: Seq<LoadReplyView>)
    requires
        m.state is Look,
    ensures
        load_run(m, rs).state is Failed ==> save_refusal(load_run(m, rs).suppressed) is Some,
        load_run(m, rs).state is Loaded ==> save_refusal(load_run(m, rs).suppressed) is None,
    decreases rs.len(),
{
    if rs.len() > 0 {
        failed_loads_block_saving(m, rs.drop_last());
    }
}

/// While a load is on its way, whether saving is blocked does not change.
pub proof fn loads_decide_at_their_end(m: LoadView, rs: Seq<LoadReplyView>)
    requires
        m.state is Look,
        !load_over(load_run(m, rs).state),
    ensures
        load_run(m, rs).suppressed == m.suppressed,
    decreases rs.len(),
{
    if rs.len() > 0 {
        loads_decide_at_their_end(m, rs.drop_last());
    }
}

/// Nothing is copied over a backup: what could not be read is kept as the
/// backup only where the host has just said that there is none.
pub proof fn backups_are_never_overwritten(m: LoadView, rs: Seq<LoadReplyView>)
    requires
        m.state is Look,
        load_action(load_run(m, rs)) is Copy,
        load_action(load_run(m, rs))->to == WorkspaceFile::Backup,
    ensures
        exists|n: int|
            0 <= n < rs.len() && rs[n] == LoadReplyView::Found(false) && #[trigger] load_action(
                load_run(m, rs.take(n)),
            ) == LoadActionView::Exists(WorkspaceFile::Backup) && (forall|k: int|
                n < k <= rs.len() ==> #[trigger] load_run(m, rs.take(k)) == load_run(m, rs)),
    decreases rs.len(),
{
    let before = rs.drop_last();
    assert(rs.take(rs.len() as int) =~= rs);
    if load_run(m, before) == load_run(m, rs) {
        backups_are_never_overwritten(m, before);
        let n = choose|n: int|
            0 <= n < before.len() && before[n] == LoadReplyView::Found(false)
                && #[trigger] load_action(load_run(m, before.take(n))) == LoadActionView::Exists(
                WorkspaceFile::Backup,
            ) && (forall|k: int|
                n < k <= before.len() ==> #[trigger] load_run(m, before.take(k)) == load_run(
                    m,
                    before,
                ));
        assert(rs.take(n) =~= before.take(n));
        assert(rs[n] == before[n]);
        assert forall|k: int| n < k <= rs.len() implies #[trigger] load_run(m, rs.take(k))
            == load_run(m, rs) by {
            if k < rs.len() {
                assert(rs.take(k) =~= before.take(k));
                assert(load_run(m, before.take(k)) == load_run(m, before));
            }
        }
        assert(load_action(load_run(m, rs.take(n))) == LoadActionView::Exists(
            WorkspaceFile::Backup,
        ));
    } else {
        let n = rs.len() - 1;
        assert(rs.take(n) =~= before);
        assert forall|k: int| n < k <= rs.len() implies #[trigger] load_run(m, rs.take(k))
            == load_run(m, rs) by {
            assert(k == rs.len());
        }
        assert(load_action(load_run(m, rs.take(n))) == LoadActionView::Exists(
            WorkspaceFile::Backup,
        ));
    }
}

} // verus!
