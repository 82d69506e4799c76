//! Moving the directories of projects, and pointing projects at directories
//! that have moved.

use crate::claims::{
    PathFacts, PathFactsView, Resolution, ResolutionView, coinciding, inside, mutation_refusal,
};
use crate::collections::{IdMap, list_contains, lookup};
use crate::paths::{
    below, is_rooted, is_same_place, parts, parts_of, path_below, rooted, same_place, separator,
    separator_of, start_of, start_parts,
};
use crate::state::{
    HookTerminalEntry, HookTerminalView, ProjectData, ProjectView, WorktreeView, find_project,
    project_in, project_views, project_views_update, with_project,
};
use crate::text::{
    has_char, holds_char, join, join3, opt_text, outcome_of, refusal_of, same, texts,
};
use crate::workspace::{
    Workspace, WorkspaceCx, WorkspaceView, announced, changed, with_projects, ws_project,
};
use vstd::prelude::*;

verus! {

/// The first `n` of `ps` with every step up taken, though none beyond the first
/// `start`.
pub open spec fn resolved(ps: Seq<Seq<char>>, start: nat, n: nat) -> Seq<Seq<char>>
    decreases n,
{
    if n == 0 || n > ps.len() {
        Seq::empty()
    } else {
        let front = resolved(ps, start, (n - 1) as nat);
        let p = ps[n - 1];
        if p == "."@ {
            front
        } else if p == ".."@ {
            if front.len() > start {
                front.drop_last()
            } else {
                front
            }
        } else {
            front.push(p)
        }
    }
}

/// `path` seen from the root, where the working directory is known.
pub open spec fn absolute(windows: bool, cwd: Option<Seq<char>>, path: Seq<char>) -> Seq<char> {
    if rooted(windows, path) {
        path
    } else {
        match cwd {
            Some(c) => below(windows, c, path),
            None => path,
        }
    }
}

/// The parts of `path` seen from the root, without steps up; the path need not
/// exist.
pub open spec fn lexical(windows: bool, cwd: Option<Seq<char>>, path: Seq<char>) -> Seq<
    Seq<char>,
> {
    let full = absolute(windows, cwd, path);
    let ps = parts(windows, full);
    resolved(ps, start_parts(windows, full).len(), ps.len())
}

/// `ps` with separators between them.
pub open spec fn slashed(windows: bool, ps: Seq<Seq<char>>) -> Seq<char>
    decreases ps.len(),
{
    if ps.len() == 0 {
        Seq::empty()
    } else if ps.len() == 1 {
        ps[0]
    } else {
        slashed(windows, ps.drop_last()) + separator(windows) + ps.last()
    }
}

/// What `all` has behind `head`, where it starts with it.
pub open spec fn suffix_of(all: Seq<Seq<char>>, head: Seq<Seq<char>>) -> Option<Seq<Seq<char>>> {
    if head.len() <= all.len() && all.take(head.len() as int) == head {
        Some(all.skip(head.len() as int))
    } else {
        None
    }
}

/// The place below `root` that `suffix` leads to.
pub open spec fn onto(windows: bool, root: Seq<char>, suffix: Seq<Seq<char>>) -> Seq<char> {
    if suffix.len() == 0 {
        root
    } else {
        below(windows, root, slashed(windows, suffix))
    }
}

/// What came of resolving `path`.
pub open spec fn resolution(f: PathFactsView, path: Seq<char>) -> ResolutionView {
    match lookup(f.resolutions, path) {
        Some(r) => r,
        None => ResolutionView::Path(path),
    }
}

/// How a move finds its way: by what the paths resolve to, seen from the
/// resolved root; or by how they are written.
pub enum WayView {
    Resolved(Seq<char>),
    Written(Seq<char>),
}

/// Where the project `p` goes, or why that cannot be told.
pub open spec fn destination(
    f: PathFactsView,
    p: ProjectView,
    way: WayView,
    new_root: Seq<char>,
) -> Result<Seq<char>, Seq<char>> {
    match way {
        WayView::Resolved(root) => match resolution(f, p.path) {
            ResolutionView::Path(q) => match suffix_of(
                parts(f.windows, q),
                parts(f.windows, root),
            ) {
                Some(s) => Ok(onto(f.windows, new_root, s)),
                None => Err(
                    "Failed to translate descendant project '"@ + p.name
                        + "' into moved directory"@,
                ),
            },
            ResolutionView::Failed(e) => Err(
                "Failed to resolve descendant project '"@ + p.name + "': "@ + e,
            ),
        },
        WayView::Written(root) => match suffix_of(
            lexical(f.windows, f.cwd, p.path),
            lexical(f.windows, f.cwd, root),
        ) {
            Some(s) => Ok(onto(f.windows, new_root, s)),
            None => Err(
                "Failed to translate nested project '"@ + p.name + "' into the new directory"@,
            ),
        },
    }
}

/// The hook terminals of `hooks` that run in `path`.
pub open spec fn hooks_at(
    f: PathFactsView,
    hooks: Seq<(Seq<char>, HookTerminalView)>,
    path: Seq<char>,
) -> Seq<Seq<char>>
    decreases hooks.len(),
{
    if hooks.len() == 0 {
        Seq::empty()
    } else {
        let front = hooks_at(f, hooks.drop_last(), path);
        if coinciding(f, hooks.last().1.cwd, path) {
            front.push(hooks.last().0)
        } else {
            front
        }
    }
}

/// How a project's path changes.
#[derive(Debug)]
pub struct ProjectPathTranslation {
    project_id: String,
    old_path: String,
    new_path: String,
    translated_hook_terminal_ids: Vec<String>,
}

/// What a [`ProjectPathTranslation`] stands for.
pub struct TranslationView {
    pub project_id: Seq<char>,
    pub old_path: Seq<char>,
    pub new_path: Seq<char>,
    /// The hook terminals that move along.
    pub hook_ids: Seq<Seq<char>>,
}

impl View for ProjectPathTranslation {
    type V = TranslationView;

    closed spec fn view(&self) -> TranslationView {
        TranslationView {
            project_id: self.project_id@,
            old_path: self.old_path@,
            new_path: self.new_path@,
            hook_ids: texts(self.translated_hook_terminal_ids@),
        }
    }
}

/// What each translation of `s` stands for.
pub open spec fn translation_views(s: Seq<ProjectPathTranslation>) -> Seq<TranslationView> {
    s.map_values(|t: ProjectPathTranslation| t@)
}

impl ProjectPathTranslation {
    /// The project.
    pub fn project_id(&self) -> (r: &str)
        ensures
            r@ == self@.project_id,
    {
        self.project_id.as_str()
    }

    /// The path that it had.
    pub fn old_path(&self) -> (r: &str)
        ensures
            r@ == self@.old_path,
    {
        self.old_path.as_str()
    }

    /// The path that it gets.
    pub fn new_path(&self) -> (r: &str)
        ensures
            r@ == self@.new_path,
    {
        self.new_path.as_str()
    }
}

/// How the paths of those of the first `n` projects change that lie in
/// `old_root`.
pub open spec fn translated(
    ps: Seq<ProjectView>,
    f: PathFactsView,
    old_root: Seq<char>,
    way: WayView,
    new_root: Seq<char>,
    n: nat,
) -> Result<Seq<TranslationView>, Seq<char>>
    decreases n,
{
    if n == 0 || n > ps.len() {
        Ok(Seq::empty())
    } else {
        match translated(ps, f, old_root, way, new_root, (n - 1) as nat) {
            Err(e) => Err(e),
            Ok(front) => {
                let p = ps[n - 1];
                if !inside(f, p.path, old_root) {
                    Ok(front)
                } else {
                    match destination(f, p, way, new_root) {
                        Ok(path) => Ok(
                            front.push(
                                TranslationView {
                                    project_id: p.id,
                                    old_path: p.path,
                                    new_path: path,
                                    hook_ids: hooks_at(f, p.hook_terminals, p.path),
                                },
                            ),
                        ),
                        Err(e) => Err(e),
                    }
                }
            },
        }
    }
}

/// How paths change when the directory `old_root` moves to `new_root`.
pub open spec fn move_translations(
    ps: Seq<ProjectView>,
    f: PathFactsView,
    old_root: Seq<char>,
    new_root: Seq<char>,
) -> Result<Seq<TranslationView>, Seq<char>> {
    match resolution(f, old_root) {
        ResolutionView::Path(root) => translated(
            ps,
            f,
            old_root,
            WayView::Resolved(root),
            new_root,
            ps.len(),
        ),
        ResolutionView::Failed(e) => Err("Failed to resolve project directory: "@ + e),
    }
}

/// How paths change when what was at `old_root` is found at `new_root`.
pub open spec fn repoint_translations(
    ps: Seq<ProjectView>,
    f: PathFactsView,
    old_root: Seq<char>,
    new_root: Seq<char>,
) -> Result<Seq<TranslationView>, Seq<char>> {
    translated(ps, f, old_root, WayView::Written(old_root), new_root, ps.len())
}

/// `hooks`, of which those in `ids` run in `path`.
pub open spec fn rehooked(
    hooks: Seq<(Seq<char>, HookTerminalView)>,
    ids: Seq<Seq<char>>,
    path: Seq<char>,
) -> Seq<(Seq<char>, HookTerminalView)> {
    Seq::new(
        hooks.len(),
        |i: int|
            if ids.contains(hooks[i].0) {
                (hooks[i].0, HookTerminalView { cwd: path, ..hooks[i].1 })
            } else {
                hooks[i]
            },
    )
}

/// `ps` with the path of one project changed.
pub open spec fn path_applied(ps: Seq<ProjectView>, t: TranslationView) -> Seq<ProjectView> {
    match project_in(ps, t.project_id) {
        Some(p) => with_project(
            ps,
            t.project_id,
            ProjectView {
                path: t.new_path,
                hook_terminals: rehooked(p.hook_terminals, t.hook_ids, t.new_path),
                ..p
            },
        ),
        None => ps,
    }
}

/// `ps` with the paths of the first `n` translations changed.
pub open spec fn paths_applied(
    ps: Seq<ProjectView>,
    ts: Seq<TranslationView>,
    n: nat,
) -> Seq<ProjectView>
    decreases n,
{
    if n == 0 || n > ts.len() {
        ps
    } else {
        path_applied(paths_applied(ps, ts, (n - 1) as nat), ts[n - 1])
    }
}

/// The first of the first `n` projects other than `id` that is at `path`.
pub open spec fn user_of(
    ps: Seq<ProjectView>,
    f: PathFactsView,
    id: Seq<char>,
    path: Seq<char>,
    n: nat,
) -> Option<int>
    decreases n,
{
    if n == 0 || n > ps.len() {
        None
    } else {
        match user_of(ps, f, id, path, (n - 1) as nat) {
            Some(i) => Some(i),
            None => if ps[n - 1].id != id && coinciding(f, ps[n - 1].path, path) {
                Some(n - 1)
            } else {
                None
            },
        }
    }
}

/// Why the project `id` may not be pointed at `path`, as far as the directory
/// is concerned.
pub open spec fn directory_refusal(
    w: WorkspaceView,
    f: PathFactsView,
    id: Seq<char>,
    path: Seq<char>,
) -> Option<Seq<char>> {
    if !rooted(f.windows, path) {
        Some("path must be absolute"@)
    } else if !f.existing.contains(path) {
        Some("'"@ + path + "' does not exist"@)
    } else if !f.directories.contains(path) {
        Some("'"@ + path + "' is not a directory"@)
    } else {
        mutation_refusal(w, f, id, path)
    }
}

/// Why the project `p` may not be pointed at `path`, as far as other projects
/// are concerned.
pub open spec fn repoint_refusal(
    ps: Seq<ProjectView>,
    f: PathFactsView,
    p: ProjectView,
    id: Seq<char>,
    path: Seq<char>,
) -> Option<Seq<char>> {
    if p.connection_id is Some {
        Some("project is owned by another daemon"@)
    } else if coinciding(f, p.path, path) {
        Some("project already points at this directory"@)
    } else {
        match user_of(ps, f, id, path, ps.len()) {
            Some(i) => Some("'"@ + ps[i].name + "' already uses this directory"@),
            None => None,
        }
    }
}

/// `ps` in which the checkout root of `id` is its path.
pub open spec fn root_follows(ps: Seq<ProjectView>, id: Seq<char>) -> Seq<ProjectView> {
    match project_in(ps, id) {
        Some(p) => match p.worktree_info {
            Some(wt) => with_project(
                ps,
                id,
                ProjectView {
                    worktree_info: Some(WorktreeView { worktree_path: p.path, ..wt }),
                    ..p
                },
            ),
            None => ps,
        },
        None => ps,
    }
}

/// What pointing the project `id` at `path` makes of the projects, or why it is
/// refused.
pub open spec fn repointed(
    w: WorkspaceView,
    f: PathFactsView,
    id: Seq<char>,
    path: Seq<char>,
) -> Result<Seq<ProjectView>, Seq<char>> {
    let ps = w.data.projects;
    match directory_refusal(w, f, id, path) {
        Some(e) => Err(e),
        None => match ws_project(w, id) {
            None => Err("Project not found"@),
            Some(p) => match repoint_refusal(ps, f, p, id, path) {
                Some(e) => Err(e),
                None => match repoint_translations(ps, f, p.path, path) {
                    Err(e) => Err(e),
                    Ok(ts) => Ok(root_follows(paths_applied(ps, ts, ts.len()), id)),
                },
            },
        },
    }
}

/// Whether `root` is the checkout that may move.
pub open spec fn may_move(f: PathFactsView, allowed: Option<Seq<char>>, root: Seq<char>) -> bool {
    allowed is Some && coinciding(f, allowed->0, root)
}

/// Whether one of `roots` is `root`.
pub open spec fn known_root(f: PathFactsView, roots: Seq<Seq<char>>, root: Seq<char>) -> bool {
    exists|i: int| 0 <= i < roots.len() && coinciding(f, #[trigger] roots[i], root)
}

/// The repository of the project `p`, where both lie in `old_root`.
pub open spec fn repo_inside(f: PathFactsView, p: ProjectView, old_root: Seq<char>) -> Option<
    Seq<char>,
> {
    if inside(f, p.path, old_root) {
        match lookup(f.repo_roots, p.path) {
            Some(r) => if inside(f, r, old_root) {
                Some(r)
            } else {
                None
            },
            None => None,
        }
    } else {
        None
    }
}

/// Why the project `p` keeps `old_root` from moving.
pub open spec fn pinned_by(
    f: PathFactsView,
    p: ProjectView,
    old_root: Seq<char>,
    allowed: Option<Seq<char>>,
) -> Option<Seq<char>> {
    let repo = repo_inside(f, p, old_root);
    if repo is Some && p.worktree_info is Some && !may_move(f, allowed, repo->0) {
        Some("Cannot rename a directory containing linked worktree project '"@ + p.name + "'"@)
    } else if p.worktree_info is Some && p.worktree_info->0.worktree_path.len() > 0 && inside(
        f,
        p.worktree_info->0.worktree_path,
        old_root,
    ) && !may_move(f, allowed, p.worktree_info->0.worktree_path) {
        Some(
            "Cannot rename a directory containing recorded worktree root for '"@ + p.name + "'"@,
        )
    } else {
        None
    }
}

/// The repositories of the first `n` projects in `old_root`, each once; or why
/// one of the projects keeps it from moving.
pub open spec fn repos_inside(
    ps: Seq<ProjectView>,
    f: PathFactsView,
    old_root: Seq<char>,
    allowed: Option<Seq<char>>,
    n: nat,
) -> Result<Seq<Seq<char>>, Seq<char>>
    decreases n,
{
    if n == 0 || n > ps.len() {
        Ok(Seq::empty())
    } else {
        match repos_inside(ps, f, old_root, allowed, (n - 1) as nat) {
            Err(e) => Err(e),
            Ok(front) => match pinned_by(f, ps[n - 1], old_root, allowed) {
                Some(e) => Err(e),
                None => match repo_inside(f, ps[n - 1], old_root) {
                    Some(r) => if known_root(f, front, r) {
                        Ok(front)
                    } else {
                        Ok(front.push(r))
                    },
                    None => Ok(front),
                },
            },
        }
    }
}

/// Why the directory `old_root` may not be moved: git keeps the places of
/// linked checkouts, and they would be wrong.
pub open spec fn topology_refusal(
    ps: Seq<ProjectView>,
    f: PathFactsView,
    old_root: Seq<char>,
    allowed: Option<Seq<char>>,
) -> Option<Seq<char>> {
    match repos_inside(ps, f, old_root, allowed, ps.len()) {
        Err(e) => Some(e),
        Ok(roots) => if exists|i: int|
            0 <= i < roots.len() && !may_move(f, allowed, #[trigger] roots[i]) && f.linked.contains(
                roots[i],
            ) {
            Some(
                "Cannot rename a Git repository while it has linked worktrees; remove them first"@,
            )
        } else {
            None
        },
    }
}

/// What a directory rename moves.
#[derive(Debug)]
pub enum ProjectDirectoryMove {
    /// A directory, by renaming it.
    Directory { old_path: String, new_path: String },
    /// A linked checkout, by letting git move it.
    Worktree { root: String, new_path: String },
}

/// What a [`ProjectDirectoryMove`] stands for.
pub enum MoveView {
    Directory { old_path: Seq<char>, new_path: Seq<char> },
    Worktree { root: Seq<char>, new_path: Seq<char> },
}

impl View for ProjectDirectoryMove {
    type V = MoveView;

    open spec fn view(&self) -> MoveView {
        match self {
            ProjectDirectoryMove::Directory { old_path, new_path } => MoveView::Directory {
                old_path: old_path@,
                new_path: new_path@,
            },
            ProjectDirectoryMove::Worktree { root, new_path } => MoveView::Worktree {
                root: root@,
                new_path: new_path@,
            },
        }
    }
}

/// A directory rename that has been checked and not yet made.
#[derive(Debug)]
pub struct ProjectDirectoryRenamePlan {
    project_id: String,
    old_path: String,
    new_name: String,
    translated_paths: Vec<ProjectPathTranslation>,
    move_kind: ProjectDirectoryMove,
    windows: bool,
}

/// What a [`ProjectDirectoryRenamePlan`] stands for.
pub struct PlanView {
    pub project_id: Seq<char>,
    pub old_path: Seq<char>,
    pub new_name: Seq<char>,
    pub translations: Seq<TranslationView>,
    pub moved: MoveView,
    /// Whether the paths are written as on Windows.
    pub windows: bool,
}

impl View for ProjectDirectoryRenamePlan {
    type V = PlanView;

    closed spec fn view(&self) -> PlanView {
        PlanView {
            project_id: self.project_id@,
            old_path: self.old_path@,
            new_name: self.new_name@,
            translations: translation_views(self.translated_paths@),
            moved: self.move_kind@,
            windows: self.windows,
        }
    }
}

impl ProjectDirectoryRenamePlan {
    /// The project whose directory is renamed.
    pub fn project_id(&self) -> (r: &str)
        ensures
            r@ == self@.project_id,
    {
        self.project_id.as_str()
    }

    /// The path that it has.
    pub fn old_path(&self) -> (r: &str)
        ensures
            r@ == self@.old_path,
    {
        self.old_path.as_str()
    }

    /// The path that its directory gets.
    pub fn new_path(&self) -> (r: &str)
        ensures
            r@ == match self@.moved {
                MoveView::Directory { new_path, .. } => new_path,
                MoveView::Worktree { new_path, .. } => new_path,
            },
    {
        match &self.move_kind {
            ProjectDirectoryMove::Directory { new_path, .. } => new_path.as_str(),
            ProjectDirectoryMove::Worktree { new_path, .. } => new_path.as_str(),
        }
    }

    /// What the rename moves.
    pub fn move_kind(&self) -> (r: &ProjectDirectoryMove)
        ensures
            r@ == self@.moved,
    {
        &self.move_kind
    }

    /// How the paths of projects change.
    pub fn affected_translations(&self) -> (r: &Vec<ProjectPathTranslation>)
        ensures
            translation_views(r@) == self@.translations,
    {
        &self.translated_paths
    }

    /// The projects whose paths change.
    pub fn affected_project_ids(&self) -> (r: Vec<String>)
        ensures
            texts(r@) == self@.translations.map_values(|t: TranslationView| t.project_id),
    {
        let mut out: Vec<String> = Vec::new();
        let mut i: usize = 0;
        while i < self.translated_paths.len()
            invariant
                i <= self.translated_paths@.len(),
                out@.len() == i,
                forall|j: int|
                    0 <= j < i ==> (#[trigger] out@[j])@ == self.translated_paths@[j].project_id@,
            decreases self.translated_paths@.len() - i,
        {
            out.push(self.translated_paths[i].project_id.clone());
            i = i + 1;
        }
        proof {
            assert(texts(out@) =~= self@.translations.map_values(|t: TranslationView| t.project_id));
        }
        out
    }
}

/// What came of a directory rename that was made.
#[derive(Debug)]
pub struct ProjectDirectoryRenameResult {
    moved_worktree_root: Option<String>,
}

impl View for ProjectDirectoryRenameResult {
    type V = Option<Seq<char>>;

    /// Where git put the checkout that it moved.
    closed spec fn view(&self) -> Option<Seq<char>> {
        opt_text(self.moved_worktree_root)
    }
}

/// What came of the move `m`, where a renamed directory says nothing and a
/// moved checkout says where it is now.
pub open spec fn move_result(m: MoveView, moved: Result<Seq<char>, Seq<char>>) -> Result<
    Option<Seq<char>>,
    Seq<char>,
> {
    match (m, moved) {
        (MoveView::Directory { .. }, Ok(_)) => Ok(None),
        (MoveView::Directory { .. }, Err(e)) => Err("Failed to rename: "@ + e),
        (MoveView::Worktree { .. }, Ok(root)) => Ok(Some(root)),
        (MoveView::Worktree { .. }, Err(e)) => Err(e),
    }
}

impl ProjectDirectoryRenamePlan {
    /// Take what came of the move: the path of what was moved, or the error.
    pub fn executed(&self, moved: Result<String, String>) -> (r: Result<
        ProjectDirectoryRenameResult,
        String,
    >)
        ensures
            match r {
                Ok(d) => move_result(self@.moved, outcome_of(moved)) == Ok::<
                    Option<Seq<char>>,
                    Seq<char>,
                >(d@),
                Err(e) => move_result(self@.moved, outcome_of(moved)) == Err::<
                    Option<Seq<char>>,
                    Seq<char>,
                >(e@),
            },
    {
        match (&self.move_kind, moved) {
            (ProjectDirectoryMove::Directory { .. }, Ok(_)) => Ok(
                ProjectDirectoryRenameResult { moved_worktree_root: None },
            ),
            (ProjectDirectoryMove::Directory { .. }, Err(e)) => Err(
                join("Failed to rename: ", e.as_str()),
            ),
            (ProjectDirectoryMove::Worktree { .. }, Ok(root)) => Ok(
                ProjectDirectoryRenameResult { moved_worktree_root: Some(root) },
            ),
            (ProjectDirectoryMove::Worktree { .. }, Err(e)) => Err(e),
        }
    }
}

/// What a plan comes to, or why there is none.
pub open spec fn planned(
    windows: bool,
    id: Seq<char>,
    old_path: Seq<char>,
    new_name: Seq<char>,
    ts: Result<Seq<TranslationView>, Seq<char>>,
    moved: MoveView,
) -> Result<PlanView, Seq<char>> {
    match ts {
        Ok(translations) => Ok(
            PlanView { project_id: id, old_path, new_name, translations, moved, windows },
        ),
        Err(e) => Err(e),
    }
}

/// The plan to rename the directory `old_path` itself.
pub open spec fn directory_plan(
    ps: Seq<ProjectView>,
    f: PathFactsView,
    id: Seq<char>,
    old_path: Seq<char>,
    new_path: Seq<char>,
    new_name: Seq<char>,
) -> Result<PlanView, Seq<char>> {
    match topology_refusal(ps, f, old_path, None) {
        Some(e) => Err(e),
        None => planned(
            f.windows,
            id,
            old_path,
            new_name,
            move_translations(ps, f, old_path, new_path),
            MoveView::Directory { old_path, new_path },
        ),
    }
}

/// The plan for a worktree project whose checkout is at `root`: where it is the
/// checkout, git moves it; where it lies in the checkout, its directory stays
/// in there.
pub open spec fn checkout_plan(
    ps: Seq<ProjectView>,
    f: PathFactsView,
    id: Seq<char>,
    old_path: Seq<char>,
    root: Seq<char>,
    new_path: Seq<char>,
    new_name: Seq<char>,
) -> Result<PlanView, Seq<char>> {
    if !inside(f, old_path, root) {
        Err("project path is outside its linked worktree root"@)
    } else if !coinciding(f, old_path, root) {
        if !inside(f, new_path, root) {
            Err("renamed project path must stay inside its linked worktree"@)
        } else {
            directory_plan(ps, f, id, old_path, new_path, new_name)
        }
    } else {
        match topology_refusal(ps, f, root, Some(root)) {
            Some(e) => Err(e),
            None => planned(
                f.windows,
                id,
                old_path,
                new_name,
                move_translations(ps, f, root, new_path),
                MoveView::Worktree { root, new_path },
            ),
        }
    }
}

/// Why a directory may not be called `name`.
pub open spec fn name_refusal(name: Seq<char>) -> Option<Seq<char>> {
    if name.len() == 0 {
        Some("name must not be empty"@)
    } else if holds_char(name, '/') || holds_char(name, '\\') || name == "."@ || name == ".."@ {
        Some("name must not contain path separators"@)
    } else {
        None
    }
}

/// The plan to rename the directory of the project `id`, or why it is refused.
/// `checkout` is what git says of the checkout of a worktree project.
pub open spec fn rename_plan(
    w: WorkspaceView,
    f: PathFactsView,
    checkout: ResolutionView,
    id: Seq<char>,
    new_path: Seq<char>,
    new_name: Seq<char>,
) -> Result<PlanView, Seq<char>> {
    let ps = w.data.projects;
    match name_refusal(new_name) {
        Some(e) => Err(e),
        None => match mutation_refusal(w, f, id, new_path) {
            Some(e) => Err(e),
            None => if f.existing.contains(new_path) {
                Err("'"@ + new_name + "' already exists"@)
            } else {
                match ws_project(w, id) {
                    None => Err("Project not found"@),
                    Some(p) => match p.worktree_info {
                        None => directory_plan(ps, f, id, p.path, new_path, new_name),
                        Some(wt) => if project_in(ps, wt.parent_project_id) is None {
                            Err("Worktree parent project not found"@)
                        } else {
                            match checkout {
                                ResolutionView::Failed(e) => Err(e),
                                ResolutionView::Path(root) => checkout_plan(
                                    ps,
                                    f,
                                    id,
                                    p.path,
                                    root,
                                    new_path,
                                    new_name,
                                ),
                            }
                        },
                    },
                }
            },
        },
    }
}

/// What git is to be asked of the project `id` before its directory is renamed
/// or its checkout removed: the path of its repository, and that of its
/// checkout.
pub open spec fn checkout_question(ps: Seq<ProjectView>, id: Seq<char>) -> Option<
    (Seq<char>, Seq<char>),
> {
    match project_in(ps, id) {
        Some(p) => match p.worktree_info {
            Some(wt) => match project_in(ps, wt.parent_project_id) {
                Some(parent) => Some(
                    (
                        parent.path,
                        if wt.worktree_path.len() > 0 {
                            wt.worktree_path
                        } else {
                            p.path
                        },
                    ),
                ),
                None => None,
            },
            None => None,
        },
        None => None,
    }
}

/// The project `p` under its new name and, where git moved its checkout, at its
/// new root.
pub open spec fn renamed_row(p: ProjectView, name: Seq<char>, root: Option<Seq<char>>) -> ProjectView {
    match root {
        Some(r) => ProjectView {
            name,
            path: r,
            worktree_info: match p.worktree_info {
                Some(wt) => Some(WorktreeView { worktree_path: r, ..wt }),
                None => None,
            },
            ..p
        },
        None => ProjectView { name, ..p },
    }
}

/// What a rename that was made makes of the projects, or why it is not taken
/// over.
pub open spec fn rename_taken_over(
    ps: Seq<ProjectView>,
    plan: PlanView,
    root: Option<Seq<char>>,
) -> Result<Seq<ProjectView>, Seq<char>> {
    match project_in(ps, plan.project_id) {
        Some(p) => if same_place(plan.windows, p.path, plan.old_path) {
            let moved = paths_applied(ps, plan.translations, plan.translations.len());
            match project_in(moved, plan.project_id) {
                Some(q) => Ok(
                    with_project(moved, plan.project_id, renamed_row(q, plan.new_name, root)),
                ),
                None => Ok(moved),
            }
        } else {
            Err("project changed while its directory was being renamed: "@ + plan.project_id)
        },
        None => Err("project changed while its directory was being renamed: "@ + plan.project_id),
    }
}

/// The parts of `ps` with every step up taken, though none beyond the first
/// `start`.
fn resolve_parts(ps: Vec<String>, start: usize) -> (r: Vec<String>)
    ensures
        texts(r@) == resolved(texts(ps@), start as nat, ps@.len()),
{
    let ghost all = texts(ps@);
    let mut out: Vec<String> = Vec::new();
    let mut i: usize = 0;
    proof {
        assert(texts(out@) =~= Seq::<Seq<char>>::empty());
    }
    while i < ps.len()
        invariant
            i <= ps@.len(),
            all == texts(ps@),
            texts(out@) == resolved(all, start as nat, i as nat),
        decreases ps@.len() - i,
    {
        proof {
            assert(all[i as int] == ps@[i as int]@);
            assert(texts(out@).len() == out@.len());
        }
        let ghost held = out@;
        if same(ps[i].as_str(), ".") {
        } else if same(ps[i].as_str(), "..") {
            if out.len() > start {
                out.pop();
                proof {
                    assert(texts(out@) =~= texts(held).drop_last());
                }
            }
        } else {
            out.push(ps[i].clone());
            proof {
                assert(texts(out@) =~= texts(held).push(all[i as int]));
            }
        }
        i = i + 1;
    }
    out
}

/// The parts of `path` seen from the root, without steps up.
fn lexical_absolute(windows: bool, cwd: &Option<String>, path: &str) -> (r: Vec<String>)
    ensures
        texts(r@) == lexical(windows, opt_text(*cwd), path@),
{
    let full: String = if is_rooted(windows, path) {
        path.to_owned()
    } else {
        match cwd {
            Some(c) => path_below(windows, c.as_str(), path),
            None => path.to_owned(),
        }
    };
    let ps = parts_of(windows, full.as_str());
    let start = start_of(windows, full.as_str());
    proof {
        assert(texts(ps@).len() == ps@.len());
        assert(texts(start@).len() == start@.len());
    }
    resolve_parts(ps, start.len())
}

/// What `all` has behind `head`, where it starts with it.
fn find_suffix(all: &Vec<String>, head: &Vec<String>) -> (r: Option<Vec<String>>)
    ensures
        match r {
            Some(s) => suffix_of(texts(all@), texts(head@)) == Some(texts(s@)),
            None => suffix_of(texts(all@), texts(head@)) is None,
        },
{
    proof {
        assert(texts(all@).len() == all@.len());
        assert(texts(head@).len() == head@.len());
    }
    if head.len() > all.len() {
        return None;
    }
    let mut i: usize = 0;
    while i < head.len()
        invariant
            i <= head@.len() <= all@.len(),
            forall|j: int| 0 <= j < i ==> all@[j]@ == head@[j]@,
        decreases head@.len() - i,
    {
        if !same(all[i].as_str(), head[i].as_str()) {
            proof {
                let n = head@.len() as int;
                assert(texts(all@).take(n)[i as int] != texts(head@)[i as int]);
            }
            return None;
        }
        i = i + 1;
    }
    proof {
        assert(texts(all@).take(head@.len() as int) =~= texts(head@));
    }
    let mut out: Vec<String> = Vec::new();
    let ghost want = texts(all@).skip(head@.len() as int);
    let mut k: usize = head.len();
    while k < all.len()
        invariant
            head@.len() <= k <= all@.len(),
            out@.len() == k - head@.len(),
            forall|j: int| 0 <= j < out@.len() ==> (#[trigger] out@[j])@ == all@[head@.len() + j]@,
        decreases all@.len() - k,
    {
        out.push(all[k].clone());
        k = k + 1;
    }
    proof {
        assert(texts(out@) =~= want);
    }
    Some(out)
}

/// `ps` with separators between them.
fn slash(windows: bool, ps: &Vec<String>) -> (r: String)
    ensures
        r@ == slashed(windows, texts(ps@)),
{
    let ghost all = texts(ps@);
    if ps.len() == 0 {
        let r = String::new();
        proof {
            assert(r@ =~= Seq::<char>::empty());
        }
        return r;
    }
    let mut out = ps[0].clone();
    let mut i: usize = 1;
    proof {
        assert(all.take(1).len() == 1);
        assert(all.take(1)[0] == ps@[0]@);
    }
    while i < ps.len()
        invariant
            1 <= i <= ps@.len(),
            all == texts(ps@),
            out@ == slashed(windows, all.take(i as int)),
        decreases ps@.len() - i,
    {
        proof {
            crate::collections::texts_take(ps@, i as int);
        }
        out = join3(out.as_str(), separator_of(windows), ps[i].as_str());
        i = i + 1;
    }
    proof {
        assert(all.take(i as int) =~= all);
    }
    out
}

/// The place below `root` that `suffix` leads to.
fn place_onto(windows: bool, root: &str, suffix: &Vec<String>) -> (r: String)
    ensures
        r@ == onto(windows, root@, texts(suffix@)),
{
    if suffix.len() == 0 {
        root.to_owned()
    } else {
        let tail = slash(windows, suffix);
        path_below(windows, root, tail.as_str())
    }
}

/// How a move finds its way.
enum Way<'a> {
    Resolved(&'a str),
    Written(&'a str),
}

impl<'a> View for Way<'a> {
    type V = WayView;

    closed spec fn view(&self) -> WayView {
        match self {
            Way::Resolved(root) => WayView::Resolved(root@),
            Way::Written(root) => WayView::Written(root@),
        }
    }
}

/// Where the project `p` goes.
fn find_destination(f: &PathFacts, p: &ProjectData, way: &Way, new_root: &str) -> (r: Result<
    String,
    String,
>)
    ensures
        crate::text::outcome_of(r) == destination(f@, p@, way@, new_root@),
{
    match way {
        Way::Resolved(root) => {
            let q: &str = match f.resolutions.get(p.path.as_str()) {
                Some(Resolution::Path(q)) => q.as_str(),
                Some(Resolution::Failed(e)) => {
                    let head = join3(
                        "Failed to resolve descendant project '",
                        p.name.as_str(),
                        "': ",
                    );
                    return Err(join(head.as_str(), e.as_str()));
                },
                None => p.path.as_str(),
            };
            let all = parts_of(f.windows, q);
            let head = parts_of(f.windows, root);
            match find_suffix(&all, &head) {
                Some(s) => Ok(place_onto(f.windows, new_root, &s)),
                None => Err(
                    join3(
                        "Failed to translate descendant project '",
                        p.name.as_str(),
                        "' into moved directory",
                    ),
                ),
            }
        },
        Way::Written(root) => {
            let all = lexical_absolute(f.windows, &f.cwd, p.path.as_str());
            let head = lexical_absolute(f.windows, &f.cwd, root);
            match find_suffix(&all, &head) {
                Some(s) => Ok(place_onto(f.windows, new_root, &s)),
                None => Err(
                    join3(
                        "Failed to translate nested project '",
                        p.name.as_str(),
                        "' into the new directory",
                    ),
                ),
            }
        },
    }
}

/// The hook terminals of `hooks` that run in `path`.
fn find_hooks_at(f: &PathFacts, hooks: &IdMap<HookTerminalEntry>, path: &str) -> (r: Vec<String>)
    ensures
        texts(r@) == hooks_at(f@, hooks@, path@),
{
    let ghost all = hooks@;
    let mut out: Vec<String> = Vec::new();
    let mut i: usize = 0;
    proof {
        assert(all.take(0) =~= Seq::<(Seq<char>, HookTerminalView)>::empty());
        assert(texts(out@) =~= Seq::<Seq<char>>::empty());
    }
    while i < hooks.len()
        invariant
            i <= hooks@.len(),
            all == hooks@,
            texts(out@) == hooks_at(f@, all.take(i as int), path@),
        decreases hooks@.len() - i,
    {
        proof {
            assert(all.take(i + 1).drop_last() =~= all.take(i as int));
            assert(all.take(i + 1).last() == all[i as int]);
        }
        if f.coincide(hooks.value_at(i).cwd.as_str(), path) {
            let ghost held = out@;
            out.push(hooks.key_at(i).clone());
            proof {
                assert(texts(out@) =~= texts(held).push(all[i as int].0));
            }
        }
        i = i + 1;
    }
    proof {
        assert(all.take(i as int) =~= all);
    }
    out
}

/// What each translation of a list stands for.
spec fn list_told(r: Result<Vec<ProjectPathTranslation>, String>) -> Result<
    Seq<TranslationView>,
    Seq<char>,
> {
    match r {
        Ok(v) => Ok(translation_views(v@)),
        Err(e) => Err(e@),
    }
}

/// How the paths of the projects in `old_root` change.
fn translate(
    projects: &Vec<ProjectData>,
    f: &PathFacts,
    old_root: &str,
    way: &Way,
    new_root: &str,
) -> (r: Result<Vec<ProjectPathTranslation>, String>)
    ensures
        list_told(r) == translated(
            project_views(projects@),
            f@,
            old_root@,
            way@,
            new_root@,
            projects@.len(),
        ),
{
    let ghost ps = project_views(projects@);
    let mut out: Vec<ProjectPathTranslation> = Vec::new();
    let mut i: usize = 0;
    proof {
        assert(translation_views(out@) =~= Seq::<TranslationView>::empty());
    }
    while i < projects.len()
        invariant
            i <= projects@.len(),
            ps == project_views(projects@),
            translated(ps, f@, old_root@, way@, new_root@, i as nat) == Ok::<
                Seq<TranslationView>,
                Seq<char>,
            >(translation_views(out@)),
        decreases projects@.len() - i,
    {
        let p = &projects[i];
        proof {
            assert(ps[i as int] == p@);
        }
        if f.lies_within(p.path.as_str(), old_root) {
            match find_destination(f, p, way, new_root) {
                Ok(new_path) => {
                    let ghost held = out@;
                    let t = ProjectPathTranslation {
                        project_id: p.id.clone(),
                        old_path: p.path.clone(),
                        new_path,
                        translated_hook_terminal_ids: find_hooks_at(
                            f,
                            &p.hook_terminals,
                            p.path.as_str(),
                        ),
                    };
                    out.push(t);
                    proof {
                        assert(translation_views(out@) =~= translation_views(held).push(t@));
                    }
                },
                Err(e) => {
                    proof {
                        failure_stays(
                            ps,
                            f@,
                            old_root@,
                            way@,
                            new_root@,
                            (i + 1) as nat,
                            ps.len(),
                        );
                    }
                    return Err(e);
                },
            }
        }
        i = i + 1;
    }
    proof {
        assert(ps.len() == projects@.len());
    }
    Ok(out)
}

/// Once the way of one project cannot be told, nothing is translated.
proof fn failure_stays(
    ps: Seq<ProjectView>,
    f: PathFactsView,
    old_root: Seq<char>,
    way: WayView,
    new_root: Seq<char>,
    n: nat,
    m: nat,
)
    requires
        n <= m <= ps.len(),
        translated(ps, f, old_root, way, new_root, n) is Err,
    ensures
        translated(ps, f, old_root, way, new_root, m) == translated(
            ps,
            f,
            old_root,
            way,
            new_root,
            n,
        ),
    decreases m,
{
    if n < m {
        failure_stays(ps, f, old_root, way, new_root, n, (m - 1) as nat);
    }
}

/// Let those of the hook terminals in `ids` run in `path`.
fn rehook(hooks: &mut IdMap<HookTerminalEntry>, ids: &Vec<String>, path: &str)
    ensures
        final(hooks)@ == rehooked(old(hooks)@, texts(ids@), path@),
{
    let ghost start = hooks@;
    let mut i: usize = 0;
    while i < hooks.len()
        invariant
            i <= hooks@.len(),
            hooks@.len() == start.len(),
            forall|j: int|
                0 <= j < i ==> #[trigger] hooks@[j] == (if texts(ids@).contains(start[j].0) {
                    (start[j].0, HookTerminalView { cwd: path@, ..start[j].1 })
                } else {
                    start[j]
                }),
            forall|j: int| i <= j < start.len() ==> hooks@[j] == start[j],
        decreases hooks@.len() - i,
    {
        if list_contains(ids, hooks.key_at(i).as_str()) {
            let old_entry = hooks.value_at(i);
            let entry = HookTerminalEntry {
                label: old_entry.label.clone(),
                status: old_entry.status,
                hook_type: old_entry.hook_type.clone(),
                command: old_entry.command.clone(),
                cwd: path.to_owned(),
                finished_at: old_entry.finished_at,
            };
            hooks.set_value_at(i, entry);
        }
        i = i + 1;
    }
    proof {
        assert(hooks@ =~= rehooked(start, texts(ids@), path@));
    }
}

/// Change the path of the project `p`.
fn apply_path(p: &mut ProjectData, t: &ProjectPathTranslation)
    ensures
        final(p)@ == (ProjectView {
            path: t@.new_path,
            hook_terminals: rehooked(old(p)@.hook_terminals, t@.hook_ids, t@.new_path),
            ..old(p)@
        }),
{
    p.path = t.new_path.clone();
    rehook(&mut p.hook_terminals, &t.translated_hook_terminal_ids, t.new_path.as_str());
}

/// Change the paths of projects.
fn apply_translated_project_paths(projects: &mut Vec<ProjectData>, ts: &Vec<ProjectPathTranslation>)
    ensures
        project_views(final(projects)@) == paths_applied(
            project_views(old(projects)@),
            translation_views(ts@),
            ts@.len(),
        ),
{
    let ghost start = project_views(projects@);
    let ghost all = translation_views(ts@);
    let mut i: usize = 0;
    while i < ts.len()
        invariant
            i <= ts@.len(),
            all == translation_views(ts@),
            project_views(projects@) == paths_applied(start, all, i as nat),
        decreases ts@.len() - i,
    {
        proof {
            assert(all[i as int] == ts@[i as int]@);
        }
        if let Some(k) = find_project(projects, ts[i].project_id.as_str()) {
            let ghost before = projects@;
            apply_path(&mut projects[k], &ts[i]);
            proof {
                let new = projects@[k as int];
                assert(projects@ =~= before.update(k as int, new));
                project_views_update(before, k as int, new);
            }
        }
        i = i + 1;
    }
}

/// The first other project that is at `path`.
fn find_user(projects: &Vec<ProjectData>, f: &PathFacts, id: &str, path: &str) -> (r: Option<usize>)
    ensures
        match r {
            Some(i) => i < projects@.len() && user_of(
                project_views(projects@),
                f@,
                id@,
                path@,
                projects@.len(),
            ) == Some(i as int),
            None => user_of(project_views(projects@), f@, id@, path@, projects@.len()) is None,
        },
{
    let ghost ps = project_views(projects@);
    let mut found: Option<usize> = None;
    let mut i: usize = 0;
    while i < projects.len()
        invariant
            i <= projects@.len(),
            ps == project_views(projects@),
            match found {
                Some(k) => k < i && user_of(ps, f@, id@, path@, i as nat) == Some(k as int),
                None => user_of(ps, f@, id@, path@, i as nat) is None,
            },
        decreases projects@.len() - i,
    {
        proof {
            assert(ps[i as int] == projects@[i as int]@);
        }
        if found.is_none() && !same(projects[i].id.as_str(), id) && f.coincide(
            projects[i].path.as_str(),
            path,
        ) {
            found = Some(i);
        }
        i = i + 1;
    }
    found
}

/// Let the checkout root of the worktree be its path.
fn follow_root(p: &mut ProjectData)
    ensures
        final(p)@ == (match old(p)@.worktree_info {
            Some(wt) => ProjectView {
                worktree_info: Some(WorktreeView { worktree_path: old(p)@.path, ..wt }),
                ..old(p)@
            },
            None => old(p)@,
        }),
{
    let path = p.path.clone();
    if let Some(wt) = &mut p.worktree_info {
        wt.worktree_path = path;
    }
}

/// Whether `root` is the checkout that may move.
fn is_allowed(f: &PathFacts, allowed: Option<&str>, root: &str) -> (r: bool)
    ensures
        r == may_move(
            f@,
            match allowed {
                Some(a) => Some(a@),
                None => None,
            },
            root@,
        ),
{
    match allowed {
        Some(a) => f.coincide(a, root),
        None => false,
    }
}

/// Whether one of `roots` is `root`.
fn is_known_root(f: &PathFacts, roots: &Vec<String>, root: &str) -> (r: bool)
    ensures
        r == known_root(f@, texts(roots@), root@),
{
    let ghost all = texts(roots@);
    let mut i: usize = 0;
    while i < roots.len()
        invariant
            i <= roots@.len(),
            all == texts(roots@),
            forall|j: int| 0 <= j < i ==> !coinciding(f@, #[trigger] all[j], root@),
        decreases roots@.len() - i,
    {
        if f.coincide(roots[i].as_str(), root) {
            proof {
                assert(coinciding(f@, all[i as int], root@));
            }
            return true;
        }
        i = i + 1;
    }
    false
}

/// The repository of the project `p`, where both lie in `old_root`.
fn find_repo_inside<'a>(f: &'a PathFacts, p: &ProjectData, old_root: &str) -> (r: Option<&'a str>)
    ensures
        match r {
            Some(x) => repo_inside(f@, p@, old_root@) == Some(x@),
            None => repo_inside(f@, p@, old_root@) is None,
        },
{
    if f.lies_within(p.path.as_str(), old_root) {
        if let Some(r) = f.repo_roots.get(p.path.as_str()) {
            if f.lies_within(r.as_str(), old_root) {
                return Some(r.as_str());
            }
        }
    }
    None
}

/// Why the project `p` keeps `old_root` from moving.
fn find_pin(f: &PathFacts, p: &ProjectData, old_root: &str, allowed: Option<&str>) -> (r: Option<
    String,
>)
    ensures
        opt_text(r) == pinned_by(
            f@,
            p@,
            old_root@,
            match allowed {
                Some(a) => Some(a@),
                None => None,
            },
        ),
{
    if let Some(wt) = &p.worktree_info {
        if let Some(repo) = find_repo_inside(f, p, old_root) {
            if !is_allowed(f, allowed, repo) {
                return Some(
                    join3(
                        "Cannot rename a directory containing linked worktree project '",
                        p.name.as_str(),
                        "'",
                    ),
                );
            }
        }
        let root = wt.worktree_path.as_str();
        if !root.is_empty() && f.lies_within(root, old_root) && !is_allowed(f, allowed, root) {
            return Some(
                join3(
                    "Cannot rename a directory containing recorded worktree root for '",
                    p.name.as_str(),
                    "'",
                ),
            );
        }
    }
    None
}

/// Once one project keeps the root from moving, no other changes that.
proof fn pin_stays(
    ps: Seq<ProjectView>,
    f: PathFactsView,
    old_root: Seq<char>,
    allowed: Option<Seq<char>>,
    n: nat,
    m: nat,
)
    requires
        n <= m <= ps.len(),
        repos_inside(ps, f, old_root, allowed, n) is Err,
    ensures
        repos_inside(ps, f, old_root, allowed, m) == repos_inside(ps, f, old_root, allowed, n),
    decreases m,
{
    if n < m {
        pin_stays(ps, f, old_root, allowed, n, (m - 1) as nat);
    }
}

/// Reject moves of a directory that would leave git with wrong places of linked
/// checkouts.
pub fn ensure_directory_tree_git_topology_safe(
    projects: &Vec<ProjectData>,
    f: &PathFacts,
    old_root: &str,
    allowed_worktree_root: Option<&str>,
) -> (r: Result<(), String>)
    ensures
        refusal_of(r) == topology_refusal(
            project_views(projects@),
            f@,
            old_root@,
            match allowed_worktree_root {
                Some(a) => Some(a@),
                None => None,
            },
        ),
{
    let ghost ps = project_views(projects@);
    let ghost allowed = match allowed_worktree_root {
        Some(a) => Some(a@),
        None => None,
    };
    let mut roots: Vec<String> = Vec::new();
    let mut i: usize = 0;
    proof {
        assert(texts(roots@) =~= Seq::<Seq<char>>::empty());
    }
    while i < projects.len()
        invariant
            i <= projects@.len(),
            ps == project_views(projects@),
            allowed == match allowed_worktree_root {
                Some(a) => Some(a@),
                None => None,
            },
            repos_inside(ps, f@, old_root@, allowed, i as nat) == Ok::<Seq<Seq<char>>, Seq<char>>(
                texts(roots@),
            ),
        decreases projects@.len() - i,
    {
        let p = &projects[i];
        proof {
            assert(ps[i as int] == p@);
        }
        if let Some(e) = find_pin(f, p, old_root, allowed_worktree_root) {
            proof {
                pin_stays(ps, f@, old_root@, allowed, (i + 1) as nat, ps.len());
            }
            return Err(e);
        }
        if let Some(repo) = find_repo_inside(f, p, old_root) {
            if !is_known_root(f, &roots, repo) {
                let ghost held = roots@;
                roots.push(repo.to_owned());
                proof {
                    assert(texts(roots@) =~= texts(held).push(repo@));
                }
            }
        }
        i = i + 1;
    }
    let ghost all = texts(roots@);
    proof {
        assert(ps.len() == projects@.len());
    }
    let mut k: usize = 0;
    while k < roots.len()
        invariant
            k <= roots@.len(),
            all == texts(roots@),
            ps == project_views(projects@),
            allowed == match allowed_worktree_root {
                Some(a) => Some(a@),
                None => None,
            },
            repos_inside(ps, f@, old_root@, allowed, ps.len()) == Ok::<Seq<Seq<char>>, Seq<char>>(
                all,
            ),
            forall|j: int|
                0 <= j < k ==> may_move(f@, allowed, #[trigger] all[j]) || !f@.linked.contains(
                    all[j],
                ),
        decreases roots@.len() - k,
    {
        if !is_allowed(f, allowed_worktree_root, roots[k].as_str()) && list_contains(
            &f.linked,
            roots[k].as_str(),
        ) {
            proof {
                assert(!may_move(f@, allowed, all[k as int]));
            }
            return Err(
                "Cannot rename a Git repository while it has linked worktrees; remove them first".to_owned(),
            );
        }
        k = k + 1;
    }
    Ok(())
}

/// What a plan, or the lack of one, stands for.
spec fn plan_told(r: Result<ProjectDirectoryRenamePlan, String>) -> Result<PlanView, Seq<char>> {
    match r {
        Ok(p) => Ok(p@),
        Err(e) => Err(e@),
    }
}

/// How paths change when the directory `old_root` moves to `new_root`.
fn translate_local_project_paths(
    projects: &Vec<ProjectData>,
    f: &PathFacts,
    old_root: &str,
    new_root: &str,
) -> (r: Result<Vec<ProjectPathTranslation>, String>)
    ensures
        list_told(r) == move_translations(project_views(projects@), f@, old_root@, new_root@),
{
    proof {
        assert(project_views(projects@).len() == projects@.len());
    }
    let root: &str = match f.resolutions.get(old_root) {
        Some(Resolution::Path(q)) => q.as_str(),
        Some(Resolution::Failed(e)) => {
            return Err(join("Failed to resolve project directory: ", e.as_str()));
        },
        None => old_root,
    };
    translate(projects, f, old_root, &Way::Resolved(root), new_root)
}

/// The plan to rename the directory `old_path` itself.
fn plan_directory(
    projects: &Vec<ProjectData>,
    f: &PathFacts,
    id: &str,
    old_path: &str,
    new_path: String,
    new_name: String,
) -> (r: Result<ProjectDirectoryRenamePlan, String>)
    ensures
        plan_told(r) == directory_plan(
            project_views(projects@),
            f@,
            id@,
            old_path@,
            new_path@,
            new_name@,
        ),
{
    if let Err(e) = ensure_directory_tree_git_topology_safe(projects, f, old_path, None) {
        return Err(e);
    }
    match translate_local_project_paths(projects, f, old_path, new_path.as_str()) {
        Ok(translated_paths) => Ok(
            ProjectDirectoryRenamePlan {
                project_id: id.to_owned(),
                old_path: old_path.to_owned(),
                new_name,
                translated_paths,
                move_kind: ProjectDirectoryMove::Directory {
                    old_path: old_path.to_owned(),
                    new_path,
                },
                windows: f.windows,
            },
        ),
        Err(e) => Err(e),
    }
}

/// The plan for a worktree project whose checkout is at `root`.
fn plan_checkout(
    projects: &Vec<ProjectData>,
    f: &PathFacts,
    id: &str,
    old_path: &str,
    root: &str,
    new_path: String,
    new_name: String,
) -> (r: Result<ProjectDirectoryRenamePlan, String>)
    ensures
        plan_told(r) == checkout_plan(
            project_views(projects@),
            f@,
            id@,
            old_path@,
            root@,
            new_path@,
            new_name@,
        ),
{
    if !f.lies_within(old_path, root) {
        return Err("project path is outside its linked worktree root".to_owned());
    }
    if !f.coincide(old_path, root) {
        if !f.lies_within(new_path.as_str(), root) {
            return Err("renamed project path must stay inside its linked worktree".to_owned());
        }
        return plan_directory(projects, f, id, old_path, new_path, new_name);
    }
    if let Err(e) = ensure_directory_tree_git_topology_safe(projects, f, root, Some(root)) {
        return Err(e);
    }
    match translate_local_project_paths(projects, f, root, new_path.as_str()) {
        Ok(translated_paths) => Ok(
            ProjectDirectoryRenamePlan {
                project_id: id.to_owned(),
                old_path: old_path.to_owned(),
                new_name,
                translated_paths,
                move_kind: ProjectDirectoryMove::Worktree { root: root.to_owned(), new_path },
                windows: f.windows,
            },
        ),
        Err(e) => Err(e),
    }
}

/// The project under its new name and at its new root.
fn rename_row(p: &mut ProjectData, name: &str, root: &Option<String>)
    ensures
        final(p)@ == renamed_row(old(p)@, name@, opt_text(*root)),
{
    p.name = name.to_owned();
    if let Some(r) = root {
        p.path = r.clone();
        if let Some(wt) = &mut p.worktree_info {
            wt.worktree_path = r.clone();
        }
    }
}

impl Workspace {
    /// Point a project at a directory that is there already. Nothing on disk
    /// changes: this is for a directory that was moved by other means. Projects
    /// below the old path move along.
    pub fn change_project_path(
        &mut self,
        f: &PathFacts,
        project_id: &str,
        new_path: &str,
        cx: &mut WorkspaceCx,
    ) -> (r: Result<(), String>)
        ensures
            match repointed(old(self)@, f@, project_id@, new_path@) {
                Ok(ps) => {
                    &&& r is Ok
                    &&& final(self)@ == changed(
                        old(self)@,
                        with_projects(old(self)@.data, ps),
                    )
                    &&& final(cx)@ == announced(old(cx)@)
                },
                Err(e) => {
                    &&& r is Err && r->Err_0@ == e
                    &&& final(self)@ == old(self)@
                    &&& final(cx)@ == old(cx)@
                },
            },
    {
        if !is_rooted(f.windows, new_path) {
            return Err("path must be absolute".to_owned());
        }
        if !list_contains(&f.existing, new_path) {
            return Err(join3("'", new_path, "' does not exist"));
        }
        if !list_contains(&f.directories, new_path) {
            return Err(join3("'", new_path, "' is not a directory"));
        }
        if let Err(e) = self.ensure_project_path_mutation_allowed(f, project_id, new_path) {
            return Err(e);
        }
        let i: usize = match find_project(&self.data.projects, project_id) {
            Some(i) => i,
            None => {
                return Err("Project not found".to_owned());
            },
        };
        if self.data.projects[i].connection_id.is_some() {
            return Err("project is owned by another daemon".to_owned());
        }
        if f.coincide(self.data.projects[i].path.as_str(), new_path) {
            return Err("project already points at this directory".to_owned());
        }
        proof {
            assert(self@.data.projects.len() == self.data.projects@.len());
        }
        if let Some(k) = find_user(&self.data.projects, f, project_id, new_path) {
            return Err(
                join3("'", self.data.projects[k].name.as_str(), "' already uses this directory"),
            );
        }
        let old_path = self.data.projects[i].path.clone();
        let ts = match translate(
            &self.data.projects,
            f,
            old_path.as_str(),
            &Way::Written(old_path.as_str()),
            new_path,
        ) {
            Ok(ts) => ts,
            Err(e) => {
                return Err(e);
            },
        };
        proof {
            assert(translation_views(ts@).len() == ts@.len());
        }
        apply_translated_project_paths(&mut self.data.projects, &ts);
        if let Some(k) = find_project(&self.data.projects, project_id) {
            let ghost before = self.data.projects@;
            follow_root(&mut self.data.projects[k]);
            proof {
                let new = self.data.projects@[k as int];
                assert(self.data.projects@ =~= before.update(k as int, new));
                project_views_update(before, k as int, new);
                assert(project_views(before).update(k as int, before[k as int]@) =~= project_views(
                    before,
                ));
            }
        }
        self.notify_data(cx);
        Ok(())
    }

    /// What git is to be asked before the directory of a worktree project is
    /// renamed or its checkout removed: the path of its repository, and that of
    /// its checkout.
    pub fn checkout_to_verify(&self, project_id: &str) -> (r: Option<(String, String)>)
        ensures
            match r {
                Some((repo, checkout)) => checkout_question(self@.data.projects, project_id@)
                    == Some((repo@, checkout@)),
                None => checkout_question(self@.data.projects, project_id@) is None,
            },
    {
        let p = match self.project(project_id) {
            Some(p) => p,
            None => {
                return None;
            },
        };
        match &p.worktree_info {
            Some(wt) => match self.project(wt.parent_project_id.as_str()) {
                Some(parent) => {
                    let checkout = if wt.worktree_path.as_str().is_empty() {
                        p.path.clone()
                    } else {
                        wt.worktree_path.clone()
                    };
                    Some((parent.path.clone(), checkout))
                },
                None => None,
            },
            None => None,
        }
    }

    /// Check a directory rename, without making it. `checkout` is what git says
    /// of the checkout of a worktree project.
    pub fn prepare_project_directory_rename(
        &self,
        f: &PathFacts,
        checkout: &Resolution,
        project_id: &str,
        new_path: String,
        new_name: String,
    ) -> (r: Result<ProjectDirectoryRenamePlan, String>)
        ensures
            match r {
                Ok(p) => rename_plan(
                    self@,
                    f@,
                    checkout@,
                    project_id@,
                    new_path@,
                    new_name@,
                ) == Ok::<PlanView, Seq<char>>(p@),
                Err(e) => rename_plan(
                    self@,
                    f@,
                    checkout@,
                    project_id@,
                    new_path@,
                    new_name@,
                ) == Err::<PlanView, Seq<char>>(e@),
            },
    {
        let name = new_name.as_str();
        if name.is_empty() {
            return Err("name must not be empty".to_owned());
        }
        if has_char(name, '/') || has_char(name, '\\') || same(name, ".") || same(name, "..") {
            return Err("name must not contain path separators".to_owned());
        }
        if let Err(e) = self.ensure_project_path_mutation_allowed(f, project_id, new_path.as_str()) {
            return Err(e);
        }
        if list_contains(&f.existing, new_path.as_str()) {
            return Err(join3("'", name, "' already exists"));
        }
        let p = match self.project(project_id) {
            Some(p) => p,
            None => {
                return Err("Project not found".to_owned());
            },
        };
        let projects = &self.data.projects;
        let old_path = p.path.as_str();
        match &p.worktree_info {
            None => plan_directory(projects, f, project_id, old_path, new_path, new_name),
            Some(wt) => {
                if self.project(wt.parent_project_id.as_str()).is_none() {
                    return Err("Worktree parent project not found".to_owned());
                }
                match checkout {
                    Resolution::Failed(e) => Err(e.clone()),
                    Resolution::Path(root) => plan_checkout(
                        projects,
                        f,
                        project_id,
                        old_path,
                        root.as_str(),
                        new_path,
                        new_name,
                    ),
                }
            },
        }
    }

    /// Take over a rename that has been made.
    pub fn finish_project_directory_rename(
        &mut self,
        plan: &ProjectDirectoryRenamePlan,
        result: &ProjectDirectoryRenameResult,
        cx: &mut WorkspaceCx,
    ) -> (r: Result<(), String>)
        ensures
            match rename_taken_over(old(self)@.data.projects, plan@, result@) {
                Ok(ps) => {
                    &&& r is Ok
                    &&& final(self)@ == changed(
                        old(self)@,
                        with_projects(old(self)@.data, ps),
                    )
                    &&& final(cx)@ == announced(old(cx)@)
                },
                Err(e) => {
                    &&& r is Err && r->Err_0@ == e
                    &&& final(self)@ == old(self)@
                    &&& final(cx)@ == old(cx)@
                },
            },
    {
        let there = match self.project(plan.project_id.as_str()) {
            Some(p) => is_same_place(plan.windows, p.path.as_str(), plan.old_path.as_str()),
            None => false,
        };
        if !there {
            return Err(
                join(
                    "project changed while its directory was being renamed: ",
                    plan.project_id.as_str(),
                ),
            );
        }
        proof {
            assert(plan@.translations.len() == plan.translated_paths@.len());
        }
        apply_translated_project_paths(&mut self.data.projects, &plan.translated_paths);
        if let Some(k) = find_project(&self.data.projects, plan.project_id.as_str()) {
            let ghost before = self.data.projects@;
            rename_row(
                &mut self.data.projects[k],
                plan.new_name.as_str(),
                &result.moved_worktree_root,
            );
            proof {
                let new = self.data.projects@[k as int];
                assert(self.data.projects@ =~= before.update(k as int, new));
                project_views_update(before, k as int, new);
            }
        }
        self.notify_data(cx);
        Ok(())
    }
}

} // verus!
