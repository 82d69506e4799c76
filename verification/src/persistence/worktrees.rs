//! Worktrees and interrupted creations, judged by what is on disk.
//!
//! The host looks at the disk and at the repositories; what it saw comes in as
//! [`DiskFacts`].

use crate::collections::{
    IdMap, keys_of, list_contains, list_extend, list_remove, lookup, values_of, without,
};
use crate::layout::{LayoutNode, LayoutView, ShellType, ShellView, fresh_terminal, node_view, node_views, view_unfolds};
use crate::paths::{depth_of, is_same_place, is_within, parts, same_place, within};
use crate::rows::{
    IdFilter, IdFilterView, folders_without, kept_rows, list_folder_ids, list_project_ids,
    retain_rows, scrub_children, scrub_folders, without_children,
};
use crate::sorted::{before, is_before};
use crate::state::{
    DataView, ProjectData, ProjectView, WorkspaceData, WorktreeView, collect_layout_ids,
    find_project, folder_ids, layout_ids, project_ids, project_in, project_views,
};
use crate::text::{opt_text, same, texts};
use crate::windows::{WindowEdit, WindowEditView, edited_windows};
use crate::wsl::{ResolvedBackend, WslFacts, WslView, backend_of};
use vstd::prelude::*;

verus! {

/// A list of paths.
#[derive(Debug)]
pub struct PathList {
    pub paths: Vec<String>,
}

impl View for PathList {
    type V = Seq<Seq<char>>;

    open spec fn view(&self) -> Seq<Seq<char>> {
        texts(self.paths@)
    }
}

/// What the host saw on disk.
#[derive(Debug)]
pub struct DiskFacts {
    /// The paths that exist.
    pub existing: Vec<String>,
    /// The directories that hold a finished checkout.
    pub complete: Vec<String>,
    /// The linked checkouts that each repository lists.
    pub registries: IdMap<PathList>,
    /// What the host knows of Linux distributions on a Windows machine.
    pub wsl: WslFacts,
}

/// What [`DiskFacts`] stand for.
pub struct FactsView {
    pub existing: Seq<Seq<char>>,
    pub complete: Seq<Seq<char>>,
    pub registries: Seq<(Seq<char>, Seq<Seq<char>>)>,
    pub wsl: WslView,
}

impl View for DiskFacts {
    type V = FactsView;

    open spec fn view(&self) -> FactsView {
        FactsView {
            existing: texts(self.existing@),
            complete: texts(self.complete@),
            registries: self.registries@,
            wsl: self.wsl@,
        }
    }
}

/// How a terminal's session is ended.
#[derive(Debug)]
pub enum TerminalTeardownRoute {
    /// On this machine.
    Host,
    /// In a Linux distribution on a Windows machine.
    Wsl {
        distro: Option<String>,
        /// What keeps the session alive there.
        backend: ResolvedBackend,
    },
}

/// What a [`TerminalTeardownRoute`] stands for.
pub enum RouteView {
    Host,
    Wsl { distro: Option<Seq<char>>, backend: ResolvedBackend },
}

impl View for TerminalTeardownRoute {
    type V = RouteView;

    open spec fn view(&self) -> RouteView {
        match self {
            TerminalTeardownRoute::Host => RouteView::Host,
            TerminalTeardownRoute::Wsl { distro, backend } => RouteView::Wsl {
                distro: opt_text(*distro),
                backend: *backend,
            },
        }
    }
}

/// A terminal session to be ended, and how.
#[derive(Debug)]
pub struct TerminalSessionTeardown {
    pub terminal_id: String,
    pub route: TerminalTeardownRoute,
}

impl View for TerminalSessionTeardown {
    type V = (Seq<char>, RouteView);

    open spec fn view(&self) -> (Seq<char>, RouteView) {
        (self.terminal_id@, self.route@)
    }
}

/// What each teardown of `s` stands for.
pub open spec fn teardown_views(s: Seq<TerminalSessionTeardown>) -> Seq<(Seq<char>, RouteView)> {
    s.map_values(|t: TerminalSessionTeardown| t@)
}

/// The directory that a worktree project checks out into: its recorded root, or
/// its own path where none is recorded.
pub open spec fn checkout_path(p: ProjectView) -> Seq<char> {
    match p.worktree_info {
        Some(wt) => if wt.worktree_path.len() > 0 {
            wt.worktree_path
        } else {
            p.path
        },
        None => p.path,
    }
}

/// Whether what an interrupted creation left behind is worth keeping: a
/// worktree that exists, or a finished clone.
pub open spec fn usable(p: ProjectView, f: FactsView) -> bool {
    if p.worktree_info is Some {
        f.existing.contains(checkout_path(p))
    } else {
        f.existing.contains(p.path) && f.complete.contains(p.path)
    }
}

/// Whether the project is to be dropped: a worktree that is gone, or a creation
/// that left nothing worth keeping.
pub open spec fn stale(p: ProjectView, f: FactsView) -> bool {
    if p.worktree_info is Some {
        !f.existing.contains(checkout_path(p))
    } else {
        p.is_creating && !usable(p, f)
    }
}

/// The last of the deepest among the first `n` of `roots` that hold `path`.
pub open spec fn deepest_root(
    windows: bool,
    roots: Seq<Seq<char>>,
    path: Seq<char>,
    n: nat,
) -> Option<int>
    decreases n,
{
    if n == 0 || n > roots.len() {
        None
    } else {
        let front = deepest_root(windows, roots, path, (n - 1) as nat);
        if within(windows, path, roots[n - 1]) && (front is None || parts(
            windows,
            roots[n - 1],
        ).len() >= parts(windows, roots[front->0]).len()) {
            Some(n - 1)
        } else {
            front
        }
    }
}

/// The registered checkout that holds `path`: the deepest one.
pub open spec fn registered_root(
    windows: bool,
    roots: Seq<Seq<char>>,
    path: Seq<char>,
) -> Option<Seq<char>> {
    match deepest_root(windows, roots, path, roots.len()) {
        Some(i) => Some(roots[i]),
        None => None,
    }
}

/// The repository that the worktree at `i` belongs to.
pub open spec fn repository_of(ps: Seq<ProjectView>, wt: WorktreeView) -> Seq<char> {
    match project_in(ps, wt.parent_project_id) {
        Some(parent) => parent.path,
        None => wt.main_repo_path,
    }
}

/// Whether another project than the one at `i` is at `root`.
pub open spec fn occupied(
    windows: bool,
    ps: Seq<ProjectView>,
    i: int,
    root: Seq<char>,
) -> bool {
    exists|j: int| 0 <= j < ps.len() && j != i && same_place(windows, #[trigger] ps[j].path, root)
}

/// The checkout root that the worktree at `i` turns out to have, where none is
/// recorded.
pub open spec fn recovered_root(ps: Seq<ProjectView>, i: int, f: FactsView) -> Option<Seq<char>> {
    match ps[i].worktree_info {
        Some(wt) => if wt.worktree_path.len() > 0 || repository_of(ps, wt).len() == 0 {
            None
        } else {
            let roots = match lookup(f.registries, repository_of(ps, wt)) {
                Some(r) => r,
                None => Seq::empty(),
            };
            match registered_root(f.wsl.windows, roots, ps[i].path) {
                Some(root) => if occupied(f.wsl.windows, ps, i, root) {
                    None
                } else {
                    Some(root)
                },
                None => None,
            }
        },
        None => None,
    }
}

/// The project at `i` with the checkout root that it turns out to have.
pub open spec fn backfilled_row(ps: Seq<ProjectView>, i: int, f: FactsView) -> ProjectView {
    match recovered_root(ps, i, f) {
        Some(root) => ProjectView {
            worktree_info: Some(
                WorktreeView { worktree_path: root, ..ps[i].worktree_info->0 },
            ),
            ..ps[i]
        },
        None => ps[i],
    }
}

/// `ps` with the checkout roots that they turn out to have.
pub open spec fn backfilled(ps: Seq<ProjectView>, f: FactsView) -> Seq<ProjectView> {
    Seq::new(ps.len(), |i: int| backfilled_row(ps, i, f))
}

/// The ids of the stale ones of the first `n` projects.
pub open spec fn stale_ids(ps: Seq<ProjectView>, f: FactsView, n: nat) -> Seq<Seq<char>>
    decreases n,
{
    if n == 0 || n > ps.len() {
        Seq::empty()
    } else if stale(ps[n - 1], f) {
        stale_ids(ps, f, (n - 1) as nat).push(ps[n - 1].id)
    } else {
        stale_ids(ps, f, (n - 1) as nat)
    }
}

/// The shell that `s` stands for: its own, or else the project's default, or
/// else the global one.
pub open spec fn resolved_shell(
    s: ShellView,
    project: Option<ShellView>,
    global: ShellView,
) -> ShellView {
    match s {
        ShellView::Default => match project {
            Some(p) => p,
            None => global,
        },
        _ => s,
    }
}

/// How the session of a terminal with the shell `s` is ended.
pub open spec fn route_of(
    s: ShellView,
    project: Option<ShellView>,
    global: ShellView,
    wsl: WslView,
) -> RouteView {
    match resolved_shell(s, project, global) {
        ShellView::Wsl { distro } => if wsl.windows {
            RouteView::Wsl { distro, backend: backend_of(wsl, distro) }
        } else {
            RouteView::Host
        },
        _ => RouteView::Host,
    }
}

/// The sessions of the terminals of `l`.
pub open spec fn layout_teardowns(
    l: LayoutView,
    project: Option<ShellView>,
    global: ShellView,
    wsl: WslView,
) -> Seq<(Seq<char>, RouteView)>
    decreases l, 0nat,
{
    match l {
        LayoutView::Terminal { terminal_id: Some(t), shell_type, .. } => seq![
            (t, route_of(shell_type, project, global, wsl)),
        ],
        LayoutView::Terminal { terminal_id: None, .. } => Seq::empty(),
        LayoutView::Split { children, .. } => layout_teardowns_in(
            children,
            project,
            global,
            wsl,
            children.len(),
        ),
        LayoutView::Tabs { children, .. } => layout_teardowns_in(
            children,
            project,
            global,
            wsl,
            children.len(),
        ),
    }
}

/// The sessions of the terminals of the first `n` of `cs`.
pub open spec fn layout_teardowns_in(
    cs: Seq<LayoutView>,
    project: Option<ShellView>,
    global: ShellView,
    wsl: WslView,
    n: nat,
) -> Seq<(Seq<char>, RouteView)>
    decreases cs, n,
{
    if n == 0 || n > cs.len() {
        Seq::empty()
    } else {
        layout_teardowns_in(cs, project, global, wsl, (n - 1) as nat) + layout_teardowns(
            cs[n - 1],
            project,
            global,
            wsl,
        )
    }
}

/// The sessions `ids` on this machine.
pub open spec fn host_teardowns(ids: Seq<Seq<char>>) -> Seq<(Seq<char>, RouteView)> {
    ids.map_values(|id: Seq<char>| (id, RouteView::Host))
}

/// The sessions of the project `p`: those in its layout, its services' and its
/// hooks'.
pub open spec fn project_teardowns(p: ProjectView, global: ShellView, wsl: WslView) -> Seq<
    (Seq<char>, RouteView),
> {
    let own = match p.layout {
        Some(l) => layout_teardowns(l, p.default_shell, global, wsl),
        None => Seq::empty(),
    };
    own + host_teardowns(values_of(p.service_terminals)) + host_teardowns(
        keys_of(p.hook_terminals),
    )
}

/// The sessions of those of the first `n` projects that are listed in `ids`.
pub open spec fn listed_teardowns(
    ps: Seq<ProjectView>,
    ids: Seq<Seq<char>>,
    global: ShellView,
    wsl: WslView,
    n: nat,
) -> Seq<(Seq<char>, RouteView)>
    decreases n,
{
    if n == 0 || n > ps.len() {
        Seq::empty()
    } else if ids.contains(ps[n - 1].id) {
        listed_teardowns(ps, ids, global, wsl, (n - 1) as nat) + project_teardowns(
            ps[n - 1],
            global,
            wsl,
        )
    } else {
        listed_teardowns(ps, ids, global, wsl, (n - 1) as nat)
    }
}

/// The terminals of the project `p`: those in its layout, its services' and its
/// hooks'.
pub open spec fn owned_terminals(p: ProjectView) -> Seq<Seq<char>> {
    layout_ids(p) + values_of(p.service_terminals) + keys_of(p.hook_terminals)
}

/// The terminals of the first `n` projects.
pub open spec fn all_owned_terminals(ps: Seq<ProjectView>, n: nat) -> Seq<Seq<char>>
    decreases n,
{
    if n == 0 || n > ps.len() {
        Seq::empty()
    } else {
        all_owned_terminals(ps, (n - 1) as nat) + owned_terminals(ps[n - 1])
    }
}

/// Whether `s` holds a session of the terminal `t`.
pub open spec fn has_session(s: Seq<(Seq<char>, RouteView)>, t: Seq<char>) -> bool {
    exists|i: int| 0 <= i < s.len() && #[trigger] s[i].0 == t
}

/// The ordered list `s` with the session `e` in its place.
pub open spec fn session_placed(
    s: Seq<(Seq<char>, RouteView)>,
    e: (Seq<char>, RouteView),
) -> Seq<(Seq<char>, RouteView)>
    decreases s.len(),
{
    if s.len() == 0 || !before(e.0, s.last().0) {
        s.push(e)
    } else {
        session_placed(s.drop_last(), e).push(s.last())
    }
}

/// The sessions of `s` ordered by their terminal; of several with the same
/// terminal the first.
pub open spec fn sessions_once(s: Seq<(Seq<char>, RouteView)>) -> Seq<(Seq<char>, RouteView)>
    decreases s.len(),
{
    if s.len() == 0 {
        s
    } else {
        let front = sessions_once(s.drop_last());
        if has_session(front, s.last().0) {
            front
        } else {
            session_placed(front, s.last())
        }
    }
}

/// The sessions of `s` whose terminal is not in `held`.
pub open spec fn sessions_not_in(s: Seq<(Seq<char>, RouteView)>, held: Seq<Seq<char>>) -> Seq<
    (Seq<char>, RouteView),
>
    decreases s.len(),
{
    if s.len() == 0 {
        s
    } else if held.contains(s.last().0) {
        sessions_not_in(s.drop_last(), held)
    } else {
        sessions_not_in(s.drop_last(), held).push(s.last())
    }
}

/// `d` without the project `id`, wherever it is mentioned but in windows.
pub open spec fn row_dropped(d: DataView, id: Seq<char>) -> DataView {
    DataView {
        projects: without_children(kept_rows(d.projects, IdFilterView::NotId(id)), id),
        project_order: without(d.project_order, id),
        folders: folders_without(d.folders, id),
        ..d
    }
}

/// `d` without the first `n` of `ids`.
pub open spec fn rows_dropped(d: DataView, ids: Seq<Seq<char>>, n: nat) -> DataView
    decreases n,
{
    if n == 0 || n > ids.len() {
        d
    } else {
        row_dropped(rows_dropped(d, ids, (n - 1) as nat), ids[n - 1])
    }
}

/// The project `p` with its interrupted creation finished, where what it left
/// behind is worth keeping.
pub open spec fn finished_row(p: ProjectView, f: FactsView) -> ProjectView {
    if p.is_creating && usable(p, f) {
        ProjectView {
            layout: if p.layout is Some {
                p.layout
            } else {
                Some(fresh_terminal())
            },
            is_creating: false,
            ..p
        }
    } else {
        p
    }
}

/// `ps` with their interrupted creations finished.
pub open spec fn finished_rows(ps: Seq<ProjectView>, f: FactsView) -> Seq<ProjectView> {
    Seq::new(ps.len(), |i: int| finished_row(ps[i], f))
}

/// `d` once the checkout roots are filled in and the stale projects dropped.
pub open spec fn swept(d: DataView, f: FactsView) -> DataView {
    let ps = backfilled(d.projects, f);
    let gone = stale_ids(ps, f, ps.len());
    let rest = rows_dropped(DataView { projects: ps, ..d }, gone, gone.len());
    if gone.len() == 0 {
        rest
    } else {
        edited_windows(
            rest,
            WindowEditView::KeepOnly(project_ids(rest.projects), folder_ids(rest.folders)),
        )
    }
}

/// What looking at the disk makes of the data.
pub open spec fn synced(d: DataView, f: FactsView) -> DataView {
    DataView { projects: finished_rows(swept(d, f).projects, f), ..swept(d, f) }
}

/// The sessions that are left over once the stale projects are dropped: theirs,
/// without those that another project has too.
pub open spec fn leftover_sessions(d: DataView, f: FactsView, global: ShellView) -> Seq<
    (Seq<char>, RouteView),
> {
    let ps = backfilled(d.projects, f);
    let gone = stale_ids(ps, f, ps.len());
    let all = sessions_once(listed_teardowns(ps, gone, global, f.wsl, ps.len()));
    let rest = swept(d, f).projects;
    sessions_not_in(all, all_owned_terminals(rest, rest.len()))
}

/// The directory that a worktree project checks out into.
pub fn worktree_checkout_path(project: &ProjectData) -> (r: &str)
    ensures
        r@ == checkout_path(project@),
{
    match &project.worktree_info {
        Some(wt) => if wt.worktree_path.as_str().is_empty() {
            project.path.as_str()
        } else {
            wt.worktree_path.as_str()
        },
        None => project.path.as_str(),
    }
}

/// Whether what an interrupted creation left behind is worth keeping.
pub fn interrupted_create_is_usable(project: &ProjectData, facts: &DiskFacts) -> (r: bool)
    ensures
        r == usable(project@, facts@),
{
    if project.worktree_info.is_some() {
        return list_contains(&facts.existing, worktree_checkout_path(project));
    }
    list_contains(&facts.existing, project.path.as_str()) && list_contains(
        &facts.complete,
        project.path.as_str(),
    )
}

/// The registered checkout that holds a project: the deepest one. A nested
/// checkout and a submodule look the same on disk; only the registry tells them
/// apart.
pub fn registered_checkout_root<'a>(
    registered: &'a Vec<String>,
    project_path: &str,
    windows: bool,
) -> (r: Option<&'a String>)
    ensures
        match r {
            Some(root) => registered_root(windows, texts(registered@), project_path@) == Some(
                root@,
            ),
            None => registered_root(windows, texts(registered@), project_path@) is None,
        },
{
    let ghost roots = texts(registered@);
    let mut best: Option<usize> = None;
    let mut depth: usize = 0;
    let mut i: usize = 0;
    while i < registered.len()
        invariant
            i <= registered@.len(),
            roots == texts(registered@),
            match best {
                Some(b) => b < i && deepest_root(windows, roots, project_path@, i as nat) == Some(
                    b as int,
                ) && depth == parts(windows, roots[b as int]).len(),
                None => deepest_root(windows, roots, project_path@, i as nat) is None,
            },
        decreases registered@.len() - i,
    {
        proof {
            assert(roots[i as int] == registered@[i as int]@);
        }
        if is_within(windows, project_path, registered[i].as_str()) {
            let d = depth_of(windows, registered[i].as_str());
            if best.is_none() || d >= depth {
                best = Some(i);
                depth = d;
            }
        }
        i = i + 1;
    }
    proof {
        assert(roots.len() == registered@.len());
    }
    match best {
        Some(b) => Some(&registered[b]),
        None => None,
    }
}

/// Whether another project than the one at `i` is at `root`.
fn is_occupied(windows: bool, projects: &Vec<ProjectData>, i: usize, root: &str) -> (r: bool)
    ensures
        r == occupied(windows, project_views(projects@), i as int, root@),
{
    let ghost ps = project_views(projects@);
    let mut j: usize = 0;
    while j < projects.len()
        invariant
            j <= projects@.len(),
            ps == project_views(projects@),
            forall|k: int|
                0 <= k < j && k != i ==> !same_place(windows, #[trigger] ps[k].path, root@),
        decreases projects@.len() - j,
    {
        if j != i && is_same_place(windows, projects[j].path.as_str(), root) {
            proof {
                assert(same_place(windows, ps[j as int].path, root@));
            }
            return true;
        }
        j = j + 1;
    }
    false
}

/// The checkout root that the worktree at `i` turns out to have.
fn recover_root(projects: &Vec<ProjectData>, i: usize, facts: &DiskFacts) -> (r: Option<String>)
    requires
        i < projects@.len(),
    ensures
        opt_text(r) == recovered_root(project_views(projects@), i as int, facts@),
{
    let wt = match &projects[i].worktree_info {
        Some(wt) => wt,
        None => {
            return None;
        },
    };
    if !wt.worktree_path.as_str().is_empty() {
        return None;
    }
    let repo: &str = match find_project(projects, wt.parent_project_id.as_str()) {
        Some(k) => projects[k].path.as_str(),
        None => wt.main_repo_path.as_str(),
    };
    if repo.is_empty() {
        return None;
    }
    let list = match facts.registries.get(repo) {
        Some(l) => l,
        None => {
            proof {
                assert(deepest_root(
                    facts@.wsl.windows,
                    Seq::<Seq<char>>::empty(),
                    projects@[i as int].path@,
                    0,
                ) is None);
            }
            return None;
        },
    };
    let windows = facts.wsl.windows;
    match registered_checkout_root(&list.paths, projects[i].path.as_str(), windows) {
        Some(root) => if is_occupied(windows, projects, i, root.as_str()) {
            None
        } else {
            Some(root.clone())
        },
        None => None,
    }
}

/// Fill in the checkout roots of worktrees that have none recorded, so that a
/// worktree is not judged by a directory inside its checkout.
pub fn backfill_worktree_checkout_roots(projects: &mut Vec<ProjectData>, facts: &DiskFacts)
    ensures
        project_views(final(projects)@) == backfilled(project_views(old(projects)@), facts@),
{
    let ghost start = projects@;
    let ghost ps = project_views(start);
    let mut roots: Vec<Option<String>> = Vec::new();
    let mut i: usize = 0;
    while i < projects.len()
        invariant
            i <= projects@.len(),
            projects@ == start,
            ps == project_views(start),
            roots@.len() == i,
            forall|j: int|
                0 <= j < i ==> opt_text(#[trigger] roots@[j]) == recovered_root(ps, j, facts@),
        decreases projects@.len() - i,
    {
        roots.push(recover_root(projects, i, facts));
        i = i + 1;
    }
    let mut k: usize = 0;
    while k < projects.len()
        invariant
            k <= projects@.len(),
            projects@.len() == start.len(),
            roots@.len() == start.len(),
            ps == project_views(start),
            forall|j: int|
                0 <= j < start.len() ==> opt_text(#[trigger] roots@[j]) == recovered_root(
                    ps,
                    j,
                    facts@,
                ),
            forall|j: int|
                0 <= j < k ==> (#[trigger] projects@[j])@ == backfilled_row(ps, j, facts@),
            forall|j: int| k <= j < start.len() ==> projects@[j] == start[j],
        decreases projects@.len() - k,
    {
        proof {
            assert(ps[k as int] == start[k as int]@);
            assert(opt_text(roots@[k as int]) == recovered_root(ps, k as int, facts@));
        }
        if let Some(root) = &roots[k] {
            let path = root.clone();
            if let Some(wt) = &mut projects[k].worktree_info {
                wt.worktree_path = path;
            }
        }
        k = k + 1;
    }
    proof {
        assert(project_views(projects@) =~= backfilled(ps, facts@));
    }
}

/// How the session of a terminal is ended.
pub fn teardown_route(
    shell: &ShellType,
    project_default_shell: Option<&ShellType>,
    global_default_shell: &ShellType,
    wsl: &WslFacts,
) -> (r: TerminalTeardownRoute)
    ensures
        r@ == route_of(
            shell@,
            match project_default_shell {
                Some(s) => Some(s@),
                None => None,
            },
            global_default_shell@,
            wsl@,
        ),
{
    let resolved: &ShellType = match shell {
        ShellType::Default => match project_default_shell {
            Some(s) => s,
            None => global_default_shell,
        },
        _ => shell,
    };
    match resolved {
        ShellType::Wsl { distro } => if wsl.windows {
            TerminalTeardownRoute::Wsl {
                distro: crate::text::copy_opt(distro),
                backend: wsl.backend(distro),
            }
        } else {
            TerminalTeardownRoute::Host
        },
        _ => TerminalTeardownRoute::Host,
    }
}

/// Add the sessions of the terminals of `layout`.
pub fn collect_layout_teardowns(
    layout: &LayoutNode,
    project_default_shell: Option<&ShellType>,
    global_default_shell: &ShellType,
    wsl: &WslFacts,
    sessions: &mut Vec<TerminalSessionTeardown>,
)
    ensures
        teardown_views(final(sessions)@) == teardown_views(old(sessions)@) + layout_teardowns(
            layout@,
            match project_default_shell {
                Some(s) => Some(s@),
                None => None,
            },
            global_default_shell@,
            wsl@,
        ),
    decreases layout,
{
    proof {
        view_unfolds(*layout);
    }
    let ghost start = teardown_views(sessions@);
    match layout {
        LayoutNode::Terminal { terminal_id, shell_type, .. } => {
            match terminal_id {
                Some(t) => {
                    let ghost held = sessions@;
                    sessions.push(
                        TerminalSessionTeardown {
                            terminal_id: t.clone(),
                            route: teardown_route(
                                shell_type,
                                project_default_shell,
                                global_default_shell,
                                wsl,
                            ),
                        },
                    );
                    proof {
                        assert(teardown_views(sessions@) =~= start + seq![sessions@.last()@]);
                    }
                },
                None => {
                    proof {
                        assert(start =~= start + Seq::<(Seq<char>, RouteView)>::empty());
                    }
                },
            }
        },
        LayoutNode::Split { children, .. } => {
            collect_all_teardowns(
                children,
                project_default_shell,
                global_default_shell,
                wsl,
                sessions,
            );
        },
        LayoutNode::Tabs { children, .. } => {
            collect_all_teardowns(
                children,
                project_default_shell,
                global_default_shell,
                wsl,
                sessions,
            );
        },
    }
}

fn collect_all_teardowns(
    children: &Vec<LayoutNode>,
    project_default_shell: Option<&ShellType>,
    global_default_shell: &ShellType,
    wsl: &WslFacts,
    sessions: &mut Vec<TerminalSessionTeardown>,
)
    ensures
        teardown_views(final(sessions)@) == teardown_views(old(sessions)@) + layout_teardowns_in(
            node_views(children@),
            match project_default_shell {
                Some(s) => Some(s@),
                None => None,
            },
            global_default_shell@,
            wsl@,
            children@.len(),
        ),
    decreases children,
{
    let ghost start = teardown_views(sessions@);
    let ghost cs = node_views(children@);
    let ghost shell = match project_default_shell {
        Some(s) => Some(s@),
        None => None,
    };
    let mut i: usize = 0;
    proof {
        assert(start =~= start + layout_teardowns_in(cs, shell, global_default_shell@, wsl@, 0));
    }
    while i < children.len()
        invariant
            i <= children@.len(),
            cs == node_views(children@),
            shell == match project_default_shell {
                Some(s) => Some(s@),
                None => None,
            },
            teardown_views(sessions@) == start + layout_teardowns_in(
                cs,
                shell,
                global_default_shell@,
                wsl@,
                i as nat,
            ),
        decreases children@.len() - i,
    {
        proof {
            assert(cs[i as int] == node_view(children@[i as int]));
        }
        collect_layout_teardowns(
            &children[i],
            project_default_shell,
            global_default_shell,
            wsl,
            sessions,
        );
        proof {
            assert(teardown_views(sessions@) =~= start + layout_teardowns_in(
                cs,
                shell,
                global_default_shell@,
                wsl@,
                (i + 1) as nat,
            ));
        }
        i = i + 1;
    }
}

/// Add the sessions `ids` on this machine.
fn add_host_sessions(ids: &Vec<String>, sessions: &mut Vec<TerminalSessionTeardown>)
    ensures
        teardown_views(final(sessions)@) == teardown_views(old(sessions)@) + host_teardowns(
            texts(ids@),
        ),
{
    let ghost start = teardown_views(sessions@);
    let ghost all = host_teardowns(texts(ids@));
    let mut i: usize = 0;
    proof {
        assert(start =~= start + all.take(0));
    }
    while i < ids.len()
        invariant
            i <= ids@.len(),
            all == host_teardowns(texts(ids@)),
            teardown_views(sessions@) == start + all.take(i as int),
        decreases ids@.len() - i,
    {
        let ghost held = sessions@;
        sessions.push(
            TerminalSessionTeardown {
                terminal_id: ids[i].clone(),
                route: TerminalTeardownRoute::Host,
            },
        );
        proof {
            assert(teardown_views(sessions@) =~= teardown_views(held).push(all[i as int]));
            assert(start + all.take(i + 1) =~= (start + all.take(i as int)).push(all[i as int]));
        }
        i = i + 1;
    }
    proof {
        assert(all.take(i as int) =~= all);
    }
}

/// Add the sessions of the project `p`.
fn add_project_sessions(
    p: &ProjectData,
    global: &ShellType,
    wsl: &WslFacts,
    sessions: &mut Vec<TerminalSessionTeardown>,
)
    ensures
        teardown_views(final(sessions)@) == teardown_views(old(sessions)@) + project_teardowns(
            p@,
            global@,
            wsl@,
        ),
{
    let ghost start = teardown_views(sessions@);
    let ghost own = match p@.layout {
        Some(l) => layout_teardowns(l, p@.default_shell, global@, wsl@),
        None => Seq::empty(),
    };
    let shell: Option<&ShellType> = p.default_shell.as_ref();
    if let Some(l) = &p.layout {
        collect_layout_teardowns(l, shell, global, wsl, sessions);
    }
    proof {
        assert(teardown_views(sessions@) =~= start + own);
    }
    let services = p.service_terminals.values();
    add_host_sessions(&services, sessions);
    let hooks = p.hook_terminals.keys();
    add_host_sessions(&hooks, sessions);
    proof {
        assert(teardown_views(sessions@) =~= start + project_teardowns(p@, global@, wsl@));
    }
}

/// The sessions of the projects that are listed in `ids`.
fn collect_listed_sessions(
    projects: &Vec<ProjectData>,
    ids: &Vec<String>,
    global: &ShellType,
    wsl: &WslFacts,
) -> (r: Vec<TerminalSessionTeardown>)
    ensures
        teardown_views(r@) == listed_teardowns(
            project_views(projects@),
            texts(ids@),
            global@,
            wsl@,
            projects@.len(),
        ),
{
    let mut out: Vec<TerminalSessionTeardown> = Vec::new();
    let ghost ps = project_views(projects@);
    let mut i: usize = 0;
    proof {
        assert(teardown_views(out@) =~= Seq::<(Seq<char>, RouteView)>::empty());
    }
    while i < projects.len()
        invariant
            i <= projects@.len(),
            ps == project_views(projects@),
            teardown_views(out@) == listed_teardowns(
                ps,
                texts(ids@),
                global@,
                wsl@,
                i as nat,
            ),
        decreases projects@.len() - i,
    {
        proof {
            assert(ps[i as int] == projects@[i as int]@);
        }
        if list_contains(ids, projects[i].id.as_str()) {
            add_project_sessions(&projects[i], global, wsl, &mut out);
        }
        i = i + 1;
    }
    out
}

/// Whether `v` holds a session of the terminal `t`.
fn holds_session(v: &Vec<TerminalSessionTeardown>, t: &str) -> (r: bool)
    ensures
        r == has_session(teardown_views(v@), t@),
{
    let ghost s = teardown_views(v@);
    let mut i: usize = 0;
    while i < v.len()
        invariant
            i <= v@.len(),
            s == teardown_views(v@),
            forall|j: int| 0 <= j < i ==> #[trigger] s[j].0 != t@,
        decreases v@.len() - i,
    {
        if same(v[i].terminal_id.as_str(), t) {
            proof {
                assert(s[i as int].0 == t@);
            }
            return true;
        }
        i = i + 1;
    }
    false
}

/// Put the session `e` in its place in the ordered list `s`.
fn place_session(s: &mut Vec<TerminalSessionTeardown>, e: TerminalSessionTeardown)
    ensures
        teardown_views(final(s)@) == session_placed(teardown_views(old(s)@), e@),
{
    let ghost whole = teardown_views(s@);
    let mut n: usize = s.len();
    proof {
        assert(whole.take(n as int) =~= whole);
        assert(session_placed(whole, e@) + whole.skip(n as int) =~= session_placed(whole, e@));
    }
    while n > 0 && is_before(e.terminal_id.as_str(), s[n - 1].terminal_id.as_str())
        invariant
            n <= s@.len(),
            whole == teardown_views(s@),
            session_placed(whole.take(n as int), e@) + whole.skip(n as int) == session_placed(
                whole,
                e@,
            ),
        decreases n,
    {
        proof {
            let t = whole.take(n as int);
            assert(t.last() == s@[n - 1]@);
            assert(t.drop_last() =~= whole.take(n - 1));
            assert(session_placed(t.drop_last(), e@) + whole.skip(n - 1) =~= session_placed(t, e@)
                + whole.skip(n as int));
        }
        n = n - 1;
    }
    let ghost old_s = s@;
    s.insert(n, e);
    proof {
        if n > 0 {
            assert(whole.take(n as int).last() == old_s[n - 1]@);
        }
        assert(session_placed(whole.take(n as int), e@) == whole.take(n as int).push(e@));
        assert(teardown_views(s@) =~= whole.take(n as int).push(e@) + whole.skip(n as int));
    }
}

/// The sessions of `v` ordered by their terminal; of several with the same
/// terminal the first.
fn order_sessions(v: Vec<TerminalSessionTeardown>) -> (r: Vec<TerminalSessionTeardown>)
    ensures
        teardown_views(r@) == sessions_once(teardown_views(v@)),
{
    let ghost start = v@;
    let ghost whole = teardown_views(start);
    let mut rest = crate::collections::reversed(v);
    let ghost mut taken: int = 0;
    let mut out: Vec<TerminalSessionTeardown> = Vec::new();
    proof {
        assert(whole.take(0) =~= Seq::<(Seq<char>, RouteView)>::empty());
        assert(teardown_views(out@) =~= Seq::<(Seq<char>, RouteView)>::empty());
    }
    while rest.len() > 0
        invariant
            0 <= taken <= start.len(),
            rest@.len() == start.len() - taken,
            whole == teardown_views(start),
            forall|j: int| 0 <= j < rest@.len() ==> rest@[j] == start[start.len() - 1 - j],
            teardown_views(out@) == sessions_once(whole.take(taken)),
        decreases rest.len(),
    {
        let e = rest.pop().unwrap();
        proof {
            assert(e == start[taken]);
            assert(whole.take(taken + 1).drop_last() =~= whole.take(taken));
            assert(whole.take(taken + 1).last() == e@);
        }
        if !holds_session(&out, e.terminal_id.as_str()) {
            place_session(&mut out, e);
        }
        proof {
            taken = taken + 1;
        }
    }
    proof {
        assert(whole.take(taken) =~= whole);
    }
    out
}

/// The sessions of `v` whose terminal is not in `held`.
fn drop_held_sessions(v: Vec<TerminalSessionTeardown>, held: &Vec<String>) -> (r: Vec<
    TerminalSessionTeardown,
>)
    ensures
        teardown_views(r@) == sessions_not_in(teardown_views(v@), texts(held@)),
{
    let ghost start = v@;
    let ghost whole = teardown_views(start);
    let mut rest = crate::collections::reversed(v);
    let ghost mut taken: int = 0;
    let mut out: Vec<TerminalSessionTeardown> = Vec::new();
    proof {
        assert(whole.take(0) =~= Seq::<(Seq<char>, RouteView)>::empty());
        assert(teardown_views(out@) =~= Seq::<(Seq<char>, RouteView)>::empty());
    }
    while rest.len() > 0
        invariant
            0 <= taken <= start.len(),
            rest@.len() == start.len() - taken,
            whole == teardown_views(start),
            forall|j: int| 0 <= j < rest@.len() ==> rest@[j] == start[start.len() - 1 - j],
            teardown_views(out@) == sessions_not_in(whole.take(taken), texts(held@)),
        decreases rest.len(),
    {
        let e = rest.pop().unwrap();
        proof {
            assert(e == start[taken]);
            assert(whole.take(taken + 1).drop_last() =~= whole.take(taken));
            assert(whole.take(taken + 1).last() == e@);
        }
        if !list_contains(held, e.terminal_id.as_str()) {
            let ghost had = out@;
            out.push(e);
            proof {
                assert(teardown_views(out@) =~= teardown_views(had).push(e@));
            }
        }
        proof {
            taken = taken + 1;
        }
    }
    proof {
        assert(whole.take(taken) =~= whole);
    }
    out
}

/// The terminals of the project `p`.
pub fn collect_owned(p: &ProjectData) -> (r: Vec<String>)
    ensures
        texts(r@) == owned_terminals(p@),
{
    let mut out = collect_layout_ids(p);
    let services = p.service_terminals.values();
    list_extend(&mut out, &services);
    let hooks = p.hook_terminals.keys();
    list_extend(&mut out, &hooks);
    out
}

/// The terminals of all projects.
fn collect_all_owned(projects: &Vec<ProjectData>) -> (r: Vec<String>)
    ensures
        texts(r@) == all_owned_terminals(project_views(projects@), projects@.len()),
{
    let mut out: Vec<String> = Vec::new();
    let ghost ps = project_views(projects@);
    let mut i: usize = 0;
    proof {
        assert(texts(out@) =~= Seq::<Seq<char>>::empty());
    }
    while i < projects.len()
        invariant
            i <= projects@.len(),
            ps == project_views(projects@),
            texts(out@) == all_owned_terminals(ps, i as nat),
        decreases projects@.len() - i,
    {
        proof {
            assert(ps[i as int] == projects@[i as int]@);
        }
        let own = collect_owned(&projects[i]);
        list_extend(&mut out, &own);
        i = i + 1;
    }
    out
}

/// The ids of the stale projects.
fn collect_stale(projects: &Vec<ProjectData>, facts: &DiskFacts) -> (r: Vec<String>)
    ensures
        texts(r@) == stale_ids(project_views(projects@), facts@, projects@.len()),
{
    let mut out: Vec<String> = Vec::new();
    let ghost ps = project_views(projects@);
    let mut i: usize = 0;
    proof {
        assert(texts(out@) =~= Seq::<Seq<char>>::empty());
    }
    while i < projects.len()
        invariant
            i <= projects@.len(),
            ps == project_views(projects@),
            texts(out@) == stale_ids(ps, facts@, i as nat),
        decreases projects@.len() - i,
    {
        proof {
            assert(ps[i as int] == projects@[i as int]@);
        }
        let drop = if projects[i].worktree_info.is_some() {
            !list_contains(&facts.existing, worktree_checkout_path(&projects[i]))
        } else {
            projects[i].is_creating && !interrupted_create_is_usable(&projects[i], facts)
        };
        if drop {
            let ghost had = out@;
            out.push(projects[i].id.clone());
            proof {
                assert(texts(out@) =~= texts(had).push(ps[i as int].id));
            }
        }
        i = i + 1;
    }
    out
}

/// Drop the project `id`, wherever it is mentioned but in windows.
pub fn drop_row(data: &mut WorkspaceData, id: &str)
    ensures
        final(data)@ == row_dropped(old(data)@, id@),
{
    retain_rows(&mut data.projects, &IdFilter::NotId(id));
    list_remove(&mut data.project_order, id);
    scrub_folders(&mut data.folders, id);
    scrub_children(&mut data.projects, id);
}

fn drop_rows(data: &mut WorkspaceData, ids: &Vec<String>)
    ensures
        final(data)@ == rows_dropped(old(data)@, texts(ids@), ids@.len()),
{
    let ghost start = data@;
    let ghost all = texts(ids@);
    let mut i: usize = 0;
    while i < ids.len()
        invariant
            i <= ids@.len(),
            all == texts(ids@),
            data@ == rows_dropped(start, all, i as nat),
        decreases ids@.len() - i,
    {
        proof {
            assert(all[i as int] == ids@[i as int]@);
        }
        drop_row(data, ids[i].as_str());
        i = i + 1;
    }
}

/// Finish the interrupted creations whose leavings are worth keeping.
fn finish_rows(projects: &mut Vec<ProjectData>, facts: &DiskFacts)
    ensures
        project_views(final(projects)@) == finished_rows(project_views(old(projects)@), facts@),
{
    let ghost start = projects@;
    let mut i: usize = 0;
    while i < projects.len()
        invariant
            i <= projects@.len(),
            projects@.len() == start.len(),
            forall|j: int|
                0 <= j < i ==> (#[trigger] projects@[j])@ == finished_row(start[j]@, facts@),
            forall|j: int| i <= j < start.len() ==> projects@[j] == start[j],
        decreases projects@.len() - i,
    {
        if projects[i].is_creating && interrupted_create_is_usable(&projects[i], facts) {
            if projects[i].layout.is_none() {
                projects[i].layout = Some(LayoutNode::new_terminal());
            }
            projects[i].is_creating = false;
        }
        i = i + 1;
    }
    proof {
        assert(project_views(projects@) =~= finished_rows(project_views(start), facts@));
    }
}

/// Bring the data in line with what is on disk: fill in checkout roots, drop
/// worktrees that are gone and creations that left nothing worth keeping, and
/// finish the other interrupted creations. Returns the terminal sessions that
/// belong to no project any more.
pub fn sync_worktrees_with_backend_and_shell(
    data: &mut WorkspaceData,
    facts: &DiskFacts,
    global_default_shell: &ShellType,
) -> (r: Vec<TerminalSessionTeardown>)
    ensures
        final(data)@ == synced(old(data)@, facts@),
        teardown_views(r@) == leftover_sessions(old(data)@, facts@, global_default_shell@),
{
    let ghost d0 = data@;
    backfill_worktree_checkout_roots(&mut data.projects, facts);
    let ghost ps = data@.projects;
    let gone = collect_stale(&data.projects, facts);
    proof {
        assert(ps.len() == data.projects@.len());
        assert(texts(gone@).len() == gone@.len());
    }
    let sessions = collect_listed_sessions(
        &data.projects,
        &gone,
        global_default_shell,
        &facts.wsl,
    );
    let sessions = order_sessions(sessions);
    drop_rows(data, &gone);
    if gone.len() > 0 {
        let pids = list_project_ids(&data.projects);
        let fids = list_folder_ids(&data.folders);
        data.edit_windows(&WindowEdit::KeepOnly(&pids, &fids));
    }
    proof {
        assert(data@ == swept(d0, facts@));
        assert(data@.projects.len() == data.projects@.len());
    }
    let held = collect_all_owned(&data.projects);
    let sessions = drop_held_sessions(sessions, &held);
    finish_rows(&mut data.projects, facts);
    sessions
}

} // verus!
