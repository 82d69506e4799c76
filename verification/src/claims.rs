//! Who may use which directory.
//!
//! A checkout that is being made or removed holds a lease on its root: until
//! the operation ends, no project and no other checkout may move into it. Two
//! spellings can name one directory, so paths are compared by the identity that
//! the host resolved them to.

use crate::collections::{IdMap, lookup};
use crate::paths::{is_same_place, is_within, same_place, within};
use crate::persistence::worktrees::{checkout_path, worktree_checkout_path};
use crate::state::{ProjectData, ProjectView, find_project, project_views, project_views_update};
use crate::text::{join3, opt_text, refusal_of, same, texts};
use crate::workspace::{Workspace, WorkspaceView, ws_project, ws_with_project};
use vstd::prelude::*;

verus! {

/// What came of resolving a path.
#[derive(Debug)]
pub enum Resolution {
    /// It names this directory.
    Path(String),
    /// It could not be resolved, for this reason.
    Failed(String),
}

/// What a [`Resolution`] stands for.
pub enum ResolutionView {
    Path(Seq<char>),
    Failed(Seq<char>),
}

impl View for Resolution {
    type V = ResolutionView;

    open spec fn view(&self) -> ResolutionView {
        match self {
            Resolution::Path(p) => ResolutionView::Path(p@),
            Resolution::Failed(e) => ResolutionView::Failed(e@),
        }
    }
}

/// What the host knows of paths.
#[derive(Debug)]
pub struct PathFacts {
    /// The identity of each path that differs from its spelling.
    pub identities: IdMap<String>,
    /// What came of resolving each path that does not resolve to itself.
    pub resolutions: IdMap<Resolution>,
    /// The paths that exist.
    pub existing: Vec<String>,
    /// The directories among them.
    pub directories: Vec<String>,
    /// The repository that each path is in.
    pub repo_roots: IdMap<String>,
    /// The repositories that have linked checkouts.
    pub linked: Vec<String>,
    /// The working directory.
    pub cwd: Option<String>,
    /// Whether paths are written as on Windows.
    pub windows: bool,
}

/// What [`PathFacts`] stand for.
pub struct PathFactsView {
    pub identities: Seq<(Seq<char>, Seq<char>)>,
    pub resolutions: Seq<(Seq<char>, ResolutionView)>,
    pub existing: Seq<Seq<char>>,
    pub directories: Seq<Seq<char>>,
    pub repo_roots: Seq<(Seq<char>, Seq<char>)>,
    pub linked: Seq<Seq<char>>,
    pub cwd: Option<Seq<char>>,
    pub windows: bool,
}

impl View for PathFacts {
    type V = PathFactsView;

    open spec fn view(&self) -> PathFactsView {
        PathFactsView {
            identities: self.identities@,
            resolutions: self.resolutions@,
            existing: texts(self.existing@),
            directories: texts(self.directories@),
            repo_roots: self.repo_roots@,
            linked: texts(self.linked@),
            cwd: opt_text(self.cwd),
            windows: self.windows,
        }
    }
}

impl PathFacts {
    /// A host that knows nothing.
    pub fn none() -> (r: Self)
        ensures
            r@ == no_facts(),
    {
        let r = PathFacts {
            identities: IdMap::new(),
            resolutions: IdMap::new(),
            existing: Vec::new(),
            directories: Vec::new(),
            repo_roots: IdMap::new(),
            linked: Vec::new(),
            cwd: None,
            windows: false,
        };
        proof {
            assert(texts(r.existing@) =~= Seq::<Seq<char>>::empty());
            assert(texts(r.directories@) =~= Seq::<Seq<char>>::empty());
            assert(texts(r.linked@) =~= Seq::<Seq<char>>::empty());
        }
        r
    }

    /// The identity of the path `p`.
    pub fn identity_of<'a>(&'a self, p: &'a str) -> (r: &'a str)
        ensures
            r@ == identity(self@, p@),
    {
        match self.identities.get(p) {
            Some(q) => q.as_str(),
            None => p,
        }
    }

    /// Whether `p` is `root` or lies below it.
    pub fn lies_within(&self, p: &str, root: &str) -> (r: bool)
        ensures
            r == inside(self@, p@, root@),
    {
        is_within(self.windows, self.identity_of(p), self.identity_of(root))
    }

    /// Whether `a` and `b` name one directory.
    pub fn coincide(&self, a: &str, b: &str) -> (r: bool)
        ensures
            r == coinciding(self@, a@, b@),
    {
        is_same_place(self.windows, self.identity_of(a), self.identity_of(b))
    }
}

/// A host that knows nothing: every path names itself.
pub open spec fn no_facts() -> PathFactsView {
    PathFactsView {
        identities: Seq::empty(),
        resolutions: Seq::empty(),
        existing: Seq::empty(),
        directories: Seq::empty(),
        repo_roots: Seq::empty(),
        linked: Seq::empty(),
        cwd: None,
        windows: false,
    }
}

/// The identity of the path `p`.
pub open spec fn identity(f: PathFactsView, p: Seq<char>) -> Seq<char> {
    match lookup(f.identities, p) {
        Some(q) => q,
        None => p,
    }
}

/// Whether `p` is `root` or lies below it.
pub open spec fn inside(f: PathFactsView, p: Seq<char>, root: Seq<char>) -> bool {
    within(f.windows, identity(f, p), identity(f, root))
}

/// Whether `a` and `b` name one directory.
pub open spec fn coinciding(f: PathFactsView, a: Seq<char>, b: Seq<char>) -> bool {
    same_place(f.windows, identity(f, a), identity(f, b))
}

/// Whether the project `id` is being made or removed.
pub open spec fn busy(w: WorkspaceView, id: Seq<char>) -> bool {
    w.creating.contains(id) || w.closing.contains(id)
}

/// Whether `path` is in the way of an operation on `root`: inside it or, for
/// `both`, around it.
pub open spec fn clashing(f: PathFactsView, path: Seq<char>, root: Seq<char>, both: bool) -> bool {
    inside(f, path, root) || (both && inside(f, root, path))
}

/// The first of the first `n` projects whose operation `path` is in the way of.
pub open spec fn first_clash(
    w: WorkspaceView,
    f: PathFactsView,
    path: Seq<char>,
    both: bool,
    n: nat,
) -> Option<int>
    decreases n,
{
    if n == 0 || n > w.data.projects.len() {
        None
    } else {
        match first_clash(w, f, path, both, (n - 1) as nat) {
            Some(i) => Some(i),
            None => {
                let p = w.data.projects[n - 1];
                if busy(w, p.id) && clashing(f, path, checkout_path(p), both) {
                    Some(n - 1)
                } else {
                    None
                }
            },
        }
    }
}

/// The first of all projects whose operation `path` is in the way of.
pub open spec fn clash(w: WorkspaceView, f: PathFactsView, path: Seq<char>, both: bool) -> Option<
    int,
> {
    first_clash(w, f, path, both, w.data.projects.len())
}

/// `'{a}'` followed by `b` and `'{c}'`.
pub open spec fn quoted(a: Seq<char>, b: Seq<char>, c: Seq<char>) -> Seq<char> {
    "'"@ + a + b + c + "'"@
}

/// Why no project may be put at `path`.
pub open spec fn claim_refusal(w: WorkspaceView, f: PathFactsView, path: Seq<char>) -> Option<
    Seq<char>,
> {
    match clash(w, f, path, false) {
        Some(i) => Some(
            quoted(path, "' is inside the active worktree operation on '"@, w.data.projects[i].name),
        ),
        None => None,
    }
}

/// Why no checkout may be made at `root`.
pub open spec fn target_refusal(w: WorkspaceView, f: PathFactsView, root: Seq<char>) -> Option<
    Seq<char>,
> {
    match clash(w, f, root, true) {
        Some(i) => Some(quoted(root, "' overlaps active operation on '"@, w.data.projects[i].name)),
        None => None,
    }
}

/// Why the project `id` may not be moved to `path`.
pub open spec fn mutation_refusal(
    w: WorkspaceView,
    f: PathFactsView,
    id: Seq<char>,
    path: Seq<char>,
) -> Option<Seq<char>> {
    let from = match ws_project(w, id) {
        Some(p) => match clash(w, f, p.path, true) {
            Some(i) => Some(
                quoted(
                    p.path,
                    "' overlaps active worktree operation on '"@,
                    w.data.projects[i].name,
                ),
            ),
            None => None,
        },
        None => None,
    };
    match from {
        Some(e) => Some(e),
        None => match clash(w, f, path, true) {
            Some(i) => Some(
                quoted(
                    path,
                    "' overlaps active worktree operation on '"@,
                    w.data.projects[i].name,
                ),
            ),
            None => None,
        },
    }
}

/// The first of the first `n` projects other than `id` that lies in `root`.
pub open spec fn first_occupant(
    ps: Seq<ProjectView>,
    f: PathFactsView,
    id: Seq<char>,
    root: Seq<char>,
    n: nat,
) -> Option<int>
    decreases n,
{
    if n == 0 || n > ps.len() {
        None
    } else {
        match first_occupant(ps, f, id, root, (n - 1) as nat) {
            Some(i) => Some(i),
            None => if ps[n - 1].id != id && inside(f, ps[n - 1].path, root) {
                Some(n - 1)
            } else {
                None
            },
        }
    }
}

/// Why the root of the worktree `id` is not its own.
pub open spec fn occupancy_refusal(
    w: WorkspaceView,
    f: PathFactsView,
    id: Seq<char>,
    root: Seq<char>,
) -> Option<Seq<char>> {
    match first_occupant(w.data.projects, f, id, root, w.data.projects.len()) {
        Some(i) => Some(
            "Worktree root is also used by project '"@ + w.data.projects[i].name + "'"@,
        ),
        None => None,
    }
}

/// `w` in which the project `id` is being made.
pub open spec fn creation_begun(w: WorkspaceView, id: Seq<char>) -> WorkspaceView {
    let v = WorkspaceView { creating: w.creating.insert(id), ..w };
    match ws_project(w, id) {
        Some(p) => ws_with_project(v, id, ProjectView { is_creating: true, ..p }),
        None => v,
    }
}

/// `w` in which the project `id` is no longer being made.
pub open spec fn creation_ended(w: WorkspaceView, id: Seq<char>) -> WorkspaceView {
    let v = WorkspaceView { creating: w.creating.remove(id), ..w };
    match ws_project(w, id) {
        Some(p) => ws_with_project(
            v,
            id,
            ProjectView { is_creating: false, creating_progress: None, ..p },
        ),
        None => v,
    }
}

/// `w` in which the project `id` is being removed.
pub open spec fn closing_begun(w: WorkspaceView, id: Seq<char>) -> WorkspaceView {
    let v = WorkspaceView { closing: w.closing.insert(id), ..w };
    match ws_project(w, id) {
        Some(p) => ws_with_project(v, id, ProjectView { is_closing: true, ..p }),
        None => v,
    }
}

/// `w` in which the project `id` is no longer being removed.
pub open spec fn closing_ended(w: WorkspaceView, id: Seq<char>) -> WorkspaceView {
    let v = WorkspaceView { closing: w.closing.remove(id), ..w };
    match ws_project(w, id) {
        Some(p) => ws_with_project(v, id, ProjectView { is_closing: false, ..p }),
        None => v,
    }
}

/// `'{a}'` followed by `b` and `'{c}'`.
fn quote(a: &str, b: &str, c: &str) -> (r: String)
    ensures
        r@ == quoted(a@, b@, c@),
{
    let head = join3("'", a, b);
    let r = join3(head.as_str(), c, "'");
    proof {
        assert(r@ =~= quoted(a@, b@, c@));
    }
    r
}

impl Workspace {
    /// Whether the project `id` is being made.
    pub fn is_creating_project(&self, id: &str) -> (r: bool)
        ensures
            r == self@.creating.contains(id@),
    {
        self.creating.contains(id)
    }

    /// Whether the project `id` is being removed.
    pub fn is_project_closing(&self, id: &str) -> (r: bool)
        ensures
            r == self@.closing.contains(id@),
    {
        self.closing.contains(id)
    }

    /// Whether the project `id` is being made or removed.
    pub fn is_busy(&self, id: &str) -> (r: bool)
        ensures
            r == busy(self@, id@),
    {
        self.creating.contains(id) || self.closing.contains(id)
    }

    /// The project `id` is being made from now on.
    pub fn mark_creating_project(&mut self, id: &str)
        ensures
            final(self)@ == creation_begun(old(self)@, id@),
    {
        self.creating.insert(id);
        if let Some(i) = find_project(&self.data.projects, id) {
            let ghost before = self.data.projects@;
            self.data.projects[i].is_creating = true;
            proof {
                let new = self.data.projects@[i as int];
                assert(self.data.projects@ =~= before.update(i as int, new));
                project_views_update(before, i as int, new);
            }
        }
    }

    /// The project `id` is no longer being made.
    pub fn finish_creating_project(&mut self, id: &str)
        ensures
            final(self)@ == creation_ended(old(self)@, id@),
    {
        self.creating.remove(id);
        if let Some(i) = find_project(&self.data.projects, id) {
            let ghost before = self.data.projects@;
            end_creation(&mut self.data.projects[i]);
            proof {
                let new = self.data.projects@[i as int];
                assert(self.data.projects@ =~= before.update(i as int, new));
                project_views_update(before, i as int, new);
            }
        }
    }

    /// The project `id` is being removed from now on.
    pub fn mark_closing_project_authoritative(&mut self, id: &str)
        ensures
            final(self)@ == closing_begun(old(self)@, id@),
    {
        self.closing.insert(id);
        if let Some(i) = find_project(&self.data.projects, id) {
            let ghost before = self.data.projects@;
            self.data.projects[i].is_closing = true;
            proof {
                let new = self.data.projects@[i as int];
                assert(self.data.projects@ =~= before.update(i as int, new));
                project_views_update(before, i as int, new);
            }
        }
    }

    /// The project `id` is no longer being removed.
    pub fn finish_closing_project(&mut self, id: &str)
        ensures
            final(self)@ == closing_ended(old(self)@, id@),
    {
        self.closing.remove(id);
        if let Some(i) = find_project(&self.data.projects, id) {
            let ghost before = self.data.projects@;
            self.data.projects[i].is_closing = false;
            proof {
                let new = self.data.projects@[i as int];
                assert(self.data.projects@ =~= before.update(i as int, new));
                project_views_update(before, i as int, new);
            }
        }
    }

    /// The project whose operation `path` is in the way of.
    fn find_clash(&self, f: &PathFacts, path: &str, both: bool) -> (r: Option<usize>)
        ensures
            match r {
                Some(i) => i < self.data.projects@.len() && clash(self@, f@, path@, both) == Some(
                    i as int,
                ),
                None => clash(self@, f@, path@, both) is None,
            },
    {
        let ghost ps = self@.data.projects;
        let mut found: Option<usize> = None;
        let mut i: usize = 0;
        while i < self.data.projects.len()
            invariant
                i <= self.data.projects@.len(),
                ps == self@.data.projects,
                ps == project_views(self.data.projects@),
                match found {
                    Some(k) => k < i && first_clash(self@, f@, path@, both, i as nat) == Some(
                        k as int,
                    ),
                    None => first_clash(self@, f@, path@, both, i as nat) is None,
                },
            decreases self.data.projects@.len() - i,
        {
            proof {
                assert(ps[i as int] == self.data.projects@[i as int]@);
            }
            if found.is_none() {
                let p = &self.data.projects[i];
                let root = worktree_checkout_path(p);
                if self.is_busy(p.id.as_str()) && (f.lies_within(path, root) || (both
                    && f.lies_within(root, path))) {
                    found = Some(i);
                }
            }
            i = i + 1;
        }
        proof {
            assert(ps.len() == self.data.projects@.len());
        }
        found
    }

    /// Whether a project may be put at `path`.
    pub fn ensure_project_path_claim_allowed(&self, f: &PathFacts, path: &str) -> (r: Result<
        (),
        String,
    >)
        ensures
            refusal_of(r) == claim_refusal(self@, f@, path@),
    {
        match self.find_clash(f, path, false) {
            Some(i) => Err(
                quote(
                    path,
                    "' is inside the active worktree operation on '",
                    self.data.projects[i].name.as_str(),
                ),
            ),
            None => Ok(()),
        }
    }

    /// Whether a checkout may be made at `root`.
    pub fn ensure_worktree_target_claim_allowed(&self, f: &PathFacts, root: &str) -> (r: Result<
        (),
        String,
    >)
        ensures
            refusal_of(r) == target_refusal(self@, f@, root@),
    {
        match self.find_clash(f, root, true) {
            Some(i) => Err(
                quote(
                    root,
                    "' overlaps active operation on '",
                    self.data.projects[i].name.as_str(),
                ),
            ),
            None => Ok(()),
        }
    }

    /// Whether the project `id` may be moved to `path`.
    pub fn ensure_project_path_mutation_allowed(&self, f: &PathFacts, id: &str, path: &str) -> (r:
        Result<(), String>)
        ensures
            refusal_of(r) == mutation_refusal(self@, f@, id@, path@),
    {
        if let Some(p) = self.project(id) {
            if let Some(i) = self.find_clash(f, p.path.as_str(), true) {
                return Err(
                    quote(
                        p.path.as_str(),
                        "' overlaps active worktree operation on '",
                        self.data.projects[i].name.as_str(),
                    ),
                );
            }
        }
        match self.find_clash(f, path, true) {
            Some(i) => Err(
                quote(
                    path,
                    "' overlaps active worktree operation on '",
                    self.data.projects[i].name.as_str(),
                ),
            ),
            None => Ok(()),
        }
    }

    /// Whether no other project lies in the root of the worktree `id`.
    pub fn ensure_worktree_root_exclusively_owned(&self, f: &PathFacts, id: &str, root: &str) -> (r:
        Result<(), String>)
        ensures
            refusal_of(r) == occupancy_refusal(self@, f@, id@, root@),
    {
        let ghost ps = project_views(self.data.projects@);
        let mut found: Option<usize> = None;
        let mut i: usize = 0;
        while i < self.data.projects.len()
            invariant
                i <= self.data.projects@.len(),
                ps == project_views(self.data.projects@),
                match found {
                    Some(k) => k < i && first_occupant(ps, f@, id@, root@, i as nat) == Some(
                        k as int,
                    ),
                    None => first_occupant(ps, f@, id@, root@, i as nat) is None,
                },
            decreases self.data.projects@.len() - i,
        {
            proof {
                assert(ps[i as int] == self.data.projects@[i as int]@);
            }
            if found.is_none() {
                let p = &self.data.projects[i];
                if !same(p.id.as_str(), id) && f.lies_within(p.path.as_str(), root) {
                    found = Some(i);
                }
            }
            i = i + 1;
        }
        match found {
            Some(k) => Err(
                join3(
                    "Worktree root is also used by project '",
                    self.data.projects[k].name.as_str(),
                    "'",
                ),
            ),
            None => Ok(()),
        }
    }
}

/// The project `p` is no longer being made.
fn end_creation(p: &mut ProjectData)
    ensures
        final(p)@ == (ProjectView { is_creating: false, creating_progress: None, ..old(p)@ }),
{
    p.is_creating = false;
    p.creating_progress = None;
}

/// A lease ends with its operation: once nothing is being made or removed, no
/// path is refused.
pub proof fn leases_end(w: WorkspaceView, f: PathFactsView, path: Seq<char>, id: Seq<char>)
    requires
        w.creating == Set::<Seq<char>>::empty(),
        w.closing == Set::<Seq<char>>::empty(),
    ensures
        claim_refusal(w, f, path) is None,
        target_refusal(w, f, path) is None,
        mutation_refusal(w, f, id, path) is None,
{
    nothing_clashes(w, f, path, false, w.data.projects.len());
    nothing_clashes(w, f, path, true, w.data.projects.len());
    if let Some(p) = ws_project(w, id) {
        nothing_clashes(w, f, p.path, true, w.data.projects.len());
    }
}

proof fn nothing_clashes(
    w: WorkspaceView,
    f: PathFactsView,
    path: Seq<char>,
    both: bool,
    n: nat,
)
    requires
        w.creating == Set::<Seq<char>>::empty(),
        w.closing == Set::<Seq<char>>::empty(),
    ensures
        first_clash(w, f, path, both, n) is None,
    decreases n,
{
    if n > 0 && n <= w.data.projects.len() {
        nothing_clashes(w, f, path, both, (n - 1) as nat);
    }
}

/// While a checkout is being made or removed, no project may be put inside it
/// and no other checkout may be made there.
pub proof fn leases_hold(w: WorkspaceView, f: PathFactsView, path: Seq<char>, i: int)
    requires
        0 <= i < w.data.projects.len(),
        busy(w, w.data.projects[i].id),
        inside(f, path, checkout_path(w.data.projects[i])),
    ensures
        claim_refusal(w, f, path) is Some,
        target_refusal(w, f, path) is Some,
{
    clash_is_found(w, f, path, false, i, w.data.projects.len());
    clash_is_found(w, f, path, true, i, w.data.projects.len());
}

proof fn clash_is_found(
    w: WorkspaceView,
    f: PathFactsView,
    path: Seq<char>,
    both: bool,
    i: int,
    n: nat,
)
    requires
        0 <= i < n <= w.data.projects.len(),
        busy(w, w.data.projects[i].id),
        clashing(f, path, checkout_path(w.data.projects[i]), both),
    ensures
        first_clash(w, f, path, both, n) is Some,
    decreases n,
{
    if i < n - 1 {
        clash_is_found(w, f, path, both, i, (n - 1) as nat);
    }
}

} // verus!
