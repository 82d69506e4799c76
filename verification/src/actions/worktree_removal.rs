//! Removing worktree projects and their checkouts.
//!
//! Git and the hooks are the host's: what it learned comes in as plain values,
//! and what it is to do goes out as a plan.

use crate::actions::project_rows::{delete_asked, deleted, focus_after_delete};
use crate::actions::soft_close::{pending_here, project_drained};
use crate::claims::{
    PathFacts, PathFactsView, Resolution, ResolutionView, closing_begun, coinciding, inside,
    occupancy_refusal,
};
use crate::collections::{keys_of, list_extend, values_of};
use crate::focus::FocusManager;
use crate::layout_terminals::structure_of;
use crate::sorted::{sort_once, sorted_once};
use crate::state::{
    HooksConfig, ProjectData, ProjectView, collect_layout_ids, find_project, layout_ids,
    project_views_update,
};
use crate::text::{copy_opt, opt_text, outcome_of, refusal_of, texts};
use crate::workspace::{
    HookKind, HookRequest, HookRequestView, Workspace, WorkspaceCx, WorkspaceView, announced,
    asked, changed, folder_id_of, folder_name_of, folder_of, hook_views, parent_path, ws_project,
    ws_with_project,
};
use vstd::prelude::*;

verus! {

/// What is known of uncommitted changes in a checkout.
#[derive(Clone, Copy, Debug, PartialEq, Eq, Structural)]
pub enum DirtyCheck {
    /// Whether there are any.
    Known(bool),
    /// It is no repository.
    NotRepo,
    /// It could not be read.
    Unknown,
}

/// A worktree removal that has been checked and not yet made. It holds what is
/// needed once the checkout is gone.
#[derive(Debug)]
pub struct WorktreeRemovalPlan {
    pub project_id: String,
    /// The checkout to remove; the project may lie below it.
    pub worktree_path: String,
    pub main_repo_path: String,
    /// Whether git no longer tracks the checkout.
    orphaned: bool,
    branch: String,
    project_hooks: HooksConfig,
    project_name: String,
    project_path: String,
    folder_id: Option<String>,
    folder_name: Option<String>,
}

/// What a [`WorktreeRemovalPlan`] stands for.
pub struct RemovalView {
    pub project_id: Seq<char>,
    pub worktree_path: Seq<char>,
    pub main_repo_path: Seq<char>,
    pub orphaned: bool,
    pub branch: Seq<char>,
    pub project_hooks: HooksConfig,
    pub project_name: Seq<char>,
    pub project_path: Seq<char>,
    pub folder_id: Option<Seq<char>>,
    pub folder_name: Option<Seq<char>>,
}

impl View for WorktreeRemovalPlan {
    type V = RemovalView;

    closed spec fn view(&self) -> RemovalView {
        RemovalView {
            project_id: self.project_id@,
            worktree_path: self.worktree_path@,
            main_repo_path: self.main_repo_path@,
            orphaned: self.orphaned,
            branch: self.branch@,
            project_hooks: self.project_hooks,
            project_name: self.project_name@,
            project_path: self.project_path@,
            folder_id: opt_text(self.folder_id),
            folder_name: opt_text(self.folder_name),
        }
    }
}

/// Whether a checkout counts as dirty when it is closed, or why that must not
/// be guessed.
pub open spec fn dirty_state(c: DirtyCheck) -> Result<bool, Seq<char>> {
    match c {
        DirtyCheck::Known(d) => Ok(d),
        DirtyCheck::NotRepo => Ok(false),
        DirtyCheck::Unknown => Err(
            "could not determine whether the worktree has uncommitted changes; refusing to close it"@,
        ),
    }
}

/// Why a checkout may not be removed.
pub open spec fn preflight_refusal(plan: RemovalView, force: bool, c: DirtyCheck) -> Option<
    Seq<char>,
> {
    if plan.orphaned || force {
        None
    } else {
        match c {
            DirtyCheck::Known(true) => Some(
                "worktree has uncommitted changes; pass force=true to remove it"@,
            ),
            DirtyCheck::Unknown => Some(
                "could not determine whether the worktree has uncommitted changes; refusing to remove it"@,
            ),
            _ => None,
        }
    }
}

/// Why the worktree `id` may not be removed, before anything else is looked at.
pub open spec fn entry_refusal(w: WorkspaceView, id: Seq<char>) -> Option<Seq<char>> {
    if w.creating.contains(id) {
        Some("worktree is still being created"@)
    } else {
        worktree_refusal(w, id)
    }
}

/// Why `id` is no worktree.
pub open spec fn worktree_refusal(w: WorkspaceView, id: Seq<char>) -> Option<Seq<char>> {
    match ws_project(w, id) {
        None => Some("Project not found"@),
        Some(p) => if p.worktree_info is None {
            Some("Not a worktree project"@)
        } else {
            None
        },
    }
}

/// Why nothing can be said of the checkout of `id`.
pub open spec fn lineage_refusal(w: WorkspaceView, id: Seq<char>) -> Option<Seq<char>> {
    match worktree_refusal(w, id) {
        Some(e) => Some(e),
        None => if ws_project(
            w,
            ws_project(w, id)->0.worktree_info->0.parent_project_id,
        ) is None {
            Some("Worktree parent project not found"@)
        } else {
            None
        },
    }
}

/// The root of the checkout of `id`, which git says is `checkout`; or why it is
/// not believed.
pub open spec fn verified_root(
    w: WorkspaceView,
    f: PathFactsView,
    id: Seq<char>,
    checkout: ResolutionView,
) -> Result<Seq<char>, Seq<char>> {
    match lineage_refusal(w, id) {
        Some(e) => Err(e),
        None => {
            let p = ws_project(w, id)->0;
            let recorded = p.worktree_info->0.worktree_path;
            match checkout {
                ResolutionView::Failed(e) => Err(e),
                ResolutionView::Path(root) => if recorded.len() > 0 && !coinciding(
                    f,
                    root,
                    recorded,
                ) {
                    Err("worktree path does not match its recorded checkout root"@)
                } else if !inside(f, p.path, root) {
                    Err(
                        if recorded.len() == 0 {
                            "project path is outside its linked worktree root"@
                        } else {
                            "worktree path does not match its recorded checkout root"@
                        },
                    )
                } else {
                    Ok(root)
                },
            }
        },
    }
}

/// The recorded root of the checkout of `id`, of which `checkout` says whether
/// git has lost track of it; or why it is not believed.
pub open spec fn orphaned_root(
    w: WorkspaceView,
    f: PathFactsView,
    id: Seq<char>,
    checkout: ResolutionView,
) -> Result<Seq<char>, Seq<char>> {
    match lineage_refusal(w, id) {
        Some(e) => Err(e),
        None => {
            let p = ws_project(w, id)->0;
            let recorded = p.worktree_info->0.worktree_path;
            let root = if recorded.len() == 0 {
                p.path
            } else {
                recorded
            };
            if !inside(f, p.path, root) {
                Err("project path is outside its recorded worktree root"@)
            } else {
                match checkout {
                    ResolutionView::Failed(e) => Err(e),
                    ResolutionView::Path(q) => Ok(q),
                }
            }
        },
    }
}

/// The plan to remove the checkout of `id` at `root`, or why another project
/// forbids it.
pub open spec fn removal_plan(
    w: WorkspaceView,
    f: PathFactsView,
    id: Seq<char>,
    root: Seq<char>,
    orphaned: bool,
    branch: Option<Seq<char>>,
) -> Result<RemovalView, Seq<char>> {
    match ws_project(w, id) {
        None => Err("Project not found"@),
        Some(p) => match occupancy_refusal(w, f, id, root) {
            Some(e) => Err(e),
            None => Ok(
                RemovalView {
                    project_id: id,
                    worktree_path: root,
                    main_repo_path: or_empty(parent_path(w.data.projects, id)),
                    orphaned,
                    branch: or_empty(branch),
                    project_hooks: p.hooks,
                    project_name: p.name,
                    project_path: p.path,
                    folder_id: folder_id_of(folder_of(w.data, id)),
                    folder_name: folder_name_of(folder_of(w.data, id)),
                },
            ),
        },
    }
}

/// The text, or none.
pub open spec fn or_empty(o: Option<Seq<char>>) -> Seq<char> {
    match o {
        Some(s) => s,
        None => Seq::empty(),
    }
}

/// The plan to remove the worktree `id`, or why it is refused. For an orphan
/// `checkout` says whether git has lost track of it, else what git has there.
pub open spec fn begun_removal(
    w: WorkspaceView,
    f: PathFactsView,
    id: Seq<char>,
    checkout: ResolutionView,
    orphaned: bool,
    branch: Option<Seq<char>>,
) -> Result<RemovalView, Seq<char>> {
    match entry_refusal(w, id) {
        Some(e) => Err(e),
        None => {
            let root = if orphaned {
                orphaned_root(w, f, id, checkout)
            } else {
                verified_root(w, f, id, checkout)
            };
            match root {
                Err(e) => Err(e),
                Ok(r) => removal_plan(w, f, id, r, orphaned, branch),
            }
        },
    }
}

/// A hook of a worktree that is being removed.
pub open spec fn removal_hook(
    kind: HookKind,
    plan: RemovalView,
    path: Seq<char>,
    branch: Option<Seq<char>>,
    main_repo_path: Option<Seq<char>>,
    global: HooksConfig,
) -> HookRequestView {
    HookRequestView {
        kind,
        project_hooks: plan.project_hooks,
        global_hooks: global,
        project_id: plan.project_id,
        project_name: plan.project_name,
        project_path: path,
        branch,
        target_branch: None,
        main_repo_path,
        error: None,
        folder_id: plan.folder_id,
        folder_name: plan.folder_name,
    }
}

/// The hooks that run while the checkout is still there.
pub open spec fn close_hooks(plan: RemovalView, global: HooksConfig) -> Seq<HookRequestView> {
    seq![
        removal_hook(
            HookKind::WorktreeClose,
            plan,
            plan.project_path,
            Some(plan.branch),
            None,
            global,
        ),
        removal_hook(HookKind::ProjectClose, plan, plan.project_path, None, None, global),
    ]
}

/// The hook that runs once the checkout is gone, from its repository.
pub open spec fn removed_hook(plan: RemovalView, global: HooksConfig) -> HookRequestView {
    removal_hook(
        HookKind::WorktreeRemoved,
        plan,
        plan.main_repo_path,
        Some(plan.branch),
        Some(plan.main_repo_path),
        global,
    )
}

/// The terminals of `id` that are stopped before its checkout is removed.
pub open spec fn stopped_terminals(w: WorkspaceView, id: Seq<char>) -> Seq<Seq<char>> {
    let p = ws_project(w, id)->0;
    sorted_once(
        layout_ids(p) + keys_of(p.hook_terminals) + values_of(p.service_terminals) + pending_here(
            w.pending_closes,
            id,
        ),
    )
}

/// `w` once the terminals of `id` are stopped and its removal has begun.
pub open spec fn removal_prepared(w: WorkspaceView, id: Seq<char>) -> WorkspaceView {
    let p = ws_project(w, id)->0;
    let emptied = ws_with_project(
        w,
        id,
        ProjectView {
            layout: match p.layout {
                Some(l) => Some(structure_of(l)),
                None => None,
            },
            ..p
        },
    );
    let marked = closing_begun(project_drained(emptied, id), id);
    changed(marked, marked.data)
}

/// Whether a checkout counts as dirty when it is closed. What could not be read
/// is refused, for a dirty checkout is removed by force.
pub fn close_dirty_state(check: DirtyCheck) -> (r: Result<bool, String>)
    ensures
        match r {
            Ok(d) => dirty_state(check) == Ok::<bool, Seq<char>>(d),
            Err(e) => dirty_state(check) == Err::<bool, Seq<char>>(e@),
        },
{
    match check {
        DirtyCheck::Known(d) => Ok(d),
        DirtyCheck::NotRepo => Ok(false),
        DirtyCheck::Unknown => Err(
            "could not determine whether the worktree has uncommitted changes; refusing to close it".to_owned(),
        ),
    }
}

/// The text, or none.
fn text_or_empty(o: Option<String>) -> (r: String)
    ensures
        r@ == or_empty(opt_text(o)),
{
    match o {
        Some(s) => s,
        None => {
            let r = String::new();
            proof {
                assert(r@ =~= Seq::<char>::empty());
            }
            r
        },
    }
}

impl WorktreeRemovalPlan {
    /// The checkout to remove.
    pub fn worktree_path(&self) -> (r: &str)
        ensures
            r@ == self@.worktree_path,
    {
        self.worktree_path.as_str()
    }

    /// The branch that the checkout holds.
    pub fn branch(&self) -> (r: &str)
        ensures
            r@ == self@.branch,
    {
        self.branch.as_str()
    }

    /// Whether git no longer tracks the checkout.
    pub fn is_orphaned(&self) -> (r: bool)
        ensures
            r == self@.orphaned,
    {
        self.orphaned
    }

    /// Refuse what git would refuse, before anything is stopped.
    pub fn preflight_remove(&self, force: bool, check: DirtyCheck) -> (r: Result<(), String>)
        ensures
            refusal_of(r) == preflight_refusal(self@, force, check),
    {
        if self.orphaned || force {
            return Ok(());
        }
        match check {
            DirtyCheck::Known(true) => Err(
                "worktree has uncommitted changes; pass force=true to remove it".to_owned(),
            ),
            DirtyCheck::Unknown => Err(
                "could not determine whether the worktree has uncommitted changes; refusing to remove it".to_owned(),
            ),
            _ => Ok(()),
        }
    }

    fn hook(
        &self,
        kind: HookKind,
        path: &str,
        branch: Option<String>,
        main_repo_path: Option<String>,
        global_hooks: &HooksConfig,
    ) -> (r: HookRequest)
        ensures
            r@ == removal_hook(
                kind,
                self@,
                path@,
                opt_text(branch),
                opt_text(main_repo_path),
                *global_hooks,
            ),
    {
        HookRequest {
            kind,
            project_hooks: self.project_hooks.clone(),
            global_hooks: global_hooks.clone(),
            project_id: self.project_id.clone(),
            project_name: self.project_name.clone(),
            project_path: path.to_owned(),
            branch,
            target_branch: None,
            main_repo_path,
            error: None,
            folder_id: copy_opt(&self.folder_id),
            folder_name: copy_opt(&self.folder_name),
        }
    }

    /// The hook that runs before a dirty checkout is removed.
    pub fn on_dirty_close_hook(&self, global_hooks: &HooksConfig) -> (r: HookRequest)
        ensures
            r@ == removal_hook(
                HookKind::DirtyWorktreeClose,
                self@,
                self@.project_path,
                Some(self@.branch),
                None,
                *global_hooks,
            ),
    {
        self.hook(
            HookKind::DirtyWorktreeClose,
            self.project_path.as_str(),
            Some(self.branch.clone()),
            None,
            global_hooks,
        )
    }

    /// The hooks that run, in order, while the checkout is still there.
    pub fn close_hooks(&self, global_hooks: &HooksConfig) -> (r: Vec<HookRequest>)
        ensures
            hook_views(r@) == close_hooks(self@, *global_hooks),
    {
        let mut out: Vec<HookRequest> = Vec::new();
        out.push(
            self.hook(
                HookKind::WorktreeClose,
                self.project_path.as_str(),
                Some(self.branch.clone()),
                None,
                global_hooks,
            ),
        );
        out.push(
            self.hook(
                HookKind::ProjectClose,
                self.project_path.as_str(),
                None,
                None,
                global_hooks,
            ),
        );
        proof {
            assert(hook_views(out@) =~= close_hooks(self@, *global_hooks));
        }
        out
    }
}

/// Empty the terminal slots of the project.
fn empty_slots(p: &mut ProjectData)
    ensures
        final(p)@ == (ProjectView {
            layout: match old(p)@.layout {
                Some(l) => Some(structure_of(l)),
                None => None,
            },
            ..old(p)@
        }),
{
    let none: Vec<String> = Vec::new();
    proof {
        assert(texts(none@) =~= Seq::<Seq<char>>::empty());
    }
    if let Some(l) = &mut p.layout {
        l.clear_terminal_ids_except(&none);
    }
}

impl Workspace {
    /// Whether the worktree may be removed, before anything else is looked at:
    /// one that is still being made must not lose its row.
    fn ensure_worktree_removal_entry_allowed(&self, project_id: &str) -> (r: Result<(), String>)
        ensures
            refusal_of(r) == entry_refusal(self@, project_id@),
    {
        if self.creating.contains(project_id) {
            return Err("worktree is still being created".to_owned());
        }
        self.ensure_worktree(project_id)
    }

    /// Whether the project is a worktree.
    fn ensure_worktree(&self, project_id: &str) -> (r: Result<(), String>)
        ensures
            refusal_of(r) == worktree_refusal(self@, project_id@),
    {
        match self.project(project_id) {
            None => Err("Project not found".to_owned()),
            Some(p) => if p.worktree_info.is_none() {
                Err("Not a worktree project".to_owned())
            } else {
                Ok(())
            },
        }
    }

    /// Whether something can be said of the checkout of the project.
    fn ensure_lineage(&self, project_id: &str) -> (r: Result<(), String>)
        ensures
            refusal_of(r) == lineage_refusal(self@, project_id@),
    {
        if let Err(e) = self.ensure_worktree(project_id) {
            return Err(e);
        }
        if let Some(p) = self.project(project_id) {
            if let Some(wt) = &p.worktree_info {
                if self.project(wt.parent_project_id.as_str()).is_none() {
                    return Err("Worktree parent project not found".to_owned());
                }
            }
        }
        Ok(())
    }

    /// The root of the checkout of the project, which git says is `checkout`.
    pub fn verified_worktree(&self, f: &PathFacts, project_id: &str, checkout: &Resolution) -> (r:
        Result<String, String>)
        ensures
            outcome_of(r) == verified_root(self@, f@, project_id@, checkout@),
    {
        if let Err(e) = self.ensure_lineage(project_id) {
            return Err(e);
        }
        let root: &String = match checkout {
            Resolution::Failed(e) => {
                return Err(e.clone());
            },
            Resolution::Path(root) => root,
        };
        if let Some(p) = self.project(project_id) {
            if let Some(wt) = &p.worktree_info {
                let recorded = wt.worktree_path.as_str();
                if !recorded.is_empty() && !f.coincide(root.as_str(), recorded) {
                    return Err(
                        "worktree path does not match its recorded checkout root".to_owned(),
                    );
                }
                if !f.lies_within(p.path.as_str(), root.as_str()) {
                    return Err(
                        if recorded.is_empty() {
                            "project path is outside its linked worktree root".to_owned()
                        } else {
                            "worktree path does not match its recorded checkout root".to_owned()
                        },
                    );
                }
            }
        }
        Ok(root.clone())
    }

    /// The recorded root of the checkout of the project. The file system is
    /// never searched for it: a wrong record must not lead to a neighbour.
    pub fn orphaned_worktree(&self, f: &PathFacts, project_id: &str, checkout: &Resolution) -> (r:
        Result<String, String>)
        ensures
            outcome_of(r) == orphaned_root(self@, f@, project_id@, checkout@),
    {
        if let Err(e) = self.ensure_lineage(project_id) {
            return Err(e);
        }
        if let Some(p) = self.project(project_id) {
            if let Some(wt) = &p.worktree_info {
                let root = if wt.worktree_path.as_str().is_empty() {
                    p.path.as_str()
                } else {
                    wt.worktree_path.as_str()
                };
                if !f.lies_within(p.path.as_str(), root) {
                    return Err("project path is outside its recorded worktree root".to_owned());
                }
            }
        }
        match checkout {
            Resolution::Failed(e) => Err(e.clone()),
            Resolution::Path(q) => Ok(q.clone()),
        }
    }

    /// Whether the checkout of the project is there but git has lost track of
    /// it.
    pub fn worktree_is_orphaned(&self, f: &PathFacts, project_id: &str, checkout: &Resolution) -> (r:
        bool)
        ensures
            r == (orphaned_root(self@, f@, project_id@, checkout@) is Ok),
    {
        self.orphaned_worktree(f, project_id, checkout).is_ok()
    }

    /// Whether removing the checkout would take no other project's directory.
    pub fn ensure_worktree_removal_claim_allowed(
        &self,
        f: &PathFacts,
        project_id: &str,
        checkout: &Resolution,
    ) -> (r: Result<(), String>)
        ensures
            refusal_of(r) == match verified_root(self@, f@, project_id@, checkout@) {
                Err(e) => Some(e),
                Ok(root) => occupancy_refusal(self@, f@, project_id@, root),
            },
    {
        match self.verified_worktree(f, project_id, checkout) {
            Ok(root) => self.ensure_worktree_root_exclusively_owned(f, project_id, root.as_str()),
            Err(e) => Err(e),
        }
    }

    /// The plan to remove the checkout at `root`.
    fn plan_worktree_removal(
        &self,
        f: &PathFacts,
        project_id: &str,
        root: String,
        orphaned: bool,
        branch: &Option<String>,
    ) -> (r: Result<WorktreeRemovalPlan, String>)
        ensures
            match r {
                Ok(p) => removal_plan(
                    self@,
                    f@,
                    project_id@,
                    root@,
                    orphaned,
                    opt_text(*branch),
                ) == Ok::<RemovalView, Seq<char>>(p@),
                Err(e) => removal_plan(
                    self@,
                    f@,
                    project_id@,
                    root@,
                    orphaned,
                    opt_text(*branch),
                ) == Err::<RemovalView, Seq<char>>(e@),
            },
    {
        let p = match self.project(project_id) {
            Some(p) => p,
            None => {
                return Err("Project not found".to_owned());
            },
        };
        if let Err(e) = self.ensure_worktree_root_exclusively_owned(f, project_id, root.as_str()) {
            return Err(e);
        }
        let (folder_id, folder_name): (Option<String>, Option<String>) =
            match self.folder_for_project_or_parent(project_id) {
            Some(x) => (Some(x.id.clone()), Some(x.name.clone())),
            None => (None, None),
        };
        Ok(
            WorktreeRemovalPlan {
                project_id: project_id.to_owned(),
                worktree_path: root,
                main_repo_path: text_or_empty(self.worktree_parent_path(project_id)),
                orphaned,
                branch: text_or_empty(copy_opt(branch)),
                project_hooks: p.hooks.clone(),
                project_name: p.name.clone(),
                project_path: p.path.clone(),
                folder_id,
                folder_name,
            },
        )
    }

    /// Check the removal of a worktree and note what it needs. `checkout` is
    /// what git has at its place, and `branch` the branch there.
    pub fn begin_worktree_removal(
        &self,
        f: &PathFacts,
        project_id: &str,
        checkout: &Resolution,
        branch: &Option<String>,
    ) -> (r: Result<WorktreeRemovalPlan, String>)
        ensures
            match r {
                Ok(p) => begun_removal(
                    self@,
                    f@,
                    project_id@,
                    checkout@,
                    false,
                    opt_text(*branch),
                ) == Ok::<RemovalView, Seq<char>>(p@),
                Err(e) => begun_removal(
                    self@,
                    f@,
                    project_id@,
                    checkout@,
                    false,
                    opt_text(*branch),
                ) == Err::<RemovalView, Seq<char>>(e@),
            },
    {
        if let Err(e) = self.ensure_worktree_removal_entry_allowed(project_id) {
            return Err(e);
        }
        match self.verified_worktree(f, project_id, checkout) {
            Ok(root) => self.plan_worktree_removal(f, project_id, root, false, branch),
            Err(e) => Err(e),
        }
    }

    /// Check the removal of a worktree that git has lost track of, and note
    /// what it needs.
    pub fn begin_orphaned_worktree_removal(
        &self,
        f: &PathFacts,
        project_id: &str,
        checkout: &Resolution,
        branch: &Option<String>,
    ) -> (r: Result<WorktreeRemovalPlan, String>)
        ensures
            match r {
                Ok(p) => begun_removal(
                    self@,
                    f@,
                    project_id@,
                    checkout@,
                    true,
                    opt_text(*branch),
                ) == Ok::<RemovalView, Seq<char>>(p@),
                Err(e) => begun_removal(
                    self@,
                    f@,
                    project_id@,
                    checkout@,
                    true,
                    opt_text(*branch),
                ) == Err::<RemovalView, Seq<char>>(e@),
            },
    {
        if let Err(e) = self.ensure_worktree_removal_entry_allowed(project_id) {
            return Err(e);
        }
        match self.orphaned_worktree(f, project_id, checkout) {
            Ok(root) => self.plan_worktree_removal(f, project_id, root, true, branch),
            Err(e) => Err(e),
        }
    }

    /// Begin a removal: the row stays, and its terminals are stopped so that
    /// none of them keeps the checkout busy. Returns them, in order.
    pub fn prepare_background_worktree_removal(&mut self, project_id: &str, cx: &mut WorkspaceCx) -> (r:
        Result<Vec<String>, String>)
        ensures
            match r {
                Ok(ids) => {
                    &&& entry_refusal(old(self)@, project_id@) is None
                    &&& texts(ids@) == stopped_terminals(old(self)@, project_id@)
                    &&& final(self)@ == removal_prepared(old(self)@, project_id@)
                    &&& final(cx)@ == announced(old(cx)@)
                },
                Err(e) => {
                    &&& entry_refusal(old(self)@, project_id@) == Some(e@)
                    &&& final(self)@ == old(self)@
                    &&& final(cx)@ == old(cx)@
                },
            },
    {
        if let Err(e) = self.ensure_worktree_removal_entry_allowed(project_id) {
            return Err(e);
        }
        let mut ids: Vec<String> = Vec::new();
        if let Some(i) = find_project(&self.data.projects, project_id) {
            let p = &self.data.projects[i];
            let hooks = p.hook_terminals.keys();
            let services = p.service_terminals.values();
            ids = collect_layout_ids(p);
            list_extend(&mut ids, &hooks);
            list_extend(&mut ids, &services);
            let ghost before = self.data.projects@;
            empty_slots(&mut self.data.projects[i]);
            proof {
                let new = self.data.projects@[i as int];
                assert(self.data.projects@ =~= before.update(i as int, new));
                project_views_update(before, i as int, new);
            }
        }
        let closed = self.drain_pending_closes_for_project(project_id);
        list_extend(&mut ids, &closed);
        let ids = sort_once(&ids);
        self.mark_closing_project_authoritative(project_id);
        self.notify_data(cx);
        Ok(ids)
    }

    /// Take over a removal that has been made: the project goes, and the
    /// removed hook is asked for.
    pub fn finish_worktree_removal(
        &mut self,
        focus_manager: &mut FocusManager,
        plan: &WorktreeRemovalPlan,
        global_hooks: &HooksConfig,
        cx: &mut WorkspaceCx,
    )
        ensures
            final(self)@ == deleted(old(self)@, plan@.project_id),
            final(focus_manager)@ == focus_after_delete(
                old(focus_manager)@,
                plan@.project_id,
            ),
            final(cx)@ == asked(
                delete_asked(old(self)@, old(cx)@, plan@.project_id, None),
                removed_hook(plan@, *global_hooks),
            ),
    {
        self.delete_project_without_project_close(focus_manager, plan.project_id.as_str(), cx);
        self.fire_worktree_removed_hook(plan, global_hooks, cx);
    }

    /// Ask for the hook that runs once the checkout is gone.
    pub fn fire_worktree_removed_hook(
        &self,
        plan: &WorktreeRemovalPlan,
        global_hooks: &HooksConfig,
        cx: &mut WorkspaceCx,
    )
        ensures
            final(cx)@ == asked(old(cx)@, removed_hook(plan@, *global_hooks)),
    {
        cx.request_hook(
            plan.hook(
                HookKind::WorktreeRemoved,
                plan.main_repo_path.as_str(),
                Some(plan.branch.clone()),
                Some(plan.main_repo_path.clone()),
                global_hooks,
            ),
        );
    }
}

/// A checkout that holds another project is never removed, whether git tracks
/// it or not.
pub proof fn removals_spare_other_projects(
    w: WorkspaceView,
    f: PathFactsView,
    id: Seq<char>,
    checkout: ResolutionView,
    orphaned: bool,
    branch: Option<Seq<char>>,
    i: int,
)
    requires
        0 <= i < w.data.projects.len(),
        w.data.projects[i].id != id,
        begun_removal(w, f, id, checkout, orphaned, branch) is Ok,
    ensures
        !inside(
            f,
            w.data.projects[i].path,
            begun_removal(w, f, id, checkout, orphaned, branch)->Ok_0.worktree_path,
        ),
{
    let root = begun_removal(w, f, id, checkout, orphaned, branch)->Ok_0.worktree_path;
    if inside(f, w.data.projects[i].path, root) {
        occupant_is_found(w.data.projects, f, id, root, i, w.data.projects.len());
    }
}

proof fn occupant_is_found(
    ps: Seq<ProjectView>,
    f: PathFactsView,
    id: Seq<char>,
    root: Seq<char>,
    i: int,
    n: nat,
)
    requires
        0 <= i < n <= ps.len(),
        ps[i].id != id,
        inside(f, ps[i].path, root),
    ensures
        crate::claims::first_occupant(ps, f, id, root, n) is Some,
    decreases n,
{
    if i < n - 1 {
        occupant_is_found(ps, f, id, root, i, (n - 1) as nat);
    }
}

/// A worktree that is still being made is never removed.
pub proof fn creations_are_never_removed(
    w: WorkspaceView,
    f: PathFactsView,
    id: Seq<char>,
    checkout: ResolutionView,
    orphaned: bool,
    branch: Option<Seq<char>>,
)
    requires
        w.creating.contains(id),
    ensures
        begun_removal(w, f, id, checkout, orphaned, branch) == Err::<RemovalView, Seq<char>>(
            "worktree is still being created"@,
        ),
{
}

} // verus!
