//! Bringing loaded data back into a consistent state.

use crate::collections::{
    Duplicate, IdMap, keys_of, list_contains, list_extend, list_position, list_sift, position,
    sifted, sifted_keys,
};
use crate::layout::{normalized, opt_terminal_ids};
use crate::layout_terminals::{TerminalEditView, edited};
use crate::rows::{
    folders_sifted, list_folder_ids, list_project_ids, sift_folders,
};
use crate::state::{
    DataView, FolderData, FolderView, HookTerminalEntry, HookTerminalStatus, HookTerminalView,
    ProjectData, ProjectView, WorkspaceData, collect_layout_ids, folder_ids, folder_views,
    project_ids, project_views,
};
use crate::text::{copy_all, same, texts};
use crate::windows::{WindowEdit, WindowEditView, edited_windows};
use crate::wsl::{WslFacts, WslView, detected_shell, outlives};
use vstd::prelude::*;

verus! {

/// A hook terminal whose process cannot have survived.
pub open spec fn ended_entry(e: HookTerminalView) -> HookTerminalView {
    HookTerminalView {
        status: if e.status == HookTerminalStatus::Running {
            HookTerminalStatus::Succeeded
        } else {
            e.status
        },
        ..e
    }
}

/// Hook terminals whose processes cannot have survived.
pub open spec fn ended_entries(s: Seq<(Seq<char>, HookTerminalView)>) -> Seq<
    (Seq<char>, HookTerminalView),
> {
    Seq::new(s.len(), |i: int| (s[i].0, ended_entry(s[i].1)))
}

/// A project whose terminals did not survive: only the hook terminals keep
/// their slots, and none of them runs any more.
pub open spec fn detached_project(p: ProjectView) -> ProjectView {
    ProjectView {
        layout: match p.layout {
            Some(l) => Some(edited(l, TerminalEditView::ClearExcept(keys_of(p.hook_terminals)))),
            None => None,
        },
        service_terminals: Seq::empty(),
        hook_terminals: ended_entries(p.hook_terminals),
        ..p
    }
}

/// A project with its layout in normal form and nothing remembered of terminals
/// that are not in it.
pub open spec fn tidy_project(p: ProjectView) -> ProjectView {
    let layout = match p.layout {
        Some(l) => Some(normalized(l)),
        None => None,
    };
    ProjectView {
        layout,
        terminal_names: sifted_keys(p.terminal_names, opt_terminal_ids(layout), true),
        hidden_terminals: sifted_keys(p.hidden_terminals, opt_terminal_ids(layout), true),
        ..p
    }
}

/// A project with the default shell that its path gives it, where it has none.
pub open spec fn shelled_project(p: ProjectView, wsl: WslView) -> ProjectView {
    ProjectView { default_shell: detected_shell(wsl, p.default_shell, p.path), ..p }
}

/// What loading makes of a project by itself. With `clear` its terminals did not
/// survive, unless its distribution keeps sessions alive.
pub open spec fn loaded_project(p: ProjectView, clear: bool, wsl: WslView) -> ProjectView {
    let q = shelled_project(p, wsl);
    tidy_project(
        if clear && !outlives(wsl, q.default_shell) {
            detached_project(q)
        } else {
            q
        },
    )
}

/// What loading makes of each project by itself.
pub open spec fn loaded_projects(ps: Seq<ProjectView>, clear: bool, wsl: WslView) -> Seq<
    ProjectView,
> {
    Seq::new(ps.len(), |i: int| loaded_project(ps[i], clear, wsl))
}

/// Where `id` stands in `order`; at the end where it is not there.
pub open spec fn rank(order: Seq<Seq<char>>, id: Seq<char>) -> nat {
    match position(order, id) {
        Some(i) => i as nat,
        None => order.len(),
    }
}

/// `s`, ordered by rank, with `id` put behind everything of its rank or less.
pub open spec fn ranked_insert(
    s: Seq<Seq<char>>,
    id: Seq<char>,
    order: Seq<Seq<char>>,
) -> Seq<Seq<char>>
    decreases s.len(),
{
    if s.len() == 0 || rank(order, s.last()) <= rank(order, id) {
        s.push(id)
    } else {
        ranked_insert(s.drop_last(), id, order).push(s.last())
    }
}

/// `s` ordered by rank; ids of the same rank keep their order.
pub open spec fn ranked(s: Seq<Seq<char>>, order: Seq<Seq<char>>) -> Seq<Seq<char>>
    decreases s.len(),
{
    if s.len() == 0 {
        s
    } else {
        ranked_insert(ranked(s.drop_last(), order), s.last(), order)
    }
}

/// The worktrees among `ps` that name `id` as their parent, in order.
pub open spec fn named_children(ps: Seq<ProjectView>, id: Seq<char>) -> Seq<Seq<char>>
    decreases ps.len(),
{
    if ps.len() == 0 {
        Seq::empty()
    } else if ps.last().worktree_info is Some && (ps.last().worktree_info->0).parent_project_id
        == id {
        named_children(ps.drop_last(), id).push(ps.last().id)
    } else {
        named_children(ps.drop_last(), id)
    }
}

/// Whether a project before position `i` is called as the one there and lists
/// no children either.
pub open spec fn claimed_before(ps: Seq<ProjectView>, i: int) -> bool {
    exists|j: int| 0 <= j < i && #[trigger] ps[j].id == ps[i].id && ps[j].worktree_ids.len() == 0
}

/// The project at `i` with its children listed: those it lists itself, or else
/// those that name it as their parent, ordered as `order` has them.
pub open spec fn adopting(ps: Seq<ProjectView>, order: Seq<Seq<char>>, i: int) -> ProjectView {
    if ps[i].worktree_ids.len() == 0 && !claimed_before(ps, i) {
        ProjectView { worktree_ids: ranked(named_children(ps, ps[i].id), order), ..ps[i] }
    } else {
        ps[i]
    }
}

/// `ps` with their children listed.
pub open spec fn with_children_listed(ps: Seq<ProjectView>, order: Seq<Seq<char>>) -> Seq<
    ProjectView,
> {
    Seq::new(ps.len(), |i: int| adopting(ps, order, i))
}

/// The children that `ps` list.
pub open spec fn listed_children(ps: Seq<ProjectView>) -> Seq<Seq<char>>
    decreases ps.len(),
{
    if ps.len() == 0 {
        Seq::empty()
    } else {
        listed_children(ps.drop_last()) + ps.last().worktree_ids
    }
}

/// The projects that `fs` hold.
pub open spec fn held_projects(fs: Seq<FolderView>) -> Seq<Seq<char>>
    decreases fs.len(),
{
    if fs.len() == 0 {
        Seq::empty()
    } else {
        held_projects(fs.drop_last()) + fs.last().project_ids
    }
}

/// `order` with each of the first `n` of `ids` added that is neither in it nor
/// `placed` elsewhere.
pub open spec fn completed(
    order: Seq<Seq<char>>,
    ids: Seq<Seq<char>>,
    placed: Seq<Seq<char>>,
    n: nat,
) -> Seq<Seq<char>>
    decreases n,
{
    if n == 0 || n > ids.len() {
        order
    } else {
        let before = completed(order, ids, placed, (n - 1) as nat);
        if before.contains(ids[n - 1]) || placed.contains(ids[n - 1]) {
            before
        } else {
            before.push(ids[n - 1])
        }
    }
}

/// What loading makes of the data: every project is tidied, every worktree is
/// listed by its parent and nowhere else, every other project is in a folder or
/// in the order, and nothing refers to what is not there.
pub open spec fn validated(d: DataView, clear: bool, wsl: WslView) -> DataView {
    let ps = with_children_listed(loaded_projects(d.projects, clear, wsl), d.project_order);
    let children = listed_children(ps);
    let pids = project_ids(ps);
    let fids = folder_ids(d.folders);
    let order = sifted(d.project_order, children, false);
    let folders = folders_sifted(d.folders, children, false);
    let full = completed(order, pids, held_projects(folders) + children, pids.len());
    edited_windows(
        DataView {
            projects: ps,
            project_order: sifted(full, pids + fids, true),
            folders: folders_sifted(folders, pids, true),
            ..d
        },
        WindowEditView::KeepOnly(pids, fids),
    )
}

/// End every hook terminal that still counts as running.
fn end_hook_terminals(m: &mut IdMap<HookTerminalEntry>)
    ensures
        final(m)@ == ended_entries(old(m)@),
{
    let ghost start = m@;
    let mut i: usize = 0;
    while i < m.len()
        invariant
            i <= m@.len(),
            m@.len() == start.len(),
            forall|j: int| 0 <= j < i ==> #[trigger] m@[j] == (start[j].0, ended_entry(start[j].1)),
            forall|j: int| i <= j < start.len() ==> m@[j] == start[j],
        decreases m@.len() - i,
    {
        let mut e = m.value_at(i).duplicate();
        if e.status == HookTerminalStatus::Running {
            e.status = HookTerminalStatus::Succeeded;
        }
        m.set_value_at(i, e);
        i = i + 1;
    }
    proof {
        assert(m@ =~= ended_entries(start));
    }
}

/// What loading makes of a project by itself.
fn load_project(p: &mut ProjectData, clear: bool, wsl: &WslFacts)
    ensures
        final(p)@ == loaded_project(old(p)@, clear, wsl@),
{
    if p.default_shell.is_none() {
        p.default_shell = wsl.shell(p.path.as_str());
    }
    if clear && !wsl.keeps(&p.default_shell) {
        let hooks = p.hook_terminals.keys();
        if let Some(l) = &mut p.layout {
            l.clear_terminal_ids_except(&hooks);
        }
        p.service_terminals = IdMap::new();
        end_hook_terminals(&mut p.hook_terminals);
    }
    if let Some(l) = &mut p.layout {
        l.normalize();
    }
    let ids = collect_layout_ids(p);
    p.terminal_names.sift(&ids, true);
    p.hidden_terminals.sift(&ids, true);
}

fn load_projects(projects: &mut Vec<ProjectData>, clear: bool, wsl: &WslFacts)
    ensures
        project_views(final(projects)@) == loaded_projects(
            project_views(old(projects)@),
            clear,
            wsl@,
        ),
{
    let ghost start = projects@;
    let mut i: usize = 0;
    while i < projects.len()
        invariant
            i <= projects@.len(),
            projects@.len() == start.len(),
            forall|j: int|
                0 <= j < i ==> (#[trigger] projects@[j])@ == loaded_project(
                    start[j]@,
                    clear,
                    wsl@,
                ),
            forall|j: int| i <= j < start.len() ==> projects@[j] == start[j],
        decreases projects@.len() - i,
    {
        load_project(&mut projects[i], clear, wsl);
        i = i + 1;
    }
    proof {
        assert(project_views(projects@) =~= loaded_projects(project_views(start), clear, wsl@));
    }
}

/// Where `id` stands in `order`; at the end where it is not there.
fn rank_of(order: &Vec<String>, id: &str) -> (r: usize)
    ensures
        r == rank(texts(order@), id@),
{
    match list_position(order, id) {
        Some(i) => i,
        None => order.len(),
    }
}

/// Put `id` behind everything of its rank or less.
fn insert_ranked(s: &mut Vec<String>, id: String, order: &Vec<String>)
    ensures
        texts(final(s)@) == ranked_insert(texts(old(s)@), id@, texts(order@)),
{
    let r = rank_of(order, id.as_str());
    let ghost whole = texts(s@);
    let ghost ord = texts(order@);
    let mut n: usize = s.len();
    proof {
        assert(whole.take(n as int) =~= whole);
        assert(ranked_insert(whole.take(n as int), id@, ord) + whole.skip(n as int)
            =~= ranked_insert(whole, id@, ord));
    }
    while n > 0 && rank_of(order, s[n - 1].as_str()) > r
        invariant
            n <= s@.len(),
            whole == texts(s@),
            ord == texts(order@),
            r == rank(ord, id@),
            ranked_insert(whole.take(n as int), id@, ord) + whole.skip(n as int)
                == ranked_insert(whole, id@, ord),
        decreases n,
    {
        proof {
            let t = whole.take(n as int);
            assert(t.last() == s@[n - 1]@);
            assert(t.drop_last() =~= whole.take(n - 1));
            assert(ranked_insert(t.drop_last(), id@, ord) + whole.skip(n - 1) =~= ranked_insert(
                t,
                id@,
                ord,
            ) + whole.skip(n as int));
        }
        n = n - 1;
    }
    let ghost before = s@;
    s.insert(n, id);
    proof {
        if n > 0 {
            assert(whole.take(n as int).last() == before[n - 1]@);
        }
        assert(ranked_insert(whole.take(n as int), id@, ord) == whole.take(n as int).push(id@));
        assert(texts(s@) =~= whole.take(n as int).push(id@) + whole.skip(n as int));
    }
}

/// The worktrees among `projects` that name `id` as their parent, ordered as
/// `order` has them.
fn ranked_children(projects: &Vec<ProjectData>, id: &str, order: &Vec<String>) -> (r: Vec<String>)
    ensures
        texts(r@) == ranked(named_children(project_views(projects@), id@), texts(order@)),
{
    let mut out: Vec<String> = Vec::new();
    let ghost ps = project_views(projects@);
    let ghost ord = texts(order@);
    let mut i: usize = 0;
    proof {
        assert(ps.take(0) =~= Seq::<ProjectView>::empty());
        assert(texts(out@) =~= ranked(Seq::<Seq<char>>::empty(), ord));
    }
    while i < projects.len()
        invariant
            i <= projects@.len(),
            ps == project_views(projects@),
            ord == texts(order@),
            texts(out@) == ranked(named_children(ps.take(i as int), id@), ord),
        decreases projects@.len() - i,
    {
        proof {
            assert(ps.take(i + 1).drop_last() =~= ps.take(i as int));
            assert(ps.take(i + 1).last() == projects@[i as int]@);
        }
        let named = match &projects[i].worktree_info {
            Some(wt) => same(wt.parent_project_id.as_str(), id),
            None => false,
        };
        if named {
            proof {
                let c = named_children(ps.take(i as int), id@);
                assert(c.push(projects@[i as int].id@).drop_last() =~= c);
            }
            insert_ranked(&mut out, projects[i].id.clone(), order);
        }
        i = i + 1;
    }
    proof {
        assert(ps.take(i as int) =~= ps);
    }
    out
}

/// Whether a project before position `i` is called as the one there and lists
/// no children either.
fn is_claimed_before(projects: &Vec<ProjectData>, i: usize) -> (r: bool)
    requires
        i < projects@.len(),
    ensures
        r == claimed_before(project_views(projects@), i as int),
{
    let ghost ps = project_views(projects@);
    let mut j: usize = 0;
    while j < i
        invariant
            j <= i < projects@.len(),
            ps == project_views(projects@),
            forall|k: int|
                0 <= k < j ==> !(#[trigger] ps[k].id == ps[i as int].id && ps[k].worktree_ids.len()
                    == 0),
        decreases i - j,
    {
        proof {
            assert(ps[j as int].worktree_ids.len() == projects@[j as int].worktree_ids@.len());
        }
        if same(projects[j].id.as_str(), projects[i].id.as_str())
            && projects[j].worktree_ids.len() == 0 {
            proof {
                assert(ps[j as int].id == ps[i as int].id);
            }
            return true;
        }
        j = j + 1;
    }
    false
}

/// The children that the project at `i` is to list.
fn children_to_list(projects: &Vec<ProjectData>, order: &Vec<String>, i: usize) -> (r: Vec<String>)
    requires
        i < projects@.len(),
    ensures
        texts(r@) == adopting(project_views(projects@), texts(order@), i as int).worktree_ids,
{
    proof {
        assert(project_views(projects@)[i as int].worktree_ids.len()
            == projects@[i as int].worktree_ids@.len());
    }
    if projects[i].worktree_ids.len() == 0 && !is_claimed_before(projects, i) {
        ranked_children(projects, projects[i].id.as_str(), order)
    } else {
        copy_all(&projects[i].worktree_ids)
    }
}

/// Let every project list its children.
fn list_children(projects: &mut Vec<ProjectData>, order: &Vec<String>)
    ensures
        project_views(final(projects)@) == with_children_listed(
            project_views(old(projects)@),
            texts(order@),
        ),
{
    let ghost start = projects@;
    let ghost ps = project_views(start);
    let mut lists: Vec<Vec<String>> = Vec::new();
    let mut i: usize = 0;
    while i < projects.len()
        invariant
            i <= projects@.len(),
            projects@ == start,
            ps == project_views(start),
            lists@.len() == i,
            forall|j: int|
                0 <= j < i ==> texts((#[trigger] lists@[j])@) == adopting(
                    ps,
                    texts(order@),
                    j,
                ).worktree_ids,
        decreases projects@.len() - i,
    {
        lists.push(children_to_list(projects, order, i));
        i = i + 1;
    }
    let mut k: usize = 0;
    while k < projects.len()
        invariant
            k <= projects@.len(),
            projects@.len() == start.len(),
            lists@.len() == start.len(),
            ps == project_views(start),
            forall|j: int|
                0 <= j < start.len() ==> texts((#[trigger] lists@[j])@) == adopting(
                    ps,
                    texts(order@),
                    j,
                ).worktree_ids,
            forall|j: int|
                0 <= j < k ==> (#[trigger] projects@[j])@ == adopting(ps, texts(order@), j),
            forall|j: int| k <= j < start.len() ==> projects@[j] == start[j],
        decreases projects@.len() - k,
    {
        let l = copy_all(&lists[k]);
        proof {
            assert(texts(l@) == adopting(ps, texts(order@), k as int).worktree_ids);
            assert(ps[k as int] == start[k as int]@);
        }
        projects[k].worktree_ids = l;
        k = k + 1;
    }
    proof {
        assert(project_views(projects@) =~= with_children_listed(ps, texts(order@)));
    }
}

/// The children that `projects` list.
pub fn collect_children(projects: &Vec<ProjectData>) -> (r: Vec<String>)
    ensures
        texts(r@) == listed_children(project_views(projects@)),
{
    let mut out: Vec<String> = Vec::new();
    let ghost ps = project_views(projects@);
    let mut i: usize = 0;
    proof {
        assert(ps.take(0) =~= Seq::<ProjectView>::empty());
        assert(texts(out@) =~= Seq::<Seq<char>>::empty());
    }
    while i < projects.len()
        invariant
            i <= projects@.len(),
            ps == project_views(projects@),
            texts(out@) == listed_children(ps.take(i as int)),
        decreases projects@.len() - i,
    {
        proof {
            assert(ps.take(i + 1).drop_last() =~= ps.take(i as int));
            assert(ps.take(i + 1).last() == projects@[i as int]@);
        }
        list_extend(&mut out, &projects[i].worktree_ids);
        i = i + 1;
    }
    proof {
        assert(ps.take(i as int) =~= ps);
    }
    out
}

/// The projects that `folders` hold.
pub fn collect_held(folders: &Vec<FolderData>) -> (r: Vec<String>)
    ensures
        texts(r@) == held_projects(folder_views(folders@)),
{
    let mut out: Vec<String> = Vec::new();
    let ghost fs = folder_views(folders@);
    let mut i: usize = 0;
    proof {
        assert(fs.take(0) =~= Seq::<FolderView>::empty());
        assert(texts(out@) =~= Seq::<Seq<char>>::empty());
    }
    while i < folders.len()
        invariant
            i <= folders@.len(),
            fs == folder_views(folders@),
            texts(out@) == held_projects(fs.take(i as int)),
        decreases folders@.len() - i,
    {
        proof {
            assert(fs.take(i + 1).drop_last() =~= fs.take(i as int));
            assert(fs.take(i + 1).last() == folders@[i as int]@);
        }
        list_extend(&mut out, &folders[i].project_ids);
        i = i + 1;
    }
    proof {
        assert(fs.take(i as int) =~= fs);
    }
    out
}

/// Add to `order` each of `ids` that is neither in it nor `placed` elsewhere.
fn complete_order(order: &mut Vec<String>, ids: &Vec<String>, placed: &Vec<String>)
    ensures
        texts(final(order)@) == completed(
            texts(old(order)@),
            texts(ids@),
            texts(placed@),
            ids@.len(),
        ),
{
    let ghost start = texts(order@);
    let mut i: usize = 0;
    while i < ids.len()
        invariant
            i <= ids@.len(),
            texts(order@) == completed(start, texts(ids@), texts(placed@), i as nat),
        decreases ids@.len() - i,
    {
        proof {
            assert(texts(ids@)[i as int] == ids@[i as int]@);
        }
        if !list_contains(order, ids[i].as_str()) && !list_contains(placed, ids[i].as_str()) {
            let ghost before = order@;
            order.push(ids[i].clone());
            proof {
                assert(texts(order@) =~= texts(before).push(ids@[i as int]@));
            }
        }
        i = i + 1;
    }
}

/// Bring loaded data back into a consistent state. With `clear_terminal_ids`
/// no terminal but those of hooks keeps its slot: its process did not survive.
/// Only projects in a distribution that keeps sessions alive keep all.
pub fn validate_workspace_data(data: &mut WorkspaceData, clear_terminal_ids: bool, wsl: &WslFacts)
    ensures
        final(data)@ == validated(old(data)@, clear_terminal_ids, wsl@),
{
    load_projects(&mut data.projects, clear_terminal_ids, wsl);
    list_children(&mut data.projects, &data.project_order);
    let children = collect_children(&data.projects);
    list_sift(&mut data.project_order, &children, false);
    sift_folders(&mut data.folders, &children, false);
    let mut placed = collect_held(&data.folders);
    list_extend(&mut placed, &children);
    let pids = list_project_ids(&data.projects);
    let ghost before = data@;
    let fids = list_folder_ids(&data.folders);
    proof {
        assert(texts(fids@) =~= folder_ids(old(data)@.folders));
        assert(texts(pids@).len() == pids@.len());
    }
    complete_order(&mut data.project_order, &pids, &placed);
    sift_folders(&mut data.folders, &pids, true);
    let mut valid = copy_all(&pids);
    list_extend(&mut valid, &fids);
    list_sift(&mut data.project_order, &valid, true);
    data.edit_windows(&WindowEdit::KeepOnly(&pids, &fids));
}

} // verus!
