//! What holds of data once it has been validated.

use crate::collections::{contains_last, keys_of, lookup, sifted, sifted_keys, sifted_members};
use crate::layout::{
    LayoutView, SplitDirection, children_of, flat_children, normalized, normalized_in,
    normalized_in_index, opt_terminal_ids, pieces,
};
use crate::layout_laws::{normal_is_left_alone, normalizing_is_normal};
use crate::layout_terminals::{TerminalEditView, edited, edited_in, edited_in_index};
use crate::persistence::validate::{
    claimed_before, completed, detached_project, ended_entries, held_projects, listed_children,
    loaded_project, loaded_projects, named_children, ranked, ranked_insert, shelled_project,
    tidy_project, validated, with_children_listed,
};
use crate::rows::folders_sifted;
use crate::state::{DataView, FolderView, ProjectView, WindowView, folder_ids, project_ids};
use crate::windows::{WindowEditView, edited_extras, edited_window};
use crate::wsl::{WslView, outlives};
use vstd::prelude::*;

verus! {

proof fn concat_contains(a: Seq<Seq<char>>, b: Seq<Seq<char>>, x: Seq<char>)
    ensures
        (a + b).contains(x) <==> a.contains(x) || b.contains(x),
{
    if a.contains(x) {
        let i = choose|i: int| 0 <= i < a.len() && a[i] == x;
        assert((a + b)[i] == x);
    }
    if b.contains(x) {
        let i = choose|i: int| 0 <= i < b.len() && b[i] == x;
        assert((a + b)[a.len() + i] == x);
    }
    if (a + b).contains(x) {
        let i = choose|i: int| 0 <= i < (a + b).len() && (a + b)[i] == x;
        if i < a.len() {
            assert(a[i] == x);
        } else {
            assert(b[i - a.len()] == x);
        }
    }
}

proof fn push_contains(a: Seq<Seq<char>>, y: Seq<char>, x: Seq<char>)
    ensures
        a.push(y).contains(x) <==> a.contains(x) || x == y,
{
    contains_last(a.push(y));
    assert(a.push(y).drop_last() =~= a);
}

/// Every id is in the completed order or placed elsewhere, and what is added to
/// the order is placed nowhere else.
proof fn completed_members(
    order: Seq<Seq<char>>,
    ids: Seq<Seq<char>>,
    placed: Seq<Seq<char>>,
    n: nat,
)
    requires
        n <= ids.len(),
    ensures
        forall|i: int|
            0 <= i < n ==> completed(order, ids, placed, n).contains(#[trigger] ids[i])
                || placed.contains(ids[i]),
        forall|x: Seq<char>| #[trigger]
            completed(order, ids, placed, n).contains(x) ==> order.contains(x) || !placed.contains(
                x,
            ),
        forall|x: Seq<char>| #[trigger]
            order.contains(x) ==> completed(order, ids, placed, n).contains(x),
    decreases n,
{
    if n > 0 {
        completed_members(order, ids, placed, (n - 1) as nat);
        let before = completed(order, ids, placed, (n - 1) as nat);
        let y = ids[n - 1];
        if !(before.contains(y) || placed.contains(y)) {
            assert forall|x: Seq<char>| #[trigger]
                before.push(y).contains(x) <==> before.contains(x) || x == y by {
                push_contains(before, y, x);
            }
        }
    }
}

/// A list of folders holds what one of them holds.
proof fn held_projects_members(fs: Seq<FolderView>, x: Seq<char>)
    ensures
        held_projects(fs).contains(x) <==> exists|i: int|
            0 <= i < fs.len() && (#[trigger] fs[i]).project_ids.contains(x),
    decreases fs.len(),
{
    if fs.len() > 0 {
        let front = fs.drop_last();
        held_projects_members(front, x);
        concat_contains(held_projects(front), fs.last().project_ids, x);
        if held_projects(front).contains(x) {
            let i = choose|i: int| 0 <= i < front.len() && (#[trigger] front[i]).project_ids.contains(x);
            assert(fs[i].project_ids.contains(x));
        }
        if fs.last().project_ids.contains(x) {
            assert(fs[fs.len() - 1].project_ids.contains(x));
        }
        if exists|i: int| 0 <= i < fs.len() && (#[trigger] fs[i]).project_ids.contains(x) {
            let i = choose|i: int| 0 <= i < fs.len() && (#[trigger] fs[i]).project_ids.contains(x);
            if i < front.len() {
                assert(front[i].project_ids.contains(x));
            }
        }
    }
}

/// After validation the order holds only projects and folders that are there.
pub proof fn order_refers_to_what_is_there(d: DataView, clear: bool, wsl: WslView, x: Seq<char>)
    requires
        validated(d, clear, wsl).project_order.contains(x),
    ensures
        project_ids(validated(d, clear, wsl).projects).contains(x) || folder_ids(
            validated(d, clear, wsl).folders,
        ).contains(x),
{
    let v = validated(d, clear, wsl);
    let ps = with_children_listed(loaded_projects(d.projects, clear, wsl), d.project_order);
    let children = listed_children(ps);
    let folders = folders_sifted(d.folders, children, false);
    let full = completed(
        sifted(d.project_order, children, false),
        project_ids(ps),
        held_projects(folders) + children,
        project_ids(ps).len(),
    );
    sifted_members(full, project_ids(ps) + folder_ids(d.folders), true);
    concat_contains(project_ids(ps), folder_ids(d.folders), x);
    assert(folder_ids(v.folders) =~= folder_ids(d.folders));
}

/// After validation a worktree that its parent lists is in no folder and not in
/// the order.
pub proof fn listed_worktrees_are_only_listed(d: DataView, clear: bool, wsl: WslView, x: Seq<char>)
    requires
        listed_children(validated(d, clear, wsl).projects).contains(x),
    ensures
        !validated(d, clear, wsl).project_order.contains(x),
        forall|i: int|
            0 <= i < validated(d, clear, wsl).folders.len() ==> !(#[trigger] validated(
                d,
                clear,
                wsl,
            ).folders[i]).project_ids.contains(x),
{
    let ps = with_children_listed(loaded_projects(d.projects, clear, wsl), d.project_order);
    let children = listed_children(ps);
    let pids = project_ids(ps);
    let order = sifted(d.project_order, children, false);
    let folders = folders_sifted(d.folders, children, false);
    let placed = held_projects(folders) + children;
    sifted_members(d.project_order, children, false);
    completed_members(order, pids, placed, pids.len());
    concat_contains(held_projects(folders), children, x);
    sifted_members(completed(order, pids, placed, pids.len()), pids + folder_ids(d.folders), true);
    assert forall|i: int| 0 <= i < validated(d, clear, wsl).folders.len() implies !(#[trigger] validated(
        d,
        clear,
        wsl,
    ).folders[i]).project_ids.contains(x) by {
        sifted_members(d.folders[i].project_ids, children, false);
        sifted_members(folders[i].project_ids, pids, true);
    }
}

/// After validation every project has a place: in the order, in a folder, or
/// with its parent.
pub proof fn every_project_has_a_place(d: DataView, clear: bool, wsl: WslView, k: int)
    requires
        0 <= k < validated(d, clear, wsl).projects.len(),
    ensures
        ({
            let v = validated(d, clear, wsl);
            let x = v.projects[k].id;
            ||| v.project_order.contains(x)
            ||| listed_children(v.projects).contains(x)
            ||| exists|i: int|
                0 <= i < v.folders.len() && (#[trigger] v.folders[i]).project_ids.contains(x)
        }),
{
    let v = validated(d, clear, wsl);
    let ps = with_children_listed(loaded_projects(d.projects, clear, wsl), d.project_order);
    let x = ps[k].id;
    let children = listed_children(ps);
    let pids = project_ids(ps);
    let order = sifted(d.project_order, children, false);
    let folders = folders_sifted(d.folders, children, false);
    let placed = held_projects(folders) + children;
    completed_members(order, pids, placed, pids.len());
    assert(pids[k] == x);
    assert(pids.contains(x));
    let full = completed(order, pids, placed, pids.len());
    assert(full.contains(pids[k]) || placed.contains(pids[k]));
    sifted_members(full, pids + folder_ids(d.folders), true);
    concat_contains(pids, folder_ids(d.folders), x);
    concat_contains(held_projects(folders), children, x);
    held_projects_members(folders, x);
    if !full.contains(x) && !children.contains(x) {
        let i = choose|i: int| 0 <= i < folders.len() && (#[trigger] folders[i]).project_ids.contains(x);
        sifted_members(folders[i].project_ids, pids, true);
        assert(v.folders[i].project_ids.contains(x));
    }
}

/// After validation a folder holds only projects that are there.
pub proof fn folders_hold_what_is_there(d: DataView, clear: bool, wsl: WslView, i: int, x: Seq<char>)
    requires
        0 <= i < validated(d, clear, wsl).folders.len(),
        validated(d, clear, wsl).folders[i].project_ids.contains(x),
    ensures
        project_ids(validated(d, clear, wsl).projects).contains(x),
{
    let ps = with_children_listed(loaded_projects(d.projects, clear, wsl), d.project_order);
    let children = listed_children(ps);
    let folders = folders_sifted(d.folders, children, false);
    sifted_members(folders[i].project_ids, project_ids(ps), true);
}

/// After validation no window hides, sizes, collapses or filters by what is not
/// there.
pub proof fn windows_refer_to_what_is_there(d: DataView, clear: bool, wsl: WslView)
    ensures
        window_refers(validated(d, clear, wsl).main_window, validated(d, clear, wsl)),
        forall|i: int|
            0 <= i < validated(d, clear, wsl).extra_windows.len() ==> window_refers(
                #[trigger] validated(d, clear, wsl).extra_windows[i],
                validated(d, clear, wsl),
            ),
{
    let v = validated(d, clear, wsl);
    let ps = with_children_listed(loaded_projects(d.projects, clear, wsl), d.project_order);
    assert(project_ids(v.projects) == project_ids(ps));
    assert(folder_ids(v.folders) =~= folder_ids(d.folders));
    kept_window_refers(d.main_window, v);
    assert forall|i: int| 0 <= i < v.extra_windows.len() implies window_refers(
        #[trigger] v.extra_windows[i],
        v,
    ) by {
        kept_window_refers(d.extra_windows[i], v);
    }
}

/// Whether all that the window `w` mentions is in `d`.
pub open spec fn window_refers(w: WindowView, d: DataView) -> bool {
    &&& forall|x: Seq<char>| #[trigger]
        w.hidden_project_ids.contains(x) ==> project_ids(d.projects).contains(x)
    &&& forall|x: Seq<char>| #[trigger]
        lookup(w.project_widths, x) is Some ==> project_ids(d.projects).contains(x)
    &&& forall|x: Seq<char>| #[trigger]
        lookup(w.folder_collapsed, x) is Some ==> folder_ids(d.folders).contains(x)
    &&& w.folder_filter is Some ==> folder_ids(d.folders).contains(w.folder_filter->0)
}

proof fn kept_window_refers(w: WindowView, d: DataView)
    ensures
        window_refers(
            edited_window(
                w,
                WindowEditView::KeepOnly(project_ids(d.projects), folder_ids(d.folders)),
            ),
            d,
        ),
{
    let pids = project_ids(d.projects);
    let fids = folder_ids(d.folders);
    let e = edited_window(w, WindowEditView::KeepOnly(pids, fids));
    assert forall|x: Seq<char>| #[trigger] lookup(e.project_widths, x) is Some implies pids.contains(
        x,
    ) by {
        crate::collections::lookup_after_sift(w.project_widths, pids, true, x);
    }
    assert forall|x: Seq<char>| #[trigger] lookup(e.folder_collapsed, x) is Some implies fids.contains(
        x,
    ) by {
        crate::collections::lookup_after_sift(w.folder_collapsed, fids, true, x);
    }
}

proof fn sifting_again(s: Seq<Seq<char>>, filter: Seq<Seq<char>>, keep: bool)
    requires
        forall|x: Seq<char>| #[trigger] s.contains(x) ==> filter.contains(x) == keep,
    ensures
        sifted(s, filter, keep) == s,
    decreases s.len(),
{
    if s.len() > 0 {
        contains_last(s);
        assert(s.contains(s.last()));
        assert forall|x: Seq<char>| #[trigger] s.drop_last().contains(x) implies filter.contains(x)
            == keep by {
            assert(s.contains(x));
        }
        sifting_again(s.drop_last(), filter, keep);
        assert(s.drop_last().push(s.last()) =~= s);
    }
}

proof fn sifting_keys_again<A>(s: Seq<(Seq<char>, A)>, filter: Seq<Seq<char>>)
    ensures
        sifted_keys(sifted_keys(s, filter, true), filter, true) == sifted_keys(s, filter, true),
    decreases s.len(),
{
    if s.len() > 0 {
        sifting_keys_again(s.drop_last(), filter);
        if filter.contains(s.last().0) {
            let front = sifted_keys(s.drop_last(), filter, true);
            assert(front.push(s.last()).drop_last() =~= front);
        }
    }
}

proof fn tidying_again(p: ProjectView)
    ensures
        tidy_project(tidy_project(p)) == tidy_project(p),
{
    let t = tidy_project(p);
    match p.layout {
        Some(l) => {
            normalizing_is_normal(l);
            normal_is_left_alone(normalized(l));
        },
        None => {},
    }
    sifting_keys_again(p.terminal_names, opt_terminal_ids(t.layout));
    sifting_keys_again(p.hidden_terminals, opt_terminal_ids(t.layout));
}

proof fn named_children_same(ps: Seq<ProjectView>, qs: Seq<ProjectView>, id: Seq<char>)
    requires
        ps.len() == qs.len(),
        forall|i: int|
            0 <= i < ps.len() ==> ps[i].id == (#[trigger] qs[i]).id && ps[i].worktree_info
                == qs[i].worktree_info,
    ensures
        named_children(ps, id) == named_children(qs, id),
    decreases ps.len(),
{
    if ps.len() > 0 {
        assert forall|i: int| 0 <= i < ps.len() - 1 implies ps.drop_last()[i].id
            == (#[trigger] qs.drop_last()[i]).id && ps.drop_last()[i].worktree_info
            == qs.drop_last()[i].worktree_info by {
            assert(qs.drop_last()[i] == qs[i]);
        }
        named_children_same(ps.drop_last(), qs.drop_last(), id);
        assert(qs[qs.len() - 1] == qs.last());
    }
}

proof fn ranked_len(s: Seq<Seq<char>>, order: Seq<Seq<char>>)
    ensures
        ranked(s, order).len() == s.len(),
    decreases s.len(),
{
    if s.len() > 0 {
        ranked_len(s.drop_last(), order);
        ranked_insert_len(ranked(s.drop_last(), order), s.last(), order);
    }
}

proof fn ranked_insert_len(s: Seq<Seq<char>>, id: Seq<char>, order: Seq<Seq<char>>)
    ensures
        ranked_insert(s, id, order).len() == s.len() + 1,
    decreases s.len(),
{
    if s.len() > 0 {
        ranked_insert_len(s.drop_last(), id, order);
    }
}

/// Whether `edit` leaves `l` as it is.
spec fn settled(l: LayoutView, edit: TerminalEditView) -> bool {
    edited(l, edit) == l
}

/// A container is settled exactly if its children are.
proof fn settled_by_children(l: LayoutView, edit: TerminalEditView)
    requires
        !(l is Terminal),
    ensures
        settled(l, edit) <==> forall|i: int|
            0 <= i < children_of(l).len() ==> settled(#[trigger] children_of(l)[i], edit),
{
    let cs = children_of(l);
    let es = edited_in(cs, edit, cs.len());
    edited_in_index(cs, edit, cs.len());
    if settled(l, edit) {
        assert(children_of(edited(l, edit)) == es);
        assert forall|i: int| 0 <= i < cs.len() implies settled(#[trigger] cs[i], edit) by {
            assert(es[i] == edited(cs[i], edit));
        }
    }
    if forall|i: int| 0 <= i < cs.len() ==> settled(#[trigger] cs[i], edit) {
        assert forall|i: int| 0 <= i < cs.len() implies es[i] == cs[i] by {
            assert(settled(cs[i], edit));
        }
        assert(es =~= cs);
    }
}

/// Clearing slots a second time changes nothing.
proof fn clearing_settles(l: LayoutView, keep: Seq<Seq<char>>)
    ensures
        settled(
            edited(l, TerminalEditView::ClearExcept(keep)),
            TerminalEditView::ClearExcept(keep),
        ),
    decreases l,
{
    let edit = TerminalEditView::ClearExcept(keep);
    if !(l is Terminal) {
        let cs = children_of(l);
        let e = edited(l, edit);
        edited_in_index(cs, edit, cs.len());
        assert forall|i: int| 0 <= i < children_of(e).len() implies settled(
            #[trigger] children_of(e)[i],
            edit,
        ) by {
            match l {
                LayoutView::Split { children, .. } => clearing_settles(children[i], keep),
                LayoutView::Tabs { children, .. } => clearing_settles(children[i], keep),
                LayoutView::Terminal { .. } => {},
            }
        }
        settled_by_children(e, edit);
    }
}

proof fn flat_children_settled(
    d: SplitDirection,
    cs: Seq<LayoutView>,
    edit: TerminalEditView,
    n: nat,
)
    requires
        n <= cs.len(),
        forall|i: int| 0 <= i < cs.len() ==> settled(#[trigger] cs[i], edit),
    ensures
        forall|i: int|
            0 <= i < flat_children(d, cs, n).len() ==> settled(
                #[trigger] flat_children(d, cs, n)[i],
                edit,
            ),
    decreases n,
{
    if n > 0 {
        flat_children_settled(d, cs, edit, (n - 1) as nat);
        let c = cs[n - 1];
        let front = flat_children(d, cs, (n - 1) as nat);
        assert(settled(c, edit));
        if !(c is Terminal) {
            settled_by_children(c, edit);
        }
        assert forall|i: int| 0 <= i < flat_children(d, cs, n).len() implies settled(
            #[trigger] flat_children(d, cs, n)[i],
            edit,
        ) by {
            if i < front.len() {
                assert(flat_children(d, cs, n)[i] == front[i]);
            } else {
                let k = i - front.len();
                assert(flat_children(d, cs, n)[i] == pieces(d, c)[k]);
                if c is Split && c->Split_direction == d {
                    assert(pieces(d, c)[k] == children_of(c)[k]);
                }
            }
        }
    }
}

/// What is settled stays so in normal form.
proof fn normalizing_keeps_settled(l: LayoutView, edit: TerminalEditView)
    requires
        settled(l, edit),
    ensures
        settled(normalized(l), edit),
    decreases l,
{
    match l {
        LayoutView::Terminal { .. } => {},
        LayoutView::Split { direction, sizes, children } => {
            let cs = normalized_in(children, children.len());
            normalized_in_index(children, children.len());
            settled_by_children(l, edit);
            assert forall|i: int| 0 <= i < cs.len() implies settled(#[trigger] cs[i], edit) by {
                assert(children_of(l)[i] == children[i]);
                normalizing_keeps_settled(children[i], edit);
            }
            flat_children_settled(direction, cs, edit, cs.len());
            let flat = flat_children(direction, cs, cs.len());
            if flat.len() == 1 {
                assert(settled(flat[0], edit));
            } else {
                settled_by_children(normalized(l), edit);
            }
        },
        LayoutView::Tabs { children, active_tab } => {
            let cs = normalized_in(children, children.len());
            normalized_in_index(children, children.len());
            settled_by_children(l, edit);
            assert forall|i: int| 0 <= i < cs.len() implies settled(#[trigger] cs[i], edit) by {
                assert(children_of(l)[i] == children[i]);
                normalizing_keeps_settled(children[i], edit);
            }
            if cs.len() == 1 {
                assert(settled(cs[0], edit));
            } else {
                settled_by_children(normalized(l), edit);
            }
        },
    }
}

/// A project that was loaded once is left alone by loading it again, with other
/// worktrees listed or not.
proof fn loading_one_again(
    p: ProjectView,
    clear: bool,
    again: bool,
    wsl: WslView,
    listed: Seq<Seq<char>>,
)
    requires
        again ==> clear,
    ensures
        ({
            let once = ProjectView { worktree_ids: listed, ..loaded_project(p, clear, wsl) };
            loaded_project(once, again, wsl) == once
        }),
{
    let q = shelled_project(p, wsl);
    let gone = clear && !outlives(wsl, q.default_shell);
    let r = if gone {
        detached_project(q)
    } else {
        q
    };
    let t = tidy_project(r);
    let once = ProjectView { worktree_ids: listed, ..t };
    tidying_again(r);
    assert(shelled_project(once, wsl) == once);
    if again && !outlives(wsl, once.default_shell) {
        assert(gone);
        let keep = keys_of(q.hook_terminals);
        assert(keys_of(once.hook_terminals) =~= keep);
        assert(ended_entries(once.hook_terminals) =~= once.hook_terminals);
        match q.layout {
            Some(l) => {
                let edit = TerminalEditView::ClearExcept(keep);
                clearing_settles(l, keep);
                normalizing_keeps_settled(edited(l, edit), edit);
            },
            None => {},
        }
        assert(detached_project(once) == once);
    }
    assert(tidy_project(once) == ProjectView { worktree_ids: listed, ..tidy_project(t) });
}

/// Whether two projects of one id list no worktrees while some worktree names
/// that id as its parent, so that it is open which of the two lists it.
pub open spec fn contested(ps: Seq<ProjectView>) -> bool {
    exists|i: int, j: int|
        0 <= i < j < ps.len() && (#[trigger] ps[i]).id == (#[trigger] ps[j]).id
            && ps[i].worktree_ids.len() == 0 && ps[j].worktree_ids.len() == 0 && named_children(
            ps,
            ps[i].id,
        ).len() > 0
}

/// Projects that have been loaded once are left alone by loading again.
proof fn loading_again(
    ps: Seq<ProjectView>,
    clear: bool,
    again: bool,
    wsl: WslView,
    order: Seq<Seq<char>>,
    order2: Seq<Seq<char>>,
)
    requires
        again ==> clear,
        !contested(ps),
    ensures
        ({
            let once = with_children_listed(loaded_projects(ps, clear, wsl), order);
            with_children_listed(loaded_projects(once, again, wsl), order2) == once
        }),
{
    let first = loaded_projects(ps, clear, wsl);
    let once = with_children_listed(first, order);
    let second = loaded_projects(once, again, wsl);
    assert forall|i: int| 0 <= i < ps.len() implies #[trigger] second[i] == once[i] by {
        loading_one_again(ps[i], clear, again, wsl, once[i].worktree_ids);
        assert(once[i] == ProjectView { worktree_ids: once[i].worktree_ids, ..first[i] });
    }
    assert(second =~= once);
    let last = with_children_listed(second, order2);
    assert forall|i: int| 0 <= i < ps.len() implies #[trigger] last[i] == once[i] by {
        let id = first[i].id;
        named_children_same(ps, first, id);
        named_children_same(first, once, id);
        if once[i].worktree_ids.len() == 0 && !claimed_before(once, i) {
            assert(first[i].worktree_ids.len() == 0);
            ranked_len(named_children(first, id), order);
            if claimed_before(first, i) {
                let j = choose|j: int|
                    0 <= j < i && #[trigger] first[j].id == first[i].id
                        && first[j].worktree_ids.len() == 0;
                assert(ps[j].id == ps[i].id && ps[j].worktree_ids.len() == 0
                    && ps[i].worktree_ids.len() == 0);
                assert(named_children(ps, ps[j].id).len() == 0);
            }
            assert(named_children(once, id).len() == 0);
            ranked_len(named_children(once, id), order2);
            assert(ranked(named_children(once, id), order2) =~= once[i].worktree_ids);
        }
    }
    assert(last =~= once);
}

proof fn completing_again(
    order: Seq<Seq<char>>,
    ids: Seq<Seq<char>>,
    placed: Seq<Seq<char>>,
    n: nat,
)
    requires
        n <= ids.len(),
        forall|i: int| 0 <= i < n ==> order.contains(#[trigger] ids[i]) || placed.contains(ids[i]),
    ensures
        completed(order, ids, placed, n) == order,
    decreases n,
{
    if n > 0 {
        completing_again(order, ids, placed, (n - 1) as nat);
        assert(order.contains(ids[n - 1]) || placed.contains(ids[n - 1]));
    }
}

proof fn keeping_again(w: WindowView, ps: Seq<Seq<char>>, fs: Seq<Seq<char>>)
    ensures
        edited_window(
            edited_window(w, WindowEditView::KeepOnly(ps, fs)),
            WindowEditView::KeepOnly(ps, fs),
        ) == edited_window(w, WindowEditView::KeepOnly(ps, fs)),
{
    let once = edited_window(w, WindowEditView::KeepOnly(ps, fs));
    assert(once.hidden_project_ids.intersect(ps.to_set()) =~= once.hidden_project_ids);
    sifting_keys_again(w.project_widths, ps);
    sifting_keys_again(w.folder_collapsed, fs);
}

/// Validating a second time changes nothing, whether terminals are cleared again
/// or not, unless two projects contend for the same worktrees.
pub proof fn validating_again_changes_nothing(d: DataView, clear: bool, again: bool, wsl: WslView)
    requires
        again ==> clear,
        !contested(d.projects),
    ensures
        validated(validated(d, clear, wsl), again, wsl) == validated(d, clear, wsl),
{
    let v = validated(d, clear, wsl);
    let ps = with_children_listed(loaded_projects(d.projects, clear, wsl), d.project_order);
    let children = listed_children(ps);
    let pids = project_ids(ps);
    let fids = folder_ids(d.folders);
    loading_again(d.projects, clear, again, wsl, d.project_order, v.project_order);
    assert(folder_ids(v.folders) =~= fids);
    // The order keeps no listed child.
    assert forall|x: Seq<char>| #[trigger] v.project_order.contains(x) implies children.contains(x)
        == false by {
        if children.contains(x) {
            listed_worktrees_are_only_listed(d, clear, wsl, x);
        }
    }
    sifting_again(v.project_order, children, false);
    let folders2 = folders_sifted(v.folders, children, false);
    assert forall|i: int| 0 <= i < v.folders.len() implies #[trigger] folders2[i] == v.folders[i] by {
        assert forall|x: Seq<char>| #[trigger]
            v.folders[i].project_ids.contains(x) implies children.contains(x) == false by {
            if children.contains(x) {
                listed_worktrees_are_only_listed(d, clear, wsl, x);
            }
        }
        sifting_again(v.folders[i].project_ids, children, false);
    }
    assert(folders2 =~= v.folders);
    let placed2 = held_projects(v.folders) + children;
    assert forall|k: int| 0 <= k < pids.len() implies v.project_order.contains(#[trigger] pids[k])
        || placed2.contains(pids[k]) by {
        every_project_has_a_place(d, clear, wsl, k);
        held_projects_members(v.folders, pids[k]);
        concat_contains(held_projects(v.folders), children, pids[k]);
    }
    completing_again(v.project_order, pids, placed2, pids.len());
    assert forall|x: Seq<char>| #[trigger] v.project_order.contains(x) implies (pids + fids).contains(
        x,
    ) == true by {
        order_refers_to_what_is_there(d, clear, wsl, x);
        concat_contains(pids, fids, x);
    }
    sifting_again(v.project_order, pids + fids, true);
    let folders3 = folders_sifted(v.folders, pids, true);
    assert forall|i: int| 0 <= i < v.folders.len() implies #[trigger] folders3[i] == v.folders[i] by {
        assert forall|x: Seq<char>| #[trigger]
            v.folders[i].project_ids.contains(x) implies pids.contains(x) == true by {
            folders_hold_what_is_there(d, clear, wsl, i, x);
        }
        sifting_again(v.folders[i].project_ids, pids, true);
    }
    assert(folders3 =~= v.folders);
    keeping_again(d.main_window, pids, fids);
    assert forall|i: int| 0 <= i < v.extra_windows.len() implies edited_window(
        #[trigger] v.extra_windows[i],
        WindowEditView::KeepOnly(pids, fids),
    ) == v.extra_windows[i] by {
        keeping_again(d.extra_windows[i], pids, fids);
    }
    assert(edited_extras(v.extra_windows, WindowEditView::KeepOnly(pids, fids))
        =~= v.extra_windows);
}

} // verus!
