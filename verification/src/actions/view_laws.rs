//! Which projects show, where the focus goes, and what adding and deleting
//! projects and panes leaves alone.

use crate::actions::focus::{first_open, focus_first};
use crate::actions::project_open::{
    HookResultView, colored, inheriting, pane_added, recolored, result_noted, with_pane,
    without_hook_terminals,
};
use crate::actions::project_rows::{
    clone_name, clone_target, expanded, focus_after_delete, plain_name, project_deleted, row_added,
};
use crate::actions::project_view::in_the_family;
use crate::actions::soft_close_flow::{project_in_id, with_project_lookup};
use crate::actions::soft_close_laws::{a_terminal_shows, filled};
use crate::collections::{
    contains_last, keys_of, lookup, lookup_after_sift, lookup_after_store, position,
    position_is_first, sifted, sifted_members, without,
};
use crate::focus::FocusView;
use crate::layout::{
    LayoutView, SplitDirection, node_at, opt_terminal_ids, terminal_ids, terminal_ids_in,
};
use crate::layout_frames::held_by_either;
use crate::layout_terminals::{pruned, pruned_in};
use crate::paths::below;
use crate::persistence::worktrees::row_dropped;
use crate::remote_again::{kept_rows_are_found, sifted_concat};
use crate::rows::{IdFilterView, kept_rows};
use crate::state::{
    DataView, FolderColor, HookTerminalStatus, ProjectView, WindowId, folder_in, has_project,
    project_ids, project_in,
};
use crate::text::{has_prefix, trimmed};
use crate::visibility::{
    entry_projects, families, family, first_left, last_left, listed_projects, replacement,
    shown_projects, unhidden, window_or_main,
};
use crate::workspace::{WorkspaceView, child_ids, ws_layout, ws_project};
use vstd::prelude::*;

verus! {

/// What a list holds once the hidden ids have gone: all the others.
pub proof fn only_hidden_ids_go(ids: Seq<Seq<char>>, hidden: Set<Seq<char>>, x: Seq<char>)
    ensures
        unhidden(ids, hidden).contains(x) <==> ids.contains(x) && !hidden.contains(x),
    decreases ids.len(),
{
    if ids.len() > 0 {
        let front = unhidden(ids.drop_last(), hidden);
        only_hidden_ids_go(ids.drop_last(), hidden, x);
        contains_last(ids);
        if !hidden.contains(ids.last()) {
            contains_last(front.push(ids.last()));
            assert(front.push(ids.last()).drop_last() =~= front);
        }
    }
}

proof fn families_hold(ps: Seq<ProjectView>, ids: Seq<Seq<char>>, x: Seq<char>)
    ensures
        families(ps, ids).contains(x) <==> exists|i: int|
            0 <= i < ids.len() && family(ps, #[trigger] ids[i]).contains(x),
    decreases ids.len(),
{
    if ids.len() > 0 {
        let front = ids.drop_last();
        families_hold(ps, front, x);
        held_by_either(families(ps, front), family(ps, ids.last()), x);
        if exists|i: int| 0 <= i < front.len() && family(ps, #[trigger] front[i]).contains(x) {
            let i = choose|i: int|
                0 <= i < front.len() && family(ps, #[trigger] front[i]).contains(x);
            assert(ids[i] == front[i]);
        }
        if exists|i: int| 0 <= i < ids.len() && family(ps, #[trigger] ids[i]).contains(x) {
            let i = choose|i: int| 0 <= i < ids.len() && family(ps, #[trigger] ids[i]).contains(x);
            if i < front.len() {
                assert(front[i] == ids[i]);
            }
        }
        if family(ps, ids.last()).contains(x) {
            assert(ids[ids.len() - 1] == ids.last());
        }
    }
}

proof fn listing_holds(d: DataView, filter: Option<Seq<char>>, order: Seq<Seq<char>>, x: Seq<char>)
    ensures
        listed_projects(d, filter, order).contains(x) <==> exists|i: int|
            0 <= i < order.len() && entry_projects(d, filter, #[trigger] order[i]).contains(x),
    decreases order.len(),
{
    if order.len() > 0 {
        let front = order.drop_last();
        listing_holds(d, filter, front, x);
        held_by_either(
            listed_projects(d, filter, front),
            entry_projects(d, filter, order.last()),
            x,
        );
        if exists|i: int|
            0 <= i < front.len() && entry_projects(d, filter, #[trigger] front[i]).contains(x) {
            let i = choose|i: int|
                0 <= i < front.len() && entry_projects(d, filter, #[trigger] front[i]).contains(x);
            assert(order[i] == front[i]);
        }
        if exists|i: int|
            0 <= i < order.len() && entry_projects(d, filter, #[trigger] order[i]).contains(x) {
            let i = choose|i: int|
                0 <= i < order.len() && entry_projects(d, filter, #[trigger] order[i]).contains(x);
            if i < front.len() {
                assert(front[i] == order[i]);
            }
        }
        if entry_projects(d, filter, order.last()).contains(x) {
            assert(order[order.len() - 1] == order.last());
        }
    }
}

/// Whether the entry `e` of the order brings the project `x` in: it is the
/// project, or its parent, or a folder that holds one of them.
pub open spec fn brings_in(d: DataView, e: Seq<char>, x: Seq<char>) -> bool {
    match folder_in(d.folders, e) {
        Some(f) => exists|k: int|
            0 <= k < f.project_ids.len() && of_the_family(d.projects, #[trigger] f.project_ids[k], x),
        None => of_the_family(d.projects, e, x),
    }
}

/// Whether `x` is the project `id`, or a worktree that it lists, and both are
/// there.
pub open spec fn of_the_family(ps: Seq<ProjectView>, id: Seq<char>, x: Seq<char>) -> bool {
    has_project(ps, id) && has_project(ps, x) && (x == id || child_ids(ps, id).contains(x))
}

/// A window that is zoomed to no project shows exactly what the order brings in
/// and the window does not hide: every listed project with its worktrees, and
/// those of every listed folder. Under a filter it shows that folder alone.
pub proof fn windows_show_what_is_listed(d: DataView, window: WindowId, x: Seq<char>)
    ensures
        shown_projects(d, window, None, false).contains(x) <==> {
            let w = window_or_main(d, window);
            &&& !w.hidden_project_ids.contains(x)
            &&& exists|i: int|
                0 <= i < d.project_order.len() && brings_in(d, #[trigger] d.project_order[i], x)
                    && match w.folder_filter {
                    Some(f) => d.project_order[i] == f && folder_in(d.folders, f) is Some,
                    None => true,
                }
        },
        shown_projects(d, window, None, true) == shown_projects(d, window, None, false),
{
    let w = window_or_main(d, window);
    let filter = w.folder_filter;
    let all = listed_projects(d, filter, d.project_order);
    only_hidden_ids_go(all, w.hidden_project_ids, x);
    listing_holds(d, filter, d.project_order, x);
    assert forall|e: Seq<char>| #[trigger] entry_projects(d, filter, e).contains(x) <==> brings_in(
        d,
        e,
        x,
    ) && match filter {
        Some(f) => e == f && folder_in(d.folders, f) is Some,
        None => true,
    } by {
        match folder_in(d.folders, e) {
            Some(f) => {
                families_hold(d.projects, f.project_ids, x);
                assert forall|k: int| 0 <= k < f.project_ids.len() implies family(
                    d.projects,
                    #[trigger] f.project_ids[k],
                ).contains(x) == of_the_family(d.projects, f.project_ids[k], x) by {
                    in_the_family(d.projects, f.project_ids[k], x);
                }
            },
            None => {
                in_the_family(d.projects, e, x);
            },
        }
    }
}

/// A window shows what is listed first before what is listed later.
pub proof fn windows_keep_the_order(
    d: DataView,
    filter: Option<Seq<char>>,
    hidden: Set<Seq<char>>,
    a: Seq<Seq<char>>,
    b: Seq<Seq<char>>,
)
    ensures
        unhidden(listed_projects(d, filter, a + b), hidden) == unhidden(
            listed_projects(d, filter, a),
            hidden,
        ) + unhidden(listed_projects(d, filter, b), hidden),
    decreases b.len(),
{
    listing_of_concat(d, filter, a, b);
    unhidden_of_concat(listed_projects(d, filter, a), listed_projects(d, filter, b), hidden);
}

proof fn listing_of_concat(
    d: DataView,
    filter: Option<Seq<char>>,
    a: Seq<Seq<char>>,
    b: Seq<Seq<char>>,
)
    ensures
        listed_projects(d, filter, a + b) == listed_projects(d, filter, a) + listed_projects(
            d,
            filter,
            b,
        ),
    decreases b.len(),
{
    if b.len() == 0 {
        assert(a + b =~= a);
        assert(listed_projects(d, filter, a) + listed_projects(d, filter, b) =~= listed_projects(
            d,
            filter,
            a,
        ));
    } else {
        listing_of_concat(d, filter, a, b.drop_last());
        assert((a + b).drop_last() =~= a + b.drop_last());
        assert((a + b).last() == b.last());
        let x = listed_projects(d, filter, a);
        let y = listed_projects(d, filter, b.drop_last());
        let z = entry_projects(d, filter, b.last());
        assert((x + y) + z =~= x + (y + z));
    }
}

proof fn unhidden_of_concat(a: Seq<Seq<char>>, b: Seq<Seq<char>>, hidden: Set<Seq<char>>)
    ensures
        unhidden(a + b, hidden) == unhidden(a, hidden) + unhidden(b, hidden),
    decreases b.len(),
{
    if b.len() == 0 {
        assert(a + b =~= a);
        assert(unhidden(a, hidden) + unhidden(b, hidden) =~= unhidden(a, hidden));
    } else {
        unhidden_of_concat(a, b.drop_last(), hidden);
        assert((a + b).drop_last() =~= a + b.drop_last());
        assert((a + b).last() == b.last());
        assert(unhidden(a + b, hidden) =~= unhidden(a, hidden) + unhidden(b, hidden));
    }
}

/// A window that is zoomed to a project shows it first, whatever is hidden; its
/// worktrees follow, unless the zoom leaves them out. One that is gone leaves
/// nothing to show.
pub proof fn zoomed_windows_show_the_project(
    d: DataView,
    window: WindowId,
    id: Seq<char>,
    x: Seq<char>,
)
    ensures
        has_project(d.projects, id) ==> {
            &&& shown_projects(d, window, Some(id), false).len() > 0
            &&& shown_projects(d, window, Some(id), false)[0] == id
            &&& shown_projects(d, window, Some(id), true) == seq![id]
            &&& shown_projects(d, window, Some(id), false).contains(x) <==> of_the_family(
                d.projects,
                id,
                x,
            )
        },
        !has_project(d.projects, id) ==> shown_projects(d, window, Some(id), false).len() == 0
            && shown_projects(d, window, Some(id), true).len() == 0,
{
    project_in_id(d.projects, id);
    in_the_family(d.projects, id, x);
    if has_project(d.projects, id) {
        assert(family(d.projects, id).take(1) =~= seq![id]);
    } else {
        assert(family(d.projects, id).take(0) =~= Seq::<Seq<char>>::empty());
    }
}

/// The neighbour that takes over is the next one that still shows; only where
/// none follows is it one from before.
pub proof fn the_next_neighbour_takes_over(
    before: Seq<Seq<char>>,
    after: Seq<Seq<char>>,
    i: int,
    k: int,
)
    requires
        0 <= i < k < before.len(),
        position(before, before[i]) == Some(i),
        after.contains(before[k]),
        forall|j: int| i < j < k ==> !after.contains(#[trigger] before[j]),
    ensures
        replacement(before, after, before[i]) == Some(before[k]),
{
    let rest = before.skip(i + 1);
    the_first_left(rest, after, k - i - 1, before, i + 1);
}

/// Where none of those behind shows any more, the nearest one before takes over.
pub proof fn the_previous_neighbour_takes_over(
    before: Seq<Seq<char>>,
    after: Seq<Seq<char>>,
    i: int,
    k: int,
)
    requires
        0 <= k < i < before.len(),
        position(before, before[i]) == Some(i),
        after.contains(before[k]),
        forall|j: int| k < j < before.len() && j != i ==> !after.contains(#[trigger] before[j]),
    ensures
        replacement(before, after, before[i]) == Some(before[k]),
{
    none_is_left(before, after, i + 1);
    the_last_left(before, after, i, k);
}

proof fn none_is_left(whole: Seq<Seq<char>>, left: Seq<Seq<char>>, o: int)
    requires
        0 <= o <= whole.len(),
        forall|j: int| o <= j < whole.len() ==> !left.contains(#[trigger] whole[j]),
    ensures
        first_left(whole.skip(o), left) is None,
    decreases whole.len() - o,
{
    if o < whole.len() {
        assert(whole.skip(o)[0] == whole[o]);
        assert(whole.skip(o).skip(1) =~= whole.skip(o + 1));
        none_is_left(whole, left, o + 1);
    }
}

proof fn the_last_left(whole: Seq<Seq<char>>, left: Seq<Seq<char>>, n: int, k: int)
    requires
        0 <= k < n <= whole.len(),
        left.contains(whole[k]),
        forall|j: int| k < j < n ==> !left.contains(#[trigger] whole[j]),
    ensures
        last_left(whole.take(n), left) == Some(whole[k]),
    decreases n,
{
    assert(whole.take(n).last() == whole[n - 1]);
    assert(whole.take(n).drop_last() =~= whole.take(n - 1));
    if k < n - 1 {
        assert(!left.contains(whole[n - 1]));
        the_last_left(whole, left, n - 1, k);
    }
}

proof fn the_first_left(
    ids: Seq<Seq<char>>,
    left: Seq<Seq<char>>,
    k: int,
    whole: Seq<Seq<char>>,
    o: int,
)
    requires
        0 <= o,
        o + k < whole.len(),
        0 <= k,
        ids == whole.skip(o),
        left.contains(whole[o + k]),
        forall|j: int| o <= j < o + k ==> !left.contains(#[trigger] whole[j]),
    ensures
        first_left(ids, left) == Some(whole[o + k]),
    decreases k,
{
    assert(ids[0] == whole[o]);
    if k > 0 {
        assert(!left.contains(whole[o]));
        assert(ids.skip(1) =~= whole.skip(o + 1));
        the_first_left(ids.skip(1), left, k - 1, whole, o + 1);
    }
}

/// The focus on a project is the focus on the terminal that shows in it; where
/// it has no panes, on that of its first worktree that has some.
pub proof fn projects_are_focused_by_their_terminal(
    ps: Seq<ProjectView>,
    f: FocusView,
    id: Seq<char>,
)
    requires
        project_in(ps, id) is Some,
        (project_in(ps, id)->0).layout is Some,
        filled((project_in(ps, id)->0).layout->0),
    ensures
        ({
            let g = focus_first(ps, f, id);
            let l = (project_in(ps, id)->0).layout->0;
            &&& g.focused is Some
            &&& (g.focused->0).0 == id
            &&& node_at(l, (g.focused->0).1) is Some
            &&& node_at(l, (g.focused->0).1)->0 is Terminal
            &&& !g.modal
        }),
{
    let l = (project_in(ps, id)->0).layout->0;
    a_terminal_shows(l);
    let ids = seq![id] + child_ids(ps, id);
    assert(ids[0] == id);
}

/// A project without panes hands the focus on to the first of its worktrees
/// that has some.
pub proof fn worktrees_take_the_focus(
    ps: Seq<ProjectView>,
    f: FocusView,
    id: Seq<char>,
    k: int,
)
    requires
        project_in(ps, id) is Some,
        (project_in(ps, id)->0).layout is None,
        0 <= k < child_ids(ps, id).len(),
        project_in(ps, child_ids(ps, id)[k]) is Some,
        (project_in(ps, child_ids(ps, id)[k])->0).layout is Some,
        forall|j: int|
            0 <= j < k ==> project_in(ps, #[trigger] child_ids(ps, id)[j]) is None || (project_in(
                ps,
                child_ids(ps, id)[j],
            )->0).layout is None,
    ensures
        (focus_first(ps, f, id).focused->0).0 == child_ids(ps, id)[k],
{
    let ids = seq![id] + child_ids(ps, id);
    assert(ids[0] == id);
    first_open_is(ps, ids, 1, k + 1, id);
}

proof fn first_open_is(
    ps: Seq<ProjectView>,
    ids: Seq<Seq<char>>,
    from: nat,
    k: int,
    id: Seq<char>,
)
    requires
        ids == seq![id] + child_ids(ps, id),
        1 <= from <= k < ids.len(),
        project_in(ps, ids[k]) is Some,
        (project_in(ps, ids[k])->0).layout is Some,
        forall|j: int|
            0 <= j < k - 1 ==> project_in(ps, #[trigger] child_ids(ps, id)[j]) is None || (
            project_in(ps, child_ids(ps, id)[j])->0).layout is None,
    ensures
        first_open(ps, ids, from) is Some,
        (first_open(ps, ids, from)->0).0 == ids[k],
    decreases k - from,
{
    if from < k {
        assert(ids[from as int] == child_ids(ps, id)[from - 1]);
        first_open_is(ps, ids, from + 1, k, id);
    }
}

/// A new pane stands behind all that was there, beside it; no terminal goes, and
/// no other project changes.
pub proof fn new_panes_join_the_others(
    w: WorkspaceView,
    id: Seq<char>,
    node: LayoutView,
    other: Seq<char>,
)
    requires
        ws_project(w, id) is Some,
    ensures
        ({
            let v = pane_added(w, id, node);
            let l = ws_layout(v, id);
            &&& l is Some
            &&& match ws_layout(w, id) {
                Some(before) => match l->0 {
                    LayoutView::Split { direction, sizes, children } => {
                        &&& direction == SplitDirection::Vertical
                        &&& children.len() == 2
                        &&& children[0] == before
                        &&& children[1] == node
                        &&& sizes.len() == 2
                        &&& sizes[0] == sizes[1]
                    },
                    _ => false,
                },
                None => l->0 == node,
            }
            &&& other != id ==> ws_project(v, other) == ws_project(w, other)
            &&& (ws_project(v, id)->0).terminal_names == (ws_project(w, id)->0).terminal_names
        }),
{
    let p = ws_project(w, id)->0;
    project_in_id(w.data.projects, id);
    let q = ProjectView { layout: Some(with_pane(p.layout, node)), ..p };
    with_project_lookup(w.data.projects, id, q, id);
    with_project_lookup(w.data.projects, id, q, other);
}

/// Pruning takes the terminals that are to go, and keeps the others in their
/// order.
pub proof fn pruning_takes_only_what_goes(l: LayoutView, gone: Seq<Seq<char>>)
    ensures
        opt_terminal_ids(pruned(l, gone)) == sifted(terminal_ids(l), gone, false),
    decreases l, 0nat,
{
    match l {
        LayoutView::Terminal { terminal_id, .. } => {
            if let Some(t) = terminal_id {
                assert(terminal_ids(l) =~= seq![t]);
                assert(seq![t].drop_last() =~= Seq::<Seq<char>>::empty());
                reveal_with_fuel(sifted, 2);
                if !gone.contains(t) {
                    assert(sifted(seq![t], gone, false) =~= seq![t]);
                }
            }
        },
        LayoutView::Split { children, .. } => {
            pruning_below(children, gone, children.len());
            one_is_left(pruned_in(children, gone, children.len()));
        },
        LayoutView::Tabs { children, .. } => {
            pruning_below(children, gone, children.len());
            one_is_left(pruned_in(children, gone, children.len()));
        },
    }
}

proof fn one_is_left(cs: Seq<LayoutView>)
    ensures
        cs.len() == 1 ==> terminal_ids_in(cs, 1) == terminal_ids(cs[0]),
        cs.len() == 0 ==> terminal_ids_in(cs, 0) == Seq::<Seq<char>>::empty(),
{
    reveal_with_fuel(terminal_ids_in, 3);
    if cs.len() == 1 {
        assert(terminal_ids_in(cs, 1) =~= terminal_ids(cs[0]));
    }
}

proof fn pruning_below(cs: Seq<LayoutView>, gone: Seq<Seq<char>>, n: nat)
    requires
        n <= cs.len(),
    ensures
        terminal_ids_in(pruned_in(cs, gone, n), pruned_in(cs, gone, n).len()) == sifted(
            terminal_ids_in(cs, n),
            gone,
            false,
        ),
    decreases cs, n,
{
    if n > 0 {
        pruning_below(cs, gone, (n - 1) as nat);
        pruning_takes_only_what_goes(cs[n - 1], gone);
        let front = pruned_in(cs, gone, (n - 1) as nat);
        sifted_concat(
            terminal_ids_in(cs, (n - 1) as nat),
            terminal_ids(cs[n - 1]),
            gone,
            false,
        );
        match pruned(cs[n - 1], gone) {
            Some(c) => {
                crate::layout_laws::ids_in_prefix(front, front.push(c), front.len());
            },
            None => {
                let a = sifted(terminal_ids_in(cs, (n - 1) as nat), gone, false);
                assert(a + Seq::<Seq<char>>::empty() =~= a);
            },
        }
    }
}

/// Clearing the hook terminals of a project takes them out of its panes and
/// forgets their names; the other terminals stay, in their order, with theirs.
pub proof fn clearing_takes_the_hook_terminals(p: ProjectView, x: Seq<char>)
    ensures
        ({
            let q = without_hook_terminals(p);
            let hooks = keys_of(p.hook_terminals);
            &&& q.hook_terminals.len() == 0
            &&& opt_terminal_ids(q.layout) == sifted(opt_terminal_ids(p.layout), hooks, false)
            &&& opt_terminal_ids(q.layout).contains(x) <==> opt_terminal_ids(p.layout).contains(x)
                && !hooks.contains(x)
            &&& lookup(q.terminal_names, x) == if hooks.contains(x) {
                None
            } else {
                lookup(p.terminal_names, x)
            }
            &&& q.id == p.id
            &&& q.path == p.path
        }),
{
    let hooks = keys_of(p.hook_terminals);
    if let Some(l) = p.layout {
        pruning_takes_only_what_goes(l, hooks);
    }
    sifted_members(opt_terminal_ids(p.layout), hooks, false);
    lookup_after_sift(p.terminal_names, hooks, false, x);
}

/// A hook terminal that has started is noted as running in its project, with
/// what it runs and where; no other project changes.
pub proof fn started_hooks_are_noted(ps: Seq<ProjectView>, r: HookResultView, other: Seq<char>)
    requires
        project_in(ps, r.project_id) is Some,
    ensures
        ({
            let p = project_in(result_noted(ps, r), r.project_id);
            &&& p is Some
            &&& match lookup((p->0).hook_terminals, r.terminal_id) {
                Some(e) => {
                    &&& e.status == HookTerminalStatus::Running
                    &&& e.label == r.label
                    &&& e.hook_type == r.hook_type
                    &&& e.command == r.command
                    &&& e.cwd == r.cwd
                    &&& e.finished_at is None
                },
                None => false,
            }
            &&& (p->0).layout == (project_in(ps, r.project_id)->0).layout
            &&& other != r.project_id ==> project_in(result_noted(ps, r), other) == project_in(
                ps,
                other,
            )
        }),
{
    let p = project_in(ps, r.project_id)->0;
    project_in_id(ps, r.project_id);
    let e = crate::actions::project_open::running_entry(r);
    let q = ProjectView {
        hook_terminals: crate::collections::stored(p.hook_terminals, r.terminal_id, e),
        ..p
    };
    with_project_lookup(ps, r.project_id, q, r.project_id);
    with_project_lookup(ps, r.project_id, q, other);
    lookup_after_store(p.hook_terminals, r.terminal_id, e, r.terminal_id);
}

/// A project gets the colour that it is given; a worktree keeps it as its own. A
/// worktree of the project that has no colour of its own gets it too.
pub proof fn colours_are_handed_on(
    w: WorkspaceView,
    id: Seq<char>,
    color: FolderColor,
    child: Seq<char>,
)
    requires
        ws_project(w, id) is Some,
        child != id,
    ensures
        ({
            let p = ws_project(w, id)->0;
            let q = ws_project(colored(w, id, color), id);
            let c = ws_project(colored(w, id, color), child);
            &&& q is Some
            &&& p.worktree_info is Some ==> {
                &&& (q->0).worktree_info is Some
                &&& ((q->0).worktree_info->0).color_override == Some(color)
                &&& c == ws_project(w, child)
            }
            &&& p.worktree_info is None && !p.worktree_ids.contains(id) ==> (q->0).folder_color
                == color
            &&& p.worktree_info is None && p.worktree_ids.contains(child) && ws_project(w, child)
                is Some ==> {
                let before = ws_project(w, child)->0;
                &&& c is Some
                &&& before.worktree_info is Some && (before.worktree_info->0).color_override
                    is Some ==> c == Some(before)
                &&& !(before.worktree_info is Some && (before.worktree_info->0).color_override
                    is Some) ==> (c->0).folder_color == color
            }
            &&& p.worktree_info is None && !p.worktree_ids.contains(child) ==> c == ws_project(
                w,
                child,
            )
        }),
{
    let p = ws_project(w, id)->0;
    project_in_id(w.data.projects, id);
    project_in_id(w.data.projects, child);
    if let Some(wt) = p.worktree_info {
        let q = ProjectView {
            worktree_info: Some(
                crate::state::WorktreeView { color_override: Some(color), ..wt },
            ),
            ..p
        };
        with_project_lookup(w.data.projects, id, q, id);
        with_project_lookup(w.data.projects, id, q, child);
    } else {
        let q = ProjectView { folder_color: color, ..p };
        let own = crate::state::with_project(w.data.projects, id, q);
        with_project_lookup(w.data.projects, id, q, id);
        with_project_lookup(w.data.projects, id, q, child);
        recoloring(own, p.worktree_ids, color, p.worktree_ids.len(), child);
        recoloring(own, p.worktree_ids, color, p.worktree_ids.len(), id);
        assert(p.worktree_ids.take(p.worktree_ids.len() as int) =~= p.worktree_ids);
    }
}

proof fn recoloring(
    ps: Seq<ProjectView>,
    ids: Seq<Seq<char>>,
    color: FolderColor,
    n: nat,
    x: Seq<char>,
)
    requires
        n <= ids.len(),
    ensures
        project_in(recolored(ps, ids, color, n), x) == match project_in(ps, x) {
            Some(p) => Some(
                if ids.take(n as int).contains(x) {
                    inheriting(p, color)
                } else {
                    p
                },
            ),
            None => None,
        },
    decreases n,
{
    if n == 0 {
        assert(ids.take(0) =~= Seq::<Seq<char>>::empty());
    } else {
        recoloring(ps, ids, color, (n - 1) as nat, x);
        recoloring(ps, ids, color, (n - 1) as nat, ids[n - 1]);
        let front = recolored(ps, ids, color, (n - 1) as nat);
        contains_last(ids.take(n as int));
        assert(ids.take(n as int).drop_last() =~= ids.take(n - 1));
        assert(ids.take(n as int).last() == ids[n - 1]);
        project_in_id(front, ids[n - 1]);
        if let Some(p) = project_in(front, ids[n - 1]) {
            with_project_lookup(front, ids[n - 1], inheriting(p, color), x);
        }
    }
}

/// A deleted project takes nothing of the others with it: each one stays as it
/// was, but for the deleted one among its worktrees.
pub proof fn deleting_leaves_the_others_alone(d: DataView, id: Seq<char>, other: Seq<char>)
    requires
        other != id,
    ensures
        match project_in(d.projects, other) {
            Some(p) => project_in(project_deleted(d, id).projects, other) == Some(
                ProjectView { worktree_ids: without(p.worktree_ids, id), ..p },
            ),
            None => project_in(project_deleted(d, id).projects, other) is None,
        },
        project_deleted(d, id).folders.len() == d.folders.len(),
        project_deleted(d, id).version == d.version,
{
    let f = IdFilterView::NotId(id);
    let kept = kept_rows(d.projects, f);
    kept_rows_are_found(d.projects, f, other);
    let rest = row_dropped(d, id).projects;
    assert(project_ids(rest) =~= project_ids(kept));
    position_is_first(project_ids(kept), other);
}

/// A new project is there as it was made, last in the order; nothing else
/// changes.
pub proof fn added_projects_come_last(
    d: DataView,
    row: ProjectView,
    window: WindowId,
    other: Seq<char>,
)
    requires
        !has_project(d.projects, row.id),
    ensures
        ({
            let e = row_added(d, row, window);
            &&& project_in(e.projects, row.id) == Some(row)
            &&& other != row.id ==> project_in(e.projects, other) == project_in(d.projects, other)
            &&& e.project_order.last() == row.id
            &&& e.project_order.drop_last() == d.project_order
            &&& e.folders == d.folders
        }),
{
    let e = row_added(d, row, window);
    let ids = project_ids(d.projects);
    assert(project_ids(e.projects) =~= ids.push(row.id));
    assert(ids.push(row.id).drop_last() =~= ids);
    position_is_first(ids, row.id);
    position_is_first(ids, other);
    assert(e.project_order.drop_last() =~= d.project_order);
}

/// A deleted project holds neither the zoom nor the full screen.
pub proof fn deleted_projects_lose_the_window(f: FocusView, id: Seq<char>)
    ensures
        ({
            let g = focus_after_delete(f, id);
            &&& f.fullscreen is Some && (f.fullscreen->0).project_id == id ==> g.fullscreen is None
            &&& f.fullscreen is None && f.focused_project_id == Some(id) ==> g.focused_project_id
                is None && !g.individual
            &&& f.focused_project_id != Some(id) && (f.fullscreen is None || (
            f.fullscreen->0).project_id != id) ==> g == f
        }),
{
}

/// A clone is made in a folder of a single name below its parent, and nowhere
/// else: no name that leads elsewhere is taken.
pub proof fn clones_stay_below_their_parent(
    windows: bool,
    home: Option<Seq<char>>,
    parent: Seq<char>,
    directory: Seq<char>,
)
    ensures
        ({
            let root = expanded(home, trimmed(parent));
            let name = trimmed(directory);
            match clone_target(windows, home, parent, directory) {
                Ok(path) => {
                    &&& path == below(windows, root, name)
                    &&& root.len() > 0
                    &&& name.len() > 0
                    &&& !name.contains('/')
                    &&& !name.contains('\\')
                    &&& name != "."@
                    &&& name != ".."@
                },
                Err(_) => {
                    ||| root.len() == 0
                    ||| name.len() == 0
                    ||| !plain_name(windows, name)
                },
            }
        }),
{
}

/// A tilde stands for the home directory; every other path stands for itself.
pub proof fn tildes_stand_for_the_home(home: Seq<char>, path: Seq<char>, rest: Seq<char>)
    ensures
        expanded(Some(home), "~"@) == home,
        expanded(Some(home), "~/"@ + rest) == home + "/"@ + rest,
        path.len() > 0 && path[0] != '~' ==> expanded(Some(home), path) == path,
        expanded(None, path) == path,
{
    reveal_strlit("~");
    reveal_strlit("~/");
    reveal_strlit("/");
    assert("~"@.skip(1) =~= Seq::<char>::empty());
    assert(home + Seq::<char>::empty() =~= home);
    let p = "~/"@ + rest;
    assert(p.take(2) =~= "~/"@);
    assert(p.skip(1) =~= "/"@ + rest);
    assert(home + ("/"@ + rest) =~= home + "/"@ + rest);
    if path.len() > 0 && path[0] != '~' {
        assert(path != "~"@) by {
            assert("~"@[0] == '~');
        }
        if has_prefix(path, "~/"@) {
            assert(path.take(2)[0] == path[0]);
            assert("~/"@[0] == '~');
        }
    }
}

/// A clone is called as it was asked to, or else after its folder.
pub proof fn clones_are_named(name: Seq<char>, directory: Seq<char>)
    ensures
        trimmed(name).len() > 0 ==> clone_name(name, directory) == trimmed(name),
        trimmed(name).len() == 0 ==> clone_name(name, directory) == trimmed(directory),
{
}

} // verus!
