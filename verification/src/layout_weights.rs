//! How groups share their space and which tab they show, once panes leave, are
//! flattened into their group, or come from a server.

use crate::layout::{
    LayoutView, active_without, children_of, node_at, normalized, normalized_in_index, removed,
    share, sizes_without, terminal_ids, total_weight,
};
use crate::layout_merge::{child_holding, merged, showing};
use crate::layout_terminals::visible_path;
use vstd::prelude::*;

verus! {

/// A pane that leaves a group leaves its place alone: the group is where it was,
/// without the pane, and one pane that is left over takes the group's place.
pub proof fn a_pane_leaves_its_group(l: LayoutView, path: Seq<usize>)
    requires
        path.len() > 0,
        node_at(l, path) is Some,
    ensures
        removed(l, path) is Some,
        node_at(l, path.drop_last()) is Some,
        ({
            let i = path.last() as int;
            let group = node_at(l, path.drop_last())->0;
            let rest = children_of(group).remove(i);
            let left = node_at(removed(l, path)->0, path.drop_last());
            &&& left is Some
            &&& rest.len() == 1 ==> left->0 == rest[0]
            &&& rest.len() != 1 ==> children_of(left->0) == rest
            &&& rest.len() != 1 && group is Split ==> left->0 is Split && left->0->direction
                == group->direction && left->0->sizes == sizes_without(group->sizes, i)
            &&& rest.len() != 1 && group is Tabs ==> left->0 is Tabs && left->0->active_tab
                == active_without(group->active_tab, i, rest.len())
        }),
    decreases path.len(),
{
    if path.len() == 1 {
        assert(path.drop_last() =~= Seq::<usize>::empty());
        assert(path.skip(1) =~= Seq::<usize>::empty());
    } else {
        let i = path[0] as int;
        let c = children_of(l)[i];
        a_pane_leaves_its_group(c, path.skip(1));
        assert(path.drop_last().skip(1) =~= path.skip(1).drop_last());
        assert(path.skip(1).last() == path.last());
        assert(path.drop_last()[0] == path[0]);
    }
}

/// The space of a pane that leaves goes to the one before it, or to the one
/// behind where it was the first. No other pane gets larger or smaller, and
/// together they fill what they filled before.
pub proof fn the_neighbour_gets_the_space(sizes: Seq<u32>, i: int, j: int)
    requires
        0 <= i < sizes.len(),
        sizes.len() > 1,
        total_weight(sizes, sizes.len()) <= u32::MAX,
    ensures
        ({
            let rest = sizes_without(sizes, i);
            let heir = if i > 0 {
                i - 1
            } else {
                0
            };
            &&& rest.len() == sizes.len() - 1
            &&& i > 0 ==> rest[heir] == sizes[i - 1] + sizes[i]
            &&& i == 0 ==> rest[heir] == sizes[1] + sizes[0]
            &&& 0 <= j < rest.len() && j != heir && j < i ==> rest[j] == sizes[j]
            &&& 0 <= j < rest.len() && j != heir && j >= i ==> rest[j] == sizes[j + 1]
        }),
{
    pairs_are_within(sizes, sizes.len(), i, if i > 0 {
        i - 1
    } else {
        1
    });
}

proof fn pairs_are_within(sizes: Seq<u32>, n: nat, i: int, j: int)
    requires
        n <= sizes.len(),
        0 <= i < n,
        0 <= j < n,
        i != j,
    ensures
        sizes[i] + sizes[j] <= total_weight(sizes, n),
    decreases n,
{
    if i == n - 1 {
        one_is_within(sizes, (n - 1) as nat, j);
    } else if j == n - 1 {
        one_is_within(sizes, (n - 1) as nat, i);
    } else {
        pairs_are_within(sizes, (n - 1) as nat, i, j);
    }
}

proof fn one_is_within(sizes: Seq<u32>, n: nat, j: int)
    requires
        n <= sizes.len(),
        0 <= j < n,
    ensures
        sizes[j] <= total_weight(sizes, n),
    decreases n,
{
    if j < n - 1 {
        one_is_within(sizes, (n - 1) as nat, j);
    }
}

/// Where another tab leaves, the tab that showed still shows; where the showing
/// tab leaves, one of the others shows.
pub proof fn the_showing_tab_stays(children: Seq<LayoutView>, active: usize, i: int)
    requires
        0 <= i < children.len(),
        active < children.len(),
        children.len() > 1,
    ensures
        ({
            let rest = children.remove(i);
            let now = active_without(active, i, rest.len());
            &&& now < rest.len()
            &&& active != i ==> rest[now as int] == children[active as int]
        }),
{
}

/// A pane that comes up into a larger group keeps its part of the space that its
/// own group had: no more than that, and short of it by less than one.
pub proof fn flattened_panes_keep_their_part(w: u32, sizes: Seq<u32>, n: nat, j: int)
    requires
        0 <= j < n <= sizes.len(),
        total_weight(sizes, n) > 0,
    ensures
        share(w, sizes, n, j) * total_weight(sizes, n) <= w * sizes[j] < (share(w, sizes, n, j) + 1)
            * total_weight(sizes, n),
        share(w, sizes, n, j) <= w,
{
    one_is_within(sizes, n, j);
    let t = total_weight(sizes, n) as int;
    let p = w as int * sizes[j] as int;
    let q = p / t;
    let s = sizes[j] as int;
    let v = w as int;
    assert(0 <= q <= v && q * t <= p < (q + 1) * t) by (nonlinear_arith)
        requires
            t > 0,
            0 <= s <= t,
            0 <= v,
            p == v * s,
            q == p / t,
    ;
}

/// The terminal that shows is found by the tabs that show: the way to it goes
/// through the showing tab of every group of tabs, and through the first pane of
/// every split.
pub proof fn the_way_goes_through_what_shows(l: LayoutView, k: int)
    requires
        0 <= k < visible_path(l).len(),
    ensures
        match node_at(l, visible_path(l).take(k)) {
            Some(LayoutView::Tabs { children, active_tab }) => active_tab < children.len()
                ==> visible_path(l)[k] == active_tab,
            Some(LayoutView::Split { .. }) => visible_path(l)[k] == 0,
            _ => false,
        },
    decreases k, l,
{
    let path = visible_path(l);
    if k == 0 {
        assert(path.take(0) =~= Seq::<usize>::empty());
    } else {
        let first = path[0] as int;
        let c = children_of(l)[first];
        assert(path == seq![path[0]] + visible_path(c));
        assert(path.skip(1) =~= visible_path(c));
        assert(path.take(k).skip(1) =~= visible_path(c).take(k - 1));
        assert(path.take(k)[0] == path[0]);
        the_way_goes_through_what_shows(c, k - 1);
        assert(visible_path(c)[k - 1] == path[k]);
    }
}

/// A group of tabs keeps its tabs, and the one that shows, when the tree is
/// brought into normal form.
pub proof fn normalizing_keeps_the_tabs(children: Seq<LayoutView>, active: usize, i: int)
    requires
        children.len() > 1,
        active < children.len(),
        0 <= i < children.len(),
    ensures
        ({
            let l = normalized(LayoutView::Tabs { children, active_tab: active });
            &&& l is Tabs
            &&& children_of(l).len() == children.len()
            &&& children_of(l)[i] == normalized(children[i])
            &&& l->active_tab == active
        }),
{
    normalized_in_index(children, children.len());
}

/// The first of the tabs that holds a terminal is the one that is taken for it.
pub proof fn terminals_are_in_their_tab(cs: Seq<LayoutView>, t: Seq<char>, n: nat)
    requires
        n <= cs.len(),
    ensures
        match child_holding(cs, t, n) {
            Some(i) => 0 <= i < n && terminal_ids(cs[i]).contains(t) && forall|j: int|
                0 <= j < i ==> !terminal_ids(#[trigger] cs[j]).contains(t),
            None => forall|j: int| 0 <= j < n ==> !terminal_ids(#[trigger] cs[j]).contains(t),
        },
    decreases n,
{
    if n > 0 {
        terminals_are_in_their_tab(cs, t, (n - 1) as nat);
    }
}

/// A client keeps showing the tab with the terminal that it showed, wherever the
/// server has put it; where the server has that terminal no more, the server's
/// tab shows.
pub proof fn merging_keeps_the_shown_tab(
    children: Seq<LayoutView>,
    active: usize,
    local: LayoutView,
    whole: LayoutView,
    t: Seq<char>,
    i: int,
)
    requires
        local is Tabs,
        showing(local) == Some(t),
        0 <= i < children.len() <= usize::MAX,
    ensures
        ({
            let m = merged(LayoutView::Tabs { children, active_tab: active }, Some(local), whole);
            &&& terminal_ids(children[i]).contains(t) && (forall|j: int|
                0 <= j < i ==> !terminal_ids(#[trigger] children[j]).contains(t)) ==> m->active_tab
                == i
            &&& (forall|j: int|
                0 <= j < children.len() ==> !terminal_ids(#[trigger] children[j]).contains(t))
                ==> m->active_tab == active
        }),
{
    terminals_are_in_their_tab(children, t, children.len());
    if let Some(k) = child_holding(children, t, children.len()) {
        if k > i {
            assert(!terminal_ids(children[i]).contains(t));
        }
        if k < i {
            assert(terminal_ids(children[k]).contains(t));
        }
    }
}

} // verus!
