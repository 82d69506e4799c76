//! Where panes and tabs end up that are dragged onto others.

use crate::layout::{
    DropZone, LayoutView, SplitDirection, children_of, flat_children, node_at, normalized,
    normalized_in, normalized_in_index, pieces, removed, replaced, slot_path, terminal_ids,
    without_child,
};
use crate::layout_frames::{children_are_representable, representable, terminals_are_found};
use crate::layout_laws::{removing_takes_only_the_node, terminal_bag};
use crate::layout_moves::{drop_wrapper, dropped, moved_within, tab_inserted, tab_moved};
use vstd::prelude::*;

verus! {

/// Whether some split of `l` in direction `d` has `a` and, right behind it, `b`.
pub open spec fn side_by_side(
    l: LayoutView,
    d: SplitDirection,
    a: LayoutView,
    b: LayoutView,
) -> bool
    decreases l,
{
    match l {
        LayoutView::Terminal { .. } => false,
        LayoutView::Split { direction, children, .. } => {
            ||| direction == d && exists|k: int|
                0 <= k < children.len() - 1 && #[trigger] children[k] == a && children[k + 1] == b
            ||| exists|i: int|
                0 <= i < children.len() && side_by_side(#[trigger] children[i], d, a, b)
        },
        LayoutView::Tabs { children, .. } => exists|i: int|
            0 <= i < children.len() && side_by_side(#[trigger] children[i], d, a, b),
    }
}

/// Whether some tab group of `l` has `n` tabs, of which the one at `k`, which is
/// `a`, shows.
pub open spec fn shows_tab(l: LayoutView, n: nat, k: nat, a: LayoutView) -> bool
    decreases l,
{
    match l {
        LayoutView::Terminal { .. } => false,
        LayoutView::Split { children, .. } => exists|i: int|
            0 <= i < children.len() && shows_tab(#[trigger] children[i], n, k, a),
        LayoutView::Tabs { children, active_tab } => {
            ||| children.len() == n && k < n && active_tab == k && children[k as int] == a
            ||| exists|i: int| 0 <= i < children.len() && shows_tab(#[trigger] children[i], n, k, a)
        },
    }
}

/// Whether some tab group of `l` holds `a` and, right behind it, `b`.
pub open spec fn tabs_in_a_row(l: LayoutView, a: LayoutView, b: LayoutView) -> bool
    decreases l,
{
    match l {
        LayoutView::Terminal { .. } => false,
        LayoutView::Split { children, .. } => exists|i: int|
            0 <= i < children.len() && tabs_in_a_row(#[trigger] children[i], a, b),
        LayoutView::Tabs { children, .. } => {
            ||| exists|k: int|
                0 <= k < children.len() - 1 && #[trigger] children[k] == a && children[k + 1] == b
            ||| exists|i: int| 0 <= i < children.len() && tabs_in_a_row(#[trigger] children[i], a, b)
        },
    }
}

/// Where the pieces of the child `i` are among those of all children.
proof fn pieces_are_there(d: SplitDirection, cs: Seq<LayoutView>, n: nat, i: int, j: int)
    requires
        0 <= i < n <= cs.len(),
        0 <= j < pieces(d, cs[i]).len(),
    ensures
        flat_children(d, cs, i as nat).len() + j < flat_children(d, cs, n).len(),
        flat_children(d, cs, n)[flat_children(d, cs, i as nat).len() + j] == pieces(d, cs[i])[j],
        flat_children(d, cs, (i + 1) as nat).len() == flat_children(d, cs, i as nat).len() + pieces(
            d,
            cs[i],
        ).len(),
    decreases n,
{
    if i < n - 1 {
        pieces_are_there(d, cs, (n - 1) as nat, i, j);
    }
}

/// Panes side by side stay so when the tree is put in normal form.
proof fn normalizing_keeps_neighbours(
    l: LayoutView,
    d: SplitDirection,
    a: LayoutView,
    b: LayoutView,
)
    requires
        side_by_side(l, d, a, b),
        a is Terminal,
        b is Terminal,
    ensures
        side_by_side(normalized(l), d, a, b),
    decreases l,
{
    let children = children_of(l);
    let cs = normalized_in(children, children.len());
    normalized_in_index(children, children.len());
    match l {
        LayoutView::Terminal { .. } => {},
        LayoutView::Split { direction, .. } => {
            let flat = flat_children(direction, cs, cs.len());
            let out = normalized(l);
            if direction == d && exists|k: int|
                0 <= k < children.len() - 1 && #[trigger] children[k] == a && children[k + 1] == b {
                let k = choose|k: int|
                    0 <= k < children.len() - 1 && #[trigger] children[k] == a && children[k + 1]
                        == b;
                assert(cs[k] == normalized(children[k]) && cs[k + 1] == normalized(
                    children[k + 1],
                ));
                pieces_are_there(direction, cs, cs.len(), k, 0);
                pieces_are_there(direction, cs, cs.len(), k + 1, 0);
                let o = flat_children(direction, cs, k as nat).len() as int;
                assert(flat[o] == a && flat[o + 1] == b);
                assert(children_of(out)[o] == a);
            } else {
                let i = choose|i: int|
                    0 <= i < children.len() && side_by_side(#[trigger] children[i], d, a, b);
                normalizing_keeps_neighbours(children[i], d, a, b);
                assert(cs[i] == normalized(children[i]));
                let c = cs[i];
                let o = flat_children(direction, cs, i as nat).len() as int;
                let split_here = match c {
                    LayoutView::Split { direction: e, .. } => e == direction,
                    _ => false,
                };
                if split_here {
                    let g = children_of(c);
                    assert(pieces(direction, c) == g);
                    if direction == d && exists|k: int|
                        0 <= k < g.len() - 1 && #[trigger] g[k] == a && g[k + 1] == b {
                        let k = choose|k: int|
                            0 <= k < g.len() - 1 && #[trigger] g[k] == a && g[k + 1] == b;
                        pieces_are_there(direction, cs, cs.len(), i, k);
                        pieces_are_there(direction, cs, cs.len(), i, k + 1);
                        assert(flat[o + k] == a && flat[o + k + 1] == b);
                        assert(children_of(out)[o + k] == a);
                    } else {
                        let k = choose|k: int|
                            0 <= k < g.len() && side_by_side(#[trigger] g[k], d, a, b);
                        pieces_are_there(direction, cs, cs.len(), i, k);
                        assert(flat[o + k] == g[k]);
                        if flat.len() > 1 {
                            assert(children_of(out)[o + k] == g[k]);
                        }
                    }
                } else {
                    assert(pieces(direction, c) =~= seq![c]);
                    pieces_are_there(direction, cs, cs.len(), i, 0);
                    assert(flat[o] == c);
                    if flat.len() > 1 {
                        assert(children_of(out)[o] == c);
                    }
                }
            }
        },
        LayoutView::Tabs { .. } => {
            let i = choose|i: int|
                0 <= i < children.len() && side_by_side(#[trigger] children[i], d, a, b);
            normalizing_keeps_neighbours(children[i], d, a, b);
            assert(cs[i] == normalized(children[i]));
            if cs.len() > 1 {
                assert(children_of(normalized(l))[i] == cs[i]);
            }
        },
    }
}

proof fn replacing_brings_neighbours(
    l: LayoutView,
    path: Seq<usize>,
    new: LayoutView,
    d: SplitDirection,
    a: LayoutView,
    b: LayoutView,
)
    requires
        node_at(l, path) is Some,
        side_by_side(new, d, a, b),
    ensures
        side_by_side(replaced(l, path, new), d, a, b),
    decreases path.len(),
{
    if path.len() > 0 {
        let cs = children_of(l);
        let i = path[0] as int;
        replacing_brings_neighbours(cs[i], path.skip(1), new, d, a, b);
        let c = replaced(cs[i], path.skip(1), new);
        assert(cs.update(i, c)[i] == c);
        assert(children_of(replaced(l, path, new)) == cs.update(i, c));
    }
}

/// A tab that shows, and is a terminal, stays so when the tree is put in normal
/// form; its group has another tab.
proof fn normalizing_keeps_tabs(l: LayoutView, n: nat, k: nat, a: LayoutView)
    requires
        shows_tab(l, n, k, a),
        a is Terminal,
        n > 1,
    ensures
        shows_tab(normalized(l), n, k, a),
    decreases l,
{
    let children = children_of(l);
    let cs = normalized_in(children, children.len());
    normalized_in_index(children, children.len());
    match l {
        LayoutView::Terminal { .. } => {},
        LayoutView::Split { direction, .. } => {
            let flat = flat_children(direction, cs, cs.len());
            let out = normalized(l);
            let i = choose|i: int| 0 <= i < children.len() && shows_tab(#[trigger] children[i], n, k, a);
            normalizing_keeps_tabs(children[i], n, k, a);
            assert(cs[i] == normalized(children[i]));
            let c = cs[i];
            let o = flat_children(direction, cs, i as nat).len() as int;
            let split_here = match c {
                LayoutView::Split { direction: e, .. } => e == direction,
                _ => false,
            };
            if split_here {
                let g = children_of(c);
                assert(pieces(direction, c) == g);
                let j = choose|j: int| 0 <= j < g.len() && shows_tab(#[trigger] g[j], n, k, a);
                pieces_are_there(direction, cs, cs.len(), i, j);
                assert(flat[o + j] == g[j]);
                if flat.len() > 1 {
                    assert(children_of(out)[o + j] == g[j]);
                }
            } else {
                assert(pieces(direction, c) =~= seq![c]);
                pieces_are_there(direction, cs, cs.len(), i, 0);
                assert(flat[o] == c);
                if flat.len() > 1 {
                    assert(children_of(out)[o] == c);
                }
            }
        },
        LayoutView::Tabs { active_tab, .. } => {
            if children.len() == n && k < n && active_tab == k && children[k as int] == a {
                assert(cs[k as int] == normalized(children[k as int]));
            } else {
                let i = choose|i: int|
                    0 <= i < children.len() && shows_tab(#[trigger] children[i], n, k, a);
                normalizing_keeps_tabs(children[i], n, k, a);
                assert(cs[i] == normalized(children[i]));
                if cs.len() > 1 {
                    assert(children_of(normalized(l))[i] == cs[i]);
                }
            }
        },
    }
}

proof fn replacing_brings_tabs(
    l: LayoutView,
    path: Seq<usize>,
    new: LayoutView,
    n: nat,
    k: nat,
    a: LayoutView,
)
    requires
        node_at(l, path) is Some,
        shows_tab(new, n, k, a),
    ensures
        shows_tab(replaced(l, path, new), n, k, a),
    decreases path.len(),
{
    if path.len() > 0 {
        let cs = children_of(l);
        let i = path[0] as int;
        replacing_brings_tabs(cs[i], path.skip(1), new, n, k, a);
        let c = replaced(cs[i], path.skip(1), new);
        assert(cs.update(i, c)[i] == c);
        assert(children_of(replaced(l, path, new)) == cs.update(i, c));
    }
}

/// Tabs in a row stay so when the tree is put in normal form.
proof fn normalizing_keeps_rows_of_tabs(l: LayoutView, a: LayoutView, b: LayoutView)
    requires
        tabs_in_a_row(l, a, b),
        a is Terminal,
        b is Terminal,
    ensures
        tabs_in_a_row(normalized(l), a, b),
    decreases l,
{
    let children = children_of(l);
    let cs = normalized_in(children, children.len());
    normalized_in_index(children, children.len());
    match l {
        LayoutView::Terminal { .. } => {},
        LayoutView::Split { direction, .. } => {
            let flat = flat_children(direction, cs, cs.len());
            let out = normalized(l);
            let i = choose|i: int|
                0 <= i < children.len() && tabs_in_a_row(#[trigger] children[i], a, b);
            normalizing_keeps_rows_of_tabs(children[i], a, b);
            assert(cs[i] == normalized(children[i]));
            let c = cs[i];
            let o = flat_children(direction, cs, i as nat).len() as int;
            let split_here = match c {
                LayoutView::Split { direction: e, .. } => e == direction,
                _ => false,
            };
            if split_here {
                let g = children_of(c);
                assert(pieces(direction, c) == g);
                let j = choose|j: int| 0 <= j < g.len() && tabs_in_a_row(#[trigger] g[j], a, b);
                pieces_are_there(direction, cs, cs.len(), i, j);
                assert(flat[o + j] == g[j]);
                if flat.len() > 1 {
                    assert(children_of(out)[o + j] == g[j]);
                }
            } else {
                assert(pieces(direction, c) =~= seq![c]);
                pieces_are_there(direction, cs, cs.len(), i, 0);
                assert(flat[o] == c);
                if flat.len() > 1 {
                    assert(children_of(out)[o] == c);
                }
            }
        },
        LayoutView::Tabs { .. } => {
            if exists|k: int|
                0 <= k < children.len() - 1 && #[trigger] children[k] == a && children[k + 1] == b {
                let k = choose|k: int|
                    0 <= k < children.len() - 1 && #[trigger] children[k] == a && children[k + 1]
                        == b;
                assert(cs[k] == normalized(children[k]) && cs[k + 1] == normalized(
                    children[k + 1],
                ));
                assert(children_of(normalized(l))[k] == a);
            } else {
                let i = choose|i: int|
                    0 <= i < children.len() && tabs_in_a_row(#[trigger] children[i], a, b);
                normalizing_keeps_rows_of_tabs(children[i], a, b);
                assert(cs[i] == normalized(children[i]));
                if cs.len() > 1 {
                    assert(children_of(normalized(l))[i] == cs[i]);
                }
            }
        },
    }
}

proof fn replacing_brings_rows_of_tabs(
    l: LayoutView,
    path: Seq<usize>,
    new: LayoutView,
    a: LayoutView,
    b: LayoutView,
)
    requires
        node_at(l, path) is Some,
        tabs_in_a_row(new, a, b),
    ensures
        tabs_in_a_row(replaced(l, path, new), a, b),
    decreases path.len(),
{
    if path.len() > 0 {
        let cs = children_of(l);
        let i = path[0] as int;
        replacing_brings_rows_of_tabs(cs[i], path.skip(1), new, a, b);
        let c = replaced(cs[i], path.skip(1), new);
        assert(cs.update(i, c)[i] == c);
        assert(children_of(replaced(l, path, new)) == cs.update(i, c));
    }
}

/// Where a pane is dropped says where it goes: to the left or the right of the
/// other pane, above or below it, with half of the space each; in the centre it
/// becomes the other pane's next tab, and shows.
pub proof fn drop_zones_say_where(source: LayoutView, target: LayoutView, zone: DropZone)
    ensures
        match drop_wrapper(source, target, zone) {
            LayoutView::Split { direction, sizes, children } => {
                &&& !(zone is Center)
                &&& direction == if zone is Left || zone is Right {
                    SplitDirection::Vertical
                } else {
                    SplitDirection::Horizontal
                }
                &&& children.len() == 2
                &&& children[if zone is Left || zone is Top {
                    0int
                } else {
                    1
                }] == source
                &&& children[if zone is Left || zone is Top {
                    1int
                } else {
                    0
                }] == target
                &&& sizes.len() == 2
                &&& sizes[0] == sizes[1]
                &&& sizes[0] > 0
            },
            LayoutView::Tabs { children, active_tab } => {
                &&& zone is Center
                &&& children.len() == 2
                &&& children[0] == target
                &&& children[1] == source
                &&& active_tab == 1
            },
            LayoutView::Terminal { .. } => false,
        },
{
}

/// No two zones give the same layout.
pub proof fn drop_zones_differ(source: LayoutView, target: LayoutView, a: DropZone, b: DropZone)
    requires
        source != target,
        drop_wrapper(source, target, a) == drop_wrapper(source, target, b),
    ensures
        a == b,
{
    drop_zones_say_where(source, target, a);
    drop_zones_say_where(source, target, b);
}

/// A pane can be dropped on a terminal exactly where that terminal is.
pub proof fn drops_land_where_the_terminal_is(
    l: LayoutView,
    node: LayoutView,
    target: Seq<char>,
    zone: DropZone,
)
    requires
        representable(l),
    ensures
        dropped(l, node, target, zone) is Some <==> terminal_ids(l).contains(target),
{
    terminals_are_found(l, target);
}

/// How a pane that was dropped lies to the one that it was dropped on: beside
/// it in a vertical split for the left and the right, in a horizontal one for
/// the top and the bottom, before it for the left and the top, behind it for the
/// right and the bottom; or as its next tab, which shows.
pub open spec fn dropped_beside(
    l: LayoutView,
    node: LayoutView,
    on: LayoutView,
    zone: DropZone,
) -> bool {
    match zone {
        DropZone::Left => side_by_side(l, SplitDirection::Vertical, node, on),
        DropZone::Right => side_by_side(l, SplitDirection::Vertical, on, node),
        DropZone::Top => side_by_side(l, SplitDirection::Horizontal, node, on),
        DropZone::Bottom => side_by_side(l, SplitDirection::Horizontal, on, node),
        DropZone::Center => tabs_in_a_row(l, on, node) && shows_tab(l, 2, 1, node),
    }
}

/// A pane that was dropped on a terminal is beside it, on the side that it was
/// dropped on.
pub proof fn a_dropped_pane_is_beside_the_other(
    l: LayoutView,
    node: LayoutView,
    target: Seq<char>,
    zone: DropZone,
)
    requires
        representable(l),
        node is Terminal,
        dropped(l, node, target, zone) is Some,
    ensures
        ({
            let on = node_at(l, slot_path(l, Some(target))->0)->0;
            &&& on is Terminal
            &&& on->terminal_id == Some(target)
            &&& dropped_beside(dropped(l, node, target, zone)->0, node, on, zone)
        }),
{
    terminals_are_found(l, target);
    let p = slot_path(l, Some(target))->0;
    let on = node_at(l, p)->0;
    let w = drop_wrapper(node, on, zone);
    let whole = replaced(l, p, w);
    let cs = children_of(w);
    match zone {
        DropZone::Left => {
            assert(cs[0] == node && cs[0int + 1] == on);
            replacing_brings_neighbours(l, p, w, SplitDirection::Vertical, node, on);
            normalizing_keeps_neighbours(whole, SplitDirection::Vertical, node, on);
        },
        DropZone::Right => {
            assert(cs[0] == on && cs[0int + 1] == node);
            replacing_brings_neighbours(l, p, w, SplitDirection::Vertical, on, node);
            normalizing_keeps_neighbours(whole, SplitDirection::Vertical, on, node);
        },
        DropZone::Top => {
            assert(cs[0] == node && cs[0int + 1] == on);
            replacing_brings_neighbours(l, p, w, SplitDirection::Horizontal, node, on);
            normalizing_keeps_neighbours(whole, SplitDirection::Horizontal, node, on);
        },
        DropZone::Bottom => {
            assert(cs[0] == on && cs[0int + 1] == node);
            replacing_brings_neighbours(l, p, w, SplitDirection::Horizontal, on, node);
            normalizing_keeps_neighbours(whole, SplitDirection::Horizontal, on, node);
        },
        DropZone::Center => {
            assert(cs[0] == on && cs[0int + 1] == node);
            replacing_brings_rows_of_tabs(l, p, w, on, node);
            normalizing_keeps_rows_of_tabs(whole, on, node);
            replacing_brings_tabs(l, p, w, 2, 1, node);
            normalizing_keeps_tabs(whole, 2, 1, node);
        },
    }
}

/// A tree whose groups are representable is so itself.
proof fn built_of_representable(l: LayoutView)
    requires
        children_of(l).len() <= usize::MAX,
        forall|i: int| 0 <= i < children_of(l).len() ==> representable(#[trigger] children_of(l)[i]),
    ensures
        representable(l),
{
    assert forall|path: Seq<usize>| #[trigger] node_at(l, path) is Some implies children_of(
        node_at(l, path)->0,
    ).len() <= usize::MAX by {
        if path.len() > 0 {
            let c = children_of(l)[path[0] as int];
            assert(node_at(c, path.skip(1)) is Some);
        }
    }
}

/// What remains of a representable tree is representable.
pub proof fn removing_keeps_representable(l: LayoutView, path: Seq<usize>)
    requires
        representable(l),
        removed(l, path) is Some,
    ensures
        representable(removed(l, path)->0),
    decreases path.len(),
{
    let cs = children_of(l);
    let i = path[0] as int;
    let r = removed(l, path)->0;
    children_are_representable(l, i);
    if path.len() == 1 {
        let rest = cs.remove(i);
        assert forall|j: int| 0 <= j < rest.len() implies representable(#[trigger] rest[j]) by {
            if j < i {
                children_are_representable(l, j);
                assert(rest[j] == cs[j]);
            } else {
                children_are_representable(l, j + 1);
                assert(rest[j] == cs[j + 1]);
            }
        }
        if rest.len() == 1 {
            assert(r == rest[0]);
        } else {
            assert(r == without_child(l, i));
            if !(l is Terminal) {
                assert(children_of(r) == rest);
                built_of_representable(r);
            }
        }
    } else {
        removing_keeps_representable(cs[i], path.skip(1));
        let c = removed(cs[i], path.skip(1))->0;
        assert(children_of(r) == cs.update(i, c));
        assert forall|j: int| 0 <= j < cs.len() implies representable(
            #[trigger] children_of(r)[j],
        ) by {
            if j != i {
                children_are_representable(l, j);
            }
        }
        built_of_representable(r);
    }
}

/// A node that is not the root can be removed.
pub proof fn nodes_can_be_removed(l: LayoutView, path: Seq<usize>)
    requires
        node_at(l, path) is Some,
        path.len() > 0,
    ensures
        removed(l, path) is Some,
    decreases path.len(),
{
    if path.len() > 1 {
        nodes_can_be_removed(children_of(l)[path[0] as int], path.skip(1));
    }
}

proof fn counts_say_what_is_held(s: Seq<Seq<char>>, t: Seq<char>)
    ensures
        s.contains(t) <==> s.to_multiset().count(t) > 0,
{
    s.to_multiset_ensures();
}

/// A pane can be moved within its project exactly where it and the one that it
/// is dropped on are there, and are not the same.
pub proof fn panes_move_where_both_are(
    l: LayoutView,
    source: Seq<char>,
    target: Seq<char>,
    zone: DropZone,
)
    requires
        representable(l),
        terminal_ids(l).no_duplicates(),
    ensures
        moved_within(l, source, target, zone) is Some <==> source != target && terminal_ids(
            l,
        ).contains(source) && terminal_ids(l).contains(target),
{
    let ids = terminal_ids(l);
    terminals_are_found(l, source);
    if ids.contains(source) {
        let p = slot_path(l, Some(source))->0;
        let node = node_at(l, p)->0;
        assert(terminal_ids(node) =~= seq![source]);
        if p.len() == 0 {
            assert(l == node);
            assert(ids =~= seq![source]);
            if ids.contains(target) {
                let k = choose|k: int| 0 <= k < ids.len() && ids[k] == target;
                assert(k == 0);
            }
        } else {
            nodes_can_be_removed(l, p);
            let rest = removed(l, p)->0;
            removing_keeps_representable(l, p);
            removing_takes_only_the_node(l, p);
            terminals_are_found(rest, target);
            counts_say_what_is_held(terminal_ids(rest), target);
            counts_say_what_is_held(ids, target);
            counts_say_what_is_held(seq![source], target);
            assert(terminal_bag(rest).add(terminal_bag(node)).count(target) == terminal_bag(l).count(
                target,
            ));
            assert(seq![source].contains(target) ==> source == target);
            if source == target {
                assert(ids.to_multiset().count(target) == 1) by {
                    ids.lemma_multiset_has_no_duplicates();
                    counts_say_what_is_held(ids, target);
                }
                assert(seq![source][0] == target);
            } else if ids.contains(target) {
                let a = choose|a: int| 0 <= a < ids.len() && ids[a] == source;
                let b = choose|b: int| 0 <= b < ids.len() && ids[b] == target;
                assert(a != b);
            }
        }
    }
}

/// A pane that was moved within its project is beside the one that it was
/// dropped on, on the side that it was dropped on.
pub proof fn a_moved_pane_is_beside_the_other(
    l: LayoutView,
    source: Seq<char>,
    target: Seq<char>,
    zone: DropZone,
)
    requires
        representable(l),
        moved_within(l, source, target, zone) is Some,
    ensures
        exists|node: LayoutView, on: LayoutView|
            {
                &&& node is Terminal
                &&& node->terminal_id == Some(source)
                &&& node_at(l, slot_path(l, Some(source))->0) == Some(node)
                &&& on is Terminal
                &&& on->terminal_id == Some(target)
                &&& #[trigger] dropped_beside(
                    moved_within(l, source, target, zone)->0,
                    node,
                    on,
                    zone,
                )
            },
{
    terminals_are_found(l, source);
    let p = slot_path(l, Some(source))->0;
    let node = node_at(l, p)->0;
    let rest = removed(l, p)->0;
    removing_keeps_representable(l, p);
    a_dropped_pane_is_beside_the_other(rest, node, target, zone);
    let on = node_at(rest, slot_path(rest, Some(target))->0)->0;
    assert(dropped_beside(moved_within(l, source, target, zone)->0, node, on, zone));
}

/// Where a tab goes among `n` that is asked to go to `index`: there, or last.
pub open spec fn asked_place(index: Option<usize>, n: nat) -> nat {
    if index is Some && index->0 < n {
        index->0 as nat
    } else {
        n
    }
}

/// A tab can be inserted exactly where there is a tab group. It is where it was
/// asked to go, or last, and shows; no other tab goes.
pub proof fn an_inserted_tab_shows_in_its_place(
    l: LayoutView,
    path: Seq<usize>,
    index: Option<usize>,
    node: LayoutView,
)
    requires
        node is Terminal,
    ensures
        tab_inserted(l, path, index, node) is Some <==> node_at(l, path) is Some && node_at(
            l,
            path,
        )->0 is Tabs,
        node_at(l, path) is Some && node_at(l, path)->0 is Tabs && 0 < children_of(
            node_at(l, path)->0,
        ).len() < usize::MAX ==> {
            let n = children_of(node_at(l, path)->0).len();
            let k = asked_place(index, n);
            shows_tab(tab_inserted(l, path, index, node)->0, n + 1, k, node)
        },
{
    if node_at(l, path) is Some && node_at(l, path)->0 is Tabs {
        let cs = children_of(node_at(l, path)->0);
        let n = cs.len();
        if 0 < n < usize::MAX {
            let k = asked_place(index, n);
            let w = LayoutView::Tabs {
                children: cs.insert(k as int, node),
                active_tab: k as usize,
            };
            assert(shows_tab(w, n + 1, k, node));
            replacing_brings_tabs(l, path, w, n + 1, k, node);
            normalizing_keeps_tabs(replaced(l, path, w), n + 1, k, node);
        }
    }
}

/// A tab that was moved is where it was asked to go, or last; the others keep
/// their order; and the tab that showed still shows.
pub proof fn a_moved_tab_is_in_its_place(l: LayoutView, path: Seq<usize>, from: usize, to: usize)
    requires
        node_at(l, path) is Some,
        children_of(node_at(l, path)->0).len() <= usize::MAX,
        tab_moved(l, path, from, to) is Some,
    ensures
        node_at(tab_moved(l, path, from, to)->0, path) is Some,
        match (node_at(l, path)->0, node_at(tab_moved(l, path, from, to)->0, path)->0) {
            (
                LayoutView::Tabs { children: a, active_tab: x },
                LayoutView::Tabs { children: b, active_tab: y },
            ) => {
                let at = if to < a.len() {
                    to as int
                } else {
                    a.len() - 1
                };
                &&& from < a.len()
                &&& b.len() == a.len()
                &&& b[at] == a[from as int]
                &&& b.remove(at) == a.remove(from as int)
                &&& y < b.len()
                &&& b[y as int] == a[x as int]
            },
            _ => false,
        },
{
    let group = node_at(l, path)->0;
    match group {
        LayoutView::Tabs { children, active_tab } => {
            let at = crate::layout_moves::landing(Some(to), (children.len() - 1) as nat);
            let less = children.remove(from as int);
            let b = less.insert(at as int, children[from as int]);
            let new = LayoutView::Tabs {
                children: b,
                active_tab: crate::layout_moves::active_after_move(active_tab, from, at),
            };
            replaced_is_there(l, path, new);
            assert(b.remove(at as int) =~= less);
        },
        _ => {},
    }
}

/// What was put in a place is found there.
pub proof fn replaced_is_there(l: LayoutView, path: Seq<usize>, new: LayoutView)
    requires
        node_at(l, path) is Some,
    ensures
        node_at(replaced(l, path, new), path) == Some(new),
    decreases path.len(),
{
    if path.len() > 0 {
        let cs = children_of(l);
        let i = path[0] as int;
        replaced_is_there(cs[i], path.skip(1), new);
        assert(children_of(replaced(l, path, new)) == cs.update(
            i,
            replaced(cs[i], path.skip(1), new),
        ));
    }
}

/// A tab can be moved exactly where there is a tab group that has it, and whose
/// active tab is one of its own.
pub proof fn tabs_move_where_they_are(l: LayoutView, path: Seq<usize>, from: usize, to: usize)
    ensures
        tab_moved(l, path, from, to) is Some <==> match node_at(l, path) {
            Some(LayoutView::Tabs { children, active_tab }) => from < children.len() && active_tab
                < children.len(),
            _ => false,
        },
{
}

} // verus!
