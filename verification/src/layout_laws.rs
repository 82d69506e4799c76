//! What the edits of a pane tree keep: no edit but a removal loses a terminal,
//! and none makes one up.

use crate::actions::move_ops::{handed_over, takeout};
use crate::layout::{
    DropZone, LayoutView, SplitDirection, children_of, flat_children, node_at, normalized,
    normalized_in, opt_terminal_ids, pieces, removed, replaced, slot_path, terminal_ids,
    terminal_ids_in, flat_sizes, normalized_in_index,
};
use crate::layout_moves::{
    drop_wrapper, dropped, enclosing_tabs, extracted, landing, moved_to_tabs, moved_within,
    tab_inserted, tab_moved, tab_reference,
};
use crate::state::ProjectView;
use vstd::multiset::Multiset;
use vstd::prelude::*;

verus! {

/// The terminals of `l`, each as often as it occurs.
pub open spec fn terminal_bag(l: LayoutView) -> Multiset<Seq<char>> {
    terminal_ids(l).to_multiset()
}

/// The terminals of an optional tree, each as often as it occurs.
pub open spec fn opt_terminal_bag(o: Option<LayoutView>) -> Multiset<Seq<char>> {
    opt_terminal_ids(o).to_multiset()
}

/// The terminal ids of all of `cs`.
pub open spec fn ids_of_all(cs: Seq<LayoutView>) -> Seq<Seq<char>> {
    terminal_ids_in(cs, cs.len())
}

/// Lists of trees that start alike hold the same terminals in that part.
pub proof fn ids_in_prefix(cs: Seq<LayoutView>, ds: Seq<LayoutView>, n: nat)
    requires
        n <= cs.len(),
        n <= ds.len(),
        forall|i: int| 0 <= i < n ==> cs[i] == ds[i],
    ensures
        terminal_ids_in(cs, n) == terminal_ids_in(ds, n),
    decreases n,
{
    if n > 0 {
        ids_in_prefix(cs, ds, (n - 1) as nat);
    }
}

/// The terminals of two lists of trees are those of the first, then those of
/// the second.
pub proof fn ids_of_concat(a: Seq<LayoutView>, b: Seq<LayoutView>)
    ensures
        ids_of_all(a + b) == ids_of_all(a) + ids_of_all(b),
    decreases b.len(),
{
    if b.len() == 0 {
        assert(a + b =~= a);
        assert(ids_of_all(a) + ids_of_all(b) =~= ids_of_all(a));
    } else {
        let whole = a + b;
        let front = a + b.drop_last();
        ids_of_concat(a, b.drop_last());
        ids_in_prefix(whole, front, front.len());
        ids_in_prefix(b, b.drop_last(), b.drop_last().len());
        assert(whole[whole.len() - 1] == b.last());
        assert(ids_of_all(whole) =~= ids_of_all(front) + terminal_ids(b.last()));
        assert(ids_of_all(b) =~= ids_of_all(b.drop_last()) + terminal_ids(b.last()));
        assert(ids_of_all(whole) =~= ids_of_all(a) + ids_of_all(b));
    }
}

proof fn ids_of_one(c: LayoutView)
    ensures
        ids_of_all(seq![c]) == terminal_ids(c),
{
    reveal_with_fuel(terminal_ids_in, 3);
    assert(ids_of_all(seq![c]) =~= terminal_ids(c));
}

proof fn normalized_in_keeps_ids(cs: Seq<LayoutView>, n: nat)
    requires
        n <= cs.len(),
    ensures
        normalized_in(cs, n).len() == n,
        ids_of_all(normalized_in(cs, n)) == terminal_ids_in(cs, n),
    decreases cs, n,
{
    if n > 0 {
        let front = normalized_in(cs, (n - 1) as nat);
        normalized_in_keeps_ids(cs, (n - 1) as nat);
        normalizing_keeps_terminals(cs[n - 1]);
        ids_of_concat(front, seq![normalized(cs[n - 1])]);
        ids_of_one(normalized(cs[n - 1]));
        assert(normalized_in(cs, n) =~= front + seq![normalized(cs[n - 1])]);
    }
}

proof fn flat_children_keep_ids(d: SplitDirection, cs: Seq<LayoutView>, n: nat)
    requires
        n <= cs.len(),
    ensures
        ids_of_all(flat_children(d, cs, n)) == terminal_ids_in(cs, n),
    decreases n,
{
    if n > 0 {
        let c = cs[n - 1];
        flat_children_keep_ids(d, cs, (n - 1) as nat);
        ids_of_concat(flat_children(d, cs, (n - 1) as nat), pieces(d, c));
        ids_of_one(c);
    }
}

/// Putting a tree in normal form keeps its terminals, in their order.
pub proof fn normalizing_keeps_terminals(l: LayoutView)
    ensures
        terminal_ids(normalized(l)) == terminal_ids(l),
    decreases l, 0nat,
{
    match l {
        LayoutView::Terminal { .. } => {},
        LayoutView::Split { direction, sizes, children } => {
            let cs = normalized_in(children, children.len());
            normalized_in_keeps_ids(children, children.len());
            flat_children_keep_ids(direction, cs, cs.len());
            let flat = flat_children(direction, cs, cs.len());
            if flat.len() == 1 {
                assert(flat =~= seq![flat[0]]);
                ids_of_one(flat[0]);
            }
        },
        LayoutView::Tabs { children, active_tab } => {
            let cs = normalized_in(children, children.len());
            normalized_in_keeps_ids(children, children.len());
            if cs.len() == 1 {
                assert(cs =~= seq![cs[0]]);
                ids_of_one(cs[0]);
            }
        },
    }
}

proof fn bag_of_concat(a: Seq<Seq<char>>, b: Seq<Seq<char>>)
    ensures
        (a + b).to_multiset() == a.to_multiset().add(b.to_multiset()),
{
    vstd::seq_lib::lemma_multiset_commutative(a, b);
}

/// The terminals of `a`, then one tree, then `b`.
proof fn bag_around(a: Seq<LayoutView>, c: LayoutView, b: Seq<LayoutView>)
    ensures
        ids_of_all(a + seq![c] + b).to_multiset() == ids_of_all(a).to_multiset().add(
            terminal_bag(c),
        ).add(ids_of_all(b).to_multiset()),
{
    ids_of_concat(a + seq![c], b);
    ids_of_concat(a, seq![c]);
    ids_of_one(c);
    bag_of_concat(ids_of_all(a + seq![c]), ids_of_all(b));
    bag_of_concat(ids_of_all(a), terminal_ids(c));
}

proof fn bag_of_update(cs: Seq<LayoutView>, i: int, c: LayoutView)
    requires
        0 <= i < cs.len(),
    ensures
        ids_of_all(cs.update(i, c)).to_multiset().add(terminal_bag(cs[i])) == ids_of_all(
            cs,
        ).to_multiset().add(terminal_bag(c)),
{
    let a = cs.take(i);
    let b = cs.skip(i + 1);
    assert(cs =~= a + seq![cs[i]] + b);
    assert(cs.update(i, c) =~= a + seq![c] + b);
    bag_around(a, cs[i], b);
    bag_around(a, c, b);
    assert(ids_of_all(cs.update(i, c)).to_multiset().add(terminal_bag(cs[i])) =~= ids_of_all(
        cs,
    ).to_multiset().add(terminal_bag(c)));
}

proof fn bag_of_remove(cs: Seq<LayoutView>, i: int)
    requires
        0 <= i < cs.len(),
    ensures
        ids_of_all(cs.remove(i)).to_multiset().add(terminal_bag(cs[i])) == ids_of_all(
            cs,
        ).to_multiset(),
{
    let a = cs.take(i);
    let b = cs.skip(i + 1);
    assert(cs =~= a + seq![cs[i]] + b);
    assert(cs.remove(i) =~= a + b);
    bag_around(a, cs[i], b);
    ids_of_concat(a, b);
    bag_of_concat(ids_of_all(a), ids_of_all(b));
    assert(ids_of_all(cs.remove(i)).to_multiset().add(terminal_bag(cs[i])) =~= ids_of_all(
        cs,
    ).to_multiset());
}

proof fn bag_of_insert(cs: Seq<LayoutView>, i: int, c: LayoutView)
    requires
        0 <= i <= cs.len(),
    ensures
        ids_of_all(cs.insert(i, c)).to_multiset() == ids_of_all(cs).to_multiset().add(
            terminal_bag(c),
        ),
{
    let grown = cs.insert(i, c);
    bag_of_remove(grown, i);
    assert(grown.remove(i) =~= cs);
}

proof fn bag_of_pair(a: LayoutView, b: LayoutView)
    ensures
        ids_of_all(seq![a, b]).to_multiset() == terminal_bag(a).add(terminal_bag(b)),
{
    assert(seq![a, b] =~= seq![a] + seq![b]);
    ids_of_concat(seq![a], seq![b]);
    ids_of_one(a);
    ids_of_one(b);
    bag_of_concat(terminal_ids(a), terminal_ids(b));
}

/// Removing a node takes exactly its terminals away.
pub proof fn removing_takes_only_the_node(l: LayoutView, path: Seq<usize>)
    requires
        removed(l, path) is Some,
    ensures
        node_at(l, path) is Some,
        terminal_bag(removed(l, path)->0).add(terminal_bag(node_at(l, path)->0)) == terminal_bag(l),
    decreases path.len(),
{
    let cs = children_of(l);
    let i = path[0] as int;
    if path.len() == 1 {
        assert(node_at(cs[i], path.skip(1)) == Some(cs[i]));
        bag_of_remove(cs, i);
        let rest = cs.remove(i);
        if rest.len() == 1 {
            assert(rest =~= seq![rest[0]]);
            ids_of_one(rest[0]);
        }
    } else {
        removing_takes_only_the_node(cs[i], path.skip(1));
        let c = removed(cs[i], path.skip(1))->0;
        bag_of_update(cs, i, c);
        let node = node_at(cs[i], path.skip(1))->0;
        let all = ids_of_all(cs).to_multiset();
        let upd = ids_of_all(cs.update(i, c)).to_multiset();
        assert(upd.add(terminal_bag(node)) =~= all) by {
            assert(upd.add(terminal_bag(cs[i])) == all.add(terminal_bag(c)));
            assert(terminal_bag(c).add(terminal_bag(node)) == terminal_bag(cs[i]));
            assert forall|x: Seq<char>| #[trigger]
                upd.add(terminal_bag(node)).count(x) == all.count(x) by {
                assert(upd.add(terminal_bag(cs[i])).count(x) == all.add(terminal_bag(c)).count(x));
                assert(terminal_bag(c).add(terminal_bag(node)).count(x) == terminal_bag(
                    cs[i],
                ).count(x));
            }
        }
    }
}

/// Replacing a node exchanges its terminals for those of the new one.
pub proof fn replacing_exchanges_terminals(l: LayoutView, path: Seq<usize>, new: LayoutView)
    requires
        node_at(l, path) is Some,
    ensures
        terminal_bag(replaced(l, path, new)).add(terminal_bag(node_at(l, path)->0))
            == terminal_bag(l).add(terminal_bag(new)),
    decreases path.len(),
{
    if path.len() == 0 {
        assert(terminal_bag(new).add(terminal_bag(l)) =~= terminal_bag(l).add(terminal_bag(new)));
    } else {
        let cs = children_of(l);
        let i = path[0] as int;
        replacing_exchanges_terminals(cs[i], path.skip(1), new);
        let c = replaced(cs[i], path.skip(1), new);
        bag_of_update(cs, i, c);
        let node = node_at(cs[i], path.skip(1))->0;
        let all = ids_of_all(cs).to_multiset();
        let upd = ids_of_all(cs.update(i, c)).to_multiset();
        assert forall|x: Seq<char>| #[trigger]
            upd.add(terminal_bag(node)).count(x) == all.add(terminal_bag(new)).count(x) by {
            assert(upd.add(terminal_bag(cs[i])).count(x) == all.add(terminal_bag(c)).count(x));
            assert(terminal_bag(c).add(terminal_bag(node)).count(x) == terminal_bag(cs[i]).add(
                terminal_bag(new),
            ).count(x));
        }
        assert(upd.add(terminal_bag(node)) =~= all.add(terminal_bag(new)));
        assert(!(l is Terminal));
    }
}

/// Dropping a node on a terminal adds the node's terminals and loses none.
pub proof fn dropping_adds_only_the_node(
    l: LayoutView,
    node: LayoutView,
    target: Seq<char>,
    zone: DropZone,
)
    requires
        dropped(l, node, target, zone) is Some,
    ensures
        terminal_bag(dropped(l, node, target, zone)->0) == terminal_bag(l).add(terminal_bag(node)),
{
    let p = slot_path(l, Some(target))->0;
    let t = node_at(l, p)->0;
    let w = drop_wrapper(node, t, zone);
    replacing_exchanges_terminals(l, p, w);
    normalizing_keeps_terminals(replaced(l, p, w));
    bag_of_pair(node, t);
    bag_of_pair(t, node);
    let new = terminal_bag(replaced(l, p, w));
    assert forall|x: Seq<char>| #[trigger]
        new.count(x) == terminal_bag(l).add(terminal_bag(node)).count(x) by {
        assert(new.add(terminal_bag(t)).count(x) == terminal_bag(l).add(terminal_bag(w)).count(x));
        assert(terminal_bag(w).count(x) == terminal_bag(node).add(terminal_bag(t)).count(x));
    }
    assert(new =~= terminal_bag(l).add(terminal_bag(node)));
}

/// Moving a pane within its project keeps every terminal of the project, each
/// as often as before.
pub proof fn moving_a_pane_keeps_terminals(
    l: LayoutView,
    source: Seq<char>,
    target: Seq<char>,
    zone: DropZone,
)
    requires
        moved_within(l, source, target, zone) is Some,
    ensures
        terminal_bag(moved_within(l, source, target, zone)->0) == terminal_bag(l),
{
    let p = slot_path(l, Some(source))->0;
    removing_takes_only_the_node(l, p);
    dropping_adds_only_the_node(removed(l, p)->0, node_at(l, p)->0, target, zone);
}

/// Inserting a tab adds the tab's terminals and loses none.
pub proof fn inserting_a_tab_adds_only_the_node(
    l: LayoutView,
    path: Seq<usize>,
    index: Option<usize>,
    node: LayoutView,
)
    requires
        tab_inserted(l, path, index, node) is Some,
    ensures
        terminal_bag(tab_inserted(l, path, index, node)->0) == terminal_bag(l).add(
            terminal_bag(node),
        ),
{
    let group = node_at(l, path)->0;
    let cs = children_of(group);
    let at = landing(index, cs.len());
    let grown = LayoutView::Tabs { children: cs.insert(at as int, node), active_tab: at as usize };
    replacing_exchanges_terminals(l, path, grown);
    normalizing_keeps_terminals(replaced(l, path, grown));
    bag_of_insert(cs, at as int, node);
    let new = terminal_bag(replaced(l, path, grown));
    assert forall|x: Seq<char>| #[trigger]
        new.count(x) == terminal_bag(l).add(terminal_bag(node)).count(x) by {
        assert(new.add(terminal_bag(group)).count(x) == terminal_bag(l).add(
            terminal_bag(grown),
        ).count(x));
        assert(terminal_bag(grown).count(x) == terminal_bag(group).add(terminal_bag(node)).count(
            x,
        ));
    }
    assert(new =~= terminal_bag(l).add(terminal_bag(node)));
}

/// Moving a terminal into a tab group of its project keeps every terminal of
/// the project, each as often as before.
pub proof fn moving_to_tabs_keeps_terminals(
    l: LayoutView,
    t: Seq<char>,
    path: Seq<usize>,
    index: Option<usize>,
)
    requires
        moved_to_tabs(l, t, path, index) is Some,
    ensures
        terminal_bag(moved_to_tabs(l, t, path, index)->0) == terminal_bag(l),
{
    let p = slot_path(l, Some(t))->0;
    let rest = removed(l, p)->0;
    let node = node_at(l, p)->0;
    removing_takes_only_the_node(l, p);
    let mark = tab_reference(node_at(l, path)->0, t)->0;
    let q = slot_path(rest, Some(mark))->0;
    let tabs = enclosing_tabs(rest, q)->0;
    inserting_a_tab_adds_only_the_node(rest, tabs, index, node);
}

/// Moving a tab within its group keeps every terminal.
pub proof fn reordering_tabs_keeps_terminals(
    l: LayoutView,
    path: Seq<usize>,
    from: usize,
    to: usize,
)
    requires
        tab_moved(l, path, from, to) is Some,
    ensures
        terminal_bag(tab_moved(l, path, from, to)->0) == terminal_bag(l),
{
    let group = node_at(l, path)->0;
    match group {
        LayoutView::Tabs { children, active_tab } => {
            let at = landing(Some(to), (children.len() - 1) as nat);
            let less = children.remove(from as int);
            let cs = less.insert(at as int, children[from as int]);
            bag_of_remove(children, from as int);
            bag_of_insert(less, at as int, children[from as int]);
            let new = LayoutView::Tabs {
                children: cs,
                active_tab: crate::layout_moves::active_after_move(active_tab, from, at),
            };
            replacing_exchanges_terminals(l, path, new);
            assert(terminal_bag(new) =~= terminal_bag(group));
            let out = terminal_bag(replaced(l, path, new));
            assert forall|x: Seq<char>| #[trigger] out.count(x) == terminal_bag(l).count(x) by {
                assert(out.add(terminal_bag(group)).count(x) == terminal_bag(l).add(
                    terminal_bag(new),
                ).count(x));
            }
            assert(out =~= terminal_bag(l));
        },
        _ => {},
    }
}

/// What is taken out of a tree and what remains are together what was there.
pub proof fn extracting_splits_terminals(l: LayoutView, path: Seq<usize>)
    requires
        extracted(l, path) is Some,
    ensures
        node_at(l, path) is Some,
        opt_terminal_bag(extracted(l, path)->0).add(terminal_bag(node_at(l, path)->0))
            == terminal_bag(l),
{
    if path.len() == 0 {
        assert(opt_terminal_bag(None) =~= Multiset::<Seq<char>>::empty()) by {
            Seq::<Seq<char>>::empty().to_multiset_ensures();
            assert(Seq::<Seq<char>>::empty().to_multiset().len() == 0);
        }
        assert(opt_terminal_bag(None).add(terminal_bag(l)) =~= terminal_bag(l));
    } else {
        removing_takes_only_the_node(l, path);
        normalizing_keeps_terminals(removed(l, path)->0);
    }
}

/// Moving a pane to another project keeps every terminal of the two, each as
/// often as before.
pub proof fn handing_a_pane_over_keeps_terminals(
    ps: Seq<ProjectView>,
    i: int,
    j: int,
    t: Seq<char>,
    on: Seq<char>,
    zone: DropZone,
)
    requires
        0 <= i < ps.len(),
        0 <= j < ps.len(),
        i != j,
        takeout(ps[i], t) is Some,
        ps[j].layout is Some,
        dropped(ps[j].layout->0, (takeout(ps[i], t)->0).0, on, zone) is Some,
    ensures
        ({
            let out = takeout(ps[i], t)->0;
            let new = dropped(ps[j].layout->0, out.0, on, zone)->0;
            let after = handed_over(ps, i, j, t, out.1, new);
            opt_terminal_bag(after[i].layout).add(opt_terminal_bag(after[j].layout))
                == opt_terminal_bag(ps[i].layout).add(opt_terminal_bag(ps[j].layout))
        }),
{
    let out = takeout(ps[i], t)->0;
    let l = ps[i].layout->0;
    let path = slot_path(l, Some(t))->0;
    extracting_splits_terminals(l, path);
    dropping_adds_only_the_node(ps[j].layout->0, out.0, on, zone);
    let new = dropped(ps[j].layout->0, out.0, on, zone)->0;
    assert(opt_terminal_bag(out.1).add(terminal_bag(new)) =~= terminal_bag(l).add(
        terminal_bag(ps[j].layout->0),
    ));
}

/// Moving a terminal into a tab group of another project keeps every terminal
/// of the two, each as often as before.
pub proof fn handing_a_tab_over_keeps_terminals(
    ps: Seq<ProjectView>,
    i: int,
    j: int,
    t: Seq<char>,
    path: Seq<usize>,
    index: Option<usize>,
)
    requires
        0 <= i < ps.len(),
        0 <= j < ps.len(),
        i != j,
        takeout(ps[i], t) is Some,
        ps[j].layout is Some,
        tab_inserted(ps[j].layout->0, path, index, (takeout(ps[i], t)->0).0) is Some,
    ensures
        ({
            let out = takeout(ps[i], t)->0;
            let new = tab_inserted(ps[j].layout->0, path, index, out.0)->0;
            let after = handed_over(ps, i, j, t, out.1, new);
            opt_terminal_bag(after[i].layout).add(opt_terminal_bag(after[j].layout))
                == opt_terminal_bag(ps[i].layout).add(opt_terminal_bag(ps[j].layout))
        }),
{
    let out = takeout(ps[i], t)->0;
    let l = ps[i].layout->0;
    let from = slot_path(l, Some(t))->0;
    extracting_splits_terminals(l, from);
    inserting_a_tab_adds_only_the_node(ps[j].layout->0, path, index, out.0);
    let new = tab_inserted(ps[j].layout->0, path, index, out.0)->0;
    assert(opt_terminal_bag(out.1).add(terminal_bag(new)) =~= terminal_bag(l).add(
        terminal_bag(ps[j].layout->0),
    ));
}

/// Whether `l` is in normal form: no split directly inside a split of its own
/// direction, no container around a single child, a weight for every pane of a
/// split, and an active tab that exists.
pub open spec fn is_normal(l: LayoutView) -> bool
    decreases l, 0nat,
{
    match l {
        LayoutView::Terminal { .. } => true,
        LayoutView::Split { direction, sizes, children } => {
            &&& children.len() != 1
            &&& sizes.len() == children.len()
            &&& all_normal(children, children.len())
            &&& forall|i: int|
                0 <= i < children.len() ==> !splits_in(#[trigger] children[i], direction)
        },
        LayoutView::Tabs { children, active_tab } => {
            &&& children.len() != 1
            &&& children.len() > 0 ==> active_tab < children.len()
            &&& all_normal(children, children.len())
        },
    }
}

/// Whether the first `n` of `cs` are in normal form.
pub open spec fn all_normal(cs: Seq<LayoutView>, n: nat) -> bool
    decreases cs, n,
{
    n == 0 || n > cs.len() || (all_normal(cs, (n - 1) as nat) && is_normal(cs[n - 1]))
}

proof fn all_normal_index(cs: Seq<LayoutView>, n: nat)
    requires
        n <= cs.len(),
    ensures
        all_normal(cs, n) <==> forall|i: int| 0 <= i < n ==> is_normal(#[trigger] cs[i]),
    decreases n,
{
    if n > 0 {
        all_normal_index(cs, (n - 1) as nat);
        if forall|i: int| 0 <= i < n ==> is_normal(#[trigger] cs[i]) {
            assert(is_normal(cs[n - 1]));
        }
    }
}

/// Whether `c` is a split in direction `d`.
pub open spec fn splits_in(c: LayoutView, d: SplitDirection) -> bool {
    match c {
        LayoutView::Split { direction, .. } => direction == d,
        _ => false,
    }
}

proof fn flat_children_are_normal(d: SplitDirection, cs: Seq<LayoutView>, sizes: Seq<u32>, n: nat)
    requires
        n <= cs.len(),
        forall|i: int| 0 <= i < cs.len() ==> is_normal(#[trigger] cs[i]),
    ensures
        flat_sizes(d, sizes, cs, n).len() == flat_children(d, cs, n).len(),
        forall|i: int|
            0 <= i < flat_children(d, cs, n).len() ==> is_normal(
                #[trigger] flat_children(d, cs, n)[i],
            ) && !splits_in(flat_children(d, cs, n)[i], d),
    decreases n,
{
    if n > 0 {
        flat_children_are_normal(d, cs, sizes, (n - 1) as nat);
        let c = cs[n - 1];
        let front = flat_children(d, cs, (n - 1) as nat);
        let whole = flat_children(d, cs, n);
        assert(is_normal(c));
        all_normal_index(children_of(c), children_of(c).len());
        assert forall|i: int| 0 <= i < whole.len() implies is_normal(#[trigger] whole[i])
            && !splits_in(whole[i], d) by {
            if i < front.len() {
                assert(whole[i] == front[i]);
            } else {
                assert(whole[i] == pieces(d, c)[i - front.len()]);
            }
        }
    }
}

proof fn flat_children_of_normal(d: SplitDirection, cs: Seq<LayoutView>, sizes: Seq<u32>, n: nat)
    requires
        n <= cs.len(),
        sizes.len() == cs.len(),
        forall|i: int| 0 <= i < cs.len() ==> !splits_in(#[trigger] cs[i], d),
    ensures
        flat_children(d, cs, n) == cs.take(n as int),
        flat_sizes(d, sizes, cs, n) == sizes.take(n as int),
    decreases n,
{
    if n > 0 {
        flat_children_of_normal(d, cs, sizes, (n - 1) as nat);
        assert(!splits_in(cs[n - 1], d));
        assert(cs.take(n as int) =~= cs.take(n - 1) + seq![cs[n - 1]]);
        assert(sizes.take(n as int) =~= sizes.take(n - 1) + seq![sizes[n - 1]]);
    } else {
        assert(cs.take(0) =~= Seq::<LayoutView>::empty());
        assert(sizes.take(0) =~= Seq::<u32>::empty());
    }
}

/// Putting a tree in normal form does so.
pub proof fn normalizing_is_normal(l: LayoutView)
    ensures
        is_normal(normalized(l)),
    decreases l, 0nat,
{
    match l {
        LayoutView::Terminal { .. } => {},
        LayoutView::Split { direction, sizes, children } => {
            let cs = normalized_in(children, children.len());
            normalized_in_index(children, children.len());
            assert forall|i: int| 0 <= i < cs.len() implies is_normal(#[trigger] cs[i]) by {
                assert(cs[i] == normalized(children[i]));
                normalizing_is_normal(children[i]);
            }
            flat_children_are_normal(direction, cs, sizes, cs.len());
            let flat = flat_children(direction, cs, cs.len());
            if flat.len() == 1 {
                assert(is_normal(flat[0]));
            }
            all_normal_index(flat, flat.len());
        },
        LayoutView::Tabs { children, active_tab } => {
            let cs = normalized_in(children, children.len());
            normalized_in_index(children, children.len());
            assert forall|i: int| 0 <= i < cs.len() implies is_normal(#[trigger] cs[i]) by {
                assert(cs[i] == normalized(children[i]));
                normalizing_is_normal(children[i]);
            }
            if cs.len() == 1 {
                assert(is_normal(cs[0]));
            }
            all_normal_index(cs, cs.len());
        },
    }
}

/// A tree in normal form is left as it is.
pub proof fn normal_is_left_alone(l: LayoutView)
    requires
        is_normal(l),
    ensures
        normalized(l) == l,
    decreases l,
{
    match l {
        LayoutView::Terminal { .. } => {},
        LayoutView::Split { direction, sizes, children } => {
            normalized_in_index(children, children.len());
            all_normal_index(children, children.len());
            assert forall|i: int| 0 <= i < children.len() implies normalized_in(
                children,
                children.len(),
            )[i] == children[i] by {
                assert(is_normal(children[i]));
                normal_is_left_alone(children[i]);
            }
            assert(normalized_in(children, children.len()) =~= children);
            flat_children_of_normal(direction, children, sizes, children.len());
            assert(children.take(children.len() as int) =~= children);
            assert(sizes.take(sizes.len() as int) =~= sizes);
        },
        LayoutView::Tabs { children, active_tab } => {
            normalized_in_index(children, children.len());
            all_normal_index(children, children.len());
            assert forall|i: int| 0 <= i < children.len() implies normalized_in(
                children,
                children.len(),
            )[i] == children[i] by {
                assert(is_normal(children[i]));
                normal_is_left_alone(children[i]);
            }
            assert(normalized_in(children, children.len()) =~= children);
        },
    }
}

} // verus!
