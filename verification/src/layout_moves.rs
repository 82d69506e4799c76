//! Moving panes and tabs within and between pane trees.

use crate::collections::Duplicate;
use crate::layout::{
    DropZone, LayoutNode, LayoutView, SplitDirection, children_of, node_at, node_view, node_views,
    normalized, opt_node, removed, replaced, slot_path, terminal_ids, view_unfolds,
};
use crate::layout_terminals::{beside, halves};
use crate::text::{opt_text, same, texts};
use vstd::prelude::*;

verus! {

/// What takes the place of the pane `target` when `source` is dropped on it.
pub open spec fn drop_wrapper(source: LayoutView, target: LayoutView, zone: DropZone) -> LayoutView {
    match zone {
        DropZone::Top => halves(SplitDirection::Horizontal, source, target),
        DropZone::Bottom => halves(SplitDirection::Horizontal, target, source),
        DropZone::Left => halves(SplitDirection::Vertical, source, target),
        DropZone::Right => halves(SplitDirection::Vertical, target, source),
        DropZone::Center => LayoutView::Tabs { children: seq![target, source], active_tab: 1 },
    }
}

/// `l` with `node` dropped on the terminal `target`.
pub open spec fn dropped(
    l: LayoutView,
    node: LayoutView,
    target: Seq<char>,
    zone: DropZone,
) -> Option<LayoutView> {
    match slot_path(l, Some(target)) {
        Some(p) => match node_at(l, p) {
            Some(t) => Some(normalized(replaced(l, p, drop_wrapper(node, t, zone)))),
            None => None,
        },
        None => None,
    }
}

/// `l` with the terminal `source` moved onto the terminal `target`; nothing
/// where the move cannot be made.
pub open spec fn moved_within(
    l: LayoutView,
    source: Seq<char>,
    target: Seq<char>,
    zone: DropZone,
) -> Option<LayoutView> {
    if terminal_ids(l).len() <= 1 {
        None
    } else {
        match slot_path(l, Some(source)) {
            Some(p) => match (node_at(l, p), removed(l, p)) {
                (Some(node), Some(rest)) => dropped(rest, node, target, zone),
                _ => None,
            },
            None => None,
        }
    }
}

/// What is left of `l` once the node at `path` has moved elsewhere; the outer
/// `None` where there is no such node, the inner one where nothing is left.
pub open spec fn extracted(l: LayoutView, path: Seq<usize>) -> Option<Option<LayoutView>> {
    if path.len() == 0 {
        Some(None)
    } else {
        match removed(l, path) {
            Some(rest) => Some(Some(normalized(rest))),
            None => None,
        }
    }
}

/// The first of the first `n` children that is a terminal other than `not`.
pub open spec fn direct_terminal(cs: Seq<LayoutView>, not: Seq<char>, n: nat) -> Option<Seq<char>>
    decreases n,
{
    if n == 0 || n > cs.len() {
        None
    } else {
        match direct_terminal(cs, not, (n - 1) as nat) {
            Some(t) => Some(t),
            None => match cs[n - 1] {
                LayoutView::Terminal { terminal_id: Some(t), .. } => if t != not {
                    Some(t)
                } else {
                    None
                },
                _ => None,
            },
        }
    }
}

/// The first of the first `n` ids that is not `not`.
pub open spec fn first_other(ids: Seq<Seq<char>>, not: Seq<char>, n: nat) -> Option<Seq<char>>
    decreases n,
{
    if n == 0 || n > ids.len() {
        None
    } else {
        match first_other(ids, not, (n - 1) as nat) {
            Some(t) => Some(t),
            None => if ids[n - 1] != not {
                Some(ids[n - 1])
            } else {
                None
            },
        }
    }
}

/// A terminal of the tab group `l`, other than `not`, by which the group can be
/// found again: one of its own tabs if there is one, else any below it.
pub open spec fn tab_reference(l: LayoutView, not: Seq<char>) -> Option<Seq<char>> {
    match l {
        LayoutView::Tabs { children, .. } => match direct_terminal(children, not, children.len()) {
            Some(t) => Some(t),
            None => first_other(terminal_ids(l), not, terminal_ids(l).len()),
        },
        _ => None,
    }
}

/// The path to the innermost tab group around the node at `path`.
pub open spec fn enclosing_tabs(l: LayoutView, path: Seq<usize>) -> Option<Seq<usize>>
    decreases path.len(),
{
    if path.len() == 0 {
        None
    } else {
        match node_at(l, path.drop_last()) {
            Some(LayoutView::Tabs { .. }) => Some(path.drop_last()),
            _ => enclosing_tabs(l, path.drop_last()),
        }
    }
}

/// Where a tab lands that is asked to go to `index` of `n`.
pub open spec fn landing(index: Option<usize>, n: nat) -> nat {
    match index {
        Some(i) => if i <= n {
            i as nat
        } else {
            n
        },
        None => n,
    }
}

/// `l` with `node` as a new, showing tab of the group at `path`.
pub open spec fn tab_inserted(
    l: LayoutView,
    path: Seq<usize>,
    index: Option<usize>,
    node: LayoutView,
) -> Option<LayoutView> {
    match node_at(l, path) {
        Some(LayoutView::Tabs { children, .. }) => {
            let at = landing(index, children.len());
            Some(
                normalized(
                    replaced(
                        l,
                        path,
                        LayoutView::Tabs {
                            children: children.insert(at as int, node),
                            active_tab: at as usize,
                        },
                    ),
                ),
            )
        },
        _ => None,
    }
}

/// `l` with the terminal `t` moved into the tab group at `path`, found again by
/// a terminal in it once the removal has shifted paths.
pub open spec fn moved_to_tabs(
    l: LayoutView,
    t: Seq<char>,
    path: Seq<usize>,
    index: Option<usize>,
) -> Option<LayoutView> {
    match slot_path(l, Some(t)) {
        Some(p) => match (node_at(l, p), node_at(l, path), removed(l, p)) {
            (Some(node), Some(group), Some(rest)) => match tab_reference(group, t) {
                Some(mark) => match slot_path(rest, Some(mark)) {
                    Some(q) => match enclosing_tabs(rest, q) {
                        Some(tabs) => tab_inserted(rest, tabs, index, node),
                        None => None,
                    },
                    None => None,
                },
                None => None,
            },
            _ => None,
        },
        None => None,
    }
}

/// The index of the active tab after the tab at `from` has moved to `to`.
pub open spec fn active_after_move(active: usize, from: usize, to: nat) -> usize {
    if active == from {
        to as usize
    } else {
        let a = if active > from {
            active - 1
        } else {
            active as int
        };
        if a >= to {
            (a + 1) as usize
        } else {
            a as usize
        }
    }
}

/// `l` with the tab at `from` of the group at `path` moved to `to`.
pub open spec fn tab_moved(
    l: LayoutView,
    path: Seq<usize>,
    from: usize,
    to: usize,
) -> Option<LayoutView> {
    match node_at(l, path) {
        Some(LayoutView::Tabs { children, active_tab }) => if from < children.len() && active_tab
            < children.len() {
            let at = landing(Some(to), (children.len() - 1) as nat);
            Some(
                replaced(
                    l,
                    path,
                    LayoutView::Tabs {
                        children: children.remove(from as int).insert(
                            at as int,
                            children[from as int],
                        ),
                        active_tab: active_after_move(active_tab, from, at),
                    },
                ),
            )
        } else {
            None
        },
        _ => None,
    }
}

/// What takes the place of the pane `target` when `source` is dropped on it.
pub fn build_drop_zone_wrapper(source_node: LayoutNode, target_node: LayoutNode, zone: DropZone) -> (r:
    LayoutNode)
    ensures
        r@ == drop_wrapper(source_node@, target_node@, zone),
{
    match zone {
        DropZone::Top => beside(SplitDirection::Horizontal, source_node, target_node),
        DropZone::Bottom => beside(SplitDirection::Horizontal, target_node, source_node),
        DropZone::Left => beside(SplitDirection::Vertical, source_node, target_node),
        DropZone::Right => beside(SplitDirection::Vertical, target_node, source_node),
        DropZone::Center => {
            let mut children: Vec<LayoutNode> = Vec::new();
            children.push(target_node);
            children.push(source_node);
            proof {
                assert(node_views(children@) =~= seq![target_node@, source_node@]);
            }
            let r = LayoutNode::Tabs { children, active_tab: 1 };
            proof {
                view_unfolds(r);
            }
            r
        },
    }
}

/// `l` with `node` dropped on the terminal `target`.
pub fn drop_on(l: &LayoutNode, node: LayoutNode, target: &str, zone: DropZone) -> (r: Option<
    LayoutNode,
>)
    ensures
        opt_node(r) == dropped(l@, node@, target@, zone),
{
    let path = match l.find_terminal_path(target) {
        Some(p) => p,
        None => {
            return None;
        },
    };
    let target_node = match l.get_at_path(path.as_slice()) {
        Some(n) => n.duplicate(),
        None => {
            return None;
        },
    };
    let wrapper = build_drop_zone_wrapper(node, target_node, zone);
    let mut out = l.duplicate();
    match out.get_at_path_mut(path.as_slice()) {
        Some(n) => {
            *n = wrapper;
        },
        None => {
            return None;
        },
    }
    out.normalize();
    Some(out)
}

/// `l` with the terminal `source` moved onto the terminal `target`.
pub fn move_within(l: &LayoutNode, source: &str, target: &str, zone: DropZone) -> (r: Option<
    LayoutNode,
>)
    ensures
        opt_node(r) == moved_within(l@, source@, target@, zone),
{
    let ids = l.collect_terminal_ids();
    proof {
        assert(texts(ids@).len() == ids@.len());
    }
    if ids.len() <= 1 {
        return None;
    }
    let path = match l.find_terminal_path(source) {
        Some(p) => p,
        None => {
            return None;
        },
    };
    let mut rest = l.duplicate();
    match rest.remove_at_path(path.as_slice()) {
        Some(node) => drop_on(&rest, node, target, zone),
        None => None,
    }
}

/// What is left of `l` once the node at `path` has moved elsewhere.
pub fn extract(l: &LayoutNode, path: &[usize]) -> (r: Option<Option<LayoutNode>>)
    ensures
        match r {
            Some(o) => extracted(l@, path@) == Some(opt_node(o)),
            None => extracted(l@, path@) is None,
        },
{
    if path.len() == 0 {
        return Some(None);
    }
    let mut rest = l.duplicate();
    match rest.remove_at_path(path) {
        Some(_) => {
            rest.normalize();
            Some(Some(rest))
        },
        None => None,
    }
}

proof fn direct_terminal_extends(cs: Seq<LayoutView>, not: Seq<char>, n: nat)
    requires
        n <= cs.len(),
        direct_terminal(cs, not, n) is Some,
    ensures
        direct_terminal(cs, not, cs.len()) == direct_terminal(cs, not, n),
    decreases cs.len() - n,
{
    if n < cs.len() {
        direct_terminal_extends(cs, not, n + 1);
    }
}

proof fn first_other_extends(ids: Seq<Seq<char>>, not: Seq<char>, n: nat)
    requires
        n <= ids.len(),
        first_other(ids, not, n) is Some,
    ensures
        first_other(ids, not, ids.len()) == first_other(ids, not, n),
    decreases ids.len() - n,
{
    if n < ids.len() {
        first_other_extends(ids, not, n + 1);
    }
}

/// A terminal of the tab group `tabs`, other than `exclude`, by which the group
/// can be found again.
pub fn tab_group_reference_terminal(tabs: &LayoutNode, exclude: &str) -> (r: Option<String>)
    ensures
        opt_text(r) == tab_reference(tabs@, exclude@),
{
    proof {
        view_unfolds(*tabs);
    }
    let children = match tabs {
        LayoutNode::Tabs { children, .. } => children,
        _ => {
            return None;
        },
    };
    let ghost cs = node_views(children@);
    let mut i: usize = 0;
    while i < children.len()
        invariant
            i <= children@.len(),
            cs == node_views(children@),
            children_of(tabs@) == cs,
            tabs@ is Tabs,
            direct_terminal(cs, exclude@, i as nat) is None,
        decreases children@.len() - i,
    {
        proof {
            view_unfolds(children@[i as int]);
            assert(cs[i as int] == node_view(children@[i as int]));
        }
        match &children[i] {
            LayoutNode::Terminal { terminal_id: Some(t), .. } => {
                if !same(t.as_str(), exclude) {
                    proof {
                        direct_terminal_extends(cs, exclude@, (i + 1) as nat);
                    }
                    return Some(t.clone());
                }
            },
            _ => {},
        }
        i = i + 1;
    }
    let ids = tabs.collect_terminal_ids();
    let ghost all = texts(ids@);
    let mut j: usize = 0;
    while j < ids.len()
        invariant
            j <= ids@.len(),
            all == texts(ids@),
            all == terminal_ids(tabs@),
            children_of(tabs@) == cs,
            tabs@ is Tabs,
            direct_terminal(cs, exclude@, cs.len()) is None,
            first_other(all, exclude@, j as nat) is None,
        decreases ids@.len() - j,
    {
        proof {
            assert(all[j as int] == ids@[j as int]@);
        }
        if !same(ids[j].as_str(), exclude) {
            proof {
                first_other_extends(all, exclude@, (j + 1) as nat);
            }
            return Some(ids[j].clone());
        }
        j = j + 1;
    }
    None
}

/// The path to the innermost tab group around the node at `path`.
pub fn enclosing_tabs_path(layout: &LayoutNode, path: &[usize]) -> (r: Option<Vec<usize>>)
    ensures
        match r {
            Some(p) => enclosing_tabs(layout@, path@) == Some(p@),
            None => enclosing_tabs(layout@, path@) is None,
        },
{
    let mut n: usize = path.len();
    proof {
        assert(path@.take(n as int) =~= path@);
    }
    while n > 0
        invariant
            n <= path@.len(),
            enclosing_tabs(layout@, path@) == enclosing_tabs(layout@, path@.take(n as int)),
        decreases n,
    {
        proof {
            assert(path@.take(n as int).drop_last() =~= path@.take(n - 1));
            assert(path@.subrange(0, n - 1) =~= path@.take(n - 1));
        }
        n = n - 1;
        let prefix = vstd::slice::slice_subrange(path, 0, n);
        if let Some(node) = layout.get_at_path(prefix) {
            proof {
                view_unfolds(*node);
            }
            if let LayoutNode::Tabs { .. } = node {
                return Some(vstd::slice::slice_to_vec(prefix));
            }
        }
    }
    None
}

/// Where a tab lands that is asked to go to `index` of `n`.
fn land(index: Option<usize>, n: usize) -> (r: usize)
    ensures
        r == landing(index, n as nat),
{
    match index {
        Some(i) => if i <= n {
            i
        } else {
            n
        },
        None => n,
    }
}

/// `l` with `node` as a new, showing tab of the group at `path`.
pub fn insert_tab(l: &LayoutNode, path: &[usize], index: Option<usize>, node: LayoutNode) -> (r:
    Option<LayoutNode>)
    ensures
        opt_node(r) == tab_inserted(l@, path@, index, node@),
{
    let mut out = l.duplicate();
    match out.get_at_path_mut(path) {
        Some(group) => {
            let ghost start = *group;
            proof {
                view_unfolds(start);
            }
            match group {
                LayoutNode::Tabs { children, active_tab } => {
                    let ghost before = children@;
                    let at = land(index, children.len());
                    children.insert(at, node);
                    *active_tab = at;
                    proof {
                        assert(node_views(children@) =~= node_views(before).insert(
                            at as int,
                            node@,
                        ));
                    }
                },
                _ => {
                    return None;
                },
            }
            proof {
                view_unfolds(*group);
            }
        },
        None => {
            return None;
        },
    }
    out.normalize();
    Some(out)
}

/// `l` with the terminal `t` moved into the tab group at `path`.
pub fn move_to_tabs(l: &LayoutNode, t: &str, path: &[usize], index: Option<usize>) -> (r: Option<
    LayoutNode,
>)
    ensures
        opt_node(r) == moved_to_tabs(l@, t@, path@, index),
{
    let source = match l.find_terminal_path(t) {
        Some(p) => p,
        None => {
            return None;
        },
    };
    let mark = match l.get_at_path(path) {
        Some(group) => match tab_group_reference_terminal(group, t) {
            Some(m) => m,
            None => {
                return None;
            },
        },
        None => {
            return None;
        },
    };
    let mut rest = l.duplicate();
    match rest.remove_at_path(source.as_slice()) {
        Some(node) => {
            let q = match rest.find_terminal_path(mark.as_str()) {
                Some(q) => q,
                None => {
                    return None;
                },
            };
            match enclosing_tabs_path(&rest, q.as_slice()) {
                Some(tabs) => insert_tab(&rest, tabs.as_slice(), index, node),
                None => None,
            }
        },
        None => None,
    }
}

/// `l` with the tab at `from` of the group at `path` moved to `to`.
pub fn reorder_tab(l: &LayoutNode, path: &[usize], from: usize, to: usize) -> (r: Option<
    LayoutNode,
>)
    ensures
        opt_node(r) == tab_moved(l@, path@, from, to),
{
    let mut out = l.duplicate();
    match out.get_at_path_mut(path) {
        Some(group) => {
            let ghost start = *group;
            proof {
                view_unfolds(start);
            }
            match group {
                LayoutNode::Tabs { children, active_tab } => {
                    if from >= children.len() || *active_tab >= children.len() {
                        return None;
                    }
                    let ghost before = children@;
                    let node = children.remove(from);
                    let at = land(Some(to), children.len());
                    children.insert(at, node);
                    if *active_tab == from {
                        *active_tab = at;
                    } else {
                        let a: usize = if *active_tab > from {
                            *active_tab - 1
                        } else {
                            *active_tab
                        };
                        *active_tab =
                        if a >= at {
                            a + 1
                        } else {
                            a
                        };
                    }
                    proof {
                        assert(node_views(children@) =~= node_views(before).remove(
                            from as int,
                        ).insert(at as int, node_views(before)[from as int]));
                    }
                },
                _ => {
                    return None;
                },
            }
            proof {
                view_unfolds(*group);
            }
        },
        None => {
            return None;
        },
    }
    Some(out)
}

} // verus!
