//! Edits of a pane tree: removing panes, putting a tree in normal form,
//! activating tabs, clearing and removing terminals.

use crate::collections::reversed;
use crate::layout::{
    LayoutNode, SplitDirection, capped_sum, children_of, flat_children, flat_sizes, node_at,
    node_view, node_views, normalized, normalized_in, normalized_in_index, removed, share,
    sizes_without, total_weight, view_unfolds, weight, without_child,
};
use vstd::prelude::*;

verus! {

/// `a + b`, or the largest weight where that does not fit.
fn add_capped(a: u32, b: u32) -> (r: u32)
    ensures
        r == capped_sum(a, b),
{
    if a > u32::MAX - b {
        u32::MAX
    } else {
        a + b
    }
}

/// Take the weight at `i` out and hand it to a neighbour.
fn remove_size(sizes: &mut Vec<u32>, i: usize)
    ensures
        final(sizes)@ == sizes_without(old(sizes)@, i as int),
{
    if i < sizes.len() {
        let w = sizes.remove(i);
        if sizes.len() > 0 {
            let heir: usize = if i > 0 {
                i - 1
            } else {
                0
            };
            let sum = add_capped(sizes[heir], w);
            sizes.set(heir, sum);
        }
    }
}

/// The weight at `i`; one that is missing counts as zero.
fn weight_at(sizes: &Vec<u32>, i: usize) -> (r: u32)
    ensures
        r == weight(sizes@, i as int),
{
    if i < sizes.len() {
        sizes[i]
    } else {
        0
    }
}

proof fn weight_within_total(sizes: Seq<u32>, n: nat, j: int)
    requires
        0 <= j < n,
    ensures
        weight(sizes, j) <= total_weight(sizes, n),
    decreases n,
{
    if j < n - 1 {
        weight_within_total(sizes, (n - 1) as nat, j);
    }
}

proof fn share_fits(w: int, x: int, total: int)
    by (nonlinear_arith)
    requires
        0 <= w,
        0 <= x <= total,
        total > 0,
    ensures
        0 <= (w * x) / total <= w,
{
}

/// The sum of the first `n` weights.
fn sum_sizes(sizes: &Vec<u32>, n: usize) -> (r: u128)
    ensures
        r == total_weight(sizes@, n as nat),
{
    let mut total: u128 = 0;
    let mut i: usize = 0;
    while i < n
        invariant
            i <= n,
            total == total_weight(sizes@, i as nat),
            total <= i * 0xffff_ffff,
        decreases n - i,
    {
        let w = weight_at(sizes, i);
        proof {
            assert(i * 0xffff_ffff <= 0xffff_ffff_ffff_ffff * 0xffff_ffff) by (nonlinear_arith)
                requires
                    0 <= i <= 0xffff_ffff_ffff_ffff,
            ;
        }
        total = total + w as u128;
        i = i + 1;
    }
    total
}

/// The weights that the children of a split get where it weighs `w` itself.
fn share_sizes(w: u32, sizes: &Vec<u32>, n: usize) -> (r: Vec<u32>)
    ensures
        r@ == Seq::new(n as nat, |j: int| share(w, sizes@, n as nat, j)),
{
    let total = sum_sizes(sizes, n);
    let mut out: Vec<u32> = Vec::new();
    let mut j: usize = 0;
    while j < n
        invariant
            j <= n,
            out@.len() == j,
            total == total_weight(sizes@, n as nat),
            forall|k: int| 0 <= k < j ==> out@[k] == share(w, sizes@, n as nat, k),
        decreases n - j,
    {
        if total == 0 {
            let q: u64 = w as u64 / n as u64;
            proof {
                share_fits(w as int, 1, n as int);
            }
            out.push(q as u32);
        } else {
            let x = weight_at(sizes, j);
            proof {
                weight_within_total(sizes@, n as nat, j as int);
                share_fits(w as int, x as int, total as int);
                assert(w * x <= 0xffff_ffff * 0xffff_ffff) by (nonlinear_arith)
                    requires
                        0 <= w <= 0xffff_ffff,
                        0 <= x <= 0xffff_ffff,
                ;
            }
            let q: u128 = (w as u128 * x as u128) / total;
            out.push(q as u32);
        }
        j = j + 1;
    }
    proof {
        assert(out@ =~= Seq::new(n as nat, |j: int| share(w, sizes@, n as nat, j)));
    }
    out
}

impl LayoutNode {
    /// Remove the node at `path` and return it. The root cannot be removed.
    pub fn remove_at_path(&mut self, path: &[usize]) -> (r: Option<LayoutNode>)
        ensures
            match removed(old(self)@, path@) {
                Some(l) => r is Some && node_at(old(self)@, path@) == Some(r->0@) && final(self)@
                    == l,
                None => r is None && final(self)@ == old(self)@,
            },
        decreases path@.len(),
    {
        proof {
            view_unfolds(*self);
        }
        if path.len() == 0 {
            return None;
        }
        let i: usize = path[0];
        if path.len() == 1 {
            proof {
                if i < children_of(self@).len() {
                    assert(node_at(children_of(self@)[i as int], path@.skip(1)) == Some(
                        children_of(self@)[i as int],
                    ));
                }
            }
            return self.remove_child(i);
        }
        let rest = vstd::slice::slice_subrange(path, 1, path.len());
        let ghost start = *self;
        let r = match self {
            LayoutNode::Terminal { .. } => None,
            LayoutNode::Split { children, .. } => if i < children.len() {
                children[i].remove_at_path(rest)
            } else {
                None
            },
            LayoutNode::Tabs { children, .. } => if i < children.len() {
                children[i].remove_at_path(rest)
            } else {
                None
            },
        };
        proof {
            view_unfolds(start);
            view_unfolds(*self);
            if i < children_of(start@).len() {
                match removed(children_of(start@)[i as int], rest@) {
                    Some(c) => {
                        assert(children_of(self@) =~= children_of(start@).update(i as int, c));
                    },
                    None => {
                        assert(children_of(self@) =~= children_of(start@));
                    },
                }
            }
        }
        r
    }

    /// Remove the child at `i`; one remaining child takes the container's place.
    fn remove_child(&mut self, i: usize) -> (r: Option<LayoutNode>)
        ensures
            if i < children_of(old(self)@).len() {
                r is Some && r->0@ == children_of(old(self)@)[i as int] && final(self)@
                    == without_child(old(self)@, i as int)
            } else {
                r is None && final(self)@ == old(self)@
            },
    {
        let ghost start = *self;
        proof {
            view_unfolds(start);
        }
        let mut only: Option<LayoutNode> = None;
        let r = match self {
            LayoutNode::Terminal { .. } => None,
            LayoutNode::Split { sizes, children, .. } => if i < children.len() {
                let gone = children.remove(i);
                remove_size(sizes, i);
                if children.len() == 1 {
                    only = children.pop();
                }
                Some(gone)
            } else {
                None
            },
            LayoutNode::Tabs { children, active_tab } => if i < children.len() {
                let gone = children.remove(i);
                if i < *active_tab {
                    *active_tab = *active_tab - 1;
                } else if *active_tab >= children.len() && children.len() > 0 {
                    *active_tab = children.len() - 1;
                }
                if children.len() == 1 {
                    only = children.pop();
                }
                Some(gone)
            } else {
                None
            },
        };
        proof {
            view_unfolds(*self);
            if i < children_of(start@).len() {
                match start {
                    LayoutNode::Split { children, .. } => {
                        assert(node_views(children@.remove(i as int)) =~= children_of(
                            start@,
                        ).remove(i as int));
                    },
                    LayoutNode::Tabs { children, .. } => {
                        assert(node_views(children@.remove(i as int)) =~= children_of(
                            start@,
                        ).remove(i as int));
                    },
                    _ => {},
                }
            }
        }
        match only {
            Some(l) => {
                *self = l;
            },
            None => {},
        }
        r
    }

    /// Put the tree in normal form.
    pub fn normalize(&mut self)
        ensures
            final(self)@ == normalized(old(self)@),
        decreases *old(self),
    {
        let ghost start = *self;
        proof {
            view_unfolds(start);
        }
        let mut only: Option<LayoutNode> = None;
        match self {
            LayoutNode::Terminal { .. } => {},
            LayoutNode::Split { direction, sizes, children } => {
                Self::normalize_all(children);
                let ghost cs = node_views(children@);
                let flat = Self::flatten(*direction, sizes, children);
                let (new_sizes, new_children) = flat;
                *sizes = new_sizes;
                *children = new_children;
                if children.len() == 1 {
                    only = children.pop();
                }
            },
            LayoutNode::Tabs { children, active_tab } => {
                Self::normalize_all(children);
                if *active_tab >= children.len() && children.len() > 0 {
                    *active_tab = children.len() - 1;
                }
                if children.len() == 1 {
                    only = children.pop();
                }
            },
        }
        proof {
            view_unfolds(*self);
        }
        match only {
            Some(l) => {
                *self = l;
            },
            None => {},
        }
    }

    fn normalize_all(children: &mut Vec<LayoutNode>)
        ensures
            node_views(final(children)@) == normalized_in(
                node_views(old(children)@),
                old(children)@.len(),
            ),
        decreases old(children)@,
    {
        let ghost start = children@;
        let ghost cs = node_views(start);
        let mut i: usize = 0;
        while i < children.len()
            invariant
                i <= children@.len(),
                children@.len() == start.len(),
                start == old(children)@,
                cs == node_views(start),
                forall|j: int| 0 <= j < i ==> node_view(children@[j]) == normalized(cs[j]),
                forall|j: int| i <= j < start.len() ==> children@[j] == start[j],
            decreases children@.len() - i,
        {
            proof {
                assert(decreases_to!(start => start[i as int]));
            }
            children[i].normalize();
            i = i + 1;
        }
        proof {
            normalized_in_index(cs, cs.len());
            assert(node_views(children@) =~= normalized_in(cs, cs.len()));
        }
    }

    /// The children of a split and their weights, with nested splits of the
    /// same direction dissolved into them.
    fn flatten(direction: SplitDirection, sizes: &Vec<u32>, children: &mut Vec<LayoutNode>) -> (r: (
        Vec<u32>,
        Vec<LayoutNode>,
    ))
        ensures
            node_views(r.1@) == flat_children(
                direction,
                node_views(old(children)@),
                old(children)@.len(),
            ),
            r.0@ == flat_sizes(
                direction,
                sizes@,
                node_views(old(children)@),
                old(children)@.len(),
            ),
    {
        let mut all: Vec<LayoutNode> = Vec::new();
        std::mem::swap(&mut all, children);
        let ghost start = all@;
        let ghost cs = node_views(start);
        let n: usize = all.len();
        let mut rest = reversed(all);
        let mut out: Vec<LayoutNode> = Vec::new();
        let mut weights: Vec<u32> = Vec::new();
        let mut taken: usize = 0;
        proof {
            assert(node_views(out@) =~= flat_children(direction, cs, 0));
            assert(weights@ =~= flat_sizes(direction, sizes@, cs, 0));
        }
        while rest.len() > 0
            invariant
                taken <= start.len(),
                n == start.len(),
                rest@.len() == start.len() - taken,
                cs == node_views(start),
                forall|j: int| 0 <= j < rest@.len() ==> rest@[j] == start[start.len() - 1 - j],
                node_views(out@) == flat_children(direction, cs, taken as nat),
                weights@ == flat_sizes(direction, sizes@, cs, taken as nat),
            decreases rest.len(),
        {
            let c = rest.pop().unwrap();
            let ghost before = out@;
            let ghost weights_before = weights@;
            let w = weight_at(sizes, taken);
            proof {
                assert(c == start[taken as int]);
                assert(c@ == cs[taken as int]);
                view_unfolds(c);
            }
            match c {
                LayoutNode::Split { direction: inner, sizes: s, children: mut kids } => {
                    if inner == direction {
                        let ghost kid_views = node_views(kids@);
                        let ghost kids0 = kids@;
                        let mut shares = share_sizes(w, &s, kids.len());
                        let ghost shares0 = shares@;
                        weights.append(&mut shares);
                        out.append(&mut kids);
                        proof {
                            assert(node_views(out@) =~= node_views(before) + kid_views);
                            assert(weights@ =~= weights_before + shares0);
                        }
                    } else {
                        let l = LayoutNode::Split { direction: inner, sizes: s, children: kids };
                        out.push(l);
                        weights.push(w);
                        proof {
                            assert(node_views(out@) =~= node_views(before) + seq![c@]);
                            assert(weights@ =~= weights_before + seq![w]);
                        }
                    }
                },
                l => {
                    out.push(l);
                    weights.push(w);
                    proof {
                        assert(node_views(out@) =~= node_views(before) + seq![c@]);
                        assert(weights@ =~= weights_before + seq![w]);
                    }
                },
            }
            taken = taken + 1;
        }
        (weights, out)
    }
}

} // verus!
