//! Merging the tree that a server reports with what the client shows of it.
//!
//! Which terminals there are and how they are grouped is the server's; how a
//! terminal is presented, how large the panes are and which tab shows is the
//! client's.

use crate::collections::{Duplicate, list_contains};
use crate::layout::{
    LayoutNode, LayoutView, children_of, copy_sizes, node_at, node_view, node_views, slot_path,
    terminal_ids, terminal_ids_in, view_unfolds,
};
use crate::layout_terminals::visible_path;
use crate::text::{copy_opt, opt_text};
use vstd::prelude::*;

verus! {

/// The id of the terminal that shows in `l`.
pub open spec fn showing(l: LayoutView) -> Option<Seq<char>> {
    match node_at(l, visible_path(l)) {
        Some(LayoutView::Terminal { terminal_id, .. }) => terminal_id,
        _ => None,
    }
}

/// The first of the first `n` of `cs` that holds the terminal `t`.
pub open spec fn child_holding(cs: Seq<LayoutView>, t: Seq<char>, n: nat) -> Option<int>
    decreases n,
{
    if n == 0 || n > cs.len() {
        None
    } else {
        match child_holding(cs, t, (n - 1) as nat) {
            Some(i) => Some(i),
            None => if terminal_ids(cs[n - 1]).contains(t) {
                Some(n - 1)
            } else {
                None
            },
        }
    }
}

/// The children of `here` that stand for those of `server`, where the two are
/// groups of the same kind and size.
pub open spec fn counterparts(server: LayoutView, here: Option<LayoutView>) -> Option<
    Seq<LayoutView>,
> {
    match here {
        Some(local) => match (server, local) {
            (
                LayoutView::Split { direction, children, .. },
                LayoutView::Split { direction: d, children: cs, .. },
            ) => if direction == d && children.len() == cs.len() {
                Some(cs)
            } else {
                None
            },
            (LayoutView::Tabs { children, .. }, LayoutView::Tabs { children: cs, .. }) =>
                if children.len() == cs.len() {
                    Some(cs)
                } else {
                    None
                },
            _ => None,
        },
        None => None,
    }
}

/// The tab that shows: the one with the terminal that the client showed, or
/// else the server's.
pub open spec fn merged_tab(
    children: Seq<LayoutView>,
    active: usize,
    here: Option<LayoutView>,
) -> usize {
    match here {
        Some(LayoutView::Tabs { children: cs, active_tab }) => match showing(
            LayoutView::Tabs { children: cs, active_tab },
        ) {
            Some(t) => match child_holding(children, t, children.len()) {
                Some(i) => i as usize,
                None => active,
            },
            None => active,
        },
        _ => active,
    }
}

/// The terminal `t` presented as `whole` presents it.
pub open spec fn presented(t: LayoutView, whole: LayoutView) -> LayoutView {
    match t {
        LayoutView::Terminal { terminal_id: Some(id), shell_type, .. } => match slot_path(
            whole,
            Some(id),
        ) {
            Some(p) => match node_at(whole, p) {
                Some(LayoutView::Terminal { minimized, detached, zoom_level, .. }) =>
                    LayoutView::Terminal {
                        terminal_id: Some(id),
                        minimized,
                        detached,
                        shell_type,
                        zoom_level,
                    },
                _ => t,
            },
            None => t,
        },
        _ => t,
    }
}

/// The server's tree as the client shows it: `here` is what the client has at
/// the same place, `whole` all that it has.
pub open spec fn merged(
    server: LayoutView,
    here: Option<LayoutView>,
    whole: LayoutView,
) -> LayoutView
    decreases server, 0nat,
{
    match server {
        LayoutView::Terminal { .. } => presented(server, whole),
        LayoutView::Split { direction, sizes, children } => LayoutView::Split {
            direction,
            sizes: match counterparts(server, here) {
                Some(_) => here->0->sizes,
                None => sizes,
            },
            children: merged_in(children, counterparts(server, here), whole, children.len()),
        },
        LayoutView::Tabs { children, active_tab } => LayoutView::Tabs {
            children: merged_in(children, counterparts(server, here), whole, children.len()),
            active_tab: merged_tab(children, active_tab, here),
        },
    }
}

/// The first `n` of the server's `cs` as the client shows them.
pub open spec fn merged_in(
    cs: Seq<LayoutView>,
    here: Option<Seq<LayoutView>>,
    whole: LayoutView,
    n: nat,
) -> Seq<LayoutView>
    decreases cs, n,
{
    if n == 0 || n > cs.len() {
        Seq::empty()
    } else {
        merged_in(cs, here, whole, (n - 1) as nat).push(
            merged(
                cs[n - 1],
                match here {
                    Some(hs) => Some(hs[n - 1]),
                    None => None,
                },
                whole,
            ),
        )
    }
}

/// The first child that holds the terminal `t`.
fn find_child_holding(children: &Vec<LayoutNode>, t: &str) -> (r: Option<usize>)
    ensures
        match r {
            Some(i) => child_holding(node_views(children@), t@, children@.len()) == Some(i as int),
            None => child_holding(node_views(children@), t@, children@.len()) is None,
        },
{
    let ghost cs = node_views(children@);
    let mut found: Option<usize> = None;
    let mut i: usize = 0;
    while i < children.len()
        invariant
            i <= children@.len(),
            cs == node_views(children@),
            match found {
                Some(k) => child_holding(cs, t@, i as nat) == Some(k as int),
                None => child_holding(cs, t@, i as nat) is None,
            },
        decreases children@.len() - i,
    {
        proof {
            assert(cs[i as int] == node_view(children@[i as int]));
        }
        if found.is_none() {
            let ids = children[i].collect_terminal_ids();
            if list_contains(&ids, t) {
                found = Some(i);
            }
        }
        i = i + 1;
    }
    found
}

impl LayoutNode {
    /// The id of the terminal that shows.
    pub fn showing_terminal(&self) -> (r: Option<String>)
        ensures
            opt_text(r) == showing(self@),
    {
        let path = self.find_visible_terminal_path();
        match self.get_at_path(path.as_slice()) {
            Some(LayoutNode::Terminal { terminal_id, .. }) => copy_opt(terminal_id),
            Some(n) => {
                proof {
                    view_unfolds(*n);
                }
                None
            },
            None => None,
        }
    }

    /// The terminal slot presented as `whole` presents it.
    fn present(&self, whole: &LayoutNode) -> (r: LayoutNode)
        requires
            self is Terminal,
        ensures
            r@ == presented(self@, whole@),
    {
        if let LayoutNode::Terminal { terminal_id: Some(id), shell_type, .. } = self {
            if let Some(n) = whole.find_terminal_node(id.as_str()) {
                proof {
                    view_unfolds(*n);
                }
                if let LayoutNode::Terminal { minimized, detached, zoom_level, .. } = n {
                    return LayoutNode::Terminal {
                        terminal_id: Some(id.clone()),
                        minimized: *minimized,
                        detached: *detached,
                        shell_type: shell_type.duplicate(),
                        zoom_level: *zoom_level,
                    };
                }
            }
        }
        self.duplicate()
    }

    /// The server's tree as the client shows it.
    pub fn merge_visual_state(server: &LayoutNode, local: &LayoutNode) -> (r: LayoutNode)
        ensures
            r@ == merged(server@, Some(local@), local@),
    {
        Self::merge_node(server, Some(local), local)
    }

    fn merge_node(server: &LayoutNode, here: Option<&LayoutNode>, whole: &LayoutNode) -> (r:
        LayoutNode)
        ensures
            r@ == merged(
                server@,
                match here {
                    Some(h) => Some(h@),
                    None => None,
                },
                whole@,
            ),
        decreases server,
    {
        proof {
            view_unfolds(*server);
            if here is Some {
                view_unfolds(*(here->0));
            }
        }
        match server {
            LayoutNode::Terminal { .. } => server.present(whole),
            LayoutNode::Split { direction, sizes, children } => {
                let mut weights: &Vec<u32> = sizes;
                let mut beside: Option<&Vec<LayoutNode>> = None;
                if let Some(LayoutNode::Split { direction: d, sizes: s, children: cs }) = here {
                    if *direction == *d && children.len() == cs.len() {
                        weights = s;
                        beside = Some(cs);
                    }
                }
                let r = LayoutNode::Split {
                    direction: *direction,
                    sizes: copy_sizes(weights),
                    children: Self::merge_all(children, beside, whole),
                };
                proof {
                    view_unfolds(r);
                }
                r
            },
            LayoutNode::Tabs { children, active_tab } => {
                let mut active: usize = *active_tab;
                let mut beside: Option<&Vec<LayoutNode>> = None;
                if let Some(h) = here {
                    if let LayoutNode::Tabs { children: cs, .. } = h {
                        if children.len() == cs.len() {
                            beside = Some(cs);
                        }
                        if let Some(t) = h.showing_terminal() {
                            if let Some(i) = find_child_holding(children, t.as_str()) {
                                active = i;
                            }
                        }
                    }
                }
                let r = LayoutNode::Tabs {
                    children: Self::merge_all(children, beside, whole),
                    active_tab: active,
                };
                proof {
                    view_unfolds(r);
                }
                r
            },
        }
    }

    fn merge_all(
        children: &Vec<LayoutNode>,
        here: Option<&Vec<LayoutNode>>,
        whole: &LayoutNode,
    ) -> (r: Vec<LayoutNode>)
        requires
            here is Some ==> here->0@.len() == children@.len(),
        ensures
            node_views(r@) == merged_in(
                node_views(children@),
                match here {
                    Some(hs) => Some(node_views(hs@)),
                    None => None,
                },
                whole@,
                children@.len(),
            ),
        decreases children,
    {
        let ghost cs = node_views(children@);
        let ghost hs = match here {
            Some(h) => Some(node_views(h@)),
            None => None,
        };
        let mut out: Vec<LayoutNode> = Vec::new();
        let mut i: usize = 0;
        proof {
            assert(node_views(out@) =~= merged_in(cs, hs, whole@, 0));
        }
        while i < children.len()
            invariant
                i <= children@.len(),
                cs == node_views(children@),
                hs == match here {
                    Some(h) => Some(node_views(h@)),
                    None => None,
                },
                here is Some ==> here->0@.len() == children@.len(),
                node_views(out@) == merged_in(cs, hs, whole@, i as nat),
            decreases children@.len() - i,
        {
            let ghost held = out@;
            let h: Option<&LayoutNode> = match here {
                Some(v) => Some(&v[i]),
                None => None,
            };
            out.push(Self::merge_node(&children[i], h, whole));
            proof {
                assert(node_views(out@) =~= node_views(held).push(node_view(out@.last())));
            }
            i = i + 1;
        }
        out
    }
}

/// Merging neither adds nor drops nor moves a terminal: what the server
/// reports is what is there.
pub proof fn merging_keeps_the_servers_terminals(
    server: LayoutView,
    here: Option<LayoutView>,
    whole: LayoutView,
)
    ensures
        terminal_ids(merged(server, here, whole)) == terminal_ids(server),
    decreases server, 0nat,
{
    match server {
        LayoutView::Terminal { .. } => {},
        LayoutView::Split { children, .. } => {
            merging_all_keeps_the_servers_terminals(
                children,
                counterparts(server, here),
                whole,
                children.len(),
            );
        },
        LayoutView::Tabs { children, .. } => {
            merging_all_keeps_the_servers_terminals(
                children,
                counterparts(server, here),
                whole,
                children.len(),
            );
        },
    }
}

proof fn merging_all_keeps_the_servers_terminals(
    cs: Seq<LayoutView>,
    here: Option<Seq<LayoutView>>,
    whole: LayoutView,
    n: nat,
)
    requires
        n <= cs.len(),
    ensures
        merged_in(cs, here, whole, n).len() == n,
        terminal_ids_in(merged_in(cs, here, whole, n), n) == terminal_ids_in(cs, n),
    decreases cs, n,
{
    if n > 0 {
        merging_all_keeps_the_servers_terminals(cs, here, whole, (n - 1) as nat);
        let front = merged_in(cs, here, whole, (n - 1) as nat);
        let h = match here {
            Some(hs) => Some(hs[n - 1]),
            None => None,
        };
        merging_keeps_the_servers_terminals(cs[n - 1], h, whole);
        crate::layout_laws::ids_in_prefix(
            front.push(merged(cs[n - 1], h, whole)),
            front,
            (n - 1) as nat,
        );
    }
}

/// What merging makes of each child.
proof fn merged_in_index(
    cs: Seq<LayoutView>,
    here: Option<Seq<LayoutView>>,
    whole: LayoutView,
    n: nat,
    k: int,
)
    requires
        0 <= k < n <= cs.len(),
    ensures
        merged_in(cs, here, whole, n).len() == n,
        merged_in(cs, here, whole, n)[k] == merged(
            cs[k],
            match here {
                Some(hs) => Some(hs[k]),
                None => None,
            },
            whole,
        ),
    decreases n,
{
    if n > 1 {
        if k < n - 1 {
            merged_in_index(cs, here, whole, (n - 1) as nat, k);
        } else {
            merged_in_index(cs, here, whole, (n - 1) as nat, 0);
        }
    } else {
        assert(merged_in(cs, here, whole, 0).len() == 0);
    }
}

/// Each terminal of the server's tree keeps its place, and is presented there
/// as the client presents the terminal of that id, wherever the client has it:
/// its zoom, and whether it is minimized or detached. A terminal that is new to
/// the client is presented as the server says.
pub proof fn merging_keeps_the_clients_presentation(
    server: LayoutView,
    here: Option<LayoutView>,
    whole: LayoutView,
    path: Seq<usize>,
)
    requires
        node_at(server, path) is Some,
        node_at(server, path)->0 is Terminal,
    ensures
        node_at(merged(server, here, whole), path) == Some(
            presented(node_at(server, path)->0, whole),
        ),
    decreases path.len(),
{
    if path.len() > 0 {
        let k = path[0] as int;
        let cs = children_of(server);
        let hs = counterparts(server, here);
        merged_in_index(cs, hs, whole, cs.len(), k);
        let h = match hs {
            Some(hs) => Some(hs[k]),
            None => None,
        };
        merging_keeps_the_clients_presentation(cs[k], h, whole, path.skip(1));
        assert(children_of(merged(server, here, whole)) == merged_in(cs, hs, whole, cs.len()));
    }
}

} // verus!
