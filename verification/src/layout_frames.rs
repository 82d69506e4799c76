//! What the edits of a pane tree keep of its shape, node by node.

use crate::layout::{
    LayoutNode, LayoutView, SplitDirection, children_of, node_at, slot_path, slot_path_in,
    terminal_ids, terminal_ids_in,
};
use crate::layout_merge::{counterparts, merged, merged_in};
use crate::layout_terminals::{
    TerminalEditView, activated, edited, edited_in, edited_in_index, structure_of,
};
use vstd::prelude::*;

verus! {

/// What kind of node there is, and how many children it has.
pub enum Frame {
    Terminal,
    Split(SplitDirection, nat),
    Tabs(nat),
}

/// The frame of the node of `l` at `path`.
pub open spec fn frame_at(l: LayoutView, path: Seq<usize>) -> Option<Frame> {
    match node_at(l, path) {
        Some(LayoutView::Terminal { .. }) => Some(Frame::Terminal),
        Some(LayoutView::Split { direction, children, .. }) => Some(
            Frame::Split(direction, children.len()),
        ),
        Some(LayoutView::Tabs { children, .. }) => Some(Frame::Tabs(children.len())),
        None => None,
    }
}

/// The weights of the split of `l` at `path`.
pub open spec fn weights_at(l: LayoutView, path: Seq<usize>) -> Option<Seq<u32>> {
    match node_at(l, path) {
        Some(LayoutView::Split { sizes, .. }) => Some(sizes),
        _ => None,
    }
}

/// The active tab of the group of `l` at `path`.
pub open spec fn tab_at(l: LayoutView, path: Seq<usize>) -> Option<usize> {
    match node_at(l, path) {
        Some(LayoutView::Tabs { active_tab, .. }) => Some(active_tab),
        _ => None,
    }
}

/// Whether every group of `l` has as many children as a list can hold.
pub open spec fn representable(l: LayoutView) -> bool {
    forall|path: Seq<usize>| #[trigger]
        node_at(l, path) is Some ==> children_of(node_at(l, path)->0).len() <= usize::MAX
}

proof fn below_a_child(l: LayoutView, i: int, path: Seq<usize>)
    requires
        0 <= i < children_of(l).len(),
        i <= usize::MAX,
    ensures
        node_at(l, seq![i as usize] + path) == node_at(children_of(l)[i], path),
{
    assert((seq![i as usize] + path).skip(1) =~= path);
}

/// What lies below a representable tree is representable.
pub proof fn children_are_representable(l: LayoutView, i: int)
    requires
        representable(l),
        0 <= i < children_of(l).len(),
    ensures
        children_of(l).len() <= usize::MAX,
        representable(children_of(l)[i]),
{
    let c = children_of(l)[i];
    assert(node_at(l, Seq::empty()) == Some(l));
    assert forall|path: Seq<usize>| #[trigger] node_at(c, path) is Some implies children_of(
        node_at(c, path)->0,
    ).len() <= usize::MAX by {
        below_a_child(l, i, path);
        assert(node_at(l, seq![i as usize] + path) is Some);
    }
}

/// Every tree that there is can be represented.
pub proof fn trees_are_representable(l: LayoutNode)
    ensures
        representable(l@),
{
    assert forall|path: Seq<usize>| #[trigger] node_at(l@, path) is Some implies children_of(
        node_at(l@, path)->0,
    ).len() <= usize::MAX by {
        groups_fit(l, path);
    }
}

proof fn groups_fit(l: LayoutNode, path: Seq<usize>)
    requires
        node_at(l@, path) is Some,
    ensures
        children_of(node_at(l@, path)->0).len() <= usize::MAX,
    decreases path.len(),
{
    match l {
        LayoutNode::Terminal { .. } => {},
        LayoutNode::Split { children, .. } => {
            assert(children@.len() <= usize::MAX) by {
                assert(children.len() == children@.len());
            }
            if path.len() > 0 {
                groups_fit(children@[path[0] as int], path.skip(1));
            }
        },
        LayoutNode::Tabs { children, .. } => {
            assert(children@.len() <= usize::MAX) by {
                assert(children.len() == children@.len());
            }
            if path.len() > 0 {
                groups_fit(children@[path[0] as int], path.skip(1));
            }
        },
    }
}

/// A terminal is found exactly where the tree holds it, and what is found is
/// that terminal.
pub proof fn terminals_are_found(l: LayoutView, t: Seq<char>)
    ensures
        slot_path(l, Some(t)) is Some <==> terminal_ids(l).contains(t),
        representable(l) && slot_path(l, Some(t)) is Some ==> {
            let n = node_at(l, slot_path(l, Some(t))->0);
            n is Some && n->0 is Terminal && n->0->terminal_id == Some(t)
        },
    decreases l, 0nat,
{
    match l {
        LayoutView::Terminal { terminal_id, .. } => {
            if let Some(id) = terminal_id {
                assert(terminal_ids(l) =~= seq![id]);
                assert(terminal_ids(l)[0] == id);
            }
        },
        LayoutView::Split { children, .. } => {
            terminals_are_found_below(children, t, children.len());
            found_below(l, t);
        },
        LayoutView::Tabs { children, .. } => {
            terminals_are_found_below(children, t, children.len());
            found_below(l, t);
        },
    }
}

proof fn found_below(l: LayoutView, t: Seq<char>)
    requires
        !(l is Terminal),
        slot_path_in(children_of(l), Some(t), children_of(l).len()) is Some ==> exists|k: int|
            found_at(children_of(l), t, children_of(l).len(), k),
        forall|k: int|
            0 <= k < children_of(l).len() && representable(children_of(l)[k]) && slot_path(
                #[trigger] children_of(l)[k],
                Some(t),
            ) is Some ==> {
                let n = node_at(children_of(l)[k], slot_path(children_of(l)[k], Some(t))->0);
                n is Some && n->0 is Terminal && n->0->terminal_id == Some(t)
            },
    ensures
        representable(l) && slot_path(l, Some(t)) is Some ==> {
            let n = node_at(l, slot_path(l, Some(t))->0);
            n is Some && n->0 is Terminal && n->0->terminal_id == Some(t)
        },
{
    let cs = children_of(l);
    if representable(l) && slot_path(l, Some(t)) is Some {
        let k = choose|k: int| found_at(cs, t, cs.len(), k);
        children_are_representable(l, k);
        below_a_child(l, k, slot_path(cs[k], Some(t))->0);
    }
}

/// Whether the search below `cs` ends below the child `k`.
spec fn found_at(cs: Seq<LayoutView>, t: Seq<char>, n: nat, k: int) -> bool {
    &&& 0 <= k < n
    &&& slot_path(cs[k], Some(t)) is Some
    &&& slot_path_in(cs, Some(t), n) == Some(
        seq![k as usize] + slot_path(cs[k], Some(t))->0,
    )
}

proof fn terminals_are_found_below(cs: Seq<LayoutView>, t: Seq<char>, n: nat)
    requires
        n <= cs.len(),
    ensures
        slot_path_in(cs, Some(t), n) is Some <==> terminal_ids_in(cs, n).contains(t),
        slot_path_in(cs, Some(t), n) is Some ==> exists|k: int| found_at(cs, t, n, k),
        forall|k: int|
            0 <= k < n && representable(cs[k]) && slot_path(#[trigger] cs[k], Some(t)) is Some ==> {
                let m = node_at(cs[k], slot_path(cs[k], Some(t))->0);
                m is Some && m->0 is Terminal && m->0->terminal_id == Some(t)
            },
    decreases cs, n,
{
    if n > 0 {
        terminals_are_found_below(cs, t, (n - 1) as nat);
        terminals_are_found(cs[n - 1], t);
        let front = terminal_ids_in(cs, (n - 1) as nat);
        let last = terminal_ids(cs[n - 1]);
        held_by_either(front, last, t);
        if slot_path_in(cs, Some(t), (n - 1) as nat) is Some {
            let m = (n - 1) as nat;
            let k = choose|k: int| found_at(cs, t, m, k);
            assert(found_at(cs, t, n, k));
        } else if slot_path(cs[n - 1], Some(t)) is Some {
            assert(found_at(cs, t, n, n - 1));
        }
    }
}

/// What two lists hold together.
pub proof fn held_by_either(a: Seq<Seq<char>>, b: Seq<Seq<char>>, t: Seq<char>)
    ensures
        (a + b).contains(t) <==> a.contains(t) || b.contains(t),
{
    if a.contains(t) {
        let i = choose|i: int| 0 <= i < a.len() && a[i] == t;
        assert((a + b)[i] == t);
    }
    if b.contains(t) {
        let i = choose|i: int| 0 <= i < b.len() && b[i] == t;
        assert((a + b)[a.len() + i] == t);
    }
    if (a + b).contains(t) {
        let i = choose|i: int| 0 <= i < (a + b).len() && (a + b)[i] == t;
        if i < a.len() {
            assert(a[i] == t);
        } else {
            assert(b[i - a.len()] == t);
        }
    }
}

/// Renaming or clearing the terminals of a tree moves, adds and drops no node,
/// and leaves weights, active tabs, shells and zooms alone.
pub proof fn editing_terminals_keeps_the_shape(
    l: LayoutView,
    edit: TerminalEditView,
    path: Seq<usize>,
)
    ensures
        frame_at(edited(l, edit), path) == frame_at(l, path),
        weights_at(edited(l, edit), path) == weights_at(l, path),
        tab_at(edited(l, edit), path) == tab_at(l, path),
        node_at(l, path) is Some && node_at(l, path)->0 is Terminal ==> {
            let a = node_at(l, path)->0;
            let b = node_at(edited(l, edit), path)->0;
            &&& b->shell_type == a->shell_type
            &&& b->zoom_level == a->zoom_level
        },
    decreases path.len(),
{
    let cs = children_of(l);
    edited_in_index(cs, edit, cs.len());
    if path.len() > 0 && path[0] < cs.len() {
        editing_terminals_keeps_the_shape(cs[path[0] as int], edit, path.skip(1));
    }
}

/// A copied structure has the splits, the tabs and the slots of the tree that it
/// was copied from, and every slot of it is empty and in plain sight.
pub proof fn a_copied_structure_is_empty(l: LayoutView, path: Seq<usize>)
    ensures
        frame_at(structure_of(l), path) == frame_at(l, path),
        weights_at(structure_of(l), path) == weights_at(l, path),
        node_at(structure_of(l), path) is Some && node_at(structure_of(l), path)->0 is Terminal ==> {
            let slot = node_at(structure_of(l), path)->0;
            &&& slot->terminal_id is None
            &&& !slot->minimized
            &&& !slot->detached
        },
    decreases path.len(),
{
    let edit = TerminalEditView::ClearExcept(Seq::empty());
    editing_terminals_keeps_the_shape(l, edit, path);
    let cs = children_of(l);
    edited_in_index(cs, edit, cs.len());
    if path.len() > 0 && path[0] < cs.len() {
        a_copied_structure_is_empty(cs[path[0] as int], path.skip(1));
    }
}

/// A terminal of a connection goes by the connection's name: `remote:`, the
/// connection, and what the connection calls it. Which terminals there are, and
/// in which order, is as before.
pub proof fn terminals_get_the_connections_names(l: LayoutView, conn: Seq<char>, i: int)
    ensures
        ({
            let named = edited(l, TerminalEditView::OfConnection(conn));
            &&& terminal_ids(named).len() == terminal_ids(l).len()
            &&& 0 <= i < terminal_ids(l).len() ==> terminal_ids(named)[i] == "remote:"@ + conn
                + ":"@ + terminal_ids(l)[i]
        }),
    decreases l, 0nat,
{
    match l {
        LayoutView::Terminal { .. } => {},
        LayoutView::Split { children, .. } => {
            edited_in_index(
                children,
                TerminalEditView::OfConnection(conn),
                children.len(),
            );
            names_below(children, conn, children.len(), i);
        },
        LayoutView::Tabs { children, .. } => {
            edited_in_index(
                children,
                TerminalEditView::OfConnection(conn),
                children.len(),
            );
            names_below(children, conn, children.len(), i);
        },
    }
}

proof fn names_below(cs: Seq<LayoutView>, conn: Seq<char>, n: nat, i: int)
    requires
        n <= cs.len(),
    ensures
        ({
            let named = edited_in(cs, TerminalEditView::OfConnection(conn), cs.len());
            &&& terminal_ids_in(named, n).len() == terminal_ids_in(cs, n).len()
            &&& 0 <= i < terminal_ids_in(cs, n).len() ==> terminal_ids_in(named, n)[i] == "remote:"@
                + conn + ":"@ + terminal_ids_in(cs, n)[i]
        }),
    decreases cs, n,
{
    if n > 0 {
        let edit = TerminalEditView::OfConnection(conn);
        edited_in_index(cs, edit, cs.len());
        names_below(cs, conn, (n - 1) as nat, i);
        terminals_get_the_connections_names(
            cs[n - 1],
            conn,
            i - terminal_ids_in(cs, (n - 1) as nat).len(),
        );
    }
}

/// Bringing tabs to the front moves no node and changes no terminal.
pub proof fn activating_keeps_the_shape(l: LayoutView, to: Seq<usize>, path: Seq<usize>)
    ensures
        frame_at(activated(l, to), path) == frame_at(l, path),
        weights_at(activated(l, to), path) == weights_at(l, path),
        node_at(l, path) is Some && node_at(l, path)->0 is Terminal ==> node_at(
            activated(l, to),
            path,
        ) == node_at(l, path),
    decreases path.len(),
{
    let cs = children_of(l);
    if to.len() > 0 && to[0] < cs.len() && path.len() > 0 && path[0] < cs.len() {
        if path[0] == to[0] {
            activating_keeps_the_shape(cs[path[0] as int], to.skip(1), path.skip(1));
        }
    }
}

/// Every tab group on the way to a node shows the tab that leads there.
pub proof fn activating_shows_the_way(l: LayoutView, to: Seq<usize>, k: int)
    requires
        node_at(l, to) is Some,
        0 <= k < to.len(),
    ensures
        frame_at(l, to.take(k)) is Some,
        frame_at(l, to.take(k))->0 is Tabs ==> tab_at(activated(l, to), to.take(k)) == Some(to[k]),
    decreases k,
{
    if k > 0 {
        let c = children_of(l)[to[0] as int];
        activating_shows_the_way(c, to.skip(1), k - 1);
        assert(to.take(k).skip(1) =~= to.skip(1).take(k - 1));
    } else {
        assert(to.take(0) =~= Seq::<usize>::empty());
    }
}

/// Bringing tabs to the front keeps the terminals, in their order.
pub proof fn activating_keeps_terminals(l: LayoutView, to: Seq<usize>)
    ensures
        terminal_ids(activated(l, to)) == terminal_ids(l),
    decreases to.len(),
{
    let cs = children_of(l);
    if to.len() > 0 && to[0] < cs.len() {
        let i = to[0] as int;
        let c = activated(cs[i], to.skip(1));
        activating_keeps_terminals(cs[i], to.skip(1));
        same_ids_below(cs, cs.update(i, c), cs.len());
    }
}

proof fn same_ids_below(cs: Seq<LayoutView>, ds: Seq<LayoutView>, n: nat)
    requires
        n <= cs.len(),
        cs.len() == ds.len(),
        forall|i: int| 0 <= i < cs.len() ==> terminal_ids(#[trigger] cs[i]) == terminal_ids(ds[i]),
    ensures
        terminal_ids_in(cs, n) == terminal_ids_in(ds, n),
    decreases n,
{
    if n > 0 {
        same_ids_below(cs, ds, (n - 1) as nat);
        assert(terminal_ids(cs[n - 1]) == terminal_ids(ds[n - 1]));
    }
}

/// What the server reports is what there is: showing it as the client did moves,
/// adds and drops no node, and changes no terminal's id or shell.
pub proof fn merging_keeps_the_servers_shape(
    server: LayoutView,
    here: Option<LayoutView>,
    whole: LayoutView,
    path: Seq<usize>,
)
    ensures
        frame_at(merged(server, here, whole), path) == frame_at(server, path),
        node_at(server, path) is Some && node_at(server, path)->0 is Terminal ==> {
            let a = node_at(server, path)->0;
            let b = node_at(merged(server, here, whole), path)->0;
            &&& b->terminal_id == a->terminal_id
            &&& b->shell_type == a->shell_type
        },
    decreases path.len(),
{
    let cs = children_of(server);
    let local = counterparts(server, here);
    merged_below(cs, local, whole, cs.len());
    if path.len() > 0 && path[0] < cs.len() {
        let i = path[0] as int;
        merging_keeps_the_servers_shape(
            cs[i],
            match local {
                Some(hs) => Some(hs[i]),
                None => None,
            },
            whole,
            path.skip(1),
        );
    }
}

proof fn merged_below(
    cs: Seq<LayoutView>,
    here: Option<Seq<LayoutView>>,
    whole: LayoutView,
    n: nat,
)
    requires
        n <= cs.len(),
    ensures
        merged_in(cs, here, whole, n).len() == n,
        forall|k: int|
            0 <= k < n ==> #[trigger] merged_in(cs, here, whole, n)[k] == merged(
                cs[k],
                match here {
                    Some(hs) => Some(hs[k]),
                    None => None,
                },
                whole,
            ),
    decreases n,
{
    if n > 0 {
        merged_below(cs, here, whole, (n - 1) as nat);
    }
}

/// The client keeps its own weights where a split has as many panes as before.
pub proof fn merging_keeps_the_clients_weights(server: LayoutView, local: LayoutView)
    requires
        server is Split,
        local is Split,
        frame_at(server, Seq::empty()) == frame_at(local, Seq::empty()),
    ensures
        weights_at(merged(server, Some(local), local), Seq::empty()) == weights_at(
            local,
            Seq::empty(),
        ),
{
}

/// A split whose number of panes changed has the server's weights.
pub proof fn merging_takes_new_weights(server: LayoutView, local: LayoutView)
    requires
        server is Split,
        frame_at(server, Seq::empty()) != frame_at(local, Seq::empty()),
    ensures
        weights_at(merged(server, Some(local), local), Seq::empty()) == weights_at(
            server,
            Seq::empty(),
        ),
{
}

} // verus!
