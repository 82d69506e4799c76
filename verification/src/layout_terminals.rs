//! The terminals of a pane tree: which one shows, clearing and renaming their
//! ids, removing them, and telling whether two trees are the same.

use crate::collections::{Duplicate, IdMap, list_contains};
use crate::layout::{
    HALF_WEIGHT, LayoutNode, LayoutView, ShellType, SplitDirection, children_of, node_at, node_view, node_views,
    opt_node, slot_path, view_unfolds, weight, with_children,
};
use crate::text::{has_prefix, join, join3, same, same_opt, starts_with, texts};
use vstd::prelude::*;

verus! {

/// The path to the terminal that shows: down the active tabs, and down the
/// first child of a split.
pub open spec fn visible_path(l: LayoutView) -> Seq<usize>
    decreases l,
{
    match l {
        LayoutView::Terminal { .. } => Seq::empty(),
        LayoutView::Split { children, .. } => if children.len() > 0 {
            seq![0usize] + visible_path(children[0])
        } else {
            Seq::empty()
        },
        LayoutView::Tabs { children, active_tab } => if active_tab < children.len() {
            seq![active_tab] + visible_path(children[active_tab as int])
        } else if children.len() > 0 {
            seq![0usize] + visible_path(children[0])
        } else {
            Seq::empty()
        },
    }
}

/// `l` with the tab groups along `path` showing what `path` leads to.
pub open spec fn activated(l: LayoutView, path: Seq<usize>) -> LayoutView
    decreases path.len(),
{
    if path.len() == 0 || path[0] >= children_of(l).len() {
        l
    } else {
        let cs = children_of(l).update(
            path[0] as int,
            activated(children_of(l)[path[0] as int], path.skip(1)),
        );
        match l {
            LayoutView::Tabs { .. } => LayoutView::Tabs { children: cs, active_tab: path[0] },
            _ => with_children(l, cs),
        }
    }
}

/// The connection id of the daemon on this machine.
pub open spec fn local_daemon() -> Seq<char> {
    "local-daemon"@
}

/// The id by which a client knows what the connection `conn` calls `id`.
pub open spec fn remote_id(conn: Seq<char>, id: Seq<char>) -> Seq<char> {
    "remote:"@ + conn + ":"@ + id
}

/// The id by which a client knows what the local daemon calls `id`; an id that
/// already names its connection is kept.
pub open spec fn local_daemon_id(id: Seq<char>) -> Seq<char> {
    if has_prefix(id, "remote:"@) {
        id
    } else {
        remote_id(local_daemon(), id)
    }
}

/// A change made to every terminal of a tree.
pub enum TerminalEdit<'a> {
    /// Empty every slot but those of the listed terminals.
    ClearExcept(&'a Vec<String>),
    /// Name every terminal as one of the given connection.
    OfConnection(&'a str),
    /// Name every terminal as one of the local daemon.
    OfLocalDaemon,
}

/// What a [`TerminalEdit`] stands for.
pub enum TerminalEditView {
    ClearExcept(Seq<Seq<char>>),
    OfConnection(Seq<char>),
    OfLocalDaemon,
}

impl<'a> View for TerminalEdit<'a> {
    type V = TerminalEditView;

    open spec fn view(&self) -> TerminalEditView {
        match self {
            TerminalEdit::ClearExcept(keep) => TerminalEditView::ClearExcept(texts(keep@)),
            TerminalEdit::OfConnection(conn) => TerminalEditView::OfConnection(conn@),
            TerminalEdit::OfLocalDaemon => TerminalEditView::OfLocalDaemon,
        }
    }
}

/// The terminal `t` after `edit`.
pub open spec fn edited_terminal(t: LayoutView, edit: TerminalEditView) -> LayoutView {
    match t {
        LayoutView::Terminal { terminal_id, minimized, detached, shell_type, zoom_level } =>
            match edit {
                TerminalEditView::ClearExcept(keep) => if terminal_id is Some && keep.contains(
                    terminal_id->0,
                ) {
                    t
                } else {
                    LayoutView::Terminal {
                        terminal_id: None,
                        minimized: false,
                        detached: false,
                        shell_type,
                        zoom_level,
                    }
                },
                TerminalEditView::OfConnection(conn) => LayoutView::Terminal {
                    terminal_id: match terminal_id {
                        Some(id) => Some(remote_id(conn, id)),
                        None => None,
                    },
                    minimized,
                    detached,
                    shell_type,
                    zoom_level,
                },
                TerminalEditView::OfLocalDaemon => LayoutView::Terminal {
                    terminal_id: match terminal_id {
                        Some(id) => Some(local_daemon_id(id)),
                        None => None,
                    },
                    minimized,
                    detached,
                    shell_type,
                    zoom_level,
                },
            },
        _ => t,
    }
}

/// `l` after `edit` of each of its terminals.
pub open spec fn edited(l: LayoutView, edit: TerminalEditView) -> LayoutView
    decreases l, 0nat,
{
    match l {
        LayoutView::Terminal { .. } => edited_terminal(l, edit),
        LayoutView::Split { children, .. } => with_children(
            l,
            edited_in(children, edit, children.len()),
        ),
        LayoutView::Tabs { children, .. } => with_children(
            l,
            edited_in(children, edit, children.len()),
        ),
    }
}

/// The first `n` of `cs` after `edit`.
pub open spec fn edited_in(
    cs: Seq<LayoutView>,
    edit: TerminalEditView,
    n: nat,
) -> Seq<LayoutView>
    decreases cs, n,
{
    if n == 0 || n > cs.len() {
        Seq::empty()
    } else {
        edited_in(cs, edit, (n - 1) as nat).push(edited(cs[n - 1], edit))
    }
}

/// Editing a list of trees is editing them one by one.
pub proof fn edited_in_index(cs: Seq<LayoutView>, edit: TerminalEditView, n: nat)
    requires
        n <= cs.len(),
    ensures
        edited_in(cs, edit, n).len() == n,
        forall|i: int| 0 <= i < n ==> #[trigger] edited_in(cs, edit, n)[i] == edited(cs[i], edit),
    decreases n,
{
    if n > 0 {
        edited_in_index(cs, edit, (n - 1) as nat);
    }
}

/// The id by which a client knows what the connection `conn` calls `id`.
pub fn make_remote_id(conn: &str, id: &str) -> (r: String)
    ensures
        r@ == remote_id(conn@, id@),
{
    let head = join3("remote:", conn, ":");
    join(head.as_str(), id)
}

/// The id by which a client knows what the local daemon calls `id`; an id that
/// already names its connection is kept.
pub fn prefix_local_daemon_id(id: &str) -> (r: String)
    ensures
        r@ == local_daemon_id(id@),
{
    if starts_with(id, "remote:") {
        id.to_owned()
    } else {
        make_remote_id("local-daemon", id)
    }
}

/// Naming an id as the local daemon's a second time changes nothing.
pub proof fn local_daemon_id_is_stable(id: Seq<char>)
    ensures
        local_daemon_id(local_daemon_id(id)) == local_daemon_id(id),
{
    if !has_prefix(id, "remote:"@) {
        let r = remote_id(local_daemon(), id);
        assert(r.take("remote:"@.len() as int) =~= "remote:"@);
    }
}

impl LayoutNode {
    /// The path to the terminal that shows.
    pub fn find_visible_terminal_path(&self) -> (r: Vec<usize>)
        ensures
            r@ == visible_path(self@),
        decreases self,
    {
        proof {
            view_unfolds(*self);
        }
        let (k, tail): (usize, Vec<usize>) = match self {
            LayoutNode::Terminal { .. } => {
                let r: Vec<usize> = Vec::new();
                proof {
                    assert(r@ =~= Seq::<usize>::empty());
                }
                return r;
            },
            LayoutNode::Split { children, .. } => {
                if children.len() == 0 {
                    let r: Vec<usize> = Vec::new();
                    proof {
                        assert(r@ =~= Seq::<usize>::empty());
                    }
                    return r;
                }
                (0usize, children[0].find_visible_terminal_path())
            },
            LayoutNode::Tabs { children, active_tab } => {
                if children.len() == 0 {
                    let r: Vec<usize> = Vec::new();
                    proof {
                        assert(r@ =~= Seq::<usize>::empty());
                    }
                    return r;
                }
                let k: usize = if *active_tab < children.len() {
                    *active_tab
                } else {
                    0
                };
                (k, children[k].find_visible_terminal_path())
            },
        };
        let mut tail = tail;
        let mut r: Vec<usize> = Vec::new();
        r.push(k);
        let ghost rest = tail@;
        r.append(&mut tail);
        proof {
            assert(r@ =~= seq![k] + rest);
        }
        r
    }

    /// The terminal `terminal_id`.
    pub fn find_terminal_node(&self, terminal_id: &str) -> (r: Option<&LayoutNode>)
        ensures
            match slot_path(self@, Some(terminal_id@)) {
                Some(p) => match r {
                    Some(n) => node_at(self@, p) == Some(n@),
                    None => node_at(self@, p) is None,
                },
                None => r is None,
            },
    {
        match self.find_terminal_path(terminal_id) {
            Some(p) => self.get_at_path(p.as_slice()),
            None => None,
        }
    }

    /// Let the tab groups along `path` show what it leads to.
    pub fn activate_tabs_along_path(&mut self, path: &[usize])
        ensures
            final(self)@ == activated(old(self)@, path@),
        decreases path@.len(),
    {
        let ghost start = *self;
        proof {
            view_unfolds(start);
        }
        if path.len() == 0 {
            return ;
        }
        let i: usize = path[0];
        let rest = vstd::slice::slice_subrange(path, 1, path.len());
        match self {
            LayoutNode::Terminal { .. } => {},
            LayoutNode::Split { children, .. } => {
                if i < children.len() {
                    children[i].activate_tabs_along_path(rest);
                }
            },
            LayoutNode::Tabs { children, active_tab } => {
                if i < children.len() {
                    *active_tab = i;
                    children[i].activate_tabs_along_path(rest);
                }
            },
        }
        proof {
            view_unfolds(*self);
            if i < children_of(start@).len() {
                assert(children_of(self@) =~= children_of(start@).update(
                    i as int,
                    activated(children_of(start@)[i as int], rest@),
                ));
            } else {
                assert(children_of(self@) =~= children_of(start@));
            }
        }
    }

    /// Make `edit` to every terminal.
    pub fn edit_terminals(&mut self, edit: &TerminalEdit)
        ensures
            final(self)@ == edited(old(self)@, edit@),
        decreases *old(self),
    {
        let ghost start = *self;
        proof {
            view_unfolds(start);
        }
        match self {
            LayoutNode::Terminal { terminal_id, minimized, detached, .. } => {
                match edit {
                    TerminalEdit::ClearExcept(keep) => {
                        let held = match terminal_id {
                            Some(t) => list_contains(keep, t.as_str()),
                            None => false,
                        };
                        if !held {
                            *terminal_id = None;
                            *minimized = false;
                            *detached = false;
                        }
                    },
                    TerminalEdit::OfConnection(conn) => {
                        let id = terminal_id.take();
                        *terminal_id = match id {
                            Some(t) => Some(make_remote_id(conn, t.as_str())),
                            None => None,
                        };
                    },
                    TerminalEdit::OfLocalDaemon => {
                        let id = terminal_id.take();
                        *terminal_id = match id {
                            Some(t) => Some(prefix_local_daemon_id(t.as_str())),
                            None => None,
                        };
                    },
                }
            },
            LayoutNode::Split { children, .. } => {
                Self::edit_all_terminals(children, edit);
            },
            LayoutNode::Tabs { children, .. } => {
                Self::edit_all_terminals(children, edit);
            },
        }
        proof {
            view_unfolds(*self);
        }
    }

    fn edit_all_terminals(children: &mut Vec<LayoutNode>, edit: &TerminalEdit)
        ensures
            node_views(final(children)@) == edited_in(
                node_views(old(children)@),
                edit@,
                old(children)@.len(),
            ),
        decreases old(children)@,
    {
        let ghost start = children@;
        let ghost cs = node_views(start);
        let mut i: usize = 0;
        while i < children.len()
            invariant
                i <= children@.len(),
                children@.len() == start.len(),
                start == old(children)@,
                cs == node_views(start),
                forall|j: int| 0 <= j < i ==> node_view(children@[j]) == edited(cs[j], edit@),
                forall|j: int| i <= j < start.len() ==> children@[j] == start[j],
            decreases children@.len() - i,
        {
            proof {
                assert(decreases_to!(start => start[i as int]));
            }
            children[i].edit_terminals(edit);
            i = i + 1;
        }
        proof {
            edited_in_index(cs, edit@, cs.len());
            assert(node_views(children@) =~= edited_in(cs, edit@, cs.len()));
        }
    }

    /// Empty every terminal slot but those of the terminals in `keep`.
    pub fn clear_terminal_ids_except(&mut self, keep: &Vec<String>)
        ensures
            final(self)@ == edited(old(self)@, TerminalEditView::ClearExcept(texts(keep@))),
    {
        self.edit_terminals(&TerminalEdit::ClearExcept(keep));
    }

    /// The tree's shape with every terminal slot empty.
    pub fn clone_structure(&self) -> (r: Self)
        ensures
            r@ == structure_of(self@),
    {
        let mut r = self.duplicate();
        let none: Vec<String> = Vec::new();
        r.edit_terminals(&TerminalEdit::ClearExcept(&none));
        proof {
            assert(texts(none@) =~= Seq::<Seq<char>>::empty());
        }
        r
    }

    /// The tree of a connection with its terminals named as the client names
    /// them.
    pub fn from_api_prefixed(api: &LayoutNode, connection_id: &str) -> (r: Self)
        ensures
            r@ == edited(api@, TerminalEditView::OfConnection(connection_id@)),
    {
        let mut r = api.duplicate();
        r.edit_terminals(&TerminalEdit::OfConnection(connection_id));
        r
    }

    /// Add a pane to the outermost group: as the last tab, showing; as the last
    /// pane of a split; or beside a lone terminal.
    pub fn append_to_root(&mut self, node: LayoutNode)
        ensures
            final(self)@ == appended(old(self)@, node@),
    {
        let ghost start = *self;
        proof {
            view_unfolds(start);
        }
        let mut root = LayoutNode::new_terminal();
        std::mem::swap(self, &mut root);
        let r = match root {
            LayoutNode::Tabs { children, .. } => {
                let mut cs = children;
                let ghost before = cs@;
                let last: usize = cs.len();
                cs.push(node);
                proof {
                    assert(node_views(cs@) =~= node_views(before).push(node@));
                }
                LayoutNode::Tabs { children: cs, active_tab: last }
            },
            LayoutNode::Split { direction, sizes, children } => {
                let mut cs = children;
                let mut ss = sizes;
                let ghost before = cs@;
                let w: u32 = if ss.len() > 0 {
                    ss[ss.len() - 1]
                } else {
                    HALF_WEIGHT
                };
                cs.push(node);
                ss.push(w);
                proof {
                    assert(node_views(cs@) =~= node_views(before).push(node@));
                }
                LayoutNode::Split { direction, sizes: ss, children: cs }
            },
            lone => {
                beside(SplitDirection::Vertical, lone, node)
            },
        };
        proof {
            view_unfolds(r);
        }
        *self = r;
    }
}

/// Two panes side by side, each with half of the space.
pub fn beside(direction: SplitDirection, first: LayoutNode, second: LayoutNode) -> (r: LayoutNode)
    ensures
        r@ == halves(direction, first@, second@),
{
    let mut children: Vec<LayoutNode> = Vec::new();
    children.push(first);
    children.push(second);
    let mut sizes: Vec<u32> = Vec::new();
    sizes.push(HALF_WEIGHT);
    sizes.push(HALF_WEIGHT);
    proof {
        assert(node_views(children@) =~= seq![first@, second@]);
        assert(sizes@ =~= seq![HALF_WEIGHT, HALF_WEIGHT]);
    }
    let r = LayoutNode::Split { direction, sizes, children };
    proof {
        view_unfolds(r);
    }
    r
}

/// Two panes side by side, each with half of the space.
pub open spec fn halves(
    direction: SplitDirection,
    first: LayoutView,
    second: LayoutView,
) -> LayoutView {
    LayoutView::Split { direction, sizes: seq![HALF_WEIGHT, HALF_WEIGHT], children: seq![first, second] }
}

/// The shape of `l` with every terminal slot empty.
pub open spec fn structure_of(l: LayoutView) -> LayoutView {
    edited(l, TerminalEditView::ClearExcept(Seq::empty()))
}

/// `root` with `node` added to its outermost group.
pub open spec fn appended(root: LayoutView, node: LayoutView) -> LayoutView {
    match root {
        LayoutView::Tabs { children, .. } => LayoutView::Tabs {
            children: children.push(node),
            active_tab: children.len() as usize,
        },
        LayoutView::Split { direction, sizes, children } => LayoutView::Split {
            direction,
            sizes: sizes.push(
                if sizes.len() > 0 {
                    sizes.last()
                } else {
                    HALF_WEIGHT
                },
            ),
            children: children.push(node),
        },
        LayoutView::Terminal { .. } => halves(SplitDirection::Vertical, root, node),
    }
}

/// `l` without the terminals in `gone`; a container left with one child gives
/// way to it, and one left with none disappears.
pub open spec fn pruned(l: LayoutView, gone: Seq<Seq<char>>) -> Option<LayoutView>
    decreases l, 0nat,
{
    match l {
        LayoutView::Terminal { terminal_id, .. } => if terminal_id is Some && gone.contains(
            terminal_id->0,
        ) {
            None
        } else {
            Some(l)
        },
        LayoutView::Split { direction, sizes, children } => {
            let cs = pruned_in(children, gone, children.len());
            if cs.len() == 0 {
                None
            } else if cs.len() == 1 {
                Some(cs[0])
            } else {
                Some(
                    LayoutView::Split {
                        direction,
                        sizes: pruned_sizes(sizes, children, gone, children.len()),
                        children: cs,
                    },
                )
            }
        },
        LayoutView::Tabs { children, active_tab } => {
            let cs = pruned_in(children, gone, children.len());
            if cs.len() == 0 {
                None
            } else if cs.len() == 1 {
                Some(cs[0])
            } else {
                Some(
                    LayoutView::Tabs {
                        children: cs,
                        active_tab: pruned_active(children, gone, active_tab, cs.len()),
                    },
                )
            }
        },
    }
}

/// What pruning leaves of the first `n` of `cs`.
pub open spec fn pruned_in(cs: Seq<LayoutView>, gone: Seq<Seq<char>>, n: nat) -> Seq<LayoutView>
    decreases cs, n,
{
    if n == 0 || n > cs.len() {
        Seq::empty()
    } else {
        match pruned(cs[n - 1], gone) {
            Some(c) => pruned_in(cs, gone, (n - 1) as nat).push(c),
            None => pruned_in(cs, gone, (n - 1) as nat),
        }
    }
}

/// The weights of what pruning leaves of the first `n` of `cs`.
pub open spec fn pruned_sizes(
    sizes: Seq<u32>,
    cs: Seq<LayoutView>,
    gone: Seq<Seq<char>>,
    n: nat,
) -> Seq<u32>
    decreases cs, n,
{
    if n == 0 || n > cs.len() {
        Seq::empty()
    } else if pruned(cs[n - 1], gone) is Some {
        pruned_sizes(sizes, cs, gone, (n - 1) as nat).push(weight(sizes, n - 1))
    } else {
        pruned_sizes(sizes, cs, gone, (n - 1) as nat)
    }
}

/// The active tab once `left` tabs remain: it moves up by the tabs that went
/// before it, to the last one where it would lie beyond.
pub open spec fn pruned_active(
    cs: Seq<LayoutView>,
    gone: Seq<Seq<char>>,
    active: usize,
    left: nat,
) -> usize
    decreases cs, cs.len() + 1,
{
    let before = if active <= cs.len() {
        pruned_in(cs, gone, active as nat).len()
    } else {
        left
    };
    if before >= left {
        (left - 1) as usize
    } else {
        before as usize
    }
}

/// What pruning leaves of an optional tree.
pub open spec fn opt_pruned(o: Option<LayoutView>, gone: Seq<Seq<char>>) -> Option<LayoutView> {
    match o {
        Some(l) => pruned(l, gone),
        None => None,
    }
}

impl LayoutNode {
    /// Remove the terminals in `gone` from the tree.
    pub fn remove_terminal_ids(layout: &mut Option<LayoutNode>, gone: &Vec<String>)
        ensures
            opt_node(*final(layout)) == opt_pruned(opt_node(*old(layout)), texts(gone@)),
    {
        let all = layout.take();
        *layout = match all {
            Some(l) => l.pruned_of(gone),
            None => None,
        };
    }

    /// The tree without the terminals in `gone`.
    fn pruned_of(&self, gone: &Vec<String>) -> (r: Option<LayoutNode>)
        ensures
            opt_node(r) == pruned(self@, texts(gone@)),
        decreases self,
    {
        proof {
            view_unfolds(*self);
        }
        match self {
            LayoutNode::Terminal { terminal_id, .. } => {
                let drop = match terminal_id {
                    Some(t) => list_contains(gone, t.as_str()),
                    None => false,
                };
                if drop {
                    None
                } else {
                    Some(self.duplicate())
                }
            },
            LayoutNode::Split { direction, sizes, children } => {
                let (mut cs, ss, _before) = Self::pruned_all(children, sizes, gone, 0);
                if cs.len() == 0 {
                    None
                } else if cs.len() == 1 {
                    let ghost held = cs@;
                    let only = cs.pop();
                    proof {
                        assert(node_views(held)[0] == node_view(held[0]));
                    }
                    only
                } else {
                    let r = LayoutNode::Split { direction: *direction, sizes: ss, children: cs };
                    proof {
                        view_unfolds(r);
                    }
                    Some(r)
                }
            },
            LayoutNode::Tabs { children, active_tab } => {
                let none: Vec<u32> = Vec::new();
                let (mut cs, _ss, before) = Self::pruned_all(children, &none, gone, *active_tab);
                if cs.len() == 0 {
                    None
                } else if cs.len() == 1 {
                    let ghost held = cs@;
                    let only = cs.pop();
                    proof {
                        assert(node_views(held)[0] == node_view(held[0]));
                    }
                    only
                } else {
                    let active: usize = if *active_tab > children.len() || before >= cs.len() {
                        cs.len() - 1
                    } else {
                        before
                    };
                    let r = LayoutNode::Tabs { children: cs, active_tab: active };
                    proof {
                        view_unfolds(r);
                    }
                    Some(r)
                }
            },
        }
    }

    /// What pruning leaves of `children`, its weights, and how many of the
    /// first `mark` children are among it.
    fn pruned_all(
        children: &Vec<LayoutNode>,
        sizes: &Vec<u32>,
        gone: &Vec<String>,
        mark: usize,
    ) -> (r: (Vec<LayoutNode>, Vec<u32>, usize))
        ensures
            node_views(r.0@) == pruned_in(
                node_views(children@),
                texts(gone@),
                children@.len(),
            ),
            r.1@ == pruned_sizes(
                sizes@,
                node_views(children@),
                texts(gone@),
                children@.len(),
            ),
            mark <= children@.len() ==> r.2 == pruned_in(
                node_views(children@),
                texts(gone@),
                mark as nat,
            ).len(),
        decreases children,
    {
        let ghost cs = node_views(children@);
        let mut out: Vec<LayoutNode> = Vec::new();
        let mut weights: Vec<u32> = Vec::new();
        let mut before: usize = 0;
        let mut i: usize = 0;
        proof {
            assert(node_views(out@) =~= pruned_in(cs, texts(gone@), 0));
            assert(weights@ =~= pruned_sizes(sizes@, cs, texts(gone@), 0));
        }
        while i < children.len()
            invariant
                i <= children.len(),
                cs == node_views(children@),
                node_views(out@) == pruned_in(cs, texts(gone@), i as nat),
                weights@ == pruned_sizes(sizes@, cs, texts(gone@), i as nat),
                mark < i ==> before == pruned_in(cs, texts(gone@), mark as nat).len(),
            decreases children.len() - i,
        {
            if i == mark {
                before = out.len();
                proof {
                    assert(node_views(out@).len() == out@.len());
                }
            }
            let ghost held = out@;
            match children[i].pruned_of(gone) {
                Some(c) => {
                    out.push(c);
                    weights.push(
                        if i < sizes.len() {
                            sizes[i]
                        } else {
                            0
                        },
                    );
                    proof {
                        assert(node_views(out@) =~= node_views(held).push(c@));
                    }
                },
                None => {},
            }
            i = i + 1;
        }
        if mark == children.len() {
            before = out.len();
            proof {
                assert(node_views(out@).len() == out@.len());
            }
        }
        (out, weights, before)
    }
}

impl ShellType {
    /// Whether two shells are the same.
    pub fn same_as(&self, other: &ShellType) -> (r: bool)
        ensures
            r == (self@ == other@),
    {
        match (self, other) {
            (ShellType::Default, ShellType::Default) => true,
            (ShellType::Cmd, ShellType::Cmd) => true,
            (ShellType::Wsl { distro: a }, ShellType::Wsl { distro: b }) => same_opt(a, b),
            (
                ShellType::Command { command: a, env: x },
                ShellType::Command { command: b, env: y },
            ) => same(a.as_str(), b.as_str()) && same_env(x, y),
            _ => false,
        }
    }
}

fn same_env(a: &IdMap<String>, b: &IdMap<String>) -> (r: bool)
    ensures
        r == (a@ == b@),
{
    if a.len() != b.len() {
        return false;
    }
    let mut i: usize = 0;
    while i < a.len()
        invariant
            i <= a@.len(),
            a@.len() == b@.len(),
            forall|j: int| 0 <= j < i ==> a@[j] == b@[j],
        decreases a@.len() - i,
    {
        if !same(a.key_at(i).as_str(), b.key_at(i).as_str()) || !same(
            a.value_at(i).as_str(),
            b.value_at(i).as_str(),
        ) {
            proof {
                assert(a@[i as int] != b@[i as int]);
            }
            return false;
        }
        i = i + 1;
    }
    proof {
        assert(a@ =~= b@);
    }
    true
}

fn same_sizes(a: &Vec<u32>, b: &Vec<u32>) -> (r: bool)
    ensures
        r == (a@ == b@),
{
    if a.len() != b.len() {
        return false;
    }
    let mut i: usize = 0;
    while i < a.len()
        invariant
            i <= a@.len(),
            a@.len() == b@.len(),
            forall|j: int| 0 <= j < i ==> a@[j] == b@[j],
        decreases a@.len() - i,
    {
        if a[i] != b[i] {
            return false;
        }
        i = i + 1;
    }
    proof {
        assert(a@ =~= b@);
    }
    true
}

impl LayoutNode {
    /// Whether two trees are the same.
    pub fn same_as(&self, other: &LayoutNode) -> (r: bool)
        ensures
            r == (self@ == other@),
        decreases self,
    {
        proof {
            view_unfolds(*self);
            view_unfolds(*other);
        }
        match (self, other) {
            (
                LayoutNode::Terminal { terminal_id, minimized, detached, shell_type, zoom_level },
                LayoutNode::Terminal {
                    terminal_id: id2,
                    minimized: min2,
                    detached: det2,
                    shell_type: shell2,
                    zoom_level: zoom2,
                },
            ) => same_opt(terminal_id, id2) && *minimized == *min2 && *detached == *det2
                && shell_type.same_as(shell2) && *zoom_level == *zoom2,
            (
                LayoutNode::Split { direction, sizes, children },
                LayoutNode::Split { direction: d2, sizes: s2, children: c2 },
            ) => *direction == *d2 && same_sizes(sizes, s2) && Self::same_all(children, c2),
            (
                LayoutNode::Tabs { children, active_tab },
                LayoutNode::Tabs { children: c2, active_tab: a2 },
            ) => *active_tab == *a2 && Self::same_all(children, c2),
            _ => false,
        }
    }

    fn same_all(a: &Vec<LayoutNode>, b: &Vec<LayoutNode>) -> (r: bool)
        ensures
            r == (node_views(a@) == node_views(b@)),
        decreases a,
    {
        if a.len() != b.len() {
            proof {
                assert(node_views(a@).len() != node_views(b@).len());
            }
            return false;
        }
        let mut i: usize = 0;
        while i < a.len()
            invariant
                i <= a@.len(),
                a@.len() == b@.len(),
                forall|j: int| 0 <= j < i ==> node_view(a@[j]) == node_view(b@[j]),
            decreases a@.len() - i,
        {
            if !a[i].same_as(&b[i]) {
                proof {
                    assert(node_views(a@)[i as int] != node_views(b@)[i as int]);
                }
                return false;
            }
            i = i + 1;
        }
        proof {
            assert(node_views(a@) =~= node_views(b@));
        }
        true
    }
}

/// Whether two optional trees are the same.
pub fn same_layout(a: &Option<LayoutNode>, b: &Option<LayoutNode>) -> (r: bool)
    ensures
        r == (opt_node(*a) == opt_node(*b)),
{
    match (a, b) {
        (Some(x), Some(y)) => x.same_as(y),
        (None, None) => true,
        _ => false,
    }
}

} // verus!
