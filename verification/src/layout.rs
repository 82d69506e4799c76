//! The pane tree of a project: terminals arranged in splits and tab groups.
//!
//! Split sizes are relative weights. They and zoom levels count hundredths, so
//! both are whole numbers.

use crate::collections::{Duplicate, IdMap};
use crate::text::{copy_opt, opt_text, same, texts};
use vstd::prelude::*;

verus! {

/// How the children of a split are laid out.
#[derive(Clone, Copy, Debug, PartialEq, Eq, Structural)]
pub enum SplitDirection {
    Horizontal,
    Vertical,
}

/// The weight of each of two panes that share the space evenly.
pub const HALF_WEIGHT: u32 = 5000;

/// Where, relative to a target pane, a dragged pane is dropped.
#[derive(Clone, Copy, Debug, PartialEq, Eq, Structural)]
pub enum DropZone {
    Top,
    Bottom,
    Left,
    Right,
    Center,
}

/// The shell that a terminal runs.
#[derive(Debug)]
pub enum ShellType {
    Default,
    Cmd,
    Wsl { distro: Option<String> },
    Command { command: String, env: IdMap<String> },
}

/// What a [`ShellType`] stands for.
pub enum ShellView {
    Default,
    Cmd,
    Wsl { distro: Option<Seq<char>> },
    Command { command: Seq<char>, env: Seq<(Seq<char>, Seq<char>)> },
}

impl View for ShellType {
    type V = ShellView;

    open spec fn view(&self) -> ShellView {
        match self {
            ShellType::Default => ShellView::Default,
            ShellType::Cmd => ShellView::Cmd,
            ShellType::Wsl { distro } => ShellView::Wsl { distro: opt_text(*distro) },
            ShellType::Command { command, env } => ShellView::Command {
                command: command@,
                env: env@,
            },
        }
    }
}

impl Duplicate for ShellType {
    fn duplicate(&self) -> (r: Self) {
        match self {
            ShellType::Default => ShellType::Default,
            ShellType::Cmd => ShellType::Cmd,
            ShellType::Wsl { distro } => ShellType::Wsl { distro: copy_opt(distro) },
            ShellType::Command { command, env } => ShellType::Command {
                command: command.clone(),
                env: env.copy(),
            },
        }
    }
}

impl Clone for ShellType {
    fn clone(&self) -> (r: Self)
        ensures
            r@ == self@,
    {
        self.duplicate()
    }
}

/// A pane tree.
#[derive(Debug)]
pub enum LayoutNode {
    Terminal {
        terminal_id: Option<String>,
        minimized: bool,
        detached: bool,
        shell_type: ShellType,
        zoom_level: u32,
    },
    Split { direction: SplitDirection, sizes: Vec<u32>, children: Vec<LayoutNode> },
    Tabs { children: Vec<LayoutNode>, active_tab: usize },
}

/// What a [`LayoutNode`] stands for.
#[verifier::ext_equal]
pub enum LayoutView {
    Terminal {
        terminal_id: Option<Seq<char>>,
        minimized: bool,
        detached: bool,
        shell_type: ShellView,
        zoom_level: u32,
    },
    Split { direction: SplitDirection, sizes: Seq<u32>, children: Seq<LayoutView> },
    Tabs { children: Seq<LayoutView>, active_tab: usize },
}

impl View for LayoutNode {
    type V = LayoutView;

    open spec fn view(&self) -> LayoutView {
        node_view(*self)
    }
}

/// What `l` stands for.
pub open spec fn node_view(l: LayoutNode) -> LayoutView
    decreases l,
{
    match l {
        LayoutNode::Terminal { terminal_id, minimized, detached, shell_type, zoom_level } =>
            LayoutView::Terminal {
                terminal_id: opt_text(terminal_id),
                minimized,
                detached,
                shell_type: shell_type@,
                zoom_level,
            },
        LayoutNode::Split { direction, sizes, children } => LayoutView::Split {
            direction,
            sizes: sizes@,
            children: Seq::new(
                children@.len(),
                |i: int|
                    if 0 <= i < children@.len() {
                        node_view(children@[i])
                    } else {
                        arbitrary()
                    },
            ),
        },
        LayoutNode::Tabs { children, active_tab } => LayoutView::Tabs {
            children: Seq::new(
                children@.len(),
                |i: int|
                    if 0 <= i < children@.len() {
                        node_view(children@[i])
                    } else {
                        arbitrary()
                    },
            ),
            active_tab,
        },
    }
}

/// What each node of `s` stands for.
pub open spec fn node_views(s: Seq<LayoutNode>) -> Seq<LayoutView> {
    Seq::new(s.len(), |i: int| node_view(s[i]))
}

/// What an optional tree stands for.
pub open spec fn opt_node(o: Option<LayoutNode>) -> Option<LayoutView> {
    match o {
        Some(l) => Some(l@),
        None => None,
    }
}

/// The children of a container; a terminal has none.
pub open spec fn children_of(l: LayoutView) -> Seq<LayoutView> {
    match l {
        LayoutView::Terminal { .. } => Seq::empty(),
        LayoutView::Split { children, .. } => children,
        LayoutView::Tabs { children, .. } => children,
    }
}

/// The container `l` with other children, which keeps its weights and its
/// active tab.
pub open spec fn with_children(l: LayoutView, cs: Seq<LayoutView>) -> LayoutView {
    match l {
        LayoutView::Terminal { .. } => l,
        LayoutView::Split { direction, sizes, .. } => LayoutView::Split {
            direction,
            sizes,
            children: cs,
        },
        LayoutView::Tabs { active_tab, .. } => LayoutView::Tabs { children: cs, active_tab },
    }
}

/// A container's view holds the views of its children.
pub proof fn view_unfolds(l: LayoutNode)
    ensures
        l@ == unfolded(l),
{
    match l {
        LayoutNode::Terminal { .. } => {},
        LayoutNode::Split { children, .. } => {
            assert(children_of(l@) =~= node_views(children@));
        },
        LayoutNode::Tabs { children, .. } => {
            assert(children_of(l@) =~= node_views(children@));
        },
    }
}

/// The ids of the terminals of `l`, from the first pane to the last.
pub open spec fn terminal_ids(l: LayoutView) -> Seq<Seq<char>>
    decreases l, 0nat,
{
    match l {
        LayoutView::Terminal { terminal_id: Some(t), .. } => seq![t],
        LayoutView::Terminal { terminal_id: None, .. } => Seq::empty(),
        LayoutView::Split { children, .. } => terminal_ids_in(children, children.len()),
        LayoutView::Tabs { children, .. } => terminal_ids_in(children, children.len()),
    }
}

/// The ids of the terminals of the first `n` of `cs`.
pub open spec fn terminal_ids_in(cs: Seq<LayoutView>, n: nat) -> Seq<Seq<char>>
    decreases cs, n,
{
    if n == 0 || n > cs.len() {
        Seq::empty()
    } else {
        terminal_ids_in(cs, (n - 1) as nat) + terminal_ids(cs[n - 1])
    }
}

/// The terminal ids of an optional tree.
pub open spec fn opt_terminal_ids(o: Option<LayoutView>) -> Seq<Seq<char>> {
    match o {
        Some(l) => terminal_ids(l),
        None => Seq::empty(),
    }
}

/// The path to the first terminal of `l` whose slot holds `want`.
pub open spec fn slot_path(l: LayoutView, want: Option<Seq<char>>) -> Option<Seq<usize>>
    decreases l, 0nat,
{
    match l {
        LayoutView::Terminal { terminal_id, .. } => if terminal_id == want {
            Some(Seq::empty())
        } else {
            None
        },
        LayoutView::Split { children, .. } => slot_path_in(children, want, children.len()),
        LayoutView::Tabs { children, .. } => slot_path_in(children, want, children.len()),
    }
}

/// The path to the first such terminal below the first `n` of `cs`.
pub open spec fn slot_path_in(
    cs: Seq<LayoutView>,
    want: Option<Seq<char>>,
    n: nat,
) -> Option<Seq<usize>>
    decreases cs, n,
{
    if n == 0 || n > cs.len() {
        None
    } else {
        match slot_path_in(cs, want, (n - 1) as nat) {
            Some(p) => Some(p),
            None => match slot_path(cs[n - 1], want) {
                Some(p) => Some(seq![(n - 1) as usize] + p),
                None => None,
            },
        }
    }
}

/// The node of `l` at `path`.
pub open spec fn node_at(l: LayoutView, path: Seq<usize>) -> Option<LayoutView>
    decreases path.len(),
{
    if path.len() == 0 {
        Some(l)
    } else if path[0] < children_of(l).len() {
        node_at(children_of(l)[path[0] as int], path.skip(1))
    } else {
        None
    }
}

/// `l` with `new` in place of the node at `path`; `l` itself where `path`
/// names no node.
pub open spec fn replaced(l: LayoutView, path: Seq<usize>, new: LayoutView) -> LayoutView
    decreases path.len(),
{
    if path.len() == 0 {
        new
    } else if path[0] < children_of(l).len() {
        with_children(
            l,
            children_of(l).update(
                path[0] as int,
                replaced(children_of(l)[path[0] as int], path.skip(1), new),
            ),
        )
    } else {
        l
    }
}

impl Duplicate for LayoutNode {
    fn duplicate(&self) -> (r: Self)
        decreases self,
    {
        proof {
            view_unfolds(*self);
        }
        let r = match self {
            LayoutNode::Terminal { terminal_id, minimized, detached, shell_type, zoom_level } =>
                LayoutNode::Terminal {
                    terminal_id: copy_opt(terminal_id),
                    minimized: *minimized,
                    detached: *detached,
                    shell_type: shell_type.duplicate(),
                    zoom_level: *zoom_level,
                },
            LayoutNode::Split { direction, sizes, children } => LayoutNode::Split {
                direction: *direction,
                sizes: copy_sizes(sizes),
                children: duplicate_all(children),
            },
            LayoutNode::Tabs { children, active_tab } => LayoutNode::Tabs {
                children: duplicate_all(children),
                active_tab: *active_tab,
            },
        };
        proof {
            view_unfolds(r);
        }
        r
    }
}

/// A copy of a list of weights.
pub fn copy_sizes(v: &Vec<u32>) -> (r: Vec<u32>)
    ensures
        r@ == v@,
{
    let mut out: Vec<u32> = Vec::new();
    let mut i: usize = 0;
    while i < v.len()
        invariant
            i <= v.len(),
            out@ == v@.take(i as int),
        decreases v.len() - i,
    {
        out.push(v[i]);
        proof {
            assert(v@.take(i + 1) =~= v@.take(i as int).push(v@[i as int]));
        }
        i = i + 1;
    }
    proof {
        assert(v@.take(i as int) =~= v@);
    }
    out
}

/// A copy of a list of trees.
pub fn duplicate_all(v: &Vec<LayoutNode>) -> (r: Vec<LayoutNode>)
    ensures
        node_views(r@) == node_views(v@),
    decreases v,
{
    let mut out: Vec<LayoutNode> = Vec::new();
    let mut i: usize = 0;
    while i < v.len()
        invariant
            i <= v.len(),
            out@.len() == i,
            forall|j: int| 0 <= j < i ==> node_view(out@[j]) == node_view(v@[j]),
        decreases v.len() - i,
    {
        out.push(v[i].duplicate());
        i = i + 1;
    }
    proof {
        assert(node_views(out@) =~= node_views(v@));
    }
    out
}

impl Clone for LayoutNode {
    fn clone(&self) -> (r: Self)
        ensures
            r@ == self@,
    {
        self.duplicate()
    }
}


/// The weight at position `i`; one that is missing counts as zero.
pub open spec fn weight(sizes: Seq<u32>, i: int) -> u32 {
    if 0 <= i < sizes.len() {
        sizes[i]
    } else {
        0
    }
}

/// The sum of the first `n` weights.
pub open spec fn total_weight(sizes: Seq<u32>, n: nat) -> nat
    decreases n,
{
    if n == 0 {
        0
    } else {
        total_weight(sizes, (n - 1) as nat) + weight(sizes, n - 1) as nat
    }
}

/// `a + b`, or the largest weight where that does not fit.
pub open spec fn capped_sum(a: u32, b: u32) -> u32 {
    if a + b > u32::MAX {
        u32::MAX
    } else {
        (a + b) as u32
    }
}

/// The weights once the child at `i` has left: its weight goes to the child
/// before it, or to the one after it where it was the first.
pub open spec fn sizes_without(sizes: Seq<u32>, i: int) -> Seq<u32> {
    if 0 <= i < sizes.len() {
        let rest = sizes.remove(i);
        let heir = if i > 0 {
            i - 1
        } else {
            0
        };
        if rest.len() == 0 {
            rest
        } else {
            rest.update(heir, capped_sum(rest[heir], sizes[i]))
        }
    } else {
        sizes
    }
}

/// The active tab once the tab at `i` has left, of which `n` remain: the same
/// tab where it still exists, else the last one.
pub open spec fn active_without(active: usize, i: int, n: nat) -> usize {
    if i < active {
        (active - 1) as usize
    } else if active >= n && n > 0 {
        (n - 1) as usize
    } else {
        active
    }
}

/// The container `l` without its child at `i`; one remaining child takes the
/// container's place.
pub open spec fn without_child(l: LayoutView, i: int) -> LayoutView {
    let rest = children_of(l).remove(i);
    if rest.len() == 1 {
        rest[0]
    } else {
        match l {
            LayoutView::Terminal { .. } => l,
            LayoutView::Split { direction, sizes, .. } => LayoutView::Split {
                direction,
                sizes: sizes_without(sizes, i),
                children: rest,
            },
            LayoutView::Tabs { active_tab, .. } => LayoutView::Tabs {
                children: rest,
                active_tab: active_without(active_tab, i, rest.len()),
            },
        }
    }
}

/// `l` without the node at `path`. The root cannot be removed, nor a node that
/// is not there.
pub open spec fn removed(l: LayoutView, path: Seq<usize>) -> Option<LayoutView>
    decreases path.len(),
{
    if path.len() == 0 || path[0] >= children_of(l).len() {
        None
    } else if path.len() == 1 {
        Some(without_child(l, path[0] as int))
    } else {
        match removed(children_of(l)[path[0] as int], path.skip(1)) {
            Some(c) => Some(with_children(l, children_of(l).update(path[0] as int, c))),
            None => None,
        }
    }
}

/// A child's share of the weight `w` of the split it comes from.
pub open spec fn share(w: u32, sizes: Seq<u32>, n: nat, j: int) -> u32 {
    if total_weight(sizes, n) == 0 {
        (w as int / n as int) as u32
    } else {
        ((w * weight(sizes, j)) / total_weight(sizes, n) as int) as u32
    }
}

/// What `c` contributes to a split in direction `d`: its children where it is
/// such a split itself, else `c`.
pub open spec fn pieces(d: SplitDirection, c: LayoutView) -> Seq<LayoutView> {
    match c {
        LayoutView::Split { direction, children, .. } => if direction == d {
            children
        } else {
            seq![c]
        },
        _ => seq![c],
    }
}

/// The weights of [`pieces`] where `c` itself weighs `w`.
pub open spec fn piece_sizes(d: SplitDirection, w: u32, c: LayoutView) -> Seq<u32> {
    match c {
        LayoutView::Split { direction, sizes, children } => if direction == d {
            Seq::new(children.len(), |j: int| share(w, sizes, children.len(), j))
        } else {
            seq![w]
        },
        _ => seq![w],
    }
}

/// The pieces of the first `n` of `cs`.
pub open spec fn flat_children(d: SplitDirection, cs: Seq<LayoutView>, n: nat) -> Seq<LayoutView>
    decreases n,
{
    if n == 0 || n > cs.len() {
        Seq::empty()
    } else {
        flat_children(d, cs, (n - 1) as nat) + pieces(d, cs[n - 1])
    }
}

/// The weights of the pieces of the first `n` of `cs`.
pub open spec fn flat_sizes(
    d: SplitDirection,
    sizes: Seq<u32>,
    cs: Seq<LayoutView>,
    n: nat,
) -> Seq<u32>
    decreases n,
{
    if n == 0 || n > cs.len() {
        Seq::empty()
    } else {
        flat_sizes(d, sizes, cs, (n - 1) as nat) + piece_sizes(d, weight(sizes, n - 1), cs[n - 1])
    }
}

/// A split whose children are in normal form, in normal form: splits in its
/// own direction are flattened into it and a single child takes its place.
pub open spec fn normal_split(
    d: SplitDirection,
    sizes: Seq<u32>,
    cs: Seq<LayoutView>,
) -> LayoutView {
    let flat = flat_children(d, cs, cs.len());
    if flat.len() == 1 {
        flat[0]
    } else {
        LayoutView::Split { direction: d, sizes: flat_sizes(d, sizes, cs, cs.len()), children: flat }
    }
}

/// A tab group whose children are in normal form, in normal form: a single
/// child takes its place and the active tab is one that exists.
pub open spec fn normal_tabs(cs: Seq<LayoutView>, active: usize) -> LayoutView {
    if cs.len() == 1 {
        cs[0]
    } else {
        LayoutView::Tabs {
            children: cs,
            active_tab: if active >= cs.len() && cs.len() > 0 {
                (cs.len() - 1) as usize
            } else {
                active
            },
        }
    }
}

/// `l` in normal form: no split directly inside a split of its own direction,
/// and no container around a single child.
pub open spec fn normalized(l: LayoutView) -> LayoutView
    decreases l, 0nat,
{
    match l {
        LayoutView::Terminal { .. } => l,
        LayoutView::Split { direction, sizes, children } => normal_split(
            direction,
            sizes,
            normalized_in(children, children.len()),
        ),
        LayoutView::Tabs { children, active_tab } => normal_tabs(
            normalized_in(children, children.len()),
            active_tab,
        ),
    }
}

/// The first `n` of `cs` in normal form.
pub open spec fn normalized_in(cs: Seq<LayoutView>, n: nat) -> Seq<LayoutView>
    decreases cs, n,
{
    if n == 0 || n > cs.len() {
        Seq::empty()
    } else {
        normalized_in(cs, (n - 1) as nat).push(normalized(cs[n - 1]))
    }
}

/// Putting a list of children in normal form is doing so one by one.
pub proof fn normalized_in_index(cs: Seq<LayoutView>, n: nat)
    requires
        n <= cs.len(),
    ensures
        normalized_in(cs, n).len() == n,
        forall|i: int| 0 <= i < n ==> #[trigger] normalized_in(cs, n)[i] == normalized(cs[i]),
    decreases n,
{
    if n > 0 {
        normalized_in_index(cs, (n - 1) as nat);
    }
}

impl LayoutNode {
    /// A terminal slot that no terminal fills yet.
    pub fn new_terminal() -> (r: Self)
        ensures
            r@ == fresh_terminal(),
    {
        LayoutNode::Terminal {
            terminal_id: None,
            minimized: false,
            detached: false,
            shell_type: ShellType::Default,
            zoom_level: 100,
        }
    }

    /// A terminal slot that runs `command` with the variables `env`.
    pub fn new_terminal_with_command(command: &str, env: &IdMap<String>) -> (r: Self)
        ensures
            r@ == command_terminal(command@, env@),
    {
        LayoutNode::Terminal {
            terminal_id: None,
            minimized: false,
            detached: false,
            shell_type: ShellType::Command { command: command.to_owned(), env: env.copy() },
            zoom_level: 100,
        }
    }

    /// The ids of the terminals, from the first pane to the last.
    pub fn collect_terminal_ids(&self) -> (r: Vec<String>)
        ensures
            texts(r@) == terminal_ids(self@),
    {
        let mut out: Vec<String> = Vec::new();
        self.collect_into(&mut out);
        proof {
            assert(texts(out@) =~= terminal_ids(self@));
        }
        out
    }

    fn collect_into(&self, out: &mut Vec<String>)
        ensures
            texts(final(out)@) == texts(old(out)@) + terminal_ids(self@),
        decreases self,
    {
        proof {
            view_unfolds(*self);
        }
        let ghost start = texts(out@);
        match self {
            LayoutNode::Terminal { terminal_id, .. } => {
                match terminal_id {
                    Some(t) => {
                        out.push(t.clone());
                        proof {
                            assert(texts(out@) =~= start + seq![t@]);
                        }
                    },
                    None => {
                        proof {
                            assert(texts(out@) =~= start + Seq::<Seq<char>>::empty());
                        }
                    },
                }
            },
            LayoutNode::Split { children, .. } => {
                Self::collect_all_into(children, out);
            },
            LayoutNode::Tabs { children, .. } => {
                Self::collect_all_into(children, out);
            },
        }
    }

    fn collect_all_into(children: &Vec<LayoutNode>, out: &mut Vec<String>)
        ensures
            texts(final(out)@) == texts(old(out)@) + terminal_ids_in(
                node_views(children@),
                children@.len(),
            ),
        decreases children,
    {
        let ghost start = texts(out@);
        let ghost cs = node_views(children@);
        let mut i: usize = 0;
        proof {
            assert(texts(out@) =~= start + terminal_ids_in(cs, 0));
        }
        while i < children.len()
            invariant
                i <= children.len(),
                cs == node_views(children@),
                texts(out@) == start + terminal_ids_in(cs, i as nat),
            decreases children.len() - i,
        {
            let ghost before = texts(out@);
            children[i].collect_into(out);
            proof {
                assert(texts(out@) =~= start + terminal_ids_in(cs, (i + 1) as nat));
            }
            i = i + 1;
        }
    }

    /// The path to the terminal `terminal_id`.
    pub fn find_terminal_path(&self, terminal_id: &str) -> (r: Option<Vec<usize>>)
        ensures
            match r {
                Some(p) => slot_path(self@, Some(terminal_id@)) == Some(p@),
                None => slot_path(self@, Some(terminal_id@)) is None,
            },
    {
        let want = Some(terminal_id);
        self.find_slot_path(want)
    }

    /// The path to the first terminal slot that no terminal fills yet.
    pub fn find_uninitialized_terminal_path(&self) -> (r: Option<Vec<usize>>)
        ensures
            match r {
                Some(p) => slot_path(self@, None) == Some(p@),
                None => slot_path(self@, None) is None,
            },
    {
        self.find_slot_path(None)
    }

    fn find_slot_path(&self, want: Option<&str>) -> (r: Option<Vec<usize>>)
        ensures
            match r {
                Some(p) => slot_path(self@, wanted(want)) == Some(p@),
                None => slot_path(self@, wanted(want)) is None,
            },
        decreases self,
    {
        proof {
            view_unfolds(*self);
        }
        match self {
            LayoutNode::Terminal { terminal_id, .. } => {
                let hit = match (terminal_id, want) {
                    (Some(t), Some(w)) => same(t.as_str(), w),
                    (None, None) => true,
                    _ => false,
                };
                if hit {
                    let p: Vec<usize> = Vec::new();
                    proof {
                        assert(p@ =~= Seq::<usize>::empty());
                    }
                    Some(p)
                } else {
                    None
                }
            },
            LayoutNode::Split { children, .. } => Self::find_slot_path_in(children, want),
            LayoutNode::Tabs { children, .. } => Self::find_slot_path_in(children, want),
        }
    }

    fn find_slot_path_in(children: &Vec<LayoutNode>, want: Option<&str>) -> (r: Option<Vec<usize>>)
        ensures
            match r {
                Some(p) => slot_path_in(node_views(children@), wanted(want), children@.len())
                    == Some(p@),
                None => slot_path_in(node_views(children@), wanted(want), children@.len()) is None,
            },
        decreases children,
    {
        let ghost cs = node_views(children@);
        let mut i: usize = 0;
        while i < children.len()
            invariant
                i <= children.len(),
                cs == node_views(children@),
                slot_path_in(cs, wanted(want), i as nat) is None,
            decreases children.len() - i,
        {
            match children[i].find_slot_path(want) {
                Some(p) => {
                    let mut q: Vec<usize> = Vec::new();
                    q.push(i);
                    let mut p = p;
                    let ghost tail = p@;
                    q.append(&mut p);
                    proof {
                        assert(q@ =~= seq![i] + tail);
                        slot_path_extends(cs, wanted(want), (i + 1) as nat);
                    }
                    return Some(q);
                },
                None => {},
            }
            i = i + 1;
        }
        None
    }

    /// The node at `path`.
    pub fn get_at_path(&self, path: &[usize]) -> (r: Option<&LayoutNode>)
        ensures
            match r {
                Some(n) => node_at(self@, path@) == Some(n@),
                None => node_at(self@, path@) is None,
            },
        decreases path@.len(),
    {
        proof {
            view_unfolds(*self);
        }
        if path.len() == 0 {
            return Some(self);
        }
        let i: usize = path[0];
        let rest = vstd::slice::slice_subrange(path, 1, path.len());
        match self {
            LayoutNode::Terminal { .. } => None,
            LayoutNode::Split { children, .. } => if i < children.len() {
                children[i].get_at_path(rest)
            } else {
                None
            },
            LayoutNode::Tabs { children, .. } => if i < children.len() {
                children[i].get_at_path(rest)
            } else {
                None
            },
        }
    }

    /// The node at `path`, to be changed in place.
    pub fn get_at_path_mut(&mut self, path: &[usize]) -> (r: Option<&mut LayoutNode>)
        ensures
            match r {
                Some(n) => node_at(old(self)@, path@) == Some(n@) && final(self)@ == replaced(
                    old(self)@,
                    path@,
                    final(n)@,
                ),
                None => node_at(old(self)@, path@) is None && final(self)@ == old(self)@,
            },
        decreases path@.len(),
    {
        proof {
            view_unfolds(*self);
        }
        if path.len() == 0 {
            return Some(self);
        }
        let i: usize = path[0];
        let rest = vstd::slice::slice_subrange(path, 1, path.len());
        proof {
            assert forall|l: LayoutNode| #[trigger] node_view(l) == unfolded(l) by {
                view_unfolds(l);
            }
            assert forall|c: Seq<LayoutNode>, x: LayoutNode| 0 <= i < c.len() implies
                #[trigger] node_views(c.update(i as int, x)) == node_views(c).update(
                i as int,
                node_view(x),
            ) by {
                assert(node_views(c.update(i as int, x)) =~= node_views(c).update(
                    i as int,
                    node_view(x),
                ));
            }
            assert forall|c: Seq<LayoutNode>| 0 <= i < c.len() implies
                #[trigger] node_views(c).update(i as int, node_view(c[i as int])) == node_views(c) by {
                assert(node_views(c).update(i as int, node_view(c[i as int])) =~= node_views(c));
            }
        }
        match self {
            LayoutNode::Terminal { .. } => None,
            LayoutNode::Split { children, .. } => if i < children.len() {
                children[i].get_at_path_mut(rest)
            } else {
                None
            },
            LayoutNode::Tabs { children, .. } => if i < children.len() {
                children[i].get_at_path_mut(rest)
            } else {
                None
            },
        }
    }
}

/// The view of `l`, one level deep.
pub open spec fn unfolded(l: LayoutNode) -> LayoutView {
    match l {
        LayoutNode::Terminal { terminal_id, minimized, detached, shell_type, zoom_level } =>
            LayoutView::Terminal {
                terminal_id: opt_text(terminal_id),
                minimized,
                detached,
                shell_type: shell_type@,
                zoom_level,
            },
        LayoutNode::Split { direction, sizes, children } => LayoutView::Split {
            direction,
            sizes: sizes@,
            children: node_views(children@),
        },
        LayoutNode::Tabs { children, active_tab } => LayoutView::Tabs {
            children: node_views(children@),
            active_tab,
        },
    }
}

/// The slot that a search looks for.
pub open spec fn wanted(want: Option<&str>) -> Option<Seq<char>> {
    match want {
        Some(w) => Some(w@),
        None => None,
    }
}

/// A terminal slot that no terminal fills yet.
pub open spec fn fresh_terminal() -> LayoutView {
    LayoutView::Terminal {
        terminal_id: None,
        minimized: false,
        detached: false,
        shell_type: ShellView::Default,
        zoom_level: 100,
    }
}

/// A terminal slot that runs `command` with the variables `env`.
pub open spec fn command_terminal(
    command: Seq<char>,
    env: Seq<(Seq<char>, Seq<char>)>,
) -> LayoutView {
    LayoutView::Terminal {
        terminal_id: None,
        minimized: false,
        detached: false,
        shell_type: ShellView::Command { command, env },
        zoom_level: 100,
    }
}

/// A slot found below the first children is the one found below all of them.
pub proof fn slot_path_extends(cs: Seq<LayoutView>, want: Option<Seq<char>>, n: nat)
    requires
        n <= cs.len(),
        slot_path_in(cs, want, n) is Some,
    ensures
        slot_path_in(cs, want, cs.len()) == slot_path_in(cs, want, n),
    decreases cs.len() - n,
{
    if n < cs.len() {
        slot_path_extends(cs, want, n + 1);
    }
}

} // verus!
