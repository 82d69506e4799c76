//! How paths lie in each other, and what trimming leaves.

use crate::actions::project_paths::{WayView, destination, onto, resolution, resolved, slashed};
use crate::actions::worktree_rows::discovered_row;
use crate::claims::{PathFactsView, ResolutionView};
use crate::paths::{
    below, from_root, naming, parts, prefix_len, same_place, segments, separates, start_parts,
    within,
};
use crate::state::ProjectView;
use crate::text::{trimmed, trimmed_end, trimmed_start, white_space};
use vstd::prelude::*;

verus! {

/// A path lies in itself. What lies in a place lies in every place that this one
/// lies in, and two places that lie in each other are one.
pub proof fn places_lie_in_each_other(windows: bool, a: Seq<char>, b: Seq<char>, c: Seq<char>)
    ensures
        within(windows, a, a),
        within(windows, a, b) && within(windows, b, c) ==> within(windows, a, c),
        within(windows, a, b) && within(windows, b, a) <==> same_place(windows, a, b),
{
    let x = parts(windows, a);
    let y = parts(windows, b);
    let z = parts(windows, c);
    assert(x.take(x.len() as int) =~= x);
    assert(y.take(y.len() as int) =~= y);
    if within(windows, a, b) && within(windows, b, c) {
        assert(x.take(z.len() as int) =~= y.take(z.len() as int)) by {
            assert forall|i: int| 0 <= i < z.len() implies x[i] == y[i] by {
                assert(x.take(y.len() as int)[i] == y[i]);
            }
        }
    }
}

/// Whether `name` is the name of one thing in a directory.
pub open spec fn one_name(name: Seq<char>) -> bool {
    name.len() > 0 && !name.contains('/') && name != "."@
}

proof fn segments_are_there(s: Seq<char>)
    ensures
        segments(false, s).len() > 0,
        s.len() > 0 && s.last() == '/' ==> segments(false, s).last().len() == 0,
    decreases s.len(),
{
    if s.len() > 0 {
        segments_are_there(s.drop_last());
    }
}

proof fn a_name_joins_the_last(s: Seq<char>, name: Seq<char>)
    requires
        forall|i: int| 0 <= i < name.len() ==> name[i] != '/',
    ensures
        ({
            let segs = segments(false, s);
            segments(false, s + name) == segs.update(segs.len() - 1, segs.last() + name)
        }),
    decreases name.len(),
{
    let segs = segments(false, s);
    segments_are_there(s);
    if name.len() == 0 {
        assert(s + name =~= s);
        assert(segs.last() + name =~= segs.last());
        assert(segs.update(segs.len() - 1, segs.last()) =~= segs);
    } else {
        let front = name.drop_last();
        assert forall|i: int| 0 <= i < front.len() implies front[i] != '/' by {
            assert(front[i] == name[i]);
        }
        a_name_joins_the_last(s, front);
        assert((s + name).drop_last() =~= s + front);
        assert((s + name).last() == name.last());
        assert(name[name.len() - 1] != '/');
        let before = segs.update(segs.len() - 1, segs.last() + front);
        assert(before.last() == segs.last() + front);
        assert((segs.last() + front).push(name.last()) =~= segs.last() + name);
        assert(before.update(before.len() - 1, segs.last() + name) =~= segs.update(
            segs.len() - 1,
            segs.last() + name,
        ));
    }
}

proof fn naming_the_front(a: Seq<Seq<char>>, b: Seq<Seq<char>>, absolute: bool, n: nat)
    requires
        n <= a.len(),
        n <= b.len(),
        forall|i: int| 0 <= i < n ==> a[i] == b[i],
    ensures
        naming(a, absolute, n) == naming(b, absolute, n),
    decreases n,
{
    if n > 0 {
        naming_the_front(a, b, absolute, (n - 1) as nat);
    }
}

/// A thing in a directory lies below it: its path is the directory's, and its
/// name behind.
pub proof fn names_lie_below_their_directory(root: Seq<char>, name: Seq<char>)
    requires
        root.len() > 0,
        one_name(name),
    ensures
        parts(false, below(false, root, name)) == parts(false, root).push(name),
        within(false, below(false, root, name), root),
        !within(false, root, below(false, root, name)),
{
    reveal_strlit("/");
    let segs = segments(false, root);
    let n = segs.len();
    segments_are_there(root);
    assert forall|i: int| 0 <= i < name.len() implies name[i] != '/' by {
        assert(name.contains(name[i]));
    }
    assert(name[0] != '/');
    assert(!from_root(false, name));
    let whole = below(false, root, name);
    assert(root.skip(0) =~= root);
    assert(whole.skip(0) =~= whole);
    assert(whole[0] == root[0]);
    assert(from_root(false, whole) == from_root(false, root));
    let absolute = from_root(false, root);
    if root.last() == '/' {
        assert(whole == root + name);
        a_name_joins_the_last(root, name);
        assert(segs.last() + name =~= name);
        let after = segs.update(n - 1, name);
        assert(segments(false, whole) == after);
        naming_the_front(segs, after, absolute, (n - 1) as nat);
        assert(naming(segs, absolute, n) == naming(segs, absolute, (n - 1) as nat));
        assert(naming(after, absolute, n) == naming(segs, absolute, n).push(name));
    } else {
        let slashed = root + "/"@;
        assert(whole =~= slashed + name);
        assert(slashed.drop_last() =~= root);
        assert(segments(false, slashed) == segs.push(Seq::empty()));
        a_name_joins_the_last(slashed, name);
        assert(Seq::<char>::empty() + name =~= name);
        let after = segs.push(Seq::empty()).update(n as int, name);
        assert(after =~= segs.push(name));
        naming_the_front(segs, segs.push(name), absolute, n);
        assert(naming(segs.push(name), absolute, n + 1) == naming(segs, absolute, n).push(name));
    }
    let head = parts(false, root);
    assert(parts(false, whole) =~= head.push(name));
    assert(head.push(name).take(head.len() as int) =~= head);
}

/// Two things in one directory do not lie in each other.
pub proof fn neighbours_lie_apart(root: Seq<char>, a: Seq<char>, b: Seq<char>)
    requires
        root.len() > 0,
        one_name(a),
        one_name(b),
        a != b,
    ensures
        !within(false, below(false, root, a), below(false, root, b)),
        !same_place(false, below(false, root, a), below(false, root, b)),
{
    names_lie_below_their_directory(root, a);
    names_lie_below_their_directory(root, b);
    let head = parts(false, root);
    let x = head.push(a);
    let y = head.push(b);
    assert(x.take(y.len() as int) =~= x);
    assert(x.last() == a);
    assert(y.last() == b);
}

/// A worktree that was found on disk is called after its directory and its branch.
pub proof fn found_worktrees_are_called_by_their_directory(
    root: Seq<char>,
    name: Seq<char>,
    id: Seq<char>,
    parent: Seq<char>,
    branch: Seq<char>,
    repo: Seq<char>,
    path: Seq<char>,
)
    requires
        root.len() > 0,
        one_name(name),
        name != ".."@,
    ensures
        discovered_row(false, id, parent, branch, repo, below(false, root, name), path).name == name
            + " ("@ + branch + ")"@,
{
    reveal_strlit("/");
    let whole = below(false, root, name);
    names_lie_below_their_directory(root, name);
    assert(parts(false, whole).last() == name);
    assert(name.contains(name[0]));
    assert(!from_root(false, name));
    assert(whole[0] == root[0]);
    assert(from_root(false, whole) == from_root(false, root));
    assert(start_parts(false, whole) =~= start_parts(false, root));
}

/// A slash at the end of a path does not change where it leads.
pub proof fn slashes_at_the_end_do_not_count(root: Seq<char>)
    requires
        root.len() > 0,
    ensures
        same_place(false, root + "/"@, root),
{
    reveal_strlit("/");
    let whole = root + "/"@;
    let segs = segments(false, root);
    let n = segs.len();
    assert(whole.drop_last() =~= root);
    assert(whole.last() == '/');
    assert(root.skip(0) =~= root);
    assert(whole.skip(0) =~= whole);
    assert(whole[0] == root[0]);
    let after = segs.push(Seq::empty());
    assert(segments(false, whole) == after);
    let absolute = from_root(false, root);
    naming_the_front(segs, after, absolute, n);
    assert(after[n as int].len() == 0);
    assert(naming(after, absolute, n + 1) == naming(after, absolute, n));
}

proof fn a_way_down_is_kept(root: Seq<char>, suffix: Seq<Seq<char>>)
    requires
        root.len() > 0,
        forall|i: int| 0 <= i < suffix.len() ==> one_name(#[trigger] suffix[i]),
    ensures
        parts(false, onto(false, root, suffix)) == parts(false, root) + suffix,
        onto(false, root, suffix).len() > 0,
        suffix.len() > 0 ==> {
            &&& onto(false, root, suffix).last() != '/'
            &&& slashed(false, suffix).len() > 0
            &&& slashed(false, suffix)[0] != '/'
            &&& slashed(false, suffix).last() != '/'
        },
    decreases suffix.len(),
{
    reveal_strlit("/");
    if suffix.len() == 0 {
        assert(parts(false, root) + suffix =~= parts(false, root));
    } else {
        let name = suffix.last();
        let front = suffix.drop_last();
        assert(suffix[suffix.len() - 1] == name);
        assert(one_name(name));
        assert(name.contains(name[0]));
        assert(name[name.len() - 1] == name.last());
        assert(name.contains(name.last()));
        assert forall|i: int| 0 <= i < front.len() implies one_name(#[trigger] front[i]) by {
            assert(front[i] == suffix[i]);
        }
        a_way_down_is_kept(root, front);
        let place = onto(false, root, front);
        names_lie_below_their_directory(place, name);
        if front.len() == 0 {
            assert(suffix =~= seq![name]);
            assert(slashed(false, suffix) == name);
        } else {
            let way = slashed(false, front);
            assert(slashed(false, suffix) == way + "/"@ + name);
            assert(!from_root(false, way));
            assert(!from_root(false, way + "/"@ + name));
            assert(below(false, root, way + "/"@ + name) =~= place + "/"@ + name);
        }
        assert(onto(false, root, suffix) =~= below(false, place, name));
        assert(below(false, place, name).last() == name.last());
        assert((parts(false, root) + front).push(name) =~= parts(false, root) + suffix);
    }
}

/// What moves with a directory keeps its place in it: it lies below the new place
/// as it lay below the old one.
pub proof fn what_moves_along_keeps_its_place(
    f: PathFactsView,
    p: ProjectView,
    from: Seq<char>,
    at: Seq<char>,
    to: Seq<char>,
    way: Seq<Seq<char>>,
)
    requires
        !f.windows,
        to.len() > 0,
        resolution(f, p.path) == ResolutionView::Path(at),
        parts(false, at) == parts(false, from) + way,
        forall|i: int| 0 <= i < way.len() ==> one_name(#[trigger] way[i]),
    ensures
        destination(f, p, WayView::Resolved(from), to) is Ok,
        parts(false, destination(f, p, WayView::Resolved(from), to)->Ok_0) == parts(false, to)
            + way,
        within(false, destination(f, p, WayView::Resolved(from), to)->Ok_0, to),
{
    let head = parts(false, from);
    let all = parts(false, at);
    assert(all.take(head.len() as int) =~= head);
    assert(all.skip(head.len() as int) =~= way);
    a_way_down_is_kept(to, way);
    let root = parts(false, to);
    assert((root + way).take(root.len() as int) =~= root);
}

proof fn resolving_the_front(a: Seq<Seq<char>>, b: Seq<Seq<char>>, start: nat, n: nat)
    requires
        n <= a.len(),
        n <= b.len(),
        forall|i: int| 0 <= i < n ==> a[i] == b[i],
    ensures
        resolved(a, start, n) == resolved(b, start, n),
    decreases n,
{
    if n > 0 {
        resolving_the_front(a, b, start, (n - 1) as nat);
    }
}

/// A step up takes back the step down before it, and a dot is no step.
pub proof fn steps_up_take_back_steps_down(ps: Seq<Seq<char>>, start: nat, name: Seq<char>)
    requires
        resolved(ps, start, ps.len()).len() >= start,
        name != "."@,
        name != ".."@,
    ensures
        ({
            let n = ps.len();
            let down = ps.push(name);
            &&& resolved(down, start, n + 1) == resolved(ps, start, n).push(name)
            &&& resolved(down.push(".."@), start, n + 2) == resolved(ps, start, n)
            &&& resolved(ps.push("."@), start, n + 1) == resolved(ps, start, n)
        }),
{
    reveal_strlit(".");
    reveal_strlit("..");
    assert("."@.len() != ".."@.len());
    let n = ps.len();
    let down = ps.push(name);
    let back = down.push(".."@);
    resolving_the_front(ps, down, start, n);
    resolving_the_front(down, back, start, n + 1);
    resolving_the_front(ps, ps.push("."@), start, n);
    assert(back[n as int + 1] == ".."@);
    assert(down[n as int] == name);
    let r = resolved(ps, start, n);
    assert(resolved(down, start, n + 1) == r.push(name));
    assert(r.push(name).drop_last() =~= r);
}

/// A trimmed text has no white space at either end; one that has none there is
/// left alone, and white space in front does not matter.
pub proof fn trimming_takes_the_white_space(s: Seq<char>, c: char)
    ensures
        trimmed(s).len() > 0 ==> !white_space(trimmed(s)[0]) && !white_space(trimmed(s).last()),
        s.len() > 0 && !white_space(s[0]) && !white_space(s.last()) ==> trimmed(s) == s,
        white_space(c) ==> trimmed(seq![c] + s) == trimmed(s),
{
    start_is_plain(s);
    end_is_plain(trimmed_start(s));
    if white_space(c) {
        let t = seq![c] + s;
        assert(t[0] == c);
        assert(t.subrange(1, t.len() as int) =~= s);
    }
}

proof fn start_is_plain(s: Seq<char>)
    ensures
        trimmed_start(s).len() > 0 ==> !white_space(trimmed_start(s)[0]),
    decreases s.len(),
{
    if s.len() > 0 && white_space(s[0]) {
        start_is_plain(s.subrange(1, s.len() as int));
    }
}

proof fn end_is_plain(s: Seq<char>)
    ensures
        trimmed_end(s).len() > 0 ==> !white_space(trimmed_end(s).last()) && trimmed_end(s)[0]
            == s[0],
    decreases s.len(),
{
    if s.len() > 0 && white_space(s.last()) {
        end_is_plain(s.drop_last());
    }
}

} // verus!
