//! Lists ordered by id, in which no id occurs twice.

use crate::collections::{contains_last, list_contains, sifted, sifted_members, texts_take};
use crate::text::texts;
use vstd::prelude::*;

verus! {

/// Whether `a` comes before `b`: character by character, a prefix first.
pub open spec fn before(a: Seq<char>, b: Seq<char>) -> bool
    decreases a.len(),
{
    if b.len() == 0 {
        false
    } else if a.len() == 0 {
        true
    } else if a[0] != b[0] {
        a[0] < b[0]
    } else {
        before(a.skip(1), b.skip(1))
    }
}

/// The ordered list `s` with `id` in its place.
pub open spec fn placed(s: Seq<Seq<char>>, id: Seq<char>) -> Seq<Seq<char>>
    decreases s.len(),
{
    if s.len() == 0 || !before(id, s.last()) {
        s.push(id)
    } else {
        placed(s.drop_last(), id).push(s.last())
    }
}

/// The ids of `s`, in order and each once.
pub open spec fn sorted_once(s: Seq<Seq<char>>) -> Seq<Seq<char>>
    decreases s.len(),
{
    if s.len() == 0 {
        s
    } else {
        let front = sorted_once(s.drop_last());
        if front.contains(s.last()) {
            front
        } else {
            placed(front, s.last())
        }
    }
}

/// Whether `a` comes before `b`.
pub fn is_before(a: &str, b: &str) -> (r: bool)
    ensures
        r == before(a@, b@),
{
    let n: usize = a.unicode_len();
    let m: usize = b.unicode_len();
    let mut i: usize = 0;
    proof {
        assert(a@.skip(0) =~= a@);
        assert(b@.skip(0) =~= b@);
    }
    while i < n && i < m
        invariant
            i <= n,
            i <= m,
            n == a@.len(),
            m == b@.len(),
            before(a@, b@) == before(a@.skip(i as int), b@.skip(i as int)),
        decreases n - i,
    {
        let x = a.get_char(i);
        let y = b.get_char(i);
        proof {
            assert(a@.skip(i as int).skip(1) =~= a@.skip(i + 1));
            assert(b@.skip(i as int).skip(1) =~= b@.skip(i + 1));
        }
        if x != y {
            return x < y;
        }
        i = i + 1;
    }
    i < m
}

/// Put `id` in its place in the ordered list `s`.
fn place(s: &mut Vec<String>, id: String)
    ensures
        texts(final(s)@) == placed(texts(old(s)@), id@),
{
    let ghost whole = texts(s@);
    let mut n: usize = s.len();
    proof {
        assert(whole.take(n as int) =~= whole);
        assert(placed(whole, id@) + whole.skip(n as int) =~= placed(whole, id@));
    }
    while n > 0 && is_before(id.as_str(), s[n - 1].as_str())
        invariant
            n <= s@.len(),
            whole == texts(s@),
            placed(whole.take(n as int), id@) + whole.skip(n as int) == placed(whole, id@),
        decreases n,
    {
        proof {
            let t = whole.take(n as int);
            assert(t.last() == s@[n - 1]@);
            assert(t.drop_last() =~= whole.take(n - 1));
            assert(placed(t.drop_last(), id@) + whole.skip(n - 1) =~= placed(t, id@) + whole.skip(
                n as int,
            ));
        }
        n = n - 1;
    }
    let ghost old_s = s@;
    s.insert(n, id);
    proof {
        if n > 0 {
            assert(whole.take(n as int).last() == old_s[n - 1]@);
        }
        assert(placed(whole.take(n as int), id@) == whole.take(n as int).push(id@));
        assert(texts(s@) =~= whole.take(n as int).push(id@) + whole.skip(n as int));
    }
}

/// The ids of `v`, in order and each once.
pub fn sort_once(v: &Vec<String>) -> (r: Vec<String>)
    ensures
        texts(r@) == sorted_once(texts(v@)),
{
    let mut out: Vec<String> = Vec::new();
    let ghost whole = texts(v@);
    let mut i: usize = 0;
    proof {
        assert(whole.take(0) =~= Seq::<Seq<char>>::empty());
        assert(texts(out@) =~= Seq::<Seq<char>>::empty());
    }
    while i < v.len()
        invariant
            i <= v@.len(),
            whole == texts(v@),
            texts(out@) == sorted_once(whole.take(i as int)),
        decreases v@.len() - i,
    {
        proof {
            texts_take(v@, i as int);
        }
        if !list_contains(&out, v[i].as_str()) {
            place(&mut out, v[i].clone());
        }
        i = i + 1;
    }
    proof {
        assert(whole.take(i as int) =~= whole);
    }
    out
}

/// Ordering a list keeps its members.
pub proof fn sorted_once_members(s: Seq<Seq<char>>)
    ensures
        forall|x: Seq<char>| #[trigger] sorted_once(s).contains(x) <==> s.contains(x),
    decreases s.len(),
{
    if s.len() > 0 {
        sorted_once_members(s.drop_last());
        contains_last(s);
        placed_members(sorted_once(s.drop_last()), s.last());
    }
}

proof fn placed_members(s: Seq<Seq<char>>, id: Seq<char>)
    ensures
        forall|x: Seq<char>| #[trigger] placed(s, id).contains(x) <==> s.contains(x) || x == id,
    decreases s.len(),
{
    if s.len() == 0 || !before(id, s.last()) {
        contains_last(s.push(id));
        assert(s.push(id).drop_last() =~= s);
    } else {
        placed_members(s.drop_last(), id);
        contains_last(s);
        let p = placed(s.drop_last(), id);
        contains_last(p.push(s.last()));
        assert(p.push(s.last()).drop_last() =~= p);
    }
}

/// Whether each id of `s` comes before all that follow it, so that none occurs
/// twice.
pub open spec fn increasing(s: Seq<Seq<char>>) -> bool {
    forall|i: int, j: int| 0 <= i < j < s.len() ==> before(#[trigger] s[i], #[trigger] s[j])
}

proof fn one_is_before_the_other(a: Seq<char>, b: Seq<char>)
    requires
        a != b,
    ensures
        before(a, b) || before(b, a),
    decreases a.len(),
{
    if a.len() == 0 || b.len() == 0 {
        if a.len() == b.len() {
            assert(a =~= b);
        }
    } else if a[0] == b[0] {
        assert(a.skip(1) != b.skip(1)) by {
            if a.skip(1) == b.skip(1) {
                assert(a =~= seq![a[0]] + a.skip(1));
                assert(b =~= seq![b[0]] + b.skip(1));
            }
        }
        one_is_before_the_other(a.skip(1), b.skip(1));
    }
}

proof fn before_in_turn(a: Seq<char>, b: Seq<char>, c: Seq<char>)
    requires
        before(a, b),
        before(b, c),
    ensures
        before(a, c),
    decreases a.len(),
{
    if a.len() > 0 && a[0] == b[0] && b[0] == c[0] {
        before_in_turn(a.skip(1), b.skip(1), c.skip(1));
    }
}

/// Nothing comes before itself, so that no id of an increasing list is repeated.
pub proof fn nothing_is_before_itself(a: Seq<char>)
    ensures
        !before(a, a),
    decreases a.len(),
{
    if a.len() > 0 {
        nothing_is_before_itself(a.skip(1));
    }
}

proof fn placing_keeps_increasing(s: Seq<Seq<char>>, id: Seq<char>)
    requires
        increasing(s),
        !s.contains(id),
    ensures
        increasing(placed(s, id)),
    decreases s.len(),
{
    let p = placed(s, id);
    if s.len() == 0 || !before(id, s.last()) {
        assert forall|i: int, j: int| 0 <= i < j < p.len() implies before(
            #[trigger] p[i],
            #[trigger] p[j],
        ) by {
            if j == s.len() {
                assert(s[s.len() - 1] != id);
                one_is_before_the_other(id, s.last());
                if i < s.len() - 1 {
                    before_in_turn(s[i], s.last(), id);
                }
            }
        }
    } else {
        let rest = s.drop_last();
        assert(!rest.contains(id)) by {
            if rest.contains(id) {
                let k = choose|k: int| 0 <= k < rest.len() && rest[k] == id;
                assert(s[k] == id);
            }
        }
        placing_keeps_increasing(rest, id);
        placed_members(rest, id);
        let q = placed(rest, id);
        assert forall|i: int, j: int| 0 <= i < j < p.len() implies before(
            #[trigger] p[i],
            #[trigger] p[j],
        ) by {
            if j == q.len() {
                assert(q.contains(q[i]));
                if q[i] != id {
                    let k = choose|k: int| 0 <= k < rest.len() && rest[k] == q[i];
                    assert(before(s[k], s[s.len() - 1]));
                }
            } else {
                assert(before(q[i], q[j]));
            }
        }
    }
}

/// An ordered list is strictly increasing, whatever it was made of.
pub proof fn ordering_is_strict(s: Seq<Seq<char>>)
    ensures
        increasing(sorted_once(s)),
    decreases s.len(),
{
    if s.len() > 0 {
        ordering_is_strict(s.drop_last());
        let front = sorted_once(s.drop_last());
        if !front.contains(s.last()) {
            placing_keeps_increasing(front, s.last());
        }
    }
}

/// Dropping ids keeps a list increasing.
pub proof fn sifting_keeps_increasing(s: Seq<Seq<char>>, filter: Seq<Seq<char>>, keep: bool)
    requires
        increasing(s),
    ensures
        increasing(sifted(s, filter, keep)),
    decreases s.len(),
{
    if s.len() > 0 {
        let rest = s.drop_last();
        assert(increasing(rest)) by {
            assert forall|i: int, j: int| 0 <= i < j < rest.len() implies before(
                #[trigger] rest[i],
                #[trigger] rest[j],
            ) by {
                assert(before(s[i], s[j]));
            }
        }
        sifting_keeps_increasing(rest, filter, keep);
        sifted_members(rest, filter, keep);
        let q = sifted(rest, filter, keep);
        let p = sifted(s, filter, keep);
        if filter.contains(s.last()) == keep {
            assert forall|i: int, j: int| 0 <= i < j < p.len() implies before(
                #[trigger] p[i],
                #[trigger] p[j],
            ) by {
                if j == q.len() {
                    assert(q.contains(q[i]));
                    let k = choose|k: int| 0 <= k < rest.len() && rest[k] == q[i];
                    assert(before(s[k], s[s.len() - 1]));
                } else {
                    assert(before(q[i], q[j]));
                }
            }
        }
    }
}

} // verus!
