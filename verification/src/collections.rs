//! Collections keyed by id: lists, sets and maps of strings.
//!
//! A map keeps its entries in the order in which they were written; storing
//! under a key that is present moves the entry to the end. Everything that
//! walks a map walks it in that order.

use crate::text::{same, starts_with, texts, has_prefix};
use vstd::prelude::*;

verus! {

/// The ids of `s` that differ from `id`, in order.
pub open spec fn without(s: Seq<Seq<char>>, id: Seq<char>) -> Seq<Seq<char>>
    decreases s.len(),
{
    if s.len() == 0 {
        s
    } else if s.last() == id {
        without(s.drop_last(), id)
    } else {
        without(s.drop_last(), id).push(s.last())
    }
}

/// The ids of `s` whose membership in `filter` is `keep`, in order.
pub open spec fn sifted(s: Seq<Seq<char>>, filter: Seq<Seq<char>>, keep: bool) -> Seq<Seq<char>>
    decreases s.len(),
{
    if s.len() == 0 {
        s
    } else if filter.contains(s.last()) == keep {
        sifted(s.drop_last(), filter, keep).push(s.last())
    } else {
        sifted(s.drop_last(), filter, keep)
    }
}

/// The ids of `s` that do not start with `prefix`, in order.
pub open spec fn without_prefix(s: Seq<Seq<char>>, prefix: Seq<char>) -> Seq<Seq<char>>
    decreases s.len(),
{
    if s.len() == 0 {
        s
    } else if has_prefix(s.last(), prefix) {
        without_prefix(s.drop_last(), prefix)
    } else {
        without_prefix(s.drop_last(), prefix).push(s.last())
    }
}

/// The first position of `id` in `s`.
pub open spec fn position(s: Seq<Seq<char>>, id: Seq<char>) -> Option<int>
    decreases s.len(),
{
    if s.len() == 0 {
        None
    } else {
        match position(s.drop_last(), id) {
            Some(i) => Some(i),
            None => if s.last() == id {
                Some(s.len() - 1)
            } else {
                None
            },
        }
    }
}

/// What `position` finds is the first occurrence, and it finds one whenever
/// there is one.
pub proof fn position_is_first(s: Seq<Seq<char>>, id: Seq<char>)
    ensures
        match position(s, id) {
            Some(i) => 0 <= i < s.len() && s[i] == id && forall|j: int|
                0 <= j < i ==> s[j] != id,
            None => !s.contains(id),
        },
    decreases s.len(),
{
    if s.len() > 0 {
        position_is_first(s.drop_last(), id);
        contains_last(s);
        assert forall|j: int| 0 <= j < s.len() - 1 implies #[trigger] s[j] == s.drop_last()[j] by {}
        if position(s.drop_last(), id) is None {
            assert forall|j: int| 0 <= j < s.len() - 1 implies #[trigger] s[j] != id by {
                assert(s.drop_last().contains(s.drop_last()[j]));
            }
        }
    }
}

/// Taking `id` out of a list leaves every other id in it, and no `id`.
pub proof fn without_members(s: Seq<Seq<char>>, id: Seq<char>)
    ensures
        forall|x: Seq<char>| #[trigger]
            without(s, id).contains(x) <==> s.contains(x) && x != id,
    decreases s.len(),
{
    if s.len() > 0 {
        without_members(s.drop_last(), id);
        contains_last(s);
        if s.last() != id {
            contains_last(without(s, id));
            assert(without(s, id).drop_last() =~= without(s.drop_last(), id));
        }
    }
}

/// Sifting a list keeps exactly its ids whose membership in `filter` is `keep`.
pub proof fn sifted_members(s: Seq<Seq<char>>, filter: Seq<Seq<char>>, keep: bool)
    ensures
        forall|x: Seq<char>| #[trigger]
            sifted(s, filter, keep).contains(x) <==> s.contains(x) && filter.contains(x) == keep,
    decreases s.len(),
{
    if s.len() > 0 {
        sifted_members(s.drop_last(), filter, keep);
        contains_last(s);
        if filter.contains(s.last()) == keep {
            contains_last(sifted(s, filter, keep));
            assert(sifted(s, filter, keep).drop_last() =~= sifted(s.drop_last(), filter, keep));
            assert forall|x: Seq<char>| #[trigger]
                sifted(s, filter, keep).contains(x) <==> s.contains(x) && filter.contains(x)
                    == keep by {
                assert(sifted(s, filter, keep).drop_last().contains(x) <==> s.drop_last().contains(
                    x,
                ) && filter.contains(x) == keep);
            }
        } else {
            assert forall|x: Seq<char>| #[trigger]
                sifted(s, filter, keep).contains(x) <==> s.contains(x) && filter.contains(x)
                    == keep by {
                assert(sifted(s.drop_last(), filter, keep).contains(x) <==> s.drop_last().contains(
                    x,
                ) && filter.contains(x) == keep);
            }
        }
    }
}

/// A nonempty list holds its last id and what the rest holds.
pub proof fn contains_last(s: Seq<Seq<char>>)
    requires
        s.len() > 0,
    ensures
        forall|x: Seq<char>| #[trigger]
            s.contains(x) <==> s.drop_last().contains(x) || x == s.last(),
{
    assert forall|x: Seq<char>| #[trigger] s.contains(x) implies s.drop_last().contains(x) || x
        == s.last() by {
        let i = choose|i: int| 0 <= i < s.len() && s[i] == x;
        if i < s.len() - 1 {
            assert(s.drop_last()[i] == x);
        }
    }
    assert forall|x: Seq<char>| s.drop_last().contains(x) || x == s.last() implies #[trigger]
        s.contains(x) by {
        if s.drop_last().contains(x) {
            let i = choose|i: int| 0 <= i < s.drop_last().len() && s.drop_last()[i] == x;
            assert(s[i] == x);
        } else {
            assert(s[s.len() - 1] == x);
        }
    }
}

/// One more string is one more text.
pub proof fn texts_take(v: Seq<String>, i: int)
    requires
        0 <= i < v.len(),
    ensures
        texts(v).take(i + 1) == texts(v).take(i).push(v[i]@),
        texts(v).take(i + 1).drop_last() == texts(v).take(i),
        texts(v).take(i + 1).last() == v[i]@,
{
    assert(texts(v).take(i + 1) =~= texts(v).take(i).push(v[i]@));
    assert(texts(v).take(i + 1).drop_last() =~= texts(v).take(i));
}

/// Whether `v` holds `id`.
pub fn list_contains(v: &Vec<String>, id: &str) -> (r: bool)
    ensures
        r == texts(v@).contains(id@),
{
    let mut i: usize = 0;
    while i < v.len()
        invariant
            i <= v.len(),
            forall|j: int| 0 <= j < i ==> v@[j]@ != id@,
        decreases v.len() - i,
    {
        if same(v[i].as_str(), id) {
            proof {
                assert(texts(v@)[i as int] == id@);
            }
            return true;
        }
        i = i + 1;
    }
    false
}

/// The first position of `id` in `v`.
pub fn list_position(v: &Vec<String>, id: &str) -> (r: Option<usize>)
    ensures
        match r {
            Some(i) => position(texts(v@), id@) == Some(i as int) && i < v.len(),
            None => position(texts(v@), id@) is None,
        },
{
    let mut i: usize = 0;
    while i < v.len()
        invariant
            i <= v.len(),
            position(texts(v@).take(i as int), id@) is None,
        decreases v.len() - i,
    {
        proof {
            texts_take(v@, i as int);
        }
        if same(v[i].as_str(), id) {
            proof {
                position_extends(texts(v@), id@, i + 1);
            }
            return Some(i);
        }
        i = i + 1;
    }
    proof {
        assert(texts(v@).take(i as int) =~= texts(v@));
    }
    None
}

/// A position found in a prefix is the position in the whole list.
pub proof fn position_extends(s: Seq<Seq<char>>, id: Seq<char>, n: int)
    requires
        0 <= n <= s.len(),
        position(s.take(n), id) is Some,
    ensures
        position(s, id) == position(s.take(n), id),
    decreases s.len() - n,
{
    if n < s.len() {
        assert(s.take(n + 1).drop_last() =~= s.take(n));
        position_extends(s, id, n + 1);
    } else {
        assert(s.take(n) =~= s);
    }
}

/// Take every `id` out of `v`.
pub fn list_remove(v: &mut Vec<String>, id: &str)
    ensures
        texts(final(v)@) == without(texts(old(v)@), id@),
{
    let mut out: Vec<String> = Vec::new();
    let mut i: usize = 0;
    let ghost whole = texts(v@);
    while i < v.len()
        invariant
            i <= v.len(),
            whole == texts(v@),
            texts(out@) == without(whole.take(i as int), id@),
        decreases v.len() - i,
    {
        proof {
            texts_take(v@, i as int);
        }
        if !same(v[i].as_str(), id) {
            let ghost before = out@;
            out.push(v[i].clone());
            proof {
                assert(texts(out@) =~= texts(before).push(v@[i as int]@));
            }
        }
        i = i + 1;
    }
    proof {
        assert(whole.take(i as int) =~= whole);
    }
    *v = out;
}

/// Keep the ids of `v` whose membership in `filter` is `keep`.
pub fn list_sift(v: &mut Vec<String>, filter: &Vec<String>, keep: bool)
    ensures
        texts(final(v)@) == sifted(texts(old(v)@), texts(filter@), keep),
{
    let mut out: Vec<String> = Vec::new();
    let mut i: usize = 0;
    let ghost whole = texts(v@);
    while i < v.len()
        invariant
            i <= v.len(),
            whole == texts(v@),
            texts(out@) == sifted(whole.take(i as int), texts(filter@), keep),
        decreases v.len() - i,
    {
        proof {
            texts_take(v@, i as int);
        }
        if list_contains(filter, v[i].as_str()) == keep {
            let ghost before = out@;
            out.push(v[i].clone());
            proof {
                assert(texts(out@) =~= texts(before).push(v@[i as int]@));
            }
        }
        i = i + 1;
    }
    proof {
        assert(whole.take(i as int) =~= whole);
    }
    *v = out;
}

/// Drop the ids of `v` that start with `prefix`.
pub fn list_remove_prefixed(v: &mut Vec<String>, prefix: &str)
    ensures
        texts(final(v)@) == without_prefix(texts(old(v)@), prefix@),
{
    let mut out: Vec<String> = Vec::new();
    let mut i: usize = 0;
    let ghost whole = texts(v@);
    while i < v.len()
        invariant
            i <= v.len(),
            whole == texts(v@),
            texts(out@) == without_prefix(whole.take(i as int), prefix@),
        decreases v.len() - i,
    {
        proof {
            texts_take(v@, i as int);
        }
        if !starts_with(v[i].as_str(), prefix) {
            let ghost before = out@;
            out.push(v[i].clone());
            proof {
                assert(texts(out@) =~= texts(before).push(v@[i as int]@));
            }
        }
        i = i + 1;
    }
    proof {
        assert(whole.take(i as int) =~= whole);
    }
    *v = out;
}

/// Append the ids of `more` to `v`.
pub fn list_extend(v: &mut Vec<String>, more: &Vec<String>)
    ensures
        texts(final(v)@) == texts(old(v)@) + texts(more@),
{
    let ghost start = texts(v@);
    let mut i: usize = 0;
    proof {
        assert(start + texts(more@).take(0) =~= start);
    }
    while i < more.len()
        invariant
            i <= more.len(),
            texts(v@) == start + texts(more@).take(i as int),
        decreases more.len() - i,
    {
        let ghost before = v@;
        v.push(more[i].clone());
        proof {
            texts_take(more@, i as int);
            assert(texts(v@) =~= texts(before).push(more@[i as int]@));
            assert(texts(v@) =~= start + texts(more@).take(i + 1));
        }
        i = i + 1;
    }
    proof {
        assert(texts(more@).take(i as int) =~= texts(more@));
    }
}

/// A set of ids.
#[derive(Debug)]
pub struct IdSet {
    items: Vec<String>,
}

impl View for IdSet {
    type V = Set<Seq<char>>;

    closed spec fn view(&self) -> Set<Seq<char>> {
        texts(self.items@).to_set()
    }
}

impl IdSet {
    /// The set without members.
    pub fn new() -> (r: Self)
        ensures
            r@ == Set::<Seq<char>>::empty(),
    {
        let r = IdSet { items: Vec::new() };
        proof {
            assert(r@ =~= Set::<Seq<char>>::empty());
        }
        r
    }

    /// Whether `id` is a member.
    pub fn contains(&self, id: &str) -> (r: bool)
        ensures
            r == self@.contains(id@),
    {
        list_contains(&self.items, id)
    }

    /// Make `id` a member.
    pub fn insert(&mut self, id: &str)
        ensures
            final(self)@ == old(self)@.insert(id@),
    {
        if !list_contains(&self.items, id) {
            let ghost before = self.items@;
            self.items.push(id.to_owned());
            proof {
                assert(texts(self.items@) =~= texts(before).push(id@));
                contains_last(texts(self.items@));
                assert(texts(self.items@).drop_last() =~= texts(before));
            }
        }
        proof {
            assert(self@ =~= old(self)@.insert(id@));
        }
    }

    /// Make `id` no member.
    pub fn remove(&mut self, id: &str)
        ensures
            final(self)@ == old(self)@.remove(id@),
    {
        list_remove(&mut self.items, id);
        proof {
            without_members(texts(old(self).items@), id@);
            assert(self@ =~= old(self)@.remove(id@));
        }
    }

    /// Keep the members that `filter` holds.
    pub fn retain_in(&mut self, filter: &Vec<String>)
        ensures
            final(self)@ == old(self)@.intersect(texts(filter@).to_set()),
    {
        list_sift(&mut self.items, filter, true);
        proof {
            sifted_members(texts(old(self).items@), texts(filter@), true);
            assert(self@ =~= old(self)@.intersect(texts(filter@).to_set()));
        }
    }

    /// The members, each at least once, in no particular order.
    pub fn members(&self) -> (r: &Vec<String>)
        ensures
            texts(r@).to_set() == self@,
    {
        &self.items
    }
}

impl Clone for IdSet {
    fn clone(&self) -> (r: Self)
        ensures
            r@ == self@,
    {
        IdSet { items: crate::text::copy_all(&self.items) }
    }
}

impl Default for IdSet {
    fn default() -> (r: Self)
        ensures
            r@ == Set::<Seq<char>>::empty(),
    {
        IdSet::new()
    }
}

/// A value that can be copied without changing what it stands for.
pub trait Duplicate: View + Sized {
    /// A copy that stands for the same value.
    fn duplicate(&self) -> (r: Self)
        ensures
            r@ == self@,
    ;
}

impl Duplicate for String {
    fn duplicate(&self) -> (r: Self) {
        self.clone()
    }
}

impl Duplicate for bool {
    fn duplicate(&self) -> (r: Self) {
        *self
    }
}

impl Duplicate for u32 {
    fn duplicate(&self) -> (r: Self) {
        *self
    }
}

impl Duplicate for u64 {
    fn duplicate(&self) -> (r: Self) {
        *self
    }
}

/// The entries of `s` whose key is not `k`, in order.
pub open spec fn unkeyed<A>(s: Seq<(Seq<char>, A)>, k: Seq<char>) -> Seq<(Seq<char>, A)>
    decreases s.len(),
{
    if s.len() == 0 {
        s
    } else if s.last().0 == k {
        unkeyed(s.drop_last(), k)
    } else {
        unkeyed(s.drop_last(), k).push(s.last())
    }
}

/// The entries of `s` whose key's membership in `filter` is `keep`, in order.
pub open spec fn sifted_keys<A>(
    s: Seq<(Seq<char>, A)>,
    filter: Seq<Seq<char>>,
    keep: bool,
) -> Seq<(Seq<char>, A)>
    decreases s.len(),
{
    if s.len() == 0 {
        s
    } else if filter.contains(s.last().0) == keep {
        sifted_keys(s.drop_last(), filter, keep).push(s.last())
    } else {
        sifted_keys(s.drop_last(), filter, keep)
    }
}

/// The value that `s` holds under `k`.
pub open spec fn lookup<A>(s: Seq<(Seq<char>, A)>, k: Seq<char>) -> Option<A>
    decreases s.len(),
{
    if s.len() == 0 {
        None
    } else if s.last().0 == k {
        Some(s.last().1)
    } else {
        lookup(s.drop_last(), k)
    }
}

/// `s` with `v` stored under `k`.
pub open spec fn stored<A>(s: Seq<(Seq<char>, A)>, k: Seq<char>, v: A) -> Seq<(Seq<char>, A)> {
    unkeyed(s, k).push((k, v))
}

/// The keys of `s`, in order.
pub open spec fn keys_of<A>(s: Seq<(Seq<char>, A)>) -> Seq<Seq<char>> {
    s.map_values(|e: (Seq<char>, A)| e.0)
}

/// The values of `s`, in order.
pub open spec fn values_of<A>(s: Seq<(Seq<char>, A)>) -> Seq<A> {
    s.map_values(|e: (Seq<char>, A)| e.1)
}

/// What is stored under `k` is read back under `k`, and nothing else changes.
pub proof fn lookup_after_store<A>(s: Seq<(Seq<char>, A)>, k: Seq<char>, v: A, q: Seq<char>)
    ensures
        lookup(stored(s, k, v), q) == if q == k {
            Some(v)
        } else {
            lookup(s, q)
        },
{
    lookup_after_remove(s, k, q);
    assert(stored(s, k, v).drop_last() =~= unkeyed(s, k));
}

/// A removed key is no longer found, and nothing else changes.
pub proof fn lookup_after_remove<A>(s: Seq<(Seq<char>, A)>, k: Seq<char>, q: Seq<char>)
    ensures
        lookup(unkeyed(s, k), q) == if q == k {
            None
        } else {
            lookup(s, q)
        },
    decreases s.len(),
{
    if s.len() > 0 {
        lookup_after_remove(s.drop_last(), k, q);
        if s.last().0 != k {
            assert(unkeyed(s, k).drop_last() =~= unkeyed(s.drop_last(), k));
        }
    }
}

/// Sifting by key keeps exactly the entries whose key passes.
pub proof fn lookup_after_sift<A>(
    s: Seq<(Seq<char>, A)>,
    filter: Seq<Seq<char>>,
    keep: bool,
    q: Seq<char>,
)
    ensures
        lookup(sifted_keys(s, filter, keep), q) == if filter.contains(q) == keep {
            lookup(s, q)
        } else {
            None
        },
    decreases s.len(),
{
    if s.len() > 0 {
        lookup_after_sift(s.drop_last(), filter, keep, q);
        if filter.contains(s.last().0) == keep {
            assert(sifted_keys(s, filter, keep).drop_last() =~= sifted_keys(
                s.drop_last(),
                filter,
                keep,
            ));
        }
    }
}

/// A map from ids to values.
#[derive(Debug)]
pub struct IdMap<V> {
    entries: Vec<(String, V)>,
}

impl<V: View> View for IdMap<V> {
    type V = Seq<(Seq<char>, V::V)>;

    closed spec fn view(&self) -> Seq<(Seq<char>, V::V)> {
        entries_view(self.entries@)
    }
}

/// The entries behind a map, as plain values.
pub closed spec fn entries_view<V: View>(s: Seq<(String, V)>) -> Seq<(Seq<char>, V::V)> {
    s.map_values(|e: (String, V)| (e.0@, e.1@))
}

proof fn entries_take<V: View>(v: Seq<(String, V)>, i: int)
    requires
        0 <= i < v.len(),
    ensures
        entries_view(v).len() == v.len(),
        entries_view(v)[i] == (v[i].0@, v[i].1@),
        entries_view(v).take(i + 1) == entries_view(v).take(i).push((v[i].0@, v[i].1@)),
        entries_view(v).take(i + 1).drop_last() == entries_view(v).take(i),
        entries_view(v).take(i + 1).last() == (v[i].0@, v[i].1@),
{
    assert(entries_view(v).take(i + 1) =~= entries_view(v).take(i).push((v[i].0@, v[i].1@)));
    assert(entries_view(v).take(i + 1).drop_last() =~= entries_view(v).take(i));
}

impl<V: View> IdMap<V> {
    /// The map without entries.
    pub fn new() -> (r: Self)
        ensures
            r@ == Seq::<(Seq<char>, V::V)>::empty(),
    {
        let r = IdMap { entries: Vec::new() };
        proof {
            assert(r@ =~= Seq::<(Seq<char>, V::V)>::empty());
        }
        r
    }

    /// The number of entries.
    pub fn len(&self) -> (r: usize)
        ensures
            r == self@.len(),
    {
        self.entries.len()
    }

    /// Whether the map has no entries.
    pub fn is_empty(&self) -> (r: bool)
        ensures
            r == (self@.len() == 0),
    {
        self.entries.len() == 0
    }

    /// The key of the entry at position `i`.
    pub fn key_at(&self, i: usize) -> (r: &String)
        requires
            i < self@.len(),
        ensures
            r@ == self@[i as int].0,
    {
        &self.entries[i].0
    }

    /// The value of the entry at position `i`.
    pub fn value_at(&self, i: usize) -> (r: &V)
        requires
            i < self@.len(),
        ensures
            r@ == self@[i as int].1,
    {
        &self.entries[i].1
    }

    /// Replace the value of the entry at position `i`.
    pub fn set_value_at(&mut self, i: usize, v: V)
        requires
            i < old(self)@.len(),
        ensures
            final(self)@ == old(self)@.update(i as int, (old(self)@[i as int].0, v@)),
    {
        let k = self.entries[i].0.clone();
        self.entries.set(i, (k, v));
        proof {
            assert(self@ =~= old(self)@.update(i as int, (old(self)@[i as int].0, v@)));
        }
    }

    /// The value stored under `k`.
    pub fn get(&self, k: &str) -> (r: Option<&V>)
        ensures
            match r {
                Some(v) => lookup(self@, k@) == Some(v@),
                None => lookup(self@, k@) is None,
            },
    {
        let mut i: usize = self.entries.len();
        proof {
            assert(self@.take(i as int) =~= self@);
        }
        while i > 0
            invariant
                i <= self.entries.len(),
                self@ == entries_view(self.entries@),
                lookup(self@, k@) == lookup(self@.take(i as int), k@),
            decreases i,
        {
            proof {
                entries_take(self.entries@, i - 1);
            }
            i = i - 1;
            if same(self.entries[i].0.as_str(), k) {
                return Some(&self.entries[i].1);
            }
        }
        None
    }

    /// Whether something is stored under `k`.
    pub fn contains_key(&self, k: &str) -> (r: bool)
        ensures
            r == (lookup(self@, k@) is Some),
    {
        self.get(k).is_some()
    }

    /// Append an entry, whatever the map holds under its key.
    fn append_entry(&mut self, k: String, v: V)
        ensures
            final(self)@ == old(self)@.push((k@, v@)),
    {
        self.entries.push((k, v));
        proof {
            assert(self@ =~= old(self)@.push((k@, v@)));
        }
    }

    /// Remove and return what is stored under `k`.
    pub fn remove(&mut self, k: &str) -> (r: Option<V>)
        ensures
            final(self)@ == unkeyed(old(self)@, k@),
            match r {
                Some(v) => lookup(old(self)@, k@) == Some(v@),
                None => lookup(old(self)@, k@) is None,
            },
    {
        let mut all: Vec<(String, V)> = Vec::new();
        std::mem::swap(&mut all, &mut self.entries);
        let ghost whole = entries_view(all@);
        let mut kept: Vec<(String, V)> = Vec::new();
        let mut found: Option<V> = None;
        let ghost mut taken: int = 0;
        let mut rest = reversed(all);
        proof {
            assert(whole.take(0) =~= Seq::<(Seq<char>, V::V)>::empty());
            assert(entries_view(kept@) =~= Seq::<(Seq<char>, V::V)>::empty());
        }
        while rest.len() > 0
            invariant
                0 <= taken <= whole.len(),
                rest@.len() == whole.len() - taken,
                forall|j: int|
                    0 <= j < rest@.len() ==> (rest@[j].0@, rest@[j].1@) == whole[whole.len() - 1
                        - j],
                entries_view(kept@) == unkeyed(whole.take(taken), k@),
                match found {
                    Some(v) => lookup(whole.take(taken), k@) == Some(v@),
                    None => lookup(whole.take(taken), k@) is None,
                },
            decreases rest.len(),
        {
            let ghost before = rest@;
            let e = rest.pop().unwrap();
            proof {
                assert((e.0@, e.1@) == whole[taken]);
                assert(whole.take(taken + 1).drop_last() =~= whole.take(taken));
                assert(whole.take(taken + 1).last() == whole[taken]);
            }
            if same(e.0.as_str(), k) {
                found = Some(e.1);
            } else {
                let ghost held = kept@;
                kept.push(e);
                proof {
                    assert(entries_view(kept@) =~= entries_view(held).push((e.0@, e.1@)));
                }
            }
            proof {
                taken = taken + 1;
            }
        }
        proof {
            assert(whole.take(taken) =~= whole);
        }
        self.entries = kept;
        found
    }

    /// Keep the entries whose key's membership in `filter` is `keep`.
    pub fn sift(&mut self, filter: &Vec<String>, keep: bool)
        ensures
            final(self)@ == sifted_keys(old(self)@, texts(filter@), keep),
    {
        let mut all: Vec<(String, V)> = Vec::new();
        std::mem::swap(&mut all, &mut self.entries);
        let ghost whole = entries_view(all@);
        let mut kept: Vec<(String, V)> = Vec::new();
        let ghost mut taken: int = 0;
        let mut rest = reversed(all);
        proof {
            assert(whole.take(0) =~= Seq::<(Seq<char>, V::V)>::empty());
            assert(entries_view(kept@) =~= Seq::<(Seq<char>, V::V)>::empty());
        }
        while rest.len() > 0
            invariant
                0 <= taken <= whole.len(),
                rest@.len() == whole.len() - taken,
                forall|j: int|
                    0 <= j < rest@.len() ==> (rest@[j].0@, rest@[j].1@) == whole[whole.len() - 1
                        - j],
                entries_view(kept@) == sifted_keys(whole.take(taken), texts(filter@), keep),
            decreases rest.len(),
        {
            let e = rest.pop().unwrap();
            proof {
                assert((e.0@, e.1@) == whole[taken]);
                assert(whole.take(taken + 1).drop_last() =~= whole.take(taken));
                assert(whole.take(taken + 1).last() == whole[taken]);
            }
            if list_contains(filter, e.0.as_str()) == keep {
                let ghost held = kept@;
                kept.push(e);
                proof {
                    assert(entries_view(kept@) =~= entries_view(held).push((e.0@, e.1@)));
                }
            }
            proof {
                taken = taken + 1;
            }
        }
        proof {
            assert(whole.take(taken) =~= whole);
        }
        self.entries = kept;
    }

    /// The keys, in order.
    pub fn keys(&self) -> (r: Vec<String>)
        ensures
            texts(r@) == keys_of(self@),
    {
        let mut out: Vec<String> = Vec::new();
        let mut i: usize = 0;
        while i < self.entries.len()
            invariant
                i <= self.entries.len(),
                out@.len() == i,
                self@ == entries_view(self.entries@),
                forall|j: int| 0 <= j < i ==> out@[j]@ == self@[j].0,
            decreases self.entries.len() - i,
        {
            out.push(self.entries[i].0.clone());
            i = i + 1;
        }
        proof {
            assert(texts(out@) =~= keys_of(self@));
        }
        out
    }

    /// Store `v` under `k`.
    pub fn insert(&mut self, k: String, v: V)
        ensures
            final(self)@ == stored(old(self)@, k@, v@),
    {
        self.remove(k.as_str());
        self.append_entry(k, v);
    }
}

impl IdMap<String> {
    /// The values, in order.
    pub fn values(&self) -> (r: Vec<String>)
        ensures
            texts(r@) == values_of(self@),
    {
        let mut out: Vec<String> = Vec::new();
        let mut i: usize = 0;
        while i < self.entries.len()
            invariant
                i <= self.entries.len(),
                out@.len() == i,
                self@ == entries_view(self.entries@),
                forall|j: int| 0 <= j < i ==> out@[j]@ == self@[j].1,
            decreases self.entries.len() - i,
        {
            out.push(self.entries[i].1.clone());
            i = i + 1;
        }
        proof {
            assert(texts(out@) =~= values_of(self@));
        }
        out
    }
}

impl<V: Duplicate> IdMap<V> {
    /// A copy of the map.
    pub fn copy(&self) -> (r: Self)
        ensures
            r@ == self@,
    {
        let mut out: IdMap<V> = IdMap::new();
        let mut i: usize = 0;
        proof {
            assert(self@.take(0) =~= Seq::<(Seq<char>, V::V)>::empty());
        }
        while i < self.entries.len()
            invariant
                i <= self.entries.len(),
                self@ == entries_view(self.entries@),
                out@ == self@.take(i as int),
            decreases self.entries.len() - i,
        {
            proof {
                entries_take(self.entries@, i as int);
            }
            out.append_entry(self.entries[i].0.clone(), self.entries[i].1.duplicate());
            i = i + 1;
        }
        proof {
            assert(self@.take(i as int) =~= self@);
        }
        out
    }
}

impl<V: Duplicate> Clone for IdMap<V> {
    fn clone(&self) -> (r: Self)
        ensures
            r@ == self@,
    {
        self.copy()
    }
}

impl<V: View> Default for IdMap<V> {
    fn default() -> (r: Self)
        ensures
            r@ == Seq::<(Seq<char>, V::V)>::empty(),
    {
        IdMap::new()
    }
}

/// `v` turned end for end, so that its front can be popped.
pub fn reversed<T>(v: Vec<T>) -> (r: Vec<T>)
    ensures
        r@ == v@.reverse(),
{
    let mut v = v;
    let mut out: Vec<T> = Vec::new();
    let ghost start = v@;
    while v.len() > 0
        invariant
            v@ == start.take(start.len() - out@.len()),
            out@.len() + v@.len() == start.len(),
            forall|j: int| 0 <= j < out@.len() ==> out@[j] == start[start.len() - 1 - j],
        decreases v.len(),
    {
        let e = v.pop().unwrap();
        out.push(e);
    }
    proof {
        assert(out@ =~= start.reverse());
    }
    out
}

} // verus!
