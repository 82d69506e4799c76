//! Paths as lists of their parts.
//!
//! How a path is written depends on the machine: `windows` says whether it is
//! written as on Windows, where a backslash separates parts too and a path may
//! start with a drive or a share; one that starts with `\\?\` or `\\.\` is
//! read as a share. Elsewhere only a slash separates.

use crate::text::{join, join3, same, texts};
use vstd::prelude::*;

verus! {

/// Whether `c` stands between the parts of a path.
pub open spec fn separates(windows: bool, c: char) -> bool {
    c == '/' || (windows && c == '\\')
}

/// What `s` holds between its separators.
pub open spec fn segments(windows: bool, s: Seq<char>) -> Seq<Seq<char>>
    decreases s.len(),
{
    if s.len() == 0 {
        seq![Seq::empty()]
    } else {
        let front = segments(windows, s.drop_last());
        if separates(windows, s.last()) {
            front.push(Seq::empty())
        } else {
            front.update(front.len() - 1, front.last().push(s.last()))
        }
    }
}

/// Where the part of `s` that starts at `i` ends, as written on Windows.
pub open spec fn part_end(s: Seq<char>, i: int) -> int
    decreases s.len() - i,
{
    if i < 0 || i >= s.len() || separates(true, s[i]) {
        i
    } else {
        part_end(s, i + 1)
    }
}

/// Whether `s` starts with a drive.
pub open spec fn on_drive(s: Seq<char>) -> bool {
    s.len() >= 2 && ('a' <= s[0] <= 'z' || 'A' <= s[0] <= 'Z') && s[1] == ':'
}

/// Where the name of the share that `s` starts with ends; it stands behind the
/// name of a server.
pub open spec fn share_end(s: Seq<char>) -> Option<int> {
    let server = part_end(s, 2);
    if s.len() > 2 && separates(true, s[0]) && separates(true, s[1]) && 2 < server < s.len()
        && server + 1 < part_end(s, server + 1) {
        Some(part_end(s, server + 1))
    } else {
        None
    }
}

/// How much of `s` names its drive or share.
pub open spec fn prefix_len(windows: bool, s: Seq<char>) -> int {
    if !windows {
        0
    } else if on_drive(s) {
        2
    } else {
        match share_end(s) {
            Some(n) => n,
            None => 0,
        }
    }
}

/// The capital of a letter.
pub open spec fn capital(c: char) -> char {
    if 'a' <= c <= 'z' {
        ((c as u8) - 32) as char
    } else {
        c
    }
}

/// The drive or share that `s` starts with; one name for each spelling of it.
pub open spec fn prefix_part(windows: bool, s: Seq<char>) -> Seq<Seq<char>> {
    if prefix_len(windows, s) == 0 {
        Seq::empty()
    } else if on_drive(s) {
        seq![seq![capital(s[0]), ':']]
    } else {
        let server = part_end(s, 2);
        seq![
            "\\\\"@ + s.subrange(2, server) + "\\"@ + s.subrange(
                server + 1,
                prefix_len(windows, s),
            ),
        ]
    }
}

/// Whether `s` leads from the root of its drive, or from the root; a share is
/// one.
pub open spec fn from_root(windows: bool, s: Seq<char>) -> bool {
    let n = prefix_len(windows, s);
    n > 2 || (n < s.len() && separates(windows, s[n]))
}

/// Whether `s` says by itself where it leads.
pub open spec fn rooted(windows: bool, s: Seq<char>) -> bool {
    from_root(windows, s) && (windows ==> prefix_len(windows, s) > 0)
}

/// The first `n` of `segs` that name something: not the empty ones, and not a
/// dot unless it starts a path that is not `absolute`.
pub open spec fn naming(segs: Seq<Seq<char>>, absolute: bool, n: nat) -> Seq<Seq<char>>
    decreases n,
{
    if n == 0 || n > segs.len() {
        Seq::empty()
    } else {
        let seg = segs[n - 1];
        let front = naming(segs, absolute, (n - 1) as nat);
        if seg.len() == 0 || (seg == "."@ && (n > 1 || absolute)) {
            front
        } else {
            front.push(seg)
        }
    }
}

/// The parts of `s` that say where it starts: its drive or share, and the root.
pub open spec fn start_parts(windows: bool, s: Seq<char>) -> Seq<Seq<char>> {
    prefix_part(windows, s) + if from_root(windows, s) {
        seq!["/"@]
    } else {
        Seq::empty()
    }
}

/// The parts of the path `s`; the root is a part of its own.
pub open spec fn parts(windows: bool, s: Seq<char>) -> Seq<Seq<char>> {
    let segs = segments(windows, s.skip(prefix_len(windows, s)));
    start_parts(windows, s) + naming(segs, from_root(windows, s), segs.len())
}

/// Whether the path `p` is the path `root` or lies below it.
pub open spec fn within(windows: bool, p: Seq<char>, root: Seq<char>) -> bool {
    let all = parts(windows, p);
    let head = parts(windows, root);
    head.len() <= all.len() && all.take(head.len() as int) == head
}

/// Whether `a` and `b` are the same path.
pub open spec fn same_place(windows: bool, a: Seq<char>, b: Seq<char>) -> bool {
    parts(windows, a) == parts(windows, b)
}

/// What stands between two parts.
pub open spec fn separator(windows: bool) -> Seq<char> {
    if windows {
        "\\"@
    } else {
        "/"@
    }
}

/// The path `name` below `root`. One that names a drive or a share stands for
/// itself, and one that leads from the root keeps only the drive or share.
pub open spec fn below(windows: bool, root: Seq<char>, name: Seq<char>) -> Seq<char> {
    if prefix_len(windows, name) > 0 {
        name
    } else if from_root(windows, name) {
        root.take(prefix_len(windows, root)) + name
    } else if root.len() == 0 || separates(windows, root.last()) || (windows && root.len() == 2
        && on_drive(root)) {
        root + name
    } else {
        root + separator(windows) + name
    }
}

/// Whether `c` stands between the parts of a path.
fn is_separator(windows: bool, c: char) -> (r: bool)
    ensures
        r == separates(windows, c),
{
    c == '/' || (windows && c == '\\')
}

/// Where the part of `s` that starts at `i` ends.
fn find_part_end(s: &str, i: usize) -> (r: usize)
    requires
        i <= s@.len(),
    ensures
        r == part_end(s@, i as int),
        i <= r <= s@.len(),
{
    let n: usize = s.unicode_len();
    let mut k: usize = i;
    while k < n && !is_separator(true, s.get_char(k))
        invariant
            i <= k <= n,
            n == s@.len(),
            part_end(s@, k as int) == part_end(s@, i as int),
        decreases n - k,
    {
        k = k + 1;
    }
    k
}

fn starts_on_drive(s: &str) -> (r: bool)
    ensures
        r == on_drive(s@),
{
    if s.unicode_len() < 2 {
        return false;
    }
    let c = s.get_char(0);
    (('a' <= c && c <= 'z') || ('A' <= c && c <= 'Z')) && s.get_char(1) == ':'
}

/// How much of `s` names its drive or share.
fn prefix_length(windows: bool, s: &str) -> (r: usize)
    ensures
        r == prefix_len(windows, s@),
        r <= s@.len(),
{
    if !windows {
        return 0;
    }
    if starts_on_drive(s) {
        return 2;
    }
    let n: usize = s.unicode_len();
    if n <= 2 || !is_separator(true, s.get_char(0)) || !is_separator(true, s.get_char(1)) {
        return 0;
    }
    let server: usize = find_part_end(s, 2);
    if server <= 2 || server >= n {
        return 0;
    }
    let share: usize = find_part_end(s, server + 1);
    if share <= server + 1 {
        return 0;
    }
    share
}

/// The capital of a letter.
fn capital_of(c: char) -> (r: char)
    ensures
        r == capital(c),
{
    if 'a' <= c && c <= 'z' {
        ((c as u8) - 32) as char
    } else {
        c
    }
}

/// The drive or share that takes up the first `n` characters of `s`.
fn prefix_name(s: &str, n: usize) -> (r: String)
    requires
        n == prefix_len(true, s@),
        n > 0,
        n <= s@.len(),
    ensures
        prefix_part(true, s@) == seq![r@],
{
    if starts_on_drive(s) {
        let mut r = String::new();
        r.push(capital_of(s.get_char(0)));
        r.push(':');
        proof {
            assert(r@ =~= seq![capital(s@[0]), ':']);
        }
        r
    } else {
        let server: usize = find_part_end(s, 2);
        let head = join3("\\\\", s.substring_char(2, server), "\\");
        join(head.as_str(), s.substring_char(server + 1, n))
    }
}

/// Whether `s` leads from the root of its drive, or from the root.
fn leads_from_root(windows: bool, s: &str) -> (r: bool)
    ensures
        r == from_root(windows, s@),
{
    let n: usize = prefix_length(windows, s);
    n > 2 || (n < s.unicode_len() && is_separator(windows, s.get_char(n)))
}

/// Whether `s` says by itself where it leads.
pub fn is_rooted(windows: bool, s: &str) -> (r: bool)
    ensures
        r == rooted(windows, s@),
{
    leads_from_root(windows, s) && (!windows || prefix_length(windows, s) > 0)
}

/// What `s` holds between its separators.
fn split_segments(windows: bool, s: &str) -> (r: Vec<String>)
    ensures
        texts(r@) == segments(windows, s@),
{
    let n: usize = s.unicode_len();
    let mut out: Vec<String> = Vec::new();
    let mut i: usize = 0;
    let mut start: usize = 0;
    proof {
        assert(s@.take(0) =~= Seq::<char>::empty());
        assert(texts(out@).push(s@.subrange(0, 0)) =~= segments(windows, s@.take(0)));
    }
    while i < n
        invariant
            start <= i <= n,
            n == s@.len(),
            texts(out@).push(s@.subrange(start as int, i as int)) == segments(windows, s@.take(i as int)),
        decreases n - i,
    {
        let ghost taken = s@.take(i + 1);
        let ghost front = segments(windows, s@.take(i as int));
        proof {
            assert(taken.drop_last() =~= s@.take(i as int));
            assert(taken.last() == s@[i as int]);
        }
        if is_separator(windows, s.get_char(i)) {
            let ghost before = out@;
            let ghost seg = s@.subrange(start as int, i as int);
            out.push(s.substring_char(start, i).to_owned());
            start = i + 1;
            proof {
                assert(texts(out@) =~= texts(before).push(seg));
                assert(s@.subrange(start as int, i + 1) =~= Seq::<char>::empty());
            }
        } else {
            proof {
                let seg = s@.subrange(start as int, i as int);
                assert(front.last() == seg);
                assert(seg.push(s@[i as int]) =~= s@.subrange(start as int, i + 1));
                assert(front.update(front.len() - 1, seg.push(s@[i as int])) =~= texts(out@).push(
                    s@.subrange(start as int, i + 1),
                ));
            }
        }
        i = i + 1;
    }
    let ghost before = out@;
    out.push(s.substring_char(start, n).to_owned());
    proof {
        assert(s@.take(n as int) =~= s@);
        assert(texts(out@) =~= texts(before).push(s@.subrange(start as int, n as int)));
    }
    out
}

/// The parts of `s` that say where it starts.
pub fn start_of(windows: bool, s: &str) -> (r: Vec<String>)
    ensures
        texts(r@) == start_parts(windows, s@),
{
    let mut out: Vec<String> = Vec::new();
    let n: usize = prefix_length(windows, s);
    if n > 0 {
        out.push(prefix_name(s, n));
    }
    proof {
        assert(texts(out@) =~= prefix_part(windows, s@));
    }
    let ghost before = out@;
    if leads_from_root(windows, s) {
        out.push("/".to_owned());
        proof {
            assert(texts(out@) =~= texts(before).push("/"@));
        }
    }
    proof {
        assert(texts(out@) =~= start_parts(windows, s@));
    }
    out
}

/// The parts of the path `s`.
pub fn parts_of(windows: bool, s: &str) -> (r: Vec<String>)
    ensures
        texts(r@) == parts(windows, s@),
{
    let absolute = leads_from_root(windows, s);
    let segs = split_segments(windows, crate::text::skip(s, prefix_length(windows, s)));
    let ghost all = texts(segs@);
    let mut out = start_of(windows, s);
    let ghost head = texts(out@);
    proof {
        assert(texts(out@) =~= head + naming(all, absolute, 0));
    }
    let mut i: usize = 0;
    while i < segs.len()
        invariant
            i <= segs@.len(),
            all == texts(segs@),
            texts(out@) == head + naming(all, absolute, i as nat),
        decreases segs@.len() - i,
    {
        proof {
            assert(all[i as int] == segs@[i as int]@);
        }
        let dot = same(segs[i].as_str(), ".");
        if !(segs[i].as_str().is_empty() || (dot && (i > 0 || absolute))) {
            let ghost before = out@;
            out.push(segs[i].clone());
            proof {
                assert(texts(out@) =~= texts(before).push(all[i as int]));
                assert(texts(out@) =~= head + naming(all, absolute, (i + 1) as nat));
            }
        }
        i = i + 1;
    }
    proof {
        assert(all.len() == segs@.len());
    }
    out
}

/// Whether two lists of parts agree on the first `n`.
fn agree(a: &Vec<String>, b: &Vec<String>, n: usize) -> (r: bool)
    requires
        n <= a@.len(),
        n <= b@.len(),
    ensures
        r == (texts(a@).take(n as int) == texts(b@).take(n as int)),
{
    let mut i: usize = 0;
    while i < n
        invariant
            i <= n <= a@.len(),
            n <= b@.len(),
            forall|j: int| 0 <= j < i ==> a@[j]@ == b@[j]@,
        decreases n - i,
    {
        if !same(a[i].as_str(), b[i].as_str()) {
            proof {
                assert(texts(a@).take(n as int)[i as int] != texts(b@).take(n as int)[i as int]);
            }
            return false;
        }
        i = i + 1;
    }
    proof {
        assert(texts(a@).take(n as int) =~= texts(b@).take(n as int));
    }
    true
}

/// Whether the path `p` is the path `root` or lies below it.
pub fn is_within(windows: bool, p: &str, root: &str) -> (r: bool)
    ensures
        r == within(windows, p@, root@),
{
    let a = parts_of(windows, p);
    let b = parts_of(windows, root);
    proof {
        assert(texts(a@).len() == a@.len());
        assert(texts(b@).len() == b@.len());
    }
    if b.len() > a.len() {
        return false;
    }
    proof {
        assert(texts(b@).take(b@.len() as int) =~= texts(b@));
    }
    agree(&a, &b, b.len())
}

/// Whether `a` and `b` are the same path.
pub fn is_same_place(windows: bool, a: &str, b: &str) -> (r: bool)
    ensures
        r == same_place(windows, a@, b@),
{
    let x = parts_of(windows, a);
    let y = parts_of(windows, b);
    proof {
        assert(texts(x@).len() == x@.len());
        assert(texts(y@).len() == y@.len());
    }
    if x.len() != y.len() {
        return false;
    }
    proof {
        assert(texts(x@).take(x@.len() as int) =~= texts(x@));
        assert(texts(y@).take(y@.len() as int) =~= texts(y@));
    }
    agree(&x, &y, x.len())
}

/// The number of parts of the path `s`.
pub fn depth_of(windows: bool, s: &str) -> (r: usize)
    ensures
        r == parts(windows, s@).len(),
{
    let p = parts_of(windows, s);
    proof {
        assert(texts(p@).len() == p@.len());
    }
    p.len()
}

/// What stands between two parts.
pub fn separator_of(windows: bool) -> (r: &'static str)
    ensures
        r@ == separator(windows),
{
    if windows {
        "\\"
    } else {
        "/"
    }
}

/// Whether `s` starts with a drive or share.
pub fn names_prefix(windows: bool, s: &str) -> (r: bool)
    ensures
        r == (prefix_len(windows, s@) > 0),
{
    prefix_length(windows, s) > 0
}

/// The path `name` below `root`.
pub fn path_below(windows: bool, root: &str, name: &str) -> (r: String)
    ensures
        r@ == below(windows, root@, name@),
{
    if prefix_length(windows, name) > 0 {
        return name.to_owned();
    }
    let n: usize = root.unicode_len();
    if leads_from_root(windows, name) {
        let k: usize = prefix_length(windows, root);
        let start = root.substring_char(0, k);
        proof {
            assert(start@ =~= root@.take(k as int));
        }
        return join(start, name);
    }
    if n == 0 || is_separator(windows, root.get_char(n - 1)) || (windows && n == 2
        && starts_on_drive(root)) {
        join(root, name)
    } else {
        join3(root, separator_of(windows), name)
    }
}

} // verus!
