//! The memory that the daemons report for their terminals.

use crate::collections::{IdMap, lookup, stored, unkeyed};
use crate::numbers::{decimal, decimal_text};
use crate::text::{has_prefix, opt_text, same_opt, strip_prefix};
use vstd::prelude::*;

verus! {

/// What a daemon reports.
#[derive(Debug)]
pub struct ApiProcessMemory {
    pub daemon_bytes: u64,
    pub terminals_bytes: u64,
    /// The memory of each project that has something running.
    pub projects: IdMap<u64>,
}

/// What an [`ApiProcessMemory`] stands for.
pub struct MemoryView {
    pub daemon_bytes: u64,
    pub terminals_bytes: u64,
    pub projects: Seq<(Seq<char>, u64)>,
}

impl View for ApiProcessMemory {
    type V = MemoryView;

    open spec fn view(&self) -> MemoryView {
        MemoryView {
            daemon_bytes: self.daemon_bytes,
            terminals_bytes: self.terminals_bytes,
            projects: self.projects@,
        }
    }
}

/// The latest report of each connected daemon.
#[derive(Debug)]
pub struct ProcessMemory {
    by_connection: IdMap<ApiProcessMemory>,
}

impl View for ProcessMemory {
    type V = Seq<(Seq<char>, MemoryView)>;

    closed spec fn view(&self) -> Seq<(Seq<char>, MemoryView)> {
        self.by_connection@
    }
}

/// The bytes of a megabyte.
pub open spec fn mebibyte() -> nat {
    1048576
}

/// `n / d`, rounded; a half goes to the even number.
pub open spec fn rounded(n: nat, d: nat) -> nat {
    if 2 * (n % d) > d || (2 * (n % d) == d && (n / d) % 2 == 1) {
        n / d + 1
    } else {
        n / d
    }
}

/// Memory as it is shown: whole megabytes up to a gigabyte, a half rounded up,
/// and then gigabytes to one decimal.
pub open spec fn memory_text(bytes: u64) -> Seq<char> {
    let mb = (bytes as nat + mebibyte() / 2) / mebibyte();
    if mb < 1024 {
        decimal(mb) + " MB"@
    } else {
        let tenths = rounded(10 * bytes as nat, 1024 * mebibyte());
        decimal(tenths / 10) + "."@ + decimal(tenths % 10) + " GB"@
    }
}

/// What the report of one connection says of the project `rest`, which starts
/// with the connection's id and a colon.
pub open spec fn figure(connection: Seq<char>, m: MemoryView, rest: Seq<char>) -> Option<u64> {
    let head = connection + ":"@;
    if has_prefix(rest, head) {
        lookup(m.projects, rest.skip(head.len() as int))
    } else {
        None
    }
}

/// What the first of the first `n` reports to say something says of `rest`.
pub open spec fn first_figure(s: Seq<(Seq<char>, MemoryView)>, rest: Seq<char>, n: nat) -> Option<
    u64,
>
    decreases n,
{
    if n == 0 || n > s.len() {
        None
    } else {
        match first_figure(s, rest, (n - 1) as nat) {
            Some(b) => Some(b),
            None => figure(s[n - 1].0, s[n - 1].1, rest),
        }
    }
}

/// The memory of the project `id`, by the id that the client knows it by.
pub open spec fn project_memory(s: Seq<(Seq<char>, MemoryView)>, id: Seq<char>) -> Option<u64> {
    if has_prefix(id, "remote:"@) {
        first_figure(s, id.skip("remote:"@.len() as int), s.len())
    } else {
        None
    }
}

/// What is shown of the project `id` for a report, or for none.
pub open spec fn shown(m: Option<MemoryView>, id: Seq<char>) -> Option<Seq<char>> {
    match m {
        Some(m) => match lookup(m.projects, id) {
            Some(b) => Some(memory_text(b)),
            None => None,
        },
        None => None,
    }
}

/// Whether the two reports show the same.
pub open spec fn shows_alike(a: Option<MemoryView>, b: Option<MemoryView>) -> bool {
    forall|id: Seq<char>| #[trigger] shown(a, id) == shown(b, id)
}

/// Memory as it is shown.
pub fn format_memory(bytes: u64) -> (r: String)
    ensures
        r@ == memory_text(bytes),
{
    let mb: u128 = (bytes as u128 + 524288) / 1048576;
    if mb < 1024 {
        let mut s = decimal_text(mb);
        s.append(" MB");
        s
    } else {
        let n: u128 = 10 * (bytes as u128);
        let d: u128 = 1073741824;
        let whole: u128 = n / d;
        let rest: u128 = n % d;
        let tenths: u128 = if 2 * rest > d || (2 * rest == d && whole % 2 == 1) {
            whole + 1
        } else {
            whole
        };
        let mut s = decimal_text(tenths / 10);
        s.append(".");
        s.append(decimal_text(tenths % 10).as_str());
        s.append(" GB");
        s
    }
}

/// The report, if there is one.
pub open spec fn opt_memory(m: Option<ApiProcessMemory>) -> Option<MemoryView> {
    match m {
        Some(m) => Some(m@),
        None => None,
    }
}

/// The report, if there is one.
pub open spec fn lent_memory(m: Option<&ApiProcessMemory>) -> Option<MemoryView> {
    match m {
        Some(m) => Some(m@),
        None => None,
    }
}

/// Whether what `a` shows, `b` shows too.
pub open spec fn shows_all_of(b: Option<MemoryView>, a: Option<MemoryView>) -> bool {
    forall|id: Seq<char>| shown(a, id) is Some ==> #[trigger] shown(a, id) == shown(b, id)
}

/// What is shown of a project.
fn shown_in(m: Option<&ApiProcessMemory>, id: &str) -> (r: Option<String>)
    ensures
        opt_text(r) == shown(lent_memory(m), id@),
{
    match m {
        Some(m) => match m.projects.get(id) {
            Some(b) => Some(format_memory(*b)),
            None => None,
        },
        None => None,
    }
}

/// Whether what `a` shows, `b` shows too.
fn keys_alike(a: Option<&ApiProcessMemory>, b: Option<&ApiProcessMemory>) -> (r: bool)
    ensures
        r == shows_all_of(lent_memory(b), lent_memory(a)),
{
    let ghost x = lent_memory(a);
    let ghost y = lent_memory(b);
    match a {
        Some(m) => {
            let mut i: usize = 0;
            while i < m.projects.len()
                invariant
                    i <= m.projects@.len(),
                    x == Some(m@),
                    y == lent_memory(b),
                    x == lent_memory(a),
                    forall|j: int|
                        0 <= j < i ==> shown(x, (#[trigger] m.projects@[j]).0) == shown(
                            y,
                            m.projects@[j].0,
                        ),
                decreases m.projects@.len() - i,
            {
                let id = m.projects.key_at(i);
                let p = shown_in(Some(m), id.as_str());
                let q = shown_in(b, id.as_str());
                if !same_opt(&p, &q) {
                    proof {
                        has_key(m.projects@, i as int);
                        assert(shown(x, id@) is Some);
                        assert(shown(x, id@) != shown(y, id@));
                    }
                    return false;
                }
                i = i + 1;
            }
            proof {
                assert forall|id: Seq<char>| shown(x, id) is Some implies #[trigger] shown(x, id)
                    == shown(y, id) by {
                    found_at(m.projects@, id);
                }
            }
            true
        },
        None => true,
    }
}

/// A key that is there is found.
proof fn has_key(s: Seq<(Seq<char>, u64)>, i: int)
    requires
        0 <= i < s.len(),
    ensures
        lookup(s, s[i].0) is Some,
    decreases s.len(),
{
    if i < s.len() - 1 && s.last().0 != s[i].0 {
        has_key(s.drop_last(), i);
    }
}

/// A key that is found is there.
proof fn found_at(s: Seq<(Seq<char>, u64)>, k: Seq<char>)
    requires
        lookup(s, k) is Some,
    ensures
        exists|i: int| 0 <= i < s.len() && (#[trigger] s[i]).0 == k,
    decreases s.len(),
{
    if s.last().0 == k {
        assert(s[s.len() - 1].0 == k);
    } else {
        found_at(s.drop_last(), k);
        let i = choose|i: int|
            0 <= i < s.drop_last().len() && (#[trigger] s.drop_last()[i]).0 == k;
        assert(s[i].0 == k);
    }
}

impl ProcessMemory {
    /// No reports yet.
    pub fn new() -> (r: Self)
        ensures
            r@ == Seq::<(Seq<char>, MemoryView)>::empty(),
    {
        ProcessMemory { by_connection: IdMap::new() }
    }

    /// What the daemon of a connection last reported.
    pub fn connection(&self, connection_id: &str) -> (r: Option<&ApiProcessMemory>)
        ensures
            match r {
                Some(m) => lookup(self@, connection_id@) == Some(m@),
                None => lookup(self@, connection_id@) is None,
            },
    {
        self.by_connection.get(connection_id)
    }

    /// The memory of a project's terminals, by the id that the client knows the
    /// project by. None where nothing in it runs or nothing is reported.
    pub fn project(&self, project_id: &str) -> (r: Option<u64>)
        ensures
            r == project_memory(self@, project_id@),
    {
        let rest = match strip_prefix(project_id, "remote:") {
            Some(rest) => rest,
            None => {
                return None;
            },
        };
        let mut i: usize = 0;
        while i < self.by_connection.len()
            invariant
                i <= self@.len(),
                self@ == self.by_connection@,
                has_prefix(project_id@, "remote:"@),
                rest@ == project_id@.skip("remote:"@.len() as int),
                first_figure(self@, rest@, i as nat) is None,
            decreases self@.len() - i,
        {
            let mut head = self.by_connection.key_at(i).clone();
            head.append(":");
            let m = self.by_connection.value_at(i);
            if let Some(id) = strip_prefix(rest, head.as_str()) {
                if let Some(b) = m.projects.get(id) {
                    proof {
                        figure_stays(self@, rest@, *b, (i + 1) as nat);
                    }
                    return Some(*b);
                }
            }
            i = i + 1;
        }
        None
    }

    /// Take in the report of a connection; none forgets the last one. Returns
    /// whether what is shown changed, so that observers are to be told: a few
    /// bytes more or less are none of their business.
    pub fn set(&mut self, connection_id: &str, memory: Option<ApiProcessMemory>) -> (r: bool)
        ensures
            final(self)@ == match opt_memory(memory) {
                Some(m) => stored(old(self)@, connection_id@, m),
                None => unkeyed(old(self)@, connection_id@),
            },
            r == !shows_alike(lookup(old(self)@, connection_id@), opt_memory(memory)),
    {
        let ghost a = lookup(self@, connection_id@);
        let ghost b = opt_memory(memory);
        let before = self.by_connection.get(connection_id);
        let after: Option<&ApiProcessMemory> = match &memory {
            Some(m) => Some(m),
            None => None,
        };
        let alike: bool = keys_alike(before, after) && keys_alike(after, before);
        proof {
            assert(lent_memory(before) == a);
            assert(lent_memory(after) == b);
            if alike {
                assert forall|id: Seq<char>| #[trigger] shown(a, id) == shown(b, id) by {
                    if shown(a, id) is None && shown(b, id) is Some {
                        assert(shown(b, id) == shown(a, id));
                    }
                }
            } else if shows_alike(a, b) {
                assert(shows_all_of(b, a));
                assert forall|id: Seq<char>| shown(b, id) is Some implies #[trigger] shown(b, id)
                    == shown(a, id) by {
                    assert(shown(a, id) == shown(b, id));
                }
                assert(shows_all_of(a, b));
            }
        }
        match memory {
            Some(m) => {
                self.by_connection.insert(connection_id.to_owned(), m);
            },
            None => {
                self.by_connection.remove(connection_id);
            },
        }
        !alike
    }
}

proof fn figure_stays(s: Seq<(Seq<char>, MemoryView)>, rest: Seq<char>, b: u64, n: nat)
    requires
        first_figure(s, rest, n) == Some(b),
        n <= s.len(),
    ensures
        first_figure(s, rest, s.len()) == Some(b),
    decreases s.len() - n,
{
    if n < s.len() {
        figure_stays(s, rest, b, n + 1);
    }
}

impl Default for ProcessMemory {
    fn default() -> (r: Self)
        ensures
            r@ == Seq::<(Seq<char>, MemoryView)>::empty(),
    {
        ProcessMemory::new()
    }
}

} // verus!
