//! The file that keeps a second instance from starting.

use crate::numbers::{
    all_digits, decimal, decimal_text, decimals_read_back, digit, parse_u32, u32_written,
};
use crate::text::{join, trim, trimmed, trimmed_end, trimmed_start, white_space};
use vstd::prelude::*;

verus! {

/// What comes before the first `c` of `s` that is not before position `i`.
pub open spec fn cut_at(s: Seq<char>, c: char, i: int) -> Seq<char>
    decreases s.len() - i,
{
    if i < 0 || i >= s.len() || s[i] == c {
        s.take(i)
    } else {
        cut_at(s, c, i + 1)
    }
}

/// The process that wrote `content` into the lock file: a number, alone or
/// before a colon.
pub open spec fn lock_pid(content: Seq<char>) -> Option<u32> {
    u32_written(cut_at(trimmed(content), ':', 0))
}

/// What a process writes into the lock file: its number, and a token that no
/// other process has.
pub open spec fn lock_identity(pid: u32, token: Seq<char>) -> Seq<char> {
    decimal(pid as nat) + ":"@ + token
}

/// What is said when the lock at `path` is held by the process that wrote
/// `content`.
pub open spec fn held_message(content: Seq<char>, error: Seq<char>, path: Seq<char>) -> Seq<char> {
    let owner = match lock_pid(content) {
        Some(pid) => "PID "@ + decimal(pid as nat),
        None => "another process"@,
    };
    "Another Okena instance is already running ("@ + owner + "): "@ + error
        + ". If this is incorrect, delete "@ + path + " and try again."@
}

/// The process that wrote `content` into the lock file.
pub fn instance_lock_pid(content: &str) -> (r: Option<u32>)
    ensures
        r == lock_pid(content@),
{
    let s = trim(content);
    let n: usize = s.unicode_len();
    let mut i: usize = 0;
    while i < n && s.get_char(i) != ':'
        invariant
            i <= n,
            n == s@.len(),
            cut_at(s@, ':', 0) == cut_at(s@, ':', i as int),
        decreases n - i,
    {
        i = i + 1;
    }
    let first = s.substring_char(0, i);
    proof {
        assert(first@ =~= s@.take(i as int));
    }
    parse_u32(first)
}

/// What a process writes into the lock file.
pub fn instance_lock_identity(pid: u32, token: &str) -> (r: String)
    ensures
        r@ == lock_identity(pid, token@),
{
    let mut s = decimal_text(pid as u128);
    s.append(":");
    s.append(token);
    s
}

/// What is said when the lock is held. `error` is what the system said, and
/// `path` the lock file as it is shown to the user.
pub fn instance_lock_held_message(content: &str, error: &str, path: &str) -> (r: String)
    ensures
        r@ == held_message(content@, error@, path@),
{
    let owner = match instance_lock_pid(content) {
        Some(pid) => join("PID ", decimal_text(pid as u128).as_str()),
        None => "another process".to_owned(),
    };
    let mut s = join("Another Okena instance is already running (", owner.as_str());
    s.append("): ");
    s.append(error);
    s.append(". If this is incorrect, delete ");
    s.append(path);
    s.append(" and try again.");
    s
}

/// What a process wrote into the lock file names the process.
pub proof fn locks_name_their_owner(pid: u32, token: Seq<char>)
    ensures
        lock_pid(lock_identity(pid, token)) == Some(pid),
{
    reveal_strlit(":");
    let d = decimal(pid as nat);
    decimals_read_back(pid as nat);
    let s = lock_identity(pid, token);
    let k = d.len();
    assert(digit(d[0]) && s[0] == d[0]);
    assert(s[k as int] == ':');
    assert(trimmed_start(s) == s);
    ends_keep_the_front(s, k as int);
    let t = trimmed(s);
    assert(t[k as int] == s[k as int]);
    assert forall|i: int| 0 <= i < k implies t[i] == d[i] by {
        assert(s[i] == d[i]);
    }
    digits_are_cut(t, d, 0);
    assert(d[0] != '+');
}

/// What is cut off at the end does not reach a character that is no white
/// space.
proof fn ends_keep_the_front(s: Seq<char>, k: int)
    requires
        0 <= k < s.len(),
        !white_space(s[k]),
    ensures
        k < trimmed_end(s).len() <= s.len(),
        forall|i: int| 0 <= i <= k ==> #[trigger] trimmed_end(s)[i] == s[i],
    decreases s.len(),
{
    if s.len() > k + 1 && white_space(s.last()) {
        ends_keep_the_front(s.drop_last(), k);
    }
}

proof fn digits_are_cut(t: Seq<char>, d: Seq<char>, i: int)
    requires
        0 <= i <= d.len() < t.len(),
        all_digits(d),
        t[d.len() as int] == ':',
        forall|j: int| 0 <= j < d.len() ==> #[trigger] t[j] == d[j],
    ensures
        cut_at(t, ':', i) == d,
    decreases d.len() - i,
{
    if i < d.len() {
        assert(digit(d[i]));
        assert(t[i] != ':');
        digits_are_cut(t, d, i + 1);
    } else {
        assert(t.take(i) =~= d);
    }
}

} // verus!
