//! Numbers written in decimal digits.

use vstd::prelude::*;

verus! {

/// Whether `c` is a decimal digit.
pub open spec fn digit(c: char) -> bool {
    '0' <= c <= '9'
}

/// Whether `s` is made of decimal digits.
pub open spec fn all_digits(s: Seq<char>) -> bool {
    forall|i: int| 0 <= i < s.len() ==> digit(#[trigger] s[i])
}

/// The number that the digits `s` write.
pub open spec fn written(s: Seq<char>) -> nat
    decreases s.len(),
{
    if s.len() == 0 {
        0
    } else {
        written(s.drop_last()) * 10 + (s.last() as nat - '0' as nat) as nat
    }
}

/// The digit for `n`.
pub open spec fn digit_of(n: nat) -> char {
    (('0' as nat) + n % 10) as char
}

/// `n` in decimal digits.
pub open spec fn decimal(n: nat) -> Seq<char>
    decreases n,
{
    if n < 10 {
        seq![digit_of(n)]
    } else {
        decimal(n / 10).push(digit_of(n))
    }
}

/// The number that `s` writes, where it writes one that fits: digits, with a
/// plus sign before them or none.
pub open spec fn u32_written(s: Seq<char>) -> Option<u32> {
    let t = if s.len() > 0 && s[0] == '+' {
        s.skip(1)
    } else {
        s
    };
    if t.len() > 0 && all_digits(t) && written(t) <= u32::MAX {
        Some(written(t) as u32)
    } else {
        None
    }
}

/// The digit for `n`.
fn digit_char(n: u128) -> (r: char)
    requires
        n < 10,
    ensures
        r == digit_of(n as nat),
{
    if n == 0 {
        '0'
    } else if n == 1 {
        '1'
    } else if n == 2 {
        '2'
    } else if n == 3 {
        '3'
    } else if n == 4 {
        '4'
    } else if n == 5 {
        '5'
    } else if n == 6 {
        '6'
    } else if n == 7 {
        '7'
    } else if n == 8 {
        '8'
    } else {
        '9'
    }
}

/// `n` in decimal digits.
pub fn decimal_text(n: u128) -> (r: String)
    ensures
        r@ == decimal(n as nat),
    decreases n,
{
    if n < 10 {
        let mut s = String::new();
        s.push(digit_char(n));
        proof {
            assert(s@ =~= seq![digit_of(n as nat)]);
        }
        s
    } else {
        let mut s = decimal_text(n / 10);
        s.push(digit_char(n % 10));
        s
    }
}

/// The number that `s` writes, where it writes one that fits.
pub fn parse_u32(s: &str) -> (r: Option<u32>)
    ensures
        r == u32_written(s@),
{
    let n: usize = s.unicode_len();
    let start: usize = if n > 0 && s.get_char(0) == '+' {
        1
    } else {
        0
    };
    let ghost t = s@.skip(start as int);
    proof {
        if start == 0 {
            assert(t =~= s@);
        }
        assert(t.take(0) =~= Seq::<char>::empty());
    }
    if start == n {
        return None;
    }
    let mut i: usize = start;
    let mut sum: u32 = 0;
    while i < n
        invariant
            start <= i <= n,
            n == s@.len(),
            start == 0 || start == 1,
            t == s@.skip(start as int),
            all_digits(t.take(i - start)),
            sum == written(t.take(i - start)),
            start == 1 <==> (n > 0 && s@[0] == '+'),
            start < n,
            start == 0 ==> t == s@,
        decreases n - i,
    {
        let c = s.get_char(i);
        let ghost before = t.take(i - start);
        let ghost after = t.take(i - start + 1);
        proof {
            assert(after.drop_last() =~= before);
            assert(after.last() == c);
            assert(t[i - start] == c);
        }
        if c < '0' || '9' < c {
            proof {
                assert(!digit(t[i - start]));
            }
            return None;
        }
        let d: u32 = c as u32 - '0' as u32;
        proof {
            assert(written(after) == written(before) * 10 + d as nat);
            assert forall|j: int| 0 <= j < after.len() implies digit(#[trigger] after[j]) by {
                if j < before.len() {
                    assert(before[j] == after[j]);
                }
            }
            growing(t, (i - start + 1) as nat);
        }
        match sum.checked_mul(10) {
            Some(m) => match m.checked_add(d) {
                Some(a) => {
                    sum = a;
                },
                None => {
                    return None;
                },
            },
            None => {
                return None;
            },
        }
        i = i + 1;
    }
    proof {
        assert(t.take(i - start) =~= t);
    }
    Some(sum)
}

/// More digits never write a smaller number.
proof fn growing(t: Seq<char>, n: nat)
    requires
        n <= t.len(),
    ensures
        all_digits(t) ==> written(t.take(n as int)) <= written(t),
    decreases t.len() - n,
{
    if n < t.len() {
        growing(t, n + 1);
        let next = t.take(n as int + 1);
        assert(next.drop_last() =~= t.take(n as int));
        if all_digits(t) {
            assert(digit(t[n as int]));
            assert(next.last() == t[n as int]);
        }
    } else {
        assert(t.take(n as int) =~= t);
    }
}

/// Reading the digits of a number gives the number back.
pub proof fn decimals_read_back(n: nat)
    ensures
        decimal(n).len() > 0,
        all_digits(decimal(n)),
        written(decimal(n)) == n,
    decreases n,
{
    if n < 10 {
        assert(decimal(n).drop_last() =~= Seq::<char>::empty());
        assert(written(Seq::<char>::empty()) == 0);
    } else {
        decimals_read_back(n / 10);
        let d = decimal(n);
        assert(d.drop_last() =~= decimal(n / 10));
        assert forall|i: int| 0 <= i < d.len() implies digit(#[trigger] d[i]) by {
            if i < d.len() - 1 {
                assert(decimal(n / 10)[i] == d[i]);
            }
        }
    }
}

} // verus!
