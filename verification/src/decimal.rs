//! Whole numbers as decimal text, written and read back.

use crate::bytes::{has_at, lemma_has_at_bounds, lemma_has_at_index, lemma_has_at_split};
use vstd::prelude::*;

verus! {

/// Whether `b` is one of the characters `0` to `9`.
pub open spec fn is_digit(b: u8) -> bool {
    0x30 <= b <= 0x39
}

/// The decimal digits of `n`, without leading zeros.
pub open spec fn digits(n: nat) -> Seq<u8>
    decreases n,
{
    if n < 10 {
        seq![(0x30 + n) as u8]
    } else {
        digits(n / 10).push((0x30 + n % 10) as u8)
    }
}

/// The decimal text of `n`: a minus sign where `n` is negative, then the
/// digits of its magnitude.
pub open spec fn int_text(n: int) -> Seq<u8> {
    if n < 0 {
        seq![0x2d_u8] + digits((-n) as nat)
    } else {
        digits(n as nat)
    }
}

/// The first position at or after `i` that holds no digit.
pub open spec fn digits_end(s: Seq<u8>, i: int) -> int
    decreases s.len() - i,
{
    if 0 <= i < s.len() && is_digit(s[i]) {
        digits_end(s, i + 1)
    } else {
        i
    }
}

/// The number that the digits of `s` from `i` up to `j` spell.
pub open spec fn digits_value(s: Seq<u8>, i: int, j: int) -> int
    decreases j - i,
{
    if j <= i {
        0
    } else {
        digits_value(s, i, j - 1) * 10 + (s[j - 1] - 0x30)
    }
}

/// The number written at position `i` of `s`, with the position behind it:
/// an optional minus sign and the longest run of digits that follows.
/// `None` where no digit stands there or the number is no `i64`.
pub open spec fn int_at(s: Seq<u8>, i: int) -> Option<(i64, int)> {
    if !(0 <= i < s.len()) {
        None
    } else {
        let negative = s[i] == 0x2d;
        let from = if negative {
            i + 1
        } else {
            i
        };
        let to = digits_end(s, from);
        let magnitude = digits_value(s, from, to);
        if to == from {
            None
        } else if negative {
            if magnitude <= 0x8000_0000_0000_0000 {
                Some(((-magnitude) as i64, to))
            } else {
                None
            }
        } else {
            if magnitude <= 0x7fff_ffff_ffff_ffff {
                Some((magnitude as i64, to))
            } else {
                None
            }
        }
    }
}

pub(crate) proof fn lemma_digits_are_digits(n: nat)
    ensures
        digits(n).len() >= 1,
        forall|k: int| 0 <= k < digits(n).len() ==> is_digit(#[trigger] digits(n)[k]),
    decreases n,
{
    if n >= 10 {
        lemma_digits_are_digits(n / 10);
    }
}

pub(crate) proof fn lemma_digits_end_bounds(s: Seq<u8>, i: int)
    requires
        0 <= i <= s.len(),
    ensures
        i <= digits_end(s, i) <= s.len(),
    decreases s.len() - i,
{
    if i < s.len() && is_digit(s[i]) {
        lemma_digits_end_bounds(s, i + 1);
    }
}

/// A run of digits that ends at `j` is the run that `digits_end` finds.
pub(crate) proof fn lemma_digits_end_is(s: Seq<u8>, i: int, j: int)
    requires
        0 <= i <= j <= s.len(),
        forall|k: int| i <= k < j ==> is_digit(#[trigger] s[k]),
        j == s.len() || !is_digit(s[j]),
    ensures
        digits_end(s, i) == j,
    decreases j - i,
{
    if i < j {
        lemma_digits_end_is(s, i + 1, j);
    }
}

/// More digits spell no smaller number.
pub(crate) proof fn lemma_digits_value_grows(s: Seq<u8>, i: int, j: int, k: int)
    requires
        0 <= i <= j <= k <= s.len(),
        forall|m: int| i <= m < k ==> is_digit(#[trigger] s[m]),
    ensures
        0 <= digits_value(s, i, j) <= digits_value(s, i, k),
    decreases k - j,
{
    if j < k {
        lemma_digits_value_grows(s, i, j, k - 1);
        assert(is_digit(s[k - 1]));
    } else {
        lemma_digits_value_nonnegative(s, i, j);
    }
}

pub(crate) proof fn lemma_digits_value_nonnegative(s: Seq<u8>, i: int, j: int)
    requires
        0 <= i <= j <= s.len(),
        forall|m: int| i <= m < j ==> is_digit(#[trigger] s[m]),
    ensures
        0 <= digits_value(s, i, j),
    decreases j - i,
{
    if i < j {
        lemma_digits_value_nonnegative(s, i, j - 1);
        assert(is_digit(s[j - 1]));
    }
}

/// The digits of `n` spell `n`.
pub(crate) proof fn lemma_digits_value_of_digits(s: Seq<u8>, i: int, n: nat)
    requires
        has_at(s, i, digits(n)),
    ensures
        digits_value(s, i, i + digits(n).len()) == n,
    decreases n,
{
    let len = digits(n).len() as int;
    lemma_digits_are_digits(n);
    lemma_has_at_index(s, i, digits(n), len - 1);
    if n < 10 {
        assert(digits_value(s, i, i) == 0);
        assert(digits_value(s, i, i + 1) == digits_value(s, i, i) * 10 + (s[i] - 0x30));
    } else {
        let front = digits(n / 10);
        assert(digits(n) == front + seq![(0x30 + n % 10) as u8]);
        lemma_has_at_split(s, i, front, seq![(0x30 + n % 10) as u8]);
        lemma_digits_value_of_digits(s, i, n / 10);
    }
}

/// The decimal text of an `i64` that is followed by no further digit reads
/// back as that number.
pub(crate) proof fn lemma_int_at_int_text(s: Seq<u8>, i: int, n: i64)
    requires
        has_at(s, i, int_text(n as int)),
        i + int_text(n as int).len() == s.len() || !is_digit(s[i + int_text(n as int).len()]),
    ensures
        int_at(s, i) == Some((n, i + int_text(n as int).len())),
{
    let text = int_text(n as int);
    let magnitude: nat = if n < 0 {
        (-n) as nat
    } else {
        n as nat
    };
    let from = if n < 0 {
        i + 1
    } else {
        i
    };
    let to = i + text.len();
    lemma_has_at_bounds(s, i, text);
    lemma_digits_are_digits(magnitude);
    if n < 0 {
        lemma_has_at_split(s, i, seq![0x2d_u8], digits(magnitude));
        lemma_has_at_index(s, i, seq![0x2d_u8], 0);
    } else {
        lemma_has_at_index(s, i, text, 0);
        assert(is_digit(digits(magnitude)[0]));
    }
    assert(has_at(s, from, digits(magnitude)));
    assert forall|k: int| from <= k < to implies is_digit(#[trigger] s[k]) by {
        lemma_has_at_index(s, from, digits(magnitude), k - from);
        assert(is_digit(digits(magnitude)[k - from]));
    }
    lemma_digits_end_is(s, from, to);
    lemma_digits_value_of_digits(s, from, magnitude);
}

fn write_digits(out: &mut Vec<u8>, n: u64)
    ensures
        final(out)@ == old(out)@ + digits(n as nat),
    decreases n,
{
    if n >= 10 {
        write_digits(out, n / 10);
    }
    out.push(0x30 + (n % 10) as u8);
    assert(out@ =~= old(out)@ + digits(n as nat));
}

/// Appends the decimal text of `n` to `out`.
pub fn write_int(out: &mut Vec<u8>, n: i64)
    ensures
        final(out)@ == old(out)@ + int_text(n as int),
{
    if n < 0 {
        out.push(0x2d);
        let magnitude: u64 = if n == i64::MIN {
            0x8000_0000_0000_0000
        } else {
            (-n) as u64
        };
        write_digits(out, magnitude);
        assert(out@ =~= old(out)@ + int_text(n as int));
    } else {
        write_digits(out, n as u64);
    }
}

/// Reads the number that is written at position `i` of `s`.
#[verifier::loop_isolation(false)]
pub fn read_int(s: &[u8], i: usize) -> (r: Option<(i64, usize)>)
    ensures
        match r {
            Some((n, end)) => int_at(s@, i as int) == Some((n, end as int)) && end <= s@.len(),
            None => int_at(s@, i as int) is None,
        },
{
    if i >= s.len() {
        return None;
    }
    let negative = s[i] == 0x2d;
    let from: usize = if negative {
        i + 1
    } else {
        i
    };
    let limit: u64 = if negative {
        0x8000_0000_0000_0000
    } else {
        0x7fff_ffff_ffff_ffff
    };
    let ghost to = digits_end(s@, from as int);
    proof {
        lemma_digits_end_bounds(s@, from as int);
    }
    let mut magnitude: u64 = 0;
    let mut j: usize = from;
    while j < s.len() && 0x30 <= s[j] && s[j] <= 0x39
        invariant
            from <= j <= to <= s@.len(),
            to == digits_end(s@, from as int),
            to == digits_end(s@, j as int),
            forall|m: int| from <= m < j ==> is_digit(#[trigger] s@[m]),
            magnitude == digits_value(s@, from as int, j as int),
            magnitude <= limit,
            limit <= 0x8000_0000_0000_0000,
        decreases s@.len() - j,
    {
        let digit: u64 = (s[j] - 0x30) as u64;
        if magnitude > (limit - digit) / 10 {
            proof {
                lemma_digits_end_bounds(s@, j + 1);
                assert forall|m: int| from <= m < to implies is_digit(#[trigger] s@[m]) by {
                    lemma_digits_run(s@, from as int, m);
                }
                lemma_digits_value_grows(s@, from as int, j + 1, to);
            }
            return None;
        }
        proof {
            lemma_digits_end_bounds(s@, j + 1);
        }
        magnitude = magnitude * 10 + digit;
        j = j + 1;
    }
    if j == from {
        return None;
    }
    let n: i64 = if negative {
        if magnitude == 0x8000_0000_0000_0000 {
            i64::MIN
        } else {
            -(magnitude as i64)
        }
    } else {
        magnitude as i64
    };
    Some((n, j))
}

/// Every position before `digits_end` holds a digit.
pub(crate) proof fn lemma_digits_run(s: Seq<u8>, i: int, m: int)
    requires
        0 <= i <= m < digits_end(s, i),
    ensures
        is_digit(s[m]),
        m < s.len(),
    decreases s.len() - i,
{
    if 0 <= i < s.len() && is_digit(s[i]) {
        if i < m {
            lemma_digits_run(s, i + 1, m);
        }
    }
}

} // verus!
