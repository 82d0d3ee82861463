//! The three parts of a token and the dots between them.

use vstd::prelude::*;

verus! {

/// The first position at or after `i` that holds a dot, or the length of
/// `t` where none follows.
pub open spec fn dot_from(t: Seq<char>, i: int) -> int
    decreases t.len() - i,
{
    if 0 <= i < t.len() && t[i] != '.' {
        dot_from(t, i + 1)
    } else {
        i
    }
}

/// The three parts of a token, without the dots between them.
pub struct TokenParts {
    pub header: Seq<char>,
    pub payload: Seq<char>,
    pub signature: Seq<char>,
}

/// Whether `t` holds exactly two dots.
pub open spec fn has_three_parts(t: Seq<char>) -> bool {
    let first = dot_from(t, 0);
    let second = dot_from(t, first + 1);
    first < t.len() && second < t.len() && dot_from(t, second + 1) >= t.len()
}

/// What stands before, between and behind the two dots of `t`.
pub open spec fn token_parts(t: Seq<char>) -> TokenParts
    recommends
        has_three_parts(t),
{
    let first = dot_from(t, 0);
    let second = dot_from(t, first + 1);
    TokenParts {
        header: t.subrange(0, first),
        payload: t.subrange(first + 1, second),
        signature: t.subrange(second + 1, t.len() as int),
    }
}

/// What stands before the second dot of `t`: the part that is signed.
pub open spec fn signed_part(t: Seq<char>) -> Seq<char>
    recommends
        has_three_parts(t),
{
    t.subrange(0, dot_from(t, dot_from(t, 0) + 1))
}

/// Where no dot stands from `i` up to `j`, and one stands at `j` or `t`
/// ends there, `dot_from` finds `j`.
pub(crate) proof fn lemma_dot_from_is(t: Seq<char>, i: int, j: int)
    requires
        0 <= i <= j <= t.len(),
        forall|k: int| i <= k < j ==> #[trigger] t[k] != '.',
        j == t.len() || t[j] == '.',
    ensures
        dot_from(t, i) == j,
    decreases j - i,
{
    if i < j {
        lemma_dot_from_is(t, i + 1, j);
    }
}

/// Three texts without a dot, joined by dots, are the three parts of what
/// they make.
pub(crate) proof fn lemma_parts_of_joined(h: Seq<char>, p: Seq<char>, s: Seq<char>)
    requires
        forall|k: int| 0 <= k < h.len() ==> #[trigger] h[k] != '.',
        forall|k: int| 0 <= k < p.len() ==> #[trigger] p[k] != '.',
        forall|k: int| 0 <= k < s.len() ==> #[trigger] s[k] != '.',
    ensures
        has_three_parts(h + seq!['.'] + p + seq!['.'] + s),
        token_parts(h + seq!['.'] + p + seq!['.'] + s) == (TokenParts {
            header: h,
            payload: p,
            signature: s,
        }),
        signed_part(h + seq!['.'] + p + seq!['.'] + s) == h + seq!['.'] + p,
{
    let t = h + seq!['.'] + p + seq!['.'] + s;
    let first = h.len() as int;
    let second = first + 1 + p.len();
    assert forall|k: int| 0 <= k < first implies #[trigger] t[k] != '.' by {
        assert(t[k] == h[k]);
    }
    lemma_dot_from_is(t, 0, first);
    assert forall|k: int| first + 1 <= k < second implies #[trigger] t[k] != '.' by {
        assert(t[k] == p[k - first - 1]);
    }
    lemma_dot_from_is(t, first + 1, second);
    assert forall|k: int| second + 1 <= k < t.len() implies #[trigger] t[k] != '.' by {
        assert(t[k] == s[k - second - 1]);
    }
    lemma_dot_from_is(t, second + 1, t.len() as int);
    assert(t.subrange(0, first) =~= h);
    assert(t.subrange(first + 1, second) =~= p);
    assert(t.subrange(second + 1, t.len() as int) =~= s);
    assert(t.subrange(0, second) =~= h + seq!['.'] + p);
}

/// The position of the first dot at or after `start`.
pub fn find_dot(t: &Vec<char>, start: usize) -> (end: usize)
    requires
        start <= t.len(),
    ensures
        end == dot_from(t@, start as int),
        start <= end <= t.len(),
{
    let mut i = start;
    while i < t.len() && t[i] != '.'
        invariant
            start <= i <= t.len(),
            dot_from(t@, start as int) == dot_from(t@, i as int),
        decreases t.len() - i,
    {
        i = i + 1;
    }
    i
}

} // verus!
