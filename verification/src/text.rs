//! Words of a text: the runs of characters between white space.

use vstd::prelude::*;

verus! {

/// Whether `c` has the Unicode property `White_Space`.
pub open spec fn is_space(c: char) -> bool {
    let u = c as u32;
    ||| 0x09 <= u <= 0x0d
    ||| u == 0x20
    ||| u == 0x85
    ||| u == 0xa0
    ||| u == 0x1680
    ||| 0x2000 <= u <= 0x200a
    ||| u == 0x2028
    ||| u == 0x2029
    ||| u == 0x202f
    ||| u == 0x205f
    ||| u == 0x3000
}

/// The first position at or after `i` that holds no white space, or the
/// length of `s` where only white space follows.
pub open spec fn skip_spaces(s: Seq<char>, i: int) -> int
    decreases s.len() - i,
{
    if 0 <= i < s.len() && is_space(s[i]) {
        skip_spaces(s, i + 1)
    } else {
        i
    }
}

/// The first position at or after `i` that holds white space, or the length
/// of `s` where none follows.
pub open spec fn skip_word(s: Seq<char>, i: int) -> int
    decreases s.len() - i,
{
    if 0 <= i < s.len() && !is_space(s[i]) {
        skip_word(s, i + 1)
    } else {
        i
    }
}

/// The first word of `s`: its first run of characters that are not white
/// space, taken as far as it goes. `None` where `s` is empty or all white
/// space.
pub open spec fn first_word(s: Seq<char>) -> Option<Seq<char>> {
    let from = skip_spaces(s, 0);
    if from < s.len() {
        Some(s.subrange(from, skip_word(s, from)))
    } else {
        None
    }
}

/// What follows the first word of `s`.
pub open spec fn after_first_word(s: Seq<char>) -> Seq<char> {
    s.skip(skip_word(s, skip_spaces(s, 0)))
}

/// The second word of `s`, if it has two.
pub open spec fn second_word(s: Seq<char>) -> Option<Seq<char>> {
    first_word(after_first_word(s))
}

pub(crate) proof fn lemma_skip_spaces_bounds(s: Seq<char>, i: int)
    requires
        0 <= i <= s.len(),
    ensures
        i <= skip_spaces(s, i) <= s.len(),
        forall|k: int| i <= k < skip_spaces(s, i) ==> is_space(#[trigger] s[k]),
        skip_spaces(s, i) < s.len() ==> !is_space(s[skip_spaces(s, i)]),
    decreases s.len() - i,
{
    if i < s.len() && is_space(s[i]) {
        lemma_skip_spaces_bounds(s, i + 1);
    }
}

pub(crate) proof fn lemma_skip_word_bounds(s: Seq<char>, i: int)
    requires
        0 <= i <= s.len(),
    ensures
        i <= skip_word(s, i) <= s.len(),
        forall|k: int| i <= k < skip_word(s, i) ==> !is_space(#[trigger] s[k]),
        skip_word(s, i) < s.len() ==> is_space(s[skip_word(s, i)]),
    decreases s.len() - i,
{
    if i < s.len() && !is_space(s[i]) {
        lemma_skip_word_bounds(s, i + 1);
    }
}

/// A run of white space that ends at `j` is the run that `skip_spaces`
/// passes.
pub(crate) proof fn lemma_skip_spaces_is(s: Seq<char>, i: int, j: int)
    requires
        0 <= i <= j <= s.len(),
        forall|k: int| i <= k < j ==> is_space(#[trigger] s[k]),
        j == s.len() || !is_space(s[j]),
    ensures
        skip_spaces(s, i) == j,
    decreases j - i,
{
    if i < j {
        lemma_skip_spaces_is(s, i + 1, j);
    }
}

/// A run without white space that ends at `j` is the run that `skip_word`
/// passes.
pub(crate) proof fn lemma_skip_word_is(s: Seq<char>, i: int, j: int)
    requires
        0 <= i <= j <= s.len(),
        forall|k: int| i <= k < j ==> !is_space(#[trigger] s[k]),
        j == s.len() || is_space(s[j]),
    ensures
        skip_word(s, i) == j,
    decreases j - i,
{
    if i < j {
        lemma_skip_word_is(s, i + 1, j);
    }
}

/// A word holds at least one character.
pub(crate) proof fn lemma_first_word_is_not_empty(s: Seq<char>)
    ensures
        first_word(s) matches Some(word) ==> word.len() > 0 && forall|k: int|
            0 <= k < word.len() ==> !is_space(#[trigger] word[k]),
{
    lemma_skip_spaces_bounds(s, 0);
    let from = skip_spaces(s, 0);
    if from < s.len() {
        lemma_skip_word_bounds(s, from);
    }
}

/// Skipping in a tail of `s` is skipping in `s`, shifted.
pub(crate) proof fn lemma_skip_in_tail(s: Seq<char>, n: int, i: int)
    requires
        0 <= n <= s.len(),
        0 <= i <= s.len() - n,
    ensures
        skip_spaces(s.skip(n), i) == skip_spaces(s, n + i) - n,
        skip_word(s.skip(n), i) == skip_word(s, n + i) - n,
    decreases s.len() - n - i,
{
    if i < s.len() - n {
        assert(s.skip(n)[i] == s[n + i]);
        lemma_skip_in_tail(s, n, i + 1);
    }
}

/// Whether `c` is white space, as `char::is_whitespace` tells it.
pub fn is_whitespace(c: char) -> (r: bool)
    ensures
        r == is_space(c),
{
    let u = c as u32;
    (0x09 <= u && u <= 0x0d) || u == 0x20 || u == 0x85 || u == 0xa0 || u == 0x1680 || (0x2000 <= u
        && u <= 0x200a) || u == 0x2028 || u == 0x2029 || u == 0x202f || u == 0x205f || u == 0x3000
}

/// The characters of `s`, one by one.
pub fn chars_of(s: &str) -> (v: Vec<char>)
    ensures
        v@ == s@,
{
    let mut v: Vec<char> = Vec::new();
    for c in it: s.chars()
        invariant
            it.seq() == s@,
            v@ == s@.take(it.index() as int),
    {
        v.push(c);
    }
    assert(s@.take(s@.len() as int) == s@);
    v
}

/// Skips white space from `start` on.
pub fn skip_spaces_from(s: &Vec<char>, start: usize) -> (end: usize)
    requires
        start <= s.len(),
    ensures
        end == skip_spaces(s@, start as int),
        start <= end <= s.len(),
{
    let mut i = start;
    while i < s.len() && is_whitespace(s[i])
        invariant
            start <= i <= s.len(),
            skip_spaces(s@, start as int) == skip_spaces(s@, i as int),
        decreases s.len() - i,
    {
        i = i + 1;
    }
    i
}

/// Skips what is not white space from `start` on.
pub fn skip_word_from(s: &Vec<char>, start: usize) -> (end: usize)
    requires
        start <= s.len(),
    ensures
        end == skip_word(s@, start as int),
        start <= end <= s.len(),
{
    let mut i = start;
    while i < s.len() && !is_whitespace(s[i])
        invariant
            start <= i <= s.len(),
            skip_word(s@, start as int) == skip_word(s@, i as int),
        decreases s.len() - i,
    {
        i = i + 1;
    }
    i
}

} // verus!
