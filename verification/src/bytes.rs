//! Runs of bytes: where one stands in another, how one is appended to
//! another, and whether two are the same.

use vstd::prelude::*;

verus! {

/// Whether `x` stands in `s` from position `i` on.
#[verifier::opaque]
pub open spec fn has_at(s: Seq<u8>, i: int, x: Seq<u8>) -> bool {
    0 <= i && i + x.len() <= s.len() && s.subrange(i, i + x.len()) == x
}

/// The position behind `x` where `x` stands in `s` from position `i` on.
pub open spec fn literal_at(s: Seq<u8>, i: int, x: Seq<u8>) -> Option<int> {
    if has_at(s, i, x) {
        Some(i + x.len())
    } else {
        None
    }
}

pub(crate) proof fn lemma_has_at_index(s: Seq<u8>, i: int, x: Seq<u8>, k: int)
    requires
        has_at(s, i, x),
        0 <= k < x.len(),
    ensures
        s[i + k] == x[k],
        0 <= i,
        i + x.len() <= s.len(),
{
    reveal(has_at);
    assert(s.subrange(i, i + x.len())[k] == s[i + k]);
}

/// A text that stands at `i` stands there part by part.
pub(crate) proof fn lemma_has_at_split(s: Seq<u8>, i: int, x: Seq<u8>, y: Seq<u8>)
    requires
        has_at(s, i, x + y),
    ensures
        has_at(s, i, x),
        has_at(s, i + x.len(), y),
{
    reveal(has_at);
    let whole = s.subrange(i, i + (x + y).len());
    assert(s.subrange(i, i + x.len()) =~= whole.subrange(0, x.len() as int));
    assert(whole.subrange(0, x.len() as int) =~= x);
    assert(s.subrange(i + x.len(), i + x.len() + y.len()) =~= whole.subrange(
        x.len() as int,
        (x + y).len() as int,
    ));
    assert(whole.subrange(x.len() as int, (x + y).len() as int) =~= y);
}

/// A text stands in itself from the start on.
pub(crate) proof fn lemma_has_at_whole(s: Seq<u8>)
    ensures
        has_at(s, 0, s),
{
    reveal(has_at);
    assert(s.subrange(0, s.len() as int) =~= s);
}

/// Where a text stands, there is room for it.
pub(crate) proof fn lemma_has_at_bounds(s: Seq<u8>, i: int, x: Seq<u8>)
    requires
        has_at(s, i, x),
    ensures
        0 <= i,
        i + x.len() <= s.len(),
{
    reveal(has_at);
}

/// Appends `bytes` to `out`.
pub fn write_bytes(out: &mut Vec<u8>, bytes: &[u8])
    ensures
        final(out)@ == old(out)@ + bytes@,
{
    let mut i: usize = 0;
    while i < bytes.len()
        invariant
            i <= bytes.len(),
            out@ == old(out)@ + bytes@.take(i as int),
        decreases bytes.len() - i,
    {
        out.push(bytes[i]);
        i = i + 1;
        assert(bytes@.take(i as int) =~= bytes@.take(i - 1).push(bytes@[i - 1]));
    }
    assert(bytes@.take(bytes.len() as int) =~= bytes@);
}

/// Whether `a` and `b` hold the same bytes. For two runs of one length the
/// work done does not depend on where they differ.
pub fn same_bytes(a: &[u8], b: &[u8]) -> (same: bool)
    ensures
        same == (a@ == b@),
{
    if a.len() != b.len() {
        return false;
    }
    let mut difference: u8 = 0;
    let mut i: usize = 0;
    assert(a@.take(0) =~= b@.take(0));
    while i < a.len()
        invariant
            i <= a.len(),
            a.len() == b.len(),
            difference == 0 <==> a@.take(i as int) == b@.take(i as int),
        decreases a.len() - i,
    {
        let x = a[i];
        let y = b[i];
        let ghost before = difference;
        difference = difference | (x ^ y);
        assert(difference == 0 <==> (before == 0 && x == y)) by (bit_vector)
            requires
                difference == before | (x ^ y),
        ;
        i = i + 1;
        proof {
            assert(a@.take(i as int) =~= a@.take(i - 1).push(x));
            assert(b@.take(i as int) =~= b@.take(i - 1).push(y));
            if a@.take(i as int) == b@.take(i as int) {
                assert(a@.take(i as int)[i - 1] == b@.take(i as int)[i - 1]);
                assert(a@.take(i - 1) =~= a@.take(i as int).take(i - 1));
                assert(b@.take(i - 1) =~= b@.take(i as int).take(i - 1));
            }
        }
    }
    proof {
        assert(a@.take(a.len() as int) =~= a@);
        assert(b@.take(b.len() as int) =~= b@);
    }
    difference == 0
}

/// Whether `x` stands in `s` from position `i` on, and where it ends.
pub fn read_literal(s: &[u8], i: usize, x: &[u8]) -> (r: Option<usize>)
    ensures
        match r {
            Some(end) => literal_at(s@, i as int, x@) == Some(end as int),
            None => literal_at(s@, i as int, x@) is None,
        },
{
    proof {
        reveal(has_at);
    }
    if i > s.len() || s.len() - i < x.len() {
        return None;
    }
    let mut k: usize = 0;
    while k < x.len()
        invariant
            k <= x.len(),
            i + x.len() <= s.len(),
            s@.subrange(i as int, i + k) == x@.take(k as int),
        decreases x.len() - k,
    {
        if s[i + k] != x[k] {
            proof {
                if has_at(s@, i as int, x@) {
                    lemma_has_at_index(s@, i as int, x@, k as int);
                }
            }
            return None;
        }
        k = k + 1;
        proof {
            assert(s@.subrange(i as int, i + k) =~= s@.subrange(i as int, i + k - 1).push(
                s@[i + k - 1],
            ));
            assert(x@.take(k as int) =~= x@.take(k - 1).push(x@[k - 1]));
        }
    }
    proof {
        assert(x@.take(x.len() as int) =~= x@);
    }
    Some(i + x.len())
}

} // verus!
