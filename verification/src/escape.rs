//! Texts between double quotes: which bytes are written with a backslash,
//! and how such a text is read back.

use crate::bytes::{has_at, lemma_has_at_index, lemma_has_at_split};
use vstd::prelude::*;

verus! {

/// The lower-case hexadecimal digit for `v`.
pub open spec fn hex_digit(v: u8) -> u8 {
    if v < 10 {
        (0x30 + v) as u8
    } else {
        (0x57 + v) as u8
    }
}

/// The value of the hexadecimal digit `b`, lower case only.
pub open spec fn hex_value(b: u8) -> Option<u8> {
    if 0x30 <= b <= 0x39 {
        Some((b - 0x30) as u8)
    } else if 0x61 <= b <= 0x66 {
        Some((b - 0x57) as u8)
    } else {
        None
    }
}

/// How one byte of a text is written between quotes: the quote and the
/// backslash behind a backslash, the control characters by their letter or
/// as `\u00` and two hexadecimal digits, every other byte as it is.
pub open spec fn escape_byte(b: u8) -> Seq<u8> {
    if b == 0x22 {
        seq![0x5c_u8, 0x22_u8]
    } else if b == 0x5c {
        seq![0x5c_u8, 0x5c_u8]
    } else if b == 0x08 {
        seq![0x5c_u8, 0x62_u8]
    } else if b == 0x0c {
        seq![0x5c_u8, 0x66_u8]
    } else if b == 0x0a {
        seq![0x5c_u8, 0x6e_u8]
    } else if b == 0x0d {
        seq![0x5c_u8, 0x72_u8]
    } else if b == 0x09 {
        seq![0x5c_u8, 0x74_u8]
    } else if b < 0x20 {
        seq![0x5c_u8, 0x75_u8, 0x30_u8, 0x30_u8, hex_digit(b / 16), hex_digit(b % 16)]
    } else {
        seq![b]
    }
}

/// How a text is written between quotes, byte by byte.
pub open spec fn escaped(s: Seq<u8>) -> Seq<u8>
    decreases s.len(),
{
    if s.len() == 0 {
        Seq::empty()
    } else {
        escape_byte(s[0]) + escaped(s.drop_first())
    }
}

/// The byte that is written at position `i` of `s`, with the position
/// behind it. `None` where a backslash is followed by nothing that
/// `escape_byte` writes.
pub open spec fn byte_at(s: Seq<u8>, i: int) -> Option<(u8, int)> {
    if !(0 <= i < s.len()) {
        None
    } else if s[i] != 0x5c {
        Some((s[i], i + 1))
    } else if i + 1 >= s.len() {
        None
    } else if s[i + 1] == 0x22 {
        Some((0x22_u8, i + 2))
    } else if s[i + 1] == 0x5c {
        Some((0x5c_u8, i + 2))
    } else if s[i + 1] == 0x62 {
        Some((0x08_u8, i + 2))
    } else if s[i + 1] == 0x66 {
        Some((0x0c_u8, i + 2))
    } else if s[i + 1] == 0x6e {
        Some((0x0a_u8, i + 2))
    } else if s[i + 1] == 0x72 {
        Some((0x0d_u8, i + 2))
    } else if s[i + 1] == 0x74 {
        Some((0x09_u8, i + 2))
    } else if s[i + 1] == 0x75 && i + 6 <= s.len() && s[i + 2] == 0x30 && s[i + 3] == 0x30 {
        match (hex_value(s[i + 4]), hex_value(s[i + 5])) {
            (Some(high), Some(low)) => Some(((high * 16 + low) as u8, i + 6)),
            _ => None,
        }
    } else {
        None
    }
}

/// The text that is written from position `i` of `s` up to the next quote
/// that ends it, with the position behind that quote.
pub open spec fn text_at(s: Seq<u8>, i: int) -> Option<(Seq<u8>, int)>
    decreases s.len() - i,
{
    if !(0 <= i < s.len()) {
        None
    } else if s[i] == 0x22 {
        Some((Seq::empty(), i + 1))
    } else {
        match byte_at(s, i) {
            None => None,
            Some((b, next)) => match text_at(s, next) {
                None => None,
                Some((rest, end)) => Some((seq![b] + rest, end)),
            },
        }
    }
}

/// `text_at` with `front` put before the text that it finds.
spec fn text_after(front: Seq<u8>, s: Seq<u8>, i: int) -> Option<(Seq<u8>, int)> {
    match text_at(s, i) {
        None => None,
        Some((rest, end)) => Some((front + rest, end)),
    }
}

/// What `escape_byte` writes for `b` reads back as `b`.
pub(crate) proof fn lemma_byte_at_escape_byte(s: Seq<u8>, i: int, b: u8)
    requires
        has_at(s, i, escape_byte(b)),
    ensures
        byte_at(s, i) == Some((b, i + escape_byte(b).len())),
        s[i] != 0x22,
{
    let e = escape_byte(b);
    lemma_has_at_index(s, i, e, 0);
    if e.len() >= 2 {
        lemma_has_at_index(s, i, e, 1);
    }
    if e.len() == 6 {
        lemma_has_at_index(s, i, e, 2);
        lemma_has_at_index(s, i, e, 3);
        lemma_has_at_index(s, i, e, 4);
        lemma_has_at_index(s, i, e, 5);
        assert(b < 0x20);
        assert(hex_value(hex_digit(b / 16)) == Some(b / 16));
        assert(hex_value(hex_digit(b % 16)) == Some(b % 16));
    }
}

/// A text written between quotes reads back as it was, up to the quote that
/// ends it.
pub(crate) proof fn lemma_text_at_escaped(s: Seq<u8>, i: int, t: Seq<u8>)
    requires
        has_at(s, i, escaped(t) + seq![0x22_u8]),
    ensures
        text_at(s, i) == Some((t, i + escaped(t).len() + 1)),
    decreases t.len(),
{
    lemma_has_at_split(s, i, escaped(t), seq![0x22_u8]);
    if t.len() == 0 {
        lemma_has_at_index(s, i, seq![0x22_u8], 0);
        assert(text_at(s, i).unwrap().0 =~= t);
    } else {
        let head = escape_byte(t[0]);
        let tail = escaped(t.drop_first());
        assert(escaped(t) + seq![0x22_u8] =~= head + (tail + seq![0x22_u8]));
        lemma_has_at_split(s, i, head, tail + seq![0x22_u8]);
        lemma_byte_at_escape_byte(s, i, t[0]);
        lemma_text_at_escaped(s, i + head.len(), t.drop_first());
        assert(seq![t[0]] + t.drop_first() =~= t);
    }
}

fn hex_digit_of(v: u8) -> (d: u8)
    requires
        v < 16,
    ensures
        d == hex_digit(v),
{
    if v < 10 {
        0x30 + v
    } else {
        0x57 + v
    }
}

fn hex_value_of(b: u8) -> (v: Option<u8>)
    ensures
        match v {
            Some(x) => hex_value(b) == Some(x) && x < 16,
            None => hex_value(b) is None,
        },
{
    if 0x30 <= b && b <= 0x39 {
        Some(b - 0x30)
    } else if 0x61 <= b && b <= 0x66 {
        Some(b - 0x57)
    } else {
        None
    }
}

fn write_escaped_byte(out: &mut Vec<u8>, b: u8)
    ensures
        final(out)@ == old(out)@ + escape_byte(b),
{
    if b == 0x22 || b == 0x5c {
        out.push(0x5c);
        out.push(b);
    } else if b == 0x08 {
        out.push(0x5c);
        out.push(0x62);
    } else if b == 0x0c {
        out.push(0x5c);
        out.push(0x66);
    } else if b == 0x0a {
        out.push(0x5c);
        out.push(0x6e);
    } else if b == 0x0d {
        out.push(0x5c);
        out.push(0x72);
    } else if b == 0x09 {
        out.push(0x5c);
        out.push(0x74);
    } else if b < 0x20 {
        out.push(0x5c);
        out.push(0x75);
        out.push(0x30);
        out.push(0x30);
        out.push(hex_digit_of(b / 16));
        out.push(hex_digit_of(b % 16));
    } else {
        out.push(b);
    }
    assert(out@ =~= old(out)@ + escape_byte(b));
}

/// Appends `bytes` to `out` as they are written between quotes.
pub fn write_escaped(out: &mut Vec<u8>, bytes: &[u8])
    ensures
        final(out)@ == old(out)@ + escaped(bytes@),
{
    let mut i: usize = 0;
    assert(bytes@.skip(0) =~= bytes@);
    while i < bytes.len()
        invariant
            i <= bytes.len(),
            out@ + escaped(bytes@.skip(i as int)) == old(out)@ + escaped(bytes@),
        decreases bytes.len() - i,
    {
        let ghost before = out@;
        write_escaped_byte(out, bytes[i]);
        proof {
            let rest = bytes@.skip(i as int);
            assert(rest.drop_first() =~= bytes@.skip(i + 1));
            assert(escaped(rest) == escape_byte(rest[0]) + escaped(rest.drop_first()));
            assert(out@ + escaped(bytes@.skip(i + 1)) =~= before + escaped(rest));
        }
        i = i + 1;
    }
    assert(out@ + escaped(bytes@.skip(i as int)) =~= out@);
}

/// Reads the byte that is written at position `i` of `s`.
fn read_byte(s: &[u8], i: usize) -> (r: Option<(u8, usize)>)
    ensures
        match r {
            Some((b, next)) => byte_at(s@, i as int) == Some((b, next as int)) && i < next
                <= s@.len(),
            None => byte_at(s@, i as int) is None,
        },
{
    if i >= s.len() {
        return None;
    }
    if s[i] != 0x5c {
        return Some((s[i], i + 1));
    }
    if s.len() - i < 2 {
        return None;
    }
    let letter = s[i + 1];
    if letter == 0x22 || letter == 0x5c {
        Some((letter, i + 2))
    } else if letter == 0x62 {
        Some((0x08, i + 2))
    } else if letter == 0x66 {
        Some((0x0c, i + 2))
    } else if letter == 0x6e {
        Some((0x0a, i + 2))
    } else if letter == 0x72 {
        Some((0x0d, i + 2))
    } else if letter == 0x74 {
        Some((0x09, i + 2))
    } else if letter == 0x75 && s.len() - i >= 6 && s[i + 2] == 0x30 && s[i + 3] == 0x30 {
        match (hex_value_of(s[i + 4]), hex_value_of(s[i + 5])) {
            (Some(high), Some(low)) => Some((high * 16 + low, i + 6)),
            _ => None,
        }
    } else {
        None
    }
}

/// Reads the text that is written from position `i` of `s` up to the quote
/// that ends it.
pub fn read_text(s: &[u8], i: usize) -> (r: Option<(Vec<u8>, usize)>)
    ensures
        match r {
            Some((t, end)) => text_at(s@, i as int) == Some((t@, end as int)) && end <= s@.len(),
            None => text_at(s@, i as int) is None,
        },
{
    let mut text: Vec<u8> = Vec::new();
    let mut j: usize = i;
    assert(text_after(text@, s@, j as int) == text_at(s@, i as int)) by {
        if text_at(s@, i as int) is Some {
            assert(text@ + text_at(s@, i as int).unwrap().0 =~= text_at(s@, i as int).unwrap().0);
        }
    }
    while j < s.len() && s[j] != 0x22
        invariant
            i <= j,
            text_after(text@, s@, j as int) == text_at(s@, i as int),
        decreases s@.len() - j,
    {
        match read_byte(s, j) {
            None => {
                return None;
            },
            Some((b, next)) => {
                proof {
                    let ghost front = text@;
                    if text_at(s@, next as int) is Some {
                        let rest = text_at(s@, next as int).unwrap().0;
                        assert(front + (seq![b] + rest) =~= front.push(b) + rest);
                    }
                }
                text.push(b);
                j = next;
            },
        }
    }
    if j >= s.len() {
        return None;
    }
    proof {
        assert(text@ + Seq::<u8>::empty() =~= text@);
    }
    Some((text, j + 1))
}

} // verus!
