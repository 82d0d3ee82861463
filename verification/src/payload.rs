//! The payload of a token: the claims as one JSON object with the members
//! `iat`, `exp`, `sub`, `user_id` and `user_name`, in this order and without
//! white space.

use crate::bytes::{
    has_at, lemma_has_at_bounds, lemma_has_at_index, lemma_has_at_split, lemma_has_at_whole,
    literal_at, read_literal, same_bytes, write_bytes,
};
use crate::decimal::{int_at, int_text, lemma_int_at_int_text, read_int, write_int};
use crate::escape::{escaped, lemma_text_at_escaped, read_text, text_at, write_escaped};
use crate::jwt::{ApiClaims, ClaimsView};
use crate::primitives::string_from_utf8;
use vstd::prelude::*;
use vstd::string::StringSliceAdditionalSpecFns;
use vstd::utf8::{decode_utf8, encode_utf8, valid_utf8};

verus! {

/// A text as it is written behind its opening quote: its UTF-8 bytes,
/// escaped, and the closing quote.
pub open spec fn closed_text(t: Seq<char>) -> Seq<u8> {
    escaped(encode_utf8(t)) + seq![0x22_u8]
}

/// The payload that carries the claims `c`.
pub open spec fn payload_bytes(c: ClaimsView) -> Seq<u8> {
    "{\"iat\":".spec_bytes() + int_text(c.iat as int)
        + ",\"exp\":".spec_bytes() + int_text(c.exp as int)
        + ",\"sub\":\"".spec_bytes() + closed_text(c.sub)
        + ",\"user_id\":\"".spec_bytes() + closed_text(c.user_id)
        + ",\"user_name\":\"".spec_bytes() + closed_text(c.user_name)
        + "}".spec_bytes()
}

/// The valid claims that the payload `bytes` carries: those whose payload
/// it is. `None` where it is the payload of none.
pub open spec fn payload_claims(bytes: Seq<u8>) -> Option<ClaimsView> {
    if exists|c: ClaimsView| c.valid() && payload_bytes(c) == bytes {
        Some(choose|c: ClaimsView| c.valid() && payload_bytes(c) == bytes)
    } else {
        None
    }
}

/// The five members of a payload as they are read, the texts still as bytes.
struct Members {
    iat: i64,
    exp: i64,
    sub: Seq<u8>,
    user_id: Seq<u8>,
    user_name: Seq<u8>,
}

/// The members of the claims `c`.
spec fn members_of(c: ClaimsView) -> Members {
    Members {
        iat: c.iat,
        exp: c.exp,
        sub: encode_utf8(c.sub),
        user_id: encode_utf8(c.user_id),
        user_name: encode_utf8(c.user_name),
    }
}

/// The number behind the name that ends at `at`, if a name ends there.
spec fn int_behind(s: Seq<u8>, at: Option<int>) -> Option<(i64, int)> {
    match at {
        Some(i) => int_at(s, i),
        None => None,
    }
}

/// The text behind the name that ends at `at`, if a name ends there.
spec fn text_behind(s: Seq<u8>, at: Option<int>) -> Option<(Seq<u8>, int)> {
    match at {
        Some(i) => text_at(s, i),
        None => None,
    }
}

/// Where `name` ends, if it stands behind what was read last.
spec fn name_behind<T>(s: Seq<u8>, read: Option<(T, int)>, name: Seq<u8>) -> Option<int> {
    match read {
        Some((_, i)) => literal_at(s, i, name),
        None => None,
    }
}

/// What reading `s` from its first byte to its last finds: the members, one
/// after the other, each behind its name.
spec fn members_at(s: Seq<u8>) -> Option<Members> {
    let iat = int_behind(s, literal_at(s, 0, "{\"iat\":".spec_bytes()));
    let exp = int_behind(s, name_behind(s, iat, ",\"exp\":".spec_bytes()));
    let sub = text_behind(s, name_behind(s, exp, ",\"sub\":\"".spec_bytes()));
    let user_id = text_behind(s, name_behind(s, sub, ",\"user_id\":\"".spec_bytes()));
    let user_name = text_behind(s, name_behind(s, user_id, ",\"user_name\":\"".spec_bytes()));
    if name_behind(s, user_name, "}".spec_bytes()) == Some(s.len() as int) {
        Some(
            Members {
                iat: iat.unwrap().0,
                exp: exp.unwrap().0,
                sub: sub.unwrap().0,
                user_id: user_id.unwrap().0,
                user_name: user_name.unwrap().0,
            },
        )
    } else {
        None
    }
}

/// The name of a member begins with a comma, which is no digit.
proof fn lemma_names_begin_with_comma()
    ensures
        ",\"exp\":".spec_bytes().len() > 0,
        ",\"exp\":".spec_bytes()[0] == 0x2c,
        ",\"sub\":\"".spec_bytes().len() > 0,
        ",\"sub\":\"".spec_bytes()[0] == 0x2c,
{
    broadcast use vstd::string::is_ascii_spec_bytes;

    reveal_strlit(",\"exp\":");
    reveal_strlit(",\"sub\":\"");
    assert(vstd::string::is_ascii(",\"exp\":"));
    assert(vstd::string::is_ascii(",\"sub\":\""));
}

/// A name that stands before something is read as that name.
proof fn lemma_literal_then(s: Seq<u8>, i: int, name: Seq<u8>, rest: Seq<u8>)
    requires
        has_at(s, i, name + rest),
    ensures
        literal_at(s, i, name) == Some(i + name.len()),
        has_at(s, i + name.len(), rest),
{
    lemma_has_at_split(s, i, name, rest);
}

/// A number that stands before something that begins with a comma is read
/// as that number.
proof fn lemma_int_then(s: Seq<u8>, i: int, n: i64, rest: Seq<u8>)
    requires
        has_at(s, i, int_text(n as int) + rest),
        rest.len() > 0,
        rest[0] == 0x2c,
    ensures
        int_at(s, i) == Some((n, i + int_text(n as int).len())),
        has_at(s, i + int_text(n as int).len(), rest),
{
    lemma_has_at_split(s, i, int_text(n as int), rest);
    lemma_has_at_index(s, i + int_text(n as int).len(), rest, 0);
    lemma_int_at_int_text(s, i, n);
}

/// A text that stands before something is read as that text.
proof fn lemma_text_then(s: Seq<u8>, i: int, t: Seq<char>, rest: Seq<u8>)
    requires
        has_at(s, i, closed_text(t) + rest),
    ensures
        text_at(s, i) == Some((encode_utf8(t), i + closed_text(t).len())),
        has_at(s, i + closed_text(t).len(), rest),
{
    lemma_has_at_split(s, i, closed_text(t), rest);
    lemma_text_at_escaped(s, i, encode_utf8(t));
}

/// The payload of `c` from its second member on.
spec fn from_exp(c: ClaimsView) -> Seq<u8> {
    ",\"exp\":".spec_bytes() + (int_text(c.exp as int) + from_sub(c))
}

/// The payload of `c` from its third member on.
spec fn from_sub(c: ClaimsView) -> Seq<u8> {
    ",\"sub\":\"".spec_bytes() + (closed_text(c.sub) + from_user_id(c))
}

/// The payload of `c` from its fourth member on.
spec fn from_user_id(c: ClaimsView) -> Seq<u8> {
    ",\"user_id\":\"".spec_bytes() + (closed_text(c.user_id) + from_user_name(c))
}

/// The payload of `c` from its last member on.
spec fn from_user_name(c: ClaimsView) -> Seq<u8> {
    ",\"user_name\":\"".spec_bytes() + (closed_text(c.user_name) + "}".spec_bytes())
}

/// The payload of `c`, member by member.
proof fn lemma_payload_by_members(c: ClaimsView)
    ensures
        payload_bytes(c) == "{\"iat\":".spec_bytes() + (int_text(c.iat as int) + from_exp(c)),
{
    let l0 = "{\"iat\":".spec_bytes();
    let i0 = int_text(c.iat as int);
    let l1 = ",\"exp\":".spec_bytes();
    let i1 = int_text(c.exp as int);
    let l2 = ",\"sub\":\"".spec_bytes();
    let t0 = closed_text(c.sub);
    let l3 = ",\"user_id\":\"".spec_bytes();
    let t1 = closed_text(c.user_id);
    let l4 = ",\"user_name\":\"".spec_bytes();
    let t2 = closed_text(c.user_name);
    let l5 = "}".spec_bytes();
    let r9 = t2 + l5;
    let r8 = l4 + r9;
    let r7 = t1 + r8;
    let r6 = l3 + r7;
    let r5 = t0 + r6;
    let r4 = l2 + r5;
    let r3 = i1 + r4;
    let r2 = l1 + r3;
    let r1 = i0 + r2;
    let x1 = l0 + i0;
    let x2 = x1 + l1;
    let x3 = x2 + i1;
    let x4 = x3 + l2;
    let x5 = x4 + t0;
    let x6 = x5 + l3;
    let x7 = x6 + t1;
    let x8 = x7 + l4;
    lemma_join_in_steps(x8, t2, l5);
    lemma_join_in_steps(x7, l4, r9);
    lemma_join_in_steps(x6, t1, r8);
    lemma_join_in_steps(x5, l3, r7);
    lemma_join_in_steps(x4, t0, r6);
    lemma_join_in_steps(x3, l2, r5);
    lemma_join_in_steps(x2, i1, r4);
    lemma_join_in_steps(x1, l1, r3);
    lemma_join_in_steps(l0, i0, r2);
}

/// Joining is associative.
proof fn lemma_join_in_steps(a: Seq<u8>, b: Seq<u8>, c: Seq<u8>)
    ensures
        a + b + c == a + (b + c),
{
    assert(a + b + c =~= a + (b + c));
}

/// Reading the payload of `c` finds the members of `c`.
proof fn lemma_members_at_payload(c: ClaimsView)
    ensures
        members_at(payload_bytes(c)) == Some(members_of(c)),
{
    let s = payload_bytes(c);
    let l0 = "{\"iat\":".spec_bytes();
    let l1 = ",\"exp\":".spec_bytes();
    let l2 = ",\"sub\":\"".spec_bytes();
    let l3 = ",\"user_id\":\"".spec_bytes();
    let l4 = ",\"user_name\":\"".spec_bytes();
    let l5 = "}".spec_bytes();
    lemma_payload_by_members(c);
    lemma_names_begin_with_comma();
    lemma_has_at_whole(s);
    lemma_literal_then(s, 0, l0, int_text(c.iat as int) + from_exp(c));
    let at_iat = l0.len() as int;
    lemma_int_then(s, at_iat, c.iat, from_exp(c));
    let after_iat = at_iat + int_text(c.iat as int).len();
    lemma_literal_then(s, after_iat, l1, int_text(c.exp as int) + from_sub(c));
    let at_exp = after_iat + l1.len();
    lemma_int_then(s, at_exp, c.exp, from_sub(c));
    let after_exp = at_exp + int_text(c.exp as int).len();
    lemma_literal_then(s, after_exp, l2, closed_text(c.sub) + from_user_id(c));
    let at_sub = after_exp + l2.len();
    lemma_text_then(s, at_sub, c.sub, from_user_id(c));
    let after_sub = at_sub + closed_text(c.sub).len();
    lemma_literal_then(s, after_sub, l3, closed_text(c.user_id) + from_user_name(c));
    let at_user_id = after_sub + l3.len();
    lemma_text_then(s, at_user_id, c.user_id, from_user_name(c));
    let after_user_id = at_user_id + closed_text(c.user_id).len();
    lemma_literal_then(s, after_user_id, l4, closed_text(c.user_name) + l5);
    let at_user_name = after_user_id + l4.len();
    lemma_text_then(s, at_user_name, c.user_name, l5);
    let after_user_name = at_user_name + closed_text(c.user_name).len();
    lemma_has_at_bounds(s, after_user_name, l5);
    assert(s.len() == l0.len() + int_text(c.iat as int).len() + from_exp(c).len());
    assert(after_user_name + l5.len() == s.len());
}

/// No two claims share a payload.
proof fn lemma_payload_bytes_injective(a: ClaimsView, b: ClaimsView)
    requires
        payload_bytes(a) == payload_bytes(b),
    ensures
        a == b,
{
    broadcast use vstd::utf8::encode_utf8_decode_utf8;

    lemma_members_at_payload(a);
    lemma_members_at_payload(b);
    assert(members_of(a) == members_of(b));
    assert(decode_utf8(encode_utf8(a.sub)) == a.sub);
    assert(decode_utf8(encode_utf8(b.sub)) == b.sub);
    assert(decode_utf8(encode_utf8(a.user_id)) == a.user_id);
    assert(decode_utf8(encode_utf8(b.user_id)) == b.user_id);
    assert(decode_utf8(encode_utf8(a.user_name)) == a.user_name);
    assert(decode_utf8(encode_utf8(b.user_name)) == b.user_name);
}

/// The payload of valid claims carries these claims.
pub(crate) proof fn lemma_payload_claims_of_payload(c: ClaimsView)
    requires
        c.valid(),
    ensures
        payload_claims(payload_bytes(c)) == Some(c),
{
    let found = choose|d: ClaimsView| d.valid() && payload_bytes(d) == payload_bytes(c);
    lemma_payload_bytes_injective(found, c);
}

/// The payload that carries `claims`.
pub fn write_payload(claims: &ApiClaims) -> (bytes: Vec<u8>)
    ensures
        bytes@ == payload_bytes(claims@),
{
    let mut out: Vec<u8> = Vec::new();
    write_bytes(&mut out, "{\"iat\":".as_bytes());
    write_int(&mut out, claims.issued_at());
    write_bytes(&mut out, ",\"exp\":".as_bytes());
    write_int(&mut out, claims.expires_at());
    write_bytes(&mut out, ",\"sub\":\"".as_bytes());
    write_escaped(&mut out, claims.subject().as_bytes());
    out.push(0x22);
    write_bytes(&mut out, ",\"user_id\":\"".as_bytes());
    write_escaped(&mut out, claims.user_id().as_bytes());
    out.push(0x22);
    write_bytes(&mut out, ",\"user_name\":\"".as_bytes());
    write_escaped(&mut out, claims.user_name().as_bytes());
    out.push(0x22);
    write_bytes(&mut out, "}".as_bytes());
    assert(out@ =~= payload_bytes(claims@));
    out
}

/// The members as they are read, before the texts are checked.
struct RawMembers {
    iat: i64,
    exp: i64,
    sub: Vec<u8>,
    user_id: Vec<u8>,
    user_name: Vec<u8>,
}

impl RawMembers {
    spec fn members(&self) -> Members {
        Members {
            iat: self.iat,
            exp: self.exp,
            sub: self.sub@,
            user_id: self.user_id@,
            user_name: self.user_name@,
        }
    }
}

/// Reads the members that `s` holds from its first byte to its last.
fn read_members(s: &[u8]) -> (r: Option<RawMembers>)
    ensures
        match r {
            Some(raw) => members_at(s@) == Some(raw.members()),
            None => members_at(s@) is None,
        },
{
    let at_iat = read_literal(s, 0, "{\"iat\":".as_bytes())?;
    let (iat, after_iat) = read_int(s, at_iat)?;
    let at_exp = read_literal(s, after_iat, ",\"exp\":".as_bytes())?;
    let (exp, after_exp) = read_int(s, at_exp)?;
    let at_sub = read_literal(s, after_exp, ",\"sub\":\"".as_bytes())?;
    let (sub, after_sub) = read_text(s, at_sub)?;
    let at_user_id = read_literal(s, after_sub, ",\"user_id\":\"".as_bytes())?;
    let (user_id, after_user_id) = read_text(s, at_user_id)?;
    let at_user_name = read_literal(s, after_user_id, ",\"user_name\":\"".as_bytes())?;
    let (user_name, after_user_name) = read_text(s, at_user_name)?;
    let end = read_literal(s, after_user_name, "}".as_bytes())?;
    if end == s.len() {
        Some(RawMembers { iat, exp, sub, user_id, user_name })
    } else {
        None
    }
}

/// The claims that the payload `bytes` carries. A payload is accepted in
/// the one form that `write_payload` gives it, and only with an expiry
/// after the issue.
pub fn read_payload(bytes: &[u8]) -> (r: Option<ApiClaims>)
    ensures
        match r {
            Some(claims) => payload_claims(bytes@) == Some(claims@),
            None => payload_claims(bytes@) is None,
        },
{
    proof {
        assert forall|c: ClaimsView| payload_bytes(c) == bytes@ implies members_at(bytes@) == Some(
            members_of(c),
        ) by {
            lemma_members_at_payload(c);
        }
        assert forall|c: ClaimsView| #![trigger encode_utf8(c.sub)]
            valid_utf8(encode_utf8(c.sub)) && decode_utf8(encode_utf8(c.sub)) == c.sub
                && valid_utf8(encode_utf8(c.user_id)) && decode_utf8(encode_utf8(c.user_id))
                == c.user_id && valid_utf8(encode_utf8(c.user_name)) && decode_utf8(
                encode_utf8(c.user_name),
            ) == c.user_name by {
            broadcast use vstd::utf8::encode_utf8_decode_utf8;
            broadcast use vstd::utf8::encode_utf8_valid_utf8;

        }
    }
    let raw = read_members(bytes)?;
    let iat = raw.iat;
    let exp = raw.exp;
    let sub = string_from_utf8(raw.sub)?;
    let user_id = string_from_utf8(raw.user_id)?;
    let user_name = string_from_utf8(raw.user_name)?;
    if iat >= exp {
        return None;
    }
    let claims = ApiClaims::from_parts(iat, exp, sub, user_id, user_name);
    let again = write_payload(&claims);
    if same_bytes(again.as_slice(), bytes) {
        proof {
            lemma_payload_claims_of_payload(claims@);
        }
        Some(claims)
    } else {
        None
    }
}

} // verus!
