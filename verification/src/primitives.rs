//! What the library takes from other crates and from `std` without proof:
//! the clock, base64, HMAC-SHA256 and the UTF-8 check. Each function here
//! makes one such step; its contract is believed, not verified.

use base64::Engine;
use vstd::prelude::*;
use vstd::utf8::{decode_utf8, valid_utf8};

verus! {

/// The text that base64 gives for `bytes`, in the URL-safe alphabet and
/// without padding (RFC 4648, section 5).
pub uninterp spec fn base64url_text(bytes: Seq<u8>) -> Seq<char>;

/// The bytes that `text` stands for in unpadded URL-safe base64, or `None`
/// where `text` is not such a text.
pub uninterp spec fn base64url_bytes(text: Seq<char>) -> Option<Seq<u8>>;

/// The HMAC (RFC 2104) of `message` under `key`, with SHA-256 as the hash.
pub uninterp spec fn hmac_sha256(key: Seq<u8>, message: Seq<u8>) -> Seq<u8>;

/// The characters of the URL-safe base64 alphabet.
pub open spec fn is_base64url_char(c: char) -> bool {
    ||| 'A' <= c <= 'Z'
    ||| 'a' <= c <= 'z'
    ||| '0' <= c <= '9'
    ||| c == '-'
    ||| c == '_'
}

/// The longest input whose base64 text can still be allocated.
pub open spec fn base64url_fits(len: nat) -> bool {
    len / 3 * 4 + 3 <= isize::MAX
}

/// The seconds since the start of 1970 on the machine's clock, or `None`
/// where the clock shows no time that `chrono` can hold. The calls are those
/// of `chrono::Utc::now`, which panics where this gives `None`:
/// `SystemTime::now` and `SystemTime::duration_since` of `std`, then
/// `DateTime::from_timestamp` and `DateTime::timestamp` of `chrono`. None of
/// them panics. Nothing is claimed of the value but the range of every
/// timestamp of `chrono`, which computes it from a number of days in an
/// `i32` and a number of seconds in a `u32`.
#[verifier::external_body]
pub(crate) fn unix_now() -> (seconds: Option<i64>)
    ensures
        seconds matches Some(s) ==> -0x1_0000_0000 * 86_401 < s < 0x1_0000_0000 * 86_401,
{
    let since = std::time::SystemTime::now().duration_since(std::time::UNIX_EPOCH).ok()?;
    let whole = i64::try_from(since.as_secs()).ok()?;
    let at = chrono::DateTime::from_timestamp(whole, 0)?;
    Some(at.timestamp())
}

/// `Engine::encode` of `base64::engine::general_purpose::URL_SAFE_NO_PAD`.
/// Claimed: the result is the base64 text of `bytes`; it is made of the
/// alphabet's characters alone; and decoding it gives `bytes` back. The
/// call panics where the length of the text cannot be allocated, which the
/// `requires` leaves out.
#[verifier::external_body]
pub(crate) fn base64url_encode(bytes: &[u8]) -> (text: String)
    requires
        base64url_fits(bytes@.len()),
    ensures
        text@ == base64url_text(bytes@),
        forall|i: int| 0 <= i < text@.len() ==> is_base64url_char(#[trigger] text@[i]),
        base64url_bytes(text@) == Some(bytes@),
{
    base64::engine::general_purpose::URL_SAFE_NO_PAD.encode(bytes)
}

/// `Engine::decode` of `base64::engine::general_purpose::URL_SAFE_NO_PAD`.
/// Claimed: the result is what `text` stands for, and `None` exactly where
/// the crate reports a `DecodeError`.
#[verifier::external_body]
pub(crate) fn base64url_decode(text: &str) -> (bytes: Option<Vec<u8>>)
    ensures
        match bytes {
            Some(b) => base64url_bytes(text@) == Some(b@),
            None => base64url_bytes(text@) is None,
        },
{
    base64::engine::general_purpose::URL_SAFE_NO_PAD.decode(text).ok()
}

/// `Mac::new_from_slice`, `Mac::update` and `Mac::finalize` of
/// `hmac::Hmac<sha2::Sha256>`, in this order. Claimed: the result is the
/// HMAC-SHA256 of `message` under `key`, which has the 32 bytes of a SHA-256
/// digest. `new_from_slice` takes a key of any length, so the `expect`
/// cannot fail.
#[verifier::external_body]
pub(crate) fn compute_hmac_sha256(key: &[u8], message: &[u8]) -> (tag: Vec<u8>)
    ensures
        tag@ == hmac_sha256(key@, message@),
        tag@.len() == 32,
{
    let mut mac = <hmac::Hmac<sha2::Sha256> as hmac::Mac>::new_from_slice(key)
        .expect("HMAC takes a key of any length");
    hmac::Mac::update(&mut mac, message);
    hmac::Mac::finalize(mac).into_bytes().to_vec()
}

/// `String::from_utf8`. Claimed: it succeeds exactly on well-formed UTF-8,
/// and the text then holds the characters that the bytes encode.
#[verifier::external_body]
pub(crate) fn string_from_utf8(bytes: Vec<u8>) -> (text: Option<String>)
    ensures
        match text {
            Some(s) => valid_utf8(bytes@) && s@ == decode_utf8(bytes@),
            None => !valid_utf8(bytes@),
        },
{
    String::from_utf8(bytes).ok()
}

} // verus!
