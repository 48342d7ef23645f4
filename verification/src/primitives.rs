//! Hexadecimal, digests, authentication tags, points in time and random bytes:
//! what is left to other crates.
use vstd::prelude::*;

use chrono::DateTime;
use hmac::{Hmac, Mac};
use sha2::{Digest, Sha256};

verus! {

// ------------------------------------------------------------- hexadecimal

/// The lower-case hexadecimal digit of `n`.
pub open spec fn hex_digit(n: int) -> char {
    if n < 10 {
        (48 + n) as char
    } else {
        (87 + n) as char
    }
}

/// Two digits for each byte, the higher half first.
pub open spec fn hex_text(b: Seq<u8>) -> Seq<char> {
    Seq::new(
        2 * b.len(),
        |i: int|
            if i % 2 == 0 {
                hex_digit(b[i / 2] as int / 16)
            } else {
                hex_digit(b[i / 2] as int % 16)
            },
    )
}

/// The value of a hexadecimal digit of either case.
pub open spec fn hex_value(c: char) -> Option<int> {
    if '0' <= c && c <= '9' {
        Some(c as int - 48)
    } else if 'a' <= c && c <= 'f' {
        Some(c as int - 87)
    } else if 'A' <= c && c <= 'F' {
        Some(c as int - 55)
    } else {
        None
    }
}

/// Whether a text holds hexadecimal digits only, two for each byte.
pub open spec fn is_hex(s: Seq<char>) -> bool {
    s.len() % 2 == 0 && forall|i: int| 0 <= i < s.len() ==> hex_value(#[trigger] s[i]) is Some
}

/// The bytes that such a text stands for.
pub open spec fn hex_bytes(s: Seq<char>) -> Seq<u8> {
    Seq::new(
        s.len() / 2,
        |i: int| (16 * hex_value(s[2 * i])->0 + hex_value(s[2 * i + 1])->0) as u8,
    )
}

/// The text of the error that `hex::decode` reports for any other text.
pub uninterp spec fn hex_error(s: Seq<char>) -> Seq<char>;

/// `hex::encode`: lower-case digits, two for each byte.
#[verifier::external_body]
pub(crate) fn hex_encode(b: &[u8]) -> (r: String)
    ensures
        r@ == hex_text(b@),
{
    hex::encode(b)
}

/// `hex::decode`: the bytes where the text is hexadecimal of even length, in
/// either case; else the text of its error, which depends on the text alone.
#[verifier::external_body]
pub(crate) fn hex_decode(s: &str) -> (r: Result<Vec<u8>, String>)
    ensures
        match r {
            Ok(b) => is_hex(s@) && b@ == hex_bytes(s@),
            Err(e) => !is_hex(s@) && e@ == hex_error(s@),
        },
{
    hex::decode(s).map_err(|e| e.to_string())
}

/// Decoding the hexadecimal form of bytes gives the bytes back.
pub proof fn law_hex_round_trip(b: Seq<u8>)
    ensures
        is_hex(hex_text(b)),
        hex_bytes(hex_text(b)) == b,
{
    let s = hex_text(b);
    assert forall|i: int| 0 <= i < s.len() implies hex_value(#[trigger] s[i]) is Some by {
        assert(0 <= b[i / 2] as int / 16 < 16);
    }
    assert forall|i: int| 0 <= i < b.len() implies hex_bytes(s)[i] == b[i] by {
        assert((2 * i) / 2 == i && (2 * i + 1) / 2 == i && (2 * i) % 2 == 0 && (2 * i + 1) % 2 == 1);
        assert(s[2 * i] == hex_digit(b[i] as int / 16));
        assert(s[2 * i + 1] == hex_digit(b[i] as int % 16));
        assert(hex_value(hex_digit(b[i] as int / 16)) == Some(b[i] as int / 16));
        assert(hex_value(hex_digit(b[i] as int % 16)) == Some(b[i] as int % 16));
    }
    assert(hex_bytes(s) =~= b);
}

// ------------------------------------------------------- digests and tags

/// The SHA-256 digest of a message.
pub uninterp spec fn sha256(data: Seq<u8>) -> Seq<u8>;

/// The HMAC-SHA-256 tag of a message under a key.
pub uninterp spec fn hmac_sha256(key: Seq<u8>, data: Seq<u8>) -> Seq<u8>;

/// `Sha256::digest`: the digest of the message, 32 bytes long.
#[verifier::external_body]
pub(crate) fn digest(data: &[u8]) -> (r: Vec<u8>)
    ensures
        r@ == sha256(data@),
        r@.len() == 32,
{
    Sha256::digest(data).to_vec()
}

/// `Mac::finalize` of `Hmac<Sha256>`: the tag of the message under the key,
/// 32 bytes long. A key of any length is taken.
#[verifier::external_body]
pub(crate) fn tag(key: &[u8], data: &[u8]) -> (r: Vec<u8>)
    ensures
        r@ == hmac_sha256(key@, data@),
        r@.len() == 32,
{
    let mut mac = Hmac::<Sha256>::new_from_slice(key).expect("a key of any length is taken");
    mac.update(data);
    mac.finalize().into_bytes().to_vec()
}

/// `Mac::verify_slice` of `Hmac<Sha256>`: whether the bytes given are the whole
/// tag of the message under the key.
#[verifier::external_body]
pub(crate) fn tag_matches(key: &[u8], data: &[u8], given: &[u8]) -> (r: bool)
    ensures
        r == (given@ == hmac_sha256(key@, data@)),
{
    let mut mac = Hmac::<Sha256>::new_from_slice(key).expect("a key of any length is taken");
    mac.update(data);
    mac.verify_slice(given).is_ok()
}

// -------------------------------------------------------------------- time

/// The point in time that an RFC 3339 text names, in seconds since 1970 and
/// nanoseconds; `None` where the text is none.
pub uninterp spec fn rfc3339_instant(s: Seq<char>) -> Option<(i64, u32)>;

/// `DateTime::parse_from_rfc3339`: the point in time that a text names. It
/// depends on the text alone, which carries its own offset from UTC.
#[verifier::external_body]
pub(crate) fn parse_rfc3339(s: &str) -> (r: Option<(i64, u32)>)
    ensures
        r == rfc3339_instant(s@),
{
    DateTime::parse_from_rfc3339(s).ok().map(|t| (t.timestamp(), t.timestamp_subsec_nanos()))
}

/// The RFC 3339 text, in UTC, of a time in seconds since 1970; `None` where
/// the calendar does not reach it.
pub uninterp spec fn rfc3339_text(seconds: i64) -> Option<Seq<char>>;

/// `DateTime::from_timestamp` and `to_rfc3339`: the time as text, which depends
/// on the number alone.
#[verifier::external_body]
pub(crate) fn format_rfc3339(seconds: i64) -> (r: Option<String>)
    ensures
        match r {
            Some(s) => rfc3339_text(seconds) == Some(s@),
            None => rfc3339_text(seconds) is None,
        },
{
    DateTime::from_timestamp(seconds, 0).map(|t| t.to_rfc3339())
}

// -------------------------------------------------------------- randomness

/// `getrandom::getrandom`: as many bytes of the system's randomness as asked
/// for, or `None` where it has none to give. Nothing is claimed of the bytes.
#[verifier::external_body]
pub(crate) fn random_bytes(count: usize) -> (r: Option<Vec<u8>>)
    ensures
        r matches Some(b) ==> b@.len() == count,
{
    let mut b = vec![0u8; count];
    getrandom::getrandom(&mut b).ok().map(|_| b)
}

} // verus!
