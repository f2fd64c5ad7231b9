//! The URL-safe base64 notation without padding.

use vstd::prelude::*;

use base64::engine::general_purpose::URL_SAFE_NO_PAD;
use base64::Engine;

verus! {

/// The character that stands for a value of six bits.
pub open spec fn base64_char(v: int) -> char {
    if v < 26 {
        ((65 + v) as u32) as char
    } else if v < 52 {
        ((71 + v) as u32) as char
    } else if v < 62 {
        ((v - 4) as u32) as char
    } else if v == 62 {
        '-'
    } else {
        '_'
    }
}

/// The byte at a place, or zero beyond the end.
pub open spec fn byte_at(bytes: Seq<u8>, i: int) -> int {
    if 0 <= i < bytes.len() {
        bytes[i] as int
    } else {
        0
    }
}

/// The six bits that stand at a place of the notation: each three bytes make
/// four such places.
pub open spec fn sextet(bytes: Seq<u8>, i: int) -> int {
    let k = 3 * (i / 4);
    let group = byte_at(bytes, k) * 65536 + byte_at(bytes, k + 1) * 256 + byte_at(bytes, k + 2);
    if i % 4 == 0 {
        group / 262144
    } else if i % 4 == 1 {
        (group / 4096) % 64
    } else if i % 4 == 2 {
        (group / 64) % 64
    } else {
        group % 64
    }
}

/// The notation of a byte string.
pub open spec fn base64_text(bytes: Seq<u8>) -> Seq<char> {
    Seq::new((4 * bytes.len() + 2) / 3, |i: int| base64_char(sextet(bytes, i)))
}

/// Calls the `URL_SAFE_NO_PAD` engine of `base64` (RFC 4648 with the URL-safe
/// alphabet): four characters for each three bytes, and two or three for the
/// one or two bytes that are left.
#[verifier::external_body]
pub(crate) fn encode(bytes: &[u8]) -> (r: String)
    ensures
        r@ == base64_text(bytes@),
{
    URL_SAFE_NO_PAD.encode(bytes)
}

/// The 64 characters are the letters in upper case, those in lower case, the
/// digits, a hyphen and an underscore.
pub proof fn alphabet_is_safe_in_addresses(v: int)
    requires
        0 <= v < 64,
    ensures
        v < 26 ==> base64_char(v) as u32 == 'A' as u32 + v,
        26 <= v < 52 ==> base64_char(v) as u32 == 'a' as u32 + (v - 26),
        52 <= v < 62 ==> base64_char(v) as u32 == '0' as u32 + (v - 52),
        v == 62 ==> base64_char(v) == '-',
        v == 63 ==> base64_char(v) == '_',
{
}

/// Three bytes are four characters, and can be told from them.
pub proof fn three_bytes_are_four_characters(bytes: Seq<u8>, k: int)
    requires
        0 <= 3 * k,
        3 * k + 2 < bytes.len(),
    ensures
        bytes[3 * k] == sextet(bytes, 4 * k) * 4 + sextet(bytes, 4 * k + 1) / 16,
        bytes[3 * k + 1] == (sextet(bytes, 4 * k + 1) % 16) * 16 + sextet(bytes, 4 * k + 2) / 4,
        bytes[3 * k + 2] == (sextet(bytes, 4 * k + 2) % 4) * 64 + sextet(bytes, 4 * k + 3),
        base64_text(bytes).len() == (4 * bytes.len() + 2) / 3,
        base64_text(bytes)[4 * k] == base64_char(sextet(bytes, 4 * k)),
{
    assert((4 * k) / 4 == k && (4 * k) % 4 == 0);
    assert((4 * k + 1) / 4 == k && (4 * k + 1) % 4 == 1);
    assert((4 * k + 2) / 4 == k && (4 * k + 2) % 4 == 2);
    assert((4 * k + 3) / 4 == k && (4 * k + 3) % 4 == 3);
    group_is_split(bytes[3 * k] as int, bytes[3 * k + 1] as int, bytes[3 * k + 2] as int);
}

proof fn group_is_split(a: int, b: int, c: int)
    requires
        0 <= a < 256,
        0 <= b < 256,
        0 <= c < 256,
    ensures
        ({
            let group = a * 65536 + b * 256 + c;
            &&& group / 262144 == a / 4
            &&& (group / 4096) % 64 == (a % 4) * 16 + b / 16
            &&& (group / 64) % 64 == (b % 16) * 4 + c / 64
            &&& group % 64 == c % 64
        }),
{
    let group = a * 65536 + b * 256 + c;
    let upper = a / 4;
    let rest = (a % 4) * 65536 + b * 256 + c;
    assert(group == upper * 262144 + rest && 0 <= rest < 262144);
    assert(group / 262144 == upper);
    let second = (a % 4) * 16 + b / 16;
    assert(group / 4096 == upper * 64 + second && 0 <= second < 64) by {
        let low = (b % 16) * 256 + c;
        assert(group == (upper * 64 + second) * 4096 + low && 0 <= low < 4096);
    }
    let third = (b % 16) * 4 + c / 64;
    assert(group / 64 == (upper * 64 + second) * 64 + third && 0 <= third < 64) by {
        assert(group == ((upper * 64 + second) * 64 + third) * 64 + c % 64);
    }
}

/// One or two bytes at the end are two or three characters, without padding.
pub proof fn rest_is_not_padded(bytes: Seq<u8>)
    ensures
        bytes.len() % 3 == 0 ==> base64_text(bytes).len() == bytes.len() / 3 * 4,
        bytes.len() % 3 == 1 ==> base64_text(bytes).len() == bytes.len() / 3 * 4 + 2,
        bytes.len() % 3 == 2 ==> base64_text(bytes).len() == bytes.len() / 3 * 4 + 3,
        byte_at(bytes, bytes.len() as int) == 0,
{
}

} // verus!
