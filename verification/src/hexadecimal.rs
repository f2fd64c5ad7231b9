//! Hexadecimal notation of byte strings.

use vstd::prelude::*;

use crate::text::is_hex_digit;

verus! {

/// The lowercase hexadecimal digit of a value below sixteen.
pub open spec fn hex_digit(d: int) -> char {
    if d < 10 {
        ((48 + d) as u32) as char
    } else {
        ((87 + d) as u32) as char
    }
}

/// The value of a hexadecimal digit of either case.
pub open spec fn hex_value(c: char) -> int {
    if '0' <= c <= '9' {
        c as u32 - 48
    } else if 'a' <= c <= 'f' {
        c as u32 - 87
    } else {
        c as u32 - 55
    }
}

/// The notation of a byte string: two lowercase digits for each byte.
pub open spec fn hex_text(bytes: Seq<u8>) -> Seq<char> {
    Seq::new(
        2 * bytes.len(),
        |i: int|
            if i % 2 == 0 {
                hex_digit(bytes[i / 2] as int / 16)
            } else {
                hex_digit(bytes[i / 2] as int % 16)
            },
    )
}

/// Whether a text is made of pairs of hexadecimal digits.
pub open spec fn is_hex_text(s: Seq<char>) -> bool {
    s.len() % 2 == 0 && forall|i: int| 0 <= i < s.len() ==> is_hex_digit(#[trigger] s[i])
}

/// The byte string that a text of pairs of hexadecimal digits stands for.
pub open spec fn hex_bytes(s: Seq<char>) -> Seq<u8> {
    Seq::new(
        s.len() / 2,
        |i: int| (16 * hex_value(s[2 * i]) + hex_value(s[2 * i + 1])) as u8,
    )
}

/// Calls `hex::encode`: two lowercase hexadecimal digits for each byte, the
/// high half of the byte first.
#[verifier::external_body]
pub(crate) fn encode(bytes: &[u8]) -> (r: String)
    ensures
        r@ == hex_text(bytes@),
{
    hex::encode(bytes)
}

/// Calls `hex::decode`: succeeds exactly on texts made of pairs of hexadecimal
/// digits of either case, with the byte that each pair stands for.
#[verifier::external_body]
pub(crate) fn decode(s: &str) -> (r: Option<Vec<u8>>)
    ensures
        match r {
            Some(bytes) => is_hex_text(s@) && bytes@ == hex_bytes(s@),
            None => !is_hex_text(s@),
        },
{
    hex::decode(s).ok()
}

/// What was written in hexadecimal notation is read back unchanged.
pub proof fn hex_roundtrip(bytes: Seq<u8>)
    ensures
        is_hex_text(hex_text(bytes)),
        hex_bytes(hex_text(bytes)) == bytes,
        forall|i: int| 0 <= i < 2 * bytes.len() ==> (#[trigger] hex_text(bytes)[i] as u32) < 128,
{
    let s = hex_text(bytes);
    assert forall|i: int| 0 <= i < s.len() implies is_hex_digit(#[trigger] s[i]) && (s[i] as u32)
        < 128 by {
        let d = bytes[i / 2] as int;
        assert(0 <= d / 16 < 16 && 0 <= d % 16 < 16);
    }
    assert forall|i: int| 0 <= i < bytes.len() implies #[trigger] hex_bytes(s)[i] == bytes[i] by {
        let b = bytes[i] as int;
        assert((2 * i) / 2 == i && (2 * i) % 2 == 0);
        assert((2 * i + 1) / 2 == i && (2 * i + 1) % 2 == 1);
        assert(s[2 * i] == hex_digit(b / 16));
        assert(s[2 * i + 1] == hex_digit(b % 16));
        assert(16 * (b / 16) + b % 16 == b);
    }
    assert(hex_bytes(s) =~= bytes);
}

/// Each byte is written as two digits, the upper half first, in lower case.
pub proof fn byte_is_two_digits(bytes: Seq<u8>, i: int)
    requires
        0 <= i < bytes.len(),
    ensures
        hex_text(bytes).len() == 2 * bytes.len(),
        hex_value(hex_text(bytes)[2 * i]) * 16 + hex_value(hex_text(bytes)[2 * i + 1]) == bytes[i],
        '0' <= hex_text(bytes)[2 * i] <= '9' || 'a' <= hex_text(bytes)[2 * i] <= 'f',
        '0' <= hex_text(bytes)[2 * i + 1] <= '9' || 'a' <= hex_text(bytes)[2 * i + 1] <= 'f',
{
    let t = hex_text(bytes);
    assert((2 * i) % 2 == 0 && (2 * i) / 2 == i);
    assert((2 * i + 1) % 2 == 1 && (2 * i + 1) / 2 == i);
}

/// Digits are read in either case, and what has an odd length or another
/// character is not hexadecimal.
pub proof fn digits_are_read_in_either_case(s: Seq<char>, i: int)
    requires
        0 <= i < s.len(),
    ensures
        hex_value('0') == 0 && hex_value('9') == 9,
        hex_value('a') == 10 && hex_value('f') == 15,
        hex_value('A') == 10 && hex_value('F') == 15,
        is_hex_text(s) ==> s.len() % 2 == 0 && ('0' <= s[i] <= '9' || 'a' <= s[i] <= 'f' || 'A'
            <= s[i] <= 'F'),
        is_hex_text(s) ==> 0 <= hex_value(s[i]) < 16,
        is_hex_text(s) && i % 2 == 0 ==> hex_bytes(s)[i / 2] == 16 * hex_value(s[i]) + hex_value(
            s[i + 1],
        ),
{
    if is_hex_text(s) {
        assert(is_hex_digit(s[i]));
        if i % 2 == 0 {
            assert(i + 1 < s.len());
            assert(is_hex_digit(s[i + 1]));
            assert(2 * (i / 2) == i);
        }
    }
}

} // verus!
