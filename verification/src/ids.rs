//! Random identifiers and secrets.

use vstd::prelude::*;

use crate::text::chars_of;

verus! {

/// Calls `rand::random` for a byte. Nothing is known of it.
#[verifier::external_body]
fn random_byte() -> (r: u8) {
    rand::random::<u8>()
}

/// As many random bytes as are asked for.
pub(crate) fn random_bytes(n: usize) -> (r: Vec<u8>)
    ensures
        r@.len() == n,
{
    let mut r: Vec<u8> = Vec::new();
    let mut i: usize = 0;
    while i < n
        invariant
            i <= n,
            r@.len() == i,
        decreases n - i,
    {
        r.push(random_byte());
        i = i + 1;
    }
    r
}

/// Whether a character is a lowercase hexadecimal digit.
pub open spec fn is_lower_hex(c: char) -> bool {
    '0' <= c <= '9' || 'a' <= c <= 'f'
}

/// The hyphenated form of an identifier: lowercase hexadecimal digits in
/// groups of eight, four, four, four and twelve.
pub open spec fn is_hyphenated(s: Seq<char>) -> bool {
    &&& s.len() == 36
    &&& forall|i: int|
        0 <= i < 36 ==> if i == 8 || i == 13 || i == 18 || i == 23 {
            #[trigger] s[i] == '-'
        } else {
            is_lower_hex(s[i])
        }
}

/// The form of an identifier without hyphens.
pub open spec fn is_simple(s: Seq<char>) -> bool {
    s.len() == 32 && forall|i: int| 0 <= i < 32 ==> is_lower_hex(#[trigger] s[i])
}

/// Calls `uuid::Uuid::new_v4` and writes the result in its hyphenated form.
/// The value is random but for the digits that tell its version and variant.
#[verifier::external_body]
pub(crate) fn new_id() -> (r: String)
    ensures
        is_hyphenated(r@),
        r@[14] == '4',
        r@[19] == '8' || r@[19] == '9' || r@[19] == 'a' || r@[19] == 'b',
{
    uuid::Uuid::new_v4().to_string()
}

/// The text without its hyphens.
pub open spec fn without_hyphens(s: Seq<char>) -> Seq<char>
    decreases s.len(),
{
    if s.len() == 0 {
        s
    } else if s.last() == '-' {
        without_hyphens(s.drop_last())
    } else {
        without_hyphens(s.drop_last()).push(s.last())
    }
}

/// Removes the hyphens of a text.
pub fn remove_hyphens(s: &str) -> (r: String)
    ensures
        r@ == without_hyphens(s@),
{
    let x: Vec<char> = chars_of(s);
    let mut r: String = String::new();
    let mut i: usize = 0;
    assert(s@.take(0) =~= Seq::<char>::empty());
    while i < x.len()
        invariant
            x@ == s@,
            i <= x@.len(),
            r@ == without_hyphens(s@.take(i as int)),
        decreases x@.len() - i,
    {
        proof {
            assert(s@.take(i + 1).drop_last() =~= s@.take(i as int));
        }
        if x[i] != '-' {
            r.push(x[i]);
        }
        i = i + 1;
    }
    assert(s@.take(x@.len() as int) =~= s@);
    r
}

/// Removing the hyphens of a hyphenated identifier leaves its 32 digits.
pub proof fn hyphenated_without_hyphens(s: Seq<char>)
    requires
        is_hyphenated(s),
    ensures
        is_simple(without_hyphens(s)),
{
    hyphens_removed(s, 36);
    assert(s.take(36) =~= s);
}

proof fn hyphens_removed(s: Seq<char>, n: int)
    requires
        is_hyphenated(s),
        0 <= n <= 36,
    ensures
        without_hyphens(s.take(n)).len() == n - (if n > 8 { 1int } else { 0 }) - (if n > 13 {
            1int
        } else {
            0
        }) - (if n > 18 { 1int } else { 0 }) - (if n > 23 { 1int } else { 0 }),
        forall|i: int|
            0 <= i < without_hyphens(s.take(n)).len() ==> is_lower_hex(
                #[trigger] without_hyphens(s.take(n))[i],
            ),
    decreases n,
{
    if n > 0 {
        hyphens_removed(s, n - 1);
        assert(s.take(n).drop_last() =~= s.take(n - 1));
        assert(s.take(n).last() == s[n - 1]);
        assert(!is_lower_hex('-'));
    }
}

/// A random identifier of 32 lowercase hexadecimal digits.
pub fn new_simple_id() -> (r: String)
    ensures
        is_simple(r@),
{
    let id: String = new_id();
    proof {
        hyphenated_without_hyphens(id@);
    }
    remove_hyphens(id.as_str())
}

/// An identifier has 36 characters: 32 hexadecimal digits in lower case, in five
/// groups set apart by hyphens.
pub proof fn identifier_has_five_groups(s: Seq<char>, i: int)
    requires
        is_hyphenated(s),
        0 <= i < 36,
    ensures
        s.len() == 36,
        i == 8 || i == 13 || i == 18 || i == 23 ==> s[i] == '-',
        i != 8 && i != 13 && i != 18 && i != 23 ==> ('0' <= s[i] <= '9' || 'a' <= s[i] <= 'f'),
{
    assert(if i == 8 || i == 13 || i == 18 || i == 23 {
        s[i] == '-'
    } else {
        is_lower_hex(s[i])
    });
}

/// Hyphens are left out, and every other character is kept in its order.
pub proof fn only_hyphens_are_left_out(s: Seq<char>, c: char)
    ensures
        without_hyphens(Seq::<char>::empty()).len() == 0,
        without_hyphens(s.push('-')) == without_hyphens(s),
        c != '-' ==> without_hyphens(s.push(c)) == without_hyphens(s).push(c),
{
    assert(s.push('-').drop_last() =~= s);
    assert(s.push(c).drop_last() =~= s);
}

} // verus!
