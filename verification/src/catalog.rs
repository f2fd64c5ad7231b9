//! What products, prices and events have in common: web addresses made of
//! names, currencies, and small checks.

use vstd::prelude::*;

use crate::ids::without_hyphens;
use crate::text::{
    chars_of, char_is_alphanumeric, is_alphanumeric, lowercased, starts_with, text_eq, to_lowercase,
};

verus! {

/// Whether prices may be given in a currency.
pub open spec fn is_supported_currency(c: Seq<char>) -> bool {
    c == "EUR"@ || c == "USD"@ || c == "BRL"@ || c == "GBP"@ || c == "CAD"@ || c == "JPY"@ || c
        == "MXN"@ || c == "ARS"@ || c == "NGN"@ || c == "CHF"@ || c == "INR"@
}

/// Whether prices may be given in a currency.
pub fn supported_currency(c: &str) -> (r: bool)
    ensures
        r == is_supported_currency(c@),
{
    text_eq(c, "EUR") || text_eq(c, "USD") || text_eq(c, "BRL") || text_eq(c, "GBP") || text_eq(
        c,
        "CAD",
    ) || text_eq(c, "JPY") || text_eq(c, "MXN") || text_eq(c, "ARS") || text_eq(c, "NGN")
        || text_eq(c, "CHF") || text_eq(c, "INR")
}

/// The supported currencies as a list in words.
pub open spec fn supported_list() -> Seq<char> {
    "EUR, USD, BRL, GBP, CAD, JPY, MXN, ARS, NGN, CHF, INR"@
}

/// The words of a text, each made of letters and digits, joined by hyphens: a
/// character is kept if it is a letter or digit, with a hyphen before it where
/// it begins a word that is not the first.
pub open spec fn hyphenated_words(s: Seq<char>) -> Seq<char>
    decreases s.len(),
{
    if s.len() == 0 {
        Seq::empty()
    } else {
        let earlier = hyphenated_words(s.drop_last());
        if !is_alphanumeric(s.last()) {
            earlier
        } else if earlier.len() > 0 && !is_alphanumeric(s[s.len() - 2]) {
            earlier.push('-').push(s.last())
        } else {
            earlier.push(s.last())
        }
    }
}

/// The web address that a name gives.
pub open spec fn slug_of(name: Seq<char>) -> Seq<char> {
    hyphenated_words(lowercased(name))
}

/// Whether letters and digits are joined by single hyphens: no other character
/// stands in the text, it neither begins nor ends with a hyphen, and no two
/// hyphens follow each other.
pub open spec fn is_hyphenated_text(s: Seq<char>) -> bool {
    &&& forall|i: int| 0 <= i < s.len() ==> is_alphanumeric(#[trigger] s[i]) || s[i] == '-'
    &&& s.len() > 0 ==> s[0] != '-' && s.last() != '-'
    &&& forall|i: int| 0 < i < s.len() ==> !(#[trigger] s[i] == '-' && s[i - 1] == '-')
}

/// Whether a text is a web address as names give it: small letters and digits,
/// joined by single hyphens.
pub open spec fn is_slug(s: Seq<char>) -> bool {
    is_hyphenated_text(s) && forall|i: int| 0 <= i < s.len() ==> !('A' <= #[trigger] s[i] <= 'Z')
}

/// The web address that a name gives: its words in lower case, joined by
/// hyphens. A web address gives itself.
pub fn slugify(name: &str) -> (r: String)
    ensures
        r@ == slug_of(name@),
        is_slug(r@),
        is_slug(name@) ==> r@ == name@,
{
    let low: String = to_lowercase(name);
    let x: Vec<char> = chars_of(low.as_str());
    let mut r: String = String::new();
    let mut empty: bool = true;
    let mut in_word: bool = false;
    let mut i: usize = 0;
    assert(x@.take(0) =~= Seq::<char>::empty());
    while i < x.len()
        invariant
            i <= x@.len(),
            x@ == lowercased(name@),
            r@ == hyphenated_words(x@.take(i as int)),
            empty == (r@.len() == 0),
            i > 0 ==> in_word == is_alphanumeric(x@[i - 1]),
            i == 0 ==> empty,
        decreases x@.len() - i,
    {
        proof {
            assert(x@.take(i + 1).drop_last() =~= x@.take(i as int));
            assert(x@.take(i + 1).last() == x@[i as int]);
            if i > 0 {
                assert(x@.take(i + 1)[i - 1] == x@[i - 1]);
            }
        }
        let c: char = x[i];
        if char_is_alphanumeric(c) {
            if !empty && !in_word {
                r.push('-');
            }
            r.push(c);
            empty = false;
            in_word = true;
        } else {
            in_word = false;
        }
        i = i + 1;
    }
    assert(x@.take(i as int) =~= x@);
    proof {
        slug_is_clean(x@);
        slug_keeps_characters(x@);
        if is_slug(name@) {
            assert(x@ =~= name@);
            slug_gives_itself(name@);
        }
    }
    r
}

/// A web address made of a name holds letters, digits and hyphens only, neither
/// begins nor ends with a hyphen, and has no two hyphens in a row.
pub proof fn slug_is_clean(s: Seq<char>)
    ensures
        is_hyphenated_text(hyphenated_words(s)),
    decreases s.len(),
{
    if s.len() > 0 {
        slug_is_clean(s.drop_last());
    }
}

/// Every character of a web address but the hyphens stands in the name.
proof fn slug_keeps_characters(s: Seq<char>)
    ensures
        forall|i: int|
            0 <= i < hyphenated_words(s).len() ==> #[trigger] hyphenated_words(s)[i] == '-'
                || s.contains(hyphenated_words(s)[i]),
    decreases s.len(),
{
    if s.len() > 0 {
        let t = s.drop_last();
        slug_keeps_characters(t);
        assert forall|i: int| 0 <= i < hyphenated_words(s).len() implies #[trigger]
            hyphenated_words(s)[i] == '-' || s.contains(hyphenated_words(s)[i]) by {
            if i < hyphenated_words(t).len() {
                assert(hyphenated_words(s)[i] == hyphenated_words(t)[i]);
                if hyphenated_words(t)[i] != '-' {
                    let k = choose|k: int| 0 <= k < t.len() && t[k] == hyphenated_words(t)[i];
                    assert(s[k] == t[k]);
                }
            } else if hyphenated_words(s)[i] != '-' {
                assert(s[s.len() - 1] == hyphenated_words(s)[i]);
            }
        }
    }
}

proof fn words_of_hyphenated(s: Seq<char>)
    requires
        forall|i: int| 0 <= i < s.len() ==> is_alphanumeric(#[trigger] s[i]) || s[i] == '-',
        s.len() > 0 ==> s[0] != '-',
        forall|i: int| 0 < i < s.len() ==> !(#[trigger] s[i] == '-' && s[i - 1] == '-'),
    ensures
        hyphenated_words(s) == if s.len() > 0 && s.last() == '-' {
            s.drop_last()
        } else {
            s
        },
    decreases s.len(),
{
    if s.len() > 0 {
        let t = s.drop_last();
        words_of_hyphenated(t);
        assert(t.push(s.last()) =~= s);
        if t.len() > 0 {
            assert(t.last() == s[s.len() - 2]);
            if t.last() == '-' {
                assert(t.drop_last().push('-') =~= t);
                assert(!is_alphanumeric('-'));
            }
        }
    }
}

/// A text whose letters and digits are joined by single hyphens is not changed
/// when it is made into a web address.
pub proof fn slug_gives_itself(s: Seq<char>)
    requires
        is_hyphenated_text(s),
    ensures
        hyphenated_words(s) == s,
{
    words_of_hyphenated(s);
}

/// Making a web address of a web address changes nothing.
pub proof fn slugging_again_changes_nothing(s: Seq<char>)
    ensures
        hyphenated_words(hyphenated_words(s)) == hyphenated_words(s),
{
    slug_is_clean(s);
    slug_gives_itself(hyphenated_words(s));
}

/// Without its hyphens a web address is the letters and digits of the name, in
/// their order.
pub proof fn slug_keeps_letters_and_digits(s: Seq<char>)
    ensures
        without_hyphens(hyphenated_words(s)) == s.filter(|c: char| is_alphanumeric(c)),
    decreases s.len(),
{
    reveal(Seq::filter);
    if s.len() > 0 {
        let t = s.drop_last();
        slug_keeps_letters_and_digits(t);
        let earlier = hyphenated_words(t);
        assert(earlier.push('-').drop_last() =~= earlier);
        assert(without_hyphens(earlier.push('-')) == without_hyphens(earlier));
        assert(earlier.push('-').push(s.last()).drop_last() =~= earlier.push('-'));
        assert(earlier.push(s.last()).drop_last() =~= earlier);
        if s.len() == 1 {
            assert(earlier.len() == 0);
        }
    }
}

/// Letters and digits that follow each other in a name do so in its web
/// address: no hyphen comes between them.
pub proof fn slug_keeps_words_whole(s: Seq<char>, i: int)
    requires
        0 < i < s.len(),
        is_alphanumeric(s[i - 1]),
        is_alphanumeric(s[i]),
    ensures
        ({
            let before = hyphenated_words(s.take(i));
            &&& before.len() > 0 && before.last() == s[i - 1]
            &&& before.push(s[i]).is_prefix_of(hyphenated_words(s))
        }),
    decreases s.len(),
{
    let before = hyphenated_words(s.take(i));
    assert(s.take(i).last() == s[i - 1]);
    if s.len() == i + 1 {
        assert(s.drop_last() =~= s.take(i));
    } else {
        let t = s.drop_last();
        assert(t.take(i) =~= s.take(i));
        slug_keeps_words_whole(t, i);
        let a = before.push(s[i]);
        assert(a.is_prefix_of(hyphenated_words(t)));
        assert(hyphenated_words(t).is_prefix_of(hyphenated_words(s)));
        assert forall|k: int| 0 <= k < a.len() implies a[k] == hyphenated_words(s)[k] by {
            assert(a[k] == hyphenated_words(t)[k]);
        }
        assert(a =~= hyphenated_words(s).take(a.len() as int));
    }
}

/// Whether an address is one of the web.
pub open spec fn is_web_url(url: Seq<char>) -> bool {
    "https://"@.is_prefix_of(url) || "http://"@.is_prefix_of(url)
}

/// Whether an address is one of the web.
pub fn web_url(url: &str) -> (r: bool)
    ensures
        r == is_web_url(url@),
{
    starts_with(url, "https://") || starts_with(url, "http://")
}

/// Eleven currencies are supported, and each by its code in upper case only.
pub proof fn eleven_currencies_are_supported(c: Seq<char>)
    ensures
        is_supported_currency(c) <==> seq![
            "EUR"@,
            "USD"@,
            "BRL"@,
            "GBP"@,
            "CAD"@,
            "JPY"@,
            "MXN"@,
            "ARS"@,
            "NGN"@,
            "CHF"@,
            "INR"@,
        ].contains(c),
        is_supported_currency(c) ==> c.len() == 3 && forall|i: int|
            0 <= i < 3 ==> 'A' <= #[trigger] c[i] <= 'Z',
{
    let all = seq![
        "EUR"@,
        "USD"@,
        "BRL"@,
        "GBP"@,
        "CAD"@,
        "JPY"@,
        "MXN"@,
        "ARS"@,
        "NGN"@,
        "CHF"@,
        "INR"@,
    ];
    assert(all[0] == "EUR"@ && all[1] == "USD"@ && all[2] == "BRL"@ && all[3] == "GBP"@);
    assert(all[4] == "CAD"@ && all[5] == "JPY"@ && all[6] == "MXN"@ && all[7] == "ARS"@);
    assert(all[8] == "NGN"@ && all[9] == "CHF"@ && all[10] == "INR"@);
    assert(all.len() == 11);
    reveal_strlit("EUR");
    reveal_strlit("USD");
    reveal_strlit("BRL");
    reveal_strlit("GBP");
    reveal_strlit("CAD");
    reveal_strlit("JPY");
    reveal_strlit("MXN");
    reveal_strlit("ARS");
    reveal_strlit("NGN");
    reveal_strlit("CHF");
    reveal_strlit("INR");
}

/// A web address starts with one of two schemes.
pub proof fn web_address_has_a_scheme(host: Seq<char>, url: Seq<char>)
    ensures
        is_web_url("https://"@ + host),
        is_web_url("http://"@ + host),
        is_web_url(url) ==> url == "https://"@ + url.skip(8) || url == "http://"@ + url.skip(7),
{
    reveal_strlit("https://");
    reveal_strlit("http://");
    assert("https://"@.is_prefix_of("https://"@ + host));
    assert("http://"@.is_prefix_of("http://"@ + host));
    if "https://"@.is_prefix_of(url) {
        assert(url =~= "https://"@ + url.skip(8));
    }
    if "http://"@.is_prefix_of(url) {
        assert(url =~= "http://"@ + url.skip(7));
    }
}

/// The currencies are told in the order in which they are listed.
pub proof fn currencies_are_told()
    ensures
        supported_list() == "EUR, USD, BRL, GBP, CAD, JPY, MXN, ARS, NGN, CHF, INR"@,
{
}

} // verus!
