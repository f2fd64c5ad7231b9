//! Checks on the fields of requests. A request is turned into the list of the
//! checks that it has to pass; how a value of a kind is checked is the
//! validator's affair.

use vstd::prelude::*;

use crate::text::opt_text;

verus! {

/// What a value is checked for.
#[derive(Debug, Clone, Copy, PartialEq, Eq, Structural)]
pub enum CheckKind {
    /// Not longer than a number of characters.
    MaxLength(usize),
    /// An address for webhooks; the flag tells the test network.
    WebhookUrl(bool),
    /// An e-mail address.
    Email,
    /// A viewing key of the network; the flag tells the test network.
    ViewingKeyNetwork(bool),
    /// A Zcash address.
    ZcashAddress,
    /// An address with a protocol; the flag tells whether it may be a plain one.
    UrlProtocol(bool),
    /// The position of an image.
    ImagePosition,
}

/// A check that a field has to pass.
#[derive(Debug)]
pub struct FieldCheck {
    pub field: &'static str,
    pub value: String,
    pub kind: CheckKind,
}

/// A check by what it holds.
pub struct CheckView {
    pub field: Seq<char>,
    pub value: Seq<char>,
    pub kind: CheckKind,
}

/// Why a request is refused: the field at fault and what is wrong with it.
#[derive(Debug)]
pub struct ValidationError {
    pub field: String,
    pub message: String,
}

impl ValidationError {
    pub fn invalid(field: &str, message: &str) -> (r: ValidationError)
        ensures
            r.field@ == field@,
            r.message@ == message@,
    {
        ValidationError { field: field.to_string(), message: message.to_string() }
    }
}

pub open spec fn check_view(c: FieldCheck) -> CheckView {
    CheckView { field: c.field@, value: c.value@, kind: c.kind }
}

pub open spec fn checks_view(checks: Seq<FieldCheck>) -> Seq<CheckView> {
    checks.map_values(|c: FieldCheck| check_view(c))
}

/// The check of a field that is given.
pub open spec fn given(field: Seq<char>, value: Seq<char>, kind: CheckKind) -> Seq<CheckView> {
    seq![CheckView { field, value, kind }]
}

/// The check of a field that may be missing.
pub open spec fn if_given(field: Seq<char>, value: Option<Seq<char>>, kind: CheckKind) -> Seq<
    CheckView,
> {
    match value {
        Some(v) => given(field, v, kind),
        None => Seq::empty(),
    }
}

/// The check of a field that may be missing or empty.
pub open spec fn if_filled(field: Seq<char>, value: Option<Seq<char>>, kind: CheckKind) -> Seq<
    CheckView,
> {
    match value {
        Some(v) => if v.len() > 0 {
            given(field, v, kind)
        } else {
            Seq::empty()
        },
        None => Seq::empty(),
    }
}

/// Lists the check of a field that is given.
pub(crate) fn add_given(
    checks: &mut Vec<FieldCheck>,
    field: &'static str,
    value: &String,
    kind: CheckKind,
)
    ensures
        checks_view(final(checks)@) == checks_view(old(checks)@) + given(field@, value@, kind),
{
    let ghost before = checks@;
    checks.push(FieldCheck { field, value: value.clone(), kind });
    assert(checks_view(checks@) =~= checks_view(before) + given(field@, value@, kind));
}

/// Lists the check of a field that may be missing.
pub(crate) fn add_if_given(
    checks: &mut Vec<FieldCheck>,
    field: &'static str,
    value: &Option<String>,
    kind: CheckKind,
)
    ensures
        checks_view(final(checks)@) == checks_view(old(checks)@) + if_given(
            field@,
            opt_text(*value),
            kind,
        ),
{
    match value {
        Some(v) => {
            add_given(checks, field, v, kind);
        },
        None => {
            assert(checks_view(checks@) =~= checks_view(checks@) + Seq::<CheckView>::empty());
        },
    }
}

/// Lists the check of a field that may be missing or empty.
pub(crate) fn add_if_filled(
    checks: &mut Vec<FieldCheck>,
    field: &'static str,
    value: &Option<String>,
    kind: CheckKind,
)
    ensures
        checks_view(final(checks)@) == checks_view(old(checks)@) + if_filled(
            field@,
            opt_text(*value),
            kind,
        ),
{
    let filled: bool = match value {
        Some(v) => !v.as_str().is_empty(),
        None => false,
    };
    if filled {
        add_if_given(checks, field, value, kind);
    } else {
        assert(checks_view(checks@) =~= checks_view(checks@) + Seq::<CheckView>::empty());
    }
}

/// An empty list of checks.
pub(crate) fn no_checks() -> (r: Vec<FieldCheck>)
    ensures
        checks_view(r@) == Seq::<CheckView>::empty(),
{
    let r: Vec<FieldCheck> = Vec::new();
    assert(checks_view(r@) =~= Seq::<CheckView>::empty());
    r
}

/// Whether a result is what a validator leads to on checks in their order: the
/// first failure, or success where there is none.
pub open spec fn judged<F: Fn(&FieldCheck) -> Result<(), ValidationError>>(
    checks: Seq<FieldCheck>,
    validator: F,
    r: Result<(), ValidationError>,
) -> bool {
    match r {
        Ok(_) => forall|i: int|
            0 <= i < checks.len() ==> validator.ensures((#[trigger] &checks[i],), Ok(())),
        Err(e) => exists|i: int|
            0 <= i < checks.len() && validator.ensures((#[trigger] &checks[i],), Err(e))
                && forall|k: int|
                0 <= k < i ==> validator.ensures((#[trigger] &checks[k],), Ok(())),
    }
}

/// Runs checks in their order up to the first failure.
pub fn run_checks<F: Fn(&FieldCheck) -> Result<(), ValidationError>>(
    checks: &Vec<FieldCheck>,
    validator: F,
) -> (r: Result<(), ValidationError>)
    requires
        forall|c: &FieldCheck| validator.requires((c,)),
    ensures
        judged(checks@, validator, r),
{
    let mut i: usize = 0;
    while i < checks.len()
        invariant
            i <= checks@.len(),
            forall|c: &FieldCheck| validator.requires((c,)),
            forall|k: int| 0 <= k < i ==> validator.ensures((#[trigger] &checks@[k],), Ok(())),
        decreases checks@.len() - i,
    {
        match validator(&checks[i]) {
            Ok(u) => {
                assert(u == ());
                assert(validator.ensures((&checks@[i as int],), Ok(())));
            },
            Err(e) => {
                assert(validator.ensures((&checks@[i as int],), Err(e)));
                return Err(e);
            },
        }
        i = i + 1;
    }
    Ok(())
}

// ---------------------------------------------------------------------------
// Laws
// ---------------------------------------------------------------------------

/// What is asked in two lists, one behind the other, is asked in either. A value
/// that is given is checked, and one that is not given, or need not be filled
/// and is empty, is not.
pub proof fn checks_add_up()
    ensures
        forall|a: Seq<CheckView>, b: Seq<CheckView>, c: CheckView| #[trigger]
            (a + b).contains(c) <==> a.contains(c) || b.contains(c),
        forall|f: Seq<char>, v: Seq<char>, k: CheckKind, c: CheckView| #[trigger]
            given(f, v, k).contains(c) <==> c == (CheckView { field: f, value: v, kind: k }),
        forall|f: Seq<char>, v: Option<Seq<char>>, k: CheckKind, c: CheckView| #[trigger]
            if_given(f, v, k).contains(c) <==> v is Some && c == (CheckView {
                field: f,
                value: v->0,
                kind: k,
            }),
        forall|f: Seq<char>, v: Option<Seq<char>>, k: CheckKind, c: CheckView| #[trigger]
            if_filled(f, v, k).contains(c) <==> v is Some && v->0.len() > 0 && c == (CheckView {
                field: f,
                value: v->0,
                kind: k,
            }),
{
    assert forall|a: Seq<CheckView>, b: Seq<CheckView>, c: CheckView|
        #[trigger] (a + b).contains(c) <==> a.contains(c) || b.contains(c) by {
        let s = a + b;
        if a.contains(c) {
            let i = choose|i: int| 0 <= i < a.len() && a[i] == c;
            assert(s[i] == c);
        }
        if b.contains(c) {
            let i = choose|i: int| 0 <= i < b.len() && b[i] == c;
            assert(s[a.len() + i] == c);
        }
        if s.contains(c) {
            let i = choose|i: int| 0 <= i < s.len() && s[i] == c;
            if i < a.len() {
                assert(a[i] == c);
            } else {
                assert(b[i - a.len()] == c);
            }
        }
    }
    assert forall|f: Seq<char>, v: Seq<char>, k: CheckKind, c: CheckView|
        #[trigger] given(f, v, k).contains(c) <==> c == (CheckView {
            field: f,
            value: v,
            kind: k,
        }) by {
        let s = given(f, v, k);
        assert(s.len() == 1 && s[0] == (CheckView { field: f, value: v, kind: k }));
        if s.contains(c) {
            let i = choose|i: int| 0 <= i < s.len() && s[i] == c;
            assert(i == 0);
        }
    }
    assert(forall|c: CheckView| !Seq::<CheckView>::empty().contains(c));
}

/// Values are accepted where each check is passed, and the first that is not
/// passed is the error.
pub proof fn first_failed_check_is_the_error<
    F: Fn(&FieldCheck) -> Result<(), ValidationError>,
>(checks: Seq<FieldCheck>, validator: F, r: Result<(), ValidationError>, k: int)
    requires
        judged(checks, validator, r),
        0 <= k < checks.len(),
    ensures
        r is Ok ==> validator.ensures((&checks[k],), Ok(())),
        r matches Err(e) ==> exists|i: int|
            0 <= i < checks.len() && validator.ensures((#[trigger] &checks[i],), Err(e)) && (k < i
                ==> validator.ensures((&checks[k],), Ok(()))),
{
    match r {
        Ok(_) => {
            assert(validator.ensures((&checks[k],), Ok(())));
        },
        Err(e) => {
            let i = choose|i: int|
                0 <= i < checks.len() && validator.ensures((#[trigger] &checks[i],), Err(e))
                    && forall|m: int|
                    0 <= m < i ==> validator.ensures((#[trigger] &checks[m],), Ok(()));
            assert(validator.ensures((&checks[i],), Err(e)));
        },
    }
}

} // verus!
