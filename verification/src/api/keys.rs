//! Requests about API keys.

use vstd::prelude::*;

use crate::api_keys::{KeyType, RevokeOutcome};
use crate::text::{trim, trimmed};
use crate::validation::{check_view, CheckKind, CheckView, FieldCheck, ValidationError};

verus! {

#[derive(Debug)]
pub struct CreateKeyRequest {
    pub key_type: String,
    pub label: String,
}

/// Why no key is made.
#[derive(Debug)]
pub enum KeyRequestError {
    UnknownType,
    Invalid(ValidationError),
    LabelRequired,
}

impl KeyRequestError {
    /// The message; that of an invalid label is the validator's.
    pub fn message(&self) -> (r: String)
        ensures
            r@ == match *self {
                KeyRequestError::UnknownType => "type must be 'full' or 'restricted'"@,
                KeyRequestError::Invalid(e) => e.message@,
                KeyRequestError::LabelRequired => "label is required"@,
            },
    {
        match self {
            KeyRequestError::UnknownType => "type must be 'full' or 'restricted'".to_string(),
            KeyRequestError::Invalid(e) => e.message.clone(),
            KeyRequestError::LabelRequired => "label is required".to_string(),
        }
    }
}

/// Whether a check is that of the label of a new key.
pub open spec fn checks_label(c: FieldCheck, label: Seq<char>) -> bool {
    check_view(c) == (CheckView { field: "label"@, value: label, kind: CheckKind::MaxLength(100) })
}

/// Reads a request for a new key: its type, and its label without white space
/// around it.
pub fn read_key_request<F: Fn(&FieldCheck) -> Result<(), ValidationError>>(
    body: &CreateKeyRequest,
    validator: F,
) -> (r: Result<(KeyType, String), KeyRequestError>)
    requires
        forall|c: &FieldCheck| validator.requires((c,)),
    ensures
        match r {
            Err(KeyRequestError::UnknownType) => body.key_type@ != "full"@ && body.key_type@
                != "restricted"@,
            Err(KeyRequestError::Invalid(e)) => (body.key_type@ == "full"@ || body.key_type@
                == "restricted"@) && exists|c: FieldCheck| #[trigger]
                checks_label(c, trimmed(body.label@)) && validator.ensures((&c,), Err(e)),
            Err(KeyRequestError::LabelRequired) => (body.key_type@ == "full"@ || body.key_type@
                == "restricted"@) && trimmed(body.label@).len() == 0 && exists|c: FieldCheck|
             #[trigger]
                checks_label(c, trimmed(body.label@)) && validator.ensures((&c,), Ok(())),
            Ok(x) => x.0.spec_str() == body.key_type@ && x.1@ == trimmed(body.label@) && x.1@.len()
                > 0 && exists|c: FieldCheck| #[trigger]
                checks_label(c, trimmed(body.label@)) && validator.ensures((&c,), Ok(())),
        },
{
    let key_type: KeyType = match KeyType::parse(body.key_type.as_str()) {
        Some(t) => t,
        None => {
            return Err(KeyRequestError::UnknownType);
        },
    };
    assert(body.key_type@ == "full"@ || body.key_type@ == "restricted"@);
    let label: String = trim(body.label.as_str());
    let check: FieldCheck = FieldCheck {
        field: "label",
        value: label.clone(),
        kind: CheckKind::MaxLength(100),
    };
    assert(checks_label(check, trimmed(body.label@)));
    match validator(&check) {
        Ok(u) => {
            assert(u == ());
            assert(validator.ensures((&check,), Ok(())));
        },
        Err(e) => {
            assert(validator.ensures((&check,), Err(e)));
            return Err(KeyRequestError::Invalid(e));
        },
    }
    if label.as_str().is_empty() {
        Err(KeyRequestError::LabelRequired)
    } else {
        Ok((key_type, label))
    }
}

/// How the revocation of a key is answered: the HTTP status and the message.
pub fn revocation_reply(outcome: RevokeOutcome) -> (r: (u16, &'static str))
    ensures
        (r.0, r.1@) == match outcome {
            RevokeOutcome::Revoked => (200u16, "revoked"@),
            RevokeOutcome::NotFound => (404u16, "Key not found"@),
            RevokeOutcome::LastFullKey => (
                409u16,
                "Cannot revoke the only remaining full-access key. Create another full key first."@,
            ),
        },
{
    match outcome {
        RevokeOutcome::Revoked => (200, "revoked"),
        RevokeOutcome::NotFound => (404, "Key not found"),
        RevokeOutcome::LastFullKey => (
            409,
            "Cannot revoke the only remaining full-access key. Create another full key first.",
        ),
    }
}

/// The label of a key is held to 100 characters.
pub proof fn label_is_limited(c: FieldCheck, label: Seq<char>)
    ensures
        checks_label(c, label) <==> c.field@ == "label"@ && c.value@ == label && c.kind
            == CheckKind::MaxLength(100),
{
}

} // verus!
