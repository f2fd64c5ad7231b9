//! The point of sale: its PIN and its sessions.

use vstd::prelude::*;

use crate::api::Lookup;
use crate::merchants::{hash_key, key_hash};
use crate::text::{char_is_digit, chars_of, is_digit, opt_text, text_eq};

verus! {

/// Hours after which a session of a point of sale expires.
pub const POS_SESSION_HOURS: i64 = 4;

#[derive(Debug)]
pub struct SetPinRequest {
    pub pin: String,
}

#[derive(Debug)]
pub struct VerifyPinRequest {
    pub pin: String,
}

/// Whether a text is a PIN: four digits.
pub open spec fn is_pin(s: Seq<char>) -> bool {
    s.len() == 4 && forall|i: int| 0 <= i < s.len() ==> is_digit(#[trigger] s[i])
}

/// Whether a text is a PIN.
pub fn valid_pin(s: &str) -> (r: bool)
    ensures
        r == is_pin(s@),
{
    let x: Vec<char> = chars_of(s);
    if x.len() != 4 {
        return false;
    }
    let mut i: usize = 0;
    while i < x.len()
        invariant
            i <= x@.len(),
            x@ == s@,
            forall|k: int| 0 <= k < i ==> is_digit(#[trigger] x@[k]),
        decreases x@.len() - i,
    {
        if !char_is_digit(x[i]) {
            return false;
        }
        i = i + 1;
    }
    true
}

/// Why a request about the point of sale is refused.
#[derive(Debug, Clone, Copy, PartialEq, Eq, Structural)]
pub enum PosRefusal {
    PinNotFourDigits,
    PinMalformed,
    InvalidPin,
    PinNotSet,
    LookupFailed,
}

impl PosRefusal {
    pub open spec fn spec_reply(self) -> (u16, Seq<char>) {
        match self {
            PosRefusal::PinNotFourDigits => (400, "PIN must be exactly 4 digits"@),
            PosRefusal::PinMalformed => (400, "PIN must be 4 digits"@),
            PosRefusal::InvalidPin => (401, "Invalid PIN"@),
            PosRefusal::PinNotSet => (400, "pos_pin_not_set"@),
            PosRefusal::LookupFailed => (500, "Internal error"@),
        }
    }

    /// The HTTP status and the message.
    pub fn reply(&self) -> (r: (u16, &'static str))
        ensures
            (r.0, r.1@) == self.spec_reply(),
    {
        match self {
            PosRefusal::PinNotFourDigits => (400, "PIN must be exactly 4 digits"),
            PosRefusal::PinMalformed => (400, "PIN must be 4 digits"),
            PosRefusal::InvalidPin => (401, "Invalid PIN"),
            PosRefusal::PinNotSet => (400, "pos_pin_not_set"),
            PosRefusal::LookupFailed => (500, "Internal error"),
        }
    }
}

/// What is stored of a new PIN: nothing where it is empty, which removes it,
/// otherwise its hash.
pub fn set_pin(body: &SetPinRequest) -> (r: Result<Option<String>, PosRefusal>)
    ensures
        if body.pin@.len() == 0 {
            r matches Ok(x) && x is None
        } else if is_pin(body.pin@) {
            r matches Ok(Some(h)) && h@ == key_hash(body.pin@)
        } else {
            r == Err::<Option<String>, PosRefusal>(PosRefusal::PinNotFourDigits)
        },
{
    if body.pin.as_str().is_empty() {
        Ok(None)
    } else if valid_pin(body.pin.as_str()) {
        Ok(Some(hash_key(body.pin.as_str())))
    } else {
        Err(PosRefusal::PinNotFourDigits)
    }
}

/// Whether a PIN is set.
pub fn has_pin(stored_hash: &Option<String>) -> (r: bool)
    ensures
        r == (opt_text(*stored_hash) matches Some(h) && h.len() > 0),
{
    match stored_hash {
        Some(h) => !h.as_str().is_empty(),
        None => false,
    }
}

/// What was found out about a request for a session of a point of sale: whether
/// it comes with a dashboard session; otherwise what a search by the hash of the
/// PIN gave, and whether the merchant that it names could be read; whether any
/// merchant has a PIN; and the hash that is stored for the merchant.
pub struct PosFacts {
    pub has_dashboard: bool,
    pub by_pin: Lookup<bool>,
    pub any_pin_set: bool,
    pub stored_hash: Option<String>,
}

/// Why no session is opened, if none is.
pub open spec fn pos_error(pin: Seq<char>, facts: &PosFacts) -> Option<PosRefusal> {
    if !is_pin(pin) {
        Some(PosRefusal::PinMalformed)
    } else if !facts.has_dashboard && !(facts.by_pin is Found) {
        if facts.by_pin is Failed {
            Some(PosRefusal::LookupFailed)
        } else if facts.any_pin_set {
            Some(PosRefusal::InvalidPin)
        } else {
            Some(PosRefusal::PinNotSet)
        }
    } else if !facts.has_dashboard && facts.by_pin == Lookup::Found(false) {
        Some(PosRefusal::InvalidPin)
    } else if opt_text(facts.stored_hash) matches Some(h) && h.len() > 0 {
        if opt_text(facts.stored_hash) == Some(key_hash(pin)) {
            None
        } else {
            Some(PosRefusal::InvalidPin)
        }
    } else if facts.has_dashboard {
        None
    } else {
        Some(PosRefusal::PinNotSet)
    }
}

/// Whether a session of a point of sale is opened: the PIN has to be the
/// merchant's; where none is set, the dashboard session stands for it.
pub fn check_pos_session(body: &VerifyPinRequest, facts: &PosFacts) -> (r: Result<(), PosRefusal>)
    ensures
        match r {
            Ok(_) => pos_error(body.pin@, facts) is None,
            Err(e) => pos_error(body.pin@, facts) == Some(e),
        },
{
    if !valid_pin(body.pin.as_str()) {
        return Err(PosRefusal::PinMalformed);
    }
    if !facts.has_dashboard {
        match facts.by_pin {
            Lookup::Found(true) => {},
            Lookup::Found(false) => {
                return Err(PosRefusal::InvalidPin);
            },
            Lookup::Missing => {
                return if facts.any_pin_set {
                    Err(PosRefusal::InvalidPin)
                } else {
                    Err(PosRefusal::PinNotSet)
                };
            },
            Lookup::Failed => {
                return Err(PosRefusal::LookupFailed);
            },
        }
    }
    match &facts.stored_hash {
        Some(h) => if !h.as_str().is_empty() {
            let own: String = hash_key(body.pin.as_str());
            return if text_eq(own.as_str(), h.as_str()) {
                Ok(())
            } else {
                Err(PosRefusal::InvalidPin)
            };
        },
        None => {},
    }
    if facts.has_dashboard {
        Ok(())
    } else {
        Err(PosRefusal::PinNotSet)
    }
}

/// Where a PIN is set, no session is opened without it, not even from the
/// dashboard.
pub proof fn set_pin_is_asked_for(pin: Seq<char>, facts: PosFacts)
    requires
        pos_error(pin, &facts) is None,
        opt_text(facts.stored_hash) matches Some(h) && h.len() > 0,
    ensures
        opt_text(facts.stored_hash) == Some(key_hash(pin)),
{
}

/// A PIN is four digits.
pub proof fn pin_is_four_digits(s: Seq<char>)
    ensures
        is_pin(s) <==> s.len() == 4 && '0' <= s[0] <= '9' && '0' <= s[1] <= '9' && '0' <= s[2]
            <= '9' && '0' <= s[3] <= '9',
{
    if is_pin(s) {
        assert(is_digit(s[0]) && is_digit(s[1]) && is_digit(s[2]) && is_digit(s[3]));
    }
}

/// A merchant who is signed in gets in with the PIN that is set, and with any
/// where none is. Anybody else needs the PIN of a merchant. A wrong PIN is told
/// from one that is not set.
pub proof fn pin_lets_in(pin: Seq<char>, facts: &PosFacts)
    ensures
        ({
            let e = pos_error(pin, facts);
            let set = facts.stored_hash is Some && facts.stored_hash->0@.len() > 0;
            let right = set && facts.stored_hash->0@ == key_hash(pin);
            let known = facts.by_pin is Found && facts.by_pin->Found_0;
            &&& !is_pin(pin) <==> e == Some(PosRefusal::PinMalformed)
            &&& is_pin(pin) && facts.has_dashboard && !set ==> e is None
            &&& is_pin(pin) && (facts.has_dashboard || known) && right ==> e is None
            &&& is_pin(pin) && (facts.has_dashboard || known) && set && !right ==> e == Some(
                PosRefusal::InvalidPin,
            )
            &&& is_pin(pin) && !facts.has_dashboard && known && !set ==> e == Some(
                PosRefusal::PinNotSet,
            )
            &&& is_pin(pin) && !facts.has_dashboard && facts.by_pin is Found && !known ==> e
                == Some(PosRefusal::InvalidPin)
            &&& is_pin(pin) && !facts.has_dashboard && facts.by_pin is Failed ==> e == Some(
                PosRefusal::LookupFailed,
            )
            &&& is_pin(pin) && !facts.has_dashboard && facts.by_pin is Missing
                && facts.any_pin_set ==> e == Some(PosRefusal::InvalidPin)
            &&& is_pin(pin) && !facts.has_dashboard && facts.by_pin is Missing
                && !facts.any_pin_set ==> e == Some(PosRefusal::PinNotSet)
            &&& e is None ==> is_pin(pin) && (facts.has_dashboard && !set || right)
        }),
{
}

/// A request is refused with 400 where the request is at fault, with 401 where
/// the caller is not known, with 500 where the service is at fault.
pub proof fn pos_refusals_have_their_status(e: PosRefusal)
    ensures
        e.spec_reply().0 == 400 <==> e is PinNotFourDigits || e is PinMalformed || e is PinNotSet,
        e.spec_reply().0 == 401 <==> e is InvalidPin,
        e.spec_reply().0 == 500 <==> e is LookupFailed,
{
}

} // verus!
