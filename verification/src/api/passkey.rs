//! Passkeys: the challenges of their ceremonies, and when a recent proof of
//! identity is asked for.

use vstd::prelude::*;

use crate::api::auth::{DashboardSession, SESSION_HOURS};
use crate::api::Lookup;
use crate::base64url;
use crate::base64url::base64_text;
use crate::clock::{
    parse_timestamp, parsed_datetime, timestamp, timestamp_text, Moment, TIMESTAMP_FORMAT,
};
use crate::ids::{is_hyphenated, new_id};
use crate::text::{
    chars_of, copy_text, lex_less, opt_str, opt_text, text_between, text_eq, text_less,
};

verus! {

/// Seconds for which a challenge stands.
pub const CHALLENGE_EXPIRY_SECS: i64 = 60;

/// Seconds for which a proof of identity counts as recent.
pub const REAUTH_WINDOW_SECS: u32 = 300;

/// Characters of the label of a passkey at most.
pub const MAX_LABEL: usize = 64;

/// A challenge that waits for its answer. One to log in is bound to no
/// merchant.
pub struct Challenge {
    pub id: String,
    pub merchant_id: Option<String>,
    pub flow_type: String,
    pub state_json: String,
    pub expires_at: String,
}

/// What an answered challenge was about.
pub struct ChallengeRecord {
    pub merchant_id: Option<String>,
    pub flow_type: String,
    pub state_json: String,
}

/// The challenges that wait for their answers.
pub struct Challenges {
    pub pending: Vec<Challenge>,
}

impl Challenge {
    /// Whether an answer in a flow meets the challenge.
    pub open spec fn is_met(&self, id: Seq<char>, flow: Seq<char>, now: Seq<char>) -> bool {
        self.id@ == id && self.flow_type@ == flow && lex_less(now, self.expires_at@)
    }

    fn met(&self, id: &str, flow: &str, now: &str) -> (r: bool)
        ensures
            r == self.is_met(id@, flow@, now@),
    {
        text_eq(self.id.as_str(), id) && text_eq(self.flow_type.as_str(), flow) && text_less(
            now,
            self.expires_at.as_str(),
        )
    }
}

impl Challenges {
    /// What holds at all times: identifiers are unique.
    pub open spec fn wf(&self) -> bool {
        forall|i: int, j: int|
            0 <= i < j < self.pending@.len() ==> (#[trigger] self.pending@[i]).id@ != (
            #[trigger] self.pending@[j]).id@
    }

    /// Whether an answer in a flow would meet a challenge.
    pub open spec fn answerable(&self, id: Seq<char>, flow: Seq<char>, now: Seq<char>) -> bool {
        exists|i: int| 0 <= i < self.pending@.len() && (#[trigger] self.pending@[i]).is_met(
            id,
            flow,
            now,
        )
    }

    pub fn new() -> (r: Challenges)
        ensures
            r.wf(),
            r.pending@.len() == 0,
    {
        Challenges { pending: Vec::new() }
    }

    /// Whether a challenge has the identifier.
    pub open spec fn is_taken(&self, id: Seq<char>) -> bool {
        exists|i: int| 0 <= i < self.pending@.len() && #[trigger] self.pending@[i].id@ == id
    }

    fn taken(&self, id: &str) -> (r: bool)
        ensures
            r == self.is_taken(id@),
    {
        let mut i: usize = 0;
        while i < self.pending.len()
            invariant
                i <= self.pending@.len(),
                forall|k: int| 0 <= k < i ==> #[trigger] self.pending@[k].id@ != id@,
            decreases self.pending@.len() - i,
        {
            if text_eq(self.pending[i].id.as_str(), id) {
                return true;
            }
            i = i + 1;
        }
        false
    }

    /// Whether the second list is the first one with one more challenge.
    pub open spec fn extended_to(
        &self,
        after: &Challenges,
        id: Seq<char>,
        merchant_id: Option<Seq<char>>,
        flow_type: Seq<char>,
        state_json: Seq<char>,
        now: i64,
    ) -> bool {
        let c = after.pending@.last();
        &&& after.pending@.len() == self.pending@.len() + 1
        &&& after.pending@.drop_last() == self.pending@
        &&& c.id@ == id
        &&& opt_text(c.merchant_id) == merchant_id
        &&& c.flow_type@ == flow_type
        &&& c.state_json@ == state_json
        &&& c.expires_at@ == timestamp_text(now + CHALLENGE_EXPIRY_SECS)
    }

    /// Adds a challenge under an identifier, to be answered within a minute.
    /// Gives whether the identifier was free.
    pub fn add_challenge(
        &mut self,
        id: &str,
        merchant_id: Option<&str>,
        flow_type: &str,
        state_json: &str,
        now: i64,
    ) -> (r: bool)
        requires
            old(self).wf(),
            0 <= now < 5_000_000_000_000,
        ensures
            final(self).wf(),
            r == !old(self).is_taken(id@),
            !r ==> *final(self) == *old(self),
            r ==> old(self).extended_to(
                final(self),
                id@,
                opt_str(merchant_id),
                flow_type@,
                state_json@,
                now,
            ),
    {
        if self.taken(id) {
            return false;
        }
        let ghost before = self.pending@;
        self.pending.push(
            Challenge {
                id: id.to_string(),
                merchant_id: copy_text(merchant_id),
                flow_type: flow_type.to_string(),
                state_json: state_json.to_string(),
                expires_at: timestamp(now + CHALLENGE_EXPIRY_SECS),
            },
        );
        proof {
            assert(self.pending@.drop_last() =~= before);
            assert forall|i: int, j: int| 0 <= i < j < self.pending@.len() implies (
            #[trigger] self.pending@[i]).id@ != (#[trigger] self.pending@[j]).id@ by {
                assert(self.pending@[i] == before[i]);
                if j < before.len() {
                    assert(self.pending@[j] == before[j]);
                }
            }
        }
        true
    }

    /// Adds a challenge under an identifier that is drawn for it. Gives the
    /// identifier, or nothing where it was taken.
    pub fn store_challenge(
        &mut self,
        merchant_id: Option<&str>,
        flow_type: &str,
        state_json: &str,
        now: i64,
    ) -> (r: Option<String>)
        requires
            old(self).wf(),
            0 <= now < 5_000_000_000_000,
        ensures
            final(self).wf(),
            match r {
                None => *final(self) == *old(self) && exists|id: Seq<char>|
                    is_hyphenated(id) && #[trigger] old(self).is_taken(id),
                Some(id) => is_hyphenated(id@) && old(self).extended_to(
                    final(self),
                    id@,
                    opt_str(merchant_id),
                    flow_type@,
                    state_json@,
                    now,
                ),
            },
    {
        let id: String = new_id();
        if self.add_challenge(id.as_str(), merchant_id, flow_type, state_json, now) {
            Some(id)
        } else {
            None
        }
    }

    /// Takes the challenge that an answer in a flow meets. It can be taken
    /// once only.
    pub fn consume_challenge(&mut self, challenge_id: &str, expected_flow: &str, now: &str) -> (r:
        Option<ChallengeRecord>)
        requires
            old(self).wf(),
        ensures
            final(self).wf(),
            match r {
                None => !old(self).answerable(challenge_id@, expected_flow@, now@) && *final(self)
                    == *old(self),
                Some(c) => exists|i: int|
                    0 <= i < old(self).pending@.len() && (
                    #[trigger] old(self).pending@[i]).is_met(challenge_id@, expected_flow@, now@)
                        && final(self).pending@ == old(self).pending@.remove(i) && c.merchant_id
                        == old(self).pending@[i].merchant_id && c.flow_type
                        == old(self).pending@[i].flow_type && c.state_json
                        == old(self).pending@[i].state_json,
            },
            r is Some ==> !final(self).is_taken(challenge_id@),
    {
        let mut i: usize = 0;
        while i < self.pending.len()
            invariant
                i <= self.pending@.len(),
                *self == *old(self),
                self.wf(),
                forall|k: int|
                    0 <= k < i ==> !(#[trigger] self.pending@[k]).is_met(
                        challenge_id@,
                        expected_flow@,
                        now@,
                    ),
            decreases self.pending@.len() - i,
        {
            if self.pending[i].met(challenge_id, expected_flow, now) {
                let ghost before = self.pending@;
                assert(before[i as int].is_met(challenge_id@, expected_flow@, now@));
                let c: Challenge = self.pending.remove(i);
                proof {
                    assert forall|k: int| 0 <= k < self.pending@.len() implies
                        #[trigger] self.pending@[k].id@ != challenge_id@ by {
                        if k < i {
                            assert(self.pending@[k] == before[k]);
                            assert(before[k].id@ != before[i as int].id@);
                        } else {
                            assert(self.pending@[k] == before[k + 1]);
                            assert(before[i as int].id@ != before[k + 1].id@);
                        }
                    }
                    assert forall|a: int, b: int| 0 <= a < b < self.pending@.len() implies (
                    #[trigger] self.pending@[a]).id@ != (#[trigger] self.pending@[b]).id@ by {
                        let x = if a < i {
                            a
                        } else {
                            a + 1
                        };
                        let y = if b < i {
                            b
                        } else {
                            b + 1
                        };
                        assert(before[x].id@ != before[y].id@);
                    }
                }
                return Some(
                    ChallengeRecord {
                        merchant_id: c.merchant_id,
                        flow_type: c.flow_type,
                        state_json: c.state_json,
                    },
                );
            }
            i = i + 1;
        }
        None
    }
}

/// A challenge that was answered cannot be answered again, in whichever flow
/// and at whichever time.
pub proof fn challenge_is_answered_once(
    after: Challenges,
    id: Seq<char>,
    flow: Seq<char>,
    now: Seq<char>,
)
    requires
        !after.is_taken(id),
    ensures
        !after.answerable(id, flow, now),
{
    if after.answerable(id, flow, now) {
        let i = choose|i: int|
            0 <= i < after.pending@.len() && (#[trigger] after.pending@[i]).is_met(id, flow, now);
        assert(after.pending@[i].id@ == id);
    }
}

/// Whether the identity of a session was proved lately.
pub open spec fn is_recent_proof(reauth_at: Option<Seq<char>>, now: Moment) -> bool {
    reauth_at matches Some(t) && (parsed_datetime(t, TIMESTAMP_FORMAT@) matches Some(m)
        && now.nanos_since(m) < REAUTH_WINDOW_SECS * 1_000_000_000)
}

/// Whether the identity of a session was proved lately; `reauth_at` is when it
/// was last, where the session stands and it ever was.
pub fn check_reauth(reauth_at: Option<&str>, now: Moment) -> (r: bool)
    requires
        now.wf(),
    ensures
        r == is_recent_proof(opt_str(reauth_at), now),
{
    match reauth_at {
        Some(t) => match parse_timestamp(t) {
            Some(m) => now.is_within(m, REAUTH_WINDOW_SECS),
            None => false,
        },
        None => false,
    }
}

/// The label of a passkey: the first characters of what is asked for.
pub open spec fn label_text(label: Option<Seq<char>>) -> Seq<char> {
    let asked = match label {
        Some(l) => l,
        None => "Passkey"@,
    };
    if asked.len() > MAX_LABEL {
        asked.take(MAX_LABEL as int)
    } else {
        asked
    }
}

/// The label of a passkey: the first characters of what is asked for.
pub fn passkey_label(label: Option<&str>) -> (r: String)
    ensures
        r@ == label_text(opt_str(label)),
{
    let asked: &str = match label {
        Some(l) => l,
        None => "Passkey",
    };
    let x: Vec<char> = chars_of(asked);
    let n: usize = if x.len() > MAX_LABEL {
        MAX_LABEL
    } else {
        x.len()
    };
    let r: String = text_between(&x, 0, n);
    assert(r@ =~= x@.take(n as int));
    assert(x@.take(x@.len() as int) =~= x@);
    r
}

/// The name under which a merchant registers a passkey.
pub fn friendly_name(merchant_name: &str) -> (r: String)
    ensures
        r@ == if merchant_name@.len() == 0 {
            "CipherPay Merchant"@
        } else {
            merchant_name@
        },
{
    if merchant_name.is_empty() {
        "CipherPay Merchant".to_string()
    } else {
        merchant_name.to_string()
    }
}

// ---------------------------------------------------------------------------
// Ceremonies
// ---------------------------------------------------------------------------

/// Why a request about passkeys is refused.
#[derive(Debug, Clone, Copy, PartialEq, Eq, Structural)]
pub enum PasskeyRefusal {
    ReauthRequired,
    InvalidChallenge,
    ForeignChallenge,
    NotConfigured,
    NoPasskeys,
    RegistrationFailed,
    AuthenticationFailed,
    VerificationFailed,
    UnknownCredential,
    ForeignCredential,
    InvalidToken,
    NothingGiven,
    PasskeyNotFound,
    Failed,
}

impl PasskeyRefusal {
    pub open spec fn spec_reply(self) -> (u16, Seq<char>) {
        match self {
            PasskeyRefusal::ReauthRequired => (403, "Recent re-authentication required"@),
            PasskeyRefusal::InvalidChallenge => (400, "Invalid or expired challenge"@),
            PasskeyRefusal::ForeignChallenge => (403, "Challenge does not match session"@),
            PasskeyRefusal::NotConfigured => (500, "WebAuthn not configured"@),
            PasskeyRefusal::NoPasskeys => (400, "No passkeys registered on this instance"@),
            PasskeyRefusal::RegistrationFailed => (400, "Registration verification failed"@),
            PasskeyRefusal::AuthenticationFailed => (401, "Authentication failed"@),
            PasskeyRefusal::VerificationFailed => (401, "Passkey verification failed"@),
            PasskeyRefusal::UnknownCredential => (401, "Credential not found"@),
            PasskeyRefusal::ForeignCredential => (403, "Credential does not match session"@),
            PasskeyRefusal::InvalidToken => (401, "Invalid dashboard token"@),
            PasskeyRefusal::NothingGiven => (
                400,
                "Provide either 'token' or 'passkey_challenge_id' + 'passkey_credential'"@,
            ),
            PasskeyRefusal::PasskeyNotFound => (404, "Passkey not found"@),
            PasskeyRefusal::Failed => (500, "Internal error"@),
        }
    }

    /// The HTTP status and the message.
    pub fn reply(&self) -> (r: (u16, &'static str))
        ensures
            (r.0, r.1@) == self.spec_reply(),
    {
        match self {
            PasskeyRefusal::ReauthRequired => (403, "Recent re-authentication required"),
            PasskeyRefusal::InvalidChallenge => (400, "Invalid or expired challenge"),
            PasskeyRefusal::ForeignChallenge => (403, "Challenge does not match session"),
            PasskeyRefusal::NotConfigured => (500, "WebAuthn not configured"),
            PasskeyRefusal::NoPasskeys => (400, "No passkeys registered on this instance"),
            PasskeyRefusal::RegistrationFailed => (400, "Registration verification failed"),
            PasskeyRefusal::AuthenticationFailed => (401, "Authentication failed"),
            PasskeyRefusal::VerificationFailed => (401, "Passkey verification failed"),
            PasskeyRefusal::UnknownCredential => (401, "Credential not found"),
            PasskeyRefusal::ForeignCredential => (403, "Credential does not match session"),
            PasskeyRefusal::InvalidToken => (401, "Invalid dashboard token"),
            PasskeyRefusal::NothingGiven => (
                400,
                "Provide either 'token' or 'passkey_challenge_id' + 'passkey_credential'",
            ),
            PasskeyRefusal::PasskeyNotFound => (404, "Passkey not found"),
            PasskeyRefusal::Failed => (500, "Internal error"),
        }
    }
}

/// What the authenticator's answer to a challenge came to: there are no
/// settings to check it by, the state of the challenge cannot be read, the
/// answer is wrong, or it proves the credential with this identifier.
pub enum Ceremony {
    NotConfigured,
    StateUnreadable,
    Rejected,
    Proved(Vec<u8>),
}

/// The identifier under which a credential is stored.
pub open spec fn credential_text(id: Seq<u8>) -> Seq<char> {
    base64_text(id)
}

/// What a ceremony proved, where `rejected` is why a wrong answer is refused.
pub open spec fn ceremony_view(c: &Ceremony, rejected: PasskeyRefusal) -> Result<
    Seq<char>,
    PasskeyRefusal,
> {
    match c {
        Ceremony::NotConfigured => Err(PasskeyRefusal::NotConfigured),
        Ceremony::StateUnreadable => Err(PasskeyRefusal::Failed),
        Ceremony::Rejected => Err(rejected),
        Ceremony::Proved(id) => Ok(credential_text(id@)),
    }
}

fn credential_of(c: &Ceremony, rejected: PasskeyRefusal) -> (r: Result<String, PasskeyRefusal>)
    ensures
        match r {
            Ok(id) => ceremony_view(c, rejected) == Ok::<Seq<char>, PasskeyRefusal>(id@),
            Err(e) => ceremony_view(c, rejected) == Err::<Seq<char>, PasskeyRefusal>(e),
        },
{
    match c {
        Ceremony::NotConfigured => Err(PasskeyRefusal::NotConfigured),
        Ceremony::StateUnreadable => Err(PasskeyRefusal::Failed),
        Ceremony::Rejected => Err(rejected),
        Ceremony::Proved(id) => Ok(base64url::encode(id.as_slice())),
    }
}

/// A passkey that is to be stored.
pub struct NewPasskey {
    pub id: String,
    pub merchant_id: String,
    pub label: String,
}

/// Whether a passkey may be registered or removed: the identity has to have
/// been proved lately.
pub fn require_reauth(reauth_at: Option<&str>, now: Moment) -> (r: Result<(), PasskeyRefusal>)
    requires
        now.wf(),
    ensures
        r == if is_recent_proof(opt_str(reauth_at), now) {
            Ok::<(), PasskeyRefusal>(())
        } else {
            Err(PasskeyRefusal::ReauthRequired)
        },
{
    if check_reauth(reauth_at, now) {
        Ok(())
    } else {
        Err(PasskeyRefusal::ReauthRequired)
    }
}

/// Whether anybody can log in by a passkey.
pub fn login_begin(configured: bool, passkeys: usize) -> (r: Result<(), PasskeyRefusal>)
    ensures
        r == if !configured {
            Err::<(), PasskeyRefusal>(PasskeyRefusal::NotConfigured)
        } else if passkeys == 0 {
            Err(PasskeyRefusal::NoPasskeys)
        } else {
            Ok(())
        },
{
    if !configured {
        Err(PasskeyRefusal::NotConfigured)
    } else if passkeys == 0 {
        Err(PasskeyRefusal::NoPasskeys)
    } else {
        Ok(())
    }
}

/// Why the answer to a challenge to register is refused, if it is. The
/// challenge has to be one of the merchant of the session.
pub open spec fn registration_error(
    challenge: Lookup<ChallengeRecord>,
    merchant_id: Seq<char>,
    outcome: &Ceremony,
) -> Option<PasskeyRefusal> {
    match challenge {
        Lookup::Missing => Some(PasskeyRefusal::InvalidChallenge),
        Lookup::Failed => Some(PasskeyRefusal::Failed),
        Lookup::Found(c) => if opt_text(c.merchant_id) != Some(merchant_id) {
            Some(PasskeyRefusal::ForeignChallenge)
        } else {
            match ceremony_view(outcome, PasskeyRefusal::RegistrationFailed) {
                Ok(_) => None,
                Err(e) => Some(e),
            }
        },
    }
}

/// Ends the registration of a passkey: the passkey to store, or why there is
/// none.
pub fn register_complete(
    challenge: &Lookup<ChallengeRecord>,
    merchant_id: &str,
    outcome: &Ceremony,
    label: Option<&str>,
) -> (r: Result<NewPasskey, PasskeyRefusal>)
    ensures
        match r {
            Err(e) => registration_error(*challenge, merchant_id@, outcome) == Some(e),
            Ok(p) => {
                &&& registration_error(*challenge, merchant_id@, outcome) is None
                &&& Ok::<Seq<char>, PasskeyRefusal>(p.id@) == ceremony_view(
                    outcome,
                    PasskeyRefusal::RegistrationFailed,
                )
                &&& p.merchant_id@ == merchant_id@
                &&& p.label@ == label_text(opt_str(label))
            },
        },
{
    let c: &ChallengeRecord = match challenge {
        Lookup::Missing => {
            return Err(PasskeyRefusal::InvalidChallenge);
        },
        Lookup::Failed => {
            return Err(PasskeyRefusal::Failed);
        },
        Lookup::Found(c) => c,
    };
    let own: bool = match &c.merchant_id {
        Some(m) => text_eq(m.as_str(), merchant_id),
        None => false,
    };
    if !own {
        return Err(PasskeyRefusal::ForeignChallenge);
    }
    match credential_of(outcome, PasskeyRefusal::RegistrationFailed) {
        Ok(id) => Ok(
            NewPasskey { id, merchant_id: merchant_id.to_string(), label: passkey_label(label) },
        ),
        Err(e) => Err(e),
    }
}

/// Why the answer to a challenge to log in is refused, if it is; `owner` is the
/// merchant whose credential was proved.
pub open spec fn login_error(
    challenge: Lookup<ChallengeRecord>,
    outcome: &Ceremony,
    owner: Lookup<String>,
) -> Option<PasskeyRefusal> {
    match challenge {
        Lookup::Missing => Some(PasskeyRefusal::InvalidChallenge),
        Lookup::Failed => Some(PasskeyRefusal::Failed),
        Lookup::Found(_) => match ceremony_view(outcome, PasskeyRefusal::AuthenticationFailed) {
            Err(e) => Some(e),
            Ok(_) => match owner {
                Lookup::Found(_) => None,
                Lookup::Missing => Some(PasskeyRefusal::UnknownCredential),
                Lookup::Failed => Some(PasskeyRefusal::Failed),
            },
        },
    }
}

/// Ends a login by a passkey: a session for the merchant whose credential was
/// proved, or why there is none.
pub fn login_complete(
    challenge: &Lookup<ChallengeRecord>,
    outcome: &Ceremony,
    owner: &Lookup<String>,
    now: i64,
) -> (r: Result<DashboardSession, PasskeyRefusal>)
    requires
        0 <= now < 5_000_000_000_000,
    ensures
        match r {
            Err(e) => login_error(*challenge, outcome, *owner) == Some(e),
            Ok(s) => {
                &&& login_error(*challenge, outcome, *owner) is None
                &&& *owner matches Lookup::Found(m) && s.merchant_id@ == m@
                &&& is_hyphenated(s.id@)
                &&& s.expires_at@ == timestamp_text(now + 24 * 3600)
            },
        },
{
    match challenge {
        Lookup::Missing => {
            return Err(PasskeyRefusal::InvalidChallenge);
        },
        Lookup::Failed => {
            return Err(PasskeyRefusal::Failed);
        },
        Lookup::Found(_) => {},
    }
    match credential_of(outcome, PasskeyRefusal::AuthenticationFailed) {
        Err(e) => {
            return Err(e);
        },
        Ok(_) => {},
    }
    match owner {
        Lookup::Found(m) => Ok(DashboardSession::open(m.as_str(), SESSION_HOURS, now)),
        Lookup::Missing => Err(PasskeyRefusal::UnknownCredential),
        Lookup::Failed => Err(PasskeyRefusal::Failed),
    }
}

/// How somebody proves again who they are: by the dashboard token, of which the
/// merchant it opens was looked for, or by a passkey, with the challenge, what
/// the answer came to and the merchant whose credential it is.
pub enum Proof {
    Token(Lookup<String>),
    Passkey(Lookup<ChallengeRecord>, Ceremony, Lookup<String>),
    Nothing,
}

/// Why a proof of identity is refused, if it is.
pub open spec fn reauth_error(given: &Proof, merchant_id: Seq<char>) -> Option<PasskeyRefusal> {
    match given {
        Proof::Token(owner) => if owner matches Lookup::Found(m) && m@ == merchant_id {
            None
        } else {
            Some(PasskeyRefusal::InvalidToken)
        },
        Proof::Passkey(challenge, outcome, owner) => if !(challenge is Found) {
            Some(PasskeyRefusal::InvalidChallenge)
        } else {
            match ceremony_view(outcome, PasskeyRefusal::VerificationFailed) {
                Err(e) => Some(e),
                Ok(_) => if owner matches Lookup::Found(m) && m@ == merchant_id {
                    None
                } else {
                    Some(PasskeyRefusal::ForeignCredential)
                },
            }
        },
        Proof::Nothing => Some(PasskeyRefusal::NothingGiven),
    }
}

fn is_owner(owner: &Lookup<String>, merchant_id: &str) -> (r: bool)
    ensures
        r == (owner matches Lookup::Found(m) && m@ == merchant_id@),
{
    match owner {
        Lookup::Found(m) => text_eq(m.as_str(), merchant_id),
        _ => false,
    }
}

/// Judges a proof of identity: the time to note in the session, or why it is
/// refused.
pub fn reauth(given: &Proof, merchant_id: &str, now: i64) -> (r: Result<String, PasskeyRefusal>)
    requires
        0 <= now < 5_000_000_000_000,
    ensures
        match r {
            Ok(at) => reauth_error(given, merchant_id@) is None && at@ == timestamp_text(
                now as int,
            ),
            Err(e) => reauth_error(given, merchant_id@) == Some(e),
        },
{
    match given {
        Proof::Token(owner) => if is_owner(owner, merchant_id) {
            Ok(timestamp(now))
        } else {
            Err(PasskeyRefusal::InvalidToken)
        },
        Proof::Passkey(challenge, outcome, owner) => {
            match challenge {
                Lookup::Found(_) => {},
                _ => {
                    return Err(PasskeyRefusal::InvalidChallenge);
                },
            }
            match credential_of(outcome, PasskeyRefusal::VerificationFailed) {
                Err(e) => {
                    return Err(e);
                },
                Ok(_) => {},
            }
            if is_owner(owner, merchant_id) {
                Ok(timestamp(now))
            } else {
                Err(PasskeyRefusal::ForeignCredential)
            }
        },
        Proof::Nothing => Err(PasskeyRefusal::NothingGiven),
    }
}

/// A passkey as it is stored.
pub struct StoredPasskey {
    pub id: String,
    pub merchant_id: String,
}

/// Whether a passkey is the one of a merchant that is asked for.
pub open spec fn is_own_passkey(p: &StoredPasskey, id: Seq<char>, merchant_id: Seq<char>) -> bool {
    p.id@ == id && p.merchant_id@ == merchant_id
}

/// Removes a passkey of a merchant, where the identity was proved lately. What
/// is kept is what is not the merchant's passkey with that identifier.
pub fn delete_passkey(
    passkeys: &mut Vec<StoredPasskey>,
    id: &str,
    merchant_id: &str,
    reauth_at: Option<&str>,
    now: Moment,
) -> (r: Result<(), PasskeyRefusal>)
    requires
        now.wf(),
    ensures
        final(passkeys)@ == if is_recent_proof(opt_str(reauth_at), now) {
            old(passkeys)@.filter(|p: StoredPasskey| !is_own_passkey(&p, id@, merchant_id@))
        } else {
            old(passkeys)@
        },
        r == if !is_recent_proof(opt_str(reauth_at), now) {
            Err::<(), PasskeyRefusal>(PasskeyRefusal::ReauthRequired)
        } else if final(passkeys)@.len() == old(passkeys)@.len() {
            Err(PasskeyRefusal::PasskeyNotFound)
        } else {
            Ok(())
        },
{
    match require_reauth(reauth_at, now) {
        Err(e) => {
            return Err(e);
        },
        Ok(_) => {},
    }
    let ghost before = passkeys@;
    let ghost keep = |p: StoredPasskey| !is_own_passkey(&p, id@, merchant_id@);
    let n: usize = passkeys.len();
    let mut left: Vec<StoredPasskey> = Vec::new();
    let mut i: usize = 0;
    while i < n
        invariant
            i <= n,
            n == before.len(),
            passkeys@ == before.skip(i as int),
            keep == (|p: StoredPasskey| !is_own_passkey(&p, id@, merchant_id@)),
            left@ == before.take(i as int).filter(keep),
        decreases n - i,
    {
        let p: StoredPasskey = passkeys.remove(0);
        proof {
            reveal(Seq::filter);
            assert(before.take(i + 1).drop_last() =~= before.take(i as int));
            assert(before.take(i + 1).last() == p);
            assert(passkeys@ =~= before.skip(i + 1));
        }
        if !(text_eq(p.id.as_str(), id) && text_eq(p.merchant_id.as_str(), merchant_id)) {
            left.push(p);
        }
        i = i + 1;
    }
    assert(before.take(n as int) =~= before);
    let removed: bool = left.len() != n;
    *passkeys = left;
    if removed {
        Ok(())
    } else {
        Err(PasskeyRefusal::PasskeyNotFound)
    }
}

/// A challenge is answered by its id, in the flow it was made for, and before it
/// expires.
pub proof fn challenge_is_met_in_its_flow(
    c: Challenge,
    id: Seq<char>,
    flow: Seq<char>,
    now: Seq<char>,
)
    ensures
        c.is_met(id, flow, now) <==> c.id@ == id && c.flow_type@ == flow && lex_less(
            now,
            c.expires_at@,
        ),
        !c.is_met(id, flow, c.expires_at@),
{
    crate::text::lex_less_irreflexive(c.expires_at@);
}

/// A new challenge comes behind the others, as it was asked for, and expires
/// after a minute.
pub proof fn new_challenge_lasts_a_minute(
    before: Challenges,
    after: Challenges,
    id: Seq<char>,
    merchant_id: Option<Seq<char>>,
    flow_type: Seq<char>,
    state_json: Seq<char>,
    now: i64,
)
    requires
        before.extended_to(&after, id, merchant_id, flow_type, state_json, now),
    ensures
        ({
            let c = after.pending@.last();
            &&& c.expires_at@ == timestamp_text(now + 60)
            &&& c.id@ == id && c.flow_type@ == flow_type && c.state_json@ == state_json
            &&& opt_text(c.merchant_id) == merchant_id
        }),
        after.pending@.len() == before.pending@.len() + 1,
        after.is_taken(id),
        forall|i: int|
            0 <= i < before.pending@.len() ==> #[trigger] after.pending@[i] == before.pending@[i],
{
    assert(after.pending@[after.pending@.len() - 1].id@ == id);
    assert forall|i: int| 0 <= i < before.pending@.len() implies #[trigger] after.pending@[i]
        == before.pending@[i] by {
        assert(after.pending@.drop_last()[i] == before.pending@[i]);
    }
}

/// A proof of identity is recent for five minutes.
pub proof fn proof_is_recent_for_five_minutes(at: Seq<char>, given: Moment, now: Moment)
    requires
        parsed_datetime(at, "%Y-%m-%dT%H:%M:%SZ"@) == Some(given),
        given.nanos < 1_000_000_000,
        now.nanos < 1_000_000_000,
    ensures
        is_recent_proof(Some(at), now) <==> (now.secs - given.secs) * 1_000_000_000 + now.nanos
            - given.nanos < 300_000_000_000,
        !is_recent_proof(None, now),
{
}

/// A passkey is labelled as was asked, in 64 characters at most, or has a label
/// of its own.
pub proof fn passkey_has_a_label(label: Option<Seq<char>>)
    ensures
        label is None ==> label_text(label) == "Passkey"@,
        label matches Some(l) ==> {
            &&& l.len() <= 64 ==> label_text(label) == l
            &&& l.len() > 64 ==> label_text(label) == l.take(64)
        },
{
    reveal_strlit("Passkey");
    assert("Passkey"@.len() == 7);
}

/// A ceremony that proved something names the credential, and each way to fail
/// is told apart.
pub proof fn ceremony_is_told(c: Ceremony, rejected: PasskeyRefusal)
    ensures
        c matches Ceremony::Proved(id) ==> ceremony_view(&c, rejected) == Ok::<
            Seq<char>,
            PasskeyRefusal,
        >(base64_text(id@)),
        c is NotConfigured ==> ceremony_view(&c, rejected) == Err::<Seq<char>, PasskeyRefusal>(
            PasskeyRefusal::NotConfigured,
        ),
        c is StateUnreadable ==> ceremony_view(&c, rejected) == Err::<Seq<char>, PasskeyRefusal>(
            PasskeyRefusal::Failed,
        ),
        c is Rejected ==> ceremony_view(&c, rejected) == Err::<Seq<char>, PasskeyRefusal>(rejected),
{
}

/// A passkey is registered exactly by the merchant that the challenge was made
/// for, with a ceremony that proved it.
pub proof fn passkey_is_registered_by_its_merchant(
    challenge: Lookup<ChallengeRecord>,
    merchant_id: Seq<char>,
    outcome: &Ceremony,
)
    ensures
        ({
            let e = registration_error(challenge, merchant_id, outcome);
            let own = challenge is Found && challenge->Found_0.merchant_id is Some
                && challenge->Found_0.merchant_id->0@ == merchant_id;
            &&& challenge is Missing ==> e == Some(PasskeyRefusal::InvalidChallenge)
            &&& challenge is Failed ==> e == Some(PasskeyRefusal::Failed)
            &&& challenge is Found && !own ==> e == Some(PasskeyRefusal::ForeignChallenge)
            &&& own && outcome is NotConfigured ==> e == Some(PasskeyRefusal::NotConfigured)
            &&& own && outcome is Rejected ==> e == Some(PasskeyRefusal::RegistrationFailed)
            &&& own && outcome is StateUnreadable ==> e == Some(PasskeyRefusal::Failed)
            &&& own && outcome is Proved <==> e is None
        }),
{
}

/// A passkey signs in where the challenge was made, the ceremony proved it, and
/// somebody owns the credential.
pub proof fn passkey_signs_in_its_owner(
    challenge: Lookup<ChallengeRecord>,
    outcome: &Ceremony,
    owner: Lookup<String>,
)
    ensures
        ({
            let e = login_error(challenge, outcome, owner);
            let proved = challenge is Found && outcome is Proved;
            &&& challenge is Missing ==> e == Some(PasskeyRefusal::InvalidChallenge)
            &&& challenge is Failed ==> e == Some(PasskeyRefusal::Failed)
            &&& challenge is Found && outcome is Rejected ==> e == Some(
                PasskeyRefusal::AuthenticationFailed,
            )
            &&& challenge is Found && outcome is NotConfigured ==> e == Some(
                PasskeyRefusal::NotConfigured,
            )
            &&& proved && owner is Missing ==> e == Some(PasskeyRefusal::UnknownCredential)
            &&& proved && owner is Failed ==> e == Some(PasskeyRefusal::Failed)
            &&& proved && owner is Found <==> e is None
        }),
{
}

/// A merchant proves an identity with a token or a passkey of its own, and with
/// nothing else.
pub proof fn identity_is_proved_by_its_owner(given: Proof, merchant_id: Seq<char>)
    ensures
        ({
            let e = reauth_error(&given, merchant_id);
            match given {
                Proof::Token(owner) => {
                    let own = owner is Found && owner->Found_0@ == merchant_id;
                    &&& own ==> e is None
                    &&& !own ==> e == Some(PasskeyRefusal::InvalidToken)
                },
                Proof::Passkey(challenge, outcome, owner) => {
                    let own = owner is Found && owner->Found_0@ == merchant_id;
                    let proved = challenge is Found && outcome is Proved;
                    &&& !(challenge is Found) ==> e == Some(PasskeyRefusal::InvalidChallenge)
                    &&& challenge is Found && outcome is Rejected ==> e == Some(
                        PasskeyRefusal::VerificationFailed,
                    )
                    &&& proved && !own ==> e == Some(PasskeyRefusal::ForeignCredential)
                    &&& proved && own <==> e is None
                },
                Proof::Nothing => e == Some(PasskeyRefusal::NothingGiven),
            }
        }),
{
}

/// A passkey is found by its id, and only for its own merchant.
pub proof fn passkey_is_found_by_its_merchant(
    p: &StoredPasskey,
    id: Seq<char>,
    merchant_id: Seq<char>,
)
    ensures
        is_own_passkey(p, id, merchant_id) <==> p.id@ == id && p.merchant_id@ == merchant_id,
{
}

/// A request is refused with 400 where the request is at fault, with 401 where
/// the caller is not known, with 403 where the caller may not do it, with 404
/// where something is not there, with 500 where the service is at fault.
pub proof fn passkey_refusals_have_their_status(e: PasskeyRefusal)
    ensures
        e.spec_reply().0 == 400 <==> e is InvalidChallenge || e is NoPasskeys || e is RegistrationFailed || e is NothingGiven,
        e.spec_reply().0 == 401 <==> e is AuthenticationFailed || e is VerificationFailed || e is UnknownCredential || e is InvalidToken,
        e.spec_reply().0 == 403 <==> e is ReauthRequired || e is ForeignChallenge || e is ForeignCredential,
        e.spec_reply().0 == 404 <==> e is PasskeyNotFound,
        e.spec_reply().0 == 500 <==> e is NotConfigured || e is Failed,
{
}

/// A challenge can be answered wherever it stands among those that are pending.
pub proof fn pending_challenge_can_be_answered(
    challenges: Challenges,
    i: int,
    id: Seq<char>,
    flow: Seq<char>,
    now: Seq<char>,
)
    requires
        0 <= i < challenges.pending@.len(),
    ensures
        challenges.pending@[i].id@ == id && challenges.pending@[i].flow_type@ == flow && lex_less(
            now,
            challenges.pending@[i].expires_at@,
        ) ==> challenges.answerable(id, flow, now),
        challenges.is_taken(challenges.pending@[i].id@),
        (forall|k: int|
            0 <= k < challenges.pending@.len() ==> (#[trigger] challenges.pending@[k]).id@ != id)
            ==> !challenges.answerable(id, flow, now) && !challenges.is_taken(id),
{
    if challenges.pending@[i].id@ == id && challenges.pending@[i].flow_type@ == flow && lex_less(
        now,
        challenges.pending@[i].expires_at@,
    ) {
        assert(challenges.pending@[i].is_met(id, flow, now));
    }
}

} // verus!
