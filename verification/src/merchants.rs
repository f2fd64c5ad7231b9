//! Merchants: their accounts, their secrets and how these are stored.

use vstd::prelude::*;
use vstd::utf8::*;

use crate::addresses::{derive_invoice_address, derived_address, DerivedAddress};
use crate::clock::{is_storable, timestamp, timestamp_text};
use crate::crypto::{
    decrypt_or_plaintext, decrypt_webhook_secret, encrypt, encryption_error, is_stored_form,
    key_error, revealed_viewing_key, revealed_webhook_secret, sha256, sha256_digest, CryptoError,
    MAX_PLAINTEXT,
};
use crate::hexadecimal;
use crate::hexadecimal::{hex_roundtrip, hex_text};
use crate::ids::{is_hyphenated, is_lower_hex, new_id, random_bytes};
use crate::scanner::decrypt::KeyError;
use crate::text::{join2, lex_less, opt_text, text_eq, text_less};

verus! {

/// Hours after which a recovery token expires.
pub const RECOVERY_EXPIRY_HOURS: i64 = 1;

/// The diversifier index that the first invoice of a merchant uses; the
/// merchant's own address uses index zero.
pub const FIRST_DIVERSIFIER_INDEX: i64 = 1;

#[derive(Debug)]
pub struct Merchant {
    pub id: String,
    pub name: String,
    pub api_key_hash: String,
    pub dashboard_token_hash: String,
    pub ufvk: String,
    pub payment_address: String,
    pub webhook_url: Option<String>,
    pub webhook_secret: String,
    pub recovery_email: Option<String>,
    pub created_at: String,
    pub diversifier_index: i64,
}

#[derive(Debug)]
pub struct CreateMerchantRequest {
    pub name: Option<String>,
    pub ufvk: String,
    pub webhook_url: Option<String>,
    pub email: Option<String>,
}

#[derive(Debug)]
pub struct CreateMerchantResponse {
    pub merchant_id: String,
    pub api_key: String,
    pub dashboard_token: String,
    pub webhook_secret: String,
}

/// A row of the merchant table, in the order of its columns.
pub type MerchantRow = (
    String,
    String,
    String,
    String,
    String,
    String,
    Option<String>,
    String,
    Option<String>,
    String,
    i64,
);

/// Why a merchant could not be created.
#[derive(Debug, Clone, Copy, PartialEq, Eq, Structural)]
pub enum CreateMerchantError {
    InvalidUfvk(KeyError),
    Crypto(CryptoError),
}

impl CreateMerchantError {
    pub open spec fn spec_message(self) -> Seq<char> {
        match self {
            CreateMerchantError::InvalidUfvk(e) => "Invalid UFVK — could not derive address: "@
                + e.spec_message(),
            CreateMerchantError::Crypto(e) => e.spec_message(),
        }
    }

    pub fn message(&self) -> (r: String)
        ensures
            r@ == self.spec_message(),
    {
        match self {
            CreateMerchantError::InvalidUfvk(e) => join2(
                "Invalid UFVK — could not derive address: ",
                e.message(),
            ),
            CreateMerchantError::Crypto(e) => e.message().to_string(),
        }
    }
}

/// A recovery token as it is stored.
pub struct RecoveryToken {
    pub id: String,
    pub merchant_id: String,
    pub token_hash: String,
    pub expires_at: String,
}

/// The hash under which a key, token or PIN is stored: the hexadecimal
/// notation of its SHA-256 digest.
pub open spec fn key_hash(key: Seq<char>) -> Seq<char> {
    hex_text(sha256(encode_utf8(key)))
}

/// Hashes a key, token or PIN for storage.
pub fn hash_key(key: &str) -> (r: String)
    ensures
        r@ == key_hash(key@),
        r@.len() == 64,
{
    let digest: Vec<u8> = sha256_digest(key.as_bytes());
    hexadecimal::encode(digest.as_slice())
}

/// Whether a text is a secret with a prefix: 64 lowercase hexadecimal digits
/// follow.
pub open spec fn is_secret(s: Seq<char>, prefix: Seq<char>) -> bool {
    &&& s.len() == prefix.len() + 64
    &&& prefix.is_prefix_of(s)
    &&& forall|i: int| prefix.len() <= i < s.len() ==> is_lower_hex(#[trigger] s[i])
}

/// Draws a secret with a prefix.
pub(crate) fn generate_secret(prefix: &str) -> (r: String)
    ensures
        is_secret(r@, prefix@),
{
    let bytes: Vec<u8> = random_bytes(32);
    let digits: String = hexadecimal::encode(bytes.as_slice());
    let r: String = join2(prefix, digits.as_str());
    proof {
        hex_roundtrip(bytes@);
        assert(r@.subrange(0, prefix@.len() as int) =~= prefix@);
        assert forall|i: int| prefix@.len() <= i < r@.len() implies is_lower_hex(
            #[trigger] r@[i],
        ) by {
            let k = i - prefix@.len();
            assert(r@[i] == digits@[k]);
            let d = bytes@[k / 2] as int;
            assert(0 <= d / 16 < 16 && 0 <= d % 16 < 16);
        }
    }
    r
}

/// Draws an API key.
pub fn generate_api_key() -> (r: String)
    ensures
        is_secret(r@, "cpay_sk_"@),
{
    generate_secret("cpay_sk_")
}

/// Draws a dashboard token.
pub fn generate_dashboard_token() -> (r: String)
    ensures
        is_secret(r@, "cpay_dash_"@),
{
    generate_secret("cpay_dash_")
}

/// Draws a webhook secret.
pub fn generate_webhook_secret() -> (r: String)
    ensures
        is_secret(r@, "whsec_"@),
{
    generate_secret("whsec_")
}

/// Whether a value cannot be stored: there is an encryption key, and it or the
/// value is not fit for encryption.
pub open spec fn storage_fails(value: Seq<char>, encryption_key: Seq<char>) -> bool {
    encryption_key.len() > 0 && (key_error(encryption_key) is Some || encode_utf8(value).len()
        > MAX_PLAINTEXT)
}

/// The stored form of a secret: encrypted, where an encryption key is set.
/// Reading it gives the secret back.
pub fn stored_secret(secret: &str, encryption_key: &str) -> (r: Result<String, CryptoError>)
    ensures
        r is Err <==> storage_fails(secret@, encryption_key@),
        r matches Err(e) ==> e == encryption_error(encryption_key@),
        r matches Ok(s) ==> {
            &&& is_stored_form(s@, secret@, encryption_key@)
            &&& revealed_webhook_secret(s@, encryption_key@) == Ok::<Seq<char>, CryptoError>(
                secret@,
            )
            &&& revealed_viewing_key(s@, encryption_key@) == Ok::<Seq<char>, CryptoError>(secret@)
        },
{
    if encryption_key.is_empty() {
        Ok(secret.to_string())
    } else {
        encrypt(secret, encryption_key)
    }
}

/// What a stored value stands for: the value itself where it cannot be read.
pub open spec fn revealed_or_raw(
    revealed: Result<Seq<char>, CryptoError>,
    raw: Seq<char>,
) -> Seq<char> {
    match revealed {
        Ok(s) => s,
        Err(_) => raw,
    }
}

/// Puts a row of the merchant table into a `Merchant`, with its viewing key
/// and webhook secret revealed; one that cannot be read stays as it is stored.
pub fn row_to_merchant(r: MerchantRow, encryption_key: &str) -> (m: Merchant)
    ensures
        m.id == r.0,
        m.name == r.1,
        m.api_key_hash == r.2,
        m.dashboard_token_hash == r.3,
        m.ufvk@ == revealed_or_raw(revealed_viewing_key(r.4@, encryption_key@), r.4@),
        m.payment_address == r.5,
        m.webhook_url == r.6,
        m.webhook_secret@ == revealed_or_raw(
            revealed_webhook_secret(r.7@, encryption_key@),
            r.7@,
        ),
        m.recovery_email == r.8,
        m.created_at == r.9,
        m.diversifier_index == r.10,
{
    let ufvk: String = match decrypt_or_plaintext(r.4.as_str(), encryption_key) {
        Ok(s) => s,
        Err(_) => r.4.clone(),
    };
    let webhook_secret: String = match decrypt_webhook_secret(r.7.as_str(), encryption_key) {
        Ok(s) => s,
        Err(_) => r.7.clone(),
    };
    Merchant {
        id: r.0,
        name: r.1,
        api_key_hash: r.2,
        dashboard_token_hash: r.3,
        ufvk,
        payment_address: r.5,
        webhook_url: r.6,
        webhook_secret,
        recovery_email: r.8,
        created_at: r.9,
        diversifier_index: r.10,
    }
}

/// Whether a stored row belongs to a new merchant whose secrets are in the
/// response: the keys are stored by their hashes, viewing key and webhook secret
/// are encrypted where an encryption key is set, and both are read back as they
/// were given.
pub open spec fn registers(
    row: &Merchant,
    resp: &CreateMerchantResponse,
    req: &CreateMerchantRequest,
    encryption_key: Seq<char>,
    now: int,
) -> bool {
    &&& is_hyphenated(resp.merchant_id@)
    &&& is_secret(resp.api_key@, "cpay_sk_"@)
    &&& is_secret(resp.dashboard_token@, "cpay_dash_"@)
    &&& is_secret(resp.webhook_secret@, "whsec_"@)
    &&& row.id@ == resp.merchant_id@
    &&& row.name@ == match req.name {
        Some(n) => n@,
        None => Seq::empty(),
    }
    &&& row.api_key_hash@ == key_hash(resp.api_key@)
    &&& row.dashboard_token_hash@ == key_hash(resp.dashboard_token@)
    &&& is_stored_form(row.ufvk@, req.ufvk@, encryption_key)
    &&& is_stored_form(row.webhook_secret@, resp.webhook_secret@, encryption_key)
    &&& revealed_viewing_key(row.ufvk@, encryption_key) == Ok::<Seq<char>, CryptoError>(req.ufvk@)
    &&& derived_address(req.ufvk@, 0) matches Ok(a)
    &&& row.payment_address@ == a.0
    &&& opt_text(row.webhook_url) == opt_text(req.webhook_url)
    &&& revealed_webhook_secret(row.webhook_secret@, encryption_key) == Ok::<
        Seq<char>,
        CryptoError,
    >(resp.webhook_secret@)
    &&& opt_text(row.recovery_email) == opt_text(req.email)
    &&& row.created_at@ == timestamp_text(now)
    &&& row.diversifier_index == FIRST_DIVERSIFIER_INDEX
}

/// Makes a new merchant: the row to store and the response, which is the only
/// time that the secrets are shown.
pub fn create_merchant(req: &CreateMerchantRequest, encryption_key: &str, now: i64) -> (r: Result<
    (Merchant, CreateMerchantResponse),
    CreateMerchantError,
>)
    requires
        is_storable(now as int),
    ensures
        match r {
            Ok(x) => registers(&x.0, &x.1, req, encryption_key@, now as int),
            Err(CreateMerchantError::InvalidUfvk(e)) => derived_address(req.ufvk@, 0) == Err::<
                (Seq<char>, Seq<char>),
                KeyError,
            >(e),
            Err(CreateMerchantError::Crypto(e)) => {
                &&& derived_address(req.ufvk@, 0) is Ok
                &&& encryption_key@.len() > 0
                &&& e == encryption_error(encryption_key@)
            },
        },
        derived_address(req.ufvk@, 0) is Ok && (encryption_key@.len() == 0 || key_error(
            encryption_key@,
        ) is None) && encode_utf8(req.ufvk@).len() <= MAX_PLAINTEXT ==> r is Ok,
{
    let derived: DerivedAddress = match derive_invoice_address(req.ufvk.as_str(), 0) {
        Ok(d) => d,
        Err(e) => {
            return Err(CreateMerchantError::InvalidUfvk(e));
        },
    };
    let api_key: String = generate_api_key();
    let dashboard_token: String = generate_dashboard_token();
    let webhook_secret: String = generate_webhook_secret();
    proof {
        secret_is_short(webhook_secret@, "whsec_"@);
        reveal_strlit("whsec_");
    }
    let ufvk: String = match stored_secret(req.ufvk.as_str(), encryption_key) {
        Ok(s) => s,
        Err(e) => {
            return Err(CreateMerchantError::Crypto(e));
        },
    };
    let stored_webhook_secret: String = match stored_secret(
        webhook_secret.as_str(),
        encryption_key,
    ) {
        Ok(s) => s,
        Err(e) => {
            return Err(CreateMerchantError::Crypto(e));
        },
    };
    let id: String = new_id();
    let name: String = match &req.name {
        Some(n) => n.clone(),
        None => String::new(),
    };
    let row: Merchant = Merchant {
        id: id.clone(),
        name,
        api_key_hash: hash_key(api_key.as_str()),
        dashboard_token_hash: hash_key(dashboard_token.as_str()),
        ufvk,
        payment_address: derived.ua_string,
        webhook_url: req.webhook_url.clone(),
        webhook_secret: stored_webhook_secret,
        recovery_email: req.email.clone(),
        created_at: timestamp(now),
        diversifier_index: FIRST_DIVERSIFIER_INDEX,
    };
    let resp: CreateMerchantResponse = CreateMerchantResponse {
        merchant_id: id,
        api_key,
        dashboard_token,
        webhook_secret,
    };
    Ok((row, resp))
}

/// A secret with a short prefix takes few bytes.
proof fn secret_is_short(s: Seq<char>, prefix: Seq<char>)
    requires
        is_secret(s, prefix),
    ensures
        encode_utf8(s).len() <= 4 * s.len(),
{
    encoded_length(s);
}

/// A character takes at most four bytes.
proof fn encoded_length(s: Seq<char>)
    ensures
        encode_utf8(s).len() <= 4 * s.len(),
    decreases s.len(),
{
    if s.len() > 0 {
        encoded_length(s.drop_first());
    }
}

/// A fresh secret and its stored form.
pub struct FreshSecret {
    pub secret: String,
    pub stored: String,
}

/// Draws a new API key; it is stored by its hash.
pub fn regenerate_api_key() -> (r: FreshSecret)
    ensures
        is_secret(r.secret@, "cpay_sk_"@),
        r.stored@ == key_hash(r.secret@),
{
    let secret: String = generate_api_key();
    let stored: String = hash_key(secret.as_str());
    FreshSecret { secret, stored }
}

/// Draws a new dashboard token; it is stored by its hash.
pub fn regenerate_dashboard_token() -> (r: FreshSecret)
    ensures
        is_secret(r.secret@, "cpay_dash_"@),
        r.stored@ == key_hash(r.secret@),
{
    let secret: String = generate_dashboard_token();
    let stored: String = hash_key(secret.as_str());
    FreshSecret { secret, stored }
}

/// Draws a new webhook secret; it is stored encrypted, where an encryption key
/// is set.
pub fn regenerate_webhook_secret(encryption_key: &str) -> (r: Result<FreshSecret, CryptoError>)
    ensures
        match r {
            Ok(f) => {
                &&& is_secret(f.secret@, "whsec_"@)
                &&& is_stored_form(f.stored@, f.secret@, encryption_key@)
                &&& revealed_webhook_secret(f.stored@, encryption_key@) == Ok::<
                    Seq<char>,
                    CryptoError,
                >(f.secret@)
                &&& encryption_key@.len() == 0 || key_error(encryption_key@) is None
            },
            Err(e) => encryption_key@.len() > 0 && key_error(encryption_key@) == Some(e),
        },
{
    let secret: String = generate_webhook_secret();
    proof {
        secret_is_short(secret@, "whsec_"@);
        reveal_strlit("whsec_");
    }
    match stored_secret(secret.as_str(), encryption_key) {
        Ok(stored) => Ok(FreshSecret { secret, stored }),
        Err(e) => Err(e),
    }
}

/// Takes the next diversifier index of a merchant: gives the index to use and
/// counts it up.
pub fn next_diversifier_index(index: &mut i64) -> (r: u32)
    requires
        0 <= *old(index) <= u32::MAX,
    ensures
        r == *old(index),
        *final(index) == *old(index) + 1,
{
    let used: u32 = *index as u32;
    *index = *index + 1;
    used
}

/// Draws a recovery token for a merchant: the token to send and the record to
/// store, which holds its hash.
pub fn create_recovery_token(merchant_id: &str, now: i64) -> (r: (String, RecoveryToken))
    requires
        0 <= now < 5_000_000_000_000,
    ensures
        is_hyphenated(r.0@),
        is_hyphenated(r.1.id@),
        r.1.merchant_id@ == merchant_id@,
        r.1.token_hash@ == key_hash(r.0@),
        r.1.expires_at@ == timestamp_text(now + 3600),
{
    let token: String = new_id();
    let record: RecoveryToken = RecoveryToken {
        id: new_id(),
        merchant_id: merchant_id.to_string(),
        token_hash: hash_key(token.as_str()),
        expires_at: timestamp(now + RECOVERY_EXPIRY_HOURS * 3600),
    };
    (token, record)
}

impl RecoveryToken {
    /// Whether a token recovers the account at a time.
    pub open spec fn accepts(&self, token: Seq<char>, now: Seq<char>) -> bool {
        self.token_hash@ == key_hash(token) && lex_less(now, self.expires_at@)
    }

    /// Recovers the account: gives its merchant and a new dashboard token.
    pub fn confirm(&self, token: &str, now: &str) -> (r: Option<(String, FreshSecret)>)
        ensures
            match r {
                Some(x) => {
                    &&& self.accepts(token@, now@)
                    &&& x.0@ == self.merchant_id@
                    &&& is_secret(x.1.secret@, "cpay_dash_"@)
                    &&& x.1.stored@ == key_hash(x.1.secret@)
                },
                None => !self.accepts(token@, now@),
            },
    {
        if text_eq(self.token_hash.as_str(), hash_key(token).as_str()) && text_less(
            now,
            self.expires_at.as_str(),
        ) {
            Some((self.merchant_id.clone(), regenerate_dashboard_token()))
        } else {
            None
        }
    }
}

/// A new merchant that is read back has the viewing key and the webhook secret
/// that it was made with.
pub proof fn registered_merchant_is_read_back(
    row: Merchant,
    resp: CreateMerchantResponse,
    req: CreateMerchantRequest,
    encryption_key: Seq<char>,
    now: int,
)
    requires
        registers(&row, &resp, &req, encryption_key, now),
    ensures
        revealed_or_raw(revealed_viewing_key(row.ufvk@, encryption_key), row.ufvk@) == req.ufvk@,
        revealed_or_raw(
            revealed_webhook_secret(row.webhook_secret@, encryption_key),
            row.webhook_secret@,
        ) == resp.webhook_secret@,
{
}

/// A key is kept as the digest of its bytes, in hexadecimal.
pub proof fn key_is_kept_as_its_digest(key: Seq<char>)
    ensures
        key_hash(key) == hex_text(sha256(encode_utf8(key))),
{
}

/// A secret is its prefix and 64 hexadecimal digits in lower case.
pub proof fn secret_is_prefix_and_digits(s: Seq<char>, prefix: Seq<char>, i: int)
    requires
        is_secret(s, prefix),
        prefix.len() <= i < s.len(),
    ensures
        s.len() == prefix.len() + 64,
        s.take(prefix.len() as int) =~= prefix,
        '0' <= s[i] <= '9' || 'a' <= s[i] <= 'f',
{
    assert(is_lower_hex(s[i]));
}

/// Storing fails only with a key, where that is not one or the value is too
/// long.
pub proof fn storing_fails_with_a_bad_key(value: Seq<char>, encryption_key: Seq<char>)
    ensures
        encryption_key.len() == 0 ==> !storage_fails(value, encryption_key),
        encryption_key.len() > 0 && key_error(encryption_key) is Some ==> storage_fails(
            value,
            encryption_key,
        ),
        encryption_key.len() > 0 && key_error(encryption_key) is None ==> (storage_fails(
            value,
            encryption_key,
        ) <==> encode_utf8(value).len() > 68_719_476_736),
{
}

/// What cannot be revealed is taken as it is stored.
pub proof fn unreadable_value_is_taken_as_it_is(
    revealed: Result<Seq<char>, CryptoError>,
    raw: Seq<char>,
)
    ensures
        revealed matches Ok(s) ==> revealed_or_raw(revealed, raw) == s,
        revealed is Err ==> revealed_or_raw(revealed, raw) == raw,
{
}

/// A new merchant has keys of its own, each with the prefix of its kind, of
/// which only digests are kept; an address that is the first of its viewing key;
/// and the addresses and the name that were given. Its invoices are numbered
/// from one.
pub proof fn new_merchant_has_its_own_keys(
    row: Merchant,
    resp: CreateMerchantResponse,
    req: &CreateMerchantRequest,
    encryption_key: Seq<char>,
    now: int,
)
    requires
        registers(&row, &resp, req, encryption_key, now),
    ensures
        row.id@ == resp.merchant_id@,
        is_secret(resp.api_key@, "cpay_sk_"@) && row.api_key_hash@ == hex_text(
            sha256(encode_utf8(resp.api_key@)),
        ),
        is_secret(resp.dashboard_token@, "cpay_dash_"@) && row.dashboard_token_hash@ == hex_text(
            sha256(encode_utf8(resp.dashboard_token@)),
        ),
        is_secret(resp.webhook_secret@, "whsec_"@),
        derived_address(req.ufvk@, 0) matches Ok(a) && row.payment_address@ == a.0,
        opt_text(row.webhook_url) == opt_text(req.webhook_url),
        opt_text(row.recovery_email) == opt_text(req.email),
        req.name matches Some(n) ==> row.name@ == n@,
        req.name is None ==> row.name@.len() == 0,
        row.diversifier_index == 1,
        row.created_at@ == timestamp_text(now),
        encryption_key.len() == 0 ==> row.ufvk@ == req.ufvk@ && row.webhook_secret@
            == resp.webhook_secret@,
{
}

/// A recovery token is accepted by its digest and until it expires.
pub proof fn recovery_token_is_accepted_in_time(
    t: RecoveryToken,
    token: Seq<char>,
    now: Seq<char>,
)
    ensures
        t.accepts(token, now) <==> t.token_hash@ == hex_text(sha256(encode_utf8(token)))
            && lex_less(now, t.expires_at@),
        !t.accepts(token, t.expires_at@),
{
    crate::text::lex_less_irreflexive(t.expires_at@);
}

} // verus!
