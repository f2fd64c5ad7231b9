//! Authentication: keys in headers, session cookies, the changes that a
//! merchant makes to the account, and what is shown of secrets.

use vstd::prelude::*;
use vstd::utf8::*;

use crate::clock::{timestamp, timestamp_text};
use crate::crypto::{
    encryption_error, hmac_digest, hmac_sha256, is_stored_form, CryptoError,
};
use crate::ids::{is_hyphenated, new_id};
use crate::merchants::{storage_fails, stored_secret, CreateMerchantRequest};
use crate::text::{
    byte_len, byte_length, chars_of, copy_text, join2, join3, lex_less, opt_str, opt_text, position,
    starts_with, strip_prefix, text_between, text_less, trim, trimmed,
};
use crate::validation::{
    add_given, add_if_filled, add_if_given, checks_view, given, if_filled, if_given, judged,
    no_checks, run_checks, CheckKind, CheckView, FieldCheck, ValidationError,
};

verus! {

/// The session cookie that is bound to the host.
pub const SESSION_COOKIE: &'static str = "__Host-cpay_session";

/// The session cookie where a domain is set or the connection is not secure.
pub const SESSION_COOKIE_LEGACY: &'static str = "cpay_session";

/// Hours after which a dashboard session expires.
pub const SESSION_HOURS: i64 = 24;

/// Entries of a page where no number is given.
pub const DEFAULT_PAGE: u32 = 50;

/// Entries of a page at most.
pub const MAX_PAGE: u32 = 200;

/// Milliseconds that the answer to a recovery request takes at least, so that
/// it does not tell whether an account exists.
pub const RECOVERY_MIN_MILLIS: u64 = 2000;

#[derive(Debug)]
pub struct CreateSessionRequest {
    pub token: String,
}

pub struct MyWebhookQuery {
    pub status: Option<String>,
    pub limit: Option<u32>,
    pub offset: Option<u32>,
}

#[derive(Debug)]
pub struct UpdateMerchantRequest {
    pub name: Option<String>,
    pub webhook_url: Option<String>,
    pub recovery_email: Option<String>,
    pub luma_api_key: Option<String>,
}

#[derive(Debug)]
pub struct RecoverRequest {
    pub email: String,
}

#[derive(Debug)]
pub struct RecoverConfirmRequest {
    pub token: String,
}

// ---------------------------------------------------------------------------
// Credentials
// ---------------------------------------------------------------------------

/// The kind of credential with which a request came.
#[derive(Debug, Clone, Copy, PartialEq, Eq, Structural)]
pub enum KeyKind {
    Session,
    Full,
    Restricted,
}

/// Why a request is not let through.
#[derive(Debug, Clone, Copy, PartialEq, Eq, Structural)]
pub enum AccessError {
    NotAuthenticated,
    RestrictedKey,
    InvalidApiKey,
}

impl AccessError {
    pub open spec fn spec_reply(self) -> (u16, Seq<char>) {
        match self {
            AccessError::NotAuthenticated => (401, "Not authenticated"@),
            AccessError::RestrictedKey => (
                403,
                "This endpoint requires a full-access API key. Restricted keys cannot perform account-management actions."@,
            ),
            AccessError::InvalidApiKey => (401, "Invalid API key"@),
        }
    }

    /// The HTTP status and the message of the answer.
    pub fn reply(&self) -> (r: (u16, &'static str))
        ensures
            (r.0, r.1@) == self.spec_reply(),
    {
        match self {
            AccessError::NotAuthenticated => (401, "Not authenticated"),
            AccessError::RestrictedKey => (
                403,
                "This endpoint requires a full-access API key. Restricted keys cannot perform account-management actions.",
            ),
            AccessError::InvalidApiKey => (401, "Invalid API key"),
        }
    }
}

/// Whether a credential may manage the account; restricted keys may not.
pub fn require_full(kind: Option<KeyKind>) -> (r: Result<(), AccessError>)
    ensures
        match kind {
            None => r == Err::<(), AccessError>(AccessError::NotAuthenticated),
            Some(KeyKind::Restricted) => r == Err::<(), AccessError>(AccessError::RestrictedKey),
            Some(_) => r is Ok,
        },
{
    match kind {
        None => Err(AccessError::NotAuthenticated),
        Some(KeyKind::Restricted) => Err(AccessError::RestrictedKey),
        Some(_) => Ok(()),
    }
}

/// The key in an authorization header: without the word for bearer, and
/// without white space around it.
pub open spec fn header_key(header: Seq<char>) -> Seq<char> {
    if "Bearer "@.is_prefix_of(header) {
        trimmed(header.skip("Bearer "@.len() as int))
    } else {
        trimmed(header)
    }
}

/// The key in an authorization header.
pub fn key_of_header(header: &str) -> (r: String)
    ensures
        r@ == header_key(header@),
{
    match strip_prefix(header, "Bearer ") {
        Some(rest) => trim(rest),
        None => trim(header),
    }
}

/// The key in an authorization header, where it is not empty.
pub fn extract_api_key(header: Option<&str>) -> (r: Option<String>)
    ensures
        opt_text(r) == match opt_str(header) {
            Some(h) => if header_key(h).len() > 0 {
                Some(header_key(h))
            } else {
                None
            },
            None => None,
        },
{
    match header {
        Some(h) => {
            let key: String = key_of_header(h);
            if key.as_str().is_empty() {
                None
            } else {
                Some(key)
            }
        },
        None => None,
    }
}

/// Whether a key looks like one of ours, so that no cookie is tried after it.
pub open spec fn is_api_key(key: Seq<char>) -> bool {
    "cpay_"@.is_prefix_of(key)
}

/// Whether a key looks like one of ours.
pub fn looks_like_api_key(key: &str) -> (r: bool)
    ensures
        r == is_api_key(key@),
{
    starts_with(key, "cpay_")
}

/// The merchant of a request and the kind of credential. A key of ours in the
/// header decides alone, whether it is valid or not; otherwise the dashboard
/// session does.
pub open spec fn credential<T>(
    header: Option<Seq<char>>,
    by_key: Option<(T, KeyKind)>,
    by_session: Option<T>,
) -> Option<(T, KeyKind)> {
    if header matches Some(h) && is_api_key(header_key(h)) {
        by_key
    } else {
        match by_session {
            Some(m) => Some((m, KeyKind::Session)),
            None => None,
        }
    }
}

/// The merchant of a request and the kind of credential.
pub fn resolve_with_kind<T>(
    header: Option<&str>,
    by_key: Option<(T, KeyKind)>,
    by_session: Option<T>,
) -> (r: Option<(T, KeyKind)>)
    ensures
        r == credential(opt_str(header), by_key, by_session),
{
    let ours: bool = match header {
        Some(h) => looks_like_api_key(key_of_header(h).as_str()),
        None => false,
    };
    if ours {
        by_key
    } else {
        match by_session {
            Some(m) => Some((m, KeyKind::Session)),
            None => None,
        }
    }
}

/// The merchant of a request that manages the account, which no restricted key
/// may.
pub fn require_full_or_session<T>(
    header: Option<&str>,
    by_key: Option<(T, KeyKind)>,
    by_session: Option<T>,
) -> (r: Result<T, AccessError>)
    ensures
        match credential(opt_str(header), by_key, by_session) {
            None => r == Err::<T, AccessError>(AccessError::NotAuthenticated),
            Some((m, KeyKind::Restricted)) => r == Err::<T, AccessError>(
                AccessError::RestrictedKey,
            ),
            Some((m, _)) => r == Ok::<T, AccessError>(m),
        },
{
    match resolve_with_kind(header, by_key, by_session) {
        None => Err(AccessError::NotAuthenticated),
        Some((m, kind)) => match require_full(Some(kind)) {
            Ok(_) => Ok(m),
            Err(e) => Err(e),
        },
    }
}

/// The merchant of a request that comes with a dashboard session or a key. The
/// session decides where there is one; `by_key` is what the key gives.
pub fn require_api_key_or_session<T>(
    has_header: bool,
    by_key: Option<T>,
    by_session: Option<T>,
) -> (r: Result<T, AccessError>)
    ensures
        match by_session {
            Some(m) => r == Ok::<T, AccessError>(m),
            None => if !has_header {
                r == Err::<T, AccessError>(AccessError::NotAuthenticated)
            } else {
                match by_key {
                    Some(m) => r == Ok::<T, AccessError>(m),
                    None => r == Err::<T, AccessError>(AccessError::InvalidApiKey),
                }
            },
        },
{
    match by_session {
        Some(m) => Ok(m),
        None => if !has_header {
            Err(AccessError::NotAuthenticated)
        } else {
            match by_key {
                Some(m) => Ok(m),
                None => Err(AccessError::InvalidApiKey),
            }
        },
    }
}

/// The session token in an authorization header: only in the bearer form, and
/// only with its prefix.
pub open spec fn header_session_token(header: Option<Seq<char>>) -> Option<Seq<char>> {
    match header {
        Some(h) => if "Bearer "@.is_prefix_of(h) && "cps_"@.is_prefix_of(
            trimmed(h.skip("Bearer "@.len() as int)),
        ) {
            Some(trimmed(h.skip("Bearer "@.len() as int)))
        } else {
            None
        },
        None => None,
    }
}

/// The session token in an authorization header.
pub fn extract_session_token(header: Option<&str>) -> (r: Option<String>)
    ensures
        opt_text(r) == header_session_token(opt_str(header)),
{
    match header {
        Some(h) => match strip_prefix(h, "Bearer ") {
            Some(rest) => {
                let t: String = trim(rest);
                if starts_with(t.as_str(), "cps_") {
                    Some(t)
                } else {
                    None
                }
            },
            None => None,
        },
        None => None,
    }
}

/// The session in the cookies: that of the host cookie where there is one,
/// otherwise that of the other one.
pub fn extract_session_id(host_cookie: Option<&str>, legacy_cookie: Option<&str>) -> (r: Option<
    String,
>)
    ensures
        opt_text(r) == match (opt_str(host_cookie), opt_str(legacy_cookie)) {
            (Some(v), _) => if v.len() > 0 {
                Some(v)
            } else {
                None
            },
            (None, Some(v)) => if v.len() > 0 {
                Some(v)
            } else {
                None
            },
            (None, None) => None,
        },
{
    let value: Option<&str> = match host_cookie {
        Some(v) => Some(v),
        None => legacy_cookie,
    };
    match value {
        Some(v) => if v.is_empty() {
            None
        } else {
            Some(v.to_string())
        },
        None => None,
    }
}

/// A dashboard session as it is stored.
pub struct DashboardSession {
    pub id: String,
    pub merchant_id: String,
    pub expires_at: String,
}

impl DashboardSession {
    /// Opens a session of a merchant.
    pub fn open(merchant_id: &str, hours: i64, now: i64) -> (r: DashboardSession)
        requires
            0 <= now < 5_000_000_000_000,
            0 <= hours <= 1000,
        ensures
            is_hyphenated(r.id@),
            r.merchant_id@ == merchant_id@,
            r.expires_at@ == timestamp_text(now + hours * 3600),
    {
        DashboardSession {
            id: new_id(),
            merchant_id: merchant_id.to_string(),
            expires_at: timestamp(now + hours * 3600),
        }
    }

    /// Whether the session still holds.
    pub fn is_live(&self, now: &str) -> (r: bool)
        ensures
            r == lex_less(now@, self.expires_at@),
    {
        text_less(now, self.expires_at.as_str())
    }
}

/// A cookie to set. It is always for the whole site, out of the reach of
/// scripts, and not sent along from other sites.
pub struct SessionCookie {
    pub name: &'static str,
    pub value: String,
    pub secure: bool,
    pub domain: Option<String>,
    pub max_age_secs: i64,
}

/// Whether the session cookie is sent over secure connections only: not where
/// the test network runs on a local machine.
pub open spec fn cookie_is_secure(
    is_testnet: bool,
    cookie_domain: Option<Seq<char>>,
    frontend_url: Option<Seq<char>>,
) -> bool {
    !is_testnet || cookie_domain is Some || (frontend_url matches Some(u) && "https"@.is_prefix_of(
        u,
    ))
}

/// The session cookie with a value, or one that takes it away.
pub fn build_session_cookie(
    value: &str,
    is_testnet: bool,
    cookie_domain: Option<&str>,
    frontend_url: Option<&str>,
    clear: bool,
) -> (r: SessionCookie)
    ensures
        r.secure == cookie_is_secure(is_testnet, opt_str(cookie_domain), opt_str(frontend_url)),
        r.name@ == if opt_str(cookie_domain) is None && r.secure {
            "__Host-cpay_session"@
        } else {
            "cpay_session"@
        },
        r.value@ == value@,
        opt_text(r.domain) == if r.secure {
            opt_str(cookie_domain)
        } else {
            None
        },
        r.max_age_secs == if clear {
            0int
        } else {
            86_400
        },
{
    let https: bool = match frontend_url {
        Some(u) => starts_with(u, "https"),
        None => false,
    };
    let has_domain: bool = cookie_domain.is_some();
    let secure: bool = !is_testnet || has_domain || https;
    let name: &'static str = if has_domain {
        SESSION_COOKIE_LEGACY
    } else if secure {
        SESSION_COOKIE
    } else {
        SESSION_COOKIE_LEGACY
    };
    SessionCookie {
        name,
        value: value.to_string(),
        secure,
        domain: if secure {
            copy_text(cookie_domain)
        } else {
            None
        },
        max_age_secs: if clear {
            0
        } else {
            SESSION_HOURS * 3600
        },
    }
}

/// The digest by which two admin keys are compared.
pub open spec fn admin_tag(key: Seq<char>) -> Seq<u8> {
    hmac_sha256(encode_utf8("admin-key-verify"@), encode_utf8(key))
}

/// Whether a request carries the admin key: neither it nor the expected one is
/// empty, and their digests are the same.
pub fn authenticate_admin(admin_key: Option<&str>, provided: Option<&str>) -> (r: bool)
    ensures
        r == match (opt_str(admin_key), opt_str(provided)) {
            (Some(k), Some(p)) => k.len() > 0 && p.len() > 0 && admin_tag(k) == admin_tag(p),
            _ => false,
        },
        admin_key is Some && opt_str(admin_key) == opt_str(provided) && opt_str(
            admin_key,
        )->0.len() > 0 ==> r,
{
    match (admin_key, provided) {
        (Some(k), Some(p)) => {
            if k.is_empty() || p.is_empty() {
                return false;
            }
            let a: Vec<u8> = hmac_digest("admin-key-verify".as_bytes(), k.as_bytes());
            let b: Vec<u8> = hmac_digest("admin-key-verify".as_bytes(), p.as_bytes());
            same_bytes(&a, &b)
        },
        _ => false,
    }
}

fn same_bytes(a: &Vec<u8>, b: &Vec<u8>) -> (r: bool)
    ensures
        r == (a@ == b@),
{
    if a.len() != b.len() {
        return false;
    }
    let mut i: usize = 0;
    while i < a.len()
        invariant
            i <= a@.len(),
            a@.len() == b@.len(),
            forall|k: int| 0 <= k < i ==> a@[k] == b@[k],
        decreases a@.len() - i,
    {
        if a[i] != b[i] {
            return false;
        }
        i = i + 1;
    }
    assert(a@ =~= b@);
    true
}

// ---------------------------------------------------------------------------
// What is shown
// ---------------------------------------------------------------------------

/// What is shown of a secret: the first twelve bytes of a longer one, stars
/// for a shorter one, nothing for an empty one.
pub open spec fn masked_secret(s: Seq<char>) -> Seq<char> {
    if byte_len(s) > 12 {
        decode_utf8(encode_utf8(s).take(12)) + "..."@
    } else if s.len() == 0 {
        Seq::empty()
    } else {
        "***"@
    }
}

/// What is shown of a secret.
pub fn mask_secret(secret: &str) -> (r: String)
    requires
        byte_len(secret@) > 12 ==> is_char_boundary(encode_utf8(secret@), 12),
    ensures
        r@ == masked_secret(secret@),
{
    if byte_length(secret) > 12 {
        let (head, _) = secret.split_at(12);
        proof {
            assert(encode_utf8(head@) =~= encode_utf8(secret@).take(12));
            encode_utf8_decode_utf8(head@);
        }
        join2(head, "...")
    } else if secret.is_empty() {
        String::new()
    } else {
        "***".to_string()
    }
}

/// A number of stars.
pub open spec fn stars(n: nat) -> Seq<char> {
    Seq::new(n, |i: int| '*')
}

/// The part of an address before the first at sign, and the rest.
pub open spec fn split_at_sign(s: Seq<char>) -> Option<(Seq<char>, Seq<char>)> {
    if s.contains('@') {
        Some((s.take(s.index_of_first('@')->0), s.skip(s.index_of_first('@')->0)))
    } else {
        None
    }
}

/// What is shown of an e-mail address: the first two bytes of its local part,
/// a star for each further byte, and the domain.
pub open spec fn masked_email(s: Seq<char>) -> Seq<char> {
    match split_at_sign(s) {
        Some(p) => if byte_len(p.0) <= 2 {
            p.0 + p.1
        } else {
            decode_utf8(encode_utf8(p.0).take(2)) + stars((byte_len(p.0) - 2) as nat) + p.1
        },
        None => "***"@,
    }
}

fn write_stars(n: usize) -> (r: String)
    ensures
        r@ == stars(n as nat),
{
    let mut r: String = String::new();
    let mut i: usize = 0;
    assert(r@ =~= stars(0));
    while i < n
        invariant
            i <= n,
            r@ == stars(i as nat),
        decreases n - i,
    {
        r.push('*');
        i = i + 1;
        assert(r@ =~= stars(i as nat));
    }
    r
}

/// What is shown of an e-mail address.
pub fn mask_email(email: &str) -> (r: String)
    requires
        match split_at_sign(email@) {
            Some(p) => byte_len(p.0) > 2 ==> is_char_boundary(encode_utf8(p.0), 2),
            None => true,
        },
    ensures
        r@ == masked_email(email@),
{
    let x: Vec<char> = chars_of(email);
    match position(&x, '@') {
        None => "***".to_string(),
        Some(at) => {
            let local: String = text_between(&x, 0, at);
            let domain: String = text_between(&x, at, x.len());
            proof {
                first_at_sign(email@, at as int);
                assert(local@ =~= email@.take(at as int));
                assert(domain@ =~= email@.skip(at as int));
            }
            let n: usize = byte_length(local.as_str());
            if n <= 2 {
                join2(local.as_str(), domain.as_str())
            } else {
                let (head, _) = local.as_str().split_at(2);
                proof {
                    assert(encode_utf8(head@) =~= encode_utf8(local@).take(2));
                    encode_utf8_decode_utf8(head@);
                }
                let hidden: String = write_stars(n - 2);
                join3(head, hidden.as_str(), domain.as_str())
            }
        },
    }
}

proof fn first_at_sign(s: Seq<char>, at: int)
    requires
        0 <= at < s.len(),
        s[at] == '@',
        !s.take(at).contains('@'),
    ensures
        s.contains('@'),
        s.index_of_first('@') == Some(at),
{
    s.index_of_first_ensures('@');
    let i = s.index_of_first('@')->0;
    if i < at {
        assert(s.take(at)[i] == '@');
    }
    if at < i {
        assert(s[at] != '@');
    }
}

/// The number of entries of a page and how many to leave out before it.
pub fn page(limit: Option<u32>, offset: Option<u32>) -> (r: (i64, i64))
    ensures
        r.0 == match limit {
            Some(l) => if l < 200 {
                l as int
            } else {
                200
            },
            None => 50,
        },
        r.1 == match offset {
            Some(o) => o as int,
            None => 0,
        },
{
    let l: u32 = match limit {
        Some(l) => l,
        None => DEFAULT_PAGE,
    };
    let l: u32 = if l < MAX_PAGE {
        l
    } else {
        MAX_PAGE
    };
    let o: u32 = match offset {
        Some(o) => o,
        None => 0,
    };
    (l as i64, o as i64)
}

// ---------------------------------------------------------------------------
// Changes of the account
// ---------------------------------------------------------------------------

/// The checks that a change of the account has to pass.
pub open spec fn update_checks_of(req: &UpdateMerchantRequest, is_testnet: bool) -> Seq<CheckView> {
    if_given("name"@, opt_text(req.name), CheckKind::MaxLength(100)) + if_filled(
        "webhook_url"@,
        opt_text(req.webhook_url),
        CheckKind::WebhookUrl(is_testnet),
    ) + if_filled("recovery_email"@, opt_text(req.recovery_email), CheckKind::Email)
}

/// The checks that a change of the account has to pass.
pub fn update_checks(req: &UpdateMerchantRequest, is_testnet: bool) -> (r: Vec<FieldCheck>)
    ensures
        checks_view(r@) == update_checks_of(req, is_testnet),
{
    let mut checks: Vec<FieldCheck> = no_checks();
    add_if_given(&mut checks, "name", &req.name, CheckKind::MaxLength(100));
    add_if_filled(&mut checks, "webhook_url", &req.webhook_url, CheckKind::WebhookUrl(is_testnet));
    add_if_filled(&mut checks, "recovery_email", &req.recovery_email, CheckKind::Email);
    assert(checks_view(checks@) =~= update_checks_of(req, is_testnet));
    checks
}

/// Checks a change of the account.
pub fn validate_update<F: Fn(&FieldCheck) -> Result<(), ValidationError>>(
    req: &UpdateMerchantRequest,
    is_testnet: bool,
    validator: F,
) -> (r: Result<(), ValidationError>)
    requires
        forall|c: &FieldCheck| validator.requires((c,)),
    ensures
        exists|checks: Seq<FieldCheck>| #[trigger]
            checks_view(checks) == update_checks_of(req, is_testnet) && judged(
                checks,
                validator,
                r,
            ),
{
    let checks: Vec<FieldCheck> = update_checks(req, is_testnet);
    run_checks(&checks, validator)
}

/// The checks that a registration has to pass.
pub open spec fn registration_checks_of(req: &CreateMerchantRequest, is_testnet: bool) -> Seq<
    CheckView,
> {
    if_given("name"@, opt_text(req.name), CheckKind::MaxLength(100)) + given(
        "ufvk"@,
        req.ufvk@,
        CheckKind::MaxLength(2000),
    ) + given("ufvk"@, req.ufvk@, CheckKind::ViewingKeyNetwork(is_testnet)) + if_filled(
        "webhook_url"@,
        opt_text(req.webhook_url),
        CheckKind::WebhookUrl(is_testnet),
    ) + if_filled("email"@, opt_text(req.email), CheckKind::Email)
}

/// The checks that a registration has to pass.
pub fn registration_checks(req: &CreateMerchantRequest, is_testnet: bool) -> (r: Vec<FieldCheck>)
    ensures
        checks_view(r@) == registration_checks_of(req, is_testnet),
{
    let mut checks: Vec<FieldCheck> = no_checks();
    add_if_given(&mut checks, "name", &req.name, CheckKind::MaxLength(100));
    add_given(&mut checks, "ufvk", &req.ufvk, CheckKind::MaxLength(2000));
    add_given(&mut checks, "ufvk", &req.ufvk, CheckKind::ViewingKeyNetwork(is_testnet));
    add_if_filled(&mut checks, "webhook_url", &req.webhook_url, CheckKind::WebhookUrl(is_testnet));
    add_if_filled(&mut checks, "email", &req.email, CheckKind::Email);
    assert(checks_view(checks@) =~= registration_checks_of(req, is_testnet));
    checks
}

/// Checks a registration.
pub fn validate_registration<F: Fn(&FieldCheck) -> Result<(), ValidationError>>(
    req: &CreateMerchantRequest,
    is_testnet: bool,
    validator: F,
) -> (r: Result<(), ValidationError>)
    requires
        forall|c: &FieldCheck| validator.requires((c,)),
    ensures
        exists|checks: Seq<FieldCheck>| #[trigger]
            checks_view(checks) == registration_checks_of(req, is_testnet) && judged(
                checks,
                validator,
                r,
            ),
{
    let checks: Vec<FieldCheck> = registration_checks(req, is_testnet);
    run_checks(&checks, validator)
}

/// The stored form of a value that an empty one takes away: a recovery
/// address, or the key of the guest-list service.
pub fn stored_or_cleared(value: &str, encryption_key: &str) -> (r: Result<
    Option<String>,
    CryptoError,
>)
    ensures
        value@.len() == 0 ==> (r matches Ok(x) && x is None),
        match r {
            Ok(Some(s)) => value@.len() > 0 && !storage_fails(value@, encryption_key@)
                && is_stored_form(s@, value@, encryption_key@),
            Ok(None) => value@.len() == 0,
            Err(e) => value@.len() > 0 && storage_fails(value@, encryption_key@) && e
                == encryption_error(encryption_key@),
        },
{
    if value.is_empty() {
        return Ok(None);
    }
    match stored_secret(value, encryption_key) {
        Ok(s) => Ok(Some(s)),
        Err(e) => Err(e),
    }
}

/// What a merchant can change of the account, as it is stored.
pub struct AccountProfile {
    pub name: String,
    pub webhook_url: Option<String>,
    pub recovery_email: Option<String>,
    pub recovery_email_hash: Option<String>,
    pub luma_api_key: Option<String>,
}

/// Whether a stored value is what a request makes of it: as before where the
/// request does not speak of it, nothing where it is emptied, and otherwise the
/// value, encrypted where an encryption key is set.
pub open spec fn value_updated(
    asked: Option<Seq<char>>,
    before: Option<String>,
    after: Option<String>,
    encryption_key: Seq<char>,
) -> bool {
    match asked {
        None => after == before,
        Some(v) => if v.len() == 0 {
            after is None
        } else {
            after matches Some(s) && is_stored_form(s@, v, encryption_key)
        },
    }
}

/// Whether what a request asks to be stored cannot be.
pub open spec fn update_fails(asked: Option<Seq<char>>, encryption_key: Seq<char>) -> bool {
    asked matches Some(v) && v.len() > 0 && storage_fails(v, encryption_key)
}

impl AccountProfile {
    /// Changes the account as a request asks. Where a value cannot be
    /// encrypted, what comes before it is changed, and it and what comes after
    /// it are not. `email_index` is the index of the recovery address that is
    /// asked for; it comes and goes with the address.
    pub fn update(
        &mut self,
        req: &UpdateMerchantRequest,
        encryption_key: &str,
        email_index: &str,
    ) -> (r: Result<(), CryptoError>)
        ensures
            match req.name {
                Some(n) => final(self).name@ == n@,
                None => final(self).name == old(self).name,
            },
            match opt_text(req.webhook_url) {
                Some(u) => opt_text(final(self).webhook_url) == if u.len() > 0 {
                    Some(u)
                } else {
                    None
                },
                None => final(self).webhook_url == old(self).webhook_url,
            },
            r is Err <==> update_fails(opt_text(req.recovery_email), encryption_key@)
                || update_fails(opt_text(req.luma_api_key), encryption_key@),
            r matches Err(e) ==> e == encryption_error(encryption_key@),
            if update_fails(opt_text(req.recovery_email), encryption_key@) {
                &&& final(self).recovery_email == old(self).recovery_email
                &&& final(self).recovery_email_hash == old(self).recovery_email_hash
                &&& final(self).luma_api_key == old(self).luma_api_key
            } else {
                &&& match opt_text(req.recovery_email) {
                    None => final(self).recovery_email_hash == old(self).recovery_email_hash,
                    Some(v) => opt_text(final(self).recovery_email_hash) == if v.len() == 0 {
                        None
                    } else {
                        Some(email_index@)
                    },
                }
                &&& value_updated(
                    opt_text(req.recovery_email),
                    old(self).recovery_email,
                    final(self).recovery_email,
                    encryption_key@,
                )
                &&& if r is Err {
                    final(self).luma_api_key == old(self).luma_api_key
                } else {
                    value_updated(
                        opt_text(req.luma_api_key),
                        old(self).luma_api_key,
                        final(self).luma_api_key,
                        encryption_key@,
                    )
                }
            },
    {
        match &req.name {
            Some(n) => {
                self.name = n.clone();
            },
            None => {},
        }
        match &req.webhook_url {
            Some(u) => {
                self.webhook_url = if u.as_str().is_empty() {
                    None
                } else {
                    Some(u.clone())
                };
            },
            None => {},
        }
        match &req.recovery_email {
            Some(v) => match stored_or_cleared(v.as_str(), encryption_key) {
                Ok(s) => {
                    self.recovery_email_hash = if s.is_some() {
                        Some(email_index.to_string())
                    } else {
                        None
                    };
                    self.recovery_email = s;
                },
                Err(e) => {
                    return Err(e);
                },
            },
            None => {},
        }
        match &req.luma_api_key {
            Some(v) => match stored_or_cleared(v.as_str(), encryption_key) {
                Ok(s) => {
                    self.luma_api_key = s;
                },
                Err(e) => {
                    return Err(e);
                },
            },
            None => {},
        }
        Ok(())
    }
}

/// Why no recovery is begun.
#[derive(Debug)]
pub enum RecoveryRefusal {
    NotConfigured,
    Invalid(ValidationError),
}

/// Checks a request to recover an account: mail has to be set up, and the
/// address has to pass its check. Whether there is an account with the address
/// does not show.
pub fn check_recovery<F: Fn(&FieldCheck) -> Result<(), ValidationError>>(
    smtp_configured: bool,
    req: &RecoverRequest,
    validator: F,
) -> (r: Result<(), RecoveryRefusal>)
    requires
        forall|c: &FieldCheck| validator.requires((c,)),
    ensures
        if !smtp_configured {
            r == Err::<(), RecoveryRefusal>(RecoveryRefusal::NotConfigured)
        } else {
            exists|checks: Seq<FieldCheck>, j: Result<(), ValidationError>|
                checks_view(checks) == given("email"@, req.email@, CheckKind::Email) && #[trigger]
                judged(checks, validator, j) && match j {
                    Ok(_) => r is Ok,
                    Err(e) => r == Err::<(), RecoveryRefusal>(RecoveryRefusal::Invalid(e)),
                }
        },
{
    if !smtp_configured {
        return Err(RecoveryRefusal::NotConfigured);
    }
    let mut checks: Vec<FieldCheck> = no_checks();
    add_given(&mut checks, "email", &req.email, CheckKind::Email);
    assert(checks_view(checks@) =~= given("email"@, req.email@, CheckKind::Email));
    let judgement: Result<(), ValidationError> = run_checks(&checks, validator);
    assert(judged(checks@, validator, judgement));
    match judgement {
        Ok(_) => Ok(()),
        Err(e) => Err(RecoveryRefusal::Invalid(e)),
    }
}

/// Milliseconds to wait before a recovery request is answered.
pub fn recovery_wait_millis(elapsed: u64) -> (r: u64)
    ensures
        r == if elapsed < 2000 {
            2000 - elapsed
        } else {
            0
        },
{
    if elapsed < RECOVERY_MIN_MILLIS {
        RECOVERY_MIN_MILLIS - elapsed
    } else {
        0
    }
}

// ---------------------------------------------------------------------------
// Laws
// ---------------------------------------------------------------------------

/// A key is read from its header with or without the word before it, and the
/// white space around it left aside.
pub proof fn key_is_read_from_its_header(key: Seq<char>)
    ensures
        header_key("Bearer "@ + key) == trimmed(key),
        !"Bearer "@.is_prefix_of(key) ==> header_key(key) == trimmed(key),
        is_api_key("cpay_"@ + key),
        is_api_key(key) ==> key == "cpay_"@ + key.skip(5),
{
    reveal_strlit("Bearer ");
    reveal_strlit("cpay_");
    let header = "Bearer "@ + key;
    assert("Bearer "@.is_prefix_of(header));
    assert(header.skip(7) =~= key);
    assert("cpay_"@.is_prefix_of("cpay_"@ + key));
    if is_api_key(key) {
        assert(key =~= "cpay_"@ + key.skip(5));
    }
}

/// Whoever shows a key is let in by that key or not at all; a session counts
/// only where no key is shown.
pub proof fn shown_key_decides<T>(
    header: Option<Seq<char>>,
    by_key: Option<(T, KeyKind)>,
    by_session: Option<T>,
)
    ensures
        ({
            let keyed = header is Some && is_api_key(header_key(header->0));
            let r = credential(header, by_key, by_session);
            &&& keyed ==> r == by_key
            &&& !keyed && by_session is None ==> r is None
            &&& !keyed && by_session is Some ==> r == Some((by_session->0, KeyKind::Session))
        }),
{
}

/// A session token is taken from a header that names it as one, and from no
/// other.
pub proof fn session_token_is_named_as_one(header: Option<Seq<char>>)
    ensures
        header is None ==> header_session_token(header) is None,
        header matches Some(h) ==> {
            let rest = trimmed(h.skip("Bearer "@.len() as int));
            let named = "Bearer "@.is_prefix_of(h) && "cps_"@.is_prefix_of(rest);
            &&& named ==> header_session_token(header) == Some(rest)
            &&& !named ==> header_session_token(header) is None
        },
{
}

/// A cookie is kept to secure connections on the main network, and on the test
/// network where a domain or a secure site is set up.
pub proof fn cookie_is_kept_secure(
    is_testnet: bool,
    cookie_domain: Option<Seq<char>>,
    frontend_url: Option<Seq<char>>,
)
    ensures
        !is_testnet ==> cookie_is_secure(is_testnet, cookie_domain, frontend_url),
        cookie_domain is Some ==> cookie_is_secure(is_testnet, cookie_domain, frontend_url),
        is_testnet && cookie_domain is None && frontend_url is None ==> !cookie_is_secure(
            is_testnet,
            cookie_domain,
            frontend_url,
        ),
        is_testnet && cookie_domain is None && frontend_url is Some ==> (cookie_is_secure(
            is_testnet,
            cookie_domain,
            frontend_url,
        ) <==> "https"@.is_prefix_of(frontend_url->0)),
{
}

/// Of a secret no more than twelve bytes are shown, and of a short one nothing.
pub proof fn secret_stays_hidden(s: Seq<char>)
    ensures
        s.len() == 0 ==> masked_secret(s).len() == 0,
        s.len() > 0 && byte_len(s) <= 12 ==> masked_secret(s) == "***"@,
        byte_len(s) > 12 ==> masked_secret(s) == decode_utf8(encode_utf8(s).take(12)) + "..."@,
{
    if s.len() == 0 {
        assert(encode_utf8(s).len() == 0);
    }
}

/// Of an e-mail address two bytes of the name are shown and the rest of the name
/// is starred out; what is no address is hidden whole.
pub proof fn email_stays_hidden(name: Seq<char>, domain: Seq<char>)
    requires
        !name.contains('@'),
    ensures
        byte_len(name) <= 2 ==> masked_email(name + seq!['@'] + domain) == name + seq!['@']
            + domain,
        byte_len(name) > 2 ==> masked_email(name + seq!['@'] + domain) == decode_utf8(
            encode_utf8(name).take(2),
        ) + stars((byte_len(name) - 2) as nat) + (seq!['@'] + domain),
        masked_email(name) == "***"@,
{
    let s = name + seq!['@'] + domain;
    let n = name.len() as int;
    assert(s[n] == '@');
    assert(s.contains('@'));
    let i = s.index_of_first('@')->0;
    s.index_of_first_ensures('@');
    if i < n {
        assert(name[i] == '@');
    }
    assert(i == n);
    assert(s.take(n) =~= name);
    assert(s.skip(n) =~= seq!['@'] + domain);
    assert(name + (seq!['@'] + domain) =~= s);
}

/// The texts of an account are held to their limits, and its addresses have to
/// be fit for their use.
pub proof fn account_texts_are_limited(
    update: &UpdateMerchantRequest,
    create: &CreateMerchantRequest,
    is_testnet: bool,
    c: CheckView,
)
    ensures
        update_checks_of(update, is_testnet).contains(c) <==> {
            ||| update.name matches Some(t) && c == (CheckView {
                field: "name"@,
                value: t@,
                kind: CheckKind::MaxLength(100),
            })
            ||| update.webhook_url matches Some(t) && t@.len() > 0 && c == (CheckView {
                field: "webhook_url"@,
                value: t@,
                kind: CheckKind::WebhookUrl(is_testnet),
            })
            ||| update.recovery_email matches Some(t) && t@.len() > 0 && c == (CheckView {
                field: "recovery_email"@,
                value: t@,
                kind: CheckKind::Email,
            })
        },
        registration_checks_of(create, is_testnet).contains(c) <==> {
            ||| create.name matches Some(t) && c == (CheckView {
                field: "name"@,
                value: t@,
                kind: CheckKind::MaxLength(100),
            })
            ||| c.field == "ufvk"@ && c.value == create.ufvk@ && (c.kind == CheckKind::MaxLength(
                2000,
            ) || c.kind == CheckKind::ViewingKeyNetwork(is_testnet))
            ||| create.webhook_url matches Some(t) && t@.len() > 0 && c == (CheckView {
                field: "webhook_url"@,
                value: t@,
                kind: CheckKind::WebhookUrl(is_testnet),
            })
            ||| create.email matches Some(t) && t@.len() > 0 && c == (CheckView {
                field: "email"@,
                value: t@,
                kind: CheckKind::Email,
            })
        },
{
    crate::validation::checks_add_up();
}

/// A value that is not named stays, an empty one is removed, and any other is
/// stored; that fails only where there is something to store.
pub proof fn value_is_changed_as_asked(
    asked: Option<Seq<char>>,
    before: Option<String>,
    after: Option<String>,
    encryption_key: Seq<char>,
)
    requires
        value_updated(asked, before, after, encryption_key),
    ensures
        asked is None ==> after == before,
        asked is Some && asked->0.len() == 0 ==> after is None,
        asked is Some && asked->0.len() > 0 ==> after is Some && is_stored_form(
            after->0@,
            asked->0,
            encryption_key,
        ),
        update_fails(asked, encryption_key) ==> asked is Some && asked->0.len() > 0,
        asked is Some && asked->0.len() > 0 ==> update_fails(asked, encryption_key)
            == storage_fails(asked->0, encryption_key),
{
}

/// A request is refused with 401 where the caller is not known, with 403 where
/// the caller may not do it.
pub proof fn access_refusals_have_their_status(e: AccessError)
    ensures
        e.spec_reply().0 == 401 <==> e is NotAuthenticated || e is InvalidApiKey,
        e.spec_reply().0 == 403 <==> e is RestrictedKey,
{
}

/// The admin key is compared by its code under a fixed text.
pub proof fn admin_key_is_compared_by_its_code(key: Seq<char>)
    ensures
        admin_tag(key) == hmac_sha256(encode_utf8("admin-key-verify"@), encode_utf8(key)),
{
}

} // verus!
