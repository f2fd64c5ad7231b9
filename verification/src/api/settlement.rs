//! Settlement of payments: each is consumed once, what is left of it may open
//! a session, and the answer is kept under the key of the request, so that a
//! repeated request gets the same answer and no second settlement.

use vstd::prelude::*;
use vstd::utf8::*;

use crate::api::x402::DEFAULT_SESSION_COST;
use crate::api::x402_v2::{
    fields_of, finding_of, finding_rests_on_amounts, or_default, parse_settle_request,
    payment_countable, verify_core_v2, Finding, PaymentFacts, SettleRequestV2, SettleSessionConfig, V2Problem,
};
use crate::api::Lookup;
use crate::crypto::{
    aes256_gcm_sealed, decrypt, decrypted, encrypt, encrypted, encryption_error, key_error, sha256,
    sha256_digest, CryptoError, MAX_PLAINTEXT, NONCE_LEN,
};
use crate::hexadecimal::{self, hex_bytes, hex_roundtrip, hex_text, is_hex_text};
use crate::session_ledger::{same_consumptions, SessionLedger};
use crate::sessions::{opened_as, Opening, Session, SessionError};
use crate::text::{
    ascii_lowercased, byte_len, byte_length, copy_text, decimal, decimal_text, is_hex_digit,
    lex_less, occurs_at, occurs_in, opt_str, opt_text, text_eq, text_less,
};

verus! {

/// Bytes of an idempotency key at most.
pub const MAX_IDEMPOTENCY_KEY: usize = 128;

/// An answer that is kept for whoever repeats the request.
pub struct CachedReply {
    pub merchant_id: String,
    pub idempotency_key: String,
    pub request_hash: String,
    pub response: String,
    pub created_at: String,
}

/// What is told of a session that a settlement opened.
pub struct SessionInfo {
    pub token: String,
    pub session_id: String,
    pub balance_remaining: i64,
    pub cost_per_request: i64,
    pub expires_at: String,
}

pub struct SettleResponseV2 {
    pub success: bool,
    pub transaction: String,
    pub network: String,
    pub error_reason: Option<String>,
    pub amount: Option<String>,
    pub session: Option<SessionInfo>,
}

/// Why a settlement could not be committed.
#[derive(Debug, Clone, Copy, PartialEq, Eq, Structural)]
pub enum CommitError {
    InvalidCost,
    Session(SessionError),
    Crypto(CryptoError),
    KeyTaken,
}

/// Why a kept answer is not given out.
#[derive(Debug, Clone, Copy, PartialEq, Eq, Structural)]
pub enum CacheError {
    RequestDiffers,
    Crypto(CryptoError),
}

/// The consumed payments, the sessions and the kept answers.
pub struct SettlementBook {
    pub ledger: SessionLedger,
    pub replies: Vec<CachedReply>,
}

/// What is left of a payment after the price, where it is a number of zatoshis
/// that a session can hold.
pub open spec fn surplus_of(total: u64, price: u64) -> Option<i64> {
    if total <= price {
        Some(0)
    } else if total - price <= i64::MAX {
        Some((total - price) as i64)
    } else {
        None
    }
}

fn surplus(total: u64, price: u64) -> (r: Option<i64>)
    ensures
        r == surplus_of(total, price),
{
    if total <= price {
        Some(0)
    } else if total - price <= i64::MAX as u64 {
        Some((total - price) as i64)
    } else {
        None
    }
}

/// The price of a request in the session that is asked for.
pub open spec fn session_cost(cfg: &SettleSessionConfig) -> i64 {
    match cfg.cost_per_request {
        Some(c) => c,
        None => DEFAULT_SESSION_COST,
    }
}

/// The address for refunds from the session that is asked for.
pub open spec fn refund_of(session: Option<&SettleSessionConfig>) -> Option<Seq<char>> {
    match session {
        Some(cfg) => opt_text(cfg.refund_address),
        None => None,
    }
}

/// The balance and the price of the session that a settlement opens: only the
/// surplus funds it, and only where it is asked for and pays for a request.
pub open spec fn funding(session: Option<&SettleSessionConfig>, total: u64, price: u64) -> Option<
    (i64, i64),
> {
    match (session, surplus_of(total, price)) {
        (Some(cfg), Some(left)) => if left >= session_cost(cfg) {
            Some((left, session_cost(cfg)))
        } else {
            None
        },
        _ => None,
    }
}

/// Whether a kept answer is that of a merchant under a key.
pub open spec fn is_reply_to(c: CachedReply, merchant_id: Seq<char>, key: Seq<char>) -> bool {
    c.merchant_id@ == merchant_id && c.idempotency_key@ == key
}

impl CachedReply {
    fn copy(&self) -> (r: CachedReply)
        ensures
            r == *self,
    {
        CachedReply {
            merchant_id: self.merchant_id.clone(),
            idempotency_key: self.idempotency_key.clone(),
            request_hash: self.request_hash.clone(),
            response: self.response.clone(),
            created_at: self.created_at.clone(),
        }
    }

    fn replies_to(&self, merchant_id: &str, key: &str) -> (r: bool)
        ensures
            r == is_reply_to(*self, merchant_id@, key@),
    {
        text_eq(self.merchant_id.as_str(), merchant_id) && text_eq(
            self.idempotency_key.as_str(),
            key,
        )
    }
}

/// The terms of a settlement.
pub struct Terms<'a> {
    pub merchant_id: Seq<char>,
    pub txid: Seq<char>,
    pub price: u64,
    pub total: u64,
    pub network: Seq<char>,
    pub session: Option<&'a SettleSessionConfig>,
    pub key: Option<Seq<char>>,
    pub digest: Seq<char>,
    pub encryption_key: Seq<char>,
    pub cutoff: Seq<char>,
}

/// Whether a book becomes another one where a payment is consumed and a session
/// opened with its surplus, or none, and whether the response tells of it.
pub open spec fn settled_with(
    before: &SettlementBook,
    after: &SettlementBook,
    opening: &Opening,
    t: Terms,
    resp: &SettleResponseV2,
    opened: Option<Session>,
) -> bool {
    &&& tells(resp, t.txid, t.network, t.total, opened)
    &&& before.settled_into(
        after,
        opening,
        t.merchant_id,
        t.txid,
        funding(t.session, t.total, t.price),
        refund_of(t.session),
        opened,
    )
}

/// Whether a book becomes another one, with a result, where a settlement is
/// committed. Either all of it happens or nothing.
pub open spec fn committed<F: Fn(&SettleResponseV2) -> String>(
    before: &SettlementBook,
    after: &SettlementBook,
    opening: &Opening,
    t: Terms,
    render: F,
    r: Result<Option<SettleResponseV2>, CommitError>,
) -> bool {
    let error = before.funding_error(opening, t.session, t.total, t.price);
    match r {
        Ok(None) => before.ledger.is_consumed(t.txid) && *after == *before,
        Err(e) => {
            &&& !before.ledger.is_consumed(t.txid)
            &&& *after == *before
            &&& match error {
                Some(x) => e == x,
                None => match (t.key, e) {
                    (Some(k), CommitError::Crypto(c)) => c == encryption_error(t.encryption_key)
                        && (key_error(t.encryption_key) is Some || exists|
                        x: &SettleResponseV2,
                        text: String,
                    | #[trigger]
                        render.ensures((x,), text) && byte_len(text@) > MAX_PLAINTEXT),
                    (Some(k), CommitError::KeyTaken) => before.has_reply(
                        t.merchant_id,
                        k,
                        t.cutoff,
                    ),
                    _ => false,
                },
            }
        },
        Ok(Some(resp)) => {
            &&& !before.ledger.is_consumed(t.txid)
            &&& error is None
            &&& exists|opened: Option<Session>| #[trigger]
                settled_with(before, after, opening, t, &resp, opened)
            &&& match t.key {
                None => after.replies == before.replies,
                Some(k) => {
                    &&& key_error(t.encryption_key) is None
                    &&& !before.has_reply(t.merchant_id, k, t.cutoff)
                    &&& before.kept_into(after, t.merchant_id, k, t.digest, opening.now@)
                    &&& is_hex_text(after.replies@.last().response@)
                    &&& exists|text: String| #[trigger]
                        render.ensures((&resp,), text) && decrypted(
                            after.replies@.last().response@,
                            t.encryption_key,
                        ) == Ok::<Seq<char>, CryptoError>(text@)
                },
            }
        },
    }
}

/// Whether a response tells of a settlement.
pub open spec fn tells(
    r: &SettleResponseV2,
    txid: Seq<char>,
    network: Seq<char>,
    total: u64,
    session: Option<Session>,
) -> bool {
    &&& r.success
    &&& r.transaction@ == txid
    &&& r.network@ == network
    &&& r.error_reason is None
    &&& opt_text(r.amount) == Some(decimal(total as nat))
    &&& match (r.session, session) {
        (Some(i), Some(s)) => {
            &&& i.token@ == s.bearer_token@
            &&& i.session_id@ == s.id@
            &&& i.balance_remaining == s.balance_remaining
            &&& i.cost_per_request == s.cost_per_request
            &&& i.expires_at@ == s.expires_at@
        },
        (None, None) => true,
        _ => false,
    }
}

impl SettlementBook {
    /// What holds of the book at all times: each merchant has one answer per
    /// key.
    pub open spec fn wf(&self) -> bool {
        &&& self.ledger.wf()
        &&& forall|i: int, j: int|
            0 <= i < j < self.replies@.len() ==> !((#[trigger] self.replies@[i]).merchant_id@ == (
            #[trigger] self.replies@[j]).merchant_id@ && self.replies@[i].idempotency_key@
                == self.replies@[j].idempotency_key@)
    }

    /// Whether an answer is kept for a merchant under a key, from the cutoff on.
    pub open spec fn has_reply(
        &self,
        merchant_id: Seq<char>,
        key: Seq<char>,
        cutoff: Seq<char>,
    ) -> bool {
        exists|i: int|
            0 <= i < self.replies@.len() && is_reply_to(
                #[trigger] self.replies@[i],
                merchant_id,
                key,
            ) && !lex_less(self.replies@[i].created_at@, cutoff)
    }

    pub fn new() -> (r: SettlementBook)
        ensures
            r.wf(),
            r.replies@.len() == 0,
            r.ledger.sessions@.len() == 0,
            r.ledger.charges@.len() == 0,
            r.ledger.requests@.len() == 0,
            r.ledger.consumptions@.len() == 0,
    {
        SettlementBook { ledger: SessionLedger::new(), replies: Vec::new() }
    }

    /// The place of the answer that is kept for a merchant under a key, from
    /// the cutoff on.
    pub open spec fn kept_at(
        &self,
        i: int,
        merchant_id: Seq<char>,
        key: Seq<char>,
        cutoff: Seq<char>,
    ) -> bool {
        &&& 0 <= i < self.replies@.len()
        &&& is_reply_to(self.replies@[i], merchant_id, key)
        &&& !lex_less(self.replies@[i].created_at@, cutoff)
    }

    fn find_reply(&self, merchant_id: &str, key: &str, cutoff: &str) -> (r: Option<usize>)
        ensures
            match r {
                Some(i) => self.kept_at(i as int, merchant_id@, key@, cutoff@) && self.has_reply(
                    merchant_id@,
                    key@,
                    cutoff@,
                ),
                None => !self.has_reply(merchant_id@, key@, cutoff@),
            },
    {
        let mut i: usize = 0;
        while i < self.replies.len()
            invariant
                i <= self.replies@.len(),
                forall|k: int|
                    0 <= k < i ==> !(is_reply_to(#[trigger] self.replies@[k], merchant_id@, key@)
                        && !lex_less(self.replies@[k].created_at@, cutoff@)),
            decreases self.replies@.len() - i,
        {
            if self.replies[i].replies_to(merchant_id, key) && !text_less(
                self.replies[i].created_at.as_str(),
                cutoff,
            ) {
                assert(is_reply_to(self.replies@[i as int], merchant_id@, key@));
                return Some(i);
            }
            i = i + 1;
        }
        None
    }

    /// The answer that is kept for a merchant under a key: none where there is
    /// none from the cutoff on, an error where it answered another request or
    /// cannot be decrypted.
    pub fn cached_settlement(
        &self,
        merchant_id: &str,
        key: &str,
        digest: &str,
        encryption_key: &str,
        cutoff: &str,
    ) -> (r: Result<Option<String>, CacheError>)
        ensures
            !self.has_reply(merchant_id@, key@, cutoff@) ==> (r matches Ok(x) && x is None),
            self.has_reply(merchant_id@, key@, cutoff@) ==> exists|i: int|
                #[trigger] self.kept_at(i, merchant_id@, key@, cutoff@) && {
                    let c = self.replies@[i];
                    if c.request_hash@ != digest@ {
                        r == Err::<Option<String>, CacheError>(CacheError::RequestDiffers)
                    } else {
                        match decrypted(c.response@, encryption_key@) {
                            Ok(t) => r matches Ok(Some(s)) && s@ == t,
                            Err(e) => r == Err::<Option<String>, CacheError>(CacheError::Crypto(e)),
                        }
                    }
                },
    {
        match self.find_reply(merchant_id, key, cutoff) {
            None => Ok(None),
            Some(i) => {
                assert(self.kept_at(i as int, merchant_id@, key@, cutoff@));
                if !text_eq(self.replies[i].request_hash.as_str(), digest) {
                    return Err(CacheError::RequestDiffers);
                }
                match decrypt(self.replies[i].response.as_str(), encryption_key) {
                    Ok(s) => Ok(Some(s)),
                    Err(e) => Err(CacheError::Crypto(e)),
                }
            },
        }
    }

    /// The error that a settlement of a fresh payment meets before the answer
    /// is kept, if any.
    pub open spec fn funding_error(
        &self,
        opening: &Opening,
        session: Option<&SettleSessionConfig>,
        total: u64,
        price: u64,
    ) -> Option<CommitError> {
        match session {
            Some(cfg) => if session_cost(cfg) <= 0 {
                Some(CommitError::InvalidCost)
            } else {
                match funding(session, total, price) {
                    Some(f) => match self.ledger.insertion_error(opening, f.0, Some(f.1)) {
                        Some(e) => Some(CommitError::Session(e)),
                        None => None,
                    },
                    None => None,
                }
            },
            None => None,
        }
    }

    /// Whether the second book is the first one after a settlement: the payment
    /// is consumed, and the session is there that the surplus funds.
    pub open spec fn settled_into(
        &self,
        after: &SettlementBook,
        opening: &Opening,
        merchant_id: Seq<char>,
        txid: Seq<char>,
        funds: Option<(i64, i64)>,
        refund_address: Option<Seq<char>>,
        opened: Option<Session>,
    ) -> bool {
        &&& self.ledger.consumed_into(&after.ledger, txid, "x402"@)
        &&& after.ledger.charges == self.ledger.charges
        &&& after.ledger.requests == self.ledger.requests
        &&& match (funds, opened) {
            (Some(f), Some(s)) => {
                &&& after.ledger.sessions@ == self.ledger.sessions@.push(s)
                &&& opened_as(&s, opening, merchant_id, txid, f.0, refund_address, Some(f.1))
            },
            (None, None) => after.ledger.sessions == self.ledger.sessions,
            _ => false,
        }
    }

    /// Whether the second book keeps, beside the answers of the first one, an
    /// answer under a key; one that expired before the cutoff makes room.
    pub open spec fn kept_into(
        &self,
        after: &SettlementBook,
        merchant_id: Seq<char>,
        key: Seq<char>,
        digest: Seq<char>,
        now: Seq<char>,
    ) -> bool {
        &&& after.replies@.len() > 0
        &&& after.replies@.drop_last() == without_reply(self.replies@, merchant_id, key)
        &&& is_reply_to(after.replies@.last(), merchant_id, key)
        &&& after.replies@.last().request_hash@ == digest
        &&& after.replies@.last().created_at@ == now
    }

    /// Settles a payment: consumes it, opens the session that is asked for, and
    /// keeps the answer under the key, all of it or nothing. No answer comes
    /// back where the payment was consumed before.
    pub fn commit_settlement<F: Fn(&SettleResponseV2) -> String>(
        &mut self,
        opening: &Opening,
        merchant_id: &str,
        txid: &str,
        price: u64,
        total: u64,
        network: &str,
        session: Option<&SettleSessionConfig>,
        key: Option<&str>,
        digest: &str,
        encryption_key: &str,
        cutoff: &str,
        render: F,
    ) -> (r: Result<Option<SettleResponseV2>, CommitError>)
        requires
            old(self).wf(),
            forall|x: &SettleResponseV2| render.requires((x,)),
        ensures
            final(self).wf(),
            final(self).ledger.remembers(&old(self).ledger),
            committed(
                old(self),
                final(self),
                opening,
                (Terms {
                    merchant_id: merchant_id@,
                    txid: txid@,
                    price,
                    total,
                    network: network@,
                    session,
                    key: opt_str(key),
                    digest: digest@,
                    encryption_key: encryption_key@,
                    cutoff: cutoff@,
                }),
                render,
                r,
            ),
    {
        if self.ledger.txid_already_used(txid) {
            return Ok(None);
        }
        let ghost before = *self;
        let funds: Option<(i64, i64, &SettleSessionConfig)> = match session {
            None => None,
            Some(cfg) => {
                let cost: i64 = match cfg.cost_per_request {
                    Some(c) => c,
                    None => DEFAULT_SESSION_COST,
                };
                if cost <= 0 {
                    return Err(CommitError::InvalidCost);
                }
                match surplus(total, price) {
                    Some(left) => if left >= cost {
                        Some((left, cost, cfg))
                    } else {
                        None
                    },
                    None => None,
                }
            },
        };
        let info: Option<SessionInfo> = match &funds {
            None => None,
            Some(f) => {
                match self.ledger.insertion_problem(opening, f.0, Some(f.1)) {
                    Some(e) => {
                        return Err(CommitError::Session(e));
                    },
                    None => {},
                }
                Some(
                    SessionInfo {
                        token: opening.bearer_token.clone(),
                        session_id: opening.id.clone(),
                        balance_remaining: f.0,
                        cost_per_request: f.1,
                        expires_at: opening.expires_at.clone(),
                    },
                )
            },
        };
        let response: SettleResponseV2 = SettleResponseV2 {
            success: true,
            transaction: txid.to_string(),
            network: network.to_string(),
            error_reason: None,
            amount: Some(decimal_text(total)),
            session: info,
        };
        assert(before.funding_error(opening, session, total, price) is None);
        match key {
            None => {},
            Some(k) => {
                let text: String = render(&response);
                let sealed: String = match encrypt(text.as_str(), encryption_key) {
                    Ok(s) => s,
                    Err(e) => {
                        return Err(CommitError::Crypto(e));
                    },
                };
                proof {
                    let nonce = choose|nonce: Seq<u8>|
                        nonce.len() == NONCE_LEN && Ok::<Seq<char>, CryptoError>(sealed@)
                            == #[trigger] encrypted(text@, encryption_key@, nonce);
                    hex_roundtrip(
                        nonce + aes256_gcm_sealed(
                            hex_bytes(encryption_key@),
                            nonce,
                            encode_utf8(text@),
                        )->0,
                    );
                }
                if self.find_reply(merchant_id, k, cutoff).is_some() {
                    return Err(CommitError::KeyTaken);
                }
                proof {
                    assert(render.ensures((&response,), text));
                }
                self.drop_reply(merchant_id, k);
                let ghost dropped = *self;
                self.replies.push(
                    CachedReply {
                        merchant_id: merchant_id.to_string(),
                        idempotency_key: k.to_string(),
                        request_hash: digest.to_string(),
                        response: sealed,
                        created_at: opening.now.clone(),
                    },
                );
                proof {
                    assert(self.replies@.drop_last() =~= dropped.replies@);
                    assert forall|i: int, j: int| 0 <= i < j < self.replies@.len() implies !((
                    #[trigger] self.replies@[i]).merchant_id@ == (
                    #[trigger] self.replies@[j]).merchant_id@ && self.replies@[i].idempotency_key@
                        == self.replies@[j].idempotency_key@) by {
                        assert(self.replies@[i] == dropped.replies@[i]);
                        if j < dropped.replies@.len() {
                            assert(self.replies@[j] == dropped.replies@[j]);
                        }
                    }
                }
            },
        }
        let ghost middle = *self;
        assert(middle.wf());
        let opened: Option<Session> = match &funds {
            None => None,
            Some(f) => {
                let refund: Option<&str> = match &f.2.refund_address {
                    Some(a) => Some(a.as_str()),
                    None => None,
                };
                match self.ledger.insert_session(
                    opening,
                    merchant_id,
                    txid,
                    f.0,
                    refund,
                    Some(f.1),
                ) {
                    Ok(s) => Some(s),
                    Err(_) => None,
                }
            },
        };
        proof {
            same_consumptions(before.ledger, self.ledger);
        }
        let _: bool = self.ledger.consume_payment(txid, "x402");
        assert(settled_with(
            &before,
            self,
            opening,
            Terms {
                merchant_id: merchant_id@,
                txid: txid@,
                price,
                total,
                network: network@,
                session,
                key: opt_str(key),
                digest: digest@,
                encryption_key: encryption_key@,
                cutoff: cutoff@,
            },
            &response,
            opened,
        ));
        Ok(Some(response))
    }

    fn drop_reply(&mut self, merchant_id: &str, key: &str)
        requires
            old(self).wf(),
        ensures
            final(self).wf(),
            final(self).ledger == old(self).ledger,
            final(self).replies@ == without_reply(old(self).replies@, merchant_id@, key@),
            forall|i: int|
                0 <= i < final(self).replies@.len() ==> !is_reply_to(
                    #[trigger] final(self).replies@[i],
                    merchant_id@,
                    key@,
                ),
    {
        let mut kept: Vec<CachedReply> = Vec::new();
        let mut i: usize = 0;
        while i < self.replies.len()
            invariant
                i <= self.replies@.len(),
                self.wf(),
                kept@ == without_reply(self.replies@.take(i as int), merchant_id@, key@),
                forall|k: int|
                    0 <= k < kept@.len() ==> !is_reply_to(
                        #[trigger] kept@[k],
                        merchant_id@,
                        key@,
                    ),
                forall|k: int|
                    0 <= k < kept@.len() ==> exists|j: int|
                        0 <= j < i && #[trigger] self.replies@[j] == #[trigger] kept@[k],
                forall|a: int, b: int|
                    0 <= a < b < kept@.len() ==> !((#[trigger] kept@[a]).merchant_id@ == (
                    #[trigger] kept@[b]).merchant_id@ && kept@[a].idempotency_key@
                        == kept@[b].idempotency_key@),
            decreases self.replies@.len() - i,
        {
            let ghost next = self.replies@.take(i + 1);
            assert(next.drop_last() =~= self.replies@.take(i as int));
            let ghost seen = kept@;
            if !self.replies[i].replies_to(merchant_id, key) {
                kept.push(self.replies[i].copy());
                proof {
                    assert forall|k: int| 0 <= k < kept@.len() implies exists|j: int|
                        0 <= j < i + 1 && #[trigger] self.replies@[j] == #[trigger] kept@[k] by {
                        if k == seen.len() {
                            assert(self.replies@[i as int] == kept@[k]);
                        } else {
                            assert(kept@[k] == seen[k]);
                            let j = choose|j: int|
                                0 <= j < i && #[trigger] self.replies@[j] == seen[k];
                            assert(self.replies@[j] == kept@[k]);
                        }
                    }
                }
            }
            i = i + 1;
        }
        assert(self.replies@.take(i as int) =~= self.replies@);
        self.replies = kept;
    }
}

/// The answers but that of a merchant under a key.
pub open spec fn without_reply(
    replies: Seq<CachedReply>,
    merchant_id: Seq<char>,
    key: Seq<char>,
) -> Seq<CachedReply>
    decreases replies.len(),
{
    if replies.len() == 0 {
        Seq::empty()
    } else if is_reply_to(replies.last(), merchant_id, key) {
        without_reply(replies.drop_last(), merchant_id, key)
    } else {
        without_reply(replies.drop_last(), merchant_id, key).push(replies.last())
    }
}

/// What a request for settlement is answered.
pub enum SettleReply {
    Problem(V2Problem),
    /// The answer that was kept for the same request.
    Repeated(String),
    /// The payment is not accepted.
    Unpaid(SettleResponseV2),
    Settled(SettleResponseV2),
    /// The settlement could not be committed.
    Failed(CommitError),
}

/// The key of a request: that of the header where there is one, otherwise that
/// of the body.
pub open spec fn request_key(header: Option<Seq<char>>, body: &SettleRequestV2) -> Option<
    Seq<char>,
> {
    match header {
        Some(h) => Some(h),
        None => opt_text(body.idempotency_key),
    }
}

/// The problem that a request for settlement meets before anything else, if
/// any.
pub open spec fn settle_gate(
    has_key: bool,
    merchant_id: Lookup<String>,
    key: Option<Seq<char>>,
) -> Option<V2Problem> {
    if !has_key {
        Some(V2Problem::MissingKey)
    } else if !(merchant_id is Found) {
        Some(V2Problem::InvalidKey)
    } else if key matches Some(k) && (k.len() == 0 || byte_len(k) > MAX_IDEMPOTENCY_KEY) {
        Some(V2Problem::InvalidIdempotencyKey)
    } else {
        None
    }
}

/// The digest by which a repeated request is known.
pub fn request_digest(body: &[u8]) -> (r: String)
    ensures
        r@ == hex_text(sha256(body@)),
{
    hexadecimal::encode(sha256_digest(body).as_slice())
}

/// Whether a kept answer leads to a reply to a request with a digest.
pub open spec fn repeated_as(
    c: CachedReply,
    digest: Seq<char>,
    encryption_key: Seq<char>,
    reply: SettleReply,
) -> bool {
    if c.request_hash@ != digest {
        reply == SettleReply::Problem(V2Problem::IdempotencyConflict)
    } else {
        match decrypted(c.response@, encryption_key) {
            Ok(t) => reply matches SettleReply::Repeated(s) && s@ == t,
            Err(_) => reply == SettleReply::Problem(V2Problem::IdempotencyConflict),
        }
    }
}

/// Whether a response says that a payment is not accepted.
pub open spec fn declines(resp: &SettleResponseV2, network: Seq<char>, finding: Finding) -> bool {
    &&& !resp.success
    &&& resp.transaction@.len() == 0
    &&& resp.network@ == network
    &&& opt_text(resp.error_reason) == finding.spec_reason()
    &&& resp.amount is None
    &&& resp.session is None
}

/// What a reply says of a committed settlement.
pub open spec fn reply_result(reply: SettleReply) -> Result<Option<SettleResponseV2>, CommitError> {
    match reply {
        SettleReply::Settled(resp) => Ok(Some(resp)),
        SettleReply::Failed(e) => Err(e),
        _ => Ok(None),
    }
}

/// Settles the payment of a request, from what was found out about it. Nothing
/// comes back where the answer rests on amounts that cannot be counted.
pub fn settle_v2<F: Fn(&SettleResponseV2) -> String>(
    book: &mut SettlementBook,
    opening: &Opening,
    has_key: bool,
    merchant_id: &Lookup<String>,
    header_key: Option<&str>,
    body: &SettleRequestV2,
    digest: &str,
    facts: &PaymentFacts,
    encryption_key: &str,
    cutoff: &str,
    render: F,
) -> (r: Option<SettleReply>)
    requires
        old(book).wf(),
        forall|x: &SettleResponseV2| render.requires((x,)),
    ensures
        final(book).wf(),
        final(book).ledger.remembers(&old(book).ledger),
        payment_countable(facts) ==> r is Some,
        ({
            let key = request_key(opt_str(header_key), body);
            match settle_gate(has_key, *merchant_id, key) {
                Some(p) => r == Some(SettleReply::Problem(p)) && *final(book) == *old(book),
                None => {
                    let m = merchant_id->Found_0@;
                    if key is Some && old(book).has_reply(m, key->0, cutoff@) {
                        &&& *final(book) == *old(book)
                        &&& exists|i: int| #[trigger]
                            old(book).kept_at(i, m, key->0, cutoff@) && (r matches Some(x)
                                && repeated_as(
                                old(book).replies@[i],
                                digest@,
                                encryption_key@,
                                x,
                            ))
                    } else {
                        match fields_of(&body.payment_payload, &body.payment_requirements) {
                            Err(p) => r == Some(SettleReply::Problem(p)) && *final(book) == *old(
                                book,
                            ),
                            Ok(f) => match (
                                finding_of(
                                    facts,
                                    f.1,
                                    f.2,
                                    or_default(opt_text(body.payment_requirements.pay_to), ""@),
                                ),
                                r,
                            ) {
                                (f, None) => {
                                    &&& finding_rests_on_amounts(f)
                                    &&& !payment_countable(facts)
                                    &&& *final(book) == *old(book)
                                },
                                (Err(p), Some(x)) => x == SettleReply::Problem(p) && *final(book)
                                    == *old(book),
                                (Ok(Finding::Paid(total)), Some(x)) => {
                                    &&& match x {
                                        SettleReply::Settled(_) => true,
                                        SettleReply::Failed(_) => true,
                                        SettleReply::Problem(p) => p == V2Problem::Replayed,
                                        _ => false,
                                    }
                                    &&& committed(
                                        old(book),
                                        final(book),
                                        opening,
                                        (Terms {
                                            merchant_id: m,
                                            txid: f.0,
                                            price: f.1,
                                            total,
                                            network: f.2,
                                            session: session_of(body),
                                            key,
                                            digest: digest@,
                                            encryption_key: encryption_key@,
                                            cutoff: cutoff@,
                                        }),
                                        render,
                                        reply_result(x),
                                    )
                                },
                                (Ok(finding), Some(x)) => {
                                    &&& x matches SettleReply::Unpaid(resp) && declines(
                                        &resp,
                                        f.2,
                                        finding,
                                    )
                                    &&& *final(book) == *old(book)
                                },
                            },
                        }
                    }
                },
            }
        }),
{
    if !has_key {
        return Some(SettleReply::Problem(V2Problem::MissingKey));
    }
    let m: &str = match merchant_id {
        Lookup::Found(m) => m.as_str(),
        _ => {
            return Some(SettleReply::Problem(V2Problem::InvalidKey));
        },
    };
    let key: Option<&str> = match header_key {
        Some(h) => Some(h),
        None => match &body.idempotency_key {
            Some(k) => Some(k.as_str()),
            None => None,
        },
    };
    assert(opt_str(key) == request_key(opt_str(header_key), body));
    match key {
        Some(k) => {
            if k.is_empty() || byte_length(k) > MAX_IDEMPOTENCY_KEY {
                return Some(SettleReply::Problem(V2Problem::InvalidIdempotencyKey));
            }
            match book.cached_settlement(m, k, digest, encryption_key, cutoff) {
                Ok(Some(s)) => {
                    return Some(SettleReply::Repeated(s));
                },
                Ok(None) => {},
                Err(_) => {
                    return Some(SettleReply::Problem(V2Problem::IdempotencyConflict));
                },
            }
        },
        None => {},
    }
    let (txid, amount, network) = match parse_settle_request(body) {
        Ok(f) => f,
        Err(p) => {
            return Some(SettleReply::Problem(p));
        },
    };
    let pay_to: &str = match &body.payment_requirements.pay_to {
        Some(p) => p.as_str(),
        None => "",
    };
    match verify_core_v2(facts, amount, network.as_str(), pay_to) {
        None => None,
        Some(Err(p)) => Some(SettleReply::Problem(p)),
        Some(Ok(Finding::Paid(total))) => {
            let session: Option<&SettleSessionConfig> = match &body.session {
                Some(cfg) => Some(cfg),
                None => None,
            };
            match book.commit_settlement(
                opening,
                m,
                txid.as_str(),
                amount,
                total,
                network.as_str(),
                session,
                key,
                digest,
                encryption_key,
                cutoff,
                render,
            ) {
                Ok(Some(resp)) => Some(SettleReply::Settled(resp)),
                Ok(None) => Some(SettleReply::Problem(V2Problem::Replayed)),
                Err(e) => Some(SettleReply::Failed(e)),
            }
        },
        Some(Ok(finding)) => Some(
            SettleReply::Unpaid(
                SettleResponseV2 {
                    success: false,
                    transaction: String::new(),
                    network,
                    error_reason: copy_text(finding.reason()),
                    amount: None,
                    session: None,
                },
            ),
        ),
    }
}

/// The session that a request asks for.
pub open spec fn session_of(body: &SettleRequestV2) -> Option<&SettleSessionConfig> {
    match body.session {
        Some(cfg) => Some(&cfg),
        None => None,
    }
}

// ---------------------------------------------------------------------------
// Laws
// ---------------------------------------------------------------------------

/// Whoever repeats a settled request under its key gets the very answer that
/// was given first, as long as it is kept.
pub proof fn settled_answer_is_repeated<F: Fn(&SettleResponseV2) -> String>(
    before: SettlementBook,
    after: SettlementBook,
    opening: Opening,
    t: Terms,
    render: F,
    resp: SettleResponseV2,
)
    requires
        committed(&before, &after, &opening, t, render, Ok(Some(resp))),
        t.key is Some,
        after.wf(),
        !lex_less(opening.now@, t.cutoff),
    ensures
        after.has_reply(t.merchant_id, t.key->0, t.cutoff),
        forall|i: int| #[trigger]
            after.kept_at(i, t.merchant_id, t.key->0, t.cutoff) ==> {
                &&& after.replies@[i].request_hash@ == t.digest
                &&& exists|text: String| #[trigger]
                    render.ensures((&resp,), text) && decrypted(
                        after.replies@[i].response@,
                        t.encryption_key,
                    ) == Ok::<Seq<char>, CryptoError>(text@)
            },
{
    let n = after.replies@.len() - 1;
    let k = t.key->0;
    assert(after.kept_at(n, t.merchant_id, k, t.cutoff));
    assert(is_reply_to(after.replies@[n], t.merchant_id, k));
    assert forall|i: int| #[trigger] after.kept_at(i, t.merchant_id, k, t.cutoff) implies i
        == n by {
        if i < n {
            assert(after.replies@[i].merchant_id@ == after.replies@[n].merchant_id@);
        }
    }
}

/// A settlement keeps an answer for its own merchant and key alone: to all
/// others the book answers as before.
pub proof fn answers_are_bound_to_the_merchant<F: Fn(&SettleResponseV2) -> String>(
    before: SettlementBook,
    after: SettlementBook,
    opening: Opening,
    t: Terms,
    render: F,
    resp: SettleResponseV2,
    merchant_id: Seq<char>,
    key: Seq<char>,
    cutoff: Seq<char>,
)
    requires
        committed(&before, &after, &opening, t, render, Ok(Some(resp))),
        merchant_id != t.merchant_id || Some(key) != t.key,
    ensures
        after.has_reply(merchant_id, key, cutoff) == before.has_reply(merchant_id, key, cutoff),
{
    if t.key is Some {
        let k = t.key->0;
        let kept = without_reply(before.replies@, t.merchant_id, k);
        others_stay(before.replies@, t.merchant_id, k);
        if after.has_reply(merchant_id, key, cutoff) {
            let i = choose|i: int|
                0 <= i < after.replies@.len() && is_reply_to(
                    #[trigger] after.replies@[i],
                    merchant_id,
                    key,
                ) && !lex_less(after.replies@[i].created_at@, cutoff);
            assert(i < kept.len());
            assert(kept[i] == after.replies@[i]);
            assert(kept.contains(kept[i]));
            let j = before.replies@.index_of(kept[i]);
            assert(is_reply_to(before.replies@[j], merchant_id, key));
        }
        if before.has_reply(merchant_id, key, cutoff) {
            let i = choose|i: int|
                0 <= i < before.replies@.len() && is_reply_to(
                    #[trigger] before.replies@[i],
                    merchant_id,
                    key,
                ) && !lex_less(before.replies@[i].created_at@, cutoff);
            let c = before.replies@[i];
            assert(before.replies@.contains(c));
            assert(kept.contains(c));
            let j = kept.index_of(c);
            assert(after.replies@[j] == after.replies@.drop_last()[j]);
            assert(is_reply_to(after.replies@[j], merchant_id, key));
        }
    }
}

proof fn others_stay(replies: Seq<CachedReply>, merchant_id: Seq<char>, key: Seq<char>)
    ensures
        forall|c: CachedReply| #[trigger]
            without_reply(replies, merchant_id, key).contains(c) <==> replies.contains(c)
                && !is_reply_to(c, merchant_id, key),
    decreases replies.len(),
{
    if replies.len() > 0 {
        let rest = replies.drop_last();
        others_stay(rest, merchant_id, key);
        let kept = without_reply(rest, merchant_id, key);
        let all = without_reply(replies, merchant_id, key);
        assert forall|c: CachedReply| #[trigger] all.contains(c) <==> replies.contains(c)
            && !is_reply_to(c, merchant_id, key) by {
            if all.contains(c) {
                let i = all.index_of(c);
                if i < kept.len() {
                    assert(kept[i] == c);
                    assert(kept.contains(c));
                    let j = rest.index_of(c);
                    assert(replies[j] == c);
                } else {
                    assert(replies[replies.len() - 1] == c);
                }
            }
            if replies.contains(c) && !is_reply_to(c, merchant_id, key) {
                let i = replies.index_of(c);
                if i < rest.len() {
                    assert(rest[i] == c);
                    assert(kept.contains(c));
                    let j = kept.index_of(c);
                    assert(all[j] == c);
                } else {
                    assert(all[all.len() - 1] == c);
                }
            }
        }
    }
}

/// No session token can be read from what is kept of an answer.
pub proof fn kept_answer_shows_no_token<F: Fn(&SettleResponseV2) -> String>(
    before: SettlementBook,
    after: SettlementBook,
    opening: Opening,
    t: Terms,
    render: F,
    resp: SettleResponseV2,
)
    requires
        committed(&before, &after, &opening, t, render, Ok(Some(resp))),
        t.key is Some,
    ensures
        !occurs_in(after.replies@.last().response@, "cps_"@),
{
    reveal_strlit("cps_");
    let kept = after.replies@.last().response@;
    if occurs_in(kept, "cps_"@) {
        let i = choose|i: int| occurs_at(kept, "cps_"@, i);
        assert(kept.subrange(i, i + 4)[3] == '_');
        assert(is_hex_digit(kept[i + 3]));
    }
}

/// A settled payment is settled no second time, and opens no session on its
/// own either.
pub proof fn settled_once<F: Fn(&SettleResponseV2) -> String>(
    before: SettlementBook,
    after: SettlementBook,
    opening: Opening,
    t: Terms,
    render: F,
    resp: SettleResponseV2,
    other: Opening,
    balance: i64,
    cost: Option<i64>,
)
    requires
        committed(&before, &after, &opening, t, render, Ok(Some(resp))),
    ensures
        after.ledger.is_consumed(t.txid),
        after.ledger.opening_error(&other, t.txid, balance, cost) == Some(
            SessionError::AlreadyConsumed,
        ),
{
    let n = after.ledger.consumptions@.len() - 1;
    assert(after.ledger.consumptions@[n].txid@ == ascii_lowercased(t.txid));
}

/// A settlement that fails leaves the payment as it was: it can still be spent.
pub proof fn failed_settlement_consumes_nothing<F: Fn(&SettleResponseV2) -> String>(
    before: SettlementBook,
    after: SettlementBook,
    opening: Opening,
    t: Terms,
    render: F,
    e: CommitError,
)
    requires
        committed(&before, &after, &opening, t, render, Err(e)),
    ensures
        after == before,
        !after.ledger.is_consumed(t.txid),
{
}

/// A session that a settlement opens holds no more than what was paid beyond
/// the price.
pub proof fn surplus_alone_funds_sessions(
    session: Option<&SettleSessionConfig>,
    total: u64,
    price: u64,
)
    requires
        funding(session, total, price) is Some,
        session_cost(session->0) > 0,
    ensures
        (funding(session, total, price)->0).0 == total - price,
        price < total,
{
}

/// A session is opened exactly where one was asked for and what was paid above
/// the price is enough for one request. It is funded with all of that, at the
/// price that was named, or at 1000 zatoshis.
pub proof fn surplus_opens_the_session(cfg: SettleSessionConfig, total: u64, price: u64)
    requires
        total - price <= i64::MAX,
    ensures
        ({
            let left: int = if total > price {
                total - price
            } else {
                0
            };
            let cost = if cfg.cost_per_request is Some {
                cfg.cost_per_request->0
            } else {
                1_000
            };
            &&& left >= cost ==> funding(Some(&cfg), total, price) == Some((left as i64, cost))
            &&& left < cost ==> funding(Some(&cfg), total, price) is None
        }),
        funding(None, total, price) is None,
{
}

/// What is settled is told as it was: the transaction, the network and the whole
/// amount. The payment is consumed. A session is part of the answer exactly
/// where one was opened, with its token and what it holds.
pub proof fn settlement_is_told(
    before: SettlementBook,
    after: SettlementBook,
    opening: &Opening,
    t: Terms,
    resp: SettleResponseV2,
    opened: Option<Session>,
)
    requires
        settled_with(&before, &after, opening, t, &resp, opened),
    ensures
        resp.success && resp.error_reason is None,
        resp.transaction@ == t.txid,
        resp.network@ == t.network,
        opt_text(resp.amount) == Some(decimal(t.total as nat)),
        after.ledger.is_consumed(t.txid),
        after.ledger.consumptions@.last().purpose@ == "x402"@,
        resp.session is Some <==> funding(t.session, t.total, t.price) is Some,
        resp.session is None ==> after.ledger.sessions == before.ledger.sessions,
        resp.session matches Some(i) ==> {
            let s = after.ledger.sessions@.last();
            &&& after.ledger.sessions@.len() == before.ledger.sessions@.len() + 1
            &&& i.token@ == opening.bearer_token@ && i.session_id@ == opening.id@
            &&& i.expires_at@ == opening.expires_at@
            &&& i.balance_remaining == (funding(t.session, t.total, t.price)->0).0
            &&& i.cost_per_request == (funding(t.session, t.total, t.price)->0).1
            &&& s.merchant_id@ == t.merchant_id && s.status@ == "active"@
            &&& s.balance_remaining == i.balance_remaining
        },
        after.ledger.charges == before.ledger.charges,
{
    let c = after.ledger.consumptions@;
    assert(c[c.len() - 1].txid@ == ascii_lowercased(t.txid));
    if let Some(s) = opened {
        assert(before.ledger.sessions@.push(s).last() == s);
    }
}

/// A settlement needs a key, the merchant it belongs to, and an idempotency key
/// of 1 to 128 bytes where there is one; and nothing else is asked here.
pub proof fn settlement_is_gated(
    has_key: bool,
    merchant_id: Lookup<String>,
    key: Option<Seq<char>>,
)
    ensures
        ({
            let p = settle_gate(has_key, merchant_id, key);
            let usable = key is None || (key->0.len() > 0 && byte_len(key->0) <= 128);
            &&& !has_key <==> p == Some(V2Problem::MissingKey)
            &&& has_key && !(merchant_id is Found) <==> p == Some(V2Problem::InvalidKey)
            &&& has_key && merchant_id is Found && !usable <==> p == Some(
                V2Problem::InvalidIdempotencyKey,
            )
            &&& has_key && merchant_id is Found && usable <==> p is None
        }),
{
}

/// The key in the header goes before the one in the body.
pub proof fn header_key_goes_first(header: Option<Seq<char>>, body: &SettleRequestV2)
    ensures
        header is Some ==> request_key(header, body) == header,
        header is None ==> request_key(header, body) == opt_text(body.idempotency_key),
{
}

/// An answer is repeated only for the very same request; another request under
/// the same key conflicts, and so does an answer that cannot be read.
pub proof fn only_the_same_request_is_answered_again(
    c: CachedReply,
    digest: Seq<char>,
    encryption_key: Seq<char>,
    reply: SettleReply,
)
    requires
        repeated_as(c, digest, encryption_key, reply),
    ensures
        reply is Repeated <==> c.request_hash@ == digest && decrypted(
            c.response@,
            encryption_key,
        ) is Ok,
        !(reply is Repeated) ==> reply == SettleReply::Problem(V2Problem::IdempotencyConflict),
        reply matches SettleReply::Repeated(s) ==> decrypted(c.response@, encryption_key) == Ok::<
            Seq<char>,
            CryptoError,
        >(s@),
{
}

/// What is not paid is answered without a transaction, an amount or a session,
/// and with the reason.
pub proof fn unpaid_answer_grants_nothing(
    resp: SettleResponseV2,
    network: Seq<char>,
    finding: Finding,
)
    requires
        declines(&resp, network, finding),
        !(finding is Paid),
    ensures
        !resp.success,
        resp.transaction@.len() == 0,
        resp.amount is None,
        resp.session is None,
        resp.error_reason is Some,
        resp.network@ == network,
        finding is Insufficient ==> resp.error_reason->0@ == "insufficient_funds"@,
        finding is NotConfirmed ==> resp.error_reason->0@ == "payment_not_confirmed"@,
{
}

/// Keeping an answer replaces the one that was kept under the same key for the
/// same merchant, and leaves every other.
pub proof fn other_answers_are_kept(
    replies: Seq<CachedReply>,
    merchant_id: Seq<char>,
    key: Seq<char>,
    i: int,
)
    requires
        0 <= i < replies.len(),
    ensures
        ({
            let kept = without_reply(replies, merchant_id, key);
            let own = replies[i].merchant_id@ == merchant_id && replies[i].idempotency_key@ == key;
            &&& kept.len() <= replies.len()
            &&& !own ==> kept.contains(replies[i])
            &&& forall|k: int|
                0 <= k < kept.len() ==> !((#[trigger] kept[k]).merchant_id@ == merchant_id
                    && kept[k].idempotency_key@ == key) && replies.contains(kept[k])
        }),
    decreases replies.len(),
{
    let rest = replies.drop_last();
    let kept = without_reply(replies, merchant_id, key);
    let before = without_reply(rest, merchant_id, key);
    assert(replies.last() == replies[replies.len() - 1]);
    assert(forall|k: int| 0 <= k < rest.len() ==> rest[k] == #[trigger] replies[k]);
    if rest.len() > 0 {
        other_answers_are_kept(
            rest,
            merchant_id,
            key,
            if i < rest.len() {
                i
            } else {
                0
            },
        );
    } else {
        assert(before.len() == 0);
    }
    assert forall|k: int| 0 <= k < before.len() implies replies.contains(#[trigger] before[k]) by {
        assert(rest.contains(before[k]));
        let j = choose|j: int| 0 <= j < rest.len() && rest[j] == before[k];
        assert(replies[j] == before[k]);
    }
    if !is_reply_to(replies.last(), merchant_id, key) {
        assert(kept =~= before.push(replies.last()));
        assert(kept[kept.len() - 1] == replies.last());
        assert(forall|k: int| 0 <= k < before.len() ==> #[trigger] kept[k] == before[k]);
        if i < rest.len() && before.contains(replies[i]) {
            let j = choose|j: int| 0 <= j < before.len() && before[j] == replies[i];
            assert(kept[j] == replies[i]);
        }
    }
}

/// A session has to cost something, and can be opened only under a new name with
/// a new token; where none is asked for, or none is funded, nothing can fail.
pub proof fn free_session_is_refused(
    book: SettlementBook,
    opening: &Opening,
    cfg: SettleSessionConfig,
    total: u64,
    price: u64,
)
    ensures
        ({
            let e = book.funding_error(opening, Some(&cfg), total, price);
            let cost = if cfg.cost_per_request is Some {
                cfg.cost_per_request->0
            } else {
                1_000
            };
            let funded = funding(Some(&cfg), total, price) is Some;
            let taken = book.ledger.has_id(opening.id@) || book.ledger.has_token(
                opening.bearer_token@,
            );
            &&& cost <= 0 <==> e == Some(CommitError::InvalidCost)
            &&& cost > 0 && funded && taken <==> e == Some(
                CommitError::Session(SessionError::IdentifierTaken),
            )
            &&& cost > 0 && !(funded && taken) <==> e is None
        }),
        book.funding_error(opening, None, total, price) is None,
{
}

/// A session is asked for in the body, with the address to refund to.
pub proof fn session_is_asked_for_in_the_body(body: &SettleRequestV2, cfg: SettleSessionConfig)
    ensures
        body.session is None ==> session_of(body) is None,
        body.session == Some(cfg) ==> session_of(body) == Some(&cfg),
        refund_of(Some(&cfg)) == opt_text(cfg.refund_address),
        refund_of(None) is None,
{
}

/// What was committed is what is answered.
pub proof fn answer_is_what_was_committed(reply: SettleReply)
    ensures
        reply matches SettleReply::Settled(resp) ==> reply_result(reply) == Ok::<
            Option<SettleResponseV2>,
            CommitError,
        >(Some(resp)),
        reply matches SettleReply::Failed(e) ==> reply_result(reply) == Err::<
            Option<SettleResponseV2>,
            CommitError,
        >(e),
        !(reply is Settled) && !(reply is Failed) ==> reply_result(reply) == Ok::<
            Option<SettleResponseV2>,
            CommitError,
        >(None),
{
}

} // verus!
