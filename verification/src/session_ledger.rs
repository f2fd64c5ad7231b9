//! The ledger behind prepaid sessions: sessions, their charges, deposit
//! requests, and the record of payments that were consumed once and for all.

use vstd::prelude::*;

use crate::addresses::{derive_invoice_address, derived_address, DerivedAddress};
use crate::clock::{timestamp, timestamp_text};
use crate::merchants::next_diversifier_index;
use crate::scanner::decrypt::KeyError;
use crate::sessions::{
    check_charge, is_fundable, is_valid_charge, new_session, opened_as, Opening, Session,
    SessionError, SessionRequest, SessionSummary, DEFAULT_COST_PER_REQUEST,
};
use crate::text::{
    ascii_lowercase, ascii_lowercased, ascii_lowercased_idempotent, lex_less, opt_str, text_eq,
    text_less,
};

verus! {

/// A payment that can never be accepted again. It holds neither a merchant nor
/// a credential.
pub struct Consumption {
    pub txid: String,
    pub purpose: String,
}

/// A charge against a session.
pub struct Charge {
    pub session_id: String,
    pub request_id: String,
    pub resource: String,
    pub amount: i64,
}

/// A deposit request with the address that was handed out for it.
pub struct RequestRecord {
    pub id: String,
    pub merchant_id: String,
    pub deposit_address: String,
    pub diversifier_index: u32,
    pub status: String,
    pub expires_at: String,
}

/// Whether `after` is a request once a session was opened on it.
pub open spec fn used_request(before: &RequestRecord, after: &RequestRecord) -> bool {
    after.status@ == "used"@ && *after == (RequestRecord { status: after.status, ..*before })
}

impl RequestRecord {
    /// Whether a deposit may still be made on the request.
    pub open spec fn is_pending(&self, now: Seq<char>) -> bool {
        self.status@ == "pending"@ && !lex_less(self.expires_at@, now)
    }

    fn pending(&self, now: &str) -> (r: bool)
        ensures
            r == self.is_pending(now@),
    {
        text_eq(self.status.as_str(), "pending") && !text_less(self.expires_at.as_str(), now)
    }

    fn used(&self) -> (r: RequestRecord)
        ensures
            r.status@ == "used"@,
            r == (RequestRecord { status: r.status, ..*self }),
    {
        RequestRecord {
            id: self.id.clone(),
            merchant_id: self.merchant_id.clone(),
            deposit_address: self.deposit_address.clone(),
            diversifier_index: self.diversifier_index,
            status: "used".to_string(),
            expires_at: self.expires_at.clone(),
        }
    }
}

/// Why no deposit request was added.
#[derive(Debug, Clone, Copy, PartialEq, Eq, Structural)]
pub enum RequestError {
    Key(KeyError),
    IdentifierTaken,
}

/// The sum of the charges against a session.
pub open spec fn charges_total(charges: Seq<Charge>, session_id: Seq<char>) -> int
    decreases charges.len(),
{
    if charges.len() == 0 {
        0
    } else {
        charges_total(charges.drop_last(), session_id) + if charges.last().session_id@
            == session_id {
            charges.last().amount as int
        } else {
            0
        }
    }
}

/// The number of the charges against a session.
pub open spec fn charges_count(charges: Seq<Charge>, session_id: Seq<char>) -> int
    decreases charges.len(),
{
    if charges.len() == 0 {
        0
    } else {
        charges_count(charges.drop_last(), session_id) + if charges.last().session_id@
            == session_id {
            1int
        } else {
            0
        }
    }
}

proof fn no_charges(charges: Seq<Charge>, session_id: Seq<char>)
    requires
        forall|i: int| 0 <= i < charges.len() ==> charges[i].session_id@ != session_id,
    ensures
        charges_total(charges, session_id) == 0,
        charges_count(charges, session_id) == 0,
    decreases charges.len(),
{
    if charges.len() > 0 {
        no_charges(charges.drop_last(), session_id);
    }
}

pub struct SessionLedger {
    pub sessions: Vec<Session>,
    pub charges: Vec<Charge>,
    pub requests: Vec<RequestRecord>,
    pub consumptions: Vec<Consumption>,
}

impl SessionLedger {
    /// Whether a payment was consumed; transaction identifiers are compared in
    /// lower case.
    pub open spec fn is_consumed(&self, txid: Seq<char>) -> bool {
        exists|i: int|
            0 <= i < self.consumptions@.len() && #[trigger] self.consumptions@[i].txid@
                == ascii_lowercased(txid)
    }

    /// Whether a session was charged for a request identifier.
    pub open spec fn is_charged(&self, session_id: Seq<char>, request_id: Seq<char>) -> bool {
        exists|i: int|
            0 <= i < self.charges@.len() && (#[trigger] self.charges@[i]).session_id@ == session_id
                && self.charges@[i].request_id@ == request_id
    }

    /// Whether a session or a charge carries the identifier.
    pub open spec fn has_id(&self, id: Seq<char>) -> bool {
        ||| exists|i: int| 0 <= i < self.sessions@.len() && #[trigger] self.sessions@[i].id@ == id
        ||| exists|i: int|
            0 <= i < self.charges@.len() && #[trigger] self.charges@[i].session_id@ == id
    }

    pub open spec fn has_token(&self, token: Seq<char>) -> bool {
        exists|i: int|
            0 <= i < self.sessions@.len() && #[trigger] self.sessions@[i].bearer_token@ == token
    }

    /// Whether a deposit may be made on a request of a merchant.
    pub open spec fn request_available(
        &self,
        i: int,
        request_id: Seq<char>,
        merchant_id: Seq<char>,
        now: Seq<char>,
    ) -> bool {
        &&& 0 <= i < self.requests@.len()
        &&& self.requests@[i].id@ == request_id
        &&& self.requests@[i].merchant_id@ == merchant_id
        &&& self.requests@[i].is_pending(now)
    }

    /// What holds of the ledger at all times: identifiers, tokens, consumed
    /// payments and charged requests are unique, and of each session the
    /// recorded charges are exactly what its balance is short of.
    pub open spec fn wf(&self) -> bool {
        &&& forall|i: int|
            0 <= i < self.sessions@.len() ==> {
                let s = #[trigger] self.sessions@[i];
                &&& s.wf()
                &&& s.spent() == charges_total(self.charges@, s.id@)
                &&& s.requests_made == charges_count(self.charges@, s.id@)
            }
        &&& forall|i: int, j: int|
            0 <= i < j < self.sessions@.len() ==> (#[trigger] self.sessions@[i]).id@ != (
            #[trigger] self.sessions@[j]).id@ && self.sessions@[i].bearer_token@
                != self.sessions@[j].bearer_token@
        &&& forall|i: int| 0 <= i < self.charges@.len() ==> (#[trigger] self.charges@[i]).amount > 0
        &&& forall|i: int, j: int|
            0 <= i < j < self.charges@.len() ==> (#[trigger] self.charges@[i]).session_id@ != (
            #[trigger] self.charges@[j]).session_id@ || self.charges@[i].request_id@
                != self.charges@[j].request_id@
        &&& forall|i: int, j: int|
            0 <= i < j < self.consumptions@.len() ==> (#[trigger] self.consumptions@[i]).txid@ != (
            #[trigger] self.consumptions@[j]).txid@
        &&& forall|i: int, j: int|
            0 <= i < j < self.requests@.len() ==> (#[trigger] self.requests@[i]).id@ != (
            #[trigger] self.requests@[j]).id@
    }

    /// Whether the second ledger has one more consumed payment than the first:
    /// this one, for this purpose.
    pub open spec fn consumed_into(
        &self,
        after: &SessionLedger,
        txid: Seq<char>,
        purpose: Seq<char>,
    ) -> bool {
        &&& after.consumptions@.len() == self.consumptions@.len() + 1
        &&& after.consumptions@.drop_last() == self.consumptions@
        &&& after.consumptions@.last().txid@ == ascii_lowercased(txid)
        &&& after.consumptions@.last().purpose@ == purpose
    }

    /// Whether whatever the first ledger knew as consumed the second one does.
    pub open spec fn remembers(&self, earlier: &SessionLedger) -> bool {
        forall|txid: Seq<char>| earlier.is_consumed(txid) ==> #[trigger] self.is_consumed(txid)
    }

    /// An empty ledger.
    pub fn new() -> (r: SessionLedger)
        ensures
            r.wf(),
            r.sessions@.len() == 0,
            r.charges@.len() == 0,
            r.requests@.len() == 0,
            r.consumptions@.len() == 0,
    {
        SessionLedger {
            sessions: Vec::new(),
            charges: Vec::new(),
            requests: Vec::new(),
            consumptions: Vec::new(),
        }
    }

    /// Whether a deposit was already used.
    pub fn txid_already_used(&self, txid: &str) -> (r: bool)
        ensures
            r == self.is_consumed(txid@),
    {
        let low: String = ascii_lowercase(txid);
        let mut i: usize = 0;
        while i < self.consumptions.len()
            invariant
                i <= self.consumptions@.len(),
                low@ == ascii_lowercased(txid@),
                forall|k: int|
                    0 <= k < i ==> #[trigger] self.consumptions@[k].txid@ != ascii_lowercased(
                        txid@,
                    ),
            decreases self.consumptions@.len() - i,
        {
            if text_eq(self.consumptions[i].txid.as_str(), low.as_str()) {
                return true;
            }
            i = i + 1;
        }
        false
    }

    /// Consumes a payment: records it, unless it was recorded before.
    pub fn consume_payment(&mut self, txid: &str, purpose: &str) -> (r: bool)
        ensures
            r == !old(self).is_consumed(txid@),
            final(self).is_consumed(txid@),
            final(self).remembers(old(self)),
            old(self).wf() ==> final(self).wf(),
            final(self).sessions == old(self).sessions,
            final(self).charges == old(self).charges,
            final(self).requests == old(self).requests,
            !r ==> *final(self) == *old(self),
            r ==> old(self).consumed_into(final(self), txid@, purpose@),
    {
        if self.txid_already_used(txid) {
            return false;
        }
        let low: String = ascii_lowercase(txid);
        let ghost before = *self;
        self.consumptions.push(Consumption { txid: low, purpose: purpose.to_string() });
        proof {
            assert(self.consumptions@.drop_last() =~= before.consumptions@);
            let n = before.consumptions@.len() as int;
            assert(self.consumptions@[n].txid@ == ascii_lowercased(txid@));
            assert forall|t: Seq<char>| before.is_consumed(t) implies #[trigger] self.is_consumed(
                t,
            ) by {
                let k = choose|k: int|
                    0 <= k < before.consumptions@.len() && #[trigger] before.consumptions@[k].txid@
                        == ascii_lowercased(t);
                assert(self.consumptions@[k].txid@ == ascii_lowercased(t));
            }
            if before.wf() {
                assert forall|i: int, j: int|
                    0 <= i < j < self.consumptions@.len() implies (
                #[trigger] self.consumptions@[i]).txid@ != (#[trigger] self.consumptions@[j]).txid@ by {
                    if j == n {
                        assert(before.consumptions@[i].txid@ != ascii_lowercased(txid@));
                    } else {
                        assert(before.consumptions@[i].txid@ != before.consumptions@[j].txid@);
                    }
                }
            }
        }
        true
    }

    fn id_taken(&self, id: &str) -> (r: bool)
        ensures
            r == self.has_id(id@),
    {
        let mut i: usize = 0;
        while i < self.sessions.len()
            invariant
                i <= self.sessions@.len(),
                forall|k: int| 0 <= k < i ==> #[trigger] self.sessions@[k].id@ != id@,
            decreases self.sessions@.len() - i,
        {
            if text_eq(self.sessions[i].id.as_str(), id) {
                return true;
            }
            i = i + 1;
        }
        let mut j: usize = 0;
        while j < self.charges.len()
            invariant
                j <= self.charges@.len(),
                forall|k: int| 0 <= k < j ==> #[trigger] self.charges@[k].session_id@ != id@,
            decreases self.charges@.len() - j,
        {
            if text_eq(self.charges[j].session_id.as_str(), id) {
                return true;
            }
            j = j + 1;
        }
        false
    }

    fn find_token(&self, token: &str) -> (r: Option<usize>)
        ensures
            match r {
                Some(i) => i < self.sessions@.len() && self.sessions@[i as int].bearer_token@
                    == token@,
                None => !self.has_token(token@),
            },
    {
        let mut i: usize = 0;
        while i < self.sessions.len()
            invariant
                i <= self.sessions@.len(),
                forall|k: int| 0 <= k < i ==> #[trigger] self.sessions@[k].bearer_token@ != token@,
            decreases self.sessions@.len() - i,
        {
            if text_eq(self.sessions[i].bearer_token.as_str(), token) {
                return Some(i);
            }
            i = i + 1;
        }
        None
    }

    fn find_id(&self, id: &str) -> (r: Option<usize>)
        ensures
            match r {
                Some(i) => i < self.sessions@.len() && self.sessions@[i as int].id@ == id@,
                None => forall|k: int|
                    0 <= k < self.sessions@.len() ==> #[trigger] self.sessions@[k].id@ != id@,
            },
    {
        let mut i: usize = 0;
        while i < self.sessions.len()
            invariant
                i <= self.sessions@.len(),
                forall|k: int| 0 <= k < i ==> #[trigger] self.sessions@[k].id@ != id@,
            decreases self.sessions@.len() - i,
        {
            if text_eq(self.sessions[i].id.as_str(), id) {
                return Some(i);
            }
            i = i + 1;
        }
        None
    }

    fn charge_exists(&self, session_id: &str, request_id: &str) -> (r: bool)
        ensures
            r == self.is_charged(session_id@, request_id@),
    {
        let mut i: usize = 0;
        while i < self.charges.len()
            invariant
                i <= self.charges@.len(),
                forall|k: int|
                    0 <= k < i ==> (#[trigger] self.charges@[k]).session_id@ != session_id@
                        || self.charges@[k].request_id@ != request_id@,
            decreases self.charges@.len() - i,
        {
            if text_eq(self.charges[i].session_id.as_str(), session_id) && text_eq(
                self.charges[i].request_id.as_str(),
                request_id,
            ) {
                return true;
            }
            i = i + 1;
        }
        false
    }

    fn find_request(&self, request_id: &str, merchant_id: &str, now: &str) -> (r: Option<usize>)
        ensures
            match r {
                Some(i) => self.request_available(i as int, request_id@, merchant_id@, now@),
                None => forall|k: int|
                    !#[trigger] self.request_available(k, request_id@, merchant_id@, now@),
            },
    {
        let mut i: usize = 0;
        while i < self.requests.len()
            invariant
                i <= self.requests@.len(),
                forall|k: int|
                    0 <= k < i ==> !#[trigger] self.request_available(
                        k,
                        request_id@,
                        merchant_id@,
                        now@,
                    ),
            decreases self.requests@.len() - i,
        {
            if text_eq(self.requests[i].id.as_str(), request_id) && text_eq(
                self.requests[i].merchant_id.as_str(),
                merchant_id,
            ) && self.requests[i].pending(now) {
                return Some(i);
            }
            i = i + 1;
        }
        None
    }

    /// The error that opening a session meets, if any.
    pub open spec fn opening_error(
        &self,
        opening: &Opening,
        deposit_txid: Seq<char>,
        balance: i64,
        cost: Option<i64>,
    ) -> Option<SessionError> {
        if self.is_consumed(deposit_txid) {
            Some(SessionError::AlreadyConsumed)
        } else if !is_fundable(balance, cost) {
            Some(SessionError::InvalidBalanceOrPrice)
        } else if self.has_id(opening.id@) || self.has_token(opening.bearer_token@) {
            Some(SessionError::IdentifierTaken)
        } else {
            None
        }
    }

    /// The error that adding a session meets, if any.
    pub open spec fn insertion_error(
        &self,
        opening: &Opening,
        balance: i64,
        cost: Option<i64>,
    ) -> Option<SessionError> {
        if !is_fundable(balance, cost) {
            Some(SessionError::InvalidBalanceOrPrice)
        } else if self.has_id(opening.id@) || self.has_token(opening.bearer_token@) {
            Some(SessionError::IdentifierTaken)
        } else {
            None
        }
    }

    /// The error that adding a session meets, if any.
    pub(crate) fn insertion_problem(
        &self,
        opening: &Opening,
        balance: i64,
        cost: Option<i64>,
    ) -> (r: Option<SessionError>)
        ensures
            r == self.insertion_error(opening, balance, cost),
    {
        let price: i64 = match cost {
            Some(c) => c,
            None => DEFAULT_COST_PER_REQUEST,
        };
        if !(price > 0 && balance >= price) {
            return Some(SessionError::InvalidBalanceOrPrice);
        }
        let token_taken: bool = match self.find_token(opening.bearer_token.as_str()) {
            Some(_) => true,
            None => false,
        };
        if self.id_taken(opening.id.as_str()) || token_taken {
            Some(SessionError::IdentifierTaken)
        } else {
            None
        }
    }

    /// Adds a session on a deposit that was consumed before.
    pub fn insert_session(
        &mut self,
        opening: &Opening,
        merchant_id: &str,
        deposit_txid: &str,
        balance: i64,
        refund_address: Option<&str>,
        cost: Option<i64>,
    ) -> (r: Result<Session, SessionError>)
        ensures
            old(self).wf() ==> final(self).wf(),
            final(self).charges == old(self).charges,
            final(self).requests == old(self).requests,
            final(self).consumptions == old(self).consumptions,
            match r {
                Ok(s) => {
                    &&& old(self).insertion_error(opening, balance, cost) is None
                    &&& opened_as(
                        &s,
                        opening,
                        merchant_id@,
                        deposit_txid@,
                        balance,
                        opt_str(refund_address),
                        cost,
                    )
                    &&& final(self).sessions@ == old(self).sessions@.push(s)
                },
                Err(e) => {
                    &&& old(self).insertion_error(opening, balance, cost) == Some(e)
                    &&& *final(self) == *old(self)
                },
            },
    {
        let session: Session = match new_session(
            opening,
            merchant_id,
            deposit_txid,
            balance,
            refund_address,
            cost,
        ) {
            Ok(s) => s,
            Err(e) => {
                return Err(e);
            },
        };
        match self.insertion_problem(opening, balance, cost) {
            Some(e) => {
                return Err(e);
            },
            None => {},
        }
        let ghost before = *self;
        let kept: Session = session.copy();
        self.sessions.push(kept);
        proof {
            no_charges(before.charges@, opening.id@);
            if before.wf() {
                let n = before.sessions@.len() as int;
                assert forall|i: int, j: int|
                    0 <= i < j < self.sessions@.len() implies (#[trigger] self.sessions@[i]).id@
                    != (#[trigger] self.sessions@[j]).id@ && self.sessions@[i].bearer_token@
                    != self.sessions@[j].bearer_token@ by {
                    assert(self.sessions@[i] == before.sessions@[i]);
                    if j < n {
                        assert(self.sessions@[j] == before.sessions@[j]);
                    }
                }
                assert forall|i: int| 0 <= i < self.sessions@.len() implies ({
                    let s = #[trigger] self.sessions@[i];
                    &&& s.wf()
                    &&& s.spent() == charges_total(self.charges@, s.id@)
                    &&& s.requests_made == charges_count(self.charges@, s.id@)
                }) by {
                    if i < n {
                        assert(self.sessions@[i] == before.sessions@[i]);
                    }
                }
            }
        }
        Ok(session)
    }

    /// Opens a session on a deposit and consumes the deposit, both or neither.
    pub fn create_session_with_cost(
        &mut self,
        opening: &Opening,
        merchant_id: &str,
        deposit_txid: &str,
        balance: i64,
        refund_address: Option<&str>,
        cost: Option<i64>,
    ) -> (r: Result<Session, SessionError>)
        ensures
            old(self).wf() ==> final(self).wf(),
            final(self).remembers(old(self)),
            final(self).charges == old(self).charges,
            final(self).requests == old(self).requests,
            match r {
                Ok(s) => {
                    &&& old(self).opening_error(opening, deposit_txid@, balance, cost) is None
                    &&& opened_as(
                        &s,
                        opening,
                        merchant_id@,
                        deposit_txid@,
                        balance,
                        opt_str(refund_address),
                        cost,
                    )
                    &&& final(self).sessions@ == old(self).sessions@.push(s)
                    &&& final(self).is_consumed(deposit_txid@)
                    &&& old(self).consumed_into(final(self), deposit_txid@, "session"@)
                },
                Err(e) => {
                    &&& old(self).opening_error(opening, deposit_txid@, balance, cost) == Some(e)
                    &&& *final(self) == *old(self)
                },
            },
    {
        if self.txid_already_used(deposit_txid) {
            return Err(SessionError::AlreadyConsumed);
        }
        let ghost before = *self;
        let session: Session = match self.insert_session(
            opening,
            merchant_id,
            deposit_txid,
            balance,
            refund_address,
            cost,
        ) {
            Ok(s) => s,
            Err(e) => {
                return Err(e);
            },
        };
        let ghost middle = *self;
        proof {
            same_consumptions(before, middle);
        }
        let _: bool = self.consume_payment(deposit_txid, "session");
        Ok(session)
    }

    /// Opens a session at the default price.
    pub fn create_session(
        &mut self,
        opening: &Opening,
        merchant_id: &str,
        deposit_txid: &str,
        balance: i64,
        refund_address: Option<&str>,
    ) -> (r: Result<Session, SessionError>)
        ensures
            old(self).wf() ==> final(self).wf(),
            final(self).remembers(old(self)),
            final(self).charges == old(self).charges,
            final(self).requests == old(self).requests,
            match r {
                Ok(s) => {
                    &&& old(self).opening_error(opening, deposit_txid@, balance, None) is None
                    &&& opened_as(
                        &s,
                        opening,
                        merchant_id@,
                        deposit_txid@,
                        balance,
                        opt_str(refund_address),
                        None,
                    )
                    &&& final(self).sessions@ == old(self).sessions@.push(s)
                    &&& final(self).is_consumed(deposit_txid@)
                    &&& old(self).consumed_into(final(self), deposit_txid@, "session"@)
                },
                Err(e) => {
                    &&& old(self).opening_error(opening, deposit_txid@, balance, None) == Some(e)
                    &&& *final(self) == *old(self)
                },
            },
    {
        self.create_session_with_cost(
            opening,
            merchant_id,
            deposit_txid,
            balance,
            refund_address,
            None,
        )
    }

    /// Opens a session on a prepared deposit address. The request, the deposit
    /// and the session change together or not at all, and a request serves one
    /// session only.
    pub fn create_prepared_session(
        &mut self,
        opening: &Opening,
        merchant_id: &str,
        request_id: &str,
        deposit_txid: &str,
        balance: i64,
        refund_address: Option<&str>,
    ) -> (r: Result<Session, SessionError>)
        requires
            old(self).wf(),
        ensures
            final(self).wf(),
            final(self).remembers(old(self)),
            final(self).charges == old(self).charges,
            match r {
                Ok(s) => {
                    &&& exists|i: int|
                        #[trigger] old(self).request_available(
                            i,
                            request_id@,
                            merchant_id@,
                            opening.now@,
                        ) && used_request(&old(self).requests@[i], &final(self).requests@[i])
                            && final(self).requests@ == old(self).requests@.update(
                            i,
                            final(self).requests@[i],
                        )
                    &&& old(self).opening_error(opening, deposit_txid@, balance, None) is None
                    &&& opened_as(
                        &s,
                        opening,
                        merchant_id@,
                        deposit_txid@,
                        balance,
                        opt_str(refund_address),
                        None,
                    )
                    &&& final(self).sessions@ == old(self).sessions@.push(s)
                    &&& final(self).is_consumed(deposit_txid@)
                    &&& old(self).consumed_into(final(self), deposit_txid@, "session"@)
                },
                Err(e) => {
                    &&& *final(self) == *old(self)
                    &&& Some(e) == if forall|i: int|
                        !#[trigger] old(self).request_available(
                            i,
                            request_id@,
                            merchant_id@,
                            opening.now@,
                        ) {
                        Some(SessionError::RequestUnavailable)
                    } else if old(self).is_consumed(deposit_txid@) {
                        Some(SessionError::DepositConsumed)
                    } else {
                        old(self).opening_error(opening, deposit_txid@, balance, None)
                    }
                },
            },
    {
        match self.find_request(request_id, merchant_id, opening.now.as_str()) {
            None => Err(SessionError::RequestUnavailable),
            Some(i) => {
                let ghost before = *self;
                assert(before.request_available(i as int, request_id@, merchant_id@, opening.now@));
                match self.create_session(
                    opening,
                    merchant_id,
                    deposit_txid,
                    balance,
                    refund_address,
                ) {
                    Err(e) => match e {
                        SessionError::AlreadyConsumed => Err(SessionError::DepositConsumed),
                        _ => Err(e),
                    },
                    Ok(s) => {
                        let ghost middle = *self;
                        let used: RequestRecord = self.requests[i].used();
                        self.requests.set(i, used);
                        proof {
                            assert forall|t: Seq<char>|
                                before.is_consumed(t) implies #[trigger] self.is_consumed(t) by {
                                assert(middle.is_consumed(t));
                                let k = choose|k: int|
                                    0 <= k < middle.consumptions@.len()
                                        && #[trigger] middle.consumptions@[k].txid@
                                        == ascii_lowercased(t);
                                assert(self.consumptions@[k].txid@ == ascii_lowercased(t));
                            }
                            let k = choose|k: int|
                                0 <= k < middle.consumptions@.len()
                                    && #[trigger] middle.consumptions@[k].txid@
                                    == ascii_lowercased(deposit_txid@);
                            assert(self.consumptions@[k].txid@ == ascii_lowercased(deposit_txid@));
                            assert forall|a: int, b: int|
                                0 <= a < b < self.requests@.len() implies (
                            #[trigger] self.requests@[a]).id@ != (#[trigger] self.requests@[b]).id@ by {
                                assert(before.requests@[a].id@ != before.requests@[b].id@);
                            }
                        }
                        Ok(s)
                    },
                }
            },
        }
    }

    /// The place of the session that a charge would debit.
    pub open spec fn chargeable(
        &self,
        i: int,
        merchant_id: Seq<char>,
        token: Seq<char>,
        amount: int,
        request_id: Seq<char>,
        now: Seq<char>,
    ) -> bool {
        &&& 0 <= i < self.sessions@.len()
        &&& self.sessions@[i].bearer_token@ == token
        &&& self.sessions@[i].can_pay(merchant_id, amount, now)
        &&& !self.is_charged(self.sessions@[i].id@, request_id)
    }

    /// Charges a session of the merchant at the given price. A request
    /// identifier that was charged before neither debits again nor authorises
    /// another fulfilment.
    pub fn charge(
        &mut self,
        merchant_id: &str,
        token: &str,
        amount: i64,
        resource: &str,
        request_id: &str,
        now: &str,
    ) -> (r: Result<Option<Session>, SessionError>)
        requires
            old(self).wf(),
        ensures
            final(self).wf(),
            final(self).requests == old(self).requests,
            final(self).consumptions == old(self).consumptions,
            match r {
                Err(e) => {
                    &&& e == SessionError::InvalidCharge
                    &&& !is_valid_charge(amount, resource, request_id)
                    &&& *final(self) == *old(self)
                },
                Ok(None) => {
                    &&& is_valid_charge(amount, resource, request_id)
                    &&& forall|i: int|
                        !#[trigger] old(self).chargeable(
                            i,
                            merchant_id@,
                            token@,
                            amount as int,
                            request_id@,
                            now@,
                        )
                    &&& *final(self) == *old(self)
                },
                Ok(Some(s)) => {
                    &&& is_valid_charge(amount, resource, request_id)
                    &&& exists|i: int|
                        #[trigger] old(self).chargeable(
                            i,
                            merchant_id@,
                            token@,
                            amount as int,
                            request_id@,
                            now@,
                        ) && s == old(self).sessions@[i].charged(amount) && final(self).sessions@
                            == old(self).sessions@.update(i, s)
                    &&& final(self).charges@.len() == old(self).charges@.len() + 1
                    &&& final(self).charges@.drop_last() == old(self).charges@
                    &&& final(self).charges@.last().session_id@ == s.id@
                    &&& final(self).charges@.last().request_id@ == request_id@
                    &&& final(self).charges@.last().resource@ == resource@
                    &&& final(self).charges@.last().amount == amount
                },
            },
    {
        if !check_charge(amount, resource, request_id) {
            return Err(SessionError::InvalidCharge);
        }
        let i: usize = match self.find_token(token) {
            Some(i) => i,
            None => {
                return Ok(None);
            },
        };
        let ghost before = *self;
        assert forall|k: int|
            #[trigger] before.chargeable(
                k,
                merchant_id@,
                token@,
                amount as int,
                request_id@,
                now@,
            ) implies k == i by {
            if k < i {
                assert(before.sessions@[k].bearer_token@ != before.sessions@[i as int].bearer_token@);
            }
            if i < k {
                assert(before.sessions@[i as int].bearer_token@ != before.sessions@[k].bearer_token@);
            }
        }
        assert(before.sessions@[i as int].wf());
        let session: Session = match self.sessions[i].debit(merchant_id, amount, now) {
            Some(s) => s,
            None => {
                return Ok(None);
            },
        };
        if self.charge_exists(session.id.as_str(), request_id) {
            return Ok(None);
        }
        let kept: Session = session.copy();
        self.sessions.set(i, kept);
        let charge: Charge = Charge {
            session_id: session.id.clone(),
            request_id: request_id.to_string(),
            resource: resource.to_string(),
            amount,
        };
        self.charges.push(charge);
        proof {
            assert(before.chargeable(
                i as int,
                merchant_id@,
                token@,
                amount as int,
                request_id@,
                now@,
            ));
            assert(self.charges@.drop_last() =~= before.charges@);
            let n = before.charges@.len() as int;
            assert forall|a: int, b: int|
                0 <= a < b < self.charges@.len() implies (#[trigger] self.charges@[a]).session_id@
                != (#[trigger] self.charges@[b]).session_id@ || self.charges@[a].request_id@
                != self.charges@[b].request_id@ by {
                assert(self.charges@[a] == before.charges@[a]);
                if b < n {
                    assert(self.charges@[b] == before.charges@[b]);
                }
            }
            assert forall|k: int| 0 <= k < self.sessions@.len() implies ({
                let s = #[trigger] self.sessions@[k];
                &&& s.wf()
                &&& s.spent() == charges_total(self.charges@, s.id@)
                &&& s.requests_made == charges_count(self.charges@, s.id@)
            }) by {
                assert(before.sessions@[k].wf());
                if k < i {
                    assert(before.sessions@[k].id@ != before.sessions@[i as int].id@);
                }
                if i < k {
                    assert(before.sessions@[i as int].id@ != before.sessions@[k].id@);
                }
            }
            assert forall|a: int, b: int|
                0 <= a < b < self.sessions@.len() implies (#[trigger] self.sessions@[a]).id@ != (
            #[trigger] self.sessions@[b]).id@ && self.sessions@[a].bearer_token@
                != self.sessions@[b].bearer_token@ by {
                assert(before.sessions@[a].id@ != before.sessions@[b].id@);
            }
        }
        Ok(Some(session))
    }

    /// Closes a session and gives its summary, or nothing where there is none.
    pub fn close_session(&mut self, session_id: &str, now: &str) -> (r: Option<SessionSummary>)
        requires
            old(self).wf(),
        ensures
            final(self).wf(),
            final(self).charges == old(self).charges,
            final(self).requests == old(self).requests,
            final(self).consumptions == old(self).consumptions,
            match r {
                None => {
                    &&& *final(self) == *old(self)
                    &&& forall|i: int|
                        0 <= i < old(self).sessions@.len() ==> #[trigger] old(
                            self,
                        ).sessions@[i].id@ != session_id@
                },
                Some(summary) => exists|i: int|
                    0 <= i < old(self).sessions@.len() && (#[trigger] old(
                        self,
                    ).sessions@[i]).id@ == session_id@ && old(self).sessions@[i].closed_as(
                        &final(self).sessions@[i],
                        now@,
                    ) && final(self).sessions@ == old(self).sessions@.update(
                        i,
                        final(self).sessions@[i],
                    ) && final(self).sessions@[i].summarized_by(&summary),
            },
    {
        match self.find_id(session_id) {
            None => None,
            Some(i) => {
                let ghost before = *self;
                assert(before.sessions@[i as int].wf());
                let closed: Session = self.sessions[i].close(now);
                let summary: SessionSummary = closed.summary();
                self.sessions.set(i, closed);
                proof {
                    assert forall|k: int| 0 <= k < self.sessions@.len() implies ({
                        let s = #[trigger] self.sessions@[k];
                        &&& s.wf()
                        &&& s.spent() == charges_total(self.charges@, s.id@)
                        &&& s.requests_made == charges_count(self.charges@, s.id@)
                    }) by {
                        assert(before.sessions@[k].wf());
                    }
                    assert forall|a: int, b: int|
                        0 <= a < b < self.sessions@.len() implies (#[trigger] self.sessions@[a]).id@
                        != (#[trigger] self.sessions@[b]).id@ && self.sessions@[a].bearer_token@
                        != self.sessions@[b].bearer_token@ by {
                        assert(before.sessions@[a].id@ != before.sessions@[b].id@);
                    }
                }
                Some(summary)
            },
        }
    }

    /// The summary of a session, or nothing where there is none.
    pub fn get_summary(&self, session_id: &str) -> (r: Option<SessionSummary>)
        requires
            self.wf(),
        ensures
            match r {
                None => forall|i: int|
                    0 <= i < self.sessions@.len() ==> #[trigger] self.sessions@[i].id@
                        != session_id@,
                Some(summary) => exists|i: int|
                    0 <= i < self.sessions@.len() && (#[trigger] self.sessions@[i]).id@
                        == session_id@ && self.sessions@[i].summarized_by(&summary),
            },
    {
        match self.find_id(session_id) {
            None => None,
            Some(i) => {
                assert(self.sessions@[i as int].wf());
                Some(self.sessions[i].summary())
            },
        }
    }

    /// A copy of a session, or nothing where there is none.
    pub fn get_session(&self, session_id: &str) -> (r: Option<Session>)
        ensures
            match r {
                None => forall|i: int|
                    0 <= i < self.sessions@.len() ==> #[trigger] self.sessions@[i].id@
                        != session_id@,
                Some(s) => s.id@ == session_id@ && self.sessions@.contains(s),
            },
    {
        match self.find_id(session_id) {
            None => None,
            Some(i) => Some(self.sessions[i].copy()),
        }
    }

    /// A pending deposit request, or nothing where it is unknown, used or past
    /// its time.
    pub fn get_session_request(&self, request_id: &str, now: &str) -> (r: Option<SessionRequest>)
        ensures
            match r {
                None => forall|i: int|
                    0 <= i < self.requests@.len() ==> (#[trigger] self.requests@[i]).id@
                        != request_id@ || !self.requests@[i].is_pending(now@),
                Some(q) => exists|i: int|
                    0 <= i < self.requests@.len() && (#[trigger] self.requests@[i]).id@
                        == request_id@ && self.requests@[i].is_pending(now@) && q.id@
                        == request_id@ && q.merchant_id@ == self.requests@[i].merchant_id@
                        && q.deposit_address@ == self.requests@[i].deposit_address@
                        && q.diversifier_index == self.requests@[i].diversifier_index,
            },
    {
        let mut i: usize = 0;
        while i < self.requests.len()
            invariant
                i <= self.requests@.len(),
                forall|k: int|
                    0 <= k < i ==> (#[trigger] self.requests@[k]).id@ != request_id@
                        || !self.requests@[k].is_pending(now@),
            decreases self.requests@.len() - i,
        {
            if text_eq(self.requests[i].id.as_str(), request_id) && self.requests[i].pending(now) {
                let q: SessionRequest = SessionRequest {
                    id: self.requests[i].id.clone(),
                    merchant_id: self.requests[i].merchant_id.clone(),
                    deposit_address: self.requests[i].deposit_address.clone(),
                    diversifier_index: self.requests[i].diversifier_index,
                };
                return Some(q);
            }
            i = i + 1;
        }
        None
    }

    /// The session of a token, or nothing where there is none.
    pub fn get_session_by_token(&self, bearer_token: &str) -> (r: Option<Session>)
        ensures
            match r {
                None => !self.has_token(bearer_token@),
                Some(s) => s.bearer_token@ == bearer_token@ && self.sessions@.contains(s),
            },
    {
        match self.find_token(bearer_token) {
            None => None,
            Some(i) => {
                assert(self.sessions@.contains(self.sessions@[i as int]));
                Some(self.sessions[i].copy())
            },
        }
    }

    /// Whether a deposit request carries the identifier.
    pub open spec fn has_request(&self, id: Seq<char>) -> bool {
        exists|i: int| 0 <= i < self.requests@.len() && #[trigger] self.requests@[i].id@ == id
    }

    fn request_taken(&self, id: &str) -> (r: bool)
        ensures
            r == self.has_request(id@),
    {
        let mut i: usize = 0;
        while i < self.requests.len()
            invariant
                i <= self.requests@.len(),
                forall|k: int| 0 <= k < i ==> #[trigger] self.requests@[k].id@ != id@,
            decreases self.requests@.len() - i,
        {
            if text_eq(self.requests[i].id.as_str(), id) {
                return true;
            }
            i = i + 1;
        }
        false
    }

    /// Adds a deposit request with the address of a merchant at the next index,
    /// open for half an hour. The index is used up even where no address can be
    /// derived.
    pub fn create_session_request(
        &mut self,
        id: &str,
        next_index: &mut i64,
        merchant_id: &str,
        merchant_uivk: &str,
        now: i64,
    ) -> (r: Result<SessionRequest, RequestError>)
        requires
            0 <= *old(next_index) <= u32::MAX,
            0 <= now < 5_000_000_000_000,
        ensures
            *final(next_index) == *old(next_index) + 1,
            old(self).wf() ==> final(self).wf(),
            final(self).sessions == old(self).sessions,
            final(self).charges == old(self).charges,
            final(self).consumptions == old(self).consumptions,
            ({
                let index = *old(next_index) as u32;
                match r {
                    Ok(q) => {
                        &&& !old(self).has_request(id@)
                        &&& derived_address(merchant_uivk@, index) matches Ok(d)
                            && q.deposit_address@ == d.0
                        &&& q.id@ == id@
                        &&& q.merchant_id@ == merchant_id@
                        &&& q.diversifier_index == index
                        &&& final(self).requests@.len() == old(self).requests@.len() + 1
                        &&& final(self).requests@.drop_last() == old(self).requests@
                        &&& final(self).requests@.last() == (RequestRecord {
                            id: q.id,
                            merchant_id: q.merchant_id,
                            deposit_address: q.deposit_address,
                            diversifier_index: index,
                            ..final(self).requests@.last()
                        })
                        &&& final(self).requests@.last().status@ == "pending"@
                        &&& final(self).requests@.last().expires_at@ == timestamp_text(now + 1800)
                    },
                    Err(RequestError::Key(e)) => derived_address(merchant_uivk@, index) == Err::<
                        (Seq<char>, Seq<char>),
                        KeyError,
                    >(e) && *final(self) == *old(self),
                    Err(RequestError::IdentifierTaken) => derived_address(
                        merchant_uivk@,
                        index,
                    ) is Ok && old(self).has_request(id@) && *final(self) == *old(self),
                }
            }),
    {
        let index: u32 = next_diversifier_index(next_index);
        let derived: DerivedAddress = match derive_invoice_address(merchant_uivk, index) {
            Ok(d) => d,
            Err(e) => {
                return Err(RequestError::Key(e));
            },
        };
        if self.request_taken(id) {
            return Err(RequestError::IdentifierTaken);
        }
        let ghost before = *self;
        self.requests.push(
            RequestRecord {
                id: id.to_string(),
                merchant_id: merchant_id.to_string(),
                deposit_address: derived.ua_string.clone(),
                diversifier_index: index,
                status: "pending".to_string(),
                expires_at: timestamp(now + 1800),
            },
        );
        let last: usize = self.requests.len() - 1;
        let q: SessionRequest = SessionRequest {
            id: self.requests[last].id.clone(),
            merchant_id: self.requests[last].merchant_id.clone(),
            deposit_address: derived.ua_string,
            diversifier_index: index,
        };
        proof {
            assert(self.requests@.drop_last() =~= before.requests@);
            if before.wf() {
                assert forall|i: int, j: int|
                    0 <= i < j < self.requests@.len() implies (#[trigger] self.requests@[i]).id@
                    != (#[trigger] self.requests@[j]).id@ by {
                    assert(self.requests@[i] == before.requests@[i]);
                    if j < before.requests@.len() {
                        assert(self.requests@[j] == before.requests@[j]);
                    }
                }
            }
        }
        Ok(q)
    }

    /// Drops the sessions that expired, or that ended before the cutoff. The
    /// record of consumed payments stays.
    pub fn purge(&mut self, now: &str, cutoff: &str)
        requires
            old(self).wf(),
        ensures
            final(self).wf(),
            final(self).charges == old(self).charges,
            final(self).consumptions == old(self).consumptions,
            final(self).remembers(old(self)),
            final(self).sessions@ == old(self).sessions@.filter(
                |s: Session| !is_purgeable(s, now@, cutoff@),
            ),
            final(self).requests@ == old(self).requests@.filter(
                |q: RequestRecord| !lex_less(q.expires_at@, now@),
            ),
    {
        let ghost before = *self;
        let ghost keep = |s: Session| !is_purgeable(s, now@, cutoff@);
        let ghost keep_request = |q: RequestRecord| !lex_less(q.expires_at@, now@);
        let mut sessions: Vec<Session> = Vec::new();
        let mut i: usize = 0;
        assert(before.sessions@.take(0).filter(keep) =~= Seq::<Session>::empty()) by {
            reveal(Seq::filter);
        }
        while i < self.sessions.len()
            invariant
                i <= self.sessions@.len(),
                *self == before,
                before.wf(),
                keep == (|s: Session| !is_purgeable(s, now@, cutoff@)),
                sessions@ == before.sessions@.take(i as int).filter(keep),
            decreases self.sessions@.len() - i,
        {
            proof {
                reveal(Seq::filter);
                assert(before.sessions@.take(i + 1).drop_last() =~= before.sessions@.take(
                    i as int,
                ));
            }
            if !purgeable(&self.sessions[i], now, cutoff) {
                sessions.push(self.sessions[i].copy());
            }
            i = i + 1;
        }
        assert(before.sessions@.take(i as int) =~= before.sessions@);
        let mut requests: Vec<RequestRecord> = Vec::new();
        let mut j: usize = 0;
        assert(before.requests@.take(0).filter(keep_request) =~= Seq::<RequestRecord>::empty()) by {
            reveal(Seq::filter);
        }
        while j < self.requests.len()
            invariant
                j <= self.requests@.len(),
                *self == before,
                keep_request == (|q: RequestRecord| !lex_less(q.expires_at@, now@)),
                requests@ == before.requests@.take(j as int).filter(keep_request),
            decreases self.requests@.len() - j,
        {
            proof {
                reveal(Seq::filter);
                assert(before.requests@.take(j + 1).drop_last() =~= before.requests@.take(
                    j as int,
                ));
            }
            if !text_less(self.requests[j].expires_at.as_str(), now) {
                let q: &RequestRecord = &self.requests[j];
                requests.push(
                    RequestRecord {
                        id: q.id.clone(),
                        merchant_id: q.merchant_id.clone(),
                        deposit_address: q.deposit_address.clone(),
                        diversifier_index: q.diversifier_index,
                        status: q.status.clone(),
                        expires_at: q.expires_at.clone(),
                    },
                );
            }
            j = j + 1;
        }
        assert(before.requests@.take(j as int) =~= before.requests@);
        self.sessions = sessions;
        self.requests = requests;
        proof {
            purge_keeps_wf(before, *self, keep, keep_request);
        }
    }
}

/// Whether a purge drops a session: it expired, or it ended and is older than
/// the cutoff.
pub open spec fn is_purgeable(s: Session, now: Seq<char>, cutoff: Seq<char>) -> bool {
    ||| lex_less(s.expires_at@, now)
    ||| (s.status@ == "closed"@ || s.status@ == "depleted"@) && lex_less(s.created_at@, cutoff)
}

fn purgeable(s: &Session, now: &str, cutoff: &str) -> (r: bool)
    ensures
        r == is_purgeable(*s, now@, cutoff@),
{
    text_less(s.expires_at.as_str(), now) || ((text_eq(s.status.as_str(), "closed") || text_eq(
        s.status.as_str(),
        "depleted",
    )) && text_less(s.created_at.as_str(), cutoff))
}

/// Each element of a filtered sequence is one of the sequence.
proof fn filtered_at<A>(s: Seq<A>, keep: spec_fn(A) -> bool, i: int) -> (k: int)
    requires
        0 <= i < s.filter(keep).len(),
    ensures
        0 <= k < s.len(),
        s[k] == s.filter(keep)[i],
    decreases s.len(),
{
    reveal(Seq::filter);
    if i < s.drop_last().filter(keep).len() {
        filtered_at(s.drop_last(), keep, i)
    } else {
        s.len() - 1
    }
}

/// The elements of a filtered sequence stand in the order in which the
/// sequence has them.
proof fn filtered_from<A>(s: Seq<A>, keep: spec_fn(A) -> bool, i: int, j: int) -> (p: (int, int))
    requires
        0 <= i < j < s.filter(keep).len(),
    ensures
        0 <= p.0 < p.1 < s.len(),
        s[p.0] == s.filter(keep)[i],
        s[p.1] == s.filter(keep)[j],
    decreases s.len(),
{
    reveal(Seq::filter);
    if j < s.drop_last().filter(keep).len() {
        filtered_from(s.drop_last(), keep, i, j)
    } else {
        (filtered_at(s.drop_last(), keep, i), s.len() - 1)
    }
}

proof fn purge_keeps_wf(
    before: SessionLedger,
    after: SessionLedger,
    keep: spec_fn(Session) -> bool,
    keep_request: spec_fn(RequestRecord) -> bool,
)
    requires
        before.wf(),
        after.charges == before.charges,
        after.consumptions == before.consumptions,
        after.sessions@ == before.sessions@.filter(keep),
        after.requests@ == before.requests@.filter(keep_request),
    ensures
        after.wf(),
        after.remembers(&before),
{
    assert forall|i: int| 0 <= i < after.sessions@.len() implies ({
        let s = #[trigger] after.sessions@[i];
        &&& s.wf()
        &&& s.spent() == charges_total(after.charges@, s.id@)
        &&& s.requests_made == charges_count(after.charges@, s.id@)
    }) by {
        let k = filtered_at(before.sessions@, keep, i);
        assert(before.sessions@[k].wf());
    }
    assert forall|i: int, j: int|
        0 <= i < j < after.sessions@.len() implies (#[trigger] after.sessions@[i]).id@ != (
    #[trigger] after.sessions@[j]).id@ && after.sessions@[i].bearer_token@
        != after.sessions@[j].bearer_token@ by {
        let p = filtered_from(before.sessions@, keep, i, j);
        assert(before.sessions@[p.0].id@ != before.sessions@[p.1].id@);
    }
    assert forall|i: int, j: int|
        0 <= i < j < after.requests@.len() implies (#[trigger] after.requests@[i]).id@ != (
    #[trigger] after.requests@[j]).id@ by {
        let p = filtered_from(before.requests@, keep_request, i, j);
        assert(before.requests@[p.0].id@ != before.requests@[p.1].id@);
    }
    assert forall|t: Seq<char>| before.is_consumed(t) implies #[trigger] after.is_consumed(t) by {
        let k = choose|k: int|
            0 <= k < before.consumptions@.len() && #[trigger] before.consumptions@[k].txid@
                == ascii_lowercased(t);
        assert(after.consumptions@[k].txid@ == ascii_lowercased(t));
    }
}

/// What is consumed depends on the recorded consumptions alone.
pub proof fn same_consumptions(a: SessionLedger, b: SessionLedger)
    requires
        a.consumptions == b.consumptions,
    ensures
        forall|t: Seq<char>| a.is_consumed(t) == #[trigger] b.is_consumed(t),
{
    assert forall|t: Seq<char>| a.is_consumed(t) == #[trigger] b.is_consumed(t) by {
        if a.is_consumed(t) {
            let k = choose|k: int|
                0 <= k < a.consumptions@.len() && #[trigger] a.consumptions@[k].txid@
                    == ascii_lowercased(t);
            assert(b.consumptions@[k].txid@ == ascii_lowercased(t));
        }
        if b.is_consumed(t) {
            let k = choose|k: int|
                0 <= k < b.consumptions@.len() && #[trigger] b.consumptions@[k].txid@
                    == ascii_lowercased(t);
            assert(a.consumptions@[k].txid@ == ascii_lowercased(t));
        }
    }
}

/// A payment is the same payment in whichever case its identifier is written.
pub proof fn consumption_ignores_case(ledger: SessionLedger, txid: Seq<char>)
    ensures
        ledger.is_consumed(txid) == ledger.is_consumed(ascii_lowercased(txid)),
{
    ascii_lowercased_idempotent(txid);
}

/// Whatever a session was charged never exceeds its deposit.
pub proof fn charges_stay_within_deposit(ledger: SessionLedger, i: int)
    requires
        ledger.wf(),
        0 <= i < ledger.sessions@.len(),
    ensures
        0 <= charges_total(ledger.charges@, ledger.sessions@[i].id@)
            <= ledger.sessions@[i].balance_zatoshis,
        charges_total(ledger.charges@, ledger.sessions@[i].id@)
            + ledger.sessions@[i].balance_remaining == ledger.sessions@[i].balance_zatoshis,
{
    assert(ledger.sessions@[i].wf());
}

/// A deposit that any earlier state of the ledger consumed opens no session in
/// a later one that remembers it.
pub proof fn consumed_deposit_opens_no_session(
    earlier: SessionLedger,
    later: SessionLedger,
    opening: Opening,
    txid: Seq<char>,
    balance: i64,
    cost: Option<i64>,
)
    requires
        earlier.is_consumed(txid),
        later.remembers(&earlier),
    ensures
        later.opening_error(&opening, txid, balance, cost) == Some(SessionError::AlreadyConsumed),
{
}

/// A request that was charged once is not charged again in the same session,
/// whatever it costs the second time, and another request still can be.
pub proof fn request_is_charged_once(
    before: SessionLedger,
    after: SessionLedger,
    i: int,
    merchant_id: Seq<char>,
    token: Seq<char>,
    request_id: Seq<char>,
    amount: int,
    now: Seq<char>,
)
    requires
        before.wf(),
        0 <= i < before.sessions@.len(),
        0 <= i < after.sessions@.len(),
        after.sessions@[i].id == before.sessions@[i].id,
        after.charges@.len() == before.charges@.len() + 1,
        after.charges@.last().session_id@ == before.sessions@[i].id@,
        after.charges@.last().request_id@ == request_id,
    ensures
        !after.chargeable(i, merchant_id, token, amount, request_id, now),
        after.is_charged(before.sessions@[i].id@, request_id),
{
    assert(after.charges@[after.charges@.len() - 1].request_id@ == request_id);
}

/// A session can be charged exactly where the token is its own, it belongs to
/// the merchant, is active, has not expired, holds the amount, and was not
/// charged for that request before.
pub proof fn token_opens_its_own_session(
    ledger: SessionLedger,
    i: int,
    merchant_id: Seq<char>,
    token: Seq<char>,
    amount: int,
    request_id: Seq<char>,
    now: Seq<char>,
)
    requires
        0 <= i < ledger.sessions@.len(),
    ensures
        ({
            let s = ledger.sessions@[i];
            let charged = exists|k: int|
                0 <= k < ledger.charges@.len() && (#[trigger] ledger.charges@[k]).session_id@
                    == s.id@ && ledger.charges@[k].request_id@ == request_id;
            ledger.chargeable(i, merchant_id, token, amount, request_id, now) <==> s.bearer_token@
                == token && s.merchant_id@ == merchant_id && s.status@ == "active"@
                && s.balance_remaining >= amount && lex_less(now, s.expires_at@) && !charged
        }),
{
}

/// A deposit opens a session exactly where it was not consumed before, pays for
/// one request at the agreed price, and the session's name and token are new. It
/// is refused for the first of these that fails.
pub proof fn fresh_deposit_opens_a_session(
    ledger: SessionLedger,
    opening: &Opening,
    deposit_txid: Seq<char>,
    balance: i64,
    cost: Option<i64>,
)
    ensures
        ({
            let e = ledger.opening_error(opening, deposit_txid, balance, cost);
            let i = ledger.insertion_error(opening, balance, cost);
            let used = exists|k: int|
                0 <= k < ledger.consumptions@.len() && #[trigger] ledger.consumptions@[k].txid@
                    == ascii_lowercased(deposit_txid);
            let price = if cost is Some {
                cost->0
            } else {
                1_000
            };
            let pays = price > 0 && balance >= price;
            let taken = ledger.has_id(opening.id@) || ledger.has_token(opening.bearer_token@);
            &&& used <==> e == Some(SessionError::AlreadyConsumed)
            &&& !used && !pays <==> e == Some(SessionError::InvalidBalanceOrPrice)
            &&& !used && pays && taken <==> e == Some(SessionError::IdentifierTaken)
            &&& !used && pays && !taken <==> e is None
            &&& !pays <==> i == Some(SessionError::InvalidBalanceOrPrice)
            &&& pays && taken <==> i == Some(SessionError::IdentifierTaken)
            &&& pays && !taken <==> i is None
        }),
{
}

/// A prepared request can be used by its own merchant until it expires, the last
/// moment included, and only once.
pub proof fn request_is_used_once(
    before: SessionLedger,
    after: SessionLedger,
    i: int,
    request_id: Seq<char>,
    merchant_id: Seq<char>,
    now: Seq<char>,
    later: Seq<char>,
)
    requires
        0 <= i < before.requests@.len(),
    ensures
        before.request_available(i, request_id, merchant_id, now) <==> {
            let q = before.requests@[i];
            &&& q.id@ == request_id
            &&& q.merchant_id@ == merchant_id
            &&& q.status@ == "pending"@
            &&& !lex_less(q.expires_at@, now)
        },
        before.requests@[i].expires_at@ == now && before.requests@[i].status@ == "pending"@
            ==> before.requests@[i].is_pending(now),
        i < after.requests@.len() && used_request(&before.requests@[i], &after.requests@[i]) ==> {
            &&& after.requests@[i].status@ == "used"@
            &&& after.requests@[i].id == before.requests@[i].id
            &&& !after.request_available(i, request_id, merchant_id, later)
        },
{
    reveal_strlit("pending");
    reveal_strlit("used");
    assert("pending"@.len() != "used"@.len());
    crate::text::lex_less_irreflexive(now);
}

/// A charge counts for its own session and for no other.
pub proof fn charge_counts_for_its_session(charges: Seq<Charge>, c: Charge, session_id: Seq<char>)
    ensures
        charges_total(Seq::<Charge>::empty(), session_id) == 0,
        charges_count(Seq::<Charge>::empty(), session_id) == 0,
        c.session_id@ == session_id ==> {
            &&& charges_total(charges.push(c), session_id) == charges_total(charges, session_id)
                + c.amount
            &&& charges_count(charges.push(c), session_id) == charges_count(charges, session_id)
                + 1
        },
        c.session_id@ != session_id ==> {
            &&& charges_total(charges.push(c), session_id) == charges_total(charges, session_id)
            &&& charges_count(charges.push(c), session_id) == charges_count(charges, session_id)
        },
{
    assert(charges.push(c).drop_last() =~= charges);
}

/// What is purged is a session whose time is up, and one that is closed or
/// depleted and was made before the cutoff. An active session that has not
/// expired stays, however old it is.
pub proof fn running_session_is_not_purged(s: Session, now: Seq<char>, cutoff: Seq<char>)
    ensures
        lex_less(s.expires_at@, now) ==> is_purgeable(s, now, cutoff),
        (s.status@ == "closed"@ || s.status@ == "depleted"@) && lex_less(s.created_at@, cutoff)
            ==> is_purgeable(s, now, cutoff),
        !lex_less(s.expires_at@, now) && s.status@ == "active"@ ==> !is_purgeable(s, now, cutoff),
        !lex_less(s.expires_at@, now) && !lex_less(s.created_at@, cutoff) ==> !is_purgeable(
            s,
            now,
            cutoff,
        ),
{
    reveal_strlit("active");
    reveal_strlit("closed");
    reveal_strlit("depleted");
    assert("active"@[0] == 'a' && "closed"@[0] == 'c' && "depleted"@[0] == 'd');
}

/// A consumed payment is one that stands in the ledger, whatever the case of
/// its name, and each consumption adds that one and no other.
pub proof fn consumption_adds_one(
    before: SessionLedger,
    after: SessionLedger,
    txid: Seq<char>,
    other: Seq<char>,
    purpose: Seq<char>,
)
    requires
        before.consumed_into(&after, txid, purpose),
        ascii_lowercased(other) != ascii_lowercased(txid),
    ensures
        after.is_consumed(txid),
        after.is_consumed(other) == before.is_consumed(other),
        after.consumptions@.len() == before.consumptions@.len() + 1,
        after.consumptions@.last().purpose@ == purpose,
{
    let a = after.consumptions@;
    let b = before.consumptions@;
    assert(a[a.len() - 1].txid@ == ascii_lowercased(txid));
    assert(forall|i: int| 0 <= i < b.len() ==> a.drop_last()[i] == #[trigger] b[i]);
    assert(forall|i: int| 0 <= i < b.len() ==> #[trigger] a[i] == a.drop_last()[i]);
    if before.is_consumed(other) {
        let i = choose|i: int| 0 <= i < b.len() && #[trigger] b[i].txid@ == ascii_lowercased(other);
        assert(a[i].txid@ == ascii_lowercased(other));
    }
    if after.is_consumed(other) {
        let i = choose|i: int| 0 <= i < a.len() && #[trigger] a[i].txid@ == ascii_lowercased(other);
        assert(b[i].txid@ == ascii_lowercased(other));
    }
}

/// A request is known wherever it stands in the ledger.
pub proof fn request_is_known_by_its_id(ledger: SessionLedger, i: int, id: Seq<char>)
    requires
        0 <= i < ledger.requests@.len(),
    ensures
        ledger.has_request(ledger.requests@[i].id@),
        (forall|k: int|
            0 <= k < ledger.requests@.len() ==> (#[trigger] ledger.requests@[k]).id@ != id)
            ==> !ledger.has_request(id),
{
}

/// A name or a token is taken wherever a session has it; the name of a session
/// that was purged stays taken as long as its charges are kept.
pub proof fn names_stay_taken(ledger: SessionLedger, i: int, k: int)
    requires
        0 <= i < ledger.sessions@.len(),
        0 <= k < ledger.charges@.len(),
    ensures
        ledger.has_id(ledger.sessions@[i].id@),
        ledger.has_token(ledger.sessions@[i].bearer_token@),
        ledger.has_id(ledger.charges@[k].session_id@),
{
}

} // verus!
