//! Prepaid sessions: a deposit buys a balance that a merchant charges request
//! by request.

use vstd::prelude::*;

use crate::ids::{is_simple, new_simple_id};
use crate::text::{
    ascii_lowercase, ascii_lowercased, copy_text, join2, join3, lex_less, opt_str, opt_text,
    text_eq, text_less,
};

verus! {

/// Price of a request, in zatoshis, where none was agreed.
pub const DEFAULT_COST_PER_REQUEST: i64 = 1_000;

/// Hours after which a session expires.
pub const SESSION_EXPIRY_HOURS: i64 = 24;

/// Longest name of a charged resource, in bytes.
pub const MAX_RESOURCE_LEN: usize = 2048;

/// Longest request identifier, in bytes.
pub const MAX_REQUEST_ID_LEN: usize = 128;

pub struct Session {
    pub id: String,
    pub merchant_id: String,
    pub deposit_txid: String,
    pub bearer_token: String,
    pub balance_zatoshis: i64,
    pub balance_remaining: i64,
    pub cost_per_request: i64,
    pub requests_made: i64,
    pub refund_address: Option<String>,
    pub status: String,
    pub expires_at: String,
    pub created_at: String,
    pub closed_at: Option<String>,
}

pub struct SessionSummary {
    pub session_id: String,
    pub requests_made: i64,
    pub balance_used: i64,
    pub balance_remaining: i64,
    pub status: String,
    pub refund_address: Option<String>,
}

pub struct SessionRequest {
    pub id: String,
    pub merchant_id: String,
    pub deposit_address: String,
    pub diversifier_index: u32,
}

/// A row of the session table, in the order of its columns.
pub type SessionRow = (
    String,
    String,
    String,
    String,
    i64,
    i64,
    i64,
    i64,
    Option<String>,
    String,
    String,
    String,
    Option<String>,
);

/// Why a session operation was refused.
#[derive(Debug, Clone, Copy, PartialEq, Eq, Structural)]
pub enum SessionError {
    AlreadyConsumed,
    DepositConsumed,
    RequestUnavailable,
    InvalidBalanceOrPrice,
    InvalidCharge,
    IdentifierTaken,
}

impl SessionError {
    pub open spec fn spec_message(self) -> Seq<char> {
        match self {
            SessionError::AlreadyConsumed => "This transaction has already been consumed"@,
            SessionError::DepositConsumed => "Payment already consumed"@,
            SessionError::RequestUnavailable => "Session request expired or already used"@,
            SessionError::InvalidBalanceOrPrice => "Invalid session balance or price"@,
            SessionError::InvalidCharge => "Invalid charge"@,
            SessionError::IdentifierTaken => "Session identifier already in use"@,
        }
    }

    pub fn message(&self) -> (r: &'static str)
        ensures
            r@ == self.spec_message(),
    {
        match self {
            SessionError::AlreadyConsumed => "This transaction has already been consumed",
            SessionError::DepositConsumed => "Payment already consumed",
            SessionError::RequestUnavailable => "Session request expired or already used",
            SessionError::InvalidBalanceOrPrice => "Invalid session balance or price",
            SessionError::InvalidCharge => "Invalid charge",
            SessionError::IdentifierTaken => "Session identifier already in use",
        }
    }
}

impl Session {
    /// What holds of every session that was opened and charged here: a charge
    /// takes at least one zatoshi, so the requests never outnumber the zatoshis
    /// that were spent.
    pub open spec fn wf(&self) -> bool {
        &&& self.cost_per_request > 0
        &&& 0 <= self.balance_remaining
        &&& 0 <= self.requests_made
        &&& self.requests_made + self.balance_remaining <= self.balance_zatoshis
    }

    /// What was spent of the deposit.
    pub open spec fn spent(&self) -> int {
        self.balance_zatoshis - self.balance_remaining
    }

    pub open spec fn is_open(&self) -> bool {
        self.status@ == "active"@ || self.status@ == "depleted"@
    }

    /// The session after a charge.
    pub open spec fn charged(self, amount: i64) -> Session {
        Session {
            balance_remaining: (self.balance_remaining - amount) as i64,
            requests_made: (self.requests_made + 1) as i64,
            ..self
        }
    }

    /// Whether a merchant may take the amount from the session at a time.
    pub open spec fn can_pay(&self, merchant_id: Seq<char>, amount: int, now: Seq<char>) -> bool {
        &&& self.merchant_id@ == merchant_id
        &&& self.status@ == "active"@
        &&& self.balance_remaining >= amount
        &&& lex_less(now, self.expires_at@)
    }

    /// A copy of the session.
    pub fn copy(&self) -> (r: Session)
        ensures
            r == *self,
    {
        Session {
            id: self.id.clone(),
            merchant_id: self.merchant_id.clone(),
            deposit_txid: self.deposit_txid.clone(),
            bearer_token: self.bearer_token.clone(),
            balance_zatoshis: self.balance_zatoshis,
            balance_remaining: self.balance_remaining,
            cost_per_request: self.cost_per_request,
            requests_made: self.requests_made,
            refund_address: self.refund_address.clone(),
            status: self.status.clone(),
            expires_at: self.expires_at.clone(),
            created_at: self.created_at.clone(),
            closed_at: self.closed_at.clone(),
        }
    }

    /// Takes the amount from the session where the merchant may take it.
    pub fn debit(&self, merchant_id: &str, amount: i64, now: &str) -> (r: Option<Session>)
        requires
            amount > 0,
            self.can_pay(merchant_id@, amount as int, now@) ==> self.requests_made < i64::MAX,
        ensures
            match r {
                Some(s) => self.can_pay(merchant_id@, amount as int, now@) && s == self.charged(
                    amount,
                ),
                None => !self.can_pay(merchant_id@, amount as int, now@),
            },
    {
        if text_eq(self.merchant_id.as_str(), merchant_id) && text_eq(
            self.status.as_str(),
            "active",
        ) && self.balance_remaining >= amount && text_less(now, self.expires_at.as_str()) {
            let mut s: Session = self.copy();
            s.balance_remaining = self.balance_remaining - amount;
            s.requests_made = self.requests_made + 1;
            Some(s)
        } else {
            None
        }
    }

    /// The summary that its owner sees.
    pub open spec fn summarized_by(&self, s: &SessionSummary) -> bool {
        &&& s.session_id@ == self.id@
        &&& s.requests_made == self.requests_made
        &&& s.balance_used == self.spent()
        &&& s.balance_remaining == self.balance_remaining
        &&& s.status@ == self.status@
        &&& opt_text(s.refund_address) == opt_text(self.refund_address)
    }

    /// The summary that its owner sees.
    pub fn summary(&self) -> (r: SessionSummary)
        requires
            i64::MIN <= self.spent() <= i64::MAX,
        ensures
            self.summarized_by(&r),
            self.wf() ==> r.balance_used + r.balance_remaining == self.balance_zatoshis,
    {
        SessionSummary {
            session_id: self.id.clone(),
            requests_made: self.requests_made,
            balance_used: self.balance_zatoshis - self.balance_remaining,
            balance_remaining: self.balance_remaining,
            status: self.status.clone(),
            refund_address: self.refund_address.clone(),
        }
    }

    /// The session after its owner closed it.
    pub open spec fn closed_as(&self, s: &Session, now: Seq<char>) -> bool {
        if self.is_open() {
            &&& s.status@ == "closed"@
            &&& opt_text(s.closed_at) == Some(now)
            &&& *s == (Session { status: s.status, closed_at: s.closed_at, ..*self })
        } else {
            *s == *self
        }
    }

    /// Closes an active or depleted session; any other stays as it is.
    pub fn close(&self, now: &str) -> (r: Session)
        ensures
            self.closed_as(&r, now@),
    {
        let mut s: Session = self.copy();
        if text_eq(self.status.as_str(), "active") || text_eq(self.status.as_str(), "depleted") {
            s.status = "closed".to_string();
            s.closed_at = Some(now.to_string());
        }
        s
    }

    /// The amount that is to be sent back when a session is closed, where an
    /// address was left for it.
    pub fn refund_on_close(&self) -> (r: Option<(String, i64)>)
        ensures
            match r {
                Some(x) => opt_text(self.refund_address) == Some(x.0@) && x.1
                    == self.balance_remaining && x.1 > 0,
                None => self.refund_address is None || self.balance_remaining <= 0,
            },
    {
        match &self.refund_address {
            Some(addr) => if self.balance_remaining > 0 {
                Some((addr.clone(), self.balance_remaining))
            } else {
                None
            },
            None => None,
        }
    }

    /// The refund that a listing shows: only where the session is over.
    pub fn refund_in_history(&self) -> (r: Option<(String, i64)>)
        ensures
            match r {
                Some(x) => {
                    &&& opt_text(self.refund_address) == Some(x.0@)
                    &&& x.1 == self.balance_remaining
                    &&& x.1 > 0
                    &&& self.is_over()
                },
                None => self.refund_address is None || self.balance_remaining <= 0
                    || !self.is_over(),
            },
    {
        if text_eq(self.status.as_str(), "closed") || text_eq(self.status.as_str(), "depleted")
            || text_eq(self.status.as_str(), "expired") {
            self.refund_on_close()
        } else {
            None
        }
    }

    pub open spec fn is_over(&self) -> bool {
        self.status@ == "closed"@ || self.status@ == "depleted"@ || self.status@ == "expired"@
    }
}

/// Puts a row of the session table into a `Session`.
pub fn session_from_row(row: SessionRow) -> (r: Session)
    ensures
        r == (Session {
            id: row.0,
            merchant_id: row.1,
            deposit_txid: row.2,
            bearer_token: row.3,
            balance_zatoshis: row.4,
            balance_remaining: row.5,
            cost_per_request: row.6,
            requests_made: row.7,
            refund_address: row.8,
            status: row.9,
            expires_at: row.10,
            created_at: row.11,
            closed_at: row.12,
        }),
{
    Session {
        id: row.0,
        merchant_id: row.1,
        deposit_txid: row.2,
        bearer_token: row.3,
        balance_zatoshis: row.4,
        balance_remaining: row.5,
        cost_per_request: row.6,
        requests_made: row.7,
        refund_address: row.8,
        status: row.9,
        expires_at: row.10,
        created_at: row.11,
        closed_at: row.12,
    }
}

/// Whether a text is a session token: the prefix and 64 lowercase hexadecimal
/// digits.
pub open spec fn is_token(s: Seq<char>) -> bool {
    exists|a: Seq<char>, b: Seq<char>|
        is_simple(a) && is_simple(b) && s == #[trigger] ("cps_"@ + a + b)
}

/// Draws a session token.
pub fn generate_token() -> (r: String)
    ensures
        is_token(r@),
{
    let a: String = new_simple_id();
    let b: String = new_simple_id();
    join3("cps_", a.as_str(), b.as_str())
}

/// Draws the identifier of a deposit request.
pub fn generate_request_id() -> (r: String)
    ensures
        exists|a: Seq<char>| is_simple(a) && r@ == #[trigger] ("sr_"@ + a),
{
    let a: String = new_simple_id();
    join2("sr_", a.as_str())
}

/// What is drawn or read from the clock when a session is opened.
pub struct Opening {
    pub id: String,
    pub bearer_token: String,
    pub now: String,
    pub expires_at: String,
}

/// The price of a request in a session.
pub open spec fn agreed_cost(cost: Option<i64>) -> i64 {
    match cost {
        Some(c) => c,
        None => DEFAULT_COST_PER_REQUEST,
    }
}

/// Whether a session may be opened with a balance and a price.
pub open spec fn is_fundable(balance: i64, cost: Option<i64>) -> bool {
    agreed_cost(cost) > 0 && balance >= agreed_cost(cost)
}

/// Whether `s` is the session that a deposit opens.
pub open spec fn opened_as(
    s: &Session,
    opening: &Opening,
    merchant_id: Seq<char>,
    deposit_txid: Seq<char>,
    balance: i64,
    refund_address: Option<Seq<char>>,
    cost: Option<i64>,
) -> bool {
    &&& s.id@ == opening.id@
    &&& s.merchant_id@ == merchant_id
    &&& s.deposit_txid@ == ascii_lowercased(deposit_txid)
    &&& s.bearer_token@ == opening.bearer_token@
    &&& s.balance_zatoshis == balance
    &&& s.balance_remaining == balance
    &&& s.cost_per_request == agreed_cost(cost)
    &&& s.requests_made == 0
    &&& opt_text(s.refund_address) == refund_address
    &&& s.status@ == "active"@
    &&& s.expires_at@ == opening.expires_at@
    &&& s.created_at@ == opening.now@
    &&& s.closed_at is None
}

/// The session that a deposit opens: active, with the whole balance left.
pub fn new_session(
    opening: &Opening,
    merchant_id: &str,
    deposit_txid: &str,
    balance: i64,
    refund_address: Option<&str>,
    cost: Option<i64>,
) -> (r: Result<Session, SessionError>)
    ensures
        match r {
            Ok(s) => is_fundable(balance, cost) && s.wf() && opened_as(
                &s,
                opening,
                merchant_id@,
                deposit_txid@,
                balance,
                opt_str(refund_address),
                cost,
            ),
            Err(e) => !is_fundable(balance, cost) && e == SessionError::InvalidBalanceOrPrice,
        },
{
    let price: i64 = match cost {
        Some(c) => c,
        None => DEFAULT_COST_PER_REQUEST,
    };
    if !(price > 0 && balance >= price) {
        return Err(SessionError::InvalidBalanceOrPrice);
    }
    Ok(
        Session {
            id: opening.id.clone(),
            merchant_id: merchant_id.to_string(),
            deposit_txid: ascii_lowercase(deposit_txid),
            bearer_token: opening.bearer_token.clone(),
            balance_zatoshis: balance,
            balance_remaining: balance,
            cost_per_request: price,
            requests_made: 0,
            refund_address: copy_text(refund_address),
            status: "active".to_string(),
            expires_at: opening.expires_at.clone(),
            created_at: opening.now.clone(),
            closed_at: None,
        },
    )
}

/// Whether a charge is well formed.
pub open spec fn is_valid_charge(amount: i64, resource: &str, request_id: &str) -> bool {
    &&& amount > 0
    &&& resource@.len() > 0
    &&& resource.len() <= MAX_RESOURCE_LEN
    &&& request_id@.len() > 0
    &&& request_id.len() <= MAX_REQUEST_ID_LEN
}

/// Whether a charge is well formed.
pub fn check_charge(amount: i64, resource: &str, request_id: &str) -> (r: bool)
    ensures
        r == is_valid_charge(amount, resource, request_id),
{
    amount > 0 && !resource.is_empty() && resource.len() <= MAX_RESOURCE_LEN
        && !request_id.is_empty() && request_id.len() <= MAX_REQUEST_ID_LEN
}

// ---------------------------------------------------------------------------
// Laws
// ---------------------------------------------------------------------------

/// A charge is taken exactly from an active session of the merchant that has
/// not expired and still holds as much. It takes that much and no more, counts
/// as one request, and leaves the rest of the session as it was.
pub proof fn charge_takes_what_it_costs(
    s: Session,
    merchant_id: Seq<char>,
    amount: i64,
    now: Seq<char>,
)
    requires
        s.wf(),
        amount > 0,
    ensures
        s.can_pay(merchant_id, amount as int, now) <==> s.merchant_id@ == merchant_id && s.status@
            == "active"@ && s.balance_remaining >= amount && lex_less(now, s.expires_at@),
        s.can_pay(merchant_id, amount as int, now) ==> {
            let r = s.charged(amount);
            &&& r.balance_remaining + amount == s.balance_remaining
            &&& r.requests_made == s.requests_made + 1
            &&& r.balance_zatoshis == s.balance_zatoshis
            &&& r.cost_per_request == s.cost_per_request
            &&& r.id == s.id && r.bearer_token == s.bearer_token && r.status == s.status
            &&& r.expires_at == s.expires_at && r.refund_address == s.refund_address
            &&& r.wf()
        },
{
}

/// Two charges together take what one charge of their sum would.
pub proof fn charges_add_up(s: Session, first: i64, second: i64)
    requires
        s.wf(),
        first > 0,
        second > 0,
        s.balance_remaining >= first + second,
    ensures
        s.charged(first).charged(second).balance_remaining == s.charged(
            (first + second) as i64,
        ).balance_remaining,
        s.charged(first).charged(second) == s.charged(second).charged(first),
        s.charged(first).charged(second).spent() == s.spent() + first + second,
{
}

/// A session is opened exactly where a price above zero is agreed and the
/// deposit pays for one request at least. The price is 1000 zatoshis where none
/// was named.
pub proof fn deposit_pays_for_one_request(balance: i64, cost: Option<i64>)
    ensures
        cost is None ==> (is_fundable(balance, cost) <==> balance >= 1_000),
        cost matches Some(c) ==> (is_fundable(balance, cost) <==> 0 < c <= balance),
        cost is None ==> agreed_cost(cost) == 1_000,
        cost matches Some(c) ==> agreed_cost(cost) == c,
{
}

/// A new session holds the whole deposit, has made no request, and is active
/// until its time is up. It belongs to the merchant and to the deposit that
/// paid for it.
pub proof fn new_session_holds_the_deposit(
    s: Session,
    opening: &Opening,
    merchant_id: Seq<char>,
    deposit_txid: Seq<char>,
    balance: i64,
    refund_address: Option<Seq<char>>,
    cost: Option<i64>,
)
    requires
        opened_as(&s, opening, merchant_id, deposit_txid, balance, refund_address, cost),
        is_fundable(balance, cost),
    ensures
        s.wf(),
        s.balance_remaining == balance && s.balance_zatoshis == balance,
        s.requests_made == 0,
        s.spent() == 0,
        s.status@ == "active"@,
        s.closed_at is None,
        s.merchant_id@ == merchant_id,
        s.deposit_txid@ == ascii_lowercased(deposit_txid),
        opt_text(s.refund_address) == refund_address,
        s.expires_at@ == opening.expires_at@,
        s.created_at@ == opening.now@,
        s.bearer_token@ == opening.bearer_token@ && s.id@ == opening.id@,
        cost matches Some(c) ==> s.cost_per_request == c,
        cost is None ==> s.cost_per_request == 1_000,
        forall|now: Seq<char>|
            lex_less(now, opening.expires_at@) ==> #[trigger] s.can_pay(
                merchant_id,
                s.cost_per_request as int,
                now,
            ),
{
}

/// A session that is active or depleted is closed at that moment, one that is
/// closed or expired stays as it is, and closing again changes nothing. What is
/// left of the deposit stays on record, and nothing can be charged any more.
pub proof fn closing_ends_a_session(s: Session, closed: Session, again: Session, now: Seq<char>)
    requires
        s.closed_as(&closed, now),
        closed.closed_as(&again, now),
    ensures
        s.status@ == "active"@ || s.status@ == "depleted"@ ==> closed.status@ == "closed"@
            && opt_text(closed.closed_at) == Some(now),
        s.status@ == "closed"@ || s.status@ == "expired"@ ==> closed == s,
        closed.balance_remaining == s.balance_remaining,
        closed.balance_zatoshis == s.balance_zatoshis,
        closed.requests_made == s.requests_made,
        closed.id == s.id && closed.refund_address == s.refund_address,
        again == closed,
        forall|m: Seq<char>, a: int, t: Seq<char>| !#[trigger] closed.can_pay(m, a, t),
{
    session_statuses_differ();
}

/// A session is over once it is closed, depleted or expired, and not while it is
/// active. Only a session that is not over can be charged.
pub proof fn active_session_is_not_over(s: Session)
    ensures
        s.is_over() <==> s.status@ == "closed"@ || s.status@ == "depleted"@ || s.status@
            == "expired"@,
        s.status@ == "active"@ ==> !s.is_over() && s.is_open(),
        s.status@ == "depleted"@ ==> s.is_open(),
        s.is_over() ==> forall|m: Seq<char>, a: int, t: Seq<char>| !#[trigger] s.can_pay(m, a, t),
{
    session_statuses_differ();
}

proof fn session_statuses_differ()
    ensures
        "active"@ != "closed"@,
        "active"@ != "depleted"@,
        "active"@ != "expired"@,
        "depleted"@ != "closed"@,
        "depleted"@ != "expired"@,
        "closed"@ != "expired"@,
{
    reveal_strlit("active");
    reveal_strlit("closed");
    reveal_strlit("depleted");
    reveal_strlit("expired");
    assert("active"@[0] == 'a' && "closed"@[0] == 'c' && "depleted"@[0] == 'd');
    assert("expired"@[0] == 'e');
}

/// A charge names an amount above zero, a resource of at most 2048 bytes and a
/// request of at most 128, neither of them empty; and that is all it needs.
pub proof fn charge_names_what_it_is_for(amount: i64, resource: &str, request_id: &str)
    ensures
        is_valid_charge(amount, resource, request_id) <==> amount > 0 && resource@.len() > 0
            && resource.len() <= 2048 && request_id@.len() > 0 && request_id.len() <= 128,
{
}

/// A summary accounts for the whole deposit: what was used and what is left.
pub proof fn summary_accounts_for_the_deposit(s: Session, summary: SessionSummary)
    requires
        s.summarized_by(&summary),
    ensures
        summary.balance_used + summary.balance_remaining == s.balance_zatoshis,
        summary.balance_remaining == s.balance_remaining,
        summary.requests_made == s.requests_made,
        summary.session_id@ == s.id@,
        summary.status@ == s.status@,
        opt_text(summary.refund_address) == opt_text(s.refund_address),
{
}

/// A session token is told by its prefix and 64 hexadecimal digits behind it.
pub proof fn token_is_prefix_and_digits(s: Seq<char>)
    requires
        is_token(s),
    ensures
        s.len() == 68,
        "cps_"@.is_prefix_of(s),
{
    reveal_strlit("cps_");
    let (a, b) = choose|a: Seq<char>, b: Seq<char>|
        is_simple(a) && is_simple(b) && s == #[trigger] ("cps_"@ + a + b);
    assert("cps_"@.len() == 4);
    assert(s.take(4) =~= "cps_"@);
}

} // verus!
