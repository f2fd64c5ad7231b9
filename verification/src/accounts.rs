//! The accounts of all merchants with what belongs to them: how somebody gets
//! in, what a new token ends, and what is left of an account that is deleted.

use vstd::prelude::*;

use crate::api::auth::DashboardSession;
use crate::billing::{BillingCycle, FeeEntry};
use crate::clock::timestamp_text;
use crate::ids::is_hyphenated;
use crate::invoices::payments::{InvoicePayment, PaymentLedger};
use crate::invoices::Invoice;
use crate::merchants::{
    create_recovery_token, hash_key, is_secret, key_hash, regenerate_dashboard_token, FreshSecret,
    Merchant, RecoveryToken,
};
use crate::products::Product;
use crate::session_ledger::SessionLedger;
use crate::text::{lex_less, text_eq, text_less};

verus! {

/// What belongs to a merchant.
pub trait Owned {
    spec fn owner(&self) -> Seq<char>;

    fn is_owned_by(&self, merchant_id: &str) -> (r: bool)
        ensures
            r == (self.owner() == merchant_id@),
    ;
}

impl Owned for Merchant {
    open spec fn owner(&self) -> Seq<char> {
        self.id@
    }

    fn is_owned_by(&self, merchant_id: &str) -> (r: bool) {
        text_eq(self.id.as_str(), merchant_id)
    }
}

impl Owned for DashboardSession {
    open spec fn owner(&self) -> Seq<char> {
        self.merchant_id@
    }

    fn is_owned_by(&self, merchant_id: &str) -> (r: bool) {
        text_eq(self.merchant_id.as_str(), merchant_id)
    }
}

impl Owned for RecoveryToken {
    open spec fn owner(&self) -> Seq<char> {
        self.merchant_id@
    }

    fn is_owned_by(&self, merchant_id: &str) -> (r: bool) {
        text_eq(self.merchant_id.as_str(), merchant_id)
    }
}

impl Owned for FeeEntry {
    open spec fn owner(&self) -> Seq<char> {
        self.merchant_id@
    }

    fn is_owned_by(&self, merchant_id: &str) -> (r: bool) {
        text_eq(self.merchant_id.as_str(), merchant_id)
    }
}

impl Owned for BillingCycle {
    open spec fn owner(&self) -> Seq<char> {
        self.merchant_id@
    }

    fn is_owned_by(&self, merchant_id: &str) -> (r: bool) {
        text_eq(self.merchant_id.as_str(), merchant_id)
    }
}

impl Owned for Invoice {
    open spec fn owner(&self) -> Seq<char> {
        self.merchant_id@
    }

    fn is_owned_by(&self, merchant_id: &str) -> (r: bool) {
        text_eq(self.merchant_id.as_str(), merchant_id)
    }
}

impl Owned for Product {
    open spec fn owner(&self) -> Seq<char> {
        self.merchant_id@
    }

    fn is_owned_by(&self, merchant_id: &str) -> (r: bool) {
        text_eq(self.merchant_id.as_str(), merchant_id)
    }
}

/// What belongs to others than a merchant, in its order.
pub open spec fn others<T: Owned>(rows: Seq<T>, merchant_id: Seq<char>) -> Seq<T> {
    rows.filter(|x: T| x.owner() != merchant_id)
}

/// Removes what belongs to a merchant.
fn remove_owned<T: Owned>(rows: &mut Vec<T>, merchant_id: &str)
    ensures
        final(rows)@ == others(old(rows)@, merchant_id@),
{
    let ghost before = rows@;
    let ghost keep = |x: T| x.owner() != merchant_id@;
    let n: usize = rows.len();
    let mut left: Vec<T> = Vec::new();
    let mut i: usize = 0;
    while i < n
        invariant
            i <= n,
            n == before.len(),
            rows@ == before.skip(i as int),
            keep == (|x: T| x.owner() != merchant_id@),
            left@ == before.take(i as int).filter(keep),
        decreases n - i,
    {
        let x: T = rows.remove(0);
        proof {
            reveal(Seq::filter);
            assert(before.take(i + 1).drop_last() =~= before.take(i as int));
            assert(before.take(i + 1).last() == x);
            assert(rows@ =~= before.skip(i + 1));
        }
        if !x.is_owned_by(merchant_id) {
            left.push(x);
        }
        i = i + 1;
    }
    assert(before.take(n as int) =~= before);
    *rows = left;
}

/// All accounts, with what belongs to them.
pub struct Accounts {
    pub merchants: Vec<Merchant>,
    pub sessions: Vec<DashboardSession>,
    pub recovery_tokens: Vec<RecoveryToken>,
    pub fees: Vec<FeeEntry>,
    pub cycles: Vec<BillingCycle>,
    pub products: Vec<Product>,
    pub invoices: Vec<Invoice>,
    pub payments: PaymentLedger,
    pub ledger: SessionLedger,
}

/// Whether an invoice is one of a merchant.
pub open spec fn is_invoice_of(
    invoices: Seq<Invoice>,
    invoice_id: Seq<char>,
    merchant_id: Seq<char>,
) -> bool {
    exists|i: int|
        0 <= i < invoices.len() && (#[trigger] invoices[i]).id@ == invoice_id
            && invoices[i].merchant_id@ == merchant_id
}

fn invoice_of(invoices: &Vec<Invoice>, invoice_id: &str, merchant_id: &str) -> (r: bool)
    ensures
        r == is_invoice_of(invoices@, invoice_id@, merchant_id@),
{
    let mut i: usize = 0;
    while i < invoices.len()
        invariant
            i <= invoices@.len(),
            forall|k: int|
                0 <= k < i ==> !((#[trigger] invoices@[k]).id@ == invoice_id@
                    && invoices@[k].merchant_id@ == merchant_id@),
        decreases invoices@.len() - i,
    {
        if text_eq(invoices[i].id.as_str(), invoice_id) && text_eq(
            invoices[i].merchant_id.as_str(),
            merchant_id,
        ) {
            return true;
        }
        i = i + 1;
    }
    false
}

/// What was paid for invoices of others than a merchant.
pub open spec fn others_payments(
    payments: Seq<InvoicePayment>,
    invoices: Seq<Invoice>,
    merchant_id: Seq<char>,
) -> Seq<InvoicePayment> {
    payments.filter(|p: InvoicePayment| !is_invoice_of(invoices, p.invoice_id@, merchant_id))
}

fn remove_payments(payments: &mut Vec<InvoicePayment>, invoices: &Vec<Invoice>, merchant_id: &str)
    ensures
        final(payments)@ == others_payments(old(payments)@, invoices@, merchant_id@),
{
    let ghost before = payments@;
    let ghost keep = |p: InvoicePayment|
        !is_invoice_of(invoices@, p.invoice_id@, merchant_id@);
    let n: usize = payments.len();
    let mut left: Vec<InvoicePayment> = Vec::new();
    let mut i: usize = 0;
    while i < n
        invariant
            i <= n,
            n == before.len(),
            payments@ == before.skip(i as int),
            keep == (|p: InvoicePayment|
                !is_invoice_of(invoices@, p.invoice_id@, merchant_id@)),
            left@ == before.take(i as int).filter(keep),
        decreases n - i,
    {
        let p: InvoicePayment = payments.remove(0);
        proof {
            reveal(Seq::filter);
            assert(before.take(i + 1).drop_last() =~= before.take(i as int));
            assert(before.take(i + 1).last() == p);
            assert(payments@ =~= before.skip(i + 1));
        }
        if !invoice_of(invoices, p.invoice_id.as_str(), merchant_id) {
            left.push(p);
        }
        i = i + 1;
    }
    assert(before.take(n as int) =~= before);
    *payments = left;
}

/// Whether `after` is a product once a merchant sells nothing any more.
pub open spec fn withdrawn(before: Product, after: Product, merchant_id: Seq<char>) -> bool {
    after == if before.merchant_id@ == merchant_id {
        Product { active: 0, ..before }
    } else {
        before
    }
}

/// Whether `after` is a merchant once another dashboard token opens one account.
pub open spec fn rekeyed(
    before: Merchant,
    after: Merchant,
    merchant_id: Seq<char>,
    hash: Seq<char>,
) -> bool {
    if before.id@ == merchant_id {
        &&& after.dashboard_token_hash@ == hash
        &&& after == (Merchant { dashboard_token_hash: after.dashboard_token_hash, ..before })
    } else {
        after == before
    }
}

impl Accounts {
    /// Whether a session lets somebody into the account of a merchant.
    pub open spec fn admits(
        &self,
        i: int,
        m: int,
        session_id: Seq<char>,
        now: Seq<char>,
    ) -> bool {
        &&& 0 <= i < self.sessions@.len()
        &&& 0 <= m < self.merchants@.len()
        &&& self.sessions@[i].id@ == session_id
        &&& lex_less(now, self.sessions@[i].expires_at@)
        &&& self.merchants@[m].id@ == self.sessions@[i].merchant_id@
    }

    /// Whether a session with an identifier lets into the account of the
    /// merchant at a place.
    pub open spec fn lets_into(&self, m: int, session_id: Seq<char>, now: Seq<char>) -> bool {
        exists|i: int| #[trigger] self.admits(i, m, session_id, now)
    }

    /// The place of the merchant whose account a session lets into.
    pub fn get_by_session(&self, session_id: &str, now: &str) -> (r: Option<usize>)
        ensures
            match r {
                Some(m) => self.lets_into(m as int, session_id@, now@),
                None => forall|m: int| !#[trigger] self.lets_into(m, session_id@, now@),
            },
    {
        let mut i: usize = 0;
        while i < self.sessions.len()
            invariant
                i <= self.sessions@.len(),
                forall|k: int, m: int|
                    0 <= k < i ==> !#[trigger] self.admits(k, m, session_id@, now@),
            decreases self.sessions@.len() - i,
        {
            let s: &DashboardSession = &self.sessions[i];
            if text_eq(s.id.as_str(), session_id) && text_less(now, s.expires_at.as_str()) {
                let mut m: usize = 0;
                while m < self.merchants.len()
                    invariant
                        i < self.sessions@.len(),
                        m <= self.merchants@.len(),
                        *s == self.sessions@[i as int],
                        s.id@ == session_id@,
                        lex_less(now@, s.expires_at@),
                        forall|k: int|
                            0 <= k < m ==> (#[trigger] self.merchants@[k]).id@ != s.merchant_id@,
                    decreases self.merchants@.len() - m,
                {
                    if text_eq(self.merchants[m].id.as_str(), s.merchant_id.as_str()) {
                        assert(self.admits(i as int, m as int, session_id@, now@));
                        return Some(m);
                    }
                    m = m + 1;
                }
            }
            i = i + 1;
        }
        None
    }

    /// The place of the merchant whose account a dashboard token opens.
    pub fn authenticate_dashboard(&self, token: &str) -> (r: Option<usize>)
        ensures
            match r {
                Some(m) => m < self.merchants@.len()
                    && self.merchants@[m as int].dashboard_token_hash@ == key_hash(token@),
                None => forall|m: int|
                    0 <= m < self.merchants@.len() ==> (
                    #[trigger] self.merchants@[m]).dashboard_token_hash@ != key_hash(token@),
            },
    {
        let hash: String = hash_key(token);
        let mut m: usize = 0;
        while m < self.merchants.len()
            invariant
                m <= self.merchants@.len(),
                hash@ == key_hash(token@),
                forall|k: int|
                    0 <= k < m ==> (#[trigger] self.merchants@[k]).dashboard_token_hash@ != hash@,
            decreases self.merchants@.len() - m,
        {
            if text_eq(self.merchants[m].dashboard_token_hash.as_str(), hash.as_str()) {
                return Some(m);
            }
            m = m + 1;
        }
        None
    }

    fn set_token_hash(&mut self, merchant_id: &str, hash: &str)
        ensures
            *final(self) == (Accounts { merchants: final(self).merchants, ..*old(self) }),
            final(self).merchants@.len() == old(self).merchants@.len(),
            forall|i: int|
                0 <= i < old(self).merchants@.len() ==> rekeyed(
                    old(self).merchants@[i],
                    #[trigger] final(self).merchants@[i],
                    merchant_id@,
                    hash@,
                ),
    {
        let ghost before = self.merchants@;
        let n: usize = self.merchants.len();
        let mut done: Vec<Merchant> = Vec::new();
        let mut i: usize = 0;
        while i < n
            invariant
                i <= n,
                n == before.len(),
                done@.len() == i,
                self.merchants@ == before.skip(i as int),
                *self == (Accounts { merchants: self.merchants, ..*old(self) }),
                forall|k: int|
                    0 <= k < i ==> rekeyed(before[k], #[trigger] done@[k], merchant_id@, hash@),
            decreases n - i,
        {
            let mut m: Merchant = self.merchants.remove(0);
            assert(m == before[i as int]);
            assert(self.merchants@ =~= before.skip(i + 1));
            if text_eq(m.id.as_str(), merchant_id) {
                m.dashboard_token_hash = hash.to_string();
            }
            done.push(m);
            i = i + 1;
        }
        self.merchants = done;
    }

    /// Gives a merchant a new dashboard token. It ends all sessions of the
    /// merchant.
    pub fn regenerate_dashboard_token(&mut self, merchant_id: &str) -> (r: String)
        ensures
            is_secret(r@, "cpay_dash_"@),
            old(self).reopened(final(self), merchant_id@, r@),
            *final(self) == (Accounts {
                merchants: final(self).merchants,
                sessions: final(self).sessions,
                ..*old(self)
            }),
    {
        let fresh: FreshSecret = regenerate_dashboard_token();
        self.set_token_hash(merchant_id, fresh.stored.as_str());
        remove_owned(&mut self.sessions, merchant_id);
        fresh.secret
    }

    /// Whether in the second state a token opens the account of a merchant, and
    /// the merchant's sessions are over.
    pub open spec fn reopened(
        &self,
        after: &Accounts,
        merchant_id: Seq<char>,
        token: Seq<char>,
    ) -> bool {
        &&& after.merchants@.len() == self.merchants@.len()
        &&& forall|i: int|
            0 <= i < self.merchants@.len() ==> rekeyed(
                self.merchants@[i],
                #[trigger] after.merchants@[i],
                merchant_id,
                key_hash(token),
            )
        &&& after.sessions@ == others(self.sessions@, merchant_id)
    }

    /// Draws a recovery token for a merchant. It takes the place of earlier
    /// ones.
    pub fn create_recovery_token(&mut self, merchant_id: &str, now: i64) -> (r: String)
        requires
            0 <= now < 5_000_000_000_000,
        ensures
            is_hyphenated(r@),
            *final(self) == (Accounts {
                recovery_tokens: final(self).recovery_tokens,
                ..*old(self)
            }),
            final(self).recovery_tokens@.len() > 0,
            final(self).recovery_tokens@.drop_last() == others(
                old(self).recovery_tokens@,
                merchant_id@,
            ),
            ({
                let t = final(self).recovery_tokens@.last();
                &&& is_hyphenated(t.id@)
                &&& t.merchant_id@ == merchant_id@
                &&& t.token_hash@ == key_hash(r@)
                &&& t.expires_at@ == timestamp_text(now + 3600)
            }),
    {
        let (token, record) = create_recovery_token(merchant_id, now);
        remove_owned(&mut self.recovery_tokens, merchant_id);
        self.recovery_tokens.push(record);
        assert(self.recovery_tokens@.drop_last() =~= others(
            old(self).recovery_tokens@,
            merchant_id@,
        ));
        token
    }

    /// Recovers an account by a recovery token: a new dashboard token takes the
    /// place of the old one, all sessions of the merchant are over, and the
    /// recovery token is used up.
    pub fn confirm_recovery_token(&mut self, token: &str, now: &str) -> (r: Option<String>)
        ensures
            match r {
                None => {
                    &&& *final(self) == *old(self)
                    &&& forall|i: int|
                        0 <= i < old(self).recovery_tokens@.len() ==> !(
                        #[trigger] old(self).recovery_tokens@[i]).accepts(token@, now@)
                },
                Some(fresh) => {
                    &&& is_secret(fresh@, "cpay_dash_"@)
                    &&& old(self).recovered_by(final(self), token@, now@, fresh@)
                },
            },
    {
        let ghost before = *self;
        let mut i: usize = 0;
        while i < self.recovery_tokens.len()
            invariant
                i <= self.recovery_tokens@.len(),
                *self == before,
                before == *old(self),
                forall|k: int|
                    0 <= k < i ==> !(#[trigger] self.recovery_tokens@[k]).accepts(token@, now@),
            decreases self.recovery_tokens@.len() - i,
        {
            match self.recovery_tokens[i].confirm(token, now) {
                Some((merchant_id, fresh)) => {
                    self.set_token_hash(merchant_id.as_str(), fresh.stored.as_str());
                    remove_owned(&mut self.sessions, merchant_id.as_str());
                    let _used: RecoveryToken = self.recovery_tokens.remove(i);
                    assert(before.recovered(self, i as int, token@, now@, fresh.secret@));
                    return Some(fresh.secret);
                },
                None => {},
            }
            i = i + 1;
        }
        None
    }

    /// Whether in the second state the account was recovered by the token at a
    /// place.
    pub open spec fn recovered(
        &self,
        after: &Accounts,
        i: int,
        token: Seq<char>,
        now: Seq<char>,
        fresh: Seq<char>,
    ) -> bool {
        &&& 0 <= i < self.recovery_tokens@.len()
        &&& self.recovery_tokens@[i].accepts(token, now)
        &&& self.reopened(after, self.recovery_tokens@[i].merchant_id@, fresh)
        &&& after.recovery_tokens@ == self.recovery_tokens@.remove(i)
        &&& *after == (Accounts {
            merchants: after.merchants,
            sessions: after.sessions,
            recovery_tokens: after.recovery_tokens,
            ..*self
        })
    }

    /// Whether in the second state an account was recovered by a token.
    pub open spec fn recovered_by(
        &self,
        after: &Accounts,
        token: Seq<char>,
        now: Seq<char>,
        fresh: Seq<char>,
    ) -> bool {
        exists|i: int| #[trigger] self.recovered(after, i, token, now, fresh)
    }

    fn withdraw_products(&mut self, merchant_id: &str)
        ensures
            *final(self) == (Accounts { products: final(self).products, ..*old(self) }),
            final(self).products@.len() == old(self).products@.len(),
            forall|i: int|
                0 <= i < old(self).products@.len() ==> withdrawn(
                    old(self).products@[i],
                    #[trigger] final(self).products@[i],
                    merchant_id@,
                ),
    {
        let ghost before = self.products@;
        let n: usize = self.products.len();
        let mut done: Vec<Product> = Vec::new();
        let mut i: usize = 0;
        while i < n
            invariant
                i <= n,
                n == before.len(),
                done@.len() == i,
                self.products@ == before.skip(i as int),
                *self == (Accounts { products: self.products, ..*old(self) }),
                forall|k: int|
                    0 <= k < i ==> withdrawn(before[k], #[trigger] done@[k], merchant_id@),
            decreases n - i,
        {
            let mut p: Product = self.products.remove(0);
            assert(p == before[i as int]);
            assert(self.products@ =~= before.skip(i + 1));
            if p.is_owned_by(merchant_id) {
                p.active = 0;
            }
            done.push(p);
            i = i + 1;
        }
        self.products = done;
    }

    /// Deletes the account of a merchant with what belongs to it. Its products
    /// stay, but are no longer sold, and so does the memory of which payments
    /// were consumed.
    pub fn delete_merchant(&mut self, merchant_id: &str)
        ensures
            old(self).deleted_to(final(self), merchant_id@),
    {
        remove_payments(&mut self.payments.payments, &self.invoices, merchant_id);
        remove_owned(&mut self.sessions, merchant_id);
        remove_owned(&mut self.recovery_tokens, merchant_id);
        remove_owned(&mut self.fees, merchant_id);
        remove_owned(&mut self.cycles, merchant_id);
        remove_owned(&mut self.invoices, merchant_id);
        self.withdraw_products(merchant_id);
        remove_owned(&mut self.merchants, merchant_id);
    }

    /// Whether the second state is the first one without the account of a
    /// merchant.
    pub open spec fn deleted_to(&self, after: &Accounts, merchant_id: Seq<char>) -> bool {
        &&& after.merchants@ == others(self.merchants@, merchant_id)
        &&& after.sessions@ == others(self.sessions@, merchant_id)
        &&& after.recovery_tokens@ == others(self.recovery_tokens@, merchant_id)
        &&& after.fees@ == others(self.fees@, merchant_id)
        &&& after.cycles@ == others(self.cycles@, merchant_id)
        &&& after.invoices@ == others(self.invoices@, merchant_id)
        &&& after.payments.payments@ == others_payments(
            self.payments.payments@,
            self.invoices@,
            merchant_id,
        )
        &&& after.products@.len() == self.products@.len()
        &&& forall|i: int|
            0 <= i < self.products@.len() ==> withdrawn(
                self.products@[i],
                #[trigger] after.products@[i],
                merchant_id,
            )
        &&& after.ledger == self.ledger
    }
}

proof fn others_belong_to_others<T: Owned>(rows: Seq<T>, merchant_id: Seq<char>, i: int)
    requires
        0 <= i < others(rows, merchant_id).len(),
    ensures
        others(rows, merchant_id)[i].owner() != merchant_id,
    decreases rows.len(),
{
    reveal(Seq::filter);
    if rows.len() > 0 && i < others(rows.drop_last(), merchant_id).len() {
        others_belong_to_others(rows.drop_last(), merchant_id, i);
    }
}

/// A new dashboard token puts everybody out: no session lets into the account
/// any more.
pub proof fn new_token_ends_sessions(
    before: Accounts,
    after: Accounts,
    merchant_id: Seq<char>,
    token: Seq<char>,
    m: int,
    session_id: Seq<char>,
    now: Seq<char>,
)
    requires
        before.reopened(&after, merchant_id, token),
        after.lets_into(m, session_id, now),
    ensures
        after.merchants@[m].id@ != merchant_id,
{
    let i = choose|i: int| #[trigger] after.admits(i, m, session_id, now);
    others_belong_to_others(before.sessions@, merchant_id, i);
}

/// Nobody gets into an account that was deleted: not by a session, and no
/// merchant with its identifier is left.
pub proof fn deleted_account_is_gone(
    before: Accounts,
    after: Accounts,
    merchant_id: Seq<char>,
    m: int,
)
    requires
        before.deleted_to(&after, merchant_id),
        0 <= m < after.merchants@.len(),
    ensures
        after.merchants@[m].id@ != merchant_id,
{
    others_belong_to_others(before.merchants@, merchant_id, m);
}

/// A payment that was consumed stays so when accounts are deleted, so that it
/// cannot be used again from another account.
pub proof fn consumed_payment_outlives_account(
    before: Accounts,
    after: Accounts,
    merchant_id: Seq<char>,
    txid: Seq<char>,
)
    requires
        before.deleted_to(&after, merchant_id),
        before.ledger.is_consumed(txid),
    ensures
        after.ledger.is_consumed(txid),
{
}

/// A session lets into the account it was opened for, until it expires, and into
/// no other.
pub proof fn session_lets_into_its_account(
    accounts: Accounts,
    i: int,
    m: int,
    session_id: Seq<char>,
    now: Seq<char>,
)
    requires
        0 <= i < accounts.sessions@.len(),
        0 <= m < accounts.merchants@.len(),
    ensures
        accounts.sessions@[i].id@ == session_id && lex_less(
            now,
            accounts.sessions@[i].expires_at@,
        ) && accounts.sessions@[i].merchant_id@ == accounts.merchants@[m].id@
            ==> accounts.lets_into(m, session_id, now),
        accounts.lets_into(m, session_id, now) ==> exists|k: int|
            0 <= k < accounts.sessions@.len() && (#[trigger] accounts.sessions@[k]).id@
                == session_id && accounts.sessions@[k].merchant_id@ == accounts.merchants@[m].id@
                && lex_less(now, accounts.sessions@[k].expires_at@),
{
    if accounts.sessions@[i].id@ == session_id && lex_less(now, accounts.sessions@[i].expires_at@)
        && accounts.sessions@[i].merchant_id@ == accounts.merchants@[m].id@ {
        assert(accounts.admits(i, m, session_id, now));
    }
    if accounts.lets_into(m, session_id, now) {
        let k = choose|k: int| #[trigger] accounts.admits(k, m, session_id, now);
        assert(accounts.sessions@[k].id@ == session_id);
    }
}

/// A new token opens its own account and no other, and changes nothing else of
/// any account.
pub proof fn new_token_opens_its_account(
    before: Accounts,
    after: Accounts,
    merchant_id: Seq<char>,
    token: Seq<char>,
    i: int,
)
    requires
        before.reopened(&after, merchant_id, token),
        0 <= i < before.merchants@.len(),
    ensures
        before.merchants@[i].id@ == merchant_id ==> after.merchants@[i].dashboard_token_hash@
            == key_hash(token),
        before.merchants@[i].id@ != merchant_id ==> after.merchants@[i] == before.merchants@[i],
        after.merchants@[i].id == before.merchants@[i].id,
        after.merchants@[i].ufvk == before.merchants@[i].ufvk,
        after.merchants@[i].payment_address == before.merchants@[i].payment_address,
        after.merchants@.len() == before.merchants@.len(),
{
    assert(rekeyed(before.merchants@[i], after.merchants@[i], merchant_id, key_hash(token)));
}

/// A recovery takes a token that was issued and has not expired, uses it up, and
/// leaves the other tokens. The merchant it was issued to gets a new dashboard
/// token, and no other does.
pub proof fn recovery_uses_up_its_token(
    before: Accounts,
    after: Accounts,
    i: int,
    m: int,
    token: Seq<char>,
    now: Seq<char>,
    fresh: Seq<char>,
)
    requires
        before.recovered(&after, i, token, now, fresh),
        0 <= m < before.merchants@.len(),
    ensures
        before.merchants@[m].id@ == before.recovery_tokens@[i].merchant_id@
            ==> after.merchants@[m].dashboard_token_hash@ == key_hash(fresh),
        before.merchants@[m].id@ != before.recovery_tokens@[i].merchant_id@
            ==> after.merchants@[m] == before.merchants@[m],
        before.recovery_tokens@[i].token_hash@ == key_hash(token),
        lex_less(now, before.recovery_tokens@[i].expires_at@),
        after.recovery_tokens@.len() == before.recovery_tokens@.len() - 1,
        forall|k: int|
            0 <= k < i ==> #[trigger] after.recovery_tokens@[k] == before.recovery_tokens@[k],
        forall|k: int|
            i <= k < after.recovery_tokens@.len() ==> #[trigger] after.recovery_tokens@[k]
                == before.recovery_tokens@[k + 1],
        after.invoices == before.invoices && after.products == before.products && after.fees
            == before.fees,
{
    new_token_opens_its_account(
        before,
        after,
        before.recovery_tokens@[i].merchant_id@,
        fresh,
        m,
    );
}

/// Deleting an account removes what is its own and nothing of any other
/// merchant.
pub proof fn deletion_spares_the_others<T: Owned>(rows: Seq<T>, row: T, merchant_id: Seq<char>)
    ensures
        row.owner() != merchant_id && rows.contains(row) ==> others(rows, merchant_id).contains(
            row,
        ),
        row.owner() == merchant_id ==> !others(rows, merchant_id).contains(row),
        others(rows, merchant_id).contains(row) ==> rows.contains(row),
    decreases rows.len(),
{
    reveal(Seq::filter);
    if rows.len() > 0 {
        let rest = rows.drop_last();
        let kept = others(rest, merchant_id);
        let all = others(rows, merchant_id);
        deletion_spares_the_others(rest, row, merchant_id);
        assert(rows[rows.len() - 1] == rows.last());
        assert(all == if rows.last().owner() != merchant_id {
            kept.push(rows.last())
        } else {
            kept
        });
        if rows.contains(row) && row.owner() != merchant_id {
            let i = choose|i: int| 0 <= i < rows.len() && rows[i] == row;
            if i < rest.len() {
                assert(rest[i] == row);
                let k = choose|k: int| 0 <= k < kept.len() && kept[k] == row;
                assert(all[k] == row);
            } else {
                assert(all[all.len() - 1] == row);
            }
        }
        if all.contains(row) {
            let k = choose|k: int| 0 <= k < all.len() && all[k] == row;
            if k < kept.len() {
                assert(kept[k] == row);
                let i = choose|i: int| 0 <= i < rest.len() && rest[i] == row;
                assert(rows[i] == row);
            }
        }
    }
}

/// A deleted merchant's products are off sale, and those of the others stay.
pub proof fn deleted_merchant_sells_nothing(before: Product, after: Product, merchant_id: Seq<char>)
    requires
        withdrawn(before, after, merchant_id),
    ensures
        before.merchant_id@ == merchant_id ==> after.active == 0,
        before.merchant_id@ != merchant_id ==> after == before,
        after.id == before.id && after.name == before.name,
{
}

/// A payment belongs to the merchant whose invoice it paid. Deleting an account
/// removes the payments of its invoices and no other.
pub proof fn payments_go_with_their_invoices(
    payments: Seq<InvoicePayment>,
    invoices: Seq<Invoice>,
    merchant_id: Seq<char>,
    p: InvoicePayment,
)
    ensures
        is_invoice_of(invoices, p.invoice_id@, merchant_id) <==> exists|i: int|
            0 <= i < invoices.len() && (#[trigger] invoices[i]).id@ == p.invoice_id@
                && invoices[i].merchant_id@ == merchant_id,
        is_invoice_of(invoices, p.invoice_id@, merchant_id) ==> others_payments(
            payments.push(p),
            invoices,
            merchant_id,
        ) == others_payments(payments, invoices, merchant_id),
        !is_invoice_of(invoices, p.invoice_id@, merchant_id) ==> others_payments(
            payments.push(p),
            invoices,
            merchant_id,
        ) == others_payments(payments, invoices, merchant_id).push(p),
        others_payments(Seq::<InvoicePayment>::empty(), invoices, merchant_id).len() == 0,
{
    reveal(Seq::filter);
    assert(payments.push(p).drop_last() =~= payments);
}

/// A recovery goes by a token that was issued, is right and has not expired.
pub proof fn recovery_needs_a_token(
    before: Accounts,
    after: Accounts,
    token: Seq<char>,
    now: Seq<char>,
    fresh: Seq<char>,
)
    requires
        before.recovered_by(&after, token, now, fresh),
    ensures
        exists|i: int|
            0 <= i < before.recovery_tokens@.len() && (
            #[trigger] before.recovery_tokens@[i]).token_hash@ == key_hash(token) && lex_less(
                now,
                before.recovery_tokens@[i].expires_at@,
            ),
        after.recovery_tokens@.len() == before.recovery_tokens@.len() - 1,
{
    let i = choose|i: int| #[trigger] before.recovered(&after, i, token, now, fresh);
    assert(before.recovery_tokens@[i].token_hash@ == key_hash(token));
}

/// Deleting an account removes its sessions, its recovery tokens, its fees, its
/// billing cycles and its invoices, and leaves those of every other merchant.
pub proof fn deletion_takes_what_is_its_own(
    before: Accounts,
    after: Accounts,
    merchant_id: Seq<char>,
    s: DashboardSession,
    t: RecoveryToken,
    f: FeeEntry,
    c: BillingCycle,
    v: Invoice,
)
    requires
        before.deleted_to(&after, merchant_id),
        before.sessions@.contains(s),
        before.recovery_tokens@.contains(t),
        before.fees@.contains(f),
        before.cycles@.contains(c),
        before.invoices@.contains(v),
    ensures
        after.sessions@.contains(s) <==> s.merchant_id@ != merchant_id,
        after.recovery_tokens@.contains(t) <==> t.merchant_id@ != merchant_id,
        after.fees@.contains(f) <==> f.merchant_id@ != merchant_id,
        after.cycles@.contains(c) <==> c.merchant_id@ != merchant_id,
        after.invoices@.contains(v) <==> v.merchant_id@ != merchant_id,
        after.ledger == before.ledger,
{
    deletion_spares_the_others(before.sessions@, s, merchant_id);
    deletion_spares_the_others(before.recovery_tokens@, t, merchant_id);
    deletion_spares_the_others(before.fees@, f, merchant_id);
    deletion_spares_the_others(before.cycles@, c, merchant_id);
    deletion_spares_the_others(before.invoices@, v, merchant_id);
}

} // verus!
