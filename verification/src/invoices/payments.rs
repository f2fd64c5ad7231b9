//! The payments that were received for invoices. Each transaction counts once
//! for an invoice, however often it is seen.

use vstd::prelude::*;

use crate::text::text_eq;

verus! {

/// What a transaction paid for an invoice.
pub struct InvoicePayment {
    pub invoice_id: String,
    pub txid: String,
    pub zatoshis: i64,
}

pub struct PaymentLedger {
    pub payments: Vec<InvoicePayment>,
}

/// The sum of what was paid for an invoice.
pub open spec fn total_paid(payments: Seq<InvoicePayment>, invoice_id: Seq<char>) -> int
    decreases payments.len(),
{
    if payments.len() == 0 {
        0
    } else {
        total_paid(payments.drop_last(), invoice_id) + if payments.last().invoice_id@
            == invoice_id {
            payments.last().zatoshis as int
        } else {
            0
        }
    }
}

impl PaymentLedger {
    /// Whether a transaction was counted for an invoice.
    pub open spec fn is_recorded(&self, invoice_id: Seq<char>, txid: Seq<char>) -> bool {
        exists|i: int|
            0 <= i < self.payments@.len() && (#[trigger] self.payments@[i]).invoice_id@
                == invoice_id && self.payments@[i].txid@ == txid
    }

    /// What holds at all times: a transaction is counted once for an invoice,
    /// and no amount is negative.
    pub open spec fn wf(&self) -> bool {
        &&& forall|i: int, j: int|
            0 <= i < j < self.payments@.len() ==> !((#[trigger] self.payments@[i]).invoice_id@ == (
            #[trigger] self.payments@[j]).invoice_id@ && self.payments@[i].txid@
                == self.payments@[j].txid@)
        &&& forall|i: int| 0 <= i < self.payments@.len() ==> (#[trigger] self.payments@[i]).zatoshis
            >= 0
    }

    /// Whether the second ledger is the first one once a transaction was
    /// recorded for an invoice: it is the same where the transaction was
    /// recorded before, and otherwise has one more entry at its end.
    pub open spec fn recorded_into(
        &self,
        after: &PaymentLedger,
        invoice_id: Seq<char>,
        txid: Seq<char>,
        zatoshis: i64,
    ) -> bool {
        if self.is_recorded(invoice_id, txid) {
            *after == *self
        } else {
            let p = after.payments@.last();
            &&& after.payments@.len() == self.payments@.len() + 1
            &&& after.payments@.drop_last() == self.payments@
            &&& p.invoice_id@ == invoice_id
            &&& p.txid@ == txid
            &&& p.zatoshis == zatoshis
        }
    }

    pub fn new() -> (r: PaymentLedger)
        ensures
            r.wf(),
            r.payments@.len() == 0,
    {
        PaymentLedger { payments: Vec::new() }
    }

    /// Whether a transaction was counted for an invoice.
    pub fn recorded(&self, invoice_id: &str, txid: &str) -> (r: bool)
        ensures
            r == self.is_recorded(invoice_id@, txid@),
    {
        let mut i: usize = 0;
        while i < self.payments.len()
            invariant
                i <= self.payments@.len(),
                forall|k: int|
                    0 <= k < i ==> !((#[trigger] self.payments@[k]).invoice_id@ == invoice_id@
                        && self.payments@[k].txid@ == txid@),
            decreases self.payments@.len() - i,
        {
            if text_eq(self.payments[i].invoice_id.as_str(), invoice_id) && text_eq(
                self.payments[i].txid.as_str(),
                txid,
            ) {
                return true;
            }
            i = i + 1;
        }
        false
    }

    fn sum(&self, invoice_id: &str) -> (r: i64)
        requires
            self.wf(),
            total_paid(self.payments@, invoice_id@) <= i64::MAX,
        ensures
            r == total_paid(self.payments@, invoice_id@),
    {
        let mut total: i64 = 0;
        let mut i: usize = 0;
        assert(self.payments@.take(0).len() == 0);
        while i < self.payments.len()
            invariant
                i <= self.payments@.len(),
                self.wf(),
                total_paid(self.payments@, invoice_id@) <= i64::MAX,
                total == total_paid(self.payments@.take(i as int), invoice_id@),
                total >= 0,
            decreases self.payments@.len() - i,
        {
            proof {
                let next = self.payments@.take(i + 1);
                assert(next.drop_last() =~= self.payments@.take(i as int));
                assert(next.last() == self.payments@[i as int]);
                total_grows(self.payments@, invoice_id@, i + 1);
                assert(self.payments@[i as int].zatoshis >= 0);
            }
            if text_eq(self.payments[i].invoice_id.as_str(), invoice_id) {
                total = total + self.payments[i].zatoshis;
            }
            i = i + 1;
        }
        assert(self.payments@.take(i as int) =~= self.payments@);
        total
    }

    /// Records what a transaction paid for an invoice, unless it was recorded
    /// before. Gives what was paid for the invoice in all.
    pub fn record_payment(&mut self, invoice_id: &str, txid: &str, zatoshis: i64) -> (r: i64)
        requires
            old(self).wf(),
            zatoshis >= 0,
            total_paid(old(self).payments@, invoice_id@) + zatoshis <= i64::MAX,
        ensures
            final(self).wf(),
            r == total_paid(final(self).payments@, invoice_id@),
            old(self).recorded_into(final(self), invoice_id@, txid@, zatoshis),
            final(self).is_recorded(invoice_id@, txid@),
            r == total_paid(old(self).payments@, invoice_id@) + if old(self).is_recorded(
                invoice_id@,
                txid@,
            ) {
                0
            } else {
                zatoshis as int
            },
    {
        if !self.recorded(invoice_id, txid) {
            let ghost before = *self;
            self.payments.push(
                InvoicePayment {
                    invoice_id: invoice_id.to_string(),
                    txid: txid.to_string(),
                    zatoshis,
                },
            );
            proof {
                assert(self.payments@.drop_last() =~= before.payments@);
                assert forall|i: int, j: int| 0 <= i < j < self.payments@.len() implies !((
                #[trigger] self.payments@[i]).invoice_id@ == (
                #[trigger] self.payments@[j]).invoice_id@ && self.payments@[i].txid@
                    == self.payments@[j].txid@) by {
                    assert(self.payments@[i] == before.payments@[i]);
                    if j < before.payments@.len() {
                        assert(self.payments@[j] == before.payments@[j]);
                    }
                }
                assert forall|i: int| 0 <= i < self.payments@.len() implies (
                #[trigger] self.payments@[i]).zatoshis >= 0 by {
                    if i < before.payments@.len() {
                        assert(self.payments@[i] == before.payments@[i]);
                    }
                }
                let last = self.payments@.len() - 1;
                assert(self.payments@[last].invoice_id@ == invoice_id@);
            }
        }
        self.sum(invoice_id)
    }
}

proof fn total_grows(payments: Seq<InvoicePayment>, invoice_id: Seq<char>, n: int)
    requires
        0 <= n <= payments.len(),
        forall|i: int| 0 <= i < payments.len() ==> (#[trigger] payments[i]).zatoshis >= 0,
    ensures
        total_paid(payments.take(n), invoice_id) <= total_paid(payments, invoice_id),
    decreases payments.len() - n,
{
    if n < payments.len() {
        total_grows(payments, invoice_id, n + 1);
        assert(payments.take(n + 1).drop_last() =~= payments.take(n));
        assert(payments.take(n + 1).last() == payments[n]);
    } else {
        assert(payments.take(n) =~= payments);
    }
}

/// However often a transaction is recorded for an invoice, it counts once, with
/// the amount that was recorded first.
pub proof fn transaction_counts_once(
    before: PaymentLedger,
    first: PaymentLedger,
    second: PaymentLedger,
    invoice_id: Seq<char>,
    txid: Seq<char>,
    zatoshis: i64,
    again: i64,
)
    requires
        before.recorded_into(&first, invoice_id, txid, zatoshis),
        first.recorded_into(&second, invoice_id, txid, again),
    ensures
        second == first,
{
    if !before.is_recorded(invoice_id, txid) {
        let last = first.payments@.len() - 1;
        assert(first.payments@[last].invoice_id@ == invoice_id);
        assert(first.is_recorded(invoice_id, txid));
    }
}

/// A payment that is recorded for one invoice changes nothing for another one.
pub proof fn invoices_are_counted_apart(
    before: PaymentLedger,
    after: PaymentLedger,
    invoice_id: Seq<char>,
    txid: Seq<char>,
    zatoshis: i64,
    other: Seq<char>,
)
    requires
        before.recorded_into(&after, invoice_id, txid, zatoshis),
        invoice_id != other,
    ensures
        total_paid(after.payments@, other) == total_paid(before.payments@, other),
{
}

/// A payment adds its amount to its own invoice, and nothing to any other.
pub proof fn payment_adds_to_its_invoice(
    payments: Seq<InvoicePayment>,
    p: InvoicePayment,
    invoice_id: Seq<char>,
)
    ensures
        total_paid(Seq::<InvoicePayment>::empty(), invoice_id) == 0,
        p.invoice_id@ == invoice_id ==> total_paid(payments.push(p), invoice_id) == total_paid(
            payments,
            invoice_id,
        ) + p.zatoshis,
        p.invoice_id@ != invoice_id ==> total_paid(payments.push(p), invoice_id) == total_paid(
            payments,
            invoice_id,
        ),
{
    assert(payments.push(p).drop_last() =~= payments);
}

/// A transaction that was not recorded for the invoice is recorded now, with its
/// amount and as the last; one that was changes nothing, whatever it pays.
pub proof fn payment_is_recorded_once(
    before: PaymentLedger,
    after: PaymentLedger,
    invoice_id: Seq<char>,
    txid: Seq<char>,
    zatoshis: i64,
)
    requires
        before.recorded_into(&after, invoice_id, txid, zatoshis),
    ensures
        after.is_recorded(invoice_id, txid),
        before.is_recorded(invoice_id, txid) ==> after == before,
        !before.is_recorded(invoice_id, txid) ==> {
            &&& after.payments@.len() == before.payments@.len() + 1
            &&& after.payments@.last().zatoshis == zatoshis
            &&& total_paid(after.payments@, invoice_id) == total_paid(before.payments@, invoice_id)
                + zatoshis
        },
{
    if !before.is_recorded(invoice_id, txid) {
        let p = after.payments@;
        assert(p[p.len() - 1].txid@ == txid);
    }
}

/// What is recorded is one payment of that transaction for that invoice: the
/// same transaction may still pay another invoice.
pub proof fn record_names_both(ledger: PaymentLedger, invoice_id: Seq<char>, txid: Seq<char>)
    ensures
        ledger.is_recorded(invoice_id, txid) ==> exists|i: int|
            0 <= i < ledger.payments@.len() && (#[trigger] ledger.payments@[i]).invoice_id@
                == invoice_id && ledger.payments@[i].txid@ == txid,
        (forall|i: int|
            0 <= i < ledger.payments@.len() ==> (#[trigger] ledger.payments@[i]).invoice_id@
                != invoice_id || ledger.payments@[i].txid@ != txid) ==> !ledger.is_recorded(
            invoice_id,
            txid,
        ),
{
}

} // verus!
