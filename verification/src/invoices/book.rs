//! The invoices with the payments that were received for them, and the messages
//! that tell merchants of them. A message is put into the outbox in the same
//! step that changes an invoice, so each change is told once.

use vstd::prelude::*;

use crate::invoices::payments::{total_paid, PaymentLedger};
use crate::invoices::{is_window, Invoice, DETECTED_EXPIRY_MINUTES, UNDERPAID_EXPIRY_MINUTES};
use crate::scanner::detection::{
    apply_payment, confirm_detected, effect_of, exceeds, is_counted, paid_into, received_with,
    same_order, PaymentEffect, Thresholds,
};
use crate::text::text_eq;

verus! {

/// A message that waits to be delivered.
pub struct Message {
    pub invoice_id: String,
    pub event_type: String,
    pub attempts: u32,
}

pub struct InvoiceBook {
    pub invoices: Vec<Invoice>,
    pub ledger: PaymentLedger,
    pub outbox: Vec<Message>,
}

/// The message that the merchant gets of a payment, if one is sent.
pub open spec fn message_of(effect: PaymentEffect) -> Option<Seq<char>> {
    match effect {
        PaymentEffect::Underpaid(_) => Some("underpaid"@),
        PaymentEffect::Detected(_, _) => Some("detected"@),
        PaymentEffect::Confirmed(_, _) => Some("confirmed"@),
        _ => None,
    }
}

proof fn statuses_differ()
    ensures
        "pending"@ != "confirmed"@,
        "underpaid"@ != "confirmed"@,
        "detected"@ != "confirmed"@,
{
    reveal_strlit("pending");
    reveal_strlit("underpaid");
    reveal_strlit("detected");
    reveal_strlit("confirmed");
    assert("pending"@[0] != "confirmed"@[0]);
    assert("underpaid"@[0] != "confirmed"@[0]);
    assert("detected"@[0] != "confirmed"@[0]);
}

impl InvoiceBook {
    /// Whether a message tells that an invoice is confirmed.
    pub open spec fn tells_confirmation(&self, k: int, invoice_id: Seq<char>) -> bool {
        &&& 0 <= k < self.outbox@.len()
        &&& self.outbox@[k].event_type@ == "confirmed"@
        &&& self.outbox@[k].invoice_id@ == invoice_id
    }

    /// What holds at all times: identifiers are unique, each transaction is
    /// counted once, only a confirmed invoice is told to be so, and it is told
    /// once.
    pub open spec fn wf(&self) -> bool {
        &&& self.ledger.wf()
        &&& forall|i: int, j: int|
            0 <= i < j < self.invoices@.len() ==> (#[trigger] self.invoices@[i]).id@ != (
            #[trigger] self.invoices@[j]).id@
        &&& forall|i: int, k: int|
            0 <= i < self.invoices@.len() && #[trigger] self.tells_confirmation(
                k,
                self.invoices@[i].id@,
            ) ==> self.invoices@[i].is("confirmed"@)
        &&& forall|id: Seq<char>, j: int, k: int|
            #[trigger] self.tells_confirmation(j, id) && #[trigger] self.tells_confirmation(k, id)
                ==> j == k
    }

    /// Whether there is an invoice with an identifier at a place.
    pub open spec fn holds(&self, i: int, id: Seq<char>) -> bool {
        0 <= i < self.invoices@.len() && self.invoices@[i].id@ == id
    }

    fn find(&self, id: &str) -> (r: Option<usize>)
        ensures
            match r {
                Some(i) => self.holds(i as int, id@),
                None => forall|i: int| !#[trigger] self.holds(i, id@),
            },
    {
        let mut i: usize = 0;
        while i < self.invoices.len()
            invariant
                i <= self.invoices@.len(),
                forall|k: int| 0 <= k < i ==> !#[trigger] self.holds(k, id@),
            decreases self.invoices@.len() - i,
        {
            if text_eq(self.invoices[i].id.as_str(), id) {
                return Some(i);
            }
            i = i + 1;
        }
        None
    }

    /// Whether in the second state one invoice was changed and a message of it
    /// waits, and nothing else changed.
    pub open spec fn told(&self, after: &InvoiceBook, i: int, event_type: Seq<char>) -> bool {
        &&& 0 <= i < self.invoices@.len()
        &&& after.invoices@ == self.invoices@.update(i, after.invoices@[i])
        &&& after.ledger == self.ledger
        &&& after.outbox@.len() == self.outbox@.len() + 1
        &&& after.outbox@.drop_last() == self.outbox@
        &&& after.outbox@.last().invoice_id@ == self.invoices@[i].id@
        &&& after.outbox@.last().event_type@ == event_type
        &&& after.outbox@.last().attempts == 0
    }

    /// Puts a changed invoice in its place, with a message.
    fn tell(&mut self, i: usize, changed: Invoice, event_type: &str)
        requires
            old(self).wf(),
            i < old(self).invoices@.len(),
            changed.id == old(self).invoices@[i as int].id,
            !old(self).invoices@[i as int].is("confirmed"@),
            changed.is("confirmed"@) || event_type@ != "confirmed"@,
        ensures
            final(self).wf(),
            old(self).told(final(self), i as int, event_type@),
            final(self).invoices@[i as int] == changed,
    {
        let ghost before = *self;
        let invoice_id: String = changed.id.clone();
        self.invoices.set(i, changed);
        self.outbox.push(
            Message { invoice_id, event_type: event_type.to_string(), attempts: 0 },
        );
        proof {
            let n = before.outbox@.len() as int;
            assert(self.outbox@.drop_last() =~= before.outbox@);
            assert(self.invoices@ =~= before.invoices@.update(i as int, self.invoices@[i as int]));
            assert forall|id: Seq<char>, k: int|
                #[trigger] self.tells_confirmation(k, id) && k < n implies before.tells_confirmation(
                k,
                id,
            ) by {
                assert(self.outbox@[k] == before.outbox@[k]);
            }
            assert forall|j: int, k: int|
                0 <= j < self.invoices@.len() && #[trigger] self.tells_confirmation(
                    k,
                    self.invoices@[j].id@,
                ) implies self.invoices@[j].is("confirmed"@) by {
                if k < n {
                    assert(before.tells_confirmation(k, before.invoices@[j].id@));
                }
                if j != i {
                    assert(before.invoices@[j].id@ != before.invoices@[i as int].id@) by {
                        if j < i {
                            assert(before.invoices@[j].id@ != before.invoices@[i as int].id@);
                        } else {
                            assert(before.invoices@[i as int].id@ != before.invoices@[j].id@);
                        }
                    }
                }
            }
            assert forall|id: Seq<char>, j: int, k: int|
                #[trigger] self.tells_confirmation(j, id) && #[trigger] self.tells_confirmation(
                    k,
                    id,
                ) implies j == k by {
                if j < n && k < n {
                    assert(before.tells_confirmation(j, id) && before.tells_confirmation(k, id));
                } else if j < n {
                    assert(before.tells_confirmation(j, before.invoices@[i as int].id@));
                } else if k < n {
                    assert(before.tells_confirmation(k, before.invoices@[i as int].id@));
                }
            }
        }
    }

    /// Puts an invoice in its place whose status is the same.
    fn replace(&mut self, i: usize, changed: Invoice)
        requires
            old(self).wf(),
            i < old(self).invoices@.len(),
            changed.id == old(self).invoices@[i as int].id,
            changed.status == old(self).invoices@[i as int].status,
        ensures
            final(self).wf(),
            final(self).invoices@ == old(self).invoices@.update(i as int, changed),
            final(self).ledger == old(self).ledger,
            final(self).outbox == old(self).outbox,
    {
        let ghost before = *self;
        self.invoices.set(i, changed);
        proof {
            assert forall|k: int, x: Seq<char>|
                #[trigger] self.tells_confirmation(k, x) == before.tells_confirmation(k, x) by {}
            assert forall|j: int, k: int|
                0 <= j < self.invoices@.len() && #[trigger] self.tells_confirmation(
                    k,
                    self.invoices@[j].id@,
                ) implies self.invoices@[j].is("confirmed"@) by {
                assert(before.tells_confirmation(k, before.invoices@[j].id@));
            }
        }
    }

    /// Records what a transaction paid for an invoice, unless it was recorded
    /// before. Gives what was paid for the invoice in all.
    pub fn record_payment(&mut self, invoice_id: &str, txid: &str, zatoshis: i64) -> (r: i64)
        requires
            old(self).wf(),
            zatoshis >= 0,
            total_paid(old(self).ledger.payments@, invoice_id@) + zatoshis <= i64::MAX,
        ensures
            final(self).wf(),
            final(self).invoices == old(self).invoices,
            final(self).outbox == old(self).outbox,
            old(self).ledger.recorded_into(&final(self).ledger, invoice_id@, txid@, zatoshis),
            final(self).ledger.is_recorded(invoice_id@, txid@),
            r == total_paid(final(self).ledger.payments@, invoice_id@),
            r == total_paid(old(self).ledger.payments@, invoice_id@) + if old(
                self,
            ).ledger.is_recorded(invoice_id@, txid@) {
                0
            } else {
                zatoshis as int
            },
    {
        let ghost before = *self;
        let r: i64 = self.ledger.record_payment(invoice_id, txid, zatoshis);
        proof {
            assert forall|k: int, id: Seq<char>|
                #[trigger] self.tells_confirmation(k, id) == before.tells_confirmation(k, id) by {}
        }
        r
    }

    /// Whether the second state is the first one once a payment had its effect
    /// on an invoice: the invoice is changed, the payment is in the ledger where
    /// it counts, and a message waits where the status changed.
    pub open spec fn paid(
        &self,
        after: &InvoiceBook,
        i: int,
        effect: PaymentEffect,
        txid: Seq<char>,
        tx_total: i64,
        now: i64,
    ) -> bool {
        let id = self.invoices@[i].id@;
        &&& after.invoices@ == self.invoices@.update(i, after.invoices@[i])
        &&& paid_into(&self.invoices@[i], &after.invoices@[i], effect, txid, now)
        &&& same_order(&self.invoices@[i], &after.invoices@[i])
        &&& if is_counted(effect) {
            self.ledger.recorded_into(&after.ledger, id, txid, tx_total)
        } else {
            after.ledger == self.ledger
        }
        &&& match message_of(effect) {
            Some(event_type) => {
                &&& after.outbox@.len() == self.outbox@.len() + 1
                &&& after.outbox@.drop_last() == self.outbox@
                &&& after.outbox@.last().invoice_id@ == id
                &&& after.outbox@.last().event_type@ == event_type
                &&& after.outbox@.last().attempts == 0
            },
            None => after.outbox == self.outbox,
        }
    }

    /// Whether what a transaction pays on an invoice can be counted.
    pub open spec fn can_count(&self, id: Seq<char>, tx_total: i64) -> bool {
        &&& total_paid(self.ledger.payments@, id) + tx_total <= i64::MAX
        &&& forall|i: int| #[trigger]
            self.holds(i, id) ==> received_with(&self.invoices@[i], tx_total) <= i64::MAX
    }

    /// Counts what a transaction pays on an invoice: the invoice, the ledger
    /// and the outbox change in one step. Gives what the payment did, or
    /// nothing where there is no such invoice.
    pub fn take_payment(
        &mut self,
        id: &str,
        txid: &str,
        tx_total: i64,
        t: Thresholds,
        in_block: bool,
        now: i64,
    ) -> (r: Option<PaymentEffect>)
        requires
            old(self).wf(),
            is_window(now, 30),
            tx_total >= 0,
            old(self).can_count(id@, tx_total),
        ensures
            final(self).wf(),
            r is None <==> forall|i: int| !#[trigger] old(self).holds(i, id@),
            r is None ==> *final(self) == *old(self),
            forall|i: int| #[trigger]
                old(self).holds(i, id@) ==> r == Some(
                    effect_of(
                        &old(self).invoices@[i],
                        old(self).ledger.is_recorded(id@, txid@),
                        tx_total,
                        t,
                        in_block,
                    ),
                ) && old(self).paid(final(self), i, r->0, txid@, tx_total, now),
    {
        let i: usize = match self.find(id) {
            Some(i) => i,
            None => {
                return None;
            },
        };
        let ghost before = *self;
        assert(self.holds(i as int, id@));
        let mut inv: Invoice = self.invoices[i].copy();
        let effect: PaymentEffect = apply_payment(
            &mut inv,
            &mut self.ledger,
            txid,
            tx_total,
            t,
            in_block,
            now,
        );
        proof {
            statuses_differ();
            assert forall|k: int, x: Seq<char>|
                #[trigger] self.tells_confirmation(k, x) == before.tells_confirmation(k, x) by {}
            assert(self.wf());
            assert forall|k: int| #[trigger] before.holds(k, id@) implies k == i by {
                if k < i {
                    assert(before.invoices@[k].id@ != before.invoices@[i as int].id@);
                } else if k > i {
                    assert(before.invoices@[i as int].id@ != before.invoices@[k].id@);
                }
            }
        }
        match effect {
            PaymentEffect::Underpaid(_) => {
                self.tell(i, inv, "underpaid");
            },
            PaymentEffect::Detected(_, _) => {
                self.tell(i, inv, "detected");
            },
            PaymentEffect::Confirmed(_, _) => {
                self.tell(i, inv, "confirmed");
            },
            PaymentEffect::PartAdded(_) => {
                self.replace(i, inv);
            },
            PaymentEffect::Dust | PaymentEffect::Unchanged => {
                assert(self.invoices@ =~= before.invoices@.update(i as int, inv));
            },
        }
        Some(effect)
    }

    /// Notes that a part of an invoice was paid, and tells the merchant. Gives
    /// whether the invoice was still unpaid.
    pub fn mark_underpaid(&mut self, id: &str, received: i64, txid: &str, now: i64) -> (r: bool)
        requires
            old(self).wf(),
            is_window(now, UNDERPAID_EXPIRY_MINUTES),
        ensures
            final(self).wf(),
            r <==> exists|i: int|
                #[trigger] old(self).holds(i, id@) && old(self).invoices@[i].is("pending"@),
            !r ==> *final(self) == *old(self),
            forall|i: int| r && #[trigger] old(self).holds(i, id@) ==> old(self).told(
                final(self),
                i,
                "underpaid"@,
            ) && old(self).invoices@[i].underpaid_as(
                &final(self).invoices@[i],
                txid@,
                received,
                now,
            ),
    {
        proof {
            statuses_differ();
        }
        match self.find(id) {
            Some(i) => {
                assert(self.holds(i as int, id@));
                let mut inv: Invoice = self.invoices[i].copy();
                if inv.mark_underpaid(received, txid, now) {
                    self.tell(i, inv, "underpaid");
                    true
                } else {
                    false
                }
            },
            None => false,
        }
    }

    /// Notes that an invoice is paid, and tells the merchant. Gives whether it
    /// was not paid before.
    pub fn mark_detected(&mut self, id: &str, txid: &str, received: i64, now: i64) -> (r: bool)
        requires
            old(self).wf(),
            is_window(now, DETECTED_EXPIRY_MINUTES),
        ensures
            final(self).wf(),
            r <==> exists|i: int|
                #[trigger] old(self).holds(i, id@) && (old(self).invoices@[i].is("pending"@) || old(
                    self,
                ).invoices@[i].is("underpaid"@)),
            !r ==> *final(self) == *old(self),
            forall|i: int| r && #[trigger] old(self).holds(i, id@) ==> old(self).told(
                final(self),
                i,
                "detected"@,
            ) && old(self).invoices@[i].detected_as(
                &final(self).invoices@[i],
                txid@,
                received,
                now,
            ),
    {
        proof {
            statuses_differ();
        }
        match self.find(id) {
            Some(i) => {
                assert(self.holds(i as int, id@));
                let mut inv: Invoice = self.invoices[i].copy();
                if inv.mark_detected(txid, received, now) {
                    self.tell(i, inv, "detected");
                    true
                } else {
                    false
                }
            },
            None => false,
        }
    }

    /// Notes that the payment of an invoice is in the chain, and tells the
    /// merchant. Gives whether the status changed.
    pub fn mark_confirmed(&mut self, id: &str, now: i64) -> (r: bool)
        requires
            old(self).wf(),
            is_window(now, 0),
        ensures
            final(self).wf(),
            r <==> exists|i: int|
                #[trigger] old(self).holds(i, id@) && old(self).invoices@[i].is("detected"@),
            !r ==> *final(self) == *old(self),
            forall|i: int| r && #[trigger] old(self).holds(i, id@) ==> old(self).told(
                final(self),
                i,
                "confirmed"@,
            ) && old(self).invoices@[i].confirmed_as(&final(self).invoices@[i], now),
    {
        proof {
            statuses_differ();
        }
        match self.find(id) {
            Some(i) => {
                assert(self.holds(i as int, id@));
                let mut inv: Invoice = self.invoices[i].copy();
                if inv.mark_confirmed(now) {
                    self.tell(i, inv, "confirmed");
                    true
                } else {
                    false
                }
            },
            None => false,
        }
    }

    /// Confirms an invoice whose payment was detected, where its transaction is
    /// in a block, and tells the merchant. Gives what was received, and whether
    /// it was too much.
    pub fn confirm_detected(&mut self, id: &str, in_block: bool, now: i64) -> (r: Option<
        (i64, bool),
    >)
        requires
            old(self).wf(),
            is_window(now, 0),
        ensures
            final(self).wf(),
            r is Some <==> exists|i: int|
                #[trigger] old(self).holds(i, id@) && in_block && old(self).invoices@[i].is(
                    "detected"@,
                ) && old(self).invoices@[i].detected_txid is Some,
            r is None ==> *final(self) == *old(self),
            forall|i: int| r is Some && #[trigger] old(self).holds(i, id@) ==> {
                let inv = old(self).invoices@[i];
                &&& r == Some(
                    (
                        inv.received_zatoshis,
                        exceeds(inv.received_zatoshis as int, inv.price_zatoshis as int),
                    ),
                )
                &&& old(self).told(final(self), i, "confirmed"@)
                &&& inv.confirmed_as(&final(self).invoices@[i], now)
            },
    {
        proof {
            statuses_differ();
        }
        match self.find(id) {
            Some(i) => {
                let ghost before = *self;
                assert(self.holds(i as int, id@));
                assert forall|k: int| #[trigger] before.holds(k, id@) implies k == i by {
                    if k < i {
                        assert(before.invoices@[k].id@ != before.invoices@[i as int].id@);
                    } else if k > i {
                        assert(before.invoices@[i as int].id@ != before.invoices@[k].id@);
                    }
                }
                let mut inv: Invoice = self.invoices[i].copy();
                let r: Option<(i64, bool)> = confirm_detected(&mut inv, in_block, now);
                if r.is_some() {
                    self.tell(i, inv, "confirmed");
                }
                r
            },
            None => None,
        }
    }
}

/// However often a payment is seen in the chain, a merchant is told once that
/// an invoice is confirmed.
pub proof fn confirmation_is_told_once(book: InvoiceBook, id: Seq<char>, j: int, k: int)
    requires
        book.wf(),
        book.tells_confirmation(j, id),
        book.tells_confirmation(k, id),
    ensures
        j == k,
{
}

/// A merchant is told of a confirmation only where there is one.
pub proof fn only_confirmed_is_told(book: InvoiceBook, i: int, k: int)
    requires
        book.wf(),
        0 <= i < book.invoices@.len(),
        book.tells_confirmation(k, book.invoices@[i].id@),
    ensures
        book.invoices@[i].is("confirmed"@),
{
}

/// A merchant is told of a payment by the status that it gave the invoice, and
/// of nothing else.
pub proof fn message_names_the_new_status(effect: PaymentEffect)
    ensures
        effect is Underpaid <==> message_of(effect) == Some("underpaid"@),
        effect is Detected <==> message_of(effect) == Some("detected"@),
        effect is Confirmed <==> message_of(effect) == Some("confirmed"@),
        message_of(effect) is None <==> !(effect is Underpaid) && !(effect is Detected) && !(
        effect is Confirmed),
{
    reveal_strlit("underpaid");
    reveal_strlit("detected");
    reveal_strlit("confirmed");
    assert("underpaid"@[0] == 'u' && "detected"@[0] == 'd' && "confirmed"@[0] == 'c');
}

/// Telling a merchant adds one message, for that invoice and not yet sent, and
/// touches no other invoice and no payment.
pub proof fn telling_adds_one_message(
    before: InvoiceBook,
    after: InvoiceBook,
    i: int,
    k: int,
    event_type: Seq<char>,
)
    requires
        before.told(&after, i, event_type),
        0 <= k < before.invoices@.len(),
        k != i,
    ensures
        after.invoices@[k] == before.invoices@[k],
        after.invoices@.len() == before.invoices@.len(),
        after.outbox@.len() == before.outbox@.len() + 1,
        after.outbox@.last().invoice_id@ == before.invoices@[i].id@,
        after.outbox@.last().event_type@ == event_type,
        after.outbox@.last().attempts == 0,
        forall|m: int|
            0 <= m < before.outbox@.len() ==> #[trigger] after.outbox@[m] == before.outbox@[m],
        after.ledger == before.ledger,
{
    assert(after.invoices@[k] == before.invoices@.update(i, after.invoices@[i])[k]);
    assert forall|m: int| 0 <= m < before.outbox@.len() implies #[trigger] after.outbox@[m]
        == before.outbox@[m] by {
        assert(after.outbox@.drop_last()[m] == before.outbox@[m]);
    }
}

/// A payment touches its own invoice only. It is recorded where it counts, and
/// the merchant gets one message where the status changed, and none where it
/// did not.
pub proof fn payment_is_recorded_and_told(
    before: InvoiceBook,
    after: InvoiceBook,
    i: int,
    k: int,
    effect: PaymentEffect,
    txid: Seq<char>,
    tx_total: i64,
    now: i64,
)
    requires
        before.paid(&after, i, effect, txid, tx_total, now),
        0 <= i < before.invoices@.len(),
        0 <= k < before.invoices@.len(),
    ensures
        after.invoices@.len() == before.invoices@.len(),
        k != i ==> after.invoices@[k] == before.invoices@[k],
        after.invoices@[i].id == before.invoices@[i].id && after.invoices@[i].price_zatoshis
            == before.invoices@[i].price_zatoshis,
        effect is Dust || effect is Unchanged ==> after.invoices@[i] == before.invoices@[i]
            && after.ledger == before.ledger && after.outbox == before.outbox,
        effect is PartAdded ==> after.outbox == before.outbox,
        effect is Underpaid || effect is PartAdded || effect is Detected || effect is Confirmed
            ==> after.ledger.is_recorded(before.invoices@[i].id@, txid),
        effect is Underpaid || effect is Detected || effect is Confirmed ==> {
            let m = after.outbox@.last();
            &&& after.outbox@.len() == before.outbox@.len() + 1
            &&& m.invoice_id@ == before.invoices@[i].id@
            &&& m.event_type@ == after.invoices@[i].status@
            &&& m.attempts == 0
        },
{
    assert(after.invoices@[k] == before.invoices@.update(i, after.invoices@[i])[k]);
    if is_counted(effect) {
        crate::invoices::payments::payment_is_recorded_once(
            before.ledger,
            after.ledger,
            before.invoices@[i].id@,
            txid,
            tx_total,
        );
    }
}

} // verus!
