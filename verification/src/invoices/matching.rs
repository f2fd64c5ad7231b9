//! Finding the invoice that a decrypted output pays.

use vstd::prelude::*;

use crate::addresses::{orchard_receiver, receiver_of};
use crate::invoices::Invoice;
use crate::text::{opt_str, opt_text, text_eq, trim, trimmed};

verus! {

/// Invoices by what identifies a payment: the merchant whose key decrypted it
/// and the receiver that it went to. Older invoices share an address and need
/// their memo code as well.
pub struct InvoiceIndex<'a> {
    invoices: &'a [Invoice],
    legacy: Vec<(usize, String)>,
}

/// Whether an invoice may be paid through a key: through that of its merchant,
/// or through that of the platform, for which no merchant is given.
pub open spec fn owned_by(inv: &Invoice, who: Option<Seq<char>>) -> bool {
    who matches Some(m) ==> inv.merchant_id@ == m
}

/// Whether a payment to a receiver pays an invoice with an address of its own.
pub open spec fn pays_address(
    inv: &Invoice,
    who: Option<Seq<char>>,
    recipient_hex: Seq<char>,
) -> bool {
    owned_by(inv, who) && opt_text(inv.orchard_receiver_hex) == Some(recipient_hex)
}

/// Whether a payment with a memo pays an invoice on a shared address: the memo
/// is its code exactly.
pub open spec fn pays_memo(
    inv: &Invoice,
    who: Option<Seq<char>>,
    recipient_hex: Seq<char>,
    memo: Seq<char>,
) -> bool {
    &&& inv.orchard_receiver_hex is None
    &&& receiver_of(inv.payment_address@) == Some(recipient_hex)
    &&& owned_by(inv, who)
    &&& trimmed(memo).len() > 0
    &&& inv.memo_code@ == trimmed(memo)
}

/// The places of the invoices on a shared address among the first `n`, with
/// the receiver of the address.
pub open spec fn legacy_of(invoices: Seq<Invoice>, n: int) -> Seq<(int, Seq<char>)>
    decreases n,
{
    if n <= 0 {
        Seq::empty()
    } else {
        let earlier = legacy_of(invoices, n - 1);
        match receiver_of(invoices[n - 1].payment_address@) {
            Some(receiver) if invoices[n - 1].orchard_receiver_hex is None => earlier.push(
                (n - 1, receiver),
            ),
            _ => earlier,
        }
    }
}

pub open spec fn legacy_view(legacy: Seq<(usize, String)>) -> Seq<(int, Seq<char>)> {
    legacy.map_values(|p: (usize, String)| (p.0 as int, p.1@))
}

proof fn legacy_sound(invoices: Seq<Invoice>, n: int, k: int)
    requires
        0 <= n <= invoices.len(),
        0 <= k < legacy_of(invoices, n).len(),
    ensures
        0 <= legacy_of(invoices, n)[k].0 < n,
        invoices[legacy_of(invoices, n)[k].0].orchard_receiver_hex is None,
        receiver_of(invoices[legacy_of(invoices, n)[k].0].payment_address@) == Some(
            legacy_of(invoices, n)[k].1,
        ),
    decreases n,
{
    if k < legacy_of(invoices, n - 1).len() {
        legacy_sound(invoices, n - 1, k);
    }
}

proof fn legacy_complete(invoices: Seq<Invoice>, n: int, i: int) -> (k: int)
    requires
        0 <= i < n <= invoices.len(),
        invoices[i].orchard_receiver_hex is None,
        receiver_of(invoices[i].payment_address@) is Some,
    ensures
        0 <= k < legacy_of(invoices, n).len(),
        legacy_of(invoices, n)[k].0 == i,
    decreases n,
{
    if i == n - 1 {
        legacy_of(invoices, n - 1).len() as int
    } else {
        legacy_complete(invoices, n - 1, i)
    }
}

proof fn legacy_ordered(invoices: Seq<Invoice>, n: int, a: int, b: int)
    requires
        0 <= n <= invoices.len(),
        0 <= a < b < legacy_of(invoices, n).len(),
    ensures
        legacy_of(invoices, n)[a].0 < legacy_of(invoices, n)[b].0,
    decreases n,
{
    if b < legacy_of(invoices, n - 1).len() {
        legacy_ordered(invoices, n - 1, a, b);
    } else {
        legacy_sound(invoices, n - 1, a);
    }
}

/// Whether `i` is the place of the invoice that a payment pays: the last one
/// with the address, or else the first one with the shared address and memo.
pub open spec fn is_match(
    invoices: Seq<Invoice>,
    i: int,
    who: Option<Seq<char>>,
    recipient_hex: Seq<char>,
    memo: Seq<char>,
) -> bool {
    &&& 0 <= i < invoices.len()
    &&& if pays_address(&invoices[i], who, recipient_hex) {
        forall|k: int|
            i < k < invoices.len() ==> !pays_address(
                #[trigger] &invoices[k],
                who,
                recipient_hex,
            )
    } else {
        &&& pays_memo(&invoices[i], who, recipient_hex, memo)
        &&& forall|k: int|
            0 <= k < invoices.len() ==> !pays_address(
                #[trigger] &invoices[k],
                who,
                recipient_hex,
            )
        &&& forall|k: int|
            0 <= k < i ==> !pays_memo(
                #[trigger] &invoices[k],
                who,
                recipient_hex,
                memo,
            )
    }
}

/// Whether a search gave the invoice that a payment pays, or nothing where it
/// pays none.
pub open spec fn found(
    invoices: Seq<Invoice>,
    r: Option<&Invoice>,
    who: Option<Seq<char>>,
    recipient_hex: Seq<char>,
    memo: Seq<char>,
) -> bool {
    match r {
        Some(inv) => exists|i: int|
            #[trigger] is_match(invoices, i, who, recipient_hex, memo) && *inv == invoices[i],
        None => forall|k: int|
            0 <= k < invoices.len() ==> !pays_address(#[trigger] &invoices[k], who, recipient_hex)
                && !pays_memo(&invoices[k], who, recipient_hex, memo),
    }
}

/// The place of the invoice that a payment pays, if it pays one.
pub open spec fn match_of(
    invoices: Seq<Invoice>,
    who: Option<Seq<char>>,
    recipient_hex: Seq<char>,
    memo: Seq<char>,
) -> Option<int> {
    if exists|i: int| is_match(invoices, i, who, recipient_hex, memo) {
        Some(choose|i: int| is_match(invoices, i, who, recipient_hex, memo))
    } else {
        None
    }
}

/// A payment pays at most one invoice.
pub proof fn match_is_unique(
    invoices: Seq<Invoice>,
    i: int,
    j: int,
    who: Option<Seq<char>>,
    recipient_hex: Seq<char>,
    memo: Seq<char>,
)
    requires
        is_match(invoices, i, who, recipient_hex, memo),
        is_match(invoices, j, who, recipient_hex, memo),
    ensures
        i == j,
{
    assert(pays_address(&invoices[i], who, recipient_hex) == pays_address(
        &invoices[j],
        who,
        recipient_hex,
    ));
}

fn owned(inv: &Invoice, who: Option<&str>) -> (r: bool)
    ensures
        r == owned_by(inv, opt_str(who)),
{
    match who {
        Some(m) => text_eq(inv.merchant_id.as_str(), m),
        None => true,
    }
}

impl<'a> InvoiceIndex<'a> {
    /// The invoices that were indexed.
    pub closed spec fn indexed(&self) -> Seq<Invoice> {
        self.invoices@
    }

    pub closed spec fn wf(&self) -> bool {
        legacy_view(self.legacy@) == legacy_of(self.invoices@, self.invoices@.len() as int)
    }

    /// Indexes invoices.
    pub fn build(invoices: &'a [Invoice]) -> (r: InvoiceIndex<'a>)
        ensures
            r.wf(),
            r.indexed() == invoices@,
    {
        let mut legacy: Vec<(usize, String)> = Vec::new();
        let mut i: usize = 0;
        assert(legacy_view(legacy@) =~= Seq::<(int, Seq<char>)>::empty());
        while i < invoices.len()
            invariant
                i <= invoices@.len(),
                legacy_view(legacy@) == legacy_of(invoices@, i as int),
            decreases invoices@.len() - i,
        {
            if invoices[i].orchard_receiver_hex.is_none() {
                match orchard_receiver(invoices[i].payment_address.as_str()) {
                    Some(receiver) => {
                        let ghost before = legacy@;
                        legacy.push((i, receiver));
                        assert(legacy_view(legacy@) =~= legacy_view(before).push(
                            (i as int, receiver@),
                        ));
                    },
                    None => {},
                }
            }
            i = i + 1;
        }
        InvoiceIndex { invoices, legacy }
    }

    fn find_for(&self, who: Option<&str>, recipient_hex: &str, memo_text: &str) -> (r: Option<
        &'a Invoice,
    >)
        requires
            self.wf(),
        ensures
            found(self.indexed(), r, opt_str(who), recipient_hex@, memo_text@),
    {
        let mut i: usize = self.invoices.len();
        while i > 0
            invariant
                i <= self.invoices@.len(),
                forall|k: int|
                    i <= k < self.invoices@.len() ==> !pays_address(
                        #[trigger] &self.invoices@[k],
                        opt_str(who),
                        recipient_hex@,
                    ),
            decreases i,
        {
            i = i - 1;
            match &self.invoices[i].orchard_receiver_hex {
                Some(addr) => {
                    if owned(&self.invoices[i], who) && text_eq(
                        addr.as_str(),
                        recipient_hex,
                    ) {
                        assert(is_match(
                            self.indexed(),
                            i as int,
                            opt_str(who),
                            recipient_hex@,
                            memo_text@,
                        ));
                        return Some(&self.invoices[i]);
                    }
                },
                None => {},
            }
        }
        let memo: String = trim(memo_text);
        let n: Ghost<int> = Ghost(self.invoices@.len() as int);
        let mut j: usize = 0;
        while j < self.legacy.len()
            invariant
                self.wf(),
                j <= self.legacy@.len(),
                n@ == self.invoices@.len(),
                memo@ == trimmed(memo_text@),
                legacy_view(self.legacy@) == legacy_of(self.invoices@, n@),
                forall|k: int|
                    0 <= k < self.invoices@.len() ==> !pays_address(
                        #[trigger] &self.invoices@[k],
                        opt_str(who),
                        recipient_hex@,
                    ),
                forall|k: int|
                    0 <= k < j ==> !pays_memo(
                        &self.invoices@[(#[trigger] self.legacy@[k]).0 as int],
                        opt_str(who),
                        recipient_hex@,
                        memo_text@,
                    ),
            decreases self.legacy@.len() - j,
        {
            proof {
                assert(legacy_view(self.legacy@)[j as int] == (
                    self.legacy@[j as int].0 as int,
                    self.legacy@[j as int].1@,
                ));
                legacy_sound(self.invoices@, n@, j as int);
            }
            let p: usize = self.legacy[j].0;
            if owned(&self.invoices[p], who) && text_eq(
                self.legacy[j].1.as_str(),
                recipient_hex,
            ) && !memo.as_str().is_empty() && text_eq(
                self.invoices[p].memo_code.as_str(),
                memo.as_str(),
            ) {
                proof {
                    assert forall|k: int| 0 <= k < p implies !pays_memo(
                        #[trigger] &self.invoices@[k],
                        opt_str(who),
                        recipient_hex@,
                        memo_text@,
                    ) by {
                        if pays_memo(
                            &self.invoices@[k],
                            opt_str(who),
                            recipient_hex@,
                            memo_text@,
                        ) {
                            let m = legacy_complete(self.invoices@, n@, k);
                            assert(legacy_view(self.legacy@)[m].0 == self.legacy@[m].0);
                            if j < m {
                                legacy_ordered(self.invoices@, n@, j as int, m);
                            }
                        }
                    }
                    assert(is_match(
                        self.indexed(),
                        p as int,
                        opt_str(who),
                        recipient_hex@,
                        memo_text@,
                    ));
                }
                return Some(&self.invoices[p]);
            }
            j = j + 1;
        }
        proof {
            assert forall|k: int| 0 <= k < self.invoices@.len() implies !pays_memo(
                #[trigger] &self.invoices@[k],
                opt_str(who),
                recipient_hex@,
                memo_text@,
            ) by {
                if pays_memo(&self.invoices@[k], opt_str(who), recipient_hex@, memo_text@) {
                    let m = legacy_complete(self.invoices@, n@, k);
                    assert(legacy_view(self.legacy@)[m].0 == self.legacy@[m].0);
                }
            }
        }
        None
    }
    /// Finds the invoice that a payment pays which a merchant's key decrypted.
    /// Neither another merchant's key nor another receiver finds it, and a
    /// memo only in full.
    pub fn find(&self, merchant_id: &str, recipient_hex: &str, memo_text: &str) -> (r: Option<
        &'a Invoice,
    >)
        requires
            self.wf(),
        ensures
            found(self.indexed(), r, Some(merchant_id@), recipient_hex@, memo_text@),
    {
        self.find_for(Some(merchant_id), recipient_hex, memo_text)
    }

    /// Finds the invoice, of whichever merchant, that a payment pays which the
    /// platform's own key decrypted.
    pub fn find_any(&self, recipient_hex: &str, memo_text: &str) -> (r: Option<&'a Invoice>)
        requires
            self.wf(),
        ensures
            found(self.indexed(), r, None, recipient_hex@, memo_text@),
    {
        self.find_for(None, recipient_hex, memo_text)
    }
}

/// A payment pays an invoice only where the merchant is the invoice's own and
/// the receiver is the invoice's own.
pub proof fn match_binds_merchant_and_receiver(
    invoices: Seq<Invoice>,
    i: int,
    merchant_id: Seq<char>,
    recipient_hex: Seq<char>,
    memo: Seq<char>,
)
    requires
        is_match(invoices, i, Some(merchant_id), recipient_hex, memo),
    ensures
        invoices[i].merchant_id@ == merchant_id,
        opt_text(invoices[i].orchard_receiver_hex) == Some(recipient_hex) || receiver_of(
            invoices[i].payment_address@,
        ) == Some(recipient_hex),
{
}

/// A payment to the address of an invoice finds that invoice, whatever its memo
/// says, and the latest one where several share the address.
pub proof fn own_address_finds_the_invoice(
    invoices: Seq<Invoice>,
    r: Option<&Invoice>,
    who: Option<Seq<char>>,
    recipient_hex: Seq<char>,
    memo: Seq<char>,
    k: int,
)
    requires
        found(invoices, r, who, recipient_hex, memo),
        0 <= k < invoices.len(),
        invoices[k].orchard_receiver_hex is Some,
        invoices[k].orchard_receiver_hex->0@ == recipient_hex,
        who matches Some(m) ==> invoices[k].merchant_id@ == m,
        forall|j: int|
            k < j < invoices.len() ==> opt_text((#[trigger] invoices[j]).orchard_receiver_hex)
                != Some(recipient_hex),
    ensures
        r is Some,
        *(r->0) == invoices[k],
{
    assert(pays_address(&invoices[k], who, recipient_hex));
    let i = choose|i: int|
        #[trigger] is_match(invoices, i, who, recipient_hex, memo) && *(r->0) == invoices[i];
    assert(pays_address(&invoices[i], who, recipient_hex));
    if i > k {
        assert(opt_text(invoices[i].orchard_receiver_hex) != Some(recipient_hex));
    }
}

/// Where no invoice has the address for its own, the memo decides between those
/// that share it: the first invoice of the merchant with that code is found, the
/// white space around the memo left aside.
pub proof fn memo_finds_the_invoice(
    invoices: Seq<Invoice>,
    r: Option<&Invoice>,
    who: Option<Seq<char>>,
    recipient_hex: Seq<char>,
    memo: Seq<char>,
    k: int,
)
    requires
        found(invoices, r, who, recipient_hex, memo),
        0 <= k < invoices.len(),
        invoices[k].orchard_receiver_hex is None,
        receiver_of(invoices[k].payment_address@) == Some(recipient_hex),
        who matches Some(m) ==> invoices[k].merchant_id@ == m,
        invoices[k].memo_code@ == trimmed(memo),
        trimmed(memo).len() > 0,
        forall|j: int|
            0 <= j < invoices.len() ==> opt_text((#[trigger] invoices[j]).orchard_receiver_hex)
                != Some(recipient_hex),
        forall|j: int| 0 <= j < k ==> (#[trigger] invoices[j]).memo_code@ != trimmed(memo),
    ensures
        r is Some,
        *(r->0) == invoices[k],
{
    assert(pays_memo(&invoices[k], who, recipient_hex, memo));
    let i = choose|i: int|
        #[trigger] is_match(invoices, i, who, recipient_hex, memo) && *(r->0) == invoices[i];
    assert(opt_text(invoices[i].orchard_receiver_hex) != Some(recipient_hex));
    if i < k {
        assert(invoices[i].memo_code@ != trimmed(memo));
    }
}

/// An invoice that is found belongs to the merchant, and is paid at its own
/// address, or at a shared one under its own code.
pub proof fn found_invoice_was_paid(
    invoices: Seq<Invoice>,
    inv: &Invoice,
    who: Option<Seq<char>>,
    recipient_hex: Seq<char>,
    memo: Seq<char>,
)
    requires
        found(invoices, Some(inv), who, recipient_hex, memo),
    ensures
        invoices.contains(*inv),
        who matches Some(m) ==> inv.merchant_id@ == m,
        ({
            ||| inv.orchard_receiver_hex is Some && inv.orchard_receiver_hex->0@ == recipient_hex
            ||| inv.orchard_receiver_hex is None && receiver_of(inv.payment_address@) == Some(
                recipient_hex,
            ) && inv.memo_code@ == trimmed(memo) && inv.memo_code@.len() > 0
        }),
{
    let i = choose|i: int|
        #[trigger] is_match(invoices, i, who, recipient_hex, memo) && *inv == invoices[i];
    assert(invoices[i] == *inv);
}

/// The index of the invoices that share an address lists each of them under its
/// receiver, and no other.
pub proof fn shared_addresses_are_listed(invoices: Seq<Invoice>, n: int, i: int)
    requires
        0 <= n <= invoices.len(),
        0 <= i < n,
    ensures
        invoices[i].orchard_receiver_hex is None && receiver_of(invoices[i].payment_address@) is Some
            ==> legacy_of(invoices, n).contains(
            (i, receiver_of(invoices[i].payment_address@)->0),
        ),
        forall|k: int|
            0 <= k < legacy_of(invoices, n).len() ==> {
                let p = #[trigger] legacy_of(invoices, n)[k];
                &&& 0 <= p.0 < n
                &&& invoices[p.0].orchard_receiver_hex is None
                &&& receiver_of(invoices[p.0].payment_address@) == Some(p.1)
            },
    decreases n,
{
    let all = legacy_of(invoices, n);
    let earlier = legacy_of(invoices, n - 1);
    if n - 1 > 0 {
        shared_addresses_are_listed(
            invoices,
            n - 1,
            if i < n - 1 {
                i
            } else {
                0
            },
        );
    } else {
        assert(earlier.len() == 0);
    }
    assert(forall|k: int| 0 <= k < earlier.len() ==> #[trigger] all[k] == earlier[k]);
    let p = (i, receiver_of(invoices[i].payment_address@)->0);
    if i == n - 1 && invoices[i].orchard_receiver_hex is None && receiver_of(
        invoices[i].payment_address@,
    ) is Some {
        assert(all[all.len() - 1] == p);
    } else if earlier.contains(p) {
        let k = choose|k: int| 0 <= k < earlier.len() && earlier[k] == p;
        assert(all[k] == p);
    }
}

} // verus!
