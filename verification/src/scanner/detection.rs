//! From transactions to invoices: which invoices a transaction pays, and what
//! a payment does to an invoice.

use vstd::prelude::*;

use crate::clock::timestamp_text;
use crate::hexadecimal;
use crate::hexadecimal::{hex_bytes, hex_text, is_hex_text};
use crate::invoices::matching::{found, is_match, match_is_unique, match_of, InvoiceIndex};
use crate::invoices::payments::{total_paid, PaymentLedger};
use crate::invoices::{is_window, Invoice};
use crate::merchants::Merchant;
use crate::scanner::decrypt::{
    full_outputs, ivk_of, output_view, outputs_of, outputs_view, prepare_keys,
    try_decrypt_all_outputs, try_decrypt_with_keys, CachedKeys, DecryptedOutput, OutputView,
    DUST_THRESHOLD_MIN_ZATOSHIS,
};
use crate::text::{join2, opt_str, opt_text, starts_with, text_eq};
use crate::zcash::prepared_scalar;

verus! {

/// The name under which the key of the platform stands among those of the
/// merchants.
pub const PLATFORM_KEY: &'static str = "__platform_fee__";

// ---------------------------------------------------------------------------
// Prepared keys
// ---------------------------------------------------------------------------

/// The prepared keys of all merchants, and the merchants that they were
/// prepared for.
pub struct KeyCache {
    pub keys: Vec<(String, CachedKeys)>,
    pub merchant_ids: Vec<String>,
}

/// Keys by their name and their secret part.
pub open spec fn keys_view(keys: Seq<(String, CachedKeys)>) -> Seq<(Seq<char>, Seq<u8>)> {
    keys.map_values(
        |k: (String, CachedKeys)| (k.0@, prepared_scalar(k.1.pivk_external)),
    )
}

/// The keys of the first `n` merchants; a key that cannot be used is left out.
pub open spec fn merchant_keys(merchants: Seq<Merchant>, n: int) -> Seq<(Seq<char>, Seq<u8>)>
    decreases n,
{
    if n <= 0 {
        Seq::empty()
    } else {
        match ivk_of(merchants[n - 1].ufvk@) {
            Ok(ivk) => merchant_keys(merchants, n - 1).push((merchants[n - 1].id@, ivk.skip(32))),
            Err(_) => merchant_keys(merchants, n - 1),
        }
    }
}

/// The keys of the merchants, followed by that of the platform.
pub open spec fn all_keys(merchants: Seq<Merchant>, fee_ufvk: Option<Seq<char>>) -> Seq<
    (Seq<char>, Seq<u8>),
> {
    let keys = merchant_keys(merchants, merchants.len() as int);
    match fee_ufvk {
        Some(u) => match ivk_of(u) {
            Ok(ivk) => keys.push((PLATFORM_KEY@, ivk.skip(32))),
            Err(_) => keys,
        },
        None => keys,
    }
}

/// The identifiers of merchants.
pub open spec fn merchant_ids(merchants: Seq<Merchant>) -> Seq<Seq<char>> {
    merchants.map_values(|m: Merchant| m.id@)
}

/// Whether the cache was made for exactly these merchants.
pub open spec fn is_current(cache: Option<KeyCache>, merchants: Seq<Merchant>) -> bool {
    cache matches Some(c) && c.merchant_ids@.map_values(|s: String| s@) == merchant_ids(merchants)
}

fn cache_is_current(cache: &Option<KeyCache>, merchants: &[Merchant]) -> (r: bool)
    ensures
        r == is_current(*cache, merchants@),
{
    match cache {
        None => false,
        Some(c) => {
            let ghost have = c.merchant_ids@.map_values(|s: String| s@);
            let ghost want = merchant_ids(merchants@);
            if c.merchant_ids.len() != merchants.len() {
                assert(have.len() != want.len());
                return false;
            }
            let mut i: usize = 0;
            while i < merchants.len()
                invariant
                    i <= merchants@.len(),
                    *cache == Some(*c),
                    c.merchant_ids@.len() == merchants@.len(),
                    have == c.merchant_ids@.map_values(|s: String| s@),
                    want == merchant_ids(merchants@),
                    forall|k: int| 0 <= k < i ==> #[trigger] have[k] == want[k],
                decreases merchants@.len() - i,
            {
                if !text_eq(c.merchant_ids[i].as_str(), merchants[i].id.as_str()) {
                    assert(have[i as int] != want[i as int]);
                    return false;
                }
                i = i + 1;
            }
            assert(have =~= want);
            true
        },
    }
}

/// Prepares the keys anew where the merchants are not those of the cache: not
/// only their number counts, so that an exchange is noticed too.
pub fn refresh_key_cache(
    cache: &mut Option<KeyCache>,
    merchants: &[Merchant],
    fee_ufvk: Option<&str>,
)
    ensures
        is_current(*final(cache), merchants@),
        if is_current(*old(cache), merchants@) {
            *final(cache) == *old(cache)
        } else {
            keys_view((*final(cache))->0.keys@) == all_keys(merchants@, opt_str(fee_ufvk))
        },
{
    if cache_is_current(cache, merchants) {
        return ;
    }
    let mut keys: Vec<(String, CachedKeys)> = Vec::new();
    let mut ids: Vec<String> = Vec::new();
    let mut i: usize = 0;
    assert(keys_view(keys@) =~= Seq::<(Seq<char>, Seq<u8>)>::empty());
    while i < merchants.len()
        invariant
            i <= merchants@.len(),
            keys_view(keys@) == merchant_keys(merchants@, i as int),
            ids@.len() == i,
            forall|k: int| 0 <= k < i ==> (#[trigger] ids@[k])@ == merchants@[k].id@,
        decreases merchants@.len() - i,
    {
        match prepare_keys(merchants[i].ufvk.as_str()) {
            Ok(k) => {
                let ghost before = keys@;
                keys.push((merchants[i].id.clone(), k));
                assert(keys_view(keys@) =~= keys_view(before).push(
                    (merchants@[i as int].id@, prepared_scalar(k.pivk_external)),
                ));
            },
            Err(_) => {},
        }
        ids.push(merchants[i].id.clone());
        i = i + 1;
    }
    match fee_ufvk {
        Some(u) => match prepare_keys(u) {
            Ok(k) => {
                let ghost before = keys@;
                keys.push((PLATFORM_KEY.to_string(), k));
                assert(keys_view(keys@) =~= keys_view(before).push(
                    (PLATFORM_KEY@, prepared_scalar(k.pivk_external)),
                ));
            },
            Err(_) => {},
        },
        None => {},
    }
    assert(ids@.map_values(|s: String| s@) =~= merchant_ids(merchants@));
    *cache = Some(KeyCache { keys, merchant_ids: ids });
}

// ---------------------------------------------------------------------------
// What a transaction pays
// ---------------------------------------------------------------------------

/// What a transaction pays on an invoice.
pub struct InvoiceTotal<'a> {
    pub invoice: &'a Invoice,
    pub tx_total: i64,
}

/// The merchant that a key stands for; none for the key of the platform.
pub open spec fn owner_of(key_name: Seq<char>) -> Option<Seq<char>> {
    if key_name == PLATFORM_KEY@ {
        None
    } else {
        Some(key_name)
    }
}

/// The payments among the first `n` outputs that a key decrypted: the place of
/// the invoice and the amount.
pub open spec fn output_payments(
    invoices: Seq<Invoice>,
    who: Option<Seq<char>>,
    outputs: Seq<OutputView>,
    n: int,
) -> Seq<(int, int)>
    decreases n,
{
    if n <= 0 {
        Seq::empty()
    } else {
        let o = outputs[n - 1];
        let earlier = output_payments(invoices, who, outputs, n - 1);
        match match_of(invoices, who, hex_text(o.recipient_raw), o.memo) {
            Some(i) => earlier.push((i, o.amount_zatoshis as int)),
            None => earlier,
        }
    }
}

/// The payments that the first `n` keys find in a transaction.
pub open spec fn key_payments(
    invoices: Seq<Invoice>,
    raw: Seq<u8>,
    keys: Seq<(Seq<char>, Seq<u8>)>,
    n: int,
) -> Seq<(int, int)>
    decreases n,
{
    if n <= 0 {
        Seq::empty()
    } else {
        let outputs = outputs_of(raw, seq![keys[n - 1].1]);
        key_payments(invoices, raw, keys, n - 1) + output_payments(
            invoices,
            owner_of(keys[n - 1].0),
            outputs,
            outputs.len() as int,
        )
    }
}

/// The payments in a transaction given in hexadecimal.
pub open spec fn tx_payments(
    invoices: Seq<Invoice>,
    raw_hex: Seq<char>,
    keys: Seq<(Seq<char>, Seq<u8>)>,
) -> Seq<(int, int)> {
    if is_hex_text(raw_hex) {
        key_payments(invoices, hex_bytes(raw_hex), keys, keys.len() as int)
    } else {
        Seq::empty()
    }
}

/// The sum of the payments on the invoice with an identifier.
pub open spec fn paid_total(
    invoices: Seq<Invoice>,
    payments: Seq<(int, int)>,
    id: Seq<char>,
) -> int
    decreases payments.len(),
{
    if payments.len() == 0 {
        0
    } else {
        paid_total(invoices, payments.drop_last(), id) + if invoices[payments.last().0].id@ == id {
            payments.last().1
        } else {
            0
        }
    }
}

/// Whether the totals are those of the payments: one for each invoice that is
/// paid, and no other.
pub open spec fn tallies(
    invoices: Seq<Invoice>,
    payments: Seq<(int, int)>,
    totals: Seq<InvoiceTotal>,
) -> bool {
    &&& forall|a: int, b: int|
        0 <= a < b < totals.len() ==> (#[trigger] totals[a]).invoice.id@ != (
        #[trigger] totals[b]).invoice.id@
    &&& forall|k: int|
        0 <= k < totals.len() ==> {
            &&& (#[trigger] totals[k]).tx_total == paid_total(
                invoices,
                payments,
                totals[k].invoice.id@,
            )
            &&& is_paid(invoices, payments, *totals[k].invoice)
        }
    &&& forall|p: int|
        0 <= p < payments.len() ==> has_total(totals, invoices[(#[trigger] payments[p]).0].id@)
}

pub open spec fn is_paid(
    invoices: Seq<Invoice>,
    payments: Seq<(int, int)>,
    inv: Invoice,
) -> bool {
    exists|p: int| 0 <= p < payments.len() && invoices[(#[trigger] payments[p]).0] == inv
}

pub open spec fn has_total(totals: Seq<InvoiceTotal>, id: Seq<char>) -> bool {
    exists|k: int| 0 <= k < totals.len() && (#[trigger] totals[k]).invoice.id@ == id
}

pub open spec fn amounts_counted(payments: Seq<(int, int)>) -> bool {
    forall|p: int| 0 <= p < payments.len() ==> (#[trigger] payments[p]).1 >= 0
}

proof fn unpaid_total(invoices: Seq<Invoice>, payments: Seq<(int, int)>, id: Seq<char>)
    requires
        forall|p: int|
            0 <= p < payments.len() ==> invoices[(#[trigger] payments[p]).0].id@ != id,
    ensures
        paid_total(invoices, payments, id) == 0,
    decreases payments.len(),
{
    if payments.len() > 0 {
        assert(invoices[payments[payments.len() - 1].0].id@ != id);
        assert forall|p: int| 0 <= p < payments.drop_last().len() implies invoices[(
        #[trigger] payments.drop_last()[p]).0].id@ != id by {
            assert(payments.drop_last()[p] == payments[p]);
        }
        unpaid_total(invoices, payments.drop_last(), id);
    }
}

proof fn total_grows(
    invoices: Seq<Invoice>,
    payments: Seq<(int, int)>,
    more: Seq<(int, int)>,
    id: Seq<char>,
)
    requires
        amounts_counted(payments + more),
    ensures
        0 <= paid_total(invoices, payments, id) <= paid_total(invoices, payments + more, id),
    decreases payments.len() + more.len(),
{
    if more.len() > 0 {
        let all = payments + more;
        assert(all.last().1 >= 0) by {
            assert(all[all.len() - 1].1 >= 0);
        }
        assert(all.drop_last() =~= payments + more.drop_last());
        assert(amounts_counted(payments + more.drop_last())) by {
            assert forall|p: int| 0 <= p < (payments + more.drop_last()).len() implies (
            #[trigger] (payments + more.drop_last())[p]).1 >= 0 by {
                assert((payments + more.drop_last())[p] == all[p]);
            }
        }
        total_grows(invoices, payments, more.drop_last(), id);
    } else {
        assert(payments + more =~= payments);
        if payments.len() > 0 {
            assert(payments.last().1 >= 0) by {
                assert((payments + more)[payments.len() - 1].1 >= 0);
            }
            let none = Seq::<(int, int)>::empty();
            assert(payments.drop_last() + none =~= payments.drop_last());
            assert(amounts_counted(payments.drop_last() + none)) by {
                assert forall|p: int| 0 <= p < payments.drop_last().len() implies (
                #[trigger] (payments.drop_last() + none)[p]).1 >= 0 by {
                    assert((payments + more)[p].1 >= 0);
                }
            }
            total_grows(invoices, payments.drop_last(), none, id);
        }
    }
}

proof fn outputs_counted(
    invoices: Seq<Invoice>,
    who: Option<Seq<char>>,
    outputs: Seq<OutputView>,
    n: int,
)
    ensures
        amounts_counted(output_payments(invoices, who, outputs, n)),
    decreases n,
{
    if n > 0 {
        outputs_counted(invoices, who, outputs, n - 1);
    }
}

proof fn keys_counted(
    invoices: Seq<Invoice>,
    raw: Seq<u8>,
    keys: Seq<(Seq<char>, Seq<u8>)>,
    n: int,
)
    ensures
        amounts_counted(key_payments(invoices, raw, keys, n)),
    decreases n,
{
    if n > 0 {
        let outputs = outputs_of(raw, seq![keys[n - 1].1]);
        keys_counted(invoices, raw, keys, n - 1);
        outputs_counted(invoices, owner_of(keys[n - 1].0), outputs, outputs.len() as int);
    }
}

proof fn key_payments_extend(
    invoices: Seq<Invoice>,
    raw: Seq<u8>,
    keys: Seq<(Seq<char>, Seq<u8>)>,
    n: int,
    m: int,
) -> (rest: Seq<(int, int)>)
    requires
        0 <= n <= m,
    ensures
        key_payments(invoices, raw, keys, m) == key_payments(invoices, raw, keys, n) + rest,
    decreases m - n,
{
    if n == m {
        assert(key_payments(invoices, raw, keys, n) + Seq::<(int, int)>::empty() =~= key_payments(
            invoices,
            raw,
            keys,
            n,
        ));
        Seq::empty()
    } else {
        let rest = key_payments_extend(invoices, raw, keys, n, m - 1);
        let outputs = outputs_of(raw, seq![keys[m - 1].1]);
        let last = output_payments(
            invoices,
            owner_of(keys[m - 1].0),
            outputs,
            outputs.len() as int,
        );
        assert(key_payments(invoices, raw, keys, n) + rest + last =~= key_payments(
            invoices,
            raw,
            keys,
            n,
        ) + (rest + last));
        rest + last
    }
}

proof fn output_payments_extend(
    invoices: Seq<Invoice>,
    who: Option<Seq<char>>,
    outputs: Seq<OutputView>,
    n: int,
    m: int,
) -> (rest: Seq<(int, int)>)
    requires
        0 <= n <= m,
    ensures
        output_payments(invoices, who, outputs, m) == output_payments(invoices, who, outputs, n)
            + rest,
    decreases m - n,
{
    if n == m {
        let p = output_payments(invoices, who, outputs, n);
        assert(p + Seq::<(int, int)>::empty() =~= p);
        Seq::empty()
    } else {
        let rest = output_payments_extend(invoices, who, outputs, n, m - 1);
        let o = outputs[m - 1];
        match match_of(invoices, who, hex_text(o.recipient_raw), o.memo) {
            Some(i) => {
                let p = output_payments(invoices, who, outputs, n);
                let e = (i, o.amount_zatoshis as int);
                assert((p + rest).push(e) =~= p + rest.push(e));
                rest.push(e)
            },
            None => rest,
        }
    }
}

fn find_total<'a>(totals: &Vec<InvoiceTotal<'a>>, id: &str) -> (r: Option<usize>)
    ensures
        match r {
            Some(k) => k < totals@.len() && totals@[k as int].invoice.id@ == id@,
            None => !has_total(totals@, id@),
        },
{
    let mut k: usize = 0;
    while k < totals.len()
        invariant
            k <= totals@.len(),
            forall|m: int| 0 <= m < k ==> (#[trigger] totals@[m]).invoice.id@ != id@,
        decreases totals@.len() - k,
    {
        if text_eq(totals[k].invoice.id.as_str(), id) {
            return Some(k);
        }
        k = k + 1;
    }
    None
}

/// Adds a payment to the totals; gives whether the total can be counted.
fn add_payment<'a>(
    totals: &mut Vec<InvoiceTotal<'a>>,
    inv: &'a Invoice,
    amount: u64,
    Ghost(invoices): Ghost<Seq<Invoice>>,
    Ghost(payments): Ghost<Seq<(int, int)>>,
    Ghost(i): Ghost<int>,
) -> (r: bool)
    requires
        tallies(invoices, payments, old(totals)@),
        amounts_counted(payments),
        *inv == invoices[i],
    ensures
        r ==> tallies(invoices, payments.push((i, amount as int)), final(totals)@),
        !r ==> paid_total(invoices, payments.push((i, amount as int)), inv.id@) > i64::MAX,
{
    let ghost next = payments.push((i, amount as int));
    let ghost before = totals@;
    proof {
        assert(next.drop_last() =~= payments);
        assert(next.last() == (i, amount as int));
        assert(payments + Seq::<(int, int)>::empty() =~= payments);
        total_grows(invoices, payments, Seq::empty(), inv.id@);
    }
    match find_total(totals, inv.id.as_str()) {
        Some(k) => {
            assert(before[k as int].invoice.id@ == inv.id@);
            assert(before[k as int].tx_total == paid_total(invoices, payments, inv.id@));
            let sum: u128 = totals[k].tx_total as u128 + amount as u128;
            if sum > i64::MAX as u128 {
                return false;
            }
            let entry: InvoiceTotal<'a> = InvoiceTotal {
                invoice: totals[k].invoice,
                tx_total: sum as i64,
            };
            totals.set(k, entry);
            proof {
                assert forall|m: int| 0 <= m < totals@.len() implies ({
                    &&& (#[trigger] totals@[m]).tx_total == paid_total(
                        invoices,
                        next,
                        totals@[m].invoice.id@,
                    )
                    &&& is_paid(invoices, next, *totals@[m].invoice)
                }) by {
                    assert(is_paid(invoices, payments, *before[m].invoice));
                    let p = choose|p: int|
                        0 <= p < payments.len() && invoices[(#[trigger] payments[p]).0]
                            == *before[m].invoice;
                    assert(next[p] == payments[p]);
                    if m < k {
                        assert(before[m].invoice.id@ != before[k as int].invoice.id@);
                    }
                    if k < m {
                        assert(before[k as int].invoice.id@ != before[m].invoice.id@);
                    }
                }
                assert forall|a: int, b: int| 0 <= a < b < totals@.len() implies (
                #[trigger] totals@[a]).invoice.id@ != (#[trigger] totals@[b]).invoice.id@ by {
                    assert(before[a].invoice.id@ != before[b].invoice.id@);
                }
                assert forall|p: int| 0 <= p < next.len() implies has_total(
                    totals@,
                    invoices[(#[trigger] next[p]).0].id@,
                ) by {
                    if p < payments.len() {
                        assert(next[p] == payments[p]);
                        let m = choose|m: int|
                            0 <= m < before.len() && (#[trigger] before[m]).invoice.id@
                                == invoices[payments[p].0].id@;
                        assert(totals@[m].invoice.id@ == before[m].invoice.id@);
                    } else {
                        assert(totals@[k as int].invoice.id@ == inv.id@);
                    }
                }
            }
            return true;
        },
        None => {},
    }
    proof {
        assert forall|p: int| 0 <= p < payments.len() implies invoices[(
        #[trigger] payments[p]).0].id@ != inv.id@ by {
            assert(has_total(before, invoices[payments[p].0].id@));
        }
        unpaid_total(invoices, payments, inv.id@);
    }
    if amount > i64::MAX as u64 {
        return false;
    }
    totals.push(InvoiceTotal { invoice: inv, tx_total: amount as i64 });
    proof {
        let n = before.len() as int;
        assert forall|m: int| 0 <= m < totals@.len() implies ({
            &&& (#[trigger] totals@[m]).tx_total == paid_total(
                invoices,
                next,
                totals@[m].invoice.id@,
            )
            &&& is_paid(invoices, next, *totals@[m].invoice)
        }) by {
            if m < n {
                assert(totals@[m] == before[m]);
                assert(is_paid(invoices, payments, *before[m].invoice));
                let p = choose|p: int|
                    0 <= p < payments.len() && invoices[(#[trigger] payments[p]).0]
                        == *before[m].invoice;
                assert(next[p] == payments[p]);
            } else {
                assert(invoices[next[payments.len() as int].0] == *inv);
            }
        }
        assert forall|a: int, b: int| 0 <= a < b < totals@.len() implies (
        #[trigger] totals@[a]).invoice.id@ != (#[trigger] totals@[b]).invoice.id@ by {
            assert(totals@[a] == before[a]);
            if b < n {
                assert(totals@[b] == before[b]);
            }
        }
        assert forall|p: int| 0 <= p < next.len() implies has_total(
            totals@,
            invoices[(#[trigger] next[p]).0].id@,
        ) by {
            if p < payments.len() {
                assert(next[p] == payments[p]);
                let m = choose|m: int|
                    0 <= m < before.len() && (#[trigger] before[m]).invoice.id@
                        == invoices[payments[p].0].id@;
                assert(totals@[m] == before[m]);
            } else {
                assert(totals@[n].invoice.id@ == inv.id@);
            }
        }
    }
    true
}

/// Adds up what a transaction pays on each invoice: with each key, each output
/// that it decrypts counts for the invoice that it matches. `None` where an
/// amount is beyond what can be counted.
pub fn collect_mempool_invoice_totals<'a>(
    raw_hex: &str,
    cached_keys: &Vec<(String, CachedKeys)>,
    invoice_index: &InvoiceIndex<'a>,
) -> (r: Option<Vec<InvoiceTotal<'a>>>)
    requires
        invoice_index.wf(),
    ensures
        match r {
            Some(totals) => tallies(
                invoice_index.indexed(),
                tx_payments(invoice_index.indexed(), raw_hex@, keys_view(cached_keys@)),
                totals@,
            ),
            None => exists|id: Seq<char>|
                #[trigger] paid_total(
                    invoice_index.indexed(),
                    tx_payments(invoice_index.indexed(), raw_hex@, keys_view(cached_keys@)),
                    id,
                ) > i64::MAX,
        },
{
    let ghost invoices = invoice_index.indexed();
    let ghost keys = keys_view(cached_keys@);
    let ghost raw = hex_bytes(raw_hex@);
    let mut totals: Vec<InvoiceTotal<'a>> = Vec::new();
    let mut i: usize = 0;
    while i < cached_keys.len()
        invariant
            i <= cached_keys@.len(),
            invoice_index.wf(),
            invoices == invoice_index.indexed(),
            keys == keys_view(cached_keys@),
            raw == hex_bytes(raw_hex@),
            i > 0 ==> is_hex_text(raw_hex@),
            tallies(invoices, key_payments(invoices, raw, keys, i as int), totals@),
        decreases cached_keys@.len() - i,
    {
        let outputs: Vec<DecryptedOutput> = match try_decrypt_with_keys(
            raw_hex,
            &cached_keys[i].1,
        ) {
            Ok(o) => o,
            Err(_) => {
                assert(i == 0);
                assert(tallies(invoices, Seq::empty(), totals@));
                return Some(totals);
            },
        };
        let ghost who = owner_of(keys[i as int].0);
        let ghost views = outputs_view(outputs@);
        let ghost base = key_payments(invoices, raw, keys, i as int);
        assert(keys[i as int] == (
            cached_keys@[i as int].0@,
            prepared_scalar(cached_keys@[i as int].1.pivk_external),
        ));
        assert(views == outputs_of(raw, seq![keys[i as int].1]));
        let platform: bool = text_eq(cached_keys[i].0.as_str(), PLATFORM_KEY);
        let mut j: usize = 0;
        assert(base + output_payments(invoices, who, views, 0) =~= base);
        while j < outputs.len()
            invariant
                i < cached_keys@.len(),
                invoice_index.wf(),
                invoices == invoice_index.indexed(),
                keys == keys_view(cached_keys@),
                raw == hex_bytes(raw_hex@),
                is_hex_text(raw_hex@),
                j <= outputs@.len(),
                views == outputs_view(outputs@),
                views == outputs_of(raw, seq![keys[i as int].1]),
                keys[i as int].0 == cached_keys@[i as int].0@,
                who == owner_of(keys[i as int].0),
                platform == (cached_keys@[i as int].0@ == PLATFORM_KEY@),
                base == key_payments(invoices, raw, keys, i as int),
                tallies(
                    invoices,
                    base + output_payments(invoices, who, views, j as int),
                    totals@,
                ),
            decreases outputs@.len() - j,
        {
            let recipient_hex: String = hexadecimal::encode(outputs[j].recipient_raw.as_slice());
            let found: Option<&'a Invoice> = if platform {
                invoice_index.find_any(recipient_hex.as_str(), outputs[j].memo.as_str())
            } else {
                invoice_index.find(
                    cached_keys[i].0.as_str(),
                    recipient_hex.as_str(),
                    outputs[j].memo.as_str(),
                )
            };
            let ghost o = views[j as int];
            let ghost so_far = output_payments(invoices, who, views, j as int);
            assert(o == output_view(outputs@[j as int]));
            match found {
                Some(inv) => {
                    let ghost m = choose|m: int|
                        #[trigger] is_match(
                            invoices,
                            m,
                            who,
                            hex_text(o.recipient_raw),
                            o.memo,
                        ) && *inv == invoices[m];
                    proof {
                        let m2 = match_of(invoices, who, hex_text(o.recipient_raw), o.memo)->0;
                        match_is_unique(invoices, m, m2, who, hex_text(o.recipient_raw), o.memo);
                        keys_counted(invoices, raw, keys, i as int);
                        outputs_counted(invoices, who, views, j as int);
                        assert((base + so_far).push((m, o.amount_zatoshis as int)) =~= base
                            + so_far.push((m, o.amount_zatoshis as int)));
                    }
                    let counted: bool = add_payment(
                        &mut totals,
                        inv,
                        outputs[j].amount_zatoshis,
                        Ghost(invoices),
                        Ghost(base + so_far),
                        Ghost(m),
                    );
                    if !counted {
                        proof {
                            let rest = output_payments_extend(
                                invoices,
                                who,
                                views,
                                j + 1,
                                views.len() as int,
                            );
                            let tail = key_payments_extend(
                                invoices,
                                raw,
                                keys,
                                i + 1,
                                keys.len() as int,
                            );
                            let now = base + output_payments(invoices, who, views, j + 1);
                            assert(now + (rest + tail) =~= key_payments(
                                invoices,
                                raw,
                                keys,
                                keys.len() as int,
                            ));
                            keys_counted(invoices, raw, keys, keys.len() as int);
                            total_grows(invoices, now, rest + tail, inv.id@);
                            assert(paid_total(
                                invoices,
                                tx_payments(invoices, raw_hex@, keys),
                                inv.id@,
                            ) > i64::MAX);
                        }
                        return None;
                    }
                },
                None => {
                    proof {
                        assert(match_of(invoices, who, hex_text(o.recipient_raw), o.memo) is None);
                    }
                },
            }
            j = j + 1;
        }
        i = i + 1;
    }
    proof {
        if !is_hex_text(raw_hex@) {
            assert(i == 0);
        }
    }
    Some(totals)
}

// ---------------------------------------------------------------------------
// What a payment does
// ---------------------------------------------------------------------------

/// The amounts, in zatoshis, that a payment of an invoice is measured by: a
/// hundredth of the price, and the price less half a percent.
#[derive(Debug, Clone, Copy, PartialEq, Eq, Structural)]
pub struct Thresholds {
    pub dust_fraction: i64,
    pub min_accepted: i64,
}

/// What a payment did to an invoice, with what was received in all.
#[derive(Debug, Clone, Copy, PartialEq, Eq, Structural)]
pub enum PaymentEffect {
    /// Too little to count.
    Dust,
    /// A first part was paid.
    Underpaid(i64),
    /// A further part was paid.
    PartAdded(i64),
    /// The invoice is paid; the flag tells whether too much was.
    Detected(i64, bool),
    /// The invoice is paid by a transaction in a block.
    Confirmed(i64, bool),
    /// The invoice was paid before.
    Unchanged,
}

/// Whether a payment is dust: below the floor, and below the price.
pub open spec fn is_dust(tx_total: i64, price: i64, t: Thresholds) -> bool {
    let floor = if t.dust_fraction > DUST_THRESHOLD_MIN_ZATOSHIS {
        t.dust_fraction
    } else {
        DUST_THRESHOLD_MIN_ZATOSHIS
    };
    tx_total < floor && tx_total < price
}

/// Whether a payment is dust: below the floor, and below the price.
pub fn dust(tx_total: i64, price: i64, t: Thresholds) -> (r: bool)
    ensures
        r == is_dust(tx_total, price, t),
{
    let floor: i64 = if t.dust_fraction > DUST_THRESHOLD_MIN_ZATOSHIS {
        t.dust_fraction
    } else {
        DUST_THRESHOLD_MIN_ZATOSHIS
    };
    tx_total < floor && tx_total < price
}

/// Whether more than the price and some slack was received.
pub open spec fn exceeds(received: int, price: int) -> bool {
    received > price + 1000
}

fn too_much(received: i64, price: i64) -> (r: bool)
    ensures
        r == exceeds(received as int, price as int),
{
    received as i128 > price as i128 + 1000
}

/// What was received in all once a payment is counted.
pub open spec fn received_with(inv: &Invoice, tx_total: i64) -> int {
    if inv.is("underpaid"@) {
        inv.received_zatoshis + tx_total
    } else {
        tx_total as int
    }
}

/// What a payment does to an invoice; a payment in a block confirms it at
/// once. A transaction that was counted before (`known`) does nothing.
pub open spec fn effect_of(
    inv: &Invoice,
    known: bool,
    tx_total: i64,
    t: Thresholds,
    in_block: bool,
) -> PaymentEffect {
    let received = received_with(inv, tx_total) as i64;
    if is_dust(tx_total, inv.price_zatoshis, t) {
        PaymentEffect::Dust
    } else if known || !(inv.is("pending"@) || inv.is("underpaid"@)) {
        PaymentEffect::Unchanged
    } else if received >= t.min_accepted {
        if in_block {
            PaymentEffect::Confirmed(received, exceeds(received as int, inv.price_zatoshis as int))
        } else {
            PaymentEffect::Detected(received, exceeds(received as int, inv.price_zatoshis as int))
        }
    } else if inv.is("pending"@) {
        PaymentEffect::Underpaid(received)
    } else {
        PaymentEffect::PartAdded(received)
    }
}

/// Whether a payment with an effect is counted.
pub open spec fn is_counted(effect: PaymentEffect) -> bool {
    !(effect is Dust) && !(effect is Unchanged)
}

/// Whether `after` is the invoice once a payment had its effect.
pub open spec fn paid_into(
    before: &Invoice,
    after: &Invoice,
    effect: PaymentEffect,
    txid: Seq<char>,
    now: i64,
) -> bool {
    match effect {
        PaymentEffect::Dust => *after == *before,
        PaymentEffect::Unchanged => *after == *before,
        PaymentEffect::Underpaid(received) => before.underpaid_as(after, txid, received, now),
        PaymentEffect::PartAdded(received) => {
            &&& after.received_zatoshis == received
            &&& after.expires_at@ == timestamp_text(now + 600)
            &&& *after == (Invoice {
                received_zatoshis: after.received_zatoshis,
                expires_at: after.expires_at,
                ..*before
            })
        },
        PaymentEffect::Detected(received, _) => before.detected_as(after, txid, received, now),
        PaymentEffect::Confirmed(received, _) => {
            &&& after.is("confirmed"@)
            &&& opt_text(after.detected_txid) == Some(txid)
            &&& opt_text(after.detected_at) == Some(timestamp_text(now as int))
            &&& opt_text(after.confirmed_at) == Some(timestamp_text(now as int))
            &&& after.received_zatoshis == received
            &&& after.expires_at@ == timestamp_text(now + 1800)
        },
    }
}

/// Whether nothing but the payment of an invoice changed.
pub open spec fn same_order(before: &Invoice, after: &Invoice) -> bool {
    *after == (Invoice {
        status: after.status,
        detected_txid: after.detected_txid,
        detected_at: after.detected_at,
        confirmed_at: after.confirmed_at,
        received_zatoshis: after.received_zatoshis,
        expires_at: after.expires_at,
        ..*before
    })
}

/// Counts what a transaction pays on an invoice, unless the ledger holds it
/// already. What is counted is recorded in the ledger.
pub fn apply_payment(
    inv: &mut Invoice,
    ledger: &mut PaymentLedger,
    txid: &str,
    tx_total: i64,
    t: Thresholds,
    in_block: bool,
    now: i64,
) -> (r: PaymentEffect)
    requires
        is_window(now, 30),
        old(ledger).wf(),
        tx_total >= 0,
        received_with(old(inv), tx_total) <= i64::MAX,
        total_paid(old(ledger).payments@, old(inv).id@) + tx_total <= i64::MAX,
    ensures
        final(ledger).wf(),
        r == effect_of(
            old(inv),
            old(ledger).is_recorded(old(inv).id@, txid@),
            tx_total,
            t,
            in_block,
        ),
        paid_into(old(inv), final(inv), r, txid@, now),
        same_order(old(inv), final(inv)),
        if is_counted(r) {
            old(ledger).recorded_into(final(ledger), old(inv).id@, txid@, tx_total)
        } else {
            *final(ledger) == *old(ledger)
        },
{
    proof {
        reveal_strlit("pending");
        reveal_strlit("underpaid");
        assert("pending"@.len() != "underpaid"@.len());
    }
    if dust(tx_total, inv.price_zatoshis, t) {
        return PaymentEffect::Dust;
    }
    let pending: bool = text_eq(inv.status.as_str(), "pending");
    let underpaid: bool = text_eq(inv.status.as_str(), "underpaid");
    if !pending && !underpaid || ledger.recorded(inv.id.as_str(), txid) {
        return PaymentEffect::Unchanged;
    }
    let _: i64 = ledger.record_payment(inv.id.as_str(), txid, tx_total);
    let received: i64 = if underpaid {
        match inv.accumulate_payment(tx_total, now) {
            Ok(total) => total,
            Err(_) => tx_total,
        }
    } else {
        tx_total
    };
    if received >= t.min_accepted {
        let over: bool = too_much(received, inv.price_zatoshis);
        let _: bool = inv.mark_detected(txid, received, now);
        if in_block {
            let _: bool = inv.mark_confirmed(now);
            PaymentEffect::Confirmed(received, over)
        } else {
            PaymentEffect::Detected(received, over)
        }
    } else if pending {
        let _: bool = inv.mark_underpaid(received, txid, now);
        PaymentEffect::Underpaid(received)
    } else {
        PaymentEffect::PartAdded(received)
    }
}

/// Whether an invoice shows what the ledger holds for it: nothing while it
/// waits for a first payment, and the sum of what was paid after that.
pub open spec fn shows_ledger(inv: &Invoice, ledger: &PaymentLedger) -> bool {
    let paid = total_paid(ledger.payments@, inv.id@);
    if inv.is("pending"@) {
        paid == 0
    } else {
        inv.received_zatoshis == paid
    }
}

/// Whatever a transaction does to an invoice, the invoice goes on to show what
/// the ledger holds for it.
pub proof fn invoice_shows_its_payments(
    before: Invoice,
    before_ledger: PaymentLedger,
    after: Invoice,
    after_ledger: PaymentLedger,
    txid: Seq<char>,
    tx_total: i64,
    t: Thresholds,
    in_block: bool,
    now: i64,
)
    requires
        shows_ledger(&before, &before_ledger),
        before_ledger.wf(),
        tx_total >= 0,
        received_with(&before, tx_total) <= i64::MAX,
        ({
            let known = before_ledger.is_recorded(before.id@, txid);
            let effect = effect_of(&before, known, tx_total, t, in_block);
            &&& paid_into(&before, &after, effect, txid, now)
            &&& same_order(&before, &after)
            &&& if is_counted(effect) {
                before_ledger.recorded_into(&after_ledger, before.id@, txid, tx_total)
            } else {
                after_ledger == before_ledger
            }
        }),
    ensures
        shows_ledger(&after, &after_ledger),
{
    reveal_strlit("pending");
    reveal_strlit("underpaid");
    reveal_strlit("detected");
    reveal_strlit("confirmed");
    assert("pending"@[0] != "underpaid"@[0]);
    assert("pending"@[0] != "detected"@[0]);
    assert("pending"@[0] != "confirmed"@[0]);
}

/// A transaction that was counted for an invoice does nothing to it when it is
/// seen again, in the mempool or in a block.
pub proof fn counted_transaction_does_nothing(
    inv: Invoice,
    ledger: PaymentLedger,
    txid: Seq<char>,
    tx_total: i64,
    t: Thresholds,
    in_block: bool,
)
    requires
        ledger.is_recorded(inv.id@, txid),
    ensures
        !is_counted(
            effect_of(&inv, ledger.is_recorded(inv.id@, txid), tx_total, t, in_block),
        ),
{
}

/// Confirms an invoice whose payment was detected, where its transaction is in
/// a block. Gives what was received, and whether it was too much.
pub fn confirm_detected(inv: &mut Invoice, in_block: bool, now: i64) -> (r: Option<(i64, bool)>)
    requires
        is_window(now, 0),
    ensures
        if in_block && old(inv).is("detected"@) && old(inv).detected_txid is Some {
            &&& r == Some(
                (
                    old(inv).received_zatoshis,
                    exceeds(old(inv).received_zatoshis as int, old(inv).price_zatoshis as int),
                ),
            )
            &&& final(inv).is("confirmed"@)
            &&& opt_text(final(inv).confirmed_at) == Some(timestamp_text(now as int))
            &&& *final(inv) == (Invoice {
                status: final(inv).status,
                confirmed_at: final(inv).confirmed_at,
                ..*old(inv)
            })
        } else {
            r is None && *final(inv) == *old(inv)
        },
{
    if !in_block || inv.detected_txid.is_none() {
        return None;
    }
    let received: i64 = inv.received_zatoshis;
    let over: bool = too_much(received, inv.price_zatoshis);
    if inv.mark_confirmed(now) {
        Some((received, over))
    } else {
        None
    }
}

/// Whether a transaction carries the fee for an invoice: an output to the
/// platform whose memo begins with the invoice's fee code.
pub open spec fn carries_fee(outputs: Seq<OutputView>, invoice_id: Seq<char>) -> bool {
    exists|i: int|
        0 <= i < outputs.len() && ("FEE-"@ + invoice_id).is_prefix_of((#[trigger] outputs[i]).memo)
}

/// Whether a transaction carries the fee for an invoice.
pub fn detect_fee(raw_hex: &str, fee_ufvk: Option<&str>, invoice_id: &str) -> (r: bool)
    ensures
        r == (is_hex_text(raw_hex@) && (opt_str(fee_ufvk) matches Some(u) && carries_fee(
            full_outputs(hex_bytes(raw_hex@), u),
            invoice_id@,
        ))),
{
    let ufvk: &str = match fee_ufvk {
        Some(u) => u,
        None => {
            return false;
        },
    };
    let code: String = join2("FEE-", invoice_id);
    match try_decrypt_all_outputs(raw_hex, ufvk) {
        Err(_) => false,
        Ok(outputs) => {
            let ghost views = full_outputs(hex_bytes(raw_hex@), ufvk@);
            let mut i: usize = 0;
            while i < outputs.len()
                invariant
                    i <= outputs@.len(),
                    is_hex_text(raw_hex@),
                    opt_str(fee_ufvk) == Some(ufvk@),
                    views == full_outputs(hex_bytes(raw_hex@), ufvk@),
                    views == outputs_view(outputs@),
                    code@ == "FEE-"@ + invoice_id@,
                    forall|k: int| 0 <= k < i ==> !code@.is_prefix_of((#[trigger] views[k]).memo),
                decreases outputs@.len() - i,
            {
                assert(views[i as int] == output_view(outputs@[i as int]));
                if starts_with(outputs[i].memo.as_str(), code.as_str()) {
                    assert(code@.is_prefix_of(views[i as int].memo));
                    return true;
                }
                i = i + 1;
            }
            false
        },
    }
}

// ---------------------------------------------------------------------------
// What a confirmed invoice leads to
// ---------------------------------------------------------------------------

/// What is known of the product of an invoice.
pub enum EventLink {
    /// The product is no event, or that could not be found out.
    Unlinked,
    /// An event with tickets of its own.
    Ticketed,
    /// An event at the guest-list service: its identifier, and that of the
    /// ticket type.
    Luma(String, Option<String>),
}

/// A thing to be done once an invoice is confirmed.
pub enum ConfirmationStep {
    CountDonation(String),
    RegisterGuest(String, Option<String>),
    CreateTicket(String, Option<String>),
    AdvanceSubscription(String),
    ChargeFee,
}

/// A thing to be done, by what it names.
pub enum StepView {
    CountDonation(Seq<char>),
    RegisterGuest(Seq<char>, Option<Seq<char>>),
    CreateTicket(Seq<char>, Option<Seq<char>>),
    AdvanceSubscription(Seq<char>),
    ChargeFee,
}

pub open spec fn step_view(s: ConfirmationStep) -> StepView {
    match s {
        ConfirmationStep::CountDonation(id) => StepView::CountDonation(id@),
        ConfirmationStep::RegisterGuest(e, t) => StepView::RegisterGuest(e@, opt_text(t)),
        ConfirmationStep::CreateTicket(p, t) => StepView::CreateTicket(p@, opt_text(t)),
        ConfirmationStep::AdvanceSubscription(id) => StepView::AdvanceSubscription(id@),
        ConfirmationStep::ChargeFee => StepView::ChargeFee,
    }
}

pub open spec fn steps_view(steps: Seq<ConfirmationStep>) -> Seq<StepView> {
    steps.map_values(|s: ConfirmationStep| step_view(s))
}

/// A sequence of one step or of none.
pub open spec fn maybe(condition: bool, step: StepView) -> Seq<StepView> {
    if condition {
        seq![step]
    } else {
        Seq::empty()
    }
}

/// What is to be done for the product of a confirmed invoice.
pub open spec fn product_steps(inv: &Invoice, link: EventLink) -> Seq<StepView> {
    match opt_text(inv.product_id) {
        None => Seq::empty(),
        Some(product) => match link {
            EventLink::Unlinked => Seq::empty(),
            EventLink::Ticketed => seq![StepView::CreateTicket(product, opt_text(inv.price_id))],
            EventLink::Luma(e, t) => seq![StepView::RegisterGuest(e@, opt_text(t))],
        },
    }
}

/// What is to be done once an invoice is confirmed, in this order: a donation
/// is counted once; a guest is registered or a ticket made; a subscription
/// advances; the fee is charged, where fees are enabled and it is not too
/// small.
pub open spec fn confirmation_steps(
    inv: &Invoice,
    link: EventLink,
    fee_enabled: bool,
    fee_worthwhile: bool,
) -> Seq<StepView> {
    maybe(
        inv.is_donation == 1 && inv.campaign_counted == 0 && inv.payment_link_id is Some,
        StepView::CountDonation(opt_text(inv.payment_link_id)->0),
    ) + product_steps(inv, link) + maybe(
        inv.subscription_id is Some,
        StepView::AdvanceSubscription(opt_text(inv.subscription_id)->0),
    ) + maybe(fee_enabled && fee_worthwhile, StepView::ChargeFee)
}

/// What is to be done once an invoice is confirmed.
pub fn on_invoice_confirmed(
    inv: &Invoice,
    link: &EventLink,
    fee_enabled: bool,
    fee_worthwhile: bool,
) -> (r: Vec<ConfirmationStep>)
    ensures
        steps_view(r@) == confirmation_steps(inv, *link, fee_enabled, fee_worthwhile),
{
    let mut steps: Vec<ConfirmationStep> = Vec::new();
    if inv.is_donation == 1 && inv.campaign_counted == 0 {
        match &inv.payment_link_id {
            Some(id) => {
                steps.push(ConfirmationStep::CountDonation(id.clone()));
            },
            None => {},
        }
    }
    let ghost donation = maybe(
        inv.is_donation == 1 && inv.campaign_counted == 0 && inv.payment_link_id is Some,
        StepView::CountDonation(opt_text(inv.payment_link_id)->0),
    );
    assert(steps_view(steps@) =~= donation);
    match &inv.product_id {
        Some(product) => match link {
            EventLink::Unlinked => {},
            EventLink::Ticketed => {
                steps.push(ConfirmationStep::CreateTicket(product.clone(), inv.price_id.clone()));
            },
            EventLink::Luma(e, t) => {
                steps.push(ConfirmationStep::RegisterGuest(e.clone(), t.clone()));
            },
        },
        None => {},
    }
    assert(steps_view(steps@) =~= donation + product_steps(inv, *link));
    let ghost so_far = steps@;
    match &inv.subscription_id {
        Some(id) => {
            steps.push(ConfirmationStep::AdvanceSubscription(id.clone()));
        },
        None => {},
    }
    let ghost subscription = maybe(
        inv.subscription_id is Some,
        StepView::AdvanceSubscription(opt_text(inv.subscription_id)->0),
    );
    assert(steps_view(steps@) =~= donation + product_steps(inv, *link) + subscription);
    let ghost before_fee = steps@;
    if fee_enabled && fee_worthwhile {
        steps.push(ConfirmationStep::ChargeFee);
        assert(steps_view(steps@) =~= steps_view(before_fee) + seq![StepView::ChargeFee]);
    } else {
        assert(steps_view(steps@) =~= steps_view(before_fee) + Seq::<StepView>::empty());
    }
    steps
}

/// A payment that was not counted before, is enough and is not dust always
/// completes a pending invoice, and one that is too little never does.
pub proof fn enough_is_detected(inv: Invoice, tx_total: i64, t: Thresholds, in_block: bool)
    requires
        inv.is("pending"@),
    ensures
        tx_total >= t.min_accepted && !is_dust(tx_total, inv.price_zatoshis, t) ==> match effect_of(
            &inv,
            false,
            tx_total,
            t,
            in_block,
        ) {
            PaymentEffect::Detected(received, _) => !in_block && received == tx_total,
            PaymentEffect::Confirmed(received, _) => in_block && received == tx_total,
            _ => false,
        },
        tx_total < t.min_accepted ==> match effect_of(&inv, false, tx_total, t, in_block) {
            PaymentEffect::Dust => true,
            PaymentEffect::Underpaid(_) => true,
            _ => false,
        },
{
    reveal_strlit("pending");
    reveal_strlit("underpaid");
    assert("pending"@.len() != "underpaid"@.len());
}

// ---------------------------------------------------------------------------
// Laws on payments
// ---------------------------------------------------------------------------

proof fn payment_statuses_differ()
    ensures
        "pending"@ != "underpaid"@,
        "pending"@ != "detected"@,
        "pending"@ != "confirmed"@,
        "underpaid"@ != "detected"@,
        "underpaid"@ != "confirmed"@,
        "detected"@ != "confirmed"@,
{
    reveal_strlit("pending");
    reveal_strlit("underpaid");
    reveal_strlit("detected");
    reveal_strlit("confirmed");
    assert("pending"@[0] != "underpaid"@[0]);
    assert("pending"@[0] != "detected"@[0]);
    assert("pending"@[0] != "confirmed"@[0]);
    assert("underpaid"@[0] != "detected"@[0]);
    assert("underpaid"@[0] != "confirmed"@[0]);
    assert("detected"@[0] != "confirmed"@[0]);
}

/// A new transaction that is not dust is judged by all that was received for
/// an invoice, whether it waits for a first part or for a further one: what
/// reaches the accepted amount completes the invoice, confirmed where the
/// transaction is in a block and detected where it is not; less than that
/// leaves a part outstanding.
pub proof fn all_that_was_received_decides(
    inv: Invoice,
    parts: int,
    tx_total: i64,
    t: Thresholds,
    in_block: bool,
)
    requires
        (inv.status@ == "pending"@ && parts == 0) || (inv.status@ == "underpaid"@ && parts
            == inv.received_zatoshis),
        i64::MIN <= parts + tx_total <= i64::MAX,
        tx_total >= inv.price_zatoshis || (tx_total >= 10_000 && tx_total >= t.dust_fraction),
    ensures
        ({
            let all = (parts + tx_total) as i64;
            let over = all > inv.price_zatoshis + 1000;
            let effect = effect_of(&inv, false, tx_total, t, in_block);
            &&& all >= t.min_accepted && in_block ==> effect == PaymentEffect::Confirmed(all, over)
            &&& all >= t.min_accepted && !in_block ==> effect == PaymentEffect::Detected(all, over)
            &&& all < t.min_accepted && inv.status@ == "pending"@ ==> effect
                == PaymentEffect::Underpaid(all)
            &&& all < t.min_accepted && inv.status@ == "underpaid"@ ==> effect
                == PaymentEffect::PartAdded(all)
        }),
{
    payment_statuses_differ();
}

/// A payment is dust where it is less than the price and less than the floor,
/// which is ten thousand zatoshis or the fraction of the price, whichever is
/// more; whatever the invoice is.
pub proof fn dust_is_below_floor_and_price(
    inv: Invoice,
    known: bool,
    tx_total: i64,
    t: Thresholds,
    in_block: bool,
)
    ensures
        (effect_of(&inv, known, tx_total, t, in_block) is Dust) <==> tx_total < inv.price_zatoshis
            && (tx_total < 10_000 || tx_total < t.dust_fraction),
{
}

/// An invoice that neither waits for a payment nor for a further part is left
/// as it is.
pub proof fn completed_invoice_takes_no_payment(
    inv: Invoice,
    known: bool,
    tx_total: i64,
    t: Thresholds,
    in_block: bool,
)
    requires
        inv.status@ != "pending"@,
        inv.status@ != "underpaid"@,
    ensures
        !is_counted(effect_of(&inv, known, tx_total, t, in_block)),
{
}

/// What an invoice is after a payment: its status, what was received and by
/// which transaction, and when. A payment that completes it never leaves it
/// waiting, and one that does not never completes it. The price, the address
/// and the memo stay.
pub proof fn payment_leaves_its_mark(
    before: Invoice,
    after: Invoice,
    effect: PaymentEffect,
    txid: Seq<char>,
    now: i64,
)
    requires
        paid_into(&before, &after, effect, txid, now),
        same_order(&before, &after),
    ensures
        ({
            let at = timestamp_text(now as int);
            match effect {
                PaymentEffect::Underpaid(all) => {
                    &&& after.status@ == "underpaid"@
                    &&& after.received_zatoshis == all
                    &&& opt_text(after.detected_txid) == Some(txid)
                    &&& opt_text(after.detected_at) == Some(at)
                    &&& after.confirmed_at == before.confirmed_at
                    &&& after.expires_at@ == timestamp_text(now + 10 * 60)
                },
                PaymentEffect::PartAdded(all) => {
                    &&& after.status == before.status
                    &&& after.received_zatoshis == all
                    &&& after.detected_txid == before.detected_txid
                    &&& after.detected_at == before.detected_at
                    &&& after.confirmed_at == before.confirmed_at
                    &&& after.expires_at@ == timestamp_text(now + 10 * 60)
                },
                PaymentEffect::Detected(all, _) => {
                    &&& after.status@ == "detected"@
                    &&& after.received_zatoshis == all
                    &&& opt_text(after.detected_txid) == Some(txid)
                    &&& opt_text(after.detected_at) == Some(at)
                    &&& after.confirmed_at == before.confirmed_at
                    &&& after.expires_at@ == timestamp_text(now + 30 * 60)
                },
                PaymentEffect::Confirmed(all, _) => {
                    &&& after.status@ == "confirmed"@
                    &&& after.received_zatoshis == all
                    &&& opt_text(after.detected_txid) == Some(txid)
                    &&& opt_text(after.detected_at) == Some(at)
                    &&& opt_text(after.confirmed_at) == Some(at)
                },
                _ => after == before,
            }
        }),
        after.id == before.id,
        after.merchant_id == before.merchant_id,
        after.memo_code == before.memo_code,
        after.payment_address == before.payment_address,
        after.price_zatoshis == before.price_zatoshis,
        after.zcash_uri == before.zcash_uri,
        after.refund_address == before.refund_address,
        after.subscription_id == before.subscription_id,
        after.orchard_receiver_hex == before.orchard_receiver_hex,
{
}

/// A payment in two parts ends where the same payment in one part does: once
/// the parts are enough together, the invoice is completed with the same total.
pub proof fn parts_count_like_the_whole(
    inv: Invoice,
    after_first: Invoice,
    first: i64,
    second: i64,
    t: Thresholds,
    txid: Seq<char>,
    now: i64,
    in_block: bool,
)
    requires
        inv.status@ == "pending"@,
        10_000 <= first,
        10_000 <= second,
        t.dust_fraction <= first,
        t.dust_fraction <= second,
        first + second <= i64::MAX,
        first < t.min_accepted <= first + second,
        paid_into(
            &inv,
            &after_first,
            effect_of(&inv, false, first, t, in_block),
            txid,
            now,
        ),
        same_order(&inv, &after_first),
    ensures
        effect_of(&after_first, false, second, t, in_block) == effect_of(
            &inv,
            false,
            (first + second) as i64,
            t,
            in_block,
        ),
        is_counted(effect_of(&after_first, false, second, t, in_block)),
        !(effect_of(&after_first, false, second, t, in_block) is PartAdded),
{
    payment_statuses_differ();
    all_that_was_received_decides(inv, 0, first, t, in_block);
    payment_leaves_its_mark(inv, after_first, effect_of(&inv, false, first, t, in_block), txid, now);
    all_that_was_received_decides(after_first, first as int, second, t, in_block);
    all_that_was_received_decides(inv, 0, (first + second) as i64, t, in_block);
}

// ---------------------------------------------------------------------------
// Laws on what a confirmed invoice leads to
// ---------------------------------------------------------------------------

/// The steps by what they are.
proof fn steps_in_order(
    inv: Invoice,
    link: EventLink,
    fee_enabled: bool,
    fee_worthwhile: bool,
    r: Seq<ConfirmationStep>,
)
    requires
        steps_view(r) == confirmation_steps(&inv, link, fee_enabled, fee_worthwhile),
    ensures
        r.len() == confirmation_steps(&inv, link, fee_enabled, fee_worthwhile).len(),
        forall|i: int|
            0 <= i < r.len() ==> step_view(#[trigger] r[i]) == confirmation_steps(
                &inv,
                link,
                fee_enabled,
                fee_worthwhile,
            )[i],
{
    assert forall|i: int| 0 <= i < r.len() implies step_view(#[trigger] r[i]) == steps_view(
        r,
    )[i] by {}
}

/// The subscription of a confirmed invoice advances once, whatever else the
/// invoice is for; without a subscription none does.
pub proof fn paid_subscription_advances_once(
    inv: Invoice,
    link: EventLink,
    fee_enabled: bool,
    fee_worthwhile: bool,
    r: Seq<ConfirmationStep>,
)
    requires
        steps_view(r) == confirmation_steps(&inv, link, fee_enabled, fee_worthwhile),
    ensures
        inv.subscription_id matches Some(id) ==> exists|i: int|
            0 <= i < r.len() && (#[trigger] r[i] matches ConfirmationStep::AdvanceSubscription(x)
                && x@ == id@),
        forall|i: int, j: int|
            0 <= i < r.len() && 0 <= j < r.len() && (#[trigger] r[i]) is AdvanceSubscription && (
            #[trigger] r[j]) is AdvanceSubscription ==> i == j,
        forall|i: int|
            0 <= i < r.len() ==> (#[trigger] r[i] matches ConfirmationStep::AdvanceSubscription(x)
                ==> opt_text(inv.subscription_id) == Some(x@)),
{
    steps_in_order(inv, link, fee_enabled, fee_worthwhile, r);
    let steps = confirmation_steps(&inv, link, fee_enabled, fee_worthwhile);
    if inv.subscription_id is Some {
        let last = steps.len() - 1;
        let at = if fee_enabled && fee_worthwhile {
            last - 1
        } else {
            last
        };
        assert(steps[at] is AdvanceSubscription);
        assert(r[at] is AdvanceSubscription);
    }
}

/// A donation is counted for its link once, as long as it was not counted
/// before; nothing else is counted.
pub proof fn uncounted_donation_is_counted(
    inv: Invoice,
    link: EventLink,
    fee_enabled: bool,
    fee_worthwhile: bool,
    r: Seq<ConfirmationStep>,
)
    requires
        steps_view(r) == confirmation_steps(&inv, link, fee_enabled, fee_worthwhile),
    ensures
        inv.is_donation == 1 && inv.campaign_counted == 0 && inv.payment_link_id is Some ==> exists|
            i: int,
        |
            0 <= i < r.len() && (#[trigger] r[i] matches ConfirmationStep::CountDonation(x) && Some(
                x@,
            ) == opt_text(inv.payment_link_id)),
        forall|i: int|
            0 <= i < r.len() ==> (#[trigger] r[i] matches ConfirmationStep::CountDonation(x) ==> {
                &&& inv.is_donation == 1
                &&& inv.campaign_counted == 0
                &&& opt_text(inv.payment_link_id) == Some(x@)
            }),
        forall|i: int, j: int|
            0 <= i < r.len() && 0 <= j < r.len() && (#[trigger] r[i]) is CountDonation && (
            #[trigger] r[j]) is CountDonation ==> i == j,
{
    steps_in_order(inv, link, fee_enabled, fee_worthwhile, r);
    let steps = confirmation_steps(&inv, link, fee_enabled, fee_worthwhile);
    if inv.is_donation == 1 && inv.campaign_counted == 0 && inv.payment_link_id is Some {
        assert(steps[0] is CountDonation);
        assert(r[0] is CountDonation);
    }
}

/// Who buys for an event with tickets of its own gets a ticket for the product
/// and the price; who buys for one at the guest-list service is registered
/// there; each once, and never both. Without a product or an event there is
/// neither.
pub proof fn buyer_gets_ticket_or_place(
    inv: Invoice,
    link: EventLink,
    fee_enabled: bool,
    fee_worthwhile: bool,
    r: Seq<ConfirmationStep>,
)
    requires
        steps_view(r) == confirmation_steps(&inv, link, fee_enabled, fee_worthwhile),
    ensures
        inv.product_id is Some && link is Ticketed ==> exists|i: int|
            0 <= i < r.len() && (#[trigger] r[i] matches ConfirmationStep::CreateTicket(p, t) && {
                &&& Some(p@) == opt_text(inv.product_id)
                &&& opt_text(t) == opt_text(inv.price_id)
            }),
        inv.product_id is Some ==> (link matches EventLink::Luma(e, k) ==> exists|i: int|
            0 <= i < r.len() && (#[trigger] r[i] matches ConfirmationStep::RegisterGuest(x, t) && {
                &&& x@ == e@
                &&& opt_text(t) == opt_text(k)
            })),
        forall|i: int|
            0 <= i < r.len() ==> {
                &&& (#[trigger] r[i]) is CreateTicket ==> inv.product_id is Some && link is Ticketed
                &&& r[i] is RegisterGuest ==> inv.product_id is Some && link is Luma
            },
        forall|i: int, j: int|
            0 <= i < r.len() && 0 <= j < r.len() && ((#[trigger] r[i]) is CreateTicket
                || r[i] is RegisterGuest) && ((#[trigger] r[j]) is CreateTicket
                || r[j] is RegisterGuest) ==> i == j,
{
    steps_in_order(inv, link, fee_enabled, fee_worthwhile, r);
    let steps = confirmation_steps(&inv, link, fee_enabled, fee_worthwhile);
    let at: int = if inv.is_donation == 1 && inv.campaign_counted == 0
        && inv.payment_link_id is Some {
        1
    } else {
        0
    };
    if inv.product_id is Some && link is Ticketed {
        assert(steps[at] is CreateTicket);
        assert(r[at] is CreateTicket);
    }
    if inv.product_id is Some && link is Luma {
        assert(steps[at] is RegisterGuest);
        assert(r[at] is RegisterGuest);
    }
}

/// The fee is charged once for every confirmed invoice, where fees are enabled
/// and it is worthwhile, and after everything else.
pub proof fn fee_is_charged_once(
    inv: Invoice,
    link: EventLink,
    fee_enabled: bool,
    fee_worthwhile: bool,
    r: Seq<ConfirmationStep>,
)
    requires
        steps_view(r) == confirmation_steps(&inv, link, fee_enabled, fee_worthwhile),
    ensures
        fee_enabled && fee_worthwhile ==> r.len() > 0 && r.last() is ChargeFee,
        forall|i: int|
            0 <= i < r.len() && (#[trigger] r[i]) is ChargeFee ==> fee_enabled && fee_worthwhile && i
                == r.len() - 1,
{
    steps_in_order(inv, link, fee_enabled, fee_worthwhile, r);
    let steps = confirmation_steps(&inv, link, fee_enabled, fee_worthwhile);
    if fee_enabled && fee_worthwhile {
        assert(steps.last() is ChargeFee);
        assert(r[r.len() - 1] is ChargeFee);
    }
}

// ---------------------------------------------------------------------------
// Laws on what a transaction pays
// ---------------------------------------------------------------------------

/// A payment adds its amount to its own invoice, and nothing to any other.
pub proof fn output_adds_to_its_invoice(
    invoices: Seq<Invoice>,
    payments: Seq<(int, int)>,
    p: (int, int),
    id: Seq<char>,
)
    ensures
        paid_total(invoices, Seq::<(int, int)>::empty(), id) == 0,
        invoices[p.0].id@ == id ==> paid_total(invoices, payments.push(p), id) == paid_total(
            invoices,
            payments,
            id,
        ) + p.1,
        invoices[p.0].id@ != id ==> paid_total(invoices, payments.push(p), id) == paid_total(
            invoices,
            payments,
            id,
        ),
{
    assert(payments.push(p).drop_last() =~= payments);
}

/// Each output that finds an invoice pays it in full, and what does not find
/// one pays nothing.
pub proof fn every_matching_output_pays(
    invoices: Seq<Invoice>,
    who: Option<Seq<char>>,
    outputs: Seq<OutputView>,
    n: int,
    k: int,
    i: int,
)
    requires
        0 <= k < n <= outputs.len(),
    ensures
        is_match(invoices, i, who, hex_text(outputs[k].recipient_raw), outputs[k].memo)
            ==> output_payments(invoices, who, outputs, n).contains(
            (i, outputs[k].amount_zatoshis as int),
        ),
        output_payments(invoices, who, outputs, n).len() <= n,
        (forall|j: int|
            !#[trigger] is_match(
                invoices,
                j,
                who,
                hex_text(outputs[n - 1].recipient_raw),
                outputs[n - 1].memo,
            )) ==> output_payments(invoices, who, outputs, n) == output_payments(
            invoices,
            who,
            outputs,
            n - 1,
        ),
    decreases n,
{
    let o = outputs[n - 1];
    let all = output_payments(invoices, who, outputs, n);
    let earlier = output_payments(invoices, who, outputs, n - 1);
    if n > 1 {
        every_matching_output_pays(
            invoices,
            who,
            outputs,
            n - 1,
            if k < n - 1 {
                k
            } else {
                0
            },
            i,
        );
    } else {
        assert(earlier.len() == 0);
    }
    let p = (i, outputs[k].amount_zatoshis as int);
    if is_match(invoices, i, who, hex_text(outputs[k].recipient_raw), outputs[k].memo) {
        if k == n - 1 {
            let j = match_of(invoices, who, hex_text(o.recipient_raw), o.memo)->0;
            crate::invoices::matching::match_is_unique(
                invoices,
                i,
                j,
                who,
                hex_text(o.recipient_raw),
                o.memo,
            );
            assert(all[all.len() - 1] == p);
        } else {
            let j = choose|j: int| 0 <= j < earlier.len() && earlier[j] == p;
            assert(all[j] == p);
        }
    }
}

/// A transaction that is not hexadecimal pays nothing, and without a key nothing
/// is found in it.
pub proof fn unreadable_transaction_pays_nothing(
    invoices: Seq<Invoice>,
    raw_hex: Seq<char>,
    keys: Seq<(Seq<char>, Seq<u8>)>,
)
    ensures
        !is_hex_text(raw_hex) ==> tx_payments(invoices, raw_hex, keys).len() == 0,
        keys.len() == 0 ==> tx_payments(invoices, raw_hex, keys).len() == 0,
{
}

/// What one more key finds comes behind what the others found: the payments to
/// the invoices of its merchant, or to any invoice for the platform's own key.
pub proof fn each_key_finds_its_own_payments(
    invoices: Seq<Invoice>,
    raw_hex: Seq<char>,
    keys: Seq<(Seq<char>, Seq<u8>)>,
    name: Seq<char>,
    key: Seq<u8>,
)
    requires
        is_hex_text(raw_hex),
    ensures
        ({
            let outputs = outputs_of(hex_bytes(raw_hex), seq![key]);
            let who = if name == "__platform_fee__"@ {
                None
            } else {
                Some(name)
            };
            tx_payments(invoices, raw_hex, keys.push((name, key))) == tx_payments(
                invoices,
                raw_hex,
                keys,
            ) + output_payments(invoices, who, outputs, outputs.len() as int)
        }),
{
    let more = keys.push((name, key));
    earlier_keys_decide(invoices, hex_bytes(raw_hex), keys, more, keys.len() as int);
    assert(more[keys.len() as int] == (name, key));
}

proof fn earlier_keys_decide(
    invoices: Seq<Invoice>,
    raw: Seq<u8>,
    a: Seq<(Seq<char>, Seq<u8>)>,
    b: Seq<(Seq<char>, Seq<u8>)>,
    n: int,
)
    requires
        n <= a.len() <= b.len(),
        forall|i: int| 0 <= i < a.len() ==> a[i] == #[trigger] b[i],
    ensures
        key_payments(invoices, raw, a, n) == key_payments(invoices, raw, b, n),
    decreases n,
{
    if n > 0 {
        earlier_keys_decide(invoices, raw, a, b, n - 1);
        assert(a[n - 1] == b[n - 1]);
    }
}

/// The platform's own key belongs to no merchant, and every other to the one
/// that it is named after.
pub proof fn key_belongs_to_its_merchant(key_name: Seq<char>)
    ensures
        key_name == "__platform_fee__"@ <==> owner_of(key_name) is None,
        key_name != "__platform_fee__"@ ==> owner_of(key_name) == Some(key_name),
{
}

/// Every merchant whose viewing key can be read has a key to scan with, under
/// its own name.
pub proof fn every_merchant_is_scanned_for(
    merchants: Seq<Merchant>,
    fee_ufvk: Option<Seq<char>>,
    i: int,
)
    requires
        0 <= i < merchants.len(),
        ivk_of(merchants[i].ufvk@) is Ok,
    ensures
        all_keys(merchants, fee_ufvk).contains(
            (merchants[i].id@, ivk_of(merchants[i].ufvk@)->Ok_0.skip(32)),
        ),
        fee_ufvk matches Some(u) && ivk_of(u) is Ok ==> all_keys(merchants, fee_ufvk).last() == (
            "__platform_fee__"@,
            ivk_of(fee_ufvk->0)->Ok_0.skip(32),
        ),
        fee_ufvk is None ==> all_keys(merchants, fee_ufvk) == merchant_keys(
            merchants,
            merchants.len() as int,
        ),
{
    let k = (merchants[i].id@, ivk_of(merchants[i].ufvk@)->Ok_0.skip(32));
    let keys = merchant_keys(merchants, merchants.len() as int);
    merchant_has_its_key(merchants, merchants.len() as int, i);
    let j = choose|j: int| 0 <= j < keys.len() && keys[j] == k;
    assert(all_keys(merchants, fee_ufvk)[j] == k);
}

proof fn merchant_has_its_key(merchants: Seq<Merchant>, n: int, i: int)
    requires
        0 <= i < n <= merchants.len(),
        ivk_of(merchants[i].ufvk@) is Ok,
    ensures
        merchant_keys(merchants, n).contains(
            (merchants[i].id@, ivk_of(merchants[i].ufvk@)->Ok_0.skip(32)),
        ),
    decreases n,
{
    let k = (merchants[i].id@, ivk_of(merchants[i].ufvk@)->Ok_0.skip(32));
    let all = merchant_keys(merchants, n);
    if i == n - 1 {
        assert(all[all.len() - 1] == k);
    } else {
        merchant_has_its_key(merchants, n - 1, i);
        let earlier = merchant_keys(merchants, n - 1);
        let j = choose|j: int| 0 <= j < earlier.len() && earlier[j] == k;
        assert(all[j] == k);
    }
}

/// Each merchant has one key at most, and every key is a merchant's.
pub proof fn every_key_is_a_merchants(merchants: Seq<Merchant>, n: int)
    requires
        0 <= n <= merchants.len(),
    ensures
        merchant_keys(merchants, n).len() <= n,
        forall|j: int|
            #![trigger merchant_keys(merchants, n)[j]]
            0 <= j < merchant_keys(merchants, n).len() ==> exists|i: int|
                0 <= i < n && (#[trigger] merchants[i]).id@ == merchant_keys(merchants, n)[j].0
                    && ivk_of(merchants[i].ufvk@) is Ok && ivk_of(merchants[i].ufvk@)->Ok_0.skip(32)
                    == merchant_keys(merchants, n)[j].1,
    decreases n,
{
    if n > 0 {
        every_key_is_a_merchants(merchants, n - 1);
        let all = merchant_keys(merchants, n);
        let earlier = merchant_keys(merchants, n - 1);
        assert forall|j: int| #![trigger all[j]] 0 <= j < all.len() implies exists|i: int|
            0 <= i < n && (#[trigger] merchants[i]).id@ == all[j].0 && ivk_of(
                merchants[i].ufvk@,
            ) is Ok && ivk_of(merchants[i].ufvk@)->Ok_0.skip(32) == all[j].1 by {
            if j < earlier.len() {
                assert(all[j] == earlier[j]);
            } else {
                assert(merchants[n - 1].id@ == all[j].0);
            }
        }
    }
}

/// The keys that were kept serve as long as the merchants are the same, in the
/// same order.
pub proof fn kept_keys_serve_the_same_merchants(cache: KeyCache, merchants: Seq<Merchant>)
    ensures
        is_current(Some(cache), merchants) <==> cache.merchant_ids@.len() == merchants.len()
            && forall|i: int|
            0 <= i < merchants.len() ==> (#[trigger] merchants[i]).id@
                == cache.merchant_ids@[i]@,
        !is_current(None, merchants),
{
    let kept = cache.merchant_ids@.map_values(|s: String| s@);
    let ids = merchant_ids(merchants);
    if is_current(Some(cache), merchants) {
        assert(kept.len() == ids.len());
        assert forall|i: int| 0 <= i < merchants.len() implies (#[trigger] merchants[i]).id@
            == cache.merchant_ids@[i]@ by {
            assert(kept[i] == ids[i]);
        }
    }
    if cache.merchant_ids@.len() == merchants.len() && forall|i: int|
        0 <= i < merchants.len() ==> (#[trigger] merchants[i]).id@ == cache.merchant_ids@[i]@ {
        assert forall|i: int| 0 <= i < kept.len() implies kept[i] == ids[i] by {
            assert(merchants[i].id@ == cache.merchant_ids@[i]@);
        }
        assert(kept =~= ids);
    }
}

/// A first part is what the transaction pays, and a further part comes on top
/// of what was received before. Too much is more than 1000 zatoshis above the
/// price.
pub proof fn parts_add_up(inv: Invoice, tx_total: i64)
    ensures
        inv.status@ == "underpaid"@ ==> received_with(&inv, tx_total) == inv.received_zatoshis
            + tx_total,
        inv.status@ == "pending"@ ==> received_with(&inv, tx_total) == tx_total,
        exceeds(tx_total as int, inv.price_zatoshis as int) <==> tx_total - inv.price_zatoshis
            > 1_000,
{
    payment_statuses_differ();
}

/// A fee was paid where an output says for which invoice.
pub proof fn fee_names_its_invoice(outputs: Seq<OutputView>, o: OutputView, invoice_id: Seq<char>)
    ensures
        o.memo == "FEE-"@ + invoice_id ==> carries_fee(outputs.push(o), invoice_id),
        carries_fee(outputs, invoice_id) ==> carries_fee(outputs.push(o), invoice_id),
        !carries_fee(outputs, invoice_id) && !("FEE-"@ + invoice_id).is_prefix_of(o.memo)
            ==> !carries_fee(outputs.push(o), invoice_id),
        !carries_fee(Seq::<OutputView>::empty(), invoice_id),
{
    let more = outputs.push(o);
    let code = "FEE-"@ + invoice_id;
    assert(more[outputs.len() as int] == o);
    assert(forall|i: int| 0 <= i < outputs.len() ==> #[trigger] more[i] == outputs[i]);
    if o.memo == code {
        assert(code.is_prefix_of(more[outputs.len() as int].memo));
    }
    if carries_fee(outputs, invoice_id) {
        let i = choose|i: int|
            0 <= i < outputs.len() && code.is_prefix_of((#[trigger] outputs[i]).memo);
        assert(code.is_prefix_of(more[i].memo));
    }
    if carries_fee(more, invoice_id) {
        let i = choose|i: int| 0 <= i < more.len() && code.is_prefix_of((#[trigger] more[i]).memo);
        assert(i == outputs.len() || code.is_prefix_of(outputs[i].memo));
    }
}

/// Each invoice that a transaction pays has one total, of all that it pays to
/// it, and an invoice that it does not pay has none.
pub proof fn totals_are_of_what_was_paid(
    invoices: Seq<Invoice>,
    payments: Seq<(int, int)>,
    totals: Seq<InvoiceTotal>,
    k: int,
    j: int,
)
    requires
        tallies(invoices, payments, totals),
        0 <= k < totals.len(),
        0 <= j < totals.len(),
    ensures
        k != j ==> totals[k].invoice.id@ != totals[j].invoice.id@,
        totals[k].tx_total == paid_total(invoices, payments, totals[k].invoice.id@),
        exists|p: int|
            0 <= p < payments.len() && invoices[(#[trigger] payments[p]).0] == *totals[k].invoice,
        forall|p: int|
            0 <= p < payments.len() ==> has_total(totals, invoices[(#[trigger] payments[p]).0].id@),
{
    assert(is_paid(invoices, payments, *totals[k].invoice));
}

} // verus!
