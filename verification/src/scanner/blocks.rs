//! Reading the chain: what its interface answers, how often it is asked, and
//! which blocks come next.

use vstd::prelude::*;

use crate::json::{member_texts_among, pick_member_texts, pick_texts, texts, texts_among, Json};
use crate::text::{decimal, decimal_text, join2};

verus! {

/// Failures in a row after which the circuit breaker opens.
pub const FAILURE_THRESHOLD: u32 = 5;

/// Seconds for which the circuit breaker stays open.
pub const COOLDOWN_SECS: u64 = 30;

/// How often the fetch of a block is tried.
pub const BLOCK_FETCH_RETRIES: u32 = 3;

/// Milliseconds before the first repetition of a fetch.
pub const BLOCK_FETCH_BASE_DELAY_MS: u64 = 1000;

/// Number of blocks that are fetched at a time.
pub const BLOCK_FETCH_BATCH_SIZE: usize = 10;

/// Number of blocks that a scan covers at most, so that confirmations are
/// looked at often enough.
pub const MAX_BLOCKS_PER_SCAN: u64 = 100;

/// A circuit breaker: it opens after a number of consecutive failures and
/// stays open for a while. After that it is half-open: it lets one probe
/// through, and holds further calls back until the outcome of the probe is
/// recorded.
pub struct CircuitBreaker {
    pub consecutive_failures: u32,
    pub opened_at_epoch_secs: u64,
    pub probing: bool,
}

/// Calls `SystemTime::now` and gives the seconds since 1970; nothing is known
/// of the clock.
#[verifier::external_body]
fn epoch_secs() -> (r: u64)
{
    let now = std::time::SystemTime::now();
    now.duration_since(std::time::UNIX_EPOCH).unwrap_or_default().as_secs()
}

/// Whether at a time the cooldown after the last failure is not over.
pub open spec fn is_cooling(last_failure: u64, now: u64) -> bool {
    now.wrapping_sub(last_failure) < COOLDOWN_SECS
}

impl CircuitBreaker {
    /// Whether the breaker holds calls back at a time: there were enough
    /// failures in a row, and either the cooldown is not over or a probe is
    /// under way.
    pub open spec fn open_at(&self, now: u64) -> bool {
        self.consecutive_failures >= FAILURE_THRESHOLD && (is_cooling(
            self.opened_at_epoch_secs,
            now,
        ) || self.probing)
    }

    /// The breaker before anything was recorded.
    pub open spec fn closed() -> CircuitBreaker {
        CircuitBreaker { consecutive_failures: 0, opened_at_epoch_secs: 0, probing: false }
    }

    /// The breaker once it was asked at a time: a call that is let through
    /// after enough failures is a probe.
    pub open spec fn asked(self, now: u64) -> CircuitBreaker {
        CircuitBreaker {
            probing: self.probing || (self.consecutive_failures >= FAILURE_THRESHOLD
                && !is_cooling(self.opened_at_epoch_secs, now)),
            ..self
        }
    }

    /// The breaker once a call succeeded.
    pub open spec fn succeeded(self) -> CircuitBreaker {
        CircuitBreaker { consecutive_failures: 0, probing: false, ..self }
    }

    /// The breaker once a call failed at a time; from the threshold on, the
    /// cooldown begins anew.
    pub open spec fn failed(self, now: u64) -> CircuitBreaker {
        CircuitBreaker {
            consecutive_failures: (self.consecutive_failures + 1) as u32,
            opened_at_epoch_secs: if self.consecutive_failures + 1 >= FAILURE_THRESHOLD {
                now
            } else {
                self.opened_at_epoch_secs
            },
            probing: false,
        }
    }

    pub fn new() -> (r: CircuitBreaker)
        ensures
            r == CircuitBreaker::closed(),
    {
        CircuitBreaker { consecutive_failures: 0, opened_at_epoch_secs: 0, probing: false }
    }

    /// Whether the breaker holds a call back at a time. Where it lets the call
    /// through after the cooldown, the call is the probe.
    pub fn is_open_at(&mut self, now: u64) -> (r: bool)
        ensures
            r == old(self).open_at(now),
            *final(self) == old(self).asked(now),
    {
        if self.consecutive_failures < FAILURE_THRESHOLD {
            return false;
        }
        if self.probing || now.wrapping_sub(self.opened_at_epoch_secs) < COOLDOWN_SECS {
            return true;
        }
        self.probing = true;
        false
    }

    /// Whether the breaker holds a call back now.
    pub fn is_open(&mut self) -> (r: bool)
        ensures
            exists|now: u64|
                r == #[trigger] old(self).open_at(now) && *final(self) == old(self).asked(now),
    {
        let now: u64 = epoch_secs();
        let r: bool = self.is_open_at(now);
        assert(r == old(self).open_at(now));
        r
    }

    /// Closes the breaker.
    pub fn record_success(&mut self)
        ensures
            *final(self) == old(self).succeeded(),
    {
        self.consecutive_failures = 0;
        self.probing = false;
    }

    /// Counts a failure at a time; from the threshold on, the breaker opens
    /// anew.
    pub fn record_failure_at(&mut self, now: u64)
        requires
            old(self).consecutive_failures < u32::MAX,
        ensures
            *final(self) == old(self).failed(now),
    {
        self.consecutive_failures = self.consecutive_failures + 1;
        self.probing = false;
        if self.consecutive_failures >= FAILURE_THRESHOLD {
            self.opened_at_epoch_secs = now;
        }
    }

    /// Counts a failure now.
    pub fn record_failure(&mut self)
        requires
            old(self).consecutive_failures < u32::MAX,
        ensures
            exists|now: u64| *final(self) == #[trigger] old(self).failed(now),
    {
        let now: u64 = epoch_secs();
        self.record_failure_at(now);
        assert(*self == old(self).failed(now));
    }
}

/// What happens to a breaker: it is asked at a time, a call succeeds, or one
/// fails at a time.
pub ghost enum BreakerEvent {
    Asked(u64),
    Succeeded,
    Failed(u64),
}

/// The breaker after a history.
pub open spec fn breaker_after(history: Seq<BreakerEvent>) -> CircuitBreaker
    decreases history.len(),
{
    if history.len() == 0 {
        CircuitBreaker::closed()
    } else {
        let b = breaker_after(history.drop_last());
        match history.last() {
            BreakerEvent::Asked(now) => b.asked(now),
            BreakerEvent::Succeeded => b.succeeded(),
            BreakerEvent::Failed(now) => b.failed(now),
        }
    }
}

/// The number of failures since the last success.
pub open spec fn failures_in_a_row(history: Seq<BreakerEvent>) -> nat
    decreases history.len(),
{
    if history.len() == 0 {
        0
    } else {
        match history.last() {
            BreakerEvent::Asked(_) => failures_in_a_row(history.drop_last()),
            BreakerEvent::Succeeded => 0,
            BreakerEvent::Failed(_) => failures_in_a_row(history.drop_last()) + 1,
        }
    }
}

/// When the latest failure was, zero where there was none.
pub open spec fn latest_failure(history: Seq<BreakerEvent>) -> u64
    decreases history.len(),
{
    if history.len() == 0 {
        0
    } else {
        match history.last() {
            BreakerEvent::Failed(now) => now,
            _ => latest_failure(history.drop_last()),
        }
    }
}

/// Whether a probe was let through and its outcome is not recorded yet.
pub open spec fn is_probing(history: Seq<BreakerEvent>) -> bool
    decreases history.len(),
{
    if history.len() == 0 {
        false
    } else {
        let earlier = history.drop_last();
        match history.last() {
            BreakerEvent::Asked(now) => is_probing(earlier) || (failures_in_a_row(earlier)
                >= FAILURE_THRESHOLD && !is_cooling(latest_failure(earlier), now)),
            _ => false,
        }
    }
}

/// After any history the breaker holds calls back exactly where there were
/// enough failures in a row and either the cooldown since the latest of them
/// is not over or a probe is under way.
pub proof fn breaker_follows_history(history: Seq<BreakerEvent>, now: u64)
    requires
        failures_in_a_row(history) <= u32::MAX,
    ensures
        breaker_after(history).consecutive_failures == failures_in_a_row(history),
        breaker_after(history).open_at(now) == (failures_in_a_row(history) >= FAILURE_THRESHOLD
            && (is_cooling(latest_failure(history), now) || is_probing(history))),
{
    breaker_state(history);
}

proof fn breaker_state(history: Seq<BreakerEvent>)
    requires
        failures_in_a_row(history) <= u32::MAX,
    ensures
        breaker_after(history).consecutive_failures == failures_in_a_row(history),
        breaker_after(history).probing == is_probing(history),
        failures_in_a_row(history) >= FAILURE_THRESHOLD
            ==> breaker_after(history).opened_at_epoch_secs == latest_failure(history),
    decreases history.len(),
{
    if history.len() > 0 && !(history.last() is Succeeded) {
        breaker_state(history.drop_last());
    }
}

/// While the clock has not reached the end of the cooldown after the latest
/// failure, the breaker is open exactly from the threshold on; below the
/// threshold it is never open.
pub proof fn breaker_opens_at_the_threshold(history: Seq<BreakerEvent>, now: u64)
    requires
        failures_in_a_row(history) <= u32::MAX,
        latest_failure(history) <= now,
        failures_in_a_row(history) < FAILURE_THRESHOLD || now - latest_failure(history)
            < COOLDOWN_SECS,
    ensures
        breaker_after(history).open_at(now) == (failures_in_a_row(history) >= FAILURE_THRESHOLD),
{
    breaker_state(history);
}

/// Once the cooldown is over and no probe is under way, an open breaker lets
/// one call through, and holds every later one back until the outcome of that
/// probe is recorded.
pub proof fn one_probe_after_the_cooldown(
    history: Seq<BreakerEvent>,
    first: u64,
    later: Seq<u64>,
    now: u64,
)
    requires
        FAILURE_THRESHOLD <= failures_in_a_row(history) <= u32::MAX,
        latest_failure(history) + COOLDOWN_SECS <= first,
        !is_probing(history),
    ensures
        !breaker_after(history).open_at(first),
        breaker_after(
            history.push(BreakerEvent::Asked(first)) + later.map_values(
                |t: u64| BreakerEvent::Asked(t),
            ),
        ).open_at(now),
    decreases later.len(),
{
    breaker_state(history);
    let probed = history.push(BreakerEvent::Asked(first));
    assert(probed.drop_last() =~= history);
    let asked = later.map_values(|t: u64| BreakerEvent::Asked(t));
    if later.len() == 0 {
        assert(probed + asked =~= probed);
    } else {
        let fewer = later.drop_last();
        let asked_before = fewer.map_values(|t: u64| BreakerEvent::Asked(t));
        one_probe_after_the_cooldown(history, first, fewer, now);
        assert((probed + asked).drop_last() =~= probed + asked_before);
        assert((probed + asked).last() == BreakerEvent::Asked(later.last()));
    }
}

/// The height of the chain: the number of blocks, or else of headers.
pub fn chain_height(blocks: Option<u64>, headers: Option<u64>) -> (r: Option<u64>)
    ensures
        r == if blocks is Some {
            blocks
        } else {
            headers
        },
{
    match blocks {
        Some(_) => blocks,
        None => headers,
    }
}

/// Milliseconds to wait before an attempt: none before the first one, then
/// twice as long each time. `None` where no further attempt is made.
pub fn retry_delay_ms(attempt: u32) -> (r: Option<u64>)
    ensures
        r == match attempt {
            0 => Some(0u64),
            1 => Some(1000u64),
            2 => Some(2000u64),
            _ => None,
        },
{
    if attempt >= BLOCK_FETCH_RETRIES {
        None
    } else if attempt == 0 {
        Some(0)
    } else if attempt == 1 {
        Some(BLOCK_FETCH_BASE_DELAY_MS)
    } else {
        Some(BLOCK_FETCH_BASE_DELAY_MS * 2)
    }
}

/// Why an answer is no block.
#[derive(Debug, Clone, Copy, PartialEq, Eq, Structural)]
pub enum BlockError {
    MissingTransactions(u64),
    NoTransactions(u64),
}

impl BlockError {
    pub open spec fn spec_message(self) -> Seq<char> {
        match self {
            BlockError::MissingTransactions(h) => "Block "@ + decimal(h as nat)
                + " response missing transaction list"@,
            BlockError::NoTransactions(h) => "Block "@ + decimal(h as nat)
                + " returned empty transaction list (expected at least coinbase)"@,
        }
    }

    pub fn message(&self) -> (r: String)
        ensures
            r@ == self.spec_message(),
    {
        match self {
            BlockError::MissingTransactions(h) => {
                let mut r: String = join2("Block ", decimal_text(*h).as_str());
                r.append(" response missing transaction list");
                r
            },
            BlockError::NoTransactions(h) => {
                let mut r: String = join2("Block ", decimal_text(*h).as_str());
                r.append(" returned empty transaction list (expected at least coinbase)");
                r
            },
        }
    }
}

/// The transaction identifiers that an answer lists, if it lists any: in
/// objects under `transactions`, or else as texts under `tx`.
pub open spec fn listed_txids(resp: Json) -> Option<Seq<Seq<char>>> {
    match resp.member_items("transactions"@) {
        Some(items) => Some(member_texts_among(items, "txid"@, items.len() as int)),
        None => match resp.member_items("tx"@) {
            Some(items) => Some(texts_among(items, items.len() as int)),
            None => None,
        },
    }
}

/// The transaction identifiers of a block. Every block above the first one has
/// at least one transaction.
pub fn extract_block_txids(resp: &Json, height: u64) -> (r: Result<Vec<String>, BlockError>)
    ensures
        match r {
            Ok(v) => listed_txids(*resp) == Some(texts(v@)) && (height > 0 ==> v@.len() > 0),
            Err(BlockError::MissingTransactions(h)) => h == height && listed_txids(*resp) is None,
            Err(BlockError::NoTransactions(h)) => h == height && height > 0 && listed_txids(*resp)
                == Some(Seq::<Seq<char>>::empty()),
        },
{
    let txids: Vec<String> = match resp.get_items("transactions") {
        Some(items) => pick_member_texts(items, "txid"),
        None => match resp.get_items("tx") {
            Some(items) => pick_texts(items),
            None => {
                return Err(BlockError::MissingTransactions(height));
            },
        },
    };
    if txids.len() == 0 && height > 0 {
        assert(texts(txids@) =~= Seq::<Seq<char>>::empty());
        return Err(BlockError::NoTransactions(height));
    }
    Ok(txids)
}

/// What the fetches of some blocks give together: everything in the order of
/// the blocks, unless one of them failed.
pub open spec fn all_txids(results: Seq<Result<Vec<String>, String>>, n: int) -> Seq<Seq<char>>
    decreases n,
{
    if n <= 0 {
        Seq::empty()
    } else {
        match results[n - 1] {
            Ok(v) => all_txids(results, n - 1) + texts(v@),
            Err(_) => all_txids(results, n - 1),
        }
    }
}

/// Puts the fetches of some blocks together. One failed block fails all of
/// them, so that no block is passed over; the last failure is given.
pub fn merge_block_txids(results: &Vec<Result<Vec<String>, String>>) -> (r: Result<
    Vec<String>,
    String,
>)
    ensures
        match r {
            Ok(v) => {
                &&& forall|i: int| 0 <= i < results@.len() ==> (#[trigger] results@[i]) is Ok
                &&& texts(v@) == all_txids(results@, results@.len() as int)
            },
            Err(e) => exists|i: int|
                0 <= i < results@.len() && (#[trigger] results@[i] matches Err(x) && x@ == e@)
                    && forall|k: int| i < k < results@.len() ==> (#[trigger] results@[k]) is Ok,
        },
{
    let mut out: Vec<String> = Vec::new();
    let mut failed: Option<usize> = None;
    let mut i: usize = 0;
    assert(texts(out@) =~= Seq::<Seq<char>>::empty());
    while i < results.len()
        invariant
            i <= results@.len(),
            texts(out@) == all_txids(results@, i as int),
            match failed {
                Some(f) => f < i && results@[f as int] is Err && forall|k: int|
                    f < k < i ==> (#[trigger] results@[k]) is Ok,
                None => forall|k: int| 0 <= k < i ==> (#[trigger] results@[k]) is Ok,
            },
        decreases results@.len() - i,
    {
        match &results[i] {
            Ok(v) => {
                let ghost before = out@;
                let mut j: usize = 0;
                assert(texts(before) + texts(v@.take(0)) =~= texts(before));
                while j < v.len()
                    invariant
                        j <= v@.len(),
                        texts(out@) == texts(before) + texts(v@.take(j as int)),
                    decreases v@.len() - j,
                {
                    let ghost so_far = out@;
                    out.push(v[j].clone());
                    proof {
                        assert(texts(out@) =~= texts(so_far).push(v@[j as int]@));
                        assert(v@.take(j + 1) =~= v@.take(j as int).push(v@[j as int]));
                        assert(texts(v@.take(j + 1)) =~= texts(v@.take(j as int)).push(
                            v@[j as int]@,
                        ));
                        assert((texts(before) + texts(v@.take(j as int))).push(v@[j as int]@)
                            =~= texts(before) + texts(v@.take(j as int)).push(v@[j as int]@));
                    }
                    j = j + 1;
                }
                assert(v@.take(j as int) =~= v@);
            },
            Err(_) => {
                failed = Some(i);
            },
        }
        i = i + 1;
    }
    match failed {
        Some(f) => match &results[f] {
            Err(e) => Err(e.clone()),
            Ok(_) => Ok(out),
        },
        None => Ok(out),
    }
}

/// Whether an answer shows a transaction in a block.
pub open spec fn shows_confirmed(resp: Json) -> bool {
    ||| resp.member_u64("block_height"@) is Some
    ||| resp.member_u64("blockHeight"@) is Some
    ||| resp.member_u64("confirmations"@) matches Some(c) && c >= 1
}

/// Whether an answer shows a transaction in a block.
pub fn tx_confirmed(resp: &Json) -> (r: bool)
    ensures
        r == shows_confirmed(*resp),
{
    resp.get_u64("block_height").is_some() || resp.get_u64("blockHeight").is_some()
        || match resp.get_u64("confirmations") {
        Some(c) => c >= 1,
        None => false,
    }
}

/// The blocks that a scan covers, from the first one up to and with the last
/// one; none where the first one is beyond the last one.
#[derive(Debug, Clone, Copy, PartialEq, Eq, Structural)]
pub struct ScanRange {
    pub start: u64,
    pub end: u64,
}

/// The first and the last block of the scan after the last scanned height,
/// with the tip of the chain: from the block after the last scanned one, or
/// from the tip where nothing was scanned yet, up to the tip, but no more than
/// a scan covers.
pub open spec fn scan_range_of(last_height: Option<u64>, current_height: u64) -> (int, int) {
    let start = match last_height {
        Some(h) => h + 1,
        None => current_height as int,
    };
    let cap = start + MAX_BLOCKS_PER_SCAN - 1;
    (
        start,
        if current_height < cap {
            current_height as int
        } else {
            cap
        },
    )
}

/// The blocks that come next. The end of the range is the height that counts
/// as scanned after it.
pub fn next_scan_range(last_height: Option<u64>, current_height: u64) -> (r: ScanRange)
    requires
        last_height matches Some(h) ==> h < u64::MAX - MAX_BLOCKS_PER_SCAN,
        current_height < u64::MAX - MAX_BLOCKS_PER_SCAN,
    ensures
        (r.start as int, r.end as int) == scan_range_of(last_height, current_height),
        r.end <= current_height,
        r.end - r.start < MAX_BLOCKS_PER_SCAN,
{
    let start: u64 = match last_height {
        Some(h) => h + 1,
        None => current_height,
    };
    let cap: u64 = start + MAX_BLOCKS_PER_SCAN - 1;
    let end: u64 = if current_height < cap {
        current_height
    } else {
        cap
    };
    ScanRange { start, end }
}

/// A scan begins right after the one before it, so that no block is passed
/// over, and as long as the tip is not reached it covers at least one block.
pub proof fn scans_leave_no_gap(last_height: Option<u64>, tip: u64, end: u64, later_tip: u64)
    requires
        scan_range_of(last_height, tip).1 == end,
    ensures
        scan_range_of(Some(end), later_tip).0 == end + 1,
        end < later_tip ==> scan_range_of(Some(end), later_tip).1 > end,
        end <= tip,
{
}

/// The breaker opens with the fifth failure in a row and stays open for thirty
/// seconds; a success closes it.
pub proof fn fifth_failure_opens_the_breaker(b: CircuitBreaker, at: u64, now: u64)
    requires
        b.consecutive_failures < u32::MAX,
        at <= now,
    ensures
        b.consecutive_failures >= 4 ==> (b.failed(at).open_at(now) <==> now - at < 30),
        b.consecutive_failures < 4 ==> !b.failed(at).open_at(now),
        b.failed(at).consecutive_failures == b.consecutive_failures + 1,
        !b.succeeded().open_at(now),
        b.succeeded().consecutive_failures == 0,
        !CircuitBreaker::closed().open_at(now),
{
}

/// Once the thirty seconds are over one call is let through, and the next has to
/// wait for its outcome.
pub proof fn one_call_probes(b: CircuitBreaker, now: u64, next: u64)
    requires
        b.consecutive_failures >= 5,
        !b.probing,
        b.opened_at_epoch_secs + 30 <= now,
    ensures
        !b.open_at(now),
        b.asked(now).probing,
        b.asked(now).open_at(next),
        !b.asked(now).succeeded().open_at(next),
{
}

/// A scan goes on behind the last block that was scanned, or starts at the tip.
/// It covers a hundred blocks at most and never passes the tip; it reaches the
/// tip where that is not too far.
pub proof fn scan_goes_on_to_the_tip(last_height: Option<u64>, current_height: u64)
    ensures
        ({
            let r = scan_range_of(last_height, current_height);
            &&& last_height matches Some(h) ==> r.0 == h + 1
            &&& last_height is None ==> r.0 == current_height && r.1 == current_height
            &&& r.1 <= current_height
            &&& r.1 - r.0 < 100
            &&& current_height - r.0 < 100 ==> r.1 == current_height
            &&& current_height - r.0 >= 100 ==> r.1 == r.0 + 99
        }),
{
}

/// A transaction is confirmed where a block holds it, under either name, or one
/// confirmation at least is counted.
pub proof fn block_confirms_a_transaction(resp: Json)
    ensures
        shows_confirmed(resp) <==> (resp.member_u64("block_height"@) is Some || resp.member_u64(
            "blockHeight"@,
        ) is Some || (resp.member_u64("confirmations"@) is Some && resp.member_u64(
            "confirmations"@,
        )->0 > 0)),
{
}

/// The transactions of a block are those it lists, as objects with an id or else
/// as plain texts, in its order.
pub proof fn block_lists_its_transactions(resp: Json)
    ensures
        resp.member_items("transactions"@) matches Some(items) ==> listed_txids(resp) == Some(
            member_texts_among(items, "txid"@, items.len() as int),
        ),
        resp.member_items("transactions"@) is None ==> (match resp.member_items("tx"@) {
            Some(items) => listed_txids(resp) == Some(texts_among(items, items.len() as int)),
            None => listed_txids(resp) is None,
        }),
{
}

/// The transactions of several blocks are those of each, one after the other.
pub proof fn blocks_are_merged_in_order(
    results: Seq<Result<Vec<String>, String>>,
    more: Vec<String>,
)
    ensures
        all_txids(results.push(Ok(more)), results.len() as int + 1) == all_txids(
            results,
            results.len() as int,
        ) + texts(more@),
        all_txids(results, 0).len() == 0,
{
    let all = results.push(Ok::<Vec<String>, String>(more));
    earlier_blocks_decide(results, all, results.len() as int);
}

proof fn earlier_blocks_decide(
    a: Seq<Result<Vec<String>, String>>,
    b: Seq<Result<Vec<String>, String>>,
    n: int,
)
    requires
        n <= a.len() <= b.len(),
        forall|i: int| 0 <= i < a.len() ==> a[i] == #[trigger] b[i],
    ensures
        all_txids(a, n) == all_txids(b, n),
    decreases n,
{
    if n > 0 {
        earlier_blocks_decide(a, b, n - 1);
        assert(a[n - 1] == b[n - 1]);
    }
}

} // verus!
