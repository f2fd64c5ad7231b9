//! Counters of the scanner and what they say of its health.

use vstd::prelude::*;

verus! {

/// Seconds for which an error counts as recent.
pub const ERROR_WINDOW_SECS: u64 = 3600;

/// Seconds after which the last error is no longer shown.
pub const STALE_ERROR_MSG_SECS: u64 = 600;

/// Blocks that the scanner may be behind and still be healthy.
pub const HEALTHY_LAG: u64 = 2;

/// Blocks that the scanner may be behind while it catches up.
pub const CATCHING_UP_LAG: u64 = 20;

pub struct MetricsSnapshot {
    pub blocks_scanned: u64,
    pub last_block_height: u64,
    pub chain_tip_height: u64,
    pub payments_detected: u64,
    pub mempool_txs_checked: u64,
    pub total_errors: u64,
    pub last_block_scan_ms: u64,
    pub last_mempool_scan_ms: u64,
}

impl MetricsSnapshot {
    pub open spec fn lag(&self) -> int {
        if self.chain_tip_height > self.last_block_height {
            self.chain_tip_height - self.last_block_height
        } else {
            0
        }
    }

    /// How many blocks the scanner is behind the tip.
    pub fn blocks_behind(&self) -> (r: u64)
        ensures
            r == self.lag(),
    {
        self.chain_tip_height.saturating_sub(self.last_block_height)
    }

    pub open spec fn spec_status(&self) -> Seq<char> {
        if self.last_block_height == 0 {
            "starting"@
        } else if self.lag() <= HEALTHY_LAG {
            "healthy"@
        } else if self.lag() <= CATCHING_UP_LAG {
            "catching_up"@
        } else {
            "behind"@
        }
    }

    /// The state of the scanner in a word.
    pub fn status(&self) -> (r: &'static str)
        ensures
            r@ == self.spec_status(),
    {
        let behind: u64 = self.blocks_behind();
        if self.last_block_height == 0 {
            "starting"
        } else if behind <= HEALTHY_LAG {
            "healthy"
        } else if behind <= CATCHING_UP_LAG {
            "catching_up"
        } else {
            "behind"
        }
    }
}

/// The counters of the scanner. Times are in seconds of a clock that does not
/// go back.
pub struct ScannerMetrics {
    pub blocks_scanned: u64,
    pub last_block_height: u64,
    pub chain_tip_height: u64,
    pub payments_detected: u64,
    pub mempool_txs_checked: u64,
    pub total_errors: u64,
    pub last_block_scan_ms: u64,
    pub last_mempool_scan_ms: u64,
    pub started_at: Option<u64>,
    pub last_error: Option<(String, u64)>,
    pub error_timestamps: Vec<u64>,
}

/// Whether an error at a time is recent.
pub open spec fn is_recent(at: u64, now: u64) -> bool {
    at + ERROR_WINDOW_SECS > now
}

/// How many of the first `n` times are recent.
pub open spec fn recent_count(times: Seq<u64>, now: u64, n: int) -> int
    decreases n,
{
    if n <= 0 {
        0
    } else {
        recent_count(times, now, n - 1) + if is_recent(times[n - 1], now) {
            1int
        } else {
            0
        }
    }
}

impl ScannerMetrics {
    pub fn new() -> (r: ScannerMetrics)
        ensures
            r.blocks_scanned == 0,
            r.last_block_height == 0,
            r.chain_tip_height == 0,
            r.payments_detected == 0,
            r.mempool_txs_checked == 0,
            r.total_errors == 0,
            r.last_block_scan_ms == 0,
            r.last_mempool_scan_ms == 0,
            r.started_at is None,
            r.last_error is None,
            r.error_timestamps@.len() == 0,
    {
        ScannerMetrics {
            blocks_scanned: 0,
            last_block_height: 0,
            chain_tip_height: 0,
            payments_detected: 0,
            mempool_txs_checked: 0,
            total_errors: 0,
            last_block_scan_ms: 0,
            last_mempool_scan_ms: 0,
            started_at: None,
            last_error: None,
            error_timestamps: Vec::new(),
        }
    }

    /// Seconds since the scanner was started, zero where it was not.
    pub fn uptime_secs(&self, now: u64) -> (r: u64)
        ensures
            r == match self.started_at {
                Some(s) => if s <= now {
                    now - s
                } else {
                    0
                },
                None => 0,
            },
    {
        match self.started_at {
            Some(s) => now.saturating_sub(s),
            None => 0,
        }
    }

    /// Notes that the scanner was started.
    pub fn mark_started(&mut self, now: u64)
        ensures
            *final(self) == (ScannerMetrics { started_at: Some(now), ..*old(self) }),
    {
        self.started_at = Some(now);
    }

    /// Counts scanned blocks; the counter wraps around.
    pub fn record_blocks_scanned(&mut self, count: u64)
        ensures
            *final(self) == (ScannerMetrics {
                blocks_scanned: old(self).blocks_scanned.wrapping_add(count),
                ..*old(self)
            }),
    {
        self.blocks_scanned = self.blocks_scanned.wrapping_add(count);
    }

    /// Notes the height up to which blocks were scanned.
    pub fn set_last_block_height(&mut self, height: u64)
        ensures
            *final(self) == (ScannerMetrics { last_block_height: height, ..*old(self) }),
    {
        self.last_block_height = height;
    }

    /// Notes the height of the chain.
    pub fn set_chain_tip(&mut self, height: u64)
        ensures
            *final(self) == (ScannerMetrics { chain_tip_height: height, ..*old(self) }),
    {
        self.chain_tip_height = height;
    }

    /// Counts a detected payment; the counter wraps around.
    pub fn record_payment_detected(&mut self)
        ensures
            *final(self) == (ScannerMetrics {
                payments_detected: old(self).payments_detected.wrapping_add(1),
                ..*old(self)
            }),
    {
        self.payments_detected = self.payments_detected.wrapping_add(1);
    }

    /// Counts checked transactions; the counter wraps around.
    pub fn record_mempool_txs(&mut self, count: u64)
        ensures
            *final(self) == (ScannerMetrics {
                mempool_txs_checked: old(self).mempool_txs_checked.wrapping_add(count),
                ..*old(self)
            }),
    {
        self.mempool_txs_checked = self.mempool_txs_checked.wrapping_add(count);
    }

    /// Notes an error.
    pub fn record_scan_error(&mut self, msg: &str, now: u64)
        ensures
            final(self).total_errors == old(self).total_errors.wrapping_add(1),
            final(self).last_error matches Some(e) && e.0@ == msg@ && e.1 == now,
            final(self).error_timestamps@ == old(self).error_timestamps@.push(now),
            *final(self) == (ScannerMetrics {
                total_errors: final(self).total_errors,
                last_error: final(self).last_error,
                error_timestamps: final(self).error_timestamps,
                ..*old(self)
            }),
    {
        self.total_errors = self.total_errors.wrapping_add(1);
        self.last_error = Some((msg.to_string(), now));
        self.error_timestamps.push(now);
    }

    /// The number of errors in the last hour.
    pub fn recent_errors(&self, now: u64) -> (r: u64)
        ensures
            r == recent_count(self.error_timestamps@, now, self.error_timestamps@.len() as int),
    {
        let mut n: u64 = 0;
        let mut i: usize = 0;
        while i < self.error_timestamps.len()
            invariant
                i <= self.error_timestamps@.len(),
                n == recent_count(self.error_timestamps@, now, i as int),
                n <= i,
            decreases self.error_timestamps@.len() - i,
        {
            if self.error_timestamps[i] as u128 + ERROR_WINDOW_SECS as u128 > now as u128 {
                n = n + 1;
            }
            i = i + 1;
        }
        n
    }

    /// Forgets the errors that are no longer recent.
    pub fn evict_old_errors(&mut self, now: u64)
        ensures
            final(self).error_timestamps@ == old(self).error_timestamps@.filter(
                |t: u64| is_recent(t, now),
            ),
            *final(self) == (ScannerMetrics {
                error_timestamps: final(self).error_timestamps,
                ..*old(self)
            }),
    {
        let ghost keep = |t: u64| is_recent(t, now);
        let ghost all = self.error_timestamps@;
        let mut kept: Vec<u64> = Vec::new();
        let mut i: usize = 0;
        assert(all.take(0).filter(keep) =~= Seq::<u64>::empty()) by {
            reveal(Seq::filter);
        }
        while i < self.error_timestamps.len()
            invariant
                i <= all.len(),
                self.error_timestamps@ == all,
                *self == *old(self),
                keep == (|t: u64| is_recent(t, now)),
                kept@ == all.take(i as int).filter(keep),
            decreases all.len() - i,
        {
            proof {
                reveal(Seq::filter);
                assert(all.take(i + 1).drop_last() =~= all.take(i as int));
            }
            let t: u64 = self.error_timestamps[i];
            if t as u128 + ERROR_WINDOW_SECS as u128 > now as u128 {
                kept.push(t);
            }
            i = i + 1;
        }
        assert(all.take(i as int) =~= all);
        self.error_timestamps = kept;
    }

    /// The last error and its age, where it is not stale.
    pub fn last_error(&self, now: u64) -> (r: Option<(String, u64)>)
        ensures
            match r {
                Some(x) => self.last_error matches Some(e) && x.0@ == e.0@ && x.1 == (if e.1
                    <= now {
                    now - e.1
                } else {
                    0
                }) && x.1 < 600,
                None => match self.last_error {
                    Some(e) => e.1 + 600 <= now,
                    None => true,
                },
            },
    {
        match &self.last_error {
            Some(e) => {
                let ago: u64 = now.saturating_sub(e.1);
                if ago < STALE_ERROR_MSG_SECS {
                    Some((e.0.clone(), ago))
                } else {
                    None
                }
            },
            None => None,
        }
    }

    /// Notes how long the last scan of blocks took.
    pub fn set_last_block_scan_ms(&mut self, ms: u64)
        ensures
            *final(self) == (ScannerMetrics { last_block_scan_ms: ms, ..*old(self) }),
    {
        self.last_block_scan_ms = ms;
    }

    /// Notes how long the last scan of the mempool took.
    pub fn set_last_mempool_scan_ms(&mut self, ms: u64)
        ensures
            *final(self) == (ScannerMetrics { last_mempool_scan_ms: ms, ..*old(self) }),
    {
        self.last_mempool_scan_ms = ms;
    }

    /// The number of all errors.
    pub fn total_errors(&self) -> (r: u64)
        ensures
            r == self.total_errors,
    {
        self.total_errors
    }

    /// The counters at this moment.
    pub fn snapshot(&self) -> (r: MetricsSnapshot)
        ensures
            r == (MetricsSnapshot {
                blocks_scanned: self.blocks_scanned,
                last_block_height: self.last_block_height,
                chain_tip_height: self.chain_tip_height,
                payments_detected: self.payments_detected,
                mempool_txs_checked: self.mempool_txs_checked,
                total_errors: self.total_errors,
                last_block_scan_ms: self.last_block_scan_ms,
                last_mempool_scan_ms: self.last_mempool_scan_ms,
            }),
    {
        MetricsSnapshot {
            blocks_scanned: self.blocks_scanned,
            last_block_height: self.last_block_height,
            chain_tip_height: self.chain_tip_height,
            payments_detected: self.payments_detected,
            mempool_txs_checked: self.mempool_txs_checked,
            total_errors: self.total_errors,
            last_block_scan_ms: self.last_block_scan_ms,
            last_mempool_scan_ms: self.last_mempool_scan_ms,
        }
    }
}

/// The scanner is starting until it has scanned a block. Then it is healthy up
/// to 2 blocks behind the tip, catching up to 20, and behind beyond that.
pub proof fn status_follows_the_lag(snap: MetricsSnapshot)
    ensures
        ({
            let behind = snap.chain_tip_height - snap.last_block_height;
            let begun = snap.last_block_height > 0;
            &&& snap.lag() >= 0
            &&& behind >= 0 ==> snap.lag() == behind
            &&& behind < 0 ==> snap.lag() == 0
            &&& !begun <==> snap.spec_status() == "starting"@
            &&& begun && behind <= 2 <==> snap.spec_status() == "healthy"@
            &&& begun && 2 < behind <= 20 <==> snap.spec_status() == "catching_up"@
            &&& begun && behind > 20 <==> snap.spec_status() == "behind"@
        }),
{
    reveal_strlit("starting");
    reveal_strlit("healthy");
    reveal_strlit("catching_up");
    reveal_strlit("behind");
    assert("starting"@[0] == 's' && "healthy"@[0] == 'h');
    assert("catching_up"@[0] == 'c' && "behind"@[0] == 'b');
}

/// An error is recent for an hour.
pub proof fn error_is_recent_for_an_hour(at: u64, now: u64)
    ensures
        is_recent(at, now) <==> now - at < 3600,
{
}

/// An error that is recent counts, and one that is not does not.
pub proof fn only_recent_errors_count(times: Seq<u64>, at: u64, now: u64)
    ensures
        recent_count(times.push(at), now, times.len() as int + 1) == recent_count(
            times,
            now,
            times.len() as int,
        ) + if now - at < 3600 {
            1int
        } else {
            0
        },
        recent_count(times, now, 0) == 0,
{
    let more = times.push(at);
    earlier_errors_decide(times, more, now, times.len() as int);
}

proof fn earlier_errors_decide(a: Seq<u64>, b: Seq<u64>, now: u64, n: int)
    requires
        n <= a.len() <= b.len(),
        forall|i: int| 0 <= i < a.len() ==> a[i] == #[trigger] b[i],
    ensures
        recent_count(a, now, n) == recent_count(b, now, n),
    decreases n,
{
    if n > 0 {
        earlier_errors_decide(a, b, now, n - 1);
        assert(a[n - 1] == b[n - 1]);
    }
}

} // verus!
