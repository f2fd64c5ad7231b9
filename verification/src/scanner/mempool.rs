//! Transactions of the mempool and the memory of those that were looked at.

use vstd::prelude::*;

use crate::json::{texts, Json};
use crate::text::text_eq;

verus! {

/// Number of raw transactions that are fetched at a time.
pub const BATCH_SIZE: usize = 20;

/// Seconds for which a transaction is remembered.
pub const SEEN_TXID_TTL_SECS: u64 = 3600;

/// Seconds between two clearings of the memory.
pub const SEEN_TXID_EVICT_INTERVAL: u64 = 300;

/// Seconds between two looks at the mempool where its transactions are pushed.
pub const PUSHED_POLL_SECS: u64 = 30;

/// Seconds between two looks at the mempool: as configured, but at least one;
/// where transactions are pushed, looking is a slow fallback.
pub fn mempool_poll_secs(configured: u64, pushed: bool) -> (r: u64)
    ensures
        r == if pushed {
            30
        } else if configured == 0 {
            1
        } else {
            configured
        },
{
    if pushed {
        PUSHED_POLL_SECS
    } else if configured == 0 {
        1
    } else {
        configured
    }
}

/// The raw transaction in an answer.
pub fn raw_tx_hex(resp: &Json) -> (r: Option<String>)
    ensures
        match r {
            Some(s) => resp.member_text("hex"@) == Some(s@),
            None => resp.member_text("hex"@) is None,
        },
{
    match resp.get_text("hex") {
        Some(s) => Some(s.clone()),
        None => None,
    }
}

/// Transactions that were looked at, each with the time at which.
pub struct SeenTxids {
    entries: Vec<(String, u64)>,
}

pub open spec fn seen_in(entries: Seq<(String, u64)>, txid: Seq<char>) -> bool {
    exists|i: int| 0 <= i < entries.len() && (#[trigger] entries[i]).0@ == txid
}

/// Whether an entry is one of the first `n` entries and newer than a time.
spec fn kept_from(entries: Seq<(String, u64)>, n: int, cutoff: u64, e: (String, u64)) -> bool {
    e.1 > cutoff && exists|m: int| 0 <= m < n && #[trigger] entries[m] == e
}

impl SeenTxids {
    /// The time at which each remembered transaction was looked at.
    pub closed spec fn view(&self) -> Map<Seq<char>, u64> {
        Map::new(
            |txid: Seq<char>| seen_in(self.entries@, txid),
            |txid: Seq<char>|
                {
                    let i = choose|i: int|
                        0 <= i < self.entries@.len() && (#[trigger] self.entries@[i]).0@ == txid;
                    self.entries@[i].1
                },
        )
    }

    /// No transaction stands twice.
    pub closed spec fn wf(&self) -> bool {
        forall|i: int, j: int|
            0 <= i < j < self.entries@.len() ==> (#[trigger] self.entries@[i]).0@ != (
            #[trigger] self.entries@[j]).0@
    }

    proof fn view_at(&self, i: int)
        requires
            self.wf(),
            0 <= i < self.entries@.len(),
        ensures
            self@.dom().contains(self.entries@[i].0@),
            self@[self.entries@[i].0@] == self.entries@[i].1,
    {
        let txid = self.entries@[i].0@;
        let k = choose|k: int|
            0 <= k < self.entries@.len() && (#[trigger] self.entries@[k]).0@ == txid;
        if k < i {
            assert(self.entries@[k].0@ != self.entries@[i].0@);
        }
        if i < k {
            assert(self.entries@[i].0@ != self.entries@[k].0@);
        }
    }

    pub fn new() -> (r: SeenTxids)
        ensures
            r.wf(),
            r@ == Map::<Seq<char>, u64>::empty(),
    {
        let r: SeenTxids = SeenTxids { entries: Vec::new() };
        assert(r@ =~= Map::<Seq<char>, u64>::empty());
        r
    }

    fn find(&self, txid: &str) -> (r: Option<usize>)
        ensures
            match r {
                Some(i) => i < self.entries@.len() && self.entries@[i as int].0@ == txid@,
                None => !seen_in(self.entries@, txid@),
            },
    {
        let mut i: usize = 0;
        while i < self.entries.len()
            invariant
                i <= self.entries@.len(),
                forall|k: int| 0 <= k < i ==> (#[trigger] self.entries@[k]).0@ != txid@,
            decreases self.entries@.len() - i,
        {
            if text_eq(self.entries[i].0.as_str(), txid) {
                return Some(i);
            }
            i = i + 1;
        }
        None
    }

    /// Whether a transaction is remembered.
    pub fn contains(&self, txid: &str) -> (r: bool)
        ensures
            r == self@.dom().contains(txid@),
    {
        match self.find(txid) {
            Some(_) => true,
            None => false,
        }
    }

    /// Remembers a transaction.
    pub fn insert(&mut self, txid: &str, now: u64)
        requires
            old(self).wf(),
        ensures
            final(self).wf(),
            final(self)@ == old(self)@.insert(txid@, now),
    {
        let ghost before = *self;
        match self.find(txid) {
            Some(i) => {
                let name: String = self.entries[i].0.clone();
                self.entries.set(i, (name, now));
                proof {
                    assert forall|a: int, b: int|
                        0 <= a < b < self.entries@.len() implies (#[trigger] self.entries@[a]).0@
                        != (#[trigger] self.entries@[b]).0@ by {
                        assert(before.entries@[a].0@ != before.entries@[b].0@);
                    }
                    self.view_at(i as int);
                    assert forall|t: Seq<char>| self@.dom().contains(t) == before@.insert(
                        txid@,
                        now,
                    ).dom().contains(t) by {
                        if seen_in(self.entries@, t) {
                            let k = choose|k: int|
                                0 <= k < self.entries@.len() && (#[trigger] self.entries@[k]).0@
                                    == t;
                            assert(before.entries@[k].0@ == t);
                        }
                        if seen_in(before.entries@, t) {
                            let k = choose|k: int|
                                0 <= k < before.entries@.len() && (#[trigger] before.entries@[k]).0@
                                    == t;
                            assert(self.entries@[k].0@ == t);
                        }
                    }
                    assert forall|t: Seq<char>| #[trigger] self@.dom().contains(t) implies self@[t]
                        == before@.insert(txid@, now)[t] by {
                        let k = choose|k: int|
                            0 <= k < self.entries@.len() && (#[trigger] self.entries@[k]).0@ == t;
                        self.view_at(k);
                        if k != i {
                            before.view_at(k);
                        }
                    }
                    assert(self@ =~= before@.insert(txid@, now));
                }
            },
            None => {
                self.entries.push((txid.to_string(), now));
                proof {
                    let n = before.entries@.len() as int;
                    assert forall|a: int, b: int|
                        0 <= a < b < self.entries@.len() implies (#[trigger] self.entries@[a]).0@
                        != (#[trigger] self.entries@[b]).0@ by {
                        assert(self.entries@[a] == before.entries@[a]);
                        if b < n {
                            assert(self.entries@[b] == before.entries@[b]);
                        }
                    }
                    assert(self.entries@[n].0@ == txid@);
                    assert forall|t: Seq<char>| self@.dom().contains(t) == before@.insert(
                        txid@,
                        now,
                    ).dom().contains(t) by {
                        if seen_in(before.entries@, t) {
                            let k = choose|k: int|
                                0 <= k < before.entries@.len() && (#[trigger] before.entries@[k]).0@
                                    == t;
                            assert(self.entries@[k].0@ == t);
                        }
                        if seen_in(self.entries@, t) {
                            let k = choose|k: int|
                                0 <= k < self.entries@.len() && (#[trigger] self.entries@[k]).0@
                                    == t;
                            if k < n {
                                assert(before.entries@[k].0@ == t);
                            }
                        }
                    }
                    assert forall|t: Seq<char>| #[trigger] self@.dom().contains(t) implies self@[t]
                        == before@.insert(txid@, now)[t] by {
                        let k = choose|k: int|
                            0 <= k < self.entries@.len() && (#[trigger] self.entries@[k]).0@ == t;
                        self.view_at(k);
                        if k < n {
                            assert(self.entries@[k] == before.entries@[k]);
                            before.view_at(k);
                        }
                    }
                    assert(self@ =~= before@.insert(txid@, now));
                }
            },
        }
    }

    /// Forgets the transactions that were looked at before or at a time.
    pub fn evict(&mut self, cutoff: u64)
        requires
            old(self).wf(),
        ensures
            final(self).wf(),
            forall|t: Seq<char>| #[trigger]
                final(self)@.dom().contains(t) <==> old(self)@.dom().contains(t) && old(self)@[t]
                    > cutoff,
            forall|t: Seq<char>| #[trigger]
                final(self)@.dom().contains(t) ==> final(self)@[t] == old(self)@[t],
    {
        let ghost before = *self;
        let mut i: usize = 0;
        let mut kept: Vec<(String, u64)> = Vec::new();
        while i < self.entries.len()
            invariant
                i <= self.entries@.len(),
                *self == before,
                before.wf(),
                forall|k: int|
                    0 <= k < kept@.len() ==> kept_from(
                        before.entries@,
                        i as int,
                        cutoff,
                        #[trigger] kept@[k],
                    ),
                forall|m: int|
                    0 <= m < i && before.entries@[m].1 > cutoff ==> seen_in(
                        kept@,
                        (#[trigger] before.entries@[m]).0@,
                    ),
                forall|a: int, b: int|
                    0 <= a < b < kept@.len() ==> (#[trigger] kept@[a]).0@ != (
                    #[trigger] kept@[b]).0@,
            decreases self.entries@.len() - i,
        {
            let ghost earlier = kept@;
            if self.entries[i].1 > cutoff {
                kept.push((self.entries[i].0.clone(), self.entries[i].1));
                proof {
                    let n = earlier.len() as int;
                    assert(kept@[n] == before.entries@[i as int]);
                    assert forall|k: int| 0 <= k < kept@.len() implies kept_from(
                        before.entries@,
                        i + 1,
                        cutoff,
                        #[trigger] kept@[k],
                    ) by {
                        if k < n {
                            assert(kept_from(before.entries@, i as int, cutoff, earlier[k]));
                        } else {
                            assert(before.entries@[i as int] == kept@[k]);
                        }
                    }
                    assert forall|a: int, b: int| 0 <= a < b < kept@.len() implies (
                    #[trigger] kept@[a]).0@ != (#[trigger] kept@[b]).0@ by {
                        assert(kept@[a] == earlier[a]);
                        if b < n {
                            assert(kept@[b] == earlier[b]);
                        } else {
                            assert(kept_from(before.entries@, i as int, cutoff, earlier[a]));
                            let m = choose|m: int|
                                0 <= m < i && #[trigger] before.entries@[m] == earlier[a];
                            assert(before.entries@[m].0@ != before.entries@[i as int].0@);
                        }
                    }
                    assert forall|m: int|
                        0 <= m < i + 1 && before.entries@[m].1 > cutoff implies seen_in(
                        kept@,
                        (#[trigger] before.entries@[m]).0@,
                    ) by {
                        if m < i {
                            let k = choose|k: int|
                                0 <= k < earlier.len() && (#[trigger] earlier[k]).0@
                                    == before.entries@[m].0@;
                            assert(kept@[k] == earlier[k]);
                        } else {
                            assert(kept@[n].0@ == before.entries@[m].0@);
                        }
                    }
                }
            } else {
                assert forall|k: int| 0 <= k < kept@.len() implies kept_from(
                    before.entries@,
                    i + 1,
                    cutoff,
                    #[trigger] kept@[k],
                ) by {
                    assert(kept_from(before.entries@, i as int, cutoff, kept@[k]));
                }
            }
            i = i + 1;
        }
        self.entries = kept;
        proof {
            assert forall|t: Seq<char>| #[trigger] self@.dom().contains(t) implies before@.dom().contains(
                t,
            ) && before@[t] > cutoff && self@[t] == before@[t] by {
                let k = choose|k: int|
                    0 <= k < self.entries@.len() && (#[trigger] self.entries@[k]).0@ == t;
                self.view_at(k);
                assert(kept_from(
                    before.entries@,
                    before.entries@.len() as int,
                    cutoff,
                    self.entries@[k],
                ));
                let m = choose|m: int|
                    0 <= m < before.entries@.len() && #[trigger] before.entries@[m]
                        == self.entries@[k];
                before.view_at(m);
            }
            assert forall|t: Seq<char>|
                before@.dom().contains(t) && before@[t] > cutoff implies #[trigger] self@.dom().contains(
                t,
            ) by {
                let m = choose|m: int|
                    0 <= m < before.entries@.len() && (#[trigger] before.entries@[m]).0@ == t;
                before.view_at(m);
            }
        }
    }

    /// The transactions that are not remembered, in their order.
    pub open spec fn unseen(&self, txids: Seq<Seq<char>>) -> Seq<Seq<char>> {
        txids.filter(|t: Seq<char>| !self@.dom().contains(t))
    }

    /// Picks the transactions that are not remembered.
    pub fn new_txids(&self, txids: &Vec<String>) -> (r: Vec<String>)
        ensures
            texts(r@) == self.unseen(texts(txids@)),
    {
        let ghost pick = |t: Seq<char>| !self@.dom().contains(t);
        let ghost all = texts(txids@);
        let mut out: Vec<String> = Vec::new();
        let mut i: usize = 0;
        assert(texts(out@) =~= Seq::<Seq<char>>::empty());
        assert(all.take(0).filter(pick) =~= Seq::<Seq<char>>::empty()) by {
            reveal(Seq::filter);
        }
        while i < txids.len()
            invariant
                i <= txids@.len(),
                all == texts(txids@),
                pick == (|t: Seq<char>| !self@.dom().contains(t)),
                texts(out@) == all.take(i as int).filter(pick),
            decreases txids@.len() - i,
        {
            proof {
                reveal(Seq::filter);
                assert(all.take(i + 1).drop_last() =~= all.take(i as int));
                assert(all.take(i + 1).last() == txids@[i as int]@);
            }
            if !self.contains(txids[i].as_str()) {
                let ghost before = out@;
                out.push(txids[i].clone());
                assert(texts(out@) =~= texts(before).push(txids@[i as int]@));
            }
            i = i + 1;
        }
        assert(all.take(i as int) =~= all);
        out
    }
}

} // verus!
