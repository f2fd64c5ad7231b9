//! Billing of merchants: fees gather in cycles, a cycle that ends is settled,
//! carried over or invoiced, and who does not pay is blocked step by step.

use vstd::prelude::*;

use crate::clock::{
    format_datetime, formatted_datetime, has_four_digit_year, is_storable, parse_timestamp,
    parsed_datetime, timestamp, timestamp_text, Moment, NANOS, SPACED_FORMAT, TIMESTAMP_FORMAT,
};
use crate::ids::{is_hyphenated, new_id};
use crate::text::{lex_less, opt_str, opt_text, text_eq, text_less};

verus! {

/// The balance of a cycle, in zatoshis, up to which nothing counts as
/// outstanding when an account is deleted.
pub const TRIFLING_BALANCE: i64 = 10_000;

/// Smallest balance, in zatoshis, that is invoiced.
pub const MIN_SETTLEMENT_ZATOSHIS: i64 = 5_000_000;

/// Days before the end of the grace period at which a reminder is sent.
pub const REMINDER_DAYS: i64 = 3;

/// Days before the end of a discount at which a warning is sent.
pub const DISCOUNT_WARNING_DAYS: i64 = 7;

pub struct FeeEntry {
    pub id: String,
    pub invoice_id: String,
    pub merchant_id: String,
    pub fee_amount_zatoshis: i64,
    pub auto_collected: i32,
    pub collected_at: Option<String>,
    pub billing_cycle_id: Option<String>,
    pub created_at: String,
}

pub struct BillingCycle {
    pub id: String,
    pub merchant_id: String,
    pub period_start: String,
    pub period_end: String,
    pub total_fees_zatoshis: i64,
    pub auto_collected_zatoshis: i64,
    pub outstanding_zatoshis: i64,
    pub settlement_invoice_id: Option<String>,
    pub status: String,
    pub grace_until: Option<String>,
    pub created_at: String,
}

pub struct BillingSummary {
    pub trust_tier: String,
    pub billing_status: String,
    pub current_cycle: Option<BillingCycle>,
    pub total_fees_zatoshis: i64,
    pub auto_collected_zatoshis: i64,
    pub outstanding_zatoshis: i64,
    pub settlement_invoice_status: Option<String>,
}

/// What billing knows of a merchant.
pub struct BillingAccount {
    pub merchant_id: String,
    pub trust_tier: Option<String>,
    pub billing_status: Option<String>,
    pub billing_started_at: Option<String>,
    pub fee_discount_until: Option<String>,
    pub cycles: Vec<BillingCycle>,
}

/// The terms on which merchants are billed.
pub struct BillingTerms {
    pub cycle_days_new: i64,
    pub cycle_days_standard: i64,
    pub has_fee_address: bool,
}

impl BillingTerms {
    /// Whether a cycle that begins at a time ends within the calendar. A cycle
    /// of no days, or of fewer, is over as soon as it begins.
    pub open spec fn fits(&self, now: int) -> bool {
        &&& is_storable(now + self.cycle_days_new * 86_400)
        &&& is_storable(now + self.cycle_days_standard * 86_400)
    }
}

/// Whether a time leaves room for every period that billing adds to it.
pub open spec fn is_billing_time(now: int) -> bool {
    0 <= now < 5_000_000_000_000
}

/// Whether the ends of all grace periods that begin at a time sort after it as
/// texts.
pub open spec fn graces_sort(now: int) -> bool {
    has_four_digit_year(now) && has_four_digit_year(now + 14 * 86_400)
}

/// How a cycle ends.
#[derive(Debug, Clone, Copy, PartialEq, Eq, Structural)]
pub enum Closing {
    Paid,
    CarriedOver,
    Invoiced(i64),
    LeftOpen,
}

/// A settlement that is owed: the invoice to write for a closed cycle.
pub struct Settlement {
    pub invoice_id: String,
    pub cycle_id: String,
    pub outstanding_zatoshis: i64,
    pub grace_until: String,
    pub grace_days: i64,
}

/// A reminder that a grace period is about to end.
pub struct Reminder {
    pub cycle_id: String,
    pub outstanding_zatoshis: i64,
    pub grace_until: String,
    pub days_left: i64,
}

/// A cycle whose merchant has to be told of a new status.
pub struct Demand {
    pub cycle_id: String,
    pub outstanding_zatoshis: i64,
}

// ---------------------------------------------------------------------------
// Rules on single values
// ---------------------------------------------------------------------------

/// Whether a billing status keeps a merchant from new business.
pub open spec fn is_blocking(status: Seq<char>) -> bool {
    status == "past_due"@ || status == "suspended"@
}

/// Whether a billing status keeps a merchant from new business.
pub fn merchant_billing_blocked(status: &str) -> (r: bool)
    ensures
        r == is_blocking(status@),
{
    text_eq(status, "past_due") || text_eq(status, "suspended")
}

/// A billing status that keeps a merchant from new business.
#[derive(Debug, Clone, Copy, PartialEq, Eq, Structural)]
pub enum Block {
    PastDue,
    Suspended,
}

impl Block {
    pub open spec fn spec_status(self) -> Seq<char> {
        match self {
            Block::PastDue => "past_due"@,
            Block::Suspended => "suspended"@,
        }
    }

    /// The billing status.
    pub fn status(self) -> (r: &'static str)
        ensures
            r@ == self.spec_status(),
    {
        match self {
            Block::PastDue => "past_due",
            Block::Suspended => "suspended",
        }
    }
}

/// The block that a billing status is, where one is given and it is one.
pub open spec fn block_of(status: Option<Seq<char>>) -> Option<Block> {
    match status {
        None => None,
        Some(s) => if s == "past_due"@ {
            Some(Block::PastDue)
        } else if s == "suspended"@ {
            Some(Block::Suspended)
        } else {
            None
        },
    }
}

/// The block that a billing status is, where one is given and it is one.
pub fn find_block(status: Option<&str>) -> (r: Option<Block>)
    ensures
        r == block_of(opt_str(status)),
{
    match status {
        None => None,
        Some(s) => if text_eq(s, "past_due") {
            Some(Block::PastDue)
        } else if text_eq(s, "suspended") {
            Some(Block::Suspended)
        } else {
            None
        },
    }
}

/// The block that a stored billing status is, where one is given and it is one.
pub(crate) fn stored_block(status: &Option<String>) -> (r: Option<Block>)
    ensures
        r == block_of(opt_text(*status)),
{
    match status {
        None => None,
        Some(s) => find_block(Some(s.as_str())),
    }
}

/// A status is a block exactly where it keeps a merchant from new business, and
/// the block names the status.
pub proof fn block_names_the_status(status: Seq<char>)
    ensures
        block_of(Some(status)) is Some <==> is_blocking(status),
        block_of(Some(status)) matches Some(b) ==> b.spec_status() == status,
{
}

/// Days of grace for a trust tier.
pub open spec fn grace_days_of(tier: Seq<char>) -> i64 {
    if tier == "trusted"@ {
        14
    } else {
        7
    }
}

/// Days from the end of the grace period to suspension for a trust tier.
pub open spec fn suspension_days_of(tier: Seq<char>) -> i64 {
    if tier == "new"@ {
        7
    } else if tier == "trusted"@ {
        30
    } else {
        14
    }
}

/// Days of grace for a trust tier.
pub fn grace_days(tier: &str) -> (r: i64)
    ensures
        r == grace_days_of(tier@),
{
    if text_eq(tier, "trusted") {
        14
    } else {
        7
    }
}

/// Days from the end of the grace period to suspension for a trust tier.
pub fn suspension_days(tier: &str) -> (r: i64)
    ensures
        r == suspension_days_of(tier@),
{
    if text_eq(tier, "new") {
        7
    } else if text_eq(tier, "trusted") {
        30
    } else {
        14
    }
}

/// How a cycle ends, by what is outstanding.
pub open spec fn closing_of(outstanding: i64, tier: Seq<char>, has_fee_address: bool) -> Closing {
    if outstanding <= 0 {
        Closing::Paid
    } else if outstanding < MIN_SETTLEMENT_ZATOSHIS {
        Closing::CarriedOver
    } else if has_fee_address {
        Closing::Invoiced(grace_days_of(tier))
    } else {
        Closing::LeftOpen
    }
}

/// How a cycle ends, by what is outstanding.
pub fn close_decision(outstanding: i64, tier: &str, has_fee_address: bool) -> (r: Closing)
    ensures
        r == closing_of(outstanding, tier@, has_fee_address),
{
    if outstanding <= 0 {
        Closing::Paid
    } else if outstanding < MIN_SETTLEMENT_ZATOSHIS {
        Closing::CarriedOver
    } else if has_fee_address {
        Closing::Invoiced(grace_days(tier))
    } else {
        Closing::LeftOpen
    }
}

/// The trust tier that three settled cycles in a row and no late one lead to.
pub open spec fn upgraded_tier_of(tier: Seq<char>, paid_count: int, late_count: int) -> Option<
    Seq<char>,
> {
    if late_count == 0 && paid_count >= 3 {
        if tier == "new"@ {
            Some("standard"@)
        } else if tier == "standard"@ {
            Some("trusted"@)
        } else {
            None
        }
    } else {
        None
    }
}

/// The trust tier that a merchant moves up to, if any. `paid_count` counts the
/// settled ones among the three latest cycles, `late_count` the late cycles of
/// the last ninety days.
pub fn upgraded_tier(tier: &str, paid_count: usize, late_count: usize) -> (r: Option<
    &'static str,
>)
    ensures
        match r {
            Some(t) => upgraded_tier_of(tier@, paid_count as int, late_count as int) == Some(t@),
            None => upgraded_tier_of(tier@, paid_count as int, late_count as int) is None,
        },
{
    if late_count == 0 && paid_count >= 3 {
        if text_eq(tier, "new") {
            return Some("standard");
        }
        if text_eq(tier, "standard") {
            return Some("trusted");
        }
    }
    None
}

/// Cycles that are looked at when a merchant is to move up.
pub const TIER_CYCLES: usize = 3;

/// Seconds for which a late cycle keeps a merchant from moving up.
pub const LATE_MEMORY_SECS: i64 = 7_776_000;

/// Whether one cycle comes before another with the latest first; of two that
/// end together, the one that was stored first does.
pub open spec fn ends_later(cycles: Seq<BillingCycle>, j: int, i: int) -> bool {
    ||| lex_less(cycles[i].period_end@, cycles[j].period_end@)
    ||| cycles[i].period_end@ == cycles[j].period_end@ && j < i
}

/// How many of the first `n` cycles come before a cycle.
pub open spec fn later_cycles(cycles: Seq<BillingCycle>, i: int, n: int) -> int
    decreases n,
{
    if n <= 0 {
        0
    } else {
        later_cycles(cycles, i, n - 1) + if ends_later(cycles, n - 1, i) {
            1int
        } else {
            0int
        }
    }
}

/// Whether a cycle is one of the latest, and nothing is owed for it.
pub open spec fn is_recent_settled(cycles: Seq<BillingCycle>, i: int) -> bool {
    &&& later_cycles(cycles, i, cycles.len() as int) < TIER_CYCLES
    &&& cycles[i].status@ == "paid"@ || cycles[i].status@ == "carried_over"@
}

/// How many of the first `n` cycles are among the latest and settled.
pub open spec fn recent_settled(cycles: Seq<BillingCycle>, n: int) -> int
    decreases n,
{
    if n <= 0 {
        0
    } else {
        recent_settled(cycles, n - 1) + if is_recent_settled(cycles, n - 1) {
            1int
        } else {
            0int
        }
    }
}

/// Whether a cycle that ended after a time is past due or suspended.
pub open spec fn is_late_since(c: BillingCycle, since: Seq<char>) -> bool {
    is_blocking(c.status@) && lex_less(since, c.period_end@)
}

/// How many of the first `n` cycles ended after a time and are late.
pub open spec fn late_since(cycles: Seq<BillingCycle>, since: Seq<char>, n: int) -> int
    decreases n,
{
    if n <= 0 {
        0
    } else {
        late_since(cycles, since, n - 1) + if is_late_since(cycles[n - 1], since) {
            1int
        } else {
            0int
        }
    }
}

/// The time since when late cycles count.
pub open spec fn late_memory_start(now: int) -> Seq<char> {
    let then = Moment { secs: (now - LATE_MEMORY_SECS) as i64, nanos: 0 };
    formatted_datetime(then, SPACED_FORMAT@)->0
}

fn count_later(cycles: &Vec<BillingCycle>, i: usize) -> (r: usize)
    requires
        i < cycles@.len(),
    ensures
        r == later_cycles(cycles@, i as int, cycles@.len() as int),
{
    let mut r: usize = 0;
    let mut j: usize = 0;
    while j < cycles.len()
        invariant
            i < cycles@.len(),
            j <= cycles@.len(),
            r <= j,
            r == later_cycles(cycles@, i as int, j as int),
        decreases cycles@.len() - j,
    {
        if text_less(cycles[i].period_end.as_str(), cycles[j].period_end.as_str()) || text_eq(
            cycles[i].period_end.as_str(),
            cycles[j].period_end.as_str(),
        ) && j < i {
            r = r + 1;
        }
        j = j + 1;
    }
    r
}

fn count_recent_settled(cycles: &Vec<BillingCycle>) -> (r: usize)
    ensures
        r == recent_settled(cycles@, cycles@.len() as int),
{
    let mut r: usize = 0;
    let mut i: usize = 0;
    while i < cycles.len()
        invariant
            i <= cycles@.len(),
            r <= i,
            r == recent_settled(cycles@, i as int),
        decreases cycles@.len() - i,
    {
        let settled: bool = text_eq(cycles[i].status.as_str(), "paid") || text_eq(
            cycles[i].status.as_str(),
            "carried_over",
        );
        if settled && count_later(cycles, i) < TIER_CYCLES {
            r = r + 1;
        }
        i = i + 1;
    }
    r
}

fn count_late(cycles: &Vec<BillingCycle>, since: &str) -> (r: usize)
    ensures
        r == late_since(cycles@, since@, cycles@.len() as int),
{
    let mut r: usize = 0;
    let mut i: usize = 0;
    while i < cycles.len()
        invariant
            i <= cycles@.len(),
            r <= i,
            r == late_since(cycles@, since@, i as int),
        decreases cycles@.len() - i,
    {
        if merchant_billing_blocked(cycles[i].status.as_str()) && text_less(
            since,
            cycles[i].period_end.as_str(),
        ) {
            r = r + 1;
        }
        i = i + 1;
    }
    r
}

// ---------------------------------------------------------------------------
// Cycles
// ---------------------------------------------------------------------------

/// The sum of what is outstanding in the cycles that were carried over.
pub open spec fn carried_total(cycles: Seq<BillingCycle>) -> int
    decreases cycles.len(),
{
    if cycles.len() == 0 {
        0
    } else {
        carried_total(cycles.drop_last()) + if cycles.last().status@ == "carried_over"@ {
            cycles.last().outstanding_zatoshis as int
        } else {
            0
        }
    }
}

/// The sum of what is outstanding in all cycles.
pub open spec fn outstanding_total(cycles: Seq<BillingCycle>) -> int
    decreases cycles.len(),
{
    if cycles.len() == 0 {
        0
    } else {
        outstanding_total(cycles.drop_last()) + cycles.last().outstanding_zatoshis
    }
}

proof fn carried_within_outstanding(cycles: Seq<BillingCycle>)
    requires
        forall|i: int| 0 <= i < cycles.len() ==> (#[trigger] cycles[i]).outstanding_zatoshis >= 0,
    ensures
        0 <= carried_total(cycles) <= outstanding_total(cycles),
    decreases cycles.len(),
{
    if cycles.len() > 0 {
        assert(cycles.last().outstanding_zatoshis >= 0);
        assert forall|i: int| 0 <= i < cycles.drop_last().len() implies (
        #[trigger] cycles.drop_last()[i]).outstanding_zatoshis >= 0 by {
            assert(cycles.drop_last()[i] == cycles[i]);
        }
        carried_within_outstanding(cycles.drop_last());
    }
}

proof fn outstanding_prefix(cycles: Seq<BillingCycle>, k: int)
    requires
        forall|i: int| 0 <= i < cycles.len() ==> (#[trigger] cycles[i]).outstanding_zatoshis >= 0,
        0 <= k <= cycles.len(),
    ensures
        carried_total(cycles.take(k)) <= carried_total(cycles),
    decreases cycles.len(),
{
    if k < cycles.len() {
        assert(cycles.last().outstanding_zatoshis >= 0);
        assert forall|i: int| 0 <= i < cycles.drop_last().len() implies (
        #[trigger] cycles.drop_last()[i]).outstanding_zatoshis >= 0 by {
            assert(cycles.drop_last()[i] == cycles[i]);
        }
        outstanding_prefix(cycles.drop_last(), k);
        assert(cycles.drop_last().take(k) =~= cycles.take(k));
    } else {
        assert(cycles.take(k) =~= cycles);
    }
}

/// Two lists of cycles that owe the same in each place owe the same in all.
proof fn same_outstanding(a: Seq<BillingCycle>, b: Seq<BillingCycle>)
    requires
        a.len() == b.len(),
        forall|i: int|
            0 <= i < a.len() ==> (#[trigger] a[i]).outstanding_zatoshis
                == b[i].outstanding_zatoshis,
    ensures
        outstanding_total(a) == outstanding_total(b),
    decreases a.len(),
{
    if a.len() > 0 {
        assert(a.last().outstanding_zatoshis == b.last().outstanding_zatoshis);
        assert forall|i: int| 0 <= i < a.drop_last().len() implies (
        #[trigger] a.drop_last()[i]).outstanding_zatoshis
            == b.drop_last()[i].outstanding_zatoshis by {
            assert(a[i].outstanding_zatoshis == b[i].outstanding_zatoshis);
        }
        same_outstanding(a.drop_last(), b.drop_last());
    }
}

impl BillingCycle {
    pub open spec fn is_open(&self) -> bool {
        self.status@ == "open"@
    }

    /// Whether the cycle is open though its period is over.
    pub open spec fn is_expired(&self, now: Seq<char>) -> bool {
        self.is_open() && lex_less(self.period_end@, now)
    }

    /// Whether the grace period of an invoiced cycle is over.
    pub open spec fn is_overdue(&self, now: Seq<char>) -> bool {
        self.status@ == "invoiced"@ && (opt_text(self.grace_until) matches Some(g) && lex_less(
            g,
            now,
        ))
    }

    /// Whether a reminder is due: the grace period ends within the threshold.
    pub open spec fn wants_reminder(&self, now: Seq<char>, threshold: Seq<char>) -> bool {
        self.status@ == "invoiced"@ && (opt_text(self.grace_until) matches Some(g) && lex_less(
            now,
            g,
        ) && !lex_less(threshold, g))
    }

    /// Whether a merchant of the tier is to be suspended over the cycle.
    pub open spec fn is_suspendable(&self, tier: Seq<char>, now: Moment) -> bool {
        self.status@ == "past_due"@ && match opt_text(self.grace_until) {
            Some(g) => match parsed_datetime(g, TIMESTAMP_FORMAT@) {
                Some(m) => {
                    let at = m.later(suspension_days_of(tier) as int);
                    at.0 < now.secs || at.0 == now.secs && at.1 < now.nanos
                },
                None => false,
            },
            None => false,
        }
    }

    pub fn copy(&self) -> (r: BillingCycle)
        ensures
            r == *self,
    {
        BillingCycle {
            id: self.id.clone(),
            merchant_id: self.merchant_id.clone(),
            period_start: self.period_start.clone(),
            period_end: self.period_end.clone(),
            total_fees_zatoshis: self.total_fees_zatoshis,
            auto_collected_zatoshis: self.auto_collected_zatoshis,
            outstanding_zatoshis: self.outstanding_zatoshis,
            settlement_invoice_id: self.settlement_invoice_id.clone(),
            status: self.status.clone(),
            grace_until: self.grace_until.clone(),
            created_at: self.created_at.clone(),
        }
    }

    /// Whether `r` is the cycle with nothing but its status changed.
    pub open spec fn moved_to(&self, r: &BillingCycle, status: Seq<char>) -> bool {
        r.status@ == status && *r == (BillingCycle { status: r.status, ..*self })
    }

    fn with_status(&self, status: &str) -> (r: BillingCycle)
        ensures
            self.moved_to(&r, status@),
    {
        let mut r: BillingCycle = self.copy();
        r.status = status.to_string();
        r
    }

    fn expired(&self, now: &str) -> (r: bool)
        ensures
            r == self.is_expired(now@),
    {
        text_eq(self.status.as_str(), "open") && text_less(self.period_end.as_str(), now)
    }

    /// Whether `r` is the cycle after it was closed at the end of its period.
    pub open spec fn closed_as(
        &self,
        r: &BillingCycle,
        tier: Seq<char>,
        has_fee_address: bool,
        now: int,
    ) -> bool {
        match closing_of(self.outstanding_zatoshis, tier, has_fee_address) {
            Closing::Paid => self.moved_to(r, "paid"@),
            Closing::CarriedOver => self.moved_to(r, "carried_over"@),
            Closing::Invoiced(days) => {
                &&& r.status@ == "invoiced"@
                &&& opt_text(r.grace_until) == Some(timestamp_text(now + days * 86_400))
                &&& opt_text(r.settlement_invoice_id) matches Some(id)
                &&& is_hyphenated(id)
                &&& *r == (BillingCycle {
                    status: r.status,
                    grace_until: r.grace_until,
                    settlement_invoice_id: r.settlement_invoice_id,
                    ..*self
                })
            },
            Closing::LeftOpen => *r == *self,
        }
    }

    /// Closes the cycle at the end of its period; gives the settlement that is
    /// owed, if one is.
    fn close(&self, tier: &str, has_fee_address: bool, now: i64) -> (r: (
        BillingCycle,
        Option<Settlement>,
    ))
        requires
            is_billing_time(now as int),
        ensures
            self.closed_as(&r.0, tier@, has_fee_address, now as int),
            match r.1 {
                Some(s) => settles(&s, self, &r.0, tier@) && closing_of(
                    self.outstanding_zatoshis,
                    tier@,
                    has_fee_address,
                ) is Invoiced,
                None => !(closing_of(self.outstanding_zatoshis, tier@, has_fee_address)
                    is Invoiced),
            },
    {
        match close_decision(self.outstanding_zatoshis, tier, has_fee_address) {
            Closing::Paid => (self.with_status("paid"), None),
            Closing::CarriedOver => (self.with_status("carried_over"), None),
            Closing::Invoiced(days) => {
                let until: String = timestamp(now + days * 86_400);
                let id: String = new_id();
                let mut c: BillingCycle = self.with_status("invoiced");
                c.grace_until = Some(until.clone());
                c.settlement_invoice_id = Some(id.clone());
                let s: Settlement = Settlement {
                    invoice_id: id,
                    cycle_id: self.id.clone(),
                    outstanding_zatoshis: self.outstanding_zatoshis,
                    grace_until: until,
                    grace_days: days,
                };
                (c, Some(s))
            },
            Closing::LeftOpen => (self.copy(), None),
        }
    }

    /// The cycle with a fee added to what was billed and what is outstanding.
    pub fn add_fee(&self, amount: i64) -> (r: BillingCycle)
        requires
            i64::MIN <= self.total_fees_zatoshis + amount <= i64::MAX,
            i64::MIN <= self.outstanding_zatoshis + amount <= i64::MAX,
        ensures
            r == (BillingCycle {
                total_fees_zatoshis: (self.total_fees_zatoshis + amount) as i64,
                outstanding_zatoshis: (self.outstanding_zatoshis + amount) as i64,
                ..*self
            }),
    {
        let mut r: BillingCycle = self.copy();
        r.total_fees_zatoshis = self.total_fees_zatoshis + amount;
        r.outstanding_zatoshis = self.outstanding_zatoshis + amount;
        r
    }

    /// The cycle after a fee was collected with the payment itself: it no
    /// longer stands out, and nothing below zero does.
    pub fn collect_fee(&self, amount: i64) -> (r: BillingCycle)
        requires
            i64::MIN <= self.auto_collected_zatoshis + amount <= i64::MAX,
            i64::MIN <= self.outstanding_zatoshis - amount <= i64::MAX,
        ensures
            r == (BillingCycle {
                auto_collected_zatoshis: (self.auto_collected_zatoshis + amount) as i64,
                outstanding_zatoshis: if self.outstanding_zatoshis - amount < 0 {
                    0
                } else {
                    (self.outstanding_zatoshis - amount) as i64
                },
                ..*self
            }),
    {
        let mut r: BillingCycle = self.copy();
        r.auto_collected_zatoshis = self.auto_collected_zatoshis + amount;
        let left: i64 = self.outstanding_zatoshis - amount;
        r.outstanding_zatoshis = if left < 0 {
            0
        } else {
            left
        };
        r
    }

    /// Invoices the cycle ahead of its end, where the merchant asks for it and
    /// it is open. The merchant has seven days to pay.
    pub fn invoice_early(&mut self, invoice_id: &str, now: i64) -> (r: bool)
        requires
            is_billing_time(now as int),
        ensures
            r == (old(self).status@ == "open"@),
            !r ==> *final(self) == *old(self),
            r ==> {
                &&& final(self).status@ == "invoiced"@
                &&& opt_text(final(self).settlement_invoice_id) == Some(invoice_id@)
                &&& opt_text(final(self).grace_until) == Some(timestamp_text(now + 7 * 86_400))
                &&& *final(self) == (BillingCycle {
                    status: final(self).status,
                    settlement_invoice_id: final(self).settlement_invoice_id,
                    grace_until: final(self).grace_until,
                    ..*old(self)
                })
            },
    {
        if !text_eq(self.status.as_str(), "open") {
            return false;
        }
        self.status = "invoiced".to_string();
        self.settlement_invoice_id = Some(invoice_id.to_string());
        self.grace_until = Some(timestamp(now + 7 * 86_400));
        true
    }

    /// Whether `r` is the cycle after its settlement was paid.
    pub open spec fn settled_as(&self, r: &BillingCycle) -> bool {
        &&& r.status@ == "paid"@
        &&& r.outstanding_zatoshis == 0
        &&& *r == (BillingCycle { status: r.status, outstanding_zatoshis: 0, ..*self })
    }

    /// Whether a confirmed settlement invoice settles the cycle.
    pub open spec fn awaits_settlement(&self) -> bool {
        self.status@ == "invoiced"@ || self.status@ == "past_due"@ || self.status@ == "suspended"@
    }

    /// Marks the cycle as settled where the status of its settlement invoice
    /// is confirmed.
    pub fn settle(&self, invoice_status: &str) -> (r: Option<BillingCycle>)
        ensures
            match r {
                Some(c) => self.awaits_settlement() && invoice_status@ == "confirmed"@
                    && self.settled_as(&c),
                None => !self.awaits_settlement() || invoice_status@ != "confirmed"@,
            },
            r is Some <==> invoice_status@ == "confirmed"@ && (self.status@ == "invoiced"@
                || self.status@ == "past_due"@ || self.status@ == "suspended"@),
            r matches Some(c) ==> c.status@ == "paid"@ && c.outstanding_zatoshis == 0 && c.id
                == self.id,
    {
        if (text_eq(self.status.as_str(), "invoiced") || text_eq(self.status.as_str(), "past_due")
            || text_eq(self.status.as_str(), "suspended")) && text_eq(invoice_status, "confirmed") {
            let mut c: BillingCycle = self.with_status("paid");
            c.outstanding_zatoshis = 0;
            Some(c)
        } else {
            None
        }
    }
}

/// Whether a settlement is the one owed for a cycle that was invoiced.
pub open spec fn settles(
    s: &Settlement,
    before: &BillingCycle,
    after: &BillingCycle,
    tier: Seq<char>,
) -> bool {
    &&& opt_text(after.settlement_invoice_id) == Some(s.invoice_id@)
    &&& s.cycle_id@ == before.id@
    &&& s.outstanding_zatoshis == before.outstanding_zatoshis
    &&& opt_text(after.grace_until) == Some(s.grace_until@)
    &&& s.grace_days == grace_days_of(tier)
}

/// Collecting a fee that is outstanding moves it from what is owed to what was
/// collected: billed less collected less outstanding stays the same.
pub proof fn collection_moves_the_fee(before: BillingCycle, after: BillingCycle, amount: i64)
    requires
        0 <= amount <= before.outstanding_zatoshis,
        before.auto_collected_zatoshis + amount <= i64::MAX,
        after == (BillingCycle {
            auto_collected_zatoshis: (before.auto_collected_zatoshis + amount) as i64,
            outstanding_zatoshis: (before.outstanding_zatoshis - amount) as i64,
            ..before
        }),
    ensures
        after.total_fees_zatoshis - after.auto_collected_zatoshis - after.outstanding_zatoshis
            == before.total_fees_zatoshis - before.auto_collected_zatoshis
            - before.outstanding_zatoshis,
        after.outstanding_zatoshis >= 0,
{
}

proof fn statuses_differ()
    ensures
        "open"@ != "past_due"@,
        "open"@ != "invoiced"@,
        "paid"@ != "past_due"@,
        "paid"@ != "invoiced"@,
        "carried_over"@ != "past_due"@,
        "carried_over"@ != "invoiced"@,
        "invoiced"@ != "past_due"@,
        "open"@ != "suspended"@,
        "paid"@ != "suspended"@,
        "carried_over"@ != "suspended"@,
        "invoiced"@ != "suspended"@,
{
    reveal_strlit("open");
    reveal_strlit("paid");
    reveal_strlit("carried_over");
    reveal_strlit("invoiced");
    reveal_strlit("past_due");
    reveal_strlit("suspended");
    assert("paid"@.len() != "past_due"@.len());
    assert("invoiced"@[0] != "past_due"@[0]);
    assert("carried_over"@[0] != "past_due"@[0]);
    assert("open"@[0] != "past_due"@[0]);
}

// ---------------------------------------------------------------------------
// Accounts
// ---------------------------------------------------------------------------

/// The billing status that the overdue cycles among the first `n` lead to:
/// each in turn sets it, to active where too little is owed.
pub open spec fn status_after_overdue(
    cycles: Seq<BillingCycle>,
    status: Option<Seq<char>>,
    now: Seq<char>,
    n: int,
) -> Option<Seq<char>>
    decreases n,
{
    if n <= 0 {
        status
    } else if cycles[n - 1].is_overdue(now) {
        if cycles[n - 1].outstanding_zatoshis < MIN_SETTLEMENT_ZATOSHIS {
            Some("active"@)
        } else {
            Some("past_due"@)
        }
    } else {
        status_after_overdue(cycles, status, now, n - 1)
    }
}

/// Whether one of the first `n` cycles calls for suspension.
pub open spec fn any_suspendable(
    cycles: Seq<BillingCycle>,
    tier: Seq<char>,
    now: Moment,
    n: int,
) -> bool {
    exists|i: int| 0 <= i < n && (#[trigger] cycles[i]).is_suspendable(tier, now)
}

impl BillingAccount {
    /// The trust tier; a merchant without one is new.
    pub open spec fn tier(&self) -> Seq<char> {
        match self.trust_tier {
            Some(t) => t@,
            None => "new"@,
        }
    }

    /// The billing status; a merchant without one is active.
    pub open spec fn status(&self) -> Seq<char> {
        match self.billing_status {
            Some(s) => s@,
            None => "active"@,
        }
    }

    /// What holds of every account: nothing below zero stands out, and all of
    /// it together can be counted.
    pub open spec fn wf(&self) -> bool {
        &&& forall|i: int|
            0 <= i < self.cycles@.len() ==> (#[trigger] self.cycles@[i]).outstanding_zatoshis >= 0
        &&& outstanding_total(self.cycles@) <= i64::MAX
    }

    pub open spec fn has_open_cycle(&self) -> bool {
        exists|i: int| 0 <= i < self.cycles@.len() && (#[trigger] self.cycles@[i]).is_open()
    }

    fn trust_tier_text(&self) -> (r: String)
        ensures
            r@ == self.tier(),
    {
        match &self.trust_tier {
            Some(t) => t.clone(),
            None => "new".to_string(),
        }
    }

    fn open_cycle_exists(&self) -> (r: bool)
        ensures
            r == self.has_open_cycle(),
    {
        let mut i: usize = 0;
        while i < self.cycles.len()
            invariant
                i <= self.cycles@.len(),
                forall|k: int| 0 <= k < i ==> !(#[trigger] self.cycles@[k]).is_open(),
            decreases self.cycles@.len() - i,
        {
            if text_eq(self.cycles[i].status.as_str(), "open") {
                return true;
            }
            i = i + 1;
        }
        false
    }

    fn carried(&self) -> (r: i64)
        requires
            self.wf(),
        ensures
            r == carried_total(self.cycles@),
            r >= 0,
    {
        let mut sum: i64 = 0;
        let mut i: usize = 0;
        proof {
            carried_within_outstanding(self.cycles@);
            assert(self.cycles@.take(0) =~= Seq::<BillingCycle>::empty());
        }
        while i < self.cycles.len()
            invariant
                i <= self.cycles@.len(),
                self.wf(),
                sum == carried_total(self.cycles@.take(i as int)),
                carried_total(self.cycles@) <= outstanding_total(self.cycles@) <= i64::MAX,
                sum >= 0,
            decreases self.cycles@.len() - i,
        {
            proof {
                outstanding_prefix(self.cycles@, i + 1);
                assert(self.cycles@.take(i + 1).drop_last() =~= self.cycles@.take(i as int));
                assert(self.cycles@[i as int].outstanding_zatoshis >= 0);
            }
            if text_eq(self.cycles[i].status.as_str(), "carried_over") {
                sum = sum + self.cycles[i].outstanding_zatoshis;
            }
            i = i + 1;
        }
        assert(self.cycles@.take(i as int) =~= self.cycles@);
        sum
    }

    /// Whether the cycles before the last one are those of `before`, with
    /// what was carried over taken out of them.
    pub open spec fn carry_taken(before: Seq<BillingCycle>, after: Seq<BillingCycle>) -> bool {
        &&& after.len() == before.len()
        &&& forall|i: int|
            0 <= i < before.len() ==> #[trigger] after[i] == if before[i].status@
                == "carried_over"@ {
                BillingCycle { outstanding_zatoshis: 0, ..before[i] }
            } else {
                before[i]
            }
    }

    /// Whether `c` is the cycle that begins at a time with a carried balance.
    pub open spec fn begins_as(&self, c: &BillingCycle, terms: &BillingTerms, now: int) -> bool {
        let days = if self.tier() == "new"@ {
            terms.cycle_days_new
        } else {
            terms.cycle_days_standard
        };
        &&& is_hyphenated(c.id@)
        &&& c.merchant_id@ == self.merchant_id@
        &&& c.period_start@ == timestamp_text(now)
        &&& c.period_end@ == timestamp_text(now + days * 86_400)
        &&& c.total_fees_zatoshis == carried_total(self.cycles@)
        &&& c.auto_collected_zatoshis == 0
        &&& c.outstanding_zatoshis == carried_total(self.cycles@)
        &&& c.settlement_invoice_id is None
        &&& c.status@ == "open"@
        &&& c.grace_until is None
        &&& c.created_at@ == timestamp_text(now)
    }

    /// Whether `after` is the account once it is sure to have an open cycle.
    pub open spec fn rolled_into(
        &self,
        after: &BillingAccount,
        terms: &BillingTerms,
        now: int,
    ) -> bool {
        if self.has_open_cycle() {
            *after == *self
        } else {
            &&& after.cycles@.len() == self.cycles@.len() + 1
            &&& Self::carry_taken(self.cycles@, after.cycles@.drop_last())
            &&& self.begins_as(&after.cycles@.last(), terms, now)
            &&& opt_text(after.billing_started_at) == match opt_text(self.billing_started_at) {
                Some(t) => Some(t),
                None => Some(timestamp_text(now)),
            }
            &&& after.merchant_id == self.merchant_id
            &&& after.trust_tier == self.trust_tier
            &&& after.billing_status == self.billing_status
            &&& after.fee_discount_until == self.fee_discount_until
        }
    }

    /// Makes sure that the account has an open cycle. A new one takes over
    /// what was carried over from earlier cycles.
    pub fn ensure_billing_cycle(&mut self, terms: &BillingTerms, now: i64)
        requires
            old(self).wf(),
            terms.fits(now as int),
            is_billing_time(now as int),
        ensures
            old(self).rolled_into(final(self), terms, now as int),
            final(self).has_open_cycle(),
            final(self).wf(),
            outstanding_total(final(self).cycles@) == outstanding_total(old(self).cycles@),
    {
        if self.open_cycle_exists() {
            return ;
        }
        let ghost before = *self;
        let tier: String = self.trust_tier_text();
        let days: i64 = if text_eq(tier.as_str(), "new") {
            terms.cycle_days_new
        } else {
            terms.cycle_days_standard
        };
        let start: String = timestamp(now);
        let end: String = timestamp(now + days * 86_400);
        let carried: i64 = self.carried();
        let mut i: usize = 0;
        while i < self.cycles.len()
            invariant
                i <= self.cycles@.len(),
                self.cycles@.len() == before.cycles@.len(),
                *self == (BillingAccount { cycles: self.cycles, ..before }),
                before.wf(),
                forall|k: int|
                    i <= k < before.cycles@.len() ==> #[trigger] self.cycles@[k]
                        == before.cycles@[k],
                forall|k: int|
                    0 <= k < i ==> #[trigger] self.cycles@[k] == if before.cycles@[k].status@
                        == "carried_over"@ {
                        BillingCycle { outstanding_zatoshis: 0, ..before.cycles@[k] }
                    } else {
                        before.cycles@[k]
                    },
            decreases self.cycles@.len() - i,
        {
            assert(self.cycles@[i as int] == before.cycles@[i as int]);
            if text_eq(self.cycles[i].status.as_str(), "carried_over") {
                let mut c: BillingCycle = self.cycles[i].copy();
                c.outstanding_zatoshis = 0;
                self.cycles.set(i, c);
            }
            i = i + 1;
        }
        let ghost taken = self.cycles@;
        let cycle: BillingCycle = BillingCycle {
            id: new_id(),
            merchant_id: self.merchant_id.clone(),
            period_start: start.clone(),
            period_end: end,
            total_fees_zatoshis: carried,
            auto_collected_zatoshis: 0,
            outstanding_zatoshis: carried,
            settlement_invoice_id: None,
            status: "open".to_string(),
            grace_until: None,
            created_at: start.clone(),
        };
        self.cycles.push(cycle);
        match &self.billing_started_at {
            Some(_) => {},
            None => {
                self.billing_started_at = Some(start);
            },
        }
        proof {
            assert(self.cycles@.drop_last() =~= taken);
            carry_keeps_outstanding(before.cycles@, taken);
            assert(self.cycles@.last().is_open());
            assert forall|k: int| 0 <= k < self.cycles@.len() implies (
            #[trigger] self.cycles@[k]).outstanding_zatoshis >= 0 by {
                if k < taken.len() {
                    assert(self.cycles@[k] == taken[k]);
                    assert(before.cycles@[k].outstanding_zatoshis >= 0);
                }
            }
        }
    }

    /// Whether `after` is the account once every cycle whose period is over
    /// was closed.
    pub open spec fn closed_into(
        &self,
        after: &BillingAccount,
        terms: &BillingTerms,
        now: int,
    ) -> bool {
        &&& *after == (BillingAccount { cycles: after.cycles, ..*self })
        &&& after.cycles@.len() == self.cycles@.len()
        &&& forall|i: int|
            0 <= i < self.cycles@.len() ==> if (#[trigger] self.cycles@[i]).is_expired(
                timestamp_text(now),
            ) {
                self.cycles@[i].closed_as(
                    &after.cycles@[i],
                    self.tier(),
                    terms.has_fee_address,
                    now,
                )
            } else {
                after.cycles@[i] == self.cycles@[i]
            }
    }

    /// Whether the settlements are those owed for the closed cycles among the
    /// first `n`, in their order.
    pub open spec fn owes(
        &self,
        after: &BillingAccount,
        settlements: Seq<Settlement>,
        terms: &BillingTerms,
        now: int,
        n: int,
    ) -> bool
        decreases n,
    {
        if n <= 0 {
            settlements.len() == 0
        } else if self.cycles@[n - 1].is_expired(timestamp_text(now)) && closing_of(
            self.cycles@[n - 1].outstanding_zatoshis,
            self.tier(),
            terms.has_fee_address,
        ) is Invoiced {
            &&& settlements.len() > 0
            &&& settles(
                &settlements.last(),
                &self.cycles@[n - 1],
                &after.cycles@[n - 1],
                self.tier(),
            )
            &&& self.owes(after, settlements.drop_last(), terms, now, n - 1)
        } else {
            self.owes(after, settlements, terms, now, n - 1)
        }
    }

    pub open spec fn any_expired(&self, now: Seq<char>) -> bool {
        exists|i: int| 0 <= i < self.cycles@.len() && (#[trigger] self.cycles@[i]).is_expired(now)
    }

    /// Closes the cycles whose period is over and gives the settlements that
    /// are owed for them.
    pub fn close_expired_cycles(&mut self, terms: &BillingTerms, now: i64) -> (r: (
        bool,
        Vec<Settlement>,
    ))
        requires
            old(self).wf(),
            is_billing_time(now as int),
        ensures
            old(self).closed_into(final(self), terms, now as int),
            r.0 == old(self).any_expired(timestamp_text(now as int)),
            old(self).owes(
                final(self),
                r.1@,
                terms,
                now as int,
                old(self).cycles@.len() as int,
            ),
            final(self).wf(),
            outstanding_total(final(self).cycles@) == outstanding_total(old(self).cycles@),
            graces_sort(now as int) ==> forall|i: int|
                0 <= i < old(self).cycles@.len() && (#[trigger] old(self).cycles@[i]).is_open()
                    ==> !final(self).cycles@[i].is_overdue(timestamp_text(now as int)),
    {
        let ghost before = *self;
        let now_text: String = timestamp(now);
        let tier: String = self.trust_tier_text();
        let mut any: bool = false;
        let mut settlements: Vec<Settlement> = Vec::new();
        let mut i: usize = 0;
        while i < self.cycles.len()
            invariant
                i <= self.cycles@.len(),
                self.cycles@.len() == before.cycles@.len(),
                *self == (BillingAccount { cycles: self.cycles, ..before }),
                before.wf(),
                is_billing_time(now as int),
                now_text@ == timestamp_text(now as int),
                tier@ == before.tier(),
                any == exists|k: int|
                    0 <= k < i && (#[trigger] before.cycles@[k]).is_expired(now_text@),
                forall|k: int|
                    i <= k < before.cycles@.len() ==> #[trigger] self.cycles@[k]
                        == before.cycles@[k],
                forall|k: int|
                    0 <= k < i ==> if (#[trigger] before.cycles@[k]).is_expired(now_text@) {
                        before.cycles@[k].closed_as(
                            &self.cycles@[k],
                            before.tier(),
                            terms.has_fee_address,
                            now as int,
                        )
                    } else {
                        self.cycles@[k] == before.cycles@[k]
                    },
                before.owes(self, settlements@, terms, now as int, i as int),
            decreases self.cycles@.len() - i,
        {
            assert(self.cycles@[i as int] == before.cycles@[i as int]);
            let ghost so_far = *self;
            if self.cycles[i].expired(now_text.as_str()) {
                any = true;
                let (c, owed) = self.cycles[i].close(
                    tier.as_str(),
                    terms.has_fee_address,
                    now,
                );
                self.cycles.set(i, c);
                proof {
                    owes_frame(before, so_far, *self, settlements@, terms, now as int, i as int);
                }
                match owed {
                    Some(s) => {
                        let ghost earlier = settlements@;
                        settlements.push(s);
                        assert(settlements@.drop_last() =~= earlier);
                    },
                    None => {},
                }
            }
            i = i + 1;
        }
        proof {
            assert forall|k: int| 0 <= k < before.cycles@.len() implies (
            #[trigger] self.cycles@[k]).outstanding_zatoshis
                == before.cycles@[k].outstanding_zatoshis by {
                assert(before.cycles@[k].is_expired(now_text@) || self.cycles@[k]
                    == before.cycles@[k]);
            }
            same_outstanding(self.cycles@, before.cycles@);
            assert forall|k: int| 0 <= k < self.cycles@.len() implies (
            #[trigger] self.cycles@[k]).outstanding_zatoshis >= 0 by {
                assert(before.cycles@[k].outstanding_zatoshis >= 0);
            }
            statuses_differ();
        }
        (any, settlements)
    }

    /// Whether `after` is the account once its overdue cycles were enforced.
    pub open spec fn enforced_into(&self, after: &BillingAccount, now: Seq<char>) -> bool {
        &&& *after == (BillingAccount {
            cycles: after.cycles,
            billing_status: after.billing_status,
            ..*self
        })
        &&& after.cycles@.len() == self.cycles@.len()
        &&& forall|i: int|
            0 <= i < self.cycles@.len() ==> if (#[trigger] self.cycles@[i]).is_overdue(now) {
                self.cycles@[i].moved_to(
                    &after.cycles@[i],
                    if self.cycles@[i].outstanding_zatoshis < MIN_SETTLEMENT_ZATOSHIS {
                        "carried_over"@
                    } else {
                        "past_due"@
                    },
                )
            } else {
                after.cycles@[i] == self.cycles@[i]
            }
        &&& opt_text(after.billing_status) == status_after_overdue(
            self.cycles@,
            opt_text(self.billing_status),
            now,
            self.cycles@.len() as int,
        )
    }

    /// Enforces the invoiced cycles whose grace period is over: too small a
    /// balance is carried over, any other puts the merchant past due. Gives
    /// the cycles over which the merchant went past due.
    pub fn enforce_overdue(&mut self, now: i64) -> (r: Vec<Demand>)
        requires
            old(self).wf(),
            is_billing_time(now as int),
        ensures
            old(self).enforced_into(final(self), timestamp_text(now as int)),
            final(self).wf(),
            outstanding_total(final(self).cycles@) == outstanding_total(old(self).cycles@),
            demands(
                old(self).cycles@,
                |c: BillingCycle|
                    c.is_overdue(timestamp_text(now as int)) && c.outstanding_zatoshis
                        >= MIN_SETTLEMENT_ZATOSHIS,
                r@,
                old(self).cycles@.len() as int,
            ),
    {
        let ghost before = *self;
        let now_text: String = timestamp(now);
        let ghost pick = |c: BillingCycle|
            c.is_overdue(timestamp_text(now as int)) && c.outstanding_zatoshis
                >= MIN_SETTLEMENT_ZATOSHIS;
        let mut out: Vec<Demand> = Vec::new();
        let mut i: usize = 0;
        while i < self.cycles.len()
            invariant
                i <= self.cycles@.len(),
                self.cycles@.len() == before.cycles@.len(),
                *self == (BillingAccount {
                    cycles: self.cycles,
                    billing_status: self.billing_status,
                    ..before
                }),
                before.wf(),
                now_text@ == timestamp_text(now as int),
                pick == (|c: BillingCycle|
                    c.is_overdue(timestamp_text(now as int)) && c.outstanding_zatoshis
                        >= MIN_SETTLEMENT_ZATOSHIS),
                forall|k: int|
                    i <= k < before.cycles@.len() ==> #[trigger] self.cycles@[k]
                        == before.cycles@[k],
                forall|k: int|
                    0 <= k < i ==> if (#[trigger] before.cycles@[k]).is_overdue(now_text@) {
                        before.cycles@[k].moved_to(
                            &self.cycles@[k],
                            if before.cycles@[k].outstanding_zatoshis < MIN_SETTLEMENT_ZATOSHIS {
                                "carried_over"@
                            } else {
                                "past_due"@
                            },
                        )
                    } else {
                        self.cycles@[k] == before.cycles@[k]
                    },
                opt_text(self.billing_status) == status_after_overdue(
                    before.cycles@,
                    opt_text(before.billing_status),
                    now_text@,
                    i as int,
                ),
                demands(before.cycles@, pick, out@, i as int),
            decreases self.cycles@.len() - i,
        {
            assert(self.cycles@[i as int] == before.cycles@[i as int]);
            let overdue: bool = text_eq(self.cycles[i].status.as_str(), "invoiced")
                && match &self.cycles[i].grace_until {
                Some(g) => text_less(g.as_str(), now_text.as_str()),
                None => false,
            };
            if overdue {
                if self.cycles[i].outstanding_zatoshis < MIN_SETTLEMENT_ZATOSHIS {
                    let c: BillingCycle = self.cycles[i].with_status("carried_over");
                    self.cycles.set(i, c);
                    self.billing_status = Some("active".to_string());
                } else {
                    let ghost earlier = out@;
                    out.push(
                        Demand {
                            cycle_id: self.cycles[i].id.clone(),
                            outstanding_zatoshis: self.cycles[i].outstanding_zatoshis,
                        },
                    );
                    assert(out@.drop_last() =~= earlier);
                    let c: BillingCycle = self.cycles[i].with_status("past_due");
                    self.cycles.set(i, c);
                    self.billing_status = Some("past_due".to_string());
                }
            }
            i = i + 1;
        }
        proof {
            assert forall|k: int| 0 <= k < before.cycles@.len() implies (
            #[trigger] self.cycles@[k]).outstanding_zatoshis
                == before.cycles@[k].outstanding_zatoshis by {
                assert(before.cycles@[k].is_overdue(now_text@) || self.cycles@[k]
                    == before.cycles@[k]);
            }
            same_outstanding(self.cycles@, before.cycles@);
            assert forall|k: int| 0 <= k < self.cycles@.len() implies (
            #[trigger] self.cycles@[k]).outstanding_zatoshis >= 0 by {
                assert(before.cycles@[k].outstanding_zatoshis >= 0);
            }
        }
        out
    }

    /// Whether `after` is the account once suspension was enforced.
    pub open spec fn suspended_into(&self, after: &BillingAccount, now: Moment) -> bool {
        &&& *after == (BillingAccount {
            cycles: after.cycles,
            billing_status: after.billing_status,
            ..*self
        })
        &&& after.cycles@.len() == self.cycles@.len()
        &&& forall|i: int|
            0 <= i < self.cycles@.len() ==> if (#[trigger] self.cycles@[i]).is_suspendable(
                self.tier(),
                now,
            ) {
                self.cycles@[i].moved_to(&after.cycles@[i], "suspended"@)
            } else {
                after.cycles@[i] == self.cycles@[i]
            }
        &&& opt_text(after.billing_status) == if any_suspendable(
            self.cycles@,
            self.tier(),
            now,
            self.cycles@.len() as int,
        ) {
            Some("suspended"@)
        } else {
            opt_text(self.billing_status)
        }
    }

    /// Suspends the merchant over past-due cycles whose last delay is over.
    /// Gives those cycles.
    pub fn enforce_suspension(&mut self, now: Moment) -> (r: Vec<Demand>)
        requires
            old(self).wf(),
        ensures
            old(self).suspended_into(final(self), now),
            final(self).wf(),
            outstanding_total(final(self).cycles@) == outstanding_total(old(self).cycles@),
            demands(
                old(self).cycles@,
                |c: BillingCycle| c.is_suspendable(old(self).tier(), now),
                r@,
                old(self).cycles@.len() as int,
            ),
    {
        let ghost before = *self;
        let tier: String = self.trust_tier_text();
        let days: i64 = suspension_days(tier.as_str());
        let ghost pick = |c: BillingCycle| c.is_suspendable(before.tier(), now);
        let mut out: Vec<Demand> = Vec::new();
        let mut i: usize = 0;
        while i < self.cycles.len()
            invariant
                i <= self.cycles@.len(),
                self.cycles@.len() == before.cycles@.len(),
                *self == (BillingAccount {
                    cycles: self.cycles,
                    billing_status: self.billing_status,
                    ..before
                }),
                before.wf(),
                tier@ == before.tier(),
                days == suspension_days_of(before.tier()),
                7 <= days <= 30,
                pick == (|c: BillingCycle| c.is_suspendable(before.tier(), now)),
                forall|k: int|
                    i <= k < before.cycles@.len() ==> #[trigger] self.cycles@[k]
                        == before.cycles@[k],
                forall|k: int|
                    0 <= k < i ==> if (#[trigger] before.cycles@[k]).is_suspendable(
                        before.tier(),
                        now,
                    ) {
                        before.cycles@[k].moved_to(&self.cycles@[k], "suspended"@)
                    } else {
                        self.cycles@[k] == before.cycles@[k]
                    },
                opt_text(self.billing_status) == if any_suspendable(
                    before.cycles@,
                    before.tier(),
                    now,
                    i as int,
                ) {
                    Some("suspended"@)
                } else {
                    opt_text(before.billing_status)
                },
                demands(before.cycles@, pick, out@, i as int),
            decreases self.cycles@.len() - i,
        {
            assert(self.cycles@[i as int] == before.cycles@[i as int]);
            let due: bool = text_eq(self.cycles[i].status.as_str(), "past_due")
                && match &self.cycles[i].grace_until {
                Some(g) => match parse_timestamp(g.as_str()) {
                    Some(m) => m.add_days(days).is_before(now),
                    None => false,
                },
                None => false,
            };
            assert(due == before.cycles@[i as int].is_suspendable(before.tier(), now));
            if due {
                let ghost earlier = out@;
                out.push(
                    Demand {
                        cycle_id: self.cycles[i].id.clone(),
                        outstanding_zatoshis: self.cycles[i].outstanding_zatoshis,
                    },
                );
                assert(out@.drop_last() =~= earlier);
                let c: BillingCycle = self.cycles[i].with_status("suspended");
                self.cycles.set(i, c);
                self.billing_status = Some("suspended".to_string());
            }
            i = i + 1;
        }
        proof {
            assert forall|k: int| 0 <= k < before.cycles@.len() implies (
            #[trigger] self.cycles@[k]).outstanding_zatoshis
                == before.cycles@[k].outstanding_zatoshis by {
                assert(before.cycles@[k].is_suspendable(before.tier(), now) || self.cycles@[k]
                    == before.cycles@[k]);
            }
            same_outstanding(self.cycles@, before.cycles@);
            assert forall|k: int| 0 <= k < self.cycles@.len() implies (
            #[trigger] self.cycles@[k]).outstanding_zatoshis >= 0 by {
                assert(before.cycles@[k].outstanding_zatoshis >= 0);
            }
        }
        out
    }

    /// The reminders to send: one for each invoiced cycle whose grace period
    /// ends within three days. The days left are at least one, and three where
    /// the end of the grace period is no date.
    pub fn due_reminders(&self, now: Moment) -> (r: Vec<Reminder>)
        requires
            is_billing_time(now.secs as int),
            now.nanos < NANOS,
        ensures
            reminders(
                self.cycles@,
                timestamp_text(now.secs as int),
                timestamp_text(now.secs + 259_200),
                now,
                r@,
                self.cycles@.len() as int,
            ),
    {
        let now_text: String = timestamp(now.secs);
        let threshold: String = timestamp(now.secs + REMINDER_DAYS * 86_400);
        let mut out: Vec<Reminder> = Vec::new();
        let mut i: usize = 0;
        while i < self.cycles.len()
            invariant
                i <= self.cycles@.len(),
                now_text@ == timestamp_text(now.secs as int),
                threshold@ == timestamp_text(now.secs + 259_200),
                is_billing_time(now.secs as int),
                now.nanos < NANOS,
                reminders(self.cycles@, now_text@, threshold@, now, out@, i as int),
            decreases self.cycles@.len() - i,
        {
            if text_eq(self.cycles[i].status.as_str(), "invoiced") {
                match &self.cycles[i].grace_until {
                    Some(g) => {
                        if text_less(now_text.as_str(), g.as_str()) && !text_less(
                            threshold.as_str(),
                            g.as_str(),
                        ) {
                            let ghost earlier = out@;
                            out.push(
                                Reminder {
                                    cycle_id: self.cycles[i].id.clone(),
                                    outstanding_zatoshis: self.cycles[i].outstanding_zatoshis,
                                    grace_until: g.clone(),
                                    days_left: days_left(g.as_str(), now),
                                },
                            );
                            assert(out@.drop_last() =~= earlier);
                        }
                    },
                    None => {},
                }
            }
            i = i + 1;
        }
        out
    }

    /// Whether the discount of the merchant is over.
    pub fn discount_expired(&self, now: i64) -> (r: bool)
        requires
            is_billing_time(now as int),
        ensures
            r == (opt_text(self.fee_discount_until) matches Some(u) && lex_less(
                u,
                timestamp_text(now as int),
            )),
    {
        match &self.fee_discount_until {
            Some(u) => text_less(u.as_str(), timestamp(now).as_str()),
            None => false,
        }
    }

    /// Whether the discount of the merchant ends within seven days.
    pub fn discount_ends_soon(&self, now: i64) -> (r: bool)
        requires
            is_billing_time(now as int),
        ensures
            r == (opt_text(self.fee_discount_until) matches Some(u) && lex_less(
                timestamp_text(now as int),
                u,
            ) && !lex_less(timestamp_text(now + 604_800), u)),
    {
        match &self.fee_discount_until {
            Some(u) => text_less(timestamp(now).as_str(), u.as_str()) && !text_less(
                timestamp(now + DISCOUNT_WARNING_DAYS * 86_400).as_str(),
                u.as_str(),
            ),
            None => false,
        }
    }

    /// The cycle that a summary shows: the latest one that is open or invoiced.
    pub open spec fn is_current(&self, i: int) -> bool {
        &&& 0 <= i < self.cycles@.len()
        &&& is_running(&self.cycles@[i])
        &&& forall|k: int|
            0 <= k < self.cycles@.len() && is_running(#[trigger] &self.cycles@[k]) ==> !lex_less(
                self.cycles@[i].created_at@,
                self.cycles@[k].created_at@,
            )
    }

    fn current_cycle(&self) -> (r: Option<usize>)
        ensures
            match r {
                Some(i) => self.is_current(i as int),
                None => forall|k: int|
                    0 <= k < self.cycles@.len() ==> !is_running(#[trigger] &self.cycles@[k]),
            },
    {
        let mut best: Option<usize> = None;
        let mut i: usize = 0;
        while i < self.cycles.len()
            invariant
                i <= self.cycles@.len(),
                match best {
                    Some(b) => {
                        &&& b < i
                        &&& is_running(&self.cycles@[b as int])
                        &&& forall|k: int|
                            0 <= k < i && is_running(#[trigger] &self.cycles@[k]) ==> !lex_less(
                                self.cycles@[b as int].created_at@,
                                self.cycles@[k].created_at@,
                            )
                    },
                    None => forall|k: int|
                        0 <= k < i ==> !is_running(#[trigger] &self.cycles@[k]),
                },
            decreases self.cycles@.len() - i,
        {
            let running: bool = text_eq(self.cycles[i].status.as_str(), "open") || text_eq(
                self.cycles[i].status.as_str(),
                "invoiced",
            );
            if running {
                match best {
                    None => {
                        best = Some(i);
                        proof {
                            crate::text::lex_less_irreflexive(self.cycles@[i as int].created_at@);
                        }
                    },
                    Some(b) => {
                        if text_less(
                            self.cycles[b].created_at.as_str(),
                            self.cycles[i].created_at.as_str(),
                        ) {
                            best = Some(i);
                            proof {
                                let x = self.cycles@[b as int].created_at@;
                                let y = self.cycles@[i as int].created_at@;
                                crate::text::lex_less_irreflexive(y);
                                assert forall|k: int|
                                    0 <= k <= i && is_running(
                                        #[trigger] &self.cycles@[k],
                                    ) implies !lex_less(y, self.cycles@[k].created_at@) by {
                                    if lex_less(y, self.cycles@[k].created_at@) {
                                        crate::text::lex_less_transitive(
                                            x,
                                            y,
                                            self.cycles@[k].created_at@,
                                        );
                                    }
                                }
                            }
                        }
                    },
                }
            }
            i = i + 1;
        }
        best
    }

    /// Whether a cycle leaves more to be paid than a trifle.
    pub open spec fn is_in_debt(&self) -> bool {
        exists|i: int|
            0 <= i < self.cycles@.len() && (#[trigger] self.cycles@[i]).outstanding_zatoshis
                > TRIFLING_BALANCE
    }

    /// Whether so much is outstanding that the account cannot be deleted.
    pub fn has_outstanding_balance(&self) -> (r: bool)
        ensures
            r == self.is_in_debt(),
    {
        let mut i: usize = 0;
        while i < self.cycles.len()
            invariant
                i <= self.cycles@.len(),
                forall|k: int|
                    0 <= k < i ==> (#[trigger] self.cycles@[k]).outstanding_zatoshis
                        <= TRIFLING_BALANCE,
            decreases self.cycles@.len() - i,
        {
            if self.cycles[i].outstanding_zatoshis > TRIFLING_BALANCE {
                return true;
            }
            i = i + 1;
        }
        false
    }

    /// The summary that the merchant sees: the amounts of the current cycle,
    /// or nothing where there is none.
    pub fn summary(&self, settlement_invoice_status: Option<String>) -> (r: BillingSummary)
        ensures
            r.trust_tier@ == self.tier(),
            r.billing_status@ == self.status(),
            match r.current_cycle {
                Some(c) => {
                    &&& exists|i: int| #[trigger] self.is_current(i) && c == self.cycles@[i]
                    &&& r.total_fees_zatoshis == c.total_fees_zatoshis
                    &&& r.auto_collected_zatoshis == c.auto_collected_zatoshis
                    &&& r.outstanding_zatoshis == c.outstanding_zatoshis
                    &&& r.settlement_invoice_status == if c.settlement_invoice_id is Some {
                        settlement_invoice_status
                    } else {
                        None
                    }
                },
                None => {
                    &&& forall|k: int|
                        0 <= k < self.cycles@.len() ==> !is_running(#[trigger] &self.cycles@[k])
                    &&& r.total_fees_zatoshis == 0
                    &&& r.auto_collected_zatoshis == 0
                    &&& r.outstanding_zatoshis == 0
                    &&& r.settlement_invoice_status is None
                },
            },
    {
        let status: String = match &self.billing_status {
            Some(s) => s.clone(),
            None => "active".to_string(),
        };
        let tier: String = self.trust_tier_text();
        match self.current_cycle() {
            Some(i) => {
                let c: BillingCycle = self.cycles[i].copy();
                let invoice_status: Option<String> = match &c.settlement_invoice_id {
                    Some(_) => settlement_invoice_status,
                    None => None,
                };
                BillingSummary {
                    trust_tier: tier,
                    billing_status: status,
                    total_fees_zatoshis: c.total_fees_zatoshis,
                    auto_collected_zatoshis: c.auto_collected_zatoshis,
                    outstanding_zatoshis: c.outstanding_zatoshis,
                    current_cycle: Some(c),
                    settlement_invoice_status: invoice_status,
                }
            },
            None => BillingSummary {
                trust_tier: tier,
                billing_status: status,
                current_cycle: None,
                total_fees_zatoshis: 0,
                auto_collected_zatoshis: 0,
                outstanding_zatoshis: 0,
                settlement_invoice_status: None,
            },
        }
    }

    /// Moves a merchant up a trust tier, where the latest three cycles are
    /// settled and no cycle of the last ninety days is late. Gives the tier
    /// that was reached, if any.
    pub fn upgrade_tier(&mut self, now: i64) -> (r: Option<&'static str>)
        requires
            is_billing_time(now as int),
        ensures
            opt_str(r) == upgraded_tier_of(
                old(self).tier(),
                recent_settled(old(self).cycles@, old(self).cycles@.len() as int),
                late_since(
                    old(self).cycles@,
                    late_memory_start(now as int),
                    old(self).cycles@.len() as int,
                ),
            ),
            match r {
                Some(t) => {
                    &&& opt_text(final(self).trust_tier) == Some(t@)
                    &&& *final(self) == (BillingAccount {
                        trust_tier: final(self).trust_tier,
                        ..*old(self)
                    })
                },
                None => *final(self) == *old(self),
            },
    {
        let then: Moment = Moment { secs: now - LATE_MEMORY_SECS, nanos: 0 };
        let since: String = match format_datetime(then, SPACED_FORMAT) {
            Some(s) => s,
            None => String::new(),
        };
        let paid: usize = count_recent_settled(&self.cycles);
        let late: usize = count_late(&self.cycles, since.as_str());
        let tier: String = self.trust_tier_text();
        let r: Option<&'static str> = upgraded_tier(tier.as_str(), paid, late);
        match r {
            Some(t) => {
                self.trust_tier = Some(t.to_string());
            },
            None => {},
        }
        r
    }

    /// Whether no cycle that was open before is past due or suspended after:
    /// whoever is invoiced has time to pay.
    pub open spec fn leaves_grace(&self, after: &BillingAccount) -> bool {
        forall|i: int|
            0 <= i < self.cycles@.len() && (#[trigger] self.cycles@[i]).is_open() ==> (
            after.cycles@[i].status@ != "past_due"@ && after.cycles@[i].status@ != "suspended"@)
    }

    /// Runs billing for the account: closes what is over and makes sure that
    /// a cycle is open, lists the reminders, enforces overdue and past-due
    /// cycles. What is owed stays owed, and what is invoiced in a run is not
    /// past due in the same run.
    pub fn process_billing_cycles(&mut self, terms: &BillingTerms, now: Moment) -> (r: BillingRun)
        requires
            old(self).wf(),
            terms.fits(now.secs as int),
            is_billing_time(now.secs as int),
            now.nanos < NANOS,
        ensures
            exists|closed: BillingAccount, rolled: BillingAccount, enforced: BillingAccount|
                #[trigger] billing_run(
                    *old(self),
                    closed,
                    rolled,
                    enforced,
                    *final(self),
                    terms,
                    now,
                    &r,
                ),
            final(self).wf(),
            outstanding_total(final(self).cycles@) == outstanding_total(old(self).cycles@),
            graces_sort(now.secs as int) ==> old(self).leaves_grace(final(self)),
    {
        let ghost before = *self;
        let (any, settlements) = self.close_expired_cycles(terms, now.secs);
        let ghost closed = *self;
        if any {
            self.ensure_billing_cycle(terms, now.secs);
        }
        let ghost rolled = *self;
        let reminders: Vec<Reminder> = self.due_reminders(now);
        let past_due: Vec<Demand> = self.enforce_overdue(now.secs);
        let ghost enforced = *self;
        let suspended: Vec<Demand> = self.enforce_suspension(now);
        let r: BillingRun = BillingRun { settlements, reminders, past_due, suspended };
        assert(billing_run(before, closed, rolled, enforced, *self, terms, now, &r));
        proof {
            if graces_sort(now.secs as int) {
                statuses_differ();
                assert forall|i: int|
                    0 <= i < before.cycles@.len() && (#[trigger] before.cycles@[i]).is_open() implies (
                self.cycles@[i].status@ != "past_due"@ && self.cycles@[i].status@
                    != "suspended"@) by {
                    let text = timestamp_text(now.secs as int);
                    assert(before.cycles@[i].is_expired(text) || closed.cycles@[i]
                        == before.cycles@[i]);
                    assert(!closed.cycles@[i].is_overdue(text));
                    if rolled != closed {
                        assert(rolled.cycles@.drop_last()[i] == rolled.cycles@[i]);
                    }
                    assert(!rolled.cycles@[i].is_overdue(text));
                    assert(enforced.cycles@[i] == rolled.cycles@[i]);
                    assert(!enforced.cycles@[i].is_suspendable(enforced.tier(), now));
                    assert(self.cycles@[i] == enforced.cycles@[i]);
                }
            }
        }
        r
    }
}

impl FeeEntry {
    /// Whether `r` is the entry once its fee was collected.
    pub open spec fn collected_as(&self, r: &FeeEntry, now: Seq<char>) -> bool {
        &&& r.auto_collected == 1
        &&& opt_text(r.collected_at) == Some(now)
        &&& *r == (FeeEntry { auto_collected: 1, collected_at: r.collected_at, ..*self })
    }

    /// Marks the fee as collected, once.
    pub fn collect(&self, now: &str) -> (r: Option<FeeEntry>)
        ensures
            match r {
                Some(e) => self.auto_collected == 0 && self.collected_as(&e, now@),
                None => self.auto_collected != 0,
            },
    {
        if self.auto_collected != 0 {
            return None;
        }
        Some(
            FeeEntry {
                id: self.id.clone(),
                invoice_id: self.invoice_id.clone(),
                merchant_id: self.merchant_id.clone(),
                fee_amount_zatoshis: self.fee_amount_zatoshis,
                auto_collected: 1,
                collected_at: Some(now.to_string()),
                billing_cycle_id: self.billing_cycle_id.clone(),
                created_at: self.created_at.clone(),
            },
        )
    }
}

/// The first open cycle among the first `n`.
pub open spec fn first_open(cycles: Seq<BillingCycle>, n: int) -> Option<int>
    decreases n,
{
    if n <= 0 {
        None
    } else {
        match first_open(cycles, n - 1) {
            Some(i) => Some(i),
            None => if cycles[n - 1].is_open() {
                Some(n - 1)
            } else {
                None
            },
        }
    }
}

impl BillingAccount {
    fn find_open(&self) -> (r: Option<usize>)
        ensures
            match r {
                Some(i) => i < self.cycles@.len() && first_open(
                    self.cycles@,
                    self.cycles@.len() as int,
                ) == Some(i as int),
                None => first_open(self.cycles@, self.cycles@.len() as int) is None,
            },
    {
        let mut i: usize = 0;
        let mut found: Option<usize> = None;
        while i < self.cycles.len()
            invariant
                i <= self.cycles@.len(),
                match found {
                    Some(k) => k < i && first_open(self.cycles@, i as int) == Some(k as int),
                    None => first_open(self.cycles@, i as int) is None,
                },
            decreases self.cycles@.len() - i,
        {
            if found.is_none() && text_eq(self.cycles[i].status.as_str(), "open") {
                found = Some(i);
            }
            i = i + 1;
        }
        found
    }

    /// Whether a fee can be added to the open cycle without leaving the range
    /// of amounts.
    pub open spec fn fee_fits(&self, amount: i64) -> bool {
        match first_open(self.cycles@, self.cycles@.len() as int) {
            Some(i) => {
                &&& i64::MIN <= self.cycles@[i].total_fees_zatoshis + amount <= i64::MAX
                &&& i64::MIN <= self.cycles@[i].outstanding_zatoshis + amount <= i64::MAX
            },
            None => true,
        }
    }

    /// Enters the fee of an invoice: it is added to the open cycle, if there
    /// is one. Gives the entry to store.
    pub fn create_fee_entry(&mut self, invoice_id: &str, amount: i64, now: &str) -> (r: FeeEntry)
        requires
            old(self).fee_fits(amount),
        ensures
            is_hyphenated(r.id@),
            r.invoice_id@ == invoice_id@,
            r.merchant_id == old(self).merchant_id,
            r.fee_amount_zatoshis == amount,
            r.auto_collected == 0,
            r.collected_at is None,
            r.created_at@ == now@,
            match first_open(old(self).cycles@, old(self).cycles@.len() as int) {
                Some(i) => {
                    &&& opt_text(r.billing_cycle_id) == Some(old(self).cycles@[i].id@)
                    &&& *final(self) == (BillingAccount {
                        cycles: final(self).cycles,
                        ..*old(self)
                    })
                    &&& final(self).cycles@ == old(self).cycles@.update(
                        i,
                        BillingCycle {
                            total_fees_zatoshis: (old(self).cycles@[i].total_fees_zatoshis
                                + amount) as i64,
                            outstanding_zatoshis: (old(self).cycles@[i].outstanding_zatoshis
                                + amount) as i64,
                            ..old(self).cycles@[i]
                        },
                    )
                },
                None => r.billing_cycle_id is None && *final(self) == *old(self),
            },
    {
        let mut entry: FeeEntry = FeeEntry {
            id: new_id(),
            invoice_id: invoice_id.to_string(),
            merchant_id: self.merchant_id.clone(),
            fee_amount_zatoshis: amount,
            auto_collected: 0,
            collected_at: None,
            billing_cycle_id: None,
            created_at: now.to_string(),
        };
        match self.find_open() {
            Some(i) => {
                entry.billing_cycle_id = Some(self.cycles[i].id.clone());
                let c: BillingCycle = self.cycles[i].add_fee(amount);
                self.cycles.set(i, c);
            },
            None => {},
        }
        entry
    }

    /// Whether `after` is the account once the settlement of a cycle was
    /// found paid: the cycle is paid and the merchant active.
    pub open spec fn restored_into(&self, after: &BillingAccount, i: int) -> bool {
        &&& self.cycles@[i].settled_as(&after.cycles@[i])
        &&& after.cycles@ == self.cycles@.update(i, after.cycles@[i])
        &&& opt_text(after.billing_status) == Some("active"@)
        &&& *after == (BillingAccount {
            cycles: after.cycles,
            billing_status: after.billing_status,
            ..*self
        })
    }

    /// Restores the merchant where the settlement invoice of a cycle is
    /// confirmed. Gives whether it was.
    pub fn check_settlement_payment(&mut self, i: usize, invoice_status: &str) -> (r: bool)
        requires
            i < old(self).cycles@.len(),
        ensures
            r == (old(self).cycles@[i as int].awaits_settlement() && invoice_status@
                == "confirmed"@),
            if r {
                old(self).restored_into(final(self), i as int)
            } else {
                *final(self) == *old(self)
            },
            ({
                let status = old(self).cycles@[i as int].status@;
                r == (invoice_status@ == "confirmed"@ && (status == "invoiced"@ || status
                    == "past_due"@ || status == "suspended"@))
            }),
            r ==> {
                &&& final(self).cycles@[i as int].status@ == "paid"@
                &&& final(self).cycles@[i as int].outstanding_zatoshis == 0
                &&& opt_text(final(self).billing_status) == Some("active"@)
            },
    {
        match self.cycles[i].settle(invoice_status) {
            Some(c) => {
                self.cycles.set(i, c);
                self.billing_status = Some("active".to_string());
                true
            },
            None => false,
        }
    }

    /// Whether a fee can be moved to what was collected in the cycle that it
    /// was entered in.
    pub open spec fn collection_fits(&self, entry: &FeeEntry) -> bool {
        forall|i: int|
            0 <= i < self.cycles@.len() ==> {
                &&& i64::MIN <= (#[trigger] self.cycles@[i]).auto_collected_zatoshis
                    + entry.fee_amount_zatoshis <= i64::MAX
                &&& i64::MIN <= self.cycles@[i].outstanding_zatoshis - entry.fee_amount_zatoshis
                    <= i64::MAX
            }
    }

    /// Marks the fee of an invoice as collected with the payment, once, and
    /// takes it off what is outstanding in its cycle. Gives the entry to store.
    pub fn mark_fee_collected(&mut self, entry: &FeeEntry, now: &str) -> (r: Option<FeeEntry>)
        requires
            old(self).collection_fits(entry),
        ensures
            match r {
                None => entry.auto_collected != 0 && *final(self) == *old(self),
                Some(e) => {
                    &&& entry.auto_collected == 0
                    &&& entry.collected_as(&e, now@)
                    &&& final(self).cycles@.len() == old(self).cycles@.len()
                    &&& *final(self) == (BillingAccount {
                        cycles: final(self).cycles,
                        ..*old(self)
                    })
                    &&& forall|i: int|
                        0 <= i < old(self).cycles@.len() ==> #[trigger] final(self).cycles@[i]
                            == if Some(old(self).cycles@[i].id@) == opt_text(
                            entry.billing_cycle_id,
                        ) {
                            BillingCycle {
                                auto_collected_zatoshis: (old(
                                    self,
                                ).cycles@[i].auto_collected_zatoshis
                                    + entry.fee_amount_zatoshis) as i64,
                                outstanding_zatoshis: if old(self).cycles@[i].outstanding_zatoshis
                                    < entry.fee_amount_zatoshis {
                                    0
                                } else {
                                    (old(self).cycles@[i].outstanding_zatoshis
                                        - entry.fee_amount_zatoshis) as i64
                                },
                                ..old(self).cycles@[i]
                            }
                        } else {
                            old(self).cycles@[i]
                        }
                },
            },
    {
        let collected: FeeEntry = match entry.collect(now) {
            Some(e) => e,
            None => {
                return None;
            },
        };
        let ghost before = *self;
        match &entry.billing_cycle_id {
            None => {},
            Some(id) => {
                let mut i: usize = 0;
                while i < self.cycles.len()
                    invariant
                        i <= self.cycles@.len(),
                        self.cycles@.len() == before.cycles@.len(),
                        before.collection_fits(entry),
                        opt_text(entry.billing_cycle_id) == Some(id@),
                        *self == (BillingAccount { cycles: self.cycles, ..before }),
                        forall|k: int|
                            i <= k < before.cycles@.len() ==> #[trigger] self.cycles@[k]
                                == before.cycles@[k],
                        forall|k: int|
                            0 <= k < i ==> #[trigger] self.cycles@[k] == if Some(
                                before.cycles@[k].id@,
                            ) == opt_text(entry.billing_cycle_id) {
                                BillingCycle {
                                    auto_collected_zatoshis: (
                                    before.cycles@[k].auto_collected_zatoshis
                                        + entry.fee_amount_zatoshis) as i64,
                                    outstanding_zatoshis: if before.cycles@[k].outstanding_zatoshis
                                        < entry.fee_amount_zatoshis {
                                        0
                                    } else {
                                        (before.cycles@[k].outstanding_zatoshis
                                            - entry.fee_amount_zatoshis) as i64
                                    },
                                    ..before.cycles@[k]
                                }
                            } else {
                                before.cycles@[k]
                            },
                    decreases self.cycles@.len() - i,
                {
                    assert(self.cycles@[i as int] == before.cycles@[i as int]);
                    if text_eq(self.cycles[i].id.as_str(), id.as_str()) {
                        let c: BillingCycle = self.cycles[i].collect_fee(entry.fee_amount_zatoshis);
                        self.cycles.set(i, c);
                    }
                    i = i + 1;
                }
            },
        }
        Some(collected)
    }
}

/// What a merchant's request to settle leads to.
#[derive(Debug, Clone, Copy, PartialEq, Eq, Structural)]
pub enum SettleDecision {
    BillingNotEnabled,
    NothingOutstanding,
    BelowMinimum,
    CreateInvoice,
}

/// What a merchant's request to settle leads to.
pub fn settle_decision(has_fee_address: bool, outstanding_zatoshis: i64) -> (r: SettleDecision)
    ensures
        r == if !has_fee_address {
            SettleDecision::BillingNotEnabled
        } else if outstanding_zatoshis <= 0 {
            SettleDecision::NothingOutstanding
        } else if outstanding_zatoshis < MIN_SETTLEMENT_ZATOSHIS {
            SettleDecision::BelowMinimum
        } else {
            SettleDecision::CreateInvoice
        },
        r is CreateInvoice <==> has_fee_address && outstanding_zatoshis >= 5_000_000,
        r is BelowMinimum <==> has_fee_address && 0 < outstanding_zatoshis < 5_000_000,
        r is NothingOutstanding <==> has_fee_address && outstanding_zatoshis <= 0,
{
    if !has_fee_address {
        SettleDecision::BillingNotEnabled
    } else if outstanding_zatoshis <= 0 {
        SettleDecision::NothingOutstanding
    } else if outstanding_zatoshis < MIN_SETTLEMENT_ZATOSHIS {
        SettleDecision::BelowMinimum
    } else {
        SettleDecision::CreateInvoice
    }
}

/// What a run of billing leaves to be done outside: invoices to write and
/// messages to send.
pub struct BillingRun {
    pub settlements: Vec<Settlement>,
    pub reminders: Vec<Reminder>,
    pub past_due: Vec<Demand>,
    pub suspended: Vec<Demand>,
}

/// Whether a run of billing led an account through the given states.
pub open spec fn billing_run(
    before: BillingAccount,
    closed: BillingAccount,
    rolled: BillingAccount,
    enforced: BillingAccount,
    after: BillingAccount,
    terms: &BillingTerms,
    now: Moment,
    run: &BillingRun,
) -> bool {
    let text = timestamp_text(now.secs as int);
    &&& before.closed_into(&closed, terms, now.secs as int)
    &&& before.owes(
        &closed,
        run.settlements@,
        terms,
        now.secs as int,
        before.cycles@.len() as int,
    )
    &&& if before.any_expired(text) {
        closed.rolled_into(&rolled, terms, now.secs as int)
    } else {
        rolled == closed
    }
    &&& reminders(
        rolled.cycles@,
        text,
        timestamp_text(now.secs + 259_200),
        now,
        run.reminders@,
        rolled.cycles@.len() as int,
    )
    &&& rolled.enforced_into(&enforced, text)
    &&& demands(
        rolled.cycles@,
        |c: BillingCycle|
            c.is_overdue(text) && c.outstanding_zatoshis >= MIN_SETTLEMENT_ZATOSHIS,
        run.past_due@,
        rolled.cycles@.len() as int,
    )
    &&& enforced.suspended_into(&after, now)
    &&& demands(
        enforced.cycles@,
        |c: BillingCycle| c.is_suspendable(enforced.tier(), now),
        run.suspended@,
        enforced.cycles@.len() as int,
    )
}

pub open spec fn is_running(c: &BillingCycle) -> bool {
    c.status@ == "open"@ || c.status@ == "invoiced"@
}

/// Whether the demands name the picked cycles among the first `n`, in their
/// order.
pub open spec fn demands(
    cycles: Seq<BillingCycle>,
    pick: spec_fn(BillingCycle) -> bool,
    out: Seq<Demand>,
    n: int,
) -> bool
    decreases n,
{
    if n <= 0 {
        out.len() == 0
    } else if pick(cycles[n - 1]) {
        &&& out.len() > 0
        &&& out.last().cycle_id@ == cycles[n - 1].id@
        &&& out.last().outstanding_zatoshis == cycles[n - 1].outstanding_zatoshis
        &&& demands(cycles, pick, out.drop_last(), n - 1)
    } else {
        demands(cycles, pick, out, n - 1)
    }
}

/// The days that a reminder names.
pub open spec fn days_left_of(grace_until: Seq<char>, now: Moment) -> int {
    match parsed_datetime(grace_until, TIMESTAMP_FORMAT@) {
        Some(m) => if m.nanos_since(now) < 172_800_000_000_000 {
            1
        } else {
            m.nanos_since(now) / 86_400_000_000_000
        },
        None => 3,
    }
}

fn days_left(grace_until: &str, now: Moment) -> (r: i64)
    requires
        is_billing_time(now.secs as int),
        now.nanos < NANOS,
    ensures
        r == days_left_of(grace_until@, now),
{
    match parse_timestamp(grace_until) {
        Some(m) => {
            let d: i64 = m.days_since(now);
            if d < 1 {
                1
            } else {
                d
            }
        },
        None => 3,
    }
}

/// Whether the reminders are those due for the cycles among the first `n`, in
/// their order.
pub open spec fn reminders(
    cycles: Seq<BillingCycle>,
    now_text: Seq<char>,
    threshold: Seq<char>,
    now: Moment,
    out: Seq<Reminder>,
    n: int,
) -> bool
    decreases n,
{
    if n <= 0 {
        out.len() == 0
    } else if cycles[n - 1].wants_reminder(now_text, threshold) {
        &&& out.len() > 0
        &&& out.last().cycle_id@ == cycles[n - 1].id@
        &&& out.last().outstanding_zatoshis == cycles[n - 1].outstanding_zatoshis
        &&& opt_text(cycles[n - 1].grace_until) == Some(out.last().grace_until@)
        &&& out.last().days_left == days_left_of(out.last().grace_until@, now)
        &&& reminders(cycles, now_text, threshold, now, out.drop_last(), n - 1)
    } else {
        reminders(cycles, now_text, threshold, now, out, n - 1)
    }
}

proof fn owes_frame(
    before: BillingAccount,
    a: BillingAccount,
    b: BillingAccount,
    settlements: Seq<Settlement>,
    terms: &BillingTerms,
    now: int,
    n: int,
)
    requires
        before.owes(&a, settlements, terms, now, n),
        forall|k: int| 0 <= k < n ==> #[trigger] a.cycles@[k] == b.cycles@[k],
    ensures
        before.owes(&b, settlements, terms, now, n),
    decreases n,
{
    if n > 0 {
        assert(a.cycles@[n - 1] == b.cycles@[n - 1]);
        if before.owes(&a, settlements, terms, now, n - 1) {
            owes_frame(before, a, b, settlements, terms, now, n - 1);
        }
        if settlements.len() > 0 && before.owes(&a, settlements.drop_last(), terms, now, n - 1) {
            owes_frame(before, a, b, settlements.drop_last(), terms, now, n - 1);
        }
    }
}

/// Taking the carried balance out of the earlier cycles leaves exactly the
/// rest.
proof fn carry_keeps_outstanding(before: Seq<BillingCycle>, after: Seq<BillingCycle>)
    requires
        BillingAccount::carry_taken(before, after),
    ensures
        outstanding_total(after) + carried_total(before) == outstanding_total(before),
    decreases before.len(),
{
    if before.len() > 0 {
        assert(after.last() == after[before.len() - 1]);
        assert forall|i: int| 0 <= i < before.drop_last().len() implies #[trigger] after.drop_last()[i]
            == if before.drop_last()[i].status@ == "carried_over"@ {
            BillingCycle { outstanding_zatoshis: 0, ..before.drop_last()[i] }
        } else {
            before.drop_last()[i]
        } by {
            assert(after[i] == after.drop_last()[i]);
        }
        carry_keeps_outstanding(before.drop_last(), after.drop_last());
    }
}

/// Who owes less than the minimum in every cycle, and was neither past due nor
/// blocked before, is not blocked by a run of billing.
pub proof fn small_balances_block_nobody(
    before: BillingAccount,
    closed: BillingAccount,
    rolled: BillingAccount,
    enforced: BillingAccount,
    after: BillingAccount,
    terms: &BillingTerms,
    now: Moment,
    run: &BillingRun,
)
    requires
        billing_run(before, closed, rolled, enforced, after, terms, now, run),
        !is_blocking(before.status()),
        forall|i: int|
            0 <= i < before.cycles@.len() ==> (#[trigger] before.cycles@[i]).outstanding_zatoshis
                < MIN_SETTLEMENT_ZATOSHIS && before.cycles@[i].status@ != "past_due"@,
    ensures
        !is_blocking(after.status()),
{
    reveal_strlit("past_due");
    reveal_strlit("suspended");
    reveal_strlit("active");
    reveal_strlit("paid");
    reveal_strlit("carried_over");
    reveal_strlit("invoiced");
    reveal_strlit("open");
    assert("past_due"@.len() == 8 && "suspended"@.len() == 9 && "active"@.len() == 6);
    assert("paid"@.len() == 4 && "carried_over"@.len() == 12 && "open"@.len() == 4);
    assert("invoiced"@[0] == 'i' && "past_due"@[0] == 'p');
    let text = timestamp_text(now.secs as int);
    assert forall|i: int| 0 <= i < closed.cycles@.len() implies (
    #[trigger] closed.cycles@[i]).outstanding_zatoshis < MIN_SETTLEMENT_ZATOSHIS
        && closed.cycles@[i].status@ != "past_due"@ by {
        assert(before.cycles@[i].outstanding_zatoshis < MIN_SETTLEMENT_ZATOSHIS);
        assert(before.cycles@[i].is_expired(text) || closed.cycles@[i] == before.cycles@[i]);
    }
    assert forall|i: int| 0 <= i < rolled.cycles@.len() implies (
    #[trigger] rolled.cycles@[i]).status@ != "past_due"@ && (rolled.cycles@[i].status@
        == "invoiced"@ ==> rolled.cycles@[i].outstanding_zatoshis < MIN_SETTLEMENT_ZATOSHIS) by {
        if before.any_expired(text) && !closed.has_open_cycle() {
            if i < closed.cycles@.len() {
                assert(rolled.cycles@.drop_last()[i] == rolled.cycles@[i]);
            } else {
                assert(rolled.cycles@[i] == rolled.cycles@.last());
            }
        } else {
            assert(rolled.cycles@[i] == closed.cycles@[i]);
        }
    }
    overdue_sets_active(
        rolled.cycles@,
        opt_text(rolled.billing_status),
        text,
        rolled.cycles@.len() as int,
    );
    assert forall|i: int| 0 <= i < enforced.cycles@.len() implies !(
    #[trigger] enforced.cycles@[i]).is_suspendable(enforced.tier(), now) by {
        assert(rolled.cycles@[i].is_overdue(text) || enforced.cycles@[i] == rolled.cycles@[i]);
    }
}

proof fn overdue_sets_active(
    cycles: Seq<BillingCycle>,
    status: Option<Seq<char>>,
    now: Seq<char>,
    n: int,
)
    requires
        0 <= n <= cycles.len(),
        forall|i: int|
            0 <= i < cycles.len() && (#[trigger] cycles[i]).status@ == "invoiced"@
                ==> cycles[i].outstanding_zatoshis < MIN_SETTLEMENT_ZATOSHIS,
    ensures
        status_after_overdue(cycles, status, now, n) == status || status_after_overdue(
            cycles,
            status,
            now,
            n,
        ) == Some("active"@),
    decreases n,
{
    if n > 0 {
        overdue_sets_active(cycles, status, now, n - 1);
    }
}

// ---------------------------------------------------------------------------
// Laws on settlement
// ---------------------------------------------------------------------------

/// Whatever was invoiced can be settled, in its grace period, past due or
/// suspended: the cycle is paid, nothing of it is outstanding, and the merchant
/// is active. The other cycles stay.
pub proof fn confirmed_settlement_restores(
    before: BillingAccount,
    after: BillingAccount,
    i: int,
    k: int,
)
    requires
        0 <= i < before.cycles@.len(),
        0 <= k < before.cycles@.len(),
        before.cycles@[i].awaits_settlement() ==> before.restored_into(&after, i),
        !before.cycles@[i].awaits_settlement() ==> after == before,
    ensures
        before.cycles@[i].status@ == "invoiced"@ || before.cycles@[i].status@ == "past_due"@
            || before.cycles@[i].status@ == "suspended"@ ==> {
            &&& after.cycles@[i].status@ == "paid"@
            &&& after.cycles@[i].outstanding_zatoshis == 0
            &&& after.cycles@[i].total_fees_zatoshis == before.cycles@[i].total_fees_zatoshis
            &&& after.cycles@[i].id == before.cycles@[i].id
            &&& opt_text(after.billing_status) == Some("active"@)
            &&& after.trust_tier == before.trust_tier
        },
        before.cycles@[i].status@ == "open"@ || before.cycles@[i].status@ == "paid"@
            || before.cycles@[i].status@ == "carried_over"@ ==> after == before,
        k != i ==> after.cycles@[k] == before.cycles@[k],
        after.cycles@.len() == before.cycles@.len(),
{
    cycle_statuses_differ();
    if k != i && before.cycles@[i].awaits_settlement() {
        assert(after.cycles@[k] == before.cycles@.update(i, after.cycles@[i])[k]);
    }
}

/// A cycle that was closed with enough outstanding, where there is an address
/// for fees, is invoiced, and can be settled at once.
pub proof fn invoiced_cycle_can_be_settled(
    before: BillingCycle,
    after: BillingCycle,
    tier: Seq<char>,
    now: int,
)
    requires
        before.closed_as(&after, tier, true, now),
        before.outstanding_zatoshis >= 5_000_000,
    ensures
        after.status@ == "invoiced"@,
        after.awaits_settlement(),
        after.outstanding_zatoshis == before.outstanding_zatoshis,
        after.settlement_invoice_id is Some,
{
}

proof fn cycle_statuses_differ()
    ensures
        "open"@ != "invoiced"@,
        "open"@ != "past_due"@,
        "open"@ != "suspended"@,
        "paid"@ != "invoiced"@,
        "paid"@ != "past_due"@,
        "paid"@ != "suspended"@,
        "paid"@ != "open"@,
        "carried_over"@ != "invoiced"@,
        "carried_over"@ != "past_due"@,
        "carried_over"@ != "suspended"@,
        "carried_over"@ != "paid"@,
        "carried_over"@ != "open"@,
        "invoiced"@ != "past_due"@,
        "invoiced"@ != "suspended"@,
        "past_due"@ != "suspended"@,
        "active"@ != "past_due"@,
        "active"@ != "suspended"@,
{
    reveal_strlit("open");
    reveal_strlit("invoiced");
    reveal_strlit("past_due");
    reveal_strlit("suspended");
    reveal_strlit("paid");
    reveal_strlit("carried_over");
    reveal_strlit("active");
    assert("open"@[0] == 'o' && "invoiced"@[0] == 'i' && "past_due"@[0] == 'p');
    assert("suspended"@[0] == 's' && "paid"@[0] == 'p' && "carried_over"@[0] == 'c');
    assert("active"@[0] == 'a');
    assert("paid"@.len() != "past_due"@.len());
}

// ---------------------------------------------------------------------------
// Laws on the billing run
// ---------------------------------------------------------------------------

/// A closing keeps what is owed in sight. A cycle that is not open, or whose
/// period still runs, stays. An ended one with nothing outstanding is paid, one
/// that owes less than 0.05 ZEC is carried over, and one that owes as much or
/// more is invoiced, with two weeks of grace for a trusted merchant and one for
/// any other; without an address for fees it stays open. No closing changes
/// what is outstanding.
pub proof fn closing_follows_the_balance(
    before: BillingAccount,
    after: BillingAccount,
    terms: &BillingTerms,
    now: int,
    i: int,
)
    requires
        before.closed_into(&after, terms, now),
        0 <= i < before.cycles@.len(),
    ensures
        ({
            let was = before.cycles@[i];
            let is = after.cycles@[i];
            let ended = was.status@ == "open"@ && lex_less(was.period_end@, timestamp_text(now));
            let owed = was.outstanding_zatoshis;
            let trusted = opt_text(before.trust_tier) == Some("trusted"@);
            &&& after.cycles@.len() == before.cycles@.len()
            &&& is.outstanding_zatoshis == owed
            &&& is.total_fees_zatoshis == was.total_fees_zatoshis
            &&& is.id == was.id && is.period_end == was.period_end
            &&& !ended || (owed >= 5_000_000 && !terms.has_fee_address) ==> is == was
            &&& ended && owed <= 0 ==> is.status@ == "paid"@
            &&& ended && 0 < owed < 5_000_000 ==> is.status@ == "carried_over"@
            &&& ended && owed >= 5_000_000 && terms.has_fee_address ==> {
                &&& is.status@ == "invoiced"@
                &&& is.settlement_invoice_id is Some
                &&& trusted ==> opt_text(is.grace_until) == Some(timestamp_text(now + 1_209_600))
                &&& !trusted ==> opt_text(is.grace_until) == Some(timestamp_text(now + 604_800))
            }
        }),
        after.billing_status == before.billing_status,
        after.trust_tier == before.trust_tier,
{
    reveal_strlit("trusted");
    reveal_strlit("new");
    assert("trusted"@.len() != "new"@.len());
    assert(before.cycles@[i].is_expired(timestamp_text(now)) || after.cycles@[i]
        == before.cycles@[i]);
}

/// The settlements that a closing asks for are those of the cycles it invoices:
/// as many as there are, each with the cycle it is for, what that cycle owes,
/// and the end of its grace.
pub proof fn every_invoiced_cycle_is_asked_for(
    before: BillingAccount,
    after: BillingAccount,
    settlements: Seq<Settlement>,
    terms: &BillingTerms,
    now: int,
    n: int,
)
    requires
        before.owes(&after, settlements, terms, now, n),
        0 <= n <= before.cycles@.len(),
    ensures
        forall|i: int|
            0 <= i < n && (#[trigger] before.cycles@[i]).status@ == "open"@ && lex_less(
                before.cycles@[i].period_end@,
                timestamp_text(now),
            ) && before.cycles@[i].outstanding_zatoshis >= 5_000_000 && terms.has_fee_address
                ==> exists|k: int|
                0 <= k < settlements.len() && (#[trigger] settlements[k]).cycle_id@
                    == before.cycles@[i].id@ && settlements[k].outstanding_zatoshis
                    == before.cycles@[i].outstanding_zatoshis && opt_text(
                    after.cycles@[i].settlement_invoice_id,
                ) == Some(settlements[k].invoice_id@) && opt_text(after.cycles@[i].grace_until)
                    == Some(settlements[k].grace_until@),
        forall|k: int|
            0 <= k < settlements.len() ==> is_settlement_of_one(
                #[trigger] settlements[k],
                before.cycles@,
                n,
            ) && terms.has_fee_address && settlements[k].outstanding_zatoshis >= 5_000_000,
    decreases n,
{
    if n > 0 {
        let c = before.cycles@[n - 1];
        if c.is_expired(timestamp_text(now)) && closing_of(
            c.outstanding_zatoshis,
            before.tier(),
            terms.has_fee_address,
        ) is Invoiced {
            let rest = settlements.drop_last();
            every_invoiced_cycle_is_asked_for(before, after, rest, terms, now, n - 1);
            assert(settlements.last() == settlements[settlements.len() - 1]);
            assert forall|i: int|
                0 <= i < n && (#[trigger] before.cycles@[i]).status@ == "open"@ && lex_less(
                    before.cycles@[i].period_end@,
                    timestamp_text(now),
                ) && before.cycles@[i].outstanding_zatoshis >= 5_000_000
                    && terms.has_fee_address implies exists|k: int|
                0 <= k < settlements.len() && (#[trigger] settlements[k]).cycle_id@
                    == before.cycles@[i].id@ && settlements[k].outstanding_zatoshis
                    == before.cycles@[i].outstanding_zatoshis && opt_text(
                    after.cycles@[i].settlement_invoice_id,
                ) == Some(settlements[k].invoice_id@) && opt_text(after.cycles@[i].grace_until)
                    == Some(settlements[k].grace_until@) by {
                if i < n - 1 {
                    let k = choose|k: int|
                        0 <= k < rest.len() && (#[trigger] rest[k]).cycle_id@
                            == before.cycles@[i].id@ && rest[k].outstanding_zatoshis
                            == before.cycles@[i].outstanding_zatoshis && opt_text(
                            after.cycles@[i].settlement_invoice_id,
                        ) == Some(rest[k].invoice_id@) && opt_text(after.cycles@[i].grace_until)
                            == Some(rest[k].grace_until@);
                    assert(settlements[k] == rest[k]);
                }
            }
            assert forall|k: int| 0 <= k < settlements.len() implies is_settlement_of_one(
                #[trigger] settlements[k],
                before.cycles@,
                n,
            ) && terms.has_fee_address && settlements[k].outstanding_zatoshis >= 5_000_000 by {
                if k < rest.len() {
                    assert(settlements[k] == rest[k]);
                    assert(is_settlement_of_one(rest[k], before.cycles@, n - 1));
                } else {
                    assert(before.cycles@[n - 1].id@ == settlements[k].cycle_id@);
                }
            }
        } else {
            every_invoiced_cycle_is_asked_for(before, after, settlements, terms, now, n - 1);
        }
    }
}

/// Whether a settlement is for one of the cycles that were open: it names it,
/// and what it owes.
pub open spec fn is_settlement_of_one(s: Settlement, cycles: Seq<BillingCycle>, n: int) -> bool {
    exists|i: int|
        0 <= i < n && (#[trigger] cycles[i]).id@ == s.cycle_id@ && cycles[i].status@ == "open"@
            && cycles[i].outstanding_zatoshis == s.outstanding_zatoshis
}

/// An invoiced cycle whose grace has passed is past due where it owes 0.05 ZEC
/// or more, and is carried over where it owes less; every other cycle stays.
/// The last such cycle decides the merchant's status: past due, or active.
/// Where no grace has passed the status stays. No debt is forgiven.
pub proof fn passed_grace_is_enforced(
    before: BillingAccount,
    after: BillingAccount,
    now: Seq<char>,
    i: int,
)
    requires
        before.enforced_into(&after, now),
        0 <= i < before.cycles@.len(),
    ensures
        ({
            let was = before.cycles@[i];
            let is = after.cycles@[i];
            let late = was.status@ == "invoiced"@ && was.grace_until is Some && lex_less(
                was.grace_until->0@,
                now,
            );
            let last = forall|k: int|
                i < k < before.cycles@.len() ==> !((#[trigger] before.cycles@[k]).status@
                    == "invoiced"@ && before.cycles@[k].grace_until is Some && lex_less(
                    before.cycles@[k].grace_until->0@,
                    now,
                ));
            &&& after.cycles@.len() == before.cycles@.len()
            &&& is.outstanding_zatoshis == was.outstanding_zatoshis
            &&& is.id == was.id && is.grace_until == was.grace_until
            &&& !late ==> is == was
            &&& late && was.outstanding_zatoshis >= 5_000_000 ==> is.status@ == "past_due"@
            &&& late && was.outstanding_zatoshis < 5_000_000 ==> is.status@ == "carried_over"@
            &&& late && last && was.outstanding_zatoshis >= 5_000_000 ==> opt_text(
                after.billing_status,
            ) == Some("past_due"@)
            &&& late && last && was.outstanding_zatoshis < 5_000_000 ==> opt_text(
                after.billing_status,
            ) == Some("active"@)
        }),
        (forall|k: int|
            0 <= k < before.cycles@.len() ==> !((#[trigger] before.cycles@[k]).status@
                == "invoiced"@ && before.cycles@[k].grace_until is Some && lex_less(
                before.cycles@[k].grace_until->0@,
                now,
            ))) ==> opt_text(after.billing_status) == opt_text(before.billing_status),
{
    last_overdue_decides(
        before.cycles@,
        opt_text(before.billing_status),
        now,
        before.cycles@.len() as int,
        i,
    );
    assert(before.cycles@[i].is_overdue(now) || after.cycles@[i] == before.cycles@[i]);
}

proof fn last_overdue_decides(
    cycles: Seq<BillingCycle>,
    status: Option<Seq<char>>,
    now: Seq<char>,
    n: int,
    i: int,
)
    requires
        0 <= n <= cycles.len(),
        0 <= i < cycles.len(),
    ensures
        (forall|k: int| 0 <= k < n ==> !(#[trigger] cycles[k]).is_overdue(now))
            ==> status_after_overdue(cycles, status, now, n) == status,
        i < n && cycles[i].is_overdue(now) && (forall|k: int|
            i < k < n ==> !(#[trigger] cycles[k]).is_overdue(now)) ==> status_after_overdue(
            cycles,
            status,
            now,
            n,
        ) == if cycles[i].outstanding_zatoshis < 5_000_000 {
            Some("active"@)
        } else {
            Some("past_due"@)
        },
    decreases n,
{
    if n > 0 {
        last_overdue_decides(cycles, status, now, n - 1, i);
    }
}

/// A cycle is suspended once it is past due and its grace ended longer ago than
/// its merchant is given: a week for a new merchant, thirty days for a trusted
/// one, and two weeks for any other. The merchant is suspended with it. Every
/// other cycle stays, and where none is suspended so does the status.
pub proof fn long_overdue_is_suspended(
    before: BillingAccount,
    after: BillingAccount,
    now: Moment,
    grace_end: Moment,
    i: int,
)
    requires
        before.suspended_into(&after, now),
        0 <= i < before.cycles@.len(),
        before.cycles@[i].grace_until is Some,
        parsed_datetime(before.cycles@[i].grace_until->0@, "%Y-%m-%dT%H:%M:%SZ"@) == Some(
            grace_end,
        ),
        grace_end.nanos < 1_000_000_000,
    ensures
        ({
            let was = before.cycles@[i];
            let is = after.cycles@[i];
            let tier = before.trust_tier;
            let secs: int = if tier is None || tier->0@ == "new"@ {
                604_800
            } else if tier->0@ == "trusted"@ {
                2_592_000
            } else {
                1_209_600
            };
            let ended = grace_end.secs + secs < now.secs || grace_end.secs + secs == now.secs
                && grace_end.nanos < now.nanos;
            &&& was.status@ == "past_due"@ && ended ==> is.status@ == "suspended"@ && opt_text(
                after.billing_status,
            ) == Some("suspended"@)
            &&& !(was.status@ == "past_due"@ && ended) ==> is == was
            &&& is.outstanding_zatoshis == was.outstanding_zatoshis
        }),
{
    assert(before.cycles@[i].is_suspendable(before.tier(), now) || after.cycles@[i]
        == before.cycles@[i]);
}

/// Where no cycle is past due, nobody is suspended and nothing changes.
pub proof fn nothing_past_due_nothing_suspended(
    before: BillingAccount,
    after: BillingAccount,
    now: Moment,
)
    requires
        before.suspended_into(&after, now),
        forall|k: int|
            0 <= k < before.cycles@.len() ==> (#[trigger] before.cycles@[k]).status@
                != "past_due"@,
    ensures
        opt_text(after.billing_status) == opt_text(before.billing_status),
        after.cycles@ =~= before.cycles@,
{
    assert forall|k: int| 0 <= k < before.cycles@.len() implies after.cycles@[k]
        == before.cycles@[k] by {
        assert(!before.cycles@[k].is_suspendable(before.tier(), now));
    }
}

/// A new cycle begins only where none is open. It takes over what the earlier
/// ones carried, and nothing else: no debt is lost and none is counted twice. It
/// runs for the days of a new merchant, or of any other, and a merchant without
/// a tier is new.
pub proof fn carried_debt_moves_into_the_new_cycle(
    before: BillingAccount,
    after: BillingAccount,
    terms: &BillingTerms,
    now: int,
    i: int,
)
    requires
        before.rolled_into(&after, terms, now),
        0 <= i < before.cycles@.len(),
        forall|k: int|
            0 <= k < before.cycles@.len() ==> (#[trigger] before.cycles@[k]).status@ != "open"@,
    ensures
        ({
            let was = before.cycles@[i];
            let is = after.cycles@[i];
            let new = after.cycles@.last();
            let fresh = before.trust_tier is None || before.trust_tier->0@ == "new"@;
            &&& after.cycles@.len() == before.cycles@.len() + 1
            &&& new.status@ == "open"@
            &&& new.merchant_id@ == before.merchant_id@
            &&& new.auto_collected_zatoshis == 0
            &&& new.total_fees_zatoshis == new.outstanding_zatoshis
            &&& new.period_start@ == timestamp_text(now)
            &&& fresh ==> new.period_end@ == timestamp_text(now + terms.cycle_days_new * 86_400)
            &&& !fresh ==> new.period_end@ == timestamp_text(
                now + terms.cycle_days_standard * 86_400,
            )
            &&& was.status@ == "carried_over"@ ==> is.outstanding_zatoshis == 0
            &&& was.status@ != "carried_over"@ ==> is == was
            &&& is.status == was.status && is.id == was.id
        }),
        outstanding_total(after.cycles@) == outstanding_total(before.cycles@),
        (forall|k: int|
            0 <= k < before.cycles@.len() ==> (#[trigger] before.cycles@[k]).status@
                == "carried_over"@) ==> after.cycles@.last().outstanding_zatoshis
            == outstanding_total(before.cycles@),
        (forall|k: int|
            0 <= k < before.cycles@.len() ==> (#[trigger] before.cycles@[k]).status@
                != "carried_over"@) ==> after.cycles@.last().outstanding_zatoshis == 0,
{
    let kept = after.cycles@.drop_last();
    assert(kept[i] == after.cycles@[i]);
    carry_splits_the_total(before.cycles@, kept);
}

proof fn carry_splits_the_total(before: Seq<BillingCycle>, kept: Seq<BillingCycle>)
    requires
        BillingAccount::carry_taken(before, kept),
    ensures
        outstanding_total(kept) + carried_total(before) == outstanding_total(before),
        (forall|k: int|
            0 <= k < before.len() ==> (#[trigger] before[k]).status@ == "carried_over"@)
            ==> carried_total(before) == outstanding_total(before),
        (forall|k: int|
            0 <= k < before.len() ==> (#[trigger] before[k]).status@ != "carried_over"@)
            ==> carried_total(before) == 0,
    decreases before.len(),
{
    if before.len() > 0 {
        let b = before.drop_last();
        let k = kept.drop_last();
        assert forall|i: int| 0 <= i < b.len() implies #[trigger] k[i] == if b[i].status@
            == "carried_over"@ {
            BillingCycle { outstanding_zatoshis: 0, ..b[i] }
        } else {
            b[i]
        } by {
            assert(k[i] == kept[i] && b[i] == before[i]);
        }
        assert(kept.last() == kept[kept.len() - 1]);
        assert(before.last() == before[before.len() - 1]);
        assert(forall|i: int| 0 <= i < b.len() ==> b[i] == #[trigger] before[i]);
        carry_splits_the_total(b, k);
    }
}

/// A merchant with an open cycle gets no other.
pub proof fn open_cycle_goes_on(
    before: BillingAccount,
    after: BillingAccount,
    terms: &BillingTerms,
    now: int,
    i: int,
)
    requires
        before.rolled_into(&after, terms, now),
        0 <= i < before.cycles@.len(),
        before.cycles@[i].status@ == "open"@,
    ensures
        after == before,
{
    assert(before.cycles@[i].is_open());
}

/// A reminder goes out for each invoiced cycle whose grace ends within the
/// threshold and has not ended yet, and for no other, with what is owed.
pub proof fn reminders_precede_the_end_of_grace(
    cycles: Seq<BillingCycle>,
    now_text: Seq<char>,
    threshold: Seq<char>,
    now: Moment,
    out: Seq<Reminder>,
    n: int,
)
    requires
        reminders(cycles, now_text, threshold, now, out, n),
        0 <= n <= cycles.len(),
    ensures
        forall|i: int|
            0 <= i < n && (#[trigger] cycles[i]).status@ == "invoiced"@ && (
            cycles[i].grace_until matches Some(g) && lex_less(now_text, g@) && !lex_less(
                threshold,
                g@,
            )) ==> exists|k: int|
                0 <= k < out.len() && (#[trigger] out[k]).cycle_id@ == cycles[i].id@
                    && out[k].outstanding_zatoshis == cycles[i].outstanding_zatoshis
                    && out[k].grace_until@ == cycles[i].grace_until->0@,
        forall|k: int|
            0 <= k < out.len() ==> lex_less(now_text, (#[trigger] out[k]).grace_until@)
                && !lex_less(threshold, out[k].grace_until@) && exists|i: int|
                0 <= i < n && (#[trigger] cycles[i]).id@ == out[k].cycle_id@
                    && cycles[i].status@ == "invoiced"@ && cycles[i].outstanding_zatoshis
                    == out[k].outstanding_zatoshis,
        forall|k: int|
            0 <= k < out.len() ==> (#[trigger] out[k]).days_left == days_left_of(
                out[k].grace_until@,
                now,
            ),
    decreases n,
{
    if n > 0 {
        if cycles[n - 1].wants_reminder(now_text, threshold) {
            let rest = out.drop_last();
            reminders_precede_the_end_of_grace(cycles, now_text, threshold, now, rest, n - 1);
            assert(out.last() == out[out.len() - 1]);
            assert forall|i: int|
                0 <= i < n && (#[trigger] cycles[i]).status@ == "invoiced"@ && (
                cycles[i].grace_until matches Some(g) && lex_less(now_text, g@) && !lex_less(
                    threshold,
                    g@,
                )) implies exists|k: int|
                0 <= k < out.len() && (#[trigger] out[k]).cycle_id@ == cycles[i].id@
                    && out[k].outstanding_zatoshis == cycles[i].outstanding_zatoshis
                    && out[k].grace_until@ == cycles[i].grace_until->0@ by {
                if i < n - 1 {
                    let k = choose|k: int|
                        0 <= k < rest.len() && (#[trigger] rest[k]).cycle_id@ == cycles[i].id@
                            && rest[k].outstanding_zatoshis == cycles[i].outstanding_zatoshis
                            && rest[k].grace_until@ == cycles[i].grace_until->0@;
                    assert(out[k] == rest[k]);
                }
            }
            assert forall|k: int| 0 <= k < out.len() implies lex_less(
                now_text,
                (#[trigger] out[k]).grace_until@,
            ) && !lex_less(threshold, out[k].grace_until@) && exists|i: int|
                0 <= i < n && (#[trigger] cycles[i]).id@ == out[k].cycle_id@
                    && cycles[i].status@ == "invoiced"@ && cycles[i].outstanding_zatoshis
                    == out[k].outstanding_zatoshis by {
                if k < rest.len() {
                    assert(out[k] == rest[k]);
                } else {
                    assert(cycles[n - 1].id@ == out[k].cycle_id@);
                }
            }
            assert forall|k: int| 0 <= k < out.len() implies (#[trigger] out[k]).days_left
                == days_left_of(out[k].grace_until@, now) by {
                if k < rest.len() {
                    assert(out[k] == rest[k]);
                }
            }
        } else {
            reminders_precede_the_end_of_grace(cycles, now_text, threshold, now, out, n - 1);
        }
    }
}

/// The days that a reminder names are the full days that are left, and one day
/// at least.
pub proof fn days_left_are_full_days(grace_until: Seq<char>, end: Moment, now: Moment)
    requires
        parsed_datetime(grace_until, "%Y-%m-%dT%H:%M:%SZ"@) == Some(end),
        end.nanos < 1_000_000_000,
        now.nanos < 1_000_000_000,
    ensures
        ({
            let left = (end.secs - now.secs) * 1_000_000_000 + end.nanos - now.nanos;
            let days = days_left_of(grace_until, now);
            &&& days >= 1
            &&& left >= 86_400_000_000_000 ==> days * 86_400_000_000_000 <= left < (days + 1)
                * 86_400_000_000_000
            &&& left < 86_400_000_000_000 ==> days == 1
        }),
{
}

/// The demands that are sent name each cycle that was picked, and no other.
pub proof fn demands_name_what_was_picked(
    cycles: Seq<BillingCycle>,
    pick: spec_fn(BillingCycle) -> bool,
    out: Seq<Demand>,
    n: int,
)
    requires
        demands(cycles, pick, out, n),
        0 <= n <= cycles.len(),
    ensures
        forall|i: int|
            0 <= i < n && pick(#[trigger] cycles[i]) ==> exists|k: int|
                0 <= k < out.len() && #[trigger] is_demand_for(out[k], cycles[i]),
        forall|k: int|
            0 <= k < out.len() ==> is_demand_for_one(#[trigger] out[k], cycles, pick, n),
    decreases n,
{
    if n > 0 {
        if pick(cycles[n - 1]) {
            let rest = out.drop_last();
            demands_name_what_was_picked(cycles, pick, rest, n - 1);
            assert(is_demand_for(out[out.len() - 1], cycles[n - 1]));
            assert forall|i: int| 0 <= i < n && pick(#[trigger] cycles[i]) implies exists|k: int|
                0 <= k < out.len() && #[trigger] is_demand_for(out[k], cycles[i]) by {
                if i < n - 1 {
                    let k = choose|k: int|
                        0 <= k < rest.len() && #[trigger] is_demand_for(rest[k], cycles[i]);
                    assert(is_demand_for(out[k], cycles[i]));
                }
            }
            assert forall|k: int| 0 <= k < out.len() implies is_demand_for_one(
                #[trigger] out[k],
                cycles,
                pick,
                n,
            ) by {
                if k < rest.len() {
                    assert(out[k] == rest[k]);
                    assert(is_demand_for_one(rest[k], cycles, pick, n - 1));
                }
            }
        } else {
            demands_name_what_was_picked(cycles, pick, out, n - 1);
        }
    }
}

/// Whether a demand is for one of the cycles that were picked.
pub open spec fn is_demand_for_one(
    d: Demand,
    cycles: Seq<BillingCycle>,
    pick: spec_fn(BillingCycle) -> bool,
    n: int,
) -> bool {
    exists|i: int| 0 <= i < n && pick(cycles[i]) && #[trigger] is_demand_for(d, cycles[i])
}

/// Whether a demand is for a cycle: it names it, and what it owes.
pub open spec fn is_demand_for(d: Demand, c: BillingCycle) -> bool {
    d.cycle_id@ == c.id@ && d.outstanding_zatoshis == c.outstanding_zatoshis
}

/// A fee goes to the first cycle that is open, and is booked nowhere only where
/// none is.
pub proof fn fee_goes_to_the_first_open_cycle(cycles: Seq<BillingCycle>, n: int)
    requires
        0 <= n <= cycles.len(),
    ensures
        match first_open(cycles, n) {
            Some(i) => {
                &&& 0 <= i < n
                &&& cycles[i].status@ == "open"@
                &&& forall|k: int| 0 <= k < i ==> (#[trigger] cycles[k]).status@ != "open"@
            },
            None => forall|k: int| 0 <= k < n ==> (#[trigger] cycles[k]).status@ != "open"@,
        },
    decreases n,
{
    if n > 0 {
        fee_goes_to_the_first_open_cycle(cycles, n - 1);
    }
}

/// A tier rises by one step, from new to standard and from standard to trusted,
/// and only for a merchant with three settled cycles and no late one. It never
/// falls, and beyond trusted there is nothing.
pub proof fn tier_rises_step_by_step(tier: Seq<char>, paid_count: int, late_count: int)
    ensures
        match upgraded_tier_of(tier, paid_count, late_count) {
            Some(t) => {
                &&& paid_count >= 3 && late_count == 0
                &&& tier == "new"@ && t == "standard"@ || tier == "standard"@ && t == "trusted"@
            },
            None => paid_count < 3 || late_count != 0 || (tier != "new"@ && tier != "standard"@),
        },
{
    reveal_strlit("new");
    reveal_strlit("standard");
    assert("new"@.len() != "standard"@.len());
}

/// A merchant has a late cycle exactly where one that is past due or suspended
/// ended after the given moment.
pub proof fn late_cycles_are_remembered(cycles: Seq<BillingCycle>, since: Seq<char>, n: int)
    requires
        0 <= n <= cycles.len(),
    ensures
        0 <= late_since(cycles, since, n) <= n,
        late_since(cycles, since, n) == 0 <==> forall|i: int|
            0 <= i < n && ((#[trigger] cycles[i]).status@ == "past_due"@ || cycles[i].status@
                == "suspended"@) ==> !lex_less(since, cycles[i].period_end@),
    decreases n,
{
    if n > 0 {
        late_cycles_are_remembered(cycles, since, n - 1);
        if is_late_since(cycles[n - 1], since) {
            assert(late_since(cycles, since, n) > 0);
        }
    }
}

/// What counts as settled of late is a cycle that is paid or carried over and
/// after which fewer than three others ended.
pub proof fn only_settled_cycles_count(cycles: Seq<BillingCycle>, n: int)
    requires
        0 <= n <= cycles.len(),
    ensures
        0 <= recent_settled(cycles, n) <= n,
        (forall|i: int|
            0 <= i < n ==> (#[trigger] cycles[i]).status@ != "paid"@ && cycles[i].status@
                != "carried_over"@) ==> recent_settled(cycles, n) == 0,
        (forall|i: int|
            0 <= i < n ==> (#[trigger] cycles[i]).status@ == "paid"@ || cycles[i].status@
                == "carried_over"@) && cycles.len() <= 3 ==> recent_settled(cycles, n) == n,
    decreases n,
{
    if n > 0 {
        only_settled_cycles_count(cycles, n - 1);
        few_end_later(cycles, n - 1, cycles.len() as int);
    }
}

/// No more cycles end later than a cycle than there are others.
proof fn few_end_later(cycles: Seq<BillingCycle>, i: int, n: int)
    requires
        0 <= i < cycles.len(),
        0 <= n <= cycles.len(),
    ensures
        0 <= later_cycles(cycles, i, n) <= n,
        i < n ==> later_cycles(cycles, i, n) < n,
    decreases n,
{
    if n > 0 {
        few_end_later(cycles, i, n - 1);
        crate::text::lex_less_irreflexive(cycles[i].period_end@);
    }
}

/// A merchant whose only settled cycles ended before three others does not
/// profit from them.
pub proof fn old_cycles_do_not_count(cycles: Seq<BillingCycle>, i: int, a: int, b: int, c: int)
    requires
        0 <= i < cycles.len(),
        0 <= a < b < c < cycles.len(),
        lex_less(cycles[i].period_end@, cycles[a].period_end@),
        lex_less(cycles[i].period_end@, cycles[b].period_end@),
        lex_less(cycles[i].period_end@, cycles[c].period_end@),
    ensures
        !is_recent_settled(cycles, i),
        recent_settled(cycles, i + 1) == recent_settled(cycles, i),
{
    later_cycles_grow(cycles, i, 0, a);
    later_cycles_grow(cycles, i, a + 1, b);
    later_cycles_grow(cycles, i, b + 1, c);
    later_cycles_grow(cycles, i, c + 1, cycles.len() as int);
}

proof fn later_cycles_grow(cycles: Seq<BillingCycle>, i: int, m: int, n: int)
    requires
        0 <= m <= n,
    ensures
        0 <= later_cycles(cycles, i, m) <= later_cycles(cycles, i, n),
    decreases n,
{
    if m < n {
        later_cycles_grow(cycles, i, m, n - 1);
    } else if m > 0 {
        later_cycles_grow(cycles, i, 0, m - 1);
    }
}

/// A merchant is in debt exactly where a cycle owes more than 0.0001 ZEC.
pub proof fn debt_is_more_than_a_trifle(account: BillingAccount)
    ensures
        account.is_in_debt() <==> exists|i: int|
            0 <= i < account.cycles@.len() && (
            #[trigger] account.cycles@[i]).outstanding_zatoshis > 10_000,
{
}

/// The cycle that is shown is one that is open or invoiced, and none of those
/// was made later.
pub proof fn current_cycle_is_the_newest(account: BillingAccount, i: int, k: int)
    requires
        account.is_current(i),
        0 <= k < account.cycles@.len(),
        account.cycles@[k].status@ == "open"@ || account.cycles@[k].status@ == "invoiced"@,
    ensures
        0 <= i < account.cycles@.len(),
        account.cycles@[i].status@ == "open"@ || account.cycles@[i].status@ == "invoiced"@,
        !lex_less(account.cycles@[i].created_at@, account.cycles@[k].created_at@),
{
    assert(is_running(&account.cycles@[k]));
}
/// A late cycle is held against a merchant for ninety days.
pub proof fn lateness_is_forgotten_after_ninety_days(now: int)
    requires
        is_billing_time(now),
    ensures
        formatted_datetime(
            Moment { secs: (now - 90 * 24 * 3600) as i64, nanos: 0 },
            "%Y-%m-%d %H:%M:%S"@,
        )->0 == late_memory_start(now),
{
}

/// A fee that was collected is marked so, with the moment, and is otherwise the
/// fee that it was.
pub proof fn collected_fee_is_marked(before: FeeEntry, after: FeeEntry, now: Seq<char>)
    requires
        before.collected_as(&after, now),
    ensures
        after.auto_collected == 1,
        after.collected_at is Some && after.collected_at->0@ == now,
        after.fee_amount_zatoshis == before.fee_amount_zatoshis,
        after.id == before.id && after.invoice_id == before.invoice_id && after.merchant_id
            == before.merchant_id && after.billing_cycle_id == before.billing_cycle_id,
{
}

/// A run of the billing takes its steps in order. A new cycle begins only where
/// one has ended. Who is invoiced is reminded from three days before the end of
/// the grace on, and who has let it pass, or is suspended, is told what is owed.
pub proof fn run_tells_what_it_does(
    before: BillingAccount,
    closed: BillingAccount,
    rolled: BillingAccount,
    enforced: BillingAccount,
    after: BillingAccount,
    terms: &BillingTerms,
    now: Moment,
    run: &BillingRun,
    i: int,
)
    requires
        billing_run(before, closed, rolled, enforced, after, terms, now, run),
        0 <= i < rolled.cycles@.len(),
    ensures
        ({
            let c = rolled.cycles@[i];
            let text = timestamp_text(now.secs as int);
            let invoiced = c.status@ == "invoiced"@ && c.grace_until is Some;
            &&& invoiced && lex_less(text, c.grace_until->0@) && !lex_less(
                timestamp_text(now.secs + 3 * 86_400),
                c.grace_until->0@,
            ) ==> exists|k: int|
                0 <= k < run.reminders@.len() && (#[trigger] run.reminders@[k]).cycle_id@ == c.id@
                    && run.reminders@[k].outstanding_zatoshis == c.outstanding_zatoshis
            &&& invoiced && lex_less(c.grace_until->0@, text) && c.outstanding_zatoshis
                >= 5_000_000 ==> exists|k: int|
                0 <= k < run.past_due@.len() && #[trigger] is_demand_for(run.past_due@[k], c)
            &&& enforced.cycles@[i].is_suspendable(enforced.tier(), now) ==> exists|k: int|
                0 <= k < run.suspended@.len() && #[trigger] is_demand_for(
                    run.suspended@[k],
                    enforced.cycles@[i],
                )
        }),
        (forall|k: int|
            0 <= k < before.cycles@.len() ==> (#[trigger] before.cycles@[k]).status@ != "open"@
                || !lex_less(before.cycles@[k].period_end@, timestamp_text(now.secs as int)))
            ==> rolled == closed && rolled.cycles@ =~= before.cycles@,
        (exists|k: int|
            0 <= k < before.cycles@.len() && (#[trigger] before.cycles@[k]).status@ == "open"@
                && lex_less(before.cycles@[k].period_end@, timestamp_text(now.secs as int)))
            ==> closed.rolled_into(&rolled, terms, now.secs as int),
{
    let text = timestamp_text(now.secs as int);
    let c = rolled.cycles@[i];
    reminders_precede_the_end_of_grace(
        rolled.cycles@,
        text,
        timestamp_text(now.secs + 259_200),
        now,
        run.reminders@,
        rolled.cycles@.len() as int,
    );
    let late = |c: BillingCycle|
        c.is_overdue(text) && c.outstanding_zatoshis >= MIN_SETTLEMENT_ZATOSHIS;
    demands_name_what_was_picked(
        rolled.cycles@,
        late,
        run.past_due@,
        rolled.cycles@.len() as int,
    );
    let gone = |c: BillingCycle| c.is_suspendable(enforced.tier(), now);
    demands_name_what_was_picked(
        enforced.cycles@,
        gone,
        run.suspended@,
        enforced.cycles@.len() as int,
    );
    assert(late(c) <==> c.is_overdue(text) && c.outstanding_zatoshis >= MIN_SETTLEMENT_ZATOSHIS);
    assert(gone(enforced.cycles@[i]) <==> enforced.cycles@[i].is_suspendable(enforced.tier(), now));
    if exists|k: int|
        0 <= k < before.cycles@.len() && (#[trigger] before.cycles@[k]).status@ == "open"@
            && lex_less(before.cycles@[k].period_end@, text) {
        let k = choose|k: int|
            0 <= k < before.cycles@.len() && (#[trigger] before.cycles@[k]).status@ == "open"@
                && lex_less(before.cycles@[k].period_end@, text);
        assert(before.cycles@[k].is_expired(text));
    } else {
        assert forall|k: int| 0 <= k < before.cycles@.len() implies !(
        #[trigger] before.cycles@[k]).is_expired(text) by {}
        assert(!before.any_expired(text));
    }
}

/// A settlement names the invoice that is to be paid, what is owed, and the days
/// of grace: two weeks for a trusted merchant and one for any other.
pub proof fn settlement_names_the_grace(
    s: Settlement,
    before: BillingCycle,
    after: BillingCycle,
    tier: Seq<char>,
)
    requires
        settles(&s, &before, &after, tier),
    ensures
        tier == "trusted"@ ==> s.grace_days == 14,
        tier != "trusted"@ ==> s.grace_days == 7,
        s.cycle_id@ == before.id@,
        s.outstanding_zatoshis == before.outstanding_zatoshis,
        after.settlement_invoice_id is Some && after.settlement_invoice_id->0@ == s.invoice_id@,
        after.grace_until is Some && after.grace_until->0@ == s.grace_until@,
{
}

/// The grace and the time until a suspension grow with the trust that a merchant
/// has earned.
pub proof fn trust_gives_time(tier: Seq<char>)
    ensures
        grace_days_of("trusted"@) == 14,
        tier != "trusted"@ ==> grace_days_of(tier) == 7,
        suspension_days_of("new"@) == 7,
        suspension_days_of("trusted"@) == 30,
        tier != "new"@ && tier != "trusted"@ ==> suspension_days_of(tier) == 14,
{
    reveal_strlit("new");
    reveal_strlit("trusted");
    assert("new"@.len() != "trusted"@.len());
}

} // verus!
