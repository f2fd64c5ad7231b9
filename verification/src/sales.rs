//! How much was sold: which invoices and tickets count, and what is shown of
//! the sales of an event.

use vstd::prelude::*;

use crate::events::{Event, EventSummary};
use crate::prices::Price;
use crate::text::{opt_text, text_eq};

verus! {

/// What is counted: invoices that hold a place at a capped price, those that
/// count against the places of a guest list, those that are paid, tickets that
/// were issued, or tickets that were used.
#[derive(Debug, Clone, Copy, PartialEq, Eq, Structural)]
pub enum Tally {
    Held,
    Registered,
    Confirmed,
    Issued,
    Used,
}

impl Tally {
    /// Whether an invoice or a ticket in a state counts.
    pub open spec fn counts(self, status: Seq<char>) -> bool {
        match self {
            Tally::Held => status != "expired"@ && status != "draft"@,
            Tally::Registered => status != "expired"@ && status != "refunded"@,
            Tally::Confirmed => status == "confirmed"@,
            Tally::Issued => status != "void"@,
            Tally::Used => status == "used"@,
        }
    }

    /// Whether an invoice or a ticket in a state counts.
    pub fn includes(self, status: &str) -> (r: bool)
        ensures
            r == self.counts(status@),
    {
        match self {
            Tally::Held => !text_eq(status, "expired") && !text_eq(status, "draft"),
            Tally::Registered => !text_eq(status, "expired") && !text_eq(status, "refunded"),
            Tally::Confirmed => text_eq(status, "confirmed"),
            Tally::Issued => !text_eq(status, "void"),
            Tally::Used => text_eq(status, "used"),
        }
    }

    /// How many of the states count.
    pub open spec fn total(self, statuses: Seq<String>) -> nat
        decreases statuses.len(),
    {
        if statuses.len() == 0 {
            0
        } else {
            self.total(statuses.drop_last()) + if self.counts(statuses.last()@) {
                1nat
            } else {
                0nat
            }
        }
    }

    /// How many of the states count.
    pub fn count(self, statuses: &Vec<String>) -> (r: i64)
        requires
            statuses@.len() <= i64::MAX,
        ensures
            r == self.total(statuses@),
    {
        let mut r: i64 = 0;
        let mut i: usize = 0;
        while i < statuses.len()
            invariant
                i <= statuses@.len() <= i64::MAX,
                r == self.total(statuses@.take(i as int)),
                r <= i,
            decreases statuses@.len() - i,
        {
            proof {
                assert(statuses@.take(i + 1).drop_last() =~= statuses@.take(i as int));
            }
            if self.includes(statuses[i].as_str()) {
                r = r + 1;
            }
            i = i + 1;
        }
        assert(statuses@.take(i as int) =~= statuses@);
        r
    }
}

/// Whatever is counted, there is no more of it than there is in all.
pub proof fn no_more_than_all(rule: Tally, statuses: Seq<String>)
    ensures
        rule.total(statuses) <= statuses.len(),
    decreases statuses.len(),
{
    if statuses.len() > 0 {
        no_more_than_all(rule, statuses.drop_last());
    }
}

/// A ticket that was used was issued, so no more are used than were issued.
pub proof fn used_tickets_were_issued(statuses: Seq<String>)
    ensures
        Tally::Used.total(statuses) <= Tally::Issued.total(statuses),
    decreases statuses.len(),
{
    if statuses.len() > 0 {
        used_tickets_were_issued(statuses.drop_last());
        reveal_strlit("used");
        reveal_strlit("void");
        assert("used"@[0] != "void"@[0]);
    }
}

/// How much of a price counts as sold at a checkout: what the guest list will
/// take, or the tickets that were issued.
pub fn sold_so_far(is_luma_event: bool, invoices: &Vec<String>, tickets: &Vec<String>) -> (r: i64)
    requires
        invoices@.len() <= i64::MAX,
        tickets@.len() <= i64::MAX,
    ensures
        r == if is_luma_event {
            Tally::Registered.total(invoices@)
        } else {
            Tally::Issued.total(tickets@)
        },
{
    if is_luma_event {
        Tally::Registered.count(invoices)
    } else {
        Tally::Issued.count(tickets)
    }
}

/// The sum of the numbers that are given.
pub open spec fn caps_sum(caps: Seq<Option<i64>>) -> int
    decreases caps.len(),
{
    if caps.len() == 0 {
        0
    } else {
        caps_sum(caps.drop_last()) + match caps.last() {
            Some(c) => c as int,
            None => 0,
        }
    }
}

/// How many places there are at all prices together. Where a price is not
/// capped, or there is no price, no number can be given.
pub open spec fn capacity_of(caps: Seq<Option<i64>>) -> Option<int> {
    if caps.len() == 0 || caps.contains(None) {
        None
    } else {
        Some(caps_sum(caps))
    }
}

/// Whether the number of places can be represented.
pub open spec fn capacity_fits(caps: Seq<Option<i64>>) -> bool {
    capacity_of(caps) matches Some(n) ==> i64::MIN <= n <= i64::MAX
}

/// How many places there are at all prices together.
pub fn total_capacity(caps: &Vec<Option<i64>>) -> (r: Option<i64>)
    requires
        capacity_fits(caps@),
    ensures
        match r {
            Some(n) => capacity_of(caps@) == Some(n as int),
            None => capacity_of(caps@) is None,
        },
{
    if caps.len() == 0 {
        return None;
    }
    let mut sum: i128 = 0;
    let mut i: usize = 0;
    while i < caps.len()
        invariant
            i <= caps@.len(),
            sum == caps_sum(caps@.take(i as int)),
            -0x8000_0000_0000_0000 * i <= sum <= 0x7fff_ffff_ffff_ffff * i,
            forall|k: int| 0 <= k < i ==> caps@[k] is Some,
        decreases caps@.len() - i,
    {
        proof {
            assert(caps@.take(i + 1).drop_last() =~= caps@.take(i as int));
        }
        match caps[i] {
            Some(c) => {
                assert(-0x8000_0000_0000_0000 * (i + 1) <= sum + c <= 0x7fff_ffff_ffff_ffff * (i
                    + 1)) by (nonlinear_arith)
                    requires
                        -0x8000_0000_0000_0000 * i <= sum <= 0x7fff_ffff_ffff_ffff * i,
                        -0x8000_0000_0000_0000 <= c <= 0x7fff_ffff_ffff_ffff,
                ;
                assert(0x7fff_ffff_ffff_ffff * (i + 1) <= i128::MAX && -0x8000_0000_0000_0000 * (i
                    + 1) >= i128::MIN) by (nonlinear_arith)
                    requires
                        0 <= i < usize::MAX <= 0xffff_ffff_ffff_ffff,
                ;
                sum = sum + c as i128;
            },
            None => {
                assert(caps@[i as int] is None);
                return None;
            },
        }
        i = i + 1;
    }
    proof {
        assert(caps@.take(i as int) =~= caps@);
        assert forall|k: int| 0 <= k < caps@.len() implies caps@[k] != None::<i64> by {}
    }
    Some(sum as i64)
}

/// What is shown of the sales at a price of an event. Its amount is left to
/// the caller.
#[derive(Debug)]
pub struct EventTierStat {
    pub price_id: String,
    pub label: Option<String>,
    pub currency: String,
    pub max_quantity: Option<i64>,
    pub sold_count: i64,
    pub used_count: i64,
}

#[derive(Debug)]
pub struct EventDetailResponse {
    pub summary: EventSummary,
    pub tiers: Vec<EventTierStat>,
}

/// The sales at a price: the price, and the states of its invoices and of its
/// tickets.
pub struct TierSales {
    pub price: Price,
    pub invoices: Vec<String>,
    pub tickets: Vec<String>,
}

impl TierSales {
    /// Whether the invoices and tickets can be counted.
    pub open spec fn countable(&self) -> bool {
        self.invoices@.len() <= i64::MAX && self.tickets@.len() <= i64::MAX
    }

    /// Whether a value shows the sales at the price. Guests of a guest list
    /// are not seen to use anything.
    pub open spec fn shown_by(&self, is_luma: bool, t: &EventTierStat) -> bool {
        &&& t.price_id@ == self.price.id@
        &&& opt_text(t.label) == opt_text(self.price.label)
        &&& t.currency@ == self.price.currency@
        &&& t.max_quantity == self.price.max_quantity
        &&& t.sold_count == if is_luma {
            Tally::Confirmed.total(self.invoices@)
        } else {
            Tally::Issued.total(self.tickets@)
        }
        &&& t.used_count == if is_luma {
            0
        } else {
            Tally::Used.total(self.tickets@)
        }
    }

    /// What is shown of the sales at the price.
    pub fn stat(&self, is_luma: bool) -> (r: EventTierStat)
        requires
            self.countable(),
        ensures
            self.shown_by(is_luma, &r),
    {
        let (sold_count, used_count): (i64, i64) = if is_luma {
            (Tally::Confirmed.count(&self.invoices), 0)
        } else {
            (Tally::Issued.count(&self.tickets), Tally::Used.count(&self.tickets))
        };
        EventTierStat {
            price_id: self.price.id.clone(),
            label: self.price.label.clone(),
            currency: self.price.currency.clone(),
            max_quantity: self.price.max_quantity,
            sold_count,
            used_count,
        }
    }
}

/// Whether a price is on sale.
pub open spec fn on_sale(t: TierSales) -> bool {
    t.price.active == 1
}

/// What is shown of the sales at the prices of an event that are on sale, in
/// their order.
pub fn get_event_tier_stats(tiers: &Vec<TierSales>, is_luma: bool) -> (r: Vec<EventTierStat>)
    requires
        forall|i: int| 0 <= i < tiers@.len() ==> (#[trigger] tiers@[i]).countable(),
    ensures
        r@.len() == tiers@.filter(|t: TierSales| on_sale(t)).len(),
        forall|i: int|
            0 <= i < r@.len() ==> tiers@.filter(|t: TierSales| on_sale(t))[i].shown_by(
                is_luma,
                #[trigger] &r@[i],
            ),
{
    let ghost keep = |t: TierSales| on_sale(t);
    let mut r: Vec<EventTierStat> = Vec::new();
    let mut i: usize = 0;
    while i < tiers.len()
        invariant
            i <= tiers@.len(),
            keep == (|t: TierSales| on_sale(t)),
            forall|k: int| 0 <= k < tiers@.len() ==> (#[trigger] tiers@[k]).countable(),
            r@.len() == tiers@.take(i as int).filter(keep).len(),
            forall|k: int|
                0 <= k < r@.len() ==> tiers@.take(i as int).filter(keep)[k].shown_by(
                    is_luma,
                    #[trigger] &r@[k],
                ),
        decreases tiers@.len() - i,
    {
        let ghost before = r@;
        proof {
            reveal(Seq::filter);
            assert(tiers@.take(i + 1).drop_last() =~= tiers@.take(i as int));
        }
        if tiers[i].price.active == 1 {
            r.push(tiers[i].stat(is_luma));
            assert forall|k: int| 0 <= k < r@.len() implies tiers@.take(i + 1).filter(
                keep,
            )[k].shown_by(is_luma, #[trigger] &r@[k]) by {
                if k < before.len() {
                    assert(r@[k] == before[k]);
                }
            }
        }
        i = i + 1;
    }
    assert(tiers@.take(i as int) =~= tiers@);
    r
}

/// What was sold of an event in all: the states of its invoices and of its
/// tickets, and the caps of its prices on sale.
pub struct EventSales {
    pub luma_event_id: Option<String>,
    pub invoices: Vec<String>,
    pub tickets: Vec<String>,
    pub caps: Vec<Option<i64>>,
}

impl EventSales {
    /// Whether the sales can be counted.
    pub open spec fn countable(&self) -> bool {
        self.invoices@.len() <= i64::MAX && self.tickets@.len() <= i64::MAX && capacity_fits(
            self.caps@,
        )
    }

    /// Whether a summary shows the event and its sales; where guests are
    /// counted, the paid invoices of a guest-list event stand for its tickets.
    pub open spec fn summed_up_by(&self, event: &Event, guests: bool, s: &EventSummary) -> bool {
        let by_guests = guests && self.luma_event_id is Some;
        &&& s.id@ == event.id@
        &&& s.product_id@ == event.product_id@
        &&& s.title@ == event.title@
        &&& opt_text(s.description) == opt_text(event.description)
        &&& opt_text(s.event_date) == opt_text(event.event_date)
        &&& opt_text(s.event_location) == opt_text(event.event_location)
        &&& s.status@ == event.status@
        &&& s.created_at@ == event.created_at@
        &&& s.sold_count == if by_guests {
            Tally::Confirmed.total(self.invoices@)
        } else {
            Tally::Issued.total(self.tickets@)
        }
        &&& s.used_count == if by_guests {
            0
        } else {
            Tally::Used.total(self.tickets@)
        }
        &&& match s.total_capacity {
            Some(n) => capacity_of(self.caps@) == Some(n as int),
            None => capacity_of(self.caps@) is None,
        }
        &&& opt_text(s.luma_event_id) == opt_text(self.luma_event_id)
    }

    fn sum_up(&self, event: &Event, guests: bool) -> (r: EventSummary)
        requires
            self.countable(),
        ensures
            self.summed_up_by(event, guests, &r),
    {
        let by_guests: bool = guests && self.luma_event_id.is_some();
        let (sold_count, used_count): (i64, i64) = if by_guests {
            (Tally::Confirmed.count(&self.invoices), 0)
        } else {
            (Tally::Issued.count(&self.tickets), Tally::Used.count(&self.tickets))
        };
        EventSummary {
            id: event.id.clone(),
            product_id: event.product_id.clone(),
            title: event.title.clone(),
            description: event.description.clone(),
            event_date: event.event_date.clone(),
            event_location: event.event_location.clone(),
            status: event.status.clone(),
            created_at: event.created_at.clone(),
            sold_count,
            used_count,
            total_capacity: total_capacity(&self.caps),
            luma_event_id: self.luma_event_id.clone(),
        }
    }

    /// The event in the list of the events of a merchant.
    pub fn list_entry(&self, event: &Event) -> (r: EventSummary)
        requires
            self.countable(),
        ensures
            self.summed_up_by(event, true, &r),
    {
        self.sum_up(event, true)
    }
}

/// An event with the sales at its prices; nothing where it is not an event of
/// the merchant. The tickets of the whole event are counted also where it has a
/// guest list.
pub fn get_event_detail(
    event: Option<&Event>,
    merchant_id: &str,
    sales: &EventSales,
    tiers: &Vec<TierSales>,
) -> (r: Option<EventDetailResponse>)
    requires
        sales.countable(),
        forall|i: int| 0 <= i < tiers@.len() ==> (#[trigger] tiers@[i]).countable(),
    ensures
        r is Some <==> event is Some && event->Some_0.merchant_id@ == merchant_id@,
        match r {
            Some(d) => {
                let shown = tiers@.filter(|t: TierSales| on_sale(t));
                &&& sales.summed_up_by(event->Some_0, false, &d.summary)
                &&& d.tiers@.len() == shown.len()
                &&& forall|i: int|
                    0 <= i < d.tiers@.len() ==> shown[i].shown_by(
                        sales.luma_event_id is Some,
                        #[trigger] &d.tiers@[i],
                    )
            },
            None => true,
        },
{
    match event {
        Some(e) => if text_eq(e.merchant_id.as_str(), merchant_id) {
            let tiers: Vec<EventTierStat> = get_event_tier_stats(tiers, sales.luma_event_id.is_some());
            Some(EventDetailResponse { summary: sales.sum_up(e, false), tiers })
        } else {
            None
        },
        None => None,
    }
}

/// Each tally counts what it is named after. A place is held by whatever is not
/// expired or a draft, and a guest is registered who is not expired or refunded;
/// only a confirmed payment is confirmed. A ticket was issued unless it is void,
/// and used only where it says so.
pub proof fn tallies_count_what_they_name(status: Seq<char>)
    ensures
        Tally::Held.counts(status) <==> status != "expired"@ && status != "draft"@,
        Tally::Registered.counts(status) <==> status != "expired"@ && status != "refunded"@,
        Tally::Confirmed.counts(status) <==> status == "confirmed"@,
        Tally::Issued.counts(status) <==> status != "void"@,
        Tally::Used.counts(status) <==> status == "used"@,
{
}

/// One more status adds one to the tallies that count it, and nothing to the
/// others.
pub proof fn one_more_counts_once(tally: Tally, statuses: Seq<String>, s: String)
    ensures
        tally.total(Seq::<String>::empty()) == 0,
        tally.counts(s@) ==> tally.total(statuses.push(s)) == tally.total(statuses) + 1,
        !tally.counts(s@) ==> tally.total(statuses.push(s)) == tally.total(statuses),
{
    assert(statuses.push(s).drop_last() =~= statuses);
}

/// An event has as many places as its prices together. One price without a limit
/// leaves it without one, and so does having no price.
pub proof fn places_add_up(caps: Seq<Option<i64>>, c: i64)
    ensures
        capacity_of(Seq::<Option<i64>>::empty()) is None,
        capacity_of(caps.push(None)) is None,
        capacity_of(seq![Some(c)]) == Some(c as int),
        caps.len() > 0 ==> (match capacity_of(caps) {
            Some(n) => capacity_of(caps.push(Some(c))) == Some(n + c),
            None => capacity_of(caps.push(Some(c))) is None,
        }),
{
    let open = caps.push(None::<i64>);
    assert(open[caps.len() as int] is None);
    assert(open.contains(None::<i64>));
    let one = seq![Some(c)];
    assert(one.drop_last() =~= Seq::<Option<i64>>::empty());
    assert(one.last() == Some(c));
    assert(caps_sum(one.drop_last()) == 0);
    assert(!one.contains(None::<i64>)) by {
        if one.contains(None::<i64>) {
            let i = choose|i: int| 0 <= i < one.len() && one[i] == None::<i64>;
            assert(one[i] == one[0]);
        }
    }
    let more = caps.push(Some(c));
    assert(more.drop_last() =~= caps);
    if caps.contains(None::<i64>) {
        let i = choose|i: int| 0 <= i < caps.len() && caps[i] == None::<i64>;
        assert(more[i] == None::<i64>);
    } else if more.contains(None::<i64>) {
        let i = choose|i: int| 0 <= i < more.len() && more[i] == None::<i64>;
        assert(i < caps.len());
        assert(caps[i] == None::<i64>);
    }
}

/// A price of an event with a guest list has sold its confirmed payments, and
/// one with tickets those that were issued.
pub proof fn tier_shows_what_it_sold(sales: &TierSales, is_luma: bool, t: &EventTierStat)
    requires
        sales.shown_by(is_luma, t),
    ensures
        t.price_id@ == sales.price.id@ && t.currency@ == sales.price.currency@,
        t.max_quantity == sales.price.max_quantity && opt_text(t.label) == opt_text(
            sales.price.label,
        ),
        is_luma ==> t.sold_count == Tally::Confirmed.total(sales.invoices@) && t.used_count == 0,
        !is_luma ==> t.sold_count == Tally::Issued.total(sales.tickets@) && t.used_count
            == Tally::Used.total(sales.tickets@),
        on_sale(*sales) <==> sales.price.active == 1,
{
}

/// An event is summed up in the same way, with its own texts and places.
pub proof fn event_shows_what_it_sold(
    sales: &EventSales,
    event: &Event,
    guests: bool,
    s: &EventSummary,
)
    requires
        sales.summed_up_by(event, guests, s),
    ensures
        s.id@ == event.id@ && s.title@ == event.title@ && s.status@ == event.status@,
        s.product_id@ == event.product_id@ && s.created_at@ == event.created_at@,
        opt_text(s.event_date) == opt_text(event.event_date),
        opt_text(s.description) == opt_text(event.description),
        opt_text(s.event_location) == opt_text(event.event_location),
        opt_text(s.luma_event_id) == opt_text(sales.luma_event_id),
        guests && sales.luma_event_id is Some ==> s.sold_count == Tally::Confirmed.total(
            sales.invoices@,
        ) && s.used_count == 0,
        !guests || sales.luma_event_id is None ==> s.sold_count == Tally::Issued.total(
            sales.tickets@,
        ) && s.used_count == Tally::Used.total(sales.tickets@),
        s.total_capacity matches Some(n) ==> capacity_of(sales.caps@) == Some(n as int),
        s.total_capacity is None <==> capacity_of(sales.caps@) is None,
{
}

} // verus!
