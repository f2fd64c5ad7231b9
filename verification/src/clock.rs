//! Points in time: reading and writing them as text, and the arithmetic that
//! the library does with them.

use vstd::prelude::*;

use chrono::{DateTime, NaiveDateTime};

use crate::text::lex_less;

verus! {

/// The format in which times are stored. Up to the year 9999 it sorts as the
/// times do.
pub const TIMESTAMP_FORMAT: &'static str = "%Y-%m-%dT%H:%M:%SZ";

/// The format of the date of an event with seconds.
pub const SECONDS_FORMAT: &'static str = "%Y-%m-%dT%H:%M:%S";

/// The format of the date of an event without seconds.
pub const MINUTES_FORMAT: &'static str = "%Y-%m-%dT%H:%M";

/// Date and time with a space in between.
pub const SPACED_FORMAT: &'static str = "%Y-%m-%d %H:%M:%S";

pub const SECONDS_PER_DAY: i64 = 86_400;

/// The first second of the calendar.
pub const CALENDAR_START: i64 = -8_334_601_228_800;

/// The last second of the calendar.
pub const CALENDAR_END: i64 = 8_210_266_876_799;

/// The first second of the year 0.
pub const FOUR_DIGITS_START: i64 = -62_167_219_200;

/// The last second of the year 9999.
pub const FOUR_DIGITS_END: i64 = 253_402_300_799;

/// Nanoseconds in a second; a leap second counts on from there.
pub const NANOS: u32 = 1_000_000_000;

/// A point in time: whole seconds since 1970 and nanoseconds, which reach
/// beyond a second within a leap second.
#[derive(Debug, Clone, Copy, PartialEq, Eq, Structural)]
pub struct Moment {
    pub secs: i64,
    pub nanos: u32,
}

impl Moment {
    /// Whether the moment lies in the range of the calendar.
    pub open spec fn wf(self) -> bool {
        -10_000_000_000_000 < self.secs < 10_000_000_000_000 && self.nanos < 2_000_000_000
    }

    /// Whether the moment lies in a year of four digits, and in no leap second.
    pub open spec fn is_plain(self) -> bool {
        has_four_digit_year(self.secs as int) && self.nanos < 1_000_000_000
    }

    pub open spec fn before(self, other: Moment) -> bool {
        self.secs < other.secs || self.secs == other.secs && self.nanos < other.nanos
    }

    /// The moment a number of days later. A leap second becomes the second
    /// before it.
    pub open spec fn later(self, days: int) -> (int, int) {
        (
            self.secs + days * 86_400,
            if self.nanos >= 1_000_000_000 {
                self.nanos - 1_000_000_000
            } else {
                self.nanos as int
            },
        )
    }

    /// The nanoseconds from another moment to this one. A leap second counts
    /// where it stands earlier in its day than the other moment does in its own.
    pub open spec fn nanos_since(self, other: Moment) -> int {
        let own = self.secs as int % 86_400;
        let theirs = other.secs as int % 86_400;
        let leap = if own > theirs && other.nanos >= 1_000_000_000 {
            1int
        } else if own < theirs && self.nanos >= 1_000_000_000 {
            -1
        } else {
            0
        };
        (self.secs - other.secs + leap) * 1_000_000_000 + self.nanos - other.nanos
    }

    /// Whether this moment lies before another one.
    pub fn is_before(self, other: Moment) -> (r: bool)
        ensures
            r == self.before(other),
    {
        self.secs < other.secs || (self.secs == other.secs && self.nanos < other.nanos)
    }

    /// The moment a number of days later.
    pub fn add_days(self, days: i64) -> (r: Moment)
        requires
            self.wf(),
            0 < days <= 36_500,
        ensures
            (r.secs as int, r.nanos as int) == self.later(days as int),
    {
        Moment {
            secs: self.secs + days * SECONDS_PER_DAY,
            nanos: if self.nanos >= NANOS {
                self.nanos - NANOS
            } else {
                self.nanos
            },
        }
    }

    fn second_of_day(self) -> (r: u64)
        requires
            self.wf(),
        ensures
            r == self.secs as int % 86_400,
    {
        // 200 million days reach beyond the calendar.
        ((self.secs + 17_280_000_000_000) as u64) % 86_400
    }

    fn nanos_from(self, other: Moment) -> (r: i128)
        requires
            self.wf(),
            other.wf(),
        ensures
            r == self.nanos_since(other),
    {
        let own: u64 = self.second_of_day();
        let theirs: u64 = other.second_of_day();
        let leap: i64 = if own > theirs && other.nanos >= NANOS {
            1
        } else if own < theirs && self.nanos >= NANOS {
            -1
        } else {
            0
        };
        (self.secs - other.secs + leap) as i128 * 1_000_000_000 + self.nanos as i128
            - other.nanos as i128
    }

    /// Whether less than a number of seconds went by since another moment.
    pub fn is_within(self, other: Moment, seconds: u32) -> (r: bool)
        requires
            self.wf(),
            other.wf(),
        ensures
            r == (self.nanos_since(other) < seconds * 1_000_000_000),
    {
        self.nanos_from(other) < seconds as i128 * 1_000_000_000
    }

    /// The whole days from another moment to this one, parts of a day left out.
    pub fn days_since(self, other: Moment) -> (r: i64)
        requires
            self.wf(),
            other.wf(),
        ensures
            self.nanos_since(other) >= 0 ==> r == self.nanos_since(other) / 86_400_000_000_000int,
            self.nanos_since(other) < 0 ==> r == -((-self.nanos_since(other))
                / 86_400_000_000_000int),
    {
        let total: i128 = self.nanos_from(other);
        if total < 0 {
            -(((-total) / 86_400_000_000_000) as i64)
        } else {
            (total / 86_400_000_000_000) as i64
        }
    }
}

/// The moment that a text stands for in a format of `chrono`, if it stands for
/// one.
pub uninterp spec fn parsed_datetime(text: Seq<char>, format: Seq<char>) -> Option<Moment>;

/// The text of a moment in a format of `chrono`; `None` where the moment lies
/// outside its calendar.
pub uninterp spec fn formatted_datetime(m: Moment, format: Seq<char>) -> Option<Seq<char>>;

/// Calls `NaiveDateTime::parse_from_str`. Whether a text is a date in the
/// format, and which, is a function of the two; the calendar ends some
/// 262,000 years from now on either side.
#[verifier::external_body]
pub(crate) fn parse_datetime(text: &str, format: &str) -> (r: Option<Moment>)
    ensures
        r == parsed_datetime(text@, format@),
        r matches Some(m) ==> m.wf(),
{
    let t = NaiveDateTime::parse_from_str(text, format).ok()?.and_utc();
    Some(Moment { secs: t.timestamp(), nanos: t.timestamp_subsec_nanos() })
}

/// Calls `DateTime::from_timestamp` and `DateTime::format`. The text is a
/// function of moment and format. The calendar reaches from the year -262143
/// to the year 262142. In the format of stored times all texts of the years 0
/// to 9999 are equally long, with the larger units first, so they sort as the
/// times do.
#[verifier::external_body]
pub(crate) fn format_datetime(m: Moment, format: &str) -> (r: Option<String>)
    requires
        format@ == TIMESTAMP_FORMAT@ || format@ == MINUTES_FORMAT@ || format@ == SECONDS_FORMAT@
            || format@ == SPACED_FORMAT@,
    ensures
        match r {
            Some(s) => {
                &&& formatted_datetime(m, format@) == Some(s@)
                &&& format@ == TIMESTAMP_FORMAT@ && m.is_plain() ==> forall|t: Moment|
                    t.is_plain() ==> (lex_less(
                        (#[trigger] formatted_datetime(t, format@))->0,
                        s@,
                    ) <==> t.secs < m.secs)
            },
            None => formatted_datetime(m, format@) is None,
        },
        is_storable(m.secs as int) && m.nanos < 1_000_000_000 ==> r is Some,
{
    DateTime::from_timestamp(m.secs, m.nanos).map(|t| t.format(format).to_string())
}

/// Whether a time in seconds lies in the calendar, so that it can be stored.
pub open spec fn is_storable(secs: int) -> bool {
    CALENDAR_START <= secs <= CALENDAR_END
}

/// Whether the year of a time in seconds has four digits.
pub open spec fn has_four_digit_year(secs: int) -> bool {
    FOUR_DIGITS_START <= secs <= FOUR_DIGITS_END
}

/// The stored form of a time in seconds.
pub open spec fn timestamp_text(secs: int) -> Seq<char> {
    formatted_datetime(Moment { secs: secs as i64, nanos: 0 }, TIMESTAMP_FORMAT@)->0
}

/// Whether a text in the stored form sorts among all others as a time does.
pub open spec fn sorts_as(text: Seq<char>, secs: int) -> bool {
    forall|t: int|
        has_four_digit_year(t) ==> (lex_less(#[trigger] timestamp_text(t), text) <==> t < secs)
}

/// Writes a time in seconds in its stored form. As long as years have four
/// digits, stored times sort as the times do.
pub fn timestamp(secs: i64) -> (r: String)
    requires
        is_storable(secs as int),
    ensures
        r@ == timestamp_text(secs as int),
        has_four_digit_year(secs as int) ==> sorts_as(r@, secs as int),
{
    match format_datetime(Moment { secs, nanos: 0 }, TIMESTAMP_FORMAT) {
        Some(s) => s,
        None => String::new(),
    }
}

/// Reads a time in its stored form.
pub fn parse_timestamp(text: &str) -> (r: Option<Moment>)
    ensures
        r == parsed_datetime(text@, TIMESTAMP_FORMAT@),
        r matches Some(m) ==> m.wf(),
{
    parse_datetime(text, TIMESTAMP_FORMAT)
}

// ---------------------------------------------------------------------------
// Laws
// ---------------------------------------------------------------------------

/// One moment lies before another by its seconds, and by the parts of a second
/// where those are the same; never both ways.
pub proof fn moments_are_ordered(a: Moment, b: Moment)
    ensures
        a.secs < b.secs ==> a.before(b),
        a.secs == b.secs ==> (a.before(b) <==> a.nanos < b.nanos),
        a.before(b) ==> !b.before(a),
        !a.before(b) && !b.before(a) ==> a == b,
{
}

/// A day is 86,400 seconds.
pub proof fn days_are_added(m: Moment, days: int)
    requires
        m.nanos < 1_000_000_000,
    ensures
        m.later(days).0 == m.secs + 86_400 * days,
        m.later(days).1 == m.nanos,
        m.later(0).0 == m.secs,
{
}

/// The time between two moments is counted in nanoseconds, and is above zero
/// where the second lies before the first.
pub proof fn time_passes_between_moments(a: Moment, b: Moment)
    requires
        a.nanos < 1_000_000_000,
        b.nanos < 1_000_000_000,
    ensures
        a.nanos_since(b) == (a.secs - b.secs) * 1_000_000_000 + a.nanos - b.nanos,
        a.nanos_since(a) == 0,
        b.before(a) <==> a.nanos_since(b) > 0,
{
}

/// The same time lies between two moments whichever way it is counted, also
/// where one of them is a leap second.
pub proof fn time_is_the_same_backwards(a: Moment, b: Moment)
    ensures
        a.nanos_since(b) == -b.nanos_since(a),
{
}

/// A leap second counts as a second of its own for what comes later on its day,
/// and as none before it is over.
pub proof fn leap_second_counts_once(a: Moment, b: Moment)
    requires
        a.nanos < 1_000_000_000,
        1_000_000_000 <= b.nanos < 2_000_000_000,
        a.secs as int / 86_400 == b.secs as int / 86_400,
    ensures
        a.secs > b.secs ==> a.nanos_since(b) == (a.secs - b.secs + 1) * 1_000_000_000 + a.nanos
            - b.nanos,
        a.secs <= b.secs ==> a.nanos_since(b) == (a.secs - b.secs) * 1_000_000_000 + a.nanos
            - b.nanos,
{
}

/// A stored time has the date, a letter, the time to the second and a letter for
/// the zone.
pub proof fn stored_time_has_its_form(secs: int)
    ensures
        timestamp_text(secs) == formatted_datetime(
            Moment { secs: secs as i64, nanos: 0 },
            "%Y-%m-%dT%H:%M:%SZ"@,
        )->0,
        has_four_digit_year(secs) <==> -62_167_219_200 <= secs <= 253_402_300_799,
        has_four_digit_year(secs) ==> is_storable(secs),
{
}

} // verus!
