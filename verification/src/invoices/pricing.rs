//! Exchange rates: when they are fetched, and which are used.

use vstd::prelude::*;

verus! {

/// Which rates are used.
#[derive(Debug, Clone, Copy, PartialEq, Eq, Structural)]
pub enum RateChoice {
    /// Those that are at hand.
    Cached,
    /// Those that were fetched, which are kept.
    Fetched,
    /// There are none.
    Unavailable,
}

/// Whether rates of an age in whole seconds are still fresh. An age below zero
/// is that of no rates that can be trusted.
pub open spec fn is_fresh_rate(age_secs: Option<i64>, cache_secs: u64) -> bool {
    age_secs matches Some(a) && 0 <= a < cache_secs
}

/// Whether rates have to be fetched: those at hand, if there are any, are of the
/// given age.
pub fn rates_needed(age_secs: Option<i64>, cache_secs: u64) -> (r: bool)
    ensures
        r == !is_fresh_rate(age_secs, cache_secs),
{
    match age_secs {
        Some(a) => !(a >= 0 && (a as u64) < cache_secs),
        None => true,
    }
}

/// Which rates are used: fresh ones at hand; otherwise those that were fetched;
/// and where that failed, those at hand, however old.
pub fn choose_rates(age_secs: Option<i64>, cache_secs: u64, fetch_succeeded: bool) -> (r:
    RateChoice)
    ensures
        r == if is_fresh_rate(age_secs, cache_secs) {
            RateChoice::Cached
        } else if fetch_succeeded {
            RateChoice::Fetched
        } else if age_secs is Some {
            RateChoice::Cached
        } else {
            RateChoice::Unavailable
        },
{
    if !rates_needed(age_secs, cache_secs) {
        RateChoice::Cached
    } else if fetch_succeeded {
        RateChoice::Fetched
    } else if age_secs.is_some() {
        RateChoice::Cached
    } else {
        RateChoice::Unavailable
    }
}

/// A rate is fresh until it is as old as it may be kept. One from the future, or
/// of no known age, is not.
pub proof fn rate_is_fresh_for_its_time(age_secs: i64, cache_secs: u64)
    ensures
        0 <= age_secs && age_secs < cache_secs ==> is_fresh_rate(Some(age_secs), cache_secs),
        age_secs < 0 || age_secs >= cache_secs ==> !is_fresh_rate(Some(age_secs), cache_secs),
        !is_fresh_rate(None, cache_secs),
{
}

} // verus!
