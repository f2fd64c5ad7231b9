//! The state of the service, and how it describes itself.

use vstd::prelude::*;

use crate::api::x402_v2::{network_id, network_name};
use crate::scanner::metrics::MetricsSnapshot;
use crate::text::{join2, text_eq};

verus! {

/// Blocks behind the tip from which on the service counts as degraded.
pub const DEGRADED_LAG: u64 = 5;

/// Seconds after which exchange rates count as stale.
pub const STALE_RATES_SECS: i64 = 600;

/// The state of the exchange rates.
#[derive(Debug, Clone, Copy, PartialEq, Eq, Structural)]
pub enum RatesHealth {
    Fresh,
    Stale,
    Unavailable,
}

/// The state of the exchange rates, from their age in seconds where there are
/// any.
pub fn rates_health(age_secs: Option<i64>) -> (r: RatesHealth)
    ensures
        r == match age_secs {
            Some(a) => if a > 600 {
                RatesHealth::Stale
            } else {
                RatesHealth::Fresh
            },
            None => RatesHealth::Unavailable,
        },
{
    match age_secs {
        Some(a) => if a > STALE_RATES_SECS {
            RatesHealth::Stale
        } else {
            RatesHealth::Fresh
        },
        None => RatesHealth::Unavailable,
    }
}

/// The state of the whole service.
#[derive(Debug, Clone, Copy, PartialEq, Eq, Structural)]
pub enum Health {
    Good,
    Degraded,
    Unhealthy,
}

impl Health {
    /// The state in a word.
    pub fn word(self) -> (r: &'static str)
        ensures
            r@ == match self {
                Health::Good => "ok"@,
                Health::Degraded => "degraded"@,
                Health::Unhealthy => "unhealthy"@,
            },
    {
        match self {
            Health::Good => "ok",
            Health::Degraded => "degraded",
            Health::Unhealthy => "unhealthy",
        }
    }

    /// The HTTP status with which the state is told.
    pub fn status(self) -> (r: u16)
        ensures
            r == if self == Health::Unhealthy {
                503
            } else {
                200u16
            },
    {
        match self {
            Health::Unhealthy => 503,
            _ => 200,
        }
    }
}

/// Whether the scanner is out of order: far behind, or failing before it saw a
/// block.
pub open spec fn scanner_fails(snap: &MetricsSnapshot, recent_errors: u64) -> bool {
    snap.spec_status() == "behind"@ || recent_errors > 0 && snap.last_block_height == 0
}

/// Whether the scanner lags behind.
pub open spec fn scanner_lags(snap: &MetricsSnapshot) -> bool {
    snap.spec_status() == "catching_up"@ || snap.lag() > DEGRADED_LAG
}

/// The state of the service.
pub fn health(
    database_works: bool,
    snap: &MetricsSnapshot,
    recent_errors: u64,
    rates: RatesHealth,
) -> (r: Health)
    ensures
        r == if !database_works || scanner_fails(snap, recent_errors) {
            Health::Unhealthy
        } else if scanner_lags(snap) || rates != RatesHealth::Fresh {
            Health::Degraded
        } else {
            Health::Good
        },
{
    let word: &str = snap.status();
    if !database_works || text_eq(word, "behind") || recent_errors > 0 && snap.last_block_height
        == 0 {
        return Health::Unhealthy;
    }
    let rates_good: bool = match rates {
        RatesHealth::Fresh => true,
        _ => false,
    };
    if text_eq(word, "catching_up") || snap.blocks_behind() > DEGRADED_LAG || !rates_good {
        Health::Degraded
    } else {
        Health::Good
    }
}

/// Where the service is reached.
pub open spec fn service_address(is_testnet: bool) -> Seq<char> {
    if is_testnet {
        "https://testnet.api.cipherpay.app"@
    } else {
        "https://api.cipherpay.app"@
    }
}

/// How the service tells clients to reach it.
pub struct Discovery {
    pub network: &'static str,
    pub facilitator: &'static str,
    pub facilitator_url: String,
    pub verify: String,
    pub settle: String,
    pub supported: String,
    pub session_prepare: String,
    pub session_validate: String,
}

/// How the service tells clients to reach it.
pub fn well_known_payment(is_testnet: bool) -> (r: Discovery)
    ensures
        r.network@ == network_name(is_testnet),
        r.facilitator@ == service_address(is_testnet),
        r.facilitator_url@ == service_address(is_testnet) + "/api/x402"@,
        r.verify@ == service_address(is_testnet) + "/api/x402/v2/verify"@,
        r.settle@ == service_address(is_testnet) + "/api/x402/v2/settle"@,
        r.supported@ == service_address(is_testnet) + "/api/x402/supported"@,
        r.session_prepare@ == service_address(is_testnet) + "/api/sessions/prepare"@,
        r.session_validate@ == service_address(is_testnet) + "/api/sessions/validate"@,
{
    let base: &'static str = if is_testnet {
        "https://testnet.api.cipherpay.app"
    } else {
        "https://api.cipherpay.app"
    };
    Discovery {
        network: network_id(is_testnet),
        facilitator: base,
        facilitator_url: join2(base, "/api/x402"),
        verify: join2(base, "/api/x402/v2/verify"),
        settle: join2(base, "/api/x402/v2/settle"),
        supported: join2(base, "/api/x402/supported"),
        session_prepare: join2(base, "/api/sessions/prepare"),
        session_validate: join2(base, "/api/sessions/validate"),
    }
}

/// The scanner fails once it is more than 20 blocks behind, or has errors and
/// not one block. It lags from 3 blocks behind the tip on.
pub proof fn scanner_health_follows_the_lag(snap: &MetricsSnapshot, recent_errors: u64)
    ensures
        ({
            let behind = snap.chain_tip_height - snap.last_block_height;
            let begun = snap.last_block_height > 0;
            &&& scanner_fails(snap, recent_errors) <==> begun && behind > 20 || !begun
                && recent_errors > 0
            &&& scanner_lags(snap) <==> begun && behind > 2 || behind > 5
        }),
{
    crate::scanner::metrics::status_follows_the_lag(*snap);
}

/// Each network has its own service.
pub proof fn networks_have_their_own_service(is_testnet: bool)
    ensures
        is_testnet ==> service_address(is_testnet) == "https://testnet.api.cipherpay.app"@,
        !is_testnet ==> service_address(is_testnet) == "https://api.cipherpay.app"@,
{
}

} // verus!
