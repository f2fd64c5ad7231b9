//! Small requests about the account: tickets, subscriptions, imports, and the
//! end of the account.

use vstd::prelude::*;

use crate::api::Lookup;
use crate::clock::{timestamp, timestamp_text};
use crate::text::{join3, opt_text, text_eq, trim, trimmed};

verus! {

#[derive(Debug)]
pub struct ScanRequest {
    pub code: String,
}

pub struct CancelBody {
    pub at_period_end: Option<bool>,
}

pub struct SimulateBody {
    pub with_payment: Option<bool>,
}

/// A request to import an event from the guest-list service.
#[derive(Debug)]
pub struct ImportRequest {
    pub luma_event_id: String,
}

/// The code of a ticket in a request, without white space around it; none where
/// it is empty.
pub fn scanned_code(body: &ScanRequest) -> (r: Option<String>)
    ensures
        opt_text(r) == if trimmed(body.code@).len() > 0 {
            Some(trimmed(body.code@))
        } else {
            None
        },
{
    let code: String = trim(body.code.as_str());
    if code.as_str().is_empty() {
        None
    } else {
        Some(code)
    }
}

/// What a scan of a ticket tells.
#[derive(Debug, Clone, Copy, PartialEq, Eq, Structural)]
pub struct ScanResult {
    pub valid: bool,
    pub already_used: bool,
    pub voided: bool,
}

/// What a scan of a ticket tells: it is valid the one time that it is used. No
/// answer where the ticket is another merchant's.
pub fn scan_result(
    ticket_merchant: &str,
    merchant_id: &str,
    ticket_status: &str,
    just_used: bool,
) -> (r: Option<ScanResult>)
    ensures
        r == if ticket_merchant@ != merchant_id@ {
            None
        } else {
            Some(
                ScanResult {
                    valid: just_used,
                    already_used: ticket_status@ == "used"@ && !just_used,
                    voided: ticket_status@ == "void"@,
                },
            )
        },
{
    if !text_eq(ticket_merchant, merchant_id) {
        return None;
    }
    Some(
        ScanResult {
            valid: just_used,
            already_used: text_eq(ticket_status, "used") && !just_used,
            voided: text_eq(ticket_status, "void"),
        },
    )
}

/// Whether a cancelled subscription is announced at once: one that ends with
/// its period is announced when it ends.
pub fn announces_cancellation(body: &CancelBody, status: &str) -> (r: bool)
    ensures
        r == (body.at_period_end != Some(true) && status@ == "canceled"@),
{
    let later: bool = match body.at_period_end {
        Some(b) => b,
        None => false,
    };
    !later && text_eq(status, "canceled")
}

/// Why the end of a subscription period is not simulated.
#[derive(Debug)]
pub enum SimulationRefusal {
    NotTestnet,
    ForeignSubscription,
    NotFound,
    LookupFailed,
    NotActive(String),
}

impl SimulationRefusal {
    pub open spec fn spec_reply(&self) -> (u16, Seq<char>) {
        match *self {
            SimulationRefusal::NotTestnet => (
                403,
                "Simulation endpoints are only available on testnet"@,
            ),
            SimulationRefusal::ForeignSubscription => (
                403,
                "Subscription does not belong to this merchant"@,
            ),
            SimulationRefusal::NotFound => (404, "Subscription not found"@),
            SimulationRefusal::LookupFailed => (500, "Internal error"@),
            SimulationRefusal::NotActive(s) => (400, "Subscription is "@ + s@ + ", not active"@),
        }
    }

    /// The HTTP status and the message.
    pub fn reply(&self) -> (r: (u16, String))
        ensures
            (r.0, r.1@) == self.spec_reply(),
    {
        match self {
            SimulationRefusal::NotTestnet => (
                403,
                "Simulation endpoints are only available on testnet".to_string(),
            ),
            SimulationRefusal::ForeignSubscription => (
                403,
                "Subscription does not belong to this merchant".to_string(),
            ),
            SimulationRefusal::NotFound => (404, "Subscription not found".to_string()),
            SimulationRefusal::LookupFailed => (500, "Internal error".to_string()),
            SimulationRefusal::NotActive(s) => (
                400,
                join3("Subscription is ", s.as_str(), ", not active"),
            ),
        }
    }
}

/// Whether the end of a subscription period may be simulated: on the test
/// network, by the merchant of an active subscription. `subscription` is its
/// merchant and its status.
pub fn check_simulation(
    is_testnet: bool,
    subscription: &Lookup<(String, String)>,
    merchant_id: &str,
) -> (r: Result<(), SimulationRefusal>)
    ensures
        if !is_testnet {
            r == Err::<(), SimulationRefusal>(SimulationRefusal::NotTestnet)
        } else {
            match *subscription {
                Lookup::Missing => r == Err::<(), SimulationRefusal>(SimulationRefusal::NotFound),
                Lookup::Failed => r == Err::<(), SimulationRefusal>(
                    SimulationRefusal::LookupFailed,
                ),
                Lookup::Found(s) => if s.0@ != merchant_id@ {
                    r == Err::<(), SimulationRefusal>(SimulationRefusal::ForeignSubscription)
                } else if s.1@ != "active"@ {
                    r matches Err(SimulationRefusal::NotActive(x)) && x@ == s.1@
                } else {
                    r is Ok
                },
            }
        },
{
    if !is_testnet {
        return Err(SimulationRefusal::NotTestnet);
    }
    match subscription {
        Lookup::Missing => Err(SimulationRefusal::NotFound),
        Lookup::Failed => Err(SimulationRefusal::LookupFailed),
        Lookup::Found(s) => if !text_eq(s.0.as_str(), merchant_id) {
            Err(SimulationRefusal::ForeignSubscription)
        } else if !text_eq(s.1.as_str(), "active") {
            Err(SimulationRefusal::NotActive(s.1.clone()))
        } else {
            Ok(())
        },
    }
}

/// The end of the current period of a subscription whose end is simulated: an
/// hour ago.
pub fn simulated_period_end(now: i64) -> (r: String)
    requires
        3600 <= now < 5_000_000_000_000,
    ensures
        r@ == timestamp_text(now - 3600),
{
    timestamp(now - 3600)
}

/// Why an account is not deleted.
#[derive(Debug, Clone, Copy, PartialEq, Eq, Structural)]
pub enum DeletionRefusal {
    OutstandingBalance,
    LookupFailed,
}

impl DeletionRefusal {
    pub open spec fn spec_reply(self) -> (u16, Seq<char>) {
        match self {
            DeletionRefusal::OutstandingBalance => (
                403,
                "Cannot delete account with outstanding billing balance. Please settle your fees first."@,
            ),
            DeletionRefusal::LookupFailed => (500, "Internal error"@),
        }
    }

    /// The HTTP status and the message.
    pub fn reply(&self) -> (r: (u16, &'static str))
        ensures
            (r.0, r.1@) == self.spec_reply(),
    {
        match self {
            DeletionRefusal::OutstandingBalance => (
                403,
                "Cannot delete account with outstanding billing balance. Please settle your fees first.",
            ),
            DeletionRefusal::LookupFailed => (500, "Internal error"),
        }
    }
}

/// Whether an account may be deleted: where fees are charged, only with none
/// outstanding.
pub fn check_deletion(fee_enabled: bool, outstanding: &Lookup<bool>) -> (r: Result<
    (),
    DeletionRefusal,
>)
    ensures
        if fee_enabled && *outstanding == Lookup::Found(true) {
            r == Err::<(), DeletionRefusal>(DeletionRefusal::OutstandingBalance)
        } else if fee_enabled && !(*outstanding is Found) {
            r == Err::<(), DeletionRefusal>(DeletionRefusal::LookupFailed)
        } else {
            r is Ok
        },
{
    if !fee_enabled {
        return Ok(());
    }
    match outstanding {
        Lookup::Found(true) => Err(DeletionRefusal::OutstandingBalance),
        Lookup::Found(false) => Ok(()),
        _ => Err(DeletionRefusal::LookupFailed),
    }
}

/// A request is refused with 400 where the request is at fault, with 403 where
/// the caller may not do it, with 404 where something is not there, with 500
/// where the service is at fault.
pub proof fn simulation_refusals_have_their_status(e: SimulationRefusal)
    ensures
        e.spec_reply().0 == 400 <==> e is NotActive,
        e.spec_reply().0 == 403 <==> e is NotTestnet || e is ForeignSubscription,
        e.spec_reply().0 == 404 <==> e is NotFound,
        e.spec_reply().0 == 500 <==> e is LookupFailed,
{
}

/// A request is refused with 403 where the caller may not do it, with 500
/// where the service is at fault.
pub proof fn deletion_refusals_have_their_status(e: DeletionRefusal)
    ensures
        e.spec_reply().0 == 403 <==> e is OutstandingBalance,
        e.spec_reply().0 == 500 <==> e is LookupFailed,
{
}

} // verus!
