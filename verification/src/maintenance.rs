//! What is cleaned up from time to time.

use vstd::prelude::*;

use crate::clock::{timestamp, timestamp_text};
use crate::text::{lex_less, text_eq, text_less};

verus! {

/// The moments by which rows are judged: now, and the days of retention ago.
pub struct Purge {
    pub now: String,
    pub cutoff: String,
}

impl Purge {
    /// The moments for a number of days of retention.
    pub fn at(now: i64, purge_days: i64) -> (r: Purge)
        requires
            0 <= now < 5_000_000_000_000,
            0 <= purge_days * 86_400 <= now,
        ensures
            r.now@ == timestamp_text(now as int),
            r.cutoff@ == timestamp_text(now - purge_days * 86_400),
    {
        Purge { now: timestamp(now), cutoff: timestamp(now - purge_days * 86_400) }
    }

    /// Whether something that expires has expired: a dashboard session, a
    /// deposit request, a recovery token, a passkey challenge.
    pub fn is_expired(&self, expires_at: &str) -> (r: bool)
        ensures
            r == lex_less(expires_at@, self.now@),
    {
        text_less(expires_at, self.now.as_str())
    }

    /// Whether the record of a webhook delivery is no longer needed: it came to
    /// an end before the cutoff.
    pub fn drops_delivery(&self, status: &str, created_at: &str) -> (r: bool)
        ensures
            r == ((status@ == "delivered"@ || status@ == "failed"@) && lex_less(
                created_at@,
                self.cutoff@,
            )),
    {
        (text_eq(status, "delivered") || text_eq(status, "failed")) && text_less(
            created_at,
            self.cutoff.as_str(),
        )
    }

    /// Whether a ticket is no longer needed: it was voided, and made before the
    /// cutoff.
    pub fn drops_ticket(&self, status: &str, created_at: &str) -> (r: bool)
        ensures
            r == (status@ == "void"@ && lex_less(created_at@, self.cutoff@)),
    {
        text_eq(status, "void") && text_less(created_at, self.cutoff.as_str())
    }

    /// Clears what an attendee told of an invoice that was abandoned: it
    /// expired, and was made before the cutoff. Gives whether it was.
    pub fn clear_attendee(&self, attendee: &mut Attendee) -> (r: bool)
        ensures
            r == (old(attendee).invoice_status@ == "expired"@ && lex_less(
                old(attendee).created_at@,
                self.cutoff@,
            )),
            r ==> final(attendee).name is None && final(attendee).email is None,
            !r ==> *final(attendee) == *old(attendee),
            final(attendee).invoice_status == old(attendee).invoice_status,
            final(attendee).created_at == old(attendee).created_at,
    {
        if text_eq(attendee.invoice_status.as_str(), "expired") && text_less(
            attendee.created_at.as_str(),
            self.cutoff.as_str(),
        ) {
            attendee.name = None;
            attendee.email = None;
            true
        } else {
            false
        }
    }
}

/// What an attendee told, as it is stored with the invoice.
pub struct Attendee {
    pub invoice_status: String,
    pub created_at: String,
    pub name: Option<String>,
    pub email: Option<String>,
}

} // verus!
