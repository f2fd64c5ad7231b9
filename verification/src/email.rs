//! Mail to merchants: what it says, and that each is sent once.

use vstd::prelude::*;

use crate::config::Config;
use crate::text::{
    decimal_signed, decimal_signed_text, join2, join3, occurs_in, opt_text, text_eq,
    text_occurs_where_it_stands,
};

verus! {

/// Where the dashboard is, unless it is configured otherwise.
pub const DEFAULT_DASHBOARD: &'static str = "https://cipherpay.app";

/// Where the dashboard is on the machine of a developer.
pub const LOCAL_DASHBOARD: &'static str = "http://localhost:3000";

/// A mail: its kind, what it is about, its subject and its text. Of the same
/// kind about the same thing a merchant gets one mail only.
pub struct Mail {
    pub template: &'static str,
    pub entity_id: String,
    pub subject: &'static str,
    pub body: String,
}

/// Why a recovery mail cannot be sent.
#[derive(Debug, Clone, Copy, PartialEq, Eq, Structural)]
pub enum MailError {
    NoSender,
    NoKey,
}

impl MailError {
    pub fn message(&self) -> (r: &'static str)
        ensures
            r@ == match *self {
                MailError::NoSender => "SMTP_FROM not configured"@,
                MailError::NoKey => "SMTP_PASS (Resend API key) not configured"@,
            },
    {
        match self {
            MailError::NoSender => "SMTP_FROM not configured",
            MailError::NoKey => "SMTP_PASS (Resend API key) not configured",
        }
    }
}

pub open spec fn site_of(frontend_url: Option<Seq<char>>, default: Seq<char>) -> Seq<char> {
    match frontend_url {
        Some(u) => u,
        None => default,
    }
}

fn site<'a>(frontend_url: &'a Option<String>, default: &'static str) -> (r: &'a str)
    ensures
        r@ == site_of(opt_text(*frontend_url), default@),
{
    match frontend_url {
        Some(u) => u.as_str(),
        None => default,
    }
}

/// The text of a recovery mail.
pub open spec fn recovery_text(frontend_url: Option<Seq<char>>, token: Seq<char>) -> Seq<char> {
    "CipherPay Account Recovery\n\nSomeone requested a recovery link for the merchant account associated with this email.\n\nClick the link below to get a new dashboard token:\n"@
        + site_of(frontend_url, LOCAL_DASHBOARD@) + "/dashboard/recover/confirm?token="@ + token
        + "\n\nThis link expires in 1 hour.\n\nIf you did not request this, you can safely ignore this email.\n\n\u{2014} CipherPay"@
}

/// The text of a recovery mail, where mail can be sent.
pub fn recovery_mail(config: &Config, token: &str) -> (r: Result<String, MailError>)
    ensures
        if config.smtp_from is None {
            r == Err::<String, MailError>(MailError::NoSender)
        } else if config.smtp_pass is None {
            r == Err::<String, MailError>(MailError::NoKey)
        } else {
            r matches Ok(t) && t@ == recovery_text(opt_text(config.frontend_url), token@)
        },
{
    if config.smtp_from.is_none() {
        return Err(MailError::NoSender);
    }
    if config.smtp_pass.is_none() {
        return Err(MailError::NoKey);
    }
    let start: String = join2(
        "CipherPay Account Recovery\n\nSomeone requested a recovery link for the merchant account associated with this email.\n\nClick the link below to get a new dashboard token:\n",
        site(&config.frontend_url, LOCAL_DASHBOARD),
    );
    let link: String = join3(start.as_str(), "/dashboard/recover/confirm?token=", token);
    Ok(
        join2(
            link.as_str(),
            "\n\nThis link expires in 1 hour.\n\nIf you did not request this, you can safely ignore this email.\n\n\u{2014} CipherPay",
        ),
    )
}

/// The mail about a closed billing cycle; amounts are given as they are
/// printed.
pub fn settlement_invoice_mail(
    config: &Config,
    cycle_id: &str,
    amount: &str,
    due_date: &str,
    grace_days: i64,
) -> (r: Mail)
    ensures
        r.template@ == "settlement_invoice"@,
        r.entity_id@ == cycle_id@,
        r.subject@ == "CipherPay: Billing Cycle Closed"@,
        r.body@
            == "CipherPay Billing\n\nYour billing cycle has closed.\n\nOutstanding balance: "@
            + amount@ + " ZEC\nDue by: "@ + due_date@ + " ("@ + decimal_signed(grace_days as int)
            + " days)\n\nPlease settle before the due date to avoid service interruption.\n\nView your billing details:\n"@
            + site_of(opt_text(config.frontend_url), "https://cipherpay.app"@)
            + "/dashboard\n\n\u{2014} CipherPay"@,
{
    let a: String = join3(
        "CipherPay Billing\n\nYour billing cycle has closed.\n\nOutstanding balance: ",
        amount,
        " ZEC\nDue by: ",
    );
    let days: String = decimal_signed_text(grace_days);
    let b: String = join3(a.as_str(), due_date, " (");
    let c: String = join3(
        b.as_str(),
        days.as_str(),
        " days)\n\nPlease settle before the due date to avoid service interruption.\n\nView your billing details:\n",
    );
    Mail {
        template: "settlement_invoice",
        entity_id: cycle_id.to_string(),
        subject: "CipherPay: Billing Cycle Closed",
        body: join3(
            c.as_str(),
            site(&config.frontend_url, DEFAULT_DASHBOARD),
            "/dashboard\n\n\u{2014} CipherPay",
        ),
    }
}

/// The mail that reminds of a payment that is due.
pub fn billing_reminder_mail(
    config: &Config,
    cycle_id: &str,
    amount: &str,
    due_date: &str,
    days_remaining: i64,
) -> (r: Mail)
    ensures
        r.template@ == "grace_reminder"@,
        r.entity_id@ == cycle_id@,
        r.subject@ == "CipherPay: Billing Payment Reminder"@,
        r.body@ == "CipherPay Billing Reminder\n\nYour outstanding balance of "@ + amount@
            + " ZEC is due in "@ + decimal_signed(days_remaining as int) + " days ("@ + due_date@
            + ").\n\nAfter that date, new invoice creation will be paused until payment is received.\n\nView your billing details:\n"@
            + site_of(opt_text(config.frontend_url), "https://cipherpay.app"@)
            + "/dashboard\n\n\u{2014} CipherPay"@,
{
    let a: String = join3(
        "CipherPay Billing Reminder\n\nYour outstanding balance of ",
        amount,
        " ZEC is due in ",
    );
    let days: String = decimal_signed_text(days_remaining);
    let b: String = join3(a.as_str(), days.as_str(), " days (");
    let c: String = join3(
        b.as_str(),
        due_date,
        ").\n\nAfter that date, new invoice creation will be paused until payment is received.\n\nView your billing details:\n",
    );
    Mail {
        template: "grace_reminder",
        entity_id: cycle_id.to_string(),
        subject: "CipherPay: Billing Payment Reminder",
        body: join3(
            c.as_str(),
            site(&config.frontend_url, DEFAULT_DASHBOARD),
            "/dashboard\n\n\u{2014} CipherPay",
        ),
    }
}

/// The mail about an overdue payment.
pub fn past_due_mail(config: &Config, cycle_id: &str, amount: &str) -> (r: Mail)
    ensures
        r.template@ == "past_due"@,
        r.entity_id@ == cycle_id@,
        r.subject@ == "CipherPay: Account Past Due"@,
        r.body@
            == "CipherPay: Account Past Due\n\nYour billing payment is overdue. Invoice creation has been paused.\n\nOutstanding: "@
            + amount@ + " ZEC\n\nPay now to restore full access:\n"@ + site_of(
            opt_text(config.frontend_url),
            "https://cipherpay.app"@,
        ) + "/dashboard\n\n\u{2014} CipherPay"@,
{
    let a: String = join3(
        "CipherPay: Account Past Due\n\nYour billing payment is overdue. Invoice creation has been paused.\n\nOutstanding: ",
        amount,
        " ZEC\n\nPay now to restore full access:\n",
    );
    Mail {
        template: "past_due",
        entity_id: cycle_id.to_string(),
        subject: "CipherPay: Account Past Due",
        body: join3(
            a.as_str(),
            site(&config.frontend_url, DEFAULT_DASHBOARD),
            "/dashboard\n\n\u{2014} CipherPay",
        ),
    }
}

/// The mail about a suspended account.
pub fn suspended_mail(config: &Config, cycle_id: &str, amount: &str) -> (r: Mail)
    ensures
        r.template@ == "suspended"@,
        r.entity_id@ == cycle_id@,
        r.subject@ == "CipherPay: Account Suspended"@,
        r.body@
            == "CipherPay: Account Suspended\n\nYour account has been suspended due to an unpaid balance of "@
            + amount@
            + " ZEC.\nAll services (invoices, webhooks, sessions, x402) are paused.\n\nPay now to restore your account:\n"@
            + site_of(opt_text(config.frontend_url), "https://cipherpay.app"@)
            + "/dashboard\n\n\u{2014} CipherPay"@,
{
    let a: String = join3(
        "CipherPay: Account Suspended\n\nYour account has been suspended due to an unpaid balance of ",
        amount,
        " ZEC.\nAll services (invoices, webhooks, sessions, x402) are paused.\n\nPay now to restore your account:\n",
    );
    Mail {
        template: "suspended",
        entity_id: cycle_id.to_string(),
        subject: "CipherPay: Account Suspended",
        body: join3(
            a.as_str(),
            site(&config.frontend_url, DEFAULT_DASHBOARD),
            "/dashboard\n\n\u{2014} CipherPay",
        ),
    }
}

/// The mail about a payment that was received.
pub fn payment_confirmed_mail(cycle_id: &str) -> (r: Mail)
    ensures
        r.template@ == "payment_confirmed"@,
        r.entity_id@ == cycle_id@,
        r.subject@ == "CipherPay: Payment Received"@,
        r.body@
            == "CipherPay: Payment Received\n\nYour settlement payment has been confirmed. Your account is fully active.\n\nThank you.\n\n\u{2014} CipherPay"@,
{
    Mail {
        template: "payment_confirmed",
        entity_id: cycle_id.to_string(),
        subject: "CipherPay: Payment Received",
        body: "CipherPay: Payment Received\n\nYour settlement payment has been confirmed. Your account is fully active.\n\nThank you.\n\n\u{2014} CipherPay".to_string(),
    }
}

/// The mail about a reduced rate that ends soon; the rate is given as it is
/// printed.
pub fn discount_expiry_warning_mail(merchant_id: &str, rate: &str, effective_date: &str) -> (r:
    Mail)
    ensures
        r.template@ == "discount_expiry_warning"@,
        r.entity_id@ == merchant_id@,
        r.subject@ == "CipherPay: Fee Rate Change Coming"@,
        r.body@ == "CipherPay: Fee Rate Change\n\nYour reduced fee rate ends on "@ + effective_date@
            + ".\nStarting that date, your fee rate will return to the standard "@ + rate@
            + "%.\n\nNo action needed \u{2014} this is just a heads-up.\n\n\u{2014} CipherPay"@,
{
    let a: String = join3(
        "CipherPay: Fee Rate Change\n\nYour reduced fee rate ends on ",
        effective_date,
        ".\nStarting that date, your fee rate will return to the standard ",
    );
    Mail {
        template: "discount_expiry_warning",
        entity_id: merchant_id.to_string(),
        subject: "CipherPay: Fee Rate Change Coming",
        body: join3(
            a.as_str(),
            rate,
            "%.\n\nNo action needed \u{2014} this is just a heads-up.\n\n\u{2014} CipherPay",
        ),
    }
}

/// The mail about a reduced rate that ended.
pub fn discount_expired_mail(merchant_id: &str, rate: &str) -> (r: Mail)
    ensures
        r.template@ == "discount_expired"@,
        r.entity_id@ == merchant_id@,
        r.subject@ == "CipherPay: Fee Rate Updated"@,
        r.body@ == "CipherPay: Fee Rate Updated\n\nYour fee rate is now "@ + rate@
            + "% (standard rate).\nYour reduced rate period has ended. Thank you for being a CipherPay merchant.\n\n\u{2014} CipherPay"@,
{
    Mail {
        template: "discount_expired",
        entity_id: merchant_id.to_string(),
        subject: "CipherPay: Fee Rate Updated",
        body: join3(
            "CipherPay: Fee Rate Updated\n\nYour fee rate is now ",
            rate,
            "% (standard rate).\nYour reduced rate period has ended. Thank you for being a CipherPay merchant.\n\n\u{2014} CipherPay",
        ),
    }
}

// ---------------------------------------------------------------------------
// Each mail once
// ---------------------------------------------------------------------------

/// A mail that was sent.
pub struct SentMail {
    pub merchant_id: String,
    pub template: String,
    pub entity_id: String,
    pub sent_at: String,
}

/// The mails that were sent.
pub struct MailLog {
    pub sent: Vec<SentMail>,
}

impl MailLog {
    /// Whether a mail of a kind about a thing was sent to a merchant.
    pub open spec fn is_sent(
        &self,
        merchant_id: Seq<char>,
        template: Seq<char>,
        entity_id: Seq<char>,
    ) -> bool {
        exists|i: int|
            0 <= i < self.sent@.len() && (#[trigger] self.sent@[i]).merchant_id@ == merchant_id
                && self.sent@[i].template@ == template && self.sent@[i].entity_id@ == entity_id
    }

    pub fn new() -> (r: MailLog)
        ensures
            r.sent@.len() == 0,
    {
        MailLog { sent: Vec::new() }
    }

    /// Whether a mail of a kind about a thing was sent to a merchant.
    pub fn email_already_sent(&self, merchant_id: &str, template: &str, entity_id: &str) -> (r:
        bool)
        ensures
            r == self.is_sent(merchant_id@, template@, entity_id@),
    {
        let mut i: usize = 0;
        while i < self.sent.len()
            invariant
                i <= self.sent@.len(),
                forall|k: int|
                    0 <= k < i ==> !((#[trigger] self.sent@[k]).merchant_id@ == merchant_id@
                        && self.sent@[k].template@ == template@ && self.sent@[k].entity_id@
                        == entity_id@),
            decreases self.sent@.len() - i,
        {
            if text_eq(self.sent[i].merchant_id.as_str(), merchant_id) && text_eq(
                self.sent[i].template.as_str(),
                template,
            ) && text_eq(self.sent[i].entity_id.as_str(), entity_id) {
                return true;
            }
            i = i + 1;
        }
        false
    }

    /// Whether a mail is to be sent: mail is configured, and it was not sent
    /// before.
    pub fn to_be_sent(&self, config: &Config, merchant_id: &str, mail: &Mail) -> (r: bool)
        ensures
            r == (config.smtp_host is Some && config.smtp_from is Some && !self.is_sent(
                merchant_id@,
                mail.template@,
                mail.entity_id@,
            )),
    {
        config.smtp_configured() && !self.email_already_sent(
            merchant_id,
            mail.template,
            mail.entity_id.as_str(),
        )
    }

    /// Notes that a mail was sent, unless that was noted before.
    pub fn record_email_sent(
        &mut self,
        merchant_id: &str,
        template: &str,
        entity_id: &str,
        now: &str,
    )
        ensures
            final(self).is_sent(merchant_id@, template@, entity_id@),
            if old(self).is_sent(merchant_id@, template@, entity_id@) {
                *final(self) == *old(self)
            } else {
                let m = final(self).sent@.last();
                &&& final(self).sent@.len() == old(self).sent@.len() + 1
                &&& final(self).sent@.drop_last() == old(self).sent@
                &&& m.merchant_id@ == merchant_id@
                &&& m.template@ == template@
                &&& m.entity_id@ == entity_id@
                &&& m.sent_at@ == now@
            },
    {
        if self.email_already_sent(merchant_id, template, entity_id) {
            return;
        }
        let ghost before = self.sent@;
        self.sent.push(
            SentMail {
                merchant_id: merchant_id.to_string(),
                template: template.to_string(),
                entity_id: entity_id.to_string(),
                sent_at: now.to_string(),
            },
        );
        assert(self.sent@.drop_last() =~= before);
        assert(self.sent@[before.len() as int].merchant_id@ == merchant_id@);
    }
}

// ---------------------------------------------------------------------------
// Laws
// ---------------------------------------------------------------------------

/// A recovery mail leads to the page that confirms the token, at the site that
/// is set up or else at the local one, and says that it expires in an hour.
pub proof fn recovery_mail_leads_to_its_token(frontend_url: Option<Seq<char>>, token: Seq<char>)
    ensures
        ({
            let site = if frontend_url is Some {
                frontend_url->0
            } else {
                "http://localhost:3000"@
            };
            occurs_in(
                recovery_text(frontend_url, token),
                site + "/dashboard/recover/confirm?token="@ + token,
            )
        }),
{
    let site = if frontend_url is Some {
        frontend_url->0
    } else {
        "http://localhost:3000"@
    };
    let link = site + "/dashboard/recover/confirm?token="@ + token;
    let text = recovery_text(frontend_url, token);
    let head =
        "CipherPay Account Recovery\n\nSomeone requested a recovery link for the merchant account associated with this email.\n\nClick the link below to get a new dashboard token:\n"@;
    let foot =
        "\n\nThis link expires in 1 hour.\n\nIf you did not request this, you can safely ignore this email.\n\n\u{2014} CipherPay"@;
    text_occurs_where_it_stands(head, link, foot);
    assert(text =~= head + link + foot);
}

/// Mails lead to the site that is set up, or else to the one they name.
pub proof fn mails_lead_to_the_site(frontend_url: Option<Seq<char>>, default: Seq<char>)
    ensures
        frontend_url matches Some(u) ==> site_of(frontend_url, default) == u,
        frontend_url is None ==> site_of(frontend_url, default) == default,
{
}

/// A mail was sent where the log holds it for that merchant, of that kind and
/// about that matter.
pub proof fn sent_mail_is_in_the_log(log: MailLog, i: int, merchant_id: Seq<char>)
    requires
        0 <= i < log.sent@.len(),
    ensures
        log.is_sent(
            log.sent@[i].merchant_id@,
            log.sent@[i].template@,
            log.sent@[i].entity_id@,
        ),
        (forall|k: int|
            0 <= k < log.sent@.len() ==> (#[trigger] log.sent@[k]).merchant_id@ != merchant_id)
            ==> forall|t: Seq<char>, e: Seq<char>| !#[trigger] log.is_sent(merchant_id, t, e),
{
}

} // verus!
