//! Payment links: addresses under which a price can be paid or a donation be
//! made.

use vstd::prelude::*;

use crate::catalog::{is_web_url, web_url};
use crate::ids::{is_hyphenated, is_lower_hex, new_id, new_simple_id};
use crate::invoices::Invoice;
use crate::products::Product;
use crate::text::{chars_of, join2, opt_text, starts_with, text_between, text_eq, trim, trimmed};

verus! {

/// Smallest donation, in cents, where none is set.
pub const DEFAULT_MIN_DONATION: i64 = 100;

/// Largest donation, in cents, where none is set.
pub const DEFAULT_MAX_DONATION: i64 = 1_000_000;

#[derive(Debug)]
pub struct PaymentLink {
    pub id: String,
    pub merchant_id: String,
    pub price_id: Option<String>,
    pub slug: String,
    pub name: Option<String>,
    pub success_url: Option<String>,
    pub metadata: Option<String>,
    pub active: i32,
    pub total_created: i32,
    pub mode: String,
    pub donation_config: Option<String>,
    pub total_raised: i64,
    pub created_at: String,
}

#[derive(Debug)]
pub struct DonationConfig {
    pub mission: Option<String>,
    pub thank_you: Option<String>,
    pub suggested_amounts: Option<Vec<i64>>,
    pub currency: String,
    pub min_amount: Option<i64>,
    pub max_amount: Option<i64>,
    pub campaign_name: Option<String>,
    pub campaign_goal: Option<i64>,
    pub cover_image_url: Option<String>,
    pub cover_image_position: Option<String>,
    pub contact_email: Option<String>,
    pub website_url: Option<String>,
    pub social_share_text: Option<String>,
}

impl DonationConfig {
    pub open spec fn spec_min(&self) -> i64 {
        match self.min_amount {
            Some(m) => m,
            None => DEFAULT_MIN_DONATION,
        }
    }

    pub open spec fn spec_max(&self) -> i64 {
        match self.max_amount {
            Some(m) => m,
            None => DEFAULT_MAX_DONATION,
        }
    }

    /// The smallest donation, in cents.
    pub fn effective_min(&self) -> (r: i64)
        ensures
            r == self.spec_min(),
    {
        match self.min_amount {
            Some(m) => m,
            None => DEFAULT_MIN_DONATION,
        }
    }

    /// The largest donation, in cents.
    pub fn effective_max(&self) -> (r: i64)
        ensures
            r == self.spec_max(),
    {
        match self.max_amount {
            Some(m) => m,
            None => DEFAULT_MAX_DONATION,
        }
    }
}

/// A request for a payment link; the metadata are given as text.
#[derive(Debug)]
pub struct CreatePaymentLinkRequest {
    pub price_id: String,
    pub name: Option<String>,
    pub success_url: Option<String>,
    pub metadata: Option<String>,
}

#[derive(Debug)]
pub struct CreateDonationLinkRequest {
    pub name: String,
    pub mission: Option<String>,
    pub thank_you: Option<String>,
    pub suggested_amounts: Option<Vec<i64>>,
    pub currency: Option<String>,
    pub min_amount: Option<i64>,
    pub max_amount: Option<i64>,
    pub campaign_name: Option<String>,
    pub campaign_goal: Option<i64>,
    pub cover_image_url: Option<String>,
    pub cover_image_position: Option<String>,
    pub contact_email: Option<String>,
    pub website_url: Option<String>,
    pub social_share_text: Option<String>,
    pub success_url: Option<String>,
}

/// A request to change a payment link; metadata and donation settings are
/// given as text.
#[derive(Debug)]
pub struct UpdatePaymentLinkRequest {
    pub name: Option<String>,
    pub success_url: Option<String>,
    pub active: Option<bool>,
    pub metadata: Option<String>,
    pub donation_config: Option<String>,
}

/// Why a payment link is not made or changed.
#[derive(Debug, Clone, Copy, PartialEq, Eq, Structural)]
pub enum LinkError {
    PriceInactive,
    PriceNotFound,
    ForeignPrice,
    ProductInactive,
    ProductNotFound,
    InvalidSuccessUrl,
    NameRequired,
    InvalidCoverUrl,
    InvalidWebsiteUrl,
    GoalRequired,
    ForeignLink,
}

impl LinkError {
    pub open spec fn spec_message(self) -> Seq<char> {
        match self {
            LinkError::PriceInactive => "Price is not active"@,
            LinkError::PriceNotFound => "Price not found"@,
            LinkError::ForeignPrice => "Price does not belong to this merchant"@,
            LinkError::ProductInactive => "Product is not active"@,
            LinkError::ProductNotFound => "Product not found"@,
            LinkError::InvalidSuccessUrl => "success_url must be a valid HTTP(S) URL"@,
            LinkError::NameRequired => "name is required for donation links"@,
            LinkError::InvalidCoverUrl => "cover_image_url must be an HTTPS URL"@,
            LinkError::InvalidWebsiteUrl => "website_url must be a valid HTTP(S) URL"@,
            LinkError::GoalRequired => "campaign_goal is required when campaign_name is set"@,
            LinkError::ForeignLink => "Payment link does not belong to this merchant"@,
        }
    }

    pub fn message(&self) -> (r: &'static str)
        ensures
            r@ == self.spec_message(),
    {
        match self {
            LinkError::PriceInactive => "Price is not active",
            LinkError::PriceNotFound => "Price not found",
            LinkError::ForeignPrice => "Price does not belong to this merchant",
            LinkError::ProductInactive => "Product is not active",
            LinkError::ProductNotFound => "Product not found",
            LinkError::InvalidSuccessUrl => "success_url must be a valid HTTP(S) URL",
            LinkError::NameRequired => "name is required for donation links",
            LinkError::InvalidCoverUrl => "cover_image_url must be an HTTPS URL",
            LinkError::InvalidWebsiteUrl => "website_url must be a valid HTTP(S) URL",
            LinkError::GoalRequired => "campaign_goal is required when campaign_name is set",
            LinkError::ForeignLink => "Payment link does not belong to this merchant",
        }
    }
}

/// Whether a text is the web address of a link: the prefix and twelve
/// lowercase hexadecimal digits.
pub open spec fn is_link_slug(s: Seq<char>) -> bool {
    &&& s.len() == 15
    &&& "pl_"@.is_prefix_of(s)
    &&& forall|i: int| 3 <= i < 15 ==> is_lower_hex(#[trigger] s[i])
}

/// Draws the web address of a link.
pub fn generate_slug() -> (r: String)
    ensures
        is_link_slug(r@),
{
    let id: String = new_simple_id();
    let x: Vec<char> = chars_of(id.as_str());
    let tail: String = text_between(&x, 0, 12);
    let r: String = join2("pl_", tail.as_str());
    proof {
        reveal_strlit("pl_");
        assert(r@.subrange(0, 3) =~= "pl_"@);
        assert forall|i: int| 3 <= i < 15 implies is_lower_hex(#[trigger] r@[i]) by {
            assert(r@[i] == id@[i - 3]);
        }
    }
    r
}

/// Whether an address that was left out or is one of the web.
pub open spec fn url_ok(url: Option<String>) -> bool {
    url matches Some(u) ==> is_web_url(u@)
}

fn check_url(url: &Option<String>) -> (r: bool)
    ensures
        r == url_ok(*url),
{
    match url {
        Some(u) => web_url(u.as_str()),
        None => true,
    }
}

/// Why a payment link is refused, if it is. `price_active` is what is known of
/// the price.
pub open spec fn creation_error(
    merchant_id: Seq<char>,
    req: &CreatePaymentLinkRequest,
    price_active: Option<i32>,
    product: Option<&Product>,
) -> Option<LinkError> {
    match price_active {
        None => Some(LinkError::PriceNotFound),
        Some(a) => if a != 1 {
            Some(LinkError::PriceInactive)
        } else {
            match product {
                None => Some(LinkError::ProductNotFound),
                Some(p) => if p.merchant_id@ != merchant_id {
                    Some(LinkError::ForeignPrice)
                } else if p.active != 1 {
                    Some(LinkError::ProductInactive)
                } else if !url_ok(req.success_url) {
                    Some(LinkError::InvalidSuccessUrl)
                } else {
                    None
                },
            }
        },
    }
}

/// The name that a link shows: its own, or that of its product.
pub open spec fn display_name(req: &CreatePaymentLinkRequest, product: &Product) -> Seq<char> {
    match req.name {
        Some(n) => if n@.len() > 0 {
            n@
        } else {
            product.name@
        },
        None => product.name@,
    }
}

/// Whether a link is new: nothing was made or raised through it.
pub open spec fn is_new_link(l: &PaymentLink, merchant_id: Seq<char>, now: Seq<char>) -> bool {
    &&& is_hyphenated(l.id@)
    &&& l.merchant_id@ == merchant_id
    &&& is_link_slug(l.slug@)
    &&& l.active == 1
    &&& l.total_created == 0
    &&& l.total_raised == 0
    &&& l.created_at@ == now
}

/// Makes a link under which a price is paid.
pub fn create_payment_link(
    merchant_id: &str,
    req: &CreatePaymentLinkRequest,
    price_active: Option<i32>,
    product: Option<&Product>,
    now: &str,
) -> (r: Result<PaymentLink, LinkError>)
    ensures
        match r {
            Err(e) => creation_error(merchant_id@, req, price_active, product) == Some(e),
            Ok(l) => {
                &&& creation_error(merchant_id@, req, price_active, product) is None
                &&& is_new_link(&l, merchant_id@, now@)
                &&& opt_text(l.price_id) == Some(req.price_id@)
                &&& product matches Some(p)
                &&& opt_text(l.name) == Some(display_name(req, p))
                &&& opt_text(l.success_url) == opt_text(req.success_url)
                &&& opt_text(l.metadata) == opt_text(req.metadata)
                &&& l.mode@ == "payment"@
                &&& l.donation_config is None
            },
        },
{
    match price_active {
        None => {
            return Err(LinkError::PriceNotFound);
        },
        Some(a) => {
            if a != 1 {
                return Err(LinkError::PriceInactive);
            }
        },
    }
    let p: &Product = match product {
        None => {
            return Err(LinkError::ProductNotFound);
        },
        Some(p) => p,
    };
    if !text_eq(p.merchant_id.as_str(), merchant_id) {
        return Err(LinkError::ForeignPrice);
    }
    if p.active != 1 {
        return Err(LinkError::ProductInactive);
    }
    if !check_url(&req.success_url) {
        return Err(LinkError::InvalidSuccessUrl);
    }
    let name: String = match &req.name {
        Some(n) => if !n.as_str().is_empty() {
            n.clone()
        } else {
            p.name.clone()
        },
        None => p.name.clone(),
    };
    Ok(
        PaymentLink {
            id: new_id(),
            merchant_id: merchant_id.to_string(),
            price_id: Some(req.price_id.clone()),
            slug: generate_slug(),
            name: Some(name),
            success_url: req.success_url.clone(),
            metadata: req.metadata.clone(),
            active: 1,
            total_created: 0,
            mode: "payment".to_string(),
            donation_config: None,
            total_raised: 0,
            created_at: now.to_string(),
        },
    )
}

/// Why a donation link is refused, if it is.
pub open spec fn donation_error(req: &CreateDonationLinkRequest) -> Option<LinkError> {
    if trimmed(req.name@).len() == 0 {
        Some(LinkError::NameRequired)
    } else if req.cover_image_url matches Some(u) && !"https://"@.is_prefix_of(u@) {
        Some(LinkError::InvalidCoverUrl)
    } else if !url_ok(req.website_url) {
        Some(LinkError::InvalidWebsiteUrl)
    } else if !url_ok(req.success_url) {
        Some(LinkError::InvalidSuccessUrl)
    } else if req.campaign_name is Some && req.campaign_goal is None {
        Some(LinkError::GoalRequired)
    } else {
        None
    }
}

/// Whether settings are those that a request gives.
pub open spec fn configured(c: &DonationConfig, req: &CreateDonationLinkRequest) -> bool {
    &&& opt_text(c.mission) == opt_text(req.mission)
    &&& opt_text(c.thank_you) == opt_text(req.thank_you)
    &&& match (c.suggested_amounts, req.suggested_amounts) {
        (Some(a), Some(b)) => a@ == b@,
        (None, None) => true,
        _ => false,
    }
    &&& c.currency@ == match req.currency {
        Some(x) => x@,
        None => "USD"@,
    }
    &&& c.min_amount == req.min_amount
    &&& c.max_amount == req.max_amount
    &&& opt_text(c.campaign_name) == opt_text(req.campaign_name)
    &&& c.campaign_goal == req.campaign_goal
    &&& opt_text(c.cover_image_url) == opt_text(req.cover_image_url)
    &&& opt_text(c.cover_image_position) == opt_text(req.cover_image_position)
    &&& opt_text(c.contact_email) == opt_text(req.contact_email)
    &&& opt_text(c.website_url) == opt_text(req.website_url)
    &&& opt_text(c.social_share_text) == opt_text(req.social_share_text)
}

/// Makes a link under which donations are made: the link, to be stored with
/// the settings as text, and the settings.
pub fn create_donation_link(merchant_id: &str, req: &CreateDonationLinkRequest, now: &str) -> (r:
    Result<(PaymentLink, DonationConfig), LinkError>)
    ensures
        match r {
            Err(e) => donation_error(req) == Some(e),
            Ok(x) => {
                &&& donation_error(req) is None
                &&& is_new_link(&x.0, merchant_id@, now@)
                &&& x.0.price_id is None
                &&& opt_text(x.0.name) == Some(trimmed(req.name@))
                &&& opt_text(x.0.success_url) == opt_text(req.success_url)
                &&& x.0.metadata is None
                &&& x.0.mode@ == "donation"@
                &&& x.0.donation_config is None
                &&& configured(&x.1, req)
            },
        },
{
    let name: String = trim(req.name.as_str());
    if name.as_str().is_empty() {
        return Err(LinkError::NameRequired);
    }
    match &req.cover_image_url {
        Some(u) => {
            if !starts_with(u.as_str(), "https://") {
                return Err(LinkError::InvalidCoverUrl);
            }
        },
        None => {},
    }
    if !check_url(&req.website_url) {
        return Err(LinkError::InvalidWebsiteUrl);
    }
    if !check_url(&req.success_url) {
        return Err(LinkError::InvalidSuccessUrl);
    }
    if req.campaign_name.is_some() && req.campaign_goal.is_none() {
        return Err(LinkError::GoalRequired);
    }
    let amounts: Option<Vec<i64>> = match &req.suggested_amounts {
        Some(v) => Some(v.clone()),
        None => None,
    };
    let currency: String = match &req.currency {
        Some(c) => c.clone(),
        None => "USD".to_string(),
    };
    let config: DonationConfig = DonationConfig {
        mission: req.mission.clone(),
        thank_you: req.thank_you.clone(),
        suggested_amounts: amounts,
        currency,
        min_amount: req.min_amount,
        max_amount: req.max_amount,
        campaign_name: req.campaign_name.clone(),
        campaign_goal: req.campaign_goal,
        cover_image_url: req.cover_image_url.clone(),
        cover_image_position: req.cover_image_position.clone(),
        contact_email: req.contact_email.clone(),
        website_url: req.website_url.clone(),
        social_share_text: req.social_share_text.clone(),
    };
    let link: PaymentLink = PaymentLink {
        id: new_id(),
        merchant_id: merchant_id.to_string(),
        price_id: None,
        slug: generate_slug(),
        name: Some(name),
        success_url: req.success_url.clone(),
        metadata: None,
        active: 1,
        total_created: 0,
        mode: "donation".to_string(),
        donation_config: None,
        total_raised: 0,
        created_at: now.to_string(),
    };
    Ok((link, config))
}

impl PaymentLink {
    pub open spec fn donates(&self) -> bool {
        self.mode@ == "donation"@
    }

    /// Whether donations are made under the link.
    pub fn is_donation(&self) -> (r: bool)
        ensures
            r == self.donates(),
    {
        text_eq(self.mode.as_str(), "donation")
    }

    /// Why a change is refused, if it is. An empty address is allowed: it
    /// takes the address away.
    pub open spec fn update_error(
        &self,
        merchant_id: Seq<char>,
        req: &UpdatePaymentLinkRequest,
    ) -> Option<LinkError> {
        if self.merchant_id@ != merchant_id {
            Some(LinkError::ForeignLink)
        } else if req.success_url matches Some(u) && u@.len() > 0 && !is_web_url(u@) {
            Some(LinkError::InvalidSuccessUrl)
        } else {
            None
        }
    }

    /// Changes the fields that are given; donation settings on a donation link
    /// only.
    pub fn update(&mut self, merchant_id: &str, req: &UpdatePaymentLinkRequest) -> (r: Result<
        (),
        LinkError,
    >)
        ensures
            match r {
                Err(e) => old(self).update_error(merchant_id@, req) == Some(e) && *final(self)
                    == *old(self),
                Ok(_) => {
                    &&& old(self).update_error(merchant_id@, req) is None
                    &&& opt_text(final(self).name) == Some(
                        match req.name {
                            Some(n) => n@,
                            None => match old(self).name {
                                Some(n) => n@,
                                None => Seq::empty(),
                            },
                        },
                    )
                    &&& opt_text(final(self).success_url) == match req.success_url {
                        Some(u) => Some(u@),
                        None => opt_text(old(self).success_url),
                    }
                    &&& final(self).active == match req.active {
                        Some(true) => 1i32,
                        Some(false) => 0i32,
                        None => old(self).active,
                    }
                    &&& opt_text(final(self).metadata) == match req.metadata {
                        Some(m) => Some(m@),
                        None => opt_text(old(self).metadata),
                    }
                    &&& opt_text(final(self).donation_config) == if old(self).donates()
                        && req.donation_config is Some {
                        opt_text(req.donation_config)
                    } else {
                        opt_text(old(self).donation_config)
                    }
                    &&& *final(self) == (PaymentLink {
                        name: final(self).name,
                        success_url: final(self).success_url,
                        active: final(self).active,
                        metadata: final(self).metadata,
                        donation_config: final(self).donation_config,
                        ..*old(self)
                    })
                },
            },
    {
        if !text_eq(self.merchant_id.as_str(), merchant_id) {
            return Err(LinkError::ForeignLink);
        }
        match &req.success_url {
            Some(u) => {
                if !u.as_str().is_empty() && !web_url(u.as_str()) {
                    return Err(LinkError::InvalidSuccessUrl);
                }
            },
            None => {},
        }
        match &req.name {
            Some(n) => {
                self.name = Some(n.clone());
            },
            None => {
                if self.name.is_none() {
                    self.name = Some(String::new());
                }
            },
        }
        match &req.success_url {
            Some(u) => {
                self.success_url = Some(u.clone());
            },
            None => {},
        }
        match req.active {
            Some(a) => {
                self.active = if a {
                    1
                } else {
                    0
                };
            },
            None => {},
        }
        match &req.metadata {
            Some(m) => {
                self.metadata = Some(m.clone());
            },
            None => {},
        }
        if self.is_donation() {
            match &req.donation_config {
                Some(c) => {
                    self.donation_config = Some(c.clone());
                },
                None => {},
            }
        }
        Ok(())
    }

    /// Counts an invoice that was made through the link.
    pub fn increment_created(&mut self)
        requires
            old(self).total_created < i32::MAX,
        ensures
            *final(self) == (PaymentLink {
                total_created: (old(self).total_created + 1) as i32,
                ..*old(self)
            }),
    {
        self.total_created = self.total_created + 1;
    }

    /// Adds a confirmed donation, in cents, to what was raised.
    pub fn increment_raised(&mut self, amount_cents: i64)
        requires
            i64::MIN <= old(self).total_raised + amount_cents <= i64::MAX,
        ensures
            *final(self) == (PaymentLink {
                total_raised: (old(self).total_raised + amount_cents) as i64,
                ..*old(self)
            }),
    {
        self.total_raised = self.total_raised + amount_cents;
    }
}

/// Whether the second pair of an invoice and its link is the first one once the
/// donation was counted, in cents. A donation that was counted stays as it is.
pub open spec fn donation_counted(
    inv: &Invoice,
    link: &PaymentLink,
    after: &Invoice,
    after_link: &PaymentLink,
    cents: i64,
) -> bool {
    if inv.campaign_counted == 0 {
        &&& *after == (Invoice { campaign_counted: 1, ..*inv })
        &&& *after_link == (PaymentLink {
            total_raised: (link.total_raised + cents) as i64,
            ..*link
        })
    } else {
        *after == *inv && *after_link == *link
    }
}

/// Counts a confirmed donation for its campaign. Gives whether it was not
/// counted before.
pub fn count_donation(inv: &mut Invoice, link: &mut PaymentLink, cents: i64) -> (r: bool)
    requires
        i64::MIN <= old(link).total_raised + cents <= i64::MAX,
    ensures
        r == (old(inv).campaign_counted == 0),
        donation_counted(old(inv), old(link), final(inv), final(link), cents),
{
    if inv.campaign_counted == 0 {
        inv.campaign_counted = 1;
        link.increment_raised(cents);
        true
    } else {
        false
    }
}

/// However often a donation is counted, it counts once.
pub proof fn donation_counts_once(
    inv: Invoice,
    link: PaymentLink,
    first: Invoice,
    first_link: PaymentLink,
    second: Invoice,
    second_link: PaymentLink,
    cents: i64,
)
    requires
        donation_counted(&inv, &link, &first, &first_link, cents),
        donation_counted(&first, &first_link, &second, &second_link, cents),
    ensures
        second == first,
        second_link == first_link,
{
}

/// Whether a link is the one of a merchant that is asked for.
pub open spec fn is_own_link(l: &PaymentLink, id: Seq<char>, merchant_id: Seq<char>) -> bool {
    l.id@ == id && l.merchant_id@ == merchant_id
}

/// Removes a link of a merchant. Gives whether there was one; what is kept is
/// what is not the merchant's link with that identifier.
pub fn delete_payment_link(links: &mut Vec<PaymentLink>, id: &str, merchant_id: &str) -> (r: bool)
    ensures
        final(links)@ == old(links)@.filter(
            |l: PaymentLink| !is_own_link(&l, id@, merchant_id@),
        ),
        r == (final(links)@.len() != old(links)@.len()),
{
    let ghost before = links@;
    let ghost keep = |l: PaymentLink| !is_own_link(&l, id@, merchant_id@);
    let n: usize = links.len();
    let mut left: Vec<PaymentLink> = Vec::new();
    let mut i: usize = 0;
    while i < n
        invariant
            i <= n,
            n == before.len(),
            links@ == before.skip(i as int),
            keep == (|l: PaymentLink| !is_own_link(&l, id@, merchant_id@)),
            left@ == before.take(i as int).filter(keep),
        decreases n - i,
    {
        let l: PaymentLink = links.remove(0);
        proof {
            reveal(Seq::filter);
            assert(before.take(i + 1).drop_last() =~= before.take(i as int));
            assert(before.take(i + 1).last() == l);
            assert(links@ =~= before.skip(i + 1));
        }
        if !(text_eq(l.id.as_str(), id) && text_eq(l.merchant_id.as_str(), merchant_id)) {
            left.push(l);
        }
        i = i + 1;
    }
    assert(before.take(n as int) =~= before);
    let removed: bool = left.len() != n;
    *links = left;
    removed
}

// ---------------------------------------------------------------------------
// Laws
// ---------------------------------------------------------------------------

/// Between one unit of currency and ten thousand is given where nothing else is
/// set up.
pub proof fn donation_limits_have_defaults(config: DonationConfig)
    ensures
        config.min_amount is None ==> config.spec_min() == 100,
        config.max_amount is None ==> config.spec_max() == 1_000_000,
        config.min_amount matches Some(m) ==> config.spec_min() == m,
        config.max_amount matches Some(m) ==> config.spec_max() == m,
{
}

/// The name of a link in addresses is a prefix and twelve hexadecimal digits in
/// lower case.
pub proof fn link_name_is_prefix_and_digits(s: Seq<char>)
    requires
        is_link_slug(s),
    ensures
        s.len() == 15,
        s[0] == 'p' && s[1] == 'l' && s[2] == '_',
        forall|i: int| 3 <= i < 15 ==> is_lower_hex(#[trigger] s[i]),
{
    reveal_strlit("pl_");
    assert("pl_"@ =~= s.take(3));
    assert(s[0] == s.take(3)[0] && s[1] == s.take(3)[1] && s[2] == s.take(3)[2]);
}

/// A link is made exactly for a price and a product that are on sale, of the
/// merchant's own, with a web address to return to or none. The first of these
/// that fails is the error.
pub proof fn link_is_made_for_what_is_on_sale(
    merchant_id: Seq<char>,
    req: &CreatePaymentLinkRequest,
    price_active: Option<i32>,
    product: Option<&Product>,
)
    ensures
        ({
            let e = creation_error(merchant_id, req, price_active, product);
            let priced = price_active == Some(1i32);
            let own = product is Some && product->0.merchant_id@ == merchant_id;
            let sold = own && product->0.active == 1;
            let back = req.success_url is None || "https://"@.is_prefix_of(req.success_url->0@)
                || "http://"@.is_prefix_of(req.success_url->0@);
            &&& price_active is None <==> e == Some(LinkError::PriceNotFound)
            &&& price_active is Some && !priced <==> e == Some(LinkError::PriceInactive)
            &&& priced && product is None <==> e == Some(LinkError::ProductNotFound)
            &&& priced && product is Some && !own <==> e == Some(LinkError::ForeignPrice)
            &&& priced && own && !sold <==> e == Some(LinkError::ProductInactive)
            &&& priced && sold && !back <==> e == Some(LinkError::InvalidSuccessUrl)
            &&& priced && sold && back <==> e is None
        }),
{
}

/// A donation link needs a name that is not blank, an image over a secure
/// connection, web addresses, and a goal where there is a campaign.
pub proof fn donation_link_is_well_set_up(req: &CreateDonationLinkRequest)
    ensures
        ({
            let e = donation_error(req);
            let named = trimmed(req.name@).len() > 0;
            let image = req.cover_image_url is None || "https://"@.is_prefix_of(
                req.cover_image_url->0@,
            );
            let site = req.website_url is None || "https://"@.is_prefix_of(req.website_url->0@)
                || "http://"@.is_prefix_of(req.website_url->0@);
            let back = req.success_url is None || "https://"@.is_prefix_of(req.success_url->0@)
                || "http://"@.is_prefix_of(req.success_url->0@);
            let goal = req.campaign_name is None || req.campaign_goal is Some;
            &&& !named <==> e == Some(LinkError::NameRequired)
            &&& named && !image <==> e == Some(LinkError::InvalidCoverUrl)
            &&& named && image && !site <==> e == Some(LinkError::InvalidWebsiteUrl)
            &&& named && image && site && !back <==> e == Some(LinkError::InvalidSuccessUrl)
            &&& named && image && site && back && !goal <==> e == Some(LinkError::GoalRequired)
            &&& named && image && site && back && goal <==> e is None
        }),
{
}

/// A link is changed by its own merchant only, and to a web address or an empty
/// one.
pub proof fn link_is_changed_by_its_merchant(
    link: &PaymentLink,
    merchant_id: Seq<char>,
    req: &UpdatePaymentLinkRequest,
)
    ensures
        ({
            let e = link.update_error(merchant_id, req);
            let own = link.merchant_id@ == merchant_id;
            let back = req.success_url is None || req.success_url->0@.len() == 0
                || "https://"@.is_prefix_of(req.success_url->0@) || "http://"@.is_prefix_of(
                req.success_url->0@,
            );
            &&& !own <==> e == Some(LinkError::ForeignLink)
            &&& own && !back <==> e == Some(LinkError::InvalidSuccessUrl)
            &&& own && back <==> e is None
        }),
{
}

/// A new link is active and has sold and raised nothing.
pub proof fn new_link_is_blank(l: &PaymentLink, merchant_id: Seq<char>, now: Seq<char>)
    requires
        is_new_link(l, merchant_id, now),
    ensures
        l.active == 1,
        l.total_created == 0 && l.total_raised == 0,
        l.merchant_id@ == merchant_id,
        l.created_at@ == now,
        is_link_slug(l.slug@),
{
}

/// A link shows the name that was asked for, or else the product's.
pub proof fn link_shows_a_name(req: &CreatePaymentLinkRequest, product: &Product)
    ensures
        req.name is Some && req.name->0@.len() > 0 ==> display_name(req, product) == req.name->0@,
        req.name is None || req.name->0@.len() == 0 ==> display_name(req, product)
            == product.name@,
{
}

/// A donation link takes over what was asked for, in dollars where no currency
/// was named.
pub proof fn donation_is_set_up_as_asked(c: &DonationConfig, req: &CreateDonationLinkRequest)
    requires
        configured(c, req),
    ensures
        c.min_amount == req.min_amount && c.max_amount == req.max_amount,
        c.campaign_goal == req.campaign_goal,
        opt_text(c.campaign_name) == opt_text(req.campaign_name),
        opt_text(c.mission) == opt_text(req.mission) && opt_text(c.thank_you) == opt_text(
            req.thank_you,
        ),
        opt_text(c.cover_image_url) == opt_text(req.cover_image_url),
        opt_text(c.website_url) == opt_text(req.website_url),
        opt_text(c.contact_email) == opt_text(req.contact_email),
        opt_text(c.cover_image_position) == opt_text(req.cover_image_position),
        opt_text(c.social_share_text) == opt_text(req.social_share_text),
        req.currency is None ==> c.currency@ == "USD"@,
        req.currency matches Some(x) ==> c.currency@ == x@,
        c.suggested_amounts is Some <==> req.suggested_amounts is Some,
        c.suggested_amounts is Some ==> c.suggested_amounts->0@ == req.suggested_amounts->0@,
{
}

/// A donation raises its campaign by what was given, once, and changes nothing
/// else.
pub proof fn donation_raises_its_campaign(
    inv: Invoice,
    link: PaymentLink,
    after: Invoice,
    after_link: PaymentLink,
    cents: i64,
)
    requires
        donation_counted(&inv, &link, &after, &after_link, cents),
        i64::MIN <= link.total_raised + cents <= i64::MAX,
    ensures
        inv.campaign_counted == 0 ==> after_link.total_raised == link.total_raised + cents
            && after.campaign_counted == 1,
        inv.campaign_counted != 0 ==> after_link == link && after == inv,
        after_link.id == link.id && after_link.active == link.active && after_link.total_created
            == link.total_created,
        after.status == inv.status && after.received_zatoshis == inv.received_zatoshis,
{
}

/// A link is found by its id, and only for its own merchant.
pub proof fn link_is_found_by_its_merchant(l: &PaymentLink, id: Seq<char>, merchant_id: Seq<char>)
    ensures
        l.id@ == id && l.merchant_id@ == merchant_id <==> is_own_link(l, id, merchant_id),
        l.mode@ == "donation"@ <==> l.donates(),
{
}

} // verus!
