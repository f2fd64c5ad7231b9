//! Requests about products and prices: what they have to hold, and which of
//! them are let through.

use vstd::prelude::*;

use crate::api::Lookup;
use crate::prices::Price;
use crate::products::{CreateProductRequest, Product, UpdateProductRequest};
use crate::text::{opt_text, text_eq};
use crate::validation::{
    add_given, add_if_given, checks_view, given, if_given, judged, no_checks, run_checks, CheckKind,
    CheckView, FieldCheck, ValidationError,
};

verus! {

/// The checks that the fields of a new product have to pass.
pub open spec fn product_create_checks_of(req: &CreateProductRequest) -> Seq<CheckView> {
    if_given("slug"@, opt_text(req.slug), CheckKind::MaxLength(100)) + given(
        "name"@,
        req.name@,
        CheckKind::MaxLength(200),
    ) + if_given("description"@, opt_text(req.description), CheckKind::MaxLength(2000))
}

/// The checks that the fields of a new product have to pass.
pub fn product_create_checks(req: &CreateProductRequest) -> (r: Vec<FieldCheck>)
    ensures
        checks_view(r@) == product_create_checks_of(req),
{
    let mut checks: Vec<FieldCheck> = no_checks();
    add_if_given(&mut checks, "slug", &req.slug, CheckKind::MaxLength(100));
    add_given(&mut checks, "name", &req.name, CheckKind::MaxLength(200));
    add_if_given(&mut checks, "description", &req.description, CheckKind::MaxLength(2000));
    assert(checks_view(checks@) =~= product_create_checks_of(req));
    checks
}

/// Checks a request for a new product: its fields, and then its amount, of
/// which it is known whether it is at most the maximum.
pub fn validate_product_create<F: Fn(&FieldCheck) -> Result<(), ValidationError>>(
    req: &CreateProductRequest,
    amount_within_maximum: bool,
    validator: F,
) -> (r: Result<(), ValidationError>)
    requires
        forall|c: &FieldCheck| validator.requires((c,)),
    ensures
        exists|checks: Seq<FieldCheck>, j: Result<(), ValidationError>|
            checks_view(checks) == product_create_checks_of(req) && #[trigger] judged(
                checks,
                validator,
                j,
            ) && match j {
                Err(e) => r == Err::<(), ValidationError>(e),
                Ok(_) => if !req.amount_is_positive {
                    r matches Err(e) && e.field@ == "unit_amount"@ && e.message@
                        == "must be greater than 0"@
                } else if !amount_within_maximum {
                    r matches Err(e) && e.field@ == "unit_amount"@ && e.message@
                        == "exceeds maximum of 1000000"@
                } else {
                    r is Ok
                },
            },
{
    let checks: Vec<FieldCheck> = product_create_checks(req);
    let judgement: Result<(), ValidationError> = run_checks(&checks, validator);
    assert(judged(checks@, validator, judgement));
    match judgement {
        Err(e) => Err(e),
        Ok(_) => if !req.amount_is_positive {
            Err(ValidationError::invalid("unit_amount", "must be greater than 0"))
        } else if !amount_within_maximum {
            Err(ValidationError::invalid("unit_amount", "exceeds maximum of 1000000"))
        } else {
            Ok(())
        },
    }
}

/// The checks that the changed fields of a product have to pass.
pub open spec fn product_update_checks_of(req: &UpdateProductRequest) -> Seq<CheckView> {
    if_given("name"@, opt_text(req.name), CheckKind::MaxLength(200)) + if_given(
        "description"@,
        opt_text(req.description),
        CheckKind::MaxLength(2000),
    )
}

/// The checks that the changed fields of a product have to pass.
pub fn product_update_checks(req: &UpdateProductRequest) -> (r: Vec<FieldCheck>)
    ensures
        checks_view(r@) == product_update_checks_of(req),
{
    let mut checks: Vec<FieldCheck> = no_checks();
    add_if_given(&mut checks, "name", &req.name, CheckKind::MaxLength(200));
    add_if_given(&mut checks, "description", &req.description, CheckKind::MaxLength(2000));
    assert(checks_view(checks@) =~= product_update_checks_of(req));
    checks
}

/// Checks a request to change a product: its name is not made empty, and its
/// fields pass their checks.
pub fn validate_product_update<F: Fn(&FieldCheck) -> Result<(), ValidationError>>(
    req: &UpdateProductRequest,
    validator: F,
) -> (r: Result<(), ValidationError>)
    requires
        forall|c: &FieldCheck| validator.requires((c,)),
    ensures
        if opt_text(req.name) matches Some(n) && n.len() == 0 {
            r matches Err(e) && e.field@ == "name"@ && e.message@ == "must not be empty"@
        } else {
            exists|checks: Seq<FieldCheck>| #[trigger]
                checks_view(checks) == product_update_checks_of(req) && judged(checks, validator, r)
        },
{
    let empty: bool = match &req.name {
        Some(n) => n.as_str().is_empty(),
        None => false,
    };
    if empty {
        return Err(ValidationError::invalid("name", "must not be empty"));
    }
    let checks: Vec<FieldCheck> = product_update_checks(req);
    run_checks(&checks, validator)
}

/// Why a request about prices or products is not let through.
#[derive(Debug, Clone, Copy, PartialEq, Eq, Structural)]
pub enum CatalogRefusal {
    PriceNotFound,
    ProductNotFound,
    ManagedByEvent,
    AmountNotPositive,
    LookupFailed,
}

impl CatalogRefusal {
    pub open spec fn spec_reply(self) -> (u16, Seq<char>) {
        match self {
            CatalogRefusal::PriceNotFound => (404, "Price not found"@),
            CatalogRefusal::ProductNotFound => (404, "Product not found"@),
            CatalogRefusal::ManagedByEvent => (
                409,
                "This product is managed by an Event. Use /api/events endpoints."@,
            ),
            CatalogRefusal::AmountNotPositive => (400, "unit_amount must be > 0"@),
            CatalogRefusal::LookupFailed => (500, "Internal error"@),
        }
    }

    /// The HTTP status and the message.
    pub fn reply(&self) -> (r: (u16, &'static str))
        ensures
            (r.0, r.1@) == self.spec_reply(),
    {
        match self {
            CatalogRefusal::PriceNotFound => (404, "Price not found"),
            CatalogRefusal::ProductNotFound => (404, "Product not found"),
            CatalogRefusal::ManagedByEvent => (
                409,
                "This product is managed by an Event. Use /api/events endpoints.",
            ),
            CatalogRefusal::AmountNotPositive => (400, "unit_amount must be > 0"),
            CatalogRefusal::LookupFailed => (500, "Internal error"),
        }
    }
}

/// Whether a product may be changed here; one that belongs to an event is
/// changed along with it. `backed` is what was found out about that.
pub fn check_not_event(backed: &Lookup<bool>) -> (r: Result<(), CatalogRefusal>)
    ensures
        match *backed {
            Lookup::Found(true) => r == Err::<(), CatalogRefusal>(CatalogRefusal::ManagedByEvent),
            Lookup::Found(false) => r is Ok,
            _ => r == Err::<(), CatalogRefusal>(CatalogRefusal::LookupFailed),
        },
{
    match backed {
        Lookup::Found(true) => Err(CatalogRefusal::ManagedByEvent),
        Lookup::Found(false) => Ok(()),
        _ => Err(CatalogRefusal::LookupFailed),
    }
}

/// Whether a price may be added to a product.
pub fn check_price_creation(backed: &Lookup<bool>, amount_is_positive: bool) -> (r: Result<
    (),
    CatalogRefusal,
>)
    ensures
        match *backed {
            Lookup::Found(true) => r == Err::<(), CatalogRefusal>(CatalogRefusal::ManagedByEvent),
            Lookup::Found(false) => if amount_is_positive {
                r is Ok
            } else {
                r == Err::<(), CatalogRefusal>(CatalogRefusal::AmountNotPositive)
            },
            _ => r == Err::<(), CatalogRefusal>(CatalogRefusal::LookupFailed),
        },
{
    match check_not_event(backed) {
        Err(e) => Err(e),
        Ok(_) => if amount_is_positive {
            Ok(())
        } else {
            Err(CatalogRefusal::AmountNotPositive)
        },
    }
}

/// Whether a price may be changed or taken from sale.
pub fn check_price_change(price: &Lookup<Price>, backed: &Lookup<bool>) -> (r: Result<
    (),
    CatalogRefusal,
>)
    ensures
        match (*price, *backed) {
            (Lookup::Missing, _) => r == Err::<(), CatalogRefusal>(CatalogRefusal::PriceNotFound),
            (Lookup::Failed, _) => r == Err::<(), CatalogRefusal>(CatalogRefusal::LookupFailed),
            (Lookup::Found(_), Lookup::Found(true)) => r == Err::<(), CatalogRefusal>(
                CatalogRefusal::ManagedByEvent,
            ),
            (Lookup::Found(_), Lookup::Found(false)) => r is Ok,
            (Lookup::Found(_), _) => r == Err::<(), CatalogRefusal>(CatalogRefusal::LookupFailed),
        },
{
    match price {
        Lookup::Missing => Err(CatalogRefusal::PriceNotFound),
        Lookup::Failed => Err(CatalogRefusal::LookupFailed),
        Lookup::Found(_) => check_not_event(backed),
    }
}

/// The product of a merchant whose prices are asked for.
pub fn own_product(product: Lookup<Product>, merchant_id: &str) -> (r: Result<
    Product,
    CatalogRefusal,
>)
    ensures
        match r {
            Ok(p) => product == Lookup::Found(p) && p.merchant_id@ == merchant_id@,
            Err(e) => e == CatalogRefusal::ProductNotFound && !(product matches Lookup::Found(p)
                && p.merchant_id@ == merchant_id@),
        },
{
    match product {
        Lookup::Found(p) => if text_eq(p.merchant_id.as_str(), merchant_id) {
            Ok(p)
        } else {
            Err(CatalogRefusal::ProductNotFound)
        },
        _ => Err(CatalogRefusal::ProductNotFound),
    }
}

/// Whether a product can be shown to buyers.
pub open spec fn is_on_sale(product: Lookup<Product>) -> bool {
    product matches Lookup::Found(p) && p.active == 1
}

/// The product that is shown to buyers: the one with the identifier where it is
/// on sale, otherwise the one with that slug where it is.
pub fn public_product(by_id: Lookup<Product>, by_slug: Lookup<Product>) -> (r: Option<Product>)
    ensures
        match r {
            Some(p) => if is_on_sale(by_id) {
                by_id == Lookup::Found(p)
            } else {
                is_on_sale(by_slug) && by_slug == Lookup::Found(p)
            },
            None => !is_on_sale(by_id) && !is_on_sale(by_slug),
        },
{
    match by_id {
        Lookup::Found(p) => if p.active == 1 {
            return Some(p);
        },
        _ => {},
    }
    match by_slug {
        Lookup::Found(p) => if p.active == 1 {
            Some(p)
        } else {
            None
        },
        _ => None,
    }
}

/// The prices of a list that are on sale, in their order.
pub open spec fn on_sale(prices: Seq<Price>) -> Seq<Price>
    decreases prices.len(),
{
    if prices.len() == 0 {
        Seq::empty()
    } else if prices.last().active == 1 {
        on_sale(prices.drop_last()).push(prices.last())
    } else {
        on_sale(prices.drop_last())
    }
}

/// Takes the prices that are on sale from a list, the last one first.
fn take_on_sale(prices: &mut Vec<Price>) -> (r: Vec<Price>)
    ensures
        r@ == on_sale(old(prices)@).reverse(),
        final(prices)@.len() == 0,
{
    let mut taken: Vec<Price> = Vec::new();
    let ghost all = prices@;
    assert(on_sale(all).reverse() =~= taken@ + on_sale(prices@).reverse());
    while prices.len() > 0
        invariant
            on_sale(all).reverse() == taken@ + on_sale(prices@).reverse(),
        decreases prices@.len(),
    {
        let ghost before = prices@;
        let ghost had = taken@;
        match prices.pop() {
            Some(p) => {
                assert(before.drop_last() =~= prices@);
                if p.active == 1 {
                    taken.push(p);
                    assert(had + on_sale(before).reverse() =~= taken@ + on_sale(prices@).reverse());
                }
            },
            None => {},
        }
    }
    assert(on_sale(prices@).reverse() =~= Seq::<Price>::empty());
    assert(taken@ =~= on_sale(all).reverse());
    taken
}

/// The prices of a list that are on sale, in their order.
pub fn active_prices(prices: Vec<Price>) -> (r: Vec<Price>)
    ensures
        r@ == on_sale(prices@),
{
    let mut rest: Vec<Price> = prices;
    let mut taken: Vec<Price> = take_on_sale(&mut rest);
    let mut r: Vec<Price> = Vec::new();
    let ghost wanted = on_sale(prices@);
    assert(wanted =~= r@ + taken@.reverse());
    while taken.len() > 0
        invariant
            wanted == r@ + taken@.reverse(),
        decreases taken@.len(),
    {
        let ghost before = taken@;
        let ghost had = r@;
        match taken.pop() {
            Some(p) => {
                r.push(p);
                assert(had + before.reverse() =~= r@ + taken@.reverse());
            },
            None => {},
        }
    }
    assert(wanted =~= r@);
    r
}

// ---------------------------------------------------------------------------
// Laws
// ---------------------------------------------------------------------------

/// The texts of a product are held to their limits.
pub proof fn product_texts_are_limited(
    create: &CreateProductRequest,
    update: &UpdateProductRequest,
    c: CheckView,
)
    ensures
        product_create_checks_of(create).contains(c) <==> {
            ||| create.slug matches Some(t) && c == (CheckView {
                field: "slug"@,
                value: t@,
                kind: CheckKind::MaxLength(100),
            })
            ||| c == (CheckView {
                field: "name"@,
                value: create.name@,
                kind: CheckKind::MaxLength(200),
            })
            ||| create.description matches Some(t) && c == (CheckView {
                field: "description"@,
                value: t@,
                kind: CheckKind::MaxLength(2000),
            })
        },
        product_update_checks_of(update).contains(c) <==> {
            ||| update.name matches Some(t) && c == (CheckView {
                field: "name"@,
                value: t@,
                kind: CheckKind::MaxLength(200),
            })
            ||| update.description matches Some(t) && c == (CheckView {
                field: "description"@,
                value: t@,
                kind: CheckKind::MaxLength(2000),
            })
        },
{
    crate::validation::checks_add_up();
}

/// A product is on sale where it is there and active.
pub proof fn active_product_is_on_sale(product: Lookup<Product>)
    ensures
        is_on_sale(product) <==> product is Found && product->Found_0.active == 1,
{
}

/// The prices that are shown are the active ones, in their order.
pub proof fn active_prices_are_shown(prices: Seq<Price>, p: Price)
    ensures
        on_sale(Seq::<Price>::empty()).len() == 0,
        p.active == 1 ==> on_sale(prices.push(p)) == on_sale(prices).push(p),
        p.active != 1 ==> on_sale(prices.push(p)) == on_sale(prices),
{
    assert(prices.push(p).drop_last() =~= prices);
}

/// A request is refused with 400 where the request is at fault, with 404 where
/// something is not there, with 409 where it conflicts with what was done
/// before, with 500 where the service is at fault.
pub proof fn catalog_refusals_have_their_status(e: CatalogRefusal)
    ensures
        e.spec_reply().0 == 400 <==> e is AmountNotPositive,
        e.spec_reply().0 == 404 <==> e is PriceNotFound || e is ProductNotFound,
        e.spec_reply().0 == 409 <==> e is ManagedByEvent,
        e.spec_reply().0 == 500 <==> e is LookupFailed,
{
}

} // verus!
