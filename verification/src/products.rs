//! Products of merchants.

use vstd::prelude::*;

use crate::catalog::{is_supported_currency, slug_of, slugify, supported_currency};
use crate::ids::{is_hyphenated, new_id};
use crate::text::{char_is_alphanumeric, chars_of, is_alphanumeric, join2, opt_text, text_eq};

verus! {

#[derive(Debug)]
pub struct Product {
    pub id: String,
    pub merchant_id: String,
    pub slug: String,
    pub name: String,
    pub description: Option<String>,
    pub default_price_id: Option<String>,
    pub metadata: Option<String>,
    pub active: i32,
    pub created_at: String,
}

/// A request for a new product; of the amount it is known whether it is
/// positive, and the metadata are given as text.
#[derive(Debug)]
pub struct CreateProductRequest {
    pub slug: Option<String>,
    pub name: String,
    pub description: Option<String>,
    pub amount_is_positive: bool,
    pub currency: Option<String>,
    pub metadata: Option<String>,
    pub price_type: Option<String>,
    pub billing_interval: Option<String>,
    pub interval_count: Option<i32>,
}

#[derive(Debug)]
pub struct UpdateProductRequest {
    pub name: Option<String>,
    pub description: Option<String>,
    pub default_price_id: Option<String>,
    pub metadata: Option<String>,
    pub active: Option<bool>,
}

/// What became of a request to delete a product.
#[derive(Debug, Clone, Copy, PartialEq, Eq, Structural)]
pub enum DeleteOutcome {
    Deleted,
    Archived,
    NotFound,
}

/// Why a product is not made, changed or deleted.
#[derive(Debug, Clone, Copy, PartialEq, Eq, Structural)]
pub enum ProductError {
    NameOrPriceMissing,
    InvalidSlug,
    UnsupportedCurrency,
    ForeignProduct,
    ForeignDefaultPrice,
    UnknownDefaultPrice,
}

impl ProductError {
    pub open spec fn spec_message(self, currency: Seq<char>) -> Seq<char> {
        match self {
            ProductError::NameOrPriceMissing => "name required and price must be > 0"@,
            ProductError::InvalidSlug =>
                "slug must only contain letters, numbers, underscores, hyphens"@,
            ProductError::UnsupportedCurrency => "Unsupported currency: "@ + currency,
            ProductError::ForeignProduct => "Product does not belong to this merchant"@,
            ProductError::ForeignDefaultPrice =>
                "default_price_id must reference an active price belonging to this product"@,
            ProductError::UnknownDefaultPrice =>
                "default_price_id references a non-existent price"@,
        }
    }

    pub fn message(&self, currency: &str) -> (r: String)
        ensures
            r@ == self.spec_message(currency@),
    {
        match self {
            ProductError::NameOrPriceMissing => "name required and price must be > 0".to_string(),
            ProductError::InvalidSlug =>
                "slug must only contain letters, numbers, underscores, hyphens".to_string(),
            ProductError::UnsupportedCurrency => join2("Unsupported currency: ", currency),
            ProductError::ForeignProduct => "Product does not belong to this merchant".to_string(),
            ProductError::ForeignDefaultPrice =>
                "default_price_id must reference an active price belonging to this product".to_string(),
            ProductError::UnknownDefaultPrice =>
                "default_price_id references a non-existent price".to_string(),
        }
    }
}

/// Whether a web address that was chosen is allowed.
pub open spec fn is_slug(s: Seq<char>) -> bool {
    forall|i: int|
        0 <= i < s.len() ==> is_alphanumeric(#[trigger] s[i]) || s[i] == '_' || s[i] == '-'
}

/// Whether a web address that was chosen is allowed.
pub fn valid_slug(s: &str) -> (r: bool)
    ensures
        r == is_slug(s@),
{
    let x: Vec<char> = chars_of(s);
    let mut i: usize = 0;
    while i < x.len()
        invariant
            i <= x@.len(),
            x@ == s@,
            forall|k: int|
                0 <= k < i ==> is_alphanumeric(#[trigger] x@[k]) || x@[k] == '_' || x@[k] == '-',
        decreases x@.len() - i,
    {
        if !(char_is_alphanumeric(x[i]) || x[i] == '_' || x[i] == '-') {
            return false;
        }
        i = i + 1;
    }
    true
}

/// The web address that a request asks for, if it asks for one.
pub open spec fn chosen_slug(req: &CreateProductRequest) -> Option<Seq<char>> {
    match req.slug {
        Some(s) => if s@.len() > 0 {
            Some(s@)
        } else {
            None
        },
        None => None,
    }
}

/// The currency of a request, by default the euro.
pub open spec fn product_currency(req: &CreateProductRequest) -> Seq<char> {
    match req.currency {
        Some(c) => c@,
        None => "EUR"@,
    }
}

/// Why a product is not made, if it is not.
pub open spec fn creation_error(req: &CreateProductRequest) -> Option<ProductError> {
    if req.name@.len() == 0 || !req.amount_is_positive {
        Some(ProductError::NameOrPriceMissing)
    } else if chosen_slug(req) matches Some(s) && !is_slug(s) {
        Some(ProductError::InvalidSlug)
    } else if !is_supported_currency(product_currency(req)) {
        Some(ProductError::UnsupportedCurrency)
    } else {
        None
    }
}

/// Makes a new product, without a price yet.
pub fn create_product(merchant_id: &str, req: &CreateProductRequest, now: &str) -> (r: Result<
    Product,
    ProductError,
>)
    ensures
        match r {
            Err(e) => creation_error(req) == Some(e),
            Ok(p) => {
                &&& creation_error(req) is None
                &&& is_hyphenated(p.id@)
                &&& p.merchant_id@ == merchant_id@
                &&& p.slug@ == match chosen_slug(req) {
                    Some(s) => s,
                    None => slug_of(req.name@),
                }
                &&& p.name@ == req.name@
                &&& opt_text(p.description) == opt_text(req.description)
                &&& p.default_price_id is None
                &&& opt_text(p.metadata) == opt_text(req.metadata)
                &&& p.active == 1
                &&& p.created_at@ == now@
            },
        },
{
    if req.name.as_str().is_empty() || !req.amount_is_positive {
        return Err(ProductError::NameOrPriceMissing);
    }
    let slug: String = match &req.slug {
        Some(s) => if !s.as_str().is_empty() {
            if !valid_slug(s.as_str()) {
                return Err(ProductError::InvalidSlug);
            }
            s.clone()
        } else {
            slugify(req.name.as_str())
        },
        None => slugify(req.name.as_str()),
    };
    let supported: bool = match &req.currency {
        Some(c) => supported_currency(c.as_str()),
        None => supported_currency("EUR"),
    };
    if !supported {
        return Err(ProductError::UnsupportedCurrency);
    }
    Ok(
        Product {
            id: new_id(),
            merchant_id: merchant_id.to_string(),
            slug,
            name: req.name.clone(),
            description: req.description.clone(),
            default_price_id: None,
            metadata: req.metadata.clone(),
            active: 1,
            created_at: now.to_string(),
        },
    )
}

/// What is known of a price: the product that it belongs to and whether it is
/// active.
pub struct PriceRef {
    pub product_id: String,
    pub active: i32,
}

impl Product {
    /// The default price after a change.
    pub open spec fn new_default(&self, req: &UpdateProductRequest) -> Option<Seq<char>> {
        match req.default_price_id {
            Some(p) => Some(p@),
            None => opt_text(self.default_price_id),
        }
    }

    /// Why a change is refused, if it is; `price` is what is known of the
    /// default price after the change.
    pub open spec fn update_error(
        &self,
        merchant_id: Seq<char>,
        req: &UpdateProductRequest,
        price: Option<PriceRef>,
    ) -> Option<ProductError> {
        if self.merchant_id@ != merchant_id {
            Some(ProductError::ForeignProduct)
        } else if self.new_default(req) is Some {
            match price {
                Some(p) => if p.product_id@ == self.id@ && p.active == 1 {
                    None
                } else {
                    Some(ProductError::ForeignDefaultPrice)
                },
                None => Some(ProductError::UnknownDefaultPrice),
            }
        } else {
            None
        }
    }

    /// Changes the fields that are given.
    pub fn update(
        &mut self,
        merchant_id: &str,
        req: &UpdateProductRequest,
        price: &Option<PriceRef>,
    ) -> (r: Result<(), ProductError>)
        ensures
            match r {
                Err(e) => old(self).update_error(merchant_id@, req, *price) == Some(e)
                    && *final(self) == *old(self),
                Ok(_) => {
                    &&& old(self).update_error(merchant_id@, req, *price) is None
                    &&& final(self).name@ == match req.name {
                        Some(n) => n@,
                        None => old(self).name@,
                    }
                    &&& opt_text(final(self).description) == match req.description {
                        Some(d) => Some(d@),
                        None => opt_text(old(self).description),
                    }
                    &&& opt_text(final(self).default_price_id) == old(self).new_default(req)
                    &&& opt_text(final(self).metadata) == match req.metadata {
                        Some(m) => Some(m@),
                        None => opt_text(old(self).metadata),
                    }
                    &&& final(self).active == match req.active {
                        Some(true) => 1i32,
                        Some(false) => 0i32,
                        None => old(self).active,
                    }
                    &&& *final(self) == (Product {
                        name: final(self).name,
                        description: final(self).description,
                        default_price_id: final(self).default_price_id,
                        metadata: final(self).metadata,
                        active: final(self).active,
                        ..*old(self)
                    })
                },
            },
    {
        if !text_eq(self.merchant_id.as_str(), merchant_id) {
            return Err(ProductError::ForeignProduct);
        }
        if req.default_price_id.is_some() || self.default_price_id.is_some() {
            match price {
                Some(p) => {
                    if !(text_eq(p.product_id.as_str(), self.id.as_str()) && p.active == 1) {
                        return Err(ProductError::ForeignDefaultPrice);
                    }
                },
                None => {
                    return Err(ProductError::UnknownDefaultPrice);
                },
            }
        }
        match &req.name {
            Some(n) => {
                self.name = n.clone();
            },
            None => {},
        }
        match &req.description {
            Some(d) => {
                self.description = Some(d.clone());
            },
            None => {},
        }
        match &req.default_price_id {
            Some(p) => {
                self.default_price_id = Some(p.clone());
            },
            None => {},
        }
        match &req.metadata {
            Some(m) => {
                self.metadata = Some(m.clone());
            },
            None => {},
        }
        match req.active {
            Some(a) => {
                self.active = if a {
                    1
                } else {
                    0
                };
            },
            None => {},
        }
        Ok(())
    }

    /// Takes a price as the default one.
    pub fn set_default_price(&mut self, price_id: &str)
        ensures
            opt_text(final(self).default_price_id) == Some(price_id@),
            *final(self) == (Product {
                default_price_id: final(self).default_price_id,
                ..*old(self)
            }),
    {
        self.default_price_id = Some(price_id.to_string());
    }
}

/// Decides on a request to delete a product: one that no invoice names is
/// deleted with its prices, any other is kept without being sold.
pub fn delete_product(
    product: Option<&Product>,
    merchant_id: &str,
    invoice_count: i64,
) -> (r: Result<DeleteOutcome, ProductError>)
    ensures
        match product {
            None => r == Ok::<DeleteOutcome, ProductError>(DeleteOutcome::NotFound),
            Some(p) => r == if p.merchant_id@ != merchant_id@ {
                Err::<DeleteOutcome, ProductError>(ProductError::ForeignProduct)
            } else if invoice_count == 0 {
                Ok(DeleteOutcome::Deleted)
            } else {
                Ok(DeleteOutcome::Archived)
            },
        },
{
    match product {
        None => Ok(DeleteOutcome::NotFound),
        Some(p) => if !text_eq(p.merchant_id.as_str(), merchant_id) {
            Err(ProductError::ForeignProduct)
        } else if invoice_count == 0 {
            Ok(DeleteOutcome::Deleted)
        } else {
            Ok(DeleteOutcome::Archived)
        },
    }
}

// ---------------------------------------------------------------------------
// Laws
// ---------------------------------------------------------------------------

/// A product is made exactly with a name, an amount above zero, a short name of
/// letters, digits, underscores and hyphens or none, and a supported currency,
/// the euro where none is named. The first of these that fails is the error.
pub proof fn product_is_made_where_nothing_fails(req: &CreateProductRequest)
    ensures
        ({
            let e = creation_error(req);
            let named = req.name@.len() > 0 && req.amount_is_positive;
            let slug = req.slug is None || req.slug->0@.len() == 0 || forall|i: int|
                0 <= i < req.slug->0@.len() ==> is_alphanumeric(#[trigger] req.slug->0@[i])
                    || req.slug->0@[i] == '_' || req.slug->0@[i] == '-';
            let currency = if req.currency is Some {
                req.currency->0@
            } else {
                "EUR"@
            };
            &&& !named <==> e == Some(ProductError::NameOrPriceMissing)
            &&& named && !slug <==> e == Some(ProductError::InvalidSlug)
            &&& named && slug && !is_supported_currency(currency) <==> e == Some(
                ProductError::UnsupportedCurrency,
            )
            &&& named && slug && is_supported_currency(currency) <==> e is None
        }),
{
}

/// The short name is the one that was asked for, unless that is empty.
pub proof fn short_name_is_not_empty(req: &CreateProductRequest)
    ensures
        req.slug is Some && req.slug->0@.len() > 0 ==> chosen_slug(req) == Some(req.slug->0@),
        req.slug is None || req.slug->0@.len() == 0 ==> chosen_slug(req) is None,
{
}

/// A product is changed by its own merchant only, and its default price, the one
/// that is asked for or the one it has, is an active price of its own.
pub proof fn default_price_is_the_products_own(
    product: &Product,
    merchant_id: Seq<char>,
    req: &UpdateProductRequest,
    price: Option<PriceRef>,
)
    ensures
        ({
            let e = product.update_error(merchant_id, req, price);
            let own = product.merchant_id@ == merchant_id;
            let default = req.default_price_id is Some || product.default_price_id is Some;
            let fits = price is Some && price->0.product_id@ == product.id@ && price->0.active
                == 1;
            &&& !own <==> e == Some(ProductError::ForeignProduct)
            &&& own && default && price is None <==> e == Some(ProductError::UnknownDefaultPrice)
            &&& own && default && price is Some && !fits <==> e == Some(
                ProductError::ForeignDefaultPrice,
            )
            &&& own && (!default || fits) <==> e is None
        }),
        req.default_price_id matches Some(p) ==> product.new_default(req) == Some(p@),
        req.default_price_id is None ==> product.new_default(req) == opt_text(
            product.default_price_id,
        ),
{
}

} // verus!
