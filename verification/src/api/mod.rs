//! What the HTTP interface decides: who may do what, what requests have to
//! hold, and how they are answered.

use vstd::prelude::*;

pub mod account;
pub mod auth;
pub mod catalog;
pub mod checkout;
pub mod deposits;
pub mod invoices;
pub mod keys;
pub mod passkey;
pub mod payment_links;
pub mod pos;
pub mod sessions;
pub mod settlement;
pub mod system;
pub mod x402;
pub mod x402_v2;

verus! {

/// What a search in the store gave.
pub enum Lookup<T> {
    Found(T),
    Missing,
    Failed,
}

} // verus!
