//! The scanner, which watches the chain for payments.

pub mod blocks;
pub mod decrypt;
pub mod detection;
pub mod mempool;
pub mod metrics;
pub mod ws;
