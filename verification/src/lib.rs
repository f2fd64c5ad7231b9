pub mod accounts;
pub mod addresses;
pub mod api;
pub mod api_keys;
pub mod base64url;
pub mod billing;
pub mod catalog;
pub mod clock;
pub mod config;
pub mod crypto;
pub mod db;
pub mod email;
pub mod events;
pub mod hexadecimal;
pub mod ids;
pub mod invoices;
pub mod json;
pub mod luma;
pub mod maintenance;
pub mod merchants;
pub mod payment_links;
pub mod prices;
pub mod products;
pub mod qr;
pub mod sales;
pub mod scanner;
pub mod session_ledger;
pub mod sessions;
pub mod text;
pub mod zcash;
pub mod validation;
