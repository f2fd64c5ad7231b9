-- The tables of the payment service. Each statement ends with a semicolon at
-- the end of a line.

CREATE TABLE IF NOT EXISTS merchants (
    id TEXT PRIMARY KEY, name TEXT NOT NULL DEFAULT '', api_key_hash TEXT NOT NULL UNIQUE,
    dashboard_token_hash TEXT NOT NULL DEFAULT '', ufvk TEXT NOT NULL,
    payment_address TEXT NOT NULL DEFAULT '', webhook_url TEXT,
    webhook_secret TEXT NOT NULL DEFAULT '', recovery_email TEXT, recovery_email_hash TEXT,
    diversifier_index INTEGER NOT NULL DEFAULT 0, trust_tier TEXT, billing_status TEXT,
    billing_started_at TEXT, fee_rate REAL, fee_discount_until TEXT, luma_api_key TEXT,
    pos_pin_hash TEXT,
    created_at TEXT NOT NULL DEFAULT (strftime('%Y-%m-%dT%H:%M:%SZ', 'now')));

CREATE TABLE IF NOT EXISTS merchant_api_keys (
    id TEXT PRIMARY KEY,
    merchant_id TEXT NOT NULL REFERENCES merchants(id) ON DELETE CASCADE,
    key_hash TEXT NOT NULL UNIQUE, key_prefix TEXT NOT NULL,
    key_type TEXT NOT NULL CHECK (key_type IN ('full', 'restricted')), label TEXT NOT NULL,
    created_at TEXT NOT NULL, last_used_at TEXT, revoked_at TEXT);

CREATE TABLE IF NOT EXISTS sessions (
    id TEXT PRIMARY KEY, merchant_id TEXT NOT NULL, expires_at TEXT NOT NULL,
    pos_scoped INTEGER NOT NULL DEFAULT 0, reauth_at TEXT);

CREATE TABLE IF NOT EXISTS recovery_tokens (
    id TEXT PRIMARY KEY, merchant_id TEXT NOT NULL, token_hash TEXT NOT NULL,
    expires_at TEXT NOT NULL);

CREATE TABLE IF NOT EXISTS products (
    id TEXT PRIMARY KEY, merchant_id TEXT NOT NULL, slug TEXT NOT NULL, name TEXT NOT NULL,
    description TEXT, default_price_id TEXT, metadata TEXT,
    active INTEGER NOT NULL DEFAULT 1, created_at TEXT NOT NULL);

CREATE TABLE IF NOT EXISTS prices (
    id TEXT PRIMARY KEY, product_id TEXT NOT NULL, currency TEXT NOT NULL,
    unit_amount REAL NOT NULL DEFAULT 0, label TEXT, max_quantity INTEGER,
    price_type TEXT NOT NULL DEFAULT 'one_time', billing_interval TEXT,
    interval_count INTEGER, luma_ticket_type_id TEXT,
    active INTEGER NOT NULL DEFAULT 1, created_at TEXT NOT NULL);

CREATE TABLE IF NOT EXISTS events (
    id TEXT PRIMARY KEY, merchant_id TEXT NOT NULL, product_id TEXT NOT NULL,
    title TEXT NOT NULL, description TEXT, event_date TEXT, event_location TEXT,
    status TEXT NOT NULL DEFAULT 'active', luma_event_id TEXT, luma_event_url TEXT,
    created_at TEXT NOT NULL);

CREATE TABLE IF NOT EXISTS payment_links (
    id TEXT PRIMARY KEY, merchant_id TEXT NOT NULL, price_id TEXT, slug TEXT NOT NULL UNIQUE,
    name TEXT, success_url TEXT, metadata TEXT, active INTEGER NOT NULL DEFAULT 1,
    total_created INTEGER NOT NULL DEFAULT 0, mode TEXT NOT NULL DEFAULT 'payment',
    donation_config TEXT, total_raised INTEGER NOT NULL DEFAULT 0, created_at TEXT NOT NULL);

CREATE TABLE IF NOT EXISTS invoices (
    id TEXT PRIMARY KEY, merchant_id TEXT NOT NULL, memo_code TEXT NOT NULL UNIQUE,
    product_id TEXT, product_name TEXT, size TEXT, price_eur REAL NOT NULL DEFAULT 0,
    price_usd REAL, currency TEXT, price_zec REAL NOT NULL DEFAULT 0,
    zec_rate_at_creation REAL NOT NULL DEFAULT 0, amount REAL, price_id TEXT,
    payment_address TEXT NOT NULL DEFAULT '', zcash_uri TEXT NOT NULL DEFAULT '',
    refund_address TEXT, status TEXT NOT NULL DEFAULT 'pending', detected_txid TEXT,
    detected_at TEXT, confirmed_at TEXT, refunded_at TEXT, refund_txid TEXT,
    expires_at TEXT NOT NULL, purge_after TEXT, created_at TEXT NOT NULL,
    orchard_receiver_hex TEXT, diversifier_index INTEGER,
    price_zatoshis INTEGER NOT NULL DEFAULT 0, received_zatoshis INTEGER NOT NULL DEFAULT 0,
    subscription_id TEXT, payment_link_id TEXT, is_donation INTEGER NOT NULL DEFAULT 0,
    campaign_counted INTEGER NOT NULL DEFAULT 0, attendee_name TEXT, attendee_email TEXT,
    luma_registration_status TEXT, luma_guest_data TEXT, luma_retry_count INTEGER,
    luma_retry_at TEXT, confirmed_rate REAL, confirmed_fiat_amount REAL);

CREATE TABLE IF NOT EXISTS webhook_deliveries (
    id TEXT PRIMARY KEY, invoice_id TEXT, merchant_id TEXT, event_type TEXT,
    status TEXT NOT NULL DEFAULT 'pending', response_status INTEGER, response_error TEXT,
    attempts INTEGER NOT NULL DEFAULT 0, last_attempt_at TEXT, created_at TEXT NOT NULL);

CREATE TABLE IF NOT EXISTS invoice_payments (
    invoice_id TEXT NOT NULL, txid TEXT NOT NULL, zatoshis INTEGER NOT NULL,
    PRIMARY KEY (invoice_id, txid));

CREATE TABLE IF NOT EXISTS passkey_credentials (
    id TEXT PRIMARY KEY,
    merchant_id TEXT NOT NULL REFERENCES merchants(id) ON DELETE CASCADE,
    credential_json TEXT NOT NULL, label TEXT NOT NULL DEFAULT '', last_used_at TEXT,
    created_at TEXT NOT NULL DEFAULT (strftime('%Y-%m-%dT%H:%M:%SZ', 'now')));

CREATE TABLE IF NOT EXISTS passkey_challenges (
    id TEXT PRIMARY KEY, merchant_id TEXT,
    flow_type TEXT NOT NULL CHECK (flow_type IN ('register', 'login')),
    state_json TEXT NOT NULL, expires_at TEXT NOT NULL,
    created_at TEXT NOT NULL DEFAULT (strftime('%Y-%m-%dT%H:%M:%SZ', 'now')));

CREATE TABLE IF NOT EXISTS tickets (
    id TEXT PRIMARY KEY, invoice_id TEXT NOT NULL UNIQUE, merchant_id TEXT NOT NULL,
    product_id TEXT NOT NULL, price_id TEXT, code TEXT NOT NULL UNIQUE,
    status TEXT NOT NULL DEFAULT 'valid', used_at TEXT, created_at TEXT NOT NULL);

CREATE TABLE IF NOT EXISTS fee_ledger (
    id TEXT PRIMARY KEY, invoice_id TEXT NOT NULL UNIQUE, merchant_id TEXT NOT NULL,
    fee_amount_zatoshis INTEGER NOT NULL, fee_rate_applied REAL,
    auto_collected INTEGER NOT NULL DEFAULT 0, collected_at TEXT, billing_cycle_id TEXT,
    created_at TEXT NOT NULL);

CREATE TABLE IF NOT EXISTS billing_cycles (
    id TEXT PRIMARY KEY, merchant_id TEXT NOT NULL, period_start TEXT NOT NULL,
    period_end TEXT NOT NULL, total_fees_zatoshis INTEGER NOT NULL DEFAULT 0,
    auto_collected_zatoshis INTEGER NOT NULL DEFAULT 0,
    outstanding_zatoshis INTEGER NOT NULL DEFAULT 0, settlement_invoice_id TEXT,
    status TEXT NOT NULL, grace_until TEXT, created_at TEXT NOT NULL);

CREATE TABLE IF NOT EXISTS x402_verifications (
    id TEXT PRIMARY KEY, merchant_id TEXT NOT NULL, txid TEXT NOT NULL,
    amount_zatoshis INTEGER, amount_zec REAL, status TEXT NOT NULL, reason TEXT,
    protocol TEXT, created_at TEXT NOT NULL DEFAULT (strftime('%Y-%m-%dT%H:%M:%SZ', 'now')));

CREATE UNIQUE INDEX IF NOT EXISTS idx_x402_verified
    ON x402_verifications(merchant_id, txid, protocol) WHERE status = 'verified';

CREATE TABLE IF NOT EXISTS x402_idempotency_v2 (
    merchant_id TEXT NOT NULL, idempotency_key TEXT NOT NULL, request_hash TEXT NOT NULL,
    response_json TEXT NOT NULL, created_at TEXT NOT NULL,
    PRIMARY KEY (merchant_id, idempotency_key));

CREATE TABLE IF NOT EXISTS payment_consumptions (
    txid TEXT PRIMARY KEY, purpose TEXT NOT NULL);

CREATE TABLE IF NOT EXISTS agent_sessions (
    id TEXT PRIMARY KEY, merchant_id TEXT NOT NULL, deposit_txid TEXT NOT NULL,
    bearer_token TEXT NOT NULL UNIQUE, balance_zatoshis INTEGER NOT NULL,
    balance_remaining INTEGER NOT NULL, cost_per_request INTEGER NOT NULL,
    requests_made INTEGER NOT NULL DEFAULT 0, refund_address TEXT, status TEXT NOT NULL,
    expires_at TEXT NOT NULL, created_at TEXT NOT NULL, closed_at TEXT);

CREATE TABLE IF NOT EXISTS session_charges (
    session_id TEXT NOT NULL, request_id TEXT NOT NULL, resource TEXT NOT NULL,
    amount INTEGER NOT NULL, PRIMARY KEY (session_id, request_id));

CREATE TABLE IF NOT EXISTS session_requests (
    id TEXT PRIMARY KEY, merchant_id TEXT NOT NULL, deposit_address TEXT NOT NULL,
    diversifier_index INTEGER NOT NULL, status TEXT NOT NULL, expires_at TEXT NOT NULL);

CREATE TABLE IF NOT EXISTS ledger_tokens (
    id TEXT PRIMARY KEY, merchant_id TEXT NOT NULL, label TEXT NOT NULL, expires_at TEXT,
    created_at TEXT NOT NULL, revoked_at TEXT);

CREATE TABLE IF NOT EXISTS email_events (
    id TEXT PRIMARY KEY, merchant_id TEXT NOT NULL, template TEXT NOT NULL,
    entity_id TEXT NOT NULL, sent_at TEXT NOT NULL,
    UNIQUE(merchant_id, template, entity_id));

CREATE TABLE IF NOT EXISTS scanner_state (key TEXT PRIMARY KEY, value TEXT NOT NULL);
