//! The database: when a migration runs, what the schema has to hold, and how
//! stored rows are brought into their present form.

use vstd::prelude::*;

use crate::crypto::{
    decrypt, decrypt_or_plaintext, decrypted, encrypt, encryption_error, is_plain_viewing_key,
    is_stored_form, revealed_viewing_key, revealed_webhook_secret, CryptoError,
};
use crate::merchants::{revealed_or_raw, storage_fails, stored_secret};
use crate::scanner::decrypt::{derive_uivk_from_ufvk, reduced_key, KeyError};
use crate::text::{
    contains, contains_char, copy_text, is_hex_digit, join3, occurs_in, opt_str, opt_text,
    starts_with, text_eq,
};

verus! {

// ---------------------------------------------------------------------------
// Migrations
// ---------------------------------------------------------------------------

/// What is recorded of a migration.
pub struct MigrationRecord {
    pub name: String,
    pub status: String,
    pub error_message: Option<String>,
}

/// What is to be done about a migration.
#[derive(Debug, Clone, Copy, PartialEq, Eq, Structural)]
pub enum MigrationPlan {
    Skip,
    Refuse,
    Run,
}

/// What is to be done about a migration with a recorded status: one that was
/// applied is left out, and one that was interrupted needs a person's look.
pub open spec fn plan_for(status: Option<Seq<char>>) -> MigrationPlan {
    match status {
        Some(s) => if s == "applied"@ {
            MigrationPlan::Skip
        } else if s == "running"@ {
            MigrationPlan::Refuse
        } else {
            MigrationPlan::Run
        },
        None => MigrationPlan::Run,
    }
}

/// What is to be done about a migration with a recorded status.
pub fn plan_migration(status: Option<&str>) -> (r: MigrationPlan)
    ensures
        r == plan_for(opt_str(status)),
{
    match status {
        Some(s) => if text_eq(s, "applied") {
            MigrationPlan::Skip
        } else if text_eq(s, "running") {
            MigrationPlan::Refuse
        } else {
            MigrationPlan::Run
        },
        None => MigrationPlan::Run,
    }
}

/// The message where an interrupted migration is found.
pub fn interrupted_message(name: &str) -> (r: String)
    ensures
        r@ == "Migration '"@ + name@
            + "' is marked as running from a previous startup. Inspect schema_migrations and the database before restarting again."@,
{
    join3(
        "Migration '",
        name,
        "' is marked as running from a previous startup. Inspect schema_migrations and the database before restarting again.",
    )
}

impl MigrationRecord {
    /// The record of a migration that begins.
    pub fn begin(name: &str) -> (r: MigrationRecord)
        ensures
            r.name@ == name@,
            r.status@ == "running"@,
            r.error_message is None,
    {
        MigrationRecord {
            name: name.to_string(),
            status: "running".to_string(),
            error_message: None,
        }
    }

    /// Notes the end of the migration: applied, or failed with an error.
    pub fn finish(&mut self, error: Option<&str>)
        ensures
            final(self).name == old(self).name,
            final(self).status@ == if error is None {
                "applied"@
            } else {
                "failed"@
            },
            opt_text(final(self).error_message) == opt_str(error),
    {
        self.status = match error {
            None => "applied".to_string(),
            Some(_) => "failed".to_string(),
        };
        self.error_message = copy_text(error);
    }
}

/// A migration that was applied is never run again, one that failed is, and one
/// that was interrupted is refused.
pub proof fn applied_once(record: MigrationRecord)
    ensures
        record.status@ == "applied"@ ==> plan_for(Some(record.status@)) == MigrationPlan::Skip,
        record.status@ == "failed"@ ==> plan_for(Some(record.status@)) == MigrationPlan::Run,
        record.status@ == "running"@ ==> plan_for(Some(record.status@)) == MigrationPlan::Refuse,
{
    reveal_strlit("applied");
    reveal_strlit("failed");
    reveal_strlit("running");
    assert("applied"@[0] == 'a' && "running"@[0] == 'r' && "failed"@[0] == 'f');
}

// ---------------------------------------------------------------------------
// Schema
// ---------------------------------------------------------------------------

/// A table and its columns.
pub struct TableInfo {
    pub name: String,
    pub columns: Vec<String>,
}

/// What the schema lacks.
#[derive(Debug)]
pub enum SchemaError {
    MissingTable(&'static str),
    MissingColumn(&'static str, &'static str),
    WebhookInvoiceRequired,
}

/// A lack of the schema by what it names.
pub enum SchemaLack {
    Table(Seq<char>),
    Column(Seq<char>, Seq<char>),
    WebhookInvoiceRequired,
}

impl SchemaError {
    pub open spec fn view(&self) -> SchemaLack {
        match *self {
            SchemaError::MissingTable(t) => SchemaLack::Table(t@),
            SchemaError::MissingColumn(t, c) => SchemaLack::Column(t@, c@),
            SchemaError::WebhookInvoiceRequired => SchemaLack::WebhookInvoiceRequired,
        }
    }

    pub fn message(&self) -> (r: String)
        ensures
            r@ == match self.view() {
                SchemaLack::Table(t) => "Required table '"@ + t
                    + "' is missing after migrations"@,
                SchemaLack::Column(t, c) => "Required column '"@ + t + "."@ + c
                    + "' is missing after migrations"@,
                SchemaLack::WebhookInvoiceRequired =>
                    "webhook_deliveries.invoice_id is still NOT NULL after migration"@,
            },
    {
        match self {
            SchemaError::MissingTable(t) => join3(
                "Required table '",
                t,
                "' is missing after migrations",
            ),
            SchemaError::MissingColumn(t, c) => {
                let start: String = join3("Required column '", t, ".");
                join3(start.as_str(), c, "' is missing after migrations")
            },
            SchemaError::WebhookInvoiceRequired =>
                "webhook_deliveries.invoice_id is still NOT NULL after migration".to_string(),
        }
    }
}

/// The tables that have to be there.
pub open spec fn required_tables() -> Seq<Seq<char>> {
    seq![
        "merchants"@,
        "invoices"@,
        "products"@,
        "prices"@,
        "webhook_deliveries"@,
        "fee_ledger"@,
        "billing_cycles"@,
        "x402_verifications"@,
        "agent_sessions"@,
        "session_requests"@,
        "recovery_tokens"@,
        "email_events"@,
    ]
}

/// The columns that have to be there, with their tables.
pub open spec fn required_columns() -> Seq<(Seq<char>, Seq<char>)> {
    seq![
        ("merchants"@, "webhook_secret"@),
        ("merchants"@, "dashboard_token_hash"@),
        ("merchants"@, "recovery_email"@),
        ("merchants"@, "name"@),
        ("merchants"@, "diversifier_index"@),
        ("merchants"@, "trust_tier"@),
        ("merchants"@, "billing_status"@),
        ("merchants"@, "billing_started_at"@),
        ("merchants"@, "recovery_email_hash"@),
        ("merchants"@, "fee_rate"@),
        ("merchants"@, "fee_discount_until"@),
        ("invoices"@, "payment_address"@),
        ("invoices"@, "zcash_uri"@),
        ("invoices"@, "product_id"@),
        ("invoices"@, "refund_address"@),
        ("invoices"@, "price_usd"@),
        ("invoices"@, "refunded_at"@),
        ("invoices"@, "refund_txid"@),
        ("invoices"@, "currency"@),
        ("invoices"@, "diversifier_index"@),
        ("invoices"@, "orchard_receiver_hex"@),
        ("invoices"@, "price_zatoshis"@),
        ("invoices"@, "received_zatoshis"@),
        ("webhook_deliveries"@, "event_type"@),
        ("webhook_deliveries"@, "merchant_id"@),
        ("webhook_deliveries"@, "response_status"@),
        ("webhook_deliveries"@, "response_error"@),
        ("fee_ledger"@, "fee_amount_zatoshis"@),
        ("fee_ledger"@, "fee_rate_applied"@),
        ("billing_cycles"@, "total_fees_zatoshis"@),
        ("billing_cycles"@, "auto_collected_zatoshis"@),
        ("billing_cycles"@, "outstanding_zatoshis"@),
        ("x402_verifications"@, "protocol"@),
    ]
}

fn table_list() -> (r: Vec<&'static str>)
    ensures
        r@.map_values(|s: &'static str| s@) == required_tables(),
{
    let r: Vec<&'static str> = vec![
        "merchants",
        "invoices",
        "products",
        "prices",
        "webhook_deliveries",
        "fee_ledger",
        "billing_cycles",
        "x402_verifications",
        "agent_sessions",
        "session_requests",
        "recovery_tokens",
        "email_events",
    ];
    assert(r@.map_values(|s: &'static str| s@) =~= required_tables());
    r
}

fn column_list() -> (r: Vec<(&'static str, &'static str)>)
    ensures
        r@.map_values(|p: (&'static str, &'static str)| (p.0@, p.1@)) == required_columns(),
{
    let r: Vec<(&'static str, &'static str)> = vec![
        ("merchants", "webhook_secret"),
        ("merchants", "dashboard_token_hash"),
        ("merchants", "recovery_email"),
        ("merchants", "name"),
        ("merchants", "diversifier_index"),
        ("merchants", "trust_tier"),
        ("merchants", "billing_status"),
        ("merchants", "billing_started_at"),
        ("merchants", "recovery_email_hash"),
        ("merchants", "fee_rate"),
        ("merchants", "fee_discount_until"),
        ("invoices", "payment_address"),
        ("invoices", "zcash_uri"),
        ("invoices", "product_id"),
        ("invoices", "refund_address"),
        ("invoices", "price_usd"),
        ("invoices", "refunded_at"),
        ("invoices", "refund_txid"),
        ("invoices", "currency"),
        ("invoices", "diversifier_index"),
        ("invoices", "orchard_receiver_hex"),
        ("invoices", "price_zatoshis"),
        ("invoices", "received_zatoshis"),
        ("webhook_deliveries", "event_type"),
        ("webhook_deliveries", "merchant_id"),
        ("webhook_deliveries", "response_status"),
        ("webhook_deliveries", "response_error"),
        ("fee_ledger", "fee_amount_zatoshis"),
        ("fee_ledger", "fee_rate_applied"),
        ("billing_cycles", "total_fees_zatoshis"),
        ("billing_cycles", "auto_collected_zatoshis"),
        ("billing_cycles", "outstanding_zatoshis"),
        ("x402_verifications", "protocol"),
    ];
    assert(r@.map_values(|p: (&'static str, &'static str)| (p.0@, p.1@)) =~= required_columns());
    r
}

pub open spec fn has_text(v: Seq<String>, s: Seq<char>) -> bool {
    exists|i: int| 0 <= i < v.len() && #[trigger] v[i]@ == s
}

fn text_in(v: &Vec<String>, s: &str) -> (r: bool)
    ensures
        r == has_text(v@, s@),
{
    let mut i: usize = 0;
    while i < v.len()
        invariant
            i <= v@.len(),
            forall|k: int| 0 <= k < i ==> #[trigger] v@[k]@ != s@,
        decreases v@.len() - i,
    {
        if text_eq(v[i].as_str(), s) {
            return true;
        }
        i = i + 1;
    }
    false
}

/// Whether a schema has a table.
pub open spec fn has_table(schema: Seq<TableInfo>, table: Seq<char>) -> bool {
    exists|i: int| 0 <= i < schema.len() && #[trigger] schema[i].name@ == table
}

/// Whether a schema has a column of a table.
pub open spec fn has_column(schema: Seq<TableInfo>, table: Seq<char>, column: Seq<char>) -> bool {
    exists|i: int|
        0 <= i < schema.len() && (#[trigger] schema[i]).name@ == table && has_text(
            schema[i].columns@,
            column,
        )
}

fn table_in(schema: &Vec<TableInfo>, table: &str) -> (r: bool)
    ensures
        r == has_table(schema@, table@),
{
    let mut i: usize = 0;
    while i < schema.len()
        invariant
            i <= schema@.len(),
            forall|k: int| 0 <= k < i ==> #[trigger] schema@[k].name@ != table@,
        decreases schema@.len() - i,
    {
        if text_eq(schema[i].name.as_str(), table) {
            return true;
        }
        i = i + 1;
    }
    false
}

fn column_in(schema: &Vec<TableInfo>, table: &str, column: &str) -> (r: bool)
    ensures
        r == has_column(schema@, table@, column@),
{
    let mut i: usize = 0;
    while i < schema.len()
        invariant
            i <= schema@.len(),
            forall|k: int|
                0 <= k < i ==> !((#[trigger] schema@[k]).name@ == table@ && has_text(
                    schema@[k].columns@,
                    column@,
                )),
        decreases schema@.len() - i,
    {
        if text_eq(schema[i].name.as_str(), table) && text_in(&schema[i].columns, column) {
            return true;
        }
        i = i + 1;
    }
    false
}

/// The first of the tables from a place on that a schema lacks.
pub open spec fn lacking_table(schema: Seq<TableInfo>, tables: Seq<Seq<char>>) -> Option<Seq<char>>
    decreases tables.len(),
{
    if tables.len() == 0 {
        None
    } else if !has_table(schema, tables[0]) {
        Some(tables[0])
    } else {
        lacking_table(schema, tables.skip(1))
    }
}

/// The first of the columns from a place on that a schema lacks.
pub open spec fn lacking_column(
    schema: Seq<TableInfo>,
    columns: Seq<(Seq<char>, Seq<char>)>,
) -> Option<(Seq<char>, Seq<char>)>
    decreases columns.len(),
{
    if columns.len() == 0 {
        None
    } else if !has_column(schema, columns[0].0, columns[0].1) {
        Some(columns[0])
    } else {
        lacking_column(schema, columns.skip(1))
    }
}

/// What a schema lacks first, if it lacks anything.
pub open spec fn schema_lack(schema: Seq<TableInfo>, webhook_sql: Seq<char>) -> Option<SchemaLack> {
    match lacking_table(schema, required_tables()) {
        Some(t) => Some(SchemaLack::Table(t)),
        None => match lacking_column(schema, required_columns()) {
            Some(c) => Some(SchemaLack::Column(c.0, c.1)),
            None => if occurs_in(webhook_sql, "invoice_id TEXT NOT NULL"@) {
                Some(SchemaLack::WebhookInvoiceRequired)
            } else {
                None
            },
        },
    }
}

fn first_lacking_table(schema: &Vec<TableInfo>) -> (r: Option<&'static str>)
    ensures
        opt_str(r) == lacking_table(schema@, required_tables()),
{
    let tables: Vec<&'static str> = table_list();
    let ghost all = required_tables();
    let mut i: usize = 0;
    assert(all.skip(0) =~= all);
    while i < tables.len()
        invariant
            i <= tables@.len(),
            all == required_tables(),
            tables@.map_values(|s: &'static str| s@) == all,
            lacking_table(schema@, all) == lacking_table(schema@, all.skip(i as int)),
        decreases tables@.len() - i,
    {
        assert(all[i as int] == tables@[i as int]@);
        assert(all.skip(i as int)[0] == all[i as int]);
        assert(all.skip(i as int).skip(1) =~= all.skip(i + 1));
        if !table_in(schema, tables[i]) {
            return Some(tables[i]);
        }
        i = i + 1;
    }
    None
}

fn first_lacking_column(schema: &Vec<TableInfo>) -> (r: Option<(&'static str, &'static str)>)
    ensures
        match r {
            Some(c) => lacking_column(schema@, required_columns()) == Some((c.0@, c.1@)),
            None => lacking_column(schema@, required_columns()) is None,
        },
{
    let columns: Vec<(&'static str, &'static str)> = column_list();
    let ghost all = required_columns();
    let mut i: usize = 0;
    assert(all.skip(0) =~= all);
    while i < columns.len()
        invariant
            i <= columns@.len(),
            all == required_columns(),
            columns@.map_values(|p: (&'static str, &'static str)| (p.0@, p.1@)) == all,
            lacking_column(schema@, all) == lacking_column(schema@, all.skip(i as int)),
        decreases columns@.len() - i,
    {
        assert(all[i as int] == (columns@[i as int].0@, columns@[i as int].1@));
        assert(all.skip(i as int)[0] == all[i as int]);
        assert(all.skip(i as int).skip(1) =~= all.skip(i + 1));
        if !column_in(schema, columns[i].0, columns[i].1) {
            return Some((columns[i].0, columns[i].1));
        }
        i = i + 1;
    }
    None
}

/// Checks a schema after the migrations; `webhook_sql` is the statement that
/// made the table of webhook deliveries.
pub fn validate_schema_state(schema: &Vec<TableInfo>, webhook_sql: &str) -> (r: Result<
    (),
    SchemaError,
>)
    ensures
        match r {
            Ok(_) => schema_lack(schema@, webhook_sql@) is None,
            Err(e) => schema_lack(schema@, webhook_sql@) == Some(e.view()),
        },
{
    match first_lacking_table(schema) {
        Some(t) => {
            return Err(SchemaError::MissingTable(t));
        },
        None => {},
    }
    match first_lacking_column(schema) {
        Some(c) => {
            return Err(SchemaError::MissingColumn(c.0, c.1));
        },
        None => {},
    }
    if contains(webhook_sql, "invoice_id TEXT NOT NULL") {
        Err(SchemaError::WebhookInvoiceRequired)
    } else {
        Ok(())
    }
}

// ---------------------------------------------------------------------------
// Stored rows
// ---------------------------------------------------------------------------

/// What a stored recovery address stands for: a plain one is known by its at
/// sign, and one that cannot be decrypted stands for itself.
pub open spec fn plain_email(stored: Seq<char>, encryption_key: Seq<char>) -> Seq<char> {
    if stored.contains('@') || encryption_key.len() == 0 {
        stored
    } else {
        revealed_or_raw(decrypted(stored, encryption_key), stored)
    }
}

/// What is stored of a recovery address stands for the address.
pub proof fn stored_email_is_read_back(stored: Seq<char>, email: Seq<char>, key: Seq<char>)
    requires
        is_stored_form(stored, email, key),
    ensures
        plain_email(stored, key) == email,
{
    if key.len() > 0 && stored.contains('@') {
        let i = stored.index_of('@');
        assert(is_hex_digit(stored[i]));
    }
}

/// What a stored recovery address stands for.
pub fn read_email(stored: &str, encryption_key: &str) -> (r: String)
    ensures
        r@ == plain_email(stored@, encryption_key@),
{
    if contains_char(stored, '@') || encryption_key.is_empty() {
        return stored.to_string();
    }
    match decrypt(stored, encryption_key) {
        Ok(s) => s,
        Err(_) => stored.to_string(),
    }
}

/// The present form of a stored recovery address: encrypted, where there is a
/// key and it is an address; otherwise as it was.
pub fn migrate_recovery_email(stored: &str, encryption_key: &str) -> (r: Result<
    String,
    CryptoError,
>)
    ensures
        ({
            let plain = plain_email(stored@, encryption_key@);
            if encryption_key@.len() > 0 && plain.contains('@') {
                match r {
                    Ok(s) => !storage_fails(plain, encryption_key@) && decrypted(
                        s@,
                        encryption_key@,
                    ) == Ok::<Seq<char>, CryptoError>(plain),
                    Err(e) => storage_fails(plain, encryption_key@) && e == encryption_error(
                        encryption_key@,
                    ),
                }
            } else {
                r matches Ok(s) && s@ == stored@
            }
        }),
{
    let plain: String = read_email(stored, encryption_key);
    if !encryption_key.is_empty() && contains_char(plain.as_str(), '@') {
        encrypt(plain.as_str(), encryption_key)
    } else {
        Ok(stored.to_string())
    }
}

/// What has to be done about a stored recovery address.
#[derive(Debug, Clone, Copy, PartialEq, Eq, Structural)]
pub enum EmailMigration {
    /// Nothing: there is no address, or no key under which to index it anew.
    Skip,
    /// It is to be encrypted and indexed.
    Encrypt,
    /// It has an index, which may be an old one.
    Reindex,
}

/// Whether a text is there and not empty.
pub open spec fn is_filled(text: Option<Seq<char>>) -> bool {
    text matches Some(t) && t.len() > 0
}

fn filled(text: Option<&str>) -> (r: bool)
    ensures
        r == is_filled(opt_str(text)),
{
    match text {
        Some(t) => !t.is_empty(),
        None => false,
    }
}

/// What has to be done about a stored recovery address: one without an index
/// is encrypted and indexed, and one with an index is indexed anew where there
/// is a key.
pub fn plan_email_migration(email: Option<&str>, index: Option<&str>, encryption_key: &str) -> (r:
    EmailMigration)
    ensures
        r == if !is_filled(opt_str(email)) {
            EmailMigration::Skip
        } else if !is_filled(opt_str(index)) {
            EmailMigration::Encrypt
        } else if encryption_key@.len() == 0 {
            EmailMigration::Skip
        } else {
            EmailMigration::Reindex
        },
{
    if !filled(email) {
        EmailMigration::Skip
    } else if !filled(index) {
        EmailMigration::Encrypt
    } else if encryption_key.is_empty() {
        EmailMigration::Skip
    } else {
        EmailMigration::Reindex
    }
}

/// The index to store for a recovery address, where it is not the one that is
/// stored.
pub fn email_index_change(existing: Option<&str>, fresh: &str) -> (r: Option<String>)
    ensures
        opt_text(r) == if opt_str(existing) == Some(fresh@) {
            None
        } else {
            Some(fresh@)
        },
{
    match existing {
        Some(e) => if text_eq(e, fresh) {
            None
        } else {
            Some(fresh.to_string())
        },
        None => Some(fresh.to_string()),
    }
}

/// The present form of a stored webhook secret, where it has to change: a plain
/// one is known by its prefix, and is encrypted where there is a key. What it
/// becomes is not changed again.
pub fn migrate_webhook_secret(stored: &str, encryption_key: &str) -> (r: Result<
    Option<String>,
    CryptoError,
>)
    ensures
        if encryption_key@.len() == 0 || !"whsec_"@.is_prefix_of(stored@) {
            r matches Ok(x) && x is None
        } else {
            match r {
                Ok(Some(s)) => {
                    &&& !storage_fails(stored@, encryption_key@)
                    &&& decrypted(s@, encryption_key@) == Ok::<Seq<char>, CryptoError>(stored@)
                    &&& revealed_webhook_secret(s@, encryption_key@) == Ok::<
                        Seq<char>,
                        CryptoError,
                    >(stored@)
                    &&& !"whsec_"@.is_prefix_of(s@)
                },
                Ok(None) => false,
                Err(e) => storage_fails(stored@, encryption_key@) && e == encryption_error(
                    encryption_key@,
                ),
            }
        },
{
    if encryption_key.is_empty() || !starts_with(stored, "whsec_") {
        return Ok(None);
    }
    proof {
        reveal_strlit("whsec_");
        assert("whsec_"@[0] == 'w');
    }
    match encrypt(stored, encryption_key) {
        Ok(s) => Ok(Some(s)),
        Err(e) => Err(e),
    }
}

/// Whether a stored viewing key of either kind is plain.
pub open spec fn is_plain_key(stored: Seq<char>) -> bool {
    is_plain_viewing_key(stored) || "uivk"@.is_prefix_of(stored)
}

/// The present form of a stored viewing key, where it has to change: a plain
/// one is known by its prefix, and is encrypted where there is a key. What it
/// becomes is not changed again.
pub fn migrate_viewing_key(stored: &str, encryption_key: &str) -> (r: Result<
    Option<String>,
    CryptoError,
>)
    ensures
        if encryption_key@.len() == 0 || !is_plain_key(stored@) {
            r matches Ok(x) && x is None
        } else {
            match r {
                Ok(Some(s)) => {
                    &&& !storage_fails(stored@, encryption_key@)
                    &&& decrypted(s@, encryption_key@) == Ok::<Seq<char>, CryptoError>(stored@)
                    &&& revealed_viewing_key(s@, encryption_key@) == Ok::<Seq<char>, CryptoError>(
                        stored@,
                    )
                    &&& !is_plain_key(s@)
                },
                Ok(None) => false,
                Err(e) => storage_fails(stored@, encryption_key@) && e == encryption_error(
                    encryption_key@,
                ),
            }
        },
{
    if encryption_key.is_empty() || !(starts_with(stored, "uview") || starts_with(stored, "utest")
        || starts_with(stored, "uivk")) {
        return Ok(None);
    }
    proof {
        reveal_strlit("uview");
        reveal_strlit("utest");
        reveal_strlit("uivk");
        assert("uview"@[0] == 'u' && "utest"@[0] == 'u' && "uivk"@[0] == 'u');
    }
    match encrypt(stored, encryption_key) {
        Ok(s) => Ok(Some(s)),
        Err(e) => Err(e),
    }
}

/// What becomes of a stored viewing key that may show more than it has to.
pub enum KeyReduction {
    /// It shows incoming payments only already.
    Kept,
    /// It is no viewing key that is known.
    Unrecognized,
    /// It cannot be reduced.
    NotDerivable(KeyError),
    /// It is to be replaced.
    Replaced(String),
}

/// Reduces a stored viewing key to one that shows incoming payments only. What
/// replaces a key begins like such a key, so it is kept the next time.
pub fn reduce_viewing_key(stored: &str, encryption_key: &str) -> (r: Result<
    KeyReduction,
    CryptoError,
>)
    ensures
        match revealed_viewing_key(stored@, encryption_key@) {
            Err(e) => r == Err::<KeyReduction, CryptoError>(e),
            Ok(plain) => if "uivk"@.is_prefix_of(plain) {
                r matches Ok(KeyReduction::Kept)
            } else if !"uview"@.is_prefix_of(plain) && !"utest"@.is_prefix_of(plain) {
                r matches Ok(KeyReduction::Unrecognized)
            } else {
                match reduced_key(plain) {
                    Err(e) => r == Ok::<KeyReduction, CryptoError>(KeyReduction::NotDerivable(e)),
                    Ok(uivk) => match r {
                        Ok(KeyReduction::Replaced(s)) => {
                            &&& !storage_fails(uivk, encryption_key@)
                            &&& is_stored_form(s@, uivk, encryption_key@)
                            &&& revealed_viewing_key(s@, encryption_key@) == Ok::<
                                Seq<char>,
                                CryptoError,
                            >(uivk)
                            &&& "uivk"@.is_prefix_of(uivk)
                        },
                        Ok(_) => false,
                        Err(e) => storage_fails(uivk, encryption_key@) && e == encryption_error(
                            encryption_key@,
                        ),
                    },
                }
            },
        },
{
    let plain: String = match decrypt_or_plaintext(stored, encryption_key) {
        Ok(s) => s,
        Err(e) => {
            return Err(e);
        },
    };
    if starts_with(plain.as_str(), "uivk") {
        return Ok(KeyReduction::Kept);
    }
    if !starts_with(plain.as_str(), "uview") && !starts_with(plain.as_str(), "utest") {
        return Ok(KeyReduction::Unrecognized);
    }
    match derive_uivk_from_ufvk(plain.as_str()) {
        Err(e) => Ok(KeyReduction::NotDerivable(e)),
        Ok(uivk) => match stored_secret(uivk.as_str(), encryption_key) {
            Ok(s) => Ok(KeyReduction::Replaced(s)),
            Err(e) => Err(e),
        },
    }
}

// ---------------------------------------------------------------------------
// Laws
// ---------------------------------------------------------------------------

/// A migration runs unless it was applied; one that was interrupted is refused,
/// and one that failed runs again.
pub proof fn interrupted_migration_is_refused(status: Seq<char>)
    ensures
        plan_for(None) is Run,
        plan_for(Some("applied"@)) is Skip,
        plan_for(Some("running"@)) is Refuse,
        plan_for(Some("failed"@)) is Run,
        plan_for(Some(status)) is Skip ==> status == "applied"@,
        plan_for(Some(status)) is Refuse ==> status == "running"@,
{
    reveal_strlit("applied");
    reveal_strlit("running");
    reveal_strlit("failed");
    assert("applied"@[0] == 'a' && "running"@[0] == 'r' && "failed"@[0] == 'f');
}

/// A schema is accepted where it has every table and every column that is
/// required, and the webhook table does not require an invoice.
pub proof fn accepted_schema_is_complete(schema: Seq<TableInfo>, webhook_sql: Seq<char>, i: int)
    requires
        schema_lack(schema, webhook_sql) is None,
    ensures
        0 <= i < required_tables().len() ==> has_table(schema, required_tables()[i]),
        0 <= i < required_columns().len() ==> has_column(
            schema,
            required_columns()[i].0,
            required_columns()[i].1,
        ),
        !occurs_in(webhook_sql, "invoice_id TEXT NOT NULL"@),
        has_table(schema, "merchants"@) && has_table(schema, "invoices"@) && has_table(
            schema,
            "webhook_deliveries"@,
        ) && has_table(schema, "agent_sessions"@) && has_table(schema, "billing_cycles"@),
        has_column(schema, "invoices"@, "received_zatoshis"@) && has_column(
            schema,
            "merchants"@,
            "billing_status"@,
        ) && has_column(schema, "x402_verifications"@, "protocol"@),
        required_tables().len() == 12,
        required_columns().len() == 33,
{
    let t = required_tables();
    let c = required_columns();
    all_tables_are_there(schema, t);
    all_columns_are_there(schema, c);
    assert(t[0] == "merchants"@ && t[1] == "invoices"@ && t[4] == "webhook_deliveries"@);
    assert(t[6] == "billing_cycles"@ && t[8] == "agent_sessions"@);
    assert(c[6] == ("merchants"@, "billing_status"@));
    assert(c[22] == ("invoices"@, "received_zatoshis"@));
    assert(c[32] == ("x402_verifications"@, "protocol"@));
}

proof fn all_tables_are_there(schema: Seq<TableInfo>, tables: Seq<Seq<char>>)
    requires
        lacking_table(schema, tables) is None,
    ensures
        forall|i: int| 0 <= i < tables.len() ==> has_table(schema, #[trigger] tables[i]),
    decreases tables.len(),
{
    if tables.len() > 0 {
        let rest = tables.skip(1);
        all_tables_are_there(schema, rest);
        assert forall|i: int| 0 <= i < tables.len() implies has_table(
            schema,
            #[trigger] tables[i],
        ) by {
            if i > 0 {
                assert(rest[i - 1] == tables[i]);
            }
        }
    }
}

proof fn all_columns_are_there(schema: Seq<TableInfo>, columns: Seq<(Seq<char>, Seq<char>)>)
    requires
        lacking_column(schema, columns) is None,
    ensures
        forall|i: int|
            0 <= i < columns.len() ==> has_column(
                schema,
                (#[trigger] columns[i]).0,
                columns[i].1,
            ),
    decreases columns.len(),
{
    if columns.len() > 0 {
        let rest = columns.skip(1);
        all_columns_are_there(schema, rest);
        assert forall|i: int| 0 <= i < columns.len() implies has_column(
            schema,
            (#[trigger] columns[i]).0,
            columns[i].1,
        ) by {
            if i > 0 {
                assert(rest[i - 1] == columns[i]);
            }
        }
    }
}

/// What is named as lacking is required and not there.
pub proof fn what_is_lacking_is_named(schema: Seq<TableInfo>, webhook_sql: Seq<char>)
    ensures
        match schema_lack(schema, webhook_sql) {
            Some(SchemaLack::Table(t)) => !has_table(schema, t) && required_tables().contains(t),
            Some(SchemaLack::Column(t, c)) => !has_column(schema, t, c)
                && required_columns().contains((t, c)),
            Some(SchemaLack::WebhookInvoiceRequired) => occurs_in(
                webhook_sql,
                "invoice_id TEXT NOT NULL"@,
            ),
            None => true,
        },
{
    lacking_table_is_named(schema, required_tables());
    lacking_column_is_named(schema, required_columns());
}

proof fn lacking_table_is_named(schema: Seq<TableInfo>, tables: Seq<Seq<char>>)
    ensures
        lacking_table(schema, tables) matches Some(t) ==> !has_table(schema, t)
            && tables.contains(t),
    decreases tables.len(),
{
    if tables.len() > 0 {
        let rest = tables.skip(1);
        lacking_table_is_named(schema, rest);
        match lacking_table(schema, tables) {
            Some(t) => {
                if has_table(schema, tables[0]) {
                    let i = choose|i: int| 0 <= i < rest.len() && rest[i] == t;
                    assert(tables[i + 1] == t);
                } else {
                    assert(tables[0] == t);
                }
            },
            None => {},
        }
    }
}

proof fn lacking_column_is_named(schema: Seq<TableInfo>, columns: Seq<(Seq<char>, Seq<char>)>)
    ensures
        lacking_column(schema, columns) matches Some(c) ==> !has_column(schema, c.0, c.1)
            && columns.contains(c),
    decreases columns.len(),
{
    if columns.len() > 0 {
        let rest = columns.skip(1);
        lacking_column_is_named(schema, rest);
        match lacking_column(schema, columns) {
            Some(c) => {
                if has_column(schema, columns[0].0, columns[0].1) {
                    let i = choose|i: int| 0 <= i < rest.len() && rest[i] == c;
                    assert(columns[i + 1] == c);
                } else {
                    assert(columns[0] == c);
                }
            },
            None => {},
        }
    }
}

/// A table is there by its name, and a column in its own table.
pub proof fn column_is_in_its_table(schema: Seq<TableInfo>, i: int, k: int)
    requires
        0 <= i < schema.len(),
        0 <= k < schema[i].columns@.len(),
    ensures
        has_table(schema, schema[i].name@),
        has_column(schema, schema[i].name@, schema[i].columns@[k]@),
        forall|t: Seq<char>, c: Seq<char>| #[trigger]
            has_column(schema, t, c) ==> has_table(schema, t),
{
    assert(has_text(schema[i].columns@, schema[i].columns@[k]@));
    assert forall|t: Seq<char>, c: Seq<char>| #[trigger] has_column(schema, t, c) implies has_table(
        schema,
        t,
    ) by {
        let j = choose|j: int|
            0 <= j < schema.len() && (#[trigger] schema[j]).name@ == t && has_text(
                schema[j].columns@,
                c,
            );
        assert(schema[j].name@ == t);
    }
}

/// An address that was stored as it is, or without a key, is read as it is; any
/// other is decrypted, or left where that fails.
pub proof fn plain_address_is_read_as_it_is(stored: Seq<char>, encryption_key: Seq<char>)
    ensures
        stored.contains('@') || encryption_key.len() == 0 ==> plain_email(stored, encryption_key)
            == stored,
        !stored.contains('@') && encryption_key.len() > 0 ==> (match decrypted(
            stored,
            encryption_key,
        ) {
            Ok(t) => plain_email(stored, encryption_key) == t,
            Err(_) => plain_email(stored, encryption_key) == stored,
        }),
{
}

/// A text is filled where it is given and not empty, and a viewing key is plain
/// where it begins as one of the three kinds.
pub proof fn plain_key_shows_its_kind(text: Seq<char>)
    ensures
        is_filled(Some(text)) <==> text.len() > 0,
        !is_filled(None),
        is_plain_key(text) <==> ("uview"@.is_prefix_of(text) || "utest"@.is_prefix_of(text)
            || "uivk"@.is_prefix_of(text)),
{
}

} // verus!
