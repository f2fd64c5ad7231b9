//! The configuration of the service, read from variables.

use vstd::prelude::*;

use crate::text::{
    chars_of, decimal, opt_text, parse_i64, parse_u64, parsed_i64, parsed_u64, text_between, text_eq,
    trim, trimmed, written_number_is_read_back,
};

verus! {

/// The configuration. Of the fee rate it is known whether it is above zero.
#[derive(Debug)]
pub struct Config {
    pub database_url: String,
    pub cipherscan_api_url: String,
    pub network: String,
    pub api_host: String,
    pub api_port: u16,
    pub mempool_poll_interval_secs: u64,
    pub block_poll_interval_secs: u64,
    pub encryption_key: String,
    pub invoice_expiry_minutes: i64,
    pub data_purge_days: i64,
    pub coingecko_api_url: String,
    pub price_cache_secs: u64,
    pub allowed_origins: Vec<String>,
    pub cookie_domain: Option<String>,
    pub frontend_url: Option<String>,
    pub smtp_host: Option<String>,
    pub smtp_user: Option<String>,
    pub smtp_pass: Option<String>,
    pub smtp_from: Option<String>,
    pub fee_ufvk: Option<String>,
    pub fee_address: Option<String>,
    pub fee_rate_is_positive: bool,
    pub billing_cycle_days_new: i64,
    pub billing_cycle_days_standard: i64,
}

/// The variable that is not what it has to be.
#[derive(Debug, Clone, Copy, PartialEq, Eq, Structural)]
pub enum ConfigError {
    ApiPort,
    MempoolPollInterval,
    BlockPollInterval,
    InvoiceExpiry,
    DataPurgeDays,
    PriceCache,
    FeeRate,
    BillingCycleNew,
    BillingCycleStandard,
}

/// The variables by name. The first of a name counts.
pub struct Variables {
    pub entries: Vec<(String, String)>,
}

/// The value of the first variable of a name.
pub open spec fn value_in(entries: Seq<(String, String)>, name: Seq<char>) -> Option<Seq<char>>
    decreases entries.len(),
{
    if entries.len() == 0 {
        None
    } else if entries[0].0@ == name {
        Some(entries[0].1@)
    } else {
        value_in(entries.skip(1), name)
    }
}

/// The value of a variable, or the default where it is not set.
pub open spec fn value_or(entries: Seq<(String, String)>, name: Seq<char>, default: Seq<char>) -> Seq<
    char,
> {
    match value_in(entries, name) {
        Some(v) => v,
        None => default,
    }
}

/// The value of a variable that is set and not empty.
pub open spec fn filled_value(entries: Seq<(String, String)>, name: Seq<char>) -> Option<
    Seq<char>,
> {
    match value_in(entries, name) {
        Some(v) => if v.len() > 0 {
            Some(v)
        } else {
            None
        },
        None => None,
    }
}

impl Variables {
    /// The value of a variable.
    pub fn get(&self, name: &str) -> (r: Option<&String>)
        ensures
            match r {
                Some(v) => value_in(self.entries@, name@) == Some(v@),
                None => value_in(self.entries@, name@) is None,
            },
    {
        let mut i: usize = 0;
        assert(self.entries@.skip(0) =~= self.entries@);
        while i < self.entries.len()
            invariant
                i <= self.entries@.len(),
                value_in(self.entries@, name@) == value_in(self.entries@.skip(i as int), name@),
            decreases self.entries@.len() - i,
        {
            assert(self.entries@.skip(i as int)[0] == self.entries@[i as int]);
            assert(self.entries@.skip(i as int).skip(1) =~= self.entries@.skip(i + 1));
            if text_eq(self.entries[i].0.as_str(), name) {
                return Some(&self.entries[i].1);
            }
            i = i + 1;
        }
        None
    }

    fn text(&self, name: &str, default: &str) -> (r: String)
        ensures
            r@ == value_or(self.entries@, name@, default@),
    {
        match self.get(name) {
            Some(v) => v.clone(),
            None => default.to_string(),
        }
    }

    fn filled(&self, name: &str) -> (r: Option<String>)
        ensures
            opt_text(r) == filled_value(self.entries@, name@),
    {
        match self.get(name) {
            Some(v) => if v.as_str().is_empty() {
                None
            } else {
                Some(v.clone())
            },
            None => None,
        }
    }

    fn unsigned(&self, name: &str, default: &str) -> (r: Option<u64>)
        ensures
            r == parsed_u64(value_or(self.entries@, name@, default@)),
    {
        parse_u64(self.text(name, default).as_str())
    }

    fn signed(&self, name: &str, default: &str) -> (r: Option<i64>)
        ensures
            r == parsed_i64(value_or(self.entries@, name@, default@)),
    {
        parse_i64(self.text(name, default).as_str())
    }
}

/// The parts of a text between commas, without white space around them and
/// without the empty ones; `from` is where the part begins that `to` is in.
pub open spec fn listed_from(s: Seq<char>, from: int, to: int) -> Seq<Seq<char>>
    recommends
        0 <= from <= to <= s.len(),
    decreases s.len() - to,
{
    if 0 <= from <= to < s.len() {
        if s[to] == ',' {
            part(s.subrange(from, to)) + listed_from(s, to + 1, to + 1)
        } else {
            listed_from(s, from, to + 1)
        }
    } else {
        part(s.subrange(from, to))
    }
}

/// A part of a list, unless it is empty.
pub open spec fn part(s: Seq<char>) -> Seq<Seq<char>> {
    if trimmed(s).len() > 0 {
        seq![trimmed(s)]
    } else {
        Seq::empty()
    }
}

/// The parts of a text between commas.
pub open spec fn listed(s: Seq<char>) -> Seq<Seq<char>> {
    listed_from(s, 0, 0)
}

/// The characters of texts.
pub open spec fn texts_of(v: Seq<String>) -> Seq<Seq<char>> {
    v.map_values(|s: String| s@)
}

fn push_part(parts: &mut Vec<String>, x: &Vec<char>, from: usize, to: usize)
    requires
        from <= to <= x@.len(),
    ensures
        texts_of(final(parts)@) == texts_of(old(parts)@) + part(
            x@.subrange(from as int, to as int),
        ),
{
    let ghost before = parts@;
    let raw: String = text_between(x, from, to);
    let t: String = trim(raw.as_str());
    if t.as_str().is_empty() {
        assert(texts_of(parts@) =~= texts_of(before) + Seq::<Seq<char>>::empty());
    } else {
        parts.push(t);
        assert(texts_of(parts@) =~= texts_of(before) + seq![t@]);
    }
}

/// The parts of a text between commas, without white space around them and
/// without the empty ones.
pub fn split_list(s: &str) -> (r: Vec<String>)
    ensures
        texts_of(r@) == listed(s@),
{
    let x: Vec<char> = chars_of(s);
    let mut parts: Vec<String> = Vec::new();
    let mut from: usize = 0;
    let mut to: usize = 0;
    assert(texts_of(parts@) + listed_from(s@, 0, 0) =~= listed(s@));
    while to < x.len()
        invariant
            from <= to <= x@.len(),
            x@ == s@,
            listed(s@) == texts_of(parts@) + listed_from(s@, from as int, to as int),
        decreases x@.len() - to,
    {
        if x[to] == ',' {
            let ghost before = texts_of(parts@);
            push_part(&mut parts, &x, from, to);
            assert(before + (part(s@.subrange(from as int, to as int)) + listed_from(
                s@,
                to + 1,
                to + 1,
            )) =~= texts_of(parts@) + listed_from(s@, to + 1, to + 1));
            from = to + 1;
        }
        to = to + 1;
    }
    push_part(&mut parts, &x, from, to);
    parts
}

/// The first variable that is not what it has to be, if there is one; the flag
/// tells of the fee rate whether it is a number.
pub open spec fn config_error(e: Seq<(String, String)>, fee_rate_is_number: bool) -> Option<
    ConfigError,
> {
    if !(parsed_u64(value_or(e, "API_PORT"@, "3080"@)) matches Some(p) && p <= u16::MAX) {
        Some(ConfigError::ApiPort)
    } else if parsed_u64(value_or(e, "MEMPOOL_POLL_INTERVAL_SECS"@, "5"@)) is None {
        Some(ConfigError::MempoolPollInterval)
    } else if parsed_u64(value_or(e, "BLOCK_POLL_INTERVAL_SECS"@, "15"@)) is None {
        Some(ConfigError::BlockPollInterval)
    } else if parsed_i64(value_or(e, "INVOICE_EXPIRY_MINUTES"@, "30"@)) is None {
        Some(ConfigError::InvoiceExpiry)
    } else if parsed_i64(value_or(e, "DATA_PURGE_DAYS"@, "30"@)) is None {
        Some(ConfigError::DataPurgeDays)
    } else if parsed_u64(value_or(e, "PRICE_CACHE_SECS"@, "300"@)) is None {
        Some(ConfigError::PriceCache)
    } else if !fee_rate_is_number {
        Some(ConfigError::FeeRate)
    } else if parsed_i64(value_or(e, "BILLING_CYCLE_DAYS_NEW"@, "7"@)) is None {
        Some(ConfigError::BillingCycleNew)
    } else if parsed_i64(value_or(e, "BILLING_CYCLE_DAYS_STANDARD"@, "30"@)) is None {
        Some(ConfigError::BillingCycleStandard)
    } else {
        None
    }
}

/// Whether a configuration is the one that variables give.
pub open spec fn configures(e: Seq<(String, String)>, c: &Config) -> bool {
    &&& c.database_url@ == value_or(e, "DATABASE_URL"@, "sqlite:cipherpay.db"@)
    &&& c.cipherscan_api_url@ == value_or(
        e,
        "CIPHERSCAN_API_URL"@,
        "https://api.testnet.cipherscan.app"@,
    )
    &&& c.network@ == value_or(e, "NETWORK"@, "testnet"@)
    &&& c.api_host@ == value_or(e, "API_HOST"@, "127.0.0.1"@)
    &&& parsed_u64(value_or(e, "API_PORT"@, "3080"@)) == Some(c.api_port as u64)
    &&& parsed_u64(value_or(e, "MEMPOOL_POLL_INTERVAL_SECS"@, "5"@)) == Some(
        c.mempool_poll_interval_secs,
    )
    &&& parsed_u64(value_or(e, "BLOCK_POLL_INTERVAL_SECS"@, "15"@)) == Some(
        c.block_poll_interval_secs,
    )
    &&& c.encryption_key@ == value_or(e, "ENCRYPTION_KEY"@, ""@)
    &&& parsed_i64(value_or(e, "INVOICE_EXPIRY_MINUTES"@, "30"@)) == Some(c.invoice_expiry_minutes)
    &&& parsed_i64(value_or(e, "DATA_PURGE_DAYS"@, "30"@)) == Some(c.data_purge_days)
    &&& c.coingecko_api_url@ == value_or(
        e,
        "COINGECKO_API_URL"@,
        "https://api.coingecko.com/api/v3"@,
    )
    &&& parsed_u64(value_or(e, "PRICE_CACHE_SECS"@, "300"@)) == Some(c.price_cache_secs)
    &&& texts_of(c.allowed_origins@) == listed(value_or(e, "ALLOWED_ORIGINS"@, ""@))
    &&& opt_text(c.cookie_domain) == filled_value(e, "COOKIE_DOMAIN"@)
    &&& opt_text(c.frontend_url) == filled_value(e, "FRONTEND_URL"@)
    &&& opt_text(c.smtp_host) == filled_value(e, "SMTP_HOST"@)
    &&& opt_text(c.smtp_user) == filled_value(e, "SMTP_USER"@)
    &&& opt_text(c.smtp_pass) == filled_value(e, "SMTP_PASS"@)
    &&& opt_text(c.smtp_from) == filled_value(e, "SMTP_FROM"@)
    &&& opt_text(c.fee_ufvk) == filled_value(e, "FEE_UFVK"@)
    &&& opt_text(c.fee_address) == filled_value(e, "FEE_ADDRESS"@)
    &&& parsed_i64(value_or(e, "BILLING_CYCLE_DAYS_NEW"@, "7"@)) == Some(c.billing_cycle_days_new)
    &&& parsed_i64(value_or(e, "BILLING_CYCLE_DAYS_STANDARD"@, "30"@)) == Some(
        c.billing_cycle_days_standard,
    )
}

impl Config {
    /// Reads the configuration from variables. Of the fee rate it is told
    /// whether it is above zero; nothing where it is no number.
    pub fn from_variables(vars: &Variables, fee_rate_is_positive: Option<bool>) -> (r: Result<
        Config,
        ConfigError,
    >)
        ensures
            match r {
                Ok(c) => {
                    &&& config_error(vars.entries@, fee_rate_is_positive is Some) is None
                    &&& configures(vars.entries@, &c)
                    &&& fee_rate_is_positive == Some(c.fee_rate_is_positive)
                },
                Err(x) => config_error(vars.entries@, fee_rate_is_positive is Some) == Some(x),
            },
    {
        let api_port: u16 = match vars.unsigned("API_PORT", "3080") {
            Some(p) => if p <= u16::MAX as u64 {
                p as u16
            } else {
                return Err(ConfigError::ApiPort);
            },
            None => {
                return Err(ConfigError::ApiPort);
            },
        };
        let mempool_poll_interval_secs: u64 = match vars.unsigned(
            "MEMPOOL_POLL_INTERVAL_SECS",
            "5",
        ) {
            Some(n) => n,
            None => {
                return Err(ConfigError::MempoolPollInterval);
            },
        };
        let block_poll_interval_secs: u64 = match vars.unsigned("BLOCK_POLL_INTERVAL_SECS", "15") {
            Some(n) => n,
            None => {
                return Err(ConfigError::BlockPollInterval);
            },
        };
        let invoice_expiry_minutes: i64 = match vars.signed("INVOICE_EXPIRY_MINUTES", "30") {
            Some(n) => n,
            None => {
                return Err(ConfigError::InvoiceExpiry);
            },
        };
        let data_purge_days: i64 = match vars.signed("DATA_PURGE_DAYS", "30") {
            Some(n) => n,
            None => {
                return Err(ConfigError::DataPurgeDays);
            },
        };
        let price_cache_secs: u64 = match vars.unsigned("PRICE_CACHE_SECS", "300") {
            Some(n) => n,
            None => {
                return Err(ConfigError::PriceCache);
            },
        };
        let fee_rate_is_positive: bool = match fee_rate_is_positive {
            Some(b) => b,
            None => {
                return Err(ConfigError::FeeRate);
            },
        };
        let billing_cycle_days_new: i64 = match vars.signed("BILLING_CYCLE_DAYS_NEW", "7") {
            Some(n) => n,
            None => {
                return Err(ConfigError::BillingCycleNew);
            },
        };
        let billing_cycle_days_standard: i64 = match vars.signed(
            "BILLING_CYCLE_DAYS_STANDARD",
            "30",
        ) {
            Some(n) => n,
            None => {
                return Err(ConfigError::BillingCycleStandard);
            },
        };
        let origins: String = vars.text("ALLOWED_ORIGINS", "");
        Ok(
            Config {
                database_url: vars.text("DATABASE_URL", "sqlite:cipherpay.db"),
                cipherscan_api_url: vars.text(
                    "CIPHERSCAN_API_URL",
                    "https://api.testnet.cipherscan.app",
                ),
                network: vars.text("NETWORK", "testnet"),
                api_host: vars.text("API_HOST", "127.0.0.1"),
                api_port,
                mempool_poll_interval_secs,
                block_poll_interval_secs,
                encryption_key: vars.text("ENCRYPTION_KEY", ""),
                invoice_expiry_minutes,
                data_purge_days,
                coingecko_api_url: vars.text(
                    "COINGECKO_API_URL",
                    "https://api.coingecko.com/api/v3",
                ),
                price_cache_secs,
                allowed_origins: split_list(origins.as_str()),
                cookie_domain: vars.filled("COOKIE_DOMAIN"),
                frontend_url: vars.filled("FRONTEND_URL"),
                smtp_host: vars.filled("SMTP_HOST"),
                smtp_user: vars.filled("SMTP_USER"),
                smtp_pass: vars.filled("SMTP_PASS"),
                smtp_from: vars.filled("SMTP_FROM"),
                fee_ufvk: vars.filled("FEE_UFVK"),
                fee_address: vars.filled("FEE_ADDRESS"),
                fee_rate_is_positive,
                billing_cycle_days_new,
                billing_cycle_days_standard,
            },
        )
    }

    /// Whether the service runs on the test network.
    pub fn is_testnet(&self) -> (r: bool)
        ensures
            r == (self.network@ == "testnet"@),
    {
        text_eq(self.network.as_str(), "testnet")
    }

    /// Whether mail can be sent.
    pub fn smtp_configured(&self) -> (r: bool)
        ensures
            r == (self.smtp_host is Some && self.smtp_from is Some),
    {
        self.smtp_host.is_some() && self.smtp_from.is_some()
    }

    /// Whether fees are charged.
    pub fn fee_enabled(&self) -> (r: bool)
        ensures
            r == (self.fee_address is Some && self.fee_ufvk is Some && self.fee_rate_is_positive),
    {
        self.fee_address.is_some() && self.fee_ufvk.is_some() && self.fee_rate_is_positive
    }

    /// Whether requests from any origin are answered.
    pub fn any_origin_allowed(&self) -> (r: bool)
        ensures
            r == (self.network@ == "testnet"@ || self.allowed_origins@.len() == 0),
    {
        self.is_testnet() || self.allowed_origins.len() == 0
    }
}

// ---------------------------------------------------------------------------
// Laws
// ---------------------------------------------------------------------------

/// A variable has the value of its first entry, or its default, and one that is
/// set to nothing counts as not filled.
pub proof fn first_entry_counts(
    entries: Seq<(String, String)>,
    name: Seq<char>,
    default: Seq<char>,
    k: int,
)
    requires
        0 <= k < entries.len(),
    ensures
        entries[k].0@ == name && (forall|i: int|
            0 <= i < k ==> (#[trigger] entries[i]).0@ != name) ==> value_in(entries, name) == Some(
            entries[k].1@,
        ) && value_or(entries, name, default) == entries[k].1@,
        (forall|i: int| 0 <= i < entries.len() ==> (#[trigger] entries[i]).0@ != name)
            ==> value_in(entries, name) is None && value_or(entries, name, default) == default
            && filled_value(entries, name) is None,
        value_in(entries, name) matches Some(v) && v.len() > 0 ==> filled_value(entries, name)
            == value_in(entries, name),
        value_in(entries, name) matches Some(v) && v.len() == 0 ==> filled_value(
            entries,
            name,
        ) is None,
    decreases entries.len(),
{
    let rest = entries.skip(1);
    assert(forall|i: int| 0 <= i < rest.len() ==> #[trigger] rest[i] == entries[i + 1]);
    if k > 0 {
        first_entry_counts(rest, name, default, k - 1);
    } else if rest.len() > 0 {
        first_entry_counts(rest, name, default, 0);
    }
}

/// The texts of a configuration are those that are set, or their defaults.
pub proof fn texts_are_set_or_default(e: Seq<(String, String)>, c: Config)
    requires
        configures(e, &c),
    ensures
        value_in(e, "NETWORK"@) is None ==> c.network@ == "testnet"@,
        value_in(e, "NETWORK"@) matches Some(v) ==> c.network@ == v,
        value_in(e, "DATABASE_URL"@) is None ==> c.database_url@ == "sqlite:cipherpay.db"@,
        value_in(e, "DATABASE_URL"@) matches Some(v) ==> c.database_url@ == v,
        value_in(e, "API_HOST"@) is None ==> c.api_host@ == "127.0.0.1"@,
        value_in(e, "API_HOST"@) matches Some(v) ==> c.api_host@ == v,
        value_in(e, "CIPHERSCAN_API_URL"@) is None ==> c.cipherscan_api_url@
            == "https://api.testnet.cipherscan.app"@,
        value_in(e, "CIPHERSCAN_API_URL"@) matches Some(v) ==> c.cipherscan_api_url@ == v,
        value_in(e, "COINGECKO_API_URL"@) is None ==> c.coingecko_api_url@
            == "https://api.coingecko.com/api/v3"@,
        value_in(e, "COINGECKO_API_URL"@) matches Some(v) ==> c.coingecko_api_url@ == v,
        value_in(e, "ENCRYPTION_KEY"@) is None ==> c.encryption_key@.len() == 0,
        value_in(e, "ENCRYPTION_KEY"@) matches Some(v) ==> c.encryption_key@ == v,
        opt_text(c.cookie_domain) == filled_value(e, "COOKIE_DOMAIN"@),
        opt_text(c.frontend_url) == filled_value(e, "FRONTEND_URL"@),
        opt_text(c.smtp_host) == filled_value(e, "SMTP_HOST"@),
        opt_text(c.smtp_user) == filled_value(e, "SMTP_USER"@),
        opt_text(c.smtp_pass) == filled_value(e, "SMTP_PASS"@),
        opt_text(c.smtp_from) == filled_value(e, "SMTP_FROM"@),
        opt_text(c.fee_ufvk) == filled_value(e, "FEE_UFVK"@),
        opt_text(c.fee_address) == filled_value(e, "FEE_ADDRESS"@),
{
    reveal_strlit("");
    assert(""@.len() == 0);
}

/// The numbers of a configuration are those that are set. Where none are set,
/// the port is 3080, the pool is asked every 5 seconds and the chain every 15,
/// an invoice lasts 30 minutes, data is kept for 30 days, rates for 5 minutes,
/// and billing cycles run for 7 days at first and 30 later.
pub proof fn numbers_are_set_or_default(e: Seq<(String, String)>, c: Config)
    requires
        configures(e, &c),
    ensures
        value_in(e, "API_PORT"@) is None ==> c.api_port == 3080,
        value_in(e, "API_PORT"@) matches Some(v) ==> parsed_u64(v) == Some(c.api_port as u64),
        value_in(e, "MEMPOOL_POLL_INTERVAL_SECS"@) is None ==> c.mempool_poll_interval_secs == 5,
        value_in(e, "MEMPOOL_POLL_INTERVAL_SECS"@) matches Some(v) ==> parsed_u64(v) == Some(
            c.mempool_poll_interval_secs,
        ),
        value_in(e, "BLOCK_POLL_INTERVAL_SECS"@) is None ==> c.block_poll_interval_secs == 15,
        value_in(e, "BLOCK_POLL_INTERVAL_SECS"@) matches Some(v) ==> parsed_u64(v) == Some(
            c.block_poll_interval_secs,
        ),
        value_in(e, "INVOICE_EXPIRY_MINUTES"@) is None ==> c.invoice_expiry_minutes == 30,
        value_in(e, "INVOICE_EXPIRY_MINUTES"@) matches Some(v) ==> parsed_i64(v) == Some(
            c.invoice_expiry_minutes,
        ),
        value_in(e, "DATA_PURGE_DAYS"@) is None ==> c.data_purge_days == 30,
        value_in(e, "DATA_PURGE_DAYS"@) matches Some(v) ==> parsed_i64(v) == Some(
            c.data_purge_days,
        ),
        value_in(e, "PRICE_CACHE_SECS"@) is None ==> c.price_cache_secs == 300,
        value_in(e, "PRICE_CACHE_SECS"@) matches Some(v) ==> parsed_u64(v) == Some(
            c.price_cache_secs,
        ),
        value_in(e, "BILLING_CYCLE_DAYS_NEW"@) is None ==> c.billing_cycle_days_new == 7,
        value_in(e, "BILLING_CYCLE_DAYS_NEW"@) matches Some(v) ==> parsed_i64(v) == Some(
            c.billing_cycle_days_new,
        ),
        value_in(e, "BILLING_CYCLE_DAYS_STANDARD"@) is None ==> c.billing_cycle_days_standard
            == 30,
        value_in(e, "BILLING_CYCLE_DAYS_STANDARD"@) matches Some(v) ==> parsed_i64(v) == Some(
            c.billing_cycle_days_standard,
        ),
{
    defaults_are_numbers();
}

proof fn defaults_are_numbers()
    ensures
        parsed_u64("3080"@) == Some(3080u64),
        parsed_u64("5"@) == Some(5u64),
        parsed_u64("15"@) == Some(15u64),
        parsed_u64("300"@) == Some(300u64),
        parsed_i64("30"@) == Some(30i64),
        parsed_i64("7"@) == Some(7i64),
{
    reveal_strlit("3080");
    reveal_strlit("5");
    reveal_strlit("15");
    reveal_strlit("300");
    reveal_strlit("30");
    reveal_strlit("7");
    reveal_with_fuel(decimal, 5);
    assert("3080"@ =~= decimal(3080));
    assert("5"@ =~= decimal(5));
    assert("15"@ =~= decimal(15));
    assert("300"@ =~= decimal(300));
    assert("30"@ =~= decimal(30));
    assert("7"@ =~= decimal(7));
    written_number_is_read_back(3080);
    written_number_is_read_back(5);
    written_number_is_read_back(15);
    written_number_is_read_back(300);
    written_number_is_read_back(30);
    written_number_is_read_back(7);
}

/// A configuration is read where each number in it is one, and the port is not
/// too large. The first that is not is the error.
pub proof fn first_bad_number_is_named(e: Seq<(String, String)>, fee_rate_is_number: bool)
    ensures
        ({
            let r = config_error(e, fee_rate_is_number);
            let port = value_in(e, "API_PORT"@) is None || (parsed_u64(
                value_in(e, "API_PORT"@)->0,
            ) is Some && parsed_u64(value_in(e, "API_PORT"@)->0)->0 <= 65535);
            let pool = value_in(e, "MEMPOOL_POLL_INTERVAL_SECS"@) is None || parsed_u64(
                value_in(e, "MEMPOOL_POLL_INTERVAL_SECS"@)->0,
            ) is Some;
            let block = value_in(e, "BLOCK_POLL_INTERVAL_SECS"@) is None || parsed_u64(
                value_in(e, "BLOCK_POLL_INTERVAL_SECS"@)->0,
            ) is Some;
            let expiry = value_in(e, "INVOICE_EXPIRY_MINUTES"@) is None || parsed_i64(
                value_in(e, "INVOICE_EXPIRY_MINUTES"@)->0,
            ) is Some;
            let purge = value_in(e, "DATA_PURGE_DAYS"@) is None || parsed_i64(
                value_in(e, "DATA_PURGE_DAYS"@)->0,
            ) is Some;
            let cache = value_in(e, "PRICE_CACHE_SECS"@) is None || parsed_u64(
                value_in(e, "PRICE_CACHE_SECS"@)->0,
            ) is Some;
            let new = value_in(e, "BILLING_CYCLE_DAYS_NEW"@) is None || parsed_i64(
                value_in(e, "BILLING_CYCLE_DAYS_NEW"@)->0,
            ) is Some;
            let standard = value_in(e, "BILLING_CYCLE_DAYS_STANDARD"@) is None || parsed_i64(
                value_in(e, "BILLING_CYCLE_DAYS_STANDARD"@)->0,
            ) is Some;
            let polls = port && pool && block;
            let times = polls && expiry && purge && cache;
            &&& !port <==> r == Some(ConfigError::ApiPort)
            &&& port && !pool <==> r == Some(ConfigError::MempoolPollInterval)
            &&& port && pool && !block <==> r == Some(ConfigError::BlockPollInterval)
            &&& polls && !expiry <==> r == Some(ConfigError::InvoiceExpiry)
            &&& polls && expiry && !purge <==> r == Some(ConfigError::DataPurgeDays)
            &&& polls && expiry && purge && !cache <==> r == Some(ConfigError::PriceCache)
            &&& times && !fee_rate_is_number <==> r == Some(ConfigError::FeeRate)
            &&& times && fee_rate_is_number && !new <==> r == Some(ConfigError::BillingCycleNew)
            &&& times && fee_rate_is_number && new && !standard <==> r == Some(
                ConfigError::BillingCycleStandard,
            )
            &&& times && fee_rate_is_number && new && standard <==> r is None
        }),
{
    defaults_are_numbers();
}

/// A list is set apart by commas: each part counts without the white space
/// around it, unless nothing is left of it.
pub proof fn commas_set_parts_apart(first: Seq<char>, rest: Seq<char>)
    requires
        !first.contains(','),
    ensures
        trimmed(first).len() > 0 ==> listed(first) == seq![trimmed(first)] && listed(
            first + seq![','] + rest,
        ) == seq![trimmed(first)] + listed(rest),
        trimmed(first).len() == 0 ==> listed(first) == Seq::<Seq<char>>::empty() && listed(
            first + seq![','] + rest,
        ) == listed(rest),
{
    let s = first + seq![','] + rest;
    let n = first.len() as int;
    part_goes_on(first, first, 0);
    assert(first.subrange(0, n) =~= first);
    part_goes_on(s, first, 0);
    assert(s[n] == ',');
    assert(s.subrange(0, n) =~= first);
    assert(listed_from(s, 0, n) == part(first) + listed_from(s, n + 1, n + 1));
    rest_is_listed_alike(first + seq![','], rest, 0, 0);
    assert(first + seq![','] + rest =~= s);
    assert(Seq::<Seq<char>>::empty() + listed(rest) =~= listed(rest));
}

proof fn part_goes_on(s: Seq<char>, first: Seq<char>, to: int)
    requires
        !first.contains(','),
        first.is_prefix_of(s),
        0 <= to <= first.len(),
    ensures
        listed_from(s, 0, to) == listed_from(s, 0, first.len() as int),
    decreases first.len() - to,
{
    if to < first.len() {
        assert(s.take(first.len() as int) =~= first);
        assert(s[to] == first[to]);
        assert(first.contains(first[to]));
        part_goes_on(s, first, to + 1);
    }
}

proof fn rest_is_listed_alike(start: Seq<char>, rest: Seq<char>, from: int, to: int)
    requires
        0 <= from <= to <= rest.len(),
    ensures
        listed_from(start + rest, start.len() + from, start.len() + to) == listed_from(
            rest,
            from,
            to,
        ),
    decreases rest.len() - to,
{
    let s = start + rest;
    let n = start.len() as int;
    assert(s.subrange(n + from, n + to) =~= rest.subrange(from, to));
    if to < rest.len() {
        assert(s[n + to] == rest[to]);
        if rest[to] == ',' {
            rest_is_listed_alike(start, rest, to + 1, to + 1);
        } else {
            rest_is_listed_alike(start, rest, from, to + 1);
        }
    }
}

} // verus!
