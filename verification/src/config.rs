//! Runtime configuration read from an environment map. Present, non-blank
//! variables win over the built-in defaults.
use std::collections::HashMap;
use std::time::Duration;

use vstd::prelude::*;

use crate::text::{is_blank, parse_u64, parse_u64_spec, str_is_blank, text_eq, IntParseError};

verus! {

/// Where the cost ledger is written.
#[derive(Debug, Clone, Copy, PartialEq, Eq, Structural)]
pub enum LedgerBackend {
    Sqlite,
    Postgres,
}

/// The gateway's runtime settings.
#[derive(Debug)]
pub struct Config {
    pub addr: String,
    pub metrics_addr: String,
    pub routes_path: String,
    pub pricing_path: String,
    pub ledger_backend: LedgerBackend,
    pub ledger_dsn: Option<String>,
    pub default_tenant: String,
    pub request_timeout: Duration,
    /// Provider credentials/base-urls, read straight from the env map.
    pub env: HashMap<String, String>,
}

impl Clone for Config {
    /// A copy of every setting.
    fn clone(&self) -> (r: Config)
        ensures
            r.addr@ == self.addr@,
            r.metrics_addr@ == self.metrics_addr@,
            r.routes_path@ == self.routes_path@,
            r.pricing_path@ == self.pricing_path@,
            r.ledger_backend == self.ledger_backend,
            opt_text(r.ledger_dsn) == opt_text(self.ledger_dsn),
            r.default_tenant@ == self.default_tenant@,
            r.request_timeout == self.request_timeout,
            r.env@ == self.env@,
    {
        Config {
            addr: self.addr.clone(),
            metrics_addr: self.metrics_addr.clone(),
            routes_path: self.routes_path.clone(),
            pricing_path: self.pricing_path.clone(),
            ledger_backend: self.ledger_backend,
            ledger_dsn: match &self.ledger_dsn {
                Some(d) => Some(d.clone()),
                None => None,
            },
            default_tenant: self.default_tenant.clone(),
            request_timeout: self.request_timeout,
            env: self.env.clone(),
        }
    }
}

/// Why an environment map is not a valid configuration.
#[derive(Debug, Clone)]
pub enum ConfigError {
    /// `SYNAPSE_LEDGER_BACKEND` names neither `sqlite` nor `postgres`.
    InvalidLedgerBackend(String),
    /// `SYNAPSE_REQUEST_TIMEOUT_SECS` is not a decimal `u64`.
    InvalidRequestTimeout(IntParseError),
}

/// The `Duration` that `Duration::from_secs` builds from a number of seconds.
pub uninterp spec fn duration_of_secs(secs: u64) -> Duration;

/// `Duration::from_secs`: a function of its argument alone; it never panics.
pub assume_specification[ core::time::Duration::from_secs ](secs: u64) -> (r: Duration)
    ensures
        r == duration_of_secs(secs),
;

/// `HashMap::get` on a map keyed by `String`, looked up by `&str` and cloned
/// out: it finds the entry whose key has the same characters, if any.
#[verifier::external_body]
fn env_lookup(env: &HashMap<String, String>, key: &str) -> (r: Option<String>)
    ensures
        r is Some <==> env.deep_view().contains_key(key@),
        r matches Some(v) ==> v@ == env.deep_view()[key@],
{
    env.get(key).cloned()
}

/// The value of a variable that is present and not blank.
pub open spec fn env_setting(env: Map<Seq<char>, Seq<char>>, key: Seq<char>) -> Option<Seq<char>> {
    if env.contains_key(key) && !is_blank(env[key]) {
        Some(env[key])
    } else {
        None
    }
}

/// A variable's value, or `default` where it is missing or blank.
pub open spec fn env_setting_or(
    env: Map<Seq<char>, Seq<char>>,
    key: Seq<char>,
    default: Seq<char>,
) -> Seq<char> {
    match env_setting(env, key) {
        Some(v) => v,
        None => default,
    }
}

/// The text of an optional string.
pub open spec fn opt_text(o: Option<String>) -> Option<Seq<char>> {
    match o {
        Some(s) => Some(s@),
        None => None,
    }
}

/// The backend that a setting names, if it names one.
pub open spec fn backend_named(v: Seq<char>) -> Option<LedgerBackend> {
    if v == "sqlite"@ {
        Some(LedgerBackend::Sqlite)
    } else if v == "postgres"@ {
        Some(LedgerBackend::Postgres)
    } else {
        None
    }
}

/// The ledger-backend setting of an environment.
pub open spec fn backend_setting(env: Map<Seq<char>, Seq<char>>) -> Seq<char> {
    env_setting_or(env, "SYNAPSE_LEDGER_BACKEND"@, "sqlite"@)
}

/// The request-timeout setting of an environment, parsed.
pub open spec fn timeout_setting(env: Map<Seq<char>, Seq<char>>) -> Result<u64, IntParseError> {
    parse_u64_spec(env_setting_or(env, "SYNAPSE_REQUEST_TIMEOUT_SECS"@, "120"@))
}

/// The message of a configuration error, as its `Display` reads.
pub open spec fn spec_config_message(e: ConfigError) -> Seq<char> {
    match e {
        ConfigError::InvalidLedgerBackend(v) => "SYNAPSE_LEDGER_BACKEND must be sqlite|postgres, got '"@
            + v@ + "'"@,
        ConfigError::InvalidRequestTimeout(k) => "SYNAPSE_REQUEST_TIMEOUT_SECS: "@
            + crate::text::spec_int_error_message(k),
    }
}

impl ConfigError {
    /// The error's message.
    pub fn message(&self) -> (r: String)
        ensures
            r@ == spec_config_message(*self),
    {
        proof {
            reveal_strlit("SYNAPSE_LEDGER_BACKEND must be sqlite|postgres, got '");
            reveal_strlit("'");
            reveal_strlit("SYNAPSE_REQUEST_TIMEOUT_SECS: ");
        }
        match self {
            ConfigError::InvalidLedgerBackend(v) => String::from_str(
                "SYNAPSE_LEDGER_BACKEND must be sqlite|postgres, got '",
            ).concat(v.as_str()).concat("'"),
            ConfigError::InvalidRequestTimeout(k) => String::from_str(
                "SYNAPSE_REQUEST_TIMEOUT_SECS: ",
            ).concat(crate::text::int_error_message(*k)),
        }
    }
}

/// A present, non-blank variable.
pub(crate) fn setting(env: &HashMap<String, String>, key: &str) -> (r: Option<String>)
    ensures
        opt_text(r) == env_setting(env.deep_view(), key@),
{
    match env_lookup(env, key) {
        Some(v) => {
            if str_is_blank(v.as_str()) {
                None
            } else {
                Some(v)
            }
        },
        None => None,
    }
}

/// A variable, or its default.
fn setting_or(env: &HashMap<String, String>, key: &str, default: &str) -> (r: String)
    ensures
        r@ == env_setting_or(env.deep_view(), key@, default@),
{
    match setting(env, key) {
        Some(v) => v,
        None => String::from_str(default),
    }
}

impl Config {
    /// Reads the configuration from an environment map.
    pub fn from_env_map(env: &HashMap<String, String>) -> (r: Result<Config, ConfigError>)
        ensures
            ({
                let m = env.deep_view();
                match r {
                    Err(ConfigError::InvalidLedgerBackend(v)) => {
                        &&& backend_named(backend_setting(m)) is None
                        &&& v@ == backend_setting(m)
                    },
                    Err(ConfigError::InvalidRequestTimeout(k)) => {
                        &&& backend_named(backend_setting(m)) is Some
                        &&& timeout_setting(m) == Err::<u64, IntParseError>(k)
                    },
                    Ok(c) => {
                        &&& backend_named(backend_setting(m)) == Some(c.ledger_backend)
                        &&& timeout_setting(m) is Ok
                        &&& c.request_timeout == duration_of_secs(timeout_setting(m)->Ok_0)
                        &&& c.addr@ == env_setting_or(m, "SYNAPSE_ADDR"@, "0.0.0.0:8080"@)
                        &&& c.metrics_addr@ == env_setting_or(
                            m,
                            "SYNAPSE_METRICS_ADDR"@,
                            "0.0.0.0:9090"@,
                        )
                        &&& c.routes_path@ == env_setting_or(
                            m,
                            "SYNAPSE_ROUTES_PATH"@,
                            "config/routes.toml"@,
                        )
                        &&& c.pricing_path@ == env_setting_or(
                            m,
                            "SYNAPSE_PRICING_PATH"@,
                            "config/pricing.toml"@,
                        )
                        &&& opt_text(c.ledger_dsn) == env_setting(m, "SYNAPSE_LEDGER_DSN"@)
                        &&& c.default_tenant@ == env_setting_or(
                            m,
                            "SYNAPSE_DEFAULT_TENANT"@,
                            "unattributed"@,
                        )
                        &&& c.env@ == env@
                    },
                }
            }),
    {
        proof {
            reveal_strlit("sqlite");
            reveal_strlit("postgres");
        }
        let backend_text = setting_or(env, "SYNAPSE_LEDGER_BACKEND", "sqlite");
        let backend = if text_eq(backend_text.as_str(), "sqlite") {
            LedgerBackend::Sqlite
        } else if text_eq(backend_text.as_str(), "postgres") {
            LedgerBackend::Postgres
        } else {
            return Err(ConfigError::InvalidLedgerBackend(backend_text));
        };
        let addr = setting_or(env, "SYNAPSE_ADDR", "0.0.0.0:8080");
        let metrics_addr = setting_or(env, "SYNAPSE_METRICS_ADDR", "0.0.0.0:9090");
        let routes_path = setting_or(env, "SYNAPSE_ROUTES_PATH", "config/routes.toml");
        let pricing_path = setting_or(env, "SYNAPSE_PRICING_PATH", "config/pricing.toml");
        let ledger_dsn = setting(env, "SYNAPSE_LEDGER_DSN");
        let default_tenant = setting_or(env, "SYNAPSE_DEFAULT_TENANT", "unattributed");
        let timeout_text = setting_or(env, "SYNAPSE_REQUEST_TIMEOUT_SECS", "120");
        let secs = match parse_u64(timeout_text.as_str()) {
            Ok(n) => n,
            Err(k) => return Err(ConfigError::InvalidRequestTimeout(k)),
        };
        Ok(
            Config {
                addr,
                metrics_addr,
                routes_path,
                pricing_path,
                ledger_backend: backend,
                ledger_dsn,
                default_tenant,
                request_timeout: Duration::from_secs(secs),
                env: env.clone(),
            },
        )
    }
}

} // verus!
