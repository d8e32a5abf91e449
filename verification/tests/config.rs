use std::collections::HashMap;
use std::time::Duration;

use synapse::config::{Config, ConfigError, LedgerBackend};
use synapse::text::IntParseError;

fn env(pairs: &[(&str, &str)]) -> HashMap<String, String> {
    pairs.iter().map(|(k, v)| (k.to_string(), v.to_string())).collect()
}

#[test]
fn defaults_apply_when_env_empty() {
    let c = Config::from_env_map(&env(&[])).ok().unwrap();
    assert_eq!(c.addr, "0.0.0.0:8080");
    assert_eq!(c.ledger_backend, LedgerBackend::Sqlite);
    assert_eq!(c.default_tenant, "unattributed");
}

#[test]
fn env_overrides_and_validates_backend() {
    let c = Config::from_env_map(&env(&[("SYNAPSE_LEDGER_BACKEND", "postgres")])).ok().unwrap();
    assert_eq!(c.ledger_backend, LedgerBackend::Postgres);
    let err = Config::from_env_map(&env(&[("SYNAPSE_LEDGER_BACKEND", "mysql")])).err().unwrap();
    assert!(err.message().contains("sqlite|postgres"));
}

#[test]
fn every_default_applies() {
    let c = Config::from_env_map(&env(&[])).ok().unwrap();
    assert_eq!(c.metrics_addr, "0.0.0.0:9090");
    assert_eq!(c.routes_path, "config/routes.toml");
    assert_eq!(c.pricing_path, "config/pricing.toml");
    assert_eq!(c.ledger_dsn, None);
    assert_eq!(c.request_timeout, Duration::from_secs(120));
    assert!(c.env.is_empty());
}

#[test]
fn blank_values_fall_back_to_defaults() {
    let c = Config::from_env_map(&env(&[
        ("SYNAPSE_ADDR", "   "),
        ("SYNAPSE_LEDGER_DSN", "\t\n"),
        ("SYNAPSE_DEFAULT_TENANT", "\u{3000}"),
    ]))
    .ok()
    .unwrap();
    assert_eq!(c.addr, "0.0.0.0:8080");
    assert_eq!(c.ledger_dsn, None);
    assert_eq!(c.default_tenant, "unattributed");
}

#[test]
fn present_values_are_kept_untrimmed() {
    let c = Config::from_env_map(&env(&[
        ("SYNAPSE_ADDR", " 127.0.0.1:1 "),
        ("SYNAPSE_LEDGER_DSN", "postgres://db"),
        ("SYNAPSE_REQUEST_TIMEOUT_SECS", "+7"),
        ("OPENAI_API_KEY", "k"),
    ]))
    .ok()
    .unwrap();
    assert_eq!(c.addr, " 127.0.0.1:1 ");
    assert_eq!(c.ledger_dsn.as_deref(), Some("postgres://db"));
    assert_eq!(c.request_timeout, Duration::from_secs(7));
    assert_eq!(c.env.get("OPENAI_API_KEY").map(String::as_str), Some("k"));
    assert_eq!(c.env.len(), 4);
}

#[test]
fn invalid_backend_reports_the_value() {
    let err = Config::from_env_map(&env(&[("SYNAPSE_LEDGER_BACKEND", "mysql")])).err().unwrap();
    assert!(matches!(&err, ConfigError::InvalidLedgerBackend(v) if v == "mysql"));
    assert_eq!(err.message(), "SYNAPSE_LEDGER_BACKEND must be sqlite|postgres, got 'mysql'");
}

#[test]
fn invalid_timeout_reports_the_parse_error() {
    let err = Config::from_env_map(&env(&[("SYNAPSE_REQUEST_TIMEOUT_SECS", "12s")])).err().unwrap();
    assert!(matches!(err, ConfigError::InvalidRequestTimeout(IntParseError::InvalidDigit)));
    assert_eq!(err.message(), "SYNAPSE_REQUEST_TIMEOUT_SECS: invalid digit found in string");
    let err = Config::from_env_map(&env(&[("SYNAPSE_REQUEST_TIMEOUT_SECS", "99999999999999999999")]))
        .err()
        .unwrap();
    assert!(matches!(err, ConfigError::InvalidRequestTimeout(IntParseError::PosOverflow)));
    assert_eq!(err.message(), "SYNAPSE_REQUEST_TIMEOUT_SECS: number too large to fit in target type");
}

#[test]
fn backend_is_checked_before_timeout() {
    let err = Config::from_env_map(&env(&[
        ("SYNAPSE_LEDGER_BACKEND", "mysql"),
        ("SYNAPSE_REQUEST_TIMEOUT_SECS", "x"),
    ]))
    .err()
    .unwrap();
    assert!(matches!(err, ConfigError::InvalidLedgerBackend(_)));
}
