use std::collections::HashMap;

use synapse::config::Config;
use synapse::providers::credentials::{credential_problem, gen_ai_system, required_credential, CredentialError};

fn env(pairs: &[(&str, &str)]) -> HashMap<String, String> {
    pairs.iter().map(|(k, v)| (k.to_string(), v.to_string())).collect()
}

#[test]
fn credentials_per_provider() {
    assert_eq!(required_credential("vertex"), Some("VERTEX_PROJECT"));
    assert_eq!(required_credential("qwen"), Some("DASHSCOPE_API_KEY"));
    assert_eq!(required_credential("openai"), Some("OPENAI_API_KEY"));
    assert_eq!(required_credential("oai_compat"), Some("OAI_COMPAT_BASE_URL"));
    assert_eq!(required_credential("mystery"), None);
}

#[test]
fn missing_blank_and_unknown_fail() {
    let e = env(&[("OPENAI_API_KEY", "sk"), ("DASHSCOPE_API_KEY", "  ")]);
    assert!(credential_problem(&e, "openai").is_none());
    match credential_problem(&e, "qwen") {
        Some(p @ CredentialError::Missing { .. }) => assert_eq!(p.message(), "provider 'qwen' requires DASHSCOPE_API_KEY"),
        other => panic!("{other:?}"),
    }
    match credential_problem(&e, "vertex") {
        Some(CredentialError::Missing { variable, .. }) => assert_eq!(variable, "VERTEX_PROJECT"),
        other => panic!("{other:?}"),
    }
    match credential_problem(&e, "mystery") {
        Some(p @ CredentialError::UnknownProvider(_)) => assert_eq!(p.message(), "routes reference unknown provider 'mystery'"),
        other => panic!("{other:?}"),
    }
}

#[test]
fn systems_per_provider() {
    assert_eq!(gen_ai_system("vertex"), "vertexai");
    assert_eq!(gen_ai_system("qwen"), "dashscope");
    assert_eq!(gen_ai_system("oai_compat"), "oai_compat");
    assert_eq!(gen_ai_system("openai"), "openai");
    assert_eq!(gen_ai_system("other"), "openai");
}

#[test]
fn config_clones() {
    let c = Config::from_env_map(&env(&[("SYNAPSE_ADDR", "1.2.3.4:5"), ("X", "y")])).ok().unwrap();
    let d = c.clone();
    assert_eq!(d.addr, "1.2.3.4:5");
    assert_eq!(d.request_timeout, c.request_timeout);
    assert_eq!(d.env, c.env);
}
