//! Which credential each provider needs, checked before boot, and the
//! `gen_ai.system` name each provider reports under.
use std::collections::HashMap;

use vstd::prelude::*;

use crate::config::{env_setting, setting};
use crate::text::text_eq;

verus! {

/// Why a provider referenced by the routes cannot be built.
#[derive(Debug, Clone)]
pub enum CredentialError {
    /// No provider of this name is known.
    UnknownProvider(String),
    /// The provider's required variable is missing or blank.
    Missing { provider: String, variable: String },
}

/// The variable a provider requires.
pub open spec fn spec_required_credential(provider: Seq<char>) -> Option<Seq<char>> {
    if provider == "vertex"@ {
        Some("VERTEX_PROJECT"@)
    } else if provider == "qwen"@ {
        Some("DASHSCOPE_API_KEY"@)
    } else if provider == "openai"@ {
        Some("OPENAI_API_KEY"@)
    } else if provider == "oai_compat"@ {
        Some("OAI_COMPAT_BASE_URL"@)
    } else {
        None
    }
}

/// A credential problem as plain text.
pub enum CredentialErrorView {
    UnknownProvider(Seq<char>),
    Missing { provider: Seq<char>, variable: Seq<char> },
}

impl View for CredentialError {
    type V = CredentialErrorView;

    open spec fn view(&self) -> CredentialErrorView {
        match self {
            CredentialError::UnknownProvider(p) => CredentialErrorView::UnknownProvider(p@),
            CredentialError::Missing { provider, variable } => CredentialErrorView::Missing {
                provider: provider@,
                variable: variable@,
            },
        }
    }
}

/// The problem with a provider in an environment, if any: an unknown
/// provider, or its required variable missing or blank.
pub open spec fn spec_credential_problem(
    env: Map<Seq<char>, Seq<char>>,
    provider: Seq<char>,
) -> Option<CredentialErrorView> {
    match spec_required_credential(provider) {
        None => Some(CredentialErrorView::UnknownProvider(provider)),
        Some(var) => if env_setting(env, var) is None {
            Some(CredentialErrorView::Missing { provider, variable: var })
        } else {
            None
        },
    }
}

/// Each known provider's credential: vertex needs `VERTEX_PROJECT`, qwen
/// `DASHSCOPE_API_KEY`, openai `OPENAI_API_KEY`, oai_compat
/// `OAI_COMPAT_BASE_URL`; no other provider is known.
pub proof fn law_required_credentials(p: Seq<char>)
    ensures
        spec_required_credential("vertex"@) == Some("VERTEX_PROJECT"@),
        spec_required_credential("qwen"@) == Some("DASHSCOPE_API_KEY"@),
        spec_required_credential("openai"@) == Some("OPENAI_API_KEY"@),
        spec_required_credential("oai_compat"@) == Some("OAI_COMPAT_BASE_URL"@),
        p != "vertex"@ && p != "qwen"@ && p != "openai"@ && p != "oai_compat"@
            ==> spec_required_credential(p) is None,
{
    reveal_strlit("vertex");
    reveal_strlit("qwen");
    reveal_strlit("openai");
    reveal_strlit("oai_compat");
    assert("qwen"@.len() != "vertex"@.len());
    assert("openai"@[0] != "vertex"@[0]);
    assert("openai"@.len() != "qwen"@.len());
    assert("oai_compat"@.len() != "vertex"@.len());
    assert("oai_compat"@.len() != "qwen"@.len());
    assert("oai_compat"@.len() != "openai"@.len());
}

/// A known provider whose required variable is missing or blank stops the
/// start, naming the provider and the variable; one whose variable is set
/// passes; an unknown provider stops the start as unknown.
pub proof fn law_credential_check(env: Map<Seq<char>, Seq<char>>, p: Seq<char>, v: Seq<char>)
    ensures
        spec_required_credential(p) == Some(v) && env_setting(env, v) is None
            ==> spec_credential_problem(env, p) == Some(
            CredentialErrorView::Missing { provider: p, variable: v },
        ),
        spec_required_credential(p) == Some(v) && env_setting(env, v) is Some
            ==> spec_credential_problem(env, p) is None,
        spec_required_credential(p) is None ==> spec_credential_problem(env, p) == Some(
            CredentialErrorView::UnknownProvider(p),
        ),
        env_setting(env, "OAI_COMPAT_BASE_URL"@) is None ==> spec_credential_problem(
            env,
            "oai_compat"@,
        ) == Some(
            CredentialErrorView::Missing { provider: "oai_compat"@, variable: "OAI_COMPAT_BASE_URL"@ },
        ),
{
    law_required_credentials(p);
    reveal_strlit("vertex");
    reveal_strlit("qwen");
    reveal_strlit("openai");
    reveal_strlit("oai_compat");
    assert("qwen"@.len() != "vertex"@.len());
    assert("openai"@[0] != "vertex"@[0]);
    assert("openai"@.len() != "qwen"@.len());
    assert("oai_compat"@.len() != "vertex"@.len());
    assert("oai_compat"@.len() != "qwen"@.len());
    assert("oai_compat"@.len() != "openai"@.len());
}

/// The variable a provider requires, if the provider is known.
pub fn required_credential(provider: &str) -> (r: Option<&'static str>)
    ensures
        (match r {
            Some(v) => Some(v@),
            None => None,
        }) == spec_required_credential(provider@),
{
    if text_eq(provider, "vertex") {
        Some("VERTEX_PROJECT")
    } else if text_eq(provider, "qwen") {
        Some("DASHSCOPE_API_KEY")
    } else if text_eq(provider, "openai") {
        Some("OPENAI_API_KEY")
    } else if text_eq(provider, "oai_compat") {
        Some("OAI_COMPAT_BASE_URL")
    } else {
        None
    }
}

/// Checks that a provider is known and its credential is set.
pub fn credential_problem(env: &HashMap<String, String>, provider: &str) -> (r: Option<
    CredentialError,
>)
    ensures
        (match r {
            Some(e) => Some(e@),
            None => None,
        }) == spec_credential_problem(env.deep_view(), provider@),
        spec_required_credential(provider@) is None ==> (r matches Some(e) && e@
            == CredentialErrorView::UnknownProvider(provider@)),
        forall|v: Seq<char>|
            spec_required_credential(provider@) == Some(v) && env_setting(env.deep_view(), v) is None
                ==> (r matches Some(e) && e@ == (CredentialErrorView::Missing { provider: provider@, variable: v })),
        forall|v: Seq<char>|
            spec_required_credential(provider@) == Some(v) && env_setting(env.deep_view(), v) is Some
                ==> r is None,
{
    match required_credential(provider) {
        None => Some(CredentialError::UnknownProvider(String::from_str(provider))),
        Some(var) => match setting(env, var) {
            None => Some(
                CredentialError::Missing {
                    provider: String::from_str(provider),
                    variable: String::from_str(var),
                },
            ),
            Some(_) => None,
        },
    }
}

impl CredentialError {
    /// The problem's message.
    pub fn message(&self) -> (r: String)
        ensures
            r@ == (match self@ {
                CredentialErrorView::UnknownProvider(p) => "routes reference unknown provider '"@
                    + p + "'"@,
                CredentialErrorView::Missing { provider, variable } => "provider '"@ + provider
                    + "' requires "@ + variable,
            }),
    {
        proof {
            reveal_strlit("routes reference unknown provider '");
            reveal_strlit("'");
            reveal_strlit("provider '");
            reveal_strlit("' requires ");
        }
        match self {
            CredentialError::UnknownProvider(p) => String::from_str(
                "routes reference unknown provider '",
            ).concat(p.as_str()).concat("'"),
            CredentialError::Missing { provider, variable } => String::from_str(
                "provider '",
            ).concat(provider.as_str()).concat("' requires ").concat(variable.as_str()),
        }
    }
}

/// The OpenLLMetry `gen_ai.system` value of a provider.
pub open spec fn spec_gen_ai_system(provider: Seq<char>) -> Seq<char> {
    if provider == "vertex"@ {
        "vertexai"@
    } else if provider == "qwen"@ {
        "dashscope"@
    } else if provider == "oai_compat"@ {
        "oai_compat"@
    } else {
        "openai"@
    }
}

/// The `gen_ai.system` value of a provider (the metric's `system` label).
pub fn gen_ai_system(provider: &str) -> (r: &'static str)
    ensures
        r@ == spec_gen_ai_system(provider@),
{
    if text_eq(provider, "vertex") {
        "vertexai"
    } else if text_eq(provider, "qwen") {
        "dashscope"
    } else if text_eq(provider, "oai_compat") {
        "oai_compat"
    } else {
        "openai"
    }
}

} // verus!
