use synapse::error::GatewayError;
use synapse::routing::executor::{
    is_retryable, to_genai_request, token_count, ChainStep, ChainWalk, Completion, LegOutcome,
    UpstreamFailure,
};
use synapse::routing::request::{ChatRequest, Message, MessageContent};
use synapse::routing::table::ChainLeg;

fn leg(provider: &str, model: &str) -> ChainLeg {
    ChainLeg { provider: provider.into(), model: model.into() }
}

fn completion(provider: &str) -> Completion {
    Completion { provider: provider.into(), model: "m".into(), content: "hi".into(), input_tokens: 1, output_tokens: 2 }
}

fn exhausted(f: UpstreamFailure, msg: &str) -> LegOutcome {
    LegOutcome::Exhausted { failure: f, message: msg.into() }
}

/// Runs a walk, answering each leg with the next outcome.
fn run(route: &str, legs: Vec<ChainLeg>, outcomes: Vec<LegOutcome>) -> (Vec<usize>, Result<Completion, GatewayError>) {
    let mut asked = Vec::new();
    let mut outcomes = outcomes.into_iter();
    let (mut walk, mut step) = ChainWalk::start(route, legs);
    loop {
        match step {
            ChainStep::RunLeg(i) => {
                asked.push(i);
                assert!(walk.is_awaiting());
                step = walk.advance(outcomes.next().expect("an outcome per leg"));
            }
            ChainStep::Finished(r) => {
                assert!(!walk.is_awaiting());
                return (asked, r);
            }
        }
    }
}

#[test]
fn retryable_classification() {
    assert!(is_retryable(&UpstreamFailure::Status(500)));
    assert!(is_retryable(&UpstreamFailure::Status(503)));
    assert!(is_retryable(&UpstreamFailure::Status(599)));
    assert!(!is_retryable(&UpstreamFailure::Status(600)));
    assert!(!is_retryable(&UpstreamFailure::Status(429)));
    assert!(!is_retryable(&UpstreamFailure::Status(401)));
    assert!(is_retryable(&UpstreamFailure::Transport { timeout: true, connect: false }));
    assert!(is_retryable(&UpstreamFailure::Transport { timeout: false, connect: true }));
    assert!(!is_retryable(&UpstreamFailure::Transport { timeout: false, connect: false }));
    assert!(!is_retryable(&UpstreamFailure::Other));
}

#[test]
fn first_leg_success_returns_it() {
    let (asked, r) = run("r", vec![leg("a", "1"), leg("b", "2")], vec![LegOutcome::Succeeded(completion("a"))]);
    assert_eq!(asked, vec![0]);
    assert_eq!(r.unwrap().provider, "a");
}

#[test]
fn retryable_failure_advances_to_next_leg() {
    let (asked, r) = run(
        "r",
        vec![leg("a", "1"), leg("b", "2")],
        vec![exhausted(UpstreamFailure::Status(503), "busy"), LegOutcome::Succeeded(completion("b"))],
    );
    assert_eq!(asked, vec![0, 1]);
    assert_eq!(r.unwrap().provider, "b");
}

#[test]
fn non_retryable_failure_aborts_chain() {
    let (asked, r) = run(
        "r",
        vec![leg("a", "1"), leg("b", "2")],
        vec![exhausted(UpstreamFailure::Status(401), "denied")],
    );
    assert_eq!(asked, vec![0]);
    match r {
        Err(GatewayError::AllLegsFailed { route, failures }) => {
            assert_eq!(route, "r");
            assert_eq!(failures.len(), 1);
            assert_eq!(failures[0].provider, "a");
            assert_eq!(failures[0].model, "1");
            assert_eq!(failures[0].message, "denied");
        }
        other => panic!("{other:?}"),
    }
}

#[test]
fn all_circuits_open_is_reported() {
    let (asked, r) = run(
        "r",
        vec![leg("a", "1"), leg("b", "2")],
        vec![LegOutcome::CircuitOpen { name: "a".into() }, LegOutcome::CircuitOpen { name: "b".into() }],
    );
    assert_eq!(asked, vec![0, 1]);
    assert!(matches!(r, Err(GatewayError::AllCircuitsOpen(ref route)) if route == "r"));
}

#[test]
fn mixed_failures_list_every_leg() {
    let (_, r) = run(
        "r",
        vec![leg("a", "1"), leg("b", "2")],
        vec![LegOutcome::CircuitOpen { name: "brk".into() }, exhausted(UpstreamFailure::Transport { timeout: true, connect: false }, "slow")],
    );
    match r {
        Err(GatewayError::AllLegsFailed { failures, .. }) => {
            let msgs: Vec<&str> = failures.iter().map(|f| f.message.as_str()).collect();
            assert_eq!(msgs, vec!["circuit open: brk", "slow"]);
            assert_eq!(failures[1].provider, "b");
        }
        other => panic!("{other:?}"),
    }
}

#[test]
fn unbuilt_provider_is_a_bad_request() {
    let (_, r) = run("r", vec![leg("a", "1"), leg("ghost", "2")], vec![exhausted(UpstreamFailure::Status(502), "x"), LegOutcome::ProviderMissing]);
    match r {
        Err(GatewayError::BadRequest(m)) => assert_eq!(m, "route 'r' references unbuilt provider 'ghost'"),
        other => panic!("{other:?}"),
    }
}

#[test]
fn empty_route_fails_without_running() {
    let (asked, r) = run("r", vec![], vec![]);
    assert!(asked.is_empty());
    assert!(matches!(r, Err(GatewayError::AllLegsFailed { ref failures, .. }) if failures.is_empty()));
}

#[test]
fn token_counts_clamp_negative_and_missing() {
    assert_eq!(token_count(Some(12)), 12);
    assert_eq!(token_count(Some(-3)), 0);
    assert_eq!(token_count(None), 0);
    let c = Completion::from_usage(&leg("vertex", "g"), "txt".into(), Some(5), Some(-1));
    assert_eq!((c.provider.as_str(), c.model.as_str(), c.input_tokens, c.output_tokens), ("vertex", "g", 5, 0));
    assert_eq!(c.total_tokens(), 5);
}

#[test]
fn genai_request_maps_roles_and_texts() {
    let msg = |role: &str, content: MessageContent| Message { role: role.into(), content };
    let req = ChatRequest {
        model: "m".into(),
        messages: vec![
            msg("system", MessageContent::Text("be brief".into())),
            msg("user", MessageContent::Text("hi".into())),
            msg("assistant", MessageContent::Text("hello".into())),
            msg("tool", MessageContent::Json("[{\"type\":\"text\"}]".into())),
        ],
        stream: None,
        vertex: None,
    };
    let g = to_genai_request(&req);
    let roles: Vec<genai::chat::ChatRole> = g.messages.iter().map(|m| m.role.clone()).collect();
    assert_eq!(
        roles,
        vec![genai::chat::ChatRole::System, genai::chat::ChatRole::User, genai::chat::ChatRole::Assistant, genai::chat::ChatRole::User]
    );
    let texts: Vec<String> = g.messages.iter().map(|m| m.content.joined_texts().unwrap_or_default()).collect();
    assert_eq!(texts, vec!["be brief", "hi", "hello", "[{\"type\":\"text\"}]"]);
}
