use synapse::error::GatewayError;
use synapse::routing::request::{classify, lane_label, ChatRequest, Lane, Message, MessageContent, VertexExt};
use synapse::routing::table::{ChainLeg, RouteTable};
use synapse::server::{completion_id, dispatch, Dispatch, TenantCtx};

fn leg(provider: &str, model: &str) -> ChainLeg {
    ChainLeg { provider: provider.into(), model: model.into() }
}

fn table() -> RouteTable {
    RouteTable::from_routes(vec![
        ("gemini-pro".to_string(), vec![leg("qwen", "qwen-max"), leg("vertex", "gemini-3-pro"), leg("vertex", "gemini-2")]),
        ("fast".to_string(), vec![leg("openai", "gpt")]),
    ])
}

fn req(model: &str, vertex: Option<VertexExt>) -> ChatRequest {
    ChatRequest {
        model: model.into(),
        messages: vec![Message { role: "user".into(), content: MessageContent::Text("hi".into()) }],
        stream: None,
        vertex,
    }
}

#[test]
fn tenant_defaults_when_header_missing() {
    let c = TenantCtx::resolve(None, None, "unattributed");
    assert_eq!(c.tenant, "unattributed");
    assert!(c.workspace.is_none());
    let c = TenantCtx::resolve(Some("acme".into()), Some("ws".into()), "unattributed");
    assert_eq!((c.tenant.as_str(), c.workspace.as_deref()), ("acme", Some("ws")));
}

#[test]
fn lane_follows_vertex_block() {
    assert_eq!(classify(&req("m", None)), Lane::Standard);
    assert_eq!(classify(&req("m", Some(VertexExt::default()))), Lane::NativeVertex);
    assert_eq!(lane_label(Lane::Standard), "standard");
    assert_eq!(lane_label(Lane::NativeVertex), "native");
}

#[test]
fn unknown_alias_is_refused() {
    match dispatch(&table(), &req("nope", None), true) {
        Err(GatewayError::UnknownModel(m)) => assert_eq!(m, "nope"),
        other => panic!("{other:?}"),
    }
}

#[test]
fn standard_lane_gets_all_legs() {
    match dispatch(&table(), &req("gemini-pro", None), false) {
        Ok(Dispatch::Standard { legs }) => assert_eq!(legs, vec![leg("qwen", "qwen-max"), leg("vertex", "gemini-3-pro"), leg("vertex", "gemini-2")]),
        other => panic!("{other:?}"),
    }
}

#[test]
fn native_lane_takes_first_vertex_leg() {
    match dispatch(&table(), &req("gemini-pro", Some(VertexExt::default())), true) {
        Ok(Dispatch::Native { leg: l }) => assert_eq!(l, leg("vertex", "gemini-3-pro")),
        other => panic!("{other:?}"),
    }
}

#[test]
fn native_lane_needs_vertex_leg_then_configuration() {
    match dispatch(&table(), &req("fast", Some(VertexExt::default())), true) {
        Err(GatewayError::NativeFeatureUnsupported { feature, route }) => {
            assert_eq!((feature.as_str(), route.as_str()), ("native-vertex", "fast"))
        }
        other => panic!("{other:?}"),
    }
    match dispatch(&table(), &req("gemini-pro", Some(VertexExt::default())), false) {
        Err(GatewayError::BadRequest(m)) => assert_eq!(m, "native vertex lane not configured"),
        other => panic!("{other:?}"),
    }
    let e = dispatch(&table(), &req("fast", Some(VertexExt::default())), true).err().unwrap();
    assert_eq!(e.status_code(), 400);
}

#[test]
fn completion_ids() {
    assert_eq!(completion_id("abc"), "chatcmpl-abc");
}
