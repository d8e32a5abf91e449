use synapse::error::GatewayError;
use synapse::routing::request::{ChatRequest, Message, MessageContent, VertexExt};
use synapse::vertex_native::{
    auth_error, build_payload, parse_response, status_error, PayloadPart, VertexResponse,
    VertexTarget,
};

fn req_with(ext: VertexExt) -> ChatRequest {
    ChatRequest {
        model: "gemini-pro".into(),
        messages: vec![Message { role: "user".into(), content: MessageContent::Text("describe".into()) }],
        stream: None,
        vertex: Some(ext),
    }
}

#[test]
fn payload_includes_cached_content_and_schema_and_media() {
    let ext = VertexExt {
        cached_content: Some("cachedContents/abc".into()),
        media_uris: Some(vec!["gs://bucket/v.mp4".into()]),
        response_schema: Some(r#"{"type":"object"}"#.to_string()),
    };
    let body = build_payload(&req_with(ext.clone()), &ext);
    assert_eq!(body.cached_content.as_deref(), Some("cachedContents/abc"));
    let schema: serde_json::Value =
        serde_json::from_str(&body.generation_config.as_ref().unwrap().response_schema).unwrap();
    let expected: serde_json::Value = serde_json::from_str(r#"{"type": "object"}"#).unwrap();
    assert_eq!(schema, expected);
    let parts = &body.parts;
    assert!(parts.iter().any(|p| matches!(p, PayloadPart::FileData { file_uri, .. } if file_uri == "gs://bucket/v.mp4")));
}

#[test]
fn parses_usage_from_vertex_response() {
    let v = VertexResponse {
        parts: Some(vec![Some("a".into()), Some("b".into())]),
        prompt_token_count: Some(10),
        candidates_token_count: Some(4),
    };
    let c = parse_response("vertex", "gemini-3-pro", &v).unwrap();
    assert_eq!(c.content, "ab");
    assert_eq!(c.input_tokens, 10);
    assert_eq!(c.output_tokens, 4);
}

#[test]
fn payload_orders_texts_then_media() {
    let ext = VertexExt {
        cached_content: None,
        media_uris: Some(vec!["gs://b/1.mp4".into(), "gs://b/2.mp4".into()]),
        response_schema: None,
    };
    let mut req = req_with(ext.clone());
    req.messages.push(Message { role: "user".into(), content: MessageContent::Json("{\"k\":1}".into()) });
    let body = build_payload(&req, &ext);
    assert_eq!(
        body.parts,
        vec![
            PayloadPart::Text("describe".into()),
            PayloadPart::Text("{\"k\":1}".into()),
            PayloadPart::FileData { file_uri: "gs://b/1.mp4".into(), mime_type: "video/mp4".into() },
            PayloadPart::FileData { file_uri: "gs://b/2.mp4".into(), mime_type: "video/mp4".into() },
        ]
    );
    assert!(body.cached_content.is_none());
    assert!(body.generation_config.is_none());
}

#[test]
fn schema_sets_json_mime_type() {
    let ext = VertexExt { response_schema: Some("{}".into()), ..Default::default() };
    let body = build_payload(&req_with(ext.clone()), &ext);
    let g = body.generation_config.unwrap();
    assert_eq!(g.response_mime_type, "application/json");
    assert_eq!(g.response_schema, "{}");
}

#[test]
fn response_without_parts_or_usage_is_empty() {
    let v = VertexResponse { parts: None, prompt_token_count: None, candidates_token_count: None };
    let c = parse_response("vertex", "m", &v).unwrap();
    assert_eq!((c.content.as_str(), c.input_tokens, c.output_tokens), ("", 0, 0));
    let v = VertexResponse { parts: Some(vec![None, Some("x".into()), None]), prompt_token_count: None, candidates_token_count: Some(3) };
    let c = parse_response("vertex", "m", &v).unwrap();
    assert_eq!((c.content.as_str(), c.output_tokens), ("x", 3));
}

#[test]
fn endpoint_and_url() {
    let t = VertexTarget::new("p".into(), "global".into(), None);
    assert_eq!(t.endpoint_base, "https://aiplatform.googleapis.com");
    assert_eq!(
        t.generate_url("gemini-3-pro"),
        "https://aiplatform.googleapis.com/v1/projects/p/locations/global/publishers/google/models/gemini-3-pro:generateContent"
    );
    let t = VertexTarget::new("p".into(), "us-central1".into(), None);
    assert_eq!(t.endpoint_base, "https://us-central1-aiplatform.googleapis.com");
    let t = VertexTarget::new("p".into(), "global".into(), Some("http://127.0.0.1:9".into()));
    assert_eq!(
        t.generate_url("m"),
        "http://127.0.0.1:9/v1/projects/p/locations/global/publishers/google/models/m:generateContent"
    );
}

#[test]
fn reply_status_errors() {
    assert!(status_error(200, "{}".into()).is_none());
    match status_error(404, "{\"e\":1}".into()) {
        Some(GatewayError::BadRequest(m)) => assert_eq!(m, "vertex 404: {\"e\":1}"),
        other => panic!("{other:?}"),
    }
    match status_error(503, "down".into()) {
        Some(GatewayError::Upstream { status, body }) => assert_eq!((status, body.as_str()), (503, "down")),
        other => panic!("{other:?}"),
    }
    match auth_error("no creds") {
        GatewayError::Upstream { status, body } => assert_eq!((status, body.as_str()), (401, "vertex auth: no creds")),
        other => panic!("{other:?}"),
    }
}
