use synapse::error::{GatewayError, LegFailure};
use synapse::ledger::LedgerError;

fn all() -> Vec<GatewayError> {
    vec![
        GatewayError::UnknownModel("m".into()),
        GatewayError::NativeFeatureUnsupported { feature: "native-vertex".into(), route: "r".into() },
        GatewayError::BadRequest("bad".into()),
        GatewayError::AllLegsFailed {
            route: "r".into(),
            failures: vec![LegFailure { provider: "p".into(), model: "m".into(), message: "x".into() }],
        },
        GatewayError::AllCircuitsOpen("r".into()),
        GatewayError::UpstreamTimeout,
        GatewayError::Upstream { status: 503, body: "busy".into() },
    ]
}

#[test]
fn codes_per_variant() {
    let codes: Vec<&str> = all().iter().map(|e| e.code()).collect();
    assert_eq!(
        codes,
        vec![
            "model_not_found",
            "native_feature_unsupported",
            "invalid_request_error",
            "all_legs_failed",
            "circuit_open",
            "upstream_timeout",
            "upstream_error"
        ]
    );
}

#[test]
fn statuses_per_variant() {
    let nums: Vec<u16> = all().iter().map(|e| e.status_code()).collect();
    assert_eq!(nums, vec![404, 400, 400, 502, 503, 504, 502]);
    let statuses: Vec<u16> = all().iter().map(|e| e.status().as_u16()).collect();
    assert_eq!(statuses, nums);
    assert_eq!(all()[0].status(), axum::http::StatusCode::NOT_FOUND);
    assert_eq!(all()[5].status(), axum::http::StatusCode::GATEWAY_TIMEOUT);
}

#[test]
fn messages_per_variant() {
    let msgs: Vec<String> = all().iter().map(|e| e.message()).collect();
    assert_eq!(
        msgs,
        vec![
            "unknown model alias 'm'",
            "native feature 'native-vertex' is not available on route 'r'",
            "invalid request: bad",
            "all legs of route 'r' failed",
            "all providers for route 'r' are unavailable",
            "upstream timed out",
            "upstream error 503: busy",
        ]
    );
}

#[test]
fn ledger_error_message() {
    assert_eq!(LedgerError::Backend("disk full".into()).message(), "ledger backend error: disk full");
}
