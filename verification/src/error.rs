//! Gateway errors: the variants, their machine codes, HTTP statuses and messages.
use vstd::prelude::*;

use crate::text::{decimal, u64_to_decimal};

verus! {

/// `axum::http::StatusCode`, carried as an opaque value.
#[verifier::external_type_specification]
#[verifier::external_body]
pub struct ExStatusCode(axum::http::StatusCode);

/// `axum::http::status::InvalidStatusCode`, the error of `StatusCode::from_u16`.
#[verifier::external_type_specification]
#[verifier::external_body]
pub struct ExInvalidStatusCode(axum::http::status::InvalidStatusCode);

/// The `StatusCode` value that `StatusCode::from_u16` builds from a number.
pub uninterp spec fn http_status(code: u16) -> axum::http::StatusCode;

/// `http::StatusCode::from_u16`: succeeds exactly on 100..=999, and then
/// wraps the number itself (its source stores `src` unchanged).
pub assume_specification[ axum::http::StatusCode::from_u16 ](src: u16) -> (r: Result<
    axum::http::StatusCode,
    axum::http::status::InvalidStatusCode,
>)
    ensures
        r is Ok <==> 100 <= src <= 999,
        r matches Ok(s) ==> s == http_status(src),
;

/// One failed leg of a fallback chain.
#[derive(Debug, Clone)]
pub struct LegFailure {
    pub provider: String,
    pub model: String,
    pub message: String,
}

/// Every way a gateway request can fail.
#[derive(Debug)]
pub enum GatewayError {
    UnknownModel(String),
    NativeFeatureUnsupported { feature: String, route: String },
    BadRequest(String),
    AllLegsFailed { route: String, failures: Vec<LegFailure> },
    AllCircuitsOpen(String),
    UpstreamTimeout,
    Upstream { status: u16, body: String },
}

/// A leg failure as plain text.
pub struct LegFailureView {
    pub provider: Seq<char>,
    pub model: Seq<char>,
    pub message: Seq<char>,
}

impl View for LegFailure {
    type V = LegFailureView;

    open spec fn view(&self) -> LegFailureView {
        LegFailureView { provider: self.provider@, model: self.model@, message: self.message@ }
    }
}

impl DeepView for LegFailure {
    type V = LegFailureView;

    open spec fn deep_view(&self) -> LegFailureView {
        self@
    }
}

/// A gateway error as plain text.
pub enum GatewayErrorView {
    UnknownModel(Seq<char>),
    NativeFeatureUnsupported { feature: Seq<char>, route: Seq<char> },
    BadRequest(Seq<char>),
    AllLegsFailed { route: Seq<char>, failures: Seq<LegFailureView> },
    AllCircuitsOpen(Seq<char>),
    UpstreamTimeout,
    Upstream { status: u16, body: Seq<char> },
}

impl View for GatewayError {
    type V = GatewayErrorView;

    open spec fn view(&self) -> GatewayErrorView {
        match self {
            GatewayError::UnknownModel(m) => GatewayErrorView::UnknownModel(m@),
            GatewayError::NativeFeatureUnsupported { feature, route } =>
                GatewayErrorView::NativeFeatureUnsupported { feature: feature@, route: route@ },
            GatewayError::BadRequest(m) => GatewayErrorView::BadRequest(m@),
            GatewayError::AllLegsFailed { route, failures } => GatewayErrorView::AllLegsFailed {
                route: route@,
                failures: failures.deep_view(),
            },
            GatewayError::AllCircuitsOpen(r) => GatewayErrorView::AllCircuitsOpen(r@),
            GatewayError::UpstreamTimeout => GatewayErrorView::UpstreamTimeout,
            GatewayError::Upstream { status, body } => GatewayErrorView::Upstream {
                status: *status,
                body: body@,
            },
        }
    }
}

/// The human-readable message of each error.
pub open spec fn spec_message(e: GatewayErrorView) -> Seq<char> {
    match e {
        GatewayErrorView::UnknownModel(m) => "unknown model alias '"@ + m + "'"@,
        GatewayErrorView::NativeFeatureUnsupported { feature, route } => "native feature '"@
            + feature + "' is not available on route '"@ + route + "'"@,
        GatewayErrorView::BadRequest(m) => "invalid request: "@ + m,
        GatewayErrorView::AllLegsFailed { route, .. } => "all legs of route '"@ + route
            + "' failed"@,
        GatewayErrorView::AllCircuitsOpen(r) => "all providers for route '"@ + r
            + "' are unavailable"@,
        GatewayErrorView::UpstreamTimeout => "upstream timed out"@,
        GatewayErrorView::Upstream { status, body } => "upstream error "@ + decimal(
            status as nat,
        ) + ": "@ + body,
    }
}

/// The OpenAI-style error code of each variant.
pub open spec fn spec_code(e: GatewayError) -> Seq<char> {
    match e {
        GatewayError::UnknownModel(_) => "model_not_found"@,
        GatewayError::NativeFeatureUnsupported { .. } => "native_feature_unsupported"@,
        GatewayError::BadRequest(_) => "invalid_request_error"@,
        GatewayError::AllLegsFailed { .. } => "all_legs_failed"@,
        GatewayError::AllCircuitsOpen(_) => "circuit_open"@,
        GatewayError::UpstreamTimeout => "upstream_timeout"@,
        GatewayError::Upstream { .. } => "upstream_error"@,
    }
}

/// The HTTP status number of each variant.
pub open spec fn spec_status_code(e: GatewayError) -> u16 {
    match e {
        GatewayError::UnknownModel(_) => 404,
        GatewayError::NativeFeatureUnsupported { .. } => 400,
        GatewayError::BadRequest(_) => 400,
        GatewayError::AllLegsFailed { .. } => 502,
        GatewayError::Upstream { .. } => 502,
        GatewayError::AllCircuitsOpen(_) => 503,
        GatewayError::UpstreamTimeout => 504,
    }
}

impl GatewayError {
    /// Machine-readable error code, used as both `type` and `code` in the JSON body.
    pub fn code(&self) -> (r: &'static str)
        ensures
            r@ == spec_code(*self),
    {
        proof {
            reveal_strlit("model_not_found");
            reveal_strlit("native_feature_unsupported");
            reveal_strlit("invalid_request_error");
            reveal_strlit("all_legs_failed");
            reveal_strlit("circuit_open");
            reveal_strlit("upstream_timeout");
            reveal_strlit("upstream_error");
        }
        match self {
            GatewayError::UnknownModel(_) => "model_not_found",
            GatewayError::NativeFeatureUnsupported { .. } => "native_feature_unsupported",
            GatewayError::BadRequest(_) => "invalid_request_error",
            GatewayError::AllLegsFailed { .. } => "all_legs_failed",
            GatewayError::AllCircuitsOpen(_) => "circuit_open",
            GatewayError::UpstreamTimeout => "upstream_timeout",
            GatewayError::Upstream { .. } => "upstream_error",
        }
    }

    /// HTTP status number of the error response.
    pub fn status_code(&self) -> (r: u16)
        ensures
            r == spec_status_code(*self),
    {
        match self {
            GatewayError::UnknownModel(_) => 404,
            GatewayError::NativeFeatureUnsupported { .. } | GatewayError::BadRequest(_) => 400,
            GatewayError::AllLegsFailed { .. } | GatewayError::Upstream { .. } => 502,
            GatewayError::AllCircuitsOpen(_) => 503,
            GatewayError::UpstreamTimeout => 504,
        }
    }

    /// HTTP status of the error response.
    pub fn status(&self) -> (r: axum::http::StatusCode)
        ensures
            r == http_status(spec_status_code(*self)),
    {
        let code = self.status_code();
        axum::http::StatusCode::from_u16(code).unwrap()
    }

    /// The error's message, as its `Display` reads.
    pub fn message(&self) -> (r: String)
        ensures
            r@ == spec_message(self@),
    {
        proof {
            reveal_strlit("unknown model alias '");
            reveal_strlit("'");
            reveal_strlit("native feature '");
            reveal_strlit("' is not available on route '");
            reveal_strlit("invalid request: ");
            reveal_strlit("all legs of route '");
            reveal_strlit("' failed");
            reveal_strlit("all providers for route '");
            reveal_strlit("' are unavailable");
            reveal_strlit("upstream timed out");
            reveal_strlit("upstream error ");
            reveal_strlit(": ");
        }
        match self {
            GatewayError::UnknownModel(m) => {
                String::from_str("unknown model alias '").concat(m.as_str()).concat("'")
            },
            GatewayError::NativeFeatureUnsupported { feature, route } => {
                String::from_str("native feature '").concat(feature.as_str()).concat(
                    "' is not available on route '",
                ).concat(route.as_str()).concat("'")
            },
            GatewayError::BadRequest(m) => String::from_str("invalid request: ").concat(
                m.as_str(),
            ),
            GatewayError::AllLegsFailed { route, .. } => {
                String::from_str("all legs of route '").concat(route.as_str()).concat("' failed")
            },
            GatewayError::AllCircuitsOpen(r) => {
                String::from_str("all providers for route '").concat(r.as_str()).concat(
                    "' are unavailable",
                )
            },
            GatewayError::UpstreamTimeout => String::from_str("upstream timed out"),
            GatewayError::Upstream { status, body } => {
                let digits = u64_to_decimal(*status as u64);
                String::from_str("upstream error ").concat(digits.as_str()).concat(": ").concat(
                    body.as_str(),
                )
            },
        }
    }
}

} // verus!
