//! Native Vertex REST lane: the endpoint, the `generateContent` body (which
//! threads cachedContents, gs:// media URIs and a strict responseSchema
//! through), and how a Vertex reply becomes a completion or an error.
use vstd::prelude::*;

use crate::error::{GatewayError, GatewayErrorView};
use crate::routing::executor::{Completion, CompletionView};
use crate::routing::request::{content_text, ChatRequest, Message, VertexExt};
use crate::text::{decimal, text_eq, u64_to_decimal};

verus! {

/// Where the native lane sends requests.
#[derive(Debug, Clone)]
pub struct VertexTarget {
    pub project: String,
    pub region: String,
    /// Base host (overridable, e.g. for a local test server).
    pub endpoint_base: String,
}

/// The default host of a region: the global host, or the regional one.
pub open spec fn default_endpoint(region: Seq<char>) -> Seq<char> {
    if region == "global"@ {
        "https://aiplatform.googleapis.com"@
    } else {
        "https://"@ + region + "-aiplatform.googleapis.com"@
    }
}

/// The `generateContent` URL of a model.
pub open spec fn spec_generate_url(
    base: Seq<char>,
    project: Seq<char>,
    region: Seq<char>,
    model: Seq<char>,
) -> Seq<char> {
    base + "/v1/projects/"@ + project + "/locations/"@ + region + "/publishers/google/models/"@
        + model + ":generateContent"@
}

impl VertexTarget {
    /// The target of a project and region; an override replaces the host.
    pub fn new(project: String, region: String, endpoint_override: Option<String>) -> (r:
        VertexTarget)
        ensures
            r.project@ == project@,
            r.region@ == region@,
            r.endpoint_base@ == (match endpoint_override {
                Some(e) => e@,
                None => default_endpoint(region@),
            }),
    {
        proof {
            reveal_strlit("global");
            reveal_strlit("https://aiplatform.googleapis.com");
            reveal_strlit("https://");
            reveal_strlit("-aiplatform.googleapis.com");
        }
        let endpoint_base = match endpoint_override {
            Some(e) => e,
            None => {
                if text_eq(region.as_str(), "global") {
                    String::from_str("https://aiplatform.googleapis.com")
                } else {
                    String::from_str("https://").concat(region.as_str()).concat(
                        "-aiplatform.googleapis.com",
                    )
                }
            },
        };
        VertexTarget { project, region, endpoint_base }
    }

    /// The URL that generates content with `model`.
    pub fn generate_url(&self, model: &str) -> (r: String)
        ensures
            r@ == spec_generate_url(self.endpoint_base@, self.project@, self.region@, model@),
    {
        proof {
            reveal_strlit("/v1/projects/");
            reveal_strlit("/locations/");
            reveal_strlit("/publishers/google/models/");
            reveal_strlit(":generateContent");
        }
        self.endpoint_base.clone().concat("/v1/projects/").concat(self.project.as_str()).concat(
            "/locations/",
        ).concat(self.region.as_str()).concat("/publishers/google/models/").concat(model).concat(
            ":generateContent",
        )
    }
}

/// One part of the user turn.
#[derive(Debug, Clone, PartialEq, Eq)]
pub enum PayloadPart {
    /// A message's text.
    Text(String),
    /// A Cloud Storage media file.
    FileData { file_uri: String, mime_type: String },
}

/// A part as plain text.
pub enum PartView {
    Text(Seq<char>),
    FileData { file_uri: Seq<char>, mime_type: Seq<char> },
}

impl View for PayloadPart {
    type V = PartView;

    open spec fn view(&self) -> PartView {
        match self {
            PayloadPart::Text(t) => PartView::Text(t@),
            PayloadPart::FileData { file_uri, mime_type } => PartView::FileData {
                file_uri: file_uri@,
                mime_type: mime_type@,
            },
        }
    }
}

impl DeepView for PayloadPart {
    type V = PartView;

    open spec fn deep_view(&self) -> PartView {
        self@
    }
}

/// `generationConfig` for constrained decoding.
#[derive(Debug, Clone, PartialEq, Eq)]
pub struct GenerationConfig {
    pub response_mime_type: String,
    /// The schema, as JSON text.
    pub response_schema: String,
}

/// The body of a `generateContent` call: one user turn of `parts`, plus the
/// native features.
#[derive(Debug, Clone)]
pub struct VertexPayload {
    pub parts: Vec<PayloadPart>,
    pub cached_content: Option<String>,
    pub generation_config: Option<GenerationConfig>,
}

/// The parts a request sends: every message's text, then every media URI as
/// an `mp4` file.
pub open spec fn payload_parts(messages: Seq<Message>, ext: VertexExt) -> Seq<PartView> {
    messages.map_values(|m: Message| PartView::Text(content_text(m.content))) + match ext.media_uris {
        Some(uris) => uris@.map_values(
            |u: String| PartView::FileData { file_uri: u@, mime_type: "video/mp4"@ },
        ),
        None => Seq::empty(),
    }
}

/// How many media URIs an extension block carries.
pub open spec fn media_count(ext: VertexExt) -> nat {
    match ext.media_uris {
        Some(uris) => uris@.len(),
        None => 0,
    }
}

/// Every message gives exactly one text part, in order and whatever its role,
/// and every media URI then gives one `mp4` file part, in order.
pub proof fn law_payload_parts(messages: Seq<Message>, ext: VertexExt)
    ensures
        payload_parts(messages, ext).len() == messages.len() + media_count(ext),
        forall|i: int|
            0 <= i < messages.len() ==> #[trigger] payload_parts(messages, ext)[i] == PartView::Text(
                content_text(messages[i].content),
            ),
        forall|j: int|
            0 <= j < media_count(ext) ==> #[trigger] payload_parts(messages, ext)[messages.len() + j]
                == (PartView::FileData { file_uri: ext.media_uris->0@[j]@, mime_type: "video/mp4"@ }),
{
    let texts = messages.map_values(|m: Message| PartView::Text(content_text(m.content)));
    assert forall|i: int| 0 <= i < messages.len() implies #[trigger] payload_parts(messages, ext)[i]
        == PartView::Text(content_text(messages[i].content)) by {
        assert(texts[i] == PartView::Text(content_text(messages[i].content)));
    }
}

/// The text of an optional string.
pub open spec fn opt_text(o: Option<String>) -> Option<Seq<char>> {
    match o {
        Some(s) => Some(s@),
        None => None,
    }
}

/// Builds the Vertex body of a request with its extension block.
pub fn build_payload(req: &ChatRequest, ext: &VertexExt) -> (r: VertexPayload)
    ensures
        r.parts.deep_view() == payload_parts(req.messages@, *ext),
        r.parts@.len() == req.messages@.len() + media_count(*ext),
        forall|i: int|
            0 <= i < req.messages@.len() ==> (#[trigger] r.parts@[i])@ == PartView::Text(
                content_text(req.messages@[i].content),
            ),
        forall|j: int|
            0 <= j < media_count(*ext) ==> (#[trigger] r.parts@[req.messages@.len() + j])@ == (
            PartView::FileData { file_uri: ext.media_uris->0@[j]@, mime_type: "video/mp4"@ }),
        opt_text(r.cached_content) == opt_text(ext.cached_content),
        r.generation_config is Some <==> ext.response_schema is Some,
        r.generation_config matches Some(g) ==> {
            &&& g.response_mime_type@ == "application/json"@
            &&& g.response_schema@ == ext.response_schema->0@
        },
{
    proof {
        reveal_strlit("video/mp4");
        reveal_strlit("application/json");
    }
    let messages = &req.messages;
    let mut parts: Vec<PayloadPart> = Vec::new();
    let n = messages.len();
    let mut i: usize = 0;
    let ghost texts = messages@.map_values(|m: Message| PartView::Text(content_text(m.content)));
    while i < n
        invariant
            n == messages@.len(),
            i <= n,
            texts == messages@.map_values(|m: Message| PartView::Text(content_text(m.content))),
            parts.deep_view() == texts.take(i as int),
        decreases n - i,
    {
        let t = messages[i].text();
        let ghost prev = parts.deep_view();
        parts.push(PayloadPart::Text(t));
        proof {
            assert(parts.deep_view() =~= prev.push(PartView::Text(t@)));
            assert(texts.take(i + 1) =~= texts.take(i as int).push(texts[i as int]));
        }
        i = i + 1;
    }
    proof {
        assert(texts.take(n as int) =~= texts);
    }
    match &ext.media_uris {
        Some(uris) => {
            let ghost files = uris@.map_values(
                |u: String| PartView::FileData { file_uri: u@, mime_type: "video/mp4"@ },
            );
            let m = uris.len();
            let mut j: usize = 0;
            while j < m
                invariant
                    m == uris@.len(),
                    j <= m,
                    files == uris@.map_values(
                        |u: String| PartView::FileData { file_uri: u@, mime_type: "video/mp4"@ },
                    ),
                    parts.deep_view() == texts + files.take(j as int),
                decreases m - j,
            {
                let part = PayloadPart::FileData {
                    file_uri: uris[j].clone(),
                    mime_type: String::from_str("video/mp4"),
                };
                let ghost prev = parts.deep_view();
                parts.push(part);
                proof {
                    assert(parts.deep_view() =~= prev.push(part@));
                    assert(texts + files.take(j + 1) =~= (texts + files.take(j as int)).push(
                        files[j as int],
                    ));
                }
                j = j + 1;
            }
            proof {
                assert(files.take(m as int) =~= files);
            }
        },
        None => {
            proof {
                assert(texts + Seq::<PartView>::empty() =~= texts);
            }
        },
    }
    let cached_content = match &ext.cached_content {
        Some(c) => Some(c.clone()),
        None => None,
    };
    let generation_config = match &ext.response_schema {
        Some(schema) => Some(
            GenerationConfig {
                response_mime_type: String::from_str("application/json"),
                response_schema: schema.clone(),
            },
        ),
        None => None,
    };
    proof {
        law_payload_parts(req.messages@, *ext);
        let pp = payload_parts(req.messages@, *ext);
        assert(parts.deep_view() == pp);
        assert forall|i: int| 0 <= i < req.messages@.len() implies (#[trigger] parts@[i])@
            == PartView::Text(content_text(req.messages@[i].content)) by {
            assert(parts.deep_view()[i] == parts@[i]@);
            assert(pp[i] == PartView::Text(content_text(req.messages@[i].content)));
        }
        assert forall|j: int| 0 <= j < media_count(*ext) implies (#[trigger] parts@[req.messages@.len() + j])@
            == (PartView::FileData { file_uri: ext.media_uris->0@[j]@, mime_type: "video/mp4"@ }) by {
            let k = req.messages@.len() + j;
            assert(parts.deep_view()[k] == parts@[k]@);
            assert(pp[k] == (PartView::FileData { file_uri: ext.media_uris->0@[j]@, mime_type: "video/mp4"@ }));
        }
    }
    VertexPayload { parts, cached_content, generation_config }
}

/// What the native lane reads of a Vertex reply: the `text` of each part of
/// the first candidate (`None` where a part has no text), and the usage counts.
#[derive(Debug, Clone)]
pub struct VertexResponse {
    pub parts: Option<Vec<Option<String>>>,
    pub prompt_token_count: Option<u64>,
    pub candidates_token_count: Option<u64>,
}

/// The texts of the parts, joined in order, skipping parts without text.
pub open spec fn joined_text(parts: Seq<Option<String>>) -> Seq<char>
    decreases parts.len(),
{
    if parts.len() == 0 {
        Seq::empty()
    } else {
        joined_text(parts.drop_last()) + match parts.last() {
            Some(t) => t@,
            None => Seq::empty(),
        }
    }
}

/// The completion a Vertex reply gives: joined text, missing counts as zero.
pub open spec fn response_completion(
    provider: Seq<char>,
    model: Seq<char>,
    v: VertexResponse,
) -> CompletionView {
    CompletionView {
        provider,
        model,
        content: match v.parts {
            Some(p) => joined_text(p@),
            None => Seq::empty(),
        },
        input_tokens: match v.prompt_token_count {
            Some(n) => n,
            None => 0,
        },
        output_tokens: match v.candidates_token_count {
            Some(n) => n,
            None => 0,
        },
    }
}

/// Maps a Vertex reply into the shared `Completion`, extracting usage.
pub fn parse_response(provider: &str, model: &str, v: &VertexResponse) -> (r: Result<
    Completion,
    GatewayError,
>)
    ensures
        r matches Ok(c) && c@ == response_completion(provider@, model@, *v),
{
    let mut content = String::new();
    match &v.parts {
        Some(parts) => {
            let n = parts.len();
            let mut i: usize = 0;
            while i < n
                invariant
                    n == parts@.len(),
                    i <= n,
                    content@ == joined_text(parts@.take(i as int)),
                decreases n - i,
            {
                proof {
                    assert(parts@.take(i + 1).drop_last() =~= parts@.take(i as int));
                    assert(parts@.take(i + 1).last() == parts@[i as int]);
                }
                match &parts[i] {
                    Some(t) => {
                        content.append(t.as_str());
                    },
                    None => {
                        proof {
                            assert(content@ + Seq::<char>::empty() =~= content@);
                        }
                    },
                }
                i = i + 1;
            }
            proof {
                assert(parts@.take(n as int) =~= parts@);
            }
        },
        None => {},
    }
    let input_tokens = match v.prompt_token_count {
        Some(n) => n,
        None => 0,
    };
    let output_tokens = match v.candidates_token_count {
        Some(n) => n,
        None => 0,
    };
    Ok(
        Completion {
            provider: String::from_str(provider),
            model: String::from_str(model),
            content,
            input_tokens,
            output_tokens,
        },
    )
}

/// The error of a non-success reply: a 4xx is the caller's fault, anything
/// else is an upstream error; a 2xx is no error.
pub open spec fn spec_status_error(status: u16, body: Seq<char>) -> Option<GatewayErrorView> {
    if 200 <= status <= 299 {
        None
    } else if 400 <= status <= 499 {
        Some(GatewayErrorView::BadRequest("vertex "@ + decimal(status as nat) + ": "@ + body))
    } else {
        Some(GatewayErrorView::Upstream { status, body })
    }
}

/// A 2xx reply is no error; a 4xx reply is the caller's bad request, naming
/// the status and body; every other status (1xx, 3xx, 5xx, ...) is an upstream
/// error carrying the status and body unchanged.
pub proof fn law_status_errors(status: u16, body: Seq<char>)
    ensures
        200 <= status <= 299 ==> spec_status_error(status, body) is None,
        400 <= status <= 499 ==> spec_status_error(status, body) == Some(
            GatewayErrorView::BadRequest("vertex "@ + decimal(status as nat) + ": "@ + body),
        ),
        !(200 <= status <= 299) && !(400 <= status <= 499) ==> spec_status_error(status, body)
            == Some(GatewayErrorView::Upstream { status, body }),
        500 <= status ==> spec_status_error(status, body) == Some(
            GatewayErrorView::Upstream { status, body },
        ),
{
}

/// The error of a reply's status, given its body as text.
pub fn status_error(status: u16, body: String) -> (r: Option<GatewayError>)
    ensures
        (match r {
            Some(e) => Some(e@),
            None => None,
        }) == spec_status_error(status, body@),
        200 <= status <= 299 ==> r is None,
        400 <= status <= 499 ==> (r matches Some(e) && e@ == GatewayErrorView::BadRequest(
            "vertex "@ + decimal(status as nat) + ": "@ + body@,
        )),
        !(200 <= status <= 299) && !(400 <= status <= 499) ==> (r matches Some(e) && e@ == (
        GatewayErrorView::Upstream { status, body: body@ })),
{
    proof {
        reveal_strlit("vertex ");
        reveal_strlit(": ");
    }
    if 200 <= status && status <= 299 {
        None
    } else if 400 <= status && status <= 499 {
        let digits = u64_to_decimal(status as u64);
        Some(
            GatewayError::BadRequest(
                String::from_str("vertex ").concat(digits.as_str()).concat(": ").concat(
                    body.as_str(),
                ),
            ),
        )
    } else {
        Some(GatewayError::Upstream { status, body })
    }
}

/// The error when no bearer token could be had.
pub fn auth_error(cause: &str) -> (r: GatewayError)
    ensures
        r@ == (GatewayErrorView::Upstream { status: 401, body: "vertex auth: "@ + cause@ }),
{
    proof {
        reveal_strlit("vertex auth: ");
    }
    GatewayError::Upstream { status: 401, body: String::from_str("vertex auth: ").concat(cause) }
}

/// The error when the request could not be sent.
pub fn transport_error(cause: String) -> (r: GatewayError)
    ensures
        r@ == (GatewayErrorView::Upstream { status: 502, body: cause@ }),
{
    GatewayError::Upstream { status: 502, body: cause }
}

/// The error when a reply with `status` had a body that is not JSON.
pub fn body_error(status: u16, cause: String) -> (r: GatewayError)
    ensures
        r@ == (GatewayErrorView::Upstream { status, body: cause@ }),
{
    GatewayError::Upstream { status, body: cause }
}

} // verus!
