//! The parts of an OpenAI-compatible chat request that routing reads, and
//! the native Vertex extension block.
use vstd::prelude::*;

use crate::text::text_eq;

verus! {

/// A message's `content`: a JSON string, or any other JSON value kept in its
/// compact serialized form.
#[derive(Debug, Clone)]
pub enum MessageContent {
    Text(String),
    Json(String),
}

/// One chat message.
#[derive(Debug, Clone)]
pub struct Message {
    pub role: String,
    pub content: MessageContent,
}

/// The native Vertex extension block of a request.
#[derive(Debug, Clone, Default)]
pub struct VertexExt {
    pub cached_content: Option<String>,
    pub media_uris: Option<Vec<String>>,
    /// The response schema, as JSON text.
    pub response_schema: Option<String>,
}

/// What routing reads of a chat request.
#[derive(Debug, Clone)]
pub struct ChatRequest {
    pub model: String,
    pub messages: Vec<Message>,
    pub stream: Option<bool>,
    pub vertex: Option<VertexExt>,
}

/// The backend lane a request takes.
#[derive(Debug, Clone, Copy, PartialEq, Eq, Structural)]
pub enum Lane {
    /// OpenAI-compatible providers through the fallback chain.
    Standard,
    /// The native Vertex REST lane.
    NativeVertex,
}

/// Who speaks a message, as the standard lane maps roles.
#[derive(Debug, Clone, Copy, PartialEq, Eq, Structural)]
pub enum MessageRole {
    System,
    Assistant,
    User,
}

/// The text of a message's content: the string itself, or the serialized JSON.
pub open spec fn content_text(c: MessageContent) -> Seq<char> {
    match c {
        MessageContent::Text(s) => s@,
        MessageContent::Json(s) => s@,
    }
}

/// `system` and `assistant` keep their role; every other role is a user's.
pub open spec fn role_of(role: Seq<char>) -> MessageRole {
    if role == "system"@ {
        MessageRole::System
    } else if role == "assistant"@ {
        MessageRole::Assistant
    } else {
        MessageRole::User
    }
}

/// A request carrying a `vertex` block takes the native lane.
pub open spec fn lane_of(req: ChatRequest) -> Lane {
    if req.vertex is Some {
        Lane::NativeVertex
    } else {
        Lane::Standard
    }
}

impl Message {
    /// The message's text content.
    pub fn text(&self) -> (r: String)
        ensures
            r@ == content_text(self.content),
    {
        match &self.content {
            MessageContent::Text(s) => s.clone(),
            MessageContent::Json(s) => s.clone(),
        }
    }

    /// The role the standard lane gives the message.
    pub fn role_kind(&self) -> (r: MessageRole)
        ensures
            r == role_of(self.role@),
    {
        if text_eq(self.role.as_str(), "system") {
            MessageRole::System
        } else if text_eq(self.role.as_str(), "assistant") {
            MessageRole::Assistant
        } else {
            MessageRole::User
        }
    }
}

/// The `vertex` block alone picks the lane: a request without one takes the
/// standard lane and a request with one the native lane, whatever its
/// messages, model or streaming flag.
pub proof fn law_lane_by_vertex_block(req: ChatRequest)
    ensures
        req.vertex is None ==> lane_of(req) == Lane::Standard,
        req.vertex is Some ==> lane_of(req) == Lane::NativeVertex,
        forall|other: ChatRequest| other.vertex is Some == req.vertex is Some ==> lane_of(other) == lane_of(req),
{
}

/// Picks the lane of a request.
pub fn classify(req: &ChatRequest) -> (r: Lane)
    ensures
        r == lane_of(*req),
        req.vertex is None ==> r == Lane::Standard,
        req.vertex is Some ==> r == Lane::NativeVertex,
{
    match &req.vertex {
        Some(_) => Lane::NativeVertex,
        None => Lane::Standard,
    }
}

/// The label of a lane in the ledger and metrics.
pub fn lane_label(lane: Lane) -> (r: &'static str)
    ensures
        r@ == (match lane {
            Lane::Standard => "standard"@,
            Lane::NativeVertex => "native"@,
        }),
{
    match lane {
        Lane::Standard => "standard",
        Lane::NativeVertex => "native",
    }
}

} // verus!
