//! Standard-lane executor: the decisions of walking a route's legs in order.
//! A retryable failure (or an open breaker) advances to the next leg; the
//! first non-retryable failure aborts; the first success wins.
use vstd::prelude::*;

use crate::error::{GatewayError, GatewayErrorView, LegFailure, LegFailureView};
use crate::routing::request::{content_text, role_of, MessageRole};
use crate::routing::table::{ChainLeg, LegView};
use genai::chat::ChatMessage as GenaiChatMessage;
use genai::chat::ChatRequest as GenaiChatRequest;

verus! {

/// `GenaiChatMessage`, carried as an opaque value.
#[verifier::external_type_specification]
#[verifier::external_body]
pub struct ExGenaiChatMessage(GenaiChatMessage);

/// `GenaiChatRequest`, carried as an opaque value.
#[verifier::external_type_specification]
#[verifier::external_body]
pub struct ExGenaiChatRequest(GenaiChatRequest);

/// The message `ChatMessage::system` builds from a text.
pub uninterp spec fn genai_system_message(text: Seq<char>) -> GenaiChatMessage;

/// The message `ChatMessage::assistant` builds from a text.
pub uninterp spec fn genai_assistant_message(text: Seq<char>) -> GenaiChatMessage;

/// The message `ChatMessage::user` builds from a text.
pub uninterp spec fn genai_user_message(text: Seq<char>) -> GenaiChatMessage;

/// The request `ChatRequest::new` builds from a list of messages.
pub uninterp spec fn genai_chat_request(messages: Seq<GenaiChatMessage>) -> GenaiChatRequest;

/// `GenaiChatMessage::system`: a system-role message holding the text
/// (a function of the text alone).
#[verifier::external_body]
fn genai_system(text: String) -> (r: GenaiChatMessage)
    ensures
        r == genai_system_message(text@),
{
    GenaiChatMessage::system(text)
}

/// `GenaiChatMessage::assistant`: an assistant-role message holding
/// the text (a function of the text alone).
#[verifier::external_body]
fn genai_assistant(text: String) -> (r: GenaiChatMessage)
    ensures
        r == genai_assistant_message(text@),
{
    GenaiChatMessage::assistant(text)
}

/// `GenaiChatMessage::user`: a user-role message holding the text
/// (a function of the text alone).
#[verifier::external_body]
fn genai_user(text: String) -> (r: GenaiChatMessage)
    ensures
        r == genai_user_message(text@),
{
    GenaiChatMessage::user(text)
}

/// `GenaiChatRequest::new`: a request holding exactly these messages,
/// in order (a function of the messages alone).
pub assume_specification[ GenaiChatRequest::new ](messages: Vec<GenaiChatMessage>) -> (r:
    GenaiChatRequest)
    ensures
        r == genai_chat_request(messages@),
;

/// The genai message for a role and a text.
pub open spec fn genai_message(role: MessageRole, text: Seq<char>) -> GenaiChatMessage {
    match role {
        MessageRole::System => genai_system_message(text),
        MessageRole::Assistant => genai_assistant_message(text),
        MessageRole::User => genai_user_message(text),
    }
}

/// The genai messages of a request: one per message, in order, with its
/// mapped role and its text.
pub open spec fn genai_messages(req: crate::routing::request::ChatRequest) -> Seq<GenaiChatMessage> {
    req.messages@.map_values(
        |m: crate::routing::request::Message| genai_message(role_of(m.role@), content_text(m.content)),
    )
}

/// Builds the standard lane's genai request from the gateway request's
/// messages (text content only; multimodal goes through the native lane).
pub fn to_genai_request(req: &crate::routing::request::ChatRequest) -> (r: GenaiChatRequest)
    ensures
        r == genai_chat_request(genai_messages(*req)),
{
    let mut messages: Vec<GenaiChatMessage> = Vec::new();
    let n = req.messages.len();
    let mut i: usize = 0;
    while i < n
        invariant
            n == req.messages@.len(),
            i <= n,
            messages@ == genai_messages(*req).take(i as int),
        decreases n - i,
    {
        let m = &req.messages[i];
        let text = m.text();
        let msg = match m.role_kind() {
            MessageRole::System => genai_system(text),
            MessageRole::Assistant => genai_assistant(text),
            MessageRole::User => genai_user(text),
        };
        messages.push(msg);
        proof {
            assert(messages@ =~= genai_messages(*req).take(i + 1));
        }
        i = i + 1;
    }
    proof {
        assert(genai_messages(*req).take(n as int) =~= genai_messages(*req));
    }
    GenaiChatRequest::new(messages)
}

/// Normalised result of one completed LLM call.
#[derive(Debug, Clone)]
pub struct Completion {
    pub provider: String,
    pub model: String,
    pub content: String,
    pub input_tokens: u64,
    pub output_tokens: u64,
}

/// A completion as plain values.
pub struct CompletionView {
    pub provider: Seq<char>,
    pub model: Seq<char>,
    pub content: Seq<char>,
    pub input_tokens: u64,
    pub output_tokens: u64,
}

impl View for Completion {
    type V = CompletionView;

    open spec fn view(&self) -> CompletionView {
        CompletionView {
            provider: self.provider@,
            model: self.model@,
            content: self.content@,
            input_tokens: self.input_tokens,
            output_tokens: self.output_tokens,
        }
    }
}

/// A token count as providers report it (`Option<i32>`), read as a `u64`:
/// missing and negative counts are zero.
pub open spec fn spec_token_count(reported: Option<i32>) -> u64 {
    match reported {
        Some(n) => if n > 0 {
            n as u64
        } else {
            0
        },
        None => 0,
    }
}

/// Reads a reported token count.
pub fn token_count(reported: Option<i32>) -> (r: u64)
    ensures
        r == spec_token_count(reported),
{
    match reported {
        Some(n) => if n > 0 {
            n as u64
        } else {
            0
        },
        None => 0,
    }
}

impl Completion {
    /// The completion of a standard-lane call on `leg`, from the reported usage.
    pub fn from_usage(
        leg: &ChainLeg,
        content: String,
        prompt_tokens: Option<i32>,
        completion_tokens: Option<i32>,
    ) -> (r: Completion)
        ensures
            r.provider@ == leg.provider@,
            r.model@ == leg.model@,
            r.content@ == content@,
            r.input_tokens == spec_token_count(prompt_tokens),
            r.output_tokens == spec_token_count(completion_tokens),
    {
        Completion {
            provider: leg.provider.clone(),
            model: leg.model.clone(),
            content,
            input_tokens: token_count(prompt_tokens),
            output_tokens: token_count(completion_tokens),
        }
    }

    /// Prompt plus completion tokens.
    pub fn total_tokens(&self) -> (r: u64)
        requires
            self.input_tokens + self.output_tokens <= u64::MAX,
        ensures
            r == self.input_tokens + self.output_tokens,
    {
        self.input_tokens + self.output_tokens
    }
}

/// What an upstream call's error says about the upstream.
#[derive(Debug, Clone, Copy, PartialEq, Eq, Structural)]
pub enum UpstreamFailure {
    /// A response came back with this HTTP status.
    Status(u16),
    /// The request failed on the way: timed out, or could not connect.
    Transport { timeout: bool, connect: bool },
    /// Anything else (bad input, unparsable output, auth, ...).
    Other,
}

/// Transient failures are worth the next leg: 5xx statuses, timeouts and
/// connection failures. 4xx and everything else abort the chain.
pub open spec fn failure_retryable(f: UpstreamFailure) -> bool {
    match f {
        UpstreamFailure::Status(s) => 500 <= s <= 599,
        UpstreamFailure::Transport { timeout, connect } => timeout || connect,
        UpstreamFailure::Other => false,
    }
}

/// Exactly the 5xx statuses are retryable; a transport failure is retryable
/// exactly when it timed out or could not connect; nothing else is.
pub proof fn law_retryable_failures(s: u16, timeout: bool, connect: bool)
    ensures
        failure_retryable(UpstreamFailure::Status(s)) <==> 500 <= s <= 599,
        failure_retryable(UpstreamFailure::Transport { timeout, connect }) <==> (timeout || connect),
        !failure_retryable(UpstreamFailure::Other),
{
}

/// Whether a failure is worth advancing the chain for.
pub fn is_retryable(f: &UpstreamFailure) -> (r: bool)
    ensures
        r == failure_retryable(*f),
        forall|s: u16| *f == UpstreamFailure::Status(s) ==> (r <==> 500 <= s <= 599),
        forall|t: bool, c: bool|
            *f == (UpstreamFailure::Transport { timeout: t, connect: c }) ==> (r <==> (t || c)),
        *f == UpstreamFailure::Other ==> !r,
{
    match f {
        UpstreamFailure::Status(s) => 500 <= *s && *s <= 599,
        UpstreamFailure::Transport { timeout, connect } => *timeout || *connect,
        UpstreamFailure::Other => false,
    }
}

/// How one leg went.
#[derive(Debug)]
pub enum LegOutcome {
    /// The leg's provider was never built.
    ProviderMissing,
    /// The leg answered.
    Succeeded(Completion),
    /// The provider's circuit breaker is open; `name` is the breaker's.
    CircuitOpen { name: String },
    /// Every attempt on the leg failed; the last failure and its message.
    Exhausted { failure: UpstreamFailure, message: String },
}

/// A leg outcome as plain values.
pub enum LegOutcomeView {
    ProviderMissing,
    Succeeded(CompletionView),
    CircuitOpen { name: Seq<char> },
    Exhausted { failure: UpstreamFailure, message: Seq<char> },
}

impl View for LegOutcome {
    type V = LegOutcomeView;

    open spec fn view(&self) -> LegOutcomeView {
        match self {
            LegOutcome::ProviderMissing => LegOutcomeView::ProviderMissing,
            LegOutcome::Succeeded(c) => LegOutcomeView::Succeeded(c@),
            LegOutcome::CircuitOpen { name } => LegOutcomeView::CircuitOpen { name: name@ },
            LegOutcome::Exhausted { failure, message } => LegOutcomeView::Exhausted {
                failure: *failure,
                message: message@,
            },
        }
    }
}

/// What the walk asks for next.
#[derive(Debug)]
pub enum ChainStep {
    /// Run the leg at this position and report how it went.
    RunLeg(usize),
    /// The chain is over, with this result.
    Finished(Result<Completion, GatewayError>),
}

/// A step as plain values.
pub enum StepView {
    RunLeg(nat),
    Finished(Result<CompletionView, GatewayErrorView>),
}

impl View for ChainStep {
    type V = StepView;

    open spec fn view(&self) -> StepView {
        match self {
            ChainStep::RunLeg(i) => StepView::RunLeg(*i as nat),
            ChainStep::Finished(Ok(c)) => StepView::Finished(Ok(c@)),
            ChainStep::Finished(Err(e)) => StepView::Finished(Err(e@)),
        }
    }
}

/// The walk over a route's legs.
pub struct ChainWalk {
    route: String,
    legs: Vec<ChainLeg>,
    next: usize,
    failures: Vec<LegFailure>,
    all_circuit_open: bool,
    done: bool,
}

/// The walk as plain values.
pub struct WalkView {
    pub route: Seq<char>,
    pub legs: Seq<LegView>,
    /// Position of the next leg to run.
    pub next: nat,
    /// One failure per leg run so far, in leg order.
    pub failures: Seq<LegFailureView>,
    /// Every leg run so far had an open circuit.
    pub all_circuit_open: bool,
    /// The walk has finished.
    pub done: bool,
}

impl View for ChainWalk {
    type V = WalkView;

    closed spec fn view(&self) -> WalkView {
        WalkView {
            route: self.route@,
            legs: self.legs.deep_view(),
            next: self.next as nat,
            failures: self.failures.deep_view(),
            all_circuit_open: self.all_circuit_open,
            done: self.done,
        }
    }
}

/// The walk waits for the outcome of its next leg.
pub open spec fn awaiting(s: WalkView) -> bool {
    !s.done && s.next < s.legs.len()
}

/// The walk before any leg ran.
pub open spec fn initial_walk(route: Seq<char>, legs: Seq<LegView>) -> WalkView {
    WalkView { route, legs, next: 0, failures: Seq::empty(), all_circuit_open: true, done: false }
}

/// How a chain ends when no leg answered: if every leg run had an open
/// circuit (and at least one ran), all providers are unavailable; otherwise
/// all legs failed, with every failure listed.
pub open spec fn exhausted_verdict(s: WalkView) -> Result<CompletionView, GatewayErrorView> {
    if s.all_circuit_open && s.failures.len() > 0 {
        Err(GatewayErrorView::AllCircuitsOpen(s.route))
    } else {
        Err(GatewayErrorView::AllLegsFailed { route: s.route, failures: s.failures })
    }
}

/// After a leg: run the next one, or end when none is left.
pub open spec fn settle(s: WalkView) -> (WalkView, StepView) {
    if s.next < s.legs.len() {
        (s, StepView::RunLeg(s.next))
    } else {
        (WalkView { done: true, ..s }, StepView::Finished(exhausted_verdict(s)))
    }
}

/// The error of a leg whose provider was never built.
pub open spec fn unbuilt_provider_message(route: Seq<char>, provider: Seq<char>) -> Seq<char> {
    "route '"@ + route + "' references unbuilt provider '"@ + provider + "'"@
}

/// The failure recorded for a leg whose breaker is open.
pub open spec fn circuit_open_message(name: Seq<char>) -> Seq<char> {
    "circuit open: "@ + name
}

/// One step of the walk: the outcome of the awaited leg decides.
pub open spec fn spec_advance(s: WalkView, o: LegOutcomeView) -> (WalkView, StepView) {
    let leg = s.legs[s.next as int];
    match o {
        LegOutcomeView::ProviderMissing => (
            WalkView { done: true, ..s },
            StepView::Finished(
                Err(GatewayErrorView::BadRequest(unbuilt_provider_message(s.route, leg.provider))),
            ),
        ),
        LegOutcomeView::Succeeded(c) => (WalkView { done: true, ..s }, StepView::Finished(Ok(c))),
        LegOutcomeView::CircuitOpen { name } => settle(
            WalkView {
                next: s.next + 1,
                failures: s.failures.push(
                    LegFailureView {
                        provider: leg.provider,
                        model: leg.model,
                        message: circuit_open_message(name),
                    },
                ),
                ..s
            },
        ),
        LegOutcomeView::Exhausted { failure, message } => {
            let s2 = WalkView {
                next: s.next + 1,
                failures: s.failures.push(
                    LegFailureView { provider: leg.provider, model: leg.model, message },
                ),
                all_circuit_open: false,
                ..s
            };
            if failure_retryable(failure) {
                settle(s2)
            } else {
                (WalkView { done: true, ..s2 }, StepView::Finished(exhausted_verdict(s2)))
            }
        },
    }
}

/// What every walk keeps: one failure per leg run, naming that leg.
pub open spec fn walk_wf(s: WalkView) -> bool {
    &&& s.next <= s.legs.len()
    &&& s.failures.len() == s.next
    &&& forall|i: int|
        0 <= i < s.next ==> (#[trigger] s.failures[i]).provider == s.legs[i].provider
            && s.failures[i].model == s.legs[i].model
}

impl ChainWalk {
    /// The walk's state is consistent.
    pub closed spec fn wf(&self) -> bool {
        walk_wf(self@)
    }

    /// Starts walking `legs` for `route`.
    pub fn start(route: &str, legs: Vec<ChainLeg>) -> (r: (ChainWalk, ChainStep))
        ensures
            r.0.wf(),
            (r.0@, r.1@) == settle(initial_walk(route@, legs.deep_view())),
    {
        let walk = ChainWalk {
            route: String::from_str(route),
            legs,
            next: 0,
            failures: Vec::new(),
            all_circuit_open: true,
            done: false,
        };
        proof {
            assert(walk@.failures =~= Seq::<LegFailureView>::empty());
            assert(walk@ == initial_walk(route@, walk@.legs));
        }
        walk.settle()
    }

    /// Whether the walk waits for a leg's outcome.
    pub fn is_awaiting(&self) -> (r: bool)
        ensures
            r == awaiting(self@),
    {
        !self.done && self.next < self.legs.len()
    }

    /// The leg at a position.
    pub fn leg(&self, i: usize) -> (r: &ChainLeg)
        requires
            i < self@.legs.len(),
        ensures
            r@ == self@.legs[i as int],
    {
        &self.legs[i]
    }

    fn settle(self) -> (r: (ChainWalk, ChainStep))
        requires
            !self@.done,
            self.wf(),
        ensures
            r.0.wf(),
            (r.0@, r.1@) == settle(self@),
    {
        let mut walk = self;
        if walk.next < walk.legs.len() {
            let i = walk.next;
            (walk, ChainStep::RunLeg(i))
        } else {
            let verdict = walk.exhausted_verdict();
            walk.done = true;
            (walk, ChainStep::Finished(verdict))
        }
    }

    fn exhausted_verdict(&self) -> (r: Result<Completion, GatewayError>)
        ensures
            (match r {
                Ok(c) => Ok(c@),
                Err(e) => Err(e@),
            }) == exhausted_verdict(self@),
    {
        if self.all_circuit_open && self.failures.len() > 0 {
            Err(GatewayError::AllCircuitsOpen(self.route.clone()))
        } else {
            let failures = clone_failures(&self.failures);
            Err(GatewayError::AllLegsFailed { route: self.route.clone(), failures })
        }
    }

    /// Feeds the outcome of the awaited leg; returns what to do next.
    pub fn advance(&mut self, outcome: LegOutcome) -> (r: ChainStep)
        requires
            old(self).wf(),
            awaiting(old(self)@),
        ensures
            final(self).wf(),
            (final(self)@, r@) == spec_advance(old(self)@, outcome@),
    {
        proof {
            reveal_strlit("route '");
            reveal_strlit("' references unbuilt provider '");
            reveal_strlit("'");
            reveal_strlit("circuit open: ");
        }
        let ghost s = self@;
        let i = self.next;
        let n = self.legs.len();
        assert(self.legs.deep_view().len() == self.legs@.len());
        assert(i < n);
        match outcome {
            LegOutcome::ProviderMissing => {
                let msg = String::from_str("route '").concat(self.route.as_str()).concat(
                    "' references unbuilt provider '",
                ).concat(self.legs[i].provider.as_str()).concat("'");
                self.done = true;
                ChainStep::Finished(Err(GatewayError::BadRequest(msg)))
            },
            LegOutcome::Succeeded(c) => {
                self.done = true;
                ChainStep::Finished(Ok(c))
            },
            LegOutcome::CircuitOpen { name } => {
                let f = LegFailure {
                    provider: self.legs[i].provider.clone(),
                    model: self.legs[i].model.clone(),
                    message: String::from_str("circuit open: ").concat(name.as_str()),
                };
                self.push_failure(f);
                self.next = i + 1;
                proof {
                    assert forall|j: int| 0 <= j < s.next implies self@.failures[j] == s.failures[j] by {}
                }
                let (w, step) = take_walk(self).settle();
                *self = w;
                step
            },
            LegOutcome::Exhausted { failure, message } => {
                let retryable = is_retryable(&failure);
                let f = LegFailure {
                    provider: self.legs[i].provider.clone(),
                    model: self.legs[i].model.clone(),
                    message,
                };
                self.push_failure(f);
                self.next = i + 1;
                self.all_circuit_open = false;
                proof {
                    assert forall|j: int| 0 <= j < s.next implies self@.failures[j] == s.failures[j] by {}
                }
                if retryable {
                    let (w, step) = take_walk(self).settle();
                    *self = w;
                    step
                } else {
                    let verdict = self.exhausted_verdict();
                    self.done = true;
                    ChainStep::Finished(verdict)
                }
            },
        }
    }

    fn push_failure(&mut self, f: LegFailure)
        ensures
            final(self)@ == (WalkView { failures: old(self)@.failures.push(f@), ..old(self)@ }),
    {
        let ghost prev = self.failures.deep_view();
        self.failures.push(f);
        proof {
            assert(self.failures.deep_view() =~= prev.push(f@));
        }
    }
}

/// Moves the walk out of a mutable reference, leaving a finished empty one.
fn take_walk(w: &mut ChainWalk) -> (r: ChainWalk)
    ensures
        r == *old(w),
{
    let mut out = ChainWalk {
        route: String::new(),
        legs: Vec::new(),
        next: 0,
        failures: Vec::new(),
        all_circuit_open: false,
        done: true,
    };
    core::mem::swap(w, &mut out);
    out
}

/// A copy of a list of failures.
fn clone_failures(v: &Vec<LegFailure>) -> (r: Vec<LegFailure>)
    ensures
        r.deep_view() == v.deep_view(),
{
    let mut out: Vec<LegFailure> = Vec::new();
    let mut i: usize = 0;
    while i < v.len()
        invariant
            i <= v@.len(),
            out.deep_view() == v.deep_view().take(i as int),
        decreases v@.len() - i,
    {
        let f = LegFailure {
            provider: v[i].provider.clone(),
            model: v[i].model.clone(),
            message: v[i].message.clone(),
        };
        let ghost prev = out.deep_view();
        out.push(f);
        proof {
            assert(out.deep_view() =~= prev.push(f@));
            assert(v.deep_view().take(i + 1) =~= v.deep_view().take(i as int).push(v@[i as int]@));
        }
        i = i + 1;
    }
    proof {
        assert(v.deep_view().take(v@.len() as int) =~= v.deep_view());
    }
    out
}

} // verus!
