//! The canonical chat model: requests, messages, responses, stream events
//! and the closed set of errors, each with its mathematical view.

use crate::json::{Json, JsonValue};
use crate::text::{blank, concat2, is_blank, owned};
use crate::urls::{clone_url, opt_url_text};
use url::Url;
use vstd::prelude::*;

verus! {

/// Who speaks in a message.
#[derive(Debug, Clone, Copy, PartialEq, Eq)]
pub enum Role {
    System,
    User,
    Assistant,
    Tool,
}

/// One message of a conversation.
#[derive(Debug, PartialEq, Eq)]
pub struct Message {
    pub role: Role,
    pub content: String,
}

/// A tool that the model may ask for.
#[derive(Debug, PartialEq, Eq)]
pub struct ToolDefinition {
    pub name: String,
    pub description: Option<String>,
    pub input_schema: Json,
}

/// The canonical prompt. `temperature` is the JSON number that goes on the
/// wire; `metadata` is carried along untouched.
#[derive(Debug, PartialEq, Eq)]
pub struct ChatRequest {
    pub model: String,
    pub messages: Vec<Message>,
    pub temperature: Option<Json>,
    pub max_tokens: Option<u32>,
    pub tools: Vec<ToolDefinition>,
    pub metadata: Json,
}

/// A tool invocation that the model asks for.
#[derive(Debug, PartialEq, Eq)]
pub struct ToolCall {
    pub id: String,
    pub name: String,
    pub arguments: Json,
}

/// Token accounting.
#[derive(Debug, Clone, Copy, PartialEq, Eq)]
pub struct Usage {
    pub input_tokens: u32,
    pub output_tokens: u32,
    pub total_tokens: u32,
}

/// The canonical answer of a provider.
#[derive(Debug, PartialEq, Eq)]
pub struct ChatResponse {
    pub id: String,
    pub model: String,
    pub output_text: String,
    pub tool_calls: Vec<ToolCall>,
    pub usage: Option<Usage>,
}

/// One event of a normalized stream.
#[allow(inconsistent_fields)]
#[derive(Debug, PartialEq, Eq)]
pub enum StreamEvent {
    TextDelta { delta: String },
    ToolCallDelta { call_id: String, delta: Json },
    Usage { usage: Usage },
    Done,
}

/// What an adapter can do. Descriptive only.
#[derive(Debug, Clone, Copy, PartialEq, Eq)]
pub struct CapabilityMatrix {
    pub streaming: bool,
    pub tools: bool,
    pub structured_output: bool,
    pub multimodal_input: bool,
    pub citations: bool,
}

/// The description of an adapter. Descriptive only.
#[derive(Debug, PartialEq, Eq)]
pub struct AdapterInfo {
    pub name: String,
    pub base_url: Option<Url>,
    pub capabilities: CapabilityMatrix,
}

/// The closed set of errors.
#[derive(Debug, PartialEq, Eq)]
pub enum ForgeError {
    Validation(String),
    Authentication,
    RateLimited,
    Provider(String),
    Transport(String),
    Internal(String),
}

/// The mathematical value of a `Message`.
pub struct MessageView {
    pub role: Role,
    pub content: Seq<char>,
}

/// The mathematical value of a `ToolDefinition`.
pub struct ToolDefinitionView {
    pub name: Seq<char>,
    pub description: Option<Seq<char>>,
    pub input_schema: JsonValue,
}

/// The mathematical value of a `ChatRequest`.
pub struct ChatRequestView {
    pub model: Seq<char>,
    pub messages: Seq<MessageView>,
    pub temperature: Option<JsonValue>,
    pub max_tokens: Option<u32>,
    pub tools: Seq<ToolDefinitionView>,
    pub metadata: JsonValue,
}

/// The mathematical value of a `ToolCall`.
pub struct ToolCallView {
    pub id: Seq<char>,
    pub name: Seq<char>,
    pub arguments: JsonValue,
}

/// The mathematical value of a `ChatResponse`.
pub struct ChatResponseView {
    pub id: Seq<char>,
    pub model: Seq<char>,
    pub output_text: Seq<char>,
    pub tool_calls: Seq<ToolCallView>,
    pub usage: Option<Usage>,
}

/// The mathematical value of a `StreamEvent`.
#[allow(inconsistent_fields)]
pub enum StreamEventView {
    TextDelta { delta: Seq<char> },
    ToolCallDelta { call_id: Seq<char>, delta: JsonValue },
    Usage { usage: Usage },
    Done,
}

/// The mathematical value of an `AdapterInfo`; the base URL is its text.
pub struct AdapterInfoView {
    pub name: Seq<char>,
    pub base_url: Option<Seq<char>>,
    pub capabilities: CapabilityMatrix,
}

/// The mathematical value of a `ForgeError`.
pub enum ForgeErrorView {
    Validation(Seq<char>),
    Authentication,
    RateLimited,
    Provider(Seq<char>),
    Transport(Seq<char>),
    Internal(Seq<char>),
}

/// The low 32 bits of `n`.
pub open spec fn low32(n: u64) -> u32 {
    (n % 0x1_0000_0000) as u32
}

/// The sum of two counters, or `u32::MAX` where the sum is larger.
pub open spec fn saturating_sum(a: u32, b: u32) -> u32 {
    if a + b > u32::MAX {
        u32::MAX
    } else {
        (a + b) as u32
    }
}

/// The views of a list, item by item.
pub open spec fn views<T: View>(items: Seq<T>) -> Seq<T::V> {
    Seq::new(items.len(), |i: int| items[i]@)
}

/// The view of a list of events, or of the error in their place.
pub open spec fn events_view(r: Result<Vec<StreamEvent>, ForgeError>) -> Result<
    Seq<StreamEventView>,
    ForgeErrorView,
> {
    match r {
        Ok(events) => Ok(views(events@)),
        Err(e) => Err(e@),
    }
}

/// The text of an optional string.
pub open spec fn opt_text(s: Option<String>) -> Option<Seq<char>> {
    match s {
        Some(t) => Some(t@),
        None => None,
    }
}

/// The value of an optional document.
pub open spec fn opt_json(j: Option<Json>) -> Option<JsonValue> {
    match j {
        Some(x) => Some(x@),
        None => None,
    }
}

impl View for Message {
    type V = MessageView;

    open spec fn view(&self) -> MessageView {
        MessageView { role: self.role, content: self.content@ }
    }
}

impl View for ToolDefinition {
    type V = ToolDefinitionView;

    open spec fn view(&self) -> ToolDefinitionView {
        ToolDefinitionView {
            name: self.name@,
            description: opt_text(self.description),
            input_schema: self.input_schema@,
        }
    }
}

impl View for ChatRequest {
    type V = ChatRequestView;

    open spec fn view(&self) -> ChatRequestView {
        ChatRequestView {
            model: self.model@,
            messages: views(self.messages@),
            temperature: opt_json(self.temperature),
            max_tokens: self.max_tokens,
            tools: views(self.tools@),
            metadata: self.metadata@,
        }
    }
}

impl View for ToolCall {
    type V = ToolCallView;

    open spec fn view(&self) -> ToolCallView {
        ToolCallView { id: self.id@, name: self.name@, arguments: self.arguments@ }
    }
}

impl View for ChatResponse {
    type V = ChatResponseView;

    open spec fn view(&self) -> ChatResponseView {
        ChatResponseView {
            id: self.id@,
            model: self.model@,
            output_text: self.output_text@,
            tool_calls: views(self.tool_calls@),
            usage: self.usage,
        }
    }
}

impl View for StreamEvent {
    type V = StreamEventView;

    open spec fn view(&self) -> StreamEventView {
        match self {
            StreamEvent::TextDelta { delta } => StreamEventView::TextDelta { delta: delta@ },
            StreamEvent::ToolCallDelta { call_id, delta } => StreamEventView::ToolCallDelta {
                call_id: call_id@,
                delta: delta@,
            },
            StreamEvent::Usage { usage } => StreamEventView::Usage { usage: *usage },
            StreamEvent::Done => StreamEventView::Done,
        }
    }
}

impl View for AdapterInfo {
    type V = AdapterInfoView;

    open spec fn view(&self) -> AdapterInfoView {
        AdapterInfoView {
            name: self.name@,
            base_url: opt_url_text(self.base_url),
            capabilities: self.capabilities,
        }
    }
}

impl View for ForgeError {
    type V = ForgeErrorView;

    open spec fn view(&self) -> ForgeErrorView {
        match self {
            ForgeError::Validation(m) => ForgeErrorView::Validation(m@),
            ForgeError::Authentication => ForgeErrorView::Authentication,
            ForgeError::RateLimited => ForgeErrorView::RateLimited,
            ForgeError::Provider(m) => ForgeErrorView::Provider(m@),
            ForgeError::Transport(m) => ForgeErrorView::Transport(m@),
            ForgeError::Internal(m) => ForgeErrorView::Internal(m@),
        }
    }
}

impl Clone for Message {
    fn clone(&self) -> (r: Self)
        ensures
            r@ == self@,
    {
        Message { role: self.role, content: self.content.clone() }
    }
}

impl Clone for ToolDefinition {
    fn clone(&self) -> (r: Self)
        ensures
            r@ == self@,
    {
        let description = match &self.description {
            Some(d) => Some(d.clone()),
            None => None,
        };
        ToolDefinition {
            name: self.name.clone(),
            description,
            input_schema: self.input_schema.clone(),
        }
    }
}

impl Clone for ToolCall {
    fn clone(&self) -> (r: Self)
        ensures
            r@ == self@,
    {
        ToolCall {
            id: self.id.clone(),
            name: self.name.clone(),
            arguments: self.arguments.clone(),
        }
    }
}

/// The low 32 bits of `n`.
pub fn low_u32(n: u64) -> (r: u32)
    ensures
        r == low32(n),
{
    assert((n & 0xffff_ffff) == n % 0x1_0000_0000) by (bit_vector);
    (n & 0xffff_ffff) as u32
}

/// Adds an event to a list of events.
pub fn push_event(events: &mut Vec<StreamEvent>, event: StreamEvent)
    ensures
        views(final(events)@) == views(old(events)@).push(event@),
{
    events.push(event);
    assert(views(events@) =~= views(old(events)@).push(event@));
}

/// A copy of a list of messages.
pub fn clone_messages(messages: &Vec<Message>) -> (r: Vec<Message>)
    ensures
        views(r@) == views(messages@),
{
    let mut out: Vec<Message> = Vec::new();
    let mut i: usize = 0;
    while i < messages.len()
        invariant
            i <= messages.len(),
            out.len() == i,
            forall|k: int| 0 <= k < i ==> out@[k]@ == messages@[k]@,
        decreases messages.len() - i,
    {
        out.push(messages[i].clone());
        i += 1;
    }
    assert(views(out@) =~= views(messages@));
    out
}

/// A copy of a list of tool definitions.
pub fn clone_tools(tools: &Vec<ToolDefinition>) -> (r: Vec<ToolDefinition>)
    ensures
        views(r@) == views(tools@),
{
    let mut out: Vec<ToolDefinition> = Vec::new();
    let mut i: usize = 0;
    while i < tools.len()
        invariant
            i <= tools.len(),
            out.len() == i,
            forall|k: int| 0 <= k < i ==> out@[k]@ == tools@[k]@,
        decreases tools.len() - i,
    {
        out.push(tools[i].clone());
        i += 1;
    }
    assert(views(out@) =~= views(tools@));
    out
}

/// A copy of a list of tool calls.
pub fn clone_tool_calls(calls: &Vec<ToolCall>) -> (r: Vec<ToolCall>)
    ensures
        views(r@) == views(calls@),
{
    let mut out: Vec<ToolCall> = Vec::new();
    let mut i: usize = 0;
    while i < calls.len()
        invariant
            i <= calls.len(),
            out.len() == i,
            forall|k: int| 0 <= k < i ==> out@[k]@ == calls@[k]@,
        decreases calls.len() - i,
    {
        out.push(calls[i].clone());
        i += 1;
    }
    assert(views(out@) =~= views(calls@));
    out
}

impl Clone for ChatRequest {
    fn clone(&self) -> (r: Self)
        ensures
            r@ == self@,
    {
        let temperature = match &self.temperature {
            Some(t) => Some(t.clone()),
            None => None,
        };
        ChatRequest {
            model: self.model.clone(),
            messages: clone_messages(&self.messages),
            temperature,
            max_tokens: self.max_tokens,
            tools: clone_tools(&self.tools),
            metadata: self.metadata.clone(),
        }
    }
}

impl Clone for ChatResponse {
    fn clone(&self) -> (r: Self)
        ensures
            r@ == self@,
    {
        ChatResponse {
            id: self.id.clone(),
            model: self.model.clone(),
            output_text: self.output_text.clone(),
            tool_calls: clone_tool_calls(&self.tool_calls),
            usage: self.usage,
        }
    }
}

impl Clone for StreamEvent {
    fn clone(&self) -> (r: Self)
        ensures
            r@ == self@,
    {
        match self {
            StreamEvent::TextDelta { delta } => StreamEvent::TextDelta { delta: delta.clone() },
            StreamEvent::ToolCallDelta { call_id, delta } => StreamEvent::ToolCallDelta {
                call_id: call_id.clone(),
                delta: delta.clone(),
            },
            StreamEvent::Usage { usage } => StreamEvent::Usage { usage: *usage },
            StreamEvent::Done => StreamEvent::Done,
        }
    }
}

impl Clone for AdapterInfo {
    fn clone(&self) -> (r: Self)
        ensures
            r@ == self@,
    {
        let base_url = match &self.base_url {
            Some(url) => Some(clone_url(url)),
            None => None,
        };
        AdapterInfo { name: self.name.clone(), base_url, capabilities: self.capabilities }
    }
}

impl Clone for ForgeError {
    fn clone(&self) -> (r: Self)
        ensures
            r@ == self@,
    {
        match self {
            ForgeError::Validation(m) => ForgeError::Validation(m.clone()),
            ForgeError::Authentication => ForgeError::Authentication,
            ForgeError::RateLimited => ForgeError::RateLimited,
            ForgeError::Provider(m) => ForgeError::Provider(m.clone()),
            ForgeError::Transport(m) => ForgeError::Transport(m.clone()),
            ForgeError::Internal(m) => ForgeError::Internal(m.clone()),
        }
    }
}

impl ForgeErrorView {
    /// The text shown to a user for this error.
    pub open spec fn message(self) -> Seq<char> {
        match self {
            ForgeErrorView::Validation(m) => "validation error: "@ + m,
            ForgeErrorView::Authentication => "authentication error"@,
            ForgeErrorView::RateLimited => "rate limited"@,
            ForgeErrorView::Provider(m) => "provider error: "@ + m,
            ForgeErrorView::Transport(m) => "transport error: "@ + m,
            ForgeErrorView::Internal(m) => "internal error: "@ + m,
        }
    }
}

impl ForgeError {
    /// The text shown to a user for this error; the cause of a provider,
    /// transport, validation or internal error is included word for word.
    pub fn message(&self) -> (r: String)
        ensures
            r@ == self@.message(),
    {
        match self {
            ForgeError::Validation(m) => concat2("validation error: ", m.as_str()),
            ForgeError::Authentication => owned("authentication error"),
            ForgeError::RateLimited => owned("rate limited"),
            ForgeError::Provider(m) => concat2("provider error: ", m.as_str()),
            ForgeError::Transport(m) => concat2("transport error: ", m.as_str()),
            ForgeError::Internal(m) => concat2("internal error: ", m.as_str()),
        }
    }
}

/// What the validator answers for a request: nothing to object to, or the
/// first objection.
pub open spec fn validation(request: ChatRequestView) -> Result<(), ForgeErrorView> {
    if is_blank(request.model) {
        Err(ForgeErrorView::Validation("model cannot be empty"@))
    } else if request.messages.len() == 0 {
        Err(ForgeErrorView::Validation("messages cannot be empty"@))
    } else {
        Ok(())
    }
}

/// A request is valid when its model is not blank and it has a message.
pub open spec fn valid_request(request: ChatRequestView) -> bool {
    !is_blank(request.model) && request.messages.len() > 0
}

/// The view of a result that carries nothing on success.
pub open spec fn unit_result_view(r: Result<(), ForgeError>) -> Result<(), ForgeErrorView> {
    match r {
        Ok(()) => Ok(()),
        Err(e) => Err(e@),
    }
}

/// Checks the two invariants of a request: a model that is not blank, and at
/// least one message.
pub fn validate_request(request: &ChatRequest) -> (r: Result<(), ForgeError>)
    ensures
        unit_result_view(r) == validation(request@),
        r is Ok <==> valid_request(request@),
        r matches Err(e) ==> e is Validation,
{
    if blank(request.model.as_str()) {
        return Err(ForgeError::Validation(owned("model cannot be empty")));
    }
    if request.messages.len() == 0 {
        return Err(ForgeError::Validation(owned("messages cannot be empty")));
    }
    Ok(())
}

} // verus!
