//! The OpenAI chat-completions wire format: request bodies, responses and
//! stream payloads.

use crate::json::{
    array_of, first_of, field, get_array, get_field, get_or_null, get_str, get_string, get_u64, json_parse,
    json_seq, member_seq, number_json, opt_string_json, opt_view, optional_member, or_null,
    push_member, result_view, str_of, str_or_empty, u64_of, Json, JsonValue,
};
use crate::model::{
    events_view, saturating_sum, AdapterInfo, AdapterInfoView, CapabilityMatrix, low32, low_u32, push_event, views, ChatRequest, ChatRequestView, ChatResponse,
    ChatResponseView, ForgeError, ForgeErrorView, Message, MessageView, Role, StreamEvent,
    StreamEventView, ToolCall, ToolCallView, ToolDefinition, ToolDefinitionView, Usage,
};
use crate::sse::{initial, Provider, StreamDecoder};
use crate::text::concat2;
use crate::urls::{
    clone_url, endpoint, endpoint_of, endpoint_view, parse_url, read_view, url_join, url_parse,
    url_text,
};
use url::Url;
use crate::wire::{append_part_texts, part_texts, usage_events};
use vstd::prelude::*;
use vstd::string::*;

verus! {

/// The wire name of a role.
pub open spec fn role_name(role: Role) -> Seq<char> {
    match role {
        Role::System => "system"@,
        Role::User => "user"@,
        Role::Assistant => "assistant"@,
        Role::Tool => "tool"@,
    }
}

/// A message on the wire.
pub open spec fn message_json(m: MessageView) -> JsonValue {
    JsonValue::Object(
        seq![
            ("role"@, JsonValue::String(role_name(m.role))),
            ("content"@, JsonValue::String(m.content)),
        ],
    )
}

/// A tool definition on the wire, wrapped as a function.
pub open spec fn tool_json(t: ToolDefinitionView) -> JsonValue {
    JsonValue::Object(
        seq![
            ("type"@, JsonValue::String("function"@)),
            (
                "function"@,
                JsonValue::Object(
                    seq![
                        ("name"@, JsonValue::String(t.name)),
                        ("description"@, opt_string_json(t.description)),
                        ("parameters"@, t.input_schema),
                    ],
                ),
            ),
        ],
    )
}

/// The members that ask for a stream with usage.
pub open spec fn stream_members(stream: bool) -> Seq<(Seq<char>, JsonValue)> {
    if stream {
        seq![
            ("stream"@, JsonValue::Bool(true)),
            ("stream_options"@, JsonValue::Object(seq![("include_usage"@, JsonValue::Bool(true))])),
        ]
    } else {
        Seq::empty()
    }
}

/// The request body for a prompt.
pub open spec fn chat_body(request: ChatRequestView, stream: bool) -> JsonValue {
    JsonValue::Object(
        seq![
            ("model"@, JsonValue::String(request.model)),
            (
                "messages"@,
                JsonValue::Array(request.messages.map_values(|m: MessageView| message_json(m))),
            ),
        ] + optional_member("temperature"@, request.temperature) + optional_member(
            "max_tokens"@,
            match request.max_tokens {
                Some(n) => Some(number_json(n)),
                None => None,
            },
        ) + optional_member(
            "tools"@,
            if request.tools.len() > 0 {
                Some(
                    JsonValue::Array(
                        request.tools.map_values(|t: ToolDefinitionView| tool_json(t)),
                    ),
                )
            } else {
                None
            },
        ) + stream_members(stream),
    )
}

/// The text of a message's content: a string as it is, an array of parts as
/// the texts of its parts in a row, anything else as the empty text.
pub open spec fn text_content(content: Option<JsonValue>) -> Seq<char> {
    match content {
        Some(JsonValue::String(t)) => t,
        Some(JsonValue::Array(parts)) => part_texts(parts),
        _ => Seq::empty(),
    }
}

/// The arguments of a tool call whose raw arguments are a string, given
/// what reading that string as JSON gave: the document read, else the raw
/// arguments.
pub open spec fn arguments_of(
    raw: Option<JsonValue>,
    parsed: Result<JsonValue, Seq<char>>,
) -> JsonValue {
    match parsed {
        Ok(v) => v,
        Err(_) => or_null(raw),
    }
}

/// The arguments of a tool call.
pub open spec fn tool_arguments(raw: Option<JsonValue>) -> JsonValue {
    match str_of(raw) {
        Some(text) => arguments_of(raw, json_parse(text)),
        None => or_null(raw),
    }
}

/// One tool call of a response.
pub open spec fn tool_call(item: JsonValue) -> ToolCallView {
    let function = or_null(item.get("function"@));
    ToolCallView {
        id: str_or_empty(item.get("id"@)),
        name: str_or_empty(function.get("name"@)),
        arguments: tool_arguments(function.get("arguments"@)),
    }
}

/// The tool calls of a message.
pub open spec fn tool_calls(raw: Option<JsonValue>) -> Seq<ToolCallView> {
    match array_of(raw) {
        Some(items) => items.map_values(|item: JsonValue| tool_call(item)),
        None => Seq::empty(),
    }
}

/// The usage of a response: present only where all three counters are.
pub open spec fn usage(raw: Option<JsonValue>) -> Option<Usage> {
    match (
        u64_of(field(raw, "prompt_tokens"@)),
        u64_of(field(raw, "completion_tokens"@)),
        u64_of(field(raw, "total_tokens"@)),
    ) {
        (Some(input), Some(output), Some(total)) => Some(
            Usage {
                input_tokens: low32(input),
                output_tokens: low32(output),
                total_tokens: low32(total),
            },
        ),
        _ => None,
    }
}

/// The canonical response for a payload.
pub open spec fn chat_response(payload: JsonValue) -> ChatResponseView {
    let choice = first_of(array_of(payload.get("choices"@)));
    let message = or_null(field(choice, "message"@));
    ChatResponseView {
        id: str_or_empty(payload.get("id"@)),
        model: str_or_empty(payload.get("model"@)),
        output_text: text_content(message.get("content"@)),
        tool_calls: tool_calls(message.get("tool_calls"@)),
        usage: usage(payload.get("usage"@)),
    }
}

/// The text event of a choice: its `delta.content`, where that is a string
/// that is not empty.
pub open spec fn text_events(choice: JsonValue) -> Seq<StreamEventView> {
    match str_of(field(choice.get("delta"@), "content"@)) {
        Some(t) => if t.len() > 0 {
            seq![StreamEventView::TextDelta { delta: t }]
        } else {
            Seq::empty()
        },
        None => Seq::empty(),
    }
}

/// The event for one entry of `delta.tool_calls`.
pub open spec fn call_event(entry: JsonValue) -> StreamEventView {
    StreamEventView::ToolCallDelta { call_id: str_or_empty(entry.get("id"@)), delta: entry }
}

/// The tool-call events of a choice, one for each entry of
/// `delta.tool_calls`.
pub open spec fn call_events(choice: JsonValue) -> Seq<StreamEventView> {
    match array_of(field(choice.get("delta"@), "tool_calls"@)) {
        Some(entries) => entries.map_values(|entry: JsonValue| call_event(entry)),
        None => Seq::empty(),
    }
}

/// The events of the choices, in order: for each its text, then its tool
/// calls.
pub open spec fn choices_events(choices: Seq<JsonValue>) -> Seq<StreamEventView>
    decreases choices.len(),
{
    if choices.len() == 0 {
        Seq::empty()
    } else {
        choices_events(choices.drop_last()) + text_events(choices.last()) + call_events(
            choices.last(),
        )
    }
}

/// The events of one stream payload: its usage, then the events of its
/// choices.
pub open spec fn payload_events(payload: JsonValue) -> Seq<StreamEventView> {
    usage_events(usage(payload.get("usage"@))) + match array_of(payload.get("choices"@)) {
        Some(choices) => choices_events(choices),
        None => Seq::empty(),
    }
}

/// The events of a stream payload, given what reading it as JSON gave.
pub open spec fn events_of(parsed: Result<JsonValue, Seq<char>>) -> Result<
    Seq<StreamEventView>,
    ForgeErrorView,
> {
    match parsed {
        Ok(v) => Ok(payload_events(v)),
        Err(m) => Err(ForgeErrorView::Provider("invalid stream payload: "@ + m)),
    }
}

/// The events of the text of a stream payload.
pub open spec fn stream_payload(payload: Seq<char>) -> Result<
    Seq<StreamEventView>,
    ForgeErrorView,
> {
    events_of(json_parse(payload))
}

/// The usage of a response is the one that the provider states: where it
/// states three counters below 2^32 of which the total is the saturating
/// sum of the other two, so is the total of the response.
pub proof fn lemma_usage_total(payload: JsonValue, input: u64, output: u64, total: u64)
    requires
        u64_of(field(payload.get("usage"@), "prompt_tokens"@)) == Some(input),
        u64_of(field(payload.get("usage"@), "completion_tokens"@)) == Some(output),
        u64_of(field(payload.get("usage"@), "total_tokens"@)) == Some(total),
        input <= u32::MAX,
        output <= u32::MAX,
        total == if input + output > u32::MAX {
            u32::MAX as int
        } else {
            input + output
        },
    ensures
        chat_response(payload).usage == Some(
            Usage {
                input_tokens: input as u32,
                output_tokens: output as u32,
                total_tokens: total as u32,
            },
        ),
        chat_response(payload).usage->0.total_tokens == saturating_sum(
            chat_response(payload).usage->0.input_tokens,
            chat_response(payload).usage->0.output_tokens,
        ),
{
}

/// The wire name of a role.
pub fn role_to_openai(role: &Role) -> (r: &'static str)
    ensures
        r@ == role_name(*role),
{
    match role {
        Role::System => "system",
        Role::User => "user",
        Role::Assistant => "assistant",
        Role::Tool => "tool",
    }
}

fn message_to_json(m: &Message) -> (r: Json)
    ensures
        r@ == message_json(m@),
{
    let mut members: Vec<(String, Json)> = Vec::new();
    assert(member_seq(members@) =~= Seq::empty());
    push_member(&mut members, "role", Json::text(role_to_openai(&m.role)));
    push_member(&mut members, "content", Json::String(m.content.clone()));
    assert(member_seq(members@) =~= message_json(m@)->Object_0);
    Json::object(members)
}

fn tool_to_json(t: &ToolDefinition) -> (r: Json)
    ensures
        r@ == tool_json(t@),
{
    let mut function: Vec<(String, Json)> = Vec::new();
    assert(member_seq(function@) =~= Seq::empty());
    push_member(&mut function, "name", Json::String(t.name.clone()));
    push_member(&mut function, "description", Json::opt_text(&t.description));
    push_member(&mut function, "parameters", t.input_schema.clone());
    let function = Json::object(function);
    let mut members: Vec<(String, Json)> = Vec::new();
    assert(member_seq(members@) =~= Seq::empty());
    push_member(&mut members, "type", Json::text("function"));
    push_member(&mut members, "function", function);
    let r = Json::object(members);
    assert(r@->Object_0[1].1->Object_0 =~= tool_json(t@)->Object_0[1].1->Object_0);
    assert(r@->Object_0 =~= tool_json(t@)->Object_0);
    r
}

/// The request body for a prompt: model, messages, the optional sampling
/// settings, the tools where there are any, and the stream flags where a
/// stream is asked for.
pub fn build_chat_body(request: ChatRequest, stream: bool) -> (body: Json)
    ensures
        body@ == chat_body(request@, stream),
{
    let mut messages: Vec<Json> = Vec::new();
    let mut i: usize = 0;
    while i < request.messages.len()
        invariant
            i <= request.messages.len(),
            messages.len() == i,
            forall|k: int| 0 <= k < i ==> messages@[k]@ == message_json(request.messages@[k]@),
        decreases request.messages.len() - i,
    {
        messages.push(message_to_json(&request.messages[i]));
        i += 1;
    }
    assert(json_seq(messages@) =~= request@.messages.map_values(
        |m: MessageView| message_json(m),
    ));
    let mut members: Vec<(String, Json)> = Vec::new();
    assert(member_seq(members@) =~= Seq::empty());
    push_member(&mut members, "model", Json::String(request.model.clone()));
    push_member(&mut members, "messages", Json::array(messages));
    let ghost m0 = member_seq(members@);
    assert(m0 =~= seq![
        ("model"@, JsonValue::String(request@.model)),
        (
            "messages"@,
            JsonValue::Array(request@.messages.map_values(|m: MessageView| message_json(m))),
        ),
    ]);
    match &request.temperature {
        Some(t) => {
            push_member(&mut members, "temperature", t.clone());
        },
        None => {},
    }
    let ghost m1 = member_seq(members@);
    assert(m1 =~= m0 + optional_member("temperature"@, request@.temperature));
    match request.max_tokens {
        Some(n) => {
            push_member(&mut members, "max_tokens", Json::unsigned(n as u64));
        },
        None => {},
    }
    let ghost m2 = member_seq(members@);
    assert(m2 =~= m1 + optional_member(
        "max_tokens"@,
        match request@.max_tokens {
            Some(n) => Some(number_json(n)),
            None => None,
        },
    ));
    if request.tools.len() > 0 {
        let mut tools: Vec<Json> = Vec::new();
        let mut j: usize = 0;
        while j < request.tools.len()
            invariant
                j <= request.tools.len(),
                tools.len() == j,
                forall|k: int| 0 <= k < j ==> tools@[k]@ == tool_json(request.tools@[k]@),
            decreases request.tools.len() - j,
        {
            tools.push(tool_to_json(&request.tools[j]));
            j += 1;
        }
        assert(json_seq(tools@) =~= request@.tools.map_values(
            |t: ToolDefinitionView| tool_json(t),
        ));
        push_member(&mut members, "tools", Json::array(tools));
    }
    let ghost m3 = member_seq(members@);
    assert(m3 =~= m2 + optional_member(
        "tools"@,
        if request@.tools.len() > 0 {
            Some(
                JsonValue::Array(request@.tools.map_values(|t: ToolDefinitionView| tool_json(t))),
            )
        } else {
            None
        },
    ));
    if stream {
        push_member(&mut members, "stream", Json::Bool(true));
        let mut options: Vec<(String, Json)> = Vec::new();
        assert(member_seq(options@) =~= Seq::empty());
        push_member(&mut options, "include_usage", Json::Bool(true));
        assert(member_seq(options@) =~= seq![("include_usage"@, JsonValue::Bool(true))]);
        push_member(&mut members, "stream_options", Json::object(options));
    }
    assert(member_seq(members@) =~= m3 + stream_members(stream));
    Json::object(members)
}

/// The text of a message's content.
pub fn extract_text_content(content: Option<&Json>) -> (r: String)
    ensures
        r@ == text_content(opt_view(content)),
{
    match content {
        Some(Json::String(t)) => t.clone(),
        Some(Json::Array(parts)) => {
            proof {
                crate::json::lemma_array_view(*parts);
            }
            let mut out = String::new();
            append_part_texts(&mut out, parts);
            assert(out@ =~= part_texts(json_seq(parts@)));
            out
        },
        _ => String::new(),
    }
}

/// The arguments of a tool call whose raw arguments are a string, given what
/// reading that string as JSON gave.
pub fn decoded_arguments(raw: Option<&Json>, parsed: Result<Json, String>) -> (r: Json)
    ensures
        r@ == arguments_of(opt_view(raw), result_view(parsed)),
{
    match parsed {
        Ok(v) => v,
        Err(_) => get_or_null(raw),
    }
}

fn extract_arguments(raw: Option<&Json>) -> (r: Json)
    ensures
        r@ == tool_arguments(opt_view(raw)),
{
    match get_str(raw) {
        Some(text) => decoded_arguments(raw, Json::parse(text)),
        None => get_or_null(raw),
    }
}

fn extract_tool_call(item: &Json) -> (r: ToolCall)
    ensures
        r@ == tool_call(item@),
{
    let id = get_string(item.get("id"));
    let null = Json::Null;
    let function = match item.get("function") {
        Some(f) => f,
        None => &null,
    };
    let name = get_string(function.get("name"));
    let arguments = extract_arguments(function.get("arguments"));
    ToolCall { id, name, arguments }
}

/// The tool calls of a message: one for each item of the array, with its
/// `id`, the `name` of its `function`, and its arguments read from their
/// JSON string.
pub fn extract_tool_calls(raw: Option<&Json>) -> (r: Vec<ToolCall>)
    ensures
        views(r@) == tool_calls(opt_view(raw)),
{
    match get_array(raw) {
        Some(items) => {
            let mut out: Vec<ToolCall> = Vec::new();
            let mut i: usize = 0;
            while i < items.len()
                invariant
                    i <= items.len(),
                    out.len() == i,
                    forall|k: int| 0 <= k < i ==> out@[k]@ == tool_call(items@[k]@),
                decreases items.len() - i,
            {
                out.push(extract_tool_call(&items[i]));
                i += 1;
            }
            assert(views(out@) =~= json_seq(items@).map_values(|item: JsonValue| tool_call(item)));
            out
        },
        None => {
            let out: Vec<ToolCall> = Vec::new();
            assert(views(out@) =~= Seq::empty());
            out
        },
    }
}

/// The usage of a response: present only where all three counters are.
pub fn extract_usage(raw: Option<&Json>) -> (r: Option<Usage>)
    ensures
        r == usage(opt_view(raw)),
{
    let input = get_u64(get_field(raw, "prompt_tokens"));
    let output = get_u64(get_field(raw, "completion_tokens"));
    let total = get_u64(get_field(raw, "total_tokens"));
    match (input, output, total) {
        (Some(i), Some(o), Some(t)) => Some(
            Usage {
                input_tokens: low_u32(i),
                output_tokens: low_u32(o),
                total_tokens: low_u32(t),
            },
        ),
        _ => None,
    }
}

/// The canonical response for a payload: the message of the first choice,
/// its tool calls, and the usage. Always succeeds.
pub fn parse_chat_response(payload: Json) -> (r: Result<ChatResponse, ForgeError>)
    ensures
        r matches Ok(response) && response@ == chat_response(payload@),
{
    let id = get_string(payload.get("id"));
    let model = get_string(payload.get("model"));
    let choice = match get_array(payload.get("choices")) {
        Some(choices) => if choices.len() > 0 {
            Some(&choices[0])
        } else {
            None
        },
        None => None,
    };
    assert(opt_view(choice) == first_of(array_of(payload@.get("choices"@))));
    let null = Json::Null;
    let message = match get_field(choice, "message") {
        Some(m) => m,
        None => &null,
    };
    let output_text = extract_text_content(message.get("content"));
    let tool_calls = extract_tool_calls(message.get("tool_calls"));
    let usage = extract_usage(payload.get("usage"));
    Ok(ChatResponse { id, model, output_text, tool_calls, usage })
}

fn push_choice_events(events: &mut Vec<StreamEvent>, choice: &Json)
    ensures
        views(final(events)@) == views(old(events)@) + text_events(choice@) + call_events(choice@),
{
    let delta = choice.get("delta");
    match get_str(get_field(delta, "content")) {
        Some(t) => {
            if !t.is_empty() {
                push_event(events, StreamEvent::TextDelta { delta: t.to_owned() });
            }
        },
        None => {},
    }
    assert(views(events@) =~= views(old(events)@) + text_events(choice@));
    let ghost base = views(events@);
    match get_array(get_field(delta, "tool_calls")) {
        Some(entries) => {
            let mut i: usize = 0;
            while i < entries.len()
                invariant
                    i <= entries.len(),
                    views(events@) == base + json_seq(entries@).take(i as int).map_values(
                        |entry: JsonValue| call_event(entry),
                    ),
                decreases entries.len() - i,
            {
                let call_id = get_string(entries[i].get("id"));
                push_event(
                    events,
                    StreamEvent::ToolCallDelta { call_id, delta: entries[i].clone() },
                );
                assert(json_seq(entries@).take(i + 1).map_values(
                    |entry: JsonValue| call_event(entry),
                ) =~= json_seq(entries@).take(i as int).map_values(
                    |entry: JsonValue| call_event(entry),
                ).push(call_event(entries@[i as int]@)));
                i += 1;
            }
            assert(json_seq(entries@).take(entries.len() as int) =~= json_seq(entries@));
        },
        None => {},
    }
    assert(views(events@) =~= base + call_events(choice@));
}

/// The events of one stream payload: its usage, then for each choice its
/// text where it is not empty and one event for each tool call.
pub fn payload_to_events(payload: &Json) -> (r: Vec<StreamEvent>)
    ensures
        views(r@) == payload_events(payload@),
{
    let mut events: Vec<StreamEvent> = Vec::new();
    assert(views(events@) =~= Seq::empty());
    match extract_usage(payload.get("usage")) {
        Some(usage) => {
            push_event(&mut events, StreamEvent::Usage { usage });
        },
        None => {},
    }
    assert(views(events@) =~= usage_events(usage(payload@.get("usage"@))));
    let ghost base = views(events@);
    match get_array(payload.get("choices")) {
        Some(choices) => {
            let ghost all = json_seq(choices@);
            let mut i: usize = 0;
            assert(all.take(0) =~= Seq::empty());
            while i < choices.len()
                invariant
                    i <= choices.len(),
                    all == json_seq(choices@),
                    views(events@) == base + choices_events(all.take(i as int)),
                decreases choices.len() - i,
            {
                proof {
                    let next = all.take(i + 1);
                    assert(next.drop_last() =~= all.take(i as int));
                    assert(next.last() == choices@[i as int]@);
                }
                push_choice_events(&mut events, &choices[i]);
                i += 1;
            }
            assert(all.take(choices.len() as int) =~= all);
        },
        None => {},
    }
    events
}

/// The events of a stream payload, given what reading it as JSON gave.
pub fn events_from(parsed: Result<Json, String>) -> (r: Result<Vec<StreamEvent>, ForgeError>)
    ensures
        events_view(r) == events_of(result_view(parsed)),
{
    match parsed {
        Ok(v) => Ok(payload_to_events(&v)),
        Err(m) => Err(ForgeError::Provider(concat2("invalid stream payload: ", m.as_str()))),
    }
}

/// The events of the text of one stream payload; a text that is no JSON is
/// a provider error.
pub fn parse_stream_payload(payload: &str) -> (r: Result<Vec<StreamEvent>, ForgeError>)
    ensures
        events_view(r) == stream_payload(payload@),
{
    events_from(Json::parse(payload))
}

/// The configuration of the OpenAI adapter.
#[derive(Debug, PartialEq, Eq)]
pub struct OpenAiAdapter {
    pub api_key: String,
    pub base_url: Url,
}

/// The base URL of the provider.
pub open spec fn default_base_url() -> Seq<char> {
    "https://api.openai.com"@
}

/// The path of the chat endpoint under the base URL.
pub open spec fn chat_path() -> Seq<char> {
    "v1/chat/completions"@
}

/// What the provider can do.
pub open spec fn capabilities() -> CapabilityMatrix {
    CapabilityMatrix {
        streaming: true,
        tools: true,
        structured_output: true,
        multimodal_input: true,
        citations: false,
    }
}

/// The adapter for a key, given what reading the provider's base URL gave.
pub open spec fn adapter_of(api_key: Seq<char>, base: Result<Seq<char>, Seq<char>>) -> Result<
    (Seq<char>, Seq<char>),
    ForgeErrorView,
> {
    match base {
        Ok(text) => Ok((api_key, text)),
        Err(cause) => Err(ForgeErrorView::Internal(cause)),
    }
}

/// The key and the base URL of an adapter, or the error in its place.
pub open spec fn adapter_view(r: Result<OpenAiAdapter, ForgeError>) -> Result<
    (Seq<char>, Seq<char>),
    ForgeErrorView,
> {
    match r {
        Ok(a) => Ok((a.api_key@, url_text(a.base_url))),
        Err(e) => Err(e@),
    }
}

/// The adapter for the settings of a process: a missing key is an
/// authentication error, a base URL that is not read is a validation
/// error, and without a base URL the provider's own is taken.
pub open spec fn configured(api_key: Option<Seq<char>>, base_url: Option<Seq<char>>) -> Result<
    (Seq<char>, Seq<char>),
    ForgeErrorView,
> {
    match api_key {
        None => Err(ForgeErrorView::Authentication),
        Some(key) => match base_url {
            Some(raw) => match url_parse(raw) {
                Ok(text) => Ok((key, text)),
                Err(cause) => Err(ForgeErrorView::Validation("invalid OPENAI_BASE_URL: "@ + cause)),
            },
            None => adapter_of(key, url_parse(default_base_url())),
        },
    }
}

impl OpenAiAdapter {
    /// An adapter for the provider's own base URL.
    pub fn new(api_key: String) -> (r: Result<Self, ForgeError>)
        ensures
            adapter_view(r) == adapter_of(api_key@, url_parse(default_base_url())),
    {
        Self::from_parsed(api_key, parse_url("https://api.openai.com"))
    }

    /// An adapter, given what reading its base URL gave: a URL that was
    /// not read is an internal error.
    pub fn from_parsed(api_key: String, base: Result<Url, String>) -> (r: Result<
        Self,
        ForgeError,
    >)
        ensures
            adapter_view(r) == adapter_of(api_key@, read_view(base)),
    {
        match base {
            Ok(base_url) => Self::with_base_url(api_key, base_url),
            Err(cause) => Err(ForgeError::Internal(cause)),
        }
    }

    /// An adapter for the settings of a process: the key, and the base URL
    /// where one is set.
    pub fn from_settings(api_key: Option<String>, base_url: Option<String>) -> (r: Result<
        Self,
        ForgeError,
    >)
        ensures
            adapter_view(r) == configured(
                crate::model::opt_text(api_key),
                crate::model::opt_text(base_url),
            ),
    {
        let key = match api_key {
            Some(key) => key,
            None => {
                return Err(ForgeError::Authentication);
            },
        };
        match base_url {
            Some(raw) => match parse_url(raw.as_str()) {
                Ok(url) => Self::with_base_url(key, url),
                Err(cause) => Err(
                    ForgeError::Validation(concat2("invalid OPENAI_BASE_URL: ", cause.as_str())),
                ),
            },
            None => Self::new(key),
        }
    }

    /// An adapter for a base URL. Always succeeds.
    pub fn with_base_url(api_key: String, base_url: Url) -> (r: Result<Self, ForgeError>)
        ensures
            r matches Ok(a) && a.api_key == api_key && a.base_url == base_url,
    {
        Ok(OpenAiAdapter { api_key, base_url })
    }

    /// The URL of the chat endpoint.
    pub fn chat_completions_url(&self) -> (r: Result<Url, ForgeError>)
        ensures
            endpoint_view(r) == endpoint_of(url_join(url_text(self.base_url), chat_path())),
    {
        endpoint(&self.base_url, "v1/chat/completions")
    }

    /// The header that authenticates a request: the key as a bearer token.
    pub fn headers(&self) -> (r: Vec<(String, String)>)
        ensures
            r@.len() == 1,
            r@[0].0@ == "authorization"@,
            r@[0].1@ == "Bearer "@ + self.api_key@,
    {
        let mut out: Vec<(String, String)> = Vec::new();
        out.push((crate::text::owned("authorization"), concat2("Bearer ", self.api_key.as_str())));
        out
    }

    /// The description of the adapter.
    pub fn info(&self) -> (r: AdapterInfo)
        ensures
            r@ == (AdapterInfoView {
                name: "openai"@,
                base_url: Some(url_text(self.base_url)),
                capabilities: capabilities(),
            }),
    {
        AdapterInfo {
            name: crate::text::owned("openai"),
            base_url: Some(clone_url(&self.base_url)),
            capabilities: CapabilityMatrix {
                streaming: true,
                tools: true,
                structured_output: true,
                multimodal_input: true,
                citations: false,
            },
        }
    }

    /// A decoder for the body of a streamed response.
    pub fn stream_decoder(&self) -> (r: StreamDecoder)
        ensures
            r@ == initial(Provider::OpenAi),
    {
        StreamDecoder::new(Provider::OpenAi)
    }
}

} // verus!
