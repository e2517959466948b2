//! The Anthropic messages wire format: request bodies, responses and the
//! payloads of its named stream events.

use crate::json::{
    array_of, field, get_array, get_field, get_or_null, get_str, get_string, json_parse,
    json_seq, member_seq, number_json, opt_string_json, opt_view,
    optional_member, or_null, push_item, push_member, result_view, str_of, str_or_empty, Json, JsonValue,
};
use crate::model::{
    events_view, AdapterInfo, AdapterInfoView, CapabilityMatrix, push_event, saturating_sum, views, ChatRequest, ChatRequestView,
    ChatResponse, ChatResponseView, ForgeError, ForgeErrorView, Message, MessageView, Role,
    StreamEvent, StreamEventView, ToolCall, ToolCallView, ToolDefinition, ToolDefinitionView,
    Usage,
};
use crate::sse::{initial, Provider, StreamDecoder};
use crate::text::{concat2, owned, str_eq};
use crate::urls::{
    endpoint, endpoint_of, endpoint_view, parse_url, read_view, url_join,
    url_parse, url_text,
};
use url::Url;
use crate::wire::{counter, read_counter, system_chunks, system_instructions, system_text, usage_events};
use vstd::prelude::*;
use vstd::string::*;

verus! {

/// The number of output tokens asked for where the request names none.
pub const DEFAULT_MAX_TOKENS: u32 = 1024;

/// The wire name of a role: the assistant is itself, every other role
/// speaks as the user.
pub open spec fn role_name(role: Role) -> Seq<char> {
    match role {
        Role::Assistant => "assistant"@,
        _ => "user"@,
    }
}

/// A message on the wire, its content wrapped as one text block.
pub open spec fn message_json(m: MessageView) -> JsonValue {
    JsonValue::Object(
        seq![
            ("role"@, JsonValue::String(role_name(m.role))),
            (
                "content"@,
                JsonValue::Array(
                    seq![
                        JsonValue::Object(
                            seq![
                                ("type"@, JsonValue::String("text"@)),
                                ("text"@, JsonValue::String(m.content)),
                            ],
                        ),
                    ],
                ),
            ),
        ],
    )
}

/// The messages on the wire: all but the system messages, in order.
pub open spec fn wire_messages(messages: Seq<MessageView>) -> Seq<JsonValue>
    decreases messages.len(),
{
    if messages.len() == 0 {
        Seq::empty()
    } else if messages.last().role is System {
        wire_messages(messages.drop_last())
    } else {
        wire_messages(messages.drop_last()).push(message_json(messages.last()))
    }
}

/// A tool definition on the wire.
pub open spec fn tool_json(t: ToolDefinitionView) -> JsonValue {
    JsonValue::Object(
        seq![
            ("name"@, JsonValue::String(t.name)),
            ("description"@, opt_string_json(t.description)),
            ("input_schema"@, t.input_schema),
        ],
    )
}

/// The number of output tokens that a request asks for.
pub open spec fn max_tokens(request: ChatRequestView) -> u32 {
    match request.max_tokens {
        Some(n) => n,
        None => DEFAULT_MAX_TOKENS,
    }
}

/// The request body for a prompt.
pub open spec fn messages_body(request: ChatRequestView, stream: bool) -> JsonValue {
    JsonValue::Object(
        seq![
            ("model"@, JsonValue::String(request.model)),
            ("max_tokens"@, number_json(max_tokens(request))),
        ] + optional_member("temperature"@, request.temperature) + seq![
            ("messages"@, JsonValue::Array(wire_messages(request.messages))),
        ] + optional_member(
            "system"@,
            if system_chunks(request.messages).len() > 0 {
                Some(JsonValue::String(system_text(request.messages)))
            } else {
                None
            },
        ) + optional_member(
            "tools"@,
            if request.tools.len() > 0 {
                Some(
                    JsonValue::Array(
                        request.tools.map_values(|t: ToolDefinitionView| tool_json(t)),
                    ),
                )
            } else {
                None
            },
        ) + optional_member(
            "stream"@,
            if stream {
                Some(JsonValue::Bool(true))
            } else {
                None
            },
        ),
    )
}

/// Whether a block is of the given type.
pub open spec fn block_is(block: JsonValue, kind: Seq<char>) -> bool {
    str_of(block.get("type"@)) == Some(kind)
}

/// The texts of the text blocks, in a row.
pub open spec fn block_texts(blocks: Seq<JsonValue>) -> Seq<char>
    decreases blocks.len(),
{
    if blocks.len() == 0 {
        Seq::empty()
    } else if block_is(blocks.last(), "text"@) {
        block_texts(blocks.drop_last()) + str_or_empty(blocks.last().get("text"@))
    } else {
        block_texts(blocks.drop_last())
    }
}

/// The tool call of a `tool_use` block.
pub open spec fn block_call(block: JsonValue) -> ToolCallView {
    ToolCallView {
        id: str_or_empty(block.get("id"@)),
        name: str_or_empty(block.get("name"@)),
        arguments: or_null(block.get("input"@)),
    }
}

/// The tool calls of the `tool_use` blocks, in order.
pub open spec fn block_calls(blocks: Seq<JsonValue>) -> Seq<ToolCallView>
    decreases blocks.len(),
{
    if blocks.len() == 0 {
        Seq::empty()
    } else if block_is(blocks.last(), "tool_use"@) {
        block_calls(blocks.drop_last()).push(block_call(blocks.last()))
    } else {
        block_calls(blocks.drop_last())
    }
}

/// The usage that a usage object states; the total is the saturating sum of
/// the two counters.
pub open spec fn usage_of(raw: JsonValue) -> Usage {
    Usage {
        input_tokens: counter(raw, "input_tokens"@),
        output_tokens: counter(raw, "output_tokens"@),
        total_tokens: saturating_sum(
            counter(raw, "input_tokens"@),
            counter(raw, "output_tokens"@),
        ),
    }
}

/// The usage of a response, where it has a usage object.
pub open spec fn usage(raw: Option<JsonValue>) -> Option<Usage> {
    match raw {
        Some(v) => Some(usage_of(v)),
        None => None,
    }
}

/// The blocks of a payload: its `content`, where that is an array.
pub open spec fn content_blocks(payload: JsonValue) -> Seq<JsonValue> {
    match array_of(payload.get("content"@)) {
        Some(blocks) => blocks,
        None => Seq::empty(),
    }
}

/// The canonical response for a payload.
pub open spec fn chat_response(payload: JsonValue) -> ChatResponseView {
    ChatResponseView {
        id: str_or_empty(payload.get("id"@)),
        model: str_or_empty(payload.get("model"@)),
        output_text: block_texts(content_blocks(payload)),
        tool_calls: block_calls(content_blocks(payload)),
        usage: usage(payload.get("usage"@)),
    }
}

/// The name under which a payload is handled: the name of its stream
/// event, else its own `type`, else the empty name.
pub open spec fn event_type(payload: JsonValue, event: Option<Seq<char>>) -> Seq<char> {
    match event {
        Some(name) => name,
        None => str_or_empty(payload.get("type"@)),
    }
}

/// The usage that a payload carries: at its top level, else under
/// `message`.
pub open spec fn payload_usage(payload: JsonValue) -> Option<Usage> {
    match payload.get("usage"@) {
        Some(u) => Some(usage_of(u)),
        None => usage(field(payload.get("message"@), "usage"@)),
    }
}

/// The text event of a `content_block_delta`: its `delta.text`, where that
/// is a string that is not empty.
pub open spec fn text_events(payload: JsonValue, kind: Seq<char>) -> Seq<StreamEventView> {
    if kind == "content_block_delta"@ {
        match str_of(field(payload.get("delta"@), "text"@)) {
            Some(t) => if t.len() > 0 {
                seq![StreamEventView::TextDelta { delta: t }]
            } else {
                Seq::empty()
            },
            None => Seq::empty(),
        }
    } else {
        Seq::empty()
    }
}

/// The tool-call event of a `content_block_start` whose block is a
/// `tool_use`.
pub open spec fn call_events(payload: JsonValue, kind: Seq<char>) -> Seq<StreamEventView> {
    if kind == "content_block_start"@ {
        match payload.get("content_block"@) {
            Some(block) => if block_is(block, "tool_use"@) {
                seq![
                    StreamEventView::ToolCallDelta {
                        call_id: str_or_empty(block.get("id"@)),
                        delta: block,
                    },
                ]
            } else {
                Seq::empty()
            },
            None => Seq::empty(),
        }
    } else {
        Seq::empty()
    }
}

/// The end of the stream, for a `message_stop`.
pub open spec fn stop_events(kind: Seq<char>) -> Seq<StreamEventView> {
    if kind == "message_stop"@ {
        seq![StreamEventView::Done]
    } else {
        Seq::empty()
    }
}

/// The events of one stream payload under the name of its stream event:
/// usage, text, tool call, end.
pub open spec fn payload_events(payload: JsonValue, event: Option<Seq<char>>) -> Seq<
    StreamEventView,
> {
    let kind = event_type(payload, event);
    usage_events(payload_usage(payload)) + text_events(payload, kind) + call_events(payload, kind)
        + stop_events(kind)
}

/// The events of a stream payload, given what reading it as JSON gave.
pub open spec fn events_of(parsed: Result<JsonValue, Seq<char>>, event: Option<Seq<char>>) -> Result<
    Seq<StreamEventView>,
    ForgeErrorView,
> {
    match parsed {
        Ok(v) => Ok(payload_events(v, event)),
        Err(m) => Err(ForgeErrorView::Provider("invalid stream payload: "@ + m)),
    }
}

/// The events of the text of a stream payload.
pub open spec fn stream_payload(payload: Seq<char>, event: Option<Seq<char>>) -> Result<
    Seq<StreamEventView>,
    ForgeErrorView,
> {
    events_of(json_parse(payload), event)
}

/// The text of an optional string slice.
pub open spec fn opt_str_view(s: Option<&str>) -> Option<Seq<char>> {
    match s {
        Some(t) => Some(t@),
        None => None,
    }
}

/// The total of the usage of a response is the saturating sum of its two
/// counters.
pub proof fn lemma_usage_total(payload: JsonValue)
    ensures
        chat_response(payload).usage matches Some(u) ==> u.total_tokens == saturating_sum(
            u.input_tokens,
            u.output_tokens,
        ),
{
}

fn role_to_anthropic(role: &Role) -> (r: &'static str)
    ensures
        r@ == role_name(*role),
{
    match role {
        Role::Assistant => "assistant",
        _ => "user",
    }
}

fn message_to_json(m: &Message) -> (r: Json)
    ensures
        r@ == message_json(m@),
{
    let mut block: Vec<(String, Json)> = Vec::new();
    assert(member_seq(block@) =~= Seq::empty());
    push_member(&mut block, "type", Json::text("text"));
    push_member(&mut block, "text", Json::String(m.content.clone()));
    let block = Json::object(block);
    let mut content: Vec<Json> = Vec::new();
    assert(json_seq(content@) =~= Seq::empty());
    push_item(&mut content, block);
    let content = Json::array(content);
    let mut members: Vec<(String, Json)> = Vec::new();
    assert(member_seq(members@) =~= Seq::empty());
    push_member(&mut members, "role", Json::text(role_to_anthropic(&m.role)));
    push_member(&mut members, "content", content);
    let r = Json::object(members);
    proof {
        let want = message_json(m@);
        let got_blocks = r@->Object_0[1].1->Array_0;
        let want_blocks = want->Object_0[1].1->Array_0;
        assert(got_blocks[0]->Object_0 =~= want_blocks[0]->Object_0);
        assert(got_blocks =~= want_blocks);
        assert(r@->Object_0 =~= want->Object_0);
    }
    r
}

fn tool_to_json(t: &ToolDefinition) -> (r: Json)
    ensures
        r@ == tool_json(t@),
{
    let mut members: Vec<(String, Json)> = Vec::new();
    assert(member_seq(members@) =~= Seq::empty());
    push_member(&mut members, "name", Json::String(t.name.clone()));
    push_member(&mut members, "description", Json::opt_text(&t.description));
    push_member(&mut members, "input_schema", t.input_schema.clone());
    assert(member_seq(members@) =~= tool_json(t@)->Object_0);
    Json::object(members)
}

fn messages_to_json(messages: &Vec<Message>) -> (r: Vec<Json>)
    ensures
        json_seq(r@) == wire_messages(views(messages@)),
{
    let ghost all = views(messages@);
    let mut out: Vec<Json> = Vec::new();
    let mut i: usize = 0;
    assert(all.take(0) =~= Seq::empty());
    assert(json_seq(out@) =~= Seq::empty());
    while i < messages.len()
        invariant
            i <= messages.len(),
            all == views(messages@),
            json_seq(out@) == wire_messages(all.take(i as int)),
        decreases messages.len() - i,
    {
        proof {
            let next = all.take(i + 1);
            assert(next.drop_last() =~= all.take(i as int));
            assert(next.last() == messages@[i as int]@);
        }
        match messages[i].role {
            Role::System => {},
            _ => {
                push_item(&mut out, message_to_json(&messages[i]));
            },
        }
        i += 1;
    }
    assert(all.take(messages.len() as int) =~= all);
    out
}

/// The request body for a prompt: model, the number of output tokens (1024
/// where the request names none), the optional temperature, the messages
/// without the system messages, the system messages joined as `system`, the
/// tools where there are any, and `stream` where a stream is asked for.
pub fn build_messages_body(request: ChatRequest, stream: bool) -> (body: Json)
    ensures
        body@ == messages_body(request@, stream),
{
    let limit = match request.max_tokens {
        Some(n) => n,
        None => DEFAULT_MAX_TOKENS,
    };
    let mut members: Vec<(String, Json)> = Vec::new();
    assert(member_seq(members@) =~= Seq::empty());
    push_member(&mut members, "model", Json::String(request.model.clone()));
    push_member(&mut members, "max_tokens", Json::unsigned(limit as u64));
    let ghost m0 = member_seq(members@);
    assert(m0 =~= seq![
        ("model"@, JsonValue::String(request@.model)),
        ("max_tokens"@, number_json(max_tokens(request@))),
    ]);
    match &request.temperature {
        Some(t) => {
            push_member(&mut members, "temperature", t.clone());
        },
        None => {},
    }
    let ghost m1 = member_seq(members@);
    assert(m1 =~= m0 + optional_member("temperature"@, request@.temperature));
    let messages = messages_to_json(&request.messages);
    push_member(&mut members, "messages", Json::array(messages));
    let ghost m2 = member_seq(members@);
    assert(m2 =~= m1 + seq![("messages"@, JsonValue::Array(wire_messages(request@.messages)))]);
    match system_instructions(&request.messages) {
        Some(text) => {
            push_member(&mut members, "system", Json::String(text));
        },
        None => {},
    }
    let ghost m3 = member_seq(members@);
    assert(m3 =~= m2 + optional_member(
        "system"@,
        if system_chunks(request@.messages).len() > 0 {
            Some(JsonValue::String(system_text(request@.messages)))
        } else {
            None
        },
    ));
    if request.tools.len() > 0 {
        let mut tools: Vec<Json> = Vec::new();
        let mut j: usize = 0;
        while j < request.tools.len()
            invariant
                j <= request.tools.len(),
                tools.len() == j,
                forall|k: int| 0 <= k < j ==> tools@[k]@ == tool_json(request.tools@[k]@),
            decreases request.tools.len() - j,
        {
            tools.push(tool_to_json(&request.tools[j]));
            j += 1;
        }
        assert(json_seq(tools@) =~= request@.tools.map_values(
            |t: ToolDefinitionView| tool_json(t),
        ));
        push_member(&mut members, "tools", Json::array(tools));
    }
    let ghost m4 = member_seq(members@);
    assert(m4 =~= m3 + optional_member(
        "tools"@,
        if request@.tools.len() > 0 {
            Some(
                JsonValue::Array(request@.tools.map_values(|t: ToolDefinitionView| tool_json(t))),
            )
        } else {
            None
        },
    ));
    if stream {
        push_member(&mut members, "stream", Json::Bool(true));
    }
    assert(member_seq(members@) =~= m4 + optional_member(
        "stream"@,
        if stream {
            Some(JsonValue::Bool(true))
        } else {
            None
        },
    ));
    Json::object(members)
}

fn is_block(block: &Json, kind: &str) -> (r: bool)
    ensures
        r == block_is(block@, kind@),
{
    match get_str(block.get("type")) {
        Some(t) => str_eq(t, kind),
        None => false,
    }
}

/// The texts of the text blocks, in a row.
pub fn extract_text_blocks(content: &Vec<Json>) -> (r: String)
    ensures
        r@ == block_texts(json_seq(content@)),
{
    let ghost all = json_seq(content@);
    let mut out = String::new();
    let mut i: usize = 0;
    assert(all.take(0) =~= Seq::empty());
    while i < content.len()
        invariant
            i <= content.len(),
            all == json_seq(content@),
            out@ == block_texts(all.take(i as int)),
        decreases content.len() - i,
    {
        proof {
            let next = all.take(i + 1);
            assert(next.drop_last() =~= all.take(i as int));
            assert(next.last() == content@[i as int]@);
        }
        if is_block(&content[i], "text") {
            let text = get_string(content[i].get("text"));
            out.append(text.as_str());
        }
        i += 1;
    }
    assert(all.take(content.len() as int) =~= all);
    out
}

/// The tool calls of the `tool_use` blocks, in order.
pub fn extract_tool_calls_from_blocks(content: &Vec<Json>) -> (r: Vec<ToolCall>)
    ensures
        views(r@) == block_calls(json_seq(content@)),
{
    let ghost all = json_seq(content@);
    let mut out: Vec<ToolCall> = Vec::new();
    let mut i: usize = 0;
    assert(all.take(0) =~= Seq::empty());
    assert(views(out@) =~= Seq::empty());
    while i < content.len()
        invariant
            i <= content.len(),
            all == json_seq(content@),
            views(out@) == block_calls(all.take(i as int)),
        decreases content.len() - i,
    {
        proof {
            let next = all.take(i + 1);
            assert(next.drop_last() =~= all.take(i as int));
            assert(next.last() == content@[i as int]@);
        }
        if is_block(&content[i], "tool_use") {
            let ghost before = views(out@);
            let call = ToolCall {
                id: get_string(content[i].get("id")),
                name: get_string(content[i].get("name")),
                arguments: get_or_null(content[i].get("input")),
            };
            out.push(call);
            assert(views(out@) =~= before.push(block_call(content@[i as int]@)));
        }
        i += 1;
    }
    assert(all.take(content.len() as int) =~= all);
    out
}

/// The usage that a usage object states; the total is the saturating sum of
/// its two counters, each 0 where it is missing.
pub fn extract_usage(raw: Option<&Json>) -> (r: Option<Usage>)
    ensures
        r == usage(opt_view(raw)),
        r matches Some(u) ==> u.total_tokens == saturating_sum(u.input_tokens, u.output_tokens),
{
    match raw {
        Some(v) => {
            let input_tokens = read_counter(v, "input_tokens");
            let output_tokens = read_counter(v, "output_tokens");
            Some(
                Usage {
                    input_tokens,
                    output_tokens,
                    total_tokens: input_tokens.saturating_add(output_tokens),
                },
            )
        },
        None => None,
    }
}

/// The canonical response for a payload: the texts of its text blocks, the
/// tool calls of its `tool_use` blocks, and its usage. Always succeeds.
pub fn parse_chat_response(payload: Json) -> (r: Result<ChatResponse, ForgeError>)
    ensures
        r matches Ok(response) && response@ == chat_response(payload@),
{
    let id = get_string(payload.get("id"));
    let model = get_string(payload.get("model"));
    let empty: Vec<Json> = Vec::new();
    assert(json_seq(empty@) =~= Seq::empty());
    let content = match get_array(payload.get("content")) {
        Some(blocks) => blocks,
        None => &empty,
    };
    let output_text = extract_text_blocks(content);
    let tool_calls = extract_tool_calls_from_blocks(content);
    let usage = extract_usage(payload.get("usage"));
    Ok(ChatResponse { id, model, output_text, tool_calls, usage })
}

/// The events of one stream payload under the name of its stream event.
pub fn payload_to_events(payload: &Json, event: Option<&str>) -> (r: Vec<StreamEvent>)
    ensures
        views(r@) == payload_events(payload@, opt_str_view(event)),
{
    let kind = match event {
        Some(name) => owned(name),
        None => get_string(payload.get("type")),
    };
    assert(kind@ == event_type(payload@, opt_str_view(event)));
    let mut events: Vec<StreamEvent> = Vec::new();
    assert(views(events@) =~= Seq::empty());
    let usage = match payload.get("usage") {
        Some(u) => extract_usage(Some(u)),
        None => extract_usage(get_field(payload.get("message"), "usage")),
    };
    assert(usage == payload_usage(payload@));
    match usage {
        Some(usage) => {
            push_event(&mut events, StreamEvent::Usage { usage });
        },
        None => {},
    }
    let ghost e0 = views(events@);
    assert(e0 =~= usage_events(payload_usage(payload@)));
    if str_eq(kind.as_str(), "content_block_delta") {
        match get_str(get_field(payload.get("delta"), "text")) {
            Some(t) => {
                if !t.is_empty() {
                    push_event(&mut events, StreamEvent::TextDelta { delta: t.to_owned() });
                }
            },
            None => {},
        }
    }
    let ghost e1 = views(events@);
    assert(e1 =~= e0 + text_events(payload@, kind@));
    if str_eq(kind.as_str(), "content_block_start") {
        match payload.get("content_block") {
            Some(block) => {
                if is_block(block, "tool_use") {
                    let call_id = get_string(block.get("id"));
                    push_event(
                        &mut events,
                        StreamEvent::ToolCallDelta { call_id, delta: block.clone() },
                    );
                }
            },
            None => {},
        }
    }
    let ghost e2 = views(events@);
    assert(e2 =~= e1 + call_events(payload@, kind@));
    if str_eq(kind.as_str(), "message_stop") {
        push_event(&mut events, StreamEvent::Done);
    }
    assert(views(events@) =~= e2 + stop_events(kind@));
    events
}

/// The events of a stream payload, given what reading it as JSON gave.
pub fn events_from(parsed: Result<Json, String>, event: Option<&str>) -> (r: Result<
    Vec<StreamEvent>,
    ForgeError,
>)
    ensures
        events_view(r) == events_of(result_view(parsed), opt_str_view(event)),
{
    match parsed {
        Ok(v) => Ok(payload_to_events(&v, event)),
        Err(m) => Err(ForgeError::Provider(concat2("invalid stream payload: ", m.as_str()))),
    }
}

/// The events of the text of one stream payload under the name of its
/// stream event; a text that is no JSON is a provider error.
pub fn parse_stream_payload(payload: &str, event: Option<&str>) -> (r: Result<
    Vec<StreamEvent>,
    ForgeError,
>)
    ensures
        events_view(r) == stream_payload(payload@, opt_str_view(event)),
{
    events_from(Json::parse(payload), event)
}

/// The configuration of the Anthropic adapter.
#[derive(Debug, PartialEq, Eq)]
pub struct AnthropicAdapter {
    pub api_key: String,
    pub base_url: Url,
    pub api_version: String,
}

/// The base URL of the provider.
pub open spec fn default_base_url() -> Seq<char> {
    "https://api.anthropic.com"@
}

/// The version of the API that the adapter speaks.
pub open spec fn default_api_version() -> Seq<char> {
    "2023-06-01"@
}

/// The path of the messages endpoint under the base URL.
pub open spec fn messages_path() -> Seq<char> {
    "v1/messages"@
}

/// What the provider can do.
pub open spec fn capabilities() -> CapabilityMatrix {
    CapabilityMatrix {
        streaming: true,
        tools: true,
        structured_output: true,
        multimodal_input: true,
        citations: false,
    }
}

/// The adapter for a key, given what reading the provider's base URL gave.
pub open spec fn adapter_of(api_key: Seq<char>, base: Result<Seq<char>, Seq<char>>) -> Result<
    (Seq<char>, Seq<char>, Seq<char>),
    ForgeErrorView,
> {
    match base {
        Ok(text) => Ok((api_key, text, default_api_version())),
        Err(cause) => Err(ForgeErrorView::Internal(cause)),
    }
}

/// The key, the base URL and the API version of an adapter, or the error
/// in its place.
pub open spec fn adapter_view(r: Result<AnthropicAdapter, ForgeError>) -> Result<
    (Seq<char>, Seq<char>, Seq<char>),
    ForgeErrorView,
> {
    match r {
        Ok(a) => Ok((a.api_key@, url_text(a.base_url), a.api_version@)),
        Err(e) => Err(e@),
    }
}

/// The description of the adapter, given what reading the provider's base
/// URL gave.
pub open spec fn info_of(base: Result<Seq<char>, Seq<char>>) -> AdapterInfoView {
    AdapterInfoView {
        name: "anthropic"@,
        base_url: match base {
            Ok(text) => Some(text),
            Err(_) => None,
        },
        capabilities: capabilities(),
    }
}

/// The adapter for the settings of a process: a missing key is an
/// authentication error, a base URL that is not read is a validation
/// error, and without a base URL the provider's own is taken.
pub open spec fn configured(api_key: Option<Seq<char>>, base_url: Option<Seq<char>>) -> Result<
    (Seq<char>, Seq<char>, Seq<char>),
    ForgeErrorView,
> {
    match api_key {
        None => Err(ForgeErrorView::Authentication),
        Some(key) => match base_url {
            Some(raw) => match url_parse(raw) {
                Ok(text) => Ok((key, text, default_api_version())),
                Err(cause) => Err(ForgeErrorView::Validation("invalid ANTHROPIC_BASE_URL: "@ + cause)),
            },
            None => adapter_of(key, url_parse(default_base_url())),
        },
    }
}

impl AnthropicAdapter {
    /// An adapter for the provider's own base URL.
    pub fn new(api_key: String) -> (r: Result<Self, ForgeError>)
        ensures
            adapter_view(r) == adapter_of(api_key@, url_parse(default_base_url())),
    {
        Self::from_parsed(api_key, parse_url("https://api.anthropic.com"))
    }

    /// An adapter, given what reading its base URL gave: a URL that was
    /// not read is an internal error.
    pub fn from_parsed(api_key: String, base: Result<Url, String>) -> (r: Result<
        Self,
        ForgeError,
    >)
        ensures
            adapter_view(r) == adapter_of(api_key@, read_view(base)),
    {
        match base {
            Ok(base_url) => Self::with_base_url(api_key, base_url),
            Err(cause) => Err(ForgeError::Internal(cause)),
        }
    }

    /// An adapter for the settings of a process: the key, and the base URL
    /// where one is set.
    pub fn from_settings(api_key: Option<String>, base_url: Option<String>) -> (r: Result<
        Self,
        ForgeError,
    >)
        ensures
            adapter_view(r) == configured(
                crate::model::opt_text(api_key),
                crate::model::opt_text(base_url),
            ),
    {
        let key = match api_key {
            Some(key) => key,
            None => {
                return Err(ForgeError::Authentication);
            },
        };
        match base_url {
            Some(raw) => match parse_url(raw.as_str()) {
                Ok(url) => Self::with_base_url(key, url),
                Err(cause) => Err(
                    ForgeError::Validation(concat2("invalid ANTHROPIC_BASE_URL: ", cause.as_str())),
                ),
            },
            None => Self::new(key),
        }
    }

    /// An adapter for a base URL. Always succeeds.
    pub fn with_base_url(api_key: String, base_url: Url) -> (r: Result<Self, ForgeError>)
        ensures
            r matches Ok(a) && a.api_key == api_key && a.base_url == base_url && a.api_version@
                == default_api_version(),
    {
        Ok(AnthropicAdapter { api_key, base_url, api_version: owned("2023-06-01") })
    }

    /// The URL of the messages endpoint.
    pub fn messages_url(&self) -> (r: Result<Url, ForgeError>)
        ensures
            endpoint_view(r) == endpoint_of(url_join(url_text(self.base_url), messages_path())),
    {
        endpoint(&self.base_url, "v1/messages")
    }

    /// The headers that authenticate a request: the key, and the version of
    /// the API.
    pub fn headers(&self) -> (r: Vec<(String, String)>)
        ensures
            r@.len() == 2,
            r@[0].0@ == "x-api-key"@,
            r@[0].1@ == self.api_key@,
            r@[1].0@ == "anthropic-version"@,
            r@[1].1@ == self.api_version@,
    {
        let mut out: Vec<(String, String)> = Vec::new();
        out.push((owned("x-api-key"), self.api_key.clone()));
        out.push((owned("anthropic-version"), self.api_version.clone()));
        out
    }

    /// The description of the adapter, given what reading the provider's
    /// base URL gave.
    pub fn info_from(base: Result<Url, String>) -> (r: AdapterInfo)
        ensures
            r@ == info_of(read_view(base)),
    {
        AdapterInfo {
            name: owned("anthropic"),
            base_url: match base {
                Ok(url) => Some(url),
                Err(_) => None,
            },
            capabilities: CapabilityMatrix {
                streaming: true,
                tools: true,
                structured_output: true,
                multimodal_input: true,
                citations: false,
            },
        }
    }

    /// The description of the adapter. The base URL is the provider's own.
    pub fn info(&self) -> (r: AdapterInfo)
        ensures
            r@ == info_of(url_parse(default_base_url())),
    {
        Self::info_from(parse_url("https://api.anthropic.com"))
    }

    /// A decoder for the body of a streamed response.
    pub fn stream_decoder(&self) -> (r: StreamDecoder)
        ensures
            r@ == initial(Provider::Anthropic),
    {
        StreamDecoder::new(Provider::Anthropic)
    }
}

} // verus!
