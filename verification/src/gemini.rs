//! The Gemini generateContent wire format: request bodies, responses and
//! stream payloads.

use crate::json::{
    array_of, field, first_of, get_array, get_field, get_or_null, get_string, get_u64,
    json_parse, json_seq, member_seq, number_json, opt_string_json, opt_view, optional_member,
    or_null, push_item, push_member, result_view, str_or_empty, u64_of, Json, JsonValue,
};
use crate::model::{
    events_view, AdapterInfo, AdapterInfoView, CapabilityMatrix, low32, low_u32, push_event, saturating_sum, views, ChatRequest,
    ChatRequestView, ChatResponse, ChatResponseView, ForgeError, ForgeErrorView, Message,
    MessageView, Role, StreamEvent, StreamEventView, ToolCall, ToolCallView, ToolDefinition,
    ToolDefinitionView, Usage,
};
use crate::sse::{initial, Provider, StreamDecoder};
use crate::collect::{lemma_text_of_concat, text_of};
use crate::text::{concat2, owned, trim, trim_str};
use crate::urls::{
    append_pair, endpoint, endpoint_failure, endpoint_of, endpoint_view, parse_url, read_view,
    url_join, url_parse, url_text, url_with_pair, MAX_URL_MATERIAL,
};
use url::Url;
use crate::wire::{
    append_part_texts, counter, part_texts, read_counter, system_chunks, system_instructions,
    system_text, usage_events,
};
use vstd::prelude::*;
use vstd::string::*;

verus! {

/// The wire name of a role: the assistant is the model, every other role
/// speaks as the user.
pub open spec fn role_name(role: Role) -> Seq<char> {
    match role {
        Role::Assistant => "model"@,
        _ => "user"@,
    }
}

/// A list of parts that holds one text.
pub open spec fn text_parts(text: Seq<char>) -> JsonValue {
    JsonValue::Array(seq![JsonValue::Object(seq![("text"@, JsonValue::String(text))])])
}

/// A message on the wire, its content wrapped as one text part.
pub open spec fn content_json(m: MessageView) -> JsonValue {
    JsonValue::Object(
        seq![("role"@, JsonValue::String(role_name(m.role))), ("parts"@, text_parts(m.content))],
    )
}

/// The contents on the wire: all but the system messages, in order.
pub open spec fn wire_contents(messages: Seq<MessageView>) -> Seq<JsonValue>
    decreases messages.len(),
{
    if messages.len() == 0 {
        Seq::empty()
    } else if messages.last().role is System {
        wire_contents(messages.drop_last())
    } else {
        wire_contents(messages.drop_last()).push(content_json(messages.last()))
    }
}

/// A tool definition on the wire, as a list of one function declaration.
pub open spec fn tool_json(t: ToolDefinitionView) -> JsonValue {
    JsonValue::Object(
        seq![
            (
                "functionDeclarations"@,
                JsonValue::Array(
                    seq![
                        JsonValue::Object(
                            seq![
                                ("name"@, JsonValue::String(t.name)),
                                ("description"@, opt_string_json(t.description)),
                                ("parameters"@, t.input_schema),
                            ],
                        ),
                    ],
                ),
            ),
        ],
    )
}

/// The sampling settings of a request: with a temperature, both settings
/// (the token limit `null` where there is none); without one, the token
/// limit alone where there is one.
pub open spec fn generation_config(request: ChatRequestView) -> Option<JsonValue> {
    match request.temperature {
        Some(t) => Some(
            JsonValue::Object(
                seq![
                    ("temperature"@, t),
                    (
                        "maxOutputTokens"@,
                        match request.max_tokens {
                            Some(n) => number_json(n),
                            None => JsonValue::Null,
                        },
                    ),
                ],
            ),
        ),
        None => match request.max_tokens {
            Some(n) => Some(JsonValue::Object(seq![("maxOutputTokens"@, number_json(n))])),
            None => None,
        },
    }
}

/// The system instruction of a request, where it has system messages.
pub open spec fn system_instruction(request: ChatRequestView) -> Option<JsonValue> {
    if system_chunks(request.messages).len() > 0 {
        Some(JsonValue::Object(seq![("parts"@, text_parts(system_text(request.messages)))]))
    } else {
        None
    }
}

/// The request body for a prompt.
pub open spec fn generate_body(request: ChatRequestView) -> JsonValue {
    JsonValue::Object(
        optional_member("generationConfig"@, generation_config(request)) + seq![
            ("contents"@, JsonValue::Array(wire_contents(request.messages))),
        ] + optional_member("systemInstruction"@, system_instruction(request)) + optional_member(
            "tools"@,
            if request.tools.len() > 0 {
                Some(
                    JsonValue::Array(
                        request.tools.map_values(|t: ToolDefinitionView| tool_json(t)),
                    ),
                )
            } else {
                None
            },
        ),
    )
}

/// The parts of a candidate: its `content.parts`, where that is an array.
pub open spec fn candidate_parts(candidate: JsonValue) -> Seq<JsonValue> {
    match array_of(field(candidate.get("content"@), "parts"@)) {
        Some(parts) => parts,
        None => Seq::empty(),
    }
}

/// The texts of the parts of the candidates, in a row.
pub open spec fn candidates_text(candidates: Seq<JsonValue>) -> Seq<char>
    decreases candidates.len(),
{
    if candidates.len() == 0 {
        Seq::empty()
    } else {
        candidates_text(candidates.drop_last()) + part_texts(candidate_parts(candidates.last()))
    }
}

/// The text of a payload.
pub open spec fn payload_text(payload: JsonValue) -> Seq<char> {
    match array_of(payload.get("candidates"@)) {
        Some(candidates) => candidates_text(candidates),
        None => Seq::empty(),
    }
}

/// The tool call of a `functionCall`.
pub open spec fn function_call(call: JsonValue) -> ToolCallView {
    ToolCallView {
        id: str_or_empty(call.get("id"@)),
        name: str_or_empty(call.get("name"@)),
        arguments: or_null(call.get("args"@)),
    }
}

/// The tool calls of the parts that hold a `functionCall`, in order.
pub open spec fn part_calls(parts: Seq<JsonValue>) -> Seq<ToolCallView>
    decreases parts.len(),
{
    if parts.len() == 0 {
        Seq::empty()
    } else {
        match parts.last().get("functionCall"@) {
            Some(call) => part_calls(parts.drop_last()).push(function_call(call)),
            None => part_calls(parts.drop_last()),
        }
    }
}

/// The tool calls of the parts of the candidates, in order.
pub open spec fn candidates_calls(candidates: Seq<JsonValue>) -> Seq<ToolCallView>
    decreases candidates.len(),
{
    if candidates.len() == 0 {
        Seq::empty()
    } else {
        candidates_calls(candidates.drop_last()) + part_calls(candidate_parts(candidates.last()))
    }
}

/// The tool calls of a payload.
pub open spec fn payload_calls(payload: JsonValue) -> Seq<ToolCallView> {
    match array_of(payload.get("candidates"@)) {
        Some(candidates) => candidates_calls(candidates),
        None => Seq::empty(),
    }
}

/// The usage that a usage object states; the total is the one stated, or
/// the saturating sum of the two counters where none is.
pub open spec fn usage_of(raw: JsonValue) -> Usage {
    let input = counter(raw, "promptTokenCount"@);
    let output = counter(raw, "candidatesTokenCount"@);
    Usage {
        input_tokens: input,
        output_tokens: output,
        total_tokens: match u64_of(raw.get("totalTokenCount"@)) {
            Some(total) => low32(total),
            None => saturating_sum(input, output),
        },
    }
}

/// The usage of a response, where it has a usage object.
pub open spec fn usage(raw: Option<JsonValue>) -> Option<Usage> {
    match raw {
        Some(v) => Some(usage_of(v)),
        None => None,
    }
}

/// The canonical response for a payload, under the model that was asked.
pub open spec fn chat_response(model: Seq<char>, payload: JsonValue) -> ChatResponseView {
    ChatResponseView {
        id: str_or_empty(payload.get("responseId"@)),
        model,
        output_text: payload_text(payload),
        tool_calls: payload_calls(payload),
        usage: usage(payload.get("usageMetadata"@)),
    }
}

/// The text event of a payload, where it has any text.
pub open spec fn text_events(payload: JsonValue) -> Seq<StreamEventView> {
    if payload_text(payload).len() > 0 {
        seq![StreamEventView::TextDelta { delta: payload_text(payload) }]
    } else {
        Seq::empty()
    }
}

/// The event of a tool call: its name and arguments under its id.
pub open spec fn call_event(call: ToolCallView) -> StreamEventView {
    StreamEventView::ToolCallDelta {
        call_id: call.id,
        delta: JsonValue::Object(
            seq![("name"@, JsonValue::String(call.name)), ("arguments"@, call.arguments)],
        ),
    }
}

/// Whether a payload ends the stream: its first candidate has a
/// `finishReason`.
pub open spec fn finished(payload: JsonValue) -> bool {
    field(first_of(array_of(payload.get("candidates"@))), "finishReason"@) is Some
}

/// The end of the stream, for a payload that ends it.
pub open spec fn finish_events(payload: JsonValue) -> Seq<StreamEventView> {
    if finished(payload) {
        seq![StreamEventView::Done]
    } else {
        Seq::empty()
    }
}

/// The events of one stream payload: text, tool calls, usage, end.
pub open spec fn payload_events(payload: JsonValue) -> Seq<StreamEventView> {
    text_events(payload) + payload_calls(payload).map_values(|c: ToolCallView| call_event(c))
        + usage_events(usage(payload.get("usageMetadata"@))) + finish_events(payload)
}

/// The events of a stream payload, given what reading it as JSON gave.
pub open spec fn events_of(parsed: Result<JsonValue, Seq<char>>) -> Result<
    Seq<StreamEventView>,
    ForgeErrorView,
> {
    match parsed {
        Ok(v) => Ok(payload_events(v)),
        Err(m) => Err(ForgeErrorView::Provider("invalid stream payload: "@ + m)),
    }
}

/// The events of the text of a stream payload.
pub open spec fn stream_payload(payload: Seq<char>) -> Result<
    Seq<StreamEventView>,
    ForgeErrorView,
> {
    events_of(json_parse(payload))
}

proof fn lemma_call_events_no_text(calls: Seq<ToolCallView>)
    ensures
        text_of(calls.map_values(|c: ToolCallView| call_event(c))) == Seq::<char>::empty(),
    decreases calls.len(),
{
    let events = calls.map_values(|c: ToolCallView| call_event(c));
    if calls.len() > 0 {
        lemma_call_events_no_text(calls.drop_last());
        assert(events.drop_last() =~= calls.drop_last().map_values(
            |c: ToolCallView| call_event(c),
        ));
    }
}

/// The texts of the text events of a stream payload, in a row, are the
/// text of the response for the same payload.
pub proof fn lemma_stream_text_is_response_text(model: Seq<char>, payload: JsonValue)
    ensures
        text_of(payload_events(payload)) == chat_response(model, payload).output_text,
{
    let text = text_events(payload);
    let calls = payload_calls(payload).map_values(|c: ToolCallView| call_event(c));
    let used = usage_events(usage(payload.get("usageMetadata"@)));
    let end = finish_events(payload);
    lemma_text_of_concat(text + calls + used, end);
    lemma_text_of_concat(text + calls, used);
    lemma_text_of_concat(text, calls);
    lemma_call_events_no_text(payload_calls(payload));
    assert(text_of(Seq::<StreamEventView>::empty()) =~= Seq::<char>::empty());
    assert(text_of(text) =~= payload_text(payload)) by {
        if payload_text(payload).len() > 0 {
            assert(text.drop_last() =~= Seq::empty());
            assert(Seq::<char>::empty() + payload_text(payload) =~= payload_text(payload));
        }
    }
    assert(text_of(used) =~= Seq::<char>::empty()) by {
        if used.len() > 0 {
            assert(used.drop_last() =~= Seq::empty());
        }
    }
    assert(text_of(end) =~= Seq::<char>::empty()) by {
        if end.len() > 0 {
            assert(end.drop_last() =~= Seq::empty());
        }
    }
    assert(((payload_text(payload) + Seq::<char>::empty()) + Seq::<char>::empty()) + Seq::<
        char,
    >::empty() =~= payload_text(payload));
}

/// Where a response states no total, the total of its usage is the
/// saturating sum of its two counters.
pub proof fn lemma_usage_total(model: Seq<char>, payload: JsonValue)
    requires
        u64_of(field(payload.get("usageMetadata"@), "totalTokenCount"@)) is None,
    ensures
        chat_response(model, payload).usage matches Some(u) ==> u.total_tokens == saturating_sum(
            u.input_tokens,
            u.output_tokens,
        ),
{
}

fn role_to_gemini(role: &Role) -> (r: &'static str)
    ensures
        r@ == role_name(*role),
{
    match role {
        Role::Assistant => "model",
        _ => "user",
    }
}

fn text_to_parts(text: String) -> (r: Json)
    ensures
        r@ == text_parts(text@),
{
    let mut part: Vec<(String, Json)> = Vec::new();
    assert(member_seq(part@) =~= Seq::empty());
    push_member(&mut part, "text", Json::String(text));
    let part = Json::object(part);
    assert(part@->Object_0 =~= seq![("text"@, JsonValue::String(text@))]);
    let mut parts: Vec<Json> = Vec::new();
    assert(json_seq(parts@) =~= Seq::empty());
    push_item(&mut parts, part);
    let r = Json::array(parts);
    assert(r@->Array_0 =~= text_parts(text@)->Array_0);
    r
}

fn content_to_json(m: &Message) -> (r: Json)
    ensures
        r@ == content_json(m@),
{
    let mut members: Vec<(String, Json)> = Vec::new();
    assert(member_seq(members@) =~= Seq::empty());
    push_member(&mut members, "role", Json::text(role_to_gemini(&m.role)));
    push_member(&mut members, "parts", text_to_parts(m.content.clone()));
    assert(member_seq(members@) =~= content_json(m@)->Object_0);
    Json::object(members)
}

fn contents_to_json(messages: &Vec<Message>) -> (r: Vec<Json>)
    ensures
        json_seq(r@) == wire_contents(views(messages@)),
{
    let ghost all = views(messages@);
    let mut out: Vec<Json> = Vec::new();
    let mut i: usize = 0;
    assert(all.take(0) =~= Seq::empty());
    assert(json_seq(out@) =~= Seq::empty());
    while i < messages.len()
        invariant
            i <= messages.len(),
            all == views(messages@),
            json_seq(out@) == wire_contents(all.take(i as int)),
        decreases messages.len() - i,
    {
        proof {
            let next = all.take(i + 1);
            assert(next.drop_last() =~= all.take(i as int));
            assert(next.last() == messages@[i as int]@);
        }
        match messages[i].role {
            Role::System => {},
            _ => {
                push_item(&mut out, content_to_json(&messages[i]));
            },
        }
        i += 1;
    }
    assert(all.take(messages.len() as int) =~= all);
    out
}

fn tool_to_json(t: &ToolDefinition) -> (r: Json)
    ensures
        r@ == tool_json(t@),
{
    let mut declaration: Vec<(String, Json)> = Vec::new();
    assert(member_seq(declaration@) =~= Seq::empty());
    push_member(&mut declaration, "name", Json::String(t.name.clone()));
    push_member(&mut declaration, "description", Json::opt_text(&t.description));
    push_member(&mut declaration, "parameters", t.input_schema.clone());
    let declaration = Json::object(declaration);
    let mut declarations: Vec<Json> = Vec::new();
    assert(json_seq(declarations@) =~= Seq::empty());
    push_item(&mut declarations, declaration);
    let declarations = Json::array(declarations);
    let mut members: Vec<(String, Json)> = Vec::new();
    assert(member_seq(members@) =~= Seq::empty());
    push_member(&mut members, "functionDeclarations", declarations);
    let r = Json::object(members);
    proof {
        let want = tool_json(t@);
        let got_list = r@->Object_0[0].1->Array_0;
        let want_list = want->Object_0[0].1->Array_0;
        assert(got_list[0]->Object_0 =~= want_list[0]->Object_0);
        assert(got_list =~= want_list);
        assert(r@->Object_0 =~= want->Object_0);
    }
    r
}

fn config_to_json(request: &ChatRequest) -> (r: Option<Json>)
    ensures
        crate::model::opt_json(r) == generation_config(request@),
{
    match &request.temperature {
        Some(t) => {
            let limit = match request.max_tokens {
                Some(n) => Json::unsigned(n as u64),
                None => Json::Null,
            };
            let mut members: Vec<(String, Json)> = Vec::new();
            assert(member_seq(members@) =~= Seq::empty());
            push_member(&mut members, "temperature", t.clone());
            push_member(&mut members, "maxOutputTokens", limit);
            let r = Json::object(members);
            assert(r@->Object_0 =~= generation_config(request@)->0->Object_0);
            Some(r)
        },
        None => match request.max_tokens {
            Some(n) => {
                let mut members: Vec<(String, Json)> = Vec::new();
                assert(member_seq(members@) =~= Seq::empty());
                push_member(&mut members, "maxOutputTokens", Json::unsigned(n as u64));
                let r = Json::object(members);
                assert(r@->Object_0 =~= generation_config(request@)->0->Object_0);
                Some(r)
            },
            None => None,
        },
    }
}

/// The request body for a prompt: the sampling settings where there are
/// any, the contents without the system messages, the system messages
/// joined as the system instruction, and the tools where there are any.
pub fn build_generate_body(request: ChatRequest) -> (body: Json)
    ensures
        body@ == generate_body(request@),
{
    let mut members: Vec<(String, Json)> = Vec::new();
    assert(member_seq(members@) =~= Seq::empty());
    match config_to_json(&request) {
        Some(config) => {
            push_member(&mut members, "generationConfig", config);
        },
        None => {},
    }
    let ghost m0 = member_seq(members@);
    assert(m0 =~= optional_member("generationConfig"@, generation_config(request@)));
    let contents = contents_to_json(&request.messages);
    push_member(&mut members, "contents", Json::array(contents));
    let ghost m1 = member_seq(members@);
    assert(m1 =~= m0 + seq![("contents"@, JsonValue::Array(wire_contents(request@.messages)))]);
    match system_instructions(&request.messages) {
        Some(text) => {
            let mut instruction: Vec<(String, Json)> = Vec::new();
            assert(member_seq(instruction@) =~= Seq::empty());
            push_member(&mut instruction, "parts", text_to_parts(text));
            let instruction = Json::object(instruction);
            assert(instruction@->Object_0 =~= system_instruction(request@)->0->Object_0);
            push_member(&mut members, "systemInstruction", instruction);
        },
        None => {},
    }
    let ghost m2 = member_seq(members@);
    assert(m2 =~= m1 + optional_member("systemInstruction"@, system_instruction(request@)));
    if request.tools.len() > 0 {
        let mut tools: Vec<Json> = Vec::new();
        let mut j: usize = 0;
        while j < request.tools.len()
            invariant
                j <= request.tools.len(),
                tools.len() == j,
                forall|k: int| 0 <= k < j ==> tools@[k]@ == tool_json(request.tools@[k]@),
            decreases request.tools.len() - j,
        {
            tools.push(tool_to_json(&request.tools[j]));
            j += 1;
        }
        assert(json_seq(tools@) =~= request@.tools.map_values(
            |t: ToolDefinitionView| tool_json(t),
        ));
        push_member(&mut members, "tools", Json::array(tools));
    }
    assert(member_seq(members@) =~= m2 + optional_member(
        "tools"@,
        if request@.tools.len() > 0 {
            Some(
                JsonValue::Array(request@.tools.map_values(|t: ToolDefinitionView| tool_json(t))),
            )
        } else {
            None
        },
    ));
    Json::object(members)
}

fn parts_of(candidate: &Json) -> (r: Option<&Vec<Json>>)
    ensures
        match r {
            Some(parts) => json_seq(parts@) == candidate_parts(candidate@),
            None => candidate_parts(candidate@) == Seq::<JsonValue>::empty(),
        },
{
    get_array(get_field(candidate.get("content"), "parts"))
}

/// The text of a payload: the `text` strings of all parts of all
/// candidates, in a row.
pub fn extract_text_from_payload(payload: &Json) -> (r: String)
    ensures
        r@ == payload_text(payload@),
{
    let mut out = String::new();
    match get_array(payload.get("candidates")) {
        Some(candidates) => {
            let ghost all = json_seq(candidates@);
            let mut i: usize = 0;
            assert(all.take(0) =~= Seq::empty());
            while i < candidates.len()
                invariant
                    i <= candidates.len(),
                    all == json_seq(candidates@),
                    out@ == candidates_text(all.take(i as int)),
                decreases candidates.len() - i,
            {
                proof {
                    let next = all.take(i + 1);
                    assert(next.drop_last() =~= all.take(i as int));
                    assert(next.last() == candidates@[i as int]@);
                }
                let ghost before = out@;
                match parts_of(&candidates[i]) {
                    Some(parts) => {
                        append_part_texts(&mut out, parts);
                    },
                    None => {
                        assert(before + part_texts(Seq::<JsonValue>::empty()) =~= before);
                    },
                }
                i += 1;
            }
            assert(all.take(candidates.len() as int) =~= all);
        },
        None => {},
    }
    out
}

fn append_part_calls(out: &mut Vec<ToolCall>, parts: &Vec<Json>)
    ensures
        views(final(out)@) == views(old(out)@) + part_calls(json_seq(parts@)),
{
    let ghost all = json_seq(parts@);
    let ghost start = views(out@);
    let mut i: usize = 0;
    assert(all.take(0) =~= Seq::empty());
    assert(start + Seq::<ToolCallView>::empty() =~= start);
    while i < parts.len()
        invariant
            i <= parts.len(),
            all == json_seq(parts@),
            views(out@) == start + part_calls(all.take(i as int)),
        decreases parts.len() - i,
    {
        proof {
            let next = all.take(i + 1);
            assert(next.drop_last() =~= all.take(i as int));
            assert(next.last() == parts@[i as int]@);
        }
        match parts[i].get("functionCall") {
            Some(call) => {
                let ghost before = views(out@);
                out.push(
                    ToolCall {
                        id: get_string(call.get("id")),
                        name: get_string(call.get("name")),
                        arguments: get_or_null(call.get("args")),
                    },
                );
                assert(views(out@) =~= before.push(function_call(call@)));
                assert(views(out@) =~= start + part_calls(all.take(i + 1)));
            },
            None => {},
        }
        i += 1;
    }
    assert(all.take(parts.len() as int) =~= all);
}

/// The tool calls of a payload: one for each part of each candidate that
/// holds a `functionCall`, in order.
pub fn extract_tool_calls_from_payload(payload: &Json) -> (r: Vec<ToolCall>)
    ensures
        views(r@) == payload_calls(payload@),
{
    let mut out: Vec<ToolCall> = Vec::new();
    assert(views(out@) =~= Seq::empty());
    match get_array(payload.get("candidates")) {
        Some(candidates) => {
            let ghost all = json_seq(candidates@);
            let mut i: usize = 0;
            assert(all.take(0) =~= Seq::empty());
            while i < candidates.len()
                invariant
                    i <= candidates.len(),
                    all == json_seq(candidates@),
                    views(out@) == candidates_calls(all.take(i as int)),
                decreases candidates.len() - i,
            {
                proof {
                    let next = all.take(i + 1);
                    assert(next.drop_last() =~= all.take(i as int));
                    assert(next.last() == candidates@[i as int]@);
                }
                let ghost before = views(out@);
                match parts_of(&candidates[i]) {
                    Some(parts) => {
                        append_part_calls(&mut out, parts);
                    },
                    None => {
                        assert(before + part_calls(Seq::<JsonValue>::empty()) =~= before);
                    },
                }
                i += 1;
            }
            assert(all.take(candidates.len() as int) =~= all);
        },
        None => {},
    }
    out
}

/// The usage that a usage object states. Where the object states no total,
/// the total is the saturating sum of the two counters.
pub fn extract_usage(raw: Option<&Json>) -> (r: Option<Usage>)
    ensures
        r == usage(opt_view(raw)),
        r matches Some(u) ==> (field(opt_view(raw), "totalTokenCount"@) is None
            ==> u.total_tokens == saturating_sum(u.input_tokens, u.output_tokens)),
{
    match raw {
        Some(v) => {
            let input_tokens = read_counter(v, "promptTokenCount");
            let output_tokens = read_counter(v, "candidatesTokenCount");
            let total_tokens = match get_u64(v.get("totalTokenCount")) {
                Some(total) => low_u32(total),
                None => input_tokens.saturating_add(output_tokens),
            };
            Some(Usage { input_tokens, output_tokens, total_tokens })
        },
        None => None,
    }
}

/// The canonical response for a payload, under the model that was asked.
/// Always succeeds.
pub fn parse_chat_response(model: String, payload: Json) -> (r: Result<ChatResponse, ForgeError>)
    ensures
        r matches Ok(response) && response@ == chat_response(model@, payload@),
{
    let output_text = extract_text_from_payload(&payload);
    let tool_calls = extract_tool_calls_from_payload(&payload);
    let usage = extract_usage(payload.get("usageMetadata"));
    let id = get_string(payload.get("responseId"));
    Ok(ChatResponse { id, model, output_text, tool_calls, usage })
}

fn call_to_event(call: ToolCall) -> (r: StreamEvent)
    ensures
        r@ == call_event(call@),
{
    let mut members: Vec<(String, Json)> = Vec::new();
    assert(member_seq(members@) =~= Seq::empty());
    push_member(&mut members, "name", Json::String(call.name));
    push_member(&mut members, "arguments", call.arguments);
    let delta = Json::object(members);
    assert(delta@->Object_0 =~= call_event(call@)->ToolCallDelta_delta->Object_0);
    StreamEvent::ToolCallDelta { call_id: call.id, delta }
}

/// The events of one stream payload: its text where it has any, one event
/// for each tool call, its usage, and the end of the stream where its first
/// candidate has a `finishReason`.
pub fn payload_to_events(payload: &Json) -> (r: Vec<StreamEvent>)
    ensures
        views(r@) == payload_events(payload@),
{
    let mut events: Vec<StreamEvent> = Vec::new();
    assert(views(events@) =~= Seq::empty());
    let text = extract_text_from_payload(payload);
    if !text.as_str().is_empty() {
        push_event(&mut events, StreamEvent::TextDelta { delta: text });
    }
    let ghost e0 = views(events@);
    assert(e0 =~= text_events(payload@));
    let calls = extract_tool_calls_from_payload(payload);
    let ghost wanted = payload_calls(payload@);
    let mut i: usize = 0;
    while i < calls.len()
        invariant
            i <= calls.len(),
            views(calls@) == wanted,
            views(events@) == e0 + wanted.take(i as int).map_values(
                |c: ToolCallView| call_event(c),
            ),
        decreases calls.len() - i,
    {
        assert(wanted[i as int] == calls@[i as int]@);
        push_event(&mut events, call_to_event(calls[i].clone()));
        assert(wanted.take(i + 1).map_values(|c: ToolCallView| call_event(c))
            =~= wanted.take(i as int).map_values(|c: ToolCallView| call_event(c)).push(
            call_event(wanted[i as int]),
        ));
        i += 1;
    }
    assert(wanted.take(calls.len() as int) =~= wanted);
    let ghost e1 = views(events@);
    match extract_usage(payload.get("usageMetadata")) {
        Some(usage) => {
            push_event(&mut events, StreamEvent::Usage { usage });
        },
        None => {},
    }
    let ghost e2 = views(events@);
    assert(e2 =~= e1 + usage_events(usage(payload@.get("usageMetadata"@))));
    let first = match get_array(payload.get("candidates")) {
        Some(candidates) => if candidates.len() > 0 {
            Some(&candidates[0])
        } else {
            None
        },
        None => None,
    };
    assert(opt_view(first) == first_of(array_of(payload@.get("candidates"@))));
    if get_field(first, "finishReason").is_some() {
        push_event(&mut events, StreamEvent::Done);
    }
    assert(views(events@) =~= e2 + finish_events(payload@));
    events
}

/// The events of a stream payload, given what reading it as JSON gave.
pub fn events_from(parsed: Result<Json, String>) -> (r: Result<Vec<StreamEvent>, ForgeError>)
    ensures
        events_view(r) == events_of(result_view(parsed)),
{
    match parsed {
        Ok(v) => Ok(payload_to_events(&v)),
        Err(m) => Err(ForgeError::Provider(concat2("invalid stream payload: ", m.as_str()))),
    }
}

/// The events of the text of one stream payload; a text that is no JSON is
/// a provider error.
pub fn parse_stream_payload(payload: &str) -> (r: Result<Vec<StreamEvent>, ForgeError>)
    ensures
        events_view(r) == stream_payload(payload@),
{
    events_from(Json::parse(payload))
}

/// The configuration of the Gemini adapter.
#[derive(Debug, PartialEq, Eq)]
pub struct GeminiAdapter {
    pub api_key: String,
    pub base_url: Url,
    pub api_version: String,
}

/// The base URL of the provider.
pub open spec fn default_base_url() -> Seq<char> {
    "https://generativelanguage.googleapis.com"@
}

/// The version of the API that the adapter speaks.
pub open spec fn default_api_version() -> Seq<char> {
    "v1beta"@
}

/// What the provider can do.
pub open spec fn capabilities() -> CapabilityMatrix {
    CapabilityMatrix {
        streaming: true,
        tools: true,
        structured_output: true,
        multimodal_input: true,
        citations: true,
    }
}

/// The action of an endpoint.
pub open spec fn action(stream: bool) -> Seq<char> {
    if stream {
        "streamGenerateContent"@
    } else {
        "generateContent"@
    }
}

/// The path of the endpoint for a model under the base URL.
pub open spec fn endpoint_path(api_version: Seq<char>, model: Seq<char>, stream: bool) -> Seq<
    char,
> {
    api_version + "/models/"@ + trim(model) + ":"@ + action(stream)
}

/// Whether a pair can be appended to the query of a URL.
pub open spec fn fits(url: Seq<char>, key: Seq<char>, value: Seq<char>) -> bool {
    url.len() + key.len() + value.len() <= MAX_URL_MATERIAL
}

/// The error for an endpoint that grew too long.
pub open spec fn too_long() -> ForgeErrorView {
    endpoint_failure("url too long"@)
}

/// The endpoint with its query: the key, and `alt=sse` for a stream.
pub open spec fn with_query(url: Seq<char>, api_key: Seq<char>, stream: bool) -> Result<
    Seq<char>,
    ForgeErrorView,
> {
    if !fits(url, "key"@, api_key) {
        Err(too_long())
    } else {
        let keyed = url_with_pair(url, "key"@, api_key);
        if !stream {
            Ok(keyed)
        } else if !fits(keyed, "alt"@, "sse"@) {
            Err(too_long())
        } else {
            Ok(url_with_pair(keyed, "alt"@, "sse"@))
        }
    }
}

/// The endpoint, given what joining its path to the base URL gave.
pub open spec fn endpoint_with_query(
    joined: Result<Seq<char>, Seq<char>>,
    api_key: Seq<char>,
    stream: bool,
) -> Result<Seq<char>, ForgeErrorView> {
    match endpoint_of(joined) {
        Ok(url) => with_query(url, api_key, stream),
        Err(e) => Err(e),
    }
}

/// The adapter for a key, given what reading the provider's base URL gave.
pub open spec fn adapter_of(api_key: Seq<char>, base: Result<Seq<char>, Seq<char>>) -> Result<
    (Seq<char>, Seq<char>, Seq<char>),
    ForgeErrorView,
> {
    match base {
        Ok(text) => Ok((api_key, text, default_api_version())),
        Err(cause) => Err(ForgeErrorView::Internal(cause)),
    }
}

/// The key, the base URL and the API version of an adapter, or the error
/// in its place.
pub open spec fn adapter_view(r: Result<GeminiAdapter, ForgeError>) -> Result<
    (Seq<char>, Seq<char>, Seq<char>),
    ForgeErrorView,
> {
    match r {
        Ok(a) => Ok((a.api_key@, url_text(a.base_url), a.api_version@)),
        Err(e) => Err(e@),
    }
}

/// The description of the adapter, given what reading the provider's base
/// URL gave.
pub open spec fn info_of(base: Result<Seq<char>, Seq<char>>) -> AdapterInfoView {
    AdapterInfoView {
        name: "gemini"@,
        base_url: match base {
            Ok(text) => Some(text),
            Err(_) => None,
        },
        capabilities: capabilities(),
    }
}

/// The adapter for the settings of a process: a missing key is an
/// authentication error, a base URL that is not read is a validation
/// error, and without a base URL the provider's own is taken.
pub open spec fn configured(api_key: Option<Seq<char>>, base_url: Option<Seq<char>>) -> Result<
    (Seq<char>, Seq<char>, Seq<char>),
    ForgeErrorView,
> {
    match api_key {
        None => Err(ForgeErrorView::Authentication),
        Some(key) => match base_url {
            Some(raw) => match url_parse(raw) {
                Ok(text) => Ok((key, text, default_api_version())),
                Err(cause) => Err(ForgeErrorView::Validation("invalid GEMINI_BASE_URL: "@ + cause)),
            },
            None => adapter_of(key, url_parse(default_base_url())),
        },
    }
}

impl GeminiAdapter {
    /// An adapter for the provider's own base URL.
    pub fn new(api_key: String) -> (r: Result<Self, ForgeError>)
        ensures
            adapter_view(r) == adapter_of(api_key@, url_parse(default_base_url())),
    {
        Self::from_parsed(api_key, parse_url("https://generativelanguage.googleapis.com"))
    }

    /// An adapter, given what reading its base URL gave: a URL that was
    /// not read is an internal error.
    pub fn from_parsed(api_key: String, base: Result<Url, String>) -> (r: Result<
        Self,
        ForgeError,
    >)
        ensures
            adapter_view(r) == adapter_of(api_key@, read_view(base)),
    {
        match base {
            Ok(base_url) => Self::with_base_url(api_key, base_url),
            Err(cause) => Err(ForgeError::Internal(cause)),
        }
    }

    /// An adapter for the settings of a process: the key, and the base URL
    /// where one is set.
    pub fn from_settings(api_key: Option<String>, base_url: Option<String>) -> (r: Result<
        Self,
        ForgeError,
    >)
        ensures
            adapter_view(r) == configured(
                crate::model::opt_text(api_key),
                crate::model::opt_text(base_url),
            ),
    {
        let key = match api_key {
            Some(key) => key,
            None => {
                return Err(ForgeError::Authentication);
            },
        };
        match base_url {
            Some(raw) => match parse_url(raw.as_str()) {
                Ok(url) => Self::with_base_url(key, url),
                Err(cause) => Err(
                    ForgeError::Validation(concat2("invalid GEMINI_BASE_URL: ", cause.as_str())),
                ),
            },
            None => Self::new(key),
        }
    }

    /// An adapter for a base URL. Always succeeds.
    pub fn with_base_url(api_key: String, base_url: Url) -> (r: Result<Self, ForgeError>)
        ensures
            r matches Ok(a) && a.api_key == api_key && a.base_url == base_url && a.api_version@
                == default_api_version(),
    {
        Ok(GeminiAdapter { api_key, base_url, api_version: owned("v1beta") })
    }

    /// The path of the endpoint for a model under the base URL.
    pub fn endpoint_path(&self, model: &str, stream: bool) -> (r: String)
        ensures
            r@ == endpoint_path(self.api_version@, model@, stream),
    {
        let action = if stream {
            "streamGenerateContent"
        } else {
            "generateContent"
        };
        let mut path = self.api_version.clone();
        path.append("/models/");
        path.append(trim_str(model));
        path.append(":");
        path.append(action);
        path
    }

    /// Adds the query to an endpoint: the key, and `alt=sse` for a stream.
    pub fn add_query(&self, url: Url, stream: bool) -> (r: Result<Url, ForgeError>)
        ensures
            endpoint_view(r) == with_query(url_text(url), self.api_key@, stream),
    {
        let mut url = url;
        if !append_pair(&mut url, "key", self.api_key.as_str()) {
            return Err(
                ForgeError::Internal(concat2("failed to construct endpoint url: ", "url too long")),
            );
        }
        if stream {
            if !append_pair(&mut url, "alt", "sse") {
                return Err(
                    ForgeError::Internal(
                        concat2("failed to construct endpoint url: ", "url too long"),
                    ),
                );
            }
        }
        Ok(url)
    }

    /// The URL of the endpoint for a model: the action for a stream or for
    /// a single answer, with the key in the query, and `alt=sse` for a
    /// stream.
    pub fn endpoint_url(&self, model: &str, stream: bool) -> (r: Result<Url, ForgeError>)
        ensures
            endpoint_view(r) == endpoint_with_query(
                url_join(
                    url_text(self.base_url),
                    endpoint_path(self.api_version@, model@, stream),
                ),
                self.api_key@,
                stream,
            ),
    {
        let path = self.endpoint_path(model, stream);
        match endpoint(&self.base_url, path.as_str()) {
            Ok(url) => self.add_query(url, stream),
            Err(e) => Err(e),
        }
    }

    /// The description of the adapter, given what reading the provider's
    /// base URL gave.
    pub fn info_from(base: Result<Url, String>) -> (r: AdapterInfo)
        ensures
            r@ == info_of(read_view(base)),
    {
        AdapterInfo {
            name: owned("gemini"),
            base_url: match base {
                Ok(url) => Some(url),
                Err(_) => None,
            },
            capabilities: CapabilityMatrix {
                streaming: true,
                tools: true,
                structured_output: true,
                multimodal_input: true,
                citations: true,
            },
        }
    }

    /// The description of the adapter. The base URL is the provider's own.
    pub fn info(&self) -> (r: AdapterInfo)
        ensures
            r@ == info_of(url_parse(default_base_url())),
    {
        Self::info_from(parse_url("https://generativelanguage.googleapis.com"))
    }

    /// A decoder for the body of a streamed response.
    pub fn stream_decoder(&self) -> (r: StreamDecoder)
        ensures
            r@ == initial(Provider::Gemini),
    {
        StreamDecoder::new(Provider::Gemini)
    }
}

} // verus!
