use forgeai::json::Json;
use forgeai::urls;
use forgeai::{
    anthropic, gemini, openai, AnthropicAdapter, CapabilityMatrix, ChatRequest, ForgeError,
    GeminiAdapter, Message, OpenAiAdapter, Role, StreamEvent, ToolCall, ToolDefinition, Usage,
};

fn json(text: &str) -> Json {
    Json::parse(text).unwrap()
}

fn message(role: Role, content: &str) -> Message {
    Message { role, content: content.to_string() }
}

fn sample_request(model: &str, max_tokens: u32) -> ChatRequest {
    ChatRequest {
        model: model.to_string(),
        messages: vec![message(Role::User, "Say hello")],
        temperature: Some(json("0.2")),
        max_tokens: Some(max_tokens),
        tools: vec![],
        metadata: json("{}"),
    }
}

fn full_request() -> ChatRequest {
    ChatRequest {
        model: "m".to_string(),
        messages: vec![
            message(Role::System, "be brief"),
            message(Role::User, "hi"),
            message(Role::Assistant, "hello"),
            message(Role::System, "be kind"),
            message(Role::Tool, "{\"output\":1}"),
        ],
        temperature: None,
        max_tokens: None,
        tools: vec![
            ToolDefinition {
                name: "time.now".to_string(),
                description: Some("the time".to_string()),
                input_schema: json("{\"type\":\"object\"}"),
            },
            ToolDefinition { name: "noop".to_string(), description: None, input_schema: Json::Null },
        ],
        metadata: json("{\"trace\":\"abc\"}"),
    }
}

fn text_delta(text: &str) -> StreamEvent {
    StreamEvent::TextDelta { delta: text.to_string() }
}

// ---------------------------------------------------------------- OpenAI

#[test]
fn openai_roles_map_to_their_wire_names() {
    assert_eq!(openai::role_to_openai(&Role::System), "system");
    assert_eq!(openai::role_to_openai(&Role::User), "user");
    assert_eq!(openai::role_to_openai(&Role::Assistant), "assistant");
    assert_eq!(openai::role_to_openai(&Role::Tool), "tool");
}

#[test]
fn openai_body_for_a_single_answer() {
    let body = openai::build_chat_body(sample_request("gpt-4o-mini", 32), false);
    assert_eq!(
        body.to_text(),
        "{\"max_tokens\":32,\"messages\":[{\"content\":\"Say hello\",\"role\":\"user\"}],\
         \"model\":\"gpt-4o-mini\",\"temperature\":0.2}"
    );
    assert_eq!(body.get("stream"), None);
    assert_eq!(body.get("tools"), None);
}

#[test]
fn openai_body_for_a_stream_with_tools() {
    let body = openai::build_chat_body(full_request(), true);
    assert_eq!(
        body.to_text(),
        "{\"messages\":[{\"content\":\"be brief\",\"role\":\"system\"},\
         {\"content\":\"hi\",\"role\":\"user\"},\
         {\"content\":\"hello\",\"role\":\"assistant\"},\
         {\"content\":\"be kind\",\"role\":\"system\"},\
         {\"content\":\"{\\\"output\\\":1}\",\"role\":\"tool\"}],\
         \"model\":\"m\",\"stream\":true,\"stream_options\":{\"include_usage\":true},\
         \"tools\":[{\"function\":{\"description\":\"the time\",\"name\":\"time.now\",\
         \"parameters\":{\"type\":\"object\"}},\"type\":\"function\"},\
         {\"function\":{\"description\":null,\"name\":\"noop\",\"parameters\":null},\
         \"type\":\"function\"}]}"
    );
    assert_eq!(body.get("temperature"), None);
    assert_eq!(body.get("max_tokens"), None);
}

#[test]
fn openai_chat_contract_parses_response_and_usage() {
    let payload = json(
        "{\"id\": \"chatcmpl-123\", \"model\": \"gpt-4o-mini\", \"choices\": [{\"index\": 0, \
         \"message\": {\"role\": \"assistant\", \"content\": \"Hello from OpenAI\"}}], \
         \"usage\": {\"prompt_tokens\": 10, \"completion_tokens\": 4, \"total_tokens\": 14}}",
    );
    let response = openai::parse_chat_response(payload).unwrap();
    assert_eq!(response.id, "chatcmpl-123");
    assert_eq!(response.model, "gpt-4o-mini");
    assert_eq!(response.output_text, "Hello from OpenAI");
    assert_eq!(response.usage.unwrap().total_tokens, 14);
    assert_eq!(response.usage.unwrap().input_tokens, 10);
    assert_eq!(response.usage.unwrap().output_tokens, 4);
    assert!(response.tool_calls.is_empty());
}

#[test]
fn openai_content_parts_are_concatenated() {
    let payload = json(
        "{\"choices\": [{\"message\": {\"content\": [{\"type\":\"text\",\"text\":\"a\"}, \
         {\"type\":\"image\"}, {\"text\": 5}, {\"text\":\"b\"}]}}, \
         {\"message\": {\"content\": \"second choice\"}}]}",
    );
    let response = openai::parse_chat_response(payload).unwrap();
    assert_eq!(response.output_text, "ab");
    assert_eq!(response.id, "");
    assert_eq!(response.model, "");
    assert_eq!(response.usage, None);
}

#[test]
fn openai_empty_payload_gives_an_empty_response() {
    let response = openai::parse_chat_response(json("{}")).unwrap();
    assert_eq!(response.output_text, "");
    assert!(response.tool_calls.is_empty());
    assert_eq!(response.usage, None);
    let response = openai::parse_chat_response(json("{\"choices\": []}")).unwrap();
    assert_eq!(response.output_text, "");
    let response = openai::parse_chat_response(json("[1]")).unwrap();
    assert_eq!(response.output_text, "");
}

#[test]
fn openai_tool_call_arguments_are_read_from_their_string() {
    let raw = json(
        "[{\"id\": \"call-1\", \"function\": {\"name\": \"time.now\", \
         \"arguments\": \"{\\\"timezone\\\":\\\"UTC\\\"}\"}}, \
         {\"id\": \"call-2\", \"function\": {\"name\": \"raw\", \"arguments\": \"not json\"}}, \
         {\"function\": {\"arguments\": {\"already\": \"structured\"}}}, \
         {\"id\": 7}]",
    );
    let calls = openai::extract_tool_calls(Some(&raw));
    assert_eq!(
        calls,
        vec![
            ToolCall {
                id: "call-1".to_string(),
                name: "time.now".to_string(),
                arguments: json("{\"timezone\":\"UTC\"}"),
            },
            ToolCall {
                id: "call-2".to_string(),
                name: "raw".to_string(),
                arguments: Json::String("not json".to_string()),
            },
            ToolCall {
                id: "".to_string(),
                name: "".to_string(),
                arguments: json("{\"already\": \"structured\"}"),
            },
            ToolCall { id: "".to_string(), name: "".to_string(), arguments: Json::Null },
        ]
    );
    assert!(openai::extract_tool_calls(None).is_empty());
    assert!(openai::extract_tool_calls(Some(&json("{}"))).is_empty());
}

#[test]
fn openai_usage_needs_all_three_counters() {
    assert_eq!(
        openai::extract_usage(Some(&json(
            "{\"prompt_tokens\": 1, \"completion_tokens\": 2, \"total_tokens\": 9}"
        ))),
        Some(Usage { input_tokens: 1, output_tokens: 2, total_tokens: 9 })
    );
    assert_eq!(
        openai::extract_usage(Some(&json("{\"prompt_tokens\": 1, \"completion_tokens\": 2}"))),
        None
    );
    assert_eq!(
        openai::extract_usage(Some(&json(
            "{\"prompt_tokens\": 1, \"completion_tokens\": -2, \"total_tokens\": 3}"
        ))),
        None
    );
    assert_eq!(
        openai::extract_usage(Some(&json(
            "{\"prompt_tokens\": 4294967297, \"completion_tokens\": 2, \"total_tokens\": 3}"
        ))),
        Some(Usage { input_tokens: 1, output_tokens: 2, total_tokens: 3 })
    );
    assert_eq!(openai::extract_usage(None), None);
}

#[test]
fn openai_stream_payloads_give_events_in_order() {
    assert_eq!(
        openai::parse_stream_payload("{\"choices\":[{\"delta\":{\"content\":\"Hello\"}}]}"),
        Ok(vec![text_delta("Hello")])
    );
    assert_eq!(
        openai::parse_stream_payload(
            "{\"usage\":{\"prompt_tokens\":10,\"completion_tokens\":2,\"total_tokens\":12},\
             \"choices\":[]}"
        ),
        Ok(vec![StreamEvent::Usage {
            usage: Usage { input_tokens: 10, output_tokens: 2, total_tokens: 12 }
        }])
    );
    assert_eq!(openai::parse_stream_payload("{\"choices\":[{\"delta\":{\"content\":\"\"}}]}"), Ok(vec![]));
    assert_eq!(openai::parse_stream_payload("{}"), Ok(vec![]));
}

#[test]
fn openai_stream_payload_with_tool_calls() {
    let events = openai::parse_stream_payload(
        "{\"usage\":{\"prompt_tokens\":1,\"completion_tokens\":1,\"total_tokens\":2},\
         \"choices\":[{\"delta\":{\"content\":\"a\",\"tool_calls\":[{\"id\":\"c1\",\"function\":\
         {\"name\":\"f\"}},{\"index\":1}]}},{\"delta\":{\"content\":\"b\"}}]}",
    )
    .unwrap();
    assert_eq!(
        events,
        vec![
            StreamEvent::Usage { usage: Usage { input_tokens: 1, output_tokens: 1, total_tokens: 2 } },
            text_delta("a"),
            StreamEvent::ToolCallDelta {
                call_id: "c1".to_string(),
                delta: json("{\"id\":\"c1\",\"function\":{\"name\":\"f\"}}"),
            },
            StreamEvent::ToolCallDelta { call_id: "".to_string(), delta: json("{\"index\":1}") },
            text_delta("b"),
        ]
    );
}

#[test]
fn openai_stream_payload_that_is_no_json_is_a_provider_error() {
    assert_eq!(
        openai::parse_stream_payload("{oops"),
        Err(ForgeError::Provider(
            "invalid stream payload: key must be a string at line 1 column 2".to_string()
        ))
    );
}

#[test]
fn openai_adapter_describes_itself() {
    let adapter = OpenAiAdapter::new("test-key".to_string()).unwrap();
    assert_eq!(adapter.api_key, "test-key");
    assert_eq!(adapter.base_url.as_str(), "https://api.openai.com/");
    assert_eq!(
        adapter.headers(),
        vec![("authorization".to_string(), "Bearer test-key".to_string())]
    );
    let info = adapter.info();
    assert_eq!(info.name, "openai");
    assert_eq!(info.base_url.unwrap().as_str(), "https://api.openai.com/");
    assert_eq!(
        info.capabilities,
        CapabilityMatrix {
            streaming: true,
            tools: true,
            structured_output: true,
            multimodal_input: true,
            citations: false,
        }
    );
}

#[test]
fn openai_endpoint_is_joined_to_the_base_url() {
    let base = urls::parse("http://127.0.0.1:8080").unwrap();
    let adapter = OpenAiAdapter::with_base_url("k".to_string(), base).unwrap();
    assert_eq!(
        adapter.chat_completions_url().unwrap().as_str(),
        "http://127.0.0.1:8080/v1/chat/completions"
    );
    let base = urls::parse("https://proxy.example/openai/").unwrap();
    let adapter = OpenAiAdapter::with_base_url("k".to_string(), base).unwrap();
    assert_eq!(
        adapter.chat_completions_url().unwrap().as_str(),
        "https://proxy.example/openai/v1/chat/completions"
    );
}

#[test]
fn endpoint_on_a_base_that_cannot_be_one_is_an_internal_error() {
    let base = urls::parse("mailto:someone@example.com").unwrap();
    let adapter = OpenAiAdapter::with_base_url("k".to_string(), base).unwrap();
    assert_eq!(
        adapter.chat_completions_url(),
        Err(ForgeError::Internal(
            "failed to construct endpoint url: relative URL with a cannot-be-a-base base".to_string()
        ))
    );
}

#[test]
fn adapter_from_a_base_url_that_was_not_read() {
    assert_eq!(
        OpenAiAdapter::from_parsed("k".to_string(), urls::parse("not a url")),
        Err(ForgeError::Internal("relative URL without a base".to_string()))
    );
}

// ------------------------------------------------------------- Anthropic

#[test]
fn anthropic_body_for_a_single_answer() {
    let body = anthropic::build_messages_body(sample_request("messages-model-latest", 128), false);
    assert_eq!(
        body.to_text(),
        "{\"max_tokens\":128,\"messages\":[{\"content\":[{\"text\":\"Say hello\",\"type\":\"text\"}],\
         \"role\":\"user\"}],\"model\":\"messages-model-latest\",\"temperature\":0.2}"
    );
}

#[test]
fn anthropic_body_hoists_system_messages_and_defaults_the_limit() {
    let body = anthropic::build_messages_body(full_request(), true);
    assert_eq!(
        body.to_text(),
        "{\"max_tokens\":1024,\"messages\":[\
         {\"content\":[{\"text\":\"hi\",\"type\":\"text\"}],\"role\":\"user\"},\
         {\"content\":[{\"text\":\"hello\",\"type\":\"text\"}],\"role\":\"assistant\"},\
         {\"content\":[{\"text\":\"{\\\"output\\\":1}\",\"type\":\"text\"}],\"role\":\"user\"}],\
         \"model\":\"m\",\"stream\":true,\"system\":\"be brief\\n\\nbe kind\",\
         \"tools\":[{\"description\":\"the time\",\"input_schema\":{\"type\":\"object\"},\
         \"name\":\"time.now\"},{\"description\":null,\"input_schema\":null,\"name\":\"noop\"}]}"
    );
}

#[test]
fn anthropic_chat_contract_parses_response_and_usage() {
    let payload = json(
        "{\"id\": \"msg_123\", \"model\": \"messages-model-latest\", \
         \"content\": [{\"type\": \"text\", \"text\": \"Hello from Anthropic\"}], \
         \"usage\": {\"input_tokens\": 12, \"output_tokens\": 5}}",
    );
    let response = anthropic::parse_chat_response(payload).unwrap();
    assert_eq!(response.id, "msg_123");
    assert_eq!(response.model, "messages-model-latest");
    assert_eq!(response.output_text, "Hello from Anthropic");
    assert_eq!(response.usage.unwrap().total_tokens, 17);
}

#[test]
fn anthropic_blocks_give_text_and_tool_calls() {
    let payload = json(
        "{\"content\": [{\"type\": \"text\", \"text\": \"a\"}, \
         {\"type\": \"tool_use\", \"id\": \"tu_1\", \"name\": \"time.now\", \"input\": {\"tz\": \"UTC\"}}, \
         {\"type\": \"other\", \"text\": \"skipped\"}, {\"text\": \"no type\"}, \
         {\"type\": \"text\"}, {\"type\": \"text\", \"text\": \"b\"}, {\"type\": \"tool_use\"}]}",
    );
    let response = anthropic::parse_chat_response(payload).unwrap();
    assert_eq!(response.output_text, "ab");
    assert_eq!(
        response.tool_calls,
        vec![
            ToolCall {
                id: "tu_1".to_string(),
                name: "time.now".to_string(),
                arguments: json("{\"tz\": \"UTC\"}"),
            },
            ToolCall { id: "".to_string(), name: "".to_string(), arguments: Json::Null },
        ]
    );
    assert_eq!(response.usage, None);
}

#[test]
fn anthropic_usage_total_is_the_saturating_sum() {
    assert_eq!(
        anthropic::extract_usage(Some(&json("{\"input_tokens\": 12, \"output_tokens\": 5}"))),
        Some(Usage { input_tokens: 12, output_tokens: 5, total_tokens: 17 })
    );
    assert_eq!(
        anthropic::extract_usage(Some(&json("{\"output_tokens\": 2}"))),
        Some(Usage { input_tokens: 0, output_tokens: 2, total_tokens: 2 })
    );
    assert_eq!(
        anthropic::extract_usage(Some(&json(
            "{\"input_tokens\": 4294967295, \"output_tokens\": 4294967295}"
        ))),
        Some(Usage {
            input_tokens: u32::MAX,
            output_tokens: u32::MAX,
            total_tokens: u32::MAX
        })
    );
    assert_eq!(
        anthropic::extract_usage(Some(&json("\"no object\""))),
        Some(Usage { input_tokens: 0, output_tokens: 0, total_tokens: 0 })
    );
    assert_eq!(anthropic::extract_usage(None), None);
}

#[test]
fn anthropic_stream_payloads_go_by_the_event_name() {
    assert_eq!(
        anthropic::parse_stream_payload(
            "{\"type\":\"content_block_delta\",\"delta\":{\"type\":\"text_delta\",\"text\":\"Hello\"}}",
            Some("content_block_delta")
        ),
        Ok(vec![text_delta("Hello")])
    );
    assert_eq!(
        anthropic::parse_stream_payload("{\"delta\":{\"text\":\"Hello\"}}", Some("message_delta")),
        Ok(vec![])
    );
    assert_eq!(
        anthropic::parse_stream_payload("{\"type\":\"content_block_delta\",\"delta\":{\"text\":\"x\"}}", None),
        Ok(vec![text_delta("x")])
    );
    assert_eq!(
        anthropic::parse_stream_payload("{\"type\":\"message_stop\"}", Some("ping")),
        Ok(vec![])
    );
    assert_eq!(
        anthropic::parse_stream_payload("{}", Some("message_stop")),
        Ok(vec![StreamEvent::Done])
    );
    assert_eq!(
        anthropic::parse_stream_payload("{\"delta\":{\"text\":\"\"}}", Some("content_block_delta")),
        Ok(vec![])
    );
}

#[test]
fn anthropic_stream_usage_is_found_at_both_places() {
    assert_eq!(
        anthropic::parse_stream_payload(
            "{\"type\":\"message_start\",\"message\":{\"id\":\"msg_1\",\"usage\":\
             {\"input_tokens\":10,\"output_tokens\":0}}}",
            Some("message_start")
        ),
        Ok(vec![StreamEvent::Usage {
            usage: Usage { input_tokens: 10, output_tokens: 0, total_tokens: 10 }
        }])
    );
    assert_eq!(
        anthropic::parse_stream_payload(
            "{\"usage\":{\"output_tokens\":2},\"message\":{\"usage\":{\"input_tokens\":9}}}",
            Some("message_delta")
        ),
        Ok(vec![StreamEvent::Usage {
            usage: Usage { input_tokens: 0, output_tokens: 2, total_tokens: 2 }
        }])
    );
}

#[test]
fn anthropic_stream_tool_use_block_starts_a_call() {
    assert_eq!(
        anthropic::parse_stream_payload(
            "{\"content_block\":{\"type\":\"tool_use\",\"id\":\"tu_1\",\"name\":\"f\"}}",
            Some("content_block_start")
        ),
        Ok(vec![StreamEvent::ToolCallDelta {
            call_id: "tu_1".to_string(),
            delta: json("{\"type\":\"tool_use\",\"id\":\"tu_1\",\"name\":\"f\"}"),
        }])
    );
    assert_eq!(
        anthropic::parse_stream_payload(
            "{\"content_block\":{\"type\":\"text\",\"text\":\"\"}}",
            Some("content_block_start")
        ),
        Ok(vec![])
    );
}

#[test]
fn anthropic_stream_payload_that_is_no_json_is_a_provider_error() {
    assert_eq!(
        anthropic::parse_stream_payload("[DONE]", Some("message_stop")),
        Err(ForgeError::Provider(
            "invalid stream payload: expected value at line 1 column 2".to_string()
        ))
    );
}

#[test]
fn anthropic_adapter_describes_itself() {
    let adapter = AnthropicAdapter::new("test-key".to_string()).unwrap();
    assert_eq!(adapter.api_version, "2023-06-01");
    assert_eq!(adapter.base_url.as_str(), "https://api.anthropic.com/");
    assert_eq!(adapter.messages_url().unwrap().as_str(), "https://api.anthropic.com/v1/messages");
    assert_eq!(
        adapter.headers(),
        vec![
            ("x-api-key".to_string(), "test-key".to_string()),
            ("anthropic-version".to_string(), "2023-06-01".to_string()),
        ]
    );
    let other = AnthropicAdapter::with_base_url(
        "k".to_string(),
        urls::parse("http://localhost:9000").unwrap(),
    )
    .unwrap();
    let info = other.info();
    assert_eq!(info.name, "anthropic");
    assert_eq!(info.base_url.unwrap().as_str(), "https://api.anthropic.com/");
    assert!(!info.capabilities.citations);
}

// ---------------------------------------------------------------- Gemini

#[test]
fn gemini_body_for_a_single_answer() {
    let body = gemini::build_generate_body(sample_request("gemini-1.5-flash", 64));
    assert_eq!(
        body.to_text(),
        "{\"contents\":[{\"parts\":[{\"text\":\"Say hello\"}],\"role\":\"user\"}],\
         \"generationConfig\":{\"maxOutputTokens\":64,\"temperature\":0.2}}"
    );
}

#[test]
fn gemini_body_hoists_system_messages_and_wraps_tools() {
    let body = gemini::build_generate_body(full_request());
    assert_eq!(
        body.to_text(),
        "{\"contents\":[{\"parts\":[{\"text\":\"hi\"}],\"role\":\"user\"},\
         {\"parts\":[{\"text\":\"hello\"}],\"role\":\"model\"},\
         {\"parts\":[{\"text\":\"{\\\"output\\\":1}\"}],\"role\":\"user\"}],\
         \"systemInstruction\":{\"parts\":[{\"text\":\"be brief\\n\\nbe kind\"}]},\
         \"tools\":[{\"functionDeclarations\":[{\"description\":\"the time\",\"name\":\"time.now\",\
         \"parameters\":{\"type\":\"object\"}}]},\
         {\"functionDeclarations\":[{\"description\":null,\"name\":\"noop\",\"parameters\":null}]}]}"
    );
}

#[test]
fn gemini_generation_config_depends_on_the_temperature() {
    let mut request = sample_request("m", 8);
    request.max_tokens = None;
    assert_eq!(
        gemini::build_generate_body(request).get("generationConfig").unwrap().to_text(),
        "{\"maxOutputTokens\":null,\"temperature\":0.2}"
    );
    let mut request = sample_request("m", 8);
    request.temperature = None;
    assert_eq!(
        gemini::build_generate_body(request).get("generationConfig").unwrap().to_text(),
        "{\"maxOutputTokens\":8}"
    );
    let mut request = sample_request("m", 8);
    request.temperature = None;
    request.max_tokens = None;
    assert_eq!(gemini::build_generate_body(request).get("generationConfig"), None);
}

#[test]
fn gemini_chat_contract_parses_response_and_usage() {
    let payload = json(
        "{\"responseId\": \"resp_123\", \"candidates\": [{\"content\": {\"parts\": \
         [{\"text\": \"Hello from Gemini\"}]}}], \"usageMetadata\": {\"promptTokenCount\": 9, \
         \"candidatesTokenCount\": 4, \"totalTokenCount\": 13}}",
    );
    let response = gemini::parse_chat_response("gemini-1.5-flash".to_string(), payload).unwrap();
    assert_eq!(response.id, "resp_123");
    assert_eq!(response.model, "gemini-1.5-flash");
    assert_eq!(response.output_text, "Hello from Gemini");
    assert_eq!(response.usage.unwrap().total_tokens, 13);
}

#[test]
fn gemini_text_and_calls_are_flattened_over_candidates() {
    let payload = json(
        "{\"candidates\": [{\"content\": {\"parts\": [{\"text\": \"a\"}, \
         {\"functionCall\": {\"id\": \"f1\", \"name\": \"one\", \"args\": {\"x\": 1}}}]}}, \
         {\"content\": {}}, {\"finishReason\": \"STOP\"}, \
         {\"content\": {\"parts\": [{\"functionCall\": {\"name\": \"two\"}}, {\"text\": \"b\"}]}}]}",
    );
    assert_eq!(gemini::extract_text_from_payload(&payload), "ab");
    assert_eq!(
        gemini::extract_tool_calls_from_payload(&payload),
        vec![
            ToolCall { id: "f1".to_string(), name: "one".to_string(), arguments: json("{\"x\": 1}") },
            ToolCall { id: "".to_string(), name: "two".to_string(), arguments: Json::Null },
        ]
    );
    assert_eq!(gemini::extract_text_from_payload(&json("{}")), "");
    assert!(gemini::extract_tool_calls_from_payload(&json("{\"candidates\": 3}")).is_empty());
}

#[test]
fn gemini_usage_total_is_stated_or_the_saturating_sum() {
    assert_eq!(
        gemini::extract_usage(Some(&json(
            "{\"promptTokenCount\": 9, \"candidatesTokenCount\": 4, \"totalTokenCount\": 20}"
        ))),
        Some(Usage { input_tokens: 9, output_tokens: 4, total_tokens: 20 })
    );
    assert_eq!(
        gemini::extract_usage(Some(&json("{\"promptTokenCount\": 9, \"candidatesTokenCount\": 4}"))),
        Some(Usage { input_tokens: 9, output_tokens: 4, total_tokens: 13 })
    );
    assert_eq!(
        gemini::extract_usage(Some(&json(
            "{\"promptTokenCount\": 4294967295, \"candidatesTokenCount\": 1}"
        ))),
        Some(Usage { input_tokens: u32::MAX, output_tokens: 1, total_tokens: u32::MAX })
    );
    assert_eq!(gemini::extract_usage(None), None);
}

#[test]
fn gemini_stream_payloads_give_events_in_order() {
    assert_eq!(
        gemini::parse_stream_payload("{\"candidates\":[{\"content\":{\"parts\":[{\"text\":\"Hello\"}]}}]}"),
        Ok(vec![text_delta("Hello")])
    );
    assert_eq!(
        gemini::parse_stream_payload(
            "{\"usageMetadata\":{\"promptTokenCount\":9,\"candidatesTokenCount\":2,\
             \"totalTokenCount\":11},\"candidates\":[{\"finishReason\":\"STOP\"}]}"
        ),
        Ok(vec![
            StreamEvent::Usage { usage: Usage { input_tokens: 9, output_tokens: 2, total_tokens: 11 } },
            StreamEvent::Done,
        ])
    );
    assert_eq!(
        gemini::parse_stream_payload(
            "{\"candidates\":[{\"content\":{\"parts\":[{\"text\":\"t\"},{\"functionCall\":\
             {\"id\":\"c\",\"name\":\"f\",\"args\":[1]}}]},\"finishReason\":null}]}"
        ),
        Ok(vec![
            text_delta("t"),
            StreamEvent::ToolCallDelta {
                call_id: "c".to_string(),
                delta: Json::Object(vec![
                    ("name".to_string(), Json::text("f")),
                    ("arguments".to_string(), json("[1]")),
                ]),
            },
            StreamEvent::Done,
        ])
    );
    assert_eq!(
        gemini::parse_stream_payload("{\"candidates\":[{},{\"finishReason\":\"STOP\"}]}"),
        Ok(vec![])
    );
}

#[test]
fn gemini_stream_text_is_the_text_of_the_single_answer() {
    let text = "{\"candidates\":[{\"content\":{\"parts\":[{\"text\":\"Hello\"},{\"text\":\" world\"}]}}]}";
    let response = gemini::parse_chat_response("m".to_string(), json(text)).unwrap();
    assert_eq!(gemini::parse_stream_payload(text), Ok(vec![text_delta(&response.output_text)]));
    assert_eq!(response.output_text, "Hello world");
}

#[test]
fn gemini_endpoint_names_the_model_the_action_and_the_key() {
    let adapter = GeminiAdapter::with_base_url(
        "test-key".to_string(),
        urls::parse("http://127.0.0.1:9000").unwrap(),
    )
    .unwrap();
    assert_eq!(adapter.api_version, "v1beta");
    assert_eq!(adapter.endpoint_path(" gemini-1.5-flash ", false), "v1beta/models/gemini-1.5-flash:generateContent");
    assert_eq!(
        adapter.endpoint_url("gemini-1.5-flash", false).unwrap().as_str(),
        "http://127.0.0.1:9000/v1beta/models/gemini-1.5-flash:generateContent?key=test-key"
    );
    assert_eq!(
        adapter.endpoint_url(" gemini-1.5-flash\n", true).unwrap().as_str(),
        "http://127.0.0.1:9000/v1beta/models/gemini-1.5-flash:streamGenerateContent?key=test-key&alt=sse"
    );
}

#[test]
fn gemini_key_is_encoded_in_the_query() {
    let adapter = GeminiAdapter::with_base_url(
        "a b&c".to_string(),
        urls::parse("https://example.com/base/").unwrap(),
    )
    .unwrap();
    assert_eq!(
        adapter.endpoint_url("m", false).unwrap().as_str(),
        "https://example.com/base/v1beta/models/m:generateContent?key=a+b%26c"
    );
}

#[test]
fn gemini_adapter_describes_itself() {
    let adapter = GeminiAdapter::new("k".to_string()).unwrap();
    assert_eq!(adapter.base_url.as_str(), "https://generativelanguage.googleapis.com/");
    let info = adapter.info();
    assert_eq!(info.name, "gemini");
    assert_eq!(info.base_url.unwrap().as_str(), "https://generativelanguage.googleapis.com/");
    assert!(info.capabilities.citations);
}

// ------------------------------------------------------------------ URLs

#[test]
fn urls_are_read_written_and_extended() {
    let mut url = urls::parse("HTTPS://Example.COM/a/../b?x=1#frag").unwrap();
    assert_eq!(urls::to_text(&url), "https://example.com/b?x=1#frag");
    assert!(urls::append_pair(&mut url, "k", "v w"));
    assert_eq!(urls::to_text(&url), "https://example.com/b?x=1&k=v+w#frag");
    assert_eq!(urls::parse("nope"), Err("relative URL without a base".to_string()));
    assert_eq!(
        urls::endpoint(&urls::parse("https://example.com/v1/").unwrap(), "../x").unwrap().as_str(),
        "https://example.com/x"
    );
}

// -------------------------------------------------------------- settings

#[test]
fn settings_without_a_key_are_an_authentication_error() {
    assert_eq!(OpenAiAdapter::from_settings(None, None), Err(ForgeError::Authentication));
    assert_eq!(
        AnthropicAdapter::from_settings(None, Some("https://example.com".to_string())),
        Err(ForgeError::Authentication)
    );
    assert_eq!(
        GeminiAdapter::from_settings(None, Some("no url".to_string())),
        Err(ForgeError::Authentication)
    );
}

#[test]
fn settings_with_a_malformed_base_url_are_a_validation_error() {
    assert_eq!(
        OpenAiAdapter::from_settings(Some("k".to_string()), Some("no url".to_string())),
        Err(ForgeError::Validation(
            "invalid OPENAI_BASE_URL: relative URL without a base".to_string()
        ))
    );
    assert_eq!(
        AnthropicAdapter::from_settings(Some("k".to_string()), Some("".to_string())),
        Err(ForgeError::Validation(
            "invalid ANTHROPIC_BASE_URL: relative URL without a base".to_string()
        ))
    );
    assert_eq!(
        GeminiAdapter::from_settings(Some("k".to_string()), Some("http://".to_string())),
        Err(ForgeError::Validation("invalid GEMINI_BASE_URL: empty host".to_string()))
    );
}

#[test]
fn settings_give_the_base_url_or_the_provider_own() {
    let adapter = OpenAiAdapter::from_settings(
        Some("k".to_string()),
        Some("http://localhost:1234/proxy/".to_string()),
    )
    .unwrap();
    assert_eq!(adapter.api_key, "k");
    assert_eq!(adapter.base_url.as_str(), "http://localhost:1234/proxy/");
    let adapter = AnthropicAdapter::from_settings(Some("k".to_string()), None).unwrap();
    assert_eq!(adapter.base_url.as_str(), "https://api.anthropic.com/");
    assert_eq!(adapter.api_version, "2023-06-01");
    let adapter = GeminiAdapter::from_settings(Some("k".to_string()), None).unwrap();
    assert_eq!(adapter.base_url.as_str(), "https://generativelanguage.googleapis.com/");
}

#[test]
fn chat_contract_parses_response_and_usage() {
    openai_chat_contract_parses_response_and_usage();
    anthropic_chat_contract_parses_response_and_usage();
    gemini_chat_contract_parses_response_and_usage();
}
