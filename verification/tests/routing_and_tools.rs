use forgeai::json::Json;
use forgeai::router::{pick_first_healthy, should_failover};
use forgeai::tool_loop::DEFAULT_MAX_ITERATIONS;
use forgeai::tools::NoTools;
use forgeai::{
    collect_events, AdapterInfo, CapabilityMatrix, ChatRequest, ChatResponse, FailoverPolicy,
    FailoverRouter, ForgeError, Message, Role, StreamEvent, ToolCall, ToolError, ToolExecutor,
    ToolInvocation, ToolLoop, ToolLoopOptions, ToolLoopResult, ToolLoopTurn, Verdict,
};
use std::cell::{Cell, RefCell};
use std::collections::VecDeque;

fn json(text: &str) -> Json {
    Json::parse(text).unwrap()
}

// ---------------------------------------------------------------- router

struct MockAdapter {
    name: String,
    result: Result<ChatResponse, ForgeError>,
    calls: Cell<usize>,
}

impl MockAdapter {
    fn new(name: &str, result: Result<ChatResponse, ForgeError>) -> Self {
        MockAdapter { name: name.to_string(), result, calls: Cell::new(0) }
    }

    fn info(&self) -> AdapterInfo {
        AdapterInfo {
            name: self.name.clone(),
            base_url: None,
            capabilities: CapabilityMatrix {
                streaming: true,
                tools: true,
                structured_output: true,
                multimodal_input: false,
                citations: false,
            },
        }
    }

    fn chat(&self, _request: ChatRequest) -> Result<ChatResponse, ForgeError> {
        self.calls.set(self.calls.get() + 1);
        self.result.clone()
    }
}

fn request() -> ChatRequest {
    ChatRequest {
        model: "mock".to_string(),
        messages: vec![Message { role: Role::User, content: "hello".to_string() }],
        temperature: None,
        max_tokens: None,
        tools: vec![],
        metadata: json("{}"),
    }
}

fn answer(id: &str, text: &str) -> ChatResponse {
    ChatResponse {
        id: id.to_string(),
        model: "mock".to_string(),
        output_text: text.to_string(),
        tool_calls: vec![],
        usage: None,
    }
}

/// One request through the router, as a caller drives it.
fn chat(router: &FailoverRouter<MockAdapter>, request: ChatRequest) -> Result<ChatResponse, ForgeError> {
    let mut way = router.begin();
    while let Some(index) = way.next() {
        let adapter = router.adapter(index).unwrap();
        match way.observe(adapter.chat(request.clone())) {
            Verdict::Return(result) => return result,
            Verdict::TryNext => {}
        }
    }
    Err(way.give_up())
}

fn calls(router: &FailoverRouter<MockAdapter>) -> Vec<usize> {
    let mut out = Vec::new();
    let mut index = 0;
    while let Some(adapter) = router.adapter(index) {
        out.push(adapter.calls.get());
        index += 1;
    }
    out
}

#[test]
fn router_returns_first_successful_adapter() {
    let router = FailoverRouter::new(vec![
        MockAdapter::new("a", Err(ForgeError::Transport("timeout".to_string()))),
        MockAdapter::new("b", Ok(answer("2", "ok"))),
    ])
    .unwrap();

    let response = chat(&router, request()).unwrap();
    assert_eq!(response.output_text, "ok");
    assert_eq!(calls(&router), vec![1, 1]);
}

#[test]
fn router_stops_on_non_retryable_error() {
    let router = FailoverRouter::new(vec![
        MockAdapter::new("a", Err(ForgeError::Authentication)),
        MockAdapter::new("b", Ok(answer("2", "should not be used"))),
    ])
    .unwrap();

    let err = chat(&router, request()).unwrap_err();
    assert!(matches!(err, ForgeError::Authentication));
    assert_eq!(calls(&router), vec![1, 0]);
}

#[test]
fn router_goes_on_after_every_retryable_error() {
    let router = FailoverRouter::new(vec![
        MockAdapter::new("a", Err(ForgeError::RateLimited)),
        MockAdapter::new("b", Err(ForgeError::Provider("down".to_string()))),
        MockAdapter::new("c", Err(ForgeError::Transport("reset".to_string()))),
        MockAdapter::new("d", Ok(answer("4", "fourth"))),
        MockAdapter::new("e", Ok(answer("5", "fifth"))),
    ])
    .unwrap();
    assert_eq!(chat(&router, request()).unwrap().output_text, "fourth");
    assert_eq!(calls(&router), vec![1, 1, 1, 1, 0]);
}

#[test]
fn router_stops_on_validation_and_internal_errors() {
    for terminal in [
        ForgeError::Validation("bad".to_string()),
        ForgeError::Internal("bug".to_string()),
        ForgeError::Authentication,
    ] {
        let router = FailoverRouter::new(vec![
            MockAdapter::new("a", Err(ForgeError::RateLimited)),
            MockAdapter::new("b", Err(terminal.clone())),
            MockAdapter::new("c", Ok(answer("3", "unused"))),
        ])
        .unwrap();
        assert_eq!(chat(&router, request()), Err(terminal));
        assert_eq!(calls(&router), vec![1, 1, 0]);
    }
}

#[test]
fn router_returns_the_last_error_when_all_fail() {
    let router = FailoverRouter::new(vec![
        MockAdapter::new("a", Err(ForgeError::Transport("first".to_string()))),
        MockAdapter::new("b", Err(ForgeError::Provider("last".to_string()))),
    ])
    .unwrap();
    assert_eq!(chat(&router, request()), Err(ForgeError::Provider("last".to_string())));
    assert_eq!(calls(&router), vec![1, 1]);
}

#[test]
fn router_tries_no_more_adapters_than_its_policy_allows() {
    let router = FailoverRouter::with_policy(
        vec![
            MockAdapter::new("a", Err(ForgeError::RateLimited)),
            MockAdapter::new("b", Err(ForgeError::Transport("t".to_string()))),
            MockAdapter::new("c", Ok(answer("3", "out of reach"))),
        ],
        FailoverPolicy { max_adapters_to_try: 2 },
    )
    .unwrap();
    assert_eq!(router.adapters_to_try(), 2);
    assert_eq!(chat(&router, request()), Err(ForgeError::Transport("t".to_string())));
    assert_eq!(calls(&router), vec![1, 1, 0]);
}

#[test]
fn router_with_no_adapter_to_try_reports_an_internal_error() {
    let router = FailoverRouter::with_policy(
        vec![MockAdapter::new("a", Ok(answer("1", "unused")))],
        FailoverPolicy { max_adapters_to_try: 0 },
    )
    .unwrap();
    assert_eq!(router.adapters_to_try(), 0);
    assert_eq!(
        chat(&router, request()),
        Err(ForgeError::Internal("failover router exhausted adapters without error".to_string()))
    );
    assert_eq!(calls(&router), vec![0]);
}

#[test]
fn router_needs_an_adapter() {
    let empty: Vec<MockAdapter> = vec![];
    assert!(matches!(
        FailoverRouter::new(empty),
        Err(ForgeError::Validation(m)) if m == "failover router requires at least one adapter"
    ));
    let empty: Vec<MockAdapter> = vec![];
    assert!(FailoverRouter::with_policy(empty, FailoverPolicy { max_adapters_to_try: 3 }).is_err());
}

#[test]
fn router_policy_defaults_to_every_adapter() {
    assert_eq!(FailoverPolicy::default().max_adapters_to_try, usize::MAX);
    let router = FailoverRouter::new(vec![1u8, 2, 3]).unwrap();
    assert_eq!(router.adapters_to_try(), 3);
    assert_eq!(router.adapter(0), Some(&1));
    assert_eq!(router.adapter(2), Some(&3));
    assert_eq!(router.adapter(3), None);
}

#[test]
fn router_routes_a_list_of_outcomes() {
    let router = FailoverRouter::new(vec!["a", "b", "c"]).unwrap();
    assert_eq!(
        router.route_outcomes(vec![Err(ForgeError::RateLimited), Ok(7), Ok(8)]),
        (Ok(7), 2)
    );
    assert_eq!(
        router.route_outcomes::<u8>(vec![
            Err(ForgeError::RateLimited),
            Err(ForgeError::Authentication),
            Ok(8)
        ]),
        (Err(ForgeError::Authentication), 2)
    );
    assert_eq!(
        router.route_outcomes::<u8>(vec![
            Err(ForgeError::RateLimited),
            Err(ForgeError::Provider("p".to_string())),
            Err(ForgeError::Transport("t".to_string())),
            Ok(1)
        ]),
        (Err(ForgeError::Transport("t".to_string())), 3)
    );
    assert_eq!(
        router.route_outcomes::<u8>(vec![]),
        (Err(ForgeError::Internal("failover router exhausted adapters without error".to_string())), 0)
    );
}

#[test]
fn router_describes_itself_by_its_first_adapter() {
    let router = FailoverRouter::new(vec![
        MockAdapter::new("a", Ok(answer("1", "x"))),
        MockAdapter::new("b", Ok(answer("2", "y"))),
    ])
    .unwrap();
    let mut first = router.adapter(0).unwrap().info();
    first.base_url = Some(forgeai::urls::parse("https://a.example").unwrap());
    let info = router.info(first.clone());
    assert_eq!(info.name, "failover-router");
    assert_eq!(info.base_url, first.base_url);
    assert_eq!(info.capabilities, first.capabilities);
}

#[test]
fn failover_is_for_rate_limits_transport_and_provider_errors() {
    assert!(should_failover(&ForgeError::RateLimited));
    assert!(should_failover(&ForgeError::Transport("t".to_string())));
    assert!(should_failover(&ForgeError::Provider("p".to_string())));
    assert!(!should_failover(&ForgeError::Validation("v".to_string())));
    assert!(!should_failover(&ForgeError::Authentication));
    assert!(!should_failover(&ForgeError::Internal("i".to_string())));
}

#[test]
fn first_healthy_is_the_first() {
    let a = MockAdapter::new("a", Ok(answer("1", "x"))).info();
    let b = MockAdapter::new("b", Ok(answer("2", "y"))).info();
    let infos = vec![a.clone(), b];
    assert_eq!(pick_first_healthy(&infos), Some(&a));
    assert_eq!(pick_first_healthy(&[]), None);
}

// ------------------------------------------------------------- tool loop

struct MockModel {
    chat_responses: RefCell<VecDeque<ChatResponse>>,
    stream_responses: RefCell<VecDeque<Vec<StreamEvent>>>,
    requests: RefCell<Vec<ChatRequest>>,
}

impl MockModel {
    fn with_chat_responses(items: Vec<ChatResponse>) -> Self {
        MockModel {
            chat_responses: RefCell::new(VecDeque::from(items)),
            stream_responses: RefCell::new(VecDeque::new()),
            requests: RefCell::new(Vec::new()),
        }
    }

    fn with_stream_responses(items: Vec<Vec<StreamEvent>>) -> Self {
        MockModel {
            chat_responses: RefCell::new(VecDeque::new()),
            stream_responses: RefCell::new(VecDeque::from(items)),
            requests: RefCell::new(Vec::new()),
        }
    }

    fn chat(&self, request: ChatRequest) -> Result<ChatResponse, ForgeError> {
        self.requests.borrow_mut().push(request);
        self.chat_responses
            .borrow_mut()
            .pop_front()
            .ok_or_else(|| ForgeError::Internal("no mock chat response remaining".to_string()))
    }

    fn chat_stream(&self, request: ChatRequest) -> Result<Vec<StreamEvent>, ForgeError> {
        self.requests.borrow_mut().push(request);
        self.stream_responses
            .borrow_mut()
            .pop_front()
            .ok_or_else(|| ForgeError::Internal("no mock stream response remaining".to_string()))
    }
}

struct EchoTools;

impl ToolExecutor for EchoTools {
    fn call(&self, _name: &str, input: Json) -> Result<Json, ToolError> {
        Ok(Json::Object(vec![("echo".to_string(), input)]))
    }
}

struct PickyTools {
    seen: RefCell<Vec<String>>,
}

impl ToolExecutor for PickyTools {
    fn call(&self, name: &str, input: Json) -> Result<Json, ToolError> {
        self.seen.borrow_mut().push(name.to_string());
        match name {
            "time.now" => Ok(input),
            "broken" => Err(ToolError::Execution("disk full".to_string())),
            _ => Err(ToolError::NotFound(name.to_string())),
        }
    }
}

fn base_request() -> ChatRequest {
    ChatRequest {
        model: "mock-model".to_string(),
        messages: vec![Message { role: Role::User, content: "what time is it?".to_string() }],
        temperature: Some(json("0.1")),
        max_tokens: Some(128),
        tools: vec![],
        metadata: json("{}"),
    }
}

fn tool_response(id: &str, text: &str, calls: Vec<ToolCall>) -> ChatResponse {
    ChatResponse {
        id: id.to_string(),
        model: "mock-model".to_string(),
        output_text: text.to_string(),
        tool_calls: calls,
        usage: None,
    }
}

fn call(id: &str, name: &str, arguments: &str) -> ToolCall {
    ToolCall { id: id.to_string(), name: name.to_string(), arguments: json(arguments) }
}

/// The tool loop, as a caller drives it.
fn chat_with_tools<T: ToolExecutor>(
    model: &MockModel,
    request: ChatRequest,
    tools: &T,
    options: ToolLoopOptions,
    use_streaming: bool,
) -> Result<ToolLoopResult, ForgeError> {
    let mut state = ToolLoop::start(request, options)?;
    loop {
        let request = state.request();
        let response = if use_streaming {
            collect_events(request.model.clone(), model.chat_stream(request)?)
        } else {
            model.chat(request)?
        };
        match state.advance(response, tools) {
            ToolLoopTurn::Finished(result) => return Ok(result),
            ToolLoopTurn::Continue(next) => state = next,
            ToolLoopTurn::Failed(e) => return Err(e),
        }
    }
}

#[test]
fn chat_with_tools_runs_loop_until_final_answer() {
    let model = MockModel::with_chat_responses(vec![
        tool_response("1", "", vec![call("call-1", "time.now", "{\"timezone\":\"UTC\"}")]),
        tool_response("2", "Current UTC time is 12:00", vec![]),
    ]);

    let result =
        chat_with_tools(&model, base_request(), &EchoTools, ToolLoopOptions::default(), false)
            .unwrap();

    assert_eq!(result.final_response.output_text, "Current UTC time is 12:00");
    assert_eq!(result.tool_invocations.len(), 1);
    assert_eq!(result.tool_invocations[0].name, "time.now");
    assert_eq!(result.iterations, 2);
    assert_eq!(
        result.tool_invocations[0],
        ToolInvocation {
            call_id: "call-1".to_string(),
            name: "time.now".to_string(),
            input: json("{\"timezone\":\"UTC\"}"),
            output: Json::Object(vec![("echo".to_string(), json("{\"timezone\":\"UTC\"}"))]),
        }
    );
}

#[test]
fn chat_with_tools_streaming_collects_events_and_executes_tools() {
    let model = MockModel::with_stream_responses(vec![
        vec![
            StreamEvent::ToolCallDelta {
                call_id: "call-1".to_string(),
                delta: json("{\"name\":\"time.now\",\"arguments\":{\"timezone\":\"UTC\"}}"),
            },
            StreamEvent::Done,
        ],
        vec![
            StreamEvent::TextDelta { delta: "Current UTC time is 12:00".to_string() },
            StreamEvent::Done,
        ],
    ]);

    let result =
        chat_with_tools(&model, base_request(), &EchoTools, ToolLoopOptions::default(), true)
            .unwrap();

    assert_eq!(result.final_response.output_text, "Current UTC time is 12:00");
    assert_eq!(result.tool_invocations.len(), 1);
    assert_eq!(result.iterations, 2);
    assert_eq!(result.final_response.id, "stream-collected");
    assert_eq!(result.final_response.model, "mock-model");
    assert_eq!(result.tool_invocations[0].name, "time.now");
}

#[test]
fn chat_with_tools_honors_max_iterations() {
    let model = MockModel::with_chat_responses(vec![tool_response(
        "1",
        "",
        vec![call("call-1", "loop.forever", "{}")],
    )]);

    let err = chat_with_tools(
        &model,
        base_request(),
        &EchoTools,
        ToolLoopOptions { max_iterations: 1 },
        false,
    )
    .unwrap_err();

    assert!(matches!(err, ForgeError::Provider(_)));
    assert_eq!(err, ForgeError::Provider("tool loop exceeded max iterations (1)".to_string()));
}

#[test]
fn tool_loop_without_tool_calls_ends_in_one_iteration() {
    let model = MockModel::with_chat_responses(vec![tool_response("1", "done at once", vec![])]);
    let result =
        chat_with_tools(&model, base_request(), &EchoTools, ToolLoopOptions::default(), false)
            .unwrap();
    assert_eq!(result.iterations, 1);
    assert!(result.tool_invocations.is_empty());
    assert_eq!(result.final_response.output_text, "done at once");
    assert_eq!(model.requests.borrow().len(), 1);
    assert_eq!(model.requests.borrow()[0], base_request());
}

#[test]
fn tool_loop_records_every_call_in_order() {
    let model = MockModel::with_chat_responses(vec![
        tool_response("1", "thinking", vec![call("c1", "a", "1"), call("c2", "b", "2")]),
        tool_response("2", "", vec![call("c3", "c", "3")]),
        tool_response("3", "", vec![call("c4", "d", "4")]),
        tool_response("4", "final", vec![]),
    ]);
    let result =
        chat_with_tools(&model, base_request(), &EchoTools, ToolLoopOptions::default(), false)
            .unwrap();
    assert_eq!(result.iterations, 4);
    let ids: Vec<&str> = result.tool_invocations.iter().map(|i| i.call_id.as_str()).collect();
    assert_eq!(ids, vec!["c1", "c2", "c3", "c4"]);
}

#[test]
fn tool_loop_carries_the_replies_in_the_next_prompt() {
    let model = MockModel::with_chat_responses(vec![
        tool_response("1", "let me check", vec![call("call-1", "time.now", "{\"timezone\":\"UTC\"}")]),
        tool_response("2", "12:00", vec![]),
    ]);
    chat_with_tools(&model, base_request(), &EchoTools, ToolLoopOptions::default(), false).unwrap();
    let requests = model.requests.borrow();
    assert_eq!(requests.len(), 2);
    assert_eq!(
        requests[1].messages,
        vec![
            Message { role: Role::User, content: "what time is it?".to_string() },
            Message { role: Role::Assistant, content: "let me check".to_string() },
            Message {
                role: Role::Tool,
                content: "{\"name\":\"time.now\",\"output\":{\"echo\":{\"timezone\":\"UTC\"}},\
                          \"tool_call_id\":\"call-1\"}"
                    .to_string(),
            },
        ]
    );
    assert_eq!(requests[1].model, "mock-model");
    assert_eq!(requests[1].max_tokens, Some(128));
}

#[test]
fn tool_loop_stops_at_the_first_failing_tool() {
    let model = MockModel::with_chat_responses(vec![tool_response(
        "1",
        "",
        vec![
            call("c1", "time.now", "{}"),
            call("c2", "broken", "{}"),
            call("c3", "time.now", "{}"),
        ],
    )]);
    let tools = PickyTools { seen: RefCell::new(Vec::new()) };
    let err = chat_with_tools(&model, base_request(), &tools, ToolLoopOptions::default(), false)
        .unwrap_err();
    assert_eq!(
        err,
        ForgeError::Provider(
            "tool 'broken' execution failed: tool execution failed: disk full".to_string()
        )
    );
    assert_eq!(*tools.seen.borrow(), vec!["time.now".to_string(), "broken".to_string()]);
}

#[test]
fn tool_loop_reports_a_tool_that_is_not_found() {
    let model = MockModel::with_chat_responses(vec![tool_response(
        "1",
        "",
        vec![call("c1", "nope", "{}")],
    )]);
    let tools = PickyTools { seen: RefCell::new(Vec::new()) };
    let err = chat_with_tools(&model, base_request(), &tools, ToolLoopOptions::default(), false)
        .unwrap_err();
    assert_eq!(
        err,
        ForgeError::Provider("tool 'nope' execution failed: tool not found: nope".to_string())
    );
}

#[test]
fn tool_loop_executes_the_tools_of_its_last_turn() {
    let model = MockModel::with_chat_responses(vec![
        tool_response("1", "", vec![call("c1", "time.now", "{}")]),
        tool_response("2", "", vec![call("c2", "time.now", "{}")]),
        tool_response("3", "never asked", vec![]),
    ]);
    let tools = PickyTools { seen: RefCell::new(Vec::new()) };
    let err = chat_with_tools(
        &model,
        base_request(),
        &tools,
        ToolLoopOptions { max_iterations: 2 },
        false,
    )
    .unwrap_err();
    assert_eq!(err, ForgeError::Provider("tool loop exceeded max iterations (2)".to_string()));
    assert_eq!(tools.seen.borrow().len(), 2);
    assert_eq!(model.requests.borrow().len(), 2);
}

#[test]
fn tool_loop_needs_a_turn_and_a_valid_request() {
    let model = MockModel::with_chat_responses(vec![tool_response("1", "unused", vec![])]);
    let err = chat_with_tools(
        &model,
        base_request(),
        &EchoTools,
        ToolLoopOptions { max_iterations: 0 },
        false,
    )
    .unwrap_err();
    assert_eq!(err, ForgeError::Validation("max_iterations must be greater than 0".to_string()));

    let mut invalid = base_request();
    invalid.model = "   ".to_string();
    let err =
        chat_with_tools(&model, invalid, &EchoTools, ToolLoopOptions::default(), false).unwrap_err();
    assert_eq!(err, ForgeError::Validation("model cannot be empty".to_string()));

    let mut invalid = base_request();
    invalid.messages.clear();
    let err = chat_with_tools(&model, invalid, &EchoTools, ToolLoopOptions { max_iterations: 0 }, false)
        .unwrap_err();
    assert_eq!(err, ForgeError::Validation("messages cannot be empty".to_string()));
    assert!(model.requests.borrow().is_empty());
}

#[test]
fn tool_loop_defaults_to_eight_turns() {
    assert_eq!(ToolLoopOptions::default().max_iterations, 8);
    assert_eq!(DEFAULT_MAX_ITERATIONS, 8);
    let state = ToolLoop::start(base_request(), ToolLoopOptions::default()).unwrap();
    assert_eq!(state.iteration(), 1);
}

#[test]
fn an_executor_without_tools_finds_none() {
    let model = MockModel::with_chat_responses(vec![tool_response(
        "1",
        "",
        vec![call("c1", "time.now", "{}")],
    )]);
    let err = chat_with_tools(&model, base_request(), &NoTools, ToolLoopOptions::default(), false)
        .unwrap_err();
    assert_eq!(
        err,
        ForgeError::Provider("tool 'time.now' execution failed: tool not found: time.now".to_string())
    );
    assert_eq!(NoTools.call("x", Json::Null), Err(ToolError::NotFound("x".to_string())));
}

#[test]
fn tool_errors_have_messages() {
    assert_eq!(ToolError::NotFound("x".to_string()).message(), "tool not found: x");
    assert_eq!(ToolError::Execution("y".to_string()).message(), "tool execution failed: y");
}
