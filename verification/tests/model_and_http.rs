use forgeai::http::{extract_provider_error, is_success, parse_http_error};
use forgeai::json::Json;
use forgeai::model::{low_u32, validate_request};
use forgeai::replay::ReplayEntry;
use forgeai::schema::type_schema;
use forgeai::{ChatRequest, ForgeError, Message, Role};

fn request(model: &str, messages: Vec<Message>) -> ChatRequest {
    ChatRequest {
        model: model.to_string(),
        messages,
        temperature: None,
        max_tokens: None,
        tools: vec![],
        metadata: Json::Object(vec![]),
    }
}

fn user(content: &str) -> Message {
    Message { role: Role::User, content: content.to_string() }
}

#[test]
fn validator_accepts_a_model_and_a_message() {
    assert_eq!(validate_request(&request("gpt-4o-mini", vec![user("hi")])), Ok(()));
    assert_eq!(validate_request(&request("  m  ", vec![user("")])), Ok(()));
}

#[test]
fn validator_rejects_an_empty_model() {
    assert_eq!(
        validate_request(&request("", vec![user("hi")])),
        Err(ForgeError::Validation("model cannot be empty".to_string()))
    );
}

#[test]
fn validator_rejects_a_white_space_model() {
    assert_eq!(
        validate_request(&request(" \t\n", vec![user("hi")])),
        Err(ForgeError::Validation("model cannot be empty".to_string()))
    );
}

#[test]
fn validator_rejects_empty_messages() {
    assert_eq!(
        validate_request(&request("m", vec![])),
        Err(ForgeError::Validation("messages cannot be empty".to_string()))
    );
}

#[test]
fn validator_objects_to_the_model_first() {
    assert_eq!(
        validate_request(&request("", vec![])),
        Err(ForgeError::Validation("model cannot be empty".to_string()))
    );
}

#[test]
fn error_messages_include_the_cause() {
    assert_eq!(ForgeError::Validation("x".to_string()).message(), "validation error: x");
    assert_eq!(ForgeError::Authentication.message(), "authentication error");
    assert_eq!(ForgeError::RateLimited.message(), "rate limited");
    assert_eq!(ForgeError::Provider("boom".to_string()).message(), "provider error: boom");
    assert_eq!(ForgeError::Transport("timeout".to_string()).message(), "transport error: timeout");
    assert_eq!(ForgeError::Internal("bug".to_string()).message(), "internal error: bug");
}

#[test]
fn status_maps_to_the_canonical_error() {
    let body = "{\"error\": {\"message\": \"quota\"}}";
    assert_eq!(parse_http_error(401, body.to_string()), ForgeError::Authentication);
    assert_eq!(parse_http_error(403, body.to_string()), ForgeError::Authentication);
    assert_eq!(parse_http_error(429, body.to_string()), ForgeError::RateLimited);
    assert_eq!(parse_http_error(500, body.to_string()), ForgeError::Provider("quota".to_string()));
    assert_eq!(parse_http_error(400, body.to_string()), ForgeError::Provider("quota".to_string()));
    assert_eq!(parse_http_error(404, "gone".to_string()), ForgeError::Provider("gone".to_string()));
}

#[test]
fn provider_message_is_extracted_or_the_raw_body() {
    assert_eq!(extract_provider_error("{\"error\":{\"message\":\"m\"}}".to_string()), "m");
    assert_eq!(extract_provider_error("{\"error\":{\"message\":3}}".to_string()), "{\"error\":{\"message\":3}}");
    assert_eq!(extract_provider_error("{\"error\":\"flat\"}".to_string()), "{\"error\":\"flat\"}");
    assert_eq!(extract_provider_error("<html>".to_string()), "<html>");
    assert_eq!(extract_provider_error("".to_string()), "");
}

#[test]
fn success_is_200_to_299() {
    assert!(!is_success(199));
    assert!(is_success(200));
    assert!(is_success(204));
    assert!(is_success(299));
    assert!(!is_success(300));
    assert!(!is_success(401));
}

#[test]
fn counters_keep_their_low_32_bits() {
    assert_eq!(low_u32(0), 0);
    assert_eq!(low_u32(14), 14);
    assert_eq!(low_u32(u32::MAX as u64), u32::MAX);
    assert_eq!(low_u32(u32::MAX as u64 + 1), 0);
    assert_eq!(low_u32(0x1_0000_0005), 5);
    assert_eq!(low_u32(u64::MAX), u32::MAX);
}

#[test]
fn request_clone_is_equal() {
    let mut r = request("m", vec![user("a"), Message { role: Role::System, content: "s".to_string() }]);
    r.temperature = Some(Json::parse("0.5").unwrap());
    r.max_tokens = Some(7);
    r.tools.push(forgeai::ToolDefinition {
        name: "t".to_string(),
        description: Some("d".to_string()),
        input_schema: type_schema(),
    });
    assert_eq!(r.clone(), r);
}

#[test]
fn schema_is_that_of_any_object() {
    assert_eq!(type_schema().to_text(), "{\"type\":\"object\"}");
}

#[test]
fn replay_entry_holds_its_texts() {
    let entry = ReplayEntry { request: "req".to_string(), response: "resp".to_string() };
    assert_eq!(entry.clone(), entry);
    assert_eq!(entry.request, "req");
    assert_eq!(entry.response, "resp");
}
