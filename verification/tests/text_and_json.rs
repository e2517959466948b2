use forgeai::json::{get_field, get_or_null, get_str, get_string, Json, JsonNumber};
use forgeai::text::{
    blank, concat2, concat3, decimal_string, join_strings, str_eq, strip_prefix_str, to_chars,
    trim_str, white_space,
};

fn json(text: &str) -> Json {
    Json::parse(text).unwrap()
}

#[test]
fn trim_removes_white_space_at_both_ends() {
    assert_eq!(trim_str("  hello \t\r\n"), "hello");
    assert_eq!(trim_str("hello"), "hello");
    assert_eq!(trim_str(" a b "), "a b");
    assert_eq!(trim_str(""), "");
    assert_eq!(trim_str(" \t "), "");
    assert_eq!(trim_str("\u{a0}x\u{3000}"), "x");
    assert_eq!(trim_str("\u{2003}é\u{2028}"), "é");
}

#[test]
fn trim_agrees_with_std_on_every_white_space_character() {
    let mut code: u32 = 0;
    while code < 0x3100 {
        if let Some(c) = char::from_u32(code) {
            assert_eq!(white_space(c), c.is_whitespace(), "U+{:04X}", code);
        }
        code += 1;
    }
}

#[test]
fn blank_is_empty_or_white_space_only() {
    assert!(blank(""));
    assert!(blank("   "));
    assert!(blank("\t\r\n"));
    assert!(!blank(" x "));
}

#[test]
fn strip_prefix_gives_the_rest() {
    assert_eq!(strip_prefix_str("data: {}", "data:"), Some(" {}"));
    assert_eq!(strip_prefix_str("data:", "data:"), Some(""));
    assert_eq!(strip_prefix_str("dat", "data:"), None);
    assert_eq!(strip_prefix_str(" data: x", "data:"), None);
    assert_eq!(strip_prefix_str("événement: é", "événement:"), Some(" é"));
}

#[test]
fn strings_are_compared_by_their_characters() {
    assert!(str_eq("[DONE]", "[DONE]"));
    assert!(!str_eq("[DONE]", "[DONE] "));
    assert!(!str_eq("abc", "abd"));
    assert!(str_eq("", ""));
    assert!(str_eq("héllo", "héllo"));
}

#[test]
fn characters_come_in_order() {
    assert_eq!(to_chars("aé\u{1F600}"), vec!['a', 'é', '\u{1F600}']);
    assert_eq!(to_chars(""), Vec::<char>::new());
}

#[test]
fn join_puts_the_separator_between_parts() {
    let parts = vec!["a".to_string(), "b".to_string(), "c".to_string()];
    assert_eq!(join_strings(&parts, "\n\n"), "a\n\nb\n\nc");
    assert_eq!(join_strings(&vec!["only".to_string()], ", "), "only");
    assert_eq!(join_strings(&Vec::new(), ", "), "");
    assert_eq!(join_strings(&vec!["".to_string(), "".to_string()], "-"), "-");
}

#[test]
fn concat_puts_texts_in_a_row() {
    assert_eq!(concat2("ab", "cd"), "abcd");
    assert_eq!(concat3("a", "", "c"), "ac");
}

#[test]
fn decimal_writes_numbers_without_leading_zeros() {
    assert_eq!(decimal_string(0), "0");
    assert_eq!(decimal_string(7), "7");
    assert_eq!(decimal_string(10), "10");
    assert_eq!(decimal_string(1024), "1024");
    assert_eq!(decimal_string(9_876_543_210), "9876543210");
    assert_eq!(decimal_string(usize::MAX), format!("{}", usize::MAX));
}

#[test]
fn parse_reads_every_kind_of_value() {
    assert_eq!(json("null"), Json::Null);
    assert_eq!(json("true"), Json::Bool(true));
    assert_eq!(json("14"), Json::Number(JsonNumber::PosInt(14)));
    assert_eq!(json("-3"), Json::Number(JsonNumber::NegInt(-3)));
    assert_eq!(json("2.5"), Json::Number(JsonNumber::Real("2.5".to_string())));
    assert_eq!(json("\"hi\""), Json::String("hi".to_string()));
    assert_eq!(
        json("[1, \"x\"]"),
        Json::Array(vec![Json::Number(JsonNumber::PosInt(1)), Json::String("x".to_string())])
    );
    assert_eq!(
        json("{\"k\": [null]}"),
        Json::Object(vec![("k".to_string(), Json::Array(vec![Json::Null]))])
    );
}

#[test]
fn parse_reports_the_parser_message() {
    let err = Json::parse("{not json").unwrap_err();
    assert_eq!(err, "key must be a string at line 1 column 2");
    assert!(Json::parse("").is_err());
    assert!(Json::parse("[DONE]").is_err());
}

#[test]
fn to_text_writes_compact_json_with_sorted_keys() {
    let value = Json::Object(vec![
        ("b".to_string(), Json::Array(vec![Json::unsigned(1), Json::Null, Json::Bool(false)])),
        ("a".to_string(), Json::text("x\"y")),
    ]);
    assert_eq!(value.to_text(), "{\"a\":\"x\\\"y\",\"b\":[1,null,false]}");
}

#[test]
fn numbers_pass_through_unchanged() {
    for text in ["0", "18446744073709551615", "-9223372036854775808", "0.1", "1e+100", "-2.5"] {
        assert_eq!(json(text).to_text(), text);
    }
    assert_eq!(Json::Number(JsonNumber::Real("no number".to_string())).to_text(), "null");
    assert_eq!(Json::Number(JsonNumber::NegInt(5)).to_text(), "5");
}

#[test]
fn the_last_member_with_a_key_counts() {
    let value = Json::Object(vec![
        ("k".to_string(), Json::unsigned(1)),
        ("other".to_string(), Json::Null),
        ("k".to_string(), Json::unsigned(2)),
    ]);
    assert_eq!(value.get("k"), Some(&Json::unsigned(2)));
    assert_eq!(value.get("missing"), None);
    assert_eq!(value.to_text(), "{\"k\":2,\"other\":null}");
    assert_eq!(Json::Array(vec![]).get("k"), None);
}

#[test]
fn accessors_tell_the_kinds_apart() {
    assert_eq!(json("\"s\"").as_str(), Some("s"));
    assert_eq!(json("1").as_str(), None);
    assert_eq!(json("[1]").as_array().map(|a| a.len()), Some(1));
    assert_eq!(json("{}").as_array(), None);
    assert_eq!(json("7").as_u64(), Some(7));
    assert_eq!(json("18446744073709551615").as_u64(), Some(u64::MAX));
    assert_eq!(json("-7").as_u64(), None);
    assert_eq!(json("7.0").as_u64(), None);
    assert_eq!(json("\"7\"").as_u64(), None);
    assert_eq!(Json::Number(JsonNumber::NegInt(4)).as_u64(), Some(4));
}

#[test]
fn optional_accessors_chain() {
    let value = json("{\"error\": {\"message\": \"bad\", \"code\": 3}}");
    assert_eq!(get_str(get_field(value.get("error"), "message")), Some("bad"));
    assert_eq!(get_str(get_field(value.get("error"), "code")), None);
    assert_eq!(get_str(get_field(value.get("none"), "message")), None);
    assert_eq!(get_string(value.get("none")), "");
    assert_eq!(get_or_null(value.get("none")), Json::Null);
    assert_eq!(get_or_null(get_field(value.get("error"), "code")), Json::unsigned(3));
}

#[test]
fn clone_copies_the_whole_document() {
    let value = json("{\"a\": [1, {\"b\": [2.5, \"x\", null]}], \"c\": true}");
    assert_eq!(value.clone(), value);
}
