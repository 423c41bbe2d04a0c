use stripe_mcp_server::request::McpError;
use stripe_mcp_server::response::{after_body, after_send, print_if_json, tool_result, MAX_NESTING};

#[test]
fn json_is_pretty_printed() {
    assert_eq!(print_if_json("{\"b\":1,\"a\":[true,null]}"), Some("{\n  \"a\": [\n    true,\n    null\n  ],\n  \"b\": 1\n}".to_string()));
    assert_eq!(print_if_json(" 1.50 "), Some("1.5".to_string()));
    assert_eq!(print_if_json("[]"), Some("[]".to_string()));
}

#[test]
fn printing_keeps_json() {
    for body in [
        "{\"b\":[1,-2,18446744073709551615],\"a\":{\"c\":null,\"d\":\"x\\n\\u0007\\\"\"}}",
        "[[[]],{},\"\",true,-9223372036854775808]",
        "0",
    ] {
        let printed = print_if_json(body);
        assert!(printed.is_some());
        let again = printed.as_ref().and_then(|text| print_if_json(text));
        assert_eq!(again, printed);
        let first: Option<serde_json::Value> = serde_json::from_str(body).ok();
        let second: Option<serde_json::Value> = printed.and_then(|text| serde_json::from_str(&text).ok());
        assert_eq!(first, second);
    }
}

#[test]
fn printing_keeps_json_down_to_the_deepest_nesting() {
    let nested = |depth: usize| format!("{}{}", "[".repeat(depth), "]".repeat(depth));
    let printed = print_if_json(&nested(MAX_NESTING));
    assert!(printed.is_some());
    assert_eq!(printed.as_ref().and_then(|text| print_if_json(text)), printed);
    assert_eq!(print_if_json(&nested(MAX_NESTING + 1)), None);
}

#[test]
fn other_text_is_not_printed() {
    for body in ["", "<html>", "{\"a\":}", "1 2", "{'a': 1}"] {
        assert_eq!(print_if_json(body), None);
    }
}

#[test]
fn a_result_has_the_status_first() {
    let result = tool_result(200, "raw".to_string(), Some("printed".to_string()));
    assert_eq!(result.text, "HTTP 200\nprinted");
    assert!(!result.is_error);
    let result = tool_result(404, "raw".to_string(), None);
    assert_eq!(result.text, "HTTP 404\nraw");
    assert!(result.is_error);
}

#[test]
fn success_is_two_hundred_to_two_hundred_ninety_nine() {
    for (status, is_error) in [(100, true), (199, true), (200, false), (204, false), (299, false), (300, true), (402, true), (500, true)] {
        assert_eq!(after_body(status, Ok(String::new())).is_error, is_error);
    }
}

#[test]
fn a_json_body_is_shown_pretty() {
    let result = after_body(200, Ok("{\"id\":\"cus_1\"}".to_string()));
    assert_eq!(result.text, "HTTP 200\n{\n  \"id\": \"cus_1\"\n}");
}

#[test]
fn a_raw_body_is_shown_as_it_came() {
    let result = after_body(502, Ok("Bad Gateway".to_string()));
    assert_eq!(result.text, "HTTP 502\nBad Gateway");
    assert!(result.is_error);
}

#[test]
fn a_body_that_cannot_be_read_is_replaced() {
    let result = after_body(200, Err("timed out".to_string()));
    assert_eq!(result.text, "HTTP 200\n<failed to read response body: timed out>");
    assert!(!result.is_error);
    let result = after_body(500, Err(String::new()));
    assert_eq!(result.text, "HTTP 500\n<failed to read response body: >");
    assert!(result.is_error);
}

#[test]
fn a_request_that_cannot_be_sent_is_an_internal_error() {
    assert_eq!(
        after_send(Err("no route".to_string())),
        Err(McpError::InternalError("request to Stripe failed: no route".to_string()))
    );
    assert_eq!(after_send(Ok(418)), Ok(418));
}
