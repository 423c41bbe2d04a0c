//! What a tool answers once Stripe has replied, or has failed to.
use crate::json::JsonView;
use crate::leaves::{descend, Step};
use crate::request::{McpError, McpErrorView};
use crate::text::{decimal, integer_text, write_decimal};
use vstd::prelude::*;
use vstd::string::StringExecFns;

verus! {

/// The JSON value type of `serde_json`.
#[verifier::external_type_specification]
#[verifier::external_body]
pub struct ExValue(serde_json::Value);

/// The error type of `serde_json`.
#[verifier::external_type_specification]
#[verifier::external_body]
pub struct ExJsonError(serde_json::Error);

/// What a `serde_json::Value` holds.
pub uninterp spec fn value_tree(value: serde_json::Value) -> JsonView;

/// The value that `serde_json::from_str` reads from a text, if the text is JSON.
pub uninterp spec fn parsed_json(text: Seq<char>) -> Option<JsonView>;

/// The text that `serde_json::to_string_pretty` writes for a value.
pub uninterp spec fn pretty_json(value: JsonView) -> Seq<char>;

/// The key by which `serde_json` marks an object that stands for a text to be read.
pub const RAW_VALUE_KEY: &'static str = "$serde_json::private::RawValue";

/// How many arrays and objects may stand inside one another in a text that `serde_json`
/// reads.
pub const MAX_NESTING: usize = 127;

/// Whether a value that stands inside `depth` arrays and objects is plain: an integer if it
/// is a number, not too deep if it is an array or object, and without the key that
/// `serde_json` keeps for itself.
pub open spec fn plain_at(value: Option<JsonView>, depth: nat) -> bool {
    match value {
        Some(JsonView::Number(text)) => exists|n: int| text == #[trigger] integer_text(n),
        Some(JsonView::Array(_)) => depth < MAX_NESTING,
        Some(JsonView::Object(fields)) => depth < MAX_NESTING && !fields.contains_key(RAW_VALUE_KEY@),
        _ => true,
    }
}

/// Whether a value and all values inside it are plain.
pub open spec fn plain_value(value: JsonView) -> bool {
    forall|path: Seq<Step>| plain_at(#[trigger] descend(value, path), path.len())
}

/// `serde_json::from_str`, reading a `serde_json::Value`. Whether it succeeds, and what the
/// value then holds, is settled by the text alone. If the value is plain,
/// `serde_json::from_str` reads the same value again from what
/// `serde_json::to_string_pretty` writes for it. Nothing is said of other values: reading a
/// fraction or an exponent may miss the nearest double, an object that starts with
/// `RAW_VALUE_KEY` is replaced by what the text under that key holds, and a text with deeper
/// nesting is refused.
#[verifier::external_body]
fn parse_json(text: &str) -> (parsed: Result<serde_json::Value, serde_json::Error>)
    ensures
        match parsed {
            Ok(value) => parsed_json(text@) == Some(value_tree(value)) && (plain_value(value_tree(value))
                ==> parsed_json(pretty_json(value_tree(value))) == Some(value_tree(value))),
            Err(_) => parsed_json(text@) is None,
        },
{
    serde_json::from_str::<serde_json::Value>(text)
}

/// `serde_json::to_string_pretty`, writing a `serde_json::Value`. It fails only where a type
/// refuses to be written or a map has keys that are no strings, and neither is so of a
/// `Value`. What it writes is settled by what the value holds.
#[verifier::external_body]
fn print_json(value: &serde_json::Value) -> (printed: Result<String, serde_json::Error>)
    ensures
        match printed {
            Ok(text) => text@ == pretty_json(value_tree(*value)),
            Err(_) => false,
        },
{
    serde_json::to_string_pretty(value)
}

/// What a tool call comes to: the text for the client, marked as an error or not.
#[derive(Debug, PartialEq, Eq)]
pub struct CallToolResult {
    pub is_error: bool,
    pub text: String,
}

/// Whether a status is one of success, 200 to 299.
pub open spec fn success_status(status: u16) -> bool {
    200 <= status < 300
}

/// The pretty-printed form of a text that is JSON.
pub open spec fn printed_json(body: Seq<char>) -> Option<Seq<char>> {
    match parsed_json(body) {
        Some(value) => Some(pretty_json(value)),
        None => None,
    }
}

/// Whether a text that is JSON, if it holds a plain value, is the same JSON once it is
/// pretty-printed.
pub open spec fn print_keeps_json(body: Seq<char>) -> bool {
    match parsed_json(body) {
        Some(value) => plain_value(value) ==> parsed_json(pretty_json(value)) == Some(value),
        None => true,
    }
}

/// The form in which a body is shown: its pretty-printed form if it has one, else the
/// body itself.
pub open spec fn shown_body(body: Seq<char>, printed: Option<Seq<char>>) -> Seq<char> {
    match printed {
        Some(text) => text,
        None => body,
    }
}

/// The text of a tool result: the status on a line of its own, then the body.
pub open spec fn result_text(status: u16, shown: Seq<char>) -> Seq<char> {
    "HTTP "@ + decimal(status as nat) + "\n"@ + shown
}

/// What stands in for a body that could not be read.
pub open spec fn unread_body(error: Seq<char>) -> Seq<char> {
    "<failed to read response body: "@ + error + ">"@
}

/// Pretty-prints a text if it is JSON. If it holds a plain value, the printed text
/// is the same JSON.
pub fn print_if_json(body: &str) -> (printed: Option<String>)
    ensures
        printed.deep_view() == printed_json(body@),
        print_keeps_json(body@),
{
    match parse_json(body) {
        Ok(value) => match print_json(&value) {
            Ok(text) => Some(text),
            Err(_) => None,
        },
        Err(_) => None,
    }
}

/// The tool result for a reply with the given status and body, whose pretty-printed form is
/// `printed` if it has one.
pub fn tool_result(status: u16, body: String, printed: Option<String>) -> (result: CallToolResult)
    ensures
        result.text@ == result_text(status, shown_body(body@, printed.deep_view())),
        result.text@ == "HTTP "@ + decimal(status as nat) + "\n"@ + (match printed {
            Some(text) => text@,
            None => body@,
        }),
        result.is_error == !success_status(status),
        result.is_error <==> status < 200 || status > 299,
{
    let shown = match printed {
        Some(text) => text,
        None => body,
    };
    let mut text = "HTTP ".to_string();
    text.append(write_decimal(status as u64).as_str());
    text.append("\n");
    text.append(shown.as_str());
    CallToolResult { is_error: !(200 <= status && status < 300), text }
}

/// What follows an attempt to send a request: the status of the reply, whose body is to be
/// read next, or the error to answer with.
pub fn after_send(sent: Result<u16, String>) -> (next: Result<u16, McpError>)
    ensures
        match sent {
            Ok(status) => next == Ok::<u16, McpError>(status),
            Err(error) => next matches Err(answer) && answer@ == McpErrorView::InternalError(
                "request to Stripe failed: "@ + error@,
            ),
        },
{
    match sent {
        Ok(status) => Ok(status),
        Err(error) => {
            let mut message = "request to Stripe failed: ".to_string();
            message.append(error.as_str());
            Err(McpError::InternalError(message))
        },
    }
}

/// What follows an attempt to read the body of a reply: the tool result. It shows the body
/// pretty-printed if that is JSON, and printing keeps what it says if its value is plain. A
/// body that could not be read is replaced by a notice, which is shown as it is.
pub fn after_body(status: u16, read: Result<String, String>) -> (result: CallToolResult)
    ensures
        match read {
            Ok(body) => result.text@ == result_text(status, shown_body(body@, printed_json(body@)))
                && print_keeps_json(body@),
            Err(error) => result.text@ == result_text(status, unread_body(error@)),
        },
        result.text@ == "HTTP "@ + decimal(status as nat) + "\n"@ + (match read {
            Ok(body) => match parsed_json(body@) {
                Some(value) => pretty_json(value),
                None => body@,
            },
            Err(error) => "<failed to read response body: "@ + error@ + ">"@,
        }),
        result.is_error == !success_status(status),
        result.is_error <==> status < 200 || status > 299,
{
    match read {
        Ok(body) => {
            let printed = print_if_json(body.as_str());
            tool_result(status, body, printed)
        },
        Err(error) => {
            let mut notice = "<failed to read response body: ".to_string();
            notice.append(error.as_str());
            notice.append(">");
            tool_result(status, notice, None)
        },
    }
}

} // verus!
