//! The readable part of an API's error report.
use crate::json::Json;
use crate::text;
use vstd::prelude::*;
use vstd::string::*;

verus! {

broadcast use {vstd::seq_lib::group_seq_properties, vstd::string::group_string_axioms};

/// What an `error` value says: its text, or of an object the first of `message`, `status`
/// and `code` that it holds in a readable form.
pub open spec fn error_text(error: crate::json::JsonView) -> Option<Seq<char>> {
    match error {
        crate::json::JsonView::Text(text) => Some(text),
        crate::json::JsonView::Object(_) => match error.text_at("message"@) {
            Some(message) => Some(message),
            None => match error.text_at("status"@) {
                Some(status) => Some(status),
                None => match error.get("code"@) {
                    Some(code) => match code.unsigned() {
                        Some(code) => Some(text::decimal(code as nat)),
                        None => None,
                    },
                    None => None,
                },
            },
        },
        _ => None,
    }
}

/// The error that a reply reports under `error`, if it does.
pub open spec fn api_error(value: crate::json::JsonView) -> Option<Seq<char>> {
    match value.get("error"@) {
        Some(error) => error_text(error),
        None => None,
    }
}

/// The error that a reply reports, if it does. OpenAI writes `{"error":{"message"}}`,
/// Anthropic `{"type":"error","error":{..}}` and Gemini `{"error":{"code","message","status"}}`.
pub fn extract_api_error(value: &Json) -> (message: Option<String>)
    ensures
        text::opt_text(message) == api_error(value@),
{
    match value.get("error") {
        Some(error) => describe(error),
        None => None,
    }
}

/// What an `error` value says.
pub fn describe(error: &Json) -> (message: Option<String>)
    ensures
        text::opt_text(message) == error_text(error@),
{
    match error {
        Json::Text(text) => Some(text.clone()),
        Json::Object(_) => {
            if let Some(message) = error.str_at("message") {
                return Some(message.to_owned());
            }
            if let Some(status) = error.str_at("status") {
                return Some(status.to_owned());
            }
            match error.get("code") {
                Some(code) => match code.as_u64() {
                    Some(code) => Some(text::decimal_text(code)),
                    None => None,
                },
                None => None,
            }
        },
        _ => None,
    }
}

/// An error that an API reports, in words.
pub open spec fn api_error_text(label: Seq<char>, message: Seq<char>) -> Seq<char> {
    label + " API 返回错误: "@ + message
}

/// An error that an API reports, in words.
pub fn format_api_error(label: &str, message: &str) -> (r: String)
    ensures
        r@ == api_error_text(label@, message@),
{
    let mut r = text::concat(label, " API 返回错误: ");
    r.append(message);
    r
}

} // verus!
