//! How a request shows the key.
use crate::llm::protocol::Protocol;
use crate::text;
use vstd::prelude::*;
use vstd::string::*;

verus! {

broadcast use {vstd::seq_lib::group_seq_properties, vstd::string::group_string_axioms};

/// The version of Anthropic's API. A request without it is refused.
pub const ANTHROPIC_VERSION: &'static str = "2023-06-01";

/// What the headers of a list hold.
pub open spec fn header_views(headers: Seq<(String, String)>) -> Seq<(Seq<char>, Seq<char>)> {
    headers.map_values(|header: (String, String)| (header.0@, header.1@))
}

/// The headers with which a protocol shows the key.
pub open spec fn auth_headers(protocol: Protocol, api_key: Seq<char>) -> Seq<
    (Seq<char>, Seq<char>),
> {
    match protocol {
        Protocol::OpenAiChat | Protocol::OpenAiResponses | Protocol::Jev => seq![
            ("Authorization"@, "Bearer "@ + api_key),
        ],
        Protocol::Claude => seq![
            ("x-api-key"@, api_key),
            ("anthropic-version"@, "2023-06-01"@),
        ],
        Protocol::Gemini | Protocol::GeminiInteractions => seq![("x-goog-api-key"@, api_key)],
    }
}

/// Appends a header.
pub(crate) fn add_header(headers: &mut Vec<(String, String)>, name: &str, value: &str)
    ensures
        header_views(final(headers)@) == header_views(old(headers)@).push((name@, value@)),
{
    let name = name.to_owned();
    let value = value.to_owned();
    headers.push((name, value));
    assert(header_views(headers@) =~= header_views(old(headers)@).push((name@, value@)));
}

/// Adds the headers with which a protocol shows the key. Asking a model and listing the
/// models go by the same rule.
pub fn apply_auth(headers: Vec<(String, String)>, protocol: Protocol, api_key: &str) -> (r: Vec<
    (String, String),
>)
    ensures
        header_views(r@) == header_views(headers@) + auth_headers(protocol, api_key@),
{
    let mut r = headers;
    match protocol {
        Protocol::OpenAiChat | Protocol::OpenAiResponses | Protocol::Jev => {
            add_header(&mut r, "Authorization", text::concat("Bearer ", api_key).as_str());
        },
        Protocol::Claude => {
            add_header(&mut r, "x-api-key", api_key);
            add_header(&mut r, "anthropic-version", ANTHROPIC_VERSION);
        },
        Protocol::Gemini | Protocol::GeminiInteractions => {
            add_header(&mut r, "x-goog-api-key", api_key);
        },
    }
    assert(header_views(r@) =~= header_views(headers@) + auth_headers(protocol, api_key@));
    r
}

} // verus!
