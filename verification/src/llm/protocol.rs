//! The protocols, and the addresses at which a service speaks them.
use super::providers::jev::names_jev;
use super::url::{parse_url, percent_encode, UrlParts};
use crate::text;
use vstd::prelude::*;
use vstd::string::*;

verus! {

broadcast use {vstd::seq_lib::group_seq_properties, vstd::string::group_string_axioms};

/// The protocol that a configuration selects. Each has its own endpoint, authentication,
/// request body and events.
#[derive(Debug, Clone, Copy, PartialEq, Eq, Structural)]
pub enum Protocol {
    /// OpenAI Chat Completions, and the dialects that are compatible with it.
    OpenAiChat,
    /// OpenAI Responses.
    OpenAiResponses,
    /// Anthropic Messages.
    Claude,
    /// Gemini generateContent.
    Gemini,
    /// Gemini Interactions.
    GeminiInteractions,
    /// JEV structured decisions.
    Jev,
}

/// The protocols in the order in which they are offered.
pub open spec fn order() -> Seq<Protocol> {
    seq![
        Protocol::OpenAiChat,
        Protocol::OpenAiResponses,
        Protocol::Claude,
        Protocol::Gemini,
        Protocol::GeminiInteractions,
        Protocol::Jev,
    ]
}

/// Where in the order a protocol stands.
pub open spec fn rank(protocol: Protocol) -> int {
    match protocol {
        Protocol::OpenAiChat => 0,
        Protocol::OpenAiResponses => 1,
        Protocol::Claude => 2,
        Protocol::Gemini => 3,
        Protocol::GeminiInteractions => 4,
        Protocol::Jev => 5,
    }
}

/// The protocol behind this one, the first behind the last.
pub open spec fn next_of(protocol: Protocol) -> Protocol {
    order()[(rank(protocol) + 1) % 6]
}

/// The protocol before this one, the last before the first.
pub open spec fn previous_of(protocol: Protocol) -> Protocol {
    order()[(rank(protocol) + 5) % 6]
}

/// How a protocol is called.
pub open spec fn name_of(protocol: Protocol) -> Seq<char> {
    match protocol {
        Protocol::OpenAiChat => "Chat Completions"@,
        Protocol::OpenAiResponses => "Responses"@,
        Protocol::Claude => "Anthropic Messages"@,
        Protocol::Gemini => "Gemini"@,
        Protocol::GeminiInteractions => "Gemini Interactions"@,
        Protocol::Jev => "JEV"@,
    }
}

impl Default for Protocol {
    fn default() -> (protocol: Self)
        ensures
            protocol == Protocol::OpenAiChat,
    {
        Protocol::OpenAiChat
    }
}

impl Protocol {
    /// All protocols, in the order in which they are offered.
    pub const ALL: [Protocol; 6] = [
        Protocol::OpenAiChat,
        Protocol::OpenAiResponses,
        Protocol::Claude,
        Protocol::Gemini,
        Protocol::GeminiInteractions,
        Protocol::Jev,
    ];

    pub fn display_name(self) -> (name: &'static str)
        ensures
            name@ == name_of(self),
    {
        match self {
            Self::OpenAiChat => "Chat Completions",
            Self::OpenAiResponses => "Responses",
            Self::Claude => "Anthropic Messages",
            Self::Gemini => "Gemini",
            Self::GeminiInteractions => "Gemini Interactions",
            Self::Jev => "JEV",
        }
    }

    /// The protocol behind this one, the first behind the last.
    pub fn next(self) -> (protocol: Self)
        ensures
            protocol == next_of(self),
    {
        match self {
            Self::OpenAiChat => Self::OpenAiResponses,
            Self::OpenAiResponses => Self::Claude,
            Self::Claude => Self::Gemini,
            Self::Gemini => Self::GeminiInteractions,
            Self::GeminiInteractions => Self::Jev,
            Self::Jev => Self::OpenAiChat,
        }
    }

    /// The protocol before this one, the last before the first.
    pub fn previous(self) -> (protocol: Self)
        ensures
            protocol == previous_of(self),
    {
        match self {
            Self::OpenAiChat => Self::Jev,
            Self::OpenAiResponses => Self::OpenAiChat,
            Self::Claude => Self::OpenAiResponses,
            Self::Gemini => Self::Claude,
            Self::GeminiInteractions => Self::Gemini,
            Self::Jev => Self::GeminiInteractions,
        }
    }
}

/// JEV answers with a distribution over the options and has no switch for thinking.
pub open spec fn thinks(protocol: Protocol) -> bool {
    protocol != Protocol::Jev
}

/// Whether a protocol has a switch for thinking.
pub fn supports_thinking(protocol: Protocol) -> (r: bool)
    ensures
        r == thinks(protocol),
{
    protocol != Protocol::Jev
}

/// The address without the version segment `/v1` or `/v1beta` at its end.
pub open spec fn version_stripped(base: Seq<char>) -> Seq<char> {
    if "/v1beta"@.is_suffix_of(text::lower(base)) {
        base.take(base.len() - "/v1beta"@.len())
    } else if "/v1"@.is_suffix_of(text::lower(base)) {
        base.take(base.len() - "/v1"@.len())
    } else {
        base
    }
}

/// The part of a Gemini address before `/models/` and the given method.
pub open spec fn before_method(address: Seq<char>, method: Seq<char>) -> Option<Seq<char>> {
    match text::find(address, method) {
        Some(at) => match text::rfind(address.take(at), "/models/"@) {
            Some(models) => Some(address.take(models)),
            None => None,
        },
        None => None,
    }
}

/// The part of a Gemini address before `/models/` and the first of the known methods that
/// it names.
pub open spec fn before_model(address: Seq<char>) -> Option<Seq<char>> {
    match before_method(address, ":streamGenerateContent"@) {
        Some(base) => Some(base),
        None => match before_method(address, ":generateContent"@) {
            Some(base) => Some(base),
            None => before_method(address, ":countTokens"@),
        },
    }
}

/// The endpoint path with which an address ends, if it is a known one.
pub open spec fn endpoint_suffix(address: Seq<char>) -> Option<Seq<char>> {
    if "/chat/completions"@.is_suffix_of(text::lower(address)) {
        Some("/chat/completions"@)
    } else if "/responses"@.is_suffix_of(text::lower(address)) {
        Some("/responses"@)
    } else if "/messages"@.is_suffix_of(text::lower(address)) {
        Some("/messages"@)
    } else if "/systemone"@.is_suffix_of(text::lower(address)) {
        Some("/systemone"@)
    } else {
        None
    }
}

/// An address without the white space around it and the slashes at its end.
pub open spec fn tidy(url: Seq<char>) -> Seq<char> {
    text::trim_end_of(text::trim(url), '/')
}

/// The base of an address: what stands before a known endpoint and the version segment
/// next to it.
pub open spec fn base_of(url: Seq<char>) -> Seq<char> {
    let address = tidy(url);
    match before_model(address) {
        Some(base) => version_stripped(base),
        None => match endpoint_suffix(address) {
            Some(suffix) => version_stripped(address.take(address.len() - suffix.len())),
            None => address,
        },
    }
}

/// Whether a segment is a version: a `v`, at least one digit, and letters.
pub open spec fn is_version(segment: Seq<char>) -> bool {
    &&& segment.len() > 0
    &&& segment[0] == 'v' || segment[0] == 'V'
    &&& exists|k: int| version_split(segment, k)
}

/// Whether a segment has digits from its second place up to `k` and letters from there on.
pub open spec fn version_split(segment: Seq<char>, k: int) -> bool {
    &&& 1 < k <= segment.len()
    &&& forall|i: int| 1 <= i < k ==> text::is_digit(#[trigger] segment[i])
    &&& forall|i: int| k <= i < segment.len() ==> text::is_letter(#[trigger] segment[i])
}

/// Whether the last segment of an address is a version.
pub open spec fn has_version(base: Seq<char>) -> bool {
    is_version(text::after_last(base, '/'))
}

/// The version that a protocol takes where the address has none.
pub open spec fn usual_version(protocol: Protocol) -> Seq<char> {
    match protocol {
        Protocol::Gemini | Protocol::GeminiInteractions => "/v1beta"@,
        _ => "/v1"@,
    }
}

/// The base of an address with its version, or with the usual one where it has none.
pub open spec fn versioned(protocol: Protocol, url: Seq<char>) -> Seq<char> {
    if has_version(base_of(url)) {
        base_of(url)
    } else {
        base_of(url) + usual_version(protocol)
    }
}

/// What a protocol puts behind the versioned base to ask a model.
pub open spec fn endpoint_path(protocol: Protocol, model: Seq<char>) -> Seq<char> {
    match protocol {
        Protocol::OpenAiChat => "/chat/completions"@,
        Protocol::OpenAiResponses => "/responses"@,
        Protocol::Claude => "/messages"@,
        Protocol::Gemini => "/models/"@ + super::url::percent_encoded(
            vstd::utf8::encode_utf8(model),
        ) + ":streamGenerateContent?alt=sse"@,
        Protocol::GeminiInteractions => "/interactions"@,
        Protocol::Jev => "/systemone"@,
    }
}

/// Where a model is asked.
pub open spec fn endpoint_of(protocol: Protocol, url: Seq<char>, model: Seq<char>) -> Seq<char> {
    versioned(protocol, url) + endpoint_path(protocol, model)
}

/// The protocol that the parts of an address point to.
pub open spec fn protocol_of_parts(parts: Option<super::url::UrlView>) -> Protocol {
    match parts {
        Some(parts) => {
            let host = match parts.host {
                Some(host) => host,
                None => seq![],
            };
            let path = text::lower(text::trim_end_of(parts.path, '/'));
            if super::providers::jev::is_jev(parts) {
                Protocol::Jev
            } else if text::lower(host) == text::lower("generativelanguage.googleapis.com"@) {
                Protocol::Gemini
            } else if text::lower(host) == text::lower("api.anthropic.com"@)
                || "/messages"@.is_suffix_of(path) {
                Protocol::Claude
            } else if "/responses"@.is_suffix_of(path) {
                Protocol::OpenAiResponses
            } else {
                Protocol::OpenAiChat
            }
        },
        None => Protocol::OpenAiChat,
    }
}

/// The address without the version segment at its end.
fn strip_version_segment(base: &str) -> (r: String)
    ensures
        r@ == version_stripped(base@),
{
    let lowered = text::ascii_lowercase(base);
    let chars = text::chars_of(base);
    if text::finishes_with(lowered.as_str(), "/v1beta") {
        text::text_between(&chars, 0, chars.len() - text::chars_of("/v1beta").len())
    } else if text::finishes_with(lowered.as_str(), "/v1") {
        text::text_between(&chars, 0, chars.len() - text::chars_of("/v1").len())
    } else {
        base.to_owned()
    }
}

/// The part of a Gemini address before `/models/` and the given method.
fn cut_before_method(address: &str, method: &str) -> (r: Option<String>)
    ensures
        text::opt_text(r) == before_method(address@, method@),
{
    match text::position(address, method) {
        Some(at) => {
            let head = text::first_chars(address, at);
            match text::last_position(head.as_str(), "/models/") {
                Some(models) => {
                    assert(address@.take(at as int).take(models as int) =~= address@.take(
                        models as int,
                    ));
                    Some(text::first_chars(head.as_str(), models))
                },
                None => None,
            }
        },
        None => None,
    }
}

/// The part of an address before the given endpoint path, if it ends with that.
fn cut_endpoint(address: &str, lowered: &str, suffix: &str) -> (r: Option<String>)
    requires
        lowered@ == text::lower(address@),
    ensures
        match r {
            Some(base) => suffix@.is_suffix_of(lowered@) && base@ == address@.take(
                address@.len() - suffix@.len(),
            ),
            None => !suffix@.is_suffix_of(lowered@),
        },
{
    if text::finishes_with(lowered, suffix) {
        let chars = text::chars_of(address);
        Some(text::text_between(&chars, 0, chars.len() - text::chars_of(suffix).len()))
    } else {
        None
    }
}

/// Reduces an address to its base. A configuration may hold a full endpoint; the known
/// endpoint path and the version segment next to it are dropped.
pub fn normalize_base(url: &str) -> (base: String)
    ensures
        base@ == base_of(url@),
{
    let trimmed = text::trimmed(url);
    let tidied = text::trimmed_end_of(trimmed.as_str(), '/');
    let address = tidied.as_str();
    if let Some(base) = cut_before_method(address, ":streamGenerateContent") {
        return strip_version_segment(base.as_str());
    }
    if let Some(base) = cut_before_method(address, ":generateContent") {
        return strip_version_segment(base.as_str());
    }
    if let Some(base) = cut_before_method(address, ":countTokens") {
        return strip_version_segment(base.as_str());
    }
    let lowered = text::ascii_lowercase(address);
    if let Some(base) = cut_endpoint(address, lowered.as_str(), "/chat/completions") {
        return strip_version_segment(base.as_str());
    }
    if let Some(base) = cut_endpoint(address, lowered.as_str(), "/responses") {
        return strip_version_segment(base.as_str());
    }
    if let Some(base) = cut_endpoint(address, lowered.as_str(), "/messages") {
        return strip_version_segment(base.as_str());
    }
    if let Some(base) = cut_endpoint(address, lowered.as_str(), "/systemone") {
        return strip_version_segment(base.as_str());
    }
    tidied
}

/// Whether the last segment of an address is a version. A service need not be at `v1`; the
/// user's own version is kept.
pub fn has_version_segment(base: &str) -> (r: bool)
    ensures
        r == has_version(base@),
{
    let last = text::text_after_last(base, '/');
    let segment = text::chars_of(last.as_str());
    if segment.len() == 0 || (segment[0] != 'v' && segment[0] != 'V') {
        return false;
    }
    let mut k: usize = 1;
    while k < segment.len() && text::digit(segment[k])
        invariant
            1 <= k <= segment@.len(),
            forall|i: int| 1 <= i < k ==> text::is_digit(#[trigger] segment@[i]),
        decreases segment@.len() - k,
    {
        k += 1;
    }
    assert forall|j: int| version_split(segment@, j) implies j == k by {
        if j < k {
            assert(text::is_letter(segment@[j]));
            assert(text::is_digit(segment@[j]));
        } else if k < j {
            assert(text::is_digit(segment@[k as int]));
        }
    }
    if k == 1 {
        return false;
    }
    let mut i: usize = k;
    while i < segment.len()
        invariant
            1 < k <= i <= segment@.len(),
            segment@ == text::after_last(base@, '/'),
            forall|j: int| version_split(segment@, j) ==> j == k,
            forall|j: int| k <= j < i ==> text::is_letter(#[trigger] segment@[j]),
        decreases segment@.len() - i,
    {
        if !text::letter(segment[i]) {
            return false;
        }
        i += 1;
    }
    assert(version_split(segment@, k as int));
    true
}

/// The version that a protocol takes where the address has none.
fn default_version(protocol: Protocol) -> (r: &'static str)
    ensures
        r@ == usual_version(protocol),
{
    match protocol {
        Protocol::Gemini | Protocol::GeminiInteractions => "/v1beta",
        _ => "/v1",
    }
}

/// The base of an address with its version, or with the usual one where it has none.
pub fn versioned_base(protocol: Protocol, base_url: &str) -> (r: String)
    ensures
        r@ == versioned(protocol, base_url@),
{
    let base = normalize_base(base_url);
    if has_version_segment(base.as_str()) {
        base
    } else {
        text::concat(base.as_str(), default_version(protocol))
    }
}

/// Where a model is asked. Gemini names the model in the path.
pub fn endpoint(protocol: Protocol, base_url: &str, model: &str) -> (r: String)
    ensures
        r@ == endpoint_of(protocol, base_url@, model@),
{
    let mut r = versioned_base(protocol, base_url);
    let ghost base = r@;
    match protocol {
        Protocol::OpenAiChat => r.append("/chat/completions"),
        Protocol::OpenAiResponses => r.append("/responses"),
        Protocol::Claude => r.append("/messages"),
        Protocol::Gemini => {
            r.append("/models/");
            r.append(percent_encode(model).as_str());
            r.append(":streamGenerateContent?alt=sse");
            assert(r@ =~= base + endpoint_path(protocol, model@));
        },
        Protocol::GeminiInteractions => r.append("/interactions"),
        Protocol::Jev => r.append("/systemone"),
    }
    r
}

/// The protocol that an address points to, and its base. The protocol is read from the
/// address as it was given: the base no longer shows the endpoint.
pub fn resolve(base_url: &str) -> (r: (Protocol, String))
    ensures
        r.0 == protocol_of_parts(super::url::url_of(base_url@)),
        r.1@ == base_of(base_url@),
{
    (infer_protocol(base_url), normalize_base(base_url))
}

/// The protocol that the parts of an address point to.
pub fn infer_from_parts(parts: &Option<UrlParts>) -> (r: Protocol)
    ensures
        r == protocol_of_parts(super::url::parts_view(*parts)),
{
    let parts = match parts {
        Some(parts) => parts,
        None => {
            return Protocol::OpenAiChat;
        },
    };
    if names_jev(parts) {
        return Protocol::Jev;
    }
    let host = match &parts.host {
        Some(host) => host.as_str(),
        None => "",
    };
    proof {
        reveal_strlit("");
        assert(""@ =~= seq![]);
    }
    let trimmed = text::trimmed_end_of(parts.path.as_str(), '/');
    let path = text::ascii_lowercase(trimmed.as_str());
    if text::same_ignoring_case(host, "generativelanguage.googleapis.com") {
        return Protocol::Gemini;
    }
    if text::same_ignoring_case(host, "api.anthropic.com") || text::finishes_with(
        path.as_str(),
        "/messages",
    ) {
        return Protocol::Claude;
    }
    if text::finishes_with(path.as_str(), "/responses") {
        return Protocol::OpenAiResponses;
    }
    Protocol::OpenAiChat
}

/// The protocol that an address points to, be it a base or a full endpoint.
pub fn infer_protocol(base_url: &str) -> (r: Protocol)
    ensures
        r == protocol_of_parts(super::url::url_of(base_url@)),
{
    infer_from_parts(&parse_url(base_url))
}

} // verus!
