//! What holds of how the format of a reply is told, and of what is said of a failure.
use super::shared::body::ReaderView;
use super::shared::http::{ReqwestErrorClass, TransportError, TransportView};
use super::shared::stream::{PrefixDecision, ResponseFormat};
use crate::json::JsonView;
use crate::text;
use vstd::prelude::*;
use vstd::string::*;

verus! {

broadcast use {vstd::seq_lib::group_seq_properties, vstd::string::group_string_axioms};

/// Whether all bytes are spaces, tabs, line feeds, form feeds or carriage returns.
pub open spec fn is_blank(bytes: Seq<u8>) -> bool {
    forall|i: int|
        0 <= i < bytes.len() ==> (#[trigger] bytes[i]) == 0x20 || bytes[i] == 0x9 || bytes[i] == 0xa
            || bytes[i] == 0xc || bytes[i] == 0xd
}

proof fn lemma_blank_comes_off(space: Seq<u8>, rest: Seq<u8>)
    requires
        is_blank(space),
        rest.len() > 0 ==> !super::shared::stream::is_ascii_space(rest[0]),
    ensures
        super::shared::stream::trim_ascii_start(space + rest) == rest,
    decreases space.len(),
{
    if space.len() == 0 {
        assert(space + rest =~= rest);
    } else {
        let less = space.skip(1);
        assert forall|i: int| 0 <= i < less.len() implies (#[trigger] less[i]) == 0x20 || less[i]
            == 0x9 || less[i] == 0xa || less[i] == 0xc || less[i] == 0xd by {
            assert(less[i] == space[i + 1]);
        }
        lemma_blank_comes_off(less, rest);
        assert((space + rest)[0] == space[0]);
        assert((space + rest).skip(1) =~= less + rest);
    }
}

/// The bytes `data:`, `event:`, `id:` or `retry:`, with which a line of an event stream
/// begins.
pub open spec fn begins_line(bytes: Seq<u8>) -> bool {
    ||| seq![0x64u8, 0x61u8, 0x74u8, 0x61u8, 0x3au8].is_prefix_of(bytes)
    ||| seq![0x65u8, 0x76u8, 0x65u8, 0x6eu8, 0x74u8, 0x3au8].is_prefix_of(bytes)
    ||| seq![0x69u8, 0x64u8, 0x3au8].is_prefix_of(bytes)
    ||| seq![0x72u8, 0x65u8, 0x74u8, 0x72u8, 0x79u8, 0x3au8].is_prefix_of(bytes)
}

proof fn lemma_markers(bytes: Seq<u8>)
    ensures
        begins_line(bytes) ==> super::shared::stream::begins_with_marker(bytes) && bytes.len() > 0
            && (bytes[0] == 0x64 || bytes[0] == 0x65 || bytes[0] == 0x69 || bytes[0] == 0x72),
        bytes.len() > 0 && super::shared::stream::begins_with_marker(bytes) ==> bytes[0] == 0x64
            || bytes[0] == 0x65 || bytes[0] == 0x69 || bytes[0] == 0x72,
        bytes.len() > 0 && super::shared::stream::may_become_marker(bytes) ==> bytes[0] == 0x64
            || bytes[0] == 0x65 || bytes[0] == 0x69 || bytes[0] == 0x72,
{
    let markers = super::shared::stream::sse_markers();
    assert(markers[0] =~= seq![0x64u8, 0x61u8, 0x74u8, 0x61u8, 0x3au8]);
    assert(markers[1] =~= seq![0x65u8, 0x76u8, 0x65u8, 0x6eu8, 0x74u8, 0x3au8]);
    assert(markers[2] =~= seq![0x69u8, 0x64u8, 0x3au8]);
    assert(markers[3] =~= seq![0x72u8, 0x65u8, 0x74u8, 0x72u8, 0x79u8, 0x3au8]);
    if begins_line(bytes) {
        assert(markers[0].is_prefix_of(bytes) || markers[1].is_prefix_of(bytes)
            || markers[2].is_prefix_of(bytes) || markers[3].is_prefix_of(bytes));
    }
    if bytes.len() > 0 && super::shared::stream::begins_with_marker(bytes) {
        let m = choose|m: int| 0 <= m < 4 && (#[trigger] markers[m]).is_prefix_of(bytes);
        assert(bytes.subrange(0, markers[m].len() as int)[0] == bytes[0]);
    }
    if begins_line(bytes) {
        let m = choose|m: int| 0 <= m < 4 && (#[trigger] markers[m]).is_prefix_of(bytes);
        assert(bytes.subrange(0, markers[m].len() as int)[0] == bytes[0]);
    }
    if bytes.len() > 0 && super::shared::stream::may_become_marker(bytes) {
        let m = choose|m: int|
            0 <= m < 4 && bytes.len() < (#[trigger] markers[m]).len() && bytes.is_prefix_of(
                markers[m],
            );
        assert(markers[m].subrange(0, bytes.len() as int)[0] == bytes[0]);
    }
}

/// The first bytes of a body tell its format, behind a byte order mark and blanks: a brace or
/// a bracket is JSON, a colon or the name of a field is a stream of events. More bytes are
/// needed while there are only blanks, and a body that starts with anything else is neither.
pub proof fn law_first_bytes_tell_the_format(marked: bool, space: Seq<u8>, rest: Seq<u8>)
    requires
        is_blank(space),
    ensures
        ({
            let body = if marked {
                seq![0xefu8, 0xbbu8, 0xbfu8] + (space + rest)
            } else {
                space + rest
            };
            let decision = super::shared::stream::decision(body);
            &&& rest.len() > 0 && (rest[0] == 0x7b || rest[0] == 0x5b) ==> decision
                == PrefixDecision::Detected(ResponseFormat::Json)
            &&& rest.len() > 0 && rest[0] == 0x3a || begins_line(rest) ==> decision
                == PrefixDecision::Detected(ResponseFormat::Sse)
            &&& rest.len() == 0 ==> decision == PrefixDecision::NeedMore
            &&& rest.len() > 0 && !(seq![
                0x7bu8,
                0x5bu8,
                0x3au8,
                0x64u8,
                0x65u8,
                0x69u8,
                0x72u8,
                0x20u8,
                0x9u8,
                0xau8,
                0xcu8,
                0xdu8,
                0xefu8,
            ].contains(rest[0])) ==> decision == PrefixDecision::NoMatch
        }),
{
    let bom = seq![0xefu8, 0xbbu8, 0xbfu8];
    let inner = space + rest;
    let body = if marked {
        bom + inner
    } else {
        inner
    };
    lemma_markers(rest);
    let others = seq![
        0x7bu8,
        0x5bu8,
        0x3au8,
        0x64u8,
        0x65u8,
        0x69u8,
        0x72u8,
        0x20u8,
        0x9u8,
        0xau8,
        0xcu8,
        0xdu8,
        0xefu8,
    ];
    assert(others[0] == 0x7b && others[1] == 0x5b && others[2] == 0x3a && others[3] == 0x64
        && others[4] == 0x65 && others[5] == 0x69 && others[6] == 0x72 && others[7] == 0x20
        && others[8] == 0x9 && others[9] == 0xa && others[10] == 0xc && others[11] == 0xd
        && others[12] == 0xef);
    if marked {
        assert(body.subrange(0, 3) =~= super::shared::stream::bom());
        assert(super::shared::stream::bom().is_prefix_of(body));
        assert(body.skip(3) =~= inner);
    } else if rest.len() == 0 || rest[0] != 0xef {
        assert(inner.len() > 0 ==> inner[0] != 0xef) by {
            if space.len() > 0 {
                assert(inner[0] == space[0]);
            } else if rest.len() > 0 {
                assert(inner[0] == rest[0]);
            }
        }
        if super::shared::stream::bom().is_prefix_of(body) {
            assert(body.subrange(0, 3)[0] == body[0]);
        }
        if 0 < body.len() < 3 && body.is_prefix_of(super::shared::stream::bom()) {
            assert(super::shared::stream::bom().subrange(0, body.len() as int)[0] == body[0]);
        }
    }
    if rest.len() == 0 || !super::shared::stream::is_ascii_space(rest[0]) {
        lemma_blank_comes_off(space, rest);
    }
}

/// A content type is told by its name, whatever the case of its letters, the white space
/// around it and the parameters behind it: an event stream, JSON, or a kind of JSON. Any other
/// tells nothing.
pub proof fn law_content_type_tells_the_format(
    before: Seq<char>,
    name: Seq<char>,
    after: Seq<char>,
    parameters: Option<Seq<char>>,
)
    requires
        forall|i: int| 0 <= i < before.len() ==> text::is_space(#[trigger] before[i]),
        forall|i: int| 0 <= i < after.len() ==> text::is_space(#[trigger] after[i]),
        name.len() > 0,
        !text::is_space(name[0]),
        !text::is_space(name.last()),
        !(before + name + after).contains(';'),
    ensures
        ({
            let value = match parameters {
                Some(more) => (before + name + after).push(';') + more,
                None => before + name + after,
            };
            let format = super::shared::stream::format_of_header(Some(value));
            let lowered = text::lower(name);
            let json = lowered == "application/json"@ || ("application/"@.is_prefix_of(lowered)
                && "+json"@.is_suffix_of(lowered));
            &&& lowered == "text/event-stream"@ ==> format == Some(ResponseFormat::Sse)
            &&& lowered != "text/event-stream"@ && json ==> format == Some(ResponseFormat::Json)
            &&& lowered != "text/event-stream"@ && !json ==> format is None
        }),
        super::shared::stream::format_of_header(None) is None,
{
    let all = before + name + after;
    text::law_trim(before, name, after);
    match parameters {
        Some(more) => {
            text::law_before_and_behind(all, ';', more);
        },
        None => {
            text::law_before_and_behind(all, ';', all);
        },
    }
}

/// A list of encodings is one that cannot be read if one of them is: each that is not empty
/// and not `identity`, whatever the case of its letters and the white space around it.
pub proof fn law_encodings_are_told(
    before: Seq<char>,
    name: Seq<char>,
    after: Seq<char>,
    tail: Seq<char>,
)
    requires
        forall|i: int| 0 <= i < before.len() ==> text::is_space(#[trigger] before[i]),
        forall|i: int| 0 <= i < after.len() ==> text::is_space(#[trigger] after[i]),
        name.len() > 0 ==> !text::is_space(name[0]) && !text::is_space(name.last()),
        !(before + name + after).contains(','),
    ensures
        ({
            let head = before + name + after;
            let foreign = name.len() > 0 && text::lower(name) != text::lower("identity"@);
            &&& super::shared::stream::unsupported_encoding(Some(head)) == foreign
            &&& super::shared::stream::unsupported_encoding(Some(head.push(',') + tail)) == (foreign
                || super::shared::stream::unsupported_encoding(Some(tail)))
        }),
        !super::shared::stream::unsupported_encoding(None),
{
    let head = before + name + after;
    text::law_trim(before, name, after);
    text::law_split(head, ',', tail);
    let one = seq![head];
    let rest = text::split(tail, ',');
    let all = one + rest;
    assert(one[0] == head);
    if super::shared::stream::any_foreign(all) {
        let i = choose|i: int|
            0 <= i < all.len() && super::shared::stream::foreign_encoding(#[trigger] all[i]);
        if i > 0 {
            assert(rest[i - 1] == all[i]);
        }
    }
    if super::shared::stream::any_foreign(rest) {
        let i = choose|i: int|
            0 <= i < rest.len() && super::shared::stream::foreign_encoding(#[trigger] rest[i]);
        assert(all[i + 1] == rest[i]);
    }
    if name.len() > 0 && text::lower(name) != text::lower("identity"@) {
        assert(super::shared::stream::foreign_encoding(all[0]));
        assert(super::shared::stream::foreign_encoding(one[0]));
    }
}

/// Where the first bytes do not tell the format, the content type does, unless the body is
/// encoded in a way that cannot be read; where it does not either, the body is refused. More
/// bytes are waited for only up to eight kibibytes.
pub proof fn law_content_type_decides_at_last(
    r: ReaderView,
    chunk: Seq<u8>,
    label: Seq<char>,
    api_key: Seq<char>,
    max: usize,
)
    requires
        r.wf(),
        r.json is None,
    ensures
        ({
            let all = r.chunks.flatten() + chunk;
            let seen = if all.len() > 8192 {
                all.take(8192)
            } else {
                all
            };
            let decision = super::shared::stream::decision(seen);
            let format = super::shared::stream::format_of_header(r.content_type);
            let readable = !super::shared::stream::unsupported_encoding(r.content_encoding);
            let (after, step) = r.next(Some(chunk), label, api_key, max);
            let (end, last) = r.next(None, label, api_key, max);
            let open = decision == PrefixDecision::NoMatch || (decision == PrefixDecision::NeedMore
                && all.len() >= 8192);
            &&& decision == PrefixDecision::Detected(ResponseFormat::Sse) ==> step is Sse
            &&& decision == PrefixDecision::Detected(ResponseFormat::Json) ==> after.json is Some
            &&& decision == PrefixDecision::NeedMore && all.len() < 8192 ==> step is More
                && after.json is None
            &&& open && readable && format == Some(ResponseFormat::Sse) ==> step is Sse
            &&& open && readable && format == Some(ResponseFormat::Json) ==> after.json is Some
            &&& open && (!readable || format is None) ==> step is Failed
            &&& readable && format == Some(ResponseFormat::Sse) ==> last is Sse
            &&& readable && format == Some(ResponseFormat::Json) ==> end.json is Some
            &&& !readable || format is None ==> last is Failed
        }),
{
    let chunks = r.chunks.push(chunk);
    r.chunks.lemma_flatten_push(chunk);
    assert(chunks.flatten() == r.chunks.flatten() + chunk);
}

/// A preview is the start of the message without secrets, up to its length, and an ellipsis
/// shows that there is more.
pub proof fn law_preview_is_the_start(message: Seq<char>, api_key: Seq<char>, max: nat)
    ensures
        ({
            let safe = super::shared::http::redacted(message, api_key);
            let shown = super::shared::http::preview(message, api_key, max);
            &&& safe.len() <= max ==> shown == safe
            &&& safe.len() > max ==> shown == safe.take(max as int).push('…')
        }),
{
}

/// Where a key stands in a message it is replaced by a mark, and nothing else is changed.
pub proof fn law_key_is_marked(head: Seq<char>, key: Seq<char>, tail: Seq<char>)
    requires
        key.len() > 0,
        forall|i: int| 0 <= i < head.len() ==> !text::occurs_at(head + key + tail, key, i),
        !text::contains(head + key + tail, "Bearer "@ + key),
        !text::contains(tail, key),
    ensures
        super::shared::http::secrets_redacted(head + key + tail, key) == head + "[REDACTED]"@ + tail,
{
    let s = head + key + tail;
    text::law_replace(head, "Bearer "@ + key, s, "Bearer [REDACTED]"@);
    text::law_replace(head, key, tail, "[REDACTED]"@);
}

/// Whether a URL is over at a character: at white space, quotes, closing brackets, semicolons
/// and angle brackets.
pub open spec fn is_end(c: char) -> bool {
    text::is_space(c) || seq!['"', '\'', '`', ')', ']', '}', ';', '<', '>'].contains(c)
}

proof fn lemma_end(c: char)
    ensures
        is_end(c) == super::shared::http::ends_url(c),
{
    let ends = seq!['"', '\'', '`', ')', ']', '}', ';', '<', '>'];
    assert(ends[0] == '"' && ends[1] == '\'' && ends[2] == '`' && ends[3] == ')' && ends[4] == ']'
        && ends[5] == '}' && ends[6] == ';' && ends[7] == '<' && ends[8] == '>');
}

proof fn lemma_url_end(s: Seq<char>, from: int, end: int)
    requires
        0 <= from <= end <= s.len(),
        forall|i: int| from <= i < end ==> !super::shared::http::ends_url(#[trigger] s[i]),
        end < s.len() ==> super::shared::http::ends_url(s[end]),
    ensures
        super::shared::http::url_end(s, from) == end,
    decreases end - from,
{
    if from < end {
        assert(!super::shared::http::ends_url(s[from]));
        lemma_url_end(s, from + 1, end);
    }
}

proof fn lemma_url_end_skip(s: Seq<char>, at: int, i: int)
    requires
        0 <= at <= s.len(),
        0 <= i,
        at + i <= s.len(),
    ensures
        super::shared::http::url_end(s, at + i) == at + super::shared::http::url_end(s.skip(at), i),
    decreases s.len() - at - i,
{
    if at + i < s.len() && !super::shared::http::ends_url(s[at + i]) {
        lemma_url_end_skip(s, at, i + 1);
    }
}

proof fn lemma_urls_skip(s: Seq<char>, at: int, i: int)
    requires
        0 <= at <= s.len(),
        0 <= i,
        at + i <= s.len(),
    ensures
        super::shared::http::urls_redacted_from(s, at + i)
            == super::shared::http::urls_redacted_from(s.skip(at), i),
    decreases s.len() - at - i,
{
    let rest = s.skip(at);
    text::lemma_find_skip(s, "http://"@, at, i);
    text::lemma_find_skip(s, "https://"@, at, i);
    text::lemma_find_from(rest, "http://"@, i);
    text::lemma_find_from(rest, "https://"@, i);
    match super::shared::http::url_start(rest, i) {
        Some(start) => {
            lemma_url_end_skip(s, at, start);
            let end = super::shared::http::url_end(rest, start);
            assert(rest.subrange(i, start) =~= s.subrange(at + i, at + start));
            if i <= start < end <= rest.len() {
                lemma_urls_skip(s, at, end);
            } else {
                assert(rest.skip(i) =~= s.skip(at + i));
            }
        },
        None => {
            assert(rest.skip(i) =~= s.skip(at + i));
        },
    }
}

/// A URL in a message is replaced by a mark, from its start up to the character that ends it;
/// what is before it stays, and what is behind it is searched on.
pub proof fn law_url_is_marked(head: Seq<char>, url: Seq<char>, tail: Seq<char>)
    requires
        "http://"@.is_prefix_of(url) || "https://"@.is_prefix_of(url),
        forall|i: int| 0 <= i < url.len() ==> !is_end(#[trigger] url[i]),
        tail.len() > 0 ==> is_end(tail[0]),
        forall|i: int|
            0 <= i < head.len() ==> !text::occurs_at(head + url + tail, "http://"@, i)
                && !text::occurs_at(head + url + tail, "https://"@, i),
    ensures
        super::shared::http::urls_redacted(head + url + tail) == head + "[URL REDACTED]"@
            + super::shared::http::urls_redacted(tail),
{
    let s = head + url + tail;
    let at = head.len() as int;
    let end = at + url.len();
    reveal_strlit("http://");
    reveal_strlit("https://");
    if "http://"@.is_prefix_of(url) {
        assert(s.subrange(at, at + 7) =~= url.subrange(0, 7));
        assert(text::occurs_at(s, "http://"@, at));
    } else {
        assert(s.subrange(at, at + 8) =~= url.subrange(0, 8));
        assert(text::occurs_at(s, "https://"@, at));
    }
    text::lemma_find_from(s, "http://"@, 0);
    text::lemma_find_from(s, "https://"@, 0);
    assert(super::shared::http::url_start(s, 0) == Some(at));
    assert forall|i: int| at <= i < end implies !super::shared::http::ends_url(
        #[trigger] s[i],
    ) by {
        assert(s[i] == url[i - at]);
        lemma_end(s[i]);
    }
    if end < s.len() {
        assert(s[end] == tail[0]);
        lemma_end(s[end]);
    }
    lemma_url_end(s, at, end);
    assert(s.subrange(0, at) =~= head);
    assert(s.skip(end) =~= tail);
    lemma_urls_skip(s, end, 0);
}

/// A failure of the transport is of the first of these classes that it names: a timeout, the
/// connection, the request, the decoding, the body.
pub proof fn law_failures_are_classed(error: TransportError)
    ensures
        error.timeout ==> error@.class is Timeout,
        !error.timeout && error.connect ==> error@.class is Connect,
        !error.timeout && !error.connect && (error.builder || error.request)
            ==> error@.class is Request,
        !error.timeout && !error.connect && !error.builder && !error.request && error.decode
            ==> error@.class is Decode,
        !error.timeout && !error.connect && !error.builder && !error.request && !error.decode
            && error.body ==> error@.class is ResponseBody,
        !error.timeout && !error.connect && !error.builder && !error.request && !error.decode
            && !error.body ==> error@.class is Other,
{
}

/// The messages of a chain of errors without secrets, from the first to the last, with arrows
/// between them.
pub open spec fn chain_in_order(messages: Seq<Seq<char>>, api_key: Seq<char>) -> Seq<char>
    decreases messages.len(),
{
    if messages.len() == 0 {
        seq![]
    } else if messages.len() == 1 {
        super::shared::http::redacted(messages[0], api_key)
    } else {
        super::shared::http::redacted(messages[0], api_key) + " -> "@ + chain_in_order(
            messages.skip(1),
            api_key,
        )
    }
}

pub(crate) proof fn lemma_chain(messages: Seq<Seq<char>>, api_key: Seq<char>)
    ensures
        super::shared::http::error_chain(messages, api_key) == chain_in_order(messages, api_key),
    decreases messages.len(),
{
    let safe = messages.map_values(
        |message: Seq<char>| super::shared::http::redacted(message, api_key),
    );
    if messages.len() > 1 {
        lemma_chain(messages.skip(1), api_key);
        text::law_join_from_the_front(safe, " -> "@);
        assert(safe.skip(1) =~= messages.skip(1).map_values(
            |message: Seq<char>| super::shared::http::redacted(message, api_key),
        ));
    }
}

/// What is said of a failure of the transport: what was being done, the class of the failure
/// in brackets, and all messages of the error without secrets in their order.
pub proof fn law_failures_are_told(context: Seq<char>, error: TransportView, api_key: Seq<char>)
    ensures
        super::shared::http::transport_text(context, error, api_key) == context + " ["@ + (
        match error.class {
            ReqwestErrorClass::Timeout => "超时"@,
            ReqwestErrorClass::Connect => "连接"@,
            ReqwestErrorClass::Request => "请求构造/发送"@,
            ReqwestErrorClass::ResponseBody => "响应体"@,
            ReqwestErrorClass::Decode => "响应解码"@,
            ReqwestErrorClass::Other => "其他"@,
        }) + "]: "@ + chain_in_order(error.messages, api_key),
{
    lemma_chain(error.messages, api_key);
}

/// What is said of a request that was refused: the status, and the error that the service
/// reports, or else what the body begins with.
pub proof fn law_refusals_are_told(
    code: u16,
    body: Seq<char>,
    label: Seq<char>,
    api_key: Seq<char>,
    value: JsonView,
    error: JsonView,
    message: Seq<char>,
)
    ensures
        ({
            let said = super::shared::stream::refusal_text(code, body, label, api_key);
            let start = label + " 请求失败 (HTTP "@ + text::decimal(code as nat) + " "@
                + super::shared::stream::status_reason(code) + "): "@;
            &&& crate::json::json_of_text(body) == Ok::<JsonView, Seq<char>>(value) && value.get(
                "error"@,
            ) == Some(error) && super::replies::says(error, message) ==> said == start + message
            &&& crate::json::json_of_text(body) is Err ==> said == start
                + super::shared::http::preview(body, api_key, 300)
            &&& crate::json::json_of_text(body) == Ok::<JsonView, Seq<char>>(value)
                && super::replies::without_error(value) ==> said == start
                + super::shared::http::preview(body, api_key, 300)
        }),
{
    let start = label + " 请求失败 (HTTP "@ + text::decimal(code as nat) + " "@
        + super::shared::stream::status_reason(code) + "): "@;
    let said = super::shared::stream::refusal_text(code, body, label, api_key);
    assert(start =~= label + " 请求失败 (HTTP "@ + super::shared::stream::status_line(code)
        + "): "@);
}

/// What is said of a body whose format cannot be told: that it may be encoded, where it is in
/// a way that cannot be read, what the headers say, why nothing more was looked at, and what
/// the body begins with, each on one line and without secrets.
pub proof fn law_unknown_formats_are_told(
    content_type: Option<Seq<char>>,
    content_encoding: Option<Seq<char>>,
    prefix: Seq<u8>,
    stop: super::shared::stream::SniffStop,
    api_key: Seq<char>,
)
    ensures
        ({
            let format = super::shared::stream::format_of_header(content_type);
            let encoded = super::shared::stream::unsupported_encoding(content_encoding);
            let r = super::shared::stream::fallback_format(
                content_type,
                content_encoding,
                prefix,
                stop,
                api_key,
            );
            let missing = "<缺失>"@;
            let named = match content_type {
                Some(value) => value,
                None => missing,
            };
            let coded = match content_encoding {
                Some(value) => value,
                None => missing,
            };
            let why = match stop {
                super::shared::stream::SniffStop::Mismatch => "正文前缀不匹配 JSON/SSE"@,
                super::shared::stream::SniffStop::EndOfResponse => "响应已结束"@,
                super::shared::stream::SniffStop::Limit => "已达到 8 KiB 探测上限"@,
            };
            &&& format is Some && !encoded ==> r == Ok::<ResponseFormat, Seq<char>>(format->0)
            &&& format is None || encoded ==> r == Err::<ResponseFormat, Seq<char>>(
                (if encoded {
                    "无法识别 LLM 响应格式，响应可能仍使用不支持的 Content-Encoding"@
                } else {
                    "无法识别 LLM 响应格式"@
                }) + "; Content-Type="@ + super::shared::stream::escaped(
                    super::shared::http::preview(named, api_key, 100),
                ) + "; Content-Encoding="@ + super::shared::stream::escaped(
                    super::shared::http::preview(coded, api_key, 100),
                ) + "; "@ + why + "; 响应摘要="@ + super::shared::stream::escaped(
                    super::shared::http::preview(
                        super::shared::stream::lossy(prefix),
                        api_key,
                        200,
                    ),
                ),
            )
        }),
{
}

/// Escaping a text is escaping each of its characters, one after the other.
pub proof fn law_characters_are_escaped_one_by_one(head: Seq<char>, tail: Seq<char>, c: char)
    ensures
        super::shared::stream::escaped(head + tail) == super::shared::stream::escaped(head)
            + super::shared::stream::escaped(tail),
        super::shared::stream::escaped(seq![c]) == super::shared::stream::escaped_char(c),
    decreases tail.len(),
{
    reveal_with_fuel(super::shared::stream::escaped, 2);
    assert(super::shared::stream::escaped(seq![c]) =~= super::shared::stream::escaped_char(c));
    if tail.len() == 0 {
        assert(head + tail =~= head);
        assert(super::shared::stream::escaped(head) + super::shared::stream::escaped(tail)
            =~= super::shared::stream::escaped(head));
    } else {
        law_characters_are_escaped_one_by_one(head, tail.drop_last(), c);
        assert((head + tail).drop_last() =~= head + tail.drop_last());
        assert(super::shared::stream::escaped(head + tail) =~= super::shared::stream::escaped(head)
            + super::shared::stream::escaped(tail));
    }
}

} // verus!
