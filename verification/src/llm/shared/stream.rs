//! Telling a streamed reply from a whole one, and collecting it.
use crate::text;
use vstd::prelude::*;
use vstd::string::*;

verus! {

broadcast use {vstd::seq_lib::group_seq_properties, vstd::string::group_string_axioms};

/// How many bytes of a body are looked at to tell its format.
pub const MAX_RESPONSE_SNIFF_SIZE: usize = 8192;

#[derive(Debug, Clone, Copy, PartialEq, Eq, Structural)]
pub enum ResponseFormat {
    Sse,
    Json,
}

#[derive(Debug, Clone, Copy, PartialEq, Eq, Structural)]
pub enum PrefixDecision {
    Detected(ResponseFormat),
    NeedMore,
    NoMatch,
}

#[derive(Debug, Clone, Copy, PartialEq, Eq, Structural)]
pub enum SniffStop {
    Mismatch,
    EndOfResponse,
    Limit,
}

/// The UTF-8 byte order mark.
pub open spec fn bom() -> Seq<u8> {
    seq![0xefu8, 0xbbu8, 0xbfu8]
}

/// The field names with which a line of an event stream begins.
pub open spec fn sse_markers() -> Seq<Seq<u8>> {
    seq![
        seq!['d' as u8, 'a' as u8, 't' as u8, 'a' as u8, ':' as u8],
        seq!['e' as u8, 'v' as u8, 'e' as u8, 'n' as u8, 't' as u8, ':' as u8],
        seq!['i' as u8, 'd' as u8, ':' as u8],
        seq!['r' as u8, 'e' as u8, 't' as u8, 'r' as u8, 'y' as u8, ':' as u8],
    ]
}

pub open spec fn is_ascii_space(byte: u8) -> bool {
    byte == 0x20 || byte == 0x9 || byte == 0xa || byte == 0xc || byte == 0xd
}

/// The bytes without the ASCII white space at their start.
pub open spec fn trim_ascii_start(bytes: Seq<u8>) -> Seq<u8>
    decreases bytes.len(),
{
    if bytes.len() > 0 && is_ascii_space(bytes[0]) {
        trim_ascii_start(bytes.skip(1))
    } else {
        bytes
    }
}

/// Whether the bytes begin with one of the markers.
pub open spec fn begins_with_marker(body: Seq<u8>) -> bool {
    exists|m: int| 0 <= m < 4 && (#[trigger] sse_markers()[m]).is_prefix_of(body)
}

/// Whether the bytes may go on to one of the markers.
pub open spec fn may_become_marker(body: Seq<u8>) -> bool {
    exists|m: int|
        0 <= m < 4 && body.len() < (#[trigger] sse_markers()[m]).len() && body.is_prefix_of(
            sse_markers()[m],
        )
}

/// What the first bytes of a body behind mark and white space say of its format.
pub open spec fn signature(body: Seq<u8>) -> PrefixDecision {
    if body.len() == 0 {
        PrefixDecision::NeedMore
    } else if body[0] == '{' as u8 || body[0] == '[' as u8 {
        PrefixDecision::Detected(ResponseFormat::Json)
    } else if body[0] == ':' as u8 || begins_with_marker(body) {
        PrefixDecision::Detected(ResponseFormat::Sse)
    } else if may_become_marker(body) {
        PrefixDecision::NeedMore
    } else {
        PrefixDecision::NoMatch
    }
}

/// What the first bytes of a body say of its format.
pub open spec fn decision(prefix: Seq<u8>) -> PrefixDecision {
    if bom().is_prefix_of(prefix) {
        signature(trim_ascii_start(prefix.skip(3)))
    } else if 0 < prefix.len() < 3 && prefix.is_prefix_of(bom()) {
        PrefixDecision::NeedMore
    } else {
        signature(trim_ascii_start(prefix))
    }
}

/// The format that a `Content-Type` names.
pub open spec fn format_of_header(content_type: Option<Seq<char>>) -> Option<ResponseFormat> {
    match content_type {
        Some(value) => {
            let media_type = text::lower(text::trim(text::before(value, ';')));
            if media_type == "text/event-stream"@ {
                Some(ResponseFormat::Sse)
            } else if media_type == "application/json"@ || ("application/"@.is_prefix_of(media_type)
                && "+json"@.is_suffix_of(media_type)) {
                Some(ResponseFormat::Json)
            } else {
                None
            }
        },
        None => None,
    }
}

/// Whether an encoding is neither empty nor `identity`.
pub open spec fn foreign_encoding(encoding: Seq<char>) -> bool {
    text::trim(encoding).len() > 0 && text::lower(text::trim(encoding)) != text::lower(
        "identity"@,
    )
}

/// Whether one of the encodings of a list is a foreign one.
pub open spec fn any_foreign(encodings: Seq<Seq<char>>) -> bool {
    exists|i: int| 0 <= i < encodings.len() && foreign_encoding(#[trigger] encodings[i])
}

/// Whether a `Content-Encoding` names an encoding other than `identity`.
pub open spec fn unsupported_encoding(content_encoding: Option<Seq<char>>) -> bool {
    match content_encoding {
        Some(value) => any_foreign(text::split(value, ',')),
        None => false,
    }
}

/// What `char::escape_debug` writes for a character.
pub uninterp spec fn escaped_char(c: char) -> Seq<char>;

/// Calls `char::escape_debug`, whose outcome depends on the character alone. A line feed is
/// written as a backslash and an `n`, and no character is written with a line feed.
#[verifier::external_body]
fn escape_char(c: char) -> (r: String)
    ensures
        r@ == escaped_char(c),
        c == '\n' ==> r@ == "\\n"@,
        forall|i: int| 0 <= i < r@.len() ==> #[trigger] r@[i] != '\n',
{
    c.escape_debug().to_string()
}

/// What `String::from_utf8_lossy` makes of bytes.
pub uninterp spec fn lossy(bytes: Seq<u8>) -> Seq<char>;

/// Calls `String::from_utf8_lossy`: bytes that are UTF-8 are decoded, and what is made of
/// others depends on the bytes alone.
#[verifier::external_body]
pub(crate) fn lossy_text(bytes: &[u8]) -> (r: String)
    ensures
        r@ == lossy(bytes@),
        vstd::utf8::valid_utf8(bytes@) ==> r@ == vstd::utf8::decode_utf8(bytes@),
{
    String::from_utf8_lossy(bytes).into_owned()
}

/// The text with each character escaped.
pub open spec fn escaped(s: Seq<char>) -> Seq<char>
    decreases s.len(),
{
    if s.len() == 0 {
        seq![]
    } else {
        escaped(s.drop_last()) + escaped_char(s.last())
    }
}

/// What of a message may be shown, on a single line.
pub open spec fn line_preview(message: Seq<char>, api_key: Seq<char>, max: nat) -> Seq<char> {
    escaped(super::http::preview(message, api_key, max))
}

/// Whether a text stands on a single line.
pub open spec fn is_one_line(s: Seq<char>) -> bool {
    forall|i: int| 0 <= i < s.len() ==> #[trigger] s[i] != '\n'
}

pub open spec fn or_missing(header: Option<Seq<char>>) -> Seq<char> {
    match header {
        Some(value) => value,
        None => "<缺失>"@,
    }
}

pub open spec fn stop_text(stop: SniffStop) -> Seq<char> {
    match stop {
        SniffStop::Mismatch => "正文前缀不匹配 JSON/SSE"@,
        SniffStop::EndOfResponse => "响应已结束"@,
        SniffStop::Limit => "已达到 8 KiB 探测上限"@,
    }
}

/// The complaint about a body whose format cannot be told.
pub open spec fn unrecognized_text(
    content_type: Option<Seq<char>>,
    content_encoding: Option<Seq<char>>,
    prefix: Seq<u8>,
    stop: SniffStop,
    api_key: Seq<char>,
) -> Seq<char> {
    (if unsupported_encoding(content_encoding) {
        "无法识别 LLM 响应格式，响应可能仍使用不支持的 Content-Encoding"@
    } else {
        "无法识别 LLM 响应格式"@
    }) + "; Content-Type="@ + line_preview(or_missing(content_type), api_key, 100)
        + "; Content-Encoding="@ + line_preview(or_missing(content_encoding), api_key, 100) + "; "@
        + stop_text(stop) + "; 响应摘要="@ + line_preview(lossy(prefix), api_key, 200)
}

/// Whether one of the previews in the complaint is of several lines.
pub open spec fn has_line_feed(
    content_type: Option<Seq<char>>,
    content_encoding: Option<Seq<char>>,
    prefix: Seq<u8>,
    api_key: Seq<char>,
) -> bool {
    ||| !is_one_line(super::http::preview(or_missing(content_type), api_key, 100))
    ||| !is_one_line(super::http::preview(or_missing(content_encoding), api_key, 100))
    ||| !is_one_line(super::http::preview(lossy(prefix), api_key, 200))
}

/// The format that the headers give to a body that shows none, or the complaint.
pub open spec fn fallback_format(
    content_type: Option<Seq<char>>,
    content_encoding: Option<Seq<char>>,
    prefix: Seq<u8>,
    stop: SniffStop,
    api_key: Seq<char>,
) -> Result<ResponseFormat, Seq<char>> {
    match format_of_header(content_type) {
        Some(format) if !unsupported_encoding(content_encoding) => Ok(format),
        _ => Err(unrecognized_text(content_type, content_encoding, prefix, stop, api_key)),
    }
}

/// Whether `part` begins `bytes` from position `from` on.
pub(crate) fn bytes_begin(bytes: &[u8], from: usize, part: &[u8]) -> (r: bool)
    requires
        from <= bytes@.len(),
    ensures
        r == part@.is_prefix_of(bytes@.skip(from as int)),
{
    let count: usize = bytes.len();
    if part.len() > count - from {
        return false;
    }
    let mut k: usize = 0;
    while k < part.len()
        invariant
            count == bytes@.len(),
            from + part@.len() <= count,
            k <= part@.len(),
            forall|j: int| 0 <= j < k ==> bytes@[from + j] == part@[j],
        decreases part@.len() - k,
    {
        if bytes[from + k] != part[k] {
            assert(bytes@.skip(from as int).subrange(0, part@.len() as int)[k as int]
                != part@[k as int]);
            return false;
        }
        k += 1;
    }
    assert(bytes@.skip(from as int).subrange(0, part@.len() as int) =~= part@);
    true
}

/// Whether `bytes` from position `from` on are fewer than `whole` and begin it.
fn bytes_begun(bytes: &[u8], from: usize, whole: &[u8]) -> (r: bool)
    requires
        from <= bytes@.len(),
    ensures
        r == (bytes@.len() - from < whole@.len() && bytes@.skip(from as int).is_prefix_of(whole@)),
{
    let count: usize = bytes.len();
    if count - from >= whole.len() {
        return false;
    }
    let mut k: usize = from;
    while k < count
        invariant
            count == bytes@.len(),
            from <= k <= count,
            count - from < whole@.len(),
            forall|j: int| 0 <= j < k - from ==> bytes@[from + j] == whole@[j],
        decreases count - k,
    {
        if bytes[k] != whole[k - from] {
            assert(bytes@.skip(from as int)[k - from] != whole@.subrange(
                0,
                bytes@.len() - from,
            )[k - from]);
            return false;
        }
        k += 1;
    }
    assert(bytes@.skip(from as int) =~= whole@.subrange(0, bytes@.len() - from));
    true
}

/// The UTF-8 byte order mark.
pub(crate) fn bom_bytes() -> (r: Vec<u8>)
    ensures
        r@ == bom(),
{
    vec![0xefu8, 0xbbu8, 0xbfu8]
}

/// The field name of the given number.
fn marker(m: usize) -> (r: Vec<u8>)
    requires
        m < 4,
    ensures
        r@ == sse_markers()[m as int],
{
    if m == 0 {
        vec!['d' as u8, 'a' as u8, 't' as u8, 'a' as u8, ':' as u8]
    } else if m == 1 {
        vec!['e' as u8, 'v' as u8, 'e' as u8, 'n' as u8, 't' as u8, ':' as u8]
    } else if m == 2 {
        vec!['i' as u8, 'd' as u8, ':' as u8]
    } else {
        vec!['r' as u8, 'e' as u8, 't' as u8, 'r' as u8, 'y' as u8, ':' as u8]
    }
}

/// Where the white space that begins at `from` is over.
fn past_space(bytes: &[u8], from: usize) -> (r: usize)
    requires
        from <= bytes@.len(),
    ensures
        from <= r <= bytes@.len(),
        bytes@.skip(r as int) == trim_ascii_start(bytes@.skip(from as int)),
{
    let mut i: usize = from;
    while i < bytes.len() && (bytes[i] == 0x20 || bytes[i] == 0x9 || bytes[i] == 0xa || bytes[i]
        == 0xc || bytes[i] == 0xd)
        invariant
            from <= i <= bytes@.len(),
            trim_ascii_start(bytes@.skip(from as int)) == trim_ascii_start(bytes@.skip(i as int)),
        decreases bytes@.len() - i,
    {
        assert(bytes@.skip(i as int).skip(1) =~= bytes@.skip(i + 1));
        i += 1;
    }
    i
}

/// Tells the format of a body by its first bytes, as far as they go.
pub fn inspect_body_signature(prefix: &[u8]) -> (r: PrefixDecision)
    ensures
        r == decision(prefix@),
{
    let mark = bom_bytes();
    let mut start: usize = 0;
    assert(prefix@.skip(0) =~= prefix@);
    if bytes_begin(prefix, 0, &mark) {
        start = 3;
    } else if prefix.len() > 0 && bytes_begun(prefix, 0, &mark) {
        return PrefixDecision::NeedMore;
    }
    let at = past_space(prefix, start);
    let ghost body = prefix@.skip(at as int);
    if at == prefix.len() {
        return PrefixDecision::NeedMore;
    }
    let first = prefix[at];
    if first == '{' as u8 || first == '[' as u8 {
        return PrefixDecision::Detected(ResponseFormat::Json);
    }
    if first == ':' as u8 {
        return PrefixDecision::Detected(ResponseFormat::Sse);
    }
    let mut begun: bool = false;
    let mut m: usize = 0;
    while m < 4
        invariant
            m <= 4,
            at < prefix@.len(),
            body == prefix@.skip(at as int),
            decision(prefix@) == signature(body),
            body[0] != '{' as u8 && body[0] != '[' as u8 && body[0] != ':' as u8,
            forall|k: int| 0 <= k < m ==> !(#[trigger] sse_markers()[k]).is_prefix_of(body),
            begun == exists|k: int|
                0 <= k < m && body.len() < (#[trigger] sse_markers()[k]).len()
                    && body.is_prefix_of(sse_markers()[k]),
        decreases 4 - m,
    {
        let wanted = marker(m);
        if bytes_begin(prefix, at, &wanted) {
            return PrefixDecision::Detected(ResponseFormat::Sse);
        }
        if bytes_begun(prefix, at, &wanted) {
            begun = true;
        }
        m += 1;
    }
    if begun {
        PrefixDecision::NeedMore
    } else {
        PrefixDecision::NoMatch
    }
}

/// The format that a `Content-Type` names.
pub fn response_format_from_header(content_type: Option<&str>) -> (r: Option<ResponseFormat>)
    ensures
        r == format_of_header(text::opt_str(content_type)),
{
    match content_type {
        Some(value) => {
            let named = text::text_before(value, ';');
            let trimmed = text::trimmed(named.as_str());
            let lowered = text::ascii_lowercase(trimmed.as_str());
            let media_type = lowered.as_str();
            if text::same(media_type, "text/event-stream") {
                Some(ResponseFormat::Sse)
            } else if text::same(media_type, "application/json") || (text::begins_with(
                media_type,
                "application/",
            ) && text::finishes_with(media_type, "+json")) {
                Some(ResponseFormat::Json)
            } else {
                None
            }
        },
        None => None,
    }
}

proof fn lemma_one_line(a: Seq<char>, b: Seq<char>)
    requires
        is_one_line(a),
        is_one_line(b),
    ensures
        is_one_line(a + b),
{
    assert forall|i: int| 0 <= i < (a + b).len() implies #[trigger] (a + b)[i] != '\n' by {
        if i < a.len() {
            assert((a + b)[i] == a[i]);
        } else {
            assert((a + b)[i] == b[i - a.len()]);
        }
    }
}

/// What stands in a part stands in the whole.
proof fn lemma_contained(a: Seq<char>, b: Seq<char>, part: Seq<char>)
    ensures
        text::contains(a, part) ==> text::contains(a + b, part),
        text::contains(b, part) ==> text::contains(a + b, part),
{
    let s = a + b;
    if text::contains(a, part) {
        let i = choose|i: int| text::occurs_at(a, part, i);
        assert(s.subrange(i, i + part.len()) =~= a.subrange(i, i + part.len()));
        assert(text::occurs_at(s, part, i));
    }
    if text::contains(b, part) {
        let i = choose|i: int| text::occurs_at(b, part, i);
        let j = a.len() + i;
        assert(s.subrange(j, j + part.len()) =~= b.subrange(i, i + part.len()));
        assert(text::occurs_at(s, part, j));
    }
}

/// Shows a message on a single line. Where the message has several, a backslash and an `n` show
/// it.
pub fn single_line_preview(message: &str, api_key: &str, max_chars: usize) -> (r: String)
    ensures
        r@ == line_preview(message@, api_key@, max_chars as nat),
        is_one_line(r@),
        !is_one_line(super::http::preview(message@, api_key@, max_chars as nat))
            ==> text::contains(r@, "\\n"@),
{
    let shown = super::http::safe_preview(message, api_key, max_chars);
    let chars = text::chars_of(shown.as_str());
    let mut r = String::new();
    let mut i: usize = 0;
    while i < chars.len()
        invariant
            i <= chars@.len(),
            r@ == escaped(chars@.take(i as int)),
            is_one_line(r@),
            !is_one_line(chars@.take(i as int)) ==> text::contains(r@, "\\n"@),
        decreases chars@.len() - i,
    {
        let part = escape_char(chars[i]);
        proof {
            lemma_one_line(r@, part@);
            lemma_contained(r@, part@, "\\n"@);
            assert(chars@.take(i + 1).drop_last() =~= chars@.take(i as int));
            if chars@[i as int] == '\n' {
                assert(part@.subrange(0, part@.len() as int) =~= part@);
                assert(text::occurs_at(part@, "\\n"@, 0));
            } else if is_one_line(chars@.take(i as int)) {
                lemma_one_line(chars@.take(i as int), seq![chars@[i as int]]);
                assert(chars@.take(i + 1) =~= chars@.take(i as int) + seq![chars@[i as int]]);
            }
        }
        r.append(part.as_str());
        i += 1;
    }
    assert(chars@.take(i as int) =~= chars@);
    r
}

/// Whether a `Content-Encoding` names an encoding other than `identity`.
pub fn has_unsupported_content_encoding(content_encoding: Option<&str>) -> (r: bool)
    ensures
        r == unsupported_encoding(text::opt_str(content_encoding)),
{
    match content_encoding {
        Some(value) => {
            let pieces = text::pieces(value, ',');
            let mut i: usize = 0;
            while i < pieces.len()
                invariant
                    text::opt_str(content_encoding) == Some(value@),
                    i <= pieces@.len(),
                    text::texts(pieces@) == text::split(value@, ','),
                    forall|k: int|
                        0 <= k < i ==> !foreign_encoding(#[trigger] text::split(value@, ',')[k]),
                decreases pieces@.len() - i,
            {
                assert(text::texts(pieces@)[i as int] == pieces@[i as int]@);
                let encoding = text::trimmed(pieces[i].as_str());
                if !encoding.as_str().is_empty() && !text::same_ignoring_case(
                    encoding.as_str(),
                    "identity",
                ) {
                    assert(text::texts(pieces@).len() == pieces@.len());
                    assert(foreign_encoding(text::split(value@, ',')[i as int]));
                    return true;
                }
                i += 1;
            }
            assert(text::texts(pieces@).len() == pieces@.len());
            false
        },
        None => false,
    }
}

/// The format that the headers give to a body that shows none, or the complaint.
pub fn fallback_response_format(
    content_type: Option<&str>,
    content_encoding: Option<&str>,
    prefix: &[u8],
    stop: SniffStop,
    api_key: &str,
) -> (r: Result<ResponseFormat, String>)
    ensures
        match r {
            Ok(format) => fallback_format(
                text::opt_str(content_type),
                text::opt_str(content_encoding),
                prefix@,
                stop,
                api_key@,
            ) == Ok::<ResponseFormat, Seq<char>>(format),
            Err(message) => fallback_format(
                text::opt_str(content_type),
                text::opt_str(content_encoding),
                prefix@,
                stop,
                api_key@,
            ) == Err::<ResponseFormat, Seq<char>>(message@) && is_one_line(message@),
        },
{
    if has_unsupported_content_encoding(content_encoding) {
        return Err(
            unrecognized_format_error(content_type, content_encoding, prefix, stop, api_key),
        );
    }
    match response_format_from_header(content_type) {
        Some(format) => Ok(format),
        None => Err(
            unrecognized_format_error(content_type, content_encoding, prefix, stop, api_key),
        ),
    }
}

/// The words of the complaint hold no line feed.
proof fn lemma_words_are_one_line(stop: SniffStop)
    ensures
        is_one_line("无法识别 LLM 响应格式，响应可能仍使用不支持的 Content-Encoding"@),
        is_one_line("无法识别 LLM 响应格式"@),
        is_one_line("; Content-Type="@),
        is_one_line("; Content-Encoding="@),
        is_one_line("; "@),
        is_one_line("; 响应摘要="@),
        is_one_line(stop_text(stop)),
{
    reveal_strlit("无法识别 LLM 响应格式，响应可能仍使用不支持的 Content-Encoding");
    reveal_strlit("无法识别 LLM 响应格式");
    reveal_strlit("; Content-Type=");
    reveal_strlit("; Content-Encoding=");
    reveal_strlit("; ");
    reveal_strlit("; 响应摘要=");
    reveal_strlit("正文前缀不匹配 JSON/SSE");
    reveal_strlit("响应已结束");
    reveal_strlit("已达到 8 KiB 探测上限");
}

/// Appends a part to a text of one line.
fn append_line(text: &mut String, part: &str)
    requires
        is_one_line(old(text)@),
        is_one_line(part@),
    ensures
        final(text)@ == old(text)@ + part@,
        is_one_line(final(text)@),
        text::contains(old(text)@, "\\n"@) || text::contains(part@, "\\n"@) ==> text::contains(
            final(text)@,
            "\\n"@,
        ),
{
    proof {
        lemma_one_line(text@, part@);
        lemma_contained(text@, part@, "\\n"@);
    }
    text.append(part);
}

/// The complaint about a body whose format cannot be told, on a single line.
pub fn unrecognized_format_error(
    content_type: Option<&str>,
    content_encoding: Option<&str>,
    prefix: &[u8],
    stop: SniffStop,
    api_key: &str,
) -> (r: String)
    ensures
        r@ == unrecognized_text(
            text::opt_str(content_type),
            text::opt_str(content_encoding),
            prefix@,
            stop,
            api_key@,
        ),
        is_one_line(r@),
        has_line_feed(
            text::opt_str(content_type),
            text::opt_str(content_encoding),
            prefix@,
            api_key@,
        ) ==> text::contains(r@, "\\n"@),
{
    proof {
        lemma_words_are_one_line(stop);
    }
    let shown_type = single_line_preview(
        match content_type {
            Some(value) => value,
            None => "<缺失>",
        },
        api_key,
        100,
    );
    let shown_encoding = single_line_preview(
        match content_encoding {
            Some(value) => value,
            None => "<缺失>",
        },
        api_key,
        100,
    );
    let shown = single_line_preview(lossy_text(prefix).as_str(), api_key, 200);
    let stopped = match stop {
        SniffStop::Mismatch => "正文前缀不匹配 JSON/SSE",
        SniffStop::EndOfResponse => "响应已结束",
        SniffStop::Limit => "已达到 8 KiB 探测上限",
    };
    let mut r = if has_unsupported_content_encoding(content_encoding) {
        "无法识别 LLM 响应格式，响应可能仍使用不支持的 Content-Encoding".to_owned()
    } else {
        "无法识别 LLM 响应格式".to_owned()
    };
    append_line(&mut r, "; Content-Type=");
    append_line(&mut r, shown_type.as_str());
    append_line(&mut r, "; Content-Encoding=");
    append_line(&mut r, shown_encoding.as_str());
    append_line(&mut r, "; ");
    append_line(&mut r, stopped);
    append_line(&mut r, "; 响应摘要=");
    append_line(&mut r, shown.as_str());
    r
}

/// `bytes::Bytes`, a chunk of a body.
#[verifier::external_type_specification]
#[verifier::external_body]
pub struct ExBytes(bytes::Bytes);

/// The bytes that a chunk holds.
pub uninterp spec fn bytes_held(chunk: bytes::Bytes) -> Seq<u8>;

/// Calls `Bytes::as_ref`: the slice holds the chunk's bytes.
#[verifier::external_body]
pub(crate) fn chunk_bytes(chunk: &bytes::Bytes) -> (r: &[u8])
    ensures
        r@ == bytes_held(*chunk),
{
    chunk.as_ref()
}

/// Calls `Bytes::slice` for the range from `from` on: the new chunk holds the bytes
/// behind the first `from`. `Bytes::slice` panics on a range that goes past the end.
#[verifier::external_body]
fn chunk_tail(chunk: &bytes::Bytes, from: usize) -> (r: bytes::Bytes)
    requires
        from <= bytes_held(*chunk).len(),
    ensures
        bytes_held(r) == bytes_held(*chunk).skip(from as int),
{
    chunk.slice(from..)
}

/// What the chunks of a list hold.
pub open spec fn chunks_held(chunks: Seq<bytes::Bytes>) -> Seq<Seq<u8>> {
    chunks.map_values(|chunk: bytes::Bytes| bytes_held(chunk))
}

/// The chunks without their first `n` bytes; each chunk keeps its place.
pub open spec fn without_first(chunks: Seq<Seq<u8>>, n: int) -> Seq<Seq<u8>>
    decreases chunks.len(),
{
    if chunks.len() == 0 {
        chunks
    } else {
        let cut = if n <= chunks[0].len() {
            n
        } else {
            chunks[0].len() as int
        };
        seq![chunks[0].skip(cut)] + without_first(chunks.skip(1), n - cut)
    }
}

proof fn lemma_without_none(chunks: Seq<Seq<u8>>)
    ensures
        without_first(chunks, 0) == chunks,
    decreases chunks.len(),
{
    if chunks.len() > 0 {
        lemma_without_none(chunks.skip(1));
        assert(chunks[0].skip(0) =~= chunks[0]);
        assert(seq![chunks[0]] + chunks.skip(1) =~= chunks);
    }
}

/// Drops the byte order mark with which the chunks begin.
pub fn strip_utf8_bom_from_chunks(chunks: &mut Vec<bytes::Bytes>)
    ensures
        chunks_held(final(chunks)@) == without_first(chunks_held(old(chunks)@), 3),
{
    let ghost before = chunks_held(chunks@);
    let mut remaining: usize = 3;
    let mut i: usize = 0;
    assert(before.skip(0) =~= before);
    assert(before.take(0) + without_first(before, 3) =~= without_first(before, 3));
    while i < chunks.len() && remaining > 0
        invariant
            i <= chunks@.len(),
            remaining <= 3,
            chunks@.len() == before.len(),
            chunks_held(chunks@).skip(i as int) == before.skip(i as int),
            without_first(before, 3) == chunks_held(chunks@).take(i as int) + without_first(
                before.skip(i as int),
                remaining as int,
            ),
        decreases chunks@.len() - i,
    {
        let length: usize = chunk_bytes(&chunks[i]).len();
        let skipped: usize = if remaining <= length {
            remaining
        } else {
            length
        };
        let ghost held = chunks_held(chunks@);
        assert(held[i as int] == held.skip(i as int)[0]);
        let tail = chunk_tail(&chunks[i], skipped);
        chunks.set(i, tail);
        proof {
            let now = chunks_held(chunks@);
            let rest = before.skip(i as int);
            assert(now.skip(i + 1) =~= held.skip(i as int).skip(1));
            assert(rest.skip(1) =~= before.skip(i + 1));
            let tails = without_first(before.skip(i + 1), remaining - skipped);
            assert(held.take(i as int) + (seq![rest[0].skip(skipped as int)] + tails) =~= now.take(
                i + 1,
            ) + tails);
        }
        remaining -= skipped;
        i += 1;
    }
    proof {
        if remaining == 0 {
            lemma_without_none(before.skip(i as int));
        } else {
            assert(before.skip(i as int) =~= seq![]);
        }
        assert(chunks_held(chunks@).take(i as int) + chunks_held(chunks@).skip(i as int)
            =~= chunks_held(chunks@));
    }
}

/// Why reading events from a streamed body failed.
#[derive(Debug)]
pub struct StreamError {
    /// The error as it shows itself.
    pub shown: String,
    /// The transport's error, where it was the transport that failed.
    pub transport: Option<super::http::TransportError>,
    /// The messages from the error down to its first cause.
    pub messages: Vec<String>,
}

/// What a stream error holds.
pub struct StreamErrorView {
    pub shown: Seq<char>,
    pub transport: Option<super::http::TransportView>,
    pub messages: Seq<Seq<char>>,
}

impl View for StreamError {
    type V = StreamErrorView;

    open spec fn view(&self) -> StreamErrorView {
        StreamErrorView {
            shown: self.shown@,
            transport: match self.transport {
                Some(error) => Some(error@),
                None => None,
            },
            messages: text::texts(self.messages@),
        }
    }
}

/// A stream error in words.
pub open spec fn stream_error_text(
    error: StreamErrorView,
    label: Seq<char>,
    api_key: Seq<char>,
) -> Seq<char> {
    let context = "读取 "@ + label + " SSE 响应失败"@;
    match error.transport {
        Some(transport) => super::http::transport_text(context, transport, api_key),
        None => context + " [响应解码]: "@ + super::http::error_chain(error.messages, api_key),
    }
}

/// A stream error in words.
pub fn format_event_stream_error(error: &StreamError, label: &str, api_key: &str) -> (r: String)
    ensures
        r@ == stream_error_text(error@, label@, api_key@),
{
    let mut context = text::concat("读取 ", label);
    context.append(" SSE 响应失败");
    match &error.transport {
        Some(transport) => super::http::format_reqwest_error(
            context.as_str(),
            transport,
            api_key,
        ),
        None => {
            context.append(" [响应解码]: ");
            context.append(super::http::safe_error_chain(&error.messages, api_key).as_str());
            context
        },
    }
}

/// The reason phrase that `reqwest::StatusCode` shows behind a status code.
pub uninterp spec fn status_reason(code: u16) -> Seq<char>;

/// A status code as it is shown.
pub open spec fn status_line(code: u16) -> Seq<char> {
    text::decimal(code as nat) + " "@ + status_reason(code)
}

/// Shows a `reqwest::StatusCode`: the code, a space and a phrase that depends on the code
/// alone. `StatusCode::from_u16` takes the codes of three digits.
#[verifier::external_body]
pub(crate) fn status_text(code: u16) -> (r: String)
    requires
        100 <= code < 1000,
    ensures
        r@ == text::decimal(code as nat) + " "@ + status_reason(code),
{
    reqwest::StatusCode::from_u16(code).unwrap().to_string()
}

/// What is said of a request that was answered with an error status: the error that the
/// body reports, or else a preview of the body.
pub open spec fn refusal_text(
    code: u16,
    body: Seq<char>,
    label: Seq<char>,
    api_key: Seq<char>,
) -> Seq<char> {
    label + " 请求失败 (HTTP "@ + status_line(code) + "): "@ + match crate::json::json_of_text(body) {
        Ok(value) => match super::errors::api_error(value) {
            Some(message) => message,
            None => super::http::preview(body, api_key, 300),
        },
        Err(_) => super::http::preview(body, api_key, 300),
    }
}

/// What is said of a request that was answered with an error status.
pub fn read_error_message(code: u16, body: &str, label: &str, api_key: &str) -> (r: String)
    requires
        100 <= code < 1000,
    ensures
        r@ == refusal_text(code, body@, label@, api_key@),
{
    let mut r = text::concat(label, " 请求失败 (HTTP ");
    r.append(status_text(code).as_str());
    r.append("): ");
    let message = match crate::json::Json::parse(body) {
        Ok(value) => super::errors::extract_api_error(&value),
        Err(_) => None,
    };
    match message {
        Some(message) => r.append(message.as_str()),
        None => r.append(super::http::safe_preview(body, api_key, 300).as_str()),
    }
    r
}

proof fn lemma_trim_before_more(body: Seq<u8>, more: Seq<u8>)
    requires
        trim_ascii_start(body).len() > 0,
    ensures
        trim_ascii_start(body + more) == trim_ascii_start(body) + more,
    decreases body.len(),
{
    if body.len() > 0 && is_ascii_space(body[0]) {
        assert((body + more).skip(1) =~= body.skip(1) + more);
        lemma_trim_before_more(body.skip(1), more);
    }
}

proof fn lemma_signature_is_final(body: Seq<u8>, more: Seq<u8>)
    requires
        signature(body) != PrefixDecision::NeedMore,
    ensures
        signature(body + more) == signature(body),
{
    let whole = body + more;
    assert(whole[0] == body[0]);
    assert forall|m: int| 0 <= m < 4 && (#[trigger] sse_markers()[m]).is_prefix_of(
        body,
    ) implies sse_markers()[m].is_prefix_of(whole) by {
        let n = sse_markers()[m].len() as int;
        assert(whole.subrange(0, n) =~= body.subrange(0, n));
    }
    if signature(body) == PrefixDecision::NoMatch {
        assert forall|m: int| 0 <= m < 4 implies !(#[trigger] sse_markers()[m]).is_prefix_of(
            whole,
        ) by {
            let wanted = sse_markers()[m];
            if wanted.is_prefix_of(whole) {
                assert(wanted =~= whole.subrange(0, wanted.len() as int));
                if wanted.len() <= body.len() {
                    assert(wanted =~= body.subrange(0, wanted.len() as int));
                } else {
                    assert(body =~= wanted.subrange(0, body.len() as int));
                }
            }
        }
        assert forall|m: int|
            0 <= m < 4 && whole.len() < (#[trigger] sse_markers()[m]).len() implies !whole.is_prefix_of(
            sse_markers()[m],
        ) by {
            let wanted = sse_markers()[m];
            if whole.is_prefix_of(wanted) {
                assert(whole =~= wanted.subrange(0, whole.len() as int));
                assert(body =~= wanted.subrange(0, body.len() as int));
            }
        }
    }
}

/// Once the first bytes of a body tell its format, or that they do not, more bytes change
/// nothing: it does not matter where the body was cut into chunks.
pub proof fn law_decision_is_final(prefix: Seq<u8>, more: Seq<u8>)
    requires
        decision(prefix) != PrefixDecision::NeedMore,
    ensures
        decision(prefix + more) == decision(prefix),
{
    let whole = prefix + more;
    if bom().is_prefix_of(prefix) {
        assert(bom() =~= prefix.subrange(0, 3));
        assert(bom() =~= whole.subrange(0, 3));
        assert(whole.skip(3) =~= prefix.skip(3) + more);
        lemma_trim_before_more(prefix.skip(3), more);
        lemma_signature_is_final(trim_ascii_start(prefix.skip(3)), more);
    } else {
        if bom().is_prefix_of(whole) {
            assert(bom() =~= whole.subrange(0, 3));
            if prefix.len() >= 3 {
                assert(bom() =~= prefix.subrange(0, 3));
            } else {
                assert(prefix =~= bom().subrange(0, prefix.len() as int));
            }
        }
        if 0 < whole.len() < 3 && whole.is_prefix_of(bom()) {
            assert(whole =~= bom().subrange(0, whole.len() as int));
            assert(prefix =~= bom().subrange(0, prefix.len() as int));
        }
        lemma_trim_before_more(prefix, more);
        lemma_signature_is_final(trim_ascii_start(prefix), more);
    }
}

/// Dropping the first bytes of the chunks drops them from the body.
pub proof fn law_dropped_from_the_front(chunks: Seq<Seq<u8>>, n: int)
    requires
        0 <= n <= chunks.flatten().len(),
    ensures
        without_first(chunks, n).flatten() == chunks.flatten().skip(n),
        without_first(chunks, n).len() == chunks.len(),
    decreases chunks.len(),
{
    if chunks.len() > 0 {
        let cut = if n <= chunks[0].len() {
            n
        } else {
            chunks[0].len() as int
        };
        assert(chunks.drop_first() =~= chunks.skip(1));
        law_dropped_from_the_front(chunks.skip(1), n - cut);
        let rest = without_first(chunks.skip(1), n - cut);
        let all = without_first(chunks, n);
        assert(all.drop_first() =~= rest);
        assert(all.first() =~= chunks[0].skip(cut));
        assert(all.flatten() =~= chunks.flatten().skip(n));
    } else {
        assert(chunks.flatten().skip(0) =~= chunks.flatten());
    }
}

} // verus!
