//! Error texts that are safe to show: without the API key and without URLs.
use crate::llm::LlmChunk;
use crate::text;
use vstd::prelude::*;
use vstd::string::*;

verus! {

broadcast use {vstd::seq_lib::group_seq_properties, vstd::string::group_string_axioms};

/// The message with the key replaced by a mark, first where it follows `Bearer`.
pub open spec fn secrets_redacted(message: Seq<char>, api_key: Seq<char>) -> Seq<char> {
    if api_key.len() == 0 {
        message
    } else {
        text::replace(
            text::replace(message, "Bearer "@ + api_key, "Bearer [REDACTED]"@),
            api_key,
            "[REDACTED]"@,
        )
    }
}

/// Where the first URL from `i` on begins.
pub open spec fn url_start(s: Seq<char>, i: int) -> Option<int> {
    match (text::find_from(s, "http://"@, i), text::find_from(s, "https://"@, i)) {
        (Some(http), Some(https)) => Some(
            if http <= https {
                http
            } else {
                https
            },
        ),
        (Some(http), None) => Some(http),
        (None, https) => https,
    }
}

/// The characters at which a URL is over.
pub open spec fn ends_url(c: char) -> bool {
    text::is_space(c) || c == '"' || c == '\'' || c == '`' || c == ')' || c == ']' || c == '}' || c
        == ';' || c == '<' || c == '>'
}

/// Where the URL that runs at `i` is over.
pub open spec fn url_end(s: Seq<char>, i: int) -> int
    decreases s.len() - i,
{
    if i >= s.len() {
        s.len() as int
    } else if ends_url(s[i]) {
        i
    } else {
        url_end(s, i + 1)
    }
}

/// From position `i` on, the text with each URL replaced by a mark.
pub open spec fn urls_redacted_from(s: Seq<char>, i: int) -> Seq<char>
    decreases s.len() - i,
{
    match url_start(s, i) {
        Some(start) => {
            let end = url_end(s, start);
            if i <= start < end <= s.len() {
                s.subrange(i, start) + "[URL REDACTED]"@ + urls_redacted_from(s, end)
            } else {
                s.skip(i)
            }
        },
        None => s.skip(i),
    }
}

/// The text with each URL replaced by a mark.
pub open spec fn urls_redacted(s: Seq<char>) -> Seq<char> {
    urls_redacted_from(s, 0)
}

/// The message without the key and without URLs.
pub open spec fn redacted(message: Seq<char>, api_key: Seq<char>) -> Seq<char> {
    urls_redacted(secrets_redacted(message, api_key))
}

/// The first `max` characters, and an ellipsis where there were more.
pub open spec fn shortened(s: Seq<char>, max: nat) -> Seq<char> {
    if s.len() > max {
        s.take(max as int).push('\u{2026}')
    } else {
        s
    }
}

/// What of a message may be shown.
pub open spec fn preview(message: Seq<char>, api_key: Seq<char>, max: nat) -> Seq<char> {
    shortened(redacted(message, api_key), max)
}

/// Replaces the key by a mark.
pub fn redact_secrets(message: &str, api_key: &str) -> (r: String)
    ensures
        r@ == secrets_redacted(message@, api_key@),
{
    if api_key.is_empty() {
        return message.to_owned();
    }
    let bearer = text::concat("Bearer ", api_key);
    let once = text::replaced(message, bearer.as_str(), "Bearer [REDACTED]");
    text::replaced(once.as_str(), api_key, "[REDACTED]")
}

proof fn lemma_url_start(s: Seq<char>, i: int)
    requires
        0 <= i,
    ensures
        match url_start(s, i) {
            Some(k) => {
                &&& i <= k < s.len()
                &&& s[k] == 'h'
                &&& forall|j: int| i <= j < k ==> !text::occurs_at(s, "http://"@, j)
                &&& forall|j: int| i <= j < k ==> !text::occurs_at(s, "https://"@, j)
            },
            None => {
                &&& forall|j: int| i <= j ==> !text::occurs_at(s, "http://"@, j)
                &&& forall|j: int| i <= j ==> !text::occurs_at(s, "https://"@, j)
            },
        },
{
    reveal_strlit("http://");
    reveal_strlit("https://");
    text::lemma_find_from(s, "http://"@, i);
    text::lemma_find_from(s, "https://"@, i);
    if let Some(k) = url_start(s, i) {
        if text::occurs_at(s, "http://"@, k) {
            assert(s.subrange(k, k + 7)[0] == "http://"@[0]);
        } else {
            assert(s.subrange(k, k + 8)[0] == "https://"@[0]);
        }
    }
}

proof fn lemma_url_end(s: Seq<char>, i: int)
    requires
        0 <= i <= s.len(),
    ensures
        i <= url_end(s, i) <= s.len(),
    decreases s.len() - i,
{
    if i < s.len() && !ends_url(s[i]) {
        lemma_url_end(s, i + 1);
    }
}

/// Where the URL that runs at `from` is over.
fn end_of_url(chars: &[char], from: usize) -> (r: usize)
    requires
        from <= chars@.len(),
    ensures
        r == url_end(chars@, from as int),
        from <= r <= chars@.len(),
{
    let mut i: usize = from;
    while i < chars.len()
        invariant
            from <= i <= chars@.len(),
            url_end(chars@, from as int) == url_end(chars@, i as int),
        decreases chars@.len() - i,
    {
        let c = chars[i];
        if text::space(c) || c == '"' || c == '\'' || c == '`' || c == ')' || c == ']' || c == '}'
            || c == ';' || c == '<' || c == '>' {
            return i;
        }
        i += 1;
    }
    i
}

/// Where the first URL from `from` on begins.
fn start_of_url(chars: &[char], from: usize) -> (r: Option<usize>)
    requires
        from <= chars@.len(),
    ensures
        match r {
            Some(k) => url_start(chars@, from as int) == Some(k as int),
            None => url_start(chars@, from as int) is None,
        },
{
    let http = text::position_from(chars, &text::chars_of("http://"), from);
    let https = text::position_from(chars, &text::chars_of("https://"), from);
    match (http, https) {
        (Some(http), Some(https)) => Some(
            if http <= https {
                http
            } else {
                https
            },
        ),
        (Some(http), None) => Some(http),
        (None, https) => https,
    }
}

/// Replaces each URL by a mark.
pub fn redact_urls(message: &str) -> (r: String)
    ensures
        r@ == urls_redacted(message@),
{
    let chars = text::chars_of(message);
    let mut r = String::new();
    let mut at: usize = 0;
    loop
        invariant
            chars@ == message@,
            at <= chars@.len(),
            urls_redacted(message@) == r@ + urls_redacted_from(message@, at as int),
        decreases chars@.len() - at,
    {
        proof {
            lemma_url_start(message@, at as int);
        }
        match start_of_url(&chars, at) {
            Some(start) => {
                let ghost before = r@;
                let end = end_of_url(&chars, start);
                proof {
                    lemma_url_end(message@, start + 1);
                }
                r.append(text::text_between(&chars, at, start).as_str());
                r.append("[URL REDACTED]");
                proof {
                    let rest = urls_redacted_from(message@, end as int);
                    assert(before + (message@.subrange(at as int, start as int)
                        + "[URL REDACTED]"@ + rest) =~= r@ + rest);
                }
                at = end;
            },
            None => {
                r.append(text::text_between(&chars, at, chars.len()).as_str());
                assert(message@.subrange(at as int, message@.len() as int) =~= message@.skip(
                    at as int,
                ));
                return r;
            },
        }
    }
}

/// The message without the key and without URLs.
pub fn redact(message: &str, api_key: &str) -> (r: String)
    ensures
        r@ == redacted(message@, api_key@),
{
    redact_urls(redact_secrets(message, api_key).as_str())
}

/// What of a message may be shown: no key, no URLs, at most `max_chars` characters and
/// an ellipsis.
pub fn safe_preview(message: &str, api_key: &str, max_chars: usize) -> (r: String)
    ensures
        r@ == preview(message@, api_key@, max_chars as nat),
{
    let redacted = redact(message, api_key);
    let chars = text::chars_of(redacted.as_str());
    if chars.len() > max_chars {
        let mut r = text::text_between(&chars, 0, max_chars);
        r.push('\u{2026}');
        r
    } else {
        redacted
    }
}

/// Why the transport failed: what its error says of itself, and the messages from the
/// error down to its first cause.
#[derive(Debug)]
pub struct TransportError {
    pub timeout: bool,
    pub connect: bool,
    pub builder: bool,
    pub request: bool,
    pub decode: bool,
    pub body: bool,
    pub messages: Vec<String>,
}

/// What a transport error holds.
pub struct TransportView {
    pub class: ReqwestErrorClass,
    pub messages: Seq<Seq<char>>,
}

#[derive(Debug, Clone, Copy, PartialEq, Eq, Structural)]
pub enum ReqwestErrorClass {
    Timeout,
    Connect,
    Request,
    ResponseBody,
    Decode,
    Other,
}

/// The class of a failure: the first of timeout, connection, request, decoding and
/// body that it names.
pub open spec fn transport_class(error: TransportError) -> ReqwestErrorClass {
    if error.timeout {
        ReqwestErrorClass::Timeout
    } else if error.connect {
        ReqwestErrorClass::Connect
    } else if error.builder || error.request {
        ReqwestErrorClass::Request
    } else if error.decode {
        ReqwestErrorClass::Decode
    } else if error.body {
        ReqwestErrorClass::ResponseBody
    } else {
        ReqwestErrorClass::Other
    }
}

impl View for TransportError {
    type V = TransportView;

    open spec fn view(&self) -> TransportView {
        TransportView { class: transport_class(*self), messages: text::texts(self.messages@) }
    }
}

/// How a class of failures is called.
pub open spec fn class_label(class: ReqwestErrorClass) -> Seq<char> {
    match class {
        ReqwestErrorClass::Timeout => "超时"@,
        ReqwestErrorClass::Connect => "连接"@,
        ReqwestErrorClass::Request => "请求构造/发送"@,
        ReqwestErrorClass::ResponseBody => "响应体"@,
        ReqwestErrorClass::Decode => "响应解码"@,
        ReqwestErrorClass::Other => "其他"@,
    }
}

/// The messages of a chain of errors, each without the key and without URLs.
pub open spec fn error_chain(messages: Seq<Seq<char>>, api_key: Seq<char>) -> Seq<char> {
    text::join(messages.map_values(|message: Seq<char>| redacted(message, api_key)), " -> "@)
}

/// A transport error in words.
pub open spec fn transport_text(
    context: Seq<char>,
    error: TransportView,
    api_key: Seq<char>,
) -> Seq<char> {
    context + " ["@ + class_label(error.class) + "]: "@ + error_chain(error.messages, api_key)
}

impl ReqwestErrorClass {
    pub fn label(self) -> (label: &'static str)
        ensures
            label@ == class_label(self),
    {
        match self {
            Self::Timeout => "超时",
            Self::Connect => "连接",
            Self::Request => "请求构造/发送",
            Self::ResponseBody => "响应体",
            Self::Decode => "响应解码",
            Self::Other => "其他",
        }
    }
}

/// The class of a failure.
pub fn classify_reqwest_error(error: &TransportError) -> (class: ReqwestErrorClass)
    ensures
        class == error@.class,
{
    if error.timeout {
        ReqwestErrorClass::Timeout
    } else if error.connect {
        ReqwestErrorClass::Connect
    } else if error.builder || error.request {
        ReqwestErrorClass::Request
    } else if error.decode {
        ReqwestErrorClass::Decode
    } else if error.body {
        ReqwestErrorClass::ResponseBody
    } else {
        ReqwestErrorClass::Other
    }
}

/// The messages of a chain of errors, each without the key and without URLs.
pub fn safe_error_chain(messages: &[String], api_key: &str) -> (r: String)
    ensures
        r@ == error_chain(text::texts(messages@), api_key@),
{
    let ghost wanted = text::texts(messages@).map_values(
        |message: Seq<char>| redacted(message, api_key@),
    );
    let mut details: Vec<String> = Vec::new();
    let mut i: usize = 0;
    while i < messages.len()
        invariant
            i <= messages@.len(),
            wanted == text::texts(messages@).map_values(
                |message: Seq<char>| redacted(message, api_key@),
            ),
            text::texts(details@) == wanted.take(i as int),
        decreases messages@.len() - i,
    {
        let ghost before = text::texts(details@);
        let detail = redact(messages[i].as_str(), api_key);
        details.push(detail);
        assert(text::texts(details@) =~= before.push(detail@));
        assert(wanted.take(i + 1) =~= before.push(detail@));
        i += 1;
    }
    assert(wanted.take(i as int) =~= wanted);
    text::joined(&details, " -> ")
}

/// A transport error in words.
pub fn format_reqwest_error(context: &str, error: &TransportError, api_key: &str) -> (r: String)
    ensures
        r@ == transport_text(context@, error@, api_key@),
{
    let mut r = context.to_owned();
    r.append(" [");
    r.append(classify_reqwest_error(error).label());
    r.append("]: ");
    r.append(safe_error_chain(&error.messages, api_key).as_str());
    r
}

/// Reports an error, without the key and without URLs.
pub fn send_error(chunks: &mut Vec<LlmChunk>, api_key: &str, message: &str)
    ensures
        crate::llm::chunk_views(final(chunks)@) == crate::llm::chunk_views(old(chunks)@).push(
            crate::llm::ChunkView::Error(redacted(message@, api_key@)),
        ),
{
    let chunk = LlmChunk::Error(redact(message, api_key));
    chunks.push(chunk);
    assert(crate::llm::chunk_views(chunks@) =~= crate::llm::chunk_views(old(chunks)@).push(chunk@));
}

/// Whether no position of `part` over `mark`, be it in whole or in part, fits it.
pub open spec fn clear_of(part: Seq<char>, mark: Seq<char>) -> bool {
    forall|d: int| -part.len() < d < mark.len() ==> #[trigger] clashes(part, mark, d)
}

/// Whether `part`, laid over `mark` from position `d` on, differs from it somewhere.
pub open spec fn clashes(part: Seq<char>, mark: Seq<char>, d: int) -> bool {
    exists|i: int| 0 <= i < part.len() && 0 <= i + d < mark.len() && part[i] != #[trigger] mark[i + d]
}

/// A part that is clear of a mark stands in `a + mark + b` only where it stands in `a`
/// or in `b`.
proof fn lemma_no_part_over_mark(a: Seq<char>, mark: Seq<char>, b: Seq<char>, part: Seq<char>)
    requires
        part.len() > 0,
        clear_of(part, mark),
        !text::contains(a, part),
        !text::contains(b, part),
    ensures
        !text::contains(a + mark + b, part),
{
    let s = a + mark + b;
    assert forall|k: int| !text::occurs_at(s, part, k) by {
        if text::occurs_at(s, part, k) {
            if k + part.len() <= a.len() {
                assert(s.subrange(k, k + part.len()) =~= a.subrange(k, k + part.len()));
                assert(text::occurs_at(a, part, k));
            } else if k >= a.len() + mark.len() {
                let j = k - a.len() - mark.len();
                assert(s.subrange(k, k + part.len()) =~= b.subrange(j, j + part.len()));
                assert(text::occurs_at(b, part, j));
            } else {
                let d = k - a.len();
                assert(clashes(part, mark, d));
                let i = choose|i: int|
                    0 <= i < part.len() && 0 <= i + d < mark.len() && part[i] != #[trigger] mark[i
                        + d];
                assert(s.subrange(k, k + part.len())[i] == s[k + i]);
                assert(s[k + i] == mark[i + d]);
            }
        }
    }
}

proof fn lemma_no_part_in_range(s: Seq<char>, part: Seq<char>, from: int, to: int)
    requires
        0 <= from <= to <= s.len(),
        forall|j: int| from <= j && j + part.len() <= to ==> !text::occurs_at(s, part, j),
    ensures
        !text::contains(s.subrange(from, to), part),
{
    let r = s.subrange(from, to);
    assert forall|k: int| !text::occurs_at(r, part, k) by {
        if text::occurs_at(r, part, k) {
            assert(r.subrange(k, k + part.len()) =~= s.subrange(from + k, from + k + part.len()));
            assert(text::occurs_at(s, part, from + k));
        }
    }
}

proof fn lemma_replaced_part_is_gone(s: Seq<char>, part: Seq<char>, mark: Seq<char>, i: int)
    requires
        part.len() > 0,
        clear_of(part, mark),
        0 <= i <= s.len(),
    ensures
        !text::contains(text::replace_from(s, part, mark, i), part),
    decreases s.len() - i,
{
    text::lemma_find_from(s, part, i);
    match text::find_from(s, part, i) {
        Some(k) => {
            lemma_replaced_part_is_gone(s, part, mark, k + part.len());
            lemma_no_part_in_range(s, part, i, k);
            lemma_no_part_over_mark(
                s.subrange(i, k),
                mark,
                text::replace_from(s, part, mark, k + part.len()),
                part,
            );
        },
        None => {
            lemma_no_part_in_range(s, part, i, s.len() as int);
            assert(s.subrange(i, s.len() as int) =~= s.skip(i));
        },
    }
}

proof fn lemma_urls_redacted_keeps_absence(s: Seq<char>, part: Seq<char>, i: int)
    requires
        part.len() > 0,
        clear_of(part, "[URL REDACTED]"@),
        !text::contains(s, part),
        0 <= i <= s.len(),
    ensures
        !text::contains(urls_redacted_from(s, i), part),
    decreases s.len() - i,
{
    lemma_url_start(s, i);
    assert(s.subrange(i, s.len() as int) =~= s.skip(i));
    lemma_no_part_in_range(s, part, i, s.len() as int);
    if let Some(start) = url_start(s, i) {
        lemma_url_end(s, start + 1);
        let end = url_end(s, start);
        lemma_urls_redacted_keeps_absence(s, part, end);
        lemma_no_part_in_range(s, part, i, start);
        lemma_no_part_over_mark(
            s.subrange(i, start),
            "[URL REDACTED]"@,
            urls_redacted_from(s, end),
            part,
        );
    }
}

proof fn lemma_scheme_is_clear_of_mark(scheme: Seq<char>)
    requires
        scheme == "http://"@ || scheme == "https://"@,
    ensures
        scheme.len() > 0,
        clear_of(scheme, "[URL REDACTED]"@),
        clear_of(scheme, seq!['\u{2026}']),
{
    reveal_strlit("http://");
    reveal_strlit("https://");
    reveal_strlit("[URL REDACTED]");
    let mark = "[URL REDACTED]"@;
    assert forall|d: int| -scheme.len() < d < mark.len() implies #[trigger] clashes(
        scheme,
        mark,
        d,
    ) by {
        let i: int = if d >= 0 {
            0
        } else {
            -d
        };
        assert(scheme[i] != mark[i + d]);
    }
    let dots = seq!['\u{2026}'];
    assert forall|d: int| -scheme.len() < d < dots.len() implies #[trigger] clashes(
        scheme,
        dots,
        d,
    ) by {
        assert(scheme[-d] != dots[-d + d]);
    }
}

proof fn lemma_no_url_left(s: Seq<char>, scheme: Seq<char>, i: int)
    requires
        scheme == "http://"@ || scheme == "https://"@,
        0 <= i <= s.len(),
    ensures
        !text::contains(urls_redacted_from(s, i), scheme),
    decreases s.len() - i,
{
    lemma_scheme_is_clear_of_mark(scheme);
    lemma_url_start(s, i);
    match url_start(s, i) {
        Some(start) => {
            lemma_url_end(s, start + 1);
            let end = url_end(s, start);
            lemma_no_url_left(s, scheme, end);
            lemma_no_part_in_range(s, scheme, i, start);
            lemma_no_part_over_mark(
                s.subrange(i, start),
                "[URL REDACTED]"@,
                urls_redacted_from(s, end),
                scheme,
            );
        },
        None => {
            assert(s.subrange(i, s.len() as int) =~= s.skip(i));
            lemma_no_part_in_range(s, scheme, i, s.len() as int);
        },
    }
}

/// No URL is left in a redacted message.
pub proof fn law_redacted_holds_no_url(message: Seq<char>, api_key: Seq<char>)
    ensures
        !text::contains(redacted(message, api_key), "http://"@),
        !text::contains(redacted(message, api_key), "https://"@),
{
    lemma_no_url_left(secrets_redacted(message, api_key), "http://"@, 0);
    lemma_no_url_left(secrets_redacted(message, api_key), "https://"@, 0);
}

/// The key is not left in a redacted message, for every key that cannot be read out of
/// the marks.
pub proof fn law_redacted_holds_no_key(message: Seq<char>, api_key: Seq<char>)
    requires
        api_key.len() > 0,
        clear_of(api_key, "[REDACTED]"@),
        clear_of(api_key, "[URL REDACTED]"@),
    ensures
        !text::contains(redacted(message, api_key), api_key),
{
    let once = text::replace(message, "Bearer "@ + api_key, "Bearer [REDACTED]"@);
    lemma_replaced_part_is_gone(once, api_key, "[REDACTED]"@, 0);
    lemma_urls_redacted_keeps_absence(secrets_redacted(message, api_key), api_key, 0);
}

proof fn lemma_shortened_keeps_absence(s: Seq<char>, part: Seq<char>, max: nat)
    requires
        part.len() > 0,
        clear_of(part, seq!['\u{2026}']),
        !text::contains(s, part),
    ensures
        !text::contains(shortened(s, max), part),
{
    if s.len() > max {
        lemma_no_part_in_range(s, part, 0, max as int);
        assert(s.subrange(0, max as int) =~= s.take(max as int));
        let none: Seq<char> = seq![];
        assert(!text::contains(none, part));
        lemma_no_part_over_mark(s.take(max as int), seq!['\u{2026}'], none, part);
        assert(s.take(max as int) + seq!['\u{2026}'] + none =~= s.take(max as int).push(
            '\u{2026}',
        ));
    }
}

/// A preview shows neither a URL nor the key, for every key that cannot be read out of
/// the marks.
pub proof fn law_preview_shows_no_secret(message: Seq<char>, api_key: Seq<char>, max: nat)
    ensures
        !text::contains(preview(message, api_key, max), "http://"@),
        !text::contains(preview(message, api_key, max), "https://"@),
        api_key.len() > 0 && clear_of(api_key, "[REDACTED]"@) && clear_of(
            api_key,
            "[URL REDACTED]"@,
        ) && clear_of(api_key, seq!['\u{2026}']) ==> !text::contains(
            preview(message, api_key, max),
            api_key,
        ),
{
    law_redacted_holds_no_url(message, api_key);
    lemma_scheme_is_clear_of_mark("http://"@);
    lemma_scheme_is_clear_of_mark("https://"@);
    lemma_shortened_keeps_absence(redacted(message, api_key), "http://"@, max);
    lemma_shortened_keeps_absence(redacted(message, api_key), "https://"@, max);
    if api_key.len() > 0 && clear_of(api_key, "[REDACTED]"@) && clear_of(
        api_key,
        "[URL REDACTED]"@,
    ) && clear_of(api_key, seq!['\u{2026}']) {
        law_redacted_holds_no_key(message, api_key);
        lemma_shortened_keeps_absence(redacted(message, api_key), api_key, max);
    }
}

/// A preview is never longer than its limit and the ellipsis.
pub proof fn law_preview_is_short(message: Seq<char>, api_key: Seq<char>, max: nat)
    ensures
        preview(message, api_key, max).len() <= max + 1,
{
}

/// A message in which neither the key nor a URL stands is shown as it is.
pub proof fn law_harmless_message_is_kept(message: Seq<char>, api_key: Seq<char>)
    requires
        api_key.len() > 0 ==> !text::contains(message, api_key),
        !text::contains(message, "http://"@),
        !text::contains(message, "https://"@),
    ensures
        redacted(message, api_key) == message,
{
    let bearer = "Bearer "@ + api_key;
    if api_key.len() > 0 {
        text::lemma_find_from(message, bearer, 0);
        if let Some(k) = text::find_from(message, bearer, 0) {
            let at = k + "Bearer "@.len();
            assert(message.subrange(at, at + api_key.len()) =~= bearer.skip(
                "Bearer "@.len() as int,
            )) by {
                assert(message.subrange(at, at + api_key.len()) =~= message.subrange(
                    k,
                    k + bearer.len(),
                ).skip("Bearer "@.len() as int));
            }
            assert(bearer.skip("Bearer "@.len() as int) =~= api_key);
            assert(text::occurs_at(message, api_key, at as int));
        }
        text::lemma_find_from(message, api_key, 0);
    }
    assert(message.skip(0) =~= message);
    text::lemma_find_from(message, "http://"@, 0);
    text::lemma_find_from(message, "https://"@, 0);
}

} // verus!
