//! Reading the body of a successful reply: the first bytes tell whether it is a stream of
//! events, handed on chunk by chunk, or a JSON text, collected whole.
use super::http::{format_reqwest_error, TransportError};
use super::stream::{
    bom_bytes, bytes_begin, chunk_bytes, fallback_response_format, inspect_body_signature,
    strip_utf8_bom_from_chunks, PrefixDecision, ResponseFormat, SniffStop, MAX_RESPONSE_SNIFF_SIZE,
};
use crate::text;
use vstd::prelude::*;
use vstd::string::*;

verus! {

broadcast use {
    vstd::seq_lib::group_seq_properties,
    vstd::string::group_string_axioms,
    vstd::seq::Seq::group_seq_flatten,
};

/// A body that is being read.
#[derive(Debug)]
pub struct BodyReader {
    pub content_type: Option<String>,
    pub content_encoding: Option<String>,
    /// The bytes that are looked at to tell the format.
    pub prefix: Vec<u8>,
    /// The chunks that came in before the format was told.
    pub chunks: Vec<bytes::Bytes>,
    /// The bytes of a JSON text, once the body is known to be one.
    pub json: Option<Vec<u8>>,
}

/// What a reader holds.
#[verifier::ext_equal]
pub struct ReaderView {
    pub content_type: Option<Seq<char>>,
    pub content_encoding: Option<Seq<char>>,
    pub prefix: Seq<u8>,
    pub chunks: Seq<Seq<u8>>,
    pub json: Option<Seq<u8>>,
}

impl View for BodyReader {
    type V = ReaderView;

    open spec fn view(&self) -> ReaderView {
        ReaderView {
            content_type: text::opt_text(self.content_type),
            content_encoding: text::opt_text(self.content_encoding),
            prefix: self.prefix@,
            chunks: super::stream::chunks_held(self.chunks@),
            json: match self.json {
                Some(bytes) => Some(bytes@),
                None => None,
            },
        }
    }
}

/// What comes of a chunk.
#[derive(Debug)]
pub enum BodyStep {
    /// The next chunk is wanted.
    More,
    /// The body is a stream of events; these are its first chunks.
    Sse(Vec<bytes::Bytes>),
    /// The body is over and is this JSON text.
    Json(Vec<u8>),
    Failed(String),
}

/// What a step holds.
#[verifier::ext_equal]
pub enum BodyStepView {
    More,
    Sse(Seq<Seq<u8>>),
    Json(Seq<u8>),
    Failed(Seq<char>),
}

impl View for BodyStep {
    type V = BodyStepView;

    open spec fn view(&self) -> BodyStepView {
        match self {
            BodyStep::More => BodyStepView::More,
            BodyStep::Sse(chunks) => BodyStepView::Sse(super::stream::chunks_held(chunks@)),
            BodyStep::Json(bytes) => BodyStepView::Json(bytes@),
            BodyStep::Failed(message) => BodyStepView::Failed(message@),
        }
    }
}

/// The first bytes, as many as are looked at.
pub open spec fn sniffed(bytes: Seq<u8>) -> Seq<u8> {
    if bytes.len() > MAX_RESPONSE_SNIFF_SIZE {
        bytes.take(MAX_RESPONSE_SNIFF_SIZE as int)
    } else {
        bytes
    }
}

/// The complaint about a JSON text that is too long.
pub open spec fn too_long(label: Seq<char>, max: usize) -> Seq<char> {
    label + " JSON 响应超过 "@ + text::decimal((max / 1024 / 1024) as nat) + " MiB 限制"@
}

impl ReaderView {
    /// While the format is open, the prefix is what is looked at of the chunks.
    pub open spec fn wf(self) -> bool {
        self.json is None ==> self.prefix == sniffed(self.chunks.flatten())
    }

    /// The reader with the bytes of its JSON text, unless they are too many.
    pub open spec fn collecting(self, bytes: Seq<u8>, label: Seq<char>, max: usize) -> (
        ReaderView,
        BodyStepView,
    ) {
        (
            ReaderView { json: Some(bytes), ..self },
            if bytes.len() > max {
                BodyStepView::Failed(too_long(label, max))
            } else {
                BodyStepView::More
            },
        )
    }

    /// The chunks without the byte order mark.
    pub open spec fn unmarked(self) -> Seq<Seq<u8>> {
        if super::stream::bom().is_prefix_of(self.prefix) {
            super::stream::without_first(self.chunks, 3)
        } else {
            self.chunks
        }
    }

    /// What comes of the format being told.
    pub open spec fn told(self, format: ResponseFormat, label: Seq<char>, max: usize) -> (
        ReaderView,
        BodyStepView,
    ) {
        let left = ReaderView { chunks: seq![], ..self };
        match format {
            ResponseFormat::Sse => (left, BodyStepView::Sse(self.unmarked())),
            ResponseFormat::Json => left.collecting(self.unmarked().flatten(), label, max),
        }
    }

    /// What comes of the body not showing its format.
    pub open spec fn untold(
        self,
        stop: SniffStop,
        label: Seq<char>,
        api_key: Seq<char>,
        max: usize,
    ) -> (ReaderView, BodyStepView) {
        match super::stream::fallback_format(
            self.content_type,
            self.content_encoding,
            self.prefix,
            stop,
            api_key,
        ) {
            Ok(format) => self.told(format, label, max),
            Err(message) => (self, BodyStepView::Failed(message)),
        }
    }

    /// What comes of the next chunk, or of the end of the body.
    pub open spec fn next(
        self,
        chunk: Option<Seq<u8>>,
        label: Seq<char>,
        api_key: Seq<char>,
        max: usize,
    ) -> (ReaderView, BodyStepView) {
        match (self.json, chunk) {
            (Some(bytes), Some(chunk)) => self.collecting(bytes + chunk, label, max),
            (Some(bytes), None) => (
                ReaderView { json: None, chunks: seq![], prefix: seq![], ..self },
                BodyStepView::Json(bytes),
            ),
            (None, Some(chunk)) => {
                let chunks = self.chunks.push(chunk);
                let grown = ReaderView { chunks, prefix: sniffed(chunks.flatten()), ..self };
                match super::stream::decision(grown.prefix) {
                    PrefixDecision::Detected(format) => grown.told(format, label, max),
                    PrefixDecision::NoMatch => grown.untold(
                        SniffStop::Mismatch,
                        label,
                        api_key,
                        max,
                    ),
                    PrefixDecision::NeedMore => if grown.prefix.len() >= MAX_RESPONSE_SNIFF_SIZE {
                        grown.untold(SniffStop::Limit, label, api_key, max)
                    } else {
                        (grown, BodyStepView::More)
                    },
                }
            },
            (None, None) => self.untold(SniffStop::EndOfResponse, label, api_key, max),
        }
    }

    /// What is said where reading the next chunk failed.
    pub open spec fn read_failure(
        self,
        error: super::http::TransportView,
        label: Seq<char>,
        api_key: Seq<char>,
    ) -> Seq<char> {
        super::http::transport_text(
            if self.json is Some {
                "读取 "@ + label + " JSON 响应失败"@
            } else {
                "读取 "@ + label + " 响应失败"@
            },
            error,
            api_key,
        )
    }
}

/// A reader for the body that comes with the given headers.
pub fn open_body_stream(content_type: Option<String>, content_encoding: Option<String>) -> (r:
    BodyReader)
    ensures
        r@.content_type == text::opt_text(content_type),
        r@.content_encoding == text::opt_text(content_encoding),
        r@.prefix == Seq::<u8>::empty(),
        r@.chunks == Seq::<Seq<u8>>::empty(),
        r@.json is None,
        r@.wf(),
{
    let r = BodyReader {
        content_type,
        content_encoding,
        prefix: Vec::new(),
        chunks: Vec::new(),
        json: None,
    };
    assert(r@.chunks =~= seq![]);
    r
}

/// The optional string as a slice.
fn borrowed(text: &Option<String>) -> (r: Option<&str>)
    ensures
        text::opt_str(r) == text::opt_text(*text),
{
    match text {
        Some(text) => Some(text.as_str()),
        None => None,
    }
}

/// The bytes of the chunks, one behind the other.
fn gathered(chunks: &Vec<bytes::Bytes>) -> (r: Vec<u8>)
    ensures
        r@ == super::stream::chunks_held(chunks@).flatten(),
{
    let ghost held = super::stream::chunks_held(chunks@);
    let mut r: Vec<u8> = Vec::new();
    let mut i: usize = 0;
    assert(held.take(0) =~= seq![]);
    while i < chunks.len()
        invariant
            i <= chunks@.len(),
            held == super::stream::chunks_held(chunks@),
            r@ == held.take(i as int).flatten(),
        decreases chunks@.len() - i,
    {
        let part = chunk_bytes(&chunks[i]);
        let ghost before = r@;
        r.extend_from_slice(part);
        assert(r@ =~= before + part@);
        assert(held.take(i + 1) =~= held.take(i as int).push(held[i as int]));
        i += 1;
    }
    assert(held.take(i as int) =~= held);
    r
}

impl BodyReader {
    fn collect(&mut self, bytes: Vec<u8>, label: &str, max_json_bytes: usize) -> (step: BodyStep)
        ensures
            (final(self)@, step@) == old(self)@.collecting(bytes@, label@, max_json_bytes),
    {
        let long = bytes.len() > max_json_bytes;
        self.json = Some(bytes);
        if long {
            let mut message = text::concat(label, " JSON 响应超过 ");
            message.append(text::decimal_text((max_json_bytes / 1024 / 1024) as u64).as_str());
            message.append(" MiB 限制");
            BodyStep::Failed(message)
        } else {
            BodyStep::More
        }
    }

    fn tell(&mut self, format: ResponseFormat, label: &str, max_json_bytes: usize) -> (step:
        BodyStep)
        ensures
            (final(self)@, step@) == old(self)@.told(format, label@, max_json_bytes),
    {
        let mut chunks: Vec<bytes::Bytes> = Vec::new();
        std::mem::swap(&mut chunks, &mut self.chunks);
        assert(self@ =~= (ReaderView { chunks: seq![], ..old(self)@ }));
        assert(self.prefix@.skip(0) =~= self.prefix@);
        if bytes_begin(&self.prefix, 0, &bom_bytes()) {
            strip_utf8_bom_from_chunks(&mut chunks);
        }
        match format {
            ResponseFormat::Sse => BodyStep::Sse(chunks),
            ResponseFormat::Json => self.collect(gathered(&chunks), label, max_json_bytes),
        }
    }

    fn give_up(&mut self, stop: SniffStop, label: &str, api_key: &str, max_json_bytes: usize)
        -> (step: BodyStep)
        ensures
            (final(self)@, step@) == old(self)@.untold(stop, label@, api_key@, max_json_bytes),
    {
        match fallback_response_format(
            borrowed(&self.content_type),
            borrowed(&self.content_encoding),
            &self.prefix,
            stop,
            api_key,
        ) {
            Ok(format) => self.tell(format, label, max_json_bytes),
            Err(message) => BodyStep::Failed(message),
        }
    }

    /// Takes the next chunk, or the end of the body.
    pub fn next(
        &mut self,
        chunk: Option<bytes::Bytes>,
        label: &str,
        api_key: &str,
        max_json_bytes: usize,
    ) -> (step: BodyStep)
        requires
            old(self)@.wf(),
        ensures
            (final(self)@, step@) == old(self)@.next(
                match chunk {
                    Some(chunk) => Some(super::stream::bytes_held(chunk)),
                    None => None,
                },
                label@,
                api_key@,
                max_json_bytes,
            ),
            step is More ==> final(self)@.wf(),
    {
        match self.json.take() {
            Some(mut bytes) => match chunk {
                Some(chunk) => {
                    let ghost before = bytes@;
                    let part = chunk_bytes(&chunk);
                    bytes.extend_from_slice(part);
                    assert(bytes@ =~= before + part@);
                    self.collect(bytes, label, max_json_bytes)
                },
                None => {
                    self.chunks.clear();
                    self.prefix.clear();
                    assert(self@.chunks =~= seq![]);
                    BodyStep::Json(bytes)
                },
            },
            None => match chunk {
                Some(chunk) => {
                    let part = chunk_bytes(&chunk);
                    let ghost known = self.prefix@;
                    let remaining: usize = MAX_RESPONSE_SNIFF_SIZE - self.prefix.len();
                    let mut i: usize = 0;
                    while i < part.len() && i < remaining
                        invariant
                            i <= part@.len(),
                            i <= remaining,
                            self.prefix@ == known + part@.take(i as int),
                            self.content_type == old(self).content_type,
                            self.content_encoding == old(self).content_encoding,
                            self.chunks == old(self).chunks,
                            self.json is None,
                        decreases part@.len() - i,
                    {
                        self.prefix.push(part[i]);
                        assert(part@.take(i + 1) =~= part@.take(i as int).push(part@[i as int]));
                        i += 1;
                    }
                    self.chunks.push(chunk);
                    proof {
                        let held = old(self)@.chunks;
                        let all = held.push(part@);
                        assert(self@.chunks =~= all);
                        assert(all.flatten() =~= held.flatten() + part@);
                        assert(self.prefix@ =~= sniffed(all.flatten()));
                    }
                    match inspect_body_signature(&self.prefix) {
                        PrefixDecision::Detected(format) => self.tell(
                            format,
                            label,
                            max_json_bytes,
                        ),
                        PrefixDecision::NoMatch => self.give_up(
                            SniffStop::Mismatch,
                            label,
                            api_key,
                            max_json_bytes,
                        ),
                        PrefixDecision::NeedMore => {
                            if self.prefix.len() >= MAX_RESPONSE_SNIFF_SIZE {
                                self.give_up(SniffStop::Limit, label, api_key, max_json_bytes)
                            } else {
                                BodyStep::More
                            }
                        },
                    }
                },
                None => self.give_up(SniffStop::EndOfResponse, label, api_key, max_json_bytes),
            },
        }
    }

    /// What is said where reading the next chunk failed.
    pub fn read_failed(&self, error: &TransportError, label: &str, api_key: &str) -> (r: String)
        ensures
            r@ == self@.read_failure(error@, label@, api_key@),
    {
        let mut context = text::concat("读取 ", label);
        match &self.json {
            Some(_) => context.append(" JSON 响应失败"),
            None => context.append(" 响应失败"),
        }
        format_reqwest_error(context.as_str(), error, api_key)
    }
}

/// A body without its byte order mark.
pub open spec fn without_bom(body: Seq<u8>) -> Seq<u8> {
    if super::stream::bom().is_prefix_of(body) {
        body.skip(3)
    } else {
        body
    }
}

proof fn lemma_unmarked(r: ReaderView)
    requires
        r.wf(),
        r.json is None,
    ensures
        r.unmarked().flatten() == without_bom(r.chunks.flatten()),
{
    let body = r.chunks.flatten();
    if super::stream::bom().is_prefix_of(body) {
        assert(super::stream::bom() =~= body.subrange(0, 3));
        assert(r.prefix.subrange(0, 3) =~= body.subrange(0, 3));
        super::stream::law_dropped_from_the_front(r.chunks, 3);
    } else {
        if super::stream::bom().is_prefix_of(r.prefix) {
            assert(super::stream::bom() =~= r.prefix.subrange(0, 3));
            assert(r.prefix.subrange(0, 3) =~= body.subrange(0, 3));
        }
    }
}

/// Nothing of a body gets lost or doubled. What is handed on as the start of a stream, or
/// kept as the start of a JSON text, is all that came in, without the byte order mark; a
/// JSON text then grows by each chunk, and is handed on whole at the end.
pub proof fn law_body_is_kept(
    r: ReaderView,
    chunk: Option<Seq<u8>>,
    label: Seq<char>,
    api_key: Seq<char>,
    max: usize,
)
    requires
        r.wf(),
    ensures
        ({
            let came_in = match chunk {
                Some(chunk) => r.chunks.flatten() + chunk,
                None => r.chunks.flatten(),
            };
            let (after, step) = r.next(chunk, label, api_key, max);
            match r.json {
                None => {
                    &&& step matches BodyStepView::Sse(chunks) ==> chunks.flatten() == without_bom(
                        came_in,
                    )
                    &&& step is More ==> match after.json {
                        Some(bytes) => bytes == without_bom(came_in),
                        None => after.chunks.flatten() == came_in,
                    }
                    &&& step !is Json
                },
                Some(bytes) => {
                    &&& step is More ==> chunk is Some && after.json == Some(bytes + chunk->0)
                    &&& step matches BodyStepView::Json(whole) ==> whole == bytes && chunk is None
                    &&& step !is Sse
                },
            }
        }),
{
    if r.json is None {
        match chunk {
            Some(chunk) => {
                let chunks = r.chunks.push(chunk);
                assert(chunks.flatten() =~= r.chunks.flatten() + chunk);
                lemma_unmarked(ReaderView { chunks, prefix: sniffed(chunks.flatten()), ..r });
            },
            None => {
                lemma_unmarked(r);
            },
        }
    }
}

/// A reader after the chunks, as long as each of them leaves it wanting more.
pub open spec fn fed(
    r: ReaderView,
    chunks: Seq<Seq<u8>>,
    label: Seq<char>,
    api_key: Seq<char>,
    max: usize,
) -> Option<ReaderView>
    decreases chunks.len(),
{
    if chunks.len() == 0 {
        Some(r)
    } else {
        match fed(r, chunks.drop_last(), label, api_key, max) {
            Some(before) => match before.next(Some(chunks.last()), label, api_key, max) {
                (after, BodyStepView::More) => Some(after),
                _ => None,
            },
            None => None,
        }
    }
}

/// What the first bytes tell, more of them do not change.
proof fn lemma_sniffed_is_final(bytes: Seq<u8>, more: Seq<u8>)
    ensures
        super::stream::decision(sniffed(bytes)) != PrefixDecision::NeedMore
            ==> super::stream::decision(sniffed(bytes + more)) == super::stream::decision(
            sniffed(bytes),
        ),
        sniffed(bytes).len() >= MAX_RESPONSE_SNIFF_SIZE ==> sniffed(bytes + more) == sniffed(bytes),
{
    let seen = sniffed(bytes);
    let all = sniffed(bytes + more);
    assert(all =~= seen + all.skip(seen.len() as int));
    if super::stream::decision(seen) != PrefixDecision::NeedMore {
        super::stream::law_decision_is_final(seen, all.skip(seen.len() as int));
    }
}

/// Once the format is told, it is known whether there is a byte order mark.
proof fn lemma_mark_is_known(bytes: Seq<u8>, more: Seq<u8>)
    requires
        super::stream::decision(sniffed(bytes)) != PrefixDecision::NeedMore,
    ensures
        without_bom(bytes) + more == without_bom(bytes + more),
{
    let bom = super::stream::bom();
    let all = bytes + more;
    if bom.is_prefix_of(bytes) {
        assert(bom =~= bytes.subrange(0, 3));
        assert(bom =~= all.subrange(0, 3));
        assert(bytes.skip(3) + more =~= all.skip(3));
    } else if bom.is_prefix_of(all) {
        assert(bom =~= all.subrange(0, 3));
        if bytes.len() >= 3 {
            assert(bom =~= bytes.subrange(0, 3));
        } else {
            assert(bytes =~= bom.subrange(0, bytes.len() as int));
            assert(super::stream::trim_ascii_start(Seq::<u8>::empty()) =~= seq![]);
            if bytes.len() == 0 {
                assert(bytes =~= seq![]);
            }
        }
    }
}

/// Whether the first bytes of a body tell its format, or that they do not.
spec fn is_told(body: Seq<u8>) -> bool {
    super::stream::decision(sniffed(body)) != PrefixDecision::NeedMore
}

proof fn lemma_fed(
    r: ReaderView,
    chunks: Seq<Seq<u8>>,
    rest: Seq<u8>,
    label: Seq<char>,
    api_key: Seq<char>,
    max: usize,
)
    requires
        r.wf(),
        r.json is None,
        r.chunks.len() == 0,
        super::stream::decision(sniffed(chunks.flatten() + rest)) == PrefixDecision::Detected(
            ResponseFormat::Json,
        ),
        is_told(chunks.flatten()) ==> without_bom(chunks.flatten()).len() <= max,
    ensures
        match fed(r, chunks, label, api_key, max) {
            Some(after) => after.wf() && match after.json {
                None => !is_told(chunks.flatten()) && after.chunks == chunks,
                Some(bytes) => is_told(chunks.flatten()) && bytes == without_bom(
                    chunks.flatten(),
                ),
            },
            None => false,
        },
    decreases chunks.len(),
{
    let body = chunks.flatten();
    if chunks.len() == 0 {
        assert(r.chunks =~= chunks);
        assert(body =~= seq![]);
        assert(super::stream::trim_ascii_start(Seq::<u8>::empty()) =~= seq![]);
    } else {
        let before = chunks.drop_last();
        let chunk = chunks.last();
        let known = before.flatten();
        assert(before.push(chunk) =~= chunks);
        assert(body =~= known + chunk);
        assert(known + (chunk + rest) =~= body + rest);
        lemma_sniffed_is_final(known, chunk);
        lemma_sniffed_is_final(body, rest);
        if is_told(known) {
            lemma_mark_is_known(known, chunk);
        }
        lemma_fed(r, before, chunk + rest, label, api_key, max);
        let at = fed(r, before, label, api_key, max)->0;
        if at.json is None {
            lemma_unmarked(ReaderView { chunks, prefix: sniffed(body), ..at });
            assert(at.chunks.push(chunk) =~= chunks);
        }
    }
}

/// A body that begins as JSON is read whole, wherever it is cut into chunks: after all of
/// them it is handed on without the byte order mark, unless it is too long.
pub proof fn law_json_is_read_whole(
    r: ReaderView,
    chunks: Seq<Seq<u8>>,
    label: Seq<char>,
    api_key: Seq<char>,
    max: usize,
)
    requires
        r.wf(),
        r.json is None,
        r.chunks.len() == 0,
        super::stream::decision(sniffed(chunks.flatten())) == PrefixDecision::Detected(
            ResponseFormat::Json,
        ),
        without_bom(chunks.flatten()).len() <= max,
    ensures
        fed(r, chunks, label, api_key, max) matches Some(after) && after.next(
            None,
            label,
            api_key,
            max,
        ).1 == BodyStepView::Json(without_bom(chunks.flatten())),
{
    let none: Seq<u8> = seq![];
    assert(chunks.flatten() + none =~= chunks.flatten());
    lemma_fed(r, chunks, none, label, api_key, max);
}

/// Whether the chunk of the given number, counted from one, is the first that does not leave
/// a reader wanting more, because the body is then too long.
pub open spec fn is_too_long_at(
    r: ReaderView,
    chunks: Seq<Seq<u8>>,
    n: int,
    label: Seq<char>,
    api_key: Seq<char>,
    max: usize,
) -> bool {
    0 < n <= chunks.len() && (fed(r, chunks.take(n - 1), label, api_key, max) matches Some(before)
        && before.next(Some(chunks[n - 1]), label, api_key, max).1 == BodyStepView::Failed(
        too_long(label, max),
    ))
}

proof fn lemma_too_long(
    r: ReaderView,
    chunks: Seq<Seq<u8>>,
    rest: Seq<u8>,
    label: Seq<char>,
    api_key: Seq<char>,
    max: usize,
)
    requires
        r.wf(),
        r.json is None,
        r.chunks.len() == 0,
        super::stream::decision(sniffed(chunks.flatten() + rest)) == PrefixDecision::Detected(
            ResponseFormat::Json,
        ),
        is_told(chunks.flatten()),
        without_bom(chunks.flatten()).len() > max,
    ensures
        exists|n: int| #[trigger] is_too_long_at(r, chunks, n, label, api_key, max),
    decreases chunks.len(),
{
    let body = chunks.flatten();
    assert(super::stream::trim_ascii_start(Seq::<u8>::empty()) =~= seq![]);
    if chunks.len() == 0 {
        assert(body =~= seq![]);
    } else {
        let before = chunks.drop_last();
        let chunk = chunks.last();
        let known = before.flatten();
        assert(before.push(chunk) =~= chunks);
        assert(body =~= known + chunk);
        assert(known + (chunk + rest) =~= body + rest);
        lemma_sniffed_is_final(known, chunk);
        lemma_sniffed_is_final(body, rest);
        if is_told(known) {
            lemma_mark_is_known(known, chunk);
        }
        if is_told(known) && without_bom(known).len() > max {
            lemma_too_long(r, before, chunk + rest, label, api_key, max);
            let n = choose|n: int| #[trigger]
                is_too_long_at(r, before, n, label, api_key, max);
            assert(chunks.take(n - 1) =~= before.take(n - 1));
            assert(is_too_long_at(r, chunks, n, label, api_key, max));
        } else {
            lemma_fed(r, before, chunk + rest, label, api_key, max);
            let at = fed(r, before, label, api_key, max)->0;
            if at.json is None {
                lemma_unmarked(ReaderView { chunks, prefix: sniffed(body), ..at });
                assert(at.chunks.push(chunk) =~= chunks);
            }
            assert(chunks.take(chunks.len() - 1) =~= before);
            assert(is_too_long_at(r, chunks, chunks.len() as int, label, api_key, max));
        }
    }
}

/// A body that begins as JSON and is too long is refused for that, wherever it is cut into
/// chunks.
pub proof fn law_long_json_is_refused(
    r: ReaderView,
    chunks: Seq<Seq<u8>>,
    label: Seq<char>,
    api_key: Seq<char>,
    max: usize,
)
    requires
        r.wf(),
        r.json is None,
        r.chunks.len() == 0,
        super::stream::decision(sniffed(chunks.flatten())) == PrefixDecision::Detected(
            ResponseFormat::Json,
        ),
        without_bom(chunks.flatten()).len() > max,
    ensures
        exists|n: int| #[trigger] is_too_long_at(r, chunks, n, label, api_key, max),
{
    let none: Seq<u8> = seq![];
    assert(chunks.flatten() + none =~= chunks.flatten());
    lemma_too_long(r, chunks, none, label, api_key, max);
}

} // verus!
