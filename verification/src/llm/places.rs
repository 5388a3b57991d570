//! What holds of the addresses that are asked.
use super::protocol::Protocol;
use super::url::UrlView;
use crate::config::ConfigView;
use crate::text;
use vstd::prelude::*;
use vstd::string::*;

verus! {

broadcast use {vstd::seq_lib::group_seq_properties, vstd::string::group_string_axioms};

/// Whether a text names none of the methods of Gemini.
pub open spec fn names_no_method(s: Seq<char>) -> bool {
    &&& !text::contains(s, ":streamGenerateContent"@)
    &&& !text::contains(s, ":generateContent"@)
    &&& !text::contains(s, ":countTokens"@)
}

/// Whether a text begins and ends with something other than white space, and does not end
/// with a slash.
pub open spec fn is_trim(s: Seq<char>) -> bool {
    s.len() > 0 && !text::is_space(s[0]) && !text::is_space(s.last()) && s.last() != '/'
}

/// Whether a text is one of the paths at which the known protocols are asked, whatever the
/// case of its letters.
pub open spec fn is_path(path: Seq<char>) -> bool {
    let lowered = text::lower(path);
    lowered == "/chat/completions"@ || lowered == "/responses"@ || lowered == "/messages"@
        || lowered == "/systemone"@
}

/// Whether an address is nothing but a base: it neither names a method of Gemini nor ends in
/// a known path.
pub open spec fn is_bare(base: Seq<char>) -> bool {
    &&& is_trim(base)
    &&& names_no_method(base)
    &&& forall|head: Seq<char>, path: Seq<char>|
        #![trigger head + path]
        base == head + path ==> !is_path(path)
}

proof fn lemma_tidied(
    before: Seq<char>,
    address: Seq<char>,
    slashes: Seq<char>,
    after: Seq<char>,
)
    requires
        is_trim(address),
        forall|i: int| 0 <= i < before.len() ==> text::is_space(#[trigger] before[i]),
        forall|i: int| 0 <= i < slashes.len() ==> #[trigger] slashes[i] == '/',
        forall|i: int| 0 <= i < after.len() ==> text::is_space(#[trigger] after[i]),
    ensures
        super::protocol::tidy(before + (address + slashes) + after) == address,
{
    let body = address + slashes;
    assert(body[0] == address[0]);
    if slashes.len() > 0 {
        assert(body.last() == slashes[slashes.len() - 1]);
    } else {
        assert(body =~= address);
    }
    text::law_trim(before, body, after);
    text::law_trailing_run(address, '/', slashes);
}

proof fn lemma_no_method(address: Seq<char>)
    requires
        names_no_method(address),
    ensures
        super::protocol::before_model(address) is None,
{
    text::law_held_parts_stand_in_the_text(address, ":streamGenerateContent"@);
    text::law_held_parts_stand_in_the_text(address, ":generateContent"@);
    text::law_held_parts_stand_in_the_text(address, ":countTokens"@);
}

proof fn lemma_lower_suffix(address: Seq<char>, path: Seq<char>)
    requires
        path.is_suffix_of(text::lower(address)),
    ensures
        path.len() <= address.len(),
        text::lower(address.skip(address.len() - path.len())) == path,
        address == address.take(address.len() - path.len()) + address.skip(
            address.len() - path.len(),
        ),
{
    let lowered = text::lower(address);
    let n = address.len() - path.len();
    assert(lowered.len() == address.len());
    assert(lowered.subrange(n, lowered.len() as int) =~= path);
    assert(text::lower(address.skip(n)) =~= lowered.subrange(n, lowered.len() as int));
    assert(address =~= address.take(n) + address.skip(n));
}

proof fn lemma_no_path(base: Seq<char>)
    requires
        is_bare(base),
    ensures
        super::protocol::endpoint_suffix(base) is None,
{
    if super::protocol::endpoint_suffix(base) is Some {
        let path = super::protocol::endpoint_suffix(base)->0;
        lemma_lower_suffix(base, path);
        let n = base.len() - path.len();
        assert(base == base.take(n) + base.skip(n));
        assert(is_path(base.skip(n)));
    }
}

/// A base is taken as it is, whatever white space stands around it and however many slashes
/// behind it.
pub proof fn law_bare_base_is_kept(
    before: Seq<char>,
    base: Seq<char>,
    slashes: Seq<char>,
    after: Seq<char>,
)
    requires
        is_bare(base),
        forall|i: int| 0 <= i < before.len() ==> text::is_space(#[trigger] before[i]),
        forall|i: int| 0 <= i < slashes.len() ==> #[trigger] slashes[i] == '/',
        forall|i: int| 0 <= i < after.len() ==> text::is_space(#[trigger] after[i]),
    ensures
        super::protocol::base_of(before + (base + slashes) + after) == base,
        super::protocol::base_of(base) == base,
{
    lemma_tidied(before, base, slashes, after);
    lemma_tidied(seq![], base, seq![], seq![]);
    assert(seq![] + (base + seq![]) + seq![] =~= base);
    lemma_no_method(base);
    lemma_no_path(base);
}

/// Whether a text is a version that comes off with an endpoint, or nothing.
pub open spec fn is_dropped_version(version: Seq<char>) -> bool {
    let lowered = text::lower(version);
    version.len() == 0 || lowered == "/v1"@ || lowered == "/v1beta"@
}

/// Whether a text ends in such a version.
pub open spec fn ends_in_dropped_version(s: Seq<char>) -> bool {
    "/v1"@.is_suffix_of(text::lower(s)) || "/v1beta"@.is_suffix_of(text::lower(s))
}

proof fn lemma_suffix_of_lower(head: Seq<char>, tail: Seq<char>, part: Seq<char>)
    requires
        text::lower(tail) == part,
    ensures
        part.is_suffix_of(text::lower(head + tail)),
{
    let lowered = text::lower(head + tail);
    let n = head.len() as int;
    assert(lowered.subrange(n, lowered.len() as int) =~= part);
}

proof fn lemma_stripped(base: Seq<char>, version: Seq<char>)
    requires
        is_dropped_version(version),
        version.len() == 0 ==> !ends_in_dropped_version(base),
    ensures
        super::protocol::version_stripped(base + version) == base,
{
    reveal_strlit("/v1");
    reveal_strlit("/v1beta");
    let s = base + version;
    assert(text::lower(version).len() == version.len());
    assert("/v1"@.len() == 3 && "/v1beta"@.len() == 7);
    if version.len() == 0 {
        assert(s =~= base);
    } else if text::lower(version) == "/v1beta"@ {
        assert(version.len() == 7);
        lemma_suffix_of_lower(base, version, "/v1beta"@);
        assert(s.take(s.len() - 7) =~= base);
    } else {
        assert(version.len() == 3);
        lemma_suffix_of_lower(base, version, "/v1"@);
        let lowered = text::lower(s);
        assert(lowered.last() == text::lower(version).last());
        assert("/v1beta"@.last() == 'a' && "/v1"@.last() == '1');
        assert(s.take(s.len() - 3) =~= base);
    }
}

proof fn lemma_known_path(address: Seq<char>, path: Seq<char>)
    requires
        is_path(path),
    ensures
        super::protocol::endpoint_suffix(address + path) == Some(text::lower(path)),
{
    reveal_strlit("/chat/completions");
    reveal_strlit("/responses");
    reveal_strlit("/messages");
    reveal_strlit("/systemone");
    let s = address + path;
    let lowered = text::lower(s);
    lemma_suffix_of_lower(address, path, text::lower(path));
    let n = s.len() as int;
    assert(lowered.len() == n);
    assert forall|i: int| 1 <= i <= path.len() implies #[trigger] lowered[n - i] == text::lower(
        path,
    )[path.len() - i] by {}
    let plain = text::lower(path);
    assert(lowered[n - 2] == plain[path.len() - 2]);
    assert(lowered[n - 3] == plain[path.len() - 3]);
    assert(lowered[n - 1] == plain[path.len() - 1]);
    assert("/chat/completions"@[15] == 'n' && "/responses"@[8] == 'e' && "/messages"@[7] == 'e'
        && "/systemone"@[8] == 'n');
    assert("/chat/completions"@[14] == 'o' && "/responses"@[7] == 's' && "/messages"@[6] == 'g'
        && "/systemone"@[7] == 'o' && "/chat/completions"@[16] == 's' && "/systemone"@[9] == 'e'
        && "/responses"@[9] == 's' && "/messages"@[8] == 's');
    assert("/chat/completions"@.is_suffix_of(lowered) ==> lowered[n - 2] == 'n') by {
        if "/chat/completions"@.is_suffix_of(lowered) {
            assert(lowered.subrange(n - 17, n)[15] == lowered[n - 2]);
            assert(lowered.subrange(n - 17, n)[16] == lowered[n - 1]);
        }
    }
    assert("/chat/completions"@.is_suffix_of(lowered) ==> lowered[n - 1] == 's') by {
        if "/chat/completions"@.is_suffix_of(lowered) {
            assert(lowered.subrange(n - 17, n)[16] == lowered[n - 1]);
        }
    }
    assert("/responses"@.is_suffix_of(lowered) ==> lowered[n - 2] == 'e' && lowered[n - 3] == 's')
        by {
        if "/responses"@.is_suffix_of(lowered) {
            assert(lowered.subrange(n - 10, n)[8] == lowered[n - 2]);
            assert(lowered.subrange(n - 10, n)[7] == lowered[n - 3]);
        }
    }
    assert("/messages"@.is_suffix_of(lowered) ==> lowered[n - 2] == 'e' && lowered[n - 3] == 'g')
        by {
        if "/messages"@.is_suffix_of(lowered) {
            assert(lowered.subrange(n - 9, n)[7] == lowered[n - 2]);
            assert(lowered.subrange(n - 9, n)[6] == lowered[n - 3]);
        }
    }
}

/// A full endpoint is taken back to its base: the known path comes off, and with it a `/v1`
/// or `/v1beta` before it, whatever the case of the letters, the white space around it and
/// the slashes behind it.
pub proof fn law_endpoint_is_cut(
    before: Seq<char>,
    base: Seq<char>,
    version: Seq<char>,
    path: Seq<char>,
    slashes: Seq<char>,
    after: Seq<char>,
)
    requires
        base.len() > 0,
        !text::is_space(base[0]),
        is_dropped_version(version),
        version.len() == 0 ==> !ends_in_dropped_version(base),
        is_path(path),
        names_no_method(base + version + path),
        forall|i: int| 0 <= i < before.len() ==> text::is_space(#[trigger] before[i]),
        forall|i: int| 0 <= i < slashes.len() ==> #[trigger] slashes[i] == '/',
        forall|i: int| 0 <= i < after.len() ==> text::is_space(#[trigger] after[i]),
    ensures
        super::protocol::base_of(before + (base + version + path + slashes) + after) == base,
{
    let address = base + version + path;
    reveal_strlit("/chat/completions");
    reveal_strlit("/responses");
    reveal_strlit("/messages");
    reveal_strlit("/systemone");
    assert(path.len() > 0) by {
        assert(text::lower(path).len() == path.len());
    }
    assert(text::lower(path).last() == text::lower_char(path.last()));
    assert(text::lower(path).last() == 's' || text::lower(path).last() == 'e');
    assert(address.last() == path.last());
    assert(address[0] == base[0]);
    assert(is_trim(address));
    lemma_tidied(before, address, slashes, after);
    lemma_no_method(address);
    lemma_known_path(base + version, path);
    lemma_stripped(base, version);
    assert(text::lower(path).len() == path.len());
    assert(address.take(address.len() - path.len()) =~= base + version);
}

/// A full Gemini endpoint is taken back to its base: the model and the method come off, with
/// all behind them, and a `/v1` or `/v1beta` before them.
pub proof fn law_gemini_endpoint_is_cut(
    base: Seq<char>,
    version: Seq<char>,
    model: Seq<u8>,
    rest: Seq<char>,
)
    requires
        base.len() > 0,
        !text::is_space(base[0]),
        is_dropped_version(version),
        version.len() == 0 ==> !ends_in_dropped_version(base),
        !text::contains(base + version, ":streamGenerateContent"@),
        rest.len() > 0 ==> !text::is_space(rest.last()) && rest.last() != '/',
    ensures
        super::protocol::base_of(
            base + version + "/models/"@ + super::url::percent_encoded(model) + (
            ":streamGenerateContent"@ + rest),
        ) == base,
{
    let name = super::url::percent_encoded(model);
    let method = ":streamGenerateContent"@;
    let head = base + version + "/models/"@ + name;
    let address = head + (method + rest);
    reveal_strlit(":streamGenerateContent");
    super::url::law_encoded_is_plain(model);
    assert(address[0] == base[0]);
    assert(method.last() == 't');
    if rest.len() > 0 {
        assert(address.last() == rest.last());
    } else {
        assert(address.last() == method.last());
    }
    lemma_tidied(seq![], address, seq![], seq![]);
    assert(seq![] + (address + seq![]) + seq![] =~= address);
    super::address::lemma_first_method(base + version, name, rest);
    assert(address.take(head.len() as int) =~= head);
    super::address::lemma_last_models(base + version, name);
    assert(address.take((base + version).len() as int) =~= base + version);
    lemma_stripped(base, version);
}

/// A last segment of a `v`, one or more digits and then letters is a version.
pub proof fn law_versions_are_known(
    head: Seq<char>,
    v: char,
    digits: Seq<char>,
    letters: Seq<char>,
)
    requires
        v == 'v' || v == 'V',
        digits.len() > 0,
        forall|i: int| 0 <= i < digits.len() ==> '0' <= #[trigger] digits[i] <= '9',
        forall|i: int|
            0 <= i < letters.len() ==> 'a' <= #[trigger] letters[i] <= 'z' || 'A' <= letters[i]
                <= 'Z',
    ensures
        super::protocol::has_version(head.push('/') + (seq![v] + digits + letters)),
{
    let segment = seq![v] + digits + letters;
    assert(!segment.contains('/')) by {
        if segment.contains('/') {
            let i = choose|i: int| 0 <= i < segment.len() && segment[i] == '/';
            if i == 0 {
            } else if i <= digits.len() {
                assert(segment[i] == digits[i - 1]);
            } else {
                assert(segment[i] == letters[i - 1 - digits.len()]);
            }
        }
    }
    text::law_before_and_behind(head, '/', segment);
    let k = 1 + digits.len();
    assert forall|i: int| 1 <= i < k implies text::is_digit(#[trigger] segment[i]) by {
        assert(segment[i] == digits[i - 1]);
    }
    assert forall|i: int| k <= i < segment.len() implies text::is_letter(#[trigger] segment[i]) by {
        assert(segment[i] == letters[i - k]);
    }
    assert(super::protocol::version_split(segment, k as int));
}

/// A last segment that does not start with a `v`, that has no digit behind it or that holds
/// anything but digits and letters is no version.
pub proof fn law_other_segments_are_no_version(head: Seq<char>, segment: Seq<char>)
    requires
        !segment.contains('/'),
        segment.len() < 2 || !(segment[0] == 'v' || segment[0] == 'V') || !('0' <= segment[1]
            <= '9') || exists|i: int|
            0 < i < segment.len() && !('0' <= #[trigger] segment[i] <= '9') && !('a' <= segment[i]
                <= 'z') && !('A' <= segment[i] <= 'Z'),
    ensures
        !super::protocol::has_version(head.push('/') + segment),
        !super::protocol::has_version(segment),
{
    text::law_before_and_behind(head, '/', segment);
    if super::protocol::is_version(segment) {
        let k = choose|k: int| super::protocol::version_split(segment, k);
        assert(text::is_digit(segment[1]));
        let i = choose|i: int|
            0 < i < segment.len() && !('0' <= #[trigger] segment[i] <= '9') && !('a' <= segment[i]
                <= 'z') && !('A' <= segment[i] <= 'Z');
        if i < k {
            assert(text::is_digit(segment[i]));
        } else {
            assert(text::is_letter(segment[i]));
        }
    }
}

/// A base without a version is asked under `/v1`, or for Gemini under `/v1beta`, and one with
/// a version under that, each protocol at its own path.
pub proof fn law_endpoints_stand_behind_the_base(base: Seq<char>, model: Seq<char>)
    requires
        is_bare(base),
    ensures
        ({
            let encoded = super::url::percent_encoded(vstd::utf8::encode_utf8(model));
            let own = super::protocol::has_version(base);
            let v1 = if own {
                base
            } else {
                base + "/v1"@
            };
            let v1beta = if own {
                base
            } else {
                base + "/v1beta"@
            };
            &&& super::protocol::endpoint_of(Protocol::OpenAiChat, base, model) == v1
                + "/chat/completions"@
            &&& super::protocol::endpoint_of(Protocol::OpenAiResponses, base, model) == v1
                + "/responses"@
            &&& super::protocol::endpoint_of(Protocol::Claude, base, model) == v1 + "/messages"@
            &&& super::protocol::endpoint_of(Protocol::Jev, base, model) == v1 + "/systemone"@
            &&& super::protocol::endpoint_of(Protocol::GeminiInteractions, base, model) == v1beta
                + "/interactions"@
            &&& super::protocol::endpoint_of(Protocol::Gemini, base, model) == v1beta + ("/models/"@
                + encoded + ":streamGenerateContent?alt=sse"@)
        }),
{
    law_bare_base_is_kept(seq![], base, seq![], seq![]);
}

/// Whether a path, without the slashes at its end, ends in a part, whatever the case of its
/// letters.
pub open spec fn path_ends_in(path: Seq<char>, part: Seq<char>) -> bool {
    part.is_suffix_of(text::lower(text::trim_end_of(path, '/')))
}

/// Whether a host is this one, whatever the case of its letters.
pub open spec fn is_host(host: Option<Seq<char>>, name: Seq<char>) -> bool {
    host matches Some(host) && text::lower(host) == text::lower(name)
}

/// The protocol is told by the address: JEV by its host or its path, then Gemini by its host,
/// then Anthropic by its host or its path, then Responses by its path; every other address,
/// and one that is none, is taken for Chat Completions.
pub proof fn law_protocol_is_told_by_the_address(parts: UrlView)
    ensures
        ({
            let jev = is_host(parts.host, "api.typesafe.ai"@) || path_ends_in(
                parts.path,
                "/systemone"@,
            );
            let gemini = is_host(parts.host, "generativelanguage.googleapis.com"@);
            let anthropic = is_host(parts.host, "api.anthropic.com"@) || path_ends_in(
                parts.path,
                "/messages"@,
            );
            let responses = path_ends_in(parts.path, "/responses"@);
            let protocol = super::protocol::protocol_of_parts(Some(parts));
            &&& protocol is Jev <==> jev
            &&& protocol is Gemini <==> !jev && gemini
            &&& protocol is Claude <==> !jev && !gemini && anthropic
            &&& protocol is OpenAiResponses <==> !jev && !gemini && !anthropic && responses
            &&& protocol is OpenAiChat <==> !jev && !gemini && !anthropic && !responses
        }),
        super::protocol::protocol_of_parts(None) is OpenAiChat,
{
    reveal_strlit("api.anthropic.com");
    reveal_strlit("generativelanguage.googleapis.com");
    assert(text::lower("api.anthropic.com"@).len() == 17);
    assert(text::lower("generativelanguage.googleapis.com"@).len() == 33);
    assert(text::lower(seq![]).len() == 0);
}

/// The protocol that is set is the one that is spoken, whatever the address; where none is
/// set, it is the one that the address tells.
pub proof fn law_set_protocol_is_spoken(config: ConfigView)
    ensures
        config.protocol matches Some(protocol) ==> config.spoken() == protocol,
        config.protocol is None ==> config.spoken() == super::protocol::protocol_of_parts(
            super::url::url_of(config.base_url),
        ),
{
}

/// No two protocols are called the same, and all but JEV have a switch for thinking.
pub proof fn law_protocols_are_told_apart(protocol: Protocol, other: Protocol)
    ensures
        super::protocol::name_of(protocol) == super::protocol::name_of(other) ==> protocol == other,
        super::protocol::thinks(protocol) <==> !(protocol is Jev),
{
    reveal_strlit("Chat Completions");
    reveal_strlit("Responses");
    reveal_strlit("Anthropic Messages");
    reveal_strlit("Gemini");
    reveal_strlit("Gemini Interactions");
    reveal_strlit("JEV");
    assert("Chat Completions"@.len() == 16 && "Responses"@.len() == 9 && "Anthropic Messages"@.len()
        == 18 && "Gemini"@.len() == 6 && "Gemini Interactions"@.len() == 19 && "JEV"@.len() == 3);
}

/// A Gemini endpoint with another of its methods is taken back to its base as well.
pub proof fn law_other_gemini_endpoints_are_cut(
    base: Seq<char>,
    version: Seq<char>,
    model: Seq<u8>,
    method: Seq<char>,
    rest: Seq<char>,
)
    requires
        base.len() > 0,
        !text::is_space(base[0]),
        is_dropped_version(version),
        version.len() == 0 ==> !ends_in_dropped_version(base),
        method == ":generateContent"@ || method == ":countTokens"@,
        rest.len() > 0 ==> !text::is_space(rest.last()) && rest.last() != '/',
        ({
            let head = base + version + "/models/"@ + super::url::percent_encoded(model);
            let address = head + (method + rest);
            &&& !text::contains(address, ":streamGenerateContent"@)
            &&& method == ":countTokens"@ ==> !text::contains(address, ":generateContent"@)
            &&& forall|i: int| 0 <= i < head.len() ==> !text::occurs_at(address, method, i)
        }),
    ensures
        super::protocol::base_of(
            base + version + "/models/"@ + super::url::percent_encoded(model) + (method + rest),
        ) == base,
{
    let name = super::url::percent_encoded(model);
    let head = base + version + "/models/"@ + name;
    let address = head + (method + rest);
    reveal_strlit(":generateContent");
    reveal_strlit(":countTokens");
    assert(":generateContent"@.last() == 't' && ":countTokens"@.last() == 's');
    assert(is_trim(address)) by {
        assert(address[0] == base[0]);
        if rest.len() > 0 {
            assert(address.last() == rest.last());
        } else {
            assert(address.last() == method.last());
        }
    }
    assert(super::protocol::tidy(address) == address) by {
        lemma_tidied(seq![], address, seq![], seq![]);
        assert(seq![] + (address + seq![]) + seq![] =~= address);
    }
    assert(super::protocol::before_method(address, ":streamGenerateContent"@) is None) by {
        text::law_held_parts_stand_in_the_text(address, ":streamGenerateContent"@);
    }
    assert(method == ":countTokens"@ ==> super::protocol::before_method(
        address,
        ":generateContent"@,
    ) is None) by {
        text::law_held_parts_stand_in_the_text(address, ":generateContent"@);
    }
    lemma_before_method(base + version, model, method, rest);
    lemma_stripped(base, version);
}

proof fn lemma_before_method(
    base: Seq<char>,
    model: Seq<u8>,
    method: Seq<char>,
    rest: Seq<char>,
)
    requires
        ({
            let head = base + "/models/"@ + super::url::percent_encoded(model);
            forall|i: int|
                0 <= i < head.len() ==> !text::occurs_at(head + (method + rest), method, i)
        }),
    ensures
        super::protocol::before_method(
            base + "/models/"@ + super::url::percent_encoded(model) + (method + rest),
            method,
        ) == Some(base),
{
    let name = super::url::percent_encoded(model);
    let head = base + "/models/"@ + name;
    let address = head + (method + rest);
    let at = head.len() as int;
    super::url::law_encoded_is_plain(model);
    assert(address.subrange(at, at + method.len()) =~= method);
    assert(text::occurs_at(address, method, at));
    text::lemma_find_from(address, method, 0);
    assert(text::find(address, method) == Some(at));
    assert(address.take(at) =~= head);
    super::address::lemma_last_models(base, name);
    assert(address.take(base.len() as int) =~= base);
}

} // verus!
