//! What holds of the protocols and of the addresses that they make.
use super::protocol::Protocol;
use crate::text;
use vstd::prelude::*;
use vstd::string::*;

verus! {

broadcast use {vstd::seq_lib::group_seq_properties, vstd::string::group_string_axioms};

/// Going on and going back undo each other, and six steps go round.
pub proof fn law_protocols_go_round(protocol: Protocol)
    ensures
        super::protocol::previous_of(super::protocol::next_of(protocol)) == protocol,
        super::protocol::next_of(super::protocol::previous_of(protocol)) == protocol,
        ({
            let second = super::protocol::next_of(super::protocol::next_of(protocol));
            let fourth = super::protocol::next_of(super::protocol::next_of(second));
            super::protocol::next_of(super::protocol::next_of(fourth)) == protocol
        }),
{
}

/// The protocol so many steps on.
pub open spec fn ahead(protocol: Protocol, steps: nat) -> Protocol
    decreases steps,
{
    if steps == 0 {
        protocol
    } else {
        super::protocol::next_of(ahead(protocol, (steps - 1) as nat))
    }
}

proof fn lemma_ahead(protocol: Protocol, steps: nat)
    ensures
        super::protocol::rank(ahead(protocol, steps)) == (super::protocol::rank(protocol) + steps)
            % 6,
    decreases steps,
{
    if steps > 0 {
        lemma_ahead(protocol, (steps - 1) as nat);
    }
}

/// From any protocol, going on fewer than six times leads to any other.
pub proof fn law_every_protocol_is_reached(from: Protocol, to: Protocol)
    ensures
        exists|steps: nat| steps < 6 && #[trigger] ahead(from, steps) == to,
{
    let steps = ((super::protocol::rank(to) - super::protocol::rank(from)) % 6) as nat;
    lemma_ahead(from, steps);
    assert(super::protocol::rank(ahead(from, steps)) == super::protocol::rank(to));
    assert(ahead(from, steps) == to);
}

proof fn lemma_after_last(a: Seq<char>, b: Seq<char>)
    requires
        b.len() > 0,
        b[0] == '/',
        forall|i: int| 0 < i < b.len() ==> b[i] != '/',
    ensures
        text::after_last(a + b, '/') == b.skip(1),
    decreases b.len(),
{
    let s = a + b;
    if b.len() == 1 {
        assert(s.last() == '/');
        assert(b.skip(1) =~= seq![]);
    } else {
        assert(s.last() == b.last());
        assert(s.drop_last() =~= a + b.drop_last());
        lemma_after_last(a, b.drop_last());
        assert(b.drop_last().skip(1).push(b.last()) =~= b.skip(1));
    }
}

/// The versioned base always ends in a version: the user's own, or the usual one.
pub proof fn law_versioned_base_has_a_version(protocol: Protocol, url: Seq<char>)
    ensures
        super::protocol::has_version(super::protocol::versioned(protocol, url)),
{
    let base = super::protocol::base_of(url);
    if !super::protocol::has_version(base) {
        reveal_strlit("/v1");
        reveal_strlit("/v1beta");
        let version = super::protocol::usual_version(protocol);
        lemma_after_last(base, version);
        assert(super::protocol::version_split(version.skip(1), 2));
    }
}

/// The user's own version is kept as it is.
pub proof fn law_version_of_the_user_is_kept(protocol: Protocol, other: Protocol, url: Seq<char>)
    requires
        super::protocol::has_version(super::protocol::base_of(url)),
    ensures
        super::protocol::versioned(protocol, url) == super::protocol::base_of(url),
        super::protocol::versioned(protocol, url) == super::protocol::versioned(other, url),
{
}

proof fn lemma_trim_start_first(s: Seq<char>)
    ensures
        text::trim_start(s).len() > 0 ==> !text::is_space(text::trim_start(s)[0]),
    decreases s.len(),
{
    if s.len() > 0 && text::is_space(s[0]) {
        lemma_trim_start_first(s.skip(1));
    }
}

proof fn lemma_trim_end_first(s: Seq<char>)
    ensures
        text::trim_end(s).len() > 0 ==> s.len() > 0 && text::trim_end(s)[0] == s[0],
    decreases s.len(),
{
    if s.len() > 0 && text::is_space(s.last()) {
        lemma_trim_end_first(s.drop_last());
    }
}

proof fn lemma_trim_end_of_first(s: Seq<char>, c: char)
    ensures
        text::trim_end_of(s, c).len() > 0 ==> s.len() > 0 && text::trim_end_of(s, c)[0] == s[0],
    decreases s.len(),
{
    if s.len() > 0 && s.last() == c {
        lemma_trim_end_of_first(s.drop_last(), c);
    }
}

proof fn lemma_rfind_upto(s: Seq<char>, part: Seq<char>, i: int)
    requires
        i <= s.len() - part.len(),
    ensures
        match text::rfind_upto(s, part, i) {
            Some(k) => 0 <= k <= i,
            None => true,
        },
    decreases i + 1,
{
    if 0 <= i && !text::occurs_at(s, part, i) {
        lemma_rfind_upto(s, part, i - 1);
    }
}

/// What stands before the version segment begins as the address does.
proof fn lemma_stripped_first(base: Seq<char>)
    ensures
        super::protocol::version_stripped(base).len() > 0 ==> base.len() > 0
            && super::protocol::version_stripped(base)[0] == base[0],
{
    reveal_strlit("/v1");
    reveal_strlit("/v1beta");
}

proof fn lemma_before_method_first(address: Seq<char>, method: Seq<char>)
    ensures
        super::protocol::before_method(address, method) matches Some(base) ==> base.len() > 0
            ==> address.len() > 0 && base[0] == address[0],
{
    text::lemma_find_from(address, method, 0);
    if let Some(at) = text::find(address, method) {
        reveal_strlit("/models/");
        let head = address.take(at);
        lemma_rfind_upto(head, "/models/"@, head.len() - "/models/"@.len());
    }
}

/// A base does not begin with white space.
proof fn lemma_base_first(url: Seq<char>)
    ensures
        super::protocol::base_of(url).len() > 0 ==> !text::is_space(
            super::protocol::base_of(url)[0],
        ),
{
    let address = super::protocol::tidy(url);
    lemma_trim_start_first(url);
    lemma_trim_end_first(text::trim_start(url));
    lemma_trim_end_of_first(text::trim(url), '/');
    assert(address.len() > 0 ==> !text::is_space(address[0]));
    lemma_before_method_first(address, ":streamGenerateContent"@);
    lemma_before_method_first(address, ":generateContent"@);
    lemma_before_method_first(address, ":countTokens"@);
    match super::protocol::before_model(address) {
        Some(base) => {
            lemma_stripped_first(base);
        },
        None => match super::protocol::endpoint_suffix(address) {
            Some(suffix) => {
                lemma_stripped_first(address.take(address.len() - suffix.len()));
            },
            None => {},
        },
    }
}

/// A text that ends neither in white space nor in a slash, and does not begin with white
/// space, is tidy.
proof fn lemma_tidy(s: Seq<char>)
    requires
        s.len() > 0,
        !text::is_space(s[0]),
        !text::is_space(s.last()),
        s.last() != '/',
    ensures
        super::protocol::tidy(s) == s,
{
}

/// A method that does not stand in a base does not come in with an endpoint path.
proof fn lemma_no_method(base: Seq<char>, suffix: Seq<char>, method: Seq<char>)
    requires
        method.len() > 0,
        method[0] == ':',
        forall|i: int| 0 <= i < method.len() ==> method[i] != '/',
        suffix.len() > 0,
        suffix[0] == '/',
        forall|i: int| 0 <= i < suffix.len() ==> suffix[i] != ':',
        super::protocol::before_method(base, method) is None,
    ensures
        super::protocol::before_method(base + suffix, method) is None,
{
    let full = base + suffix;
    text::lemma_find_from(full, method, 0);
    text::lemma_find_from(base, method, 0);
    if let Some(at) = text::find(full, method) {
        let part = full.subrange(at, at + method.len());
        assert(part[0] == full[at]);
        assert(at < base.len()) by {
            if at >= base.len() {
                assert(full[at] == suffix[at - base.len()]);
            }
        }
        assert(at + method.len() <= base.len()) by {
            if at + method.len() > base.len() {
                assert(part[base.len() - at] == full[base.len() as int]);
                assert(full[base.len() as int] == suffix[0]);
            }
        }
        assert(base.subrange(at, at + method.len()) =~= part);
        assert(text::occurs_at(base, method, at));
        assert forall|j: int| 0 <= j < at implies !text::occurs_at(base, method, j) by {
            if text::occurs_at(base, method, j) {
                assert(full.subrange(j, j + method.len()) =~= base.subrange(
                    j,
                    j + method.len(),
                ));
                assert(text::occurs_at(full, method, j));
            }
        }
        assert(text::find(base, method) == Some(at));
        assert(full.take(at) =~= base.take(at));
    }
}

/// Whether a protocol asks every model at the same endpoint, one that is known by its path.
pub open spec fn has_known_path(protocol: Protocol) -> bool {
    protocol is OpenAiChat || protocol is OpenAiResponses || protocol is Claude || protocol is Jev
}

/// The path of such a protocol.
proof fn lemma_path(protocol: Protocol, model: Seq<char>)
    requires
        has_known_path(protocol),
    ensures
        ({
            let path = super::protocol::endpoint_path(protocol, model);
            &&& path.len() > 0
            &&& path[0] == '/'
            &&& path.last() != '/'
            &&& !text::is_space(path.last())
            &&& forall|i: int| 0 <= i < path.len() ==> path[i] != ':'
            &&& text::lower(path) == path
        }),
{
    reveal_strlit("/chat/completions");
    reveal_strlit("/responses");
    reveal_strlit("/messages");
    reveal_strlit("/systemone");
    let path = super::protocol::endpoint_path(protocol, model);
    assert(text::lower(path) =~= path);
}

/// An endpoint is known by the path of its protocol.
proof fn lemma_suffix(protocol: Protocol, base: Seq<char>, model: Seq<char>)
    requires
        has_known_path(protocol),
    ensures
        super::protocol::endpoint_suffix(base + super::protocol::endpoint_path(protocol, model))
            == Some(super::protocol::endpoint_path(protocol, model)),
{
    let path = super::protocol::endpoint_path(protocol, model);
    let full = base + path;
    let lowered = text::lower(full);
    lemma_path(protocol, model);
    assert(lowered.subrange(base.len() as int, full.len() as int) =~= path) by {
        assert forall|i: int| 0 <= i < path.len() implies lowered[base.len() + i] == path[i] by {
            assert(text::lower(path)[i] == text::lower_char(path[i]));
        }
    }
    assert(path.is_suffix_of(lowered));
    let n = lowered.len() as int;
    reveal_strlit("/chat/completions");
    reveal_strlit("/responses");
    reveal_strlit("/messages");
    reveal_strlit("/systemone");
    assert(lowered[n - 1] == path[path.len() - 1]);
    assert(lowered[n - 2] == path[path.len() - 2]);
    assert(lowered[n - 3] == path[path.len() - 3]);
    if "/chat/completions"@.is_suffix_of(lowered) {
        let k = "/chat/completions"@.len() as int;
        assert(lowered.subrange(n - k, n)[k - 1] == lowered[n - 1]);
        assert(lowered.subrange(n - k, n)[k - 2] == lowered[n - 2]);
    }
    if "/responses"@.is_suffix_of(lowered) {
        let k = "/responses"@.len() as int;
        assert(lowered.subrange(n - k, n)[k - 1] == lowered[n - 1]);
        assert(lowered.subrange(n - k, n)[k - 2] == lowered[n - 2]);
        assert(lowered.subrange(n - k, n)[k - 3] == lowered[n - 3]);
    }
    if "/messages"@.is_suffix_of(lowered) {
        let k = "/messages"@.len() as int;
        assert(lowered.subrange(n - k, n)[k - 1] == lowered[n - 1]);
        assert(lowered.subrange(n - k, n)[k - 2] == lowered[n - 2]);
        assert(lowered.subrange(n - k, n)[k - 3] == lowered[n - 3]);
    }
}

/// Whether dropping the version of a base and putting the usual one back gives the base.
pub open spec fn restores_version(protocol: Protocol, base: Seq<char>) -> bool {
    let stripped = super::protocol::version_stripped(base);
    stripped == base || (!super::protocol::has_version(stripped) && stripped
        + super::protocol::usual_version(protocol) == base)
}

/// An endpoint stands for itself: a configuration that holds a full endpoint in place of
/// the base asks at the same address. It holds where the base names no Gemini method, and
/// its version is either not one that is dropped with an endpoint, or the usual one.
pub proof fn law_endpoint_stands_for_itself(
    protocol: Protocol,
    url: Seq<char>,
    model: Seq<char>,
    other: Seq<char>,
)
    requires
        has_known_path(protocol),
        super::protocol::before_model(super::protocol::versioned(protocol, url)) is None,
        restores_version(protocol, super::protocol::versioned(protocol, url)),
    ensures
        super::protocol::endpoint_of(
            protocol,
            super::protocol::endpoint_of(protocol, url, model),
            other,
        ) == super::protocol::endpoint_of(protocol, url, model),
{
    let base = super::protocol::versioned(protocol, url);
    let path = super::protocol::endpoint_path(protocol, model);
    let full = super::protocol::endpoint_of(protocol, url, model);
    lemma_path(protocol, model);
    lemma_base_first(url);
    law_versioned_base_has_a_version(protocol, url);
    reveal_strlit("/v1");
    reveal_strlit("/v1beta");
    assert(base.len() > 0 && !text::is_space(base[0])) by {
        if super::protocol::base_of(url).len() == 0 {
            assert(super::protocol::base_of(url) =~= seq![]);
        }
    }
    assert(full[0] == base[0]);
    assert(full.last() == path.last());
    lemma_tidy(full);
    reveal_strlit(":streamGenerateContent");
    reveal_strlit(":generateContent");
    reveal_strlit(":countTokens");
    lemma_no_method(base, path, ":streamGenerateContent"@);
    lemma_no_method(base, path, ":generateContent"@);
    lemma_no_method(base, path, ":countTokens"@);
    lemma_suffix(protocol, base, model);
    assert(full.take(full.len() - path.len()) =~= base);
}

/// The usual version comes off as it was put on.
proof fn lemma_usual_version_comes_off(protocol: Protocol, base: Seq<char>)
    ensures
        super::protocol::version_stripped(base + super::protocol::usual_version(protocol)) == base,
{
    let version = super::protocol::usual_version(protocol);
    let full = base + version;
    reveal_strlit("/v1");
    reveal_strlit("/v1beta");
    assert(text::lower(version) =~= version);
    let lowered = text::lower(full);
    let n = lowered.len() as int;
    assert(lowered.subrange(n - version.len(), n) =~= version) by {
        assert forall|i: int| 0 <= i < version.len() implies lowered[base.len() + i]
            == version[i] by {
            assert(text::lower(version)[i] == text::lower_char(version[i]));
        }
    }
    assert(version.is_suffix_of(lowered));
    if "/v1beta"@.is_suffix_of(lowered) && version == "/v1"@ {
        assert(lowered.subrange(n - 7, n)[6] == lowered[n - 1]);
        assert(lowered.subrange(n - 3, n)[2] == lowered[n - 1]);
    }
    assert(full.take(n - version.len()) =~= base);
}

/// An address without a version is such a base.
pub proof fn law_bare_base_restores_its_version(protocol: Protocol, url: Seq<char>)
    requires
        !super::protocol::has_version(super::protocol::base_of(url)),
    ensures
        restores_version(protocol, super::protocol::versioned(protocol, url)),
{
    lemma_usual_version_comes_off(protocol, super::protocol::base_of(url));
}

/// Whether an address is a base already: tidy, and without a known endpoint at its end.
pub open spec fn is_base(address: Seq<char>) -> bool {
    &&& super::protocol::tidy(address) == address
    &&& super::protocol::before_model(address) is None
    &&& super::protocol::endpoint_suffix(address) is None
}

/// Where an address is replaced by its base, the same endpoint is asked and the same list is
/// read, provided that the base is not an endpoint in its turn.
pub proof fn law_base_stands_for_its_address(protocol: Protocol, url: Seq<char>, model: Seq<char>)
    requires
        is_base(super::protocol::base_of(url)),
    ensures
        super::protocol::base_of(super::protocol::base_of(url)) == super::protocol::base_of(url),
        super::protocol::endpoint_of(protocol, super::protocol::base_of(url), model)
            == super::protocol::endpoint_of(protocol, url, model),
        super::models::models_url_of(protocol, super::protocol::base_of(url))
            == super::models::models_url_of(protocol, url),
{
}

/// The list of the protocols is the order in which they follow each other.
pub proof fn law_list_is_the_order()
    ensures
        Protocol::ALL@ == super::protocol::order(),
        forall|protocol: Protocol|
            super::protocol::order()[#[trigger] super::protocol::rank(protocol)] == protocol,
{
    assert(Protocol::ALL@ =~= super::protocol::order());
}

proof fn lemma_rfind_at(s: Seq<char>, part: Seq<char>, i: int, k: int)
    requires
        0 <= k <= i,
        text::occurs_at(s, part, k),
        forall|j: int| k < j <= i ==> !text::occurs_at(s, part, j),
    ensures
        text::rfind_upto(s, part, i) == Some(k),
    decreases i - k,
{
    if i > k {
        lemma_rfind_at(s, part, i - 1, k);
    }
}

/// Behind the last `/models/` of a Gemini address stands the name of the model alone.
pub(crate) proof fn lemma_last_models(base: Seq<char>, name: Seq<char>)
    requires
        forall|i: int| 0 <= i < name.len() ==> super::url::is_plain(#[trigger] name[i]),
    ensures
        text::rfind(base + "/models/"@ + name, "/models/"@) == Some(base.len() as int),
{
    reveal_strlit("/models/");
    let part = "/models/"@;
    let head = base + part + name;
    let n = base.len() as int;
    assert(head.subrange(n, n + 8) =~= part);
    assert(text::occurs_at(head, part, n));
    assert forall|j: int| n < j <= head.len() - 8 implies !text::occurs_at(head, part, j) by {
        if text::occurs_at(head, part, j) {
            assert(head.subrange(j, j + 8)[0] == head[j]);
            assert(head.subrange(j, j + 8)[7] == head[j + 7]);
            if j >= n + 8 {
                assert(head[j] == name[j - n - 8]);
            } else {
                assert(head[j] == part[j - n]);
                assert(head[j + 7] == name[j + 7 - n - 8]);
            }
        }
    }
    lemma_rfind_at(head, part, head.len() - 8, n);
}

/// The first method in a Gemini address is the one behind the model.
pub(crate) proof fn lemma_first_method(base: Seq<char>, name: Seq<char>, rest: Seq<char>)
    requires
        !text::contains(base, ":streamGenerateContent"@),
        forall|i: int| 0 <= i < name.len() ==> super::url::is_plain(#[trigger] name[i]),
    ensures
        text::find(
            base + "/models/"@ + name + (":streamGenerateContent"@ + rest),
            ":streamGenerateContent"@,
        ) == Some((base.len() + "/models/"@.len() + name.len()) as int),
{
    reveal_strlit("/models/");
    reveal_strlit(":streamGenerateContent");
    let method = ":streamGenerateContent"@;
    let head = base + "/models/"@ + name;
    let full = head + (method + rest);
    let n = base.len() as int;
    let at = head.len() as int;
    assert(full.subrange(at, at + method.len()) =~= method);
    assert(text::occurs_at(full, method, at));
    assert forall|j: int| 0 <= j < at implies !text::occurs_at(full, method, j) by {
        if text::occurs_at(full, method, j) {
            let found = full.subrange(j, j + method.len());
            assert(found[0] == full[j]);
            if j >= n + 8 {
                assert(full[j] == name[j - n - 8]);
            } else if j >= n {
                assert(full[j] == "/models/"@[j - n]);
            } else if j + method.len() > n {
                assert(found[n - j] == full[n]);
                assert(full[n] == "/models/"@[0]);
            } else {
                assert(base.subrange(j, j + method.len()) =~= found);
                assert(text::occurs_at(base, method, j));
            }
        }
    }
    text::lemma_find_from(full, method, 0);
}

/// A Gemini endpoint stands for its base: a configuration that holds a full endpoint asks
/// there for the model that it names. It holds where the base does not name the method, and
/// its version is either not one that is dropped with an endpoint, or the usual one.
pub proof fn law_gemini_endpoint_stands_for_its_base(
    url: Seq<char>,
    model: Seq<char>,
    other: Seq<char>,
)
    requires
        !text::contains(
            super::protocol::versioned(Protocol::Gemini, url),
            ":streamGenerateContent"@,
        ),
        restores_version(Protocol::Gemini, super::protocol::versioned(Protocol::Gemini, url)),
    ensures
        super::protocol::endpoint_of(
            Protocol::Gemini,
            super::protocol::endpoint_of(Protocol::Gemini, url, model),
            other,
        ) == super::protocol::endpoint_of(Protocol::Gemini, url, other),
{
    let base = super::protocol::versioned(Protocol::Gemini, url);
    let name = super::url::percent_encoded(vstd::utf8::encode_utf8(model));
    let method = ":streamGenerateContent"@;
    let full = super::protocol::endpoint_of(Protocol::Gemini, url, model);
    let head = base + "/models/"@ + name;
    super::url::law_encoded_is_plain(vstd::utf8::encode_utf8(model));
    reveal_strlit("/v1beta");
    reveal_strlit("/models/");
    reveal_strlit(":streamGenerateContent");
    reveal_strlit(":streamGenerateContent?alt=sse");
    reveal_strlit("?alt=sse");
    assert(":streamGenerateContent?alt=sse"@ =~= method + "?alt=sse"@);
    assert(full =~= head + (method + "?alt=sse"@));
    lemma_base_first(url);
    law_versioned_base_has_a_version(Protocol::Gemini, url);
    assert(base.len() > 0 && !text::is_space(base[0])) by {
        if super::protocol::base_of(url).len() == 0 {
            assert(super::protocol::base_of(url) =~= seq![]);
        }
    }
    assert(full[0] == base[0]);
    assert(full.last() == 'e');
    lemma_tidy(full);
    lemma_first_method(base, name, "?alt=sse"@);
    assert(full.take(head.len() as int) =~= head);
    lemma_last_models(base, name);
    assert(full.take(base.len() as int) =~= base);
}

proof fn lemma_trim_end_of_part(s: Seq<char>, c: char)
    ensures
        text::trim_end_of(s, c).len() <= s.len(),
        text::trim_end_of(s, c) == s.take(text::trim_end_of(s, c).len() as int),
    decreases s.len(),
{
    if s.len() > 0 && s.last() == c {
        lemma_trim_end_of_part(s.drop_last(), c);
        let n = text::trim_end_of(s, c).len() as int;
        assert(s.drop_last().take(n) =~= s.take(n));
    } else {
        assert(s.take(s.len() as int) =~= s);
    }
}

/// What is cut off before a method is shorter than the address.
proof fn lemma_before_method_part(address: Seq<char>, method: Seq<char>)
    ensures
        super::protocol::before_method(address, method) matches Some(base) ==> base.len()
            < address.len() && base == address.take(base.len() as int),
{
    text::lemma_find_from(address, method, 0);
    if let Some(at) = text::find(address, method) {
        reveal_strlit("/models/");
        let head = address.take(at);
        lemma_rfind_upto(head, "/models/"@, head.len() - "/models/"@.len());
    }
}

/// What stands before the version segment is a front of the address.
proof fn lemma_stripped_part(base: Seq<char>)
    ensures
        ({
            let stripped = super::protocol::version_stripped(base);
            stripped.len() <= base.len() && stripped == base.take(stripped.len() as int)
        }),
{
    reveal_strlit("/v1");
    reveal_strlit("/v1beta");
    assert(base.take(base.len() as int) =~= base);
}

/// A known endpoint is a path of its own in the address that ends in it.
proof fn lemma_suffix_part(address: Seq<char>)
    ensures
        super::protocol::endpoint_suffix(address) matches Some(suffix) ==> 0 < suffix.len()
            <= address.len(),
{
    reveal_strlit("/chat/completions");
    reveal_strlit("/responses");
    reveal_strlit("/messages");
    reveal_strlit("/systemone");
}

/// A base is a front of the tidy address, and all of it only where that is a base already.
proof fn lemma_base_part(url: Seq<char>)
    ensures
        ({
            let address = super::protocol::tidy(url);
            let base = super::protocol::base_of(url);
            &&& base.len() <= address.len() <= url.len()
            &&& base == address.take(base.len() as int)
            &&& base.len() == address.len() ==> super::protocol::before_model(address) is None
                && super::protocol::endpoint_suffix(address) is None
        }),
{
    let address = super::protocol::tidy(url);
    text::lemma_trim_part(url);
    lemma_trim_end_of_part(text::trim(url), '/');
    lemma_before_method_part(address, ":streamGenerateContent"@);
    lemma_before_method_part(address, ":generateContent"@);
    lemma_before_method_part(address, ":countTokens"@);
    lemma_suffix_part(address);
    let n = super::protocol::base_of(url).len() as int;
    match super::protocol::before_model(address) {
        Some(front) => {
            lemma_stripped_part(front);
            assert(front.take(n) =~= address.take(n));
        },
        None => match super::protocol::endpoint_suffix(address) {
            Some(suffix) => {
                let front = address.take(address.len() - suffix.len());
                lemma_stripped_part(front);
                assert(front.take(n) =~= address.take(n));
            },
            None => {
                assert(address.take(n) =~= address);
            },
        },
    }
}

/// An address that is its own base is tidy, and neither names a Gemini method behind a model
/// nor ends in a known endpoint.
proof fn lemma_own_base(base: Seq<char>)
    requires
        super::protocol::base_of(base) == base,
    ensures
        is_base(base),
{
    let address = super::protocol::tidy(base);
    lemma_base_part(base);
    assert(address.take(address.len() as int) =~= address);
}

/// What is put behind a base brings in no method.
proof fn lemma_no_model(base: Seq<char>, suffix: Seq<char>)
    requires
        suffix.len() > 0,
        suffix[0] == '/',
        forall|i: int| 0 <= i < suffix.len() ==> suffix[i] != ':',
        super::protocol::before_model(base) is None,
    ensures
        super::protocol::before_model(base + suffix) is None,
{
    reveal_strlit(":streamGenerateContent");
    reveal_strlit(":generateContent");
    reveal_strlit(":countTokens");
    lemma_no_method(base, suffix, ":streamGenerateContent"@);
    lemma_no_method(base, suffix, ":generateContent"@);
    lemma_no_method(base, suffix, ":countTokens"@);
}

/// A stored endpoint is taken back to the base that it was made from, and from there rebuilt
/// as it was: for every base without a version of its own.
pub proof fn law_endpoint_leads_back_to_its_base(
    protocol: Protocol,
    base: Seq<char>,
    model: Seq<char>,
)
    requires
        has_known_path(protocol),
        super::protocol::base_of(base) == base,
        !super::protocol::has_version(base),
    ensures
        ({
            let endpoint = super::protocol::endpoint_of(protocol, base, model);
            &&& super::protocol::base_of(endpoint) == base
            &&& super::protocol::endpoint_of(protocol, endpoint, model) == endpoint
        }),
{
    let version = super::protocol::usual_version(protocol);
    let path = super::protocol::endpoint_path(protocol, model);
    let full = super::protocol::endpoint_of(protocol, base, model);
    lemma_own_base(base);
    lemma_path(protocol, model);
    lemma_base_first(base);
    reveal_strlit("/v1");
    reveal_strlit("/v1beta");
    if base.len() == 0 {
        assert(full[0] == version[0]);
    } else {
        assert(full[0] == base[0]);
    }
    assert(full.last() == path.last());
    lemma_tidy(full);
    lemma_no_model(base, version);
    lemma_no_model(base + version, path);
    lemma_suffix(protocol, base + version, model);
    assert(full.take(full.len() - path.len()) =~= base + version);
    lemma_usual_version_comes_off(protocol, base);
}

/// What stands behind the last slash of an address stands at its end.
proof fn lemma_after_last_part(s: Seq<char>)
    ensures
        text::after_last(s, '/').len() <= s.len(),
        text::after_last(s, '/') == s.skip(s.len() - text::after_last(s, '/').len()),
    decreases s.len(),
{
    if s.len() > 0 && s.last() != '/' {
        lemma_after_last_part(s.drop_last());
        let n = text::after_last(s, '/').len();
        assert(s.drop_last().skip(s.len() - n).push(s.last()) =~= s.skip(s.len() - n));
    } else {
        assert(s.skip(s.len() as int) =~= seq![]);
    }
}

/// A segment that stands at the end behind a slash is the last one, in lower case too.
proof fn lemma_last_segment(s: Seq<char>, suffix: Seq<char>, k: int)
    requires
        suffix.is_suffix_of(text::lower(s)),
        0 <= k < suffix.len(),
        suffix[k] == '/',
        forall|i: int| k < i < suffix.len() ==> suffix[i] != '/',
    ensures
        text::lower(text::after_last(s, '/')) == suffix.skip(k + 1),
{
    let lowered = text::lower(s);
    let n = s.len() as int;
    let m = suffix.len() as int;
    assert forall|i: int| 0 <= i < m implies text::lower_char(s[n - m + i]) == suffix[i] by {
        assert(lowered.subrange(n - m, n)[i] == lowered[n - m + i]);
    }
    let head = s.take(n - m + k);
    let tail = s.skip(n - m + k);
    assert(s =~= head + tail);
    assert(text::lower_char(s[n - m + k]) == suffix[k]);
    assert(tail[0] == '/');
    assert forall|i: int| 0 < i < tail.len() implies tail[i] != '/' by {
        assert(text::lower_char(s[n - m + (k + i)]) == suffix[k + i]);
    }
    lemma_after_last(head, tail);
    assert(text::lower(tail.skip(1)) =~= suffix.skip(k + 1)) by {
        assert forall|i: int| 0 <= i < m - k - 1 implies text::lower(tail.skip(1))[i]
            == suffix.skip(k + 1)[i] by {
            assert(text::lower_char(s[n - m + (k + 1 + i)]) == suffix[k + 1 + i]);
        }
    }
}

/// An address that ends in a version ends in no known endpoint.
proof fn lemma_version_is_no_endpoint(address: Seq<char>)
    requires
        super::protocol::has_version(address),
    ensures
        super::protocol::endpoint_suffix(address) is None,
        address.len() > 0,
        !text::is_space(address.last()),
        address.last() != '/',
{
    reveal_strlit("/chat/completions");
    reveal_strlit("/responses");
    reveal_strlit("/messages");
    reveal_strlit("/systemone");
    let segment = text::after_last(address, '/');
    lemma_after_last_part(address);
    assert(text::lower(segment)[0] == 'v');
    if "/chat/completions"@.is_suffix_of(text::lower(address)) {
        lemma_last_segment(address, "/chat/completions"@, 5);
        assert("/chat/completions"@.skip(6)[0] == 'c');
    }
    if "/responses"@.is_suffix_of(text::lower(address)) {
        lemma_last_segment(address, "/responses"@, 0);
        assert("/responses"@.skip(1)[0] == 'r');
    }
    if "/messages"@.is_suffix_of(text::lower(address)) {
        lemma_last_segment(address, "/messages"@, 0);
        assert("/messages"@.skip(1)[0] == 'm');
    }
    if "/systemone"@.is_suffix_of(text::lower(address)) {
        lemma_last_segment(address, "/systemone"@, 0);
        assert("/systemone"@.skip(1)[0] == 's');
    }
    let k = choose|k: int| super::protocol::version_split(segment, k);
    assert(super::protocol::version_split(segment, k));
    let last = segment[segment.len() - 1];
    assert(text::is_digit(last) || text::is_letter(last));
    assert(address.last() == last);
}

/// Giving an address its version twice is giving it once, where the result names no Gemini
/// method behind a model.
pub proof fn law_versioned_base_keeps_its_version(protocol: Protocol, url: Seq<char>)
    requires
        super::protocol::before_model(super::protocol::versioned(protocol, url)) is None,
    ensures
        super::protocol::base_of(super::protocol::versioned(protocol, url))
            == super::protocol::versioned(protocol, url),
        super::protocol::versioned(protocol, super::protocol::versioned(protocol, url))
            == super::protocol::versioned(protocol, url),
{
    let address = super::protocol::versioned(protocol, url);
    law_versioned_base_has_a_version(protocol, url);
    lemma_version_is_no_endpoint(address);
    lemma_base_first(url);
    reveal_strlit("/v1");
    reveal_strlit("/v1beta");
    if super::protocol::base_of(url).len() > 0 {
        assert(address[0] == super::protocol::base_of(url)[0]);
    } else {
        assert(address =~= super::protocol::usual_version(protocol)) by {
            assert(super::protocol::base_of(url) =~= seq![]);
            assert(text::after_last(seq![], '/') =~= seq![]);
        }
    }
    lemma_tidy(address);
}

/// What does not stand in a text does not stand in a part of it.
proof fn lemma_not_in_part(s: Seq<char>, part: Seq<char>, from: int, to: int)
    requires
        0 <= from <= to <= s.len(),
        !text::contains(s, part),
    ensures
        !text::contains(s.subrange(from, to), part),
{
    let r = s.subrange(from, to);
    assert forall|k: int| !text::occurs_at(r, part, k) by {
        if text::occurs_at(r, part, k) {
            assert(r.subrange(k, k + part.len()) =~= s.subrange(from + k, from + k + part.len()));
            assert(text::occurs_at(s, part, from + k));
        }
    }
}

/// A method that does not stand in an address does not stand in what is left of it.
proof fn lemma_method_stays_away(url: Seq<char>, method: Seq<char>)
    requires
        !text::contains(url, method),
    ensures
        !text::contains(super::protocol::tidy(url), method),
        super::protocol::before_method(super::protocol::tidy(url), method) is None,
{
    let trimmed = text::trim(url);
    let address = super::protocol::tidy(url);
    text::lemma_trim_part(url);
    let from = url.len() - text::trim_start(url).len();
    lemma_not_in_part(url, method, from, from + trimmed.len());
    lemma_trim_end_of_part(trimmed, '/');
    assert(trimmed.take(address.len() as int) =~= trimmed.subrange(0, address.len() as int));
    lemma_not_in_part(trimmed, method, 0, address.len() as int);
    text::lemma_find_from(address, method, 0);
}

/// A method that does not stand in a text is not found in its front.
proof fn lemma_no_method_in_front(s: Seq<char>, method: Seq<char>, n: int)
    requires
        0 <= n <= s.len(),
        !text::contains(s, method),
    ensures
        super::protocol::before_method(s.take(n), method) is None,
{
    assert(s.take(n) =~= s.subrange(0, n));
    lemma_not_in_part(s, method, 0, n);
    text::lemma_find_from(s.take(n), method, 0);
}

/// In an address without a method of Gemini none comes up: giving it its version twice is
/// giving it once.
pub proof fn law_plain_address_keeps_its_version(protocol: Protocol, url: Seq<char>)
    requires
        !text::contains(url, ":streamGenerateContent"@),
        !text::contains(url, ":generateContent"@),
        !text::contains(url, ":countTokens"@),
    ensures
        super::protocol::before_model(super::protocol::versioned(protocol, url)) is None,
        super::protocol::versioned(protocol, super::protocol::versioned(protocol, url))
            == super::protocol::versioned(protocol, url),
{
    let address = super::protocol::tidy(url);
    let base = super::protocol::base_of(url);
    let version = super::protocol::usual_version(protocol);
    lemma_method_stays_away(url, ":streamGenerateContent"@);
    lemma_method_stays_away(url, ":generateContent"@);
    lemma_method_stays_away(url, ":countTokens"@);
    reveal_strlit("/v1");
    reveal_strlit("/v1beta");
    lemma_base_part(url);
    let n = base.len() as int;
    lemma_no_method_in_front(address, ":streamGenerateContent"@, n);
    lemma_no_method_in_front(address, ":generateContent"@, n);
    lemma_no_method_in_front(address, ":countTokens"@, n);
    lemma_no_model(base, version);
    law_versioned_base_keeps_its_version(protocol, url);
}

} // verus!
