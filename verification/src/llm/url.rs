//! Taking URLs apart and writing text into them.
use crate::text;
use vstd::prelude::*;
use vstd::string::*;

verus! {

broadcast use {vstd::seq_lib::group_seq_properties, vstd::string::group_string_axioms};

/// What of a URL the library looks at.
#[derive(Debug, PartialEq, Eq)]
pub struct UrlParts {
    pub host: Option<String>,
    pub path: String,
}

/// What the parts of a URL hold.
pub struct UrlView {
    pub host: Option<Seq<char>>,
    pub path: Seq<char>,
}

impl View for UrlParts {
    type V = UrlView;

    open spec fn view(&self) -> UrlView {
        UrlView { host: text::opt_text(self.host), path: self.path@ }
    }
}

/// What the parts of a URL hold, where there is one.
pub open spec fn parts_view(parts: Option<UrlParts>) -> Option<UrlView> {
    match parts {
        Some(parts) => Some(parts@),
        None => None,
    }
}

/// Host and path of the URL that `reqwest::Url::parse` reads in a text, if it reads one.
pub uninterp spec fn url_of(url: Seq<char>) -> Option<UrlView>;

/// Calls `reqwest::Url::parse` and, where it succeeds, `Url::host_str` and `Url::path`.
/// What they give depends on the text alone.
#[verifier::external_body]
pub(crate) fn parse_url(url: &str) -> (parts: Option<UrlParts>)
    ensures
        match parts {
            Some(parts) => url_of(url@) == Some(parts@),
            None => url_of(url@) is None,
        },
{
    reqwest::Url::parse(url).ok().map(|url| UrlParts {
        host: url.host_str().map(str::to_owned),
        path: url.path().to_owned(),
    })
}

/// The bytes that stand for themselves in a percent-encoded text.
pub open spec fn unreserved(byte: u8) -> bool {
    ||| '0' as u8 <= byte <= '9' as u8
    ||| 'A' as u8 <= byte <= 'Z' as u8
    ||| 'a' as u8 <= byte <= 'z' as u8
    ||| byte == '-' as u8
    ||| byte == '.' as u8
    ||| byte == '_' as u8
    ||| byte == '~' as u8
}

/// A digit of a hexadecimal number, in upper case.
pub open spec fn hex_digit(d: int) -> char {
    if d < 10 {
        (48 + d) as char
    } else {
        (55 + d) as char
    }
}

/// The bytes in percent encoding: an unreserved byte as itself, any other as `%` and two
/// hexadecimal digits.
pub open spec fn percent_encoded(bytes: Seq<u8>) -> Seq<char>
    decreases bytes.len(),
{
    if bytes.len() == 0 {
        seq![]
    } else {
        percent_encoded(bytes.drop_last()) + if unreserved(bytes.last()) {
            seq![bytes.last() as char]
        } else {
            seq!['%', hex_digit(bytes.last() as int / 16), hex_digit(bytes.last() as int % 16)]
        }
    }
}

/// Calls `urlencoding::encode`: each byte of the text's UTF-8 form in percent encoding.
#[verifier::external_body]
pub(crate) fn percent_encode(data: &str) -> (encoded: String)
    ensures
        encoded@ == percent_encoded(vstd::utf8::encode_utf8(data@)),
{
    urlencoding::encode(data).into_owned()
}

/// The characters of a percent-encoded text.
pub open spec fn is_plain(c: char) -> bool {
    text::is_letter(c) || text::is_digit(c) || c == '-' || c == '.' || c == '_' || c == '~' || c
        == '%'
}

/// A percent-encoded text holds nothing that sets off the parts of a URL.
pub proof fn law_encoded_is_plain(bytes: Seq<u8>)
    ensures
        forall|i: int|
            0 <= i < percent_encoded(bytes).len() ==> is_plain(
                #[trigger] percent_encoded(bytes)[i],
            ),
    decreases bytes.len(),
{
    if bytes.len() > 0 {
        let head = percent_encoded(bytes.drop_last());
        law_encoded_is_plain(bytes.drop_last());
        let all = percent_encoded(bytes);
        assert forall|i: int| 0 <= i < all.len() implies is_plain(#[trigger] all[i]) by {
            if i < head.len() {
                assert(all[i] == head[i]);
            }
        }
    }
}

} // verus!
