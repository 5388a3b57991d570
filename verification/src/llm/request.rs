//! What is asked, and the request that asks it.
use super::protocol::Protocol;
use super::shared::auth::{add_header, apply_auth};
use crate::json::Json;
use crate::text;
use vstd::prelude::*;
use vstd::string::*;

verus! {

broadcast use {vstd::seq_lib::group_seq_properties, vstd::string::group_string_axioms};

/// A question of the quiz. Each adapter writes it in the terms of its protocol; whether and
/// how hard to think is the client's own setting.
#[derive(Debug, Clone, Copy)]
pub struct QuizRequest<'a> {
    pub question: &'a str,
    pub options: &'a [String],
    pub categories: &'a [String],
}

/// What a question holds.
pub struct QuizView {
    pub question: Seq<char>,
    pub options: Seq<Seq<char>>,
    pub categories: Seq<Seq<char>>,
}

impl<'a> View for QuizRequest<'a> {
    type V = QuizView;

    open spec fn view(&self) -> QuizView {
        QuizView {
            question: self.question@,
            options: text::texts(self.options@),
            categories: text::texts(self.categories@),
        }
    }
}

/// A request with a JSON body, to be sent by `POST`.
#[derive(Debug, PartialEq, Eq)]
pub struct HttpRequest {
    pub url: String,
    pub headers: Vec<(String, String)>,
    pub body: Json,
}

/// What a request holds.
pub struct HttpRequestView {
    pub url: Seq<char>,
    pub headers: Seq<(Seq<char>, Seq<char>)>,
    pub body: crate::json::JsonView,
}

impl View for HttpRequest {
    type V = HttpRequestView;

    open spec fn view(&self) -> HttpRequestView {
        HttpRequestView {
            url: self.url@,
            headers: super::shared::auth::header_views(self.headers@),
            body: self.body@,
        }
    }
}

/// The request that hands a protocol's endpoint a JSON body.
pub open spec fn posted(
    url: Seq<char>,
    protocol: Protocol,
    api_key: Seq<char>,
    body: crate::json::JsonView,
) -> HttpRequestView {
    HttpRequestView {
        url,
        headers: seq![("Content-Type"@, "application/json"@)] + super::shared::auth::auth_headers(
            protocol,
            api_key,
        ),
        body,
    }
}

/// The request that hands a protocol's endpoint a JSON body.
pub fn post(url: &str, protocol: Protocol, api_key: &str, body: Json) -> (r: HttpRequest)
    ensures
        r@ == posted(url@, protocol, api_key@, body@),
{
    let mut headers: Vec<(String, String)> = Vec::new();
    add_header(&mut headers, "Content-Type", "application/json");
    assert(super::shared::auth::header_views(headers@) =~= seq![
        ("Content-Type"@, "application/json"@),
    ]);
    HttpRequest { url: url.to_owned(), headers: apply_auth(headers, protocol, api_key), body }
}

/// The effort to ask for: the saved one, or `high` where none is saved.
pub open spec fn effort_or_high(saved: Seq<char>) -> Seq<char> {
    if text::trim(saved).len() == 0 {
        "high"@
    } else {
        saved
    }
}

/// The effort to ask for. A configuration edited by hand may hold none.
pub fn effort_or_default(saved: &str) -> (r: String)
    ensures
        r@ == effort_or_high(saved@),
{
    if text::blank(saved) {
        "high".to_owned()
    } else {
        saved.to_owned()
    }
}

} // verus!
