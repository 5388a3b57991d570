//! What holds of every list of models.
use super::models::{FetchStepView, FetchView, ModelView};
use super::protocol::Protocol;
use crate::json::JsonView;
use crate::text;
use vstd::prelude::*;
use vstd::string::*;

verus! {

broadcast use {vstd::seq_lib::group_seq_properties, vstd::string::group_string_axioms};

/// Whether an entry has a text under `id`.
pub open spec fn has_id(entry: JsonView) -> bool {
    entry.get("id"@) matches Some(JsonView::Text(_))
}

/// Whether an entry under `models` has a name, behind the prefix `models/` if it has that,
/// and does not say that its model generates no text.
pub open spec fn has_name(entry: JsonView) -> bool {
    &&& entry.get("name"@) matches Some(JsonView::Text(name)) && name != ""@ && name != "models/"@
    &&& entry.get("supportedGenerationMethods"@) matches Some(JsonView::Array(methods))
        ==> methods.contains(JsonView::Text("generateContent"@))
}

/// Whether a model is what an entry under `data` says: its identifier unchanged, and the name
/// to show where there is one.
pub open spec fn is_data_entry(model: ModelView, entry: JsonView) -> bool {
    &&& entry.get("id"@) == Some(JsonView::Text(model.id))
    &&& match entry.get("display_name"@) {
        Some(JsonView::Text(name)) => model.label == name,
        _ => model.label == model.id,
    }
    &&& model.detail is None
}

/// Whether a model is what an entry under `models` says: its name but for the prefix
/// `models/`, the name to show where there is one, and the description.
pub open spec fn is_named_entry(model: ModelView, entry: JsonView) -> bool {
    &&& entry.get("name"@) matches Some(JsonView::Text(name)) && (name == "models/"@ + model.id || (
    name == model.id && !"models/"@.is_prefix_of(name)))
    &&& match entry.get("displayName"@) {
        Some(JsonView::Text(name)) => model.label == name,
        _ => model.label == model.id,
    }
    &&& match entry.get("description"@) {
        Some(JsonView::Text(text)) => model.detail == Some(text),
        _ => model.detail is None,
    }
}

proof fn lemma_data(entries: Seq<JsonView>)
    ensures
        ({
            let models = super::models::models_in(entries, true);
            let kept = entries.filter(|entry: JsonView| has_id(entry));
            &&& models.len() == kept.len()
            &&& forall|i: int|
                0 <= i < models.len() ==> is_data_entry(#[trigger] models[i], kept[i])
        }),
    decreases entries.len(),
{
    reveal(Seq::filter);
    if entries.len() > 0 {
        lemma_data(entries.drop_last());
    }
}

/// A reply with a list under `data` lists the entries that have a text under `id`, in their
/// order and without a change to the identifiers, each with its name to show.
pub proof fn law_data_is_listed(value: JsonView, entries: Seq<JsonView>)
    requires
        value.get("data"@) == Some(JsonView::Array(entries)),
    ensures
        ({
            let models = super::models::listed(value);
            let kept = entries.filter(|entry: JsonView| has_id(entry));
            &&& models.len() == kept.len()
            &&& forall|i: int|
                0 <= i < models.len() ==> is_data_entry(#[trigger] models[i], kept[i])
        }),
{
    lemma_data(entries);
}

proof fn lemma_named_entry(entry: JsonView)
    ensures
        match super::models::named_model(entry) {
            Some(model) => has_name(entry) && is_named_entry(model, entry),
            None => !has_name(entry),
        },
{
    reveal_strlit("");
    reveal_strlit("models/");
    if let Some(JsonView::Text(name)) = entry.get("name"@) {
        let plain = super::models::plain_name(name);
        if "models/"@.is_prefix_of(name) {
            assert(name =~= "models/"@ + plain);
            if plain.len() == 0 {
                assert(name =~= "models/"@);
            } else {
                assert(name.len() > "models/"@.len());
            }
        } else if name.len() == 0 {
            assert(name =~= ""@);
        }
        if name == "models/"@ {
            assert("models/"@.is_prefix_of(name));
        }
    }
    if let Some(JsonView::Array(methods)) = entry.get("supportedGenerationMethods"@) {
        if super::models::generates(methods) {
            let i = choose|i: int|
                0 <= i < methods.len() && (#[trigger] methods[i]).text() == Some(
                    "generateContent"@,
                );
            assert(methods[i] == JsonView::Text("generateContent"@));
        }
        if methods.contains(JsonView::Text("generateContent"@)) {
            let i = choose|i: int|
                0 <= i < methods.len() && methods[i] == JsonView::Text("generateContent"@);
            assert(methods[i].text() == Some("generateContent"@));
        }
    }
}

proof fn lemma_named(entries: Seq<JsonView>)
    ensures
        ({
            let models = super::models::models_in(entries, false);
            let kept = entries.filter(|entry: JsonView| has_name(entry));
            &&& models.len() == kept.len()
            &&& forall|i: int|
                0 <= i < models.len() ==> is_named_entry(#[trigger] models[i], kept[i])
        }),
    decreases entries.len(),
{
    reveal(Seq::filter);
    if entries.len() > 0 {
        lemma_named(entries.drop_last());
        lemma_named_entry(entries.last());
    }
}

/// A reply with a list under `models`, and none under `data`, lists the entries that have a
/// name and may generate text, in their order, each by its name without the prefix `models/`,
/// with its name to show and its description.
pub proof fn law_models_are_listed(value: JsonView, entries: Seq<JsonView>)
    requires
        !(value.get("data"@) matches Some(JsonView::Array(_))),
        value.get("models"@) == Some(JsonView::Array(entries)),
    ensures
        ({
            let models = super::models::listed(value);
            let kept = entries.filter(|entry: JsonView| has_name(entry));
            &&& models.len() == kept.len()
            &&& forall|i: int|
                0 <= i < models.len() ==> is_named_entry(#[trigger] models[i], kept[i])
        }),
{
    lemma_named(entries);
}

/// The mark behind which a reply says that its list goes on.
pub open spec fn goes_on(protocol: Protocol, value: JsonView, cursor: Seq<char>) -> bool {
    &&& cursor.len() > 0
    &&& match protocol {
        Protocol::Claude => value.get("has_more"@) == Some(JsonView::Bool(true)) && value.get(
            "last_id"@,
        ) == Some(JsonView::Text(cursor)),
        Protocol::Gemini | Protocol::GeminiInteractions => value.get("nextPageToken"@) == Some(
            JsonView::Text(cursor),
        ),
        _ => false,
    }
}

/// Where a list goes on, the same list is asked for behind the mark that the reply gave.
pub proof fn law_next_page_is_asked_for(
    protocol: Protocol,
    base_url: Seq<char>,
    value: JsonView,
    cursor: Seq<char>,
)
    ensures
        goes_on(protocol, value, cursor) ==> {
            &&& super::models::cursor_of(protocol, value) == Some(cursor)
            &&& super::models::next_url_of(protocol, base_url, cursor)
                == super::models::models_url_of(protocol, base_url) + (if protocol is Claude {
                "&after_id="@
            } else {
                "&pageToken="@
            }) + super::url::percent_encoded(vstd::utf8::encode_utf8(cursor))
        },
        super::models::cursor_of(protocol, value) == Some(cursor) ==> goes_on(
            protocol,
            value,
            cursor,
        ),
{
    reveal_strlit("/models?limit=1000");
    reveal_strlit("&after_id=");
    reveal_strlit("/models?limit=1000&after_id=");
    reveal_strlit("/models?pageSize=1000");
    reveal_strlit("&pageToken=");
    reveal_strlit("/models?pageSize=1000&pageToken=");
    assert("/models?limit=1000"@ + "&after_id="@ =~= "/models?limit=1000&after_id="@);
    assert("/models?pageSize=1000"@ + "&pageToken="@ =~= "/models?pageSize=1000&pageToken="@);
    if goes_on(protocol, value, cursor) {
        let base = super::protocol::versioned(protocol, base_url);
        let encoded = super::url::percent_encoded(vstd::utf8::encode_utf8(cursor));
        assert(super::models::next_url_of(protocol, base_url, cursor)
            =~= super::models::models_url_of(protocol, base_url) + (if protocol is Claude {
            "&after_id="@
        } else {
            "&pageToken="@
        }) + encoded);
    }
}

/// The models are listed under the versioned base of the service; as many as it gives at once
/// are asked for where the protocol has a word for that.
pub proof fn law_models_are_listed_at(protocol: Protocol, base_url: Seq<char>)
    ensures
        ({
            let url = super::models::models_url_of(protocol, base_url);
            let base = super::protocol::versioned(protocol, base_url);
            match protocol {
                Protocol::Claude => url == base + "/models?limit=1000"@,
                Protocol::Gemini | Protocol::GeminiInteractions => url == base
                    + "/models?pageSize=1000"@,
                _ => url == base + "/models"@,
            }
        }),
{
}

/// A page of a service that answered with success and valid JSON adds the models that it
/// lists behind those of the pages before it. The list is done, uncut and whole, where it
/// fits and does not go on; a page more is asked for only where the reply says that the list
/// goes on, and nothing of what came so far is lost then.
pub proof fn law_pages_add_up(x: FetchView, code: u16, bytes: Seq<u8>, value: JsonView)
    requires
        x.wf(),
        200 <= code < 300,
        bytes.len() <= 4194304,
        crate::json::json_of_text(super::shared::stream::lossy(bytes)) == Ok::<
            JsonView,
            Seq<char>,
        >(value),
    ensures
        ({
            let all = x.models + super::models::listed(value);
            let (after, step) = x.page(code, bytes);
            let more = exists|cursor: Seq<char>| #[trigger] goes_on(x.protocol, value, cursor);
            &&& !more && 0 < all.len() <= 200 ==> step == FetchStepView::Done(all, false)
            &&& !more && all.len() == 0 ==> step is Failed
            &&& all.len() > 200 ==> step == FetchStepView::Done(all.take(200), true)
            &&& step is More ==> more && after.models == all && after.protocol == x.protocol
                && after.base_url == x.base_url && after.api_key == x.api_key
            &&& more && all.len() < 200 && x.pages < 2 ==> step is More && exists|
                cursor: Seq<char>,
            | #[trigger]
                goes_on(x.protocol, value, cursor) && after.url == super::models::next_url_of(
                    x.protocol,
                    x.base_url,
                    cursor,
                )
        }),
{
    let all = x.models + super::models::listed(value);
    match super::models::cursor_of(x.protocol, value) {
        Some(cursor) => {
            law_next_page_is_asked_for(x.protocol, x.base_url, value, cursor);
            assert(goes_on(x.protocol, value, cursor));
        },
        None => {
            assert forall|cursor: Seq<char>| !(#[trigger] goes_on(x.protocol, value, cursor)) by {
                law_next_page_is_asked_for(x.protocol, x.base_url, value, cursor);
            }
        },
    }
    if all.len() == 200 {
        assert(all.take(200) =~= all);
    }
}

/// A page that came with another status, that is too large or that is not JSON ends the list
/// with a failure.
pub proof fn law_bad_pages_fail(x: FetchView, code: u16, bytes: Seq<u8>)
    requires
        !(200 <= code < 300) || bytes.len() > 4194304 || crate::json::json_of_text(
            super::shared::stream::lossy(bytes),
        ) is Err,
    ensures
        x.page(code, bytes).1 is Failed,
        bytes.len() > 4194304 ==> x.page(code, bytes).1 == FetchStepView::Failed(
            "模型列表响应超过 4 MiB 限制"@,
        ),
        bytes.len() <= 4194304 && !(200 <= code < 300) ==> x.page(code, bytes).1
            == FetchStepView::Failed(
            super::models::http_error_text(
                x.protocol,
                code,
                super::shared::stream::lossy(bytes),
                x.api_key,
            ),
        ),
        bytes.len() <= 4194304 && 200 <= code < 300 ==> x.page(code, bytes).1
            == FetchStepView::Failed(
            "解析模型列表 JSON 失败: "@ + crate::json::json_of_text(
                super::shared::stream::lossy(bytes),
            )->Err_0 + "; 响应摘要: "@ + super::shared::http::preview(
                super::shared::stream::lossy(bytes),
                x.api_key,
                200,
            ),
        ),
{
}

/// A model is among those that a filter lets through exactly where it is in the list and its
/// name or the name to show, in lower case, holds the filter in lower case without the white
/// space around it, or nothing is left of the filter.
pub proof fn law_filter_looks_at_both_names(
    models: Seq<ModelView>,
    filter: Seq<char>,
    model: ModelView,
)
    ensures
        ({
            let needle = super::models::lowercased(text::trim(filter));
            super::models::filtered(models, filter).contains(model) <==> models.contains(model) && (
            needle.len() == 0 || text::contains(super::models::lowercased(model.id), needle)
                || text::contains(super::models::lowercased(model.label), needle))
        }),
{
    super::models::law_filter(models, filter, filter);
    let list = super::models::filtered(models, filter);
    if list.contains(model) {
        let i = choose|i: int| 0 <= i < list.len() && list[i] == model;
        assert(models.contains(list[i]));
    }
    if models.contains(model) {
        let i = choose|i: int| 0 <= i < models.len() && models[i] == model;
        assert(models[i] == model);
    }
}

/// The models that a filter lets through stand in their order, each as often as in the list.
pub proof fn law_filter_keeps_the_order(models: Seq<ModelView>, filter: Seq<char>)
    ensures
        ({
            let needle = super::models::lowercased(text::trim(filter));
            super::models::filtered(models, filter) == if needle.len() == 0 {
                models
            } else {
                models.filter(
                    |model: ModelView|
                        text::contains(super::models::lowercased(model.id), needle)
                            || text::contains(super::models::lowercased(model.label), needle),
                )
            }
        }),
{
    let needle = super::models::lowercased(text::trim(filter));
    assert((|model: ModelView| super::models::found(model, needle)) =~= (|model: ModelView|
        text::contains(super::models::lowercased(model.id), needle) || text::contains(
            super::models::lowercased(model.label),
            needle,
        )));
}

/// A fetch starts at the first page of the service of the settings, with nothing listed yet.
pub proof fn law_fetch_starts_at_the_first_page(
    protocol: Protocol,
    base_url: Seq<char>,
    api_key: Seq<char>,
)
    ensures
        ({
            let x = super::models::started(protocol, base_url, api_key);
            &&& x.protocol == protocol
            &&& x.base_url == base_url
            &&& x.api_key == api_key
            &&& x.url == super::models::models_url_of(protocol, base_url)
            &&& x.pages == 0
            &&& x.models == Seq::<ModelView>::empty()
        }),
{
}

/// A list that was asked for with a key shows the key as the protocol wants it, and only so.
pub proof fn law_lists_show_the_key(protocol: Protocol, api_key: Seq<char>)
    ensures
        ({
            let headers = super::shared::auth::auth_headers(protocol, api_key);
            match protocol {
                Protocol::Claude => headers == seq![
                    ("x-api-key"@, api_key),
                    ("anthropic-version"@, "2023-06-01"@),
                ],
                Protocol::Gemini | Protocol::GeminiInteractions => headers == seq![
                    ("x-goog-api-key"@, api_key),
                ],
                _ => headers == seq![("Authorization"@, "Bearer "@ + api_key)],
            }
        }),
{
}

/// Where a list was not found it is said which service has none, and that it was not found.
pub proof fn law_missing_lists_are_told(protocol: Protocol, body: Seq<char>, api_key: Seq<char>)
    ensures
        ({
            let label = super::protocol::name_of(protocol);
            let said = super::models::http_error_text(protocol, 404, body, api_key);
            label.is_prefix_of(said) && text::contains(said, "404"@)
        }),
{
    let label = super::protocol::name_of(protocol);
    let middle = " 未提供模型列表接口 (HTTP 404)，可手动输入模型名；确认基址为 "@;
    let said = super::models::http_error_text(protocol, 404, body, api_key);
    reveal_strlit(" 未提供模型列表接口 (HTTP 404)，可手动输入模型名；确认基址为 ");
    reveal_strlit("404");
    assert(said.subrange(0, label.len() as int) =~= label);
    assert(middle.subrange(17, 20) =~= "404"@);
    let at = label.len() as int + 17;
    assert(said.subrange(at, at + 3) =~= middle.subrange(17, 20));
    assert(text::occurs_at(said, "404"@, at));
}

/// What is said of a list that a service did not give: to look at the key where that was
/// refused, and else the error that the service reports, or what the body begins with.
pub proof fn law_refused_lists_are_told(
    protocol: Protocol,
    code: u16,
    body: Seq<char>,
    api_key: Seq<char>,
    value: JsonView,
    error: JsonView,
    message: Seq<char>,
)
    ensures
        ({
            let label = super::protocol::name_of(protocol);
            let status = text::decimal(code as nat) + " "@ + super::shared::stream::status_reason(
                code,
            );
            let said = super::models::http_error_text(protocol, code, body, api_key);
            let start = "拉取 "@ + label + " 模型列表失败 (HTTP "@ + status + "): "@;
            &&& code == 401 || code == 403 ==> said == label + " 拒绝了请求 (HTTP "@ + status
                + ")，请检查 API Key"@
            &&& code != 404 && code != 401 && code != 403 && crate::json::json_of_text(body)
                == Ok::<JsonView, Seq<char>>(value) && value.get("error"@) == Some(error)
                && super::replies::says(error, message) ==> said == start + message
            &&& code != 404 && code != 401 && code != 403 && crate::json::json_of_text(body) is Err
                ==> said == start + super::shared::http::preview(body, api_key, 200)
            &&& code != 404 && code != 401 && code != 403 && crate::json::json_of_text(body)
                == Ok::<JsonView, Seq<char>>(value) && super::replies::without_error(value)
                ==> said == start + super::shared::http::preview(body, api_key, 200)
        }),
{
}

} // verus!
