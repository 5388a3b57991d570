//! The models that a service offers.
use super::protocol::{versioned_base, Protocol};
use super::shared::auth::apply_auth;
use super::shared::errors::extract_api_error;
use super::shared::http::{format_reqwest_error, safe_preview, TransportError, TransportView};
use super::shared::payload::non_empty;
use super::shared::stream::{lossy_text, status_text};
use super::url::percent_encode;
use crate::json::{Json, JsonView};
use crate::text;
use vstd::prelude::*;
use vstd::string::*;

verus! {

broadcast use {vstd::seq_lib::group_seq_properties, vstd::string::group_string_axioms};

/// How many models are listed. More than this nobody reads through.
pub const MAX_MODELS: usize = 200;

pub const MAX_PAGE_REQUESTS: usize = 3;

pub const MAX_RESPONSE_SIZE: usize = 4 * 1024 * 1024;

/// How many entries the picker shows at a time.
pub const MODELS_PER_PAGE: usize = 20;

/// A model.
#[derive(Debug, Clone, PartialEq, Eq)]
pub struct ModelEntry {
    /// The name that requests use.
    pub id: String,
    /// The name that is shown, the same where the service has no other.
    pub label: String,
    pub detail: Option<String>,
}

/// What a model holds.
#[verifier::ext_equal]
pub struct ModelView {
    pub id: Seq<char>,
    pub label: Seq<char>,
    pub detail: Option<Seq<char>>,
}

impl View for ModelEntry {
    type V = ModelView;

    open spec fn view(&self) -> ModelView {
        ModelView { id: self.id@, label: self.label@, detail: text::opt_text(self.detail) }
    }
}

/// What the models of a list hold.
pub open spec fn model_views(models: Seq<ModelEntry>) -> Seq<ModelView> {
    models.map_values(|model: ModelEntry| model@)
}

/// What the models of a selection hold.
pub open spec fn selected_views(models: Seq<&ModelEntry>) -> Seq<ModelView> {
    models.map_values(|model: &ModelEntry| model@)
}

/// A list of models.
#[derive(Debug, Clone, PartialEq, Eq)]
pub struct ModelList {
    pub models: Vec<ModelEntry>,
    /// Whether there are more than these.
    pub truncated: bool,
}

/// What is put behind the versioned base to list the models. OpenAI refuses parameters
/// that it does not know.
pub open spec fn models_path(protocol: Protocol) -> Seq<char> {
    match protocol {
        Protocol::OpenAiChat | Protocol::OpenAiResponses | Protocol::Jev => "/models"@,
        Protocol::Claude => "/models?limit=1000"@,
        Protocol::Gemini | Protocol::GeminiInteractions => "/models?pageSize=1000"@,
    }
}

/// Where the models are listed.
pub open spec fn models_url_of(protocol: Protocol, base_url: Seq<char>) -> Seq<char> {
    super::protocol::versioned(protocol, base_url) + models_path(protocol)
}

/// Where the list goes on behind a cursor; nowhere for the protocols that have none.
pub open spec fn next_url_of(protocol: Protocol, base_url: Seq<char>, cursor: Seq<char>) -> Seq<
    char,
> {
    let cursor = super::url::percent_encoded(vstd::utf8::encode_utf8(cursor));
    let base = super::protocol::versioned(protocol, base_url);
    match protocol {
        Protocol::Claude => base + "/models?limit=1000&after_id="@ + cursor,
        Protocol::Gemini | Protocol::GeminiInteractions => base
            + "/models?pageSize=1000&pageToken="@ + cursor,
        _ => seq![],
    }
}

/// Where the models are listed.
pub fn models_url(protocol: Protocol, base_url: &str) -> (r: String)
    ensures
        r@ == models_url_of(protocol, base_url@),
{
    let mut r = versioned_base(protocol, base_url);
    match protocol {
        Protocol::OpenAiChat | Protocol::OpenAiResponses | Protocol::Jev => r.append("/models"),
        Protocol::Claude => r.append("/models?limit=1000"),
        Protocol::Gemini | Protocol::GeminiInteractions => r.append("/models?pageSize=1000"),
    }
    r
}

/// Where the list goes on behind a cursor; nowhere for the protocols that have none.
pub fn next_url(protocol: Protocol, base_url: &str, cursor: &str) -> (r: String)
    ensures
        r@ == next_url_of(protocol, base_url@, cursor@),
{
    let cursor = percent_encode(cursor);
    let mut r = versioned_base(protocol, base_url);
    match protocol {
        Protocol::Claude => {
            r.append("/models?limit=1000&after_id=");
            r.append(cursor.as_str());
            r
        },
        Protocol::Gemini | Protocol::GeminiInteractions => {
            r.append("/models?pageSize=1000&pageToken=");
            r.append(cursor.as_str());
            r
        },
        _ => {
            let r = String::new();
            assert(r@ =~= seq![]);
            r
        },
    }
}

/// The cursor behind which a list goes on, if it does.
pub open spec fn cursor_of(protocol: Protocol, value: JsonView) -> Option<Seq<char>> {
    match protocol {
        Protocol::Claude => match value.get("has_more"@) {
            Some(more) => if more.flag() == Some(true) {
                super::shared::payload::filled_opt(value.text_at("last_id"@))
            } else {
                None
            },
            None => None,
        },
        Protocol::Gemini | Protocol::GeminiInteractions => super::shared::payload::filled_opt(
            value.text_at("nextPageToken"@),
        ),
        _ => None,
    }
}

/// The cursor behind which a list goes on, if it does.
pub fn next_cursor(protocol: Protocol, value: &Json) -> (r: Option<String>)
    ensures
        text::opt_text(r) == cursor_of(protocol, value@),
{
    match protocol {
        Protocol::Claude => {
            let more = match value.get("has_more") {
                Some(more) => match more.as_bool() {
                    Some(more) => more,
                    None => false,
                },
                None => false,
            };
            if more {
                non_empty(value.str_at("last_id"))
            } else {
                None
            }
        },
        Protocol::Gemini | Protocol::GeminiInteractions => non_empty(
            value.str_at("nextPageToken"),
        ),
        _ => None,
    }
}

/// A text in lower case, as `str::to_lowercase` gives it.
pub uninterp spec fn lowercased(text: Seq<char>) -> Seq<char>;

/// Calls `str::to_lowercase`: the text's lower case by the rules of Unicode, which depends
/// on the text alone. In a text of ASCII characters the letters from `A` to `Z` are mapped to
/// those from `a` to `z`, and all else stays.
#[verifier::external_body]
fn to_lowercase(text: &str) -> (r: String)
    ensures
        r@ == lowercased(text@),
        vstd::utf8::is_ascii_chars(text@) ==> r@ == text::lower(text@),
{
    text.to_lowercase()
}

/// Whether a model is found: its name or the one that is shown, in lower case, holds what
/// is looked for.
pub open spec fn found(model: ModelView, needle: Seq<char>) -> bool {
    text::contains(lowercased(model.id), needle) || text::contains(lowercased(model.label), needle)
}

/// The models that are found, in their order; all where nothing is looked for.
pub open spec fn matching(models: Seq<ModelView>, needle: Seq<char>) -> Seq<ModelView> {
    if needle.len() == 0 {
        models
    } else {
        models.filter(|model: ModelView| found(model, needle))
    }
}

/// The models that a filter lets through, in their order; an empty filter lets all through.
pub open spec fn filtered(models: Seq<ModelView>, filter: Seq<char>) -> Seq<ModelView> {
    matching(models, lowercased(text::trim(filter)))
}

/// Whether one of two texts holds what is looked for.
pub open spec fn either_contains(names: (Seq<char>, Seq<char>), needle: Seq<char>) -> bool {
    text::contains(names.0, needle) || text::contains(names.1, needle)
}

/// The models at the places at which one of the two names in lower case holds what is
/// looked for; all where nothing is looked for.
pub open spec fn chosen(
    models: Seq<ModelView>,
    names: Seq<(Seq<char>, Seq<char>)>,
    needle: Seq<char>,
) -> Seq<ModelView>
    decreases models.len(),
{
    if models.len() == 0 {
        seq![]
    } else {
        let rest = chosen(models.drop_last(), names, needle);
        if needle.len() == 0 || either_contains(names[models.len() - 1], needle) {
            rest.push(models.last())
        } else {
            rest
        }
    }
}

/// What the two names of each model hold.
pub open spec fn name_views(names: Seq<(String, String)>) -> Seq<(Seq<char>, Seq<char>)> {
    names.map_values(|name: (String, String)| (name.0@, name.1@))
}

/// The models at the places at which one of the two names in lower case holds what is
/// looked for; all where nothing is looked for.
pub fn choose_models<'a>(
    models: &'a [ModelEntry],
    names: &[(String, String)],
    needle: &str,
) -> (r: Vec<&'a ModelEntry>)
    requires
        names@.len() == models@.len(),
    ensures
        selected_views(r@) == chosen(model_views(models@), name_views(names@), needle@),
{
    let ghost views = model_views(models@);
    let mut r: Vec<&'a ModelEntry> = Vec::new();
    let mut i: usize = 0;
    assert(views.take(0) =~= seq![]);
    assert(selected_views(r@) =~= seq![]);
    while i < models.len()
        invariant
            i <= models@.len(),
            names@.len() == models@.len(),
            views == model_views(models@),
            selected_views(r@) == chosen(views.take(i as int), name_views(names@), needle@),
        decreases models@.len() - i,
    {
        let ghost before = selected_views(r@);
        assert(views.take(i + 1).drop_last() =~= views.take(i as int));
        assert(views.take(i + 1).last() == models@[i as int]@);
        assert(name_views(names@)[i as int] == (names@[i as int].0@, names@[i as int].1@));
        if needle.is_empty() || text::has(names[i].0.as_str(), needle) || text::has(
            names[i].1.as_str(),
            needle,
        ) {
            r.push(&models[i]);
            assert(selected_views(r@) =~= before.push(models@[i as int]@));
        }
        i += 1;
    }
    assert(views.take(i as int) =~= views);
    r
}

proof fn lemma_chosen(
    models: Seq<ModelView>,
    names: Seq<(Seq<char>, Seq<char>)>,
    needle: Seq<char>,
)
    requires
        models.len() <= names.len(),
        forall|i: int|
            0 <= i < models.len() ==> #[trigger] names[i] == (
                lowercased(models[i].id),
                lowercased(models[i].label),
            ),
    ensures
        chosen(models, names, needle) == matching(models, needle),
    decreases models.len(),
{
    reveal(Seq::filter);
    if models.len() > 0 {
        let rest = models.drop_last();
        assert forall|i: int| 0 <= i < rest.len() implies #[trigger] names[i] == (
            lowercased(rest[i].id),
            lowercased(rest[i].label),
        ) by {
            assert(rest[i] == models[i]);
        }
        lemma_chosen(rest, names, needle);
        assert(names[models.len() - 1] == (
            lowercased(models.last().id),
            lowercased(models.last().label),
        ));
        assert(rest.push(models.last()) =~= models);
    } else if needle.len() == 0 {
        assert(models =~= seq![]);
    }
}

/// The models whose name or label holds the filter, whatever the case; a blank filter lets
/// all through.
pub fn filter_models<'a>(models: &'a [ModelEntry], filter: &str) -> (r: Vec<&'a ModelEntry>)
    ensures
        selected_views(r@) == filtered(model_views(models@), filter@),
        vstd::utf8::is_ascii_chars(filter@) ==> selected_views(r@) == matching(
            model_views(models@),
            text::lower(text::trim(filter@)),
        ),
        text::trim(filter@).len() == 0 ==> selected_views(r@) == model_views(models@),
{
    proof {
        if vstd::utf8::is_ascii_chars(filter@) {
            text::lemma_trim_part(filter@);
        }
    }
    let needle = to_lowercase(text::trimmed(filter).as_str());
    let mut names: Vec<(String, String)> = Vec::new();
    let mut i: usize = 0;
    while i < models.len()
        invariant
            i <= models@.len(),
            names@.len() == i,
            forall|j: int|
                0 <= j < i ==> #[trigger] name_views(names@)[j] == (
                    lowercased(model_views(models@)[j].id),
                    lowercased(model_views(models@)[j].label),
                ),
        decreases models@.len() - i,
    {
        let ghost before = names@;
        names.push((to_lowercase(models[i].id.as_str()), to_lowercase(models[i].label.as_str())));
        assert forall|j: int| 0 <= j < i + 1 implies #[trigger] name_views(names@)[j] == (
            lowercased(model_views(models@)[j].id),
            lowercased(model_views(models@)[j].label),
        ) by {
            if j < i {
                assert(name_views(before)[j] == name_views(names@)[j]);
            }
        }
        i += 1;
    }
    proof {
        lemma_chosen(model_views(models@), name_views(names@), needle@);
    }
    choose_models(models, &names, needle.as_str())
}

/// The number of pages that so many entries fill.
pub fn page_count(count: usize) -> (r: usize)
    ensures
        r == (count + MODELS_PER_PAGE - 1) / MODELS_PER_PAGE as int,
        count <= r * MODELS_PER_PAGE < count + MODELS_PER_PAGE,
{
    if count == 0 {
        0
    } else {
        (count - 1) / MODELS_PER_PAGE + 1
    }
}

/// The text under a key, or another where there is none.
pub open spec fn text_or(value: JsonView, key: Seq<char>, other: Seq<char>) -> Seq<char> {
    match value.text_at(key) {
        Some(text) => text,
        None => other,
    }
}

/// The model in an entry under `data`, if it has an identifier.
pub open spec fn data_model(entry: JsonView) -> Option<ModelView> {
    match entry.text_at("id"@) {
        Some(id) => Some(
            ModelView { id, label: text_or(entry, "display_name"@, id), detail: None },
        ),
        None => None,
    }
}

/// A name without the prefix `models/`.
pub open spec fn plain_name(raw: Seq<char>) -> Seq<char> {
    if "models/"@.is_prefix_of(raw) {
        raw.skip("models/"@.len() as int)
    } else {
        raw
    }
}

/// Whether `generateContent` is among the methods of a list.
pub open spec fn generates(methods: Seq<JsonView>) -> bool {
    exists|i: int| 0 <= i < methods.len() && (#[trigger] methods[i]).text() == Some(
        "generateContent"@,
    )
}

/// Whether an entry says that its model does not generate text.
pub open spec fn is_other(entry: JsonView) -> bool {
    match entry.items_at("supportedGenerationMethods"@) {
        Some(methods) => !generates(methods),
        None => false,
    }
}

/// The model in an entry under `models`, if it has a name and generates text.
pub open spec fn named_model(entry: JsonView) -> Option<ModelView> {
    match entry.text_at("name"@) {
        Some(raw) => if plain_name(raw).len() == 0 || is_other(entry) {
            None
        } else {
            Some(
                ModelView {
                    id: plain_name(raw),
                    label: text_or(entry, "displayName"@, plain_name(raw)),
                    detail: entry.text_at("description"@),
                },
            )
        },
        None => None,
    }
}

/// The models in the entries under `data` or under `models`.
pub open spec fn models_in(entries: Seq<JsonView>, data: bool) -> Seq<ModelView>
    decreases entries.len(),
{
    if entries.len() == 0 {
        seq![]
    } else {
        let rest = models_in(entries.drop_last(), data);
        match if data {
            data_model(entries.last())
        } else {
            named_model(entries.last())
        } {
            Some(model) => rest.push(model),
            None => rest,
        }
    }
}

/// The models that a reply lists. OpenAI and Anthropic list them under `data`, Gemini and JEV
/// under `models`; it is the shape of the reply that counts, not the protocol.
pub open spec fn listed(value: JsonView) -> Seq<ModelView> {
    match value.items_at("data"@) {
        Some(entries) => models_in(entries, true),
        None => match value.items_at("models"@) {
            Some(entries) => models_in(entries, false),
            None => seq![],
        },
    }
}

/// What an optional model holds.
pub open spec fn opt_model(model: Option<ModelEntry>) -> Option<ModelView> {
    match model {
        Some(model) => Some(model@),
        None => None,
    }
}

/// The text under a key, or another where there is none.
fn str_or(value: &Json, key: &str, other: &str) -> (r: String)
    ensures
        r@ == text_or(value@, key@, other@),
{
    match value.str_at(key) {
        Some(text) => text.to_owned(),
        None => other.to_owned(),
    }
}

fn parse_data_entry(entry: &Json) -> (r: Option<ModelEntry>)
    ensures
        opt_model(r) == data_model(entry@),
{
    match entry.str_at("id") {
        Some(id) => Some(
            ModelEntry {
                id: id.to_owned(),
                label: str_or(entry, "display_name", id),
                detail: None,
            },
        ),
        None => None,
    }
}

/// A name without the prefix `models/`.
fn strip_models_prefix(raw: &str) -> (r: String)
    ensures
        r@ == plain_name(raw@),
{
    if text::begins_with(raw, "models/") {
        let chars = text::chars_of(raw);
        text::text_between(&chars, text::chars_of("models/").len(), chars.len())
    } else {
        raw.to_owned()
    }
}

/// Whether `generateContent` is among the methods of a list.
fn has_generate(methods: &Vec<Json>) -> (r: bool)
    ensures
        r == generates(crate::json::json_views(methods@)),
{
    let ghost views = crate::json::json_views(methods@);
    let mut i: usize = 0;
    while i < methods.len()
        invariant
            i <= methods@.len(),
            views == crate::json::json_views(methods@),
            forall|j: int|
                0 <= j < i ==> (#[trigger] views[j]).text() != Some("generateContent"@),
        decreases methods@.len() - i,
    {
        assert(views[i as int] == methods@[i as int]@);
        if let Some(method) = methods[i].as_str() {
            if text::same(method, "generateContent") {
                return true;
            }
        }
        i += 1;
    }
    false
}

fn parse_named_entry(entry: &Json) -> (r: Option<ModelEntry>)
    ensures
        opt_model(r) == named_model(entry@),
{
    let raw = match entry.str_at("name") {
        Some(raw) => raw,
        None => {
            return None;
        },
    };
    let id = strip_models_prefix(raw);
    if id.as_str().is_empty() {
        return None;
    }
    // A service may list models for other ends, such as embeddings; they answer nothing.
    if let Some(methods) = entry.array_at("supportedGenerationMethods") {
        if !has_generate(methods) {
            return None;
        }
    }
    let label = str_or(entry, "displayName", id.as_str());
    let detail = match entry.str_at("description") {
        Some(detail) => Some(detail.to_owned()),
        None => None,
    };
    Some(ModelEntry { id, label, detail })
}

fn parse_entries(entries: &Vec<Json>, data: bool) -> (r: Vec<ModelEntry>)
    ensures
        model_views(r@) == models_in(crate::json::json_views(entries@), data),
{
    let ghost views = crate::json::json_views(entries@);
    let mut r: Vec<ModelEntry> = Vec::new();
    let mut i: usize = 0;
    assert(views.take(0) =~= seq![]);
    assert(model_views(r@) =~= seq![]);
    while i < entries.len()
        invariant
            i <= entries@.len(),
            views == crate::json::json_views(entries@),
            model_views(r@) == models_in(views.take(i as int), data),
        decreases entries@.len() - i,
    {
        let ghost before = model_views(r@);
        assert(views.take(i + 1).drop_last() =~= views.take(i as int));
        assert(views.take(i + 1).last() == entries@[i as int]@);
        let model = if data {
            parse_data_entry(&entries[i])
        } else {
            parse_named_entry(&entries[i])
        };
        if let Some(model) = model {
            r.push(model);
            assert(model_views(r@) =~= before.push(model@));
        }
        i += 1;
    }
    assert(views.take(i as int) =~= views);
    r
}

/// The models that a reply lists.
pub fn parse_list(value: &Json) -> (r: Vec<ModelEntry>)
    ensures
        model_views(r@) == listed(value@),
{
    if let Some(entries) = value.array_at("data") {
        return parse_entries(entries, true);
    }
    match value.array_at("models") {
        Some(entries) => parse_entries(entries, false),
        None => {
            let r: Vec<ModelEntry> = Vec::new();
            assert(model_views(r@) =~= seq![]);
            r
        },
    }
}

/// The error that the text of a reply reports, if it is JSON and does.
pub open spec fn error_in(body: Seq<char>) -> Option<Seq<char>> {
    match crate::json::json_of_text(body) {
        Ok(value) => super::shared::errors::api_error(value),
        Err(_) => None,
    }
}

/// What is said of a list that the service did not give.
pub open spec fn http_error_text(
    protocol: Protocol,
    code: u16,
    body: Seq<char>,
    api_key: Seq<char>,
) -> Seq<char> {
    let label = super::protocol::name_of(protocol);
    let status = super::shared::stream::status_line(code);
    if code == 404 {
        label + " 未提供模型列表接口 (HTTP 404)，可手动输入模型名；确认基址为 "@ + label
            + " 官方域名或已实现该接口的中转"@
    } else if code == 401 || code == 403 {
        label + " 拒绝了请求 (HTTP "@ + status + ")，请检查 API Key"@
    } else {
        "拉取 "@ + label + " 模型列表失败 (HTTP "@ + status + "): "@ + match error_in(body) {
            Some(message) => message,
            None => super::shared::http::preview(body, api_key, 200),
        }
    }
}

/// What is said of a list that the service did not give.
pub fn describe_http_error(protocol: Protocol, code: u16, body: &str, api_key: &str) -> (r: String)
    requires
        100 <= code < 1000,
    ensures
        r@ == http_error_text(protocol, code, body@, api_key@),
{
    let label = protocol.display_name();
    if code == 404 {
        let mut r = text::concat(
            label,
            " 未提供模型列表接口 (HTTP 404)，可手动输入模型名；确认基址为 ",
        );
        r.append(label);
        r.append(" 官方域名或已实现该接口的中转");
        return r;
    }
    let status = status_text(code);
    if code == 401 || code == 403 {
        let mut r = text::concat(label, " 拒绝了请求 (HTTP ");
        r.append(status.as_str());
        r.append(")，请检查 API Key");
        return r;
    }
    let message = match Json::parse(body) {
        Ok(value) => extract_api_error(&value),
        Err(_) => None,
    };
    let mut r = text::concat("拉取 ", label);
    r.append(" 模型列表失败 (HTTP ");
    r.append(status.as_str());
    r.append("): ");
    match message {
        Some(message) => r.append(message.as_str()),
        None => r.append(safe_preview(body, api_key, 200).as_str()),
    }
    r
}

/// A list of models that is being fetched, page by page.
#[derive(Debug, PartialEq, Eq)]
pub struct ModelFetch {
    pub protocol: Protocol,
    pub base_url: String,
    pub api_key: String,
    /// Where the next page is.
    pub url: String,
    /// How many pages came in.
    pub pages: usize,
    pub models: Vec<ModelEntry>,
}

/// What a list that is being fetched holds.
#[verifier::ext_equal]
pub struct FetchView {
    pub protocol: Protocol,
    pub base_url: Seq<char>,
    pub api_key: Seq<char>,
    pub url: Seq<char>,
    pub pages: usize,
    pub models: Seq<ModelView>,
}

impl View for ModelFetch {
    type V = FetchView;

    open spec fn view(&self) -> FetchView {
        FetchView {
            protocol: self.protocol,
            base_url: self.base_url@,
            api_key: self.api_key@,
            url: self.url@,
            pages: self.pages,
            models: model_views(self.models@),
        }
    }
}

/// What comes of a page.
#[derive(Debug, PartialEq, Eq)]
pub enum FetchStep {
    /// The next page is wanted.
    More,
    Done(ModelList),
    Failed(String),
}

/// What comes of a page.
#[verifier::ext_equal]
pub enum FetchStepView {
    More,
    Done(Seq<ModelView>, bool),
    Failed(Seq<char>),
}

impl View for FetchStep {
    type V = FetchStepView;

    open spec fn view(&self) -> FetchStepView {
        match self {
            FetchStep::More => FetchStepView::More,
            FetchStep::Done(list) => FetchStepView::Done(
                model_views(list.models@),
                list.truncated,
            ),
            FetchStep::Failed(message) => FetchStepView::Failed(message@),
        }
    }
}

impl FetchView {
    /// There is room for more models and more pages.
    pub open spec fn wf(self) -> bool {
        self.models.len() < MAX_MODELS && self.pages < MAX_PAGE_REQUESTS
    }

    /// The end of the list, which has to hold something. The models are handed over.
    pub open spec fn ending(self, truncated: bool) -> (FetchView, FetchStepView) {
        if self.models.len() == 0 {
            (
                self,
                FetchStepView::Failed(
                    super::protocol::name_of(self.protocol)
                        + " 返回了空的模型列表，请确认该 Key 有权访问模型"@,
                ),
            )
        } else {
            (
                FetchView { models: seq![], ..self },
                FetchStepView::Done(self.models, truncated),
            )
        }
    }

    /// What comes of the JSON value of a page.
    pub open spec fn listing(self, value: JsonView) -> (FetchView, FetchStepView) {
        let models = self.models + listed(value);
        let grown = FetchView { models, pages: (self.pages + 1) as usize, ..self };
        if models.len() >= MAX_MODELS {
            FetchView { models: models.take(MAX_MODELS as int), ..grown }.ending(
                models.len() > MAX_MODELS || cursor_of(self.protocol, value) is Some,
            )
        } else {
            match cursor_of(self.protocol, value) {
                Some(cursor) => {
                    let ahead = FetchView {
                        url: next_url_of(self.protocol, self.base_url, cursor),
                        ..grown
                    };
                    if ahead.pages == MAX_PAGE_REQUESTS {
                        ahead.ending(true)
                    } else {
                        (ahead, FetchStepView::More)
                    }
                },
                None => grown.ending(false),
            }
        }
    }

    /// What comes of a page.
    pub open spec fn page(self, code: u16, bytes: Seq<u8>) -> (FetchView, FetchStepView) {
        let body = super::shared::stream::lossy(bytes);
        if bytes.len() > MAX_RESPONSE_SIZE {
            (self, FetchStepView::Failed("模型列表响应超过 4 MiB 限制"@))
        } else if !(200 <= code < 300) {
            (
                self,
                FetchStepView::Failed(http_error_text(self.protocol, code, body, self.api_key)),
            )
        } else {
            match crate::json::json_of_text(body) {
                Ok(value) => self.listing(value),
                Err(error) => (
                    self,
                    FetchStepView::Failed(
                        "解析模型列表 JSON 失败: "@ + error + "; 响应摘要: "@
                            + super::shared::http::preview(body, self.api_key, 200),
                    ),
                ),
            }
        }
    }

    /// What is said where the request for a page failed.
    pub open spec fn send_failure(self, error: TransportView) -> Seq<char> {
        super::shared::http::transport_text(
            "拉取 "@ + super::protocol::name_of(self.protocol) + " 模型列表失败"@,
            error,
            self.api_key,
        )
    }
}

/// The start of a fetch.
pub open spec fn started(protocol: Protocol, base_url: Seq<char>, api_key: Seq<char>) -> FetchView {
    FetchView {
        protocol,
        base_url,
        api_key,
        url: models_url_of(protocol, base_url),
        pages: 0,
        models: seq![],
    }
}

/// Starts to fetch the models that a service offers.
pub fn fetch_models(protocol: Protocol, base_url: &str, api_key: &str) -> (r: ModelFetch)
    ensures
        r@ == started(protocol, base_url@, api_key@),
        r@ == (FetchView {
            protocol,
            base_url: base_url@,
            api_key: api_key@,
            url: models_url_of(protocol, base_url@),
            pages: 0,
            models: seq![],
        }),
        r@.wf(),
{
    let models: Vec<ModelEntry> = Vec::new();
    assert(model_views(models@) =~= seq![]);
    ModelFetch {
        protocol,
        base_url: base_url.to_owned(),
        api_key: api_key.to_owned(),
        url: models_url(protocol, base_url),
        pages: 0,
        models,
    }
}

impl ModelFetch {
    /// The headers of the request for a page.
    pub fn headers(&self) -> (r: Vec<(String, String)>)
        ensures
            super::shared::auth::header_views(r@) == super::shared::auth::auth_headers(
                self.protocol,
                self.api_key@,
            ),
    {
        let none: Vec<(String, String)> = Vec::new();
        let r = apply_auth(none, self.protocol, self.api_key.as_str());
        assert(super::shared::auth::header_views(r@) =~= super::shared::auth::auth_headers(
            self.protocol,
            self.api_key@,
        ));
        r
    }

    /// What is said where the request for a page failed.
    pub fn send_failed(&self, error: &TransportError) -> (r: String)
        ensures
            r@ == self@.send_failure(error@),
    {
        let mut context = text::concat("拉取 ", self.protocol.display_name());
        context.append(" 模型列表失败");
        format_reqwest_error(context.as_str(), error, self.api_key.as_str())
    }

    /// What is said where reading a page failed.
    pub fn read_failed(&self, error: &TransportError) -> (r: String)
        ensures
            r@ == super::shared::http::transport_text(
                "读取模型列表响应失败"@,
                error@,
                self@.api_key,
            ),
    {
        format_reqwest_error("读取模型列表响应失败", error, self.api_key.as_str())
    }

    /// The end of the list, which has to hold something.
    fn end(&mut self, truncated: bool) -> (step: FetchStep)
        ensures
            (final(self)@, step@) == old(self)@.ending(truncated),
    {
        if self.models.len() == 0 {
            return FetchStep::Failed(
                text::concat(
                    self.protocol.display_name(),
                    " 返回了空的模型列表，请确认该 Key 有权访问模型",
                ),
            );
        }
        let mut models: Vec<ModelEntry> = Vec::new();
        std::mem::swap(&mut models, &mut self.models);
        assert(self@.models =~= seq![]);
        FetchStep::Done(ModelList { models, truncated })
    }

    /// Takes the JSON value of a page.
    fn take(&mut self, value: &Json) -> (step: FetchStep)
        requires
            old(self)@.wf(),
        ensures
            (final(self)@, step@) == old(self)@.listing(value@),
    {
        let mut more = parse_list(value);
        let ghost known = self@.models;
        let ghost new = model_views(more@);
        self.models.append(&mut more);
        self.pages = self.pages + 1;
        assert(self@.models =~= known + new);
        let cursor = next_cursor(self.protocol, value);
        if self.models.len() >= MAX_MODELS {
            let truncated = self.models.len() > MAX_MODELS || cursor.is_some();
            self.models.truncate(MAX_MODELS);
            assert(self@.models =~= (known + new).take(MAX_MODELS as int));
            return self.end(truncated);
        }
        match cursor {
            Some(cursor) => {
                self.url = next_url(self.protocol, self.base_url.as_str(), cursor.as_str());
                if self.pages == MAX_PAGE_REQUESTS {
                    self.end(true)
                } else {
                    FetchStep::More
                }
            },
            None => self.end(false),
        }
    }

    /// Takes a page: its status code and its bytes.
    pub fn page(&mut self, code: u16, bytes: &[u8]) -> (step: FetchStep)
        requires
            old(self)@.wf(),
            100 <= code < 1000,
        ensures
            (final(self)@, step@) == old(self)@.page(code, bytes@),
            step is More ==> final(self)@.wf(),
    {
        if bytes.len() > MAX_RESPONSE_SIZE {
            return FetchStep::Failed("模型列表响应超过 4 MiB 限制".to_owned());
        }
        let body = lossy_text(bytes);
        if !(200 <= code && code < 300) {
            return FetchStep::Failed(
                describe_http_error(self.protocol, code, body.as_str(), self.api_key.as_str()),
            );
        }
        match Json::parse(body.as_str()) {
            Ok(value) => self.take(&value),
            Err(error) => {
                let mut message = text::concat("解析模型列表 JSON 失败: ", error.as_str());
                message.append("; 响应摘要: ");
                message.append(safe_preview(body.as_str(), self.api_key.as_str(), 200).as_str());
                FetchStep::Failed(message)
            },
        }
    }
}

/// A list that is fetched holds something and is never too long, and with each page that is
/// asked for the bound on the pages comes closer.
pub proof fn law_list_is_bounded(x: FetchView, code: u16, bytes: Seq<u8>)
    requires
        x.wf(),
    ensures
        match x.page(code, bytes) {
            (_, FetchStepView::Done(models, _)) => 0 < models.len() <= MAX_MODELS,
            (after, FetchStepView::More) => after.wf() && after.pages == x.pages + 1,
            (_, FetchStepView::Failed(_)) => true,
        },
{
}

/// Asking and listing go to the same version of the service, on every page.
pub proof fn law_lists_where_it_asks(
    protocol: Protocol,
    base_url: Seq<char>,
    model: Seq<char>,
    cursor: Seq<char>,
)
    ensures
        ({
            let base = super::protocol::versioned(protocol, base_url);
            &&& base.is_prefix_of(super::protocol::endpoint_of(protocol, base_url, model))
            &&& base.is_prefix_of(models_url_of(protocol, base_url))
            &&& next_url_of(protocol, base_url, cursor).len() > 0 ==> base.is_prefix_of(
                next_url_of(protocol, base_url, cursor),
            )
        }),
{
    let base = super::protocol::versioned(protocol, base_url);
    let endpoint = super::protocol::endpoint_of(protocol, base_url, model);
    let models = models_url_of(protocol, base_url);
    let next = next_url_of(protocol, base_url, cursor);
    assert(base =~= endpoint.subrange(0, base.len() as int));
    assert(base =~= models.subrange(0, base.len() as int));
    if next.len() > 0 {
        assert(base =~= next.subrange(0, base.len() as int));
    }
}

/// A filter lets through what is found and nothing else. Another filter that is the same in
/// lower case does the same, and applying a filter twice is applying it once.
pub proof fn law_filter(models: Seq<ModelView>, filter: Seq<char>, other: Seq<char>)
    ensures
        ({
            let needle = lowercased(text::trim(filter));
            let list = filtered(models, filter);
            &&& needle.len() > 0 ==> forall|i: int|
                0 <= i < list.len() ==> found(#[trigger] list[i], needle)
            &&& forall|i: int|
                0 <= i < models.len() && (needle.len() == 0 || found(models[i], needle))
                    ==> list.contains(#[trigger] models[i])
            &&& forall|i: int| 0 <= i < list.len() ==> models.contains(#[trigger] list[i])
            &&& filtered(list, filter) == list
            &&& lowercased(text::trim(other)) == needle ==> filtered(models, other) == list
        }),
{
    broadcast use vstd::seq_lib::group_filter_ensures;

    let needle = lowercased(text::trim(filter));
    let list = filtered(models, filter);
    let pick = |model: ModelView| found(model, needle);
    if needle.len() > 0 {
        lemma_filter_twice(models, pick);
        assert forall|i: int| 0 <= i < list.len() implies found(#[trigger] list[i], needle) by {
            assert(pick(models.filter(pick)[i]));
        }
        assert forall|i: int| 0 <= i < models.len() && found(models[i], needle) implies
            list.contains(#[trigger] models[i]) by {
            assert(pick(models[i]));
            assert(models.filter(pick).contains(models[i]));
        }
        assert forall|i: int| 0 <= i < list.len() implies models.contains(#[trigger] list[i]) by {
            models.lemma_filter_contains_rev(pick, list[i]);
        }
    }
}

proof fn lemma_filter_twice(models: Seq<ModelView>, pick: spec_fn(ModelView) -> bool)
    ensures
        models.filter(pick).filter(pick) == models.filter(pick),
    decreases models.len(),
{
    reveal(Seq::filter);
    if models.len() > 0 {
        let rest = models.drop_last();
        lemma_filter_twice(rest, pick);
        if pick(models.last()) {
            let list = rest.filter(pick).push(models.last());
            assert(list.drop_last() =~= rest.filter(pick));
        }
    }
}

/// The case of the letters in a filter of ASCII characters does not matter: two filters that
/// are the same in lower case look for the same, and so does a filter in upper case.
pub proof fn law_case_is_ignored(models: Seq<ModelView>, filter: Seq<char>, other: Seq<char>)
    requires
        vstd::utf8::is_ascii_chars(filter),
    ensures
        text::lower(other) == text::lower(filter) ==> matching(
            models,
            text::lower(text::trim(other)),
        ) == matching(models, text::lower(text::trim(filter))),
        vstd::utf8::is_ascii_chars(text::upper(filter)),
        matching(models, text::lower(text::trim(text::upper(filter)))) == matching(
            models,
            text::lower(text::trim(filter)),
        ),
{
    let raised = text::upper(filter);
    text::lemma_trim_lower(filter);
    text::lemma_trim_lower(other);
    text::lemma_trim_lower(raised);
    assert(text::lower(raised) =~= text::lower(filter)) by {
        assert forall|i: int| 0 <= i < filter.len() implies text::lower(raised)[i] == text::lower(
            filter,
        )[i] by {
            assert(raised[i] == text::upper_char(filter[i]));
        }
    }
    assert forall|i: int| 0 <= i < raised.len() implies '\0' <= #[trigger] raised[i]
        <= '\u{7f}' by {
        assert('\0' <= filter[i] <= '\u{7f}');
    }
}

/// A list is said to be cut exactly where there is more: where the pages listed more than
/// the list holds, or another page stands behind the last one that was asked for.
pub proof fn law_cut_lists_go_on(x: FetchView, value: JsonView)
    requires
        x.wf(),
    ensures
        x.listing(value).1 matches FetchStepView::Done(models, truncated) ==> {
            &&& models.is_prefix_of(x.models + listed(value))
            &&& truncated == (models.len() < (x.models + listed(value)).len() || cursor_of(
                x.protocol,
                value,
            ) is Some)
        },
{
    let all = x.models + listed(value);
    assert(all.subrange(0, all.len() as int) =~= all);
    if all.len() >= MAX_MODELS {
        assert(all.take(MAX_MODELS as int) =~= all.subrange(0, MAX_MODELS as int));
    }
}

} // verus!
