//! JEV: one question with its options, answered by a choice.
use crate::config::OpenAiConfig;
use crate::json::{put, Json, JsonNumber, JsonView, NumberView};
use crate::llm::jev_exchange::JevExchange;
use crate::llm::protocol::Protocol;
use crate::llm::request::{post, HttpRequest, HttpRequestView};
use crate::llm::shared::http::send_error;
use crate::llm::url::{parse_url, UrlParts};
use crate::llm::LlmChunk;
use crate::text;
use vstd::prelude::*;
use vstd::string::*;

verus! {

broadcast use {vstd::seq_lib::group_seq_properties, vstd::string::group_string_axioms};

pub const MAX_RESPONSE_SIZE: usize = 1024 * 1024;

pub const MAX_OVERLOAD_RETRIES: usize = 3;

/// In seconds.
pub const RETRY_BASE_DELAY: u64 = 2;

/// In seconds.
pub const MAX_RETRY_AFTER: u64 = 30;

/// What the model is told to do. JEV knows English best; only the question is in Chinese.
pub const CHOICE_INSTRUCTIONS: &'static str =
    "Pick the single option that correctly answers the question in `question`. Judge only from the question text and the option texts; exactly one option is correct.";

/// Whether an address is JEV's: its own host, or a relay whose path ends in `/systemone`.
pub open spec fn is_jev(parts: crate::llm::url::UrlView) -> bool {
    ||| parts.host matches Some(host) && text::lower(host) == text::lower("api.typesafe.ai"@)
    ||| "/systemone"@.is_suffix_of(text::lower(text::trim_end_of(parts.path, '/')))
}

/// Whether the parts of an address are those of a JEV endpoint.
pub fn names_jev(parts: &UrlParts) -> (r: bool)
    ensures
        r == is_jev(parts@),
{
    if let Some(host) = &parts.host {
        if text::same_ignoring_case(host.as_str(), "api.typesafe.ai") {
            return true;
        }
    }
    let path = text::trimmed_end_of(parts.path.as_str(), '/');
    text::finishes_with(text::ascii_lowercase(path.as_str()).as_str(), "/systemone")
}

/// Whether an address is that of a JEV endpoint.
pub fn is_jev_endpoint(base_url: &str) -> (r: bool)
    ensures
        r == match crate::llm::url::url_of(base_url@) {
            Some(parts) => is_jev(parts),
            None => false,
        },
{
    match parse_url(base_url) {
        Some(parts) => names_jev(&parts),
        None => false,
    }
}

/// The texts of a list as JSON.
pub open spec fn text_items(list: Seq<Seq<char>>) -> Seq<JsonView> {
    list.map_values(|item: Seq<char>| JsonView::Text(item))
}

/// The options, each under its number, counted from one.
pub open spec fn criteria(options: Seq<Seq<char>>) -> Seq<(Seq<char>, JsonView)> {
    Seq::new(
        options.len(),
        |i: int| (text::decimal((i + 1) as nat), JsonView::Text(options[i])),
    )
}

/// What the choice is about: the question, and the categories where there are any.
pub open spec fn state_of(question: Seq<char>, categories: Seq<Seq<char>>) -> Seq<
    (Seq<char>, JsonView),
> {
    let question = ("question"@, JsonView::Text(question));
    if categories.len() == 0 {
        seq![question]
    } else {
        seq![question, ("categories"@, JsonView::Array(text_items(categories)))]
    }
}

/// The question as the protocol puts it.
pub open spec fn choice_question(options: Seq<Seq<char>>) -> JsonView {
    JsonView::Object(
        seq![
            ("type"@, JsonView::Text("choice"@)),
            ("instructions"@, JsonView::Text(CHOICE_INSTRUCTIONS@)),
            ("criteria"@, JsonView::Object(criteria(options))),
        ],
    )
}

/// The body of a request.
pub open spec fn request_body(
    model: Seq<char>,
    question: Seq<char>,
    options: Seq<Seq<char>>,
    categories: Seq<Seq<char>>,
) -> JsonView {
    JsonView::Object(
        seq![
            ("state"@, JsonView::Object(state_of(question, categories))),
            ("model"@, JsonView::Text(model)),
            (
                "questions"@,
                JsonView::Object(seq![("answer"@, choice_question(options))]),
            ),
        ],
    )
}

/// The body of a request.
pub fn build_request_body(
    model: &str,
    question: &str,
    options: &[String],
    categories: &[String],
) -> (r: Json)
    ensures
        r@ == request_body(
            model@,
            question@,
            text::texts(options@),
            text::texts(categories@),
        ),
{
    let mut state: Vec<(String, Json)> = Vec::new();
    put(&mut state, "question", Json::text(question));
    if categories.len() > 0 {
        put(&mut state, "categories", list_of_texts(categories));
    }
    assert(crate::json::entry_views(state@) =~= state_of(question@, text::texts(categories@)));
    let mut choice: Vec<(String, Json)> = Vec::new();
    put(&mut choice, "type", Json::text("choice"));
    put(&mut choice, "instructions", Json::text(CHOICE_INSTRUCTIONS));
    put(&mut choice, "criteria", build_criteria(options));
    assert(crate::json::entry_views(choice@) =~= choice_question(
        text::texts(options@),
    )->Object_0);
    let mut body: Vec<(String, Json)> = Vec::new();
    put(&mut body, "state", Json::object(state));
    put(&mut body, "model", Json::text(model));
    put(&mut body, "questions", Json::object_of("answer", Json::object(choice)));
    assert(crate::json::entry_views(body@) =~= request_body(
        model@,
        question@,
        text::texts(options@),
        text::texts(categories@),
    )->Object_0);
    Json::object(body)
}

/// The texts of a list as JSON.
fn list_of_texts(list: &[String]) -> (r: Json)
    ensures
        r@ == JsonView::Array(text_items(text::texts(list@))),
{
    let ghost wanted = text_items(text::texts(list@));
    let mut items: Vec<Json> = Vec::new();
    let mut i: usize = 0;
    while i < list.len()
        invariant
            i <= list@.len(),
            wanted == text_items(text::texts(list@)),
            crate::json::json_views(items@) == wanted.take(i as int),
        decreases list@.len() - i,
    {
        let ghost before = crate::json::json_views(items@);
        let item = Json::text(list[i].as_str());
        items.push(item);
        assert(crate::json::json_views(items@) =~= before.push(item@));
        assert(wanted.take(i + 1) =~= before.push(item@));
        i += 1;
    }
    assert(wanted.take(i as int) =~= wanted);
    Json::array(items)
}

/// The options, each under its number, counted from one.
fn build_criteria(options: &[String]) -> (r: Json)
    ensures
        r@ == JsonView::Object(criteria(text::texts(options@))),
{
    let ghost wanted = criteria(text::texts(options@));
    let count: usize = options.len();
    let mut entries: Vec<(String, Json)> = Vec::new();
    let mut i: usize = 0;
    assert(crate::json::entry_views(entries@) =~= wanted.take(0));
    while i < count
        invariant
            i <= count,
            count == options@.len(),
            wanted == criteria(text::texts(options@)),
            crate::json::entry_views(entries@) == wanted.take(i as int),
        decreases count - i,
    {
        let ghost before = crate::json::entry_views(entries@);
        let number = text::decimal_text(i as u64 + 1);
        put(&mut entries, number.as_str(), Json::text(options[i].as_str()));
        assert(wanted.take(i + 1) =~= before.push(wanted[i as int]));
        i += 1;
    }
    assert(wanted.take(i as int) =~= wanted);
    Json::object(entries)
}

/// A choice that JEV made.
#[derive(Debug, PartialEq, Eq)]
pub struct JevChoice {
    /// The number of the option, counted from one.
    pub index: usize,
    pub model: String,
    pub confidence: Option<JsonNumber>,
    /// How likely the options are, each with its number.
    pub probabilities: Vec<(usize, JsonNumber)>,
    pub input_tokens: Option<u64>,
}

/// What a choice holds.
#[verifier::ext_equal]
pub struct ChoiceView {
    pub index: usize,
    pub model: Seq<char>,
    pub confidence: Option<NumberView>,
    pub probabilities: Seq<(usize, NumberView)>,
    pub input_tokens: Option<u64>,
}

/// What a list of probabilities holds.
pub open spec fn probability_views(list: Seq<(usize, JsonNumber)>) -> Seq<(usize, NumberView)> {
    list.map_values(|entry: (usize, JsonNumber)| (entry.0, entry.1@))
}

impl View for JevChoice {
    type V = ChoiceView;

    open spec fn view(&self) -> ChoiceView {
        ChoiceView {
            index: self.index,
            model: self.model@,
            confidence: match self.confidence {
                Some(number) => Some(number@),
                None => None,
            },
            probabilities: probability_views(self.probabilities@),
            input_tokens: self.input_tokens,
        }
    }
}

/// The number of an option that a text denotes, where there is such an option.
pub open spec fn option_number(text: Seq<char>, option_count: usize) -> Option<usize> {
    match text::parse_unsigned(text::trim(text), usize::MAX as nat) {
        Some(n) => if 1 <= n <= option_count {
            Some(n as usize)
        } else {
            None
        },
        None => None,
    }
}

/// The probabilities that belong to an option, in their order.
pub open spec fn probabilities_in(entries: Seq<(Seq<char>, JsonView)>, option_count: usize) -> Seq<
    (usize, NumberView),
>
    decreases entries.len(),
{
    if entries.len() == 0 {
        seq![]
    } else {
        let rest = probabilities_in(entries.drop_last(), option_count);
        match (option_number(entries.last().0, option_count), entries.last().1) {
            (Some(index), JsonView::Number(number)) => rest.push((index, number)),
            _ => rest,
        }
    }
}

/// The probabilities that an answer gives.
pub open spec fn probabilities_of(answer: JsonView, option_count: usize) -> Seq<
    (usize, NumberView),
> {
    match answer.get("probabilities"@) {
        Some(value) => match value.entries() {
            Some(entries) => probabilities_in(entries, option_count),
            None => seq![],
        },
        None => seq![],
    }
}

/// The number under a key.
pub open spec fn number_at(value: JsonView, key: Seq<char>) -> Option<NumberView> {
    match value.get(key) {
        Some(JsonView::Number(number)) => Some(number),
        _ => None,
    }
}

/// The unsigned number under a key of the object under a key.
pub open spec fn unsigned_at2(value: JsonView, outer: Seq<char>, inner: Seq<char>) -> Option<u64> {
    match value.get2(outer, inner) {
        Some(value) => value.unsigned(),
        None => None,
    }
}

/// The choice that a reply and the answer in it hold, for the option of the given number.
pub open spec fn choice_with(
    value: JsonView,
    answer: JsonView,
    index: usize,
    option_count: usize,
) -> ChoiceView {
    ChoiceView {
        index,
        model: match value.text_at("model"@) {
            Some(model) => model,
            None => "unknown"@,
        },
        confidence: number_at(answer, "confidence"@),
        probabilities: probabilities_of(answer, option_count),
        input_tokens: unsigned_at2(value, "usage"@, "input_tokens"@),
    }
}

/// The choice that the text of an answer makes.
pub open spec fn choice_by(
    value: JsonView,
    answer: JsonView,
    raw: Seq<char>,
    option_count: usize,
) -> Result<ChoiceView, Seq<char>> {
    match text::parse_unsigned(text::trim(raw), usize::MAX as nat) {
        Some(n) => if 1 <= n <= option_count {
            Ok(choice_with(value, answer, n as usize, option_count))
        } else {
            Err(
                "JEV 返回的选项 "@ + text::decimal(n) + " 超出有效范围 1-"@ + text::decimal(
                    option_count as nat,
                ),
            )
        },
        None => Err("JEV 返回了无法解析的选项: "@ + raw),
    }
}

/// The choice in an answer.
pub open spec fn choice_in(value: JsonView, answer: JsonView, option_count: usize) -> Result<
    ChoiceView,
    Seq<char>,
> {
    let kind = answer.text_at("type"@);
    if kind is Some && kind->0 != "choice"@ {
        Err("JEV 返回了非 choice 答案类型: "@ + kind->0)
    } else {
        match answer.text_at("choice"@) {
            Some(raw) => choice_by(value, answer, raw, option_count),
            None => Err("JEV 响应缺少 answers.answer.choice"@),
        }
    }
}

/// The choice in a reply.
pub open spec fn choice_of(value: JsonView, option_count: usize) -> Result<ChoiceView, Seq<char>> {
    match value.get2("answers"@, "answer"@) {
        Some(JsonView::Object(entries)) => choice_in(
            value,
            JsonView::Object(entries),
            option_count,
        ),
        _ => Err("JEV 响应缺少 answers.answer"@),
    }
}

/// What the outcome of [`parse_choice`] holds.
pub open spec fn choice_view(choice: Result<JevChoice, String>) -> Result<ChoiceView, Seq<char>> {
    match choice {
        Ok(choice) => Ok(choice@),
        Err(message) => Err(message@),
    }
}

/// A copy of a number.
fn copy_of(number: &JsonNumber) -> (r: JsonNumber)
    ensures
        r@ == number@,
{
    JsonNumber {
        unsigned: number.unsigned,
        decimal: number.decimal.clone(),
        places: number.places.clone(),
    }
}

/// The number that a text denotes.
fn parse_index(text: &str) -> (r: Option<usize>)
    ensures
        match r {
            Some(n) => text::parse_unsigned(text::trim(text@), usize::MAX as nat) == Some(n as nat),
            None => text::parse_unsigned(text::trim(text@), usize::MAX as nat) is None,
        },
{
    match text::parsed_unsigned(text::trimmed(text).as_str(), usize::MAX as u64) {
        Some(n) => Some(n as usize),
        None => None,
    }
}

/// The probabilities that belong to an option, in their order.
fn parse_probabilities(entries: &Vec<(String, Json)>, option_count: usize) -> (r: Vec<
    (usize, JsonNumber),
>)
    ensures
        probability_views(r@) == probabilities_in(
            crate::json::entry_views(entries@),
            option_count,
        ),
{
    let ghost views = crate::json::entry_views(entries@);
    let mut r: Vec<(usize, JsonNumber)> = Vec::new();
    let mut i: usize = 0;
    assert(views.take(0) =~= seq![]);
    assert(probability_views(r@) =~= seq![]);
    while i < entries.len()
        invariant
            i <= entries@.len(),
            views == crate::json::entry_views(entries@),
            probability_views(r@) == probabilities_in(views.take(i as int), option_count),
        decreases entries@.len() - i,
    {
        let ghost before = probability_views(r@);
        assert(views.take(i + 1).drop_last() =~= views.take(i as int));
        assert(views.take(i + 1).last() == (entries@[i as int].0@, entries@[i as int].1@));
        if let Some(index) = parse_index(entries[i].0.as_str()) {
            if index != 0 && index <= option_count {
                if let Json::Number(number) = &entries[i].1 {
                    let number = copy_of(number);
                    r.push((index, number));
                    assert(probability_views(r@) =~= before.push((index, number@)));
                }
            }
        }
        i += 1;
    }
    assert(views.take(i as int) =~= views);
    r
}

/// The choice in a reply.
pub fn parse_choice(value: &Json, option_count: usize) -> (r: Result<JevChoice, String>)
    ensures
        choice_view(r) == choice_of(value@, option_count),
{
    let answer = match value.get("answers") {
        Some(answers) => match answers.get("answer") {
            Some(answer) => match answer {
                Json::Object(_) => answer,
                _ => {
                    return Err("JEV 响应缺少 answers.answer".to_owned());
                },
            },
            None => {
                return Err("JEV 响应缺少 answers.answer".to_owned());
            },
        },
        None => {
            return Err("JEV 响应缺少 answers.answer".to_owned());
        },
    };
    if let Some(kind) = answer.str_at("type") {
        if !text::same(kind, "choice") {
            return Err(text::concat("JEV 返回了非 choice 答案类型: ", kind));
        }
    }
    let raw = match answer.str_at("choice") {
        Some(raw) => raw,
        None => {
            return Err("JEV 响应缺少 answers.answer.choice".to_owned());
        },
    };
    let index = match parse_index(raw) {
        Some(index) => index,
        None => {
            return Err(text::concat("JEV 返回了无法解析的选项: ", raw));
        },
    };
    if index == 0 || index > option_count {
        let mut message = text::concat(
            "JEV 返回的选项 ",
            text::decimal_text(index as u64).as_str(),
        );
        message.append(" 超出有效范围 1-");
        message.append(text::decimal_text(option_count as u64).as_str());
        return Err(message);
    }
    let probabilities = match answer.get("probabilities") {
        Some(value) => match value.as_object() {
            Some(entries) => parse_probabilities(entries, option_count),
            None => Vec::new(),
        },
        None => Vec::new(),
    };
    assert(probability_views(probabilities@) =~= probabilities_of(answer@, option_count));
    let confidence = match answer.get("confidence") {
        Some(value) => match value {
            Json::Number(number) => Some(copy_of(number)),
            _ => None,
        },
        None => None,
    };
    let model = match value.str_at("model") {
        Some(model) => model.to_owned(),
        None => "unknown".to_owned(),
    };
    let input_tokens = match value.get("usage") {
        Some(usage) => match usage.get("input_tokens") {
            Some(tokens) => tokens.as_u64(),
            None => None,
        },
        None => None,
    };
    Ok(JevChoice { index, model, confidence, probabilities, input_tokens })
}

/// The list with an entry put behind all those whose number is not larger.
pub open spec fn placed(list: Seq<(usize, Seq<char>)>, entry: (usize, Seq<char>)) -> Seq<
    (usize, Seq<char>),
>
    decreases list.len(),
{
    if list.len() == 0 || list.last().0 <= entry.0 {
        list.push(entry)
    } else {
        placed(list.drop_last(), entry).push(list.last())
    }
}

/// The list in the order of its numbers; what has the same number stays in its order.
pub open spec fn ordered(list: Seq<(usize, Seq<char>)>) -> Seq<(usize, Seq<char>)>
    decreases list.len(),
{
    if list.len() == 0 {
        seq![]
    } else {
        placed(ordered(list.drop_last()), list.last())
    }
}

/// The probabilities as they are shown, with two decimal places.
pub open spec fn shown(list: Seq<(usize, NumberView)>) -> Seq<(usize, Seq<char>)> {
    list.map_values(|entry: (usize, NumberView)| (entry.0, entry.1.places))
}

/// The entries of a list in words.
pub open spec fn entry_texts(list: Seq<(usize, Seq<char>)>) -> Seq<Seq<char>> {
    list.map_values(
        |entry: (usize, Seq<char>)| text::decimal(entry.0 as nat) + ":"@ + entry.1,
    )
}

impl ChoiceView {
    /// The choice in words: the model, how sure it is, and how likely the options are.
    pub open spec fn summary(self) -> Seq<char> {
        "JEV "@ + self.model + "｜"@ + (match self.confidence {
            Some(confidence) => "置信度 "@ + confidence.places + "｜"@,
            None => seq![],
        }) + if self.probabilities.len() == 0 {
            seq![]
        } else {
            "选项概率 "@ + text::join(entry_texts(ordered(shown(self.probabilities))), " "@)
        }
    }
}

/// What the entries of a list hold.
spec fn entries_held(list: Seq<(usize, String)>) -> Seq<(usize, Seq<char>)> {
    list.map_values(|entry: (usize, String)| (entry.0, entry.1@))
}

proof fn lemma_placed(list: Seq<(usize, Seq<char>)>, entry: (usize, Seq<char>), at: int)
    requires
        0 <= at <= list.len(),
        at > 0 ==> list[at - 1].0 <= entry.0,
        forall|i: int| at <= i < list.len() ==> (#[trigger] list[i]).0 > entry.0,
    ensures
        placed(list, entry) == list.insert(at, entry),
    decreases list.len(),
{
    if at == list.len() {
        assert(list.insert(at, entry) =~= list.push(entry));
    } else {
        let last = list[list.len() - 1];
        let rest = list.drop_last();
        assert forall|i: int| at <= i < rest.len() implies (#[trigger] rest[i]).0 > entry.0 by {
            assert(rest[i] == list[i]);
        }
        lemma_placed(rest, entry, at);
        assert(last.0 > entry.0);
        assert(placed(list, entry) == placed(rest, entry).push(last));
        assert(rest.insert(at, entry).push(last) =~= list.insert(at, entry));
    }
}

/// The probabilities in the order of their numbers, with two decimal places.
fn order(probabilities: &Vec<(usize, JsonNumber)>) -> (r: Vec<(usize, String)>)
    ensures
        entries_held(r@) == ordered(shown(probability_views(probabilities@))),
{
    let ghost wanted = shown(probability_views(probabilities@));
    let mut r: Vec<(usize, String)> = Vec::new();
    let mut i: usize = 0;
    assert(wanted.take(0) =~= seq![]);
    assert(entries_held(r@) =~= seq![]);
    while i < probabilities.len()
        invariant
            i <= probabilities@.len(),
            wanted == shown(probability_views(probabilities@)),
            entries_held(r@) == ordered(wanted.take(i as int)),
        decreases probabilities@.len() - i,
    {
        let index = probabilities[i].0;
        let mut at: usize = r.len();
        while at > 0 && r[at - 1].0 > index
            invariant
                at <= r@.len(),
                forall|j: int| at <= j < r@.len() ==> (#[trigger] r@[j]).0 > index,
            decreases at,
        {
            at -= 1;
        }
        let places = probabilities[i].1.places.clone();
        let ghost before = entries_held(r@);
        assert forall|j: int| at <= j < before.len() implies (#[trigger] before[j]).0 > index by {
            assert(r@[j].0 > index);
        }
        r.insert(at, (index, places));
        proof {
            lemma_placed(before, (index, places@), at as int);
            assert(entries_held(r@) =~= before.insert(at as int, (index, places@)));
            assert(wanted.take(i + 1).drop_last() =~= wanted.take(i as int));
            assert(wanted.take(i + 1).last() == (index, places@));
        }
        i += 1;
    }
    assert(wanted.take(i as int) =~= wanted);
    r
}

impl JevChoice {
    /// The choice in words.
    pub fn summary(&self) -> (r: String)
        ensures
            r@ == self@.summary(),
    {
        let mut summary = text::concat("JEV ", self.model.as_str());
        summary.append("｜");
        let ghost start = summary@;
        if let Some(confidence) = &self.confidence {
            let mut part = text::concat("置信度 ", confidence.places.as_str());
            part.append("｜");
            summary.append(part.as_str());
        } else {
            assert(start + Seq::<char>::empty() =~= start);
        }
        let ghost middle = summary@;
        if self.probabilities.len() > 0 {
            let list = order(&self.probabilities);
            let ghost wanted = entry_texts(entries_held(list@));
            let mut parts: Vec<String> = Vec::new();
            let mut i: usize = 0;
            while i < list.len()
                invariant
                    i <= list@.len(),
                    wanted == entry_texts(entries_held(list@)),
                    text::texts(parts@) == wanted.take(i as int),
                decreases list@.len() - i,
            {
                let ghost before = text::texts(parts@);
                let mut part = text::decimal_text(list[i].0 as u64);
                part.append(":");
                part.append(list[i].1.as_str());
                assert(entries_held(list@)[i as int] == (list@[i as int].0, list@[i as int].1@));
                assert(part@ == wanted[i as int]);
                parts.push(part);
                assert(text::texts(parts@) =~= before.push(part@));
                assert(wanted.take(i + 1) =~= before.push(part@));
                i += 1;
            }
            assert(wanted.take(i as int) =~= wanted);
            let part = text::concat("选项概率 ", text::joined(&parts, " ").as_str());
            summary.append(part.as_str());
        } else {
            assert(middle + Seq::<char>::empty() =~= middle);
        }
        summary
    }
}

/// The seconds to wait that a reply asks for. A date says nothing here.
pub open spec fn seconds_asked(retry_after: Option<Seq<char>>) -> Option<u64> {
    match retry_after {
        Some(text) => match text::parse_unsigned(text::trim(text), u64::MAX as nat) {
            Some(seconds) => Some(seconds as u64),
            None => None,
        },
        None => None,
    }
}

/// The seconds to wait that the header `Retry-After` of a reply asks for.
pub fn parse_retry_after(retry_after: Option<&str>) -> (r: Option<u64>)
    ensures
        r == seconds_asked(text::opt_str(retry_after)),
{
    match retry_after {
        Some(text) => text::parsed_unsigned(text::trimmed(text).as_str(), u64::MAX),
        None => None,
    }
}

/// The seconds to wait before the next attempt: those that the reply asks for, up to a
/// bound, or else twice as many as before the last one.
pub open spec fn delay_of(attempt: nat, retry_after: Option<u64>) -> nat {
    match retry_after {
        Some(seconds) => if seconds < MAX_RETRY_AFTER {
            seconds as nat
        } else {
            MAX_RETRY_AFTER as nat
        },
        None => RETRY_BASE_DELAY as nat * vstd::arithmetic::power2::pow2(attempt),
    }
}

/// The seconds to wait before the next attempt.
pub fn backoff_delay(attempt: usize, retry_after: Option<u64>) -> (r: u64)
    requires
        retry_after is None ==> attempt < 32,
    ensures
        r == delay_of(attempt as nat, retry_after),
{
    match retry_after {
        Some(seconds) => if seconds < MAX_RETRY_AFTER {
            seconds
        } else {
            MAX_RETRY_AFTER
        },
        None => {
            let mut delay: u64 = RETRY_BASE_DELAY;
            let mut i: usize = 0;
            proof {
                vstd::arithmetic::power2::lemma2_to64();
            }
            while i < attempt
                invariant
                    i <= attempt < 32,
                    delay == RETRY_BASE_DELAY * vstd::arithmetic::power2::pow2(i as nat),
                    vstd::arithmetic::power2::pow2(32) == 0x1_0000_0000,
                decreases attempt - i,
            {
                proof {
                    vstd::arithmetic::power2::lemma_pow2_unfold((i + 1) as nat);
                    vstd::arithmetic::power2::lemma_pow2_strictly_increases(i as nat, 32);
                }
                delay = delay * 2;
                i += 1;
            }
            delay
        },
    }
}

/// What a status code means to JEV.
pub open spec fn status_hint(code: u16) -> Seq<char> {
    if code == 401 {
        "API Key 无效或缺失"@
    } else if code == 422 {
        "请求体未通过校验"@
    } else if code == 429 {
        "超出速率限制"@
    } else if code == 529 {
        "服务端过载"@
    } else {
        "未知错误"@
    }
}

/// What a status code means to JEV.
pub fn describe_status(code: u16) -> (r: &'static str)
    ensures
        r@ == status_hint(code),
{
    match code {
        401 => "API Key 无效或缺失",
        422 => "请求体未通过校验",
        429 => "超出速率限制",
        529 => "服务端过载",
        _ => "未知错误",
    }
}

/// A client for JEV.
#[derive(Debug, PartialEq, Eq)]
pub struct JevClient {
    pub endpoint: String,
    pub model: String,
    pub api_key: String,
}

/// What comes of asking JEV.
#[derive(Debug)]
pub enum JevStart {
    /// There is nothing to choose from, and nothing is sent.
    Refused(Vec<LlmChunk>),
    /// The request that asks, and the exchange that follows it.
    Asked(HttpRequest, JevExchange),
}

impl JevClient {
    /// Whether this client is the one that a configuration calls for.
    pub open spec fn made_from(self, config: OpenAiConfig) -> bool {
        &&& self.endpoint@ == text::trim_end_of(config.base_url@, '/')
        &&& self.model@ == config.model@
        &&& self.api_key@ == config.api_key@
    }

    pub fn new(config: &OpenAiConfig) -> (r: Self)
        ensures
            r.made_from(*config),
            r.endpoint@ == text::trim_end_of(config.base_url@, '/'),
            r.model@ == config.model@,
            r.api_key@ == config.api_key@,
    {
        JevClient {
            endpoint: text::trimmed_end_of(config.base_url.as_str(), '/'),
            model: config.model.clone(),
            api_key: config.api_key.clone(),
        }
    }

    /// The request that this client sends.
    pub open spec fn request(
        self,
        question: Seq<char>,
        options: Seq<Seq<char>>,
        categories: Seq<Seq<char>>,
    ) -> HttpRequestView {
        crate::llm::request::posted(
            self.endpoint@,
            Protocol::Jev,
            self.api_key@,
            request_body(self.model@, question, options, categories),
        )
    }

    /// Asks for a choice among the options, where there are any.
    pub fn ask(&self, question: &str, options: &[String], categories: &[String]) -> (r: JevStart)
        ensures
            match r {
                JevStart::Refused(chunks) => options@.len() == 0 && crate::llm::chunk_views(chunks@)
                    == seq![
                    crate::llm::ChunkView::Error(
                        crate::llm::shared::http::redacted(
                            "JEV 无法作答：题目没有可选项"@,
                            self.api_key@,
                        ),
                    ),
                ],
                JevStart::Asked(request, exchange) => {
                    &&& options@.len() > 0
                    &&& request@ == self.request(
                        question@,
                        text::texts(options@),
                        text::texts(categories@),
                    )
                    &&& exchange@ == crate::llm::jev_exchange::opened(
                        self.api_key@,
                        options@.len() as usize,
                    )
                },
            },
    {
        if options.len() == 0 {
            let mut chunks: Vec<LlmChunk> = Vec::new();
            send_error(&mut chunks, self.api_key.as_str(), "JEV 无法作答：题目没有可选项");
            assert(crate::llm::chunk_views(chunks@).len() == 1);
            return JevStart::Refused(chunks);
        }
        let body = build_request_body(self.model.as_str(), question, options, categories);
        JevStart::Asked(
            post(self.endpoint.as_str(), Protocol::Jev, self.api_key.as_str(), body),
            JevExchange::open(self.api_key.as_str(), options.len()),
        )
    }
}

proof fn lemma_lookup_skip(entries: Seq<(Seq<char>, JsonView)>, key: Seq<char>, i: int)
    requires
        0 <= i < entries.len(),
        entries[i].0 == key,
        forall|j: int| 0 <= j < i ==> (#[trigger] entries[j]).0 != key,
    ensures
        crate::json::lookup(entries, key) == Some(entries[i].1),
    decreases i,
{
    if i > 0 {
        assert(entries[0].0 != key);
        let rest = entries.skip(1);
        assert forall|j: int| 0 <= j < i - 1 implies (#[trigger] rest[j]).0 != key by {
            assert(rest[j] == entries[j + 1]);
        }
        lemma_lookup_skip(rest, key, i - 1);
    }
}

/// Under the number of an option the request holds that option, and the same number in a
/// reply chooses it.
pub proof fn law_numbers_stand_for_options(options: Seq<Seq<char>>, i: int)
    requires
        0 <= i < options.len() <= usize::MAX,
    ensures
        crate::json::lookup(criteria(options), text::decimal((i + 1) as nat)) == Some(
            JsonView::Text(options[i]),
        ),
        option_number(text::decimal((i + 1) as nat), options.len() as usize) == Some(
            (i + 1) as usize,
        ),
{
    let entries = criteria(options);
    let key = text::decimal((i + 1) as nat);
    text::lemma_decimal((i + 1) as nat);
    assert forall|j: int| 0 <= j < i implies (#[trigger] entries[j]).0 != key by {
        text::lemma_decimal((j + 1) as nat);
    }
    lemma_lookup_skip(entries, key, i);
    text::law_decimal_is_read_back((i + 1) as nat, usize::MAX as nat);
}

/// Whether the numbers of a list do not fall.
pub open spec fn is_ordered(list: Seq<(usize, Seq<char>)>) -> bool {
    forall|i: int, j: int| 0 <= i <= j < list.len() ==> (#[trigger] list[i]).0 <= (#[trigger] list[j]).0
}

proof fn lemma_placed_is_ordered(list: Seq<(usize, Seq<char>)>, entry: (usize, Seq<char>))
    requires
        is_ordered(list),
    ensures
        is_ordered(placed(list, entry)),
        placed(list, entry).to_multiset() == list.to_multiset().insert(entry),
        placed(list, entry).len() == list.len() + 1,
        placed(list, entry).last().0 == if list.len() > 0 && list.last().0 > entry.0 {
            list.last().0
        } else {
            entry.0
        },
    decreases list.len(),
{
    broadcast use vstd::seq_lib::group_to_multiset_ensures;

    if list.len() == 0 || list.last().0 <= entry.0 {
        let all = list.push(entry);
        assert forall|i: int, j: int| 0 <= i <= j < all.len() implies (#[trigger] all[i]).0 <= (
        #[trigger] all[j]).0 by {
            if j == list.len() && i < list.len() {
                assert(list[i].0 <= list[list.len() - 1].0);
            }
        }
    } else {
        let rest = list.drop_last();
        lemma_placed_is_ordered(rest, entry);
        let head = placed(rest, entry);
        let all = head.push(list.last());
        assert(head.last().0 <= list.last().0) by {
            if rest.len() > 0 {
                assert(rest.last() == list[rest.len() - 1]);
                assert(list[rest.len() - 1].0 <= list[list.len() - 1].0);
            }
        }
        assert forall|i: int, j: int| 0 <= i <= j < all.len() implies (#[trigger] all[i]).0 <= (
        #[trigger] all[j]).0 by {
            if j == head.len() && i < head.len() {
                assert(head[i].0 <= head[head.len() - 1].0);
            }
        }
        assert(rest.push(list.last()) =~= list);
        assert(list.to_multiset() == rest.to_multiset().insert(list.last()));
        assert(all.to_multiset() =~= list.to_multiset().insert(entry));
    }
}

/// Putting a list in order neither loses nor adds anything, and its numbers do not fall.
pub proof fn law_ordered(list: Seq<(usize, Seq<char>)>)
    ensures
        is_ordered(ordered(list)),
        ordered(list).to_multiset() == list.to_multiset(),
    decreases list.len(),
{
    broadcast use vstd::seq_lib::group_to_multiset_ensures;

    if list.len() > 0 {
        let rest = list.drop_last();
        law_ordered(rest);
        lemma_placed_is_ordered(ordered(rest), list.last());
        assert(rest.push(list.last()) =~= list);
        assert(list.to_multiset() == rest.to_multiset().insert(list.last()));
    } else {
        assert(ordered(list) =~= list);
    }
}

} // verus!
