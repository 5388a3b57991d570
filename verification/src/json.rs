//! JSON values as the adapters read and build them, and the way from JSON text to
//! such a value.
use crate::text;
use vstd::prelude::*;

verus! {

broadcast use {vstd::seq_lib::group_seq_properties, vstd::string::group_string_axioms};

/// A JSON number.
#[derive(Debug, PartialEq, Eq)]
pub struct JsonNumber {
    /// Its value, where it was written as an unsigned integer of at most 64 bits.
    pub unsigned: Option<u64>,
    /// The number as text.
    pub decimal: String,
    /// The number as text with two decimal places.
    pub places: String,
}

/// A JSON value. An object keeps its entries in the order of the list, and a key
/// stands for its first entry.
#[derive(Debug, PartialEq, Eq)]
pub enum Json {
    Null,
    Bool(bool),
    Number(JsonNumber),
    Text(String),
    Array(Vec<Json>),
    Object(Vec<(String, Json)>),
}

/// What a JSON number holds.
pub struct NumberView {
    pub unsigned: Option<u64>,
    pub decimal: Seq<char>,
    pub places: Seq<char>,
}

/// What a JSON value holds.
pub enum JsonView {
    Null,
    Bool(bool),
    Number(NumberView),
    Text(Seq<char>),
    Array(Seq<JsonView>),
    Object(Seq<(Seq<char>, JsonView)>),
}

impl View for JsonNumber {
    type V = NumberView;

    open spec fn view(&self) -> NumberView {
        NumberView { unsigned: self.unsigned, decimal: self.decimal@, places: self.places@ }
    }
}

/// What a JSON value holds, level by level.
pub open spec fn json_view(json: Json) -> JsonView
    decreases json,
{
    match json {
        Json::Null => JsonView::Null,
        Json::Bool(flag) => JsonView::Bool(flag),
        Json::Number(number) => JsonView::Number(number@),
        Json::Text(text) => JsonView::Text(text@),
        Json::Array(items) => JsonView::Array(
            Seq::new(
                items@.len(),
                |i: int|
                    if 0 <= i < items@.len() {
                        json_view(items@[i])
                    } else {
                        JsonView::Null
                    },
            ),
        ),
        Json::Object(entries) => JsonView::Object(
            Seq::new(
                entries@.len(),
                |i: int|
                    if 0 <= i < entries@.len() {
                        (entries@[i].0@, json_view(entries@[i].1))
                    } else {
                        (Seq::empty(), JsonView::Null)
                    },
            ),
        ),
    }
}

impl View for Json {
    type V = JsonView;

    open spec fn view(&self) -> JsonView {
        json_view(*self)
    }
}

/// What the values of a list hold.
pub open spec fn json_views(items: Seq<Json>) -> Seq<JsonView> {
    items.map_values(|item: Json| item@)
}

/// What the entries of an object hold.
pub open spec fn entry_views(entries: Seq<(String, Json)>) -> Seq<(Seq<char>, JsonView)> {
    entries.map_values(|entry: (String, Json)| (entry.0@, entry.1@))
}

/// What an optional value holds.
pub open spec fn opt_json(json: Option<&Json>) -> Option<JsonView> {
    match json {
        Some(json) => Some(json@),
        None => None,
    }
}

/// The value of the first entry with the given key.
pub open spec fn lookup(entries: Seq<(Seq<char>, JsonView)>, key: Seq<char>) -> Option<JsonView>
    decreases entries.len(),
{
    if entries.len() == 0 {
        None
    } else if entries[0].0 == key {
        Some(entries[0].1)
    } else {
        lookup(entries.skip(1), key)
    }
}

impl JsonView {
    /// The value under a key of an object.
    pub open spec fn get(self, key: Seq<char>) -> Option<JsonView> {
        match self {
            JsonView::Object(entries) => lookup(entries, key),
            _ => None,
        }
    }

    pub open spec fn text(self) -> Option<Seq<char>> {
        match self {
            JsonView::Text(text) => Some(text),
            _ => None,
        }
    }

    pub open spec fn flag(self) -> Option<bool> {
        match self {
            JsonView::Bool(flag) => Some(flag),
            _ => None,
        }
    }

    pub open spec fn unsigned(self) -> Option<u64> {
        match self {
            JsonView::Number(number) => number.unsigned,
            _ => None,
        }
    }

    pub open spec fn items(self) -> Option<Seq<JsonView>> {
        match self {
            JsonView::Array(items) => Some(items),
            _ => None,
        }
    }

    pub open spec fn entries(self) -> Option<Seq<(Seq<char>, JsonView)>> {
        match self {
            JsonView::Object(entries) => Some(entries),
            _ => None,
        }
    }

    /// The text under a key of an object.
    pub open spec fn text_at(self, key: Seq<char>) -> Option<Seq<char>> {
        match self.get(key) {
            Some(value) => value.text(),
            None => None,
        }
    }

    /// The array under a key of an object.
    pub open spec fn items_at(self, key: Seq<char>) -> Option<Seq<JsonView>> {
        match self.get(key) {
            Some(value) => value.items(),
            None => None,
        }
    }

    /// The value under a key of the object under a key.
    pub open spec fn get2(self, outer: Seq<char>, inner: Seq<char>) -> Option<JsonView> {
        match self.get(outer) {
            Some(value) => value.get(inner),
            None => None,
        }
    }

    /// The text under a key of the object under a key.
    pub open spec fn text_at2(self, outer: Seq<char>, inner: Seq<char>) -> Option<Seq<char>> {
        match self.get2(outer, inner) {
            Some(value) => value.text(),
            None => None,
        }
    }
}

/// `serde_json::Value`, carried from the parser to [`from_value`].
#[verifier::external_type_specification]
#[verifier::external_body]
pub struct ExValue(serde_json::Value);

/// The tree that a `serde_json::Value` holds: its kind and scalars at each level, its
/// arrays in order and its objects as the list of their entries. Of a number it holds
/// what `Number::as_u64`, its text, and its value as a double with two decimal places
/// show.
pub uninterp spec fn value_tree(value: serde_json::Value) -> JsonView;

/// Opens a `serde_json::Value` one variant after the other: the result holds the tree
/// that the value holds.
#[verifier::external_body]
fn from_value(value: serde_json::Value) -> (json: Json)
    ensures
        json@ == value_tree(value),
{
    match value {
        serde_json::Value::Null => Json::Null,
        serde_json::Value::Bool(flag) => Json::Bool(flag),
        serde_json::Value::Number(number) => Json::Number(JsonNumber {
            unsigned: number.as_u64(),
            decimal: number.to_string(),
            places: format!("{:.2}", number.as_f64().unwrap_or_default()),
        }),
        serde_json::Value::String(text) => Json::Text(text),
        serde_json::Value::Array(items) => Json::Array(items.into_iter().map(from_value).collect()),
        serde_json::Value::Object(entries) => Json::Object(
            entries.into_iter().map(|entry| (entry.0, from_value(entry.1))).collect()),
    }
}

/// What `serde_json::from_str` makes of a text: the value, or the text of its error.
pub uninterp spec fn value_of_text(text: Seq<char>) -> Result<serde_json::Value, Seq<char>>;

/// What `serde_json::from_slice` makes of bytes: the value, or the text of its error.
pub uninterp spec fn value_of_bytes(bytes: Seq<u8>) -> Result<serde_json::Value, Seq<char>>;

/// Calls `serde_json::from_str`, whose outcome depends on the text alone.
#[verifier::external_body]
fn read_text(text: &str) -> (read: Result<serde_json::Value, String>)
    ensures
        match read {
            Ok(value) => value_of_text(text@) == Ok::<serde_json::Value, Seq<char>>(value),
            Err(error) => value_of_text(text@) == Err::<serde_json::Value, Seq<char>>(error@),
        },
{
    serde_json::from_str(text).map_err(|error| error.to_string())
}

/// Calls `serde_json::from_slice`, whose outcome depends on the bytes alone.
#[verifier::external_body]
fn read_bytes(bytes: &[u8]) -> (read: Result<serde_json::Value, String>)
    ensures
        match read {
            Ok(value) => value_of_bytes(bytes@) == Ok::<serde_json::Value, Seq<char>>(value),
            Err(error) => value_of_bytes(bytes@) == Err::<serde_json::Value, Seq<char>>(error@),
        },
{
    serde_json::from_slice(bytes).map_err(|error| error.to_string())
}

/// The JSON value that a text denotes, or the parser's complaint.
pub open spec fn json_of_text(text: Seq<char>) -> Result<JsonView, Seq<char>> {
    match value_of_text(text) {
        Ok(value) => Ok(value_tree(value)),
        Err(error) => Err(error),
    }
}

/// The JSON value that bytes denote, or the parser's complaint.
pub open spec fn json_of_bytes(bytes: Seq<u8>) -> Result<JsonView, Seq<char>> {
    match value_of_bytes(bytes) {
        Ok(value) => Ok(value_tree(value)),
        Err(error) => Err(error),
    }
}

/// What the outcome of a parse holds.
pub open spec fn parsed_view(parsed: Result<Json, String>) -> Result<JsonView, Seq<char>> {
    match parsed {
        Ok(json) => Ok(json@),
        Err(error) => Err(error@),
    }
}

proof fn lemma_array_view(items: Vec<Json>)
    ensures
        Json::Array(items)@ == JsonView::Array(json_views(items@)),
{
    assert(json_view(Json::Array(items))->Array_0 =~= json_views(items@));
}

proof fn lemma_object_view(entries: Vec<(String, Json)>)
    ensures
        Json::Object(entries)@ == JsonView::Object(entry_views(entries@)),
{
    assert(json_view(Json::Object(entries))->Object_0 =~= entry_views(entries@));
}

impl Json {
    /// Parses JSON text.
    pub fn parse(text: &str) -> (parsed: Result<Json, String>)
        ensures
            parsed_view(parsed) == json_of_text(text@),
    {
        match read_text(text) {
            Ok(value) => Ok(from_value(value)),
            Err(error) => Err(error),
        }
    }

    /// Parses the bytes of a JSON text.
    pub fn parse_bytes(bytes: &[u8]) -> (parsed: Result<Json, String>)
        ensures
            parsed_view(parsed) == json_of_bytes(bytes@),
    {
        match read_bytes(bytes) {
            Ok(value) => Ok(from_value(value)),
            Err(error) => Err(error),
        }
    }

    /// The value under a key of an object.
    pub fn get(&self, key: &str) -> (value: Option<&Json>)
        ensures
            opt_json(value) == self@.get(key@),
    {
        match self {
            Json::Object(entries) => {
                let mut i: usize = 0;
                proof {
                    lemma_object_view(*entries);
                    assert(entry_views(entries@).skip(0) =~= entry_views(entries@));
                }
                while i < entries.len()
                    invariant
                        i <= entries@.len(),
                        self@ == JsonView::Object(entry_views(entries@)),
                        lookup(entry_views(entries@), key@) == lookup(
                            entry_views(entries@).skip(i as int),
                            key@,
                        ),
                    decreases entries@.len() - i,
                {
                    if text::same(entries[i].0.as_str(), key) {
                        return Some(&entries[i].1);
                    }
                    proof {
                        assert(entry_views(entries@).skip(i as int).skip(1) =~= entry_views(
                            entries@,
                        ).skip(i + 1));
                    }
                    i += 1;
                }
                None
            },
            _ => None,
        }
    }

    pub fn as_str(&self) -> (text: Option<&str>)
        ensures
            text::opt_str(text) == self@.text(),
    {
        match self {
            Json::Text(text) => Some(text.as_str()),
            _ => None,
        }
    }

    pub fn as_bool(&self) -> (flag: Option<bool>)
        ensures
            flag == self@.flag(),
    {
        match self {
            Json::Bool(flag) => Some(*flag),
            _ => None,
        }
    }

    pub fn as_u64(&self) -> (number: Option<u64>)
        ensures
            number == self@.unsigned(),
    {
        match self {
            Json::Number(number) => number.unsigned,
            _ => None,
        }
    }

    pub fn as_array(&self) -> (items: Option<&Vec<Json>>)
        ensures
            match items {
                Some(items) => self@ == JsonView::Array(json_views(items@)),
                None => self@.items() is None,
            },
    {
        match self {
            Json::Array(items) => {
                proof {
                    lemma_array_view(*items);
                }
                Some(items)
            },
            _ => None,
        }
    }

    pub fn as_object(&self) -> (entries: Option<&Vec<(String, Json)>>)
        ensures
            match entries {
                Some(entries) => self@ == JsonView::Object(entry_views(entries@)),
                None => self@.entries() is None,
            },
    {
        match self {
            Json::Object(entries) => {
                proof {
                    lemma_object_view(*entries);
                }
                Some(entries)
            },
            _ => None,
        }
    }

    /// The text under a key of an object.
    pub fn str_at(&self, key: &str) -> (text: Option<&str>)
        ensures
            text::opt_str(text) == self@.text_at(key@),
    {
        match self.get(key) {
            Some(value) => value.as_str(),
            None => None,
        }
    }

    /// Whether the value under a key of an object is the given text.
    pub fn str_is(&self, key: &str, wanted: &str) -> (r: bool)
        ensures
            r == (self@.text_at(key@) == Some(wanted@)),
    {
        match self.str_at(key) {
            Some(text) => text::same(text, wanted),
            None => false,
        }
    }

    /// The array under a key of an object.
    pub fn array_at(&self, key: &str) -> (items: Option<&Vec<Json>>)
        ensures
            match items {
                Some(items) => self@.items_at(key@) == Some(json_views(items@)),
                None => self@.items_at(key@) is None,
            },
    {
        match self.get(key) {
            Some(value) => value.as_array(),
            None => None,
        }
    }

    /// The text under a key of the object under a key.
    pub fn str_at2(&self, outer: &str, inner: &str) -> (text: Option<&str>)
        ensures
            text::opt_str(text) == self@.text_at2(outer@, inner@),
    {
        match self.get(outer) {
            Some(value) => value.str_at(inner),
            None => None,
        }
    }

    /// A text.
    pub fn text(text: &str) -> (json: Json)
        ensures
            json@ == JsonView::Text(text@),
    {
        Json::Text(text.to_owned())
    }

    /// A number that a double holds exactly.
    pub fn number(n: u64) -> (json: Json)
        requires
            n <= 9_007_199_254_740_992,
        ensures
            json@ == number_view(n),
    {
        let decimal = text::decimal_text(n);
        let places = text::concat(decimal.as_str(), ".00");
        Json::Number(JsonNumber { unsigned: Some(n), decimal, places })
    }

    /// A list.
    pub fn array(items: Vec<Json>) -> (json: Json)
        ensures
            json@ == JsonView::Array(json_views(items@)),
    {
        proof {
            lemma_array_view(items);
        }
        Json::Array(items)
    }

    /// An object.
    pub fn object(entries: Vec<(String, Json)>) -> (json: Json)
        ensures
            json@ == JsonView::Object(entry_views(entries@)),
    {
        proof {
            lemma_object_view(entries);
        }
        Json::Object(entries)
    }

    /// The list of one value.
    pub fn list_of(item: Json) -> (json: Json)
        ensures
            json@ == JsonView::Array(seq![item@]),
    {
        let mut items: Vec<Json> = Vec::new();
        items.push(item);
        assert(json_views(items@) =~= seq![item@]);
        Json::array(items)
    }

    /// The object of one entry.
    pub fn object_of(key: &str, value: Json) -> (json: Json)
        ensures
            json@ == JsonView::Object(seq![(key@, value@)]),
    {
        let mut entries: Vec<(String, Json)> = Vec::new();
        put(&mut entries, key, value);
        assert(entry_views(entries@) =~= seq![(key@, value@)]);
        Json::object(entries)
    }
}

/// What the JSON number of an integer holds.
pub open spec fn number_view(n: u64) -> JsonView {
    JsonView::Number(
        NumberView {
            unsigned: Some(n),
            decimal: text::decimal(n as nat),
            places: text::decimal(n as nat) + ".00"@,
        },
    )
}

/// Appends an entry to the entries of an object.
pub fn put(entries: &mut Vec<(String, Json)>, key: &str, value: Json)
    ensures
        entry_views(final(entries)@) == entry_views(old(entries)@).push((key@, value@)),
{
    let key = key.to_owned();
    entries.push((key, value));
    assert(entry_views(entries@) =~= entry_views(old(entries)@).push((key@, value@)));
}

/// What stands under a key is the value of its first entry.
pub proof fn law_lookup_finds_the_first(
    entries: Seq<(Seq<char>, JsonView)>,
    key: Seq<char>,
    i: int,
)
    requires
        0 <= i < entries.len(),
        entries[i].0 == key,
        forall|j: int| 0 <= j < i ==> entries[j].0 != key,
    ensures
        JsonView::Object(entries).get(key) == Some(entries[i].1),
    decreases entries.len(),
{
    if i > 0 {
        law_lookup_finds_the_first(entries.skip(1), key, i - 1);
    }
}

/// Nothing stands under a key that no entry has.
pub proof fn law_lookup_misses(entries: Seq<(Seq<char>, JsonView)>, key: Seq<char>)
    requires
        forall|j: int| 0 <= j < entries.len() ==> entries[j].0 != key,
    ensures
        JsonView::Object(entries).get(key) is None,
    decreases entries.len(),
{
    if entries.len() > 0 {
        law_lookup_misses(entries.skip(1), key);
    }
}

} // verus!
