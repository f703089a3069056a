use vstd::prelude::*;

use crate::text::same_text;

verus! {

/// A JSON value as the site's logic reads it. A number is kept as the text
/// that writes it; an object keeps its entries in order, and a lookup finds
/// the first entry with the key.
#[derive(Debug)]
pub enum JsonValue {
    Null,
    Bool(bool),
    Number(String),
    String(String),
    Array(Vec<JsonValue>),
    Object(Vec<(String, JsonValue)>),
}

/// The mathematical content of a JSON value: texts, sequences and entries.
pub enum JsonData {
    Null,
    Bool(bool),
    Number(Seq<char>),
    String(Seq<char>),
    Array(Seq<JsonData>),
    Object(Seq<(Seq<char>, JsonData)>),
}

/// The content of a value.
pub open spec fn data_of(v: JsonValue) -> JsonData
    decreases v,
{
    match v {
        JsonValue::Null => JsonData::Null,
        JsonValue::Bool(b) => JsonData::Bool(b),
        JsonValue::Number(n) => JsonData::Number(n@),
        JsonValue::String(s) => JsonData::String(s@),
        JsonValue::Array(items) => JsonData::Array(data_of_items(items@)),
        JsonValue::Object(entries) => JsonData::Object(data_of_entries(entries@)),
    }
}

/// The content of each item.
pub open spec fn data_of_items(items: Seq<JsonValue>) -> Seq<JsonData>
    decreases items,
{
    if items.len() == 0 {
        Seq::empty()
    } else {
        data_of_items(items.subrange(0, items.len() - 1)).push(data_of(items[items.len() - 1]))
    }
}

/// The content of each entry: its key's text and its value's content.
pub open spec fn data_of_entries(entries: Seq<(String, JsonValue)>) -> Seq<(Seq<char>, JsonData)>
    decreases entries,
{
    if entries.len() == 0 {
        Seq::empty()
    } else {
        data_of_entries(entries.subrange(0, entries.len() - 1)).push(
            (entries[entries.len() - 1].0@, data_of(entries[entries.len() - 1].1)),
        )
    }
}

impl View for JsonValue {
    type V = JsonData;

    open spec fn view(&self) -> JsonData {
        data_of(*self)
    }
}

/// The content of the items, item by item.
pub proof fn lemma_data_of_items(items: Seq<JsonValue>)
    ensures
        data_of_items(items).len() == items.len(),
        forall|i: int|
            0 <= i < items.len() ==> #[trigger] data_of_items(items)[i] == data_of(items[i]),
    decreases items.len(),
{
    if items.len() > 0 {
        let front = items.subrange(0, items.len() - 1);
        lemma_data_of_items(front);
        assert forall|i: int| 0 <= i < items.len() implies #[trigger] data_of_items(items)[i]
            == data_of(items[i]) by {
            if i < items.len() - 1 {
                assert(front[i] == items[i]);
            }
        }
    }
}

/// The content of the entries, entry by entry.
pub proof fn lemma_data_of_entries(entries: Seq<(String, JsonValue)>)
    ensures
        data_of_entries(entries).len() == entries.len(),
        forall|i: int|
            0 <= i < entries.len() ==> #[trigger] data_of_entries(entries)[i] == (
                entries[i].0@,
                data_of(entries[i].1),
            ),
    decreases entries.len(),
{
    if entries.len() > 0 {
        let front = entries.subrange(0, entries.len() - 1);
        lemma_data_of_entries(front);
        assert forall|i: int| 0 <= i < entries.len() implies #[trigger] data_of_entries(
            entries,
        )[i] == (entries[i].0@, data_of(entries[i].1)) by {
            if i < entries.len() - 1 {
                assert(front[i] == entries[i]);
            }
        }
    }
}

/// The value of the first entry with `key`.
pub open spec fn entry_value(entries: Seq<(Seq<char>, JsonData)>, key: Seq<char>) -> Option<
    JsonData,
>
    decreases entries.len(),
{
    if entries.len() == 0 {
        None
    } else if entries[0].0 == key {
        Some(entries[0].1)
    } else {
        entry_value(entries.drop_first(), key)
    }
}

/// The member `key` of an object; nothing for any other value.
pub open spec fn json_get(v: JsonData, key: Seq<char>) -> Option<JsonData> {
    match v {
        JsonData::Object(entries) => entry_value(entries, key),
        _ => None,
    }
}

/// The text of a string value.
pub open spec fn json_text(v: Option<JsonData>) -> Option<Seq<char>> {
    match v {
        Some(JsonData::String(s)) => Some(s),
        _ => None,
    }
}

/// The items of an array value.
pub open spec fn json_items(v: Option<JsonData>) -> Option<Seq<JsonData>> {
    match v {
        Some(JsonData::Array(items)) => Some(items),
        _ => None,
    }
}

/// The content behind an optional reference.
pub open spec fn opt_data(r: Option<&JsonValue>) -> Option<JsonData> {
    match r {
        Some(v) => Some(v@),
        None => None,
    }
}

/// The text behind an optional reference.
pub open spec fn deref_text(r: Option<&str>) -> Option<Seq<char>> {
    match r {
        Some(s) => Some(s@),
        None => None,
    }
}

/// Looks up the member `key` of an object.
pub fn get<'a>(v: &'a JsonValue, key: &str) -> (r: Option<&'a JsonValue>)
    ensures
        opt_data(r) == json_get(v@, key@),
{
    match v {
        JsonValue::Object(entries) => {
            let ghost data = data_of_entries(entries@);
            proof {
                lemma_data_of_entries(entries@);
            }
            let mut i: usize = 0;
            assert(data.skip(0) =~= data);
            while i < entries.len()
                invariant
                    i <= entries@.len(),
                    data == data_of_entries(entries@),
                    data.len() == entries@.len(),
                    forall|j: int|
                        0 <= j < entries@.len() ==> #[trigger] data[j] == (
                            entries@[j].0@,
                            data_of(entries@[j].1),
                        ),
                    json_get(v@, key@) == entry_value(data, key@),
                    entry_value(data, key@) == entry_value(data.skip(i as int), key@),
                decreases entries@.len() - i,
            {
                let entry = &entries[i];
                assert(data.skip(i as int)[0] == data[i as int]);
                if same_text(entry.0.as_str(), key) {
                    return Some(&entry.1);
                }
                assert(data.skip(i as int).drop_first() =~= data.skip(i + 1));
                i = i + 1;
            }
            assert(data.skip(i as int).len() == 0);
            None
        },
        _ => None,
    }
}

/// The text of a string value.
pub fn as_text<'a>(v: Option<&'a JsonValue>) -> (r: Option<&'a str>)
    ensures
        deref_text(r) == json_text(opt_data(v)),
{
    match v {
        Some(JsonValue::String(s)) => Some(s.as_str()),
        _ => None,
    }
}

/// The items of an array value.
pub fn as_items<'a>(v: Option<&'a JsonValue>) -> (r: Option<&'a Vec<JsonValue>>)
    ensures
        r is Some <==> json_items(opt_data(v)) is Some,
        r matches Some(items) ==> json_items(opt_data(v)) == Some(data_of_items(items@)),
{
    match v {
        Some(JsonValue::Array(items)) => Some(items),
        _ => None,
    }
}

/// The text of a digit.
pub open spec fn digit_text(d: nat) -> Seq<char> {
    if d == 0 {
        "0"@
    } else if d == 1 {
        "1"@
    } else if d == 2 {
        "2"@
    } else if d == 3 {
        "3"@
    } else if d == 4 {
        "4"@
    } else if d == 5 {
        "5"@
    } else if d == 6 {
        "6"@
    } else if d == 7 {
        "7"@
    } else if d == 8 {
        "8"@
    } else {
        "9"@
    }
}

/// A natural number written in decimal, without leading zeros.
pub open spec fn decimal_text(n: nat) -> Seq<char>
    decreases n,
{
    if n < 10 {
        digit_text(n)
    } else {
        decimal_text(n / 10) + digit_text(n % 10)
    }
}

fn digit_str(d: usize) -> (r: &'static str)
    requires
        d < 10,
    ensures
        r@ == digit_text(d as nat),
{
    if d == 0 {
        "0"
    } else if d == 1 {
        "1"
    } else if d == 2 {
        "2"
    } else if d == 3 {
        "3"
    } else if d == 4 {
        "4"
    } else if d == 5 {
        "5"
    } else if d == 6 {
        "6"
    } else if d == 7 {
        "7"
    } else if d == 8 {
        "8"
    } else {
        "9"
    }
}

/// Writes a number in decimal.
pub fn decimal(n: usize) -> (r: String)
    ensures
        r@ == decimal_text(n as nat),
    decreases n,
{
    if n < 10 {
        String::from_str(digit_str(n))
    } else {
        let mut s = decimal(n / 10);
        s.append(digit_str(n % 10));
        s
    }
}

/// What serde_json makes of a JSON text: the content of the value it parses,
/// or the message of its error.
pub uninterp spec fn parsed_json(raw: Seq<char>) -> Result<JsonData, Seq<char>>;

/// The text that serde_json pretty-prints for a value's content, if it prints one.
pub uninterp spec fn pretty_json(v: JsonData) -> Option<Seq<char>>;

#[verifier::external_type_specification]
#[verifier::external_body]
pub struct ExSerdeJsonValue(serde_json::Value);

/// Moves a parsed `serde_json::Value` into the library's value, variant for
/// variant, writing each number with `Number`'s `to_string`.
#[verifier::external_body]
fn json_from_serde(value: serde_json::Value) -> JsonValue {
    match value {
        serde_json::Value::Null => JsonValue::Null,
        serde_json::Value::Bool(b) => JsonValue::Bool(b),
        serde_json::Value::Number(n) => JsonValue::Number(n.to_string()),
        serde_json::Value::String(s) => JsonValue::String(s),
        serde_json::Value::Array(items) => JsonValue::Array(
            items.into_iter().map(json_from_serde).collect(),
        ),
        serde_json::Value::Object(map) => JsonValue::Object(
            map.into_iter().map(|(k, v)| (k, json_from_serde(v))).collect(),
        ),
    }
}

/// Turns the library's value into a `serde_json::Value`, variant for variant,
/// reading each number's text with `serde_json::Number`'s `from_str`; nothing
/// when a number's text does not parse.
#[verifier::external_body]
fn json_to_serde(v: &JsonValue) -> Option<serde_json::Value> {
    Some(
        match v {
            JsonValue::Null => serde_json::Value::Null,
            JsonValue::Bool(b) => serde_json::Value::Bool(*b),
            JsonValue::Number(n) => serde_json::Value::Number(n.parse().ok()?),
            JsonValue::String(s) => serde_json::Value::String(s.clone()),
            JsonValue::Array(items) => serde_json::Value::Array(
                items.iter().map(json_to_serde).collect::<Option<_>>()?,
            ),
            JsonValue::Object(es) => serde_json::Value::Object(
                es.iter().map(|(k, x)| Some((k.clone(), json_to_serde(x)?))).collect::<Option<_>>()?,
            ),
        },
    )
}

/// Parses a JSON text with `serde_json::from_str` into a `serde_json::Value`
/// and moves it into the library's value; on failure, gives the error's
/// message. The contract claims that the outcome is a function of the text
/// alone (serde_json's maps keep their keys sorted); which value or message
/// that is, is serde_json's to say.
#[verifier::external_body]
pub(crate) fn parse_json(raw: &str) -> (r: Result<JsonValue, String>)
    ensures
        match parsed_json(raw@) {
            Ok(d) => r matches Ok(v) && v@ == d,
            Err(m) => r matches Err(t) && t@ == m,
        },
{
    match serde_json::from_str::<serde_json::Value>(raw) {
        Ok(value) => Ok(json_from_serde(value)),
        Err(e) => Err(e.to_string()),
    }
}

/// Pretty-prints a value with `serde_json::to_string_pretty`, after turning it
/// into a `serde_json::Value`; nothing when a number's text does not parse or
/// printing fails. The contract claims that the outcome is a function of the
/// value's content alone; which text that is, is serde_json's to say.
#[verifier::external_body]
pub(crate) fn print_pretty_json(v: &JsonValue) -> (r: Option<String>)
    ensures
        match pretty_json(v@) {
            Some(t) => r matches Some(s) && s@ == t,
            None => r is None,
        },
{
    match json_to_serde(v) {
        Some(value) => serde_json::to_string_pretty(&value).ok(),
        None => None,
    }
}

} // verus!
