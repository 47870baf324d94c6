//! JSON values as the launcher libraries' files hold them, and the reads
//! the library makes of them: a key of an object, a string, a flag, an
//! unsigned number, a list.
use crate::discovery::str_opt;
use crate::text::{str_concat, str_equal, to_owned_string};
use vstd::prelude::*;

verus! {

/// A JSON value. Numbers are told apart only as far as the library reads
/// them: an unsigned integer, or some other number.
#[derive(Debug)]
pub enum Json {
    Null,
    Bool(bool),
    Unsigned(u64),
    OtherNumber,
    Text(String),
    Array(Vec<Json>),
    /// The keys and values of an object, in the parser's order.
    Object(Vec<(String, Json)>),
}

/// A JSON value as mathematics sees it.
pub enum JsonView {
    Null,
    Bool(bool),
    Unsigned(u64),
    OtherNumber,
    Text(Seq<char>),
    Array(Seq<JsonView>),
    Object(Seq<(Seq<char>, JsonView)>),
}

/// The view of a JSON value.
pub open spec fn json_view(j: Json) -> JsonView
    decreases j,
{
    match j {
        Json::Null => JsonView::Null,
        Json::Bool(b) => JsonView::Bool(b),
        Json::Unsigned(n) => JsonView::Unsigned(n),
        Json::OtherNumber => JsonView::OtherNumber,
        Json::Text(s) => JsonView::Text(s@),
        Json::Array(items) => JsonView::Array(
            Seq::new(
                items@.len(),
                |i: int|
                    if 0 <= i < items@.len() {
                        json_view(items@[i])
                    } else {
                        JsonView::Null
                    },
            ),
        ),
        Json::Object(fields) => JsonView::Object(
            Seq::new(
                fields@.len(),
                |i: int|
                    if 0 <= i < fields@.len() {
                        (fields@[i].0@, json_view(fields@[i].1))
                    } else {
                        (Seq::empty(), JsonView::Null)
                    },
            ),
        ),
    }
}

/// What `serde_json` makes of `text`: the value, or its error message when
/// the text is no JSON.
pub uninterp spec fn parsed_json(text: Seq<char>) -> Result<JsonView, Seq<char>>;

/// Calls `serde_json::from_str` into a `serde_json::Value` and converts the
/// value one for one (an object's entries in the map's order); an error is
/// rendered. The result is named [`parsed_json`]; the JSON grammar is not
/// spelled out here.
#[verifier::external_body]
pub(crate) fn parse_json(text: &str) -> (r: Result<Json, String>)
    ensures
        match r {
            Ok(v) => parsed_json(text@) == Ok::<JsonView, Seq<char>>(json_view(v)),
            Err(e) => parsed_json(text@) == Err::<JsonView, Seq<char>>(e@),
        },
{
    match serde_json::from_str::<serde_json::Value>(text) {
        Ok(value) => Ok(from_value(value)),
        Err(error) => Err(error.to_string()),
    }
}

/// The parsed value of `serde_json`, carried only into [`parse_json`]'s
/// conversion.
#[verifier::external_type_specification]
#[verifier::external_body]
pub struct ExJsonValue(serde_json::Value);

/// The conversion [`parse_json`] applies: a `serde_json::Value` to a
/// [`Json`], variant for variant, the items of a list and the entries of an
/// object in their order.
#[verifier::external_body]
fn from_value(value: serde_json::Value) -> Json {
    match value {
        serde_json::Value::Null => Json::Null,
        serde_json::Value::Bool(b) => Json::Bool(b),
        serde_json::Value::Number(n) => n.as_u64().map_or(Json::OtherNumber, Json::Unsigned),
        serde_json::Value::String(s) => Json::Text(s),
        serde_json::Value::Array(items) => Json::Array(items.into_iter().map(from_value).collect()),
        serde_json::Value::Object(map) => Json::Object(map.into_iter().map(|(k, v)| (k, from_value(v))).collect()),
    }
}

/// The value at the first key `key` of `fields`, from index `from` on.
pub open spec fn field_from(fields: Seq<(Seq<char>, JsonView)>, key: Seq<char>, from: int) -> Option<JsonView>
    decreases fields.len() - from,
{
    if from < 0 || from >= fields.len() {
        None
    } else if fields[from].0 == key {
        Some(fields[from].1)
    } else {
        field_from(fields, key, from + 1)
    }
}

/// The value at key `key` of `v`, when `v` is an object that has the key.
pub open spec fn get_of(v: JsonView, key: Seq<char>) -> Option<JsonView> {
    match v {
        JsonView::Object(fields) => field_from(fields, key, 0),
        _ => None,
    }
}

/// The string `v` holds, when it is a string.
pub open spec fn text_of(v: Option<JsonView>) -> Option<Seq<char>> {
    match v {
        Some(JsonView::Text(s)) => Some(s),
        _ => None,
    }
}

/// The string at key `key` of `v`.
pub open spec fn str_field_of(v: JsonView, key: Seq<char>) -> Option<Seq<char>> {
    text_of(get_of(v, key))
}

/// The flag at key `key` of `v`.
pub open spec fn bool_field_of(v: JsonView, key: Seq<char>) -> Option<bool> {
    match get_of(v, key) {
        Some(JsonView::Bool(b)) => Some(b),
        _ => None,
    }
}

/// The unsigned integer at key `key` of `v`.
pub open spec fn u64_field_of(v: JsonView, key: Seq<char>) -> Option<u64> {
    match get_of(v, key) {
        Some(JsonView::Unsigned(n)) => Some(n),
        _ => None,
    }
}

/// The items of the list at key `key` of `v`, when it holds a list.
pub open spec fn array_field_of(v: JsonView, key: Seq<char>) -> Option<Seq<JsonView>> {
    match get_of(v, key) {
        Some(JsonView::Array(items)) => Some(items),
        _ => None,
    }
}

/// An optional string by its view.
pub open spec fn opt_text(o: Option<String>) -> Option<Seq<char>> {
    match o {
        Some(s) => Some(s@),
        None => None,
    }
}

/// The value at key `key` of `v`, as [`get_of`] says.
pub fn get<'a>(v: &'a Json, key: &str) -> (r: Option<&'a Json>)
    ensures
        match r {
            Some(x) => get_of(json_view(*v), key@) == Some(json_view(*x)),
            None => get_of(json_view(*v), key@) is None,
        },
{
    match v {
        Json::Object(fields) => {
            let ghost fv = match json_view(*v) {
                JsonView::Object(f) => f,
                _ => Seq::empty(),
            };
            assert(fv.len() == fields@.len());
            let mut i: usize = 0;
            while i < fields.len()
                invariant
                    i <= fields@.len(),
                    fv.len() == fields@.len(),
                    json_view(*v) == JsonView::Object(fv),
                    forall|k: int| 0 <= k < fields@.len() ==> #[trigger] fv[k] == (fields@[k].0@, json_view(fields@[k].1)),
                    field_from(fv, key@, 0) == field_from(fv, key@, i as int),
                decreases fields@.len() - i,
            {
                assert(fv[i as int] == (fields@[i as int].0@, json_view(fields@[i as int].1)));
                if str_equal(fields[i].0.as_str(), key) {
                    return Some(&fields[i].1);
                }
                i = i + 1;
            }
            None
        },
        _ => None,
    }
}

/// The string at key `key` of `v`, as [`str_field_of`] says.
pub fn str_field(v: &Json, key: &str) -> (r: Option<String>)
    ensures
        opt_text(r) == str_field_of(json_view(*v), key@),
{
    match get(v, key) {
        Some(Json::Text(s)) => Some(to_owned_string(s.as_str())),
        _ => None,
    }
}

/// The flag at key `key` of `v`, as [`bool_field_of`] says.
pub fn bool_field(v: &Json, key: &str) -> (r: Option<bool>)
    ensures
        r == bool_field_of(json_view(*v), key@),
{
    match get(v, key) {
        Some(Json::Bool(b)) => Some(*b),
        _ => None,
    }
}

/// The unsigned integer at key `key` of `v`, as [`u64_field_of`] says.
pub fn u64_field(v: &Json, key: &str) -> (r: Option<u64>)
    ensures
        r == u64_field_of(json_view(*v), key@),
{
    match get(v, key) {
        Some(Json::Unsigned(n)) => Some(*n),
        _ => None,
    }
}

/// The views of `items`.
pub open spec fn items_view(items: Seq<Json>) -> Seq<JsonView> {
    items.map_values(|j: Json| json_view(j))
}

/// The list at key `key` of `v`, as [`array_field_of`] says.
pub fn array_field<'a>(v: &'a Json, key: &str) -> (r: Option<&'a Vec<Json>>)
    ensures
        match r {
            Some(items) => array_field_of(json_view(*v), key@) == Some(items_view(items@)),
            None => array_field_of(json_view(*v), key@) is None,
        },
{
    match get(v, key) {
        Some(Json::Array(items)) => {
            proof {
                let s = items_view(items@);
                let t = Seq::new(
                    items@.len(),
                    |i: int|
                        if 0 <= i < items@.len() {
                            json_view(items@[i])
                        } else {
                            JsonView::Null
                        },
                );
                assert(s =~= t);
            }
            Some(items)
        },
        _ => None,
    }
}

/// The message a broken configuration file fails a discovery with.
pub open spec fn broken_file_message(detail: Seq<char>) -> Seq<char> {
    "could not parse Heroic configuration data: "@ + detail
}

/// What a configuration file that may be missing holds: nothing when it is
/// missing (`None` text), its value, or the parser's complaint.
pub open spec fn json_file_of(text: Option<Seq<char>>) -> Result<Option<JsonView>, Seq<char>> {
    match text {
        None => Ok(None),
        Some(t) => match parsed_json(t) {
            Ok(v) => Ok(Some(v)),
            Err(e) => Err(broken_file_message(e)),
        },
    }
}

/// Reads a configuration file's text, as [`json_file_of`] says.
pub fn json_file(text: Option<&str>) -> (r: Result<Option<Json>, String>)
    ensures
        match r {
            Ok(Some(v)) => json_file_of(str_opt(text)) == Ok::<Option<JsonView>, Seq<char>>(Some(json_view(v))),
            Ok(None) => json_file_of(str_opt(text)) == Ok::<Option<JsonView>, Seq<char>>(None),
            Err(e) => json_file_of(str_opt(text)) == Err::<Option<JsonView>, Seq<char>>(e@),
        },
{
    match text {
        None => Ok(None),
        Some(t) => match parse_json(t) {
            Ok(v) => Ok(Some(v)),
            Err(e) => Err(str_concat("could not parse Heroic configuration data: ", e.as_str())),
        },
    }
}

} // verus!
