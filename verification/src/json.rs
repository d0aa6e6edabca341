//! JSON documents as the library reads them. A parsed value is held as the
//! `serde_json::Value` that the parser made, and is viewed as its compact JSON
//! text, the text that its `Display` impl writes. The lookups are trusted
//! calls into `serde_json`, stated over names for what they return.

use vstd::prelude::*;
use std::collections::HashMap;

verus! {

/// `serde_json::Value`, an arbitrary JSON value; what it holds is given by
/// the views of `Json` and `JsonRef`.
#[verifier::external_type_specification]
#[verifier::external_body]
pub struct ExJsonValue(serde_json::Value);

/// `serde_json::Error`, the error of a failed JSON parse.
#[verifier::external_type_specification]
#[verifier::external_body]
pub struct ExJsonError(serde_json::Error);

/// The compact JSON text of the value that `serde_json::from_str::<Value>`
/// makes of a text; `None` where the text is not JSON.
pub uninterp spec fn json_parse(text: Seq<char>) -> Option<Seq<char>>;

/// The entries of the map that `serde_json::from_str::<HashMap<String,
/// Value>>` makes of a text, each value by its compact JSON text; `None` where
/// the text is not a JSON object.
pub uninterp spec fn json_object_entries(text: Seq<char>) -> Option<Map<Seq<char>, Seq<char>>>;

/// The compact JSON text of the field `key` that `Value::get` finds in the
/// value whose compact JSON text is `value`; `None` where the value is not an
/// object or has no such field.
pub uninterp spec fn json_field(value: Seq<char>, key: Seq<char>) -> Option<Seq<char>>;

/// The compact JSON text of the element at `index` that serde_json's
/// `Index::index_into` finds in the value whose compact JSON text is
/// `value`; `None` where the value is not an array or is too short.
pub uninterp spec fn json_element(value: Seq<char>, index: int) -> Option<Seq<char>>;

/// The characters of the JSON string whose compact JSON text is `value`, as
/// `Value::as_str` gives them; `None` where the value is not a string.
pub uninterp spec fn json_string(value: Seq<char>) -> Option<Seq<char>>;

/// What indexing a value by a position gives: the element there, or `null`.
pub open spec fn element_or_null(value: Seq<char>, index: int) -> Seq<char> {
    match json_element(value, index) {
        Some(e) => e,
        None => "null"@,
    }
}

/// The characters of a string that JSON writes without escapes: no double
/// quote, no backslash, no control character below U+0020.
pub open spec fn writes_unescaped(s: Seq<char>) -> bool {
    forall|i: int| 0 <= i < s.len() ==> #[trigger] s[i] != '"' && s[i] != '\\' && (s[i] as u32) >= 0x20
}

/// A string between double quotes.
pub open spec fn quoted(s: Seq<char>) -> Seq<char> {
    seq!['"'] + s + seq!['"']
}

/// A parsed JSON value.
pub struct Json {
    value: serde_json::Value,
    text: Ghost<Seq<char>>,
}

impl View for Json {
    type V = Seq<char>;

    /// The compact JSON text of the value.
    closed spec fn view(&self) -> Seq<char> {
        self.text@
    }
}

/// A JSON value inside a parsed document.
pub struct JsonRef<'a> {
    value: &'a serde_json::Value,
    text: Ghost<Seq<char>>,
}

impl<'a> View for JsonRef<'a> {
    type V = Seq<char>;

    /// The compact JSON text of the value.
    closed spec fn view(&self) -> Seq<char> {
        self.text@
    }
}

/// A parsed JSON object, as a map from names to values.
pub struct JsonObject {
    map: HashMap<String, serde_json::Value>,
    entries: Ghost<Map<Seq<char>, Seq<char>>>,
}

impl View for JsonObject {
    type V = Map<Seq<char>, Seq<char>>;

    /// The entries, each value by its compact JSON text.
    closed spec fn view(&self) -> Map<Seq<char>, Seq<char>> {
        self.entries@
    }
}

/// `serde_json::from_str::<serde_json::Value>`. The claim: it succeeds
/// exactly when `json_parse` of the text is some value, and then gives that
/// value.
#[verifier::external_body]
pub fn parse_json(text: &str) -> (r: Result<Json, serde_json::Error>)
    ensures
        r is Ok <==> json_parse(text@) is Some,
        r matches Ok(j) ==> json_parse(text@) == Some(j@),
{
    match serde_json::from_str::<serde_json::Value>(text) {
        Ok(value) => Ok(Json { value, text: Ghost(json_parse(text@).unwrap()) }),
        Err(e) => Err(e),
    }
}

/// `serde_json::from_str::<HashMap<String, serde_json::Value>>`. The claim:
/// it succeeds exactly when `json_object_entries` of the text is some map,
/// and then gives that map.
#[verifier::external_body]
pub fn parse_json_object(text: &str) -> (r: Result<JsonObject, serde_json::Error>)
    ensures
        r is Ok <==> json_object_entries(text@) is Some,
        r matches Ok(o) ==> json_object_entries(text@) == Some(o@),
{
    match serde_json::from_str::<HashMap<String, serde_json::Value>>(text) {
        Ok(map) => Ok(JsonObject { map, entries: Ghost(json_object_entries(text@).unwrap()) }),
        Err(e) => Err(e),
    }
}

impl Json {
    /// The value, to be read in place.
    pub fn as_json_ref(&self) -> (r: JsonRef<'_>)
        ensures
            r@ == self@,
    {
        JsonRef { value: &self.value, text: Ghost(self.text@) }
    }
}

impl JsonObject {
    /// `HashMap::get` on the parsed map: the value of an entry named `key`,
    /// if there is one, as the standard library documents.
    #[verifier::external_body]
    pub fn get(&self, key: &str) -> (r: Option<JsonRef<'_>>)
        ensures
            r is Some <==> self@.contains_key(key@),
            r matches Some(v) ==> v@ == self@[key@],
    {
        match self.map.get(key) {
            Some(value) => Some(JsonRef { value, text: Ghost(self.entries@[key@]) }),
            None => None,
        }
    }
}

impl<'a> JsonRef<'a> {
    /// `serde_json::Value::get` with a field name. The claim: the field is
    /// there exactly when `json_field` of the value and the name is some
    /// value, and then it is that value.
    #[verifier::external_body]
    pub fn field(&self, key: &str) -> (r: Option<JsonRef<'a>>)
        ensures
            r is Some <==> json_field(self@, key@) is Some,
            r matches Some(v) ==> json_field(self@, key@) == Some(v@),
    {
        match self.value.get(key) {
            Some(value) => Some(JsonRef { value, text: Ghost(json_field(self.text@, key@).unwrap()) }),
            None => None,
        }
    }

    /// Indexing a `serde_json::Value` by a position (`Index<usize>`), which
    /// is `index_into` or else `Null`. The claim: the result is the element
    /// that `json_element` names, or `null`.
    #[verifier::external_body]
    pub fn element(&self, index: usize) -> (r: JsonRef<'a>)
        ensures
            r@ == (match json_element(self@, index as int) {
                Some(e) => e,
                None => "null"@,
            }),
    {
        JsonRef { value: &self.value[index], text: Ghost(element_or_null(self.text@, index as int)) }
    }

    /// `serde_json::Value::as_str`. The claim: it gives the characters of a
    /// JSON string exactly when `json_string` of the value does.
    #[verifier::external_body]
    pub fn as_str(&self) -> (r: Option<&'a str>)
        ensures
            r is Some <==> json_string(self@) is Some,
            r matches Some(s) ==> json_string(self@) == Some(s@),
    {
        self.value.as_str()
    }

    /// `serde_json::Value`'s `Display`, through `to_string`: the compact JSON
    /// text of the value, which is the view. A string whose characters need
    /// no escape is written between double quotes as it is (serde_json's
    /// `format_escaped_str` escapes only `"`, `\` and control characters).
    #[verifier::external_body]
    pub fn to_text(&self) -> (r: String)
        ensures
            r@ == self@,
            json_string(self@) matches Some(s) ==> (writes_unescaped(s) ==> r@ == quoted(s)),
    {
        self.value.to_string()
    }
}

} // verus!
