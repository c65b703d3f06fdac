//! Reading and writing the small JSON documents of the handshake and of
//! appearance share codes, through `serde_json`.

use vstd::prelude::*;
use crate::text::opt_view;

verus! {

/// What `serde_json` reads of a top-level field of `text`: the parser's
/// message when `text` is not JSON; else the field's text when `text` is an
/// object whose `field` is a string, and nothing otherwise.
pub uninterp spec fn json_string_field(text: Seq<char>, field: Seq<char>) -> Result<
    Option<Seq<char>>,
    Seq<char>,
>;

/// The view of a field reading.
pub open spec fn field_view(r: Result<Option<String>, String>) -> Result<Option<Seq<char>>, Seq<char>> {
    match r {
        Ok(o) => Ok(opt_view(o)),
        Err(e) => Err(e@),
    }
}

/// `serde_json::from_str::<serde_json::Value>` of `text`, then `get(field)`
/// and `as_str`; the parse error given as its message. Claimed: the named
/// reading of the field.
#[verifier::external_body]
pub(crate) fn json_field(text: &str, field: &str) -> (r: Result<Option<String>, String>)
    ensures
        field_view(r) == json_string_field(text@, field@),
{
    match serde_json::from_str::<serde_json::Value>(text) {
        Ok(v) => Ok(v.get(field).and_then(|x| x.as_str()).map(|x| x.to_string())),
        Err(e) => Err(e.to_string()),
    }
}

/// The text `serde_json` writes for an object whose fields are strings or
/// null (`Value::Object` of `Value::String` and `Value::Null`, written with
/// `to_string`), the fields given in order.
pub uninterp spec fn json_object_text(fields: Seq<(Seq<char>, Option<Seq<char>>)>) -> Seq<char>;

/// The view of a list of fields.
pub open spec fn fields_view(f: Seq<(String, Option<String>)>) -> Seq<(Seq<char>, Option<Seq<char>>)> {
    f.map_values(|p: (String, Option<String>)| (p.0@, opt_view(p.1)))
}

/// No key occurs twice.
pub open spec fn distinct_keys(f: Seq<(Seq<char>, Option<Seq<char>>)>) -> bool {
    forall|i: int, j: int| 0 <= i < j < f.len() ==> #[trigger] f[i].0 != #[trigger] f[j].0
}

/// The text gives back field `i` when read, provided no key repeats.
pub open spec fn reads_back(text: Seq<char>, f: Seq<(Seq<char>, Option<Seq<char>>)>, i: int) -> bool {
    distinct_keys(f) && 0 <= i < f.len() ==> json_string_field(text, f[i].0) == Ok::<
        Option<Seq<char>>,
        Seq<char>,
    >(f[i].1)
}

/// A `serde_json::Map` filled with the fields (`insert` in order, a missing
/// value as `Value::Null`), written by `Value::Object(..).to_string()`.
/// Claimed: the named text of those fields, and, when no key repeats,
/// serde_json's round trip: reading the text back gives each field's string,
/// or nothing for a null one.
#[verifier::external_body]
pub(crate) fn json_object(fields: Vec<(String, Option<String>)>) -> (r: String)
    ensures
        r@ == json_object_text(fields_view(fields@)),
        forall|i: int| #![trigger fields_view(fields@)[i]] reads_back(r@, fields_view(fields@), i),
{
    let mut map = serde_json::Map::new();
    for (k, v) in fields {
        let value = match v {
            Some(s) => serde_json::Value::String(s),
            None => serde_json::Value::Null,
        };
        map.insert(k, value);
    }
    serde_json::Value::Object(map).to_string()
}

} // verus!
