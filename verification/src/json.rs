//! The library's model of an untyped JSON value, and the trusted bridge to
//! the JSON parser.
//!
//! The description payload of the modern dialect arrives as JSON text.  The
//! parser's result is rebuilt, one variant for one, as [`JsonValue`], whose
//! mathematical value is [`JVal`]; everything downstream of the parse is
//! verified over that model.  A numeric leaf carries nothing the decoders
//! read, so it is kept only as a marker variant.

use vstd::prelude::*;

verus! {

/// An untyped JSON value holding exactly what the description decoders read.
pub enum JsonValue {
    Null,
    Bool(bool),
    Num,
    Str(String),
    Arr(Vec<JsonValue>),
    Obj(Vec<(String, JsonValue)>),
}

/// The mathematical value of a [`JsonValue`].
pub enum JVal {
    Null,
    Bool(bool),
    Num,
    Str(Seq<char>),
    Arr(Seq<JVal>),
    Obj(Seq<(Seq<char>, JVal)>),
}

/// The mathematical value of a [`JsonValue`].
pub open spec fn jval_of(v: JsonValue) -> JVal
    decreases v,
{
    match v {
        JsonValue::Null => JVal::Null,
        JsonValue::Bool(b) => JVal::Bool(b),
        JsonValue::Num => JVal::Num,
        JsonValue::Str(s) => JVal::Str(s@),
        JsonValue::Arr(items) => JVal::Arr(jvals_of(items@)),
        JsonValue::Obj(fields) => JVal::Obj(jfields_of(fields@)),
    }
}

/// The mathematical values of a sequence of JSON values, in order.
pub open spec fn jvals_of(items: Seq<JsonValue>) -> Seq<JVal>
    decreases items,
{
    if items.len() == 0 {
        Seq::empty()
    } else {
        seq![jval_of(items[0])] + jvals_of(items.skip(1))
    }
}

/// The mathematical values of a sequence of object fields, in order.
pub open spec fn jfields_of(fields: Seq<(String, JsonValue)>) -> Seq<(Seq<char>, JVal)>
    decreases fields,
{
    if fields.len() == 0 {
        Seq::empty()
    } else {
        seq![(fields[0].0@, jval_of(fields[0].1))] + jfields_of(fields.skip(1))
    }
}

/// `jvals_of` maps the sequence pointwise.
pub proof fn lemma_jvals_of_pointwise(items: Seq<JsonValue>)
    ensures
        jvals_of(items).len() == items.len(),
        forall|i: int| 0 <= i < items.len() ==> jvals_of(items)[i] == jval_of(items[i]),
    decreases items.len(),
{
    if items.len() > 0 {
        lemma_jvals_of_pointwise(items.skip(1));
        assert forall|i: int| 0 <= i < items.len() implies jvals_of(items)[i] == jval_of(
            items[i],
        ) by {
            if i > 0 {
                assert(jvals_of(items)[i] == jvals_of(items.skip(1))[i - 1]);
                assert(items.skip(1)[i - 1] == items[i]);
            }
        }
    }
}

/// `jfields_of` maps the sequence pointwise.
pub proof fn lemma_jfields_of_pointwise(fields: Seq<(String, JsonValue)>)
    ensures
        jfields_of(fields).len() == fields.len(),
        forall|i: int| 0 <= i < fields.len() ==> jfields_of(fields)[i] == (
            fields[i].0@,
            jval_of(fields[i].1),
        ),
    decreases fields.len(),
{
    if fields.len() > 0 {
        lemma_jfields_of_pointwise(fields.skip(1));
        assert forall|i: int| 0 <= i < fields.len() implies jfields_of(fields)[i] == (
            fields[i].0@,
            jval_of(fields[i].1),
        ) by {
            if i > 0 {
                assert(jfields_of(fields)[i] == jfields_of(fields.skip(1))[i - 1]);
                assert(fields.skip(1)[i - 1] == fields[i]);
            }
        }
    }
}

#[verifier::external_type_specification]
#[verifier::external_body]
pub struct ExValue(serde_json::Value);

/// Relies on serde_json::Value: rebuilds the parser's tree as the library's
/// own value type, one variant for one; a number becomes the bare numeric
/// marker.
#[verifier::external_body]
fn value_to_json(v: serde_json::Value) -> JsonValue {
    match v {
        serde_json::Value::Null => JsonValue::Null,
        serde_json::Value::Bool(b) => JsonValue::Bool(b),
        serde_json::Value::Number(_) => JsonValue::Num,
        serde_json::Value::String(s) => JsonValue::Str(s),
        serde_json::Value::Array(a) => JsonValue::Arr(a.into_iter().map(value_to_json).collect()),
        serde_json::Value::Object(m) => JsonValue::Obj(
            m.into_iter().map(|(k, w)| (k, value_to_json(w))).collect(),
        ),
    }
}

/// What the JSON parser yields on the given text, over the library's value
/// model: `None` on malformed text.  Parsing is a function of the text
/// alone.
pub uninterp spec fn json_parse(s: Seq<char>) -> Option<JVal>;

/// Relies on serde_json::from_str::<serde_json::Value>: parses JSON text,
/// guarded by the parser's own recursion-depth bound, and rebuilds the
/// result through `value_to_json`.
#[verifier::external_body]
pub(crate) fn parse_json(s: &str) -> (r: Option<JsonValue>)
    ensures
        r is Some <==> json_parse(s@) is Some,
        r matches Some(v) ==> json_parse(s@) == Some(jval_of(v)),
{
    serde_json::from_str::<serde_json::Value>(s).ok().map(value_to_json)
}

} // verus!
