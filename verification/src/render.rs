//! Compact JSON text, rendered by `serde_json`.
use crate::json::{Json, JsonNumber, JsonV, NumberV};
use crate::text::{decimal, signed_decimal};
use vstd::prelude::*;

verus! {

/// `serde_json::Value`, carried opaquely.
#[verifier::external_type_specification]
#[verifier::external_body]
pub struct ExSerdeValue(serde_json::Value);

/// The compact JSON text that `serde_json` displays for a value.
pub uninterp spec fn compact_text(v: JsonV) -> Seq<char>;

/// `serde_json::Value`'s `Display`: the compact JSON text of `v`.  The text of
/// `null`, a boolean and an integer (decimal, `-` before a negative one) is
/// stated; the text of a float, a string, an array or an object is claimed
/// only to be a function of the value.
#[verifier::external_body]
pub(crate) fn render_compact(v: &Json) -> (r: String)
    ensures
        r@ == compact_text(v@),
        v@ is Null ==> r@ == "null"@,
        v@ matches JsonV::Bool(b) ==> r@ == (if b {
            "true"@
        } else {
            "false"@
        }),
        v@ matches JsonV::Number(NumberV::PosInt(u)) ==> r@ == decimal(u as nat),
        v@ matches JsonV::Number(NumberV::NegInt(i)) ==> r@ == signed_decimal(i as int),
{
    to_serde(v).to_string()
}

/// The `serde_json::Value` holding the same JSON as `v`, variant for variant:
/// a float by its decimal text (`null` where that text does not parse), array
/// elements in order, and object entries collected into a `serde_json::Map`,
/// which keeps its keys sorted, a later entry for a key replacing an earlier
/// one.
#[verifier::external_body]
fn to_serde(v: &Json) -> serde_json::Value {
    match v {
        Json::Null => serde_json::Value::Null,
        Json::Bool(b) => serde_json::Value::Bool(*b),
        Json::Number(JsonNumber::PosInt(u)) => serde_json::Value::from(*u),
        Json::Number(JsonNumber::NegInt(i)) => serde_json::Value::from(*i),
        Json::Number(JsonNumber::Float { text, .. }) => text.parse().map_or(serde_json::Value::Null, serde_json::Value::Number),
        Json::String(s) => serde_json::Value::String(s.clone()),
        Json::Array(xs) => xs.iter().map(to_serde).collect(),
        Json::Object(es) => es.iter().map(|(k, x)| (k.clone(), to_serde(x))).collect(),
    }
}

} // verus!
