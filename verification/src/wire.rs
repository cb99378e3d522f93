//! Building wire objects from typed declarations: each field under its wire
//! key, an unset optional field left out (or sent as `null` where the field
//! says so), integers as JSON integers, lists as arrays.
use crate::json::{entries_view, Json, JsonNumber, JsonV, NumberV};
use vstd::prelude::*;

verus! {

/// An integer as a JSON number: non-negative values as unsigned, negative ones
/// as signed.
pub open spec fn int_v(i: int) -> JsonV {
    if i >= 0 {
        JsonV::Number(NumberV::PosInt(i as u64))
    } else {
        JsonV::Number(NumberV::NegInt(i as i64))
    }
}

/// An optional string as an optional JSON string.
pub open spec fn opt_str_v(o: Option<String>) -> Option<JsonV> {
    match o {
        Some(s) => Some(JsonV::String(s@)),
        None => None,
    }
}

/// An optional boolean as an optional JSON boolean.
pub open spec fn opt_bool_v(o: Option<bool>) -> Option<JsonV> {
    match o {
        Some(b) => Some(JsonV::Bool(b)),
        None => None,
    }
}

/// An optional integer as an optional JSON number.
pub open spec fn opt_int_v(o: Option<i32>) -> Option<JsonV> {
    match o {
        Some(i) => Some(int_v(i as int)),
        None => None,
    }
}

/// A list of strings as a JSON array of strings.
pub open spec fn strs_v(v: Seq<String>) -> JsonV {
    JsonV::Array(v.map_values(|s: String| JsonV::String(s@)))
}

/// `es` with `(k, v)` appended when there is a value.
pub open spec fn opt_push(es: Seq<(Seq<char>, JsonV)>, k: Seq<char>, v: Option<JsonV>) -> Seq<
    (Seq<char>, JsonV),
> {
    match v {
        Some(x) => es.push((k, x)),
        None => es,
    }
}

/// `es` with `(k, v)` appended, `null` when there is no value.
pub open spec fn null_push(es: Seq<(Seq<char>, JsonV)>, k: Seq<char>, v: Option<JsonV>) -> Seq<
    (Seq<char>, JsonV),
> {
    match v {
        Some(x) => es.push((k, x)),
        None => es.push((k, JsonV::Null)),
    }
}

/// An integer as a JSON number.
pub fn int_json(i: i64) -> (r: Json)
    ensures
        r@ == int_v(i as int),
{
    if i >= 0 {
        Json::Number(JsonNumber::PosInt(i as u64))
    } else {
        Json::Number(JsonNumber::NegInt(i))
    }
}

/// A string as a JSON string.
pub fn str_json(s: &String) -> (r: Json)
    ensures
        r@ == JsonV::String(s@),
{
    Json::String(s.clone())
}

/// An optional string as an optional JSON string.
pub fn opt_str_json(o: &Option<String>) -> (r: Option<Json>)
    ensures
        crate::json::opt_json_view(r) == opt_str_v(*o),
{
    match o {
        Some(s) => Some(Json::String(s.clone())),
        None => None,
    }
}

/// An optional boolean as an optional JSON boolean.
pub fn opt_bool_json(o: Option<bool>) -> (r: Option<Json>)
    ensures
        crate::json::opt_json_view(r) == opt_bool_v(o),
{
    match o {
        Some(b) => Some(Json::Bool(b)),
        None => None,
    }
}

/// An optional integer as an optional JSON number.
pub fn opt_int_json(o: Option<i32>) -> (r: Option<Json>)
    ensures
        crate::json::opt_json_view(r) == opt_int_v(o),
{
    match o {
        Some(i) => Some(int_json(i as i64)),
        None => None,
    }
}

/// A list of strings as a JSON array of strings.
pub fn strs_json(v: &Vec<String>) -> (r: Json)
    ensures
        r@ == strs_v(v@),
{
    let mut out: Vec<Json> = Vec::new();
    let mut i: usize = 0;
    while i < v.len()
        invariant
            i <= v@.len(),
            out@.len() == i,
            forall|j: int| 0 <= j < i ==> (#[trigger] out@[j])@ == JsonV::String(v@[j]@),
        decreases v@.len() - i,
    {
        out.push(Json::String(v[i].clone()));
        i = i + 1;
    }
    proof {
        crate::json::lemma_array_view(out);
    }
    let r = Json::Array(out);
    assert(r@->Array_0 =~= v@.map_values(|s: String| JsonV::String(s@)));
    r
}

/// Appends `(k, v)`.
pub fn push(es: &mut Vec<(String, Json)>, k: &str, v: Json)
    ensures
        entries_view(final(es)@) == entries_view(old(es)@).push((k@, v@)),
{
    let ghost before = es@;
    es.push((k.to_owned(), v));
    assert(entries_view(es@) =~= entries_view(before).push((k@, v@)));
}

/// Appends `(k, v)` when there is a value.
pub fn push_opt(es: &mut Vec<(String, Json)>, k: &str, v: Option<Json>)
    ensures
        entries_view(final(es)@) == opt_push(
            entries_view(old(es)@),
            k@,
            crate::json::opt_json_view(v),
        ),
{
    match v {
        Some(x) => push(es, k, x),
        None => {},
    }
}

/// Appends `(k, v)`, `null` when there is no value.
pub fn push_nullable(es: &mut Vec<(String, Json)>, k: &str, v: Option<Json>)
    ensures
        entries_view(final(es)@) == null_push(
            entries_view(old(es)@),
            k@,
            crate::json::opt_json_view(v),
        ),
{
    match v {
        Some(x) => push(es, k, x),
        None => push(es, k, Json::Null),
    }
}

/// The object holding the entries.
pub fn object(es: Vec<(String, Json)>) -> (r: Json)
    ensures
        r@ == JsonV::Object(entries_view(es@)),
{
    proof {
        crate::json::lemma_object_view(es);
    }
    Json::Object(es)
}

/// An optional 64-bit integer as an optional JSON number.
pub open spec fn opt_i64_v(o: Option<i64>) -> Option<JsonV> {
    match o {
        Some(i) => Some(int_v(i as int)),
        None => None,
    }
}

/// An optional 64-bit integer as an optional JSON number.
pub fn opt_i64_json(o: Option<i64>) -> (r: Option<Json>)
    ensures
        crate::json::opt_json_view(r) == opt_i64_v(o),
{
    match o {
        Some(i) => Some(int_json(i)),
        None => None,
    }
}

/// A list of values as a JSON array of copies of them.
pub fn values_json(v: &Vec<Json>) -> (r: Json)
    ensures
        r@ == JsonV::Array(crate::json::elems_view(v@)),
{
    let out = crate::sync::clone_list(v);
    proof {
        crate::json::lemma_array_view(out);
    }
    Json::Array(out)
}

} // verus!
