use configuratarr::json::{Json, JsonNumber};
use configuratarr::numeric::numbers_equal_as_double;
use configuratarr::sync::{self, ChangeKind, KeyedStep, KeyedWrite, RefId};
use configuratarr::text::{decimal_i64, decimal_u64, join, sorted};
use serde_json::Value;

fn conv(v: &Value) -> Json {
    match v {
        Value::Null => Json::Null,
        Value::Bool(b) => Json::Bool(*b),
        Value::Number(n) => Json::Number(if let Some(u) = n.as_u64() {
            JsonNumber::PosInt(u)
        } else if let Some(i) = n.as_i64() {
            JsonNumber::NegInt(i)
        } else {
            JsonNumber::Float { bits: n.as_f64().unwrap().to_bits(), text: n.to_string() }
        }),
        Value::String(s) => Json::String(s.clone()),
        Value::Array(xs) => Json::Array(xs.iter().map(conv).collect()),
        Value::Object(m) => Json::Object(m.iter().map(|(k, v)| (k.clone(), conv(v))).collect()),
    }
}

fn j(text: &str) -> Json {
    conv(&serde_json::from_str::<Value>(text).unwrap())
}

fn s(text: &str) -> String {
    text.to_string()
}

fn float(f: f64) -> JsonNumber {
    JsonNumber::Float { bits: f.to_bits(), text: format!("{f:?}") }
}

#[test]
fn json_equality_is_map_equality_with_last_entry_winning() {
    assert_eq!(j(r#"{"a": 1, "b": [true, null]}"#), j(r#"{"b": [true, null], "a": 1}"#));
    assert_ne!(j(r#"{"a": 1}"#), j(r#"{"a": 1, "b": 2}"#));
    let dup = Json::Object(vec![(s("a"), j("1")), (s("a"), j("2"))]);
    assert_eq!(dup, j(r#"{"a": 2}"#));
    assert_eq!(dup.get("a"), Some(&j("2")));
    assert_ne!(j("1"), j("1.0"));
    assert_eq!(j("0.0"), j("-0.0"));
    assert_ne!(j("[1, 2]"), j("[2, 1]"));
    assert_eq!(j(r#""x""#).as_str(), Some("x"));
    assert_eq!(j("-3").as_i64(), Some(-3));
    assert_eq!(j("18446744073709551615").as_i64(), None);
}

#[test]
fn json_removal_and_setting_of_keys() {
    let v = Json::Object(vec![(s("a"), j("1")), (s("b"), j("2")), (s("a"), j("3"))]);
    let removed = v.clone().remove_key("a");
    assert_eq!(removed, j(r#"{"b": 2}"#));
    let set = removed.set_key(s("b"), j("9"));
    assert_eq!(set, j(r#"{"b": 9}"#));
    assert_eq!(j("[1]").remove_key("a"), j("[1]"));
    assert_eq!(j("[1]").set_key(s("a"), j("1")), j("[1]"));
}

#[test]
fn numbers_compare_as_doubles() {
    assert!(numbers_equal_as_double(&JsonNumber::PosInt(465), &float(465.0)));
    assert!(numbers_equal_as_double(&JsonNumber::NegInt(-7), &float(-7.0)));
    assert!(!numbers_equal_as_double(&JsonNumber::PosInt(1), &float(1.5)));
    // 2^64 - 1 rounds up to 2^64.
    assert!(numbers_equal_as_double(&JsonNumber::PosInt(u64::MAX), &float(18446744073709551616.0)));
    // 2^53 + 1 and 2^53 are the same double.
    assert!(numbers_equal_as_double(&JsonNumber::PosInt(9007199254740993), &JsonNumber::PosInt(9007199254740992)));
    assert!(numbers_equal_as_double(&float(0.0), &float(-0.0)));
    assert!(numbers_equal_as_double(&JsonNumber::NegInt(i64::MIN), &float(-9223372036854775808.0)));
    assert!(!numbers_equal_as_double(&float(f64::NAN), &float(f64::NAN)));
    assert!(numbers_equal_as_double(&float(f64::INFINITY), &float(f64::INFINITY)));
}

#[test]
fn decimal_rendering() {
    assert_eq!(decimal_u64(0), "0");
    assert_eq!(decimal_u64(u64::MAX), "18446744073709551615");
    assert_eq!(decimal_i64(-120), "-120");
    assert_eq!(decimal_i64(i64::MIN), "-9223372036854775808");
}

#[test]
fn sorting_and_joining_strings() {
    assert_eq!(sorted(vec![s("b"), s("B"), s("a"), s(""), s("ab")]), vec![s(""), s("B"), s("a"), s("ab"), s("b")]);
    assert_eq!(join(&vec![s("x"), s("y"), s("z")], ", "), "x, y, z");
    assert_eq!(join(&vec![], ", "), "");
    assert_eq!(join(&vec![s("x")], "-"), "x");
}

#[test]
fn envelopes_refs_and_strings() {
    let env = j(r#"{"items": [{"name": "a", "id": "1"}, {"name": "b", "id": 2}, {"name": "c", "id": 1.5}, {"id": "4"}]}"#);
    let items = sync::list_at(&env, "items");
    assert_eq!(items.len(), 4);
    assert!(sync::list_at(&env, "missing").is_empty());
    assert!(sync::list_at(&j(r#"{"items": {}}"#), "items").is_empty());
    let refs = sync::named_refs(&items, "name");
    assert_eq!(refs.len(), 2);
    assert!(matches!(&refs[0].1, RefId::Str(x) if x == "1"));
    assert!(matches!(&refs[1].1, RefId::Int(2)));
    assert_eq!(sync::string_at(&items[0], "id"), "1");
    assert_eq!(sync::string_at(&items[1], "id"), "");
    assert_eq!(sync::strings_at(&j(r#"{"u": ["a", 1, "b"]}"#), "u"), vec![s("a"), s("b")]);
    assert_eq!(sync::keys_at(&items, "name"), vec![s("a"), s("b"), s("c")]);
    let gone = sync::undeclared(&items, "name", &vec![s("a"), s("c")]);
    assert_eq!(gone, vec![j(r#"{"name": "b", "id": 2}"#)]);
    assert_eq!(sync::echo_key(j(r#"{"x": 1}"#), "id", &items[0]), j(r#"{"x": 1, "id": "1"}"#));
    assert_eq!(sync::echo_key(j(r#"{"x": 1}"#), "id", &j("{}")), j(r#"{"x": 1}"#));
    assert_eq!(sync::path_with_id("/api/x/", &items[0]), "/api/x/1");
    assert_eq!(sync::position_with_str(&items, "name", "c"), Some(2));
    assert_eq!(sync::position_with_str(&items, "name", "z"), None);
}

#[test]
fn keyed_run_reports_and_writes_in_order() {
    let desired = vec![j(r#"{"name": "a"}"#), j(r#"{"name": "b", "x": 2}"#), j(r#"{"name": "c"}"#)];
    let live = vec![j(r#"{"name": "b", "x": 1}"#), j(r#"{"name": "gone"}"#), j(r#"{"name": "a"}"#), j(r#"{"id": 9}"#)];
    let steps = vec![KeyedStep::Unchanged(2), KeyedStep::Update(0), KeyedStep::Create];
    let apply = sync::keyed_run(&desired, &live, &steps, "name", true, true);
    let plan = sync::keyed_run(&desired, &live, &steps, "name", true, false);
    let summary = |r: &sync::KeyedRun| -> Vec<(ChangeKind, String)> {
        r.reports.iter().map(|x| (x.kind, x.name.clone())).collect()
    };
    assert_eq!(
        summary(&apply),
        vec![
            (ChangeKind::Unchanged, s("a")),
            (ChangeKind::Updated, s("b")),
            (ChangeKind::Created, s("c")),
            (ChangeKind::Deleted, s("gone")),
        ]
    );
    assert_eq!(summary(&plan), summary(&apply));
    assert!(plan.writes.is_empty());
    assert_eq!(
        apply.writes,
        vec![KeyedWrite::Update { live: 0, desired: 1 }, KeyedWrite::Create(2), KeyedWrite::Delete(1)]
    );
    let no_prune = sync::keyed_run(&desired, &live, &steps, "name", false, true);
    assert_eq!(no_prune.reports.len(), 3);
    assert_eq!(no_prune.writes.len(), 2);
}
