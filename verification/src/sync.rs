//! Pieces shared by the reconcile steps: reading lists out of response
//! envelopes, registering ids for `${ref.<kind>.<name>}`, comparing declared
//! keys with live ones, the outcome of a singleton step, and the per-item
//! steps of a keyed collection (match by key, then create, update or leave;
//! under `--prune`, delete what is no longer declared).
use crate::json::{elems_view, entry_is_last, is_last, json_eq, Json, JsonV};
use crate::numeric::{numbers_double_eq, numbers_equal_as_double};
use vstd::prelude::*;

verus! {

/// The outcome of a step that manages one settings object.
pub enum Step {
    /// Live state already matches; nothing is sent.
    Unchanged,
    /// Live state differs; this body is sent.
    Write(Json),
}

/// The kind of change a reconcile reports for one entry.
#[derive(PartialEq, Eq, Structural, Debug, Clone, Copy)]
pub enum ChangeKind {
    Created,
    Updated,
    Unchanged,
    Deleted,
}

/// The method of a write request.
#[derive(PartialEq, Eq, Structural, Debug, Clone, Copy)]
pub enum Method {
    Post,
    Put,
    Delete,
}

/// A write request: its method, its path, and its JSON body (none for a
/// delete).
pub struct Request {
    pub method: Method,
    pub path: String,
    pub body: Option<Json>,
}

/// The view of a [`Request`].
pub struct RequestV {
    pub method: Method,
    pub path: Seq<char>,
    pub body: Option<JsonV>,
}

impl View for Request {
    type V = RequestV;

    open spec fn view(&self) -> RequestV {
        RequestV { method: self.method, path: self.path@, body: crate::json::opt_json_view(self.body) }
    }
}

/// The views of a list of requests.
pub open spec fn requests_view(rs: Seq<Request>) -> Seq<RequestV> {
    rs.map_values(|r: Request| r@)
}

/// An id registered for `${ref.<kind>.<name>}`.
#[derive(Debug)]
pub enum RefId {
    Str(String),
    Int(i64),
}

/// The view of a [`RefId`].
pub enum RefIdV {
    Str(Seq<char>),
    Int(i64),
}

impl View for RefId {
    type V = RefIdV;

    open spec fn view(&self) -> RefIdV {
        match *self {
            RefId::Str(s) => RefIdV::Str(s@),
            RefId::Int(i) => RefIdV::Int(i),
        }
    }
}

/// The id a value gives: a string, or an integer that fits `i64`.
pub open spec fn ref_id_spec(v: JsonV) -> Option<RefIdV> {
    match v {
        JsonV::String(s) => Some(RefIdV::Str(s)),
        _ => match v.i64_of() {
            Some(i) => Some(RefIdV::Int(i)),
            None => None,
        },
    }
}

/// The id a value gives, when it is a string or an integer that fits `i64`.
pub fn ref_id_of(v: &Json) -> (r: Option<RefId>)
    ensures
        match r {
            Some(id) => ref_id_spec(v@) == Some(id@),
            None => ref_id_spec(v@) is None,
        },
{
    match v {
        Json::String(s) => Some(RefId::Str(s.clone())),
        _ => match v.as_i64() {
            Some(i) => Some(RefId::Int(i)),
            None => None,
        },
    }
}

/// The array at key `k` of `v`, or no elements when there is none.
pub open spec fn list_at_spec(v: JsonV, k: Seq<char>) -> Seq<JsonV> {
    match v.get(k) {
        Some(JsonV::Array(xs)) => xs,
        _ => Seq::empty(),
    }
}

/// The array at `outer.inner` of `v`, or no elements when there is none.
pub open spec fn nested_list_spec(v: JsonV, outer: Seq<char>, inner: Seq<char>) -> Seq<JsonV> {
    match v.get(outer) {
        Some(o) => list_at_spec(o, inner),
        None => Seq::empty(),
    }
}

/// A copy of a list of values.
pub fn clone_list(xs: &Vec<Json>) -> (r: Vec<Json>)
    ensures
        elems_view(r@) == elems_view(xs@),
{
    let mut out: Vec<Json> = Vec::new();
    let mut i: usize = 0;
    while i < xs.len()
        invariant
            i <= xs@.len(),
            out@.len() == i,
            forall|j: int| 0 <= j < i ==> (#[trigger] out@[j])@ == xs@[j]@,
        decreases xs@.len() - i,
    {
        out.push(xs[i].deep_clone());
        i = i + 1;
    }
    assert(elems_view(out@) =~= elems_view(xs@));
    out
}

/// The array at key `key` of `v` (a response envelope), or an empty list.
pub fn list_at(v: &Json, key: &str) -> (r: Vec<Json>)
    ensures
        elems_view(r@) == list_at_spec(v@, key@),
{
    match v.get(key) {
        Some(inner) => match inner.as_array() {
            Some(xs) => clone_list(xs),
            None => {
                let r: Vec<Json> = Vec::new();
                assert(elems_view(r@) =~= Seq::<JsonV>::empty());
                r
            },
        },
        None => {
            let r: Vec<Json> = Vec::new();
            assert(elems_view(r@) =~= Seq::<JsonV>::empty());
            r
        },
    }
}

/// The array at `outer.inner` of `v` (a response envelope), or an empty list.
pub fn nested_list_at(v: &Json, outer: &str, inner: &str) -> (r: Vec<Json>)
    ensures
        elems_view(r@) == nested_list_spec(v@, outer@, inner@),
{
    match v.get(outer) {
        Some(o) => list_at(o, inner),
        None => {
            let r: Vec<Json> = Vec::new();
            assert(elems_view(r@) =~= Seq::<JsonV>::empty());
            r
        },
    }
}

/// The `(name, id)` pairs of the entries that carry both a string at
/// `name_key` and an id at `id`, in entry order.
pub open spec fn named_refs_spec(entries: Seq<JsonV>, name_key: Seq<char>) -> Seq<
    (Seq<char>, RefIdV),
>
    decreases entries.len(),
{
    if entries.len() == 0 {
        Seq::empty()
    } else {
        let prev = named_refs_spec(entries.drop_last(), name_key);
        let e = entries.last();
        match (e.str_at(name_key), e.get("id"@)) {
            (Some(n), Some(idv)) => match ref_id_spec(idv) {
                Some(id) => prev.push((n, id)),
                None => prev,
            },
            _ => prev,
        }
    }
}

/// The view of a list of registered ids.
pub open spec fn refs_view(rs: Seq<(String, RefId)>) -> Seq<(Seq<char>, RefIdV)> {
    rs.map_values(|r: (String, RefId)| (r.0@, r.1@))
}

/// The `(name, id)` pairs to register for the entries: each entry with a
/// string at `name_key` and a string or integer `id`.
pub fn named_refs(entries: &Vec<Json>, name_key: &str) -> (r: Vec<(String, RefId)>)
    ensures
        refs_view(r@) == named_refs_spec(elems_view(entries@), name_key@),
{
    let ghost ev = elems_view(entries@);
    let mut out: Vec<(String, RefId)> = Vec::new();
    let mut i: usize = 0;
    while i < entries.len()
        invariant
            i <= entries@.len(),
            ev == elems_view(entries@),
            refs_view(out@) == named_refs_spec(ev.take(i as int), name_key@),
        decreases entries@.len() - i,
    {
        proof {
            assert(ev.take(i + 1).drop_last() =~= ev.take(i as int));
            assert(ev.take(i + 1).last() == entries@[i as int]@);
        }
        let e = &entries[i];
        let name = match e.get(name_key) {
            Some(n) => n.as_str(),
            None => None,
        };
        let id = match e.get("id") {
            Some(v) => ref_id_of(v),
            None => None,
        };
        match (name, id) {
            (Some(n), Some(id)) => {
                let ghost before = out@;
                out.push((n.to_owned(), id));
                proof {
                    assert(refs_view(out@) =~= refs_view(before).push((n@, id@)));
                }
            },
            _ => {},
        }
        i = i + 1;
    }
    assert(ev.take(entries@.len() as int) =~= ev);
    out
}

/// `body` with key `key` set to `live`'s value there, when `live` has one.
pub open spec fn echo_spec(body: JsonV, key: Seq<char>, live: JsonV) -> JsonV {
    match live.get(key) {
        Some(v) => match body {
            JsonV::Object(es) => JsonV::Object(es.push((key, v))),
            other => other,
        },
        None => body,
    }
}

/// `body` with key `key` copied from `live`, when `live` has it.
pub fn echo_key(body: Json, key: &str, live: &Json) -> (r: Json)
    ensures
        r@ == echo_spec(body@, key@, live@),
{
    match live.get(key) {
        Some(v) => body.set_key(key.to_owned(), v.deep_clone()),
        None => body,
    }
}

/// The string at key `key` of `v`, or the empty string.
pub open spec fn str_or_empty(v: JsonV, key: Seq<char>) -> Seq<char> {
    match v.str_at(key) {
        Some(s) => s,
        None => Seq::empty(),
    }
}

/// The string at key `key` of `v`, or the empty string (a live item's id for
/// its URL path).
pub fn string_at(v: &Json, key: &str) -> (r: String)
    ensures
        r@ == str_or_empty(v@, key@),
{
    match v.get(key) {
        Some(x) => match x.as_str() {
            Some(s) => s.to_owned(),
            None => String::new(),
        },
        None => String::new(),
    }
}

/// A declared value against the live value at the same key: absent live
/// values match only a declared `null`; numbers compare as doubles; anything
/// else by JSON equality.
pub open spec fn field_in_sync_spec(want: JsonV, have: Option<JsonV>) -> bool {
    match have {
        None => want is Null,
        Some(h) => match (want, h) {
            (JsonV::Number(a), JsonV::Number(b)) => numbers_double_eq(a, b),
            _ => json_eq(want, h),
        },
    }
}

/// Every key the declared object holds matches the live object at that key;
/// a declared value that is not an object is always in sync.
pub open spec fn fields_in_sync_spec(wire: JsonV, live: JsonV) -> bool {
    match wire {
        JsonV::Object(es) => forall|i: int|
            0 <= i < es.len() && is_last(es, i) ==> #[trigger] field_in_sync_spec(
                es[i].1,
                live.get(es[i].0),
            ),
        _ => true,
    }
}

/// A declared value against the live value at the same key.
pub fn field_in_sync(want: &Json, have: Option<&Json>) -> (r: bool)
    ensures
        r == field_in_sync_spec(want@, crate::json::opt_view(have)),
{
    match have {
        None => want.is_null(),
        Some(h) => match (want, h) {
            (Json::Number(a), Json::Number(b)) => numbers_equal_as_double(a, b),
            _ => want.equals(h),
        },
    }
}

/// Every key of the declared object matches the live object at that key.
pub fn fields_in_sync(wire: &Json, live: &Json) -> (r: bool)
    ensures
        r == fields_in_sync_spec(wire@, live@),
{
    match wire.as_object() {
        None => true,
        Some(es) => {
            let ghost v = crate::json::entries_view(es@);
            let mut i: usize = 0;
            while i < es.len()
                invariant
                    i <= es@.len(),
                    v == crate::json::entries_view(es@),
                    wire@ == JsonV::Object(v),
                    forall|j: int|
                        0 <= j < i && is_last(v, j) ==> #[trigger] field_in_sync_spec(
                            v[j].1,
                            live@.get(v[j].0),
                        ),
                decreases es@.len() - i,
            {
                if entry_is_last(es, i) {
                    if !field_in_sync(&es[i].1, live.get(es[i].0.as_str())) {
                        assert(!field_in_sync_spec(v[i as int].1, live@.get(v[i as int].0)));
                        return false;
                    }
                }
                i = i + 1;
            }
            true
        },
    }
}

/// The live settings object inside a `{settings: {...}}` envelope, or `null`.
pub open spec fn settings_of(envelope: JsonV) -> JsonV {
    match envelope.get("settings"@) {
        Some(s) => s,
        None => JsonV::Null,
    }
}

/// Decides a settings singleton whose read is wrapped as `{settings: {...}}`
/// and whose write takes the flat declared keys: unchanged when every
/// declared key already matches, else the declared object is sent.
pub fn settings_step(wire: Json, envelope: &Json) -> (r: Step)
    ensures
        match r {
            Step::Unchanged => fields_in_sync_spec(wire@, settings_of(envelope@)),
            Step::Write(body) => !fields_in_sync_spec(wire@, settings_of(envelope@)) && body@
                == wire@,
        },
{
    let in_sync = match envelope.get("settings") {
        Some(s) => fields_in_sync(&wire, s),
        None => fields_in_sync(&wire, &Json::Null),
    };
    if in_sync {
        Step::Unchanged
    } else {
        Step::Write(wire)
    }
}

/// The live value at a key against a declared value: equal when present,
/// absent only when the declared value is `null`.
pub open spec fn value_matches(have: Option<JsonV>, want: JsonV) -> bool {
    match have {
        Some(h) => json_eq(h, want),
        None => want is Null,
    }
}

/// The live value at a key against a declared value.
pub fn matches_value(have: Option<&Json>, want: &Json) -> (r: bool)
    ensures
        r == value_matches(crate::json::opt_view(have), want@),
{
    match have {
        Some(h) => h.equals(want),
        None => want.is_null(),
    }
}

/// Whether the list holds the string `s`.
pub fn contains_string(v: &Vec<String>, s: &str) -> (r: bool)
    ensures
        r == crate::text::strings_view(v@).contains(s@),
{
    let mut i: usize = 0;
    while i < v.len()
        invariant
            i <= v@.len(),
            forall|j: int| 0 <= j < i ==> v@[j]@ != s@,
        decreases v@.len() - i,
    {
        if crate::json::str_equal(v[i].as_str(), s) {
            assert(crate::text::strings_view(v@)[i as int] == s@);
            return true;
        }
        i = i + 1;
    }
    assert(!crate::text::strings_view(v@).contains(s@)) by {
        if crate::text::strings_view(v@).contains(s@) {
            let j = choose|j: int|
                0 <= j < v@.len() && #[trigger] crate::text::strings_view(v@)[j] == s@;
            assert(v@[j]@ == s@);
        }
    }
    false
}

/// `base` followed by the live item's string `id` (empty when it has none):
/// the URL path of a live item.
pub fn path_with_id(base: &str, live: &Json) -> (r: String)
    ensures
        r@ == base@ + str_or_empty(live@, "id"@),
{
    let id = string_at(live, "id");
    let mut r = base.to_owned();
    r.append(id.as_str());
    r
}

/// The string at `k`, or `default` when there is none.
pub open spec fn str_or(v: JsonV, k: Seq<char>, default: Seq<char>) -> Seq<char> {
    match v.str_at(k) {
        Some(s) => s,
        None => default,
    }
}

/// The string at key `key` of `v`, or `default`.
pub fn string_or(v: &Json, key: &str, default: &str) -> (r: String)
    ensures
        r@ == str_or(v@, key@, default@),
{
    match v.get(key) {
        Some(x) => match x.as_str() {
            Some(s) => s.to_owned(),
            None => default.to_owned(),
        },
        None => default.to_owned(),
    }
}

/// The elements that are strings, in order.
pub open spec fn string_elems(xs: Seq<JsonV>) -> Seq<Seq<char>>
    decreases xs.len(),
{
    if xs.len() == 0 {
        Seq::empty()
    } else {
        match xs.last().str_of() {
            Some(s) => string_elems(xs.drop_last()).push(s),
            None => string_elems(xs.drop_last()),
        }
    }
}

/// The string elements of the array at key `key` of `v` (none when there is no
/// array there).
pub open spec fn strings_at_spec(v: JsonV, key: Seq<char>) -> Seq<Seq<char>> {
    string_elems(list_at_spec(v, key))
}

/// The string elements of the array at key `key` of `v`, in order.
pub fn strings_at(v: &Json, key: &str) -> (r: Vec<String>)
    ensures
        crate::text::strings_view(r@) == strings_at_spec(v@, key@),
{
    let xs = list_at(v, key);
    let ghost ev = elems_view(xs@);
    let mut out: Vec<String> = Vec::new();
    let mut i: usize = 0;
    while i < xs.len()
        invariant
            i <= xs@.len(),
            ev == elems_view(xs@),
            crate::text::strings_view(out@) == string_elems(ev.take(i as int)),
        decreases xs@.len() - i,
    {
        proof {
            assert(ev.take(i + 1).drop_last() =~= ev.take(i as int));
            assert(ev.take(i + 1).last() == xs@[i as int]@);
        }
        match xs[i].as_str() {
            Some(s) => {
                let ghost before = out@;
                out.push(s.to_owned());
                proof {
                    assert(crate::text::strings_view(out@) =~= crate::text::strings_view(
                        before,
                    ).push(s@));
                }
            },
            None => {},
        }
        i = i + 1;
    }
    assert(ev.take(xs@.len() as int) =~= ev);
    out
}

/// The first entry whose string at `key` is `value`.
pub open spec fn first_with_str(xs: Seq<JsonV>, key: Seq<char>, value: Seq<char>) -> Option<JsonV>
    decreases xs.len(),
{
    if xs.len() == 0 {
        None
    } else if xs[0].str_at(key) == Some(value) {
        Some(xs[0])
    } else {
        first_with_str(xs.drop_first(), key, value)
    }
}

/// The index of the first entry whose string at `key` is `value`.
pub fn first_index_with_str(xs: &Vec<Json>, key: &str, value: &str) -> (r: Option<usize>)
    ensures
        match r {
            Some(i) => i < xs@.len() && first_with_str(elems_view(xs@), key@, value@) == Some(
                xs@[i as int]@,
            ),
            None => first_with_str(elems_view(xs@), key@, value@) is None,
        },
{
    let r = position_with_str(xs, key, value);
    proof {
        lemma_first_with_str_index(elems_view(xs@), key@, value@);
        lemma_first_index_found(elems_view(xs@), key@, value@);
    }
    r
}

/// The first entry with a string is the entry at the first index with it.
pub proof fn lemma_first_with_str_index(xs: Seq<JsonV>, key: Seq<char>, value: Seq<char>)
    ensures
        first_with_str(xs, key, value) == match first_index_spec(xs, key, value) {
            Some(j) => Some(xs[j]),
            None => None,
        },
    decreases xs.len(),
{
    if xs.len() > 0 && xs[0].str_at(key) != Some(value) {
        let d = xs.drop_first();
        lemma_first_with_str_index(d, key, value);
        lemma_first_index_found(d, key, value);
        if let Some(j) = first_index_spec(d, key, value) {
            assert(d[j] == xs[j + 1]);
        }
    }
}

/// The strings at `key` of the entries that have one, in order.
pub open spec fn keys_of(xs: Seq<JsonV>, key: Seq<char>) -> Seq<Seq<char>>
    decreases xs.len(),
{
    if xs.len() == 0 {
        Seq::empty()
    } else {
        match xs.last().str_at(key) {
            Some(k) => keys_of(xs.drop_last(), key).push(k),
            None => keys_of(xs.drop_last(), key),
        }
    }
}

/// A string is among `keys_of(xs, key)` exactly when some entry has it at
/// `key`.
pub proof fn lemma_keys_of_contains(xs: Seq<JsonV>, key: Seq<char>, p: Seq<char>)
    ensures
        keys_of(xs, key).contains(p) <==> exists|i: int|
            0 <= i < xs.len() && #[trigger] xs[i].str_at(key) == Some(p),
    decreases xs.len(),
{
    if xs.len() > 0 {
        let d = xs.drop_last();
        lemma_keys_of_contains(d, key, p);
        if exists|i: int| 0 <= i < d.len() && #[trigger] d[i].str_at(key) == Some(p) {
            let i = choose|i: int| 0 <= i < d.len() && #[trigger] d[i].str_at(key) == Some(p);
            assert(xs[i].str_at(key) == Some(p));
        }
        if exists|i: int| 0 <= i < xs.len() && #[trigger] xs[i].str_at(key) == Some(p) {
            let i = choose|i: int| 0 <= i < xs.len() && #[trigger] xs[i].str_at(key) == Some(p);
            if i < d.len() {
                assert(d[i].str_at(key) == Some(p));
            }
        }
        match xs.last().str_at(key) {
            Some(q) => {
                let s = keys_of(d, key);
                if s.push(q).contains(p) && p != q {
                    let k = choose|k: int| 0 <= k < s.push(q).len() && s.push(q)[k] == p;
                    assert(s[k] == p);
                }
                if s.contains(p) {
                    let k = choose|k: int| 0 <= k < s.len() && s[k] == p;
                    assert(s.push(q)[k] == p);
                }
                if p == q {
                    assert(s.push(q)[s.len() as int] == p);
                    assert(xs[xs.len() - 1].str_at(key) == Some(p));
                }
            },
            None => {},
        }
    }
}

/// The live entries to delete under `--prune`: those whose string at `key` is
/// not among `declared`, in order.  An entry without a string at `key` cannot
/// be named and is left alone.
pub open spec fn undeclared_spec(live: Seq<JsonV>, key: Seq<char>, declared: Seq<Seq<char>>) -> Seq<
    JsonV,
>
    decreases live.len(),
{
    if live.len() == 0 {
        Seq::empty()
    } else {
        let prev = undeclared_spec(live.drop_last(), key, declared);
        match live.last().str_at(key) {
            Some(k) => if declared.contains(k) {
                prev
            } else {
                prev.push(live.last())
            },
            None => prev,
        }
    }
}

/// The live entries whose string at `key` no declared entry has.
pub fn undeclared(live: &Vec<Json>, key: &str, declared: &Vec<String>) -> (r: Vec<Json>)
    ensures
        elems_view(r@) == undeclared_spec(elems_view(live@), key@, crate::text::strings_view(
            declared@,
        )),
{
    let ghost ev = elems_view(live@);
    let mut out: Vec<Json> = Vec::new();
    let mut i: usize = 0;
    assert(elems_view(out@) =~= Seq::<JsonV>::empty());
    while i < live.len()
        invariant
            i <= live@.len(),
            ev == elems_view(live@),
            elems_view(out@) == undeclared_spec(
                ev.take(i as int),
                key@,
                crate::text::strings_view(declared@),
            ),
        decreases live@.len() - i,
    {
        proof {
            assert(ev.take(i + 1).drop_last() =~= ev.take(i as int));
            assert(ev.take(i + 1).last() == live@[i as int]@);
        }
        match live[i].get(key) {
            Some(v) => match v.as_str() {
                Some(k) => {
                    if !contains_string(declared, k) {
                        let ghost before = out@;
                        out.push(live[i].deep_clone());
                        proof {
                            assert(elems_view(out@) =~= elems_view(before).push(live@[i as int]@));
                        }
                    }
                },
                None => {},
            },
            None => {},
        }
        i = i + 1;
    }
    assert(ev.take(live@.len() as int) =~= ev);
    out
}

/// The strings at `key` of the entries that have one.
pub fn keys_at(xs: &Vec<Json>, key: &str) -> (r: Vec<String>)
    ensures
        crate::text::strings_view(r@) == keys_of(elems_view(xs@), key@),
{
    let ghost ev = elems_view(xs@);
    let mut out: Vec<String> = Vec::new();
    let mut i: usize = 0;
    assert(crate::text::strings_view(out@) =~= Seq::<Seq<char>>::empty());
    while i < xs.len()
        invariant
            i <= xs@.len(),
            ev == elems_view(xs@),
            crate::text::strings_view(out@) == keys_of(ev.take(i as int), key@),
        decreases xs@.len() - i,
    {
        proof {
            assert(ev.take(i + 1).drop_last() =~= ev.take(i as int));
            assert(ev.take(i + 1).last() == xs@[i as int]@);
        }
        match xs[i].get(key) {
            Some(v) => match v.as_str() {
                Some(k) => {
                    let ghost before = out@;
                    out.push(k.to_owned());
                    proof {
                        assert(crate::text::strings_view(out@) =~= crate::text::strings_view(
                            before,
                        ).push(k@));
                    }
                },
                None => {},
            },
            None => {},
        }
        i = i + 1;
    }
    assert(ev.take(xs@.len() as int) =~= ev);
    out
}

/// The index of the first entry whose string at `key` is `value`.
pub open spec fn first_index_spec(xs: Seq<JsonV>, key: Seq<char>, value: Seq<char>) -> Option<int>
    decreases xs.len(),
{
    if xs.len() == 0 {
        None
    } else if xs[0].str_at(key) == Some(value) {
        Some(0)
    } else {
        match first_index_spec(xs.drop_first(), key, value) {
            Some(j) => Some(j + 1),
            None => None,
        }
    }
}

/// The index of the first entry whose string at `key` is `value`.
pub fn position_with_str(xs: &Vec<Json>, key: &str, value: &str) -> (r: Option<usize>)
    ensures
        match r {
            Some(i) => first_index_spec(elems_view(xs@), key@, value@) == Some(i as int),
            None => first_index_spec(elems_view(xs@), key@, value@) is None,
        },
{
    let ghost ev = elems_view(xs@);
    let mut i: usize = 0;
    while i < xs.len()
        invariant
            i <= xs@.len(),
            ev == elems_view(xs@),
            forall|j: int| 0 <= j < i ==> (#[trigger] ev[j]).str_at(key@) != Some(value@),
        decreases xs@.len() - i,
    {
        let here = match xs[i].get(key) {
            Some(v) => match v.as_str() {
                Some(s) => crate::json::str_equal(s, value),
                None => false,
            },
            None => false,
        };
        if here {
            proof {
                lemma_first_index_at(ev, key@, value@, i as int);
            }
            return Some(i);
        }
        i = i + 1;
    }
    proof {
        lemma_first_index_none(ev, key@, value@);
    }
    None
}

pub proof fn lemma_first_index_at(xs: Seq<JsonV>, key: Seq<char>, value: Seq<char>, i: int)
    requires
        0 <= i < xs.len(),
        xs[i].str_at(key) == Some(value),
        forall|j: int| 0 <= j < i ==> (#[trigger] xs[j]).str_at(key) != Some(value),
    ensures
        first_index_spec(xs, key, value) == Some(i),
    decreases i,
{
    if i > 0 {
        let d = xs.drop_first();
        assert forall|j: int| 0 <= j < i - 1 implies (#[trigger] d[j]).str_at(key) != Some(value) by {
            assert(d[j] == xs[j + 1]);
        }
        assert(xs[0].str_at(key) != Some(value));
        lemma_first_index_at(d, key, value, i - 1);
    }
}

pub proof fn lemma_first_index_none(xs: Seq<JsonV>, key: Seq<char>, value: Seq<char>)
    requires
        forall|j: int| 0 <= j < xs.len() ==> (#[trigger] xs[j]).str_at(key) != Some(value),
    ensures
        first_index_spec(xs, key, value) is None,
    decreases xs.len(),
{
    if xs.len() > 0 {
        let d = xs.drop_first();
        assert forall|j: int| 0 <= j < d.len() implies (#[trigger] d[j]).str_at(key) != Some(value) by {
            assert(d[j] == xs[j + 1]);
        }
        assert(xs[0].str_at(key) != Some(value));
        lemma_first_index_none(d, key, value);
    }
}

/// A found index is in range and names a matching entry.
pub proof fn lemma_first_index_found(xs: Seq<JsonV>, key: Seq<char>, value: Seq<char>)
    ensures
        first_index_spec(xs, key, value) matches Some(j) ==> 0 <= j < xs.len() && xs[j].str_at(key)
            == Some(value),
    decreases xs.len(),
{
    if xs.len() > 0 && xs[0].str_at(key) != Some(value) {
        lemma_first_index_found(xs.drop_first(), key, value);
    }
}

/// The step a keyed collection takes for one declared entry.
#[derive(PartialEq, Eq, Structural, Debug, Clone, Copy)]
pub enum KeyedStep {
    /// No live entry has the declared key: create it.
    Create,
    /// The live entry at this index has the key but differs: update it.
    Update(usize),
    /// The live entry at this index has the key and is in sync.
    Unchanged(usize),
}

/// The view of a [`KeyedStep`].
pub enum KeyedStepV {
    Create,
    Update(int),
    Unchanged(int),
}

/// The view of a [`KeyedStep`].
pub open spec fn step_view(s: KeyedStep) -> KeyedStepV {
    match s {
        KeyedStep::Create => KeyedStepV::Create,
        KeyedStep::Update(j) => KeyedStepV::Update(j as int),
        KeyedStep::Unchanged(j) => KeyedStepV::Unchanged(j as int),
    }
}

/// The step for declared entry `d`: matched to the first live entry with the
/// same string at `key` (an entry without one matches nothing), then
/// unchanged when `synced` holds of the pair, updated when not; created when
/// unmatched.
pub open spec fn keyed_step_spec(
    d: JsonV,
    live: Seq<JsonV>,
    key: Seq<char>,
    synced: spec_fn(JsonV, JsonV) -> bool,
) -> KeyedStepV {
    match d.str_at(key) {
        None => KeyedStepV::Create,
        Some(k) => match first_index_spec(live, key, k) {
            None => KeyedStepV::Create,
            Some(j) => if synced(d, live[j]) {
                KeyedStepV::Unchanged(j)
            } else {
                KeyedStepV::Update(j)
            },
        },
    }
}

/// What a keyed reconcile reports of one entry: the kind of change and the
/// entry's name (its string at the key, empty when it has none).
pub struct KeyedReport {
    pub kind: ChangeKind,
    pub name: String,
}

/// The view of a [`KeyedReport`].
pub struct KeyedReportV {
    pub kind: ChangeKind,
    pub name: Seq<char>,
}

impl View for KeyedReport {
    type V = KeyedReportV;

    open spec fn view(&self) -> KeyedReportV {
        KeyedReportV { kind: self.kind, name: self.name@ }
    }
}

/// A write of a keyed collection, by position: create declared entry `i`,
/// update live entry `live` to declared entry `desired`, delete live entry
/// `j`.
#[derive(PartialEq, Eq, Structural, Debug, Clone, Copy)]
pub enum KeyedWrite {
    Create(usize),
    Update { live: usize, desired: usize },
    Delete(usize),
}

/// The outcome of a keyed reconcile: the changes reported and the writes to
/// make, each in order (no writes in a plan run).
pub struct KeyedRun {
    pub reports: Vec<KeyedReport>,
    pub writes: Vec<KeyedWrite>,
}

/// The view of a [`KeyedRun`].
pub struct KeyedRunV {
    pub reports: Seq<KeyedReportV>,
    pub writes: Seq<KeyedWrite>,
}

impl View for KeyedRun {
    type V = KeyedRunV;

    open spec fn view(&self) -> KeyedRunV {
        KeyedRunV { reports: self.reports@.map_values(|r: KeyedReport| r@), writes: self.writes@ }
    }
}

/// The run so far with a report added and, in an apply run, the write `w`.
pub open spec fn keyed_record(
    s: KeyedRunV,
    kind: ChangeKind,
    name: Seq<char>,
    execute: bool,
    w: Option<KeyedWrite>,
) -> KeyedRunV {
    KeyedRunV {
        reports: s.reports.push(KeyedReportV { kind, name }),
        writes: match w {
            Some(w) => if execute {
                s.writes.push(w)
            } else {
                s.writes
            },
            None => s.writes,
        },
    }
}

/// The run over the first `n` declared entries and their steps: a create is
/// reported created and written, an update reported updated and written, an
/// unchanged entry reported unchanged.
pub open spec fn keyed_declared_run(
    desired: Seq<JsonV>,
    steps: Seq<KeyedStep>,
    key: Seq<char>,
    execute: bool,
    n: int,
) -> KeyedRunV
    decreases n,
{
    if n <= 0 {
        KeyedRunV { reports: Seq::empty(), writes: Seq::empty() }
    } else {
        let prev = keyed_declared_run(desired, steps, key, execute, n - 1);
        let name = str_or_empty(desired[n - 1], key);
        match steps[n - 1] {
            KeyedStep::Create => keyed_record(
                prev,
                ChangeKind::Created,
                name,
                execute,
                Some(KeyedWrite::Create((n - 1) as usize)),
            ),
            KeyedStep::Update(j) => keyed_record(
                prev,
                ChangeKind::Updated,
                name,
                execute,
                Some(KeyedWrite::Update { live: j, desired: (n - 1) as usize }),
            ),
            KeyedStep::Unchanged(_) => keyed_record(prev, ChangeKind::Unchanged, name, execute, None),
        }
    }
}

/// The run continued over the first `n` live entries under `--prune`: each
/// whose string at `key` is not among `declared` is reported deleted (by that
/// string) and deleted.
pub open spec fn keyed_prune_run(
    s: KeyedRunV,
    live: Seq<JsonV>,
    key: Seq<char>,
    declared: Seq<Seq<char>>,
    execute: bool,
    n: int,
) -> KeyedRunV
    decreases n,
{
    if n <= 0 {
        s
    } else {
        let prev = keyed_prune_run(s, live, key, declared, execute, n - 1);
        match live[n - 1].str_at(key) {
            Some(k) => if declared.contains(k) {
                prev
            } else {
                keyed_record(prev, ChangeKind::Deleted, k, execute, Some(KeyedWrite::Delete((n - 1) as usize)))
            },
            None => prev,
        }
    }
}

/// The whole keyed run: the declared entries with their steps (as many as
/// there are both), then under `--prune` the live entries no declared entry
/// names.
pub open spec fn keyed_run_spec(
    desired: Seq<JsonV>,
    live: Seq<JsonV>,
    steps: Seq<KeyedStep>,
    key: Seq<char>,
    prune: bool,
    execute: bool,
) -> KeyedRunV {
    let n = if desired.len() < steps.len() {
        desired.len()
    } else {
        steps.len()
    };
    let d = keyed_declared_run(desired, steps, key, execute, n as int);
    if prune {
        keyed_prune_run(d, live, key, keys_of(desired, key), execute, live.len() as int)
    } else {
        d
    }
}

proof fn lemma_keyed_declared_alike(
    desired: Seq<JsonV>,
    steps: Seq<KeyedStep>,
    key: Seq<char>,
    n: int,
)
    ensures
        keyed_declared_run(desired, steps, key, false, n).reports == keyed_declared_run(
            desired,
            steps,
            key,
            true,
            n,
        ).reports,
        keyed_declared_run(desired, steps, key, false, n).writes.len() == 0,
    decreases n,
{
    if n > 0 {
        lemma_keyed_declared_alike(desired, steps, key, n - 1);
    }
}

proof fn lemma_keyed_prune_alike(
    a: KeyedRunV,
    b: KeyedRunV,
    live: Seq<JsonV>,
    key: Seq<char>,
    declared: Seq<Seq<char>>,
    n: int,
)
    requires
        a.reports == b.reports,
        a.writes.len() == 0,
    ensures
        keyed_prune_run(a, live, key, declared, false, n).reports == keyed_prune_run(
            b,
            live,
            key,
            declared,
            true,
            n,
        ).reports,
        keyed_prune_run(a, live, key, declared, false, n).writes.len() == 0,
    decreases n,
{
    if n > 0 {
        lemma_keyed_prune_alike(a, b, live, key, declared, n - 1);
    }
}

/// A plan run of a keyed collection reports what an apply run reports, in
/// the same order, and makes no write.
pub proof fn law_keyed_plan_run_matches_apply_run(
    desired: Seq<JsonV>,
    live: Seq<JsonV>,
    steps: Seq<KeyedStep>,
    key: Seq<char>,
    prune: bool,
)
    ensures
        keyed_run_spec(desired, live, steps, key, prune, false).reports == keyed_run_spec(
            desired,
            live,
            steps,
            key,
            prune,
            true,
        ).reports,
        keyed_run_spec(desired, live, steps, key, prune, false).writes.len() == 0,
{
    let n = if desired.len() < steps.len() {
        desired.len()
    } else {
        steps.len()
    };
    lemma_keyed_declared_alike(desired, steps, key, n as int);
    lemma_keyed_prune_alike(
        keyed_declared_run(desired, steps, key, false, n as int),
        keyed_declared_run(desired, steps, key, true, n as int),
        live,
        key,
        keys_of(desired, key),
        live.len() as int,
    );
}

/// In an apply run every write names a declared or live entry that exists,
/// as long as each update step names a live entry: creates and updates name
/// declared entries, updates and deletes live ones.
pub proof fn law_keyed_writes_in_range(
    desired: Seq<JsonV>,
    live: Seq<JsonV>,
    steps: Seq<KeyedStep>,
    key: Seq<char>,
    prune: bool,
)
    requires
        desired.len() <= usize::MAX,
        live.len() <= usize::MAX,
        forall|i: int| 0 <= i < steps.len() ==> (#[trigger] steps[i] matches KeyedStep::Update(j) ==> j
            < live.len()),
    ensures
        forall|m: int|
            0 <= m < keyed_run_spec(desired, live, steps, key, prune, true).writes.len()
                ==> write_in_range(
                #[trigger] keyed_run_spec(desired, live, steps, key, prune, true).writes[m],
                desired.len() as int,
                live.len() as int,
            ),
{
    let n = if desired.len() < steps.len() {
        desired.len()
    } else {
        steps.len()
    };
    lemma_keyed_declared_in_range(desired, live, steps, key, n as int);
    if prune {
        lemma_keyed_prune_in_range(
            keyed_declared_run(desired, steps, key, true, n as int),
            desired.len() as int,
            live,
            key,
            keys_of(desired, key),
            live.len() as int,
        );
    }
}

/// Whether a write's positions lie within `nd` declared and `nl` live
/// entries.
pub open spec fn write_in_range(w: KeyedWrite, nd: int, nl: int) -> bool {
    match w {
        KeyedWrite::Create(i) => i < nd,
        KeyedWrite::Update { live, desired } => live < nl && desired < nd,
        KeyedWrite::Delete(j) => j < nl,
    }
}

proof fn lemma_keyed_declared_in_range(
    desired: Seq<JsonV>,
    live: Seq<JsonV>,
    steps: Seq<KeyedStep>,
    key: Seq<char>,
    n: int,
)
    requires
        n <= desired.len(),
        n <= steps.len(),
        desired.len() <= usize::MAX,
        forall|i: int| 0 <= i < steps.len() ==> (#[trigger] steps[i] matches KeyedStep::Update(j) ==> j
            < live.len()),
    ensures
        forall|m: int|
            0 <= m < keyed_declared_run(desired, steps, key, true, n).writes.len() ==> write_in_range(
                #[trigger] keyed_declared_run(desired, steps, key, true, n).writes[m],
                desired.len() as int,
                live.len() as int,
            ),
    decreases n,
{
    if n > 0 {
        lemma_keyed_declared_in_range(desired, live, steps, key, n - 1);
        let prev = keyed_declared_run(desired, steps, key, true, n - 1);
        let cur = keyed_declared_run(desired, steps, key, true, n);
        assert(steps[n - 1] matches KeyedStep::Update(j) ==> j < live.len());
        assert forall|m: int| 0 <= m < cur.writes.len() implies write_in_range(
            #[trigger] cur.writes[m],
            desired.len() as int,
            live.len() as int,
        ) by {
            if m < prev.writes.len() {
                assert(cur.writes[m] == prev.writes[m]);
            }
        }
    }
}

proof fn lemma_keyed_prune_in_range(
    s: KeyedRunV,
    nd: int,
    live: Seq<JsonV>,
    key: Seq<char>,
    declared: Seq<Seq<char>>,
    n: int,
)
    requires
        n <= live.len(),
        live.len() <= usize::MAX,
        forall|m: int| 0 <= m < s.writes.len() ==> write_in_range(#[trigger] s.writes[m], nd, live.len() as int),
    ensures
        forall|m: int|
            0 <= m < keyed_prune_run(s, live, key, declared, true, n).writes.len() ==> write_in_range(
                #[trigger] keyed_prune_run(s, live, key, declared, true, n).writes[m],
                nd,
                live.len() as int,
            ),
    decreases n,
{
    if n > 0 {
        lemma_keyed_prune_in_range(s, nd, live, key, declared, n - 1);
        let prev = keyed_prune_run(s, live, key, declared, true, n - 1);
        let cur = keyed_prune_run(s, live, key, declared, true, n);
        assert forall|m: int| 0 <= m < cur.writes.len() implies write_in_range(
            #[trigger] cur.writes[m],
            nd,
            live.len() as int,
        ) by {
            if m < prev.writes.len() {
                assert(cur.writes[m] == prev.writes[m]);
            }
        }
    }
}

proof fn lemma_keyed_prune_deletes(
    s: KeyedRunV,
    live: Seq<JsonV>,
    key: Seq<char>,
    declared: Seq<Seq<char>>,
    n: int,
    j: int,
    k: Seq<char>,
)
    requires
        0 <= j < n <= live.len(),
        live.len() <= usize::MAX,
        live[j].str_at(key) == Some(k),
        !declared.contains(k),
    ensures
        keyed_prune_run(s, live, key, declared, true, n).writes.contains(KeyedWrite::Delete(j as usize)),
        keyed_prune_run(s, live, key, declared, true, n).reports.contains(
            KeyedReportV { kind: ChangeKind::Deleted, name: k },
        ),
    decreases n,
{
    let cur = keyed_prune_run(s, live, key, declared, true, n);
    let prev = keyed_prune_run(s, live, key, declared, true, n - 1);
    if j == n - 1 {
        assert(cur.writes == prev.writes.push(KeyedWrite::Delete(j as usize)));
        assert(cur.writes[prev.writes.len() as int] == KeyedWrite::Delete(j as usize));
        assert(cur.reports[prev.reports.len() as int] == KeyedReportV { kind: ChangeKind::Deleted, name: k });
    } else {
        lemma_keyed_prune_deletes(s, live, key, declared, n - 1, j, k);
        let wi = choose|wi: int| 0 <= wi < prev.writes.len() && prev.writes[wi] == KeyedWrite::Delete(j as usize);
        let ri = choose|ri: int|
            0 <= ri < prev.reports.len() && prev.reports[ri] == KeyedReportV { kind: ChangeKind::Deleted, name: k };
        assert(cur.writes[wi] == prev.writes[wi]);
        assert(cur.reports[ri] == prev.reports[ri]);
    }
}

/// A write that is a delete names live entry `j < n` whose string at the key
/// is not among `declared`.
pub open spec fn delete_is_undeclared(
    w: KeyedWrite,
    live: Seq<JsonV>,
    key: Seq<char>,
    declared: Seq<Seq<char>>,
    n: int,
) -> bool {
    match w {
        KeyedWrite::Delete(j) => j < n && match live[j as int].str_at(key) {
            Some(k) => !declared.contains(k),
            None => false,
        },
        _ => true,
    }
}

proof fn lemma_keyed_prune_deletes_only_undeclared(
    s: KeyedRunV,
    live: Seq<JsonV>,
    key: Seq<char>,
    declared: Seq<Seq<char>>,
    n: int,
)
    requires
        0 <= n <= live.len(),
        live.len() <= usize::MAX,
        forall|m: int| 0 <= m < s.writes.len() ==> !(#[trigger] s.writes[m] is Delete),
    ensures
        forall|m: int|
            0 <= m < keyed_prune_run(s, live, key, declared, true, n).writes.len() ==> delete_is_undeclared(
                #[trigger] keyed_prune_run(s, live, key, declared, true, n).writes[m],
                live,
                key,
                declared,
                n,
            ),
    decreases n,
{
    if n > 0 {
        lemma_keyed_prune_deletes_only_undeclared(s, live, key, declared, n - 1);
        let prev = keyed_prune_run(s, live, key, declared, true, n - 1);
        let cur = keyed_prune_run(s, live, key, declared, true, n);
        assert forall|m: int| 0 <= m < cur.writes.len() implies delete_is_undeclared(
            #[trigger] cur.writes[m],
            live,
            key,
            declared,
            n,
        ) by {
            if m < prev.writes.len() {
                assert(cur.writes[m] == prev.writes[m]);
            }
        }
    }
}

proof fn lemma_keyed_declared_no_deletes(
    desired: Seq<JsonV>,
    steps: Seq<KeyedStep>,
    key: Seq<char>,
    n: int,
)
    ensures
        forall|m: int|
            0 <= m < keyed_declared_run(desired, steps, key, true, n).writes.len() ==> !(
            #[trigger] keyed_declared_run(desired, steps, key, true, n).writes[m] is Delete),
    decreases n,
{
    if n > 0 {
        lemma_keyed_declared_no_deletes(desired, steps, key, n - 1);
        let prev = keyed_declared_run(desired, steps, key, true, n - 1);
        let cur = keyed_declared_run(desired, steps, key, true, n);
        assert forall|m: int| 0 <= m < cur.writes.len() implies !(#[trigger] cur.writes[m] is Delete) by {
            if m < prev.writes.len() {
                assert(cur.writes[m] == prev.writes[m]);
            }
        }
    }
}

/// Under `--prune`, an apply run deletes every live entry whose string at the
/// key no declared entry has, and reports it deleted under that string.
pub proof fn law_keyed_prune_deletes_every_undeclared(
    desired: Seq<JsonV>,
    live: Seq<JsonV>,
    steps: Seq<KeyedStep>,
    key: Seq<char>,
    j: int,
    k: Seq<char>,
)
    requires
        0 <= j < live.len(),
        live.len() <= usize::MAX,
        live[j].str_at(key) == Some(k),
        forall|i: int| 0 <= i < desired.len() ==> (#[trigger] desired[i]).str_at(key) != Some(k),
    ensures
        keyed_run_spec(desired, live, steps, key, true, true).writes.contains(KeyedWrite::Delete(j as usize)),
        keyed_run_spec(desired, live, steps, key, true, true).reports.contains(
            KeyedReportV { kind: ChangeKind::Deleted, name: k },
        ),
{
    lemma_keys_of_contains(desired, key, k);
    let n = if desired.len() < steps.len() {
        desired.len()
    } else {
        steps.len()
    };
    lemma_keyed_prune_deletes(
        keyed_declared_run(desired, steps, key, true, n as int),
        live,
        key,
        keys_of(desired, key),
        live.len() as int,
        j,
        k,
    );
}

/// Only what is no longer declared is deleted: every delete of an apply run
/// names a live entry whose string at the key no declared entry has, and
/// without `--prune` nothing is deleted.
pub proof fn law_keyed_deletes_only_undeclared(
    desired: Seq<JsonV>,
    live: Seq<JsonV>,
    steps: Seq<KeyedStep>,
    key: Seq<char>,
    prune: bool,
    m: int,
)
    requires
        live.len() <= usize::MAX,
        0 <= m < keyed_run_spec(desired, live, steps, key, prune, true).writes.len(),
        keyed_run_spec(desired, live, steps, key, prune, true).writes[m] is Delete,
    ensures
        prune,
        match keyed_run_spec(desired, live, steps, key, prune, true).writes[m] {
            KeyedWrite::Delete(j) => j < live.len() && match live[j as int].str_at(key) {
                Some(k) => forall|i: int|
                    0 <= i < desired.len() ==> (#[trigger] desired[i]).str_at(key) != Some(k),
                None => false,
            },
            _ => false,
        },
{
    let n = if desired.len() < steps.len() {
        desired.len()
    } else {
        steps.len()
    };
    lemma_keyed_declared_no_deletes(desired, steps, key, n as int);
    if prune {
        lemma_keyed_prune_deletes_only_undeclared(
            keyed_declared_run(desired, steps, key, true, n as int),
            live,
            key,
            keys_of(desired, key),
            live.len() as int,
        );
        let w = keyed_run_spec(desired, live, steps, key, prune, true).writes[m];
        let j = w->Delete_0;
        let k = live[j as int].str_at(key)->0;
        lemma_keys_of_contains(desired, key, k);
        assert forall|i: int| 0 <= i < desired.len() implies (#[trigger] desired[i]).str_at(key) != Some(k) by {
            if desired[i].str_at(key) == Some(k) {
                assert(keys_of(desired, key).contains(k));
            }
        }
    }
}

/// The report a step gives a declared entry named `name`.
pub open spec fn step_report(step: KeyedStep, name: Seq<char>) -> KeyedReportV {
    KeyedReportV {
        kind: match step {
            KeyedStep::Create => ChangeKind::Created,
            KeyedStep::Update(_) => ChangeKind::Updated,
            KeyedStep::Unchanged(_) => ChangeKind::Unchanged,
        },
        name,
    }
}

proof fn lemma_keyed_declared_reports(
    desired: Seq<JsonV>,
    steps: Seq<KeyedStep>,
    key: Seq<char>,
    execute: bool,
    n: int,
    i: int,
)
    requires
        0 <= i < n <= desired.len(),
        n <= steps.len(),
        desired.len() <= usize::MAX,
    ensures
        keyed_declared_run(desired, steps, key, execute, n).reports.len() == n,
        keyed_declared_run(desired, steps, key, execute, n).reports[i] == step_report(
            steps[i],
            str_or_empty(desired[i], key),
        ),
        execute && steps[i] is Create ==> keyed_declared_run(desired, steps, key, execute, n).writes.contains(
            KeyedWrite::Create(i as usize),
        ),
        execute ==> (steps[i] matches KeyedStep::Update(j) ==> keyed_declared_run(
            desired,
            steps,
            key,
            execute,
            n,
        ).writes.contains(KeyedWrite::Update { live: j, desired: i as usize })),
    decreases n,
{
    lemma_keyed_declared_len(desired, steps, key, execute, n);
    let cur = keyed_declared_run(desired, steps, key, execute, n);
    let prev = keyed_declared_run(desired, steps, key, execute, n - 1);
    if i == n - 1 {
        lemma_keyed_declared_len(desired, steps, key, execute, n - 1);
        if execute && !(steps[i] is Unchanged) {
            assert(cur.writes[prev.writes.len() as int] == cur.writes.last());
        }
    } else {
        lemma_keyed_declared_reports(desired, steps, key, execute, n - 1, i);
        assert(cur.reports[i] == prev.reports[i]);
        if execute && !(steps[i] is Unchanged) {
            let w = if steps[i] is Create {
                KeyedWrite::Create(i as usize)
            } else {
                KeyedWrite::Update { live: steps[i]->Update_0, desired: i as usize }
            };
            let wi = choose|wi: int| 0 <= wi < prev.writes.len() && prev.writes[wi] == w;
            assert(cur.writes[wi] == prev.writes[wi]);
        }
    }
}

proof fn lemma_keyed_declared_len(
    desired: Seq<JsonV>,
    steps: Seq<KeyedStep>,
    key: Seq<char>,
    execute: bool,
    n: int,
)
    requires
        0 <= n,
    ensures
        keyed_declared_run(desired, steps, key, execute, n).reports.len() == n,
    decreases n,
{
    if n > 0 {
        lemma_keyed_declared_len(desired, steps, key, execute, n - 1);
    }
}

proof fn lemma_keyed_prune_keeps(
    s: KeyedRunV,
    live: Seq<JsonV>,
    key: Seq<char>,
    declared: Seq<Seq<char>>,
    execute: bool,
    n: int,
)
    ensures
        keyed_prune_run(s, live, key, declared, execute, n).reports.len() >= s.reports.len(),
        forall|m: int|
            0 <= m < s.reports.len() ==> #[trigger] keyed_prune_run(
                s,
                live,
                key,
                declared,
                execute,
                n,
            ).reports[m] == s.reports[m],
        forall|w: KeyedWrite|
            #[trigger] s.writes.contains(w) ==> keyed_prune_run(s, live, key, declared, execute, n).writes.contains(
                w,
            ),
    decreases n,
{
    if n > 0 {
        lemma_keyed_prune_keeps(s, live, key, declared, execute, n - 1);
        let prev = keyed_prune_run(s, live, key, declared, execute, n - 1);
        let cur = keyed_prune_run(s, live, key, declared, execute, n);
        assert forall|m: int| 0 <= m < s.reports.len() implies #[trigger] cur.reports[m] == s.reports[m] by {
            assert(prev.reports[m] == s.reports[m]);
        }
        assert forall|w: KeyedWrite| #[trigger] s.writes.contains(w) implies cur.writes.contains(w) by {
            let wi = choose|wi: int| 0 <= wi < prev.writes.len() && prev.writes[wi] == w;
            assert(cur.writes[wi] == prev.writes[wi]);
        }
    }
}

/// Each declared entry that has a step is reported first, in order: report
/// `i` says created, updated or unchanged as step `i` does, under the entry's
/// string at the key; an apply run writes a create for each create step and
/// an update of the named live entry for each update step.
pub proof fn law_keyed_reports_follow_steps(
    desired: Seq<JsonV>,
    live: Seq<JsonV>,
    steps: Seq<KeyedStep>,
    key: Seq<char>,
    prune: bool,
    execute: bool,
    i: int,
)
    requires
        0 <= i < desired.len(),
        i < steps.len(),
        desired.len() <= usize::MAX,
    ensures
        keyed_run_spec(desired, live, steps, key, prune, execute).reports[i] == step_report(
            steps[i],
            str_or_empty(desired[i], key),
        ),
        execute && steps[i] is Create ==> keyed_run_spec(
            desired,
            live,
            steps,
            key,
            prune,
            execute,
        ).writes.contains(KeyedWrite::Create(i as usize)),
        execute ==> (steps[i] matches KeyedStep::Update(j) ==> keyed_run_spec(
            desired,
            live,
            steps,
            key,
            prune,
            execute,
        ).writes.contains(KeyedWrite::Update { live: j, desired: i as usize })),
{
    let n = if desired.len() < steps.len() {
        desired.len()
    } else {
        steps.len()
    };
    lemma_keyed_declared_reports(desired, steps, key, execute, n as int, i);
    lemma_keyed_prune_keeps(
        keyed_declared_run(desired, steps, key, execute, n as int),
        live,
        key,
        keys_of(desired, key),
        execute,
        live.len() as int,
    );
}

fn keyed_push(out: &mut KeyedRun, kind: ChangeKind, name: String, execute: bool, w: Option<KeyedWrite>)
    ensures
        final(out)@ == keyed_record(old(out)@, kind, name@, execute, w),
{
    let ghost before = out.reports@;
    let report = KeyedReport { kind, name };
    out.reports.push(report);
    proof {
        assert(out.reports@.map_values(|r: KeyedReport| r@) =~= before.map_values(
            |r: KeyedReport| r@,
        ).push(report@));
    }
    if execute {
        match w {
            Some(w) => {
                out.writes.push(w);
            },
            None => {},
        }
    }
}

/// Carries out the steps a keyed collection planned for its declared
/// entries, in order, then under `--prune` deletes the live entries whose key
/// no declared entry has: the changes to report and, when `execute` is set,
/// the writes to make.
pub fn keyed_run(
    desired: &Vec<Json>,
    live: &Vec<Json>,
    steps: &Vec<KeyedStep>,
    key: &str,
    prune: bool,
    execute: bool,
) -> (r: KeyedRun)
    ensures
        r@ == keyed_run_spec(elems_view(desired@), elems_view(live@), steps@, key@, prune, execute),
{
    let ghost dv = elems_view(desired@);
    let ghost lv = elems_view(live@);
    let mut out = KeyedRun { reports: Vec::new(), writes: Vec::new() };
    proof {
        assert(out@.reports =~= Seq::empty());
    }
    let n: usize = if desired.len() < steps.len() {
        desired.len()
    } else {
        steps.len()
    };
    let mut i: usize = 0;
    while i < n
        invariant
            i <= n,
            n <= desired@.len(),
            n <= steps@.len(),
            dv == elems_view(desired@),
            out@ == keyed_declared_run(dv, steps@, key@, execute, i as int),
        decreases n - i,
    {
        let name = string_at(&desired[i], key);
        match steps[i] {
            KeyedStep::Create => keyed_push(&mut out, ChangeKind::Created, name, execute, Some(KeyedWrite::Create(i))),
            KeyedStep::Update(j) => keyed_push(
                &mut out,
                ChangeKind::Updated,
                name,
                execute,
                Some(KeyedWrite::Update { live: j, desired: i }),
            ),
            KeyedStep::Unchanged(_) => keyed_push(&mut out, ChangeKind::Unchanged, name, execute, None),
        }
        i = i + 1;
    }
    if prune {
        let declared = keys_at(desired, key);
        let ghost d = out@;
        let mut j: usize = 0;
        while j < live.len()
            invariant
                j <= live@.len(),
                lv == elems_view(live@),
                dv == elems_view(desired@),
                crate::text::strings_view(declared@) == keys_of(dv, key@),
                out@ == keyed_prune_run(d, lv, key@, keys_of(dv, key@), execute, j as int),
            decreases live@.len() - j,
        {
            match live[j].get(key) {
                Some(v) => match v.as_str() {
                    Some(k) => {
                        if !contains_string(&declared, k) {
                            keyed_push(&mut out, ChangeKind::Deleted, k.to_owned(), execute, Some(KeyedWrite::Delete(j)));
                        }
                    },
                    None => {},
                },
                None => {},
            }
            j = j + 1;
        }
    }
    out
}

/// The live entry matched to declared entry `d`, if any.
pub fn match_live(d: &Json, live: &Vec<Json>, key: &str) -> (r: Option<usize>)
    ensures
        match r {
            Some(j) => j < live@.len() && (d@.str_at(key@) matches Some(k) && first_index_spec(
                elems_view(live@),
                key@,
                k,
            ) == Some(j as int)),
            None => match d@.str_at(key@) {
                Some(k) => first_index_spec(elems_view(live@), key@, k) is None,
                None => true,
            },
        },
{
    match d.get(key) {
        Some(v) => match v.as_str() {
            Some(k) => {
                let r = position_with_str(live, key, k);
                proof {
                    lemma_first_index_found(elems_view(live@), key@, k@);
                }
                r
            },
            None => None,
        },
        None => None,
    }
}

/// With the live list equal to the declared one, keys distinct and the sync
/// check reflexive, every declared entry is matched to itself and unchanged.
pub proof fn law_keyed_plan_of_converged_state(
    desired: Seq<JsonV>,
    key: Seq<char>,
    synced: spec_fn(JsonV, JsonV) -> bool,
    i: int,
)
    requires
        0 <= i < desired.len(),
        forall|m: int| 0 <= m < desired.len() ==> (#[trigger] desired[m]).str_at(key) is Some,
        forall|m: int, n: int|
            0 <= m < n < desired.len() ==> (#[trigger] desired[m]).str_at(key) != (
            #[trigger] desired[n]).str_at(key),
        forall|v: JsonV| #[trigger] synced(v, v),
    ensures
        keyed_step_spec(desired[i], desired, key, synced) == KeyedStepV::Unchanged(i),
{
    let k = desired[i].str_at(key)->0;
    assert forall|j: int| 0 <= j < i implies (#[trigger] desired[j]).str_at(key) != Some(k) by {}
    lemma_first_index_at(desired, key, k, i);
    assert(synced(desired[i], desired[i]));
}

/// A number that compares equal to itself as a double: anything but a
/// not-a-number.
pub open spec fn self_equal_number(v: JsonV) -> bool {
    match v {
        JsonV::Number(n) => !(crate::numeric::number_double(n) is NotANumber),
        _ => true,
    }
}

/// A declared integer setting is in sync with a live integer exactly when
/// they are the same integer, for integers of magnitude below `2^53`: `10`
/// against `5` is a change to write, `5` against `5` is not.
pub proof fn law_small_integer_field_in_sync_iff_equal(a: crate::json::NumberV, b: crate::json::NumberV)
    requires
        crate::numeric::small_int(a),
        crate::numeric::small_int(b),
    ensures
        field_in_sync_spec(JsonV::Number(a), Some(JsonV::Number(b))) <==> crate::numeric::number_int(a)
            == crate::numeric::number_int(b),
{
    crate::numeric::law_small_integers_equal_as_doubles_iff_equal(a, b);
}

/// A declared settings object is in sync with live settings equal to it, as
/// long as none of its top-level numbers is a not-a-number (which no JSON
/// text can hold).
pub proof fn law_fields_in_sync_reflexive(w: JsonV)
    requires
        w matches JsonV::Object(es) && forall|i: int|
            0 <= i < es.len() ==> self_equal_number(#[trigger] es[i].1),
    ensures
        fields_in_sync_spec(w, w),
{
    if let JsonV::Object(es) = w {
        assert forall|i: int| 0 <= i < es.len() && is_last(es, i) implies #[trigger] field_in_sync_spec(
            es[i].1,
            w.get(es[i].0),
        ) by {
            crate::json::lemma_obj_get_last(es, i);
            crate::json::lemma_json_eq_refl(es[i].1);
            assert(self_equal_number(es[i].1));
        }
    }
}

/// Whether two lists hold the same strings in the same order.
pub fn strings_equal(a: &Vec<String>, b: &Vec<String>) -> (r: bool)
    ensures
        r == (crate::text::strings_view(a@) == crate::text::strings_view(b@)),
{
    if a.len() != b.len() {
        return false;
    }
    let mut i: usize = 0;
    while i < a.len()
        invariant
            i <= a@.len(),
            a@.len() == b@.len(),
            forall|j: int| 0 <= j < i ==> a@[j]@ == b@[j]@,
        decreases a@.len() - i,
    {
        if !crate::json::str_equal(a[i].as_str(), b[i].as_str()) {
            assert(crate::text::strings_view(a@)[i as int] != crate::text::strings_view(b@)[i as int]);
            return false;
        }
        i = i + 1;
    }
    assert(crate::text::strings_view(a@) =~= crate::text::strings_view(b@));
    true
}

/// Two lists that each hold every element of the other hold the same set.
pub proof fn lemma_same_sets<V>(a: Seq<V>, b: Seq<V>)
    requires
        forall|i: int| 0 <= i < a.len() ==> b.contains(#[trigger] a[i]),
        forall|j: int| 0 <= j < b.len() ==> a.contains(#[trigger] b[j]),
    ensures
        a.to_set() == b.to_set(),
{
    assert forall|x: V| a.to_set().contains(x) <==> b.to_set().contains(x) by {
        if a.contains(x) {
            let i = choose|i: int| 0 <= i < a.len() && a[i] == x;
            assert(b.contains(a[i]));
        }
        if b.contains(x) {
            let j = choose|j: int| 0 <= j < b.len() && b[j] == x;
            assert(a.contains(b[j]));
        }
    }
    assert(a.to_set() =~= b.to_set());
}

/// The live settings after a flat write: the live object with the written
/// entries applied on top (a non-object live read is replaced).
pub open spec fn after_write(live: JsonV, body: Seq<(Seq<char>, JsonV)>) -> JsonV {
    match live {
        JsonV::Object(es) => JsonV::Object(es + body),
        _ => JsonV::Object(body),
    }
}

/// Convergence of a settings singleton: once the written body has been applied
/// on top of whatever the live settings held, the next step finds every
/// declared key in sync (top-level numbers other than not-a-number, which no
/// JSON text can hold).
pub proof fn law_settings_write_converges(w: JsonV, live: JsonV)
    requires
        w matches JsonV::Object(es) && forall|i: int|
            0 <= i < es.len() ==> self_equal_number(#[trigger] es[i].1),
    ensures
        fields_in_sync_spec(w, after_write(live, w->Object_0)),
{
    let es = w->Object_0;
    let base = match live {
        JsonV::Object(ls) => ls,
        _ => Seq::empty(),
    };
    assert(after_write(live, es) == JsonV::Object(base + es)) by {
        if !(live is Object) {
            assert(Seq::<(Seq<char>, JsonV)>::empty() + es =~= es);
        }
    }
    assert forall|i: int| 0 <= i < es.len() && is_last(es, i) implies #[trigger] field_in_sync_spec(
        es[i].1,
        after_write(live, es).get(es[i].0),
    ) by {
        crate::json::lemma_obj_get_append(base, es, es[i].0);
        crate::json::lemma_obj_get_last(es, i);
        assert(crate::json::has_key(es, es[i].0));
        crate::json::lemma_json_eq_refl(es[i].1);
        assert(self_equal_number(es[i].1));
    }
}

} // verus!
