//! A JSON document model for the reconciliation logic.
//!
//! Objects are ordered lists of `(key, value)` entries read as a map in which a
//! later entry for a key replaces an earlier one: looking a key up yields the
//! value of its last entry, and two objects are equal when they map the same
//! keys to equal values.  Numbers keep the three shapes that JSON equality
//! distinguishes: non-negative integers, negative integers, and finite floats
//! (held by their IEEE-754 bits together with their shortest decimal text).
use vstd::prelude::*;

verus! {

/// A JSON number.
#[derive(Debug)]
pub enum JsonNumber {
    /// A non-negative integer.
    PosInt(u64),
    /// A negative integer.
    NegInt(i64),
    /// A finite float: its IEEE-754 bits and its shortest decimal text.
    Float { bits: u64, text: String },
}

/// A JSON value.
#[derive(Debug)]
pub enum Json {
    Null,
    Bool(bool),
    Number(JsonNumber),
    String(String),
    Array(Vec<Json>),
    Object(Vec<(String, Json)>),
}

/// The mathematical view of a [`JsonNumber`].
pub enum NumberV {
    PosInt(u64),
    NegInt(i64),
    Float(u64, Seq<char>),
}

/// The mathematical view of a [`Json`] value.
pub enum JsonV {
    Null,
    Bool(bool),
    Number(NumberV),
    String(Seq<char>),
    Array(Seq<JsonV>),
    Object(Seq<(Seq<char>, JsonV)>),
}

impl View for JsonNumber {
    type V = NumberV;

    open spec fn view(&self) -> NumberV {
        match *self {
            JsonNumber::PosInt(u) => NumberV::PosInt(u),
            JsonNumber::NegInt(i) => NumberV::NegInt(i),
            JsonNumber::Float { bits, text } => NumberV::Float(bits, text@),
        }
    }
}

/// The view of a JSON value, element by element.
pub open spec fn json_view(j: Json) -> JsonV
    decreases j,
{
    match j {
        Json::Null => JsonV::Null,
        Json::Bool(b) => JsonV::Bool(b),
        Json::Number(n) => JsonV::Number(n@),
        Json::String(s) => JsonV::String(s@),
        Json::Array(xs) => JsonV::Array(
            Seq::new(
                xs@.len(),
                |i: int|
                    if 0 <= i < xs@.len() {
                        json_view(xs@[i])
                    } else {
                        JsonV::Null
                    },
            ),
        ),
        Json::Object(es) => JsonV::Object(
            Seq::new(
                es@.len(),
                |i: int|
                    if 0 <= i < es@.len() {
                        (es@[i].0@, json_view(es@[i].1))
                    } else {
                        (Seq::empty(), JsonV::Null)
                    },
            ),
        ),
    }
}

impl View for Json {
    type V = JsonV;

    open spec fn view(&self) -> JsonV {
        json_view(*self)
    }
}

/// The view of an optional reference to a value.
pub open spec fn opt_view(r: Option<&Json>) -> Option<JsonV> {
    match r {
        Some(x) => Some(x@),
        None => None,
    }
}

/// The view of an optional owned value.
pub open spec fn opt_json_view(o: Option<Json>) -> Option<JsonV> {
    match o {
        Some(x) => Some(x@),
        None => None,
    }
}

/// The value an object's entries give `k`: that of its last entry.
pub open spec fn obj_get(es: Seq<(Seq<char>, JsonV)>, k: Seq<char>) -> Option<JsonV>
    decreases es.len(),
{
    if es.len() == 0 {
        None
    } else if es.last().0 == k {
        Some(es.last().1)
    } else {
        obj_get(es.drop_last(), k)
    }
}

/// Entry `i` is the last entry for its key.
pub open spec fn is_last(es: Seq<(Seq<char>, JsonV)>, i: int) -> bool {
    forall|j: int| i < j < es.len() ==> #[trigger] es[j].0 != es[i].0
}

/// Some entry has key `k`.
pub open spec fn has_key(es: Seq<(Seq<char>, JsonV)>, k: Seq<char>) -> bool {
    exists|i: int| 0 <= i < es.len() && #[trigger] es[i].0 == k
}

/// The entries without any entry for `k`.
pub open spec fn without_key(es: Seq<(Seq<char>, JsonV)>, k: Seq<char>) -> Seq<(Seq<char>, JsonV)>
    decreases es.len(),
{
    if es.len() == 0 {
        es
    } else if es.last().0 == k {
        without_key(es.drop_last(), k)
    } else {
        without_key(es.drop_last(), k).push(es.last())
    }
}

/// Whether two floats, given by their bits, compare equal: the same bits, or
/// both zero (positive and negative zero are equal).
pub open spec fn float_bits_eq(a: u64, b: u64) -> bool {
    a == b || ((a == 0 || a == 0x8000_0000_0000_0000u64) && (b == 0
        || b == 0x8000_0000_0000_0000u64))
}

/// Every key of `xs` is a key of `ys`.
pub open spec fn keys_covered(xs: Seq<(Seq<char>, JsonV)>, ys: Seq<(Seq<char>, JsonV)>) -> bool {
    forall|i: int| 0 <= i < xs.len() ==> has_key(ys, #[trigger] xs[i].0)
}

/// JSON number equality: integers of the same sign by value, floats by value;
/// an integer never equals a float.
pub open spec fn number_eq(a: NumberV, b: NumberV) -> bool {
    match (a, b) {
        (NumberV::PosInt(x), NumberV::PosInt(y)) => x == y,
        (NumberV::NegInt(x), NumberV::NegInt(y)) => x == y,
        (NumberV::Float(x, _), NumberV::Float(y, _)) => float_bits_eq(x, y),
        _ => false,
    }
}

/// JSON value equality: same kind; arrays element by element; objects map
/// the same keys to equal values.
pub open spec fn json_eq(a: JsonV, b: JsonV) -> bool
    decreases a,
{
    match a {
        JsonV::Null => b is Null,
        JsonV::Bool(x) => b matches JsonV::Bool(y) && x == y,
        JsonV::Number(x) => b matches JsonV::Number(y) && number_eq(x, y),
        JsonV::String(x) => b matches JsonV::String(y) && x == y,
        JsonV::Array(xs) => match b {
            JsonV::Array(ys) => xs.len() == ys.len() && forall|i: int|
                0 <= i < xs.len() ==> json_eq(#[trigger] xs[i], ys[i]),
            _ => false,
        },
        JsonV::Object(xs) => match b {
            JsonV::Object(ys) => keys_covered(xs, ys) && keys_covered(ys, xs) && forall|i: int, j: int|
                0 <= i < xs.len() && 0 <= j < ys.len() && is_last(xs, i) && is_last(ys, j)
                    && #[trigger] xs[i].0 == #[trigger] ys[j].0 ==> json_eq(xs[i].1, ys[j].1),
            _ => false,
        },
    }
}

impl JsonV {
    /// The value of key `k`, when `self` is an object that has it.
    pub open spec fn get(self, k: Seq<char>) -> Option<JsonV> {
        match self {
            JsonV::Object(es) => obj_get(es, k),
            _ => None,
        }
    }

    /// The string, when `self` is one.
    pub open spec fn str_of(self) -> Option<Seq<char>> {
        match self {
            JsonV::String(s) => Some(s),
            _ => None,
        }
    }

    /// The boolean, when `self` is one.
    pub open spec fn bool_of(self) -> Option<bool> {
        match self {
            JsonV::Bool(b) => Some(b),
            _ => None,
        }
    }

    /// The number as an `i64`, when `self` is an integer in range.
    pub open spec fn i64_of(self) -> Option<i64> {
        match self {
            JsonV::Number(NumberV::PosInt(u)) => if u <= i64::MAX {
                Some(u as i64)
            } else {
                None
            },
            JsonV::Number(NumberV::NegInt(i)) => Some(i),
            _ => None,
        }
    }

    /// The entries, when `self` is an object.
    pub open spec fn entries_of(self) -> Option<Seq<(Seq<char>, JsonV)>> {
        match self {
            JsonV::Object(es) => Some(es),
            _ => None,
        }
    }

    /// The elements, when `self` is an array.
    pub open spec fn elems_of(self) -> Option<Seq<JsonV>> {
        match self {
            JsonV::Array(xs) => Some(xs),
            _ => None,
        }
    }

    /// The string at key `k`, when `self` is an object holding a string there.
    pub open spec fn str_at(self, k: Seq<char>) -> Option<Seq<char>> {
        match self.get(k) {
            Some(v) => v.str_of(),
            None => None,
        }
    }
}

/// The last entry for a key gives the key's value.
pub proof fn lemma_obj_get_last(es: Seq<(Seq<char>, JsonV)>, i: int)
    requires
        0 <= i < es.len(),
        is_last(es, i),
    ensures
        obj_get(es, es[i].0) == Some(es[i].1),
    decreases es.len(),
{
    if i != es.len() - 1 {
        assert(es.last().0 != es[i].0) by {
            assert(es[es.len() - 1].0 != es[i].0);
        }
        let d = es.drop_last();
        assert(is_last(d, i)) by {
            assert forall|j: int| i < j < d.len() implies #[trigger] d[j].0 != d[i].0 by {
                assert(es[j].0 != es[i].0);
            }
        }
        lemma_obj_get_last(d, i);
    }
}

/// A key without entries has no value; a key with entries has the value of a
/// last entry for it.
pub proof fn lemma_obj_get_cases(es: Seq<(Seq<char>, JsonV)>, k: Seq<char>)
    ensures
        obj_get(es, k) is None <==> !has_key(es, k),
        obj_get(es, k) matches Some(v) ==> exists|i: int|
            0 <= i < es.len() && is_last(es, i) && es[i].0 == k && #[trigger] es[i].1 == v,
    decreases es.len(),
{
    if es.len() > 0 {
        let d = es.drop_last();
        lemma_obj_get_cases(d, k);
        if es.last().0 == k {
            let i = es.len() - 1;
            assert(is_last(es, i));
            assert(es[i].0 == k);
        } else {
            if has_key(es, k) {
                let i = choose|i: int| 0 <= i < es.len() && #[trigger] es[i].0 == k;
                assert(d[i].0 == k);
            }
            if has_key(d, k) {
                let i = choose|i: int| 0 <= i < d.len() && #[trigger] d[i].0 == k;
                assert(es[i].0 == k);
            }
            if obj_get(es, k) is Some {
                let v = obj_get(es, k)->0;
                let i = choose|i: int|
                    0 <= i < d.len() && is_last(d, i) && d[i].0 == k && #[trigger] d[i].1 == v;
                assert(is_last(es, i)) by {
                    assert forall|j: int| i < j < es.len() implies #[trigger] es[j].0 != es[i].0 by {
                        if j < d.len() {
                            assert(d[j].0 != d[i].0);
                        }
                    }
                }
                assert(es[i].1 == v);
            }
        }
    }
}

impl JsonNumber {
    /// A copy of the number.
    pub fn copy(&self) -> (r: JsonNumber)
        ensures
            r@ == self@,
    {
        match self {
            JsonNumber::PosInt(u) => JsonNumber::PosInt(*u),
            JsonNumber::NegInt(i) => JsonNumber::NegInt(*i),
            JsonNumber::Float { bits, text } => JsonNumber::Float { bits: *bits, text: text.clone() },
        }
    }
}

/// Whether two strings are equal.
pub(crate) fn str_equal(a: &str, b: &str) -> (r: bool)
    ensures
        r == (a@ == b@),
{
    let x = a.to_owned();
    let y = b.to_owned();
    x == y
}

impl Json {
    /// An empty object.
    pub fn empty_object() -> (r: Json)
        ensures
            r@ == JsonV::Object(Seq::empty()),
    {
        let r = Json::Object(Vec::new());
        assert(r@->Object_0 =~= Seq::<(Seq<char>, JsonV)>::empty());
        r
    }

    /// A string value.
    pub fn from_str(s: &str) -> (r: Json)
        ensures
            r@ == JsonV::String(s@),
    {
        Json::String(s.to_owned())
    }

    /// A deep copy of the value.
    pub fn deep_clone(&self) -> (r: Json)
        ensures
            r@ == self@,
        decreases self,
    {
        match self {
            Json::Null => Json::Null,
            Json::Bool(b) => Json::Bool(*b),
            Json::Number(n) => Json::Number(n.copy()),
            Json::String(s) => Json::String(s.clone()),
            Json::Array(xs) => {
                let mut ys: Vec<Json> = Vec::new();
                let mut i: usize = 0;
                while i < xs.len()
                    invariant
                        i <= xs@.len(),
                        *self == Json::Array(*xs),
                        ys@.len() == i,
                        forall|j: int| 0 <= j < i ==> (#[trigger] ys@[j])@ == xs@[j]@,
                    decreases xs@.len() - i,
                {
                    proof {
                        vstd::std_specs::vec::axiom_vec_index_decreases(*xs, i as int);
                        assert(decreases_to!(*self => self->Array_0));
                        assert(decreases_to!(*self => xs@[i as int]));
                    }
                    let c = xs[i].deep_clone();
                    ys.push(c);
                    i = i + 1;
                }
                let r = Json::Array(ys);
                assert(r@->Array_0 =~= self@->Array_0);
                r
            },
            Json::Object(es) => {
                let mut ys: Vec<(String, Json)> = Vec::new();
                let mut i: usize = 0;
                while i < es.len()
                    invariant
                        i <= es@.len(),
                        *self == Json::Object(*es),
                        ys@.len() == i,
                        forall|j: int|
                            0 <= j < i ==> (#[trigger] ys@[j]).0@ == es@[j].0@ && ys@[j].1@
                                == es@[j].1@,
                    decreases es@.len() - i,
                {
                    proof {
                        vstd::std_specs::vec::axiom_vec_index_decreases(*es, i as int);
                        assert(decreases_to!(*self => self->Object_0));
                        assert(decreases_to!(*self => es@[i as int]));
                        assert(decreases_to!(*self => es@[i as int].1));
                    }
                    let c = es[i].1.deep_clone();
                    let k = es[i].0.clone();
                    ys.push((k, c));
                    i = i + 1;
                }
                let r = Json::Object(ys);
                assert(r@->Object_0 =~= self@->Object_0);
                r
            },
        }
    }
}


/// The view of a list of entries.
pub open spec fn entries_view(es: Seq<(String, Json)>) -> Seq<(Seq<char>, JsonV)> {
    Seq::new(es.len(), |i: int| (es[i].0@, es[i].1@))
}

/// The view of a list of values.
pub open spec fn elems_view(xs: Seq<Json>) -> Seq<JsonV> {
    Seq::new(xs.len(), |i: int| xs[i]@)
}

/// An object's view is the view of its entries.
pub proof fn lemma_object_view(es: Vec<(String, Json)>)
    ensures
        Json::Object(es)@ == JsonV::Object(entries_view(es@)),
{
    assert(Json::Object(es)@->Object_0 =~= entries_view(es@));
}

/// An array's view is the view of its elements.
pub proof fn lemma_array_view(xs: Vec<Json>)
    ensures
        Json::Array(xs)@ == JsonV::Array(elems_view(xs@)),
{
    assert(Json::Array(xs)@->Array_0 =~= elems_view(xs@));
}

/// Removing a key's entries leaves every other key's value as it was.
pub proof fn lemma_without_key_get(es: Seq<(Seq<char>, JsonV)>, k: Seq<char>, k2: Seq<char>)
    ensures
        obj_get(without_key(es, k), k2) == if k2 == k {
            None
        } else {
            obj_get(es, k2)
        },
    decreases es.len(),
{
    if es.len() > 0 {
        lemma_without_key_get(es.drop_last(), k, k2);
        if es.last().0 != k {
            let w = without_key(es.drop_last(), k);
            assert(w.push(es.last()).drop_last() =~= w);
        }
    }
}

/// The index of the last entry for `key`, if any.
pub fn key_index(es: &Vec<(String, Json)>, key: &str) -> (r: Option<usize>)
    ensures
        match r {
            Some(j) => j < es@.len() && es@[j as int].0@ == key@ && is_last(
                entries_view(es@),
                j as int,
            ),
            None => !has_key(entries_view(es@), key@),
        },
{
    let ghost v = entries_view(es@);
    let mut i = es.len();
    while i > 0
        invariant
            i <= es@.len(),
            v == entries_view(es@),
            forall|j: int| i <= j < es@.len() ==> #[trigger] v[j].0 != key@,
        decreases i,
    {
        i = i - 1;
        if str_equal(es[i].0.as_str(), key) {
            assert(is_last(v, i as int)) by {
                assert forall|j: int| i < j < v.len() implies #[trigger] v[j].0 != v[i as int].0 by {
                    assert(v[j].0 != key@);
                }
            }
            return Some(i);
        }
    }
    assert(!has_key(v, key@)) by {
        if has_key(v, key@) {
            let j = choose|j: int| 0 <= j < v.len() && #[trigger] v[j].0 == key@;
            assert(v[j].0 != key@);
        }
    }
    None
}

/// Whether entry `i` is the last for its key.
pub fn entry_is_last(es: &Vec<(String, Json)>, i: usize) -> (r: bool)
    requires
        i < es@.len(),
    ensures
        r == is_last(entries_view(es@), i as int),
{
    let ghost v = entries_view(es@);
    let n = es.len();
    let mut j = i + 1;
    while j < es.len()
        invariant
            i < j <= es@.len(),
            v == entries_view(es@),
            forall|m: int| i < m < j ==> #[trigger] v[m].0 != v[i as int].0,
        decreases es@.len() - j,
    {
        if str_equal(es[j].0.as_str(), es[i].0.as_str()) {
            assert(v[j as int].0 == v[i as int].0);
            return false;
        }
        j = j + 1;
    }
    true
}

/// The entries without any entry for `key`.
pub fn entries_without(es: Vec<(String, Json)>, key: &str) -> (r: Vec<(String, Json)>)
    ensures
        entries_view(r@) == without_key(entries_view(es@), key@),
{
    let ghost orig = es@;
    let mut es = es;
    let mut out: Vec<(String, Json)> = Vec::new();
    let mut i: usize = 0;
    while i < es.len()
        invariant
            i <= es@.len(),
            es@.len() == orig.len(),
            forall|j: int| i <= j < orig.len() ==> #[trigger] es@[j] == orig[j],
            entries_view(out@) == without_key(entries_view(orig.take(i as int)), key@),
        decreases orig.len() - i,
    {
        let mut e: (String, Json) = (String::new(), Json::Null);
        core::mem::swap(&mut e, &mut es[i]);
        proof {
            let t = entries_view(orig.take(i + 1));
            assert(t.drop_last() =~= entries_view(orig.take(i as int)));
            assert(t.last() == (orig[i as int].0@, orig[i as int].1@));
        }
        if !str_equal(e.0.as_str(), key) {
            let ghost before = out@;
            out.push(e);
            proof {
                assert(entries_view(out@) =~= entries_view(before).push(
                    (orig[i as int].0@, orig[i as int].1@),
                ));
            }
        }
        i = i + 1;
    }
    assert(orig.take(orig.len() as int) =~= orig);
    out
}

impl Json {
    /// The value of key `key`, when `self` is an object that has it.
    pub fn get(&self, key: &str) -> (r: Option<&Json>)
        ensures
            opt_view(r) == self@.get(key@),
    {
        match self {
            Json::Object(es) => {
                proof {
                    lemma_object_view(*es);
                }
                match key_index(es, key) {
                    Some(j) => {
                        proof {
                            lemma_obj_get_last(entries_view(es@), j as int);
                        }
                        Some(&es[j].1)
                    },
                    None => {
                        proof {
                            lemma_obj_get_cases(entries_view(es@), key@);
                        }
                        None
                    },
                }
            },
            _ => None,
        }
    }

    /// The string, when `self` is one.
    pub fn as_str(&self) -> (r: Option<&str>)
        ensures
            match r {
                Some(s) => self@.str_of() == Some(s@),
                None => self@.str_of() is None,
            },
    {
        match self {
            Json::String(s) => Some(s.as_str()),
            _ => None,
        }
    }

    /// The boolean, when `self` is one.
    pub fn as_bool(&self) -> (r: Option<bool>)
        ensures
            r == self@.bool_of(),
    {
        match self {
            Json::Bool(b) => Some(*b),
            _ => None,
        }
    }

    /// The number as an `i64`, when `self` is an integer in range.
    pub fn as_i64(&self) -> (r: Option<i64>)
        ensures
            r == self@.i64_of(),
    {
        match self {
            Json::Number(JsonNumber::PosInt(u)) => if *u <= 0x7fff_ffff_ffff_ffffu64 {
                Some(*u as i64)
            } else {
                None
            },
            Json::Number(JsonNumber::NegInt(i)) => Some(*i),
            _ => None,
        }
    }

    /// Whether `self` is `null`.
    pub fn is_null(&self) -> (r: bool)
        ensures
            r == (self@ is Null),
    {
        match self {
            Json::Null => true,
            _ => false,
        }
    }

    /// Whether `self` is an object.
    pub fn is_object(&self) -> (r: bool)
        ensures
            r == (self@ is Object),
    {
        match self {
            Json::Object(_) => true,
            _ => false,
        }
    }

    /// The elements, when `self` is an array.
    pub fn as_array(&self) -> (r: Option<&Vec<Json>>)
        ensures
            match r {
                Some(xs) => self@ == JsonV::Array(elems_view(xs@)),
                None => !(self@ is Array),
            },
    {
        match self {
            Json::Array(xs) => {
                proof {
                    lemma_array_view(*xs);
                }
                Some(xs)
            },
            _ => None,
        }
    }

    /// The entries, when `self` is an object.
    pub fn as_object(&self) -> (r: Option<&Vec<(String, Json)>>)
        ensures
            match r {
                Some(es) => self@ == JsonV::Object(entries_view(es@)),
                None => !(self@ is Object),
            },
    {
        match self {
            Json::Object(es) => {
                proof {
                    lemma_object_view(*es);
                }
                Some(es)
            },
            _ => None,
        }
    }

    /// `self` without key `key`, when it is an object; otherwise `self`.
    pub fn remove_key(self, key: &str) -> (r: Json)
        ensures
            r@ == match self@ {
                JsonV::Object(es) => JsonV::Object(without_key(es, key@)),
                other => other,
            },
    {
        match self {
            Json::Object(es) => {
                proof {
                    lemma_object_view(es);
                }
                let out = entries_without(es, key);
                proof {
                    lemma_object_view(out);
                }
                Json::Object(out)
            },
            other => other,
        }
    }

    /// `self` with `key` set to `value`, when it is an object; otherwise `self`.
    pub fn set_key(self, key: String, value: Json) -> (r: Json)
        ensures
            r@ == match self@ {
                JsonV::Object(es) => JsonV::Object(es.push((key@, value@))),
                other => other,
            },
    {
        match self {
            Json::Object(es) => {
                proof {
                    lemma_object_view(es);
                }
                let ghost before = es@;
                let mut es = es;
                es.push((key, value));
                proof {
                    lemma_object_view(es);
                    assert(entries_view(es@) =~= entries_view(before).push((key@, value@)));
                }
                Json::Object(es)
            },
            other => other,
        }
    }
}


/// Whether two numbers are equal as JSON numbers.
pub fn number_equal(a: &JsonNumber, b: &JsonNumber) -> (r: bool)
    ensures
        r == number_eq(a@, b@),
{
    match (a, b) {
        (JsonNumber::PosInt(x), JsonNumber::PosInt(y)) => *x == *y,
        (JsonNumber::NegInt(x), JsonNumber::NegInt(y)) => *x == *y,
        (JsonNumber::Float { bits: x, .. }, JsonNumber::Float { bits: y, .. }) => {
            let zx = *x == 0 || *x == 0x8000_0000_0000_0000u64;
            let zy = *y == 0 || *y == 0x8000_0000_0000_0000u64;
            *x == *y || (zx && zy)
        },
        _ => false,
    }
}

impl Json {
    /// Whether `self` and `other` are equal JSON values.
    pub fn equals(&self, other: &Json) -> (r: bool)
        ensures
            r == json_eq(self@, other@),
        decreases self,
    {
        match (self, other) {
            (Json::Null, Json::Null) => true,
            (Json::Bool(x), Json::Bool(y)) => *x == *y,
            (Json::Number(x), Json::Number(y)) => number_equal(x, y),
            (Json::String(x), Json::String(y)) => str_equal(x.as_str(), y.as_str()),
            (Json::Array(xs), Json::Array(ys)) => {
                proof {
                    lemma_array_view(*xs);
                    lemma_array_view(*ys);
                }
                if xs.len() != ys.len() {
                    return false;
                }
                let mut i: usize = 0;
                while i < xs.len()
                    invariant
                        i <= xs@.len(),
                        xs@.len() == ys@.len(),
                        *self == Json::Array(*xs),
                        self@ == JsonV::Array(elems_view(xs@)),
                        other@ == JsonV::Array(elems_view(ys@)),
                        forall|j: int| 0 <= j < i ==> json_eq(#[trigger] xs@[j]@, ys@[j]@),
                    decreases xs@.len() - i,
                {
                    proof {
                        vstd::std_specs::vec::axiom_vec_index_decreases(*xs, i as int);
                        assert(decreases_to!(*self => self->Array_0));
                        assert(decreases_to!(*self => xs@[i as int]));
                    }
                    if !xs[i].equals(&ys[i]) {
                        assert(!json_eq(elems_view(xs@)[i as int], elems_view(ys@)[i as int]));
                        return false;
                    }
                    i = i + 1;
                }
                assert forall|j: int| 0 <= j < elems_view(xs@).len() implies json_eq(
                    #[trigger] elems_view(xs@)[j],
                    elems_view(ys@)[j],
                ) by {
                    assert(json_eq(xs@[j]@, ys@[j]@));
                }
                true
            },
            (Json::Object(xs), Json::Object(ys)) => {
                proof {
                    lemma_object_view(*xs);
                    lemma_object_view(*ys);
                }
                let ghost v = entries_view(xs@);
                let ghost w = entries_view(ys@);
                let mut i: usize = 0;
                while i < xs.len()
                    invariant
                        i <= xs@.len(),
                        v == entries_view(xs@),
                        w == entries_view(ys@),
                        self@ == JsonV::Object(v),
                        other@ == JsonV::Object(w),
                        forall|m: int| 0 <= m < i ==> has_key(w, #[trigger] v[m].0),
                    decreases xs@.len() - i,
                {
                    match key_index(ys, xs[i].0.as_str()) {
                        None => {
                            assert(!has_key(w, v[i as int].0));
                            assert(json_eq(self@, other@) ==> has_key(w, v[i as int].0));
                            return false;
                        },
                        Some(k) => {
                            assert(w[k as int].0 == v[i as int].0);
                        },
                    }
                    i = i + 1;
                }
                let mut j: usize = 0;
                while j < ys.len()
                    invariant
                        j <= ys@.len(),
                        v == entries_view(xs@),
                        w == entries_view(ys@),
                        self@ == JsonV::Object(v),
                        other@ == JsonV::Object(w),
                        forall|m: int| 0 <= m < v.len() ==> has_key(w, #[trigger] v[m].0),
                        forall|m: int| 0 <= m < j ==> has_key(v, #[trigger] w[m].0),
                    decreases ys@.len() - j,
                {
                    match key_index(xs, ys[j].0.as_str()) {
                        None => {
                            assert(!has_key(v, w[j as int].0));
                            assert(json_eq(self@, other@) ==> has_key(v, w[j as int].0));
                            return false;
                        },
                        Some(k) => {
                            assert(v[k as int].0 == w[j as int].0);
                        },
                    }
                    j = j + 1;
                }
                let mut i: usize = 0;
                while i < xs.len()
                    invariant
                        i <= xs@.len(),
                        *self == Json::Object(*xs),
                        v == entries_view(xs@),
                        w == entries_view(ys@),
                        self@ == JsonV::Object(v),
                        other@ == JsonV::Object(w),
                        forall|m: int| 0 <= m < v.len() ==> has_key(w, #[trigger] v[m].0),
                        forall|m: int| 0 <= m < w.len() ==> has_key(v, #[trigger] w[m].0),
                        forall|m: int, n: int|
                            0 <= m < i && 0 <= n < w.len() && is_last(v, m) && is_last(w, n)
                                && #[trigger] v[m].0 == #[trigger] w[n].0 ==> json_eq(
                                v[m].1,
                                w[n].1,
                            ),
                    decreases xs@.len() - i,
                {
                    if entry_is_last(xs, i) {
                        match key_index(ys, xs[i].0.as_str()) {
                            Some(k) => {
                                proof {
                                    vstd::std_specs::vec::axiom_vec_index_decreases(
                                        *xs,
                                        i as int,
                                    );
                                    assert(decreases_to!(*self => self->Object_0));
                                    assert(decreases_to!(*self => xs@[i as int]));
                                    assert(decreases_to!(*self => xs@[i as int].1));
                                }
                                let same = xs[i].1.equals(&ys[k].1);
                                if !same {
                                    assert(!json_eq(v[i as int].1, w[k as int].1));
                                    assert(v[i as int].0 == w[k as int].0);
                                    assert(json_eq(self@, other@) ==> json_eq(
                                        v[i as int].1,
                                        w[k as int].1,
                                    ));
                                    return false;
                                }
                                assert forall|m: int, n: int|
                                    0 <= m < i + 1 && 0 <= n < w.len() && is_last(v, m) && is_last(
                                        w,
                                        n,
                                    ) && #[trigger] v[m].0 == #[trigger] w[n].0 implies json_eq(
                                    v[m].1,
                                    w[n].1,
                                ) by {
                                    if m == i {
                                        if n < k {
                                            assert(w[k as int].0 != w[n].0);
                                        } else if n > k {
                                            assert(w[n].0 != w[k as int].0);
                                        }
                                    }
                                }
                            },
                            None => {
                                assert(has_key(w, v[i as int].0));
                                assert(false);
                            },
                        }
                    }
                    i = i + 1;
                }
                true
            },
            _ => false,
        }
    }
}

/// Every JSON value equals itself.
pub proof fn lemma_json_eq_refl(a: JsonV)
    ensures
        json_eq(a, a),
    decreases a,
{
    match a {
        JsonV::Array(xs) => {
            assert forall|i: int| 0 <= i < xs.len() implies json_eq(#[trigger] xs[i], xs[i]) by {
                lemma_json_eq_refl(xs[i]);
            }
        },
        JsonV::Object(xs) => {
            assert forall|i: int| 0 <= i < xs.len() implies has_key(xs, #[trigger] xs[i].0) by {
                assert(xs[i].0 == xs[i].0);
            }
            assert forall|i: int, j: int|
                0 <= i < xs.len() && 0 <= j < xs.len() && is_last(xs, i) && is_last(xs, j)
                    && #[trigger] xs[i].0 == #[trigger] xs[j].0 implies json_eq(xs[i].1, xs[j].1) by {
                if i < j {
                    assert(xs[j].0 != xs[i].0);
                } else if j < i {
                    assert(xs[i].0 != xs[j].0);
                }
                lemma_json_eq_refl(xs[i].1);
            }
        },
        _ => {},
    }
}

/// Removing a key that no entry has changes nothing.
pub proof fn lemma_without_absent_key(es: Seq<(Seq<char>, JsonV)>, k: Seq<char>)
    requires
        !has_key(es, k),
    ensures
        without_key(es, k) == es,
    decreases es.len(),
{
    if es.len() > 0 {
        let d = es.drop_last();
        assert(!has_key(d, k)) by {
            if has_key(d, k) {
                let i = choose|i: int| 0 <= i < d.len() && #[trigger] d[i].0 == k;
                assert(es[i].0 == k);
            }
        }
        assert(es[es.len() - 1].0 != k);
        lemma_without_absent_key(d, k);
        assert(d.push(es.last()) =~= es);
    }
}

impl PartialEq for Json {
    fn eq(&self, other: &Json) -> (r: bool) {
        self.equals(other)
    }
}

impl vstd::std_specs::cmp::PartialEqSpecImpl for Json {
    open spec fn obeys_eq_spec() -> bool {
        true
    }

    open spec fn eq_spec(&self, other: &Json) -> bool {
        json_eq(self@, other@)
    }
}

impl Clone for Json {
    fn clone(&self) -> (r: Json)
        ensures
            r@ == self@,
    {
        self.deep_clone()
    }
}

impl Clone for JsonNumber {
    fn clone(&self) -> (r: JsonNumber)
        ensures
            r@ == self@,
    {
        self.copy()
    }
}

/// Looking a key up in entries followed by more entries: the later entries
/// decide when they have the key.
pub proof fn lemma_obj_get_append(a: Seq<(Seq<char>, JsonV)>, b: Seq<(Seq<char>, JsonV)>, k: Seq<char>)
    ensures
        obj_get(a + b, k) == if has_key(b, k) {
            obj_get(b, k)
        } else {
            obj_get(a, k)
        },
    decreases b.len(),
{
    if b.len() == 0 {
        assert(a + b =~= a);
        assert(!has_key(b, k));
    } else {
        let d = b.drop_last();
        assert((a + b).drop_last() =~= a + d);
        assert((a + b).last() == b.last());
        lemma_obj_get_append(a, d, k);
        if b.last().0 != k {
            assert(has_key(b, k) == has_key(d, k)) by {
                if has_key(b, k) {
                    let i = choose|i: int| 0 <= i < b.len() && #[trigger] b[i].0 == k;
                    assert(d[i].0 == k);
                }
                if has_key(d, k) {
                    let i = choose|i: int| 0 <= i < d.len() && #[trigger] d[i].0 == k;
                    assert(b[i].0 == k);
                }
            }
        } else {
            assert(b[b.len() - 1].0 == k);
        }
    }
}

} // verus!
