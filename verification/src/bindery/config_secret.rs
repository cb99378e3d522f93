//! The `<field>` / `<field>Configured` singleton pattern: the read reports
//! whether a secret is stored through a boolean (`apiKeyConfigured`, ...),
//! while the write takes the secret itself, and an omitted secret leaves the
//! stored one alone.
//!
//! The decision:
//! 1. a declared non-secret key differs from live: write everything declared;
//! 2. else, each declared secret whose live flag says it is not stored is
//!    written alone;
//! 3. else nothing is written.
//!
//! A rotation of a secret that is already stored, with nothing else changed,
//! is invisible here: the flag stays `true`, and the API exposes nothing else.
use crate::json::{has_key, is_last, json_eq, obj_get, str_equal, Json, JsonV};
use vstd::prelude::*;

verus! {

/// The write a `*Configured`-shaped singleton needs.
#[derive(Debug)]
pub enum SecretConfigChange {
    /// Nothing to write.
    Unchanged,
    /// A declared non-secret key differs: the whole declared config is sent.
    Full(Json),
    /// Only declared secrets that are not yet stored are sent.
    SecretOnly(Json),
}

impl PartialEq for SecretConfigChange {
    fn eq(&self, other: &SecretConfigChange) -> (r: bool) {
        match (self, other) {
            (SecretConfigChange::Unchanged, SecretConfigChange::Unchanged) => true,
            (SecretConfigChange::Full(a), SecretConfigChange::Full(b)) => a.equals(b),
            (SecretConfigChange::SecretOnly(a), SecretConfigChange::SecretOnly(b)) => a.equals(b),
            _ => false,
        }
    }
}

impl vstd::std_specs::cmp::PartialEqSpecImpl for SecretConfigChange {
    open spec fn obeys_eq_spec() -> bool {
        true
    }

    open spec fn eq_spec(&self, other: &SecretConfigChange) -> bool {
        match (*self, *other) {
            (SecretConfigChange::Unchanged, SecretConfigChange::Unchanged) => true,
            (SecretConfigChange::Full(a), SecretConfigChange::Full(b)) => json_eq(a@, b@),
            (SecretConfigChange::SecretOnly(a), SecretConfigChange::SecretOnly(b)) => json_eq(
                a@,
                b@,
            ),
            _ => false,
        }
    }
}

/// The view of a [`SecretConfigChange`].
pub enum ChangeV {
    Unchanged,
    Full(JsonV),
    SecretOnly(JsonV),
}

impl View for SecretConfigChange {
    type V = ChangeV;

    open spec fn view(&self) -> ChangeV {
        match *self {
            SecretConfigChange::Unchanged => ChangeV::Unchanged,
            SecretConfigChange::Full(j) => ChangeV::Full(j@),
            SecretConfigChange::SecretOnly(j) => ChangeV::SecretOnly(j@),
        }
    }
}

/// The live flag at `configured_key` says a secret is stored: it is `true`.
pub open spec fn is_configured_spec(live: JsonV, configured_key: Seq<char>) -> bool {
    live.get(configured_key) == Some(JsonV::Bool(true))
}

/// The live value at a key equals the declared value (absent never does).
pub open spec fn live_equals(have: Option<JsonV>, want: JsonV) -> bool {
    match have {
        Some(h) => json_eq(h, want),
        None => false,
    }
}

/// Some declared key that is not a secret differs from the live value there.
pub open spec fn non_secret_differs_spec(
    wire: JsonV,
    live: JsonV,
    secret_keys: Seq<Seq<char>>,
) -> bool {
    match wire {
        JsonV::Object(es) => exists|i: int|
            0 <= i < es.len() && is_last(es, i) && !secret_keys.contains(es[i].0)
                && !#[trigger] live_equals(live.get(es[i].0), es[i].1),
        _ => false,
    }
}

/// The `(secret, value)` entries to rotate in, in the order of the pairs: each
/// declared secret whose live flag is not `true`.
pub open spec fn rotate_entries(
    wire: JsonV,
    live: JsonV,
    pairs: Seq<(Seq<char>, Seq<char>)>,
) -> Seq<(Seq<char>, JsonV)>
    decreases pairs.len(),
{
    if pairs.len() == 0 {
        Seq::empty()
    } else {
        let prev = rotate_entries(wire, live, pairs.drop_last());
        let (sk, ck) = pairs.last();
        if is_configured_spec(live, ck) {
            prev
        } else {
            match wire.get(sk) {
                Some(v) => prev.push((sk, v)),
                None => prev,
            }
        }
    }
}

/// The decision for declared config `wire` against the live read `live`.
pub open spec fn plan_spec(
    wire: JsonV,
    live: JsonV,
    secret_keys: Seq<Seq<char>>,
    pairs: Seq<(Seq<char>, Seq<char>)>,
) -> ChangeV {
    if non_secret_differs_spec(wire, live, secret_keys) {
        ChangeV::Full(wire)
    } else {
        let es = rotate_entries(wire, live, pairs);
        if es.len() == 0 {
            ChangeV::Unchanged
        } else {
            ChangeV::SecretOnly(JsonV::Object(es))
        }
    }
}

/// The view of a list of string slices.
pub open spec fn keys_view(keys: Seq<&str>) -> Seq<Seq<char>> {
    keys.map_values(|k: &str| k@)
}

/// The view of a list of `(secret, flag)` key pairs.
pub open spec fn pairs_view(pairs: Seq<(&str, &str)>) -> Seq<(Seq<char>, Seq<char>)> {
    pairs.map_values(|p: (&str, &str)| (p.0@, p.1@))
}

/// Whether the live read says the secret behind `configured_key` is stored.
pub fn is_configured(live: &Json, configured_key: &str) -> (r: bool)
    ensures
        r == is_configured_spec(live@, configured_key@),
{
    match live.get(configured_key) {
        Some(v) => match v.as_bool() {
            Some(b) => b,
            None => false,
        },
        None => false,
    }
}

fn contains_key(keys: &[&str], k: &str) -> (r: bool)
    ensures
        r == keys_view(keys@).contains(k@),
{
    let mut i: usize = 0;
    while i < keys.len()
        invariant
            i <= keys@.len(),
            forall|j: int| 0 <= j < i ==> keys@[j]@ != k@,
        decreases keys@.len() - i,
    {
        if str_equal(keys[i], k) {
            assert(keys_view(keys@)[i as int] == k@);
            return true;
        }
        i = i + 1;
    }
    assert(!keys_view(keys@).contains(k@)) by {
        if keys_view(keys@).contains(k@) {
            let j = choose|j: int| 0 <= j < keys_view(keys@).len() && keys_view(keys@)[j] == k@;
            assert(keys@[j]@ == k@);
        }
    }
    false
}

/// Whether some declared key other than the secrets differs from live.  Only
/// declared keys are compared, so an undeclared field never counts.
pub fn non_secret_differs(wire: &Json, live: &Json, secret_keys: &[&str]) -> (r: bool)
    ensures
        r == non_secret_differs_spec(wire@, live@, keys_view(secret_keys@)),
{
    let es = match wire.as_object() {
        Some(es) => es,
        None => {
            return false;
        },
    };
    let ghost v = crate::json::entries_view(es@);
    let ghost sk = keys_view(secret_keys@);
    let mut i: usize = 0;
    while i < es.len()
        invariant
            i <= es@.len(),
            v == crate::json::entries_view(es@),
            sk == keys_view(secret_keys@),
            wire@ == JsonV::Object(v),
            forall|j: int|
                0 <= j < i && is_last(v, j) && !sk.contains(v[j].0) ==> #[trigger] live_equals(
                    live@.get(v[j].0),
                    v[j].1,
                ),
        decreases es@.len() - i,
    {
        if entry_is_last_and_open(es, i, secret_keys) {
            let same = match live.get(es[i].0.as_str()) {
                Some(h) => h.equals(&es[i].1),
                None => false,
            };
            if !same {
                assert(!live_equals(live@.get(v[i as int].0), v[i as int].1));
                return true;
            }
        }
        i = i + 1;
    }
    false
}

fn entry_is_last_and_open(es: &Vec<(String, Json)>, i: usize, secret_keys: &[&str]) -> (r: bool)
    requires
        i < es@.len(),
    ensures
        r == (is_last(crate::json::entries_view(es@), i as int) && !keys_view(secret_keys@).contains(
            es@[i as int].0@,
        )),
{
    crate::json::entry_is_last(es, i) && !contains_key(secret_keys, es[i].0.as_str())
}

/// Decides the write for a `*Configured`-shaped singleton: `secret_keys` names
/// every write-side secret; `configured_keys` pairs each with its live flag.
pub fn plan_secret_config(
    wire: &Json,
    live: &Json,
    secret_keys: &[&str],
    configured_keys: &[(&str, &str)],
) -> (r: SecretConfigChange)
    ensures
        r@ == plan_spec(wire@, live@, keys_view(secret_keys@), pairs_view(configured_keys@)),
{
    if non_secret_differs(wire, live, secret_keys) {
        return SecretConfigChange::Full(wire.deep_clone());
    }
    let ghost pv = pairs_view(configured_keys@);
    let mut only = Json::empty_object();
    let mut i: usize = 0;
    while i < configured_keys.len()
        invariant
            i <= configured_keys@.len(),
            pv == pairs_view(configured_keys@),
            only@ == JsonV::Object(rotate_entries(wire@, live@, pv.take(i as int))),
        decreases configured_keys@.len() - i,
    {
        proof {
            assert(pv.take(i + 1).drop_last() =~= pv.take(i as int));
            assert(pv.take(i + 1).last() == pv[i as int]);
        }
        let (secret_key, configured_key) = configured_keys[i];
        if !is_configured(live, configured_key) {
            match wire.get(secret_key) {
                Some(v) => {
                    only = only.set_key(secret_key.to_owned(), v.deep_clone());
                },
                None => {},
            }
        }
        i = i + 1;
    }
    assert(pv.take(configured_keys@.len() as int) =~= pv);
    let empty = match only.as_object() {
        Some(es) => es.len() == 0,
        None => true,
    };
    if empty {
        SecretConfigChange::Unchanged
    } else {
        SecretConfigChange::SecretOnly(only)
    }
}

/// The secret-only body holds nothing but declared secrets whose live flag is
/// not `true`, each with its declared value.
pub proof fn law_secret_only_holds_only_unstored_secrets(
    wire: JsonV,
    live: JsonV,
    pairs: Seq<(Seq<char>, Seq<char>)>,
)
    ensures
        forall|j: int|
            0 <= j < rotate_entries(wire, live, pairs).len() ==> exists|m: int|
                0 <= m < pairs.len() && #[trigger] rotate_entries(wire, live, pairs)[j].0
                    == pairs[m].0 && !is_configured_spec(live, pairs[m].1) && wire.get(pairs[m].0)
                    == Some(rotate_entries(wire, live, pairs)[j].1),
    decreases pairs.len(),
{
    if pairs.len() > 0 {
        let d = pairs.drop_last();
        law_secret_only_holds_only_unstored_secrets(wire, live, d);
        let prev = rotate_entries(wire, live, d);
        let cur = rotate_entries(wire, live, pairs);
        assert forall|j: int| 0 <= j < cur.len() implies exists|m: int|
            0 <= m < pairs.len() && #[trigger] cur[j].0 == pairs[m].0 && !is_configured_spec(
                live,
                pairs[m].1,
            ) && wire.get(pairs[m].0) == Some(cur[j].1) by {
            if j < prev.len() {
                assert(cur[j] == prev[j]);
                let m = choose|m: int|
                    0 <= m < d.len() && #[trigger] prev[j].0 == d[m].0 && !is_configured_spec(
                        live,
                        d[m].1,
                    ) && wire.get(d[m].0) == Some(prev[j].1);
                assert(pairs[m] == d[m]);
            } else {
                let m = pairs.len() - 1;
                assert(cur[j].0 == pairs[m].0);
            }
        }
    }
}

/// Convergence: once the live read holds every declared non-secret value and
/// flags every declared secret as stored, the decision is to write nothing.
pub proof fn law_converged_config_is_unchanged(
    wire: JsonV,
    live: JsonV,
    secret_keys: Seq<Seq<char>>,
    pairs: Seq<(Seq<char>, Seq<char>)>,
)
    requires
        wire matches JsonV::Object(es) && forall|i: int|
            0 <= i < es.len() && is_last(es, i) && !secret_keys.contains(es[i].0)
                ==> #[trigger] live_equals(live.get(es[i].0), es[i].1),
        forall|m: int|
            0 <= m < pairs.len() && wire.get(#[trigger] pairs[m].0) is Some ==> is_configured_spec(
                live,
                pairs[m].1,
            ),
    ensures
        plan_spec(wire, live, secret_keys, pairs) == ChangeV::Unchanged,
{
    lemma_nothing_to_rotate(wire, live, pairs);
}

proof fn lemma_nothing_to_rotate(wire: JsonV, live: JsonV, pairs: Seq<(Seq<char>, Seq<char>)>)
    requires
        forall|m: int|
            0 <= m < pairs.len() && wire.get(#[trigger] pairs[m].0) is Some ==> is_configured_spec(
                live,
                pairs[m].1,
            ),
    ensures
        rotate_entries(wire, live, pairs).len() == 0,
    decreases pairs.len(),
{
    if pairs.len() > 0 {
        let d = pairs.drop_last();
        assert forall|m: int|
            0 <= m < d.len() && wire.get(#[trigger] d[m].0) is Some implies is_configured_spec(
            live,
            d[m].1,
        ) by {
            assert(pairs[m] == d[m]);
        }
        lemma_nothing_to_rotate(wire, live, d);
        let m = pairs.len() - 1;
        assert(pairs[m] == pairs.last());
    }
}

} // verus!
