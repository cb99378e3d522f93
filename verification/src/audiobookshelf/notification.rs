//! `/api/notifications` — one notification rule.
//!
//! The rules live at `.settings.notifications` of the `GET` envelope.  A rule
//! has no name of its own: its identity is `"{eventName}@{libraryId|global}"`,
//! stamped under a synthetic `_identity` key onto copies of the declared and
//! live values only for matching, and removed again before anything is sent.
//! Comparison ignores `_identity`, `id` and the server-computed firing history.
use crate::json::{entries_view, json_eq, str_equal, without_key, Json, JsonV};
use crate::sync::{self, echo_spec, nested_list_spec, str_or};
use crate::json::elems_view;
use crate::text::push_char;
use crate::wire::{self, null_push, opt_push, opt_str_v, strs_v};
use vstd::prelude::*;

verus! {

/// Keys never compared: the synthetic matching key, the server id, and the
/// firing history no declared config can express.
pub open spec fn ignored_key(k: Seq<char>) -> bool {
    k == "_identity"@ || k == "id"@ || k == "lastFiredAt"@ || k == "lastAttemptFailed"@ || k
        == "numConsecutiveFailedAttempts"@ || k == "numTimesFired"@ || k == "createdAt"@
}

/// The entries whose keys are compared, in order.
pub open spec fn compared_entries(es: Seq<(Seq<char>, JsonV)>) -> Seq<(Seq<char>, JsonV)>
    decreases es.len(),
{
    if es.len() == 0 {
        es
    } else if ignored_key(es.last().0) {
        compared_entries(es.drop_last())
    } else {
        compared_entries(es.drop_last()).push(es.last())
    }
}

/// The object that is compared for `v`: its entries without the ignored keys
/// (no entries when `v` is not an object).
pub open spec fn stripped_spec(v: JsonV) -> JsonV {
    match v {
        JsonV::Object(es) => JsonV::Object(compared_entries(es)),
        _ => JsonV::Object(Seq::empty()),
    }
}

/// Whether a declared rule matches a live one: equal once the ignored keys are
/// dropped from both.
pub open spec fn in_sync_spec(desired: JsonV, live: JsonV) -> bool {
    json_eq(stripped_spec(desired), stripped_spec(live))
}

/// `"{eventName}@{libraryId|global}"`: an absent or non-string event is empty,
/// an absent, `null` or non-string library is `global`.
pub open spec fn identity_spec(v: JsonV) -> Seq<char> {
    str_or(v, "eventName"@, Seq::empty()) + seq!['@'] + str_or(v, "libraryId"@, "global"@)
}

/// `v` with `_identity` set to its identity, when it is an object.
pub open spec fn with_identity_spec(v: JsonV) -> JsonV {
    match v {
        JsonV::Object(es) => JsonV::Object(
            es.push(("_identity"@, JsonV::String(identity_spec(v)))),
        ),
        other => other,
    }
}

/// `v` without `_identity`, when it is an object.
pub open spec fn strip_identity_spec(v: JsonV) -> JsonV {
    match v {
        JsonV::Object(es) => JsonV::Object(without_key(es, "_identity"@)),
        other => other,
    }
}

fn is_ignored(k: &str) -> (r: bool)
    ensures
        r == ignored_key(k@),
{
    str_equal(k, "_identity") || str_equal(k, "id") || str_equal(k, "lastFiredAt") || str_equal(
        k,
        "lastAttemptFailed",
    ) || str_equal(k, "numConsecutiveFailedAttempts") || str_equal(k, "numTimesFired")
        || str_equal(k, "createdAt")
}

/// The object compared for `v`: a copy of its entries without the ignored
/// keys (an empty object when `v` is not an object).
pub fn stripped_for_compare(v: &Json) -> (r: Json)
    ensures
        r@ == stripped_spec(v@),
{
    let mut out: Vec<(String, Json)> = Vec::new();
    match v.as_object() {
        None => {
            proof {
                crate::json::lemma_object_view(out);
                assert(entries_view(out@) =~= Seq::empty());
            }
            Json::Object(out)
        },
        Some(es) => {
            let ghost ev = entries_view(es@);
            let mut i: usize = 0;
            while i < es.len()
                invariant
                    i <= es@.len(),
                    ev == entries_view(es@),
                    entries_view(out@) == compared_entries(ev.take(i as int)),
                decreases es@.len() - i,
            {
                proof {
                    assert(ev.take(i + 1).drop_last() =~= ev.take(i as int));
                    assert(ev.take(i + 1).last() == ev[i as int]);
                }
                if !is_ignored(es[i].0.as_str()) {
                    let ghost before = out@;
                    out.push((es[i].0.clone(), es[i].1.deep_clone()));
                    proof {
                        assert(entries_view(out@) =~= entries_view(before).push(ev[i as int]));
                    }
                }
                i = i + 1;
            }
            proof {
                assert(ev.take(es@.len() as int) =~= ev);
                crate::json::lemma_object_view(out);
            }
            Json::Object(out)
        },
    }
}

/// Whether the declared rule `desired` already matches the live rule `live`:
/// every key but the ignored ones must be equal.
pub fn in_sync(desired: &Json, live: &Json) -> (r: bool)
    ensures
        r == in_sync_spec(desired@, live@),
{
    stripped_for_compare(desired).equals(&stripped_for_compare(live))
}

/// The rule's identity, `"{eventName}@{libraryId|global}"`.
pub fn identity_of(v: &Json) -> (r: String)
    ensures
        r@ == identity_spec(v@),
{
    let event: &str = match v.get("eventName") {
        Some(e) => match e.as_str() {
            Some(s) => s,
            None => "",
        },
        None => "",
    };
    let library: &str = match v.get("libraryId") {
        Some(l) => match l.as_str() {
            Some(s) => s,
            None => "global",
        },
        None => "global",
    };
    proof {
        reveal_strlit("");
    }
    let mut r = event.to_owned();
    push_char(&mut r, '@');
    r.append(library);
    r
}

/// A copy of `v` carrying its identity under `_identity`, for matching.
pub fn with_identity(v: Json) -> (r: Json)
    ensures
        r@ == with_identity_spec(v@),
{
    let identity = identity_of(&v);
    v.set_key("_identity".to_owned(), Json::String(identity))
}

/// `v` without the synthetic `_identity` key, before it reaches the wire.
pub fn strip_identity(v: Json) -> (r: Json)
    ensures
        r@ == strip_identity_spec(v@),
{
    v.remove_key("_identity")
}

/// The live rules: `.settings.notifications` of the `GET` envelope.
pub fn live_rules(envelope: &Json) -> (r: Vec<Json>)
    ensures
        elems_view(r@) == nested_list_spec(envelope@, "settings"@, "notifications"@),
{
    sync::nested_list_at(envelope, "settings", "notifications")
}

/// The update body: the declared rule without `_identity`, carrying the live
/// rule's `id` (the server finds the rule by the body's id).
pub fn update_body(keyed: Json, live: &Json) -> (r: Json)
    ensures
        r@ == echo_spec(strip_identity_spec(keyed@), "id"@, live@),
{
    sync::echo_key(strip_identity(keyed), "id", live)
}

/// Stamping and then stripping the identity gives back any object that did not
/// already carry `_identity`.
pub proof fn law_strip_undoes_stamp(v: JsonV)
    requires
        !(v matches JsonV::Object(es) && crate::json::has_key(es, "_identity"@)),
    ensures
        strip_identity_spec(with_identity_spec(v)) == v,
{
    if let JsonV::Object(es) = v {
        let e = ("_identity"@, JsonV::String(identity_spec(v)));
        assert(es.push(e).drop_last() =~= es);
        crate::json::lemma_without_absent_key(es, "_identity"@);
    }
}

/// Stamping the identity onto both sides never changes whether they are in
/// sync.
pub proof fn law_in_sync_ignores_stamp(desired: JsonV, live: JsonV)
    ensures
        in_sync_spec(with_identity_spec(desired), with_identity_spec(live)) == in_sync_spec(
            desired,
            live,
        ),
{
    if let JsonV::Object(es) = desired {
        let e = ("_identity"@, JsonV::String(identity_spec(desired)));
        assert(es.push(e).drop_last() =~= es);
    }
    if let JsonV::Object(es) = live {
        let e = ("_identity"@, JsonV::String(identity_spec(live)));
        assert(es.push(e).drop_last() =~= es);
    }
}

/// Every rule is in sync with itself.
pub proof fn law_in_sync_reflexive(v: JsonV)
    ensures
        in_sync_spec(v, v),
{
    crate::json::lemma_json_eq_refl(stripped_spec(v));
}

/// One notification rule as the config declares it.
pub struct Notification {
    /// Server-generated id; never sent.
    pub id: Option<String>,
    /// The library the rule is restricted to; unset means every library (sent
    /// as `null`).
    pub library_id: Option<String>,
    /// The event that fires the rule.
    pub event_name: String,
    /// Apprise URLs the payload is posted to.
    pub urls: Vec<String>,
    /// Title template.
    pub title_template: Option<String>,
    /// Body template.
    pub body_template: Option<String>,
    /// Whether the rule fires.
    pub enabled: bool,
    /// Client-side styling hint; unset is sent as `null`.
    pub notification_type: Option<String>,
}

/// The wire entries of a declared rule.
pub open spec fn rule_entries(n: Notification) -> Seq<(Seq<char>, JsonV)> {
    null_push(
        opt_push(
            opt_push(
                null_push(Seq::empty(), "libraryId"@, opt_str_v(n.library_id)).push(
                    ("eventName"@, JsonV::String(n.event_name@)),
                ).push(("urls"@, strs_v(n.urls@))),
                "titleTemplate"@,
                opt_str_v(n.title_template),
            ),
            "bodyTemplate"@,
            opt_str_v(n.body_template),
        ).push(("enabled"@, JsonV::Bool(n.enabled))),
        "type"@,
        opt_str_v(n.notification_type),
    )
}

impl Notification {
    /// The wire form of the declared rule (the id is never sent).
    pub fn to_wire(&self) -> (r: Json)
        ensures
            r@ == JsonV::Object(rule_entries(*self)),
    {
        let mut es: Vec<(String, Json)> = Vec::new();
        proof {
            assert(entries_view(es@) =~= Seq::empty());
        }
        wire::push_nullable(&mut es, "libraryId", wire::opt_str_json(&self.library_id));
        wire::push(&mut es, "eventName", wire::str_json(&self.event_name));
        wire::push(&mut es, "urls", wire::strs_json(&self.urls));
        wire::push_opt(&mut es, "titleTemplate", wire::opt_str_json(&self.title_template));
        wire::push_opt(&mut es, "bodyTemplate", wire::opt_str_json(&self.body_template));
        wire::push(&mut es, "enabled", Json::Bool(self.enabled));
        wire::push_nullable(&mut es, "type", wire::opt_str_json(&self.notification_type));
        wire::object(es)
    }
}

/// The step for each stamped declared rule against the stamped live rules,
/// matched by `_identity`.
pub fn plan(desired: &Vec<Json>, live: &Vec<Json>) -> (r: Vec<crate::sync::KeyedStep>)
    ensures
        r@.len() == desired@.len(),
        forall|i: int|
            0 <= i < desired@.len() ==> crate::sync::step_view(#[trigger] r@[i])
                == crate::sync::keyed_step_spec(
                desired@[i]@,
                elems_view(live@),
                "_identity"@,
                |a: JsonV, b: JsonV| in_sync_spec(a, b),
            ),
{
    let mut out: Vec<crate::sync::KeyedStep> = Vec::new();
    let mut i: usize = 0;
    while i < desired.len()
        invariant
            i <= desired@.len(),
            out@.len() == i,
            forall|m: int|
                0 <= m < i ==> crate::sync::step_view(#[trigger] out@[m])
                    == crate::sync::keyed_step_spec(
                    desired@[m]@,
                    elems_view(live@),
                    "_identity"@,
                    |a: JsonV, b: JsonV| in_sync_spec(a, b),
                ),
        decreases desired@.len() - i,
    {
        let step = match crate::sync::match_live(&desired[i], live, "_identity") {
            Some(j) => {
                assert(elems_view(live@)[j as int] == live@[j as int]@);
                if in_sync(&desired[i], &live[j]) {
                    crate::sync::KeyedStep::Unchanged(j)
                } else {
                    crate::sync::KeyedStep::Update(j)
                }
            },
            None => crate::sync::KeyedStep::Create,
        };
        out.push(step);
        i = i + 1;
    }
    out
}

/// Dropping an ignored key never changes what is compared.
proof fn lemma_compared_without_ignored(es: Seq<(Seq<char>, JsonV)>, k: Seq<char>)
    requires
        ignored_key(k),
    ensures
        compared_entries(without_key(es, k)) == compared_entries(es),
    decreases es.len(),
{
    if es.len() > 0 {
        let d = es.drop_last();
        lemma_compared_without_ignored(d, k);
        if es.last().0 != k {
            let w = without_key(d, k);
            assert(w.push(es.last()).drop_last() =~= w);
        }
    }
}

/// A rule the server stores as sent reads back in sync: the update body (the
/// declared rule without `_identity`, carrying the live id) compares equal to
/// the declared rule.
pub proof fn law_written_rule_is_in_sync(keyed: JsonV, live: JsonV)
    requires
        keyed is Object,
    ensures
        in_sync_spec(keyed, echo_spec(strip_identity_spec(keyed), "id"@, live)),
{
    let es = keyed->Object_0;
    let base = without_key(es, "_identity"@);
    lemma_compared_without_ignored(es, "_identity"@);
    if let Some(v) = live.get("id"@) {
        assert(base.push(("id"@, v)).drop_last() =~= base);
    }
    crate::json::lemma_json_eq_refl(stripped_spec(keyed));
}

/// Dropping the ignored keys keeps the value of every other key.
proof fn lemma_compared_get(es: Seq<(Seq<char>, JsonV)>, k: Seq<char>)
    requires
        !ignored_key(k),
    ensures
        crate::json::obj_get(compared_entries(es), k) == crate::json::obj_get(es, k),
    decreases es.len(),
{
    if es.len() > 0 {
        lemma_compared_get(es.drop_last(), k);
        if !ignored_key(es.last().0) {
            let c = compared_entries(es.drop_last());
            assert(c.push(es.last()).drop_last() =~= c);
        }
    }
}

/// Every key but `_identity`, `id` and the firing history (`lastFiredAt`,
/// `lastAttemptFailed`, `numConsecutiveFailedAttempts`, `numTimesFired`,
/// `createdAt`) is compared: a declared rule whose value at such a key the
/// live rule lacks, or holds a different value at, is not in sync.
pub proof fn law_in_sync_compares_every_other_key(desired: JsonV, live: JsonV, k: Seq<char>)
    requires
        k != "_identity"@,
        k != "id"@,
        k != "lastFiredAt"@,
        k != "lastAttemptFailed"@,
        k != "numConsecutiveFailedAttempts"@,
        k != "numTimesFired"@,
        k != "createdAt"@,
        desired.get(k) matches Some(v) && match live.get(k) {
            None => true,
            Some(w) => !json_eq(v, w),
        },
    ensures
        !in_sync_spec(desired, live),
{
    let v = desired.get(k)->0;
    let xs = stripped_spec(desired)->Object_0;
    let ys = stripped_spec(live)->Object_0;
    let des = desired->Object_0;
    lemma_compared_get(des, k);
    assert(crate::json::obj_get(xs, k) == Some(v));
    crate::json::lemma_obj_get_cases(xs, k);
    let i = choose|i: int| 0 <= i < xs.len() && crate::json::is_last(xs, i) && xs[i].0 == k && #[trigger] xs[i].1 == v;
    if let JsonV::Object(les) = live {
        lemma_compared_get(les, k);
    }
    assert(crate::json::obj_get(ys, k) == live.get(k));
    crate::json::lemma_obj_get_cases(ys, k);
    match live.get(k) {
        None => {
            assert(!crate::json::has_key(ys, xs[i].0));
        },
        Some(w) => {
            let j = choose|j: int| 0 <= j < ys.len() && crate::json::is_last(ys, j) && ys[j].0 == k && #[trigger] ys[j].1 == w;
            assert(!json_eq(xs[i].1, ys[j].1));
        },
    }
}

/// Whether `k` is `_identity`, `id` or a key of the firing history.
pub open spec fn server_or_history_key(k: Seq<char>) -> bool {
    ||| k == "_identity"@
    ||| k == "id"@
    ||| k == "lastFiredAt"@
    ||| k == "lastAttemptFailed"@
    ||| k == "numConsecutiveFailedAttempts"@
    ||| k == "numTimesFired"@
    ||| k == "createdAt"@
}

/// `_identity`, `id` and the firing history are never compared: setting one
/// of them on the declared or the live rule, to any value, never changes
/// whether the two are in sync.
pub proof fn law_in_sync_ignores_server_keys(
    des: Seq<(Seq<char>, JsonV)>,
    les: Seq<(Seq<char>, JsonV)>,
    k: Seq<char>,
    x: JsonV,
)
    requires
        server_or_history_key(k),
    ensures
        in_sync_spec(JsonV::Object(des), JsonV::Object(les.push((k, x)))) == in_sync_spec(
            JsonV::Object(des),
            JsonV::Object(les),
        ),
        in_sync_spec(JsonV::Object(des.push((k, x))), JsonV::Object(les)) == in_sync_spec(
            JsonV::Object(des),
            JsonV::Object(les),
        ),
{
    assert(les.push((k, x)).drop_last() =~= les);
    assert(des.push((k, x)).drop_last() =~= des);
}

} // verus!
