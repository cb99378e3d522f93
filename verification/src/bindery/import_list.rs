//! `/api/v1/importlist` — a configured import list that syncs works into
//! Bindery.
//!
//! `apiKey` is write-only (every read blanks it), so it is never compared:
//! rotating only the key produces no update.  `account` is create-only, and
//! the update body is its own schema, so updates send only the keys that
//! schema has.  Comparison ignores `apiKey`, `apiKeyConfigured`, `account`,
//! `lastSyncAt`, `createdAt`, `updatedAt` and `id`.
use crate::json::{elems_view, entries_view, has_key, is_last, json_eq, obj_get, str_equal, Json, JsonV};
use crate::render::{compact_text, render_compact};
use crate::sync::{matches_value, value_matches};
use crate::wire::{self, opt_bool_v, opt_i64_v, opt_push, opt_str_v};
use vstd::prelude::*;

verus! {

/// Keys never compared.
pub open spec fn ignored_on_diff(k: Seq<char>) -> bool {
    k == "apiKey"@ || k == "apiKeyConfigured"@ || k == "account"@ || k == "lastSyncAt"@ || k
        == "createdAt"@ || k == "updatedAt"@ || k == "id"@
}

fn is_ignored(k: &str) -> (r: bool)
    ensures
        r == ignored_on_diff(k@),
{
    str_equal(k, "apiKey") || str_equal(k, "apiKeyConfigured") || str_equal(k, "account")
        || str_equal(k, "lastSyncAt") || str_equal(k, "createdAt") || str_equal(k, "updatedAt")
        || str_equal(k, "id")
}

/// Every compared key the declared list holds equals the live value there, or
/// is declared `null` where live lacks it.
pub open spec fn declared_match(want: Seq<(Seq<char>, JsonV)>, have: Seq<(Seq<char>, JsonV)>) -> bool {
    forall|i: int|
        0 <= i < want.len() && is_last(want, i) && !ignored_on_diff(want[i].0)
            ==> #[trigger] value_matches(obj_get(have, want[i].0), want[i].1)
}

/// A live entry is consistent with the declared list when its key is ignored,
/// declared (and so compared above), or its value is `null`: a key the list
/// leaves out means "unset".
pub open spec fn undeclared_ok(want: Seq<(Seq<char>, JsonV)>, e: (Seq<char>, JsonV)) -> bool {
    ignored_on_diff(e.0) || has_key(want, e.0) || e.1 is Null
}

/// Every live key the declared list leaves out is absent or `null` live.
pub open spec fn undeclared_unset(want: Seq<(Seq<char>, JsonV)>, have: Seq<(Seq<char>, JsonV)>) -> bool {
    forall|j: int| 0 <= j < have.len() && is_last(have, j) ==> #[trigger] undeclared_ok(want, have[j])
}

/// Whether a declared list matches a live one: every compared declared key
/// equals the live value there (or is declared `null` where live lacks it),
/// and every compared key the declaration leaves out is absent or `null` live;
/// when either is not an object, whether they are equal.
pub open spec fn in_sync_spec(desired: JsonV, live: JsonV) -> bool {
    match (desired, live) {
        (JsonV::Object(want), JsonV::Object(have)) => declared_match(want, have)
            && undeclared_unset(want, have),
        _ => json_eq(desired, live),
    }
}

/// Whether the declared list `desired` already matches the live entry `live`.
pub fn in_sync(desired: &Json, live: &Json) -> (r: bool)
    ensures
        r == in_sync_spec(desired@, live@),
{
    let (want, have) = match (desired.as_object(), live.as_object()) {
        (Some(w), Some(h)) => (w, h),
        _ => {
            return desired.equals(live);
        },
    };
    let ghost wv = entries_view(want@);
    let ghost hv = entries_view(have@);
    let mut i: usize = 0;
    while i < want.len()
        invariant
            i <= want@.len(),
            wv == entries_view(want@),
            hv == entries_view(have@),
            desired@ == JsonV::Object(wv),
            live@ == JsonV::Object(hv),
            forall|m: int|
                0 <= m < i && is_last(wv, m) && !ignored_on_diff(wv[m].0)
                    ==> #[trigger] value_matches(obj_get(hv, wv[m].0), wv[m].1),
        decreases want@.len() - i,
    {
        if crate::json::entry_is_last(want, i) && !is_ignored(want[i].0.as_str()) {
            if !matches_value(live.get(want[i].0.as_str()), &want[i].1) {
                assert(!value_matches(obj_get(hv, wv[i as int].0), wv[i as int].1));
                return false;
            }
        }
        i = i + 1;
    }
    let mut j: usize = 0;
    while j < have.len()
        invariant
            j <= have@.len(),
            wv == entries_view(want@),
            hv == entries_view(have@),
            desired@ == JsonV::Object(wv),
            live@ == JsonV::Object(hv),
            declared_match(wv, hv),
            forall|m: int| 0 <= m < j && is_last(hv, m) ==> #[trigger] undeclared_ok(wv, hv[m]),
        decreases have@.len() - j,
    {
        if crate::json::entry_is_last(have, j) && !is_ignored(have[j].0.as_str()) {
            let declared = match crate::json::key_index(want, have[j].0.as_str()) {
                Some(k) => {
                    assert(wv[k as int].0 == hv[j as int].0);
                    true
                },
                None => false,
            };
            if !declared && !have[j].1.is_null() {
                assert(!undeclared_ok(wv, hv[j as int]));
                return false;
            }
        }
        j = j + 1;
    }
    true
}

/// The keys of the update schema, in order.
pub open spec fn update_keys() -> Seq<Seq<char>> {
    seq![
        "name"@,
        "type"@,
        "url"@,
        "rootFolderId"@,
        "qualityProfileId"@,
        "monitorNew"@,
        "autoAdd"@,
        "enabled"@,
        "mediaType"@,
        "ownerUserId"@,
        "apiKey"@,
    ]
}

/// The entries of `wire` (an object) at the given keys, in the keys' order.
pub open spec fn projection(wire: JsonV, keys: Seq<Seq<char>>) -> Seq<(Seq<char>, JsonV)>
    decreases keys.len(),
{
    if keys.len() == 0 {
        Seq::empty()
    } else {
        let prev = projection(wire, keys.drop_last());
        match wire.get(keys.last()) {
            Some(v) => prev.push((keys.last(), v)),
            None => prev,
        }
    }
}

/// The update body: the declared keys the update schema has.
pub fn update_projection(wire: &Json) -> (r: Json)
    ensures
        r@ == JsonV::Object(projection(wire@, update_keys())),
{
    let keys: [&str; 11] = [
        "name",
        "type",
        "url",
        "rootFolderId",
        "qualityProfileId",
        "monitorNew",
        "autoAdd",
        "enabled",
        "mediaType",
        "ownerUserId",
        "apiKey",
    ];
    let ghost kv = keys@.map_values(|k: &str| k@);
    assert(kv =~= update_keys());
    let mut out = Json::empty_object();
    let mut i: usize = 0;
    while i < 11
        invariant
            i <= 11,
            kv == keys@.map_values(|k: &str| k@),
            kv.len() == 11,
            out@ == JsonV::Object(projection(wire@, kv.take(i as int))),
        decreases 11 - i,
    {
        proof {
            assert(kv.take(i + 1).drop_last() =~= kv.take(i as int));
            assert(kv.take(i + 1).last() == keys@[i as int]@);
        }
        let key = keys[i];
        match wire.get(key) {
            Some(v) => {
                out = out.set_key(key.to_owned(), v.deep_clone());
            },
            None => {},
        }
        i = i + 1;
    }
    assert(kv.take(11) =~= kv);
    out
}

/// The URL path of a live list: `/api/v1/importlist/` followed by the JSON text
/// of its `id` (`null` when it has none).
pub fn item_path(live: &Json) -> (r: String)
    ensures
        r@ == "/api/v1/importlist/"@ + compact_text(
            match live@.get("id"@) {
                Some(id) => id,
                None => JsonV::Null,
            },
        ),
        live@.get("id"@) matches Some(JsonV::Number(crate::json::NumberV::PosInt(u))) ==> r@
            == "/api/v1/importlist/"@ + crate::text::decimal(u as nat),
{
    let null = Json::Null;
    let id = match live.get("id") {
        Some(id) => id,
        None => &null,
    };
    let text = render_compact(id);
    let mut r = "/api/v1/importlist/".to_owned();
    r.append(text.as_str());
    r
}

/// A write-only key never forces an update: changing only `apiKey` (or any
/// other ignored key) in the declared list leaves the decision as it was.
pub proof fn law_ignored_keys_never_drift(want: Seq<(Seq<char>, JsonV)>, live: JsonV, k: Seq<char>, v: JsonV)
    requires
        ignored_on_diff(k),
        live is Object,
    ensures
        in_sync_spec(JsonV::Object(want.push((k, v))), live) == in_sync_spec(
            JsonV::Object(crate::json::without_key(want, k)),
            live,
        ),
{
    let have = live->Object_0;
    let w2 = want.push((k, v));
    let w3 = crate::json::without_key(want, k);
    // Each compared key has the same value, and the same presence, in both
    // declared lists.
    assert forall|key: Seq<char>| !ignored_on_diff(key) implies obj_get(w2, key) == obj_get(w3, key)
        && has_key(w2, key) == has_key(w3, key) by {
        crate::json::lemma_without_key_get(want, k, key);
        assert(w2.drop_last() =~= want);
        crate::json::lemma_obj_get_cases(w2, key);
        crate::json::lemma_obj_get_cases(w3, key);
    }
    assert forall|e: (Seq<char>, JsonV)| undeclared_ok(w2, e) == undeclared_ok(w3, e) by {
        if !ignored_on_diff(e.0) {
            assert(has_key(w2, e.0) == has_key(w3, e.0));
        }
    }
    assert(undeclared_unset(w2, have) == undeclared_unset(w3, have)) by {
        if undeclared_unset(w2, have) {
            assert forall|j: int| 0 <= j < have.len() && is_last(have, j) implies #[trigger] undeclared_ok(
                w3,
                have[j],
            ) by {
                assert(undeclared_ok(w2, have[j]));
            }
        }
        if undeclared_unset(w3, have) {
            assert forall|j: int| 0 <= j < have.len() && is_last(have, j) implies #[trigger] undeclared_ok(
                w2,
                have[j],
            ) by {
                assert(undeclared_ok(w3, have[j]));
            }
        }
    }
    lemma_in_sync_by_values(w2, have);
    lemma_in_sync_by_values(w3, have);
}

/// The declared keys match exactly when every compared key that has a value
/// matches the live value there.
proof fn lemma_in_sync_by_values(want: Seq<(Seq<char>, JsonV)>, have: Seq<(Seq<char>, JsonV)>)
    ensures
        declared_match(want, have) == forall|key: Seq<char>|
            !ignored_on_diff(key) && #[trigger] obj_get(want, key) is Some ==> value_matches(
                obj_get(have, key),
                obj_get(want, key)->0,
            ),
{
    let a = declared_match(want, have);
    let b = forall|key: Seq<char>|
        !ignored_on_diff(key) && #[trigger] obj_get(want, key) is Some ==> value_matches(
            obj_get(have, key),
            obj_get(want, key)->0,
        );
    if a {
        assert forall|key: Seq<char>|
            !ignored_on_diff(key) && #[trigger] obj_get(want, key) is Some implies value_matches(
            obj_get(have, key),
            obj_get(want, key)->0,
        ) by {
            crate::json::lemma_obj_get_cases(want, key);
            let v = obj_get(want, key)->0;
            let i = choose|i: int|
                0 <= i < want.len() && is_last(want, i) && want[i].0 == key && #[trigger] want[i].1
                    == v;
            assert(value_matches(obj_get(have, want[i].0), want[i].1));
        }
    }
    if b {
        assert forall|i: int|
            0 <= i < want.len() && is_last(want, i) && !ignored_on_diff(want[i].0) implies #[trigger] value_matches(
            obj_get(have, want[i].0),
            want[i].1,
        ) by {
            crate::json::lemma_obj_get_last(want, i);
            assert(obj_get(want, want[i].0) is Some);
        }
    }
}

/// The step for each declared list against the live lists, matched by `name`.
pub fn plan(desired: &Vec<Json>, live: &Vec<Json>) -> (r: Vec<crate::sync::KeyedStep>)
    ensures
        r@.len() == desired@.len(),
        forall|i: int|
            0 <= i < desired@.len() ==> crate::sync::step_view(#[trigger] r@[i])
                == crate::sync::keyed_step_spec(
                desired@[i]@,
                elems_view(live@),
                "name"@,
                |a: JsonV, b: JsonV| in_sync_spec(a, b),
            ),
{
    let mut out: Vec<crate::sync::KeyedStep> = Vec::new();
    let mut i: usize = 0;
    while i < desired.len()
        invariant
            i <= desired@.len(),
            out@.len() == i,
            forall|m: int|
                0 <= m < i ==> crate::sync::step_view(#[trigger] out@[m])
                    == crate::sync::keyed_step_spec(
                    desired@[m]@,
                    elems_view(live@),
                    "name"@,
                    |a: JsonV, b: JsonV| in_sync_spec(a, b),
                ),
        decreases desired@.len() - i,
    {
        let step = match crate::sync::match_live(&desired[i], live, "name") {
            Some(j) => {
                assert(elems_view(live@)[j as int] == live@[j as int]@);
                if in_sync(&desired[i], &live[j]) {
                    crate::sync::KeyedStep::Unchanged(j)
                } else {
                    crate::sync::KeyedStep::Update(j)
                }
            },
            None => crate::sync::KeyedStep::Create,
        };
        out.push(step);
        i = i + 1;
    }
    out
}

/// The projection gives each of its keys the declared value.
proof fn lemma_projection_get(wire: JsonV, keys: Seq<Seq<char>>, k: Seq<char>)
    requires
        keys.contains(k),
        wire.get(k) is Some,
    ensures
        obj_get(projection(wire, keys), k) == wire.get(k),
        crate::json::has_key(projection(wire, keys), k),
    decreases keys.len(),
{
    let d = keys.drop_last();
    let prev = projection(wire, d);
    if keys.last() == k {
        let v = wire.get(k)->0;
        assert(prev.push((k, v))[prev.len() as int].0 == k);
    } else {
        let j = choose|j: int| 0 <= j < keys.len() && keys[j] == k;
        assert(d[j] == k);
        lemma_projection_get(wire, d, k);
        if let Some(v) = wire.get(keys.last()) {
            let p2 = prev.push((keys.last(), v));
            assert(p2.drop_last() =~= prev);
            let m = choose|m: int| 0 <= m < prev.len() && #[trigger] prev[m].0 == k;
            assert(p2[m].0 == k);
        }
    }
}

/// Every entry of the projection carries a key the declared list has.
proof fn lemma_projection_keys_declared(wire: JsonV, keys: Seq<Seq<char>>)
    ensures
        forall|m: int|
            0 <= m < projection(wire, keys).len() ==> wire.get(
                #[trigger] projection(wire, keys)[m].0,
            ) is Some,
    decreases keys.len(),
{
    if keys.len() > 0 {
        let d = keys.drop_last();
        lemma_projection_keys_declared(wire, d);
        let prev = projection(wire, d);
        let cur = projection(wire, keys);
        assert forall|m: int| 0 <= m < cur.len() implies wire.get(#[trigger] cur[m].0) is Some by {
            if m < prev.len() {
                assert(cur[m] == prev[m]);
            }
        }
    }
}

/// Convergence of an update: when every compared key the list declares is one
/// the update schema has, and the live list holds nothing the declaration
/// leaves unset, applying the update body on top of the live list leaves the
/// declared list in sync with it.
pub proof fn law_applied_update_is_in_sync(wire: JsonV, live: JsonV)
    requires
        wire matches JsonV::Object(es) && forall|i: int|
            0 <= i < es.len() && !ignored_on_diff(es[i].0) ==> update_keys().contains(
                #[trigger] es[i].0,
            ),
        wire matches JsonV::Object(es) && live matches JsonV::Object(ls) && undeclared_unset(es, ls),
    ensures
        in_sync_spec(wire, crate::sync::after_write(live, projection(wire, update_keys()))),
{
    let es = wire->Object_0;
    let ls = live->Object_0;
    let proj = projection(wire, update_keys());
    let have = ls + proj;
    assert forall|i: int|
        0 <= i < es.len() && is_last(es, i) && !ignored_on_diff(es[i].0) implies #[trigger] value_matches(
        obj_get(have, es[i].0),
        es[i].1,
    ) by {
        let k = es[i].0;
        crate::json::lemma_obj_get_last(es, i);
        lemma_projection_get(wire, update_keys(), k);
        crate::json::lemma_obj_get_append(ls, proj, k);
        crate::json::lemma_json_eq_refl(es[i].1);
    }
    lemma_projection_keys_declared(wire, update_keys());
    assert forall|j: int| 0 <= j < have.len() && is_last(have, j) implies #[trigger] undeclared_ok(
        es,
        have[j],
    ) by {
        if j >= ls.len() {
            let m = j - ls.len();
            assert(have[j] == proj[m]);
            crate::json::lemma_obj_get_cases(es, proj[m].0);
        } else {
            assert(have[j] == ls[j]);
            assert(is_last(ls, j)) by {
                assert forall|n: int| j < n < ls.len() implies #[trigger] ls[n].0 != ls[j].0 by {
                    assert(have[n] == ls[n]);
                }
            }
        }
    }
}

/// An import list as the config declares it.
pub struct ImportList {
    /// Server id; never sent.
    pub id: Option<i64>,
    /// Display name, the list's identity.
    pub name: String,
    /// The list kind (`csv` by default), sent as `type`.
    pub list_type: String,
    pub url: Option<String>,
    /// Write-only credential.
    pub api_key: Option<String>,
    /// Read-only; never sent.
    pub api_key_configured: Option<bool>,
    /// Create-only account.
    pub account: Option<String>,
    pub root_folder_id: Option<i64>,
    pub quality_profile_id: Option<i64>,
    pub owner_user_id: Option<i64>,
    pub media_type: Option<String>,
    pub monitor_new: Option<bool>,
    pub auto_add: Option<bool>,
    pub enabled: Option<bool>,
    /// Read-only timestamps; never sent.
    pub last_sync_at: Option<String>,
    pub created_at: Option<String>,
    pub updated_at: Option<String>,
}

/// The wire entries of an import list.
pub open spec fn list_entries(l: ImportList) -> Seq<(Seq<char>, JsonV)> {
    let es = seq![("name"@, JsonV::String(l.name@)), ("type"@, JsonV::String(l.list_type@))];
    let es = opt_push(es, "url"@, opt_str_v(l.url));
    let es = opt_push(es, "apiKey"@, opt_str_v(l.api_key));
    let es = opt_push(es, "account"@, opt_str_v(l.account));
    let es = opt_push(es, "rootFolderId"@, opt_i64_v(l.root_folder_id));
    let es = opt_push(es, "qualityProfileId"@, opt_i64_v(l.quality_profile_id));
    let es = opt_push(es, "ownerUserId"@, opt_i64_v(l.owner_user_id));
    let es = opt_push(es, "mediaType"@, opt_str_v(l.media_type));
    let es = opt_push(es, "monitorNew"@, opt_bool_v(l.monitor_new));
    let es = opt_push(es, "autoAdd"@, opt_bool_v(l.auto_add));
    opt_push(es, "enabled"@, opt_bool_v(l.enabled))
}

impl ImportList {
    /// The wire form of the list (id and read-only fields are never sent).
    pub fn to_wire(&self) -> (r: Json)
        ensures
            r@ == JsonV::Object(list_entries(*self)),
    {
        let mut es: Vec<(String, Json)> = Vec::new();
        proof {
            assert(entries_view(es@) =~= Seq::empty());
        }
        wire::push(&mut es, "name", wire::str_json(&self.name));
        wire::push(&mut es, "type", wire::str_json(&self.list_type));
        proof {
            assert(entries_view(es@) =~= seq![
                ("name"@, JsonV::String(self.name@)),
                ("type"@, JsonV::String(self.list_type@)),
            ]);
        }
        wire::push_opt(&mut es, "url", wire::opt_str_json(&self.url));
        wire::push_opt(&mut es, "apiKey", wire::opt_str_json(&self.api_key));
        wire::push_opt(&mut es, "account", wire::opt_str_json(&self.account));
        wire::push_opt(&mut es, "rootFolderId", wire::opt_i64_json(self.root_folder_id));
        wire::push_opt(&mut es, "qualityProfileId", wire::opt_i64_json(self.quality_profile_id));
        wire::push_opt(&mut es, "ownerUserId", wire::opt_i64_json(self.owner_user_id));
        wire::push_opt(&mut es, "mediaType", wire::opt_str_json(&self.media_type));
        wire::push_opt(&mut es, "monitorNew", wire::opt_bool_json(self.monitor_new));
        wire::push_opt(&mut es, "autoAdd", wire::opt_bool_json(self.auto_add));
        wire::push_opt(&mut es, "enabled", wire::opt_bool_json(self.enabled));
        wire::object(es)
    }
}

} // verus!
