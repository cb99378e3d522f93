//! `/api/libraries` — an Audiobookshelf library: named folders scanned into
//! library items, with per-library settings.
//!
//! The list read is an envelope (`{libraries: [...]}`), so the live entries and
//! their ids are taken out of it here.  `folders` has three shapes: bare paths
//! on create, server-enriched objects on read, and id-or-path entries on
//! update, where the update is a destructive replace-by-id — a live folder
//! whose id is not echoed back is deleted with every item scanned from it.  So
//! the update body echoes the id of every live folder whose `fullPath` is still
//! declared, and a folder dropped from config is dropped from the body.
use crate::json::{
    elems_view, entry_is_last, is_last, json_eq, obj_get, opt_view, str_equal, without_key, Json,
    JsonV,
};
use crate::sync::{
    self, list_at_spec, matches_value, named_refs_spec, refs_view, str_or_empty, value_matches,
    RefId,
};
use crate::text::strings_view;
use vstd::prelude::*;

verus! {

/// The `fullPath` strings of a `folders` array (read or declared shape).
pub open spec fn folder_path_set(folders: Option<JsonV>) -> Set<Seq<char>> {
    match folders {
        Some(JsonV::Array(xs)) => Set::new(
            |p: Seq<char>| exists|i: int| 0 <= i < xs.len() && #[trigger] xs[i].str_at("fullPath"@) == Some(p),
        ),
        _ => Set::empty(),
    }
}

/// The `fullPath` strings of a `folders` array; only `fullPath` is compared.
pub fn folder_paths(folders: Option<&Json>) -> (r: Vec<String>)
    ensures
        strings_view(r@) == match opt_view(folders) {
            Some(JsonV::Array(xs)) => sync::keys_of(xs, "fullPath"@),
            _ => Seq::empty(),
        },
        forall|p: Seq<char>|
            folder_path_set(opt_view(folders)).contains(p) <==> strings_view(r@).contains(p),
{
    let xs = match folders {
        Some(f) => match f.as_array() {
            Some(xs) => xs,
            None => {
                let out: Vec<String> = Vec::new();
                assert(strings_view(out@) =~= Seq::empty());
                return out;
            },
        },
        None => {
            let out: Vec<String> = Vec::new();
            assert(strings_view(out@) =~= Seq::empty());
            return out;
        },
    };
    let out = sync::keys_at(xs, "fullPath");
    proof {
        assert forall|p: Seq<char>|
            folder_path_set(opt_view(folders)).contains(p) <==> strings_view(out@).contains(p) by {
            sync::lemma_keys_of_contains(elems_view(xs@), "fullPath"@, p);
        }
    }
    out
}

/// Whether two lists of strings hold the same set of strings.
fn same_string_set(a: &Vec<String>, b: &Vec<String>) -> (r: bool)
    ensures
        r == (strings_view(a@).to_set() == strings_view(b@).to_set()),
{
    let mut i: usize = 0;
    while i < a.len()
        invariant
            i <= a@.len(),
            forall|j: int| 0 <= j < i ==> strings_view(b@).contains(#[trigger] a@[j]@),
        decreases a@.len() - i,
    {
        if !sync::contains_string(b, a[i].as_str()) {
            assert(strings_view(a@).to_set().contains(a@[i as int]@)) by {
                assert(strings_view(a@)[i as int] == a@[i as int]@);
            }
            return false;
        }
        i = i + 1;
    }
    let mut j: usize = 0;
    while j < b.len()
        invariant
            j <= b@.len(),
            forall|k: int| 0 <= k < a@.len() ==> strings_view(b@).contains(#[trigger] a@[k]@),
            forall|k: int| 0 <= k < j ==> strings_view(a@).contains(#[trigger] b@[k]@),
        decreases b@.len() - j,
    {
        if !sync::contains_string(a, b[j].as_str()) {
            assert(strings_view(b@).to_set().contains(b@[j as int]@)) by {
                assert(strings_view(b@)[j as int] == b@[j as int]@);
            }
            return false;
        }
        j = j + 1;
    }
    assert(strings_view(a@).to_set() =~= strings_view(b@).to_set()) by {
        assert forall|q: Seq<char>| strings_view(a@).to_set().contains(q) implies strings_view(
            b@,
        ).to_set().contains(q) by {
            let k = choose|k: int| 0 <= k < strings_view(a@).len() && strings_view(a@)[k] == q;
            assert(strings_view(b@).contains(a@[k]@));
        }
        assert forall|q: Seq<char>| strings_view(b@).to_set().contains(q) implies strings_view(
            a@,
        ).to_set().contains(q) by {
            let k = choose|k: int| 0 <= k < strings_view(b@).len() && strings_view(b@)[k] == q;
            assert(strings_view(a@).contains(b@[k]@));
        }
    }
    true
}

/// Whether two `folders` arrays declare the same set of `fullPath`s.
pub fn same_folder_paths(a: Option<&Json>, b: Option<&Json>) -> (r: bool)
    ensures
        r == (folder_path_set(opt_view(a)) == folder_path_set(opt_view(b))),
{
    let pa = folder_paths(a);
    let pb = folder_paths(b);
    let same = same_string_set(&pa, &pb);
    proof {
        if same {
            assert(folder_path_set(opt_view(a)) =~= folder_path_set(opt_view(b))) by {
                assert forall|q: Seq<char>|
                    folder_path_set(opt_view(a)).contains(q) <==> folder_path_set(
                        opt_view(b),
                    ).contains(q) by {
                    assert(strings_view(pa@).contains(q) <==> strings_view(pa@).to_set().contains(q));
                    assert(strings_view(pb@).contains(q) <==> strings_view(pb@).to_set().contains(q));
                }
            }
        } else {
            if folder_path_set(opt_view(a)) == folder_path_set(opt_view(b)) {
                assert(strings_view(pa@).to_set() =~= strings_view(pb@).to_set()) by {
                    assert forall|q: Seq<char>|
                        strings_view(pa@).to_set().contains(q) <==> strings_view(
                            pb@,
                        ).to_set().contains(q) by {
                        assert(strings_view(pa@).contains(q) <==> folder_path_set(
                            opt_view(a),
                        ).contains(q));
                        assert(strings_view(pb@).contains(q) <==> folder_path_set(
                            opt_view(b),
                        ).contains(q));
                    }
                }
            }
        }
    }
    same
}

/// Whether the declared `settings` keys all match the live `settings` object:
/// each declared key equal to the live value there, or declared `null` where the
/// live object lacks it (or there is no live settings object).
pub open spec fn settings_match(want: JsonV, have_settings: Option<JsonV>) -> bool {
    match want {
        JsonV::Object(sw) => forall|j: int|
            0 <= j < sw.len() && is_last(sw, j) ==> #[trigger] value_matches(
                live_setting(have_settings, sw[j].0),
                sw[j].1,
            ),
        _ => true,
    }
}

/// The live value of settings key `k`, when the live settings are an object.
pub open spec fn live_setting(have_settings: Option<JsonV>, k: Seq<char>) -> Option<JsonV> {
    match have_settings {
        Some(JsonV::Object(sh)) => obj_get(sh, k),
        _ => None,
    }
}

/// Whether one declared key of a library matches the live library:
/// `mediaType` is never compared; `folders` compares the `fullPath` sets;
/// `settings` compares only the declared settings keys; any other key must be
/// equal to the live value, or declared `null` where the live library lacks it.
pub open spec fn key_in_sync(
    k: Seq<char>,
    wv: JsonV,
    want: Seq<(Seq<char>, JsonV)>,
    have: Seq<(Seq<char>, JsonV)>,
) -> bool {
    if k == "mediaType"@ {
        true
    } else if k == "folders"@ {
        folder_path_set(obj_get(want, "folders"@)) == folder_path_set(obj_get(have, "folders"@))
    } else if k == "settings"@ {
        settings_match(wv, obj_get(have, "settings"@))
    } else {
        value_matches(obj_get(have, k), wv)
    }
}

/// Whether the declared library `desired` already matches the live entry
/// `live`; when either is not an object, whether they are equal.
pub open spec fn in_sync_spec(desired: JsonV, live: JsonV) -> bool {
    match (desired, live) {
        (JsonV::Object(want), JsonV::Object(have)) => forall|i: int|
            0 <= i < want.len() && is_last(want, i) ==> #[trigger] key_in_sync(
                want[i].0,
                want[i].1,
                want,
                have,
            ),
        _ => json_eq(desired, live),
    }
}

fn settings_in_sync(want: &Json, have_settings: Option<&Json>) -> (r: bool)
    ensures
        r == settings_match(want@, opt_view(have_settings)),
{
    let sw = match want.as_object() {
        Some(sw) => sw,
        None => {
            return true;
        },
    };
    let sh = match have_settings {
        Some(h) => match h.as_object() {
            Some(_) => Some(h),
            None => None,
        },
        None => None,
    };
    let ghost v = crate::json::entries_view(sw@);
    let mut j: usize = 0;
    while j < sw.len()
        invariant
            j <= sw@.len(),
            v == crate::json::entries_view(sw@),
            want@ == JsonV::Object(v),
            match sh {
                Some(h) => opt_view(have_settings) == Some(h@) && h@ is Object,
                None => !(opt_view(have_settings) matches Some(JsonV::Object(_))),
            },
            forall|m: int|
                0 <= m < j && is_last(v, m) ==> #[trigger] value_matches(
                    live_setting(opt_view(have_settings), v[m].0),
                    v[m].1,
                ),
        decreases sw@.len() - j,
    {
        if entry_is_last(sw, j) {
            let have = match sh {
                Some(h) => h.get(sw[j].0.as_str()),
                None => None,
            };
            if !matches_value(have, &sw[j].1) {
                assert(!value_matches(live_setting(opt_view(have_settings), v[j as int].0), v[j as int].1));
                return false;
            }
        }
        j = j + 1;
    }
    true
}

/// Whether the declared library `desired` (only the keys the config wrote)
/// already matches the live entry `live` from the list read.
pub fn in_sync(desired: &Json, live: &Json) -> (r: bool)
    ensures
        r == in_sync_spec(desired@, live@),
{
    let (want, have) = match (desired.as_object(), live.as_object()) {
        (Some(w), Some(h)) => (w, h),
        _ => {
            return desired.equals(live);
        },
    };
    let ghost wv = crate::json::entries_view(want@);
    let ghost hv = crate::json::entries_view(have@);
    let mut i: usize = 0;
    while i < want.len()
        invariant
            i <= want@.len(),
            wv == crate::json::entries_view(want@),
            hv == crate::json::entries_view(have@),
            desired@ == JsonV::Object(wv),
            live@ == JsonV::Object(hv),
            forall|m: int|
                0 <= m < i && is_last(wv, m) ==> #[trigger] key_in_sync(
                    wv[m].0,
                    wv[m].1,
                    wv,
                    hv,
                ),
        decreases want@.len() - i,
    {
        if entry_is_last(want, i) {
            let k = want[i].0.as_str();
            let ok = if str_equal(k, "mediaType") {
                true
            } else if str_equal(k, "folders") {
                same_folder_paths(desired.get("folders"), live.get("folders"))
            } else if str_equal(k, "settings") {
                settings_in_sync(&want[i].1, live.get("settings"))
            } else {
                matches_value(live.get(k), &want[i].1)
            };
            if !ok {
                assert(!key_in_sync(wv[i as int].0, wv[i as int].1, wv, hv));
                return false;
            }
        }
        i = i + 1;
    }
    true
}

/// The update entry for one declared folder: `{id, fullPath}` when the first
/// live folder at the same `fullPath` has an `id` (keep it), else the declared
/// entry unchanged (create it).
pub open spec fn folder_entry(f: JsonV, live: Seq<JsonV>) -> JsonV {
    match f.str_at("fullPath"@) {
        Some(p) => match sync::first_with_str(live, "fullPath"@, p) {
            Some(l) => match l.get("id"@) {
                Some(id) => JsonV::Object(seq![("id"@, id), ("fullPath"@, JsonV::String(p))]),
                None => f,
            },
            None => f,
        },
        None => f,
    }
}

/// The elements of an array, or none.
pub open spec fn elems_or_empty(v: JsonV) -> Seq<JsonV> {
    match v {
        JsonV::Array(xs) => xs,
        _ => Seq::empty(),
    }
}

/// The `PATCH` folders array: one entry per declared folder, in order; a live
/// folder whose path is not declared contributes nothing.
pub open spec fn folders_for_update_spec(desired: JsonV, live: JsonV) -> JsonV {
    let ds = elems_or_empty(desired);
    JsonV::Array(Seq::new(ds.len(), |i: int| folder_entry(ds[i], elems_or_empty(live))))
}

/// Builds the `PATCH` folders array from the declared folders and the live
/// library's folders: a declared folder whose `fullPath` matches the first live
/// folder at that path becomes `{id, fullPath}` with the live id; any other
/// declared folder is sent as declared.
pub fn folders_for_update(desired_folders: &Json, live_folders: &Json) -> (r: Json)
    ensures
        r@ == folders_for_update_spec(desired_folders@, live_folders@),
{
    let empty: Vec<Json> = Vec::new();
    let live: &Vec<Json> = match live_folders.as_array() {
        Some(xs) => xs,
        None => &empty,
    };
    let ds: &Vec<Json> = match desired_folders.as_array() {
        Some(xs) => xs,
        None => &empty,
    };
    proof {
        assert(elems_view(empty@) =~= Seq::<JsonV>::empty());
    }
    let ghost lv = elems_or_empty(live_folders@);
    let ghost dv = elems_or_empty(desired_folders@);
    let mut out: Vec<Json> = Vec::new();
    let mut i: usize = 0;
    while i < ds.len()
        invariant
            i <= ds@.len(),
            lv == elems_view(live@),
            dv == elems_view(ds@),
            out@.len() == i,
            forall|j: int| 0 <= j < i ==> (#[trigger] out@[j])@ == folder_entry(dv[j], lv),
        decreases ds@.len() - i,
    {
        let f = &ds[i];
        let path = match f.get("fullPath") {
            Some(v) => v.as_str(),
            None => None,
        };
        let entry = match path {
            Some(p) => match sync::first_index_with_str(live, "fullPath", p) {
                Some(k) => match live[k].get("id") {
                    Some(id) => {
                        let e = Json::empty_object().set_key("id".to_owned(), id.deep_clone()).set_key(
                            "fullPath".to_owned(),
                            Json::from_str(p),
                        );
                        assert(e@->Object_0 =~= seq![("id"@, id@), ("fullPath"@, JsonV::String(p@))]);
                        e
                    },
                    None => f.deep_clone(),
                },
                None => f.deep_clone(),
            },
            None => f.deep_clone(),
        };
        out.push(entry);
        i = i + 1;
    }
    proof {
        crate::json::lemma_array_view(out);
        assert(elems_view(out@) =~= folders_for_update_spec(
            desired_folders@,
            live_folders@,
        )->Array_0);
    }
    Json::Array(out)
}

/// The live libraries out of the `GET /api/libraries` envelope.
pub fn live_libraries(envelope: &Json) -> (r: Vec<Json>)
    ensures
        elems_view(r@) == list_at_spec(envelope@, "libraries"@),
{
    sync::list_at(envelope, "libraries")
}

/// The `(name, id)` pairs to register as `${ref.library.<name>}` for the given
/// entries (live libraries, or the responses to creates).
pub fn library_refs(entries: &Vec<Json>) -> (r: Vec<(String, RefId)>)
    ensures
        refs_view(r@) == named_refs_spec(elems_view(entries@), "name"@),
{
    sync::named_refs(entries, "name")
}

/// The create body: the declared library without `displayOrder`, which the
/// server computes on create.
pub fn create_body(wire: Json) -> (r: Json)
    ensures
        r@ == match wire@ {
            JsonV::Object(es) => JsonV::Object(without_key(es, "displayOrder"@)),
            other => other,
        },
{
    wire.remove_key("displayOrder")
}

/// A value, or `null` when there is none.
pub open spec fn or_null(v: Option<JsonV>) -> JsonV {
    match v {
        Some(x) => x,
        None => JsonV::Null,
    }
}

/// The update body: the declared library with `folders` replaced by the
/// id-echoed array built from the declared and the live folders.
pub open spec fn update_body_spec(wire: JsonV, live: JsonV) -> JsonV {
    match wire {
        JsonV::Object(es) => JsonV::Object(
            es.push(
                (
                    "folders"@,
                    folders_for_update_spec(or_null(obj_get(es, "folders"@)), or_null(live.get("folders"@))),
                ),
            ),
        ),
        other => other,
    }
}

/// The update body for the declared library `wire` against the live entry
/// `live`: `folders` is rebuilt so that every live folder whose `fullPath` is
/// still declared keeps its id.
pub fn update_body(wire: Json, live: &Json) -> (r: Json)
    ensures
        r@ == update_body_spec(wire@, live@),
{
    if !wire.is_object() {
        return wire;
    }
    let folders = {
        let null = Json::Null;
        let desired_folders = match wire.get("folders") {
            Some(f) => f,
            None => &null,
        };
        let live_folders = match live.get("folders") {
            Some(f) => f,
            None => &null,
        };
        folders_for_update(desired_folders, live_folders)
    };
    wire.set_key("folders".to_owned(), folders)
}

/// The URL path of a live library: `/api/libraries/{id}` (an empty id when the
/// live entry has no string id).
pub fn item_path(live: &Json) -> (r: String)
    ensures
        r@ == "/api/libraries/"@ + str_or_empty(live@, "id"@),
{
    sync::path_with_id("/api/libraries/", live)
}

/// The step for each declared library against the live libraries, matched by
/// `name`.
pub fn plan(desired: &Vec<Json>, live: &Vec<Json>) -> (r: Vec<crate::sync::KeyedStep>)
    ensures
        r@.len() == desired@.len(),
        forall|i: int|
            0 <= i < desired@.len() ==> crate::sync::step_view(#[trigger] r@[i])
                == crate::sync::keyed_step_spec(
                desired@[i]@,
                elems_view(live@),
                "name"@,
                |a: JsonV, b: JsonV| in_sync_spec(a, b),
            ),
{
    let mut out: Vec<crate::sync::KeyedStep> = Vec::new();
    let mut i: usize = 0;
    while i < desired.len()
        invariant
            i <= desired@.len(),
            out@.len() == i,
            forall|m: int|
                0 <= m < i ==> crate::sync::step_view(#[trigger] out@[m])
                    == crate::sync::keyed_step_spec(
                    desired@[m]@,
                    elems_view(live@),
                    "name"@,
                    |a: JsonV, b: JsonV| in_sync_spec(a, b),
                ),
        decreases desired@.len() - i,
    {
        let step = match crate::sync::match_live(&desired[i], live, "name") {
            Some(j) => {
                assert(elems_view(live@)[j as int] == live@[j as int]@);
                if in_sync(&desired[i], &live[j]) {
                    crate::sync::KeyedStep::Unchanged(j)
                } else {
                    crate::sync::KeyedStep::Update(j)
                }
            },
            None => crate::sync::KeyedStep::Create,
        };
        out.push(step);
        i = i + 1;
    }
    out
}

/// A declared library is in sync with a live entry equal to it.
pub proof fn law_in_sync_reflexive(d: JsonV)
    ensures
        in_sync_spec(d, d),
{
    match d {
        JsonV::Object(want) => {
            assert forall|i: int| 0 <= i < want.len() && is_last(want, i) implies #[trigger] key_in_sync(
                want[i].0,
                want[i].1,
                want,
                want,
            ) by {
                crate::json::lemma_obj_get_last(want, i);
                crate::json::lemma_json_eq_refl(want[i].1);
                if want[i].0 == "settings"@ {
                    if let JsonV::Object(sw) = want[i].1 {
                        assert forall|j: int| 0 <= j < sw.len() && is_last(sw, j) implies #[trigger] value_matches(
                            live_setting(Some(want[i].1), sw[j].0),
                            sw[j].1,
                        ) by {
                            crate::json::lemma_obj_get_last(sw, j);
                            crate::json::lemma_json_eq_refl(sw[j].1);
                        }
                    }
                }
            }
        },
        _ => {
            crate::json::lemma_json_eq_refl(d);
        },
    }
}

/// Stamping the update body keeps every declared key but `folders`, and its
/// `folders` holds one entry per declared folder.
pub proof fn law_update_body_keeps_declared_keys(wire: JsonV, live: JsonV, k: Seq<char>)
    requires
        wire is Object,
        k != "folders"@,
    ensures
        update_body_spec(wire, live).get(k) == wire.get(k),
        update_body_spec(wire, live).get("folders"@) matches Some(JsonV::Array(fs)) && fs.len()
            == elems_or_empty(or_null(wire.get("folders"@))).len(),
{
    let es = wire->Object_0;
    let f = (
        "folders"@,
        folders_for_update_spec(or_null(obj_get(es, "folders"@)), or_null(live.get("folders"@))),
    );
    assert(es.push(f).drop_last() =~= es);
}

/// Every entry of the update's folders array keeps the `fullPath` of the
/// declared folder it was built from.
proof fn lemma_folder_entry_keeps_path(f: JsonV, live: Seq<JsonV>)
    ensures
        folder_entry(f, live).str_at("fullPath"@) == f.str_at("fullPath"@),
{
    if let Some(p) = f.str_at("fullPath"@) {
        if let Some(l) = sync::first_with_str(live, "fullPath"@, p) {
            if let Some(id) = l.get("id"@) {
                let es = seq![("id"@, id), ("fullPath"@, JsonV::String(p))];
                assert(es.last().0 == "fullPath"@);
            }
        }
    }
}

/// The update's folders array declares exactly the declared set of paths: a
/// live folder stays only while its path is declared.
pub proof fn law_update_folders_keep_declared_paths(desired: Option<JsonV>, live: JsonV)
    ensures
        folder_path_set(Some(folders_for_update_spec(or_null(desired), live))) == folder_path_set(
            desired,
        ),
{
    let ds = elems_or_empty(or_null(desired));
    let out = folders_for_update_spec(or_null(desired), live)->Array_0;
    let lv = elems_or_empty(live);
    assert forall|i: int| 0 <= i < ds.len() implies #[trigger] out[i].str_at("fullPath"@)
        == ds[i].str_at("fullPath"@) by {
        lemma_folder_entry_keeps_path(ds[i], lv);
    }
    match desired {
        Some(JsonV::Array(xs)) => {
            assert(folder_path_set(Some(JsonV::Array(out))) =~= folder_path_set(desired)) by {
                assert forall|p: Seq<char>|
                    folder_path_set(Some(JsonV::Array(out))).contains(p) implies folder_path_set(
                    desired,
                ).contains(p) by {
                    let i = choose|i: int| 0 <= i < out.len() && #[trigger] out[i].str_at("fullPath"@) == Some(p);
                    assert(xs[i].str_at("fullPath"@) == Some(p));
                }
                assert forall|p: Seq<char>|
                    folder_path_set(desired).contains(p) implies folder_path_set(
                    Some(JsonV::Array(out)),
                ).contains(p) by {
                    let i = choose|i: int| 0 <= i < xs.len() && #[trigger] xs[i].str_at("fullPath"@) == Some(p);
                    assert(out[i].str_at("fullPath"@) == Some(p));
                }
            }
        },
        _ => {
            assert(folder_path_set(Some(JsonV::Array(out))) =~= Set::<Seq<char>>::empty()) by {
                assert(out.len() == 0);
            }
        },
    }
}

/// Convergence of an update: once the update body has been applied on top of
/// the live library, the declared library is in sync with it.
pub proof fn law_applied_update_is_in_sync(wire: JsonV, live: JsonV)
    requires
        wire is Object,
        live is Object,
    ensures
        in_sync_spec(wire, sync::after_write(live, update_body_spec(wire, live)->Object_0)),
{
    let want = wire->Object_0;
    let ls = live->Object_0;
    let fs = folders_for_update_spec(or_null(obj_get(want, "folders"@)), or_null(live.get("folders"@)));
    let body = want.push(("folders"@, fs));
    let have = ls + body;
    assert(sync::after_write(live, update_body_spec(wire, live)->Object_0) == JsonV::Object(have));
    assert(body.drop_last() =~= want);
    law_update_folders_keep_declared_paths(obj_get(want, "folders"@), or_null(live.get("folders"@)));
    assert forall|i: int| 0 <= i < want.len() && is_last(want, i) implies #[trigger] key_in_sync(
        want[i].0,
        want[i].1,
        want,
        have,
    ) by {
        let k = want[i].0;
        crate::json::lemma_obj_get_append(ls, body, k);
        assert(body[want.len() as int].0 == "folders"@);
        assert(crate::json::has_key(body, k)) by {
            assert(body[i].0 == k);
        }
        crate::json::lemma_obj_get_last(want, i);
        crate::json::lemma_json_eq_refl(want[i].1);
        if k != "folders"@ {
            assert(obj_get(body, k) == obj_get(want, k));
        }
        if k == "settings"@ {
            if let JsonV::Object(sw) = want[i].1 {
                assert forall|j: int| 0 <= j < sw.len() && is_last(sw, j) implies #[trigger] value_matches(
                    live_setting(Some(want[i].1), sw[j].0),
                    sw[j].1,
                ) by {
                    crate::json::lemma_obj_get_last(sw, j);
                    crate::json::lemma_json_eq_refl(sw[j].1);
                }
            }
        }
    }
}

/// Every last entry of the declared keys is in sync with the live library.
pub open spec fn keys_all_in_sync(want: Seq<(Seq<char>, JsonV)>, have: Seq<(Seq<char>, JsonV)>) -> bool {
    forall|i: int|
        0 <= i < want.len() && is_last(want, i) ==> #[trigger] key_in_sync(
            want[i].0,
            want[i].1,
            want,
            have,
        )
}

/// A declared library is in sync exactly when every declared key, with the
/// value it has, is in sync.
proof fn lemma_in_sync_by_keys(want: Seq<(Seq<char>, JsonV)>, have: Seq<(Seq<char>, JsonV)>)
    ensures
        in_sync_spec(JsonV::Object(want), JsonV::Object(have)) == forall|k: Seq<char>|
            #[trigger] obj_get(want, k) is Some ==> key_in_sync(k, obj_get(want, k)->0, want, have),
{
    let d = JsonV::Object(want);
    let l = JsonV::Object(have);
    assert(d->Object_0 == want);
    assert(l->Object_0 == have);
    if in_sync_spec(d, l) {
        assert forall|i: int| 0 <= i < want.len() && is_last(want, i) implies #[trigger] key_in_sync(
            want[i].0,
            want[i].1,
            want,
            have,
        ) by {
            assert(in_sync_spec(d, l));
        }
    }
    assert(in_sync_spec(d, l) == keys_all_in_sync(want, have));
    if keys_all_in_sync(want, have) {
        assert forall|k: Seq<char>| #[trigger] obj_get(want, k) is Some implies key_in_sync(
            k,
            obj_get(want, k)->0,
            want,
            have,
        ) by {
            crate::json::lemma_obj_get_cases(want, k);
            let v = obj_get(want, k)->0;
            let i = choose|i: int|
                0 <= i < want.len() && is_last(want, i) && want[i].0 == k && #[trigger] want[i].1 == v;
            assert(key_in_sync(want[i].0, want[i].1, want, have));
        }
    }
    if forall|k: Seq<char>|
        #[trigger] obj_get(want, k) is Some ==> key_in_sync(k, obj_get(want, k)->0, want, have) {
        assert forall|i: int| 0 <= i < want.len() && is_last(want, i) implies #[trigger] key_in_sync(
            want[i].0,
            want[i].1,
            want,
            have,
        ) by {
            crate::json::lemma_obj_get_last(want, i);
            assert(obj_get(want, want[i].0) is Some);
        }
    }
}

/// Whether two library objects differ at most in their `mediaType` entry and
/// in the shape of their `folders` arrays: every other key has the same
/// value in both, both hold `folders` or neither does, and the two `folders`
/// arrays hold the same `fullPath`s (in any order, with any repeats, and with
/// any other keys on their elements).
pub open spec fn same_but_media_type_and_folder_shape(a: JsonV, b: JsonV) -> bool {
    match (a, b) {
        (JsonV::Object(x), JsonV::Object(y)) => (forall|k: Seq<char>|
            k != "mediaType"@ && k != "folders"@ ==> #[trigger] obj_get(x, k) == obj_get(y, k))
            && crate::json::has_key(x, "folders"@) == crate::json::has_key(y, "folders"@)
            && folder_path_set(obj_get(x, "folders"@)) == folder_path_set(obj_get(y, "folders"@)),
        _ => false,
    }
}

/// What `in_sync` compares of a library: `mediaType` never, and `folders`
/// only as the set of paths.  So changing, adding or removing `mediaType`, or
/// reordering, repeating or decorating the folders, on either side never
/// changes whether a declared library is in sync with a live one.
pub proof fn law_in_sync_ignores_media_type_and_folder_shape(
    desired: JsonV,
    live: JsonV,
    desired2: JsonV,
    live2: JsonV,
)
    requires
        same_but_media_type_and_folder_shape(desired, desired2),
        same_but_media_type_and_folder_shape(live, live2),
    ensures
        in_sync_spec(desired2, live2) == in_sync_spec(desired, live),
{
    lemma_in_sync_same_shape(desired->Object_0, live->Object_0, desired2->Object_0, live2->Object_0);
}

proof fn lemma_in_sync_same_shape(
    want: Seq<(Seq<char>, JsonV)>,
    have: Seq<(Seq<char>, JsonV)>,
    want2: Seq<(Seq<char>, JsonV)>,
    have2: Seq<(Seq<char>, JsonV)>,
)
    requires
        forall|k: Seq<char>|
            k != "mediaType"@ && k != "folders"@ ==> #[trigger] obj_get(want, k) == obj_get(want2, k)
                && obj_get(have, k) == obj_get(have2, k),
        crate::json::has_key(want, "folders"@) == crate::json::has_key(want2, "folders"@),
        folder_path_set(obj_get(want, "folders"@)) == folder_path_set(obj_get(want2, "folders"@)),
        folder_path_set(obj_get(have, "folders"@)) == folder_path_set(obj_get(have2, "folders"@)),
    ensures
        in_sync_spec(JsonV::Object(want), JsonV::Object(have)) == in_sync_spec(
            JsonV::Object(want2),
            JsonV::Object(have2),
        ),
{
    lemma_in_sync_by_keys(want, have);
    lemma_in_sync_by_keys(want2, have2);
    crate::json::lemma_obj_get_cases(want, "folders"@);
    crate::json::lemma_obj_get_cases(want2, "folders"@);
    assert forall|k: Seq<char>|
        (#[trigger] obj_get(want, k) is Some ==> key_in_sync(k, obj_get(want, k)->0, want, have)) == (
        obj_get(want2, k) is Some ==> key_in_sync(k, obj_get(want2, k)->0, want2, have2)) by {
        if k != "mediaType"@ && k != "folders"@ {
            assert(obj_get(want, k) == obj_get(want2, k));
            if k == "settings"@ {
                assert(obj_get(have, "settings"@) == obj_get(have2, "settings"@));
            } else {
                assert(obj_get(have, k) == obj_get(have2, k));
            }
        }
    }
    let a = forall|k: Seq<char>|
        #[trigger] obj_get(want, k) is Some ==> key_in_sync(k, obj_get(want, k)->0, want, have);
    let b = forall|k: Seq<char>|
        #[trigger] obj_get(want2, k) is Some ==> key_in_sync(k, obj_get(want2, k)->0, want2, have2);
    if a {
        assert forall|k: Seq<char>| #[trigger] obj_get(want2, k) is Some implies key_in_sync(
            k,
            obj_get(want2, k)->0,
            want2,
            have2,
        ) by {
            assert(obj_get(want, k) is Some ==> key_in_sync(k, obj_get(want, k)->0, want, have));
        }
    }
    if b {
        assert forall|k: Seq<char>| #[trigger] obj_get(want, k) is Some implies key_in_sync(
            k,
            obj_get(want, k)->0,
            want,
            have,
        ) by {
            assert(obj_get(want2, k) is Some ==> key_in_sync(k, obj_get(want2, k)->0, want2, have2));
        }
    }
}

/// A declared folder still live keeps its folder: when live folder `j` is
/// the first live folder at the declared folder's path `p` and carries an
/// `id`, the update entry for declared folder `i` is `{id, fullPath: p}` with
/// that id, so the server keeps the folder and what was scanned from it.
pub proof fn law_update_folders_echo_first_live_id(ds: Seq<JsonV>, ls: Seq<JsonV>, i: int, j: int, p: Seq<char>)
    requires
        0 <= i < ds.len(),
        0 <= j < ls.len(),
        ds[i].str_at("fullPath"@) == Some(p),
        ls[j].str_at("fullPath"@) == Some(p),
        forall|m: int| 0 <= m < j ==> (#[trigger] ls[m]).str_at("fullPath"@) != Some(p),
        ls[j].get("id"@) is Some,
    ensures
        folders_for_update_spec(JsonV::Array(ds), JsonV::Array(ls)) matches JsonV::Array(out)
            && out.len() == ds.len() && out[i] == JsonV::Object(
            seq![("id"@, ls[j].get("id"@)->0), ("fullPath"@, JsonV::String(p))],
        ),
{
    sync::lemma_first_index_at(ls, "fullPath"@, p, j);
    sync::lemma_first_with_str_index(ls, "fullPath"@, p);
}

/// A declared folder whose path no live folder has is sent as declared (it is
/// created), as is one without a string `fullPath`.
pub proof fn law_update_folders_send_new_as_declared(ds: Seq<JsonV>, ls: Seq<JsonV>, i: int)
    requires
        0 <= i < ds.len(),
        forall|m: int| 0 <= m < ls.len() ==> (#[trigger] ls[m]).str_at("fullPath"@) != ds[i].str_at(
            "fullPath"@,
        ),
    ensures
        folders_for_update_spec(JsonV::Array(ds), JsonV::Array(ls)) matches JsonV::Array(out)
            && out.len() == ds.len() && out[i] == ds[i],
{
    if let Some(p) = ds[i].str_at("fullPath"@) {
        sync::lemma_first_index_none(ls, "fullPath"@, p);
        sync::lemma_first_with_str_index(ls, "fullPath"@, p);
    }
}

} // verus!
