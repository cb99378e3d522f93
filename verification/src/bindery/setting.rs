//! Bindery's `/api/v1/setting` key/value table.
//!
//! Every value is stored and read as a string: booleans as `"true"`/`"false"`,
//! numbers in decimal.  The bulk read is a `[{key, value, updatedAt}, ...]`
//! array in which the secret rows are absent, so the two secrets this endpoint
//! accepts (`hardcover.api_token`, `calibre.plugin_api_key`) are written
//! whenever declared and always reported as updated; every other declared key
//! is written only when its string differs from the stored one (a key without
//! a row reads as the empty string).  Nothing is ever deleted.
use crate::json::{entries_view, is_last, Json, JsonV, NumberV};
use crate::text::{decimal, signed_decimal};
use crate::render::{compact_text, render_compact};
use crate::json::elems_view;
use crate::wire::{self, opt_bool_v, opt_i64_v, opt_push, opt_str_v};
use vstd::prelude::*;

verus! {

/// The two secret keys the endpoint allows writing.
pub open spec fn writable_secret(key: Seq<char>) -> bool {
    key == "hardcover.api_token"@ || key == "calibre.plugin_api_key"@
}

/// Whether `key` is one of the two secret keys the endpoint allows writing
/// (every other secret key is refused by the server).
pub fn is_writable_secret(key: &str) -> (r: bool)
    ensures
        r == writable_secret(key@),
{
    crate::json::str_equal(key, "hardcover.api_token") || crate::json::str_equal(
        key,
        "calibre.plugin_api_key",
    )
}

/// The string a value is stored as: a string as is, a boolean as
/// `"true"`/`"false"`, `null` as the empty string, an integer in decimal,
/// anything else as its compact JSON text.
pub open spec fn scalar_spec(v: JsonV) -> Seq<char> {
    match v {
        JsonV::String(s) => s,
        JsonV::Bool(b) => if b {
            "true"@
        } else {
            "false"@
        },
        JsonV::Null => Seq::empty(),
        JsonV::Number(NumberV::PosInt(u)) => decimal(u as nat),
        JsonV::Number(NumberV::NegInt(i)) => signed_decimal(i as int),
        _ => compact_text(v),
    }
}

/// The string the `PUT` endpoint expects for a declared value.
pub fn scalar(v: &Json) -> (r: String)
    ensures
        r@ == scalar_spec(v@),
{
    match v {
        Json::String(s) => s.clone(),
        Json::Bool(b) => if *b {
            "true".to_owned()
        } else {
            "false".to_owned()
        },
        Json::Null => String::new(),
        _ => render_compact(v),
    }
}

/// The stored string for `key` in the bulk read: that of the last row with a
/// string `key` equal to it and a string `value`.
pub open spec fn row_value(rows: Seq<JsonV>, key: Seq<char>) -> Option<Seq<char>>
    decreases rows.len(),
{
    if rows.len() == 0 {
        None
    } else {
        let r = rows.last();
        match (r.str_at("key"@), r.str_at("value"@)) {
            (Some(k), Some(v)) => if k == key {
                Some(v)
            } else {
                row_value(rows.drop_last(), key)
            },
            _ => row_value(rows.drop_last(), key),
        }
    }
}

/// The stored string for `key`, or the empty string when no row holds one.
pub open spec fn stored_or_empty(rows: Seq<JsonV>, key: Seq<char>) -> Seq<char> {
    match row_value(rows, key) {
        Some(v) => v,
        None => Seq::empty(),
    }
}

/// The stored string for `key` in the rows of the bulk read, if any.
pub fn stored_value(rows: &Vec<Json>, key: &str) -> (r: Option<String>)
    ensures
        match r {
            Some(s) => row_value(elems_view(rows@), key@) == Some(s@),
            None => row_value(elems_view(rows@), key@) is None,
        },
{
    let ghost ev = elems_view(rows@);
    assert(ev.take(rows@.len() as int) =~= ev);
    let mut i = rows.len();
    while i > 0
        invariant
            i <= rows@.len(),
            ev == elems_view(rows@),
            row_value(ev, key@) == row_value(ev.take(i as int), key@),
        decreases i,
    {
        proof {
            assert(ev.take(i as int).drop_last() =~= ev.take(i - 1));
            assert(ev.take(i as int).last() == rows@[i - 1]@);
        }
        i = i - 1;
        let r = &rows[i];
        let k = match r.get("key") {
            Some(x) => x.as_str(),
            None => None,
        };
        let v = match r.get("value") {
            Some(x) => x.as_str(),
            None => None,
        };
        match (k, v) {
            (Some(k), Some(v)) => {
                if crate::json::str_equal(k, key) {
                    return Some(v.to_owned());
                }
            },
            _ => {},
        }
    }
    assert(ev.take(0) =~= Seq::<JsonV>::empty());
    None
}

/// One declared key's outcome: the string to store and whether it is written
/// (reported as updated) or already stored (reported as unchanged).
pub struct SettingWrite {
    pub key: String,
    pub value: String,
    pub write: bool,
}

/// The view of a [`SettingWrite`].
pub open spec fn write_view(w: SettingWrite) -> (Seq<char>, Seq<char>, bool) {
    (w.key@, w.value@, w.write)
}

/// The outcome for declared key `k` with value `v`: secrets are always
/// written; any other key when its stored string differs.
pub open spec fn action_spec(k: Seq<char>, v: JsonV, rows: Seq<JsonV>) -> (
    Seq<char>,
    Seq<char>,
    bool,
) {
    (k, scalar_spec(v), writable_secret(k) || stored_or_empty(rows, k) != scalar_spec(v))
}

/// The outcomes for the first `n` declared entries (each key once, at its
/// last entry), in order.
pub open spec fn plan_prefix(es: Seq<(Seq<char>, JsonV)>, n: int, rows: Seq<JsonV>) -> Seq<
    (Seq<char>, Seq<char>, bool),
>
    decreases n,
{
    if n <= 0 {
        Seq::empty()
    } else if is_last(es, n - 1) {
        plan_prefix(es, n - 1, rows).push(action_spec(es[n - 1].0, es[n - 1].1, rows))
    } else {
        plan_prefix(es, n - 1, rows)
    }
}

/// The outcomes for a declared settings object against the bulk read.
pub open spec fn plan_spec(wire: JsonV, rows: Seq<JsonV>) -> Seq<(Seq<char>, Seq<char>, bool)> {
    match wire {
        JsonV::Object(es) => plan_prefix(es, es.len() as int, rows),
        _ => Seq::empty(),
    }
}

/// Decides, for each declared key, the string to store and whether to write it.
pub fn plan(wire: &Json, rows: &Vec<Json>) -> (r: Vec<SettingWrite>)
    ensures
        r@.map_values(|w: SettingWrite| write_view(w)) == plan_spec(wire@, elems_view(rows@)),
{
    let mut out: Vec<SettingWrite> = Vec::new();
    let es = match wire.as_object() {
        Some(es) => es,
        None => {
            assert(out@.map_values(|w: SettingWrite| write_view(w)) =~= Seq::empty());
            return out;
        },
    };
    let ghost ev = entries_view(es@);
    let ghost rv = elems_view(rows@);
    let mut i: usize = 0;
    while i < es.len()
        invariant
            i <= es@.len(),
            ev == entries_view(es@),
            rv == elems_view(rows@),
            wire@ == JsonV::Object(ev),
            out@.map_values(|w: SettingWrite| write_view(w)) == plan_prefix(ev, i as int, rv),
        decreases es@.len() - i,
    {
        if crate::json::entry_is_last(es, i) {
            let key = es[i].0.as_str();
            let want = scalar(&es[i].1);
            proof {
                reveal_strlit("");
            }
            let write = if is_writable_secret(key) {
                true
            } else {
                match stored_value(rows, key) {
                    Some(s) => {
                        assert(stored_or_empty(rv, key@) == s@);
                        !crate::json::str_equal(s.as_str(), want.as_str())
                    },
                    None => {
                        assert(stored_or_empty(rv, key@) == Seq::<char>::empty());
                        assert(""@ == Seq::<char>::empty());
                        !crate::json::str_equal(want.as_str(), "")
                    },
                }
            };
            let ghost act = action_spec(ev[i as int].0, ev[i as int].1, rv);
            assert(ev[i as int].0 == key@ && ev[i as int].1 == es@[i as int].1@);
            assert(write == act.2);
            let ghost before = out@;
            let item = SettingWrite { key: key.to_owned(), value: want, write };
            assert(write_view(item) == act);
            out.push(item);
            proof {
                assert(out@.map_values(|w: SettingWrite| write_view(w)) =~= before.map_values(
                    |w: SettingWrite| write_view(w),
                ).push(action_spec(ev[i as int].0, ev[i as int].1, rv)));
            }
        }
        i = i + 1;
    }
    out
}

/// The `PUT /api/v1/setting/{key}` request: its path and its
/// `{"value": "<string>"}` body.
pub fn put_request(key: &str, value: &str) -> (r: (String, Json))
    ensures
        r.0@ == "/api/v1/setting/"@ + key@,
        r.1@ == JsonV::Object(seq![("value"@, JsonV::String(value@))]),
{
    let mut path = "/api/v1/setting/".to_owned();
    path.append(key);
    let body = Json::empty_object().set_key("value".to_owned(), Json::from_str(value));
    assert(body@->Object_0 =~= seq![("value"@, JsonV::String(value@))]);
    (path, body)
}

/// A declared secret is written on every apply, whatever is stored.
pub proof fn law_secrets_always_written(wire: JsonV, rows: Seq<JsonV>, j: int)
    requires
        0 <= j < plan_spec(wire, rows).len(),
        writable_secret(plan_spec(wire, rows)[j].0),
    ensures
        plan_spec(wire, rows)[j].2,
{
    let es = wire->Object_0;
    lemma_secrets_written(es, es.len() as int, rows);
}

proof fn lemma_secrets_written(es: Seq<(Seq<char>, JsonV)>, n: int, rows: Seq<JsonV>)
    ensures
        forall|j: int|
            0 <= j < plan_prefix(es, n, rows).len() && writable_secret(
                #[trigger] plan_prefix(es, n, rows)[j].0,
            ) ==> plan_prefix(es, n, rows)[j].2,
    decreases n,
{
    if n > 0 {
        lemma_secrets_written(es, n - 1, rows);
        let prev = plan_prefix(es, n - 1, rows);
        let cur = plan_prefix(es, n, rows);
        assert forall|j: int| 0 <= j < cur.len() && writable_secret(#[trigger] cur[j].0) implies cur[j].2 by {
            if j < prev.len() {
                assert(cur[j] == prev[j]);
            }
        }
    }
}

/// Convergence: when every declared key other than a secret already has a row
/// holding its string, no such key is written.
pub proof fn law_stored_settings_are_unchanged(wire: JsonV, rows: Seq<JsonV>, j: int)
    requires
        wire matches JsonV::Object(es) && forall|i: int|
            0 <= i < es.len() && is_last(es, i) && !writable_secret(es[i].0) ==> #[trigger] row_value(
                rows,
                es[i].0,
            ) == Some(scalar_spec(es[i].1)),
        0 <= j < plan_spec(wire, rows).len(),
        !writable_secret(plan_spec(wire, rows)[j].0),
    ensures
        !plan_spec(wire, rows)[j].2,
{
    let es = wire->Object_0;
    lemma_stored_unchanged(es, es.len() as int, rows);
}

proof fn lemma_stored_unchanged(es: Seq<(Seq<char>, JsonV)>, n: int, rows: Seq<JsonV>)
    requires
        n <= es.len(),
        forall|i: int|
            0 <= i < es.len() && is_last(es, i) && !writable_secret(es[i].0) ==> #[trigger] row_value(
                rows,
                es[i].0,
            ) == Some(scalar_spec(es[i].1)),
    ensures
        forall|j: int|
            0 <= j < plan_prefix(es, n, rows).len() && !writable_secret(
                #[trigger] plan_prefix(es, n, rows)[j].0,
            ) ==> !plan_prefix(es, n, rows)[j].2,
    decreases n,
{
    if n > 0 {
        lemma_stored_unchanged(es, n - 1, rows);
        if is_last(es, n - 1) && !writable_secret(es[n - 1].0) {
            assert(row_value(rows, es[n - 1].0) == Some(scalar_spec(es[n - 1].1)));
        }
        let prev = plan_prefix(es, n - 1, rows);
        let cur = plan_prefix(es, n, rows);
        assert forall|j: int| 0 <= j < cur.len() && !writable_secret(#[trigger] cur[j].0) implies !cur[j].2 by {
            if j < prev.len() {
                assert(cur[j] == prev[j]);
            }
        }
    }
}

/// The validated settings keys; a key left unset is left alone.
pub struct Setting {
    /// `hardcover.api_token` — a writable secret; never reads back.
    pub hardcover_api_token: Option<String>,
    pub hardcover_enhanced_series_enabled: Option<bool>,
    /// A Go duration within `[1h, 168h]`; takes effect after a restart.
    pub hardcover_sync_interval: Option<String>,
    pub abs_enabled: Option<bool>,
    pub abs_base_url: Option<String>,
    pub calibre_library_path: Option<String>,
    pub calibre_binary_path: Option<String>,
    /// One of `off`, `calibredb`, `plugin`.
    pub calibre_mode: Option<String>,
    pub calibre_push_path_remap: Option<String>,
    pub calibre_plugin_url: Option<String>,
    /// `calibre.plugin_api_key` — a writable secret; never reads back.
    pub calibre_plugin_api_key: Option<String>,
    pub cwa_ingest_path: Option<String>,
    /// One of `auto`, `move`, `copy`, `hardlink`, `external`.
    pub import_mode: Option<String>,
    pub import_drop_folder: Option<String>,
    pub import_drop_layout: Option<String>,
    pub import_drop_link_mode: Option<String>,
    pub import_drop_pair_gating: Option<bool>,
    pub import_drop_pair_gating_timeout_hours: Option<i64>,
    pub default_media_type: Option<String>,
    pub default_media_type_strict: Option<bool>,
    pub author_default_monitor_mode: Option<String>,
    pub author_default_monitor_latest_count: Option<i64>,
    /// A root folder id (an integer reference).
    pub library_default_root_folder_id: Option<i64>,
    pub metadata_primary_provider: Option<String>,
    /// A Go duration within `[1h, 168h]`; takes effect after a restart.
    pub search_interval: Option<String>,
}

/// The wire entries of the declared settings, under their dotted keys.
pub open spec fn setting_entries(s: Setting) -> Seq<(Seq<char>, JsonV)> {
    let es = Seq::empty();
    let es = opt_push(es, "hardcover.api_token"@, opt_str_v(s.hardcover_api_token));
    let es = opt_push(es, "hardcover.enhanced_series_enabled"@, opt_bool_v(s.hardcover_enhanced_series_enabled));
    let es = opt_push(es, "hardcover.sync_interval"@, opt_str_v(s.hardcover_sync_interval));
    let es = opt_push(es, "abs.enabled"@, opt_bool_v(s.abs_enabled));
    let es = opt_push(es, "abs.base_url"@, opt_str_v(s.abs_base_url));
    let es = opt_push(es, "calibre.library_path"@, opt_str_v(s.calibre_library_path));
    let es = opt_push(es, "calibre.binary_path"@, opt_str_v(s.calibre_binary_path));
    let es = opt_push(es, "calibre.mode"@, opt_str_v(s.calibre_mode));
    let es = opt_push(es, "calibre.push_path_remap"@, opt_str_v(s.calibre_push_path_remap));
    let es = opt_push(es, "calibre.plugin_url"@, opt_str_v(s.calibre_plugin_url));
    let es = opt_push(es, "calibre.plugin_api_key"@, opt_str_v(s.calibre_plugin_api_key));
    let es = opt_push(es, "cwa.ingest_path"@, opt_str_v(s.cwa_ingest_path));
    let es = opt_push(es, "import.mode"@, opt_str_v(s.import_mode));
    let es = opt_push(es, "import.drop_folder"@, opt_str_v(s.import_drop_folder));
    let es = opt_push(es, "import.drop_layout"@, opt_str_v(s.import_drop_layout));
    let es = opt_push(es, "import.drop_link_mode"@, opt_str_v(s.import_drop_link_mode));
    let es = opt_push(es, "import.drop_pair_gating"@, opt_bool_v(s.import_drop_pair_gating));
    let es = opt_push(es, "import.drop_pair_gating_timeout_hours"@, opt_i64_v(s.import_drop_pair_gating_timeout_hours));
    let es = opt_push(es, "default.media_type"@, opt_str_v(s.default_media_type));
    let es = opt_push(es, "default.media_type_strict"@, opt_bool_v(s.default_media_type_strict));
    let es = opt_push(es, "author.default_monitor_mode"@, opt_str_v(s.author_default_monitor_mode));
    let es = opt_push(es, "author.default_monitor_latest_count"@, opt_i64_v(s.author_default_monitor_latest_count));
    let es = opt_push(es, "library.defaultRootFolderId"@, opt_i64_v(s.library_default_root_folder_id));
    let es = opt_push(es, "metadata.primary_provider"@, opt_str_v(s.metadata_primary_provider));
    opt_push(es, "search.interval"@, opt_str_v(s.search_interval))
}

impl Setting {
    /// The wire form of the declared settings.
    pub fn to_wire(&self) -> (r: Json)
        ensures
            r@ == JsonV::Object(setting_entries(*self)),
    {
        let mut es: Vec<(String, Json)> = Vec::new();
        proof {
            assert(entries_view(es@) =~= Seq::empty());
        }
        wire::push_opt(&mut es, "hardcover.api_token", wire::opt_str_json(&self.hardcover_api_token));
        wire::push_opt(&mut es, "hardcover.enhanced_series_enabled", wire::opt_bool_json(self.hardcover_enhanced_series_enabled));
        wire::push_opt(&mut es, "hardcover.sync_interval", wire::opt_str_json(&self.hardcover_sync_interval));
        wire::push_opt(&mut es, "abs.enabled", wire::opt_bool_json(self.abs_enabled));
        wire::push_opt(&mut es, "abs.base_url", wire::opt_str_json(&self.abs_base_url));
        wire::push_opt(&mut es, "calibre.library_path", wire::opt_str_json(&self.calibre_library_path));
        wire::push_opt(&mut es, "calibre.binary_path", wire::opt_str_json(&self.calibre_binary_path));
        wire::push_opt(&mut es, "calibre.mode", wire::opt_str_json(&self.calibre_mode));
        wire::push_opt(&mut es, "calibre.push_path_remap", wire::opt_str_json(&self.calibre_push_path_remap));
        wire::push_opt(&mut es, "calibre.plugin_url", wire::opt_str_json(&self.calibre_plugin_url));
        wire::push_opt(&mut es, "calibre.plugin_api_key", wire::opt_str_json(&self.calibre_plugin_api_key));
        wire::push_opt(&mut es, "cwa.ingest_path", wire::opt_str_json(&self.cwa_ingest_path));
        wire::push_opt(&mut es, "import.mode", wire::opt_str_json(&self.import_mode));
        wire::push_opt(&mut es, "import.drop_folder", wire::opt_str_json(&self.import_drop_folder));
        wire::push_opt(&mut es, "import.drop_layout", wire::opt_str_json(&self.import_drop_layout));
        wire::push_opt(&mut es, "import.drop_link_mode", wire::opt_str_json(&self.import_drop_link_mode));
        wire::push_opt(&mut es, "import.drop_pair_gating", wire::opt_bool_json(self.import_drop_pair_gating));
        wire::push_opt(&mut es, "import.drop_pair_gating_timeout_hours", wire::opt_i64_json(self.import_drop_pair_gating_timeout_hours));
        wire::push_opt(&mut es, "default.media_type", wire::opt_str_json(&self.default_media_type));
        wire::push_opt(&mut es, "default.media_type_strict", wire::opt_bool_json(self.default_media_type_strict));
        wire::push_opt(&mut es, "author.default_monitor_mode", wire::opt_str_json(&self.author_default_monitor_mode));
        wire::push_opt(&mut es, "author.default_monitor_latest_count", wire::opt_i64_json(self.author_default_monitor_latest_count));
        wire::push_opt(&mut es, "library.defaultRootFolderId", wire::opt_i64_json(self.library_default_root_folder_id));
        wire::push_opt(&mut es, "metadata.primary_provider", wire::opt_str_json(&self.metadata_primary_provider));
        wire::push_opt(&mut es, "search.interval", wire::opt_str_json(&self.search_interval));
        wire::object(es)
    }
}

} // verus!
