//! `/api/v1/grimmory/config` — the Grimmory integration configuration.
//!
//! Two secrets, each with its own flag: `apiKey` (`apiKeyConfigured`) and
//! `password` (`passwordConfigured`).  The write is decided by
//! [`crate::bindery::config_secret`].
use crate::bindery::config_secret::{plan_secret_config, plan_spec, SecretConfigChange};
use crate::json::{Json, JsonV};
use crate::text::{joined, sorted, sorted_strings, strings_view};
use crate::wire::{self, opt_bool_v, opt_push, opt_str_v};
use vstd::prelude::*;

verus! {

/// Decides the write for the declared config `wire` against the live read.
pub fn plan(wire: &Json, live: &Json) -> (r: SecretConfigChange)
    ensures
        r@ == plan_spec(
            wire@,
            live@,
            seq!["apiKey"@, "password"@],
            seq![("apiKey"@, "apiKeyConfigured"@), ("password"@, "passwordConfigured"@)],
        ),
{
    let secret_keys: [&str; 2] = ["apiKey", "password"];
    let configured_keys: [(&str, &str); 2] = [
        ("apiKey", "apiKeyConfigured"),
        ("password", "passwordConfigured"),
    ];
    let r = plan_secret_config(wire, live, secret_keys.as_slice(), configured_keys.as_slice());
    assert(crate::bindery::config_secret::keys_view(secret_keys@) =~= seq![
        "apiKey"@,
        "password"@,
    ]);
    assert(crate::bindery::config_secret::pairs_view(configured_keys@) =~= seq![
        ("apiKey"@, "apiKeyConfigured"@),
        ("password"@, "passwordConfigured"@),
    ]);
    r
}

/// The keys of an object's entries, in order (none for a non-object).
pub open spec fn entry_keys(v: JsonV) -> Seq<Seq<char>> {
    match v {
        JsonV::Object(es) => es.map_values(|e: (Seq<char>, JsonV)| e.0),
        _ => Seq::empty(),
    }
}

/// The report detail of a secret-only write: the rotated keys in ascending
/// order, joined by `", "`.
pub fn rotated_detail(body: &Json) -> (r: String)
    ensures
        r@ == joined(sorted_strings(entry_keys(body@)), ", "@),
{
    let mut keys: Vec<String> = Vec::new();
    match body.as_object() {
        Some(es) => {
            let ghost ev = crate::json::entries_view(es@);
            let mut i: usize = 0;
            while i < es.len()
                invariant
                    i <= es@.len(),
                    ev == crate::json::entries_view(es@),
                    body@ == JsonV::Object(ev),
                    strings_view(keys@) =~= entry_keys(body@).take(i as int),
                decreases es@.len() - i,
            {
                let k = es[i].0.clone();
                let ghost before = keys@;
                keys.push(k);
                proof {
                    assert(ev[i as int].0 == es@[i as int].0@);
                    assert(entry_keys(body@)[i as int] == ev[i as int].0);
                    assert(strings_view(keys@) =~= strings_view(before).push(k@));
                    assert(entry_keys(body@).take(i + 1) =~= entry_keys(body@).take(i as int).push(
                        ev[i as int].0,
                    ));
                }
                i = i + 1;
            }
        },
        None => {},
    }
    assert(strings_view(keys@) =~= entry_keys(body@));
    let keys = sorted(keys);
    crate::text::join(&keys, ", ")
}

/// The Grimmory integration as the config declares it.
pub struct GrimmoryConfig {
    pub enabled: Option<bool>,
    pub base_url: Option<String>,
    /// Write-only; the read reports `apiKeyConfigured` instead.
    pub api_key: Option<String>,
    pub username: Option<String>,
    /// Write-only; the read reports `passwordConfigured` instead.
    pub password: Option<String>,
}

/// The wire entries of the configuration.
pub open spec fn config_entries(c: GrimmoryConfig) -> Seq<(Seq<char>, JsonV)> {
    let es = opt_push(Seq::empty(), "enabled"@, opt_bool_v(c.enabled));
    let es = opt_push(es, "baseUrl"@, opt_str_v(c.base_url));
    let es = opt_push(es, "apiKey"@, opt_str_v(c.api_key));
    let es = opt_push(es, "username"@, opt_str_v(c.username));
    opt_push(es, "password"@, opt_str_v(c.password))
}

impl GrimmoryConfig {
    /// The wire form of the configuration.
    pub fn to_wire(&self) -> (r: Json)
        ensures
            r@ == JsonV::Object(config_entries(*self)),
    {
        let mut es: Vec<(String, Json)> = Vec::new();
        proof {
            assert(crate::json::entries_view(es@) =~= Seq::empty());
        }
        wire::push_opt(&mut es, "enabled", wire::opt_bool_json(self.enabled));
        wire::push_opt(&mut es, "baseUrl", wire::opt_str_json(&self.base_url));
        wire::push_opt(&mut es, "apiKey", wire::opt_str_json(&self.api_key));
        wire::push_opt(&mut es, "username", wire::opt_str_json(&self.username));
        wire::push_opt(&mut es, "password", wire::opt_str_json(&self.password));
        wire::object(es)
    }
}

} // verus!
