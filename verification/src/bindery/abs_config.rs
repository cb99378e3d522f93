//! `/api/v1/abs/config` — the Audiobookshelf import source configuration.
//!
//! The read reports `apiKeyConfigured`; the write takes `apiKey`.  The write
//! is decided by [`crate::bindery::config_secret`] with that one secret.
use crate::bindery::config_secret::{plan_secret_config, plan_spec, SecretConfigChange};
use crate::json::{Json, JsonV};
use crate::wire::{self, opt_bool_v, opt_push, opt_str_v, strs_v};
use vstd::prelude::*;

verus! {

/// Decides the write for the declared config `wire` against the live read.
pub fn plan(wire: &Json, live: &Json) -> (r: SecretConfigChange)
    ensures
        r@ == plan_spec(wire@, live@, seq!["apiKey"@], seq![("apiKey"@, "apiKeyConfigured"@)]),
{
    let secret_keys: [&str; 1] = ["apiKey"];
    let configured_keys: [(&str, &str); 1] = [("apiKey", "apiKeyConfigured")];
    let r = plan_secret_config(wire, live, secret_keys.as_slice(), configured_keys.as_slice());
    assert(crate::bindery::config_secret::keys_view(secret_keys@) =~= seq!["apiKey"@]);
    assert(crate::bindery::config_secret::pairs_view(configured_keys@) =~= seq![
        ("apiKey"@, "apiKeyConfigured"@),
    ]);
    r
}

/// The Audiobookshelf import source as the config declares it.
pub struct AbsConfig {
    pub base_url: Option<String>,
    pub label: Option<String>,
    pub enabled: Option<bool>,
    /// The libraries to import; the first becomes the server's `libraryId`.
    pub library_ids: Vec<String>,
    pub path_remap: Option<String>,
    /// Write-only; the read reports `apiKeyConfigured` instead.
    pub api_key: Option<String>,
}

/// The wire entries of the configuration.
pub open spec fn config_entries(c: AbsConfig) -> Seq<(Seq<char>, JsonV)> {
    let es = opt_push(Seq::empty(), "baseUrl"@, opt_str_v(c.base_url));
    let es = opt_push(es, "label"@, opt_str_v(c.label));
    let es = opt_push(es, "enabled"@, opt_bool_v(c.enabled));
    let es = es.push(("libraryIds"@, strs_v(c.library_ids@)));
    let es = opt_push(es, "pathRemap"@, opt_str_v(c.path_remap));
    opt_push(es, "apiKey"@, opt_str_v(c.api_key))
}

impl AbsConfig {
    /// The wire form of the configuration.
    pub fn to_wire(&self) -> (r: Json)
        ensures
            r@ == JsonV::Object(config_entries(*self)),
    {
        let mut es: Vec<(String, Json)> = Vec::new();
        proof {
            assert(crate::json::entries_view(es@) =~= Seq::empty());
        }
        wire::push_opt(&mut es, "baseUrl", wire::opt_str_json(&self.base_url));
        wire::push_opt(&mut es, "label", wire::opt_str_json(&self.label));
        wire::push_opt(&mut es, "enabled", wire::opt_bool_json(self.enabled));
        wire::push(&mut es, "libraryIds", wire::strs_json(&self.library_ids));
        wire::push_opt(&mut es, "pathRemap", wire::opt_str_json(&self.path_remap));
        wire::push_opt(&mut es, "apiKey", wire::opt_str_json(&self.api_key));
        wire::object(es)
    }
}

} // verus!
