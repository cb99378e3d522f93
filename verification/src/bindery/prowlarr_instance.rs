//! Prowlarr instances: linked Prowlarr servers whose indexers sync down into
//! Bindery, created, updated and deleted by name.  Deleting an instance also
//! deletes every indexer synced from it.
use crate::json::{entries_view, Json, JsonV};
use crate::wire::{self, opt_bool_v, opt_push, opt_str_v};
use vstd::prelude::*;

verus! {

/// A Prowlarr instance, keyed by name.
pub struct ProwlarrInstance {
    /// Server-assigned id; never sent.
    pub id: Option<i64>,
    /// Display name, the instance's identity.
    pub name: String,
    pub url: String,
    pub api_key: Option<String>,
    pub sync_on_startup: Option<bool>,
    pub enabled: Option<bool>,
    /// Read-only timestamps; never sent.
    pub last_sync_at: Option<String>,
    pub created_at: Option<String>,
    pub updated_at: Option<String>,
}

/// The wire entries of an instance.
pub open spec fn instance_entries(p: ProwlarrInstance) -> Seq<(Seq<char>, JsonV)> {
    let es = seq![("name"@, JsonV::String(p.name@)), ("url"@, JsonV::String(p.url@))];
    let es = opt_push(es, "apiKey"@, opt_str_v(p.api_key));
    let es = opt_push(es, "syncOnStartup"@, opt_bool_v(p.sync_on_startup));
    opt_push(es, "enabled"@, opt_bool_v(p.enabled))
}

impl ProwlarrInstance {
    /// The wire form of the instance (id and timestamps are never sent).
    pub fn to_wire(&self) -> (r: Json)
        ensures
            r@ == JsonV::Object(instance_entries(*self)),
    {
        let mut es: Vec<(String, Json)> = Vec::new();
        proof {
            assert(entries_view(es@) =~= Seq::empty());
        }
        wire::push(&mut es, "name", wire::str_json(&self.name));
        wire::push(&mut es, "url", wire::str_json(&self.url));
        proof {
            assert(entries_view(es@) =~= seq![
                ("name"@, JsonV::String(self.name@)),
                ("url"@, JsonV::String(self.url@)),
            ]);
        }
        wire::push_opt(&mut es, "apiKey", wire::opt_str_json(&self.api_key));
        wire::push_opt(&mut es, "syncOnStartup", wire::opt_bool_json(self.sync_on_startup));
        wire::push_opt(&mut es, "enabled", wire::opt_bool_json(self.enabled));
        wire::object(es)
    }
}

} // verus!
