//! Notifications: webhook targets fired on grab, import, upgrade, failure and
//! health events, created, updated and deleted by name.
use crate::json::{entries_view, Json, JsonV};
use crate::wire::{self, opt_bool_v, opt_push, opt_str_v};
use vstd::prelude::*;

verus! {

/// A notification target, keyed by name.
pub struct Notification {
    /// Server-assigned id; never sent.
    pub id: Option<i64>,
    /// Display name, the target's identity.
    pub name: String,
    /// The target kind, sent as `type`.
    pub notification_type: String,
    pub url: String,
    pub method: String,
    pub headers: Option<String>,
    pub topic: Option<String>,
    pub on_grab: Option<bool>,
    pub on_import: Option<bool>,
    pub on_upgrade: Option<bool>,
    pub on_failure: Option<bool>,
    pub on_health: Option<bool>,
    pub enabled: Option<bool>,
    /// Read-only timestamps; never sent.
    pub created_at: Option<String>,
    pub updated_at: Option<String>,
}

/// The wire entries of a notification target.
pub open spec fn notification_entries(n: Notification) -> Seq<(Seq<char>, JsonV)> {
    let es = seq![
        ("name"@, JsonV::String(n.name@)),
        ("type"@, JsonV::String(n.notification_type@)),
        ("url"@, JsonV::String(n.url@)),
        ("method"@, JsonV::String(n.method@)),
    ];
    let es = opt_push(es, "headers"@, opt_str_v(n.headers));
    let es = opt_push(es, "topic"@, opt_str_v(n.topic));
    let es = opt_push(es, "onGrab"@, opt_bool_v(n.on_grab));
    let es = opt_push(es, "onImport"@, opt_bool_v(n.on_import));
    let es = opt_push(es, "onUpgrade"@, opt_bool_v(n.on_upgrade));
    let es = opt_push(es, "onFailure"@, opt_bool_v(n.on_failure));
    let es = opt_push(es, "onHealth"@, opt_bool_v(n.on_health));
    opt_push(es, "enabled"@, opt_bool_v(n.enabled))
}

impl Notification {
    /// The wire form of the target (the id and timestamps are never sent).
    pub fn to_wire(&self) -> (r: Json)
        ensures
            r@ == JsonV::Object(notification_entries(*self)),
    {
        let mut es: Vec<(String, Json)> = Vec::new();
        proof {
            assert(entries_view(es@) =~= Seq::empty());
        }
        wire::push(&mut es, "name", wire::str_json(&self.name));
        wire::push(&mut es, "type", wire::str_json(&self.notification_type));
        wire::push(&mut es, "url", wire::str_json(&self.url));
        wire::push(&mut es, "method", wire::str_json(&self.method));
        proof {
            assert(entries_view(es@) =~= seq![
                ("name"@, JsonV::String(self.name@)),
                ("type"@, JsonV::String(self.notification_type@)),
                ("url"@, JsonV::String(self.url@)),
                ("method"@, JsonV::String(self.method@)),
            ]);
        }
        wire::push_opt(&mut es, "headers", wire::opt_str_json(&self.headers));
        wire::push_opt(&mut es, "topic", wire::opt_str_json(&self.topic));
        wire::push_opt(&mut es, "onGrab", wire::opt_bool_json(self.on_grab));
        wire::push_opt(&mut es, "onImport", wire::opt_bool_json(self.on_import));
        wire::push_opt(&mut es, "onUpgrade", wire::opt_bool_json(self.on_upgrade));
        wire::push_opt(&mut es, "onFailure", wire::opt_bool_json(self.on_failure));
        wire::push_opt(&mut es, "onHealth", wire::opt_bool_json(self.on_health));
        wire::push_opt(&mut es, "enabled", wire::opt_bool_json(self.enabled));
        wire::object(es)
    }
}

} // verus!
