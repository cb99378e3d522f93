//! `/api/emails/settings` — SMTP configuration for outgoing e-book email.
//!
//! The read is wrapped (`{"settings": {...}}`) while the `PATCH` body is flat,
//! so the declared keys are compared against `.settings` and, when any of them
//! differs, the flat declared object is sent.
use crate::json::{opt_view, Json, JsonV};
use crate::sync::{self, field_in_sync_spec, fields_in_sync_spec, settings_of, Step};
use crate::wire::{self, int_v, opt_push, opt_str_v};
use vstd::prelude::*;

verus! {

/// `want` (a declared value) against `have` (the live value at the same key,
/// if any): numbers compare as doubles, an absent live value matches only a
/// declared `null`.
pub fn field_in_sync(want: &Json, have: Option<&Json>) -> (r: bool)
    ensures
        r == field_in_sync_spec(want@, opt_view(have)),
{
    sync::field_in_sync(want, have)
}

/// Every key the declared object holds already matches `.settings` at that key.
pub fn in_sync(wire: &Json, live_settings: &Json) -> (r: bool)
    ensures
        r == fields_in_sync_spec(wire@, live_settings@),
{
    sync::fields_in_sync(wire, live_settings)
}

/// Decides the write for the declared keys `wire` against the `GET` envelope:
/// unchanged when every declared key matches `.settings`, else `wire` itself is
/// the `PATCH` body.
pub fn reconcile_step(wire: Json, envelope: &Json) -> (r: Step)
    ensures
        match r {
            Step::Unchanged => fields_in_sync_spec(wire@, settings_of(envelope@)),
            Step::Write(body) => !fields_in_sync_spec(wire@, settings_of(envelope@)) && body@
                == wire@,
        },
{
    sync::settings_step(wire, envelope)
}

/// The SMTP settings as the config declares them.
pub struct EmailSettings {
    /// The settings object's id (`email-settings` by default).
    pub id: String,
    pub host: Option<String>,
    pub port: i32,
    pub secure: bool,
    pub reject_unauthorized: bool,
    pub user: Option<String>,
    /// The SMTP password; the server reads it back unmasked.
    pub pass: Option<String>,
    pub test_address: Option<String>,
    pub from_address: Option<String>,
    /// The devices, owned and written by the e-reader resource.
    pub ereader_devices: Vec<Json>,
}

/// The wire entries of the settings.
pub open spec fn settings_entries(e: EmailSettings) -> Seq<(Seq<char>, JsonV)> {
    let es = opt_push(seq![("id"@, JsonV::String(e.id@))], "host"@, opt_str_v(e.host));
    let es = es.push(("port"@, int_v(e.port as int))).push(("secure"@, JsonV::Bool(e.secure))).push(
        ("rejectUnauthorized"@, JsonV::Bool(e.reject_unauthorized)),
    );
    let es = opt_push(es, "user"@, opt_str_v(e.user));
    let es = opt_push(es, "pass"@, opt_str_v(e.pass));
    let es = opt_push(es, "testAddress"@, opt_str_v(e.test_address));
    let es = opt_push(es, "fromAddress"@, opt_str_v(e.from_address));
    es.push(("ereaderDevices"@, JsonV::Array(crate::json::elems_view(e.ereader_devices@))))
}

impl EmailSettings {
    /// The wire form of the settings.
    pub fn to_wire(&self) -> (r: Json)
        ensures
            r@ == JsonV::Object(settings_entries(*self)),
    {
        let mut es: Vec<(String, Json)> = Vec::new();
        proof {
            assert(crate::json::entries_view(es@) =~= Seq::empty());
        }
        wire::push(&mut es, "id", wire::str_json(&self.id));
        proof {
            assert(crate::json::entries_view(es@) =~= seq![("id"@, JsonV::String(self.id@))]);
        }
        wire::push_opt(&mut es, "host", wire::opt_str_json(&self.host));
        wire::push(&mut es, "port", wire::int_json(self.port as i64));
        wire::push(&mut es, "secure", Json::Bool(self.secure));
        wire::push(&mut es, "rejectUnauthorized", Json::Bool(self.reject_unauthorized));
        wire::push_opt(&mut es, "user", wire::opt_str_json(&self.user));
        wire::push_opt(&mut es, "pass", wire::opt_str_json(&self.pass));
        wire::push_opt(&mut es, "testAddress", wire::opt_str_json(&self.test_address));
        wire::push_opt(&mut es, "fromAddress", wire::opt_str_json(&self.from_address));
        wire::push(&mut es, "ereaderDevices", wire::values_json(&self.ereader_devices));
        wire::object(es)
    }
}

} // verus!
