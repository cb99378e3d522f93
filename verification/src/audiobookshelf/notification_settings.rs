//! `/api/notifications` — the Apprise delivery settings singleton.
//!
//! The read nests the settings under `.settings` of the `GET` envelope while the
//! `PATCH` body is flat, so the declared keys are compared against `.settings`
//! and, when any of them differs, the flat declared object is sent.
use crate::json::{opt_view, Json, JsonV};
use crate::sync::{self, field_in_sync_spec, fields_in_sync_spec, settings_of, Step};
use crate::wire::{self, null_push, opt_int_v, opt_push, opt_str_v};
use vstd::prelude::*;

verus! {

/// `want` (a declared value) against `have` (the live value at the same key,
/// if any): numbers compare as doubles, an absent live value matches only a
/// declared `null`.
pub fn field_in_sync(want: &Json, have: Option<&Json>) -> (r: bool)
    ensures
        r == field_in_sync_spec(want@, opt_view(have)),
{
    sync::field_in_sync(want, have)
}

/// Every key the declared object holds already matches `.settings` at that key.
pub fn in_sync(wire: &Json, live_settings: &Json) -> (r: bool)
    ensures
        r == fields_in_sync_spec(wire@, live_settings@),
{
    sync::fields_in_sync(wire, live_settings)
}

/// Decides the write for the declared keys `wire` against the `GET` envelope:
/// unchanged when every declared key matches `.settings`, else `wire` itself is
/// the `PATCH` body.
pub fn reconcile_step(wire: Json, envelope: &Json) -> (r: Step)
    ensures
        match r {
            Step::Unchanged => fields_in_sync_spec(wire@, settings_of(envelope@)),
            Step::Write(body) => !fields_in_sync_spec(wire@, settings_of(envelope@)) && body@
                == wire@,
        },
{
    sync::settings_step(wire, envelope)
}

/// The Apprise delivery settings as the config declares them (only the three
/// keys the write reads are sent).
pub struct NotificationSettings {
    /// Server id; never sent.
    pub id: Option<String>,
    /// The Apprise API URL; unset is sent as `null`, which clears it.
    pub apprise_api_url: Option<String>,
    pub max_failed_attempts: Option<i32>,
    pub max_notification_queue: Option<i32>,
}

/// The wire entries of the settings.
pub open spec fn settings_entries(n: NotificationSettings) -> Seq<(Seq<char>, JsonV)> {
    opt_push(
        opt_push(
            null_push(Seq::empty(), "appriseApiUrl"@, opt_str_v(n.apprise_api_url)),
            "maxFailedAttempts"@,
            opt_int_v(n.max_failed_attempts),
        ),
        "maxNotificationQueue"@,
        opt_int_v(n.max_notification_queue),
    )
}

impl NotificationSettings {
    /// The wire form of the settings.
    pub fn to_wire(&self) -> (r: Json)
        ensures
            r@ == JsonV::Object(settings_entries(*self)),
    {
        let mut es: Vec<(String, Json)> = Vec::new();
        proof {
            assert(crate::json::entries_view(es@) =~= Seq::empty());
        }
        wire::push_nullable(&mut es, "appriseApiUrl", wire::opt_str_json(&self.apprise_api_url));
        wire::push_opt(&mut es, "maxFailedAttempts", wire::opt_int_json(self.max_failed_attempts));
        wire::push_opt(
            &mut es,
            "maxNotificationQueue",
            wire::opt_int_json(self.max_notification_queue),
        );
        wire::object(es)
    }
}

} // verus!
