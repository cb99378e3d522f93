//! An external filter check: autobrr calls a webhook or runs a command and
//! gates a release on the result.
use crate::json::{entries_view, Json, JsonV};
use crate::wire::{self, opt_bool_v, opt_int_v, opt_push, opt_str_v};
use vstd::prelude::*;

verus! {

/// An external filter check.
pub struct ExternalFilter {
    pub id: Option<i32>,
    pub name: Option<String>,
    /// Evaluation order among the checks.
    pub index: Option<i32>,
    /// `EXEC` or `WEBHOOK`; sent as `type`.
    pub external_type: Option<String>,
    pub enabled: Option<bool>,
    pub webhook_host: Option<String>,
    pub webhook_method: Option<String>,
    pub webhook_data: Option<String>,
    /// `Key=value,Key2=value2`.
    pub webhook_headers: Option<String>,
    pub webhook_expect_status: Option<i32>,
    pub webhook_retry_status: Option<String>,
    pub webhook_retry_attempts: Option<i32>,
    pub webhook_retry_delay_seconds: Option<i32>,
    pub exec_cmd: Option<String>,
    pub exec_args: Option<String>,
    pub exec_expect_status: Option<i32>,
    /// `CONTINUE` or `REJECT`.
    pub on_error: Option<String>,
}

/// The wire entries of a check (snake_case keys).
pub open spec fn filter_entries(f: ExternalFilter) -> Seq<(Seq<char>, JsonV)> {
    let es = opt_push(Seq::empty(), "id"@, opt_int_v(f.id));
    let es = opt_push(es, "name"@, opt_str_v(f.name));
    let es = opt_push(es, "index"@, opt_int_v(f.index));
    let es = opt_push(es, "type"@, opt_str_v(f.external_type));
    let es = opt_push(es, "enabled"@, opt_bool_v(f.enabled));
    let es = opt_push(es, "webhook_host"@, opt_str_v(f.webhook_host));
    let es = opt_push(es, "webhook_method"@, opt_str_v(f.webhook_method));
    let es = opt_push(es, "webhook_data"@, opt_str_v(f.webhook_data));
    let es = opt_push(es, "webhook_headers"@, opt_str_v(f.webhook_headers));
    let es = opt_push(es, "webhook_expect_status"@, opt_int_v(f.webhook_expect_status));
    let es = opt_push(es, "webhook_retry_status"@, opt_str_v(f.webhook_retry_status));
    let es = opt_push(es, "webhook_retry_attempts"@, opt_int_v(f.webhook_retry_attempts));
    let es = opt_push(es, "webhook_retry_delay_seconds"@, opt_int_v(f.webhook_retry_delay_seconds));
    let es = opt_push(es, "exec_cmd"@, opt_str_v(f.exec_cmd));
    let es = opt_push(es, "exec_args"@, opt_str_v(f.exec_args));
    let es = opt_push(es, "exec_expect_status"@, opt_int_v(f.exec_expect_status));
    opt_push(es, "on_error"@, opt_str_v(f.on_error))
}

impl ExternalFilter {
    /// The wire form of the check.
    pub fn to_wire(&self) -> (r: Json)
        ensures
            r@ == JsonV::Object(filter_entries(*self)),
    {
        let mut es: Vec<(String, Json)> = Vec::new();
        proof {
            assert(entries_view(es@) =~= Seq::empty());
        }
        wire::push_opt(&mut es, "id", wire::opt_int_json(self.id));
        wire::push_opt(&mut es, "name", wire::opt_str_json(&self.name));
        wire::push_opt(&mut es, "index", wire::opt_int_json(self.index));
        wire::push_opt(&mut es, "type", wire::opt_str_json(&self.external_type));
        wire::push_opt(&mut es, "enabled", wire::opt_bool_json(self.enabled));
        wire::push_opt(&mut es, "webhook_host", wire::opt_str_json(&self.webhook_host));
        wire::push_opt(&mut es, "webhook_method", wire::opt_str_json(&self.webhook_method));
        wire::push_opt(&mut es, "webhook_data", wire::opt_str_json(&self.webhook_data));
        wire::push_opt(&mut es, "webhook_headers", wire::opt_str_json(&self.webhook_headers));
        wire::push_opt(&mut es, "webhook_expect_status", wire::opt_int_json(self.webhook_expect_status));
        wire::push_opt(&mut es, "webhook_retry_status", wire::opt_str_json(&self.webhook_retry_status));
        wire::push_opt(
            &mut es,
            "webhook_retry_attempts",
            wire::opt_int_json(self.webhook_retry_attempts),
        );
        wire::push_opt(
            &mut es,
            "webhook_retry_delay_seconds",
            wire::opt_int_json(self.webhook_retry_delay_seconds),
        );
        wire::push_opt(&mut es, "exec_cmd", wire::opt_str_json(&self.exec_cmd));
        wire::push_opt(&mut es, "exec_args", wire::opt_str_json(&self.exec_args));
        wire::push_opt(&mut es, "exec_expect_status", wire::opt_int_json(self.exec_expect_status));
        wire::push_opt(&mut es, "on_error", wire::opt_str_json(&self.on_error));
        wire::object(es)
    }
}

} // verus!
