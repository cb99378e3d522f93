//! Auth for a download client's web endpoint.
use crate::json::{entries_view, Json, JsonV};
use crate::wire::{self, opt_bool_v, opt_push, opt_str_v};
use vstd::prelude::*;

verus! {

/// Auth for a download client's web endpoint.
pub struct DownloadClientAuth {
    /// Whether auth is required.
    pub enabled: Option<bool>,
    /// `NONE`, `BASIC_AUTH` or `DIGEST_AUTH`; sent as `type`.
    pub auth_type: Option<String>,
    pub username: Option<String>,
    pub password: Option<String>,
}

/// The wire entries of an auth block (snake_case keys).
pub open spec fn auth_entries(a: DownloadClientAuth) -> Seq<(Seq<char>, JsonV)> {
    let es = opt_push(Seq::empty(), "enabled"@, opt_bool_v(a.enabled));
    let es = opt_push(es, "type"@, opt_str_v(a.auth_type));
    let es = opt_push(es, "username"@, opt_str_v(a.username));
    opt_push(es, "password"@, opt_str_v(a.password))
}

impl DownloadClientAuth {
    /// The wire form of the auth block.
    pub fn to_wire(&self) -> (r: Json)
        ensures
            r@ == JsonV::Object(auth_entries(*self)),
    {
        let mut es: Vec<(String, Json)> = Vec::new();
        proof {
            assert(entries_view(es@) =~= Seq::empty());
        }
        wire::push_opt(&mut es, "enabled", wire::opt_bool_json(self.enabled));
        wire::push_opt(&mut es, "type", wire::opt_str_json(&self.auth_type));
        wire::push_opt(&mut es, "username", wire::opt_str_json(&self.username));
        wire::push_opt(&mut es, "password", wire::opt_str_json(&self.password));
        wire::object(es)
    }
}

} // verus!
