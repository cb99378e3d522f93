//! `/api/v1/auth/config` (read) and `/api/v1/auth/mode` (write) — the server's
//! authentication mode.
//!
//! The read carries the admin API key and username beside `mode`; the write
//! takes only `{mode}`.  So only `.mode` is compared, and the write body is
//! built from the declared mode alone: nothing read ever enters it.
use crate::json::{str_equal, Json, JsonV};
use crate::sync::{str_or, Step};
use vstd::prelude::*;

verus! {

/// The server's authentication mode.
#[derive(PartialEq, Eq, Structural, Debug, Clone, Copy)]
pub enum AuthModeValue {
    /// Local accounts, plus OIDC when configured.
    Enabled,
    /// Local accounts only.
    LocalOnly,
    /// Authentication disabled: every request is treated as admin.
    Disabled,
    /// Authentication delegated to an upstream reverse proxy.
    Proxy,
    /// A value this version does not know (the server treats it as `enabled`).
    Unknown,
}

/// The wire string of a mode (kebab-case).
pub open spec fn mode_wire(m: AuthModeValue) -> Seq<char> {
    match m {
        AuthModeValue::Enabled => "enabled"@,
        AuthModeValue::LocalOnly => "local-only"@,
        AuthModeValue::Disabled => "disabled"@,
        AuthModeValue::Proxy => "proxy"@,
        AuthModeValue::Unknown => "unknown"@,
    }
}

/// The mode a wire string names; any other string is `Unknown`.
pub open spec fn mode_from_wire(s: Seq<char>) -> AuthModeValue {
    if s == "enabled"@ {
        AuthModeValue::Enabled
    } else if s == "local-only"@ {
        AuthModeValue::LocalOnly
    } else if s == "disabled"@ {
        AuthModeValue::Disabled
    } else if s == "proxy"@ {
        AuthModeValue::Proxy
    } else {
        AuthModeValue::Unknown
    }
}

impl AuthModeValue {
    /// The wire string of this mode.
    pub fn as_wire(&self) -> (r: &'static str)
        ensures
            r@ == mode_wire(*self),
    {
        match self {
            AuthModeValue::Enabled => "enabled",
            AuthModeValue::LocalOnly => "local-only",
            AuthModeValue::Disabled => "disabled",
            AuthModeValue::Proxy => "proxy",
            AuthModeValue::Unknown => "unknown",
        }
    }

    /// The mode a wire string names, `Unknown` for any other string.
    pub fn from_wire(s: &str) -> (r: AuthModeValue)
        ensures
            r == mode_from_wire(s@),
    {
        if str_equal(s, "enabled") {
            AuthModeValue::Enabled
        } else if str_equal(s, "local-only") {
            AuthModeValue::LocalOnly
        } else if str_equal(s, "disabled") {
            AuthModeValue::Disabled
        } else if str_equal(s, "proxy") {
            AuthModeValue::Proxy
        } else {
            AuthModeValue::Unknown
        }
    }
}

/// The authentication-mode singleton.
pub struct AuthMode {
    /// The desired mode.
    pub mode: AuthModeValue,
}

/// The body that sets `mode`: `{"mode": mode}`.
pub open spec fn mode_body(mode: Seq<char>) -> JsonV {
    JsonV::Object(seq![("mode"@, JsonV::String(mode))])
}

impl AuthMode {
    /// The declared config on the wire: `{"mode": "<mode>"}`.
    pub fn to_wire(&self) -> (r: Json)
        ensures
            r@ == mode_body(mode_wire(self.mode)),
    {
        mode_json(self.mode.as_wire())
    }
}

fn mode_json(mode: &str) -> (r: Json)
    ensures
        r@ == mode_body(mode@),
{
    let r = Json::empty_object().set_key("mode".to_owned(), Json::from_str(mode));
    assert(r@->Object_0 =~= seq![("mode"@, JsonV::String(mode@))]);
    r
}

/// Unchanged when the declared and live `mode` strings are equal (an absent or
/// non-string mode reads as empty); else `{mode}` with the declared mode.
pub open spec fn step_spec(wire: JsonV, live: JsonV) -> Option<JsonV> {
    let want = str_or(wire, "mode"@, Seq::empty());
    if want == str_or(live, "mode"@, Seq::empty()) {
        None
    } else {
        Some(mode_body(want))
    }
}

/// Decides the write for the declared config `wire` against the
/// `GET /api/v1/auth/config` response `live`.
pub fn reconcile_step(wire: &Json, live: &Json) -> (r: Step)
    ensures
        match r {
            Step::Unchanged => step_spec(wire@, live@) is None,
            Step::Write(body) => step_spec(wire@, live@) == Some(body@),
        },
{
    proof {
        reveal_strlit("");
        assert(""@ =~= Seq::<char>::empty());
    }
    let want = crate::sync::string_or(wire, "mode", "");
    let have = crate::sync::string_or(live, "mode", "");
    if str_equal(want.as_str(), have.as_str()) {
        Step::Unchanged
    } else {
        Step::Write(mode_json(want.as_str()))
    }
}

/// Every mode's wire string reads back as the same mode.
pub proof fn law_mode_wire_round_trips(m: AuthModeValue)
    ensures
        mode_from_wire(mode_wire(m)) == m,
{
    reveal_strlit("enabled");
    reveal_strlit("local-only");
    reveal_strlit("disabled");
    reveal_strlit("proxy");
    reveal_strlit("unknown");
    assert("enabled"@.len() == 7 && "local-only"@.len() == 10 && "disabled"@.len() == 8);
    assert("proxy"@.len() == 5 && "unknown"@.len() == 7);
    assert("unknown"@[0] != "enabled"@[0]);
}

/// Writing the declared mode settles it: once the live mode equals the
/// declared one, the step is unchanged.
pub proof fn law_written_mode_is_unchanged(wire: JsonV, live: JsonV)
    requires
        str_or(live, "mode"@, Seq::empty()) == str_or(wire, "mode"@, Seq::empty()),
    ensures
        step_spec(wire, live) is None,
{
}

} // verus!
