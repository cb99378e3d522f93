//! `/api/v1/auth/users` — local accounts.
//!
//! There is no whole-object update: `role` goes to
//! `PUT /api/v1/auth/users/{id}/role` and a password reset to
//! `PUT /api/v1/auth/users/{id}/reset-password`, and a password never reads
//! back.  Per declared user:
//! * absent: create it with `{username, password, role}`; a missing or empty
//!   password is an error, never an empty credential;
//! * present with the same role: unchanged;
//! * present with another role: the role is written;
//! * a non-empty `resetPassword` resets the password on every apply it stays
//!   declared.
use crate::json::{obj_get, str_equal, Json, JsonV};
use crate::json::elems_view;
use crate::sync::{
    first_index_with_str, first_with_str, keys_of, requests_view, str_or, undeclared_spec,
    ChangeKind, Method, Request, RequestV,
};
use crate::text::{decimal_i64, signed_decimal};
use crate::wire::{self, opt_push, opt_str_v};
use vstd::prelude::*;

verus! {

/// An account's role.
#[derive(PartialEq, Eq, Structural, Debug, Clone, Copy)]
pub enum UserRole {
    Admin,
    User,
    /// A value this version does not know.
    Unknown,
}

/// The wire string of a role (lowercase).
pub open spec fn role_wire(r: UserRole) -> Seq<char> {
    match r {
        UserRole::Admin => "admin"@,
        UserRole::User => "user"@,
        UserRole::Unknown => "unknown"@,
    }
}

impl UserRole {
    /// The wire string of this role.
    pub fn as_wire(&self) -> (r: &'static str)
        ensures
            r@ == role_wire(*self),
    {
        match self {
            UserRole::Admin => "admin",
            UserRole::User => "user",
            UserRole::Unknown => "unknown",
        }
    }

    /// The role a wire string names, `Unknown` for any other string.
    pub fn from_wire(s: &str) -> (r: UserRole)
        ensures
            s@ == "admin"@ ==> r == UserRole::Admin,
            s@ == "user"@ ==> r == UserRole::User,
            s@ != "admin"@ && s@ != "user"@ ==> r == UserRole::Unknown,
    {
        proof {
            reveal_strlit("admin");
            reveal_strlit("user");
            assert("admin"@.len() != "user"@.len());
        }
        if str_equal(s, "admin") {
            UserRole::Admin
        } else if str_equal(s, "user") {
            UserRole::User
        } else {
            UserRole::Unknown
        }
    }
}

/// Why a declared user cannot be planned.
#[derive(Debug, PartialEq, Eq)]
pub enum UserError {
    /// The declared entry has no string `username`.
    MissingUsername,
    /// The user does not exist live and declares no non-empty `password`.
    MissingPassword(String),
    /// A write to an existing user needs its live integer `id`, and the live
    /// entry has none.
    MissingId,
}

impl UserError {
    /// The error message.
    pub fn message(&self) -> (r: String)
        ensures
            r@ == match self {
                UserError::MissingUsername => "user entry is missing `username`"@,
                UserError::MissingPassword(name) => "user `"@ + name@
                    + "` does not exist and declares no `password`; a password is required to create it"@,
                UserError::MissingId => "user entry is missing an integer `id`"@,
            },
    {
        match self {
            UserError::MissingUsername => "user entry is missing `username`".to_owned(),
            UserError::MissingPassword(name) => {
                let mut m = "user `".to_owned();
                m.append(name.as_str());
                m.append(
                    "` does not exist and declares no `password`; a password is required to create it",
                );
                m
            },
            UserError::MissingId => "user entry is missing an integer `id`".to_owned(),
        }
    }
}

/// What to do for one declared user.
pub enum UserAction {
    /// The user does not exist: `POST /api/v1/auth/users` with `body`.
    Create { username: String, body: Json },
    /// The user exists: `role_body` for `PUT .../role` when the role differs,
    /// `reset_body` for `PUT .../reset-password` when a reset is declared; `id`
    /// is the live integer id the paths need.
    Existing {
        username: String,
        role: String,
        id: Option<i64>,
        role_body: Option<Json>,
        reset_body: Option<Json>,
    },
}

/// The view of a [`UserAction`].
pub enum UserActionV {
    Create { username: Seq<char>, body: JsonV },
    Existing {
        username: Seq<char>,
        role: Seq<char>,
        id: Option<i64>,
        role_body: Option<JsonV>,
        reset_body: Option<JsonV>,
    },
}

impl View for UserAction {
    type V = UserActionV;

    open spec fn view(&self) -> UserActionV {
        match *self {
            UserAction::Create { username, body } => UserActionV::Create {
                username: username@,
                body: body@,
            },
            UserAction::Existing { username, role, id, role_body, reset_body } => UserActionV::Existing {
                username: username@,
                role: role@,
                id,
                role_body: crate::json::opt_json_view(role_body),
                reset_body: crate::json::opt_json_view(reset_body),
            },
        }
    }
}

/// The view of a [`UserError`].
pub enum UserErrorV {
    MissingUsername,
    MissingPassword(Seq<char>),
    MissingId,
}

/// The view of a [`UserError`].
pub open spec fn error_view(e: UserError) -> UserErrorV {
    match e {
        UserError::MissingUsername => UserErrorV::MissingUsername,
        UserError::MissingPassword(n) => UserErrorV::MissingPassword(n@),
        UserError::MissingId => UserErrorV::MissingId,
    }
}

/// The live integer `id` of a user entry.
pub open spec fn id_of(u: JsonV) -> Option<i64> {
    match u.get("id"@) {
        Some(x) => x.i64_of(),
        None => None,
    }
}

/// A string declared at `key` that is not empty.
pub open spec fn non_empty_at(v: JsonV, key: Seq<char>) -> Option<Seq<char>> {
    match v.str_at(key) {
        Some(s) => if s.len() > 0 {
            Some(s)
        } else {
            None
        },
        None => None,
    }
}

/// The create body `{username, password, role}`.
pub open spec fn create_body_spec(username: Seq<char>, password: Seq<char>, role: Seq<char>) -> JsonV {
    JsonV::Object(
        seq![
            ("username"@, JsonV::String(username)),
            ("password"@, JsonV::String(password)),
            ("role"@, JsonV::String(role)),
        ],
    )
}

/// A one-key object `{key: "<value>"}`.
pub open spec fn single(key: Seq<char>, value: Seq<char>) -> JsonV {
    JsonV::Object(seq![(key, JsonV::String(value))])
}

/// The decision for one declared user `wire` against the live users.
pub open spec fn plan_spec(wire: JsonV, live: Seq<JsonV>) -> Result<UserActionV, UserErrorV> {
    match wire.str_at("username"@) {
        None => Err(UserErrorV::MissingUsername),
        Some(username) => {
            let role = str_or(wire, "role"@, Seq::empty());
            match first_with_str(live, "username"@, username) {
                None => match non_empty_at(wire, "password"@) {
                    Some(p) => Ok(
                        UserActionV::Create {
                            username,
                            body: create_body_spec(username, p, role),
                        },
                    ),
                    None => Err(UserErrorV::MissingPassword(username)),
                },
                Some(u) => Ok(
                    UserActionV::Existing {
                        username,
                        role,
                        id: id_of(u),
                        role_body: if str_or(u, "role"@, Seq::empty()) == role {
                            None
                        } else {
                            Some(single("role"@, role))
                        },
                        reset_body: match non_empty_at(wire, "resetPassword"@) {
                            Some(p) => Some(single("password"@, p)),
                            None => None,
                        },
                    },
                ),
            }
        },
    }
}

fn single_json(key: &str, value: &str) -> (r: Json)
    ensures
        r@ == single(key@, value@),
{
    let r = Json::empty_object().set_key(key.to_owned(), Json::from_str(value));
    assert(r@->Object_0 =~= seq![(key@, JsonV::String(value@))]);
    r
}

fn non_empty_str<'a>(v: &'a Json, key: &str) -> (r: Option<&'a str>)
    ensures
        match r {
            Some(s) => non_empty_at(v@, key@) == Some(s@),
            None => non_empty_at(v@, key@) is None,
        },
{
    proof {
        reveal_strlit("");
        assert(""@ =~= Seq::<char>::empty());
    }
    match v.get(key) {
        Some(x) => match x.as_str() {
            Some(s) => if str_equal(s, "") {
                None
            } else {
                assert(s@.len() > 0) by {
                    if s@.len() == 0 {
                        assert(s@ =~= Seq::<char>::empty());
                    }
                }
                Some(s)
            },
            None => None,
        },
        None => None,
    }
}

/// Decides what to do for one declared user against the live users.
pub fn plan(wire: &Json, live: &Vec<Json>) -> (r: Result<UserAction, UserError>)
    ensures
        match r {
            Ok(a) => plan_spec(wire@, elems_view(live@)) == Ok::<UserActionV, UserErrorV>(a@),
            Err(e) => plan_spec(wire@, elems_view(live@)) == Err::<UserActionV, UserErrorV>(
                error_view(e),
            ),
        },
{
    proof {
        reveal_strlit("");
        assert(""@ =~= Seq::<char>::empty());
    }
    let username: &str = match wire.get("username") {
        Some(x) => match x.as_str() {
            Some(s) => s,
            None => {
                return Err(UserError::MissingUsername);
            },
        },
        None => {
            return Err(UserError::MissingUsername);
        },
    };
    let role = crate::sync::string_or(wire, "role", "");
    match first_index_with_str(live, "username", username) {
        None => match non_empty_str(wire, "password") {
            Some(p) => {
                let body = Json::empty_object().set_key(
                    "username".to_owned(),
                    Json::from_str(username),
                ).set_key("password".to_owned(), Json::from_str(p)).set_key(
                    "role".to_owned(),
                    Json::from_str(role.as_str()),
                );
                assert(body@->Object_0 =~= create_body_spec(username@, p@, role@)->Object_0);
                Ok(UserAction::Create { username: username.to_owned(), body })
            },
            None => Err(UserError::MissingPassword(username.to_owned())),
        },
        Some(k) => {
            let u = &live[k];
            let id = match u.get("id") {
                Some(x) => x.as_i64(),
                None => None,
            };
            let live_role = crate::sync::string_or(u, "role", "");
            let role_body = if str_equal(live_role.as_str(), role.as_str()) {
                None
            } else {
                Some(single_json("role", role.as_str()))
            };
            let reset_body = match non_empty_str(wire, "resetPassword") {
                Some(p) => Some(single_json("password", p)),
                None => None,
            };
            Ok(UserAction::Existing { username: username.to_owned(), role, id, role_body, reset_body })
        },
    }
}

/// `/api/v1/auth/users/{id}` followed by `suffix` (`""`, `"/role"` or
/// `"/reset-password"`).
pub fn user_path(id: i64, suffix: &str) -> (r: String)
    ensures
        r@ == "/api/v1/auth/users/"@ + signed_decimal(id as int) + suffix@,
{
    let mut r = "/api/v1/auth/users/".to_owned();
    let digits = decimal_i64(id);
    r.append(digits.as_str());
    r.append(suffix);
    r
}

/// What a reconcile reports of one account: the kind of change, the
/// username, and for an update the declared role.
pub struct UserReport {
    pub kind: ChangeKind,
    pub username: String,
    pub role: Option<String>,
}

/// The view of a [`UserReport`].
pub struct UserReportV {
    pub kind: ChangeKind,
    pub username: Seq<char>,
    pub role: Option<Seq<char>>,
}

impl View for UserReport {
    type V = UserReportV;

    open spec fn view(&self) -> UserReportV {
        UserReportV { kind: self.kind, username: self.username@, role: match self.role {
            Some(r) => Some(r@),
            None => None,
        } }
    }
}

/// The outcome of reconciling the declared users: the changes reported, in
/// order; the write requests to send, in order (none in a plan run); and the
/// error that stopped the run, if one did.  The requests are those made
/// before the error.
pub struct UserRun {
    pub reports: Vec<UserReport>,
    pub requests: Vec<Request>,
    pub error: Option<UserError>,
}

/// The view of a [`UserRun`].
pub struct UserRunV {
    pub reports: Seq<UserReportV>,
    pub requests: Seq<RequestV>,
    pub error: Option<UserErrorV>,
}

impl View for UserRun {
    type V = UserRunV;

    open spec fn view(&self) -> UserRunV {
        UserRunV {
            reports: self.reports@.map_values(|r: UserReport| r@),
            requests: requests_view(self.requests@),
            error: match self.error {
                Some(e) => Some(error_view(e)),
                None => None,
            },
        }
    }
}

/// The path `/api/v1/auth/users/{id}` followed by `suffix`.
pub open spec fn user_path_spec(id: i64, suffix: Seq<char>) -> Seq<char> {
    "/api/v1/auth/users/"@ + signed_decimal(id as int) + suffix
}

/// A `PUT` of `body` to `path`, when there is a body.
pub open spec fn put_if(path: Seq<char>, body: Option<JsonV>) -> Seq<RequestV> {
    match body {
        Some(b) => seq![RequestV { method: Method::Put, path, body: Some(b) }],
        None => Seq::empty(),
    }
}

/// The run so far with a report added and, in an apply run, requests added.
pub open spec fn record(
    s: UserRunV,
    report: UserReportV,
    execute: bool,
    requests: Seq<RequestV>,
) -> UserRunV {
    UserRunV {
        reports: s.reports.push(report),
        requests: if execute {
            s.requests + requests
        } else {
            s.requests
        },
        error: s.error,
    }
}

/// The run so far, stopped by `e`.
pub open spec fn stopped(s: UserRunV, e: UserErrorV) -> UserRunV {
    UserRunV { reports: s.reports, requests: s.requests, error: Some(e) }
}

/// One declared user's step: a create is reported and `POST`ed; an existing
/// user whose role differs, or that declares a reset, is reported updated
/// (with its declared role) and gets a role `PUT` and a reset `PUT` as
/// needed, which in an apply run need its live `id`; any other is
/// unchanged.
pub open spec fn declared_step(s: UserRunV, wire: JsonV, live: Seq<JsonV>, execute: bool) -> UserRunV {
    match plan_spec(wire, live) {
        Err(e) => stopped(s, e),
        Ok(UserActionV::Create { username, body }) => record(
            s,
            UserReportV { kind: ChangeKind::Created, username, role: None },
            execute,
            seq![RequestV { method: Method::Post, path: "/api/v1/auth/users"@, body: Some(body) }],
        ),
        Ok(UserActionV::Existing { username, role, id, role_body, reset_body }) => {
            if role_body is None && reset_body is None {
                record(
                    s,
                    UserReportV { kind: ChangeKind::Unchanged, username, role: None },
                    execute,
                    Seq::empty(),
                )
            } else if execute && id is None {
                stopped(s, UserErrorV::MissingId)
            } else {
                record(
                    s,
                    UserReportV { kind: ChangeKind::Updated, username, role: Some(role) },
                    execute,
                    put_if(user_path_spec(id->0, "/role"@), role_body) + put_if(
                        user_path_spec(id->0, "/reset-password"@),
                        reset_body,
                    ),
                )
            }
        },
    }
}

/// The run over the declared users, in order, up to the first error.
pub open spec fn declared_run(desired: Seq<JsonV>, live: Seq<JsonV>, execute: bool) -> UserRunV
    decreases desired.len(),
{
    if desired.len() == 0 {
        UserRunV { reports: Seq::empty(), requests: Seq::empty(), error: None }
    } else {
        let prev = declared_run(desired.drop_last(), live, execute);
        if prev.error is Some {
            prev
        } else {
            declared_step(prev, desired.last(), live, execute)
        }
    }
}

/// One pruned user's step: reported deleted, and in an apply run `DELETE`d
/// by its live `id`, which it must have.
pub open spec fn prune_step(s: UserRunV, u: JsonV, execute: bool) -> UserRunV {
    let report = UserReportV { kind: ChangeKind::Deleted, username: str_or(u, "username"@, Seq::empty()), role: None };
    if !execute {
        record(s, report, false, Seq::empty())
    } else {
        match id_of(u) {
            Some(id) => record(
                s,
                report,
                true,
                seq![RequestV { method: Method::Delete, path: user_path_spec(id, ""@), body: None }],
            ),
            None => stopped(s, UserErrorV::MissingId),
        }
    }
}

/// The run continued over the users to prune, in order, up to the first
/// error.
pub open spec fn prune_run(s: UserRunV, us: Seq<JsonV>, execute: bool) -> UserRunV
    decreases us.len(),
{
    if us.len() == 0 {
        s
    } else {
        let prev = prune_run(s, us.drop_last(), execute);
        if prev.error is Some {
            prev
        } else {
            prune_step(prev, us.last(), execute)
        }
    }
}

/// The whole run: the declared users, then, under `--prune` and when no
/// error stopped the run, the live users whose username none declares.
pub open spec fn run_spec(desired: Seq<JsonV>, live: Seq<JsonV>, prune: bool, execute: bool) -> UserRunV {
    let d = declared_run(desired, live, execute);
    if prune && d.error is None {
        prune_run(d, undeclared_spec(live, "username"@, keys_of(desired, "username"@)), execute)
    } else {
        d
    }
}

fn push_report(out: &mut UserRun, kind: ChangeKind, username: String, role: Option<String>)
    ensures
        final(out)@ == (UserRunV {
            reports: old(out)@.reports.push(
                UserReportV {
                    kind,
                    username: username@,
                    role: match role {
                        Some(r) => Some(r@),
                        None => None,
                    },
                },
            ),
            requests: old(out)@.requests,
            error: old(out)@.error,
        }),
{
    let ghost before = out.reports@;
    let report = UserReport { kind, username, role };
    out.reports.push(report);
    proof {
        assert(out.reports@.map_values(|r: UserReport| r@) =~= before.map_values(|r: UserReport| r@).push(
            report@,
        ));
    }
}

fn push_request(out: &mut UserRun, method: Method, path: String, body: Option<Json>)
    ensures
        final(out)@ == (UserRunV {
            reports: old(out)@.reports,
            requests: old(out)@.requests.push(
                RequestV { method, path: path@, body: crate::json::opt_json_view(body) },
            ),
            error: old(out)@.error,
        }),
{
    let ghost before = out.requests@;
    let request = Request { method, path, body };
    out.requests.push(request);
    proof {
        assert(requests_view(out.requests@) =~= requests_view(before).push(request@));
    }
}

fn stop(out: &mut UserRun, e: UserError)
    ensures
        final(out)@ == stopped(old(out)@, error_view(e)),
{
    out.error = Some(e);
}

/// Runs one declared user's step.
fn declared_user(out: &mut UserRun, wire: &Json, live: &Vec<Json>, execute: bool)
    ensures
        final(out)@ == declared_step(old(out)@, wire@, elems_view(live@), execute),
{
    let ghost s = out@;
    match plan(wire, live) {
        Err(e) => {
            stop(out, e);
        },
        Ok(UserAction::Create { username, body }) => {
            push_report(out, ChangeKind::Created, username, None);
            if execute {
                push_request(out, Method::Post, "/api/v1/auth/users".to_owned(), Some(body));
                assert(out@.requests =~= s.requests + seq![
                    RequestV { method: Method::Post, path: "/api/v1/auth/users"@, body: Some(body@) },
                ]);
            }
        },
        Ok(UserAction::Existing { username, role, id, role_body, reset_body }) => {
            if role_body.is_none() && reset_body.is_none() {
                push_report(out, ChangeKind::Unchanged, username, None);
                assert(out@.requests =~= s.requests);
            } else if execute && id.is_none() {
                stop(out, UserError::MissingId);
            } else {
                let ghost rb = crate::json::opt_json_view(role_body);
                let ghost xb = crate::json::opt_json_view(reset_body);
                push_report(out, ChangeKind::Updated, username, Some(role));
                if execute {
                    let n: i64 = match id {
                        Some(n) => n,
                        None => 0,
                    };
                    let ghost mid = out@.requests;
                    match role_body {
                        Some(b) => {
                            push_request(out, Method::Put, user_path(n, "/role"), Some(b));
                        },
                        None => {},
                    }
                    assert(out@.requests =~= mid + put_if(user_path_spec(n, "/role"@), rb));
                    let ghost mid2 = out@.requests;
                    match reset_body {
                        Some(b) => {
                            push_request(out, Method::Put, user_path(n, "/reset-password"), Some(b));
                        },
                        None => {},
                    }
                    assert(out@.requests =~= mid2 + put_if(user_path_spec(n, "/reset-password"@), xb));
                    assert(out@.requests =~= s.requests + (put_if(user_path_spec(n, "/role"@), rb)
                        + put_if(user_path_spec(n, "/reset-password"@), xb)));
                }
            }
        },
    }
}

/// Runs one pruned user's step.
fn pruned_user(out: &mut UserRun, u: &Json, execute: bool)
    ensures
        final(out)@ == prune_step(old(out)@, u@, execute),
{
    let ghost s = out@;
    let name = crate::sync::string_or(u, "username", "");
    proof {
        reveal_strlit("");
        assert(""@ =~= Seq::<char>::empty());
    }
    if !execute {
        push_report(out, ChangeKind::Deleted, name, None);
    } else {
        let id = match u.get("id") {
            Some(x) => x.as_i64(),
            None => None,
        };
        match id {
            Some(n) => {
                push_report(out, ChangeKind::Deleted, name, None);
                push_request(out, Method::Delete, user_path(n, ""), None);
                assert(out@.requests =~= s.requests + seq![
                    RequestV { method: Method::Delete, path: user_path_spec(n, ""@), body: None },
                ]);
            },
            None => {
                stop(out, UserError::MissingId);
            },
        }
    }
}

/// Reconciles the declared users (their wire forms, in order) against the
/// live users: each declared user's step in turn, then under `--prune` the
/// live users that no declared username names, stopping at the first error.
/// With `execute` false it is a plan run: the same decisions, no requests.
pub fn run(desired: &Vec<Json>, live: &Vec<Json>, prune: bool, execute: bool) -> (r: UserRun)
    ensures
        r@ == run_spec(elems_view(desired@), elems_view(live@), prune, execute),
{
    let ghost dv = elems_view(desired@);
    let ghost lv = elems_view(live@);
    let mut out = UserRun { reports: Vec::new(), requests: Vec::new(), error: None };
    proof {
        assert(out@.reports =~= Seq::empty());
        assert(out@.requests =~= Seq::empty());
        assert(dv.take(0) =~= Seq::empty());
    }
    let mut i: usize = 0;
    while i < desired.len()
        invariant
            i <= desired@.len(),
            dv == elems_view(desired@),
            lv == elems_view(live@),
            out@ == declared_run(dv.take(i as int), lv, execute),
        decreases desired@.len() - i,
    {
        proof {
            assert(dv.take(i + 1).drop_last() =~= dv.take(i as int));
            assert(dv.take(i + 1).last() == desired@[i as int]@);
        }
        if out.error.is_none() {
            declared_user(&mut out, &desired[i], live, execute);
        }
        i = i + 1;
    }
    assert(dv.take(desired@.len() as int) =~= dv);
    if prune && out.error.is_none() {
        let declared = crate::sync::keys_at(desired, "username");
        let us = crate::sync::undeclared(live, "username", &declared);
        let ghost uv = elems_view(us@);
        let ghost d = out@;
        assert(uv.take(0) =~= Seq::empty());
        let mut j: usize = 0;
        while j < us.len()
            invariant
                j <= us@.len(),
                uv == elems_view(us@),
                out@ == prune_run(d, uv.take(j as int), execute),
            decreases us@.len() - j,
        {
            proof {
                assert(uv.take(j + 1).drop_last() =~= uv.take(j as int));
                assert(uv.take(j + 1).last() == us@[j as int]@);
            }
            if out.error.is_none() {
                pruned_user(&mut out, &us[j], execute);
            }
            j = j + 1;
        }
        assert(uv.take(us@.len() as int) =~= uv);
    }
    out
}

/// The live entry a username finds is one of the live entries.
proof fn lemma_found_user_is_live(live: Seq<JsonV>, username: Seq<char>)
    requires
        forall|i: int| 0 <= i < live.len() ==> (#[trigger] id_of(live[i])) is Some,
    ensures
        first_with_str(live, "username"@, username) matches Some(u) ==> id_of(u) is Some,
{
    crate::sync::lemma_first_with_str_index(live, "username"@, username);
    crate::sync::lemma_first_index_found(live, "username"@, username);
}

/// Every user chosen for pruning is one of the live entries.
proof fn lemma_pruned_users_have_ids(live: Seq<JsonV>, declared: Seq<Seq<char>>)
    requires
        forall|i: int| 0 <= i < live.len() ==> (#[trigger] id_of(live[i])) is Some,
    ensures
        forall|i: int|
            0 <= i < undeclared_spec(live, "username"@, declared).len() ==> (#[trigger] id_of(
                undeclared_spec(live, "username"@, declared)[i],
            )) is Some,
    decreases live.len(),
{
    if live.len() > 0 {
        let init = live.drop_last();
        assert forall|i: int| 0 <= i < init.len() implies (#[trigger] id_of(init[i])) is Some by {
            assert(init[i] == live[i]);
        }
        lemma_pruned_users_have_ids(init, declared);
        assert(id_of(live[live.len() - 1]) is Some);
    }
}

proof fn lemma_declared_run_alike(desired: Seq<JsonV>, live: Seq<JsonV>)
    requires
        forall|i: int| 0 <= i < live.len() ==> (#[trigger] id_of(live[i])) is Some,
    ensures
        declared_run(desired, live, false).reports == declared_run(desired, live, true).reports,
        declared_run(desired, live, false).error == declared_run(desired, live, true).error,
        declared_run(desired, live, false).requests.len() == 0,
    decreases desired.len(),
{
    if desired.len() > 0 {
        lemma_declared_run_alike(desired.drop_last(), live);
        if let Some(username) = desired.last().str_at("username"@) {
            lemma_found_user_is_live(live, username);
        }
    }
}

proof fn lemma_prune_run_alike(a: UserRunV, b: UserRunV, us: Seq<JsonV>)
    requires
        forall|i: int| 0 <= i < us.len() ==> (#[trigger] id_of(us[i])) is Some,
        a.reports == b.reports,
        a.error == b.error,
        a.requests.len() == 0,
    ensures
        prune_run(a, us, false).reports == prune_run(b, us, true).reports,
        prune_run(a, us, false).error == prune_run(b, us, true).error,
        prune_run(a, us, false).requests.len() == 0,
    decreases us.len(),
{
    if us.len() > 0 {
        let init = us.drop_last();
        assert forall|i: int| 0 <= i < init.len() implies (#[trigger] id_of(init[i])) is Some by {
            assert(init[i] == us[i]);
        }
        lemma_prune_run_alike(a, b, init);
        assert(id_of(us[us.len() - 1]) is Some);
    }
}

/// A plan run decides as an apply run does: when every live user carries an
/// integer `id`, both report the same changes in the same order and stop on
/// the same error (or on none), and a plan run makes no write request.
pub proof fn law_plan_run_matches_apply_run(desired: Seq<JsonV>, live: Seq<JsonV>, prune: bool)
    requires
        forall|i: int| 0 <= i < live.len() ==> (#[trigger] id_of(live[i])) is Some,
    ensures
        run_spec(desired, live, prune, false).reports == run_spec(desired, live, prune, true).reports,
        run_spec(desired, live, prune, false).error == run_spec(desired, live, prune, true).error,
        run_spec(desired, live, prune, false).requests.len() == 0,
{
    lemma_declared_run_alike(desired, live);
    let declared = keys_of(desired, "username"@);
    lemma_pruned_users_have_ids(live, declared);
    lemma_prune_run_alike(
        declared_run(desired, live, false),
        declared_run(desired, live, true),
        undeclared_spec(live, "username"@, declared),
    );
}

/// A user that exists live with the declared role and no declared reset is
/// left alone.
pub proof fn law_matching_user_is_unchanged(wire: JsonV, live: Seq<JsonV>, u: JsonV)
    requires
        wire.str_at("username"@) is Some,
        first_with_str(live, "username"@, wire.str_at("username"@)->0) == Some(u),
        str_or(u, "role"@, Seq::empty()) == str_or(wire, "role"@, Seq::empty()),
        non_empty_at(wire, "resetPassword"@) is None,
    ensures
        plan_spec(wire, live) matches Ok(UserActionV::Existing { role_body, reset_body, .. })
            && role_body is None && reset_body is None,
{
}

/// A user that does not exist live is created only with a non-empty password,
/// and the create body carries exactly that password.
pub proof fn law_create_needs_a_password(wire: JsonV, live: Seq<JsonV>)
    requires
        wire.str_at("username"@) is Some,
        first_with_str(live, "username"@, wire.str_at("username"@)->0) is None,
    ensures
        plan_spec(wire, live) is Ok <==> non_empty_at(wire, "password"@) is Some,
        plan_spec(wire, live) matches Ok(UserActionV::Create { body, .. }) ==> body.get(
            "password"@,
        ) == Some(JsonV::String(non_empty_at(wire, "password"@)->0)),
{
    reveal_strlit("password");
    reveal_strlit("role");
    reveal_strlit("username");
    assert("password"@ != "role"@) by {
        assert("password"@.len() != "role"@.len());
    }
    if let Some(username) = wire.str_at("username"@) {
        if let Some(p) = non_empty_at(wire, "password"@) {
            let role = str_or(wire, "role"@, Seq::empty());
            let es = create_body_spec(username, p, role)->Object_0;
            let d = seq![("username"@, JsonV::String(username)), ("password"@, JsonV::String(p))];
            assert(es.drop_last() =~= d);
            assert(es.last().0 == "role"@);
            assert(obj_get(d, "password"@) == Some(JsonV::String(p)));
            assert(obj_get(es, "password"@) == Some(JsonV::String(p)));
        }
    }
}

/// A local account as the config declares it.
pub struct User {
    /// Login name, the account's identity.
    pub username: String,
    pub role: UserRole,
    /// Create-only password.
    pub password: Option<String>,
    /// One-shot password reset, applied on every apply it stays declared.
    pub reset_password: Option<String>,
}

/// The wire entries of an account.
pub open spec fn user_entries(u: User) -> Seq<(Seq<char>, JsonV)> {
    opt_push(
        opt_push(
            seq![("username"@, JsonV::String(u.username@)), ("role"@, JsonV::String(role_wire(u.role)))],
            "password"@,
            opt_str_v(u.password),
        ),
        "resetPassword"@,
        opt_str_v(u.reset_password),
    )
}

impl User {
    /// The wire form of the account.
    pub fn to_wire(&self) -> (r: Json)
        ensures
            r@ == JsonV::Object(user_entries(*self)),
    {
        let mut es: Vec<(String, Json)> = Vec::new();
        proof {
            assert(crate::json::entries_view(es@) =~= Seq::empty());
        }
        wire::push(&mut es, "username", wire::str_json(&self.username));
        wire::push(&mut es, "role", Json::from_str(self.role.as_wire()));
        proof {
            assert(crate::json::entries_view(es@) =~= seq![
                ("username"@, JsonV::String(self.username@)),
                ("role"@, JsonV::String(role_wire(self.role))),
            ]);
        }
        wire::push_opt(&mut es, "password", wire::opt_str_json(&self.password));
        wire::push_opt(&mut es, "resetPassword", wire::opt_str_json(&self.reset_password));
        wire::object(es)
    }
}

} // verus!
