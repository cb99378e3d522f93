//! `/api/users` — local accounts.
//!
//! The list read is an envelope (`{users: [...]}`).  `password` is create-only:
//! it is sent on create, stripped on update and never compared, because the
//! server never reads it back.  `resetPassword` is the one-shot action: its
//! presence always counts as drift, and the update body promotes it into the
//! `password` key the server reads.  `permissions` is a nested object compared
//! key by key, so an undeclared permission never forces an update.
use crate::json::{
    elems_view, entries_view, entry_is_last, is_last, json_eq, obj_get, str_equal, without_key,
    Json, JsonV,
};
use crate::sync::{self, list_at_spec, named_refs_spec, refs_view, str_or_empty, RefId};
use crate::wire::{self, opt_bool_v, opt_i64_v, opt_push, opt_str_v, strs_v};
use vstd::prelude::*;

verus! {

/// Whether the declared value `want` matches the live value `have`: for two
/// objects, every declared key but `password` is present live and matches
/// (nested objects recursively, anything else by equality); otherwise the two
/// are equal.
pub open spec fn fields_match_spec(want: JsonV, have: JsonV) -> bool
    decreases want,
{
    match (want, have) {
        (JsonV::Object(w), JsonV::Object(h)) => forall|i: int|
            0 <= i < w.len() && is_last(w, i) && w[i].0 != "password"@ ==> match #[trigger] obj_get(
                h,
                w[i].0,
            ) {
                Some(hv) => if w[i].1 is Object && hv is Object {
                    fields_match_spec(w[i].1, hv)
                } else {
                    json_eq(w[i].1, hv)
                },
                None => false,
            },
        _ => json_eq(want, have),
    }
}

/// A reset is requested: `resetPassword` is declared and not `null`.
pub open spec fn reset_requested(wire: JsonV) -> bool {
    wire.get("resetPassword"@) matches Some(p) && !(p is Null)
}

/// Whether the declared user already matches the live one: never while a reset
/// is requested, else when the declared fields match.
pub open spec fn in_sync_spec(wire: JsonV, live: JsonV) -> bool {
    !reset_requested(wire) && fields_match_spec(wire, live)
}

/// The create body: the declared user without `resetPassword` and `lastSeen`.
pub open spec fn create_body_spec(wire: JsonV) -> JsonV {
    match wire {
        JsonV::Object(es) => JsonV::Object(
            without_key(without_key(es, "resetPassword"@), "lastSeen"@),
        ),
        other => other,
    }
}

/// The update body: the declared user without `password` and `resetPassword`,
/// plus `password` set to the declared `resetPassword` when a reset is
/// requested.
pub open spec fn update_body_spec(wire: JsonV) -> JsonV {
    match wire {
        JsonV::Object(es) => {
            let base = without_key(without_key(es, "password"@), "resetPassword"@);
            match obj_get(es, "resetPassword"@) {
                Some(p) => if p is Null {
                    JsonV::Object(base)
                } else {
                    JsonV::Object(base.push(("password"@, p)))
                },
                None => JsonV::Object(base),
            }
        },
        other => other,
    }
}

/// Whether every key `want` declares (but `password`) matches `have`.
pub fn fields_match(want: &Json, have: &Json) -> (r: bool)
    ensures
        r == fields_match_spec(want@, have@),
    decreases want,
{
    let (w, h) = match (want, have.as_object()) {
        (Json::Object(w), Some(h)) => (w, h),
        _ => {
            return want.equals(have);
        },
    };
    proof {
        crate::json::lemma_object_view(*w);
    }
    let ghost wv = entries_view(w@);
    let ghost hv = entries_view(h@);
    let mut i: usize = 0;
    while i < w.len()
        invariant
            i <= w@.len(),
            *want == Json::Object(*w),
            wv == entries_view(w@),
            hv == entries_view(h@),
            want@ == JsonV::Object(wv),
            have@ == JsonV::Object(hv),
            forall|m: int|
                0 <= m < i && is_last(wv, m) && wv[m].0 != "password"@ ==> match #[trigger] obj_get(
                    hv,
                    wv[m].0,
                ) {
                    Some(x) => if wv[m].1 is Object && x is Object {
                        fields_match_spec(wv[m].1, x)
                    } else {
                        json_eq(wv[m].1, x)
                    },
                    None => false,
                },
        decreases w@.len() - i,
    {
        if entry_is_last(w, i) && !str_equal(w[i].0.as_str(), "password") {
            proof {
                vstd::std_specs::vec::axiom_vec_index_decreases(*w, i as int);
                assert(decreases_to!(*want => want->Object_0));
                assert(decreases_to!(*want => w@[i as int]));
                assert(decreases_to!(*want => w@[i as int].1));
            }
            let ok = match have.get(w[i].0.as_str()) {
                Some(x) => if w[i].1.is_object() && x.is_object() {
                    fields_match(&w[i].1, x)
                } else {
                    w[i].1.equals(x)
                },
                None => false,
            };
            if !ok {
                assert(!match obj_get(hv, wv[i as int].0) {
                    Some(x) => if wv[i as int].1 is Object && x is Object {
                        fields_match_spec(wv[i as int].1, x)
                    } else {
                        json_eq(wv[i as int].1, x)
                    },
                    None => false,
                });
                return false;
            }
        }
        i = i + 1;
    }
    true
}

/// Whether the declared user `wire` already matches the live user `live`.
pub fn in_sync(wire: &Json, live: &Json) -> (r: bool)
    ensures
        r == in_sync_spec(wire@, live@),
{
    let reset = match wire.get("resetPassword") {
        Some(p) => !p.is_null(),
        None => false,
    };
    if reset {
        return false;
    }
    fields_match(wire, live)
}

/// The `POST /api/users` body.
pub fn create_body(wire: Json) -> (r: Json)
    ensures
        r@ == create_body_spec(wire@),
{
    wire.remove_key("resetPassword").remove_key("lastSeen")
}

/// The `PATCH /api/users/{id}` body.
pub fn update_body(wire: Json) -> (r: Json)
    ensures
        r@ == update_body_spec(wire@),
{
    let reset = match wire.get("resetPassword") {
        Some(p) => if p.is_null() {
            None
        } else {
            Some(p.deep_clone())
        },
        None => None,
    };
    let base = wire.remove_key("password").remove_key("resetPassword");
    match reset {
        Some(p) => base.set_key("password".to_owned(), p),
        None => base,
    }
}

/// The live users out of the `GET /api/users` envelope.
pub fn live_users(envelope: &Json) -> (r: Vec<Json>)
    ensures
        elems_view(r@) == list_at_spec(envelope@, "users"@),
{
    sync::list_at(envelope, "users")
}

/// The `(username, id)` pairs to register as `${ref.user.<username>}`.
pub fn user_refs(entries: &Vec<Json>) -> (r: Vec<(String, RefId)>)
    ensures
        refs_view(r@) == named_refs_spec(elems_view(entries@), "username"@),
{
    sync::named_refs(entries, "username")
}

/// The created user inside a create response (`{user: {...}}`), if any.
pub fn created_user(resp: &Json) -> (r: Option<Json>)
    ensures
        match r {
            Some(u) => resp@.get("user"@) == Some(u@),
            None => resp@.get("user"@) is None,
        },
{
    match resp.get("user") {
        Some(u) => Some(u.deep_clone()),
        None => None,
    }
}

/// The URL path of a live user: `/api/users/{id}`.
pub fn item_path(live: &Json) -> (r: String)
    ensures
        r@ == "/api/users/"@ + str_or_empty(live@, "id"@),
{
    sync::path_with_id("/api/users/", live)
}

/// Every declared value matches itself.
pub proof fn lemma_fields_match_refl(v: JsonV)
    ensures
        fields_match_spec(v, v),
    decreases v,
{
    match v {
        JsonV::Object(w) => {
            assert forall|i: int|
                0 <= i < w.len() && is_last(w, i) && w[i].0 != "password"@ implies match #[trigger] obj_get(
                w,
                w[i].0,
            ) {
                Some(hv) => if w[i].1 is Object && hv is Object {
                    fields_match_spec(w[i].1, hv)
                } else {
                    json_eq(w[i].1, hv)
                },
                None => false,
            } by {
                crate::json::lemma_obj_get_last(w, i);
                lemma_fields_match_refl(w[i].1);
                crate::json::lemma_json_eq_refl(w[i].1);
            }
        },
        _ => {
            crate::json::lemma_json_eq_refl(v);
        },
    }
}

/// A user is in sync with a live copy of itself exactly when no reset is
/// requested: a declared `password` alone never reads as drift.
pub proof fn law_in_sync_with_itself(v: JsonV)
    ensures
        in_sync_spec(v, v) == !reset_requested(v),
{
    lemma_fields_match_refl(v);
}

/// The update body never carries the create-only password: its `password` is
/// the requested reset, or absent.
pub proof fn law_update_sends_only_the_reset(v: JsonV)
    requires
        v is Object,
    ensures
        update_body_spec(v).get("password"@) == if reset_requested(v) {
            v.get("resetPassword"@)
        } else {
            None
        },
        update_body_spec(v).get("resetPassword"@) is None,
{
    let es = v->Object_0;
    let once = without_key(es, "password"@);
    crate::json::lemma_without_key_get(es, "password"@, "password"@);
    crate::json::lemma_without_key_get(once, "resetPassword"@, "password"@);
    crate::json::lemma_without_key_get(once, "resetPassword"@, "resetPassword"@);
    let base = without_key(once, "resetPassword"@);
    reveal_strlit("password");
    reveal_strlit("resetPassword");
    if let Some(p) = obj_get(es, "resetPassword"@) {
        if !(p is Null) {
            let b2 = base.push(("password"@, p));
            assert(b2.drop_last() =~= base);
            assert("password"@.len() != "resetPassword"@.len());
            assert(b2.last().0 != "resetPassword"@);
            assert(obj_get(b2, "resetPassword"@) == obj_get(base, "resetPassword"@));
        }
    }
}

/// A local account's role; `root` cannot be assigned through the API.
#[derive(PartialEq, Eq, Structural, Debug, Clone, Copy)]
pub enum UserType {
    /// Full administrative access.
    Admin,
    /// Standard access.
    User,
    /// Access scoped further by `permissions`.
    Guest,
}

/// The wire string of an account type (lowercase).
pub open spec fn user_type_wire(t: UserType) -> Seq<char> {
    match t {
        UserType::Admin => "admin"@,
        UserType::User => "user"@,
        UserType::Guest => "guest"@,
    }
}

impl UserType {
    /// The wire string of this account type.
    pub fn as_wire(&self) -> (r: &'static str)
        ensures
            r@ == user_type_wire(*self),
    {
        match self {
            UserType::Admin => "admin",
            UserType::User => "user",
            UserType::Guest => "guest",
        }
    }

    /// The account type a wire string names, if any.
    pub fn from_wire(s: &str) -> (r: Option<UserType>)
        ensures
            match r {
                Some(t) => user_type_wire(t) == s@,
                None => forall|t: UserType| user_type_wire(t) != s@,
            },
    {
        if str_equal(s, "admin") {
            Some(UserType::Admin)
        } else if str_equal(s, "user") {
            Some(UserType::User)
        } else if str_equal(s, "guest") {
            Some(UserType::Guest)
        } else {
            None
        }
    }
}

/// Capability flags plus library and tag scoping; an unset flag is left at
/// the server's default.
pub struct UserPermissions {
    pub download: Option<bool>,
    pub update: Option<bool>,
    pub delete: Option<bool>,
    pub upload: Option<bool>,
    pub create_ereader: Option<bool>,
    pub access_all_libraries: Option<bool>,
    pub access_all_tags: Option<bool>,
    pub access_explicit_content: Option<bool>,
    pub selected_tags_not_accessible: Option<bool>,
    /// Library ids the user may access when not all libraries are.
    pub libraries_accessible: Vec<String>,
    /// Tags selected as allow- (or deny-) list when not all tags are.
    pub item_tags_selected: Vec<String>,
}

/// The wire entries of declared permissions.
pub open spec fn permission_entries(p: UserPermissions) -> Seq<(Seq<char>, JsonV)> {
    let es = opt_push(Seq::empty(), "download"@, opt_bool_v(p.download));
    let es = opt_push(es, "update"@, opt_bool_v(p.update));
    let es = opt_push(es, "delete"@, opt_bool_v(p.delete));
    let es = opt_push(es, "upload"@, opt_bool_v(p.upload));
    let es = opt_push(es, "createEreader"@, opt_bool_v(p.create_ereader));
    let es = opt_push(es, "accessAllLibraries"@, opt_bool_v(p.access_all_libraries));
    let es = opt_push(es, "accessAllTags"@, opt_bool_v(p.access_all_tags));
    let es = opt_push(es, "accessExplicitContent"@, opt_bool_v(p.access_explicit_content));
    let es = opt_push(es, "selectedTagsNotAccessible"@, opt_bool_v(p.selected_tags_not_accessible));
    es.push(("librariesAccessible"@, strs_v(p.libraries_accessible@))).push(
        ("itemTagsSelected"@, strs_v(p.item_tags_selected@)),
    )
}

impl UserPermissions {
    /// The wire form of the declared permissions.
    pub fn to_wire(&self) -> (r: Json)
        ensures
            r@ == JsonV::Object(permission_entries(*self)),
    {
        let mut es: Vec<(String, Json)> = Vec::new();
        proof {
            assert(entries_view(es@) =~= Seq::empty());
        }
        wire::push_opt(&mut es, "download", wire::opt_bool_json(self.download));
        wire::push_opt(&mut es, "update", wire::opt_bool_json(self.update));
        wire::push_opt(&mut es, "delete", wire::opt_bool_json(self.delete));
        wire::push_opt(&mut es, "upload", wire::opt_bool_json(self.upload));
        wire::push_opt(&mut es, "createEreader", wire::opt_bool_json(self.create_ereader));
        wire::push_opt(&mut es, "accessAllLibraries", wire::opt_bool_json(self.access_all_libraries));
        wire::push_opt(&mut es, "accessAllTags", wire::opt_bool_json(self.access_all_tags));
        wire::push_opt(
            &mut es,
            "accessExplicitContent",
            wire::opt_bool_json(self.access_explicit_content),
        );
        wire::push_opt(
            &mut es,
            "selectedTagsNotAccessible",
            wire::opt_bool_json(self.selected_tags_not_accessible),
        );
        wire::push(&mut es, "librariesAccessible", wire::strs_json(&self.libraries_accessible));
        wire::push(&mut es, "itemTagsSelected", wire::strs_json(&self.item_tags_selected));
        wire::object(es)
    }
}

/// The step for each declared user against the live users, matched by
/// `username`.
pub fn plan(desired: &Vec<Json>, live: &Vec<Json>) -> (r: Vec<crate::sync::KeyedStep>)
    ensures
        r@.len() == desired@.len(),
        forall|i: int|
            0 <= i < desired@.len() ==> crate::sync::step_view(#[trigger] r@[i])
                == crate::sync::keyed_step_spec(
                desired@[i]@,
                elems_view(live@),
                "username"@,
                |a: JsonV, b: JsonV| in_sync_spec(a, b),
            ),
{
    let mut out: Vec<crate::sync::KeyedStep> = Vec::new();
    let mut i: usize = 0;
    while i < desired.len()
        invariant
            i <= desired@.len(),
            out@.len() == i,
            forall|m: int|
                0 <= m < i ==> crate::sync::step_view(#[trigger] out@[m])
                    == crate::sync::keyed_step_spec(
                    desired@[m]@,
                    elems_view(live@),
                    "username"@,
                    |a: JsonV, b: JsonV| in_sync_spec(a, b),
                ),
        decreases desired@.len() - i,
    {
        let step = match crate::sync::match_live(&desired[i], live, "username") {
            Some(j) => {
                assert(elems_view(live@)[j as int] == live@[j as int]@);
                if in_sync(&desired[i], &live[j]) {
                    crate::sync::KeyedStep::Unchanged(j)
                } else {
                    crate::sync::KeyedStep::Update(j)
                }
            },
            None => crate::sync::KeyedStep::Create,
        };
        out.push(step);
        i = i + 1;
    }
    out
}

/// Convergence of an update: once the update body has been applied on top of
/// the live user, the declared user is in sync with it.  A declared
/// `resetPassword` is left out: a requested reset fires on every apply by
/// design, and a declared `null` one is never sent, so it never reads back.
pub proof fn law_applied_update_is_in_sync(wire: JsonV, live: JsonV)
    requires
        wire matches JsonV::Object(es) && !crate::json::has_key(es, "resetPassword"@),
        live is Object,
    ensures
        in_sync_spec(wire, sync::after_write(live, update_body_spec(wire)->Object_0)),
{
    let es = wire->Object_0;
    let ls = live->Object_0;
    let once = without_key(es, "password"@);
    let base = without_key(once, "resetPassword"@);
    crate::json::lemma_obj_get_cases(es, "resetPassword"@);
    assert(update_body_spec(wire) == JsonV::Object(base));
    let have = ls + base;
    assert forall|i: int|
        0 <= i < es.len() && is_last(es, i) && es[i].0 != "password"@ implies match #[trigger] obj_get(
        have,
        es[i].0,
    ) {
        Some(hv) => if es[i].1 is Object && hv is Object {
            fields_match_spec(es[i].1, hv)
        } else {
            json_eq(es[i].1, hv)
        },
        None => false,
    } by {
        let k = es[i].0;
        assert(k != "resetPassword"@) by {
            assert(es[i].0 == k);
        }
        crate::json::lemma_obj_get_last(es, i);
        crate::json::lemma_without_key_get(es, "password"@, k);
        crate::json::lemma_without_key_get(once, "resetPassword"@, k);
        crate::json::lemma_obj_get_cases(base, k);
        crate::json::lemma_obj_get_append(ls, base, k);
        lemma_fields_match_refl(es[i].1);
        crate::json::lemma_json_eq_refl(es[i].1);
    }
    reveal_strlit("resetPassword");
    assert(!reset_requested(wire));
}

/// An account as the config declares it.
pub struct User {
    /// Server id; never sent.
    pub id: Option<String>,
    /// Login name, the account's identity.
    pub username: String,
    pub email: Option<String>,
    /// The account type, sent as `type`.
    pub user_type: Option<UserType>,
    /// Create-only initial password.
    pub password: Option<String>,
    /// One-shot password reset, written on every apply it stays declared.
    pub reset_password: Option<String>,
    pub is_active: Option<bool>,
    /// Read-only lockout flag; never sent.
    pub is_locked: Option<bool>,
    /// Epoch milliseconds of last activity.
    pub last_seen: Option<i64>,
    pub permissions: Option<UserPermissions>,
}

/// The wire entries of an account.
pub open spec fn user_entries(u: User) -> Seq<(Seq<char>, JsonV)> {
    let es = opt_push(seq![("username"@, JsonV::String(u.username@))], "email"@, opt_str_v(u.email));
    let es = opt_push(
        es,
        "type"@,
        match u.user_type {
            Some(t) => Some(JsonV::String(user_type_wire(t))),
            None => None,
        },
    );
    let es = opt_push(es, "password"@, opt_str_v(u.password));
    let es = opt_push(es, "resetPassword"@, opt_str_v(u.reset_password));
    let es = opt_push(es, "isActive"@, opt_bool_v(u.is_active));
    let es = opt_push(es, "lastSeen"@, opt_i64_v(u.last_seen));
    opt_push(
        es,
        "permissions"@,
        match u.permissions {
            Some(p) => Some(JsonV::Object(permission_entries(p))),
            None => None,
        },
    )
}

impl User {
    /// The wire form of the account (id and lockout flag are never sent).
    pub fn to_wire(&self) -> (r: Json)
        ensures
            r@ == JsonV::Object(user_entries(*self)),
    {
        let mut es: Vec<(String, Json)> = Vec::new();
        proof {
            assert(entries_view(es@) =~= Seq::empty());
        }
        wire::push(&mut es, "username", wire::str_json(&self.username));
        proof {
            assert(entries_view(es@) =~= seq![("username"@, JsonV::String(self.username@))]);
        }
        wire::push_opt(&mut es, "email", wire::opt_str_json(&self.email));
        let t = match &self.user_type {
            Some(t) => Some(Json::from_str(t.as_wire())),
            None => None,
        };
        wire::push_opt(&mut es, "type", t);
        wire::push_opt(&mut es, "password", wire::opt_str_json(&self.password));
        wire::push_opt(&mut es, "resetPassword", wire::opt_str_json(&self.reset_password));
        wire::push_opt(&mut es, "isActive", wire::opt_bool_json(self.is_active));
        wire::push_opt(&mut es, "lastSeen", wire::opt_i64_json(self.last_seen));
        let p = match &self.permissions {
            Some(p) => Some(p.to_wire()),
            None => None,
        };
        wire::push_opt(&mut es, "permissions", p);
        wire::object(es)
    }
}

} // verus!
