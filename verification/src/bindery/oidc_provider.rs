//! `/api/v1/auth/oidc/providers` — OIDC identity providers, managed as a
//! whole set.
//!
//! The read strips `client_secret`; the write takes the whole array and merges
//! secrets server-side: an empty `client_secret` for an id that already exists
//! keeps the stored secret, while a new id needs its declared one.  So each
//! declared provider's `client_secret` is set per id: empty when the id is
//! live, else the declared secret (empty when none is declared).  Providers
//! are compared by `(id, name, issuer, client_id, sorted scopes, sorted
//! allowed_groups)`, which leaves out the runtime `status` and the secret.
use crate::json::{Json, JsonV};
use crate::json::elems_view;
use crate::sync::{keys_of, str_or, strings_at_spec};
use crate::text::{sorted, sorted_strings, strings_view};
use crate::wire::{self, opt_push, opt_str_v, strs_v};
use vstd::prelude::*;

verus! {

/// The string at `key`, or the empty string.
pub fn str_field(v: &Json, key: &str) -> (r: String)
    ensures
        r@ == str_or(v@, key@, Seq::empty()),
{
    proof {
        reveal_strlit("");
        assert(""@ =~= Seq::<char>::empty());
    }
    crate::sync::string_or(v, key, "")
}

/// The string elements of the array at `key`, in ascending order.
pub fn sorted_str_array(v: &Json, key: &str) -> (r: Vec<String>)
    ensures
        strings_view(r@) == sorted_strings(strings_at_spec(v@, key@)),
{
    sorted(crate::sync::strings_at(v, key))
}

/// A provider's identity for the comparison.
pub open spec fn identity_spec(v: JsonV) -> (
    Seq<char>,
    Seq<char>,
    Seq<char>,
    Seq<char>,
    Seq<Seq<char>>,
    Seq<Seq<char>>,
) {
    (
        str_or(v, "id"@, Seq::empty()),
        str_or(v, "name"@, Seq::empty()),
        str_or(v, "issuer"@, Seq::empty()),
        str_or(v, "client_id"@, Seq::empty()),
        sorted_strings(strings_at_spec(v, "scopes"@)),
        sorted_strings(strings_at_spec(v, "allowed_groups"@)),
    )
}

/// The identity of a declared or live provider.
pub fn provider_identity(v: &Json) -> (r: (String, String, String, String, Vec<String>, Vec<String>))
    ensures
        (r.0@, r.1@, r.2@, r.3@, strings_view(r.4@), strings_view(r.5@)) == identity_spec(v@),
{
    (
        str_field(v, "id"),
        str_field(v, "name"),
        str_field(v, "issuer"),
        str_field(v, "client_id"),
        sorted_str_array(v, "scopes"),
        sorted_str_array(v, "allowed_groups"),
    )
}

/// The ids of the live providers.
pub fn live_ids(live: &Vec<Json>) -> (r: Vec<String>)
    ensures
        strings_view(r@) == keys_of(elems_view(live@), "id"@),
{
    crate::sync::keys_at(live, "id")
}

/// The secret a declared provider is sent with: empty for an id that is live
/// (the stored secret is kept), else the declared secret, empty when none.
pub open spec fn secret_spec(w: JsonV, live_ids: Seq<Seq<char>>) -> JsonV {
    if live_ids.contains(str_or(w, "id"@, Seq::empty())) {
        JsonV::String(Seq::empty())
    } else {
        match w.get("client_secret"@) {
            Some(s) => s,
            None => JsonV::String(Seq::empty()),
        }
    }
}

/// A declared provider with its `client_secret` set for the write.
pub open spec fn with_secret_spec(w: JsonV, live_ids: Seq<Seq<char>>) -> JsonV {
    match w {
        JsonV::Object(es) => JsonV::Object(es.push(("client_secret"@, secret_spec(w, live_ids)))),
        other => other,
    }
}

/// Sets `client_secret` on a declared provider per the server's merge rule.
pub fn with_secret(w: Json, live_ids: &Vec<String>) -> (r: Json)
    ensures
        r@ == with_secret_spec(w@, strings_view(live_ids@)),
{
    if !w.is_object() {
        return w;
    }
    let id = str_field(&w, "id");
    let secret = if crate::sync::contains_string(live_ids, id.as_str()) {
        Json::String(String::new())
    } else {
        match w.get("client_secret") {
            Some(s) => s.deep_clone(),
            None => Json::String(String::new()),
        }
    };
    w.set_key("client_secret".to_owned(), secret)
}

/// The write body: the declared providers, each with its secret set.
pub fn put_body(wire: Vec<Json>, live_ids: &Vec<String>) -> (r: Json)
    ensures
        r@ == JsonV::Array(
            Seq::new(
                wire@.len(),
                |i: int| with_secret_spec(wire@[i]@, strings_view(live_ids@)),
            ),
        ),
{
    let ghost orig = wire@;
    let mut wire = wire;
    let mut out: Vec<Json> = Vec::new();
    let mut i: usize = 0;
    while i < wire.len()
        invariant
            i <= wire@.len(),
            wire@.len() == orig.len(),
            forall|j: int| i <= j < orig.len() ==> #[trigger] wire@[j] == orig[j],
            out@.len() == i,
            forall|j: int|
                0 <= j < i ==> (#[trigger] out@[j])@ == with_secret_spec(
                    orig[j]@,
                    strings_view(live_ids@),
                ),
        decreases orig.len() - i,
    {
        let mut w = Json::Null;
        core::mem::swap(&mut w, &mut wire[i]);
        out.push(with_secret(w, live_ids));
        i = i + 1;
    }
    proof {
        crate::json::lemma_array_view(out);
    }
    let r = Json::Array(out);
    assert(r@->Array_0 =~= Seq::new(
        orig.len(),
        |i: int| with_secret_spec(orig[i]@, strings_view(live_ids@)),
    ));
    r
}

/// A provider's identity never depends on the secret it is sent with.
pub proof fn law_identity_ignores_secret(w: JsonV, live_ids: Seq<Seq<char>>)
    requires
        w is Object,
    ensures
        identity_spec(with_secret_spec(w, live_ids)) == identity_spec(w),
{
    let es = w->Object_0;
    let es2 = es.push(("client_secret"@, secret_spec(w, live_ids)));
    assert(es2.drop_last() =~= es);
    reveal_strlit("client_secret");
    reveal_strlit("id");
    reveal_strlit("name");
    reveal_strlit("issuer");
    reveal_strlit("client_id");
    reveal_strlit("scopes");
    reveal_strlit("allowed_groups");
    assert("client_secret"@.len() == 13);
    assert("client_secret"@ != "id"@ && "client_secret"@ != "name"@ && "client_secret"@ != "issuer"@);
    assert("client_secret"@ != "client_id"@ && "client_secret"@ != "scopes"@);
    assert("client_secret"@[0] != "allowed_groups"@[0]);
}

/// The view of a computed identity.
pub open spec fn identity_view(t: (String, String, String, String, Vec<String>, Vec<String>)) -> (Seq<char>, Seq<char>, Seq<char>, Seq<char>, Seq<Seq<char>>, Seq<Seq<char>>) {
    (t.0@, t.1@, t.2@, t.3@, strings_view(t.4@), strings_view(t.5@))
}

fn same_identity(a: &(String, String, String, String, Vec<String>, Vec<String>), b: &(String, String, String, String, Vec<String>, Vec<String>)) -> (r: bool)
    ensures
        r == (identity_view(*a) == identity_view(*b)),
{
    crate::json::str_equal(a.0.as_str(), b.0.as_str()) && crate::json::str_equal(a.1.as_str(), b.1.as_str())
        && crate::json::str_equal(a.2.as_str(), b.2.as_str()) && crate::json::str_equal(a.3.as_str(), b.3.as_str())
        && crate::sync::strings_equal(&a.4, &b.4) && crate::sync::strings_equal(&a.5, &b.5)
}

fn identities(xs: &Vec<Json>) -> (r: Vec<(String, String, String, String, Vec<String>, Vec<String>)>)
    ensures
        r@.map_values(|t: (String, String, String, String, Vec<String>, Vec<String>)| identity_view(t)) == elems_view(xs@).map_values(
            |v: JsonV| identity_spec(v),
        ),
{
    let mut out: Vec<(String, String, String, String, Vec<String>, Vec<String>)> = Vec::new();
    let mut i: usize = 0;
    while i < xs.len()
        invariant
            i <= xs@.len(),
            out@.len() == i,
            forall|j: int| 0 <= j < i ==> identity_view(#[trigger] out@[j]) == identity_spec(xs@[j]@),
        decreases xs@.len() - i,
    {
        out.push(provider_identity(&xs[i]));
        i = i + 1;
    }
    assert(out@.map_values(|t: (String, String, String, String, Vec<String>, Vec<String>)| identity_view(t)) =~= elems_view(xs@).map_values(
        |v: JsonV| identity_spec(v),
    ));
    out
}

fn covered(a: &Vec<(String, String, String, String, Vec<String>, Vec<String>)>, b: &Vec<(String, String, String, String, Vec<String>, Vec<String>)>) -> (r: bool)
    ensures
        r == forall|i: int|
            0 <= i < a@.len() ==> b@.map_values(|t: (String, String, String, String, Vec<String>, Vec<String>)| identity_view(t)).contains(
                #[trigger] identity_view(a@[i]),
            ),
{
    let ghost bv = b@.map_values(|t: (String, String, String, String, Vec<String>, Vec<String>)| identity_view(t));
    let mut i: usize = 0;
    while i < a.len()
        invariant
            i <= a@.len(),
            bv == b@.map_values(|t: (String, String, String, String, Vec<String>, Vec<String>)| identity_view(t)),
            forall|m: int| 0 <= m < i ==> bv.contains(#[trigger] identity_view(a@[m])),
        decreases a@.len() - i,
    {
        let mut found = false;
        let mut j: usize = 0;
        while j < b.len()
            invariant
                j <= b@.len(),
                i < a@.len(),
                bv == b@.map_values(|t: (String, String, String, String, Vec<String>, Vec<String>)| identity_view(t)),
                found ==> bv.contains(identity_view(a@[i as int])),
                !found ==> forall|n: int| 0 <= n < j ==> bv[n] != identity_view(a@[i as int]),
            decreases b@.len() - j,
        {
            if same_identity(&a[i], &b[j]) {
                assert(bv[j as int] == identity_view(a@[i as int]));
                found = true;
            }
            j = j + 1;
        }
        if !found {
            assert(!bv.contains(identity_view(a@[i as int])));
            return false;
        }
        i = i + 1;
    }
    true
}

/// Whether the whole list has to be written: the declared and the live providers
/// differ as sets of identities: order does not matter, and an identity that
/// occurs more than once counts once.
pub open spec fn replace_needed_spec(desired: Seq<JsonV>, live: Seq<JsonV>) -> bool {
    desired.map_values(|v: JsonV| identity_spec(v)).to_set() != live.map_values(
        |v: JsonV| identity_spec(v),
    ).to_set()
}

/// Whether the declared and live providers differ as sets of identities, so
/// that the whole declared list is written.
pub fn replace_needed(desired: &Vec<Json>, live: &Vec<Json>) -> (r: bool)
    ensures
        r == replace_needed_spec(elems_view(desired@), elems_view(live@)),
{
    let da = identities(desired);
    let la = identities(live);
    let ghost a = da@.map_values(|t: (String, String, String, String, Vec<String>, Vec<String>)| identity_view(t));
    let ghost b = la@.map_values(|t: (String, String, String, String, Vec<String>, Vec<String>)| identity_view(t));
    let there = covered(&da, &la);
    let back = covered(&la, &da);
    proof {
        if there && back {
            assert forall|i: int| 0 <= i < a.len() implies b.contains(#[trigger] a[i]) by {
                assert(b.contains(identity_view(da@[i])));
            }
            assert forall|j: int| 0 <= j < b.len() implies a.contains(#[trigger] b[j]) by {
                assert(a.contains(identity_view(la@[j])));
            }
            crate::sync::lemma_same_sets(a, b);
        } else if !there {
            let i = choose|i: int| 0 <= i < da@.len() && !b.contains(#[trigger] identity_view(da@[i]));
            assert(a[i] == identity_view(da@[i]));
            assert(a.to_set().contains(a[i]));
            assert(!b.to_set().contains(a[i]));
        } else {
            let j = choose|j: int| 0 <= j < la@.len() && !a.contains(#[trigger] identity_view(la@[j]));
            assert(b[j] == identity_view(la@[j]));
            assert(b.to_set().contains(b[j]));
            assert(!a.to_set().contains(b[j]));
        }
    }
    !(there && back)
}

/// Once the server holds exactly what was written (the declared providers with
/// their secrets set, secrets stripped again on read or not), the next
/// comparison finds nothing to write.
pub proof fn law_written_providers_converge(declared: Seq<JsonV>, live_ids: Seq<Seq<char>>)
    requires
        forall|i: int| 0 <= i < declared.len() ==> (#[trigger] declared[i]) is Object,
    ensures
        !replace_needed_spec(
            declared.map_values(|w: JsonV| with_secret_spec(w, live_ids)),
            declared,
        ),
{
    let written = declared.map_values(|w: JsonV| with_secret_spec(w, live_ids));
    assert forall|i: int| 0 <= i < declared.len() implies identity_spec(#[trigger] written[i])
        == identity_spec(declared[i]) by {
        law_identity_ignores_secret(declared[i], live_ids);
    }
    assert(written.map_values(|v: JsonV| identity_spec(v)) =~= declared.map_values(
        |v: JsonV| identity_spec(v),
    ));
}

/// An OIDC provider as the config declares it (snake_case wire keys).
pub struct OidcProvider {
    /// The provider's id, its identity.
    pub id: String,
    pub name: Option<String>,
    pub issuer: String,
    pub client_id: String,
    /// Write-only; never read back.
    pub client_secret: Option<String>,
    pub scopes: Vec<String>,
    pub allowed_groups: Vec<String>,
}

/// The wire entries of a provider.
pub open spec fn provider_entries(p: OidcProvider) -> Seq<(Seq<char>, JsonV)> {
    let es = opt_push(seq![("id"@, JsonV::String(p.id@))], "name"@, opt_str_v(p.name));
    let es = es.push(("issuer"@, JsonV::String(p.issuer@))).push(
        ("client_id"@, JsonV::String(p.client_id@)),
    );
    let es = opt_push(es, "client_secret"@, opt_str_v(p.client_secret));
    es.push(("scopes"@, strs_v(p.scopes@))).push(("allowed_groups"@, strs_v(p.allowed_groups@)))
}

impl OidcProvider {
    /// The wire form of the provider.
    pub fn to_wire(&self) -> (r: Json)
        ensures
            r@ == JsonV::Object(provider_entries(*self)),
    {
        let mut es: Vec<(String, Json)> = Vec::new();
        proof {
            assert(crate::json::entries_view(es@) =~= Seq::empty());
        }
        wire::push(&mut es, "id", wire::str_json(&self.id));
        proof {
            assert(crate::json::entries_view(es@) =~= seq![("id"@, JsonV::String(self.id@))]);
        }
        wire::push_opt(&mut es, "name", wire::opt_str_json(&self.name));
        wire::push(&mut es, "issuer", wire::str_json(&self.issuer));
        wire::push(&mut es, "client_id", wire::str_json(&self.client_id));
        wire::push_opt(&mut es, "client_secret", wire::opt_str_json(&self.client_secret));
        wire::push(&mut es, "scopes", wire::strs_json(&self.scopes));
        wire::push(&mut es, "allowed_groups", wire::strs_json(&self.allowed_groups));
        wire::object(es)
    }
}

} // verus!
