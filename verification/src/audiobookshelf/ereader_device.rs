//! `/api/emails/ereader-devices` — e-reader devices that receive EPUBs by
//! email.
//!
//! Devices have no server id: the only write posts the whole array, so the
//! declared and live sets are compared through an order-insensitive identity
//! per device — name, email, the effective availability (absent reads as the
//! server default `adminOrUp`) and the sorted users.  The live devices are read
//! from `.settings.ereaderDevices` of `GET /api/emails/settings`.
use crate::json::{elems_view, Json, JsonV};
use crate::sync::{self, nested_list_spec, str_or, strings_at_spec};
use crate::text::{sorted, sorted_strings, strings_view};
use crate::wire::{self, opt_push, strs_v};
use vstd::prelude::*;

verus! {

/// Who may send to a device.
#[derive(PartialEq, Eq, Structural, Debug, Clone, Copy)]
pub enum EreaderAvailability {
    /// Admins and the root user.
    AdminOrUp,
    /// Any logged-in non-guest user, and up.
    UserOrUp,
    /// Any logged-in user, including guests.
    GuestOrUp,
    /// Only the users listed in `users`.
    SpecificUsers,
}

/// The wire strings of the availability options.
pub open spec fn availability_wire(a: EreaderAvailability) -> Seq<char> {
    match a {
        EreaderAvailability::AdminOrUp => "adminOrUp"@,
        EreaderAvailability::UserOrUp => "userOrUp"@,
        EreaderAvailability::GuestOrUp => "guestOrUp"@,
        EreaderAvailability::SpecificUsers => "specificUsers"@,
    }
}

impl EreaderAvailability {
    /// The wire string of this option.
    pub fn as_wire(&self) -> (r: &'static str)
        ensures
            r@ == availability_wire(*self),
    {
        match self {
            EreaderAvailability::AdminOrUp => "adminOrUp",
            EreaderAvailability::UserOrUp => "userOrUp",
            EreaderAvailability::GuestOrUp => "guestOrUp",
            EreaderAvailability::SpecificUsers => "specificUsers",
        }
    }

    /// The option a wire string names, if any.
    pub fn from_wire(s: &str) -> (r: Option<EreaderAvailability>)
        ensures
            match r {
                Some(a) => availability_wire(a) == s@,
                None => forall|a: EreaderAvailability| availability_wire(a) != s@,
            },
    {
        if crate::json::str_equal(s, "adminOrUp") {
            Some(EreaderAvailability::AdminOrUp)
        } else if crate::json::str_equal(s, "userOrUp") {
            Some(EreaderAvailability::UserOrUp)
        } else if crate::json::str_equal(s, "guestOrUp") {
            Some(EreaderAvailability::GuestOrUp)
        } else if crate::json::str_equal(s, "specificUsers") {
            Some(EreaderAvailability::SpecificUsers)
        } else {
            None
        }
    }
}

/// One e-reader device.
pub struct EreaderDevice {
    /// Unique display name: the device's whole identity.
    pub name: String,
    /// Destination email address.
    pub email: String,
    /// Who may send to the device; unset means the server default `adminOrUp`.
    pub availability_option: Option<EreaderAvailability>,
    /// User ids allowed to use the device.
    pub users: Vec<String>,
}

/// A device's identity: `(name, email, availability, users)` with absent
/// strings empty, an absent availability `adminOrUp`, and the string users in
/// ascending order.
pub open spec fn identity_spec(v: JsonV) -> (Seq<char>, Seq<char>, Seq<char>, Seq<Seq<char>>) {
    (
        str_or(v, "name"@, Seq::empty()),
        str_or(v, "email"@, Seq::empty()),
        str_or(v, "availabilityOption"@, "adminOrUp"@),
        sorted_strings(strings_at_spec(v, "users"@)),
    )
}

/// The order-insensitive identity of a declared or live device.
pub fn identity(v: &Json) -> (r: (String, String, String, Vec<String>))
    ensures
        (r.0@, r.1@, r.2@, strings_view(r.3@)) == identity_spec(v@),
{
    proof {
        reveal_strlit("");
    }
    let name = sync::string_or(v, "name", "");
    let email = sync::string_or(v, "email", "");
    let availability = sync::string_or(v, "availabilityOption", "adminOrUp");
    let users = sorted(sync::strings_at(v, "users"));
    (name, email, availability, users)
}

/// The live devices: `.settings.ereaderDevices` of the email settings read.
pub fn live_devices(envelope: &Json) -> (r: Vec<Json>)
    ensures
        elems_view(r@) == nested_list_spec(envelope@, "settings"@, "ereaderDevices"@),
{
    sync::nested_list_at(envelope, "settings", "ereaderDevices")
}

/// The replace body: `{"ereaderDevices": [...declared devices]}`.
pub fn replace_body(wire: &Vec<Json>) -> (r: Json)
    ensures
        r@ == JsonV::Object(seq![("ereaderDevices"@, JsonV::Array(elems_view(wire@)))]),
{
    let devices = sync::clone_list(wire);
    proof {
        crate::json::lemma_array_view(devices);
    }
    let r = Json::empty_object().set_key("ereaderDevices".to_owned(), Json::Array(devices));
    assert(r@->Object_0 =~= seq![("ereaderDevices"@, JsonV::Array(elems_view(wire@)))]);
    r
}

/// Two devices that differ only in the order of their users, or in leaving the
/// availability out where the other states `adminOrUp`, have the same identity.
pub proof fn law_identity_ignores_user_order(a: JsonV, b: JsonV)
    requires
        a.str_at("name"@) == b.str_at("name"@),
        a.str_at("email"@) == b.str_at("email"@),
        str_or(a, "availabilityOption"@, "adminOrUp"@) == str_or(
            b,
            "availabilityOption"@,
            "adminOrUp"@,
        ),
        strings_at_spec(a, "users"@).to_multiset() == strings_at_spec(b, "users"@).to_multiset(),
    ensures
        identity_spec(a) == identity_spec(b),
{
    let sa = strings_at_spec(a, "users"@);
    let sb = strings_at_spec(b, "users"@);
    assert(sorted_strings(sa) == sorted_strings(sb)) by {
        assert(forall|s: Seq<Seq<char>>|
            (vstd::relations::sorted_by(s, crate::text::chars_order()) && s.to_multiset()
                == sa.to_multiset()) == (vstd::relations::sorted_by(s, crate::text::chars_order())
                && s.to_multiset() == sb.to_multiset()));
    }
}

/// The wire entries of a declared device.
pub open spec fn device_entries(d: EreaderDevice) -> Seq<(Seq<char>, JsonV)> {
    opt_push(
        seq![("name"@, JsonV::String(d.name@)), ("email"@, JsonV::String(d.email@))],
        "availabilityOption"@,
        match d.availability_option {
            Some(a) => Some(JsonV::String(availability_wire(a))),
            None => None,
        },
    ).push(("users"@, strs_v(d.users@)))
}

impl EreaderDevice {
    /// The wire form of the declared device.
    pub fn to_wire(&self) -> (r: Json)
        ensures
            r@ == JsonV::Object(device_entries(*self)),
    {
        let mut es: Vec<(String, Json)> = Vec::new();
        proof {
            assert(crate::json::entries_view(es@) =~= Seq::empty());
        }
        wire::push(&mut es, "name", wire::str_json(&self.name));
        wire::push(&mut es, "email", wire::str_json(&self.email));
        let availability = match &self.availability_option {
            Some(a) => Some(Json::from_str(a.as_wire())),
            None => None,
        };
        wire::push_opt(&mut es, "availabilityOption", availability);
        wire::push(&mut es, "users", wire::strs_json(&self.users));
        let r = wire::object(es);
        assert(r@->Object_0 =~= device_entries(*self));
        r
    }
}

/// The view of a computed identity.
pub open spec fn identity_view(t: (String, String, String, Vec<String>)) -> (Seq<char>, Seq<char>, Seq<char>, Seq<Seq<char>>) {
    (t.0@, t.1@, t.2@, strings_view(t.3@))
}

fn same_identity(a: &(String, String, String, Vec<String>), b: &(String, String, String, Vec<String>)) -> (r: bool)
    ensures
        r == (identity_view(*a) == identity_view(*b)),
{
    crate::json::str_equal(a.0.as_str(), b.0.as_str()) && crate::json::str_equal(a.1.as_str(), b.1.as_str())
        && crate::json::str_equal(a.2.as_str(), b.2.as_str()) && crate::sync::strings_equal(&a.3, &b.3)
}

fn identities(xs: &Vec<Json>) -> (r: Vec<(String, String, String, Vec<String>)>)
    ensures
        r@.map_values(|t: (String, String, String, Vec<String>)| identity_view(t)) == elems_view(xs@).map_values(
            |v: JsonV| identity_spec(v),
        ),
{
    let mut out: Vec<(String, String, String, Vec<String>)> = Vec::new();
    let mut i: usize = 0;
    while i < xs.len()
        invariant
            i <= xs@.len(),
            out@.len() == i,
            forall|j: int| 0 <= j < i ==> identity_view(#[trigger] out@[j]) == identity_spec(xs@[j]@),
        decreases xs@.len() - i,
    {
        out.push(identity(&xs[i]));
        i = i + 1;
    }
    assert(out@.map_values(|t: (String, String, String, Vec<String>)| identity_view(t)) =~= elems_view(xs@).map_values(
        |v: JsonV| identity_spec(v),
    ));
    out
}

fn covered(a: &Vec<(String, String, String, Vec<String>)>, b: &Vec<(String, String, String, Vec<String>)>) -> (r: bool)
    ensures
        r == forall|i: int|
            0 <= i < a@.len() ==> b@.map_values(|t: (String, String, String, Vec<String>)| identity_view(t)).contains(
                #[trigger] identity_view(a@[i]),
            ),
{
    let ghost bv = b@.map_values(|t: (String, String, String, Vec<String>)| identity_view(t));
    let mut i: usize = 0;
    while i < a.len()
        invariant
            i <= a@.len(),
            bv == b@.map_values(|t: (String, String, String, Vec<String>)| identity_view(t)),
            forall|m: int| 0 <= m < i ==> bv.contains(#[trigger] identity_view(a@[m])),
        decreases a@.len() - i,
    {
        let mut found = false;
        let mut j: usize = 0;
        while j < b.len()
            invariant
                j <= b@.len(),
                i < a@.len(),
                bv == b@.map_values(|t: (String, String, String, Vec<String>)| identity_view(t)),
                found ==> bv.contains(identity_view(a@[i as int])),
                !found ==> forall|n: int| 0 <= n < j ==> bv[n] != identity_view(a@[i as int]),
            decreases b@.len() - j,
        {
            if same_identity(&a[i], &b[j]) {
                assert(bv[j as int] == identity_view(a@[i as int]));
                found = true;
            }
            j = j + 1;
        }
        if !found {
            assert(!bv.contains(identity_view(a@[i as int])));
            return false;
        }
        i = i + 1;
    }
    true
}

/// Whether the whole list has to be written: the declared and the live devices
/// differ as sets of identities: order does not matter, and an identity that
/// occurs more than once counts once.
pub open spec fn replace_needed_spec(desired: Seq<JsonV>, live: Seq<JsonV>) -> bool {
    desired.map_values(|v: JsonV| identity_spec(v)).to_set() != live.map_values(
        |v: JsonV| identity_spec(v),
    ).to_set()
}

/// Whether the declared and live devices differ as sets of identities, so
/// that the whole declared list is written.
pub fn replace_needed(desired: &Vec<Json>, live: &Vec<Json>) -> (r: bool)
    ensures
        r == replace_needed_spec(elems_view(desired@), elems_view(live@)),
{
    let da = identities(desired);
    let la = identities(live);
    let ghost a = da@.map_values(|t: (String, String, String, Vec<String>)| identity_view(t));
    let ghost b = la@.map_values(|t: (String, String, String, Vec<String>)| identity_view(t));
    let there = covered(&da, &la);
    let back = covered(&la, &da);
    proof {
        if there && back {
            assert forall|i: int| 0 <= i < a.len() implies b.contains(#[trigger] a[i]) by {
                assert(b.contains(identity_view(da@[i])));
            }
            assert forall|j: int| 0 <= j < b.len() implies a.contains(#[trigger] b[j]) by {
                assert(a.contains(identity_view(la@[j])));
            }
            crate::sync::lemma_same_sets(a, b);
        } else if !there {
            let i = choose|i: int| 0 <= i < da@.len() && !b.contains(#[trigger] identity_view(da@[i]));
            assert(a[i] == identity_view(da@[i]));
            assert(a.to_set().contains(a[i]));
            assert(!b.to_set().contains(a[i]));
        } else {
            let j = choose|j: int| 0 <= j < la@.len() && !a.contains(#[trigger] identity_view(la@[j]));
            assert(b[j] == identity_view(la@[j]));
            assert(b.to_set().contains(b[j]));
            assert(!a.to_set().contains(b[j]));
        }
    }
    !(there && back)
}

/// Once the server holds the written devices, each read back with the same
/// identity (an absent availability read back as `adminOrUp`, users in any
/// order), the next comparison finds nothing to write.
pub proof fn law_written_devices_converge(desired: Seq<JsonV>, live: Seq<JsonV>)
    requires
        live.len() == desired.len(),
        forall|i: int| 0 <= i < desired.len() ==> identity_spec(#[trigger] live[i]) == identity_spec(
            desired[i],
        ),
    ensures
        !replace_needed_spec(desired, live),
{
    assert(desired.map_values(|v: JsonV| identity_spec(v)) =~= live.map_values(
        |v: JsonV| identity_spec(v),
    ));
}

} // verus!
