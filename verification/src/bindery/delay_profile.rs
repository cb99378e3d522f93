//! `/api/v1/delayprofile` — how long to wait before grabbing a release, per
//! protocol.
//!
//! Profiles have no name, so the whole list is replaced when the declared and
//! live sets of identities differ: every live profile is deleted and each
//! declared one posted in order.  Profiles are compared by
//! `(order, usenetDelay, torrentDelay, preferredProtocol, enableUsenet,
//! enableTorrent)`, with absent integers `0`, an absent protocol empty and
//! absent flags `false`.  A declared profile always carries
//! `preferredProtocol`, empty when unset, so the result does not depend on how
//! the server fills a missing key.
use crate::json::{has_key, Json, JsonV};
use crate::json::elems_view;
use crate::sync::str_or;
use crate::text::{decimal_i64, signed_decimal};
use crate::wire::{self, int_v, opt_push, opt_str_v};
use vstd::prelude::*;

verus! {

/// The integer at `key`, or `0`.
pub open spec fn int_or_zero(v: JsonV, key: Seq<char>) -> i64 {
    match v.get(key) {
        Some(x) => match x.i64_of() {
            Some(i) => i,
            None => 0,
        },
        None => 0,
    }
}

/// The boolean at `key`, or `false`.
pub open spec fn bool_or_false(v: JsonV, key: Seq<char>) -> bool {
    match v.get(key) {
        Some(x) => match x.bool_of() {
            Some(b) => b,
            None => false,
        },
        None => false,
    }
}

/// A profile's structural identity.
pub open spec fn identity_spec(v: JsonV) -> (i64, i64, i64, Seq<char>, bool, bool) {
    (
        int_or_zero(v, "order"@),
        int_or_zero(v, "usenetDelay"@),
        int_or_zero(v, "torrentDelay"@),
        str_or(v, "preferredProtocol"@, Seq::empty()),
        bool_or_false(v, "enableUsenet"@),
        bool_or_false(v, "enableTorrent"@),
    )
}

fn int_at(v: &Json, key: &str) -> (r: i64)
    ensures
        r == int_or_zero(v@, key@),
{
    match v.get(key) {
        Some(x) => match x.as_i64() {
            Some(i) => i,
            None => 0,
        },
        None => 0,
    }
}

fn bool_at(v: &Json, key: &str) -> (r: bool)
    ensures
        r == bool_or_false(v@, key@),
{
    match v.get(key) {
        Some(x) => match x.as_bool() {
            Some(b) => b,
            None => false,
        },
        None => false,
    }
}

/// The structural identity of a declared or live profile.
pub fn profile_identity(v: &Json) -> (r: (i64, i64, i64, String, bool, bool))
    ensures
        (r.0, r.1, r.2, r.3@, r.4, r.5) == identity_spec(v@),
{
    proof {
        reveal_strlit("");
        assert(""@ =~= Seq::<char>::empty());
    }
    (
        int_at(v, "order"),
        int_at(v, "usenetDelay"),
        int_at(v, "torrentDelay"),
        crate::sync::string_or(v, "preferredProtocol", ""),
        bool_at(v, "enableUsenet"),
        bool_at(v, "enableTorrent"),
    )
}

/// A declared profile with `preferredProtocol` present: an object without the
/// key gets it as the empty string; anything else is unchanged.
pub open spec fn with_protocol_spec(v: JsonV) -> JsonV {
    match v {
        JsonV::Object(es) => if has_key(es, "preferredProtocol"@) {
            v
        } else {
            JsonV::Object(es.push(("preferredProtocol"@, JsonV::String(Seq::empty()))))
        },
        _ => v,
    }
}

/// Fills an absent `preferredProtocol` with the empty string.
pub fn with_protocol(v: Json) -> (r: Json)
    ensures
        r@ == with_protocol_spec(v@),
{
    let present = match v.as_object() {
        Some(es) => match crate::json::key_index(es, "preferredProtocol") {
            Some(j) => {
                assert(crate::json::entries_view(es@)[j as int].0 == "preferredProtocol"@);
                true
            },
            None => false,
        },
        None => true,
    };
    if present {
        v
    } else {
        let r = v.set_key("preferredProtocol".to_owned(), Json::String(String::new()));
        r
    }
}

/// The integer ids of the live profiles that have one, in order.
pub open spec fn ids_spec(live: Seq<JsonV>) -> Seq<i64>
    decreases live.len(),
{
    if live.len() == 0 {
        Seq::empty()
    } else {
        match live.last().get("id"@) {
            Some(x) => match x.i64_of() {
                Some(i) => ids_spec(live.drop_last()).push(i),
                None => ids_spec(live.drop_last()),
            },
            None => ids_spec(live.drop_last()),
        }
    }
}

/// The ids of the live profiles to delete before the declared ones are posted.
pub fn delete_ids(live: &Vec<Json>) -> (r: Vec<i64>)
    ensures
        r@ == ids_spec(elems_view(live@)),
{
    let ghost ev = elems_view(live@);
    let mut out: Vec<i64> = Vec::new();
    let mut i: usize = 0;
    while i < live.len()
        invariant
            i <= live@.len(),
            ev == elems_view(live@),
            out@ == ids_spec(ev.take(i as int)),
        decreases live@.len() - i,
    {
        proof {
            assert(ev.take(i + 1).drop_last() =~= ev.take(i as int));
            assert(ev.take(i + 1).last() == live@[i as int]@);
        }
        match live[i].get("id") {
            Some(x) => match x.as_i64() {
                Some(id) => {
                    out.push(id);
                },
                None => {},
            },
            None => {},
        }
        i = i + 1;
    }
    assert(ev.take(live@.len() as int) =~= ev);
    out
}

/// The URL path of a profile: `/api/v1/delayprofile/{id}`.
pub fn item_path(id: i64) -> (r: String)
    ensures
        r@ == "/api/v1/delayprofile/"@ + signed_decimal(id as int),
{
    let mut r = "/api/v1/delayprofile/".to_owned();
    let digits = decimal_i64(id);
    r.append(digits.as_str());
    r
}

/// Filling the protocol settles it: a filled profile is left as it is, and its
/// identity is unchanged by the fill.
pub proof fn law_protocol_fill_is_stable(v: JsonV)
    ensures
        with_protocol_spec(with_protocol_spec(v)) == with_protocol_spec(v),
        v is Object ==> identity_spec(with_protocol_spec(v)) == identity_spec(v),
{
    if let JsonV::Object(es) = v {
        if !has_key(es, "preferredProtocol"@) {
            let e = ("preferredProtocol"@, JsonV::String(Seq::<char>::empty()));
            let es2 = es.push(e);
            assert(es2[es.len() as int].0 == "preferredProtocol"@);
            assert(has_key(es2, "preferredProtocol"@));
            assert(es2.drop_last() =~= es);
            crate::json::lemma_obj_get_cases(es, "preferredProtocol"@);
            reveal_strlit("preferredProtocol");
            reveal_strlit("order");
            reveal_strlit("usenetDelay");
            reveal_strlit("torrentDelay");
            reveal_strlit("enableUsenet");
            reveal_strlit("enableTorrent");
            assert("preferredProtocol"@.len() != "order"@.len());
            assert("preferredProtocol"@.len() != "usenetDelay"@.len());
            assert("preferredProtocol"@.len() != "torrentDelay"@.len());
            assert("preferredProtocol"@.len() != "enableUsenet"@.len());
            assert("preferredProtocol"@.len() != "enableTorrent"@.len());
        }
    }
}

/// A delay profile.
pub struct DelayProfile {
    /// Server-assigned id; never sent.
    pub id: Option<i64>,
    /// Minutes to wait before grabbing a usenet release.
    pub usenet_delay: i32,
    /// Minutes to wait before grabbing a torrent release.
    pub torrent_delay: i32,
    /// `usenet` or `torrent`.
    pub preferred_protocol: Option<String>,
    pub enable_usenet: bool,
    pub enable_torrent: bool,
    /// Position among the profiles; several may share one.
    pub order: i32,
    /// Read-only creation time; never sent.
    pub created_at: Option<String>,
}

/// The wire entries of a delay profile.
pub open spec fn profile_entries(p: DelayProfile) -> Seq<(Seq<char>, JsonV)> {
    opt_push(
        seq![("usenetDelay"@, int_v(p.usenet_delay as int)), ("torrentDelay"@, int_v(p.torrent_delay as int))],
        "preferredProtocol"@,
        opt_str_v(p.preferred_protocol),
    ).push(("enableUsenet"@, JsonV::Bool(p.enable_usenet))).push(
        ("enableTorrent"@, JsonV::Bool(p.enable_torrent)),
    ).push(("order"@, int_v(p.order as int)))
}

impl DelayProfile {
    /// The wire form of the profile (the id and creation time are never sent).
    pub fn to_wire(&self) -> (r: Json)
        ensures
            r@ == JsonV::Object(profile_entries(*self)),
    {
        let mut es: Vec<(String, Json)> = Vec::new();
        proof {
            assert(crate::json::entries_view(es@) =~= Seq::empty());
        }
        wire::push(&mut es, "usenetDelay", wire::int_json(self.usenet_delay as i64));
        wire::push(&mut es, "torrentDelay", wire::int_json(self.torrent_delay as i64));
        proof {
            assert(crate::json::entries_view(es@) =~= seq![
                ("usenetDelay"@, int_v(self.usenet_delay as int)),
                ("torrentDelay"@, int_v(self.torrent_delay as int)),
            ]);
        }
        wire::push_opt(&mut es, "preferredProtocol", wire::opt_str_json(&self.preferred_protocol));
        wire::push(&mut es, "enableUsenet", Json::Bool(self.enable_usenet));
        wire::push(&mut es, "enableTorrent", Json::Bool(self.enable_torrent));
        wire::push(&mut es, "order", wire::int_json(self.order as i64));
        wire::object(es)
    }
}

/// The view of a computed identity.
pub open spec fn identity_view(t: (i64, i64, i64, String, bool, bool)) -> (i64, i64, i64, Seq<char>, bool, bool) {
    (t.0, t.1, t.2, t.3@, t.4, t.5)
}

fn same_identity(a: &(i64, i64, i64, String, bool, bool), b: &(i64, i64, i64, String, bool, bool)) -> (r: bool)
    ensures
        r == (identity_view(*a) == identity_view(*b)),
{
    a.0 == b.0 && a.1 == b.1 && a.2 == b.2 && crate::json::str_equal(a.3.as_str(), b.3.as_str())
        && a.4 == b.4 && a.5 == b.5
}

fn identities(xs: &Vec<Json>) -> (r: Vec<(i64, i64, i64, String, bool, bool)>)
    ensures
        r@.map_values(|t: (i64, i64, i64, String, bool, bool)| identity_view(t)) == elems_view(xs@).map_values(
            |v: JsonV| identity_spec(v),
        ),
{
    let mut out: Vec<(i64, i64, i64, String, bool, bool)> = Vec::new();
    let mut i: usize = 0;
    while i < xs.len()
        invariant
            i <= xs@.len(),
            out@.len() == i,
            forall|j: int| 0 <= j < i ==> identity_view(#[trigger] out@[j]) == identity_spec(xs@[j]@),
        decreases xs@.len() - i,
    {
        out.push(profile_identity(&xs[i]));
        i = i + 1;
    }
    assert(out@.map_values(|t: (i64, i64, i64, String, bool, bool)| identity_view(t)) =~= elems_view(xs@).map_values(
        |v: JsonV| identity_spec(v),
    ));
    out
}

fn covered(a: &Vec<(i64, i64, i64, String, bool, bool)>, b: &Vec<(i64, i64, i64, String, bool, bool)>) -> (r: bool)
    ensures
        r == forall|i: int|
            0 <= i < a@.len() ==> b@.map_values(|t: (i64, i64, i64, String, bool, bool)| identity_view(t)).contains(
                #[trigger] identity_view(a@[i]),
            ),
{
    let ghost bv = b@.map_values(|t: (i64, i64, i64, String, bool, bool)| identity_view(t));
    let mut i: usize = 0;
    while i < a.len()
        invariant
            i <= a@.len(),
            bv == b@.map_values(|t: (i64, i64, i64, String, bool, bool)| identity_view(t)),
            forall|m: int| 0 <= m < i ==> bv.contains(#[trigger] identity_view(a@[m])),
        decreases a@.len() - i,
    {
        let mut found = false;
        let mut j: usize = 0;
        while j < b.len()
            invariant
                j <= b@.len(),
                i < a@.len(),
                bv == b@.map_values(|t: (i64, i64, i64, String, bool, bool)| identity_view(t)),
                found ==> bv.contains(identity_view(a@[i as int])),
                !found ==> forall|n: int| 0 <= n < j ==> bv[n] != identity_view(a@[i as int]),
            decreases b@.len() - j,
        {
            if same_identity(&a[i], &b[j]) {
                assert(bv[j as int] == identity_view(a@[i as int]));
                found = true;
            }
            j = j + 1;
        }
        if !found {
            assert(!bv.contains(identity_view(a@[i as int])));
            return false;
        }
        i = i + 1;
    }
    true
}

/// Whether the whole list has to be written: the declared and the live profiles
/// differ as sets of identities: order does not matter, and an identity that
/// occurs more than once counts once.
pub open spec fn replace_needed_spec(desired: Seq<JsonV>, live: Seq<JsonV>) -> bool {
    desired.map_values(|v: JsonV| identity_spec(v)).to_set() != live.map_values(
        |v: JsonV| identity_spec(v),
    ).to_set()
}

/// Whether the declared and live profiles differ as sets of identities, so
/// that the whole declared list is written.
pub fn replace_needed(desired: &Vec<Json>, live: &Vec<Json>) -> (r: bool)
    ensures
        r == replace_needed_spec(elems_view(desired@), elems_view(live@)),
{
    let da = identities(desired);
    let la = identities(live);
    let ghost a = da@.map_values(|t: (i64, i64, i64, String, bool, bool)| identity_view(t));
    let ghost b = la@.map_values(|t: (i64, i64, i64, String, bool, bool)| identity_view(t));
    let there = covered(&da, &la);
    let back = covered(&la, &da);
    proof {
        if there && back {
            assert forall|i: int| 0 <= i < a.len() implies b.contains(#[trigger] a[i]) by {
                assert(b.contains(identity_view(da@[i])));
            }
            assert forall|j: int| 0 <= j < b.len() implies a.contains(#[trigger] b[j]) by {
                assert(a.contains(identity_view(la@[j])));
            }
            crate::sync::lemma_same_sets(a, b);
        } else if !there {
            let i = choose|i: int| 0 <= i < da@.len() && !b.contains(#[trigger] identity_view(da@[i]));
            assert(a[i] == identity_view(da@[i]));
            assert(a.to_set().contains(a[i]));
            assert(!b.to_set().contains(a[i]));
        } else {
            let j = choose|j: int| 0 <= j < la@.len() && !a.contains(#[trigger] identity_view(la@[j]));
            assert(b[j] == identity_view(la@[j]));
            assert(b.to_set().contains(b[j]));
            assert(!a.to_set().contains(b[j]));
        }
    }
    !(there && back)
}

/// Once the server holds exactly the posted profiles (each declared profile
/// with its protocol filled), the next comparison finds nothing to write.
pub proof fn law_posted_profiles_converge(declared: Seq<JsonV>)
    requires
        forall|i: int| 0 <= i < declared.len() ==> (#[trigger] declared[i]) is Object,
    ensures
        !replace_needed_spec(declared.map_values(|w: JsonV| with_protocol_spec(w)), declared),
{
    let posted = declared.map_values(|w: JsonV| with_protocol_spec(w));
    assert forall|i: int| 0 <= i < declared.len() implies identity_spec(#[trigger] posted[i])
        == identity_spec(declared[i]) by {
        law_protocol_fill_is_stable(declared[i]);
    }
    assert(posted.map_values(|v: JsonV| identity_spec(v)) =~= declared.map_values(
        |v: JsonV| identity_spec(v),
    ));
}

/// Two profiles hold different integers at `key`.
pub open spec fn ints_differ(v: JsonV, w: JsonV, key: Seq<char>) -> bool {
    v.get(key) matches Some(x) && w.get(key) matches Some(y) && x.i64_of() is Some && y.i64_of() is Some
        && x.i64_of() != y.i64_of()
}

/// Two profiles hold different strings at `key`.
pub open spec fn strs_differ(v: JsonV, w: JsonV, key: Seq<char>) -> bool {
    v.str_at(key) is Some && w.str_at(key) is Some && v.str_at(key) != w.str_at(key)
}

/// Two profiles hold different booleans at `key`.
pub open spec fn bools_differ(v: JsonV, w: JsonV, key: Seq<char>) -> bool {
    v.get(key) matches Some(x) && w.get(key) matches Some(y) && x.bool_of() is Some && y.bool_of() is Some
        && x.bool_of() != y.bool_of()
}

proof fn lemma_single_sets_differ<A>(a: A, b: A)
    requires
        a != b,
    ensures
        seq![a].to_set() != seq![b].to_set(),
{
    assert(seq![a].contains(a)) by {
        assert(seq![a][0] == a);
    }
    assert(seq![a].to_set().contains(a));
    assert(!seq![b].to_set().contains(a)) by {
        if seq![b].contains(a) {
            let i = choose|i: int| 0 <= i < 1 && seq![b][i] == a;
            assert(seq![b][i] == b);
        }
    }
}

/// Each field of the identity tells profiles apart: two profiles that hold
/// different integers at `order`, `usenetDelay` or `torrentDelay`, different
/// strings at `preferredProtocol`, or different booleans at `enableUsenet` or
/// `enableTorrent` have different identities, so a declared list of one
/// against a live list of the other is replaced.
pub proof fn law_identity_tells_profiles_apart(v: JsonV, w: JsonV)
    requires
        ints_differ(v, w, "order"@) || ints_differ(v, w, "usenetDelay"@) || ints_differ(
            v,
            w,
            "torrentDelay"@,
        ) || strs_differ(v, w, "preferredProtocol"@) || bools_differ(v, w, "enableUsenet"@)
            || bools_differ(v, w, "enableTorrent"@),
    ensures
        identity_spec(v) != identity_spec(w),
        replace_needed_spec(seq![v], seq![w]),
{
    assert(identity_spec(v) != identity_spec(w));
    assert(seq![v].map_values(|x: JsonV| identity_spec(x)) =~= seq![identity_spec(v)]);
    assert(seq![w].map_values(|x: JsonV| identity_spec(x)) =~= seq![identity_spec(w)]);
    lemma_single_sets_differ(identity_spec(v), identity_spec(w));
}

/// The identity reads nothing but its six keys: two profiles that agree at
/// `order`, `usenetDelay`, `torrentDelay`, `preferredProtocol`,
/// `enableUsenet` and `enableTorrent` have the same identity whatever else
/// they hold (a server `id`, `createdAt`), so a declared list of one against a
/// live list of the other is left alone.
pub proof fn law_identity_reads_only_its_keys(v: JsonV, w: JsonV)
    requires
        v.get("order"@) == w.get("order"@),
        v.get("usenetDelay"@) == w.get("usenetDelay"@),
        v.get("torrentDelay"@) == w.get("torrentDelay"@),
        v.get("preferredProtocol"@) == w.get("preferredProtocol"@),
        v.get("enableUsenet"@) == w.get("enableUsenet"@),
        v.get("enableTorrent"@) == w.get("enableTorrent"@),
    ensures
        identity_spec(v) == identity_spec(w),
        !replace_needed_spec(seq![v], seq![w]),
{
    assert(seq![v].map_values(|x: JsonV| identity_spec(x)) =~= seq![identity_spec(v)]);
    assert(seq![w].map_values(|x: JsonV| identity_spec(x)) =~= seq![identity_spec(w)]);
}

/// Some profile of `xs` has an identity that no profile of `ys` has.
pub open spec fn has_unmatched(xs: Seq<JsonV>, ys: Seq<JsonV>) -> bool {
    exists|i: int| 0 <= i < xs.len() && #[trigger] unmatched_at(xs, ys, i)
}

/// No profile of `ys` has the identity of profile `i` of `xs`.
pub open spec fn unmatched_at(xs: Seq<JsonV>, ys: Seq<JsonV>, i: int) -> bool {
    forall|j: int| 0 <= j < ys.len() ==> identity_spec(xs[i]) != identity_spec(#[trigger] ys[j])
}

proof fn lemma_unmatched_set(xs: Seq<JsonV>, ys: Seq<JsonV>)
    ensures
        has_unmatched(xs, ys) ==> xs.map_values(|v: JsonV| identity_spec(v)).to_set() != ys.map_values(
            |v: JsonV| identity_spec(v),
        ).to_set(),
        !has_unmatched(xs, ys) ==> xs.map_values(|v: JsonV| identity_spec(v)).to_set().subset_of(
            ys.map_values(|v: JsonV| identity_spec(v)).to_set(),
        ),
{
    let a = xs.map_values(|v: JsonV| identity_spec(v));
    let b = ys.map_values(|v: JsonV| identity_spec(v));
    if has_unmatched(xs, ys) {
        let i = choose|i: int| 0 <= i < xs.len() && #[trigger] unmatched_at(xs, ys, i);
        assert(a[i] == identity_spec(xs[i]));
        assert(a.to_set().contains(a[i]));
        assert(!b.contains(a[i])) by {
            if b.contains(a[i]) {
                let j = choose|j: int| 0 <= j < b.len() && b[j] == a[i];
                assert(b[j] == identity_spec(ys[j]));
            }
        }
    } else {
        assert forall|t| a.to_set().contains(t) implies b.to_set().contains(t) by {
            let i = choose|i: int| 0 <= i < a.len() && a[i] == t;
            assert(a[i] == identity_spec(xs[i]));
            assert(!unmatched_at(xs, ys, i));
            let j = choose|j: int| 0 <= j < ys.len() && identity_spec(xs[i]) == identity_spec(ys[j]);
            assert(b[j] == identity_spec(ys[j]));
            assert(b.contains(t));
        }
    }
}

/// The whole list is replaced exactly when some declared profile has an
/// identity no live profile has, or some live profile has an identity no
/// declared profile has.
pub proof fn law_replace_needed_iff_unmatched(desired: Seq<JsonV>, live: Seq<JsonV>)
    ensures
        replace_needed_spec(desired, live) <==> has_unmatched(desired, live) || has_unmatched(live, desired),
{
    lemma_unmatched_set(desired, live);
    lemma_unmatched_set(live, desired);
    let a = desired.map_values(|v: JsonV| identity_spec(v)).to_set();
    let b = live.map_values(|v: JsonV| identity_spec(v)).to_set();
    if !has_unmatched(desired, live) && !has_unmatched(live, desired) {
        assert(a =~= b);
    }
}

} // verus!
