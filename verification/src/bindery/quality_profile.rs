//! Quality profiles: an ordered file-format preference list plus an upgrade
//! cutoff, created, updated and deleted by name.
use crate::json::{entries_view, Json, JsonV};
use crate::bindery::quality_item::{item_v, QualityItem};
use crate::wire;
use vstd::prelude::*;

verus! {

/// A quality profile, keyed by name.
pub struct QualityProfile {
    /// Server-assigned id; never sent.
    pub id: Option<i64>,
    /// Display name, the profile's identity.
    pub name: String,
    /// Whether a better format may replace a grabbed one.
    pub upgrade_allowed: bool,
    /// The format at which upgrades stop.
    pub cutoff: String,
    /// The formats in order of preference.
    pub items: Vec<QualityItem>,
    /// Read-only creation time; never sent.
    pub created_at: Option<String>,
}

/// The wire form of a quality profile.
pub open spec fn profile_v(p: QualityProfile) -> JsonV {
    JsonV::Object(
        seq![
            ("name"@, JsonV::String(p.name@)),
            ("upgradeAllowed"@, JsonV::Bool(p.upgrade_allowed)),
            ("cutoff"@, JsonV::String(p.cutoff@)),
            ("items"@, JsonV::Array(p.items@.map_values(|q: QualityItem| item_v(q)))),
        ],
    )
}

impl QualityProfile {
    /// The wire form of the profile (the id and creation time are never sent).
    pub fn to_wire(&self) -> (r: Json)
        ensures
            r@ == profile_v(*self),
    {
        let mut items: Vec<Json> = Vec::new();
        let mut i: usize = 0;
        while i < self.items.len()
            invariant
                i <= self.items@.len(),
                items@.len() == i,
                forall|j: int| 0 <= j < i ==> (#[trigger] items@[j])@ == item_v(self.items@[j]),
            decreases self.items@.len() - i,
        {
            items.push(self.items[i].to_wire());
            i = i + 1;
        }
        proof {
            crate::json::lemma_array_view(items);
        }
        let arr = Json::Array(items);
        assert(arr@->Array_0 =~= self.items@.map_values(|q: QualityItem| item_v(q)));
        let mut es: Vec<(String, Json)> = Vec::new();
        proof {
            assert(entries_view(es@) =~= Seq::empty());
        }
        wire::push(&mut es, "name", wire::str_json(&self.name));
        wire::push(&mut es, "upgradeAllowed", Json::Bool(self.upgrade_allowed));
        wire::push(&mut es, "cutoff", wire::str_json(&self.cutoff));
        wire::push(&mut es, "items", arr);
        let r = wire::object(es);
        assert(r@->Object_0 =~= profile_v(*self)->Object_0);
        r
    }
}

} // verus!
