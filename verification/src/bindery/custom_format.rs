//! Custom formats: named sets of release-matching conditions, shared
//! deployment config created, updated and deleted by name.
use crate::json::{entries_view, Json, JsonV};
use crate::bindery::custom_condition::{condition_v, CustomCondition};
use crate::wire;
use vstd::prelude::*;

verus! {

/// A custom format, keyed by name.
pub struct CustomFormat {
    /// Server-assigned id; never sent.
    pub id: Option<i64>,
    /// Display name, the format's identity.
    pub name: String,
    /// The conditions, stored server-side as one JSON blob.
    pub conditions: Vec<CustomCondition>,
    /// Read-only creation time; never sent.
    pub created_at: Option<String>,
}

/// The wire form of a format.
pub open spec fn format_v(f: CustomFormat) -> JsonV {
    JsonV::Object(
        seq![
            ("name"@, JsonV::String(f.name@)),
            ("conditions"@, JsonV::Array(f.conditions@.map_values(|c: CustomCondition| condition_v(c)))),
        ],
    )
}

impl CustomFormat {
    /// The wire form of the format (the id and creation time are never sent).
    pub fn to_wire(&self) -> (r: Json)
        ensures
            r@ == format_v(*self),
    {
        let mut conds: Vec<Json> = Vec::new();
        let mut i: usize = 0;
        while i < self.conditions.len()
            invariant
                i <= self.conditions@.len(),
                conds@.len() == i,
                forall|j: int| 0 <= j < i ==> (#[trigger] conds@[j])@ == condition_v(self.conditions@[j]),
            decreases self.conditions@.len() - i,
        {
            conds.push(self.conditions[i].to_wire());
            i = i + 1;
        }
        proof {
            crate::json::lemma_array_view(conds);
        }
        let arr = Json::Array(conds);
        assert(arr@->Array_0 =~= self.conditions@.map_values(|c: CustomCondition| condition_v(c)));
        let mut es: Vec<(String, Json)> = Vec::new();
        proof {
            assert(entries_view(es@) =~= Seq::empty());
        }
        wire::push(&mut es, "name", wire::str_json(&self.name));
        wire::push(&mut es, "conditions", arr);
        let r = wire::object(es);
        assert(r@->Object_0 =~= format_v(*self)->Object_0);
        r
    }
}

} // verus!
