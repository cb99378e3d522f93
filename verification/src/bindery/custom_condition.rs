//! One release-matching condition of a custom format.
use crate::json::{entries_view, Json, JsonV};
use crate::wire;
use vstd::prelude::*;

verus! {

/// One release-matching condition of a custom format.
pub struct CustomCondition {
    /// The condition kind, sent as `type`.
    pub condition_type: String,
    /// The pattern matched against a release.
    pub pattern: String,
    /// Inverts the match.
    pub negate: bool,
    /// The condition must match for the format to apply.
    pub required: bool,
}

/// The wire form of a condition.
pub open spec fn condition_v(c: CustomCondition) -> JsonV {
    JsonV::Object(
        seq![
            ("type"@, JsonV::String(c.condition_type@)),
            ("pattern"@, JsonV::String(c.pattern@)),
            ("negate"@, JsonV::Bool(c.negate)),
            ("required"@, JsonV::Bool(c.required)),
        ],
    )
}

impl CustomCondition {
    /// The wire form of the condition.
    pub fn to_wire(&self) -> (r: Json)
        ensures
            r@ == condition_v(*self),
    {
        let mut es: Vec<(String, Json)> = Vec::new();
        proof {
            assert(entries_view(es@) =~= Seq::empty());
        }
        wire::push(&mut es, "type", wire::str_json(&self.condition_type));
        wire::push(&mut es, "pattern", wire::str_json(&self.pattern));
        wire::push(&mut es, "negate", Json::Bool(self.negate));
        wire::push(&mut es, "required", Json::Bool(self.required));
        let r = wire::object(es);
        assert(r@->Object_0 =~= condition_v(*self)->Object_0);
        r
    }
}

} // verus!
