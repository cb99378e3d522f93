//! One format in a quality profile's preference list.
use crate::json::{entries_view, Json, JsonV};
use crate::wire;
use vstd::prelude::*;

verus! {

/// One format in a quality profile's preference list.
pub struct QualityItem {
    /// The format name.
    pub quality: String,
    /// Whether the format may be grabbed.
    pub allowed: bool,
}

/// The wire form of a quality item.
pub open spec fn item_v(q: QualityItem) -> JsonV {
    JsonV::Object(seq![("quality"@, JsonV::String(q.quality@)), ("allowed"@, JsonV::Bool(q.allowed))])
}

impl QualityItem {
    /// The wire form of the item.
    pub fn to_wire(&self) -> (r: Json)
        ensures
            r@ == item_v(*self),
    {
        let mut es: Vec<(String, Json)> = Vec::new();
        proof {
            assert(entries_view(es@) =~= Seq::empty());
        }
        wire::push(&mut es, "quality", wire::str_json(&self.quality));
        wire::push(&mut es, "allowed", Json::Bool(self.allowed));
        let r = wire::object(es);
        assert(r@->Object_0 =~= item_v(*self)->Object_0);
        r
    }
}

} // verus!
