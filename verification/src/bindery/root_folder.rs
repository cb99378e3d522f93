//! Root folders: filesystem paths Bindery watches, keyed by path.  There is no
//! update endpoint: the path is both the key and the only field sent.
use crate::json::{entries_view, Json, JsonV};
use crate::wire;
use vstd::prelude::*;

verus! {

/// A root folder.
pub struct RootFolder {
    /// Server-assigned id; never sent.
    pub id: Option<i64>,
    /// The watched path, the folder's identity.
    pub path: String,
    /// Read-only free space; never sent.
    pub free_space: Option<i64>,
    /// Read-only creation time; never sent.
    pub created_at: Option<String>,
}

impl RootFolder {
    /// The wire form, `{"path": "<path>"}`.
    pub fn to_wire(&self) -> (r: Json)
        ensures
            r@ == JsonV::Object(seq![("path"@, JsonV::String(self.path@))]),
    {
        let mut es: Vec<(String, Json)> = Vec::new();
        proof {
            assert(entries_view(es@) =~= Seq::empty());
        }
        wire::push(&mut es, "path", wire::str_json(&self.path));
        wire::object(es)
    }
}

} // verus!
