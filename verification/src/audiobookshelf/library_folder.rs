//! One filesystem folder scanned into a library, as the config declares it:
//! a bare path.  Removing a folder from the config deletes, on the next
//! update, everything the server scanned from it (see the library module).
use crate::json::{Json, JsonV};
use crate::wire;
use vstd::prelude::*;

verus! {

/// A folder path to scan into a library.
pub struct LibraryFolder {
    /// Absolute path on the server, matched against live folders by exact
    /// string equality.
    pub full_path: String,
}

impl LibraryFolder {
    /// The wire form, `{"fullPath": "<path>"}`.
    pub fn to_wire(&self) -> (r: Json)
        ensures
            r@ == JsonV::Object(seq![("fullPath"@, JsonV::String(self.full_path@))]),
    {
        let mut es: Vec<(String, Json)> = Vec::new();
        proof {
            assert(crate::json::entries_view(es@) =~= Seq::empty());
        }
        wire::push(&mut es, "fullPath", wire::str_json(&self.full_path));
        wire::object(es)
    }
}

} // verus!
