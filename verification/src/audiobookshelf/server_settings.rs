//! `/api/settings` — the server-wide configuration singleton.
//!
//! There is no read for this endpoint, so there is nothing to compare with:
//! every declared key is sent whenever any is declared.
use crate::json::{Json, JsonV};
use crate::sync::Step;
use vstd::prelude::*;

verus! {

/// Decides the write for the declared keys `wire`: nothing to report when the
/// declared value is not an object, unchanged when it declares no key, else the
/// declared object is the `PATCH` body.
pub fn reconcile_step(wire: Json) -> (r: Option<Step>)
    ensures
        match wire@ {
            JsonV::Object(es) => if es.len() == 0 {
                r == Some(Step::Unchanged)
            } else {
                r matches Some(Step::Write(body)) && body@ == wire@
            },
            _ => r is None,
        },
{
    let empty = match wire.as_object() {
        None => {
            return None;
        },
        Some(es) => es.len() == 0,
    };
    if empty {
        Some(Step::Unchanged)
    } else {
        Some(Step::Write(wire))
    }
}

} // verus!
