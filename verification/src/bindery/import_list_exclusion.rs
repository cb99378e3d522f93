//! `/api/v1/importlistexclusion` — works blocked from being re-added by list
//! and catalogue syncs, keyed by their provider foreign id.
//!
//! There is no update route: a declared exclusion whose `foreignId` is live is
//! left alone even when its display fields differ, one that is not live is
//! created, and under `--prune` a live one no longer declared is deleted.
use crate::json::{elems_view, entries_view, Json, JsonV};
use crate::render::{compact_text, render_compact};
use crate::sync::{first_with_str, first_index_with_str};
use crate::wire::{self, opt_push, opt_str_v};
use vstd::prelude::*;

verus! {

/// An exclusion, keyed by its foreign id.
pub struct ImportListExclusion {
    /// Server-assigned id; never sent.
    pub id: Option<i64>,
    /// The provider's id of the excluded work.
    pub foreign_id: String,
    pub title: Option<String>,
    pub author_name: Option<String>,
    /// Read-only creation time; never sent.
    pub created_at: Option<String>,
}

/// The wire entries of an exclusion.
pub open spec fn exclusion_entries(e: ImportListExclusion) -> Seq<(Seq<char>, JsonV)> {
    opt_push(
        opt_push(seq![("foreignId"@, JsonV::String(e.foreign_id@))], "title"@, opt_str_v(e.title)),
        "authorName"@,
        opt_str_v(e.author_name),
    )
}

impl ImportListExclusion {
    /// The wire form of the exclusion (the id and creation time are never sent).
    pub fn to_wire(&self) -> (r: Json)
        ensures
            r@ == JsonV::Object(exclusion_entries(*self)),
    {
        let mut es: Vec<(String, Json)> = Vec::new();
        proof {
            assert(entries_view(es@) =~= Seq::empty());
        }
        wire::push(&mut es, "foreignId", wire::str_json(&self.foreign_id));
        proof {
            assert(entries_view(es@) =~= seq![("foreignId"@, JsonV::String(self.foreign_id@))]);
        }
        wire::push_opt(&mut es, "title", wire::opt_str_json(&self.title));
        wire::push_opt(&mut es, "authorName", wire::opt_str_json(&self.author_name));
        wire::object(es)
    }
}

/// A declared exclusion is created when no live exclusion has its foreign id
/// (an exclusion declaring none is never matched).
pub open spec fn needs_create_spec(wire: JsonV, live: Seq<JsonV>) -> bool {
    match wire.str_at("foreignId"@) {
        Some(k) => first_with_str(live, "foreignId"@, k) is None,
        None => true,
    }
}

/// Whether the declared exclusion `wire` has to be created.
pub fn needs_create(wire: &Json, live: &Vec<Json>) -> (r: bool)
    ensures
        r == needs_create_spec(wire@, elems_view(live@)),
{
    match wire.get("foreignId") {
        Some(k) => match k.as_str() {
            Some(k) => first_index_with_str(live, "foreignId", k).is_none(),
            None => true,
        },
        None => true,
    }
}

/// The step for each declared exclusion against the live ones, matched by
/// `foreignId`: one that matches is left alone (there is no update), one that
/// does not is created.
pub fn plan(desired: &Vec<Json>, live: &Vec<Json>) -> (r: Vec<crate::sync::KeyedStep>)
    ensures
        r@.len() == desired@.len(),
        forall|i: int|
            0 <= i < desired@.len() ==> crate::sync::step_view(#[trigger] r@[i])
                == crate::sync::keyed_step_spec(
                desired@[i]@,
                elems_view(live@),
                "foreignId"@,
                |a: JsonV, b: JsonV| true,
            ),
        forall|i: int|
            0 <= i < desired@.len() ==> ((#[trigger] r@[i] is Create) == needs_create_spec(
                desired@[i]@,
                elems_view(live@),
            )),
{
    let mut out: Vec<crate::sync::KeyedStep> = Vec::new();
    let mut i: usize = 0;
    while i < desired.len()
        invariant
            i <= desired@.len(),
            out@.len() == i,
            forall|m: int|
                0 <= m < i ==> crate::sync::step_view(#[trigger] out@[m])
                    == crate::sync::keyed_step_spec(
                    desired@[m]@,
                    elems_view(live@),
                    "foreignId"@,
                    |a: JsonV, b: JsonV| true,
                ),
            forall|m: int|
                0 <= m < i ==> ((#[trigger] out@[m] is Create) == needs_create_spec(
                    desired@[m]@,
                    elems_view(live@),
                )),
        decreases desired@.len() - i,
    {
        proof {
            if let Some(k) = desired@[i as int]@.str_at("foreignId"@) {
                crate::sync::lemma_first_with_str_index(elems_view(live@), "foreignId"@, k);
            }
        }
        let step = match crate::sync::match_live(&desired[i], live, "foreignId") {
            Some(j) => crate::sync::KeyedStep::Unchanged(j),
            None => crate::sync::KeyedStep::Create,
        };
        out.push(step);
        i = i + 1;
    }
    out
}

/// The URL path of a live exclusion: `/api/v1/importlistexclusion/` followed by
/// the JSON text of its `id` (`null` when it has none).
pub fn item_path(live: &Json) -> (r: String)
    ensures
        r@ == "/api/v1/importlistexclusion/"@ + compact_text(
            match live@.get("id"@) {
                Some(id) => id,
                None => JsonV::Null,
            },
        ),
        live@.get("id"@) matches Some(JsonV::Number(crate::json::NumberV::PosInt(u))) ==> r@
            == "/api/v1/importlistexclusion/"@ + crate::text::decimal(u as nat),
{
    let null = Json::Null;
    let id = match live.get("id") {
        Some(id) => id,
        None => &null,
    };
    let text = render_compact(id);
    let mut r = "/api/v1/importlistexclusion/".to_owned();
    r.append(text.as_str());
    r
}

} // verus!
