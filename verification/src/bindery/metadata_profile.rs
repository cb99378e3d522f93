//! Metadata profiles: which works to keep when syncing an author's catalogue,
//! created, updated and deleted by name.
use crate::bindery::unknown_language_behavior::{behavior_wire, UnknownLanguageBehavior};
use crate::json::{entries_view, Json, JsonV};
use crate::wire::{self, int_v, opt_push};
use vstd::prelude::*;

verus! {

/// A metadata profile, keyed by name.
pub struct MetadataProfile {
    /// Server-assigned id; never sent.
    pub id: Option<i64>,
    /// Display name, the profile's identity.
    pub name: String,
    pub min_popularity: i32,
    pub min_pages: i32,
    pub skip_missing_date: bool,
    pub skip_missing_isbn: bool,
    pub skip_part_books: bool,
    /// Comma-separated language codes.
    pub allowed_languages: String,
    pub unknown_language_behavior: Option<UnknownLanguageBehavior>,
    /// Read-only creation time; never sent.
    pub created_at: Option<String>,
}

/// The wire entries of a metadata profile.
pub open spec fn profile_entries(p: MetadataProfile) -> Seq<(Seq<char>, JsonV)> {
    opt_push(
        seq![
            ("name"@, JsonV::String(p.name@)),
            ("minPopularity"@, int_v(p.min_popularity as int)),
            ("minPages"@, int_v(p.min_pages as int)),
            ("skipMissingDate"@, JsonV::Bool(p.skip_missing_date)),
            ("skipMissingIsbn"@, JsonV::Bool(p.skip_missing_isbn)),
            ("skipPartBooks"@, JsonV::Bool(p.skip_part_books)),
            ("allowedLanguages"@, JsonV::String(p.allowed_languages@)),
        ],
        "unknownLanguageBehavior"@,
        match p.unknown_language_behavior {
            Some(b) => Some(JsonV::String(behavior_wire(b))),
            None => None,
        },
    )
}

impl MetadataProfile {
    /// The wire form of the profile (the id and creation time are never sent).
    pub fn to_wire(&self) -> (r: Json)
        ensures
            r@ == JsonV::Object(profile_entries(*self)),
    {
        let mut es: Vec<(String, Json)> = Vec::new();
        proof {
            assert(entries_view(es@) =~= Seq::empty());
        }
        wire::push(&mut es, "name", wire::str_json(&self.name));
        wire::push(&mut es, "minPopularity", wire::int_json(self.min_popularity as i64));
        wire::push(&mut es, "minPages", wire::int_json(self.min_pages as i64));
        wire::push(&mut es, "skipMissingDate", Json::Bool(self.skip_missing_date));
        wire::push(&mut es, "skipMissingIsbn", Json::Bool(self.skip_missing_isbn));
        wire::push(&mut es, "skipPartBooks", Json::Bool(self.skip_part_books));
        wire::push(&mut es, "allowedLanguages", wire::str_json(&self.allowed_languages));
        let behavior = match &self.unknown_language_behavior {
            Some(b) => Some(Json::from_str(b.as_wire())),
            None => None,
        };
        wire::push_opt(&mut es, "unknownLanguageBehavior", behavior);
        let r = wire::object(es);
        assert(r@->Object_0 =~= profile_entries(*self));
        r
    }
}

} // verus!
