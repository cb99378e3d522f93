//! A library's content model.  Changing it on an existing library migrates
//! nothing, so it is never compared after create.
use crate::json::str_equal;
use vstd::prelude::*;

verus! {

/// A library's content model.
#[derive(PartialEq, Eq, Structural, Debug, Clone, Copy)]
pub enum MediaType {
    /// Audiobooks and ebooks (the default on create).
    Book,
    /// Podcasts.
    Podcast,
    /// A value this version does not know.
    Unknown,
}

/// The wire string of a media type (lowercase).
pub open spec fn media_type_wire(m: MediaType) -> Seq<char> {
    match m {
        MediaType::Book => "book"@,
        MediaType::Podcast => "podcast"@,
        MediaType::Unknown => "unknown"@,
    }
}

impl MediaType {
    /// The wire string of this media type.
    pub fn as_wire(&self) -> (r: &'static str)
        ensures
            r@ == media_type_wire(*self),
    {
        match self {
            MediaType::Book => "book",
            MediaType::Podcast => "podcast",
            MediaType::Unknown => "unknown",
        }
    }

    /// The media type a wire string names, `Unknown` for any other string.
    pub fn from_wire(s: &str) -> (r: MediaType)
        ensures
            s@ == "book"@ ==> r == MediaType::Book,
            s@ == "podcast"@ ==> r == MediaType::Podcast,
            s@ != "book"@ && s@ != "podcast"@ ==> r == MediaType::Unknown,
    {
        proof {
            reveal_strlit("book");
            reveal_strlit("podcast");
            assert("book"@.len() != "podcast"@.len());
        }
        if str_equal(s, "book") {
            MediaType::Book
        } else if str_equal(s, "podcast") {
            MediaType::Podcast
        } else {
            MediaType::Unknown
        }
    }
}

} // verus!
