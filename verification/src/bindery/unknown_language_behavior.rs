//! What a metadata profile does with a work whose language is unknown.
use crate::json::str_equal;
use vstd::prelude::*;

verus! {

/// What to do with a work whose language is unknown.
#[derive(PartialEq, Eq, Structural, Debug, Clone, Copy)]
pub enum UnknownLanguageBehavior {
    Pass,
    Fail,
    /// A value this version does not know.
    Unknown,
}

/// The wire string of a behaviour (lowercase).
pub open spec fn behavior_wire(b: UnknownLanguageBehavior) -> Seq<char> {
    match b {
        UnknownLanguageBehavior::Pass => "pass"@,
        UnknownLanguageBehavior::Fail => "fail"@,
        UnknownLanguageBehavior::Unknown => "unknown"@,
    }
}

impl UnknownLanguageBehavior {
    /// The wire string of this behaviour.
    pub fn as_wire(&self) -> (r: &'static str)
        ensures
            r@ == behavior_wire(*self),
    {
        match self {
            UnknownLanguageBehavior::Pass => "pass",
            UnknownLanguageBehavior::Fail => "fail",
            UnknownLanguageBehavior::Unknown => "unknown",
        }
    }

    /// The behaviour a wire string names, `Unknown` for any other string.
    pub fn from_wire(s: &str) -> (r: UnknownLanguageBehavior)
        ensures
            s@ == "pass"@ ==> r == UnknownLanguageBehavior::Pass,
            s@ == "fail"@ ==> r == UnknownLanguageBehavior::Fail,
            s@ != "pass"@ && s@ != "fail"@ ==> r == UnknownLanguageBehavior::Unknown,
    {
        proof {
            reveal_strlit("pass");
            reveal_strlit("fail");
            assert("pass"@[0] != "fail"@[0]);
        }
        if str_equal(s, "pass") {
            UnknownLanguageBehavior::Pass
        } else if str_equal(s, "fail") {
            UnknownLanguageBehavior::Fail
        } else {
            UnknownLanguageBehavior::Unknown
        }
    }
}

} // verus!
