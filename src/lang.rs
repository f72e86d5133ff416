//! The languages a folder can be scaffolded for.

use vstd::prelude::*;
use crate::text::same_text;

verus! {

/// A language selection; no other value can come out of parsing.
#[derive(Clone, Copy, Debug, PartialEq, Eq, Structural)]
pub enum Langs {
    CPP,
    C,
    PYTHON,
    JAVA,
}

/// The language that a token names, if it names one.
pub open spec fn lang_named(w: Seq<char>) -> Option<Langs> {
    if w == "cpp"@ {
        Some(Langs::CPP)
    } else if w == "c"@ {
        Some(Langs::C)
    } else if w == "py"@ {
        Some(Langs::PYTHON)
    } else if w == "java"@ {
        Some(Langs::JAVA)
    } else {
        None
    }
}

/// Reads a language token.
pub fn lang_from_token(t: &str) -> (r: Option<Langs>)
    ensures
        r == lang_named(t@),
{
    if same_text(t, "cpp") {
        Some(Langs::CPP)
    } else if same_text(t, "c") {
        Some(Langs::C)
    } else if same_text(t, "py") {
        Some(Langs::PYTHON)
    } else if same_text(t, "java") {
        Some(Langs::JAVA)
    } else {
        None
    }
}

} // verus!
