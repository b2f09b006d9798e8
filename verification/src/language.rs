use vstd::prelude::*;
use crate::strutil::str_eq;

verus! {

/// The languages with a registered grammar and a structural extractor.
#[derive(Debug, Clone, Copy, PartialEq, Eq, Structural)]
pub enum LangId {
    Rust,
    Python,
    Javascript,
}

/// The language denoted by an identifier string, if any is registered.
pub open spec fn lang_of(s: Seq<char>) -> Option<LangId> {
    if s == "rust"@ {
        Some(LangId::Rust)
    } else if s == "python"@ {
        Some(LangId::Python)
    } else if s == "javascript"@ {
        Some(LangId::Javascript)
    } else {
        None
    }
}

/// Look an identifier up in the grammar registry.
pub fn lang_from_str(s: &str) -> (r: Option<LangId>)
    ensures
        r == lang_of(s@),
{
    if str_eq(s, "rust") {
        Some(LangId::Rust)
    } else if str_eq(s, "python") {
        Some(LangId::Python)
    } else if str_eq(s, "javascript") {
        Some(LangId::Javascript)
    } else {
        None
    }
}

} // verus!
