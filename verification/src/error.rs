use vstd::prelude::*;

verus! {

/// Why a split failed. Every failure aborts the whole batch; an
/// over-budget chunk is not an error.
#[derive(Debug, Clone, Copy, PartialEq, Eq, Structural)]
pub enum SplitError {
    /// No grammar is registered for the requested language identifier.
    UnsupportedLanguage,
    /// The grammar could not produce a syntax tree for the input.
    ParseFailure,
    /// A node's span could not be read back out of the source text.
    TextExtraction,
}

impl SplitError {
    /// A human-readable description of the failure.
    pub fn message(&self) -> (r: &'static str)
        ensures
            *self == SplitError::UnsupportedLanguage ==> r@ == "unsupported language"@,
            *self == SplitError::ParseFailure ==> r@ == "failed to parse document"@,
            *self == SplitError::TextExtraction ==> r@ == "failed to extract node text"@,
    {
        match self {
            SplitError::UnsupportedLanguage => "unsupported language",
            SplitError::ParseFailure => "failed to parse document",
            SplitError::TextExtraction => "failed to extract node text",
        }
    }
}

} // verus!
