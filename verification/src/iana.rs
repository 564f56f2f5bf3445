//! Values from IANA registries.

use vstd::prelude::*;

verus! {

/// An error that occurred while parsing a value from a string.
///
/// It carries nothing: all parse errors are alike.
pub struct ParseError {
    _private: (),
}

impl ParseError {
    /// What the error says.
    pub open spec fn text() -> Seq<char> {
        "Parse error"@
    }

    /// The parse error, as a mathematical value.
    pub closed spec fn value() -> ParseError {
        ParseError { _private: () }
    }

    /// All parse errors are the same value.
    pub proof fn lemma_all_alike(a: ParseError, b: ParseError)
        ensures
            a == b,
            a == Self::value(),
    {
        assert(a._private == b._private);
        assert(a._private == Self::value()._private);
    }

    /// The parse error.
    pub fn new() -> (e: Self)
        ensures
            e == Self::value(),
    {
        Self { _private: () }
    }

    /// What the error says: `Parse error`.
    pub fn to_string(&self) -> (s: String)
        ensures
            s@ == Self::text(),
    {
        "Parse error".to_owned()
    }

    /// The name of the error, as it shows when debugging: `ParseError`.
    pub fn name(&self) -> (s: &'static str)
        ensures
            s@ == "ParseError"@,
    {
        "ParseError"
    }
}

} // verus!
