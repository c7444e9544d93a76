use vstd::prelude::*;

verus! {

/// A boundary assertion: the start or end of the string, or a place
/// where a word boundary is (or is not) present.
#[derive(Clone, Copy, PartialEq, Eq, Structural, Debug)]
pub enum Boundary {
    /// `<%`, the start of the string
    Start,
    /// `%>`, the end of the string
    End,
    /// `%`, a word boundary
    Word,
    /// `!%`, a place without a word boundary
    NotWord,
}

} // verus!
