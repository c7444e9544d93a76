use vstd::prelude::*;

use crate::span::Span;

verus! {

/// The `Grapheme` expression, matching a single Unicode grapheme; it
/// compiles to `\X` where the target flavor supports it.
#[derive(Clone, Copy, PartialEq, Eq, Structural, Debug)]
pub struct Grapheme {
    /// Where the expression stands in the source, for diagnostics.
    pub span: Span,
}

} // verus!
