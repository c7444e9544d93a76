use vstd::prelude::*;

use crate::span::Span;

verus! {

/// A warning that does not stop compilation.
pub struct Warning {
    pub kind: WarningKind,
    pub span: Span,
}

/// The kinds of warnings.
pub enum WarningKind {
    /// A deprecated construct; the payload names it
    Deprecation(String),
}

impl WarningKind {
    /// The stable message for this warning.
    pub open spec fn msg_spec(self) -> Seq<char> {
        match self {
            WarningKind::Deprecation(what) => what@ + " is deprecated"@,
        }
    }

    /// The stable, human-readable message for this warning.
    pub fn msg(&self) -> (r: String)
        ensures
            r@ == self.msg_spec(),
    {
        match self {
            WarningKind::Deprecation(what) => {
                let mut s = what.clone();
                s.append(" is deprecated");
                s
            },
        }
    }
}

} // verus!
