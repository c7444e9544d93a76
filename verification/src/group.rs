use vstd::prelude::*;

use crate::rule::Rulex;

verus! {

/// Capture behavior of a group: capturing by index when `name` is
/// absent, capturing by name otherwise.
#[derive(Debug)]
pub struct Capture {
    pub name: Option<String>,
}

/// A parenthesized sequence of rules, optionally capturing.
#[derive(Debug)]
pub struct Group {
    pub rules: Vec<Rulex>,
    pub capture: Option<Capture>,
}

impl Group {
    /// Builds a group from its children and its capture behavior.
    pub fn new(rules: Vec<Rulex>, capture: Option<Capture>) -> (r: Self)
        ensures
            r == (Group { rules, capture }),
    {
        Group { rules, capture }
    }

    /// A capturing group emits its own parentheses; a non-capturing
    /// group is transparent, so a repetition after it needs a pair.
    pub fn needs_parens_before_repetition(&self) -> (r: bool)
        ensures
            r == (self.capture is None),
    {
        self.capture.is_none()
    }
}

} // verus!
