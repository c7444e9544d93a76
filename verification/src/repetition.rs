use vstd::prelude::*;

use crate::rule::Rulex;

verus! {

/// A repetition: a rule matched between `lower_bound` and `upper_bound`
/// times (or without an upper bound), greedily or lazily.
#[derive(Debug)]
pub struct Repetition {
    pub rule: Rulex,
    pub kind: RepetitionKind,
    pub greedy: Greedy,
}

impl Repetition {
    /// Wraps a rule in a repetition.
    pub fn new(rule: Rulex, kind: RepetitionKind, greedy: Greedy) -> (r: Self)
        ensures
            r == (Repetition { rule, kind, greedy }),
    {
        Repetition { rule, kind, greedy }
    }
}

/// Whether a repetition prefers the longest match (greedy) or the
/// shortest match (lazy).
#[derive(Clone, Copy, PartialEq, Eq, Structural, Debug)]
pub enum Greedy {
    Yes,
    No,
}

/// A repetition in its most canonical form, `{x,y}`.
///
/// For example:
///
///  * `'x'?` is equivalent to `'x'{0,1}`
///  * `'x'+` is equivalent to `'x'{1,}`
///  * `'x'*` is equivalent to `'x'{0,}`
#[derive(Clone, Copy, PartialEq, Eq, Structural, Debug)]
pub struct RepetitionKind {
    /// The lower bound, e.g. `{4,}`
    pub lower_bound: u32,
    /// The upper bound, e.g. `{,7}`. `None` means infinity.
    pub upper_bound: Option<u32>,
}

impl RepetitionKind {
    /// True when the bounds are ascending, as every kind built by the
    /// constructors is.
    pub open spec fn wf(self) -> bool {
        match self.upper_bound {
            Some(u) => self.lower_bound <= u,
            None => true,
        }
    }

    /// The kind `{0,}`, equivalent to `*`.
    pub fn zero_inf() -> (r: Self)
        ensures
            r == (RepetitionKind { lower_bound: 0u32, upper_bound: None::<u32> }),
            r.wf(),
    {
        RepetitionKind { lower_bound: 0, upper_bound: None }
    }

    /// The kind `{1,}`, equivalent to `+`.
    pub fn one_inf() -> (r: Self)
        ensures
            r == (RepetitionKind { lower_bound: 1u32, upper_bound: None::<u32> }),
            r.wf(),
    {
        RepetitionKind { lower_bound: 1, upper_bound: None }
    }

    /// The kind `{0,1}`, equivalent to `?`.
    pub fn zero_one() -> (r: Self)
        ensures
            r == (RepetitionKind { lower_bound: 0u32, upper_bound: Some(1u32) }),
            r.wf(),
    {
        RepetitionKind { lower_bound: 0, upper_bound: Some(1) }
    }

    /// The kind `{n,n}`, matching exactly `n` times.
    pub fn fixed(n: u32) -> (r: Self)
        ensures
            r == (RepetitionKind { lower_bound: n, upper_bound: Some(n) }),
            r.wf(),
    {
        RepetitionKind { lower_bound: n, upper_bound: Some(n) }
    }

    /// The bounds as a pair; `None` means infinity.
    pub fn get_range(&self) -> (r: (u32, Option<u32>))
        ensures
            r == (self.lower_bound, self.upper_bound),
    {
        (self.lower_bound, self.upper_bound)
    }

    /// Builds the kind `{lower,upper}` from its bounds, rejecting
    /// descending bounds: the result is `Err(NotAscending)` if and only
    /// if the lower bound exceeds the (finite) upper bound.
    pub fn try_from(bounds: (u32, Option<u32>)) -> (r: Result<Self, RepetitionError>)
        ensures
            match bounds.1 {
                Some(u) => bounds.0 > u ==> r == Err::<Self, _>(RepetitionError::NotAscending),
                None => true,
            },
            (match bounds.1 {
                Some(u) => bounds.0 <= u,
                None => true,
            }) ==> r == Ok::<_, RepetitionError>(
                RepetitionKind { lower_bound: bounds.0, upper_bound: bounds.1 },
            ),
            r is Ok ==> r->Ok_0.wf(),
    {
        let (lower_bound, upper_bound) = bounds;
        match upper_bound {
            Some(u) if lower_bound > u => Err(RepetitionError::NotAscending),
            _ => Ok(RepetitionKind { lower_bound, upper_bound }),
        }
    }
}

impl Default for RepetitionKind {
    /// The kind `{0,}`.
    fn default() -> (r: Self)
        ensures
            r == (RepetitionKind { lower_bound: 0u32, upper_bound: None::<u32> }),
    {
        RepetitionKind { lower_bound: 0, upper_bound: None }
    }
}

/// An error that occurs in a repetition.
#[derive(Clone, Copy, PartialEq, Eq, Structural, Debug)]
pub enum RepetitionError {
    /// The lower bound exceeds the upper bound, as in `{4,2}`
    NotAscending,
    /// A `?` directly following a repetition, as in `'x'+?`
    QuestionMarkAfterRepetition,
}

impl RepetitionError {
    /// The stable message for this error.
    pub open spec fn msg_spec(self) -> Seq<char> {
        match self {
            RepetitionError::NotAscending =>
            "Lower bound can't be greater than the upper bound"@,
            RepetitionError::QuestionMarkAfterRepetition =>
            "Unexpected `?` following a repetition"@,
        }
    }

    /// The stable, human-readable message for this error.
    pub fn msg(&self) -> (r: String)
        ensures
            r@ == self.msg_spec(),
    {
        match self {
            RepetitionError::NotAscending => String::from_str(
                "Lower bound can't be greater than the upper bound",
            ),
            RepetitionError::QuestionMarkAfterRepetition => String::from_str(
                "Unexpected `?` following a repetition",
            ),
        }
    }
}

} // verus!
