use vstd::prelude::*;

verus! {

/// A target regex dialect. The flavor affects both the surface syntax
/// of the emitted regex and which features are legal.
#[derive(Clone, Copy, PartialEq, Eq, Structural, Debug)]
pub enum RegexFlavor {
    Pcre,
    Python,
    Java,
    JavaScript,
    DotNet,
    Ruby,
    Rust,
}

/// Options passed to the parser.
#[derive(Clone, Copy, PartialEq, Eq, Structural, Debug)]
pub struct ParseOptions {
    /// The maximum nesting depth of the expression; exceeding it yields
    /// a `RecursionLimit` error.
    pub max_nesting: u32,
}

impl Default for ParseOptions {
    fn default() -> (r: Self)
        ensures
            r == (ParseOptions { max_nesting: 127u32 }),
    {
        ParseOptions { max_nesting: 127 }
    }
}

/// Options passed to the compiler.
#[derive(Clone, Copy, PartialEq, Eq, Structural, Debug)]
pub struct CompileOptions {
    pub parse_options: ParseOptions,
    pub flavor: RegexFlavor,
}

impl Default for CompileOptions {
    fn default() -> (r: Self)
        ensures
            r == (CompileOptions {
                parse_options: ParseOptions { max_nesting: 127u32 },
                flavor: RegexFlavor::Pcre,
            }),
    {
        CompileOptions { parse_options: ParseOptions { max_nesting: 127 }, flavor: RegexFlavor::Pcre }
    }
}

} // verus!
