use vstd::prelude::*;

use crate::options::RegexFlavor;
use crate::repetition::RepetitionError;
use crate::span::Span;
use crate::token::ParseErrorMsg;

verus! {

/// An error that occurred while parsing an expression.
#[derive(Debug)]
pub struct ParseError {
    pub kind: ParseErrorKind,
    pub span: Span,
}

/// The kinds of errors that can occur while parsing.
#[derive(Debug)]
pub enum ParseErrorKind {
    /// The lexer encountered syntax that is valid in a regex, but not
    /// here; the hint explains the equivalent
    LexErrorWithMessage(ParseErrorMsg),
    /// A number range whose first number is not smaller than the second
    RangeIsNotIncreasing,
    /// The deprecated `.` token
    Dot,
    /// An error inside a character class
    CharClass(CharClassError),
    /// An error in a char string used where a single code point is
    /// expected
    CharString(CharStringError),
    /// A keyword used as a variable name
    KeywordAfterLet(String),
    /// Two `!` in a row
    UnallowedDoubleNot,
    /// A `let` binding that shadows an existing one
    LetBindingExists,
    /// An error in a repetition
    Repetition(RepetitionError),
    /// An invalid backslash escape inside a double-quoted string; the
    /// payload is the byte offset of the escaped character within the
    /// string token
    InvalidEscapeInStringAt(usize),
    /// The expression is nested too deeply
    RecursionLimit,
    /// A number too large for a repetition bound
    NumberTooLarge,
    /// A code point outside the valid range
    InvalidCodePoint,
    /// A specific token was expected, but something else was found
    ExpectedToken(crate::token::Token),
    /// A token that no rule can start or continue with
    UnexpectedToken,
    /// Several independent errors collected for batch reporting
    Multiple(Vec<ParseError>),
}

/// The kinds of errors that can occur inside a character class.
#[derive(Debug)]
pub enum CharClassError {
    /// An unknown named class, with an optional similar known name
    UnknownNamedClass { found: String, similar: Option<String> },
    /// A range whose bounds are in the wrong order, as in `['z'-'a']`
    DescendingRange(char, char),
    /// A class without any items
    Empty,
}

/// The kinds of errors that can occur in a char string.
#[derive(Clone, Copy, PartialEq, Eq, Structural, Debug)]
pub enum CharStringError {
    /// A string with several code points used where one is expected
    TooManyCodePoints,
}

/// An error that occurred while compiling an expression.
#[derive(Debug)]
pub struct CompileError {
    pub kind: CompileErrorKind,
    pub span: Span,
}

/// The kinds of errors that can occur while compiling.
#[derive(Debug)]
pub enum CompileErrorKind {
    /// A parse error, forwarded
    ParseError(ParseErrorKind),
    /// A feature that the selected flavor cannot express
    Unsupported(Feature, RegexFlavor),
    /// A variable that is not defined
    UnknownVariable { found: String, similar: Option<String> },
    /// A group reference to a name that is not defined
    UnknownReferenceName { found: String, similar: Option<String> },
}

/// A feature that not every flavor supports.
#[derive(Clone, Copy, PartialEq, Eq, Structural, Debug)]
pub enum Feature {
    /// The `Grapheme` expression, compiled to `\X`
    Grapheme,
}

impl ParseErrorMsg {
    /// The stable message for this hint.
    pub open spec fn msg_spec(self) -> Seq<char> {
        match self {
            ParseErrorMsg::Caret => "`^` is not a valid token"@,
            ParseErrorMsg::CaretInGroup => "`^` is not a valid token"@,
            ParseErrorMsg::Dollar => "`$` is not a valid token"@,
            ParseErrorMsg::GroupNonCapturing => "`(?:` groups are not supported"@,
            ParseErrorMsg::GroupLookahead => "`(?=` lookahead is not supported"@,
            ParseErrorMsg::GroupLookaheadNeg => "`(?!` lookahead is not supported"@,
            ParseErrorMsg::GroupLookbehind => "`(?<=` lookbehind is not supported"@,
            ParseErrorMsg::GroupLookbehindNeg => "`(?<!` lookbehind is not supported"@,
            ParseErrorMsg::GroupComment => "`(?#` comments are not supported"@,
            ParseErrorMsg::GroupNamedCapture => "This named capture syntax is not supported"@,
            ParseErrorMsg::GroupPcreBackreference => "This backreference syntax is not supported"@,
            ParseErrorMsg::GroupAtomic => "Atomic groups are not supported"@,
            ParseErrorMsg::GroupConditional => "Conditional groups are not supported"@,
            ParseErrorMsg::GroupBranchReset => "Branch reset groups are not supported"@,
            ParseErrorMsg::GroupSubroutineCall => "Subroutine calls are not supported"@,
            ParseErrorMsg::GroupOther => "This group syntax is not supported"@,
            ParseErrorMsg::UnclosedString => "This string literal doesn't have a closing quote"@,
            ParseErrorMsg::Backslash => "Backslash escapes are not supported"@,
            ParseErrorMsg::BackslashU4 => "Backslash escapes are not supported"@,
            ParseErrorMsg::BackslashX2 => "Backslash escapes are not supported"@,
            ParseErrorMsg::BackslashUnicode => "Backslash escapes are not supported"@,
            ParseErrorMsg::BackslashGK => "Backslash escapes are not supported"@,
            ParseErrorMsg::BackslashProperty => "Backslash escapes are not supported"@,
        }
    }

    /// The stable, human-readable message for this hint.
    pub fn msg(&self) -> (r: String)
        ensures
            r@ == self.msg_spec(),
    {
        match self {
            ParseErrorMsg::Caret => String::from_str("`^` is not a valid token"),
            ParseErrorMsg::CaretInGroup => String::from_str("`^` is not a valid token"),
            ParseErrorMsg::Dollar => String::from_str("`$` is not a valid token"),
            ParseErrorMsg::GroupNonCapturing => String::from_str("`(?:` groups are not supported"),
            ParseErrorMsg::GroupLookahead => String::from_str("`(?=` lookahead is not supported"),
            ParseErrorMsg::GroupLookaheadNeg => String::from_str(
                "`(?!` lookahead is not supported",
            ),
            ParseErrorMsg::GroupLookbehind => String::from_str("`(?<=` lookbehind is not supported"),
            ParseErrorMsg::GroupLookbehindNeg => String::from_str(
                "`(?<!` lookbehind is not supported",
            ),
            ParseErrorMsg::GroupComment => String::from_str("`(?#` comments are not supported"),
            ParseErrorMsg::GroupNamedCapture => String::from_str(
                "This named capture syntax is not supported",
            ),
            ParseErrorMsg::GroupPcreBackreference => String::from_str(
                "This backreference syntax is not supported",
            ),
            ParseErrorMsg::GroupAtomic => String::from_str("Atomic groups are not supported"),
            ParseErrorMsg::GroupConditional => String::from_str(
                "Conditional groups are not supported",
            ),
            ParseErrorMsg::GroupBranchReset => String::from_str(
                "Branch reset groups are not supported",
            ),
            ParseErrorMsg::GroupSubroutineCall => String::from_str(
                "Subroutine calls are not supported",
            ),
            ParseErrorMsg::GroupOther => String::from_str("This group syntax is not supported"),
            ParseErrorMsg::UnclosedString => String::from_str(
                "This string literal doesn't have a closing quote",
            ),
            ParseErrorMsg::Backslash => String::from_str("Backslash escapes are not supported"),
            ParseErrorMsg::BackslashU4 => String::from_str("Backslash escapes are not supported"),
            ParseErrorMsg::BackslashX2 => String::from_str("Backslash escapes are not supported"),
            ParseErrorMsg::BackslashUnicode => String::from_str(
                "Backslash escapes are not supported",
            ),
            ParseErrorMsg::BackslashGK => String::from_str("Backslash escapes are not supported"),
            ParseErrorMsg::BackslashProperty => String::from_str(
                "Backslash escapes are not supported",
            ),
        }
    }
}

impl CharClassError {
    /// The stable message for this error.
    pub open spec fn msg_spec(self) -> Seq<char> {
        match self {
            CharClassError::UnknownNamedClass { found, similar } => "Unknown character class `"@
                + found@ + "`"@,
            CharClassError::DescendingRange(_, _) =>
            "Character range must be in increasing order"@,
            CharClassError::Empty => "This character class is empty"@,
        }
    }

    /// The stable, human-readable message for this error.
    pub fn msg(&self) -> (r: String)
        ensures
            r@ == self.msg_spec(),
    {
        match self {
            CharClassError::UnknownNamedClass { found, similar } => {
                let mut s = String::from_str("Unknown character class `");
                s.append(found.as_str());
                s.append("`");
                s
            },
            CharClassError::DescendingRange(_, _) => String::from_str(
                "Character range must be in increasing order",
            ),
            CharClassError::Empty => String::from_str("This character class is empty"),
        }
    }
}

impl CharStringError {
    /// The stable message for this error.
    pub open spec fn msg_spec(self) -> Seq<char> {
        "This char string contains more than one code point"@
    }

    /// The stable, human-readable message for this error.
    pub fn msg(&self) -> (r: String)
        ensures
            r@ == self.msg_spec(),
    {
        String::from_str("This char string contains more than one code point")
    }
}

impl ParseErrorKind {
    /// The stable message for this kind.
    pub open spec fn msg_spec(self) -> Seq<char> {
        match self {
            ParseErrorKind::LexErrorWithMessage(m) => m.msg_spec(),
            ParseErrorKind::RangeIsNotIncreasing =>
            "The first number in a range must be smaller than the second"@,
            ParseErrorKind::Dot => "The dot is not supported"@,
            ParseErrorKind::CharClass(e) => e.msg_spec(),
            ParseErrorKind::CharString(e) => e.msg_spec(),
            ParseErrorKind::KeywordAfterLet(name) => "Keyword `"@ + name@
                + "` can't be used as a variable name"@,
            ParseErrorKind::UnallowedDoubleNot => "An expression can't be negated twice"@,
            ParseErrorKind::LetBindingExists => "A variable with this name already exists"@,
            ParseErrorKind::Repetition(e) => e.msg_spec(),
            ParseErrorKind::InvalidEscapeInStringAt(_) =>
            "This escape sequence is not supported"@,
            ParseErrorKind::RecursionLimit => "This expression is too deeply nested"@,
            ParseErrorKind::NumberTooLarge => "This number is too large"@,
            ParseErrorKind::InvalidCodePoint => "This code point is outside the allowed range"@,
            ParseErrorKind::ExpectedToken(_) => "Expected a different token here"@,
            ParseErrorKind::UnexpectedToken => "This token is not allowed here"@,
            ParseErrorKind::Multiple(_) => "Multiple parsing errors"@,
        }
    }

    /// The stable, human-readable message for this kind.
    pub fn msg(&self) -> (r: String)
        ensures
            r@ == self.msg_spec(),
    {
        match self {
            ParseErrorKind::LexErrorWithMessage(m) => m.msg(),
            ParseErrorKind::RangeIsNotIncreasing => String::from_str(
                "The first number in a range must be smaller than the second",
            ),
            ParseErrorKind::Dot => String::from_str("The dot is not supported"),
            ParseErrorKind::CharClass(e) => e.msg(),
            ParseErrorKind::CharString(e) => e.msg(),
            ParseErrorKind::KeywordAfterLet(name) => {
                let mut s = String::from_str("Keyword `");
                s.append(name.as_str());
                s.append("` can't be used as a variable name");
                s
            },
            ParseErrorKind::UnallowedDoubleNot => String::from_str(
                "An expression can't be negated twice",
            ),
            ParseErrorKind::LetBindingExists => String::from_str(
                "A variable with this name already exists",
            ),
            ParseErrorKind::Repetition(e) => e.msg(),
            ParseErrorKind::InvalidEscapeInStringAt(_) => String::from_str(
                "This escape sequence is not supported",
            ),
            ParseErrorKind::RecursionLimit => String::from_str(
                "This expression is too deeply nested",
            ),
            ParseErrorKind::NumberTooLarge => String::from_str("This number is too large"),
            ParseErrorKind::InvalidCodePoint => String::from_str(
                "This code point is outside the allowed range",
            ),
            ParseErrorKind::ExpectedToken(_) => String::from_str(
                "Expected a different token here",
            ),
            ParseErrorKind::UnexpectedToken => String::from_str("This token is not allowed here"),
            ParseErrorKind::Multiple(_) => String::from_str("Multiple parsing errors"),
        }
    }

    /// Attaches a span to this kind.
    pub fn at(self, span: Span) -> (r: ParseError)
        ensures
            r.kind == self,
            r.span == span,
    {
        ParseError { kind: self, span }
    }
}

impl ParseError {
    /// Forwards this error as a compile error.
    pub fn to_compile_error(self) -> (r: CompileError)
        ensures
            r.kind == CompileErrorKind::ParseError(self.kind),
            r.span == self.span,
    {
        CompileError { kind: CompileErrorKind::ParseError(self.kind), span: self.span }
    }
}

impl Feature {
    /// The name of this feature, as shown in error messages.
    pub open spec fn name_spec(self) -> Seq<char> {
        match self {
            Feature::Grapheme => "Grapheme"@,
        }
    }

    /// The name of this feature, as shown in error messages.
    pub fn name(&self) -> (r: &'static str)
        ensures
            r@ == self.name_spec(),
    {
        match self {
            Feature::Grapheme => "Grapheme",
        }
    }
}

impl RegexFlavor {
    /// The name of this flavor, as shown in error messages.
    pub open spec fn name_spec(self) -> Seq<char> {
        match self {
            RegexFlavor::Pcre => "PCRE"@,
            RegexFlavor::Python => "Python"@,
            RegexFlavor::Java => "Java"@,
            RegexFlavor::JavaScript => "JavaScript"@,
            RegexFlavor::DotNet => ".NET"@,
            RegexFlavor::Ruby => "Ruby"@,
            RegexFlavor::Rust => "Rust"@,
        }
    }

    /// The name of this flavor, as shown in error messages.
    pub fn name(&self) -> (r: &'static str)
        ensures
            r@ == self.name_spec(),
    {
        match self {
            RegexFlavor::Pcre => "PCRE",
            RegexFlavor::Python => "Python",
            RegexFlavor::Java => "Java",
            RegexFlavor::JavaScript => "JavaScript",
            RegexFlavor::DotNet => ".NET",
            RegexFlavor::Ruby => "Ruby",
            RegexFlavor::Rust => "Rust",
        }
    }
}

impl CompileErrorKind {
    /// The stable message for this kind.
    pub open spec fn msg_spec(self) -> Seq<char> {
        match self {
            CompileErrorKind::ParseError(k) => k.msg_spec(),
            CompileErrorKind::Unsupported(f, flavor) => "Unsupported feature `"@ + f.name_spec()
                + "` in the "@ + flavor.name_spec() + " regex flavor"@,
            CompileErrorKind::UnknownVariable { found, similar } => "Variable `"@ + found@
                + "` doesn't exist"@,
            CompileErrorKind::UnknownReferenceName { found, similar } => "Group reference `"@
                + found@ + "` doesn't exist"@,
        }
    }

    /// The stable, human-readable message for this kind.
    pub fn msg(&self) -> (r: String)
        ensures
            r@ == self.msg_spec(),
    {
        match self {
            CompileErrorKind::ParseError(k) => k.msg(),
            CompileErrorKind::Unsupported(f, flavor) => {
                let mut s = String::from_str("Unsupported feature `");
                s.append(f.name());
                s.append("` in the ");
                s.append(flavor.name());
                s.append(" regex flavor");
                s
            },
            CompileErrorKind::UnknownVariable { found, similar } => {
                let mut s = String::from_str("Variable `");
                s.append(found.as_str());
                s.append("` doesn't exist");
                s
            },
            CompileErrorKind::UnknownReferenceName { found, similar } => {
                let mut s = String::from_str("Group reference `");
                s.append(found.as_str());
                s.append("` doesn't exist");
                s
            },
        }
    }

    /// Attaches a span to this kind.
    pub fn at(self, span: Span) -> (r: CompileError)
        ensures
            r.kind == self,
            r.span == span,
    {
        CompileError { kind: self, span }
    }
}

} // verus!
