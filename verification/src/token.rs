use vstd::prelude::*;

verus! {

/// A hint attached to a token when the lexer recognizes foreign regex
/// syntax that is not valid here but has a known equivalent, plus the
/// `UnclosedString` case. The parser turns such a token into a
/// `LexErrorWithMessage` error, and the diagnostic engine expands the
/// hint into a help message.
#[derive(Clone, Copy, PartialEq, Eq, Structural, Debug)]
pub enum ParseErrorMsg {
    Caret,
    CaretInGroup,
    Dollar,
    GroupNonCapturing,
    GroupLookahead,
    GroupLookaheadNeg,
    GroupLookbehind,
    GroupLookbehindNeg,
    GroupComment,
    GroupNamedCapture,
    GroupPcreBackreference,
    GroupAtomic,
    GroupConditional,
    GroupBranchReset,
    GroupSubroutineCall,
    GroupOther,
    UnclosedString,
    Backslash,
    BackslashU4,
    BackslashX2,
    BackslashUnicode,
    BackslashGK,
    BackslashProperty,
}

/// One lexical token. Valued tokens (`Identifier`, `Number`, `CodePoint`,
/// `String`) carry no payload; their text is recovered through the span.
#[derive(Clone, Copy, PartialEq, Eq, Structural, Debug)]
pub enum Token {
    /// `<%`, the start-of-string boundary
    BStart,
    /// `%>`, the end-of-string boundary
    BEnd,
    /// `%`, a word boundary
    BWord,
    /// `>>`, lookahead
    LookAhead,
    /// `<<`, lookbehind
    LookBehind,
    /// `::`, a backreference
    Backref,
    Star,
    Plus,
    QuestionMark,
    Pipe,
    Colon,
    OpenParen,
    CloseParen,
    OpenBrace,
    CloseBrace,
    Comma,
    Not,
    OpenBracket,
    Dash,
    CloseBracket,
    Dot,
    Semicolon,
    Equals,
    /// A single- or double-quoted string
    String,
    /// A code point of the form `U+FF0F`
    CodePoint,
    /// A number
    Number,
    /// An identifier or keyword
    Identifier,
    /// A token that is invalid here, but valid in a regex, with the
    /// hint explaining the equivalent
    ErrorMsg(ParseErrorMsg),
    /// Any other token the lexer does not recognize
    Error,
}

} // verus!
