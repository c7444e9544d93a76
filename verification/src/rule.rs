use vstd::prelude::*;

use crate::alternation::Alternation;
use crate::error::ParseError;
use crate::options::ParseOptions;
use crate::boundary::Boundary;
use crate::char_class::CharClass;
use crate::grapheme::Grapheme;
use crate::group::Group;
use crate::repetition::Repetition;

verus! {

/// A parsed expression: the abstract syntax tree of this language.
#[derive(Debug)]
pub enum Rulex {
    /// A string literal, matched verbatim
    Literal(String),
    /// A character class, e.g. `['a'-'f' w]`
    CharClass(CharClass),
    /// A parenthesized group, e.g. `:name('x')`
    Group(Group),
    /// An alternation, e.g. `'a' | 'b'`
    Alternation(Alternation),
    /// A repetition, e.g. `'x'{3,}`
    Repetition(Box<Repetition>),
    /// A boundary assertion, e.g. `%`
    Boundary(Boundary),
    /// The `Grapheme` expression
    Grapheme(Grapheme),
}

impl Rulex {
    /// Negates the rule where negation is defined: a character class
    /// flips its negation flag, `Word` and `NotWord` boundaries swap,
    /// and everything else (including `Start` and `End`) cannot be
    /// negated once, so `None` is returned.
    pub fn negate(self) -> (r: Option<Rulex>)
        ensures
            match self {
                Rulex::CharClass(c) => r == Some(
                    Rulex::CharClass(CharClass { negated: !c.negated, items: c.items }),
                ),
                Rulex::Boundary(b) => match b {
                    Boundary::Word => r == Some(Rulex::Boundary(Boundary::NotWord)),
                    Boundary::NotWord => r == Some(Rulex::Boundary(Boundary::Word)),
                    Boundary::Start => r is None,
                    Boundary::End => r is None,
                },
                _ => r is None,
            },
    {
        match self {
            Rulex::CharClass(c) => Some(Rulex::CharClass(c.negate())),
            Rulex::Boundary(b) => match b {
                Boundary::Word => Some(Rulex::Boundary(Boundary::NotWord)),
                Boundary::NotWord => Some(Rulex::Boundary(Boundary::Word)),
                Boundary::Start => None,
                Boundary::End => None,
            },
            _ => None,
        }
    }

    /// True when a repetition directly after this rule needs to wrap it
    /// in a non-capturing group: multi-character (or empty) literals and
    /// alternations need one; character classes, boundaries, groups (which
    /// emit their own parentheses), repetitions and single-character
    /// literals do not.
    pub fn needs_parens_before_repetition(&self) -> (r: bool)
        ensures
            r == self.spec_needs_parens_before_repetition(),
    {
        match self {
            Rulex::Literal(l) => l.as_str().unicode_len() != 1,
            Rulex::Alternation(_) => true,
            Rulex::Group(g) => g.needs_parens_before_repetition(),
            Rulex::CharClass(_) => false,
            Rulex::Repetition(_) => false,
            Rulex::Boundary(_) => false,
            Rulex::Grapheme(_) => false,
        }
    }

    /// Which rules a repetition must wrap in a non-capturing group.
    pub open spec fn spec_needs_parens_before_repetition(&self) -> bool {
        match self {
            Rulex::Literal(l) => l@.len() != 1,
            Rulex::Alternation(_) => true,
            Rulex::Group(g) => g.capture is None,
            _ => false,
        }
    }
}

impl Rulex {
    /// Parses a source string into a rule; the result satisfies the
    /// structural invariants of the tree, errors can be handed straight
    /// to the diagnostic engine, a source holding nothing but
    /// whitespace and comments parses to the empty literal, and a
    /// successful parse implies that no token of the source is a
    /// foreign-syntax hint or an unrecognized character.
    pub fn parse(input: &str, options: ParseOptions) -> (r: Result<Rulex, ParseError>)
        ensures
            r is Ok ==> r->Ok_0.wf(),
            r is Ok ==> forall|toks: Seq<(crate::token::Token, crate::span::Span)>|
                #[trigger] crate::tokenize::tokens_ok(vstd::utf8::encode_utf8(input@), toks)
                    ==> crate::parse::consumed_clean(toks, 0, toks.len() as int),
            r is Err ==> crate::parse::err_wf(
                r->Err_0,
                vstd::utf8::encode_utf8(input@).len() as int,
            ),
            crate::tokenize::skip_spec(
                vstd::utf8::encode_utf8(input@),
                0,
            ) == vstd::utf8::encode_utf8(input@).len() ==> r is Ok && r->Ok_0 is Literal
                && r->Ok_0->Literal_0@ == Seq::<char>::empty(),
    {
        crate::parse::parse(input, options)
    }

    /// The structural invariants of a parsed expression: every range in
    /// a character class is ascending, every repetition has ascending
    /// bounds, and every alternation has at least one alternative.
    pub open spec fn wf(self) -> bool
        decreases self,
    {
        match self {
            Rulex::CharClass(cc) => cc.wf(),
            Rulex::Group(g) => seq_wf(g.rules@),
            Rulex::Alternation(a) => a.rules@.len() >= 1 && seq_wf(a.rules@),
            Rulex::Repetition(rep) => rep.kind.wf() && rep.rule.wf(),
            _ => true,
        }
    }
}

/// True when every rule in the sequence is well-formed.
pub open spec fn seq_wf(rules: Seq<Rulex>) -> bool
    decreases rules,
{
    if rules.len() == 0 {
        true
    } else {
        seq_wf(rules.drop_last()) && rules.last().wf()
    }
}

} // verus!
