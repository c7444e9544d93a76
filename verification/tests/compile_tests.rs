use pomsky::boundary::Boundary;
use pomsky::char_class::{CharClass, ClassItem};
use pomsky::error::{CompileErrorKind, Feature};
use pomsky::options::{CompileOptions, ParseOptions, RegexFlavor};
use pomsky::repetition::{Greedy, Repetition, RepetitionError, RepetitionKind};
use pomsky::rule::Rulex;

fn opts(flavor: RegexFlavor) -> CompileOptions {
    CompileOptions {
        parse_options: ParseOptions::default(),
        flavor,
    }
}

fn pcre(input: &str) -> String {
    Rulex::parse_and_compile(input, opts(RegexFlavor::Pcre)).unwrap()
}

#[test]
fn literal_pcre() {
    assert_eq!(pcre("'foo'"), "foo");
}

#[test]
fn alternation_of_literals() {
    assert_eq!(pcre("'a' | 'b' | 'c'"), "a|b|c");
}

#[test]
fn repetition_range() {
    assert_eq!(pcre("'a'{2,5}"), "a{2,5}");
}

#[test]
fn repetition_zero_one() {
    assert_eq!(pcre("'a'{0,1}"), "a?");
}

#[test]
fn repetition_one_inf() {
    assert_eq!(pcre("'a'{1,}"), "a+");
}

#[test]
fn repetition_zero_inf() {
    assert_eq!(pcre("'a'{0,}"), "a*");
}

#[test]
fn repetition_fixed() {
    assert_eq!(pcre("'a'{3}"), "a{3}");
}

#[test]
fn repetition_upper_only() {
    assert_eq!(pcre("'a'{0,5}"), "a{,5}");
}

#[test]
fn repetition_lower_open() {
    assert_eq!(pcre("'a'{2,}"), "a{2,}");
}

#[test]
fn repetition_star_symbol() {
    assert_eq!(pcre("'a'*"), "a*");
    assert_eq!(pcre("'a'+"), "a+");
    assert_eq!(pcre("'a'?"), "a?");
}

#[test]
fn repetition_lazy() {
    assert_eq!(pcre("'a'* lazy"), "a*?");
    assert_eq!(pcre("'a'{2,5} lazy"), "a{2,5}?");
}

#[test]
fn repetition_multichar_literal_needs_parens() {
    assert_eq!(pcre("'ab'+"), "(?:ab)+");
}

#[test]
fn repetition_single_metachar_literal() {
    assert_eq!(pcre("'.'{2}"), "\\.{2}");
}

#[test]
fn literal_escaping() {
    assert_eq!(pcre("'1.5'"), "1\\.5");
    assert_eq!(pcre("'(a)'"), "\\(a\\)");
}

#[test]
fn sequence_is_transparent() {
    assert_eq!(pcre("'a' 'b'"), "ab");
}

#[test]
fn boundaries() {
    assert_eq!(pcre("<% 'a' %>"), "^a$");
    assert_eq!(pcre("%"), "\\b");
    assert_eq!(pcre("!%"), "\\B");
    assert_eq!(pcre("Start 'x' End"), "^x$");
}

#[test]
fn groups() {
    assert_eq!(pcre("('a')"), "a");
    assert_eq!(pcre(":('a')"), "(a)");
    assert_eq!(pcre(":name('a')"), "(?<name>a)");
    assert_eq!(
        Rulex::parse_and_compile(":name('a')", opts(RegexFlavor::Python)).unwrap(),
        "(?P<name>a)"
    );
}

#[test]
fn group_alternation_under_repetition() {
    assert_eq!(pcre("('a' | 'b')+"), "(?:a|b)+");
}

#[test]
fn char_classes() {
    assert_eq!(pcre("['a']"), "[a]");
    assert_eq!(pcre("['a'-'z']"), "[a-z]");
    assert_eq!(pcre("[w]"), "[\\w]");
    assert_eq!(pcre("[word]"), "[\\w]");
    assert_eq!(pcre("!['a']"), "[^a]");
    assert_eq!(pcre("['a' 'c']"), "[ac]");
    assert_eq!(pcre("['abc']"), "[abc]");
}

#[test]
fn char_class_escaping() {
    assert_eq!(pcre("['-']"), "[\\-]");
    assert_eq!(pcre("['^']"), "[\\^]");
}

#[test]
fn code_points() {
    assert_eq!(pcre("U+41"), "A");
    assert_eq!(pcre("[U+41-U+5A]"), "[A-Z]");
}

#[test]
fn alternation_collapses_plain_classes() {
    assert_eq!(pcre("['a'] | ['b']"), "[ab]");
}

#[test]
fn alternation_with_negated_class_does_not_collapse() {
    assert_eq!(pcre("['a'] | !['b']"), "[a]|[^b]");
}

#[test]
fn grapheme_pcre() {
    assert_eq!(pcre("Grapheme"), "\\X");
}

#[test]
fn grapheme_unsupported_in_javascript() {
    let err = Rulex::parse_and_compile("Grapheme", opts(RegexFlavor::JavaScript)).unwrap_err();
    assert!(matches!(
        err.kind,
        CompileErrorKind::Unsupported(Feature::Grapheme, RegexFlavor::JavaScript)
    ));
    assert_eq!(err.span.start, 0);
    assert_eq!(err.span.end, 8);
}

#[test]
fn comments_are_skipped() {
    assert_eq!(pcre("'a' # a literal\n'b'"), "ab");
}

#[test]
fn double_quoted_strings_unescape() {
    assert_eq!(pcre("\"a\\\"b\""), "a\"b");
    assert_eq!(pcre("\"a\\\\b\""), "a\\\\b");
}

#[test]
fn repetition_kind_constructors() {
    assert_eq!(RepetitionKind::zero_inf().get_range(), (0, None));
    assert_eq!(RepetitionKind::one_inf().get_range(), (1, None));
    assert_eq!(RepetitionKind::zero_one().get_range(), (0, Some(1)));
    assert_eq!(RepetitionKind::fixed(7).get_range(), (7, Some(7)));
}

#[test]
fn repetition_try_from_rejects_descending_bounds() {
    assert_eq!(
        RepetitionKind::try_from((4, Some(2))),
        Err(RepetitionError::NotAscending)
    );
    let ok = RepetitionKind::try_from((2, Some(4))).unwrap();
    assert_eq!(ok.get_range(), (2, Some(4)));
    let open = RepetitionKind::try_from((9, None)).unwrap();
    assert_eq!(open.get_range(), (9, None));
}

#[test]
fn negate_boundaries() {
    let w = Rulex::Boundary(Boundary::Word).negate();
    assert!(matches!(w, Some(Rulex::Boundary(Boundary::NotWord))));
    let nw = Rulex::Boundary(Boundary::NotWord).negate();
    assert!(matches!(nw, Some(Rulex::Boundary(Boundary::Word))));
    assert!(Rulex::Boundary(Boundary::Start).negate().is_none());
    assert!(Rulex::Boundary(Boundary::End).negate().is_none());
}

#[test]
fn negate_char_class() {
    let cc = CharClass {
        negated: false,
        items: vec![ClassItem::Char('a')],
    };
    match Rulex::CharClass(cc).negate() {
        Some(Rulex::CharClass(c)) => assert!(c.negated),
        _ => panic!("expected a negated char class"),
    }
    let lit = Rulex::Literal(String::from("a"));
    assert!(lit.negate().is_none());
}

#[test]
fn compile_built_ast() {
    let rep = Repetition::new(
        Rulex::Literal(String::from("ab")),
        RepetitionKind::zero_inf(),
        Greedy::Yes,
    );
    let rule = Rulex::Repetition(Box::new(rep));
    assert_eq!(rule.compile(opts(RegexFlavor::Pcre)).unwrap(), "(?:ab)*");
}

#[test]
fn big_repetition_bounds() {
    assert_eq!(pcre("'a'{10,4294967295}"), "a{10,4294967295}");
}

#[test]
fn blank_input_compiles_to_empty() {
    assert_eq!(pcre(""), "");
    assert_eq!(pcre("  # only a comment"), "");
}
