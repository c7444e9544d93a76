use pomsky::diagnostics::{
    get_backslash_gk_help, get_backslash_help, get_backslash_help_u4, get_backslash_help_unicode,
    get_backslash_help_x2, get_backslash_property_help, get_named_capture_help,
    get_parse_error_msg_help, get_pcre_backreference_help, Diagnostic, Severity,
};
use pomsky::error::{CharClassError, CharStringError, CompileError, CompileErrorKind, ParseError,
    ParseErrorKind};
use pomsky::options::{CompileOptions, ParseOptions, RegexFlavor};
use pomsky::repetition::RepetitionError;
use pomsky::rule::Rulex;
use pomsky::span::Span;
use pomsky::token::ParseErrorMsg;
use pomsky::warning::{Warning, WarningKind};

fn parse_err(input: &str) -> ParseError {
    Rulex::parse(input, ParseOptions::default()).unwrap_err()
}

#[test]
fn caret_diagnostic() {
    let err = parse_err("^");
    assert!(matches!(
        err.kind,
        ParseErrorKind::LexErrorWithMessage(ParseErrorMsg::Caret)
    ));
    let d = Diagnostic::from_parse_error(err, "^");
    assert!(matches!(d.severity, Severity::Error));
    assert_eq!(
        d.help.as_deref(),
        Some("Use `Start` to match the start of the string")
    );
}

#[test]
fn backslash_b_diagnostic() {
    let src = "\\b";
    let err = parse_err(src);
    assert!(matches!(
        err.kind,
        ParseErrorKind::LexErrorWithMessage(ParseErrorMsg::Backslash)
    ));
    let d = Diagnostic::from_parse_error(err, src);
    assert_eq!(
        d.help.as_deref(),
        Some("Replace `\\b` with `%` to match a word boundary")
    );
}

#[test]
fn descending_range_diagnostic() {
    let src = "[z-a]";
    let err = parse_err(src);
    assert!(matches!(
        err.kind,
        ParseErrorKind::CharClass(CharClassError::DescendingRange('z', 'a'))
    ));
    let d = Diagnostic::from_parse_error(err, src);
    assert_eq!(d.help.as_deref(), Some("Switch the characters: a-z"));
    assert_eq!(d.msg, "Character range must be in increasing order");
}

#[test]
fn invalid_escape_narrows_span() {
    let src = "\"\\q\"";
    let err = parse_err(src);
    assert!(matches!(err.kind, ParseErrorKind::InvalidEscapeInStringAt(2)));
    assert_eq!((err.span.start, err.span.end), (0, 4));
    let d = Diagnostic::from_parse_error(err, src);
    assert_eq!((d.span.start, d.span.end), (1, 3));
    assert!(d.help.is_none());
}

#[test]
fn empty_class_diagnostic() {
    let err = parse_err("[]");
    assert!(matches!(
        err.kind,
        ParseErrorKind::CharClass(CharClassError::Empty)
    ));
    let d = Diagnostic::from_parse_error(err, "[]");
    assert_eq!(
        d.help.as_deref(),
        Some("You can use `![s !s]` to match nothing, and `C` to match anything")
    );
}

#[test]
fn unknown_named_class() {
    let err = parse_err("[foo]");
    match err.kind {
        ParseErrorKind::CharClass(CharClassError::UnknownNamedClass { found, similar }) => {
            assert_eq!(found, "foo");
            assert!(similar.is_none());
        }
        _ => panic!("expected an unknown named class error"),
    }
}

#[test]
fn similar_name_suggestion() {
    let err = ParseError {
        kind: ParseErrorKind::CharClass(CharClassError::UnknownNamedClass {
            found: String::from("dgit"),
            similar: Some(String::from("digit")),
        }),
        span: Span::new(1, 5),
    };
    let d = Diagnostic::from_parse_error(err, "[dgit]");
    assert_eq!(d.help.as_deref(), Some("Perhaps you meant `digit`"));
}

#[test]
fn too_many_code_points_digit_help() {
    let src = "['10'-'19']";
    let err = parse_err(src);
    assert!(matches!(
        err.kind,
        ParseErrorKind::CharString(CharStringError::TooManyCodePoints)
    ));
    let d = Diagnostic::from_parse_error(err, src);
    assert_eq!(
        d.help.as_deref(),
        Some("Try a `range` expression instead:\nhttps://pomsky-lang.org/docs/language-tour/ranges/")
    );
}

#[test]
fn question_mark_after_repetition() {
    let src = "'a'*?";
    let err = parse_err(src);
    assert!(matches!(
        err.kind,
        ParseErrorKind::Repetition(RepetitionError::QuestionMarkAfterRepetition)
    ));
    let d = Diagnostic::from_parse_error(err, src);
    assert_eq!(
        d.help.as_deref(),
        Some(
            "If you meant to make the repetition lazy, append the `lazy` keyword instead.\nIf this is intentional, consider adding parentheses around the inner repetition."
        )
    );
}

#[test]
fn not_ascending_bounds() {
    let err = parse_err("'a'{4,2}");
    assert!(matches!(
        err.kind,
        ParseErrorKind::Repetition(RepetitionError::NotAscending)
    ));
}

#[test]
fn recursion_limit() {
    let mut src = String::new();
    for _ in 0..200 {
        src.push('(');
    }
    src.push_str("'a'");
    for _ in 0..200 {
        src.push(')');
    }
    let err = parse_err(&src);
    assert!(matches!(err.kind, ParseErrorKind::RecursionLimit));
    let d = Diagnostic::from_parse_error(err, &src);
    assert_eq!(
        d.help.as_deref(),
        Some(
            "Try a less nested expression. It helps to refactor it using variables:\nhttps://pomsky-lang.org/docs/language-tour/variables/"
        )
    );
}

#[test]
fn unclosed_string() {
    let err = parse_err("'abc");
    assert!(matches!(
        err.kind,
        ParseErrorKind::LexErrorWithMessage(ParseErrorMsg::UnclosedString)
    ));
    let d = Diagnostic::from_parse_error(err, "'abc");
    assert!(d.help.is_none());
    assert_eq!(d.msg, "This string literal doesn't have a closing quote");
}

#[test]
fn dot_is_deprecated() {
    let err = parse_err(".");
    assert!(matches!(err.kind, ParseErrorKind::Dot));
    let d = Diagnostic::from_parse_error(err, ".");
    assert_eq!(
        d.help.as_deref(),
        Some("The dot is deprecated. Use `Codepoint` to match any code point, or `![n]` to exclude line breaks")
    );
}

#[test]
fn multiple_flattens_recursively() {
    let leaf = |k: usize| ParseError {
        kind: ParseErrorKind::Dot,
        span: Span::new(k, k + 1),
    };
    let inner = ParseError {
        kind: ParseErrorKind::Multiple(vec![leaf(0), leaf(1)]),
        span: Span::empty(),
    };
    let outer = ParseError {
        kind: ParseErrorKind::Multiple(vec![inner, leaf(2)]),
        span: Span::empty(),
    };
    let diags = Diagnostic::from_parse_errors(outer, "...");
    assert_eq!(diags.len(), 3);
    assert_eq!((diags[0].span.start, diags[0].span.end), (0, 1));
    assert_eq!((diags[2].span.start, diags[2].span.end), (2, 3));
}

#[test]
fn single_error_flattens_to_one() {
    let err = ParseError {
        kind: ParseErrorKind::Dot,
        span: Span::new(0, 1),
    };
    let diags = Diagnostic::from_parse_errors(err, ".");
    assert_eq!(diags.len(), 1);
}

#[test]
fn empty_span_covers_whole_source() {
    let err = ParseError {
        kind: ParseErrorKind::Dot,
        span: Span::empty(),
    };
    let d = Diagnostic::from_parse_error(err, "abcd");
    assert_eq!((d.span.start, d.span.end), (0, 4));
}

#[test]
fn warning_diagnostic() {
    let w = Warning {
        kind: WarningKind::Deprecation(String::from("`[.]`")),
        span: Span::new(0, 3),
    };
    let d = Diagnostic::from_warning(w, "[.] x");
    assert!(matches!(d.severity, Severity::Warning));
    assert_eq!(d.msg, "`[.]` is deprecated");
    assert!(d.help.is_none());
    assert_eq!((d.span.start, d.span.end), (0, 3));
}

#[test]
fn ad_hoc_diagnostic() {
    let d = Diagnostic::ad_hoc(
        Severity::Warning,
        None,
        String::from("something looks off"),
        Some(String::from("look closer")),
    );
    assert!(d.source_code.is_none());
    assert!(d.span.range().is_none());
    assert_eq!(d.msg, "something looks off");
    assert_eq!(d.help.as_deref(), Some("look closer"));
}

#[test]
fn named_capture_help() {
    assert_eq!(
        get_named_capture_help(b"(?P<name>").as_deref(),
        Some("Named capturing groups use the `:name(...)` syntax. Try `:name(...)` instead")
    );
    assert_eq!(
        get_named_capture_help(b"(?<a-b>").as_deref(),
        Some("Balancing groups are not supported")
    );
}

#[test]
fn pcre_backreference_help() {
    assert_eq!(
        get_pcre_backreference_help(b"(?P=name)").as_deref(),
        Some("Backreferences use the `::name` syntax. Try `::name` instead")
    );
}

#[test]
fn backslash_helps() {
    assert_eq!(
        get_backslash_help(b"\\A").as_deref(),
        Some("Replace `\\A` with `Start` to match the start of the string")
    );
    assert_eq!(
        get_backslash_help(b"\\n").as_deref(),
        Some("Replace `\\n` with `[n]`")
    );
    assert_eq!(
        get_backslash_help(b"\\3").as_deref(),
        Some(
            "If this is a backreference, replace it with `::3`.\nIf this is an octal escape, replace it with `U+03`."
        )
    );
    assert_eq!(
        get_backslash_help(b"\\9").as_deref(),
        Some("Replace `\\9` with `::9`")
    );
    assert_eq!(
        get_backslash_help(b"\\0").as_deref(),
        Some("Replace `\\0` with `U+00`")
    );
    assert!(get_backslash_help(b"x").is_none());
}

#[test]
fn backslash_hex_helps() {
    assert_eq!(
        get_backslash_help_u4(b"\\uFFFF").as_deref(),
        Some("Try `U+FFFF` instead")
    );
    assert_eq!(
        get_backslash_help_x2(b"\\xFF").as_deref(),
        Some("Try `U+FF` instead")
    );
    assert_eq!(
        get_backslash_help_unicode(b"\\u{10FFFF}").as_deref(),
        Some("Try `U+10FFFF` instead")
    );
}

#[test]
fn backslash_gk_helps() {
    assert_eq!(
        get_backslash_gk_help(b"\\k<name>").as_deref(),
        Some("Replace `\\k<name>` with `::name`")
    );
    assert_eq!(
        get_backslash_gk_help(b"\\g0").as_deref(),
        Some("Recursion is currently not supported")
    );
}

#[test]
fn backslash_property_helps() {
    assert_eq!(
        get_backslash_property_help(b"\\p{Letter}").as_deref(),
        Some("Replace `\\p{Letter}` with `[Letter]`")
    );
    assert_eq!(
        get_backslash_property_help(b"\\P{L}").as_deref(),
        Some("Replace `\\P{L}` with `[!L]`")
    );
    assert_eq!(
        get_backslash_property_help(b"\\p{^L}").as_deref(),
        Some("Replace `\\p{^L}` with `[!L]`")
    );
    assert_eq!(
        get_backslash_property_help(b"\\p{Some-Name}").as_deref(),
        Some("Replace `\\p{Some-Name}` with `[Some_Name]`")
    );
}

#[test]
fn dollar_hint_help() {
    assert_eq!(
        get_parse_error_msg_help(b"$", ParseErrorMsg::Dollar).as_deref(),
        Some("Use `End` to match the end of the string")
    );
    assert!(get_parse_error_msg_help(b"(?>", ParseErrorMsg::GroupAtomic).is_none());
}

#[test]
fn caret_in_class_hint() {
    let src = "[^a]";
    let err = parse_err(src);
    assert!(matches!(
        err.kind,
        ParseErrorKind::LexErrorWithMessage(ParseErrorMsg::CaretInGroup)
    ));
    let d = Diagnostic::from_parse_error(err, src);
    assert_eq!(
        d.help.as_deref(),
        Some("Use `![...]` to negate a character class")
    );
}

#[test]
fn unsupported_feature_diagnostic() {
    let opts = CompileOptions {
        parse_options: ParseOptions::default(),
        flavor: RegexFlavor::JavaScript,
    };
    let err = Rulex::parse_and_compile("Grapheme", opts).unwrap_err();
    let d = Diagnostic::from_compile_error(err, "Grapheme");
    assert_eq!(
        d.msg,
        "Unsupported feature `Grapheme` in the JavaScript regex flavor"
    );
    assert!(d.help.is_none());
    assert_eq!((d.span.start, d.span.end), (0, 8));
}

#[test]
fn compile_errors_flatten_parse_errors() {
    let leaf = |k: usize| ParseError {
        kind: ParseErrorKind::Dot,
        span: Span::new(k, k + 1),
    };
    let err = CompileError {
        kind: CompileErrorKind::ParseError(ParseErrorKind::Multiple(vec![leaf(0), leaf(1)])),
        span: Span::empty(),
    };
    let diags = Diagnostic::from_compile_errors(err, "..");
    assert_eq!(diags.len(), 2);
}

#[test]
fn invalid_code_point() {
    let err = parse_err("U+110000");
    assert!(matches!(err.kind, ParseErrorKind::InvalidCodePoint));
}

#[test]
fn number_too_large() {
    let err = parse_err("'a'{99999999999}");
    assert!(matches!(err.kind, ParseErrorKind::NumberTooLarge));
}

#[test]
fn unknown_variable_diagnostic() {
    let err = CompileError {
        kind: CompileErrorKind::UnknownVariable {
            found: String::from("foo"),
            similar: Some(String::from("food")),
        },
        span: Span::new(0, 3),
    };
    let d = Diagnostic::from_compile_error(err, "foo");
    assert_eq!(d.msg, "Variable `foo` doesn't exist");
    assert_eq!(d.help.as_deref(), Some("Perhaps you meant `food`"));
}
