use pomsky::span::Span;
use pomsky::token::{ParseErrorMsg, Token};
use pomsky::tokenize::{find_unescaped_quote, parse_backslash, parse_special_group, tokenize};

fn kinds(input: &str) -> Vec<Token> {
    tokenize(input).into_iter().map(|(t, _)| t).collect()
}

#[test]
fn simple_tokens() {
    assert_eq!(
        kinds("( ) { } , ; : = | - . ! * + ? [ ]"),
        vec![
            Token::OpenParen,
            Token::CloseParen,
            Token::OpenBrace,
            Token::CloseBrace,
            Token::Comma,
            Token::Semicolon,
            Token::Colon,
            Token::Equals,
            Token::Pipe,
            Token::Dash,
            Token::Dot,
            Token::Not,
            Token::Star,
            Token::Plus,
            Token::QuestionMark,
            Token::OpenBracket,
            Token::CloseBracket,
        ]
    );
}

#[test]
fn two_char_tokens_win_over_single() {
    assert_eq!(
        kinds("<% %> >> << :: %"),
        vec![
            Token::BStart,
            Token::BEnd,
            Token::LookAhead,
            Token::LookBehind,
            Token::Backref,
            Token::BWord,
        ]
    );
}

#[test]
fn valued_tokens() {
    assert_eq!(
        kinds("hello _x1 42 U+1F U"),
        vec![
            Token::Identifier,
            Token::Identifier,
            Token::Number,
            Token::CodePoint,
            Token::Identifier,
        ]
    );
}

#[test]
fn spans_are_contiguous_up_to_trivia() {
    let toks = tokenize("a # comment\n b");
    assert_eq!(toks.len(), 2);
    assert_eq!((toks[0].1.start, toks[0].1.end), (0, 1));
    assert_eq!((toks[1].1.start, toks[1].1.end), (13, 14));
    assert_eq!(toks[0].0, Token::Identifier);
    assert_eq!(toks[1].0, Token::Identifier);
}

#[test]
fn string_tokens() {
    let toks = tokenize("'ab' \"c\\\"d\"");
    assert_eq!(toks.len(), 2);
    assert_eq!(toks[0].0, Token::String);
    assert_eq!((toks[0].1.start, toks[0].1.end), (0, 4));
    assert_eq!(toks[1].0, Token::String);
    assert_eq!((toks[1].1.start, toks[1].1.end), (5, 11));
}

#[test]
fn unclosed_string_token() {
    let toks = tokenize("'abc");
    assert_eq!(toks.len(), 1);
    assert_eq!(toks[0].0, Token::ErrorMsg(ParseErrorMsg::UnclosedString));
    assert_eq!((toks[0].1.start, toks[0].1.end), (0, 4));
}

#[test]
fn foreign_syntax_hints() {
    assert_eq!(kinds("^"), vec![Token::ErrorMsg(ParseErrorMsg::Caret)]);
    assert_eq!(kinds("$"), vec![Token::ErrorMsg(ParseErrorMsg::Dollar)]);
    assert_eq!(
        kinds("(?:"),
        vec![Token::ErrorMsg(ParseErrorMsg::GroupNonCapturing)]
    );
    assert_eq!(
        kinds("(?="),
        vec![Token::ErrorMsg(ParseErrorMsg::GroupLookahead)]
    );
    assert_eq!(
        kinds("(?<=x"),
        vec![
            Token::ErrorMsg(ParseErrorMsg::GroupLookbehind),
            Token::Identifier
        ]
    );
    assert_eq!(
        kinds("(?<name>"),
        vec![Token::ErrorMsg(ParseErrorMsg::GroupNamedCapture)]
    );
    assert_eq!(
        kinds("\\b"),
        vec![Token::ErrorMsg(ParseErrorMsg::Backslash)]
    );
    assert_eq!(
        kinds("\\p{L}"),
        vec![Token::ErrorMsg(ParseErrorMsg::BackslashProperty)]
    );
}

#[test]
fn special_group_matcher() {
    assert_eq!(
        parse_special_group(b"(?:abc", 0),
        Some((3, ParseErrorMsg::GroupNonCapturing))
    );
    assert_eq!(
        parse_special_group(b"(?P=name)x", 0),
        Some((9, ParseErrorMsg::GroupPcreBackreference))
    );
    assert_eq!(
        parse_special_group(b"(?#note)x", 0),
        Some((8, ParseErrorMsg::GroupComment))
    );
    assert_eq!(
        parse_special_group(b"(?xyz", 0),
        Some((2, ParseErrorMsg::GroupOther))
    );
    assert_eq!(parse_special_group(b"(abc", 0), None);
}

#[test]
fn backslash_matcher() {
    assert_eq!(
        parse_backslash(b"\\uFFFF", 0),
        Some((6, ParseErrorMsg::BackslashU4))
    );
    assert_eq!(
        parse_backslash(b"\\x4A", 0),
        Some((4, ParseErrorMsg::BackslashX2))
    );
    assert_eq!(
        parse_backslash(b"\\u{1F60}", 0),
        Some((8, ParseErrorMsg::BackslashUnicode))
    );
    assert_eq!(
        parse_backslash(b"\\k<grp>", 0),
        Some((7, ParseErrorMsg::BackslashGK))
    );
    assert_eq!(
        parse_backslash(b"\\pL", 0),
        Some((3, ParseErrorMsg::BackslashProperty))
    );
    assert_eq!(
        parse_backslash(b"\\w", 0),
        Some((2, ParseErrorMsg::Backslash))
    );
    assert_eq!(parse_backslash(b"\\", 0), None);
}

#[test]
fn unescaped_quote_search() {
    assert_eq!(find_unescaped_quote(b"ab\\\"cd\"x", 0), Some(6));
    assert_eq!(find_unescaped_quote(b"ab\\\"cd", 0), None);
    assert_eq!(find_unescaped_quote(b"\"", 0), Some(0));
}

#[test]
fn span_operations() {
    let s = Span::new(2, 5);
    assert_eq!(s.range(), Some((2, 5)));
    assert!(Span::empty().range().is_none());
    let joined = s.join(Span::new(4, 9));
    assert_eq!((joined.start, joined.end), (2, 9));
    let j2 = Span::empty().join(s);
    assert_eq!((j2.start, j2.end), (2, 5));
}

#[test]
fn fallback_error_token() {
    let toks = tokenize("@");
    assert_eq!(toks.len(), 1);
    assert_eq!(toks[0].0, Token::Error);
    assert_eq!((toks[0].1.start, toks[0].1.end), (0, 1));
}

#[test]
fn foreign_token_spans_are_exact() {
    let toks = tokenize("(?:abc");
    assert_eq!(toks[0].0, Token::ErrorMsg(ParseErrorMsg::GroupNonCapturing));
    assert_eq!((toks[0].1.start, toks[0].1.end), (0, 3));
    let toks = tokenize("\\uFFFF x");
    assert_eq!(toks[0].0, Token::ErrorMsg(ParseErrorMsg::BackslashU4));
    assert_eq!((toks[0].1.start, toks[0].1.end), (0, 6));
    let toks = tokenize("(?P<name>)");
    assert_eq!(toks[0].0, Token::ErrorMsg(ParseErrorMsg::GroupNamedCapture));
    assert_eq!((toks[0].1.start, toks[0].1.end), (0, 9));
    assert_eq!(toks[1].0, Token::CloseParen);
    let toks = tokenize("\\q'x'");
    assert_eq!(toks[0].0, Token::ErrorMsg(ParseErrorMsg::Backslash));
    assert_eq!((toks[0].1.start, toks[0].1.end), (0, 2));
    assert_eq!(toks[1].0, Token::String);
}
