use vstd::prelude::*;
use vstd::string::StringSliceAdditionalSpecFns;

use crate::alternation::{all_plain_char_classes, union_items, Alternation};
use crate::boundary::Boundary;
use crate::char_class::{CharClass, ClassItem};
use crate::error::{CharClassError, CharStringError, ParseError, ParseErrorKind};
use crate::grapheme::Grapheme;
use crate::group::{Capture, Group};
use crate::options::ParseOptions;
use crate::repetition::{Greedy, Repetition, RepetitionError, RepetitionKind};
use crate::rule::{seq_wf, Rulex};
use crate::span::Span;
use crate::strutil::{char_from_u32, string_from_utf8};
use crate::token::{ParseErrorMsg, Token};
use crate::tokenize::tokenize;

verus! {

/// Pushes a well-formed item, keeping every item well-formed.
fn push_wf_item(items: &mut Vec<ClassItem>, item: ClassItem)
    requires
        forall|j: int| 0 <= j < old(items)@.len() ==> (#[trigger] old(items)@[j]).wf(),
        item.wf(),
    ensures
        final (items)@ == old(items)@.push(item),
        forall|j: int| 0 <= j < final (items)@.len() ==> (#[trigger] final (items)@[j]).wf(),
{
    let ghost gx = item;
    let ghost before = items@;
    items.push(item);
    proof {
        assert forall|j: int| 0 <= j < items@.len() implies (#[trigger] items@[j]).wf() by {
            if j < before.len() {
                assert(before.push(gx)[j] == before[j]);
            } else {
                assert(before.push(gx)[j] == gx);
            }
        }
    }
}

/// A sequence of well-formed rules is well-formed.
proof fn lemma_seq_wf_all(rules: Seq<Rulex>)
    ensures
        seq_wf(rules) <==> (forall|i: int| 0 <= i < rules.len() ==> (#[trigger] rules[i]).wf()),
    decreases rules.len(),
{
    if rules.len() > 0 {
        lemma_seq_wf_all(rules.drop_last());
        assert(forall|i: int|
            0 <= i < rules.len() - 1 ==> rules.drop_last()[i] == #[trigger] rules[i]);
    }
}

/// The union of the items of well-formed character classes holds only
/// well-formed items.
proof fn lemma_union_items_wf(rules: Seq<Rulex>)
    requires
        all_plain_char_classes(rules),
        forall|i: int| 0 <= i < rules.len() ==> (#[trigger] rules[i]).wf(),
    ensures
        forall|j: int|
            0 <= j < union_items(rules).len() ==> (#[trigger] union_items(rules)[j]).wf(),
    decreases rules.len(),
{
    if rules.len() > 0 {
        assert(forall|i: int|
            0 <= i < rules.len() - 1 ==> rules.drop_last()[i] == #[trigger] rules[i]);
        lemma_union_items_wf(rules.drop_last());
        let left = union_items(rules.drop_last());
        let cc = rules.last()->CharClass_0;
        assert(rules[rules.len() - 1] is CharClass);
        assert(rules.last().wf());
        assert(cc.wf());
        assert forall|j: int|
            0 <= j < union_items(rules).len() implies (#[trigger] union_items(rules)[j]).wf() by {
            if j < left.len() {
                assert(union_items(rules)[j] == left[j]);
            } else {
                assert(union_items(rules)[j] == cc.items@[j - left.len()]);
            }
        }
    }
}

/// True when every token span ends within the source of `n` bytes.
pub open spec fn toks_bounded(toks: Seq<(Token, Span)>, n: int) -> bool {
    forall|i: int| 0 <= i < toks.len() ==> (#[trigger] toks[i]).1.end <= n
}

/// True for a token that a successful parse can consume: everything
/// except the lexer's foreign-syntax hints and unknown-character
/// tokens, which always turn into errors.
pub open spec fn clean_token(t: Token) -> bool {
    !(t is ErrorMsg) && !(t is Error)
}

/// True when every token in `[a, b)` is one a successful parse can
/// consume.
pub open spec fn consumed_clean(toks: Seq<(Token, Span)>, a: int, b: int) -> bool {
    forall|i: int| a <= i < b ==> clean_token((#[trigger] toks[i]).0)
}

/// True when an emitted parse error can be handed straight to the
/// diagnostic engine: its span and escape offset satisfy the engine's
/// reporting conditions, and it is a single error, never a collection.
pub open spec fn err_wf(e: ParseError, n: int) -> bool {
    crate::diagnostics::parse_error_reqs(e.kind, e.span, n) && !(e.kind is Multiple)
}

/// The bytes of a string body with its backslash escapes resolved:
/// `\"` and `\\` stand for `"` and `\`.
pub open spec fn unescape(bytes: Seq<u8>, a: int, b: int) -> Seq<u8>
    decreases b - a,
{
    if a < 0 || b > bytes.len() || a >= b {
        Seq::empty()
    } else if bytes[a] == 92 && a + 1 < b && (bytes[a + 1] == 34 || bytes[a + 1] == 92) {
        seq![bytes[a + 1]] + unescape(bytes, a + 2, b)
    } else {
        seq![bytes[a]] + unescape(bytes, a + 1, b)
    }
}

/// True when every backslash in the string body starts a supported
/// escape.
pub open spec fn escapes_ok(bytes: Seq<u8>, a: int, b: int) -> bool
    decreases b - a,
{
    if a < 0 || b > bytes.len() || a >= b {
        true
    } else if bytes[a] == 92 {
        a + 1 < b && (bytes[a + 1] == 34 || bytes[a + 1] == 92) && escapes_ok(bytes, a + 2, b)
    } else {
        escapes_ok(bytes, a + 1, b)
    }
}

/// Resolves the escapes of a double-quoted string body `[a, b)`. On an
/// unsupported escape, the result is the absolute byte position of the
/// escaped character (or of the lone trailing backslash).
fn unescape_content(bytes: &[u8], a: usize, b: usize) -> (r: Result<Vec<u8>, usize>)
    requires
        a <= b <= bytes@.len(),
    ensures
        r is Ok <==> escapes_ok(bytes@, a as int, b as int),
        r is Ok ==> r->Ok_0@ == unescape(bytes@, a as int, b as int),
        r is Err ==> a < r->Err_0 <= b,
{
    let mut out: Vec<u8> = Vec::new();
    let mut i = a;
    while i < b
        invariant
            a <= i <= b <= bytes@.len(),
            escapes_ok(bytes@, a as int, b as int) == escapes_ok(bytes@, i as int, b as int),
            unescape(bytes@, a as int, b as int) == out@ + unescape(bytes@, i as int, b as int),
        decreases b - i,
    {
        let c = bytes[i];
        if c == 92 {
            if i + 1 < b && (bytes[i + 1] == 34 || bytes[i + 1] == 92) {
                out.push(bytes[i + 1]);
                i = i + 2;
            } else {
                if i + 1 < b {
                    return Err(i + 1);
                } else {
                    return Err(b);
                }
            }
        } else {
            out.push(c);
            i = i + 1;
        }
    }
    proof {
        assert(out@ =~= out@ + unescape(bytes@, i as int, b as int));
    }
    Ok(out)
}

pub(crate) fn bytes_range(bytes: &[u8], a: usize, b: usize) -> (r: Vec<u8>)
    requires
        a <= b <= bytes@.len(),
    ensures
        r@ == bytes@.subrange(a as int, b as int),
{
    let mut v: Vec<u8> = Vec::new();
    let mut i = a;
    while i < b
        invariant
            a <= i <= b <= bytes@.len(),
            v@ == bytes@.subrange(a as int, i as int),
        decreases b - i,
    {
        v.push(bytes[i]);
        proof {
            assert(v@ =~= bytes@.subrange(a as int, (i + 1) as int));
        }
        i = i + 1;
    }
    v
}

/// True when the bytes `[a, b)` equal the UTF-8 text of `kw`.
fn span_text_eq(bytes: &[u8], a: usize, b: usize, kw: &str) -> (r: bool)
    requires
        a <= b <= bytes@.len(),
    ensures
        r == (bytes@.subrange(a as int, b as int) == kw.spec_bytes()),
{
    let kb = kw.as_bytes();
    if b - a != kb.len() {
        proof {
            assert(bytes@.subrange(a as int, b as int).len() != kw.spec_bytes().len());
        }
        return false;
    }
    let mut i: usize = 0;
    while i < kb.len()
        invariant
            a <= b <= bytes@.len(),
            b - a == kb.len(),
            kb@ == kw.spec_bytes(),
            0 <= i <= kb@.len(),
            forall|j: int| 0 <= j < i ==> bytes@.subrange(a as int, b as int)[j] == kb@[j],
        decreases kb@.len() - i,
    {
        if bytes[a + i] != kb[i] {
            proof {
                assert(bytes@.subrange(a as int, b as int)[i as int] != kb@[i as int]);
            }
            return false;
        }
        i = i + 1;
    }
    proof {
        assert(bytes@.subrange(a as int, b as int) =~= kb@);
    }
    true
}

/// The value of the decimal digits in `[a, b)`.
pub open spec fn digits_val(bytes: Seq<u8>, a: int, b: int) -> int
    decreases b - a,
{
    if a < 0 || b > bytes.len() || b <= a {
        0
    } else {
        digits_val(bytes, a, b - 1) * 10 + (bytes[b - 1] - 48)
    }
}

/// The value of an all-digit range is never negative.
proof fn lemma_digits_val_nonneg(bytes: Seq<u8>, a: int, b: int)
    requires
        0 <= a <= b <= bytes.len(),
        forall|j: int| a <= j < b ==> crate::tokenize::is_digit_byte(#[trigger] bytes[j]),
    ensures
        digits_val(bytes, a, b) >= 0,
    decreases b - a,
{
    if b > a {
        lemma_digits_val_nonneg(bytes, a, b - 1);
    }
}

/// Extending an all-digit range never shrinks its value.
proof fn lemma_digits_val_mono(bytes: Seq<u8>, a: int, i: int, b: int)
    requires
        0 <= a <= i <= b <= bytes.len(),
        forall|j: int| a <= j < b ==> crate::tokenize::is_digit_byte(#[trigger] bytes[j]),
    ensures
        digits_val(bytes, a, b) >= digits_val(bytes, a, i),
    decreases b - i,
{
    if i < b {
        lemma_digits_val_mono(bytes, a, i, b - 1);
        lemma_digits_val_nonneg(bytes, a, b - 1);
    }
}

/// Parses the decimal number in `[a, b)`; fails exactly when the value
/// does not fit in a `u32`.
fn parse_u32_dec(bytes: &[u8], a: usize, b: usize) -> (r: Option<u32>)
    requires
        a <= b <= bytes@.len(),
        forall|j: int| a <= j < b ==> crate::tokenize::is_digit_byte(#[trigger] bytes@[j]),
    ensures
        r is Some ==> r->0 == digits_val(bytes@, a as int, b as int),
        r is None ==> digits_val(bytes@, a as int, b as int) > u32::MAX,
{
    let mut acc: u32 = 0;
    let mut i = a;
    while i < b
        invariant
            a <= i <= b <= bytes@.len(),
            acc == digits_val(bytes@, a as int, i as int),
            forall|j: int| a <= j < b ==> crate::tokenize::is_digit_byte(#[trigger] bytes@[j]),
        decreases b - i,
    {
        let d8 = bytes[i];
        let d = (d8 - 48) as u32;
        if acc > (u32::MAX - d) / 10 {
            proof {
                assert(digits_val(bytes@, a as int, i + 1) == acc * 10 + d);
                assert(acc * 10 + d > u32::MAX);
                lemma_digits_val_mono(bytes@, a as int, i + 1, b as int);
            }
            return None;
        }
        acc = acc * 10 + d;
        i = i + 1;
    }
    Some(acc)
}

/// The value of one hexadecimal digit byte.
pub open spec fn hex_digit_val(b: u8) -> int {
    if 48 <= b <= 57 {
        b - 48
    } else if 65 <= b <= 70 {
        b - 55
    } else {
        b - 87
    }
}

/// The value of the hexadecimal digits in `[a, b)`.
pub open spec fn hex_val(bytes: Seq<u8>, a: int, b: int) -> int
    decreases b - a,
{
    if a < 0 || b > bytes.len() || b <= a {
        0
    } else {
        hex_val(bytes, a, b - 1) * 16 + hex_digit_val(bytes[b - 1])
    }
}

/// The value of an all-hex range is never negative.
proof fn lemma_hex_val_nonneg(bytes: Seq<u8>, a: int, b: int)
    requires
        0 <= a <= b <= bytes.len(),
        forall|j: int| a <= j < b ==> crate::tokenize::is_hex_byte(#[trigger] bytes[j]),
    ensures
        hex_val(bytes, a, b) >= 0,
    decreases b - a,
{
    if b > a {
        lemma_hex_val_nonneg(bytes, a, b - 1);
    }
}

/// Extending an all-hex range never shrinks its value.
proof fn lemma_hex_val_mono(bytes: Seq<u8>, a: int, i: int, b: int)
    requires
        0 <= a <= i <= b <= bytes.len(),
        forall|j: int| a <= j < b ==> crate::tokenize::is_hex_byte(#[trigger] bytes[j]),
    ensures
        hex_val(bytes, a, b) >= hex_val(bytes, a, i),
    decreases b - i,
{
    if i < b {
        lemma_hex_val_mono(bytes, a, i, b - 1);
        lemma_hex_val_nonneg(bytes, a, b - 1);
    }
}

/// Parses the hexadecimal number in `[a, b)`; fails exactly when the
/// value exceeds the greatest code point.
fn parse_hex_codepoint(bytes: &[u8], a: usize, b: usize) -> (r: Option<u32>)
    requires
        a <= b <= bytes@.len(),
        forall|j: int| a <= j < b ==> crate::tokenize::is_hex_byte(#[trigger] bytes@[j]),
    ensures
        r is Some ==> r->0 == hex_val(bytes@, a as int, b as int) && r->0 <= 0x10FFFF,
        r is None ==> hex_val(bytes@, a as int, b as int) > 0x10FFFF,
{
    let mut acc: u32 = 0;
    let mut i = a;
    while i < b
        invariant
            a <= i <= b <= bytes@.len(),
            acc == hex_val(bytes@, a as int, i as int),
            acc <= 0x10FFFF,
            forall|j: int| a <= j < b ==> crate::tokenize::is_hex_byte(#[trigger] bytes@[j]),
        decreases b - i,
    {
        let d8 = bytes[i];
        let d: u32 = if 48 <= d8 && d8 <= 57 {
            (d8 - 48) as u32
        } else if 65 <= d8 && d8 <= 70 {
            (d8 - 55) as u32
        } else {
            (d8 - 87) as u32
        };
        if acc > (0x10FFFFu32 - d) / 16 {
            proof {
                assert(hex_val(bytes@, a as int, i + 1) == acc * 16 + d);
                assert(acc * 16 + d > 0x10FFFF);
                lemma_hex_val_mono(bytes@, a as int, i + 1, b as int);
            }
            return None;
        }
        acc = acc * 16 + d;
        i = i + 1;
    }
    Some(acc)
}

/// Decodes the content of a string token (single- or double-quoted)
/// into its text. For a double-quoted string, backslash escapes are
/// resolved; an unsupported escape yields `InvalidEscapeInStringAt`
/// with the byte offset of the escaped character inside the token.
fn parse_string_text(bytes: &[u8], span: Span) -> (r: Result<String, ParseError>)
    requires
        !span.spec_is_empty() ==> span.end <= bytes@.len(),
    ensures
        r is Err ==> r->Err_0.kind is InvalidEscapeInStringAt || r->Err_0.kind
            is LexErrorWithMessage || r->Err_0.kind is UnexpectedToken,
        r is Err ==> err_wf(r->Err_0, bytes@.len() as int),
{
    let n = bytes.len();
    if !(span.start < span.end && span.end <= n) {
        return Err(ParseErrorKind::UnexpectedToken.at(span));
    }
    if span.end - span.start < 2 || bytes[span.end - 1] != bytes[span.start] {
        // an unclosed string reaches the parser only as an error token,
        // but be safe against ill-formed spans
        return Err(
            ParseErrorKind::LexErrorWithMessage(ParseErrorMsg::UnclosedString).at(span),
        );
    }
    let content = if bytes[span.start] == 34 {
        match unescape_content(bytes, span.start + 1, span.end - 1) {
            Ok(v) => v,
            Err(k) => {
                return Err(ParseErrorKind::InvalidEscapeInStringAt(k - span.start).at(span));
            },
        }
    } else {
        bytes_range(bytes, span.start + 1, span.end - 1)
    };
    match string_from_utf8(content) {
        Some(s) => Ok(s),
        Option::None => Err(ParseErrorKind::UnexpectedToken.at(span)),
    }
}

fn str_chars(s: &str) -> (r: Vec<char>)
    ensures
        r@ == s@,
{
    let n = s.unicode_len();
    let mut v: Vec<char> = Vec::new();
    let mut i: usize = 0;
    while i < n
        invariant
            n == s@.len(),
            0 <= i <= n,
            v@ == s@.take(i as int),
        decreases n - i,
    {
        v.push(s.get_char(i));
        proof {
            assert(v@ =~= s@.take((i + 1) as int));
        }
        i = i + 1;
    }
    proof {
        assert(s@.take(n as int) =~= s@);
    }
    v
}

/// The canonical single-letter name of a known named class, or `None`
/// for an unknown name. The aliases `word`, `digit` and `space` map to
/// `w`, `d` and `s`.
fn known_class_name(bytes: &[u8], a: usize, b: usize) -> (r: Option<String>)
    requires
        a <= b <= bytes@.len(),
    ensures
        r is Some ==> r->0@.len() == 1,
{
    if b - a == 1 {
        let c = bytes[a];
        if c == 100 || c == 102 || c == 104 || c == 110 || c == 114 || c == 115 || c == 116
            || c == 118 || c == 119 {
            let mut s = String::new();
            crate::strutil::push_char(&mut s, c as char);
            return Some(s);
        }
        return None;
    }
    if span_text_eq(bytes, a, b, "word") {
        let mut s = String::new();
        crate::strutil::push_char(&mut s, 'w');
        return Some(s);
    }
    if span_text_eq(bytes, a, b, "digit") {
        let mut s = String::new();
        crate::strutil::push_char(&mut s, 'd');
        return Some(s);
    }
    if span_text_eq(bytes, a, b, "space") {
        let mut s = String::new();
        crate::strutil::push_char(&mut s, 's');
        return Some(s);
    }
    None
}

/// One primary inside a character class: the characters of a string, or
/// one code point.
fn parse_class_chars(bytes: &[u8], toks: &Vec<(Token, Span)>, pos: &mut usize) -> (r: Result<
    (Vec<char>, Span),
    ParseError,
>)
    requires
        *old(pos) < toks@.len(),
        toks_bounded(toks@, bytes@.len() as int),
    ensures
        *final (pos) == *old(pos) + 1,
        r is Ok ==> r->Ok_0.1 == toks@[*old(pos) as int].1,
        r is Ok ==> consumed_clean(toks@, *old(pos) as int, *final (pos) as int),
        r is Err ==> err_wf(r->Err_0, bytes@.len() as int),
{
    let (token, span) = toks[*pos];
    if *pos < toks.len() {
        *pos = *pos + 1;
    }
    match token {
        Token::String => {
            let text = parse_string_text(bytes, span)?;
            Ok((str_chars(text.as_str()), span))
        },
        Token::CodePoint => {
            let n = bytes.len();
            if !(span.start < span.end && span.end <= n && span.end - span.start >= 3) {
                return Err(ParseErrorKind::UnexpectedToken.at(span));
            }
            match parse_hex_codepoint_checked(bytes, span.start + 2, span.end, span) {
                Ok(c) => {
                    let mut v: Vec<char> = Vec::new();
                    v.push(c);
                    Ok((v, span))
                },
                Err(e) => Err(e),
            }
        },
        Token::Identifier => {
            let n = bytes.len();
            if !(span.start <= span.end && span.end <= n) {
                return Err(ParseErrorKind::UnexpectedToken.at(span));
            }
            match string_from_utf8(crate::parse::bytes_range(bytes, span.start, span.end)) {
                Some(text) => Ok((str_chars(text.as_str()), span)),
                Option::None => Err(ParseErrorKind::UnexpectedToken.at(span)),
            }
        },
        _ => Err(ParseErrorKind::UnexpectedToken.at(span)),
    }
}

/// Parses the hex digits of a `U+...` token and checks that they name a
/// Unicode scalar value.
fn parse_hex_codepoint_checked(bytes: &[u8], a: usize, b: usize, span: Span) -> (r: Result<
    char,
    ParseError,
>)
    requires
        a <= b <= bytes@.len(),
        !span.spec_is_empty() ==> span.end <= bytes@.len(),
    ensures
        r is Err ==> err_wf(r->Err_0, bytes@.len() as int),
{
    let mut ok = true;
    let mut i = a;
    while i < b
        invariant
            a <= i <= b <= bytes@.len(),
            ok ==> forall|j: int|
                a <= j < i ==> crate::tokenize::is_hex_byte(#[trigger] bytes@[j]),
        decreases b - i,
    {
        let d = bytes[i];
        if !((48 <= d && d <= 57) || (65 <= d && d <= 70) || (97 <= d && d <= 102)) {
            ok = false;
        }
        i = i + 1;
    }
    if !ok {
        return Err(ParseErrorKind::UnexpectedToken.at(span));
    }
    match parse_hex_codepoint(bytes, a, b) {
        Some(v) => match char_from_u32(v) {
            Some(c) => Ok(c),
            Option::None => Err(ParseErrorKind::InvalidCodePoint.at(span)),
        },
        Option::None => Err(ParseErrorKind::InvalidCodePoint.at(span)),
    }
}

/// Parses the items of a character class after its `[`, up to and
/// including the `]`. The resulting class is not negated and all its
/// ranges are ascending.
fn parse_char_class(bytes: &[u8], toks: &Vec<(Token, Span)>, pos: &mut usize, open_span: Span)
    -> (r: Result<CharClass, ParseError>)
    requires
        *old(pos) <= toks@.len(),
        toks_bounded(toks@, bytes@.len() as int),
        open_span.end <= bytes@.len(),
    ensures
        *old(pos) <= *final (pos) <= toks@.len(),
        r is Ok ==> r->Ok_0.wf() && r->Ok_0.negated == false,
        r is Ok ==> consumed_clean(toks@, *old(pos) as int, *final (pos) as int),
        r is Err ==> err_wf(r->Err_0, bytes@.len() as int),
    decreases toks@.len() - *old(pos),
{
    let mut items: Vec<ClassItem> = Vec::new();
    loop
        invariant
            *pos <= toks@.len(),
            *old(pos) <= *pos,
            toks_bounded(toks@, bytes@.len() as int),
            open_span.end <= bytes@.len(),
            consumed_clean(toks@, *old(pos) as int, *pos as int),
            forall|j: int| 0 <= j < items@.len() ==> (#[trigger] items@[j]).wf(),
        decreases toks@.len() - *pos,
    {
        if *pos >= toks.len() {
            return Err(ParseErrorKind::ExpectedToken(Token::CloseBracket).at(Span::empty()));
        }
        let (token, span) = toks[*pos];
        match token {
            Token::CloseBracket => {
                *pos = *pos + 1;
                if items.len() == 0 {
                    return Err(
                        ParseErrorKind::CharClass(CharClassError::Empty).at(
                            open_span.join(span),
                        ),
                    );
                }
                return Ok(CharClass { negated: false, items });
            },
            Token::String | Token::CodePoint | Token::Identifier => {
                let mut is_range = false;
                if *pos + 1 < toks.len() {
                    let (t2, _) = toks[*pos + 1];
                    if matches!(t2, Token::Dash) {
                        is_range = true;
                    }
                }
                if !is_range && matches!(token, Token::Identifier) {
                    *pos = *pos + 1;
                    let n = bytes.len();
                    if !(span.start <= span.end && span.end <= n) {
                        return Err(ParseErrorKind::UnexpectedToken.at(span));
                    }
                    match known_class_name(bytes, span.start, span.end) {
                        Some(name) => {
                            push_wf_item(&mut items, ClassItem::Named(name));
                        },
                        Option::None => {
                            let found = match string_from_utf8(
                                bytes_range(bytes, span.start, span.end),
                            ) {
                                Some(s) => s,
                                Option::None => String::new(),
                            };
                            return Err(
                                ParseErrorKind::CharClass(
                                    CharClassError::UnknownNamedClass { found, similar: None },
                                ).at(span),
                            );
                        },
                    }
                    continue ;
                }
                let (chars1, span1) = parse_class_chars(bytes, toks, pos)?;
                if is_range {
                    *pos = *pos + 1;  // the dash
                    if *pos >= toks.len() {
                        return Err(
                            ParseErrorKind::ExpectedToken(Token::String).at(Span::empty()),
                        );
                    }
                    let (chars2, span2) = parse_class_chars(bytes, toks, pos)?;
                    if chars1.len() != 1 {
                        return Err(
                            ParseErrorKind::CharString(CharStringError::TooManyCodePoints).at(
                                span1,
                            ),
                        );
                    }
                    if chars2.len() != 1 {
                        return Err(
                            ParseErrorKind::CharString(CharStringError::TooManyCodePoints).at(
                                span2,
                            ),
                        );
                    }
                    let lo = chars1[0];
                    let hi = chars2[0];
                    if lo > hi {
                        return Err(
                            ParseErrorKind::CharClass(CharClassError::DescendingRange(lo, hi)).at(
                                span1.join(span2),
                            ),
                        );
                    }
                    push_wf_item(&mut items, ClassItem::Range(lo, hi));
                } else {
                    let mut k: usize = 0;
                    while k < chars1.len()
                        invariant
                            forall|j: int|
                                0 <= j < items@.len() ==> (#[trigger] items@[j]).wf(),
                        decreases chars1@.len() - k,
                    {
                        push_wf_item(&mut items, ClassItem::Char(chars1[k]));
                        k = k + 1;
                    }
                }
            },
            Token::ErrorMsg(m) => {
                *pos = *pos + 1;
                let msg = if matches!(m, ParseErrorMsg::Caret) {
                    ParseErrorMsg::CaretInGroup
                } else {
                    m
                };
                return Err(ParseErrorKind::LexErrorWithMessage(msg).at(span));
            },
            _ => {
                *pos = *pos + 1;
                return Err(ParseErrorKind::UnexpectedToken.at(span));
            },
        }
    }
}

/// Parses one atom: a literal, character class, group, boundary,
/// `Grapheme`, or a negated atom.
fn parse_atom(bytes: &[u8], toks: &Vec<(Token, Span)>, pos: &mut usize, depth: u32) -> (r: Result<
    Rulex,
    ParseError,
>)
    requires
        *old(pos) <= toks@.len(),
        toks_bounded(toks@, bytes@.len() as int),
    ensures
        *old(pos) <= *final (pos) <= toks@.len(),
        r is Ok ==> r->Ok_0.wf() && *final (pos) > *old(pos),
        r is Ok ==> consumed_clean(toks@, *old(pos) as int, *final (pos) as int),
        r is Err ==> err_wf(r->Err_0, bytes@.len() as int),
    decreases depth, 0nat, toks@.len() - *old(pos),
{
    if *pos >= toks.len() {
        return Err(ParseErrorKind::UnexpectedToken.at(Span::empty()));
    }
    let (token, span) = toks[*pos];
    match token {
        Token::String => {
            *pos = *pos + 1;
            let text = parse_string_text(bytes, span)?;
            Ok(Rulex::Literal(text))
        },
        Token::CodePoint => {
            let (chars, _) = parse_class_chars(bytes, toks, pos)?;
            let mut s = String::new();
            if chars.len() == 1 {
                crate::strutil::push_char(&mut s, chars[0]);
            }
            Ok(Rulex::Literal(s))
        },
        Token::OpenBracket => {
            *pos = *pos + 1;
            let cc = parse_char_class(bytes, toks, pos, span)?;
            Ok(Rulex::CharClass(cc))
        },
        Token::OpenParen => {
            *pos = *pos + 1;
            if depth == 0 {
                return Err(ParseErrorKind::RecursionLimit.at(span));
            }
            let inner = parse_or(bytes, toks, pos, depth - 1)?;
            if *pos >= toks.len() {
                return Err(ParseErrorKind::ExpectedToken(Token::CloseParen).at(Span::empty()));
            }
            let (t2, span2) = toks[*pos];
            if !matches!(t2, Token::CloseParen) {
                return Err(ParseErrorKind::ExpectedToken(Token::CloseParen).at(span2));
            }
            *pos = *pos + 1;
            let mut rules: Vec<Rulex> = Vec::new();
            rules.push(inner);
            proof {
                assert(rules@.drop_last() =~= Seq::<Rulex>::empty());
                assert(seq_wf(Seq::<Rulex>::empty()));
                assert(rules@.last() == inner);
                assert(seq_wf(rules@));
            }
            Ok(Rulex::Group(Group { rules, capture: None }))
        },
        Token::Colon => {
            *pos = *pos + 1;
            if depth == 0 {
                return Err(ParseErrorKind::RecursionLimit.at(span));
            }
            // an optional name before the parenthesis
            let mut name: Option<String> = None;
            if *pos < toks.len() {
                let (t2, span2) = toks[*pos];
                if matches!(t2, Token::Identifier) {
                    *pos = *pos + 1;
                    let n = bytes.len();
                    if !(span2.start <= span2.end && span2.end <= n) {
                        return Err(ParseErrorKind::UnexpectedToken.at(span2));
                    }
                    match string_from_utf8(bytes_range(bytes, span2.start, span2.end)) {
                        Some(s) => {
                            name = Some(s);
                        },
                        Option::None => {
                            return Err(ParseErrorKind::UnexpectedToken.at(span2));
                        },
                    }
                }
            }
            if *pos >= toks.len() {
                return Err(ParseErrorKind::ExpectedToken(Token::OpenParen).at(Span::empty()));
            }
            let (t3, span3) = toks[*pos];
            if !matches!(t3, Token::OpenParen) {
                return Err(ParseErrorKind::ExpectedToken(Token::OpenParen).at(span3));
            }
            *pos = *pos + 1;
            let inner = parse_or(bytes, toks, pos, depth - 1)?;
            if *pos >= toks.len() {
                return Err(ParseErrorKind::ExpectedToken(Token::CloseParen).at(Span::empty()));
            }
            let (t4, span4) = toks[*pos];
            if !matches!(t4, Token::CloseParen) {
                return Err(ParseErrorKind::ExpectedToken(Token::CloseParen).at(span4));
            }
            *pos = *pos + 1;
            let mut rules: Vec<Rulex> = Vec::new();
            rules.push(inner);
            proof {
                assert(rules@.drop_last() =~= Seq::<Rulex>::empty());
                assert(seq_wf(Seq::<Rulex>::empty()));
                assert(rules@.last() == inner);
                assert(seq_wf(rules@));
            }
            Ok(Rulex::Group(Group { rules, capture: Some(Capture { name }) }))
        },
        Token::BStart => {
            *pos = *pos + 1;
            Ok(Rulex::Boundary(Boundary::Start))
        },
        Token::BEnd => {
            *pos = *pos + 1;
            Ok(Rulex::Boundary(Boundary::End))
        },
        Token::BWord => {
            *pos = *pos + 1;
            Ok(Rulex::Boundary(Boundary::Word))
        },
        Token::Not => {
            *pos = *pos + 1;
            if depth == 0 {
                return Err(ParseErrorKind::RecursionLimit.at(span));
            }
            if *pos < toks.len() {
                let (t2, span2) = toks[*pos];
                if matches!(t2, Token::Not) {
                    return Err(ParseErrorKind::UnallowedDoubleNot.at(span.join(span2)));
                }
            }
            let inner = parse_atom(bytes, toks, pos, depth - 1)?;
            let ghost inner_ghost = inner;
            match inner.negate() {
                Some(negated) => {
                    proof {
                        if inner_ghost is CharClass {
                            assert(inner_ghost->CharClass_0.wf());
                        }
                        assert(negated.wf());
                    }
                    Ok(negated)
                },
                Option::None => Err(ParseErrorKind::UnexpectedToken.at(span)),
            }
        },
        Token::Identifier => {
            let n = bytes.len();
            if !(span.start <= span.end && span.end <= n) {
                *pos = *pos + 1;
                return Err(ParseErrorKind::UnexpectedToken.at(span));
            }
            if span_text_eq(bytes, span.start, span.end, "Start") {
                *pos = *pos + 1;
                return Ok(Rulex::Boundary(Boundary::Start));
            }
            if span_text_eq(bytes, span.start, span.end, "End") {
                *pos = *pos + 1;
                return Ok(Rulex::Boundary(Boundary::End));
            }
            if span_text_eq(bytes, span.start, span.end, "Grapheme") {
                *pos = *pos + 1;
                return Ok(Rulex::Grapheme(Grapheme { span }));
            }
            *pos = *pos + 1;
            Err(ParseErrorKind::UnexpectedToken.at(span))
        },
        Token::Dot => {
            *pos = *pos + 1;
            Err(ParseErrorKind::Dot.at(span))
        },
        Token::ErrorMsg(m) => {
            *pos = *pos + 1;
            Err(ParseErrorKind::LexErrorWithMessage(m).at(span))
        },
        _ => {
            *pos = *pos + 1;
            Err(ParseErrorKind::UnexpectedToken.at(span))
        },
    }
}

/// True when a token can begin an atom.
fn starts_atom(t: Token) -> (r: bool) {
    match t {
        Token::String | Token::CodePoint | Token::OpenBracket | Token::OpenParen | Token::Colon
            | Token::BStart | Token::BEnd | Token::BWord | Token::Not | Token::Identifier
            | Token::Dot | Token::ErrorMsg(_) | Token::Error => true,
        _ => false,
    }
}

/// True when the identifier token at `pos` is the `lazy` keyword.
fn peek_lazy(bytes: &[u8], toks: &Vec<(Token, Span)>, pos: usize) -> (r: bool)
    requires
        pos <= toks@.len(),
    ensures
        r ==> pos < toks@.len() && (toks@[pos as int]).0 is Identifier,
{
    if pos >= toks.len() {
        return false;
    }
    let (t, span) = toks[pos];
    if !matches!(t, Token::Identifier) {
        return false;
    }
    let n = bytes.len();
    if !(span.start <= span.end && span.end <= n) {
        return false;
    }
    span_text_eq(bytes, span.start, span.end, "lazy")
}

/// Parses one atom followed by any number of repetitions; a `?` after a
/// repetition is rejected, as the `lazy` keyword takes its place.
fn parse_atom_with_rep(bytes: &[u8], toks: &Vec<(Token, Span)>, pos: &mut usize, depth: u32)
    -> (r: Result<Rulex, ParseError>)
    requires
        *old(pos) <= toks@.len(),
        toks_bounded(toks@, bytes@.len() as int),
    ensures
        *old(pos) <= *final (pos) <= toks@.len(),
        r is Ok ==> r->Ok_0.wf() && *final (pos) > *old(pos),
        r is Ok ==> consumed_clean(toks@, *old(pos) as int, *final (pos) as int),
        r is Err ==> err_wf(r->Err_0, bytes@.len() as int),
    decreases depth, 1nat,
{
    let mut result = parse_atom(bytes, toks, pos, depth)?;
    let mut reps: u32 = 0;
    loop
        invariant
            *pos <= toks@.len(),
            *old(pos) < *pos,
            toks_bounded(toks@, bytes@.len() as int),
            consumed_clean(toks@, *old(pos) as int, *pos as int),
            result.wf(),
        decreases toks@.len() - *pos,
    {
        if *pos >= toks.len() {
            return Ok(result);
        }
        let (token, span) = toks[*pos];
        let kind: RepetitionKind = match token {
            Token::Star => {
                *pos = *pos + 1;
                RepetitionKind::zero_inf()
            },
            Token::Plus => {
                *pos = *pos + 1;
                RepetitionKind::one_inf()
            },
            Token::QuestionMark => {
                if reps > 0 {
                    return Err(
                        ParseErrorKind::Repetition(
                            RepetitionError::QuestionMarkAfterRepetition,
                        ).at(span),
                    );
                }
                *pos = *pos + 1;
                RepetitionKind::zero_one()
            },
            Token::OpenBrace => {
                *pos = *pos + 1;
                parse_braced_kind(bytes, toks, pos, span)?
            },
            _ => {
                return Ok(result);
            },
        };
        let greedy = if peek_lazy(bytes, toks, *pos) {
            *pos = *pos + 1;
            Greedy::No
        } else {
            Greedy::Yes
        };
        result = Rulex::Repetition(Box::new(Repetition::new(result, kind, greedy)));
        if reps < u32::MAX {
            reps = reps + 1;
        }
    }
}

/// Parses the inside of `{...}` after the opening brace: a number, or a
/// number, a comma and an optional number; descending bounds are
/// rejected with `NotAscending`.
fn parse_braced_kind(bytes: &[u8], toks: &Vec<(Token, Span)>, pos: &mut usize, open_span: Span)
    -> (r: Result<RepetitionKind, ParseError>)
    requires
        *old(pos) <= toks@.len(),
        toks_bounded(toks@, bytes@.len() as int),
        open_span.end <= bytes@.len(),
    ensures
        *old(pos) <= *final (pos) <= toks@.len(),
        r is Ok ==> r->Ok_0.wf(),
        r is Ok ==> consumed_clean(toks@, *old(pos) as int, *final (pos) as int),
        r is Err ==> err_wf(r->Err_0, bytes@.len() as int),
{
    let lower = expect_number(bytes, toks, pos)?;
    if *pos >= toks.len() {
        return Err(ParseErrorKind::ExpectedToken(Token::CloseBrace).at(Span::empty()));
    }
    let (t, span) = toks[*pos];
    match t {
        Token::CloseBrace => {
            *pos = *pos + 1;
            Ok(RepetitionKind::fixed(lower))
        },
        Token::Comma => {
            *pos = *pos + 1;
            let mut upper: Option<u32> = None;
            if *pos < toks.len() {
                let (t2, _) = toks[*pos];
                if matches!(t2, Token::Number) {
                    upper = Some(expect_number(bytes, toks, pos)?);
                }
            }
            if *pos >= toks.len() {
                return Err(ParseErrorKind::ExpectedToken(Token::CloseBrace).at(Span::empty()));
            }
            let (t3, span3) = toks[*pos];
            if !matches!(t3, Token::CloseBrace) {
                return Err(ParseErrorKind::ExpectedToken(Token::CloseBrace).at(span3));
            }
            *pos = *pos + 1;
            match RepetitionKind::try_from((lower, upper)) {
                Ok(kind) => Ok(kind),
                Err(e) => Err(ParseErrorKind::Repetition(e).at(open_span.join(span3))),
            }
        },
        _ => Err(ParseErrorKind::ExpectedToken(Token::CloseBrace).at(span)),
    }
}

/// Consumes a number token and parses its value.
fn expect_number(bytes: &[u8], toks: &Vec<(Token, Span)>, pos: &mut usize) -> (r: Result<
    u32,
    ParseError,
>)
    requires
        *old(pos) <= toks@.len(),
        toks_bounded(toks@, bytes@.len() as int),
    ensures
        *old(pos) <= *final (pos) <= toks@.len(),
        r is Ok ==> *final (pos) == *old(pos) + 1,
        r is Ok ==> consumed_clean(toks@, *old(pos) as int, *final (pos) as int),
        r is Err ==> err_wf(r->Err_0, bytes@.len() as int),
{
    if *pos >= toks.len() {
        return Err(ParseErrorKind::ExpectedToken(Token::Number).at(Span::empty()));
    }
    let (t, span) = toks[*pos];
    if !matches!(t, Token::Number) {
        return Err(ParseErrorKind::ExpectedToken(Token::Number).at(span));
    }
    *pos = *pos + 1;
    let n = bytes.len();
    if !(span.start <= span.end && span.end <= n) {
        return Err(ParseErrorKind::UnexpectedToken.at(span));
    }
    let mut all_digits = true;
    let mut i = span.start;
    while i < span.end
        invariant
            span.start <= i <= span.end <= bytes@.len(),
            all_digits ==> forall|j: int|
                span.start <= j < i ==> crate::tokenize::is_digit_byte(#[trigger] bytes@[j]),
        decreases span.end - i,
    {
        let d = bytes[i];
        if !(48 <= d && d <= 57) {
            all_digits = false;
        }
        i = i + 1;
    }
    if !all_digits {
        return Err(ParseErrorKind::UnexpectedToken.at(span));
    }
    match parse_u32_dec(bytes, span.start, span.end) {
        Some(v) => Ok(v),
        Option::None => Err(ParseErrorKind::NumberTooLarge.at(span)),
    }
}

/// Parses a sequence of atoms with repetitions. An empty sequence is
/// the empty literal; a single atom stands for itself; several atoms
/// become a non-capturing group.
fn parse_sequence(bytes: &[u8], toks: &Vec<(Token, Span)>, pos: &mut usize, depth: u32) -> (r:
    Result<Rulex, ParseError>)
    requires
        *old(pos) <= toks@.len(),
        toks_bounded(toks@, bytes@.len() as int),
    ensures
        *old(pos) <= *final (pos) <= toks@.len(),
        r is Ok ==> r->Ok_0.wf(),
        r is Ok ==> consumed_clean(toks@, *old(pos) as int, *final (pos) as int),
        r is Err ==> err_wf(r->Err_0, bytes@.len() as int),
        *old(pos) == toks@.len() ==> r is Ok && r->Ok_0 is Literal
            && r->Ok_0->Literal_0@ == Seq::<char>::empty(),
    decreases depth, 2nat,
{
    let mut items: Vec<Rulex> = Vec::new();
    loop
        invariant
            *pos <= toks@.len(),
            *old(pos) <= *pos,
            toks_bounded(toks@, bytes@.len() as int),
            consumed_clean(toks@, *old(pos) as int, *pos as int),
            items@.len() > 0 ==> *old(pos) < toks@.len(),
            forall|j: int| 0 <= j < items@.len() ==> (#[trigger] items@[j]).wf(),
        decreases toks@.len() - *pos,
    {
        if *pos >= toks.len() {
            break ;
        }
        let (token, _) = toks[*pos];
        if !starts_atom(token) {
            break ;
        }
        let item = parse_atom_with_rep(bytes, toks, pos, depth)?;
        let ghost gx = item;
        let ghost before_items = items@;
        items.push(item);
        proof {
            assert(items@ == before_items.push(gx));
            assert forall|j: int|
                0 <= j < items@.len() implies (#[trigger] items@[j]).wf() by {
                if j < before_items.len() {
                    assert(before_items.push(gx)[j] == before_items[j]);
                } else {
                    assert(before_items.push(gx)[j] == gx);
                }
            }
        }
    }
    if items.len() == 0 {
        Ok(Rulex::Literal(String::new()))
    } else if items.len() == 1 {
        match items.pop() {
            Some(item) => Ok(item),
            Option::None => Ok(Rulex::Literal(String::new())),
        }
    } else {
        proof {
            lemma_seq_wf_all(items@);
        }
        Ok(Rulex::Group(Group { rules: items, capture: None }))
    }
}

/// Parses an alternation: sequences separated by `|`. A single
/// alternative stands for itself; an alternation of non-negated
/// character classes collapses into one class.
fn parse_or(bytes: &[u8], toks: &Vec<(Token, Span)>, pos: &mut usize, depth: u32) -> (r: Result<
    Rulex,
    ParseError,
>)
    requires
        *old(pos) <= toks@.len(),
        toks_bounded(toks@, bytes@.len() as int),
    ensures
        *old(pos) <= *final (pos) <= toks@.len(),
        r is Ok ==> r->Ok_0.wf(),
        r is Ok ==> consumed_clean(toks@, *old(pos) as int, *final (pos) as int),
        r is Err ==> err_wf(r->Err_0, bytes@.len() as int),
        *old(pos) == toks@.len() ==> r is Ok && r->Ok_0 is Literal
            && r->Ok_0->Literal_0@ == Seq::<char>::empty(),
    decreases depth, 3nat,
{
    let first = parse_sequence(bytes, toks, pos, depth)?;
    let mut more = false;
    if *pos < toks.len() {
        let (t, _) = toks[*pos];
        if matches!(t, Token::Pipe) {
            more = true;
        }
    }
    if !more {
        return Ok(first);
    }
    proof {
        assert(*old(pos) < toks@.len());
    }
    let mut rules: Vec<Rulex> = Vec::new();
    rules.push(first);
    loop
        invariant
            *pos <= toks@.len(),
            *old(pos) <= *pos,
            toks_bounded(toks@, bytes@.len() as int),
            consumed_clean(toks@, *old(pos) as int, *pos as int),
            rules@.len() >= 1,
            forall|j: int| 0 <= j < rules@.len() ==> (#[trigger] rules@[j]).wf(),
        decreases toks@.len() - *pos,
    {
        let mut pipe = false;
        if *pos < toks.len() {
            let (t, _) = toks[*pos];
            if matches!(t, Token::Pipe) {
                pipe = true;
            }
        }
        if !pipe {
            break ;
        }
        *pos = *pos + 1;
        let next = parse_sequence(bytes, toks, pos, depth)?;
        let ghost gx = next;
        let ghost before_rules = rules@;
        rules.push(next);
        proof {
            assert(rules@ == before_rules.push(gx));
            assert forall|j: int|
                0 <= j < rules@.len() implies (#[trigger] rules@[j]).wf() by {
                if j < before_rules.len() {
                    assert(before_rules.push(gx)[j] == before_rules[j]);
                } else {
                    assert(before_rules.push(gx)[j] == gx);
                }
            }
        }
        if *pos < toks.len() {
            let (t, _) = toks[*pos];
            if !matches!(t, Token::Pipe) {
                break ;
            }
        } else {
            break ;
        }
    }
    let ghost rules_view = rules@;
    let result = Alternation::new_rulex(rules);
    proof {
        if all_plain_char_classes(rules_view) {
            lemma_union_items_wf(rules_view);
        } else {
            lemma_seq_wf_all(rules_view);
        }
    }
    Ok(result)
}

/// Parses a whole source string into a rule. The result satisfies the
/// structural invariants of the tree: ascending ranges and repetition
/// bounds, and non-empty alternations. A source holding nothing but
/// whitespace and comments parses to the empty literal; a successful
/// parse implies that no token of the source is a foreign-syntax hint
/// or an unrecognized character, since those always produce an error.
pub fn parse(input: &str, options: ParseOptions) -> (r: Result<Rulex, ParseError>)
    ensures
        r is Ok ==> r->Ok_0.wf(),
        r is Ok ==> forall|toks: Seq<(Token, Span)>|
            #[trigger] crate::tokenize::tokens_ok(vstd::utf8::encode_utf8(input@), toks)
                ==> consumed_clean(toks, 0, toks.len() as int),
        r is Err ==> err_wf(r->Err_0, vstd::utf8::encode_utf8(input@).len() as int),
        crate::tokenize::skip_spec(
            vstd::utf8::encode_utf8(input@),
            0,
        ) == vstd::utf8::encode_utf8(input@).len() ==> r is Ok && r->Ok_0 is Literal
            && r->Ok_0->Literal_0@ == Seq::<char>::empty(),
{
    let toks = tokenize(input);
    let bytes = input.as_bytes();
    proof {
        assert forall|i: int| 0 <= i < toks@.len() implies (#[trigger] toks@[i]).1.end
            <= bytes@.len() by {
            assert(crate::tokenize::token_ok_at(bytes@, toks@[i]));
        }
    }
    let mut pos: usize = 0;
    let result = parse_or(bytes, &toks, &mut pos, options.max_nesting)?;
    if pos < toks.len() {
        let (_, span) = toks[pos];
        return Err(ParseErrorKind::UnexpectedToken.at(span));
    }
    proof {
        assert forall|t2: Seq<(Token, Span)>|
            #[trigger] crate::tokenize::tokens_ok(
                vstd::utf8::encode_utf8(input@),
                t2,
            ) implies consumed_clean(t2, 0, t2.len() as int) by {
            crate::tokenize::lemma_tokens_unique(vstd::utf8::encode_utf8(input@), toks@, t2);
        }
    }
    Ok(result)
}

} // verus!
