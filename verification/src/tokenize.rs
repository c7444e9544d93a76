use vstd::prelude::*;

use crate::span::Span;
use crate::token::{ParseErrorMsg, Token};

verus! {

/// True for the whitespace bytes that the lexer skips between tokens:
/// space, tab, line feed, vertical tab, form feed and carriage return.
/// Skipping is deliberately limited to ASCII whitespace; a character
/// outside ASCII is never part of any token form, so it becomes an
/// `Error` token rather than being skipped.
pub open spec fn is_ws_byte(b: u8) -> bool {
    b == 32 || b == 9 || b == 10 || b == 13 || b == 11 || b == 12
}

/// True for an ASCII decimal digit.
pub open spec fn is_digit_byte(b: u8) -> bool {
    48 <= b <= 57
}

/// True for an ASCII hexadecimal digit.
pub open spec fn is_hex_byte(b: u8) -> bool {
    is_digit_byte(b) || (65 <= b <= 70) || (97 <= b <= 102)
}

/// True for an ASCII letter.
pub open spec fn is_alpha_byte(b: u8) -> bool {
    (65 <= b <= 90) || (97 <= b <= 122)
}

/// True for a byte that can start an identifier: `[A-Za-z_]`.
pub open spec fn is_ident_start_byte(b: u8) -> bool {
    is_alpha_byte(b) || b == 95
}

/// True for a byte that can continue an identifier: `[A-Za-z0-9_]`.
pub open spec fn is_ident_cont_byte(b: u8) -> bool {
    is_ident_start_byte(b) || is_digit_byte(b)
}

/// True for a byte of a group or reference name after `\k` or `\g`:
/// letters, digits, `-`, `+` and `_`.
pub open spec fn is_gk_ident_byte(b: u8) -> bool {
    is_alpha_byte(b) || is_digit_byte(b) || b == 45 || b == 43 || b == 95
}

/// True for a byte of a name inside a special group: letters, digits,
/// `-` and `+`.
pub open spec fn is_sg_ident_byte(b: u8) -> bool {
    is_alpha_byte(b) || is_digit_byte(b) || b == 45 || b == 43
}

/// True for a byte that is not a single quote.
pub open spec fn not_squote_byte(b: u8) -> bool {
    b != 39
}

/// True for a byte that is not a closing parenthesis.
pub open spec fn not_cparen_byte(b: u8) -> bool {
    b != 41
}

/// The end of the run of bytes satisfying `pred` that starts at `i`.
pub open spec fn run_end(bytes: Seq<u8>, i: int, pred: spec_fn(u8) -> bool) -> int
    decreases bytes.len() - i,
    when 0 <= i <= bytes.len()
{
    if i >= bytes.len() {
        i
    } else if pred(bytes[i]) {
        run_end(bytes, i + 1, pred)
    } else {
        i
    }
}

/// The run end lies between the start and the end of the sequence, and
/// everything in the run satisfies the predicate.
pub proof fn lemma_run_end(bytes: Seq<u8>, i: int, pred: spec_fn(u8) -> bool)
    requires
        0 <= i <= bytes.len(),
    ensures
        i <= run_end(bytes, i, pred) <= bytes.len(),
        run_end(bytes, i, pred) < bytes.len() ==> !pred(bytes[run_end(bytes, i, pred)]),
        forall|j: int| i <= j < run_end(bytes, i, pred) ==> pred(#[trigger] bytes[j]),
    decreases bytes.len() - i,
{
    if i < bytes.len() && pred(bytes[i]) {
        lemma_run_end(bytes, i + 1, pred);
    }
}

/// Where the lexer resumes after skipping whitespace and `#` line
/// comments from position `i`.
pub open spec fn skip_spec(bytes: Seq<u8>, i: int) -> int
    decreases bytes.len() - i, 1int,
    when 0 <= i <= bytes.len()
{
    if i >= bytes.len() {
        i
    } else if is_ws_byte(bytes[i]) {
        skip_spec(bytes, i + 1)
    } else if bytes[i] == 35 {
        skip_comment(bytes, i + 1)
    } else {
        i
    }
}

/// Where the lexer resumes after a comment body starting at `i`.
pub open spec fn skip_comment(bytes: Seq<u8>, i: int) -> int
    decreases bytes.len() - i, 0int,
    when 0 <= i <= bytes.len()
{
    if i >= bytes.len() {
        i
    } else if bytes[i] == 10 {
        skip_spec(bytes, i + 1)
    } else {
        skip_comment(bytes, i + 1)
    }
}

/// Skipping never moves backwards and stops at a byte that starts a
/// token, or at the end.
pub proof fn lemma_skip_spec(bytes: Seq<u8>, i: int)
    requires
        0 <= i <= bytes.len(),
    ensures
        i <= skip_spec(bytes, i) <= bytes.len(),
        skip_spec(bytes, i) < bytes.len() ==> !is_ws_byte(bytes[skip_spec(bytes, i)])
            && bytes[skip_spec(bytes, i)] != 35,
    decreases bytes.len() - i, 1int,
{
    if i < bytes.len() {
        if is_ws_byte(bytes[i]) {
            lemma_skip_spec(bytes, i + 1);
        } else if bytes[i] == 35 {
            lemma_skip_comment(bytes, i + 1);
        }
    }
}

proof fn lemma_skip_comment(bytes: Seq<u8>, i: int)
    requires
        0 <= i <= bytes.len(),
    ensures
        i <= skip_comment(bytes, i) <= bytes.len(),
        skip_comment(bytes, i) < bytes.len() ==> !is_ws_byte(bytes[skip_comment(bytes, i)])
            && bytes[skip_comment(bytes, i)] != 35,
    decreases bytes.len() - i, 0int,
{
    if i < bytes.len() {
        if bytes[i] == 10 {
            lemma_skip_spec(bytes, i + 1);
        } else {
            lemma_skip_comment(bytes, i + 1);
        }
    }
}

/// The index of the closing double quote of a string body starting at
/// `i`, skipping backslash escapes; the length of the sequence when
/// there is none.
pub open spec fn dq_close(bytes: Seq<u8>, i: int) -> int
    decreases bytes.len() - i,
    when 0 <= i <= bytes.len()
{
    if i >= bytes.len() {
        bytes.len() as int
    } else if bytes[i] == 34 {
        i
    } else if bytes[i] == 92 {
        if i + 1 < bytes.len() {
            dq_close(bytes, i + 2)
        } else {
            bytes.len() as int
        }
    } else {
        dq_close(bytes, i + 1)
    }
}

/// The closing quote position lies in range.
pub proof fn lemma_dq_close(bytes: Seq<u8>, i: int)
    requires
        0 <= i <= bytes.len(),
    ensures
        i <= dq_close(bytes, i) <= bytes.len(),
        dq_close(bytes, i) < bytes.len() ==> bytes[dq_close(bytes, i)] == 34,
    decreases bytes.len() - i,
{
    if i < bytes.len() && bytes[i] != 34 {
        if bytes[i] == 92 {
            if i + 1 < bytes.len() {
                lemma_dq_close(bytes, i + 2);
            }
        } else {
            lemma_dq_close(bytes, i + 1);
        }
    }
}

/// The byte length of the UTF-8 character whose leading byte is `b`.
pub open spec fn char_len_byte(b: u8) -> int {
    if b < 0xC0 {
        1
    } else if b < 0xE0 {
        2
    } else if b < 0xF0 {
        3
    } else {
        4
    }
}

/// The end of the run of single-quote-free bytes starting at `i`.
pub open spec fn squote_run_end(bytes: Seq<u8>, i: int) -> int {
    run_end(bytes, i, |b: u8| not_squote_byte(b))
}

/// The end of the run of hexadecimal digits starting at `i`.
pub open spec fn hex_run_end(bytes: Seq<u8>, i: int) -> int {
    run_end(bytes, i, |b: u8| is_hex_byte(b))
}

/// The end of the run of decimal digits starting at `i`.
pub open spec fn digit_run_end(bytes: Seq<u8>, i: int) -> int {
    run_end(bytes, i, |b: u8| is_digit_byte(b))
}

/// The end of the run of identifier bytes starting at `i`.
pub open spec fn ident_run_end(bytes: Seq<u8>, i: int) -> int {
    run_end(bytes, i, |b: u8| is_ident_cont_byte(b))
}

/// The end of the run of `\k`/`\g` name bytes starting at `i`.
pub open spec fn gk_run_end(bytes: Seq<u8>, i: int) -> int {
    run_end(bytes, i, |b: u8| is_gk_ident_byte(b))
}

/// The end of the run of special-group name bytes starting at `i`.
pub open spec fn sg_run_end(bytes: Seq<u8>, i: int) -> int {
    run_end(bytes, i, |b: u8| is_sg_ident_byte(b))
}

/// The end of the run of bytes before a closing parenthesis starting
/// at `i`.
pub open spec fn cparen_run_end(bytes: Seq<u8>, i: int) -> int {
    run_end(bytes, i, |b: u8| not_cparen_byte(b))
}

/// The hint for foreign group syntax `(?...`; `p` is the position right
/// after `(?`. The forms of the foreign regex syntax are tried in
/// order, longer or more specific forms first.
pub open spec fn sg_kind(bytes: Seq<u8>, p: int) -> ParseErrorMsg {
    let n = bytes.len() as int;
    if p < n && bytes[p] == 58 {
        ParseErrorMsg::GroupNonCapturing
    } else if p < n && bytes[p] == 61 {
        ParseErrorMsg::GroupLookahead
    } else if p < n && bytes[p] == 33 {
        ParseErrorMsg::GroupLookaheadNeg
    } else if p < n && bytes[p] == 62 {
        ParseErrorMsg::GroupAtomic
    } else if p < n && bytes[p] == 40 {
        ParseErrorMsg::GroupConditional
    } else if p < n && bytes[p] == 124 {
        ParseErrorMsg::GroupBranchReset
    } else if p + 1 < n && bytes[p] == 60 && bytes[p + 1] == 61 {
        ParseErrorMsg::GroupLookbehind
    } else if p + 1 < n && bytes[p] == 60 && bytes[p + 1] == 33 {
        ParseErrorMsg::GroupLookbehindNeg
    } else if sg_named_angle(bytes, p) {
        ParseErrorMsg::GroupNamedCapture
    } else if sg_named_quote(bytes, p) {
        ParseErrorMsg::GroupNamedCapture
    } else if sg_pcre_backref(bytes, p) {
        ParseErrorMsg::GroupPcreBackreference
    } else if p + 1 < n && bytes[p] == 80 && bytes[p + 1] == 62 {
        ParseErrorMsg::GroupSubroutineCall
    } else if p < n && bytes[p] == 38 {
        ParseErrorMsg::GroupSubroutineCall
    } else if sg_comment(bytes, p) {
        ParseErrorMsg::GroupComment
    } else {
        ParseErrorMsg::GroupOther
    }
}

/// Where the name of a `(?P<name>` or `(?<name>` form starts, or `-1`
/// when neither prefix is present; `p` is right after `(?`.
pub open spec fn sg_angle_q(bytes: Seq<u8>, p: int) -> int {
    let n = bytes.len() as int;
    if p + 1 < n && bytes[p] == 80 && bytes[p + 1] == 60 {
        p + 2
    } else if p < n && bytes[p] == 60 {
        p + 1
    } else {
        -1
    }
}

/// True for `(?P<name>` or `(?<name>`; `p` is right after `(?`.
pub open spec fn sg_named_angle(bytes: Seq<u8>, p: int) -> bool {
    let n = bytes.len() as int;
    let q = sg_angle_q(bytes, p);
    q >= 0 && {
        let e = sg_run_end(bytes, q);
        e > q && e < n && bytes[e] == 62
    }
}

/// True for `(?'name'`; `p` is right after `(?`.
pub open spec fn sg_named_quote(bytes: Seq<u8>, p: int) -> bool {
    let n = bytes.len() as int;
    p < n && bytes[p] == 39 && {
        let e = sg_run_end(bytes, p + 1);
        e > p + 1 && e < n && bytes[e] == 39
    }
}

/// True for `(?P=name)`; `p` is right after `(?`.
pub open spec fn sg_pcre_backref(bytes: Seq<u8>, p: int) -> bool {
    let n = bytes.len() as int;
    p + 1 < n && bytes[p] == 80 && bytes[p + 1] == 61 && {
        let e = sg_run_end(bytes, p + 2);
        e > p + 2 && e < n && bytes[e] == 41
    }
}

/// True for `(?#...)`; `p` is right after `(?`.
pub open spec fn sg_comment(bytes: Seq<u8>, p: int) -> bool {
    let n = bytes.len() as int;
    p < n && bytes[p] == 35 && {
        let e = cparen_run_end(bytes, p + 1);
        e < n && bytes[e] == 41
    }
}

/// The number of bytes a foreign group token consumes, starting at the
/// `(` at `pos`; the branches mirror `sg_kind` exactly.
pub open spec fn sg_len(bytes: Seq<u8>, pos: int) -> int {
    let n = bytes.len() as int;
    let p = pos + 2;
    if p < n && bytes[p] == 58 {
        3
    } else if p < n && bytes[p] == 61 {
        3
    } else if p < n && bytes[p] == 33 {
        3
    } else if p < n && bytes[p] == 62 {
        3
    } else if p < n && bytes[p] == 40 {
        3
    } else if p < n && bytes[p] == 124 {
        3
    } else if p + 1 < n && bytes[p] == 60 && bytes[p + 1] == 61 {
        4
    } else if p + 1 < n && bytes[p] == 60 && bytes[p + 1] == 33 {
        4
    } else if sg_named_angle(bytes, p) {
        sg_run_end(bytes, sg_angle_q(bytes, p)) + 1 - pos
    } else if sg_named_quote(bytes, p) {
        sg_run_end(bytes, p + 1) + 1 - pos
    } else if sg_pcre_backref(bytes, p) {
        sg_run_end(bytes, p + 2) + 1 - pos
    } else if p + 1 < n && bytes[p] == 80 && bytes[p + 1] == 62 {
        4
    } else if p < n && bytes[p] == 38 {
        3
    } else if sg_comment(bytes, p) {
        cparen_run_end(bytes, p + 1) + 1 - pos
    } else {
        2
    }
}

/// The hint for a backslash escape; `p` is the position right after the
/// backslash and lies in range. The forms of the foreign regex syntax
/// are tried in order, most specific first.
pub open spec fn bs_kind(bytes: Seq<u8>, p: int) -> ParseErrorMsg {
    let n = bytes.len() as int;
    if bs_unicode_brace(bytes, p) {
        ParseErrorMsg::BackslashUnicode
    } else if bytes[p] == 117 && p + 4 < n && is_hex_byte(bytes[p + 1]) && is_hex_byte(
        bytes[p + 2],
    ) && is_hex_byte(bytes[p + 3]) && is_hex_byte(bytes[p + 4]) {
        ParseErrorMsg::BackslashU4
    } else if bytes[p] == 120 && p + 2 < n && is_hex_byte(bytes[p + 1]) && is_hex_byte(
        bytes[p + 2],
    ) {
        ParseErrorMsg::BackslashX2
    } else if (bytes[p] == 107 || bytes[p] == 103) && bs_gk_after(bytes, p + 1) {
        ParseErrorMsg::BackslashGK
    } else if (bytes[p] == 112 || bytes[p] == 80) && bs_p_after(bytes, p + 1) {
        ParseErrorMsg::BackslashProperty
    } else {
        ParseErrorMsg::Backslash
    }
}

/// True for `\u{hex}` or `\x{hex}`; `p` is right after the backslash.
pub open spec fn bs_unicode_brace(bytes: Seq<u8>, p: int) -> bool {
    let n = bytes.len() as int;
    p + 1 < n && (bytes[p] == 117 || bytes[p] == 120) && bytes[p + 1] == 123 && {
        let e = hex_run_end(bytes, p + 2);
        e > p + 2 && e < n && bytes[e] == 125
    }
}

/// True for what may follow `\k` or `\g`: `<name>`, `{name}`, `'name'`,
/// or an optionally signed digit; `q` is right after the `k` or `g`.
pub open spec fn bs_gk_after(bytes: Seq<u8>, q: int) -> bool {
    let n = bytes.len() as int;
    ||| (q < n && bytes[q] == 60 && {
        let e = gk_run_end(bytes, q + 1);
        e > q + 1 && e < n && bytes[e] == 62
    })
    ||| (q < n && bytes[q] == 123 && {
        let e = gk_run_end(bytes, q + 1);
        e > q + 1 && e < n && bytes[e] == 125
    })
    ||| (q < n && bytes[q] == 39 && {
        let e = gk_run_end(bytes, q + 1);
        e > q + 1 && e < n && bytes[e] == 39
    })
    ||| (q + 1 < n && (bytes[q] == 45 || bytes[q] == 43) && is_digit_byte(bytes[q + 1]))
    ||| (q < n && is_digit_byte(bytes[q]))
}

/// True for what may follow `\p` or `\P`: one alphanumeric character,
/// `{name}`, or `{^name}`; `q` is right after the `p` or `P`.
pub open spec fn bs_p_after(bytes: Seq<u8>, q: int) -> bool {
    let n = bytes.len() as int;
    ||| (q < n && (is_alpha_byte(bytes[q]) || is_digit_byte(bytes[q])))
    ||| (q < n && bytes[q] == 123 && {
        let e = gk_run_end(bytes, q + 1);
        e > q + 1 && e < n && bytes[e] == 125
    })
    ||| (q + 1 < n && bytes[q] == 123 && bytes[q + 1] == 94 && {
        let e = gk_run_end(bytes, q + 2);
        e > q + 2 && e < n && bytes[e] == 125
    })
}

/// The number of bytes a `\k`/`\g` name form consumes, starting at
/// `q` right after the `k` or `g`; the branches mirror the matcher's
/// order: bracketed names first, then an optionally signed digit.
pub open spec fn bs_gk_after_len(bytes: Seq<u8>, q: int) -> int {
    let n = bytes.len() as int;
    if q < n && (bytes[q] == 60 || bytes[q] == 123 || bytes[q] == 39) && {
        let e = gk_run_end(bytes, q + 1);
        e > q + 1 && e < n && bytes[e] == (if bytes[q] == 60 {
            62u8
        } else if bytes[q] == 123 {
            125u8
        } else {
            39u8
        })
    } {
        gk_run_end(bytes, q + 1) + 1 - q
    } else if q + 1 < n && (bytes[q] == 45 || bytes[q] == 43) && is_digit_byte(bytes[q + 1]) {
        2
    } else {
        1
    }
}

/// The number of bytes a `\p`/`\P` property form consumes, starting
/// at `q` right after the `p` or `P`: one alphanumeric character, or a
/// braced name, optionally with a leading caret.
pub open spec fn bs_p_after_len(bytes: Seq<u8>, q: int) -> int {
    let n = bytes.len() as int;
    if q < n && (is_alpha_byte(bytes[q]) || is_digit_byte(bytes[q])) {
        1
    } else if q < n && bytes[q] == 123 && {
        let e = gk_run_end(bytes, q + 1);
        e > q + 1 && e < n && bytes[e] == 125
    } {
        gk_run_end(bytes, q + 1) + 1 - q
    } else {
        gk_run_end(bytes, q + 2) + 1 - q
    }
}

/// The number of bytes a backslash token consumes, starting at the
/// backslash at `pos`; the branches mirror `bs_kind` exactly. For the
/// plain escape the whole UTF-8 character after the backslash is
/// consumed, clamped to the end of the input.
pub open spec fn bs_len(bytes: Seq<u8>, pos: int) -> int {
    let n = bytes.len() as int;
    let p = pos + 1;
    if bs_unicode_brace(bytes, p) {
        hex_run_end(bytes, p + 2) + 1 - pos
    } else if bytes[p] == 117 && p + 4 < n && is_hex_byte(bytes[p + 1]) && is_hex_byte(
        bytes[p + 2],
    ) && is_hex_byte(bytes[p + 3]) && is_hex_byte(bytes[p + 4]) {
        6
    } else if bytes[p] == 120 && p + 2 < n && is_hex_byte(bytes[p + 1]) && is_hex_byte(
        bytes[p + 2],
    ) {
        4
    } else if (bytes[p] == 107 || bytes[p] == 103) && bs_gk_after(bytes, p + 1) {
        1 + 1 + bs_gk_after_len(bytes, p + 1)
    } else if (bytes[p] == 112 || bytes[p] == 80) && bs_p_after(bytes, p + 1) {
        1 + 1 + bs_p_after_len(bytes, p + 1)
    } else if p + char_len_byte(bytes[p]) <= n {
        1 + char_len_byte(bytes[p])
    } else {
        n - pos
    }
}

/// The kind of the token starting at position `pos`, which must hold a
/// byte that is neither whitespace nor `#`. The decision cascade tests
/// longer literals before their single-character overlaps.
pub open spec fn token_kind_spec(bytes: Seq<u8>, pos: int) -> Token {
    let n = bytes.len() as int;
    let b = bytes[pos];
    if pos + 1 < n && b == 60 && bytes[pos + 1] == 37 {
        Token::BStart
    } else if pos + 1 < n && b == 37 && bytes[pos + 1] == 62 {
        Token::BEnd
    } else if pos + 1 < n && b == 62 && bytes[pos + 1] == 62 {
        Token::LookAhead
    } else if pos + 1 < n && b == 60 && bytes[pos + 1] == 60 {
        Token::LookBehind
    } else if pos + 1 < n && b == 58 && bytes[pos + 1] == 58 {
        Token::Backref
    } else if b == 37 {
        Token::BWord
    } else if b == 42 {
        Token::Star
    } else if b == 43 {
        Token::Plus
    } else if b == 63 {
        Token::QuestionMark
    } else if b == 124 {
        Token::Pipe
    } else if b == 58 {
        Token::Colon
    } else if b == 41 {
        Token::CloseParen
    } else if b == 123 {
        Token::OpenBrace
    } else if b == 125 {
        Token::CloseBrace
    } else if b == 44 {
        Token::Comma
    } else if b == 33 {
        Token::Not
    } else if b == 91 {
        Token::OpenBracket
    } else if b == 45 {
        Token::Dash
    } else if b == 93 {
        Token::CloseBracket
    } else if b == 46 {
        Token::Dot
    } else if b == 59 {
        Token::Semicolon
    } else if b == 61 {
        Token::Equals
    } else if b == 39 {
        if squote_run_end(bytes, pos + 1) < n {
            Token::String
        } else {
            Token::ErrorMsg(ParseErrorMsg::UnclosedString)
        }
    } else if b == 34 {
        if dq_close(bytes, pos + 1) < n {
            Token::String
        } else {
            Token::ErrorMsg(ParseErrorMsg::UnclosedString)
        }
    } else if b == 85 && pos + 2 < n && bytes[pos + 1] == 43 && is_hex_byte(bytes[pos + 2]) {
        Token::CodePoint
    } else if is_digit_byte(b) {
        Token::Number
    } else if is_ident_start_byte(b) {
        Token::Identifier
    } else if b == 94 {
        Token::ErrorMsg(ParseErrorMsg::Caret)
    } else if b == 36 {
        Token::ErrorMsg(ParseErrorMsg::Dollar)
    } else if b == 40 && pos + 1 < n && bytes[pos + 1] == 63 {
        Token::ErrorMsg(sg_kind(bytes, pos + 2))
    } else if b == 40 {
        Token::OpenParen
    } else if b == 92 && pos + 1 < n {
        Token::ErrorMsg(bs_kind(bytes, pos + 1))
    } else {
        Token::Error
    }
}

/// The exact end position of the token starting at `pos`: every kind
/// ends where the decision cascade says, the foreign group and
/// backslash forms at `sg_len` and `bs_len`.
pub open spec fn token_end_ok(bytes: Seq<u8>, pos: int, end: int) -> bool {
    let n = bytes.len() as int;
    match token_kind_spec(bytes, pos) {
        Token::BStart => end == pos + 2,
        Token::BEnd => end == pos + 2,
        Token::LookAhead => end == pos + 2,
        Token::LookBehind => end == pos + 2,
        Token::Backref => end == pos + 2,
        Token::String => if bytes[pos] == 39 {
            end == squote_run_end(bytes, pos + 1) + 1
        } else {
            end == dq_close(bytes, pos + 1) + 1
        },
        Token::CodePoint => end == hex_run_end(bytes, pos + 2),
        Token::Number => end == digit_run_end(bytes, pos),
        Token::Identifier => end == ident_run_end(bytes, pos + 1),
        Token::OpenParen => end == pos + 1,
        Token::Error => end == (if pos + char_len_byte(bytes[pos]) <= n {
            pos + char_len_byte(bytes[pos])
        } else {
            n
        }),
        Token::ErrorMsg(m) => match m {
            ParseErrorMsg::UnclosedString => end == n,
            ParseErrorMsg::Caret => end == pos + 1,
            ParseErrorMsg::CaretInGroup => end == pos + 1,
            ParseErrorMsg::Dollar => end == pos + 1,
            ParseErrorMsg::Backslash => end == pos + bs_len(bytes, pos),
            ParseErrorMsg::BackslashU4 => end == pos + bs_len(bytes, pos),
            ParseErrorMsg::BackslashX2 => end == pos + bs_len(bytes, pos),
            ParseErrorMsg::BackslashUnicode => end == pos + bs_len(bytes, pos),
            ParseErrorMsg::BackslashGK => end == pos + bs_len(bytes, pos),
            ParseErrorMsg::BackslashProperty => end == pos + bs_len(bytes, pos),
            _ => end == pos + sg_len(bytes, pos),
        },
        _ => end == pos + 1,
    }
}

/// True when every emitted token is the one the decision cascade picks
/// at its start position, spans are non-empty, in bounds, and each
/// token begins exactly where skipping whitespace and comments from the
/// previous token's end (or from the start of the input) lands; after
/// the last token only whitespace and comments remain.
pub open spec fn tokens_ok(bs: Seq<u8>, toks: Seq<(Token, Span)>) -> bool {
    &&& (toks.len() == 0 ==> skip_spec(bs, 0) == bs.len())
    &&& (toks.len() > 0 ==> toks[0].1.start == skip_spec(bs, 0))
    &&& (toks.len() > 0 ==> skip_spec(bs, toks.last().1.end as int) == bs.len())
    &&& (forall|i: int| 0 <= i < toks.len() ==> token_ok_at(bs, #[trigger] toks[i]))
    &&& (forall|i: int|
        0 <= i < toks.len() - 1 ==> (#[trigger] toks[i + 1]).1.start == skip_spec(
            bs,
            toks[i].1.end as int,
        ))
}

/// One emitted token: a non-empty in-bounds span holding the token the
/// cascade picks at its start.
pub open spec fn token_ok_at(bs: Seq<u8>, tk: (Token, Span)) -> bool {
    &&& tk.1.start < tk.1.end <= bs.len()
    &&& tk.0 == token_kind_spec(bs, tk.1.start as int)
    &&& token_end_ok(bs, tk.1.start as int, tk.1.end as int)
}

fn is_ws_b(b: u8) -> (r: bool)
    ensures
        r == is_ws_byte(b),
{
    b == 32 || b == 9 || b == 10 || b == 13 || b == 11 || b == 12
}

fn is_digit_b(b: u8) -> (r: bool)
    ensures
        r == is_digit_byte(b),
{
    48 <= b && b <= 57
}

fn is_hex_b(b: u8) -> (r: bool)
    ensures
        r == is_hex_byte(b),
{
    (48 <= b && b <= 57) || (65 <= b && b <= 70) || (97 <= b && b <= 102)
}

fn is_alpha_b(b: u8) -> (r: bool)
    ensures
        r == is_alpha_byte(b),
{
    (65 <= b && b <= 90) || (97 <= b && b <= 122)
}

fn is_ident_start_b(b: u8) -> (r: bool)
    ensures
        r == is_ident_start_byte(b),
{
    is_alpha_b(b) || b == 95
}

fn is_ident_cont_b(b: u8) -> (r: bool)
    ensures
        r == is_ident_cont_byte(b),
{
    is_ident_start_b(b) || is_digit_b(b)
}

fn is_gk_ident_b(b: u8) -> (r: bool)
    ensures
        r == is_gk_ident_byte(b),
{
    is_alpha_b(b) || is_digit_b(b) || b == 45 || b == 43 || b == 95
}

fn is_sg_ident_b(b: u8) -> (r: bool)
    ensures
        r == is_sg_ident_byte(b),
{
    is_alpha_b(b) || is_digit_b(b) || b == 45 || b == 43
}

fn scan_hex(bytes: &[u8], pos: usize) -> (r: usize)
    requires
        pos <= bytes@.len(),
    ensures
        r == hex_run_end(bytes@, pos as int),
        pos <= r <= bytes@.len(),
{
    let n = bytes.len();
    let mut i = pos;
    while i < n && is_hex_b(bytes[i])
        invariant
            pos <= i <= n,
            n == bytes@.len(),
            hex_run_end(bytes@, pos as int) == hex_run_end(bytes@, i as int),
        decreases n - i,
    {
        i = i + 1;
    }
    proof {
        assert(hex_run_end(bytes@, i as int) == i);
    }
    i
}

fn scan_digits(bytes: &[u8], pos: usize) -> (r: usize)
    requires
        pos <= bytes@.len(),
    ensures
        r == digit_run_end(bytes@, pos as int),
        pos <= r <= bytes@.len(),
{
    let n = bytes.len();
    let mut i = pos;
    while i < n && is_digit_b(bytes[i])
        invariant
            pos <= i <= n,
            n == bytes@.len(),
            digit_run_end(bytes@, pos as int) == digit_run_end(bytes@, i as int),
        decreases n - i,
    {
        i = i + 1;
    }
    proof {
        assert(digit_run_end(bytes@, i as int) == i);
    }
    i
}

fn scan_ident(bytes: &[u8], pos: usize) -> (r: usize)
    requires
        pos <= bytes@.len(),
    ensures
        r == ident_run_end(bytes@, pos as int),
        pos <= r <= bytes@.len(),
{
    let n = bytes.len();
    let mut i = pos;
    while i < n && is_ident_cont_b(bytes[i])
        invariant
            pos <= i <= n,
            n == bytes@.len(),
            ident_run_end(bytes@, pos as int) == ident_run_end(bytes@, i as int),
        decreases n - i,
    {
        i = i + 1;
    }
    proof {
        assert(ident_run_end(bytes@, i as int) == i);
    }
    i
}

fn scan_gk_ident(bytes: &[u8], pos: usize) -> (r: usize)
    requires
        pos <= bytes@.len(),
    ensures
        r == gk_run_end(bytes@, pos as int),
        pos <= r <= bytes@.len(),
{
    let n = bytes.len();
    let mut i = pos;
    while i < n && is_gk_ident_b(bytes[i])
        invariant
            pos <= i <= n,
            n == bytes@.len(),
            gk_run_end(bytes@, pos as int) == gk_run_end(bytes@, i as int),
        decreases n - i,
    {
        i = i + 1;
    }
    proof {
        assert(gk_run_end(bytes@, i as int) == i);
    }
    i
}

fn scan_sg_ident(bytes: &[u8], pos: usize) -> (r: usize)
    requires
        pos <= bytes@.len(),
    ensures
        r == sg_run_end(bytes@, pos as int),
        pos <= r <= bytes@.len(),
{
    let n = bytes.len();
    let mut i = pos;
    while i < n && is_sg_ident_b(bytes[i])
        invariant
            pos <= i <= n,
            n == bytes@.len(),
            sg_run_end(bytes@, pos as int) == sg_run_end(bytes@, i as int),
        decreases n - i,
    {
        i = i + 1;
    }
    proof {
        assert(sg_run_end(bytes@, i as int) == i);
    }
    i
}

fn scan_squote(bytes: &[u8], pos: usize) -> (r: usize)
    requires
        pos <= bytes@.len(),
    ensures
        r == squote_run_end(bytes@, pos as int),
        pos <= r <= bytes@.len(),
{
    let n = bytes.len();
    let mut i = pos;
    while i < n && bytes[i] != 39
        invariant
            pos <= i <= n,
            n == bytes@.len(),
            squote_run_end(bytes@, pos as int) == squote_run_end(bytes@, i as int),
        decreases n - i,
    {
        i = i + 1;
    }
    proof {
        assert(squote_run_end(bytes@, i as int) == i);
    }
    i
}

fn scan_cparen(bytes: &[u8], pos: usize) -> (r: usize)
    requires
        pos <= bytes@.len(),
    ensures
        r == cparen_run_end(bytes@, pos as int),
        pos <= r <= bytes@.len(),
{
    let n = bytes.len();
    let mut i = pos;
    while i < n && bytes[i] != 41
        invariant
            pos <= i <= n,
            n == bytes@.len(),
            cparen_run_end(bytes@, pos as int) == cparen_run_end(bytes@, i as int),
        decreases n - i,
    {
        i = i + 1;
    }
    proof {
        assert(cparen_run_end(bytes@, i as int) == i);
    }
    i
}

/// The position of the first double quote after `start` that is not
/// part of a backslash escape, or `None` when the string is unclosed.
pub fn find_unescaped_quote(bytes: &[u8], start: usize) -> (r: Option<usize>)
    requires
        start <= bytes@.len(),
    ensures
        r is Some <==> dq_close(bytes@, start as int) < bytes@.len(),
        r is Some ==> r->0 == dq_close(bytes@, start as int),
{
    let n = bytes.len();
    let mut i = start;
    while i < n
        invariant
            start <= i <= n,
            n == bytes@.len(),
            dq_close(bytes@, start as int) == dq_close(bytes@, i as int),
        decreases n - i,
    {
        let b = bytes[i];
        if b == 34 {
            return Some(i);
        } else if b == 92 {
            if i + 1 < n {
                i = i + 2;
            } else {
                return None;
            }
        } else {
            i = i + 1;
        }
    }
    None
}

/// Recognizes foreign group syntax `(?...` at `pos` and classifies it;
/// returns the consumed byte length and the hint, or `None` when the
/// input does not start with `(?` there.
pub fn parse_special_group(bytes: &[u8], pos: usize) -> (r: Option<(usize, ParseErrorMsg)>)
    requires
        pos <= bytes@.len(),
    ensures
        r is Some <==> (pos + 1 < bytes@.len() && bytes@[pos as int] == 40 && bytes@[pos + 1]
            == 63),
        r is Some ==> (r->0).1 == sg_kind(bytes@, pos + 2) && (r->0).0 == sg_len(
            bytes@,
            pos as int,
        ) && pos + 2 <= pos + (r->0).0 <= bytes@.len(),
{
    let n = bytes.len();
    if !(pos < n && n - pos > 1 && bytes[pos] == 40 && bytes[pos + 1] == 63) {
        return None;
    }
    let p = pos + 2;
    if p < n && bytes[p] == 58 {
        return Some((3, ParseErrorMsg::GroupNonCapturing));
    }
    if p < n && bytes[p] == 61 {
        return Some((3, ParseErrorMsg::GroupLookahead));
    }
    if p < n && bytes[p] == 33 {
        return Some((3, ParseErrorMsg::GroupLookaheadNeg));
    }
    if p < n && bytes[p] == 62 {
        return Some((3, ParseErrorMsg::GroupAtomic));
    }
    if p < n && bytes[p] == 40 {
        return Some((3, ParseErrorMsg::GroupConditional));
    }
    if p < n && bytes[p] == 124 {
        return Some((3, ParseErrorMsg::GroupBranchReset));
    }
    if n > p && n - p > 1 && bytes[p] == 60 && bytes[p + 1] == 61 {
        return Some((4, ParseErrorMsg::GroupLookbehind));
    }
    if n > p && n - p > 1 && bytes[p] == 60 && bytes[p + 1] == 33 {
        return Some((4, ParseErrorMsg::GroupLookbehindNeg));
    }
    // (?P<name> and (?<name>
    let angle_q = if p < n && n - p > 1 && bytes[p] == 80 && bytes[p + 1] == 60 {
        Some(p + 2)
    } else if p < n && bytes[p] == 60 {
        Some(p + 1)
    } else {
        None
    };
    if let Some(q) = angle_q {
        let e = scan_sg_ident(bytes, q);
        if e > q && e < n && bytes[e] == 62 {
            return Some((e + 1 - pos, ParseErrorMsg::GroupNamedCapture));
        }
    }
    // (?'name'
    if p < n && bytes[p] == 39 {
        let e = scan_sg_ident(bytes, p + 1);
        if e > p + 1 && e < n && bytes[e] == 39 {
            return Some((e + 1 - pos, ParseErrorMsg::GroupNamedCapture));
        }
    }
    // (?P=name)
    if p < n && n - p > 1 && bytes[p] == 80 && bytes[p + 1] == 61 {
        let e = scan_sg_ident(bytes, p + 2);
        if e > p + 2 && e < n && bytes[e] == 41 {
            return Some((e + 1 - pos, ParseErrorMsg::GroupPcreBackreference));
        }
    }
    if p < n && n - p > 1 && bytes[p] == 80 && bytes[p + 1] == 62 {
        return Some((4, ParseErrorMsg::GroupSubroutineCall));
    }
    if p < n && bytes[p] == 38 {
        return Some((3, ParseErrorMsg::GroupSubroutineCall));
    }
    // (?#...)
    if p < n && bytes[p] == 35 {
        let e = scan_cparen(bytes, p + 1);
        if e < n && bytes[e] == 41 {
            return Some((e + 1 - pos, ParseErrorMsg::GroupComment));
        }
    }
    Some((2, ParseErrorMsg::GroupOther))
}

/// Recognizes a backslash escape at `pos` and classifies it; returns
/// the consumed byte length and the hint, or `None` when the input does
/// not hold a backslash followed by at least one character there.
pub fn parse_backslash(bytes: &[u8], pos: usize) -> (r: Option<(usize, ParseErrorMsg)>)
    requires
        pos <= bytes@.len(),
    ensures
        r is Some <==> (pos < bytes@.len() && bytes@[pos as int] == 92 && pos + 1 < bytes@.len()),
        r is Some ==> (r->0).1 == bs_kind(bytes@, pos + 1) && (r->0).0 == bs_len(
            bytes@,
            pos as int,
        ) && pos + 2 <= pos + (r->0).0 <= bytes@.len(),
{
    let n = bytes.len();
    if !(pos < n && bytes[pos] == 92 && n - pos > 1) {
        return None;
    }
    let p = pos + 1;
    // \u{hex} and \x{hex}
    if p < n && n - p > 1 && (bytes[p] == 117 || bytes[p] == 120) && bytes[p + 1] == 123 {
        let e = scan_hex(bytes, p + 2);
        if e > p + 2 && e < n && bytes[e] == 125 {
            return Some((e + 1 - pos, ParseErrorMsg::BackslashUnicode));
        }
    }
    // ￿
    if bytes[p] == 117 && n - p > 4 && is_hex_b(bytes[p + 1]) && is_hex_b(bytes[p + 2])
        && is_hex_b(bytes[p + 3]) && is_hex_b(bytes[p + 4]) {
        return Some((6, ParseErrorMsg::BackslashU4));
    }
    // \xFF
    if bytes[p] == 120 && n - p > 2 && is_hex_b(bytes[p + 1]) && is_hex_b(bytes[p + 2]) {
        return Some((4, ParseErrorMsg::BackslashX2));
    }
    // \k and \g references
    if bytes[p] == 107 || bytes[p] == 103 {
        let q = p + 1;
        if q < n && (bytes[q] == 60 || bytes[q] == 123 || bytes[q] == 39) {
            let close: u8 = if bytes[q] == 60 {
                62
            } else if bytes[q] == 123 {
                125
            } else {
                39
            };
            let e = scan_gk_ident(bytes, q + 1);
            if e > q + 1 && e < n && bytes[e] == close {
                return Some((e + 1 - pos, ParseErrorMsg::BackslashGK));
            }
        }
        if q < n && n - q > 1 && (bytes[q] == 45 || bytes[q] == 43) && is_digit_b(bytes[q + 1]) {
            return Some((4, ParseErrorMsg::BackslashGK));
        }
        if q < n && is_digit_b(bytes[q]) {
            return Some((3, ParseErrorMsg::BackslashGK));
        }
    }
    // \p and \P properties
    if bytes[p] == 112 || bytes[p] == 80 {
        let q = p + 1;
        if q < n && (is_alpha_b(bytes[q]) || is_digit_b(bytes[q])) {
            return Some((3, ParseErrorMsg::BackslashProperty));
        }
        if q < n && bytes[q] == 123 {
            let e = scan_gk_ident(bytes, q + 1);
            if e > q + 1 && e < n && bytes[e] == 125 {
                return Some((e + 1 - pos, ParseErrorMsg::BackslashProperty));
            }
            if n - q > 1 && bytes[q + 1] == 94 {
                let e2 = scan_gk_ident(bytes, q + 2);
                if e2 > q + 2 && e2 < n && bytes[e2] == 125 {
                    return Some((e2 + 1 - pos, ParseErrorMsg::BackslashProperty));
                }
            }
        }
    }
    // any other escaped character
    let cl = char_len_b(bytes[p]);
    let len = if cl <= n - p {
        1 + cl
    } else {
        n - pos
    };
    Some((len, ParseErrorMsg::Backslash))
}

fn char_len_b(b: u8) -> (r: usize)
    ensures
        r == char_len_byte(b),
{
    if b < 0xC0 {
        1
    } else if b < 0xE0 {
        2
    } else if b < 0xF0 {
        3
    } else {
        4
    }
}

fn skip_trivia(bytes: &[u8], pos: usize) -> (r: usize)
    requires
        pos <= bytes@.len(),
    ensures
        r == skip_spec(bytes@, pos as int),
        pos <= r <= bytes@.len(),
{
    let n = bytes.len();
    let mut i = pos;
    loop
        invariant
            pos <= i <= n,
            n == bytes@.len(),
            skip_spec(bytes@, pos as int) == skip_spec(bytes@, i as int),
        decreases n - i,
    {
        if i >= n {
            return i;
        }
        let b = bytes[i];
        if is_ws_b(b) {
            i = i + 1;
        } else if b == 35 {
            let mut j = i + 1;
            while j < n && bytes[j] != 10
                invariant
                    i < j <= n,
                    n == bytes@.len(),
                    skip_spec(bytes@, pos as int) == skip_comment(bytes@, j as int),
                decreases n - j,
            {
                j = j + 1;
            }
            if j >= n {
                return n;
            }
            i = j + 1;
        } else {
            return i;
        }
    }
}

fn next_token(bytes: &[u8], pos: usize) -> (r: (usize, Token))
    requires
        pos < bytes@.len(),
    ensures
        r.1 == token_kind_spec(bytes@, pos as int),
        token_end_ok(bytes@, pos as int, pos + r.0),
        1 <= r.0,
        pos + r.0 <= bytes@.len(),
{
    let n = bytes.len();
    let b = bytes[pos];
    if pos + 1 < n && b == 60 && bytes[pos + 1] == 37 {
        return (2, Token::BStart);
    }
    if pos + 1 < n && b == 37 && bytes[pos + 1] == 62 {
        return (2, Token::BEnd);
    }
    if pos + 1 < n && b == 62 && bytes[pos + 1] == 62 {
        return (2, Token::LookAhead);
    }
    if pos + 1 < n && b == 60 && bytes[pos + 1] == 60 {
        return (2, Token::LookBehind);
    }
    if pos + 1 < n && b == 58 && bytes[pos + 1] == 58 {
        return (2, Token::Backref);
    }
    if b == 37 {
        return (1, Token::BWord);
    }
    if b == 42 {
        return (1, Token::Star);
    }
    if b == 43 {
        return (1, Token::Plus);
    }
    if b == 63 {
        return (1, Token::QuestionMark);
    }
    if b == 124 {
        return (1, Token::Pipe);
    }
    if b == 58 {
        return (1, Token::Colon);
    }
    if b == 41 {
        return (1, Token::CloseParen);
    }
    if b == 123 {
        return (1, Token::OpenBrace);
    }
    if b == 125 {
        return (1, Token::CloseBrace);
    }
    if b == 44 {
        return (1, Token::Comma);
    }
    if b == 33 {
        return (1, Token::Not);
    }
    if b == 91 {
        return (1, Token::OpenBracket);
    }
    if b == 45 {
        return (1, Token::Dash);
    }
    if b == 93 {
        return (1, Token::CloseBracket);
    }
    if b == 46 {
        return (1, Token::Dot);
    }
    if b == 59 {
        return (1, Token::Semicolon);
    }
    if b == 61 {
        return (1, Token::Equals);
    }
    if b == 39 {
        let e = scan_squote(bytes, pos + 1);
        if e < n {
            return (e + 1 - pos, Token::String);
        } else {
            return (n - pos, Token::ErrorMsg(ParseErrorMsg::UnclosedString));
        }
    }
    if b == 34 {
        match find_unescaped_quote(bytes, pos + 1) {
            Some(q) => {
                proof {
                    lemma_dq_close(bytes@, pos + 1);
                }
                return (q + 1 - pos, Token::String);
            },
            Option::None => {
                return (n - pos, Token::ErrorMsg(ParseErrorMsg::UnclosedString));
            },
        }
    }
    if b == 85 && n - pos > 2 && bytes[pos + 1] == 43 && is_hex_b(bytes[pos + 2]) {
        let e = scan_hex(bytes, pos + 2);
        proof {
            lemma_run_end(bytes@, pos + 2, |x: u8| is_hex_byte(x));
        }
        return (e - pos, Token::CodePoint);
    }
    if is_digit_b(b) {
        let e = scan_digits(bytes, pos);
        proof {
            lemma_run_end(bytes@, pos as int, |x: u8| is_digit_byte(x));
        }
        return (e - pos, Token::Number);
    }
    if is_ident_start_b(b) {
        let e = scan_ident(bytes, pos + 1);
        return (e - pos, Token::Identifier);
    }
    if b == 94 {
        return (1, Token::ErrorMsg(ParseErrorMsg::Caret));
    }
    if b == 36 {
        return (1, Token::ErrorMsg(ParseErrorMsg::Dollar));
    }
    if b == 40 && pos + 1 < n && bytes[pos + 1] == 63 {
        match parse_special_group(bytes, pos) {
            Some((len, msg)) => {
                return (len, Token::ErrorMsg(msg));
            },
            Option::None => {
                proof {
                    assert(false);
                }
                return (1, Token::Error);
            },
        }
    }
    if b == 40 {
        return (1, Token::OpenParen);
    }
    if b == 92 && pos + 1 < n {
        match parse_backslash(bytes, pos) {
            Some((len, msg)) => {
                return (len, Token::ErrorMsg(msg));
            },
            Option::None => {
                proof {
                    assert(false);
                }
                return (1, Token::Error);
            },
        }
    }
    let cl = char_len_b(b);
    if cl <= n - pos {
        (cl, Token::Error)
    } else {
        (n - pos, Token::Error)
    }
}

/// Splits the source into tokens with their byte spans, skipping
/// whitespace and `#` line comments between them. Every source position
/// covered by a token is contiguous with the next token's start, up to
/// the skipped whitespace and comments.
pub fn tokenize(input: &str) -> (r: Vec<(Token, Span)>)
    ensures
        tokens_ok(vstd::utf8::encode_utf8(input@), r@),
{
    let bytes = input.as_bytes();
    let n = bytes.len();
    let mut result: Vec<(Token, Span)> = Vec::new();
    let mut offset = skip_trivia(bytes, 0);
    while offset < n
        invariant
            n == bytes@.len(),
            bytes@ == vstd::utf8::encode_utf8(input@),
            offset <= n,
            result@.len() == 0 ==> offset == skip_spec(bytes@, 0),
            result@.len() > 0 ==> result@[0].1.start == skip_spec(bytes@, 0),
            result@.len() > 0 ==> offset == skip_spec(bytes@, result@.last().1.end as int),
            forall|i: int|
                0 <= i < result@.len() ==> token_ok_at(bytes@, #[trigger] result@[i]),
            forall|i: int|
                0 <= i < result@.len() - 1 ==> (#[trigger] result@[i + 1]).1.start == skip_spec(
                    bytes@,
                    result@[i].1.end as int,
                ),
        decreases n - offset,
    {
        let (len, token) = next_token(bytes, offset);
        let start = offset;
        let end = offset + len;
        let ghost prev = result@;
        result.push((token, Span::new(start, end)));
        proof {
            assert(result@.last() == (token, Span { start, end }));
            assert(token_ok_at(bytes@, result@.last()));
            assert(forall|i: int|
                0 <= i < prev.len() ==> #[trigger] result@[i] == prev[i]);
        }
        offset = skip_trivia(bytes, end);
        proof {
            lemma_skip_spec(bytes@, end as int);
        }
    }
    result
}

/// Matching prefixes: two token lists that both satisfy `tokens_ok`
/// agree at every index both of them have.
proof fn lemma_tokens_prefix_eq(
    bs: Seq<u8>,
    t1: Seq<(Token, Span)>,
    t2: Seq<(Token, Span)>,
    i: int,
)
    requires
        tokens_ok(bs, t1),
        tokens_ok(bs, t2),
        0 <= i < t1.len(),
        i < t2.len(),
    ensures
        t1[i] == t2[i],
    decreases i,
{
    assert(token_ok_at(bs, t1[i]));
    assert(token_ok_at(bs, t2[i]));
    if i == 0 {
        assert(t1[0].1.start == skip_spec(bs, 0));
        assert(t2[0].1.start == skip_spec(bs, 0));
    } else {
        lemma_tokens_prefix_eq(bs, t1, t2, i - 1);
        assert(t1[(i - 1) + 1] == t1[i]);
        assert(t2[(i - 1) + 1] == t2[i]);
        assert(t1[i].1.start == skip_spec(bs, t1[i - 1].1.end as int));
        assert(t2[i].1.start == skip_spec(bs, t2[i - 1].1.end as int));
    }
    assert(t1[i].1.end == t2[i].1.end);
    assert(t1[i].1 == t2[i].1);
}

/// The lexer's contract pins the token list uniquely: any two lists
/// that satisfy `tokens_ok` for the same input are equal.
pub proof fn lemma_tokens_unique(bs: Seq<u8>, t1: Seq<(Token, Span)>, t2: Seq<(Token, Span)>)
    requires
        tokens_ok(bs, t1),
        tokens_ok(bs, t2),
    ensures
        t1 == t2,
{
    assert forall|i: int| 0 <= i < t1.len() && i < t2.len() implies t1[i] == t2[i] by {
        lemma_tokens_prefix_eq(bs, t1, t2, i);
    }
    if t1.len() < t2.len() {
        let k = t1.len() as int;
        assert(token_ok_at(bs, t2[k]));
        if k == 0 {
            assert(t2[0].1.start == skip_spec(bs, 0));
        } else {
            assert(t2[(k - 1) + 1] == t2[k]);
            assert(t2[k].1.start == skip_spec(bs, t2[k - 1].1.end as int));
            assert(t2[k - 1] == t1[k - 1]);
            assert(skip_spec(bs, t1[k - 1].1.end as int) == bs.len());
        }
        assert(t2[k].1.start < t2[k].1.end <= bs.len());
        assert(false);
    }
    if t2.len() < t1.len() {
        let k = t2.len() as int;
        assert(token_ok_at(bs, t1[k]));
        if k == 0 {
            assert(t1[0].1.start == skip_spec(bs, 0));
        } else {
            assert(t1[(k - 1) + 1] == t1[k]);
            assert(t1[k].1.start == skip_spec(bs, t1[k - 1].1.end as int));
            assert(t1[k - 1] == t2[k - 1]);
            assert(skip_spec(bs, t2[k - 1].1.end as int) == bs.len());
        }
        assert(t1[k].1.start < t1[k].1.end <= bs.len());
        assert(false);
    }
    assert(t1 =~= t2);
}

} // verus!
