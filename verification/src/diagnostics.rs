use vstd::prelude::*;

use crate::error::{CharClassError, CharStringError, CompileError, CompileErrorKind, ParseError,
    ParseErrorKind};
use crate::repetition::RepetitionError;
use crate::span::Span;
use crate::strutil::string_from_utf8;
use crate::token::ParseErrorMsg;
use crate::warning::Warning;
use vstd::string::StringSliceAdditionalSpecFns;
use vstd::utf8::{decode_utf8, valid_utf8};

verus! {

/// The end of the leading run of bytes satisfying `pred` in `[i, b)`.
pub open spec fn run_to(bytes: Seq<u8>, i: int, b: int, pred: spec_fn(u8) -> bool) -> int
    decreases b - i,
    when 0 <= i <= b <= bytes.len()
{
    if i >= b {
        i
    } else if pred(bytes[i]) {
        run_to(bytes, i + 1, b, pred)
    } else {
        i
    }
}

/// The start of the trailing run of bytes satisfying `pred` in `[a, i)`.
pub open spec fn run_back(bytes: Seq<u8>, a: int, i: int, pred: spec_fn(u8) -> bool) -> int
    decreases i - a,
    when 0 <= a <= i <= bytes.len()
{
    if i <= a {
        i
    } else if pred(bytes[i - 1]) {
        run_back(bytes, a, i - 1, pred)
    } else {
        i
    }
}

/// True for a `-` byte.
pub open spec fn is_dash_byte(b: u8) -> bool {
    b == 45
}

/// The end of the leading run of `-` bytes in `[i, b)`.
pub open spec fn dash_run_to(bytes: Seq<u8>, i: int, b: int) -> int {
    run_to(bytes, i, b, |b: u8| is_dash_byte(b))
}

/// The start of the trailing run of `-` bytes in `[a, i)`.
pub open spec fn dash_run_back(bytes: Seq<u8>, a: int, i: int) -> int {
    run_back(bytes, a, i, |b: u8| is_dash_byte(b))
}

fn is_dash_b(b: u8) -> (r: bool)
    ensures
        r == is_dash_byte(b),
{
    b == 45
}

fn scan_dash_to(bytes: &[u8], a: usize, b: usize) -> (r: usize)
    requires
        a <= b <= bytes@.len(),
    ensures
        r == dash_run_to(bytes@, a as int, b as int),
        a <= r <= b,
{
    let mut i = a;
    while i < b && is_dash_b(bytes[i])
        invariant
            a <= i <= b <= bytes@.len(),
            dash_run_to(bytes@, a as int, b as int) == dash_run_to(bytes@, i as int, b as int),
        decreases b - i,
    {
        i = i + 1;
    }
    proof {
        assert(dash_run_to(bytes@, i as int, b as int) == i);
    }
    i
}

fn scan_dash_back(bytes: &[u8], a: usize, b: usize) -> (r: usize)
    requires
        a <= b <= bytes@.len(),
    ensures
        r == dash_run_back(bytes@, a as int, b as int),
        a <= r <= b,
{
    let mut i = b;
    while i > a && is_dash_b(bytes[i - 1])
        invariant
            a <= i <= b <= bytes@.len(),
            dash_run_back(bytes@, a as int, b as int) == dash_run_back(bytes@, a as int, i as int),
        decreases i - a,
    {
        i = i - 1;
    }
    proof {
        assert(dash_run_back(bytes@, a as int, i as int) == i);
    }
    i
}

/// True for a whitespace byte.
pub open spec fn is_ws_byte(b: u8) -> bool {
    crate::tokenize::is_ws_byte(b)
}

/// The end of the leading run of whitespace bytes in `[i, b)`.
pub open spec fn ws_run_to(bytes: Seq<u8>, i: int, b: int) -> int {
    run_to(bytes, i, b, |b: u8| is_ws_byte(b))
}

/// The start of the trailing run of whitespace bytes in `[a, i)`.
pub open spec fn ws_run_back(bytes: Seq<u8>, a: int, i: int) -> int {
    run_back(bytes, a, i, |b: u8| is_ws_byte(b))
}

fn is_ws_b(b: u8) -> (r: bool)
    ensures
        r == is_ws_byte(b),
{
    b == 32 || b == 9 || b == 10 || b == 13 || b == 11 || b == 12
}

fn scan_ws_to(bytes: &[u8], a: usize, b: usize) -> (r: usize)
    requires
        a <= b <= bytes@.len(),
    ensures
        r == ws_run_to(bytes@, a as int, b as int),
        a <= r <= b,
{
    let mut i = a;
    while i < b && is_ws_b(bytes[i])
        invariant
            a <= i <= b <= bytes@.len(),
            ws_run_to(bytes@, a as int, b as int) == ws_run_to(bytes@, i as int, b as int),
        decreases b - i,
    {
        i = i + 1;
    }
    proof {
        assert(ws_run_to(bytes@, i as int, b as int) == i);
    }
    i
}

fn scan_ws_back(bytes: &[u8], a: usize, b: usize) -> (r: usize)
    requires
        a <= b <= bytes@.len(),
    ensures
        r == ws_run_back(bytes@, a as int, b as int),
        a <= r <= b,
{
    let mut i = b;
    while i > a && is_ws_b(bytes[i - 1])
        invariant
            a <= i <= b <= bytes@.len(),
            ws_run_back(bytes@, a as int, b as int) == ws_run_back(bytes@, a as int, i as int),
        decreases i - a,
    {
        i = i - 1;
    }
    proof {
        assert(ws_run_back(bytes@, a as int, i as int) == i);
    }
    i
}

/// True for a quote byte.
pub open spec fn is_quote_byte(b: u8) -> bool {
    b == 34 || b == 39
}

/// The end of the leading run of quote bytes in `[i, b)`.
pub open spec fn quote_run_to(bytes: Seq<u8>, i: int, b: int) -> int {
    run_to(bytes, i, b, |b: u8| is_quote_byte(b))
}

/// The start of the trailing run of quote bytes in `[a, i)`.
pub open spec fn quote_run_back(bytes: Seq<u8>, a: int, i: int) -> int {
    run_back(bytes, a, i, |b: u8| is_quote_byte(b))
}

fn is_quote_b(b: u8) -> (r: bool)
    ensures
        r == is_quote_byte(b),
{
    b == 34 || b == 39
}

fn scan_quote_to(bytes: &[u8], a: usize, b: usize) -> (r: usize)
    requires
        a <= b <= bytes@.len(),
    ensures
        r == quote_run_to(bytes@, a as int, b as int),
        a <= r <= b,
{
    let mut i = a;
    while i < b && is_quote_b(bytes[i])
        invariant
            a <= i <= b <= bytes@.len(),
            quote_run_to(bytes@, a as int, b as int) == quote_run_to(bytes@, i as int, b as int),
        decreases b - i,
    {
        i = i + 1;
    }
    proof {
        assert(quote_run_to(bytes@, i as int, b as int) == i);
    }
    i
}

fn scan_quote_back(bytes: &[u8], a: usize, b: usize) -> (r: usize)
    requires
        a <= b <= bytes@.len(),
    ensures
        r == quote_run_back(bytes@, a as int, b as int),
        a <= r <= b,
{
    let mut i = b;
    while i > a && is_quote_b(bytes[i - 1])
        invariant
            a <= i <= b <= bytes@.len(),
            quote_run_back(bytes@, a as int, b as int) == quote_run_back(bytes@, a as int, i as int),
        decreases i - a,
    {
        i = i - 1;
    }
    proof {
        assert(quote_run_back(bytes@, a as int, i as int) == i);
    }
    i
}

/// True for a `P` byte.
pub open spec fn is_upper_p_byte(b: u8) -> bool {
    b == 80
}

/// The end of the leading run of `P` bytes in `[i, b)`.
pub open spec fn upper_p_run_to(bytes: Seq<u8>, i: int, b: int) -> int {
    run_to(bytes, i, b, |b: u8| is_upper_p_byte(b))
}

/// The start of the trailing run of `P` bytes in `[a, i)`.
pub open spec fn upper_p_run_back(bytes: Seq<u8>, a: int, i: int) -> int {
    run_back(bytes, a, i, |b: u8| is_upper_p_byte(b))
}

fn is_upper_p_b(b: u8) -> (r: bool)
    ensures
        r == is_upper_p_byte(b),
{
    b == 80
}

fn scan_upper_p_to(bytes: &[u8], a: usize, b: usize) -> (r: usize)
    requires
        a <= b <= bytes@.len(),
    ensures
        r == upper_p_run_to(bytes@, a as int, b as int),
        a <= r <= b,
{
    let mut i = a;
    while i < b && is_upper_p_b(bytes[i])
        invariant
            a <= i <= b <= bytes@.len(),
            upper_p_run_to(bytes@, a as int, b as int) == upper_p_run_to(bytes@, i as int, b as int),
        decreases b - i,
    {
        i = i + 1;
    }
    proof {
        assert(upper_p_run_to(bytes@, i as int, b as int) == i);
    }
    i
}

fn scan_upper_p_back(bytes: &[u8], a: usize, b: usize) -> (r: usize)
    requires
        a <= b <= bytes@.len(),
    ensures
        r == upper_p_run_back(bytes@, a as int, b as int),
        a <= r <= b,
{
    let mut i = b;
    while i > a && is_upper_p_b(bytes[i - 1])
        invariant
            a <= i <= b <= bytes@.len(),
            upper_p_run_back(bytes@, a as int, b as int) == upper_p_run_back(bytes@, a as int, i as int),
        decreases i - a,
    {
        i = i - 1;
    }
    proof {
        assert(upper_p_run_back(bytes@, a as int, i as int) == i);
    }
    i
}

/// True for a `<`, `>` or `'` byte.
pub open spec fn is_angle_quote_byte(b: u8) -> bool {
    b == 60 || b == 62 || b == 39
}

/// The end of the leading run of `<`, `>` or `'` bytes in `[i, b)`.
pub open spec fn angle_quote_run_to(bytes: Seq<u8>, i: int, b: int) -> int {
    run_to(bytes, i, b, |b: u8| is_angle_quote_byte(b))
}

/// The start of the trailing run of `<`, `>` or `'` bytes in `[a, i)`.
pub open spec fn angle_quote_run_back(bytes: Seq<u8>, a: int, i: int) -> int {
    run_back(bytes, a, i, |b: u8| is_angle_quote_byte(b))
}

fn is_angle_quote_b(b: u8) -> (r: bool)
    ensures
        r == is_angle_quote_byte(b),
{
    b == 60 || b == 62 || b == 39
}

fn scan_angle_quote_to(bytes: &[u8], a: usize, b: usize) -> (r: usize)
    requires
        a <= b <= bytes@.len(),
    ensures
        r == angle_quote_run_to(bytes@, a as int, b as int),
        a <= r <= b,
{
    let mut i = a;
    while i < b && is_angle_quote_b(bytes[i])
        invariant
            a <= i <= b <= bytes@.len(),
            angle_quote_run_to(bytes@, a as int, b as int) == angle_quote_run_to(bytes@, i as int, b as int),
        decreases b - i,
    {
        i = i + 1;
    }
    proof {
        assert(angle_quote_run_to(bytes@, i as int, b as int) == i);
    }
    i
}

fn scan_angle_quote_back(bytes: &[u8], a: usize, b: usize) -> (r: usize)
    requires
        a <= b <= bytes@.len(),
    ensures
        r == angle_quote_run_back(bytes@, a as int, b as int),
        a <= r <= b,
{
    let mut i = b;
    while i > a && is_angle_quote_b(bytes[i - 1])
        invariant
            a <= i <= b <= bytes@.len(),
            angle_quote_run_back(bytes@, a as int, b as int) == angle_quote_run_back(bytes@, a as int, i as int),
        decreases i - a,
    {
        i = i - 1;
    }
    proof {
        assert(angle_quote_run_back(bytes@, a as int, i as int) == i);
    }
    i
}

/// True for a `)` byte.
pub open spec fn is_cparen_byte(b: u8) -> bool {
    b == 41
}

/// The end of the leading run of `)` bytes in `[i, b)`.
pub open spec fn cparen_run_to(bytes: Seq<u8>, i: int, b: int) -> int {
    run_to(bytes, i, b, |b: u8| is_cparen_byte(b))
}

/// The start of the trailing run of `)` bytes in `[a, i)`.
pub open spec fn cparen_run_back(bytes: Seq<u8>, a: int, i: int) -> int {
    run_back(bytes, a, i, |b: u8| is_cparen_byte(b))
}

fn is_cparen_b(b: u8) -> (r: bool)
    ensures
        r == is_cparen_byte(b),
{
    b == 41
}

fn scan_cparen_to(bytes: &[u8], a: usize, b: usize) -> (r: usize)
    requires
        a <= b <= bytes@.len(),
    ensures
        r == cparen_run_to(bytes@, a as int, b as int),
        a <= r <= b,
{
    let mut i = a;
    while i < b && is_cparen_b(bytes[i])
        invariant
            a <= i <= b <= bytes@.len(),
            cparen_run_to(bytes@, a as int, b as int) == cparen_run_to(bytes@, i as int, b as int),
        decreases b - i,
    {
        i = i + 1;
    }
    proof {
        assert(cparen_run_to(bytes@, i as int, b as int) == i);
    }
    i
}

fn scan_cparen_back(bytes: &[u8], a: usize, b: usize) -> (r: usize)
    requires
        a <= b <= bytes@.len(),
    ensures
        r == cparen_run_back(bytes@, a as int, b as int),
        a <= r <= b,
{
    let mut i = b;
    while i > a && is_cparen_b(bytes[i - 1])
        invariant
            a <= i <= b <= bytes@.len(),
            cparen_run_back(bytes@, a as int, b as int) == cparen_run_back(bytes@, a as int, i as int),
        decreases i - a,
    {
        i = i - 1;
    }
    proof {
        assert(cparen_run_back(bytes@, a as int, i as int) == i);
    }
    i
}

/// True for a `{` or `}` byte.
pub open spec fn is_brace_byte(b: u8) -> bool {
    b == 123 || b == 125
}

/// The end of the leading run of `{` or `}` bytes in `[i, b)`.
pub open spec fn brace_run_to(bytes: Seq<u8>, i: int, b: int) -> int {
    run_to(bytes, i, b, |b: u8| is_brace_byte(b))
}

/// The start of the trailing run of `{` or `}` bytes in `[a, i)`.
pub open spec fn brace_run_back(bytes: Seq<u8>, a: int, i: int) -> int {
    run_back(bytes, a, i, |b: u8| is_brace_byte(b))
}

fn is_brace_b(b: u8) -> (r: bool)
    ensures
        r == is_brace_byte(b),
{
    b == 123 || b == 125
}

fn scan_brace_to(bytes: &[u8], a: usize, b: usize) -> (r: usize)
    requires
        a <= b <= bytes@.len(),
    ensures
        r == brace_run_to(bytes@, a as int, b as int),
        a <= r <= b,
{
    let mut i = a;
    while i < b && is_brace_b(bytes[i])
        invariant
            a <= i <= b <= bytes@.len(),
            brace_run_to(bytes@, a as int, b as int) == brace_run_to(bytes@, i as int, b as int),
        decreases b - i,
    {
        i = i + 1;
    }
    proof {
        assert(brace_run_to(bytes@, i as int, b as int) == i);
    }
    i
}

fn scan_brace_back(bytes: &[u8], a: usize, b: usize) -> (r: usize)
    requires
        a <= b <= bytes@.len(),
    ensures
        r == brace_run_back(bytes@, a as int, b as int),
        a <= r <= b,
{
    let mut i = b;
    while i > a && is_brace_b(bytes[i - 1])
        invariant
            a <= i <= b <= bytes@.len(),
            brace_run_back(bytes@, a as int, b as int) == brace_run_back(bytes@, a as int, i as int),
        decreases i - a,
    {
        i = i - 1;
    }
    proof {
        assert(brace_run_back(bytes@, a as int, i as int) == i);
    }
    i
}

/// True for a `{`, `}`, `<`, `>` or `'` byte.
pub open spec fn is_brace_angle_quote_byte(b: u8) -> bool {
    b == 123 || b == 125 || b == 60 || b == 62 || b == 39
}

/// The end of the leading run of `{`, `}`, `<`, `>` or `'` bytes in `[i, b)`.
pub open spec fn brace_angle_quote_run_to(bytes: Seq<u8>, i: int, b: int) -> int {
    run_to(bytes, i, b, |b: u8| is_brace_angle_quote_byte(b))
}

/// The start of the trailing run of `{`, `}`, `<`, `>` or `'` bytes in `[a, i)`.
pub open spec fn brace_angle_quote_run_back(bytes: Seq<u8>, a: int, i: int) -> int {
    run_back(bytes, a, i, |b: u8| is_brace_angle_quote_byte(b))
}

fn is_brace_angle_quote_b(b: u8) -> (r: bool)
    ensures
        r == is_brace_angle_quote_byte(b),
{
    b == 123 || b == 125 || b == 60 || b == 62 || b == 39
}

fn scan_brace_angle_quote_to(bytes: &[u8], a: usize, b: usize) -> (r: usize)
    requires
        a <= b <= bytes@.len(),
    ensures
        r == brace_angle_quote_run_to(bytes@, a as int, b as int),
        a <= r <= b,
{
    let mut i = a;
    while i < b && is_brace_angle_quote_b(bytes[i])
        invariant
            a <= i <= b <= bytes@.len(),
            brace_angle_quote_run_to(bytes@, a as int, b as int) == brace_angle_quote_run_to(bytes@, i as int, b as int),
        decreases b - i,
    {
        i = i + 1;
    }
    proof {
        assert(brace_angle_quote_run_to(bytes@, i as int, b as int) == i);
    }
    i
}

fn scan_brace_angle_quote_back(bytes: &[u8], a: usize, b: usize) -> (r: usize)
    requires
        a <= b <= bytes@.len(),
    ensures
        r == brace_angle_quote_run_back(bytes@, a as int, b as int),
        a <= r <= b,
{
    let mut i = b;
    while i > a && is_brace_angle_quote_b(bytes[i - 1])
        invariant
            a <= i <= b <= bytes@.len(),
            brace_angle_quote_run_back(bytes@, a as int, b as int) == brace_angle_quote_run_back(bytes@, a as int, i as int),
        decreases i - a,
    {
        i = i - 1;
    }
    proof {
        assert(brace_angle_quote_run_back(bytes@, a as int, i as int) == i);
    }
    i
}

/// True for a `{`, `}` or `^` byte.
pub open spec fn is_brace_caret_byte(b: u8) -> bool {
    b == 123 || b == 125 || b == 94
}

/// The end of the leading run of `{`, `}` or `^` bytes in `[i, b)`.
pub open spec fn brace_caret_run_to(bytes: Seq<u8>, i: int, b: int) -> int {
    run_to(bytes, i, b, |b: u8| is_brace_caret_byte(b))
}

/// The start of the trailing run of `{`, `}` or `^` bytes in `[a, i)`.
pub open spec fn brace_caret_run_back(bytes: Seq<u8>, a: int, i: int) -> int {
    run_back(bytes, a, i, |b: u8| is_brace_caret_byte(b))
}

fn is_brace_caret_b(b: u8) -> (r: bool)
    ensures
        r == is_brace_caret_byte(b),
{
    b == 123 || b == 125 || b == 94
}

fn scan_brace_caret_to(bytes: &[u8], a: usize, b: usize) -> (r: usize)
    requires
        a <= b <= bytes@.len(),
    ensures
        r == brace_caret_run_to(bytes@, a as int, b as int),
        a <= r <= b,
{
    let mut i = a;
    while i < b && is_brace_caret_b(bytes[i])
        invariant
            a <= i <= b <= bytes@.len(),
            brace_caret_run_to(bytes@, a as int, b as int) == brace_caret_run_to(bytes@, i as int, b as int),
        decreases b - i,
    {
        i = i + 1;
    }
    proof {
        assert(brace_caret_run_to(bytes@, i as int, b as int) == i);
    }
    i
}

fn scan_brace_caret_back(bytes: &[u8], a: usize, b: usize) -> (r: usize)
    requires
        a <= b <= bytes@.len(),
    ensures
        r == brace_caret_run_back(bytes@, a as int, b as int),
        a <= r <= b,
{
    let mut i = b;
    while i > a && is_brace_caret_b(bytes[i - 1])
        invariant
            a <= i <= b <= bytes@.len(),
            brace_caret_run_back(bytes@, a as int, b as int) == brace_caret_run_back(bytes@, a as int, i as int),
        decreases i - a,
    {
        i = i - 1;
    }
    proof {
        assert(brace_caret_run_back(bytes@, a as int, i as int) == i);
    }
    i
}

fn decode_range(bytes: &[u8], a: usize, b: usize) -> (r: Option<String>)
    requires
        a <= b <= bytes@.len(),
    ensures
        r is Some <==> valid_utf8(bytes@.subrange(a as int, b as int)),
        r is Some ==> r->0@ == decode_utf8(bytes@.subrange(a as int, b as int)),
{
    string_from_utf8(crate::parse::bytes_range(bytes, a, b))
}

/// True when `[a, b)` holds a `-` byte.
pub open spec fn has_dash(bytes: Seq<u8>, a: int, b: int) -> bool {
    exists|i: int| a <= i < b && bytes[i] == 45
}

fn find_dash(bytes: &[u8], a: usize, b: usize) -> (r: Option<usize>)
    requires
        a <= b <= bytes@.len(),
    ensures
        r is Some <==> has_dash(bytes@, a as int, b as int),
        r is Some ==> a <= r->0 < b && bytes@[r->0 as int] == 45 && !has_dash(
            bytes@,
            a as int,
            r->0 as int,
        ),
{
    let mut i = a;
    while i < b
        invariant
            a <= i <= b <= bytes@.len(),
            !has_dash(bytes@, a as int, i as int),
        decreases b - i,
    {
        if bytes[i] == 45 {
            return Some(i);
        }
        proof {
            assert forall|j: int| a <= j < i + 1 implies bytes@[j] != 45 by {}
        }
        i = i + 1;
    }
    None
}

/// True when every byte in `[a, b)` is an ASCII digit.
pub open spec fn all_digits(bytes: Seq<u8>, a: int, b: int) -> bool {
    forall|i: int| a <= i < b ==> crate::tokenize::is_digit_byte(#[trigger] bytes[i])
}

fn check_all_digits(bytes: &[u8], a: usize, b: usize) -> (r: bool)
    requires
        a <= b <= bytes@.len(),
    ensures
        r == all_digits(bytes@, a as int, b as int),
{
    let mut i = a;
    while i < b
        invariant
            a <= i <= b <= bytes@.len(),
            all_digits(bytes@, a as int, i as int),
        decreases b - i,
    {
        let d = bytes[i];
        if !(48 <= d && d <= 57) {
            return false;
        }
        i = i + 1;
    }
    true
}

/// Where repeated leading `(?` pairs end, starting at `i`.
pub open spec fn strip_oparen_q(bytes: Seq<u8>, i: int, b: int) -> int
    decreases b - i,
    when 0 <= i <= b <= bytes.len()
{
    if i + 2 <= b && bytes[i] == 40 && bytes[i + 1] == 63 {
        strip_oparen_q(bytes, i + 2, b)
    } else {
        i
    }
}

fn scan_oparen_q(bytes: &[u8], a: usize, b: usize) -> (r: usize)
    requires
        a <= b <= bytes@.len(),
    ensures
        r == strip_oparen_q(bytes@, a as int, b as int),
        a <= r <= b,
{
    let mut i = a;
    while i < b && b - i >= 2 && bytes[i] == 40 && bytes[i + 1] == 63
        invariant
            a <= i <= b <= bytes@.len(),
            strip_oparen_q(bytes@, a as int, b as int) == strip_oparen_q(
                bytes@,
                i as int,
                b as int,
            ),
        decreases b - i,
    {
        i = i + 2;
    }
    proof {
        assert(strip_oparen_q(bytes@, i as int, b as int) == i);
    }
    i
}

/// Where repeated leading `(?P=` groups end, starting at `i`.
pub open spec fn strip_pcre_eq(bytes: Seq<u8>, i: int, b: int) -> int
    decreases b - i,
    when 0 <= i <= b <= bytes.len()
{
    if i + 4 <= b && bytes[i] == 40 && bytes[i + 1] == 63 && bytes[i + 2] == 80 && bytes[i + 3]
        == 61 {
        strip_pcre_eq(bytes, i + 4, b)
    } else {
        i
    }
}

fn scan_pcre_eq(bytes: &[u8], a: usize, b: usize) -> (r: usize)
    requires
        a <= b <= bytes@.len(),
    ensures
        r == strip_pcre_eq(bytes@, a as int, b as int),
        a <= r <= b,
{
    let mut i = a;
    while i < b && b - i >= 4 && bytes[i] == 40 && bytes[i + 1] == 63 && bytes[i + 2] == 80
        && bytes[i + 3] == 61
        invariant
            a <= i <= b <= bytes@.len(),
            strip_pcre_eq(bytes@, a as int, b as int) == strip_pcre_eq(
                bytes@,
                i as int,
                b as int,
            ),
        decreases b - i,
    {
        i = i + 4;
    }
    proof {
        assert(strip_pcre_eq(bytes@, i as int, b as int) == i);
    }
    i
}

/// The bytes with `+` and `-` replaced by `_`, as in a normalized
/// Unicode property name.
pub open spec fn replace_pm(s: Seq<u8>) -> Seq<u8> {
    s.map_values(|b: u8| if b == 43 || b == 45 { 95u8 } else { b })
}

fn replace_pm_range(bytes: &[u8], a: usize, b: usize) -> (r: Vec<u8>)
    requires
        a <= b <= bytes@.len(),
    ensures
        r@ == replace_pm(bytes@.subrange(a as int, b as int)),
{
    let mut v: Vec<u8> = Vec::new();
    let mut i = a;
    while i < b
        invariant
            a <= i <= b <= bytes@.len(),
            v@ == replace_pm(bytes@.subrange(a as int, i as int)),
        decreases b - i,
    {
        let c = bytes[i];
        if c == 43 || c == 45 {
            v.push(95);
        } else {
            v.push(c);
        }
        proof {
            assert(v@ =~= replace_pm(bytes@.subrange(a as int, (i + 1) as int)));
        }
        i = i + 1;
    }
    v
}

/// The help for a foreign named capture `(?<name>`, `(?P<name>` or
/// `(?'name'`: suggests the `:name(...)` syntax, and reports balancing
/// groups (whose name holds a `-`) as unsupported.
pub open spec fn named_capture_help_spec(s: Seq<u8>) -> Option<Seq<char>> {
    let p1 = strip_oparen_q(s, 0, s.len() as int);
    let p2 = upper_p_run_to(s, p1, s.len() as int);
    let a = angle_quote_run_to(s, p2, s.len() as int);
    let b = angle_quote_run_back(s, a, s.len() as int);
    if has_dash(s, a, b) {
        Some("Balancing groups are not supported"@)
    } else if valid_utf8(s.subrange(a, b)) {
        Some(
            "Named capturing groups use the `:name(...)` syntax. Try `:"@ + decode_utf8(
                s.subrange(a, b),
            ) + "(...)` instead"@,
        )
    } else {
        None
    }
}

/// Suggests the `:name(...)` syntax for a foreign named capture, or
/// reports a balancing group as unsupported.
pub fn get_named_capture_help(slice: &[u8]) -> (r: Option<String>)
    ensures
        match r {
            Some(h) => named_capture_help_spec(slice@) == Some(h@),
            Option::None => named_capture_help_spec(slice@) is None,
        },
{
    let n = slice.len();
    let p1 = scan_oparen_q(slice, 0, n);
    let p2 = scan_upper_p_to(slice, p1, n);
    let a = scan_angle_quote_to(slice, p2, n);
    let b = scan_angle_quote_back(slice, a, n);
    match find_dash(slice, a, b) {
        Some(_) => Some(String::from_str("Balancing groups are not supported")),
        Option::None => {
            match decode_range(slice, a, b) {
                Some(name) => {
                    let mut s = String::from_str(
                        "Named capturing groups use the `:name(...)` syntax. Try `:",
                    );
                    s.append(name.as_str());
                    s.append("(...)` instead");
                    Some(s)
                },
                Option::None => None,
            }
        },
    }
}

/// The help for a PCRE-style backreference `(?P=name)`: suggests the
/// `::name` syntax.
pub open spec fn pcre_backreference_help_spec(s: Seq<u8>) -> Option<Seq<char>> {
    let a = strip_pcre_eq(s, 0, s.len() as int);
    let b = cparen_run_back(s, a, s.len() as int);
    if valid_utf8(s.subrange(a, b)) {
        Some(
            "Backreferences use the `::name` syntax. Try `::"@ + decode_utf8(s.subrange(a, b))
                + "` instead"@,
        )
    } else {
        None
    }
}

/// Suggests the `::name` syntax for a PCRE-style backreference.
pub fn get_pcre_backreference_help(slice: &[u8]) -> (r: Option<String>)
    ensures
        match r {
            Some(h) => pcre_backreference_help_spec(slice@) == Some(h@),
            Option::None => pcre_backreference_help_spec(slice@) is None,
        },
{
    let n = slice.len();
    let a = scan_pcre_eq(slice, 0, n);
    let b = scan_cparen_back(slice, a, n);
    match decode_range(slice, a, b) {
        Some(name) => {
            let mut s = String::from_str("Backreferences use the `::name` syntax. Try `::");
            s.append(name.as_str());
            s.append("` instead");
            Some(s)
        },
        Option::None => None,
    }
}

/// The help for a plain backslash escape, keyed on the escaped
/// character.
pub open spec fn backslash_help_spec(s: Seq<u8>) -> Option<Seq<char>> {
    if s.len() < 2 || s[0] != 92 {
        None
    } else {
        let c = s[1];
        if c == 98 {
            Some("Replace `\\b` with `%` to match a word boundary"@)
        } else if c == 66 {
            Some("Replace `\\B` with `!%` to match a place without a word boundary"@)
        } else if c == 65 {
            Some("Replace `\\A` with `Start` to match the start of the string"@)
        } else if c == 122 {
            Some("Replace `\\z` with `End` to match the end of the string"@)
        } else if c == 90 {
            Some(
                "\\Z is not supported. Use `End` to match the end of the string.\nNote, however, that `End` doesn't match the position before the final newline."@,
            )
        } else if c == 78 {
            Some("Replace `\\N` with `![n]`"@)
        } else if c == 88 {
            Some("Replace `\\X` with `Grapheme`"@)
        } else if c == 82 {
            Some("Replace `\\R` with `([r] [n] | [v])`"@)
        } else if c == 68 {
            Some("Replace `\\D` with `[!d]`"@)
        } else if c == 87 {
            Some("Replace `\\W` with `[!w]`"@)
        } else if c == 83 {
            Some("Replace `\\S` with `[!s]`"@)
        } else if c == 86 {
            Some("Replace `\\V` with `![v]`"@)
        } else if c == 72 {
            Some("Replace `\\H` with `![h]`"@)
        } else if c == 71 {
            Some("Match attempt anchors are not supported"@)
        } else if c == 97 || c == 101 || c == 102 || c == 110 || c == 114 || c == 116 || c == 104
            || c == 118 || c == 100 || c == 119 || c == 115 {
            Some("Replace `\\"@ + seq![c as char] + "` with `["@ + seq![c as char] + "]`"@)
        } else if c == 48 {
            Some("Replace `\\0` with `U+00`"@)
        } else if 49 <= c <= 55 {
            Some(
                "If this is a backreference, replace it with `::"@ + seq![c as char]
                    + "`.\nIf this is an octal escape, replace it with `U+0"@ + seq![c as char]
                    + "`."@,
            )
        } else if 56 <= c <= 57 {
            Some("Replace `\\"@ + seq![c as char] + "` with `::"@ + seq![c as char] + "`"@)
        } else {
            None
        }
    }
}

/// Suggests the equivalent of a plain backslash escape, keyed on the
/// escaped character.
pub fn get_backslash_help(slice: &[u8]) -> (r: Option<String>)
    ensures
        match r {
            Some(h) => backslash_help_spec(slice@) == Some(h@),
            Option::None => backslash_help_spec(slice@) is None,
        },
{
    if slice.len() < 2 || slice[0] != 92 {
        return None;
    }
    let c = slice[1];
    if c == 98 {
        Some(String::from_str("Replace `\\b` with `%` to match a word boundary"))
    } else if c == 66 {
        Some(String::from_str("Replace `\\B` with `!%` to match a place without a word boundary"))
    } else if c == 65 {
        Some(String::from_str("Replace `\\A` with `Start` to match the start of the string"))
    } else if c == 122 {
        Some(String::from_str("Replace `\\z` with `End` to match the end of the string"))
    } else if c == 90 {
        Some(
            String::from_str(
                "\\Z is not supported. Use `End` to match the end of the string.\nNote, however, that `End` doesn't match the position before the final newline.",
            ),
        )
    } else if c == 78 {
        Some(String::from_str("Replace `\\N` with `![n]`"))
    } else if c == 88 {
        Some(String::from_str("Replace `\\X` with `Grapheme`"))
    } else if c == 82 {
        Some(String::from_str("Replace `\\R` with `([r] [n] | [v])`"))
    } else if c == 68 {
        Some(String::from_str("Replace `\\D` with `[!d]`"))
    } else if c == 87 {
        Some(String::from_str("Replace `\\W` with `[!w]`"))
    } else if c == 83 {
        Some(String::from_str("Replace `\\S` with `[!s]`"))
    } else if c == 86 {
        Some(String::from_str("Replace `\\V` with `![v]`"))
    } else if c == 72 {
        Some(String::from_str("Replace `\\H` with `![h]`"))
    } else if c == 71 {
        Some(String::from_str("Match attempt anchors are not supported"))
    } else if c == 97 || c == 101 || c == 102 || c == 110 || c == 114 || c == 116 || c == 104
        || c == 118 || c == 100 || c == 119 || c == 115 {
        let mut s = String::from_str("Replace `\\");
        crate::strutil::push_char(&mut s, c as char);
        s.append("` with `[");
        crate::strutil::push_char(&mut s, c as char);
        s.append("]`");
        Some(s)
    } else if c == 48 {
        Some(String::from_str("Replace `\\0` with `U+00`"))
    } else if 49 <= c && c <= 55 {
        let mut s = String::from_str("If this is a backreference, replace it with `::");
        crate::strutil::push_char(&mut s, c as char);
        s.append("`.\nIf this is an octal escape, replace it with `U+0");
        crate::strutil::push_char(&mut s, c as char);
        s.append("`.");
        Some(s)
    } else if 56 <= c && c <= 57 {
        let mut s = String::from_str("Replace `\\");
        crate::strutil::push_char(&mut s, c as char);
        s.append("` with `::");
        crate::strutil::push_char(&mut s, c as char);
        s.append("`");
        Some(s)
    } else {
        None
    }
}

/// The help for `￿` and `\xFF` escapes: reformat as `U+HEX`.
pub open spec fn backslash_hex_help_spec(s: Seq<u8>) -> Option<Seq<char>> {
    if s.len() < 2 {
        None
    } else if valid_utf8(s.subrange(2, s.len() as int)) {
        Some("Try `U+"@ + decode_utf8(s.subrange(2, s.len() as int)) + "` instead"@)
    } else {
        None
    }
}

/// Suggests the `U+HEX` form for a `\uFFFF` escape.
pub fn get_backslash_help_u4(slice: &[u8]) -> (r: Option<String>)
    ensures
        match r {
            Some(h) => backslash_hex_help_spec(slice@) == Some(h@),
            Option::None => backslash_hex_help_spec(slice@) is None,
        },
{
    if slice.len() < 2 {
        return None;
    }
    match decode_range(slice, 2, slice.len()) {
        Some(hex) => {
            let mut s = String::from_str("Try `U+");
            s.append(hex.as_str());
            s.append("` instead");
            Some(s)
        },
        Option::None => None,
    }
}

/// Suggests the `U+HEX` form for a `\xFF` escape.
pub fn get_backslash_help_x2(slice: &[u8]) -> (r: Option<String>)
    ensures
        match r {
            Some(h) => backslash_hex_help_spec(slice@) == Some(h@),
            Option::None => backslash_hex_help_spec(slice@) is None,
        },
{
    get_backslash_help_u4(slice)
}

/// The help for `\u{...}` and `\x{...}` escapes: reformat as `U+HEX`.
pub open spec fn backslash_unicode_help_spec(s: Seq<u8>) -> Option<Seq<char>> {
    if s.len() < 2 {
        None
    } else {
        let a = brace_run_to(s, 2, s.len() as int);
        let b = brace_run_back(s, a, s.len() as int);
        if valid_utf8(s.subrange(a, b)) {
            Some("Try `U+"@ + decode_utf8(s.subrange(a, b)) + "` instead"@)
        } else {
            None
        }
    }
}

/// Suggests the `U+HEX` form for a `\u{...}` or `\x{...}` escape.
pub fn get_backslash_help_unicode(slice: &[u8]) -> (r: Option<String>)
    ensures
        match r {
            Some(h) => backslash_unicode_help_spec(slice@) == Some(h@),
            Option::None => backslash_unicode_help_spec(slice@) is None,
        },
{
    if slice.len() < 2 {
        return None;
    }
    let n = slice.len();
    let a = scan_brace_to(slice, 2, n);
    let b = scan_brace_back(slice, a, n);
    match decode_range(slice, a, b) {
        Some(hex) => {
            let mut s = String::from_str("Try `U+");
            s.append(hex.as_str());
            s.append("` instead");
            Some(s)
        },
        Option::None => None,
    }
}

/// The help for `\k` and `\g` references: suggests `::name`, and
/// reports `\k0` and `\g0` recursion as unsupported.
pub open spec fn backslash_gk_help_spec(s: Seq<u8>) -> Option<Seq<char>> {
    if s.len() < 2 {
        None
    } else {
        let a = brace_angle_quote_run_to(s, 2, s.len() as int);
        let b = brace_angle_quote_run_back(s, a, s.len() as int);
        if b - a == 1 && s[a] == 48 {
            Some("Recursion is currently not supported"@)
        } else if valid_utf8(s) && valid_utf8(s.subrange(a, b)) {
            Some(
                "Replace `"@ + decode_utf8(s) + "` with `::"@ + decode_utf8(s.subrange(a, b))
                    + "`"@,
            )
        } else {
            None
        }
    }
}

/// Suggests the `::name` syntax for a `\k` or `\g` reference, or
/// reports recursion as unsupported.
pub fn get_backslash_gk_help(slice: &[u8]) -> (r: Option<String>)
    ensures
        match r {
            Some(h) => backslash_gk_help_spec(slice@) == Some(h@),
            Option::None => backslash_gk_help_spec(slice@) is None,
        },
{
    if slice.len() < 2 {
        return None;
    }
    let n = slice.len();
    let a = scan_brace_angle_quote_to(slice, 2, n);
    let b = scan_brace_angle_quote_back(slice, a, n);
    if b - a == 1 && slice[a] == 48 {
        return Some(String::from_str("Recursion is currently not supported"));
    }
    proof {
        assert(slice@.subrange(0, slice@.len() as int) =~= slice@);
    }
    let whole = match decode_range(slice, 0, n) {
        Some(w) => w,
        Option::None => {
            return None;
        },
    };
    match decode_range(slice, a, b) {
        Some(name) => {
            let mut s = String::from_str("Replace `");
            s.append(whole.as_str());
            s.append("` with `::");
            s.append(name.as_str());
            s.append("`");
            Some(s)
        },
        Option::None => None,
    }
}

/// The help for `\p` and `\P` Unicode properties: suggests `[name]` or
/// `[!name]`, with `+` and `-` in the name normalized to `_`.
pub open spec fn backslash_property_help_spec(s: Seq<u8>) -> Option<Seq<char>> {
    if s.len() < 2 {
        None
    } else {
        let neg = (s[0] == 92 && s[1] == 80 && !(s.len() >= 4 && s[2] == 123 && s[3] == 94)) || (
        s[0] == 92 && s[1] == 112 && s.len() >= 4 && s[2] == 123 && s[3] == 94);
        let a = brace_caret_run_to(s, 2, s.len() as int);
        let b = brace_caret_run_back(s, a, s.len() as int);
        let name = replace_pm(s.subrange(a, b));
        if valid_utf8(s) && valid_utf8(name) {
            if neg {
                Some("Replace `"@ + decode_utf8(s) + "` with `[!"@ + decode_utf8(name) + "]`"@)
            } else {
                Some("Replace `"@ + decode_utf8(s) + "` with `["@ + decode_utf8(name) + "]`"@)
            }
        } else {
            None
        }
    }
}

/// Suggests the `[name]` or `[!name]` syntax for a `\p` or `\P`
/// Unicode property.
pub fn get_backslash_property_help(slice: &[u8]) -> (r: Option<String>)
    ensures
        match r {
            Some(h) => backslash_property_help_spec(slice@) == Some(h@),
            Option::None => backslash_property_help_spec(slice@) is None,
        },
{
    if slice.len() < 2 {
        return None;
    }
    let n = slice.len();
    let neg = (slice[0] == 92 && slice[1] == 80 && !(n >= 4 && slice[2] == 123 && slice[3] == 94))
        || (slice[0] == 92 && slice[1] == 112 && n >= 4 && slice[2] == 123 && slice[3] == 94);
    let a = scan_brace_caret_to(slice, 2, n);
    let b = scan_brace_caret_back(slice, a, n);
    let name_bytes = replace_pm_range(slice, a, b);
    proof {
        assert(slice@.subrange(0, slice@.len() as int) =~= slice@);
    }
    let whole = match decode_range(slice, 0, n) {
        Some(w) => w,
        Option::None => {
            return None;
        },
    };
    match string_from_utf8(name_bytes) {
        Some(name) => {
            let mut s = String::from_str("Replace `");
            s.append(whole.as_str());
            if neg {
                s.append("` with `[!");
            } else {
                s.append("` with `[");
            }
            s.append(name.as_str());
            s.append("]`");
            Some(s)
        },
        Option::None => None,
    }
}

/// The help attached to a lexer hint, given the source slice the token
/// covers.
pub open spec fn lex_help_spec(s: Seq<u8>, msg: ParseErrorMsg) -> Option<Seq<char>> {
    match msg {
        ParseErrorMsg::Caret => Some("Use `Start` to match the start of the string"@),
        ParseErrorMsg::CaretInGroup => Some("Use `![...]` to negate a character class"@),
        ParseErrorMsg::Dollar => Some("Use `End` to match the end of the string"@),
        ParseErrorMsg::GroupNonCapturing => Some(
            "Non-capturing groups are just parentheses: `(...)`. Capturing groups use the `:(...)` syntax."@,
        ),
        ParseErrorMsg::GroupLookahead => Some(
            "Lookahead uses the `>>` syntax. For example, `>> 'bob'` matches if the position is followed by bob."@,
        ),
        ParseErrorMsg::GroupLookaheadNeg => Some(
            "Negative lookahead uses the `!>>` syntax. For example, `!>> 'bob'` matches if the position is not followed by bob."@,
        ),
        ParseErrorMsg::GroupLookbehind => Some(
            "Lookbehind uses the `<<` syntax. For example, `<< 'bob'` matches if the position is preceded with bob."@,
        ),
        ParseErrorMsg::GroupLookbehindNeg => Some(
            "Negative lookbehind uses the `!<<` syntax. For example, `!<< 'bob'` matches if the position is not preceded with bob."@,
        ),
        ParseErrorMsg::GroupComment => Some(
            "Comments start with `#` and go until the end of the line."@,
        ),
        ParseErrorMsg::GroupNamedCapture => named_capture_help_spec(s),
        ParseErrorMsg::GroupPcreBackreference => pcre_backreference_help_spec(s),
        ParseErrorMsg::Backslash => backslash_help_spec(s),
        ParseErrorMsg::BackslashU4 => backslash_hex_help_spec(s),
        ParseErrorMsg::BackslashX2 => backslash_hex_help_spec(s),
        ParseErrorMsg::BackslashUnicode => backslash_unicode_help_spec(s),
        ParseErrorMsg::BackslashGK => backslash_gk_help_spec(s),
        ParseErrorMsg::BackslashProperty => backslash_property_help_spec(s),
        ParseErrorMsg::GroupAtomic => None,
        ParseErrorMsg::GroupConditional => None,
        ParseErrorMsg::GroupBranchReset => None,
        ParseErrorMsg::GroupSubroutineCall => None,
        ParseErrorMsg::GroupOther => None,
        ParseErrorMsg::UnclosedString => None,
    }
}

/// Expands a lexer hint into its help message, given the source slice
/// the token covers.
pub fn get_parse_error_msg_help(slice: &[u8], msg: ParseErrorMsg) -> (r: Option<String>)
    ensures
        match r {
            Some(h) => lex_help_spec(slice@, msg) == Some(h@),
            Option::None => lex_help_spec(slice@, msg) is None,
        },
{
    match msg {
        ParseErrorMsg::Caret => Some(
            String::from_str("Use `Start` to match the start of the string"),
        ),
        ParseErrorMsg::CaretInGroup => Some(
            String::from_str("Use `![...]` to negate a character class"),
        ),
        ParseErrorMsg::Dollar => Some(
            String::from_str("Use `End` to match the end of the string"),
        ),
        ParseErrorMsg::GroupNonCapturing => Some(
            String::from_str(
                "Non-capturing groups are just parentheses: `(...)`. Capturing groups use the `:(...)` syntax.",
            ),
        ),
        ParseErrorMsg::GroupLookahead => Some(
            String::from_str(
                "Lookahead uses the `>>` syntax. For example, `>> 'bob'` matches if the position is followed by bob.",
            ),
        ),
        ParseErrorMsg::GroupLookaheadNeg => Some(
            String::from_str(
                "Negative lookahead uses the `!>>` syntax. For example, `!>> 'bob'` matches if the position is not followed by bob.",
            ),
        ),
        ParseErrorMsg::GroupLookbehind => Some(
            String::from_str(
                "Lookbehind uses the `<<` syntax. For example, `<< 'bob'` matches if the position is preceded with bob.",
            ),
        ),
        ParseErrorMsg::GroupLookbehindNeg => Some(
            String::from_str(
                "Negative lookbehind uses the `!<<` syntax. For example, `!<< 'bob'` matches if the position is not preceded with bob.",
            ),
        ),
        ParseErrorMsg::GroupComment => Some(
            String::from_str("Comments start with `#` and go until the end of the line."),
        ),
        ParseErrorMsg::GroupNamedCapture => get_named_capture_help(slice),
        ParseErrorMsg::GroupPcreBackreference => get_pcre_backreference_help(slice),
        ParseErrorMsg::Backslash => get_backslash_help(slice),
        ParseErrorMsg::BackslashU4 => get_backslash_help_u4(slice),
        ParseErrorMsg::BackslashX2 => get_backslash_help_x2(slice),
        ParseErrorMsg::BackslashUnicode => get_backslash_help_unicode(slice),
        ParseErrorMsg::BackslashGK => get_backslash_gk_help(slice),
        ParseErrorMsg::BackslashProperty => get_backslash_property_help(slice),
        ParseErrorMsg::GroupAtomic => None,
        ParseErrorMsg::GroupConditional => None,
        ParseErrorMsg::GroupBranchReset => None,
        ParseErrorMsg::GroupSubroutineCall => None,
        ParseErrorMsg::GroupOther => None,
        ParseErrorMsg::UnclosedString => None,
    }
}

/// True for a byte that is not `-`.
pub open spec fn is_not_dash_byte(b: u8) -> bool {
    b != 45
}

/// The end of the leading run of non-`-` bytes in `[i, b)`: the
/// position of the first `-`, or `b`.
pub open spec fn not_dash_run_to(bytes: Seq<u8>, i: int, b: int) -> int {
    run_to(bytes, i, b, |b: u8| is_not_dash_byte(b))
}

fn scan_not_dash_to(bytes: &[u8], a: usize, b: usize) -> (r: usize)
    requires
        a <= b <= bytes@.len(),
    ensures
        r == not_dash_run_to(bytes@, a as int, b as int),
        a <= r <= b,
{
    let mut i = a;
    while i < b && bytes[i] != 45
        invariant
            a <= i <= b <= bytes@.len(),
            not_dash_run_to(bytes@, a as int, b as int) == not_dash_run_to(
                bytes@,
                i as int,
                b as int,
            ),
        decreases b - i,
    {
        i = i + 1;
    }
    proof {
        assert(not_dash_run_to(bytes@, i as int, b as int) == i);
    }
    i
}

/// The help that suggests swapping the two sides of a descending
/// range: the slice is split at its first `-`, leading dashes and
/// surrounding whitespace are dropped, and the parts are shown in the
/// opposite order after the given prefix.
pub open spec fn swap_help_spec(s: Seq<u8>, prefix: Seq<char>) -> Option<Seq<char>> {
    let n = s.len() as int;
    let d = not_dash_run_to(s, 0, n);
    if d >= n {
        None
    } else {
        let a1 = ws_run_to(s, 0, d);
        let b1 = ws_run_back(s, a1, d);
        let p2 = dash_run_to(s, d, n);
        let a2 = ws_run_to(s, p2, n);
        let b2 = ws_run_back(s, a2, n);
        if valid_utf8(s.subrange(a2, b2)) && valid_utf8(s.subrange(a1, b1)) {
            Some(
                prefix + decode_utf8(s.subrange(a2, b2)) + "-"@ + decode_utf8(
                    s.subrange(a1, b1),
                ),
            )
        } else {
            None
        }
    }
}

fn swap_help(slice: &[u8], prefix: &str) -> (r: Option<String>)
    ensures
        match r {
            Some(h) => swap_help_spec(slice@, prefix@) == Some(h@),
            Option::None => swap_help_spec(slice@, prefix@) is None,
        },
{
    let n = slice.len();
    let d = scan_not_dash_to(slice, 0, n);
    if d >= n {
        return None;
    }
    let a1 = scan_ws_to(slice, 0, d);
    let b1 = scan_ws_back(slice, a1, d);
    let p2 = scan_dash_to(slice, d, n);
    let a2 = scan_ws_to(slice, p2, n);
    let b2 = scan_ws_back(slice, a2, n);
    let part2 = match decode_range(slice, a2, b2) {
        Some(p) => p,
        Option::None => {
            return None;
        },
    };
    let part1 = match decode_range(slice, a1, b1) {
        Some(p) => p,
        Option::None => {
            return None;
        },
    };
    let mut s = String::from_str(prefix);
    s.append(part2.as_str());
    s.append("-");
    s.append(part1.as_str());
    Some(s)
}

/// The help attached to a parse error, given the source slice its span
/// covers.
pub open spec fn parse_error_help_spec(kind: ParseErrorKind, s: Seq<u8>) -> Option<Seq<char>> {
    match kind {
        ParseErrorKind::LexErrorWithMessage(m) => lex_help_spec(s, m),
        ParseErrorKind::RangeIsNotIncreasing => swap_help_spec(s, "Switch the numbers: "@),
        ParseErrorKind::Dot => Some(
            "The dot is deprecated. Use `Codepoint` to match any code point, or `![n]` to exclude line breaks"@,
        ),
        ParseErrorKind::CharClass(e) => match e {
            CharClassError::UnknownNamedClass { similar, .. } => match similar {
                Some(sim) => Some("Perhaps you meant `"@ + sim@ + "`"@),
                Option::None => None,
            },
            CharClassError::DescendingRange(_, _) => swap_help_spec(
                s,
                "Switch the characters: "@,
            ),
            CharClassError::Empty => Some(
                "You can use `![s !s]` to match nothing, and `C` to match anything"@,
            ),
        },
        ParseErrorKind::CharString(CharStringError::TooManyCodePoints) => {
            let a = quote_run_to(s, 0, s.len() as int);
            let b = quote_run_back(s, a, s.len() as int);
            if all_digits(s, a, b) {
                Some(
                    "Try a `range` expression instead:\nhttps://pomsky-lang.org/docs/language-tour/ranges/"@,
                )
            } else {
                None
            }
        },
        ParseErrorKind::KeywordAfterLet(_) => Some("Use a different variable name"@),
        ParseErrorKind::UnallowedDoubleNot => Some("Remove 2 exclamation marks"@),
        ParseErrorKind::LetBindingExists => Some("Use a different name"@),
        ParseErrorKind::Repetition(e) => match e {
            RepetitionError::QuestionMarkAfterRepetition => Some(
                "If you meant to make the repetition lazy, append the `lazy` keyword instead.\nIf this is intentional, consider adding parentheses around the inner repetition."@,
            ),
            RepetitionError::NotAscending => None,
        },
        ParseErrorKind::RecursionLimit => Some(
            "Try a less nested expression. It helps to refactor it using variables:\nhttps://pomsky-lang.org/docs/language-tour/variables/"@,
        ),
        _ => None,
    }
}

fn parse_error_help(kind: &ParseErrorKind, slice: &[u8]) -> (r: Option<String>)
    ensures
        match r {
            Some(h) => parse_error_help_spec(*kind, slice@) == Some(h@),
            Option::None => parse_error_help_spec(*kind, slice@) is None,
        },
{
    match kind {
        ParseErrorKind::LexErrorWithMessage(m) => get_parse_error_msg_help(slice, *m),
        ParseErrorKind::RangeIsNotIncreasing => swap_help(slice, "Switch the numbers: "),
        ParseErrorKind::Dot => Some(
            String::from_str(
                "The dot is deprecated. Use `Codepoint` to match any code point, or `![n]` to exclude line breaks",
            ),
        ),
        ParseErrorKind::CharClass(e) => match e {
            CharClassError::UnknownNamedClass { similar, .. } => match similar {
                Some(sim) => {
                    let mut s = String::from_str("Perhaps you meant `");
                    s.append(sim.as_str());
                    s.append("`");
                    Some(s)
                },
                Option::None => None,
            },
            CharClassError::DescendingRange(_, _) => swap_help(
                slice,
                "Switch the characters: ",
            ),
            CharClassError::Empty => Some(
                String::from_str(
                    "You can use `![s !s]` to match nothing, and `C` to match anything",
                ),
            ),
        },
        ParseErrorKind::CharString(CharStringError::TooManyCodePoints) => {
            let n = slice.len();
            let a = scan_quote_to(slice, 0, n);
            let b = scan_quote_back(slice, a, n);
            if check_all_digits(slice, a, b) {
                Some(
                    String::from_str(
                        "Try a `range` expression instead:\nhttps://pomsky-lang.org/docs/language-tour/ranges/",
                    ),
                )
            } else {
                None
            }
        },
        ParseErrorKind::KeywordAfterLet(_) => Some(
            String::from_str("Use a different variable name"),
        ),
        ParseErrorKind::UnallowedDoubleNot => Some(
            String::from_str("Remove 2 exclamation marks"),
        ),
        ParseErrorKind::LetBindingExists => Some(String::from_str("Use a different name")),
        ParseErrorKind::Repetition(e) => match e {
            RepetitionError::QuestionMarkAfterRepetition => Some(
                String::from_str(
                    "If you meant to make the repetition lazy, append the `lazy` keyword instead.\nIf this is intentional, consider adding parentheses around the inner repetition.",
                ),
            ),
            RepetitionError::NotAscending => None,
        },
        ParseErrorKind::RecursionLimit => Some(
            String::from_str(
                "Try a less nested expression. It helps to refactor it using variables:\nhttps://pomsky-lang.org/docs/language-tour/variables/",
            ),
        ),
        _ => None,
    }
}

/// A report about one issue: severity, message, optional error code,
/// an optional snapshot of the source, an optional fix suggestion, and
/// the byte span where the issue lies.
pub struct Diagnostic {
    /// Whether this is an error or a warning
    pub severity: Severity,
    /// The error message
    pub msg: String,
    /// The error code (currently unused)
    pub code: Option<String>,
    /// The source code in which the error occurred
    pub source_code: Option<String>,
    /// An optional help message explaining how to fix the error
    pub help: Option<String>,
    /// The byte range of the source where the error occurred
    pub span: Span,
}

/// Indicates whether a diagnostic is an error or a warning.
#[derive(Clone, Copy, PartialEq, Eq, Structural, Debug)]
pub enum Severity {
    Error,
    Warning,
}

/// The byte range a span stands for, with the empty span standing for
/// the whole source.
pub open spec fn resolved_start(span: Span, nbytes: int) -> int {
    if span.spec_is_empty() {
        0
    } else {
        span.start as int
    }
}

/// The end of the byte range a span stands for.
pub open spec fn resolved_end(span: Span, nbytes: int) -> int {
    if span.spec_is_empty() {
        nbytes
    } else {
        span.end as int
    }
}

/// The span a parse-error diagnostic reports: the resolved span,
/// except that an invalid string escape at offset `k` narrows it to
/// the two bytes `[start + k - 1, start + k + 1)` of the escape.
pub open spec fn parse_diag_span(kind: ParseErrorKind, span: Span, nbytes: int) -> Span {
    let rs = resolved_start(span, nbytes);
    let re = resolved_end(span, nbytes);
    match kind {
        ParseErrorKind::InvalidEscapeInStringAt(k) => Span {
            start: (rs + k - 1) as usize,
            end: (rs + k + 1) as usize,
        },
        _ => Span { start: rs as usize, end: re as usize },
    }
}

/// The conditions under which a parse error can be reported against a
/// source of `nbytes` bytes: spans lie within the source and escape
/// offsets stay in range, recursively through collections of errors,
/// so that all the span arithmetic below stays in bounds.
pub open spec fn parse_error_reqs(kind: ParseErrorKind, span: Span, nbytes: int) -> bool
    decreases kind,
{
    match kind {
        ParseErrorKind::Multiple(v) => parse_errors_reqs(v@, nbytes),
        ParseErrorKind::InvalidEscapeInStringAt(k) => (!span.spec_is_empty() ==> span.end
            <= nbytes) && resolved_start(span, nbytes) + k >= 1 && resolved_start(span, nbytes)
            + k + 1 <= usize::MAX,
        _ => !span.spec_is_empty() ==> span.end <= nbytes,
    }
}

/// The conditions of `parse_error_reqs`, over a collection.
pub open spec fn parse_errors_reqs(s: Seq<ParseError>, nbytes: int) -> bool
    decreases s,
{
    if s.len() == 0 {
        true
    } else {
        parse_errors_reqs(s.drop_last(), nbytes) && parse_error_reqs(
            s.last().kind,
            s.last().span,
            nbytes,
        )
    }
}

/// True when the diagnostic is exactly the report of the given parse
/// error against the given source.
pub open spec fn parse_diag_ok(
    d: Diagnostic,
    kind: ParseErrorKind,
    span: Span,
    src: Seq<char>,
) -> bool {
    let bs = vstd::utf8::encode_utf8(src);
    let rs = resolved_start(span, bs.len() as int);
    let re = resolved_end(span, bs.len() as int);
    &&& d.severity is Error
    &&& d.code is None
    &&& d.source_code is Some
    &&& d.source_code->0@ == src
    &&& d.msg@ == kind.msg_spec()
    &&& d.span == parse_diag_span(kind, span, bs.len() as int)
    &&& (match d.help {
        Some(h) => parse_error_help_spec(kind, bs.subrange(rs, re)) == Some(h@),
        Option::None => parse_error_help_spec(kind, bs.subrange(rs, re)) is None,
    })
}

/// The list of single errors a possibly collected error flattens to,
/// in order.
pub open spec fn flat_errors(kind: ParseErrorKind, span: Span) -> Seq<(ParseErrorKind, Span)>
    decreases kind,
{
    match kind {
        ParseErrorKind::Multiple(v) => flat_seq(v@),
        _ => seq![(kind, span)],
    }
}

/// The flattening of a collection of errors.
pub open spec fn flat_seq(s: Seq<ParseError>) -> Seq<(ParseErrorKind, Span)>
    decreases s,
{
    if s.len() == 0 {
        Seq::empty()
    } else {
        flat_seq(s.drop_last()) + flat_errors(s.last().kind, s.last().span)
    }
}

impl Diagnostic {
    /// Creates a diagnostic from a parse error: an error-severity
    /// report carrying the error's message, a snapshot of the source, a
    /// help text where one is known, and the error's span — narrowed to
    /// the two bytes of the escape for an invalid string escape.
    pub fn from_parse_error(error: ParseError, source_code: &str) -> (r: Diagnostic)
        requires
            parse_error_reqs(error.kind, error.span, source_code.spec_bytes().len() as int),
            !(error.kind is Multiple),
        ensures
            parse_diag_ok(r, error.kind, error.span, source_code@),
    {
        let bytes = source_code.as_bytes();
        let n = bytes.len();
        let (rs, re) = match error.span.range() {
            Some((s, e)) => (s, e),
            Option::None => (0, n),
        };
        let mut span = Span::new(rs, re);
        let slice_vec = crate::parse::bytes_range(bytes, rs, re);
        let help: Option<String> = match &error.kind {
            ParseErrorKind::InvalidEscapeInStringAt(k) => {
                span = Span::new(rs + *k - 1, rs + *k + 1);
                None
            },
            kind => parse_error_help(kind, slice_vec.as_slice()),
        };
        Diagnostic {
            severity: Severity::Error,
            code: None,
            msg: error.kind.msg(),
            source_code: Some(String::from_str(source_code)),
            help,
            span,
        }
    }

    /// Creates the diagnostics of a parse error, recursively
    /// flattening a collection of errors: the reports of `Multiple`
    /// are the concatenated reports of its parts, so their number is
    /// the sum of the parts' numbers.
    pub fn from_parse_errors(error: ParseError, source_code: &str) -> (r: Vec<Diagnostic>)
        requires
            parse_error_reqs(error.kind, error.span, source_code.spec_bytes().len() as int),
        ensures
            r@.len() == flat_errors(error.kind, error.span).len(),
            forall|i: int|
                0 <= i < r@.len() ==> parse_diag_ok(
                    #[trigger] r@[i],
                    flat_errors(error.kind, error.span)[i].0,
                    flat_errors(error.kind, error.span)[i].1,
                    source_code@,
                ),
        decreases error.kind,
    {
        let ParseError { kind, span } = error;
        match kind {
            ParseErrorKind::Multiple(v) => {
                let ghost orig = v@;
                let mut v = v;
                let mut out: Vec<Diagnostic> = Vec::new();
                proof {
                    assert(orig.take(0) =~= Seq::<ParseError>::empty());
                }
                while v.len() > 0
                    invariant
                        error.kind is Multiple && error.kind->Multiple_0@ == orig,
                        parse_errors_reqs(orig, source_code.spec_bytes().len() as int),
                        orig =~= orig.take(orig.len() - v@.len()) + v@,
                        out@.len() == flat_seq(orig.take(orig.len() - v@.len())).len(),
                        forall|i: int|
                            0 <= i < out@.len() ==> parse_diag_ok(
                                #[trigger] out@[i],
                                flat_seq(orig.take(orig.len() - v@.len()))[i].0,
                                flat_seq(orig.take(orig.len() - v@.len()))[i].1,
                                source_code@,
                            ),
                    decreases v@.len(),
                {
                    let ghost k = orig.len() - v@.len();
                    let err = v.remove(0);
                    proof {
                        assert(orig[k as int] == err);
                        assert(orig.take(k + 1).drop_last() =~= orig.take(k as int));
                        assert(orig.take(k + 1).last() == err);
                        assert(orig =~= orig.take(k + 1) + v@);
                        lemma_parse_errors_reqs_elem(orig, k as int, source_code.spec_bytes().len() as int);
                        assert(error.kind->Multiple_0@ == orig);
                        assert(decreases_to!(error.kind => error.kind->Multiple_0));
                        assert(decreases_to!(error.kind->Multiple_0 => orig));
                        assert(decreases_to!(orig => orig[k as int]));
                        assert(decreases_to!(orig[k as int] => orig[k as int].kind));
                    }
                    let mut sub = Self::from_parse_errors(err, source_code);
                    let ghost out_before = out@;
                    let ghost sub_view = sub@;
                    let ghost flat_before = flat_seq(orig.take(k as int));
                    let ghost flat_err = flat_errors(orig[k as int].kind, orig[k as int].span);
                    out.append(&mut sub);
                    proof {
                        assert(flat_seq(orig.take(k + 1)) =~= flat_before + flat_err);
                        assert(out@ =~= out_before + sub_view);
                        assert forall|i: int|
                            0 <= i < out@.len() implies parse_diag_ok(
                            #[trigger] out@[i],
                            flat_seq(orig.take(k + 1))[i].0,
                            flat_seq(orig.take(k + 1))[i].1,
                            source_code@,
                        ) by {
                            if i < out_before.len() {
                                assert(out@[i] == out_before[i]);
                                assert((flat_before + flat_err)[i] == flat_before[i]);
                            } else {
                                assert(out@[i] == sub_view[i - out_before.len()]);
                                assert((flat_before + flat_err)[i] == flat_err[i
                                    - out_before.len()]);
                            }
                        }
                    }
                }
                proof {
                    assert(orig.take(orig.len() as int) =~= orig);
                }
                out
            },
            other => {
                let d = Self::from_parse_error(
                    ParseError { kind: other, span },
                    source_code,
                );
                let mut out: Vec<Diagnostic> = Vec::new();
                out.push(d);
                out
            },
        }
    }
}

/// Every element of a collection that satisfies the reporting
/// conditions satisfies them itself.
proof fn lemma_parse_errors_reqs_elem(s: Seq<ParseError>, i: int, nbytes: int)
    requires
        parse_errors_reqs(s, nbytes),
        0 <= i < s.len(),
    ensures
        parse_error_reqs(s[i].kind, s[i].span, nbytes),
    decreases s.len(),
{
    if i == s.len() - 1 {
    } else {
        assert(s.drop_last()[i] == s[i]);
        lemma_parse_errors_reqs_elem(s.drop_last(), i, nbytes);
    }
}

/// The conditions under which a compile error can be reported: its
/// span lies within the source.
pub open spec fn compile_error_reqs(kind: CompileErrorKind, span: Span, nbytes: int) -> bool {
    match kind {
        CompileErrorKind::ParseError(k) => parse_error_reqs(k, span, nbytes),
        _ => !span.spec_is_empty() ==> span.end <= nbytes,
    }
}

/// True when the diagnostic is exactly the report of the given
/// compile error against the given source.
pub open spec fn compile_diag_ok(
    d: Diagnostic,
    kind: CompileErrorKind,
    span: Span,
    src: Seq<char>,
) -> bool {
    match kind {
        CompileErrorKind::ParseError(k) => parse_diag_ok(d, k, span, src),
        _ => {
            let bs = vstd::utf8::encode_utf8(src);
            &&& d.severity is Error
            &&& d.code is None
            &&& d.source_code is Some
            &&& d.source_code->0@ == src
            &&& d.msg@ == kind.msg_spec()
            &&& d.span == (Span {
                start: resolved_start(span, bs.len() as int) as usize,
                end: resolved_end(span, bs.len() as int) as usize,
            })
            &&& (match d.help {
                Some(h) => compile_help_spec(kind) == Some(h@),
                Option::None => compile_help_spec(kind) is None,
            })
        },
    }
}

/// The help attached to a semantic compile error: a similar known name
/// where one was found.
pub open spec fn compile_help_spec(kind: CompileErrorKind) -> Option<Seq<char>> {
    match kind {
        CompileErrorKind::UnknownVariable { similar: Some(sim), .. } => Some(
            "Perhaps you meant `"@ + sim@ + "`"@,
        ),
        CompileErrorKind::UnknownReferenceName { similar: Some(sim), .. } => Some(
            "Perhaps you meant `"@ + sim@ + "`"@,
        ),
        _ => None,
    }
}

impl Diagnostic {
    /// Creates a diagnostic from a compile error. A forwarded parse
    /// error is reported as such; a semantic error carries a similar
    /// known name as help where one was found.
    pub fn from_compile_error(error: CompileError, source_code: &str) -> (r: Diagnostic)
        requires
            compile_error_reqs(error.kind, error.span, source_code.spec_bytes().len() as int),
            match error.kind {
                CompileErrorKind::ParseError(k) => !(k is Multiple),
                _ => true,
            },
        ensures
            compile_diag_ok(r, error.kind, error.span, source_code@),
    {
        let CompileError { kind, span } = error;
        match kind {
            CompileErrorKind::ParseError(k) => Diagnostic::from_parse_error(
                ParseError { kind: k, span },
                source_code,
            ),
            other => {
                let bytes = source_code.as_bytes();
                let n = bytes.len();
                let (rs, re) = match span.range() {
                    Some((s, e)) => (s, e),
                    Option::None => (0, n),
                };
                let help: Option<String> = match &other {
                    CompileErrorKind::UnknownVariable { similar: Some(sim), .. } => {
                        let mut s = String::from_str("Perhaps you meant `");
                        s.append(sim.as_str());
                        s.append("`");
                        Some(s)
                    },
                    CompileErrorKind::UnknownReferenceName { similar: Some(sim), .. } => {
                        let mut s = String::from_str("Perhaps you meant `");
                        s.append(sim.as_str());
                        s.append("`");
                        Some(s)
                    },
                    _ => None,
                };
                Diagnostic {
                    severity: Severity::Error,
                    code: None,
                    msg: other.msg(),
                    source_code: Some(String::from_str(source_code)),
                    help,
                    span: Span::new(rs, re),
                }
            },
        }
    }

    /// Creates one or several diagnostics from a compile error: a
    /// forwarded parse error is recursively flattened; any other error
    /// yields exactly one diagnostic.
    pub fn from_compile_errors(error: CompileError, source_code: &str) -> (r: Vec<Diagnostic>)
        requires
            compile_error_reqs(error.kind, error.span, source_code.spec_bytes().len() as int),
        ensures
            match error.kind {
                CompileErrorKind::ParseError(k) => r@.len() == flat_errors(k, error.span).len()
                    && (forall|i: int|
                    0 <= i < r@.len() ==> parse_diag_ok(
                        #[trigger] r@[i],
                        flat_errors(k, error.span)[i].0,
                        flat_errors(k, error.span)[i].1,
                        source_code@,
                    )),
                _ => r@.len() == 1 && compile_diag_ok(
                    r@[0],
                    error.kind,
                    error.span,
                    source_code@,
                ),
            },
    {
        let CompileError { kind, span } = error;
        match kind {
            CompileErrorKind::ParseError(k) => Diagnostic::from_parse_errors(
                ParseError { kind: k, span },
                source_code,
            ),
            other => {
                let d = Diagnostic::from_compile_error(
                    CompileError { kind: other, span },
                    source_code,
                );
                let mut out: Vec<Diagnostic> = Vec::new();
                out.push(d);
                out
            },
        }
    }

    /// Creates a warning-severity diagnostic from a warning; warnings
    /// carry no help text.
    pub fn from_warning(warning: Warning, source_code: &str) -> (r: Diagnostic)
        requires
            !warning.span.spec_is_empty() ==> warning.span.end
                <= source_code.spec_bytes().len(),
        ensures
            r.severity is Warning,
            r.code is None,
            r.source_code is Some && r.source_code->0@ == source_code@,
            r.msg@ == warning.kind.msg_spec(),
            r.help is None,
            r.span == (Span {
                start: resolved_start(
                    warning.span,
                    source_code.spec_bytes().len() as int,
                ) as usize,
                end: resolved_end(warning.span, source_code.spec_bytes().len() as int) as usize,
            }),
    {
        let bytes = source_code.as_bytes();
        let n = bytes.len();
        let (rs, re) = match warning.span.range() {
            Some((s, e)) => (s, e),
            Option::None => (0, n),
        };
        Diagnostic {
            severity: Severity::Warning,
            code: None,
            msg: warning.kind.msg(),
            source_code: Some(String::from_str(source_code)),
            help: None,
            span: Span::new(rs, re),
        }
    }

    /// Creates an ad-hoc diagnostic without a source code snippet; its
    /// span is empty.
    pub fn ad_hoc(
        severity: Severity,
        code: Option<String>,
        msg: String,
        help: Option<String>,
    ) -> (r: Diagnostic)
        ensures
            r.severity == severity,
            r.code == code,
            r.msg == msg,
            r.help == help,
            r.source_code is None,
            r.span.spec_is_empty(),
    {
        Diagnostic { severity, code, msg, source_code: None, help, span: Span::empty() }
    }
}

} // verus!
