use vstd::prelude::*;
use vstd::utf8::{decode_utf8, valid_utf8};

verus! {

/// Relies on `String::push`: appends one character to the string.
#[verifier::external_body]
pub fn push_char(buf: &mut String, c: char)
    ensures
        final (buf)@ == old(buf)@.push(c),
{
    buf.push(c);
}

/// Relies on `String::from_utf8`: succeeds exactly when the bytes are
/// valid UTF-8, and then returns the string they encode.
#[verifier::external_body]
pub fn string_from_utf8(v: Vec<u8>) -> (r: Option<String>)
    ensures
        r is Some <==> valid_utf8(v@),
        r is Some ==> r->0@ == decode_utf8(v@),
{
    String::from_utf8(v).ok()
}

/// Relies on `char::from_u32`: succeeds exactly on Unicode scalar
/// values and returns the character with that value.
#[verifier::external_body]
pub fn char_from_u32(v: u32) -> (r: Option<char>)
    ensures
        r is Some <==> vstd::utf8::is_scalar(v),
        r is Some ==> r->0 as u32 == v,
{
    char::from_u32(v)
}

/// The decimal digit character for a value below ten.
pub open spec fn digit_char(d: int) -> char {
    ((d + 48) as u8) as char
}

/// The decimal digits of `n`, with no leading zero; empty for zero.
pub open spec fn dec_rec(n: nat) -> Seq<char>
    decreases n,
{
    if n == 0 {
        Seq::empty()
    } else {
        dec_rec(n / 10).push(digit_char((n % 10) as int))
    }
}

/// The decimal representation of `n`, as `u32`s are written in a
/// quantifier such as `{2,5}`.
pub open spec fn dec_str(n: nat) -> Seq<char> {
    if n == 0 {
        seq!['0']
    } else {
        dec_rec(n)
    }
}

fn push_dec_rec(buf: &mut String, n: u32)
    ensures
        final (buf)@ == old(buf)@ + dec_rec(n as nat),
    decreases n,
{
    if n == 0 {
        proof {
            assert(buf@ =~= old(buf)@ + dec_rec(0));
        }
        return ;
    }
    push_dec_rec(buf, n / 10);
    let d: u8 = (n % 10) as u8 + 48;
    push_char(buf, d as char);
    proof {
        assert(d as char == digit_char(n as int % 10));
        assert(buf@ =~= old(buf)@ + dec_rec(n as nat));
    }
}

/// Appends the decimal representation of `n` to the buffer.
pub fn push_u32_decimal(buf: &mut String, n: u32)
    ensures
        final (buf)@ == old(buf)@ + dec_str(n as nat),
{
    if n == 0 {
        push_char(buf, '0');
        proof {
            assert(buf@ =~= old(buf)@ + dec_str(0));
        }
    } else {
        push_dec_rec(buf, n);
    }
}

/// Appends one character, escaped with a backslash.
pub fn push_escaped(buf: &mut String, c: char)
    ensures
        final (buf)@ == old(buf)@ + seq!['\\', c],
{
    push_char(buf, '\\');
    push_char(buf, c);
    proof {
        assert(buf@ =~= old(buf)@ + seq!['\\', c]);
    }
}

} // verus!
