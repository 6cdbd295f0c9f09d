//! Rendering of decoded header fields as text: decimal digit strings and
//! the profile creation date.

use vstd::prelude::*;

use crate::bytes_utils::{be16_at, be_u16, chars_to_string};

verus! {

/// The character for one decimal digit.
pub open spec fn digit_char(d: int) -> char
    recommends
        0 <= d < 10,
{
    if d == 0 {
        '0'
    } else if d == 1 {
        '1'
    } else if d == 2 {
        '2'
    } else if d == 3 {
        '3'
    } else if d == 4 {
        '4'
    } else if d == 5 {
        '5'
    } else if d == 6 {
        '6'
    } else if d == 7 {
        '7'
    } else if d == 8 {
        '8'
    } else {
        '9'
    }
}

/// The decimal representation of a non-negative integer, without leading
/// zeros (a single zero stands for itself).
pub open spec fn dec_str(n: int) -> Seq<char>
    recommends
        n >= 0,
    decreases n,
{
    if n < 10 {
        seq![digit_char(n)]
    } else {
        dec_str(n / 10).push(digit_char(n % 10))
    }
}

/// A digit string left-padded with zeros to at least two characters.
pub open spec fn pad2(s: Seq<char>) -> Seq<char> {
    if s.len() >= 2 {
        s
    } else {
        seq!['0'] + s
    }
}

/// The decimal character of one digit value.
fn digit_of(d: u64) -> (r: char)
    requires
        d < 10,
    ensures
        r == digit_char(d as int),
{
    if d == 0 {
        '0'
    } else if d == 1 {
        '1'
    } else if d == 2 {
        '2'
    } else if d == 3 {
        '3'
    } else if d == 4 {
        '4'
    } else if d == 5 {
        '5'
    } else if d == 6 {
        '6'
    } else if d == 7 {
        '7'
    } else if d == 8 {
        '8'
    } else {
        '9'
    }
}

/// Appends the decimal representation of `n` to `out`.
fn push_dec(n: u64, out: &mut Vec<char>)
    ensures
        final(out)@ == old(out)@ + dec_str(n as int),
    decreases n,
{
    if n < 10 {
        out.push(digit_of(n));
        assert(out@ =~= old(out)@ + dec_str(n as int));
    } else {
        push_dec(n / 10, out);
        out.push(digit_of(n % 10));
        assert(out@ =~= old(out)@ + dec_str(n as int));
    }
}

/// Appends the decimal representation of `n`, zero-padded to at least two
/// characters.
fn push_dec_pad2(n: u64, out: &mut Vec<char>)
    ensures
        final(out)@ == old(out)@ + pad2(dec_str(n as int)),
    decreases n,
{
    if n < 10 {
        out.push('0');
        out.push(digit_of(n));
        assert(out@ =~= old(out)@ + pad2(dec_str(n as int)));
    } else {
        push_dec(n, out);
        assert(dec_str(n as int / 10).len() >= 1);
        assert(dec_str(n as int).len() >= 2);
    }
}

/// The decimal digit string of a non-negative integer, as a `String`.
pub(crate) fn dec_string(n: u64) -> (r: String)
    ensures
        r@ == dec_str(n as int),
{
    let mut v: Vec<char> = Vec::new();
    push_dec(n, &mut v);
    assert(v@ =~= dec_str(n as int));
    chars_to_string(&v)
}

/// The text form of a 12-byte ICC dateTimeNumber: six big-endian 16-bit
/// fields rendered as `year-month-day, HH:MM:SS`, the time parts padded to
/// two digits.
pub open spec fn date_time_string(d: Seq<u8>) -> Seq<char>
    recommends
        d.len() == 12,
{
    dec_str(be_u16(d.subrange(0, 2))) + seq!['-'] + dec_str(be_u16(d.subrange(2, 4))) + seq!['-']
        + dec_str(be_u16(d.subrange(4, 6))) + seq![',', ' '] + pad2(
        dec_str(be_u16(d.subrange(6, 8))),
    ) + seq![':'] + pad2(dec_str(be_u16(d.subrange(8, 10)))) + seq![':'] + pad2(
        dec_str(be_u16(d.subrange(10, 12))),
    )
}

/// Decodes a 12-byte dateTimeNumber into its display form: year, month and
/// day separated by dashes, then hours, minutes and seconds each padded to
/// two digits and separated by colons.
pub fn get_date_time_number(date: &[u8; 12]) -> (r: String)
    ensures
        r@ == date_time_string(date@),
{
    let d: &[u8] = date.as_slice();
    let mut v: Vec<char> = Vec::new();
    push_dec(be16_at(d, 0) as u64, &mut v);
    v.push('-');
    push_dec(be16_at(d, 2) as u64, &mut v);
    v.push('-');
    push_dec(be16_at(d, 4) as u64, &mut v);
    v.push(',');
    v.push(' ');
    push_dec_pad2(be16_at(d, 6) as u64, &mut v);
    v.push(':');
    push_dec_pad2(be16_at(d, 8) as u64, &mut v);
    v.push(':');
    push_dec_pad2(be16_at(d, 10) as u64, &mut v);
    assert(v@ =~= date_time_string(date@));
    chars_to_string(&v)
}

} // verus!
