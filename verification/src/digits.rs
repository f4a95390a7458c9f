//! Decimal digits: recognising them, and rendering small integers as
//! decimal text.

use vstd::prelude::*;

verus! {

/// A decimal digit.
pub open spec fn is_digit(c: char) -> bool {
    '0' as u32 <= c as u32 && c as u32 <= '9' as u32
}

/// The numeric value of a decimal digit.
pub open spec fn digit_val(c: char) -> int {
    c as u32 - '0' as u32
}

/// The character for a digit value in 0..=9.
pub open spec fn digit_char(d: int) -> char {
    if d == 0 {
        '0'
    } else if d == 1 {
        '1'
    } else if d == 2 {
        '2'
    } else if d == 3 {
        '3'
    } else if d == 4 {
        '4'
    } else if d == 5 {
        '5'
    } else if d == 6 {
        '6'
    } else if d == 7 {
        '7'
    } else if d == 8 {
        '8'
    } else {
        '9'
    }
}

/// The decimal representation of a non-negative integer, without leading
/// zeros (a single `'0'` for zero).
pub open spec fn dec_rep(n: int) -> Seq<char>
    recommends
        n >= 0,
    decreases n,
{
    if n <= 9 {
        seq![digit_char(n)]
    } else {
        dec_rep(n / 10).push(digit_char(n % 10))
    }
}

/// The decimal representation of a non-negative integer, zero-padded on
/// the left to exactly `w` digits (truncating high digits if they do not
/// fit, which callers avoid).
pub open spec fn pad_digits(n: int, w: nat) -> Seq<char>
    recommends
        n >= 0,
    decreases w,
{
    if w == 0 {
        Seq::empty()
    } else {
        pad_digits(n / 10, (w - 1) as nat).push(digit_char(n % 10))
    }
}

/// `s` with every trailing `'0'` removed.
pub open spec fn trim_zeros(s: Seq<char>) -> Seq<char>
    decreases s.len(),
{
    if s.len() > 0 && s.last() == '0' {
        trim_zeros(s.drop_last())
    } else {
        s
    }
}

pub fn is_digit_exec(c: char) -> (b: bool)
    ensures
        b == is_digit(c),
{
    '0' as u32 <= c as u32 && c as u32 <= '9' as u32
}

fn digit_char_exec(d: u64) -> (c: char)
    requires
        d <= 9,
    ensures
        c == digit_char(d as int),
{
    if d == 0 {
        '0'
    } else if d == 1 {
        '1'
    } else if d == 2 {
        '2'
    } else if d == 3 {
        '3'
    } else if d == 4 {
        '4'
    } else if d == 5 {
        '5'
    } else if d == 6 {
        '6'
    } else if d == 7 {
        '7'
    } else if d == 8 {
        '8'
    } else {
        '9'
    }
}

/// Appends the decimal representation of `n` to `out`.
pub fn append_dec(out: &mut Vec<char>, n: u64)
    ensures
        final(out)@ == old(out)@ + dec_rep(n as int),
    decreases n,
{
    if n <= 9 {
        out.push(digit_char_exec(n));
        proof {
            assert(out@ =~= old(out)@ + dec_rep(n as int));
        }
    } else {
        append_dec(out, n / 10);
        out.push(digit_char_exec(n % 10));
        proof {
            assert(out@ =~= old(out)@ + dec_rep(n as int));
        }
    }
}

/// Appends the `w`-digit zero-padded decimal representation of `n` to
/// `out`.
pub fn append_padded(out: &mut Vec<char>, n: u64, w: usize)
    ensures
        final(out)@ == old(out)@ + pad_digits(n as int, w as nat),
    decreases w,
{
    if w == 0 {
        proof {
            assert(out@ =~= old(out)@ + pad_digits(n as int, w as nat));
        }
    } else {
        append_padded(out, n / 10, w - 1);
        out.push(digit_char_exec(n % 10));
        proof {
            assert(out@ =~= old(out)@ + pad_digits(n as int, w as nat));
        }
    }
}

/// Removes every trailing `'0'` from `v`.
pub fn trim_trailing_zeros(v: &mut Vec<char>)
    ensures
        final(v)@ == trim_zeros(old(v)@),
{
    loop
        invariant
            trim_zeros(v@) == trim_zeros(old(v)@),
        decreases v@.len(),
    {
        if v.len() > 0 && v[v.len() - 1] == '0' {
            proof {
                assert(v@.last() == '0');
            }
            v.pop();
        } else {
            proof {
                assert(trim_zeros(v@) == v@);
            }
            return ;
        }
    }
}

} // verus!
