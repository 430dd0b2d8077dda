//! Fixed-point sample values and decimal text for axis labels.
//!
//! A sample value is an `i64` counting hundredths of a unit, which matches
//! the two decimal places shown on the value axis. Values saturate at
//! `VALUE_LIMIT` so that every pixel computation stays inside `i64`.

use vstd::prelude::*;

verus! {

/// Largest magnitude a sample value can carry, in hundredths.
pub const VALUE_LIMIT: i64 = 50_000_000_000;

pub open spec fn spec_clamp(v: int) -> int {
    if v < -(VALUE_LIMIT as int) {
        -(VALUE_LIMIT as int)
    } else if v > VALUE_LIMIT as int {
        VALUE_LIMIT as int
    } else {
        v
    }
}

/// Saturates a raw value into the representable window.
pub fn clamp_value(v: i64) -> (r: i64)
    ensures
        r == spec_clamp(v as int),
        -VALUE_LIMIT <= r <= VALUE_LIMIT,
{
    if v < -VALUE_LIMIT {
        -VALUE_LIMIT
    } else if v > VALUE_LIMIT {
        VALUE_LIMIT
    } else {
        v
    }
}

pub open spec fn digit_byte(v: int) -> u8 {
    (48 + v % 10) as u8
}

/// The decimal digits of a non-negative number, most significant first.
pub open spec fn dec_digits(n: int) -> Seq<u8>
    decreases n,
{
    if n <= 9 {
        seq![digit_byte(n)]
    } else {
        dec_digits(n / 10).push(digit_byte(n))
    }
}

fn push_digits(n: u64, out: &mut Vec<u8>)
    ensures
        final(out)@ == old(out)@ + dec_digits(n as int),
    decreases n,
{
    if n <= 9 {
        out.push(48 + n as u8);
        proof {
            assert(out@ =~= old(out)@ + dec_digits(n as int));
        }
    } else {
        push_digits(n / 10, out);
        out.push(48 + (n % 10) as u8);
        proof {
            assert(out@ =~= old(out)@ + dec_digits(n as int));
        }
    }
}

/// The decimal text of `n`, as bytes.
pub fn fmt_u64(n: u64) -> (out: Vec<u8>)
    ensures
        out@ == dec_digits(n as int),
{
    let mut out: Vec<u8> = Vec::new();
    push_digits(n, &mut out);
    proof {
        assert(out@ =~= dec_digits(n as int));
    }
    out
}

/// Text of a fixed-point value with exactly two decimal places, as bytes.
pub open spec fn spec_fmt_fixed2(v: int) -> Seq<u8> {
    let a = if v < 0 {
        -v
    } else {
        v
    };
    let sign: Seq<u8> = if v < 0 {
        seq![45u8]
    } else {
        Seq::empty()
    };
    sign + dec_digits(a / 100) + seq![46u8, digit_byte(a / 10), digit_byte(a)]
}

pub fn fmt_fixed2(v: i64) -> (out: Vec<u8>)
    requires
        v > i64::MIN,
    ensures
        out@ == spec_fmt_fixed2(v as int),
{
    let neg = v < 0;
    let a: u64 = if neg {
        (-v) as u64
    } else {
        v as u64
    };
    let mut out: Vec<u8> = Vec::new();
    if neg {
        out.push(45);
    }
    push_digits(a / 100, &mut out);
    out.push(46);
    out.push(48 + ((a / 10) % 10) as u8);
    out.push(48 + (a % 10) as u8);
    proof {
        assert(out@ =~= spec_fmt_fixed2(v as int));
    }
    out
}

} // verus!
