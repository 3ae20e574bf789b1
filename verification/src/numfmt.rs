//! Exact rendering of the sizes the viewer shows with two decimals.
//!
//! A byte count is converted to `f64` (rounding to 53 significant bits, ties
//! to even), divided by a power of 1024 (exact in binary) and printed with
//! `{:.2}`, which rounds the exact binary value to two decimals, ties to
//! even. All of it is integer arithmetic here.
use vstd::prelude::*;
use crate::text::{decimal, digit_char};

verus! {

pub open spec fn f64_mantissa_limit() -> nat {
    0x20_0000_0000_0000
}

/// The power of two that `n` is scaled by when stored in an `f64`: the
/// smallest `2^k` with `n / 2^k < 2^53`.
pub open spec fn f64_scale(n: nat) -> nat
    decreases n,
{
    if n < f64_mantissa_limit() {
        1
    } else {
        2 * f64_scale(n / 2)
    }
}

/// `num / den` rounded to the nearest integer, ties to even.
pub open spec fn round_half_even(num: nat, den: nat) -> nat
    recommends
        den > 0,
{
    let q = num / den;
    let r = num % den;
    if 2 * r > den || (2 * r == den && q % 2 == 1) {
        q + 1
    } else {
        q
    }
}

/// The value of `n as f64`, for `n < 2^64`.
pub open spec fn f64_value(n: nat) -> nat {
    round_half_even(n, f64_scale(n)) * f64_scale(n)
}

/// The text `{:.2}` prints for the non-negative value `num / den`.
pub open spec fn two_decimals(num: nat, den: nat) -> Seq<char> {
    let h = round_half_even(num * 100, den);
    decimal(h / 100) + seq!['.', digit_char((h % 100) / 10), digit_char(h % 10)]
}

proof fn lemma_scale_bounds(n: nat)
    ensures
        f64_scale(n) >= 1,
        n >= f64_mantissa_limit() ==> f64_scale(n) <= n,
        n / f64_scale(n) < f64_mantissa_limit(),
    decreases n,
{
    if n >= f64_mantissa_limit() {
        lemma_scale_bounds(n / 2);
        let s = f64_scale(n / 2);
        // n / (2 * s) == (n / 2) / s
        vstd::arithmetic::div_mod::lemma_div_denominator(n as int, 2, s as int);
    }
}

fn scale_of(n: u128) -> (p: u128)
    requires
        n < 0x1_0000_0000_0000_0000u128,
    ensures
        p == f64_scale(n as nat),
    decreases n,
{
    proof {
        lemma_scale_bounds(n as nat);
    }
    if n < 0x20_0000_0000_0000u128 {
        1
    } else {
        proof {
            lemma_scale_bounds((n / 2) as nat);
        }
        2 * scale_of(n / 2)
    }
}

fn round_even(num: u128, den: u128) -> (r: u128)
    requires
        den > 0,
        num < u128::MAX,
    ensures
        r == round_half_even(num as nat, den as nat),
{
    let q = num / den;
    let rem = num % den;
    assert(rem < den);
    assert(q <= num) by {
        vstd::arithmetic::div_mod::lemma_div_is_ordered_by_denominator(num as int, 1, den as int);
    }
    if (rem > den - rem) || (rem == den - rem && q % 2 == 1) {
        q + 1
    } else {
        q
    }
}

/// The value that `n as f64` holds, as an integer.
pub fn f64_value_of(n: u64) -> (v: u128)
    ensures
        v == f64_value(n as nat),
        v <= f64_mantissa_limit() * 0x1_0000_0000_0000_0000,
{
    let big: u128 = n as u128;
    let p = scale_of(big);
    proof {
        lemma_scale_bounds(n as nat);
        if (n as nat) < f64_mantissa_limit() {
            assert(p == 1);
        }
    }
    let m = round_even(big, p);
    proof {
        assert(big / p < f64_mantissa_limit());
        assert(p <= 0x1_0000_0000_0000_0000u128);
        assert(m * p <= f64_mantissa_limit() * 0x1_0000_0000_0000_0000u128) by (nonlinear_arith)
            requires
                m <= f64_mantissa_limit(),
                p <= 0x1_0000_0000_0000_0000u128,
        ;
    }
    m * p
}

} // verus!

verus! {

/// Appends the `{:.2}` text of `num / den`.
pub fn push_two_decimals(s: &mut String, num: u128, den: u128)
    requires
        den > 0,
        num <= f64_mantissa_limit() * 0x1_0000_0000_0000_0000,
    ensures
        final(s)@ == old(s)@ + two_decimals(num as nat, den as nat),
{
    let scaled = num * 100;
    let h = round_even(scaled, den);
    crate::text::push_decimal_wide(s, h / 100);
    s.push('.');
    let d1: u8 = (48 + (h % 100) / 10) as u8;
    s.push(d1 as char);
    let d2: u8 = (48 + h % 10) as u8;
    s.push(d2 as char);
}

} // verus!
