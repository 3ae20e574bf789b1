//! Splitting a span of seconds into days, hours, minutes and seconds.
use vstd::prelude::*;

verus! {

/// `a / b` rounded toward zero, as Rust divides integers.
pub open spec fn trunc_div(a: int, b: int) -> int {
    if a >= 0 {
        a / b
    } else {
        -((-a) / b)
    }
}

/// The remainder that goes with `trunc_div`: it has the sign of `a`.
pub open spec fn trunc_rem(a: int, b: int) -> int {
    if a >= 0 {
        a % b
    } else {
        -((-a) % b)
    }
}

/// A span of `total_seconds` seconds as (days, hours, minutes, seconds),
/// each part carrying the span's sign.
pub fn format_duration(total_seconds: i64) -> (r: (i64, i64, i64, i64))
    ensures
        r.0 == trunc_div(total_seconds as int, 86400),
        r.1 == trunc_div(trunc_rem(total_seconds as int, 86400), 3600),
        r.2 == trunc_div(trunc_rem(total_seconds as int, 3600), 60),
        r.3 == trunc_rem(total_seconds as int, 60),
{
    let neg = total_seconds < 0;
    let wide: i128 = total_seconds as i128;
    let mag: u64 = if neg {
        (-wide) as u64
    } else {
        wide as u64
    };
    let days: u64 = mag / 86400;
    let hours: u64 = (mag % 86400) / 3600;
    let minutes: u64 = (mag % 3600) / 60;
    let seconds: u64 = mag % 60;
    assert(days < 0x8000_0000_0000_0000);
    if neg {
        (-(days as i64), -(hours as i64), -(minutes as i64), -(seconds as i64))
    } else {
        (days as i64, hours as i64, minutes as i64, seconds as i64)
    }
}

} // verus!

verus! {

/// The parts put back together give the span: days, hours, minutes and
/// seconds, weighted by their lengths in seconds, add up to it, and each
/// part but the days stays below its unit.
pub proof fn lemma_duration_parts(total_seconds: int)
    ensures
        ({
            let d = trunc_div(total_seconds, 86400);
            let h = trunc_div(trunc_rem(total_seconds, 86400), 3600);
            let m = trunc_div(trunc_rem(total_seconds, 3600), 60);
            let s = trunc_rem(total_seconds, 60);
            &&& d * 86400 + h * 3600 + m * 60 + s == total_seconds
            &&& -24 < h < 24
            &&& -60 < m < 60
            &&& -60 < s < 60
        }),
{
    let a = if total_seconds >= 0 { total_seconds } else { -total_seconds };
    assert(a == (a / 86400) * 86400 + ((a % 86400) / 3600) * 3600 + ((a % 3600) / 60) * 60 + a % 60) by {
        assert((a % 86400) % 3600 == a % 3600) by {
            vstd::arithmetic::div_mod::lemma_mod_mod(a, 3600, 24);
        }
        assert((a % 3600) % 60 == a % 60) by {
            vstd::arithmetic::div_mod::lemma_mod_mod(a, 60, 60);
        }
    }
}

} // verus!
