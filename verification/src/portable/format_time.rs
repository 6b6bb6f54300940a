//! Formatting a playback position for the paused label.
use crate::numbers::{decimal, push_decimal, push_two_digits, two_digits};
use vstd::prelude::*;

verus! {

/// Whole seconds in `ms`, rounded to the nearest and never negative.
pub open spec fn rounded_seconds(ms: int) -> nat {
    if ms <= 0 {
        0
    } else {
        ((ms + 500) / 1000) as nat
    }
}

/// `0:53` / `12:04` / `1:02:30`.
pub open spec fn formatted(ms: int) -> Seq<char> {
    let total = rounded_seconds(ms);
    let h = total / 3600;
    let m = (total % 3600) / 60;
    let s = total % 60;
    if h > 0 {
        decimal(h) + seq![':'] + two_digits(m) + seq![':'] + two_digits(s)
    } else {
        decimal(m) + seq![':'] + two_digits(s)
    }
}

/// Formats a position given in milliseconds as `0:53` / `12:04` / `1:02:30`;
/// a negative one reads as zero.
pub fn format_time(ms: i64) -> (r: String)
    ensures
        r@ == formatted(ms as int),
{
    let clamped: u64 = if ms <= 0 {
        0
    } else {
        ms as u64
    };
    format_millis(clamped)
}

/// As [`format_time`], for an unsigned position.
pub fn format_millis(ms: u64) -> (r: String)
    ensures
        r@ == formatted(ms as int),
{
    let total: u64 = if ms == 0 {
        0
    } else {
        ((ms as u128 + 500) / 1000) as u64
    };
    let h = total / 3600;
    let m = (total % 3600) / 60;
    let s = total % 60;
    let mut out = String::new();
    if h > 0 {
        push_decimal(&mut out, h);
        crate::strings::push_char(&mut out, ':');
        push_two_digits(&mut out, m);
        crate::strings::push_char(&mut out, ':');
        push_two_digits(&mut out, s);
    } else {
        push_decimal(&mut out, m);
        crate::strings::push_char(&mut out, ':');
        push_two_digits(&mut out, s);
    }
    proof {
        assert(out@ =~= formatted(ms as int));
    }
    out
}

} // verus!
