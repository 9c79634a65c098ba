//! Whole-number readings of durations for a report.

use vstd::prelude::*;

verus! {

/// The magnitude of `n`.
pub open spec fn magnitude(n: int) -> int {
    if n < 0 {
        -n
    } else {
        n
    }
}

/// The magnitude of `nanos` rounded to the nearest whole second, halves
/// rounded up.
pub open spec fn rounded_seconds(nanos: int) -> int {
    (magnitude(nanos) + 500_000_000) / 1_000_000_000
}

/// A clock reading as minutes and seconds, with its sign kept apart.
#[derive(Clone, Copy, Debug, PartialEq, Eq, Structural)]
pub struct ClockReading {
    pub negative: bool,
    pub minutes: u128,
    pub seconds: u32,
}

/// Rounds `nanos` to the nearest whole second and splits it into minutes and
/// seconds below sixty. A reading that rounds to zero is not negative.
pub fn clock_reading(nanos: i128) -> (r: ClockReading)
    ensures
        r.negative == (nanos < 0 && rounded_seconds(nanos as int) > 0),
        r.minutes == rounded_seconds(nanos as int) / 60,
        r.seconds == rounded_seconds(nanos as int) % 60,
{
    let magnitude: u128 = if nanos < 0 {
        (-(nanos + 1)) as u128 + 1
    } else {
        nanos as u128
    };
    let seconds: u128 = magnitude / 1_000_000_000 + if magnitude % 1_000_000_000 >= 500_000_000 {
        1
    } else {
        0
    };
    proof {
        lemma_round_half_up(magnitude as int, 1_000_000_000);
    }
    ClockReading { negative: nanos < 0 && seconds > 0, minutes: seconds / 60, seconds: (seconds
        % 60) as u32 }
}

/// `nanos` in tenths of a second, rounded to the nearest tenth, halves
/// rounded up.
pub fn tenths_of_second(nanos: u128) -> (r: u128)
    ensures
        r == (nanos + 50_000_000) / 100_000_000,
{
    proof {
        lemma_round_half_up(nanos as int, 100_000_000);
    }
    nanos / 100_000_000 + if nanos % 100_000_000 >= 50_000_000 {
        1
    } else {
        0
    }
}

/// Rounding half up to a multiple of an even unit, from the quotient and the
/// rest.
proof fn lemma_round_half_up(x: int, unit: int)
    requires
        0 <= x,
        2 <= unit,
        unit % 2 == 0,
    ensures
        (x + unit / 2) / unit == x / unit + if x % unit >= unit / 2 {
            1int
        } else {
            0int
        },
{
    let q = x / unit;
    let r = x % unit;
    vstd::arithmetic::div_mod::lemma_fundamental_div_mod(x, unit);
    vstd::arithmetic::div_mod::lemma_mod_bound(x, unit);
    if r >= unit / 2 {
        assert(x + unit / 2 == (q + 1) * unit + (r - unit / 2)) by (nonlinear_arith)
            requires
                x == unit * q + r,
                unit % 2 == 0,
                unit == 2 * (unit / 2),
        ;
        vstd::arithmetic::div_mod::lemma_fundamental_div_mod_converse(
            x + unit / 2,
            unit,
            q + 1,
            r - unit / 2,
        );
    } else {
        assert(x + unit / 2 == q * unit + (r + unit / 2)) by (nonlinear_arith)
            requires
                x == unit * q + r,
        ;
        vstd::arithmetic::div_mod::lemma_fundamental_div_mod_converse(
            x + unit / 2,
            unit,
            q,
            r + unit / 2,
        );
    }
}

} // verus!
