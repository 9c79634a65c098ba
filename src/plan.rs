//! The total time of a game and its split into per-move durations.
//!
//! Durations are counted in nanoseconds; divisions round down to a whole
//! nanosecond.

use crate::control::{Policy, TimeControl};
use vstd::prelude::*;

verus! {

/// Nanoseconds in one second.
pub const NANOS_PER_SEC: u128 = 1_000_000_000;

/// Nanoseconds in one minute.
pub const NANOS_PER_MIN: u128 = 60_000_000_000;

/// The clock's starting allocation, in nanoseconds.
pub open spec fn start_of(tc: TimeControl) -> int {
    tc.minutes * 60_000_000_000
}

/// The increment, in nanoseconds.
pub open spec fn increment_of(tc: TimeControl) -> int {
    tc.increment * 1_000_000_000
}

/// How many increments the game credits: one per move, except the first
/// move in lichess mode.
pub open spec fn credited_moves(tc: TimeControl) -> int {
    if tc.lichess {
        tc.moves - 1
    } else {
        tc.moves as int
    }
}

/// All clock time available over the game.
pub open spec fn total_time_of(tc: TimeControl) -> int {
    start_of(tc) + increment_of(tc) * credited_moves(tc)
}

/// How many moves belong to the opening phase.
pub open spec fn opening_count_of(tc: TimeControl) -> int {
    match tc.policy {
        Policy::Flat => 0,
        Policy::SpeedRatio { opening } => opening as int,
        Policy::Percentage { opening, .. } => opening as int,
    }
}

/// The part of the total time reserved for the opening under the
/// percentage split.
pub open spec fn opening_block_of(tc: TimeControl, percentage: u32) -> int {
    total_time_of(tc) * percentage / 100
}

/// The time allotted to each opening move.
pub open spec fn opening_per_move_of(tc: TimeControl) -> int {
    match tc.policy {
        Policy::Flat => 0,
        Policy::SpeedRatio { opening } => total_time_of(tc) / (2 * tc.moves - opening),
        Policy::Percentage { opening, percentage } => opening_block_of(tc, percentage) / (
        opening as int),
    }
}

/// The time allotted to each move after the opening.
pub open spec fn remaining_per_move_of(tc: TimeControl) -> int {
    match tc.policy {
        Policy::Flat => total_time_of(tc) / (tc.moves as int),
        Policy::SpeedRatio { .. } => 2 * opening_per_move_of(tc),
        Policy::Percentage { opening, percentage } => (total_time_of(tc) - opening_block_of(
            tc,
            percentage,
        )) / (tc.moves - opening),
    }
}

/// The time that all moves together are allotted.
pub open spec fn consumption_of(tc: TimeControl) -> int {
    opening_per_move_of(tc) * opening_count_of(tc) + remaining_per_move_of(tc) * (tc.moves
        - opening_count_of(tc))
}

/// What a time control works out to, in nanoseconds.
#[derive(Clone, Copy, Debug, PartialEq, Eq, Structural)]
pub struct PacingPlan {
    pub total_time: u128,
    pub opening_time_per_move: u128,
    pub remaining_time_per_move: u128,
    pub opening_moves: u32,
}

impl PacingPlan {
    /// This plan is the one that `tc` works out to.
    pub open spec fn is_plan_of(&self, tc: TimeControl) -> bool {
        &&& self.total_time == total_time_of(tc)
        &&& self.opening_time_per_move == opening_per_move_of(tc)
        &&& self.remaining_time_per_move == remaining_per_move_of(tc)
        &&& self.opening_moves == opening_count_of(tc)
    }
}

/// A bound on the total time of any control (2^127), low enough that every
/// clock reading within the total fits an `i128`.
pub open spec fn time_bound() -> int {
    0x8000_0000_0000_0000_0000_0000_0000_0000
}

/// The total time of any control stays below `time_bound()`.
pub proof fn lemma_total_time_bounded(tc: TimeControl)
    requires
        tc.moves >= 1,
    ensures
        0 <= start_of(tc) <= total_time_of(tc) < time_bound(),
        0 <= increment_of(tc) * credited_moves(tc),
{
    let m = tc.minutes as int;
    let inc = tc.increment as int;
    let c = credited_moves(tc);
    assert(0 <= c < 0x1_0000_0000);
    assert(0 <= m * 60_000_000_000 < 0x1_0000_0000_0000_0000 * 60_000_000_000) by (
    nonlinear_arith)
        requires
            0 <= m < 0x1_0000_0000_0000_0000,
    ;
    assert(0 <= inc * 1_000_000_000 * c < 0x1_0000_0000_0000_0000 * 1_000_000_000
        * 0x1_0000_0000) by (nonlinear_arith)
        requires
            0 <= inc < 0x1_0000_0000_0000_0000,
            0 <= c < 0x1_0000_0000,
    ;
}

/// Computes the total clock time of the game: the starting allocation plus
/// one increment per credited move.
pub fn total_time(tc: &TimeControl) -> (r: u128)
    requires
        tc.moves >= 1,
    ensures
        r == total_time_of(*tc),
        r == start_of(*tc) + increment_of(*tc) * credited_moves(*tc),
        r < time_bound(),
{
    proof {
        lemma_total_time_bounded(*tc);
    }
    let start: u128 = tc.minutes as u128 * NANOS_PER_MIN;
    let credited: u32 = if tc.lichess {
        tc.moves - 1
    } else {
        tc.moves
    };
    let increments: u128 = tc.increment as u128 * NANOS_PER_SEC * credited as u128;
    start + increments
}


/// Scaling by a percentage can be done as whole hundreds plus a rest.
proof fn lemma_percent_split(t: int, p: int)
    requires
        0 <= t,
        0 <= p <= 100,
    ensures
        t * p / 100 == (t / 100) * p + (t % 100) * p / 100,
        0 <= t * p / 100 <= t,
{
    let q = t / 100;
    let r = t % 100;
    assert(t == q * 100 + r && 0 <= r < 100);
    assert(t * p == (q * p) * 100 + r * p) by (nonlinear_arith)
        requires
            t == q * 100 + r,
    ;
    assert(0 <= r * p && r * p / 100 < 100) by (nonlinear_arith)
        requires
            0 <= r < 100,
            0 <= p <= 100,
    ;
    let s = r * p / 100;
    let u = r * p % 100;
    assert(r * p == s * 100 + u && 0 <= u < 100);
    assert(t * p == (q * p + s) * 100 + u) by (nonlinear_arith)
        requires
            t * p == (q * p) * 100 + r * p,
            r * p == s * 100 + u,
    ;
    vstd::arithmetic::div_mod::lemma_fundamental_div_mod_converse(t * p, 100, q * p + s, u);
    assert(t * p <= t * 100) by (nonlinear_arith)
        requires
            0 <= t,
            p <= 100,
    ;
    assert(0 <= t * p) by (nonlinear_arith)
        requires
            0 <= t,
            0 <= p,
    ;
    vstd::arithmetic::div_mod::lemma_div_is_ordered(t * p, t * 100, 100);
    vstd::arithmetic::div_mod::lemma_div_multiples_vanish(t, 100);
    vstd::arithmetic::div_mod::lemma_div_pos_is_pos(t * p, 100);
}

/// Floor division leaves a rest below the divisor.
proof fn lemma_floor_rest(x: int, d: int)
    requires
        0 <= x,
        0 < d,
    ensures
        0 <= x / d,
        0 <= x - (x / d) * d < d,
        (x / d) * d <= x,
{
    vstd::arithmetic::div_mod::lemma_fundamental_div_mod(x, d);
    vstd::arithmetic::div_mod::lemma_div_pos_is_pos(x, d);
    vstd::arithmetic::div_mod::lemma_mod_bound(x, d);
    assert((x / d) * d == d * (x / d)) by (nonlinear_arith);
}

/// Works out the split of `tc`'s total time into per-move durations under
/// its policy. Percentage split: the opening gets `percentage` percent of the
/// total, shared over its moves, the rest is shared over the other moves.
/// Twice-as-fast split: each opening move gets `total / (2 * moves -
/// opening)`, every other move twice that. Flat split: every move gets
/// `total / moves`.
pub fn pacing_plan(tc: &TimeControl) -> (r: PacingPlan)
    requires
        tc.wf(),
    ensures
        r.is_plan_of(*tc),
{
    let t = total_time(tc);
    match tc.policy {
        Policy::Flat => {
            proof {
                lemma_floor_rest(t as int, tc.moves as int);
            }
            PacingPlan {
                total_time: t,
                opening_time_per_move: 0,
                remaining_time_per_move: t / tc.moves as u128,
                opening_moves: 0,
            }
        },
        Policy::SpeedRatio { opening } => {
            let divisor: u128 = 2 * tc.moves as u128 - opening as u128;
            proof {
                lemma_floor_rest(t as int, divisor as int);
                assert((t / divisor) * divisor >= t / divisor) by (nonlinear_arith)
                    requires
                        divisor >= 1,
                        t / divisor >= 0,
                ;
            }
            let per_opening_move = t / divisor;
            PacingPlan {
                total_time: t,
                opening_time_per_move: per_opening_move,
                remaining_time_per_move: 2 * per_opening_move,
                opening_moves: opening,
            }
        },
        Policy::Percentage { opening, percentage } => {
            proof {
                lemma_percent_split(t as int, percentage as int);
                lemma_floor_rest(t as int, 100);
                assert((t as int % 100) * percentage <= 99 * 100) by (nonlinear_arith)
                    requires
                        0 <= t as int % 100 < 100,
                        percentage <= 100,
                ;
                assert((t as int / 100) * percentage <= t as int) by (nonlinear_arith)
                    requires
                        0 <= t as int / 100,
                        (t as int / 100) * 100 <= t as int,
                        percentage <= 100,
                ;
            }
            let block: u128 = (t / 100) * percentage as u128 + (t % 100) * percentage as u128
                / 100;
            assert(block == opening_block_of(*tc, percentage));
            PacingPlan {
                total_time: t,
                opening_time_per_move: block / opening as u128,
                remaining_time_per_move: (t - block) / (tc.moves - opening) as u128,
                opening_moves: opening,
            }
        },
    }
}


/// Flat split: the moves together are allotted the whole total time, short
/// of less than one nanosecond per move.
pub proof fn lemma_flat_consumption(tc: TimeControl)
    requires
        tc.wf(),
        tc.policy == Policy::Flat,
    ensures
        opening_count_of(tc) == 0,
        0 <= total_time_of(tc) - remaining_per_move_of(tc) * tc.moves < tc.moves,
{
    lemma_total_time_bounded(tc);
    lemma_floor_rest(total_time_of(tc), tc.moves as int);
}

/// Percentage split: opening and remaining moves together are allotted the
/// whole total time, short of less than one nanosecond per move.
pub proof fn lemma_percentage_consumption(tc: TimeControl)
    requires
        tc.wf(),
        tc.policy is Percentage,
    ensures
        0 <= total_time_of(tc) - consumption_of(tc) < tc.moves,
{
    let t = total_time_of(tc);
    let o = tc.policy->Percentage_opening as int;
    let p = tc.policy->Percentage_percentage as int;
    let m = tc.moves as int;
    lemma_total_time_bounded(tc);
    lemma_percent_split(t, p);
    let block = opening_block_of(tc, p as u32);
    lemma_floor_rest(block, o);
    lemma_floor_rest(t - block, m - o);
    assert(consumption_of(tc) == (block / o) * o + ((t - block) / (m - o)) * (m - o));
}

/// Twice-as-fast split: each move after the opening is allotted exactly twice
/// what an opening move is, and all moves together are allotted the whole
/// total time, short of less than one nanosecond per opening move plus two
/// per later move.
pub proof fn lemma_speed_ratio_consumption(tc: TimeControl)
    requires
        tc.wf(),
        tc.policy is SpeedRatio,
    ensures
        remaining_per_move_of(tc) == 2 * opening_per_move_of(tc),
        0 <= total_time_of(tc) - consumption_of(tc) < 2 * tc.moves - opening_count_of(tc),
{
    let t = total_time_of(tc);
    let o = opening_count_of(tc);
    let m = tc.moves as int;
    let q = opening_per_move_of(tc);
    lemma_total_time_bounded(tc);
    lemma_floor_rest(t, 2 * m - o);
    assert(consumption_of(tc) == q * (2 * m - o)) by (nonlinear_arith)
        requires
            consumption_of(tc) == q * o + (2 * q) * (m - o),
    ;
}

/// Under every policy the moves together are allotted no more than the
/// total time.
pub proof fn lemma_consumption_within_total(tc: TimeControl)
    requires
        tc.wf(),
    ensures
        0 <= opening_per_move_of(tc),
        0 <= remaining_per_move_of(tc),
        consumption_of(tc) <= total_time_of(tc),
        0 <= opening_count_of(tc) <= tc.moves,
{
    lemma_total_time_bounded(tc);
    let t = total_time_of(tc);
    match tc.policy {
        Policy::Flat => {
            lemma_flat_consumption(tc);
            lemma_floor_rest(t, tc.moves as int);
        },
        Policy::SpeedRatio { opening } => {
            lemma_speed_ratio_consumption(tc);
            lemma_floor_rest(t, 2 * tc.moves - opening);
        },
        Policy::Percentage { opening, percentage } => {
            lemma_percentage_consumption(tc);
            lemma_percent_split(t, percentage as int);
            lemma_floor_rest(opening_block_of(tc, percentage), opening as int);
            lemma_floor_rest(t - opening_block_of(tc, percentage), tc.moves - opening);
        },
    }
}

} // verus!
