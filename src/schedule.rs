//! The move-by-move clock readings that a player should aim for.

use crate::control::TimeControl;
use crate::plan::{
    consumption_of, credited_moves, increment_of, lemma_consumption_within_total,
    lemma_total_time_bounded, opening_count_of, opening_per_move_of, pacing_plan,
    remaining_per_move_of, start_of, time_bound, total_time_of, PacingPlan, NANOS_PER_MIN,
    NANOS_PER_SEC,
};
use vstd::prelude::*;

verus! {

/// Increments credited over the first `i` moves: none for the first move in
/// lichess mode, one for every other move.
pub open spec fn credits_through(tc: TimeControl, i: int) -> int {
    if tc.lichess && i >= 1 {
        i - 1
    } else {
        i
    }
}

/// Time allotted to the first `i` moves together.
pub open spec fn consumed_through(tc: TimeControl, i: int) -> int {
    let n = opening_count_of(tc);
    if i <= n {
        i * opening_per_move_of(tc)
    } else {
        n * opening_per_move_of(tc) + (i - n) * remaining_per_move_of(tc)
    }
}

/// The clock reading after move `i` when every move takes exactly its
/// allotted time. It is not clamped at zero: a negative reading shows a
/// pacing that the increments cannot sustain.
pub open spec fn clock_after(tc: TimeControl, i: int) -> int {
    start_of(tc) + increment_of(tc) * credits_through(tc, i) - consumed_through(tc, i)
}

/// One reported line of the schedule: a move and the clock reading after it,
/// in nanoseconds.
#[derive(Clone, Copy, Debug, PartialEq, Eq, Structural)]
pub struct ScheduleRow {
    pub move_index: u32,
    pub clock: i128,
}

/// The rows that a control reports: one for every `display`-th move.
pub open spec fn rows_of(tc: TimeControl, rows: Seq<ScheduleRow>) -> bool {
    &&& rows.len() == tc.moves / tc.display
    &&& forall|k: int| #![trigger rows[k]]
        0 <= k < rows.len() ==> {
            &&& rows[k].move_index == (k + 1) * tc.display
            &&& rows[k].clock == clock_after(tc, (k + 1) * tc.display)
        }
}

/// The clock after move `i` follows from the clock after move `i - 1`: the
/// move's increment, if credited, comes in and its allotted time goes out.
proof fn lemma_clock_step(tc: TimeControl, i: int)
    requires
        tc.wf(),
        1 <= i <= tc.moves,
    ensures
        increment_of(tc) * credits_through(tc, i) == increment_of(tc) * credits_through(tc, i - 1)
            + (if tc.lichess && i == 1 {
            0
        } else {
            increment_of(tc)
        }),
        consumed_through(tc, i) == consumed_through(tc, i - 1) + (if i <= opening_count_of(tc) {
            opening_per_move_of(tc)
        } else {
            remaining_per_move_of(tc)
        }),
        clock_after(tc, i) == clock_after(tc, i - 1) + (if tc.lichess && i == 1 {
            0
        } else {
            increment_of(tc)
        }) - (if i <= opening_count_of(tc) {
            opening_per_move_of(tc)
        } else {
            remaining_per_move_of(tc)
        }),
{
    let inc = increment_of(tc);
    let o = opening_per_move_of(tc);
    let r = remaining_per_move_of(tc);
    let n = opening_count_of(tc);
    let c = credits_through(tc, i);
    assert(inc * c == inc * credits_through(tc, i - 1) + (if tc.lichess && i == 1 {
        0
    } else {
        inc
    })) by (nonlinear_arith)
        requires
            c == credits_through(tc, i - 1) + (if tc.lichess && i == 1 {
                0
            } else {
                1int
            }),
    ;
    if i <= n {
        assert(i * o == (i - 1) * o + o) by (nonlinear_arith);
    } else if i - 1 <= n {
        assert(n * o + (i - n) * r == (i - 1) * o + r) by (nonlinear_arith)
            requires
                i - 1 == n,
        ;
    } else {
        assert((i - n) * r == (i - 1 - n) * r + r) by (nonlinear_arith);
    }
}

/// Over the first `i` moves, the credited time and the allotted time each lie
/// between zero and the total time.
proof fn lemma_partial_sums_bounded(tc: TimeControl, i: int)
    requires
        tc.wf(),
        0 <= i <= tc.moves,
    ensures
        0 <= start_of(tc) + increment_of(tc) * credits_through(tc, i) <= total_time_of(tc),
        0 <= consumed_through(tc, i) <= total_time_of(tc),
        total_time_of(tc) < time_bound(),
{
    lemma_total_time_bounded(tc);
    lemma_consumption_within_total(tc);
    let inc = increment_of(tc);
    let o = opening_per_move_of(tc);
    let r = remaining_per_move_of(tc);
    let n = opening_count_of(tc);
    let m = tc.moves as int;
    assert(0 <= inc);
    assert(0 <= inc * credits_through(tc, i) <= inc * credited_moves(tc)) by (nonlinear_arith)
        requires
            0 <= inc,
            0 <= credits_through(tc, i) <= credited_moves(tc),
    ;
    if i <= n {
        assert(0 <= i * o <= n * o + (m - n) * r) by (nonlinear_arith)
            requires
                0 <= i <= n <= m,
                0 <= o,
                0 <= r,
        ;
    } else {
        assert(0 <= n * o + (i - n) * r <= n * o + (m - n) * r) by (nonlinear_arith)
            requires
                0 <= n < i <= m,
                0 <= o,
                0 <= r,
        ;
    }
}

/// Plays the game move by move from the starting allocation: each move
/// credits the increment (not the first move in lichess mode) and takes its
/// allotted time, and every `display`-th move is reported.
pub fn simulate(tc: &TimeControl, plan: &PacingPlan) -> (rows: Vec<ScheduleRow>)
    requires
        tc.wf(),
        plan.is_plan_of(*tc),
    ensures
        rows_of(*tc, rows@),
{
    proof {
        lemma_partial_sums_bounded(*tc, 0);
        assert(increment_of(*tc) * 0 == 0 && 0 * opening_per_move_of(*tc) == 0) by (
        nonlinear_arith);
    }
    let start: i128 = (tc.minutes as u128 * NANOS_PER_MIN) as i128;
    let increment: i128 = (tc.increment as u128 * NANOS_PER_SEC) as i128;
    let mut clock: i128 = start;
    let mut rows: Vec<ScheduleRow> = Vec::new();
    let mut i: u32 = 0;
    let mut since_row: u32 = 0;
    while i < tc.moves
        invariant
            tc.wf(),
            plan.is_plan_of(*tc),
            0 <= i <= tc.moves,
            since_row < tc.display,
            i == rows@.len() * tc.display + since_row,
            start == start_of(*tc),
            increment == increment_of(*tc),
            clock == clock_after(*tc, i as int),
            forall|k: int| #![trigger rows@[k]]
                0 <= k < rows@.len() ==> {
                    &&& rows@[k].move_index == (k + 1) * tc.display
                    &&& rows@[k].clock == clock_after(*tc, (k + 1) * tc.display)
                },
        decreases tc.moves - i,
    {
        i = i + 1;
        proof {
            lemma_clock_step(*tc, i as int);
            lemma_partial_sums_bounded(*tc, i as int);
            lemma_partial_sums_bounded(*tc, i - 1);
        }
        if !tc.lichess || i != 1 {
            clock = clock + increment;
        }
        let allotted: u128 = if i <= plan.opening_moves {
            plan.opening_time_per_move
        } else {
            plan.remaining_time_per_move
        };
        clock = clock - allotted as i128;
        since_row = since_row + 1;
        if since_row == tc.display {
            let ghost before = rows@;
            proof {
                let n = rows@.len() as int;
                assert((n + 1) * tc.display == n * tc.display + tc.display) by (nonlinear_arith);
            }
            rows.push(ScheduleRow { move_index: i, clock });
            since_row = 0;
            proof {
                assert forall|k: int| #![trigger rows@[k]] 0 <= k < rows@.len() implies {
                    &&& rows@[k].move_index == (k + 1) * tc.display
                    &&& rows@[k].clock == clock_after(*tc, (k + 1) * tc.display)
                } by {
                    if k < before.len() {
                        assert(rows@[k] == before[k]);
                    }
                }
            }
        }
    }
    proof {
        vstd::arithmetic::div_mod::lemma_fundamental_div_mod_converse(
            tc.moves as int,
            tc.display as int,
            rows@.len() as int,
            since_row as int,
        );
    }
    rows
}


/// The reported rows climb strictly, one report interval apart, from the
/// first reported move to the last move of the game at most.
pub proof fn lemma_rows_spaced(tc: TimeControl, rows: Seq<ScheduleRow>)
    requires
        tc.wf(),
        rows_of(tc, rows),
    ensures
        rows.len() == tc.moves / tc.display,
        forall|k: int|
            0 <= k < rows.len() ==> 1 <= #[trigger] rows[k].move_index <= tc.moves,
        forall|k: int|
            0 <= k < rows.len() - 1 ==> #[trigger] rows[k + 1].move_index == rows[k].move_index
                + tc.display,
{
    let d = tc.display as int;
    let m = tc.moves as int;
    vstd::arithmetic::div_mod::lemma_fundamental_div_mod(m, d);
    vstd::arithmetic::div_mod::lemma_mod_bound(m, d);
    assert forall|k: int| 0 <= k < rows.len() implies 1 <= #[trigger] rows[k].move_index <= m by {
        assert(rows[k].move_index == (k + 1) * d);
        assert(1 <= (k + 1) * d <= (m / d) * d) by (nonlinear_arith)
            requires
                0 <= k < m / d,
                1 <= d,
        ;
    }
    assert forall|k: int| 0 <= k < rows.len() - 1 implies #[trigger] rows[k + 1].move_index
        == rows[k].move_index + d by {
        assert(rows[k + 1].move_index == (k + 2) * d);
        assert(rows[k].move_index == (k + 1) * d);
        assert((k + 2) * d == (k + 1) * d + d) by (nonlinear_arith);
    }
}

/// A time control worked out in full: its plan and its reported rows.
#[derive(Clone, Debug)]
pub struct Pacing {
    pub plan: PacingPlan,
    pub rows: Vec<ScheduleRow>,
}

/// Works out the plan of `tc` and plays the game with it.
pub fn calculate(tc: &TimeControl) -> (r: Pacing)
    requires
        tc.wf(),
    ensures
        r.plan.is_plan_of(*tc),
        rows_of(*tc, r.rows@),
{
    let plan = pacing_plan(tc);
    let rows = simulate(tc, &plan);
    Pacing { plan, rows }
}

/// The calculation depends on its inputs alone: two runs on the same control
/// agree on the plan and on every reported row.
pub proof fn lemma_calculation_deterministic(
    tc: TimeControl,
    first: PacingPlan,
    second: PacingPlan,
    first_rows: Seq<ScheduleRow>,
    second_rows: Seq<ScheduleRow>,
)
    requires
        tc.wf(),
        first.is_plan_of(tc),
        second.is_plan_of(tc),
        rows_of(tc, first_rows),
        rows_of(tc, second_rows),
    ensures
        first == second,
        first_rows == second_rows,
{
    assert(first_rows =~= second_rows);
}

} // verus!
