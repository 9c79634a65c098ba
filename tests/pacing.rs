use chesspace::{
    calculate, clock_reading, pacing_plan, simulate, tenths_of_second, total_time, ClockReading,
    ConfigError, Policy, TimeControl,
};

const SEC: u128 = 1_000_000_000;

fn control(
    minutes: u64,
    increment: u64,
    moves: u32,
    lichess: bool,
    display: u32,
    percentage: Option<u32>,
    opening: Option<u32>,
) -> TimeControl {
    TimeControl::new(minutes, increment, moves, lichess, display, percentage, opening)
        .expect("valid time control")
}

#[test]
fn flat_example() {
    let tc = control(90, 30, 40, false, 1, None, None);
    assert_eq!(tc.policy, Policy::Flat);
    let plan = pacing_plan(&tc);
    assert_eq!(plan.total_time, 6600 * SEC);
    assert_eq!(plan.opening_moves, 0);
    assert_eq!(plan.opening_time_per_move, 0);
    assert_eq!(plan.remaining_time_per_move, 165 * SEC);
    let total = clock_reading(plan.total_time as i128);
    assert_eq!(total, ClockReading { negative: false, minutes: 110, seconds: 0 });
    assert_eq!(tenths_of_second(plan.remaining_time_per_move), 1650);
}

#[test]
fn lichess_flat_example() {
    let tc = control(90, 30, 40, true, 1, None, None);
    let plan = pacing_plan(&tc);
    assert_eq!(plan.total_time, 6570 * SEC);
    assert_eq!(plan.remaining_time_per_move, 164_250_000_000);
    assert_eq!(plan.remaining_time_per_move * 40, plan.total_time);
}

#[test]
fn speed_ratio_example() {
    let tc = control(15, 10, 40, false, 1, None, Some(10));
    assert_eq!(tc.policy, Policy::SpeedRatio { opening: 10 });
    let plan = pacing_plan(&tc);
    assert_eq!(plan.total_time, 1300 * SEC);
    assert_eq!(plan.opening_moves, 10);
    assert_eq!(plan.opening_time_per_move, 18_571_428_571);
    assert_eq!(plan.remaining_time_per_move, 37_142_857_142);
    assert_eq!(plan.remaining_time_per_move, 2 * plan.opening_time_per_move);
    let consumed = 10 * plan.opening_time_per_move + 30 * plan.remaining_time_per_move;
    assert!(consumed <= plan.total_time && plan.total_time - consumed < 70);
    assert_eq!(tenths_of_second(plan.opening_time_per_move), 186);
    assert_eq!(tenths_of_second(plan.remaining_time_per_move), 371);
}

#[test]
fn percentage_example() {
    let tc = control(60, 0, 40, false, 1, Some(50), Some(10));
    assert_eq!(tc.policy, Policy::Percentage { opening: 10, percentage: 50 });
    let plan = pacing_plan(&tc);
    assert_eq!(plan.total_time, 3600 * SEC);
    assert_eq!(plan.opening_time_per_move, 180 * SEC);
    assert_eq!(plan.remaining_time_per_move, 60 * SEC);
    assert_eq!(plan.opening_moves, 10);
}

#[test]
fn percentage_split_rounds_down() {
    let tc = control(1, 1, 7, false, 1, Some(33), Some(3));
    let plan = pacing_plan(&tc);
    assert_eq!(plan.total_time, 67 * SEC);
    let block = 67 * SEC * 33 / 100;
    assert_eq!(plan.opening_time_per_move, block / 3);
    assert_eq!(plan.remaining_time_per_move, (67 * SEC - block) / 4);
    let consumed = 3 * plan.opening_time_per_move + 4 * plan.remaining_time_per_move;
    assert!(consumed <= plan.total_time && plan.total_time - consumed < 7);
}

#[test]
fn percentage_without_opening_is_rejected() {
    let r = TimeControl::new(60, 0, 40, false, 1, Some(50), None);
    assert_eq!(r, Err(ConfigError::PercentageWithoutOpening));
}

#[test]
fn each_configuration_error() {
    assert_eq!(TimeControl::new(5, 3, 0, false, 1, None, None), Err(ConfigError::ZeroMoves));
    assert_eq!(
        TimeControl::new(5, 3, 40, false, 0, None, None),
        Err(ConfigError::ZeroDisplayInterval)
    );
    assert_eq!(
        TimeControl::new(5, 3, 40, false, 1, Some(101), Some(10)),
        Err(ConfigError::PercentageOutOfRange)
    );
    assert_eq!(
        TimeControl::new(5, 3, 40, false, 1, Some(50), Some(40)),
        Err(ConfigError::OpeningTooLong)
    );
    assert_eq!(
        TimeControl::new(5, 3, 40, false, 1, None, Some(41)),
        Err(ConfigError::OpeningTooLong)
    );
    assert_eq!(
        TimeControl::new(5, 3, 40, false, 1, Some(50), Some(0)),
        Err(ConfigError::ZeroOpeningMoves)
    );
    assert_eq!(TimeControl::new(5, 3, 40, false, 1, None, Some(40)).map(|t| t.policy),
        Ok(Policy::SpeedRatio { opening: 40 }));
}

#[test]
fn total_time_counts_credited_increments() {
    let tc = control(3, 2, 10, false, 1, None, None);
    assert_eq!(total_time(&tc), (180 + 20) * SEC);
    let tc = control(3, 2, 10, true, 1, None, None);
    assert_eq!(total_time(&tc), (180 + 18) * SEC);
}

#[test]
fn largest_inputs_do_not_overflow() {
    let tc = control(u64::MAX, u64::MAX, u32::MAX, false, u32::MAX, Some(100), Some(1));
    let plan = pacing_plan(&tc);
    let expected = u64::MAX as u128 * 60 * SEC + u64::MAX as u128 * SEC * u32::MAX as u128;
    assert_eq!(plan.total_time, expected);
    assert_eq!(plan.opening_time_per_move, expected);
    assert_eq!(plan.remaining_time_per_move, 0);
}

#[test]
fn schedule_every_third_move() {
    let tc = control(90, 30, 40, false, 3, None, None);
    let pacing = calculate(&tc);
    assert_eq!(pacing.rows.len(), 13);
    for (k, row) in pacing.rows.iter().enumerate() {
        assert_eq!(row.move_index as usize, 3 * (k + 1));
        let expected = (5400 + 30 * 3 * (k as i128 + 1) - 165 * 3 * (k as i128 + 1)) * SEC as i128;
        assert_eq!(row.clock, expected);
    }
}

#[test]
fn schedule_of_every_move() {
    let tc = control(15, 10, 40, false, 1, None, Some(10));
    let plan = pacing_plan(&tc);
    let rows = simulate(&tc, &plan);
    assert_eq!(rows.len(), 40);
    let first = rows[0].clock;
    assert_eq!(first, (900 + 10) * SEC as i128 - plan.opening_time_per_move as i128);
    let eleventh = rows[10].clock;
    let expected = 900 * SEC as i128 + 110 * SEC as i128
        - 10 * plan.opening_time_per_move as i128
        - plan.remaining_time_per_move as i128;
    assert_eq!(eleventh, expected);
}

#[test]
fn display_interval_longer_than_game() {
    let tc = control(5, 0, 4, false, 5, None, None);
    assert!(calculate(&tc).rows.is_empty());
}

#[test]
fn negative_clock_is_kept() {
    let tc = control(0, 10, 2, true, 1, None, None);
    let pacing = calculate(&tc);
    assert_eq!(pacing.plan.total_time, 10 * SEC);
    assert_eq!(pacing.rows[0].clock, -5 * SEC as i128);
    assert_eq!(pacing.rows[1].clock, 0);
    let reading = clock_reading(pacing.rows[0].clock);
    assert_eq!(reading, ClockReading { negative: true, minutes: 0, seconds: 5 });
}

#[test]
fn calculation_is_repeatable() {
    let tc = control(15, 10, 40, true, 2, Some(30), Some(12));
    let a = calculate(&tc);
    let b = calculate(&tc);
    assert_eq!(a.plan, b.plan);
    assert_eq!(a.rows, b.rows);
}

#[test]
fn clock_reading_rounds_to_whole_seconds() {
    let r = clock_reading(89_500_000_000);
    assert_eq!(r, ClockReading { negative: false, minutes: 1, seconds: 30 });
    let r = clock_reading(119_600_000_000);
    assert_eq!(r, ClockReading { negative: false, minutes: 2, seconds: 0 });
    let r = clock_reading(-400_000_000);
    assert_eq!(r, ClockReading { negative: false, minutes: 0, seconds: 0 });
    let r = clock_reading(-61_499_999_999);
    assert_eq!(r, ClockReading { negative: true, minutes: 1, seconds: 1 });
    let r = clock_reading(i128::MIN);
    assert!(r.negative);
}

#[test]
fn tenths_round_half_up() {
    assert_eq!(tenths_of_second(164_250_000_000), 1643);
    assert_eq!(tenths_of_second(164_249_999_999), 1642);
    assert_eq!(tenths_of_second(0), 0);
    assert_eq!(tenths_of_second(u128::MAX), u128::MAX / 100_000_000 + 1);
}
