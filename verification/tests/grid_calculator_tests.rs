use grid_calculator::{GridCalculator, GridType, PositionMode, Rat};

fn rat(n: i64) -> Rat {
    Rat::from_int(n)
}

#[test]
fn test_fixed_grid_fixed_size() {
    let mut calc = GridCalculator::new(rat(100), GridType::Fixed, PositionMode::Fixed, rat(100), rat(1));

    let result1 = calc.calculate_grid(rat(1)).unwrap();
    assert!(result1.grid_price.eq_rat(&rat(99)));
    assert!(result1.position_size.eq_rat(&rat(100)));
    assert!(result1.total_position.eq_rat(&rat(100)));

    let result2 = calc.calculate_grid(rat(2)).unwrap();
    assert!(result2.grid_price.eq_rat(&rat(98)));
    assert!(result2.position_size.eq_rat(&rat(100)));
    assert!(result2.total_position.eq_rat(&rat(200)));
}

#[test]
fn test_average_grid_fixed_size() {
    let mut calc = GridCalculator::new(rat(100), GridType::Average, PositionMode::Fixed, rat(100), rat(1));

    let result1 = calc.calculate_grid(rat(1)).unwrap();
    assert!(result1.grid_price.eq_rat(&rat(99)));
    assert!(result1.position_size.eq_rat(&rat(100)));
    assert!(result1.average_price.eq_rat(&rat(99)));

    // Second grid is relative to new average price (99.0)
    let result2 = calc.calculate_grid(rat(1)).unwrap();
    assert!(result2.grid_price.eq_rat(&Rat::new(9801, 100)));
    assert!(result2.position_size.eq_rat(&rat(100)));
}

#[test]
fn test_current_multiple_mode() {
    let mut calc = GridCalculator::new(rat(100), GridType::Fixed, PositionMode::CurrentMultiple, rat(100), rat(2));

    let result1 = calc.calculate_grid(rat(1)).unwrap();
    assert!(result1.position_size.eq_rat(&rat(100)));
    assert!(result1.total_position.eq_rat(&rat(100)));

    let result2 = calc.calculate_grid(rat(2)).unwrap();
    assert!(result2.position_size.eq_rat(&rat(200))); // 100 * 2
    assert!(result2.total_position.eq_rat(&rat(300)));

    let result3 = calc.calculate_grid(rat(3)).unwrap();
    assert!(result3.position_size.eq_rat(&rat(600))); // 300 * 2
    assert!(result3.total_position.eq_rat(&rat(900)));
}

#[test]
fn test_increment_multiple_mode() {
    let mut calc = GridCalculator::new(
        rat(100),
        GridType::Fixed,
        PositionMode::IncrementMultiple,
        rat(100),
        Rat::new(3, 2),
    );

    let result1 = calc.calculate_grid(rat(1)).unwrap();
    assert!(result1.position_size.eq_rat(&rat(100)));

    let result2 = calc.calculate_grid(rat(2)).unwrap();
    assert!(result2.position_size.eq_rat(&rat(150))); // 100 * 1.5

    let result3 = calc.calculate_grid(rat(3)).unwrap();
    assert!(result3.position_size.eq_rat(&rat(225))); // 150 * 1.5
}

#[test]
fn test_totals_are_sums_over_history() {
    let mut calc = GridCalculator::new(rat(100), GridType::Average, PositionMode::CurrentMultiple, rat(50), rat(2));
    let r1 = calc.calculate_grid(rat(5)).unwrap();
    let r2 = calc.calculate_grid(rat(10)).unwrap();
    let r3 = calc.calculate_grid(rat(7)).unwrap();

    let size_sum = r1
        .position_size
        .checked_add(&r2.position_size)
        .unwrap()
        .checked_add(&r3.position_size)
        .unwrap();
    assert!(size_sum.eq_rat(&r3.total_position));

    let c1 = r1.position_size.checked_mul(&r1.grid_price).unwrap();
    let c2 = r2.position_size.checked_mul(&r2.grid_price).unwrap();
    let c3 = r3.position_size.checked_mul(&r3.grid_price).unwrap();
    let cost_sum = c1.checked_add(&c2).unwrap().checked_add(&c3).unwrap();
    assert!(cost_sum.eq_rat(&r3.total_cost));

    // The average is cost over position while the position is positive.
    let avg = r3.total_cost.checked_div(&r3.total_position).unwrap();
    assert!(avg.eq_rat(&r3.average_price));
}

#[test]
fn test_average_basis_uses_pre_step_average() {
    let mut calc = GridCalculator::new(rat(100), GridType::Average, PositionMode::Fixed, rat(100), rat(1));
    let r1 = calc.calculate_grid(rat(1)).unwrap();
    // The average moved from 100 to 99.
    assert!(!r1.average_price.eq_rat(&rat(100)));
    let r2 = calc.calculate_grid(rat(1)).unwrap();
    // The second price uses the moved average, so it differs from the
    // Fixed-basis price for the same level.
    let fixed_price = rat(99);
    assert!(!r2.grid_price.eq_rat(&fixed_price));
    assert!(r2.grid_price.eq_rat(&Rat::new(9801, 100)));
}

#[test]
fn test_reset_restores_fresh_state() {
    let mut calc = GridCalculator::new(rat(100), GridType::Average, PositionMode::IncrementMultiple, rat(100), rat(2));
    calc.calculate_grid(rat(1)).unwrap();
    calc.calculate_grid(rat(2)).unwrap();
    calc.reset();
    assert_eq!(calc.get_history().len(), 0);

    // A step after reset behaves exactly like the first step of a freshly
    // constructed engine with the same parameters.
    let mut fresh = GridCalculator::new(rat(100), GridType::Average, PositionMode::IncrementMultiple, rat(100), rat(2));
    let after_reset = calc.calculate_grid(rat(3)).unwrap();
    let first = fresh.calculate_grid(rat(3)).unwrap();
    assert!(after_reset.grid_price.eq_rat(&first.grid_price));
    assert!(after_reset.position_size.eq_rat(&first.position_size));
    assert!(after_reset.total_position.eq_rat(&first.total_position));
    assert!(after_reset.average_price.eq_rat(&first.average_price));
    assert!(after_reset.total_cost.eq_rat(&first.total_cost));
}

#[test]
fn test_history_records_every_step_in_order() {
    let mut calc = GridCalculator::new(rat(100), GridType::Fixed, PositionMode::Fixed, rat(10), rat(1));
    let r1 = calc.calculate_grid(rat(1)).unwrap();
    let r2 = calc.calculate_grid(rat(2)).unwrap();
    let history = calc.get_history();
    assert_eq!(history.len(), 2);
    assert!(history[0].grid_price.eq_rat(&r1.grid_price));
    assert!(history[0].total_position.eq_rat(&rat(10)));
    assert!(history[1].grid_price.eq_rat(&r2.grid_price));
    assert!(history[1].total_position.eq_rat(&rat(20)));
}

#[test]
fn test_zero_base_size_keeps_seeding() {
    // The "first step" fallback is keyed on the value being exactly zero,
    // so a zero base size keeps selecting the fallback forever.
    let mut calc = GridCalculator::new(rat(100), GridType::Fixed, PositionMode::CurrentMultiple, rat(0), rat(2));
    let r1 = calc.calculate_grid(rat(1)).unwrap();
    assert!(r1.position_size.eq_rat(&rat(0)));
    assert!(r1.total_position.eq_rat(&rat(0)));
    // The average is never updated while the position is not positive.
    assert!(r1.average_price.eq_rat(&rat(100)));
    let r2 = calc.calculate_grid(rat(2)).unwrap();
    assert!(r2.position_size.eq_rat(&rat(0)));
    assert!(r2.average_price.eq_rat(&rat(100)));
}

#[test]
fn test_negative_size_leaves_average_untouched() {
    // A negative base size is permitted; the position goes negative and
    // the average keeps its prior value.
    let mut calc = GridCalculator::new(rat(100), GridType::Fixed, PositionMode::Fixed, rat(-50), rat(1));
    let r1 = calc.calculate_grid(rat(1)).unwrap();
    assert!(r1.position_size.eq_rat(&rat(-50)));
    assert!(r1.total_position.eq_rat(&rat(-50)));
    assert!(r1.average_price.eq_rat(&rat(100)));
}

#[test]
fn test_overflow_step_leaves_state_unchanged() {
    // A large base size and multiplier: the first step fits, but the
    // second step's size (base times multiplier) has no representable
    // numerator, so it is refused without touching the session.
    let base = Rat::new(1 << 32, 1);
    let mult = Rat::new(1 << 31, 1);
    let mut calc = GridCalculator::new(rat(100), GridType::Fixed, PositionMode::IncrementMultiple, base, mult);
    let r1 = calc.calculate_grid(rat(1)).unwrap();
    assert!(r1.position_size.eq_rat(&base));
    assert_eq!(calc.get_history().len(), 1);

    assert!(calc.calculate_grid(rat(2)).is_none());
    assert_eq!(calc.get_history().len(), 1);
    let last = calc.get_history()[0];
    assert!(last.total_position.eq_rat(&r1.total_position));
}
