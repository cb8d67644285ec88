use pokemontcgpocket::score::{calc_pokemon_tcg_battle_points, checked_battle_points, ScoreError};

#[test]
fn worked_example_scores_two() {
    assert_eq!(calc_pokemon_tcg_battle_points(2, 5, 1, 3, 3), 2);
    assert_eq!(checked_battle_points(2, 5, 1, 3, 3), Ok(2));
}

#[test]
fn all_zero_inputs_score_zero() {
    assert_eq!(calc_pokemon_tcg_battle_points(0, 0, 0, 3, 3), 0);
}

#[test]
fn move_damage_adds_exactly() {
    let base = calc_pokemon_tcg_battle_points(4, 7, 10, 2, 3);
    assert_eq!(base, 10);
    assert_eq!(calc_pokemon_tcg_battle_points(4, 7, 15, 2, 3), base + 5);
    assert_eq!(calc_pokemon_tcg_battle_points(4, 7, -20, 2, 3), base - 30);
}

#[test]
fn ceiling_term_steps_at_multiples() {
    // twins = 2, multi = 3, divi = 3: part1 = 6 - tpoints, part2 = ceil(tpoints / 3) - 2.
    assert_eq!(calc_pokemon_tcg_battle_points(2, 12, 0, 3, 3), -4);
    assert_eq!(calc_pokemon_tcg_battle_points(2, 13, 0, 3, 3), -4);
    assert_eq!(calc_pokemon_tcg_battle_points(2, 14, 0, 3, 3), -5);
    assert_eq!(calc_pokemon_tcg_battle_points(2, 15, 0, 3, 3), -6);
    assert_eq!(calc_pokemon_tcg_battle_points(2, 16, 0, 3, 3), -6);
}

#[test]
fn ceiling_of_negative_quotients() {
    // ceil(5 / -3) = -1
    assert_eq!(checked_battle_points(2, 5, 1, 3, -3), Ok(-1));
    // ceil(-5 / 3) = -1
    assert_eq!(calc_pokemon_tcg_battle_points(0, -5, 0, 3, 3), 4);
    // ceil(-5 / -3) = 2
    assert_eq!(calc_pokemon_tcg_battle_points(0, -5, 0, 3, -3), 7);
}

#[test]
fn divisor_of_minus_one_on_smallest_points() {
    assert_eq!(calc_pokemon_tcg_battle_points(i32::MIN, i32::MIN, 0, 3, -1), 0);
    assert_eq!(
        checked_battle_points(0, i32::MIN, 0, 3, -1),
        Err(ScoreError::OutOfRange)
    );
}

#[test]
fn large_product_with_result_in_range() {
    assert_eq!(calc_pokemon_tcg_battle_points(46341, 0, -100000, 46341, 3), 2147341940);
}

#[test]
fn zero_divisor_is_reported() {
    assert_eq!(checked_battle_points(1, 2, 3, 3, 0), Err(ScoreError::ZeroDivisor));
    assert_eq!(checked_battle_points(0, 0, 0, 0, 0), Err(ScoreError::ZeroDivisor));
}

#[test]
fn result_outside_i32_is_reported() {
    assert_eq!(
        checked_battle_points(i32::MAX, 0, 0, i32::MAX, 3),
        Err(ScoreError::OutOfRange)
    );
    assert_eq!(
        checked_battle_points(0, 0, i32::MIN, 3, 3),
        Ok(i32::MIN)
    );
    assert_eq!(
        checked_battle_points(0, 3, i32::MIN, 3, 3),
        Err(ScoreError::OutOfRange)
    );
}
