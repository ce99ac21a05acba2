use levelbot::curve::{xp_at_level, xp_to_level, XpCurve};

#[test]
fn zero_and_negative_levels_cost_nothing() {
    assert_eq!(xp_to_level(0), 0);
    assert_eq!(xp_at_level(0), 0);
    assert_eq!(xp_to_level(-3), 0);
    assert_eq!(xp_at_level(-3), 0);
}

#[test]
fn per_level_cost_follows_the_quadratic_formula() {
    assert_eq!(xp_to_level(1), 100);
    assert_eq!(xp_to_level(2), 155);
    assert_eq!(xp_to_level(3), 220);
    assert_eq!(xp_to_level(4), 295);
    assert_eq!(xp_to_level(5), 380);
    assert_eq!(xp_to_level(100), 54055);
}

#[test]
fn cumulative_cost_sums_the_steps() {
    assert_eq!(xp_at_level(1), 100);
    assert_eq!(xp_at_level(2), 255);
    assert_eq!(xp_at_level(3), 475);
    assert_eq!(xp_at_level(4), 770);
    assert_eq!(xp_at_level(5), 1150);
    assert_eq!(xp_at_level(100), 1899250);
}

#[test]
fn both_curves_saturate_past_the_cap() {
    assert_eq!(xp_to_level(101), xp_to_level(100));
    assert_eq!(xp_to_level(5000), 54055);
    assert_eq!(xp_at_level(101), xp_at_level(100));
    assert_eq!(xp_at_level(5000), 1899250);
}

#[test]
fn cumulative_cost_strictly_increases_up_to_the_cap() {
    for level in 1..=100 {
        assert!(xp_at_level(level) > xp_at_level(level - 1));
    }
}

#[test]
fn precomputed_tables_agree_with_the_curve() {
    let curve = XpCurve::new();
    for level in -2..=105 {
        assert_eq!(curve.xp_to_level(level), xp_to_level(level));
        assert_eq!(curve.xp_at_level(level), xp_at_level(level));
    }
}
