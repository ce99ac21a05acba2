use levelbot::curve::xp_at_level;
use levelbot::member::Member;
use levelbot::transition::{
    add_levels, apply_delta, remove_levels, remove_xp, set_level, XpError,
};

fn fresh(id: &str) -> Member {
    Member::new(String::from(id))
}

#[test]
fn zero_delta_never_changes_the_level() {
    let mut m = fresh("1");
    let (changed, crossed) = apply_delta(&mut m, 0);
    assert!(!changed);
    assert!(crossed.is_empty());
    assert_eq!(m.level, 0);
    assert_eq!(m.xp, 0);

    m.xp = 1149;
    m.level = 4;
    let (changed, crossed) = apply_delta(&mut m, 0);
    assert!(!changed);
    assert!(crossed.is_empty());
    assert_eq!(m.level, 4);
}

#[test]
fn multi_level_jump_crosses_each_level_in_order() {
    let mut m = fresh("1");
    let delta = xp_at_level(5) + 10;
    let (changed, crossed) = apply_delta(&mut m, delta);
    assert!(changed);
    assert_eq!(m.level, 5);
    assert_eq!(m.xp, 1160);
    assert_eq!(crossed, vec![1, 2, 3, 4, 5]);
}

#[test]
fn removing_one_xp_at_a_threshold_levels_down() {
    let mut m = fresh("1");
    m.xp = xp_at_level(5);
    m.level = 5;
    let (changed, crossed) = apply_delta(&mut m, -1);
    assert!(changed);
    assert_eq!(m.level, 4);
    assert_eq!(crossed, vec![5]);
}

#[test]
fn multi_level_drop_vacates_levels_in_descending_order() {
    let mut m = fresh("1");
    m.xp = xp_at_level(5);
    m.level = 5;
    let (changed, crossed) = apply_delta(&mut m, -(xp_at_level(5) - 50));
    assert!(changed);
    assert_eq!(m.xp, 50);
    assert_eq!(m.level, 0);
    assert_eq!(crossed, vec![5, 4, 3, 2, 1]);
}

#[test]
fn invariant_holds_after_any_sequence_of_deltas() {
    let mut m = fresh("1");
    let deltas = [300, -100, 5000, -2000, 1, 0, 250000, -250000, 7];
    for d in deltas {
        apply_delta(&mut m, d);
        assert!(m.level >= 0 && m.level <= 100);
        assert!(xp_at_level(m.level) <= m.xp);
        assert!(m.level == 100 || m.xp < xp_at_level(m.level + 1));
    }
}

#[test]
fn a_huge_grant_saturates_at_the_cap() {
    let mut m = fresh("1");
    let (changed, crossed) = apply_delta(&mut m, 2_000_000);
    assert!(changed);
    assert_eq!(m.level, 100);
    assert_eq!(crossed.len(), 100);
    assert_eq!(crossed[0], 1);
    assert_eq!(crossed[99], 100);
}

#[test]
fn set_level_snaps_xp_to_the_threshold() {
    let mut m = fresh("1");
    set_level(&mut m, 7);
    assert_eq!(m.level, 7);
    assert_eq!(m.xp, xp_at_level(7));
}

#[test]
fn add_levels_resets_progress_only_when_moving() {
    let mut m = fresh("1");
    m.xp = xp_at_level(2) + 40;
    m.level = 2;
    add_levels(&mut m, 3);
    assert_eq!(m.level, 5);
    assert_eq!(m.xp, xp_at_level(5));

    let before = m.xp;
    add_levels(&mut m, 0);
    assert_eq!(m.level, 5);
    assert_eq!(m.xp, before);
}

#[test]
fn remove_levels_rejects_going_below_zero() {
    let mut m = fresh("1");
    m.xp = xp_at_level(3);
    m.level = 3;
    assert_eq!(remove_levels(&mut m, 4), Err(XpError::InsufficientLevels));
    assert_eq!(m.level, 3);
    assert_eq!(m.xp, xp_at_level(3));

    assert_eq!(remove_levels(&mut m, 2), Ok(()));
    assert_eq!(m.level, 1);
    assert_eq!(m.xp, xp_at_level(1));
}

#[test]
fn set_level_past_the_cap_snaps_to_the_saturated_total() {
    let mut m = fresh("1");
    set_level(&mut m, 150);
    assert_eq!(m.level, 150);
    assert_eq!(m.xp, xp_at_level(100));
}

#[test]
fn progress_reports_xp_into_the_level_and_the_next_threshold() {
    let mut m = fresh("1");
    apply_delta(&mut m, 300);
    assert_eq!(m.level, 2);
    let (into, next) = m.progress();
    assert_eq!(into, 300 - xp_at_level(2));
    assert_eq!(next, xp_at_level(3));
}

#[test]
fn remove_xp_rejects_going_below_zero() {
    let mut m = fresh("1");
    apply_delta(&mut m, 120);
    assert_eq!(remove_xp(&mut m, 121), Err(XpError::InsufficientXp));
    assert_eq!(m.xp, 120);
    assert_eq!(m.level, 1);

    let (changed, crossed) = remove_xp(&mut m, 30).unwrap();
    assert!(changed);
    assert_eq!(m.xp, 90);
    assert_eq!(m.level, 0);
    assert_eq!(crossed, vec![1]);
}
