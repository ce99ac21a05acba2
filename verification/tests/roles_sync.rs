use levelbot::member::Member;
use levelbot::roles::{members_at_or_above, plan_role_updates, RoleError, XpRoleSet};
use levelbot::transition::apply_delta;

fn member_at_level(id: &str, level: i32) -> Member {
    let mut m = Member::new(String::from(id));
    m.level = level;
    m.xp = levelbot::curve::xp_at_level(level);
    m
}

#[test]
fn role_registration_is_keyed_and_unique() {
    let mut set = XpRoleSet::new();
    assert_eq!(set.level_of("7"), None);
    assert_eq!(set.add(String::from("7"), 3), Ok(()));
    assert_eq!(set.level_of("7"), Some(3));
    assert_eq!(set.add(String::from("7"), 5), Err(RoleError::AlreadyRegistered));
    assert_eq!(set.level_of("7"), Some(3));
    assert_eq!(set.add(String::from("8"), 5), Ok(()));
    assert_eq!(set.remove("9"), Err(RoleError::NotRegistered));
    assert_eq!(set.remove("7"), Ok(3));
    assert_eq!(set.level_of("7"), None);
    assert_eq!(set.level_of("8"), Some(5));
    assert_eq!(set.list().len(), 1);
}

#[test]
fn roles_at_level_selects_exact_matches_in_order() {
    let mut set = XpRoleSet::new();
    set.add(String::from("a"), 2).unwrap();
    set.add(String::from("b"), 3).unwrap();
    set.add(String::from("c"), 2).unwrap();
    assert_eq!(set.roles_at_level(2), vec!["a".to_string(), "c".to_string()]);
    assert_eq!(set.roles_at_level(3), vec!["b".to_string()]);
    assert!(set.roles_at_level(4).is_empty());
}

#[test]
fn a_transition_grants_roles_of_each_crossed_level_in_order() {
    let mut set = XpRoleSet::new();
    set.add(String::from("bronze"), 1).unwrap();
    set.add(String::from("silver"), 3).unwrap();
    set.add(String::from("extra"), 3).unwrap();

    let mut m = Member::new(String::from("1"));
    let (_, crossed) = apply_delta(&mut m, levelbot::curve::xp_at_level(3));
    assert_eq!(crossed, vec![1, 2, 3]);

    let plan = plan_role_updates(&set, &crossed, true);
    let got: Vec<(String, bool)> = plan.into_iter().map(|a| (a.role_id, a.grant)).collect();
    assert_eq!(
        got,
        vec![
            ("bronze".to_string(), true),
            ("silver".to_string(), true),
            ("extra".to_string(), true),
        ],
    );
}

#[test]
fn a_drop_revokes_roles_in_descending_level_order() {
    let mut set = XpRoleSet::new();
    set.add(String::from("bronze"), 1).unwrap();
    set.add(String::from("silver"), 3).unwrap();

    let mut m = member_at_level("1", 3);
    let all_xp = m.xp;
    let (_, crossed) = apply_delta(&mut m, -all_xp);
    assert_eq!(crossed, vec![3, 2, 1]);

    let plan = plan_role_updates(&set, &crossed, false);
    let got: Vec<(String, bool)> = plan.into_iter().map(|a| (a.role_id, a.grant)).collect();
    assert_eq!(
        got,
        vec![("silver".to_string(), false), ("bronze".to_string(), false)],
    );
}

#[test]
fn bulk_sync_reaches_exactly_the_members_at_or_above_the_level() {
    let members = vec![
        member_at_level("a", 1),
        member_at_level("b", 3),
        member_at_level("c", 3),
        member_at_level("d", 5),
    ];
    let targets = members_at_or_above(&members, 3);
    assert_eq!(targets.len(), 3);
    assert_eq!(
        targets,
        vec!["b".to_string(), "c".to_string(), "d".to_string()],
    );
    assert!(members_at_or_above(&members, 6).is_empty());
    assert_eq!(members_at_or_above(&members, 1).len(), 4);
}
