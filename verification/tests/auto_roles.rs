use levelbot::auto_roles::{AutoRoleError, AutoRoleSet};

#[test]
fn groups_are_named_and_unique() {
    let mut set = AutoRoleSet::new();
    assert_eq!(set.add_group(String::from("faction")), Ok(()));
    assert_eq!(set.add_group(String::from("faction")), Err(AutoRoleError::GroupExists));
    assert_eq!(set.add_group(String::from("colour")), Ok(()));
    assert_eq!(set.remove_group("nope"), Err(AutoRoleError::GroupNotFound));
    assert_eq!(set.remove_group("colour"), Ok(()));
}

#[test]
fn roles_may_only_join_existing_groups() {
    let mut set = AutoRoleSet::new();
    assert_eq!(
        set.add_role(String::from("1"), Some(String::from("faction"))),
        Err(AutoRoleError::GroupNotFound),
    );
    set.add_group(String::from("faction")).unwrap();
    assert_eq!(set.add_role(String::from("1"), Some(String::from("faction"))), Ok(()));
    assert_eq!(
        set.add_role(String::from("1"), None),
        Err(AutoRoleError::AlreadyRegistered),
    );
    assert!(set.contains_role("1"));
    assert_eq!(set.remove_role("2"), Err(AutoRoleError::NotRegistered));
    assert_eq!(set.remove_role("1"), Ok(()));
    assert!(!set.contains_role("1"));
}

#[test]
fn a_group_with_roles_cannot_be_deleted() {
    let mut set = AutoRoleSet::new();
    set.add_group(String::from("faction")).unwrap();
    set.add_role(String::from("1"), Some(String::from("faction"))).unwrap();
    assert_eq!(set.remove_group("faction"), Err(AutoRoleError::GroupNotEmpty));
    set.remove_role("1").unwrap();
    assert_eq!(set.remove_group("faction"), Ok(()));
}

#[test]
fn selecting_a_grouped_role_revokes_its_group_first() {
    let mut set = AutoRoleSet::new();
    set.add_group(String::from("faction")).unwrap();
    set.add_role(String::from("jedi"), Some(String::from("faction"))).unwrap();
    set.add_role(String::from("sith"), Some(String::from("faction"))).unwrap();
    set.add_role(String::from("loner"), None).unwrap();

    let plan = set.selection_plan("sith").unwrap();
    let got: Vec<(String, bool)> = plan.into_iter().map(|a| (a.role_id, a.grant)).collect();
    assert_eq!(
        got,
        vec![
            ("jedi".to_string(), false),
            ("sith".to_string(), false),
            ("sith".to_string(), true),
        ],
    );

    let plan = set.selection_plan("loner").unwrap();
    let got: Vec<(String, bool)> = plan.into_iter().map(|a| (a.role_id, a.grant)).collect();
    assert_eq!(got, vec![("loner".to_string(), true)]);

    assert!(matches!(set.selection_plan("nope"), Err(AutoRoleError::NotRegistered)));
}

#[test]
fn roles_in_group_lists_members_in_record_order() {
    let mut set = AutoRoleSet::new();
    set.add_group(String::from("g")).unwrap();
    set.add_group(String::from("h")).unwrap();
    set.add_role(String::from("1"), Some(String::from("g"))).unwrap();
    set.add_role(String::from("2"), Some(String::from("h"))).unwrap();
    set.add_role(String::from("3"), Some(String::from("g"))).unwrap();
    assert_eq!(set.roles_in_group("g"), vec!["1".to_string(), "3".to_string()]);
    assert_eq!(set.roles_in_group("h"), vec!["2".to_string()]);
    assert!(set.roles_in_group("nope").is_empty());
}
