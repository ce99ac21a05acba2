use levelbot::economy::{credit, debit, transfer_between, EconomyError, DAILY_INCOME};
use levelbot::embed::EmbedStyle;
use levelbot::leaderboard::rank_of;
use levelbot::member::{Member, DEFAULT_BALANCE};
use levelbot::perms::{admins_of, grant_admin, is_admin, is_owner, revoke_admin, AdminError};

fn fresh(id: &str) -> Member {
    Member::new(String::from(id))
}

#[test]
fn a_fresh_member_has_the_default_state() {
    let m = fresh("77");
    assert_eq!(m.id, "77");
    assert_eq!(m.balance, DEFAULT_BALANCE);
    assert_eq!(m.balance, 100_000_000_000);
    assert_eq!(m.xp, 0);
    assert_eq!(m.level, 0);
    assert_eq!(m.permissions, 0);
}

#[test]
fn credit_and_debit_move_the_balance() {
    let mut m = fresh("1");
    m.balance = 1000;
    credit(&mut m, 250);
    assert_eq!(m.balance, 1250);
    assert_eq!(debit(&mut m, 1250), Ok(()));
    assert_eq!(m.balance, 0);
    credit(&mut m, DAILY_INCOME);
    assert_eq!(m.balance, 10_000_000_000);
}

#[test]
fn debit_rejects_more_than_the_balance() {
    let mut m = fresh("1");
    m.balance = 100;
    assert_eq!(debit(&mut m, 101), Err(EconomyError::InsufficientFunds));
    assert_eq!(m.balance, 100);
}

#[test]
fn transfer_moves_money_or_nothing() {
    let mut a = fresh("a");
    let mut b = fresh("b");
    a.balance = 500;
    b.balance = 10;
    assert_eq!(
        transfer_between(&mut a, &mut b, 501),
        Err(EconomyError::InsufficientFunds),
    );
    assert_eq!((a.balance, b.balance), (500, 10));
    assert_eq!(transfer_between(&mut a, &mut b, 500), Ok(()));
    assert_eq!((a.balance, b.balance), (0, 510));
}

#[test]
fn owners_are_fixed_and_bypass_the_flag() {
    assert!(is_owner("1136467589879582780"));
    assert!(is_owner("258298021266063360"));
    assert!(!is_owner("1"));
    assert!(!is_owner(""));

    let mut m = fresh("1136467589879582780");
    assert!(is_admin(&m));
    m = fresh("1");
    assert!(!is_admin(&m));
    m.permissions = 1;
    assert!(is_admin(&m));
}

#[test]
fn admin_flag_changes_are_validated() {
    let mut m = fresh("1");
    assert_eq!(grant_admin(&mut m), Ok(()));
    assert_eq!(m.permissions, 1);
    assert_eq!(grant_admin(&mut m), Err(AdminError::AlreadyAdmin));
    assert_eq!(revoke_admin(&mut m), Ok(()));
    assert_eq!(m.permissions, 0);
    assert_eq!(revoke_admin(&mut m), Err(AdminError::NotAdmin));
}

#[test]
fn the_admin_roster_lists_flagged_members_in_order() {
    let mut a = fresh("a");
    let b = fresh("b");
    let mut c = fresh("c");
    a.permissions = 1;
    c.permissions = 2;
    let members = vec![a, b, c];
    assert_eq!(admins_of(&members), vec!["a".to_string(), "c".to_string()]);
}

#[test]
fn rank_counts_only_strictly_higher_scores() {
    let mut members = Vec::new();
    for (id, xp) in [("a", 100), ("b", 50), ("c", 50), ("d", 10)] {
        let mut m = fresh(id);
        m.xp = xp;
        members.push(m);
    }
    assert_eq!(rank_of(&members, 100), 1);
    assert_eq!(rank_of(&members, 50), 2);
    assert_eq!(rank_of(&members, 10), 4);
    assert_eq!(rank_of(&members, 0), 5);
    assert_eq!(rank_of(&Vec::new(), 0), 1);
}

#[test]
fn embed_styles_carry_their_colours() {
    assert_eq!(EmbedStyle::Info.colour(), 0x3498DB);
    assert_eq!(EmbedStyle::Success.colour(), 0x1F8B4C);
    assert_eq!(EmbedStyle::Warning.colour(), 0xE67E22);
    assert_eq!(EmbedStyle::Error.colour(), 0xE74C3C);
}
