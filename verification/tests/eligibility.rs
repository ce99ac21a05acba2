use levelbot::eligibility::{channel_eligible, xp_from_message, ChannelError, XpChannelSet};
use levelbot::member::Member;
use levelbot::transition::award_message_xp;

#[test]
fn empty_and_link_messages_earn_nothing() {
    assert_eq!(xp_from_message(""), 0);
    assert_eq!(xp_from_message("http://x"), 0);
    assert_eq!(xp_from_message("https://example.com"), 0);
    assert_eq!(xp_from_message("http"), 0);
}

#[test]
fn deny_set_first_characters_earn_nothing() {
    for m in [
        "!command", "?what", ".dot", ",comma", ";semi", ":colon", " lead", "(paren", ")paren",
        "{brace", "}brace", "[brack", "]brack", "<angle", ">angle", "\\back", "/slash", "|pipe",
        "@ping", "$cash", "%pct", "^hat", "&amp", "+plus",
    ] {
        assert_eq!(xp_from_message(m), 0, "message {:?} should earn nothing", m);
    }
}

#[test]
fn a_fourteen_character_message_earns_two() {
    assert_eq!(xp_from_message("goodmorningpal"), 2);
}

#[test]
fn short_eligible_messages_earn_at_least_one() {
    assert_eq!(xp_from_message("hi"), 1);
    assert_eq!(xp_from_message("hello"), 1);
}

#[test]
fn only_alphanumeric_characters_count_toward_the_award() {
    // Fifteen characters but only eight are alphanumeric: raw length
    // would award two, the alphanumeric count awards one.
    assert_eq!(xp_from_message("a b c d e f g h"), 1);
    // Twenty-one characters, fourteen alphanumeric.
    assert_eq!(xp_from_message("abcdefg hijklmn !!!!!"), 2);
}

#[test]
fn channel_registration_is_checked_and_unique() {
    let mut set = XpChannelSet::new();
    assert!(!set.contains("100"));
    assert_eq!(set.add(String::from("100")), Ok(()));
    assert!(set.contains("100"));
    assert_eq!(set.add(String::from("100")), Err(ChannelError::AlreadyRegistered));
    assert_eq!(set.add(String::from("200")), Ok(()));
    assert_eq!(set.list().len(), 2);
    assert_eq!(set.remove("300"), Err(ChannelError::NotRegistered));
    assert_eq!(set.remove("100"), Ok(()));
    assert!(!set.contains("100"));
    assert!(set.contains("200"));
    assert_eq!(set.list().len(), 1);
}

#[test]
fn eligibility_walks_up_to_the_grandparent() {
    let mut set = XpChannelSet::new();
    set.add(String::from("cat")).unwrap();

    let parent = String::from("forum");
    let grand = String::from("cat");
    assert!(!channel_eligible(&set, "thread", None, None));
    assert!(!channel_eligible(&set, "thread", Some(&parent), None));
    assert!(channel_eligible(&set, "thread", Some(&parent), Some(&grand)));
    assert!(channel_eligible(&set, "cat", None, None));

    set.add(String::from("forum")).unwrap();
    assert!(channel_eligible(&set, "thread", Some(&parent), None));
}

#[test]
fn message_award_applies_xp_and_levels_up() {
    let mut m = Member::new(String::from("1"));
    m.xp = 99;
    // Fourteen alphanumeric characters award two XP, reaching 101 and
    // crossing level 1 at 100.
    let award = award_message_xp(&mut m, "goodmorningpal").unwrap();
    assert_eq!(award.xp, 2);
    assert!(award.leveled_up);
    assert_eq!(award.crossed, vec![1]);
    assert_eq!(m.xp, 101);
    assert_eq!(m.level, 1);
}

#[test]
fn ineligible_message_award_changes_nothing() {
    let mut m = Member::new(String::from("1"));
    m.xp = 50;
    let award = award_message_xp(&mut m, "!ping").unwrap();
    assert_eq!(award.xp, 0);
    assert!(!award.leveled_up);
    assert!(award.crossed.is_empty());
    assert_eq!(m.xp, 50);
    assert_eq!(m.level, 0);
}
