use djbot::db::{default_prefix, prefix_or_default, GuildIdPrefix, GuildIdUserId, UserIdPermLevel, UserPerm};

#[test]
fn test_ord() {
    assert!(UserPerm::Admin > UserPerm::DJ);
    assert!(UserPerm::DJ > UserPerm::User);
    assert!(UserPerm::User > UserPerm::Blacklisted);
}

#[test]
fn level_round_trip() {
    assert_eq!(UserPerm::from_level(0), UserPerm::User);
    assert_eq!(UserPerm::from_level(1), UserPerm::Blacklisted);
    assert_eq!(UserPerm::from_level(2), UserPerm::DJ);
    assert_eq!(UserPerm::from_level(3), UserPerm::Admin);
    for level in 0..=3i16 {
        assert_eq!(UserPerm::from_level(level).to_level(), level);
    }
}

#[test]
fn rank_order_matches_at_least() {
    assert!(UserPerm::Admin.at_least(UserPerm::DJ));
    assert!(UserPerm::DJ.at_least(UserPerm::DJ));
    assert!(!UserPerm::User.at_least(UserPerm::DJ));
    assert!(!UserPerm::Blacklisted.at_least(UserPerm::User));
}

#[test]
fn prefix_defaults() {
    assert_eq!(default_prefix(), "~");
    assert_eq!(prefix_or_default(Some(String::from("!"))), "!");
    assert_eq!(prefix_or_default(None), "~");
}

#[test]
fn row_types_hold_fields() {
    let row = UserIdPermLevel { user_id: 42, perm_level: 2 };
    assert_eq!(row.user_id, 42);
    assert_eq!(row.perm_level, 2);
    let key = GuildIdUserId { guild_id: 7, user_id: 42 };
    assert_eq!(key.guild_id, 7);
    let p = GuildIdPrefix { guild_id: 7, prefix: String::from("!") };
    assert_eq!(p.prefix, "!");
}
