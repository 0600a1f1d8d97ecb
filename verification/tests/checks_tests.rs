use djbot::checks::{
    admin_only, dj_mode_from_store, dj_only, effective_perm, in_same_channel, not_blacklisted,
    perms_check, CheckVerdict,
};
use djbot::db::UserPerm;

#[test]
fn effective_perm_defaults_to_user() {
    assert_eq!(effective_perm(None), UserPerm::User);
    assert_eq!(effective_perm(Some(UserPerm::DJ)), UserPerm::DJ);
}

#[test]
fn same_channel_cases() {
    assert!(in_same_channel(None, None));
    assert!(in_same_channel(Some(1), None));
    assert!(in_same_channel(None, Some(1)));
    assert!(in_same_channel(Some(1), Some(1)));
    assert!(!in_same_channel(Some(1), Some(2)));
}

#[test]
fn not_blacklisted_gate() {
    // An administrator passes even from another channel.
    assert_eq!(
        not_blacklisted(true, Some(1), Some(2), Some(UserPerm::Blacklisted)),
        CheckVerdict::Allow
    );
    assert_eq!(
        not_blacklisted(false, Some(1), Some(2), None),
        CheckVerdict::DifferentChannel
    );
    assert_eq!(
        not_blacklisted(false, Some(1), Some(1), Some(UserPerm::Blacklisted)),
        CheckVerdict::Insufficient
    );
    assert_eq!(not_blacklisted(false, None, Some(1), None), CheckVerdict::Allow);
}

#[test]
fn dj_only_gate() {
    // With dj-only mode off, any non-blacklisted user passes.
    assert_eq!(dj_only(false, None, None, None, false), CheckVerdict::Allow);
    // With dj-only mode on, plain users are refused and DJs pass.
    assert_eq!(dj_only(false, None, None, None, true), CheckVerdict::Insufficient);
    assert_eq!(
        dj_only(false, None, None, Some(UserPerm::DJ), true),
        CheckVerdict::Allow
    );
    assert_eq!(
        dj_only(false, None, None, Some(UserPerm::Admin), true),
        CheckVerdict::Allow
    );
    assert_eq!(
        dj_only(false, None, None, Some(UserPerm::Blacklisted), false),
        CheckVerdict::Insufficient
    );
    assert_eq!(
        dj_only(false, Some(3), Some(4), Some(UserPerm::DJ), true),
        CheckVerdict::DifferentChannel
    );
}

#[test]
fn admin_gates() {
    assert_eq!(admin_only(true, None), CheckVerdict::Allow);
    assert_eq!(admin_only(false, Some(UserPerm::Admin)), CheckVerdict::Allow);
    assert_eq!(admin_only(false, Some(UserPerm::DJ)), CheckVerdict::Insufficient);
    assert_eq!(admin_only(false, None), CheckVerdict::Insufficient);

    assert!(perms_check(true, None));
    assert!(perms_check(false, Some(UserPerm::Admin)));
    assert!(!perms_check(false, Some(UserPerm::DJ)));
    assert!(!perms_check(false, None));
}

#[test]
fn dj_mode_follows_store() {
    assert!(dj_mode_from_store(true));
    assert!(!dj_mode_from_store(false));
}
