use vstd::prelude::*;

use crate::db::UserPerm;

verus! {

/// The verdict of a permission gate in front of a command.
#[derive(Debug, Clone, Copy, PartialEq, Eq, Structural)]
pub enum CheckVerdict {
    /// The command may run.
    Allow,
    /// The author sits in a different voice channel than the bot.
    DifferentChannel,
    /// The author's tier does not suffice.
    Insufficient,
}

/// The tier assumed for a user with no stored row.
pub open spec fn spec_effective_perm(stored: Option<UserPerm>) -> UserPerm {
    match stored {
        Some(p) => p,
        None => UserPerm::User,
    }
}

/// The tier a user acts with: the stored one, or plain user.
pub fn effective_perm(stored: Option<UserPerm>) -> (r: UserPerm)
    ensures
        r == spec_effective_perm(stored),
{
    match stored {
        Some(p) => p,
        None => UserPerm::User,
    }
}

/// Whether the author may address the playing session: refused only
/// when bot and author both sit in a voice channel and the channels
/// differ.
pub open spec fn spec_same_channel(bot: Option<u64>, author: Option<u64>) -> bool {
    !(bot matches Some(b) && author matches Some(a) && b != a)
}

/// See `spec_same_channel`.
pub fn in_same_channel(bot_channel: Option<u64>, author_channel: Option<u64>) -> (r: bool)
    ensures
        r == spec_same_channel(bot_channel, author_channel),
{
    match (bot_channel, author_channel) {
        (Some(b), Some(a)) => b == a,
        _ => true,
    }
}

/// The check run before ordinary commands: an administrator always
/// passes; anyone else must share the bot's channel and not be
/// blacklisted.
pub open spec fn spec_not_blacklisted(
    is_admin: bool,
    bot: Option<u64>,
    author: Option<u64>,
    stored: Option<UserPerm>,
) -> CheckVerdict {
    if is_admin {
        CheckVerdict::Allow
    } else if !spec_same_channel(bot, author) {
        CheckVerdict::DifferentChannel
    } else if spec_effective_perm(stored) == UserPerm::Blacklisted {
        CheckVerdict::Insufficient
    } else {
        CheckVerdict::Allow
    }
}

/// See `spec_not_blacklisted`.
pub fn not_blacklisted(
    is_admin: bool,
    bot_channel: Option<u64>,
    author_channel: Option<u64>,
    stored: Option<UserPerm>,
) -> (r: CheckVerdict)
    ensures
        r == spec_not_blacklisted(is_admin, bot_channel, author_channel, stored),
{
    if is_admin {
        CheckVerdict::Allow
    } else if !in_same_channel(bot_channel, author_channel) {
        CheckVerdict::DifferentChannel
    } else {
        match effective_perm(stored) {
            UserPerm::Blacklisted => CheckVerdict::Insufficient,
            _ => CheckVerdict::Allow,
        }
    }
}

/// The check run before playback-mutating commands: as
/// `spec_not_blacklisted`, and where the guild runs in dj-only mode
/// the author must rank at least DJ.
pub open spec fn spec_dj_only(
    is_admin: bool,
    bot: Option<u64>,
    author: Option<u64>,
    stored: Option<UserPerm>,
    dj_only_mode: bool,
) -> CheckVerdict {
    if is_admin {
        CheckVerdict::Allow
    } else if !spec_same_channel(bot, author) {
        CheckVerdict::DifferentChannel
    } else if spec_effective_perm(stored) == UserPerm::Blacklisted {
        CheckVerdict::Insufficient
    } else if !dj_only_mode || spec_effective_perm(stored).spec_rank()
        >= UserPerm::DJ.spec_rank() {
        CheckVerdict::Allow
    } else {
        CheckVerdict::Insufficient
    }
}

/// See `spec_dj_only`.
pub fn dj_only(
    is_admin: bool,
    bot_channel: Option<u64>,
    author_channel: Option<u64>,
    stored: Option<UserPerm>,
    dj_only_mode: bool,
) -> (r: CheckVerdict)
    ensures
        r == spec_dj_only(is_admin, bot_channel, author_channel, stored, dj_only_mode),
{
    if is_admin {
        return CheckVerdict::Allow;
    }
    if !in_same_channel(bot_channel, author_channel) {
        return CheckVerdict::DifferentChannel;
    }
    let perm = effective_perm(stored);
    if matches!(perm, UserPerm::Blacklisted) {
        return CheckVerdict::Insufficient;
    }
    if !dj_only_mode || perm.at_least(UserPerm::DJ) {
        CheckVerdict::Allow
    } else {
        CheckVerdict::Insufficient
    }
}

/// The check run before administrative commands: an administrator of
/// the guild, or a user whose stored tier is Admin.
pub open spec fn spec_admin_only(is_admin: bool, stored: Option<UserPerm>) -> CheckVerdict {
    if is_admin || spec_effective_perm(stored) == UserPerm::Admin {
        CheckVerdict::Allow
    } else {
        CheckVerdict::Insufficient
    }
}

/// See `spec_admin_only`.
pub fn admin_only(is_admin: bool, stored: Option<UserPerm>) -> (r: CheckVerdict)
    ensures
        r == spec_admin_only(is_admin, stored),
{
    if is_admin {
        return CheckVerdict::Allow;
    }
    match effective_perm(stored) {
        UserPerm::Admin => CheckVerdict::Allow,
        _ => CheckVerdict::Insufficient,
    }
}

/// The check run before the permission-editing commands: a guild
/// administrator, or a user whose stored row says Admin outright.
pub fn perms_check(is_admin: bool, stored: Option<UserPerm>) -> (r: bool)
    ensures
        r <==> (is_admin || stored == Some(UserPerm::Admin)),
{
    if is_admin {
        true
    } else {
        match stored {
            Some(UserPerm::Admin) => true,
            _ => false,
        }
    }
}

/// Whether the guild is in dj-only mode, given whether the store
/// holds an entry for it: an entry present means the mode is on.
pub fn dj_mode_from_store(in_store: bool) -> (r: bool)
    ensures
        r == in_store,
{
    in_store
}

} // verus!
