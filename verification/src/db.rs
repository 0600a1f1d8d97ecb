use vstd::prelude::*;
use vstd::string::StringExecFns;

verus! {

/// A user's permission tier within a guild, weakest first, as the
/// permission rows store it.
#[derive(Debug, Eq, PartialEq, Ord, PartialOrd, Copy, Clone, Structural)]
pub enum UserPerm {
    Blacklisted,
    User,
    DJ,
    Admin,
}

/// The tier a storage level denotes. Levels outside 0..=3 denote
/// nothing; callers must not present them.
pub open spec fn level_to_perm(level: int) -> UserPerm {
    if level == 0 {
        UserPerm::User
    } else if level == 1 {
        UserPerm::Blacklisted
    } else if level == 2 {
        UserPerm::DJ
    } else {
        UserPerm::Admin
    }
}

impl UserPerm {
    /// The storage level of this tier, as the permission rows hold it.
    pub open spec fn spec_level(self) -> i16 {
        match self {
            UserPerm::User => 0,
            UserPerm::Blacklisted => 1,
            UserPerm::DJ => 2,
            UserPerm::Admin => 3,
        }
    }

    /// The rank used for authorization: a higher tier may do more.
    pub open spec fn spec_rank(self) -> int {
        match self {
            UserPerm::Blacklisted => 0,
            UserPerm::User => 1,
            UserPerm::DJ => 2,
            UserPerm::Admin => 3,
        }
    }

    /// The tier a stored level denotes. Storage only ever holds
    /// levels 0 to 3; anything else is rejected before this call.
    pub fn from_level(level: i16) -> (r: UserPerm)
        requires
            0 <= level <= 3,
        ensures
            r == level_to_perm(level as int),
    {
        if level == 0 {
            UserPerm::User
        } else if level == 1 {
            UserPerm::Blacklisted
        } else if level == 2 {
            UserPerm::DJ
        } else {
            UserPerm::Admin
        }
    }

    /// The storage level of this tier.
    pub fn to_level(self) -> (r: i16)
        ensures
            r == self.spec_level(),
    {
        match self {
            UserPerm::User => 0,
            UserPerm::Blacklisted => 1,
            UserPerm::DJ => 2,
            UserPerm::Admin => 3,
        }
    }

    /// Whether this tier ranks at least as high as `other`.
    pub fn at_least(self, other: UserPerm) -> (r: bool)
        ensures
            r == (self.spec_rank() >= other.spec_rank()),
    {
        let a: i16 = match self {
            UserPerm::Blacklisted => 0,
            UserPerm::User => 1,
            UserPerm::DJ => 2,
            UserPerm::Admin => 3,
        };
        let b: i16 = match other {
            UserPerm::Blacklisted => 0,
            UserPerm::User => 1,
            UserPerm::DJ => 2,
            UserPerm::Admin => 3,
        };
        a >= b
    }
}

/// Reading a tier's level back gives the tier: storage and code
/// agree on the encoding.
pub proof fn lemma_level_round_trip(p: UserPerm)
    ensures
        level_to_perm(p.spec_level() as int) == p,
{
}

/// One row of the permission listing: a user and their stored level.
#[derive(Debug)]
pub struct UserIdPermLevel {
    pub user_id: i64,
    pub perm_level: i16,
}

/// The key of a permission row.
#[derive(Debug)]
pub struct GuildIdUserId {
    pub guild_id: i64,
    pub user_id: i64,
}

/// One row of the prefix table: a guild and its command prefix.
#[derive(Debug)]
pub struct GuildIdPrefix {
    pub guild_id: i64,
    pub prefix: String,
}

/// The command prefix a guild falls back on when none is stored.
pub fn default_prefix() -> (r: String)
    ensures
        r@ == "~"@,
{
    String::from_str("~")
}

/// The prefix a stored row yields: the row's own prefix, or the
/// default where the guild has no row.
pub fn prefix_or_default(row: Option<String>) -> (r: String)
    ensures
        r@ == (match row {
            Some(p) => p@,
            None => "~"@,
        }),
{
    match row {
        Some(p) => p,
        None => default_prefix(),
    }
}

} // verus!
