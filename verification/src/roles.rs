//! Hall roles and their network mirror.

use vstd::prelude::*;

verus! {

/// Hall roles, declared from lowest to highest priority.
#[derive(Debug, Clone, Copy, PartialEq, Eq, Structural, PartialOrd, Ord, Hash)]
pub enum HallRole {
    /// Guest - limited access
    HallFellow,
    /// Member - standard participant
    HallAgent,
    /// Moderator - can manage members and messages
    HallModerator,
    /// Admin - most permissions except ownership transfer
    HallPrefect,
    /// Owner - full control
    HallBuilder,
}

/// The numeric value of a role: 1 (Fellow) up to 5 (Builder).
pub open spec fn role_value(r: HallRole) -> u8 {
    match r {
        HallRole::HallFellow => 1,
        HallRole::HallAgent => 2,
        HallRole::HallModerator => 3,
        HallRole::HallPrefect => 4,
        HallRole::HallBuilder => 5,
    }
}

/// The role whose value is `v`; every value outside 2..=5 reads as Fellow.
pub open spec fn role_of_value(v: u8) -> HallRole {
    if v == 5 {
        HallRole::HallBuilder
    } else if v == 4 {
        HallRole::HallPrefect
    } else if v == 3 {
        HallRole::HallModerator
    } else if v == 2 {
        HallRole::HallAgent
    } else {
        HallRole::HallFellow
    }
}

/// `a` ranks at least as high as `b`.
pub open spec fn role_at_least(a: HallRole, b: HallRole) -> bool {
    role_value(a) >= role_value(b)
}

impl HallRole {
    pub fn display_name(&self) -> (s: &'static str)
        ensures
            s@ == match *self {
                HallRole::HallBuilder => "Hall Builder"@,
                HallRole::HallPrefect => "Hall Prefect"@,
                HallRole::HallModerator => "Hall Moderator"@,
                HallRole::HallAgent => "Hall Agent"@,
                HallRole::HallFellow => "Hall Fellow"@,
            },
    {
        match self {
            HallRole::HallBuilder => "Hall Builder",
            HallRole::HallPrefect => "Hall Prefect",
            HallRole::HallModerator => "Hall Moderator",
            HallRole::HallAgent => "Hall Agent",
            HallRole::HallFellow => "Hall Fellow",
        }
    }

    pub fn short_name(&self) -> (s: &'static str)
        ensures
            s@ == match *self {
                HallRole::HallBuilder => "Builder"@,
                HallRole::HallPrefect => "Prefect"@,
                HallRole::HallModerator => "Moderator"@,
                HallRole::HallAgent => "Agent"@,
                HallRole::HallFellow => "Fellow"@,
            },
    {
        match self {
            HallRole::HallBuilder => "Builder",
            HallRole::HallPrefect => "Prefect",
            HallRole::HallModerator => "Moderator",
            HallRole::HallAgent => "Agent",
            HallRole::HallFellow => "Fellow",
        }
    }

    /// Returns the hosting priority (higher = more priority)
    pub fn hosting_priority(&self) -> (p: u8)
        ensures
            p == role_value(*self),
            1 <= p <= 5,
    {
        match self {
            HallRole::HallFellow => 1,
            HallRole::HallAgent => 2,
            HallRole::HallModerator => 3,
            HallRole::HallPrefect => 4,
            HallRole::HallBuilder => 5,
        }
    }

    /// Can this role host a Hall? Every role from Agent up can.
    pub fn can_host(&self) -> (b: bool)
        ensures
            b == role_at_least(*self, HallRole::HallAgent),
            b == (*self != HallRole::HallFellow),
    {
        self.hosting_priority() >= 2
    }

    /// All roles in priority order (highest first)
    pub fn all_by_priority() -> (v: Vec<HallRole>)
        ensures
            v@ == seq![
                HallRole::HallBuilder,
                HallRole::HallPrefect,
                HallRole::HallModerator,
                HallRole::HallAgent,
                HallRole::HallFellow,
            ],
    {
        vec![
            HallRole::HallBuilder,
            HallRole::HallPrefect,
            HallRole::HallModerator,
            HallRole::HallAgent,
            HallRole::HallFellow,
        ]
    }
}

/// Reads a stored role value back into a role; unknown values become Fellow.
pub fn role_from_u8(value: u8) -> (r: HallRole)
    ensures
        r == role_of_value(value),
{
    match value {
        5 => HallRole::HallBuilder,
        4 => HallRole::HallPrefect,
        3 => HallRole::HallModerator,
        2 => HallRole::HallAgent,
        _ => HallRole::HallFellow,
    }
}

/// Storing a role as its value and reading it back gives the same role.
pub proof fn lemma_role_value_roundtrip(r: HallRole)
    ensures
        role_of_value(role_value(r)) == r,
{
}

} // verus!
