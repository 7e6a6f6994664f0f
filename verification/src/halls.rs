//! Halls as a member sees them: opening one (and who hosts it), joining by
//! invite, making invites, leaving, and the member actions on others.

use vstd::prelude::*;
use crate::hosting::{spec_on_user_join, HostElectionResult, HostingState};
use crate::models::{invite_valid_at, plus_hours, Hall, Invite, Membership};
use crate::permissions::{spec_can_change_role, spec_can_kick, PermissionMatrix};
use crate::roles::{role_at_least, HallRole};
use crate::text::{chars_of, is_prefix, str_starts_with, string_from_range};
use crate::time::Timestamp;

verus! {

/// How long a new invite lasts: one week, in hours.
pub const INVITE_HOURS: i64 = 168;

/// The length of an invite token.
pub const INVITE_TOKEN_LEN: usize = 16;

/// An ASCII letter or digit.
pub open spec fn is_ascii_alphanumeric(c: char) -> bool {
    ('a' <= c && c <= 'z') || ('A' <= c && c <= 'Z') || ('0' <= c && c <= '9')
}

/// A fresh invite token: `len` random ASCII letters and digits.
///
/// Trusted: draws `len` samples of `rand::distributions::Alphanumeric` from
/// `rand::thread_rng()`; the crate documents that distribution as uniform
/// over `a-z`, `A-Z` and `0-9`. The characters are random, so only their
/// number and kind are promised.
#[verifier::external_body]
fn random_invite_token(len: usize) -> (t: String)
    ensures
        t@.len() == len,
        forall|i: int| 0 <= i < t@.len() ==> is_ascii_alphanumeric(#[trigger] t@[i]),
{
    rand::Rng::sample_iter(rand::thread_rng(), &rand::distributions::Alphanumeric)
        .take(len)
        .map(char::from)
        .collect()
}

/// Why a hall action was refused.
#[derive(Debug, Clone, Copy, PartialEq, Eq, Structural)]
pub enum HallError {
    /// The invite does not exist, or has expired, been revoked or used up
    InvalidInvite,
    /// The user is a member already
    AlreadyMember,
}

impl HallError {
    /// The message shown for the refusal.
    pub fn message(&self) -> (s: &'static str)
        ensures
            s@ == match *self {
                HallError::InvalidInvite => "Invalid or expired invite"@,
                HallError::AlreadyMember => "Already a member of this Hall"@,
            },
    {
        match self {
            HallError::InvalidInvite => "Invalid or expired invite",
            HallError::AlreadyMember => "Already a member of this Hall",
        }
    }
}

/// A name a new hall may have: anything but the empty text.
pub fn hall_name_ok(name: &str) -> (b: bool)
    ensures
        b == (name@.len() > 0),
{
    name.unicode_len() > 0
}

/// The hosting state a hall records.
pub open spec fn hall_hosting(hall: Hall) -> HostingState {
    HostingState { host_id: hall.current_host_id, election_epoch: hall.election_epoch, pending_transfer: None }
}

/// A member opens a hall: with nobody hosting and a role that may host,
/// they become the host and a new election epoch opens; a member of a higher
/// role than the host's is offered the takeover, which changes nothing yet.
/// Returns the election's outcome.
pub fn host_on_open(
    hall: &mut Hall,
    user_id: u128,
    role: HallRole,
    current_host_role: Option<HallRole>,
) -> (r: Option<HostElectionResult>)
    requires
        old(hall).election_epoch < u64::MAX,
    ensures
        r == spec_on_user_join(hall_hosting(*old(hall)), user_id, role, current_host_role),
        r == Some(HostElectionResult::Elected(user_id)) ==> *final(hall) == (Hall {
            current_host_id: Some(user_id),
            election_epoch: (old(hall).election_epoch + 1) as u64,
            ..*old(hall)
        }),
        r != Some(HostElectionResult::Elected(user_id)) ==> *final(hall) == *old(hall),
{
    let mut hosting = HostingState::new();
    hosting.host_id = hall.current_host_id;
    hosting.election_epoch = hall.election_epoch;
    assert(hosting == hall_hosting(*hall));
    let r = hosting.on_user_join(user_id, role, current_host_role);
    match r {
        Some(HostElectionResult::Elected(new_host)) => {
            hosting.set_host(Some(new_host));
            hall.current_host_id = Some(new_host);
            hall.election_epoch = hosting.election_epoch;
        },
        _ => {},
    }
    r
}

/// The host as shown to `me`: "You", the host's name, "Unknown" when the
/// host's account is not found, or "None" without a host.
pub fn host_label(host: Option<u128>, me: u128, host_username: Option<&str>) -> (s: String)
    ensures
        s@ == match host {
            None => "None"@,
            Some(h) => if h == me {
                "You"@
            } else {
                match host_username {
                    Some(n) => n@,
                    None => "Unknown"@,
                }
            },
        },
{
    match host {
        None => String::from_str("None"),
        Some(h) => if h == me {
            String::from_str("You")
        } else {
            match host_username {
                Some(n) => String::from_str(n),
                None => String::from_str("Unknown"),
            }
        },
    }
}

/// Whether a user may join with an invite at `now`: the invite must exist
/// and be usable, and the user must not be a member yet.
pub fn check_invite_join(invite: Option<&Invite>, now: Timestamp, already_member: bool) -> (r: Result<
    (),
    HallError,
>)
    ensures
        r == match invite {
            None => Err(HallError::InvalidInvite),
            Some(i) => if !invite_valid_at(*i, now) {
                Err(HallError::InvalidInvite)
            } else if already_member {
                Err(HallError::AlreadyMember)
            } else {
                Ok(())
            },
        },
        invite matches Some(i) && i.is_revoked ==> r == Err::<(), HallError>(HallError::InvalidInvite),
{
    match invite {
        None => Err(HallError::InvalidInvite),
        Some(i) => if !i.is_valid_at(now) {
            Err(HallError::InvalidInvite)
        } else if already_member {
            Err(HallError::AlreadyMember)
        } else {
            Ok(())
        },
    }
}

/// The membership that joining with an invite makes: the invite's hall and
/// role, offline, joined now; and whether the member gets a chest (Agents and
/// above do).
pub fn join_with_invite(user_id: u128, invite: &Invite) -> (r: (Membership, bool))
    ensures
        r.0.user_id == user_id,
        r.0.hall_id == invite.hall_id,
        r.0.role == invite.role,
        !r.0.is_online,
        r.1 == role_at_least(invite.role, HallRole::HallAgent),
{
    (Membership::new(user_id, invite.hall_id, invite.role), invite.role.hosting_priority() >= 2)
}

/// The role an invite grants, from the role picker's index: 0 Fellow, 1 Agent,
/// 2 Moderator, 3 Prefect, anything else Agent.
pub fn invite_role(index: i32) -> (r: HallRole)
    ensures
        r == match index {
            0 => HallRole::HallFellow,
            2 => HallRole::HallModerator,
            3 => HallRole::HallPrefect,
            _ => HallRole::HallAgent,
        },
{
    match index {
        0 => HallRole::HallFellow,
        1 => HallRole::HallAgent,
        2 => HallRole::HallModerator,
        3 => HallRole::HallPrefect,
        _ => HallRole::HallAgent,
    }
}

/// A new invite into `hall_id` by `user_id`, for the role at `role_index`,
/// with a fresh random token, expiring a week (`INVITE_HOURS`) after the
/// time read when it is made, and without a use limit.
pub fn create_invite(hall_id: u128, user_id: u128, role_index: i32) -> (i: Invite)
    ensures
        i.hall_id == hall_id,
        i.created_by == user_id,
        i.role == invite_role_spec(role_index),
        i.token@.len() == INVITE_TOKEN_LEN,
        forall|k: int| 0 <= k < i.token@.len() ==> is_ascii_alphanumeric(#[trigger] i.token@[k]),
        exists|now: Timestamp| crate::time::chrono_ok(now) && i.expires_at == Some(
            plus_hours(now, INVITE_HOURS),
        ),
        i.max_uses is None,
        i.use_count == 0,
        !i.is_revoked,
{
    let role = invite_role(role_index);
    let token = random_invite_token(INVITE_TOKEN_LEN);
    Invite::new(hall_id, user_id, role, token).with_expiry(INVITE_HOURS)
}

/// The role at a picker index (see `invite_role`).
pub open spec fn invite_role_spec(index: i32) -> HallRole {
    match index {
        0 => HallRole::HallFellow,
        2 => HallRole::HallModerator,
        3 => HallRole::HallPrefect,
        _ => HallRole::HallAgent,
    }
}

/// Whether a user may leave a hall: its owner may not.
pub fn may_leave(hall: &Hall, user_id: u128) -> (b: bool)
    ensures
        b == (hall.owner_id != user_id),
{
    hall.owner_id != user_id
}

// ---------------------------------------------------------------------------
// Member actions

/// The role one step up, if there is one to promote to (Prefect and Builder
/// are not promoted further).
pub open spec fn role_above(r: HallRole) -> Option<HallRole> {
    match r {
        HallRole::HallFellow => Some(HallRole::HallAgent),
        HallRole::HallAgent => Some(HallRole::HallModerator),
        HallRole::HallModerator => Some(HallRole::HallPrefect),
        _ => None,
    }
}

/// The role one step down, if there is one to demote to (Fellow and Builder
/// are not demoted).
pub open spec fn role_below(r: HallRole) -> Option<HallRole> {
    match r {
        HallRole::HallPrefect => Some(HallRole::HallModerator),
        HallRole::HallModerator => Some(HallRole::HallAgent),
        HallRole::HallAgent => Some(HallRole::HallFellow),
        _ => None,
    }
}

/// The new role of a member that `actor` promotes, when the step exists and
/// the actor may assign it.
pub fn promotion(actor: HallRole, target: HallRole) -> (r: Option<HallRole>)
    ensures
        r == match role_above(target) {
            Some(n) => if spec_can_change_role(actor, n) {
                Some(n)
            } else {
                None
            },
            None => None,
        },
{
    let new_role = match target {
        HallRole::HallFellow => HallRole::HallAgent,
        HallRole::HallAgent => HallRole::HallModerator,
        HallRole::HallModerator => HallRole::HallPrefect,
        _ => return None,
    };
    if PermissionMatrix::can_change_role(actor, target, new_role) {
        Some(new_role)
    } else {
        None
    }
}

/// The new role of a member that `actor` demotes, when the step exists and
/// the actor may assign it.
pub fn demotion(actor: HallRole, target: HallRole) -> (r: Option<HallRole>)
    ensures
        r == match role_below(target) {
            Some(n) => if spec_can_change_role(actor, n) {
                Some(n)
            } else {
                None
            },
            None => None,
        },
{
    let new_role = match target {
        HallRole::HallPrefect => HallRole::HallModerator,
        HallRole::HallModerator => HallRole::HallAgent,
        HallRole::HallAgent => HallRole::HallFellow,
        _ => return None,
    };
    if PermissionMatrix::can_change_role(actor, target, new_role) {
        Some(new_role)
    } else {
        None
    }
}

/// Whether `actor` may remove a member of role `target` from the hall.
pub fn may_kick(actor: HallRole, target: HallRole) -> (b: bool)
    ensures
        b == spec_can_kick(actor, target),
{
    PermissionMatrix::can_kick(actor, target)
}

/// The status line of the chest view: Fellows see it locked.
pub fn chest_status(role: HallRole) -> (s: &'static str)
    ensures
        s@ == if role == HallRole::HallFellow {
            "Locked - Fellows cannot view Chest"@
        } else {
            "Local only \u{2014} sync coming later"@
        },
{
    if role.hosting_priority() < 2 {
        "Locked - Fellows cannot view Chest"
    } else {
        "Local only \u{2014} sync coming later"
    }
}

/// A path as shown: with the home folder written as `~` when the path lies
/// under it (by text), unchanged otherwise.
pub fn display_path(path: &str, home: Option<&str>) -> (s: String)
    ensures
        s@ == match home {
            Some(h) => if is_prefix(h@, path@) {
                seq!['~'] + path@.skip(h@.len() as int)
            } else {
                path@
            },
            None => path@,
        },
{
    match home {
        Some(h) => {
            if str_starts_with(path, h) {
                let v = chars_of(path);
                let hv = chars_of(h);
                let rest = string_from_range(&v, hv.len(), v.len());
                let mut s = String::from_str("~");
                s.append(rest.as_str());
                proof {
                    reveal_strlit("~");
                    assert(s@ =~= seq!['~'] + path@.skip(h@.len() as int));
                }
                s
            } else {
                String::from_str(path)
            }
        },
        None => String::from_str(path),
    }
}

/// A promotion never gives a role at or above the promoter's own, and only
/// Prefects and Builders promote.
pub proof fn lemma_promotion_below_actor(actor: HallRole, target: HallRole)
    ensures
        (match role_above(target) {
            Some(n) => if spec_can_change_role(actor, n) {
                Some(n)
            } else {
                None
            },
            None => None,
        }) matches Some(n) ==> crate::roles::role_value(n) < crate::roles::role_value(actor)
            && role_at_least(actor, HallRole::HallPrefect),
{
}

} // verus!
