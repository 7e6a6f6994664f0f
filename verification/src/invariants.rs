//! Developer guardrails: the states that must never occur.
//!
//! Each `assert_*` function demands its invariant of the caller; the matching
//! `*_hold` function tells whether the invariant holds, so unverified callers
//! can test before they call.

use vstd::prelude::*;
use crate::models::{Hall, MemberInfo, Membership};
use crate::roles::{HallRole, role_value};
use crate::text::{chars_of, trim, trim_bounds};

verus! {

/// A Hall is consistent: a host implies an epoch past 0, and the name is not blank.
pub open spec fn hall_ok(hall: Hall) -> bool {
    &&& !(hall.election_epoch == 0 && hall.current_host_id is Some)
    &&& trim(hall.name@).len() > 0
}

/// A membership names a user and a hall (neither identifier is nil).
pub open spec fn membership_ok(m: Membership) -> bool {
    m.user_id != 0 && m.hall_id != 0
}

/// Number of members marked as host.
pub open spec fn host_count(members: Seq<MemberInfo>) -> nat
    decreases members.len(),
{
    if members.len() == 0 {
        0
    } else {
        host_count(members.drop_last()) + if members.last().is_host {
            1nat
        } else {
            0nat
        }
    }
}

/// A member list is consistent with its hall: at most one host; an online
/// current host is marked as host; a non-empty list has a Builder.
pub open spec fn member_list_ok(members: Seq<MemberInfo>, hall: Hall) -> bool {
    &&& host_count(members) <= 1
    &&& (hall.current_host_id matches Some(h) ==> ((exists|i: int|
        0 <= i < members.len() && members[i].user_id == h && #[trigger] members[i].is_online) ==> (
    exists|i: int| 0 <= i < members.len() && members[i].user_id == h && #[trigger] members[i].is_host)))
    &&& (members.len() == 0 || exists|i: int|
        0 <= i < members.len() && #[trigger] members[i].role == HallRole::HallBuilder)
}

/// Validate that a Hall's state is internally consistent
pub fn assert_hall_invariants(hall: &Hall)
    requires
        hall_ok(*hall),
{
}

/// Whether a Hall's state is internally consistent.
pub fn hall_invariants_hold(hall: &Hall) -> (b: bool)
    ensures
        b == hall_ok(*hall),
{
    let v = chars_of(hall.name.as_str());
    let (a, e) = trim_bounds(&v);
    let epoch_ok = !(hall.election_epoch == 0 && hall.current_host_id.is_some());
    epoch_ok && a < e
}

/// Validate that a membership is valid
pub fn assert_membership_invariants(membership: &Membership)
    requires
        membership_ok(*membership),
{
}

/// Whether a membership is valid.
pub fn membership_invariants_hold(membership: &Membership) -> (b: bool)
    ensures
        b == membership_ok(*membership),
{
    membership.user_id != 0 && membership.hall_id != 0
}

/// Validate that a member list is consistent
pub fn assert_member_list_invariants(members: &[MemberInfo], hall: &Hall)
    requires
        member_list_ok(members@, *hall),
{
}

/// Whether a member list is consistent with its hall.
pub fn member_list_invariants_hold(members: &[MemberInfo], hall: &Hall) -> (b: bool)
    ensures
        b == member_list_ok(members@, *hall),
{
    let mut hosts: usize = 0;
    let mut host_online = false;
    let mut host_marked = false;
    let mut has_builder = false;
    let mut i: usize = 0;
    while i < members.len()
        invariant
            i <= members.len(),
            hosts == host_count(members@.subrange(0, i as int)),
            hosts <= i,
            host_online == (hall.current_host_id matches Some(h) && exists|k: int|
                0 <= k < i && members@[k].user_id == h && #[trigger] members@[k].is_online),
            host_marked == (hall.current_host_id matches Some(h) && exists|k: int|
                0 <= k < i && members@[k].user_id == h && #[trigger] members@[k].is_host),
            has_builder == exists|k: int|
                0 <= k < i && #[trigger] members@[k].role == HallRole::HallBuilder,
        decreases members.len() - i,
    {
        let m = &members[i];
        assert(members@.subrange(0, i + 1).drop_last() =~= members@.subrange(0, i as int));
        if m.is_host {
            hosts = hosts + 1;
        }
        match hall.current_host_id {
            Some(h) => {
                if m.user_id == h && m.is_online {
                    host_online = true;
                }
                if m.user_id == h && m.is_host {
                    host_marked = true;
                }
            },
            None => {},
        }
        if m.role == HallRole::HallBuilder {
            has_builder = true;
        }
        i = i + 1;
    }
    assert(members@.subrange(0, members@.len() as int) =~= members@);
    hosts <= 1 && (!host_online || host_marked) && (has_builder || members.len() == 0)
}

/// Validate that host assignment is valid for a given role
pub fn assert_host_role_valid(host_id: u128, role: HallRole)
    requires
        role != HallRole::HallFellow,
{
}

/// Validate role promotion is valid (not promoting above own level)
pub fn assert_valid_promotion(actor_role: HallRole, target_role: HallRole, new_role: HallRole)
    requires
        role_value(new_role) < role_value(actor_role),
        role_value(target_role) < role_value(actor_role),
{
}

/// Whether a promotion is valid.
pub fn valid_promotion(actor_role: HallRole, target_role: HallRole, new_role: HallRole) -> (b: bool)
    ensures
        b == (role_value(new_role) < role_value(actor_role) && role_value(target_role) < role_value(
            actor_role,
        )),
{
    new_role.hosting_priority() < actor_role.hosting_priority()
        && target_role.hosting_priority() < actor_role.hosting_priority()
}

/// Validate that a user ID is not nil
pub fn assert_user_id_valid(user_id: u128, context: &str)
    requires
        user_id != 0,
{
}

/// Validate that a hall ID is not nil
pub fn assert_hall_id_valid(hall_id: u128, context: &str)
    requires
        hall_id != 0,
{
}

} // verus!
