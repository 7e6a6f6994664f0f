//! Permission system for Hall operations.

use vstd::prelude::*;
use crate::roles::{HallRole, role_value, role_at_least};

verus! {

/// Actions that can be performed in a Hall
#[derive(Debug, Clone, Copy, PartialEq, Eq, Structural)]
pub enum HallAction {
    // Hall management
    DeleteHall,
    EditHallSettings,
    TransferOwnership,
    // Member management
    InviteMembers,
    KickMembers,
    BanMembers,
    PromoteMembers,
    DemoteMembers,
    // Chat
    SendMessages,
    DeleteOwnMessages,
    DeleteOtherMessages,
    EditOwnMessages,
    // Hosting
    BecomeHost,
    TransferHost,
    ForceHostTransfer,
    // Hall Chest
    ViewChest,
    WriteChest,
    ManageChest,
    // Parlors (future)
    ActivateParlor,
    ConfigureParlor,
}

/// The lowest role allowed to perform an action.
pub open spec fn required_role(action: HallAction) -> HallRole {
    match action {
        HallAction::DeleteHall => HallRole::HallBuilder,
        HallAction::TransferOwnership => HallRole::HallBuilder,
        HallAction::EditHallSettings => HallRole::HallPrefect,
        HallAction::InviteMembers => HallRole::HallModerator,
        HallAction::KickMembers => HallRole::HallModerator,
        HallAction::BanMembers => HallRole::HallPrefect,
        HallAction::PromoteMembers => HallRole::HallPrefect,
        HallAction::DemoteMembers => HallRole::HallPrefect,
        HallAction::SendMessages => HallRole::HallFellow,
        HallAction::DeleteOwnMessages => HallRole::HallFellow,
        HallAction::EditOwnMessages => HallRole::HallFellow,
        HallAction::DeleteOtherMessages => HallRole::HallModerator,
        HallAction::BecomeHost => HallRole::HallAgent,
        HallAction::TransferHost => HallRole::HallAgent,
        HallAction::ForceHostTransfer => HallRole::HallPrefect,
        HallAction::ViewChest => HallRole::HallAgent,
        HallAction::WriteChest => HallRole::HallAgent,
        HallAction::ManageChest => HallRole::HallPrefect,
        HallAction::ActivateParlor => HallRole::HallPrefect,
        HallAction::ConfigureParlor => HallRole::HallPrefect,
    }
}

/// A role may perform an action exactly when it ranks at least the action's required role.
pub open spec fn spec_can_perform(role: HallRole, action: HallAction) -> bool {
    role_at_least(role, required_role(action))
}

/// Role changes: only to a role strictly below the actor's, and only by a Prefect or above.
pub open spec fn spec_can_change_role(actor: HallRole, target_new: HallRole) -> bool {
    role_value(target_new) < role_value(actor) && role_at_least(actor, HallRole::HallPrefect)
}

/// Kicks: only of a role strictly below the actor's, and only by a Moderator or above.
pub open spec fn spec_can_kick(actor: HallRole, target: HallRole) -> bool {
    role_value(target) < role_value(actor) && role_at_least(actor, HallRole::HallModerator)
}

/// Permission matrix for Hall roles
pub struct PermissionMatrix;

impl PermissionMatrix {
    /// Check if a role has permission to perform an action
    pub fn can_perform(role: HallRole, action: HallAction) -> (b: bool)
        ensures
            b == spec_can_perform(role, action),
    {
        let p = role.hosting_priority();
        match action {
            // Hall management - Builder only
            HallAction::DeleteHall => role == HallRole::HallBuilder,
            HallAction::TransferOwnership => role == HallRole::HallBuilder,
            // Hall settings - Builder and Prefect
            HallAction::EditHallSettings => p >= 4,
            // Member management
            HallAction::InviteMembers => p >= 3,
            HallAction::KickMembers => p >= 3,
            HallAction::BanMembers => p >= 4,
            HallAction::PromoteMembers => p >= 4,
            HallAction::DemoteMembers => p >= 4,
            // Chat - everyone can send, some can moderate
            HallAction::SendMessages => p >= 1,
            HallAction::DeleteOwnMessages => p >= 1,
            HallAction::EditOwnMessages => p >= 1,
            HallAction::DeleteOtherMessages => p >= 3,
            // Hosting - Agent and above can host
            HallAction::BecomeHost => p >= 2,
            HallAction::TransferHost => p >= 2,
            HallAction::ForceHostTransfer => p >= 4,
            // Hall Chest - Agent+ can read/write, Fellows cannot
            HallAction::ViewChest => p >= 2,
            HallAction::WriteChest => p >= 2,
            HallAction::ManageChest => p >= 4,
            // Parlors - Prefect and above
            HallAction::ActivateParlor => p >= 4,
            HallAction::ConfigureParlor => p >= 4,
        }
    }

    /// Check if a role can promote/demote to a target role
    pub fn can_change_role(actor_role: HallRole, _target_current: HallRole, target_new: HallRole) -> (b: bool)
        ensures
            b == spec_can_change_role(actor_role, target_new),
    {
        // Can only assign roles lower than your own
        if target_new.hosting_priority() >= actor_role.hosting_priority() {
            return false;
        }
        // Must be Prefect or higher to change roles
        actor_role.hosting_priority() >= 4
    }

    /// Check if a role can kick another role
    pub fn can_kick(actor_role: HallRole, target_role: HallRole) -> (b: bool)
        ensures
            b == spec_can_kick(actor_role, target_role),
    {
        // Can only kick roles lower than your own
        if target_role.hosting_priority() >= actor_role.hosting_priority() {
            return false;
        }
        // Must be Moderator or higher to kick
        actor_role.hosting_priority() >= 3
    }
}

/// Permissions only grow with rank: whatever a role may do, every higher role may do too.
pub proof fn lemma_permissions_monotonic(lower: HallRole, higher: HallRole, action: HallAction)
    requires
        role_at_least(higher, lower),
        spec_can_perform(lower, action),
    ensures
        spec_can_perform(higher, action),
{
}

/// The Builder may perform every action.
pub proof fn lemma_builder_can_do_everything(action: HallAction)
    ensures
        spec_can_perform(HallRole::HallBuilder, action),
{
}

/// Every role may send messages; only roles from Agent up may host or open the chest.
pub proof fn lemma_fellow_limits(role: HallRole)
    ensures
        spec_can_perform(role, HallAction::SendMessages),
        spec_can_perform(role, HallAction::BecomeHost) <==> role != HallRole::HallFellow,
        spec_can_perform(role, HallAction::ViewChest) <==> role != HallRole::HallFellow,
{
}

/// Nobody can assign a role equal to or above their own, nor kick an equal or higher role.
pub proof fn lemma_no_escalation(actor: HallRole, target: HallRole)
    ensures
        spec_can_change_role(actor, target) ==> role_value(target) < role_value(actor),
        spec_can_kick(actor, target) ==> role_value(target) < role_value(actor),
        !spec_can_change_role(actor, actor),
        !spec_can_kick(actor, actor),
{
}

/// Whoever may change a role to some target may also kick a member holding that target role.
pub proof fn lemma_change_role_implies_kick(actor: HallRole, target: HallRole)
    requires
        spec_can_change_role(actor, target),
    ensures
        spec_can_kick(actor, target),
{
}

/// Moderation (inviting, kicking, deleting other people's messages) belongs
/// to Moderators, Prefects and the Builder, and to nobody else.
pub proof fn lemma_moderation_from_moderator_up(role: HallRole)
    ensures
        spec_can_perform(role, HallAction::KickMembers) <==> (role == HallRole::HallModerator || role
            == HallRole::HallPrefect || role == HallRole::HallBuilder),
        spec_can_perform(role, HallAction::InviteMembers) <==> (role == HallRole::HallModerator || role
            == HallRole::HallPrefect || role == HallRole::HallBuilder),
        spec_can_perform(role, HallAction::DeleteOtherMessages) <==> (role == HallRole::HallModerator
            || role == HallRole::HallPrefect || role == HallRole::HallBuilder),
{
}

/// Running the hall (settings, bans, role changes, forced host transfer,
/// managing the chest and parlors) belongs to Prefects and the Builder;
/// deleting the hall and handing it over, to the Builder alone.
pub proof fn lemma_administration_from_prefect_up(role: HallRole)
    ensures
        spec_can_perform(role, HallAction::EditHallSettings) <==> (role == HallRole::HallPrefect || role
            == HallRole::HallBuilder),
        spec_can_perform(role, HallAction::BanMembers) <==> (role == HallRole::HallPrefect || role
            == HallRole::HallBuilder),
        spec_can_perform(role, HallAction::PromoteMembers) <==> (role == HallRole::HallPrefect || role
            == HallRole::HallBuilder),
        spec_can_perform(role, HallAction::DemoteMembers) <==> (role == HallRole::HallPrefect || role
            == HallRole::HallBuilder),
        spec_can_perform(role, HallAction::ForceHostTransfer) <==> (role == HallRole::HallPrefect
            || role == HallRole::HallBuilder),
        spec_can_perform(role, HallAction::ManageChest) <==> (role == HallRole::HallPrefect || role
            == HallRole::HallBuilder),
        spec_can_perform(role, HallAction::ActivateParlor) <==> (role == HallRole::HallPrefect || role
            == HallRole::HallBuilder),
        spec_can_perform(role, HallAction::ConfigureParlor) <==> (role == HallRole::HallPrefect || role
            == HallRole::HallBuilder),
        spec_can_perform(role, HallAction::DeleteHall) <==> role == HallRole::HallBuilder,
        spec_can_perform(role, HallAction::TransferOwnership) <==> role == HallRole::HallBuilder,
{
}

/// The kick permission and the kick check agree: whoever may kick somebody
/// holds the kick permission, and whoever holds it may kick a Fellow.
pub proof fn lemma_kick_permission_agrees(actor: HallRole, target: HallRole)
    ensures
        spec_can_kick(actor, target) ==> spec_can_perform(actor, HallAction::KickMembers),
        spec_can_perform(actor, HallAction::KickMembers) <==> spec_can_kick(actor, HallRole::HallFellow),
{
}

/// The promote and demote permissions and the role-change check agree:
/// whoever may change somebody's role holds both, and whoever holds them may
/// make somebody a Fellow.
pub proof fn lemma_role_change_permission_agrees(actor: HallRole, target: HallRole)
    ensures
        spec_can_change_role(actor, target) ==> spec_can_perform(actor, HallAction::PromoteMembers)
            && spec_can_perform(actor, HallAction::DemoteMembers),
        spec_can_perform(actor, HallAction::PromoteMembers) <==> spec_can_change_role(
            actor,
            HallRole::HallFellow,
        ),
{
}

} // verus!
