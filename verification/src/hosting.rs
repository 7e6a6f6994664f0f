//! Hosting state for Halls: which member coordinates, and the election epoch
//! that keeps two members from hosting at once.

use vstd::prelude::*;
use crate::error::Error;
use crate::models::MemberInfo;
use crate::roles::{HallRole, role_value};

verus! {

/// A pending host transfer request
#[derive(Debug, Clone, Copy, PartialEq, Eq, Structural)]
pub struct HostTransfer {
    pub from_user_id: u128,
    pub to_user_id: u128,
    pub epoch: u64,
}

/// Hosting state for a Hall
#[derive(Debug, Clone, Copy, PartialEq, Eq, Structural)]
pub struct HostingState {
    /// Current host user ID
    pub host_id: Option<u128>,
    /// Election epoch to prevent split-host
    pub election_epoch: u64,
    /// Pending host transfer (if any)
    pub pending_transfer: Option<HostTransfer>,
}

/// Result of a host election
#[derive(Debug, Clone, Copy, PartialEq, Eq, Structural)]
pub enum HostElectionResult {
    /// A new host was elected
    Elected(u128),
    /// A higher-role user should be prompted to take over
    PromptTakeover(u128),
    /// No eligible host found
    NoHost,
}

/// A member who could take over hosting: online and of a role that may host.
pub open spec fn is_candidate(m: MemberInfo) -> bool {
    m.is_online && m.role != HallRole::HallFellow
}

/// `i` is the member `on_host_leave` picks: a candidate of the highest
/// priority among candidates, and the first such in the list.
pub open spec fn is_best_candidate(members: Seq<MemberInfo>, i: int) -> bool {
    &&& 0 <= i < members.len()
    &&& is_candidate(members[i])
    &&& forall|j: int|
        0 <= j < members.len() && is_candidate(#[trigger] members[j]) ==> role_value(members[j].role)
            <= role_value(members[i].role)
    &&& forall|j: int|
        0 <= j < i && is_candidate(#[trigger] members[j]) ==> role_value(members[j].role)
            < role_value(members[i].role)
}

/// The state after a transfer to `to` with `epoch`, or `None` if the epoch is stale.
pub open spec fn spec_transfer(s: HostingState, to: u128, epoch: u64) -> Option<HostingState> {
    if epoch != s.election_epoch {
        None
    } else {
        Some(
            HostingState {
                host_id: Some(to),
                election_epoch: (s.election_epoch + 1) as u64,
                pending_transfer: None,
            },
        )
    }
}

/// What `on_user_join` answers.
pub open spec fn spec_on_user_join(
    s: HostingState,
    joining_user: u128,
    joining_role: HallRole,
    current_host_role: Option<HallRole>,
) -> Option<HostElectionResult> {
    if joining_role == HallRole::HallFellow {
        None
    } else if s.host_id is None {
        Some(HostElectionResult::Elected(joining_user))
    } else if current_host_role matches Some(h) && role_value(joining_role) > role_value(h) {
        Some(HostElectionResult::PromptTakeover(joining_user))
    } else {
        None
    }
}

impl HostingState {
    pub fn new() -> (s: Self)
        ensures
            s.host_id is None,
            s.election_epoch == 0,
            s.pending_transfer is None,
    {
        HostingState { host_id: None, election_epoch: 0, pending_transfer: None }
    }

    /// Check if a user is currently the host
    pub fn is_host(&self, user_id: u128) -> (b: bool)
        ensures
            b == (self.host_id == Some(user_id)),
    {
        match self.host_id {
            Some(h) => h == user_id,
            None => false,
        }
    }

    /// Attempt to become host when entering an empty Hall. Succeeds (and
    /// opens a new epoch) exactly when the role may host and nobody hosts yet.
    pub fn try_become_initial_host(&mut self, user_id: u128, role: HallRole) -> (r: Result<bool, Error>)
        requires
            role != HallRole::HallFellow && old(self).host_id is None ==> old(self).election_epoch
                < u64::MAX,
        ensures
            r matches Ok(b) && b == (role != HallRole::HallFellow && old(self).host_id is None),
            r matches Ok(true) ==> final(self).host_id == Some(user_id) && final(self).election_epoch
                == old(self).election_epoch + 1 && final(self).pending_transfer
                == old(self).pending_transfer,
            r matches Ok(false) ==> *final(self) == *old(self),
    {
        if !role.can_host() {
            return Ok(false);
        }
        if self.host_id.is_none() {
            self.host_id = Some(user_id);
            self.election_epoch = self.election_epoch + 1;
            return Ok(true);
        }
        Ok(false)
    }

    /// Handle a user joining the Hall.
    /// Returns a prompt if they should be offered host takeover
    pub fn on_user_join(
        &self,
        joining_user: u128,
        joining_role: HallRole,
        current_host_role: Option<HallRole>,
    ) -> (r: Option<HostElectionResult>)
        ensures
            r == spec_on_user_join(*self, joining_user, joining_role, current_host_role),
    {
        if !joining_role.can_host() {
            return None;
        }
        // If no current host, they become host
        if self.host_id.is_none() {
            return Some(HostElectionResult::Elected(joining_user));
        }
        // If joining user has higher priority than current host, prompt takeover
        if let Some(host_role) = current_host_role {
            if joining_role.hosting_priority() > host_role.hosting_priority() {
                return Some(HostElectionResult::PromptTakeover(joining_user));
            }
        }
        None
    }

    /// Handle current host leaving: the online member of the highest role that
    /// may host is prompted to take over (the first one listed among equals).
    pub fn on_host_leave(&self, members: &[MemberInfo]) -> (r: HostElectionResult)
        ensures
            r matches HostElectionResult::PromptTakeover(u) ==> exists|i: int|
                is_best_candidate(members@, i) && members@[i].user_id == u,
            r is NoHost <==> forall|j: int| 0 <= j < members@.len() ==> !is_candidate(
                #[trigger] members@[j],
            ),
            !(r is Elected),
    {
        let mut best: Option<usize> = None;
        let mut i: usize = 0;
        while i < members.len()
            invariant
                i <= members.len(),
                best matches Some(b) ==> b < i && is_best_candidate(members@.subrange(0, i as int), b as int),
                best is None ==> forall|j: int| 0 <= j < i ==> !is_candidate(#[trigger] members@[j]),
            decreases members.len() - i,
        {
            let m = &members[i];
            if m.role.can_host() && m.is_online {
                match best {
                    None => {
                        best = Some(i);
                    },
                    Some(b) => {
                        if m.role.hosting_priority() > members[b].role.hosting_priority() {
                            best = Some(i);
                        }
                    },
                }
            }
            proof {
                let s = members@.subrange(0, i + 1);
                if let Some(b) = best {
                    assert forall|j: int| 0 <= j < s.len() && is_candidate(#[trigger] s[j]) implies role_value(s[j].role) <= role_value(s[b as int].role) by {
                        if j < i {
                            assert(s[j] == members@.subrange(0, i as int)[j]);
                        }
                    }
                    assert forall|j: int| 0 <= j < b && is_candidate(#[trigger] s[j]) implies role_value(s[j].role) < role_value(s[b as int].role) by {
                        if j < i {
                            assert(s[j] == members@.subrange(0, i as int)[j]);
                        }
                    }
                }
            }
            i = i + 1;
        }
        match best {
            Some(b) => {
                assert(members@.subrange(0, members@.len() as int) =~= members@);
                HostElectionResult::PromptTakeover(members[b].user_id)
            },
            None => HostElectionResult::NoHost,
        }
    }

    /// Transfer host to another user. A stale epoch is refused and changes nothing.
    pub fn transfer_host(&mut self, to_user_id: u128, epoch: u64) -> (r: Result<(), Error>)
        requires
            epoch == old(self).election_epoch ==> old(self).election_epoch < u64::MAX,
        ensures
            r is Ok <==> spec_transfer(*old(self), to_user_id, epoch) is Some,
            r is Ok ==> Some(*final(self)) == spec_transfer(*old(self), to_user_id, epoch),
            r is Ok || (r matches Err(Error::Hosting(m)) && m@ == "Stale election epoch"@),
            r is Err ==> *final(self) == *old(self),
    {
        if epoch != self.election_epoch {
            return Err(Error::Hosting(String::from_str("Stale election epoch")));
        }
        self.host_id = Some(to_user_id);
        self.election_epoch = self.election_epoch + 1;
        self.pending_transfer = None;
        Ok(())
    }

    /// Set host directly (for initialization); always opens a new epoch.
    pub fn set_host(&mut self, user_id: Option<u128>)
        requires
            old(self).election_epoch < u64::MAX,
        ensures
            final(self).host_id == user_id,
            final(self).election_epoch == old(self).election_epoch + 1,
            final(self).pending_transfer == old(self).pending_transfer,
    {
        self.host_id = user_id;
        self.election_epoch = self.election_epoch + 1;
    }
}

/// A transfer consumes its epoch: once a transfer with epoch `e` has gone
/// through, any further transfer quoting `e` is refused (no split host).
pub proof fn lemma_epoch_used_once(s: HostingState, a: u128, b: u128, e: u64)
    requires
        spec_transfer(s, a, e) is Some,
        s.election_epoch < u64::MAX,
    ensures
        spec_transfer(spec_transfer(s, a, e)->Some_0, b, e) is None,
{
}

/// A successful transfer strictly advances the epoch and installs the new host.
pub proof fn lemma_transfer_advances_epoch(s: HostingState, a: u128, e: u64)
    requires
        spec_transfer(s, a, e) is Some,
        s.election_epoch < u64::MAX,
    ensures
        spec_transfer(s, a, e)->Some_0.election_epoch > s.election_epoch,
        spec_transfer(s, a, e)->Some_0.host_id == Some(a),
{
}

/// A Fellow is never elected nor prompted when joining.
pub proof fn lemma_fellow_never_hosts(s: HostingState, u: u128, host_role: Option<HallRole>)
    ensures
        spec_on_user_join(s, u, HallRole::HallFellow, host_role) is None,
{
}

/// When somebody already hosts, a joining member is never elected outright;
/// at most they are prompted, and only if they outrank the host.
pub proof fn lemma_no_election_over_host(
    s: HostingState,
    u: u128,
    role: HallRole,
    host_role: Option<HallRole>,
)
    requires
        s.host_id is Some,
    ensures
        !(spec_on_user_join(s, u, role, host_role) matches Some(HostElectionResult::Elected(_))),
        spec_on_user_join(s, u, role, host_role) is Some ==> (host_role matches Some(h)
            && role_value(role) > role_value(h)),
{
}

/// Who is prompted or elected when a member joins: with a host present, a
/// joining member is prompted to take over exactly when their role ranks
/// strictly above the host's; with no host, any member who may host (every
/// role but Fellow) is elected at once.
pub proof fn lemma_join_outranking_host_prompted(
    s: HostingState,
    u: u128,
    role: HallRole,
    host_role: HallRole,
)
    ensures
        s.host_id is Some ==> (spec_on_user_join(s, u, role, Some(host_role)) == Some(
            HostElectionResult::PromptTakeover(u),
        ) <==> role_value(role) > role_value(host_role)),
        s.host_id is Some && role_value(role) <= role_value(host_role) ==> spec_on_user_join(
            s,
            u,
            role,
            Some(host_role),
        ) is None,
        s.host_id is None && role != HallRole::HallFellow ==> spec_on_user_join(s, u, role, Some(host_role))
            == Some(HostElectionResult::Elected(u)),
{
}

} // verus!
