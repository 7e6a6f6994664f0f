//! Associates: global, mutual-only relationships between users.
//! Associates can see each other's desk status regardless of hall membership.

use vstd::prelude::*;
use crate::error::Error;
use crate::text::str_equals;

verus! {

/// Associate relationship status
#[derive(Debug, Clone, Copy, PartialEq, Eq, Structural)]
pub enum AssociateStatus {
    /// Request sent, awaiting acceptance
    Pending,
    /// Both parties accepted - mutual associates
    Accepted,
    /// One party blocked the other
    Blocked,
}

/// The stored name of a status.
pub open spec fn status_name(s: AssociateStatus) -> Seq<char> {
    match s {
        AssociateStatus::Pending => "pending"@,
        AssociateStatus::Accepted => "accepted"@,
        AssociateStatus::Blocked => "blocked"@,
    }
}

impl AssociateStatus {
    pub fn as_str(&self) -> (s: &'static str)
        ensures
            s@ == status_name(*self),
    {
        match self {
            AssociateStatus::Pending => "pending",
            AssociateStatus::Accepted => "accepted",
            AssociateStatus::Blocked => "blocked",
        }
    }

    pub fn from_str(s: &str) -> (r: Option<Self>)
        ensures
            match r {
                Some(st) => status_name(st) == s@,
                None => forall|st: AssociateStatus| status_name(st) != s@,
            },
    {
        if str_equals(s, "pending") {
            Some(AssociateStatus::Pending)
        } else if str_equals(s, "accepted") {
            Some(AssociateStatus::Accepted)
        } else if str_equals(s, "blocked") {
            Some(AssociateStatus::Blocked)
        } else {
            None
        }
    }
}

/// Reading back the stored name of a status gives the status.
pub proof fn lemma_status_name_roundtrip(a: AssociateStatus, b: AssociateStatus)
    ensures
        status_name(a) == status_name(b) ==> a == b,
{
    reveal_strlit("pending");
    reveal_strlit("accepted");
    reveal_strlit("blocked");
    assert("pending"@[0] != "accepted"@[0]);
    assert("pending"@[0] != "blocked"@[0]);
    assert("accepted"@[0] != "blocked"@[0]);
}

/// Whether a new request between two users may be sent, given the statuses
/// of the relationships already recorded between them (in either direction):
/// any relationship at all refuses it, a block in particular.
pub fn check_new_request(existing: &[AssociateStatus]) -> (r: Result<(), Error>)
    ensures
        existing.len() == 0 ==> r is Ok,
        existing.len() > 0 ==> (r matches Err(Error::InvalidOperation(m)) && m@
            == "Relationship already exists"@),
{
    if existing.len() > 0 {
        return Err(Error::InvalidOperation(String::from_str("Relationship already exists")));
    }
    if contains_status(existing, AssociateStatus::Blocked) {
        return Err(Error::InvalidOperation(String::from_str("Cannot send request - blocked")));
    }
    Ok(())
}

/// Whether two users are mutual associates: some relationship between them
/// is accepted.
pub fn are_associates(existing: &[AssociateStatus]) -> (b: bool)
    ensures
        b == existing@.contains(AssociateStatus::Accepted),
{
    contains_status(existing, AssociateStatus::Accepted)
}

fn contains_status(v: &[AssociateStatus], s: AssociateStatus) -> (b: bool)
    ensures
        b == v@.contains(s),
{
    let mut i: usize = 0;
    while i < v.len()
        invariant
            i <= v.len(),
            forall|j: int| 0 <= j < i ==> v@[j] != s,
        decreases v.len() - i,
    {
        if v[i] == s {
            assert(v@[i as int] == s);
            return true;
        }
        i = i + 1;
    }
    false
}

/// The outcome of changing a request or relationship: an error when the
/// change touched no record.
pub fn require_changed(changed: usize, not_found: &str) -> (r: Result<(), Error>)
    ensures
        changed > 0 ==> r is Ok,
        changed == 0 ==> (r matches Err(Error::NotFound(m)) && m@ == not_found@),
{
    if changed == 0 {
        Err(Error::NotFound(String::from_str(not_found)))
    } else {
        Ok(())
    }
}

} // verus!
