//! Users, halls and memberships.

use vstd::prelude::*;
use crate::roles::HallRole;
use crate::time::Timestamp;

verus! {

/// A Hall: a shared workspace with members, a host and an election epoch.
#[derive(Debug, Clone)]
pub struct Hall {
    pub id: u128,
    pub name: String,
    pub description: Option<String>,
    pub owner_id: u128,
    pub created_at: Timestamp,
    pub active_parlor: Option<String>,
    pub current_host_id: Option<u128>,
    pub election_epoch: u64,
}

/// A user's membership in a Hall
#[derive(Debug, Clone)]
pub struct Membership {
    pub id: u128,
    pub user_id: u128,
    pub hall_id: u128,
    pub role: HallRole,
    pub joined_at: Timestamp,
    pub is_online: bool,
}

impl Hall {
    /// A new hall owned by `owner_id`, created now, with no host yet.
    pub fn new(name: String, owner_id: u128) -> (h: Self)
        ensures
            h.name == name,
            h.owner_id == owner_id,
            h.description is None,
            h.active_parlor is None,
            h.current_host_id is None,
            h.election_epoch == 0,
            crate::time::chrono_ok(h.created_at),
    {
        Hall {
            id: crate::ids::new_id(),
            name,
            description: None,
            owner_id,
            created_at: crate::time::now(),
            active_parlor: None,
            current_host_id: None,
            election_epoch: 0,
        }
    }
}

impl Membership {
    /// A fresh, offline membership joined now.
    pub fn new(user_id: u128, hall_id: u128, role: HallRole) -> (m: Self)
        ensures
            m.user_id == user_id,
            m.hall_id == hall_id,
            m.role == role,
            !m.is_online,
            crate::time::chrono_ok(m.joined_at),
    {
        Membership {
            id: crate::ids::new_id(),
            user_id,
            hall_id,
            role,
            joined_at: crate::time::now(),
            is_online: false,
        }
    }
}

/// Represents a member with their user info for display
#[derive(Debug, Clone)]
pub struct MemberInfo {
    pub user_id: u128,
    pub username: String,
    pub role: HallRole,
    pub is_online: bool,
    pub is_host: bool,
}

} // verus!

verus! {

/// Message with sender information for display
#[derive(Debug, Clone)]
pub struct MessageDisplay {
    pub id: u128,
    pub sender_username: String,
    pub sender_role: HallRole,
    pub content: String,
    pub timestamp: Timestamp,
    pub is_edited: bool,
}

impl MessageDisplay {
    /// The time of the message as `HH:MM` (UTC).
    pub fn format_timestamp(&self) -> (s: String)
        requires
            crate::time::chrono_ok(self.timestamp),
        ensures
            s@ == crate::time::utc_format_text(self.timestamp, "%H:%M"@),
    {
        crate::time::format_utc(self.timestamp, "%H:%M")
    }

    /// The date of the message as `YYYY-MM-DD` (UTC).
    pub fn format_date(&self) -> (s: String)
        requires
            crate::time::chrono_ok(self.timestamp),
        ensures
            s@ == crate::time::utc_format_text(self.timestamp, "%Y-%m-%d"@),
    {
        crate::time::format_utc(self.timestamp, "%Y-%m-%d")
    }
}

} // verus!

verus! {

/// The latest time chrono represents (the last second of its last year).
pub open spec fn latest_time() -> Timestamp {
    Timestamp { secs: 8210266876799i64, nanos: 999_999_999 }
}

/// `t` moved by `hours` hours; past chrono's range it stops at the latest
/// (or earliest) time chrono represents.
pub open spec fn plus_hours(t: Timestamp, hours: i64) -> Timestamp {
    let s = t.secs + hours * 3600;
    if s > 8210266876799 {
        latest_time()
    } else if s < -8334601315200 {
        Timestamp { secs: -8334601315200i64, nanos: 0 }
    } else {
        Timestamp { secs: s as i64, nanos: t.nanos }
    }
}

/// `t` moved by `hours` hours, kept within chrono's range.
pub fn add_hours(t: Timestamp, hours: i64) -> (r: Timestamp)
    requires
        crate::time::chrono_ok(t),
    ensures
        r == plus_hours(t, hours),
        crate::time::chrono_ok(r) || r == latest_time(),
{
    let s: i128 = t.secs as i128 + hours as i128 * 3600;
    if s > 8210266876799 {
        Timestamp { secs: 8210266876799, nanos: 999_999_999 }
    } else if s < -8334601315200 {
        Timestamp { secs: -8334601315200, nanos: 0 }
    } else {
        Timestamp { secs: s as i64, nanos: t.nanos }
    }
}

/// A registered user
#[derive(Debug, Clone)]
pub struct User {
    pub id: u128,
    pub username: String,
    pub password_hash: String,
    pub created_at: Timestamp,
    pub last_login: Option<Timestamp>,
}

impl User {
    /// A new user, created now, never logged in.
    pub fn new(username: String, password_hash: String) -> (u: Self)
        ensures
            u.username == username,
            u.password_hash == password_hash,
            crate::time::chrono_ok(u.created_at),
            u.last_login is None,
    {
        User {
            id: crate::ids::new_id(),
            username,
            password_hash,
            created_at: crate::time::now(),
            last_login: None,
        }
    }
}

/// A login session
#[derive(Debug, Clone)]
pub struct Session {
    pub id: u128,
    pub user_id: u128,
    pub created_at: Timestamp,
    pub expires_at: Timestamp,
}

impl Session {
    /// A session of `user_id` starting now and lasting `duration_hours`.
    pub fn new(user_id: u128, duration_hours: i64) -> (s: Self)
        ensures
            s.user_id == user_id,
            crate::time::chrono_ok(s.created_at),
            s.expires_at == plus_hours(s.created_at, duration_hours),
    {
        let now = crate::time::now();
        Session {
            id: crate::ids::new_id(),
            user_id,
            created_at: now,
            expires_at: add_hours(now, duration_hours),
        }
    }

    /// The session has not expired at `now`.
    pub fn is_valid_at(&self, now: Timestamp) -> (b: bool)
        ensures
            b == crate::chat::time_before(now, self.expires_at),
    {
        now.secs < self.expires_at.secs || (now.secs == self.expires_at.secs && now.nanos
            < self.expires_at.nanos)
    }

    /// The session has not expired yet.
    pub fn is_valid(&self) -> (b: bool)
        ensures
            exists|now: Timestamp| crate::time::chrono_ok(now) && b == crate::chat::time_before(now, self.expires_at),
    {
        let now = crate::time::now();
        self.is_valid_at(now)
    }
}

/// A stored chat message
#[derive(Debug, Clone)]
pub struct Message {
    pub id: u128,
    pub hall_id: u128,
    pub sender_id: u128,
    pub content: String,
    pub created_at: Timestamp,
    pub edited_at: Option<Timestamp>,
    pub is_deleted: bool,
}

impl Message {
    /// A new message, written now.
    pub fn new(hall_id: u128, sender_id: u128, content: String) -> (m: Self)
        ensures
            m.hall_id == hall_id,
            m.sender_id == sender_id,
            m.content == content,
            crate::time::chrono_ok(m.created_at),
            m.edited_at is None,
            !m.is_deleted,
    {
        Message {
            id: crate::ids::new_id(),
            hall_id,
            sender_id,
            content,
            created_at: crate::time::now(),
            edited_at: None,
            is_deleted: false,
        }
    }
}

/// An invitation into a hall
#[derive(Debug, Clone)]
pub struct Invite {
    pub id: u128,
    pub hall_id: u128,
    pub token: String,
    pub created_by: u128,
    pub role: HallRole,
    pub created_at: Timestamp,
    pub expires_at: Option<Timestamp>,
    pub max_uses: Option<u32>,
    pub use_count: u32,
    pub is_revoked: bool,
}

/// An invite can still be used at `now`: not revoked, not expired, and not
/// used up.
pub open spec fn invite_valid_at(i: Invite, now: Timestamp) -> bool {
    &&& !i.is_revoked
    &&& match i.expires_at {
        Some(e) => !crate::chat::time_before(e, now),
        None => true,
    }
    &&& match i.max_uses {
        Some(m) => i.use_count < m,
        None => true,
    }
}

/// An invite is refused once revoked, once its expiry lies before the time
/// of use, or once it has been used as often as it allows; an invite that is
/// not revoked and has neither expiry nor use limit is accepted at every time.
pub proof fn lemma_invite_validity(i: Invite, now: Timestamp)
    ensures
        i.is_revoked ==> !invite_valid_at(i, now),
        (i.expires_at matches Some(e) && (e.secs < now.secs || (e.secs == now.secs && e.nanos
            < now.nanos))) ==> !invite_valid_at(i, now),
        (i.max_uses matches Some(m) && i.use_count >= m) ==> !invite_valid_at(i, now),
        (!i.is_revoked && i.expires_at is None && i.max_uses is None) ==> invite_valid_at(i, now),
{
}

impl Invite {
    /// A new invite created now, without expiry or use limit.
    pub fn new(hall_id: u128, created_by: u128, role: HallRole, token: String) -> (i: Self)
        ensures
            i.hall_id == hall_id,
            i.created_by == created_by,
            i.role == role,
            i.token == token,
            crate::time::chrono_ok(i.created_at),
            i.expires_at is None,
            i.max_uses is None,
            i.use_count == 0,
            !i.is_revoked,
    {
        Invite {
            id: crate::ids::new_id(),
            hall_id,
            token,
            created_by,
            role,
            created_at: crate::time::now(),
            expires_at: None,
            max_uses: None,
            use_count: 0,
            is_revoked: false,
        }
    }

    /// The same invite, expiring `hours` hours from now.
    pub fn with_expiry(self, hours: i64) -> (i: Self)
        ensures
            i == (Invite { expires_at: i.expires_at, ..self }),
            exists|now: Timestamp| crate::time::chrono_ok(now) && i.expires_at == Some(plus_hours(now, hours)),
    {
        let now = crate::time::now();
        let mut s = self;
        s.expires_at = Some(add_hours(now, hours));
        s
    }

    /// The same invite, usable at most `max` times.
    pub fn with_max_uses(self, max: u32) -> (i: Self)
        ensures
            i == (Invite { max_uses: Some(max), ..self }),
    {
        let mut s = self;
        s.max_uses = Some(max);
        s
    }

    /// Whether the invite can be used at `now`.
    pub fn is_valid_at(&self, now: Timestamp) -> (b: bool)
        ensures
            b == invite_valid_at(*self, now),
            self.is_revoked ==> !b,
    {
        if self.is_revoked {
            return false;
        }
        if let Some(expires) = self.expires_at {
            if expires.secs < now.secs || (expires.secs == now.secs && expires.nanos < now.nanos) {
                return false;
            }
        }
        if let Some(max) = self.max_uses {
            if self.use_count >= max {
                return false;
            }
        }
        true
    }

    /// Whether the invite can be used now.
    pub fn is_valid(&self) -> (b: bool)
        ensures
            exists|now: Timestamp| crate::time::chrono_ok(now) && b == invite_valid_at(*self, now),
    {
        let now = crate::time::now();
        self.is_valid_at(now)
    }
}

} // verus!
