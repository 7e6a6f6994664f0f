//! Storage repository traits
//!
//! These traits define the storage interface, allowing for different
//! implementations (SQLite, mock, future network backend).

use vstd::prelude::*;
use crate::error::Error;
use crate::models::{Hall, Invite, MemberInfo, Membership, Message, MessageDisplay, Session, User};
use crate::roles::HallRole;
use crate::time::Timestamp;

verus! {

/// User repository operations
pub trait UserRepository {
    /// Create a new user
    fn create_user(&self, user: &User) -> Result<(), Error>;

    /// Find user by ID
    fn find_user_by_id(&self, id: u128) -> Result<Option<User>, Error>;

    /// Find user by username
    fn find_user_by_username(&self, username: &str) -> Result<Option<User>, Error>;

    /// Update user's last login time
    fn update_last_login(&self, user_id: u128) -> Result<(), Error>;

    /// Create a session
    fn create_session(&self, session: &Session) -> Result<(), Error>;

    /// Find a valid (non-expired) session
    fn find_valid_session(&self, session_id: u128) -> Result<Option<Session>, Error>;

    /// Delete a session
    fn delete_session(&self, session_id: u128) -> Result<(), Error>;

    /// Delete all sessions for a user
    fn delete_user_sessions(&self, user_id: u128) -> Result<(), Error>;

    /// Clean up expired sessions
    fn cleanup_expired_sessions(&self) -> Result<u64, Error>;
}

/// Hall repository operations
pub trait HallRepository {
    /// Create a new Hall
    fn create_hall(&self, hall: &Hall) -> Result<(), Error>;

    /// Find Hall by ID
    fn find_hall_by_id(&self, id: u128) -> Result<Option<Hall>, Error>;

    /// Update a Hall
    fn update_hall(&self, hall: &Hall) -> Result<(), Error>;

    /// Delete a Hall
    fn delete_hall(&self, hall_id: u128) -> Result<(), Error>;

    /// List all Halls for a user
    fn list_halls_for_user(&self, user_id: u128) -> Result<Vec<Hall>, Error>;

    /// Add a membership
    fn add_member(&self, membership: &Membership) -> Result<(), Error>;

    /// Get a membership
    fn get_membership(&self, user_id: u128, hall_id: u128) -> Result<Option<Membership>, Error>;

    /// Update membership role
    fn update_role(&self, user_id: u128, hall_id: u128, new_role: HallRole) -> Result<(), Error>;

    /// Update online status
    fn update_online_status(&self, user_id: u128, hall_id: u128, is_online: bool) -> Result<(), Error>;

    /// Remove a membership
    fn remove_member(&self, user_id: u128, hall_id: u128) -> Result<(), Error>;

    /// List members of a Hall with user info
    fn list_members(&self, hall_id: u128) -> Result<Vec<MemberInfo>, Error>;

    /// Get user's role in a Hall
    fn get_user_role(&self, user_id: u128, hall_id: u128) -> Result<Option<HallRole>, Error>;
}

/// Message repository operations
pub trait MessageRepository {
    /// Create a new message
    fn create_message(&self, message: &Message) -> Result<(), Error>;

    /// Find message by ID
    fn find_message_by_id(&self, id: u128) -> Result<Option<Message>, Error>;

    /// List messages for a Hall with display info
    fn list_messages_for_hall(
        &self,
        hall_id: u128,
        limit: u32,
        before: Option<Timestamp>,
    ) -> Result<Vec<MessageDisplay>, Error>;

    /// Update message content
    fn update_message_content(&self, message_id: u128, new_content: &str) -> Result<(), Error>;

    /// Soft delete a message
    fn delete_message(&self, message_id: u128) -> Result<(), Error>;

    /// Get message count for a Hall
    fn count_messages_for_hall(&self, hall_id: u128) -> Result<u64, Error>;
}

/// Invite repository operations
pub trait InviteRepository {
    /// Create a new invite
    fn create_invite(&self, invite: &Invite) -> Result<(), Error>;

    /// Find invite by token
    fn find_invite_by_token(&self, token: &str) -> Result<Option<Invite>, Error>;

    /// List invites for a Hall
    fn list_invites_for_hall(&self, hall_id: u128) -> Result<Vec<Invite>, Error>;

    /// Increment invite use count
    fn increment_use_count(&self, invite_id: u128) -> Result<(), Error>;

    /// Revoke an invite
    fn revoke_invite(&self, invite_id: u128) -> Result<(), Error>;

    /// Delete an invite
    fn delete_invite(&self, invite_id: u128) -> Result<(), Error>;
}

/// Combined storage interface
///
/// Provides access to all repository operations.
/// Implementations may be backed by SQLite, mocks, or network.
pub trait Storage: UserRepository + HallRepository + MessageRepository + InviteRepository {}

// Any type implementing all the repositories is a storage.
impl<T> Storage for T where T: UserRepository + HallRepository + MessageRepository + InviteRepository {}

} // verus!
