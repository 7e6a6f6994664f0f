use exom::auth::{login, prepare_registration, finish_registration, validate_registration, verify_login, AuthError, SESSION_HOURS};
use exom::halls::{
    check_invite_join, chest_status, create_invite, demotion, display_path, hall_name_ok, host_label, host_on_open,
    invite_role, join_with_invite, may_kick, may_leave, promotion, HallError,
};
use exom::hosting::HostElectionResult;
use exom::models::{Hall, Invite};
use exom::roles::HallRole;
use exom::time::Timestamp;

fn fresh_id() -> u128 {
    uuid::Uuid::new_v4().as_u128()
}

fn at(secs: i64) -> Timestamp {
    Timestamp { secs, nanos: 0 }
}

// ---------------------------------------------------------------- accounts

#[test]
fn auth_registration_lengths() {
    assert_eq!(validate_registration("ab", "secret1"), Err(AuthError::UsernameTooShort));
    assert_eq!(validate_registration("abc", "12345"), Err(AuthError::PasswordTooShort));
    assert_eq!(validate_registration("abc", "123456"), Ok(()));
    // lengths are counted in UTF-8 bytes
    assert_eq!(validate_registration("éa", "ééé"), Ok(()));
    assert_eq!(AuthError::UsernameTooShort.message(), "Username must be at least 3 characters");
    assert_eq!(AuthError::UsernameTaken.message(), "Username already exists");
}

#[test]
fn auth_register_then_login() {
    let user = prepare_registration("alice".to_string(), "hunter42").unwrap();
    assert_eq!(user.username, "alice");
    assert!(user.password_hash.starts_with("$argon2"));
    assert_eq!(verify_login("hunter42", &user.password_hash), Ok(()));
    assert_eq!(verify_login("hunter43", &user.password_hash), Err(AuthError::InvalidPassword));
    let session = login(Some(&user), "hunter42").unwrap();
    assert_eq!(session.user_id, user.id);
    assert_eq!(session.expires_at.secs - session.created_at.secs, SESSION_HOURS * 3600);
    assert_eq!(login(Some(&user), "nope").unwrap_err(), AuthError::InvalidPassword);
    assert_eq!(login(None, "hunter42").unwrap_err(), AuthError::UserNotFound);
}

#[test]
fn auth_bad_stored_hash() {
    assert_eq!(verify_login("pw", "plain text"), Err(AuthError::InvalidStoredPassword));
    assert!(matches!(prepare_registration("al".to_string(), "hunter42"), Err(AuthError::UsernameTooShort)));
}

#[test]
fn auth_finish_registration() {
    let user = prepare_registration("bob".to_string(), "123456").unwrap();
    assert_eq!(finish_registration(&user, true).unwrap_err(), AuthError::UsernameTaken);
    assert_eq!(finish_registration(&user, false).unwrap().user_id, user.id);
}

// ---------------------------------------------------------------- halls

#[test]
fn halls_open_elects_first_host() {
    let owner = fresh_id();
    let mut hall = Hall::new("Den".to_string(), owner);
    assert_eq!(hall.election_epoch, 0);
    assert!(hall.current_host_id.is_none());
    let r = host_on_open(&mut hall, owner, HallRole::HallBuilder, None);
    assert_eq!(r, Some(HostElectionResult::Elected(owner)));
    assert_eq!(hall.current_host_id, Some(owner));
    assert_eq!(hall.election_epoch, 1);
    let guest = fresh_id();
    let r = host_on_open(&mut hall, guest, HallRole::HallAgent, Some(HallRole::HallBuilder));
    assert_eq!(r, None);
    assert_eq!(hall.current_host_id, Some(owner));
    let fellow = fresh_id();
    let mut empty = Hall::new("Empty".to_string(), owner);
    assert_eq!(host_on_open(&mut empty, fellow, HallRole::HallFellow, None), None);
    assert_eq!(empty.election_epoch, 0);
}

#[test]
fn halls_takeover_offer_changes_nothing() {
    let mut hall = Hall::new("Den".to_string(), 1);
    host_on_open(&mut hall, 2, HallRole::HallAgent, None);
    let r = host_on_open(&mut hall, 1, HallRole::HallBuilder, Some(HallRole::HallAgent));
    assert_eq!(r, Some(HostElectionResult::PromptTakeover(1)));
    assert_eq!(hall.current_host_id, Some(2));
    assert_eq!(hall.election_epoch, 1);
}

#[test]
fn halls_host_label() {
    assert_eq!(host_label(None, 1, None), "None");
    assert_eq!(host_label(Some(1), 1, Some("me")), "You");
    assert_eq!(host_label(Some(2), 1, Some("bob")), "bob");
    assert_eq!(host_label(Some(2), 1, None), "Unknown");
}

#[test]
fn halls_invites() {
    let hall = fresh_id();
    let creator = fresh_id();
    let invite = create_invite(hall, creator, 2);
    assert_eq!(invite.hall_id, hall);
    assert_eq!(invite.role, HallRole::HallModerator);
    assert_eq!(invite.token.len(), 16);
    assert!(invite.token.chars().all(|c| c.is_ascii_alphanumeric()));
    let expiry = invite.expires_at.unwrap();
    let lifetime = expiry.secs - invite.created_at.secs;
    assert!(lifetime == 168 * 3600 || lifetime == 168 * 3600 + 1);
    assert_eq!(invite_role(0), HallRole::HallFellow);
    assert_eq!(invite_role(3), HallRole::HallPrefect);
    assert_eq!(invite_role(9), HallRole::HallAgent);
}

#[test]
fn halls_join_checks() {
    let mut invite = Invite::new(7, 8, HallRole::HallAgent, "tok".to_string());
    invite.expires_at = Some(at(1_000));
    assert_eq!(check_invite_join(None, at(10), false), Err(HallError::InvalidInvite));
    assert_eq!(check_invite_join(Some(&invite), at(10), true), Err(HallError::AlreadyMember));
    assert_eq!(check_invite_join(Some(&invite), at(10), false), Ok(()));
    assert_eq!(check_invite_join(Some(&invite), at(2_000), false), Err(HallError::InvalidInvite));
    assert_eq!(HallError::InvalidInvite.message(), "Invalid or expired invite");
    let (membership, chest) = join_with_invite(5, &invite);
    assert_eq!((membership.user_id, membership.hall_id, membership.role), (5, 7, HallRole::HallAgent));
    assert!(chest);
    let fellow_invite = Invite::new(7, 8, HallRole::HallFellow, "t".to_string());
    assert!(!join_with_invite(5, &fellow_invite).1);
}

#[test]
fn halls_leave_and_names() {
    let hall = Hall::new("Den".to_string(), 1);
    assert!(!may_leave(&hall, 1));
    assert!(may_leave(&hall, 2));
    assert!(hall_name_ok("x"));
    assert!(!hall_name_ok(""));
}

#[test]
fn halls_member_actions() {
    assert_eq!(promotion(HallRole::HallPrefect, HallRole::HallAgent), Some(HallRole::HallModerator));
    assert_eq!(promotion(HallRole::HallPrefect, HallRole::HallModerator), None);
    assert_eq!(promotion(HallRole::HallBuilder, HallRole::HallModerator), Some(HallRole::HallPrefect));
    assert_eq!(promotion(HallRole::HallModerator, HallRole::HallFellow), None);
    assert_eq!(promotion(HallRole::HallBuilder, HallRole::HallPrefect), None);
    assert_eq!(demotion(HallRole::HallPrefect, HallRole::HallAgent), Some(HallRole::HallFellow));
    assert_eq!(demotion(HallRole::HallBuilder, HallRole::HallFellow), None);
    assert!(may_kick(HallRole::HallModerator, HallRole::HallAgent));
    assert!(!may_kick(HallRole::HallAgent, HallRole::HallFellow));
}

#[test]
fn halls_chest_view() {
    assert_eq!(chest_status(HallRole::HallFellow), "Locked - Fellows cannot view Chest");
    assert_eq!(chest_status(HallRole::HallAgent), "Local only \u{2014} sync coming later");
    assert_eq!(display_path("/home/ann/chests/x", Some("/home/ann")), "~/chests/x");
    assert_eq!(display_path("/srv/chests/x", Some("/home/ann")), "/srv/chests/x");
    assert_eq!(display_path("/srv/x", None), "/srv/x");
}
