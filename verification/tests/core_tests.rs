use exom::archive::{apply_archive_command, ArchiveCommand, ArchiveConfig, ArchiveOutput, ArchiveWindow};
use exom::associates::{are_associates, check_new_request, require_changed, AssociateStatus};
use exom::bot::{deserialize_capabilities, serialize_capabilities, caps_contain, BotCapability};
use exom::chest::HallChest;
use exom::error::Error;
use exom::hosting::{HostElectionResult, HostingState};
use exom::invariants::{
    assert_hall_invariants, assert_host_role_valid, assert_membership_invariants, hall_invariants_hold,
    valid_promotion,
};
use exom::migrations::{latest_version, migrations, pending_migrations};
use exom::models::{add_hours, Hall, MemberInfo, Membership};
use exom::parlor::ParlorId;
use exom::permissions::{HallAction, PermissionMatrix};
use exom::roles::{role_from_u8, HallRole};
use exom::time::Timestamp;

fn fresh_id() -> u128 {
    uuid::Uuid::new_v4().as_u128()
}

fn make_hall() -> Hall {
    Hall {
        id: fresh_id(),
        name: "Test Hall".to_string(),
        description: None,
        owner_id: fresh_id(),
        created_at: Timestamp { secs: 1_700_000_000, nanos: 0 },
        active_parlor: None,
        current_host_id: None,
        election_epoch: 0,
    }
}

fn member(user_id: u128, role: HallRole, is_online: bool) -> MemberInfo {
    MemberInfo { user_id, username: format!("user{}", user_id), role, is_online, is_host: false }
}

#[test]
fn test_builder_permissions() {
    assert!(PermissionMatrix::can_perform(HallRole::HallBuilder, HallAction::DeleteHall));
    assert!(PermissionMatrix::can_perform(HallRole::HallBuilder, HallAction::TransferOwnership));
    assert!(PermissionMatrix::can_perform(HallRole::HallBuilder, HallAction::InviteMembers));
}

#[test]
fn test_fellow_permissions() {
    assert!(PermissionMatrix::can_perform(HallRole::HallFellow, HallAction::SendMessages));
    assert!(!PermissionMatrix::can_perform(HallRole::HallFellow, HallAction::BecomeHost));
    assert!(!PermissionMatrix::can_perform(HallRole::HallFellow, HallAction::ViewChest));
}

#[test]
fn test_role_changes() {
    assert!(PermissionMatrix::can_change_role(
        HallRole::HallPrefect,
        HallRole::HallAgent,
        HallRole::HallFellow
    ));
    assert!(!PermissionMatrix::can_change_role(
        HallRole::HallAgent,
        HallRole::HallFellow,
        HallRole::HallAgent
    ));
}

#[test]
fn permissions_only_builder_deletes_hall() {
    assert!(!PermissionMatrix::can_perform(HallRole::HallPrefect, HallAction::DeleteHall));
    assert!(!PermissionMatrix::can_perform(HallRole::HallAgent, HallAction::DeleteHall));
    assert!(PermissionMatrix::can_perform(HallRole::HallAgent, HallAction::BecomeHost));
}

#[test]
fn permissions_kick_needs_higher_role() {
    assert!(PermissionMatrix::can_kick(HallRole::HallModerator, HallRole::HallAgent));
    assert!(!PermissionMatrix::can_kick(HallRole::HallModerator, HallRole::HallModerator));
    assert!(!PermissionMatrix::can_kick(HallRole::HallAgent, HallRole::HallFellow));
}

#[test]
fn roles_priority_and_names() {
    assert_eq!(HallRole::HallFellow.hosting_priority(), 1);
    assert_eq!(HallRole::HallBuilder.hosting_priority(), 5);
    assert!(!HallRole::HallFellow.can_host());
    assert!(HallRole::HallAgent.can_host());
    assert_eq!(HallRole::HallPrefect.display_name(), "Hall Prefect");
    assert_eq!(role_from_u8(5), HallRole::HallBuilder);
    assert_eq!(role_from_u8(42), HallRole::HallFellow);
    let all = HallRole::all_by_priority();
    assert_eq!(all.len(), 5);
    assert_eq!(all[0], HallRole::HallBuilder);
    assert_eq!(all[4], HallRole::HallFellow);
}

#[test]
fn test_initial_host() {
    let mut state = HostingState::new();
    let user_id = fresh_id();
    assert!(state.try_become_initial_host(user_id, HallRole::HallAgent).unwrap());
    assert!(state.is_host(user_id));
}

#[test]
fn mod_test_fellow_cannot_host() {
    let mut state = HostingState::new();
    let user_id = fresh_id();
    assert!(!state.try_become_initial_host(user_id, HallRole::HallFellow).unwrap());
    assert!(!state.is_host(user_id));
}

#[test]
fn test_higher_role_prompt() {
    let mut state = HostingState::new();
    let existing_host = fresh_id();
    state.set_host(Some(existing_host));
    let builder_id = fresh_id();
    let result = state.on_user_join(builder_id, HallRole::HallBuilder, Some(HallRole::HallAgent));
    assert!(matches!(result, Some(HostElectionResult::PromptTakeover(_))));
}

#[test]
fn hosting_initial_host_bumps_epoch_once() {
    let mut state = HostingState::new();
    let a = fresh_id();
    let b = fresh_id();
    assert!(state.try_become_initial_host(a, HallRole::HallAgent).unwrap());
    assert_eq!(state.election_epoch, 1);
    assert!(!state.try_become_initial_host(b, HallRole::HallBuilder).unwrap());
    assert!(state.is_host(a));
    assert_eq!(state.election_epoch, 1);
}

#[test]
fn hosting_join_without_host_elects() {
    let state = HostingState::new();
    let u = fresh_id();
    assert_eq!(state.on_user_join(u, HallRole::HallAgent, None), Some(HostElectionResult::Elected(u)));
    assert_eq!(state.on_user_join(u, HallRole::HallFellow, None), None);
}

#[test]
fn hosting_host_leave_picks_best_online() {
    let state = HostingState::new();
    let a = fresh_id();
    let b = fresh_id();
    let c = fresh_id();
    let d = fresh_id();
    let members = vec![
        member(a, HallRole::HallAgent, true),
        member(b, HallRole::HallPrefect, false),
        member(c, HallRole::HallModerator, true),
        member(d, HallRole::HallModerator, true),
    ];
    assert_eq!(state.on_host_leave(&members), HostElectionResult::PromptTakeover(c));
    let fellows = vec![member(a, HallRole::HallFellow, true), member(b, HallRole::HallBuilder, false)];
    assert_eq!(state.on_host_leave(&fellows), HostElectionResult::NoHost);
}

#[test]
fn hosting_stale_transfer_refused() {
    let mut state = HostingState::new();
    let a = fresh_id();
    let b = fresh_id();
    state.set_host(Some(a));
    assert_eq!(state.election_epoch, 1);
    state.transfer_host(b, 1).unwrap();
    assert!(state.is_host(b));
    assert_eq!(state.election_epoch, 2);
    let r = state.transfer_host(a, 1);
    assert!(matches!(r, Err(Error::Hosting(_))));
    assert!(state.is_host(b));
}

#[test]
fn test_valid_hall() {
    let hall = make_hall();
    assert_hall_invariants(&hall);
    assert!(hall_invariants_hold(&hall));
}

#[test]
fn test_hall_with_host() {
    let mut hall = make_hall();
    hall.current_host_id = Some(fresh_id());
    hall.election_epoch = 1;
    assert_hall_invariants(&hall);
    assert!(hall_invariants_hold(&hall));
}

#[test]
fn invariants_host_without_epoch_is_inconsistent() {
    let mut hall = make_hall();
    hall.current_host_id = Some(fresh_id());
    assert!(!hall_invariants_hold(&hall));
    let mut blank = make_hall();
    blank.name = "   ".to_string();
    assert!(!hall_invariants_hold(&blank));
}

#[test]
fn test_valid_membership() {
    let membership = Membership::new(fresh_id(), fresh_id(), HallRole::HallAgent);
    assert_membership_invariants(&membership);
}

#[test]
fn test_host_role_valid() {
    assert_host_role_valid(fresh_id(), HallRole::HallAgent);
    assert_host_role_valid(fresh_id(), HallRole::HallBuilder);
}

#[test]
fn invariants_promotion_rules() {
    assert!(valid_promotion(HallRole::HallPrefect, HallRole::HallAgent, HallRole::HallModerator));
    assert!(!valid_promotion(HallRole::HallModerator, HallRole::HallAgent, HallRole::HallPrefect));
}

#[test]
fn test_migrations_sequential() {
    for (i, migration) in migrations().iter().enumerate() {
        assert_eq!(
            migration.version as usize,
            i + 1,
            "Migration {} should have version {}",
            migration.description,
            i + 1
        );
    }
}

#[test]
fn migrations_pending_from_version() {
    assert_eq!(latest_version(), 12);
    let p = pending_migrations(9);
    assert_eq!(p.len(), 3);
    assert_eq!(p[0].version, 10);
    assert_eq!(p[2].version, 12);
    assert!(pending_migrations(12).is_empty());
    assert_eq!(pending_migrations(0).len(), 12);
}

#[test]
fn test_archive_window_parsing() {
    assert_eq!(ArchiveWindow::from_str("12h"), Some(ArchiveWindow::Hours12));
    assert_eq!(ArchiveWindow::from_str("24h"), Some(ArchiveWindow::Hours24));
    assert_eq!(ArchiveWindow::from_str("since_last_run"), Some(ArchiveWindow::SinceLastRun));
    assert_eq!(ArchiveWindow::from_str("invalid"), None);
}

#[test]
fn test_archive_output_parsing() {
    assert_eq!(ArchiveOutput::from_str("chest"), Some(ArchiveOutput::Chest));
    assert_eq!(ArchiveOutput::from_str("chest:alice"), Some(ArchiveOutput::ChestUser("alice".to_string())));
    assert_eq!(ArchiveOutput::from_str("invalid"), None);
}

#[test]
fn archive_names_roundtrip() {
    for w in [ArchiveWindow::Hours12, ArchiveWindow::Hours24, ArchiveWindow::SinceLastRun] {
        assert_eq!(ArchiveWindow::from_str(w.as_str()), Some(w));
    }
    let o = ArchiveOutput::ChestUser("bob".to_string());
    assert_eq!(o.as_str(), "chest:bob");
    assert_eq!(ArchiveOutput::from_str(&o.as_str()), Some(o));
    assert_eq!(ArchiveOutput::Chest.as_str(), "chest");
}

#[test]
fn test_archive_config_default() {
    let hall = fresh_id();
    let c = ArchiveConfig::default_for(hall);
    assert_eq!(c.hall_id, hall);
    assert!(!c.enabled);
    assert_eq!(c.archive_time, 2200);
    assert_eq!(c.archive_window, ArchiveWindow::Hours24);
    assert_eq!(c.archive_output, ArchiveOutput::Chest);
    assert!(c.last_run_at.is_none());
}

#[test]
fn test_capability_check() {
    let stored = serialize_capabilities(&[BotCapability::ListenPresence]);
    let caps = deserialize_capabilities(&stored);
    assert!(caps_contain(&caps, BotCapability::ListenPresence));
    assert!(!caps_contain(&caps, BotCapability::EmitSystem));
}

#[test]
fn capabilities_serialize_roundtrip() {
    let caps = vec![BotCapability::EmitSystem, BotCapability::ReceiveScheduledTick, BotCapability::WriteChest];
    let stored = serialize_capabilities(&caps);
    assert_eq!(deserialize_capabilities(&stored), caps);
    assert!(deserialize_capabilities(&None).is_empty());
}

#[test]
fn associates_requests() {
    assert!(check_new_request(&[]).is_ok());
    assert!(matches!(
        check_new_request(&[AssociateStatus::Blocked]),
        Err(Error::InvalidOperation(m)) if m == "Relationship already exists"
    ));
    assert!(are_associates(&[AssociateStatus::Pending, AssociateStatus::Accepted]));
    assert!(!are_associates(&[AssociateStatus::Pending]));
    assert!(require_changed(1, "gone").is_ok());
    assert!(matches!(require_changed(0, "gone"), Err(Error::NotFound(m)) if m == "gone"));
    assert_eq!(AssociateStatus::from_str("blocked"), Some(AssociateStatus::Blocked));
    assert_eq!(AssociateStatus::from_str("friends"), None);
    assert_eq!(AssociateStatus::Accepted.as_str(), "accepted");
}

#[test]
fn test_init_chest() {
    let chest = HallChest::with_base_path("/data/chests".to_string());
    let hall = uuid::Uuid::parse_str("550e8400-e29b-41d4-a716-446655440000").unwrap().as_u128();
    let folders = chest.init_folders(hall, HallRole::HallAgent).unwrap();
    assert_eq!(folders.len(), 4);
    assert_eq!(folders[0], "/data/chests/550e8400-e29b-41d4-a716-446655440000");
    assert!(folders[1].ends_with("shared"));
    assert!(folders[2].ends_with("personal"));
    assert!(folders[3].ends_with("downloads"));
    assert_eq!(chest.meta_path(hall), "/data/chests/550e8400-e29b-41d4-a716-446655440000/.hall_meta.json");
}

#[test]
fn test_fellow_denied() {
    let chest = HallChest::with_base_path("/data/chests".to_string());
    let r = chest.init_folders(fresh_id(), HallRole::HallFellow);
    assert!(matches!(r, Err(Error::PermissionDenied(_))));
}

#[test]
fn models_add_hours_clamps() {
    let t = Timestamp { secs: 1_000, nanos: 5 };
    assert_eq!(add_hours(t, 2), Timestamp { secs: 8_200, nanos: 5 });
    let far = add_hours(t, i64::MAX / 4000);
    assert_eq!(far, Timestamp { secs: 8_210_266_876_799, nanos: 999_999_999 });
}

#[test]
fn test_archive_config_enable() {
    let mut config = ArchiveConfig::default_for(fresh_id());
    assert!(apply_archive_command(&mut config, &ArchiveCommand::Enable));
    assert!(config.enabled);
}

#[test]
fn test_parlor_id_is_version_four() {
    let a = ParlorId::new();
    let b = ParlorId::new();
    assert_eq!((a.0 >> 76) & 0xf, 4);
    assert_eq!((a.0 >> 62) & 0x3, 2);
    assert_ne!(a, b);
}

#[test]
fn test_trim_follows_unicode_whitespace() {
    let s = "\u{3000}\u{85}\t hi there\u{2009}\u{A0}\n";
    assert_eq!(exom::text::trim_str(s), s.trim());
    let words = exom::text::split_words("a\u{1680}b\u{200B}c");
    assert_eq!(words.len(), 2);
    assert_eq!(words[1], vec!['b', '\u{200B}', 'c']);
}
