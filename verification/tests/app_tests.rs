use exom::tools::ExternalToolRuntime;
use exom::tools::{launch_error, parse_tool_id};
use exom::workspace::{open_action, parent_entry, OpenAction};
use exom::archive::{
    archive_path, archive_path_for_date, command_reply, parse_archive_command, should_run, window_start,
    ArchiveCommand, ArchiveConfig, ArchiveOutput, ArchiveWindow,
};
use exom::archivist::{missed_run, run_actions, status_reply, tick_is_new, Archivist};
use exom::bot::{filter_permitted, BotAction, BotCapability, BotEvent, BotManifest};
use exom::chat::{build_timeline, is_archive_command, prepare_outgoing, ChatLine, SystemLine, TypingThrottle};
use exom::format::{format_activity_hint, format_desk_status, format_duration, format_size, format_typing_text};
use exom::models::MessageDisplay;
use exom::platform::DisplayServer;
use exom::roles::HallRole;
use exom::state::{SessionMemory, TrackedMember};
use exom::summary::{calculate_stats, extract_decisions, extract_questions, split_sentences, tokenize};
use exom::time::Timestamp;
use exom::tools::{default_launchers, display_command, refresh_status, ChildProbe, PinnedLauncher, PinnedLaunchers, ToolStatus};
use exom::town_crier::{join_message, leave_message, TownCrier};
use exom::workspace::{
    launcher_actions, sort_file_entries, FileEntry, LauncherAction, ToolType, WorkspaceState,
};

const SEC: u128 = 1_000_000_000;

fn fresh_id() -> u128 {
    uuid::Uuid::new_v4().as_u128()
}

fn at(secs: i64) -> Timestamp {
    Timestamp { secs, nanos: 0 }
}

fn test_msg(username: &str, content: &str) -> MessageDisplay {
    MessageDisplay {
        id: fresh_id(),
        sender_username: username.to_string(),
        sender_role: HallRole::HallAgent,
        content: content.to_string(),
        timestamp: at(1_700_000_000),
        is_edited: false,
    }
}

fn entry(name: &str, is_directory: bool, size: u64) -> FileEntry {
    FileEntry { name: name.to_string(), is_directory, size, path: format!("/{}", name) }
}

// ---------------------------------------------------------------- platform

#[test]
fn display_server_display() {
    assert_eq!(DisplayServer::Wayland.name(), "Wayland");
    assert_eq!(DisplayServer::X11.name(), "X11");
    assert_eq!(DisplayServer::Unknown.name(), "Unknown");
}

#[test]
fn display_server_from_session() {
    assert_eq!(DisplayServer::from_session(true, true), DisplayServer::Wayland);
    assert_eq!(DisplayServer::from_session(false, true), DisplayServer::X11);
    assert_eq!(DisplayServer::from_session(false, false), DisplayServer::Unknown);
    assert!(DisplayServer::Wayland.is_wayland());
    assert!(!DisplayServer::Unknown.is_x11());
}

// ---------------------------------------------------------------- formatting

#[test]
fn test_format_activity_hint() {
    assert_eq!(format_activity_hint(0), "Active");
    assert_eq!(format_activity_hint(5), "Active");
    assert_eq!(format_activity_hint(9), "Active");
    assert_eq!(format_activity_hint(10), "10s");
    assert_eq!(format_activity_hint(30), "30s");
    assert_eq!(format_activity_hint(59), "59s");
    assert_eq!(format_activity_hint(60), "1m");
    assert_eq!(format_activity_hint(90), "1m");
    assert_eq!(format_activity_hint(3599), "59m");
    assert_eq!(format_activity_hint(3600), "1h");
    assert_eq!(format_activity_hint(7200), "2h");
    assert_eq!(format_activity_hint(86399), "23h");
    assert_eq!(format_activity_hint(86400), "1d");
    assert_eq!(format_activity_hint(172800), "2d");
}

#[test]
fn test_format_duration_just_now() {
    assert_eq!(format_duration(0), "just now");
    assert_eq!(format_duration(30), "just now");
    assert_eq!(format_duration(59), "just now");
}

#[test]
fn test_format_duration_minutes() {
    assert_eq!(format_duration(60), "1 minute");
    assert_eq!(format_duration(120), "2 minutes");
    assert_eq!(format_duration(3599), "59 minutes");
}

#[test]
fn test_format_duration_hours() {
    assert_eq!(format_duration(3600), "1 hour");
    assert_eq!(format_duration(7200), "2 hours");
    assert_eq!(format_duration(86399), "23 hours");
}

#[test]
fn test_format_duration_days() {
    assert_eq!(format_duration(86400), "1 day");
    assert_eq!(format_duration(90000), "1 day 1 hours");
    assert_eq!(format_duration(172800), "2 days");
    assert_eq!(format_duration(180000), "2 days 2 hours");
}

#[test]
fn test_format_desk_status() {
    assert_eq!(format_desk_status("Kitty"), " — at the Kitty desk");
    assert_eq!(format_desk_status("VS Code"), " — at the VS Code desk");
}

#[test]
fn format_typing_indicator() {
    assert_eq!(format_typing_text(&[]), "");
    assert_eq!(format_typing_text(&[(1, "alice".to_string())]), "alice typing...");
    assert_eq!(
        format_typing_text(&[(1, "alice".to_string()), (2, "bob".to_string())]),
        "alice, bob typing..."
    );
    let four: Vec<(u128, String)> = (0..4).map(|i| (i as u128, format!("u{}", i))).collect();
    assert_eq!(format_typing_text(&four), "Several people typing...");
}

#[test]
fn format_sizes() {
    assert_eq!(format_size(0), "0 B");
    assert_eq!(format_size(1023), "1023 B");
    assert_eq!(format_size(1024), "1.0 KB");
    assert_eq!(format_size(1536), "1.5 KB");
    assert_eq!(format_size(5 * 1024 * 1024 * 1024), "5.0 GB");
}

// ---------------------------------------------------------------- workspace

#[test]
fn test_tool_type_labels() {
    assert_eq!(ToolType::Chat.label(), "Chat");
    assert_eq!(ToolType::Tools.label(), "Tools");
    assert_eq!(ToolType::Files.label(), "Files");
}

#[test]
fn test_launcher_action_labels() {
    assert_eq!(LauncherAction::OpenTools.label(), "Launched Tools (new window)");
    assert_eq!(LauncherAction::OpenFiles.label(), "Open Hall Chest (Files)");
    assert_eq!(LauncherAction::OpenChat.label(), "Open Chat");
}

#[test]
fn test_launcher_action_to_tool_type() {
    assert_eq!(LauncherAction::OpenTools.to_tool_type(), ToolType::Tools);
    assert_eq!(LauncherAction::OpenFiles.to_tool_type(), ToolType::Files);
    assert_eq!(LauncherAction::OpenChat.to_tool_type(), ToolType::Chat);
}

#[test]
fn test_file_entry_size_string() {
    assert_eq!(entry("test.txt", false, 512).size_string(), "512 B");
    assert_eq!(entry("test.txt", false, 2048).size_string(), "2.0 KB");
    assert_eq!(entry("test.txt", false, 2 * 1024 * 1024).size_string(), "2.0 MB");
    assert_eq!(entry("dir", true, 4096).size_string(), "");
}

#[test]
fn test_file_entry_is_text() {
    assert!(entry("script.rs", false, 100).is_text());
    assert!(!entry("app.exe", false, 100).is_text());
    assert!(!entry("src", true, 0).is_text());
}

#[test]
fn test_file_entry_is_media() {
    assert!(entry("video.mp4", false, 1000).is_media());
    assert!(entry("photo.png", false, 500).is_media());
    assert!(!entry("readme.md", false, 100).is_media());
}

#[test]
fn test_workspace_state_new() {
    let hall_id = fresh_id();
    let workspace = WorkspaceState::new(hall_id, "/tmp/exom-data");
    assert_eq!(workspace.tabs().len(), 1);
    assert_eq!(workspace.tabs()[0].tool_type, ToolType::Chat);
    assert!(workspace.active_tab().is_some());
    assert_eq!(workspace.active_tab().unwrap().tool_type, ToolType::Chat);
}

#[test]
fn workspace_new_points_at_hall_chest() {
    let hall_id = uuid::Uuid::parse_str("550e8400-e29b-41d4-a716-446655440000").unwrap().as_u128();
    let workspace = WorkspaceState::new(hall_id, "/data");
    assert_eq!(workspace.files_current_path, "/data/halls/550e8400-e29b-41d4-a716-446655440000/chest");
    assert!(workspace.files_entries.is_empty());
}

#[test]
fn test_workspace_open_chat_reuses_tab() {
    let mut workspace = WorkspaceState::new(fresh_id(), "/tmp/exom-data");
    let first_id = workspace.active_tab_id().unwrap();
    let second_id = workspace.open_tool(ToolType::Chat);
    assert_eq!(first_id, second_id);
    assert_eq!(workspace.tabs().len(), 1);
}

#[test]
fn test_workspace_open_files_reuses_tab() {
    let mut workspace = WorkspaceState::new(fresh_id(), "/tmp/exom-data");
    let files_id1 = workspace.open_tool(ToolType::Files);
    let files_id2 = workspace.open_tool(ToolType::Files);
    assert_eq!(files_id1, files_id2);
    assert_eq!(workspace.tabs().len(), 2);
}

#[test]
fn test_workspace_cannot_close_chat() {
    let mut workspace = WorkspaceState::new(fresh_id(), "/tmp/exom-data");
    let chat_id = workspace.active_tab_id().unwrap();
    workspace.close_tab(chat_id);
    assert_eq!(workspace.tabs().len(), 1);
    assert_eq!(workspace.tabs()[0].tool_type, ToolType::Chat);
}

#[test]
fn test_workspace_close_files_tab() {
    let mut workspace = WorkspaceState::new(fresh_id(), "/tmp/exom-data");
    let files_id = workspace.open_tool(ToolType::Files);
    assert_eq!(workspace.tabs().len(), 2);
    workspace.close_tab(files_id);
    assert_eq!(workspace.tabs().len(), 1);
    assert_eq!(workspace.active_tab().unwrap().tool_type, ToolType::Chat);
}

#[test]
fn workspace_tools_tab_titled_tools() {
    let mut workspace = WorkspaceState::new(fresh_id(), "/tmp/exom-data");
    let id = workspace.open_tool(ToolType::Tools);
    assert_eq!(workspace.active_tab_id(), Some(id));
    assert_eq!(workspace.active_tab().unwrap().title, "Tools");
    assert_eq!(workspace.open_tool(ToolType::Tools), id);
}

#[test]
fn workspace_persist_and_restore() {
    let hall = fresh_id();
    let mut first = WorkspaceState::new(hall, "/tmp/exom-data");
    let files = first.open_tool(ToolType::Files);
    let persisted = first.to_persisted(7);
    assert_eq!(persisted.user_id, 7);
    assert_eq!(persisted.hall_id, hall);
    assert_eq!(persisted.tabs.len(), 2);
    let mut restored = WorkspaceState::new(hall, "/tmp/exom-data");
    restored.restore_from_persisted(&persisted, true);
    assert_eq!(restored.tabs().len(), 2);
    assert_eq!(restored.tabs()[1].tool_type, ToolType::Files);
    assert_eq!(restored.active_tab_id(), Some(files));
}

#[test]
fn workspace_sort_entries_dirs_first() {
    let sorted = sort_file_entries(vec![entry("b.txt", false, 1), entry("zdir", true, 0), entry("a.txt", false, 1)]);
    let names: Vec<&str> = sorted.iter().map(|e| e.name.as_str()).collect();
    assert_eq!(names, vec!["zdir", "a.txt", "b.txt"]);
}

#[test]
fn test_launcher_actions_count() {
    assert_eq!(launcher_actions().len(), 3);
}

// ---------------------------------------------------------------- summary

#[test]
fn test_tokenize() {
    let tokens = tokenize("Hello, World! This is a test.");
    assert!(tokens.contains(&"hello".to_string()));
    assert!(tokens.contains(&"world".to_string()));
    assert!(tokens.contains(&"this".to_string()));
    assert!(tokens.contains(&"test".to_string()));
    assert!(!tokens.contains(&"is".to_string()));
    assert!(!tokens.contains(&"a".to_string()));
}

#[test]
fn test_split_sentences() {
    let sents = split_sentences("Hello there everyone. How are you doing today? I am doing fine thanks!");
    assert_eq!(sents.len(), 3);
    assert!(sents[0].contains("Hello"));
    assert!(sents[1].contains("How"));
    assert!(sents[2].contains("fine"));
}

#[test]
fn summary_short_sentences_dropped() {
    let sents = split_sentences("Hi. Ok? This one is long enough.");
    assert_eq!(sents, vec!["This one is long enough.".to_string()]);
}

#[test]
fn test_extract_questions() {
    let messages = vec![
        test_msg("alice", "What do you think about this feature?"),
        test_msg("bob", "I think it's great!"),
    ];
    let questions = extract_questions(&messages, 10);
    assert_eq!(questions.len(), 1);
    assert_eq!(questions[0].0, "alice");
    assert!(questions[0].1.contains("feature"));
}

#[test]
fn summary_questions_capped() {
    let messages = vec![
        test_msg("alice", "Is this the first question?"),
        test_msg("bob", "Is this the second question?"),
    ];
    assert_eq!(extract_questions(&messages, 1).len(), 1);
}

#[test]
fn test_extract_decisions() {
    let messages = vec![
        test_msg("alice", "Let's ship this feature tomorrow."),
        test_msg("bob", "Sounds good to me."),
    ];
    let decisions = extract_decisions(&messages, 10);
    assert_eq!(decisions.len(), 1);
    assert_eq!(decisions[0].0, "alice");
    assert!(decisions[0].1.contains("ship"));
}

#[test]
fn test_calculate_stats() {
    let messages = vec![
        test_msg("alice", "Message 1"),
        test_msg("alice", "Message 2"),
        test_msg("bob", "Message 3"),
    ];
    let (total, top) = calculate_stats(&messages);
    assert_eq!(total, 3);
    assert_eq!(top[0].0, "alice");
    assert_eq!(top[0].1, 2);
}

// ---------------------------------------------------------------- archive commands

#[test]
fn test_archive_path_generation() {
    let config = ArchiveConfig {
        hall_id: fresh_id(),
        enabled: true,
        archive_time: 2200,
        archive_window: ArchiveWindow::Hours24,
        archive_output: ArchiveOutput::Chest,
        last_run_at: None,
    };
    let path = archive_path(&config);
    assert!(path.starts_with("archives/ARCHIVE_"));
    assert!(path.ends_with(".md"));
    let config_user = ArchiveConfig { archive_output: ArchiveOutput::ChestUser("alice".to_string()), ..config };
    let path_user = archive_path(&config_user);
    assert!(path_user.contains("alice"));
}

#[test]
fn archive_path_for_given_date() {
    let mut config = ArchiveConfig::default_for(fresh_id());
    assert_eq!(archive_path_for_date(&config, "2024-01-15"), "archives/ARCHIVE_2024-01-15.md");
    config.archive_output = ArchiveOutput::ChestUser("alice".to_string());
    assert_eq!(archive_path_for_date(&config, "2024-01-15"), "archives/alice/ARCHIVE_2024-01-15.md");
}

#[test]
fn archive_command_parsing() {
    assert!(matches!(parse_archive_command("/archive-now"), Some(ArchiveCommand::Now)));
    assert!(matches!(parse_archive_command("/archive-status"), Some(ArchiveCommand::Status)));
    assert!(matches!(parse_archive_command("/set-archive-time 2130"), Some(ArchiveCommand::SetTime(2130))));
    assert!(matches!(parse_archive_command("/set-archive-time 2500"), Some(ArchiveCommand::SetTimeInvalid)));
    assert!(matches!(parse_archive_command("/set-archive-time 1275"), Some(ArchiveCommand::SetTimeInvalid)));
    assert!(matches!(parse_archive_command("/set-archive-time 2360"), Some(ArchiveCommand::SetTimeInvalid)));
    assert!(matches!(parse_archive_command("/set-archive-time 2359"), Some(ArchiveCommand::SetTime(2359))));
    assert!(matches!(parse_archive_command("/set-archive-time 0000"), Some(ArchiveCommand::SetTime(0))));
    assert!(matches!(
        parse_archive_command("/set-archive-window 12h"),
        Some(ArchiveCommand::SetWindow(ArchiveWindow::Hours12))
    ));
    assert!(parse_archive_command("/hello").is_none());
    assert!(is_archive_command("/archive-now"));
    assert!(is_archive_command("/set-archive-time 1000"));
    assert!(!is_archive_command("archive"));
}

#[test]
fn archive_command_replies() {
    assert_eq!(command_reply(&ArchiveCommand::Enable).unwrap(), "Archivist enabled.");
    assert_eq!(
        command_reply(&ArchiveCommand::SetTime(2130)).unwrap(),
        "Archive time set to 2130."
    );
}

#[test]
fn archive_should_run_once_per_minute() {
    let mut config = ArchiveConfig::default_for(fresh_id());
    assert!(!should_run(Some(&config), None, 2200));
    config.enabled = true;
    assert!(should_run(Some(&config), None, 2200));
    assert!(!should_run(Some(&config), Some(2200), 2200));
    assert!(!should_run(Some(&config), None, 2159));
    assert!(!should_run(None, None, 2200));
}

#[test]
fn archive_window_start() {
    let now = at(100_000);
    assert_eq!(window_start(ArchiveWindow::Hours12, None, now), at(100_000 - 12 * 3600));
    assert_eq!(window_start(ArchiveWindow::Hours24, Some(at(5)), now), at(100_000 - 24 * 3600));
    assert_eq!(window_start(ArchiveWindow::SinceLastRun, Some(at(90_000)), now), at(90_000));
    assert_eq!(window_start(ArchiveWindow::SinceLastRun, None, now), at(100_000 - 24 * 3600));
}

#[test]
fn archivist_tick_and_missed_runs() {
    let mut last: Option<(u16, u16)> = None;
    assert!(tick_is_new(&mut last, 2200, 15));
    assert!(!tick_is_new(&mut last, 2200, 15));
    assert!(tick_is_new(&mut last, 2201, 15));
    assert!(tick_is_new(&mut last, 2201, 16));
    assert!(missed_run(at(0), at(26 * 3600)));
    assert!(!missed_run(at(0), at(25 * 3600)));
}

#[test]
fn archivist_on_tick_runs_once() {
    let hall = fresh_id();
    let mut config = ArchiveConfig::default_for(hall);
    config.enabled = true;
    let mut a = Archivist::new();
    assert!(a.on_tick(hall, 2200, Some(&config)));
    assert!(!a.on_tick(hall, 2200, Some(&config)));
    assert!(!a.on_tick(hall, 2201, Some(&config)));
}

#[test]
fn archivist_run_actions() {
    let hall = fresh_id();
    let none = run_actions(hall, true, "p.md".to_string(), "x".to_string());
    assert_eq!(none.len(), 1);
    assert!(matches!(&none[0], BotAction::EmitSystem { content, .. } if content == "Archive skipped: no messages in time window."));
    let some = run_actions(hall, false, "p.md".to_string(), "# md".to_string());
    assert!(some.iter().any(|a| matches!(a, BotAction::WriteFileToChest { path, .. } if path == "p.md")));
    assert_eq!(status_reply(None), "Archivist: not configured");
    assert!(command_reply(&ArchiveCommand::Now).is_none());
}

// ---------------------------------------------------------------- bots

#[test]
fn bot_actions_filtered_by_capability() {
    let manifest = BotManifest {
        id: "b".to_string(),
        name: "B".to_string(),
        version: "1".to_string(),
        capabilities: vec![BotCapability::EmitSystem],
    };
    let actions = vec![
        BotAction::EmitSystem { hall_id: 1, content: "hi".to_string() },
        BotAction::WriteFileToChest { hall_id: 1, path: "a".to_string(), contents: "b".to_string() },
    ];
    let kept = filter_permitted(&manifest, actions);
    assert_eq!(kept.len(), 1);
    assert!(matches!(kept[0], BotAction::EmitSystem { .. }));
    let tick = BotEvent::ScheduledTick { hall_id: 1, current_time_hhmm: 900 };
    assert!(!manifest.should_receive(&tick));
}

#[test]
fn town_crier_announces_with_rate_limit() {
    let mut crier = TownCrier::new();
    let hall = fresh_id();
    let user = fresh_id();
    let joined = BotEvent::MemberJoined {
        hall_id: hall,
        user_id: user,
        username: "alice".to_string(),
        is_first_time: true,
        last_seen_duration: None,
    };
    let first = crier.on_event(&joined, 100 * SEC);
    assert_eq!(first.actions.len(), 1);
    assert_eq!(first.touch_last_seen, Some((hall, user)));
    match &first.actions[0] {
        BotAction::EmitSystem { hall_id, content } => {
            assert_eq!(*hall_id, hall);
            assert!(content.contains("alice"));
        },
        _ => panic!("expected a system message"),
    }
    let left = BotEvent::MemberLeft { hall_id: hall, user_id: user, username: "alice".to_string() };
    assert_eq!(crier.rate_limit, vec![(user, 100 * SEC)]);
    assert!(crier.on_event(&left, 105 * SEC).actions.is_empty());
    assert_eq!(crier.rate_limit, vec![(user, 100 * SEC)]);
    assert_eq!(crier.on_event(&left, 111 * SEC).actions.len(), 1);
    assert_eq!(crier.rate_limit, vec![(user, 111 * SEC)]);
    let tick = BotEvent::ScheduledTick { hall_id: hall, current_time_hhmm: 1200 };
    assert!(crier.on_event(&tick, 200 * SEC).actions.is_empty());
}

#[test]
fn town_crier_messages_name_user() {
    let m = join_message("bob", false, Some(7200));
    assert!(m.contains("bob"));
    assert!(m.contains("2 hours"));
    assert!(leave_message("carol").starts_with("carol "));
}

// ---------------------------------------------------------------- chat

#[test]
fn chat_timeline_groups_and_marks() {
    let me = fresh_id();
    let other = fresh_id();
    let line = |id: u128, sender: u128, name: &str, t: i64| ChatLine {
        id,
        sender_id: sender,
        sender_username: name.to_string(),
        sender_role: "Agent".to_string(),
        content: format!("m{}", id),
        timestamp: at(t),
        is_edited: false,
    };
    let chats = vec![line(3, other, "bob", 1_000), line(1, me, "alice", 100), line(2, me, "alice", 200)];
    let systems = vec![SystemLine { id: 9, content: "bob joined".to_string(), timestamp: at(500) }];
    let rows = build_timeline(chats, systems, Some("bob"), Some(me), &[2]);
    let ids: Vec<u128> = rows.iter().map(|r| r.id).collect();
    assert_eq!(ids, vec![1, 2, 9, 3]);
    assert!(rows[0].is_group_start);
    assert!(!rows[1].is_group_start);
    assert!(rows[2].is_system);
    assert!(rows[3].is_host);
    assert!(rows[0].is_own && !rows[0].is_pending);
    assert!(rows[1].is_pending);
}

#[test]
fn chat_group_breaks_after_five_minutes() {
    let line = |id: u128, t: i64| ChatLine {
        id,
        sender_id: 1,
        sender_username: "alice".to_string(),
        sender_role: "Agent".to_string(),
        content: String::new(),
        timestamp: at(t),
        is_edited: false,
    };
    let rows = build_timeline(vec![line(1, 0), line(2, 300), line(3, 601)], vec![], None, None, &[]);
    assert!(rows[0].is_group_start);
    assert!(!rows[1].is_group_start);
    assert!(rows[2].is_group_start);
}

#[test]
fn chat_outgoing_trimmed() {
    assert_eq!(prepare_outgoing("  hello \n"), Some("hello".to_string()));
    assert_eq!(prepare_outgoing("   "), None);
}

#[test]
fn chat_typing_throttle() {
    let mut t = TypingThrottle::new();
    assert!(t.should_send_at(1_000_000_000));
    assert!(!t.should_send_at(1_500_000_000));
    assert!(t.should_send_at(1_600_000_000));
    t.reset();
    assert!(t.should_send_at(1_600_000_001));
}

// ---------------------------------------------------------------- session memory

#[test]
fn session_members_joined_and_left() {
    let mut m = SessionMemory::new();
    let me = 1;
    let first = vec![
        TrackedMember { user_id: 1, username: "me".to_string() },
        TrackedMember { user_id: 2, username: "bob".to_string() },
    ];
    let (joined, left) = m.update_known_members(first, Some(me));
    assert_eq!(joined, vec!["bob".to_string()]);
    assert!(left.is_empty());
    let second = vec![
        TrackedMember { user_id: 1, username: "me".to_string() },
        TrackedMember { user_id: 3, username: "carol".to_string() },
    ];
    let (joined, left) = m.update_known_members(second, Some(me));
    assert_eq!(joined, vec!["carol".to_string()]);
    assert_eq!(left, vec!["bob".to_string()]);
}

#[test]
fn session_pending_messages() {
    let mut m = SessionMemory::new();
    m.add_pending_message(5);
    m.add_pending_message(5);
    m.add_pending_message(6);
    let mut pending = m.get_pending_messages();
    pending.sort();
    assert_eq!(pending, vec![5, 6]);
    assert!(m.is_message_pending(5));
    m.confirm_message(5);
    assert!(!m.is_message_pending(5));
    assert_eq!(m.get_pending_messages(), vec![6]);
}

#[test]
fn session_reconcile_pending() {
    let mut m = SessionMemory::new();
    for id in [1u128, 2, 3, 4] {
        m.add_pending_message(id);
    }
    assert_eq!(m.reconcile_pending_messages(&[2, 4, 9]), 2);
    let mut left = m.get_pending_messages();
    left.sort();
    assert_eq!(left, vec![1, 3]);
    assert_eq!(m.reconcile_pending_messages(&[]), 0);
}

#[test]
fn session_typing_and_activity() {
    let mut m = SessionMemory::new();
    m.set_user_typing(2, "bob".to_string(), 10 * SEC);
    m.set_user_typing(3, "carol".to_string(), 11 * SEC);
    assert_eq!(m.get_typing_users(Some(3)), vec![(2, "bob".to_string())]);
    assert!(m.prune_typing_users(3000, 13 * SEC + 500_000_000));
    assert_eq!(m.get_typing_users(None), vec![(3, "carol".to_string())]);
    m.update_member_activity(2, 100 * SEC);
    assert_eq!(m.get_activity_hint(2, 105 * SEC), "Active");
    assert_eq!(m.get_activity_hint(2, 100 * SEC + 3600 * SEC), "1h");
    assert_eq!(m.get_activity_hint(9, 100 * SEC), "");
}

#[test]
fn session_system_messages_per_hall() {
    let mut m = SessionMemory::new();
    m.add_system_message(1, "a".to_string());
    m.add_system_message(2, "b".to_string());
    m.add_system_message(1, "c".to_string());
    let h1: Vec<String> = m.get_system_messages(1).into_iter().map(|s| s.content).collect();
    assert_eq!(h1, vec!["a".to_string(), "c".to_string()]);
    m.clear_system_messages(1);
    assert!(m.get_system_messages(1).is_empty());
    assert_eq!(m.get_system_messages(2).len(), 1);
}

// ---------------------------------------------------------------- tools

#[test]
fn test_pinned_launchers() {
    let mut runtime = PinnedLaunchers::new();
    let hall_id = fresh_id();
    runtime.add_pinned(
        hall_id,
        PinnedLauncher::new("Test".to_string(), "echo".to_string(), vec!["hello".to_string()]),
    );
    let pinned = runtime.get_pinned(hall_id);
    assert_eq!(pinned.len(), 1);
    assert_eq!(pinned[0].name, "Test");
    let launcher_id = pinned[0].id;
    assert!(runtime.remove_pinned(hall_id, launcher_id));
    assert!(runtime.get_pinned(hall_id).is_empty());
}

#[test]
fn tools_status_and_command() {
    assert_eq!(refresh_status(ToolStatus::Running, ChildProbe::Finished), (ToolStatus::Exited, false));
    assert_eq!(refresh_status(ToolStatus::Running, ChildProbe::ProbeFailed), (ToolStatus::Failed, false));
    assert_eq!(refresh_status(ToolStatus::Stopped, ChildProbe::StillRunning), (ToolStatus::Stopped, true));
    assert_eq!(display_command("git", &["log".to_string(), "-1".to_string()]), "git log -1");
    assert_eq!(display_command("ls", &[]), "ls");
    assert_eq!(ToolStatus::Exited.as_str(), "Exited");
}

#[test]
fn tools_default_launchers_follow_availability() {
    let all = default_launchers(&[true, true, true, true, true]);
    assert!(!all.is_empty());
    let none = default_launchers(&[false, false, false, false, false]);
    assert!(none.is_empty());
}

// ---------------------------------------------------------------- tool runtime

#[test]
fn tools_runtime_lifecycle() {
    let mut rt = ExternalToolRuntime::new();
    let hall = fresh_id();
    let other = fresh_id();
    let a = rt.launched(hall, "Term".to_string(), "kitty".to_string(), vec![], None, 100);
    let b = rt.launched(hall, "Sleep".to_string(), "sleep".to_string(), vec!["1".to_string()], Some("test-bot".to_string()), 101);
    let _c = rt.launched(other, "Files".to_string(), "nautilus".to_string(), vec![], None, 102);
    let listed = rt.list_for_hall(hall);
    assert_eq!(listed.len(), 2);
    assert_eq!(listed[0].id, a);
    assert_eq!(listed[1].command, "sleep 1");
    assert_eq!(listed[1].launched_by, Some("test-bot".to_string()));
    assert_eq!(rt.running_count(hall), 2);
    rt.refresh(b, ChildProbe::Finished);
    assert_eq!(rt.running_count(hall), 1);
    assert_eq!(rt.list_running_for_hall(hall)[0].id, a);
    assert!(rt.stop(b, true).is_err());
    assert!(rt.stop(a, false).is_err());
    assert!(rt.stop(a, true).is_ok());
    assert_eq!(rt.list_for_hall(hall)[0].status, ToolStatus::Stopped);
    assert_eq!(rt.stop(fresh_id(), true).unwrap_err(), "Tool not found");
    let removed = rt.cleanup_hall(hall);
    assert_eq!(removed.len(), 2);
    assert!(rt.list_for_hall(hall).is_empty());
    assert_eq!(rt.list_for_hall(other).len(), 1);
    assert!(rt.cleanup_exited().is_empty());
}

#[test]
fn tools_runtime_pinned_and_ids() {
    let mut rt = ExternalToolRuntime::new();
    let hall = fresh_id();
    assert!(rt.needs_default_pinned(hall));
    let l = PinnedLauncher::new("Editor".to_string(), "code".to_string(), vec![]);
    let id = l.id;
    rt.add_pinned(hall, l);
    assert!(!rt.needs_default_pinned(hall));
    assert_eq!(rt.launch_target(hall, id).unwrap().command, "code");
    assert_eq!(rt.launch_target(hall, 5).unwrap_err(), "Pinned launcher not found");
    assert!(rt.remove_pinned(hall, id));
    assert!(rt.get_pinned(hall).is_empty());
    assert_eq!(parse_tool_id("nope").unwrap_err(), "Invalid tool ID");
    assert_eq!(parse_tool_id("550e8400-e29b-41d4-a716-446655440000").unwrap(), 0x550e8400e29b41d4a716446655440000);
    assert_eq!(launch_error("kitty", "not found"), "Failed to launch kitty: not found");
}

#[test]
fn workspace_navigation() {
    let mut w = WorkspaceState::new(fresh_id(), "/d");
    assert!(!w.navigate_to("/d/file.txt".to_string(), false));
    assert!(w.navigate_to("/d/halls/x/chest/sub".to_string(), true));
    assert_eq!(w.files_current_path, "/d/halls/x/chest/sub");
    let up = parent_entry("/c/chest/sub", Some("/c/chest"), Some("/c/chest".to_string())).unwrap();
    assert_eq!(up.name, "..");
    assert!(up.is_directory);
    assert_eq!(up.path, "/c/chest");
    assert!(parent_entry("/c/chest", Some("/c/chest"), Some("/c".to_string())).is_none());
    assert!(parent_entry("/c/other", None, Some("/c".to_string())).is_none());
    assert!(matches!(open_action(&entry("sub", true, 0)), OpenAction::Navigate(p) if p == "/sub"));
    assert!(matches!(open_action(&entry("a.txt", false, 3)), OpenAction::Launch(p) if p == "/a.txt"));
}

#[test]
fn town_crier_last_seen_duration() {
    assert_eq!(exom::town_crier::last_seen_duration(at(100), at(3_700)), 3_600);
    assert_eq!(exom::town_crier::last_seen_duration(at(100), at(50)), 0);
    let then = Timestamp { secs: 10, nanos: 900_000_000 };
    assert_eq!(exom::town_crier::last_seen_duration(then, Timestamp { secs: 11, nanos: 100_000_000 }), 0);
    assert_eq!(exom::town_crier::last_seen_duration(then, at(12)), 1);
}

#[test]
fn workspace_sort_keeps_order_of_equal_names() {
    let a = FileEntry { name: "Notes".to_string(), is_directory: false, size: 1, path: "/x/Notes".to_string() };
    let b = FileEntry { name: "notes".to_string(), is_directory: false, size: 2, path: "/y/notes".to_string() };
    let sorted = sort_file_entries(vec![b.clone(), entry("a", false, 0), a.clone()]);
    let paths: Vec<&str> = sorted.iter().map(|e| e.path.as_str()).collect();
    assert_eq!(paths, vec!["/a", "/y/notes", "/x/Notes"]);
}

#[test]
fn archive_settings_commands() {
    let mut c = ArchiveConfig::default_for(3);
    assert!(exom::archive::apply_archive_command(&mut c, &ArchiveCommand::Enable));
    assert!(c.enabled);
    assert!(exom::archive::apply_archive_command(&mut c, &ArchiveCommand::SetTime(715)));
    assert_eq!(c.archive_time, 715);
    assert!(exom::archive::apply_archive_command(&mut c, &ArchiveCommand::SetOutput(ArchiveOutput::ChestUser("bo".to_string()))));
    assert_eq!(c.archive_output, ArchiveOutput::ChestUser("bo".to_string()));
    assert!(!exom::archive::apply_archive_command(&mut c, &ArchiveCommand::Status));
    assert!(!exom::archive::apply_archive_command(&mut c, &ArchiveCommand::SetTimeInvalid));
    assert_eq!(c.archive_time, 715);
    assert!(c.enabled);
}

#[test]
fn archivist_catch_up_after_missed_run() {
    let mut c = ArchiveConfig::default_for(1);
    c.last_run_at = Some(at(0));
    assert!(!exom::archivist::needs_catch_up(Some(&c), at(30 * 3600)));
    c.enabled = true;
    assert!(exom::archivist::needs_catch_up(Some(&c), at(30 * 3600)));
    assert!(!exom::archivist::needs_catch_up(Some(&c), at(25 * 3600)));
    c.last_run_at = None;
    assert!(!exom::archivist::needs_catch_up(Some(&c), at(30 * 3600)));
    assert!(!exom::archivist::needs_catch_up(None, at(30 * 3600)));
}

#[test]
fn session_connection_lost_clears_and_notes() {
    let mut m = SessionMemory::new();
    let hall = 9;
    m.update_known_members(vec![TrackedMember { user_id: 2, username: "bob".to_string() }], Some(1));
    m.set_user_typing(2, "bob".to_string(), 10);
    m.add_pending_message(5);
    exom::network::connection_lost(&mut m, Some(hall));
    assert!(m.known_members.is_empty());
    assert!(m.typing_users.is_empty());
    assert_eq!(m.get_pending_messages(), vec![5]);
    let notes = m.get_system_messages(hall);
    assert_eq!(notes.len(), 1);
    assert_eq!(notes[0].content, "Connection lost");
    exom::network::connection_lost(&mut m, None);
    assert_eq!(m.get_system_messages(hall).len(), 1);
}

#[test]
fn workspace_restore_gives_unreadable_ids_fresh_ones() {
    let hall = fresh_id();
    let tab = |title: &str| exom::workspace::PersistedTab {
        id: "not-an-id".to_string(),
        tool_type: "Files".to_string(),
        title: title.to_string(),
    };
    let persisted = exom::workspace::PersistedWorkspace {
        hall_id: hall,
        user_id: 1,
        tabs: vec![tab("one"), tab("two")],
        active_tab_id: None,
        terminal_cwd: None,
    };
    let mut ws = WorkspaceState::new(hall, "/tmp/exom-data");
    ws.restore_from_persisted(&persisted, false);
    let ids: Vec<u128> = ws.tabs().iter().map(|t| t.id).collect();
    assert_eq!(ids.len(), 3);
    assert_ne!(ids[0], ids[1]);
    assert_ne!(ids[0], ids[2]);
    assert_ne!(ids[1], ids[2]);
}
