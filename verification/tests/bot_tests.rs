use exom::bot::BotCapability;
use exom::manifest::{BotManifestToml, BotMeta, BotRegistry, CommandDef, ManifestError};
use exom::tools::ExternalToolRuntime;

fn manifest(id: &str, caps: &[BotCapability], prefixes: &[&str]) -> BotManifestToml {
    BotManifestToml {
        bot: BotMeta {
            id: id.to_string(),
            name: format!("Test Bot {}", id),
            version: "1.0.0".to_string(),
            author: None,
            description: None,
            category: None,
            capabilities: caps.to_vec(),
        },
        config: vec![],
        commands: prefixes
            .iter()
            .map(|p| CommandDef { prefix: p.to_string(), description: "command".to_string(), usage: None, requires_capability: None })
            .collect(),
        assets: vec![],
    }
}

fn registry_of(results: Vec<Result<BotManifestToml, ManifestError>>) -> BotRegistry {
    let mut r = BotRegistry::new("/bots".to_string());
    r.register_scan(results);
    r
}

#[test]
fn test_scan_empty_directory() {
    let registry = registry_of(vec![]);
    assert!(registry.is_empty());
}

#[test]
fn test_scan_single_bot() {
    let registry = registry_of(vec![Ok(manifest("test-bot", &[BotCapability::ListenPresence], &[]))]);
    assert_eq!(registry.len(), 1);
    assert!(registry.contains("test-bot"));
    assert_eq!(registry.get("test-bot").unwrap().bot.name, "Test Bot test-bot");
}

#[test]
fn test_scan_multiple_bots() {
    let registry = registry_of(vec![
        Ok(manifest("bot-a", &[BotCapability::ListenPresence], &[])),
        Ok(manifest("bot-b", &[BotCapability::EmitSystem], &[])),
        Ok(manifest("bot-c", &[BotCapability::ListenPresence, BotCapability::EmitSystem], &[])),
    ]);
    assert_eq!(registry.len(), 3);
    assert_eq!(registry.with_capability(BotCapability::ListenPresence).len(), 2);
    assert_eq!(registry.with_capability(BotCapability::EmitSystem).len(), 2);
}

#[test]
fn test_rescan() {
    let mut registry = registry_of(vec![Ok(manifest("bot-a", &[], &[]))]);
    assert_eq!(registry.len(), 1);
    registry.register_scan(vec![Ok(manifest("bot-a", &[], &[])), Ok(manifest("bot-b", &[], &[]))]);
    assert_eq!(registry.len(), 2);
}

#[test]
fn registry_later_manifest_replaces_and_errors_kept() {
    let registry = registry_of(vec![
        Ok(manifest("bot-a", &[], &[])),
        Err(ManifestError::FolderNotFound("/bots/ghost".to_string())),
        Err(ManifestError::ParseError("bad".to_string())),
        Ok(manifest("bot-a", &[BotCapability::HttpClient], &["/a"])),
    ]);
    assert_eq!(registry.len(), 1);
    assert!(registry.get("bot-a").unwrap().has_capability(BotCapability::HttpClient));
    let paths: Vec<&str> = registry.load_errors.iter().map(|(p, _)| p.as_str()).collect();
    assert_eq!(paths, vec!["/bots/ghost", "unknown"]);
    assert_eq!(registry.with_command_prefix("/a-thing").unwrap().bot.id, "bot-a");
    assert!(registry.with_command_prefix("/b").is_none());
    assert_eq!(registry.bot_folder("bot-a"), "/bots/bot-a");
    assert_eq!(registry.bot_ids(), vec!["bot-a".to_string()]);
}

#[test]
fn test_command_prefixes() {
    let m = manifest("multi-cmd", &[], &["/cmd1", "/cmd2"]);
    assert_eq!(m.command_prefixes(), vec!["/cmd1", "/cmd2"]);
    assert!(m.handles_command("/cmd2 now"));
    assert!(!m.handles_command("/cmd3"));
}

#[test]
fn manifest_folder_must_match_id() {
    let m = manifest("bot-a", &[], &[]);
    assert!(m.clone().check_folder("bot-a").is_ok());
    assert!(matches!(
        m.check_folder("bot-b"),
        Err(ManifestError::IdMismatch { expected, found }) if expected == "bot-b" && found == "bot-a"
    ));
}

#[test]
fn test_launch_and_stop() {
    let mut runtime = ExternalToolRuntime::new();
    let hall_id = uuid::Uuid::new_v4().as_u128();
    let tool_id = runtime.launched(hall_id, "Test".to_string(), "true".to_string(), vec![], None, 4242);
    let tools = runtime.list_for_hall(hall_id);
    assert_eq!(tools.len(), 1);
    assert_eq!(tools[0].id, tool_id);
    assert!(runtime.stop(tool_id, true).is_ok());
}

#[test]
fn test_tool_snapshot() {
    let mut runtime = ExternalToolRuntime::new();
    let hall_id = uuid::Uuid::new_v4().as_u128();
    runtime.launched(hall_id, "Sleep".to_string(), "sleep".to_string(), vec!["1".to_string()], Some("test-bot".to_string()), 7);
    let tools = runtime.list_for_hall(hall_id);
    assert_eq!(tools.len(), 1);
    assert_eq!(tools[0].launched_by, Some("test-bot".to_string()));
}
