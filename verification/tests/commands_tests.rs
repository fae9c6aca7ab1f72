use palcommand::backup::{ArchiveInfo, BackupReport};
use palcommand::commands::{
    backup_offsite_status,
    config_candidates, config_change_event, config_change_event_at, config_saved_message, live_channel,
    live_info_from_rcon, mod_locations, probe_message, rcon_user_id, require_empty_server,
    require_verified_snapshot, rest_user_id, restart_deadline, restart_poll, settings_backup_path,
    settings_ini_path, sort_history, BackupHistoryItem, LiveChannelKind, RestartWatch,
};
use palcommand::config_store::AppSettings;

fn report(worlds: Vec<String>, archives: Vec<ArchiveInfo>, pushed: bool) -> BackupReport {
    BackupReport {
        timestamp: "test".into(),
        worlds,
        players: 0,
        configs: vec![],
        archives,
        warnings: vec![],
        committed: true,
        pushed,
        message: "test".into(),
    }
}

#[test]
fn restart_requires_empty_server_before_and_after_backup() {
    assert!(require_empty_server(0, false).is_ok());
    assert!(require_empty_server(1, false).unwrap_err().contains("online"));
    assert!(require_empty_server(1, true).unwrap_err().contains("joined"));
}

#[test]
fn restart_requires_a_verified_world_archive() {
    assert!(require_verified_snapshot(&report(vec![], vec![], true)).is_err());
    assert!(require_verified_snapshot(&report(vec!["world".into()], vec![], true)).is_err());
    assert!(require_verified_snapshot(&report(
        vec!["world".into()],
        vec![ArchiveInfo {
            name: "snapshot.tar.gz".into(),
            bytes: 1,
        }],
        false,
    ))
    .unwrap_err()
    .contains("off-site"));
    assert!(require_verified_snapshot(&report(
        vec!["world".into()],
        vec![ArchiveInfo {
            name: "snapshot.tar.gz".into(),
            bytes: 1,
        }],
        true,
    ))
    .is_ok());
}

#[test]
fn empty_server_messages_are_exact() {
    assert_eq!(
        require_empty_server(3, false).unwrap_err(),
        "Restart blocked: 3 player(s) are online. Wait until the server is empty."
    );
    assert_eq!(
        require_empty_server(2, true).unwrap_err(),
        "Backup completed, but restart was blocked because 2 player(s) joined."
    );
}

#[test]
fn snapshot_messages_are_exact() {
    assert_eq!(
        require_verified_snapshot(&report(vec![], vec![], true)).unwrap_err(),
        "Restart blocked: the backup completed without a verified world snapshot."
    );
    assert_eq!(
        require_verified_snapshot(&report(
            vec!["w".into()],
            vec![ArchiveInfo { name: "a.tar.gz".into(), bytes: 9 }],
            false
        ))
        .unwrap_err(),
        "Restart blocked: the verified backup was not pushed off-site."
    );
}

/// The queued event as JSON, field by field in declaration order.
fn event_json(updates: &[(String, String)]) -> String {
    let ev = config_change_event(updates);
    let mut obj = serde_json::Map::new();
    obj.insert("event_type".to_string(), serde_json::Value::String(ev.event_type.to_string()));
    obj.insert("source".to_string(), serde_json::Value::String(ev.source.to_string()));
    obj.insert(
        "changed_keys".to_string(),
        serde_json::Value::Array(ev.changed_keys.into_iter().map(serde_json::Value::String).collect()),
    );
    obj.insert("created_at".to_string(), serde_json::Value::String(ev.created_at));
    serde_json::to_string(&serde_json::Value::Object(obj)).unwrap()
}

#[test]
fn config_change_events_never_include_values() {
    let updates = vec![
        ("DeathPenalty".into(), "None".into()),
        ("AdminPassword".into(), "do-not-leak-this".into()),
    ];
    let json = event_json(&updates);
    assert!(json.contains("AdminPassword"));
    assert!(json.contains("DeathPenalty"));
    assert!(!json.contains("do-not-leak-this"));
    assert!(!json.contains("\"None\""));
}

#[test]
fn config_change_events_name_keys_and_never_values() {
    let updates = vec![
        ("DeathPenalty".to_string(), "None".to_string()),
        ("AdminPassword".to_string(), "do-not-leak-this".to_string()),
        ("DeathPenalty".to_string(), "All".to_string()),
    ];
    let ev = config_change_event_at(&updates, "2024-01-01T00:00:00+00:00".to_string());
    assert_eq!(ev.event_type, "config_changed");
    assert_eq!(ev.source, "PAL COMMAND dashboard");
    assert_eq!(ev.changed_keys, vec!["AdminPassword".to_string(), "DeathPenalty".to_string()]);
    assert_eq!(ev.created_at, "2024-01-01T00:00:00+00:00");
    for k in &ev.changed_keys {
        assert!(!k.contains("do-not-leak-this"));
        assert_ne!(k, "None");
    }
}

#[test]
fn config_change_event_of_no_updates_has_no_keys() {
    let ev = config_change_event_at(&[], "t".to_string());
    assert!(ev.changed_keys.is_empty());
}

#[test]
fn live_channel_prefers_rest_then_rcon() {
    let mut s = AppSettings::default();
    assert!(live_channel(&s, false).unwrap_err().contains("No Admin Password saved"));
    assert_eq!(live_channel(&s, true).unwrap(), LiveChannelKind::Disabled);
    s.rcon_enabled = true;
    s.rcon_host = "1.2.3.4".into();
    assert_eq!(live_channel(&s, true).unwrap(), LiveChannelKind::Rcon);
    s.rest_enabled = true;
    s.rest_url = "http://h:8212".into();
    assert_eq!(live_channel(&s, true).unwrap(), LiveChannelKind::Rest);
    s.rest_url = String::new();
    assert_eq!(live_channel(&s, true).unwrap(), LiveChannelKind::Rcon);
}

#[test]
fn rcon_info_splits_name_and_version() {
    let i = live_info_from_rcon("Welcome to Pal Server [v0.1.5.0] My World\n".to_string());
    assert_eq!(i.source, "rcon");
    assert_eq!(i.version.as_deref(), Some("v0.1.5.0"));
    assert_eq!(i.servername.as_deref(), Some("Welcome to Pal Server"));
    assert!(i.worldguid.is_none());
    let j = live_info_from_rcon("  plain name  ".to_string());
    assert_eq!(j.servername.as_deref(), Some("plain name"));
    assert!(j.version.is_none());
}

#[test]
fn user_ids_take_the_forms_each_channel_wants() {
    assert_eq!(rest_user_id("76561198000000000"), "steam_76561198000000000");
    assert_eq!(rest_user_id("steam_123"), "steam_123");
    assert_eq!(rcon_user_id("steam_123"), "123");
    assert_eq!(rcon_user_id("123"), "123");
}

#[test]
fn restart_poll_and_deadline() {
    assert_eq!(restart_poll(false, false), RestartWatch::Waiting(true));
    assert_eq!(restart_poll(false, true), RestartWatch::Waiting(false));
    assert_eq!(restart_poll(true, true), RestartWatch::Recovered);
    assert_eq!(restart_poll(true, false), RestartWatch::Waiting(true));
    assert!(restart_deadline(179, false).is_ok());
    assert_eq!(
        restart_deadline(180, true).unwrap_err(),
        "Backup is safe and shutdown was accepted, but server recovery was not confirmed within 180 seconds (shutdown observed: true)."
    );
}

#[test]
fn messages_and_paths() {
    assert_eq!(
        probe_message("h", 22, 1, "Pal/Saved"),
        "Connected to h:22. Found 1 entry in Pal/Saved."
    );
    assert_eq!(
        probe_message("h", 2022, 3, "x"),
        "Connected to h:2022. Found 3 entries in x."
    );
    assert_eq!(config_candidates("cfg"), vec!["cfg".to_string()]);
    assert_eq!(
        config_candidates(""),
        vec![
            "Pal/Saved/Config/LinuxServer".to_string(),
            "Pal/Saved/Config/WindowsServer".to_string()
        ]
    );
    assert_eq!(settings_ini_path("d"), "d/PalWorldSettings.ini");
    assert_eq!(settings_backup_path("d", "20240101-000000"), "d/PalWorldSettings.ini.bak-20240101-000000");
    assert_eq!(mod_locations().len(), 5);
    assert_eq!(mod_locations()[0], ("Pal/Content/Paks/~mods", "loose-pak"));
}

#[test]
fn config_saved_message_counts_changes() {
    let one = config_saved_message(1, "p", "ts", None);
    assert!(one.starts_with("Saved 1 change"));
    assert!(!one.starts_with("Saved 1 changes"));
    let two = config_saved_message(2, "p", "ts", Some("boom"));
    assert!(two.starts_with("Saved 2 changes"));
    assert!(two.ends_with(" Discord notification warning: boom"));
}

#[test]
fn history_is_newest_first_and_stable() {
    let item = |n: &str, m: &str| BackupHistoryItem { name: n.into(), bytes: 1, modified: m.into() };
    let items = vec![
        item("a", "2024-01-01 10:00:00"),
        item("b", "2024-03-01 10:00:00"),
        item("c", "2024-01-01 10:00:00"),
        item("d", "2023-12-31 23:59:59"),
    ];
    let sorted = sort_history(items);
    let names: Vec<&str> = sorted.iter().map(|i| i.name.as_str()).collect();
    assert_eq!(names, vec!["b", "a", "c", "d"]);
}

#[test]
fn offsite_means_a_remote_is_set() {
    let mut s = AppSettings::default();
    assert!(!backup_offsite_status(&s));
    s.repo_remote = "git@github.com:me/saves.git".into();
    assert!(backup_offsite_status(&s));
}
