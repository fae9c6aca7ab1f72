use palcommand::backup::{
    archive_name, backup_commit_message, backup_readme, can_resave, check_backup_settings,
    check_snapshot, drop_torn_levels, extra_config_files, extra_world_files, guid_cuts,
    integrity_action, level_size_warning,
    is_archive_name, is_ini, is_player_save, live_channels, no_live_channel_warning,
    pick_world_folder, prune_victims, quiesce_plan, quiesce_wait_secs, redact_config,
    remote_path, require_captured, restore_message, restore_secrets, restore_unstopped_warning,
    save_failed_warning, should_push, sidecar_file, sidecar_section, snapshot_missing,
    torn_warning, torn_worlds, unpushed_warning, world_files, IntegrityAction, PulledWorld,
    Quiesce, BACKUP_GITIGNORE, LEVEL_SIZE_WARN,
};
use palcommand::config_store::AppSettings;

fn sav() -> Vec<u8> {
    let mut v = vec![1, 0, 0, 0, 2, 0, 0, 0];
    v.extend_from_slice(b"PlZ");
    v.push(0x31);
    v.extend_from_slice(&[7; 20]);
    v
}

const INI: &str = "[/Script/Pal.PalGameWorldSettings]\nOptionSettings=(ServerName=\"S\",AdminPassword=\"hunter2\",ServerPassword=\"join-me\",Difficulty=None)\n";

#[test]
fn redaction_takes_both_secrets_out() {
    let (text, secrets) = redact_config(INI);
    assert_eq!(
        text,
        "[/Script/Pal.PalGameWorldSettings]\nOptionSettings=(ServerName=\"S\",AdminPassword=\"<REDACTED>\",ServerPassword=\"<REDACTED>\",Difficulty=None)\n"
    );
    assert_eq!(
        secrets,
        vec![
            ("AdminPassword".to_string(), "hunter2".to_string()),
            ("ServerPassword".to_string(), "join-me".to_string()),
        ]
    );
    assert!(!text.contains("hunter2"));
    assert!(!text.contains("join-me"));
}

#[test]
fn restore_after_redact_gives_back_the_input() {
    let (text, secrets) = redact_config(INI);
    assert_eq!(restore_secrets(&text, &secrets), INI);
}

#[test]
fn empty_and_already_redacted_values_are_left_alone() {
    let t = "AdminPassword=\"\",ServerPassword=\"<REDACTED>\"";
    let (text, secrets) = redact_config(t);
    assert_eq!(text, t);
    assert!(secrets.is_empty());
    let (text, secrets) = redact_config("no secrets here");
    assert_eq!(text, "no secrets here");
    assert!(secrets.is_empty());
    // An unterminated value is not touched.
    let (text, secrets) = redact_config("AdminPassword=\"open");
    assert_eq!(text, "AdminPassword=\"open");
    assert!(secrets.is_empty());
}

#[test]
fn restore_without_a_matching_key_changes_nothing() {
    let secrets = vec![("AdminPassword".to_string(), "x".to_string())];
    assert_eq!(restore_secrets("Difficulty=None", &secrets), "Difficulty=None");
    assert_eq!(restore_secrets("AdminPassword=\"\"", &secrets), "AdminPassword=\"x\"");
}

#[test]
fn backup_settings_are_checked() {
    let mut s = AppSettings::default();
    assert_eq!(
        check_backup_settings(&s).unwrap_err(),
        "Set your SFTP host and username in Settings first."
    );
    s.sftp_host = "h".into();
    s.sftp_user = "u".into();
    assert_eq!(
        check_backup_settings(&s).unwrap_err(),
        "Choose a local backup folder in Settings first."
    );
    s.repo_local_path = "/tmp/repo".into();
    assert!(check_backup_settings(&s).is_ok());
}

#[test]
fn quiesce_prefers_rest_and_respects_stop_before_backup() {
    let mut s = AppSettings::default();
    assert_eq!(quiesce_plan(&s, true), Quiesce::Unavailable);
    s.rcon_enabled = true;
    s.rcon_host = "h".into();
    assert_eq!(quiesce_plan(&s, false), Quiesce::Unavailable);
    assert_eq!(quiesce_plan(&s, true), Quiesce::RconSave);
    s.stop_before_backup = true;
    assert_eq!(quiesce_plan(&s, true), Quiesce::RconShutdown);
    s.rest_enabled = true;
    s.rest_url = "http://h:8212".into();
    assert_eq!(quiesce_plan(&s, true), Quiesce::RestShutdown);
    s.stop_before_backup = false;
    assert_eq!(quiesce_plan(&s, true), Quiesce::RestSave);
    assert_eq!(live_channels(&s, true), (true, true));
    assert_eq!(live_channels(&s, false), (false, false));
    assert_eq!(quiesce_wait_secs(&Quiesce::RestShutdown, false), 16);
    assert_eq!(quiesce_wait_secs(&Quiesce::RestSave, true), 6);
    assert_eq!(quiesce_wait_secs(&Quiesce::RestSave, false), 0);
    assert_eq!(quiesce_wait_secs(&Quiesce::RconSave, false), 2);
    assert_eq!(quiesce_wait_secs(&Quiesce::Unavailable, true), 0);
    assert_eq!(
        save_failed_warning(&Quiesce::RestSave, "e"),
        "REST save failed (e); trying RCON."
    );
    assert_eq!(
        save_failed_warning(&Quiesce::RconSave, "e"),
        "RCON save failed (e); pulling anyway."
    );
    assert!(no_live_channel_warning().starts_with("No live channel (REST or RCON) configured"));
}

#[test]
fn torn_worlds_are_found_retried_then_dropped() {
    let mut worlds = vec![
        PulledWorld { guid: "good".into(), level: Some(sav()), others: vec![] },
        PulledWorld { guid: "torn".into(), level: Some(vec![0; 64]), others: vec![] },
        PulledWorld { guid: "nolevel".into(), level: None, others: vec![] },
    ];
    assert_eq!(torn_worlds(&worlds), vec!["torn".to_string()]);
    assert_eq!(integrity_action(0, true, 0), IntegrityAction::Accept);
    assert_eq!(integrity_action(0, true, 1), IntegrityAction::Resave);
    assert_eq!(integrity_action(1, true, 1), IntegrityAction::SkipTorn);
    assert_eq!(integrity_action(0, false, 1), IntegrityAction::SkipTorn);
    drop_torn_levels(&mut worlds);
    assert!(worlds[0].level.is_some());
    assert!(worlds[1].level.is_none());
    assert_eq!(worlds[1].guid, "torn");
    assert!(torn_worlds(&worlds).is_empty());
    assert!(torn_warning("torn").starts_with("World torn: Level.sav failed the integrity check"));
    let mut s = AppSettings::default();
    s.rcon_enabled = true;
    s.rcon_host = "h".into();
    assert!(can_resave(&s, true));
    s.stop_before_backup = true;
    assert!(!can_resave(&s, true));
}

#[test]
fn sidecar_and_names() {
    let secrets = vec![("AdminPassword".to_string(), "x".to_string())];
    let sec = sidecar_section("PalWorldSettings.ini", &secrets);
    assert_eq!(sec, "[PalWorldSettings.ini]\nAdminPassword=x\n\n");
    assert!(sidecar_file("").is_none());
    let file = sidecar_file(&sec).unwrap();
    assert!(file.starts_with("# PAL COMMAND — real secret values pulled from server config.\n"));
    assert!(file.ends_with(&sec));
    assert!(is_ini("Engine.ini"));
    assert!(!is_ini("Level.sav"));
    assert_eq!(archive_name("20240101-120000", "0123456789ABCDEF"), "20240101-120000_01234567.tar.gz");
    assert_eq!(archive_name("ts", "abc"), "ts_abc.tar.gz");
    assert!(guid_cuts("é1234567xyz"));
    assert_eq!(archive_name("ts", "é1234567xyz"), "ts_é123456.tar.gz");
    assert!(!guid_cuts("1234567éxyz"));
    assert!(guid_cuts("12345678é"));
    assert_eq!(archive_name("ts", "12345678é"), "ts_12345678.tar.gz");
    assert_eq!(
        level_size_warning("0123456789", "99.0 MB"),
        "World 01234567: Level.sav is 99.0 MB — approaching GitHub's 100MB hard limit. Enable Git LFS or run a save-cleanup pass."
    );
    assert_eq!(LEVEL_SIZE_WARN, 95 * 1024 * 1024);
    assert!(BACKUP_GITIGNORE.contains("secrets.local.ini"));
    assert!(backup_readme().starts_with("# Palworld server backup"));
}

#[test]
fn world_files_put_level_first_and_count_players() {
    let (files, players) = world_files(
        vec![1, 2],
        vec![
            ("LevelMeta.sav".to_string(), vec![3]),
            ("Players/A.sav".to_string(), vec![4]),
            ("Players/B.sav".to_string(), vec![5]),
        ],
    );
    assert_eq!(files.len(), 4);
    assert_eq!(files[0], ("Level.sav".to_string(), vec![1, 2]));
    assert_eq!(files[2].0, "Players/A.sav");
    assert_eq!(players, 2);
}

#[test]
fn capture_commit_and_push_rules() {
    assert_eq!(
        require_captured(0, 0).unwrap_err(),
        "Nothing captured — check the SFTP paths in Settings (couldn't find Level.sav or a config file)."
    );
    assert!(require_captured(1, 0).is_ok());
    assert!(require_captured(0, 1).is_ok());
    assert_eq!(
        backup_commit_message("20240101-120000", 1, 3, 2),
        "backup 20240101-120000 — 1 world(s), 3 player(s), 2 config(s)"
    );
    assert!(should_push(true, true, true));
    assert!(!should_push(true, false, true));
    assert!(!should_push(false, true, true));
    assert_eq!(
        unpushed_warning(true, true, false),
        Some("Committed locally but not pushed — set a remote and check your git credentials.")
    );
    assert_eq!(unpushed_warning(false, true, false), None);
    assert_eq!(unpushed_warning(true, true, true), None);
}

#[test]
fn retention_keeps_the_newest() {
    let files = vec![
        ("a.tar.gz".to_string(), 10u64),
        ("b.tar.gz".to_string(), 30),
        ("c.tar.gz".to_string(), 20),
        ("d.tar.gz".to_string(), 20),
    ];
    assert_eq!(prune_victims(&files, 2), vec!["d.tar.gz".to_string(), "a.tar.gz".to_string()]);
    assert!(prune_victims(&files, 0).is_empty());
    assert!(prune_victims(&files, 4).is_empty());
    assert!(prune_victims(&files, 9).is_empty());
    assert!(is_archive_name("x.tar.gz"));
    assert!(!is_archive_name("x.tar"));
}

#[test]
fn pulling_paths() {
    assert_eq!(remote_path("Pal/Saved", "Level.sav"), "Pal/Saved/Level.sav");
    assert_eq!(extra_config_files(), vec!["GameUserSettings.ini", "Engine.ini"]);
    assert_eq!(extra_world_files(), vec!["LevelMeta.sav", "WorldOption.sav"]);
    assert!(is_player_save("x.sav"));
    assert!(!is_player_save("x.sav.bak"));
}

#[test]
fn restore_guards_and_messages() {
    assert_eq!(snapshot_missing("x.tar.gz"), "Snapshot 'x.tar.gz' not found in the backup folder.");
    assert_eq!(
        check_snapshot(&vec![("Players/A.sav".to_string(), vec![1])]).unwrap_err(),
        "Snapshot has no Level.sav — refusing to restore."
    );
    assert_eq!(
        check_snapshot(&vec![("Level.sav".to_string(), vec![0; 40])]).unwrap_err(),
        "The snapshot's Level.sav fails the integrity check — refusing to restore a corrupt world."
    );
    assert!(check_snapshot(&vec![("Level.sav".to_string(), sav())]).is_ok());
    assert_eq!(
        pick_world_folder(&vec!["a.txt".to_string(), "WORLD".to_string(), "X".to_string()]).unwrap(),
        "WORLD"
    );
    assert_eq!(
        pick_world_folder(&vec!["a.txt".to_string()]).unwrap_err(),
        "Couldn't find a world folder on the server to restore into."
    );
    assert_eq!(
        restore_message(4, "W", true),
        "Restored 4 file(s) into world 'W'. Server was stopped — START it from the Host Havoc panel to load the restored world."
    );
    assert_eq!(
        restore_message(1, "W", false),
        "Restored 1 file(s) into world 'W'. Restore uploaded — start the server when ready."
    );
    assert!(restore_unstopped_warning().starts_with("No REST/RCON channel to stop the server"));
}
