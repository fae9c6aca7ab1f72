use palcommand::archive::{make_targz, untar_gz};
use palcommand::backup::{redact_config, restore_secrets, ArchiveInfo, BackupReport, PulledWorld, Quiesce};
use palcommand::backup_flow::{backup_start, backup_step, BackupAction, BackupEvent, BackupRun};
use palcommand::config_store::{
    change_outcome, migrate_start, migrate_step, needs_migration, secret_change, AppSettings,
    MigrateAction, MigrateEvent, SecretChange,
};
use palcommand::flows::{
    config_save_start, config_save_step, pull_start, pull_step, restart_start, restart_step,
    restore_start, restore_step, PullAction, PullEvent, RestartAction, RestartEvent,
    RestoreAction, RestoreEvent, SaveAction, SaveEvent,
};
use palcommand::gitrepo::{commit_start, commit_step, CommitAction, GitOp};
use palcommand::palconfig::{apply_updates, parse, serialize, PalConfig};

fn sav() -> Vec<u8> {
    let mut v = vec![1, 0, 0, 0, 2, 0, 0, 0];
    v.extend_from_slice(b"PlZ");
    v.push(0x31);
    v.extend_from_slice(&[7; 20]);
    v
}

fn s(x: &str) -> String {
    x.to_string()
}

// ---------------------------------------------------------------- secrets

#[test]
fn secret_change_deletes_only_for_empty_values() {
    assert!(matches!(secret_change(""), SecretChange::Delete));
    match secret_change("hunter2") {
        SecretChange::Write(v) => assert_eq!(v, "hunter2"),
        SecretChange::Delete => panic!("a value is written"),
    }
}

#[test]
fn a_failed_delete_is_not_reported_but_a_failed_write_is() {
    assert_eq!(change_outcome(&SecretChange::Delete, Err(s("no entry"))), Ok(()));
    assert_eq!(change_outcome(&SecretChange::Write(s("x")), Err(s("locked"))), Err(s("locked")));
    assert_eq!(change_outcome(&SecretChange::Write(s("x")), Ok(())), Ok(()));
}

#[test]
fn migration_never_overwrites_a_stored_secret() {
    assert!(needs_migration(true, false));
    assert!(!needs_migration(true, true));
    assert!(!needs_migration(false, false));
    assert!(!needs_migration(false, true));
}

#[test]
fn migration_steps_decrypt_store_and_skip() {
    let (st, a) = migrate_start();
    assert!(matches!(a, MigrateAction::Check(0)));
    let (st, a) = migrate_step(st, MigrateEvent::Checked { file_present: true, secret_present: false });
    assert!(matches!(a, MigrateAction::Decrypt(0)));
    let (st, a) = migrate_step(st, MigrateEvent::Decrypted(Ok(s("pw"))));
    match &a {
        MigrateAction::Store(0, v) => assert_eq!(v, "pw"),
        _ => panic!("the decrypted secret is stored"),
    }
    let (st, a) = migrate_step(st, MigrateEvent::Stored(Ok(())));
    assert!(matches!(a, MigrateAction::Check(1)));
    let (_, a) = migrate_step(st, MigrateEvent::Checked { file_present: true, secret_present: true });
    assert!(matches!(a, MigrateAction::Finish(Ok(true))));
}

#[test]
fn migration_stops_at_the_first_error() {
    let (st, _) = migrate_start();
    let (st, _) = migrate_step(st, MigrateEvent::Checked { file_present: true, secret_present: false });
    let (_, a) = migrate_step(st, MigrateEvent::Decrypted(Err(s("bad"))));
    match a {
        MigrateAction::Finish(Err(e)) => assert_eq!(e, "bad"),
        _ => panic!("the error ends the migration"),
    }
}

// ---------------------------------------------------------------- settings save

const INI: &str = "[/Script/Pal.PalGameWorldSettings]\nOptionSettings=(ServerName=\"S\",AdminPassword=\"hunter2\",Difficulty=None)\n";

#[test]
fn saving_no_updates_changes_nothing() {
    let (_, a) = config_save_start(vec![], "", true);
    match a {
        SaveAction::Finish(Ok(m)) => assert_eq!(m, "No changes."),
        _ => panic!("no changes"),
    }
}

#[test]
fn saving_finds_the_file_keeps_a_copy_then_writes() {
    let ups = vec![(s("Difficulty"), s("Hard"))];
    let (st, a) = config_save_start(ups, "", true);
    match &a {
        SaveAction::Download(p) => assert_eq!(p, "Pal/Saved/Config/LinuxServer/PalWorldSettings.ini"),
        _ => panic!("download first"),
    }
    let (st, a) = config_save_step(st, SaveEvent::Fetched(None));
    match &a {
        SaveAction::Download(p) => assert_eq!(p, "Pal/Saved/Config/WindowsServer/PalWorldSettings.ini"),
        _ => panic!("then the next candidate"),
    }
    let (st, a) = config_save_step(st, SaveEvent::Fetched(Some((INI.as_bytes().to_vec(), s("20240101-000000")))));
    match &a {
        SaveAction::UploadBackup(p, b) => {
            assert_eq!(p, "Pal/Saved/Config/WindowsServer/PalWorldSettings.ini.bak-20240101-000000");
            assert_eq!(b.as_slice(), INI.as_bytes());
        }
        _ => panic!("the copy goes up before the write"),
    }
    let (st, a) = config_save_step(st, SaveEvent::BackupSent);
    let written = match &a {
        SaveAction::Upload(p, t) => {
            assert_eq!(p, "Pal/Saved/Config/WindowsServer/PalWorldSettings.ini");
            t.clone()
        }
        _ => panic!("then the write"),
    };
    assert_eq!(
        written,
        "[/Script/Pal.PalGameWorldSettings]\nOptionSettings=(ServerName=\"S\",AdminPassword=\"hunter2\",Difficulty=Hard)\n"
    );
    let (st, a) = config_save_step(st, SaveEvent::Written(Ok(())));
    match &a {
        SaveAction::SaveLocal(t) => assert_eq!(t, &redact_config(&written).0),
        _ => panic!("a redacted local copy"),
    }
    let (st, a) = config_save_step(st, SaveEvent::LocalSaved);
    assert!(matches!(a, SaveAction::Queue));
    let (_, a) = config_save_step(st, SaveEvent::Queued(Err(s("disk full"))));
    match a {
        SaveAction::Finish(Ok(m)) => assert_eq!(
            m,
            "Saved 1 change to Pal/Saved/Config/WindowsServer/PalWorldSettings.ini (previous file backed up as PalWorldSettings.ini.bak-20240101-000000). Discord notification warning: disk full"
        ),
        _ => panic!("the report"),
    }
}

#[test]
fn saving_reports_a_missing_file_and_a_failed_write() {
    let ups = vec![(s("A"), s("1"))];
    let (st, _) = config_save_start(ups.clone(), "cfg", false);
    let (_, a) = config_save_step(st, SaveEvent::Fetched(None));
    match a {
        SaveAction::Finish(Err(e)) => assert_eq!(e, "Couldn't find PalWorldSettings.ini to update."),
        _ => panic!("no file"),
    }
    let (st, _) = config_save_start(ups, "cfg", false);
    let (st, _) = config_save_step(st, SaveEvent::Fetched(Some((INI.as_bytes().to_vec(), s("t")))));
    let (st, _) = config_save_step(st, SaveEvent::BackupSent);
    let (_, a) = config_save_step(st, SaveEvent::Written(Err(s("denied"))));
    match a {
        SaveAction::Finish(Err(e)) => assert_eq!(e, "denied"),
        _ => panic!("the write failed"),
    }
}

#[test]
fn saving_stops_on_an_unreadable_file() {
    let (st, _) = config_save_start(vec![(s("A"), s("1"))], "cfg", false);
    let (st, _) = config_save_step(st, SaveEvent::Fetched(Some((b"no options here".to_vec(), s("t")))));
    let (_, a) = config_save_step(st, SaveEvent::BackupSent);
    assert!(matches!(a, SaveAction::Finish(Err(_))));
}

// ---------------------------------------------------------------- guarded restart

fn report(pushed: bool) -> BackupReport {
    BackupReport {
        timestamp: s("t"),
        worlds: vec![s("W")],
        players: 0,
        configs: vec![],
        archives: vec![ArchiveInfo { name: s("t_W.tar.gz"), bytes: 3 }],
        warnings: vec![],
        committed: true,
        pushed,
        message: s("m"),
    }
}

#[test]
fn restart_needs_an_empty_server_and_a_verified_backup() {
    let (st, a) = restart_start();
    assert!(matches!(a, RestartAction::CountPlayers));
    let (_, a) = restart_step(st, RestartEvent::Players(Ok(2)));
    match a {
        RestartAction::Finish(Err(e)) => assert_eq!(e, "Restart blocked: 2 player(s) are online. Wait until the server is empty."),
        _ => panic!("blocked"),
    }
    let (st, _) = restart_start();
    let (st, a) = restart_step(st, RestartEvent::Players(Ok(0)));
    assert!(matches!(a, RestartAction::Backup(false)));
    let (_, a) = restart_step(st, RestartEvent::BackedUp(Ok(report(false))));
    match a {
        RestartAction::Finish(Err(e)) => assert_eq!(e, "Restart blocked: the verified backup was not pushed off-site."),
        _ => panic!("not off-site"),
    }
}

#[test]
fn restart_runs_through_to_recovery() {
    let (st, _) = restart_start();
    let (st, _) = restart_step(st, RestartEvent::Players(Ok(0)));
    let (st, a) = restart_step(st, RestartEvent::BackedUp(Ok(report(true))));
    assert!(matches!(a, RestartAction::CountPlayers));
    let (st, a) = restart_step(st, RestartEvent::Players(Ok(0)));
    match &a {
        RestartAction::Shutdown(w, m) => {
            assert_eq!(*w, 10);
            assert_eq!(m, "Verified backup complete - server restarting in 10 seconds");
        }
        _ => panic!("shutdown"),
    }
    let (st, a) = restart_step(st, RestartEvent::ShutdownSent(Ok(())));
    assert!(matches!(a, RestartAction::Probe));
    let (st, a) = restart_step(st, RestartEvent::Probed { info_ok: true, elapsed_secs: 3 });
    assert!(matches!(a, RestartAction::Probe));
    let (st, a) = restart_step(st, RestartEvent::Probed { info_ok: false, elapsed_secs: 6 });
    assert!(matches!(a, RestartAction::Probe));
    let (_, a) = restart_step(st, RestartEvent::Probed { info_ok: true, elapsed_secs: 40 });
    match a {
        RestartAction::Finish(Ok(r)) => {
            assert_eq!(r.recovery_seconds, 40);
            assert_eq!(r.player_checks, 2);
            assert_eq!(r.waittime, 10);
            assert!(r.backup.pushed);
        }
        _ => panic!("recovered"),
    }
}

#[test]
fn restart_gives_up_after_the_limit_and_on_late_players() {
    let (st, _) = restart_start();
    let (st, _) = restart_step(st, RestartEvent::Players(Ok(0)));
    let (st, _) = restart_step(st, RestartEvent::BackedUp(Ok(report(true))));
    let (_, a) = restart_step(st, RestartEvent::Players(Ok(1)));
    match a {
        RestartAction::Finish(Err(e)) => assert_eq!(e, "Backup completed, but restart was blocked because 1 player(s) joined."),
        _ => panic!("joined"),
    }
    let (st, _) = restart_start();
    let (st, _) = restart_step(st, RestartEvent::Players(Ok(0)));
    let (st, _) = restart_step(st, RestartEvent::BackedUp(Ok(report(true))));
    let (st, _) = restart_step(st, RestartEvent::Players(Ok(0)));
    let (st, _) = restart_step(st, RestartEvent::ShutdownSent(Ok(())));
    let (_, a) = restart_step(st, RestartEvent::Probed { info_ok: false, elapsed_secs: 181 });
    match a {
        RestartAction::Finish(Err(e)) => assert_eq!(
            e,
            "Backup is safe and shutdown was accepted, but server recovery was not confirmed within 180 seconds (shutdown observed: true)."
        ),
        _ => panic!("timed out"),
    }
}

// ---------------------------------------------------------------- restore

#[test]
fn restore_stops_the_server_before_uploading() {
    let mut set = AppSettings::default();
    set.rcon_enabled = true;
    set.rcon_host = s("h");
    let (st, a) = restore_start(&set, true, vec![s("Level.sav"), s("Players/A.sav")]);
    assert!(matches!(a, RestoreAction::StopViaRcon));
    let (st, a) = restore_step(st, RestoreEvent::StopSent);
    assert!(matches!(a, RestoreAction::Wait(20)));
    let (st, a) = restore_step(st, RestoreEvent::Waited);
    match &a {
        RestoreAction::ListWorlds(d) => assert_eq!(d, "Pal/Saved/SaveGames/0"),
        _ => panic!("list"),
    }
    let (st, a) = restore_step(st, RestoreEvent::Listed(vec![s("a.txt"), s("0123ABCD")]));
    match &a {
        RestoreAction::Upload(0, p) => assert_eq!(p, "Pal/Saved/SaveGames/0/0123ABCD/Level.sav"),
        _ => panic!("first upload"),
    }
    let (st, a) = restore_step(st, RestoreEvent::Uploaded(Ok(())));
    match &a {
        RestoreAction::Upload(1, p) => assert_eq!(p, "Pal/Saved/SaveGames/0/0123ABCD/Players/A.sav"),
        _ => panic!("second upload"),
    }
    let (_, a) = restore_step(st, RestoreEvent::Uploaded(Ok(())));
    match a {
        RestoreAction::Finish(Ok(r)) => {
            assert_eq!(r.files_restored, 2);
            assert!(r.server_stopped);
            assert_eq!(r.world_folder, "0123ABCD");
            assert!(r.warnings.is_empty());
        }
        _ => panic!("done"),
    }
}

#[test]
fn restore_without_a_channel_warns_and_needs_a_world_folder() {
    let set = AppSettings::default();
    let (st, a) = restore_start(&set, false, vec![s("Level.sav")]);
    assert!(matches!(a, RestoreAction::ListWorlds(_)));
    assert_eq!(st.warnings.len(), 1);
    let (_, a) = restore_step(st, RestoreEvent::Listed(vec![s("x.bak")]));
    match a {
        RestoreAction::Finish(Err(e)) => assert_eq!(e, "Couldn't find a world folder on the server to restore into."),
        _ => panic!("no world folder"),
    }
}

// ---------------------------------------------------------------- pull

#[test]
fn pull_takes_the_first_config_dir_and_only_player_saves() {
    let (st, a) = pull_start("", "saves");
    assert!(matches!(&a, PullAction::Download(p) if p == "Pal/Saved/Config/LinuxServer/PalWorldSettings.ini"));
    let (st, a) = pull_step(st, PullEvent::Downloaded(Some(b"ini".to_vec())));
    assert!(matches!(&a, PullAction::Download(p) if p == "Pal/Saved/Config/LinuxServer/GameUserSettings.ini"));
    let (st, a) = pull_step(st, PullEvent::Downloaded(None));
    assert!(matches!(&a, PullAction::Download(p) if p == "Pal/Saved/Config/LinuxServer/Engine.ini"));
    let (st, a) = pull_step(st, PullEvent::Downloaded(Some(b"e".to_vec())));
    assert!(matches!(&a, PullAction::List(p) if p == "saves"));
    let (st, a) = pull_step(st, PullEvent::Listed(vec![s("W1"), s("W2")]));
    assert!(matches!(&a, PullAction::Download(p) if p == "saves/W1/Level.sav"));
    let (st, a) = pull_step(st, PullEvent::Downloaded(None));
    assert!(matches!(&a, PullAction::Download(p) if p == "saves/W2/Level.sav"));
    let (st, a) = pull_step(st, PullEvent::Downloaded(Some(sav())));
    assert!(matches!(&a, PullAction::Download(p) if p == "saves/W2/LevelMeta.sav"));
    let (st, a) = pull_step(st, PullEvent::Downloaded(Some(vec![1])));
    assert!(matches!(&a, PullAction::Download(p) if p == "saves/W2/WorldOption.sav"));
    let (st, a) = pull_step(st, PullEvent::Downloaded(None));
    assert!(matches!(&a, PullAction::List(p) if p == "saves/W2/Players"));
    let (st, a) = pull_step(st, PullEvent::Listed(vec![s("notes.txt"), s("P1.sav")]));
    assert!(matches!(&a, PullAction::Download(p) if p == "saves/W2/Players/P1.sav"));
    let (st, a) = pull_step(st, PullEvent::Downloaded(Some(vec![2])));
    assert!(matches!(a, PullAction::Done));
    let names: Vec<&str> = st.configs.iter().map(|(n, _)| n.as_str()).collect();
    assert_eq!(names, vec!["PalWorldSettings.ini", "Engine.ini"]);
    assert_eq!(st.worlds.len(), 1);
    assert_eq!(st.worlds[0].guid, "W2");
    assert_eq!(st.worlds[0].level, Some(sav()));
    let others: Vec<&str> = st.worlds[0].others.iter().map(|(n, _)| n.as_str()).collect();
    assert_eq!(others, vec!["LevelMeta.sav", "Players/P1.sav"]);
}

// ---------------------------------------------------------------- backup run

fn backup_settings() -> AppSettings {
    let mut set = AppSettings::default();
    set.sftp_host = s("host");
    set.sftp_user = s("user");
    set.repo_local_path = s("repo");
    set.rest_enabled = true;
    set.rest_url = s("http://h:8212");
    set.repo_remote = s("git@example:r.git");
    set
}

fn run_to_pull(set: &AppSettings) -> BackupRun {
    let (st, a) = backup_start(set, true);
    assert!(matches!(a, BackupAction::Quiesce(Quiesce::RestSave)));
    let (st, a) = backup_step(st, BackupEvent::Quiesced(Ok(())));
    assert!(matches!(a, BackupAction::Wait(6)));
    let (st, a) = backup_step(st, BackupEvent::Waited);
    assert!(matches!(a, BackupAction::Pull));
    st
}

fn world(guid: &str, level: Vec<u8>) -> PulledWorld {
    PulledWorld { guid: s(guid), level: Some(level), others: vec![(s("Players/P.sav"), vec![1])] }
}

#[test]
fn backup_refuses_missing_settings() {
    let (_, a) = backup_start(&AppSettings::default(), false);
    match a {
        BackupAction::Finish(Err(e)) => assert_eq!(e, "Set your SFTP host and username in Settings first."),
        _ => panic!("settings first"),
    }
}

#[test]
fn backup_retries_a_torn_pull_once_after_a_save() {
    let set = backup_settings();
    let st = run_to_pull(&set);
    let torn = vec![0u8; 30];
    let (st, a) = backup_step(st, BackupEvent::Pulled(Ok((vec![], vec![world("AAAA1111BBBB", torn.clone())]))));
    assert!(matches!(a, BackupAction::Resave(true)));
    let (st, a) = backup_step(st, BackupEvent::Resaved);
    assert!(matches!(a, BackupAction::Wait(8)));
    let (st, a) = backup_step(st, BackupEvent::Waited);
    assert!(matches!(a, BackupAction::Pull));
    let (st, a) = backup_step(st, BackupEvent::Pulled(Ok((vec![], vec![world("AAAA1111BBBB", torn)]))));
    assert!(matches!(a, BackupAction::PrepareRepo));
    assert_eq!(st.warnings.len(), 1);
    assert!(st.warnings[0].starts_with("World AAAA1111BBBB: Level.sav failed the integrity check"));
    assert_eq!(st.worlds[0].level, None);
    let (_, a) = backup_step(st, BackupEvent::Prepared(Ok(s("20240101-000000"))));
    match a {
        BackupAction::Finish(Err(e)) => assert!(e.starts_with("Nothing captured")),
        _ => panic!("nothing left to capture"),
    }
}

#[test]
fn backup_writes_configs_archives_then_commits_and_pushes() {
    let set = backup_settings();
    let st = run_to_pull(&set);
    let ini = "[S]\nOptionSettings=(AdminPassword=\"pw\")\n";
    let configs = vec![(s("PalWorldSettings.ini"), ini.as_bytes().to_vec()), (s("notes.bin"), vec![9])];
    let (st, a) = backup_step(st, BackupEvent::Pulled(Ok((configs, vec![world("0123456789AB", sav())]))));
    assert!(matches!(a, BackupAction::PrepareRepo));
    let (st, a) = backup_step(st, BackupEvent::Prepared(Ok(s("20240101-000000"))));
    match &a {
        BackupAction::WriteText(n, t) => {
            assert_eq!(n, "PalWorldSettings.ini");
            assert_eq!(t, "[S]\nOptionSettings=(AdminPassword=\"<REDACTED>\")\n");
        }
        _ => panic!("the redacted ini"),
    }
    let (st, a) = backup_step(st, BackupEvent::Wrote(Ok(())));
    assert!(matches!(&a, BackupAction::WriteBytes(n, d) if n == "notes.bin" && d == &vec![9]));
    let (st, a) = backup_step(st, BackupEvent::Wrote(Ok(())));
    match &a {
        BackupAction::WriteSidecar(t) => assert!(t.ends_with("[PalWorldSettings.ini]\nAdminPassword=pw\n\n")),
        _ => panic!("the sidecar"),
    }
    let (st, a) = backup_step(st, BackupEvent::Wrote(Ok(())));
    match &a {
        BackupAction::WriteArchive(n, b) => {
            assert_eq!(n, "20240101-000000_01234567.tar.gz");
            let files = untar_gz(b).unwrap();
            assert_eq!(files, vec![(s("Level.sav"), sav()), (s("Players/P.sav"), vec![1])]);
        }
        _ => panic!("the archive"),
    }
    let (st, a) = backup_step(st, BackupEvent::Wrote(Ok(())));
    assert!(matches!(a, BackupAction::Tidy(20)));
    let (st, a) = backup_step(st, BackupEvent::Tidied);
    match &a {
        BackupAction::Commit(m) => assert_eq!(m, "backup 20240101-000000 — 1 world(s), 1 player(s), 2 config(s)"),
        _ => panic!("commit"),
    }
    let (st, a) = backup_step(st, BackupEvent::Committed(Ok(true)));
    assert!(matches!(a, BackupAction::CheckRemote));
    let (st, a) = backup_step(st, BackupEvent::RemoteChecked(true));
    assert!(matches!(a, BackupAction::Push));
    let (_, a) = backup_step(st, BackupEvent::Pushed(Ok(())));
    match a {
        BackupAction::Finish(Ok(r)) => {
            assert!(r.committed && r.pushed);
            assert_eq!(r.worlds, vec![s("0123456789AB")]);
            assert_eq!(r.configs, vec![s("PalWorldSettings.ini"), s("notes.bin")]);
            assert_eq!(r.players, 1);
            assert_eq!(r.archives.len(), 1);
            assert!(r.warnings.is_empty());
        }
        _ => panic!("report"),
    }
}

#[test]
fn backup_has_a_large_level_described_before_archiving() {
    let set = backup_settings();
    let st = run_to_pull(&set);
    let mut big = sav();
    big.resize(99614721, 7);
    let (st, _) = backup_step(st, BackupEvent::Pulled(Ok((vec![], vec![world("0123456789AB", big)]))));
    let (_, a) = backup_step(st, BackupEvent::Prepared(Ok(s("ts"))));
    assert!(matches!(a, BackupAction::DescribeSize(99614721)));
}

#[test]
fn backup_warns_on_an_unpushed_commit() {
    let set = backup_settings();
    let st = run_to_pull(&set);
    let (st, _) = backup_step(st, BackupEvent::Pulled(Ok((vec![], vec![world("0123456789AB", sav())]))));
    let (st, _) = backup_step(st, BackupEvent::Prepared(Ok(s("ts"))));
    let (st, _) = backup_step(st, BackupEvent::Wrote(Ok(())));
    let (st, _) = backup_step(st, BackupEvent::Tidied);
    let (st, _) = backup_step(st, BackupEvent::Committed(Ok(true)));
    let (_, a) = backup_step(st, BackupEvent::RemoteChecked(false));
    match a {
        BackupAction::Finish(Ok(r)) => {
            assert!(r.committed && !r.pushed);
            assert_eq!(
                r.warnings.last().unwrap(),
                "Committed locally but not pushed — set a remote and check your git credentials."
            );
        }
        _ => panic!("report"),
    }
}

// ---------------------------------------------------------------- laws on values

#[test]
fn applying_updates_twice_is_applying_them_once() {
    let text = "[S]\nOptionSettings=(A=1,B=\"x\")\n";
    let ups = vec![(s("B"), s("\"y\"")), (s("C"), s("3")), (s("B"), s("\"z\""))];
    let mut once: PalConfig = parse(text).unwrap();
    apply_updates(&mut once, &ups);
    let mut twice: PalConfig = parse(text).unwrap();
    apply_updates(&mut twice, &ups);
    apply_updates(&mut twice, &ups);
    assert_eq!(once.header, twice.header);
    assert_eq!(once.pairs, twice.pairs);
}

#[test]
fn redaction_round_trip_with_an_unterminated_value() {
    let text = "OptionSettings=(ServerPassword=\"join\",AdminPassword=\"unterminated)";
    let (out, secrets) = redact_config(text);
    assert_eq!(out, "OptionSettings=(ServerPassword=\"<REDACTED>\",AdminPassword=\"unterminated)");
    assert_eq!(restore_secrets(&out, &secrets), text);
}

#[test]
fn unusual_keys_and_raw_values_survive_a_round_trip() {
    let text = "; comment\n[S]\nOptionSettings=(\"a,b\"=1,X=(1,2),Y= \"v\",,Z=a=b)\n";
    let first = parse(text).unwrap();
    assert_eq!(first.pairs[0], (s("\"a,b\""), s("1")));
    assert_eq!(first.pairs[2], (s("Y"), s(" \"v\"")));
    assert_eq!(first.pairs[3], (s("Z"), s("a=b")));
    let out = serialize(&first).unwrap();
    let again = parse(&out).unwrap();
    assert_eq!(again.header, first.header);
    assert_eq!(again.pairs, first.pairs);
}

#[test]
fn backup_names_the_missing_settings() {
    let mut set = AppSettings::default();
    set.sftp_host = s("host");
    set.sftp_user = s("user");
    let (_, a) = backup_start(&set, false);
    match a {
        BackupAction::Finish(Err(e)) => assert_eq!(e, "Choose a local backup folder in Settings first."),
        _ => panic!("folder first"),
    }
}

#[test]
fn backup_without_a_channel_warns_and_reports_it() {
    let mut set = backup_settings();
    set.rest_enabled = false;
    set.repo_remote = s("");
    let (st, a) = backup_start(&set, false);
    assert!(matches!(a, BackupAction::Wait(0)));
    assert_eq!(
        st.warnings,
        vec![s("No live channel (REST or RCON) configured — couldn't force a save first. Files may be mid-write. Enable RCON or REST for guaranteed integrity, or turn on 'stop before backup'.")]
    );
    let (st, _) = backup_step(st, BackupEvent::Waited);
    let configs = vec![(s("Engine.ini"), b"[x]\n".to_vec())];
    let (st, _) = backup_step(st, BackupEvent::Pulled(Ok((configs, vec![]))));
    let (st, a) = backup_step(st, BackupEvent::Prepared(Ok(s("ts"))));
    assert!(matches!(a, BackupAction::WriteText(_, _)));
    let (st, a) = backup_step(st, BackupEvent::Wrote(Ok(())));
    assert!(matches!(a, BackupAction::Tidy(20)));
    let (st, _) = backup_step(st, BackupEvent::Tidied);
    let (_, a) = backup_step(st, BackupEvent::Committed(Ok(true)));
    match a {
        BackupAction::Finish(Ok(r)) => {
            assert_eq!(r.configs, vec![s("Engine.ini")]);
            assert!(r.worlds.is_empty());
            assert_eq!(r.message, "backup ts — 0 world(s), 0 player(s), 1 config(s)");
            assert_eq!(r.warnings.len(), 1);
            assert!(!r.pushed);
        }
        _ => panic!("report"),
    }
}

#[test]
fn pull_skips_a_world_without_its_level_and_keeps_listing_order() {
    let (st, _) = pull_start("cfg", "saves");
    let (st, _) = pull_step(st, PullEvent::Downloaded(None));
    let (st, a) = pull_step(st, PullEvent::Listed(vec![s("A"), s("B"), s("C")]));
    assert!(matches!(&a, PullAction::Download(p) if p == "saves/A/Level.sav"));
    let mut st = st;
    for guid in ["A", "C"] {
        let (n, _) = pull_step(st, PullEvent::Downloaded(Some(sav())));
        let (n, _) = pull_step(n, PullEvent::Downloaded(None));
        let (n, _) = pull_step(n, PullEvent::Downloaded(None));
        let (n, a) = pull_step(n, PullEvent::Listed(vec![]));
        st = n;
        if guid == "A" {
            assert!(matches!(&a, PullAction::Download(p) if p == "saves/B/Level.sav"));
            let (n, a) = pull_step(st, PullEvent::Downloaded(None));
            assert!(matches!(&a, PullAction::Download(p) if p == "saves/C/Level.sav"));
            st = n;
        } else {
            assert!(matches!(a, PullAction::Done));
        }
    }
    assert!(st.configs.is_empty());
    let guids: Vec<&str> = st.worlds.iter().map(|w| w.guid.as_str()).collect();
    assert_eq!(guids, vec!["A", "C"]);
}

#[test]
fn commit_runs_only_when_status_shows_a_change() {
    let (st, a) = commit_start(s("msg"));
    assert!(matches!(a, CommitAction::Run(GitOp::StageAll)));
    let (st, a) = commit_step(st, Ok(s("")));
    assert!(matches!(a, CommitAction::Run(GitOp::Status)));
    let (_, a) = commit_step(st, Ok(s("  \n")));
    assert!(matches!(a, CommitAction::Finish(Ok(false))));
    let (st, _) = commit_start(s("msg"));
    let (st, _) = commit_step(st, Ok(s("")));
    let (st, a) = commit_step(st, Ok(s(" M config/Engine.ini\n")));
    assert!(matches!(&a, CommitAction::Run(GitOp::Commit(m)) if m == "msg"));
    let (_, a) = commit_step(st, Ok(s("")));
    assert!(matches!(a, CommitAction::Finish(Ok(true))));
    let (st, _) = commit_start(s("msg"));
    let (_, a) = commit_step(st, Err(s("git add -A failed: boom")));
    assert!(matches!(a, CommitAction::Finish(Err(e)) if e == "git add -A failed: boom"));
}

#[test]
fn a_snapshot_name_with_a_colon_round_trips() {
    let files = vec![(s("Level.sav"), sav()), (s("Players/a:b.sav"), vec![3, 4])];
    let bytes = make_targz(&files).unwrap();
    assert_eq!(untar_gz(&bytes).unwrap(), files);
}
