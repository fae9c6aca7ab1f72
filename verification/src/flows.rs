//! The long-running commands as step machines: saving the server settings, a guarded
//! restart, restoring a snapshot, pulling the server's files and a whole backup run. Each
//! machine takes what came back from the last action and names the next one; the app
//! performs the actions (transfers, waits, file and process work) and reports back.
use vstd::prelude::*;
use crate::backup::{
    err_no_world_folder, live_channels, pick_world_folder, rcon_usable, redact_config, redact_spec,
    extra_config_files, extra_world_files, is_player_save, remote_path, rest_usable, restore_message,
    restore_message_spec, restore_unstopped_warning, world_folder_index, BackupReport, PulledWorld,
    RestoreReport,
};
use crate::archive::file_entries;
use crate::config_store::AppSettings;
use crate::commands::{
    config_candidates, config_saved_message, config_saved_spec, msg_no_snapshot, msg_not_offsite,
    msg_players_joined, msg_players_online, msg_recovery_timeout, require_empty_server,
    require_verified_snapshot, restart_deadline, restart_poll, settings_backup_path,
    settings_ini_path, RestartWatch, SafeRestartReport, RESTART_WAITTIME,
};
use crate::palconfig::{
    apply_all, apply_updates, pairs_model, parse, parse_spec, serialize, serialize_spec,
    PalConfigModel,
};
use crate::text::{ends_with, from_utf8_lossy, texts, utf8_lossy};

verus! {

// ---------------------------------------------------------------- saving the settings

/// Where the config directories are looked for: the configured one, or else the Linux
/// and then the Windows server directory.
pub open spec fn candidate_dirs(config_dir: Seq<char>) -> Seq<Seq<char>> {
    if config_dir.len() > 0 {
        seq![config_dir]
    } else {
        seq!["Pal/Saved/Config/LinuxServer"@, "Pal/Saved/Config/WindowsServer"@]
    }
}

/// The settings file text that a save writes: the current file read as UTF-8 (lossily),
/// parsed, updated and written out again; or the error that stops it.
pub open spec fn saved_text(
    current: Seq<u8>,
    updates: Seq<(Seq<char>, Seq<char>)>,
) -> Result<Seq<char>, Seq<char>> {
    match parse_spec(utf8_lossy(current)) {
        Err(e) => Err(e),
        Ok(m) => serialize_spec(PalConfigModel { header: m.header, pairs: apply_all(m.pairs, updates) }),
    }
}

/// Where a settings save stands.
#[derive(Debug, PartialEq, Eq, Structural)]
pub enum SaveStage {
    /// Downloading the settings file from the current candidate directory.
    Fetch,
    /// Keeping a copy of the file as it was.
    Backup,
    /// Writing the updated file.
    Write,
    /// Keeping a redacted copy in the local backup repository.
    Local,
    /// Queueing the change notification.
    Notify,
    /// Finished.
    Done,
}

/// A settings save in progress.
pub struct ConfigSave {
    pub updates: Vec<(String, String)>,
    pub candidates: Vec<String>,
    pub cand: usize,
    pub stage: SaveStage,
    /// Whether a local backup repository is configured.
    pub repo_set: bool,
    /// The file as downloaded.
    pub fetched: Vec<u8>,
    /// The settings file's path on the server.
    pub path: String,
    /// The time stamp of the kept copy.
    pub ts: String,
    /// What was written.
    pub written: String,
}

/// What the app reports back to a settings save.
pub enum SaveEvent {
    /// The file's bytes and the time stamp taken then, or `None` when it is not there.
    Fetched(Option<(Vec<u8>, String)>),
    /// The kept copy was sent (its outcome does not matter).
    BackupSent,
    /// The outcome of writing the updated file.
    Written(Result<(), String>),
    /// The local copy was written (its outcome does not matter).
    LocalSaved,
    /// The outcome of queueing the notification.
    Queued(Result<(), String>),
}

/// What a settings save asks of the app.
pub enum SaveAction {
    /// Download the file at this path, if it is there.
    Download(String),
    /// Upload these bytes to this path: the copy of the file as it was.
    UploadBackup(String, Vec<u8>),
    /// Upload this text to this path: the updated file.
    Upload(String, String),
    /// Write this redacted text as the repository's copy of the settings.
    SaveLocal(String),
    /// Queue the change notification for the updates.
    Queue,
    /// Stop with this outcome.
    Finish(Result<String, String>),
}

/// The state is well formed: a candidate is current.
pub open spec fn save_wf(st: ConfigSave) -> bool {
    st.cand < st.candidates@.len()
}

/// The event answers what the stage asked.
pub open spec fn save_event_fits(st: ConfigSave, ev: SaveEvent) -> bool {
    &&& save_wf(st)
    &&& st.stage != SaveStage::Done
    &&& st.stage == SaveStage::Fetch ==> ev is Fetched
    &&& st.stage == SaveStage::Backup ==> ev is BackupSent
    &&& st.stage == SaveStage::Write ==> ev is Written
    &&& st.stage == SaveStage::Local ==> ev is LocalSaved
    &&& st.stage == SaveStage::Notify ==> ev is Queued
}

fn save_done(st: ConfigSave, outcome: Result<String, String>) -> (r: (ConfigSave, SaveAction))
    ensures
        r.0 == (ConfigSave { stage: SaveStage::Done, ..st }),
        r.1 == SaveAction::Finish(outcome),
{
    (ConfigSave { stage: SaveStage::Done, ..st }, SaveAction::Finish(outcome))
}

/// The answer to a save with no updates, which ends before anything else is looked at.
pub fn no_changes(updates: &[(String, String)]) -> (r: Option<String>)
    ensures
        updates@.len() == 0 <==> r is Some,
        r matches Some(m) ==> m@ == "No changes."@,
{
    if updates.len() == 0 {
        Some(String::from_str("No changes."))
    } else {
        None
    }
}

/// A settings save starts: with no updates it ends at once with "No changes."; else it
/// looks for the settings file in the first candidate directory.
pub fn config_save_start(updates: Vec<(String, String)>, config_dir: &str, repo_set: bool) -> (r: (
    ConfigSave,
    SaveAction,
))
    ensures
        save_wf(r.0),
        r.0.updates == updates,
        r.0.repo_set == repo_set,
        texts(r.0.candidates@) == candidate_dirs(config_dir@),
        updates@.len() == 0 ==> r.0.stage == SaveStage::Done && (r.1 matches SaveAction::Finish(
            Ok(m),
        ) && m@ == "No changes."@),
        updates@.len() > 0 ==> r.0.stage == SaveStage::Fetch && r.0.cand == 0 && (r.1 matches SaveAction::Download(
            p,
        ) && p@ == candidate_dirs(config_dir@)[0] + "/PalWorldSettings.ini"@),
{
    let candidates = config_candidates(config_dir);
    proof {
        assert(texts(candidates@) =~= candidate_dirs(config_dir@));
    }
    let first = settings_ini_path(&candidates[0]);
    let st = ConfigSave {
        updates,
        candidates,
        cand: 0,
        stage: SaveStage::Fetch,
        repo_set,
        fetched: Vec::new(),
        path: String::new(),
        ts: String::new(),
        written: String::new(),
    };
    match no_changes(st.updates.as_slice()) {
        Some(m) => save_done(st, Ok(m)),
        None => (st, SaveAction::Download(first)),
    }
}

/// One step of a settings save. The first candidate directory that holds the file is
/// used; a copy of the file as it was is uploaded before anything is written; the only
/// write is the file parsed, updated and written out again; an error ends the save, so
/// nothing is written after one; a redacted copy goes to the local repository when one is
/// configured; the notification is queued last and its failure only adds a warning.
pub fn config_save_step(st: ConfigSave, ev: SaveEvent) -> (r: (ConfigSave, SaveAction))
    requires
        save_event_fits(st, ev),
    ensures
        save_wf(r.0),
        r.0.updates == st.updates && r.0.candidates == st.candidates && r.0.repo_set
            == st.repo_set,
        r.1 is Finish <==> r.0.stage == SaveStage::Done,
        ev matches SaveEvent::Fetched(Some((b, ts))) ==> r.0.stage == SaveStage::Backup && r.0.cand
            == st.cand && r.0.fetched@ == b@ && r.0.ts@ == ts@ && r.0.path@
            == st.candidates@[st.cand as int]@ + "/PalWorldSettings.ini"@ && (r.1 matches SaveAction::UploadBackup(
            p,
            x,
        ) && p@ == st.candidates@[st.cand as int]@ + "/PalWorldSettings.ini.bak-"@ + ts@ && x@
            == b@),
        ev matches SaveEvent::Fetched(None) ==> (if st.cand + 1 < st.candidates@.len() {
            r.0.stage == SaveStage::Fetch && r.0.cand == st.cand + 1 && (r.1 matches SaveAction::Download(
                p,
            ) && p@ == st.candidates@[st.cand + 1]@ + "/PalWorldSettings.ini"@)
        } else {
            r.1 matches SaveAction::Finish(Err(m)) && m@ == "Couldn't find PalWorldSettings.ini to update."@
        }),
        ev is BackupSent ==> r.0.path == st.path && r.0.ts == st.ts && match saved_text(
            st.fetched@,
            pairs_model(st.updates@),
        ) {
            Err(e) => r.1 matches SaveAction::Finish(Err(x)) && x@ == e,
            Ok(t) => r.0.stage == SaveStage::Write && r.0.written@ == t && (r.1 matches SaveAction::Upload(
                p,
                x,
            ) && p == st.path && x@ == t),
        },
        ev matches SaveEvent::Written(Err(e)) ==> r.1 matches SaveAction::Finish(Err(x)) && x@
            == e@,
        ev matches SaveEvent::Written(Ok(())) ==> r.0.path == st.path && r.0.ts == st.ts && (if st.repo_set {
            r.0.stage == SaveStage::Local && (r.1 matches SaveAction::SaveLocal(x) && x@
                == redact_spec(st.written@).0)
        } else {
            r.0.stage == SaveStage::Notify && r.1 is Queue
        }),
        ev is LocalSaved ==> r.0.stage == SaveStage::Notify && r.1 is Queue && r.0.path == st.path
            && r.0.ts == st.ts,
        ev matches SaveEvent::Queued(q) ==> r.1 matches SaveAction::Finish(Ok(m)) && m@
            == config_saved_spec(
            st.updates@.len(),
            st.path@,
            st.ts@,
            match q {
                Err(w) => Some(w@),
                Ok(_) => None,
            },
        ),
        r.1 is UploadBackup ==> st.stage == SaveStage::Fetch,
        r.1 is Upload ==> st.stage == SaveStage::Backup,
{
    match ev {
        SaveEvent::Fetched(Some((bytes, ts))) => {
            let dir = &st.candidates[st.cand];
            let keep = settings_backup_path(dir, &ts);
            let path = settings_ini_path(dir);
            let copy = bytes.clone();
            let next = ConfigSave { stage: SaveStage::Backup, fetched: bytes, path, ts, ..st };
            (next, SaveAction::UploadBackup(keep, copy))
        },
        SaveEvent::Fetched(None) => {
            if st.cand < st.candidates.len() - 1 {
                let p = settings_ini_path(&st.candidates[st.cand + 1]);
                (ConfigSave { cand: st.cand + 1, ..st }, SaveAction::Download(p))
            } else {
                save_done(st, Err(String::from_str("Couldn't find PalWorldSettings.ini to update.")))
            }
        },
        SaveEvent::BackupSent => {
            let text = from_utf8_lossy(st.fetched.as_slice());
            match parse(&text) {
                Err(e) => save_done(st, Err(e)),
                Ok(mut cfg) => {
                    apply_updates(&mut cfg, st.updates.as_slice());
                    proof {
                        assert(cfg@ == PalConfigModel {
                            header: parse_spec(utf8_lossy(st.fetched@))->Ok_0.header,
                            pairs: apply_all(
                                parse_spec(utf8_lossy(st.fetched@))->Ok_0.pairs,
                                pairs_model(st.updates@),
                            ),
                        });
                    }
                    match serialize(&cfg) {
                        Err(e) => save_done(st, Err(e)),
                        Ok(out) => {
                            let path = st.path.clone();
                            let body = out.clone();
                            (
                                ConfigSave { stage: SaveStage::Write, written: out, ..st },
                                SaveAction::Upload(path, body),
                            )
                        },
                    }
                },
            }
        },
        SaveEvent::Written(Err(e)) => save_done(st, Err(e)),
        SaveEvent::Written(Ok(())) => {
            if st.repo_set {
                let (redacted, _) = redact_config(&st.written);
                (ConfigSave { stage: SaveStage::Local, ..st }, SaveAction::SaveLocal(redacted))
            } else {
                (ConfigSave { stage: SaveStage::Notify, ..st }, SaveAction::Queue)
            }
        },
        SaveEvent::LocalSaved => (ConfigSave { stage: SaveStage::Notify, ..st }, SaveAction::Queue),
        SaveEvent::Queued(q) => {
            let m = match q {
                Err(w) => config_saved_message(st.updates.len(), &st.path, &st.ts, Some(w.as_str())),
                Ok(()) => config_saved_message(st.updates.len(), &st.path, &st.ts, None),
            };
            save_done(st, Ok(m))
        },
    }
}


// ---------------------------------------------------------------- guarded restart

/// The backup a restart may go on from: it captured a world, wrote an archive and was
/// pushed off-site.
pub open spec fn snapshot_verified(b: BackupReport) -> bool {
    b.worlds@.len() > 0 && b.archives@.len() > 0 && b.pushed
}

/// The words a restart warns the players with.
pub open spec fn restart_notice() -> Seq<char> {
    "Verified backup complete - server restarting in 10 seconds"@
}

/// Where a guarded restart stands.
#[derive(Debug, PartialEq, Eq, Structural)]
pub enum RestartStage {
    /// Counting the players before the backup.
    FirstCount,
    /// Backing up.
    Backup,
    /// Counting the players after the backup.
    SecondCount,
    /// Asking the server to shut down.
    Shutdown,
    /// Waiting for the server to go down and come back.
    Watch,
    /// Finished.
    Done,
}

/// A guarded restart in progress.
pub struct SafeRestart {
    pub stage: RestartStage,
    /// The backup, once it is verified.
    pub backup: Option<BackupReport>,
    /// Whether the server has been seen down.
    pub saw_shutdown: bool,
}

/// What the app reports back to a guarded restart.
pub enum RestartEvent {
    /// How many players are online, or why that could not be found out.
    Players(Result<usize, String>),
    /// The backup run's outcome.
    BackedUp(Result<BackupReport, String>),
    /// The outcome of the shutdown request.
    ShutdownSent(Result<(), String>),
    /// After a pause, whether the server answered, and the seconds since the shutdown was
    /// requested.
    Probed { info_ok: bool, elapsed_secs: u64 },
}

/// What a guarded restart asks of the app.
pub enum RestartAction {
    /// Count the players online.
    CountPlayers,
    /// Run a backup with this stop-before-backup setting; a restart always turns it off,
    /// since the restart itself stops the server once the backup is verified.
    Backup(bool),
    /// Shut the server down after this many seconds, with this notice.
    Shutdown(u32, String),
    /// Pause, then ask the server for its info.
    Probe,
    /// Stop with this outcome.
    Finish(Result<SafeRestartReport, String>),
}

/// The state is well formed: from the second count on, the verified backup is held.
pub open spec fn restart_wf(st: SafeRestart) -> bool {
    (st.stage == RestartStage::SecondCount || st.stage == RestartStage::Shutdown || st.stage
        == RestartStage::Watch) ==> (st.backup matches Some(b) && snapshot_verified(b))
}

/// The event answers what the stage asked.
pub open spec fn restart_event_fits(st: SafeRestart, ev: RestartEvent) -> bool {
    &&& restart_wf(st)
    &&& st.stage != RestartStage::Done
    &&& (st.stage == RestartStage::FirstCount || st.stage == RestartStage::SecondCount) ==> ev is Players
    &&& st.stage == RestartStage::Backup ==> ev is BackedUp
    &&& st.stage == RestartStage::Shutdown ==> ev is ShutdownSent
    &&& st.stage == RestartStage::Watch ==> ev is Probed
}

/// A guarded restart starts by counting the players.
pub fn restart_start() -> (r: (SafeRestart, RestartAction))
    ensures
        r.0 == (SafeRestart { stage: RestartStage::FirstCount, backup: None, saw_shutdown: false }),
        r.1 is CountPlayers,
{
    (SafeRestart { stage: RestartStage::FirstCount, backup: None, saw_shutdown: false }, RestartAction::CountPlayers)
}

fn restart_fail(e: String) -> (r: (SafeRestart, RestartAction))
    ensures
        r.0.stage == RestartStage::Done,
        r.1 matches RestartAction::Finish(Err(x)) && x == e,
{
    (SafeRestart { stage: RestartStage::Done, backup: None, saw_shutdown: false }, RestartAction::Finish(Err(e)))
}

/// One step of a guarded restart. The backup runs only once the server was found empty;
/// the shutdown is asked for only after the backup was verified (a world archive, pushed
/// off-site) and a second count found the server still empty; then the server is polled
/// until it has been seen down and up again, or the recovery limit has passed. Any error
/// ends the restart.
pub fn restart_step(st: SafeRestart, ev: RestartEvent) -> (r: (SafeRestart, RestartAction))
    requires
        restart_event_fits(st, ev),
    ensures
        restart_wf(r.0),
        r.1 is Finish <==> r.0.stage == RestartStage::Done,
        ev matches RestartEvent::Players(Err(e)) ==> r.1 matches RestartAction::Finish(Err(x)) && x
            == e,
        st.stage == RestartStage::FirstCount ==> (ev matches RestartEvent::Players(Ok(n)) ==> if n
            == 0 {
            r.0.stage == RestartStage::Backup && (r.1 matches RestartAction::Backup(stop) && !stop)
        } else {
            r.1 matches RestartAction::Finish(Err(x)) && x@ == msg_players_online(n as nat)
        }),
        st.stage == RestartStage::SecondCount ==> (ev matches RestartEvent::Players(Ok(n)) ==> if n
            == 0 {
            r.0.stage == RestartStage::Shutdown && r.0.backup == st.backup && (r.1 matches RestartAction::Shutdown(
                w,
                m,
            ) && w == 10 && m@ == restart_notice())
        } else {
            r.1 matches RestartAction::Finish(Err(x)) && x@ == msg_players_joined(n as nat)
        }),
        ev matches RestartEvent::BackedUp(Err(e)) ==> r.1 matches RestartAction::Finish(Err(x)) && x
            == e,
        ev matches RestartEvent::BackedUp(Ok(b)) ==> (if snapshot_verified(b) {
            r.0.stage == RestartStage::SecondCount && r.0.backup == Some(b) && r.1 is CountPlayers
        } else if b.worlds@.len() == 0 || b.archives@.len() == 0 {
            r.1 matches RestartAction::Finish(Err(x)) && x@ == msg_no_snapshot()
        } else {
            r.1 matches RestartAction::Finish(Err(x)) && x@ == msg_not_offsite()
        }),
        ev matches RestartEvent::ShutdownSent(Err(e)) ==> r.1 matches RestartAction::Finish(Err(x))
            && x == e,
        ev matches RestartEvent::ShutdownSent(Ok(())) ==> r.0.stage == RestartStage::Watch
            && !r.0.saw_shutdown && r.0.backup == st.backup && r.1 is Probe,
        ev matches RestartEvent::Probed { info_ok, elapsed_secs } ==> (if info_ok && st.saw_shutdown {
            r.1 matches RestartAction::Finish(Ok(rep)) && Some(rep.backup) == st.backup
                && rep.player_checks == 2 && rep.waittime == 10 && rep.recovery_seconds
                == elapsed_secs
        } else if elapsed_secs >= 180 {
            r.1 matches RestartAction::Finish(Err(x)) && x@ == msg_recovery_timeout(
                st.saw_shutdown || !info_ok,
            )
        } else {
            r.0.stage == RestartStage::Watch && r.0.saw_shutdown == (st.saw_shutdown || !info_ok)
                && r.0.backup == st.backup && r.1 is Probe
        }),
        r.1 matches RestartAction::Backup(stop) ==> !stop,
        r.1 is Backup ==> st.stage == RestartStage::FirstCount && (ev matches RestartEvent::Players(
            Ok(n),
        ) && n == 0),
        r.1 is Shutdown ==> st.stage == RestartStage::SecondCount && (ev matches RestartEvent::Players(
            Ok(n),
        ) && n == 0) && (st.backup matches Some(b) && snapshot_verified(b)),
{
    match ev {
        RestartEvent::Players(Err(e)) => restart_fail(e),
        RestartEvent::Players(Ok(n)) => {
            let second = st.stage == RestartStage::SecondCount;
            match require_empty_server(n, second) {
                Err(e) => restart_fail(e),
                Ok(()) => {
                    if second {
                        (
                            SafeRestart { stage: RestartStage::Shutdown, ..st },
                            RestartAction::Shutdown(
                                RESTART_WAITTIME,
                                String::from_str("Verified backup complete - server restarting in 10 seconds"),
                            ),
                        )
                    } else {
                        (SafeRestart { stage: RestartStage::Backup, ..st }, RestartAction::Backup(false))
                    }
                },
            }
        },
        RestartEvent::BackedUp(Err(e)) => restart_fail(e),
        RestartEvent::BackedUp(Ok(b)) => match require_verified_snapshot(&b) {
            Err(e) => restart_fail(e),
            Ok(()) => (
                SafeRestart { stage: RestartStage::SecondCount, backup: Some(b), saw_shutdown: false },
                RestartAction::CountPlayers,
            ),
        },
        RestartEvent::ShutdownSent(Err(e)) => restart_fail(e),
        RestartEvent::ShutdownSent(Ok(())) => match restart_deadline(0, false) {
            Err(e) => restart_fail(e),
            Ok(()) => (SafeRestart { stage: RestartStage::Watch, saw_shutdown: false, ..st }, RestartAction::Probe),
        },
        RestartEvent::Probed { info_ok, elapsed_secs } => {
            match restart_poll(st.saw_shutdown, info_ok) {
                RestartWatch::Recovered => {
                    let backup = st.backup.unwrap();
                    let report = SafeRestartReport {
                        backup,
                        player_checks: 2,
                        waittime: RESTART_WAITTIME,
                        recovery_seconds: elapsed_secs,
                    };
                    (
                        SafeRestart { stage: RestartStage::Done, backup: None, saw_shutdown: true },
                        RestartAction::Finish(Ok(report)),
                    )
                },
                RestartWatch::Waiting(saw) => match restart_deadline(elapsed_secs, saw) {
                    Err(e) => restart_fail(e),
                    Ok(()) => (SafeRestart { saw_shutdown: saw, ..st }, RestartAction::Probe),
                },
            }
        },
    }
}


// ---------------------------------------------------------------- restoring a snapshot

/// Where a restore stands.
#[derive(Debug, PartialEq, Eq, Structural)]
pub enum RestoreStage {
    /// Asking the server to shut down.
    Stop,
    /// Giving the server time to stop.
    Settle,
    /// Listing the save folder for the world folder.
    List,
    /// Uploading the snapshot's files.
    Upload,
    /// Finished.
    Done,
}

/// A restore in progress.
pub struct Restore {
    pub stage: RestoreStage,
    /// Whether a live channel (REST or RCON) can stop the server.
    pub live: bool,
    /// Whether the shutdown was asked for.
    pub stopped: bool,
    pub save_games_path: String,
    /// The snapshot's file names, in its order.
    pub names: Vec<String>,
    /// The next file to upload.
    pub next: usize,
    /// The world folder restored into.
    pub world: String,
    pub warnings: Vec<String>,
}

/// What the app reports back to a restore.
pub enum RestoreEvent {
    /// The shutdown request was sent (its outcome does not matter).
    StopSent,
    /// The pause is over.
    Waited,
    /// The names in the save folder.
    Listed(Vec<String>),
    /// The outcome of the last upload.
    Uploaded(Result<(), String>),
}

/// What a restore asks of the app.
pub enum RestoreAction {
    /// Ask the server to shut down over REST.
    StopViaRest,
    /// Ask the server to shut down over RCON.
    StopViaRcon,
    /// Pause this many seconds.
    Wait(u64),
    /// List the names in this folder on the server.
    ListWorlds(String),
    /// Upload the snapshot's file with this index to this path.
    Upload(usize, String),
    /// Stop with this outcome.
    Finish(Result<RestoreReport, String>),
}

/// The warning when a restore cannot stop the server itself.
pub open spec fn restore_unstopped_text() -> Seq<char> {
    "No REST/RCON channel to stop the server — make sure it is STOPPED in the panel before restoring, or the running server will overwrite the restore."@
}

/// Where the snapshot's file `name` goes: `{save_games_path}/{world}/{name}`.
pub open spec fn restore_target(save_games_path: Seq<char>, world: Seq<char>, name: Seq<char>) -> Seq<char> {
    save_games_path + "/"@ + world + "/"@ + name
}

/// The state is well formed: the next file is within the snapshot, and by the time the
/// world folder is looked for the shutdown was asked for whenever it could be.
pub open spec fn restore_wf(st: Restore) -> bool {
    &&& st.next <= st.names@.len()
    &&& st.stage == RestoreStage::Upload ==> st.next < st.names@.len()
    &&& st.stage == RestoreStage::Stop ==> st.live
    &&& (st.stage == RestoreStage::Settle || st.stage == RestoreStage::List || st.stage
        == RestoreStage::Upload) ==> st.stopped == st.live
}

/// The event answers what the stage asked.
pub open spec fn restore_event_fits(st: Restore, ev: RestoreEvent) -> bool {
    &&& restore_wf(st)
    &&& st.stage != RestoreStage::Done
    &&& st.stage == RestoreStage::Stop ==> ev is StopSent
    &&& st.stage == RestoreStage::Settle ==> ev is Waited
    &&& st.stage == RestoreStage::List ==> ev is Listed
    &&& st.stage == RestoreStage::Upload ==> ev is Uploaded
}

/// A restore of a snapshot whose files are named `names` starts by stopping the server:
/// over REST where it can be used, else over RCON; with neither it warns and goes
/// straight to the world folder.
pub fn restore_start(s: &AppSettings, admin_password_saved: bool, names: Vec<String>) -> (r: (
    Restore,
    RestoreAction,
))
    ensures
        restore_wf(r.0),
        r.0.live == (rest_usable(*s, admin_password_saved) || rcon_usable(*s, admin_password_saved)),
        !r.0.stopped && r.0.next == 0 && r.0.names == names && r.0.save_games_path == s.save_games_path,
        rest_usable(*s, admin_password_saved) ==> r.0.stage == RestoreStage::Stop && r.0.warnings@.len() == 0
            && r.1 is StopViaRest,
        !rest_usable(*s, admin_password_saved) && rcon_usable(*s, admin_password_saved) ==> r.0.stage
            == RestoreStage::Stop && r.0.warnings@.len() == 0 && r.1 is StopViaRcon,
        !r.0.live ==> r.0.stage == RestoreStage::List && r.0.warnings@.len() == 1
            && r.0.warnings@[0]@ == restore_unstopped_text() && (r.1 matches RestoreAction::ListWorlds(p)
            && p == s.save_games_path),
{
    let (rest, rcon) = live_channels(s, admin_password_saved);
    let st = Restore {
        stage: RestoreStage::Stop,
        live: rest || rcon,
        stopped: false,
        save_games_path: s.save_games_path.clone(),
        names,
        next: 0,
        world: String::new(),
        warnings: Vec::new(),
    };
    if rest {
        (st, RestoreAction::StopViaRest)
    } else if rcon {
        (st, RestoreAction::StopViaRcon)
    } else {
        let mut warnings: Vec<String> = Vec::new();
        warnings.push(String::from_str(restore_unstopped_warning()));
        let dir = st.save_games_path.clone();
        (Restore { stage: RestoreStage::List, warnings, ..st }, RestoreAction::ListWorlds(dir))
    }
}

/// Upload file `st.next`, or finish when all are up.
fn restore_upload_next(st: Restore) -> (r: (Restore, RestoreAction))
    requires
        restore_wf(st),
        st.stopped == st.live,
    ensures
        restore_wf(r.0),
        r.0.live == st.live && r.0.names == st.names && r.0.save_games_path == st.save_games_path,
        r.0.stopped == st.stopped && r.0.world == st.world,
        st.next < st.names@.len() ==> r.0 == (Restore { stage: RestoreStage::Upload, ..st }) && (
        r.1 matches RestoreAction::Upload(i, p) && i == st.next && p@ == restore_target(
            st.save_games_path@,
            st.world@,
            st.names@[st.next as int]@,
        )),
        st.next >= st.names@.len() ==> r.0.stage == RestoreStage::Done && (r.1 matches RestoreAction::Finish(
            Ok(rep),
        ) && rep.world_folder == st.world && rep.files_restored == st.names@.len()
            && rep.server_stopped == st.stopped && rep.warnings == st.warnings && rep.message@
            == restore_message_spec(st.names@.len(), st.world@, st.stopped)),
{
    if st.next < st.names.len() {
        let folder = remote_path(&st.save_games_path, &st.world);
        let target = remote_path(&folder, &st.names[st.next]);
        let i = st.next;
        (Restore { stage: RestoreStage::Upload, ..st }, RestoreAction::Upload(i, target))
    } else {
        let n = st.names.len();
        let message = restore_message(n, &st.world, st.stopped);
        let world = st.world.clone();
        let report = RestoreReport {
            world_folder: world,
            files_restored: n,
            server_stopped: st.stopped,
            warnings: st.warnings,
            message,
        };
        (
            Restore {
                stage: RestoreStage::Done,
                live: st.live,
                stopped: st.stopped,
                save_games_path: st.save_games_path,
                names: st.names,
                next: st.next,
                world: st.world,
                warnings: Vec::new(),
            },
            RestoreAction::Finish(Ok(report)),
        )
    }
}

/// One step of a restore. Where a live channel exists, nothing is uploaded before the
/// shutdown was asked for and the server was given time to stop; the files go, in the
/// snapshot's order, into the first world folder listed; the first failed upload ends the
/// restore.
pub fn restore_step(st: Restore, ev: RestoreEvent) -> (r: (Restore, RestoreAction))
    requires
        restore_event_fits(st, ev),
    ensures
        restore_wf(r.0),
        r.0.live == st.live && r.0.names == st.names && r.0.save_games_path == st.save_games_path,
        r.1 is Finish <==> r.0.stage == RestoreStage::Done,
        r.1 is Upload ==> r.0.stopped == r.0.live,
        ev is StopSent ==> r.0.stage == RestoreStage::Settle && r.0.stopped && (r.1 matches RestoreAction::Wait(
            n,
        ) && n == 20),
        ev is Waited ==> r.0.stage == RestoreStage::List && r.0.stopped == st.stopped && (r.1 matches RestoreAction::ListWorlds(
            p,
        ) && p == st.save_games_path),
        ev matches RestoreEvent::Listed(fs) ==> match world_folder_index(fs@, 0) {
            None => r.1 matches RestoreAction::Finish(Err(e)) && e@ == err_no_world_folder(),
            Some(i) => r.0.world@ == fs@[i]@ && r.0.stopped == st.stopped && (if st.names@.len() > 0 {
                r.1 matches RestoreAction::Upload(k, p) && k == 0 && p@ == restore_target(
                    st.save_games_path@,
                    fs@[i]@,
                    st.names@[0]@,
                )
            } else {
                r.1 matches RestoreAction::Finish(Ok(rep)) && rep.files_restored == 0
                    && rep.world_folder@ == fs@[i]@ && rep.server_stopped == st.stopped
            }),
        },
        ev matches RestoreEvent::Uploaded(Err(e)) ==> r.1 matches RestoreAction::Finish(Err(x)) && x
            == e,
        ev matches RestoreEvent::Uploaded(Ok(())) ==> r.0.stopped == st.stopped && (if st.next + 1
            < st.names@.len() {
            r.0.next == st.next + 1 && (r.1 matches RestoreAction::Upload(k, p) && k == st.next + 1
                && p@ == restore_target(
                st.save_games_path@,
                st.world@,
                st.names@[st.next + 1]@,
            ))
        } else {
            r.1 matches RestoreAction::Finish(Ok(rep)) && rep.world_folder == st.world
                && rep.files_restored == st.names@.len() && rep.server_stopped == st.stopped
                && rep.warnings == st.warnings && rep.message@ == restore_message_spec(
                st.names@.len(),
                st.world@,
                st.stopped,
            )
        }),
{
    match ev {
        RestoreEvent::StopSent => (Restore { stage: RestoreStage::Settle, stopped: true, ..st }, RestoreAction::Wait(20)),
        RestoreEvent::Waited => {
            let dir = st.save_games_path.clone();
            (Restore { stage: RestoreStage::List, ..st }, RestoreAction::ListWorlds(dir))
        },
        RestoreEvent::Listed(folders) => match pick_world_folder(&folders) {
            Err(e) => (Restore { stage: RestoreStage::Done, ..st }, RestoreAction::Finish(Err(e))),
            Ok(world) => restore_upload_next(Restore { world, next: 0, ..st }),
        },
        RestoreEvent::Uploaded(Err(e)) => (Restore { stage: RestoreStage::Done, ..st }, RestoreAction::Finish(Err(e))),
        RestoreEvent::Uploaded(Ok(())) => {
            assert(st.stage == RestoreStage::Upload);
            let _n = st.names.len();
            restore_upload_next(Restore { next: st.next + 1, stage: RestoreStage::List, ..st })
        },
    }
}


// ---------------------------------------------------------------- pulling the server's files

/// The config files pulled besides `PalWorldSettings.ini`, by index.
pub open spec fn extra_config_name(k: int) -> Seq<char> {
    if k == 0 {
        "GameUserSettings.ini"@
    } else {
        "Engine.ini"@
    }
}

/// The world files pulled besides `Level.sav` and the player saves, by index.
pub open spec fn extra_world_name(k: int) -> Seq<char> {
    if k == 0 {
        "LevelMeta.sav"@
    } else {
        "WorldOption.sav"@
    }
}

/// The first name at or after `j` that is a player save.
pub open spec fn player_save_index(names: Seq<String>, j: int) -> Option<int>
    decreases names.len() - j,
{
    if j < 0 || j >= names.len() {
        None
    } else if ends_with(names[j]@, ".sav"@) {
        Some(j)
    } else {
        player_save_index(names, j + 1)
    }
}

/// Where a pull stands.
#[derive(Debug, PartialEq, Eq, Structural)]
pub enum PullStage {
    /// Downloading `PalWorldSettings.ini` from the current candidate directory.
    Config,
    /// Downloading the other config files from the directory that had it.
    Extra,
    /// Listing the save folder.
    Worlds,
    /// Downloading the current world's `Level.sav`.
    Level,
    /// Downloading the current world's other files.
    WorldFile,
    /// Listing the current world's player folder.
    PlayerList,
    /// Downloading a player save.
    PlayerFile,
    /// Finished.
    Done,
}

/// A pull in progress, with what it has so far.
pub struct Pull {
    pub stage: PullStage,
    pub save_games_path: String,
    pub candidates: Vec<String>,
    pub cand: usize,
    /// Index into the other config files or the other world files.
    pub extra: usize,
    /// The save folder's names.
    pub names: Vec<String>,
    /// The current world: an index into `names`.
    pub world: usize,
    /// The current world's player folder names.
    pub players: Vec<String>,
    pub player: usize,
    /// The current world's `Level.sav`.
    pub level: Vec<u8>,
    /// The current world's other files.
    pub others: Vec<(String, Vec<u8>)>,
    /// The config files pulled.
    pub configs: Vec<(String, Vec<u8>)>,
    /// The worlds pulled.
    pub worlds: Vec<PulledWorld>,
}

/// What the app reports back to a pull.
pub enum PullEvent {
    /// The file's bytes, or `None` when it could not be downloaded.
    Downloaded(Option<Vec<u8>>),
    /// The names in a folder (none when it could not be listed).
    Listed(Vec<String>),
}

/// What a pull asks of the app.
pub enum PullAction {
    /// Download the file at this path, if it is there.
    Download(String),
    /// List the names in this folder.
    List(String),
    /// The pull is over: `configs` and `worlds` hold what came.
    Done,
}

/// The current world's folder on the server.
pub open spec fn world_dir(st: Pull) -> Seq<char> {
    st.save_games_path@ + "/"@ + st.names@[st.world as int]@
}

/// The state is well formed. Every world kept has its `Level.sav`; the config files start
/// with the main one; a player file is fetched only when it is a `.sav`.
pub open spec fn pull_wf(st: Pull) -> bool {
    &&& st.cand < st.candidates@.len()
    &&& forall|i: int| 0 <= i < st.worlds@.len() ==> (#[trigger] st.worlds@[i]).level is Some
    &&& st.stage == PullStage::Config ==> st.configs@.len() == 0
    &&& st.stage == PullStage::Extra ==> st.configs@.len() > 0
    &&& st.configs@.len() > 0 ==> st.configs@[0].0@ == "PalWorldSettings.ini"@
    &&& (st.stage == PullStage::Extra || st.stage == PullStage::WorldFile) ==> st.extra < 2
    &&& (st.stage == PullStage::Level || st.stage == PullStage::WorldFile || st.stage
        == PullStage::PlayerList || st.stage == PullStage::PlayerFile) ==> st.world < st.names@.len()
    &&& st.stage == PullStage::PlayerFile ==> st.player < st.players@.len() && ends_with(
        st.players@[st.player as int]@,
        ".sav"@,
    )
}

/// The event answers what the stage asked.
pub open spec fn pull_event_fits(st: Pull, ev: PullEvent) -> bool {
    &&& pull_wf(st)
    &&& st.stage != PullStage::Done
    &&& (st.stage == PullStage::Worlds || st.stage == PullStage::PlayerList) <==> ev is Listed
}

/// A pull of the config files from `config_dir` (or the default directories) and of the
/// worlds under `save_games_path` starts with the first candidate's `PalWorldSettings.ini`.
pub fn pull_start(config_dir: &str, save_games_path: &str) -> (r: (Pull, PullAction))
    ensures
        pull_wf(r.0),
        r.0.stage == PullStage::Config && r.0.cand == 0 && r.0.save_games_path@ == save_games_path@,
        r.0.worlds@.len() == 0,
        texts(r.0.candidates@) == candidate_dirs(config_dir@),
        r.1 matches PullAction::Download(p) && p@ == candidate_dirs(config_dir@)[0]
            + "/PalWorldSettings.ini"@,
{
    let candidates = config_candidates(config_dir);
    proof {
        assert(texts(candidates@) =~= candidate_dirs(config_dir@));
    }
    let first = settings_ini_path(&candidates[0]);
    (
        Pull {
            stage: PullStage::Config,
            save_games_path: String::from_str(save_games_path),
            candidates,
            cand: 0,
            extra: 0,
            names: Vec::new(),
            world: 0,
            players: Vec::new(),
            player: 0,
            level: Vec::new(),
            others: Vec::new(),
            configs: Vec::new(),
            worlds: Vec::new(),
        },
        PullAction::Download(first),
    )
}

/// Move on to world `i`: download its `Level.sav`, or finish when there is none left.
fn pull_world(st: Pull, i: usize) -> (r: (Pull, PullAction))
    requires
        pull_wf(Pull { stage: PullStage::Worlds, ..st }),
    ensures
        pull_wf(r.0),
        r.0.worlds == st.worlds && r.0.configs == st.configs && r.0.names == st.names
            && r.0.candidates == st.candidates && r.0.cand == st.cand && r.0.save_games_path
            == st.save_games_path,
        i < st.names@.len() ==> r.0.stage == PullStage::Level && r.0.world == i && (r.1 matches PullAction::Download(
            p,
        ) && p@ == st.save_games_path@ + "/"@ + st.names@[i as int]@ + "/"@ + "Level.sav"@),
        i >= st.names@.len() ==> r.0.stage == PullStage::Done && r.1 is Done,
{
    if i < st.names.len() {
        let base = remote_path(&st.save_games_path, &st.names[i]);
        let p = remote_path(&base, "Level.sav");
        (Pull { stage: PullStage::Level, world: i, ..st }, PullAction::Download(p))
    } else {
        (Pull { stage: PullStage::Done, ..st }, PullAction::Done)
    }
}

/// Go on with the current world's player saves from index `j`: download the next `.sav`,
/// or keep the world and move on to the next one.
fn pull_player(st: Pull, j: usize) -> (r: (Pull, PullAction))
    requires
        pull_wf(Pull { stage: PullStage::PlayerList, ..st }),
        st.world < st.names@.len(),
        j <= st.players@.len(),
    ensures
        pull_wf(r.0),
        r.1 is Done <==> r.0.stage == PullStage::Done,
        r.0.configs == st.configs && r.0.names == st.names && r.0.candidates == st.candidates
            && r.0.cand == st.cand && r.0.save_games_path == st.save_games_path,
        match player_save_index(st.players@, j as int) {
            Some(k) => r.0.stage == PullStage::PlayerFile && r.0.player == k && r.0.world == st.world
                && r.0.worlds == st.worlds && r.0.others == st.others && r.0.level == st.level
                && r.0.players == st.players && (r.1 matches PullAction::Download(p) && p@ == world_dir(st)
                + "/"@ + "Players"@ + "/"@ + st.players@[k]@),
            None => r.0.worlds@ == st.worlds@.push(
                PulledWorld { guid: st.names@[st.world as int], level: Some(st.level), others: st.others },
            ) && (if st.world + 1 < st.names@.len() {
                r.0.stage == PullStage::Level && r.0.world == st.world + 1 && (r.1 matches PullAction::Download(
                    p,
                ) && p@ == st.save_games_path@ + "/"@ + st.names@[st.world + 1]@ + "/"@ + "Level.sav"@)
            } else {
                r.0.stage == PullStage::Done
            }),
        },
{
    let n = st.players.len();
    let mut k = j;
    while k < n
        invariant
            n == st.players@.len(),
            j <= k <= n,
            st.world < st.names@.len(),
            pull_wf(Pull { stage: PullStage::PlayerList, ..st }),
            player_save_index(st.players@, j as int) == player_save_index(st.players@, k as int),
        decreases n - k,
    {
        if is_player_save(&st.players[k]) {
            let base = remote_path(&st.save_games_path, &st.names[st.world]);
            let dir = remote_path(&base, "Players");
            let p = remote_path(&dir, &st.players[k]);
            assert(p@ == world_dir(st) + "/"@ + "Players"@ + "/"@ + st.players@[k as int]@);
            return (Pull { stage: PullStage::PlayerFile, player: k, ..st }, PullAction::Download(p));
        }
        k += 1;
    }
    let _count = st.names.len();
    let guid = st.names[st.world].clone();
    let next = st.world + 1;
    let world = PulledWorld { guid, level: Some(st.level), others: st.others };
    let mut worlds = st.worlds;
    worlds.push(world);
    let rest = Pull {
        stage: PullStage::Worlds,
        save_games_path: st.save_games_path,
        candidates: st.candidates,
        cand: st.cand,
        extra: st.extra,
        names: st.names,
        world: st.world,
        players: st.players,
        player: st.player,
        level: Vec::new(),
        others: Vec::new(),
        configs: st.configs,
        worlds,
    };
    proof {
        assert forall|i: int| 0 <= i < rest.worlds@.len() implies (#[trigger] rest.worlds@[i]).level is Some by {
            if i < st.worlds@.len() {
                assert(rest.worlds@[i] == st.worlds@[i]);
            }
        }
    }
    pull_world(rest, next)
}

/// What a download adds to the files kept: the file under `name`, when it came.
pub open spec fn added(o: Option<Vec<u8>>, name: Seq<char>) -> Seq<(Seq<char>, Seq<u8>)> {
    match o {
        Some(b) => seq![(name, b@)],
        None => Seq::empty(),
    }
}

/// After a player folder was listed or a player save downloaded: the next `.sav` in the
/// folder is fetched, or else the world is kept, with its files so far, and the next
/// listed world comes.
pub open spec fn players_next(st: Pull, ev: PullEvent, r0: Pull, r1: PullAction) -> bool {
    let listing = st.stage == PullStage::PlayerList;
    let ps = if listing {
        ev->Listed_0@
    } else {
        st.players@
    };
    let files = if listing {
        file_entries(st.others@)
    } else {
        file_entries(st.others@) + added(
            ev->Downloaded_0,
            "Players"@ + "/"@ + st.players@[st.player as int]@,
        )
    };
    let from = if listing {
        0
    } else {
        st.player + 1
    };
    match player_save_index(ps, from) {
        Some(k) => r0.stage == PullStage::PlayerFile && r0.player == k && r0.players@ == ps
            && file_entries(r0.others@) == files && r0.worlds == st.worlds && r0.world == st.world,
        None => {
            &&& r0.worlds@.len() == st.worlds@.len() + 1
            &&& r0.worlds@.last().guid == st.names@[st.world as int]
            &&& r0.worlds@.last().level == Some(st.level)
            &&& file_entries(r0.worlds@.last().others@) == files
            &&& if st.world + 1 < st.names@.len() {
                r0.stage == PullStage::Level && r0.world == st.world + 1 && (r1 matches PullAction::Download(
                    p,
                ) && p@ == st.save_games_path@ + "/"@ + st.names@[st.world + 1]@ + "/"@ + "Level.sav"@)
            } else {
                r0.stage == PullStage::Done
            }
        },
    }
}

/// One step of a pull. The first candidate directory whose `PalWorldSettings.ini` comes is
/// the one the config files are taken from; a world is kept only when its `Level.sav`
/// came; of a world's player folder only the `.sav` files are fetched.
pub fn pull_step(st: Pull, ev: PullEvent) -> (r: (Pull, PullAction))
    requires
        pull_event_fits(st, ev),
    ensures
        pull_wf(r.0),
        r.0.save_games_path == st.save_games_path && r.0.candidates == st.candidates,
        r.1 is Done <==> r.0.stage == PullStage::Done,
        r.0.stage == PullStage::Config ==> st.stage == PullStage::Config,
        st.stage != PullStage::Config ==> r.0.cand == st.cand,
        st.stage == PullStage::Config ==> (match ev {
            PullEvent::Downloaded(Some(b)) => r.0.stage == PullStage::Extra && r.0.cand == st.cand
                && r.0.extra == 0 && r.0.configs@.len() == 1 && r.0.configs@[0].1@ == b@ && (r.1 matches PullAction::Download(
                p,
            ) && p@ == st.candidates@[st.cand as int]@ + "/"@ + extra_config_name(0)),
            _ => if st.cand + 1 < st.candidates@.len() {
                r.0.stage == PullStage::Config && r.0.cand == st.cand + 1 && (r.1 matches PullAction::Download(
                    p,
                ) && p@ == st.candidates@[st.cand + 1]@ + "/PalWorldSettings.ini"@)
            } else {
                r.0.stage == PullStage::Worlds && r.0.configs@.len() == 0 && (r.1 matches PullAction::List(
                    p,
                ) && p == st.save_games_path)
            },
        }),
        st.stage == PullStage::Extra ==> (match ev {
            PullEvent::Downloaded(Some(b)) => r.0.configs@.len() == st.configs@.len() + 1
                && r.0.configs@.last().0@ == extra_config_name(st.extra as int) && r.0.configs@.last().1@
                == b@,
            _ => r.0.configs == st.configs,
        }),
        st.stage != PullStage::Config && st.stage != PullStage::Extra ==> r.0.configs == st.configs,
        st.worlds@.len() <= r.0.worlds@.len() <= st.worlds@.len() + 1,
        r.0.worlds@.subrange(0, st.worlds@.len() as int) == st.worlds@,
        r.0.worlds@.len() > st.worlds@.len() ==> (st.stage == PullStage::PlayerList || st.stage
            == PullStage::PlayerFile) && r.0.worlds@.last().guid == st.names@[st.world as int] && r.0.worlds@.last().level
            == Some(st.level),
        st.stage == PullStage::Level ==> (match ev {
            PullEvent::Downloaded(Some(b)) => r.0.stage == PullStage::WorldFile && r.0.level@ == b@
                && r.0.others@.len() == 0 && r.0.world == st.world && (r.1 matches PullAction::Download(
                p,
            ) && p@ == world_dir(st) + "/"@ + extra_world_name(0)),
            _ => r.0.worlds == st.worlds && r.0.names == st.names && (if st.world + 1
                < st.names@.len() {
                r.0.stage == PullStage::Level && r.0.world == st.world + 1 && (r.1 matches PullAction::Download(
                    p,
                ) && p@ == st.save_games_path@ + "/"@ + st.names@[st.world + 1]@ + "/"@ + "Level.sav"@)
            } else {
                r.0.stage == PullStage::Done
            }),
        }),
        st.stage == PullStage::Extra ==> (if st.extra + 1 < 2 {
            r.0.stage == PullStage::Extra && r.0.extra == st.extra + 1 && (r.1 matches PullAction::Download(
                p,
            ) && p@ == st.candidates@[st.cand as int]@ + "/"@ + extra_config_name(st.extra + 1))
        } else {
            r.0.stage == PullStage::Worlds && (r.1 matches PullAction::List(p) && p == st.save_games_path)
        }),
        st.stage == PullStage::Worlds ==> (ev matches PullEvent::Listed(ns) && r.0.names == ns
            && r.0.worlds == st.worlds && (if ns@.len() > 0 {
            r.0.stage == PullStage::Level && r.0.world == 0 && (r.1 matches PullAction::Download(p)
                && p@ == st.save_games_path@ + "/"@ + ns@[0]@ + "/"@ + "Level.sav"@)
        } else {
            r.0.stage == PullStage::Done
        })),
        st.stage == PullStage::WorldFile ==> r.0.level == st.level && r.0.world == st.world
            && r.0.names == st.names && r.0.worlds == st.worlds && file_entries(r.0.others@)
            == file_entries(st.others@) + added(ev->Downloaded_0, extra_world_name(st.extra as int))
            && (if st.extra + 1 < 2 {
            r.0.stage == PullStage::WorldFile && r.0.extra == st.extra + 1 && (r.1 matches PullAction::Download(
                p,
            ) && p@ == world_dir(st) + "/"@ + extra_world_name(st.extra + 1))
        } else {
            r.0.stage == PullStage::PlayerList && (r.1 matches PullAction::List(p) && p@ == world_dir(st)
                + "/"@ + "Players"@)
        }),
        (st.stage == PullStage::PlayerList || st.stage == PullStage::PlayerFile) ==> players_next(
            st,
            ev,
            r.0,
            r.1,
        ),
        r.0.stage == PullStage::PlayerFile ==> (r.1 matches PullAction::Download(p) && p@ == world_dir(r.0)
            + "/"@ + "Players"@ + "/"@ + r.0.players@[r.0.player as int]@),
{
    let ghost old_worlds = st.worlds@;
    match ev {
        PullEvent::Downloaded(got) => {
            if st.stage == PullStage::Config {
                match got {
                    Some(b) => {
                        let mut configs: Vec<(String, Vec<u8>)> = Vec::new();
                        configs.push((String::from_str("PalWorldSettings.ini"), b));
                        let extras = extra_config_files();
                        let p = remote_path(&st.candidates[st.cand], extras[0]);
                        (Pull { stage: PullStage::Extra, extra: 0, configs, ..st }, PullAction::Download(p))
                    },
                    None => {
                        if st.cand < st.candidates.len() - 1 {
                            let p = settings_ini_path(&st.candidates[st.cand + 1]);
                            (Pull { cand: st.cand + 1, ..st }, PullAction::Download(p))
                        } else {
                            let dir = st.save_games_path.clone();
                            (Pull { stage: PullStage::Worlds, ..st }, PullAction::List(dir))
                        }
                    },
                }
            } else if st.stage == PullStage::Extra {
                let extras = extra_config_files();
                let mut configs = st.configs;
                match got {
                    Some(b) => {
                        configs.push((String::from_str(extras[st.extra]), b));
                        assert(configs@[0] == st.configs@[0]);
                    },
                    None => {},
                }
                if st.extra + 1 < 2 {
                    let p = remote_path(&st.candidates[st.cand], extras[st.extra + 1]);
                    (Pull { extra: st.extra + 1, configs, ..st }, PullAction::Download(p))
                } else {
                    let dir = st.save_games_path.clone();
                    (Pull { stage: PullStage::Worlds, configs, ..st }, PullAction::List(dir))
                }
            } else if st.stage == PullStage::Level {
                match got {
                    Some(b) => {
                        let files = extra_world_files();
                        let base = remote_path(&st.save_games_path, &st.names[st.world]);
                        let p = remote_path(&base, files[0]);
                        (
                            Pull { stage: PullStage::WorldFile, extra: 0, level: b, others: Vec::new(), ..st },
                            PullAction::Download(p),
                        )
                    },
                    None => {
                        let _count = st.names.len();
                        let next = st.world + 1;
                        pull_world(st, next)
                    },
                }
            } else if st.stage == PullStage::WorldFile {
                let files = extra_world_files();
                let mut others = st.others;
                match got {
                    Some(b) => {
                        others.push((String::from_str(files[st.extra]), b));
                    },
                    None => {},
                }
                let base = remote_path(&st.save_games_path, &st.names[st.world]);
                if st.extra + 1 < 2 {
                    let p = remote_path(&base, files[st.extra + 1]);
                    (Pull { extra: st.extra + 1, others, ..st }, PullAction::Download(p))
                } else {
                    let p = remote_path(&base, "Players");
                    (Pull { stage: PullStage::PlayerList, others, ..st }, PullAction::List(p))
                }
            } else {
                assert(st.stage == PullStage::PlayerFile);
                let mut others = st.others;
                let ghost o0 = others@;
                let ghost pname = "Players"@ + "/"@ + st.players@[st.player as int]@;
                match got {
                    Some(b) => {
                        let rel = remote_path("Players", &st.players[st.player]);
                        others.push((rel, b));
                        proof {
                            assert(file_entries(others@) =~= file_entries(o0) + added(Some(b), pname));
                        }
                    },
                    None => {
                        proof {
                            assert(file_entries(others@) =~= file_entries(o0) + added(None, pname));
                        }
                    },
                }
                let _c = st.players.len();
                let next = st.player + 1;
                let r = pull_player(Pull { stage: PullStage::PlayerList, others, ..st }, next);
                proof {
                    assert(players_next(st, ev, r.0, r.1));
                }
                r
            }
        },
        PullEvent::Listed(found) => {
            if st.stage == PullStage::Worlds {
                pull_world(Pull { names: found, ..st }, 0)
            } else {
                let r = pull_player(Pull { players: found, ..st }, 0);
                proof {
                    assert(players_next(st, ev, r.0, r.1));
                }
                r
            }
        },
    }
}

} // verus!
