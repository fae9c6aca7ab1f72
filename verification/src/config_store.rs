//! App settings: the non-secret configuration the app keeps in `settings.json`, and the
//! secrets it keeps in the OS keychain (through the `keyring` crate).
use vstd::prelude::*;
use crate::paths::{joined, lemma_joined_not_verbatim, path_join, verbatim_like};

verus! {

broadcast use vstd::string::group_string_axioms;

/// Non-secret settings.
#[derive(Debug, Clone)]
pub struct AppSettings {
    // --- SFTP (file access) ---
    pub sftp_host: String,
    pub sftp_port: u16,
    pub sftp_user: String,
    /// Path to the SaveGames/<localuser> dir, relative to the SFTP root. World GUID folders live inside.
    pub save_games_path: String,
    /// Config dir relative to SFTP root. Empty = auto-detect LinuxServer vs WindowsServer.
    pub config_dir: String,
    // --- Palworld REST API (preferred live control if the host has opened a port) ---
    pub rest_url: String,
    pub rest_enabled: bool,
    // --- Palworld RCON (fallback live control) ---
    pub rcon_host: String,
    pub rcon_port: u16,
    pub rcon_enabled: bool,
    // --- GitHub backup ---
    pub repo_local_path: String,
    pub repo_remote: String,
    pub git_branch: String,
    pub backup_retention: u32,
    /// If true, gracefully stop the server (REST /shutdown or RCON DoExit) before pulling saves.
    pub stop_before_backup: bool,
    // --- Scheduler ---
    pub schedule_enabled: bool,
    pub schedule_minutes: u32,
}

impl Default for AppSettings {
    fn default() -> (r: Self)
        ensures
            r.sftp_host@ == Seq::<char>::empty(),
            r.sftp_port == 22,
            r.sftp_user@ == Seq::<char>::empty(),
            r.save_games_path@ == "Pal/Saved/SaveGames/0"@,
            r.config_dir@ == Seq::<char>::empty(),
            r.rest_url@ == Seq::<char>::empty(),
            !r.rest_enabled,
            r.rcon_host@ == Seq::<char>::empty(),
            r.rcon_port == 25575,
            !r.rcon_enabled,
            r.repo_local_path@ == Seq::<char>::empty(),
            r.repo_remote@ == Seq::<char>::empty(),
            r.git_branch@ == "main"@,
            r.backup_retention == 20,
            !r.stop_before_backup,
            !r.schedule_enabled,
            r.schedule_minutes == 60,
    {
        AppSettings {
            sftp_host: String::new(),
            sftp_port: 22,
            sftp_user: String::new(),
            save_games_path: String::from_str("Pal/Saved/SaveGames/0"),
            config_dir: String::new(),
            rest_url: String::new(),
            rest_enabled: false,
            rcon_host: String::new(),
            rcon_port: 25575,
            rcon_enabled: false,
            repo_local_path: String::new(),
            repo_remote: String::new(),
            git_branch: String::from_str("main"),
            backup_retention: 20,
            stop_before_backup: false,
            schedule_enabled: false,
            schedule_minutes: 60,
        }
    }
}

/// Keychain service name.
pub const KEYRING_SERVICE: &'static str = "com.luibots.palcommand";

/// Keychain entry name of the SFTP password.
pub const KEY_FTP_PASSWORD: &'static str = "ftp_password";

/// Keychain entry name of the server's admin password.
pub const KEY_ADMIN_PASSWORD: &'static str = "admin_password";

/// Where the settings live inside the app's config directory.
pub fn settings_path(config_dir: &str) -> (r: String)
    ensures
        !verbatim_like(config_dir@) ==> joined(config_dir@, "settings.json"@, r@),
{
    proof {
        reveal_strlit("settings.json");
    }
    path_join(config_dir, "settings.json")
}

// ---------------------------------------------------------------- keychain

#[verifier::external_type_specification]
#[verifier::external_body]
pub struct ExKeyringEntry(keyring::Entry);

#[verifier::external_type_specification]
#[verifier::external_body]
pub struct ExKeyringError(keyring::Error);

/// `keyring::Entry::new`: the keychain entry for `user` under `service`, from the default
/// credential store. Whether it can be made depends on the platform's store, so nothing
/// is stated of the outcome.
#[verifier::external_body]
fn keychain_entry(service: &str, user: &str) -> (r: Result<keyring::Entry, keyring::Error>) {
    keyring::Entry::new(service, user)
}

/// `keyring::Entry::get_password`: what the store holds for the entry now. It depends on
/// the store's state, so nothing is stated of it.
#[verifier::external_body]
fn keychain_read(entry: &keyring::Entry) -> (r: Result<String, keyring::Error>) {
    entry.get_password()
}

/// `keyring::Entry::set_password`: stores `value` for the entry. Nothing is stated of the
/// outcome, which the store decides.
#[verifier::external_body]
fn keychain_write(entry: &keyring::Entry, value: &str) -> (r: Result<(), keyring::Error>) {
    entry.set_password(value)
}

/// `keyring::Entry::delete_credential`: removes the entry's secret. Nothing is stated of
/// the outcome, which the store decides.
#[verifier::external_body]
fn keychain_delete(entry: &keyring::Entry) -> (r: Result<(), keyring::Error>) {
    entry.delete_credential()
}

/// The `Display` text of a `keyring::Error`. Nothing is stated of it.
#[verifier::external_body]
fn keychain_error_text(e: &keyring::Error) -> (r: String) {
    e.to_string()
}

/// A secret read back from the keychain counts only when it is not empty.
pub open spec fn stored_secret_spec(read: Option<Seq<char>>) -> Option<Seq<char>> {
    match read {
        Some(v) => if v.len() > 0 {
            Some(v)
        } else {
            None
        },
        None => None,
    }
}

/// The text of an optional string.
pub open spec fn opt_text(o: Option<String>) -> Option<Seq<char>> {
    match o {
        Some(v) => Some(v@),
        None => None,
    }
}

/// The secret that a keychain read gives, if any: `None` for a failed read and for an
/// empty value.
pub fn stored_secret(read: Option<String>) -> (r: Option<String>)
    ensures
        opt_text(r) == stored_secret_spec(opt_text(read)),
{
    match read {
        Some(v) => if v.as_str().is_empty() {
            None
        } else {
            Some(v)
        },
        None => None,
    }
}

/// The secret stored under `key`, if there is a non-empty one.
pub fn get_secret(key: &str) -> (r: Option<String>)
    ensures
        r matches Some(v) ==> v@.len() > 0,
{
    let read = match keychain_entry(KEYRING_SERVICE, key) {
        Ok(entry) => match keychain_read(&entry) {
            Ok(v) => Some(v),
            Err(_) => None,
        },
        Err(_) => None,
    };
    stored_secret(read)
}

/// Whether a non-empty secret is stored under `key`.
pub fn has_secret(key: &str) -> (r: bool) {
    get_secret(key).is_some()
}

/// What saving a secret does to the keychain entry.
pub enum SecretChange {
    /// An empty value: the entry is removed.
    Delete,
    /// A value to store.
    Write(String),
}

/// An empty value removes the entry; any other is written.
pub fn secret_change(value: &str) -> (r: SecretChange)
    ensures
        value@.len() == 0 <==> r is Delete,
        r matches SecretChange::Write(v) ==> v@ == value@,
{
    if value.is_empty() {
        SecretChange::Delete
    } else {
        SecretChange::Write(String::from_str(value))
    }
}

/// What the caller is told once the store has acted: a removal is reported as done
/// whatever the store said, a write reports the store's answer.
pub fn change_outcome(change: &SecretChange, store: Result<(), String>) -> (r: Result<(), String>)
    ensures
        change is Delete ==> r is Ok,
        change is Write ==> r == store,
{
    match change {
        SecretChange::Delete => Ok(()),
        SecretChange::Write(_) => store,
    }
}

/// Stores `value` under `key`; an empty value removes the entry instead, and a failure to
/// remove it is not reported (`secret_change`, then `change_outcome` on the store's
/// answer).
pub fn set_secret(key: &str, value: &str) -> (r: Result<(), String>) {
    let entry = match keychain_entry(KEYRING_SERVICE, key) {
        Ok(e) => e,
        Err(e) => {
            return Err(keychain_error_text(&e));
        },
    };
    let change = secret_change(value);
    let store = match &change {
        SecretChange::Delete => match keychain_delete(&entry) {
            Ok(()) => Ok(()),
            Err(e) => Err(keychain_error_text(&e)),
        },
        SecretChange::Write(v) => match keychain_write(&entry, v.as_str()) {
            Ok(()) => Ok(()),
            Err(e) => Err(keychain_error_text(&e)),
        },
    };
    change_outcome(&change, store)
}

// ---------------------------------------------------------------- legacy secrets

/// The files that held the secrets before they moved to the keychain, as (keychain entry,
/// file): `auto/sftp.sec` and `auto/admin.sec` under the config directory.
pub fn legacy_secret_files(config_dir: &str) -> (r: Vec<(&'static str, String)>)
    ensures
        r@.len() == 2,
        r@[0].0@ == KEY_FTP_PASSWORD@,
        r@[1].0@ == KEY_ADMIN_PASSWORD@,
        !verbatim_like(config_dir@) ==> exists|auto: Seq<char>|
            joined(config_dir@, "auto"@, auto) && joined(auto, "sftp.sec"@, #[trigger] r@[0].1@)
                && joined(auto, "admin.sec"@, r@[1].1@),
{
    proof {
        reveal_strlit("auto");
        reveal_strlit("sftp.sec");
        reveal_strlit("admin.sec");
    }
    let auto = path_join(config_dir, "auto");
    let sftp = path_join(auto.as_str(), "sftp.sec");
    let admin = path_join(auto.as_str(), "admin.sec");
    let r = vec![(KEY_FTP_PASSWORD, sftp), (KEY_ADMIN_PASSWORD, admin)];
    proof {
        if !verbatim_like(config_dir@) {
            lemma_joined_not_verbatim(config_dir@, "auto"@, auto@);
            assert(joined(config_dir@, "auto"@, auto@) && joined(auto@, "sftp.sec"@, r@[0].1@));
        }
    }
    r
}

/// Whether the secret of a legacy file is to be moved into the keychain: only when the
/// file is there and the keychain holds nothing under its entry yet, so that a stored
/// secret is never overwritten.
pub fn needs_migration(file_present: bool, secret_present: bool) -> (r: bool)
    ensures
        r == (file_present && !secret_present),
{
    file_present && !secret_present
}

/// The legacy secret files there are.
pub const LEGACY_FILES: usize = 2;

/// Where a migration stands on the file it is handling.
#[derive(Debug, PartialEq, Eq, Structural)]
pub enum MigratePhase {
    /// Finding out whether the file is there and the keychain already has the secret.
    Check,
    /// Decrypting the file.
    Read,
    /// Storing the decrypted secret.
    Store,
    /// Finished.
    Done,
}

/// A migration: the legacy file being handled (an index into `legacy_secret_files`),
/// where it stands, and whether anything moved yet.
pub struct MigrateState {
    pub file: usize,
    pub phase: MigratePhase,
    pub migrated: bool,
}

/// What the app reports back.
pub enum MigrateEvent {
    /// Whether the file is there, and whether the keychain holds a secret under its entry.
    Checked { file_present: bool, secret_present: bool },
    /// The decrypted secret, or why it could not be read.
    Decrypted(Result<String, String>),
    /// The keychain's answer to storing it.
    Stored(Result<(), String>),
}

/// What the app does next.
pub enum MigrateAction {
    /// Look at legacy file `i`.
    Check(usize),
    /// Decrypt legacy file `i`.
    Decrypt(usize),
    /// Store `secret` under the entry of legacy file `i`.
    Store(usize, String),
    /// Stop with this outcome: whether anything moved, or the first error.
    Finish(Result<bool, String>),
}

/// A migration starts by looking at the first file.
pub fn migrate_start() -> (r: (MigrateState, MigrateAction))
    ensures
        r.0.file == 0 && r.0.phase == MigratePhase::Check && !r.0.migrated,
        r.1 matches MigrateAction::Check(i) && i == 0,
{
    (MigrateState { file: 0, phase: MigratePhase::Check, migrated: false }, MigrateAction::Check(0))
}

/// After file `st.file`: the next file, or the end with whether anything moved.
fn migrate_next_file(file: usize, migrated: bool) -> (r: (MigrateState, MigrateAction))
    requires
        file < LEGACY_FILES,
    ensures
        r.0.file < LEGACY_FILES,
        file + 1 < LEGACY_FILES ==> r.0 == (MigrateState {
            file: (file + 1) as usize,
            phase: MigratePhase::Check,
            migrated,
        }) && (r.1 matches MigrateAction::Check(i) && i == file + 1),
        file + 1 >= LEGACY_FILES ==> r.0.phase == MigratePhase::Done && r.0.migrated == migrated
            && (r.1 matches MigrateAction::Finish(Ok(m)) && m == migrated),
{
    if file + 1 < LEGACY_FILES {
        (
            MigrateState { file: file + 1, phase: MigratePhase::Check, migrated },
            MigrateAction::Check(file + 1),
        )
    } else {
        (MigrateState { file, phase: MigratePhase::Done, migrated }, MigrateAction::Finish(Ok(migrated)))
    }
}

/// The event fits the phase: a check answers `Check`, a decryption `Read`, a store
/// `Store`.
pub open spec fn migrate_event_fits(st: MigrateState, ev: MigrateEvent) -> bool {
    &&& st.file < LEGACY_FILES
    &&& st.phase == MigratePhase::Check ==> ev is Checked
    &&& st.phase == MigratePhase::Read ==> ev is Decrypted
    &&& st.phase == MigratePhase::Store ==> ev is Stored
    &&& st.phase != MigratePhase::Done
}

/// One step of moving the legacy secrets into the keychain. A file is decrypted only when
/// it is there and the keychain has nothing under its entry; what is decrypted is stored;
/// the first error ends the migration; after the last file the migration ends with
/// whether anything moved.
pub fn migrate_step(st: MigrateState, ev: MigrateEvent) -> (r: (MigrateState, MigrateAction))
    requires
        migrate_event_fits(st, ev),
    ensures
        r.0.file < LEGACY_FILES,
        ev matches MigrateEvent::Checked { file_present, secret_present } ==> (if file_present
            && !secret_present {
            r.0 == (MigrateState { phase: MigratePhase::Read, ..st }) && (r.1 matches MigrateAction::Decrypt(
                i,
            ) && i == st.file)
        } else {
            r.0.migrated == st.migrated && (r.1 is Check || r.1 is Finish)
        }),
        ev matches MigrateEvent::Decrypted(Ok(sec)) ==> r.0 == (MigrateState {
            phase: MigratePhase::Store,
            ..st
        }) && (r.1 matches MigrateAction::Store(i, x) && i == st.file && x@ == sec@),
        ev matches MigrateEvent::Decrypted(Err(e)) ==> r.0.phase == MigratePhase::Done && (
        r.1 matches MigrateAction::Finish(Err(x)) && x@ == e@),
        ev matches MigrateEvent::Stored(Ok(())) ==> r.0.migrated && (r.1 is Check || r.1 is Finish),
        ev matches MigrateEvent::Stored(Err(e)) ==> r.0.phase == MigratePhase::Done && (
        r.1 matches MigrateAction::Finish(Err(x)) && x@ == e@),
        r.1 is Decrypt ==> st.phase == MigratePhase::Check && (ev matches MigrateEvent::Checked {
            file_present,
            secret_present,
        } && file_present && !secret_present),
        r.1 is Store ==> st.phase == MigratePhase::Read,
        r.0.phase == MigratePhase::Store ==> st.phase == MigratePhase::Read,
        r.0.phase == MigratePhase::Read ==> st.phase == MigratePhase::Check,
        r.1 matches MigrateAction::Check(i) ==> i == r.0.file && r.0.phase == MigratePhase::Check
            && i == st.file + 1,
{
    match ev {
        MigrateEvent::Checked { file_present, secret_present } => {
            if needs_migration(file_present, secret_present) {
                (
                    MigrateState { file: st.file, phase: MigratePhase::Read, migrated: st.migrated },
                    MigrateAction::Decrypt(st.file),
                )
            } else {
                migrate_next_file(st.file, st.migrated)
            }
        },
        MigrateEvent::Decrypted(Ok(secret)) => (
            MigrateState { file: st.file, phase: MigratePhase::Store, migrated: st.migrated },
            MigrateAction::Store(st.file, secret),
        ),
        MigrateEvent::Decrypted(Err(e)) => (
            MigrateState { file: st.file, phase: MigratePhase::Done, migrated: st.migrated },
            MigrateAction::Finish(Err(e)),
        ),
        MigrateEvent::Stored(Ok(())) => migrate_next_file(st.file, true),
        MigrateEvent::Stored(Err(e)) => (
            MigrateState { file: st.file, phase: MigratePhase::Done, migrated: st.migrated },
            MigrateAction::Finish(Err(e)),
        ),
    }
}

} // verus!
