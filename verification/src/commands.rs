//! The decisions behind the app's commands: live-channel choice, safe-restart guards,
//! player-id forms, and the messages the commands report.
use vstd::prelude::*;
use crate::backup::BackupReport;
use crate::config_store::{
    has_secret, set_secret, AppSettings, KEY_ADMIN_PASSWORD, KEY_FTP_PASSWORD,
};
use crate::ordering::{
    firsts, lemma_lex_asymmetric, lemma_stable_descending_same_keys, lemma_stable_descending_unique,
    lex_lt, order_by_text_desc, sorted_unique_keys, stable_descending, strictly_ascending,
};
use crate::text::{
    chars_of, decimal, find_char, find_from, lemma_find_from, lemma_rfind_char, push_all,
    push_decimal, push_str, rfind_char, rfind_char_in, starts_with, starts_with_chars, string_of,
    strip_all, strip_all_start, sub_vec, texts, trim, trim_bounds,
};

verus! {

/// Which secrets are saved.
pub struct SecretsPresent {
    pub ftp: bool,
    pub admin: bool,
}

/// Result of an SFTP connection probe.
pub struct SftpProbe {
    pub ok: bool,
    pub message: String,
    pub sample: Vec<String>,
}

/// Server identity as reported by the live channel.
pub struct LiveInfo {
    pub source: String,
    pub servername: Option<String>,
    pub version: Option<String>,
    pub worldguid: Option<String>,
    pub raw: Option<String>,
}

/// What a safe restart did.
pub struct SafeRestartReport {
    pub backup: BackupReport,
    pub player_checks: u8,
    pub waittime: u32,
    pub recovery_seconds: u64,
}

/// One snapshot in the local backup folder.
pub struct BackupHistoryItem {
    pub name: String,
    pub bytes: u64,
    pub modified: String,
}

/// The settings as the config editor shows them.
pub struct PalConfigView {
    pub pairs: Vec<(String, String)>,
    pub source: String,
}

/// One installed mod.
pub struct ModEntry {
    pub name: String,
    pub kind: String,
    pub path: String,
}

// ---------------------------------------------------------------- secrets

/// Which secrets the keychain holds (non-empty).
pub fn get_secrets_present() -> (r: SecretsPresent) {
    SecretsPresent { ftp: has_secret(KEY_FTP_PASSWORD), admin: has_secret(KEY_ADMIN_PASSWORD) }
}

/// Saves the SFTP password in the keychain; an empty one removes it.
pub fn set_ftp_password(password: String) -> (r: Result<(), String>) {
    set_secret(KEY_FTP_PASSWORD, password.as_str())
}

/// Saves the server's admin password in the keychain; an empty one removes it.
pub fn set_admin_password(password: String) -> (r: Result<(), String>) {
    set_secret(KEY_ADMIN_PASSWORD, password.as_str())
}

/// Backups go off-site exactly when a remote repository is configured.
pub fn backup_offsite_status(s: &AppSettings) -> (r: bool)
    ensures
        r == (s.repo_remote@.len() > 0),
{
    !s.repo_remote.as_str().is_empty()
}

// ---------------------------------------------------------------- live channel

/// The live-control channel a command uses.
#[derive(Debug, PartialEq, Eq, Structural)]
pub enum LiveChannelKind {
    Rest,
    Rcon,
    Disabled,
}

pub open spec fn err_no_admin_password() -> Seq<char> {
    "No Admin Password saved — Settings → Live Control."@
}

/// REST when it is enabled and has a URL, else RCON when it is enabled and has a host;
/// either needs the admin password.
pub fn live_channel(s: &AppSettings, admin_password_saved: bool) -> (r: Result<LiveChannelKind, String>)
    ensures
        !admin_password_saved ==> (r matches Err(e) && e@ == err_no_admin_password()),
        admin_password_saved && s.rest_enabled && s.rest_url@.len() > 0 ==> r == Ok::<_, String>(
            LiveChannelKind::Rest,
        ),
        admin_password_saved && !(s.rest_enabled && s.rest_url@.len() > 0) && s.rcon_enabled
            && s.rcon_host@.len() > 0 ==> r == Ok::<_, String>(LiveChannelKind::Rcon),
        admin_password_saved && !(s.rest_enabled && s.rest_url@.len() > 0) && !(s.rcon_enabled
            && s.rcon_host@.len() > 0) ==> r == Ok::<_, String>(LiveChannelKind::Disabled),
{
    if !admin_password_saved {
        return Err(String::from_str("No Admin Password saved — Settings → Live Control."));
    }
    if s.rest_enabled && !s.rest_url.as_str().is_empty() {
        return Ok(LiveChannelKind::Rest);
    }
    if s.rcon_enabled && !s.rcon_host.as_str().is_empty() {
        return Ok(LiveChannelKind::Rcon);
    }
    Ok(LiveChannelKind::Disabled)
}

/// Server name and version in an RCON `Info` reply `Name [version]`: the version is
/// between the last `[` and the `]` after it, the name is what precedes it, trimmed.
/// Without a bracketed version the whole trimmed reply is the name.
pub open spec fn rcon_info_fields(t: Seq<char>) -> (Seq<char>, Option<Seq<char>>) {
    match rfind_char(t, '[') {
        Some(cut) => match find_from(t, seq![']'], cut) {
            Some(e) => (trim(t.take(cut)), Some(t.subrange(cut + 1, e))),
            None => (t, None),
        },
        None => (t, None),
    }
}

/// Server identity from the raw reply to RCON `Info`.
pub fn live_info_from_rcon(raw: String) -> (r: LiveInfo)
    ensures
        r.source@ == "rcon"@,
        r.servername matches Some(n) && n@ == rcon_info_fields(trim(raw@)).0,
        match rcon_info_fields(trim(raw@)).1 {
            Some(v) => r.version matches Some(x) && x@ == v,
            None => r.version is None,
        },
        r.worldguid is None,
        r.raw matches Some(x) && x@ == raw@,
{
    let cs = chars_of(raw.as_str());
    let (a, b) = trim_bounds(&cs, 0, cs.len());
    let t = sub_vec(&cs, a, b);
    assert(cs@.subrange(0, cs@.len() as int) == cs@);
    let mut servername = string_of(&t);
    let mut version: Option<String> = None;
    match rfind_char_in(&t, t.len(), '[') {
        Some(cut) => {
            assert(t@.take(t@.len() as int) == t@);
            match find_char(&t, ']', cut) {
                Some(e) => {
                    proof {
                        lemma_find_from(t@, seq![']'], cut as int);
                        lemma_rfind_char(t@, '[');
                        assert(t@.subrange(e as int, e + 1)[0] == t@[e as int]);
                    }
                    version = Some(string_of(&sub_vec(&t, cut + 1, e)));
                    let (x, y) = trim_bounds(&t, 0, cut);
                    assert(t@.subrange(0, cut as int) == t@.take(cut as int));
                    servername = string_of(&sub_vec(&t, x, y));
                },
                None => {},
            }
        },
        None => {
            assert(t@.take(t@.len() as int) == t@);
        },
    }
    LiveInfo {
        source: String::from_str("rcon"),
        servername: Some(servername),
        version,
        worldguid: None,
        raw: Some(raw),
    }
}

/// The player id the REST API expects: with the `steam_` prefix.
pub fn rest_user_id(userid: &str) -> (r: String)
    ensures
        starts_with(userid@, "steam_"@) ==> r@ == userid@,
        !starts_with(userid@, "steam_"@) ==> r@ == "steam_"@ + userid@,
{
    let cs = chars_of(userid);
    let p = chars_of("steam_");
    if starts_with_chars(&cs, &p) {
        String::from_str(userid)
    } else {
        let mut v = p;
        push_all(&mut v, &cs);
        string_of(&v)
    }
}

/// The player id RCON expects: every leading `steam_` removed.
pub fn rcon_user_id(userid: &str) -> (r: String)
    ensures
        r@ == strip_all(userid@, "steam_"@),
{
    let cs = chars_of(userid);
    let p = chars_of("steam_");
    let i = strip_all_start(&cs, &p);
    string_of(&sub_vec(&cs, i, cs.len()))
}

// ---------------------------------------------------------------- safe restart

pub open spec fn msg_players_joined(n: nat) -> Seq<char> {
    "Backup completed, but restart was blocked because "@ + decimal(n) + " player(s) joined."@
}

pub open spec fn msg_players_online(n: nat) -> Seq<char> {
    "Restart blocked: "@ + decimal(n) + " player(s) are online. Wait until the server is empty."@
}

/// A restart needs an empty server, both before the backup and after it.
pub fn require_empty_server(player_count: usize, after_backup: bool) -> (r: Result<(), String>)
    ensures
        player_count == 0 <==> r is Ok,
        player_count > 0 && after_backup ==> (r matches Err(e) && e@ == msg_players_joined(
            player_count as nat,
        )),
        player_count > 0 && !after_backup ==> (r matches Err(e) && e@ == msg_players_online(
            player_count as nat,
        )),
{
    if player_count == 0 {
        return Ok(());
    }
    let mut m: Vec<char> = Vec::new();
    if after_backup {
        push_str(&mut m, "Backup completed, but restart was blocked because ");
        push_decimal(&mut m, player_count as u64);
        push_str(&mut m, " player(s) joined.");
    } else {
        push_str(&mut m, "Restart blocked: ");
        push_decimal(&mut m, player_count as u64);
        push_str(&mut m, " player(s) are online. Wait until the server is empty.");
    }
    Err(string_of(&m))
}

pub open spec fn msg_no_snapshot() -> Seq<char> {
    "Restart blocked: the backup completed without a verified world snapshot."@
}

pub open spec fn msg_not_offsite() -> Seq<char> {
    "Restart blocked: the verified backup was not pushed off-site."@
}

/// A restart needs a backup that captured at least one world archive and was pushed.
pub fn require_verified_snapshot(backup: &BackupReport) -> (r: Result<(), String>)
    ensures
        (backup.worlds@.len() == 0 || backup.archives@.len() == 0) ==> (r matches Err(e) && e@
            == msg_no_snapshot()),
        (backup.worlds@.len() > 0 && backup.archives@.len() > 0 && !backup.pushed) ==> (r matches Err(
            e,
        ) && e@ == msg_not_offsite()),
        (backup.worlds@.len() > 0 && backup.archives@.len() > 0 && backup.pushed) ==> r is Ok,
{
    if backup.worlds.len() == 0 || backup.archives.len() == 0 {
        Err(String::from_str("Restart blocked: the backup completed without a verified world snapshot."))
    } else if !backup.pushed {
        Err(String::from_str("Restart blocked: the verified backup was not pushed off-site."))
    } else {
        Ok(())
    }
}

/// Seconds a restart waits for the server to come back.
pub const RESTART_RECOVERY_LIMIT_SECS: u64 = 180;

/// Seconds of warning a safe restart gives.
pub const RESTART_WAITTIME: u32 = 10;

/// What one poll of the server during a safe restart tells.
#[derive(Debug, PartialEq, Eq, Structural)]
pub enum RestartWatch {
    /// The server answered after it had been seen down.
    Recovered,
    /// Keep polling; carries whether the shutdown has been seen.
    Waiting(bool),
}

/// One poll: an unanswered poll means the shutdown happened; an answered one after that
/// means the server is back.
pub fn restart_poll(saw_shutdown: bool, info_ok: bool) -> (r: RestartWatch)
    ensures
        !info_ok ==> r == RestartWatch::Waiting(true),
        info_ok && saw_shutdown ==> r == RestartWatch::Recovered,
        info_ok && !saw_shutdown ==> r == RestartWatch::Waiting(false),
{
    if !info_ok {
        RestartWatch::Waiting(true)
    } else if saw_shutdown {
        RestartWatch::Recovered
    } else {
        RestartWatch::Waiting(false)
    }
}

pub open spec fn bool_text(b: bool) -> Seq<char> {
    if b {
        "true"@
    } else {
        "false"@
    }
}

pub open spec fn msg_recovery_timeout(saw: bool) -> Seq<char> {
    "Backup is safe and shutdown was accepted, but server recovery was not confirmed within 180 seconds (shutdown observed: "@
        + bool_text(saw) + ")."@
}

/// The restart gives up once the recovery limit has passed.
pub fn restart_deadline(elapsed_secs: u64, saw_shutdown: bool) -> (r: Result<(), String>)
    ensures
        elapsed_secs < 180 <==> r is Ok,
        elapsed_secs >= 180 ==> (r matches Err(e) && e@ == msg_recovery_timeout(saw_shutdown)),
{
    if elapsed_secs < RESTART_RECOVERY_LIMIT_SECS {
        return Ok(());
    }
    let mut m = chars_of(
        "Backup is safe and shutdown was accepted, but server recovery was not confirmed within 180 seconds (shutdown observed: ",
    );
    if saw_shutdown {
        push_str(&mut m, "true");
    } else {
        push_str(&mut m, "false");
    }
    push_str(&mut m, ").");
    Err(string_of(&m))
}

// ---------------------------------------------------------------- messages

pub open spec fn entries_word(n: nat) -> Seq<char> {
    if n == 1 {
        "y"@
    } else {
        "ies"@
    }
}

/// `Connected to {host}:{port}. Found {n} entr{y|ies} in {path}.`
pub open spec fn probe_message_spec(host: Seq<char>, port: nat, n: nat, path: Seq<char>) -> Seq<char> {
    "Connected to "@ + host + ":"@ + decimal(port) + ". Found "@ + decimal(n) + " entr"@
        + entries_word(n) + " in "@ + path + "."@
}

/// The message of a successful SFTP probe.
pub fn probe_message(host: &str, port: u16, entries: usize, path: &str) -> (r: String)
    ensures
        r@ == probe_message_spec(host@, port as nat, entries as nat, path@),
{
    let mut m = chars_of("Connected to ");
    push_str(&mut m, host);
    push_str(&mut m, ":");
    push_decimal(&mut m, port as u64);
    push_str(&mut m, ". Found ");
    push_decimal(&mut m, entries as u64);
    push_str(&mut m, " entr");
    if entries == 1 {
        push_str(&mut m, "y");
    } else {
        push_str(&mut m, "ies");
    }
    push_str(&mut m, " in ");
    push_str(&mut m, path);
    push_str(&mut m, ".");
    string_of(&m)
}

/// Where the server keeps its config, relative to the SFTP root: the configured
/// directory, or else the Linux and then the Windows server directory.
pub fn config_candidates(config_dir: &str) -> (r: Vec<String>)
    ensures
        config_dir@.len() > 0 ==> r@.len() == 1 && r@[0]@ == config_dir@,
        config_dir@.len() == 0 ==> r@.len() == 2 && r@[0]@ == "Pal/Saved/Config/LinuxServer"@
            && r@[1]@ == "Pal/Saved/Config/WindowsServer"@,
{
    let mut v: Vec<String> = Vec::new();
    if !config_dir.is_empty() {
        v.push(String::from_str(config_dir));
    } else {
        v.push(String::from_str("Pal/Saved/Config/LinuxServer"));
        v.push(String::from_str("Pal/Saved/Config/WindowsServer"));
    }
    v
}

/// `{dir}/PalWorldSettings.ini`.
pub fn settings_ini_path(dir: &str) -> (r: String)
    ensures
        r@ == dir@ + "/PalWorldSettings.ini"@,
{
    let mut m = chars_of(dir);
    push_str(&mut m, "/PalWorldSettings.ini");
    string_of(&m)
}

/// `{dir}/PalWorldSettings.ini.bak-{ts}`: where the previous settings file is kept.
pub fn settings_backup_path(dir: &str, ts: &str) -> (r: String)
    ensures
        r@ == dir@ + "/PalWorldSettings.ini.bak-"@ + ts@,
{
    let mut m = chars_of(dir);
    push_str(&mut m, "/PalWorldSettings.ini.bak-");
    push_str(&mut m, ts);
    string_of(&m)
}

pub open spec fn config_saved_spec(n: nat, path: Seq<char>, ts: Seq<char>, warning: Option<Seq<char>>) -> Seq<char> {
    "Saved "@ + decimal(n) + " change"@ + (if n == 1 {
        ""@
    } else {
        "s"@
    }) + " to "@ + path + " (previous file backed up as PalWorldSettings.ini.bak-"@ + ts + ")."@
        + match warning {
        Some(w) => " Discord notification warning: "@ + w,
        None => Seq::empty(),
    }
}

/// The message `config_save` reports after writing the settings.
pub fn config_saved_message(changes: usize, path: &str, ts: &str, warning: Option<&str>) -> (r: String)
    ensures
        r@ == config_saved_spec(
            changes as nat,
            path@,
            ts@,
            match warning {
                Some(w) => Some(w@),
                None => None,
            },
        ),
{
    let mut m = chars_of("Saved ");
    push_decimal(&mut m, changes as u64);
    push_str(&mut m, " change");
    if changes != 1 {
        push_str(&mut m, "s");
    } else {
        push_str(&mut m, "");
    }
    push_str(&mut m, " to ");
    push_str(&mut m, path);
    push_str(&mut m, " (previous file backed up as PalWorldSettings.ini.bak-");
    push_str(&mut m, ts);
    push_str(&mut m, ").");
    match warning {
        Some(w) => {
            push_str(&mut m, " Discord notification warning: ");
            push_str(&mut m, w);
        },
        None => {
            assert(m@ + Seq::<char>::empty() == m@);
        },
    }
    string_of(&m)
}

/// Where mods can live on the server, and what kind each location holds.
pub fn mod_locations() -> (r: Vec<(&'static str, &'static str)>)
    ensures
        r@.len() == 5,
        r@[0].0@ == "Pal/Content/Paks/~mods"@ && r@[0].1@ == "loose-pak"@,
        r@[1].0@ == "Pal/Content/Paks/~WorkshopMods"@ && r@[1].1@ == "workshop"@,
        r@[2].0@ == "Pal/Content/Paks/LogicMods"@ && r@[2].1@ == "logic"@,
        r@[3].0@ == "Pal/Binaries/Linux/ue4ss/Mods"@ && r@[3].1@ == "ue4ss"@,
        r@[4].0@ == "Pal/Binaries/Win64/ue4ss/Mods"@ && r@[4].1@ == "ue4ss"@,
{
    let mut v = Vec::new();
    v.push(("Pal/Content/Paks/~mods", "loose-pak"));
    v.push(("Pal/Content/Paks/~WorkshopMods", "workshop"));
    v.push(("Pal/Content/Paks/LogicMods", "logic"));
    v.push(("Pal/Binaries/Linux/ue4ss/Mods", "ue4ss"));
    v.push(("Pal/Binaries/Win64/ue4ss/Mods", "ue4ss"));
    v
}

// ---------------------------------------------------------------- history

/// `p` orders the entries newest first: by modification time, the text
/// `%Y-%m-%d %H:%M:%S`, from the last in text order down, equal times kept in order.
pub open spec fn history_order(items: Seq<BackupHistoryItem>, p: Seq<usize>) -> bool {
    stable_descending(
        p,
        items.len(),
        |a: int, b: int| lex_lt(items[b].modified@, items[a].modified@),
    )
}

/// There is one such order: the entries' times fix it.
pub proof fn lemma_history_order_unique(items: Seq<BackupHistoryItem>, p: Seq<usize>, q: Seq<usize>)
    requires
        history_order(items, p),
        history_order(items, q),
    ensures
        p == q,
{
    let gt = |a: int, b: int| lex_lt(items[b].modified@, items[a].modified@);
    assert forall|a: int, b: int| #[trigger] gt(a, b) implies !gt(b, a) by {
        lemma_lex_asymmetric(items[b].modified@, items[a].modified@);
    }
    lemma_stable_descending_unique(p, q, items.len(), gt);
}

/// The history's entries, newest first: ordered by their modification time, the text
/// `%Y-%m-%d %H:%M:%S`, from the last in text order down, equal times in the order given.
pub fn sort_history(items: Vec<BackupHistoryItem>) -> (r: Vec<BackupHistoryItem>)
    ensures
        r@.len() == items@.len(),
        exists|p: Seq<usize>|
            #[trigger] history_order(items@, p) && forall|i: int|
                0 <= i < r@.len() ==> (#[trigger] r@[i]).name@ == items@[p[i] as int].name@
                    && r@[i].bytes == items@[p[i] as int].bytes && r@[i].modified@
                    == items@[p[i] as int].modified@,
{
    let mut keys: Vec<String> = Vec::new();
    let mut i: usize = 0;
    while i < items.len()
        invariant
            i <= items@.len(),
            keys@.len() == i,
            forall|k: int| 0 <= k < i ==> (#[trigger] keys@[k])@ == items@[k].modified@,
        decreases items@.len() - i,
    {
        keys.push(items[i].modified.clone());
        i += 1;
    }
    let order = order_by_text_desc(&keys);
    proof {
        lemma_stable_descending_same_keys(
            order@,
            items@.len(),
            |a: int, b: int| lex_lt(keys@[b]@, keys@[a]@),
            |a: int, b: int| lex_lt(items@[b].modified@, items@[a].modified@),
        );
    }
    let mut out: Vec<BackupHistoryItem> = Vec::new();
    let mut j: usize = 0;
    while j < order.len()
        invariant
            j <= order@.len(),
            order@.len() == items@.len(),
            forall|k: int| 0 <= k < order@.len() ==> #[trigger] order@[k] < items@.len(),
            out@.len() == j,
            forall|k: int|
                0 <= k < j ==> (#[trigger] out@[k]).name@ == items@[order@[k] as int].name@
                    && out@[k].bytes == items@[order@[k] as int].bytes && out@[k].modified@
                    == items@[order@[k] as int].modified@,
        decreases order@.len() - j,
    {
        let it = &items[order[j]];
        out.push(
            BackupHistoryItem {
                name: it.name.clone(),
                bytes: it.bytes,
                modified: it.modified.clone(),
            },
        );
        j += 1;
    }
    assert(history_order(items@, order@));
    out
}

// ---------------------------------------------------------------- config change events

/// A note that the server settings changed, for the notification queue. It names the
/// changed keys and never their values.
pub struct ConfigChangeEvent {
    pub event_type: &'static str,
    pub source: &'static str,
    pub changed_keys: Vec<String>,
    pub created_at: String,
}

/// The event for a set of updates made at `created_at`: the keys, sorted and without
/// repeats.
pub fn config_change_event_at(updates: &[(String, String)], created_at: String) -> (r:
    ConfigChangeEvent)
    ensures
        r.event_type@ == "config_changed"@,
        r.source@ == "PAL COMMAND dashboard"@,
        strictly_ascending(texts(r.changed_keys@)),
        forall|k: Seq<char>| texts(r.changed_keys@).contains(k) <==> firsts(updates@).contains(k),
        r.created_at@ == created_at@,
{
    ConfigChangeEvent {
        event_type: "config_changed",
        source: "PAL COMMAND dashboard",
        changed_keys: sorted_unique_keys(updates),
        created_at,
    }
}

/// `chrono::Utc::now().to_rfc3339()`: the current time in RFC 3339 form. It depends on
/// the clock, so nothing is stated of it.
#[verifier::external_body]
fn utc_now_rfc3339() -> (r: String) {
    chrono::Utc::now().to_rfc3339()
}

/// The event for a set of updates made now.
pub fn config_change_event(updates: &[(String, String)]) -> (r: ConfigChangeEvent)
    ensures
        r.event_type@ == "config_changed"@,
        r.source@ == "PAL COMMAND dashboard"@,
        strictly_ascending(texts(r.changed_keys@)),
        forall|k: Seq<char>| texts(r.changed_keys@).contains(k) <==> firsts(updates@).contains(k),
{
    config_change_event_at(updates, utc_now_rfc3339())
}

} // verus!
