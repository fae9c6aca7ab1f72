//! A whole backup run as a step machine: quiesce the server, pull, check the worlds (with
//! one more pull after a forced save), write the configs (redacted) and the world
//! archives, prune, commit and push. The app performs each action and reports back.
use vstd::prelude::*;
use crate::archive::{file_entries, gzip, make_targz, tar_stream};
use crate::backup::{
    archive_name, backup_commit_message, can_resave, check_backup_settings, drop_torn_levels,
    guid_cut_ok, integrity_action, is_ini, level_size_warning, no_live_channel_warning,
    quiesce_plan, quiesce_wait_secs, rcon_usable, redact_config, redact_spec, require_captured, rest_usable,
    err_no_repo, err_no_sftp, player_count, save_failed_warning, secret_lines, short_guid, sidecar_header, should_push, torn, sidecar_file, sidecar_section, torn_guids,
    torn_warning, torn_worlds, unpushed_warning, world_files, ArchiveInfo, BackupReport,
    IntegrityAction, PulledWorld, Quiesce, LEVEL_SIZE_WARN,
};
use crate::config_store::AppSettings;
use crate::palconfig::pairs_model;
use crate::savecheck::valid_sav;
use crate::text::{
    chars_of, decimal, ends_with, from_utf8_lossy, push_str, string_of, texts, utf8_lossy,
};

verus! {

/// Where a backup run stands.
#[derive(Debug, PartialEq, Eq, Structural)]
pub enum BackupStage {
    /// Forcing a save or stopping the server.
    Quiesce,
    /// Giving the server time to write.
    Settle,
    /// Pulling the files.
    Pull,
    /// Forcing one more save after a torn pull.
    Resave,
    /// Making the repository folders and taking the time stamp.
    Prepare,
    /// Writing a config file.
    Configs,
    /// Writing the secrets sidecar.
    Sidecar,
    /// Having a large `Level.sav`'s size put in words.
    Size,
    /// Writing a world archive.
    Archive,
    /// Pruning old archives and writing the repository's own files.
    Tidy,
    /// Committing.
    Commit,
    /// Finding out whether the repository has its remote.
    Remote,
    /// Pushing.
    Push,
    /// Finished.
    Done,
}

/// A backup run in progress, with what it has so far.
pub struct BackupRun {
    pub stage: BackupStage,
    pub plan: Quiesce,
    /// Whether REST is usable (else a forced save goes over RCON).
    pub rest: bool,
    /// Whether a torn pull can be retried after a forced save.
    pub resave: bool,
    /// Whether a remote is configured.
    pub remote_set: bool,
    /// How many archives to keep.
    pub retention: u32,
    /// Pulls made so far.
    pub pulls: u8,
    /// Whether a save was forced after a torn pull.
    pub resaved: bool,
    /// Config files still to write.
    pub configs: Vec<(String, Vec<u8>)>,
    /// Worlds still to archive.
    pub worlds: Vec<PulledWorld>,
    pub ts: String,
    /// The sidecar's sections so far.
    pub sections: String,
    /// The config file being written.
    pub current_name: String,
    /// The world being archived, while its size is put in words.
    pub current: Option<PulledWorld>,
    /// The archive being written: name, size, world and its player saves.
    pub pending: Option<(ArchiveInfo, String, usize)>,
    /// Size of the `Level.sav` in the archive being written.
    pub level_len: usize,
    pub configs_written: Vec<String>,
    pub worlds_ok: Vec<String>,
    pub archives: Vec<ArchiveInfo>,
    pub players: usize,
    pub warnings: Vec<String>,
    pub committed: bool,
    pub pushed: bool,
    pub message: String,
    /// The config files of the pull being written, as text and bytes.
    pub config_log: Ghost<Seq<(Seq<char>, Seq<u8>)>>,
    /// The worlds of the pull being written, torn levels dropped.
    pub kept: Ghost<Seq<PulledWorld>>,
}

/// What the app reports back to a backup run.
pub enum BackupEvent {
    /// The outcome of the quiesce request.
    Quiesced(Result<(), String>),
    /// The forced save after a torn pull was sent (its outcome does not matter).
    Resaved,
    /// The pause is over.
    Waited,
    /// The pulled config files and worlds, or why the pull failed.
    Pulled(Result<(Vec<(String, Vec<u8>)>, Vec<PulledWorld>), String>),
    /// The time stamp once the repository folders exist, or why they could not be made.
    Prepared(Result<String, String>),
    /// The outcome of the last file write.
    Wrote(Result<(), String>),
    /// The size of the large `Level.sav`, as shown to the user.
    SizeText(String),
    /// Pruning and the repository's own files are done (their outcome does not matter).
    Tidied,
    /// Whether a commit was made, or why committing failed.
    Committed(Result<bool, String>),
    /// Whether the repository has its remote.
    RemoteChecked(bool),
    /// The outcome of the push.
    Pushed(Result<(), String>),
}

/// What a backup run asks of the app.
pub enum BackupAction {
    /// Carry out this quiesce plan.
    Quiesce(Quiesce),
    /// Force a save: over REST when `true`, else over RCON.
    Resave(bool),
    /// Pause this many seconds.
    Wait(u64),
    /// Pull the config files and worlds.
    Pull,
    /// Make the repository folders, then take the time stamp.
    PrepareRepo,
    /// Write this text as the config file of this name.
    WriteText(String, String),
    /// Write these bytes as the config file of this name.
    WriteBytes(String, Vec<u8>),
    /// Write the secrets sidecar.
    WriteSidecar(String),
    /// Put this many bytes in words.
    DescribeSize(usize),
    /// Write this world archive.
    WriteArchive(String, Vec<u8>),
    /// Prune the archives to this many and write the repository's own files.
    Tidy(u32),
    /// Commit everything with this message.
    Commit(String),
    /// Find out whether the repository has its remote.
    CheckRemote,
    /// Push the commit.
    Push,
    /// Stop with this outcome.
    Finish(Result<BackupReport, String>),
}

/// Every world still to archive that has a `Level.sav` has a guid that can be cut after
/// eight bytes (a world folder's name).
pub open spec fn guids_cut(ws: Seq<PulledWorld>) -> bool {
    forall|i: int| 0 <= i < ws.len() ==> (#[trigger] ws[i]).level is Some ==> guid_cut_ok(ws[i].guid@)
}

/// The names of config files given as text and bytes.
pub open spec fn entry_names(es: Seq<(Seq<char>, Seq<u8>)>) -> Seq<Seq<char>> {
    es.map_values(|e: (Seq<char>, Seq<u8>)| e.0)
}

/// The sidecar section a config file contributes: its secrets, when it is an `.ini`
/// that had any taken out.
pub open spec fn config_section(e: (Seq<char>, Seq<u8>)) -> Seq<char> {
    let secrets = redact_spec(utf8_lossy(e.1)).1;
    if ends_with(e.0, ".ini"@) && secrets.len() > 0 {
        "["@ + e.0 + "]\n"@ + secret_lines(secrets) + "\n"@
    } else {
        Seq::empty()
    }
}

/// The sidecar sections of config files, in order.
pub open spec fn sidecar_sections(es: Seq<(Seq<char>, Seq<u8>)>) -> Seq<char>
    decreases es.len(),
{
    if es.len() == 0 {
        Seq::empty()
    } else {
        sidecar_sections(es.drop_last()) + config_section(es.last())
    }
}

/// The guids of the worlds that have a `Level.sav`, in order: the worlds a backup captures.
pub open spec fn captured(ws: Seq<PulledWorld>) -> Seq<Seq<char>>
    decreases ws.len(),
{
    if ws.len() == 0 {
        Seq::empty()
    } else if ws.last().level is Some {
        captured(ws.drop_last()).push(ws.last().guid@)
    } else {
        captured(ws.drop_last())
    }
}

/// The player saves of the worlds that have a `Level.sav`: for each, the number of its
/// other files under `Players/`, summed.
pub open spec fn players_in(ws: Seq<PulledWorld>) -> nat
    decreases ws.len(),
{
    if ws.len() == 0 {
        0
    } else if ws.last().level is Some {
        players_in(ws.drop_last()) + player_count(ws.last().others@)
    } else {
        players_in(ws.drop_last())
    }
}

/// A count as a `usize` holds it: itself, or the largest `usize` when it is larger.
pub open spec fn capped(n: nat) -> nat {
    if n > usize::MAX {
        usize::MAX as nat
    } else {
        n
    }
}

/// Every `Level.sav` left passes the save check.
pub open spec fn sound_levels(ws: Seq<PulledWorld>) -> bool {
    forall|i: int| 0 <= i < ws.len() ==> ((#[trigger] ws[i]).level matches Some(l) ==> valid_sav(l@))
}

/// `{ts}_{first eight bytes of the guid}.tar.gz`.
pub open spec fn archive_name_spec(ts: Seq<char>, guid: Seq<char>) -> Seq<char> {
    ts + "_"@ + short_guid(guid) + ".tar.gz"@
}

/// Each archive is named after the run's time stamp and its world.
pub open spec fn archives_named(ts: Seq<char>, worlds: Seq<String>, archives: Seq<ArchiveInfo>) -> bool {
    &&& archives.len() == worlds.len()
    &&& forall|i: int| 0 <= i < archives.len() ==> (#[trigger] archives[i]).name@ == archive_name_spec(
        ts,
        worlds[i]@,
    )
}

/// The files of a world's snapshot: `Level.sav` first, then its other files.
pub open spec fn world_entries(w: PulledWorld) -> Seq<(Seq<char>, Seq<u8>)> {
    seq![("Level.sav"@, w.level->Some_0@)] + file_entries(w.others@)
}

/// How many of the pull's worlds were taken up so far.
pub open spec fn worlds_done(st: BackupRun) -> int {
    st.kept@.len() - st.worlds@.len()
}

/// The world taken up last.
pub open spec fn current_world(st: BackupRun) -> PulledWorld {
    st.kept@[worlds_done(st) - 1]
}

/// How many config files were taken up so far.
pub open spec fn configs_done(st: BackupRun) -> int {
    st.configs_written@.len() + if st.stage == BackupStage::Configs {
        1int
    } else {
        0int
    }
}

/// The stages from the pull's acceptance to the push.
pub open spec fn writing(stage: BackupStage) -> bool {
    stage != BackupStage::Quiesce && stage != BackupStage::Settle && stage != BackupStage::Pull
        && stage != BackupStage::Resave && stage != BackupStage::Done
}

/// The stages after all config files were taken up.
pub open spec fn configs_over(stage: BackupStage) -> bool {
    stage == BackupStage::Sidecar || stage == BackupStage::Size || stage == BackupStage::Archive
        || stage == BackupStage::Tidy || stage == BackupStage::Commit || stage == BackupStage::Remote
        || stage == BackupStage::Push
}

/// The stages after all worlds were taken up.
pub open spec fn worlds_over(stage: BackupStage) -> bool {
    stage == BackupStage::Tidy || stage == BackupStage::Commit || stage == BackupStage::Remote
        || stage == BackupStage::Push
}

/// While writing, what was written accounts for the pull: the config files written are the
/// pull's first ones and the rest wait in order, the sidecar so far holds their secrets;
/// the worlds captured are those taken up that have a `Level.sav`, each with its archive.
pub open spec fn writing_wf(st: BackupRun) -> bool {
    let k = configs_done(st);
    let o = worlds_done(st);
    let mid = st.stage == BackupStage::Size || st.stage == BackupStage::Archive;
    &&& 0 <= k <= st.config_log@.len()
    &&& texts(st.configs_written@) == entry_names(st.config_log@.take(st.configs_written@.len() as int))
    &&& st.stage == BackupStage::Configs ==> st.current_name@ == st.config_log@[st.configs_written@.len() as int].0
    &&& file_entries(st.configs@) == st.config_log@.skip(k)
    &&& st.sections@ == sidecar_sections(st.config_log@.take(k))
    &&& 0 <= o <= st.kept@.len()
    &&& st.worlds@ == st.kept@.skip(o)
    &&& mid ==> o >= 1 && current_world(st).level is Some && captured(st.kept@.take(o)) == texts(
        st.worlds_ok@,
    ).push(current_world(st).guid@)
    &&& !mid ==> captured(st.kept@.take(o)) == texts(st.worlds_ok@)
    &&& mid ==> st.players == capped(players_in(st.kept@.take(o - 1)))
    &&& !mid ==> st.players == capped(players_in(st.kept@.take(o)))
    &&& sound_levels(st.kept@)
    &&& guids_cut(st.kept@)
    &&& archives_named(st.ts@, st.worlds_ok@, st.archives@)
}

/// The state is well formed.
pub open spec fn backup_wf(st: BackupRun) -> bool {
    &&& st.pulls <= 2
    &&& st.pulls == 2 ==> st.resaved
    &&& st.resaved ==> st.pulls >= 1
    &&& st.stage == BackupStage::Pull ==> st.pulls >= 1
    &&& st.stage == BackupStage::Resave ==> st.resaved && st.pulls == 1
    &&& (st.stage == BackupStage::Quiesce || st.stage == BackupStage::Settle) ==> (st.pulls == 0
        || (st.pulls == 1 && st.resaved))
    &&& guids_cut(st.worlds@)
    &&& st.stage == BackupStage::Size ==> (st.current == Some(current_world(st)) && guid_cut_ok(
        current_world(st).guid@,
    ) && (current_world(st).level matches Some(l) && l@.len() > LEVEL_SIZE_WARN))
    &&& st.pushed ==> (st.stage == BackupStage::Push || st.stage == BackupStage::Done)
    &&& (st.stage == BackupStage::Remote || st.stage == BackupStage::Push) ==> st.committed
        && st.remote_set
    &&& st.stage == BackupStage::Archive ==> (st.pending matches Some((info, g, n)) && g@
        == current_world(st).guid@ && info.name@ == archive_name_spec(st.ts@, g@) && n
        == player_count(current_world(st).others@))
    &&& (!writing(st.stage) && st.stage != BackupStage::Done) ==> st.configs_written@.len() == 0
        && st.worlds_ok@.len() == 0 && st.archives@.len() == 0 && st.sections@.len() == 0
        && st.players == 0
    &&& writing(st.stage) ==> writing_wf(st)
    &&& (st.stage == BackupStage::Prepare || st.stage == BackupStage::Configs) ==> st.worlds_ok@.len()
        == 0 && st.archives@.len() == 0 && worlds_done(st) == 0
    &&& configs_over(st.stage) ==> st.configs@.len() == 0
    &&& worlds_over(st.stage) ==> st.worlds@.len() == 0 && (st.worlds_ok@.len() > 0
        || st.configs_written@.len() > 0)
    &&& (st.stage == BackupStage::Commit || st.stage == BackupStage::Remote || st.stage
        == BackupStage::Push) ==> st.message@ == commit_message_spec(
        st.ts@,
        st.worlds_ok@.len(),
        st.players as nat,
        st.configs_written@.len(),
    )
}

/// The event answers what the stage asked.
pub open spec fn backup_event_fits(st: BackupRun, ev: BackupEvent) -> bool {
    &&& backup_wf(st)
    &&& st.stage != BackupStage::Done
    &&& st.stage == BackupStage::Quiesce ==> ev is Quiesced
    &&& st.stage == BackupStage::Resave ==> ev is Resaved
    &&& st.stage == BackupStage::Settle ==> ev is Waited
    &&& st.stage == BackupStage::Pull ==> (ev matches BackupEvent::Pulled(p) && (p matches Ok(
        (cs, ws),
    ) ==> guids_cut(ws@)))
    &&& st.stage == BackupStage::Prepare ==> ev is Prepared
    &&& (st.stage == BackupStage::Configs || st.stage == BackupStage::Sidecar || st.stage
        == BackupStage::Archive) ==> ev is Wrote
    &&& st.stage == BackupStage::Size ==> ev is SizeText
    &&& st.stage == BackupStage::Tidy ==> ev is Tidied
    &&& st.stage == BackupStage::Commit ==> ev is Committed
    &&& st.stage == BackupStage::Remote ==> ev is RemoteChecked
    &&& st.stage == BackupStage::Push ==> ev is Pushed
}

/// Ends the run with an error.
fn backup_fail(st: BackupRun, e: String) -> (r: (BackupRun, BackupAction))
    requires
        backup_wf(st),
    ensures
        backup_wf(r.0),
        r.0 == (BackupRun { stage: BackupStage::Done, ..st }),
        r.1 matches BackupAction::Finish(Err(x)) && x == e,
{
    (BackupRun { stage: BackupStage::Done, ..st }, BackupAction::Finish(Err(e)))
}

/// A backup run starts by checking the settings, then quiesces the server as
/// `quiesce_plan` says; with no live channel it warns and goes straight to the pull.
pub fn backup_start(s: &AppSettings, admin_password_saved: bool) -> (r: (BackupRun, BackupAction))
    ensures
        backup_wf(r.0),
        r.0.pulls == 0 && !r.0.resaved,
        r.0.rest == rest_usable(*s, admin_password_saved),
        r.0.resave == (!s.stop_before_backup && (rest_usable(*s, admin_password_saved)
            || rcon_usable(*s, admin_password_saved))),
        r.0.remote_set == (s.repo_remote@.len() > 0),
        r.0.retention == s.backup_retention,
        (s.sftp_host@.len() == 0 || s.sftp_user@.len() == 0 || s.repo_local_path@.len() == 0)
            <==> r.1 is Finish,
        (s.sftp_host@.len() == 0 || s.sftp_user@.len() == 0) ==> (r.1 matches BackupAction::Finish(
            Err(e),
        ) && e@ == err_no_sftp()),
        (s.sftp_host@.len() > 0 && s.sftp_user@.len() > 0 && s.repo_local_path@.len() == 0) ==> (
        r.1 matches BackupAction::Finish(Err(e)) && e@ == err_no_repo()),
        r.1 is Quiesce ==> r.0.warnings@.len() == 0,
        r.1 matches BackupAction::Quiesce(p) ==> p == r.0.plan && p != Quiesce::Unavailable
            && r.0.stage == BackupStage::Quiesce,
        r.1 is Wait ==> r.0.plan == Quiesce::Unavailable && r.0.stage == BackupStage::Settle
            && r.0.warnings@.len() == 1 && r.0.warnings@[0]@ == no_live_channel_text() && (r.1 matches BackupAction::Wait(
            n,
        ) && n == 0),
        !(r.1 is Finish) ==> r.0.plan == quiesce_plan_spec(*s, admin_password_saved),
{
    let plan = quiesce_plan(s, admin_password_saved);
    let rest = rest_usable_exec(s, admin_password_saved);
    let st = BackupRun {
        stage: BackupStage::Quiesce,
        plan,
        rest,
        resave: can_resave(s, admin_password_saved),
        remote_set: !s.repo_remote.as_str().is_empty(),
        retention: s.backup_retention,
        pulls: 0,
        resaved: false,
        configs: Vec::new(),
        worlds: Vec::new(),
        ts: String::new(),
        sections: String::new(),
        current_name: String::new(),
        current: None,
        pending: None,
        level_len: 0,
        configs_written: Vec::new(),
        worlds_ok: Vec::new(),
        archives: Vec::new(),
        players: 0,
        warnings: Vec::new(),
        committed: false,
        pushed: false,
        message: String::new(),
        config_log: Ghost(Seq::empty()),
        kept: Ghost(Seq::empty()),
    };
    match check_backup_settings(s) {
        Err(e) => return backup_fail(st, e),
        Ok(()) => {},
    }
    if st.plan == Quiesce::Unavailable {
        let mut warnings: Vec<String> = Vec::new();
        warnings.push(String::from_str(no_live_channel_warning()));
        (BackupRun { stage: BackupStage::Settle, warnings, ..st }, BackupAction::Wait(0))
    } else {
        let p = copy_plan(&st.plan);
        (st, BackupAction::Quiesce(p))
    }
}

/// The warning when no live channel can force a save.
pub open spec fn no_live_channel_text() -> Seq<char> {
    "No live channel (REST or RCON) configured — couldn't force a save first. Files may be mid-write. Enable RCON or REST for guaranteed integrity, or turn on 'stop before backup'."@
}

/// The warning for a world skipped because its `Level.sav` is torn.
pub open spec fn torn_text(guid: Seq<char>) -> Seq<char> {
    "World "@ + guid
        + ": Level.sav failed the integrity check (torn mid-save) — that world's snapshot was skipped this run. Turn on 'stop before backup' for a guaranteed clean copy."@
}

/// The warnings for the torn worlds, in order.
pub open spec fn torn_texts(guids: Seq<Seq<char>>) -> Seq<Seq<char>> {
    guids.map_values(|g: Seq<char>| torn_text(g))
}

/// The warning for a failed forced save.
pub open spec fn save_failed_text(plan: Quiesce, error: Seq<char>) -> Seq<char> {
    if plan == Quiesce::RestSave {
        "REST save failed ("@ + error + "); trying RCON."@
    } else {
        "RCON save failed ("@ + error + "); pulling anyway."@
    }
}

/// The warning when a commit stayed local although a remote is configured.
pub open spec fn unpushed_text() -> Seq<char> {
    "Committed locally but not pushed — set a remote and check your git credentials."@
}

/// What `quiesce_plan` picks.
pub open spec fn quiesce_plan_spec(s: AppSettings, admin_password_saved: bool) -> Quiesce {
    if rest_usable(s, admin_password_saved) {
        if s.stop_before_backup {
            Quiesce::RestShutdown
        } else {
            Quiesce::RestSave
        }
    } else if rcon_usable(s, admin_password_saved) {
        if s.stop_before_backup {
            Quiesce::RconShutdown
        } else {
            Quiesce::RconSave
        }
    } else {
        Quiesce::Unavailable
    }
}

fn rest_usable_exec(s: &AppSettings, admin_password_saved: bool) -> (r: bool)
    ensures
        r == rest_usable(*s, admin_password_saved),
{
    s.rest_enabled && admin_password_saved && !s.rest_url.as_str().is_empty()
}

fn copy_plan(p: &Quiesce) -> (r: Quiesce)
    ensures
        r == *p,
{
    match p {
        Quiesce::RestShutdown => Quiesce::RestShutdown,
        Quiesce::RestSave => Quiesce::RestSave,
        Quiesce::RconShutdown => Quiesce::RconShutdown,
        Quiesce::RconSave => Quiesce::RconSave,
        Quiesce::Unavailable => Quiesce::Unavailable,
    }
}


/// What stays fixed over a run once it started.
pub open spec fn same_setup(a: BackupRun, b: BackupRun) -> bool {
    &&& a.plan == b.plan
    &&& a.rest == b.rest
    &&& a.resave == b.resave
    &&& a.remote_set == b.remote_set
    &&& a.retention == b.retention
}

/// The warning for a large `Level.sav`, its size shown as `size`.
pub open spec fn size_warning_text(guid: Seq<char>, size: Seq<char>) -> Seq<char> {
    "World "@ + short_guid(guid) + ": Level.sav is "@ + size
        + " — approaching GitHub's 100MB hard limit. Enable Git LFS or run a save-cleanup pass."@
}


/// The unpushed warning, when it is due.
pub open spec fn unpushed_part(remote_set: bool, committed: bool, pushed: bool) -> Seq<Seq<char>> {
    if remote_set && committed && !pushed {
        seq![unpushed_text()]
    } else {
        Seq::empty()
    }
}

/// What a finished report holds, for the pull it was made from: every pulled config file
/// in pull order; exactly the worlds that have a sound `Level.sav`, in pull order, each
/// with its archive named after the time stamp; the commit message; and something
/// captured.
pub open spec fn report_sound(
    rep: BackupReport,
    config_log: Seq<(Seq<char>, Seq<u8>)>,
    kept: Seq<PulledWorld>,
) -> bool {
    &&& texts(rep.configs@) == entry_names(config_log)
    &&& texts(rep.worlds@) == captured(kept)
    &&& sound_levels(kept)
    &&& archives_named(rep.timestamp@, rep.worlds@, rep.archives@)
    &&& rep.message@ == commit_message_spec(
        rep.timestamp@,
        rep.worlds@.len(),
        rep.players as nat,
        rep.configs@.len(),
    )
    &&& (rep.worlds@.len() > 0 || rep.configs@.len() > 0)
    &&& rep.players == capped(players_in(kept))
}

/// No world of a pull without torn worlds is torn.
proof fn lemma_no_torn(ws: Seq<PulledWorld>)
    requires
        torn_guids(ws).len() == 0,
    ensures
        forall|i: int| 0 <= i < ws.len() ==> !torn(#[trigger] ws[i]),
    decreases ws.len(),
{
    if ws.len() > 0 {
        lemma_no_torn(ws.drop_last());
        assert forall|i: int| 0 <= i < ws.len() implies !torn(#[trigger] ws[i]) by {
            if i < ws.len() - 1 {
                assert(ws[i] == ws.drop_last()[i]);
            }
        }
    }
}

/// Archive world `w`: build its snapshot and have it written.
fn backup_archive(st: BackupRun, w: PulledWorld) -> (r: (BackupRun, BackupAction))
    requires
        w.level is Some,
        guid_cut_ok(w.guid@),
    ensures
        r.1 is WriteArchive || r.1 matches BackupAction::Finish(Err(_)),
        r.1 is Finish ==> r.0 == (BackupRun { stage: BackupStage::Done, ..st }),
        r.1 matches BackupAction::WriteArchive(n, b) ==> n@ == archive_name_spec(st.ts@, w.guid@)
            && b@ == gzip(tar_stream(world_entries(w))) && r.0 == (BackupRun {
            stage: BackupStage::Archive,
            pending: r.0.pending,
            level_len: r.0.level_len,
            ..st
        }) && r.0.level_len == w.level->Some_0@.len() && (r.0.pending matches Some((info, g, k))
            && info.name == n && g == w.guid && k == player_count(w.others@)),
{
    let PulledWorld { guid, level, others } = w;
    let level = level.unwrap();
    let level_len = level.len();
    let (files, n) = world_files(level, others);
    proof {
        assert(file_entries(files@) =~= world_entries(w)) by {
            assert forall|i: int| 0 <= i < files@.len() implies #[trigger] file_entries(files@)[i]
                == world_entries(w)[i] by {
                if i > 0 {
                    assert(files@[(i - 1) + 1] == w.others@[i - 1]);
                }
            }
        }
    }
    match make_targz(files.as_slice()) {
        Err(e) => (BackupRun { stage: BackupStage::Done, ..st }, BackupAction::Finish(Err(e))),
        Ok(bytes) => {
            let name = archive_name(&st.ts, &guid);
            let info = ArchiveInfo { name: name.clone(), bytes: bytes.len() as u64 };
            (
                BackupRun { stage: BackupStage::Archive, pending: Some((info, guid, n)), level_len, ..st },
                BackupAction::WriteArchive(name, bytes),
            )
        },
    }
}

/// Go on with the worlds still to archive: skip those without a `Level.sav`; have a large
/// one's size put in words first; when none is left, require that something was captured
/// and tidy up.
fn backup_next_world(start: BackupRun) -> (r: (BackupRun, BackupAction))
    requires
        backup_wf(start),
        start.stage == BackupStage::Sidecar,
    ensures
        backup_wf(r.0),
        same_setup(r.0, start) && r.0.pulls == start.pulls && r.0.resaved == start.resaved,
        r.0.committed == start.committed && r.0.warnings == start.warnings && r.0.ts == start.ts,
        r.0.pushed == start.pushed && r.0.kept == start.kept && r.0.config_log == start.config_log,
        r.1 is Finish <==> r.0.stage == BackupStage::Done,
        r.1 is DescribeSize || r.1 is WriteArchive || r.1 is Tidy || r.1 matches BackupAction::Finish(
            Err(_),
        ),
        r.1 matches BackupAction::DescribeSize(n) ==> n > LEVEL_SIZE_WARN && r.0.stage
            == BackupStage::Size,
        r.1 matches BackupAction::WriteArchive(n, b) ==> r.0.stage == BackupStage::Archive
            && r.0.level_len <= LEVEL_SIZE_WARN && n@ == archive_name_spec(
            start.ts@,
            current_world(r.0).guid@,
        ) && b@ == gzip(tar_stream(world_entries(current_world(r.0)))),
        r.1 matches BackupAction::Tidy(k) ==> r.0.stage == BackupStage::Tidy && k == start.retention,
{
    let ghost first = start;
    let mut st = start;
    while st.worlds.len() > 0
        invariant
            backup_wf(st),
            st.stage == BackupStage::Sidecar,
            first == start,
            same_setup(st, first) && st.pulls == first.pulls && st.resaved == first.resaved,
            st.committed == first.committed && st.warnings == first.warnings,
            st.ts == first.ts && st.retention == first.retention,
            st.pushed == first.pushed && st.kept == first.kept && st.config_log == first.config_log,
        decreases st.worlds@.len(),
    {
        let ghost before = st.worlds@;
        let ghost o = worlds_done(st);
        let w = st.worlds.remove(0);
        proof {
            assert(w == before[0]);
            assert(w == st.kept@[o]);
            assert(st.worlds@ =~= st.kept@.skip(o + 1));
            assert forall|i: int| 0 <= i < st.worlds@.len() implies (#[trigger] st.worlds@[i]).level is Some
                ==> guid_cut_ok(st.worlds@[i].guid@) by {
                assert(st.worlds@[i] == before[i + 1]);
            }
            assert(st.kept@.take(o + 1).drop_last() =~= st.kept@.take(o));
            assert(st.kept@.take(o + 1).last() == w);
            assert(worlds_done(st) == o + 1);
            assert(current_world(st) == w);
        }
        let len_opt: Option<usize> = match &w.level {
            None => None,
            Some(l) => Some(l.len()),
        };
        if let Some(len) = len_opt {
            if len > LEVEL_SIZE_WARN {
                let next = BackupRun { stage: BackupStage::Size, current: Some(w), ..st };
                assert(current_world(next) == w);
                return (next, BackupAction::DescribeSize(len));
            }
            let r = backup_archive(st, w);
            proof {
                if r.1 is WriteArchive {
                    assert(current_world(r.0) == w);
                }
            }
            return r;
        }
    }
    proof {
        assert(st.kept@.take(st.kept@.len() as int) =~= st.kept@);
    }
    match require_captured(st.worlds_ok.len(), st.configs_written.len()) {
        Err(e) => backup_fail(st, e),
        Ok(()) => {
            let keep = st.retention;
            (BackupRun { stage: BackupStage::Tidy, ..st }, BackupAction::Tidy(keep))
        },
    }
}

/// `a` followed by `b`.
fn concat(a: &str, b: &str) -> (r: String)
    ensures
        r@ == a@ + b@,
{
    let mut m = chars_of(a);
    push_str(&mut m, b);
    string_of(&m)
}

/// Go on with the config files still to write: an `.ini` is written redacted, its secrets
/// going to the sidecar; another file is written as it came. When none is left, the
/// sidecar is written if any secret was taken out, and the worlds come next.
fn backup_next_config(start: BackupRun) -> (r: (BackupRun, BackupAction))
    requires
        backup_wf(start),
        start.stage == BackupStage::Prepare,
    ensures
        backup_wf(r.0),
        same_setup(r.0, start) && r.0.pulls == start.pulls && r.0.resaved == start.resaved,
        r.0.committed == start.committed && r.0.warnings == start.warnings && r.0.ts == start.ts,
        r.0.pushed == start.pushed && r.0.kept == start.kept && r.0.config_log == start.config_log,
        r.1 is Finish <==> r.0.stage == BackupStage::Done,
        r.1 is WriteText || r.1 is WriteBytes || r.1 is WriteSidecar || r.1 is DescribeSize
            || r.1 is WriteArchive || r.1 is Tidy || r.1 matches BackupAction::Finish(Err(_)),
        (r.1 is WriteText || r.1 is WriteBytes) ==> r.0.stage == BackupStage::Configs,
        r.1 matches BackupAction::WriteText(n, x) ==> start.configs@.len() > 0 && n
            == start.configs@[0].0 && ends_with(n@, ".ini"@) && x@ == redact_spec(
            utf8_lossy(start.configs@[0].1@),
        ).0,
        r.1 matches BackupAction::WriteBytes(n, d) ==> start.configs@.len() > 0 && n
            == start.configs@[0].0 && !ends_with(n@, ".ini"@) && d == start.configs@[0].1,
        r.1 matches BackupAction::WriteSidecar(t) ==> r.0.stage == BackupStage::Sidecar && t@
            == sidecar_header() + sidecar_sections(start.config_log@) && sidecar_sections(
            start.config_log@,
        ).len() > 0,
        (r.1 is DescribeSize || r.1 is WriteArchive || r.1 is Tidy) ==> sidecar_sections(
            start.config_log@,
        ).len() == 0,
        r.1 matches BackupAction::DescribeSize(n) ==> n > LEVEL_SIZE_WARN && r.0.stage
            == BackupStage::Size,
        r.1 matches BackupAction::WriteArchive(n, b) ==> r.0.stage == BackupStage::Archive
            && r.0.level_len <= LEVEL_SIZE_WARN && n@ == archive_name_spec(
            start.ts@,
            current_world(r.0).guid@,
        ) && b@ == gzip(tar_stream(world_entries(current_world(r.0)))),
        r.1 matches BackupAction::Tidy(k) ==> r.0.stage == BackupStage::Tidy && k == start.retention,
{
    let mut st = start;
    let ghost k = configs_done(st);
    if st.configs.len() > 0 {
        let ghost before = st.configs@;
        let (name, data) = st.configs.remove(0);
        proof {
            assert(before[0] == (name, data));
            assert(file_entries(before) == st.config_log@.skip(k));
            assert(file_entries(before).len() == before.len());
            assert(file_entries(before)[0] == st.config_log@.skip(k)[0]);
            assert(file_entries(before)[0] == st.config_log@[k]);
            assert(file_entries(st.configs@) =~= st.config_log@.skip(k + 1)) by {
                assert forall|i: int| 0 <= i < st.configs@.len() implies #[trigger] file_entries(
                    st.configs@,
                )[i] == st.config_log@.skip(k + 1)[i] by {
                    assert(st.configs@[i] == before[i + 1]);
                    assert(file_entries(before)[i + 1] == st.config_log@.skip(k)[i + 1]);
                    assert(file_entries(st.configs@)[i] == (st.configs@[i].0@, st.configs@[i].1@));
                    assert(file_entries(before)[i + 1] == (before[i + 1].0@, before[i + 1].1@));
                }
            }
            assert(st.config_log@.take(k + 1).drop_last() =~= st.config_log@.take(k));
            assert(st.config_log@.take(k + 1).last() == st.config_log@[k]);
            assert(sidecar_sections(st.config_log@.take(k + 1)) == sidecar_sections(
                st.config_log@.take(k),
            ) + config_section(st.config_log@[k]));
        }
        if is_ini(&name) {
            let text = from_utf8_lossy(data.as_slice());
            let (redacted, secrets) = redact_config(&text);
            let sections = if secrets.len() > 0 {
                let section = sidecar_section(&name, &secrets);
                concat(&st.sections, &section)
            } else {
                proof {
                    assert(st.sections@ + Seq::<char>::empty() == st.sections@);
                }
                st.sections
            };
            let shown = name.clone();
            let nx = BackupRun { stage: BackupStage::Configs, current_name: name, sections, ..st };
            proof {
                assert(file_entries(before)[0] == (before[0].0@, before[0].1@));
                assert(st.config_log@[k] == (name@, data@));
                assert(pairs_model(secrets@).len() == secrets@.len());
                assert(configs_done(nx) == k + 1);
                assert(nx.current_name@ == nx.config_log@[nx.configs_written@.len() as int].0);
                assert(file_entries(nx.configs@) == nx.config_log@.skip(k + 1));
                assert(nx.sections@ == sidecar_sections(nx.config_log@.take(k + 1)));
                assert(writing_wf(nx));
            }
            (nx, BackupAction::WriteText(shown, redacted))
        } else {
            let shown = name.clone();
            proof {
                assert(writing_wf(start));
                assert(st.sections@ == sidecar_sections(st.config_log@.take(k)));
                assert(config_section(st.config_log@[k]) == Seq::<char>::empty());
                assert(st.sections@ + Seq::<char>::empty() == st.sections@);
            }
            let nx = BackupRun { stage: BackupStage::Configs, current_name: name, ..st };
            proof {
                assert(configs_done(nx) == k + 1);
                assert(nx.sections@ == sidecar_sections(nx.config_log@.take(k + 1)));
                assert(writing_wf(nx));
            }
            (nx, BackupAction::WriteBytes(shown, data))
        }
    } else {
        proof {
            assert(file_entries(st.configs@).len() == 0);
            assert(st.config_log@.skip(k).len() == 0);
            assert(st.config_log@.take(k) =~= st.config_log@);
        }
        match sidecar_file(&st.sections) {
            Some(t) => {
                let nx = BackupRun { stage: BackupStage::Sidecar, ..st };
                proof {
                    assert(configs_done(nx) == k);
                    assert(writing_wf(nx));
                }
                (nx, BackupAction::WriteSidecar(t))
            },
            None => backup_next_world(BackupRun { stage: BackupStage::Sidecar, ..st }),
        }
    }
}

/// The commit message of a run.
pub open spec fn commit_message_spec(ts: Seq<char>, worlds: nat, players: nat, configs: nat) -> Seq<char> {
    "backup "@ + ts + " — "@ + decimal(worlds) + " world(s), "@ + decimal(players)
        + " player(s), "@ + decimal(configs) + " config(s)"@
}

/// Ends the run with its report.
fn backup_report(st: BackupRun) -> (r: (BackupRun, BackupAction))
    requires
        backup_wf(st),
        st.stage == BackupStage::Commit || st.stage == BackupStage::Remote || st.stage
            == BackupStage::Push,
    ensures
        backup_wf(r.0),
        same_setup(r.0, st) && r.0.pulls == st.pulls && r.0.resaved == st.resaved,
        r.0.kept == st.kept && r.0.config_log == st.config_log,
        r.0.stage == BackupStage::Done,
        r.1 matches BackupAction::Finish(Ok(rep)) && rep.committed == st.committed && rep.pushed
            == st.pushed && rep.timestamp == st.ts && rep.worlds == st.worlds_ok && rep.configs
            == st.configs_written && rep.players == st.players && rep.message == st.message
            && rep.archives == st.archives && texts(rep.warnings@) == texts(st.warnings@)
            + unpushed_part(st.remote_set, st.committed, st.pushed) && report_sound(
            rep,
            st.config_log@,
            st.kept@,
        ),
{
    let mut warnings = st.warnings;
    let ghost w0 = warnings@;
    match unpushed_warning(st.remote_set, st.committed, st.pushed) {
        Some(w) => {
            warnings.push(String::from_str(w));
            assert(texts(warnings@) =~= texts(w0) + unpushed_part(st.remote_set, st.committed, st.pushed));
        },
        None => {
            assert(texts(warnings@) =~= texts(w0) + unpushed_part(st.remote_set, st.committed, st.pushed));
        },
    }
    proof {
        assert(file_entries(st.configs@).len() == 0);
        assert(st.config_log@.skip(configs_done(st)).len() == 0);
        assert(st.config_log@.take(st.configs_written@.len() as int) =~= st.config_log@);
        assert(st.kept@.take(worlds_done(st)) =~= st.kept@);
    }
    let report = BackupReport {
        timestamp: st.ts,
        worlds: st.worlds_ok,
        players: st.players,
        configs: st.configs_written,
        archives: st.archives,
        warnings,
        committed: st.committed,
        pushed: st.pushed,
        message: st.message,
    };
    (
        BackupRun {
            stage: BackupStage::Done,
            plan: st.plan,
            rest: st.rest,
            resave: st.resave,
            remote_set: st.remote_set,
            retention: st.retention,
            pulls: st.pulls,
            resaved: st.resaved,
            configs: st.configs,
            worlds: st.worlds,
            ts: String::new(),
            sections: st.sections,
            current_name: st.current_name,
            current: st.current,
            pending: st.pending,
            level_len: st.level_len,
            configs_written: Vec::new(),
            worlds_ok: Vec::new(),
            archives: Vec::new(),
            players: st.players,
            warnings: Vec::new(),
            committed: st.committed,
            pushed: st.pushed,
            message: String::new(),
            config_log: st.config_log,
            kept: st.kept,
        },
        BackupAction::Finish(Ok(report)),
    )
}

/// A pull came back: accept it, retry it after a forced save, or go on without its torn
/// worlds.
#[verifier::spinoff_prover]
fn backup_pulled(st: BackupRun, configs: Vec<(String, Vec<u8>)>, worlds: Vec<PulledWorld>) -> (r: (
    BackupRun,
    BackupAction,
))
    requires
        backup_wf(st),
        st.stage == BackupStage::Pull,
        guids_cut(worlds@),
    ensures
        backup_wf(r.0),
        same_setup(r.0, st) && r.0.pulls == st.pulls && r.0.ts == st.ts,
        r.0.resaved == (st.resaved || r.1 is Resave),
        r.1 is Resave || r.1 is PrepareRepo,
        r.0.stage == BackupStage::Prepare || r.0.stage == BackupStage::Resave,
        r.1 matches BackupAction::Resave(via_rest) ==> via_rest == st.rest && st.pulls == 1
            && st.resave && torn_guids(worlds@).len() > 0 && r.0.warnings == st.warnings,
        if torn_guids(worlds@).len() == 0 {
            &&& r.0.stage == BackupStage::Prepare
            &&& r.1 is PrepareRepo
            &&& r.0.configs == configs
            &&& r.0.worlds == worlds
            &&& r.0.kept@ == worlds@
            &&& r.0.config_log@ == file_entries(configs@)
            &&& r.0.warnings == st.warnings
        } else if st.resave && st.pulls == 1 {
            r.1 is Resave
        } else {
            &&& r.0.stage == BackupStage::Prepare
            &&& r.1 is PrepareRepo
            &&& r.0.configs == configs
            &&& r.0.kept@ == r.0.worlds@
            &&& r.0.config_log@ == file_entries(configs@)
            &&& texts(r.0.warnings@) == texts(st.warnings@) + torn_texts(torn_guids(worlds@))
            &&& r.0.worlds@.len() == worlds@.len()
            &&& forall|i: int|
                0 <= i < worlds@.len() ==> {
                    &&& (#[trigger] r.0.worlds@[i]).guid == worlds@[i].guid
                    &&& r.0.worlds@[i].others == worlds@[i].others
                    &&& r.0.worlds@[i].level == if torn(worlds@[i]) {
                        None
                    } else {
                        worlds@[i].level
                    }
                }
        },
{
    let bad = torn_worlds(&worlds);
    let ghost log = file_entries(configs@);
    proof {
        assert(bad@.len() == bad@.map_values(|g: String| g@).len());
        assert(log.take(0) =~= Seq::<(Seq<char>, Seq<u8>)>::empty());
        assert(sidecar_sections(log.take(0)) == Seq::<char>::empty());
        assert(log.skip(0) =~= log);
        assert(texts(st.configs_written@) =~= Seq::<Seq<char>>::empty());
        assert(entry_names(log.take(0)) =~= Seq::<Seq<char>>::empty());
        assert(texts(st.worlds_ok@) =~= Seq::<Seq<char>>::empty());
        assert(captured(Seq::<PulledWorld>::empty()) == Seq::<Seq<char>>::empty());
    }
    match integrity_action(st.pulls - 1, st.resave, bad.len()) {
        IntegrityAction::Accept => {
            let ghost kept = worlds@;
            proof {
                lemma_no_torn(kept);
                assert(kept.take(0) =~= Seq::<PulledWorld>::empty());
                assert(kept.skip(0) =~= kept);
                assert(sound_levels(kept));
            }
            let nx = BackupRun {
                stage: BackupStage::Prepare,
                configs,
                worlds,
                config_log: Ghost(log),
                kept: Ghost(kept),
                ..st
            };
            proof {
                assert(worlds_done(nx) == 0);
                assert(configs_done(nx) == 0);
                assert(texts(nx.configs_written@) == entry_names(nx.config_log@.take(0)));
                assert(file_entries(nx.configs@) == nx.config_log@.skip(0));
                assert(nx.sections@ == sidecar_sections(nx.config_log@.take(0)));
                assert(nx.worlds@ == nx.kept@.skip(0));
                assert(captured(nx.kept@.take(0)) == texts(nx.worlds_ok@));
                assert(sound_levels(nx.kept@));
                assert(guids_cut(nx.kept@));
                assert(archives_named(nx.ts@, nx.worlds_ok@, nx.archives@));
                assert(writing_wf(nx));
            }
            (nx, BackupAction::PrepareRepo)
        },
        IntegrityAction::Resave => {
            let via_rest = st.rest;
            (
                BackupRun { stage: BackupStage::Resave, resaved: true, configs, worlds, ..st },
                BackupAction::Resave(via_rest),
            )
        },
        IntegrityAction::SkipTorn => {
            let mut warnings = st.warnings;
            let ghost w0 = texts(warnings@);
            let ghost tt = torn_texts(torn_guids(worlds@));
            let mut i: usize = 0;
            proof {
                assert(w0 + tt.take(0) =~= w0);
            }
            while i < bad.len()
                invariant
                    i <= bad@.len(),
                    bad@.map_values(|g: String| g@) == torn_guids(worlds@),
                    tt == torn_texts(torn_guids(worlds@)),
                    texts(warnings@) == w0 + tt.take(i as int),
                decreases bad@.len() - i,
            {
                let wt = torn_warning(&bad[i]);
                let ghost prev = texts(warnings@);
                proof {
                    assert(bad@.map_values(|g: String| g@)[i as int] == bad@[i as int]@);
                    assert(tt.len() == torn_guids(worlds@).len());
                    assert(tt[i as int] == torn_text(torn_guids(worlds@)[i as int]));
                    assert(wt@ == tt[i as int]);
                }
                warnings.push(wt);
                proof {
                    assert(texts(warnings@) =~= prev.push(wt@));
                    assert(w0 + tt.take(i + 1) =~= (w0 + tt.take(i as int)).push(tt[i as int]));
                }
                i += 1;
            }
            proof {
                assert(tt.take(bad@.len() as int) =~= tt);
            }
            let mut worlds = worlds;
            let ghost ws = worlds@;
            drop_torn_levels(&mut worlds);
            let ghost kept = worlds@;
            proof {
                assert forall|k: int| 0 <= k < worlds@.len() implies (#[trigger] worlds@[k]).level is Some
                    ==> guid_cut_ok(worlds@[k].guid@) by {
                    assert(worlds@[k].guid == ws[k].guid);
                }
                assert forall|k: int| 0 <= k < kept.len() implies ((#[trigger] kept[k]).level matches Some(
                    l,
                ) ==> valid_sav(l@)) by {
                    assert(kept[k].level == if torn(ws[k]) {
                        None
                    } else {
                        ws[k].level
                    });
                }
                assert(kept.take(0) =~= Seq::<PulledWorld>::empty());
                assert(kept.skip(0) =~= kept);
            }
            let nx = BackupRun {
                stage: BackupStage::Prepare,
                configs,
                worlds,
                warnings,
                config_log: Ghost(log),
                kept: Ghost(kept),
                ..st
            };
            proof {
                assert(worlds_done(nx) == 0);
                assert(configs_done(nx) == 0);
                assert(texts(nx.configs_written@) == entry_names(nx.config_log@.take(0)));
                assert(file_entries(nx.configs@) == nx.config_log@.skip(0));
                assert(nx.sections@ == sidecar_sections(nx.config_log@.take(0)));
                assert(nx.worlds@ == nx.kept@.skip(0));
                assert(captured(nx.kept@.take(0)) == texts(nx.worlds_ok@));
                assert(sound_levels(nx.kept@));
                assert(guids_cut(nx.kept@));
                assert(archives_named(nx.ts@, nx.worlds_ok@, nx.archives@));
                assert(writing_wf(nx));
            }
            (nx, BackupAction::PrepareRepo)
        },
    }
}

/// One step of a backup run. At most two pulls are made, the second only after a save was
/// forced because a world came back torn and a save can be forced; otherwise torn worlds
/// are skipped with a warning. A `Level.sav` over `LEVEL_SIZE_WARN` bytes draws a warning,
/// and only such a one. Configs are written before the archives, the archives before the
/// commit, and a push is made only after a commit and only to a configured remote that the
/// repository has. Any error ends the run. The finished report lists every pulled config
/// file and exactly the worlds with a sound `Level.sav`, each archive named after the time
/// stamp and its world, with the commit message and every warning collected.
#[verifier::spinoff_prover]
#[verifier::rlimit(60)]
pub fn backup_step(st: BackupRun, ev: BackupEvent) -> (r: (BackupRun, BackupAction))
    requires
        backup_event_fits(st, ev),
    ensures
        backup_wf(r.0),
        same_setup(r.0, st),
        r.1 is Finish <==> r.0.stage == BackupStage::Done,
        r.1 is Pull ==> st.stage == BackupStage::Settle && r.0.stage == BackupStage::Pull
            && r.0.pulls == st.pulls + 1 && (r.0.pulls == 1 || r.0.resaved),
        !(r.1 is Pull) ==> r.0.pulls == st.pulls,
        r.0.resaved == (st.resaved || r.1 is Resave),
        !(ev is Pulled) ==> r.0.kept == st.kept && r.0.config_log == st.config_log,
        !(ev is Quiesced || ev is Pulled || ev is SizeText) && !(r.1 is Finish) ==> r.0.warnings
            == st.warnings,
        !(ev is Prepared) && !(r.1 is Finish) ==> r.0.ts == st.ts,
        r.1 matches BackupAction::Resave(via_rest) ==> via_rest == st.rest && st.stage
            == BackupStage::Pull && st.pulls == 1 && st.resave && (ev matches BackupEvent::Pulled(
            Ok((cs, ws)),
        ) && torn_guids(ws@).len() > 0),
        ev is Resaved ==> r.0.stage == BackupStage::Settle && (r.1 matches BackupAction::Wait(n)
            && n == 8),
        ev matches BackupEvent::Quiesced(q) ==> r.0.stage == BackupStage::Settle && r.1 is Wait
            && (if (q is Err && (st.plan == Quiesce::RestSave || st.plan == Quiesce::RconSave)) {
            texts(r.0.warnings@) == texts(st.warnings@).push(
                save_failed_text(st.plan, q->Err_0@),
            )
        } else {
            r.0.warnings == st.warnings
        }),
        ev matches BackupEvent::Pulled(Err(e)) ==> r.1 matches BackupAction::Finish(Err(x)) && x
            == e,
        ev matches BackupEvent::Pulled(Ok((cs, ws))) ==> (if torn_guids(ws@).len() == 0 {
            &&& r.0.stage == BackupStage::Prepare
            &&& r.1 is PrepareRepo
            &&& r.0.configs == cs
            &&& r.0.worlds == ws
            &&& r.0.kept@ == ws@
            &&& r.0.config_log@ == file_entries(cs@)
            &&& r.0.warnings == st.warnings
        } else if st.resave && st.pulls == 1 {
            r.1 is Resave
        } else {
            &&& r.0.stage == BackupStage::Prepare
            &&& r.1 is PrepareRepo
            &&& r.0.configs == cs
            &&& r.0.kept@ == r.0.worlds@
            &&& r.0.config_log@ == file_entries(cs@)
            &&& texts(r.0.warnings@) == texts(st.warnings@) + torn_texts(torn_guids(ws@))
            &&& r.0.worlds@.len() == ws@.len()
            &&& forall|i: int|
                0 <= i < ws@.len() ==> {
                    &&& (#[trigger] r.0.worlds@[i]).guid == ws@[i].guid
                    &&& r.0.worlds@[i].others == ws@[i].others
                    &&& r.0.worlds@[i].level == if torn(ws@[i]) {
                        None
                    } else {
                        ws@[i].level
                    }
                }
        }),
        ev matches BackupEvent::Prepared(Err(e)) ==> r.1 matches BackupAction::Finish(Err(x)) && x
            == e,
        ev matches BackupEvent::Prepared(Ok(ts)) ==> r.0.ts == ts,
        ev matches BackupEvent::Wrote(Err(e)) ==> r.1 matches BackupAction::Finish(Err(x)) && x
            == e,
        r.1 matches BackupAction::DescribeSize(n) ==> n > LEVEL_SIZE_WARN && r.0.stage
            == BackupStage::Size,
        r.1 matches BackupAction::WriteArchive(n, b) ==> (r.0.level_len > LEVEL_SIZE_WARN <==> st.stage
            == BackupStage::Size) && n@ == archive_name_spec(r.0.ts@, current_world(r.0).guid@)
            && b@ == gzip(tar_stream(world_entries(current_world(r.0)))),
        r.1 matches BackupAction::WriteText(n, x) ==> st.configs@.len() > 0 && n
            == st.configs@[0].0 && ends_with(n@, ".ini"@) && x@ == redact_spec(
            utf8_lossy(st.configs@[0].1@),
        ).0,
        r.1 matches BackupAction::WriteBytes(n, d) ==> st.configs@.len() > 0 && n
            == st.configs@[0].0 && !ends_with(n@, ".ini"@) && d == st.configs@[0].1,
        r.1 matches BackupAction::WriteSidecar(t) ==> t@ == sidecar_header() + sidecar_sections(
            r.0.config_log@,
        ) && sidecar_sections(r.0.config_log@).len() > 0,
        (r.1 is DescribeSize || r.1 is WriteArchive || r.1 is Tidy) && (st.stage
            == BackupStage::Prepare || st.stage == BackupStage::Configs) ==> sidecar_sections(
            r.0.config_log@,
        ).len() == 0,
        ev matches BackupEvent::SizeText(t) ==> texts(r.0.warnings@) == texts(st.warnings@).push(
            size_warning_text(st.current->Some_0.guid@, t@),
        ),
        r.1 matches BackupAction::Tidy(k) ==> k == st.retention && (r.0.worlds_ok@.len() > 0
            || r.0.configs_written@.len() > 0),
        r.1 matches BackupAction::Commit(m) ==> st.stage == BackupStage::Tidy && m@
            == commit_message_spec(
            st.ts@,
            st.worlds_ok@.len(),
            st.players as nat,
            st.configs_written@.len(),
        ),
        r.1 is CheckRemote ==> st.stage == BackupStage::Commit && st.remote_set && (ev matches BackupEvent::Committed(
            Ok(c),
        ) && c) && r.0.committed,
        r.1 is Push ==> st.stage == BackupStage::Remote && st.committed && st.remote_set && (ev matches BackupEvent::RemoteChecked(
            b,
        ) && b) && r.0.committed,
        ev matches BackupEvent::Committed(Err(e)) ==> r.1 matches BackupAction::Finish(Err(x)) && x
            == e,
        ev matches BackupEvent::Pushed(Err(e)) ==> r.1 matches BackupAction::Finish(Err(x)) && x
            == e,
        r.1 matches BackupAction::Finish(Ok(rep)) ==> (rep.pushed <==> st.stage == BackupStage::Push)
            && (rep.pushed ==> rep.committed && st.remote_set) && rep.timestamp == st.ts
            && rep.worlds == st.worlds_ok && rep.configs == st.configs_written && rep.archives
            == st.archives && texts(rep.warnings@) == texts(st.warnings@) + unpushed_part(
            st.remote_set,
            rep.committed,
            rep.pushed,
        ) && report_sound(rep, st.config_log@, st.kept@),
{
    match ev {
        BackupEvent::Quiesced(outcome) => {
            let saving = st.plan == Quiesce::RestSave || st.plan == Quiesce::RconSave;
            let mut warnings = st.warnings;
            let succeeded = match outcome {
                Ok(()) => true,
                Err(e) => {
                    if saving {
                        warnings.push(save_failed_warning(&st.plan, &e));
                    }
                    !saving
                },
            };
            let secs = quiesce_wait_secs(&st.plan, succeeded);
            (BackupRun { stage: BackupStage::Settle, warnings, ..st }, BackupAction::Wait(secs))
        },
        BackupEvent::Resaved => (BackupRun { stage: BackupStage::Settle, ..st }, BackupAction::Wait(8)),
        BackupEvent::Waited => {
            let pulls = st.pulls + 1;
            (BackupRun { stage: BackupStage::Pull, pulls, ..st }, BackupAction::Pull)
        },
        BackupEvent::Pulled(Err(e)) => backup_fail(st, e),
        BackupEvent::Pulled(Ok((configs, worlds))) => backup_pulled(st, configs, worlds),
        BackupEvent::Prepared(Err(e)) => backup_fail(st, e),
        BackupEvent::Prepared(Ok(ts)) => backup_next_config(BackupRun { stage: BackupStage::Prepare, ts, ..st }),
        BackupEvent::Wrote(Err(e)) => backup_fail(st, e),
        BackupEvent::Wrote(Ok(())) => {
            if st.stage == BackupStage::Configs {
                let mut written = st.configs_written;
                let ghost k = written@.len() as int;
                let ghost prev = texts(written@);
                written.push(st.current_name);
                proof {
                    assert(texts(written@) =~= prev.push(st.config_log@[k].0));
                    assert(st.config_log@.take(k + 1) =~= st.config_log@.take(k).push(st.config_log@[k]));
                    assert(entry_names(st.config_log@.take(k + 1)) =~= entry_names(st.config_log@.take(k)).push(
                        st.config_log@[k].0,
                    ));
                }
                backup_next_config(
                    BackupRun {
                        stage: BackupStage::Prepare,
                        configs_written: written,
                        current_name: String::new(),
                        ..st
                    },
                )
            } else if st.stage == BackupStage::Sidecar {
                backup_next_world(st)
            } else {
                let (info, guid, n) = st.pending.unwrap();
                let mut archives = st.archives;
                let ghost a0 = archives@;
                let ghost g0 = st.worlds_ok@;
                archives.push(info);
                let mut worlds_ok = st.worlds_ok;
                worlds_ok.push(guid);
                proof {
                    assert(texts(worlds_ok@) =~= texts(g0).push(worlds_ok@.last()@));
                    assert forall|i: int| 0 <= i < archives@.len() implies (#[trigger] archives@[i]).name@
                        == archive_name_spec(st.ts@, worlds_ok@[i]@) by {
                        if i < a0.len() {
                            assert(archives@[i] == a0[i]);
                            assert(worlds_ok@[i] == g0[i]);
                        }
                    }
                }
                let players = if n <= usize::MAX - st.players {
                    st.players + n
                } else {
                    usize::MAX
                };
                proof {
                    let o = worlds_done(st);
                    assert(st.kept@.take(o).drop_last() =~= st.kept@.take(o - 1));
                    assert(st.kept@.take(o).last() == current_world(st));
                    assert(players_in(st.kept@.take(o)) == players_in(st.kept@.take(o - 1))
                        + player_count(current_world(st).others@));
                    assert(players == capped(players_in(st.kept@.take(o))));
                }
                backup_next_world(
                    BackupRun {
                        stage: BackupStage::Sidecar,
                        pending: None,
                        archives,
                        worlds_ok,
                        players,
                        ..st
                    },
                )
            }
        },
        BackupEvent::SizeText(text) => {
            let w = st.current.unwrap();
            let mut warnings = st.warnings;
            warnings.push(level_size_warning(&w.guid, &text));
            let next = BackupRun { stage: BackupStage::Sidecar, current: None, warnings, ..st };
            backup_archive(next, w)
        },
        BackupEvent::Tidied => {
            let message = backup_commit_message(
                &st.ts,
                st.worlds_ok.len(),
                st.players,
                st.configs_written.len(),
            );
            let shown = message.clone();
            (BackupRun { stage: BackupStage::Commit, message, ..st }, BackupAction::Commit(shown))
        },
        BackupEvent::Committed(Err(e)) => backup_fail(st, e),
        BackupEvent::Committed(Ok(committed)) => {
            let next = BackupRun { committed, ..st };
            if committed && next.remote_set {
                (BackupRun { stage: BackupStage::Remote, ..next }, BackupAction::CheckRemote)
            } else {
                backup_report(next)
            }
        },
        BackupEvent::RemoteChecked(exists) => {
            if should_push(st.committed, st.remote_set, exists) {
                (BackupRun { stage: BackupStage::Push, ..st }, BackupAction::Push)
            } else {
                backup_report(st)
            }
        },
        BackupEvent::Pushed(Err(e)) => backup_fail(st, e),
        BackupEvent::Pushed(Ok(())) => backup_report(BackupRun { pushed: true, ..st }),
    }
}


} // verus!
