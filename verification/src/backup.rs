//! Backup logic: secret redaction for committed config files, the decisions of the
//! backup run, and the snapshot archive format.
use vstd::prelude::*;
use vstd::string::StringSliceAdditionalSpecFns;
use vstd::utf8::{decode_utf8, encode_utf8, is_char_boundary};
use crate::config_store::AppSettings;
use crate::ordering::{
    lemma_stable_descending_same_keys, lemma_stable_descending_unique, order_by_number_desc,
    stable_descending,
};
use crate::palconfig::pairs_model;
use crate::savecheck::{is_valid_palworld_sav, valid_sav};
use crate::text::{
    chars_eq, chars_of, contains_chars, contains_seq, decimal, ends_with, ends_with_chars, find,
    find_char, find_chars, find_from, lemma_find_from, match_at, push_all, push_decimal, push_range,
    push_str, starts_with, starts_with_chars, string_of, sub_vec,
};

verus! {

/// One snapshot archive written by a backup run.
#[derive(Debug)]
pub struct ArchiveInfo {
    pub name: String,
    pub bytes: u64,
}

/// What a backup run did.
#[derive(Debug)]
pub struct BackupReport {
    pub timestamp: String,
    pub worlds: Vec<String>,
    pub players: usize,
    pub configs: Vec<String>,
    pub archives: Vec<ArchiveInfo>,
    pub warnings: Vec<String>,
    pub committed: bool,
    pub pushed: bool,
    pub message: String,
}

/// What a restore did.
#[derive(Debug)]
pub struct RestoreReport {
    pub world_folder: String,
    pub files_restored: usize,
    pub server_stopped: bool,
    pub warnings: Vec<String>,
    pub message: String,
}

// ---------------------------------------------------------------- secret redaction

/// What replaces a secret value in a committed config.
pub open spec fn redacted_marker() -> Seq<char> {
    seq!['<', 'R', 'E', 'D', 'A', 'C', 'T', 'E', 'D', '>']
}

/// `key="`: the text that precedes a quoted secret value.
pub open spec fn secret_pattern(key: Seq<char>) -> Seq<char> {
    key + seq!['=', '"']
}

/// The value of the first `key="..."` in `t`: from just after the opening quote to the
/// next quote.
pub open spec fn value_span(t: Seq<char>, key: Seq<char>) -> Option<(int, int)> {
    match find(t, secret_pattern(key)) {
        Some(start) => {
            let vs = start + secret_pattern(key).len();
            match find_from(t, seq!['"'], vs) {
                Some(ve) => Some((vs, ve)),
                None => None,
            }
        },
        None => None,
    }
}

/// `t` with `t[a..b]` replaced by `r`.
pub open spec fn splice(t: Seq<char>, a: int, b: int, r: Seq<char>) -> Seq<char> {
    t.take(a) + r + t.skip(b)
}

/// Redacting one key: the new text, and the value taken out if there was one.
pub open spec fn redact_one(t: Seq<char>, key: Seq<char>) -> (Seq<char>, Option<Seq<char>>) {
    match value_span(t, key) {
        Some((a, b)) => {
            let v = t.subrange(a, b);
            if v.len() == 0 || v == redacted_marker() {
                (t, None)
            } else {
                (splice(t, a, b, redacted_marker()), Some(v))
            }
        },
        None => (t, None),
    }
}

/// The keys whose quoted values are secrets and must never reach git.
pub open spec fn admin_key() -> Seq<char> {
    seq!['A', 'd', 'm', 'i', 'n', 'P', 'a', 's', 's', 'w', 'o', 'r', 'd']
}

pub open spec fn server_key() -> Seq<char> {
    seq!['S', 'e', 'r', 'v', 'e', 'r', 'P', 'a', 's', 's', 'w', 'o', 'r', 'd']
}

/// `(key, value)` if a value was taken out.
pub open spec fn taken(key: Seq<char>, o: Option<Seq<char>>) -> Seq<(Seq<char>, Seq<char>)> {
    match o {
        Some(v) => seq![(key, v)],
        None => Seq::empty(),
    }
}

/// What `redact_config` returns: the text with the values of `AdminPassword` and then
/// `ServerPassword` replaced, and the values taken out, in that order.
pub open spec fn redact_spec(t: Seq<char>) -> (Seq<char>, Seq<(Seq<char>, Seq<char>)>) {
    let (t1, o1) = redact_one(t, admin_key());
    let (t2, o2) = redact_one(t1, server_key());
    (t2, taken(admin_key(), o1) + taken(server_key(), o2))
}

/// Putting one value back.
pub open spec fn restore_one(t: Seq<char>, key: Seq<char>, val: Seq<char>) -> Seq<char> {
    match value_span(t, key) {
        Some((a, b)) => splice(t, a, b, val),
        None => t,
    }
}

/// What `restore_secrets` returns: each value put back in order.
pub open spec fn restore_spec(t: Seq<char>, secrets: Seq<(Seq<char>, Seq<char>)>) -> Seq<char>
    decreases secrets.len(),
{
    if secrets.len() == 0 {
        t
    } else {
        restore_one(restore_spec(t, secrets.drop_last()), secrets.last().0, secrets.last().1)
    }
}

/// Span of the first `key="..."` value in `cs`.
fn find_value_span(cs: &[char], key: &[char]) -> (r: Option<(usize, usize)>)
    ensures
        match r {
            Some((a, b)) => value_span(cs@, key@) == Some((a as int, b as int)) && a <= b
                <= cs@.len(),
            None => value_span(cs@, key@) is None,
        },
{
    let mut pat: Vec<char> = Vec::new();
    push_all(&mut pat, key);
    pat.push('=');
    pat.push('"');
    assert(pat@ == secret_pattern(key@));
    let n = cs.len();
    match find_chars(cs, &pat, 0) {
        None => None,
        Some(start) => {
            proof {
                lemma_find_from(cs@, pat@, 0);
            }
            let vs = start + pat.len();
            match find_char(cs, '"', vs) {
                None => None,
                Some(ve) => {
                    proof {
                        lemma_find_from(cs@, seq!['"'], vs as int);
                    }
                    Some((vs, ve))
                },
            }
        },
    }
}

/// `cs[..a] + r + cs[b..]`.
fn splice_vec(cs: &[char], a: usize, b: usize, r: &[char]) -> (out: Vec<char>)
    requires
        a <= b <= cs@.len(),
    ensures
        out@ == splice(cs@, a as int, b as int, r@),
{
    let mut out: Vec<char> = Vec::new();
    push_range(&mut out, cs, 0, a);
    push_all(&mut out, r);
    push_range(&mut out, cs, b, cs.len());
    assert(cs@.subrange(0, a as int) == cs@.take(a as int));
    assert(cs@.subrange(b as int, cs@.len() as int) == cs@.skip(b as int));
    out
}

/// Redacts the first value of `key` in `out`, recording it in `extracted`.
fn redact_key(out: &mut Vec<char>, kc: &Vec<char>, extracted: &mut Vec<(String, String)>)
    ensures
        final(out)@ == redact_one(old(out)@, kc@).0,
        pairs_model(final(extracted)@) == pairs_model(old(extracted)@) + taken(
            kc@,
            redact_one(old(out)@, kc@).1,
        ),
{
    let ghost ex0 = pairs_model(extracted@);
    match find_value_span(out, &kc) {
        None => {
            assert(ex0 + Seq::<(Seq<char>, Seq<char>)>::empty() == ex0);
        },
        Some((a, b)) => {
            let val = sub_vec(out, a, b);
            let marker = vec!['<', 'R', 'E', 'D', 'A', 'C', 'T', 'E', 'D', '>'];
            assert(marker@ == redacted_marker());
            if val.len() == 0 || chars_eq(&val, &marker) {
                assert(ex0 + Seq::<(Seq<char>, Seq<char>)>::empty() == ex0);
            } else {
                extracted.push((string_of(kc), string_of(&val)));
                assert(pairs_model(extracted@) == ex0 + seq![(kc@, val@)]);
                let new_out = splice_vec(out, a, b, &marker);
                *out = new_out;
            }
        },
    }
}

/// Replaces the secret values in a Palworld ini with `<REDACTED>`, returning the values
/// taken out.
pub fn redact_config(text: &str) -> (r: (String, Vec<(String, String)>))
    ensures
        r.0@ == redact_spec(text@).0,
        pairs_model(r.1@) == redact_spec(text@).1,
{
    let mut out = chars_of(text);
    let mut extracted: Vec<(String, String)> = Vec::new();
    assert(pairs_model(extracted@) == Seq::<(Seq<char>, Seq<char>)>::empty());
    let admin = vec!['A', 'd', 'm', 'i', 'n', 'P', 'a', 's', 's', 'w', 'o', 'r', 'd'];
    assert(admin@ == admin_key());
    redact_key(&mut out, &admin, &mut extracted);
    let server = vec!['S', 'e', 'r', 'v', 'e', 'r', 'P', 'a', 's', 's', 'w', 'o', 'r', 'd'];
    assert(server@ == server_key());
    redact_key(&mut out, &server, &mut extracted);
    (string_of(&out), extracted)
}

/// Reverse of `redact_config`: put real secret values back into a redacted ini.
pub fn restore_secrets(text: &str, secrets: &[(String, String)]) -> (r: String)
    ensures
        r@ == restore_spec(text@, pairs_model(secrets@)),
{
    let mut out = chars_of(text);
    let n = secrets.len();
    let ghost ss = pairs_model(secrets@);
    let mut i: usize = 0;
    assert(ss.take(0) == Seq::<(Seq<char>, Seq<char>)>::empty());
    while i < n
        invariant
            n == secrets@.len() == ss.len(),
            ss == pairs_model(secrets@),
            i <= n,
            out@ == restore_spec(text@, ss.take(i as int)),
        decreases n - i,
    {
        let kc = chars_of(secrets[i].0.as_str());
        let vc = chars_of(secrets[i].1.as_str());
        match find_value_span(&out, &kc) {
            Some((a, b)) => {
                let new_out = splice_vec(&out, a, b, &vc);
                out = new_out;
            },
            None => {},
        }
        proof {
            assert(ss.take(i + 1).drop_last() == ss.take(i as int));
            assert(ss.take(i + 1).last() == ss[i as int]);
        }
        i += 1;
    }
    assert(ss.take(n as int) == ss);
    string_of(&out)
}


// ---------------------------------------------------------------- the backup run

pub open spec fn err_no_sftp() -> Seq<char> {
    "Set your SFTP host and username in Settings first."@
}

pub open spec fn err_no_repo() -> Seq<char> {
    "Choose a local backup folder in Settings first."@
}

/// A backup needs an SFTP host and user, and a local backup folder.
pub fn check_backup_settings(s: &AppSettings) -> (r: Result<(), String>)
    ensures
        (s.sftp_host@.len() == 0 || s.sftp_user@.len() == 0) ==> (r matches Err(e) && e@
            == err_no_sftp()),
        (s.sftp_host@.len() > 0 && s.sftp_user@.len() > 0 && s.repo_local_path@.len() == 0) ==> (r matches Err(e) && e@ == err_no_repo()),
        (s.sftp_host@.len() > 0 && s.sftp_user@.len() > 0 && s.repo_local_path@.len() > 0) ==> r is Ok,
{
    if s.sftp_host.as_str().is_empty() || s.sftp_user.as_str().is_empty() {
        return Err(String::from_str("Set your SFTP host and username in Settings first."));
    }
    if s.repo_local_path.as_str().is_empty() {
        return Err(String::from_str("Choose a local backup folder in Settings first."));
    }
    Ok(())
}

/// REST can be used: enabled, with a URL, and the admin password is saved.
pub open spec fn rest_usable(s: AppSettings, admin_password_saved: bool) -> bool {
    s.rest_enabled && admin_password_saved && s.rest_url@.len() > 0
}

/// RCON can be used: enabled, with a host, and the admin password is saved.
pub open spec fn rcon_usable(s: AppSettings, admin_password_saved: bool) -> bool {
    s.rcon_enabled && admin_password_saved && s.rcon_host@.len() > 0
}

/// Which live channels a backup or restore can use: (REST, RCON).
pub fn live_channels(s: &AppSettings, admin_password_saved: bool) -> (r: (bool, bool))
    ensures
        r.0 == rest_usable(*s, admin_password_saved),
        r.1 == rcon_usable(*s, admin_password_saved),
{
    (
        s.rest_enabled && admin_password_saved && !s.rest_url.as_str().is_empty(),
        s.rcon_enabled && admin_password_saved && !s.rcon_host.as_str().is_empty(),
    )
}

/// How a backup makes the server write its files before pulling them.
#[derive(Debug, PartialEq, Eq, Structural)]
pub enum Quiesce {
    /// Stop the server through REST.
    RestShutdown,
    /// Force a save through REST.
    RestSave,
    /// Stop the server through RCON.
    RconShutdown,
    /// Force a save through RCON.
    RconSave,
    /// No live channel: pull as is.
    Unavailable,
}

/// REST before RCON; a shutdown when the settings ask to stop before backing up, else a
/// save.
pub fn quiesce_plan(s: &AppSettings, admin_password_saved: bool) -> (r: Quiesce)
    ensures
        rest_usable(*s, admin_password_saved) ==> r == (if s.stop_before_backup {
            Quiesce::RestShutdown
        } else {
            Quiesce::RestSave
        }),
        !rest_usable(*s, admin_password_saved) && rcon_usable(*s, admin_password_saved) ==> r == (
        if s.stop_before_backup {
            Quiesce::RconShutdown
        } else {
            Quiesce::RconSave
        }),
        !rest_usable(*s, admin_password_saved) && !rcon_usable(*s, admin_password_saved) ==> r
            == Quiesce::Unavailable,
{
    let (rest, rcon) = live_channels(s, admin_password_saved);
    if rest {
        if s.stop_before_backup {
            Quiesce::RestShutdown
        } else {
            Quiesce::RestSave
        }
    } else if rcon {
        if s.stop_before_backup {
            Quiesce::RconShutdown
        } else {
            Quiesce::RconSave
        }
    } else {
        Quiesce::Unavailable
    }
}

/// Seconds to wait after quiescing: 16 after a shutdown, 6 after a save that went
/// through, 2 after a failed RCON save, none otherwise.
pub fn quiesce_wait_secs(plan: &Quiesce, succeeded: bool) -> (r: u64)
    ensures
        (*plan == Quiesce::RestShutdown || *plan == Quiesce::RconShutdown) ==> r == 16,
        (*plan == Quiesce::RestSave || *plan == Quiesce::RconSave) && succeeded ==> r == 6,
        *plan == Quiesce::RestSave && !succeeded ==> r == 0,
        *plan == Quiesce::RconSave && !succeeded ==> r == 2,
        *plan == Quiesce::Unavailable ==> r == 0,
{
    match plan {
        Quiesce::RestShutdown => 16,
        Quiesce::RconShutdown => 16,
        Quiesce::RestSave => if succeeded {
            6
        } else {
            0
        },
        Quiesce::RconSave => if succeeded {
            6
        } else {
            2
        },
        Quiesce::Unavailable => 0,
    }
}

/// The warning for a failed forced save.
pub fn save_failed_warning(plan: &Quiesce, error: &str) -> (r: String)
    ensures
        *plan == Quiesce::RestSave ==> r@ == "REST save failed ("@ + error@ + "); trying RCON."@,
        *plan != Quiesce::RestSave ==> r@ == "RCON save failed ("@ + error@ + "); pulling anyway."@,
{
    let mut m: Vec<char> = Vec::new();
    if *plan == Quiesce::RestSave {
        push_str(&mut m, "REST save failed (");
        push_str(&mut m, error);
        push_str(&mut m, "); trying RCON.");
    } else {
        push_str(&mut m, "RCON save failed (");
        push_str(&mut m, error);
        push_str(&mut m, "); pulling anyway.");
    }
    string_of(&m)
}

/// The warning when no live channel could force a save.
pub fn no_live_channel_warning() -> (r: &'static str)
    ensures
        r@ == "No live channel (REST or RCON) configured — couldn't force a save first. Files may be mid-write. Enable RCON or REST for guaranteed integrity, or turn on 'stop before backup'."@,
{
    "No live channel (REST or RCON) configured — couldn't force a save first. Files may be mid-write. Enable RCON or REST for guaranteed integrity, or turn on 'stop before backup'."
}

/// One world pulled from the server.
pub struct PulledWorld {
    pub guid: String,
    pub level: Option<Vec<u8>>,
    pub others: Vec<(String, Vec<u8>)>,
}

/// A pulled world whose `Level.sav` is present but torn.
pub open spec fn torn(w: PulledWorld) -> bool {
    w.level matches Some(b) && !valid_sav(b@)
}

/// The guids of the torn worlds, in order.
pub open spec fn torn_guids(ws: Seq<PulledWorld>) -> Seq<Seq<char>>
    decreases ws.len(),
{
    if ws.len() == 0 {
        Seq::empty()
    } else if torn(ws.last()) {
        torn_guids(ws.drop_last()).push(ws.last().guid@)
    } else {
        torn_guids(ws.drop_last())
    }
}

/// The guids of the pulled worlds whose `Level.sav` fails the integrity check.
pub fn torn_worlds(worlds: &Vec<PulledWorld>) -> (r: Vec<String>)
    ensures
        r@.map_values(|g: String| g@) == torn_guids(worlds@),
{
    let n = worlds.len();
    let mut r: Vec<String> = Vec::new();
    let mut i: usize = 0;
    assert(worlds@.take(0) == Seq::<PulledWorld>::empty());
    while i < n
        invariant
            n == worlds@.len(),
            i <= n,
            r@.map_values(|g: String| g@) == torn_guids(worlds@.take(i as int)),
        decreases n - i,
    {
        assert(worlds@.take(i + 1).drop_last() == worlds@.take(i as int));
        let bad = match &worlds[i].level {
            Some(b) => !is_valid_palworld_sav(b.as_slice()),
            None => false,
        };
        if bad {
            let ghost before = r@;
            r.push(worlds[i].guid.clone());
            assert(r@.map_values(|g: String| g@) == before.map_values(|g: String| g@).push(
                worlds@[i as int].guid@,
            ));
        }
        i += 1;
    }
    assert(worlds@.take(n as int) == worlds@);
    r
}

/// What to do after checking a pull.
#[derive(Debug, PartialEq, Eq, Structural)]
pub enum IntegrityAction {
    /// Every world is sound.
    Accept,
    /// Force another save and pull again.
    Resave,
    /// Keep going without the torn worlds.
    SkipTorn,
}

/// Sound pulls are accepted; a torn one is retried once when a save can be forced, else
/// the torn worlds are skipped.
pub fn integrity_action(attempt: u8, can_resave: bool, torn_count: usize) -> (r: IntegrityAction)
    ensures
        torn_count == 0 ==> r == IntegrityAction::Accept,
        torn_count > 0 && can_resave && attempt == 0 ==> r == IntegrityAction::Resave,
        torn_count > 0 && !(can_resave && attempt == 0) ==> r == IntegrityAction::SkipTorn,
{
    if torn_count == 0 {
        IntegrityAction::Accept
    } else if can_resave && attempt == 0 {
        IntegrityAction::Resave
    } else {
        IntegrityAction::SkipTorn
    }
}

/// A retry can force a new save: the server is not being stopped and a channel is usable.
pub fn can_resave(s: &AppSettings, admin_password_saved: bool) -> (r: bool)
    ensures
        r == (!s.stop_before_backup && (rest_usable(*s, admin_password_saved) || rcon_usable(
            *s,
            admin_password_saved,
        ))),
{
    let (rest, rcon) = live_channels(s, admin_password_saved);
    !s.stop_before_backup && (rest || rcon)
}

/// The warning for a world skipped because its `Level.sav` is torn.
pub fn torn_warning(guid: &str) -> (r: String)
    ensures
        r@ == "World "@ + guid@
            + ": Level.sav failed the integrity check (torn mid-save) — that world's snapshot was skipped this run. Turn on 'stop before backup' for a guaranteed clean copy."@,
{
    let mut m = chars_of("World ");
    push_str(&mut m, guid);
    push_str(
        &mut m,
        ": Level.sav failed the integrity check (torn mid-save) — that world's snapshot was skipped this run. Turn on 'stop before backup' for a guaranteed clean copy.",
    );
    string_of(&m)
}

/// Drops every torn `Level.sav`, leaving everything else as it was.
pub fn drop_torn_levels(worlds: &mut Vec<PulledWorld>)
    ensures
        final(worlds)@.len() == old(worlds)@.len(),
        forall|i: int|
            0 <= i < old(worlds)@.len() ==> {
                &&& (#[trigger] final(worlds)@[i]).guid == old(worlds)@[i].guid
                &&& final(worlds)@[i].others == old(worlds)@[i].others
                &&& final(worlds)@[i].level == if torn(old(worlds)@[i]) {
                    None
                } else {
                    old(worlds)@[i].level
                }
            },
{
    let n = worlds.len();
    let mut i: usize = 0;
    while i < n
        invariant
            n == worlds@.len() == old(worlds)@.len(),
            i <= n,
            forall|j: int|
                i <= j < n ==> #[trigger] worlds@[j] == old(worlds)@[j],
            forall|j: int|
                0 <= j < i ==> {
                    &&& (#[trigger] worlds@[j]).guid == old(worlds)@[j].guid
                    &&& worlds@[j].others == old(worlds)@[j].others
                    &&& worlds@[j].level == if torn(old(worlds)@[j]) {
                        None
                    } else {
                        old(worlds)@[j].level
                    }
                },
        decreases n - i,
    {
        let bad = match &worlds[i].level {
            Some(b) => !is_valid_palworld_sav(b.as_slice()),
            None => false,
        };
        if bad {
            let w = worlds.remove(i);
            let PulledWorld { guid, level: _, others } = w;
            worlds.insert(i, PulledWorld { guid, level: None, others });
        }
        i += 1;
    }
}

/// Config files that are redacted before they are committed: the `.ini` ones.
pub fn is_ini(name: &str) -> (r: bool)
    ensures
        r == ends_with(name@, ".ini"@),
{
    let cs = chars_of(name);
    let p = chars_of(".ini");
    ends_with_chars(&cs, &p)
}

/// `key=value` lines of the secrets taken from one file.
pub open spec fn secret_lines(secrets: Seq<(Seq<char>, Seq<char>)>) -> Seq<char>
    decreases secrets.len(),
{
    if secrets.len() == 0 {
        Seq::empty()
    } else {
        secret_lines(secrets.drop_last()) + secrets.last().0 + "="@ + secrets.last().1 + "\n"@
    }
}

/// The section of the secrets sidecar for one config file: `[name]`, its `key=value`
/// lines, and a blank line.
pub fn sidecar_section(name: &str, secrets: &Vec<(String, String)>) -> (r: String)
    ensures
        r@ == "["@ + name@ + "]\n"@ + secret_lines(pairs_model(secrets@)) + "\n"@,
{
    let mut m = chars_of("[");
    push_str(&mut m, name);
    push_str(&mut m, "]\n");
    let ghost head = m@;
    let ghost ss = pairs_model(secrets@);
    let n = secrets.len();
    let mut i: usize = 0;
    assert(ss.take(0) == Seq::<(Seq<char>, Seq<char>)>::empty());
    while i < n
        invariant
            n == secrets@.len() == ss.len(),
            ss == pairs_model(secrets@),
            i <= n,
            m@ == head + secret_lines(ss.take(i as int)),
        decreases n - i,
    {
        push_str(&mut m, secrets[i].0.as_str());
        push_str(&mut m, "=");
        push_str(&mut m, secrets[i].1.as_str());
        push_str(&mut m, "\n");
        assert(ss.take(i + 1).drop_last() == ss.take(i as int));
        i += 1;
    }
    assert(ss.take(n as int) == ss);
    push_str(&mut m, "\n");
    string_of(&m)
}

/// The first lines of the secrets sidecar.
pub open spec fn sidecar_header() -> Seq<char> {
    "# PAL COMMAND — real secret values pulled from server config.\n# Git-ignored on purpose. Keep local; needed to reconstitute config on restore.\n\n"@
}

/// The secrets sidecar: nothing when no secret was taken out, else the header and the
/// sections.
pub fn sidecar_file(sections: &str) -> (r: Option<String>)
    ensures
        sections@.len() == 0 ==> r is None,
        sections@.len() > 0 ==> (r matches Some(t) && t@ == sidecar_header() + sections@),
{
    if sections.is_empty() {
        return None;
    }
    let mut m = chars_of(
        "# PAL COMMAND — real secret values pulled from server config.\n# Git-ignored on purpose. Keep local; needed to reconstitute config on restore.\n\n",
    );
    push_str(&mut m, sections);
    Some(string_of(&m))
}

/// A Level.sav of more than 95 MiB draws a warning about GitHub's 100 MB limit.
pub const LEVEL_SIZE_WARN: usize = 99614720;

/// The first eight bytes of a world guid's UTF-8 text (all of it when shorter).
pub open spec fn short_guid(g: Seq<char>) -> Seq<char> {
    if encode_utf8(g).len() <= 8 {
        g
    } else {
        decode_utf8(encode_utf8(g).subrange(0, 8))
    }
}

/// The guid can be cut after eight bytes: it is no longer, or a character starts there.
pub open spec fn guid_cut_ok(g: Seq<char>) -> bool {
    encode_utf8(g).len() <= 8 || is_char_boundary(encode_utf8(g), 8)
}

/// The first eight bytes of a guid, as text.
fn short_guid_of(guid: &str) -> (r: &str)
    requires
        guid_cut_ok(guid@),
    ensures
        r@ == short_guid(guid@),
{
    assert(guid.spec_bytes() == encode_utf8(guid@));
    if guid.as_bytes().len() <= 8 {
        guid
    } else {
        let (head, _) = guid.split_at(8);
        proof {
            assert(head.spec_bytes() == encode_utf8(head@));
            vstd::utf8::encode_utf8_decode_utf8(head@);
        }
        head
    }
}

/// `{ts}_{short guid}.tar.gz`: the name of a world snapshot.
pub fn archive_name(ts: &str, guid: &str) -> (r: String)
    requires
        guid_cut_ok(guid@),
    ensures
        r@ == ts@ + "_"@ + short_guid(guid@) + ".tar.gz"@,
{
    let mut m = chars_of(ts);
    push_str(&mut m, "_");
    push_str(&mut m, short_guid_of(guid));
    push_str(&mut m, ".tar.gz");
    string_of(&m)
}

/// The warning for a `Level.sav` near GitHub's file size limit; `size` is the size as
/// shown to the user.
pub fn level_size_warning(guid: &str, size: &str) -> (r: String)
    requires
        guid_cut_ok(guid@),
    ensures
        r@ == "World "@ + short_guid(guid@) + ": Level.sav is "@ + size@
            + " — approaching GitHub's 100MB hard limit. Enable Git LFS or run a save-cleanup pass."@,
{
    let mut m = chars_of("World ");
    push_str(&mut m, short_guid_of(guid));
    push_str(&mut m, ": Level.sav is ");
    push_str(&mut m, size);
    push_str(
        &mut m,
        " — approaching GitHub's 100MB hard limit. Enable Git LFS or run a save-cleanup pass.",
    );
    string_of(&m)
}

/// Whether a guid can be cut after eight bytes.
pub fn guid_cuts(guid: &str) -> (r: bool)
    ensures
        r == guid_cut_ok(guid@),
{
    assert(guid.spec_bytes() == encode_utf8(guid@));
    guid.as_bytes().len() <= 8 || guid.is_char_boundary(8)
}

/// Number of player saves (paths under `Players/`) among a world's other files.
pub open spec fn player_count(others: Seq<(String, Vec<u8>)>) -> nat
    decreases others.len(),
{
    if others.len() == 0 {
        0
    } else {
        player_count(others.drop_last()) + if starts_with(others.last().0@, "Players/"@) {
            1nat
        } else {
            0nat
        }
    }
}

/// A file of a world counts as a player save when its path starts with `Players/`.
pub open spec fn is_player_file(f: (String, Vec<u8>)) -> bool {
    starts_with(f.0@, "Players/"@)
}

/// The player count of a world's files is the number of them under `Players/`: the
/// world's other saves, such as `LevelMeta.sav` or `WorldOption.sav`, are not counted.
pub proof fn lemma_player_count_counts(others: Seq<(String, Vec<u8>)>)
    ensures
        player_count(others) == others.filter(|f: (String, Vec<u8>)| is_player_file(f)).len(),
    decreases others.len(),
{
    reveal(Seq::filter);
    if others.len() > 0 {
        lemma_player_count_counts(others.drop_last());
    }
}

/// The files of a world snapshot, `Level.sav` first, and how many of them are player
/// saves.
pub fn world_files(level: Vec<u8>, others: Vec<(String, Vec<u8>)>) -> (r: (
    Vec<(String, Vec<u8>)>,
    usize,
))
    ensures
        r.0@.len() == others@.len() + 1,
        r.0@[0].0@ == "Level.sav"@,
        r.0@[0].1@ == level@,
        forall|i: int| 0 <= i < others@.len() ==> #[trigger] r.0@[i + 1] == others@[i],
        r.1 == player_count(others@),
{
    let n = others.len();
    let mut players: usize = 0;
    let mut i: usize = 0;
    let p = chars_of("Players/");
    assert(others@.take(0) == Seq::<(String, Vec<u8>)>::empty());
    while i < n
        invariant
            n == others@.len(),
            i <= n,
            players <= i,
            players == player_count(others@.take(i as int)),
            p@ == "Players/"@,
        decreases n - i,
    {
        assert(others@.take(i + 1).drop_last() == others@.take(i as int));
        let name = chars_of(others[i].0.as_str());
        if starts_with_chars(&name, &p) {
            players += 1;
        }
        i += 1;
    }
    assert(others@.take(n as int) == others@);
    let mut files: Vec<(String, Vec<u8>)> = Vec::new();
    files.push((String::from_str("Level.sav"), level));
    let mut rest = others;
    files.append(&mut rest);
    (files, players)
}

pub open spec fn err_nothing_captured() -> Seq<char> {
    "Nothing captured — check the SFTP paths in Settings (couldn't find Level.sav or a config file)."@
}

/// A backup must capture at least one world or one config file.
pub fn require_captured(worlds: usize, configs: usize) -> (r: Result<(), String>)
    ensures
        (worlds > 0 || configs > 0) <==> r is Ok,
        (worlds == 0 && configs == 0) ==> (r matches Err(e) && e@ == err_nothing_captured()),
{
    if worlds == 0 && configs == 0 {
        return Err(
            String::from_str(
                "Nothing captured — check the SFTP paths in Settings (couldn't find Level.sav or a config file).",
            ),
        );
    }
    Ok(())
}

/// `backup {ts} — {w} world(s), {p} player(s), {c} config(s)`: the commit message.
pub fn backup_commit_message(ts: &str, worlds: usize, players: usize, configs: usize) -> (r: String)
    ensures
        r@ == "backup "@ + ts@ + " — "@ + decimal(worlds as nat) + " world(s), "@ + decimal(
            players as nat,
        ) + " player(s), "@ + decimal(configs as nat) + " config(s)"@,
{
    let mut m = chars_of("backup ");
    push_str(&mut m, ts);
    push_str(&mut m, " — ");
    push_decimal(&mut m, worlds as u64);
    push_str(&mut m, " world(s), ");
    push_decimal(&mut m, players as u64);
    push_str(&mut m, " player(s), ");
    push_decimal(&mut m, configs as u64);
    push_str(&mut m, " config(s)");
    string_of(&m)
}

/// A commit is pushed when there is something committed and a remote to push to.
pub fn should_push(committed: bool, remote_configured: bool, origin_exists: bool) -> (r: bool)
    ensures
        r == (committed && remote_configured && origin_exists),
{
    committed && remote_configured && origin_exists
}

/// The warning when a commit stayed local although a remote is configured.
pub fn unpushed_warning(remote_configured: bool, committed: bool, pushed: bool) -> (r: Option<
    &'static str,
>)
    ensures
        (remote_configured && committed && !pushed) ==> (r matches Some(w) && w@
            == "Committed locally but not pushed — set a remote and check your git credentials."@),
        !(remote_configured && committed && !pushed) ==> r is None,
{
    if remote_configured && !pushed && committed {
        Some("Committed locally but not pushed — set a remote and check your git credentials.")
    } else {
        None
    }
}

// ---------------------------------------------------------------- retention

/// Snapshot archives in the backup folder are the files ending in `.tar.gz`.
pub fn is_archive_name(name: &str) -> (r: bool)
    ensures
        r == ends_with(name@, ".tar.gz"@),
{
    let cs = chars_of(name);
    let suffix = chars_of(".tar.gz");
    ends_with_chars(&cs, &suffix)
}

/// `p` orders the archives newest first by modification time, equal times kept in order.
pub open spec fn newest_first(files: Seq<(String, u64)>, p: Seq<usize>) -> bool {
    stable_descending(p, files.len(), |a: int, b: int| files[a].1 > files[b].1)
}

/// There is one such order: the modification times fix it.
pub proof fn lemma_newest_first_unique(files: Seq<(String, u64)>, p: Seq<usize>, q: Seq<usize>)
    requires
        newest_first(files, p),
        newest_first(files, q),
    ensures
        p == q,
{
    lemma_stable_descending_unique(p, q, files.len(), |a: int, b: int| files[a].1 > files[b].1);
}

/// The archives to delete so that only the `keep` newest remain (by modification time,
/// equal times in the order listed); none at all when `keep` is 0.
pub fn prune_victims(files: &[(String, u64)], keep: usize) -> (r: Vec<String>)
    ensures
        keep == 0 ==> r@.len() == 0,
        keep > 0 ==> exists|p: Seq<usize>|
            #[trigger] newest_first(files@, p) && r@.len() == (if p.len() > keep {
                p.len() - keep
            } else {
                0
            }) && forall|i: int|
                0 <= i < r@.len() ==> (#[trigger] r@[i])@ == files@[p[i + keep] as int].0@,
{
    let mut out: Vec<String> = Vec::new();
    if keep == 0 {
        return out;
    }
    let mut times: Vec<u64> = Vec::new();
    let mut i: usize = 0;
    while i < files.len()
        invariant
            i <= files@.len(),
            times@.len() == i,
            forall|k: int| 0 <= k < i ==> #[trigger] times@[k] == files@[k].1,
        decreases files@.len() - i,
    {
        times.push(files[i].1);
        i += 1;
    }
    let order = order_by_number_desc(&times);
    proof {
        lemma_stable_descending_same_keys(
            order@,
            files@.len(),
            |a: int, b: int| times@[a] > times@[b],
            |a: int, b: int| files@[a].1 > files@[b].1,
        );
    }
    let mut j: usize = keep;
    while j < order.len()
        invariant
            keep > 0,
            keep <= j,
            order@.len() == files@.len(),
            forall|k: int| 0 <= k < order@.len() ==> #[trigger] order@[k] < files@.len(),
            j <= order@.len() ==> out@.len() == j - keep,
            j > order@.len() ==> j == keep && out@.len() == 0,
            forall|k: int|
                0 <= k < out@.len() ==> (#[trigger] out@[k])@ == files@[order@[k + keep] as int].0@,
        decreases order@.len() - j,
    {
        out.push(files[order[j]].0.clone());
        j += 1;
    }
    assert(newest_first(files@, order@));
    out
}

/// What keeps real secrets and the game's own rolling backups out of git.
pub const BACKUP_GITIGNORE: &'static str = "*.tmp\nsecrets.local.ini\n**/secrets.local.ini\n*.local.ini\nbackup/\n";

/// The README of the backup repository.
pub fn backup_readme() -> (r: &'static str)
    ensures
        r@ == "# Palworld server backup\n\nManaged by **PAL·COMMAND**.\n\n- `config/` — server config files (PalWorldSettings.ini, GameUserSettings.ini, Engine.ini) as readable text, versioned in git.\n- `saves/` — timestamped `tar.gz` snapshots of each world (Level.sav + LevelMeta.sav + WorldOption.sav + Players/), integrity-checked before commit.\n\nSaves are binary and can be large; if a world approaches 100MB, enable Git LFS for `saves/*.tar.gz`.\n\nTo restore, extract a snapshot's files back into `Pal/Saved/SaveGames/0/<WorldGUID>/` **with the server stopped**, keeping the whole set together.\n"@,
{
    "# Palworld server backup\n\nManaged by **PAL·COMMAND**.\n\n- `config/` — server config files (PalWorldSettings.ini, GameUserSettings.ini, Engine.ini) as readable text, versioned in git.\n- `saves/` — timestamped `tar.gz` snapshots of each world (Level.sav + LevelMeta.sav + WorldOption.sav + Players/), integrity-checked before commit.\n\nSaves are binary and can be large; if a world approaches 100MB, enable Git LFS for `saves/*.tar.gz`.\n\nTo restore, extract a snapshot's files back into `Pal/Saved/SaveGames/0/<WorldGUID>/` **with the server stopped**, keeping the whole set together.\n"
}

// ---------------------------------------------------------------- pulling

/// `{a}/{b}`: a path on the server.
pub fn remote_path(a: &str, b: &str) -> (r: String)
    ensures
        r@ == a@ + "/"@ + b@,
{
    let mut m = chars_of(a);
    push_str(&mut m, "/");
    push_str(&mut m, b);
    string_of(&m)
}

/// The config files pulled besides `PalWorldSettings.ini`.
pub fn extra_config_files() -> (r: Vec<&'static str>)
    ensures
        r@.len() == 2,
        r@[0]@ == "GameUserSettings.ini"@,
        r@[1]@ == "Engine.ini"@,
{
    let mut v = Vec::new();
    v.push("GameUserSettings.ini");
    v.push("Engine.ini");
    v
}

/// The world files pulled besides `Level.sav` and the player saves.
pub fn extra_world_files() -> (r: Vec<&'static str>)
    ensures
        r@.len() == 2,
        r@[0]@ == "LevelMeta.sav"@,
        r@[1]@ == "WorldOption.sav"@,
{
    let mut v = Vec::new();
    v.push("LevelMeta.sav");
    v.push("WorldOption.sav");
    v
}

/// Player files worth pulling: the `.sav` ones.
pub fn is_player_save(name: &str) -> (r: bool)
    ensures
        r == ends_with(name@, ".sav"@),
{
    let cs = chars_of(name);
    let p = chars_of(".sav");
    ends_with_chars(&cs, &p)
}

// ---------------------------------------------------------------- restore

/// `Snapshot '{name}' not found in the backup folder.`
pub fn snapshot_missing(name: &str) -> (r: String)
    ensures
        r@ == "Snapshot '"@ + name@ + "' not found in the backup folder."@,
{
    let mut m = chars_of("Snapshot '");
    push_str(&mut m, name);
    push_str(&mut m, "' not found in the backup folder.");
    string_of(&m)
}

/// Index of the first file named `Level.sav`.
pub open spec fn level_index(files: Seq<(String, Vec<u8>)>, i: int) -> Option<int>
    decreases files.len() - i,
{
    if i < 0 || i >= files.len() {
        None
    } else if files[i].0@ == "Level.sav"@ {
        Some(i)
    } else {
        level_index(files, i + 1)
    }
}

pub open spec fn err_no_level() -> Seq<char> {
    "Snapshot has no Level.sav — refusing to restore."@
}

pub open spec fn err_corrupt_level() -> Seq<char> {
    "The snapshot's Level.sav fails the integrity check — refusing to restore a corrupt world."@
}

/// A snapshot is restored only when its (first) `Level.sav` passes the integrity check.
pub fn check_snapshot(files: &Vec<(String, Vec<u8>)>) -> (r: Result<(), String>)
    ensures
        level_index(files@, 0) is None ==> (r matches Err(e) && e@ == err_no_level()),
        level_index(files@, 0) matches Some(i) && valid_sav(files@[i].1@) ==> r is Ok,
        level_index(files@, 0) matches Some(i) && !valid_sav(files@[i].1@) ==> (r matches Err(e)
            && e@ == err_corrupt_level()),
{
    let n = files.len();
    let mut i: usize = 0;
    let target = String::from_str("Level.sav");
    while i < n
        invariant
            n == files@.len(),
            i <= n,
            target@ == "Level.sav"@,
            level_index(files@, 0) == level_index(files@, i as int),
        decreases n - i,
    {
        if files[i].0 == target {
            if is_valid_palworld_sav(files[i].1.as_slice()) {
                return Ok(());
            } else {
                return Err(
                    String::from_str(
                        "The snapshot's Level.sav fails the integrity check — refusing to restore a corrupt world.",
                    ),
                );
            }
        }
        i += 1;
    }
    Err(String::from_str("Snapshot has no Level.sav — refusing to restore."))
}

/// The warning when a restore cannot stop the server itself.
pub fn restore_unstopped_warning() -> (r: &'static str)
    ensures
        r@ == "No REST/RCON channel to stop the server — make sure it is STOPPED in the panel before restoring, or the running server will overwrite the restore."@,
{
    "No REST/RCON channel to stop the server — make sure it is STOPPED in the panel before restoring, or the running server will overwrite the restore."
}

/// Index of the first name without a `.`: a world folder.
pub open spec fn world_folder_index(names: Seq<String>, i: int) -> Option<int>
    decreases names.len() - i,
{
    if i < 0 || i >= names.len() {
        None
    } else if !names[i]@.contains('.') {
        Some(i)
    } else {
        world_folder_index(names, i + 1)
    }
}

pub open spec fn err_no_world_folder() -> Seq<char> {
    "Couldn't find a world folder on the server to restore into."@
}

/// The world folder to restore into: the first listed name without a `.`.
pub fn pick_world_folder(names: &Vec<String>) -> (r: Result<String, String>)
    ensures
        world_folder_index(names@, 0) matches Some(i) ==> (r matches Ok(w) && w@ == names@[i]@),
        world_folder_index(names@, 0) is None ==> (r matches Err(e) && e@ == err_no_world_folder()),
{
    let n = names.len();
    let mut i: usize = 0;
    let dot = vec!['.'];
    while i < n
        invariant
            n == names@.len(),
            i <= n,
            dot@ == seq!['.'],
            world_folder_index(names@, 0) == world_folder_index(names@, i as int),
        decreases n - i,
    {
        let cs = chars_of(names[i].as_str());
        let has_dot = contains_chars(&cs, &dot);
        proof {
            crate::text::lemma_find_from(cs@, seq!['.'], 0);
            if cs@.contains('.') {
                let k = choose|k: int| 0 <= k < cs@.len() && cs@[k] == '.';
                assert(cs@.subrange(k, k + 1) == seq!['.']);
                assert(match_at(cs@, seq!['.'], k));
            }
            if has_dot {
                let k = find(cs@, seq!['.'])->Some_0;
                assert(cs@.subrange(k, k + 1)[0] == cs@[k]);
                assert(cs@.contains('.'));
            }
        }
        if !has_dot {
            return Ok(names[i].clone());
        }
        i += 1;
    }
    Err(String::from_str("Couldn't find a world folder on the server to restore into."))
}

pub open spec fn restore_message_spec(restored: nat, world: Seq<char>, stopped: bool) -> Seq<char> {
    "Restored "@ + decimal(restored) + " file(s) into world '"@ + world + "'. "@ + if stopped {
        "Server was stopped — START it from the Host Havoc panel to load the restored world."@
    } else {
        "Restore uploaded — start the server when ready."@
    }
}

/// The message a restore reports.
pub fn restore_message(restored: usize, world: &str, server_stopped: bool) -> (r: String)
    ensures
        r@ == restore_message_spec(restored as nat, world@, server_stopped),
{
    let mut m = chars_of("Restored ");
    push_decimal(&mut m, restored as u64);
    push_str(&mut m, " file(s) into world '");
    push_str(&mut m, world);
    push_str(&mut m, "'. ");
    if server_stopped {
        push_str(
            &mut m,
            "Server was stopped — START it from the Host Havoc panel to load the restored world.",
        );
    } else {
        push_str(&mut m, "Restore uploaded — start the server when ready.");
    }
    string_of(&m)
}

} // verus!
