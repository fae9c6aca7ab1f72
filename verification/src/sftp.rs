//! SFTP through the system OpenSSH client: the batch scripts it is given, and how its
//! output is read back (directory listings and error messages).
use vstd::prelude::*;
use crate::paths::{joined, path_join, plain_component, verbatim_like};
use crate::text::{
    chars_eq, chars_of, contains_chars, contains_seq, decimal, join_with, line_bounds, lines_from,
    lowercase, push_all, push_decimal, push_range, push_str, starts_with, starts_with_chars,
    string_of, strip_all, strip_all_start, strip_end_char, strip_end_char_end, sub_vec,
    to_lowercase, trim, trim_bounds,
};

verus! {

broadcast use vstd::string::group_string_axioms;

/// Where and how to log in over SFTP.
pub struct SftpConfig {
    pub host: String,
    pub port: u16,
    pub user: String,
    pub password: String,
}

/// A handle for SFTP work: the login, the askpass helper that hands `sftp` the password,
/// and the local directory that transfers pass through. There is no long-lived
/// connection: every operation runs a fresh `sftp` process.
pub struct Session {
    cfg: SftpConfig,
    askpass: String,
    temp_dir: String,
}

impl Session {
    pub closed spec fn host_view(&self) -> Seq<char> {
        self.cfg.host@
    }

    pub closed spec fn port_view(&self) -> u16 {
        self.cfg.port
    }

    pub closed spec fn user_view(&self) -> Seq<char> {
        self.cfg.user@
    }

    pub closed spec fn password_view(&self) -> Seq<char> {
        self.cfg.password@
    }

    pub closed spec fn askpass_view(&self) -> Seq<char> {
        self.askpass@
    }

    pub closed spec fn temp_dir_view(&self) -> Seq<char> {
        self.temp_dir@
    }

    /// A session with login `cfg`, askpass helper `askpass` and transfer directory
    /// `temp_dir`.
    pub fn new(cfg: SftpConfig, askpass: String, temp_dir: String) -> (r: Self)
        ensures
            r.host_view() == cfg.host@,
            r.port_view() == cfg.port,
            r.user_view() == cfg.user@,
            r.password_view() == cfg.password@,
            r.askpass_view() == askpass@,
            r.temp_dir_view() == temp_dir@,
    {
        Session { cfg, askpass, temp_dir }
    }

    pub fn host(&self) -> (r: &str)
        ensures
            r@ == self.host_view(),
    {
        self.cfg.host.as_str()
    }

    pub fn port(&self) -> (r: u16)
        ensures
            r == self.port_view(),
    {
        self.cfg.port
    }

    pub fn user(&self) -> (r: &str)
        ensures
            r@ == self.user_view(),
    {
        self.cfg.user.as_str()
    }

    pub fn password(&self) -> (r: &str)
        ensures
            r@ == self.password_view(),
    {
        self.cfg.password.as_str()
    }

    pub fn askpass(&self) -> (r: &str)
        ensures
            r@ == self.askpass_view(),
    {
        self.askpass.as_str()
    }

    /// The local file `name` in the transfer directory.
    pub fn temp_file(&self, name: &str) -> (r: String)
        requires
            plain_component(name@),
        ensures
            !verbatim_like(self.temp_dir_view()) ==> joined(self.temp_dir_view(), name@, r@),
    {
        path_join(self.temp_dir.as_str(), name)
    }
}

/// The `sftp` command line for a batch read from stdin: password login only (through the
/// askpass helper), new host keys accepted and kept in `known_hosts`, a 10 s connect
/// timeout, then `-P <port> -b - <user>@<host>`.
pub open spec fn sftp_args_spec(port: u16, user: Seq<char>, host: Seq<char>, known_hosts: Seq<
    char,
>) -> Seq<Seq<char>> {
    seq![
        "-oBatchMode=no"@,
        "-oStrictHostKeyChecking=accept-new"@,
        "-oUserKnownHostsFile="@ + known_hosts,
        "-oConnectTimeout=10"@,
        "-oPubkeyAuthentication=no"@,
        "-oPreferredAuthentications=password,keyboard-interactive"@,
        "-P"@,
        decimal(port as nat),
        "-b"@,
        "-"@,
        user + "@"@ + host,
    ]
}

/// The arguments of an `sftp` run for the session.
pub fn sftp_args(s: &Session, known_hosts: &str) -> (r: Vec<String>)
    ensures
        r@.map_values(|x: String| x@) == sftp_args_spec(
            s.port_view(),
            s.user_view(),
            s.host_view(),
            known_hosts@,
        ),
{
    let mut kh = chars_of("-oUserKnownHostsFile=");
    push_str(&mut kh, known_hosts);
    let mut port: Vec<char> = Vec::new();
    push_decimal(&mut port, s.port() as u64);
    let mut target = chars_of(s.user());
    push_str(&mut target, "@");
    push_str(&mut target, s.host());
    let r = vec![
        String::from_str("-oBatchMode=no"),
        String::from_str("-oStrictHostKeyChecking=accept-new"),
        string_of(&kh),
        String::from_str("-oConnectTimeout=10"),
        String::from_str("-oPubkeyAuthentication=no"),
        String::from_str("-oPreferredAuthentications=password,keyboard-interactive"),
        String::from_str("-P"),
        string_of(&port),
        String::from_str("-b"),
        String::from_str("-"),
        string_of(&target),
    ];
    assert(r@.map_values(|x: String| x@) =~= sftp_args_spec(
        s.port_view(),
        s.user_view(),
        s.host_view(),
        known_hosts@,
    ));
    r
}

/// The error when a download reported success but left no file.
pub fn missing_download_message(path: &str, out: &str) -> (r: String)
    ensures
        r@ == "download "@ + path@ + ": sftp reported success but the file wasn't created — "@
            + condensed(out@),
{
    let mut m = chars_of("download ");
    push_str(&mut m, path);
    push_str(&mut m, ": sftp reported success but the file wasn't created — ");
    let t = trim_sftp_output(out);
    push_str(&mut m, t.as_str());
    string_of(&m)
}

// ---------------------------------------------------------------- output

/// A line of sftp output worth showing: not blank and not an echoed `sftp>` prompt.
pub open spec fn shown_line(l: Seq<char>) -> bool {
    trim(l).len() > 0 && !starts_with(trim(l), "sftp>"@)
}

/// The trimmed lines worth showing, in order.
pub open spec fn shown_lines(ls: Seq<Seq<char>>) -> Seq<Seq<char>>
    decreases ls.len(),
{
    if ls.len() == 0 {
        Seq::empty()
    } else if shown_line(ls.last()) {
        shown_lines(ls.drop_last()).push(trim(ls.last()))
    } else {
        shown_lines(ls.drop_last())
    }
}

/// sftp output condensed to one line: the lines worth showing, joined by ` · `.
pub open spec fn condensed(s: Seq<char>) -> Seq<char> {
    join_with(shown_lines(lines_from(s, 0)), " · "@)
}

/// Condenses sftp output to one line.
pub fn trim_sftp_output(s: &str) -> (r: String)
    ensures
        r@ == condensed(s@),
{
    let cs = chars_of(s);
    let lines = line_bounds(&cs);
    let ghost ls = lines_from(cs@, 0);
    let prompt = chars_of("sftp>");
    let mut out: Vec<char> = Vec::new();
    let mut count: usize = 0;
    let mut i: usize = 0;
    assert(ls.take(0) == Seq::<Seq<char>>::empty());
    while i < lines.len()
        invariant
            cs@ == s@,
            ls == lines_from(cs@, 0),
            lines@.len() == ls.len(),
            forall|k: int|
                0 <= k < lines@.len() ==> (#[trigger] lines@[k]).0 <= lines@[k].1 <= cs@.len()
                    && cs@.subrange(lines@[k].0 as int, lines@[k].1 as int) == ls[k],
            prompt@ == "sftp>"@,
            i <= lines@.len(),
            count == shown_lines(ls.take(i as int)).len(),
            count <= i,
            out@ == join_with(shown_lines(ls.take(i as int)), " · "@),
        decreases lines@.len() - i,
    {
        let (a, b) = lines[i];
        let (x, y) = trim_bounds(&cs, a, b);
        let t = sub_vec(&cs, x, y);
        let ghost parts = shown_lines(ls.take(i as int));
        assert(ls.take(i + 1).drop_last() == ls.take(i as int));
        assert(ls.take(i + 1).last() == ls[i as int]);
        if x < y && !starts_with_chars(&t, &prompt) {
            let ghost next = parts.push(t@);
            assert(next.drop_last() == parts);
            if count > 0 {
                push_str(&mut out, " · ");
            }
            push_all(&mut out, &t);
            count += 1;
            assert(shown_lines(ls.take(i + 1)) == next);
        }
        i += 1;
    }
    assert(ls.take(lines@.len() as int) == ls);
    string_of(&out)
}

pub open spec fn msg_auth_failed() -> Seq<char> {
    "SFTP authentication failed — check the SFTP password (same as your Host Havoc panel login)."@
}

pub open spec fn msg_not_found() -> Seq<char> {
    "SFTP: file or directory not found."@
}

pub open spec fn msg_askpass() -> Seq<char> {
    "SFTP: password helper didn't run. Make sure Windows OpenSSH Client is installed (Settings → Apps → Optional Features)."@
}

/// The message for a failed sftp run, from its combined output and that output
/// lowercased: known causes recognised in the lowercased text, else the condensed output.
pub open spec fn failure_message_spec(combined: Seq<char>, low: Seq<char>) -> Seq<char> {
    if contains_seq(low, "permission denied"@) {
        msg_auth_failed()
    } else if contains_seq(low, "no such file"@) {
        msg_not_found()
    } else if contains_seq(low, "connection refused"@) || contains_seq(low, "could not resolve"@)
        || contains_seq(low, "connect to"@) {
        "SFTP: can't reach the server — "@ + condensed(combined)
    } else if contains_seq(low, "ssh_askpass"@) || contains_seq(low, "askpass"@) {
        msg_askpass()
    } else {
        condensed(combined)
    }
}

/// What a failed sftp run printed, stderr first: `{stderr}\n{stdout}`.
pub open spec fn combined_output(stdout: Seq<char>, stderr: Seq<char>) -> Seq<char> {
    stderr + "\n"@ + stdout
}

/// The message for a failed sftp run, from what it printed.
pub open spec fn friendly_spec(stdout: Seq<char>, stderr: Seq<char>) -> Seq<char> {
    failure_message_spec(
        combined_output(stdout, stderr),
        lowercase(combined_output(stdout, stderr)),
    )
}

fn contains_str(hay: &[char], needle: &str) -> (r: bool)
    ensures
        r == contains_seq(hay@, needle@),
{
    let n = chars_of(needle);
    contains_chars(hay, &n)
}

/// The message for a failed sftp run, given its combined output and that output
/// lowercased.
pub fn failure_message(combined: &str, lowered: &str) -> (r: String)
    ensures
        r@ == failure_message_spec(combined@, lowered@),
{
    let low = chars_of(lowered);
    if contains_str(&low, "permission denied") {
        return String::from_str(
            "SFTP authentication failed — check the SFTP password (same as your Host Havoc panel login).",
        );
    }
    if contains_str(&low, "no such file") {
        return String::from_str("SFTP: file or directory not found.");
    }
    if contains_str(&low, "connection refused") || contains_str(&low, "could not resolve")
        || contains_str(&low, "connect to") {
        let mut m = chars_of("SFTP: can't reach the server — ");
        let t = trim_sftp_output(combined);
        push_str(&mut m, t.as_str());
        return string_of(&m);
    }
    if contains_str(&low, "ssh_askpass") || contains_str(&low, "askpass") {
        return String::from_str(
            "SFTP: password helper didn't run. Make sure Windows OpenSSH Client is installed (Settings → Apps → Optional Features).",
        );
    }
    trim_sftp_output(combined)
}

/// The message for a failed sftp run: its output lowercased by `str::to_lowercase`, then
/// `failure_message`.
pub fn friendly_error(stdout: &str, stderr: &str) -> (r: String)
    ensures
        r@ == friendly_spec(stdout@, stderr@),
{
    let mut c = chars_of(stderr);
    push_str(&mut c, "\n");
    push_str(&mut c, stdout);
    let combined = string_of(&c);
    let lower = to_lowercase(combined.as_str());
    failure_message(combined.as_str(), lower.as_str())
}

// ---------------------------------------------------------------- listings

/// Lines of `ls` output that are not entries: prompts, progress and banners.
pub open spec fn noise_line(t: Seq<char>) -> bool {
    ||| t.len() == 0
    ||| starts_with(t, "sftp>"@)
    ||| starts_with(t, "Fetching"@)
    ||| starts_with(t, "Sending"@)
    ||| starts_with(t, "Connected"@)
    ||| starts_with(t, "Changing"@)
    ||| starts_with(t, "Remote working directory"@)
    ||| starts_with(t, "Warning:"@)
}

/// The entry name on one line of `ls -1` output for directory `prefix` (the requested
/// directory without trailing slashes), if the line is an entry.
pub open spec fn ls_entry(l: Seq<char>, prefix: Seq<char>) -> Option<Seq<char>> {
    let t = trim(l);
    if noise_line(t) {
        None
    } else {
        let name = strip_all(strip_all(t, prefix), "/"@);
        if name.len() == 0 || name == "."@ || name == ".."@ || (name.contains(' ')
            && name.contains(':')) {
            None
        } else {
            Some(name)
        }
    }
}

/// The entries of the lines, in order.
pub open spec fn ls_entries(ls: Seq<Seq<char>>, prefix: Seq<char>) -> Seq<Seq<char>>
    decreases ls.len(),
{
    if ls.len() == 0 {
        Seq::empty()
    } else {
        match ls_entry(ls.last(), prefix) {
            Some(n) => ls_entries(ls.drop_last(), prefix).push(n),
            None => ls_entries(ls.drop_last(), prefix),
        }
    }
}

/// The name on a line of `ls -1` output for directory `prefix`: the trimmed line without
/// the directory in front and the slashes after it.
pub open spec fn ls_name(l: Seq<char>, prefix: Seq<char>) -> Seq<char> {
    strip_all(strip_all(trim(l), prefix), "/"@)
}

/// An entry line is one that is neither a prompt nor a banner and names something other
/// than `.` or `..` with no `:` in it (spaces and all).
pub open spec fn plain_entry_line(l: Seq<char>, prefix: Seq<char>) -> bool {
    &&& !noise_line(trim(l))
    &&& ls_name(l, prefix).len() > 0
    &&& ls_name(l, prefix) != "."@
    &&& ls_name(l, prefix) != ".."@
    &&& !ls_name(l, prefix).contains(':')
}

/// A listing line is read as its entry whenever it is an entry line: a name with spaces
/// is listed like any other. Only a name holding both a space and a `:`, as a long
/// listing's line does, is passed over besides prompts, banners, `.` and `..`.
pub proof fn lemma_ls_line_listed(l: Seq<char>, prefix: Seq<char>)
    ensures
        plain_entry_line(l, prefix) ==> ls_entry(l, prefix) == Some(ls_name(l, prefix)),
        ls_name(l, prefix).contains(' ') && ls_name(l, prefix).contains(':') ==> ls_entry(
            l,
            prefix,
        ) is None,
        ls_entry(l, prefix) matches Some(n) ==> n == ls_name(l, prefix) && !noise_line(trim(l)),
{
}

/// Every entry line of a listing shows up among its entries.
pub proof fn lemma_ls_lists_entry_lines(ls: Seq<Seq<char>>, prefix: Seq<char>, i: int)
    requires
        0 <= i < ls.len(),
        plain_entry_line(ls[i], prefix),
    ensures
        ls_entries(ls, prefix).contains(ls_name(ls[i], prefix)),
    decreases ls.len(),
{
    lemma_ls_line_listed(ls[i], prefix);
    if i == ls.len() - 1 {
        assert(ls_entries(ls, prefix) == ls_entries(ls.drop_last(), prefix).push(ls_name(ls[i], prefix)));
        assert(ls_entries(ls, prefix)[ls_entries(ls, prefix).len() - 1] == ls_name(ls[i], prefix));
    } else {
        assert(ls.drop_last()[i] == ls[i]);
        lemma_ls_lists_entry_lines(ls.drop_last(), prefix, i);
        let prev = ls_entries(ls.drop_last(), prefix);
        let k = choose|k: int| 0 <= k < prev.len() && prev[k] == ls_name(ls[i], prefix);
        match ls_entry(ls.last(), prefix) {
            Some(n) => {
                assert(ls_entries(ls, prefix) == prev.push(n));
                assert(ls_entries(ls, prefix)[k] == prev[k]);
            },
            None => {},
        }
    }
}

fn starts_with_str(t: &[char], p: &str) -> (r: bool)
    ensures
        r == starts_with(t@, p@),
{
    let pc = chars_of(p);
    starts_with_chars(t, &pc)
}

fn has_char(t: &[char], c: char) -> (r: bool)
    ensures
        r == t@.contains(c),
{
    let mut i: usize = 0;
    while i < t.len()
        invariant
            i <= t@.len(),
            forall|k: int| 0 <= k < i ==> t@[k] != c,
        decreases t@.len() - i,
    {
        if t[i] == c {
            return true;
        }
        i += 1;
    }
    false
}

/// The entry on `cs[a..b]`, if the line is one.
fn ls_line(cs: &[char], a: usize, b: usize, prefix: &[char]) -> (r: Option<String>)
    requires
        a <= b <= cs@.len(),
    ensures
        match ls_entry(cs@.subrange(a as int, b as int), prefix@) {
            Some(n) => r matches Some(x) && x@ == n,
            None => r is None,
        },
{
    let (x, y) = trim_bounds(cs, a, b);
    let t = sub_vec(cs, x, y);
    if x == y || starts_with_str(&t, "sftp>") || starts_with_str(&t, "Fetching")
        || starts_with_str(&t, "Sending") || starts_with_str(&t, "Connected") || starts_with_str(
        &t,
        "Changing",
    ) || starts_with_str(&t, "Remote working directory") || starts_with_str(&t, "Warning:") {
        return None;
    }
    let i = strip_all_start(&t, prefix);
    let u = sub_vec(&t, i, t.len());
    assert(u@ == t@.skip(i as int));
    let slash = vec!['/'];
    let j = strip_all_start(&u, &slash);
    let name = sub_vec(&u, j, u.len());
    assert(name@ == u@.skip(j as int));
    let dot = vec!['.'];
    let dotdot = vec!['.', '.'];
    proof {
        reveal_strlit(".");
        reveal_strlit("..");
        reveal_strlit("/");
        assert(slash@ == "/"@);
    }
    if name.len() == 0 || chars_eq(&name, &dot) || chars_eq(
        &name,
        &dotdot,
    ) || (has_char(&name, ' ') && has_char(&name, ':')) {
        proof {
            assert(dot@ == "."@);
            assert(dotdot@ == ".."@);
        }
        return None;
    }
    proof {
        assert(dot@ == "."@);
        assert(dotdot@ == ".."@);
    }
    Some(string_of(&name))
}

/// The entry names in `ls -1` output for `requested_dir`.
pub fn parse_ls(out: &str, requested_dir: &str) -> (r: Vec<String>)
    ensures
        r@.map_values(|s: String| s@) == ls_entries(
            lines_from(out@, 0),
            strip_end_char(requested_dir@, '/'),
        ),
{
    let cs = chars_of(out);
    let dc = chars_of(requested_dir);
    let e = strip_end_char_end(&dc, '/');
    let prefix = sub_vec(&dc, 0, e);
    assert(prefix@ == dc@.take(e as int));
    let lines = line_bounds(&cs);
    let ghost ls = lines_from(cs@, 0);
    let mut names: Vec<String> = Vec::new();
    let mut i: usize = 0;
    assert(ls.take(0) == Seq::<Seq<char>>::empty());
    while i < lines.len()
        invariant
            cs@ == out@,
            prefix@ == strip_end_char(requested_dir@, '/'),
            ls == lines_from(cs@, 0),
            lines@.len() == ls.len(),
            forall|k: int|
                0 <= k < lines@.len() ==> (#[trigger] lines@[k]).0 <= lines@[k].1 <= cs@.len()
                    && cs@.subrange(lines@[k].0 as int, lines@[k].1 as int) == ls[k],
            i <= lines@.len(),
            names@.map_values(|s: String| s@) == ls_entries(ls.take(i as int), prefix@),
        decreases lines@.len() - i,
    {
        let (a, b) = lines[i];
        assert(ls.take(i + 1).drop_last() == ls.take(i as int));
        assert(ls.take(i + 1).last() == ls[i as int]);
        let ghost before = names@;
        match ls_line(&cs, a, b, &prefix) {
            Some(n) => {
                names.push(n);
                assert(names@.map_values(|s: String| s@) == before.map_values(|s: String| s@).push(
                    n@,
                ));
            },
            None => {},
        }
        i += 1;
    }
    assert(ls.take(lines@.len() as int) == ls);
    names
}

// ---------------------------------------------------------------- batches

/// `s` with each `"` escaped as `\"`.
pub open spec fn escape_quotes(s: Seq<char>) -> Seq<char>
    decreases s.len(),
{
    if s.len() == 0 {
        Seq::empty()
    } else if s.last() == '"' {
        escape_quotes(s.drop_last()) + seq!['\\', '"']
    } else {
        escape_quotes(s.drop_last()).push(s.last())
    }
}

/// A path as an sftp batch argument: quoted (with its quotes escaped) when it holds a
/// space or a backslash.
pub open spec fn quoted_path(p: Seq<char>) -> Seq<char> {
    if p.contains(' ') || p.contains('\\') {
        seq!['"'] + escape_quotes(p) + seq!['"']
    } else {
        p
    }
}

/// Quotes a path for an sftp batch.
pub fn sftp_quote(p: &str) -> (r: String)
    ensures
        r@ == quoted_path(p@),
{
    let cs = chars_of(p);
    if !(has_char(&cs, ' ') || has_char(&cs, '\\')) {
        return String::from_str(p);
    }
    let mut out: Vec<char> = vec!['"'];
    let ghost head = out@;
    let mut i: usize = 0;
    assert(cs@.take(0) == Seq::<char>::empty());
    while i < cs.len()
        invariant
            i <= cs@.len(),
            head == seq!['"'],
            out@ == head + escape_quotes(cs@.take(i as int)),
        decreases cs@.len() - i,
    {
        assert(cs@.take(i + 1).drop_last() == cs@.take(i as int));
        if cs[i] == '"' {
            out.push('\\');
            out.push('"');
        } else {
            out.push(cs[i]);
        }
        i += 1;
    }
    assert(cs@.take(cs@.len() as int) == cs@);
    out.push('"');
    string_of(&out)
}

/// The batch that checks a login: `pwd`, then `bye`.
pub fn probe_batch() -> (r: &'static str)
    ensures
        r@ == "pwd\nbye\n"@,
{
    "pwd\nbye\n"
}

/// The batch that downloads `remote` to `local`.
pub fn get_batch(remote: &str, local: &str) -> (r: String)
    ensures
        r@ == "get "@ + quoted_path(remote@) + " "@ + quoted_path(local@) + "\nbye\n"@,
{
    let mut m = chars_of("get ");
    push_str(&mut m, sftp_quote(remote).as_str());
    push_str(&mut m, " ");
    push_str(&mut m, sftp_quote(local).as_str());
    push_str(&mut m, "\nbye\n");
    string_of(&m)
}

/// The batch that uploads `local` to `remote`.
pub fn put_batch(local: &str, remote: &str) -> (r: String)
    ensures
        r@ == "put "@ + quoted_path(local@) + " "@ + quoted_path(remote@) + "\nbye\n"@,
{
    let mut m = chars_of("put ");
    push_str(&mut m, sftp_quote(local).as_str());
    push_str(&mut m, " ");
    push_str(&mut m, sftp_quote(remote).as_str());
    push_str(&mut m, "\nbye\n");
    string_of(&m)
}

/// The batch that lists `dir`, one entry per line.
pub fn ls_batch(dir: &str) -> (r: String)
    ensures
        r@ == "ls -1 "@ + quoted_path(dir@) + "\nbye\n"@,
{
    let mut m = chars_of("ls -1 ");
    push_str(&mut m, sftp_quote(dir).as_str());
    push_str(&mut m, "\nbye\n");
    string_of(&m)
}

} // verus!
