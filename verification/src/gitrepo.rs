//! The git operations behind the backup repository, as the argument lists given to the
//! `git` command line, and how their outcomes are read. Authentication to the remote is
//! left to the user's git credential helper: no token passes through here.
use vstd::prelude::*;
use crate::text::{
    chars_of, from_utf8_lossy, join_with, push_all, push_str, string_of, sub_vec, texts, trim,
    trim_bounds, utf8_lossy,
};

verus! {

broadcast use vstd::string::group_string_axioms;

/// One git operation.
pub enum GitOp {
    /// `git init`
    Init,
    /// `git checkout -B <branch>`
    CheckoutBranch(String),
    /// `git remote get-url origin`
    GetOriginUrl,
    /// `git remote set-url origin <url>`
    SetOriginUrl(String),
    /// `git remote add origin <url>`
    AddOrigin(String),
    /// `git add -A`
    StageAll,
    /// `git status --porcelain`
    Status,
    /// `git commit -m <message>`, as the app's own committer
    Commit(String),
    /// `git push -u origin <branch>`
    Push(String),
}

/// The arguments of each operation.
pub open spec fn git_args_spec(op: GitOp) -> Seq<Seq<char>> {
    match op {
        GitOp::Init => seq!["init"@],
        GitOp::CheckoutBranch(b) => seq!["checkout"@, "-B"@, b@],
        GitOp::GetOriginUrl => seq!["remote"@, "get-url"@, "origin"@],
        GitOp::SetOriginUrl(u) => seq!["remote"@, "set-url"@, "origin"@, u@],
        GitOp::AddOrigin(u) => seq!["remote"@, "add"@, "origin"@, u@],
        GitOp::StageAll => seq!["add"@, "-A"@],
        GitOp::Status => seq!["status"@, "--porcelain"@],
        GitOp::Commit(m) => seq![
            "-c"@,
            "user.email=palcommand@local"@,
            "-c"@,
            "user.name=PAL COMMAND"@,
            "commit"@,
            "-m"@,
            m@,
        ],
        GitOp::Push(b) => seq!["push"@, "-u"@, "origin"@, b@],
    }
}

fn strings(parts: &[&str]) -> (r: Vec<String>)
    ensures
        texts(r@) == parts@.map_values(|s: &str| s@),
{
    let mut out: Vec<String> = Vec::new();
    let mut i: usize = 0;
    while i < parts.len()
        invariant
            i <= parts@.len(),
            texts(out@) == parts@.take(i as int).map_values(|s: &str| s@),
        decreases parts@.len() - i,
    {
        let ghost before = out@;
        let s = String::from_str(parts[i]);
        out.push(s);
        assert(out@ == before.push(s));
        assert(texts(out@) == texts(before).push(s@));
        assert(parts@.take(i + 1) == parts@.take(i as int).push(parts@[i as int]));
        assert(parts@.take(i + 1).map_values(|s: &str| s@) == parts@.take(i as int).map_values(
            |s: &str| s@,
        ).push(parts@[i as int]@));
        i += 1;
    }
    assert(parts@.take(parts@.len() as int) == parts@);
    out
}

/// The argument list of an operation.
pub fn git_args(op: &GitOp) -> (r: Vec<String>)
    ensures
        texts(r@) == git_args_spec(*op),
{
    let mut v = match op {
        GitOp::Init => strings(&["init"]),
        GitOp::CheckoutBranch(_) => strings(&["checkout", "-B"]),
        GitOp::GetOriginUrl => strings(&["remote", "get-url", "origin"]),
        GitOp::SetOriginUrl(_) => strings(&["remote", "set-url", "origin"]),
        GitOp::AddOrigin(_) => strings(&["remote", "add", "origin"]),
        GitOp::StageAll => strings(&["add", "-A"]),
        GitOp::Status => strings(&["status", "--porcelain"]),
        GitOp::Commit(_) => strings(
            &["-c", "user.email=palcommand@local", "-c", "user.name=PAL COMMAND", "commit", "-m"],
        ),
        GitOp::Push(_) => strings(&["push", "-u", "origin"]),
    };
    let ghost head = v@;
    match op {
        GitOp::CheckoutBranch(s) | GitOp::SetOriginUrl(s) | GitOp::AddOrigin(s) | GitOp::Commit(
            s,
        ) | GitOp::Push(s) => {
            v.push(s.clone());
            assert(texts(v@) == texts(head).push(s@));
        },
        _ => {},
    }
    v
}

/// The operations that make a fresh repository on `branch`, when `has_git_dir` says that
/// there is none yet.
pub fn setup_ops(has_git_dir: bool, branch: &str) -> (r: Vec<GitOp>)
    ensures
        has_git_dir ==> r@.len() == 0,
        !has_git_dir ==> (r@.len() == 2 && r@[0] is Init && (r@[1] matches GitOp::CheckoutBranch(b)
            && b@ == branch@)),
{
    if has_git_dir {
        Vec::new()
    } else {
        vec![GitOp::Init, GitOp::CheckoutBranch(String::from_str(branch))]
    }
}

/// The operation that points `origin` at `remote`: a new URL for an existing `origin`,
/// else a new `origin`.
pub fn origin_op(origin_exists: bool, remote: &str) -> (r: GitOp)
    ensures
        origin_exists ==> (r matches GitOp::SetOriginUrl(u) && u@ == remote@),
        !origin_exists ==> (r matches GitOp::AddOrigin(u) && u@ == remote@),
{
    if origin_exists {
        GitOp::SetOriginUrl(String::from_str(remote))
    } else {
        GitOp::AddOrigin(String::from_str(remote))
    }
}

/// `git status --porcelain` printed nothing but blanks: there is nothing to commit.
pub fn nothing_to_commit(status: &str) -> (r: bool)
    ensures
        r == (trim(status@).len() == 0),
{
    let cs = chars_of(status);
    let (x, y) = trim_bounds(&cs, 0, cs.len());
    assert(cs@.subrange(0, cs@.len() as int) == cs@);
    x == y
}

/// The error for a git run that exited with a failure: the command and what it printed
/// on stderr, trimmed.
pub open spec fn run_failure_text_spec(args: Seq<Seq<char>>, stderr: Seq<char>) -> Seq<char> {
    "git "@ + join_with(args, " "@) + " failed: "@ + trim(stderr)
}

/// The error for a failed git run, from its stderr as text.
pub fn run_failure_text(args: &[String], stderr: &str) -> (r: String)
    ensures
        r@ == run_failure_text_spec(texts(args@), stderr@),
{
    let ghost parts = texts(args@);
    let mut m = chars_of("git ");
    let ghost head = m@;
    let mut i: usize = 0;
    assert(parts.take(0) == Seq::<Seq<char>>::empty());
    while i < args.len()
        invariant
            i <= args@.len(),
            parts == texts(args@),
            head == "git "@,
            m@ == head + join_with(parts.take(i as int), " "@),
        decreases args@.len() - i,
    {
        let ghost before = parts.take(i as int);
        assert(parts.take(i + 1).drop_last() == before);
        assert(parts.take(i + 1).last() == args@[i as int]@);
        if i > 0 {
            push_str(&mut m, " ");
        }
        push_str(&mut m, args[i].as_str());
        proof {
            if i == 0 {
                assert(parts.take(1).len() == 1);
            }
        }
        i += 1;
    }
    assert(parts.take(args@.len() as int) == parts);
    push_str(&mut m, " failed: ");
    let ec = chars_of(stderr);
    let (x, y) = trim_bounds(&ec, 0, ec.len());
    assert(ec@.subrange(0, ec@.len() as int) == ec@);
    let t = sub_vec(&ec, x, y);
    push_all(&mut m, &t);
    string_of(&m)
}

/// The error for a failed git run, from the bytes it printed on stderr, decoded leniently
/// by `String::from_utf8_lossy`.
pub fn run_failure_message(args: &[String], stderr: &[u8]) -> (r: String)
    ensures
        r@ == run_failure_text_spec(texts(args@), utf8_lossy(stderr@)),
{
    let err = from_utf8_lossy(stderr);
    run_failure_text(args, err.as_str())
}

/// The error when `git` could not be started.
pub fn launch_failure_message(reason: &str) -> (r: String)
    ensures
        r@ == "git not found or failed to launch: "@ + reason@,
{
    let mut m = chars_of("git not found or failed to launch: ");
    push_str(&mut m, reason);
    string_of(&m)
}


// ---------------------------------------------------------------- committing

/// Where a commit stands.
#[derive(Debug, PartialEq, Eq, Structural)]
pub enum CommitStage {
    /// Staging everything.
    Stage,
    /// Asking whether anything changed.
    Status,
    /// Committing.
    Commit,
    /// Finished.
    Done,
}

/// A commit in progress.
pub struct CommitRun {
    pub stage: CommitStage,
    pub message: String,
}

/// What a commit asks of the app.
pub enum CommitAction {
    /// Run this git operation and report what it printed, or its error.
    Run(GitOp),
    /// Stop: whether a commit was made, or the first error.
    Finish(Result<bool, String>),
}

/// A commit starts by staging everything.
pub fn commit_start(message: String) -> (r: (CommitRun, CommitAction))
    ensures
        r.0.stage == CommitStage::Stage && r.0.message == message,
        r.1 matches CommitAction::Run(op) && op is StageAll,
{
    (CommitRun { stage: CommitStage::Stage, message }, CommitAction::Run(GitOp::StageAll))
}

/// One step of a commit, given what the last git operation printed or its error. The
/// commit is made only after everything was staged and the status showed a change; when
/// it showed none, the outcome is that nothing was committed; the first error ends it.
pub fn commit_step(st: CommitRun, ran: Result<String, String>) -> (r: (CommitRun, CommitAction))
    requires
        st.stage != CommitStage::Done,
    ensures
        r.1 is Finish <==> r.0.stage == CommitStage::Done,
        r.0.message == st.message || r.0.stage == CommitStage::Done,
        ran matches Err(e) ==> r.1 matches CommitAction::Finish(Err(x)) && x == e,
        ran is Ok && st.stage == CommitStage::Stage ==> r.0.stage == CommitStage::Status && (
        r.1 matches CommitAction::Run(op) && op is Status),
        st.stage == CommitStage::Status ==> (ran matches Ok(out) ==> if trim(out@).len() == 0 {
            r.1 matches CommitAction::Finish(Ok(made)) && !made
        } else {
            r.0.stage == CommitStage::Commit && (r.1 matches CommitAction::Run(op) && op matches GitOp::Commit(
                m,
            ) && m == st.message)
        }),
        ran is Ok && st.stage == CommitStage::Commit ==> (r.1 matches CommitAction::Finish(Ok(made))
            && made),
        (r.1 matches CommitAction::Run(op) && op is Commit) ==> st.stage == CommitStage::Status,
{
    match ran {
        Err(e) => (CommitRun { stage: CommitStage::Done, ..st }, CommitAction::Finish(Err(e))),
        Ok(out) => {
            if st.stage == CommitStage::Stage {
                (CommitRun { stage: CommitStage::Status, ..st }, CommitAction::Run(GitOp::Status))
            } else if st.stage == CommitStage::Status {
                if nothing_to_commit(&out) {
                    (CommitRun { stage: CommitStage::Done, ..st }, CommitAction::Finish(Ok(false)))
                } else {
                    let m = st.message.clone();
                    (CommitRun { stage: CommitStage::Commit, ..st }, CommitAction::Run(GitOp::Commit(m)))
                }
            } else {
                (CommitRun { stage: CommitStage::Done, ..st }, CommitAction::Finish(Ok(true)))
            }
        },
    }
}

} // verus!
