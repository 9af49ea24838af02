use vstd::prelude::*;
use vstd::string::StringExecFns;
use crate::cdp::{utf8_lossy, utf8_lossy_of};
use crate::text::{
    chars_of, usize_dec_string, spec_dec, spec_join, spec_trim, string_from_chars, string_views,
    join_strings, trim_chars,
};

verus! {

/// The arguments of `git_status` (none).
pub struct GitStatusToolInput {}

/// The arguments of `git_commit`: the message and the files to stage
/// (`.` when none are given).
pub struct GitCommitToolInput {
    pub message: String,
    pub files: Vec<String>,
}

/// The arguments of `git_push`.
pub struct GitPushToolInput {
    pub remote: String,
    pub branch: Option<String>,
    pub force: bool,
    pub set_upstream: bool,
}

/// The arguments of `git_branch`.
pub struct GitBranchToolInput {
    pub name: Option<String>,
    pub base: Option<String>,
    pub switch: bool,
    pub delete: bool,
    pub delete_force: bool,
}

/// The arguments of `git_log`.
pub struct GitLogToolInput {
    pub limit: usize,
    pub path: Option<String>,
}

/// A git invocation: its arguments, and what a failure is reported as.
pub struct GitCommand {
    pub args: Vec<String>,
    pub failure: String,
}

/// The remote pushed to when none is named.
pub fn default_remote() -> (r: String)
    ensures
        r@ == "origin"@,
{
    String::from_str("origin")
}

/// The number of commits shown when no limit is given.
pub fn default_log_limit() -> (r: usize)
    ensures
        r == 10,
{
    10
}

/// A string list from literals.
fn strings(parts: &[&str]) -> (r: Vec<String>)
    ensures
        r@.len() == parts@.len(),
        forall|i: int| 0 <= i < parts@.len() ==> #[trigger] r@[i]@ == parts@[i]@,
{
    let mut r: Vec<String> = Vec::new();
    let mut i: usize = 0;
    while i < parts.len()
        invariant
            i <= parts@.len(),
            r@.len() == i,
            forall|j: int| 0 <= j < i ==> #[trigger] r@[j]@ == parts@[j]@,
        decreases parts@.len() - i,
    {
        r.push(String::from_str(parts[i]));
        i = i + 1;
    }
    r
}

/// The title shown while a commit runs.
pub open spec fn spec_commit_title(message: Option<Seq<char>>) -> Seq<char> {
    match message {
        Some(m) => "Git Commit: "@ + m,
        None => "Git Commit"@,
    }
}

/// The title shown while a commit runs: with its message when the arguments
/// could be read.
pub fn commit_title(input: Option<&GitCommitToolInput>) -> (r: String)
    ensures
        r@ == spec_commit_title(
            match input {
                Some(i) => Some(i.message@),
                None => None,
            },
        ),
{
    match input {
        Some(i) => {
            let mut t = String::from_str("Git Commit: ");
            t.append(i.message.as_str());
            t
        },
        None => String::from_str("Git Commit"),
    }
}

/// The arguments that stage the files of a commit.
pub open spec fn spec_stage_args(files: Seq<Seq<char>>) -> Seq<Seq<char>> {
    seq!["add"@, "--"@] + if files.len() == 0 { seq!["."@] } else { files }
}

/// The command that stages the files of a commit.
pub fn stage_command(input: &GitCommitToolInput) -> (r: GitCommand)
    ensures
        string_views(r.args@) == spec_stage_args(string_views(input.files@)),
        r.failure@ == "stage failed"@,
{
    let mut args = strings(&["add", "--"]);
    if input.files.len() == 0 {
        args.push(String::from_str("."));
    } else {
        let mut i: usize = 0;
        while i < input.files.len()
            invariant
                i <= input.files@.len(),
                string_views(args@) == seq!["add"@, "--"@] + string_views(input.files@).take(i as int),
            decreases input.files@.len() - i,
        {
            let ghost before = args@;
            args.push(input.files[i].clone());
            proof {
                assert(string_views(args@) =~= string_views(before).push(input.files@[i as int]@));
                assert(string_views(input.files@).take(i + 1) =~= string_views(input.files@).take(
                    i as int,
                ).push(input.files@[i as int]@));
            }
            i = i + 1;
            proof {
                assert(string_views(args@) =~= seq!["add"@, "--"@] + string_views(input.files@).take(
                    i as int,
                ));
            }
        }
        proof {
            assert(string_views(input.files@).take(input.files@.len() as int) =~= string_views(
                input.files@,
            ));
        }
    }
    proof {
        assert(string_views(args@) =~= spec_stage_args(string_views(input.files@)));
    }
    GitCommand { args, failure: String::from_str("stage failed") }
}

/// The command that records a commit with its message.
pub fn commit_command(input: &GitCommitToolInput) -> (r: GitCommand)
    ensures
        string_views(r.args@) == seq!["commit"@, "-m"@, input.message@],
        r.failure@ == "commit failed"@,
{
    let mut args = strings(&["commit", "-m"]);
    args.push(input.message.clone());
    proof {
        assert(string_views(args@) =~= seq!["commit"@, "-m"@, input.message@]);
    }
    GitCommand { args, failure: String::from_str("commit failed") }
}

/// The arguments of a push.
pub open spec fn spec_push_args(
    remote: Seq<char>,
    branch: Option<Seq<char>>,
    force: bool,
    set_upstream: bool,
) -> Seq<Seq<char>> {
    seq!["push"@, remote] + (if force { seq!["--force-with-lease"@] } else { seq![] }) + (
    if set_upstream {
        seq!["-u"@]
    } else {
        seq![]
    }) + match branch {
        Some(b) => seq![b],
        None => seq![],
    }
}

/// The command that pushes to the remote.
pub fn push_command(input: &GitPushToolInput) -> (r: GitCommand)
    ensures
        string_views(r.args@) == spec_push_args(
            input.remote@,
            match input.branch {
                Some(b) => Some(b@),
                None => None,
            },
            input.force,
            input.set_upstream,
        ),
        r.failure@ == "push failed"@,
{
    let mut args = strings(&["push"]);
    args.push(input.remote.clone());
    if input.force {
        args.push(String::from_str("--force-with-lease"));
    }
    if input.set_upstream {
        args.push(String::from_str("-u"));
    }
    match &input.branch {
        Some(b) => {
            args.push(b.clone());
        },
        None => {},
    }
    proof {
        assert(string_views(args@) =~= spec_push_args(
            input.remote@,
            match input.branch {
                Some(b) => Some(b@),
                None => None,
            },
            input.force,
            input.set_upstream,
        ));
    }
    GitCommand { args, failure: String::from_str("push failed") }
}

/// What `git_branch` runs: the branch list without a name; else, by the
/// first flag set among delete, force delete and switch, that action; else
/// the creation of the branch, from `base` when given.
pub open spec fn spec_branch_command(
    name: Option<Seq<char>>,
    base: Option<Seq<char>>,
    switch: bool,
    delete: bool,
    delete_force: bool,
) -> (Seq<Seq<char>>, Seq<char>) {
    match name {
        None => (seq!["branch"@, "--list"@, "-a"@], "list branches failed"@),
        Some(n) => if delete {
            (seq!["branch"@, "--delete"@, n], "delete branch failed"@)
        } else if delete_force {
            (seq!["branch"@, "--delete"@, "--force"@, n], "force delete branch failed"@)
        } else if switch {
            (seq!["checkout"@, n], "switch branch failed"@)
        } else {
            (seq!["checkout"@, "-b"@, n] + match base {
                Some(b) => seq![b],
                None => seq![],
            }, "create branch failed"@)
        },
    }
}

/// The command that lists, creates, switches to or deletes a branch.
pub fn branch_command(input: &GitBranchToolInput) -> (r: GitCommand)
    ensures
        (string_views(r.args@), r.failure@) == spec_branch_command(
            match input.name {
                Some(n) => Some(n@),
                None => None,
            },
            match input.base {
                Some(b) => Some(b@),
                None => None,
            },
            input.switch,
            input.delete,
            input.delete_force,
        ),
{
    let name = match &input.name {
        Some(n) => n,
        None => {
            let args = strings(&["branch", "--list", "-a"]);
            proof {
                assert(string_views(args@) =~= seq!["branch"@, "--list"@, "-a"@]);
            }
            return GitCommand { args, failure: String::from_str("list branches failed") };
        },
    };
    if input.delete {
        let mut args = strings(&["branch", "--delete"]);
        args.push(name.clone());
        proof {
            assert(string_views(args@) =~= seq!["branch"@, "--delete"@, name@]);
        }
        return GitCommand { args, failure: String::from_str("delete branch failed") };
    }
    if input.delete_force {
        let mut args = strings(&["branch", "--delete", "--force"]);
        args.push(name.clone());
        proof {
            assert(string_views(args@) =~= seq!["branch"@, "--delete"@, "--force"@, name@]);
        }
        return GitCommand { args, failure: String::from_str("force delete branch failed") };
    }
    if input.switch {
        let mut args = strings(&["checkout"]);
        args.push(name.clone());
        proof {
            assert(string_views(args@) =~= seq!["checkout"@, name@]);
        }
        return GitCommand { args, failure: String::from_str("switch branch failed") };
    }
    let mut args = strings(&["checkout", "-b"]);
    args.push(name.clone());
    match &input.base {
        Some(b) => {
            args.push(b.clone());
        },
        None => {},
    }
    proof {
        assert(string_views(args@) =~= seq!["checkout"@, "-b"@, name@] + match input.base {
            Some(b) => seq![b@],
            None => seq![],
        });
    }
    GitCommand { args, failure: String::from_str("create branch failed") }
}

/// The arguments of the history listing.
pub open spec fn spec_log_args(limit: nat, path: Option<Seq<char>>) -> Seq<Seq<char>> {
    seq!["log"@, "--max-count="@ + spec_dec(limit), "--oneline"@, "--decorate"@] + match path {
        Some(p) => seq!["--"@, p],
        None => seq![],
    }
}

/// The command that lists recent commits, for one path when given.
pub fn log_command(input: &GitLogToolInput) -> (r: GitCommand)
    ensures
        string_views(r.args@) == spec_log_args(
            input.limit as nat,
            match input.path {
                Some(p) => Some(p@),
                None => None,
            },
        ),
        r.failure@ == "log failed"@,
{
    let mut limit = String::from_str("--max-count=");
    let digits = usize_dec_string(input.limit);
    limit.append(digits.as_str());
    let mut args = strings(&["log"]);
    args.push(limit);
    args.push(String::from_str("--oneline"));
    args.push(String::from_str("--decorate"));
    match &input.path {
        Some(p) => {
            args.push(String::from_str("--"));
            args.push(p.clone());
        },
        None => {},
    }
    proof {
        assert(string_views(args@) =~= spec_log_args(
            input.limit as nat,
            match input.path {
                Some(p) => Some(p@),
                None => None,
            },
        ));
    }
    GitCommand { args, failure: String::from_str("log failed") }
}

/// What a git run gives: the trimmed output on success, else a message with
/// the command line and the trimmed error output (both read as
/// `String::from_utf8_lossy` decodes them).
pub open spec fn spec_git_outcome(
    args: Seq<Seq<char>>,
    success: bool,
    stdout: Seq<u8>,
    stderr: Seq<u8>,
) -> Result<Seq<char>, Seq<char>> {
    if success {
        Ok(spec_trim(utf8_lossy_of(stdout)))
    } else {
        Err("git "@ + spec_join(args, " "@) + " failed: "@ + spec_trim(utf8_lossy_of(stderr)))
    }
}

/// The result of a finished git run.
pub fn git_outcome(args: &Vec<String>, success: bool, stdout: &[u8], stderr: &[u8]) -> (r: Result<
    String,
    String,
>)
    ensures
        match r {
            Ok(o) => spec_git_outcome(string_views(args@), success, stdout@, stderr@) == Ok::<
                Seq<char>,
                Seq<char>,
            >(o@),
            Err(e) => spec_git_outcome(string_views(args@), success, stdout@, stderr@) == Err::<
                Seq<char>,
                Seq<char>,
            >(e@),
        },
{
    if success {
        let out = utf8_lossy(stdout);
        let chars = chars_of(out.as_str());
        Ok(string_from_chars(&trim_chars(&chars)))
    } else {
        let err = utf8_lossy(stderr);
        let chars = chars_of(err.as_str());
        let trimmed = string_from_chars(&trim_chars(&chars));
        let mut m = String::from_str("git ");
        let joined = join_strings(args, " ");
        m.append(joined.as_str());
        m.append(" failed: ");
        m.append(trimmed.as_str());
        Err(m)
    }
}

/// A failure as the tool reports it: `prefix: error`.
pub fn failure_message(prefix: &str, error: &str) -> (r: String)
    ensures
        r@ == prefix@ + ": "@ + error@,
{
    let mut m = String::from_str(prefix);
    m.append(": ");
    m.append(error);
    m
}

/// What `git_status` reports from its two runs: both outputs when both
/// worked, else the one that did, else the first error.
pub open spec fn spec_status_report(
    short: Result<Seq<char>, Seq<char>>,
    full: Result<Seq<char>, Seq<char>>,
) -> Result<Seq<char>, Seq<char>> {
    match (short, full) {
        (Ok(s), Ok(d)) => Ok(s + "\n\n"@ + d),
        (Ok(s), Err(_)) => Ok(s),
        (Err(_), Ok(d)) => Ok(d),
        (Err(e), Err(_)) => Err(e),
    }
}

/// The plain form of a run's result.
pub open spec fn result_view(r: Result<String, String>) -> Result<Seq<char>, Seq<char>> {
    match r {
        Ok(s) => Ok(s@),
        Err(e) => Err(e@),
    }
}

/// Combines the short and the full status.
pub fn status_report(short: Result<String, String>, full: Result<String, String>) -> (r: Result<
    String,
    String,
>)
    ensures
        result_view(r) == spec_status_report(result_view(short), result_view(full)),
{
    match (short, full) {
        (Ok(s), Ok(d)) => {
            let mut t = s;
            t.append("\n\n");
            t.append(d.as_str());
            Ok(t)
        },
        (Ok(s), Err(_)) => Ok(s),
        (Err(_), Ok(d)) => Ok(d),
        (Err(e), Err(_)) => Err(e),
    }
}


/// Switching to a branch never creates one: with a name and neither delete
/// flag, `switch` runs exactly `git checkout <name>`, two words, no `-b`;
/// without `switch` the branch is created with `git checkout -b <name>`,
/// followed by the base when one is given. Deleting comes first: `delete`
/// runs `git branch --delete <name>` and otherwise `delete_force` runs
/// `git branch --delete --force <name>`, whatever `switch` says. Without a
/// name every branch is listed. Only creation passes `-b`.
pub proof fn lemma_branch_actions(
    n: Seq<char>,
    base: Option<Seq<char>>,
    switch: bool,
    delete: bool,
    delete_force: bool,
)
    ensures
        spec_branch_command(None, base, switch, delete, delete_force).0 == seq!["branch"@, "--list"@, "-a"@],
        ({
            let args = spec_branch_command(Some(n), base, switch, delete, delete_force).0;
            &&& delete ==> args == seq!["branch"@, "--delete"@, n]
            &&& (!delete && delete_force) ==> args == seq!["branch"@, "--delete"@, "--force"@, n]
            &&& (!delete && !delete_force && switch) ==> args.len() == 2 && args[0] == "checkout"@
                && args[1] == n
            &&& (!delete && !delete_force && !switch) ==> args.len() == 3 + (if base is Some {
                1int
            } else {
                0int
            }) && args[0] == "checkout"@ && args[1] == "-b"@ && args[2] == n && (base matches Some(b)
                ==> args[3] == b)
        }),
{
}


/// Staging always passes `--` before the paths, so no path is read as an
/// option: with no files it stages everything (`git add -- .`), otherwise
/// exactly the given files, in order, and nothing else.
pub proof fn lemma_stage_args(files: Seq<Seq<char>>)
    ensures
        files.len() == 0 ==> spec_stage_args(files) == seq!["add"@, "--"@, "."@],
        files.len() > 0 ==> spec_stage_args(files).len() == files.len() + 2 && spec_stage_args(files)[0]
            == "add"@ && spec_stage_args(files)[1] == "--"@ && spec_stage_args(files).skip(2) == files,
{
    assert((seq!["add"@, "--"@] + files).skip(2) =~= files);
}

/// A push goes to the named remote; it forces only with
/// `--force-with-lease` (never a bare `--force`) and exactly when asked,
/// sets the upstream with `-u` exactly when asked, and names the branch
/// last when one is given.
pub proof fn lemma_push_args(remote: Seq<char>, branch: Option<Seq<char>>, force: bool, set_upstream: bool)
    ensures
        ({
            let a = spec_push_args(remote, branch, force, set_upstream);
            let f: int = if force { 1 } else { 0 };
            let u: int = if set_upstream { 1 } else { 0 };
            &&& a.len() == 2 + f + u + (if branch is Some { 1int } else { 0int })
            &&& a[0] == "push"@ && a[1] == remote
            &&& force ==> a[2] == "--force-with-lease"@
            &&& set_upstream ==> a[2 + f] == "-u"@
            &&& branch matches Some(b) ==> a.last() == b
        }),
{
}

/// The history shows at most `limit` commits, one line each with their
/// refs, and is restricted to one path (after `--`) when a path is given.
pub proof fn lemma_log_args(limit: nat, path: Option<Seq<char>>)
    ensures
        spec_log_args(limit, path).take(4) == seq![
            "log"@,
            "--max-count="@ + spec_dec(limit),
            "--oneline"@,
            "--decorate"@,
        ],
        path is None ==> spec_log_args(limit, path).len() == 4,
        path matches Some(p) ==> spec_log_args(limit, path).len() == 6 && spec_log_args(limit, path)[4] == "--"@
            && spec_log_args(limit, path)[5] == p,
{
    assert(spec_log_args(limit, path).take(4) =~= seq![
        "log"@,
        "--max-count="@ + spec_dec(limit),
        "--oneline"@,
        "--decorate"@,
    ]);
}

/// The status tool fails only when both git runs fail, and then with the
/// short run's error; when both work it shows the short status first, a
/// blank line, then the full one; when one works it shows that one.
pub proof fn lemma_status_report(short: Result<Seq<char>, Seq<char>>, full: Result<Seq<char>, Seq<char>>)
    ensures
        spec_status_report(short, full) is Err <==> (short is Err && full is Err),
        short matches Err(e) ==> (full is Err ==> spec_status_report(short, full) == Err::<Seq<char>, Seq<char>>(e)),
        short matches Ok(s) ==> (full matches Ok(d) ==> spec_status_report(short, full) == Ok::<
            Seq<char>,
            Seq<char>,
        >(s + "\n\n"@ + d)),
        short matches Ok(s) ==> (full is Err ==> spec_status_report(short, full) == Ok::<Seq<char>, Seq<char>>(s)),
        full matches Ok(d) ==> (short is Err ==> spec_status_report(short, full) == Ok::<Seq<char>, Seq<char>>(d)),
{
}

/// A git run that succeeded gives its trimmed output; one that failed gives
/// an error that names the command line (`git` and the arguments, spaced)
/// and then the trimmed error output.
pub proof fn lemma_git_outcome(args: Seq<Seq<char>>, success: bool, stdout: Seq<u8>, stderr: Seq<u8>)
    ensures
        success ==> spec_git_outcome(args, success, stdout, stderr) == Ok::<Seq<char>, Seq<char>>(
            spec_trim(utf8_lossy_of(stdout)),
        ),
        !success ==> spec_git_outcome(args, success, stdout, stderr) == Err::<Seq<char>, Seq<char>>(
            "git "@ + spec_join(args, " "@) + " failed: "@ + spec_trim(utf8_lossy_of(stderr)),
        ),
{
}


/// While a commit runs its title shows the commit message after
/// "Git Commit: ", or just "Git Commit" when the arguments could not be
/// read; a commit records exactly the given message.
pub proof fn lemma_commit_title(message: Seq<char>)
    ensures
        spec_commit_title(Some(message)) == "Git Commit: "@ + message,
        spec_commit_title(None) == "Git Commit"@,
{
}

} // verus!
