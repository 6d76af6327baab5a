//! The git commands the git pane and the agent run, as argument lists,
//! and how a finished git process is read.
use vstd::prelude::*;

use crate::text::{append_str, chars_of, decimal_digits, push_decimal, string_of, trim, trim_of};

verus! {

broadcast use vstd::string::group_string_axioms;

/// How commits are searched.
#[derive(Clone, Copy, Debug, PartialEq, Eq, Structural)]
pub enum SearchMode {
    Message,
    Author,
    File,
}

/// A git command the workspace runs.
pub enum GitCommand {
    RepoRoot,
    Status,
    ShortHead,
    Remotes,
    DiffFile { path: String, staged: bool },
    DiffStat { commit: String },
    ShowDiff { commit: String },
    DiffUnstaged,
    DiffStaged,
    StageFile { path: String },
    UnstageFile { path: String },
    DiscardFile { path: String },
    StageAll,
    UnstageAll,
    Commit { message: String },
    Log { limit: usize, skip: usize },
    LogGraph { limit: usize },
    HeadRevision,
    LocalBranches,
    RemoteBranches,
    CheckBranchName { name: String },
    CreateBranch { name: String },
    SwitchBranch { name: String },
    DeleteBranch { name: String },
    MergeBranch { name: String },
    StashList,
    StashPush { message: Option<String> },
    StashApply { index: usize },
    StashPop { index: usize },
    StashDrop { index: usize },
    StashShow { index: usize },
    Fetch,
    Pull,
    Push,
    Blame { file: String },
    Search { query: String, mode: SearchMode },
}

/// The format of one commit in log output.
pub open spec fn log_format() -> Seq<char> {
    "--format=%H%n%h%n%an%n%ar%n%s%n%D%n---END---"@
}

/// `stash@{i}`.
pub open spec fn stash_ref_of(index: nat) -> Seq<char> {
    "stash@{"@ + decimal_digits(index) + "}"@
}

/// The arguments git is run with for a command.
pub open spec fn args_of(cmd: GitCommand) -> Seq<Seq<char>> {
    match cmd {
        GitCommand::RepoRoot => seq!["rev-parse"@, "--show-toplevel"@],
        GitCommand::Status => seq!["status"@, "--porcelain=v2"@, "--branch"@],
        GitCommand::ShortHead => seq!["rev-parse"@, "--short"@, "HEAD"@],
        GitCommand::Remotes => seq!["remote"@],
        GitCommand::DiffFile { path, staged } => if staged {
            seq!["diff"@, "--color=never"@, "-U3"@, "--cached"@, "--"@, path@]
        } else {
            seq!["diff"@, "--color=never"@, "-U3"@, "--"@, path@]
        },
        GitCommand::DiffStat { commit } => seq!["show"@, "--stat"@, "--color=never"@, "--format="@, commit@],
        GitCommand::ShowDiff { commit } => seq!["show"@, "--color=never"@, "-U3"@, "--format="@, commit@],
        GitCommand::DiffUnstaged => seq!["diff"@, "--color=never"@, "-U3"@],
        GitCommand::DiffStaged => seq!["diff"@, "--cached"@, "--color=never"@, "-U3"@],
        GitCommand::StageFile { path } => seq!["add"@, "--"@, path@],
        GitCommand::UnstageFile { path } => seq!["restore"@, "--staged"@, "--"@, path@],
        GitCommand::DiscardFile { path } => seq!["checkout"@, "--"@, path@],
        GitCommand::StageAll => seq!["add"@, "-A"@],
        GitCommand::UnstageAll => seq!["reset"@, "HEAD"@],
        GitCommand::Commit { message } => seq!["commit"@, "-m"@, message@],
        GitCommand::Log { limit, skip } => seq![
            "log"@,
            "-"@ + decimal_digits(limit as nat),
            "--skip="@ + decimal_digits(skip as nat),
            "--all"@,
            log_format(),
        ],
        GitCommand::LogGraph { limit } => seq!["log"@, "-"@ + decimal_digits(limit as nat), "--all"@, "--graph"@, log_format()],
        GitCommand::HeadRevision => seq!["rev-parse"@, "HEAD"@],
        GitCommand::LocalBranches => seq!["branch"@, "--format=%(HEAD)%(refname:short)\t%(upstream:short)\t%(subject)"@],
        GitCommand::RemoteBranches => seq!["branch"@, "-r"@, "--format=%(refname:short)\t%(subject)"@],
        GitCommand::CheckBranchName { name } => seq!["check-ref-format"@, "--branch"@, name@],
        GitCommand::CreateBranch { name } => seq!["checkout"@, "-b"@, name@],
        GitCommand::SwitchBranch { name } => seq!["checkout"@, name@],
        GitCommand::DeleteBranch { name } => seq!["branch"@, "-d"@, name@],
        GitCommand::MergeBranch { name } => seq!["merge"@, name@],
        GitCommand::StashList => seq!["stash"@, "list"@, "--format=%gd\t%gs"@],
        GitCommand::StashPush { message } => match message {
            Some(m) => seq!["stash"@, "push"@, "-m"@, m@],
            None => seq!["stash"@, "push"@],
        },
        GitCommand::StashApply { index } => seq!["stash"@, "apply"@, stash_ref_of(index as nat)],
        GitCommand::StashPop { index } => seq!["stash"@, "pop"@, stash_ref_of(index as nat)],
        GitCommand::StashDrop { index } => seq!["stash"@, "drop"@, stash_ref_of(index as nat)],
        GitCommand::StashShow { index } => seq!["stash"@, "show"@, "-p"@, "--color=never"@, stash_ref_of(index as nat)],
        GitCommand::Fetch => seq!["fetch"@, "--all"@, "--prune"@],
        GitCommand::Pull => seq!["pull"@],
        GitCommand::Push => seq!["push"@],
        GitCommand::Blame { file } => seq!["blame"@, "--porcelain"@, file@],
        GitCommand::Search { query, mode } => match mode {
            SearchMode::Message => seq!["log"@, "-50"@, "--all"@, log_format(), "--grep="@ + query@, "-i"@],
            SearchMode::Author => seq!["log"@, "-50"@, "--all"@, log_format(), "--author="@ + query@, "-i"@],
            SearchMode::File => seq!["log"@, "-50"@, "--all"@, log_format(), "--"@, query@],
        },
    }
}

pub open spec fn strings_view(v: Seq<String>) -> Seq<Seq<char>> {
    Seq::new(v.len(), |i: int| v[i]@)
}

fn push_arg(v: &mut Vec<String>, a: &str)
    ensures
        strings_view(final(v)@) == strings_view(old(v)@).push(a@),
{
    let s = a.to_string();
    let ghost sv = s@;
    v.push(s);
    assert(strings_view(v@) =~= strings_view(old(v)@).push(sv));
}

fn push_owned(v: &mut Vec<String>, s: String)
    ensures
        strings_view(final(v)@) == strings_view(old(v)@).push(s@),
{
    let ghost sv = s@;
    v.push(s);
    assert(strings_view(v@) =~= strings_view(old(v)@).push(sv));
}

fn prefixed_number(prefix: &str, n: usize) -> (s: String)
    ensures
        s@ == prefix@ + decimal_digits(n as nat),
{
    let mut out = chars_of(prefix);
    push_decimal(&mut out, n as u64);
    string_of(&out)
}

/// `stash@{i}`.
pub fn stash_ref(index: usize) -> (s: String)
    ensures
        s@ == stash_ref_of(index as nat),
{
    let mut out = chars_of("stash@{");
    push_decimal(&mut out, index as u64);
    append_str(&mut out, "}");
    string_of(&out)
}

fn prefixed(prefix: &str, text: &str) -> (s: String)
    ensures
        s@ == prefix@ + text@,
{
    let mut out = chars_of(prefix);
    append_str(&mut out, text);
    string_of(&out)
}

impl GitCommand {
    /// The arguments git is run with.
    pub fn args(&self) -> (v: Vec<String>)
        ensures
            strings_view(v@) == args_of(*self),
    {
        match self {
            GitCommand::RepoRoot => {
                let mut v: Vec<String> = Vec::new();
                push_arg(&mut v, "rev-parse");
                push_arg(&mut v, "--show-toplevel");
                assert(strings_view(v@) =~= args_of(*self));
                v
            },
            GitCommand::Status => {
                let mut v: Vec<String> = Vec::new();
                push_arg(&mut v, "status");
                push_arg(&mut v, "--porcelain=v2");
                push_arg(&mut v, "--branch");
                assert(strings_view(v@) =~= args_of(*self));
                v
            },
            GitCommand::ShortHead => {
                let mut v: Vec<String> = Vec::new();
                push_arg(&mut v, "rev-parse");
                push_arg(&mut v, "--short");
                push_arg(&mut v, "HEAD");
                assert(strings_view(v@) =~= args_of(*self));
                v
            },
            GitCommand::Remotes => {
                let mut v: Vec<String> = Vec::new();
                push_arg(&mut v, "remote");
                assert(strings_view(v@) =~= args_of(*self));
                v
            },
            GitCommand::DiffFile { path, staged } => {
                let mut v: Vec<String> = Vec::new();
                push_arg(&mut v, "diff");
                push_arg(&mut v, "--color=never");
                push_arg(&mut v, "-U3");
                if *staged {
                    push_arg(&mut v, "--cached");
                }
                push_arg(&mut v, "--");
                push_owned(&mut v, path.clone());
                assert(strings_view(v@) =~= args_of(*self));
                v
            },
            GitCommand::DiffStat { commit } => {
                let mut v: Vec<String> = Vec::new();
                push_arg(&mut v, "show");
                push_arg(&mut v, "--stat");
                push_arg(&mut v, "--color=never");
                push_arg(&mut v, "--format=");
                push_owned(&mut v, commit.clone());
                assert(strings_view(v@) =~= args_of(*self));
                v
            },
            GitCommand::ShowDiff { commit } => {
                let mut v: Vec<String> = Vec::new();
                push_arg(&mut v, "show");
                push_arg(&mut v, "--color=never");
                push_arg(&mut v, "-U3");
                push_arg(&mut v, "--format=");
                push_owned(&mut v, commit.clone());
                assert(strings_view(v@) =~= args_of(*self));
                v
            },
            GitCommand::DiffUnstaged => {
                let mut v: Vec<String> = Vec::new();
                push_arg(&mut v, "diff");
                push_arg(&mut v, "--color=never");
                push_arg(&mut v, "-U3");
                assert(strings_view(v@) =~= args_of(*self));
                v
            },
            GitCommand::DiffStaged => {
                let mut v: Vec<String> = Vec::new();
                push_arg(&mut v, "diff");
                push_arg(&mut v, "--cached");
                push_arg(&mut v, "--color=never");
                push_arg(&mut v, "-U3");
                assert(strings_view(v@) =~= args_of(*self));
                v
            },
            GitCommand::StageFile { path } => {
                let mut v: Vec<String> = Vec::new();
                push_arg(&mut v, "add");
                push_arg(&mut v, "--");
                push_owned(&mut v, path.clone());
                assert(strings_view(v@) =~= args_of(*self));
                v
            },
            GitCommand::UnstageFile { path } => {
                let mut v: Vec<String> = Vec::new();
                push_arg(&mut v, "restore");
                push_arg(&mut v, "--staged");
                push_arg(&mut v, "--");
                push_owned(&mut v, path.clone());
                assert(strings_view(v@) =~= args_of(*self));
                v
            },
            GitCommand::DiscardFile { path } => {
                let mut v: Vec<String> = Vec::new();
                push_arg(&mut v, "checkout");
                push_arg(&mut v, "--");
                push_owned(&mut v, path.clone());
                assert(strings_view(v@) =~= args_of(*self));
                v
            },
            GitCommand::StageAll => {
                let mut v: Vec<String> = Vec::new();
                push_arg(&mut v, "add");
                push_arg(&mut v, "-A");
                assert(strings_view(v@) =~= args_of(*self));
                v
            },
            GitCommand::UnstageAll => {
                let mut v: Vec<String> = Vec::new();
                push_arg(&mut v, "reset");
                push_arg(&mut v, "HEAD");
                assert(strings_view(v@) =~= args_of(*self));
                v
            },
            GitCommand::Commit { message } => {
                let mut v: Vec<String> = Vec::new();
                push_arg(&mut v, "commit");
                push_arg(&mut v, "-m");
                push_owned(&mut v, message.clone());
                assert(strings_view(v@) =~= args_of(*self));
                v
            },
            GitCommand::Log { limit, skip } => {
                let mut v: Vec<String> = Vec::new();
                push_arg(&mut v, "log");
                push_owned(&mut v, prefixed_number("-", *limit));
                push_owned(&mut v, prefixed_number("--skip=", *skip));
                push_arg(&mut v, "--all");
                push_arg(&mut v, "--format=%H%n%h%n%an%n%ar%n%s%n%D%n---END---");
                assert(strings_view(v@) =~= args_of(*self));
                v
            },
            GitCommand::LogGraph { limit } => {
                let mut v: Vec<String> = Vec::new();
                push_arg(&mut v, "log");
                push_owned(&mut v, prefixed_number("-", *limit));
                push_arg(&mut v, "--all");
                push_arg(&mut v, "--graph");
                push_arg(&mut v, "--format=%H%n%h%n%an%n%ar%n%s%n%D%n---END---");
                assert(strings_view(v@) =~= args_of(*self));
                v
            },
            GitCommand::HeadRevision => {
                let mut v: Vec<String> = Vec::new();
                push_arg(&mut v, "rev-parse");
                push_arg(&mut v, "HEAD");
                assert(strings_view(v@) =~= args_of(*self));
                v
            },
            GitCommand::LocalBranches => {
                let mut v: Vec<String> = Vec::new();
                push_arg(&mut v, "branch");
                push_arg(&mut v, "--format=%(HEAD)%(refname:short)\t%(upstream:short)\t%(subject)");
                assert(strings_view(v@) =~= args_of(*self));
                v
            },
            GitCommand::RemoteBranches => {
                let mut v: Vec<String> = Vec::new();
                push_arg(&mut v, "branch");
                push_arg(&mut v, "-r");
                push_arg(&mut v, "--format=%(refname:short)\t%(subject)");
                assert(strings_view(v@) =~= args_of(*self));
                v
            },
            GitCommand::CheckBranchName { name } => {
                let mut v: Vec<String> = Vec::new();
                push_arg(&mut v, "check-ref-format");
                push_arg(&mut v, "--branch");
                push_owned(&mut v, name.clone());
                assert(strings_view(v@) =~= args_of(*self));
                v
            },
            GitCommand::CreateBranch { name } => {
                let mut v: Vec<String> = Vec::new();
                push_arg(&mut v, "checkout");
                push_arg(&mut v, "-b");
                push_owned(&mut v, name.clone());
                assert(strings_view(v@) =~= args_of(*self));
                v
            },
            GitCommand::SwitchBranch { name } => {
                let mut v: Vec<String> = Vec::new();
                push_arg(&mut v, "checkout");
                push_owned(&mut v, name.clone());
                assert(strings_view(v@) =~= args_of(*self));
                v
            },
            GitCommand::DeleteBranch { name } => {
                let mut v: Vec<String> = Vec::new();
                push_arg(&mut v, "branch");
                push_arg(&mut v, "-d");
                push_owned(&mut v, name.clone());
                assert(strings_view(v@) =~= args_of(*self));
                v
            },
            GitCommand::MergeBranch { name } => {
                let mut v: Vec<String> = Vec::new();
                push_arg(&mut v, "merge");
                push_owned(&mut v, name.clone());
                assert(strings_view(v@) =~= args_of(*self));
                v
            },
            GitCommand::StashList => {
                let mut v: Vec<String> = Vec::new();
                push_arg(&mut v, "stash");
                push_arg(&mut v, "list");
                push_arg(&mut v, "--format=%gd\t%gs");
                assert(strings_view(v@) =~= args_of(*self));
                v
            },
            GitCommand::StashPush { message } => {
                let mut v: Vec<String> = Vec::new();
                push_arg(&mut v, "stash");
                push_arg(&mut v, "push");
                match message {
                    Some(m) => {
                        push_arg(&mut v, "-m");
                        push_owned(&mut v, m.clone());
                    },
                    None => {},
                }
                assert(strings_view(v@) =~= args_of(*self));
                v
            },
            GitCommand::StashApply { index } => {
                let mut v: Vec<String> = Vec::new();
                push_arg(&mut v, "stash");
                push_arg(&mut v, "apply");
                push_owned(&mut v, stash_ref(*index));
                assert(strings_view(v@) =~= args_of(*self));
                v
            },
            GitCommand::StashPop { index } => {
                let mut v: Vec<String> = Vec::new();
                push_arg(&mut v, "stash");
                push_arg(&mut v, "pop");
                push_owned(&mut v, stash_ref(*index));
                assert(strings_view(v@) =~= args_of(*self));
                v
            },
            GitCommand::StashDrop { index } => {
                let mut v: Vec<String> = Vec::new();
                push_arg(&mut v, "stash");
                push_arg(&mut v, "drop");
                push_owned(&mut v, stash_ref(*index));
                assert(strings_view(v@) =~= args_of(*self));
                v
            },
            GitCommand::StashShow { index } => {
                let mut v: Vec<String> = Vec::new();
                push_arg(&mut v, "stash");
                push_arg(&mut v, "show");
                push_arg(&mut v, "-p");
                push_arg(&mut v, "--color=never");
                push_owned(&mut v, stash_ref(*index));
                assert(strings_view(v@) =~= args_of(*self));
                v
            },
            GitCommand::Fetch => {
                let mut v: Vec<String> = Vec::new();
                push_arg(&mut v, "fetch");
                push_arg(&mut v, "--all");
                push_arg(&mut v, "--prune");
                assert(strings_view(v@) =~= args_of(*self));
                v
            },
            GitCommand::Pull => {
                let mut v: Vec<String> = Vec::new();
                push_arg(&mut v, "pull");
                assert(strings_view(v@) =~= args_of(*self));
                v
            },
            GitCommand::Push => {
                let mut v: Vec<String> = Vec::new();
                push_arg(&mut v, "push");
                assert(strings_view(v@) =~= args_of(*self));
                v
            },
            GitCommand::Blame { file } => {
                let mut v: Vec<String> = Vec::new();
                push_arg(&mut v, "blame");
                push_arg(&mut v, "--porcelain");
                push_owned(&mut v, file.clone());
                assert(strings_view(v@) =~= args_of(*self));
                v
            },
            GitCommand::Search { query, mode } => {
                let mut v: Vec<String> = Vec::new();
                push_arg(&mut v, "log");
                push_arg(&mut v, "-50");
                push_arg(&mut v, "--all");
                push_arg(&mut v, "--format=%H%n%h%n%an%n%ar%n%s%n%D%n---END---");
                match mode {
                    SearchMode::Message => {
                        push_owned(&mut v, prefixed("--grep=", query.as_str()));
                        push_arg(&mut v, "-i");
                    },
                    SearchMode::Author => {
                        push_owned(&mut v, prefixed("--author=", query.as_str()));
                        push_arg(&mut v, "-i");
                    },
                    SearchMode::File => {
                        push_arg(&mut v, "--");
                        push_owned(&mut v, query.clone());
                    },
                }
                assert(strings_view(v@) =~= args_of(*self));
                v
            },
        }
    }
}

/// What a finished git process gave: its output on success; otherwise
/// its trimmed error output, or `git exited with <status>` when that is
/// empty.
pub open spec fn git_result_of(success: bool, stdout: Seq<char>, stderr: Seq<char>, status: Seq<char>) -> Result<Seq<char>, Seq<char>> {
    if success {
        Ok(stdout)
    } else if trim_of(stderr).len() == 0 {
        Err("git exited with "@ + status)
    } else {
        Err(trim_of(stderr))
    }
}

/// Reads a finished git process (`status` is how its exit status is
/// shown).
pub fn git_result(success: bool, stdout: String, stderr: &str, status: &str) -> (r: Result<String, String>)
    ensures
        match r {
            Ok(o) => git_result_of(success, stdout@, stderr@, status@) == Ok::<Seq<char>, Seq<char>>(o@),
            Err(e) => git_result_of(success, stdout@, stderr@, status@) == Err::<Seq<char>, Seq<char>>(e@),
        },
{
    if success {
        return Ok(stdout);
    }
    let msg = trim(&chars_of(stderr));
    if msg.len() == 0 {
        Err(prefixed("git exited with ", status))
    } else {
        Err(string_of(&msg))
    }
}

/// Whether `git remote` listed any remote.
pub fn lists_remote(output: &str) -> (r: bool)
    ensures
        r == (trim_of(output@).len() > 0),
{
    trim(&chars_of(output)).len() > 0
}

} // verus!
