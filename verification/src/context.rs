//! The workspace context the agent sends to the model: its parts, how it
//! is shrunk to fit a token budget, how the shell's status file is read,
//! how a repository status and the open panes are summarised, and where
//! per-branch files are kept.
use vstd::prelude::*;

use crate::git::{RepoStatus, statuses_view, texts_view, opt_text};
use crate::persist::{clone_opt, PaneFocus, SessionSnapshot, WorkspaceSnapshot};
use crate::text::{
    append_str, chars_of, parse_i32, parse_i32_of, replace_char, replace_char_of, seqs_of, splitn,
    splitn_of, string_of, trim, trim_of,
};

verus! {

broadcast use vstd::string::group_string_axioms;

/// The most tokens a context may take.
pub const TOKEN_LIMIT: usize = 8_000;

pub struct TerminalContext {
    pub cwd: Option<String>,
    pub last_lines: Vec<String>,
    pub last_exit_code: Option<i32>,
    pub last_command: Option<String>,
}

pub struct GitContext {
    pub repo_root: Option<String>,
    pub branch: Option<String>,
    pub upstream: Option<String>,
    pub ahead: u32,
    pub behind: u32,
    pub staged_summary: Vec<String>,
    pub unstaged_summary: Vec<String>,
    pub conflicted: Vec<String>,
}

pub struct LogSnapshot {
    pub level: String,
    pub message: String,
}

/// The latest log entries and how many entries each level has.
pub struct LogContext {
    pub last_entries: Vec<LogSnapshot>,
    pub level_distribution: Vec<(String, usize)>,
}

pub struct ActivePaneContext {
    pub tab_title: Option<String>,
    pub split_focus: Option<String>,
    pub side_pane: Option<String>,
    pub strip_mode: Option<String>,
}

pub struct PatchAnnotation {
    pub file: String,
    pub hunk_index: usize,
    pub status: String,
    pub annotation: String,
}

/// Everything the agent tells the model about the workspace.
pub struct WorkspaceContext {
    pub terminal: TerminalContext,
    pub git: GitContext,
    pub logs: LogContext,
    pub active_pane: ActivePaneContext,
    pub annotations: Vec<PatchAnnotation>,
    pub memory: Vec<String>,
}

// ─── Token budget ────────────────────────────────────────────────────

/// A rough token count: a quarter of the characters, plus one.
pub open spec fn approx_tokens_of(text: Seq<char>) -> nat {
    text.len() / 4 + 1
}

/// A rough token count of a serialised context.
pub fn approx_tokens(json: &str) -> (n: usize)
    ensures
        n == approx_tokens_of(json@),
{
    let chars = chars_of(json);
    chars.len() / 4 + 1
}

/// Whether a serialised context fits the asked budget, which is never
/// more than the overall limit.
pub fn fits_budget(json: &str, max_tokens: usize) -> (r: bool)
    ensures
        r == (approx_tokens_of(json@) <= (if max_tokens < TOKEN_LIMIT { max_tokens } else { TOKEN_LIMIT })),
{
    let budget = if max_tokens < TOKEN_LIMIT { max_tokens } else { TOKEN_LIMIT };
    approx_tokens(json) <= budget
}

/// Makes a context smaller by one step: the eight oldest terminal lines
/// go while there are more than 24; else the log entries are cut to 20;
/// else the annotations to 8; else the memory to its first summary, which
/// is the last step (the result says so). Nothing else in the context
/// changes.
pub fn shrink_context(context: &mut WorkspaceContext) -> (done: bool)
    ensures
        (
            final(context).terminal.last_lines@.len(),
            final(context).logs.last_entries@.len(),
            final(context).annotations@.len(),
            done,
        ) == shrink_lengths(
            old(context).terminal.last_lines@.len(),
            old(context).logs.last_entries@.len(),
            old(context).annotations@.len(),
        ),
        final(context).git == old(context).git,
        final(context).active_pane == old(context).active_pane,
        final(context).terminal.cwd == old(context).terminal.cwd,
        final(context).terminal.last_exit_code == old(context).terminal.last_exit_code,
        final(context).terminal.last_command == old(context).terminal.last_command,
        final(context).logs.level_distribution == old(context).logs.level_distribution,
        old(context).terminal.last_lines.len() > 24 ==> {
            &&& !done
            &&& final(context).terminal.last_lines@ == old(context).terminal.last_lines@.skip(8)
            &&& final(context).logs.last_entries@ == old(context).logs.last_entries@
            &&& final(context).annotations@ == old(context).annotations@
            &&& final(context).memory@ == old(context).memory@
        },
        old(context).terminal.last_lines.len() <= 24 && old(context).logs.last_entries.len() > 20 ==> {
            &&& !done
            &&& final(context).terminal.last_lines@ == old(context).terminal.last_lines@
            &&& final(context).logs.last_entries@ == old(context).logs.last_entries@.take(20)
            &&& final(context).annotations@ == old(context).annotations@
            &&& final(context).memory@ == old(context).memory@
        },
        old(context).terminal.last_lines.len() <= 24 && old(context).logs.last_entries.len() <= 20
            && old(context).annotations.len() > 8 ==> {
            &&& !done
            &&& final(context).terminal.last_lines@ == old(context).terminal.last_lines@
            &&& final(context).logs.last_entries@ == old(context).logs.last_entries@
            &&& final(context).annotations@ == old(context).annotations@.take(8)
            &&& final(context).memory@ == old(context).memory@
        },
        old(context).terminal.last_lines.len() <= 24 && old(context).logs.last_entries.len() <= 20
            && old(context).annotations.len() <= 8 ==> {
            &&& done
            &&& final(context).terminal.last_lines@ == old(context).terminal.last_lines@
            &&& final(context).logs.last_entries@ == old(context).logs.last_entries@
            &&& final(context).annotations@ == old(context).annotations@
            &&& final(context).memory@ == old(context).memory@.take(
                if old(context).memory@.len() < 1 { old(context).memory@.len() as int } else { 1 },
            )
        },
{
    if context.terminal.last_lines.len() > 24 {
        let tail = context.terminal.last_lines.split_off(8);
        context.terminal.last_lines = tail;
        return false;
    }
    if context.logs.last_entries.len() > 20 {
        context.logs.last_entries.truncate(20);
        return false;
    }
    if context.annotations.len() > 8 {
        context.annotations.truncate(8);
        return false;
    }
    context.memory.truncate(1);
    true
}

/// The lengths of the terminal lines, log entries and annotations after
/// one shrinking step, and whether it was the last step.
pub open spec fn shrink_lengths(lines: nat, entries: nat, annotations: nat) -> (nat, nat, nat, bool) {
    if lines > 24 {
        ((lines - 8) as nat, entries, annotations, false)
    } else if entries > 20 {
        (lines, 20, annotations, false)
    } else if annotations > 8 {
        (lines, entries, 8, false)
    } else {
        (lines, entries, annotations, true)
    }
}

/// Shrinking a context ends: every step but the last one makes the
/// terminal lines, log entries and annotations shorter in all.
pub proof fn law_shrink_progress(lines: nat, entries: nat, annotations: nat)
    ensures
        ({
            let (l, e, a, done) = shrink_lengths(lines, entries, annotations);
            done || l + e + a < lines + entries + annotations
        }),
{
}

// ─── The shell's status file ─────────────────────────────────────────

/// The exit code and command of the last command, from the shell's
/// status file: the trimmed text split in at most three tab-separated
/// fields, the second read as an `i32`, the third kept as it is.
pub open spec fn status_of(raw: Seq<char>) -> (Option<int>, Option<Seq<char>>) {
    let parts = splitn_of(trim_of(raw), 3, '\t');
    (
        if parts.len() > 1 { parse_i32_of(parts[1]) } else { None },
        if parts.len() > 2 { Some(parts[2]) } else { None },
    )
}

/// Reads the shell's status file.
pub fn read_status(raw: &str) -> (r: (Option<i32>, Option<String>))
    ensures
        (match r.0 {
            Some(c) => Some(c as int),
            None => None,
        }, opt_text(r.1)) == status_of(raw@),
{
    let t = trim(&chars_of(raw));
    let parts = splitn(&t, 3, '\t');
    let ghost pv = seqs_of(parts@);
    let status = if parts.len() > 1 {
        assert(pv[1] == parts@[1]@);
        parse_i32(&parts[1])
    } else {
        None
    };
    let command = if parts.len() > 2 {
        assert(pv[2] == parts@[2]@);
        Some(string_of(&parts[2]))
    } else {
        None
    };
    (status, command)
}

/// The terminal part of a context. Without an active session it is empty.
/// With one, it has the session's directory, the lines captured from its
/// screen, and what the session's status file says of the last command,
/// where that file could be read.
pub fn terminal_context(
    session: Option<&SessionSnapshot>,
    status_text: Option<&str>,
    captured: Vec<String>,
) -> (t: TerminalContext)
    ensures
        session is None ==> {
            &&& t.cwd is None
            &&& t.last_lines@.len() == 0
            &&& t.last_exit_code is None
            &&& t.last_command is None
        },
        session matches Some(s) ==> {
            &&& opt_text(t.cwd) == opt_text(s.cwd)
            &&& t.last_lines@ == captured@
            &&& (match t.last_exit_code {
                Some(c) => Some(c as int),
                None => None,
            }, opt_text(t.last_command)) == (match status_text {
                Some(raw) => status_of(raw@),
                None => (None, None),
            })
        },
{
    match session {
        None => TerminalContext { cwd: None, last_lines: Vec::new(), last_exit_code: None, last_command: None },
        Some(s) => {
            let (last_exit_code, last_command) = match status_text {
                Some(raw) => read_status(raw),
                None => (None, None),
            };
            TerminalContext { cwd: clone_opt(&s.cwd), last_lines: captured, last_exit_code, last_command }
        },
    }
}

// ─── Summaries ───────────────────────────────────────────────────────

/// The first `n` items of a sequence (all of them when it is shorter).
pub open spec fn first_n<T>(s: Seq<T>, n: nat) -> Seq<T> {
    if s.len() > n {
        s.take(n as int)
    } else {
        s
    }
}

pub open spec fn status_paths(s: Seq<crate::git::FileStatusView>) -> Seq<Seq<char>> {
    Seq::new(s.len(), |i: int| s[i].path)
}

fn copy_opt(o: &Option<String>) -> (c: Option<String>)
    ensures
        opt_text(c) == opt_text(*o),
{
    match o {
        Some(s) => Some(s.clone()),
        None => None,
    }
}

fn push_text(v: &mut Vec<String>, x: String)
    ensures
        texts_view(final(v)@) == texts_view(old(v)@).push(x@),
{
    let ghost xv = x@;
    v.push(x);
    assert(texts_view(v@) =~= texts_view(old(v)@).push(xv));
}

/// The repository as the agent sees it: its root and branch, the
/// upstream and how far apart they are, the first 24 staged paths, the
/// first 24 of the unstaged then untracked paths, and the conflicts.
pub fn git_context(repo_root: String, status: &RepoStatus) -> (g: GitContext)
    ensures
        opt_text(g.repo_root) == Some(repo_root@),
        opt_text(g.branch) == Some(status.branch@),
        opt_text(g.upstream) == opt_text(status.upstream),
        g.ahead == status.ahead,
        g.behind == status.behind,
        texts_view(g.staged_summary@) == first_n(status_paths(statuses_view(status.staged@)), 24),
        texts_view(g.unstaged_summary@) == first_n(
            status_paths(statuses_view(status.unstaged@)) + texts_view(status.untracked@),
            24,
        ),
        texts_view(g.conflicted@) == texts_view(status.conflicted@),
{
    let ghost staged = status_paths(statuses_view(status.staged@));
    let mut staged_summary: Vec<String> = Vec::new();
    let mut i: usize = 0;
    while i < status.staged.len() && i < 24
        invariant
            staged == status_paths(statuses_view(status.staged@)),
            i <= status.staged.len(),
            i <= 24,
            texts_view(staged_summary@) == staged.take(i as int),
        decreases status.staged.len() - i,
    {
        push_text(&mut staged_summary, status.staged[i].path.clone());
        assert(staged.take(i + 1) =~= staged.take(i as int).push(staged[i as int]));
        i += 1;
    }
    assert(first_n(staged, 24) =~= staged.take(i as int));
    let ghost unstaged = status_paths(statuses_view(status.unstaged@)) + texts_view(status.untracked@);
    let mut unstaged_summary: Vec<String> = Vec::new();
    let ghost nu = status.unstaged@.len();
    let mut j: usize = 0;
    while j < status.unstaged.len() && j < 24
        invariant
            unstaged == status_paths(statuses_view(status.unstaged@)) + texts_view(status.untracked@),
            nu == status.unstaged@.len(),
            j <= status.unstaged.len(),
            j <= 24,
            texts_view(unstaged_summary@) == unstaged.take(j as int),
        decreases status.unstaged.len() - j,
    {
        let p = status.unstaged[j].path.clone();
        assert(p@ == unstaged[j as int]);
        push_text(&mut unstaged_summary, p);
        assert(unstaged.take(j + 1) =~= unstaged.take(j as int).push(unstaged[j as int]));
        j += 1;
    }
    let mut u: usize = 0;
    while u < status.untracked.len() && j < 24
        invariant
            unstaged == status_paths(statuses_view(status.unstaged@)) + texts_view(status.untracked@),
            j <= 24,
            j < 24 ==> j == status.unstaged@.len() + u,
            j == 24 ==> j <= status.unstaged@.len() + u,
            u <= status.untracked.len(),
            j <= unstaged.len(),
            texts_view(unstaged_summary@) == unstaged.take(j as int),
        decreases status.untracked.len() - u,
    {
        let p = status.untracked[u].clone();
        assert(p@ == unstaged[j as int]);
        push_text(&mut unstaged_summary, p);
        assert(unstaged.take(j + 1) =~= unstaged.take(j as int).push(unstaged[j as int]));
        j += 1;
        u += 1;
    }
    assert(first_n(unstaged, 24) =~= unstaged.take(j as int));
    let mut conflicted: Vec<String> = Vec::new();
    let mut k: usize = 0;
    while k < status.conflicted.len()
        invariant
            k <= status.conflicted.len(),
            texts_view(conflicted@) == texts_view(status.conflicted@).take(k as int),
        decreases status.conflicted.len() - k,
    {
        push_text(&mut conflicted, status.conflicted[k].clone());
        assert(texts_view(status.conflicted@).take(k + 1) =~= texts_view(status.conflicted@).take(k as int).push(
            status.conflicted@[k as int]@,
        ));
        k += 1;
    }
    assert(texts_view(status.conflicted@).take(k as int) =~= texts_view(status.conflicted@));
    GitContext {
        repo_root: Some(repo_root),
        branch: Some(status.branch.clone()),
        upstream: copy_opt(&status.upstream),
        ahead: status.ahead,
        behind: status.behind,
        staged_summary,
        unstaged_summary,
        conflicted,
    }
}

/// The pane part of the context: the shown tab's title and which side of
/// its split has the focus, with the side pane and strip mode the
/// interface last reported.
pub fn active_pane_context(ws: &WorkspaceSnapshot, side_pane: Option<String>, strip_mode: Option<String>) -> (a: ActivePaneContext)
    ensures
        opt_text(a.tab_title) == (if ws.active_tab < ws.tabs@.len() {
            Some(ws.tabs@[ws.active_tab as int].title@)
        } else {
            None
        }),
        opt_text(a.split_focus) == (if ws.active_tab < ws.tabs@.len() {
            Some(match ws.tabs@[ws.active_tab as int].active_pane {
                PaneFocus::Left => "left"@,
                PaneFocus::Right => "right"@,
            })
        } else {
            None
        }),
        a.side_pane == side_pane,
        a.strip_mode == strip_mode,
{
    if ws.active_tab < ws.tabs.len() {
        let tab = &ws.tabs[ws.active_tab];
        let focus = match tab.active_pane {
            PaneFocus::Left => "left".to_string(),
            PaneFocus::Right => "right".to_string(),
        };
        ActivePaneContext { tab_title: Some(tab.title.clone()), split_focus: Some(focus), side_pane, strip_mode }
    } else {
        ActivePaneContext { tab_title: None, split_focus: None, side_pane, strip_mode }
    }
}

/// The hunks marked risky that carry no note yet.
pub open spec fn risky_unannotated_of(a: Seq<PatchAnnotation>) -> nat
    decreases a.len(),
{
    if a.len() == 0 {
        0
    } else {
        risky_unannotated_of(a.drop_last()) + if a.last().status@ == "Risky"@ && trim_of(a.last().annotation@).len() == 0 {
            1nat
        } else {
            0nat
        }
    }
}

/// How many hunks are marked risky and carry no note.
pub fn risky_unannotated(annotations: &Vec<PatchAnnotation>) -> (n: usize)
    ensures
        n == risky_unannotated_of(annotations@),
{
    let mut n: usize = 0;
    let mut i: usize = 0;
    while i < annotations.len()
        invariant
            i <= annotations.len(),
            n == risky_unannotated_of(annotations@.take(i as int)),
            n <= i,
        decreases annotations.len() - i,
    {
        assert(annotations@.take(i + 1).drop_last() =~= annotations@.take(i as int));
        let a = &annotations[i];
        if crate::text::eq_str(&chars_of(a.status.as_str()), "Risky") && trim(&chars_of(a.annotation.as_str())).len() == 0 {
            n += 1;
        }
        i += 1;
    }
    assert(annotations@.take(annotations@.len() as int) =~= annotations@);
    n
}

// ─── Per-branch files ────────────────────────────────────────────────

/// The file name a branch's notes are kept under: `/` written as `_`,
/// then `.json`.
pub fn branch_file_name(branch: &str) -> (s: String)
    ensures
        s@ == replace_char_of(branch@, '/', "_"@) + ".json"@,
{
    let mut out = replace_char(&chars_of(branch), '/', "_");
    append_str(&mut out, ".json");
    string_of(&out)
}

/// A branch name made safe as a file name: `/` written as `_`.
pub fn sanitize(branch: &str) -> (s: String)
    ensures
        s@ == replace_char_of(branch@, '/', "_"@),
{
    string_of(&replace_char(&chars_of(branch), '/', "_"))
}

/// The most session summaries kept per branch.
pub const MAX_SUMMARIES: usize = 24;

} // verus!
