use magma::git::{
    collect_file_hunks, parse_blame_output, parse_change, parse_diff, parse_diff_text, parse_graph_output,
    parse_local_branches, parse_log_output, parse_remote_branches, parse_stash_list, parse_status, DiffHunk,
    DiffLineKind, FileChange,
};

const TWO_FILE_DIFF: &str = "diff --git a/src/a.rs b/src/a.rs\nindex 111..222 100644\n--- a/src/a.rs\n+++ b/src/a.rs\n@@ -1,2 +1,2 @@\n fn a() {}\n-old\n+new\ndiff --git a/b.txt b/b.txt\n--- a/b.txt\n+++ b/b.txt\n@@ -3 +3 @@\n-x\n+y\n@@ -9 +9 @@\n ctx\n";

#[test]
fn change_letters_map_to_changes() {
    assert_eq!(parse_change('A'), FileChange::Added);
    assert_eq!(parse_change('M'), FileChange::Modified);
    assert_eq!(parse_change('D'), FileChange::Deleted);
    assert_eq!(parse_change('R'), FileChange::Renamed);
    assert_eq!(parse_change('C'), FileChange::Copied);
    assert_eq!(parse_change('U'), FileChange::Conflict);
    assert_eq!(parse_change('T'), FileChange::Unknown);
}

#[test]
fn change_labels() {
    assert_eq!(FileChange::Added.label(), "A");
    assert_eq!(FileChange::Modified.label(), "M");
    assert_eq!(FileChange::Deleted.label(), "D");
    assert_eq!(FileChange::Renamed.label(), "R");
    assert_eq!(FileChange::Copied.label(), "C");
    assert_eq!(FileChange::Conflict.label(), "!");
    assert_eq!(FileChange::Unknown.label(), "?");
}

fn kinds(h: &DiffHunk) -> Vec<DiffLineKind> {
    h.lines.iter().map(|l| l.kind).collect()
}

#[test]
fn diff_hunks_split_at_headers() {
    let hunks = parse_diff(TWO_FILE_DIFF);
    assert_eq!(hunks.len(), 3);
    assert_eq!(hunks[0].header, "@@ -1,2 +1,2 @@");
    assert_eq!(kinds(&hunks[0]), vec![DiffLineKind::Context, DiffLineKind::Removed, DiffLineKind::Added]);
    assert_eq!(hunks[0].lines[2].content, "+new");
    assert_eq!(hunks[1].header, "@@ -3 +3 @@");
    assert_eq!(hunks[2].lines.len(), 1);
    assert_eq!(hunks[2].lines[0].content, " ctx");
}

#[test]
fn diff_of_binary_file_gives_marker_hunk() {
    let hunks = parse_diff_text("diff --git a/i.png b/i.png\nBinary files a/i.png and b/i.png differ\n");
    assert_eq!(hunks.len(), 1);
    assert_eq!(hunks[0].header, "");
    assert_eq!(hunks[0].lines.len(), 1);
    assert_eq!(hunks[0].lines[0].kind, DiffLineKind::Context);
    assert_eq!(hunks[0].lines[0].content, "(binary file)");
}

#[test]
fn empty_hunk_is_dropped() {
    let hunks = parse_diff("@@ -1 +1 @@\n@@ -2 +2 @@\n+z\n");
    assert_eq!(hunks.len(), 1);
    assert_eq!(hunks[0].header, "@@ -2 +2 @@");
}

#[test]
fn file_hunks_grouped_and_merged() {
    let mut result: Vec<(String, Vec<DiffHunk>)> = Vec::new();
    collect_file_hunks(TWO_FILE_DIFF, &mut result);
    assert_eq!(result.len(), 2);
    assert_eq!(result[0].0, "src/a.rs");
    assert_eq!(result[0].1.len(), 1);
    assert_eq!(result[1].0, "b.txt");
    assert_eq!(result[1].1.len(), 2);
    collect_file_hunks("diff --git a/b.txt b/b.txt\n@@ -20 +20 @@\n+w\n", &mut result);
    assert_eq!(result.len(), 2);
    assert_eq!(result[1].1.len(), 3);
    assert_eq!(result[1].1[2].header, "@@ -20 +20 @@");
}

#[test]
fn status_reads_branch_and_entries() {
    let text = "# branch.oid abc\n# branch.head main\n# branch.upstream origin/main\n# branch.ab +2 -3\n1 M. N... 100644 100644 100644 h1 h2 src/lib.rs\n1 .M N... 100644 100644 100644 h1 h2 README.md\n2 R. N... 100644 100644 100644 h1 h2 R100 new.rs\told.rs\nu UU N... 100644 100644 100644 100644 h1 h2 h3 conflict.rs\n? notes.txt\n";
    let st = parse_status(text, "detached", true);
    assert_eq!(st.branch, "main");
    assert!(!st.is_detached);
    assert_eq!(st.upstream.as_deref(), Some("origin/main"));
    assert_eq!(st.ahead, 2);
    assert_eq!(st.behind, 3);
    assert_eq!(st.staged.len(), 2);
    assert_eq!(st.staged[0].path, "src/lib.rs");
    assert_eq!(st.staged[0].status, FileChange::Modified);
    assert_eq!(st.staged[1].path, "new.rs");
    assert_eq!(st.staged[1].old_path.as_deref(), Some("old.rs"));
    assert_eq!(st.staged[1].status, FileChange::Renamed);
    assert_eq!(st.unstaged.len(), 1);
    assert_eq!(st.unstaged[0].path, "README.md");
    assert_eq!(st.conflicted, vec!["conflict.rs".to_string()]);
    assert_eq!(st.untracked, vec!["notes.txt".to_string()]);
    assert!(st.has_remotes);
}

#[test]
fn status_of_detached_head_uses_given_name() {
    let st = parse_status("# branch.head (detached)\n", "1a2b3c4", false);
    assert!(st.is_detached);
    assert_eq!(st.branch, "1a2b3c4");
    assert!(!st.has_remotes);
    let empty = parse_status("", "x", false);
    assert_eq!(empty.branch, "(unknown)");
    assert_eq!(empty.ahead, 0);
}

#[test]
fn log_records_end_at_marker() {
    let text = "h1\ns1\nAda\n2 days ago\nfirst\nHEAD -> main\n---END---\nh2\ns2\nBob\n3 days ago\nsecond\n\n---END---\nshort\n---END---\n";
    let commits = parse_log_output(text);
    assert_eq!(commits.len(), 2);
    assert_eq!(commits[0].hash, "h1");
    assert_eq!(commits[0].short_hash, "s1");
    assert_eq!(commits[0].author, "Ada");
    assert_eq!(commits[0].date, "2 days ago");
    assert_eq!(commits[0].message, "first");
    assert_eq!(commits[0].refs, "HEAD -> main");
    assert!(commits[0].graph_line.is_none());
    assert_eq!(commits[1].refs, "");
}

#[test]
fn graph_records_keep_their_prefix() {
    let text = "* h1\n| s1\n| Ada\n| now\n| msg\n| tag\n| ---END---\n";
    let commits = parse_graph_output(text);
    assert_eq!(commits.len(), 1);
    assert_eq!(commits[0].hash, "h1");
    assert_eq!(commits[0].message, "msg");
    assert_eq!(commits[0].refs, "tag");
    assert_eq!(commits[0].graph_line.as_deref(), Some("* "));
}

#[test]
fn local_branches_mark_current() {
    let text = "*main\torigin/main\tfix things\n feature\t\twip\n\n";
    let b = parse_local_branches(text);
    assert_eq!(b.len(), 2);
    assert_eq!(b[0].name, "main");
    assert!(b[0].is_current);
    assert_eq!(b[0].upstream.as_deref(), Some("origin/main"));
    assert_eq!(b[0].last_commit, "fix things");
    assert_eq!(b[1].name, "feature");
    assert!(!b[1].is_current);
    assert!(b[1].upstream.is_none());
    assert_eq!(b[1].last_commit, "wip");
}

#[test]
fn remote_branches_skip_head() {
    let b = parse_remote_branches("origin/HEAD\torigin/main\norigin/main\tmsg\norigin/dev\n");
    assert_eq!(b.len(), 2);
    assert_eq!(b[0].name, "origin/main");
    assert_eq!(b[0].last_commit, "msg");
    assert!(!b[0].is_current);
    assert_eq!(b[1].name, "origin/dev");
    assert_eq!(b[1].last_commit, "");
}

#[test]
fn stash_list_reads_indices() {
    let s = parse_stash_list("stash@{0}\tWIP on main: abc\nstash@{12}\tsaved\nbogus\nother\tmsg\n");
    assert_eq!(s.len(), 3);
    assert_eq!(s[0].index, 0);
    assert_eq!(s[0].message, "WIP on main: abc");
    assert_eq!(s[1].index, 12);
    assert_eq!(s[2].index, 0);
    assert_eq!(s[2].message, "msg");
}

#[test]
fn blame_lines_carry_commit_data() {
    let hash = "0123456789abcdef0123456789abcdef01234567";
    let text = format!("{hash} 1 7 1\nauthor Ada\nauthor-time 1700000000\n\tlet x = 1;\n");
    let lines = parse_blame_output(&text).unwrap();
    assert_eq!(lines.len(), 1);
    assert_eq!(lines[0].hash, "01234567");
    assert_eq!(lines[0].author, "Ada");
    assert_eq!(lines[0].date, "1700000000");
    assert_eq!(lines[0].line_number, 7);
    assert_eq!(lines[0].content, "let x = 1;");
}

#[test]
fn renames_keep_spaces_in_their_paths() {
    let st = parse_status("2 RM N... 100644 100644 100644 h1 h2 R90 my file.rs\told name.rs\n", "d", false);
    assert_eq!(st.staged.len(), 1);
    assert_eq!(st.staged[0].path, "my file.rs");
    assert_eq!(st.staged[0].old_path.as_deref(), Some("old name.rs"));
    assert_eq!(st.unstaged[0].path, "my file.rs");
    assert_eq!(st.unstaged[0].status, FileChange::Modified);
    assert!(parse_status("2 R. N... 100644 100644 100644 h1 h2 R100\n", "d", false).staged.is_empty());
}
