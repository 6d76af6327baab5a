use magma::git::{parse_diff, DiffHunk};
use magma::patch::{
    diff_line_class, draft_commit_scope, format_hunk_text, merge_saved_review, move_selection, patch_brief,
    select_hunk_patch, set_hunk_status, HunkStatus, PatchHunk, PatchSession,
};

fn hunk(file: &str, idx: usize, header: &str, note: &str, status: HunkStatus) -> PatchHunk {
    PatchHunk {
        file: file.to_string(),
        hunk_index: idx,
        header: header.to_string(),
        diff_text: String::new(),
        annotation: note.to_string(),
        status,
    }
}

#[test]
fn status_words_icons_and_classes() {
    assert_eq!(HunkStatus::Unreviewed.label(), "unreviewed");
    assert_eq!(HunkStatus::Reviewed.label(), "reviewed");
    assert_eq!(HunkStatus::Risky.label(), "risky");
    assert_eq!(HunkStatus::FollowUp.label(), "follow-up");
    assert_eq!(HunkStatus::Reviewed.icon(), "\u{2713}");
    assert_eq!(HunkStatus::Unreviewed.icon(), "\u{00B7}");
    assert_eq!(HunkStatus::Risky.icon(), "\u{2691}");
    assert_eq!(HunkStatus::FollowUp.icon(), "?");
    assert_eq!(HunkStatus::Risky.css_class(), "status-risky");
    assert_eq!(HunkStatus::FollowUp.css_class(), "status-followup");
}

#[test]
fn diff_line_classes() {
    assert_eq!(diff_line_class("+added"), "magma-git-line-added");
    assert_eq!(diff_line_class("-gone"), "magma-git-line-removed");
    assert_eq!(diff_line_class(" same"), "magma-git-line-context");
    assert_eq!(diff_line_class(""), "magma-git-line-context");
}

#[test]
fn hunk_text_joins_lines() {
    let hunks = parse_diff("@@ -1 +1 @@\n-a\n+b\n c\n");
    assert_eq!(format_hunk_text(&hunks[0]), "-a\n+b\n c");
    let empty = DiffHunk { header: String::new(), lines: Vec::new() };
    assert_eq!(format_hunk_text(&empty), "");
}

#[test]
fn marking_a_hunk_changes_only_it() {
    let mut s = PatchSession {
        branch: "main".to_string(),
        hunks: vec![hunk("a", 0, "@@", "", HunkStatus::Unreviewed), hunk("a", 1, "@@", "", HunkStatus::Unreviewed)],
        commit_scope_draft: String::new(),
    };
    assert!(set_hunk_status(&mut s, 1, HunkStatus::Risky));
    assert_eq!(s.hunks[0].status, HunkStatus::Unreviewed);
    assert_eq!(s.hunks[1].status, HunkStatus::Risky);
    assert!(!set_hunk_status(&mut s, 2, HunkStatus::Reviewed));
}

#[test]
fn selection_moves_within_bounds() {
    assert_eq!(move_selection(0, 1, 3), Some(1));
    assert_eq!(move_selection(2, 1, 3), None);
    assert_eq!(move_selection(1, -5, 3), Some(0));
    assert_eq!(move_selection(0, -1, 3), None);
    assert_eq!(move_selection(0, 1, 0), None);
    assert_eq!(move_selection(0, 10, 4), Some(3));
}

#[test]
fn saved_review_is_merged_by_file_index_and_header() {
    let hunks = parse_diff("@@ -1 +1 @@\n+x\n@@ -5 +5 @@\n+y\n");
    let files: Vec<(String, Vec<DiffHunk>)> = vec![("f.rs".to_string(), hunks)];
    let saved = vec![
        hunk("f.rs", 0, "@@ -1 +1 @@", "looks fine", HunkStatus::Reviewed),
        hunk("f.rs", 1, "@@ -9 +9 @@", "stale", HunkStatus::Risky),
    ];
    let merged = merge_saved_review(&files, &saved);
    assert_eq!(merged.len(), 2);
    assert_eq!(merged[0].annotation, "looks fine");
    assert_eq!(merged[0].status, HunkStatus::Reviewed);
    assert_eq!(merged[0].diff_text, "+x");
    assert_eq!(merged[1].annotation, "");
    assert_eq!(merged[1].status, HunkStatus::Unreviewed);
    assert_eq!(merged[1].hunk_index, 1);
    assert_eq!(merged[1].header, "@@ -5 +5 @@");
}

#[test]
fn draft_lists_reviewed_hunks_by_file() {
    let hunks = vec![
        hunk("a.rs", 0, "@@", "first line\nsecond", HunkStatus::Reviewed),
        hunk("a.rs", 1, "@@", "", HunkStatus::Risky),
        hunk("a.rs", 2, "@@", "", HunkStatus::Reviewed),
        hunk("b.rs", 0, "@@", "", HunkStatus::Reviewed),
    ];
    let (draft, count) = draft_commit_scope(&hunks).unwrap();
    assert_eq!(count, 3);
    assert_eq!(draft, "Changes:\n\n  a.rs:\n    hunk 1: first line\n    hunk 3\n\n  b.rs:\n    hunk 1\n");
    let none = vec![hunk("a.rs", 0, "@@", "", HunkStatus::Risky)];
    assert!(draft_commit_scope(&none).is_none());
}

#[test]
fn brief_lists_every_hunk() {
    let s = PatchSession {
        branch: "feat/x".to_string(),
        hunks: vec![
            hunk("a.rs", 0, "@@ -1 +1 @@", "check\nthis", HunkStatus::Risky),
            hunk("a.rs", 1, "", "", HunkStatus::Unreviewed),
        ],
        commit_scope_draft: "Changes:".to_string(),
    };
    let brief = patch_brief(&s).unwrap();
    assert_eq!(
        brief,
        "# Patch Brief: feat/x\n\n\n## a.rs\n\n### Hunk 1 [risky]\n`@@ -1 +1 @@`\n\n> check\n> this\n\n### Hunk 2 [unreviewed]\n\n\n---\n\n## Commit Scope Draft\n\nChanges:\n"
    );
    let empty = PatchSession { branch: "m".to_string(), hunks: Vec::new(), commit_scope_draft: String::new() };
    assert!(patch_brief(&empty).is_none());
}

#[test]
fn hunk_patch_keeps_header_and_one_hunk() {
    let diff = "diff --git a/f b/f\n--- a/f\n+++ b/f\n@@ -1 +1 @@\n-a\n+b\n@@ -9 +9 @@\n-c\n+d\n";
    assert_eq!(
        select_hunk_patch(diff, "f", 1).unwrap(),
        "diff --git a/f b/f\n--- a/f\n+++ b/f\n@@ -9 +9 @@\n-c\n+d\n"
    );
    assert_eq!(select_hunk_patch(diff, "f", 2).unwrap_err(), "hunk 2 not found in f");
}

use magma::git::{parse_status, FileChange, FileStatus};
use magma::patch::{detail_lines, hunk_list_rows, HunkListRow};
use magma::staging::{can_commit, commit_enabled, file_row_plan, row_command};
use magma::commands::GitCommand;

#[test]
fn hunk_list_groups_by_file() {
    let hunks = vec![
        hunk("a.rs", 0, "@@", "", HunkStatus::Reviewed),
        hunk("a.rs", 1, "@@", "", HunkStatus::Risky),
        hunk("b.rs", 0, "@@", "", HunkStatus::Unreviewed),
    ];
    let rows = hunk_list_rows(&hunks, 1);
    assert_eq!(rows.len(), 5);
    match &rows[0] {
        HunkListRow::FileHeader(f) => assert_eq!(f, "a.rs"),
        _ => panic!("expected a heading"),
    }
    match &rows[2] {
        HunkListRow::Hunk { position, status, label, selected } => {
            assert_eq!(*position, 1);
            assert_eq!(*status, HunkStatus::Risky);
            assert_eq!(label, "hunk 2");
            assert!(*selected);
        }
        _ => panic!("expected a hunk"),
    }
    match &rows[3] {
        HunkListRow::FileHeader(f) => assert_eq!(f, "b.rs"),
        _ => panic!("expected a heading"),
    }
    match &rows[4] {
        HunkListRow::Hunk { selected, label, .. } => {
            assert!(!*selected);
            assert_eq!(label, "hunk 1");
        }
        _ => panic!("expected a hunk"),
    }
    assert!(hunk_list_rows(&Vec::new(), 0).is_empty());
}

#[test]
fn detail_lines_carry_classes() {
    let lines = detail_lines("+a\n-b\r\n c");
    assert_eq!(
        lines,
        vec![
            ("+a".to_string(), "magma-git-line-added"),
            ("-b".to_string(), "magma-git-line-removed"),
            (" c".to_string(), "magma-git-line-context"),
        ]
    );
}

#[test]
fn staging_rows_and_commit() {
    let renamed = FileStatus { path: "new.rs".to_string(), old_path: Some("old.rs".to_string()), status: FileChange::Renamed };
    let plan = file_row_plan(&renamed, true);
    assert_eq!(plan.badge, "R");
    assert_eq!(plan.badge_class, "status-renamed");
    assert_eq!(plan.name, "old.rs \u{2192} new.rs");
    assert_eq!(plan.action, "unstage");
    assert!(!plan.discard);
    let added = FileStatus { path: "a.rs".to_string(), old_path: None, status: FileChange::Added };
    let plan = file_row_plan(&added, false);
    assert_eq!(plan.action, "stage");
    assert!(!plan.discard);
    assert_eq!(plan.badge_class, "status-added");
    let modified = FileStatus { path: "m.rs".to_string(), old_path: None, status: FileChange::Copied };
    let plan = file_row_plan(&modified, false);
    assert!(plan.discard);
    assert_eq!(plan.badge_class, "status-other");
    assert!(matches!(row_command(&added, false), GitCommand::StageFile { .. }));
    assert_eq!(row_command(&added, true).args(), vec!["restore", "--staged", "--", "a.rs"]);
    let st = parse_status("1 M. N... 1 1 1 h h x.rs\n", "d", false);
    assert!(can_commit(&st));
    assert!(commit_enabled(true, " fix "));
    assert!(!commit_enabled(true, "  "));
    assert!(!commit_enabled(false, "msg"));
    let conflicted = parse_status("1 M. N... 1 1 1 h h x.rs\nu UU N... 1 1 1 1 h h h c.rs\n", "d", false);
    assert!(!can_commit(&conflicted));
}

#[test]
fn marks_survive_a_refresh() {
    let text = "@@ -1 +1 @@\n+x\n@@ -5 +5 @@\n+y\n@@ -9 +9 @@\n+z\n";
    let files: Vec<(String, Vec<DiffHunk>)> = vec![("f.rs".to_string(), parse_diff(text))];
    let mut session = PatchSession {
        branch: "main".to_string(),
        hunks: merge_saved_review(&files, &Vec::new()),
        commit_scope_draft: String::new(),
    };
    assert!(set_hunk_status(&mut session, 1, HunkStatus::Risky));
    assert!(set_hunk_status(&mut session, 2, HunkStatus::Reviewed));
    session.hunks[2].annotation = "fine".to_string();
    let again: Vec<(String, Vec<DiffHunk>)> = vec![("f.rs".to_string(), parse_diff(text))];
    let refreshed = merge_saved_review(&again, &session.hunks);
    let marks: Vec<(HunkStatus, String)> = refreshed.iter().map(|h| (h.status, h.annotation.clone())).collect();
    assert_eq!(
        marks,
        vec![
            (HunkStatus::Unreviewed, String::new()),
            (HunkStatus::Risky, String::new()),
            (HunkStatus::Reviewed, "fine".to_string()),
        ]
    );
}

use magma::patch::{clear_review, draft_into_session};

#[test]
fn drafting_into_the_session() {
    let mut s = PatchSession {
        branch: "main".to_string(),
        hunks: vec![
            hunk("a.rs", 0, "@@", "fix\nmore", HunkStatus::Reviewed),
            hunk("a.rs", 1, "@@", "", HunkStatus::Risky),
            hunk("b.rs", 2, "@@", "", HunkStatus::Reviewed),
        ],
        commit_scope_draft: String::new(),
    };
    let o = draft_into_session(&mut s);
    assert!(o.drafted);
    assert_eq!(s.commit_scope_draft, "Changes:\n\n  a.rs:\n    hunk 1: fix\n\n  b.rs:\n    hunk 3\n");
    assert_eq!(o.label.as_deref(), Some("Changes:"));
    assert_eq!(o.status, "drafted scope (2 reviewed hunks)");
    assert_eq!(s.hunks.len(), 3);
    let mut none = PatchSession { branch: "m".to_string(), hunks: vec![hunk("a", 0, "@@", "", HunkStatus::Risky)], commit_scope_draft: "old".to_string() };
    let o = draft_into_session(&mut none);
    assert!(!o.drafted);
    assert_eq!(o.status, "no reviewed hunks to draft");
    assert_eq!(none.commit_scope_draft, "old");
    let (selected, status) = clear_review(&mut s);
    assert_eq!((selected, status), (0, "patch queue cleared"));
    assert!(s.hunks.is_empty() && s.commit_scope_draft.is_empty());
    assert_eq!(s.branch, "main");
}
