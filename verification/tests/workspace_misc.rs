use magma::commands::{git_result, lists_remote, stash_ref, GitCommand, SearchMode};
use magma::context::{
    approx_tokens, branch_file_name, fits_budget, read_status, risky_unannotated, sanitize, PatchAnnotation,
};
use magma::json::{
    annotate_session, annotate_session_doc, read_session_notes, reply_payload, reply_payload_from, session_notes,
    str_field, Json, JsonNumber,
};
use magma::keys::{git_pane_key, patch_key, PaneCommand, PaneKey, PatchCommand, SubView};
use magma::patch::HunkStatus;
use magma::persist::{active_session, PaneFocus, PaneSnapshot, SessionDefaults, SessionSnapshot, TabSnapshot, WorkspaceSnapshot};
use magma::shell::{
    contains_ignore_case, format_file_count, moved_selection, next_session, previous_session, rc_content,
    sandbox_probe_args, shell_args, should_disable_webkit_sandbox, visible_files, ShellContext,
};
use magma::files::FileCategory;

fn args(c: GitCommand) -> Vec<String> {
    c.args()
}

#[test]
fn git_command_arguments() {
    assert_eq!(args(GitCommand::Status), vec!["status", "--porcelain=v2", "--branch"]);
    assert_eq!(
        args(GitCommand::DiffFile { path: "a.rs".to_string(), staged: true }),
        vec!["diff", "--color=never", "-U3", "--cached", "--", "a.rs"]
    );
    assert_eq!(
        args(GitCommand::Log { limit: 50, skip: 100 }),
        vec!["log", "-50", "--skip=100", "--all", "--format=%H%n%h%n%an%n%ar%n%s%n%D%n---END---"]
    );
    assert_eq!(args(GitCommand::StashPop { index: 3 }), vec!["stash", "pop", "stash@{3}"]);
    assert_eq!(args(GitCommand::StashPush { message: None }), vec!["stash", "push"]);
    assert_eq!(
        args(GitCommand::StashPush { message: Some("wip".to_string()) }),
        vec!["stash", "push", "-m", "wip"]
    );
    assert_eq!(
        args(GitCommand::Search { query: "ada".to_string(), mode: SearchMode::Author }),
        vec!["log", "-50", "--all", "--format=%H%n%h%n%an%n%ar%n%s%n%D%n---END---", "--author=ada", "-i"]
    );
    assert_eq!(
        args(GitCommand::Search { query: "src/x".to_string(), mode: SearchMode::File }),
        vec!["log", "-50", "--all", "--format=%H%n%h%n%an%n%ar%n%s%n%D%n---END---", "--", "src/x"]
    );
    assert_eq!(stash_ref(12), "stash@{12}");
}

#[test]
fn finished_git_processes() {
    assert_eq!(git_result(true, "out".to_string(), "warn", "0"), Ok("out".to_string()));
    assert_eq!(git_result(false, String::new(), "  fatal: bad\n", "1"), Err("fatal: bad".to_string()));
    assert_eq!(git_result(false, String::new(), " \n", "exit status: 128"), Err("git exited with exit status: 128".to_string()));
    assert!(lists_remote("origin\n"));
    assert!(!lists_remote("  \n"));
}

#[test]
fn key_maps() {
    assert_eq!(git_pane_key(PaneKey::Char('r'), true), PaneCommand::Refresh);
    assert_eq!(git_pane_key(PaneKey::Char('f'), true), PaneCommand::Fetch);
    assert_eq!(git_pane_key(PaneKey::Char('3'), false), PaneCommand::Show(SubView::Branches));
    assert_eq!(git_pane_key(PaneKey::Char('3'), true), PaneCommand::Pass);
    assert_eq!(git_pane_key(PaneKey::Escape, false), PaneCommand::Show(SubView::Status));
    assert_eq!(SubView::Stash.stack_name(), "stash");
    assert_eq!(SubView::Search.label(), "search");
    assert_eq!(patch_key(true, PaneKey::Escape), PatchCommand::FocusList);
    assert_eq!(patch_key(true, PaneKey::Char('j')), PatchCommand::Pass);
    assert_eq!(patch_key(false, PaneKey::Char('j')), PatchCommand::Move(1));
    assert_eq!(patch_key(false, PaneKey::Up), PatchCommand::Move(-1));
    assert_eq!(patch_key(false, PaneKey::Return), PatchCommand::Annotate);
    assert_eq!(patch_key(false, PaneKey::Char('x')), PatchCommand::Mark(HunkStatus::Risky));
    assert_eq!(patch_key(false, PaneKey::Char('e')), PatchCommand::Export);
    assert_eq!(patch_key(false, PaneKey::Char('z')), PatchCommand::Pass);
}

#[test]
fn shell_start_and_sessions() {
    assert_eq!(
        shell_args("/bin/bash", Some("/tmp/rc".to_string())),
        vec!["/bin/bash", "--noprofile", "--rcfile", "/tmp/rc", "-i"]
    );
    assert_eq!(shell_args("/bin/bash", None), vec!["/bin/bash", "-i"]);
    assert_eq!(shell_args("/usr/bin/zsh", Some("/tmp/rc".to_string())), vec!["/usr/bin/zsh", "-i"]);
    assert!(rc_content().contains("export PS1=\"\""));
    assert_eq!(next_session(2, 3), Some(0));
    assert_eq!(next_session(0, 1), None);
    assert_eq!(previous_session(0, 3), Some(2));
    assert_eq!(previous_session(2, 3), Some(1));
    assert_eq!(moved_selection(0, -1, 4), Some(0));
    assert_eq!(moved_selection(2, 5, 4), Some(3));
    assert_eq!(moved_selection(0, 1, 0), None);
    let c = ShellContext::logs();
    assert_eq!(c.app_name(), "magma");
    assert_eq!(c.feature_name(), "logs");
}

#[test]
fn file_lists_and_settings_search() {
    let cats = [FileCategory::Rust, FileCategory::Docs, FileCategory::Rust];
    assert_eq!(visible_files(&cats, FileCategory::All), vec![0, 1, 2]);
    assert_eq!(visible_files(&cats, FileCategory::Rust), vec![0, 2]);
    assert_eq!(format_file_count(1), "1 file");
    assert_eq!(format_file_count(0), "0 files");
    assert_eq!(format_file_count(7), "7 files");
    assert!(contains_ignore_case("Theme Colour", "colour"));
    assert!(contains_ignore_case("ÉCRAN", "écr"));
    assert!(!contains_ignore_case("Font", "size"));
}

#[test]
fn webkit_sandbox_probe() {
    assert!(should_disable_webkit_sandbox(true, false, true));
    assert!(should_disable_webkit_sandbox(false, true, true));
    assert!(should_disable_webkit_sandbox(false, false, false));
    assert!(!should_disable_webkit_sandbox(false, false, true));
    assert_eq!(
        sandbox_probe_args(true, false, true, false, true),
        vec![
            "--unshare-user", "--uid", "0", "--gid", "0", "--proc", "/proc", "--dev", "/dev", "--ro-bind", "/usr",
            "/usr", "--ro-bind", "/lib", "/lib", "/usr/bin/true"
        ]
    );
}

#[test]
fn context_budget_and_status_file() {
    assert_eq!(approx_tokens(""), 1);
    assert_eq!(approx_tokens("12345678"), 3);
    assert!(fits_budget("1234", 2));
    assert!(!fits_budget(&"x".repeat(40), 10));
    assert!(!fits_budget(&"x".repeat(40_000), 20_000));
    assert_eq!(read_status("1700000000\t127\tmake test\n"), (Some(127), Some("make test".to_string())));
    assert_eq!(read_status("t\tx"), (None, None));
    assert_eq!(read_status("t\t-3\ta\tb"), (Some(-3), Some("a\tb".to_string())));
    assert_eq!(branch_file_name("feat/x"), "feat_x.json");
    assert_eq!(sanitize("a/b/c"), "a_b_c");
}

fn note(status: &str, annotation: &str) -> PatchAnnotation {
    PatchAnnotation { file: "f".to_string(), hunk_index: 0, status: status.to_string(), annotation: annotation.to_string() }
}

#[test]
fn risky_hunks_without_notes() {
    let notes = vec![note("Risky", ""), note("Risky", "  "), note("Risky", "why"), note("Reviewed", "")];
    assert_eq!(risky_unannotated(&notes), 2);
}

fn defaults(tag: &str) -> SessionDefaults {
    SessionDefaults {
        session_id: format!("id-{tag}"),
        socket_path: "/run/sock".to_string(),
        status_path: format!("/tmp/status-{tag}"),
    }
}

#[test]
fn saved_panes_are_made_whole() {
    let pane = PaneSnapshot {
        sessions: vec![SessionSnapshot { cwd: Some("/w".to_string()), session_id: None, socket_path: Some("/s".to_string()), status_path: None }],
        active_session: 4,
    };
    let p = pane.normalized(vec![defaults("a")]);
    assert_eq!(p.active_session, 0);
    assert_eq!(p.sessions[0].cwd.as_deref(), Some("/w"));
    assert_eq!(p.sessions[0].session_id.as_deref(), Some("id-a"));
    assert_eq!(p.sessions[0].socket_path.as_deref(), Some("/s"));
    assert_eq!(p.sessions[0].status_path.as_deref(), Some("/tmp/status-a"));
    let empty = PaneSnapshot { sessions: Vec::new(), active_session: 0 }.normalized(vec![defaults("b")]);
    assert_eq!(empty.sessions.len(), 1);
    assert_eq!(empty.sessions[0].session_id.as_deref(), Some("id-b"));
    assert!(empty.sessions[0].cwd.is_none());
}

#[test]
fn the_focused_session() {
    let tab = TabSnapshot::default_tab(defaults("t"));
    assert_eq!(tab.title, "tab 1");
    assert_eq!(tab.active_pane, PaneFocus::Left);
    let mut right = PaneSnapshot::from_cwd(Some("/r".to_string()), defaults("r"));
    right.sessions.push(SessionSnapshot::new(Some("/r2".to_string()), defaults("r2")));
    right.active_session = 1;
    let mut tab2 = TabSnapshot::default_tab(defaults("u"));
    tab2.right_pane = Some(right);
    tab2.active_pane = PaneFocus::Right;
    let ws = WorkspaceSnapshot { active_tab: 1, tabs: vec![tab, tab2] };
    let s = active_session(&ws).unwrap();
    assert_eq!(s.cwd.as_deref(), Some("/r2"));
    assert_eq!(s.session_id.as_deref(), Some("id-r2"));
    let none = WorkspaceSnapshot { active_tab: 5, tabs: Vec::new() };
    assert!(active_session(&none).is_none());
}

#[test]
fn json_documents_are_read() {
    let line = "{\"level\": \"warn\", \"n\": [1, -2, 1.5], \"m\": \"a\\u00e9\"}";
    assert_eq!(str_field(line, "level").as_deref(), Some("warn"));
    assert_eq!(str_field(line, "m").as_deref(), Some("a\u{e9}"));
    assert_eq!(str_field(line, "n"), None);
    assert_eq!(str_field(line, "absent"), None);
    assert_eq!(str_field("[\"level\"]", "level"), None);
    assert_eq!(str_field("{", "level"), None);
}

fn obj(members: Vec<(&str, Json)>) -> Json {
    Json::Object(members.into_iter().map(|(k, v)| (k.to_string(), v)).collect())
}

fn text(s: &str) -> Json {
    Json::Str(s.to_string())
}

#[test]
fn reply_text_from_a_document() {
    let message = obj(vec![("content", text("```json\n[1]\n```"))]);
    let doc = obj(vec![("choices", Json::Array(vec![obj(vec![("message", message)])]))]);
    assert_eq!(reply_payload_from(&doc, "raw"), "[1]");
    assert_eq!(reply_payload_from(&obj(vec![("choices", Json::Array(Vec::new()))]), "raw text"), "raw text");
    assert_eq!(reply_payload_from(&Json::Null, "x"), "x");
}

#[test]
fn notes_written_into_a_document() {
    let hunk = |file: &str, index: u64| {
        obj(vec![("file", text(file)), ("hunk_index", Json::Number(JsonNumber::PosInt(index))), ("annotation", text(""))])
    };
    let doc = obj(vec![("branch", text("m")), ("hunks", Json::Array(vec![hunk("a.rs", 0), hunk("b.rs", 3)]))]);
    let updated = annotate_session_doc(doc, "b.rs", 3, "check").unwrap();
    let notes = session_notes(&updated);
    assert_eq!(notes.len(), 2);
    assert_eq!(notes[1].annotation, "check");
    assert_eq!(notes[0].annotation, "");
    assert_eq!(notes[1].status, "unknown");
    let missing = annotate_session_doc(obj(vec![("hunks", Json::Array(vec![hunk("a.rs", 0)]))]), "a.rs", 1, "n");
    assert_eq!(missing.err().as_deref(), Some("patch hunk not found: a.rs#1"));
    assert_eq!(
        annotate_session_doc(obj(Vec::new()), "a.rs", 0, "n").err().as_deref(),
        Some("patch session missing hunks")
    );
}

#[test]
fn model_reply_text() {
    let reply = "{\"choices\":[{\"message\":{\"role\":\"assistant\",\"content\":\"```json\\n[{\\\"kind\\\":\\\"surface_message\\\"}]\\n```\"}}]}";
    assert_eq!(reply_payload(reply).unwrap(), "[{\"kind\":\"surface_message\"}]");
    assert_eq!(reply_payload("[1, 2]").unwrap(), "[1, 2]");
    assert_eq!(reply_payload("{\"choices\":[]}").unwrap(), "{\"choices\":[]}");
    assert!(reply_payload("not json").unwrap_err().starts_with("failed to parse API response: "));
}

const SESSION: &str = "{\"branch\":\"main\",\"commit_scope_draft\":\"\",\"hunks\":[{\"file\":\"a.rs\",\"hunk_index\":0,\"header\":\"@@\",\"diff_text\":\"+x\",\"annotation\":\"\",\"status\":\"Risky\"},{\"file\":\"b.rs\",\"hunk_index\":2,\"status\":\"Reviewed\",\"annotation\":\"fine\"},{\"file\":\"c.rs\"}]}";

#[test]
fn session_notes_are_read() {
    let notes = read_session_notes(SESSION);
    assert_eq!(notes.len(), 2);
    assert_eq!(notes[0].file, "a.rs");
    assert_eq!(notes[0].status, "Risky");
    assert_eq!(notes[0].annotation, "");
    assert_eq!(notes[1].hunk_index, 2);
    assert_eq!(notes[1].annotation, "fine");
    assert!(read_session_notes("oops").is_empty());
    assert!(read_session_notes("{\"hunks\":3}").is_empty());
    let mut many = String::from("{\"hunks\":[");
    for i in 0..30 {
        if i > 0 {
            many.push(',');
        }
        many.push_str(&format!("{{\"file\":\"f\",\"hunk_index\":{i}}}"));
    }
    many.push_str("]}");
    let notes = read_session_notes(&many);
    assert_eq!(notes.len(), 24);
    assert_eq!(notes[0].status, "unknown");
    assert_eq!(notes[23].hunk_index, 23);
    let doc = Json::Object(vec![(
        "hunks".to_string(),
        Json::Array(
            (0..30u64)
                .map(|i| {
                    Json::Object(vec![
                        ("file".to_string(), Json::Str("f".to_string())),
                        ("hunk_index".to_string(), Json::Number(JsonNumber::PosInt(i))),
                    ])
                })
                .collect(),
        ),
    )]);
    assert_eq!(session_notes(&doc).len(), 24);
}

#[test]
fn a_note_is_written_to_its_hunk() {
    let text = annotate_session(SESSION, "b.rs", 2, "look again").unwrap();
    let notes = read_session_notes(&text);
    assert_eq!(notes[1].annotation, "look again");
    assert_eq!(notes[0].annotation, "");
    let text = annotate_session(SESSION, "a.rs", 0, "new").unwrap();
    assert_eq!(read_session_notes(&text)[0].annotation, "new");
    assert_eq!(annotate_session(SESSION, "a.rs", 7, "n").unwrap_err(), "patch hunk not found: a.rs#7");
    assert_eq!(annotate_session("{\"branch\":\"m\"}", "a.rs", 0, "n").unwrap_err(), "patch session missing hunks");
    assert!(annotate_session("[", "a.rs", 0, "n").unwrap_err().starts_with("patch session parse failed: "));
}

use magma::files::{status_for_dir, GitStatus};
use magma::memory::{add_summary, recent_summaries, SessionMemory};
use magma::settings::{apply_search, SearchSection};

fn memo(summary: &str, ts: u128) -> SessionMemory {
    SessionMemory { branch: "main".to_string(), summary: summary.to_string(), timestamp_ms: ts }
}

#[test]
fn newest_summaries_first() {
    let items = vec![memo("b", 20), memo("a", 10), memo("c", 30), memo("c2", 30), memo("d", 5)];
    assert_eq!(recent_summaries(&items, 3), vec!["c2".to_string(), "c".to_string(), "b".to_string()]);
    assert_eq!(recent_summaries(&items, 10).len(), 5);
    assert_eq!(recent_summaries(&items, 10)[4], "d");
    assert!(recent_summaries(&items, 0).is_empty());
}

#[test]
fn summary_list_keeps_the_newest() {
    let mut entries: Vec<SessionMemory> = (0..30).map(|i| memo(&i.to_string(), i)).collect();
    add_summary(&mut entries, memo("new", 99));
    assert_eq!(entries.len(), 24);
    assert_eq!(entries[0].summary, "7");
    assert_eq!(entries[23].summary, "new");
    let mut few = vec![memo("x", 1)];
    add_summary(&mut few, memo("y", 2));
    assert_eq!(few.len(), 2);
}

#[test]
fn folder_state_from_files_under_it() {
    let entries = vec![
        ("/r/src/a.rs".to_string(), GitStatus::Modified),
        ("/r/srcx/b.rs".to_string(), GitStatus::Conflict),
        ("/r/src/sub/c.rs".to_string(), GitStatus::Untracked),
        ("/r/docs/d.md".to_string(), GitStatus::Staged),
    ];
    assert_eq!(status_for_dir(&entries, "/r/src"), Some(GitStatus::Modified));
    assert_eq!(status_for_dir(&entries, "/r/src/sub"), Some(GitStatus::Untracked));
    assert_eq!(status_for_dir(&entries, "/r"), Some(GitStatus::Conflict));
    assert_eq!(status_for_dir(&entries, "/elsewhere"), None);
}

fn section(id: &str, title: &str, rows: &[&str]) -> SearchSection {
    SearchSection { id: id.to_string(), title: title.to_string(), rows: rows.iter().map(|r| r.to_string()).collect() }
}

#[test]
fn settings_search_filters_sections() {
    let sections = vec![
        section("appearance", "Appearance", &["Theme Dark", "Font size"]),
        section("shell", "Shell", &["Login shell", "Scrollback lines"]),
    ];
    let all = apply_search(&sections, "   ", Some("shell"), "empty");
    assert_eq!(all.sections_visible, vec![true, true]);
    assert_eq!(all.rows_visible[1], vec![true, true]);
    assert!(all.show.is_none());
    let font = apply_search(&sections, " FONT ", Some("shell"), "empty");
    assert_eq!(font.sections_visible, vec![true, false]);
    assert_eq!(font.rows_visible[0], vec![false, true]);
    assert_eq!(font.rows_visible[1], vec![false, false]);
    assert_eq!(font.show.as_deref(), Some("appearance"));
    let title = apply_search(&sections, "shell", Some("shell"), "empty");
    assert_eq!(title.rows_visible[1], vec![true, true]);
    assert!(title.show.is_none());
    let none = apply_search(&sections, "zzz", Some("shell"), "empty");
    assert_eq!(none.sections_visible, vec![false, false]);
    assert_eq!(none.show.as_deref(), Some("empty"));
    let back = apply_search(&sections, "theme", Some("empty"), "empty");
    assert_eq!(back.show.as_deref(), Some("appearance"));
}

use magma::files::{file_tooltip_text, listing_order_of};
use magma::shell::{close_plan, side_pane_name, toggle_side_pane, SidePaneKind};

#[test]
fn closing_the_shown_session() {
    assert_eq!(close_plan(0, 1), None);
    assert_eq!(close_plan(2, 3), Some((2, 1)));
    assert_eq!(close_plan(0, 3), Some((0, 0)));
    assert_eq!(close_plan(9, 3), Some((2, 1)));
}

#[test]
fn side_pane_buttons() {
    assert_eq!(toggle_side_pane(SidePaneKind::Closed, SidePaneKind::Git), SidePaneKind::Git);
    assert_eq!(toggle_side_pane(SidePaneKind::Git, SidePaneKind::Git), SidePaneKind::Closed);
    assert_eq!(toggle_side_pane(SidePaneKind::Web, SidePaneKind::Git), SidePaneKind::Git);
    assert_eq!(side_pane_name(SidePaneKind::View).as_deref(), Some("view"));
    assert_eq!(side_pane_name(SidePaneKind::Closed), None);
}

#[test]
fn file_tooltips() {
    assert_eq!(file_tooltip_text("2.0 KB", Some(0)), "2.0 KB  \u{00B7}  1970-01-01 00:00");
    assert_eq!(file_tooltip_text("12 B", None), "12 B  \u{00B7}  unknown");
}

#[test]
fn viewer_lists_newest_then_by_name() {
    let files = vec![
        (10u64, "b.rs".to_string()),
        (30, "z.md".to_string()),
        (10, "a.rs".to_string()),
        (30, "c.png".to_string()),
        (5, "Z.txt".to_string()),
    ];
    assert_eq!(listing_order_of(&files), vec![3, 1, 2, 0, 4]);
    assert!(listing_order_of(&Vec::new()).is_empty());
}

use magma::keys::{moved_tab, workspace_shortcut, ShortcutKey, WorkspaceCommand};
use magma::shell::switcher_rows;

#[test]
fn workspace_shortcuts() {
    let k = |c: char| ShortcutKey::Char(c);
    assert_eq!(workspace_shortcut(k('t'), true, false, false, false), WorkspaceCommand::NewTab);
    assert_eq!(workspace_shortcut(k('t'), true, false, true, false), WorkspaceCommand::NewTab);
    assert_eq!(workspace_shortcut(k('t'), false, false, false, false), WorkspaceCommand::Pass);
    assert_eq!(workspace_shortcut(k('w'), true, false, true, false), WorkspaceCommand::CloseSession);
    assert_eq!(workspace_shortcut(k('w'), true, false, false, false), WorkspaceCommand::CloseTab);
    assert_eq!(workspace_shortcut(k('w'), true, true, false, false), WorkspaceCommand::Pass);
    assert_eq!(workspace_shortcut(ShortcutKey::Tab, true, true, false, false), WorkspaceCommand::PreviousTab);
    assert_eq!(workspace_shortcut(ShortcutKey::Left, true, true, true, false), WorkspaceCommand::MoveTabLeft);
    assert_eq!(workspace_shortcut(ShortcutKey::Left, true, false, true, false), WorkspaceCommand::FocusLeftPane);
    assert_eq!(workspace_shortcut(ShortcutKey::PageDown, true, false, true, false), WorkspaceCommand::NextSession);
    assert_eq!(workspace_shortcut(k('3'), true, false, true, false), WorkspaceCommand::FocusSession(2));
    assert_eq!(workspace_shortcut(k('9'), true, false, false, false), WorkspaceCommand::JumpToTab(8));
    assert_eq!(workspace_shortcut(k('0'), true, false, false, false), WorkspaceCommand::Pass);
    assert_eq!(workspace_shortcut(k('k'), true, false, false, true), WorkspaceCommand::CloseSwitcher);
    assert_eq!(workspace_shortcut(k('t'), true, false, false, true), WorkspaceCommand::Pass);
    assert_eq!(workspace_shortcut(k('k'), true, false, false, false), WorkspaceCommand::ToggleSwitcher);
    assert_eq!(workspace_shortcut(k('r'), true, true, false, false), WorkspaceCommand::RenameTab);
}

#[test]
fn moving_tabs() {
    assert_eq!(moved_tab(0, 3, false), None);
    assert_eq!(moved_tab(1, 3, false), Some(0));
    assert_eq!(moved_tab(2, 3, true), None);
    assert_eq!(moved_tab(0, 1, true), None);
    assert_eq!(moved_tab(0, 3, true), Some(1));
}

#[test]
fn quick_switcher_rows() {
    let titles = vec!["Build".to_string(), "logs".to_string(), "Build (Focus)".to_string()];
    assert_eq!(switcher_rows(&titles, " build ", 2), (vec![0, 2], Some(1)));
    assert_eq!(switcher_rows(&titles, "BUILD", 1), (vec![0, 2], Some(0)));
    assert_eq!(switcher_rows(&titles, "build", 1), (vec![0, 2], Some(0)));
    assert_eq!(switcher_rows(&titles, "", 1), (vec![0, 1, 2], Some(1)));
    assert_eq!(switcher_rows(&titles, "zz", 0), (vec![], None));
}

use magma::git::parse_status;
use magma::context::{active_pane_context, git_context, shrink_context, ActivePaneContext, GitContext, LogContext, LogSnapshot, TerminalContext, WorkspaceContext};

fn big_context() -> WorkspaceContext {
    WorkspaceContext {
        terminal: TerminalContext {
            cwd: None,
            last_lines: (0..30).map(|i| i.to_string()).collect(),
            last_exit_code: None,
            last_command: None,
        },
        git: GitContext {
            repo_root: None,
            branch: None,
            upstream: None,
            ahead: 0,
            behind: 0,
            staged_summary: Vec::new(),
            unstaged_summary: Vec::new(),
            conflicted: Vec::new(),
        },
        logs: LogContext {
            last_entries: (0..25).map(|i| LogSnapshot { level: "INFO".to_string(), message: i.to_string() }).collect(),
            level_distribution: Vec::new(),
        },
        active_pane: ActivePaneContext { tab_title: None, split_focus: None, side_pane: None, strip_mode: None },
        annotations: (0..10).map(|_| note("Risky", "")).collect(),
        memory: vec!["a".to_string(), "b".to_string()],
    }
}

#[test]
fn shrinking_a_context_step_by_step() {
    let mut c = big_context();
    assert!(!shrink_context(&mut c));
    assert_eq!(c.terminal.last_lines.len(), 22);
    assert_eq!(c.terminal.last_lines[0], "8");
    assert!(!shrink_context(&mut c));
    assert_eq!(c.logs.last_entries.len(), 20);
    assert!(!shrink_context(&mut c));
    assert_eq!(c.annotations.len(), 8);
    assert!(shrink_context(&mut c));
    assert_eq!(c.memory, vec!["a".to_string()]);
}

#[test]
fn repository_context() {
    let text = "# branch.head main\n# branch.ab +1 -0\n1 M. N... 1 1 1 h h s.rs\n1 .M N... 1 1 1 h h u.rs\n? new.txt\nu UU N... 1 1 1 1 h h h c.rs\n";
    let st = parse_status(text, "d", false);
    let g = git_context("/repo".to_string(), &st);
    assert_eq!(g.repo_root.as_deref(), Some("/repo"));
    assert_eq!(g.branch.as_deref(), Some("main"));
    assert_eq!(g.ahead, 1);
    assert_eq!(g.staged_summary, vec!["s.rs".to_string()]);
    assert_eq!(g.unstaged_summary, vec!["u.rs".to_string(), "new.txt".to_string()]);
    assert_eq!(g.conflicted, vec!["c.rs".to_string()]);
    let many: String = (0..30).map(|i| format!("? f{i}\n")).collect();
    let g = git_context("/r".to_string(), &parse_status(&many, "d", false));
    assert_eq!(g.unstaged_summary.len(), 24);
    assert_eq!(g.unstaged_summary[23], "f23");
}

#[test]
fn pane_context() {
    let mut tab = TabSnapshot::default_tab(defaults("x"));
    tab.title = "work".to_string();
    tab.active_pane = PaneFocus::Right;
    let ws = WorkspaceSnapshot { active_tab: 0, tabs: vec![tab] };
    let a = active_pane_context(&ws, Some("git".to_string()), None);
    assert_eq!(a.tab_title.as_deref(), Some("work"));
    assert_eq!(a.split_focus.as_deref(), Some("right"));
    assert_eq!(a.side_pane.as_deref(), Some("git"));
    let empty = WorkspaceSnapshot { active_tab: 3, tabs: Vec::new() };
    assert!(active_pane_context(&empty, None, None).tab_title.is_none());
}

use magma::context::terminal_context;

#[test]
fn terminal_part_of_a_context() {
    let s = SessionSnapshot { cwd: Some("/w".to_string()), session_id: None, socket_path: None, status_path: Some("/st".to_string()) };
    let t = terminal_context(Some(&s), Some("1700000000\t2\tcargo test\n"), vec!["$ ls".to_string()]);
    assert_eq!(t.cwd.as_deref(), Some("/w"));
    assert_eq!(t.last_lines, vec!["$ ls".to_string()]);
    assert_eq!(t.last_exit_code, Some(2));
    assert_eq!(t.last_command.as_deref(), Some("cargo test"));
    let unread = terminal_context(Some(&s), None, Vec::new());
    assert_eq!(unread.last_exit_code, None);
    assert_eq!(unread.cwd.as_deref(), Some("/w"));
    let none = terminal_context(None, Some("1\t0\tx"), vec!["ignored".to_string()]);
    assert!(none.cwd.is_none() && none.last_lines.is_empty() && none.last_command.is_none());
}

#[test]
fn newest_summary_reads_back() {
    let mut kept: Vec<SessionMemory> = (0..30u128)
        .map(|t| SessionMemory { branch: "main".to_string(), summary: format!("s{t}"), timestamp_ms: t })
        .collect();
    add_summary(&mut kept, SessionMemory { branch: "main".to_string(), summary: "latest".to_string(), timestamp_ms: 30 });
    assert_eq!(kept.len(), 24);
    assert_eq!(recent_summaries(&kept, 1), vec!["latest".to_string()]);
    assert_eq!(recent_summaries(&kept, 2), vec!["latest".to_string(), "s29".to_string()]);
}

use magma::agent::PaneType;
use magma::files::{join_path_text, path_starts_with, repo_file_states, tree_order};
use magma::runtime::UiEffect;
use magma::shell::{
    close_request, effect_pane, first_page, header_mode, initial_side_pane, settings_button_target,
    side_pane_after_settings, window_default_size, CloseAction, HeaderMode, Page,
};

#[test]
fn agent_effects_open_panes() {
    assert_eq!(effect_pane(&UiEffect::OpenPane(PaneType::Git)), Some(SidePaneKind::Git));
    assert_eq!(effect_pane(&UiEffect::OpenPane(PaneType::Logr)), Some(SidePaneKind::Logr));
    assert_eq!(effect_pane(&UiEffect::Message("hi".to_string())), None);
    assert_eq!(effect_pane(&UiEffect::DispatchTerminalCommand("ls".to_string())), Some(SidePaneKind::Agent));
    assert_eq!(initial_side_pane(true), SidePaneKind::Logr);
    assert_eq!(initial_side_pane(false), SidePaneKind::Closed);
    assert_eq!(side_pane_after_settings(true, SidePaneKind::Closed), SidePaneKind::Logr);
    assert_eq!(side_pane_after_settings(false, SidePaneKind::Logr), SidePaneKind::Closed);
    assert_eq!(side_pane_after_settings(true, SidePaneKind::Git), SidePaneKind::Git);
    assert_eq!(side_pane_after_settings(false, SidePaneKind::Web), SidePaneKind::Web);
}

#[test]
fn window_pages_and_closing() {
    assert_eq!(window_default_size(800, 400), (960, 620));
    assert_eq!(window_default_size(1400, 900), (1400, 900));
    assert_eq!(first_page(true), Page::Setup);
    assert_eq!(first_page(false), Page::Workspace);
    assert_eq!(settings_button_target(Page::Settings), Page::Workspace);
    assert_eq!(settings_button_target(Page::Workspace), Page::Settings);
    assert_eq!(header_mode(Page::Settings), HeaderMode::Settings);
    assert_eq!(header_mode(Page::Setup), HeaderMode::Workspace { tabs: false, panes: false });
    assert_eq!(header_mode(Page::Workspace), HeaderMode::Workspace { tabs: true, panes: true });
    assert_eq!(close_request(Page::Settings), CloseAction::BackToWorkspace);
    assert_eq!(close_request(Page::Workspace), CloseAction::SaveAndClose);
    assert_eq!(close_request(Page::Setup), CloseAction::SaveAndClose);
}

#[test]
fn folder_tree_file_states() {
    let out = " M src/a.rs\nA  b.rs\n?? c.txt\nUU d.rs\n!! ign\n";
    let states = repo_file_states(Some(out), Some("/r\n"));
    assert_eq!(
        states,
        vec![
            ("/r/src/a.rs".to_string(), GitStatus::Modified),
            ("/r/b.rs".to_string(), GitStatus::Staged),
            ("/r/c.txt".to_string(), GitStatus::Untracked),
            ("/r/d.rs".to_string(), GitStatus::Conflict),
        ]
    );
    assert!(repo_file_states(None, Some("/r")).is_empty());
    assert!(repo_file_states(Some(out), None).is_empty());
    assert_eq!(join_path_text("/r/", "a"), "/r/a");
    assert_eq!(join_path_text("", "a"), "a");
    assert_eq!(join_path_text("/r", "/abs"), "/abs");
}

#[test]
fn paths_compare_by_components() {
    assert!(path_starts_with("/r/a//b", "/r/a"));
    assert!(path_starts_with("/r/a/b", "/r/a/"));
    assert!(path_starts_with("/r/a/./b", "/r/a/."));
    assert!(!path_starts_with("/r/ab", "/r/a"));
    assert!(path_starts_with("./a/b", "./a"));
    assert!(!path_starts_with("a/b", "./a"));
    assert!(!path_starts_with("r/a", "/r"));
    assert!(path_starts_with("/r", ""));
}

#[test]
fn folder_tree_order() {
    let entries = vec![
        ("zeta.rs".to_string(), false),
        (".git".to_string(), true),
        ("src".to_string(), true),
        ("Cargo.toml".to_string(), false),
        ("assets".to_string(), true),
        (".env".to_string(), false),
    ];
    assert_eq!(tree_order(&entries), vec![4, 2, 3, 0]);
    assert!(tree_order(&Vec::new()).is_empty());
}

#[test]
fn shrinking_leaves_the_rest_alone() {
    let mut c = big_context();
    c.git.conflicted = vec!["x.rs".to_string()];
    c.terminal.last_command = Some("make".to_string());
    while !shrink_context(&mut c) {}
    assert_eq!(c.git.conflicted, vec!["x.rs".to_string()]);
    assert_eq!(c.terminal.last_command.as_deref(), Some("make"));
}

#[test]
fn a_path_named_twice_keeps_its_last_state() {
    let out = "A  x.rs\n M y.rs\n M x.rs\n";
    let states = repo_file_states(Some(out), Some("/r"));
    assert_eq!(
        states,
        vec![("/r/y.rs".to_string(), GitStatus::Modified), ("/r/x.rs".to_string(), GitStatus::Modified)]
    );
}

#[test]
fn normalizing_twice_changes_nothing() {
    let pane = PaneSnapshot {
        sessions: vec![
            SessionSnapshot { cwd: None, session_id: Some("keep".to_string()), socket_path: None, status_path: None },
            SessionSnapshot { cwd: Some("/b".to_string()), session_id: None, socket_path: None, status_path: None },
        ],
        active_session: 9,
    };
    let once = pane.normalized(vec![defaults("a"), defaults("b")]);
    let ids: Vec<Option<String>> = once.sessions.iter().map(|s| s.session_id.clone()).collect();
    assert_eq!(ids, vec![Some("keep".to_string()), Some("id-b".to_string())]);
    assert_eq!(once.active_session, 1);
    let twice = once.normalized(vec![defaults("c"), defaults("d")]);
    let ids: Vec<Option<String>> = twice.sessions.iter().map(|s| s.session_id.clone()).collect();
    assert_eq!(ids, vec![Some("keep".to_string()), Some("id-b".to_string())]);
    assert_eq!(twice.sessions[1].status_path.as_deref(), Some("/tmp/status-b"));
    assert_eq!(twice.sessions[1].cwd.as_deref(), Some("/b"));
    assert_eq!(twice.active_session, 1);
}
