use magma::logs::{
    invalid_filter, numbered_lines, parse_filters, take_complete_line, FilterState, InputMode, Key, KeyOutcome,
    LevelFilters, LogLevel, LogsView,
};

#[test]
fn level_names_in_any_case() {
    assert_eq!(LogLevel::from_text("INFO"), LogLevel::Info);
    assert_eq!(LogLevel::from_text("Warn"), LogLevel::Warn);
    assert_eq!(LogLevel::from_text("error"), LogLevel::Error);
    assert_eq!(LogLevel::from_text("tRaCe"), LogLevel::Trace);
    assert_eq!(LogLevel::from_text("debug"), LogLevel::Debug);
    assert_eq!(LogLevel::from_text("fatal"), LogLevel::Unknown);
    assert_eq!(LogLevel::from_text(""), LogLevel::Unknown);
}

#[test]
fn empty_level_filter_passes_everything() {
    let f = LevelFilters::new();
    assert!(!f.any_active());
    assert_eq!(f.summary(), "all");
    for level in [LogLevel::Trace, LogLevel::Debug, LogLevel::Info, LogLevel::Warn, LogLevel::Error, LogLevel::Unknown] {
        assert!(f.matches(level));
    }
}

#[test]
fn toggled_levels_narrow_the_list() {
    let mut f = LevelFilters::new();
    f.toggle(LogLevel::Warn);
    f.toggle(LogLevel::Error);
    assert!(f.matches(LogLevel::Warn));
    assert!(f.matches(LogLevel::Error));
    assert!(!f.matches(LogLevel::Info));
    assert!(!f.matches(LogLevel::Unknown));
    assert_eq!(f.summary(), "warn,error");
    f.toggle(LogLevel::Warn);
    assert_eq!(f.summary(), "error");
}

#[test]
fn toggling_twice_restores_filter() {
    let mut f = LevelFilters::new();
    f.toggle(LogLevel::Debug);
    let once = f;
    f.toggle(LogLevel::Info);
    f.toggle(LogLevel::Info);
    assert_eq!(f, once);
}

#[test]
fn set_active_levels_replaces_choice() {
    let mut f = LevelFilters::new();
    f.toggle(LogLevel::Trace);
    f.set_active_levels(&[LogLevel::Info, LogLevel::Unknown]);
    assert!(!f.trace);
    assert!(f.info);
    assert!(f.matches(LogLevel::Info));
    assert!(!f.matches(LogLevel::Trace));
    f.set_active_levels(&[LogLevel::Unknown]);
    assert!(!f.any_active());
    assert!(f.matches(LogLevel::Trace));
    f.toggle_on(LogLevel::Warn);
    f.toggle_on(LogLevel::Warn);
    assert!(f.warn);
    f.clear();
    assert_eq!(f, LevelFilters::new());
}

#[test]
fn search_mode_edits_query() {
    let mut st = FilterState::new();
    assert_eq!(st.status_line(), "mode: nav  query: <none>  levels: all");
    assert!(st.handle_key(Key::Char('/')));
    assert_eq!(st.mode, InputMode::Search);
    assert!(st.handle_key(Key::Char('a')));
    assert!(st.handle_key(Key::Char('b')));
    assert!(st.handle_key(Key::Backspace));
    assert!(st.handle_key(Key::Char('x')));
    assert!(!st.handle_key(Key::Up));
    assert!(st.handle_key(Key::Enter));
    assert_eq!(st.query_text(), "ax");
    assert!(st.handle_key(Key::Char('e')));
    assert_eq!(st.status_line(), "mode: nav  query: ax  levels: error");
    assert!(!st.handle_key(Key::Char('z')));
    assert!(st.handle_key(Key::Char('c')));
    assert_eq!(st.status_line(), "mode: nav  query: <none>  levels: all");
}

#[test]
fn filter_state_matches_level_and_query() {
    let mut st = FilterState::new();
    st.set_levels(&[LogLevel::Error]);
    assert!(st.matches(LogLevel::Error, true));
    assert!(!st.matches(LogLevel::Error, false));
    assert!(!st.matches(LogLevel::Info, true));
    st.handle_key(Key::Char('/'));
    st.set_query("boot".to_string());
    assert_eq!(st.mode, InputMode::Normal);
    assert_eq!(st.query_text(), "boot");
}

#[test]
fn startup_filter_rules() {
    let ok = parse_filters(&["level=warn".to_string(), " query = disk full ".to_string(), "level= ERROR".to_string()]).unwrap();
    assert_eq!(ok.levels, vec![LogLevel::Warn, LogLevel::Error]);
    assert_eq!(ok.query.as_deref(), Some("disk full"));
    let s = parse_filters(&["search=abc".to_string()]).unwrap();
    assert_eq!(s.query.as_deref(), Some("abc"));
    assert!(parse_filters(&[]).unwrap().levels.is_empty());
}

#[test]
fn startup_filter_errors() {
    assert_eq!(parse_filters(&["level".to_string()]).err().unwrap().message, "invalid --filter 'level': expected key=value");
    assert_eq!(parse_filters(&["level=loud".to_string()]).err().unwrap().message, "invalid --filter 'level=loud': unknown level");
    assert_eq!(
        parse_filters(&["colour=red".to_string()]).err().unwrap().message,
        "invalid --filter 'colour=red': supported keys are level, query, search"
    );
    assert_eq!(
        parse_filters(&["level=info".to_string(), "x".to_string(), "y=1".to_string()]).err().unwrap().message,
        "invalid --filter 'x': expected key=value"
    );
    assert_eq!(invalid_filter("a", "b").err().unwrap().message, "invalid --filter 'a': b");
}

#[test]
fn scrolling_stays_within_list() {
    let mut v = LogsView::new();
    v.viewport_height = 10;
    assert_eq!(v.max_scroll(25), 15);
    assert_eq!(v.max_scroll(5), 0);
    v.step_down(100, 25);
    assert_eq!(v.scroll, 15);
    v.step_up(4);
    assert_eq!(v.scroll, 11);
    v.step_up(40);
    assert_eq!(v.scroll, 0);
    v.scroll = 20;
    v.clamp_scroll(25);
    assert_eq!(v.scroll, 15);
    v.handle_wheel(true, 100);
    assert_eq!(v.scroll, 18);
    v.handle_wheel(false, 100);
    assert_eq!(v.scroll, 15);
}

#[test]
fn following_keeps_last_page() {
    let mut v = LogsView::new();
    v.viewport_height = 10;
    v.scroll = 15;
    v.follow_append(25, 26);
    assert_eq!(v.scroll, 16);
    v.scroll = 3;
    v.follow_append(26, 27);
    assert_eq!(v.scroll, 3);
}

#[test]
fn viewer_keys() {
    let mut v = LogsView::new();
    v.viewport_height = 5;
    assert_eq!(v.handle_key(Key::Char('j'), 20), KeyOutcome::Done);
    assert_eq!(v.scroll, 1);
    assert_eq!(v.handle_key(Key::PageDown, 20), KeyOutcome::Done);
    assert_eq!(v.scroll, 6);
    assert_eq!(v.handle_key(Key::End, 20), KeyOutcome::Done);
    assert_eq!(v.scroll, 15);
    assert_eq!(v.handle_key(Key::Home, 20), KeyOutcome::Done);
    assert_eq!(v.scroll, 0);
    assert_eq!(v.handle_key(Key::Char('x'), 20), KeyOutcome::Export);
    assert_eq!(v.handle_key(Key::Char('e'), 20), KeyOutcome::Refilter);
    assert!(v.filters.levels.error);
    assert_eq!(v.handle_key(Key::Char('?'), 20), KeyOutcome::Done);
    assert!(v.help_visible);
    assert_eq!(v.handle_key(Key::Char('q'), 20), KeyOutcome::Done);
    assert!(v.help_visible);
    assert!(!v.should_quit);
    v.handle_key(Key::Esc, 20);
    assert!(!v.help_visible);
    v.handle_key(Key::Char('q'), 20);
    assert!(v.should_quit);
}

#[test]
fn blank_lines_are_skipped_but_counted() {
    let lines = vec!["first".to_string(), "   ".to_string(), "".to_string(), "fourth".to_string()];
    let out = numbered_lines(&lines);
    assert_eq!(out, vec![(1, "first".to_string()), (4, "fourth".to_string())]);
}

#[test]
fn followed_chunks_make_lines() {
    let mut pending: Vec<char> = Vec::new();
    assert_eq!(take_complete_line(&mut pending, "par"), None);
    assert_eq!(take_complete_line(&mut pending, "tial\r\n"), Some("partial".to_string()));
    assert!(pending.is_empty());
    assert_eq!(take_complete_line(&mut pending, "x\n\n"), Some("x".to_string()));
    assert_eq!(take_complete_line(&mut pending, "y\r"), None);
    assert_eq!(pending, vec!['y', '\r']);
}

use magma::screen::{empty_state, feature_header, footer, help_lines, shell_header};

#[test]
fn screen_texts() {
    assert_eq!(
        feature_header("app.log", 3, 10, 2, true),
        ("source: app.log".to_string(), "shown: 3/10  scroll: 2  mode: live".to_string())
    );
    assert_eq!(feature_header("stdin", 0, 0, 0, false).1, "shown: 0/0  scroll: 0  mode: static");
    assert_eq!(empty_state(true).0, "No log entries match the current filters.");
    assert_eq!(empty_state(false).1, "Pass a file path or pipe newline-delimited JSON into obsidian.");
    let f = footer("logs");
    assert_eq!(f[0], "");
    assert_eq!(f[1], "obsidian/logs  Nav: Up/Down j/k PgUp/PgDn Home/End");
    assert_eq!(shell_header("magma", "logs")[0], " MAGMA ");
    assert_eq!(shell_header("magma", "logs")[1], "LOGS workspace");
    let help = help_lines("magma", "logs", "out.log");
    assert_eq!(help.len(), 13);
    assert_eq!(help[0], "magma Help");
    assert_eq!(help[8], "Export: x writes filtered view to out.log");
}

use magma::screen::{sidebar_lines, SidebarStyle};

#[test]
fn sidebar_marks_the_active_feature() {
    let lines = sidebar_lines("magma", "logs");
    assert_eq!(lines.len(), 27);
    assert_eq!(lines[1], ("  MAGMA".to_string(), SidebarStyle::Title));
    assert_eq!(lines[5], ("    terminal".to_string(), SidebarStyle::Secondary));
    assert_eq!(lines[6], ("  \u{258e} logs".to_string(), SidebarStyle::Active));
    assert_eq!(lines[9], ("    mode logs".to_string(), SidebarStyle::Warning));
    assert_eq!(lines[18], ("    right logs".to_string(), SidebarStyle::Secondary));
    assert_eq!(lines[26].0, "    clear white edge");
    let other = sidebar_lines("x", "terminal");
    assert_eq!(other[5], ("  \u{258e} terminal".to_string(), SidebarStyle::Active));
    assert_eq!(other[6], ("    logs".to_string(), SidebarStyle::Secondary));
}
