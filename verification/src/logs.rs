//! The structured-log viewer's rules: log levels, the level filter, the
//! search/filter key handling, startup `--filter` rules, and the scroll
//! position of the list.
use vstd::prelude::*;

use crate::text::{
    append_chars, append_str, ascii_lower_of, chars_of, eq_str, join_sep, join_with, push_seq,
    seqs_of, split_once, split_once_of, string_of, to_ascii_lower, trim, trim_of, trim_end_of,
    ws_run_start,
};

verus! {

broadcast use vstd::string::group_string_axioms;

// ─── Levels ──────────────────────────────────────────────────────────

#[derive(Clone, Copy, Debug, PartialEq, Eq, Structural)]
pub enum LogLevel {
    Trace,
    Debug,
    Info,
    Warn,
    Error,
    Unknown,
}

/// The level a name stands for, in any ASCII case; `Unknown` for any
/// other text.
pub open spec fn level_of_text(text: Seq<char>) -> LogLevel {
    let t = ascii_lower_of(text);
    if t == "trace"@ {
        LogLevel::Trace
    } else if t == "debug"@ {
        LogLevel::Debug
    } else if t == "info"@ {
        LogLevel::Info
    } else if t == "warn"@ {
        LogLevel::Warn
    } else if t == "error"@ {
        LogLevel::Error
    } else {
        LogLevel::Unknown
    }
}

impl LogLevel {
    /// The level named by `text`, in any ASCII case.
    pub fn from_text(text: &str) -> (level: LogLevel)
        ensures
            level == level_of_text(text@),
    {
        let lower = to_ascii_lower(&chars_of(text));
        if eq_str(&lower, "trace") {
            LogLevel::Trace
        } else if eq_str(&lower, "debug") {
            LogLevel::Debug
        } else if eq_str(&lower, "info") {
            LogLevel::Info
        } else if eq_str(&lower, "warn") {
            LogLevel::Warn
        } else if eq_str(&lower, "error") {
            LogLevel::Error
        } else {
            LogLevel::Unknown
        }
    }
}

// ─── Level filter ────────────────────────────────────────────────────

/// Which levels the list is narrowed to; none chosen means every level
/// is shown.
#[derive(Clone, Copy, Debug, PartialEq, Eq, Structural)]
pub struct LevelFilters {
    pub trace: bool,
    pub debug: bool,
    pub info: bool,
    pub warn: bool,
    pub error: bool,
}

/// Whether `level` is one of the chosen levels (`Unknown` never is).
pub open spec fn level_on(f: LevelFilters, level: LogLevel) -> bool {
    match level {
        LogLevel::Trace => f.trace,
        LogLevel::Debug => f.debug,
        LogLevel::Info => f.info,
        LogLevel::Warn => f.warn,
        LogLevel::Error => f.error,
        LogLevel::Unknown => false,
    }
}

/// Whether any level is chosen.
pub open spec fn any_on(f: LevelFilters) -> bool {
    f.trace || f.debug || f.info || f.warn || f.error
}

/// Whether an entry of `level` passes the filter.
pub open spec fn level_passes(f: LevelFilters, level: LogLevel) -> bool {
    !any_on(f) || level_on(f, level)
}

/// The filter with `level` switched on or off, the others unchanged.
pub open spec fn with_level(f: LevelFilters, level: LogLevel, on: bool) -> LevelFilters {
    match level {
        LogLevel::Trace => LevelFilters { trace: on, ..f },
        LogLevel::Debug => LevelFilters { debug: on, ..f },
        LogLevel::Info => LevelFilters { info: on, ..f },
        LogLevel::Warn => LevelFilters { warn: on, ..f },
        LogLevel::Error => LevelFilters { error: on, ..f },
        LogLevel::Unknown => f,
    }
}

/// The filter with no level chosen.
pub open spec fn no_levels() -> LevelFilters {
    LevelFilters { trace: false, debug: false, info: false, warn: false, error: false }
}

/// The names of the chosen levels, from the most to the least verbose.
pub open spec fn active_names(f: LevelFilters) -> Seq<Seq<char>> {
    (if f.trace { seq!["trace"@] } else { Seq::empty() })
    + (if f.debug { seq!["debug"@] } else { Seq::empty() })
    + (if f.info { seq!["info"@] } else { Seq::empty() })
    + (if f.warn { seq!["warn"@] } else { Seq::empty() })
    + (if f.error { seq!["error"@] } else { Seq::empty() })
}

/// `all`, or the chosen level names joined by commas.
pub open spec fn summary_of(f: LevelFilters) -> Seq<char> {
    if !any_on(f) {
        "all"@
    } else {
        join_sep(active_names(f), ","@)
    }
}

/// The filter that `set_active_levels(levels)` leaves: exactly the known
/// levels of the list chosen.
pub open spec fn filters_of_levels(levels: Seq<LogLevel>) -> LevelFilters {
    LevelFilters {
        trace: levels.contains(LogLevel::Trace),
        debug: levels.contains(LogLevel::Debug),
        info: levels.contains(LogLevel::Info),
        warn: levels.contains(LogLevel::Warn),
        error: levels.contains(LogLevel::Error),
    }
}

impl LevelFilters {
    /// A filter with no level chosen.
    pub fn new() -> (f: LevelFilters)
        ensures
            f == no_levels(),
    {
        LevelFilters { trace: false, debug: false, info: false, warn: false, error: false }
    }

    /// Whether an entry of `level` passes: every level does while none is
    /// chosen, else only the chosen ones.
    pub fn matches(&self, level: LogLevel) -> (r: bool)
        ensures
            r == level_passes(*self, level),
    {
        if !self.any_active() {
            return true;
        }
        match level {
            LogLevel::Trace => self.trace,
            LogLevel::Debug => self.debug,
            LogLevel::Info => self.info,
            LogLevel::Warn => self.warn,
            LogLevel::Error => self.error,
            LogLevel::Unknown => false,
        }
    }

    /// Switches `level` on or off; `Unknown` changes nothing.
    pub fn toggle(&mut self, level: LogLevel)
        ensures
            *final(self) == with_level(*old(self), level, !level_on(*old(self), level)),
    {
        match level {
            LogLevel::Trace => self.trace = !self.trace,
            LogLevel::Debug => self.debug = !self.debug,
            LogLevel::Info => self.info = !self.info,
            LogLevel::Warn => self.warn = !self.warn,
            LogLevel::Error => self.error = !self.error,
            LogLevel::Unknown => {},
        }
    }

    /// Chooses exactly the known levels of `levels`.
    pub fn set_active_levels(&mut self, levels: &[LogLevel])
        ensures
            *final(self) == filters_of_levels(levels@),
    {
        self.clear();
        let mut i: usize = 0;
        while i < levels.len()
            invariant
                i <= levels.len(),
                *self == filters_of_levels(levels@.take(i as int)),
            decreases levels.len() - i,
        {
            let ghost before = levels@.take(i as int);
            let level = levels[i];
            assert(levels@.take(i + 1) =~= before.push(level));
            self.toggle_on(level);
            proof {
                let after = before.push(level);
                assert(after.contains(LogLevel::Trace) == (before.contains(LogLevel::Trace) || level == LogLevel::Trace)) by {
                    if before.contains(LogLevel::Trace) {
                        let k = choose|k: int| 0 <= k < before.len() && before[k] == LogLevel::Trace;
                        assert(after[k] == LogLevel::Trace);
                    }
                    if level == LogLevel::Trace {
                        assert(after[before.len() as int] == LogLevel::Trace);
                    }
                }
                assert(after.contains(LogLevel::Debug) == (before.contains(LogLevel::Debug) || level == LogLevel::Debug)) by {
                    if before.contains(LogLevel::Debug) {
                        let k = choose|k: int| 0 <= k < before.len() && before[k] == LogLevel::Debug;
                        assert(after[k] == LogLevel::Debug);
                    }
                    if level == LogLevel::Debug {
                        assert(after[before.len() as int] == LogLevel::Debug);
                    }
                }
                assert(after.contains(LogLevel::Info) == (before.contains(LogLevel::Info) || level == LogLevel::Info)) by {
                    if before.contains(LogLevel::Info) {
                        let k = choose|k: int| 0 <= k < before.len() && before[k] == LogLevel::Info;
                        assert(after[k] == LogLevel::Info);
                    }
                    if level == LogLevel::Info {
                        assert(after[before.len() as int] == LogLevel::Info);
                    }
                }
                assert(after.contains(LogLevel::Warn) == (before.contains(LogLevel::Warn) || level == LogLevel::Warn)) by {
                    if before.contains(LogLevel::Warn) {
                        let k = choose|k: int| 0 <= k < before.len() && before[k] == LogLevel::Warn;
                        assert(after[k] == LogLevel::Warn);
                    }
                    if level == LogLevel::Warn {
                        assert(after[before.len() as int] == LogLevel::Warn);
                    }
                }
                assert(after.contains(LogLevel::Error) == (before.contains(LogLevel::Error) || level == LogLevel::Error)) by {
                    if before.contains(LogLevel::Error) {
                        let k = choose|k: int| 0 <= k < before.len() && before[k] == LogLevel::Error;
                        assert(after[k] == LogLevel::Error);
                    }
                    if level == LogLevel::Error {
                        assert(after[before.len() as int] == LogLevel::Error);
                    }
                }
            }
            i += 1;
        }
        assert(levels@.take(levels@.len() as int) =~= levels@);
    }

    /// Chooses no level.
    pub fn clear(&mut self)
        ensures
            *final(self) == no_levels(),
    {
        self.trace = false;
        self.debug = false;
        self.info = false;
        self.warn = false;
        self.error = false;
    }

    /// `all`, or the chosen level names joined by commas.
    pub fn summary(&self) -> (s: String)
        ensures
            s@ == summary_of(*self),
    {
        if !self.any_active() {
            return "all".to_string();
        }
        let mut names: Vec<Vec<char>> = Vec::new();
        let ghost f = *self;
        assert(seqs_of(names@) =~= Seq::empty());
        if self.trace {
            push_seq(&mut names, chars_of("trace"));
        }
        assert(seqs_of(names@) =~= (if f.trace { seq!["trace"@] } else { Seq::empty() }));
        if self.debug {
            push_seq(&mut names, chars_of("debug"));
        }
        assert(seqs_of(names@) =~= (if f.trace { seq!["trace"@] } else { Seq::empty() })
            + (if f.debug { seq!["debug"@] } else { Seq::empty() }));
        if self.info {
            push_seq(&mut names, chars_of("info"));
        }
        assert(seqs_of(names@) =~= (if f.trace { seq!["trace"@] } else { Seq::empty() })
            + (if f.debug { seq!["debug"@] } else { Seq::empty() })
            + (if f.info { seq!["info"@] } else { Seq::empty() }));
        if self.warn {
            push_seq(&mut names, chars_of("warn"));
        }
        assert(seqs_of(names@) =~= (if f.trace { seq!["trace"@] } else { Seq::empty() })
            + (if f.debug { seq!["debug"@] } else { Seq::empty() })
            + (if f.info { seq!["info"@] } else { Seq::empty() })
            + (if f.warn { seq!["warn"@] } else { Seq::empty() }));
        if self.error {
            push_seq(&mut names, chars_of("error"));
        }
        assert(seqs_of(names@) =~= active_names(f));
        let joined = join_with(&names, ",");
        string_of(&joined)
    }

    /// Whether any level is chosen.
    pub fn any_active(&self) -> (r: bool)
        ensures
            r == any_on(*self),
    {
        self.trace || self.debug || self.info || self.warn || self.error
    }

    /// Switches `level` on; `Unknown` changes nothing.
    pub fn toggle_on(&mut self, level: LogLevel)
        ensures
            *final(self) == with_level(*old(self), level, true),
    {
        match level {
            LogLevel::Trace => self.trace = true,
            LogLevel::Debug => self.debug = true,
            LogLevel::Info => self.info = true,
            LogLevel::Warn => self.warn = true,
            LogLevel::Error => self.error = true,
            LogLevel::Unknown => {},
        }
    }
}

/// Toggling a level twice leaves the filter as it was.
pub proof fn law_toggle_twice(f: LevelFilters, level: LogLevel)
    ensures
        with_level(with_level(f, level, !level_on(f, level)), level, !level_on(
            with_level(f, level, !level_on(f, level)),
            level,
        )) == f,
{
}

/// After `set_active_levels(levels)`, an entry passes exactly when the
/// list names no known level or names the entry's level.
pub proof fn law_set_levels_pass(levels: Seq<LogLevel>, level: LogLevel)
    ensures
        level_passes(filters_of_levels(levels), level) <==> (
            !any_on(filters_of_levels(levels)) || (level != LogLevel::Unknown && levels.contains(level))),
{
}

/// A cleared filter lets every entry through.
pub proof fn law_cleared_passes_all(level: LogLevel)
    ensures
        level_passes(no_levels(), level),
{
}

// ─── Keys ────────────────────────────────────────────────────────────

/// The keys the log viewer tells apart.
#[derive(Clone, Copy, Debug, PartialEq, Eq, Structural)]
pub enum Key {
    Char(char),
    Enter,
    Esc,
    Backspace,
    Up,
    Down,
    PageUp,
    PageDown,
    Home,
    End,
    Other,
}

// ─── Search and level state ──────────────────────────────────────────

#[derive(Clone, Copy, Debug, PartialEq, Eq, Structural)]
pub enum InputMode {
    Normal,
    Search,
}

/// The search query, whether keys go to the query, and the level filter.
pub struct FilterState {
    pub query: Vec<char>,
    pub mode: InputMode,
    pub levels: LevelFilters,
}

#[verifier::ext_equal]
pub struct FilterView {
    pub query: Seq<char>,
    pub mode: InputMode,
    pub levels: LevelFilters,
}

impl View for FilterState {
    type V = FilterView;

    open spec fn view(&self) -> FilterView {
        FilterView { query: self.query@, mode: self.mode, levels: self.levels }
    }
}

/// The empty query, in navigation mode, with no level chosen.
pub open spec fn cleared_filter() -> FilterView {
    FilterView { query: Seq::empty(), mode: InputMode::Normal, levels: no_levels() }
}

/// A key in navigation mode: `/` starts a search, `c` clears, and
/// `t d i w e` toggle a level; the flag says whether the key was taken.
pub open spec fn normal_key(st: FilterView, key: Key) -> (FilterView, bool) {
    match key {
        Key::Char(c) => {
            if c == '/' {
                (FilterView { mode: InputMode::Search, ..st }, true)
            } else if c == 'c' {
                (cleared_filter(), true)
            } else if c == 't' {
                (FilterView { levels: with_level(st.levels, LogLevel::Trace, !st.levels.trace), ..st }, true)
            } else if c == 'd' {
                (FilterView { levels: with_level(st.levels, LogLevel::Debug, !st.levels.debug), ..st }, true)
            } else if c == 'i' {
                (FilterView { levels: with_level(st.levels, LogLevel::Info, !st.levels.info), ..st }, true)
            } else if c == 'w' {
                (FilterView { levels: with_level(st.levels, LogLevel::Warn, !st.levels.warn), ..st }, true)
            } else if c == 'e' {
                (FilterView { levels: with_level(st.levels, LogLevel::Error, !st.levels.error), ..st }, true)
            } else {
                (st, false)
            }
        },
        _ => (st, false),
    }
}

/// A key in search mode: Enter or Esc end the search, Backspace drops the
/// last character of the query, a character is added to it.
pub open spec fn search_key(st: FilterView, key: Key) -> (FilterView, bool) {
    match key {
        Key::Enter => (FilterView { mode: InputMode::Normal, ..st }, true),
        Key::Esc => (FilterView { mode: InputMode::Normal, ..st }, true),
        Key::Backspace => (FilterView {
            query: if st.query.len() > 0 { st.query.drop_last() } else { st.query },
            ..st
        }, true),
        Key::Char(c) => (FilterView { query: st.query.push(c), ..st }, true),
        _ => (st, false),
    }
}

/// What a key does to the filter state, in either mode.
pub open spec fn filter_key(st: FilterView, key: Key) -> (FilterView, bool) {
    match st.mode {
        InputMode::Search => search_key(st, key),
        InputMode::Normal => normal_key(st, key),
    }
}

/// The query, or `<none>` while it is empty.
pub open spec fn query_text_of(q: Seq<char>) -> Seq<char> {
    if q.len() == 0 {
        "<none>"@
    } else {
        q
    }
}

/// `mode: nav|search  query: ..  levels: ..`
pub open spec fn filter_status_of(st: FilterView) -> Seq<char> {
    "mode: "@ + (match st.mode {
        InputMode::Normal => "nav"@,
        InputMode::Search => "search"@,
    }) + "  query: "@ + query_text_of(st.query) + "  levels: "@ + summary_of(st.levels)
}

impl FilterState {
    /// An empty query in navigation mode, with no level chosen.
    pub fn new() -> (st: FilterState)
        ensures
            st@ == cleared_filter(),
    {
        FilterState { query: Vec::new(), mode: InputMode::Normal, levels: LevelFilters::new() }
    }

    /// Whether an entry of `level` is shown, given whether its text
    /// matches the query.
    pub fn matches(&self, level: LogLevel, query_matches: bool) -> (r: bool)
        ensures
            r == (level_passes(self.levels, level) && query_matches),
    {
        self.levels.matches(level) && query_matches
    }

    /// Handles a key; returns whether the filter state took it.
    pub fn handle_key(&mut self, code: Key) -> (taken: bool)
        ensures
            (final(self)@, taken) == filter_key(old(self)@, code),
    {
        match self.mode {
            InputMode::Search => self.handle_search_key(code),
            InputMode::Normal => self.handle_normal_key(code),
        }
    }

    /// `mode: nav|search  query: ..  levels: ..`
    pub fn status_line(&self) -> (s: String)
        ensures
            s@ == filter_status_of(self@),
    {
        let mut out = chars_of("mode: ");
        match self.mode {
            InputMode::Normal => append_str(&mut out, "nav"),
            InputMode::Search => append_str(&mut out, "search"),
        }
        append_str(&mut out, "  query: ");
        let q = self.query_text();
        append_str(&mut out, q.as_str());
        append_str(&mut out, "  levels: ");
        let summary = self.levels.summary();
        append_str(&mut out, summary.as_str());
        string_of(&out)
    }

    /// Replaces the query and returns to navigation mode.
    pub fn set_query(&mut self, query: String)
        ensures
            final(self)@ == (FilterView { query: query@, mode: InputMode::Normal, levels: old(self).levels }),
    {
        self.query = chars_of(query.as_str());
        self.mode = InputMode::Normal;
    }

    /// Chooses exactly the known levels of `levels`.
    pub fn set_levels(&mut self, levels: &[LogLevel])
        ensures
            final(self)@ == (FilterView { levels: filters_of_levels(levels@), ..old(self)@ }),
    {
        self.levels.set_active_levels(levels);
    }

    fn handle_normal_key(&mut self, code: Key) -> (taken: bool)
        requires
            old(self).mode == InputMode::Normal,
        ensures
            (final(self)@, taken) == normal_key(old(self)@, code),
    {
        match code {
            Key::Char(c) => {
                if c == '/' {
                    self.mode = InputMode::Search;
                    true
                } else if c == 'c' {
                    self.clear();
                    true
                } else if c == 't' {
                    self.toggle(LogLevel::Trace)
                } else if c == 'd' {
                    self.toggle(LogLevel::Debug)
                } else if c == 'i' {
                    self.toggle(LogLevel::Info)
                } else if c == 'w' {
                    self.toggle(LogLevel::Warn)
                } else if c == 'e' {
                    self.toggle(LogLevel::Error)
                } else {
                    false
                }
            },
            _ => false,
        }
    }

    fn handle_search_key(&mut self, code: Key) -> (taken: bool)
        requires
            old(self).mode == InputMode::Search,
        ensures
            (final(self)@, taken) == search_key(old(self)@, code),
    {
        match code {
            Key::Enter | Key::Esc => {
                self.mode = InputMode::Normal;
                true
            },
            Key::Backspace => {
                self.query.pop();
                true
            },
            Key::Char(character) => {
                self.query.push(character);
                true
            },
            _ => false,
        }
    }

    fn toggle(&mut self, level: LogLevel) -> (taken: bool)
        ensures
            taken,
            final(self)@ == (FilterView { levels: with_level(old(self).levels, level, !level_on(old(self).levels, level)), ..old(self)@ }),
    {
        self.levels.toggle(level);
        true
    }

    fn clear(&mut self)
        ensures
            final(self)@ == cleared_filter(),
    {
        self.query.clear();
        self.levels.clear();
        self.mode = InputMode::Normal;
    }

    /// The query, or `<none>` while it is empty.
    pub fn query_text(&self) -> (s: String)
        ensures
            s@ == query_text_of(self.query@),
    {
        if self.query.len() == 0 {
            "<none>".to_string()
        } else {
            string_of(&self.query)
        }
    }
}

// ─── Startup filter rules ────────────────────────────────────────────

/// What `--filter` rules ask for at startup.
pub struct StartupFilter {
    pub query: Option<String>,
    pub levels: Vec<LogLevel>,
}

#[verifier::ext_equal]
pub struct StartupFilterView {
    pub query: Option<Seq<char>>,
    pub levels: Seq<LogLevel>,
}

impl View for StartupFilter {
    type V = StartupFilterView;

    open spec fn view(&self) -> StartupFilterView {
        StartupFilterView {
            query: match self.query {
                Some(q) => Some(q@),
                None => None,
            },
            levels: self.levels@,
        }
    }
}

/// The message for a rejected rule.
pub open spec fn invalid_filter_of(filter: Seq<char>, message: Seq<char>) -> Seq<char> {
    "invalid --filter '"@ + filter + "': "@ + message
}

/// One `key=value` rule: `level=<name>` adds a level, `query=` or
/// `search=` sets the query (trimmed); anything else is refused.
pub open spec fn filter_rule_step(
    acc: Result<StartupFilterView, Seq<char>>,
    filter: Seq<char>,
) -> Result<StartupFilterView, Seq<char>> {
    match acc {
        Err(e) => Err(e),
        Ok(st) => match split_once_of(filter, '=') {
            None => Err(invalid_filter_of(filter, "expected key=value"@)),
            Some((k, v)) => {
                let key = trim_of(k);
                if key == "level"@ {
                    let level = level_of_text(trim_of(v));
                    if level == LogLevel::Unknown {
                        Err(invalid_filter_of(filter, "unknown level"@))
                    } else {
                        Ok(StartupFilterView { levels: st.levels.push(level), ..st })
                    }
                } else if key == "query"@ || key == "search"@ {
                    Ok(StartupFilterView { query: Some(trim_of(v)), ..st })
                } else {
                    Err(invalid_filter_of(filter, "supported keys are level, query, search"@))
                }
            },
        },
    }
}

pub open spec fn filter_rule_stepper() -> spec_fn(Result<StartupFilterView, Seq<char>>, Seq<char>) -> Result<StartupFilterView, Seq<char>> {
    |acc: Result<StartupFilterView, Seq<char>>, f: Seq<char>| filter_rule_step(acc, f)
}

/// The startup filter that the rules give, or the message for the first
/// rule refused.
pub open spec fn startup_filter_of(filters: Seq<Seq<char>>) -> Result<StartupFilterView, Seq<char>> {
    filters.fold_left(
        Ok(StartupFilterView { query: None, levels: Seq::empty() }),
        filter_rule_stepper(),
    )
}

pub open spec fn strings_view(v: Seq<String>) -> Seq<Seq<char>> {
    Seq::new(v.len(), |i: int| v[i]@)
}

proof fn lemma_rule_error_sticks(fs: Seq<Seq<char>>, k: int, j: int, e: Seq<char>)
    requires
        0 <= k <= j <= fs.len(),
        fs.take(k).fold_left(
            Ok(StartupFilterView { query: None, levels: Seq::empty() }),
            filter_rule_stepper(),
        ) == Err::<StartupFilterView, Seq<char>>(e),
    ensures
        fs.take(j).fold_left(
            Ok(StartupFilterView { query: None, levels: Seq::empty() }),
            filter_rule_stepper(),
        ) == Err::<StartupFilterView, Seq<char>>(e),
    decreases j - k,
{
    if j > k {
        lemma_rule_error_sticks(fs, k, j - 1, e);
        assert(fs.take(j).drop_last() =~= fs.take(j - 1));
    }
}

/// A refused command-line rule: an error of the invalid-input kind
/// (`std::io::ErrorKind::InvalidInput` where the program reports it), with
/// its message.
#[derive(Debug)]
pub struct InvalidInputError {
    pub message: String,
}

/// The message for a rejected rule.
pub fn invalid_filter(filter: &str, message: &str) -> (r: Result<StartupFilter, InvalidInputError>)
    ensures
        r matches Err(e) && e.message@ == invalid_filter_of(filter@, message@),
{
    let mut out = chars_of("invalid --filter '");
    append_str(&mut out, filter);
    append_str(&mut out, "': ");
    append_str(&mut out, message);
    Err(InvalidInputError { message: string_of(&out) })
}

/// Reads the `--filter` rules, in order; the first rule refused ends the
/// reading with an invalid-input error and its message.
pub fn parse_filters(filters: &[String]) -> (r: Result<StartupFilter, InvalidInputError>)
    ensures
        match r {
            Ok(st) => startup_filter_of(strings_view(filters@)) == Ok::<StartupFilterView, Seq<char>>(st@),
            Err(e) => startup_filter_of(strings_view(filters@)) == Err::<StartupFilterView, Seq<char>>(e.message@),
        },
{
    let ghost fs = strings_view(filters@);
    let ghost start = StartupFilterView { query: None, levels: Seq::empty() };
    let mut startup = StartupFilter { query: None, levels: Vec::new() };
    let mut i: usize = 0;
    while i < filters.len()
        invariant
            fs == strings_view(filters@),
            start == (StartupFilterView { query: None, levels: Seq::empty() }),
            i <= filters.len(),
            fs.take(i as int).fold_left(Ok(start), filter_rule_stepper()) == Ok::<StartupFilterView, Seq<char>>(startup@),
        decreases filters.len() - i,
    {
        let filter = &filters[i];
        let ghost before = startup@;
        assert(fs[i as int] == filter@);
        assert(fs.take(i + 1).drop_last() =~= fs.take(i as int));
        assert(fs.take(i + 1).fold_left(Ok(start), filter_rule_stepper()) == filter_rule_step(
            Ok(before),
            filter@,
        ));
        let chars = chars_of(filter.as_str());
        let r = match split_once(&chars, '=') {
            None => {
                invalid_filter(filter.as_str(), "expected key=value")
            },
            Some((k, v)) => {
                let key = trim(&k);
                if eq_str(&key, "level") {
                    let value = string_of(&trim(&v));
                    let level = LogLevel::from_text(value.as_str());
                    if level == LogLevel::Unknown {
                        invalid_filter(filter.as_str(), "unknown level")
                    } else {
                        startup.levels.push(level);
                        assert(startup@ =~= (StartupFilterView { levels: before.levels.push(level), ..before }));
                        i += 1;
                        continue;
                    }
                } else if eq_str(&key, "query") || eq_str(&key, "search") {
                    startup.query = Some(string_of(&trim(&v)));
                    assert(startup@ =~= (StartupFilterView { query: Some(trim_of(v@)), ..before }));
                    i += 1;
                    continue;
                } else {
                    invalid_filter(filter.as_str(), "supported keys are level, query, search")
                }
            },
        };
        proof {
            lemma_rule_error_sticks(fs, i + 1, fs.len() as int, r->Err_0.message@);
            assert(fs.take(fs.len() as int) =~= fs);
        }
        return r;
    }
    assert(fs.take(fs.len() as int) =~= fs);
    Ok(startup)
}

// ─── Scrolling the list ──────────────────────────────────────────────

/// What the caller does after a key: nothing more, re-count the shown
/// entries and clamp the scroll (`Refilter`), or export them.
#[derive(Clone, Copy, Debug, PartialEq, Eq, Structural)]
pub enum KeyOutcome {
    Done,
    Refilter,
    Export,
}

/// The viewer's scroll position, page height, help panel, quit flag and
/// filter state.
pub struct LogsView {
    pub scroll: usize,
    pub viewport_height: usize,
    pub help_visible: bool,
    pub should_quit: bool,
    pub filters: FilterState,
}

#[verifier::ext_equal]
pub struct LogsModel {
    pub scroll: int,
    pub viewport_height: int,
    pub help_visible: bool,
    pub should_quit: bool,
    pub filters: FilterView,
}

impl View for LogsView {
    type V = LogsModel;

    open spec fn view(&self) -> LogsModel {
        LogsModel {
            scroll: self.scroll as int,
            viewport_height: self.viewport_height as int,
            help_visible: self.help_visible,
            should_quit: self.should_quit,
            filters: self.filters@,
        }
    }
}

/// The last scroll position at which a page of `height` rows is still
/// full, for `shown` entries.
pub open spec fn max_scroll_of(shown: int, height: int) -> int {
    if shown > height {
        shown - height
    } else {
        0
    }
}

/// `scroll - amount`, stopping at zero.
pub open spec fn scroll_up_of(scroll: int, amount: int) -> int {
    if scroll > amount {
        scroll - amount
    } else {
        0
    }
}

/// `scroll + amount`, stopping at the last full page.
pub open spec fn scroll_down_of(scroll: int, amount: int, shown: int, height: int) -> int {
    let m = max_scroll_of(shown, height);
    if scroll + amount < m {
        scroll + amount
    } else {
        m
    }
}

/// What a key does to the viewer while `shown` entries pass the filter.
pub open spec fn view_key(m: LogsModel, key: Key, shown: int) -> (LogsModel, KeyOutcome) {
    if m.help_visible {
        (LogsModel { help_visible: !(key == Key::Esc || key == Key::Char('?')), ..m }, KeyOutcome::Done)
    } else if filter_key(m.filters, key).1 {
        (LogsModel { filters: filter_key(m.filters, key).0, ..m }, KeyOutcome::Refilter)
    } else {
        let h = m.viewport_height;
        match key {
            Key::Char(c) => {
                if c == 'q' {
                    (LogsModel { should_quit: true, ..m }, KeyOutcome::Done)
                } else if c == '?' {
                    (LogsModel { help_visible: true, ..m }, KeyOutcome::Done)
                } else if c == 'x' {
                    (m, KeyOutcome::Export)
                } else if c == 'j' {
                    (LogsModel { scroll: scroll_down_of(m.scroll, 1, shown, h), ..m }, KeyOutcome::Done)
                } else if c == 'k' {
                    (LogsModel { scroll: scroll_up_of(m.scroll, 1), ..m }, KeyOutcome::Done)
                } else {
                    (m, KeyOutcome::Done)
                }
            },
            Key::Esc => (LogsModel { should_quit: true, ..m }, KeyOutcome::Done),
            Key::Down => (LogsModel { scroll: scroll_down_of(m.scroll, 1, shown, h), ..m }, KeyOutcome::Done),
            Key::Up => (LogsModel { scroll: scroll_up_of(m.scroll, 1), ..m }, KeyOutcome::Done),
            Key::PageDown => (LogsModel { scroll: scroll_down_of(m.scroll, h, shown, h), ..m }, KeyOutcome::Done),
            Key::PageUp => (LogsModel { scroll: scroll_up_of(m.scroll, h), ..m }, KeyOutcome::Done),
            Key::Home => (LogsModel { scroll: 0, ..m }, KeyOutcome::Done),
            Key::End => (LogsModel { scroll: max_scroll_of(shown, h), ..m }, KeyOutcome::Done),
            _ => (m, KeyOutcome::Done),
        }
    }
}

/// Moving through the list while no help is shown: Up and Down move one
/// row, PageUp and PageDown one viewport height, Home to the top and End to
/// the last full page; moving up stops at the top and moving down at the
/// last full page. Nothing else changes, and the key is done.
pub proof fn law_navigation_keys(m: LogsModel, shown: int)
    requires
        !m.help_visible,
        m.scroll >= 0,
        m.viewport_height >= 0,
    ensures
        ({
            let h = m.viewport_height;
            let last = if shown > h { shown - h } else { 0 };
            let up = |n: int| if m.scroll >= n { m.scroll - n } else { 0 };
            let down = |n: int| if m.scroll + n <= last { m.scroll + n } else { last };
            &&& view_key(m, Key::PageUp, shown) == (LogsModel { scroll: up(h), ..m }, KeyOutcome::Done)
            &&& view_key(m, Key::Up, shown) == (LogsModel { scroll: up(1), ..m }, KeyOutcome::Done)
            &&& view_key(m, Key::PageDown, shown) == (LogsModel { scroll: down(h), ..m }, KeyOutcome::Done)
            &&& view_key(m, Key::Down, shown) == (LogsModel { scroll: down(1), ..m }, KeyOutcome::Done)
            &&& view_key(m, Key::Home, shown) == (LogsModel { scroll: 0, ..m }, KeyOutcome::Done)
            &&& view_key(m, Key::End, shown) == (LogsModel { scroll: last, ..m }, KeyOutcome::Done)
        }),
{
}

impl LogsView {
    /// The viewer at the top of the list, one row high, with an empty
    /// filter.
    pub fn new() -> (v: LogsView)
        ensures
            v@ == (LogsModel {
                scroll: 0,
                viewport_height: 1,
                help_visible: false,
                should_quit: false,
                filters: cleared_filter(),
            }),
    {
        LogsView {
            scroll: 0,
            viewport_height: 1,
            help_visible: false,
            should_quit: false,
            filters: FilterState::new(),
        }
    }

    /// The last scroll position at which the page is still full.
    pub fn max_scroll(&self, shown: usize) -> (r: usize)
        ensures
            r == max_scroll_of(shown as int, self.viewport_height as int),
    {
        shown.saturating_sub(self.viewport_height)
    }

    /// Moves down by `amount` rows, stopping at the last full page.
    pub fn step_down(&mut self, amount: usize, shown: usize)
        requires
            old(self).scroll + amount <= usize::MAX,
        ensures
            final(self)@ == (LogsModel {
                scroll: scroll_down_of(old(self).scroll as int, amount as int, shown as int, old(self).viewport_height as int),
                ..old(self)@
            }),
    {
        let m = self.max_scroll(shown);
        let next = self.scroll + amount;
        self.scroll = if next < m {
            next
        } else {
            m
        };
    }

    /// Moves up by `amount` rows, stopping at the top.
    pub fn step_up(&mut self, amount: usize)
        ensures
            final(self)@ == (LogsModel { scroll: scroll_up_of(old(self).scroll as int, amount as int), ..old(self)@ }),
    {
        self.scroll = self.scroll.saturating_sub(amount);
    }

    /// Brings the scroll position back onto the last full page.
    pub fn clamp_scroll(&mut self, shown: usize)
        ensures
            final(self)@ == (LogsModel {
                scroll: if old(self).scroll as int <= max_scroll_of(shown as int, old(self).viewport_height as int) {
                    old(self).scroll as int
                } else {
                    max_scroll_of(shown as int, old(self).viewport_height as int)
                },
                ..old(self)@
            }),
            final(self).scroll <= max_scroll_of(shown as int, final(self).viewport_height as int),
    {
        let m = self.max_scroll(shown);
        if self.scroll > m {
            self.scroll = m;
        }
    }

    /// After an entry was added: a view that was at the last page stays
    /// at the (new) last page.
    pub fn follow_append(&mut self, shown_before: usize, shown_after: usize)
        ensures
            final(self)@ == (LogsModel {
                scroll: if old(self).scroll as int >= max_scroll_of(shown_before as int, old(self).viewport_height as int) {
                    max_scroll_of(shown_after as int, old(self).viewport_height as int)
                } else {
                    old(self).scroll as int
                },
                ..old(self)@
            }),
    {
        let stay_at_bottom = self.scroll >= self.max_scroll(shown_before);
        if stay_at_bottom {
            self.scroll = self.max_scroll(shown_after);
        }
    }

    /// The mouse wheel: three rows down or up.
    pub fn handle_wheel(&mut self, down: bool, shown: usize)
        requires
            old(self).scroll + 3 <= usize::MAX,
        ensures
            final(self)@ == (LogsModel {
                scroll: if down {
                    scroll_down_of(old(self).scroll as int, 3, shown as int, old(self).viewport_height as int)
                } else {
                    scroll_up_of(old(self).scroll as int, 3)
                },
                ..old(self)@
            }),
    {
        if down {
            self.step_down(3, shown);
        } else {
            self.step_up(3);
        }
    }

    /// Handles a key while `shown` entries pass the filter. A scroll
    /// position on or above the last full page stays there unless the
    /// filter changed.
    pub fn handle_key(&mut self, key: Key, shown: usize) -> (outcome: KeyOutcome)
        requires
            old(self).scroll < usize::MAX,
            old(self).scroll + old(self).viewport_height <= usize::MAX,
        ensures
            (final(self)@, outcome) == view_key(old(self)@, key, shown as int),
            outcome != KeyOutcome::Refilter && old(self).scroll <= max_scroll_of(shown as int, old(self).viewport_height as int)
                ==> final(self).scroll <= max_scroll_of(shown as int, final(self).viewport_height as int),
    {
        if self.help_visible {
            if key == Key::Esc || key == Key::Char('?') {
                self.help_visible = false;
            }
            return KeyOutcome::Done;
        }
        if self.filters.handle_key(key) {
            return KeyOutcome::Refilter;
        }
        let height = self.viewport_height;
        match key {
            Key::Char(c) => {
                if c == 'q' {
                    self.should_quit = true;
                } else if c == '?' {
                    self.help_visible = true;
                } else if c == 'x' {
                    return KeyOutcome::Export;
                } else if c == 'j' {
                    self.step_down(1, shown);
                } else if c == 'k' {
                    self.step_up(1);
                }
            },
            Key::Esc => self.should_quit = true,
            Key::Down => self.step_down(1, shown),
            Key::Up => self.step_up(1),
            Key::PageDown => self.step_down(height, shown),
            Key::PageUp => self.step_up(height),
            Key::Home => self.scroll = 0,
            Key::End => self.scroll = self.max_scroll(shown),
            _ => {},
        }
        KeyOutcome::Done
    }
}

// ─── Reading entries ─────────────────────────────────────────────────

/// The non-blank lines of an input, each with its 1-based line number.
pub open spec fn numbered_of(lines: Seq<Seq<char>>) -> Seq<(int, Seq<char>)>
    decreases lines.len(),
{
    if lines.len() == 0 {
        Seq::empty()
    } else {
        let rest = numbered_of(lines.drop_last());
        if trim_of(lines.last()).len() == 0 {
            rest
        } else {
            rest.push((lines.len() as int, lines.last()))
        }
    }
}

pub open spec fn numbered_view(v: Seq<(usize, String)>) -> Seq<(int, Seq<char>)> {
    Seq::new(v.len(), |i: int| (v[i].0 as int, v[i].1@))
}

/// Keeps the non-blank lines, each with its 1-based line number.
pub fn numbered_lines(lines: &Vec<String>) -> (out: Vec<(usize, String)>)
    ensures
        numbered_view(out@) == numbered_of(strings_view(lines@)),
{
    let ghost ls = strings_view(lines@);
    let mut out: Vec<(usize, String)> = Vec::new();
    let mut i: usize = 0;
    while i < lines.len()
        invariant
            ls == strings_view(lines@),
            i <= lines.len(),
            numbered_view(out@) == numbered_of(ls.take(i as int)),
        decreases lines.len() - i,
    {
        let line = &lines[i];
        assert(ls.take(i + 1).drop_last() =~= ls.take(i as int));
        assert(ls.take(i + 1).last() == line@);
        let t = trim(&chars_of(line.as_str()));
        if t.len() > 0 {
            let ghost before = numbered_view(out@);
            out.push((i + 1, string_of(&chars_of(line.as_str()))));
            assert(numbered_view(out@) =~= before.push(((i + 1) as int, line@)));
        }
        i += 1;
    }
    assert(ls.take(ls.len() as int) =~= ls);
    out
}

/// Position before the run of `\n` and `\r` that ends at `j`.
pub open spec fn eol_run_start(s: Seq<char>, j: int) -> int
    decreases j,
{
    if 0 < j <= s.len() && (s[j - 1] == '\n' || s[j - 1] == '\r') {
        eol_run_start(s, j - 1)
    } else {
        j
    }
}

/// Adds a chunk read from a followed file to the pending text; once the
/// pending text ends a line, hands out that line (without its line
/// ending) and starts over.
pub fn take_complete_line(pending: &mut Vec<char>, chunk: &str) -> (line: Option<String>)
    ensures
        ({
            let joined = old(pending)@ + chunk@;
            if joined.len() > 0 && joined.last() == '\n' {
                &&& line matches Some(l) && l@ == joined.take(eol_run_start(joined, joined.len() as int))
                &&& final(pending)@.len() == 0
            } else {
                &&& line is None
                &&& final(pending)@ == joined
            }
        }),
{
    append_str(pending, chunk);
    if pending.len() == 0 || pending[pending.len() - 1] != '\n' {
        return None;
    }
    let mut end = pending.len();
    while end > 0 && (pending[end - 1] == '\n' || pending[end - 1] == '\r')
        invariant
            end <= pending.len(),
            eol_run_start(pending@, end as int) == eol_run_start(pending@, pending@.len() as int),
        decreases end,
    {
        end -= 1;
    }
    let mut text: Vec<char> = Vec::new();
    let mut i: usize = 0;
    while i < end
        invariant
            end <= pending.len(),
            i <= end,
            text@ == pending@.take(i as int),
        decreases end - i,
    {
        text.push(pending[i]);
        assert(pending@.take(i + 1) =~= pending@.take(i as int).push(pending@[i as int]));
        i += 1;
    }
    pending.clear();
    Some(string_of(&text))
}

} // verus!
