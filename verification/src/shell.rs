//! The shell around the panes: the name of the running feature, how the
//! terminal's shell is started, moving between sessions, tabs and files,
//! and whether the web view's sandbox can be kept.
use vstd::prelude::*;
use crate::agent::PaneType;
use crate::runtime::{effect_view, EffectView, UiEffect};

use crate::files::{FileCategory, to_lowercase, unicode_lower};
use crate::text::{chars_of, ends_with, has_infix, has_suffix, contains_chars, decimal_digits, push_decimal, append_str, string_of, trim_of};

verus! {

broadcast use vstd::string::group_string_axioms;

/// Which application and feature the terminal interface shows.
#[derive(Clone, Copy)]
pub struct ShellContext {
    pub app_name: &'static str,
    pub feature_name: &'static str,
}

impl ShellContext {
    /// The log viewer of magma.
    pub fn logs() -> (c: ShellContext)
        ensures
            c.app_name@ == "magma"@,
            c.feature_name@ == "logs"@,
    {
        ShellContext { app_name: "magma", feature_name: "logs" }
    }

    pub fn app_name(self) -> (s: &'static str)
        ensures
            s == self.app_name,
    {
        self.app_name
    }

    pub fn feature_name(self) -> (s: &'static str)
        ensures
            s == self.feature_name,
    {
        self.feature_name
    }
}

pub open spec fn strings_view(v: Seq<String>) -> Seq<Seq<char>> {
    Seq::new(v.len(), |i: int| v[i]@)
}

/// How the terminal's shell is started: bash with a private rc file
/// (where one could be written) as a login-free interactive shell, any
/// other shell as a plain interactive one.
pub open spec fn shell_args_of(shell: Seq<char>, rc_path: Option<Seq<char>>) -> Seq<Seq<char>> {
    if has_suffix(shell, "bash"@) && rc_path is Some {
        seq![shell, "--noprofile"@, "--rcfile"@, rc_path->0, "-i"@]
    } else {
        seq![shell, "-i"@]
    }
}

fn push_string(v: &mut Vec<String>, s: String)
    ensures
        strings_view(final(v)@) == strings_view(old(v)@).push(s@),
{
    let ghost sv = s@;
    v.push(s);
    assert(strings_view(v@) =~= strings_view(old(v)@).push(sv));
}

/// The command line the terminal's shell is started with; `rc_path` is
/// the private rc file, where it could be written.
pub fn shell_args(shell: &str, rc_path: Option<String>) -> (v: Vec<String>)
    ensures
        strings_view(v@) == shell_args_of(shell@, match rc_path {
            Some(p) => Some(p@),
            None => None,
        }),
{
    let mut v: Vec<String> = Vec::new();
    let wants_rc = ends_with(&chars_of(shell), "bash");
    push_string(&mut v, shell.to_string());
    if wants_rc {
        match rc_path {
            Some(p) => {
                push_string(&mut v, "--noprofile".to_string());
                push_string(&mut v, "--rcfile".to_string());
                push_string(&mut v, p);
                push_string(&mut v, "-i".to_string());
                return v;
            },
            None => {},
        }
    }
    push_string(&mut v, "-i".to_string());
    v
}

/// The rc file bash reads: the user's `.bashrc`, then an empty prompt.
pub fn rc_content() -> (s: &'static str)
    ensures
        s@ == "\nif [ -f ~/.bashrc ]; then\n    source ~/.bashrc\nfi\nexport PS1=\"\"\nexport PROMPT_COMMAND=\"\"\nclear\n"@,
{
    "\nif [ -f ~/.bashrc ]; then\n    source ~/.bashrc\nfi\nexport PS1=\"\"\nexport PROMPT_COMMAND=\"\"\nclear\n"
}

// ─── Moving between sessions, tabs and files ─────────────────────────

/// The session after the active one, going round; none with fewer than
/// two sessions.
pub fn next_session(active: usize, count: usize) -> (r: Option<usize>)
    requires
        active < usize::MAX,
    ensures
        r == (if count <= 1 { None } else { Some(((active + 1) % (count as int)) as usize) }),
{
    if count <= 1 {
        return None;
    }
    Some((active + 1) % count)
}

/// The session before the active one, going round; none with fewer than
/// two sessions.
pub fn previous_session(active: usize, count: usize) -> (r: Option<usize>)
    ensures
        r == (if count <= 1 { None } else if active == 0 { Some((count - 1) as usize) } else { Some((active - 1) as usize) }),
{
    if count <= 1 {
        return None;
    }
    if active == 0 {
        Some(count - 1)
    } else {
        Some(active - 1)
    }
}

/// Going to the next session and back returns to the session one
/// started from.
pub proof fn law_next_then_previous(active: int, count: int)
    requires
        0 <= active < count,
        count > 1,
    ensures
        ({
            let next = (active + 1) % count;
            (if next == 0 { count - 1 } else { next - 1 }) == active
        }),
{
    if active + 1 < count {
        vstd::arithmetic::div_mod::lemma_small_mod((active + 1) as nat, count as nat);
    } else {
        vstd::arithmetic::div_mod::lemma_mod_self_0(count);
    }
}

/// The row the switcher selects after moving by `delta` from `current`:
/// kept on the list.
pub fn moved_selection(current: i32, delta: i32, rows: usize) -> (r: Option<i32>)
    requires
        rows <= i32::MAX,
        -0x3FFF_FFFF <= current <= 0x3FFF_FFFF,
        -0x3FFF_FFFF <= delta <= 0x3FFF_FFFF,
    ensures
        rows == 0 ==> r is None,
        rows > 0 ==> r == Some(if current + delta < 0 {
            0i32
        } else if current + delta > rows - 1 {
            (rows - 1) as i32
        } else {
            (current + delta) as i32
        }),
{
    if rows == 0 {
        return None;
    }
    let next = current + delta;
    let last = rows as i32 - 1;
    Some(if next < 0 {
        0
    } else if next > last {
        last
    } else {
        next
    })
}

/// The files shown for a category filter: all of them for `All`, else
/// those of that category (their positions, in order).
pub open spec fn visible_of(categories: Seq<FileCategory>, active: FileCategory) -> Seq<int>
    decreases categories.len(),
{
    if categories.len() == 0 {
        Seq::empty()
    } else {
        let rest = visible_of(categories.drop_last(), active);
        if active == FileCategory::All || categories.last() == active {
            rest.push(categories.len() - 1)
        } else {
            rest
        }
    }
}

/// The positions of the files shown for a category filter.
pub fn visible_files(categories: &[FileCategory], active: FileCategory) -> (v: Vec<usize>)
    ensures
        Seq::new(v@.len(), |i: int| v@[i] as int) == visible_of(categories@, active),
{
    let mut v: Vec<usize> = Vec::new();
    let mut i: usize = 0;
    while i < categories.len()
        invariant
            i <= categories.len(),
            Seq::new(v@.len(), |k: int| v@[k] as int) == visible_of(categories@.take(i as int), active),
        decreases categories.len() - i,
    {
        assert(categories@.take(i + 1).drop_last() =~= categories@.take(i as int));
        let ghost before = Seq::new(v@.len(), |k: int| v@[k] as int);
        if active == FileCategory::All || categories[i] == active {
            v.push(i);
            assert(Seq::new(v@.len(), |k: int| v@[k] as int) =~= before.push(i as int));
        }
        i += 1;
    }
    assert(categories@.take(categories@.len() as int) =~= categories@);
    v
}

/// `1 file` or `n files`.
pub fn format_file_count(count: usize) -> (s: String)
    ensures
        s@ == (if count == 1 { "1 file"@ } else { decimal_digits(count as nat) + " files"@ }),
{
    if count == 1 {
        return "1 file".to_string();
    }
    let mut out: Vec<char> = Vec::new();
    push_decimal(&mut out, count as u64);
    append_str(&mut out, " files");
    string_of(&out)
}

/// Whether the lower-cased text holds the needle, as the settings search
/// matches a row.
pub fn contains_ignore_case(text: &str, needle: &str) -> (r: bool)
    ensures
        r == has_infix(unicode_lower(text@), needle@),
{
    let lower = to_lowercase(text);
    contains_chars(&chars_of(lower.as_str()), &chars_of(needle))
}

// ─── The web view's sandbox ──────────────────────────────────────────

/// Whether the web view's sandbox is turned off: when the environment
/// already asks for it, inside an AppImage, or when the host cannot run
/// it.
pub fn should_disable_webkit_sandbox(override_set: bool, in_appimage: bool, sandbox_supported: bool) -> (r: bool)
    ensures
        r == (override_set || in_appimage || !sandbox_supported),
{
    if override_set {
        return true;
    }
    if in_appimage {
        return true;
    }
    !sandbox_supported
}

/// The arguments of the `bwrap` probe: a user namespace with `/proc` and
/// `/dev`, each of `/usr /bin /lib /lib64` that exists bound read-only,
/// then `true`.
pub open spec fn sandbox_probe_args_of(usr: bool, bin: bool, lib: bool, lib64: bool, usr_bin_true: bool) -> Seq<Seq<char>> {
    seq!["--unshare-user"@, "--uid"@, "0"@, "--gid"@, "0"@, "--proc"@, "/proc"@, "--dev"@, "/dev"@]
        + (if usr { seq!["--ro-bind"@, "/usr"@, "/usr"@] } else { Seq::empty() })
        + (if bin { seq!["--ro-bind"@, "/bin"@, "/bin"@] } else { Seq::empty() })
        + (if lib { seq!["--ro-bind"@, "/lib"@, "/lib"@] } else { Seq::empty() })
        + (if lib64 { seq!["--ro-bind"@, "/lib64"@, "/lib64"@] } else { Seq::empty() })
        + seq![if usr_bin_true { "/usr/bin/true"@ } else { "/bin/true"@ }]
}

fn push_lit(v: &mut Vec<String>, s: &str)
    ensures
        strings_view(final(v)@) == strings_view(old(v)@).push(s@),
{
    push_string(v, s.to_string());
}

/// The arguments of the `bwrap` probe, given which system directories
/// exist and whether `/usr/bin/true` does.
pub fn sandbox_probe_args(usr: bool, bin: bool, lib: bool, lib64: bool, usr_bin_true: bool) -> (v: Vec<String>)
    ensures
        strings_view(v@) == sandbox_probe_args_of(usr, bin, lib, lib64, usr_bin_true),
{
    let mut v: Vec<String> = Vec::new();
    push_lit(&mut v, "--unshare-user");
    push_lit(&mut v, "--uid");
    push_lit(&mut v, "0");
    push_lit(&mut v, "--gid");
    push_lit(&mut v, "0");
    push_lit(&mut v, "--proc");
    push_lit(&mut v, "/proc");
    push_lit(&mut v, "--dev");
    push_lit(&mut v, "/dev");
    let ghost base = strings_view(v@);
    if usr {
        push_lit(&mut v, "--ro-bind");
        push_lit(&mut v, "/usr");
        push_lit(&mut v, "/usr");
    }
    let ghost a = strings_view(v@);
    if bin {
        push_lit(&mut v, "--ro-bind");
        push_lit(&mut v, "/bin");
        push_lit(&mut v, "/bin");
    }
    let ghost b = strings_view(v@);
    if lib {
        push_lit(&mut v, "--ro-bind");
        push_lit(&mut v, "/lib");
        push_lit(&mut v, "/lib");
    }
    let ghost c = strings_view(v@);
    if lib64 {
        push_lit(&mut v, "--ro-bind");
        push_lit(&mut v, "/lib64");
        push_lit(&mut v, "/lib64");
    }
    if usr_bin_true {
        push_lit(&mut v, "/usr/bin/true");
    } else {
        push_lit(&mut v, "/bin/true");
    }
    assert(strings_view(v@) =~= sandbox_probe_args_of(usr, bin, lib, lib64, usr_bin_true));
    v
}


// ─── Closing a session ───────────────────────────────────────────────

/// Closing the shown session of a pane with `count` sessions: the
/// position removed (the shown one, kept on the list) and the session shown
/// after; nothing when the pane has a single session.
pub open spec fn close_plan_of(active: int, count: int) -> Option<(int, int)> {
    if count <= 1 {
        None
    } else {
        let index = if active < count - 1 { active } else { count - 1 };
        Some((index, if index < count - 2 { index } else { count - 2 }))
    }
}

/// Which session to remove and which to show when the shown one is closed.
pub fn close_plan(active: usize, count: usize) -> (r: Option<(usize, usize)>)
    ensures
        match r {
            Some((i, n)) => close_plan_of(active as int, count as int) == Some((i as int, n as int)),
            None => close_plan_of(active as int, count as int) is None,
        },
{
    if count <= 1 {
        return None;
    }
    let index = if active < count - 1 { active } else { count - 1 };
    let next = if index < count - 2 { index } else { count - 2 };
    Some((index, next))
}

/// After closing, the session shown is one of those left.
pub proof fn law_close_keeps_a_session(active: int, count: int)
    requires
        0 <= active,
        count > 1,
    ensures
        close_plan_of(active, count) matches Some((i, n)) && 0 <= i < count && 0 <= n < count - 1,
{
}

// ─── Side panes ──────────────────────────────────────────────────────

/// The side pane shown beside the terminal, or none.
#[derive(Clone, Copy, Debug, PartialEq, Eq, Structural)]
pub enum SidePaneKind {
    Closed,
    Logr,
    Web,
    View,
    Git,
    Agent,
    Notes,
}

/// A side pane's button: the pane opens, or closes when it is the one
/// shown.
pub open spec fn toggled_of(active: SidePaneKind, pane: SidePaneKind) -> SidePaneKind {
    if active == pane {
        SidePaneKind::Closed
    } else {
        pane
    }
}

/// What a side pane's button leaves shown.
pub fn toggle_side_pane(active: SidePaneKind, pane: SidePaneKind) -> (r: SidePaneKind)
    ensures
        r == toggled_of(active, pane),
{
    if active == pane {
        SidePaneKind::Closed
    } else {
        pane
    }
}

/// The side pane an agent pane kind opens.
pub open spec fn pane_kind_of(pane: PaneType) -> SidePaneKind {
    match pane {
        PaneType::Logr => SidePaneKind::Logr,
        PaneType::Web => SidePaneKind::Web,
        PaneType::View => SidePaneKind::View,
        PaneType::Git => SidePaneKind::Git,
        PaneType::Agent => SidePaneKind::Agent,
        PaneType::Notes => SidePaneKind::Notes,
    }
}

/// The side pane an agent effect opens: the asked pane for an opened pane,
/// the agent pane for a command sent to its terminal, none for a message.
pub open spec fn effect_pane_of(effect: EffectView) -> Option<SidePaneKind> {
    match effect {
        EffectView::OpenPane(pane) => Some(pane_kind_of(pane)),
        EffectView::Message(_) => None,
        EffectView::DispatchTerminalCommand(_) => Some(SidePaneKind::Agent),
    }
}

/// The side pane an agent effect opens, if any.
pub fn effect_pane(effect: &UiEffect) -> (r: Option<SidePaneKind>)
    ensures
        r == effect_pane_of(effect_view(*effect)),
{
    match effect {
        UiEffect::OpenPane(pane) => Some(match pane {
            PaneType::Logr => SidePaneKind::Logr,
            PaneType::Web => SidePaneKind::Web,
            PaneType::View => SidePaneKind::View,
            PaneType::Git => SidePaneKind::Git,
            PaneType::Agent => SidePaneKind::Agent,
            PaneType::Notes => SidePaneKind::Notes,
        }),
        UiEffect::Message(_) => None,
        UiEffect::DispatchTerminalCommand(_) => Some(SidePaneKind::Agent),
    }
}

/// The side pane shown at start: the log pane when the settings keep it
/// open.
pub fn initial_side_pane(logr_panel_open: bool) -> (r: SidePaneKind)
    ensures
        r == (if logr_panel_open { SidePaneKind::Logr } else { SidePaneKind::Closed }),
{
    if logr_panel_open { SidePaneKind::Logr } else { SidePaneKind::Closed }
}

/// The side pane after settings are applied: the log pane opens when the
/// settings ask for it and nothing is shown, and closes when they no longer
/// do; any other pane stays.
pub fn side_pane_after_settings(logr_panel_open: bool, active: SidePaneKind) -> (r: SidePaneKind)
    ensures
        r == (if logr_panel_open && active == SidePaneKind::Closed {
            SidePaneKind::Logr
        } else if !logr_panel_open && active == SidePaneKind::Logr {
            SidePaneKind::Closed
        } else {
            active
        }),
{
    if logr_panel_open && active == SidePaneKind::Closed {
        SidePaneKind::Logr
    } else if !logr_panel_open && active == SidePaneKind::Logr {
        SidePaneKind::Closed
    } else {
        active
    }
}

// ─── The window's pages ──────────────────────────────────────────────

/// The pages of the main window.
#[derive(Clone, Copy, Debug, PartialEq, Eq, Structural)]
pub enum Page {
    Workspace,
    Setup,
    Settings,
}

/// The smallest default width of the main window.
pub const MIN_WINDOW_WIDTH: u32 = 960;
/// The smallest default height of the main window.
pub const MIN_WINDOW_HEIGHT: u32 = 620;

/// The window's default size: the saved size, at least 960 by 620.
pub fn window_default_size(width: u32, height: u32) -> (r: (u32, u32))
    ensures
        r.0 == (if width < MIN_WINDOW_WIDTH { MIN_WINDOW_WIDTH } else { width }),
        r.1 == (if height < MIN_WINDOW_HEIGHT { MIN_WINDOW_HEIGHT } else { height }),
{
    (
        if width < MIN_WINDOW_WIDTH { MIN_WINDOW_WIDTH } else { width },
        if height < MIN_WINDOW_HEIGHT { MIN_WINDOW_HEIGHT } else { height },
    )
}

/// The page shown first: the setup while no settings were saved.
pub fn first_page(needs_setup: bool) -> (r: Page)
    ensures
        r == (if needs_setup { Page::Setup } else { Page::Workspace }),
{
    if needs_setup { Page::Setup } else { Page::Workspace }
}

/// What the settings button shows: back to the workspace from the
/// settings, else the settings.
pub fn settings_button_target(current: Page) -> (r: Page)
    ensures
        r == (if current == Page::Settings { Page::Workspace } else { Page::Settings }),
{
    if current == Page::Settings { Page::Workspace } else { Page::Settings }
}

/// How the header shows a page: the settings mode, or the workspace mode
/// with (on the workspace) or without (in the setup) its tab and pane
/// controls.
#[derive(Clone, Copy, Debug, PartialEq, Eq, Structural)]
pub enum HeaderMode {
    Settings,
    Workspace { tabs: bool, panes: bool },
}

/// How the header shows a page.
pub fn header_mode(page: Page) -> (r: HeaderMode)
    ensures
        r == match page {
            Page::Settings => HeaderMode::Settings,
            Page::Setup => HeaderMode::Workspace { tabs: false, panes: false },
            Page::Workspace => HeaderMode::Workspace { tabs: true, panes: true },
        },
{
    match page {
        Page::Settings => HeaderMode::Settings,
        Page::Setup => HeaderMode::Workspace { tabs: false, panes: false },
        Page::Workspace => HeaderMode::Workspace { tabs: true, panes: true },
    }
}

/// What closing the window does.
#[derive(Clone, Copy, Debug, PartialEq, Eq, Structural)]
pub enum CloseAction {
    /// Go back to the workspace and keep the window open.
    BackToWorkspace,
    /// Save the workspace and the window size, and close.
    SaveAndClose,
}

/// What closing the window does: from the settings it only goes back to
/// the workspace; from any other page the window closes.
pub fn close_request(current: Page) -> (r: CloseAction)
    ensures
        r == (if current == Page::Settings { CloseAction::BackToWorkspace } else { CloseAction::SaveAndClose }),
{
    if current == Page::Settings { CloseAction::BackToWorkspace } else { CloseAction::SaveAndClose }
}

/// The name the interface state records for the shown side pane.
pub open spec fn side_pane_name_of(active: SidePaneKind) -> Option<Seq<char>> {
    match active {
        SidePaneKind::Closed => None,
        SidePaneKind::Logr => Some("logr"@),
        SidePaneKind::Web => Some("web"@),
        SidePaneKind::View => Some("view"@),
        SidePaneKind::Git => Some("git"@),
        SidePaneKind::Agent => Some("agent"@),
        SidePaneKind::Notes => Some("notes"@),
    }
}

/// The name the interface state records for the shown side pane.
pub fn side_pane_name(active: SidePaneKind) -> (r: Option<String>)
    ensures
        match r {
            Some(n) => side_pane_name_of(active) == Some(n@),
            None => side_pane_name_of(active) is None,
        },
{
    match active {
        SidePaneKind::Closed => None,
        SidePaneKind::Logr => Some("logr".to_string()),
        SidePaneKind::Web => Some("web".to_string()),
        SidePaneKind::View => Some("view".to_string()),
        SidePaneKind::Git => Some("git".to_string()),
        SidePaneKind::Agent => Some("agent".to_string()),
        SidePaneKind::Notes => Some("notes".to_string()),
    }
}

/// Pressing a pane's button twice brings back what was shown when that
/// pane was shown or none was; one press shows it unless it was shown.
pub proof fn law_toggle_side_pane(active: SidePaneKind, pane: SidePaneKind)
    requires
        pane != SidePaneKind::Closed,
    ensures
        (active == pane || active == SidePaneKind::Closed) ==> toggled_of(toggled_of(active, pane), pane) == active,
        toggled_of(active, pane) == SidePaneKind::Closed <==> active == pane,
{
}


// ─── The quick switcher ──────────────────────────────────────────────

/// The tabs the quick switcher lists among the first `n`: those whose
/// lower-cased title holds the query (every tab for an empty query).
pub open spec fn switcher_rows_of(titles: Seq<Seq<char>>, q: Seq<char>, n: nat) -> Seq<nat>
    decreases n,
{
    if n == 0 {
        Seq::empty()
    } else {
        let rest = switcher_rows_of(titles, q, (n - 1) as nat);
        if q.len() == 0 || has_infix(unicode_lower(titles[n - 1]), q) {
            rest.push((n - 1) as nat)
        } else {
            rest
        }
    }
}

pub open spec fn titles_of(v: Seq<String>) -> Seq<Seq<char>> {
    Seq::new(v.len(), |i: int| v[i]@)
}

/// The quick switcher's rows for a query (trimmed and lower-cased), as tab
/// positions, and the row selected: the first that shows the current tab,
/// else the first row.
pub fn switcher_rows(titles: &Vec<String>, query: &str, current: usize) -> (r: (Vec<usize>, Option<usize>))
    ensures
        Seq::new(r.0@.len(), |i: int| r.0@[i] as nat) == switcher_rows_of(
            titles_of(titles@),
            unicode_lower(trim_of(query@)),
            titles@.len(),
        ),
        r.0@.len() == 0 ==> r.1 is None,
        r.0@.len() > 0 ==> (r.1 matches Some(k) && k < r.0@.len() && (
            (r.0@[k as int] == current && forall|j: int| 0 <= j < k ==> r.0@[j] != current)
            || (k == 0 && forall|j: int| 0 <= j < r.0@.len() ==> r.0@[j] != current))),
{
    let ghost tv = titles_of(titles@);
    let t = string_of(&crate::text::trim(&chars_of(query)));
    let q = chars_of(to_lowercase(t.as_str()).as_str());
    let ghost qv = unicode_lower(trim_of(query@));
    let mut rows: Vec<usize> = Vec::new();
    let mut i: usize = 0;
    while i < titles.len()
        invariant
            i <= titles.len(),
            tv == titles_of(titles@),
            q@ == qv,
            Seq::new(rows@.len(), |k: int| rows@[k] as nat) == switcher_rows_of(tv, qv, i as nat),
            forall|k: int| 0 <= k < rows@.len() ==> rows@[k] < i,
        decreases titles.len() - i,
    {
        let lower = to_lowercase(titles[i].as_str());
        let hit = q.len() == 0 || contains_chars(&chars_of(lower.as_str()), &q);
        assert(tv[i as int] == titles@[i as int]@);
        if hit {
            let ghost prev = Seq::new(rows@.len(), |k: int| rows@[k] as nat);
            rows.push(i);
            assert(Seq::new(rows@.len(), |k: int| rows@[k] as nat) =~= prev.push(i as nat));
        }
        i += 1;
    }
    if rows.len() == 0 {
        return (rows, None);
    }
    let mut k: usize = 0;
    while k < rows.len()
        invariant
            k <= rows.len(),
            tv == titles_of(titles@),
            qv == unicode_lower(trim_of(query@)),
            Seq::new(rows@.len(), |m: int| rows@[m] as nat) == switcher_rows_of(tv, qv, titles@.len()),
            forall|j: int| 0 <= j < k ==> rows@[j] != current,
        decreases rows.len() - k,
    {
        if rows[k] == current {
            return (rows, Some(k));
        }
        k += 1;
    }
    (rows, Some(0))
}

} // verus!
