//! The words of the log viewer's screen: the shell header, the feature
//! header, the sidebar, the empty state, the footer and the help panel.
use vstd::prelude::*;
use crate::text::{
    append_chars, append_str, ascii_upper_of, chars_of, decimal_digits, eq_str, push_decimal, string_of, to_ascii_upper,
};

verus! {

broadcast use vstd::string::group_string_axioms;

/// The two lines above the entries: the source, then how many entries are
/// shown of all, the scroll position and whether the source is followed.
pub open spec fn feature_header_of(source: Seq<char>, shown: nat, total: nat, scroll: nat, live: bool) -> (Seq<char>, Seq<char>) {
    (
        "source: "@ + source,
        "shown: "@ + decimal_digits(shown) + "/"@ + decimal_digits(total) + "  scroll: "@ + decimal_digits(scroll)
            + "  mode: "@ + (if live { "live"@ } else { "static"@ }),
    )
}

/// The two lines above the entries.
pub fn feature_header(source: &str, shown: usize, total: usize, scroll: usize, live: bool) -> (r: (String, String))
    ensures
        (r.0@, r.1@) == feature_header_of(source@, shown as nat, total as nat, scroll as nat, live),
{
    let mut first = chars_of("source: ");
    append_str(&mut first, source);
    let mut second = chars_of("shown: ");
    push_decimal(&mut second, shown as u64);
    append_str(&mut second, "/");
    push_decimal(&mut second, total as u64);
    append_str(&mut second, "  scroll: ");
    push_decimal(&mut second, scroll as u64);
    append_str(&mut second, "  mode: ");
    append_str(&mut second, if live { "live" } else { "static" });
    (string_of(&first), string_of(&second))
}

/// What the list says when nothing is shown: that the filters hide every
/// entry, or that no entry came in yet.
pub fn empty_state(has_entries: bool) -> (r: (&'static str, &'static str))
    ensures
        has_entries ==> r.0@ == "No log entries match the current filters."@
            && r.1@ == "Press c to clear filters or / to change the search query."@,
        !has_entries ==> r.0@ == "Obsidian is open and waiting for log input."@
            && r.1@ == "Pass a file path or pipe newline-delimited JSON into obsidian."@,
{
    if has_entries {
        ("No log entries match the current filters.", "Press c to clear filters or / to change the search query.")
    } else {
        ("Obsidian is open and waiting for log input.", "Pass a file path or pipe newline-delimited JSON into obsidian.")
    }
}

/// The footer: a blank line, the feature and its navigation keys, then
/// the level, export and quit keys.
pub fn footer(feature_name: &str) -> (r: [String; 3])
    ensures
        r@[0]@ == Seq::<char>::empty(),
        r@[1]@ == "obsidian/"@ + feature_name@ + "  Nav: Up/Down j/k PgUp/PgDn Home/End"@,
        r@[2]@ == "Levels: t=trace d=debug i=info w=warn e=error  Export: x  Quit: q"@,
{
    let mut nav = chars_of("obsidian/");
    append_str(&mut nav, feature_name);
    append_str(&mut nav, "  Nav: Up/Down j/k PgUp/PgDn Home/End");
    [String::new(), string_of(&nav), "Levels: t=trace d=debug i=info w=warn e=error  Export: x  Quit: q".to_string()]
}

/// The shell header: the application's name and the feature's, both in
/// upper case, then the main keys.
pub open spec fn shell_header_of(app_name: Seq<char>, feature_name: Seq<char>) -> Seq<Seq<char>> {
    seq![
        " "@ + ascii_upper_of(app_name) + " "@,
        ascii_upper_of(feature_name) + " workspace"@,
        "  |  "@,
        "q quit"@,
        "  / search"@,
        "  ? help"@,
    ]
}

/// The pieces of the shell header, in order.
pub fn shell_header(app_name: &str, feature_name: &str) -> (r: Vec<String>)
    ensures
        Seq::new(r@.len(), |i: int| r@[i]@) == shell_header_of(app_name@, feature_name@),
{
    let mut app = chars_of(" ");
    append_chars(&mut app, &to_ascii_upper(&chars_of(app_name)));
    append_str(&mut app, " ");
    let mut feature = to_ascii_upper(&chars_of(feature_name));
    append_str(&mut feature, " workspace");
    let r = vec![
        string_of(&app),
        string_of(&feature),
        "  |  ".to_string(),
        "q quit".to_string(),
        "  / search".to_string(),
        "  ? help".to_string(),
    ];
    assert(Seq::new(r@.len(), |i: int| r@[i]@) =~= shell_header_of(app_name@, feature_name@));
    r
}

/// The help panel, line by line.
pub open spec fn help_of(app_name: Seq<char>, feature_name: Seq<char>, export_path: Seq<char>) -> Seq<Seq<char>> {
    seq![
        app_name + " Help"@,
        Seq::empty(),
        "Current feature: "@ + feature_name,
        "Navigation: Up/Down, j/k, PageUp/PageDown, Home/End"@,
        "Mouse: wheel up/down scrolls the current view"@,
        "Search: / enters search mode, Enter or Esc exits search mode"@,
        "Filter: t d i w e toggle trace/debug/info/warn/error"@,
        "Clear: c resets query and level filters"@,
        "Export: x writes filtered view to "@ + export_path,
        "Live follow: file inputs append new entries while the UI runs"@,
        "Visual system: black white red with restrained green/yellow accents"@,
        Seq::empty(),
        "Press ? or Esc to close this panel."@,
    ]
}

fn joined(a: &str, b: &str) -> (s: String)
    ensures
        s@ == a@ + b@,
{
    let mut out = chars_of(a);
    append_str(&mut out, b);
    string_of(&out)
}

/// The help panel, line by line.
pub fn help_lines(app_name: &str, feature_name: &str, export_path: &str) -> (r: Vec<String>)
    ensures
        Seq::new(r@.len(), |i: int| r@[i]@) == help_of(app_name@, feature_name@, export_path@),
{
    let r = vec![
        joined(app_name, " Help"),
        String::new(),
        joined("Current feature: ", feature_name),
        "Navigation: Up/Down, j/k, PageUp/PageDown, Home/End".to_string(),
        "Mouse: wheel up/down scrolls the current view".to_string(),
        "Search: / enters search mode, Enter or Esc exits search mode".to_string(),
        "Filter: t d i w e toggle trace/debug/info/warn/error".to_string(),
        "Clear: c resets query and level filters".to_string(),
        joined("Export: x writes filtered view to ", export_path),
        "Live follow: file inputs append new entries while the UI runs".to_string(),
        "Visual system: black white red with restrained green/yellow accents".to_string(),
        String::new(),
        "Press ? or Esc to close this panel.".to_string(),
    ];
    assert(Seq::new(r@.len(), |i: int| r@[i]@) =~= help_of(app_name@, feature_name@, export_path@));
    r
}

/// How a line of the sidebar is drawn.
#[derive(Clone, Copy, Debug, PartialEq, Eq, Structural)]
pub enum SidebarStyle {
    Plain,
    Title,
    Secondary,
    Dim,
    Active,
    Warning,
}

/// A feature's line in the sidebar: marked with a bar when it is the
/// active feature.
pub open spec fn feature_line_of(name: Seq<char>, active_feature: Seq<char>) -> (Seq<char>, SidebarStyle) {
    if active_feature == name {
        ("  \u{258e} "@ + name, SidebarStyle::Active)
    } else {
        ("    "@ + name, SidebarStyle::Secondary)
    }
}

/// The sidebar beside the feature: the application, its features with the
/// active one marked, the session's mode, the main keys, the layout, the
/// palette and the window.
pub open spec fn sidebar_of(app_name: Seq<char>, active_feature: Seq<char>) -> Seq<(Seq<char>, SidebarStyle)> {
    seq![
        (Seq::empty(), SidebarStyle::Plain),
        ("  "@ + ascii_upper_of(app_name), SidebarStyle::Title),
        ("  desktop console"@, SidebarStyle::Secondary),
        (Seq::empty(), SidebarStyle::Plain),
        ("  CONTROL SURFACE"@, SidebarStyle::Dim),
        feature_line_of("terminal"@, active_feature),
        feature_line_of("logs"@, active_feature),
        (Seq::empty(), SidebarStyle::Plain),
        ("  SESSION"@, SidebarStyle::Dim),
        ("    mode "@ + active_feature, SidebarStyle::Warning),
        (Seq::empty(), SidebarStyle::Plain),
        ("  COMMANDS"@, SidebarStyle::Dim),
        ("    q quit"@, SidebarStyle::Secondary),
        ("    ? help"@, SidebarStyle::Secondary),
        ("    / search"@, SidebarStyle::Secondary),
        (Seq::empty(), SidebarStyle::Plain),
        ("  LAYOUT"@, SidebarStyle::Dim),
        ("    left  navigator"@, SidebarStyle::Secondary),
        ("    right "@ + active_feature, SidebarStyle::Secondary),
        (Seq::empty(), SidebarStyle::Plain),
        ("  PALETTE"@, SidebarStyle::Dim),
        ("    black white red"@, SidebarStyle::Secondary),
        ("    green yellow accents"@, SidebarStyle::Secondary),
        (Seq::empty(), SidebarStyle::Plain),
        ("  WINDOW"@, SidebarStyle::Dim),
        ("    matte black chrome"@, SidebarStyle::Secondary),
        ("    clear white edge"@, SidebarStyle::Secondary),
    ]
}

fn feature_line(name: &str, active_feature: &str) -> (r: (String, SidebarStyle))
    ensures
        (r.0@, r.1) == feature_line_of(name@, active_feature@),
{
    if eq_str(&chars_of(active_feature), name) {
        (joined("  \u{258e} ", name), SidebarStyle::Active)
    } else {
        (joined("    ", name), SidebarStyle::Secondary)
    }
}

/// The sidebar beside the feature, line by line, each with its style.
pub fn sidebar_lines(app_name: &str, active_feature: &str) -> (r: Vec<(String, SidebarStyle)>)
    ensures
        Seq::new(r@.len(), |i: int| (r@[i].0@, r@[i].1)) == sidebar_of(app_name@, active_feature@),
{
    let mut title = chars_of("  ");
    append_chars(&mut title, &to_ascii_upper(&chars_of(app_name)));
    let r = vec![
        (String::new(), SidebarStyle::Plain),
        (string_of(&title), SidebarStyle::Title),
        ("  desktop console".to_string(), SidebarStyle::Secondary),
        (String::new(), SidebarStyle::Plain),
        ("  CONTROL SURFACE".to_string(), SidebarStyle::Dim),
        feature_line("terminal", active_feature),
        feature_line("logs", active_feature),
        (String::new(), SidebarStyle::Plain),
        ("  SESSION".to_string(), SidebarStyle::Dim),
        (joined("    mode ", active_feature), SidebarStyle::Warning),
        (String::new(), SidebarStyle::Plain),
        ("  COMMANDS".to_string(), SidebarStyle::Dim),
        ("    q quit".to_string(), SidebarStyle::Secondary),
        ("    ? help".to_string(), SidebarStyle::Secondary),
        ("    / search".to_string(), SidebarStyle::Secondary),
        (String::new(), SidebarStyle::Plain),
        ("  LAYOUT".to_string(), SidebarStyle::Dim),
        ("    left  navigator".to_string(), SidebarStyle::Secondary),
        (joined("    right ", active_feature), SidebarStyle::Secondary),
        (String::new(), SidebarStyle::Plain),
        ("  PALETTE".to_string(), SidebarStyle::Dim),
        ("    black white red".to_string(), SidebarStyle::Secondary),
        ("    green yellow accents".to_string(), SidebarStyle::Secondary),
        (String::new(), SidebarStyle::Plain),
        ("  WINDOW".to_string(), SidebarStyle::Dim),
        ("    matte black chrome".to_string(), SidebarStyle::Secondary),
        ("    clear white edge".to_string(), SidebarStyle::Secondary),
    ];
    assert(Seq::new(r@.len(), |i: int| (r@[i].0@, r@[i].1)) =~= sidebar_of(app_name@, active_feature@));
    r
}

} // verus!
