//! What the git pane's and the patch review's keys do.
use vstd::prelude::*;

use crate::patch::HunkStatus;

verus! {

/// The sub-views of the git pane.
#[derive(Clone, Copy, Debug, PartialEq, Eq, Structural)]
pub enum SubView {
    Status,
    Log,
    Branches,
    Stash,
    Search,
}

/// The name of a sub-view's page, which is also its label.
pub open spec fn sub_view_name_of(v: SubView) -> Seq<char> {
    match v {
        SubView::Status => "status"@,
        SubView::Log => "log"@,
        SubView::Branches => "branches"@,
        SubView::Stash => "stash"@,
        SubView::Search => "search"@,
    }
}

impl SubView {
    /// The name of the sub-view's page.
    pub fn stack_name(&self) -> (s: &'static str)
        ensures
            s@ == sub_view_name_of(*self),
    {
        match self {
            SubView::Status => "status",
            SubView::Log => "log",
            SubView::Branches => "branches",
            SubView::Stash => "stash",
            SubView::Search => "search",
        }
    }

    /// The label of the sub-view's tab.
    pub fn label(&self) -> (s: &'static str)
        ensures
            s@ == sub_view_name_of(*self),
    {
        match self {
            SubView::Status => "status",
            SubView::Log => "log",
            SubView::Branches => "branches",
            SubView::Stash => "stash",
            SubView::Search => "search",
        }
    }
}

/// The keys the panes tell apart.
#[derive(Clone, Copy, Debug, PartialEq, Eq, Structural)]
pub enum PaneKey {
    Char(char),
    Up,
    Down,
    Return,
    Escape,
    Other,
}

/// What a key does in the git pane.
#[derive(Clone, Copy, Debug, PartialEq, Eq, Structural)]
pub enum PaneCommand {
    Refresh,
    Fetch,
    Show(SubView),
    Pass,
}

/// The git pane's keys: Ctrl+R refreshes, Ctrl+F fetches, 1 to 5 show a
/// sub-view, Escape goes back to the status view.
pub open spec fn git_pane_key_of(key: PaneKey, ctrl: bool) -> PaneCommand {
    if ctrl && key == PaneKey::Char('r') {
        PaneCommand::Refresh
    } else if ctrl && key == PaneKey::Char('f') {
        PaneCommand::Fetch
    } else if !ctrl && key == PaneKey::Char('1') {
        PaneCommand::Show(SubView::Status)
    } else if !ctrl && key == PaneKey::Char('2') {
        PaneCommand::Show(SubView::Log)
    } else if !ctrl && key == PaneKey::Char('3') {
        PaneCommand::Show(SubView::Branches)
    } else if !ctrl && key == PaneKey::Char('4') {
        PaneCommand::Show(SubView::Stash)
    } else if !ctrl && key == PaneKey::Char('5') {
        PaneCommand::Show(SubView::Search)
    } else if key == PaneKey::Escape {
        PaneCommand::Show(SubView::Status)
    } else {
        PaneCommand::Pass
    }
}

/// What a key does in the git pane.
pub fn git_pane_key(key: PaneKey, ctrl: bool) -> (c: PaneCommand)
    ensures
        c == git_pane_key_of(key, ctrl),
{
    if ctrl && key == PaneKey::Char('r') {
        return PaneCommand::Refresh;
    }
    if ctrl && key == PaneKey::Char('f') {
        return PaneCommand::Fetch;
    }
    if !ctrl {
        let sv = match key {
            PaneKey::Char(c) => if c == '1' {
                Some(SubView::Status)
            } else if c == '2' {
                Some(SubView::Log)
            } else if c == '3' {
                Some(SubView::Branches)
            } else if c == '4' {
                Some(SubView::Stash)
            } else if c == '5' {
                Some(SubView::Search)
            } else {
                None
            },
            _ => None,
        };
        match sv {
            Some(v) => return PaneCommand::Show(v),
            None => {},
        }
    }
    if key == PaneKey::Escape {
        return PaneCommand::Show(SubView::Status);
    }
    PaneCommand::Pass
}

/// What a key does in the patch review.
#[derive(Clone, Copy, Debug, PartialEq, Eq, Structural)]
pub enum PatchCommand {
    /// Leave the note field for the hunk list.
    FocusList,
    Pass,
    Move(i32),
    Annotate,
    Mark(HunkStatus),
    Draft,
    Export,
}

/// The patch review's keys: while the note field has the focus only
/// Escape is taken (back to the list); otherwise j/k or the arrows move,
/// Return or a starts a note, r x f u mark the hunk reviewed, risky,
/// follow-up or unreviewed, d drafts the commit scope and e exports the
/// brief.
pub open spec fn patch_key_of(annotation_focused: bool, key: PaneKey) -> PatchCommand {
    if annotation_focused {
        if key == PaneKey::Escape { PatchCommand::FocusList } else { PatchCommand::Pass }
    } else if key == PaneKey::Char('j') || key == PaneKey::Down {
        PatchCommand::Move(1i32)
    } else if key == PaneKey::Char('k') || key == PaneKey::Up {
        PatchCommand::Move(-1i32)
    } else if key == PaneKey::Return || key == PaneKey::Char('a') {
        PatchCommand::Annotate
    } else if key == PaneKey::Char('r') {
        PatchCommand::Mark(HunkStatus::Reviewed)
    } else if key == PaneKey::Char('x') {
        PatchCommand::Mark(HunkStatus::Risky)
    } else if key == PaneKey::Char('f') {
        PatchCommand::Mark(HunkStatus::FollowUp)
    } else if key == PaneKey::Char('u') {
        PatchCommand::Mark(HunkStatus::Unreviewed)
    } else if key == PaneKey::Char('d') {
        PatchCommand::Draft
    } else if key == PaneKey::Char('e') {
        PatchCommand::Export
    } else {
        PatchCommand::Pass
    }
}

/// What a key does in the patch review.
pub fn patch_key(annotation_focused: bool, key: PaneKey) -> (c: PatchCommand)
    ensures
        c == patch_key_of(annotation_focused, key),
{
    if annotation_focused {
        return if key == PaneKey::Escape { PatchCommand::FocusList } else { PatchCommand::Pass };
    }
    match key {
        PaneKey::Down => PatchCommand::Move(1),
        PaneKey::Up => PatchCommand::Move(-1),
        PaneKey::Return => PatchCommand::Annotate,
        PaneKey::Char(c) => if c == 'j' {
            PatchCommand::Move(1)
        } else if c == 'k' {
            PatchCommand::Move(-1)
        } else if c == 'a' {
            PatchCommand::Annotate
        } else if c == 'r' {
            PatchCommand::Mark(HunkStatus::Reviewed)
        } else if c == 'x' {
            PatchCommand::Mark(HunkStatus::Risky)
        } else if c == 'f' {
            PatchCommand::Mark(HunkStatus::FollowUp)
        } else if c == 'u' {
            PatchCommand::Mark(HunkStatus::Unreviewed)
        } else if c == 'd' {
            PatchCommand::Draft
        } else if c == 'e' {
            PatchCommand::Export
        } else {
            PatchCommand::Pass
        },
        _ => PatchCommand::Pass,
    }
}


// ─── Workspace shortcuts ─────────────────────────────────────────────

/// The keys the workspace's shortcuts tell apart.
#[derive(Clone, Copy, Debug, PartialEq, Eq, Structural)]
pub enum ShortcutKey {
    Char(char),
    Tab,
    Left,
    Right,
    PageUp,
    PageDown,
    Other,
}

/// What a workspace shortcut does.
#[derive(Clone, Copy, Debug, PartialEq, Eq, Structural)]
pub enum WorkspaceCommand {
    CloseSwitcher,
    NewTab,
    CloseSession,
    CloseTab,
    NewSession,
    NextTab,
    PreviousTab,
    MoveTabLeft,
    MoveTabRight,
    RenameTab,
    ToggleSwitcher,
    FocusLeftPane,
    FocusRightPane,
    NextSession,
    PreviousSession,
    /// Show the session at this position of the active pane.
    FocusSession(usize),
    /// Show the tab at this position.
    JumpToTab(usize),
    Pass,
}

/// The digit keys `1` to `9`, as positions 0 to 8.
pub open spec fn digit_position(key: ShortcutKey) -> Option<nat> {
    match key {
        ShortcutKey::Char(c) => if '1' <= c && c <= '9' {
            Some((c as nat - '1' as nat) as nat)
        } else {
            None
        },
        _ => None,
    }
}

/// The workspace's shortcuts, all with Ctrl: while the quick switcher is
/// open only Ctrl+K (closing it) is taken. Otherwise, in this order: T a
/// new tab; Alt+W closes the session, W the tab; Alt+N a new session; Tab
/// and Shift+Tab the next and previous tab; Shift+Left and Shift+Right
/// move the tab; Shift+R renames it; K opens the switcher; Alt+Left and
/// Alt+Right focus a split pane; Alt+PageDown and Alt+PageUp the next and
/// previous session; Alt+1..9 a session and 1..9 a tab by number.
pub open spec fn workspace_shortcut_of(key: ShortcutKey, ctrl: bool, shift: bool, alt: bool, switcher_open: bool) -> WorkspaceCommand {
    if switcher_open {
        if ctrl && key == ShortcutKey::Char('k') { WorkspaceCommand::CloseSwitcher } else { WorkspaceCommand::Pass }
    } else if !ctrl {
        WorkspaceCommand::Pass
    } else if key == ShortcutKey::Char('t') && !shift {
        WorkspaceCommand::NewTab
    } else if key == ShortcutKey::Char('w') && alt && !shift {
        WorkspaceCommand::CloseSession
    } else if key == ShortcutKey::Char('w') && !shift && !alt {
        WorkspaceCommand::CloseTab
    } else if key == ShortcutKey::Char('n') && alt && !shift {
        WorkspaceCommand::NewSession
    } else if key == ShortcutKey::Tab && !shift {
        WorkspaceCommand::NextTab
    } else if key == ShortcutKey::Tab && shift {
        WorkspaceCommand::PreviousTab
    } else if key == ShortcutKey::Left && shift {
        WorkspaceCommand::MoveTabLeft
    } else if key == ShortcutKey::Right && shift {
        WorkspaceCommand::MoveTabRight
    } else if key == ShortcutKey::Char('r') && shift {
        WorkspaceCommand::RenameTab
    } else if key == ShortcutKey::Char('k') && !shift {
        WorkspaceCommand::ToggleSwitcher
    } else if key == ShortcutKey::Left && alt {
        WorkspaceCommand::FocusLeftPane
    } else if key == ShortcutKey::Right && alt {
        WorkspaceCommand::FocusRightPane
    } else if key == ShortcutKey::PageDown && alt {
        WorkspaceCommand::NextSession
    } else if key == ShortcutKey::PageUp && alt {
        WorkspaceCommand::PreviousSession
    } else if alt && digit_position(key) is Some {
        WorkspaceCommand::FocusSession(digit_position(key)->Some_0 as usize)
    } else if !alt && digit_position(key) is Some {
        WorkspaceCommand::JumpToTab(digit_position(key)->Some_0 as usize)
    } else {
        WorkspaceCommand::Pass
    }
}

fn digit_of(key: ShortcutKey) -> (r: Option<usize>)
    ensures
        match r {
            Some(d) => digit_position(key) == Some(d as nat),
            None => digit_position(key) is None,
        },
{
    match key {
        ShortcutKey::Char(c) => if '1' <= c && c <= '9' {
            Some((c as u32 - '1' as u32) as usize)
        } else {
            None
        },
        _ => None,
    }
}

/// What a key pressed in the workspace does.
pub fn workspace_shortcut(key: ShortcutKey, ctrl: bool, shift: bool, alt: bool, switcher_open: bool) -> (c: WorkspaceCommand)
    ensures
        c == workspace_shortcut_of(key, ctrl, shift, alt, switcher_open),
{
    if switcher_open {
        return if ctrl && key == ShortcutKey::Char('k') { WorkspaceCommand::CloseSwitcher } else { WorkspaceCommand::Pass };
    }
    if !ctrl {
        return WorkspaceCommand::Pass;
    }
    if key == ShortcutKey::Char('t') && !shift {
        WorkspaceCommand::NewTab
    } else if key == ShortcutKey::Char('w') && alt && !shift {
        WorkspaceCommand::CloseSession
    } else if key == ShortcutKey::Char('w') && !shift && !alt {
        WorkspaceCommand::CloseTab
    } else if key == ShortcutKey::Char('n') && alt && !shift {
        WorkspaceCommand::NewSession
    } else if key == ShortcutKey::Tab && !shift {
        WorkspaceCommand::NextTab
    } else if key == ShortcutKey::Tab && shift {
        WorkspaceCommand::PreviousTab
    } else if key == ShortcutKey::Left && shift {
        WorkspaceCommand::MoveTabLeft
    } else if key == ShortcutKey::Right && shift {
        WorkspaceCommand::MoveTabRight
    } else if key == ShortcutKey::Char('r') && shift {
        WorkspaceCommand::RenameTab
    } else if key == ShortcutKey::Char('k') && !shift {
        WorkspaceCommand::ToggleSwitcher
    } else if key == ShortcutKey::Left && alt {
        WorkspaceCommand::FocusLeftPane
    } else if key == ShortcutKey::Right && alt {
        WorkspaceCommand::FocusRightPane
    } else if key == ShortcutKey::PageDown && alt {
        WorkspaceCommand::NextSession
    } else if key == ShortcutKey::PageUp && alt {
        WorkspaceCommand::PreviousSession
    } else {
        match digit_of(key) {
            Some(d) => if alt {
                WorkspaceCommand::FocusSession(d)
            } else {
                WorkspaceCommand::JumpToTab(d)
            },
            None => WorkspaceCommand::Pass,
        }
    }
}

/// Where the shown tab goes when moved left or right among `count` tabs;
/// none at either end or with a single tab.
pub fn moved_tab(current: usize, count: usize, right: bool) -> (r: Option<usize>)
    ensures
        r == (if count > 1 && !right && current > 0 {
            Some((current - 1) as usize)
        } else if count > 1 && right && current + 1 < count {
            Some((current + 1) as usize)
        } else {
            None
        }),
{
    if count > 1 && !right && current > 0 {
        Some(current - 1)
    } else if count > 1 && right && current < count - 1 {
        Some(current + 1)
    } else {
        None
    }
}

} // verus!
