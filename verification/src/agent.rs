//! The workspace agent's decisions: what an action does and says, which
//! actions wait for the user's confirmation, what the observer reports
//! about the workspace and how often, and the bounded conversation log.
use vstd::prelude::*;

use crate::text::{
    append_chars, append_str, chars_of, decimal_digits, eq_str, join_sep, join_with, push_decimal,
    push_seq, seqs_of, string_of, trim, trim_of,
};

verus! {

broadcast use vstd::string::group_string_axioms;

// ─── Panes and actions ───────────────────────────────────────────────

#[derive(Clone, Copy, Debug, PartialEq, Eq, Structural)]
pub enum PaneType {
    Logr,
    Web,
    View,
    Git,
    Agent,
    Notes,
}

/// The name a side pane is shown by.
pub open spec fn pane_label_of(pane: PaneType) -> Seq<char> {
    match pane {
        PaneType::Logr => "logr"@,
        PaneType::Web => "web"@,
        PaneType::View => "viewer"@,
        PaneType::Git => "git"@,
        PaneType::Agent => "agent"@,
        PaneType::Notes => "notes"@,
    }
}

impl PaneType {
    /// The name a side pane is shown by.
    pub fn label(&self) -> (s: &'static str)
        ensures
            s@ == pane_label_of(*self),
    {
        match self {
            PaneType::Logr => "logr",
            PaneType::Web => "web",
            PaneType::View => "viewer",
            PaneType::Git => "git",
            PaneType::Agent => "agent",
            PaneType::Notes => "notes",
        }
    }
}

/// A log filter the agent asks the log pane to apply.
pub struct LogFilter {
    pub query: Option<String>,
    pub levels: Vec<String>,
}

/// A hunk of a patch review session.
pub struct HunkRef {
    pub file: String,
    pub hunk_index: usize,
    pub branch: String,
}

/// What the agent proposes to do (its confidence is kept beside it).
pub enum AgentAction {
    RunCommand { command: String },
    OpenPane { pane: PaneType },
    FilterLogr { filter: LogFilter },
    StageHunk { hunk: HunkRef },
    WriteAnnotation { hunk: HunkRef, note: String },
    SurfaceMessage { message: String },
}

#[verifier::ext_equal]
pub enum AgentActionView {
    RunCommand { command: Seq<char> },
    OpenPane { pane: PaneType },
    FilterLogr { query: Option<Seq<char>>, levels: Seq<Seq<char>> },
    StageHunk { file: Seq<char>, hunk_index: nat, branch: Seq<char> },
    WriteAnnotation { file: Seq<char>, hunk_index: nat, branch: Seq<char>, note: Seq<char> },
    SurfaceMessage { message: Seq<char> },
}

impl View for AgentAction {
    type V = AgentActionView;

    open spec fn view(&self) -> AgentActionView {
        match self {
            AgentAction::RunCommand { command } => AgentActionView::RunCommand { command: command@ },
            AgentAction::OpenPane { pane } => AgentActionView::OpenPane { pane: *pane },
            AgentAction::FilterLogr { filter } => AgentActionView::FilterLogr {
                query: match filter.query {
                    Some(q) => Some(q@),
                    None => None,
                },
                levels: Seq::new(filter.levels@.len(), |i: int| filter.levels@[i]@),
            },
            AgentAction::StageHunk { hunk } => AgentActionView::StageHunk {
                file: hunk.file@,
                hunk_index: hunk.hunk_index as nat,
                branch: hunk.branch@,
            },
            AgentAction::WriteAnnotation { hunk, note } => AgentActionView::WriteAnnotation {
                file: hunk.file@,
                hunk_index: hunk.hunk_index as nat,
                branch: hunk.branch@,
                note: note@,
            },
            AgentAction::SurfaceMessage { message } => AgentActionView::SurfaceMessage { message: message@ },
        }
    }
}

/// The name for what `format!("{:?}", s)` returns for a string slice:
/// the text in double quotes with Rust's debug escapes.
pub uninterp spec fn debug_str_of(s: Seq<char>) -> Seq<char>;

/// `<str as Debug>::fmt`. Claimed: the result is the debug form named
/// `debug_str_of` of the argument; which characters are escaped, and how,
/// is left unsaid.
#[verifier::external_body]
fn debug_str(s: &str) -> (out: String)
    ensures
        out@ == debug_str_of(s@),
{
    format!("{:?}", s)
}

pub open spec fn strings_view(v: Seq<String>) -> Seq<Seq<char>> {
    Seq::new(v.len(), |i: int| v[i]@)
}

/// `None` or `Some("..")`, as `{:?}` writes an optional query.
pub open spec fn debug_query_of(q: Option<Seq<char>>) -> Seq<char> {
    match q {
        None => "None"@,
        Some(s) => "Some("@ + debug_str_of(s) + ")"@,
    }
}

pub open spec fn opt_view(o: Option<String>) -> Option<Seq<char>> {
    match o {
        Some(s) => Some(s@),
        None => None,
    }
}

/// The sentence that says what an action would do.
pub open spec fn dry_run_of(a: AgentAction) -> Seq<char> {
    match a {
        AgentAction::RunCommand { command } => "Would run `"@ + command@ + "` in the current workspace"@,
        AgentAction::OpenPane { pane } => "Would open the `"@ + pane_label_of(pane) + "` side pane"@,
        AgentAction::FilterLogr { filter } => "Would filter logr to query="@ + debug_query_of(opt_view(filter.query))
            + " levels="@ + (if filter.levels.len() == 0 {
            "all"@
        } else {
            join_sep(strings_view(filter.levels@), ","@)
        }),
        AgentAction::StageHunk { hunk } => "Would stage hunk "@ + decimal_digits(hunk.hunk_index as nat) + " from "@
            + hunk.file@,
        AgentAction::WriteAnnotation { hunk, note } => "Would write annotation on "@ + hunk.file@ + "#"@
            + decimal_digits(hunk.hunk_index as nat) + ": "@ + note@,
        AgentAction::SurfaceMessage { message } => "Would surface message: "@ + message@,
    }
}

/// Opening a pane, filtering the log and showing a message change
/// nothing in the workspace.
pub open spec fn non_destructive(a: AgentAction) -> bool {
    a is OpenPane || a is FilterLogr || a is SurfaceMessage
}

fn to_char_vecs(v: &Vec<String>) -> (out: Vec<Vec<char>>)
    ensures
        seqs_of(out@) == strings_view(v@),
{
    let mut out: Vec<Vec<char>> = Vec::new();
    let mut i: usize = 0;
    while i < v.len()
        invariant
            i <= v.len(),
            seqs_of(out@) == strings_view(v@).take(i as int),
        decreases v.len() - i,
    {
        push_seq(&mut out, chars_of(v[i].as_str()));
        assert(strings_view(v@).take(i + 1) =~= strings_view(v@).take(i as int).push(v@[i as int]@));
        i += 1;
    }
    assert(strings_view(v@).take(v@.len() as int) =~= strings_view(v@));
    out
}

impl AgentAction {
    /// The sentence that says what this action would do.
    pub fn dry_run(&self) -> (s: String)
        ensures
            s@ == dry_run_of(*self),
    {
        let mut out: Vec<char> = Vec::new();
        match self {
            AgentAction::RunCommand { command } => {
                append_str(&mut out, "Would run `");
                append_str(&mut out, command.as_str());
                append_str(&mut out, "` in the current workspace");
            },
            AgentAction::OpenPane { pane } => {
                append_str(&mut out, "Would open the `");
                append_str(&mut out, pane.label());
                append_str(&mut out, "` side pane");
            },
            AgentAction::FilterLogr { filter } => {
                append_str(&mut out, "Would filter logr to query=");
                match &filter.query {
                    None => append_str(&mut out, "None"),
                    Some(q) => {
                        append_str(&mut out, "Some(");
                        let d = debug_str(q.as_str());
                        append_str(&mut out, d.as_str());
                        append_str(&mut out, ")");
                    },
                }
                append_str(&mut out, " levels=");
                if filter.levels.len() == 0 {
                    append_str(&mut out, "all");
                } else {
                    let parts = to_char_vecs(&filter.levels);
                    let joined = join_with(&parts, ",");
                    append_chars(&mut out, &joined);
                }
            },
            AgentAction::StageHunk { hunk } => {
                append_str(&mut out, "Would stage hunk ");
                push_decimal(&mut out, hunk.hunk_index as u64);
                append_str(&mut out, " from ");
                append_str(&mut out, hunk.file.as_str());
            },
            AgentAction::WriteAnnotation { hunk, note } => {
                append_str(&mut out, "Would write annotation on ");
                append_str(&mut out, hunk.file.as_str());
                append_str(&mut out, "#");
                push_decimal(&mut out, hunk.hunk_index as u64);
                append_str(&mut out, ": ");
                append_str(&mut out, note.as_str());
            },
            AgentAction::SurfaceMessage { message } => {
                append_str(&mut out, "Would surface message: ");
                append_str(&mut out, message.as_str());
            },
        }
        string_of(&out)
    }

    /// Whether the action changes nothing in the workspace.
    pub fn is_non_destructive(&self) -> (r: bool)
        ensures
            r == non_destructive(*self),
    {
        matches!(self, AgentAction::OpenPane { .. } | AgentAction::FilterLogr { .. } | AgentAction::SurfaceMessage { .. })
    }
}

// ─── Confirmation ────────────────────────────────────────────────────

/// Whether an action waits for the user: always in passive mode, and
/// otherwise unless it changes nothing and its confidence reached the
/// threshold (a command always waits).
pub open spec fn needs_confirm_of(passive: bool, a: AgentAction, confident: bool) -> bool {
    if passive {
        true
    } else if non_destructive(a) && confident {
        false
    } else if a is RunCommand {
        true
    } else {
        !confident || !non_destructive(a)
    }
}

/// Whether an action waits for the user's confirmation, given whether
/// its confidence reached the threshold.
pub fn needs_confirm(passive: bool, action: &AgentAction, confident: bool) -> (r: bool)
    ensures
        r == needs_confirm_of(passive, *action, confident),
{
    if passive {
        true
    } else if action.is_non_destructive() && confident {
        false
    } else if matches!(action, AgentAction::RunCommand { .. }) {
        true
    } else {
        !confident || !action.is_non_destructive()
    }
}

/// Only a non-destructive action whose confidence reached the threshold
/// runs without asking, and none does in passive mode.
pub proof fn law_auto_run(passive: bool, a: AgentAction, confident: bool)
    ensures
        !needs_confirm_of(passive, a, confident) <==> (!passive && non_destructive(a) && confident),
{
}

/// An action that changes the workspace (a command, staging a hunk,
/// writing a note) always waits for the user, however confident the plan;
/// opening a pane, filtering the log viewer and showing a message run on
/// their own once confident, unless the agent is passive.
pub proof fn law_changes_need_confirmation(passive: bool, a: AgentAction, confident: bool)
    ensures
        (a is RunCommand || a is StageHunk || a is WriteAnnotation) ==> needs_confirm_of(passive, a, confident),
        (a is OpenPane || a is FilterLogr || a is SurfaceMessage) ==> (needs_confirm_of(passive, a, confident)
            <==> (passive || !confident)),
{
}

/// The position of the first action of a plan that waits for the user:
/// the actions before it run, it is proposed, and the rest are dropped.
pub open spec fn first_to_confirm_of(passive: bool, actions: Seq<AgentAction>, confident: Seq<bool>) -> Option<int>
    decreases actions.len(),
{
    if actions.len() == 0 {
        None
    } else {
        match first_to_confirm_of(passive, actions.drop_last(), confident) {
            Some(i) => Some(i),
            None => if needs_confirm_of(passive, actions.last(), confident[actions.len() - 1]) {
                Some(actions.len() - 1)
            } else {
                None
            },
        }
    }
}

/// The first action of a plan that waits for the user, if any.
pub fn first_to_confirm(passive: bool, actions: &Vec<AgentAction>, confident: &Vec<bool>) -> (r: Option<usize>)
    requires
        confident.len() == actions.len(),
    ensures
        match r {
            Some(i) => first_to_confirm_of(passive, actions@, confident@) == Some(i as int),
            None => first_to_confirm_of(passive, actions@, confident@) is None,
        },
{
    let mut i: usize = 0;
    while i < actions.len()
        invariant
            i <= actions.len(),
            confident.len() == actions.len(),
            first_to_confirm_of(passive, actions@.take(i as int), confident@) is None,
        decreases actions.len() - i,
    {
        assert(actions@.take(i + 1).drop_last() =~= actions@.take(i as int));
        if needs_confirm(passive, &actions[i], confident[i]) {
            proof {
                lemma_first_confirm_prefix(passive, actions@, confident@, i + 1);
            }
            return Some(i);
        }
        i += 1;
    }
    assert(actions@.take(actions@.len() as int) =~= actions@);
    None
}

proof fn lemma_first_confirm_prefix(passive: bool, actions: Seq<AgentAction>, confident: Seq<bool>, k: int)
    requires
        0 < k <= actions.len(),
        first_to_confirm_of(passive, actions.take(k), confident) is Some,
    ensures
        first_to_confirm_of(passive, actions, confident) == first_to_confirm_of(passive, actions.take(k), confident),
    decreases actions.len() - k,
{
    if k < actions.len() {
        assert(actions.take(k + 1).drop_last() =~= actions.take(k));
        lemma_first_confirm_prefix(passive, actions, confident, k + 1);
    } else {
        assert(actions.take(k) =~= actions);
    }
}

/// Every action before the proposed one runs without asking, and the
/// proposed one is one that asks.
pub proof fn law_first_to_confirm(passive: bool, actions: Seq<AgentAction>, confident: Seq<bool>)
    requires
        confident.len() == actions.len(),
    ensures
        match first_to_confirm_of(passive, actions, confident) {
            Some(i) => 0 <= i < actions.len() && needs_confirm_of(passive, actions[i], confident[i])
                && forall|j: int| 0 <= j < i ==> !needs_confirm_of(passive, #[trigger] actions[j], confident[j]),
            None => forall|j: int| 0 <= j < actions.len() ==> !needs_confirm_of(passive, #[trigger] actions[j], confident[j]),
        },
    decreases actions.len(),
{
    if actions.len() > 0 {
        let rest = actions.drop_last();
        let crest = confident.drop_last();
        law_first_to_confirm(passive, rest, crest);
        lemma_first_confirm_ignores_tail(passive, rest, confident, crest);
        assert forall|j: int| 0 <= j < rest.len() implies rest[j] == actions[j] && crest[j] == confident[j] by {}
    }
}

proof fn lemma_first_confirm_ignores_tail(passive: bool, actions: Seq<AgentAction>, c1: Seq<bool>, c2: Seq<bool>)
    requires
        c1.len() >= actions.len(),
        c2.len() >= actions.len(),
        forall|j: int| 0 <= j < actions.len() ==> c1[j] == c2[j],
    ensures
        first_to_confirm_of(passive, actions, c1) == first_to_confirm_of(passive, actions, c2),
    decreases actions.len(),
{
    if actions.len() > 0 {
        lemma_first_confirm_ignores_tail(passive, actions.drop_last(), c1, c2);
    }
}

// ─── Workspace events ────────────────────────────────────────────────

/// What the observer reports about the workspace.
pub enum WorkspaceEvent {
    ErrorRateSpike { count: usize },
    RepeatedError { message: String, count: usize },
    NewErrorPattern { message: String },
    CommandFailed { branch: String, command: String, exit_code: i32 },
    CommandPreviouslyFailed { branch: String, command: String },
    MergeConflict { files: Vec<String> },
    BranchDiverged { ahead: u32, behind: u32 },
    UncommittedIdle { minutes: u64, changed_files: usize },
    RiskyHunksUnmarked { count: usize },
}

#[verifier::ext_equal]
pub enum EventView {
    ErrorRateSpike { count: nat },
    RepeatedError { message: Seq<char>, count: nat },
    NewErrorPattern { message: Seq<char> },
    CommandFailed { branch: Seq<char>, command: Seq<char>, exit_code: int },
    CommandPreviouslyFailed { branch: Seq<char>, command: Seq<char> },
    MergeConflict { files: Seq<Seq<char>> },
    BranchDiverged { ahead: nat, behind: nat },
    UncommittedIdle { minutes: nat, changed_files: nat },
    RiskyHunksUnmarked { count: nat },
}

impl View for WorkspaceEvent {
    type V = EventView;

    open spec fn view(&self) -> EventView {
        match self {
            WorkspaceEvent::ErrorRateSpike { count } => EventView::ErrorRateSpike { count: *count as nat },
            WorkspaceEvent::RepeatedError { message, count } => EventView::RepeatedError {
                message: message@,
                count: *count as nat,
            },
            WorkspaceEvent::NewErrorPattern { message } => EventView::NewErrorPattern { message: message@ },
            WorkspaceEvent::CommandFailed { branch, command, exit_code } => EventView::CommandFailed {
                branch: branch@,
                command: command@,
                exit_code: *exit_code as int,
            },
            WorkspaceEvent::CommandPreviouslyFailed { branch, command } => EventView::CommandPreviouslyFailed {
                branch: branch@,
                command: command@,
            },
            WorkspaceEvent::MergeConflict { files } => EventView::MergeConflict { files: strings_view(files@) },
            WorkspaceEvent::BranchDiverged { ahead, behind } => EventView::BranchDiverged {
                ahead: *ahead as nat,
                behind: *behind as nat,
            },
            WorkspaceEvent::UncommittedIdle { minutes, changed_files } => EventView::UncommittedIdle {
                minutes: *minutes as nat,
                changed_files: *changed_files as nat,
            },
            WorkspaceEvent::RiskyHunksUnmarked { count } => EventView::RiskyHunksUnmarked { count: *count as nat },
        }
    }
}

pub open spec fn events_view(v: Seq<WorkspaceEvent>) -> Seq<EventView> {
    Seq::new(v.len(), |i: int| v[i]@)
}

/// The kind of an event, 0 to 8, in the order of the variants.
pub open spec fn event_kind(e: EventView) -> int {
    match e {
        EventView::ErrorRateSpike { .. } => 0,
        EventView::RepeatedError { .. } => 1,
        EventView::NewErrorPattern { .. } => 2,
        EventView::CommandFailed { .. } => 3,
        EventView::CommandPreviouslyFailed { .. } => 4,
        EventView::MergeConflict { .. } => 5,
        EventView::BranchDiverged { .. } => 6,
        EventView::UncommittedIdle { .. } => 7,
        EventView::RiskyHunksUnmarked { .. } => 8,
    }
}

/// The snake-case name of an event's kind.
pub open spec fn event_label_of(e: EventView) -> Seq<char> {
    match e {
        EventView::ErrorRateSpike { .. } => "error_rate_spike"@,
        EventView::RepeatedError { .. } => "repeated_error"@,
        EventView::NewErrorPattern { .. } => "new_error_pattern"@,
        EventView::CommandFailed { .. } => "command_failed"@,
        EventView::CommandPreviouslyFailed { .. } => "command_previously_failed"@,
        EventView::MergeConflict { .. } => "merge_conflict"@,
        EventView::BranchDiverged { .. } => "branch_diverged"@,
        EventView::UncommittedIdle { .. } => "uncommitted_idle"@,
        EventView::RiskyHunksUnmarked { .. } => "risky_hunks_unmarked"@,
    }
}

pub fn kind_index(e: &WorkspaceEvent) -> (k: usize)
    ensures
        k == event_kind(e@),
{
    match e {
        WorkspaceEvent::ErrorRateSpike { .. } => 0,
        WorkspaceEvent::RepeatedError { .. } => 1,
        WorkspaceEvent::NewErrorPattern { .. } => 2,
        WorkspaceEvent::CommandFailed { .. } => 3,
        WorkspaceEvent::CommandPreviouslyFailed { .. } => 4,
        WorkspaceEvent::MergeConflict { .. } => 5,
        WorkspaceEvent::BranchDiverged { .. } => 6,
        WorkspaceEvent::UncommittedIdle { .. } => 7,
        WorkspaceEvent::RiskyHunksUnmarked { .. } => 8,
    }
}

/// The snake-case name of an event's kind.
pub fn event_label(event: &WorkspaceEvent) -> (s: String)
    ensures
        s@ == event_label_of(event@),
{
    match event {
        WorkspaceEvent::ErrorRateSpike { .. } => "error_rate_spike",
        WorkspaceEvent::RepeatedError { .. } => "repeated_error",
        WorkspaceEvent::NewErrorPattern { .. } => "new_error_pattern",
        WorkspaceEvent::CommandFailed { .. } => "command_failed",
        WorkspaceEvent::CommandPreviouslyFailed { .. } => "command_previously_failed",
        WorkspaceEvent::MergeConflict { .. } => "merge_conflict",
        WorkspaceEvent::BranchDiverged { .. } => "branch_diverged",
        WorkspaceEvent::UncommittedIdle { .. } => "uncommitted_idle",
        WorkspaceEvent::RiskyHunksUnmarked { .. } => "risky_hunks_unmarked",
    }.to_string()
}

/// The labels of a batch of events, in order.
pub open spec fn event_labels_of(events: Seq<EventView>) -> Seq<Seq<char>> {
    Seq::new(events.len(), |i: int| event_label_of(events[i]))
}

/// The request the agent makes for a batch of events.
pub open spec fn events_intent_of(events: Seq<EventView>) -> Seq<char> {
    "Respond to workspace events: "@ + join_sep(event_labels_of(events), ", "@)
}

/// The labels of a batch of events.
pub fn event_labels(events: &Vec<WorkspaceEvent>) -> (out: Vec<String>)
    ensures
        strings_view(out@) == event_labels_of(events_view(events@)),
{
    let mut out: Vec<String> = Vec::new();
    let mut i: usize = 0;
    while i < events.len()
        invariant
            i <= events.len(),
            strings_view(out@) == event_labels_of(events_view(events@)).take(i as int),
        decreases events.len() - i,
    {
        let l = event_label(&events[i]);
        let ghost lv = l@;
        out.push(l);
        assert(strings_view(out@) =~= event_labels_of(events_view(events@)).take(i as int).push(lv));
        assert(event_labels_of(events_view(events@)).take(i + 1) =~= event_labels_of(events_view(events@)).take(i as int).push(lv));
        i += 1;
    }
    assert(event_labels_of(events_view(events@)).take(events@.len() as int) =~= event_labels_of(events_view(events@)));
    out
}

/// The request the agent makes for a batch of events.
pub fn events_intent(events: &Vec<WorkspaceEvent>) -> (s: String)
    ensures
        s@ == events_intent_of(events_view(events@)),
{
    let labels = event_labels(events);
    let parts = to_char_vecs(&labels);
    let joined = join_with(&parts, ", ");
    let mut out = chars_of("Respond to workspace events: ");
    append_chars(&mut out, &joined);
    string_of(&out)
}

// ─── Fallback plans ──────────────────────────────────────────────────

/// `n` in decimal with a leading `-` when negative, as `Display` writes
/// an integer.
pub open spec fn signed_decimal(n: int) -> Seq<char> {
    if n < 0 {
        "-"@ + decimal_digits((-n) as nat)
    } else {
        decimal_digits(n as nat)
    }
}

fn push_signed(out: &mut Vec<char>, n: i32)
    ensures
        final(out)@ == old(out)@ + signed_decimal(n as int),
{
    if n < 0 {
        append_str(out, "-");
        let m: i64 = -(n as i64);
        push_decimal(out, m as u64);
    } else {
        push_decimal(out, n as u64);
    }
}

#[verifier::ext_equal]
pub enum ActionView {
    RunCommand { command: Seq<char> },
    OpenPane { pane: PaneType },
    SurfaceMessage { message: Seq<char> },
    Other,
}

/// The plain form of the actions that fallback plans hold.
pub open spec fn action_view(a: AgentAction) -> ActionView {
    match a {
        AgentAction::RunCommand { command } => ActionView::RunCommand { command: command@ },
        AgentAction::OpenPane { pane } => ActionView::OpenPane { pane },
        AgentAction::SurfaceMessage { message } => ActionView::SurfaceMessage { message: message@ },
        _ => ActionView::Other,
    }
}

/// The plan used when the model gave none for a batch of events: the
/// actions for its first event, each with its confidence in hundredths.
pub open spec fn fallback_of(e: EventView) -> Seq<(ActionView, nat)> {
    match e {
        EventView::MergeConflict { files } => seq![
            (ActionView::OpenPane { pane: PaneType::Git }, 97nat),
            (ActionView::SurfaceMessage { message: "Merge conflict detected in "@ + join_sep(files, ", "@) }, 99nat),
        ],
        EventView::BranchDiverged { ahead, behind } => seq![
            (ActionView::SurfaceMessage {
                message: "Branch diverged from remote (+"@ + decimal_digits(ahead) + "/-"@ + decimal_digits(behind) + ")"@,
            }, 94nat),
        ],
        EventView::CommandFailed { command, exit_code, .. } => seq![
            (ActionView::SurfaceMessage {
                message: "Last command failed with "@ + signed_decimal(exit_code) + ": "@ + command,
            }, 91nat),
        ],
        EventView::RiskyHunksUnmarked { count } => seq![
            (ActionView::OpenPane { pane: PaneType::Git }, 93nat),
            (ActionView::SurfaceMessage { message: decimal_digits(count) + " risky hunks still need annotation"@ }, 89nat),
        ],
        _ => Seq::empty(),
    }
}

pub open spec fn plan_view(v: Seq<(AgentAction, u32)>) -> Seq<(ActionView, nat)> {
    Seq::new(v.len(), |i: int| (action_view(v[i].0), v[i].1 as nat))
}

fn surface(message: Vec<char>) -> (a: AgentAction)
    ensures
        action_view(a) == (ActionView::SurfaceMessage { message: message@ }),
{
    AgentAction::SurfaceMessage { message: string_of(&message) }
}

/// The plan used when the model gave none for an event.
pub fn fallback_actions(event: &WorkspaceEvent) -> (plan: Vec<(AgentAction, u32)>)
    ensures
        plan_view(plan@) == fallback_of(event@),
{
    let mut plan: Vec<(AgentAction, u32)> = Vec::new();
    match event {
        WorkspaceEvent::MergeConflict { files } => {
            plan.push((AgentAction::OpenPane { pane: PaneType::Git }, 97));
            let mut m = chars_of("Merge conflict detected in ");
            let parts = to_char_vecs(files);
            let joined = join_with(&parts, ", ");
            append_chars(&mut m, &joined);
            plan.push((surface(m), 99));
        },
        WorkspaceEvent::BranchDiverged { ahead, behind } => {
            let mut m = chars_of("Branch diverged from remote (+");
            push_decimal(&mut m, *ahead as u64);
            append_str(&mut m, "/-");
            push_decimal(&mut m, *behind as u64);
            append_str(&mut m, ")");
            plan.push((surface(m), 94));
        },
        WorkspaceEvent::CommandFailed { command, exit_code, .. } => {
            let mut m = chars_of("Last command failed with ");
            push_signed(&mut m, *exit_code);
            append_str(&mut m, ": ");
            append_str(&mut m, command.as_str());
            plan.push((surface(m), 91));
        },
        WorkspaceEvent::RiskyHunksUnmarked { count } => {
            plan.push((AgentAction::OpenPane { pane: PaneType::Git }, 93));
            let mut m: Vec<char> = Vec::new();
            push_decimal(&mut m, *count as u64);
            append_str(&mut m, " risky hunks still need annotation");
            plan.push((surface(m), 89));
        },
        _ => {},
    }
    assert(plan_view(plan@) =~= fallback_of(event@));
    plan
}

/// The plan used when the model gave none for a prompt.
pub fn prompt_fallback(prompt: &str) -> (r: (AgentAction, u32))
    ensures
        action_view(r.0) == (ActionView::SurfaceMessage { message: "No model output for prompt: "@ + prompt@ }),
        r.1 == 25,
{
    let mut m = chars_of("No model output for prompt: ");
    append_str(&mut m, prompt);
    (surface(m), 25)
}

// ─── The conversation log ────────────────────────────────────────────

#[derive(Clone, Copy, Debug, PartialEq, Eq, Structural)]
pub enum LogRole {
    User,
    Agent,
    System,
    Action,
}

/// How a line of each role is shown in the agent pane: the badge's style
/// class, the badge, and the text's style class.
pub open spec fn role_style_of(role: LogRole) -> (Seq<char>, Seq<char>, Seq<char>) {
    match role {
        LogRole::User => ("magma-agent-role-user"@, "$"@, "magma-agent-text-user"@),
        LogRole::Agent => ("magma-agent-role-agent"@, ">"@, "magma-agent-text-agent"@),
        LogRole::System => ("magma-agent-role-system"@, "!"@, "magma-agent-text-system"@),
        LogRole::Action => ("magma-agent-role-action"@, "*"@, "magma-agent-text-action"@),
    }
}

/// The badge's style class, the badge, and the text's style class of a
/// conversation line.
pub fn role_style(role: LogRole) -> (r: (&'static str, &'static str, &'static str))
    ensures
        (r.0@, r.1@, r.2@) == role_style_of(role),
{
    match role {
        LogRole::User => ("magma-agent-role-user", "$", "magma-agent-text-user"),
        LogRole::Agent => ("magma-agent-role-agent", ">", "magma-agent-text-agent"),
        LogRole::System => ("magma-agent-role-system", "!", "magma-agent-text-system"),
        LogRole::Action => ("magma-agent-role-action", "*", "magma-agent-text-action"),
    }
}

/// One line of the agent's conversation log.
pub struct LogLine {
    pub role: LogRole,
    pub text: String,
    pub timestamp_ms: u128,
}

/// The most lines the conversation log keeps.
pub const MAX_LOG_ENTRIES: usize = 200;

/// The last `cap` items of a sequence (all of them when it is shorter).
pub open spec fn keep_last<T>(s: Seq<T>, cap: nat) -> Seq<T> {
    if s.len() > cap {
        s.skip(s.len() - cap)
    } else {
        s
    }
}

/// Appends an item, dropping the oldest items beyond `cap`.
pub fn push_bounded<T>(v: &mut Vec<T>, item: T, cap: usize)
    requires
        old(v).len() <= cap,
    ensures
        final(v)@ == keep_last(old(v)@.push(item), cap as nat),
{
    let ghost all = old(v)@.push(item);
    v.push(item);
    let mut dropped: usize = 0;
    while v.len() > cap
        invariant
            v@ == all.skip(dropped as int),
            dropped <= all.len(),
            all.len() <= cap + 1,
            all.len() <= cap ==> dropped == 0,
            all.len() > cap ==> dropped <= all.len() - cap,
        decreases v.len(),
    {
        v.remove(0);
        assert(v@ =~= all.skip(dropped + 1));
        dropped += 1;
    }
    assert(keep_last(all, cap as nat) =~= all.skip(dropped as int));
}

/// Appends a line to the conversation log, dropping the oldest lines
/// beyond the cap.
pub fn push_log(log: &mut Vec<LogLine>, entry: LogLine)
    requires
        old(log).len() <= MAX_LOG_ENTRIES,
    ensures
        final(log)@ == keep_last(old(log)@.push(entry), MAX_LOG_ENTRIES as nat),
{
    push_bounded(log, entry, MAX_LOG_ENTRIES);
}

/// The log never holds more than its cap, and its newest line is the
/// one appended last.
pub proof fn law_log_bounded<T>(log: Seq<T>, entry: T)
    ensures
        keep_last(log.push(entry), MAX_LOG_ENTRIES as nat).len() <= MAX_LOG_ENTRIES,
        keep_last(log.push(entry), MAX_LOG_ENTRIES as nat).last() == entry,
{
}

} // verus!
