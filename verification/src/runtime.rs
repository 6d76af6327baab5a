//! The agent runtime's decisions between its outside steps: what is
//! logged and shown when a prompt arrives, when buffered workspace events
//! are sent to the model, what a failed model call falls back to, and how
//! a proposed action is confirmed, rejected or reported.
use vstd::prelude::*;

use crate::agent::{
    AgentAction, AgentActionView, LogLine, LogRole, MAX_LOG_ENTRIES, PaneType, WorkspaceEvent, event_labels,
    event_labels_of, events_intent, events_intent_of, events_view, fallback_actions, keep_last,
    prompt_fallback, push_log, strings_view,
};
use crate::text::{append_str, chars_of, decimal_digits, push_decimal, string_of};

verus! {

broadcast use vstd::string::group_string_axioms;

/// Milliseconds between model calls made for workspace events (prompts
/// are not held back).
pub const EVENT_THROTTLE_MS: u64 = 60_000;

/// An action of a plan with the bits of its confidence, which the
/// runtime carries and never reads.
pub struct PlannedAction {
    pub action: AgentAction,
    pub confidence_bits: u32,
}

impl View for PlannedAction {
    type V = (crate::agent::AgentActionView, u32);

    open spec fn view(&self) -> (crate::agent::AgentActionView, u32) {
        (self.action@, self.confidence_bits)
    }
}

fn copy_action(a: &AgentAction) -> (c: AgentAction)
    ensures
        c@ == a@,
{
    match a {
        AgentAction::RunCommand { command } => AgentAction::RunCommand { command: command.clone() },
        AgentAction::OpenPane { pane } => AgentAction::OpenPane { pane: *pane },
        AgentAction::FilterLogr { filter } => {
            let mut levels: Vec<String> = Vec::new();
            let mut i: usize = 0;
            while i < filter.levels.len()
                invariant
                    i <= filter.levels.len(),
                    levels@ == filter.levels@.take(i as int),
                decreases filter.levels.len() - i,
            {
                levels.push(filter.levels[i].clone());
                assert(levels@ =~= filter.levels@.take(i + 1));
                i += 1;
            }
            assert(levels@ =~= filter.levels@);
            let query = match &filter.query {
                Some(q) => Some(q.clone()),
                None => None,
            };
            AgentAction::FilterLogr { filter: crate::agent::LogFilter { query, levels } }
        },
        AgentAction::StageHunk { hunk } => AgentAction::StageHunk {
            hunk: crate::agent::HunkRef { file: hunk.file.clone(), hunk_index: hunk.hunk_index, branch: hunk.branch.clone() },
        },
        AgentAction::WriteAnnotation { hunk, note } => AgentAction::WriteAnnotation {
            hunk: crate::agent::HunkRef { file: hunk.file.clone(), hunk_index: hunk.hunk_index, branch: hunk.branch.clone() },
            note: note.clone(),
        },
        AgentAction::SurfaceMessage { message } => AgentAction::SurfaceMessage { message: message.clone() },
    }
}

/// A copy of a planned action.
pub fn copy_planned(p: &PlannedAction) -> (c: PlannedAction)
    ensures
        c@ == p@,
{
    PlannedAction { action: copy_action(&p.action), confidence_bits: p.confidence_bits }
}

/// What the agent pane shows: a status word, a message, the action
/// waiting for confirmation and what it would do.
pub struct UiUpdate {
    pub status: String,
    pub message: Option<String>,
    pub pending_action: Option<PlannedAction>,
    pub dry_run: Option<String>,
}

/// What a request to the model was made for.
pub enum RequestKind {
    BatchedEvents(String, Vec<WorkspaceEvent>),
    Prompt(String),
}

/// A change only the interface thread can make.
pub enum UiEffect {
    OpenPane(PaneType),
    Message(String),
    DispatchTerminalCommand(String),
}

/// The runtime state the worker keeps: the pane's view, the conversation
/// log, passive mode, the action waiting for the user, the workspace
/// events not yet sent, and when events were last sent (milliseconds of
/// a monotonic clock).
pub struct Runtime {
    pub ui: UiUpdate,
    pub log: Vec<LogLine>,
    pub passive: bool,
    pub pending: Option<PlannedAction>,
    pub buffer: Vec<WorkspaceEvent>,
    pub last_event_call_ms: Option<u64>,
}

/// The view of the pane with a status and a message and nothing pending.
pub open spec fn plain_ui(ui: UiUpdate, status: Seq<char>, message: Seq<char>) -> bool {
    &&& ui.status@ == status
    &&& ui.message matches Some(m) && m@ == message
    &&& ui.pending_action is None
    &&& ui.dry_run is None
}

/// A log line with the given role, text and time.
pub open spec fn is_line(l: LogLine, role: LogRole, text: Seq<char>, now: u128) -> bool {
    l.role == role && l.text@ == text && l.timestamp_ms == now
}

/// The log after appending one line, kept to its cap.
pub open spec fn logged(before: Seq<LogLine>, after: Seq<LogLine>, role: LogRole, text: Seq<char>, now: u128) -> bool {
    exists|l: LogLine| is_line(l, role, text, now) && after == keep_last(before.push(l), MAX_LOG_ENTRIES as nat)
}

/// The log after appending lines one by one, each time kept to its cap.
pub open spec fn appended(before: Seq<LogLine>, lines: Seq<LogLine>) -> Seq<LogLine>
    decreases lines.len(),
{
    if lines.len() == 0 {
        before
    } else {
        keep_last(appended(before, lines.drop_last()).push(lines.last()), MAX_LOG_ENTRIES as nat)
    }
}

/// The log after one `observed <label>` line per event label, in order.
pub open spec fn logged_observed(before: Seq<LogLine>, after: Seq<LogLine>, labels: Seq<Seq<char>>, now: u128) -> bool {
    exists|lines: Seq<LogLine>|
        #![trigger appended(before, lines)]
        lines.len() == labels.len() && (forall|j: int|
            0 <= j < lines.len() ==> #[trigger] is_line(lines[j], LogRole::System, "observed "@ + labels[j], now))
            && after == appended(before, lines)
}

fn set_ui(ui: &mut UiUpdate, status: &str, message: &str)
    ensures
        plain_ui(*final(ui), status@, message@),
{
    *ui = UiUpdate {
        status: status.to_string(),
        message: Some(message.to_string()),
        pending_action: None,
        dry_run: None,
    };
}

fn log_line(log: &mut Vec<LogLine>, role: LogRole, text: String, now: u128)
    requires
        old(log).len() <= MAX_LOG_ENTRIES,
    ensures
        final(log).len() <= MAX_LOG_ENTRIES,
        logged(old(log)@, final(log)@, role, text@, now),
{
    let l = LogLine { role, text, timestamp_ms: now };
    assert(is_line(l, role, l.text@, now));
    push_log(log, l);
}

/// The plain form of an interface change.
pub enum EffectView {
    OpenPane(PaneType),
    Message(Seq<char>),
    DispatchTerminalCommand(Seq<char>),
}

pub open spec fn effect_view(e: UiEffect) -> EffectView {
    match e {
        UiEffect::OpenPane(p) => EffectView::OpenPane(p),
        UiEffect::Message(m) => EffectView::Message(m@),
        UiEffect::DispatchTerminalCommand(c) => EffectView::DispatchTerminalCommand(c@),
    }
}

/// The change an action asks of the interface once its own work (writing
/// the log filter request, staging the hunk, writing the note) is done: a
/// message is shown, a pane opened (the log pane for a filter), a command
/// handed to the terminal, or what was staged or annotated reported.
pub open spec fn success_effect_of(a: AgentActionView) -> EffectView {
    match a {
        AgentActionView::SurfaceMessage { message } => EffectView::Message(message),
        AgentActionView::OpenPane { pane } => EffectView::OpenPane(pane),
        AgentActionView::FilterLogr { .. } => EffectView::OpenPane(PaneType::Logr),
        AgentActionView::StageHunk { file, hunk_index, .. } => EffectView::Message(
            "staged "@ + file + "#"@ + decimal_digits(hunk_index),
        ),
        AgentActionView::WriteAnnotation { file, hunk_index, .. } => EffectView::Message(
            "annotated "@ + file + "#"@ + decimal_digits(hunk_index),
        ),
        AgentActionView::RunCommand { command } => EffectView::DispatchTerminalCommand(command),
    }
}

fn hunk_message(prefix: &str, file: &String, index: usize) -> (s: String)
    ensures
        s@ == prefix@ + file@ + "#"@ + decimal_digits(index as nat),
{
    let mut out = chars_of(prefix);
    append_str(&mut out, file.as_str());
    append_str(&mut out, "#");
    push_decimal(&mut out, index as u64);
    string_of(&out)
}

/// The change an action asks of the interface once its own work is done.
pub fn success_effect(action: &AgentAction) -> (e: UiEffect)
    ensures
        effect_view(e) == success_effect_of(action@),
{
    match action {
        AgentAction::SurfaceMessage { message } => UiEffect::Message(message.clone()),
        AgentAction::OpenPane { pane } => UiEffect::OpenPane(*pane),
        AgentAction::FilterLogr { .. } => UiEffect::OpenPane(PaneType::Logr),
        AgentAction::StageHunk { hunk } => UiEffect::Message(hunk_message("staged ", &hunk.file, hunk.hunk_index)),
        AgentAction::WriteAnnotation { hunk, .. } => UiEffect::Message(hunk_message("annotated ", &hunk.file, hunk.hunk_index)),
        AgentAction::RunCommand { command } => UiEffect::DispatchTerminalCommand(command.clone()),
    }
}

/// The message an effect leaves in the pane and the log.
pub open spec fn effect_message_of(e: UiEffect) -> Seq<char> {
    match e {
        UiEffect::OpenPane(p) => "opened "@ + pane_debug_of(p),
        UiEffect::Message(m) => m@,
        UiEffect::DispatchTerminalCommand(c) => c@,
    }
}

/// The variant name of a pane, as `{:?}` writes it.
pub open spec fn pane_debug_of(p: PaneType) -> Seq<char> {
    match p {
        PaneType::Logr => "Logr"@,
        PaneType::Web => "Web"@,
        PaneType::View => "View"@,
        PaneType::Git => "Git"@,
        PaneType::Agent => "Agent"@,
        PaneType::Notes => "Notes"@,
    }
}

/// The message an effect leaves in the pane and the log.
pub fn effect_message(e: &UiEffect) -> (s: String)
    ensures
        s@ == effect_message_of(*e),
{
    match e {
        UiEffect::OpenPane(p) => {
            let mut out = chars_of("opened ");
            let name = match p {
                PaneType::Logr => "Logr",
                PaneType::Web => "Web",
                PaneType::View => "View",
                PaneType::Git => "Git",
                PaneType::Agent => "Agent",
                PaneType::Notes => "Notes",
            };
            append_str(&mut out, name);
            string_of(&out)
        },
        UiEffect::Message(m) => m.clone(),
        UiEffect::DispatchTerminalCommand(c) => c.clone(),
    }
}

impl Runtime {
    /// A runtime that has just started watching.
    pub fn new(passive: bool) -> (rt: Runtime)
        ensures
            plain_ui(rt.ui, "Watching"@, "observer online"@),
            rt.log@.len() == 0,
            rt.passive == passive,
            rt.pending is None,
            rt.buffer@.len() == 0,
            rt.last_event_call_ms is None,
    {
        Runtime {
            ui: UiUpdate {
                status: "Watching".to_string(),
                message: Some("observer online".to_string()),
                pending_action: None,
                dry_run: None,
            },
            log: Vec::new(),
            passive,
            pending: None,
            buffer: Vec::new(),
            last_event_call_ms: None,
        }
    }

    /// A prompt from the user: it is logged and sent to the model at
    /// once, whatever the event throttle says.
    pub fn submit_prompt(&mut self, prompt: String, now: u128) -> (req: RequestKind)
        requires
            old(self).log.len() <= MAX_LOG_ENTRIES,
        ensures
            final(self).log.len() <= MAX_LOG_ENTRIES,
            logged(old(self).log@, final(self).log@, LogRole::User, prompt@, now),
            plain_ui(final(self).ui, "Thinking"@, "processing prompt"@),
            req matches RequestKind::Prompt(p) && p@ == prompt@,
            final(self).pending == old(self).pending,
            final(self).passive == old(self).passive,
            final(self).buffer == old(self).buffer,
            final(self).last_event_call_ms == old(self).last_event_call_ms,
    {
        let text = prompt.clone();
        log_line(&mut self.log, LogRole::User, text, now);
        set_ui(&mut self.ui, "Thinking", "processing prompt");
        RequestKind::Prompt(prompt)
    }

    /// The user's answer to the proposed action: the action to apply when
    /// accepted; a rejection is logged and shown. Nothing happens when no
    /// action waits.
    pub fn decide(&mut self, accept: bool, now: u128) -> (apply: Option<PlannedAction>)
        requires
            old(self).log.len() <= MAX_LOG_ENTRIES,
        ensures
            final(self).log.len() <= MAX_LOG_ENTRIES,
            final(self).pending is None,
            final(self).passive == old(self).passive,
            final(self).buffer == old(self).buffer,
            final(self).last_event_call_ms == old(self).last_event_call_ms,
            match old(self).pending {
                None => apply is None && final(self).log == old(self).log && final(self).ui == old(self).ui,
                Some(a) => if accept {
                    &&& apply == Some(a)
                    &&& logged(old(self).log@, final(self).log@, LogRole::System, "action confirmed"@, now)
                    &&& final(self).ui == old(self).ui
                } else {
                    &&& apply is None
                    &&& logged(old(self).log@, final(self).log@, LogRole::System, "action rejected"@, now)
                    &&& plain_ui(final(self).ui, "Watching"@, "action rejected"@)
                },
            },
    {
        let pending = self.pending.take();
        match pending {
            None => None,
            Some(action) => {
                if accept {
                    log_line(&mut self.log, LogRole::System, "action confirmed".to_string(), now);
                    Some(action)
                } else {
                    log_line(&mut self.log, LogRole::System, "action rejected".to_string(), now);
                    set_ui(&mut self.ui, "Watching", "action rejected");
                    None
                }
            },
        }
    }

    /// Switches passive mode, in which every action waits for the user.
    pub fn set_passive(&mut self, passive: bool)
        ensures
            final(self).passive == passive,
            final(self).log == old(self).log,
            final(self).ui == old(self).ui,
            final(self).pending == old(self).pending,
            final(self).buffer == old(self).buffer,
            final(self).last_event_call_ms == old(self).last_event_call_ms,
    {
        self.passive = passive;
    }

    /// Keeps workspace events until they may be sent.
    pub fn buffer_event(&mut self, event: WorkspaceEvent)
        ensures
            final(self).buffer@ == old(self).buffer@.push(event),
            final(self).log == old(self).log,
            final(self).ui == old(self).ui,
            final(self).pending == old(self).pending,
            final(self).passive == old(self).passive,
            final(self).last_event_call_ms == old(self).last_event_call_ms,
    {
        self.buffer.push(event);
    }

    /// Whether buffered events may go to the model at `now`: there are
    /// some, no action waits for the user, and the last batch went out at
    /// least the throttle ago.
    pub open spec fn events_due(&self, now: u64) -> bool {
        &&& self.buffer@.len() > 0
        &&& self.pending is None
        &&& match self.last_event_call_ms {
            None => true,
            Some(t) => now >= t && now - t >= EVENT_THROTTLE_MS,
        }
    }

    /// Sends the buffered events, all in one request, when they are due:
    /// each is logged as observed, the pane shows that events are being
    /// processed, and the throttle restarts.
    pub fn take_due_events(&mut self, now: u64, now_ts: u128) -> (req: Option<RequestKind>)
        requires
            old(self).log.len() <= MAX_LOG_ENTRIES,
        ensures
            final(self).log.len() <= MAX_LOG_ENTRIES,
            final(self).pending == old(self).pending,
            final(self).passive == old(self).passive,
            !old(self).events_due(now) ==> req is None && final(self).log == old(self).log
                && final(self).ui == old(self).ui && final(self).buffer == old(self).buffer
                && final(self).last_event_call_ms == old(self).last_event_call_ms,
            old(self).events_due(now) ==> {
                &&& req matches Some(RequestKind::BatchedEvents(intent, events))
                    && events@ == old(self).buffer@
                    && intent@ == events_intent_of(events_view(old(self).buffer@))
                &&& final(self).buffer@.len() == 0
                &&& final(self).last_event_call_ms == Some(now)
                &&& plain_ui(final(self).ui, "Thinking"@, "processing events"@)
                &&& logged_observed(old(self).log@, final(self).log@, event_labels_of(events_view(old(self).buffer@)), now_ts)
            },
    {
        let due = self.buffer.len() > 0 && self.pending.is_none() && match self.last_event_call_ms {
            None => true,
            Some(t) => now >= t && now - t >= EVENT_THROTTLE_MS,
        };
        if !due {
            return None;
        }
        let mut events: Vec<WorkspaceEvent> = Vec::new();
        std::mem::swap(&mut events, &mut self.buffer);
        let labels = event_labels(&events);
        let intent = events_intent(&events);
        let ghost pending0 = self.pending;
        let ghost passive0 = self.passive;
        let ghost log0 = self.log@;
        let ghost lv = strings_view(labels@);
        let ghost mut lines: Seq<LogLine> = Seq::empty();
        let mut i: usize = 0;
        assert(self.buffer@.len() == 0);
        while i < labels.len()
            invariant
                i <= labels.len(),
                self.log.len() <= MAX_LOG_ENTRIES,
                self.pending == pending0,
                self.passive == passive0,
                self.buffer@.len() == 0,
                lv == strings_view(labels@),
                lines.len() == i,
                forall|j: int| 0 <= j < i ==> #[trigger] is_line(lines[j], LogRole::System, "observed "@ + lv[j], now_ts),
                self.log@ == appended(log0, lines),
            decreases labels.len() - i,
        {
            let mut text = chars_of("observed ");
            append_str(&mut text, labels[i].as_str());
            let ghost before = self.log@;
            let line_text = string_of(&text);
            assert(line_text@ == "observed "@ + lv[i as int]);
            log_line(&mut self.log, LogRole::System, line_text, now_ts);
            proof {
                let l = choose|l: LogLine| is_line(l, LogRole::System, line_text@, now_ts) && self.log@ == keep_last(before.push(l), MAX_LOG_ENTRIES as nat);
                let next = lines.push(l);
                assert(next.drop_last() =~= lines);
                lines = next;
            }
            i += 1;
        }
        assert(logged_observed(log0, self.log@, lv, now_ts));
        self.last_event_call_ms = Some(now);
        set_ui(&mut self.ui, "Thinking", "processing events");
        Some(RequestKind::BatchedEvents(intent, events))
    }

    /// The model failed: the error is logged, and the plan falls back to
    /// the first event's plan, or to showing that the prompt got no
    /// answer.
    pub fn model_failed(&mut self, error: &str, kind: &RequestKind, now: u128) -> (plan: Vec<(AgentAction, u32)>)
        requires
            old(self).log.len() <= MAX_LOG_ENTRIES,
        ensures
            final(self).log.len() <= MAX_LOG_ENTRIES,
            logged(old(self).log@, final(self).log@, LogRole::System, "model error: "@ + error@, now),
            final(self).ui == old(self).ui,
            final(self).pending == old(self).pending,
            final(self).passive == old(self).passive,
            final(self).buffer == old(self).buffer,
            final(self).last_event_call_ms == old(self).last_event_call_ms,
            match kind {
                RequestKind::BatchedEvents(_, events) => if events@.len() > 0 {
                    crate::agent::plan_view(plan@) == crate::agent::fallback_of(events@[0]@)
                } else {
                    plan@.len() == 0
                },
                RequestKind::Prompt(p) => plan@.len() == 1 && crate::agent::action_view(plan@[0].0) == (
                crate::agent::ActionView::SurfaceMessage { message: "No model output for prompt: "@ + p@ }) && plan@[0].1 == 25,
            },
    {
        let mut text = chars_of("model error: ");
        append_str(&mut text, error);
        log_line(&mut self.log, LogRole::System, string_of(&text), now);
        match kind {
            RequestKind::BatchedEvents(_, events) => {
                if events.len() > 0 {
                    fallback_actions(&events[0])
                } else {
                    Vec::new()
                }
            },
            RequestKind::Prompt(p) => {
                let mut v: Vec<(AgentAction, u32)> = Vec::new();
                v.push(prompt_fallback(p.as_str()));
                v
            },
        }
    }

    /// The model planned nothing.
    pub fn no_action(&mut self, now: u128)
        requires
            old(self).log.len() <= MAX_LOG_ENTRIES,
        ensures
            final(self).log.len() <= MAX_LOG_ENTRIES,
            logged(old(self).log@, final(self).log@, LogRole::Agent, "no action needed"@, now),
            plain_ui(final(self).ui, "Watching"@, "no action"@),
            final(self).pending == old(self).pending,
            final(self).passive == old(self).passive,
            final(self).buffer == old(self).buffer,
            final(self).last_event_call_ms == old(self).last_event_call_ms,
    {
        log_line(&mut self.log, LogRole::Agent, "no action needed".to_string(), now);
        set_ui(&mut self.ui, "Watching", "no action");
    }

    /// Proposes an action to the user: it is logged with its confidence
    /// (`percent`, as shown), waits, and the pane shows what it would do.
    pub fn propose(&mut self, planned: PlannedAction, dry_run: String, percent: &str, now: u128)
        requires
            old(self).log.len() <= MAX_LOG_ENTRIES,
        ensures
            final(self).log.len() <= MAX_LOG_ENTRIES,
            logged(old(self).log@, final(self).log@, LogRole::Agent,
                "proposed: "@ + dry_run@ + " (confidence "@ + percent@ + "%)"@, now),
            final(self).pending == Some(planned),
            final(self).ui.status@ == "Awaiting"@,
            final(self).ui.message matches Some(m) && m@ == "action proposed"@,
            final(self).ui.pending_action matches Some(shown) && shown@ == planned@,
            final(self).ui.dry_run matches Some(d) && d@ == dry_run@,
            final(self).passive == old(self).passive,
            final(self).buffer == old(self).buffer,
            final(self).last_event_call_ms == old(self).last_event_call_ms,
    {
        let mut text = chars_of("proposed: ");
        append_str(&mut text, dry_run.as_str());
        append_str(&mut text, " (confidence ");
        append_str(&mut text, percent);
        append_str(&mut text, "%)");
        log_line(&mut self.log, LogRole::Agent, string_of(&text), now);
        let shown = copy_planned(&planned);
        self.pending = Some(planned);
        self.ui = UiUpdate {
            status: "Awaiting".to_string(),
            message: Some("action proposed".to_string()),
            pending_action: Some(shown),
            dry_run: Some(dry_run),
        };
    }

    /// An action is about to run without asking.
    pub fn executing(&mut self, dry_run: &str, now: u128)
        requires
            old(self).log.len() <= MAX_LOG_ENTRIES,
        ensures
            final(self).log.len() <= MAX_LOG_ENTRIES,
            logged(old(self).log@, final(self).log@, LogRole::Agent, "executing: "@ + dry_run@, now),
            final(self).ui == old(self).ui,
            final(self).pending == old(self).pending,
            final(self).passive == old(self).passive,
            final(self).buffer == old(self).buffer,
            final(self).last_event_call_ms == old(self).last_event_call_ms,
    {
        let mut text = chars_of("executing: ");
        append_str(&mut text, dry_run);
        log_line(&mut self.log, LogRole::Agent, string_of(&text), now);
    }

    /// What applying an action gave: an effect's message, or the error, is
    /// logged and shown; an action without effect leaves both as they are.
    pub fn applied(&mut self, result: &Result<Option<UiEffect>, String>, now: u128)
        requires
            old(self).log.len() <= MAX_LOG_ENTRIES,
        ensures
            final(self).log.len() <= MAX_LOG_ENTRIES,
            final(self).pending == old(self).pending,
            final(self).passive == old(self).passive,
            final(self).buffer == old(self).buffer,
            final(self).last_event_call_ms == old(self).last_event_call_ms,
            match result {
                Ok(Some(e)) => logged(old(self).log@, final(self).log@, LogRole::Action, effect_message_of(*e), now)
                    && plain_ui(final(self).ui, "Watching"@, effect_message_of(*e)),
                Ok(None) => final(self).log == old(self).log && final(self).ui == old(self).ui,
                Err(msg) => logged(old(self).log@, final(self).log@, LogRole::System, "error: "@ + msg@, now)
                    && plain_ui(final(self).ui, "Watching"@, msg@),
            },
    {
        match result {
            Ok(Some(effect)) => {
                let message = effect_message(effect);
                log_line(&mut self.log, LogRole::Action, message.clone(), now);
                set_ui(&mut self.ui, "Watching", message.as_str());
            },
            Ok(None) => {},
            Err(error) => {
                let mut text = chars_of("error: ");
                append_str(&mut text, error.as_str());
                log_line(&mut self.log, LogRole::System, string_of(&text), now);
                set_ui(&mut self.ui, "Watching", error.as_str());
            },
        }
    }
}

/// Workspace events are never sent to the model while an action waits
/// for the user.
pub proof fn law_no_events_while_pending(rt: Runtime, now: u64)
    requires
        rt.pending is Some,
    ensures
        !rt.events_due(now),
{
}

} // verus!
