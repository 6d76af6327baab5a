use magma::agent::{
    event_label, event_labels, events_intent, fallback_actions, first_to_confirm, kind_index, needs_confirm,
    prompt_fallback, push_bounded, push_log, AgentAction, HunkRef, LogFilter, LogLine, LogRole, PaneType,
    WorkspaceEvent, MAX_LOG_ENTRIES,
};
use magma::model::{
    after_fallback, after_primary, check_permissions, parse_env_value, read_reply, strip_markdown_fences,
    system_prompt, PrimaryStep, RateLimit,
};
use magma::observer::{repeated_error, Observation, ObserverState};
use magma::runtime::{effect_message, success_effect, PlannedAction, RequestKind, Runtime, UiEffect};

fn surface_text(a: &AgentAction) -> String {
    match a {
        AgentAction::SurfaceMessage { message } => message.clone(),
        _ => panic!("not a message"),
    }
}

#[test]
fn dry_run_sentences() {
    let run = AgentAction::RunCommand { command: "cargo test".to_string() };
    assert_eq!(run.dry_run(), "Would run `cargo test` in the current workspace");
    assert_eq!(AgentAction::OpenPane { pane: PaneType::View }.dry_run(), "Would open the `viewer` side pane");
    let filter = AgentAction::FilterLogr {
        filter: LogFilter { query: Some("say \"hi\"".to_string()), levels: vec!["warn".to_string(), "error".to_string()] },
    };
    assert_eq!(filter.dry_run(), "Would filter logr to query=Some(\"say \\\"hi\\\"\") levels=warn,error");
    let all = AgentAction::FilterLogr { filter: LogFilter { query: None, levels: Vec::new() } };
    assert_eq!(all.dry_run(), "Would filter logr to query=None levels=all");
    let hunk = HunkRef { file: "a.rs".to_string(), hunk_index: 2, branch: "main".to_string() };
    assert_eq!(AgentAction::StageHunk { hunk }.dry_run(), "Would stage hunk 2 from a.rs");
    let hunk = HunkRef { file: "a.rs".to_string(), hunk_index: 0, branch: "main".to_string() };
    assert_eq!(
        AgentAction::WriteAnnotation { hunk, note: "check".to_string() }.dry_run(),
        "Would write annotation on a.rs#0: check"
    );
    assert_eq!(AgentAction::SurfaceMessage { message: "hi".to_string() }.dry_run(), "Would surface message: hi");
}

#[test]
fn confirmation_rules() {
    let open = AgentAction::OpenPane { pane: PaneType::Git };
    let run = AgentAction::RunCommand { command: "ls".to_string() };
    assert!(open.is_non_destructive());
    assert!(!run.is_non_destructive());
    assert!(!needs_confirm(false, &open, true));
    assert!(needs_confirm(false, &open, false));
    assert!(needs_confirm(true, &open, true));
    assert!(needs_confirm(false, &run, true));
    let actions = vec![open, run, AgentAction::SurfaceMessage { message: "m".to_string() }];
    assert_eq!(first_to_confirm(false, &actions, &vec![true, true, true]), Some(1));
    assert_eq!(first_to_confirm(false, &actions, &vec![false, true, true]), Some(0));
    let safe = vec![AgentAction::OpenPane { pane: PaneType::Logr }];
    assert_eq!(first_to_confirm(false, &safe, &vec![true]), None);
    assert_eq!(first_to_confirm(true, &safe, &vec![true]), Some(0));
}

#[test]
fn event_names_and_intent() {
    let events = vec![
        WorkspaceEvent::MergeConflict { files: vec!["a".to_string()] },
        WorkspaceEvent::BranchDiverged { ahead: 1, behind: 2 },
    ];
    assert_eq!(event_label(&events[0]), "merge_conflict");
    assert_eq!(kind_index(&events[1]), 6);
    assert_eq!(event_labels(&events), vec!["merge_conflict".to_string(), "branch_diverged".to_string()]);
    assert_eq!(events_intent(&events), "Respond to workspace events: merge_conflict, branch_diverged");
}

#[test]
fn fallback_plans() {
    let plan = fallback_actions(&WorkspaceEvent::MergeConflict { files: vec!["a.rs".to_string(), "b.rs".to_string()] });
    assert_eq!(plan.len(), 2);
    assert!(matches!(plan[0].0, AgentAction::OpenPane { pane: PaneType::Git }));
    assert_eq!(plan[0].1, 97);
    assert_eq!(surface_text(&plan[1].0), "Merge conflict detected in a.rs, b.rs");
    assert_eq!(plan[1].1, 99);
    let plan = fallback_actions(&WorkspaceEvent::BranchDiverged { ahead: 3, behind: 4 });
    assert_eq!(surface_text(&plan[0].0), "Branch diverged from remote (+3/-4)");
    assert_eq!(plan[0].1, 94);
    let plan = fallback_actions(&WorkspaceEvent::CommandFailed {
        branch: "main".to_string(),
        command: "make".to_string(),
        exit_code: -2,
    });
    assert_eq!(surface_text(&plan[0].0), "Last command failed with -2: make");
    let plan = fallback_actions(&WorkspaceEvent::RiskyHunksUnmarked { count: 5 });
    assert_eq!(surface_text(&plan[1].0), "5 risky hunks still need annotation");
    assert_eq!(plan[1].1, 89);
    assert!(fallback_actions(&WorkspaceEvent::ErrorRateSpike { count: 9 }).is_empty());
    let (a, c) = prompt_fallback("why?");
    assert_eq!(surface_text(&a), "No model output for prompt: why?");
    assert_eq!(c, 25);
}

#[test]
fn conversation_log_is_bounded() {
    let mut v: Vec<u32> = vec![1, 2, 3];
    push_bounded(&mut v, 4, 3);
    assert_eq!(v, vec![2, 3, 4]);
    let mut log: Vec<LogLine> = Vec::new();
    for i in 0..(MAX_LOG_ENTRIES as u128 + 5) {
        push_log(&mut log, LogLine { role: LogRole::User, text: i.to_string(), timestamp_ms: i });
    }
    assert_eq!(log.len(), MAX_LOG_ENTRIES);
    assert_eq!(log[0].text, "5");
    assert_eq!(log[MAX_LOG_ENTRIES - 1].timestamp_ms, MAX_LOG_ENTRIES as u128 + 4);
}

fn observation() -> Observation {
    Observation {
        log_entries: vec![
            ("ERROR".to_string(), "disk full".to_string()),
            ("WARN".to_string(), "disk full".to_string()),
            ("INFO".to_string(), "ok".to_string()),
            ("ERROR".to_string(), "disk full".to_string()),
            ("error".to_string(), "lower case is not counted".to_string()),
        ],
        branch: Some("main".to_string()),
        last_exit_code: Some(1),
        last_command: Some("make".to_string()),
        conflicted: vec!["c.rs".to_string()],
        ahead: 1,
        behind: 2,
        dirty_count: 2,
        risky_unannotated: 1,
    }
}

#[test]
fn repeated_errors_need_three() {
    let e = vec!["a".to_string(), "b".to_string(), "a".to_string(), "b".to_string(), "b".to_string(), "a".to_string()];
    assert_eq!(repeated_error(&e), Some(("a".to_string(), 3)));
    assert_eq!(repeated_error(&vec!["x".to_string(), "x".to_string()]), None);
}

#[test]
fn observer_reports_then_cools_down() {
    let mut st = ObserverState::new();
    let t0: u64 = 1_000_000_000_000;
    let events = st.observe(&observation(), t0, 180);
    let labels: Vec<String> = events.iter().map(event_label).collect();
    assert_eq!(
        labels,
        vec![
            "repeated_error",
            "new_error_pattern",
            "command_failed",
            "merge_conflict",
            "branch_diverged",
            "risky_hunks_unmarked"
        ]
    );
    match &events[0] {
        WorkspaceEvent::RepeatedError { message, count } => {
            assert_eq!(message, "disk full");
            assert_eq!(*count, 3);
        }
        _ => panic!("expected a repeated error"),
    }
    // Ten seconds later only the repeated failure of the same command is news.
    let again = st.observe(&observation(), t0 + 10_000_000_000, 180);
    let labels: Vec<String> = again.iter().map(event_label).collect();
    assert_eq!(labels, vec!["command_previously_failed"]);
    // After the cooldown and the idle time, the kinds come back.
    let later = st.observe(&observation(), t0 + 200_000_000_000, 180);
    let labels: Vec<String> = later.iter().map(event_label).collect();
    assert_eq!(
        labels,
        vec![
            "repeated_error",
            "command_previously_failed",
            "merge_conflict",
            "branch_diverged",
            "uncommitted_idle",
            "risky_hunks_unmarked"
        ]
    );
    match &later[4] {
        WorkspaceEvent::UncommittedIdle { minutes, changed_files } => {
            assert_eq!(*minutes, 3);
            assert_eq!(*changed_files, 2);
        }
        _ => panic!("expected idle changes"),
    }
}

#[test]
fn rate_limit_budget() {
    let mut r = RateLimit::new(0);
    for i in 0..8u64 {
        let wait = r.claim_slot(i * 2_000).unwrap();
        assert_eq!(wait, 0);
        r.record(i * 2_000);
    }
    assert_eq!(r.claim_slot(16_500).unwrap_err(), "local rate limit (8/min); backing off 30s");
    assert_eq!(r.take_backoff(20_000), 26_500);
    assert_eq!(r.take_backoff(20_000), 0);
    assert_eq!(r.claim_slot(60_000), Ok(0));
    assert_eq!(r.requests_in_window, 0);
    r.record(60_000);
    assert_eq!(r.claim_slot(60_500), Ok(1_500));
    r.on_rate_limited(61_000);
    assert_eq!(r.take_backoff(61_000), 60_000);
}

#[test]
fn curl_replies() {
    assert_eq!(read_reply("m", "{\"a\":1}\n200", "", true), Ok("{\"a\":1}".to_string()));
    assert_eq!(read_reply("m", "slow down\n429", "", true), Err((429, "m rate limited (429)".to_string())));
    assert_eq!(read_reply("m", "bad\n500", "", true), Err((500, "m error (HTTP 500): bad".to_string())));
    assert_eq!(read_reply("m", "x", " boom \n", false), Err((0, "m error (HTTP 0): boom".to_string())));
    match after_primary(Err((429, "r".to_string()))) {
        PrimaryStep::TryFallback => {}
        _ => panic!("expected the second model"),
    }
    match after_primary(Err((500, "e".to_string()))) {
        PrimaryStep::Fail(m) => assert_eq!(m, "e"),
        _ => panic!("expected a failure"),
    }
    match after_primary(Ok("body".to_string())) {
        PrimaryStep::Body(b) => assert_eq!(b, "body"),
        _ => panic!("expected a body"),
    }
    assert_eq!(after_fallback(Err((429, "x".to_string()))), (Err("both models failed: x".to_string()), true));
    assert_eq!(after_fallback(Ok("b".to_string())), (Ok("b".to_string()), false));
}

#[test]
fn env_files_and_permissions() {
    let env = "# comment\n\nOTHER=1\n GROQ_API_KEY = \"'SECRET-REDACTED'\" \nGROQ_API_KEY=second\n";
    assert_eq!(parse_env_value(env, "GROQ_API_KEY").as_deref(), Some("SECRET-REDACTED"));
    assert_eq!(parse_env_value(env, "MISSING"), None);
    assert_eq!(check_permissions(0o600, "/k/.env"), Ok(()));
    assert_eq!(
        check_permissions(0o644, "/k/.env"),
        Err("/k/.env permissions are too open; run `chmod 600 /k/.env`".to_string())
    );
}

#[test]
fn fences_are_stripped() {
    assert_eq!(strip_markdown_fences("```json\n[1]\n```"), "[1]");
    assert_eq!(strip_markdown_fences("  ```\n{}\n``` "), "{}");
    assert_eq!(strip_markdown_fences(" plain "), "plain");
    assert!(system_prompt().contains("JSON"));
}

fn planned(message: &str) -> PlannedAction {
    PlannedAction { action: AgentAction::SurfaceMessage { message: message.to_string() }, confidence_bits: 0 }
}

#[test]
fn runtime_prompt_and_confirmation() {
    let mut rt = Runtime::new(true);
    assert_eq!(rt.ui.status, "Watching");
    assert_eq!(rt.ui.message.as_deref(), Some("observer online"));
    match rt.submit_prompt("hello".to_string(), 5) {
        RequestKind::Prompt(p) => assert_eq!(p, "hello"),
        _ => panic!("expected a prompt"),
    }
    assert_eq!(rt.ui.status, "Thinking");
    assert_eq!(rt.log.len(), 1);
    assert_eq!(rt.log[0].role, LogRole::User);
    rt.propose(planned("note"), "Would surface message: note".to_string(), "80", 6);
    assert_eq!(rt.ui.status, "Awaiting");
    assert_eq!(rt.log[1].text, "proposed: Would surface message: note (confidence 80%)");
    assert!(rt.decide(false, 7).is_none());
    assert_eq!(rt.log[2].text, "action rejected");
    assert_eq!(rt.ui.message.as_deref(), Some("action rejected"));
    assert!(rt.decide(true, 8).is_none());
    assert_eq!(rt.log.len(), 3);
    rt.propose(planned("x"), "d".to_string(), "90", 9);
    let applied = rt.decide(true, 10).unwrap();
    assert_eq!(applied.action.dry_run(), "Would surface message: x");
    assert_eq!(rt.log[4].text, "action confirmed");
    rt.applied(&Ok(Some(UiEffect::OpenPane(PaneType::Git))), 11);
    assert_eq!(rt.ui.message.as_deref(), Some("opened Git"));
    assert_eq!(rt.log[5].role, LogRole::Action);
    rt.applied(&Err("boom".to_string()), 12);
    assert_eq!(rt.log[6].text, "error: boom");
    assert_eq!(rt.ui.message.as_deref(), Some("boom"));
    rt.no_action(13);
    assert_eq!(rt.log[7].text, "no action needed");
    rt.executing("Would open", 14);
    assert_eq!(rt.log[8].text, "executing: Would open");
    assert_eq!(effect_message(&UiEffect::Message("m".to_string())), "m");
}

#[test]
fn runtime_throttles_event_batches() {
    let mut rt = Runtime::new(false);
    assert!(rt.take_due_events(1_000, 1).is_none());
    rt.buffer_event(WorkspaceEvent::MergeConflict { files: vec!["a".to_string()] });
    rt.buffer_event(WorkspaceEvent::RiskyHunksUnmarked { count: 1 });
    match rt.take_due_events(1_000, 1) {
        Some(RequestKind::BatchedEvents(intent, events)) => {
            assert_eq!(intent, "Respond to workspace events: merge_conflict, risky_hunks_unmarked");
            assert_eq!(events.len(), 2);
        }
        _ => panic!("expected a batch"),
    }
    assert_eq!(rt.log[0].text, "observed merge_conflict");
    assert_eq!(rt.log[1].text, "observed risky_hunks_unmarked");
    assert_eq!(rt.ui.message.as_deref(), Some("processing events"));
    rt.buffer_event(WorkspaceEvent::ErrorRateSpike { count: 8 });
    assert!(rt.take_due_events(30_000, 2).is_none());
    assert_eq!(rt.buffer.len(), 1);
    rt.propose(planned("wait"), "d".to_string(), "50", 3);
    assert!(rt.take_due_events(70_000, 4).is_none());
    rt.decide(false, 5);
    let req = rt.take_due_events(70_000, 6).unwrap();
    let plan = rt.model_failed("timeout", &req, 7);
    assert!(plan.is_empty());
    assert_eq!(rt.log.last().unwrap().text, "model error: timeout");
    let prompt = RequestKind::Prompt("p".to_string());
    let plan = rt.model_failed("x", &prompt, 8);
    assert_eq!(surface_text(&plan[0].0), "No model output for prompt: p");
    rt.set_passive(true);
    assert!(rt.passive);
}

#[test]
fn effects_after_actions() {
    let hunk = HunkRef { file: "a.rs".to_string(), hunk_index: 3, branch: "main".to_string() };
    match success_effect(&AgentAction::StageHunk { hunk }) {
        UiEffect::Message(m) => assert_eq!(m, "staged a.rs#3"),
        _ => panic!("expected a message"),
    }
    let hunk = HunkRef { file: "b.rs".to_string(), hunk_index: 0, branch: "main".to_string() };
    match success_effect(&AgentAction::WriteAnnotation { hunk, note: "n".to_string() }) {
        UiEffect::Message(m) => assert_eq!(m, "annotated b.rs#0"),
        _ => panic!("expected a message"),
    }
    let filter = AgentAction::FilterLogr { filter: LogFilter { query: None, levels: Vec::new() } };
    assert!(matches!(success_effect(&filter), UiEffect::OpenPane(PaneType::Logr)));
    match success_effect(&AgentAction::RunCommand { command: "ls".to_string() }) {
        UiEffect::DispatchTerminalCommand(c) => assert_eq!(c, "ls"),
        _ => panic!("expected a command"),
    }
}

use magma::agent::role_style;

#[test]
fn conversation_badges() {
    assert_eq!(role_style(LogRole::User), ("magma-agent-role-user", "$", "magma-agent-text-user"));
    assert_eq!(role_style(LogRole::Agent), ("magma-agent-role-agent", ">", "magma-agent-text-agent"));
    assert_eq!(role_style(LogRole::System), ("magma-agent-role-system", "!", "magma-agent-text-system"));
    assert_eq!(role_style(LogRole::Action), ("magma-agent-role-action", "*", "magma-agent-text-action"));
}

#[test]
fn granted_requests_are_spaced_across_calls() {
    let mut r = RateLimit::new(0);
    let mut sent: Vec<u64> = Vec::new();
    let mut now: u64 = 0;
    for _ in 0..10 {
        match r.claim_slot(now) {
            Ok(wait) => {
                now += wait;
                r.record(now);
                sent.push(now);
            }
            Err(_) => now += r.take_backoff(now),
        }
        now += 500;
    }
    assert!(sent.windows(2).all(|w| w[1] >= w[0] + 2_000));
    assert!(sent.iter().filter(|t| **t < 60_000).count() <= 8);
}

#[test]
fn same_kind_reports_stay_a_cooldown_apart() {
    let mut st = ObserverState::new();
    let t0: u64 = 1_000_000_000_000;
    let first = st.observe(&observation(), t0, 180);
    assert!(first.iter().any(|e| event_label(e) == "merge_conflict"));
    for step in 1..12u64 {
        let events = st.observe(&observation(), t0 + step * 10_000_000_000, 180);
        assert!(!events.iter().any(|e| event_label(e) == "merge_conflict"));
    }
    let back = st.observe(&observation(), t0 + 120_000_000_000, 180);
    assert!(back.iter().any(|e| event_label(e) == "merge_conflict"));
}

fn failing(command: &str, branch: &str, message: &str) -> Observation {
    Observation {
        log_entries: vec![("ERROR".to_string(), message.to_string())],
        branch: Some(branch.to_string()),
        last_exit_code: Some(2),
        last_command: Some(command.to_string()),
        conflicted: Vec::new(),
        ahead: 0,
        behind: 0,
        dirty_count: 0,
        risky_unannotated: 0,
    }
}

#[test]
fn a_failed_command_is_new_once_per_branch() {
    let mut st = ObserverState::new();
    let minute: u64 = 60_000_000_000;
    let first = st.observe(&failing("make", "main", "boom"), 10 * minute, 180);
    let labels: Vec<String> = first.iter().map(event_label).collect();
    assert_eq!(labels, vec!["new_error_pattern", "command_failed"]);
    // Long after the cooldown, the same command on the same branch fails again.
    let second = st.observe(&failing("make", "main", "boom"), 20 * minute, 180);
    let labels: Vec<String> = second.iter().map(event_label).collect();
    assert_eq!(labels, vec!["command_previously_failed"]);
    // On another branch it is news again.
    let third = st.observe(&failing("make", "dev", "boom"), 30 * minute, 180);
    let labels: Vec<String> = third.iter().map(event_label).collect();
    assert_eq!(labels, vec!["command_failed"]);
    match &third[0] {
        WorkspaceEvent::CommandFailed { branch, command, exit_code } => {
            assert_eq!(branch, "dev");
            assert_eq!(command, "make");
            assert_eq!(*exit_code, 2);
        }
        _ => panic!("expected a failed command"),
    }
}

#[test]
fn an_error_message_is_new_once() {
    let mut st = ObserverState::new();
    let minute: u64 = 60_000_000_000;
    let mut obs = failing("true", "main", "disk full");
    obs.last_exit_code = Some(0);
    let first = st.observe(&obs, minute, 180);
    let labels: Vec<String> = first.iter().map(event_label).collect();
    assert_eq!(labels, vec!["new_error_pattern"]);
    let again = st.observe(&obs, 10 * minute, 180);
    assert!(again.is_empty());
    obs.log_entries = vec![("WARN".to_string(), "disk full".to_string()), ("ERROR".to_string(), "no route".to_string())];
    let other = st.observe(&obs, 20 * minute, 180);
    assert_eq!(other.len(), 1);
    match &other[0] {
        WorkspaceEvent::NewErrorPattern { message } => assert_eq!(message, "no route"),
        _ => panic!("expected a new pattern"),
    }
}

#[test]
fn no_slot_before_the_backoff_ends() {
    let mut r = RateLimit::new(0);
    r.on_rate_limited(1_000);
    // A call begun at 5 s sleeps until 61 s before it asks for its slot.
    let wait = r.take_backoff(5_000);
    assert_eq!(5_000 + wait, 61_000);
    assert_eq!(r.claim_slot(61_000), Ok(0));
    // A refused call sets a 30 s back-off that the next call waits out.
    let mut full = RateLimit::new(0);
    for i in 0..8u64 {
        full.claim_slot(i * 2_000).unwrap();
        full.record(i * 2_000);
    }
    assert!(full.claim_slot(20_000).is_err());
    let wait = full.take_backoff(21_000);
    assert_eq!(21_000 + wait, 50_000);
}
