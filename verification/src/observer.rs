//! The workspace observer: from a snapshot of the workspace it derives
//! the events worth reporting (error bursts, repeated and new errors,
//! failed commands, conflicts, divergence, idle changes, unreviewed risky
//! hunks), and lets each kind through at most once per cooldown.
use vstd::prelude::*;

use crate::agent::{EventView, WorkspaceEvent, event_kind, events_view, kind_index, strings_view};
use crate::text::{chars_eq, eq_str, trim, trim_of};

verus! {

broadcast use vstd::string::group_string_axioms;

/// Seconds between two reports of the same kind of event.
pub const COOLDOWN_SECS: u64 = 120;

/// What the observer reads from one snapshot of the workspace.
pub struct Observation {
    /// Level and message of the latest log entries.
    pub log_entries: Vec<(String, String)>,
    pub branch: Option<String>,
    pub last_exit_code: Option<i32>,
    pub last_command: Option<String>,
    pub conflicted: Vec<String>,
    pub ahead: u32,
    pub behind: u32,
    /// Staged plus unstaged changed files.
    pub dirty_count: usize,
    /// Hunks marked risky that carry no annotation.
    pub risky_unannotated: usize,
}

#[verifier::ext_equal]
pub struct ObservationView {
    pub log_entries: Seq<(Seq<char>, Seq<char>)>,
    pub branch: Option<Seq<char>>,
    pub last_exit_code: Option<int>,
    pub last_command: Option<Seq<char>>,
    pub conflicted: Seq<Seq<char>>,
    pub ahead: nat,
    pub behind: nat,
    pub dirty_count: nat,
    pub risky_unannotated: nat,
}

pub open spec fn opt_str_view(o: Option<String>) -> Option<Seq<char>> {
    match o {
        Some(s) => Some(s@),
        None => None,
    }
}

pub open spec fn pairs_view(v: Seq<(String, String)>) -> Seq<(Seq<char>, Seq<char>)> {
    Seq::new(v.len(), |i: int| (v[i].0@, v[i].1@))
}

impl View for Observation {
    type V = ObservationView;

    open spec fn view(&self) -> ObservationView {
        ObservationView {
            log_entries: pairs_view(self.log_entries@),
            branch: opt_str_view(self.branch),
            last_exit_code: match self.last_exit_code {
                Some(c) => Some(c as int),
                None => None,
            },
            last_command: opt_str_view(self.last_command),
            conflicted: strings_view(self.conflicted@),
            ahead: self.ahead as nat,
            behind: self.behind as nat,
            dirty_count: self.dirty_count as nat,
            risky_unannotated: self.risky_unannotated as nat,
        }
    }
}

/// What the observer remembers between snapshots: the error messages seen,
/// the commands that failed on each branch, since when the work tree has
/// been dirty, and when each kind of event was last reported (times in
/// nanoseconds of a monotonic clock).
pub struct ObserverState {
    pub seen_errors: Vec<String>,
    pub failed: Vec<(String, String)>,
    pub dirty_since: Option<u64>,
    pub last_emitted: Vec<Option<u64>>,
}

#[verifier::ext_equal]
pub struct ObserverView {
    pub seen_errors: Seq<Seq<char>>,
    pub failed: Seq<(Seq<char>, Seq<char>)>,
    pub dirty_since: Option<u64>,
    pub last_emitted: Seq<Option<u64>>,
}

impl View for ObserverState {
    type V = ObserverView;

    open spec fn view(&self) -> ObserverView {
        ObserverView {
            seen_errors: strings_view(self.seen_errors@),
            failed: pairs_view(self.failed@),
            dirty_since: self.dirty_since,
            last_emitted: self.last_emitted@,
        }
    }
}

// ─── Errors ──────────────────────────────────────────────────────────

/// The messages of the `ERROR` and `WARN` entries, in order.
pub open spec fn error_messages_of(entries: Seq<(Seq<char>, Seq<char>)>) -> Seq<Seq<char>>
    decreases entries.len(),
{
    if entries.len() == 0 {
        Seq::empty()
    } else {
        let rest = error_messages_of(entries.drop_last());
        let e = entries.last();
        if e.0 == "ERROR"@ || e.0 == "WARN"@ {
            rest.push(e.1)
        } else {
            rest
        }
    }
}

/// How often `m` occurs in `s`.
pub open spec fn occurrences(s: Seq<Seq<char>>, m: Seq<char>) -> nat
    decreases s.len(),
{
    if s.len() == 0 {
        0
    } else {
        occurrences(s.drop_last(), m) + if s.last() == m { 1nat } else { 0nat }
    }
}

/// The first position from `i` on whose message occurs three times or
/// more.
pub open spec fn first_repeated_from(s: Seq<Seq<char>>, i: int) -> Option<int>
    decreases s.len() - i,
{
    if i < 0 || i >= s.len() {
        None
    } else if occurrences(s, s[i]) >= 3 {
        Some(i)
    } else {
        first_repeated_from(s, i + 1)
    }
}

/// The first message that occurs three times or more, with its count.
pub open spec fn repeated_error_of(errors: Seq<Seq<char>>) -> Option<(Seq<char>, nat)> {
    match first_repeated_from(errors, 0) {
        Some(i) => Some((errors[i], occurrences(errors, errors[i]))),
        None => None,
    }
}

fn error_messages(entries: &Vec<(String, String)>) -> (out: Vec<String>)
    ensures
        strings_view(out@) == error_messages_of(pairs_view(entries@)),
{
    let ghost es = pairs_view(entries@);
    let mut out: Vec<String> = Vec::new();
    let mut i: usize = 0;
    while i < entries.len()
        invariant
            es == pairs_view(entries@),
            i <= entries.len(),
            strings_view(out@) == error_messages_of(es.take(i as int)),
        decreases entries.len() - i,
    {
        assert(es.take(i + 1).drop_last() =~= es.take(i as int));
        let (level, message) = &entries[i];
        if eq_str(&crate::text::chars_of(level.as_str()), "ERROR") || eq_str(&crate::text::chars_of(level.as_str()), "WARN") {
            let ghost before = strings_view(out@);
            let m = message.clone();
            out.push(m);
            assert(strings_view(out@) =~= before.push(es[i as int].1));
        }
        i += 1;
    }
    assert(es.take(es.len() as int) =~= es);
    out
}

fn count_occurrences(s: &Vec<String>, m: &String) -> (n: usize)
    ensures
        n == occurrences(strings_view(s@), m@),
{
    let ghost sv = strings_view(s@);
    let mut n: usize = 0;
    let mut i: usize = 0;
    let mc = crate::text::chars_of(m.as_str());
    while i < s.len()
        invariant
            sv == strings_view(s@),
            mc@ == m@,
            i <= s.len(),
            n == occurrences(sv.take(i as int), m@),
            n <= i,
        decreases s.len() - i,
    {
        assert(sv.take(i + 1).drop_last() =~= sv.take(i as int));
        if chars_eq(&crate::text::chars_of(s[i].as_str()), &mc) {
            n += 1;
        }
        i += 1;
    }
    assert(sv.take(sv.len() as int) =~= sv);
    n
}

/// The first error message that occurs three times or more, with its
/// count.
pub fn repeated_error(errors: &Vec<String>) -> (r: Option<(String, usize)>)
    ensures
        match r {
            Some((m, c)) => repeated_error_of(strings_view(errors@)) == Some((m@, c as nat)),
            None => repeated_error_of(strings_view(errors@)) is None,
        },
{
    let ghost sv = strings_view(errors@);
    let mut i: usize = 0;
    while i < errors.len()
        invariant
            sv == strings_view(errors@),
            i <= errors.len(),
            first_repeated_from(sv, 0) == first_repeated_from(sv, i as int),
        decreases errors.len() - i,
    {
        let c = count_occurrences(errors, &errors[i]);
        if c >= 3 {
            return Some((errors[i].clone(), c));
        }
        i += 1;
    }
    None
}

/// A repeated error is a message that occurs at least three times, with
/// its true count, and there is one whenever some message does.
pub proof fn law_repeated_error(errors: Seq<Seq<char>>)
    ensures
        repeated_error_of(errors) matches Some((m, c)) ==> errors.contains(m) && c == occurrences(errors, m) && c >= 3,
        repeated_error_of(errors) is None ==> forall|i: int| 0 <= i < errors.len() ==> occurrences(errors, #[trigger] errors[i]) < 3,
{
    lemma_first_repeated(errors, 0);
}

proof fn lemma_first_repeated(s: Seq<Seq<char>>, i: int)
    requires
        0 <= i <= s.len(),
    ensures
        first_repeated_from(s, i) matches Some(j) ==> i <= j < s.len() && occurrences(s, s[j]) >= 3,
        first_repeated_from(s, i) is None ==> forall|k: int| i <= k < s.len() ==> occurrences(s, #[trigger] s[k]) < 3,
    decreases s.len() - i,
{
    if i < s.len() {
        lemma_first_repeated(s, i + 1);
    }
}

/// The messages among the first three errors that were not seen before,
/// each reported once; the seen messages after them.
pub open spec fn new_patterns_of(seen: Seq<Seq<char>>, errors: Seq<Seq<char>>) -> (Seq<Seq<char>>, Seq<EventView>)
    decreases errors.len(),
{
    if errors.len() == 0 {
        (seen, Seq::empty())
    } else {
        let (s, ev) = new_patterns_of(seen, errors.drop_last());
        let m = errors.last();
        if s.contains(m) {
            (s, ev)
        } else {
            (s.push(m), ev.push(EventView::NewErrorPattern { message: m }))
        }
    }
}

fn contains_string(v: &Vec<String>, m: &String) -> (r: bool)
    ensures
        r == strings_view(v@).contains(m@),
{
    let mc = crate::text::chars_of(m.as_str());
    let mut i: usize = 0;
    while i < v.len()
        invariant
            i <= v.len(),
            mc@ == m@,
            forall|j: int| 0 <= j < i ==> strings_view(v@)[j] != m@,
        decreases v.len() - i,
    {
        if chars_eq(&crate::text::chars_of(v[i].as_str()), &mc) {
            assert(strings_view(v@)[i as int] == m@);
            return true;
        }
        i += 1;
    }
    false
}

// ─── Failed commands ─────────────────────────────────────────────────

/// A failed command: `CommandPreviouslyFailed` when it failed before on
/// the branch, else `CommandFailed`, remembered from then on.
pub open spec fn command_event_of(
    failed: Seq<(Seq<char>, Seq<char>)>,
    obs: ObservationView,
) -> (Seq<(Seq<char>, Seq<char>)>, Option<EventView>) {
    match (obs.branch, obs.last_exit_code, obs.last_command) {
        (Some(b), Some(code), Some(cmd)) => {
            if code != 0 {
                if failed.contains((b, cmd)) {
                    (failed, Some(EventView::CommandPreviouslyFailed { branch: b, command: cmd }))
                } else {
                    (failed.push((b, cmd)), Some(EventView::CommandFailed { branch: b, command: cmd, exit_code: code }))
                }
            } else {
                (failed, None)
            }
        },
        _ => (failed, None),
    }
}

fn contains_pair(v: &Vec<(String, String)>, a: &String, b: &String) -> (r: bool)
    ensures
        r == pairs_view(v@).contains((a@, b@)),
{
    let ac = crate::text::chars_of(a.as_str());
    let bc = crate::text::chars_of(b.as_str());
    let mut i: usize = 0;
    while i < v.len()
        invariant
            i <= v.len(),
            ac@ == a@,
            bc@ == b@,
            forall|j: int| 0 <= j < i ==> pairs_view(v@)[j] != (a@, b@),
        decreases v.len() - i,
    {
        if chars_eq(&crate::text::chars_of(v[i].0.as_str()), &ac) && chars_eq(&crate::text::chars_of(v[i].1.as_str()), &bc) {
            assert(pairs_view(v@)[i as int] == (a@, b@));
            return true;
        }
        i += 1;
    }
    false
}

fn clone_strings(v: &Vec<String>) -> (out: Vec<String>)
    ensures
        strings_view(out@) == strings_view(v@),
{
    let mut out: Vec<String> = Vec::new();
    let mut i: usize = 0;
    while i < v.len()
        invariant
            i <= v.len(),
            strings_view(out@) == strings_view(v@).take(i as int),
        decreases v.len() - i,
    {
        let ghost before = strings_view(out@);
        let c = v[i].clone();
        assert(c@ == v@[i as int]@);
        out.push(c);
        assert(strings_view(out@) =~= before.push(v@[i as int]@));
        assert(strings_view(v@).take(i + 1) =~= strings_view(v@).take(i as int).push(v@[i as int]@));
        i += 1;
    }
    assert(strings_view(v@).take(v@.len() as int) =~= strings_view(v@));
    out
}

// ─── A whole snapshot ────────────────────────────────────────────────

/// `a - b`, stopping at zero.
pub open spec fn elapsed(now: u64, since: u64) -> nat {
    if now >= since {
        (now - since) as nat
    } else {
        0
    }
}

/// The error-driven events of a snapshot: a burst of eight or more
/// errors, a repeated error, and each new message among the first three;
/// with the messages seen after them.
pub open spec fn error_events_of(seen: Seq<Seq<char>>, errors: Seq<Seq<char>>) -> (Seq<Seq<char>>, Seq<EventView>) {
    let spike: Seq<EventView> = if errors.len() >= 8 {
        seq![EventView::ErrorRateSpike { count: errors.len() }]
    } else {
        Seq::empty()
    };
    let repeated: Seq<EventView> = match repeated_error_of(errors) {
        Some((m, c)) => seq![EventView::RepeatedError { message: m, count: c }],
        None => Seq::empty(),
    };
    let (seen2, fresh) = new_patterns_of(seen, errors.take(if errors.len() < 3 { errors.len() as int } else { 3 }));
    (seen2, spike + repeated + fresh)
}

/// Since when the work tree has been dirty, after a snapshot.
pub open spec fn dirty_since_of(before: Option<u64>, dirty_count: nat, now: u64) -> Option<u64> {
    if dirty_count > 0 {
        match before {
            Some(s) => Some(s),
            None => Some(now),
        }
    } else {
        None
    }
}

/// The repository-driven events of a snapshot: a failed command, a merge
/// conflict, divergence from the upstream, changes left uncommitted too
/// long, and risky hunks without a note; with the failed commands after
/// them.
pub open spec fn repo_events_of(
    failed: Seq<(Seq<char>, Seq<char>)>,
    dirty_since: Option<u64>,
    obs: ObservationView,
    now: u64,
    idle_after_secs: nat,
) -> (Seq<(Seq<char>, Seq<char>)>, Seq<EventView>) {
    let (failed2, cmd) = command_event_of(failed, obs);
    let cmd_events: Seq<EventView> = match cmd {
        Some(e) => seq![e],
        None => Seq::empty(),
    };
    let conflict: Seq<EventView> = if obs.conflicted.len() > 0 {
        seq![EventView::MergeConflict { files: obs.conflicted }]
    } else {
        Seq::empty()
    };
    let diverged: Seq<EventView> = if obs.ahead > 0 && obs.behind > 0 {
        seq![EventView::BranchDiverged { ahead: obs.ahead, behind: obs.behind }]
    } else {
        Seq::empty()
    };
    let idle: Seq<EventView> = match dirty_since {
        Some(s) => {
            let secs = elapsed(now, s) / 1_000_000_000;
            if secs >= idle_after_secs {
                seq![EventView::UncommittedIdle { minutes: secs / 60, changed_files: obs.dirty_count }]
            } else {
                Seq::empty()
            }
        },
        None => Seq::empty(),
    };
    let risky: Seq<EventView> = if obs.risky_unannotated > 0 {
        seq![EventView::RiskyHunksUnmarked { count: obs.risky_unannotated }]
    } else {
        Seq::empty()
    };
    (failed2, cmd_events + conflict + diverged + idle + risky)
}

/// The events a snapshot gives, before the cooldown, with what the
/// observer remembers after it.
pub open spec fn candidates_of(st: ObserverView, obs: ObservationView, now: u64, idle_after_secs: nat) -> (ObserverView, Seq<EventView>) {
    let (seen, errs) = error_events_of(st.seen_errors, error_messages_of(obs.log_entries));
    let dirty = dirty_since_of(st.dirty_since, obs.dirty_count, now);
    let (failed, repo) = repo_events_of(st.failed, dirty, obs, now, idle_after_secs);
    (ObserverView { seen_errors: seen, failed, dirty_since: dirty, last_emitted: st.last_emitted }, errs + repo)
}

/// Whether the kind of an event may be reported again at `now`.
pub open spec fn cooled(last: Seq<Option<u64>>, kind: int, now: u64) -> bool {
    match last[kind] {
        None => true,
        Some(t) => elapsed(now, t) >= COOLDOWN_SECS * 1_000_000_000,
    }
}

/// The events let through by the cooldown, in order, and the report
/// times after them.
pub open spec fn cooldown_of(last: Seq<Option<u64>>, events: Seq<EventView>, now: u64) -> (Seq<Option<u64>>, Seq<EventView>)
    decreases events.len(),
{
    if events.len() == 0 {
        (last, Seq::empty())
    } else {
        let (l, out) = cooldown_of(last, events.drop_last(), now);
        let e = events.last();
        if cooled(l, event_kind(e), now) {
            (l.update(event_kind(e), Some(now)), out.push(e))
        } else {
            (l, out)
        }
    }
}

/// One snapshot: the events reported and what the observer remembers.
pub open spec fn observe_of(st: ObserverView, obs: ObservationView, now: u64, idle_after_secs: nat) -> (ObserverView, Seq<EventView>) {
    let (mid, cands) = candidates_of(st, obs, now, idle_after_secs);
    let (last, out) = cooldown_of(st.last_emitted, cands, now);
    (ObserverView { last_emitted: last, ..mid }, out)
}

/// An observer that has seen nothing yet.
pub open spec fn fresh_observer() -> ObserverView {
    ObserverView {
        seen_errors: Seq::empty(),
        failed: Seq::empty(),
        dirty_since: None,
        last_emitted: Seq::new(9, |i: int| None),
    }
}

fn push_event(v: &mut Vec<WorkspaceEvent>, e: WorkspaceEvent)
    ensures
        events_view(final(v)@) == events_view(old(v)@).push(e@),
{
    let ghost ev = e@;
    v.push(e);
    assert(events_view(v@) =~= events_view(old(v)@).push(ev));
}

fn new_patterns(seen: &mut Vec<String>, errors: &Vec<String>, k: usize, out: &mut Vec<WorkspaceEvent>)
    requires
        k <= errors.len(),
    ensures
        (strings_view(final(seen)@), events_view(final(out)@).skip(old(out)@.len() as int))
            == new_patterns_of(strings_view(old(seen)@), strings_view(errors@).take(k as int)),
        events_view(final(out)@).take(old(out)@.len() as int) == events_view(old(out)@),
        final(out)@.len() >= old(out)@.len(),
{
    let ghost es = strings_view(errors@);
    let ghost seen0 = strings_view(seen@);
    let ghost out0 = events_view(out@);
    let mut i: usize = 0;
    while i < k
        invariant
            k <= errors.len(),
            es == strings_view(errors@),
            i <= k,
            out@.len() >= out0.len(),
            events_view(out@).take(out0.len() as int) == out0,
            (strings_view(seen@), events_view(out@).skip(out0.len() as int)) == new_patterns_of(seen0, es.take(i as int)),
        decreases k - i,
    {
        assert(es.take(i + 1).drop_last() =~= es.take(i as int));
        assert(es.take(i + 1).last() == errors@[i as int]@);
        let m = &errors[i];
        if !contains_string(seen, m) {
            let ghost before_out = events_view(out@);
            let ghost before_seen = strings_view(seen@);
            seen.push(m.clone());
            assert(strings_view(seen@) =~= before_seen.push(m@));
            push_event(out, WorkspaceEvent::NewErrorPattern { message: m.clone() });
            assert(events_view(out@).skip(out0.len() as int) =~= before_out.skip(out0.len() as int).push(
                EventView::NewErrorPattern { message: m@ },
            ));
            assert(events_view(out@).take(out0.len() as int) =~= before_out.take(out0.len() as int));
        }
        i += 1;
    }
}

fn command_event(failed: &mut Vec<(String, String)>, obs: &Observation) -> (r: Option<WorkspaceEvent>)
    ensures
        (pairs_view(final(failed)@), match r {
            Some(e) => Some(e@),
            None => None,
        }) == command_event_of(pairs_view(old(failed)@), obs@),
{
    match (&obs.branch, obs.last_exit_code, &obs.last_command) {
        (Some(b), Some(code), Some(cmd)) => {
            if code != 0 {
                if contains_pair(failed, b, cmd) {
                    Some(WorkspaceEvent::CommandPreviouslyFailed { branch: b.clone(), command: cmd.clone() })
                } else {
                    let ghost before = pairs_view(failed@);
                    failed.push((b.clone(), cmd.clone()));
                    assert(pairs_view(failed@) =~= before.push((b@, cmd@)));
                    Some(WorkspaceEvent::CommandFailed { branch: b.clone(), command: cmd.clone(), exit_code: code })
                }
            } else {
                None
            }
        },
        _ => None,
    }
}

fn cooldown(last: &mut Vec<Option<u64>>, events: Vec<WorkspaceEvent>, now: u64) -> (out: Vec<WorkspaceEvent>)
    requires
        old(last).len() == 9,
    ensures
        final(last).len() == 9,
        (final(last)@, events_view(out@)) == cooldown_of(old(last)@, events_view(events@), now),
{
    let ghost ev = events_view(events@);
    let ghost last0 = last@;
    let mut out: Vec<WorkspaceEvent> = Vec::new();
    let mut rest = events;
    let mut i: usize = 0;
    let n = rest.len();
    assert(events_view(rest@) =~= ev.skip(0));
    while i < n
        invariant
            n == ev.len(),
            i <= n,
            last@.len() == 9,
            events_view(rest@) == ev.skip(i as int),
            (last@, events_view(out@)) == cooldown_of(last0, ev.take(i as int), now),
        decreases n - i,
    {
        assert(events_view(rest@).len() == rest@.len());
        assert(rest@.len() == n - i);
        let ghost before = rest@;
        let e = rest.remove(0);
        assert(rest@ =~= before.subrange(1, before.len() as int));
        assert forall|j: int| 0 <= j < rest@.len() implies events_view(rest@)[j] == ev.skip(i + 1)[j] by {
            assert(events_view(before)[j + 1] == ev.skip(i as int)[j + 1]);
        }
        assert(events_view(rest@) =~= ev.skip(i + 1));
        assert(events_view(before)[0] == ev.skip(i as int)[0]);
        assert(e@ == ev[i as int]);
        assert(ev.take(i + 1).drop_last() =~= ev.take(i as int));
        let k = kind_index(&e);
        let fresh = match last[k] {
            None => true,
            Some(t) => now >= t && now - t >= COOLDOWN_SECS * 1_000_000_000,
        };
        if fresh {
            last.set(k, Some(now));
            push_event(&mut out, e);
        }
        i += 1;
    }
    assert(ev.take(n as int) =~= ev);
    out
}

fn error_events(seen: &mut Vec<String>, errors: &Vec<String>) -> (out: Vec<WorkspaceEvent>)
    ensures
        (strings_view(final(seen)@), events_view(out@)) == error_events_of(strings_view(old(seen)@), strings_view(errors@)),
{
    let mut cands: Vec<WorkspaceEvent> = Vec::new();
    if errors.len() >= 8 {
        push_event(&mut cands, WorkspaceEvent::ErrorRateSpike { count: errors.len() });
    }
    match repeated_error(errors) {
        Some((message, count)) => push_event(&mut cands, WorkspaceEvent::RepeatedError { message, count }),
        None => {},
    }
    let ghost head = events_view(cands@);
    let k: usize = if errors.len() < 3 { errors.len() } else { 3 };
    new_patterns(seen, errors, k, &mut cands);
    assert(events_view(cands@) =~= head + events_view(cands@).skip(head.len() as int));
    cands
}

fn repo_events(
    failed: &mut Vec<(String, String)>,
    dirty_since: Option<u64>,
    obs: &Observation,
    now: u64,
    idle_after_secs: u64,
) -> (out: Vec<WorkspaceEvent>)
    ensures
        (pairs_view(final(failed)@), events_view(out@)) == repo_events_of(
            pairs_view(old(failed)@),
            dirty_since,
            obs@,
            now,
            idle_after_secs as nat,
        ),
{
    let mut cands: Vec<WorkspaceEvent> = Vec::new();
    match command_event(failed, obs) {
        Some(e) => push_event(&mut cands, e),
        None => {},
    }
    if obs.conflicted.len() > 0 {
        push_event(&mut cands, WorkspaceEvent::MergeConflict { files: clone_strings(&obs.conflicted) });
    }
    if obs.ahead > 0 && obs.behind > 0 {
        push_event(&mut cands, WorkspaceEvent::BranchDiverged { ahead: obs.ahead, behind: obs.behind });
    }
    match dirty_since {
        Some(since) => {
            let secs = (if now >= since { now - since } else { 0 }) / 1_000_000_000;
            if secs >= idle_after_secs {
                push_event(&mut cands, WorkspaceEvent::UncommittedIdle { minutes: secs / 60, changed_files: obs.dirty_count });
            }
        },
        None => {},
    }
    if obs.risky_unannotated > 0 {
        push_event(&mut cands, WorkspaceEvent::RiskyHunksUnmarked { count: obs.risky_unannotated });
    }
    cands
}

impl ObserverState {
    /// An observer that has seen nothing yet.
    pub fn new() -> (st: ObserverState)
        ensures
            st@ == fresh_observer(),
            st.last_emitted.len() == 9,
    {
        let mut last: Vec<Option<u64>> = Vec::new();
        let mut i: usize = 0;
        while i < 9
            invariant
                i <= 9,
                last@ == Seq::new(i as nat, |j: int| None::<u64>),
            decreases 9 - i,
        {
            last.push(None);
            assert(last@ =~= Seq::new((i + 1) as nat, |j: int| None::<u64>));
            i += 1;
        }
        let st = ObserverState { seen_errors: Vec::new(), failed: Vec::new(), dirty_since: None, last_emitted: last };
        assert(st@ =~= fresh_observer());
        st
    }

    /// Reads one snapshot taken at `now` (nanoseconds of a monotonic
    /// clock) and returns the events to report, in order.
    pub fn observe(&mut self, obs: &Observation, now: u64, idle_after_secs: u64) -> (events: Vec<WorkspaceEvent>)
        requires
            old(self).last_emitted.len() == 9,
        ensures
            final(self).last_emitted.len() == 9,
            (final(self)@, events_view(events@)) == observe_of(old(self)@, obs@, now, idle_after_secs as nat),
    {
        let errors = error_messages(&obs.log_entries);
        let mut cands = error_events(&mut self.seen_errors, &errors);
        self.dirty_since = if obs.dirty_count > 0 {
            match self.dirty_since {
                Some(s) => Some(s),
                None => Some(now),
            }
        } else {
            None
        };
        let mut repo = repo_events(&mut self.failed, self.dirty_since, obs, now, idle_after_secs);
        let ghost ev_errs = events_view(cands@);
        let ghost ev_repo = events_view(repo@);
        cands.append(&mut repo);
        assert(events_view(cands@) =~= ev_errs + ev_repo);
        let mut last = Vec::new();
        std::mem::swap(&mut last, &mut self.last_emitted);
        let out = cooldown(&mut last, cands, now);
        self.last_emitted = last;
        out
    }
}

proof fn lemma_cooldown(last: Seq<Option<u64>>, events: Seq<EventView>, now: u64)
    requires
        last.len() == 9,
    ensures
        cooldown_of(last, events, now).0.len() == 9,
        forall|i: int| 0 <= i < cooldown_of(last, events, now).1.len() ==>
            cooldown_of(last, events, now).0[event_kind(#[trigger] cooldown_of(last, events, now).1[i])] == Some(now),
        forall|i: int, j: int| 0 <= i < j < cooldown_of(last, events, now).1.len() ==>
            event_kind(#[trigger] cooldown_of(last, events, now).1[i]) != event_kind(#[trigger] cooldown_of(last, events, now).1[j]),
        forall|k: int| 0 <= k < 9 && cooldown_of(last, events, now).0[k] != last[k] ==> cooldown_of(last, events, now).0[k] == Some(now),
    decreases events.len(),
{
    if events.len() > 0 {
        lemma_cooldown(last, events.drop_last(), now);
        let (l, out) = cooldown_of(last, events.drop_last(), now);
        let e = events.last();
        assert(0 <= event_kind(e) < 9);
        if cooled(l, event_kind(e), now) {
            let out2 = out.push(e);
            let l2 = l.update(event_kind(e), Some(now));
            assert forall|i: int| 0 <= i < out.len() implies event_kind(#[trigger] out2[i]) != event_kind(e) by {
                assert(out2[i] == out[i]);
                assert(l[event_kind(out[i])] == Some(now));
            }
            assert forall|i: int| 0 <= i < out2.len() implies l2[event_kind(#[trigger] out2[i])] == Some(now) by {
                if i < out.len() {
                    assert(out2[i] == out[i]);
                }
            }
            assert forall|i: int, j: int| 0 <= i < j < out2.len() implies event_kind(#[trigger] out2[i]) != event_kind(#[trigger] out2[j]) by {
                if j < out.len() {
                    assert(out2[i] == out[i] && out2[j] == out[j]);
                } else {
                    assert(out2[i] == out[i]);
                }
            }
        }
    }
}

/// Within one snapshot each kind of event is reported at most once, and
/// a kind that is reported is marked as reported at that moment.
pub proof fn law_one_report_per_kind(last: Seq<Option<u64>>, events: Seq<EventView>, now: u64)
    requires
        last.len() == 9,
    ensures
        forall|i: int, j: int| 0 <= i < j < cooldown_of(last, events, now).1.len() ==>
            event_kind(#[trigger] cooldown_of(last, events, now).1[i]) != event_kind(#[trigger] cooldown_of(last, events, now).1[j]),
        forall|i: int| 0 <= i < cooldown_of(last, events, now).1.len() ==>
            cooldown_of(last, events, now).0[event_kind(#[trigger] cooldown_of(last, events, now).1[i])] == Some(now),
{
    lemma_cooldown(last, events, now);
}

/// A kind reported less than the cooldown ago is not reported again.
pub proof fn law_cooldown_holds(last: Seq<Option<u64>>, events: Seq<EventView>, now: u64, k: int)
    requires
        last.len() == 9,
        0 <= k < 9,
        last[k] matches Some(t) && elapsed(now, t) < COOLDOWN_SECS * 1_000_000_000,
    ensures
        forall|i: int| 0 <= i < cooldown_of(last, events, now).1.len() ==>
            event_kind(#[trigger] cooldown_of(last, events, now).1[i]) != k,
    decreases events.len(),
{
    if events.len() > 0 {
        law_cooldown_holds(last, events.drop_last(), now, k);
        lemma_cooldown(last, events.drop_last(), now);
        let (l, out) = cooldown_of(last, events.drop_last(), now);
        let e = events.last();
        if cooled(l, event_kind(e), now) {
            if event_kind(e) == k {
                assert(l[k] == last[k] || l[k] == Some(now));
            }
            assert forall|i: int| 0 <= i < out.push(e).len() implies event_kind(#[trigger] out.push(e)[i]) != k by {
                if i < out.len() {
                    assert(out.push(e)[i] == out[i]);
                }
            }
        }
    }
}

/// A kind reported by the cooldown was cooled down before the snapshot.
proof fn lemma_reported_was_cooled(last: Seq<Option<u64>>, events: Seq<EventView>, now: u64, k: int)
    requires
        last.len() == 9,
        0 <= k < 9,
        exists|a: int| 0 <= a < cooldown_of(last, events, now).1.len() && event_kind(
            #[trigger] cooldown_of(last, events, now).1[a],
        ) == k,
    ensures
        cooled(last, k, now),
{
    if !cooled(last, k, now) {
        assert(last[k] matches Some(t) && elapsed(now, t) < COOLDOWN_SECS * 1_000_000_000);
        law_cooldown_holds(last, events, now, k);
    }
}

/// The observer after a run of snapshots, each taken at its time.
pub open spec fn state_after(st: ObserverView, snaps: Seq<(ObservationView, u64)>, idle_after_secs: nat) -> ObserverView
    decreases snaps.len(),
{
    if snaps.len() == 0 {
        st
    } else {
        observe_of(state_after(st, snaps.drop_last(), idle_after_secs), snaps.last().0, snaps.last().1, idle_after_secs).0
    }
}

/// The events reported at the `i`th snapshot of a run.
pub open spec fn reports_at(st: ObserverView, snaps: Seq<(ObservationView, u64)>, idle_after_secs: nat, i: int) -> Seq<EventView> {
    observe_of(state_after(st, snaps.take(i), idle_after_secs), snaps[i].0, snaps[i].1, idle_after_secs).1
}

proof fn lemma_run_marks(st: ObserverView, snaps: Seq<(ObservationView, u64)>, idle: nat)
    requires
        st.last_emitted.len() == 9,
        forall|i: int, j: int| 0 <= i <= j < snaps.len() ==> #[trigger] snaps[i].1 <= #[trigger] snaps[j].1,
    ensures
        state_after(st, snaps, idle).last_emitted.len() == 9,
        forall|i: int, a: int|
            0 <= i < snaps.len() && 0 <= a < reports_at(st, snaps, idle, i).len() ==> {
                let k = event_kind(#[trigger] reports_at(st, snaps, idle, i)[a]);
                state_after(st, snaps, idle).last_emitted[k] matches Some(t) && t >= snaps[i].1
            },
    decreases snaps.len(),
{
    if snaps.len() > 0 {
        let n = snaps.len() - 1;
        let prefix = snaps.drop_last();
        assert forall|i: int, j: int| 0 <= i <= j < prefix.len() implies #[trigger] prefix[i].1 <= #[trigger] prefix[j].1 by {
            assert(prefix[i] == snaps[i] && prefix[j] == snaps[j]);
            assert(snaps[i].1 <= snaps[j].1);
        }
        lemma_run_marks(st, prefix, idle);
        let before = state_after(st, prefix, idle);
        let now = snaps[n].1;
        assert(snaps.last() == snaps[n]);
        let (mid, cands) = candidates_of(before, snaps[n].0, now, idle);
        lemma_cooldown(before.last_emitted, cands, now);
        assert(snaps.take(n) =~= prefix);
        let after = state_after(st, snaps, idle);
        assert(after.last_emitted == cooldown_of(before.last_emitted, cands, now).0);
        assert forall|i: int, a: int|
            0 <= i < snaps.len() && 0 <= a < reports_at(st, snaps, idle, i).len() implies {
                let k = event_kind(#[trigger] reports_at(st, snaps, idle, i)[a]);
                after.last_emitted[k] matches Some(t) && t >= snaps[i].1
            } by {
            let k = event_kind(reports_at(st, snaps, idle, i)[a]);
            assert(0 <= k < 9);
            if i == n {
                assert(reports_at(st, snaps, idle, i) == cooldown_of(before.last_emitted, cands, now).1);
            } else {
                assert(snaps.take(i) =~= prefix.take(i));
                assert(prefix[i] == snaps[i]);
                assert(reports_at(st, snaps, idle, i) == reports_at(st, prefix, idle, i));
                assert(snaps[i].1 <= snaps[n].1);
            }
        }
    }
}

/// Across snapshots: two reports of the same kind, taken at times that
/// never go back, are at least the cooldown apart, however many snapshots
/// lie between them.
pub proof fn law_cooldown_across_snapshots(st: ObserverView, snaps: Seq<(ObservationView, u64)>, idle_after_secs: nat)
    requires
        st.last_emitted.len() == 9,
        forall|i: int, j: int| 0 <= i <= j < snaps.len() ==> #[trigger] snaps[i].1 <= #[trigger] snaps[j].1,
    ensures
        forall|i: int, j: int, a: int, b: int|
            0 <= i < j < snaps.len() && 0 <= a < reports_at(st, snaps, idle_after_secs, i).len() && 0 <= b
                < reports_at(st, snaps, idle_after_secs, j).len() && event_kind(
                #[trigger] reports_at(st, snaps, idle_after_secs, i)[a],
            ) == event_kind(#[trigger] reports_at(st, snaps, idle_after_secs, j)[b]) ==> snaps[j].1
                >= snaps[i].1 + COOLDOWN_SECS * 1_000_000_000,
{
    assert forall|i: int, j: int, a: int, b: int|
        0 <= i < j < snaps.len() && 0 <= a < reports_at(st, snaps, idle_after_secs, i).len() && 0 <= b
            < reports_at(st, snaps, idle_after_secs, j).len() && event_kind(
            #[trigger] reports_at(st, snaps, idle_after_secs, i)[a],
        ) == event_kind(#[trigger] reports_at(st, snaps, idle_after_secs, j)[b]) implies snaps[j].1
            >= snaps[i].1 + COOLDOWN_SECS * 1_000_000_000 by {
        let pre = snaps.take(j);
        assert forall|x: int, y: int| 0 <= x <= y < pre.len() implies #[trigger] pre[x].1 <= #[trigger] pre[y].1 by {
            assert(pre[x] == snaps[x] && pre[y] == snaps[y]);
            assert(snaps[x].1 <= snaps[y].1);
        }
        lemma_run_marks(st, pre, idle_after_secs);
        assert(pre.take(i) =~= snaps.take(i));
        assert(pre[i] == snaps[i]);
        assert(reports_at(st, pre, idle_after_secs, i) == reports_at(st, snaps, idle_after_secs, i));
        let k = event_kind(reports_at(st, snaps, idle_after_secs, i)[a]);
        let before = state_after(st, pre, idle_after_secs);
        assert(before.last_emitted[k] matches Some(t) && t >= snaps[i].1);
        let now = snaps[j].1;
        let (mid, cands) = candidates_of(before, snaps[j].0, now, idle_after_secs);
        assert(reports_at(st, snaps, idle_after_secs, j) == cooldown_of(before.last_emitted, cands, now).1);
        assert(0 <= k < 9);
        lemma_reported_was_cooled(before.last_emitted, cands, now, k);
    }
}

/// Whether an event reports a failed command `c` on branch `b` for the
/// first time.
pub open spec fn first_failure(e: EventView, b: Seq<char>, c: Seq<char>) -> bool {
    e matches EventView::CommandFailed { branch, command, .. } && branch == b && command == c
}

/// Whether an event reports the error message `m` as new.
pub open spec fn new_pattern(e: EventView, m: Seq<char>) -> bool {
    e matches EventView::NewErrorPattern { message } && message == m
}

/// The message of a new-pattern event.
pub open spec fn new_pattern_message(e: EventView) -> Option<Seq<char>> {
    match e {
        EventView::NewErrorPattern { message } => Some(message),
        _ => None,
    }
}

/// Whether an event reports a command failing for the first time.
pub open spec fn is_command_failed(e: EventView) -> bool {
    e is CommandFailed
}

proof fn lemma_cooldown_subset(last: Seq<Option<u64>>, events: Seq<EventView>, now: u64)
    ensures
        forall|a: int| 0 <= a < cooldown_of(last, events, now).1.len() ==> events.contains(
            #[trigger] cooldown_of(last, events, now).1[a],
        ),
    decreases events.len(),
{
    if events.len() > 0 {
        lemma_cooldown_subset(last, events.drop_last(), now);
        let (l, out) = cooldown_of(last, events.drop_last(), now);
        let e = events.last();
        assert forall|a: int| 0 <= a < cooldown_of(last, events, now).1.len() implies events.contains(
            #[trigger] cooldown_of(last, events, now).1[a],
        ) by {
            let r = cooldown_of(last, events, now).1;
            if a < out.len() {
                assert(r[a] == out[a]);
                let w = choose|w: int| 0 <= w < events.drop_last().len() && events.drop_last()[w] == out[a];
                assert(events[w] == out[a]);
            } else {
                assert(r[a] == e);
                assert(events[events.len() - 1] == e);
            }
        }
    }
}

proof fn lemma_new_patterns(seen: Seq<Seq<char>>, errors: Seq<Seq<char>>)
    ensures
        forall|x: Seq<char>| seen.contains(x) ==> #[trigger] new_patterns_of(seen, errors).0.contains(x),
        forall|a: int| 0 <= a < new_patterns_of(seen, errors).1.len() ==> {
            let e = #[trigger] new_patterns_of(seen, errors).1[a];
            &&& e is NewErrorPattern
            &&& !seen.contains(e->NewErrorPattern_message)
            &&& new_patterns_of(seen, errors).0.contains(e->NewErrorPattern_message)
        },
    decreases errors.len(),
{
    if errors.len() > 0 {
        lemma_new_patterns(seen, errors.drop_last());
        let (sp, ev) = new_patterns_of(seen, errors.drop_last());
        let m = errors.last();
        if !sp.contains(m) {
            let s2 = sp.push(m);
            assert(s2[sp.len() as int] == m);
            assert forall|x: Seq<char>| sp.contains(x) implies #[trigger] s2.contains(x) by {
                let w = choose|w: int| 0 <= w < sp.len() && sp[w] == x;
                assert(s2[w] == x);
            }
            let ev2 = ev.push(EventView::NewErrorPattern { message: m });
            assert forall|a: int| 0 <= a < ev2.len() implies {
                let e = #[trigger] ev2[a];
                &&& e is NewErrorPattern
                &&& !seen.contains(e->NewErrorPattern_message)
                &&& s2.contains(e->NewErrorPattern_message)
            } by {
                if a < ev.len() {
                    assert(ev2[a] == ev[a]);
                    assert(sp.contains(ev[a]->NewErrorPattern_message));
                } else {
                    assert(ev2[a] == EventView::NewErrorPattern { message: m });
                    if seen.contains(m) {
                        assert(sp.contains(m));
                    }
                }
            }
        }
    }
}

proof fn lemma_error_events(seen: Seq<Seq<char>>, errors: Seq<Seq<char>>)
    ensures
        ({
            let (seen2, errs) = error_events_of(seen, errors);
            &&& forall|x: Seq<char>| seen.contains(x) ==> #[trigger] seen2.contains(x)
            &&& forall|e: EventView, m: Seq<char>| errs.contains(e) && #[trigger] new_pattern(e, m) ==>
                !seen.contains(m) && seen2.contains(m)
            &&& forall|e: EventView| errs.contains(e) ==> !(#[trigger] is_command_failed(e))
        }),
{
    let first3 = errors.take(if errors.len() < 3 { errors.len() as int } else { 3 });
    lemma_new_patterns(seen, first3);
    let (seen2, errs) = error_events_of(seen, errors);
    let (_, fresh) = new_patterns_of(seen, first3);
    let spike: Seq<EventView> = if errors.len() >= 8 { seq![EventView::ErrorRateSpike { count: errors.len() }] } else { Seq::empty() };
    let repeated: Seq<EventView> = match repeated_error_of(errors) {
        Some((m, c)) => seq![EventView::RepeatedError { message: m, count: c }],
        None => Seq::empty(),
    };
    assert(errs == spike + repeated + fresh);
    assert forall|e: EventView| errs.contains(e) implies (new_pattern_message(e) is Some ==> fresh.contains(e)) && !(
    #[trigger] is_command_failed(e)) by {
        let w = choose|w: int| 0 <= w < errs.len() && errs[w] == e;
        if w >= spike.len() + repeated.len() {
            let a = w - spike.len() - repeated.len();
            assert(errs[w] == fresh[a]);
        } else if w >= spike.len() {
            assert(errs[w] == repeated[w - spike.len()]);
        } else {
            assert(errs[w] == spike[w]);
        }
    }
    assert forall|e: EventView, m: Seq<char>| errs.contains(e) && #[trigger] new_pattern(e, m) implies
        !seen.contains(m) && seen2.contains(m) by {
        assert(new_pattern_message(e) is Some);
        assert(fresh.contains(e));
        let a = choose|a: int| 0 <= a < fresh.len() && fresh[a] == e;
        assert(new_patterns_of(seen, first3).1[a] == e);
    }
}

proof fn lemma_repo_events(failed: Seq<(Seq<char>, Seq<char>)>, dirty: Option<u64>, obs: ObservationView, now: u64, idle: nat)
    ensures
        ({
            let (failed2, repo) = repo_events_of(failed, dirty, obs, now, idle);
            &&& forall|p: (Seq<char>, Seq<char>)| failed.contains(p) ==> #[trigger] failed2.contains(p)
            &&& forall|e: EventView, b: Seq<char>, c: Seq<char>| repo.contains(e) && #[trigger] first_failure(e, b, c) ==>
                !failed.contains((b, c)) && failed2.contains((b, c))
            &&& forall|e: EventView| repo.contains(e) ==> (#[trigger] new_pattern_message(e)) is None
        }),
{
    let (failed2, repo) = repo_events_of(failed, dirty, obs, now, idle);
    let (f2, cmd) = command_event_of(failed, obs);
    assert forall|p: (Seq<char>, Seq<char>)| failed.contains(p) implies #[trigger] failed2.contains(p) by {
        if f2 != failed {
            let w = choose|w: int| 0 <= w < failed.len() && failed[w] == p;
            assert(f2[w] == p);
        }
    }
    let cmd_events: Seq<EventView> = match cmd {
        Some(x) => seq![x],
        None => Seq::empty(),
    };
    let rest = repo.skip(cmd_events.len() as int);
    assert(repo =~= cmd_events + rest);
    assert forall|e: EventView| repo.contains(e) implies (#[trigger] new_pattern_message(e)) is None && (is_command_failed(e) ==> cmd == Some(e)) by {
        let w = choose|w: int| 0 <= w < repo.len() && repo[w] == e;
        if w < cmd_events.len() {
            assert(repo[w] == cmd_events[w]);
        }
    }
    assert forall|e: EventView, b: Seq<char>, c: Seq<char>| repo.contains(e) && #[trigger] first_failure(e, b, c) implies
        !failed.contains((b, c)) && failed2.contains((b, c)) by {
        assert(is_command_failed(e));
        assert(cmd == Some(e));
        assert(f2[f2.len() - 1] == (b, c));
    }
}

/// What one snapshot does to the remembered messages and failures: both
/// only grow, a message reported as new was not remembered before and is
/// after, and likewise a failure reported for the first time.
proof fn lemma_candidates(st: ObserverView, obs: ObservationView, now: u64, idle: nat)
    ensures
        ({
            let (mid, cands) = candidates_of(st, obs, now, idle);
            &&& forall|x: Seq<char>| st.seen_errors.contains(x) ==> #[trigger] mid.seen_errors.contains(x)
            &&& forall|p: (Seq<char>, Seq<char>)| st.failed.contains(p) ==> #[trigger] mid.failed.contains(p)
            &&& forall|e: EventView, m: Seq<char>| cands.contains(e) && #[trigger] new_pattern(e, m) ==>
                !st.seen_errors.contains(m) && mid.seen_errors.contains(m)
            &&& forall|e: EventView, b: Seq<char>, c: Seq<char>| cands.contains(e) && #[trigger] first_failure(e, b, c) ==>
                !st.failed.contains((b, c)) && mid.failed.contains((b, c))
        }),
{
    let errors = error_messages_of(obs.log_entries);
    let dirty = dirty_since_of(st.dirty_since, obs.dirty_count, now);
    lemma_error_events(st.seen_errors, errors);
    lemma_repo_events(st.failed, dirty, obs, now, idle);
    let (seen2, errs) = error_events_of(st.seen_errors, errors);
    let (failed2, repo) = repo_events_of(st.failed, dirty, obs, now, idle);
    let (mid, cands) = candidates_of(st, obs, now, idle);
    assert(cands == errs + repo);
    assert forall|e: EventView| cands.contains(e) implies #[trigger] errs.contains(e) || repo.contains(e) by {
        let w = choose|w: int| 0 <= w < cands.len() && cands[w] == e;
        if w < errs.len() {
            assert(errs[w] == e);
        } else {
            assert(repo[w - errs.len()] == e);
        }
    }
    assert forall|e: EventView, m: Seq<char>| cands.contains(e) && #[trigger] new_pattern(e, m) implies
        !st.seen_errors.contains(m) && mid.seen_errors.contains(m) by {
        assert(errs.contains(e) || repo.contains(e));
        if repo.contains(e) {
            assert(new_pattern_message(e) is None);
        }
    }
    assert forall|e: EventView, b: Seq<char>, c: Seq<char>| cands.contains(e) && #[trigger] first_failure(e, b, c) implies
        !st.failed.contains((b, c)) && mid.failed.contains((b, c)) by {
        assert(errs.contains(e) || repo.contains(e));
        if errs.contains(e) {
            assert(!is_command_failed(e));
        }
    }
}

proof fn lemma_memory_grows(st: ObserverView, snaps: Seq<(ObservationView, u64)>, idle: nat, k: int, n: int)
    requires
        0 <= k <= n <= snaps.len(),
    ensures
        forall|x: Seq<char>| state_after(st, snaps.take(k), idle).seen_errors.contains(x)
            ==> #[trigger] state_after(st, snaps.take(n), idle).seen_errors.contains(x),
        forall|p: (Seq<char>, Seq<char>)| state_after(st, snaps.take(k), idle).failed.contains(p)
            ==> #[trigger] state_after(st, snaps.take(n), idle).failed.contains(p),
    decreases n - k,
{
    if n > k {
        lemma_memory_grows(st, snaps, idle, k, n - 1);
        let t = snaps.take(n);
        assert(t.drop_last() =~= snaps.take(n - 1));
        let before = state_after(st, snaps.take(n - 1), idle);
        lemma_candidates(before, t.last().0, t.last().1, idle);
    }
}

/// What a snapshot reports is among its candidates, and the state after it
/// is the candidates' state.
proof fn lemma_step(st: ObserverView, snaps: Seq<(ObservationView, u64)>, idle: nat, i: int)
    requires
        0 <= i < snaps.len(),
    ensures
        ({
            let before = state_after(st, snaps.take(i), idle);
            let (mid, cands) = candidates_of(before, snaps[i].0, snaps[i].1, idle);
            &&& forall|a: int| 0 <= a < reports_at(st, snaps, idle, i).len() ==> cands.contains(
                #[trigger] reports_at(st, snaps, idle, i)[a],
            )
            &&& state_after(st, snaps.take(i + 1), idle).seen_errors == mid.seen_errors
            &&& state_after(st, snaps.take(i + 1), idle).failed == mid.failed
        }),
{
    let before = state_after(st, snaps.take(i), idle);
    let (mid, cands) = candidates_of(before, snaps[i].0, snaps[i].1, idle);
    lemma_cooldown_subset(before.last_emitted, cands, snaps[i].1);
    let t = snaps.take(i + 1);
    assert(t.drop_last() =~= snaps.take(i));
    assert(t.last() == snaps[i]);
}

/// Across snapshots, a failed command is reported as failing for the first
/// time at most once per branch and command; later failures come as
/// failing again.
pub proof fn law_command_failure_reported_once(st: ObserverView, snaps: Seq<(ObservationView, u64)>, idle_after_secs: nat)
    ensures
        forall|i: int, j: int, a: int, x: int, b: Seq<char>, c: Seq<char>|
            0 <= i < j < snaps.len() && 0 <= a < reports_at(st, snaps, idle_after_secs, i).len() && 0 <= x
                < reports_at(st, snaps, idle_after_secs, j).len() && #[trigger] first_failure(
                reports_at(st, snaps, idle_after_secs, i)[a],
                b,
                c,
            ) ==> !#[trigger] first_failure(reports_at(st, snaps, idle_after_secs, j)[x], b, c),
{
    assert forall|i: int, j: int, a: int, x: int, b: Seq<char>, c: Seq<char>|
        0 <= i < j < snaps.len() && 0 <= a < reports_at(st, snaps, idle_after_secs, i).len() && 0 <= x
            < reports_at(st, snaps, idle_after_secs, j).len() && #[trigger] first_failure(
            reports_at(st, snaps, idle_after_secs, i)[a],
            b,
            c,
        ) implies !#[trigger] first_failure(reports_at(st, snaps, idle_after_secs, j)[x], b, c) by {
        let idle = idle_after_secs;
        lemma_step(st, snaps, idle, i);
        let bi = state_after(st, snaps.take(i), idle);
        lemma_candidates(bi, snaps[i].0, snaps[i].1, idle);
        let ei = reports_at(st, snaps, idle, i)[a];
        assert(candidates_of(bi, snaps[i].0, snaps[i].1, idle).1.contains(ei));
        assert(state_after(st, snaps.take(i + 1), idle).failed.contains((b, c)));
        lemma_memory_grows(st, snaps, idle, i + 1, j);
        assert(state_after(st, snaps.take(j), idle).failed.contains((b, c)));
        lemma_step(st, snaps, idle, j);
        let bj = state_after(st, snaps.take(j), idle);
        lemma_candidates(bj, snaps[j].0, snaps[j].1, idle);
        let ej = reports_at(st, snaps, idle, j)[x];
        assert(candidates_of(bj, snaps[j].0, snaps[j].1, idle).1.contains(ej));
    }
}

/// Across snapshots, an error message is reported as a new pattern at most
/// once.
pub proof fn law_new_pattern_reported_once(st: ObserverView, snaps: Seq<(ObservationView, u64)>, idle_after_secs: nat)
    ensures
        forall|i: int, j: int, a: int, x: int, m: Seq<char>|
            0 <= i < j < snaps.len() && 0 <= a < reports_at(st, snaps, idle_after_secs, i).len() && 0 <= x
                < reports_at(st, snaps, idle_after_secs, j).len() && #[trigger] new_pattern(
                reports_at(st, snaps, idle_after_secs, i)[a],
                m,
            ) ==> !#[trigger] new_pattern(reports_at(st, snaps, idle_after_secs, j)[x], m),
{
    assert forall|i: int, j: int, a: int, x: int, m: Seq<char>|
        0 <= i < j < snaps.len() && 0 <= a < reports_at(st, snaps, idle_after_secs, i).len() && 0 <= x
            < reports_at(st, snaps, idle_after_secs, j).len() && #[trigger] new_pattern(
            reports_at(st, snaps, idle_after_secs, i)[a],
            m,
        ) implies !#[trigger] new_pattern(reports_at(st, snaps, idle_after_secs, j)[x], m) by {
        let idle = idle_after_secs;
        lemma_step(st, snaps, idle, i);
        let bi = state_after(st, snaps.take(i), idle);
        lemma_candidates(bi, snaps[i].0, snaps[i].1, idle);
        let ei = reports_at(st, snaps, idle, i)[a];
        assert(candidates_of(bi, snaps[i].0, snaps[i].1, idle).1.contains(ei));
        assert(state_after(st, snaps.take(i + 1), idle).seen_errors.contains(m));
        lemma_memory_grows(st, snaps, idle, i + 1, j);
        assert(state_after(st, snaps.take(j), idle).seen_errors.contains(m));
        lemma_step(st, snaps, idle, j);
        let bj = state_after(st, snaps.take(j), idle);
        lemma_candidates(bj, snaps[j].0, snaps[j].1, idle);
        let ej = reports_at(st, snaps, idle, j)[x];
        assert(candidates_of(bj, snaps[j].0, snaps[j].1, idle).1.contains(ej));
    }
}

} // verus!
