//! Talking to the planning model: the local request rate limit, reading
//! the HTTP reply that `curl` printed, falling back to the second model,
//! reading the API key from `.env.agent`, and unwrapping a reply from its
//! Markdown fences.
use vstd::prelude::*;

use crate::text::{
    append_chars, append_str, chars_of, decimal_digits, eq_str, find_last, has_prefix, has_suffix,
    last_index_of, lemma_last_index_bounds, lines_of, parse_unsigned, parse_unsigned_chars,
    push_decimal, seqs_of, slice_chars, split_lines, split_once, split_once_of, starts_with,
    string_of, strip_prefix, trim, trim_char, trim_char_of, trim_of,
};

verus! {

broadcast use vstd::string::group_string_axioms;

// ─── Rate limit ──────────────────────────────────────────────────────

/// Requests allowed in one minute.
pub const MAX_REQUESTS_PER_WINDOW: u32 = 8;
/// Least milliseconds between two requests.
pub const MIN_REQUEST_GAP_MS: u64 = 2_000;
/// Milliseconds to hold back after the service answered 429.
pub const RATE_LIMIT_BACKOFF_MS: u64 = 60_000;
/// Milliseconds to hold back after hitting the local limit.
pub const LOCAL_BACKOFF_MS: u64 = 30_000;
/// The length of a rate window.
pub const WINDOW_MS: u64 = 60_000;

/// The request budget, in milliseconds of a monotonic clock.
pub struct RateLimit {
    pub window_started: u64,
    pub requests_in_window: u32,
    pub last_request: Option<u64>,
    pub backoff_until: Option<u64>,
}

/// The message when the local limit is hit.
pub open spec fn local_limit_message() -> Seq<char> {
    "local rate limit (8/min); backing off 30s"@
}

/// What asking for a slot at `now` does to the budget, and its answer: a
/// new window starts once a minute has passed; with the window's requests
/// used up the caller backs off for 30 s and is refused; otherwise the
/// answer is the time still to wait after the last request.
pub open spec fn claim_of(r: RateLimit, now: u64) -> (RateLimit, Result<u64, Seq<char>>) {
    let renew = now >= r.window_started && now - r.window_started >= WINDOW_MS;
    let count = if renew { 0 } else { r.requests_in_window };
    let started = if renew { now } else { r.window_started };
    if count >= MAX_REQUESTS_PER_WINDOW {
        (
            RateLimit {
                window_started: started,
                requests_in_window: count,
                backoff_until: Some((now + LOCAL_BACKOFF_MS) as u64),
                ..r
            },
            Err(local_limit_message()),
        )
    } else {
        (
            RateLimit { window_started: started, requests_in_window: count, ..r },
            Ok(
                match r.last_request {
                    Some(last) => if now >= last && now - last < MIN_REQUEST_GAP_MS {
                        (MIN_REQUEST_GAP_MS - (now - last)) as u64
                    } else if now < last {
                        MIN_REQUEST_GAP_MS
                    } else {
                        0
                    },
                    None => 0,
                },
            ),
        )
    }
}

/// How long a pending back-off still lasts at `now` (0 when there is none).
pub open spec fn backoff_wait_of(r: RateLimit, now: u64) -> u64 {
    match r.backoff_until {
        Some(until) => if until > now { (until - now) as u64 } else { 0 },
        None => 0,
    }
}

impl RateLimit {
    /// A fresh budget whose window starts at `now`.
    pub fn new(now: u64) -> (r: RateLimit)
        ensures
            r.window_started == now,
            r.requests_in_window == 0,
            r.last_request is None,
            r.backoff_until is None,
    {
        RateLimit { window_started: now, requests_in_window: 0, last_request: None, backoff_until: None }
    }

    /// First step of waiting for a slot: how long a pending back-off still
    /// lasts (0 when there is none), which is then cleared.
    pub fn take_backoff(&mut self, now: u64) -> (wait: u64)
        ensures
            wait == backoff_wait_of(*old(self), now),
            final(self).backoff_until is None,
            final(self).window_started == old(self).window_started,
            final(self).requests_in_window == old(self).requests_in_window,
            final(self).last_request == old(self).last_request,
    {
        let wait = match self.backoff_until {
            Some(until) => if until > now {
                until - now
            } else {
                0
            },
            None => 0,
        };
        self.backoff_until = None;
        wait
    }

    /// Second step: a new window starts after a minute; with the window's
    /// requests used up the caller backs off and is refused; otherwise the
    /// time still to wait after the last request is returned.
    pub fn claim_slot(&mut self, now: u64) -> (r: Result<u64, String>)
        requires
            now <= u64::MAX - LOCAL_BACKOFF_MS,
            old(self).requests_in_window <= MAX_REQUESTS_PER_WINDOW,
        ensures
            final(self).requests_in_window <= MAX_REQUESTS_PER_WINDOW,
            *final(self) == claim_of(*old(self), now).0,
            match r {
                Ok(w) => claim_of(*old(self), now).1 == Ok::<u64, Seq<char>>(w),
                Err(e) => claim_of(*old(self), now).1 == Err::<u64, Seq<char>>(e@),
            },
    {
        if now >= self.window_started && now - self.window_started >= WINDOW_MS {
            self.window_started = now;
            self.requests_in_window = 0;
        }
        if self.requests_in_window >= MAX_REQUESTS_PER_WINDOW {
            self.backoff_until = Some(now + LOCAL_BACKOFF_MS);
            return Err("local rate limit (8/min); backing off 30s".to_string());
        }
        match self.last_request {
            Some(last) => {
                let elapsed = if now >= last { now - last } else { 0 };
                if elapsed < MIN_REQUEST_GAP_MS {
                    Ok(MIN_REQUEST_GAP_MS - elapsed)
                } else {
                    Ok(0)
                }
            },
            None => Ok(0),
        }
    }

    /// Last step: the request is counted and its time kept.
    pub fn record(&mut self, now: u64)
        requires
            old(self).requests_in_window < MAX_REQUESTS_PER_WINDOW,
        ensures
            final(self).requests_in_window == old(self).requests_in_window + 1,
            final(self).last_request == Some(now),
            final(self).window_started == old(self).window_started,
            final(self).backoff_until == old(self).backoff_until,
    {
        self.requests_in_window = self.requests_in_window + 1;
        self.last_request = Some(now);
    }

    /// The service answered 429: hold back for a minute.
    pub fn on_rate_limited(&mut self, now: u64)
        requires
            now <= u64::MAX - RATE_LIMIT_BACKOFF_MS,
        ensures
            final(self).backoff_until == Some((now + RATE_LIMIT_BACKOFF_MS) as u64),
            final(self).window_started == old(self).window_started,
            final(self).requests_in_window == old(self).requests_in_window,
            final(self).last_request == old(self).last_request,
    {
        self.backoff_until = Some(now + RATE_LIMIT_BACKOFF_MS);
    }
}

/// Within one window, once its budget of requests was recorded, a request
/// is refused and the caller backs off for 30 seconds.
pub proof fn law_window_budget(r: RateLimit, now: u64)
    requires
        r.requests_in_window == MAX_REQUESTS_PER_WINDOW,
        r.window_started <= now < r.window_started + WINDOW_MS,
        now <= u64::MAX - LOCAL_BACKOFF_MS,
    ensures
        claim_of(r, now).1 is Err,
        claim_of(r, now).0.requests_in_window == MAX_REQUESTS_PER_WINDOW,
        claim_of(r, now).0.backoff_until == Some((now + LOCAL_BACKOFF_MS) as u64),
{
}

/// A minute after its window started, the budget is whole again: the
/// request is granted, and the window starts anew.
pub proof fn law_window_renews(r: RateLimit, now: u64)
    requires
        r.window_started + WINDOW_MS <= now,
    ensures
        claim_of(r, now).1 is Ok,
        claim_of(r, now).0.window_started == now,
        claim_of(r, now).0.requests_in_window == 0,
{
}

/// A granted request never waits more than the least gap between
/// requests.
pub proof fn law_gap_bounded(r: RateLimit, now: u64)
    ensures
        claim_of(r, now).1 matches Ok(w) ==> w <= MIN_REQUEST_GAP_MS,
{
}

/// A run of granted requests, each asked for at its first time (`claim_of`)
/// and recorded at its second, after the wait the answer gave; `None` when
/// some request of the run would not have been granted so.
pub open spec fn run_grants(r: RateLimit, trace: Seq<(u64, u64)>) -> Option<RateLimit>
    decreases trace.len(),
{
    if trace.len() == 0 {
        Some(r)
    } else {
        match run_grants(r, trace.drop_last()) {
            None => None,
            Some(q) => {
                let (asked, sent) = trace.last();
                let (q2, answer) = claim_of(q, asked);
                match answer {
                    Ok(wait) => if sent >= asked + wait && q2.requests_in_window < MAX_REQUESTS_PER_WINDOW {
                        Some(RateLimit {
                            requests_in_window: (q2.requests_in_window + 1) as u32,
                            last_request: Some(sent),
                            ..q2
                        })
                    } else {
                        None
                    },
                    Err(_) => None,
                }
            },
        }
    }
}

/// Across calls: all the requests granted while their window lasts number
/// at most the window's budget, and two granted requests, each asked for
/// no earlier than the one before was sent, go out at least the least gap
/// apart.
pub proof fn law_grants_across_calls(r: RateLimit, trace: Seq<(u64, u64)>)
    requires
        r.requests_in_window <= MAX_REQUESTS_PER_WINDOW,
        forall|i: int| 0 < i < trace.len() ==> #[trigger] trace[i].0 >= trace[i - 1].1,
        trace.len() > 0 ==> (r.last_request matches Some(l) ==> l <= trace[0].0),
    ensures
        run_grants(r, trace) matches Some(q) ==> {
            &&& (forall|i: int| 0 <= i < trace.len() ==> r.window_started <= #[trigger] trace[i].0
                < r.window_started + WINDOW_MS) ==> r.requests_in_window + trace.len() <= MAX_REQUESTS_PER_WINDOW
            &&& forall|i: int| 0 < i < trace.len() ==> #[trigger] trace[i].1 >= trace[i - 1].1 + MIN_REQUEST_GAP_MS
            &&& (trace.len() > 0 ==> (r.last_request matches Some(l) ==> trace[0].1 >= l + MIN_REQUEST_GAP_MS))
        },
    decreases trace.len(),
{
    lemma_grants(r, trace);
}

proof fn lemma_grants(r: RateLimit, trace: Seq<(u64, u64)>)
    requires
        r.requests_in_window <= MAX_REQUESTS_PER_WINDOW,
        forall|i: int| 0 < i < trace.len() ==> #[trigger] trace[i].0 >= trace[i - 1].1,
        trace.len() > 0 ==> (r.last_request matches Some(l) ==> l <= trace[0].0),
    ensures
        run_grants(r, trace) matches Some(q) ==> {
            &&& q.requests_in_window <= MAX_REQUESTS_PER_WINDOW
            &&& (trace.len() > 0 ==> q.last_request == Some(trace.last().1))
            &&& (trace.len() == 0 ==> q == r)
            &&& ((forall|i: int| 0 <= i < trace.len() ==> r.window_started <= #[trigger] trace[i].0
                < r.window_started + WINDOW_MS) ==> q.window_started == r.window_started
                && q.requests_in_window == r.requests_in_window + trace.len())
            &&& forall|i: int| 0 < i < trace.len() ==> #[trigger] trace[i].1 >= trace[i - 1].1 + MIN_REQUEST_GAP_MS
            &&& (trace.len() > 0 ==> (r.last_request matches Some(l) ==> trace[0].1 >= l + MIN_REQUEST_GAP_MS))
        },
    decreases trace.len(),
{
    if trace.len() > 0 {
        let prefix = trace.drop_last();
        assert forall|i: int| 0 < i < prefix.len() implies #[trigger] prefix[i].0 >= prefix[i - 1].1 by {
            assert(prefix[i] == trace[i] && prefix[i - 1] == trace[i - 1]);
        }
        lemma_grants(r, prefix);
        let n = trace.len() - 1;
        if let Some(q) = run_grants(r, prefix) {
            let (asked, sent) = trace.last();
            if let Some(qq) = run_grants(r, trace) {
                if n > 0 {
                    assert(prefix.last() == trace[n - 1]);
                    assert(q.last_request == Some(trace[n - 1].1));
                    assert(asked >= trace[n - 1].1);
                    assert(sent >= trace[n - 1].1 + MIN_REQUEST_GAP_MS);
                } else {
                    assert(q == r);
                }
                assert forall|i: int| 0 < i < trace.len() implies #[trigger] trace[i].1 >= trace[i - 1].1 + MIN_REQUEST_GAP_MS by {
                    if i < n {
                        assert(prefix[i] == trace[i] && prefix[i - 1] == trace[i - 1]);
                    }
                }
                if forall|i: int| 0 <= i < trace.len() ==> r.window_started <= #[trigger] trace[i].0
                    < r.window_started + WINDOW_MS {
                    assert forall|i: int| 0 <= i < prefix.len() implies r.window_started <= #[trigger] prefix[i].0
                        < r.window_started + WINDOW_MS by {
                        assert(prefix[i] == trace[i]);
                    }
                    assert(trace[n] == trace.last());
                }
            }
        }
    }
}

/// One whole wait for a slot, `(start, resumed, sent, limited)`: begun at
/// `start`, it sleeps out the pending back-off and asks for a slot at
/// `resumed` (`take_backoff`, then `claim_slot`); when granted, it sleeps
/// out the gap and the request goes out at `sent` (`record`); when the
/// service then answers 429 at `limited`, the long back-off starts
/// (`on_rate_limited`). The budget after the call; `None` when the times do
/// not follow the waits the call was told.
pub open spec fn slot_call_of(r: RateLimit, call: (u64, u64, u64, Option<u64>)) -> Option<RateLimit> {
    let (start, resumed, sent, limited) = call;
    if resumed < start + backoff_wait_of(r, start) || sent < resumed {
        None
    } else {
        let (q, answer) = claim_of(RateLimit { backoff_until: None, ..r }, resumed);
        match answer {
            Err(_) => if limited is None { Some(q) } else { None },
            Ok(wait) => if sent < resumed + wait {
                None
            } else {
                let sent_state = RateLimit {
                    requests_in_window: (q.requests_in_window + 1) as u32,
                    last_request: Some(sent),
                    ..q
                };
                match limited {
                    None => Some(sent_state),
                    Some(x) => if x < sent {
                        None
                    } else {
                        Some(RateLimit { backoff_until: Some((x + RATE_LIMIT_BACKOFF_MS) as u64), ..sent_state })
                    },
                }
            },
        }
    }
}

/// When a call is done: at the 429 answer if one came, else at `sent`.
pub open spec fn call_done(call: (u64, u64, u64, Option<u64>)) -> u64 {
    match call.3 {
        Some(x) => x,
        None => call.2,
    }
}

/// The budget after a run of calls, one after another; `None` when some
/// call of the run is not one that `slot_call_of` allows.
pub open spec fn run_calls(r: RateLimit, calls: Seq<(u64, u64, u64, Option<u64>)>) -> Option<RateLimit>
    decreases calls.len(),
{
    if calls.len() == 0 {
        Some(r)
    } else {
        match run_calls(r, calls.drop_last()) {
            None => None,
            Some(q) => slot_call_of(q, calls.last()),
        }
    }
}

proof fn lemma_run_prefix(r: RateLimit, calls: Seq<(u64, u64, u64, Option<u64>)>, i: int)
    requires
        run_calls(r, calls) is Some,
        0 <= i <= calls.len(),
    ensures
        run_calls(r, calls.take(i)) is Some,
        i < calls.len() ==> run_calls(r, calls.take(i + 1)) == slot_call_of(
            run_calls(r, calls.take(i))->Some_0,
            calls[i],
        ),
    decreases calls.len() - i,
{
    if i == calls.len() {
        assert(calls.take(i) =~= calls);
    } else {
        lemma_run_prefix(r, calls, i + 1);
        let t = calls.take(i + 1);
        assert(t.drop_last() =~= calls.take(i));
        assert(t.last() == calls[i]);
    }
}

proof fn lemma_backoff_step(
    r: RateLimit,
    calls: Seq<(u64, u64, u64, Option<u64>)>,
    k: int,
    t: u64,
    j: int,
)
    requires
        run_calls(r, calls) is Some,
        forall|i: int| 0 < i < calls.len() ==> #[trigger] calls[i].0 >= call_done(calls[i - 1]),
        0 <= k <= j < calls.len(),
        run_calls(r, calls.take(k)) matches Some(q) && q.backoff_until == Some(t),
    ensures
        calls[j].1 >= t,
        calls[j].2 >= calls[j].1,
        call_done(calls[j]) >= calls[j].2,
    decreases j - k,
{
    lemma_run_prefix(r, calls, j);
    lemma_run_prefix(r, calls, j + 1);
    let q = run_calls(r, calls.take(j))->Some_0;
    assert(slot_call_of(q, calls[j]) is Some);
    if j > k {
        lemma_backoff_step(r, calls, k, t, j - 1);
        assert(calls[j].0 >= call_done(calls[j - 1]));
    }
}

/// Once a back-off until `t` is set, by a refusal or by a 429 answer, no
/// later call asks for its slot, and so none returns, before `t`.
pub proof fn law_backoff_holds(r: RateLimit, calls: Seq<(u64, u64, u64, Option<u64>)>, k: int, t: u64)
    requires
        run_calls(r, calls) is Some,
        forall|i: int| 0 < i < calls.len() ==> #[trigger] calls[i].0 >= call_done(calls[i - 1]),
        0 <= k <= calls.len(),
        run_calls(r, calls.take(k)) matches Some(q) && q.backoff_until == Some(t),
    ensures
        forall|j: int| k <= j < calls.len() ==> #[trigger] calls[j].1 >= t,
{
    assert forall|j: int| k <= j < calls.len() implies #[trigger] calls[j].1 >= t by {
        lemma_backoff_step(r, calls, k, t, j);
    }
}

// ─── Replies ─────────────────────────────────────────────────────────

/// The body and HTTP status of what `curl -w '\n%{http_code}'` printed:
/// the text before the last newline, and the number after it (0 when
/// there is no newline or no number).
pub open spec fn split_reply_of(raw: Seq<char>) -> (Seq<char>, nat) {
    let i = last_index_of(raw, '\n');
    if i < 0 {
        (raw, 0)
    } else {
        (raw.take(i), match parse_unsigned(trim_of(raw.skip(i + 1)), 65535) {
            Some(n) => n,
            None => 0,
        })
    }
}

/// What a call of `model` gave: the body, or the status and message of
/// the failure.
pub open spec fn reply_of(model: Seq<char>, raw: Seq<char>, stderr: Seq<char>, success: bool) -> Result<Seq<char>, (nat, Seq<char>)> {
    let (body, code) = split_reply_of(raw);
    let err = trim_of(stderr);
    if code == 429 {
        Err((429, model + " rate limited (429)"@))
    } else if code >= 400 || !success {
        let detail = if err.len() == 0 {
            body.take(if body.len() < 200 { body.len() as int } else { 200 })
        } else {
            err
        };
        Err((code, model + " error (HTTP "@ + decimal_digits(code) + "): "@ + detail))
    } else {
        Ok(body)
    }
}

/// Reads what `curl` printed for a call of `model`.
pub fn read_reply(model: &str, raw: &str, stderr: &str, success: bool) -> (r: Result<String, (u16, String)>)
    ensures
        match r {
            Ok(b) => reply_of(model@, raw@, stderr@, success) == Ok::<Seq<char>, (nat, Seq<char>)>(b@),
            Err((code, m)) => reply_of(model@, raw@, stderr@, success) == Err::<Seq<char>, (nat, Seq<char>)>((code as nat, m@)),
        },
{
    let chars = chars_of(raw);
    proof {
        lemma_last_index_bounds(raw@, '\n');
    }
    let (body, code): (Vec<char>, u16) = match find_last(&chars, '\n') {
        Some(i) => {
            let b = slice_chars(&chars, 0, i);
            let tail = slice_chars(&chars, i + 1, chars.len());
            assert(b@ =~= raw@.take(i as int));
            assert(tail@ =~= raw@.skip(i + 1));
            let t = trim(&tail);
            let code: u16 = match parse_unsigned_chars(&t, 65535) {
                Some(n) => n as u16,
                None => 0,
            };
            (b, code)
        },
        None => (chars, 0),
    };
    let err = trim(&chars_of(stderr));
    if code == 429 {
        let mut m = chars_of(model);
        append_str(&mut m, " rate limited (429)");
        return Err((429, string_of(&m)));
    }
    if code >= 400 || !success {
        let detail = if err.len() == 0 {
            let n = if body.len() < 200 { body.len() } else { 200 };
            let d = slice_chars(&body, 0, n);
            assert(d@ =~= body@.take(n as int));
            d
        } else {
            err
        };
        let mut m = chars_of(model);
        append_str(&mut m, " error (HTTP ");
        push_decimal(&mut m, code as u64);
        append_str(&mut m, "): ");
        append_chars(&mut m, &detail);
        return Err((code, string_of(&m)));
    }
    Ok(string_of(&body))
}

/// What to do after the first model answered.
pub enum PrimaryStep {
    Body(String),
    TryFallback,
    Fail(String),
}

/// After the first model: its body is used; a 429 sends the request to
/// the second model; any other failure ends the plan with its message.
pub fn after_primary(reply: Result<String, (u16, String)>) -> (step: PrimaryStep)
    ensures
        match reply {
            Ok(b) => step matches PrimaryStep::Body(s) && s == b,
            Err((code, m)) => if code == 429 {
                step is TryFallback
            } else {
                step matches PrimaryStep::Fail(s) && s == m
            },
        },
{
    match reply {
        Ok(body) => PrimaryStep::Body(body),
        Err((code, detail)) => if code == 429 {
            PrimaryStep::TryFallback
        } else {
            PrimaryStep::Fail(detail)
        },
    }
}

/// After the second model: its body, or `both models failed: ..`; the
/// flag says whether the service must be backed off from (a second 429).
pub fn after_fallback(reply: Result<String, (u16, String)>) -> (r: (Result<String, String>, bool))
    ensures
        match reply {
            Ok(b) => r.0 == Ok::<String, String>(b) && !r.1,
            Err((code, m)) => r.0 matches Err(e) && e@ == "both models failed: "@ + m@ && r.1 == (code == 429),
        },
{
    match reply {
        Ok(body) => (Ok(body), false),
        Err((code, detail)) => {
            let mut m = chars_of("both models failed: ");
            append_str(&mut m, detail.as_str());
            (Err(string_of(&m)), code == 429)
        },
    }
}

// ─── The API key ─────────────────────────────────────────────────────

/// The value a line of an env file gives for `key`: blank lines and `#`
/// comments give none; otherwise `name=value` with the name trimmed equal
/// to the key gives the value trimmed, without surrounding double and
/// then single quotes.
pub open spec fn env_line_value(line: Seq<char>, key: Seq<char>) -> Option<Seq<char>> {
    let t = trim_of(line);
    if t.len() == 0 || t[0] == '#' {
        None
    } else {
        match split_once_of(t, '=') {
            None => None,
            Some((name, value)) => if trim_of(name) == key {
                Some(trim_char_of(trim_char_of(trim_of(value), '"'), '\''))
            } else {
                None
            },
        }
    }
}

/// The value the first line that sets `key` gives, from line `i` on.
pub open spec fn env_value_from(lines: Seq<Seq<char>>, key: Seq<char>, i: int) -> Option<Seq<char>>
    decreases lines.len() - i,
{
    if i < 0 || i >= lines.len() {
        None
    } else {
        match env_line_value(lines[i], key) {
            Some(v) => Some(v),
            None => env_value_from(lines, key, i + 1),
        }
    }
}

fn line_value(line: &[char], key: &str) -> (r: Option<Vec<char>>)
    ensures
        match r {
            Some(v) => env_line_value(line@, key@) == Some(v@),
            None => env_line_value(line@, key@) is None,
        },
{
    let t = trim(line);
    if t.len() == 0 || t[0] == '#' {
        return None;
    }
    match split_once(&t, '=') {
        None => None,
        Some((name, value)) => {
            if eq_str(&trim(&name), key) {
                let v = trim_char(&trim_char(&trim(&value), '"'), '\'');
                Some(v)
            } else {
                None
            }
        },
    }
}

/// The value the first line that sets `key` gives in an env file.
pub fn parse_env_value(raw: &str, key: &str) -> (r: Option<String>)
    ensures
        match r {
            Some(v) => env_value_from(lines_of(raw@), key@, 0) == Some(v@),
            None => env_value_from(lines_of(raw@), key@, 0) is None,
        },
{
    let lines = split_lines(&chars_of(raw));
    let ghost ls = lines_of(raw@);
    let mut i: usize = 0;
    while i < lines.len()
        invariant
            ls == lines_of(raw@),
            seqs_of(lines@) == ls,
            i <= lines.len(),
            env_value_from(ls, key@, 0) == env_value_from(ls, key@, i as int),
        decreases lines.len() - i,
    {
        assert(ls[i as int] == lines@[i as int]@);
        match line_value(&lines[i], key) {
            Some(v) => {
                assert(env_value_from(ls, key@, i as int) == Some(v@));
                return Some(string_of(&v));
            },
            None => {},
        }
        i += 1;
    }
    None
}

/// The refusal for an env file that others may read or write.
pub open spec fn permissions_error_of(mode: u32, path: Seq<char>) -> Option<Seq<char>> {
    if mode & 0o077 != 0 {
        Some(path + " permissions are too open; run `chmod 600 "@ + path + "`"@)
    } else {
        None
    }
}

/// Refuses an env file whose mode lets the group or others in.
pub fn check_permissions(mode: u32, path: &str) -> (r: Result<(), String>)
    ensures
        match r {
            Ok(()) => permissions_error_of(mode, path@) is None,
            Err(e) => permissions_error_of(mode, path@) == Some(e@),
        },
{
    if mode & 0o077 != 0 {
        let mut m = chars_of(path);
        append_str(&mut m, " permissions are too open; run `chmod 600 ");
        append_str(&mut m, path);
        append_str(&mut m, "`");
        Err(string_of(&m))
    } else {
        Ok(())
    }
}

// ─── Unwrapping replies ──────────────────────────────────────────────

/// A reply without the Markdown code fence around it: after a leading
/// ```` ```json ```` or ```` ``` ````, a trailing ```` ``` ```` is dropped too,
/// and the rest trimmed.
pub open spec fn strip_fences_of(text: Seq<char>) -> Seq<char> {
    let t = trim_of(text);
    let fence = "```"@;
    if has_prefix(t, "```json"@) {
        let rest = t.skip(7);
        trim_of(if has_suffix(rest, fence) { rest.take(rest.len() - 3) } else { rest })
    } else if has_prefix(t, fence) {
        let rest = t.skip(3);
        trim_of(if has_suffix(rest, fence) { rest.take(rest.len() - 3) } else { rest })
    } else {
        t
    }
}

/// A reply without the Markdown code fence around it.
pub fn strip_markdown_fences(text: &str) -> (s: String)
    ensures
        s@ == strip_fences_of(text@),
{
    proof {
        reveal_strlit("```json");
        reveal_strlit("```");
    }
    let t = trim(&chars_of(text));
    let skip: usize = if starts_with(&t, "```json") {
        7
    } else if starts_with(&t, "```") {
        3
    } else {
        return string_of(&t);
    };
    let rest = slice_chars(&t, skip, t.len());
    assert(rest@ =~= t@.skip(skip as int));
    let inner = if crate::text::ends_with(&rest, "```") {
        let keep = rest.len() - 3;
        let r = slice_chars(&rest, 0, keep);
        assert(r@ =~= rest@.take(keep as int));
        r
    } else {
        rest
    };
    string_of(&trim(&inner))
}

/// The instructions the model gets before every request.
pub open spec fn system_prompt_of() -> Seq<char> {
    "You are Magma, an AI workspace agent in a terminal emulator. Observe context, respond with JSON actions.\n\nRULES: Return ONLY a JSON array of actions. No markdown, no explanation. Each action needs `kind` and `confidence` (0.0\u{2013}1.0). Use confidence >= 0.90 for clear, safe actions. Never emit destructive commands without confirmation.\n\nACTIONS:\n- surface_message: {\"kind\":\"surface_message\",\"message\":\"...\",\"confidence\":0.95}\n- run_command: {\"kind\":\"run_command\",\"command\":\"...\",\"confidence\":0.7} (read-only preferred)\n- open_pane: {\"kind\":\"open_pane\",\"pane\":\"git|logr|web|view|agent\",\"confidence\":0.95}\n- filter_logr: {\"kind\":\"filter_logr\",\"filter\":{\"query\":\"...\",\"levels\":[\"ERROR\"]},\"confidence\":0.9}\n- stage_hunk: {\"kind\":\"stage_hunk\",\"hunk\":{\"file\":\"...\",\"hunk_index\":0,\"branch\":\"...\"},\"confidence\":0.6}\n- write_annotation: {\"kind\":\"write_annotation\",\"hunk\":{\"file\":\"...\",\"hunk_index\":0,\"branch\":\"...\"},\"note\":\"...\",\"confidence\":0.75}\n\nCONTEXT FIELDS: terminal (cwd, last_lines, last_exit_code, last_command), git (branch, staged/unstaged, conflicted, ahead/behind), logs (entries, levels), active_pane, annotations, memory."@
}

/// The instructions the model gets before every request.
pub fn system_prompt() -> (s: &'static str)
    ensures
        s@ == system_prompt_of(),
{
    "You are Magma, an AI workspace agent in a terminal emulator. Observe context, respond with JSON actions.\n\nRULES: Return ONLY a JSON array of actions. No markdown, no explanation. Each action needs `kind` and `confidence` (0.0\u{2013}1.0). Use confidence >= 0.90 for clear, safe actions. Never emit destructive commands without confirmation.\n\nACTIONS:\n- surface_message: {\"kind\":\"surface_message\",\"message\":\"...\",\"confidence\":0.95}\n- run_command: {\"kind\":\"run_command\",\"command\":\"...\",\"confidence\":0.7} (read-only preferred)\n- open_pane: {\"kind\":\"open_pane\",\"pane\":\"git|logr|web|view|agent\",\"confidence\":0.95}\n- filter_logr: {\"kind\":\"filter_logr\",\"filter\":{\"query\":\"...\",\"levels\":[\"ERROR\"]},\"confidence\":0.9}\n- stage_hunk: {\"kind\":\"stage_hunk\",\"hunk\":{\"file\":\"...\",\"hunk_index\":0,\"branch\":\"...\"},\"confidence\":0.6}\n- write_annotation: {\"kind\":\"write_annotation\",\"hunk\":{\"file\":\"...\",\"hunk_index\":0,\"branch\":\"...\"},\"note\":\"...\",\"confidence\":0.75}\n\nCONTEXT FIELDS: terminal (cwd, last_lines, last_exit_code, last_command), git (branch, staged/unstaged, conflicted, ahead/behind), logs (entries, levels), active_pane, annotations, memory."
}

} // verus!
