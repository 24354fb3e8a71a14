//! Time-driven decisions of the assistant: how job schedules are stored,
//! when a job runs next, what the scheduler does after a run, and whether a
//! conversation continues its session.

use vstd::prelude::*;

use crate::text::{decimal, push_str, str_eq, u64_to_decimal};

verus! {

/// Errors of the assistant's services.
#[derive(Debug, Clone)]
pub enum OrionError {
    Config(String),
    Database(String),
    Session(String),
    Agent(String),
    Cron(String),
    Io(String),
}

/// When a job runs.
#[derive(Debug, Clone)]
pub enum Schedule {
    /// Once, at an RFC 3339 time.
    OneShot { at: String },
    /// Every so many milliseconds.
    Interval { every_ms: u64 },
    /// On a cron expression.
    Cron { expr: String },
}

/// State of a job run.
#[derive(Debug, Clone, Copy, PartialEq, Eq, Structural)]
pub enum RunStatus {
    Running,
    Success,
    Failed,
}

impl RunStatus {
    /// The stored name of a status.
    pub fn as_str(&self) -> (s: &'static str)
        ensures
            s@ == match *self {
                RunStatus::Running => "running"@,
                RunStatus::Success => "success"@,
                RunStatus::Failed => "failed"@,
            },
    {
        match self {
            RunStatus::Running => "running",
            RunStatus::Success => "success",
            RunStatus::Failed => "failed",
        }
    }

    /// The status of a stored name.
    pub fn parse(s: &str) -> (r: Option<RunStatus>)
        ensures
            r == (if s@ == "running"@ {
                Some(RunStatus::Running)
            } else if s@ == "success"@ {
                Some(RunStatus::Success)
            } else if s@ == "failed"@ {
                Some(RunStatus::Failed)
            } else {
                None
            }),
    {
        if str_eq(s, "running") {
            Some(RunStatus::Running)
        } else if str_eq(s, "success") {
            Some(RunStatus::Success)
        } else if str_eq(s, "failed") {
            Some(RunStatus::Failed)
        } else {
            None
        }
    }
}

/// A scheduled job.
#[derive(Debug, Clone)]
pub struct CronJob {
    pub id: String,
    pub name: String,
    pub prompt: String,
    pub schedule: Schedule,
    pub enabled: bool,
    pub delete_after_run: bool,
    pub created_at: String,
    pub last_run_at: Option<String>,
    pub next_run_at: Option<String>,
}

/// A run of a job.
#[derive(Debug, Clone)]
pub struct CronRun {
    pub id: String,
    pub job_id: String,
    pub started_at: String,
    pub completed_at: Option<String>,
    pub status: RunStatus,
    pub result_summary: Option<String>,
}

/// The stored type name and value of a schedule.
pub open spec fn schedule_row(s: Schedule) -> (Seq<char>, Seq<char>) {
    match s {
        Schedule::OneShot { at } => ("one_shot"@, at@),
        Schedule::Interval { every_ms } => ("interval"@, decimal(every_ms as nat)),
        Schedule::Cron { expr } => ("cron"@, expr@),
    }
}

/// The stored type name and value of a schedule.
pub fn schedule_to_db(schedule: &Schedule) -> (r: (&'static str, String))
    ensures
        (r.0@, r.1@) == schedule_row(*schedule),
{
    match schedule {
        Schedule::OneShot { at } => ("one_shot", at.clone()),
        Schedule::Interval { every_ms } => ("interval", u64_to_decimal(*every_ms)),
        Schedule::Cron { expr } => ("cron", expr.clone()),
    }
}

/// The value of a decimal digit.
pub open spec fn digit_value(c: char) -> nat {
    (c as u32 - '0' as u32) as nat
}

pub open spec fn is_digit(c: char) -> bool {
    '0' <= c && c <= '9'
}

/// The number a string of decimal digits denotes.
pub open spec fn digits_value(s: Seq<char>) -> nat
    decreases s.len(),
{
    if s.len() == 0 {
        0
    } else {
        digits_value(s.drop_last()) * 10 + digit_value(s.last())
    }
}

/// The value of an unsigned decimal as `u64`'s `FromStr` reads it: an
/// optional `+`, then at least one digit, and a value that fits.
pub open spec fn u64_value(s: Seq<char>) -> Option<u64> {
    let d = unsigned_digits(s);
    if d.len() > 0 && all_digits(d) && digits_value(d) <= u64::MAX {
        Some(digits_value(d) as u64)
    } else {
        None
    }
}

/// The text after an optional leading `+`.
pub open spec fn unsigned_digits(s: Seq<char>) -> Seq<char> {
    if s.len() > 0 && s[0] == '+' {
        s.drop_first()
    } else {
        s
    }
}

/// Every character is a decimal digit.
pub open spec fn all_digits(d: Seq<char>) -> bool {
    forall|i: int| 0 <= i < d.len() ==> is_digit(#[trigger] d[i])
}

proof fn lemma_digits_value_mono(s: Seq<char>, k: int)
    requires
        0 <= k <= s.len(),
        all_digits(s),
    ensures
        digits_value(s.take(k)) <= digits_value(s),
    decreases s.len() - k,
{
    if k < s.len() {
        lemma_digits_value_mono(s.drop_last(), if k < s.len() - 1 { k } else { s.len() - 1 });
        assert(s.drop_last().take(if k < s.len() - 1 { k } else { s.len() - 1 }) =~= s.take(
            if k < s.len() - 1 { k } else { s.len() - 1 },
        ));
        if k == s.len() - 1 {
            assert(s.take(k) =~= s.drop_last());
        }
    } else {
        assert(s.take(k) =~= s);
    }
}

/// Read an unsigned decimal the way `u64`'s `FromStr` does.
pub fn parse_u64(s: &str) -> (r: Option<u64>)
    ensures
        r == u64_value(s@),
{
    let chars = crate::text::chars_of(s);
    let n = chars.len();
    let start: usize = if n > 0 && chars[0] == '+' {
        1
    } else {
        0
    };
    let ghost d = unsigned_digits(s@);
    proof {
        assert(d =~= chars@.skip(start as int));
    }
    if start == n {
        return None;
    }
    let mut v: u64 = 0;
    let mut i: usize = start;
    while i < n
        invariant
            chars@ == s@,
            n == chars@.len(),
            start <= i <= n,
            d == chars@.skip(start as int),
            d == unsigned_digits(s@),
            d.len() > 0,
            forall|j: int| 0 <= j < i - start ==> is_digit(#[trigger] d[j]),
            v == digits_value(d.take(i - start)),
        decreases n - i,
    {
        let c = chars[i];
        proof {
            assert(d[i - start] == c);
            assert(d.take(i - start + 1).drop_last() =~= d.take(i - start));
        }
        if !('0' <= c && c <= '9') {
            proof {
                assert(!is_digit(d[i - start]));
                assert(!all_digits(d));
            }
            return None;
        }
        let dv = (c as u32 - '0' as u32) as u64;
        if v > (u64::MAX - dv) / 10 {
            proof {
                let k = i - start;
                let dk = d.take(k + 1);
                assert(dk.drop_last() =~= d.take(k));
                assert(dk.last() == c);
                assert(digits_value(dk) == digits_value(d.take(k)) * 10 + digit_value(c));
                assert(digit_value(c) == dv);
                assert(v * 10 + dv > u64::MAX) by (nonlinear_arith)
                    requires
                        v > (u64::MAX - dv) / 10,
                        dv <= 9,
                ;
                if all_digits(d) {
                    lemma_digits_value_mono(d, k + 1);
                }
            }
            return None;
        }
        proof {
            assert(v * 10 + dv <= u64::MAX) by (nonlinear_arith)
                requires
                    v <= (u64::MAX - dv) / 10,
                    dv <= 9,
            ;
        }
        v = v * 10 + dv;
        i = i + 1;
    }
    proof {
        assert(d.take(i - start) =~= d);
    }
    Some(v)
}

/// The interval used when a stored interval cannot be read.
pub const DEFAULT_INTERVAL_MS: u64 = 60000;

/// The schedule a stored row describes; unreadable intervals and unknown
/// types become a one-minute interval.
pub open spec fn schedule_of_row(stype: Seq<char>, svalue: Seq<char>, s: Schedule) -> bool {
    if stype == "one_shot"@ {
        s matches Schedule::OneShot { at } && at@ == svalue
    } else if stype == "interval"@ {
        s == Schedule::Interval {
            every_ms: match u64_value(svalue) {
                Some(v) => v,
                None => DEFAULT_INTERVAL_MS,
            },
        }
    } else if stype == "cron"@ {
        s matches Schedule::Cron { expr } && expr@ == svalue
    } else {
        s == Schedule::Interval { every_ms: DEFAULT_INTERVAL_MS }
    }
}

/// The schedule of a stored row.
pub fn schedule_from_db(stype: &str, svalue: &str) -> (s: Schedule)
    ensures
        schedule_of_row(stype@, svalue@, s),
{
    if str_eq(stype, "one_shot") {
        Schedule::OneShot { at: svalue.to_owned() }
    } else if str_eq(stype, "interval") {
        Schedule::Interval {
            every_ms: match parse_u64(svalue) {
                Some(v) => v,
                None => DEFAULT_INTERVAL_MS,
            },
        }
    } else if str_eq(stype, "cron") {
        Schedule::Cron { expr: svalue.to_owned() }
    } else {
        Schedule::Interval { every_ms: DEFAULT_INTERVAL_MS }
    }
}

proof fn lemma_digit_char_value(d: nat)
    requires
        d < 10,
    ensures
        digit_value(crate::text::digit_char(d)) == d,
        is_digit(crate::text::digit_char(d)),
{
    assert(digit_value('0') == 0);
    assert(digit_value('9') == 9);
    assert(digit_value('1') == 1 && digit_value('2') == 2 && digit_value('3') == 3);
    assert(digit_value('4') == 4 && digit_value('5') == 5 && digit_value('6') == 6);
    assert(digit_value('7') == 7 && digit_value('8') == 8);
}

/// The decimal text of a number reads back as that number.
proof fn lemma_decimal_digits(n: nat)
    ensures
        decimal(n).len() > 0,
        all_digits(decimal(n)),
        digits_value(decimal(n)) == n,
    decreases n,
{
    if n < 10 {
        lemma_digit_char_value(n);
        assert(decimal(n) =~= seq![crate::text::digit_char(n)]);
        assert(decimal(n).drop_last() =~= Seq::<char>::empty());
        assert(decimal(n).last() == crate::text::digit_char(n));
        assert(digits_value(decimal(n)) == digits_value(Seq::<char>::empty()) * 10 + digit_value(
            crate::text::digit_char(n),
        ));
    } else {
        lemma_decimal_digits(n / 10);
        lemma_digit_char_value(n % 10);
        let d = decimal(n);
        assert(d =~= decimal(n / 10).push(crate::text::digit_char(n % 10)));
        assert(d.drop_last() =~= decimal(n / 10));
        assert(d.last() == crate::text::digit_char(n % 10));
        assert(digits_value(d) == digits_value(decimal(n / 10)) * 10 + digit_value(
            crate::text::digit_char(n % 10),
        ));
        assert((n / 10) * 10 + n % 10 == n);
        assert forall|i: int| 0 <= i < d.len() implies is_digit(#[trigger] d[i]) by {
            if i < d.len() - 1 {
                assert(d[i] == decimal(n / 10)[i]);
            }
        }
    }
}

/// A `u64`'s decimal text reads back as that `u64`.
proof fn lemma_u64_value_decimal(n: u64)
    ensures
        u64_value(decimal(n as nat)) == Some(n),
{
    lemma_decimal_digits(n as nat);
    let d = decimal(n as nat);
    assert(is_digit(d[0]));
    assert(unsigned_digits(d) == d);
}

/// The model of a schedule: its kind (0 one-shot, 1 interval, 2 cron), its
/// text and its interval.
pub open spec fn schedule_view(s: Schedule) -> (int, Seq<char>, u64) {
    match s {
        Schedule::OneShot { at } => (0, at@, 0),
        Schedule::Interval { every_ms } => (1, seq![], every_ms),
        Schedule::Cron { expr } => (2, expr@, 0),
    }
}

/// Storing a schedule and reading the row back gives the same schedule.
pub proof fn lemma_schedule_row_round_trip(s: Schedule, back: Schedule)
    requires
        schedule_of_row(schedule_row(s).0, schedule_row(s).1, back),
    ensures
        schedule_view(back) == schedule_view(s),
{
    reveal_strlit("one_shot");
    reveal_strlit("interval");
    reveal_strlit("cron");
    assert("one_shot"@[0] != "interval"@[0]);
    assert("one_shot"@ != "cron"@);
    assert("interval"@ != "cron"@);
    if let Schedule::Interval { every_ms } = s {
        lemma_u64_value_decimal(every_ms);
    }
}

/// A point in time: seconds since the Unix epoch and nanoseconds.
#[derive(Debug, Clone, Copy, PartialEq, Eq, Structural)]
pub struct Timestamp {
    pub secs: i64,
    pub nanos: u32,
}

/// Whether `a` is later than `b`.
pub open spec fn later(a: Timestamp, b: Timestamp) -> bool {
    a.secs > b.secs || (a.secs == b.secs && a.nanos > b.nanos)
}

/// The instant an RFC 3339 text denotes, or the text of the parse error.
pub uninterp spec fn rfc3339_parse(text: Seq<char>) -> Result<Timestamp, Seq<char>>;

/// The instant an RFC 3339 text denotes.
pub open spec fn rfc3339_instant(text: Seq<char>) -> Option<Timestamp> {
    match rfc3339_parse(text) {
        Ok(t) => Some(t),
        Err(_) => None,
    }
}

/// Read an RFC 3339 time (`chrono::DateTime::parse_from_rfc3339`, taken
/// as seconds and nanoseconds since the epoch); the error's text when it
/// does not parse.
#[verifier::external_body]
fn parse_rfc3339(text: &str) -> (r: Result<Timestamp, String>)
    ensures
        match r {
            Ok(t) => rfc3339_parse(text@) == Ok::<Timestamp, Seq<char>>(t),
            Err(e) => rfc3339_parse(text@) == Err::<Timestamp, Seq<char>>(e@),
        },
{
    match chrono::DateTime::parse_from_rfc3339(text) {
        Ok(d) => Ok(Timestamp { secs: d.timestamp(), nanos: d.timestamp_subsec_nanos() }),
        Err(e) => Err(e.to_string()),
    }
}

/// The next time a cron expression fires after `now`, in RFC 3339, or the
/// parse error of the expression.
pub uninterp spec fn cron_next_text(expr: Seq<char>, now: Timestamp) -> Result<Option<Seq<char>>, Seq<char>>;

/// The last second from which chrono can still step one second ahead:
/// its latest instant is the end of 262142-12-31, second 8210266876799
/// since the epoch.
pub const CRON_LATEST_SECS: i64 = 8_210_266_876_798;

/// The next firing of a cron expression after `now` (`cron::Schedule`'s
/// `from_str`, then `after(now).next()`, written with `to_rfc3339`); the
/// error text of an expression that does not parse; `None` when `now` is
/// out of chrono's range or the schedule never fires again. `after` starts
/// one second past `now` with `DateTime + Duration`, which panics past
/// chrono's latest instant; hence the bound on `now`.
#[verifier::external_body]
fn cron_next(expr: &str, now: Timestamp) -> (r: Result<Option<String>, String>)
    requires
        now.secs <= CRON_LATEST_SECS,
    ensures
        match r {
            Ok(Some(s)) => cron_next_text(expr@, now) == Ok::<Option<Seq<char>>, Seq<char>>(Some(s@)),
            Ok(None) => cron_next_text(expr@, now) == Ok::<Option<Seq<char>>, Seq<char>>(None),
            Err(e) => cron_next_text(expr@, now) == Err::<Option<Seq<char>>, Seq<char>>(e@),
        },
{
    match <cron::Schedule as std::str::FromStr>::from_str(expr) {
        Err(e) => Err(e.to_string()),
        Ok(s) => match chrono::DateTime::<chrono::Utc>::from_timestamp(now.secs, now.nanos) {
            Some(d) => match s.after(&d).next() {
                Some(next) => Ok(Some(next.to_rfc3339())),
                None => Ok(None),
            },
            None => Ok(None),
        },
    }
}

/// The RFC 3339 text of the instant `ms` milliseconds after `base`, if
/// chrono can represent the step and the result.
pub uninterp spec fn rfc3339_after_millis(base: Timestamp, ms: i64) -> Option<Seq<char>>;

/// The instant `ms` milliseconds after `base`, in RFC 3339
/// (`chrono::DateTime::<Utc>::from_timestamp`, `TimeDelta::try_milliseconds`,
/// `checked_add_signed`, `to_rfc3339`); `None` where chrono has no such
/// instant or step.
#[verifier::external_body]
fn add_millis(base: Timestamp, ms: i64) -> (r: Option<String>)
    ensures
        match r {
            Some(s) => rfc3339_after_millis(base, ms) == Some(s@),
            None => rfc3339_after_millis(base, ms) is None,
        },
{
    let start = chrono::DateTime::<chrono::Utc>::from_timestamp(base.secs, base.nanos)?;
    let step = chrono::TimeDelta::try_milliseconds(ms)?;
    match start.checked_add_signed(step) {
        Some(next) => Some(next.to_rfc3339()),
        None => None,
    }
}

/// The base of an interval: the last run, else now.
pub open spec fn interval_base(last_run: Option<Timestamp>, now: Timestamp) -> Timestamp {
    match last_run {
        Some(l) => l,
        None => now,
    }
}

/// The next run of a schedule, given the last run (if any) and the time
/// now: a one-shot time still ahead (and not yet run) is kept, otherwise
/// there is none; an interval counts from the last run (or now); a cron
/// expression gives its next firing after now.
pub open spec fn next_run(schedule: Schedule, last_run: Option<Timestamp>, now: Timestamp, r: Result<Option<String>, OrionError>) -> bool {
    match schedule {
        Schedule::OneShot { at } => match rfc3339_instant(at@) {
            None => r matches Err(OrionError::Cron(m)) && m@ == "Invalid timestamp: "@ + at@,
            Some(t) => if later(t, now) && last_run is None {
                r matches Ok(Some(s)) && s@ == at@
            } else {
                r matches Ok(None)
            },
        },
        Schedule::Interval { every_ms } => r matches Ok(Some(s)) && Some(s@) == rfc3339_after_millis(
            interval_base(last_run, now),
            every_ms as i64,
        ),
        Schedule::Cron { expr } => match cron_next_text(expr@, now) {
            Err(e) => r matches Err(OrionError::Cron(m)) && m@ == "Invalid cron expression '"@ + expr@
                + "': "@ + e,
            Ok(None) => r matches Ok(None),
            Ok(Some(t)) => r matches Ok(Some(s)) && s@ == t,
        },
    }
}

/// Whether the next run can be computed: for an interval, the step (cast
/// to `i64`) and the resulting time are within chrono's range; for a cron
/// expression, `now` leaves room for the one-second step the search starts
/// with.
pub open spec fn next_run_in_range(schedule: Schedule, last_run: Option<Timestamp>, now: Timestamp) -> bool {
    match schedule {
        Schedule::Interval { every_ms } => rfc3339_after_millis(interval_base(last_run, now), every_ms as i64) is Some,
        Schedule::Cron { .. } => now.secs <= CRON_LATEST_SECS,
        _ => true,
    }
}

/// Compute the next run of a schedule. An interval step, and a cron
/// search's first step, must be within chrono's range (see
/// `try_compute_next_run`).
pub fn compute_next_run(schedule: &Schedule, last_run: Option<Timestamp>, now: Timestamp) -> (r: Result<Option<String>, OrionError>)
    requires
        next_run_in_range(*schedule, last_run, now),
    ensures
        next_run(*schedule, last_run, now, r),
{
    match try_compute_next_run(schedule, last_run, now) {
        Some(r) => r,
        None => {
            proof {
                assert(false);
            }
            Ok(None)
        },
    }
}

/// Compute the next run of a schedule; `None` when an interval step leaves
/// chrono's range (where no next run can be written), or a cron search
/// would start past it.
pub fn try_compute_next_run(schedule: &Schedule, last_run: Option<Timestamp>, now: Timestamp) -> (r: Option<Result<Option<String>, OrionError>>)
    ensures
        r is Some <==> next_run_in_range(*schedule, last_run, now),
        r matches Some(res) ==> next_run(*schedule, last_run, now, res),
{
    match schedule {
        Schedule::OneShot { at } => match parse_rfc3339(at.as_str()) {
            Err(_) => {
                let mut m = "Invalid timestamp: ".to_owned();
                push_str(&mut m, at.as_str());
                Some(Err(OrionError::Cron(m)))
            },
            Ok(t) => {
                let ahead = t.secs > now.secs || (t.secs == now.secs && t.nanos > now.nanos);
                if ahead && last_run.is_none() {
                    Some(Ok(Some(at.clone())))
                } else {
                    Some(Ok(None))
                }
            },
        },
        Schedule::Interval { every_ms } => {
            let base = match last_run {
                Some(l) => l,
                None => now,
            };
            match add_millis(base, *every_ms as i64) {
                Some(s) => Some(Ok(Some(s))),
                None => None,
            }
        },
        Schedule::Cron { expr } => if now.secs > CRON_LATEST_SECS {
            None
        } else {
            match cron_next(expr.as_str(), now) {
            Err(e) => {
                let mut m = "Invalid cron expression '".to_owned();
                push_str(&mut m, expr.as_str());
                push_str(&mut m, "': ");
                push_str(&mut m, e.as_str());
                Some(Err(OrionError::Cron(m)))
            },
                Ok(None) => Some(Ok(None)),
                Ok(Some(t)) => Some(Ok(Some(t))),
            }
        },
    }
}

/// What the scheduler does with a job after running it.
#[derive(Debug)]
pub enum AfterRun {
    /// A job to run once: remove it.
    Remove,
    /// Set its next run to this time.
    Reschedule { next: String },
    /// No next run (or none could be computed): disable it.
    Disable,
}

/// The status and summary recorded for a run's outcome: the summary on
/// success, the error text on failure.
pub fn run_record(outcome: Result<String, String>) -> (r: (RunStatus, String))
    ensures
        match outcome {
            Ok(s) => r.0 == RunStatus::Success && r.1 == s,
            Err(e) => r.0 == RunStatus::Failed && r.1 == e,
        },
{
    match outcome {
        Ok(s) => (RunStatus::Success, s),
        Err(e) => (RunStatus::Failed, e),
    }
}

/// Decide what happens to a job after a run, given its next run.
pub fn after_run(delete_after_run: bool, next: Result<Option<String>, OrionError>) -> (a: AfterRun)
    ensures
        delete_after_run ==> a is Remove,
        !delete_after_run ==> match next {
            Ok(Some(n)) => a matches AfterRun::Reschedule { next: m } && m == n,
            _ => a is Disable,
        },
{
    if delete_after_run {
        return AfterRun::Remove;
    }
    match next {
        Ok(Some(n)) => AfterRun::Reschedule { next: n },
        _ => AfterRun::Disable,
    }
}

/// Gaps shorter than this many minutes since the last message continue a
/// session.
pub const SHORT_GAP_MINUTES: i64 = 30;

/// Whether to continue a session or start a new one.
#[derive(Debug, Clone)]
pub enum SessionDecision {
    /// Continue the session with this id.
    Continue(String),
    /// Start a new session.
    New,
}

/// What is kept of a session.
#[derive(Debug, Clone)]
pub struct SessionMeta {
    pub id: String,
    pub created_at: String,
    pub last_message_at: String,
    pub is_closed: bool,
    pub summary: Option<String>,
    pub message_count: i64,
}

/// The gap from `a` to `b`, in nanoseconds.
pub open spec fn gap_nanos(a: Timestamp, b: Timestamp) -> int {
    (b.secs - a.secs) * 1_000_000_000 + (b.nanos - a.nanos)
}

/// The decision for the latest open session (id and last-message time),
/// if any: continue it when its last message is less than 30 minutes
/// before `now`; a time that does not parse is an error.
pub open spec fn session_decision(latest: Option<(Seq<char>, Seq<char>)>, now: Timestamp, r: Result<SessionDecision, OrionError>) -> bool {
    match latest {
        None => r matches Ok(SessionDecision::New),
        Some((id, last)) => match rfc3339_parse(last) {
            Err(e) => r matches Err(OrionError::Session(m)) && m@ == "Bad timestamp: "@ + e,
            Ok(t) => if gap_nanos(t, now) < SHORT_GAP_MINUTES * 60 * 1_000_000_000 {
                r matches Ok(SessionDecision::Continue(c)) && c@ == id
            } else {
                r matches Ok(SessionDecision::New)
            },
        },
    }
}

/// Decide whether to continue the latest open session (its id and the
/// RFC 3339 time of its last message) or start a new one, at time `now`.
pub fn resolve_session(latest: Option<(String, String)>, now: Timestamp) -> (r: Result<SessionDecision, OrionError>)
    ensures
        session_decision(
            match latest {
                Some((id, last)) => Some((id@, last@)),
                None => None,
            },
            now,
            r,
        ),
{
    match latest {
        None => Ok(SessionDecision::New),
        Some((id, last)) => match parse_rfc3339(last.as_str()) {
            Err(e) => {
                let mut m = "Bad timestamp: ".to_owned();
                push_str(&mut m, e.as_str());
                Err(OrionError::Session(m))
            },
            Ok(t) => {
                let gap: i128 = ((now.secs as i128) - (t.secs as i128)) * 1_000_000_000 + ((now.nanos as i128)
                    - (t.nanos as i128));
                if gap < (SHORT_GAP_MINUTES as i128) * 60 * 1_000_000_000 {
                    Ok(SessionDecision::Continue(id))
                } else {
                    Ok(SessionDecision::New)
                }
            },
        },
    }
}

} // verus!
