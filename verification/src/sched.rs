//! The scheduler: persisted jobs fired by a periodic tick, with exponential
//! backoff on failure. The tick window logic, the firing decision and the
//! retry bookkeeping are verified; the cron grammar itself is evaluated by
//! an outside crate behind trusted wrappers.

use vstd::prelude::*;

use chrono::TimeZone;
use core::str::FromStr;

use crate::clock::TS_BOUND;
use crate::error::NekoError;
use crate::text::{
    chars_to_string, push_str, spec_truncate, str_chars, truncate_chars,
};

verus! {

/// The tick interval, in seconds.
pub const TICK_SECS: i64 = 15;

/// The look-back window for cron occurrences: one second more than a tick,
/// so a tick boundary cannot be missed.
pub const WINDOW_SECS: i64 = 16;

/// When a job runs.
pub enum JobSchedule {
    /// A six-field cron expression, seconds included.
    Cron { expr: String },
    /// A one-shot instant.
    At { datetime: i64 },
}

/// Where a job's output is announced.
#[derive(Debug, Clone)]
pub struct AnnounceTarget {
    pub channel: String,
    pub recipient_id: String,
}

/// Consecutive-failure count and the earliest next attempt.
#[derive(Debug, Clone, Copy, PartialEq, Eq, Structural)]
pub struct RetryState {
    pub consecutive_failures: u32,
    pub retry_after: Option<i64>,
}

impl Default for RetryState {
    fn default() -> (r: Self)
        ensures
            r.consecutive_failures == 0,
            r.retry_after is None,
    {
        RetryState { consecutive_failures: 0, retry_after: None }
    }
}

/// A persisted job.
pub struct CronJob {
    pub id: String,
    pub name: Option<String>,
    pub prompt: String,
    pub schedule: JobSchedule,
    pub announce: Option<AnnounceTarget>,
    pub enabled: bool,
    pub keep_after_run: bool,
    pub created_at: i64,
    pub last_run_at: Option<i64>,
    pub retry: RetryState,
}

/// One line of the audit log.
pub struct HistoryEntry {
    pub job_id: String,
    pub job_name: Option<String>,
    pub prompt: String,
    pub started_at: i64,
    pub finished_at: i64,
    pub success: bool,
    pub response: Option<String>,
    pub error: Option<String>,
}

/// The model of one audit entry.
#[verifier::ext_equal]
pub struct HistoryV {
    pub job_id: Seq<char>,
    pub job_name: Option<Seq<char>>,
    pub prompt: Seq<char>,
    pub started_at: i64,
    pub finished_at: i64,
    pub success: bool,
    pub response: Option<Seq<char>>,
    pub error: Option<Seq<char>>,
}

impl View for HistoryEntry {
    type V = HistoryV;

    open spec fn view(&self) -> HistoryV {
        HistoryV {
            job_id: self.job_id@,
            job_name: match self.job_name {
                Some(ref s) => Some(s@),
                None => None,
            },
            prompt: self.prompt@,
            started_at: self.started_at,
            finished_at: self.finished_at,
            success: self.success,
            response: match self.response {
                Some(ref s) => Some(s@),
                None => None,
            },
            error: match self.error {
                Some(ref s) => Some(s@),
                None => None,
            },
        }
    }
}

/// The JSON shape of one audit entry: the object written as one line of
/// the log, optional fields as null.
pub open spec fn history_json(e: HistoryV) -> crate::json::JsonV {
    crate::json::JsonV::Obj(
        seq![
            ("job_id"@, crate::json::JsonV::Str(e.job_id)),
            ("job_name"@, crate::store::opt_str_json(e.job_name)),
            ("prompt"@, crate::json::JsonV::Str(e.prompt)),
            ("started_at"@, crate::json::JsonV::Num(crate::text::spec_i64_dec(e.started_at as int))),
            ("finished_at"@, crate::json::JsonV::Num(
                crate::text::spec_i64_dec(e.finished_at as int),
            )),
            ("success"@, crate::json::JsonV::Bool(e.success)),
            ("response"@, crate::store::opt_str_json(e.response)),
            ("error"@, crate::store::opt_str_json(e.error)),
        ],
    )
}

/// Encode one audit entry as a JSON value.
pub fn history_entry_to_json(e: &HistoryEntry) -> (r: crate::json::Json)
    ensures
        r@ == history_json(e@),
{
    let mut fields: Vec<(Vec<char>, crate::json::Json)> = Vec::new();
    fields.push((str_chars("job_id"), crate::json::Json::Str(str_chars(e.job_id.as_str()))));
    fields.push((str_chars("job_name"), crate::store::opt_str_to_json(&e.job_name)));
    fields.push((str_chars("prompt"), crate::json::Json::Str(str_chars(e.prompt.as_str()))));
    fields.push((str_chars("started_at"), crate::json::Json::Num(
        crate::text::i64_chars(e.started_at),
    )));
    fields.push((str_chars("finished_at"), crate::json::Json::Num(
        crate::text::i64_chars(e.finished_at),
    )));
    fields.push((str_chars("success"), crate::json::Json::Bool(e.success)));
    fields.push((str_chars("response"), crate::store::opt_str_to_json(&e.response)));
    fields.push((str_chars("error"), crate::store::opt_str_to_json(&e.error)));
    let r = crate::json::Json::Obj(fields);
    proof {
        let fs = r->Obj_0;
        crate::json::lemma_obj_view(fs@);
        assert(crate::json::obj_view(fs@) =~~= history_json(e@)->Obj_0);
    }
    r
}

// ---------------------------------------------------------------------------
// The cron crate, behind trusted items
// ---------------------------------------------------------------------------
/// Whether the cron crate's six-field grammar accepts this expression.
pub uninterp spec fn cron_parses(expr: Seq<char>) -> bool;

/// The first scheduled instant of the expression strictly after `after`,
/// evaluated in UTC: a function of the expression and the instant alone.
pub uninterp spec fn cron_next_of(expr: Seq<char>, after: i64) -> Option<i64>;

/// Relies on `<cron::Schedule as FromStr>::from_str`: parsing succeeds for
/// exactly the expressions the crate's grammar accepts, a function of the
/// expression alone.
#[verifier::external_body]
pub fn cron_parse_ok(expr: &str) -> (r: bool)
    ensures
        r <==> cron_parses(expr@),
{
    cron::Schedule::from_str(expr).is_ok()
}

/// Relies on `<cron::Schedule as FromStr>::from_str`, `cron::Schedule::after`
/// and `Iterator::next` on its iterator: the first scheduled instant strictly
/// after `after`, if any, evaluated in UTC. The grammar and the query are
/// functions of the expression and the instant alone, and the iterator
/// yields instants strictly after the starting point, in ascending order.
#[verifier::external_body]
pub fn cron_next_after(expr: &str, after: i64) -> (r: Option<i64>)
    requires
        0 <= after < TS_BOUND,
    ensures
        r == cron_next_of(expr@, after),
        r matches Some(inst) ==> inst > after,
{
    let s = match cron::Schedule::from_str(expr) {
        Ok(s) => s,
        Err(_) => return None,
    };
    let dt = match chrono::Utc.timestamp_opt(after, 0).earliest() {
        Some(d) => d,
        None => return None,
    };
    s.after(&dt).next().map(|d| d.timestamp())
}

// ---------------------------------------------------------------------------
// The firing decision
// ---------------------------------------------------------------------------
/// The scheduler's directory under the workspace.
pub fn cron_dir(workspace: &str) -> (r: String)
    ensures
        r@ == workspace@ + "/cron"@,
{
    let mut v = str_chars(workspace);
    push_str(&mut v, "/cron");
    chars_to_string(&v)
}

/// The persisted job array's path under the workspace.
pub fn jobs_path(workspace: &str) -> (r: String)
    ensures
        r@ == workspace@ + "/cron"@ + "/jobs.json"@,
{
    let mut v = str_chars(cron_dir(workspace).as_str());
    push_str(&mut v, "/jobs.json");
    chars_to_string(&v)
}

/// The audit log's path under the workspace.
pub fn history_path(workspace: &str) -> (r: String)
    ensures
        r@ == workspace@ + "/cron"@ + "/history.jsonl"@,
{
    let mut v = str_chars(cron_dir(workspace).as_str());
    push_str(&mut v, "/history.jsonl");
    chars_to_string(&v)
}

/// The instant of a one-shot schedule, if it is one.
pub open spec fn at_of(s: JobSchedule) -> Option<i64> {
    match s {
        JobSchedule::At { datetime } => Some(datetime),
        JobSchedule::Cron { .. } => None,
    }
}

/// A job is eligible when it is enabled and not backing off.
pub open spec fn spec_gate(enabled: bool, retry_after: Option<i64>, now: i64) -> bool {
    enabled && (match retry_after {
        Some(t) => now >= t,
        None => true,
    })
}

/// A cron occurrence fires when the latest look-back instant exists, has
/// arrived, and is strictly after the last run.
pub open spec fn spec_cron_due(next_inst: Option<i64>, now: i64, last_run: Option<i64>) -> bool {
    match next_inst {
        Some(inst) => inst <= now && (match last_run {
            Some(l) => inst > l,
            None => true,
        }),
        None => false,
    }
}

/// Decide a cron firing from the instant the grammar yields.
pub fn cron_due(next_inst: Option<i64>, now: i64, last_run: Option<i64>) -> (r: bool)
    ensures
        r == spec_cron_due(next_inst, now, last_run),
{
    match next_inst {
        Some(inst) => inst <= now && (match last_run {
            Some(l) => inst > l,
            None => true,
        }),
        None => false,
    }
}

/// The last element of the chain of scheduled instants inside `(t, now]`:
/// from `t`, follow the next scheduled instant while it stays in the
/// window. The fuel bounds the walk; instants are whole seconds, so
/// `now - t` steps cover the window.
pub open spec fn latest_occurrence(expr: Seq<char>, t: i64, now: i64, fuel: nat) -> Option<i64>
    decreases fuel,
{
    if fuel == 0 {
        None
    } else {
        match cron_next_of(expr, t) {
            None => None,
            Some(s) => if !(t < s <= now) {
                None
            } else {
                match latest_occurrence(expr, s, now, (fuel - 1) as nat) {
                    Some(s2) => Some(s2),
                    None => Some(s),
                }
            },
        }
    }
}

/// The latest scheduled instant in the look-back window `(now - 16, now]`.
pub open spec fn spec_window_instant(expr: Seq<char>, now: i64) -> Option<i64> {
    latest_occurrence(expr, (now - WINDOW_SECS) as i64, now, WINDOW_SECS as nat)
}

/// Any fuel covering the window gives the same chain end.
proof fn lemma_latest_fuel(expr: Seq<char>, t: i64, now: i64, f1: nat, f2: nat)
    requires
        f1 >= now - t,
        f2 >= now - t,
    ensures
        latest_occurrence(expr, t, now, f1) == latest_occurrence(expr, t, now, f2),
    decreases f1 + f2,
{
    if t >= now {
        assert(latest_occurrence(expr, t, now, f1) is None);
        assert(latest_occurrence(expr, t, now, f2) is None);
    } else {
        match cron_next_of(expr, t) {
            None => {},
            Some(s) => {
                if t < s <= now {
                    lemma_latest_fuel(expr, s, now, (f1 - 1) as nat, (f2 - 1) as nat);
                }
            },
        }
    }
}

/// The latest scheduled instant of `expr` in the window `(now - 16, now]`,
/// found by walking the chain of next instants.
pub fn cron_window_instant(expr: &str, now: i64) -> (r: Option<i64>)
    requires
        WINDOW_SECS <= now < TS_BOUND,
    ensures
        r == spec_window_instant(expr@, now),
{
    let t0: i64 = now - WINDOW_SECS;
    let mut t: i64 = t0;
    let mut best: Option<i64> = None;
    proof {
        assert((now - t) as nat == WINDOW_SECS as nat);
    }
    loop
        invariant
            t0 <= t <= now,
            t0 == now - WINDOW_SECS,
            WINDOW_SECS <= now < TS_BOUND,
            spec_window_instant(expr@, now) == (match latest_occurrence(
                expr@,
                t,
                now,
                (now - t) as nat,
            ) {
                Some(x) => Some(x),
                None => best,
            }),
        decreases now - t,
    {
        let next = cron_next_after(expr, t);
        match next {
            None => {
                return best;
            },
            Some(s) => {
                if s > now {
                    return best;
                }
                proof {
                    lemma_latest_fuel(expr@, s, now, ((now - t) as nat - 1) as nat, (now - s) as nat);
                }
                best = Some(s);
                t = s;
            },
        }
    }
}

/// A scheduled instant fires at most once: once a run at or after it is
/// recorded, the same instant never fires again.
pub proof fn lemma_fires_once(inst: i64, now: i64, last_run: Option<i64>, finished: i64, now2: i64)
    requires
        spec_cron_due(Some(inst), now, last_run),
        finished >= now,
    ensures
        !spec_cron_due(Some(inst), now2, Some(finished)),
{
}

/// Decide whether a job fires at a tick: never while disabled or backing
/// off; a one-shot job fires once its instant arrives; a cron job fires per
/// `spec_cron_due` on the latest scheduled instant of the look-back window,
/// and an expression the grammar rejects never fires.
pub fn should_fire(job: &CronJob, now: i64) -> (r: bool)
    requires
        WINDOW_SECS <= now < TS_BOUND,
    ensures
        !spec_gate(job.enabled, job.retry.retry_after, now) ==> !r,
        (at_of(job.schedule) is Some && spec_gate(job.enabled, job.retry.retry_after, now)) ==> r
            == (now >= at_of(job.schedule).unwrap() && job.last_run_at is None),
        job.schedule matches JobSchedule::Cron { expr } ==> (spec_gate(
            job.enabled,
            job.retry.retry_after,
            now,
        ) ==> r == (cron_parses(expr@) && spec_cron_due(
            spec_window_instant(expr@, now),
            now,
            job.last_run_at,
        ))),
{
    if !job.enabled {
        return false;
    }
    match job.retry.retry_after {
        Some(t) => {
            if now < t {
                return false;
            }
        },
        None => {},
    }
    match &job.schedule {
        JobSchedule::At { datetime } => now >= *datetime && job.last_run_at.is_none(),
        JobSchedule::Cron { expr } => {
            if !cron_parse_ok(expr.as_str()) {
                false
            } else {
                let inst = cron_window_instant(expr.as_str(), now);
                cron_due(inst, now, job.last_run_at)
            }
        },
    }
}

/// The backoff before the next attempt after `n` consecutive failures, in
/// seconds.
pub open spec fn spec_backoff(n: u32) -> i64 {
    if n == 0 {
        0
    } else if n == 1 {
        30
    } else if n == 2 {
        60
    } else if n == 3 {
        300
    } else if n == 4 {
        900
    } else {
        3600
    }
}

/// The backoff for a failure count.
pub fn backoff_duration(n: u32) -> (r: i64)
    ensures
        r == spec_backoff(n),
{
    if n == 0 {
        0
    } else if n == 1 {
        30
    } else if n == 2 {
        60
    } else if n == 3 {
        300
    } else if n == 4 {
        900
    } else {
        3600
    }
}

impl CronJob {
    /// Record a successful run: the retry state clears, the run is stamped,
    /// and a one-shot job that is not kept is disabled so the persisted
    /// array drops it.
    pub fn apply_success(&mut self, finished_at: i64)
        ensures
            final(self).last_run_at == Some(finished_at),
            final(self).retry.consecutive_failures == 0,
            final(self).retry.retry_after is None,
            final(self).enabled == (old(self).enabled && !(old(self).schedule
                matches JobSchedule::At { .. } && !old(self).keep_after_run)),
            final(self).id == old(self).id,
            final(self).schedule == old(self).schedule,
            final(self).keep_after_run == old(self).keep_after_run,
            final(self).created_at == old(self).created_at,
    {
        self.last_run_at = Some(finished_at);
        self.retry = RetryState { consecutive_failures: 0, retry_after: None };
        let one_shot = match self.schedule {
            JobSchedule::At { .. } => true,
            JobSchedule::Cron { .. } => false,
        };
        if one_shot && !self.keep_after_run {
            self.enabled = false;
        }
    }

    /// Record a failed run: the failure count grows, the next attempt waits
    /// out the backoff, and the run is stamped.
    pub fn apply_failure(&mut self, now: i64, finished_at: i64)
        requires
            0 <= now < TS_BOUND,
        ensures
            final(self).retry.consecutive_failures == (if old(self).retry.consecutive_failures
                < u32::MAX {
                old(self).retry.consecutive_failures + 1
            } else {
                u32::MAX as int
            }),
            ({
                let f = final(self).retry.consecutive_failures;
                final(self).retry.retry_after matches Some(t) && t == now + spec_backoff(f)
            }),
            final(self).last_run_at == Some(finished_at),
            final(self).enabled == old(self).enabled,
            final(self).id == old(self).id,
            final(self).schedule == old(self).schedule,
            final(self).keep_after_run == old(self).keep_after_run,
    {
        let failures: u32 = if self.retry.consecutive_failures < u32::MAX {
            self.retry.consecutive_failures + 1
        } else {
            u32::MAX
        };
        let wait = backoff_duration(failures);
        self.retry = RetryState { consecutive_failures: failures, retry_after: Some(now + wait) };
        self.last_run_at = Some(finished_at);
    }
}

/// True when the persisted array keeps a job: everything but a completed
/// one-shot job that was not asked to be kept.
pub open spec fn keep_job(j: &CronJob) -> bool {
    !(j.schedule matches JobSchedule::At { .. } && !j.keep_after_run && !j.enabled)
}

/// Whether the persisted array keeps this job after a tick.
pub fn job_kept(j: &CronJob) -> (r: bool)
    ensures
        r == keep_job(j),
{
    let one_shot = match j.schedule {
        JobSchedule::At { .. } => true,
        JobSchedule::Cron { .. } => false,
    };
    !(one_shot && !j.keep_after_run && !j.enabled)
}

/// Truncate a response for the audit log, marking the cut with an ellipsis.
pub fn truncate(s: &str, max: usize) -> (r: String)
    ensures
        r@ == spec_truncate(s@, max as nat),
{
    let cs = str_chars(s);
    let t = truncate_chars(&cs, max);
    chars_to_string(&t)
}

/// Find a job by id or by name.
pub fn find_job(jobs: &Vec<CronJob>, id_or_name: &str) -> (r: Option<usize>)
    ensures
        match r {
            Some(i) => 0 <= i < jobs@.len() && (jobs@[i as int].id@ == id_or_name@ || (
            jobs@[i as int].name matches Some(n) && n@ == id_or_name@)),
            None => forall|i: int|
                0 <= i < jobs@.len() ==> (#[trigger] jobs@[i]).id@ != id_or_name@ && !(
                jobs@[i].name matches Some(n) && n@ == id_or_name@),
        },
{
    let target = str_chars(id_or_name);
    let mut k: usize = 0;
    while k < jobs.len()
        invariant
            0 <= k <= jobs@.len(),
            target@ == id_or_name@,
            forall|i: int|
                0 <= i < k ==> (#[trigger] jobs@[i]).id@ != id_or_name@ && !(
                jobs@[i].name matches Some(n) && n@ == id_or_name@),
        decreases jobs@.len() - k,
    {
        let idc = str_chars(jobs[k].id.as_str());
        if crate::text::chars_eq(&idc, &target) {
            return Some(k);
        }
        match &jobs[k].name {
            Some(n) => {
                let nc = str_chars(n.as_str());
                if crate::text::chars_eq(&nc, &target) {
                    return Some(k);
                }
            },
            None => {},
        }
        k += 1;
    }
    None
}

/// Parse an announce target of the form `channel:recipient_id`.
pub fn parse_announce(s: &str) -> (r: Result<AnnounceTarget, NekoError>)
    ensures
        match r {
            Ok(t) => exists|i: int|
                {
                    &&& 0 <= i < s@.len()
                    &&& s@[i] == ':'
                    &&& (forall|j: int| 0 <= j < i ==> s@[j] != ':')
                    &&& t.channel@ == s@.take(i)
                    &&& t.recipient_id@ == s@.skip(i + 1)
                },
            Err(_) => forall|i: int| 0 <= i < s@.len() ==> s@[i] != ':',
        },
{
    let cs = str_chars(s);
    let mut k: usize = 0;
    while k < cs.len()
        invariant
            0 <= k <= cs@.len(),
            cs@ == s@,
            forall|j: int| 0 <= j < k ==> cs@[j] != ':',
        decreases cs@.len() - k,
    {
        if cs[k] == ':' {
            let mut channel: Vec<char> = Vec::new();
            let mut a: usize = 0;
            while a < k
                invariant
                    0 <= a <= k < cs@.len(),
                    channel@ == cs@.take(a as int),
                decreases k - a,
            {
                channel.push(cs[a]);
                assert(channel@ =~= cs@.take(a + 1));
                a += 1;
            }
            let mut recipient: Vec<char> = Vec::new();
            let mut b: usize = k + 1;
            while b < cs.len()
                invariant
                    k + 1 <= b <= cs@.len(),
                    recipient@ == cs@.subrange(k + 1, b as int),
                decreases cs@.len() - b,
            {
                recipient.push(cs[b]);
                assert(recipient@ =~= cs@.subrange(k + 1, b + 1));
                b += 1;
            }
            proof {
                assert(recipient@ =~= cs@.skip(k + 1));
            }
            return Ok(
                AnnounceTarget {
                    channel: chars_to_string(&channel),
                    recipient_id: chars_to_string(&recipient),
                },
            );
        }
        k += 1;
    }
    Err(
        NekoError::Cron(
            "announce format: channel:recipient_id (e.g. telegram:123456)".to_owned(),
        ),
    )
}

/// A fresh eight-character job id, drawn from a random identifier.
pub fn new_job_id() -> (r: String)
    ensures
        r@.len() == 8,
{
    let u = crate::clock::new_uuid();
    let cs = str_chars(u.as_str());
    let mut v: Vec<char> = Vec::new();
    let mut k: usize = 0;
    while k < 8
        invariant
            cs@.len() == 36,
            0 <= k <= 8,
            v@.len() == k,
        decreases 8 - k,
    {
        v.push(cs[k]);
        k += 1;
    }
    chars_to_string(&v)
}

/// Check a cron expression against the grammar.
pub fn validate_cron_expr(expr: &str) -> (r: Result<(), NekoError>)
    ensures
        r is Ok <==> cron_parses(expr@),
{
    if cron_parse_ok(expr) {
        Ok(())
    } else {
        let mut v = str_chars("invalid cron expression '");
        push_str(&mut v, expr);
        push_str(&mut v, "'");
        Err(NekoError::Cron(chars_to_string(&v)))
    }
}

/// Build the audit entry for one run; a response is cut at one thousand
/// characters.
pub fn make_history_entry(
    job_id: String,
    job_name: Option<String>,
    prompt: String,
    started_at: i64,
    finished_at: i64,
    outcome: Result<&str, &str>,
) -> (r: HistoryEntry)
    ensures
        r.job_id == job_id,
        r.job_name == job_name,
        r.prompt == prompt,
        r.started_at == started_at,
        r.finished_at == finished_at,
        r.success == (outcome is Ok),
        outcome matches Ok(text) ==> (r.response matches Some(t) && t@ == spec_truncate(
            text@,
            1000,
        )) && r.error is None,
        outcome matches Err(e) ==> (r.error matches Some(m) && m@ == e@) && r.response is None,
{
    match outcome {
        Ok(text) => HistoryEntry {
            job_id,
            job_name,
            prompt,
            started_at,
            finished_at,
            success: true,
            response: Some(truncate(text, 1000)),
            error: None,
        },
        Err(e) => HistoryEntry {
            job_id,
            job_name,
            prompt,
            started_at,
            finished_at,
            success: false,
            response: None,
            error: Some(e.to_owned()),
        },
    }
}

} // verus!
