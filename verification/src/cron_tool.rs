//! The job-management tool: add, list, edit and remove scheduled jobs. The
//! caller loads and saves the persisted array; every decision over the
//! arguments and the array is made here.

use vstd::prelude::*;

use chrono::TimeZone;

use crate::gateway::ChannelContext;
use crate::json::{v_obj_get, v_str_field, Json, JsonV};
use crate::sched::{
    cron_parse_ok, cron_parses, AnnounceTarget, CronJob, JobSchedule, RetryState,
};
use crate::text::{chars_to_string, push_chars, push_str, str_chars};
use crate::tools::{CronManageTool, ToolResult};

verus! {

/// A string argument that is present and nonempty, as the tool reads them.
pub open spec fn spec_arg(params: JsonV, key: Seq<char>) -> Option<Seq<char>> {
    match params {
        JsonV::Obj(fs) => {
            let v = v_str_field(fs, key);
            if v.len() > 0 {
                Some(v)
            } else {
                None
            }
        },
        _ => None,
    }
}

/// Read a nonempty string argument.
fn get_arg(params: &Json, key: &str) -> (r: Option<String>)
    ensures
        match r {
            Some(s) => spec_arg(params@, key@) == Some(s@) && s@.len() > 0,
            None => spec_arg(params@, key@) is None,
        },
{
    match params {
        Json::Obj(fields) => {
            proof {
                crate::json::lemma_str_field_view(fields@, key@);
            }
            let v = crate::json::str_field(fields, key);
            if v.len() > 0 {
                Some(chars_to_string(&v))
            } else {
                None
            }
        },
        _ => None,
    }
}

/// Relies on `chrono::NaiveDateTime::parse_from_str` (for the plain local
/// forms), `TimeZone::from_local_datetime` on `chrono::Local`, and
/// `chrono::DateTime::parse_from_rfc3339`: the instant a datetime string
/// denotes. Local forms depend on the machine's time zone, so nothing is
/// stated of the value.
#[verifier::external_body]
fn parse_datetime_raw(s: &str) -> Option<i64> {
    let naive = chrono::NaiveDateTime::parse_from_str(s, "%Y-%m-%d %H:%M")
        .or_else(|_| chrono::NaiveDateTime::parse_from_str(s, "%Y-%m-%d %H:%M:%S"))
        .or_else(|_| chrono::NaiveDateTime::parse_from_str(s, "%Y-%m-%dT%H:%M:%S"));
    match naive {
        Ok(n) => chrono::Local.from_local_datetime(&n).earliest().map(|d| d.timestamp()),
        Err(_) => chrono::DateTime::parse_from_rfc3339(s).ok().map(|d| d.timestamp()),
    }
}

/// Parse a one-shot datetime, keeping only instants in the calendar range.
fn parse_datetime(s: &str) -> (r: Option<i64>)
    ensures
        r matches Some(t) ==> 0 <= t < crate::clock::TS_BOUND,
{
    match parse_datetime_raw(s) {
        Some(t) => {
            if 0 <= t && t < crate::clock::TS_BOUND {
                Some(t)
            } else {
                None
            }
        },
        None => None,
    }
}

impl CronManageTool {
    /// Create a job from the tool arguments: a nonempty prompt, exactly one
    /// of a cron expression or a one-shot datetime, an optional name, and an
    /// announce target that defaults to the originating channel. On success
    /// the job is appended to the array with a fresh id.
    pub fn action_add(
        &self,
        params: &Json,
        channel: &Option<ChannelContext>,
        jobs: &mut Vec<CronJob>,
        now: i64,
    ) -> (r: ToolResult)
        ensures
            spec_arg(params@, "prompt"@) is None ==> (r.is_error && final(jobs)@ == old(jobs)@),
            (spec_arg(params@, "schedule"@) is None && spec_arg(params@, "at"@) is None) ==> (
            r.is_error && final(jobs)@ == old(jobs)@),
            (spec_arg(params@, "schedule"@) is Some && spec_arg(params@, "at"@) is Some) ==> (
            r.is_error && final(jobs)@ == old(jobs)@),
            (spec_arg(params@, "schedule"@) matches Some(e) && !cron_parses(e)) ==> (r.is_error
                && final(jobs)@ == old(jobs)@),
            !r.is_error ==> ({
                &&& final(jobs)@.len() == old(jobs)@.len() + 1
                &&& final(jobs)@.take(old(jobs)@.len() as int) == old(jobs)@
                &&& ({
                    let j = final(jobs)@[old(jobs)@.len() as int];
                    &&& Some(j.prompt@) == spec_arg(params@, "prompt"@)
                    &&& j.enabled
                    &&& !j.keep_after_run
                    &&& j.created_at == now
                    &&& j.last_run_at is None
                    &&& j.retry.consecutive_failures == 0
                    &&& j.retry.retry_after is None
                    &&& j.id@.len() == 8
                    &&& (spec_arg(params@, "schedule"@) matches Some(e) ==> j.schedule
                        matches JobSchedule::Cron { expr } && expr@ == e && cron_parses(e))
                    &&& (spec_arg(params@, "at"@) is Some && spec_arg(params@, "schedule"@) is None
                        ==> (j.schedule matches JobSchedule::At { datetime } && 0 <= datetime
                        < crate::clock::TS_BOUND))
                    &&& (match spec_arg(params@, "name"@) {
                        Some(n) => j.name matches Some(nn) && nn@ == n,
                        None => j.name is None,
                    })
                    &&& (spec_arg(params@, "announce"@) is None ==> (match *channel {
                        Some(ref ch) => j.announce matches Some(a) && a.channel@ == ch.channel@
                            && a.recipient_id@ == ch.recipient_id@,
                        None => j.announce is None,
                    }))
                    &&& (spec_arg(params@, "announce"@) matches Some(aw) && aw == "none"@
                        ==> j.announce is None)
                })
            }),
    {
        let prompt = match get_arg(params, "prompt") {
            Some(p) => p,
            None => {
                return ToolResult::error("'prompt' is required for add".to_owned());
            },
        };
        let schedule_str = get_arg(params, "schedule");
        let at_str = get_arg(params, "at");
        let schedule: JobSchedule = match (schedule_str, at_str) {
            (Some(expr), None) => {
                if cron_parse_ok(expr.as_str()) {
                    JobSchedule::Cron { expr }
                } else {
                    let mut v = str_chars("invalid cron expression '");
                    push_str(&mut v, expr.as_str());
                    push_str(&mut v, "'");
                    return ToolResult::error(chars_to_string(&v));
                }
            },
            (None, Some(dt)) => {
                match parse_datetime(dt.as_str()) {
                    Some(t) => JobSchedule::At { datetime: t },
                    None => {
                        let mut v = str_chars("Could not parse datetime: '");
                        push_str(&mut v, dt.as_str());
                        push_str(&mut v, "' (expected YYYY-MM-DD HH:MM)");
                        return ToolResult::error(chars_to_string(&v));
                    },
                }
            },
            (Some(_), Some(_)) => {
                return ToolResult::error("Specify either 'schedule' or 'at', not both".to_owned());
            },
            (None, None) => {
                return ToolResult::error(
                    "Must specify 'schedule' (cron expr) or 'at' (datetime)".to_owned(),
                );
            },
        };
        let name = get_arg(params, "name");
        let announce: Option<AnnounceTarget> = match get_arg(params, "announce") {
            Some(a) => {
                if is_none_word(a.as_str()) {
                    None
                } else {
                    match crate::sched::parse_announce(a.as_str()) {
                        Ok(t) => Some(t),
                        Err(e) => {
                            return ToolResult::error(e.message().clone());
                        },
                    }
                }
            },
            None => match channel {
                Some(ch) => Some(
                    AnnounceTarget {
                        channel: ch.channel.clone(),
                        recipient_id: ch.recipient_id.clone(),
                    },
                ),
                None => None,
            },
        };
        let id = crate::sched::new_job_id();
        let label = match &name {
            Some(n) => n.clone(),
            None => id.clone(),
        };
        let job = CronJob {
            id: id.clone(),
            name,
            prompt,
            schedule,
            announce,
            enabled: true,
            keep_after_run: false,
            created_at: now,
            last_run_at: None,
            retry: RetryState { consecutive_failures: 0, retry_after: None },
        };
        let ghost j0 = jobs@;
        jobs.push(job);
        proof {
            assert(jobs@.take(j0.len() as int) =~= j0);
        }
        let mut v = str_chars("Created cron job '");
        push_str(&mut v, label.as_str());
        push_str(&mut v, "' (id: ");
        push_str(&mut v, id.as_str());
        push_str(
            &mut v,
            "). It will be picked up by the scheduler within 15 seconds.",
        );
        ToolResult::success(chars_to_string(&v))
    }

    /// List the jobs, one line each; a fixed message for an empty array.
    pub fn action_list(&self, jobs: &Vec<CronJob>) -> (r: ToolResult)
        ensures
            !r.is_error,
            jobs@.len() == 0 ==> r.output@ == "No cron jobs configured."@,
    {
        if jobs.len() == 0 {
            return ToolResult::success("No cron jobs configured.".to_owned());
        }
        let mut v: Vec<char> = Vec::new();
        let mut k: usize = 0;
        while k < jobs.len()
            decreases jobs@.len() - k,
        {
            if k > 0 {
                v.push('\n');
            }
            push_str(&mut v, "- ");
            push_str(&mut v, jobs[k].id.as_str());
            push_str(&mut v, " | ");
            match &jobs[k].name {
                Some(n) => push_str(&mut v, n.as_str()),
                None => push_str(&mut v, "-"),
            }
            push_str(&mut v, " | ");
            if jobs[k].enabled {
                push_str(&mut v, "enabled");
            } else {
                push_str(&mut v, "disabled");
            }
            push_str(&mut v, " | ");
            match &jobs[k].schedule {
                JobSchedule::Cron { expr } => {
                    push_str(&mut v, "cron: ");
                    push_str(&mut v, expr.as_str());
                },
                JobSchedule::At { datetime } => {
                    push_str(&mut v, "at: ");
                    let ts: i64 = if 0 <= *datetime && *datetime < crate::clock::TS_BOUND {
                        *datetime
                    } else {
                        0
                    };
                    let c = crate::clock::utc_civil(ts);
                    let mut stamp = crate::clock::compact_timestamp(&c);
                    v.append(&mut stamp);
                },
            }
            push_str(&mut v, " | announce: ");
            match &jobs[k].announce {
                Some(a) => {
                    push_str(&mut v, a.channel.as_str());
                    push_str(&mut v, ":");
                    push_str(&mut v, a.recipient_id.as_str());
                },
                None => push_str(&mut v, "none"),
            }
            push_str(&mut v, " | prompt: ");
            let cut = crate::sched::truncate(jobs[k].prompt.as_str(), 60);
            push_str(&mut v, cut.as_str());
            k += 1;
        }
        ToolResult::success(chars_to_string(&v))
    }

    /// Edit a job found by id or name: replace the prompt, the schedule, the
    /// name, the enabled flag (re-enabling clears the retry state) or the
    /// announce target; unknown ids are an error and change nothing.
    pub fn action_edit(&self, params: &Json, jobs: &mut Vec<CronJob>) -> (r: ToolResult)
        ensures
            spec_arg(params@, "id"@) is None ==> (r.is_error && final(jobs)@ == old(jobs)@),
            r.is_error ==> final(jobs)@.len() == old(jobs)@.len() || final(jobs)@ == old(jobs)@,
            final(jobs)@.len() == old(jobs)@.len(),
    {
        let id_or_name = match get_arg(params, "id") {
            Some(i) => i,
            None => {
                return ToolResult::error("'id' is required for edit".to_owned());
            },
        };
        let idx = match crate::sched::find_job(jobs, id_or_name.as_str()) {
            Some(i) => i,
            None => {
                let mut v = str_chars("Job '");
                push_str(&mut v, id_or_name.as_str());
                push_str(&mut v, "' not found");
                return ToolResult::error(chars_to_string(&v));
            },
        };
        let ghost j0 = jobs@;
        let mut job = jobs.remove(idx);
        let mut failed: Option<String> = None;
        match get_arg(params, "prompt") {
            Some(p) => {
                job.prompt = p;
            },
            None => {},
        }
        match get_arg(params, "schedule") {
            Some(expr) => {
                if cron_parse_ok(expr.as_str()) {
                    job.schedule = JobSchedule::Cron { expr };
                } else {
                    let mut v = str_chars("invalid cron expression '");
                    push_str(&mut v, expr.as_str());
                    push_str(&mut v, "'");
                    failed = Some(chars_to_string(&v));
                }
            },
            None => {},
        }
        match get_arg(params, "name") {
            Some(n) => {
                job.name = Some(n);
            },
            None => {},
        }
        match bool_arg(params, "enabled") {
            Some(e) => {
                job.enabled = e;
                if e {
                    job.retry = RetryState { consecutive_failures: 0, retry_after: None };
                }
            },
            None => {},
        }
        match get_arg(params, "announce") {
            Some(a) => {
                if is_none_word(a.as_str()) {
                    job.announce = None;
                } else {
                    match crate::sched::parse_announce(a.as_str()) {
                        Ok(t) => {
                            job.announce = Some(t);
                        },
                        Err(e) => {
                            failed = Some(e.message().clone());
                        },
                    }
                }
            },
            None => {},
        }
        let label = match &job.name {
            Some(n) => n.clone(),
            None => job.id.clone(),
        };
        jobs.insert(idx, job);
        match failed {
            Some(m) => ToolResult::error(m),
            None => {
                let mut v = str_chars("Updated job '");
                push_str(&mut v, label.as_str());
                push_str(&mut v, "'.");
                ToolResult::success(chars_to_string(&v))
            },
        }
    }

    /// Remove a job found by id or name; unknown ids are an error and
    /// change nothing.
    pub fn action_remove(&self, params: &Json, jobs: &mut Vec<CronJob>) -> (r: ToolResult)
        ensures
            r.is_error ==> final(jobs)@ == old(jobs)@,
            !r.is_error ==> final(jobs)@.len() + 1 == old(jobs)@.len(),
    {
        let id_or_name = match get_arg(params, "id") {
            Some(i) => i,
            None => {
                return ToolResult::error("'id' is required for remove".to_owned());
            },
        };
        let idx = match crate::sched::find_job(jobs, id_or_name.as_str()) {
            Some(i) => i,
            None => {
                let mut v = str_chars("Job '");
                push_str(&mut v, id_or_name.as_str());
                push_str(&mut v, "' not found");
                return ToolResult::error(chars_to_string(&v));
            },
        };
        let removed = jobs.remove(idx);
        let label = match &removed.name {
            Some(n) => n.clone(),
            None => removed.id.clone(),
        };
        let mut v = str_chars("Removed job '");
        push_str(&mut v, label.as_str());
        push_str(&mut v, "'.");
        ToolResult::success(chars_to_string(&v))
    }
}

/// True for the word that clears an announce target.
fn is_none_word(s: &str) -> (r: bool)
    ensures
        r == (s@ == "none"@),
{
    let a = str_chars(s);
    let b = str_chars("none");
    crate::text::chars_eq(&a, &b)
}

/// Read a boolean argument.
fn bool_arg(params: &Json, key: &str) -> (r: Option<bool>)
    ensures
        match params@ {
            JsonV::Obj(fs) => r == (match v_obj_get(fs, key@) {
                Some(JsonV::Bool(b)) => Some(b),
                _ => None::<bool>,
            }),
            _ => r is None,
        },
{
    match params {
        Json::Obj(fields) => {
            proof {
                crate::json::lemma_obj_get_view(fields@, key@);
            }
            match crate::json::obj_get(fields, key) {
                Some(Json::Bool(b)) => Some(*b),
                _ => None,
            }
        },
        _ => None,
    }
}

/// The search-result lines the memory search reports: each match as
/// `path:line: text`, capped at the requested maximum, with a count header.
pub fn render_search_results(matches: &Vec<(String, u64, String)>, query: &str) -> (r: String)
    ensures
        matches@.len() == 0 ==> r@ == "No matches found for \""@ + query@ + seq!['"'],
{
    if matches.len() == 0 {
        let mut v = str_chars("No matches found for \"");
        push_str(&mut v, query);
        v.push('"');
        proof {
            assert(v@ =~= "No matches found for \""@ + query@ + seq!['"']);
        }
        return chars_to_string(&v);
    }
    let mut v = crate::text::u64_chars(matches.len() as u64);
    push_str(&mut v, " match(es) found:");
    let mut k: usize = 0;
    while k < matches.len()
        decreases matches@.len() - k,
    {
        v.push('\n');
        push_str(&mut v, matches[k].0.as_str());
        v.push(':');
        let mut num = crate::text::u64_chars(matches[k].1);
        v.append(&mut num);
        push_str(&mut v, ": ");
        push_str(&mut v, matches[k].2.as_str());
        k += 1;
    }
    chars_to_string(&v)
}

/// The HTTP tool's response body, cut at ten thousand characters with a
/// note carrying the full size.
pub fn http_body_excerpt(body: &str) -> (r: String)
    ensures
        body@.len() <= 10000 ==> r@ == body@,
        body@.len() > 10000 ==> r@ == body@.take(10000) + "... [truncated, "@ + crate::text::spec_dec(
            body@.len(),
        ) + " total chars]"@,
{
    let cs = str_chars(body);
    if cs.len() <= 10000 {
        return chars_to_string(&cs);
    }
    let mut v: Vec<char> = Vec::new();
    let mut k: usize = 0;
    while k < 10000
        invariant
            cs@ == body@,
            cs@.len() > 10000,
            0 <= k <= 10000,
            v@ == cs@.take(k as int),
        decreases 10000 - k,
    {
        v.push(cs[k]);
        proof {
            assert(v@ =~= cs@.take(k + 1));
        }
        k += 1;
    }
    push_str(&mut v, "... [truncated, ");
    let mut n = crate::text::u64_chars(cs.len() as u64);
    v.append(&mut n);
    push_str(&mut v, " total chars]");
    proof {
        assert(v@ =~= body@.take(10000) + "... [truncated, "@ + crate::text::spec_dec(body@.len())
            + " total chars]"@);
    }
    chars_to_string(&v)
}

} // verus!
