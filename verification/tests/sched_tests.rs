use neko::sched::{
    backoff_duration, cron_due, cron_window_instant, find_job, job_kept, new_job_id,
    parse_announce, should_fire, truncate, validate_cron_expr, AnnounceTarget, CronJob,
    JobSchedule, RetryState,
};

fn job(schedule: JobSchedule) -> CronJob {
    CronJob {
        id: "abc12345".to_string(),
        name: None,
        prompt: "do it".to_string(),
        schedule,
        announce: None,
        enabled: true,
        keep_after_run: false,
        created_at: 0,
        last_run_at: None,
        retry: RetryState::default(),
    }
}

#[test]
fn every_second_expression_fires_each_tick() {
    // The six-field grammar, seconds included.
    assert!(validate_cron_expr("*/1 * * * * *").is_ok());
    assert!(validate_cron_expr("not a cron").is_err());

    let t: i64 = 1_700_000_000;
    let j = job(JobSchedule::Cron { expr: "*/1 * * * * *".to_string() });
    assert!(should_fire(&j, t));
}

#[test]
fn backoff_schedule_is_exact() {
    assert_eq!(backoff_duration(0), 0);
    assert_eq!(backoff_duration(1), 30);
    assert_eq!(backoff_duration(2), 60);
    assert_eq!(backoff_duration(3), 300);
    assert_eq!(backoff_duration(4), 900);
    assert_eq!(backoff_duration(5), 3600);
    assert_eq!(backoff_duration(99), 3600);
}

#[test]
fn failure_applies_growing_backoff() {
    // Fires at t, fails: one failure, retry at t+30.
    let t: i64 = 1_700_000_000;
    let mut j = job(JobSchedule::Cron { expr: "*/1 * * * * *".to_string() });
    assert!(should_fire(&j, t));
    j.apply_failure(t, t);
    assert_eq!(j.retry.consecutive_failures, 1);
    assert_eq!(j.retry.retry_after, Some(t + 30));

    // The next tick at t+15 is inside the backoff window.
    assert!(!should_fire(&j, t + 15));

    // At t+30 it fires again; a second failure backs off for 60 more.
    assert!(should_fire(&j, t + 30));
    j.apply_failure(t + 30, t + 30);
    assert_eq!(j.retry.consecutive_failures, 2);
    assert_eq!(j.retry.retry_after, Some(t + 30 + 60));
}

#[test]
fn success_clears_retry_state_and_drops_one_shots() {
    let t: i64 = 1_700_000_000;
    let mut j = job(JobSchedule::Cron { expr: "*/1 * * * * *".to_string() });
    j.apply_failure(t, t);
    j.apply_success(t + 60);
    assert_eq!(j.retry.consecutive_failures, 0);
    assert!(j.retry.retry_after.is_none());
    assert_eq!(j.last_run_at, Some(t + 60));
    assert!(j.enabled);
    assert!(job_kept(&j));

    let mut one_shot = job(JobSchedule::At { datetime: t });
    one_shot.apply_success(t + 1);
    assert!(!one_shot.enabled);
    assert!(!job_kept(&one_shot));
}

#[test]
fn one_shot_fires_once_when_due() {
    let t: i64 = 1_700_000_000;
    let mut j = job(JobSchedule::At { datetime: t + 100 });
    assert!(!should_fire(&j, t));
    assert!(should_fire(&j, t + 100));
    j.apply_success(t + 100);
    assert!(!should_fire(&j, t + 200));
}

#[test]
fn disabled_jobs_never_fire() {
    let t: i64 = 1_700_000_000;
    let mut j = job(JobSchedule::At { datetime: t });
    j.enabled = false;
    assert!(!should_fire(&j, t));
}

#[test]
fn an_instant_fires_at_most_once_across_ticks() {
    let t: i64 = 1_700_000_000;
    let inst = cron_window_instant("*/1 * * * * *", t).unwrap();
    // An every-second schedule's latest window instant is the tick itself.
    assert_eq!(inst, t);
    assert!(cron_due(Some(inst), t, None));
    // Recording the run excludes the same instant at the next tick.
    assert!(!cron_due(Some(inst), t + 15, Some(t)));
}

#[test]
fn announce_targets_parse_on_the_first_colon() {
    let t: AnnounceTarget = parse_announce("telegram:123456").unwrap();
    assert_eq!(t.channel, "telegram");
    assert_eq!(t.recipient_id, "123456");
    let t2 = parse_announce("a:b:c").unwrap();
    assert_eq!(t2.channel, "a");
    assert_eq!(t2.recipient_id, "b:c");
    assert!(parse_announce("no-colon").is_err());
}

#[test]
fn job_ids_are_eight_characters() {
    let id = new_job_id();
    assert_eq!(id.chars().count(), 8);
}

#[test]
fn jobs_are_found_by_id_or_name() {
    let mut a = job(JobSchedule::At { datetime: 0 });
    a.id = "id-one".to_string();
    let mut b = job(JobSchedule::At { datetime: 0 });
    b.id = "id-two".to_string();
    b.name = Some("daily".to_string());
    let jobs = vec![a, b];
    assert_eq!(find_job(&jobs, "id-one"), Some(0));
    assert_eq!(find_job(&jobs, "daily"), Some(1));
    assert_eq!(find_job(&jobs, "missing"), None);
}

#[test]
fn responses_are_cut_at_the_limit() {
    let long = "x".repeat(1200);
    let cut = truncate(&long, 1000);
    assert_eq!(cut.chars().count(), 1003);
    assert!(cut.ends_with("..."));
    assert_eq!(truncate("short", 1000), "short");
}

#[test]
fn history_entries_write_as_one_json_object_per_line() {
    let entry = neko::sched::make_history_entry(
        "abc12345".to_string(),
        None,
        "do it".to_string(),
        5,
        7,
        Ok("done"),
    );
    let line = neko::json::write_json_text(&neko::sched::history_entry_to_json(&entry));
    assert_eq!(
        line,
        "{\"job_id\":\"abc12345\",\"job_name\":null,\"prompt\":\"do it\",\
         \"started_at\":5,\"finished_at\":7,\"success\":true,\
         \"response\":\"done\",\"error\":null}"
    );
}

#[test]
fn an_unparseable_expression_never_fires() {
    let mut j = job(JobSchedule::Cron { expr: "not a cron".to_string() });
    j.enabled = true;
    assert!(!should_fire(&j, 1_700_000_000));
    assert!(validate_cron_expr("not a cron").is_err());
}

#[test]
fn the_window_instant_is_the_latest_scheduled_one() {
    // An every-five-seconds schedule: the latest instant in the look-back
    // window is the most recent multiple of five.
    let t: i64 = 1_700_000_003;
    assert_eq!(cron_window_instant("*/5 * * * * *", t), Some(1_700_000_000));
    assert_eq!(cron_window_instant("*/5 * * * * *", 1_700_000_000), Some(1_700_000_000));
    assert_eq!(cron_window_instant("0 0 0 1 1 *", t), None);
}
