use neko::cron_tool::{http_body_excerpt, render_search_results};
use neko::json::parse_json_text;
use neko::sched::{CronJob, JobSchedule, RetryState};
use neko::tools::CronManageTool;

fn args(text: &str) -> neko::json::Json {
    parse_json_text(text).expect("arguments parse")
}

#[test]
fn add_requires_a_prompt_and_one_schedule_form() {
    let tool = CronManageTool;
    let mut jobs: Vec<CronJob> = Vec::new();

    let r = tool.action_add(&args("{}"), &None, &mut jobs, 100);
    assert!(r.is_error);
    assert_eq!(r.output, "'prompt' is required for add");

    let r2 = tool.action_add(&args("{\"prompt\":\"do it\"}"), &None, &mut jobs, 100);
    assert!(r2.is_error);

    let r3 = tool.action_add(
        &args("{\"prompt\":\"do it\",\"schedule\":\"0 0 9 * * *\",\"at\":\"2030-01-01 09:00\"}"),
        &None,
        &mut jobs,
        100,
    );
    assert!(r3.is_error);
    assert_eq!(jobs.len(), 0);
}

#[test]
fn add_creates_an_enabled_job() {
    let tool = CronManageTool;
    let mut jobs: Vec<CronJob> = Vec::new();
    let r = tool.action_add(
        &args("{\"prompt\":\"daily summary\",\"schedule\":\"0 0 9 * * *\",\"name\":\"morning\"}"),
        &None,
        &mut jobs,
        100,
    );
    assert!(!r.is_error, "{}", r.output);
    assert!(r.output.contains("Created cron job 'morning'"));
    assert_eq!(jobs.len(), 1);
    assert!(jobs[0].enabled);
    assert_eq!(jobs[0].prompt, "daily summary");
    assert_eq!(jobs[0].created_at, 100);
    assert_eq!(jobs[0].id.chars().count(), 8);
    assert!(matches!(&jobs[0].schedule, JobSchedule::Cron { expr } if expr == "0 0 9 * * *"));
}

#[test]
fn add_rejects_a_bad_expression() {
    let tool = CronManageTool;
    let mut jobs: Vec<CronJob> = Vec::new();
    let r = tool.action_add(
        &args("{\"prompt\":\"x\",\"schedule\":\"whenever\"}"),
        &None,
        &mut jobs,
        100,
    );
    assert!(r.is_error);
    assert!(r.output.contains("invalid cron expression"));
    assert_eq!(jobs.len(), 0);
}

#[test]
fn edit_and_remove_by_id() {
    let tool = CronManageTool;
    let mut jobs = vec![CronJob {
        id: "job00001".to_string(),
        name: None,
        prompt: "old".to_string(),
        schedule: JobSchedule::Cron { expr: "0 0 9 * * *".to_string() },
        announce: None,
        enabled: true,
        keep_after_run: false,
        created_at: 0,
        last_run_at: None,
        retry: RetryState { consecutive_failures: 3, retry_after: Some(999) },
    }];

    let r = tool.action_edit(
        &args("{\"id\":\"job00001\",\"prompt\":\"new\",\"enabled\":true}"),
        &mut jobs,
    );
    assert!(!r.is_error, "{}", r.output);
    assert_eq!(jobs[0].prompt, "new");
    // Re-enabling clears the retry state.
    assert_eq!(jobs[0].retry.consecutive_failures, 0);
    assert!(jobs[0].retry.retry_after.is_none());

    let missing = tool.action_remove(&args("{\"id\":\"nope\"}"), &mut jobs);
    assert!(missing.is_error);
    assert_eq!(jobs.len(), 1);

    let removed = tool.action_remove(&args("{\"id\":\"job00001\"}"), &mut jobs);
    assert!(!removed.is_error);
    assert_eq!(jobs.len(), 0);
}

#[test]
fn list_reports_an_empty_array() {
    let tool = CronManageTool;
    let r = tool.action_list(&Vec::new());
    assert!(!r.is_error);
    assert_eq!(r.output, "No cron jobs configured.");
}

#[test]
fn search_results_render_with_a_count() {
    let empty = render_search_results(&Vec::new(), "cats");
    assert_eq!(empty, "No matches found for \"cats\"");

    let found = render_search_results(
        &vec![("memory/MEMORY.md".to_string(), 3u64, "cats are great".to_string())],
        "cats",
    );
    assert!(found.starts_with("1 match(es) found:"));
    assert!(found.contains("memory/MEMORY.md:3: cats are great"));
}

#[test]
fn http_bodies_are_cut_at_the_limit() {
    let short = "x".repeat(10000);
    assert_eq!(http_body_excerpt(&short), short);
    let long = "x".repeat(10001);
    let cut = http_body_excerpt(&long);
    assert!(cut.contains("... [truncated, 10001 total chars]"));
}

#[test]
fn cron_paths_hang_off_the_workspace() {
    assert_eq!(neko::sched::cron_dir("/w"), "/w/cron");
    assert_eq!(neko::sched::jobs_path("/w"), "/w/cron/jobs.json");
    assert_eq!(neko::sched::history_path("/w"), "/w/cron/history.jsonl");
}

#[test]
fn http_bodies_are_cut_with_a_size_note() {
    let long = "y".repeat(10005);
    let cut = neko::cron_tool::http_body_excerpt(&long);
    assert!(cut.starts_with(&"y".repeat(10000)));
    assert!(cut.ends_with("... [truncated, 10005 total chars]"));
    assert_eq!(neko::cron_tool::http_body_excerpt("short"), "short");
}
