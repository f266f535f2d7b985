use grok_search_cli::cli::{ConflictPolicy, OutputFormat, SearchArgs};
use grok_search_cli::jobs::{
    cancel_job, completed_artifact_path, is_json_file, job_log_path, job_path, mark_cancelled,
    mark_failed, mark_running, mark_succeeded, new_search_job, newest_jobs, poll_interval,
    reconcile_dead_worker, record_worker_pid, run_start, touch_running, wait_step, HeartbeatAction,
    JobRecord, JobStatus, RunStart, WaitStep,
};

fn args() -> SearchArgs {
    SearchArgs {
        query: vec!["grok".to_string(), "news".to_string()],
        model: None,
        no_web_search: false,
        x_search: true,
        platform: None,
        allowed_domain: vec![],
        excluded_domain: vec![],
        allowed_x_handle: vec![],
        excluded_x_handle: vec![],
        from_date: None,
        to_date: None,
        recency_days: None,
        prefer_recent: false,
        conflict_policy: ConflictPolicy::ShowAll,
        enable_image_understanding: false,
        enable_video_understanding: false,
        extra_sources: 0,
        max_output_tokens: None,
        timeout_seconds: 600,
        include_raw: false,
        artifact_dir: None,
        format: OutputFormat::Text,
        background: true,
    }
}

fn job(id: &str, created: i64) -> JobRecord {
    new_search_job(args(), id.to_string(), created, format!("/j/{id}.log"))
}

#[test]
fn status_names_and_terminality() {
    assert_eq!(JobStatus::Queued.as_str(), "queued");
    assert_eq!(JobStatus::Running.as_str(), "running");
    assert_eq!(JobStatus::Succeeded.as_str(), "succeeded");
    assert_eq!(JobStatus::Failed.as_str(), "failed");
    assert_eq!(JobStatus::Cancelled.as_str(), "cancelled");
    assert!(!JobStatus::Queued.is_terminal());
    assert!(!JobStatus::Running.is_terminal());
    assert!(JobStatus::Succeeded.is_terminal());
    assert!(JobStatus::Failed.is_terminal());
    assert!(JobStatus::Cancelled.is_terminal());
}

#[test]
fn new_job_is_queued_foreground_search() {
    let j = job("abc", 5);
    assert_eq!(j.status, JobStatus::Queued);
    assert_eq!(j.query, "grok news");
    assert!(!j.search_args.background);
    assert_eq!(j.timeout_seconds, 600);
    assert_eq!(j.created_at, 5);
    assert_eq!(j.updated_at, 5);
    assert_eq!(j.log_file, "/j/abc.log");
}

#[test]
fn worker_pid_is_recorded_only_while_unfinished() {
    let mut j = job("a", 1);
    record_worker_pid(&mut j, 42, 2);
    assert_eq!(j.pid, Some(42));
    assert_eq!(j.updated_at, 2);
    let mut done = job("b", 1);
    mark_failed(&mut done, "boom".to_string(), 3);
    record_worker_pid(&mut done, 42, 4);
    assert_eq!(done.pid, None);
    assert_eq!(done.updated_at, 3);
}

#[test]
fn worker_refuses_finished_and_cancels_requested() {
    let mut j = job("a", 1);
    assert!(matches!(run_start(&j), RunStart::Start));
    j.cancel_requested = true;
    assert!(matches!(run_start(&j), RunStart::Cancel));
    mark_cancelled(&mut j, 9);
    assert_eq!(j.status, JobStatus::Cancelled);
    assert_eq!(j.completed_at, Some(9));
    match run_start(&j) {
        RunStart::Rejected(m) => assert_eq!(m, "job a is already cancelled"),
        _ => panic!("expected a refusal"),
    }
}

#[test]
fn cancel_finishes_unfinished_job_once() {
    let mut j = job("a", 1);
    mark_running(&mut j, 77, 2);
    assert_eq!(j.status, JobStatus::Running);
    assert_eq!(j.started_at, Some(2));
    assert_eq!(cancel_job(&mut j, 3), (Some(77), true));
    assert_eq!(j.status, JobStatus::Cancelled);
    assert!(j.cancel_requested);
    assert_eq!(j.completed_at, Some(3));
    assert_eq!(cancel_job(&mut j, 4), (None, false));
    assert_eq!(j.completed_at, Some(3));
    assert_eq!(j.updated_at, 3);
}

#[test]
fn succeeded_job_hands_out_its_artifact() {
    let mut j = job("a", 1);
    mark_succeeded(&mut j, "sess".to_string(), Some("/s/sess.json".to_string()), 5);
    assert_eq!(completed_artifact_path(&j), Ok("/s/sess.json".to_string()));
    assert_eq!(j.session_id.as_deref(), Some("sess"));
    let mut k = job("b", 1);
    mark_succeeded(&mut k, "sess".to_string(), None, 5);
    assert_eq!(completed_artifact_path(&k), Err("job succeeded without an artifact path".to_string()));
}

#[test]
fn unfinished_or_failed_jobs_explain_themselves() {
    let j = job("a", 1);
    assert_eq!(completed_artifact_path(&j), Err("job a is still queued".to_string()));
    let mut f = job("f", 1);
    mark_failed(&mut f, "HTTP 500".to_string(), 2);
    assert_eq!(completed_artifact_path(&f), Err("job f failed: HTTP 500".to_string()));
    f.error = None;
    assert_eq!(completed_artifact_path(&f), Err("job f failed: unknown error".to_string()));
    let mut c = job("c", 1);
    mark_cancelled(&mut c, 2);
    assert_eq!(completed_artifact_path(&c), Err("job c was cancelled".to_string()));
}

#[test]
fn heartbeat_stops_cancelled_and_refreshes_running() {
    let mut j = job("a", 1);
    mark_running(&mut j, 1, 2);
    assert_eq!(touch_running(&mut j, 10), (HeartbeatAction::Continue, true));
    assert_eq!(j.updated_at, 10);
    j.cancel_requested = true;
    assert_eq!(touch_running(&mut j, 20), (HeartbeatAction::Cancelled, true));
    assert_eq!(j.status, JobStatus::Cancelled);
    assert_eq!(j.completed_at, Some(20));
    assert_eq!(touch_running(&mut j, 30), (HeartbeatAction::Cancelled, true));
    assert_eq!(j.completed_at, Some(20));
    let mut q = job("q", 1);
    assert_eq!(touch_running(&mut q, 40), (HeartbeatAction::Continue, false));
    assert_eq!(q.updated_at, 1);
}

#[test]
fn dead_worker_fails_running_job() {
    let mut j = job("a", 1);
    mark_running(&mut j, 5, 2);
    assert!(!reconcile_dead_worker(&mut j, true, 3));
    assert!(reconcile_dead_worker(&mut j, false, 4));
    assert_eq!(j.status, JobStatus::Failed);
    assert_eq!(j.error.as_deref(), Some("worker process exited before writing a final result"));
    assert!(!reconcile_dead_worker(&mut j, false, 5));
    let mut q = job("q", 1);
    assert!(!reconcile_dead_worker(&mut q, false, 2));
}

#[test]
fn waiting_polls_until_done_or_timeout() {
    let j = job("a", 1);
    assert!(matches!(wait_step(&j, 5, 0), WaitStep::Poll));
    assert!(matches!(wait_step(&j, 5, 10), WaitStep::Poll));
    match wait_step(&j, 10, 10) {
        WaitStep::TimedOut(m) => assert_eq!(m, "job a is still queued after 10 seconds"),
        _ => panic!("expected a timeout"),
    }
    let mut d = job("d", 1);
    mark_failed(&mut d, "x".to_string(), 2);
    assert!(matches!(wait_step(&d, 100, 10), WaitStep::Done));
    assert_eq!(poll_interval(0), 1);
    assert_eq!(poll_interval(7), 7);
}

#[test]
fn listing_is_newest_first_stable_and_limited() {
    let jobs = vec![job("old", 1), job("new", 9), job("mid1", 5), job("mid2", 5)];
    let ids: Vec<String> = newest_jobs(jobs, 3).into_iter().map(|j| j.id).collect();
    assert_eq!(ids, vec!["new", "mid1", "mid2"]);
    assert!(newest_jobs(vec![], 5).is_empty());
}

#[test]
fn job_files_live_under_home() {
    assert_eq!(job_path(&Some("/h".to_string()), "abc"), "/h/.config/grok-search/jobs/abc.json");
    assert_eq!(job_log_path(&None, "abc"), "./.config/grok-search/jobs/abc.log");
    assert!(is_json_file("abc.json"));
    assert!(!is_json_file(".json"));
    assert!(!is_json_file("abc.json.tmp"));
}
