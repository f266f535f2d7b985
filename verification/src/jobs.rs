//! Background search jobs: their records and every change of state a job goes
//! through.  Times are microseconds since the Unix epoch.

use vstd::prelude::*;
use crate::cli::SearchArgs;
use crate::text::{owned, decimal};
use crate::paths::{join_path, app_dir_spec};

verus! {

#[derive(Clone, Copy, Debug, PartialEq, Eq, Structural)]
pub enum JobKind {
    Search,
}

#[derive(Clone, Copy, Debug, PartialEq, Eq, Structural)]
pub enum JobStatus {
    Queued,
    Running,
    Succeeded,
    Failed,
    Cancelled,
}

/// The name of a status.
pub open spec fn status_name(s: JobStatus) -> Seq<char> {
    match s {
        JobStatus::Queued => "queued"@,
        JobStatus::Running => "running"@,
        JobStatus::Succeeded => "succeeded"@,
        JobStatus::Failed => "failed"@,
        JobStatus::Cancelled => "cancelled"@,
    }
}

/// Succeeded, failed and cancelled jobs are finished for good.
pub open spec fn terminal(s: JobStatus) -> bool {
    s == JobStatus::Succeeded || s == JobStatus::Failed || s == JobStatus::Cancelled
}

impl JobStatus {
    pub fn as_str(self) -> (r: &'static str)
        ensures
            r@ == status_name(self),
    {
        match self {
            JobStatus::Queued => "queued",
            JobStatus::Running => "running",
            JobStatus::Succeeded => "succeeded",
            JobStatus::Failed => "failed",
            JobStatus::Cancelled => "cancelled",
        }
    }

    pub fn is_terminal(self) -> (b: bool)
        ensures
            b == terminal(self),
    {
        match self {
            JobStatus::Succeeded | JobStatus::Failed | JobStatus::Cancelled => true,
            _ => false,
        }
    }
}

/// A background job.
pub struct JobRecord {
    pub id: String,
    pub kind: JobKind,
    pub status: JobStatus,
    pub query: String,
    pub search_args: SearchArgs,
    pub created_at: i64,
    pub started_at: Option<i64>,
    pub updated_at: i64,
    pub completed_at: Option<i64>,
    pub pid: Option<u32>,
    pub timeout_seconds: u64,
    pub session_id: Option<String>,
    pub artifact_path: Option<String>,
    pub log_file: String,
    pub error: Option<String>,
    pub cancel_requested: bool,
}

/// `<home>/.config/grok-search/jobs`.
pub open spec fn jobs_dir_spec(home: Option<Seq<char>>) -> Seq<char> {
    join_path(app_dir_spec(home), "jobs"@)
}

pub fn jobs_dir(home: &Option<String>) -> (r: String)
    ensures
        r@ == jobs_dir_spec(home.deep_view()),
{
    let a = crate::paths::app_dir(home);
    crate::paths::join(a.as_str(), "jobs")
}

/// The record file of a job.
pub fn job_path(home: &Option<String>, job_id: &str) -> (r: String)
    ensures
        r@ == join_path(jobs_dir_spec(home.deep_view()), job_id@ + ".json"@),
{
    let d = jobs_dir(home);
    let mut name = owned(job_id);
    name.append(".json");
    crate::paths::join(d.as_str(), name.as_str())
}

/// The log file of a job.
pub fn job_log_path(home: &Option<String>, job_id: &str) -> (r: String)
    ensures
        r@ == join_path(jobs_dir_spec(home.deep_view()), job_id@ + ".log"@),
{
    let d = jobs_dir(home);
    let mut name = owned(job_id);
    name.append(".log");
    crate::paths::join(d.as_str(), name.as_str())
}

/// A fresh job identifier: twelve random lower-case hexadecimal digits.
pub fn fresh_job_id() -> (r: String)
    ensures
        r@.len() == 12,
        forall|i: int| 0 <= i < 12 ==> crate::artifact::is_lower_hex(#[trigger] r@[i]),
{
    crate::artifact::fresh_id()
}

/// The record of a newly submitted search job.
pub fn new_search_job(args: SearchArgs, id: String, now: i64, log_file: String) -> (r: JobRecord)
    ensures
        r.id@ == id@,
        r.kind == JobKind::Search,
        r.status == JobStatus::Queued,
        r.query@ == crate::text::join_spec(args.query.deep_view(), " "@),
        !r.search_args.background,
        r.search_args.query == args.query,
        r.timeout_seconds == args.timeout_seconds,
        r.created_at == now,
        r.updated_at == now,
        r.started_at is None,
        r.completed_at is None,
        r.pid is None,
        r.session_id is None,
        r.artifact_path is None,
        r.log_file@ == log_file@,
        r.error is None,
        !r.cancel_requested,
{
    let mut args = args;
    args.background = false;
    let query = args.query_text();
    let timeout_seconds = args.timeout_seconds;
    JobRecord {
        id,
        kind: JobKind::Search,
        status: JobStatus::Queued,
        query,
        search_args: args,
        created_at: now,
        started_at: None,
        updated_at: now,
        completed_at: None,
        pid: None,
        timeout_seconds,
        session_id: None,
        artifact_path: None,
        log_file,
        error: None,
        cancel_requested: false,
    }
}

/// Records the worker process of a job that has not finished meanwhile.
pub fn record_worker_pid(job: &mut JobRecord, pid: u32, now: i64)
    ensures
        terminal(old(job).status) ==> *final(job) == *old(job),
        !terminal(old(job).status) ==> *final(job) == (JobRecord { pid: Some(pid), updated_at: now, ..*old(job) }),
{
    if !job.status.is_terminal() {
        job.pid = Some(pid);
        job.updated_at = now;
    }
}

/// What a worker does with a job it is asked to run.
pub enum RunStart {
    /// The job already finished: the message says how.
    Rejected(String),
    /// Cancellation was asked for before the worker started.
    Cancel,
    Start,
}

/// The decision a worker takes before running a job.
pub fn run_start(job: &JobRecord) -> (r: RunStart)
    ensures
        terminal(job.status) ==> (r matches RunStart::Rejected(m) && m@ == "job "@ + job.id@
            + " is already "@ + status_name(job.status)),
        !terminal(job.status) && job.cancel_requested ==> r is Cancel,
        !terminal(job.status) && !job.cancel_requested ==> r is Start,
{
    if job.status.is_terminal() {
        let mut m = owned("job ");
        m.append(job.id.as_str());
        m.append(" is already ");
        m.append(job.status.as_str());
        RunStart::Rejected(m)
    } else if job.cancel_requested {
        RunStart::Cancel
    } else {
        RunStart::Start
    }
}

/// A job taken up by worker `pid`.
pub fn mark_running(job: &mut JobRecord, pid: u32, now: i64)
    ensures
        *final(job) == (JobRecord {
            status: JobStatus::Running,
            pid: Some(pid),
            started_at: Some(now),
            updated_at: now,
            ..*old(job)
        }),
{
    job.status = JobStatus::Running;
    job.pid = Some(pid);
    job.started_at = Some(now);
    job.updated_at = now;
}

/// A job finished with session `session_id`, saved at `artifact_path`.
pub open spec fn succeeded(
    job: JobRecord,
    session_id: String,
    artifact_path: Option<String>,
    now: i64,
) -> JobRecord {
    JobRecord {
        status: JobStatus::Succeeded,
        updated_at: now,
        completed_at: Some(now),
        session_id: Some(session_id),
        artifact_path: artifact_path,
        error: None,
        ..job
    }
}

/// A job whose search produced session `session_id`, saved at `artifact_path`.
pub fn mark_succeeded(
    job: &mut JobRecord,
    session_id: String,
    artifact_path: Option<String>,
    now: i64,
)
    ensures
        *final(job) == succeeded(*old(job), session_id, artifact_path, now),
{
    job.status = JobStatus::Succeeded;
    job.updated_at = now;
    job.completed_at = Some(now);
    job.session_id = Some(session_id);
    job.artifact_path = artifact_path;
    job.error = None;
}

/// A job whose search failed with `error`.
pub fn mark_failed(job: &mut JobRecord, error: String, now: i64)
    ensures
        *final(job) == (JobRecord {
            status: JobStatus::Failed,
            updated_at: now,
            completed_at: Some(now),
            error: Some(error),
            ..*old(job)
        }),
{
    job.status = JobStatus::Failed;
    job.updated_at = now;
    job.completed_at = Some(now);
    job.error = Some(error);
}

/// A job cancelled before its worker ran it.
pub fn mark_cancelled(job: &mut JobRecord, now: i64)
    ensures
        *final(job) == (JobRecord {
            status: JobStatus::Cancelled,
            cancel_requested: true,
            updated_at: now,
            completed_at: Some(now),
            ..*old(job)
        }),
{
    job.status = JobStatus::Cancelled;
    job.cancel_requested = true;
    job.updated_at = now;
    job.completed_at = Some(now);
}

/// What the heartbeat of a running worker tells it.
#[derive(Clone, Copy, Debug, PartialEq, Eq, Structural)]
pub enum HeartbeatAction {
    Continue,
    Cancelled,
}

/// One heartbeat: a cancelled job is closed (keeping an earlier completion time)
/// and the worker told to stop; a running job has its update time refreshed.
/// The boolean says whether the record changed and must be saved.
pub fn touch_running(job: &mut JobRecord, now: i64) -> (r: (HeartbeatAction, bool))
    ensures
        old(job).cancel_requested || old(job).status == JobStatus::Cancelled ==> r == (
        HeartbeatAction::Cancelled,
        true,
        ) && *final(job) == (JobRecord {
            status: JobStatus::Cancelled,
            completed_at: Some(
                match old(job).completed_at {
                    Some(t) => t,
                    None => now,
                },
            ),
            updated_at: now,
            ..*old(job)
        }),
        !(old(job).cancel_requested || old(job).status == JobStatus::Cancelled) ==> r.0
            == HeartbeatAction::Continue && r.1 == (old(job).status == JobStatus::Running) && (if old(
            job,
        ).status == JobStatus::Running {
            *final(job) == (JobRecord { updated_at: now, ..*old(job) })
        } else {
            *final(job) == *old(job)
        }),
{
    if job.cancel_requested || job.status == JobStatus::Cancelled {
        job.status = JobStatus::Cancelled;
        if job.completed_at.is_none() {
            job.completed_at = Some(now);
        }
        job.updated_at = now;
        return (HeartbeatAction::Cancelled, true);
    }
    if job.status == JobStatus::Running {
        job.updated_at = now;
        return (HeartbeatAction::Continue, true);
    }
    (HeartbeatAction::Continue, false)
}

/// The message of a worker that vanished.
pub open spec fn dead_worker_message() -> Seq<char> {
    "worker process exited before writing a final result"@
}

/// A running job whose worker is gone fails (keeping an earlier error message).
/// `alive` tells whether the recorded worker process still exists; the result
/// says whether the record changed.
pub fn reconcile_dead_worker(job: &mut JobRecord, alive: bool, now: i64) -> (changed: bool)
    ensures
        changed == (old(job).status == JobStatus::Running && old(job).pid is Some && !alive),
        changed ==> *final(job) == (JobRecord {
            status: JobStatus::Failed,
            updated_at: now,
            completed_at: Some(now),
            error: Some(
                match old(job).error {
                    Some(e) => e,
                    None => final(job).error.unwrap(),
                },
            ),
            ..*old(job)
        }) && final(job).error.unwrap()@ == (match old(job).error {
            Some(e) => e@,
            None => dead_worker_message(),
        }),
        !changed ==> *final(job) == *old(job),
{
    if job.status != JobStatus::Running || job.pid.is_none() || alive {
        return false;
    }
    job.status = JobStatus::Failed;
    job.updated_at = now;
    job.completed_at = Some(now);
    if job.error.is_none() {
        job.error = Some(owned("worker process exited before writing a final result"));
    }
    true
}

/// A job after a cancellation request: a finished job is left as it is.
pub open spec fn cancelled(job: JobRecord, now: i64) -> JobRecord {
    if terminal(job.status) {
        job
    } else {
        JobRecord {
            cancel_requested: true,
            status: JobStatus::Cancelled,
            completed_at: Some(now),
            updated_at: now,
            ..job
        }
    }
}

/// Cancels an unfinished job; a finished one is left as it is.  Returns the
/// worker to terminate, if any, and whether the record changed.
pub fn cancel_job(job: &mut JobRecord, now: i64) -> (r: (Option<u32>, bool))
    ensures
        *final(job) == cancelled(*old(job), now),
        terminal(old(job).status) ==> r == (None::<u32>, false),
        !terminal(old(job).status) ==> r == (old(job).pid, true),
{
    if job.status.is_terminal() {
        return (None, false);
    }
    job.cancel_requested = true;
    job.status = JobStatus::Cancelled;
    job.completed_at = Some(now);
    job.updated_at = now;
    (job.pid, true)
}

/// Where a finished job left its artifact, or why there is none to load.
pub open spec fn completion_spec(job: JobRecord) -> Result<Seq<char>, Seq<char>> {
    match job.status {
        JobStatus::Succeeded => match job.artifact_path {
            Some(p) => Ok(p@),
            None => Err("job succeeded without an artifact path"@),
        },
        JobStatus::Failed => Err(
            "job "@ + job.id@ + " failed: "@ + match job.error {
                Some(e) => e@,
                None => "unknown error"@,
            },
        ),
        JobStatus::Cancelled => Err("job "@ + job.id@ + " was cancelled"@),
        _ => Err("job "@ + job.id@ + " is still "@ + status_name(job.status)),
    }
}

pub open spec fn result_view(r: Result<String, String>) -> Result<Seq<char>, Seq<char>> {
    match r {
        Ok(s) => Ok(s@),
        Err(e) => Err(e@),
    }
}

/// The artifact path of a succeeded job, or the message for any other.
pub fn completed_artifact_path(job: &JobRecord) -> (r: Result<String, String>)
    ensures
        result_view(r) == completion_spec(*job),
{
    match job.status {
        JobStatus::Succeeded => match &job.artifact_path {
            Some(p) => Ok(p.clone()),
            None => Err(owned("job succeeded without an artifact path")),
        },
        JobStatus::Failed => {
            let mut m = owned("job ");
            m.append(job.id.as_str());
            m.append(" failed: ");
            match &job.error {
                Some(e) => m.append(e.as_str()),
                None => m.append("unknown error"),
            }
            Err(m)
        },
        JobStatus::Cancelled => {
            let mut m = owned("job ");
            m.append(job.id.as_str());
            m.append(" was cancelled");
            Err(m)
        },
        _ => {
            let mut m = owned("job ");
            m.append(job.id.as_str());
            m.append(" is still ");
            m.append(job.status.as_str());
            Err(m)
        },
    }
}

/// The next step of waiting for a job.
pub enum WaitStep {
    Done,
    TimedOut(String),
    Poll,
}

/// Waiting ends when the job is finished, or with an error once `timeout_seconds`
/// (when not zero) have elapsed; otherwise the job is polled again.
pub fn wait_step(job: &JobRecord, elapsed_seconds: i64, timeout_seconds: u64) -> (r: WaitStep)
    ensures
        terminal(job.status) ==> r is Done,
        !terminal(job.status) && timeout_seconds > 0 && elapsed_seconds >= timeout_seconds ==> (
        r matches WaitStep::TimedOut(m) && m@ == "job "@ + job.id@ + " is still "@ + status_name(
            job.status,
        ) + " after "@ + decimal(timeout_seconds as nat) + " seconds"@),
        !terminal(job.status) && !(timeout_seconds > 0 && elapsed_seconds >= timeout_seconds)
            ==> r is Poll,
{
    if job.status.is_terminal() {
        return WaitStep::Done;
    }
    if timeout_seconds > 0 && elapsed_seconds >= 0 && (elapsed_seconds as u64) >= timeout_seconds {
        let mut m = owned("job ");
        m.append(job.id.as_str());
        m.append(" is still ");
        m.append(job.status.as_str());
        m.append(" after ");
        let t = crate::text::decimal_text(timeout_seconds);
        m.append(t.as_str());
        m.append(" seconds");
        return WaitStep::TimedOut(m);
    }
    WaitStep::Poll
}

/// The polling interval: at least one second.
pub fn poll_interval(poll_seconds: u64) -> (r: u64)
    ensures
        r == if poll_seconds < 1 {
            1
        } else {
            poll_seconds
        },
{
    if poll_seconds < 1 {
        1
    } else {
        poll_seconds
    }
}

/// Number of leading jobs at least as new as `t`.
pub open spec fn newer_prefix(s: Seq<JobRecord>, t: i64) -> int
    decreases s.len(),
{
    if s.len() > 0 && s[0].created_at >= t {
        1 + newer_prefix(s.drop_first(), t)
    } else {
        0
    }
}

/// Newest first, jobs created at the same time in their original order (a stable
/// sort by creation time, descending).
pub open spec fn newest_first_spec(s: Seq<JobRecord>) -> Seq<JobRecord>
    decreases s.len(),
{
    if s.len() == 0 {
        seq![]
    } else {
        let prev = newest_first_spec(s.drop_last());
        prev.insert(newer_prefix(prev, s.last().created_at), s.last())
    }
}

proof fn lemma_newer_prefix(s: Seq<JobRecord>, t: i64)
    ensures
        0 <= newer_prefix(s, t) <= s.len(),
        forall|i: int| 0 <= i < newer_prefix(s, t) ==> #[trigger] s[i].created_at >= t,
        newer_prefix(s, t) < s.len() ==> s[newer_prefix(s, t)].created_at < t,
    decreases s.len(),
{
    if s.len() > 0 && s[0].created_at >= t {
        lemma_newer_prefix(s.drop_first(), t);
        assert forall|i: int| 0 <= i < newer_prefix(s, t) implies #[trigger] s[i].created_at >= t by {
            if i > 0 {
                assert(s[i] == s.drop_first()[i - 1]);
            }
        }
    }
}

/// The newest `limit` jobs, newest first.
pub fn newest_jobs(jobs: Vec<JobRecord>, limit: usize) -> (r: Vec<JobRecord>)
    ensures
        r@ == crate::text::prefix_upto(newest_first_spec(jobs@), limit as int),
{
    let ghost js = jobs@;
    let mut jobs = jobs;
    let mut out: Vec<JobRecord> = Vec::new();
    let ghost n = js.len();
    assert(js.skip(0) =~= js);
    assert(js.take(0) =~= Seq::<JobRecord>::empty());
    while jobs.len() > 0
        invariant
            n == js.len(),
            jobs@.len() <= n,
            jobs@ == js.skip(n - jobs@.len()),
            out@ == newest_first_spec(js.take(n - jobs@.len())),
        decreases jobs@.len(),
    {
        let ghost k = n - jobs@.len();
        let j = jobs.remove(0);
        assert(jobs@ =~= js.skip(k + 1));
        assert(js.take(k + 1).drop_last() =~= js.take(k));
        assert(js.take(k + 1).last() == j);
        let ghost prev = out@;
        proof {
            lemma_newer_prefix(prev, j.created_at);
        }
        let mut p: usize = 0;
        assert(prev.skip(0) =~= prev);
        while p < out.len() && out[p].created_at >= j.created_at
            invariant
                p <= out@.len(),
                out@ == prev,
                newer_prefix(prev, j.created_at) == p + newer_prefix(prev.skip(p as int), j.created_at),
            decreases out@.len() - p,
        {
            assert(prev.skip(p as int)[0] == prev[p as int]);
            assert(prev.skip(p as int).drop_first() =~= prev.skip(p + 1));
            p = p + 1;
        }
        proof {
            if p < out.len() {
                assert(prev.skip(p as int)[0] == prev[p as int]);
            }
        }
        out.insert(p, j);
    }
    assert(js.take(n as int) =~= js);
    out.truncate(limit);
    assert(out@ =~= crate::text::prefix_upto(newest_first_spec(js), limit as int));
    out
}

/// Whether a job directory entry is a job record file.
pub fn is_json_file(name: &str) -> (b: bool)
    ensures
        b == (crate::text::has_suffix(name@, ".json"@) && name@.len() > 5),
{
    crate::text::ends_with(name, ".json") && crate::text::chars_of(name).len() > 5
}

/// Every job in the listing is at least as new as every later one.
pub proof fn law_newest_first_sorted(s: Seq<JobRecord>)
    ensures
        newest_first_spec(s).len() == s.len(),
        forall|i: int, j: int|
            0 <= i < j < newest_first_spec(s).len() ==> #[trigger] newest_first_spec(s)[i].created_at
                >= #[trigger] newest_first_spec(s)[j].created_at,
    decreases s.len(),
{
    if s.len() > 0 {
        law_newest_first_sorted(s.drop_last());
        let prev = newest_first_spec(s.drop_last());
        let x = s.last();
        let p = newer_prefix(prev, x.created_at);
        lemma_newer_prefix(prev, x.created_at);
        let r = newest_first_spec(s);
        assert(r == prev.insert(p, x));
        assert forall|i: int, j: int| 0 <= i < j < r.len() implies #[trigger] r[i].created_at
            >= #[trigger] r[j].created_at by {
            if j < p {
                assert(r[i] == prev[i] && r[j] == prev[j]);
            } else if j == p {
                assert(r[i] == prev[i]);
            } else if i < p {
                assert(r[i] == prev[i] && r[j] == prev[j - 1]);
                assert(prev[p].created_at < x.created_at);
                assert(prev[p].created_at >= prev[j - 1].created_at || p == j - 1);
            } else if i == p {
                assert(r[j] == prev[j - 1]);
                assert(prev[p].created_at < x.created_at);
                assert(prev[p].created_at >= prev[j - 1].created_at || p == j - 1);
            } else {
                assert(r[i] == prev[i - 1] && r[j] == prev[j - 1]);
            }
        }
    }
}

/// Cancelling always leaves a job finished, and a finished job is left untouched;
/// a worker asked to run a cancelled job refuses it.
pub proof fn law_cancel_finishes(job: JobRecord, now: i64)
    ensures
        terminal(cancelled(job, now).status),
        terminal(job.status) ==> cancelled(job, now) == job,
        cancelled(cancelled(job, now), now) == cancelled(job, now),
{
}

/// A succeeded job hands out the artifact it was marked with.
pub proof fn law_succeeded_then_completed(
    job: JobRecord,
    session_id: String,
    path: String,
    now: i64,
)
    ensures
        completion_spec(succeeded(job, session_id, Some(path), now)) == Ok::<Seq<char>, Seq<char>>(
            path@,
        ),
        terminal(succeeded(job, session_id, Some(path), now).status),
{
}

} // verus!
