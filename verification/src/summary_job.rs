//! The job that mirrors a pull request's review figures into its summary
//! comment: its payload, its queue settings and the decisions around it.

use vstd::prelude::*;
use vstd::string::*;

use crate::github::SUMMARY_PENDING_TTL_SECS;
use crate::text::{decimal, decimal_text, drop_trailing, trim_end, uuid_hyphenated, uuid_text, Strip};

verus! {

/// The queue the job runs on.
pub const QUEUE_NAME: &'static str = "review_summary";

/// How often a failed run is retried.
pub const MAX_RETRIES: usize = 3;

/// How often the queue is polled, in seconds.
pub const POLL_INTERVAL_SECS: u64 = 2;

/// The pull request to update. Only ids and the number: jobs are stored in
/// plain text, so no token or other secret goes in.
#[derive(Debug, Clone, Copy, PartialEq, Eq, Structural)]
pub struct ReviewSummaryJob {
    pub project_id: u128,
    pub pr_number: i32,
}

/// The "update pending" flag outlives the wait in the queue by far (thirty
/// polls): otherwise it would expire before the job clears it, every later
/// transition would queue its own job, and the comment would be written again
/// and again without anything failing visibly.
pub proof fn lemma_pending_flag_outlives_the_queue_wait()
    ensures
        SUMMARY_PENDING_TTL_SECS >= POLL_INTERVAL_SECS * 30,
{
}

/// What setting the "update pending" flag gave.
#[derive(Debug, Clone, Copy, PartialEq, Eq, Structural)]
pub enum PendingFlag {
    /// Set now: queue the job.
    Marked,
    /// Already set: a queued job will read the latest state, so nothing is queued.
    AlreadyPending,
    /// The flag store failed: queue anyway (writing too often beats stalling).
    Unavailable,
}

/// Whether to queue the job after trying to set the flag.
pub fn should_enqueue(flag: PendingFlag) -> (r: bool)
    ensures
        r == (flag != PendingFlag::AlreadyPending),
{
    flag != PendingFlag::AlreadyPending
}

/// What came back on the way to queueing a summary update.
#[derive(Debug, Clone, Copy, PartialEq, Eq, Structural)]
pub enum EnqueueEvent {
    /// Setting the pull request's "update pending" flag gave this.
    Flagged(PendingFlag),
    /// The job is in the queue.
    Pushed,
    /// The job could not be pushed.
    PushFailed,
}

/// What to do next when queueing a summary update.
#[derive(Debug, Clone, Copy, PartialEq, Eq, Structural)]
pub enum EnqueueAction {
    /// Push this job.
    Push(ReviewSummaryJob),
    /// Clear the pending flag of this pull request (project, number): a flag
    /// left by a job that was never queued would swallow every update until it
    /// expires.
    ClearPending(u128, i32),
    /// Nothing more (failures are only logged: the request that caused the
    /// update has already succeeded).
    Done,
}

/// The next step of queueing the update `job`: push it unless an update is
/// already pending (a flag store that failed still queues it); once pushed,
/// done; when the push failed, clear the flag that was set for it.
pub fn enqueue_step(job: ReviewSummaryJob, event: EnqueueEvent) -> (r: EnqueueAction)
    ensures
        r == (match event {
            EnqueueEvent::Flagged(flag) => if flag == PendingFlag::AlreadyPending {
                EnqueueAction::Done
            } else {
                EnqueueAction::Push(job)
            },
            EnqueueEvent::Pushed => EnqueueAction::Done,
            EnqueueEvent::PushFailed => EnqueueAction::ClearPending(job.project_id, job.pr_number),
        }),
{
    match event {
        EnqueueEvent::Flagged(flag) => if should_enqueue(flag) {
            EnqueueAction::Push(job)
        } else {
            EnqueueAction::Done
        },
        EnqueueEvent::Pushed => EnqueueAction::Done,
        EnqueueEvent::PushFailed => EnqueueAction::ClearPending(job.project_id, job.pr_number),
    }
}

/// What came back while updating a summary comment.
#[derive(Debug, Clone, Copy, PartialEq, Eq, Structural)]
pub enum SummaryEvent {
    /// The job started (holding the pull request's update lock).
    Started,
    /// Clearing the pending flag finished; a failure is only logged.
    PendingCleared,
    /// Whether the GitHub app is configured and the project has an integration.
    Integration { app_configured: bool, linked: bool },
    /// How many rounds the pull request has under the current repository.
    Figures { rounds: i32 },
}

/// What the summary job does next.
#[derive(Debug, Clone, Copy, PartialEq, Eq, Structural)]
pub enum SummaryStep {
    /// Clear the pending flag, before any state is read: an update coming in
    /// after the read then queues a job of its own instead of being lost.
    ClearPending,
    /// Look up the app settings and the project's integration.
    ReadIntegration,
    /// Take an installation token, refresh the cached pull-request head (best
    /// effort) and read the figures of the pull request.
    ReadFigures,
    /// Render the summary and post or edit the comment.
    Post,
    /// Stop without posting.
    Skip,
}

/// The order of the summary job: clear the flag, then skip a project without
/// the app or an integration, then skip a pull request with no round under the
/// current repository (a repository linked anew starts with none), else post.
pub fn summary_step(event: SummaryEvent) -> (r: SummaryStep)
    ensures
        r == (match event {
            SummaryEvent::Started => SummaryStep::ClearPending,
            SummaryEvent::PendingCleared => SummaryStep::ReadIntegration,
            SummaryEvent::Integration { app_configured, linked } => if app_configured && linked {
                SummaryStep::ReadFigures
            } else {
                SummaryStep::Skip
            },
            SummaryEvent::Figures { rounds } => if rounds > 0 {
                SummaryStep::Post
            } else {
                SummaryStep::Skip
            },
        }),
{
    match event {
        SummaryEvent::Started => SummaryStep::ClearPending,
        SummaryEvent::PendingCleared => SummaryStep::ReadIntegration,
        SummaryEvent::Integration { app_configured, linked } => if app_configured && linked {
            SummaryStep::ReadFigures
        } else {
            SummaryStep::Skip
        },
        SummaryEvent::Figures { rounds } => if rounds > 0 {
            SummaryStep::Post
        } else {
            SummaryStep::Skip
        },
    }
}

/// The link to the findings of the pull request, below the application's
/// public URL (without its trailing slashes); none when no URL is configured.
pub fn findings_url(app_url: &str, project_id: u128, pr_number: i32) -> (r: Option<String>)
    ensures
        ({
            let base = drop_trailing(app_url@, Strip::Slash);
            if base.len() == 0 {
                r is None
            } else {
                r matches Some(u) && u@ == base + "/reviews?project="@ + uuid_hyphenated(project_id)
                    + "&pr="@ + decimal(pr_number as int)
            }
        }),
{
    let base = trim_end(app_url, Strip::Slash);
    if base.is_empty() {
        return None;
    }
    proof {
        reveal_strlit("/reviews?project=");
        reveal_strlit("&pr=");
    }
    let id = uuid_text(project_id);
    let n = decimal_text(pr_number as i64);
    Some(base.to_owned().concat("/reviews?project=").concat(id.as_str()).concat("&pr=").concat(n.as_str()))
}

/// The login of the application's bot account on GitHub.
pub fn bot_login(app_name: &str) -> (r: String)
    ensures
        r@ == app_name@ + "[bot]"@,
{
    proof {
        reveal_strlit("[bot]");
    }
    app_name.to_owned().concat("[bot]")
}

/// Whether the comment id used has to be remembered: when none was known or
/// another one was used.
pub fn comment_id_changed(known: Option<i64>, used: i64) -> (r: bool)
    ensures
        r == (known != Some(used)),
{
    match known {
        Some(k) => k != used,
        None => true,
    }
}

} // verus!
