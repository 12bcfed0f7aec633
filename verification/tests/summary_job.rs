use koyori_task::github::SUMMARY_PENDING_TTL_SECS;
use koyori_task::summary_job::{
    bot_login, comment_id_changed, enqueue_step, findings_url, should_enqueue, summary_step, EnqueueAction,
    EnqueueEvent, PendingFlag, ReviewSummaryJob, SummaryEvent, SummaryStep, MAX_RETRIES, POLL_INTERVAL_SECS, QUEUE_NAME,
};

#[test]
fn the_job_carries_only_the_project_and_the_number() {
    let job = ReviewSummaryJob { project_id: 7, pr_number: 618 };
    let ReviewSummaryJob { project_id, pr_number } = job;
    assert_eq!((project_id, pr_number), (7, 618));
}

#[test]
fn the_pending_flag_outlives_the_queue_wait() {
    assert!(SUMMARY_PENDING_TTL_SECS >= POLL_INTERVAL_SECS * 30);
    assert_eq!(QUEUE_NAME, "review_summary");
    assert_eq!(MAX_RETRIES, 3);
}

#[test]
fn only_a_pending_flag_skips_the_queue() {
    assert!(should_enqueue(PendingFlag::Marked));
    assert!(should_enqueue(PendingFlag::Unavailable));
    assert!(!should_enqueue(PendingFlag::AlreadyPending));
}

#[test]
fn findings_links_point_below_the_app_url() {
    assert_eq!(
        findings_url("https://task.example/", 0x0123456789abcdef0123456789abcdef, 618).as_deref(),
        Some("https://task.example/reviews?project=01234567-89ab-cdef-0123-456789abcdef&pr=618")
    );
    assert_eq!(findings_url("", 1, 1), None);
    assert_eq!(findings_url("///", 1, 1), None);
}

#[test]
fn the_bot_login_carries_the_suffix() {
    assert_eq!(bot_login("koyori"), "koyori[bot]");
}

#[test]
fn a_new_comment_id_is_remembered() {
    assert!(comment_id_changed(None, 5));
    assert!(comment_id_changed(Some(4), 5));
    assert!(!comment_id_changed(Some(5), 5));
}

#[test]
fn a_failed_push_clears_the_flag_it_set() {
    let job = ReviewSummaryJob { project_id: 7, pr_number: 618 };
    assert_eq!(enqueue_step(job, EnqueueEvent::Flagged(PendingFlag::Marked)), EnqueueAction::Push(job));
    assert_eq!(enqueue_step(job, EnqueueEvent::Flagged(PendingFlag::Unavailable)), EnqueueAction::Push(job));
    assert_eq!(enqueue_step(job, EnqueueEvent::Flagged(PendingFlag::AlreadyPending)), EnqueueAction::Done);
    assert_eq!(enqueue_step(job, EnqueueEvent::Pushed), EnqueueAction::Done);
    assert_eq!(enqueue_step(job, EnqueueEvent::PushFailed), EnqueueAction::ClearPending(7, 618));
}

#[test]
fn the_summary_job_clears_the_flag_first_and_skips_what_it_cannot_post() {
    assert_eq!(summary_step(SummaryEvent::Started), SummaryStep::ClearPending);
    assert_eq!(summary_step(SummaryEvent::PendingCleared), SummaryStep::ReadIntegration);
    assert_eq!(
        summary_step(SummaryEvent::Integration { app_configured: true, linked: false }),
        SummaryStep::Skip
    );
    assert_eq!(
        summary_step(SummaryEvent::Integration { app_configured: false, linked: true }),
        SummaryStep::Skip
    );
    assert_eq!(
        summary_step(SummaryEvent::Integration { app_configured: true, linked: true }),
        SummaryStep::ReadFigures
    );
    assert_eq!(summary_step(SummaryEvent::Figures { rounds: 0 }), SummaryStep::Skip);
    assert_eq!(summary_step(SummaryEvent::Figures { rounds: 2 }), SummaryStep::Post);
}
