use koyori_task::access::{Tenant, TenantMember, TenantRole};
use koyori_task::errors::AppError;
use koyori_task::reviews::{
    blocking_count, can_transition, cached_pr_head, current_repo, deferred_task_closing, deferred_task_draft,
    deferred_task_step, ensure_transition_allowed, is_reviewer_side, latest_head_sha, may_reject_on_behalf,
    next_round, owner_override_rejection_count, plan_transition, reopen_status, requires_finding_author,
    requires_reviewer_side, round_count, severity_state_counts, transitioned_finding, closed_task, is_live_in,
    reopened_task, transition_record, DeferredTaskStep, TransitionRecord,
    FindingSeverity, FindingState, GithubIntegration, RepoRef, ReviewError, ReviewFinding, ReviewRound,
    TaskClosing,
};
use koyori_task::tasks::{ProjectStatus, Task, TaskPriority};
use koyori_task::reviews::FindingState::{Deferred, Fixed, Open, Rejected, Verified};

const PROJECT: u128 = 10;

fn repo() -> RepoRef {
    RepoRef { integration_id: Some(1), owner: "acme".into(), name: "backend".into() }
}

fn round(id: u128, pr: i32, number: i32, reviewer: u128) -> ReviewRound {
    ReviewRound {
        id,
        project_id: PROJECT,
        pr_number: pr,
        round: number,
        head_sha: format!("sha-{number}"),
        reviewer_id: reviewer,
        integration_id: Some(1),
        repo_owner: "acme".into(),
        repo_name: "backend".into(),
        pr_head_sha: Some(format!("head-{number}")),
        pr_head_checked_at: Some(1000 + number as i64),
    }
}

fn finding(review_id: u128, severity: FindingSeverity, state: FindingState) -> ReviewFinding {
    ReviewFinding {
        id: 500 + review_id,
        review_id,
        severity,
        title: "認可が抜けている".into(),
        body: "手順".into(),
        file: None,
        line: None,
        state,
        deferred_task_id: None,
        fixed_by: None,
        updated_at: 0,
    }
}

/// 遷移表そのものの固定。
#[test]
fn transition_table_matches_the_spec() {
    let allowed = [
        (Open, Fixed),
        (Fixed, Verified),
        (Fixed, Open),
        (Open, Deferred),
        (Deferred, Open),
        (Open, Rejected),
        (Rejected, Open),
    ];
    for (from, to) in allowed {
        assert!(can_transition(from, to), "{from:?} -> {to:?} は許される");
    }
    for to in [Open, Fixed, Deferred, Rejected] {
        assert!(!can_transition(Verified, to), "verified -> {to:?} は許されない");
    }
    assert!(!can_transition(Open, Verified));
    assert!(!can_transition(Deferred, Fixed));
    for state in [Open, Fixed, Verified, Deferred, Rejected] {
        assert!(!can_transition(state, state), "{state:?} -> 自分自身");
    }
}

#[test]
fn conflicts_carry_the_reason_in_the_body() {
    let message = |err: ReviewError| match AppError::from_review_error(err) {
        AppError::ConflictDetail(message) => message,
        other => panic!("409 の詳細になっていない: {other:?}"),
    };

    let deferring_high = message(ReviewError::NotDeferrable(FindingSeverity::High));
    assert!(
        deferring_high.contains("high") && deferring_high.contains("繰り延べ"),
        "何が繰り延べられないのか分かる: {deferring_high}"
    );

    let skipping_fixed = message(ReviewError::InvalidTransition { from: Open, to: Verified });
    assert!(
        skipping_fixed.contains("open") && skipping_fixed.contains("verified"),
        "どの遷移が通らないのか分かる: {skipping_fixed}"
    );

    assert!(matches!(AppError::from_review_error(ReviewError::SelfVerification), AppError::Forbidden));
}

#[test]
fn only_low_and_nit_can_be_deferred() {
    for severity in [FindingSeverity::High, FindingSeverity::Medium] {
        assert!(!severity.can_defer(), "{severity:?} は繰り延べられない（マージ基準を迂回できてしまう）");
    }
    for severity in [FindingSeverity::Low, FindingSeverity::Nit] {
        assert!(severity.can_defer(), "{severity:?} は繰り延べられる");
    }
    for severity in [FindingSeverity::High, FindingSeverity::Medium, FindingSeverity::Low, FindingSeverity::Nit] {
        assert_eq!(severity.can_defer(), !severity.blocks_merge());
    }
}

#[test]
fn reviewer_only_transitions_are_the_verification_side() {
    assert!(requires_reviewer_side(Fixed, Verified));
    assert!(requires_reviewer_side(Fixed, Open));
    assert!(!requires_reviewer_side(Open, Fixed));
    assert!(!requires_reviewer_side(Open, Deferred));
    assert!(!requires_reviewer_side(Deferred, Open));
}

#[test]
fn rejecting_is_limited_to_the_author_of_the_finding() {
    assert!(requires_finding_author(Open, Rejected));
    assert!(requires_finding_author(Rejected, Open));
    assert!(!requires_reviewer_side(Open, Rejected));
    assert!(!requires_reviewer_side(Rejected, Open));
    assert!(!requires_finding_author(Fixed, Verified));
    assert!(!requires_finding_author(Fixed, Open));
    for (from, to) in [(Open, Fixed), (Open, Deferred), (Deferred, Open)] {
        assert!(!requires_finding_author(from, to));
        assert!(!requires_reviewer_side(from, to));
    }
}

#[test]
fn blocking_counts_only_unresolved_high_and_medium() {
    let counts = vec![
        (FindingSeverity::High, Open, 1),
        (FindingSeverity::Medium, Fixed, 2),
        (FindingSeverity::High, Verified, 5),
        (FindingSeverity::Medium, Rejected, 7),
        (FindingSeverity::Low, Open, 11),
        (FindingSeverity::Nit, Fixed, 13),
    ];
    assert_eq!(blocking_count(&counts), 3);
}

#[test]
fn state_and_severity_names_are_lower_case() {
    assert_eq!(FindingState::Deferred.as_str(), "deferred");
    assert_eq!(FindingSeverity::Medium.as_str(), "medium");
    assert!(FindingState::Fixed.counts_as_unresolved());
    assert!(!FindingState::Deferred.counts_as_unresolved());
}

#[test]
fn rounds_are_numbered_per_pull_request_and_repository() {
    let mut rounds = vec![round(1, 618, 1, 7), round(2, 618, 2, 8), round(3, 700, 1, 7)];
    let mut other_repo = round(4, 618, 5, 7);
    other_repo.repo_name = "frontend".into();
    rounds.push(other_repo);

    assert_eq!(round_count(&rounds, PROJECT, &repo(), 618), 2);
    assert_eq!(next_round(&rounds, PROJECT, &repo(), 618), 3);
    assert_eq!(next_round(&rounds, PROJECT, &repo(), 999), 1);
    assert_eq!(latest_head_sha(&rounds, PROJECT, &repo(), 618).as_deref(), Some("sha-2"));
    assert_eq!(latest_head_sha(&rounds, PROJECT, &repo(), 999), None);
    assert_eq!(cached_pr_head(&rounds, PROJECT, &repo(), 618), (Some("head-2".to_string()), Some(1002)));
    assert_eq!(cached_pr_head(&rounds, PROJECT, &repo(), 999), (None, None));

    // the new round becomes the latest
    rounds.push(round(5, 618, 3, 9));
    assert_eq!(round_count(&rounds, PROJECT, &repo(), 618), 3);
}

#[test]
fn the_current_repository_follows_the_link() {
    let unlinked = current_repo(None);
    assert!(!unlinked.is_linked());
    assert_eq!(unlinked, RepoRef::unlinked());
    let link = GithubIntegration {
        id: 3,
        project_id: PROJECT,
        installation_id: 44,
        repo_owner: "acme".into(),
        repo_name: "backend".into(),
        created_by: 7,
    };
    let linked = current_repo(Some(&link));
    assert!(linked.is_linked());
    assert_eq!(linked.integration_id, Some(3));
    assert_eq!(RepoRef::of_round(&round(1, 618, 1, 7)).name, "backend");
}

#[test]
fn later_round_authors_are_on_the_reviewer_side() {
    let rounds = vec![round(1, 618, 1, 7), round(2, 618, 2, 8)];
    assert!(is_reviewer_side(&rounds, PROJECT, &repo(), 618, 1, 8));
    assert!(is_reviewer_side(&rounds, PROJECT, &repo(), 618, 1, 7));
    // the author of an earlier round does not judge a later one
    assert!(!is_reviewer_side(&rounds, PROJECT, &repo(), 618, 2, 7));
    // another repository's rounds do not count
    let other = RepoRef { integration_id: None, owner: String::new(), name: String::new() };
    assert!(!is_reviewer_side(&rounds, PROJECT, &other, 618, 1, 8));
}

fn tenant() -> Tenant {
    Tenant { id: 77, owner_id: 1 }
}

fn member(user: u128) -> TenantMember {
    TenantMember { id: 900 + user, tenant_id: 77, user_id: user, role: TenantRole::Member }
}

#[test]
fn the_owner_withdraws_only_for_an_author_who_left() {
    let review = round(1, 618, 1, 7);
    assert!(!may_reject_on_behalf(&review, Some(tenant()), &[member(7)], 1));
    assert!(may_reject_on_behalf(&review, Some(tenant()), &[], 1));
    assert!(!may_reject_on_behalf(&review, Some(tenant()), &[], 2));
    assert!(!may_reject_on_behalf(&review, None, &[], 1));
    let by_owner = round(2, 618, 1, 1);
    assert!(!may_reject_on_behalf(&by_owner, Some(tenant()), &[], 1));
}

#[test]
fn each_refusal_has_its_reason() {
    let review = round(1, 618, 1, 7);
    let rounds = vec![review.clone()];
    let members = [member(7), member(8)];
    let check = |f: &ReviewFinding, to, actor| {
        ensure_transition_allowed(f, &review, to, actor, &rounds, Some(tenant()), &members)
    };

    let open = finding(1, FindingSeverity::High, Open);
    assert_eq!(check(&open, Verified, 7), Err(ReviewError::InvalidTransition { from: Open, to: Verified }));
    assert_eq!(check(&open, Deferred, 7), Err(ReviewError::NotDeferrable(FindingSeverity::High)));
    assert_eq!(check(&open, Rejected, 8), Err(ReviewError::FindingAuthorOnly));
    assert_eq!(check(&open, Rejected, 7), Ok(()));
    assert_eq!(check(&open, Fixed, 8), Ok(()));

    let mut fixed = finding(1, FindingSeverity::High, Fixed);
    fixed.fixed_by = Some(7);
    assert_eq!(check(&fixed, Verified, 7), Err(ReviewError::SelfVerification));
    fixed.fixed_by = Some(9);
    assert_eq!(check(&fixed, Verified, 8), Err(ReviewError::ReviewerOnly));
    assert_eq!(check(&fixed, Verified, 7), Ok(()));
    assert_eq!(check(&fixed, Open, 8), Err(ReviewError::ReviewerOnly));

    let low = finding(1, FindingSeverity::Low, Open);
    assert_eq!(check(&low, Deferred, 8), Ok(()));
}

#[test]
fn the_fixer_cannot_verify_after_a_send_back() {
    let f = finding(1, FindingSeverity::Medium, Open);
    let fixed = transitioned_finding(f, Fixed, 8, DeferredTaskStep::Keep, None, 10);
    assert_eq!(fixed.fixed_by, Some(8));
    let back = transitioned_finding(fixed, Open, 7, DeferredTaskStep::Keep, None, 11);
    assert_eq!(back.fixed_by, Some(8));
    assert_eq!(back.updated_at, 11);
    let again = transitioned_finding(back, Fixed, 8, DeferredTaskStep::Keep, None, 12);
    let review = round(1, 618, 1, 7);
    let rounds = vec![round(1, 618, 1, 7), round(2, 618, 2, 8)];
    assert_eq!(
        ensure_transition_allowed(&again, &review, Verified, 8, &rounds, Some(tenant()), &[]),
        Err(ReviewError::SelfVerification)
    );
}

#[test]
fn deferring_creates_a_task_and_reverting_closes_it() {
    let low = finding(1, FindingSeverity::Nit, Open);
    assert_eq!(deferred_task_step(&low, Deferred, false), DeferredTaskStep::Create);
    let deferred = transitioned_finding(low, Deferred, 7, DeferredTaskStep::Create, Some(42), 1);
    assert_eq!(deferred.deferred_task_id, Some(42));
    let step = deferred_task_step(&deferred, Open, true);
    assert_eq!(step, DeferredTaskStep::Close(42));
    let reverted = transitioned_finding(deferred, Open, 7, step, None, 2);
    assert_eq!(reverted.state, Open);
    assert_eq!(reverted.deferred_task_id, None);
    assert_eq!(deferred_task_step(&reverted, Deferred, false), DeferredTaskStep::Create);
    assert_eq!(deferred_task_step(&reverted, Fixed, false), DeferredTaskStep::Keep);
}

#[test]
fn a_finding_still_linked_to_a_live_task_reopens_it() {
    let mut linked = finding(1, FindingSeverity::Low, Open);
    linked.deferred_task_id = Some(42);
    assert_eq!(deferred_task_step(&linked, Deferred, true), DeferredTaskStep::Reopen(42));
    assert_eq!(deferred_task_step(&linked, Deferred, false), DeferredTaskStep::Create);
}

#[test]
fn reverting_completes_or_deletes_only_a_live_task() {
    let task = Task {
        id: 42,
        project_id: PROJECT,
        title: "[レビュー指摘] x".to_string(),
        description: None,
        status_id: 1,
        completed_at: None,
        deleted_at: None,
    };
    assert!(is_live_in(Some(&task), PROJECT));
    assert!(!is_live_in(Some(&task), PROJECT + 1));
    assert!(!is_live_in(None, PROJECT));
    let done = closed_task(Some(task.clone()), PROJECT, TaskClosing::Complete(9), 100).unwrap();
    assert_eq!((done.status_id, done.completed_at, done.deleted_at), (9, Some(100), None));
    let gone = closed_task(Some(task.clone()), PROJECT, TaskClosing::SoftDelete, 100).unwrap();
    assert_eq!((gone.status_id, gone.completed_at, gone.deleted_at), (1, None, Some(100)));
    assert_eq!(closed_task(Some(gone.clone()), PROJECT, TaskClosing::Complete(9), 200), None);
    assert_eq!(closed_task(None, PROJECT, TaskClosing::Complete(9), 200), None);
    let reopened = reopened_task(done, 3);
    assert_eq!((reopened.id, reopened.status_id, reopened.completed_at), (42, 3, None));
}

#[test]
fn every_transition_leaves_a_history_row() {
    let f = finding(5, FindingSeverity::High, Open);
    let row = transition_record(&f, Fixed, 8, Some("done".to_string()));
    assert_eq!(
        row,
        TransitionRecord {
            finding_id: f.id,
            actor_id: 8,
            from_state: Some(Open),
            to_state: Fixed,
            note: Some("done".to_string()),
        }
    );
}

#[test]
fn a_planned_transition_is_checked_first() {
    let review = round(1, 618, 1, 7);
    let rounds = vec![review.clone()];
    let high = finding(1, FindingSeverity::High, Open);
    assert_eq!(
        plan_transition(&high, &review, Deferred, 7, &rounds, Some(tenant()), &[], false),
        Err(ReviewError::NotDeferrable(FindingSeverity::High))
    );
    let low = finding(1, FindingSeverity::Low, Open);
    assert_eq!(
        plan_transition(&low, &review, Deferred, 7, &rounds, Some(tenant()), &[], false),
        Ok(DeferredTaskStep::Create)
    );
}

fn statuses() -> Vec<ProjectStatus> {
    vec![
        ProjectStatus { id: 1, project_id: PROJECT, position: 3, is_default: true, is_done_state: false },
        ProjectStatus { id: 2, project_id: PROJECT, position: 1, is_default: true, is_done_state: false },
        ProjectStatus { id: 3, project_id: PROJECT, position: 9, is_default: false, is_done_state: true },
        ProjectStatus { id: 4, project_id: 99, position: 0, is_default: true, is_done_state: true },
    ]
}

#[test]
fn the_deferred_task_copies_the_finding() {
    let review = round(1, 618, 2, 7);
    let mut f = finding(1, FindingSeverity::Low, Open);
    f.title = "命名が揺れている".into();
    f.body = "本文".into();
    f.file = Some("src/lib.rs".into());
    f.line = Some(12);
    let draft = deferred_task_draft(PROJECT, &f, &review, &statuses(), 7).unwrap();
    assert_eq!(draft.title, "[レビュー指摘] 命名が揺れている");
    assert_eq!(
        draft.description.as_deref(),
        Some("PR #618 R2 のレビュー指摘（Low）を繰り延べたタスク。\n\n本文\n\n対象: `src/lib.rs:12`")
    );
    assert_eq!(draft.status_id, 2);
    assert_eq!(draft.priority, TaskPriority::Low);
    assert_eq!(draft.created_by, 7);

    f.line = None;
    let draft = deferred_task_draft(PROJECT, &f, &review, &statuses(), 7).unwrap();
    assert!(draft.description.unwrap().ends_with("\n\n対象: `src/lib.rs`"));
    f.file = None;
    let draft = deferred_task_draft(PROJECT, &f, &review, &statuses(), 7).unwrap();
    assert!(draft.description.unwrap().ends_with("本文"));

    assert_eq!(deferred_task_draft(5, &f, &review, &statuses(), 7), Err(ReviewError::NoDefaultStatus(5)));
    assert_eq!(
        AppError::from_review_error(ReviewError::NoDefaultStatus(5)),
        AppError::ConflictDetail("プロジェクトに既定ステータスが無いため、繰り延べ先のタスクを作れません".into())
    );
}

#[test]
fn deferred_tasks_reopen_and_close_by_status() {
    assert_eq!(reopen_status(&statuses(), PROJECT), Ok(2));
    assert_eq!(reopen_status(&statuses(), 5), Err(ReviewError::NoDefaultStatus(5)));
    assert_eq!(deferred_task_closing(&statuses(), PROJECT), TaskClosing::Complete(3));
    assert_eq!(deferred_task_closing(&statuses()[..2], PROJECT), TaskClosing::SoftDelete);
}

#[test]
fn owner_overrides_are_counted_apart() {
    let rounds = vec![round(1, 618, 1, 7), round(2, 618, 2, 8), round(3, 700, 1, 7)];
    // (round of the finding, who rejected it)
    let rows = [(1, 7), (1, 1), (2, 1), (2, 8), (3, 1), (99, 1)];
    assert_eq!(owner_override_rejection_count(&rounds, PROJECT, &repo(), 618, &rows), 2);
    assert_eq!(owner_override_rejection_count(&[], PROJECT, &repo(), 618, &rows), 0);
}

#[test]
fn figures_count_only_the_pull_request() {
    let rounds = vec![round(1, 618, 1, 7), round(2, 618, 2, 8), round(3, 700, 1, 7)];
    let findings = vec![
        finding(1, FindingSeverity::High, Open),
        finding(2, FindingSeverity::High, Open),
        finding(2, FindingSeverity::Medium, Fixed),
        finding(1, FindingSeverity::Low, Deferred),
        finding(3, FindingSeverity::High, Open),
    ];
    let counts = severity_state_counts(&findings, &rounds, PROJECT, &repo(), 618);
    assert_eq!(
        counts,
        vec![
            (FindingSeverity::High, Open, 2),
            (FindingSeverity::Medium, Fixed, 1),
            (FindingSeverity::Low, Deferred, 1),
        ]
    );
    assert_eq!(blocking_count(&counts), 3);
    assert!(severity_state_counts(&findings, &rounds, PROJECT, &repo(), 1).is_empty());
}

#[test]
fn blocking_counts_add_up_in_any_order() {
    let a = vec![(FindingSeverity::High, Open, 3), (FindingSeverity::Low, Open, 5)];
    let b = vec![(FindingSeverity::Medium, Fixed, 4), (FindingSeverity::High, Verified, 9)];
    let joined: Vec<_> = a.iter().chain(b.iter()).copied().collect();
    assert_eq!(blocking_count(&joined), blocking_count(&a) + blocking_count(&b));
    assert_eq!(blocking_count(&joined), 7);
    let mut reversed = joined.clone();
    reversed.reverse();
    assert_eq!(blocking_count(&reversed), 7);
    assert_eq!(blocking_count(&[]), 0);
}
