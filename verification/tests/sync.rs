use koyori_task::github::GithubIssue;
use koyori_task::sync::{
    description_of, event_issue, importable_issues, is_synced_action, issue_state, issue_sync_step, next_issue_page,
    plan_issue_apply, plan_push, push_needed, resolve_status, synced_completed_at, IssueLink,
    IssueSync, IssueWrite, PushStep, SyncError, SyncedContent,
};
use koyori_task::tasks::{ProjectStatus, Task, TaskPriority};

fn content(title: &str, body: &str, closed: bool) -> SyncedContent {
    SyncedContent { title: title.to_string(), body: body.to_string(), closed }
}

fn issue(number: i32, title: &str, body: Option<&str>, state: &str) -> GithubIssue {
    GithubIssue {
        number,
        title: title.to_string(),
        body: body.map(|b| b.to_string()),
        state: state.to_string(),
        pull_request: false,
    }
}

fn status(id: u128, project_id: u128, position: i32, is_default: bool, is_done_state: bool) -> ProjectStatus {
    ProjectStatus { id, project_id, position, is_default, is_done_state }
}

fn statuses() -> Vec<ProjectStatus> {
    vec![
        status(10, 1, 2, true, false),
        status(11, 1, 0, true, false),
        status(12, 1, 5, false, true),
        status(13, 2, 0, true, true),
    ]
}

fn task(id: u128, title: &str, description: Option<&str>, completed_at: Option<i64>) -> Task {
    Task {
        id,
        project_id: 1,
        title: title.to_string(),
        description: description.map(|d| d.to_string()),
        status_id: 10,
        completed_at,
        deleted_at: None,
    }
}

fn link(task_id: u128, number: i32, synced_hash: &str) -> IssueLink {
    IssueLink { id: 50, project_id: 1, task_id, github_number: number, synced_hash: synced_hash.to_string() }
}

#[test]
fn same_content_from_both_sides_hashes_equal() {
    let issue = issue(1, "ログインが落ちる", Some("手順:"), "closed");
    let from_github = SyncedContent::from_issue(&issue);
    let from_task = content("ログインが落ちる", "手順:", true);
    assert_eq!(from_github.hash(), from_task.hash());
}

#[test]
fn null_body_and_empty_body_hash_equal() {
    let issue = issue(1, "t", None, "open");
    assert_eq!(SyncedContent::from_issue(&issue).hash(), content("t", "", false).hash());
}

#[test]
fn each_field_changes_the_hash() {
    let base = content("t", "b", false);
    assert_ne!(base.hash(), content("t2", "b", false).hash());
    assert_ne!(base.hash(), content("t", "b2", false).hash());
    assert_ne!(base.hash(), content("t", "b", true).hash());
}

#[test]
fn field_boundaries_are_separated() {
    assert_ne!(content("ab", "", false).hash(), content("a", "b", false).hash());
}

#[test]
fn empty_body_becomes_null_description() {
    assert_eq!(description_of(""), None);
    assert_eq!(description_of("x"), Some("x".to_string()));
}

#[test]
fn the_hash_is_the_sha256_of_the_separated_fields() {
    assert_eq!(
        content("t", "b", false).hash(),
        "7fd721424f738f3de0c0f775b74640c22bca64917c0ac9476c1e8646757dbd80"
    );
    assert_eq!(content("", "", true).hash().len(), 64);
    assert_eq!(
        content("ログインが落ちる", "手順:", true).hash(),
        "50fb5dc0e55f558d1e02b90c33c9029c730b41e96b263bbfe1ad65eb911123f7"
    );
}

#[test]
fn a_task_and_its_issue_hash_alike() {
    let t = task(7, "t", None, None);
    let from_task = SyncedContent::from_task(&t, false);
    let from_issue = SyncedContent::from_issue(&issue(3, "t", Some(""), "open"));
    assert_eq!(from_task, from_issue);
    assert_eq!(from_task.hash(), from_issue.hash());
}

#[test]
fn statuses_resolve_by_position() {
    let list = statuses();
    assert_eq!(resolve_status(&list, 1, false).unwrap().id, 11);
    assert_eq!(resolve_status(&list, 1, true).unwrap().id, 12);
    assert_eq!(resolve_status(&list, 2, true).unwrap().id, 13);
    assert_eq!(resolve_status(&list, 3, false), Err(SyncError::NoStatus { project_id: 3, done: false }));
}

#[test]
fn equal_positions_keep_the_first_listed_status() {
    let list = vec![status(20, 1, 1, true, false), status(21, 1, 1, true, false)];
    assert_eq!(resolve_status(&list, 1, false).unwrap().id, 20);
}

#[test]
fn the_sync_step_follows_the_link() {
    let hash = content("t", "", false).hash();
    assert_eq!(issue_sync_step(None, &hash), IssueSync::Create);
    assert_eq!(issue_sync_step(Some(&link(7, 3, &hash)), &hash), IssueSync::Unchanged);
    assert_eq!(issue_sync_step(Some(&link(7, 3, "old")), &hash), IssueSync::Update(7));
}

#[test]
fn completion_time_follows_the_issue_state() {
    assert_eq!(synced_completed_at(true, Some(5), 9), Some(5));
    assert_eq!(synced_completed_at(true, None, 9), Some(9));
    assert_eq!(synced_completed_at(false, Some(5), 9), None);
}

#[test]
fn a_new_issue_files_a_medium_task() {
    let i = issue(3, "bug", Some(""), "closed");
    let hash = SyncedContent::from_issue(&i).hash();
    let planned = plan_issue_apply(1, &i, None, None, &statuses(), 99, 1000).unwrap();
    assert_eq!(
        planned,
        IssueWrite::Create {
            title: "bug".to_string(),
            description: None,
            status_id: 12,
            priority: TaskPriority::Medium,
            completed_at: Some(1000),
            created_by: 99,
            github_number: 3,
            synced_hash: hash,
        }
    );
}

#[test]
fn a_synced_issue_writes_nothing() {
    let i = issue(3, "bug", Some("detail"), "open");
    let hash = SyncedContent::from_issue(&i).hash();
    let l = link(7, 3, &hash);
    let t = task(7, "bug", Some("detail"), None);
    assert_eq!(plan_issue_apply(1, &i, Some(&l), Some(&t), &statuses(), 99, 1000), Ok(IssueWrite::Unchanged));
}

#[test]
fn a_changed_issue_updates_its_task() {
    let i = issue(3, "bug v2", Some("detail"), "closed");
    let hash = SyncedContent::from_issue(&i).hash();
    let l = link(7, 3, "old");
    let t = task(7, "bug", None, Some(400));
    let planned = plan_issue_apply(1, &i, Some(&l), Some(&t), &statuses(), 99, 1000).unwrap();
    assert_eq!(
        planned,
        IssueWrite::Update {
            task_id: 7,
            title: "bug v2".to_string(),
            description: Some("detail".to_string()),
            status_id: 12,
            completed_at: Some(400),
            synced_hash: hash,
        }
    );
}

#[test]
fn applying_reports_a_vanished_task_and_a_missing_status() {
    let i = issue(3, "bug", None, "open");
    let l = link(7, 3, "old");
    assert_eq!(
        plan_issue_apply(1, &i, Some(&l), None, &statuses(), 99, 1000),
        Err(SyncError::LinkedTaskGone(7))
    );
    assert_eq!(
        plan_issue_apply(4, &i, None, None, &statuses(), 99, 1000),
        Err(SyncError::NoStatus { project_id: 4, done: false })
    );
}

#[test]
fn pushing_writes_only_changed_live_tasks() {
    let t = task(7, "bug", Some("detail"), None);
    let done = status(12, 1, 5, false, true);
    let c = SyncedContent::from_task(&t, true);
    let hash = c.hash();
    let stale = link(7, 3, "old");
    assert_eq!(
        plan_push(Some(&stale), Some(&t), Some(&done)),
        Ok(PushStep::Push { number: 3, content: c.clone(), synced_hash: hash.clone() })
    );
    assert!(push_needed(&stale, &c));
    let fresh = link(7, 3, &hash);
    assert_eq!(plan_push(Some(&fresh), Some(&t), Some(&done)), Ok(PushStep::Nothing));
    assert!(!push_needed(&fresh, &c));
    assert_eq!(plan_push(None, Some(&t), Some(&done)), Ok(PushStep::Nothing));
    assert_eq!(plan_push(Some(&stale), None, Some(&done)), Ok(PushStep::Nothing));
    let mut deleted = t.clone();
    deleted.deleted_at = Some(1);
    assert_eq!(plan_push(Some(&stale), Some(&deleted), Some(&done)), Ok(PushStep::Nothing));
    assert_eq!(plan_push(Some(&stale), Some(&t), None), Err(SyncError::MissingStatus(7)));
}

#[test]
fn issue_states_and_actions() {
    assert_eq!(issue_state(true), "closed");
    assert_eq!(issue_state(false), "open");
    for action in ["opened", "edited", "closed", "reopened"] {
        assert!(is_synced_action(action));
    }
    assert!(!is_synced_action("deleted"));
    assert!(!is_synced_action("labeled"));
}

#[test]
fn issue_pages_stop_at_a_short_page() {
    assert_eq!(next_issue_page(1, 100), Some(2));
    assert_eq!(next_issue_page(3, 99), None);
    assert_eq!(next_issue_page(1, 0), None);
}

#[test]
fn webhook_events_apply_only_synced_issue_actions() {
    let plain = issue(8, "bug", Some("detail"), "closed");
    let mut pr = issue(7, "feat", None, "open");
    pr.pull_request = true;
    assert_eq!(event_issue("edited", Some(plain.clone())), Some(plain.clone()));
    assert_eq!(event_issue("deleted", Some(plain.clone())), None);
    assert_eq!(event_issue("opened", Some(pr)), None);
    assert_eq!(event_issue("opened", None), None);
}

#[test]
fn an_import_skips_pull_requests_and_keeps_the_order() {
    let mut pr = issue(2, "feat", None, "open");
    pr.pull_request = true;
    let page = vec![issue(1, "a", None, "open"), pr, issue(3, "c", Some("x"), "closed")];
    let kept: Vec<i32> = importable_issues(page).into_iter().map(|i| i.number).collect();
    assert_eq!(kept, vec![1, 3]);
    assert!(importable_issues(Vec::new()).is_empty());
}

#[test]
fn an_imported_issue_is_not_pushed_back() {
    let i = issue(3, "bug", Some(""), "closed");
    let planned = plan_issue_apply(1, &i, None, None, &statuses(), 99, 1000).unwrap();
    let IssueWrite::Create { title, description, status_id, synced_hash, .. } = planned else {
        panic!("a new issue files a task");
    };
    let stored = Task {
        id: 70,
        project_id: 1,
        title,
        description,
        status_id,
        completed_at: Some(1000),
        deleted_at: None,
    };
    let done = statuses().into_iter().find(|s| s.id == status_id).unwrap();
    let l = link(70, 3, &synced_hash);
    assert_eq!(plan_push(Some(&l), Some(&stored), Some(&done)), Ok(PushStep::Nothing));
}

#[test]
fn a_pushed_task_is_not_imported_back() {
    let t = task(7, "renamed", Some("new body"), None);
    let open = status(11, 1, 0, true, false);
    let PushStep::Push { number, content, synced_hash } =
        plan_push(Some(&link(7, 3, "old")), Some(&t), Some(&open)).unwrap()
    else {
        panic!("a changed task is pushed");
    };
    let on_github = issue(number, &content.title, Some(&content.body), issue_state(content.closed));
    let l = link(7, number, &synced_hash);
    assert_eq!(
        plan_issue_apply(1, &on_github, Some(&l), Some(&t), &statuses(), 99, 1000),
        Ok(IssueWrite::Unchanged)
    );
}
