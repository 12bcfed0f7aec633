use koyori_task::cli::{
    accept_token, borrow, join_path, parse_priority, read_body_from_file, resolve_body,
    resolve_runtime_with, sprint_id_by_name, sprint_path, sprints_path, task_path, tasks_path,
    token_from_argument, update_request, done_request, CliError, ConfigStore, RuntimeConfig,
    SprintSummary, TaskConfig, UpdateFields, CONFIG_KEYS,
};
use koyori_task::tasks::TaskPriority;

const PROJECT: u128 = 0x0123456789abcdef0123456789abcdef;

fn store() -> ConfigStore {
    ConfigStore::from_home("/home/someone")
}

fn file_config() -> TaskConfig {
    TaskConfig {
        api_url: Some("https://file.invalid".into()),
        token: Some("file-token".into()),
        tenant_id: Some("file-tenant".into()),
    }
}

#[test]
fn reads_a_file_and_drops_only_the_trailing_newline() {
    let body =
        read_body_from_file("/tmp/body.md", "description", Ok("## 見出し\n\n  字下げは残す\n".to_string()))
            .unwrap();
    assert_eq!(body, "## 見出し\n\n  字下げは残す");
}

#[test]
fn keeps_blank_lines_inside_the_body() {
    let body =
        read_body_from_file("/tmp/body.md", "description", Ok("1 行目\n\n\n4 行目\n\n\n".to_string())).unwrap();
    assert_eq!(body, "1 行目\n\n\n4 行目");
}

#[test]
fn carriage_returns_at_the_end_go_too() {
    let body = read_body_from_file("-", "comment", Ok("line\r\n\r\n".to_string())).unwrap();
    assert_eq!(body, "line");
}

#[test]
fn reports_the_path_when_the_file_is_missing() {
    let err = read_body_from_file(
        "/does/not/exist",
        "description",
        Err("No such file or directory (os error 2)".to_string()),
    )
    .unwrap_err();
    assert!(err.message.contains("/does/not/exist"), "path should be in the message: {}", err.message);
    assert_eq!(
        err,
        CliError {
            message: "Cannot read the description from /does/not/exist: No such file or directory (os error 2)"
                .to_string(),
            exit_code: 1,
        }
    );
}

#[test]
fn reading_stdin_names_stdin() {
    let err = read_body_from_file("-", "comment", Err("broken pipe".to_string())).unwrap_err();
    assert_eq!(err.message, "Cannot read the comment from stdin: broken pipe");
}

#[test]
fn inline_wins_when_no_file_is_given() {
    let body = resolve_body(Some("本文".into()), None, "description").unwrap();
    assert_eq!(body.as_deref(), Some("本文"));
}

#[test]
fn returns_none_when_neither_is_given() {
    assert!(resolve_body(None, None, "description").unwrap().is_none());
}

#[test]
fn reads_the_file_when_only_the_file_is_given() {
    let body = resolve_body(
        None,
        Some(("/tmp/body.md".to_string(), Ok("ファイルの本文\n".to_string()))),
        "description",
    )
    .unwrap();
    assert_eq!(body.as_deref(), Some("ファイルの本文"));
}

#[test]
fn keeps_an_empty_inline_value() {
    let body = resolve_body(Some(String::new()), None, "description").unwrap();
    assert_eq!(body.as_deref(), Some(""));
}

#[test]
fn a_file_that_cannot_be_read_fails_the_body() {
    let err = resolve_body(None, Some(("x.md".to_string(), Err("denied".to_string()))), "description")
        .unwrap_err();
    assert_eq!(err.exit_code, 1);
    assert_eq!(err.message, "Cannot read the description from x.md: denied");
}

#[test]
fn reads_and_writes_only_below_the_given_home() {
    let store = ConfigStore::from_home("/tmp/home");
    assert_eq!(store.path(), "/tmp/home/.config/task/config.yaml");
    assert_eq!(store.dir(), "/tmp/home/.config/task");
    assert_eq!(TaskConfig::default(), TaskConfig { api_url: None, token: None, tenant_id: None });
    assert_eq!(ConfigStore::from_home("/tmp/home/").path(), "/tmp/home/.config/task/config.yaml");
}

#[test]
fn paths_join_with_one_slash() {
    assert_eq!(join_path("", "a"), "a");
    assert_eq!(join_path("/", "a"), "/a");
    assert_eq!(join_path("x", "a"), "x/a");
}

#[test]
fn prefers_environment_values_and_removes_a_trailing_api_slash() {
    let resolved = resolve_runtime_with(
        &store(),
        file_config(),
        Some("https://api.invalid/".into()),
        Some("env-token".into()),
        Some("env-tenant".into()),
    )
    .unwrap();
    assert_eq!(
        resolved,
        RuntimeConfig {
            api_url: "https://api.invalid".into(),
            token: "env-token".into(),
            tenant_id: "env-tenant".into(),
        }
    );
}

#[test]
fn falls_back_to_the_file_when_only_part_of_the_environment_is_set() {
    let resolved =
        resolve_runtime_with(&store(), file_config(), None, Some("env-token".to_string()), None).unwrap();
    assert_eq!(resolved.api_url, "https://file.invalid");
    assert_eq!(resolved.token, "env-token");
    assert_eq!(resolved.tenant_id, "file-tenant");
}

#[test]
fn names_every_missing_setting_and_exits_two() {
    let err = resolve_runtime_with(&store(), TaskConfig::default(), None, None, None).unwrap_err();
    assert_eq!(err.exit_code, 2);
    for expected in ["api_url (TASK_API_URL)", "token (TASK_TOKEN)", "tenant_id (TASK_TENANT)"] {
        assert!(err.message.contains(expected), "{}", err.message);
    }
    assert_eq!(
        err.message,
        "Missing required configuration: api_url (TASK_API_URL), token (TASK_TOKEN), tenant_id (TASK_TENANT). \
         Set env vars or /home/someone/.config/task/config.yaml."
    );
}

#[test]
fn names_only_the_settings_that_are_missing() {
    let mut file = TaskConfig::default();
    file.api_url = Some("https://x.invalid".into());
    let err = resolve_runtime_with(&store(), file, None, Some("t".into()), None).unwrap_err();
    assert_eq!(
        err.message,
        "Missing required configuration: tenant_id (TASK_TENANT). Set env vars or /home/someone/.config/task/config.yaml."
    );
}

#[test]
fn drops_a_key_from_the_file_when_it_is_unset() {
    let mut config = TaskConfig {
        api_url: Some("https://task.invalid".into()),
        token: Some("secret".into()),
        tenant_id: None,
    };
    config.set("token", None);
    assert_eq!(config.token, None);
    assert_eq!(config.get("token"), None);
    assert_eq!(config.get("api_url").map(|s| s.as_str()), Some("https://task.invalid"));
}

#[test]
fn config_keys_get_and_set_their_own_field_only() {
    let mut config = TaskConfig::default();
    for key in CONFIG_KEYS {
        config.set(key, Some(format!("v-{key}")));
    }
    config.set("unknown", Some("x".into()));
    assert_eq!(config.api_url.as_deref(), Some("v-api_url"));
    assert_eq!(config.token.as_deref(), Some("v-token"));
    assert_eq!(config.tenant_id.as_deref(), Some("v-tenant_id"));
    assert_eq!(config.get("unknown"), None);
}

#[test]
fn reads_priorities_in_the_form_the_api_documents() {
    assert_eq!(parse_priority("critical_fire").unwrap(), TaskPriority::CriticalFire);
    assert_eq!(parse_priority("Medium").unwrap(), TaskPriority::Medium);
}

#[test]
fn rejects_an_unknown_priority_before_sending_it() {
    let err = parse_priority("urgent").unwrap_err();
    assert!(err.message.starts_with("unknown priority: urgent"), "{}", err.message);
    assert!(err.message.contains("critical_fire"), "{}", err.message);
    assert_eq!(err.exit_code, 2);
}

#[test]
fn every_priority_reads_back() {
    for p in TaskPriority::values() {
        assert_eq!(parse_priority(p.to_value()).unwrap(), p);
        assert_eq!(parse_priority(&p.to_value().to_uppercase()).unwrap(), p);
    }
}

#[test]
fn tokens_are_trimmed_and_must_not_be_blank() {
    assert_eq!(token_from_argument(Some("  abc \n".into())), Some("abc".to_string()));
    assert_eq!(token_from_argument(Some("   ".into())), None);
    assert_eq!(token_from_argument(None), None);
    assert_eq!(accept_token("\tsecret\n").unwrap(), "secret");
    let err = accept_token(" \n").unwrap_err();
    assert_eq!(err, CliError { message: "Token is required".to_string(), exit_code: 1 });
}

#[test]
fn api_paths_name_the_tenant_and_the_project() {
    let tasks = tasks_path("t1", PROJECT);
    assert_eq!(borrow(&tasks), vec!["v1", "tenants", "t1", "projects", "01234567-89ab-cdef-0123-456789abcdef", "tasks"]);
    assert_eq!(task_path("t1", PROJECT, "ABC-1").last().map(|s| s.as_str()), Some("ABC-1"));
    assert_eq!(task_path("t1", PROJECT, "ABC-1").len(), 7);
    assert_eq!(sprints_path("t1", PROJECT)[5], "sprints");
    assert_eq!(sprint_path("t1", PROJECT, "s").join("/"), "v1/tenants/t1/projects/01234567-89ab-cdef-0123-456789abcdef/sprints/s");
}

#[test]
fn sprints_are_found_by_name_in_any_case() {
    let sprints = vec![
        SprintSummary { id: 1, name: "Sprint 1".to_string() },
        SprintSummary { id: 2, name: "sprint 2".to_string() },
        SprintSummary { id: 3, name: "SPRINT 2".to_string() },
    ];
    assert_eq!(sprint_id_by_name(&sprints, "SPRINT 2").unwrap(), "00000000-0000-0000-0000-000000000002");
    let err = sprint_id_by_name(&sprints, "Sprint 9").unwrap_err();
    assert_eq!(err, CliError { message: "Sprint not found: Sprint 9".to_string(), exit_code: 5 });
}

#[test]
fn an_update_touches_only_the_fields_that_were_given() {
    let body = update_request(UpdateFields { title: Some("New".into()), status_id: None, priority: None });
    assert_eq!(body.title.as_deref(), Some("New"));
    assert!(body.status_id.is_none());
    assert!(!body.clear_description);
    assert!(!body.clear_sprint_id);
    assert!(!body.clear_soft_deadline);
    assert!(body.priority.is_none() && body.description.is_none() && body.label_ids.is_none());
}

#[test]
fn sends_a_priority_in_the_shape_the_request_body_expects() {
    let body = update_request(UpdateFields { title: None, status_id: None, priority: Some(TaskPriority::CriticalFire) });
    assert_eq!(body.priority, Some(TaskPriority::CriticalFire));
    assert_eq!(TaskPriority::CriticalFire.to_value(), "critical_fire");
}

#[test]
fn completing_moves_only_the_status() {
    let body = done_request(PROJECT);
    assert_eq!(body, update_request(UpdateFields { title: None, status_id: Some(PROJECT), priority: None }));
    assert!(body.title.is_none() && body.priority.is_none());
    assert!(!body.clear_hard_deadline && !body.clear_estimated_minutes && !body.clear_parent_task_id);
}
