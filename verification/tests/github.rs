use koyori_task::github::{
    api_base, find_marked_comment, is_loopback_host, loopback_base, state_token_from, loopback_base_override, new_state_token,
    next_comment_page, pending_key, primary_repository, select_key, select_primary_repository, state_key,
    summary_target, BaseOverride, GithubIssue, IssueComment, Repository, SummaryTarget,
    SUMMARY_MARKER,
};

fn repo(owner: &str, name: &str) -> Repository {
    Repository::new(owner, name)
}

#[test]
fn accepts_loopback_github_base_urls() {
    for base in ["http://127.0.0.1:8080", "http://localhost:8080/", "http://[::1]:8080"] {
        assert_eq!(loopback_base(base).as_deref(), Some(base));
    }
}

#[test]
fn rejects_non_loopback_github_base_urls() {
    for base in ["https://example.com", "http://192.0.2.1:8080", "not a url", "", "   "] {
        assert_eq!(loopback_base(base), None, "base URL: {base:?}");
    }
}

#[test]
fn a_loopback_base_is_trimmed() {
    assert_eq!(loopback_base("  http://127.0.0.1:9000 \n"), Some("http://127.0.0.1:9000".to_string()));
}

#[test]
fn overrides_are_unset_used_or_ignored() {
    assert_eq!(loopback_base_override(None), BaseOverride::Unset);
    assert_eq!(loopback_base_override(Some("  ".to_string())), BaseOverride::Unset);
    assert_eq!(
        loopback_base_override(Some("http://localhost:1234".to_string())),
        BaseOverride::Use("http://localhost:1234".to_string())
    );
    assert_eq!(loopback_base_override(Some("https://evil.example".to_string())), BaseOverride::Ignored);
}

#[test]
fn detects_pull_request_entries() {
    let pr = GithubIssue {
        number: 7,
        title: "feat".to_string(),
        body: None,
        state: "open".to_string(),
        pull_request: true,
    };
    assert!(pr.is_pull_request());

    let plain = GithubIssue {
        number: 8,
        title: "bug".to_string(),
        body: Some("detail".to_string()),
        state: "closed".to_string(),
        pull_request: false,
    };
    assert!(!plain.is_pull_request());
    assert!(plain.is_closed());
    assert!(!pr.is_closed());
}

#[test]
fn marker_is_an_html_comment_so_it_stays_invisible() {
    assert!(SUMMARY_MARKER.starts_with("<!--"));
    assert!(SUMMARY_MARKER.ends_with("-->"));
}

#[test]
fn select_primary_repository_returns_none_for_multiple_repos() {
    let repos = vec![repo("other-org", "app"), repo("myorg", "backend"), repo("myorg", "frontend")];
    assert!(select_primary_repository(&repos, "myorg").is_none());
}

#[test]
fn select_primary_repository_auto_selects_single_repo() {
    let repos = vec![repo("other-org", "app")];
    let chosen = select_primary_repository(&repos, "myorg").unwrap();
    assert_eq!(chosen.full_name(), "other-org/app");
}

#[test]
fn select_primary_repository_prefers_account_owner() {
    let repos = vec![repo("other", "app"), repo("acme", "backend")];
    let chosen = select_primary_repository(&repos, "acme").unwrap();
    assert_eq!(chosen.full_name(), "acme/backend");
}

#[test]
fn no_repository_means_no_choice() {
    let repos: Vec<Repository> = Vec::new();
    assert!(select_primary_repository(&repos, "acme").is_none());
    let repos = vec![repo("a", "x"), repo("b", "y")];
    assert!(select_primary_repository(&repos, "c").is_none());
}

#[test]
fn pending_keys_are_scoped_to_the_pull_request() {
    let project_id = uuid::Uuid::new_v4().as_u128();
    assert_ne!(pending_key(project_id, 618), pending_key(project_id, 619));
    assert_ne!(pending_key(project_id, 618), pending_key(uuid::Uuid::new_v4().as_u128(), 618));
}

#[test]
fn pending_keys_spell_the_project_and_the_number() {
    assert_eq!(
        pending_key(0x0123456789abcdef0123456789abcdef, 618),
        "github:review_summary:pending:01234567-89ab-cdef-0123-456789abcdef:618"
    );
    assert_eq!(pending_key(0, -3), "github:review_summary:pending:00000000-0000-0000-0000-000000000000:-3");
}

#[test]
fn state_tokens_are_url_safe_and_fresh() {
    let a = new_state_token();
    let b = new_state_token();
    assert_eq!(a.len(), 43);
    assert!(a.chars().all(|c| c.is_ascii_alphanumeric() || c == '-' || c == '_'));
    assert_ne!(a, b);
}

#[test]
fn token_keys_are_prefixed() {
    assert_eq!(state_key("abc"), "github_oauth_state:abc");
    assert_eq!(select_key("xyz"), "github_repo_select:xyz");
}

#[test]
fn the_api_base_defaults_to_public_github() {
    assert_eq!(api_base(None), "https://api.github.com");
    assert_eq!(api_base(Some("   ".to_string())), "https://api.github.com");
    assert_eq!(api_base(Some("http://127.0.0.1:8080//".to_string())), "http://127.0.0.1:8080");
}

#[test]
fn the_first_marked_comment_is_found() {
    let comments = vec![
        IssueComment { id: 1, body: None },
        IssueComment { id: 2, body: Some("hello".to_string()) },
        IssueComment { id: 3, body: Some(format!("{SUMMARY_MARKER}\nsummary")) },
        IssueComment { id: 4, body: Some(SUMMARY_MARKER.to_string()) },
    ];
    assert_eq!(find_marked_comment(&comments), Some(3));
    assert_eq!(find_marked_comment(&comments[..2]), None);
    assert_eq!(summary_target(Some(3)), SummaryTarget::Edit(3));
    assert_eq!(summary_target(None), SummaryTarget::Create);
}

#[test]
fn comment_search_stops_after_a_short_or_last_page() {
    assert_eq!(next_comment_page(1, 100), Some(2));
    assert_eq!(next_comment_page(1, 99), None);
    assert_eq!(next_comment_page(5, 100), None);
}

#[test]
fn the_primary_repository_or_how_many_there_are() {
    let repos = vec![repo("acme", "backend"), repo("other", "app")];
    assert_eq!(primary_repository(&repos, "acme"), Ok(("acme".to_string(), "backend".to_string())));
    assert_eq!(
        primary_repository(&repos, "nobody"),
        Err("installation has access to 2 repositories; select one explicitly".to_string())
    );
    assert_eq!(
        primary_repository(&[], "acme"),
        Err("installation has access to 0 repositories; select one explicitly".to_string())
    );
}

#[test]
fn only_loopback_hosts_pass() {
    for host in ["127.0.0.1", "localhost", "::1", "[::1]"] {
        assert!(is_loopback_host(host));
    }
    for host in ["example.com", "127.0.0.2", "LOCALHOST", ""] {
        assert!(!is_loopback_host(host));
    }
}

#[test]
fn state_tokens_encode_their_bytes() {
    assert_eq!(state_token_from(&[]), "");
    assert_eq!(state_token_from(&[0xfb]), "-w");
    assert_eq!(state_token_from(&[0xff, 0xff]), "__8");
    assert_eq!(state_token_from(b"Man"), "TWFu");
    assert_eq!(state_token_from(&[0u8; 32]).len(), 43);
}
