//! What the service reads from GitHub and how it picks among it: issues,
//! the installation's repositories, pull-request comments, and the addresses
//! it may talk to.

use vstd::prelude::*;

use crate::text::{
    contains, decimal, decimal_text, drop_trailing, lemma_decimal_injective, lemma_uuid_hyphenated_injective,
    lemma_uuid_hyphenated_len, same_text, spec_contains, trim, trim_end, trimmed, uuid_hyphenated, uuid_text, Strip,
};

verus! {

/// An entry of the repository's issue list (which includes pull requests).
#[derive(Debug, Clone, PartialEq, Eq)]
pub struct GithubIssue {
    pub number: i32,
    pub title: String,
    pub body: Option<String>,
    /// `open` or `closed`.
    pub state: String,
    /// Whether the entry carries a `pull_request` field, which marks pull requests.
    pub pull_request: bool,
}

impl GithubIssue {
    /// Pull requests come back from the issue list too; they are not synced.
    pub fn is_pull_request(&self) -> (r: bool)
        ensures
            r == self.pull_request,
    {
        self.pull_request
    }

    /// Whether the issue is closed.
    pub fn is_closed(&self) -> (r: bool)
        ensures
            r == (self.state@ == "closed"@),
    {
        same_text(self.state.as_str(), "closed")
    }
}


/// A repository an installation can reach.
#[derive(Debug, Clone, PartialEq, Eq)]
pub struct Repository {
    pub owner: String,
    pub name: String,
}

impl Repository {
    /// The repository `owner/name`.
    pub fn new(owner: &str, name: &str) -> (r: Repository)
        ensures
            r.owner@ == owner@,
            r.name@ == name@,
    {
        Repository { owner: owner.to_owned(), name: name.to_owned() }
    }

    /// `owner/name`.
    pub fn full_name(&self) -> (r: String)
        ensures
            r@ == self.owner@ + "/"@ + self.name@,
    {
        proof {
            reveal_strlit("/");
        }
        String::from_str(self.owner.as_str()).concat("/").concat(self.name.as_str())
    }
}

/// Whether exactly one repository is owned by `owner`.
pub open spec fn single_owned_by(repos: Seq<Repository>, owner: Seq<char>) -> bool {
    exists|k: int|
        0 <= k < repos.len() && repos[k].owner@ == owner && forall|j: int|
            0 <= j < repos.len() && j != k ==> repos[j].owner@ != owner
}

/// The repository to link a project to (a project is one repository): the
/// only one when there is one; else the only one owned by `preferred_owner`;
/// otherwise none, and the user chooses explicitly.
pub fn select_primary_repository<'a>(repositories: &'a [Repository], preferred_owner: &str) -> (r: Option<
    &'a Repository,
>)
    ensures
        repositories@.len() == 1 ==> r == Some(&repositories@[0]),
        repositories@.len() != 1 ==> (r is Some <==> single_owned_by(repositories@, preferred_owner@)),
        repositories@.len() != 1 && r is Some ==> (exists|k: int|
            0 <= k < repositories@.len() && r == Some(&repositories@[k]) && repositories@[k].owner@
                == preferred_owner@),
{
    if repositories.len() == 1 {
        return Some(&repositories[0]);
    }
    let mut found: Option<usize> = None;
    let mut i: usize = 0;
    while i < repositories.len()
        invariant
            i <= repositories.len(),
            match found {
                None => forall|j: int| 0 <= j < i ==> repositories@[j].owner@ != preferred_owner@,
                Some(k) => k < i && repositories@[k as int].owner@ == preferred_owner@ && forall|j: int|
                    0 <= j < i && j != k ==> repositories@[j].owner@ != preferred_owner@,
            },
        decreases repositories.len() - i,
    {
        if same_text(repositories[i].owner.as_str(), preferred_owner) {
            match found {
                None => {
                    found = Some(i);
                },
                Some(k) => {
                    // a second match: the user has to choose
                    assert(!single_owned_by(repositories@, preferred_owner@)) by {
                        if single_owned_by(repositories@, preferred_owner@) {
                            let w = choose|w: int|
                                0 <= w < repositories@.len() && repositories@[w].owner@ == preferred_owner@
                                    && forall|j: int|
                                    0 <= j < repositories@.len() && j != w ==> repositories@[j].owner@
                                        != preferred_owner@;
                            assert(w == k as int || w == i as int);
                        }
                    }
                    return None;
                },
            }
        }
        i += 1;
    }
    match found {
        None => {
            assert(!single_owned_by(repositories@, preferred_owner@));
            None
        },
        Some(k) => {
            assert(single_owned_by(repositories@, preferred_owner@)) by {
                assert(repositories@[k as int].owner@ == preferred_owner@);
            }
            Some(&repositories[k])
        },
    }
}

/// The message when no repository can be chosen without asking.
pub open spec fn ambiguous_installation_message(count: nat) -> Seq<char> {
    "installation has access to "@ + decimal(count as int) + " repositories; select one explicitly"@
}

/// The owner and name of the repository to link, chosen as
/// `select_primary_repository` chooses; when it chooses none, an error that
/// says how many repositories the installation reaches.
pub fn primary_repository(repositories: &[Repository], preferred_owner: &str) -> (r: Result<
    (String, String),
    String,
>)
    requires
        repositories@.len() <= i64::MAX,
    ensures
        repositories@.len() == 1 ==> (r matches Ok((o, n)) && o@ == repositories@[0].owner@ && n@
            == repositories@[0].name@),
        repositories@.len() != 1 ==> (r is Ok <==> single_owned_by(repositories@, preferred_owner@)),
        repositories@.len() != 1 && r is Ok ==> exists|k: int|
            0 <= k < repositories@.len() && repositories@[k].owner@ == preferred_owner@ && (r matches Ok(
                (o, n),
            ) && o@ == repositories@[k].owner@ && n@ == repositories@[k].name@),
        r matches Err(m) ==> m@ == ambiguous_installation_message(repositories@.len()),
{
    match select_primary_repository(repositories, preferred_owner) {
        Some(repo) => Ok((repo.owner.as_str().to_owned(), repo.name.as_str().to_owned())),
        None => {
            proof {
                reveal_strlit("installation has access to ");
                reveal_strlit(" repositories; select one explicitly");
            }
            let count = decimal_text(repositories.len() as i64);
            Err(
                String::from_str("installation has access to ").concat(count.as_str()).concat(
                    " repositories; select one explicitly",
                ),
            )
        },
    }
}

/// The host of the URL `text` parses to (`reqwest::Url::parse`, then
/// `host_str`): `None` when it does not parse or has no host.
pub uninterp spec fn url_host(text: Seq<char>) -> Option<Seq<char>>;

/// `reqwest::Url::parse(text)`, then `host_str`.
#[verifier::external_body]
fn parsed_host(text: &str) -> (r: Option<String>)
    ensures
        match r {
            Some(h) => url_host(text@) == Some(h@),
            None => url_host(text@) is None,
        },
{
    match reqwest::Url::parse(text) {
        Ok(url) => url.host_str().map(|h| h.to_owned()),
        Err(_) => None,
    }
}

/// The hosts a GitHub base URL may be redirected to: loopback only (the
/// integration tests' mock server). Redirecting elsewhere would send the
/// GitHub credentials there; an IPv6 host comes back with its brackets.
pub open spec fn loopback_host(h: Seq<char>) -> bool {
    h == "127.0.0.1"@ || h == "localhost"@ || h == "::1"@ || h == "[::1]"@
}

/// Whether a host (as the URL parser reports it) is a loopback host.
pub fn is_loopback_host(h: &str) -> (r: bool)
    ensures
        r == loopback_host(h@),
{
    same_text(h, "127.0.0.1") || same_text(h, "localhost") || same_text(h, "::1") || same_text(h, "[::1]")
}

/// Whether a base URL (once trimmed) is accepted as a replacement for GitHub's.
pub open spec fn accepted_base(base: Seq<char>) -> bool {
    trimmed(base).len() > 0 && (url_host(trimmed(base)) matches Some(h) && loopback_host(h))
}

/// The trimmed base URL when it points at a loopback host, else none.
pub fn loopback_base(base: &str) -> (r: Option<String>)
    ensures
        match r {
            Some(b) => accepted_base(base@) && b@ == trimmed(base@),
            None => !accepted_base(base@),
        },
{
    let base = trim(base);
    if base.is_empty() {
        return None;
    }
    match parsed_host(base) {
        Some(host) => {
            if is_loopback_host(host.as_str()) {
                Some(base.to_owned())
            } else {
                None
            }
        },
        None => None,
    }
}

/// What an environment override of a GitHub base URL amounts to.
#[derive(Debug, Clone, PartialEq, Eq)]
pub enum BaseOverride {
    /// The variable is unset or blank.
    Unset,
    /// Use this loopback base.
    Use(String),
    /// Set, but not to a loopback address: ignored (and worth a warning).
    Ignored,
}

/// The override a variable's value gives.
pub fn loopback_base_override(value: Option<String>) -> (r: BaseOverride)
    ensures
        match value {
            None => r == BaseOverride::Unset,
            Some(v) => if trimmed(v@).len() == 0 {
                r == BaseOverride::Unset
            } else if accepted_base(v@) {
                r matches BaseOverride::Use(b) && b@ == trimmed(v@)
            } else {
                r == BaseOverride::Ignored
            },
        },
{
    match value {
        None => BaseOverride::Unset,
        Some(v) => {
            if trim(v.as_str()).is_empty() {
                return BaseOverride::Unset;
            }
            match loopback_base(v.as_str()) {
                Some(b) => BaseOverride::Use(b),
                None => BaseOverride::Ignored,
            }
        },
    }
}

/// The public GitHub API.
pub open spec fn default_api_base() -> Seq<char> {
    "https://api.github.com"@
}

/// The base of GitHub API calls: the configured one without trailing slashes
/// when it is not blank, else the public API.
pub fn api_base(configured: Option<String>) -> (r: String)
    ensures
        r@ == (match configured {
            Some(b) => if trimmed(b@).len() > 0 {
                drop_trailing(b@, Strip::Slash)
            } else {
                default_api_base()
            },
            None => default_api_base(),
        }),
{
    proof {
        reveal_strlit("https://api.github.com");
    }
    match configured {
        Some(b) => {
            if !trim(b.as_str()).is_empty() {
                return trim_end(b.as_str(), Strip::Slash).to_owned();
            }
            String::from_str("https://api.github.com")
        },
        None => String::from_str("https://api.github.com"),
    }
}

/// The mark that identifies the summary comment, at the start of its body.
/// An HTML comment, so that it stays invisible.
pub const SUMMARY_MARKER: &'static str = "<!-- koyori-review-summary -->";

/// Comments read per page when looking for the summary comment.
pub const COMMENTS_PER_PAGE: u32 = 100;

/// Pages searched at most. The summary comment is made first, so it is
/// normally on the first page; not finding it means posting a new one.
pub const MAX_SEARCH_PAGES: u32 = 5;

/// A comment on a pull request.
#[derive(Debug, Clone, PartialEq, Eq)]
pub struct IssueComment {
    pub id: i64,
    pub body: Option<String>,
}

/// Whether a comment carries the summary marker.
pub open spec fn marked(c: IssueComment) -> bool {
    c.body matches Some(b) && spec_contains(b@, SUMMARY_MARKER@)
}

/// The first comment of a page that carries the marker.
pub fn find_marked_comment(comments: &[IssueComment]) -> (r: Option<i64>)
    ensures
        match r {
            Some(id) => exists|k: int|
                0 <= k < comments@.len() && comments@[k].id == id && marked(comments@[k]) && forall|j: int|
                    0 <= j < k ==> !marked(comments@[j]),
            None => forall|k: int| 0 <= k < comments@.len() ==> !marked(comments@[k]),
        },
{
    let mut i: usize = 0;
    while i < comments.len()
        invariant
            i <= comments.len(),
            forall|j: int| 0 <= j < i ==> !marked(comments@[j]),
        decreases comments.len() - i,
    {
        let hit = match &comments[i].body {
            Some(b) => contains(b.as_str(), SUMMARY_MARKER),
            None => false,
        };
        if hit {
            assert(marked(comments@[i as int]));
            return Some(comments[i].id);
        }
        i += 1;
    }
    None
}

/// The page to search after page `page` held `fetched` comments without the
/// marker: none after a short page or the last page searched.
pub fn next_comment_page(page: u32, fetched: usize) -> (r: Option<u32>)
    ensures
        r == (if fetched < COMMENTS_PER_PAGE || page >= MAX_SEARCH_PAGES {
            None::<u32>
        } else {
            Some((page + 1) as u32)
        }),
{
    if fetched < COMMENTS_PER_PAGE as usize || page >= MAX_SEARCH_PAGES {
        None
    } else {
        Some(page + 1)
    }
}

/// Where the summary goes: the comment found (edited in place) or a new one.
#[derive(Debug, Clone, Copy, PartialEq, Eq, Structural)]
pub enum SummaryTarget {
    /// Edit this comment.
    Edit(i64),
    /// Post a new comment.
    Create,
}

/// Edit the summary comment when one was found, else post one: the pull
/// request keeps a single summary comment.
pub fn summary_target(found: Option<i64>) -> (r: SummaryTarget)
    ensures
        match found {
            Some(id) => r == SummaryTarget::Edit(id),
            None => r == SummaryTarget::Create,
        },
{
    match found {
        Some(id) => SummaryTarget::Edit(id),
        None => SummaryTarget::Create,
    }
}

/// What is cached of a pull request for display.
#[derive(Debug, Clone, PartialEq, Eq)]
pub struct PullRequestMeta {
    pub title: String,
    pub user: Option<PullRequestUser>,
}

/// The author of a pull request.
#[derive(Debug, Clone, PartialEq, Eq)]
pub struct PullRequestUser {
    pub login: String,
}

/// How long an installation state token lives in seconds.
pub const TTL_SECS: u64 = 600;

/// What an installation state token stands for.
#[derive(Debug, Clone, Copy, PartialEq, Eq)]
pub struct GithubOAuthStatePayload {
    pub tenant_id: u128,
    pub project_id: u128,
    pub user_id: u128,
    /// When linking again, the installation it is bound to; none for a new installation.
    pub installation_id: Option<i64>,
}

/// What a repository-selection token stands for. The installation is bound
/// here, never taken from the request.
#[derive(Debug, Clone, Copy, PartialEq, Eq)]
pub struct RepoSelectPayload {
    pub tenant_id: u128,
    pub project_id: u128,
    pub user_id: u128,
    pub installation_id: i64,
}

/// The URL-safe base64 alphabet.
pub open spec fn base64_char(v: int) -> char {
    if v < 26 {
        (65 + v) as char
    } else if v < 52 {
        (71 + v) as char
    } else if v < 62 {
        (v - 4) as char
    } else if v == 62 {
        '-'
    } else {
        '_'
    }
}

/// URL-safe base64 without padding: every three bytes become four characters,
/// a trailing one or two bytes become two or three.
pub open spec fn base64_url(d: Seq<u8>) -> Seq<char>
    decreases d.len(),
{
    if d.len() == 0 {
        Seq::empty()
    } else if d.len() == 1 {
        let a = d[0] as int;
        seq![base64_char(a / 4), base64_char((a % 4) * 16)]
    } else if d.len() == 2 {
        let a = d[0] as int;
        let b = d[1] as int;
        seq![base64_char(a / 4), base64_char((a % 4) * 16 + b / 16), base64_char((b % 16) * 4)]
    } else {
        let a = d[0] as int;
        let b = d[1] as int;
        let c = d[2] as int;
        seq![
            base64_char(a / 4),
            base64_char((a % 4) * 16 + b / 16),
            base64_char((b % 16) * 4 + c / 64),
            base64_char(c % 64),
        ] + base64_url(d.skip(3))
    }
}

/// `rand::rng().fill_bytes`: 32 bytes from the thread-local random generator.
#[verifier::external_body]
fn random_bytes() -> (r: Vec<u8>)
    ensures
        r@.len() == 32,
{
    let mut bytes = [0u8; 32];
    rand::RngCore::fill_bytes(&mut rand::rng(), &mut bytes);
    bytes.to_vec()
}

/// `URL_SAFE_NO_PAD.encode`: URL-safe base64 without padding.
#[verifier::external_body]
fn encode_base64_url(data: &[u8]) -> (r: String)
    ensures
        r@ == base64_url(data@),
{
    base64::Engine::encode(&base64::engine::general_purpose::URL_SAFE_NO_PAD, data)
}

/// The state token made of `bytes`: their URL-safe base64 without padding.
pub fn state_token_from(bytes: &[u8]) -> (r: String)
    ensures
        r@ == base64_url(bytes@),
{
    encode_base64_url(bytes)
}

/// A fresh state token: 32 random bytes in URL-safe base64.
pub fn new_state_token() -> (r: String)
    ensures
        exists|bytes: Seq<u8>| bytes.len() == 32 && r@ == base64_url(bytes),
{
    let bytes = random_bytes();
    state_token_from(bytes.as_slice())
}

/// The key an installation state is stored under.
pub fn state_key(state: &str) -> (r: String)
    ensures
        r@ == "github_oauth_state:"@ + state@,
{
    proof {
        reveal_strlit("github_oauth_state:");
    }
    String::from_str("github_oauth_state:").concat(state)
}

/// The key a repository-selection token is stored under.
pub fn select_key(token: &str) -> (r: String)
    ensures
        r@ == "github_repo_select:"@ + token@,
{
    proof {
        reveal_strlit("github_repo_select:");
    }
    String::from_str("github_repo_select:").concat(token)
}

/// How long the "update pending" flag of a pull request lives, in seconds.
/// The job clears it when it starts; this only bounds how long a flag left
/// by a crashed worker holds updates back.
pub const SUMMARY_PENDING_TTL_SECS: u64 = 5 * 60;

/// The key of a pull request's "update pending" flag.
pub open spec fn spec_pending_key(project_id: u128, pr_number: i32) -> Seq<char> {
    "github:review_summary:pending:"@ + uuid_hyphenated(project_id) + ":"@ + decimal(pr_number as int)
}

/// The key of the "update pending" flag: one per pull request.
pub fn pending_key(project_id: u128, pr_number: i32) -> (r: String)
    ensures
        r@ == spec_pending_key(project_id, pr_number),
{
    proof {
        reveal_strlit("github:review_summary:pending:");
        reveal_strlit(":");
    }
    let id = uuid_text(project_id);
    let n = decimal_text(pr_number as i64);
    String::from_str("github:review_summary:pending:").concat(id.as_str()).concat(":").concat(n.as_str())
}

/// Each pull request has a flag of its own: two pull requests that differ in
/// project or in number never share a pending key, so marking one never holds
/// back the other's update.
pub proof fn lemma_pending_keys_are_per_pull_request(project_a: u128, pr_a: i32, project_b: u128, pr_b: i32)
    requires
        project_a != project_b || pr_a != pr_b,
    ensures
        spec_pending_key(project_a, pr_a) != spec_pending_key(project_b, pr_b),
{
    reveal_strlit("github:review_summary:pending:");
    reveal_strlit(":");
    let ka = spec_pending_key(project_a, pr_a);
    let kb = spec_pending_key(project_b, pr_b);
    if ka == kb {
        lemma_uuid_hyphenated_len(project_a);
        lemma_uuid_hyphenated_len(project_b);
        assert(ka.subrange(30, 66) =~= uuid_hyphenated(project_a));
        assert(kb.subrange(30, 66) =~= uuid_hyphenated(project_b));
        lemma_uuid_hyphenated_injective(project_a, project_b);
        assert(ka.subrange(67, ka.len() as int) =~= decimal(pr_a as int));
        assert(kb.subrange(67, kb.len() as int) =~= decimal(pr_b as int));
        lemma_decimal_injective(pr_a as int, pr_b as int);
    }
}

} // verus!
