//! Two-way synchronisation of GitHub issues and tasks.
//!
//! Only the title, the body and whether it is closed are synced. Both sides
//! hash the same triple; when it equals what was last synced, nothing is
//! written, which stops the loop write-back, webhook, import, write-back.

use vstd::prelude::*;
use vstd::string::*;

use crate::github::GithubIssue;
use crate::tasks::{first_status, pick_status, ProjectStatus, Task, TaskPriority};
use crate::text::{hex_lower, lemma_hex_lower_len, same_text};

verus! {

/// What is compared between an issue and its task.
#[derive(Debug, Clone, PartialEq, Eq)]
pub struct SyncedContent {
    pub title: String,
    pub body: String,
    pub closed: bool,
}

/// The bytes that are hashed: title, a zero byte, body, a zero byte, and 1
/// for closed or 0 for open. The zero bytes keep the fields apart.
pub open spec fn hashed_bytes(title: Seq<char>, body: Seq<char>, closed: bool) -> Seq<u8> {
    vstd::utf8::encode_utf8(title) + seq![0u8] + vstd::utf8::encode_utf8(body) + seq![0u8] + seq![
        if closed {
            1u8
        } else {
            0u8
        },
    ]
}

/// The text of an optional field, empty when missing.
pub open spec fn text_or_empty(t: Option<String>) -> Seq<char> {
    match t {
        Some(s) => s@,
        None => Seq::empty(),
    }
}

/// SHA-256 of a byte string: the digest `sha2::Sha256` computes.
pub uninterp spec fn sha256_digest(data: Seq<u8>) -> Seq<u8>;

/// The hash of the synced triple, as stored on the link.
pub open spec fn content_hash(title: Seq<char>, body: Seq<char>, closed: bool) -> Seq<char> {
    hex_lower(sha256_digest(hashed_bytes(title, body, closed)))
}

/// `sha2::Sha256::digest`: the SHA-256 digest of `data`, 32 bytes.
#[verifier::external_body]
fn sha256(data: &[u8]) -> (r: Vec<u8>)
    ensures
        r@ == sha256_digest(data@),
        r@.len() == 32,
{
    <sha2::Sha256 as sha2::Digest>::digest(data).to_vec()
}

/// `hex::encode`: two lower-case hexadecimal digits per byte.
#[verifier::external_body]
fn hex_encode(data: &[u8]) -> (r: String)
    ensures
        r@ == hex_lower(data@),
{
    hex::encode(data)
}

fn append_bytes(buf: &mut Vec<u8>, more: &[u8])
    ensures
        final(buf)@ == old(buf)@ + more@,
{
    let mut i: usize = 0;
    let ghost start = buf@;
    while i < more.len()
        invariant
            i <= more.len(),
            buf@ == start + more@.take(i as int),
        decreases more.len() - i,
    {
        buf.push(more[i]);
        i += 1;
        assert(buf@ =~= start + more@.take(i as int));
    }
    assert(more@.take(more.len() as int) =~= more@);
}

impl SyncedContent {
    /// The triple as GitHub has it: a missing body counts as empty.
    pub fn from_issue(issue: &GithubIssue) -> (r: SyncedContent)
        ensures
            r.title@ == issue.title@,
            r.body@ == text_or_empty(issue.body),
            r.closed == (issue.state@ == "closed"@),
    {
        let body = match &issue.body {
            Some(b) => b.clone(),
            None => String::new(),
        };
        SyncedContent { title: issue.title.clone(), body, closed: issue.is_closed() }
    }

    /// The triple as the task has it: a missing description counts as empty,
    /// and the task is closed when its status is a done status.
    pub fn from_task(task: &Task, is_done_state: bool) -> (r: SyncedContent)
        ensures
            r.title@ == task.title@,
            r.body@ == text_or_empty(task.description),
            r.closed == is_done_state,
    {
        let body = match &task.description {
            Some(d) => d.clone(),
            None => String::new(),
        };
        SyncedContent { title: task.title.clone(), body, closed: is_done_state }
    }

    /// The hash that tells whether this content was already synced: 64
    /// lower-case hexadecimal digits.
    pub fn hash(&self) -> (r: String)
        ensures
            r@ == content_hash(self.title@, self.body@, self.closed),
            r@.len() == 64,
    {
        let mut bytes: Vec<u8> = Vec::new();
        append_bytes(&mut bytes, self.title.as_str().as_bytes());
        bytes.push(0u8);
        append_bytes(&mut bytes, self.body.as_str().as_bytes());
        bytes.push(0u8);
        bytes.push(if self.closed { 1u8 } else { 0u8 });
        assert(bytes@ =~= hashed_bytes(self.title@, self.body@, self.closed));
        let digest = sha256(bytes.as_slice());
        proof {
            lemma_hex_lower_len(digest@);
        }
        hex_encode(digest.as_slice())
    }
}

/// An empty body is kept as no description on the task side (GitHub's `null`
/// and `""` are the same).
pub fn description_of(body: &str) -> (r: Option<String>)
    ensures
        match r {
            Some(d) => body@.len() > 0 && d@ == body@,
            None => body@.len() == 0,
        },
{
    if body.is_empty() {
        None
    } else {
        Some(body.to_owned())
    }
}

/// Why an issue or a task cannot be synced.
#[derive(Debug, Clone, Copy, PartialEq, Eq)]
pub enum SyncError {
    /// The project has no done status (`done`) or no default status.
    NoStatus { project_id: u128, done: bool },
    /// The task an issue is linked to no longer exists.
    LinkedTaskGone(u128),
    /// The task points at a status that does not exist.
    MissingStatus(u128),
}

/// The status that matches the issue: the done status when closed, the
/// default status when open (the lowest position among them).
pub fn resolve_status(statuses: &[ProjectStatus], project_id: u128, closed: bool) -> (r: Result<
    ProjectStatus,
    SyncError,
>)
    ensures
        match first_status(statuses@, project_id, closed) {
            Some(s) => r == Ok::<ProjectStatus, SyncError>(s),
            None => r == Err::<ProjectStatus, SyncError>(SyncError::NoStatus { project_id, done: closed }),
        },
{
    match pick_status(statuses, project_id, closed) {
        Some(s) => Ok(s),
        None => Err(SyncError::NoStatus { project_id, done: closed }),
    }
}

/// The link between an issue and its task, with the hash last synced.
#[derive(Debug, Clone, PartialEq, Eq)]
pub struct IssueLink {
    pub id: u128,
    pub project_id: u128,
    pub task_id: u128,
    pub github_number: i32,
    pub synced_hash: String,
}

/// What applying an issue does.
#[derive(Debug, Clone, Copy, PartialEq, Eq, Structural)]
pub enum IssueSync {
    /// The content was already synced: nothing is written.
    Unchanged,
    /// Update the linked task and the link's hash.
    Update(u128),
    /// File a task and link it.
    Create,
}

/// What to do with an issue whose content hashes to `hash`, given its link if any.
pub fn issue_sync_step(link: Option<&IssueLink>, hash: &str) -> (r: IssueSync)
    ensures
        match link {
            Some(l) => if l.synced_hash@ == hash@ {
                r == IssueSync::Unchanged
            } else {
                r == IssueSync::Update(l.task_id)
            },
            None => r == IssueSync::Create,
        },
{
    match link {
        Some(l) => if same_text(l.synced_hash.as_str(), hash) {
            IssueSync::Unchanged
        } else {
            IssueSync::Update(l.task_id)
        },
        None => IssueSync::Create,
    }
}

/// When the task was completed after a sync: kept when it was already
/// completed and the issue stays closed, `now` when it closes, none when open.
pub fn synced_completed_at(closed: bool, previous: Option<i64>, now: i64) -> (r: Option<i64>)
    ensures
        r == (if closed {
            match previous {
                Some(t) => Some(t),
                None => Some(now),
            }
        } else {
            None
        }),
{
    if closed {
        match previous {
            Some(t) => Some(t),
            None => Some(now),
        }
    } else {
        None
    }
}

/// The description a body gives on the task side: none for an empty body.
pub open spec fn description_for(body: Seq<char>, description: Option<String>) -> bool {
    match description {
        Some(d) => body.len() > 0 && d@ == body,
        None => body.len() == 0,
    }
}

/// The writes that apply an issue to the project.
#[derive(Debug, Clone, PartialEq, Eq)]
pub enum IssueWrite {
    /// Already synced: nothing is written.
    Unchanged,
    /// Update the linked task, then store the hash on the link.
    Update {
        task_id: u128,
        title: String,
        description: Option<String>,
        status_id: u128,
        completed_at: Option<i64>,
        synced_hash: String,
    },
    /// File a task (priority medium) and link it to the issue.
    Create {
        title: String,
        description: Option<String>,
        status_id: u128,
        priority: TaskPriority,
        completed_at: Option<i64>,
        created_by: u128,
        github_number: i32,
        synced_hash: String,
    },
}

/// What applying an issue writes: nothing when the link already holds the
/// content's hash; else the linked task (`linked_task`, the task the link
/// points at if it still exists) takes the issue's title, body and status, or
/// a new task is filed and linked. A closed issue keeps the completion time the
/// task already had; an open one clears it.
pub fn plan_issue_apply(
    project_id: u128,
    issue: &GithubIssue,
    link: Option<&IssueLink>,
    linked_task: Option<&Task>,
    statuses: &[ProjectStatus],
    created_by: u128,
    now: i64,
) -> (r: Result<IssueWrite, SyncError>)
    ensures
        ({
            let closed = issue.state@ == "closed"@;
            let body = text_or_empty(issue.body);
            let hash = content_hash(issue.title@, body, closed);
            match link {
                Some(l) => if l.synced_hash@ == hash {
                    r == Ok::<IssueWrite, SyncError>(IssueWrite::Unchanged)
                } else {
                    match linked_task {
                        None => r == Err::<IssueWrite, SyncError>(SyncError::LinkedTaskGone(l.task_id)),
                        Some(t) => match first_status(statuses@, project_id, closed) {
                            None => r == Err::<IssueWrite, SyncError>(
                                SyncError::NoStatus { project_id, done: closed },
                            ),
                            Some(s) => r matches Ok(
                                IssueWrite::Update {
                                    task_id,
                                    title,
                                    description,
                                    status_id,
                                    completed_at,
                                    synced_hash,
                                },
                            ) && {
                                &&& task_id == l.task_id
                                &&& title@ == issue.title@
                                &&& description_for(body, description)
                                &&& status_id == s.id
                                &&& completed_at == (if closed {
                                    match t.completed_at {
                                        Some(at) => Some(at),
                                        None => Some(now),
                                    }
                                } else {
                                    None
                                })
                                &&& synced_hash@ == hash
                            },
                        },
                    }
                },
                None => match first_status(statuses@, project_id, closed) {
                    None => r == Err::<IssueWrite, SyncError>(SyncError::NoStatus { project_id, done: closed }),
                    Some(s) => r matches Ok(
                        IssueWrite::Create {
                            title,
                            description,
                            status_id,
                            priority,
                            completed_at,
                            created_by: by,
                            github_number,
                            synced_hash,
                        },
                    ) && {
                        &&& title@ == issue.title@
                        &&& description_for(body, description)
                        &&& status_id == s.id
                        &&& priority == TaskPriority::Medium
                        &&& completed_at == (if closed { Some(now) } else { None })
                        &&& by == created_by
                        &&& github_number == issue.number
                        &&& synced_hash@ == hash
                    },
                },
            }
        }),
{
    let content = SyncedContent::from_issue(issue);
    let hash = content.hash();
    match link {
        Some(l) => {
            if same_text(l.synced_hash.as_str(), hash.as_str()) {
                return Ok(IssueWrite::Unchanged);
            }
            let task = match linked_task {
                Some(t) => t,
                None => {
                    return Err(SyncError::LinkedTaskGone(l.task_id));
                },
            };
            let status = match resolve_status(statuses, project_id, content.closed) {
                Ok(s) => s,
                Err(e) => {
                    return Err(e);
                },
            };
            let completed_at = synced_completed_at(content.closed, task.completed_at, now);
            let description = description_of(content.body.as_str());
            Ok(
                IssueWrite::Update {
                    task_id: l.task_id,
                    title: content.title,
                    description,
                    status_id: status.id,
                    completed_at,
                    synced_hash: hash,
                },
            )
        },
        None => {
            let status = match resolve_status(statuses, project_id, content.closed) {
                Ok(s) => s,
                Err(e) => {
                    return Err(e);
                },
            };
            let completed_at = if content.closed {
                Some(now)
            } else {
                None
            };
            let description = description_of(content.body.as_str());
            Ok(
                IssueWrite::Create {
                    title: content.title,
                    description,
                    status_id: status.id,
                    priority: TaskPriority::Medium,
                    completed_at,
                    created_by,
                    github_number: issue.number,
                    synced_hash: hash,
                },
            )
        },
    }
}

/// What writing a task back to its issue involves.
#[derive(Debug, Clone, PartialEq, Eq)]
pub enum PushStep {
    /// Nothing: no link, the task is gone or deleted, or it is already synced.
    Nothing,
    /// Write the content to the issue `number`, then store the hash on the link.
    Push { number: i32, content: SyncedContent, synced_hash: String },
}

/// What writing the task back involves, given its link, the task (if it still
/// exists) and the status it points at (if that exists).
pub fn plan_push(link: Option<&IssueLink>, task: Option<&Task>, status: Option<&ProjectStatus>) -> (r:
    Result<PushStep, SyncError>)
    ensures
        match (link, task) {
            (Some(l), Some(t)) => if t.deleted_at is Some {
                r == Ok::<PushStep, SyncError>(PushStep::Nothing)
            } else {
                match status {
                    None => r == Err::<PushStep, SyncError>(SyncError::MissingStatus(t.id)),
                    Some(s) => {
                        let hash = content_hash(t.title@, text_or_empty(t.description), s.is_done_state);
                        if l.synced_hash@ == hash {
                            r == Ok::<PushStep, SyncError>(PushStep::Nothing)
                        } else {
                            r matches Ok(PushStep::Push { number, content, synced_hash }) && {
                                &&& number == l.github_number
                                &&& content.title@ == t.title@
                                &&& content.body@ == text_or_empty(t.description)
                                &&& content.closed == s.is_done_state
                                &&& synced_hash@ == hash
                            }
                        }
                    },
                }
            },
            _ => r == Ok::<PushStep, SyncError>(PushStep::Nothing),
        },
{
    let l = match link {
        Some(l) => l,
        None => {
            return Ok(PushStep::Nothing);
        },
    };
    let t = match task {
        Some(t) => t,
        None => {
            return Ok(PushStep::Nothing);
        },
    };
    if t.deleted_at.is_some() {
        return Ok(PushStep::Nothing);
    }
    let s = match status {
        Some(s) => s,
        None => {
            return Err(SyncError::MissingStatus(t.id));
        },
    };
    let content = SyncedContent::from_task(t, s.is_done_state);
    let hash = content.hash();
    if same_text(l.synced_hash.as_str(), hash.as_str()) {
        return Ok(PushStep::Nothing);
    }
    Ok(PushStep::Push { number: l.github_number, content, synced_hash: hash })
}

/// Whether a task's content still has to be written back to its issue.
pub fn push_needed(link: &IssueLink, content: &SyncedContent) -> (r: bool)
    ensures
        r == (link.synced_hash@ != content_hash(content.title@, content.body@, content.closed)),
{
    let hash = content.hash();
    !same_text(link.synced_hash.as_str(), hash.as_str())
}

/// The `state` GitHub takes for the content.
pub fn issue_state(closed: bool) -> (r: &'static str)
    ensures
        r@ == (if closed { "closed"@ } else { "open"@ }),
{
    if closed {
        proof { reveal_strlit("closed"); }
        "closed"
    } else {
        proof { reveal_strlit("open"); }
        "open"
    }
}

/// The issue-event actions that are synced. `deleted` is not: a deleted
/// issue is not brought back as a task.
pub open spec fn synced_action(action: Seq<char>) -> bool {
    action == "opened"@ || action == "edited"@ || action == "closed"@ || action == "reopened"@
}

/// Whether an `issues` webhook event with this action is applied.
pub fn is_synced_action(action: &str) -> (r: bool)
    ensures
        r == synced_action(action@),
{
    same_text(action, "opened") || same_text(action, "edited") || same_text(action, "closed")
        || same_text(action, "reopened")
}

/// The issue an `issues` webhook event applies, if any: the event's action is
/// synced, it carries an issue, and that issue is not a pull request.
pub fn event_issue(action: &str, issue: Option<GithubIssue>) -> (r: Option<GithubIssue>)
    ensures
        r == (if synced_action(action@) && (issue matches Some(i) && !i.pull_request) {
            issue
        } else {
            None::<GithubIssue>
        }),
{
    if !is_synced_action(action) {
        return None;
    }
    match issue {
        Some(i) => if i.is_pull_request() {
            None
        } else {
            Some(i)
        },
        None => None,
    }
}

/// The entries of a page that are issues: pull requests left out, the order kept.
pub open spec fn without_pull_requests(entries: Seq<GithubIssue>) -> Seq<GithubIssue>
    decreases entries.len(),
{
    if entries.len() == 0 {
        Seq::empty()
    } else {
        let before = without_pull_requests(entries.drop_last());
        if entries.last().pull_request {
            before
        } else {
            before.push(entries.last())
        }
    }
}

/// The issues of a fetched page that an import applies (the issue list also
/// holds pull requests, which are not synced).
pub fn importable_issues(entries: Vec<GithubIssue>) -> (r: Vec<GithubIssue>)
    ensures
        r@ == without_pull_requests(entries@),
{
    let mut out: Vec<GithubIssue> = Vec::new();
    let mut rest = entries;
    let ghost all = rest@;
    // Take the entries from the back (moving them out, not cloning them), then
    // put the kept ones back in order.
    let mut kept_rev: Vec<GithubIssue> = Vec::new();
    while rest.len() > 0
        invariant
            rest@ == all.take(rest.len() as int),
            rest.len() <= all.len(),
            without_pull_requests(all) == without_pull_requests(rest@) + kept_rev@.reverse(),
        decreases rest.len(),
    {
        let ghost before = rest@;
        let e = rest.pop().unwrap();
        proof {
            assert(before.drop_last() =~= rest@);
            assert(rest@ =~= all.take(rest.len() as int));
        }
        if !e.pull_request {
            let ghost k0 = kept_rev@;
            kept_rev.push(e);
            proof {
                assert(kept_rev@.reverse() =~= seq![e] + k0.reverse());
                assert(without_pull_requests(before) == without_pull_requests(rest@).push(e));
                assert(without_pull_requests(rest@).push(e) + k0.reverse() =~= without_pull_requests(rest@) + (seq![e] + k0.reverse()));
            }
        }
    }
    proof {
        assert(without_pull_requests(rest@) =~= Seq::<GithubIssue>::empty());
    }
    while kept_rev.len() > 0
        invariant
            without_pull_requests(all) == out@ + kept_rev@.reverse(),
        decreases kept_rev.len(),
    {
        let ghost k0 = kept_rev@;
        let e = kept_rev.pop().unwrap();
        proof {
            assert(k0 =~= kept_rev@.push(e));
            assert(k0.reverse() =~= seq![e] + kept_rev@.reverse());
        }
        let ghost o0 = out@;
        out.push(e);
        proof {
            assert(o0 + k0.reverse() =~= out@ + kept_rev@.reverse());
        }
    }
    proof {
        assert(kept_rev@.reverse() =~= Seq::<GithubIssue>::empty());
        assert(out@ + kept_rev@.reverse() =~= out@);
    }
    out
}

/// Issues fetched per page (GitHub's maximum).
pub const PER_PAGE: u32 = 100;

/// The page to fetch after a page that held `fetched` entries: none once a
/// page comes back short (counted before pull requests are left out).
pub fn next_issue_page(page: u32, fetched: u32) -> (r: Option<u32>)
    requires
        fetched >= PER_PAGE ==> page < u32::MAX,
    ensures
        r == (if fetched < PER_PAGE { None } else { Some((page + 1) as u32) }),
{
    if fetched < PER_PAGE {
        None
    } else {
        Some(page + 1)
    }
}


/// Whether a text holds no NUL character.
pub open spec fn free_of_nul(s: Seq<char>) -> bool {
    forall|k: int| 0 <= k < s.len() ==> s[k] != '\0'
}

proof fn lemma_scalar_bytes_nonzero(c: char)
    requires
        c != '\0',
    ensures
        forall|i: int| 0 <= i < vstd::utf8::encode_scalar(c as u32).len() ==> #[trigger] vstd::utf8::encode_scalar(c as u32)[i] != 0,
{
    let s = c as u32;
    assert(s != 0);
    assert(s <= 0x7f && s != 0 ==> (s & 0x7f) as u8 != 0) by (bit_vector);
    assert(forall|x: u32| (0xC0u8 | ((x >> 6) & 0x1F) as u8) != 0) by (bit_vector);
    assert(forall|x: u32| (0xE0u8 | ((x >> 12) & 0x0F) as u8) != 0) by (bit_vector);
    assert(forall|x: u32| (0xF0u8 | ((x >> 18) & 0x7) as u8) != 0) by (bit_vector);
    assert(forall|x: u32| (0x80u8 | (x & 0x3F) as u8) != 0) by (bit_vector);
    assert(forall|x: u32| (0x80u8 | ((x >> 6) & 0x3F) as u8) != 0) by (bit_vector);
    assert(forall|x: u32| (0x80u8 | ((x >> 12) & 0x3F) as u8) != 0) by (bit_vector);
}

proof fn lemma_encoding_has_no_zero(s: Seq<char>)
    requires
        free_of_nul(s),
    ensures
        forall|i: int| 0 <= i < vstd::utf8::encode_utf8(s).len() ==> #[trigger] vstd::utf8::encode_utf8(s)[i] != 0,
    decreases s.len(),
{
    if s.len() > 0 {
        lemma_scalar_bytes_nonzero(s[0]);
        lemma_encoding_has_no_zero(s.drop_first());
        let head = vstd::utf8::encode_scalar(s[0] as u32);
        let tail = vstd::utf8::encode_utf8(s.drop_first());
        assert(vstd::utf8::encode_utf8(s) == head + tail);
        assert forall|i: int| 0 <= i < (head + tail).len() implies (head + tail)[i] != 0 by {
            if i < head.len() {
                assert((head + tail)[i] == head[i]);
            } else {
                assert((head + tail)[i] == tail[i - head.len()]);
            }
        }
    }
}

proof fn lemma_split_at_first_zero(a: Seq<char>, b: Seq<char>, x: Seq<u8>, y: Seq<u8>)
    requires
        free_of_nul(a),
        free_of_nul(b),
        vstd::utf8::encode_utf8(a) + seq![0u8] + x == vstd::utf8::encode_utf8(b) + seq![0u8] + y,
    ensures
        a == b,
        x == y,
{
    let ea = vstd::utf8::encode_utf8(a);
    let eb = vstd::utf8::encode_utf8(b);
    let whole = ea + seq![0u8] + x;
    lemma_encoding_has_no_zero(a);
    lemma_encoding_has_no_zero(b);
    if ea.len() < eb.len() {
        assert(whole[ea.len() as int] == 0);
        assert((eb + seq![0u8] + y)[ea.len() as int] == eb[ea.len() as int]);
        assert(false);
    }
    if eb.len() < ea.len() {
        assert((eb + seq![0u8] + y)[eb.len() as int] == 0);
        assert(whole[eb.len() as int] == ea[eb.len() as int]);
        assert(false);
    }
    assert(ea =~= whole.subrange(0, ea.len() as int));
    assert(eb =~= (eb + seq![0u8] + y).subrange(0, eb.len() as int));
    assert(x =~= whole.subrange(ea.len() + 1int, whole.len() as int));
    assert(y =~= (eb + seq![0u8] + y).subrange(eb.len() + 1int, whole.len() as int));
    vstd::utf8::encode_utf8_decode_utf8(a);
    vstd::utf8::encode_utf8_decode_utf8(b);
}

/// The zero bytes keep the fields apart: for texts without NUL characters,
/// different titles, bodies or closed flags give different hashed bytes
/// (so `"ab"` + `""` and `"a"` + `"b"` are told apart).
pub proof fn lemma_hashed_bytes_keep_fields_apart(
    title1: Seq<char>,
    body1: Seq<char>,
    closed1: bool,
    title2: Seq<char>,
    body2: Seq<char>,
    closed2: bool,
)
    requires
        free_of_nul(title1),
        free_of_nul(body1),
        free_of_nul(title2),
        free_of_nul(body2),
        hashed_bytes(title1, body1, closed1) == hashed_bytes(title2, body2, closed2),
    ensures
        title1 == title2,
        body1 == body2,
        closed1 == closed2,
{
    let f1: Seq<u8> = seq![if closed1 { 1u8 } else { 0u8 }];
    let f2: Seq<u8> = seq![if closed2 { 1u8 } else { 0u8 }];
    let rest1 = vstd::utf8::encode_utf8(body1) + seq![0u8] + f1;
    let rest2 = vstd::utf8::encode_utf8(body2) + seq![0u8] + f2;
    assert(hashed_bytes(title1, body1, closed1) =~= vstd::utf8::encode_utf8(title1) + seq![0u8] + rest1);
    assert(hashed_bytes(title2, body2, closed2) =~= vstd::utf8::encode_utf8(title2) + seq![0u8] + rest2);
    lemma_split_at_first_zero(title1, title2, rest1, rest2);
    lemma_split_at_first_zero(body1, body2, f1, f2);
    assert(f1[0] == f2[0]);
}

/// The same content hashes alike from both sides: an issue and a task with
/// the same title, the same body (a missing one counting as empty) and the
/// same closed state give the same hash, so a write-back is not imported again.
pub proof fn lemma_both_sides_hash_alike(issue: GithubIssue, task: Task, is_done_state: bool)
    requires
        issue.title@ == task.title@,
        text_or_empty(issue.body) == text_or_empty(task.description),
        (issue.state@ == "closed"@) == is_done_state,
    ensures
        content_hash(issue.title@, text_or_empty(issue.body), issue.state@ == "closed"@) == content_hash(
            task.title@,
            text_or_empty(task.description),
            is_done_state,
        ),
{
}

/// An import is not written back: once an issue's write (an update or a new
/// task, as `plan_issue_apply` gives it) is stored, and the task sits in a
/// status that is done exactly when the issue is closed, the link holds the
/// hash the task hashes to, so `plan_push` has nothing to push.
pub proof fn lemma_imported_task_is_not_pushed_back(
    issue: GithubIssue,
    title: String,
    description: Option<String>,
    synced_hash: String,
    task: Task,
    status: ProjectStatus,
    link: IssueLink,
)
    requires
        title@ == issue.title@,
        description_for(text_or_empty(issue.body), description),
        synced_hash@ == content_hash(issue.title@, text_or_empty(issue.body), issue.state@ == "closed"@),
        task.title@ == title@,
        task.description == description,
        status.is_done_state == (issue.state@ == "closed"@),
        link.synced_hash@ == synced_hash@,
    ensures
        link.synced_hash@ == content_hash(task.title@, text_or_empty(task.description), status.is_done_state),
{
    assert(text_or_empty(task.description) =~= text_or_empty(issue.body));
}

/// A write-back is not imported again: once the content `plan_push` gave is on
/// the issue (title, body, and the state `issue_state` names) and its hash is
/// on the link, the issue hashes to what the link holds, so applying the issue
/// (from the webhook or an import) changes nothing.
pub proof fn lemma_pushed_issue_is_not_imported_back(
    content: SyncedContent,
    synced_hash: String,
    issue: GithubIssue,
    link: IssueLink,
)
    requires
        synced_hash@ == content_hash(content.title@, content.body@, content.closed),
        issue.title@ == content.title@,
        text_or_empty(issue.body) == content.body@,
        issue.state@ == (if content.closed { "closed"@ } else { "open"@ }),
        link.synced_hash@ == synced_hash@,
    ensures
        link.synced_hash@ == content_hash(issue.title@, text_or_empty(issue.body), issue.state@ == "closed"@),
{
    reveal_strlit("closed");
    reveal_strlit("open");
    assert("open"@.len() != "closed"@.len());
}

} // verus!
