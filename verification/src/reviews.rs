//! Review rounds and their findings: the state machine of a finding, who may
//! move it, and the per-pull-request figures that decide whether it may merge.

use vstd::prelude::*;

use crate::access::{is_tenant_member, spec_is_tenant_member, Tenant, TenantMember};
use crate::errors::AppError;
use crate::tasks::{first_status, pick_status, ProjectStatus, Task, TaskPriority};
use crate::text::{decimal, decimal_text};

use self::FindingState::{Deferred, Fixed, Open, Rejected, Verified};

verus! {

/// How serious a finding is.
#[derive(Debug, Clone, Copy, PartialEq, Eq, Structural)]
pub enum FindingSeverity {
    High,
    Medium,
    Low,
    Nit,
}

/// Where a finding stands.
#[derive(Debug, Clone, Copy, PartialEq, Eq, Structural)]
pub enum FindingState {
    Open,
    Fixed,
    Verified,
    Deferred,
    Rejected,
}

/// The name a severity has in requests and messages.
pub open spec fn severity_name(s: FindingSeverity) -> Seq<char> {
    match s {
        FindingSeverity::High => "high"@,
        FindingSeverity::Medium => "medium"@,
        FindingSeverity::Low => "low"@,
        FindingSeverity::Nit => "nit"@,
    }
}

/// The name a state has in requests and messages.
pub open spec fn state_name(s: FindingState) -> Seq<char> {
    match s {
        FindingState::Open => "open"@,
        FindingState::Fixed => "fixed"@,
        FindingState::Verified => "verified"@,
        FindingState::Deferred => "deferred"@,
        FindingState::Rejected => "rejected"@,
    }
}

/// Severities that must be resolved before the pull request merges.
pub open spec fn spec_blocks_merge(s: FindingSeverity) -> bool {
    s == FindingSeverity::High || s == FindingSeverity::Medium
}

/// States in which a finding still waits for its resolution.
pub open spec fn spec_counts_as_unresolved(s: FindingState) -> bool {
    s == FindingState::Open || s == FindingState::Fixed
}

impl FindingSeverity {
    pub fn as_str(&self) -> (r: &'static str)
        ensures
            r@ == severity_name(*self),
    {
        match self {
            FindingSeverity::High => {
                proof { reveal_strlit("high"); }
                "high"
            },
            FindingSeverity::Medium => {
                proof { reveal_strlit("medium"); }
                "medium"
            },
            FindingSeverity::Low => {
                proof { reveal_strlit("low"); }
                "low"
            },
            FindingSeverity::Nit => {
                proof { reveal_strlit("nit"); }
                "nit"
            },
        }
    }

    /// Only low and nit findings may be deferred: a deferred finding no longer
    /// counts against the merge, so deferring a high one would let it merge unresolved.
    pub fn can_defer(&self) -> (r: bool)
        ensures
            r == !spec_blocks_merge(*self),
    {
        matches!(self, FindingSeverity::Low | FindingSeverity::Nit)
    }

    /// High and medium findings block the merge while unresolved.
    pub fn blocks_merge(&self) -> (r: bool)
        ensures
            r == spec_blocks_merge(*self),
    {
        matches!(self, FindingSeverity::High | FindingSeverity::Medium)
    }
}

impl FindingState {
    pub fn as_str(&self) -> (r: &'static str)
        ensures
            r@ == state_name(*self),
    {
        match self {
            FindingState::Open => {
                proof { reveal_strlit("open"); }
                "open"
            },
            FindingState::Fixed => {
                proof { reveal_strlit("fixed"); }
                "fixed"
            },
            FindingState::Verified => {
                proof { reveal_strlit("verified"); }
                "verified"
            },
            FindingState::Deferred => {
                proof { reveal_strlit("deferred"); }
                "deferred"
            },
            FindingState::Rejected => {
                proof { reveal_strlit("rejected"); }
                "rejected"
            },
        }
    }

    /// A fixed finding is unresolved until the reviewing side verifies it.
    pub fn counts_as_unresolved(&self) -> (r: bool)
        ensures
            r == spec_counts_as_unresolved(*self),
    {
        matches!(self, FindingState::Open | FindingState::Fixed)
    }
}

/// The transition table of a finding.
pub open spec fn transition_allowed(from: FindingState, to: FindingState) -> bool {
    match (from, to) {
        (Open, Fixed) | (Fixed, Verified) => true,
        (Open, Deferred) | (Deferred, Open) => true,
        (Open, Rejected) | (Rejected, Open) => true,
        (Fixed, Open) => true,
        _ => false,
    }
}

/// Transitions only the reviewing side may make: verifying a fix and sending it back.
pub open spec fn reviewer_side_only(from: FindingState, to: FindingState) -> bool {
    (from == FindingState::Fixed && to == FindingState::Verified)
    || (from == FindingState::Fixed && to == FindingState::Open)
}

/// Transitions only the author of the finding's round may make: withdrawing
/// the finding and taking the withdrawal back.
pub open spec fn finding_author_only(from: FindingState, to: FindingState) -> bool {
    (from == FindingState::Open && to == FindingState::Rejected)
    || (from == FindingState::Rejected && to == FindingState::Open)
}

/// Whether the transition itself is in the table (who makes it is checked apart).
///
/// `verified` is terminal: a verification found wrong is raised again in a new round.
pub fn can_transition(from: FindingState, to: FindingState) -> (r: bool)
    ensures
        r == transition_allowed(from, to),
{
    match (from, to) {
        (Open, Fixed) | (Fixed, Verified) => true,
        (Open, Deferred) | (Deferred, Open) => true,
        (Open, Rejected) | (Rejected, Open) => true,
        (Fixed, Open) => true,
        _ => false,
    }
}

/// Whether the transition is reserved to the reviewing side (the author of the
/// round or of a later round of the same pull request).
pub fn requires_reviewer_side(from: FindingState, to: FindingState) -> (r: bool)
    ensures
        r == reviewer_side_only(from, to),
{
    matches!((from, to), (Fixed, Verified) | (Fixed, Open))
}

/// Whether the transition is reserved to the author of the finding's own round.
///
/// Rounds may be empty, so admitting authors of later rounds here would let
/// the fixing side open an empty round and withdraw someone else's finding.
pub fn requires_finding_author(from: FindingState, to: FindingState) -> (r: bool)
    ensures
        r == finding_author_only(from, to),
{
    matches!((from, to), (Open, Rejected) | (Rejected, Open))
}

/// Why a transition of a finding is refused.
#[derive(Debug, Clone, Copy, PartialEq, Eq, Structural)]
pub enum ReviewError {
    /// The transition is not in the table.
    InvalidTransition { from: FindingState, to: FindingState },
    /// The transition is reserved to the reviewing side.
    ReviewerOnly,
    /// The transition is reserved to the author of the finding's round.
    FindingAuthorOnly,
    /// The one who declared the fix tried to verify it.
    SelfVerification,
    /// A severity that must be resolved before merging cannot be deferred.
    NotDeferrable(FindingSeverity),
    /// The project has no default status to file the deferred task under.
    NoDefaultStatus(u128),
}

/// The body of the 409 answer for an invalid transition.
pub open spec fn invalid_transition_message(from: FindingState, to: FindingState) -> Seq<char> {
    state_name(from) + " の指摘を "@ + state_name(to) + " にはできません"@
}

/// The body of the 409 answer for deferring a blocking severity.
pub open spec fn not_deferrable_message(s: FindingSeverity) -> Seq<char> {
    severity_name(s)
        + " の指摘は繰り延べられません（繰り延べは low / nit のみ。マージ前に解消するか、指摘自体を取り下げてください）"@
}

/// The body of the 409 answer when no default status exists.
pub open spec fn no_default_status_message() -> Seq<char> {
    "プロジェクトに既定ステータスが無いため、繰り延べ先のタスクを作れません"@
}

impl AppError {
    /// The answer for a refused transition. Conflicts carry their reason in the
    /// body, so that someone reviewing from the command line can tell why; refusals
    /// by role stay a bare 403.
    pub fn from_review_error(err: ReviewError) -> (r: AppError)
        ensures
            match err {
                ReviewError::InvalidTransition { from, to } =>
                    r matches AppError::ConflictDetail(m) && m@ == invalid_transition_message(from, to),
                ReviewError::NotDeferrable(s) =>
                    r matches AppError::ConflictDetail(m) && m@ == not_deferrable_message(s),
                ReviewError::NoDefaultStatus(_) =>
                    r matches AppError::ConflictDetail(m) && m@ == no_default_status_message(),
                _ => r == AppError::Forbidden,
            },
    {
        match err {
            ReviewError::InvalidTransition { from, to } => {
                proof {
                    reveal_strlit(" の指摘を ");
                    reveal_strlit(" にはできません");
                }
                let m = String::from_str(from.as_str()).concat(" の指摘を ").concat(
                    to.as_str(),
                ).concat(" にはできません");
                AppError::ConflictDetail(m)
            },
            ReviewError::NotDeferrable(s) => {
                proof {
                    reveal_strlit(
                        " の指摘は繰り延べられません（繰り延べは low / nit のみ。マージ前に解消するか、指摘自体を取り下げてください）",
                    );
                }
                let m = String::from_str(s.as_str()).concat(
                    " の指摘は繰り延べられません（繰り延べは low / nit のみ。マージ前に解消するか、指摘自体を取り下げてください）",
                );
                AppError::ConflictDetail(m)
            },
            ReviewError::NoDefaultStatus(_) => {
                proof {
                    reveal_strlit("プロジェクトに既定ステータスが無いため、繰り延べ先のタスクを作れません");
                }
                AppError::ConflictDetail(
                    String::from_str("プロジェクトに既定ステータスが無いため、繰り延べ先のタスクを作れません"),
                )
            },
            _ => AppError::Forbidden,
        }
    }
}


/// The repository a round looked at.
///
/// A project may be unlinked and linked again to another repository, so the
/// key of a pull request includes the repository: otherwise PR #10 of the old
/// repository and PR #10 of the new one would continue as one pull request.
/// An unlinked project has empty owner and name (not a missing value, so that
/// uniqueness still holds among them).
#[derive(Debug, Clone, PartialEq, Eq)]
pub struct RepoRef {
    pub integration_id: Option<u128>,
    pub owner: String,
    pub name: String,
}

/// A project's link to a GitHub repository.
#[derive(Debug, Clone, PartialEq, Eq)]
pub struct GithubIntegration {
    pub id: u128,
    pub project_id: u128,
    pub installation_id: i64,
    pub repo_owner: String,
    pub repo_name: String,
    pub created_by: u128,
}

/// One review round: one review of one pull request.
#[derive(Debug, Clone, PartialEq, Eq)]
pub struct ReviewRound {
    pub id: u128,
    pub project_id: u128,
    pub pr_number: i32,
    pub round: i32,
    pub head_sha: String,
    pub reviewer_id: u128,
    pub integration_id: Option<u128>,
    pub repo_owner: String,
    pub repo_name: String,
    /// The head the summary job last saw on GitHub, and when (seconds since the epoch).
    pub pr_head_sha: Option<String>,
    pub pr_head_checked_at: Option<i64>,
}

impl RepoRef {
    /// The repository of a project without a GitHub link.
    pub fn unlinked() -> (r: RepoRef)
        ensures
            r.integration_id is None,
            r.owner@ == Seq::<char>::empty(),
            r.name@ == Seq::<char>::empty(),
    {
        RepoRef { integration_id: None, owner: String::new(), name: String::new() }
    }

    /// Whether there is a repository to post to.
    pub fn is_linked(&self) -> (r: bool)
        ensures
            r == (self.owner@.len() > 0 && self.name@.len() > 0),
    {
        !self.owner.as_str().is_empty() && !self.name.as_str().is_empty()
    }

    /// The repository a round looked at (not necessarily the current link).
    pub fn of_round(review: &ReviewRound) -> (r: RepoRef)
        ensures
            r.integration_id == review.integration_id,
            r.owner@ == review.repo_owner@,
            r.name@ == review.repo_name@,
    {
        RepoRef {
            integration_id: review.integration_id,
            owner: review.repo_owner.clone(),
            name: review.repo_name.clone(),
        }
    }
}

/// The current repository of a project, given its integration row if any.
pub fn current_repo(integration: Option<&GithubIntegration>) -> (r: RepoRef)
    ensures
        match integration {
            Some(row) => r.integration_id == Some(row.id) && r.owner@ == row.repo_owner@
                && r.name@ == row.repo_name@,
            None => r.integration_id is None && r.owner@.len() == 0 && r.name@.len() == 0,
        },
{
    match integration {
        Some(row) => RepoRef {
            integration_id: Some(row.id),
            owner: row.repo_owner.clone(),
            name: row.repo_name.clone(),
        },
        None => RepoRef::unlinked(),
    }
}

/// Whether a round belongs to the pull request `pr` of `repo` in `project`.
pub open spec fn in_scope(
    r: ReviewRound,
    project_id: u128,
    owner: Seq<char>,
    name: Seq<char>,
    pr_number: i32,
) -> bool {
    &&& r.project_id == project_id
    &&& r.repo_owner@ == owner
    &&& r.repo_name@ == name
    &&& r.pr_number == pr_number
}

/// The latest round of a pull request: the in-scope round with the highest
/// number (the earliest listed among equals).
pub open spec fn latest_in_scope(
    rounds: Seq<ReviewRound>,
    project_id: u128,
    owner: Seq<char>,
    name: Seq<char>,
    pr_number: i32,
) -> Option<ReviewRound>
    decreases rounds.len(),
{
    if rounds.len() == 0 {
        None
    } else {
        let before = latest_in_scope(rounds.drop_last(), project_id, owner, name, pr_number);
        let r = rounds.last();
        if in_scope(r, project_id, owner, name, pr_number) && (before is None || before->0.round
            < r.round) {
            Some(r)
        } else {
            before
        }
    }
}

/// The number of rounds of a pull request (the highest round number, 0 for none).
pub open spec fn spec_round_count(
    rounds: Seq<ReviewRound>,
    project_id: u128,
    owner: Seq<char>,
    name: Seq<char>,
    pr_number: i32,
) -> int {
    match latest_in_scope(rounds, project_id, owner, name, pr_number) {
        Some(r) => r.round as int,
        None => 0,
    }
}

proof fn lemma_latest_in_scope(
    rounds: Seq<ReviewRound>,
    project_id: u128,
    owner: Seq<char>,
    name: Seq<char>,
    pr_number: i32,
)
    ensures
        match latest_in_scope(rounds, project_id, owner, name, pr_number) {
            Some(r) => rounds.contains(r) && in_scope(r, project_id, owner, name, pr_number)
                && forall|k: int|
                0 <= k < rounds.len() && in_scope(rounds[k], project_id, owner, name, pr_number)
                    ==> rounds[k].round <= r.round,
            None => forall|k: int|
                0 <= k < rounds.len() ==> !in_scope(rounds[k], project_id, owner, name, pr_number),
        },
    decreases rounds.len(),
{
    if rounds.len() > 0 {
        lemma_latest_in_scope(rounds.drop_last(), project_id, owner, name, pr_number);
        let before = latest_in_scope(rounds.drop_last(), project_id, owner, name, pr_number);
        if before is Some {
            assert(rounds.drop_last().contains(before->0));
            let k = choose|k: int| 0 <= k < rounds.drop_last().len() && rounds.drop_last()[k] == before->0;
            assert(rounds[k] == before->0);
        }
        assert(rounds[rounds.len() - 1] == rounds.last());
        assert forall|k: int| 0 <= k < rounds.len() - 1 implies rounds[k] == rounds.drop_last()[k] by {}
    }
}

/// Index of the latest round of a pull request.
fn latest_index(rounds: &[ReviewRound], project_id: u128, repo: &RepoRef, pr_number: i32) -> (r:
    Option<usize>)
    ensures
        match latest_in_scope(rounds@, project_id, repo.owner@, repo.name@, pr_number) {
            Some(x) => r is Some && r->0 < rounds.len() && rounds@[r->0 as int] == x,
            None => r is None,
        },
{
    let mut best: Option<usize> = None;
    let mut i: usize = 0;
    while i < rounds.len()
        invariant
            i <= rounds.len(),
            match latest_in_scope(rounds@.take(i as int), project_id, repo.owner@, repo.name@, pr_number) {
                Some(x) => best is Some && best->0 < i && rounds@[best->0 as int] == x,
                None => best is None,
            },
        decreases rounds.len() - i,
    {
        proof {
            assert(rounds@.take(i + 1).drop_last() =~= rounds@.take(i as int));
            assert(rounds@.take(i + 1).last() == rounds@[i as int]);
        }
        let r = &rounds[i];
        let scoped = r.project_id == project_id && r.repo_owner == repo.owner && r.repo_name
            == repo.name && r.pr_number == pr_number;
        if scoped {
            match best {
                None => {
                    best = Some(i);
                },
                Some(b) => {
                    if rounds[b].round < r.round {
                        best = Some(i);
                    }
                },
            }
        }
        i += 1;
    }
    proof {
        assert(rounds@.take(rounds.len() as int) =~= rounds@);
    }
    best
}

/// The number of the next round of a pull request (one past the latest, 1 for the first).
///
/// Callers lock the project row around numbering and inserting, so that two
/// rounds created at once do not take the same number.
pub fn next_round(rounds: &[ReviewRound], project_id: u128, repo: &RepoRef, pr_number: i32) -> (r:
    i32)
    requires
        spec_round_count(rounds@, project_id, repo.owner@, repo.name@, pr_number) < i32::MAX,
    ensures
        r == spec_round_count(rounds@, project_id, repo.owner@, repo.name@, pr_number) + 1,
        forall|k: int|
            0 <= k < rounds@.len() && in_scope(rounds@[k], project_id, repo.owner@, repo.name@, pr_number)
                ==> rounds@[k].round < r,
{
    proof {
        lemma_latest_in_scope(rounds@, project_id, repo.owner@, repo.name@, pr_number);
    }
    match latest_index(rounds, project_id, repo, pr_number) {
        Some(k) => rounds[k].round + 1,
        None => 1,
    }
}

/// The number of rounds of a pull request (its highest round number).
pub fn round_count(rounds: &[ReviewRound], project_id: u128, repo: &RepoRef, pr_number: i32) -> (r:
    i32)
    ensures
        r == spec_round_count(rounds@, project_id, repo.owner@, repo.name@, pr_number),
{
    match latest_index(rounds, project_id, repo, pr_number) {
        Some(k) => rounds[k].round,
        None => 0,
    }
}

/// The commit the latest round reviewed; `None` when the pull request has no round.
pub fn latest_head_sha(rounds: &[ReviewRound], project_id: u128, repo: &RepoRef, pr_number: i32) -> (r:
    Option<String>)
    ensures
        match latest_in_scope(rounds@, project_id, repo.owner@, repo.name@, pr_number) {
            Some(x) => r is Some && r->0@ == x.head_sha@,
            None => r is None,
        },
{
    match latest_index(rounds, project_id, repo, pr_number) {
        Some(k) => Some(rounds[k].head_sha.clone()),
        None => None,
    }
}

/// The head the summary job last confirmed on GitHub for the latest round, and when.
pub fn cached_pr_head(rounds: &[ReviewRound], project_id: u128, repo: &RepoRef, pr_number: i32) -> (r:
    (Option<String>, Option<i64>))
    ensures
        match latest_in_scope(rounds@, project_id, repo.owner@, repo.name@, pr_number) {
            Some(x) => r.0 == x.pr_head_sha && r.1 == x.pr_head_checked_at,
            None => r.0 is None && r.1 is None,
        },
{
    match latest_index(rounds, project_id, repo, pr_number) {
        Some(k) => (rounds[k].pr_head_sha.clone(), rounds[k].pr_head_checked_at),
        None => (None, None),
    }
}

/// Whether `actor` authored a round of this pull request numbered `round` or later.
pub open spec fn spec_is_reviewer_side(
    rounds: Seq<ReviewRound>,
    project_id: u128,
    owner: Seq<char>,
    name: Seq<char>,
    pr_number: i32,
    round: i32,
    actor_id: u128,
) -> bool {
    exists|k: int|
        0 <= k < rounds.len() && in_scope(rounds[k], project_id, owner, name, pr_number)
            && rounds[k].round >= round && rounds[k].reviewer_id == actor_id
}

/// Whether `actor` is on the reviewing side of the pull request: the author of
/// the round or of a later round of the same pull request of the same repository.
///
/// Round numbers restart per repository, so the scope includes the repository.
pub fn is_reviewer_side(
    rounds: &[ReviewRound],
    project_id: u128,
    repo: &RepoRef,
    pr_number: i32,
    round: i32,
    actor_id: u128,
) -> (r: bool)
    ensures
        r == spec_is_reviewer_side(
            rounds@,
            project_id,
            repo.owner@,
            repo.name@,
            pr_number,
            round,
            actor_id,
        ),
{
    let mut i: usize = 0;
    while i < rounds.len()
        invariant
            i <= rounds.len(),
            forall|k: int|
                0 <= k < i ==> !(in_scope(rounds@[k], project_id, repo.owner@, repo.name@, pr_number)
                    && rounds@[k].round >= round && rounds@[k].reviewer_id == actor_id),
        decreases rounds.len() - i,
    {
        let r = &rounds[i];
        if r.project_id == project_id && r.repo_owner == repo.owner && r.repo_name == repo.name
            && r.pr_number == pr_number && r.round >= round && r.reviewer_id == actor_id {
            return true;
        }
        i += 1;
    }
    false
}


/// One finding of a round.
#[derive(Debug, Clone, PartialEq, Eq)]
pub struct ReviewFinding {
    pub id: u128,
    pub review_id: u128,
    pub severity: FindingSeverity,
    pub title: String,
    pub body: String,
    pub file: Option<String>,
    pub line: Option<i32>,
    pub state: FindingState,
    /// The ordinary task filed when the finding was deferred.
    pub deferred_task_id: Option<u128>,
    /// Who declared the fix; kept after leaving `fixed`.
    pub fixed_by: Option<u128>,
    /// Seconds since the epoch.
    pub updated_at: i64,
}

/// Whether the tenant owner may withdraw a finding on behalf of its author:
/// only when the author has left the tenant (and is not the owner), so that
/// a wrong finding can still be withdrawn instead of being recorded as verified.
pub open spec fn spec_may_reject_on_behalf(
    review: ReviewRound,
    tenant: Option<Tenant>,
    members: Seq<TenantMember>,
    actor_id: u128,
) -> bool {
    match tenant {
        Some(t) => t.owner_id == actor_id && review.reviewer_id != t.owner_id
            && !spec_is_tenant_member(members, t.id, review.reviewer_id),
        None => false,
    }
}

/// Whether the tenant owner may withdraw the finding on behalf of its author.
///
/// `tenant` is the tenant of the round's project, `None` when the project or
/// the tenant is gone.
pub fn may_reject_on_behalf(
    review: &ReviewRound,
    tenant: Option<Tenant>,
    members: &[TenantMember],
    actor_id: u128,
) -> (r: bool)
    ensures
        r == spec_may_reject_on_behalf(*review, tenant, members@, actor_id),
{
    match tenant {
        None => false,
        Some(t) => {
            if t.owner_id != actor_id {
                return false;
            }
            // the owner's own finding is withdrawn by the owner as its author
            if review.reviewer_id == t.owner_id {
                return false;
            }
            !is_tenant_member(members, t.id, review.reviewer_id)
        },
    }
}

/// The verdict on a transition, given whether the actor may withdraw on behalf
/// of the author and whether the actor is on the reviewing side.
pub open spec fn transition_verdict(
    finding: ReviewFinding,
    review: ReviewRound,
    to: FindingState,
    actor_id: u128,
    on_behalf: bool,
    reviewer_side: bool,
) -> Result<(), ReviewError> {
    let from = finding.state;
    if !transition_allowed(from, to) {
        Err(ReviewError::InvalidTransition { from, to })
    } else if to == Deferred && spec_blocks_merge(finding.severity) {
        Err(ReviewError::NotDeferrable(finding.severity))
    } else if to == Verified && finding.fixed_by == Some(actor_id) {
        Err(ReviewError::SelfVerification)
    } else if finding_author_only(from, to) && review.reviewer_id != actor_id && !on_behalf {
        Err(ReviewError::FindingAuthorOnly)
    } else if reviewer_side_only(from, to) && !reviewer_side {
        Err(ReviewError::ReviewerOnly)
    } else {
        Ok(())
    }
}

/// The verdict on a transition over the rows it depends on.
pub open spec fn spec_transition_check(
    finding: ReviewFinding,
    review: ReviewRound,
    to: FindingState,
    actor_id: u128,
    rounds: Seq<ReviewRound>,
    tenant: Option<Tenant>,
    members: Seq<TenantMember>,
) -> Result<(), ReviewError> {
    transition_verdict(
        finding,
        review,
        to,
        actor_id,
        spec_may_reject_on_behalf(review, tenant, members, actor_id),
        spec_is_reviewer_side(
            rounds,
            review.project_id,
            review.repo_owner@,
            review.repo_name@,
            review.pr_number,
            review.round,
            actor_id,
        ),
    )
}

/// Whether `actor` may move `finding` (of round `review`) to `to`.
///
/// In order: the transition must be in the table; a blocking severity cannot
/// be deferred; the one who declared the fix cannot verify it; withdrawing is
/// for the author of the round (or the owner when the author has left); and
/// verifying or sending back is for the reviewing side. `rounds` are the rounds
/// of the project, `tenant` and `members` those of the project's tenant.
pub fn ensure_transition_allowed(
    finding: &ReviewFinding,
    review: &ReviewRound,
    to: FindingState,
    actor_id: u128,
    rounds: &[ReviewRound],
    tenant: Option<Tenant>,
    members: &[TenantMember],
) -> (r: Result<(), ReviewError>)
    ensures
        r == spec_transition_check(*finding, *review, to, actor_id, rounds@, tenant, members@),
{
    let from = finding.state;
    if !can_transition(from, to) {
        return Err(ReviewError::InvalidTransition { from, to });
    }
    // a deferred finding leaves the merge figures, so high and medium may not
    if to == FindingState::Deferred && !finding.severity.can_defer() {
        return Err(ReviewError::NotDeferrable(finding.severity));
    }
    if to == FindingState::Verified && finding.fixed_by == Some(actor_id) {
        return Err(ReviewError::SelfVerification);
    }
    if requires_finding_author(from, to) && review.reviewer_id != actor_id
        && !may_reject_on_behalf(review, tenant, members, actor_id) {
        return Err(ReviewError::FindingAuthorOnly);
    }
    if requires_reviewer_side(from, to) {
        let repo = RepoRef::of_round(review);
        if !is_reviewer_side(rounds, review.project_id, &repo, review.pr_number, review.round, actor_id) {
            return Err(ReviewError::ReviewerOnly);
        }
    }
    Ok(())
}


/// What happens to the finding's deferred task when the finding moves.
///
/// The rule is "at most one live task per finding": taking a deferral back
/// closes the linked task and drops the link, so a later deferral files a new
/// task. A finding that is deferred while still linked (to a task that is
/// live) reopens that task instead of filing a second one.
#[derive(Debug, Clone, Copy, PartialEq, Eq, Structural)]
pub enum DeferredTaskStep {
    /// Nothing to do.
    Keep,
    /// File a new task and link it.
    Create,
    /// Reopen the linked task, which is still live.
    Reopen(u128),
    /// Close the linked task (if it is still live) and drop the link.
    Close(u128),
}

/// The step for moving a finding from `from` to `to`, given its link and
/// whether the linked task is still live (in the project and not deleted).
pub open spec fn spec_deferred_task_step(
    from: FindingState,
    to: FindingState,
    link: Option<u128>,
    linked_task_is_live: bool,
) -> DeferredTaskStep {
    if to == Deferred {
        match link {
            Some(id) => if linked_task_is_live {
                DeferredTaskStep::Reopen(id)
            } else {
                DeferredTaskStep::Create
            },
            None => DeferredTaskStep::Create,
        }
    } else if from == Deferred {
        match link {
            Some(id) => DeferredTaskStep::Close(id),
            None => DeferredTaskStep::Keep,
        }
    } else {
        DeferredTaskStep::Keep
    }
}

/// What to do with the deferred task when `finding` moves to `to`.
pub fn deferred_task_step(finding: &ReviewFinding, to: FindingState, linked_task_is_live: bool) -> (r:
    DeferredTaskStep)
    ensures
        r == spec_deferred_task_step(finding.state, to, finding.deferred_task_id, linked_task_is_live),
{
    if to == FindingState::Deferred {
        match finding.deferred_task_id {
            Some(id) => if linked_task_is_live {
                DeferredTaskStep::Reopen(id)
            } else {
                DeferredTaskStep::Create
            },
            None => DeferredTaskStep::Create,
        }
    } else if finding.state == FindingState::Deferred {
        match finding.deferred_task_id {
            Some(id) => DeferredTaskStep::Close(id),
            None => DeferredTaskStep::Keep,
        }
    } else {
        DeferredTaskStep::Keep
    }
}

/// Checks the transition and says what to do with the deferred task.
///
/// The caller runs the task step and the update in one transaction: when the
/// task cannot be filed or closed, the finding does not move either.
pub fn plan_transition(
    finding: &ReviewFinding,
    review: &ReviewRound,
    to: FindingState,
    actor_id: u128,
    rounds: &[ReviewRound],
    tenant: Option<Tenant>,
    members: &[TenantMember],
    linked_task_is_live: bool,
) -> (r: Result<DeferredTaskStep, ReviewError>)
    ensures
        match spec_transition_check(*finding, *review, to, actor_id, rounds@, tenant, members@) {
            Ok(()) => r == Ok::<DeferredTaskStep, ReviewError>(
                spec_deferred_task_step(finding.state, to, finding.deferred_task_id, linked_task_is_live),
            ),
            Err(e) => r == Err::<DeferredTaskStep, ReviewError>(e),
        },
{
    match ensure_transition_allowed(finding, review, to, actor_id, rounds, tenant, members) {
        Ok(()) => Ok(deferred_task_step(finding, to, linked_task_is_live)),
        Err(e) => Err(e),
    }
}

/// The link a finding keeps after the deferred-task step (`created_task` is
/// the task filed for a `Create` step): the reopened or filed task when
/// deferring, none after closing, the old link otherwise.
pub open spec fn link_after(
    step: DeferredTaskStep,
    link: Option<u128>,
    created_task: Option<u128>,
) -> Option<u128> {
    match step {
        DeferredTaskStep::Reopen(id) => Some(id),
        DeferredTaskStep::Create => created_task,
        DeferredTaskStep::Close(_) => None,
        DeferredTaskStep::Keep => link,
    }
}

/// The finding after moving to `to`.
///
/// Who declared the fix is not cleared when the finding leaves `fixed`:
/// it still keeps that person from verifying after a send-back.
pub fn transitioned_finding(
    finding: ReviewFinding,
    to: FindingState,
    actor_id: u128,
    step: DeferredTaskStep,
    created_task: Option<u128>,
    now: i64,
) -> (r: ReviewFinding)
    ensures
        r.state == to,
        r.deferred_task_id == link_after(step, finding.deferred_task_id, created_task),
        r.fixed_by == (if to == Fixed { Some(actor_id) } else { finding.fixed_by }),
        r.updated_at == now,
        r.id == finding.id,
        r.review_id == finding.review_id,
        r.severity == finding.severity,
        r.title == finding.title,
        r.body == finding.body,
        r.file == finding.file,
        r.line == finding.line,
{
    let deferred_task_id = match step {
        DeferredTaskStep::Reopen(id) => Some(id),
        DeferredTaskStep::Create => created_task,
        DeferredTaskStep::Close(_) => None,
        DeferredTaskStep::Keep => finding.deferred_task_id,
    };
    let fixed_by = if to == FindingState::Fixed {
        Some(actor_id)
    } else {
        finding.fixed_by
    };
    ReviewFinding { state: to, deferred_task_id, fixed_by, updated_at: now, ..finding }
}

/// The status a reopened deferred task returns to: the project's default status.
pub fn reopen_status(statuses: &[ProjectStatus], project_id: u128) -> (r: Result<u128, ReviewError>)
    ensures
        match first_status(statuses@, project_id, false) {
            Some(s) => r == Ok::<u128, ReviewError>(s.id),
            None => r == Err::<u128, ReviewError>(ReviewError::NoDefaultStatus(project_id)),
        },
{
    match pick_status(statuses, project_id, false) {
        Some(s) => Ok(s.id),
        None => Err(ReviewError::NoDefaultStatus(project_id)),
    }
}

/// How a deferred task is closed when its finding leaves `deferred`.
#[derive(Debug, Clone, Copy, PartialEq, Eq, Structural)]
pub enum TaskClosing {
    /// Move it to the done status.
    Complete(u128),
    /// The project has no done status: soft-delete it instead.
    SoftDelete,
}

/// How to close the deferred task: completed under the project's done status
/// (lowest position), or soft-deleted when there is none, so that no
/// duplicate task is left to manage.
pub fn deferred_task_closing(statuses: &[ProjectStatus], project_id: u128) -> (r: TaskClosing)
    ensures
        match first_status(statuses@, project_id, true) {
            Some(s) => r == TaskClosing::Complete(s.id),
            None => r == TaskClosing::SoftDelete,
        },
{
    match pick_status(statuses, project_id, true) {
        Some(s) => TaskClosing::Complete(s.id),
        None => TaskClosing::SoftDelete,
    }
}

/// Whether a linked task still counts: it is in the project and not deleted.
/// A deleted task keeps its row, so the link alone does not tell.
pub open spec fn live_in(task: Task, project_id: u128) -> bool {
    task.project_id == project_id && task.deleted_at is None
}

/// Whether the linked task (if the row still exists) is live in the project.
pub fn is_live_in(task: Option<&Task>, project_id: u128) -> (r: bool)
    ensures
        r == (task matches Some(t) && live_in(*t, project_id)),
{
    match task {
        Some(t) => t.project_id == project_id && t.deleted_at.is_none(),
        None => false,
    }
}

/// A deferred task taken up again: under the status `status_id`, not completed.
pub open spec fn reopened_as(task: Task, status_id: u128) -> Task {
    Task {
        id: task.id,
        project_id: task.project_id,
        title: task.title,
        description: task.description,
        status_id,
        completed_at: None,
        deleted_at: task.deleted_at,
    }
}

/// The linked task reopened when the finding is deferred again: back under
/// the default status `status_id` (see `reopen_status`), its completion cleared.
pub fn reopened_task(task: Task, status_id: u128) -> (r: Task)
    ensures
        r == reopened_as(task, status_id),
{
    Task { status_id, completed_at: None, ..task }
}

/// A deferred task closed at `now`: completed under the done status, or
/// soft-deleted when the project has none.
pub open spec fn closed_as(task: Task, closing: TaskClosing, now: i64) -> Task {
    match closing {
        TaskClosing::Complete(status_id) => Task {
            id: task.id,
            project_id: task.project_id,
            title: task.title,
            description: task.description,
            status_id,
            completed_at: Some(now),
            deleted_at: task.deleted_at,
        },
        TaskClosing::SoftDelete => Task {
            id: task.id,
            project_id: task.project_id,
            title: task.title,
            description: task.description,
            status_id: task.status_id,
            completed_at: task.completed_at,
            deleted_at: Some(now),
        },
    }
}

/// The linked task as the finding leaves `deferred`: closed as `closing` says
/// when it is still live in the project; when it is gone or deleted, nothing
/// is written (`None`).
pub fn closed_task(task: Option<Task>, project_id: u128, closing: TaskClosing, now: i64) -> (r: Option<Task>)
    ensures
        match task {
            Some(t) => if live_in(t, project_id) {
                r == Some(closed_as(t, closing, now))
            } else {
                r is None
            },
            None => r is None,
        },
{
    match task {
        Some(t) => {
            if t.project_id != project_id || t.deleted_at.is_some() {
                return None;
            }
            match closing {
                TaskClosing::Complete(status_id) => Some(Task { status_id, completed_at: Some(now), ..t }),
                TaskClosing::SoftDelete => Some(Task { deleted_at: Some(now), ..t }),
            }
        },
        None => None,
    }
}

/// A row of a finding's history: who moved it, from which state (none when it
/// was filed) to which, with an optional note.
#[derive(Debug, Clone, PartialEq, Eq)]
pub struct TransitionRecord {
    pub finding_id: u128,
    pub actor_id: u128,
    pub from_state: Option<FindingState>,
    pub to_state: FindingState,
    pub note: Option<String>,
}

/// The history row a transition of `finding` to `to` by `actor_id` leaves;
/// every transition is recorded, with who made it.
pub fn transition_record(finding: &ReviewFinding, to: FindingState, actor_id: u128, note: Option<String>) -> (r:
    TransitionRecord)
    ensures
        r == (TransitionRecord {
            finding_id: finding.id,
            actor_id,
            from_state: Some(finding.state),
            to_state: to,
            note,
        }),
{
    TransitionRecord { finding_id: finding.id, actor_id, from_state: Some(finding.state), to_state: to, note }
}

/// The title prefix of a deferred task.
pub open spec fn deferred_title_prefix() -> Seq<char> {
    "[レビュー指摘] "@
}

/// How a severity is named in a deferred task's description.
pub open spec fn severity_label(s: FindingSeverity) -> Seq<char> {
    match s {
        FindingSeverity::High => "High"@,
        FindingSeverity::Medium => "Medium"@,
        FindingSeverity::Low => "Low"@,
        FindingSeverity::Nit => "Nit"@,
    }
}

/// Where the finding points, as the description of a deferred task shows it.
pub open spec fn location_note(file: Option<Seq<char>>, line: Option<i32>) -> Seq<char> {
    match (file, line) {
        (Some(f), Some(l)) => "\n\n対象: `"@ + f + ":"@ + decimal(l as int) + "`"@,
        (Some(f), None) => "\n\n対象: `"@ + f + "`"@,
        _ => Seq::empty(),
    }
}

/// The description of the task a finding is deferred to.
pub open spec fn deferred_description(finding: ReviewFinding, review: ReviewRound) -> Seq<char> {
    "PR #"@ + decimal(review.pr_number as int) + " R"@ + decimal(review.round as int)
        + " のレビュー指摘（"@ + severity_label(finding.severity) + "）を繰り延べたタスク。\n\n"@
        + finding.body@ + location_note(
        match finding.file {
            Some(f) => Some(f@),
            None => None,
        },
        finding.line,
    )
}

/// A task to be filed (the store gives it its id and sequence number).
#[derive(Debug, Clone, PartialEq, Eq)]
pub struct TaskDraft {
    pub project_id: u128,
    pub title: String,
    pub description: Option<String>,
    pub status_id: u128,
    pub priority: TaskPriority,
    pub created_by: u128,
}

impl FindingSeverity {
    fn label(&self) -> (r: &'static str)
        ensures
            r@ == severity_label(*self),
    {
        match self {
            FindingSeverity::High => {
                proof { reveal_strlit("High"); }
                "High"
            },
            FindingSeverity::Medium => {
                proof { reveal_strlit("Medium"); }
                "Medium"
            },
            FindingSeverity::Low => {
                proof { reveal_strlit("Low"); }
                "Low"
            },
            FindingSeverity::Nit => {
                proof { reveal_strlit("Nit"); }
                "Nit"
            },
        }
    }
}

fn location_text(file: &Option<String>, line: Option<i32>) -> (r: String)
    ensures
        r@ == location_note(
            match file {
                Some(f) => Some(f@),
                None => None,
            },
            line,
        ),
{
    proof {
        reveal_strlit("\n\n対象: `");
        reveal_strlit(":");
        reveal_strlit("`");
    }
    match (file, line) {
        (Some(f), Some(l)) => {
            let n = decimal_text(l as i64);
            String::from_str("\n\n対象: `").concat(f.as_str()).concat(":").concat(n.as_str()).concat("`")
        },
        (Some(f), None) => String::from_str("\n\n対象: `").concat(f.as_str()).concat("`"),
        _ => String::new(),
    }
}

/// The task a finding is deferred to: the finding's title under a fixed prefix,
/// its body and location in the description, priority low, filed under the
/// project's default status (lowest position) by the one deferring.
pub fn deferred_task_draft(
    project_id: u128,
    finding: &ReviewFinding,
    review: &ReviewRound,
    statuses: &[ProjectStatus],
    actor_id: u128,
) -> (r: Result<TaskDraft, ReviewError>)
    ensures
        match first_status(statuses@, project_id, false) {
            None => r == Err::<TaskDraft, ReviewError>(ReviewError::NoDefaultStatus(project_id)),
            Some(s) => r matches Ok(d) && {
                &&& d.project_id == project_id
                &&& d.status_id == s.id
                &&& d.title@ == deferred_title_prefix() + finding.title@
                &&& d.description matches Some(text) && text@ == deferred_description(*finding, *review)
                &&& d.priority == TaskPriority::Low
                &&& d.created_by == actor_id
            },
        },
{
    let status = match pick_status(statuses, project_id, false) {
        Some(s) => s,
        None => {
            return Err(ReviewError::NoDefaultStatus(project_id));
        },
    };
    proof {
        reveal_strlit("[レビュー指摘] ");
        reveal_strlit("PR #");
        reveal_strlit(" R");
        reveal_strlit(" のレビュー指摘（");
        reveal_strlit("）を繰り延べたタスク。\n\n");
    }
    let title = String::from_str("[レビュー指摘] ").concat(finding.title.as_str());
    let pr = decimal_text(review.pr_number as i64);
    let round = decimal_text(review.round as i64);
    let location = location_text(&finding.file, finding.line);
    let description = String::from_str("PR #").concat(pr.as_str()).concat(" R").concat(
        round.as_str(),
    ).concat(" のレビュー指摘（").concat(finding.severity.label()).concat(
        "）を繰り延べたタスク。\n\n",
    ).concat(finding.body.as_str()).concat(location.as_str());
    Ok(
        TaskDraft {
            project_id,
            title,
            description: Some(description),
            status_id: status.id,
            priority: TaskPriority::Low,
            created_by: actor_id,
        },
    )
}


/// The author of the in-scope round with id `review_id` (the first listed).
pub open spec fn author_of_round(
    rounds: Seq<ReviewRound>,
    project_id: u128,
    owner: Seq<char>,
    name: Seq<char>,
    pr_number: i32,
    review_id: u128,
) -> Option<u128>
    decreases rounds.len(),
{
    if rounds.len() == 0 {
        None
    } else if rounds[0].id == review_id && in_scope(rounds[0], project_id, owner, name, pr_number) {
        Some(rounds[0].reviewer_id)
    } else {
        author_of_round(rounds.drop_first(), project_id, owner, name, pr_number, review_id)
    }
}

/// How many of the rejections `(round id, actor)` were made by someone other
/// than the author of the round that raised the finding.
pub open spec fn override_count(
    rows: Seq<(u128, u128)>,
    rounds: Seq<ReviewRound>,
    project_id: u128,
    owner: Seq<char>,
    name: Seq<char>,
    pr_number: i32,
) -> nat
    decreases rows.len(),
{
    if rows.len() == 0 {
        0
    } else {
        let row = rows.last();
        let here: nat = match author_of_round(rounds, project_id, owner, name, pr_number, row.0) {
            Some(author) => if author != row.1 { 1 } else { 0 },
            None => 0,
        };
        override_count(rows.drop_last(), rounds, project_id, owner, name, pr_number) + here
    }
}

fn author_of(rounds: &[ReviewRound], project_id: u128, repo: &RepoRef, pr_number: i32, review_id: u128) -> (r:
    Option<u128>)
    ensures
        r == author_of_round(rounds@, project_id, repo.owner@, repo.name@, pr_number, review_id),
{
    let mut i: usize = 0;
    assert(rounds@.skip(0) =~= rounds@);
    while i < rounds.len()
        invariant
            i <= rounds.len(),
            author_of_round(rounds@, project_id, repo.owner@, repo.name@, pr_number, review_id)
                == author_of_round(rounds@.skip(i as int), project_id, repo.owner@, repo.name@, pr_number, review_id),
        decreases rounds.len() - i,
    {
        assert(rounds@.skip(i as int)[0] == rounds@[i as int]);
        assert(rounds@.skip(i as int).drop_first() =~= rounds@.skip(i + 1));
        let r = &rounds[i];
        if r.id == review_id && r.project_id == project_id && r.repo_owner == repo.owner
            && r.repo_name == repo.name && r.pr_number == pr_number {
            return Some(r.reviewer_id);
        }
        i += 1;
    }
    None
}

/// How many findings of the pull request were withdrawn on the owner's
/// authority rather than by their author.
///
/// The condition for acting on behalf (the author left the tenant) is one the
/// owner can create, so it leaves a trace instead of being prevented. `rows`
/// are the `rejected` transitions of the project's findings, each as the id of
/// the finding's round and the actor.
pub fn owner_override_rejection_count(
    rounds: &[ReviewRound],
    project_id: u128,
    repo: &RepoRef,
    pr_number: i32,
    rows: &[(u128, u128)],
) -> (r: u64)
    ensures
        r == override_count(rows@, rounds@, project_id, repo.owner@, repo.name@, pr_number),
{
    let mut count: u64 = 0;
    let mut i: usize = 0;
    while i < rows.len()
        invariant
            i <= rows.len(),
            count == override_count(rows@.take(i as int), rounds@, project_id, repo.owner@, repo.name@, pr_number),
            count <= i,
        decreases rows.len() - i,
    {
        proof {
            assert(rows@.take(i + 1).drop_last() =~= rows@.take(i as int));
            assert(rows@.take(i + 1).last() == rows@[i as int]);
        }
        let (review_id, actor_id) = rows[i];
        match author_of(rounds, project_id, repo, pr_number, review_id) {
            Some(author) => {
                if author != actor_id {
                    count += 1;
                }
            },
            None => {},
        }
        i += 1;
    }
    proof {
        assert(rows@.take(rows.len() as int) =~= rows@);
    }
    count
}

/// Whether the finding belongs to a round of the pull request.
pub open spec fn finding_in_pr(
    f: ReviewFinding,
    rounds: Seq<ReviewRound>,
    project_id: u128,
    owner: Seq<char>,
    name: Seq<char>,
    pr_number: i32,
) -> bool {
    exists|k: int|
        0 <= k < rounds.len() && rounds[k].id == f.review_id && in_scope(
            rounds[k],
            project_id,
            owner,
            name,
            pr_number,
        )
}

/// How many findings of the pull request have this severity and state.
pub open spec fn group_count(
    findings: Seq<ReviewFinding>,
    rounds: Seq<ReviewRound>,
    project_id: u128,
    owner: Seq<char>,
    name: Seq<char>,
    pr_number: i32,
    severity: FindingSeverity,
    state: FindingState,
) -> nat
    decreases findings.len(),
{
    if findings.len() == 0 {
        0
    } else {
        let f = findings.last();
        let here: nat = if f.severity == severity && f.state == state && finding_in_pr(
            f,
            rounds,
            project_id,
            owner,
            name,
            pr_number,
        ) {
            1
        } else {
            0
        };
        group_count(findings.drop_last(), rounds, project_id, owner, name, pr_number, severity, state)
            + here
    }
}

/// Every combination of severity and state, in the order the figures are given.
pub open spec fn all_groups() -> Seq<(FindingSeverity, FindingState)> {
    seq![
        (FindingSeverity::High, Open), (FindingSeverity::High, Fixed), (FindingSeverity::High, Verified),
        (FindingSeverity::High, Deferred), (FindingSeverity::High, Rejected),
        (FindingSeverity::Medium, Open), (FindingSeverity::Medium, Fixed), (FindingSeverity::Medium, Verified),
        (FindingSeverity::Medium, Deferred), (FindingSeverity::Medium, Rejected),
        (FindingSeverity::Low, Open), (FindingSeverity::Low, Fixed), (FindingSeverity::Low, Verified),
        (FindingSeverity::Low, Deferred), (FindingSeverity::Low, Rejected),
        (FindingSeverity::Nit, Open), (FindingSeverity::Nit, Fixed), (FindingSeverity::Nit, Verified),
        (FindingSeverity::Nit, Deferred), (FindingSeverity::Nit, Rejected),
    ]
}

/// The figures of the groups `groups` that have findings, in that order.
pub open spec fn counted_groups(
    groups: Seq<(FindingSeverity, FindingState)>,
    findings: Seq<ReviewFinding>,
    rounds: Seq<ReviewRound>,
    project_id: u128,
    owner: Seq<char>,
    name: Seq<char>,
    pr_number: i32,
) -> Seq<(FindingSeverity, FindingState, u64)>
    decreases groups.len(),
{
    if groups.len() == 0 {
        Seq::empty()
    } else {
        let before = counted_groups(groups.drop_last(), findings, rounds, project_id, owner, name, pr_number);
        let g = groups.last();
        let n = group_count(findings, rounds, project_id, owner, name, pr_number, g.0, g.1);
        if n > 0 {
            before.push((g.0, g.1, n as u64))
        } else {
            before
        }
    }
}

/// A group never counts more findings than there are.
pub proof fn lemma_group_count_bound(
    findings: Seq<ReviewFinding>,
    rounds: Seq<ReviewRound>,
    project_id: u128,
    owner: Seq<char>,
    name: Seq<char>,
    pr_number: i32,
    severity: FindingSeverity,
    state: FindingState,
)
    ensures
        group_count(findings, rounds, project_id, owner, name, pr_number, severity, state) <= findings.len(),
    decreases findings.len(),
{
    if findings.len() > 0 {
        lemma_group_count_bound(findings.drop_last(), rounds, project_id, owner, name, pr_number, severity, state);
    }
}

fn finding_in_pr_exec(
    f: &ReviewFinding,
    rounds: &[ReviewRound],
    project_id: u128,
    repo: &RepoRef,
    pr_number: i32,
) -> (r: bool)
    ensures
        r == finding_in_pr(*f, rounds@, project_id, repo.owner@, repo.name@, pr_number),
{
    let mut i: usize = 0;
    while i < rounds.len()
        invariant
            i <= rounds.len(),
            forall|k: int|
                0 <= k < i ==> !(rounds@[k].id == f.review_id && in_scope(
                    rounds@[k],
                    project_id,
                    repo.owner@,
                    repo.name@,
                    pr_number,
                )),
        decreases rounds.len() - i,
    {
        let r = &rounds[i];
        if r.id == f.review_id && r.project_id == project_id && r.repo_owner == repo.owner
            && r.repo_name == repo.name && r.pr_number == pr_number {
            return true;
        }
        i += 1;
    }
    false
}

fn count_group(
    findings: &[ReviewFinding],
    rounds: &[ReviewRound],
    project_id: u128,
    repo: &RepoRef,
    pr_number: i32,
    severity: FindingSeverity,
    state: FindingState,
) -> (r: u64)
    ensures
        r == group_count(findings@, rounds@, project_id, repo.owner@, repo.name@, pr_number, severity, state),
{
    let mut count: u64 = 0;
    let mut i: usize = 0;
    while i < findings.len()
        invariant
            i <= findings.len(),
            count == group_count(findings@.take(i as int), rounds@, project_id, repo.owner@, repo.name@, pr_number, severity, state),
            count <= i,
        decreases findings.len() - i,
    {
        proof {
            assert(findings@.take(i + 1).drop_last() =~= findings@.take(i as int));
            assert(findings@.take(i + 1).last() == findings@[i as int]);
        }
        let f = &findings[i];
        if f.severity == severity && f.state == state && finding_in_pr_exec(f, rounds, project_id, repo, pr_number) {
            count += 1;
        }
        i += 1;
    }
    proof {
        assert(findings@.take(findings.len() as int) =~= findings@);
    }
    count
}

fn groups_in_order() -> (r: Vec<(FindingSeverity, FindingState)>)
    ensures
        r@ == all_groups(),
{
    let r = vec![
        (FindingSeverity::High, FindingState::Open), (FindingSeverity::High, FindingState::Fixed),
        (FindingSeverity::High, FindingState::Verified), (FindingSeverity::High, FindingState::Deferred),
        (FindingSeverity::High, FindingState::Rejected),
        (FindingSeverity::Medium, FindingState::Open), (FindingSeverity::Medium, FindingState::Fixed),
        (FindingSeverity::Medium, FindingState::Verified), (FindingSeverity::Medium, FindingState::Deferred),
        (FindingSeverity::Medium, FindingState::Rejected),
        (FindingSeverity::Low, FindingState::Open), (FindingSeverity::Low, FindingState::Fixed),
        (FindingSeverity::Low, FindingState::Verified), (FindingSeverity::Low, FindingState::Deferred),
        (FindingSeverity::Low, FindingState::Rejected),
        (FindingSeverity::Nit, FindingState::Open), (FindingSeverity::Nit, FindingState::Fixed),
        (FindingSeverity::Nit, FindingState::Verified), (FindingSeverity::Nit, FindingState::Deferred),
        (FindingSeverity::Nit, FindingState::Rejected),
    ];
    assert(r@ =~= all_groups());
    r
}

/// The figures of a pull request: for each severity and state that has
/// findings, how many. `findings` and `rounds` are the project's; only the
/// findings of rounds of this pull request of this repository count.
pub fn severity_state_counts(
    findings: &[ReviewFinding],
    rounds: &[ReviewRound],
    project_id: u128,
    repo: &RepoRef,
    pr_number: i32,
) -> (r: Vec<(FindingSeverity, FindingState, u64)>)
    ensures
        r@ == counted_groups(all_groups(), findings@, rounds@, project_id, repo.owner@, repo.name@, pr_number),
{
    let groups = groups_in_order();
    let mut out: Vec<(FindingSeverity, FindingState, u64)> = Vec::new();
    let mut i: usize = 0;
    while i < groups.len()
        invariant
            i <= groups.len(),
            groups@ == all_groups(),
            out@ == counted_groups(groups@.take(i as int), findings@, rounds@, project_id, repo.owner@, repo.name@, pr_number),
        decreases groups.len() - i,
    {
        proof {
            assert(groups@.take(i + 1).drop_last() =~= groups@.take(i as int));
            assert(groups@.take(i + 1).last() == groups@[i as int]);
        }
        let (severity, state) = groups[i];
        let n = count_group(findings, rounds, project_id, repo, pr_number, severity, state);
        if n > 0 {
            out.push((severity, state, n));
        }
        i += 1;
    }
    proof {
        assert(groups@.take(groups.len() as int) =~= groups@);
    }
    out
}

/// The findings a group of figures says block the merge.
pub open spec fn blocking_sum(counts: Seq<(FindingSeverity, FindingState, u64)>) -> int
    decreases counts.len(),
{
    if counts.len() == 0 {
        0
    } else {
        let c = counts.last();
        blocking_sum(counts.drop_last()) + if spec_blocks_merge(c.0) && spec_counts_as_unresolved(c.1) {
            c.2 as int
        } else {
            0
        }
    }
}

proof fn lemma_blocking_sum_prefix(counts: Seq<(FindingSeverity, FindingState, u64)>, j: int)
    requires
        0 <= j <= counts.len(),
    ensures
        blocking_sum(counts.take(j)) <= blocking_sum(counts),
    decreases counts.len(),
{
    if j < counts.len() {
        lemma_blocking_sum_prefix(counts.drop_last(), j);
        assert(counts.drop_last().take(j) =~= counts.take(j));
    } else {
        assert(counts.take(j) =~= counts);
    }
}

/// How many findings block the merge: high and medium ones still open or fixed.
pub fn blocking_count(counts: &[(FindingSeverity, FindingState, u64)]) -> (r: u64)
    requires
        blocking_sum(counts@) <= u64::MAX,
    ensures
        r == blocking_sum(counts@),
{
    let mut total: u64 = 0;
    let mut i: usize = 0;
    assert forall|j: int| 0 <= j <= counts.len() implies blocking_sum(#[trigger] counts@.take(j)) <= blocking_sum(counts@) by {
        lemma_blocking_sum_prefix(counts@, j);
    }
    while i < counts.len()
        invariant
            i <= counts.len(),
            total == blocking_sum(counts@.take(i as int)),
            blocking_sum(counts@) <= u64::MAX,
            forall|j: int| 0 <= j <= counts.len() ==> blocking_sum(#[trigger] counts@.take(j)) <= blocking_sum(counts@),
        decreases counts.len() - i,
    {
        proof {
            assert(counts@.take(i + 1).drop_last() =~= counts@.take(i as int));
            assert(counts@.take(i + 1).last() == counts@[i as int]);
        }
        let (severity, state, n) = counts[i];
        if severity.blocks_merge() && state.counts_as_unresolved() {
            total += n;
        }
        i += 1;
    }
    proof {
        assert(counts@.take(counts.len() as int) =~= counts@);
    }
    total
}

} // verus!
