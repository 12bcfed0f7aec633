//! What the rules of review findings guarantee across calls.

use vstd::prelude::*;

use crate::access::{Tenant, TenantMember};
use crate::reviews::{
    finding_author_only, in_scope, latest_in_scope, link_after, reviewer_side_only,
    spec_deferred_task_step, spec_is_reviewer_side, spec_may_reject_on_behalf, spec_round_count,
    spec_transition_check, transition_allowed, DeferredTaskStep, ReviewError,
    all_groups, author_of_round, blocking_sum, counted_groups, finding_in_pr, group_count, lemma_group_count_bound,
    override_count,
    spec_blocks_merge, spec_counts_as_unresolved, FindingSeverity, FindingState, ReviewFinding, ReviewRound,
};

verus! {

/// How many findings of the pull request block its merge: high or medium,
/// and open or fixed.
pub open spec fn blocking_findings(
    findings: Seq<ReviewFinding>,
    rounds: Seq<ReviewRound>,
    project_id: u128,
    owner: Seq<char>,
    name: Seq<char>,
    pr_number: i32,
) -> nat
    decreases findings.len(),
{
    if findings.len() == 0 {
        0
    } else {
        let f = findings.last();
        let here: nat = if spec_blocks_merge(f.severity) && spec_counts_as_unresolved(f.state)
            && finding_in_pr(f, rounds, project_id, owner, name, pr_number) {
            1
        } else {
            0
        };
        blocking_findings(findings.drop_last(), rounds, project_id, owner, name, pr_number) + here
    }
}

spec fn blocking_group_total(
    groups: Seq<(FindingSeverity, FindingState)>,
    findings: Seq<ReviewFinding>,
    rounds: Seq<ReviewRound>,
    project_id: u128,
    owner: Seq<char>,
    name: Seq<char>,
    pr_number: i32,
) -> int
    decreases groups.len(),
{
    if groups.len() == 0 {
        0
    } else {
        let g = groups.last();
        blocking_group_total(groups.drop_last(), findings, rounds, project_id, owner, name, pr_number)
            + if spec_blocks_merge(g.0) && spec_counts_as_unresolved(g.1) {
            group_count(findings, rounds, project_id, owner, name, pr_number, g.0, g.1) as int
        } else {
            0
        }
    }
}

proof fn lemma_sum_of_counted_groups(
    groups: Seq<(FindingSeverity, FindingState)>,
    findings: Seq<ReviewFinding>,
    rounds: Seq<ReviewRound>,
    project_id: u128,
    owner: Seq<char>,
    name: Seq<char>,
    pr_number: i32,
)
    requires
        findings.len() <= u64::MAX,
    ensures
        blocking_sum(counted_groups(groups, findings, rounds, project_id, owner, name, pr_number))
            == blocking_group_total(groups, findings, rounds, project_id, owner, name, pr_number),
    decreases groups.len(),
{
    if groups.len() > 0 {
        lemma_sum_of_counted_groups(groups.drop_last(), findings, rounds, project_id, owner, name, pr_number);
        let g = groups.last();
        let before = counted_groups(groups.drop_last(), findings, rounds, project_id, owner, name, pr_number);
        let n = group_count(findings, rounds, project_id, owner, name, pr_number, g.0, g.1);
        lemma_group_count_bound(findings, rounds, project_id, owner, name, pr_number, g.0, g.1);
        if n > 0 {
            let after = before.push((g.0, g.1, n as u64));
            assert(after.drop_last() =~= before);
            assert(after.last() == (g.0, g.1, n as u64));
        }
    }
}

proof fn lemma_blocking_findings_by_group(
    findings: Seq<ReviewFinding>,
    rounds: Seq<ReviewRound>,
    project_id: u128,
    owner: Seq<char>,
    name: Seq<char>,
    pr_number: i32,
)
    ensures
        blocking_findings(findings, rounds, project_id, owner, name, pr_number) == group_count(
            findings,
            rounds,
            project_id,
            owner,
            name,
            pr_number,
            FindingSeverity::High,
            FindingState::Open,
        ) + group_count(findings, rounds, project_id, owner, name, pr_number, FindingSeverity::High, FindingState::Fixed)
            + group_count(findings, rounds, project_id, owner, name, pr_number, FindingSeverity::Medium, FindingState::Open)
            + group_count(findings, rounds, project_id, owner, name, pr_number, FindingSeverity::Medium, FindingState::Fixed),
    decreases findings.len(),
{
    if findings.len() > 0 {
        lemma_blocking_findings_by_group(findings.drop_last(), rounds, project_id, owner, name, pr_number);
    }
}

/// The merge gate counts exactly the findings that must be resolved first:
/// the blocking count over a pull request's figures equals the number of its
/// high and medium findings that are open or fixed.
pub proof fn lemma_blocking_count_is_the_unresolved_blockers(
    findings: Seq<ReviewFinding>,
    rounds: Seq<ReviewRound>,
    project_id: u128,
    owner: Seq<char>,
    name: Seq<char>,
    pr_number: i32,
)
    requires
        findings.len() <= u64::MAX,
    ensures
        blocking_sum(counted_groups(all_groups(), findings, rounds, project_id, owner, name, pr_number))
            == blocking_findings(findings, rounds, project_id, owner, name, pr_number),
{
    lemma_sum_of_counted_groups(all_groups(), findings, rounds, project_id, owner, name, pr_number);
    lemma_blocking_findings_by_group(findings, rounds, project_id, owner, name, pr_number);
    reveal_with_fuel(blocking_group_total, 21);
    let gs = all_groups();
    assert(gs.len() == 20);
}


/// The merge figures add up over joined lists: the blocking count of two
/// lists of figures put together is the sum of their blocking counts (and the
/// empty list blocks nothing).
pub proof fn lemma_blocking_sum_adds_up(
    a: Seq<(FindingSeverity, FindingState, u64)>,
    b: Seq<(FindingSeverity, FindingState, u64)>,
)
    ensures
        blocking_sum(a + b) == blocking_sum(a) + blocking_sum(b),
        blocking_sum(Seq::<(FindingSeverity, FindingState, u64)>::empty()) == 0,
    decreases b.len(),
{
    if b.len() == 0 {
        assert(a + b =~= a);
    } else {
        lemma_blocking_sum_adds_up(a, b.drop_last());
        assert((a + b).drop_last() =~= a + b.drop_last());
        assert((a + b).last() == b.last());
    }
}

/// The order of the figures does not matter: lists holding the same figures,
/// in any order, have the same blocking count.
pub proof fn lemma_blocking_sum_ignores_order(
    a: Seq<(FindingSeverity, FindingState, u64)>,
    b: Seq<(FindingSeverity, FindingState, u64)>,
)
    requires
        a.to_multiset() == b.to_multiset(),
    ensures
        blocking_sum(a) == blocking_sum(b),
    decreases a.len(),
{
    a.to_multiset_ensures();
    b.to_multiset_ensures();
    if a.len() > 0 {
        let x = a.last();
        let rest = a.drop_last();
        rest.to_multiset_ensures();
        assert(rest.push(x) =~= a);
        assert(b.to_multiset().count(x) > 0);
        assert(b.contains(x));
        let j = choose|j: int| 0 <= j < b.len() && b[j] == x;
        let others = b.remove(j);
        assert(others.to_multiset() =~= rest.to_multiset());
        lemma_blocking_sum_ignores_order(rest, others);
        let head = b.subrange(0, j);
        let tail = b.subrange(j + 1, b.len() as int);
        assert(others =~= head + tail);
        assert(b =~= head + seq![x] + tail);
        lemma_blocking_sum_adds_up(head, tail);
        lemma_blocking_sum_adds_up(head, seq![x]);
        lemma_blocking_sum_adds_up(head + seq![x], tail);
        assert(seq![x].drop_last() =~= Seq::<(FindingSeverity, FindingState, u64)>::empty());
    }
}

/// Whether a round is one of the pull request `pr_number` of the repository
/// `owner/name` in the project, field by field.
pub open spec fn round_of_pr(r: ReviewRound, project_id: u128, owner: Seq<char>, name: Seq<char>, pr_number: i32) -> bool {
    r.project_id == project_id && r.repo_owner@ == owner && r.repo_name@ == name && r.pr_number == pr_number
}

/// The reviewing side belongs to one pull request of one repository: rounds of
/// other pull requests, other repositories or other projects never put anyone
/// on it, and adding them to the rounds changes nobody's standing.
pub proof fn lemma_reviewing_side_is_per_pull_request(
    rounds: Seq<ReviewRound>,
    others: Seq<ReviewRound>,
    project_id: u128,
    owner: Seq<char>,
    name: Seq<char>,
    pr_number: i32,
    round: i32,
    actor_id: u128,
)
    requires
        forall|j: int| 0 <= j < others.len() ==> !round_of_pr(others[j], project_id, owner, name, pr_number),
    ensures
        !spec_is_reviewer_side(others, project_id, owner, name, pr_number, round, actor_id),
        spec_is_reviewer_side(rounds + others, project_id, owner, name, pr_number, round, actor_id)
            == spec_is_reviewer_side(rounds, project_id, owner, name, pr_number, round, actor_id),
{
    let all = rounds + others;
    if spec_is_reviewer_side(all, project_id, owner, name, pr_number, round, actor_id) {
        let k = choose|k: int|
            0 <= k < all.len() && in_scope(all[k], project_id, owner, name, pr_number) && all[k].round >= round
                && all[k].reviewer_id == actor_id;
        if k >= rounds.len() {
            assert(all[k] == others[k - rounds.len()]);
            assert(false);
        }
        assert(all[k] == rounds[k]);
    }
    if spec_is_reviewer_side(rounds, project_id, owner, name, pr_number, round, actor_id) {
        let k = choose|k: int|
            0 <= k < rounds.len() && in_scope(rounds[k], project_id, owner, name, pr_number) && rounds[k].round
                >= round && rounds[k].reviewer_id == actor_id;
        assert(all[k] == rounds[k]);
    }
}

/// The author of a round of the pull request numbered `round` or later is on
/// its reviewing side; and whoever is on it authored such a round.
pub proof fn lemma_reviewing_side_is_the_later_authors(
    rounds: Seq<ReviewRound>,
    project_id: u128,
    owner: Seq<char>,
    name: Seq<char>,
    pr_number: i32,
    round: i32,
    actor_id: u128,
)
    ensures
        spec_is_reviewer_side(rounds, project_id, owner, name, pr_number, round, actor_id) <==> exists|k: int|
            0 <= k < rounds.len() && #[trigger] round_of_pr(rounds[k], project_id, owner, name, pr_number)
                && rounds[k].round >= round && rounds[k].reviewer_id == actor_id,
{
    if spec_is_reviewer_side(rounds, project_id, owner, name, pr_number, round, actor_id) {
        let k = choose|k: int|
            0 <= k < rounds.len() && in_scope(rounds[k], project_id, owner, name, pr_number) && rounds[k].round
                >= round && rounds[k].reviewer_id == actor_id;
        assert(round_of_pr(rounds[k], project_id, owner, name, pr_number));
    }
    if exists|k: int|
        0 <= k < rounds.len() && #[trigger] round_of_pr(rounds[k], project_id, owner, name, pr_number)
            && rounds[k].round >= round && rounds[k].reviewer_id == actor_id {
        let k = choose|k: int|
            0 <= k < rounds.len() && #[trigger] round_of_pr(rounds[k], project_id, owner, name, pr_number)
                && rounds[k].round >= round && rounds[k].reviewer_id == actor_id;
        assert(in_scope(rounds[k], project_id, owner, name, pr_number));
    }
}

/// Figures of a pull request only count findings of its rounds: findings
/// whose rounds belong to another pull request, repository or project add
/// nothing to any group.
pub proof fn lemma_figures_count_only_the_pull_request(
    findings: Seq<ReviewFinding>,
    others: Seq<ReviewFinding>,
    rounds: Seq<ReviewRound>,
    project_id: u128,
    owner: Seq<char>,
    name: Seq<char>,
    pr_number: i32,
    severity: FindingSeverity,
    state: FindingState,
)
    requires
        forall|j: int, k: int|
            0 <= j < others.len() && 0 <= k < rounds.len() && rounds[k].id == others[j].review_id
                ==> !round_of_pr(rounds[k], project_id, owner, name, pr_number),
    ensures
        group_count(findings + others, rounds, project_id, owner, name, pr_number, severity, state)
            == group_count(findings, rounds, project_id, owner, name, pr_number, severity, state),
    decreases others.len(),
{
    if others.len() == 0 {
        assert(findings + others =~= findings);
    } else {
        lemma_figures_count_only_the_pull_request(
            findings,
            others.drop_last(),
            rounds,
            project_id,
            owner,
            name,
            pr_number,
            severity,
            state,
        );
        let all = findings + others;
        assert(all.drop_last() =~= findings + others.drop_last());
        assert(all.last() == others.last());
        let f = others.last();
        if finding_in_pr(f, rounds, project_id, owner, name, pr_number) {
            let k = choose|k: int|
                0 <= k < rounds.len() && rounds[k].id == f.review_id && in_scope(
                    rounds[k],
                    project_id,
                    owner,
                    name,
                    pr_number,
                );
            assert(!round_of_pr(rounds[k], project_id, owner, name, pr_number));
        }
    }
}

/// A pull request with no round under the repository has no figures: for a
/// repository linked anew, the old repository's findings of the same number
/// count nothing.
pub proof fn lemma_no_round_no_figures(
    findings: Seq<ReviewFinding>,
    rounds: Seq<ReviewRound>,
    project_id: u128,
    owner: Seq<char>,
    name: Seq<char>,
    pr_number: i32,
)
    requires
        forall|k: int| 0 <= k < rounds.len() ==> !round_of_pr(rounds[k], project_id, owner, name, pr_number),
    ensures
        forall|severity: FindingSeverity, state: FindingState|
            group_count(findings, rounds, project_id, owner, name, pr_number, severity, state) == 0,
        counted_groups(all_groups(), findings, rounds, project_id, owner, name, pr_number) == Seq::<
            (FindingSeverity, FindingState, u64),
        >::empty(),
{
    assert forall|severity: FindingSeverity, state: FindingState|
        group_count(findings, rounds, project_id, owner, name, pr_number, severity, state) == 0 by {
        lemma_figures_count_only_the_pull_request(
            Seq::empty(),
            findings,
            rounds,
            project_id,
            owner,
            name,
            pr_number,
            severity,
            state,
        );
        assert(Seq::<ReviewFinding>::empty() + findings =~= findings);
    }
    lemma_no_groups_counted(all_groups(), findings, rounds, project_id, owner, name, pr_number);
}

proof fn lemma_no_groups_counted(
    groups: Seq<(FindingSeverity, FindingState)>,
    findings: Seq<ReviewFinding>,
    rounds: Seq<ReviewRound>,
    project_id: u128,
    owner: Seq<char>,
    name: Seq<char>,
    pr_number: i32,
)
    requires
        forall|severity: FindingSeverity, state: FindingState|
            group_count(findings, rounds, project_id, owner, name, pr_number, severity, state) == 0,
    ensures
        counted_groups(groups, findings, rounds, project_id, owner, name, pr_number) == Seq::<
            (FindingSeverity, FindingState, u64),
        >::empty(),
    decreases groups.len(),
{
    if groups.len() > 0 {
        lemma_no_groups_counted(groups.drop_last(), findings, rounds, project_id, owner, name, pr_number);
        let g = groups.last();
        assert(group_count(findings, rounds, project_id, owner, name, pr_number, g.0, g.1) == 0);
    }
}

proof fn lemma_author_of_round_found(
    rounds: Seq<ReviewRound>,
    project_id: u128,
    owner: Seq<char>,
    name: Seq<char>,
    pr_number: i32,
    review_id: u128,
)
    ensures
        match author_of_round(rounds, project_id, owner, name, pr_number, review_id) {
            Some(a) => exists|k: int|
                0 <= k < rounds.len() && rounds[k].id == review_id && round_of_pr(
                    rounds[k],
                    project_id,
                    owner,
                    name,
                    pr_number,
                ) && rounds[k].reviewer_id == a,
            None => forall|k: int|
                0 <= k < rounds.len() ==> !(rounds[k].id == review_id && round_of_pr(
                    rounds[k],
                    project_id,
                    owner,
                    name,
                    pr_number,
                )),
        },
    decreases rounds.len(),
{
    if rounds.len() > 0 {
        lemma_author_of_round_found(rounds.drop_first(), project_id, owner, name, pr_number, review_id);
        match author_of_round(rounds.drop_first(), project_id, owner, name, pr_number, review_id) {
            Some(a) => {
                if !(rounds[0].id == review_id && in_scope(rounds[0], project_id, owner, name, pr_number)) {
                    let k = choose|k: int|
                        0 <= k < rounds.drop_first().len() && rounds.drop_first()[k].id == review_id && round_of_pr(
                            rounds.drop_first()[k],
                            project_id,
                            owner,
                            name,
                            pr_number,
                        ) && rounds.drop_first()[k].reviewer_id == a;
                    assert(rounds[k + 1] == rounds.drop_first()[k]);
                }
            },
            None => {
                assert forall|k: int| 0 <= k < rounds.len() implies !(rounds[k].id == review_id && round_of_pr(
                    rounds[k],
                    project_id,
                    owner,
                    name,
                    pr_number,
                )) || (rounds[0].id == review_id && in_scope(rounds[0], project_id, owner, name, pr_number)) by {
                    if k > 0 {
                        assert(rounds[k] == rounds.drop_first()[k - 1]);
                    }
                }
            },
        }
    }
}

/// An override is a withdrawal by someone other than the finding's author:
/// a rejection by the author of the finding's round (of this pull request)
/// adds nothing to the count, one by anybody else adds one, and one whose
/// round is not of this pull request adds nothing. Round ids identify rounds.
pub proof fn lemma_overrides_are_rejections_by_others(
    rows: Seq<(u128, u128)>,
    row: (u128, u128),
    rounds: Seq<ReviewRound>,
    project_id: u128,
    owner: Seq<char>,
    name: Seq<char>,
    pr_number: i32,
    k: int,
)
    requires
        forall|a: int, b: int| 0 <= a < rounds.len() && 0 <= b < rounds.len() && rounds[a].id == rounds[b].id ==> a == b,
        0 <= k < rounds.len(),
        rounds[k].id == row.0,
    ensures
        round_of_pr(rounds[k], project_id, owner, name, pr_number) && rounds[k].reviewer_id == row.1 ==> override_count(
            rows.push(row),
            rounds,
            project_id,
            owner,
            name,
            pr_number,
        ) == override_count(rows, rounds, project_id, owner, name, pr_number),
        round_of_pr(rounds[k], project_id, owner, name, pr_number) && rounds[k].reviewer_id != row.1 ==> override_count(
            rows.push(row),
            rounds,
            project_id,
            owner,
            name,
            pr_number,
        ) == override_count(rows, rounds, project_id, owner, name, pr_number) + 1,
        !round_of_pr(rounds[k], project_id, owner, name, pr_number) ==> override_count(
            rows.push(row),
            rounds,
            project_id,
            owner,
            name,
            pr_number,
        ) == override_count(rows, rounds, project_id, owner, name, pr_number),
{
    assert(rows.push(row).drop_last() =~= rows);
    assert(rows.push(row).last() == row);
    lemma_author_of_round_found(rounds, project_id, owner, name, pr_number, row.0);
    match author_of_round(rounds, project_id, owner, name, pr_number, row.0) {
        Some(a) => {
            let j = choose|j: int|
                0 <= j < rounds.len() && rounds[j].id == row.0 && round_of_pr(
                    rounds[j],
                    project_id,
                    owner,
                    name,
                    pr_number,
                ) && rounds[j].reviewer_id == a;
            assert(j == k);
        },
        None => {
            assert(!(rounds[k].id == row.0 && round_of_pr(rounds[k], project_id, owner, name, pr_number)));
        },
    }
}

/// `verified` is terminal: no transition leaves it (a verification found wrong
/// is raised again in a new round).
pub proof fn lemma_verified_is_terminal(to: FindingState)
    ensures
        !transition_allowed(FindingState::Verified, to),
{
}

/// No transition keeps the state: the history only grows with real moves.
pub proof fn lemma_no_transition_to_itself(state: FindingState)
    ensures
        !transition_allowed(state, state),
{
}

/// The reviewing-side-only and author-only transitions are transitions of the table,
/// disjoint from each other, and leave the fixing side's moves (declaring a
/// fix, deferring, taking a deferral back) free of both.
pub proof fn lemma_role_rules_partition(from: FindingState, to: FindingState)
    ensures
        reviewer_side_only(from, to) ==> transition_allowed(from, to),
        finding_author_only(from, to) ==> transition_allowed(from, to),
        !(reviewer_side_only(from, to) && finding_author_only(from, to)),
        (from == FindingState::Open && to == FindingState::Fixed) || (from == FindingState::Open && to
            == FindingState::Deferred) || (from == FindingState::Deferred && to == FindingState::Open)
            ==> !reviewer_side_only(from, to) && !finding_author_only(from, to),
{
}

/// Only low and nit findings can be deferred: a deferral that is allowed is
/// one of a severity that does not block the merge.
pub proof fn lemma_only_non_blocking_findings_are_deferred(
    finding: ReviewFinding,
    review: ReviewRound,
    actor_id: u128,
    rounds: Seq<ReviewRound>,
    tenant: Option<Tenant>,
    members: Seq<TenantMember>,
)
    ensures
        spec_transition_check(finding, review, FindingState::Deferred, actor_id, rounds, tenant, members)
            is Ok ==> !spec_blocks_merge(finding.severity),
        spec_blocks_merge(finding.severity) && transition_allowed(finding.state, FindingState::Deferred)
            ==> spec_transition_check(finding, review, FindingState::Deferred, actor_id, rounds, tenant, members)
            == Err::<(), ReviewError>(ReviewError::NotDeferrable(finding.severity)),
{
}

/// Whoever declared the fix cannot verify it, however the finding moved since
/// (the declarer is kept when the finding leaves `fixed`).
pub proof fn lemma_fixer_cannot_verify_own_fix(
    finding: ReviewFinding,
    review: ReviewRound,
    actor_id: u128,
    rounds: Seq<ReviewRound>,
    tenant: Option<Tenant>,
    members: Seq<TenantMember>,
)
    requires
        finding.fixed_by == Some(actor_id),
    ensures
        spec_transition_check(finding, review, FindingState::Verified, actor_id, rounds, tenant, members)
            is Err,
        finding.state == FindingState::Fixed ==> spec_transition_check(
            finding,
            review,
            FindingState::Verified,
            actor_id,
            rounds,
            tenant,
            members,
        ) == Err::<(), ReviewError>(ReviewError::SelfVerification),
{
}

/// A withdrawal (or taking one back) that is allowed was made by the author of
/// the finding's round, or by the tenant owner after that author left the tenant.
pub proof fn lemma_withdrawal_is_by_author_or_owner(
    finding: ReviewFinding,
    review: ReviewRound,
    to: FindingState,
    actor_id: u128,
    rounds: Seq<ReviewRound>,
    tenant: Option<Tenant>,
    members: Seq<TenantMember>,
)
    requires
        finding_author_only(finding.state, to),
        spec_transition_check(finding, review, to, actor_id, rounds, tenant, members) is Ok,
    ensures
        actor_id == review.reviewer_id || (tenant matches Some(t) && t.owner_id == actor_id
            && review.reviewer_id != t.owner_id
            && spec_may_reject_on_behalf(review, tenant, members, actor_id)),
{
}

/// A verification or send-back that is allowed was made by the reviewing side:
/// the author of the finding's round or of a later round of the same pull
/// request of the same repository.
pub proof fn lemma_verification_is_by_reviewer_side(
    finding: ReviewFinding,
    review: ReviewRound,
    to: FindingState,
    actor_id: u128,
    rounds: Seq<ReviewRound>,
    tenant: Option<Tenant>,
    members: Seq<TenantMember>,
)
    requires
        reviewer_side_only(finding.state, to),
        spec_transition_check(finding, review, to, actor_id, rounds, tenant, members) is Ok,
    ensures
        spec_is_reviewer_side(
            rounds,
            review.project_id,
            review.repo_owner@,
            review.repo_name@,
            review.pr_number,
            review.round,
            actor_id,
        ),
        finding.fixed_by != Some(actor_id) || to != FindingState::Verified,
{
}

/// At most one live task per finding: a finding is linked to a task exactly
/// while it is deferred. Deferring files a task and links it; taking the
/// deferral back closes the linked task and drops the link (so deferring again
/// files a new task); every other move leaves the finding unlinked. Stated for
/// a finding that is unlinked unless deferred, which every finding is from its
/// filing on, since each transition keeps it so.
pub proof fn lemma_linked_only_while_deferred(
    finding: ReviewFinding,
    to: FindingState,
    linked_task_is_live: bool,
    created_task: Option<u128>,
)
    requires
        finding.state != FindingState::Deferred ==> finding.deferred_task_id is None,
        transition_allowed(finding.state, to),
        spec_deferred_task_step(finding.state, to, finding.deferred_task_id, linked_task_is_live)
            == DeferredTaskStep::Create ==> created_task is Some,
    ensures
        ({
            let step = spec_deferred_task_step(finding.state, to, finding.deferred_task_id, linked_task_is_live);
            let link = link_after(step, finding.deferred_task_id, created_task);
            &&& (to != FindingState::Deferred ==> link is None)
            &&& (to == FindingState::Deferred ==> step == DeferredTaskStep::Create && link == created_task
                && link is Some)
            &&& (finding.deferred_task_id matches Some(t) ==> step == DeferredTaskStep::Close(t))
        }),
{
}

/// Numbering a round makes it the latest: after adding a round numbered
/// `next_round` to the pull request, the pull request has that many rounds.
pub proof fn lemma_new_round_becomes_the_latest(
    rounds: Seq<ReviewRound>,
    new_round: ReviewRound,
    project_id: u128,
    owner: Seq<char>,
    name: Seq<char>,
    pr_number: i32,
)
    requires
        in_scope(new_round, project_id, owner, name, pr_number),
        new_round.round == spec_round_count(rounds, project_id, owner, name, pr_number) + 1,
    ensures
        latest_in_scope(rounds.push(new_round), project_id, owner, name, pr_number) == Some(new_round),
        spec_round_count(rounds.push(new_round), project_id, owner, name, pr_number) == new_round.round,
{
    let after = rounds.push(new_round);
    assert(after.drop_last() =~= rounds);
    assert(after.last() == new_round);
}

} // verus!
