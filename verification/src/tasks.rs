//! Tasks and the statuses of a project, as far as the rest of the library reads them.

use vstd::prelude::*;

verus! {

/// Priority of a task, from the most urgent.
#[derive(Debug, Clone, Copy, PartialEq, Eq, Structural)]
pub enum TaskPriority {
    CriticalFire,
    Critical,
    High,
    Medium,
    Low,
    Trivial,
}

/// How a priority is spelled in queries (`snake_case`).
pub open spec fn priority_value(p: TaskPriority) -> Seq<char> {
    match p {
        TaskPriority::CriticalFire => "critical_fire"@,
        TaskPriority::Critical => "critical"@,
        TaskPriority::High => "high"@,
        TaskPriority::Medium => "medium"@,
        TaskPriority::Low => "low"@,
        TaskPriority::Trivial => "trivial"@,
    }
}

/// Every priority, from the most urgent.
pub open spec fn all_priorities() -> Seq<TaskPriority> {
    seq![
        TaskPriority::CriticalFire,
        TaskPriority::Critical,
        TaskPriority::High,
        TaskPriority::Medium,
        TaskPriority::Low,
        TaskPriority::Trivial,
    ]
}

impl TaskPriority {
    /// The spelling in queries.
    pub fn to_value(&self) -> (r: &'static str)
        ensures
            r@ == priority_value(*self),
    {
        match self {
            TaskPriority::CriticalFire => {
                proof { reveal_strlit("critical_fire"); }
                "critical_fire"
            },
            TaskPriority::Critical => {
                proof { reveal_strlit("critical"); }
                "critical"
            },
            TaskPriority::High => {
                proof { reveal_strlit("high"); }
                "high"
            },
            TaskPriority::Medium => {
                proof { reveal_strlit("medium"); }
                "medium"
            },
            TaskPriority::Low => {
                proof { reveal_strlit("low"); }
                "low"
            },
            TaskPriority::Trivial => {
                proof { reveal_strlit("trivial"); }
                "trivial"
            },
        }
    }

    /// Every priority, from the most urgent.
    pub fn values() -> (r: Vec<TaskPriority>)
        ensures
            r@ == all_priorities(),
    {
        let r = vec![
            TaskPriority::CriticalFire,
            TaskPriority::Critical,
            TaskPriority::High,
            TaskPriority::Medium,
            TaskPriority::Low,
            TaskPriority::Trivial,
        ];
        assert(r@ =~= all_priorities());
        r
    }
}

/// A status a project defines for its tasks.
#[derive(Debug, Clone, Copy, PartialEq, Eq)]
pub struct ProjectStatus {
    pub id: u128,
    pub project_id: u128,
    pub position: i32,
    /// New tasks start here.
    pub is_default: bool,
    /// Tasks here count as done.
    pub is_done_state: bool,
}

/// A task, as far as synchronisation and deferral read it.
#[derive(Debug, Clone, PartialEq, Eq)]
pub struct Task {
    pub id: u128,
    pub project_id: u128,
    pub title: String,
    pub description: Option<String>,
    pub status_id: u128,
    /// Seconds since the epoch.
    pub completed_at: Option<i64>,
    pub deleted_at: Option<i64>,
}

/// Whether a status of the project carries the flag asked for
/// (`is_done_state` when `done`, else `is_default`).
pub open spec fn status_matches(s: ProjectStatus, project_id: u128, done: bool) -> bool {
    s.project_id == project_id && (if done { s.is_done_state } else { s.is_default })
}

/// The first matching status by position (the earliest listed among equal positions).
pub open spec fn first_status(statuses: Seq<ProjectStatus>, project_id: u128, done: bool) -> Option<
    ProjectStatus,
>
    decreases statuses.len(),
{
    if statuses.len() == 0 {
        None
    } else {
        let before = first_status(statuses.drop_last(), project_id, done);
        let s = statuses.last();
        if status_matches(s, project_id, done) && (before is None || s.position < before->0.position) {
            Some(s)
        } else {
            before
        }
    }
}

/// What `first_status` gives: a matching status that no matching status precedes by position.
pub proof fn lemma_first_status(statuses: Seq<ProjectStatus>, project_id: u128, done: bool)
    ensures
        match first_status(statuses, project_id, done) {
            Some(s) => statuses.contains(s) && status_matches(s, project_id, done) && forall|k: int|
                0 <= k < statuses.len() && status_matches(statuses[k], project_id, done)
                    ==> s.position <= statuses[k].position,
            None => forall|k: int|
                0 <= k < statuses.len() ==> !status_matches(statuses[k], project_id, done),
        },
    decreases statuses.len(),
{
    if statuses.len() > 0 {
        lemma_first_status(statuses.drop_last(), project_id, done);
        let before = first_status(statuses.drop_last(), project_id, done);
        if before is Some {
            let k = choose|k: int| 0 <= k < statuses.drop_last().len() && statuses.drop_last()[k] == before->0;
            assert(statuses[k] == before->0);
        }
        assert(statuses[statuses.len() - 1] == statuses.last());
        assert forall|k: int| 0 <= k < statuses.len() - 1 implies statuses[k] == statuses.drop_last()[k] by {}
    }
}

/// The status to use among the project's: the done status (lowest position)
/// when `done`, else the default status (lowest position).
pub fn pick_status(statuses: &[ProjectStatus], project_id: u128, done: bool) -> (r: Option<ProjectStatus>)
    ensures
        r == first_status(statuses@, project_id, done),
{
    let mut best: Option<ProjectStatus> = None;
    let mut i: usize = 0;
    while i < statuses.len()
        invariant
            i <= statuses.len(),
            best == first_status(statuses@.take(i as int), project_id, done),
        decreases statuses.len() - i,
    {
        proof {
            assert(statuses@.take(i + 1).drop_last() =~= statuses@.take(i as int));
            assert(statuses@.take(i + 1).last() == statuses@[i as int]);
        }
        let s = statuses[i];
        let flagged = if done { s.is_done_state } else { s.is_default };
        if s.project_id == project_id && flagged {
            match best {
                None => { best = Some(s); },
                Some(b) => {
                    if s.position < b.position {
                        best = Some(s);
                    }
                },
            }
        }
        i += 1;
    }
    proof {
        assert(statuses@.take(statuses.len() as int) =~= statuses@);
    }
    best
}

} // verus!
